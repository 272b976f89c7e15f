//! Argument files: an argument `@path` stands for the lines of the file at `path`.

use vstd::prelude::*;
use crate::event::text_view;
use crate::opts::texts;
use crate::text::to_chars;

verus! {

/// The path of the file that an argument stands for, if it stands for one.
pub open spec fn argfile(arg: Seq<char>) -> Option<Seq<char>> {
    if arg.len() > 0 && arg[0] == '@' {
        Some(arg.skip(1))
    } else {
        None
    }
}

/// The position of the first line feed of `text`, and its length where it has none.
pub open spec fn first_break(text: Seq<char>) -> int
    decreases text.len(),
{
    if text.len() == 0 || text[0] == '\n' {
        0
    } else {
        1 + first_break(text.skip(1))
    }
}

/// A line without the carriage return that ends it, if one does.
pub open spec fn without_return(line: Seq<char>) -> Seq<char> {
    if line.len() > 0 && line.last() == '\r' {
        line.drop_last()
    } else {
        line
    }
}

/// The lines of `text`. A line ends at a line feed, or at a carriage return and a line
/// feed; the last line needs no end.
pub open spec fn lines_of(text: Seq<char>) -> Seq<Seq<char>>
    decreases text.len(),
    via lines_of_ends
{
    if text.len() == 0 {
        Seq::empty()
    } else {
        let at = first_break(text);
        if at >= text.len() {
            seq![text]
        } else {
            seq![without_return(text.take(at))] + lines_of(text.skip(at + 1))
        }
    }
}

#[via_fn]
proof fn lines_of_ends(text: Seq<char>) {
    if text.len() > 0 {
        lemma_first_break(text);
    }
}

/// The first line feed lies within the text, where there is one, and no line feed lies
/// before it.
pub proof fn lemma_first_break(text: Seq<char>)
    ensures
        0 <= first_break(text) <= text.len(),
        first_break(text) < text.len() ==> text[first_break(text)] == '\n',
        forall|i: int| 0 <= i < first_break(text) ==> text[i] != '\n',
    decreases text.len(),
{
    if text.len() > 0 && text[0] != '\n' {
        let rest = text.skip(1);
        lemma_first_break(rest);
        assert forall|i: int| 0 <= i < first_break(text) implies text[i] != '\n' by {
            if i > 0 {
                assert(text[i] == rest[i - 1]);
            }
        }
        if first_break(text) < text.len() {
            assert(text[first_break(text)] == rest[first_break(rest)]);
        }
    }
}

/// The command line in which every argument that has a content here is replaced by the
/// lines of that content.
pub open spec fn expansion(args: Seq<Seq<char>>, contents: Seq<Option<Seq<char>>>) -> Seq<
    Seq<char>,
>
    decreases args.len(),
{
    if args.len() == 0 {
        Seq::empty()
    } else {
        expansion(args.drop_last(), contents.drop_last()) + match contents.last() {
            Some(content) => lines_of(content),
            None => seq![args.last()],
        }
    }
}

/// A list of optional texts as plain values.
pub open spec fn text_views(list: Seq<Option<String>>) -> Seq<Option<Seq<char>>> {
    list.map_values(|text: Option<String>| text_view(text))
}

fn text_from(chars: &Vec<char>, from: usize, to: usize) -> (text: String)
    requires
        from <= to <= chars.len(),
    ensures
        text@ == chars@.subrange(from as int, to as int),
{
    let mut text = String::new();
    let mut i: usize = from;
    while i < to
        invariant
            from <= i <= to <= chars.len(),
            text@ == chars@.subrange(from as int, i as int),
        decreases to - i,
    {
        text.push(chars[i]);
        proof {
            assert(chars@.subrange(from as int, i + 1) =~= chars@.subrange(
                from as int,
                i as int,
            ).push(chars@[i as int]));
        }
        i += 1;
    }
    text
}

/// The path of the file that `arg` stands for, if it stands for one.
pub fn argfile_path(arg: &str) -> (path: Option<String>)
    ensures
        text_view(path) == argfile(arg@),
{
    let chars = to_chars(arg);
    if chars.len() > 0 && chars[0] == '@' {
        let path = text_from(&chars, 1, chars.len());
        proof {
            assert(chars@.subrange(1, chars.len() as int) =~= chars@.skip(1));
        }
        Some(path)
    } else {
        None
    }
}

/// The paths of the files that the arguments stand for.
pub fn argfile_paths(args: &Vec<String>) -> (paths: Vec<Option<String>>)
    ensures
        paths.len() == args.len(),
        forall|i: int| 0 <= i < args.len() ==> text_view(#[trigger] paths[i]) == argfile(args[i]@),
{
    let mut paths: Vec<Option<String>> = Vec::new();
    let mut i: usize = 0;
    while i < args.len()
        invariant
            i <= args.len(),
            paths.len() == i,
            forall|k: int| 0 <= k < i ==> text_view(#[trigger] paths[k]) == argfile(args[k]@),
        decreases args.len() - i,
    {
        paths.push(argfile_path(args[i].as_str()));
        i += 1;
    }
    paths
}

/// The lines of `content`.
pub fn file_lines(content: &str) -> (lines: Vec<String>)
    ensures
        texts(lines@) == lines_of(content@),
{
    let chars = to_chars(content);
    let mut lines: Vec<String> = Vec::new();
    let mut from: usize = 0;
    proof {
        assert(chars@.skip(0) =~= chars@);
        assert(texts(lines@) =~= Seq::<Seq<char>>::empty());
    }
    while from < chars.len()
        invariant
            from <= chars.len(),
            chars@ == content@,
            lines_of(content@) == texts(lines@) + lines_of(chars@.skip(from as int)),
        decreases chars.len() - from,
    {
        let ghost rest = chars@.skip(from as int);
        let mut to: usize = from;
        proof {
            assert(rest.skip(0) =~= rest);
        }
        while to < chars.len() && chars[to] != '\n'
            invariant
                from <= to <= chars.len(),
                rest == chars@.skip(from as int),
                first_break(rest) == (to - from) + first_break(rest.skip(to - from)),
            decreases chars.len() - to,
        {
            proof {
                let tail = rest.skip(to - from);
                assert(tail[0] == chars@[to as int]);
                assert(tail.skip(1) =~= rest.skip(to - from + 1));
            }
            to += 1;
        }
        proof {
            let tail = rest.skip(to - from);
            if to < chars.len() {
                assert(tail[0] == chars@[to as int]);
            }
            assert(first_break(rest) == to - from);
            assert(rest.take(to - from) =~= chars@.subrange(from as int, to as int));
        }
        let ghost before = texts(lines@);
        if to == chars.len() {
            let line = text_from(&chars, from, to);
            proof {
                assert(rest.take(rest.len() as int) =~= rest);
                assert(lines_of(rest) =~= seq![rest]);
                assert(texts(lines@.push(line)) =~= before.push(line@));
                assert(before + seq![rest] + lines_of(chars@.skip(to as int)) =~= before.push(
                    rest,
                )) by {
                    assert(chars@.skip(to as int) =~= Seq::<char>::empty());
                }
            }
            lines.push(line);
            from = to;
        } else {
            let end: usize = if to > from && chars[to - 1] == '\r' {
                to - 1
            } else {
                to
            };
            let line = text_from(&chars, from, end);
            proof {
                let cut = rest.take(to - from);
                if to > from {
                    assert(cut.last() == chars@[to - 1]);
                }
                assert(line@ =~= without_return(cut));
                assert(rest.skip(to - from + 1) =~= chars@.skip(to + 1));
                assert(texts(lines@.push(line)) =~= before.push(line@));
                assert(before + (seq![without_return(cut)] + lines_of(chars@.skip(to + 1)))
                    =~= before.push(line@) + lines_of(chars@.skip(to + 1)));
            }
            lines.push(line);
            from = to + 1;
        }
    }
    proof {
        assert(chars@.skip(from as int) =~= Seq::<char>::empty());
        assert(texts(lines@) + Seq::<Seq<char>>::empty() =~= texts(lines@));
    }
    lines
}

/// Replaces every argument that has a content in `contents` by the lines of that
/// content. `contents` holds, for each argument, what was read from the file that the
/// argument stands for, and nothing for an argument that stands for itself.
pub fn expand_args(args: Vec<String>, contents: &Vec<Option<String>>) -> (expanded: Vec<String>)
    requires
        contents.len() == args.len(),
    ensures
        texts(expanded@) == expansion(texts(args@), text_views(contents@)),
{
    let ghost all = texts(args@);
    let ghost given = text_views(contents@);
    let mut expanded: Vec<String> = Vec::new();
    let mut i: usize = 0;
    proof {
        assert(all.take(0) =~= Seq::<Seq<char>>::empty());
        assert(texts(expanded@) =~= Seq::<Seq<char>>::empty());
    }
    while i < args.len()
        invariant
            i <= args.len(),
            contents.len() == args.len(),
            all == texts(args@),
            given == text_views(contents@),
            texts(expanded@) == expansion(all.take(i as int), given.take(i as int)),
        decreases args.len() - i,
    {
        proof {
            assert(all.take(i + 1).drop_last() =~= all.take(i as int));
            assert(given.take(i + 1).drop_last() =~= given.take(i as int));
            assert(all.take(i + 1).last() == args@[i as int]@);
            assert(given.take(i + 1).last() == text_view(contents@[i as int]));
        }
        let ghost before = texts(expanded@);
        match &contents[i] {
            Some(content) => {
                let mut lines = file_lines(content.as_str());
                let ghost added = texts(lines@);
                proof {
                    assert(texts(expanded@ + lines@) =~= before + added);
                }
                expanded.append(&mut lines);
            },
            None => {
                let arg = args[i].clone();
                proof {
                    assert(texts(expanded@.push(arg)) =~= before + seq![arg@]);
                }
                expanded.push(arg);
            },
        }
        i += 1;
    }
    proof {
        assert(all.take(i as int) =~= all);
        assert(given.take(i as int) =~= given);
    }
    expanded
}

} // verus!
