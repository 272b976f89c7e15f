//! The verbose reporter: one line for each case.

use vstd::prelude::*;
use crate::event::Event;
use crate::event::EventView;
use crate::event::MessageKind;
use crate::notify::Notifier;
use crate::notify::Sink;
use crate::notify::WriteError;
use crate::notify::style::FAILED;
use crate::notify::style::IGNORED;
use crate::notify::style::OK;
use crate::notify::style::painted;
use crate::notify::style::push_painted;
use crate::notify::style::tone;
use crate::notify::style::tone_of;
use crate::notify::summary::Summary;
use crate::notify::summary::SummaryView;
use crate::notify::summary::complete_text;
use crate::notify::summary::kind_of;
use crate::notify::summary::start_text;
use crate::notify::summary::step;

verus! {

/// The number of bytes that `name` takes in UTF-8.
pub open spec fn byte_len(name: Seq<char>) -> nat {
    vstd::utf8::encode_utf8(name).len()
}

/// `name`, followed by as many spaces as it has fewer characters than `width`.
pub open spec fn padded(name: Seq<char>, width: nat) -> Seq<char> {
    if name.len() >= width {
        name
    } else {
        name + Seq::new((width - name.len()) as nat, |i: int| ' ')
    }
}

/// The start of the line of a case: its name in a column as wide as the longest selected
/// name.
pub open spec fn case_lead(name: Seq<char>, width: nat) -> Seq<char> {
    "test "@ + padded(name, width) + " ... "@
}

/// The word that ends the line of a case, painted by its status where the report is
/// colored.
pub open spec fn status_word(colored: bool, status: Option<MessageKind>) -> Seq<char> {
    match status {
        Some(MessageKind::Ignored) => painted(tone(colored, IGNORED), "ignored"@),
        Some(MessageKind::Error) => painted(tone(colored, FAILED), "FAILED"@),
        None => painted(tone(colored, OK), "ok"@),
    }
}

/// The state of the verbose reporter as plain values.
pub struct PrettyView {
    pub is_multithreaded: bool,
    pub summary: SummaryView,
    pub name_width: nat,
}

/// The state of the verbose reporter after `event`.
pub open spec fn pretty_step(state: PrettyView, event: EventView) -> PrettyView {
    PrettyView {
        is_multithreaded: state.is_multithreaded,
        summary: step(state.summary, event),
        name_width: match event {
            EventView::DiscoverCase { name, selected, .. } => if selected && byte_len(name)
                > state.name_width {
                byte_len(name)
            } else {
                state.name_width
            },
            _ => state.name_width,
        },
    }
}

/// What the verbose reporter writes for `event`. While cases run one at a time, the line of
/// a case opens when the case starts and closes when it completes; while they run in
/// parallel, the whole line is written at completion.
pub open spec fn pretty_text(state: PrettyView, event: EventView) -> Seq<char> {
    let summary = step(state.summary, event);
    match event {
        EventView::RunStart { .. } => start_text(summary),
        EventView::CaseStart { name, .. } => if state.is_multithreaded {
            Seq::empty()
        } else {
            case_lead(name, state.name_width)
        },
        EventView::CaseComplete { name, .. } => (if state.is_multithreaded {
            case_lead(name, state.name_width)
        } else {
            Seq::empty()
        }) + status_word(summary.colored, kind_of(summary.cases, name)) + "\n"@,
        EventView::RunComplete { .. } => complete_text(summary),
        _ => Seq::empty(),
    }
}

/// Appends `name` and the spaces that fill it up to `width` characters.
pub fn push_padded(out: &mut String, name: &str, width: usize)
    ensures
        final(out)@ == old(out)@ + padded(name@, width as nat),
{
    out.append(name);
    let len = name.unicode_len();
    if len < width {
        let fill: usize = width - len;
        let mut i: usize = 0;
        while i < fill
            invariant
                i <= fill,
                out@ == old(out)@ + name@ + Seq::new(i as nat, |k: int| ' '),
            decreases fill - i,
        {
            out.push(' ');
            proof {
                assert(Seq::new(i as nat, |k: int| ' ').push(' ') =~= Seq::new(
                    (i + 1) as nat,
                    |k: int| ' ',
                ));
            }
            i += 1;
        }
        proof {
            assert(out@ =~= old(out)@ + padded(name@, width as nat));
        }
    } else {
        proof {
            assert(out@ =~= old(out)@ + padded(name@, width as nat));
        }
    }
}

fn push_case_lead(out: &mut String, name: &str, width: usize)
    ensures
        final(out)@ == old(out)@ + case_lead(name@, width as nat),
{
    out.append("test ");
    push_padded(out, name, width);
    out.append(" ... ");
    proof {
        assert(out@ =~= old(out)@ + case_lead(name@, width as nat));
    }
}

fn push_status_word(out: &mut String, colored: bool, status: Option<MessageKind>)
    ensures
        final(out)@ == old(out)@ + status_word(colored, status),
{
    match status {
        Some(MessageKind::Ignored) => push_painted(out, tone_of(colored, IGNORED), "ignored"),
        Some(MessageKind::Error) => push_painted(out, tone_of(colored, FAILED), "FAILED"),
        None => push_painted(out, tone_of(colored, OK), "ok"),
    }
}

/// The verbose reporter, writing to `W`.
pub struct PrettyRunNotifier<W> {
    writer: W,
    is_multithreaded: bool,
    summary: Summary,
    name_width: usize,
    refused: Ghost<nat>,
    hinted: Ghost<Seq<(nat, bool)>>,
}

impl<W: Sink> PrettyRunNotifier<W> {
    pub closed spec fn view(&self) -> PrettyView {
        PrettyView {
            is_multithreaded: self.is_multithreaded,
            summary: self.summary@,
            name_width: self.name_width as nat,
        }
    }

    /// The sink that the reporter writes to.
    pub closed spec fn sink(&self) -> W {
        self.writer
    }

    pub fn new(writer: W) -> (notifier: Self)
        ensures
            notifier.sink() == writer,
            notifier.view() == (PrettyView {
                is_multithreaded: false,
                summary: crate::notify::summary::fresh(),
                name_width: 0,
            }),
            notifier.log() == Seq::<EventView>::empty(),
            notifier.refused() == 0,
            notifier.hints() == Seq::<(nat, bool)>::empty(),
    {
        PrettyRunNotifier {
            writer,
            is_multithreaded: false,
            summary: Summary::new(),
            name_width: 0,
            refused: Ghost(0),
            hinted: Ghost(Seq::empty()),
        }
    }

    /// The reporter with its colors switched on or off.
    pub fn colored(self, yes: bool) -> (notifier: Self)
        ensures
            notifier.view() == (PrettyView {
                summary: SummaryView { colored: yes, ..self.view().summary },
                ..self.view()
            }),
            notifier.sink() == self.sink(),
            notifier.log() == self.log(),
            notifier.refused() == self.refused(),
            notifier.hints() == self.hints(),
    {
        PrettyRunNotifier {
            writer: self.writer,
            is_multithreaded: self.is_multithreaded,
            summary: self.summary.colored(yes),
            name_width: self.name_width,
            refused: self.refused,
            hinted: self.hinted,
        }
    }

    /// The sink, with all that was written to it.
    pub fn writer(&self) -> (writer: &W)
        ensures
            *writer == self.sink(),
    {
        &self.writer
    }

    /// What the reporter writes for `event`, after the summary has taken it.
    fn render(&self, event: &Event, before: Ghost<PrettyView>) -> (text: String)
        requires
            self.summary@ == step(before@.summary, event@),
            self.is_multithreaded == before@.is_multithreaded,
            self.name_width == before@.name_width,
        ensures
            text@ == pretty_text(before@, event@),
    {
        let mut text = String::new();
        match event {
            Event::RunStart(_) => {
                let r = self.summary.write_start(&mut text);
            },
            Event::CaseStart(inner) => {
                if !self.is_multithreaded {
                    push_case_lead(&mut text, inner.name.as_str(), self.name_width);
                }
            },
            Event::CaseComplete(inner) => {
                if self.is_multithreaded {
                    push_case_lead(&mut text, inner.name.as_str(), self.name_width);
                }
                let status = self.summary.get_kind(inner.name.as_str());
                push_status_word(&mut text, self.summary.is_colored(), status);
                text.append("\n");
            },
            Event::RunComplete(_) => {
                let r = self.summary.write_complete(&mut text);
            },
            _ => {},
        }
        proof {
            assert(text@ =~= pretty_text(before@, event@));
        }
        text
    }
}

impl<W: Sink> Notifier for PrettyRunNotifier<W> {
    closed spec fn log(&self) -> Seq<EventView> {
        self.summary.events()
    }

    closed spec fn refused(&self) -> nat {
        self.refused@
    }

    closed spec fn hints(&self) -> Seq<(nat, bool)> {
        self.hinted@
    }

    open spec fn reliable(&self) -> bool {
        self.sink().reliable()
    }

    fn threaded(&mut self, yes: bool)
        ensures
            final(self).view() == (PrettyView { is_multithreaded: yes, ..old(self).view() }),
            final(self).sink() == old(self).sink(),
    {
        self.is_multithreaded = yes;
        proof {
            self.hinted@ = self.hinted@.push((self.summary.events().len(), yes));
        }
    }

    fn notify(&mut self, event: Event) -> (r: Result<(), WriteError>)
        ensures
            r is Ok ==> final(self).view() == pretty_step(old(self).view(), event@),
            r is Ok ==> final(self).sink().written() == old(self).sink().written() + pretty_text(
                old(self).view(),
                event@,
            ),
    {
        let ghost before = self.view();
        self.summary.record(&event);
        match &event {
            Event::DiscoverCase(inner) => {
                if inner.selected {
                    let len = inner.name.as_str().as_bytes().len();
                    if len > self.name_width {
                        self.name_width = len;
                    }
                }
            },
            _ => {},
        }
        let text = self.render(&event, Ghost(PrettyView { name_width: self.name_width as nat, ..before }));
        proof {
            assert(pretty_text(PrettyView { name_width: self.name_width as nat, ..before }, event@)
                == pretty_text(before, event@));
        }
        let r = match self.writer.write_text(text.as_str()) {
            Ok(()) => self.writer.flush(),
            Err(e) => Err(e),
        };
        proof {
            if r is Err {
                self.refused@ = self.refused@ + 1;
            }
        }
        r
    }
}

} // verus!
