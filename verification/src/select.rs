//! Selection: which cases the filters keep, and in what order the kept cases run.

use vstd::prelude::*;
use crate::case::Case;
use crate::opts::TestOpts;
use crate::opts::TestOptsView;
use crate::opts::texts;
use crate::text::contains;
use crate::text::contains_text;
use crate::text::same_text;
use crate::text::text_le;
use crate::text::to_chars;

verus! {

/// Whether `filter` matches `name`: as a substring, or exactly.
pub open spec fn matches(name: Seq<char>, filter: Seq<char>, exact: bool) -> bool {
    if exact {
        name == filter
    } else {
        contains_text(name, filter)
    }
}

/// Whether one of `filters` matches `name`.
pub open spec fn any_match(name: Seq<char>, filters: Seq<Seq<char>>, exact: bool) -> bool {
    exists|i: int| 0 <= i < filters.len() && matches(name, #[trigger] filters[i], exact)
}

/// Whether `at` is the lowest index of a filter that matches `name`.
pub open spec fn is_first_match(
    name: Seq<char>,
    filters: Seq<Seq<char>>,
    exact: bool,
    at: int,
) -> bool {
    &&& 0 <= at < filters.len()
    &&& matches(name, filters[at], exact)
    &&& forall|j: int| 0 <= j < at ==> !matches(name, #[trigger] filters[j], exact)
}

/// The lowest index of a filter that matches `name`.
pub open spec fn first_match(name: Seq<char>, filters: Seq<Seq<char>>, exact: bool) -> Option<
    nat,
> {
    if any_match(name, filters, exact) {
        Some((choose|at: int| is_first_match(name, filters, exact, at)) as nat)
    } else {
        None
    }
}

/// Whether the case named `name` is part of the run: a filter matches it, or there is no
/// filter, and no skip pattern matches it.
pub open spec fn selected(name: Seq<char>, opts: TestOptsView) -> bool {
    (opts.filters.len() == 0 || any_match(name, opts.filters, opts.filter_exact)) && !any_match(
        name,
        opts.skip,
        opts.filter_exact,
    )
}

/// The rank of a selected case in the run: the index of the first filter that matches it,
/// and zero without filters. A case that is not selected has none.
pub open spec fn priority(name: Seq<char>, opts: TestOptsView) -> Option<nat> {
    if any_match(name, opts.skip, opts.filter_exact) {
        None
    } else if opts.filters.len() == 0 {
        Some(0)
    } else {
        first_match(name, opts.filters, opts.filter_exact)
    }
}

/// Among the filters that match a name, one comes first.
pub proof fn lemma_first_match(name: Seq<char>, filters: Seq<Seq<char>>, exact: bool)
    ensures
        match first_match(name, filters, exact) {
            Some(at) => is_first_match(name, filters, exact, at as int),
            None => forall|j: int|
                0 <= j < filters.len() ==> !matches(name, #[trigger] filters[j], exact),
        },
        forall|at: int|
            is_first_match(name, filters, exact, at) ==> first_match(name, filters, exact)
                == Some(at as nat),
{
    if any_match(name, filters, exact) {
        let w = choose|i: int| 0 <= i < filters.len() && matches(name, #[trigger] filters[i], exact);
        lemma_lowest_exists(name, filters, exact, w);
        let at = choose|at: int| is_first_match(name, filters, exact, at);
        assert forall|other: int| is_first_match(name, filters, exact, other) implies other
            == at by {
            if other < at {
                assert(!matches(name, filters[other], exact));
            } else if at < other {
                assert(!matches(name, filters[at], exact));
            }
        }
    } else {
        assert forall|at: int| is_first_match(name, filters, exact, at) implies false by {
            assert(matches(name, filters[at], exact));
        }
    }
}

proof fn lemma_lowest_exists(name: Seq<char>, filters: Seq<Seq<char>>, exact: bool, w: int)
    requires
        0 <= w < filters.len(),
        matches(name, filters[w], exact),
    ensures
        exists|at: int| is_first_match(name, filters, exact, at),
    decreases w,
{
    if exists|j: int| 0 <= j < w && matches(name, #[trigger] filters[j], exact) {
        let j = choose|j: int| 0 <= j < w && matches(name, #[trigger] filters[j], exact);
        lemma_lowest_exists(name, filters, exact, j);
    } else {
        assert(is_first_match(name, filters, exact, w));
    }
}

/// A case is selected exactly when it has a rank.
pub proof fn lemma_selected_iff_ranked(name: Seq<char>, opts: TestOptsView)
    ensures
        selected(name, opts) <==> priority(name, opts) is Some,
{
    lemma_first_match(name, opts.filters, opts.filter_exact);
}

/// Whether `filter` matches the name given as characters.
fn filter_matches(name: &Vec<char>, filter: &str, exact: bool) -> (yes: bool)
    ensures
        yes == matches(name@, filter@, exact),
{
    let wanted = to_chars(filter);
    if exact {
        same_text(name, &wanted)
    } else {
        contains(name, &wanted)
    }
}

/// The lowest index of a filter that matches the name given as characters.
fn find_first_match(name: &Vec<char>, filters: &Vec<String>, exact: bool) -> (at: Option<usize>)
    ensures
        match at {
            Some(at) => is_first_match(name@, texts(filters@), exact, at as int),
            None => forall|j: int|
                0 <= j < filters.len() ==> !matches(name@, #[trigger] texts(filters@)[j], exact),
        },
{
    let mut i: usize = 0;
    while i < filters.len()
        invariant
            i <= filters.len(),
            forall|j: int| 0 <= j < i ==> !matches(name@, #[trigger] texts(filters@)[j], exact),
        decreases filters.len() - i,
    {
        proof {
            assert(texts(filters@)[i as int] == filters@[i as int]@);
        }
        if filter_matches(name, filters[i].as_str(), exact) {
            return Some(i);
        }
        i += 1;
    }
    None
}

/// The rank of the name given as characters.
pub fn priority_of(name: &Vec<char>, opts: &TestOpts) -> (rank: Option<usize>)
    ensures
        match rank {
            Some(rank) => priority(name@, opts@) == Some(rank as nat),
            None => priority(name@, opts@) is None,
        },
{
    proof {
        lemma_first_match(name@, opts@.filters, opts.filter_exact);
    }
    let skipped = find_first_match(name, &opts.skip, opts.filter_exact);
    if skipped.is_some() {
        None
    } else if opts.filters.len() == 0 {
        Some(0)
    } else {
        find_first_match(name, &opts.filters, opts.filter_exact)
    }
}

/// Whether `filter` matches the name of `case`, under the matching rule of `opts`.
pub fn matches_filter<C: Case>(case: &C, filter: &str, opts: &TestOpts) -> (yes: bool)
    ensures
        yes == matches(case.spec_name(), filter@, opts.filter_exact),
{
    let name = to_chars(case.name());
    filter_matches(&name, filter, opts.filter_exact)
}

/// The rank of `case` in the run, and none for a case that the options leave out.
pub fn case_priority<C: Case>(case: &C, opts: &TestOpts) -> (rank: Option<usize>)
    ensures
        match rank {
            Some(rank) => priority(case.spec_name(), opts@) == Some(rank as nat),
            None => priority(case.spec_name(), opts@) is None,
        },
{
    let name = to_chars(case.name());
    priority_of(&name, opts)
}

/// The order in which selected cases run: by rank, and by name within a rank.
pub open spec fn runs_before(a: (nat, Seq<char>), b: (nat, Seq<char>)) -> bool {
    a.0 < b.0 || (a.0 == b.0 && text_le(a.1, b.1))
}

} // verus!
