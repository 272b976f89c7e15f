//! What a test case is to the harness.

use vstd::prelude::*;
use crate::context::TestContext;
use crate::error::RunError;

verus! {

/// `std::path::PathBuf`: the path of a source file, carried through as it is.
#[verifier::external_type_specification]
#[verifier::external_body]
pub struct ExPathBuf(std::path::PathBuf);

/// One schedulable unit of test work.
pub trait Case: Send + Sync + 'static {
    /// The type of the value that the harness hands to the case when it runs; `()` for
    /// a case that takes none.
    type Input;

    /// The name of the case as plain values; it does not change.
    spec fn spec_name(&self) -> Seq<char>;

    /// The kind of the case; it does not change.
    spec fn kind_of(&self) -> TestKind;

    /// The source of the case, if it is known; it does not change.
    spec fn source_of(&self) -> Option<Source>;

    /// What the case needs to hold before it is run.
    spec fn runnable(&self) -> bool;

    /// Whether the case must not run while another case runs, in the run that `state`
    /// describes.
    spec fn exclusive_in(&self, state: &TestContext<Self::Input>) -> bool;

    /// Whether running the case in the run that `state` describes can give `result`.
    spec fn may_give(&self, state: &TestContext<Self::Input>, result: Result<(), RunError>) -> bool;

    /// The name of the case: by convention a path of identifiers separated by `::`.
    fn name(&self) -> (name: &str)
        ensures
            name@ == self.spec_name(),
    ;

    /// Where the case is written, by the conventions of a crate.
    fn kind(&self) -> (kind: TestKind)
        ensures
            kind == self.kind_of(),
    ;

    /// Where the case comes from, if that is known.
    fn source(&self) -> (source: Option<&Source>)
        ensures
            match source {
                Some(place) => self.source_of() == Some(*place),
                None => self.source_of() is None,
            },
    ;

    /// Whether the case must not run while another case runs.
    fn exclusive(&self, state: &TestContext<Self::Input>) -> (yes: bool)
        ensures
            yes == self.exclusive_in(state),
    ;

    fn run(&self, state: &TestContext<Self::Input>) -> (result: Result<(), RunError>)
        requires
            self.runnable(),
        ensures
            self.may_give(state, result),
    ;
}

/// The kind of a test by where it is written.
#[derive(Copy, Clone, Debug, PartialEq, Eq, Structural, Hash)]
pub enum TestKind {
    /// In the sources of the crate.
    UnitTest,
    /// In the tests directory of the crate.
    IntegrationTest,
    /// In the documentation.
    DocTest,
    /// Anywhere else.
    Unknown,
}

impl Default for TestKind {
    fn default() -> (kind: Self)
        ensures
            kind == TestKind::Unknown,
    {
        TestKind::Unknown
    }
}

/// Where a case comes from.
#[derive(Debug)]
#[non_exhaustive]
pub enum Source {
    Rust {
        source_file: std::path::PathBuf,
        start_line: usize,
        start_col: usize,
        end_line: usize,
        end_col: usize,
    },
    Path(std::path::PathBuf),
}

} // verus!
