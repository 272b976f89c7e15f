//! The aggregate of a run, built by replaying its events.

use vstd::prelude::*;
use crate::event::CaseMessage;
use crate::event::Elapsed;
use crate::event::Event;
use crate::event::EventView;
use crate::event::MessageKind;
use crate::event::seconds_rounded;
use crate::event::text_view;
use crate::notify::Notifier;
use crate::notify::Sink;
use crate::notify::WriteError;
use crate::notify::style::FAILED;
use crate::notify::style::OK;
use crate::notify::style::painted;
use crate::notify::style::push_painted;
use crate::notify::style::tone;
use crate::notify::style::tone_of;
use crate::text::decimal;
use crate::text::push_decimal;
use crate::text::same_text;
use crate::text::to_chars;

verus! {

/// A message of a case, reduced to what the summary reads: its severity and its text.
pub type Note = (MessageKind, Option<Seq<char>>);

/// What the summary knows of one case.
pub struct CaseRecord {
    pub name: Seq<char>,
    pub messages: Seq<Note>,
    pub started: bool,
    pub completed: bool,
}

/// The summary as plain values. `cases` holds one record for each name that an event
/// carried, in the order in which the names first came: the order of discovery, where the
/// cases were discovered before they ran. `colored` tells whether the report paints its
/// status words.
pub struct SummaryView {
    pub colored: bool,
    pub num_run: nat,
    pub num_filtered_out: nat,
    pub cases: Seq<CaseRecord>,
    pub elapsed: Option<Elapsed>,
}

/// What an event adds to the record of its case.
pub enum Mark {
    Found,
    Started,
    Completed,
    Message(MessageKind, Option<Seq<char>>),
}

/// The number of leading records under another name than `name`: where the first record
/// for `name` is, and the number of records where there is none.
pub open spec fn slot(cases: Seq<CaseRecord>, name: Seq<char>) -> nat
    decreases cases.len(),
{
    if cases.len() == 0 || cases[0].name == name {
        0
    } else {
        1 + slot(cases.skip(1), name)
    }
}

/// Whether `cases` holds a record for `name`.
pub open spec fn recorded(cases: Seq<CaseRecord>, name: Seq<char>) -> bool {
    slot(cases, name) < cases.len()
}

pub open spec fn blank(name: Seq<char>) -> CaseRecord {
    CaseRecord { name, messages: Seq::empty(), started: false, completed: false }
}

pub open spec fn marked(record: CaseRecord, mark: Mark) -> CaseRecord {
    match mark {
        Mark::Found => record,
        Mark::Started => CaseRecord { started: true, ..record },
        Mark::Completed => CaseRecord { completed: true, ..record },
        Mark::Message(kind, message) => CaseRecord {
            messages: record.messages.push((kind, message)),
            ..record
        },
    }
}

/// The records after an event for `name`: its record is marked where it stands; where
/// there was none, one is made behind all the others.
pub open spec fn noted(cases: Seq<CaseRecord>, name: Seq<char>, mark: Mark) -> Seq<CaseRecord> {
    let at = slot(cases, name) as int;
    if recorded(cases, name) {
        cases.update(at, marked(cases[at], mark))
    } else {
        cases.push(marked(blank(name), mark))
    }
}

/// A counter after one more item; it stays at the largest value a machine word holds.
pub open spec fn bumped(n: nat) -> nat {
    if n < usize::MAX {
        n + 1
    } else {
        n
    }
}

/// The summary after one more event.
pub open spec fn step(summary: SummaryView, event: EventView) -> SummaryView {
    match event {
        EventView::DiscoverCase { name, selected, .. } => if selected {
            SummaryView {
                num_run: bumped(summary.num_run),
                cases: noted(summary.cases, name, Mark::Found),
                ..summary
            }
        } else {
            SummaryView {
                num_filtered_out: bumped(summary.num_filtered_out),
                cases: noted(summary.cases, name, Mark::Found),
                ..summary
            }
        },
        EventView::CaseStart { name, .. } => SummaryView {
            cases: noted(summary.cases, name, Mark::Started),
            ..summary
        },
        EventView::CaseMessage { name, kind, message, .. } => SummaryView {
            cases: noted(summary.cases, name, Mark::Message(kind, message)),
            ..summary
        },
        EventView::CaseComplete { name, .. } => SummaryView {
            cases: noted(summary.cases, name, Mark::Completed),
            ..summary
        },
        EventView::RunComplete { elapsed } => SummaryView { elapsed, ..summary },
        _ => summary,
    }
}

/// The summary before any event. Its report is not colored.
pub open spec fn fresh() -> SummaryView {
    SummaryView {
        colored: false,
        num_run: 0,
        num_filtered_out: 0,
        cases: Seq::empty(),
        elapsed: None,
    }
}

/// The summary of a whole event stream.
pub open spec fn replayed(log: Seq<EventView>) -> SummaryView {
    replayed_onto(fresh(), log)
}

/// The status that the messages of a case give it: the highest severity among them, where
/// `Ignored` outranks `Error`; no status without a message.
pub open spec fn run_status(messages: Seq<Note>) -> Option<MessageKind> {
    if messages.len() == 0 {
        None
    } else if exists|i: int| 0 <= i < messages.len() && messages[i].0 == MessageKind::Ignored {
        Some(MessageKind::Ignored)
    } else {
        Some(MessageKind::Error)
    }
}

/// The status of the case named `name`, and none for a name without a record.
pub open spec fn kind_of(cases: Seq<CaseRecord>, name: Seq<char>) -> Option<MessageKind> {
    if recorded(cases, name) {
        run_status(cases[slot(cases, name) as int].messages)
    } else {
        None
    }
}

/// Whether an event of the run of the case was seen: its start, its completion or a
/// message. A case that was only discovered has no part in the final report.
pub open spec fn ran(record: CaseRecord) -> bool {
    record.started || record.completed || record.messages.len() > 0
}

/// The status under which the final report counts a case that ran: a case that never
/// started or never completed has failed, whatever its messages say.
pub open spec fn verdict(record: CaseRecord) -> Option<MessageKind> {
    if !record.started || !record.completed {
        Some(MessageKind::Error)
    } else {
        run_status(record.messages)
    }
}

/// The text of the last `Error` message, where there is one.
pub open spec fn last_error(messages: Seq<Note>) -> Option<Option<Seq<char>>>
    decreases messages.len(),
{
    if messages.len() == 0 {
        None
    } else if messages.last().0 == MessageKind::Error {
        Some(messages.last().1)
    } else {
        last_error(messages.drop_last())
    }
}

/// What the report prints under the name of a failed case: the text of its last `Error`
/// message; without such a message, why it counts as failed.
pub open spec fn failure_text(record: CaseRecord) -> Option<Seq<char>> {
    match last_error(record.messages) {
        Some(text) => text,
        None => if !record.completed {
            Some("test never completed"@)
        } else if !record.started {
            Some("test found that never started"@)
        } else {
            None
        },
    }
}

/// How many of `cases` the report counts under `status`.
pub open spec fn count(cases: Seq<CaseRecord>, status: Option<MessageKind>) -> nat
    decreases cases.len(),
{
    if cases.len() == 0 {
        0
    } else {
        count(cases.drop_last(), status) + if ran(cases.last()) && verdict(cases.last())
            == status {
            1nat
        } else {
            0nat
        }
    }
}

/// The block of one failed case in the first list of failures.
pub open spec fn failure_block(record: CaseRecord) -> Seq<char> {
    if ran(record) && verdict(record) == Some(MessageKind::Error) {
        match failure_text(record) {
            Some(text) => "---- "@ + record.name + " ----\n"@ + text + "\n"@ + "\n"@,
            None => Seq::empty(),
        }
    } else {
        Seq::empty()
    }
}

/// The line of one failed case in the second list of failures.
pub open spec fn failure_line(record: CaseRecord) -> Seq<char> {
    if ran(record) && verdict(record) == Some(MessageKind::Error) {
        "    "@ + record.name + "\n"@
    } else {
        Seq::empty()
    }
}

/// The first list of failures: the blocks of the failed cases, in the order of the records.
pub open spec fn failure_blocks(cases: Seq<CaseRecord>) -> Seq<char>
    decreases cases.len(),
{
    if cases.len() == 0 {
        Seq::empty()
    } else {
        failure_blocks(cases.drop_last()) + failure_block(cases.last())
    }
}

/// The second list of failures: the names of the failed cases, in the order of the records.
pub open spec fn failure_lines(cases: Seq<CaseRecord>) -> Seq<char>
    decreases cases.len(),
{
    if cases.len() == 0 {
        Seq::empty()
    } else {
        failure_lines(cases.drop_last()) + failure_line(cases.last())
    }
}

/// The text that opens a run: `running N tests`.
pub open spec fn start_text(summary: SummaryView) -> Seq<char> {
    "\n"@ + "running "@ + decimal(summary.num_run) + " test"@ + (if summary.num_run == 1 {
        ""@
    } else {
        "s"@
    }) + "\n"@
}

/// The two lists of failures, printed only when a case failed.
pub open spec fn failures_text(summary: SummaryView) -> Seq<char> {
    if count(summary.cases, Some(MessageKind::Error)) > 0 {
        "\n"@ + "failures:\n"@ + "\n"@ + failure_blocks(summary.cases) + "\n"@ + "failures:\n"@
            + failure_lines(summary.cases)
    } else {
        Seq::empty()
    }
}

/// The clause of the result line that gives the duration of the run, where `seconds` is
/// the duration in seconds.
pub open spec fn finished_clause(seconds: Option<Seq<char>>) -> Seq<char> {
    match seconds {
        Some(seconds) => "; finished in "@ + seconds + "s"@,
        None => Seq::empty(),
    }
}

/// The clause of the result line that gives the duration of the run.
pub open spec fn finished_text(elapsed: Option<Elapsed>) -> Seq<char> {
    finished_clause(
        match elapsed {
            Some(elapsed) => Some(seconds_rounded(elapsed.0)),
            None => None,
        },
    )
}

/// The line that closes a run. It begins with the status of the run.
pub open spec fn result_line(summary: SummaryView) -> Seq<char> {
    let failed = count(summary.cases, Some(MessageKind::Error));
    (if failed > 0 {
        painted(tone(summary.colored, FAILED), "FAILED"@)
    } else {
        painted(tone(summary.colored, OK), "ok"@)
    }) + ". "@ + decimal(count(summary.cases, None)) + " passed; "@ + decimal(failed)
        + " failed; "@ + decimal(count(summary.cases, Some(MessageKind::Ignored)))
        + " ignored; "@ + decimal(summary.num_filtered_out) + " filtered out"@ + finished_text(
        summary.elapsed,
    ) + "\n"@
}

/// The text that closes a run: the failures, then the result line between two empty lines.
pub open spec fn complete_text(summary: SummaryView) -> Seq<char> {
    failures_text(summary) + "\n"@ + result_line(summary) + "\n"@
}

/// What is known of one case: its messages in the order they came, and whether its start
/// and its completion were seen.
#[derive(Clone, Debug)]
pub struct CaseStatus {
    pub name: String,
    pub messages: Vec<CaseMessage>,
    pub started: bool,
    pub completed: bool,
}

pub open spec fn notes(messages: Seq<CaseMessage>) -> Seq<Note> {
    messages.map_values(|m: CaseMessage| (m.kind, text_view(m.message)))
}

impl View for CaseStatus {
    type V = CaseRecord;

    open spec fn view(&self) -> CaseRecord {
        CaseRecord {
            name: self.name@,
            messages: notes(self.messages@),
            started: self.started,
            completed: self.completed,
        }
    }
}

pub open spec fn records(rows: Seq<CaseStatus>) -> Seq<CaseRecord> {
    rows.map_values(|row: CaseStatus| row@)
}

/// The status that the messages of a case give it.
pub fn find_run_status(case_status: &CaseStatus) -> (status: Option<MessageKind>)
    ensures
        status == run_status(case_status@.messages),
{
    let mut ignored = false;
    let mut i: usize = 0;
    while i < case_status.messages.len()
        invariant
            i <= case_status.messages.len(),
            ignored ==> exists|k: int|
                0 <= k < i && (#[trigger] notes(case_status.messages@)[k]).0
                    == MessageKind::Ignored,
            !ignored ==> forall|k: int|
                0 <= k < i ==> (#[trigger] notes(case_status.messages@)[k]).0
                    != MessageKind::Ignored,
        decreases case_status.messages.len() - i,
    {
        proof {
            assert(notes(case_status.messages@)[i as int].0 == case_status.messages@[i as int].kind);
        }
        match case_status.messages[i].kind {
            MessageKind::Ignored => {
                ignored = true;
            },
            MessageKind::Error => {},
        }
        i += 1;
    }
    if case_status.messages.len() == 0 {
        None
    } else if ignored {
        Some(MessageKind::Ignored)
    } else {
        Some(MessageKind::Error)
    }
}

/// Whether an event of the run of the case was seen.
fn has_run(row: &CaseStatus) -> (yes: bool)
    ensures
        yes == ran(row@),
{
    row.started || row.completed || row.messages.len() > 0
}

/// The status under which the final report counts a case.
fn find_verdict(row: &CaseStatus) -> (status: Option<MessageKind>)
    ensures
        status == verdict(row@),
{
    if !row.started || !row.completed {
        Some(MessageKind::Error)
    } else {
        find_run_status(row)
    }
}

/// The text that the report prints under the name of a failed case.
fn find_failure_text(row: &CaseStatus) -> (text: Option<String>)
    ensures
        text_view(text) == failure_text(row@),
{
    let mut found: Option<Option<String>> = None;
    let mut i: usize = 0;
    while i < row.messages.len()
        invariant
            i <= row.messages.len(),
            match found {
                Some(text) => last_error(notes(row.messages@).take(i as int)) == Some(
                    text_view(text),
                ),
                None => last_error(notes(row.messages@).take(i as int)) is None,
            },
        decreases row.messages.len() - i,
    {
        proof {
            let all = notes(row.messages@);
            assert(all.take(i + 1).drop_last() =~= all.take(i as int));
            assert(all.take(i + 1).last() == all[i as int]);
        }
        match row.messages[i].kind {
            MessageKind::Error => {
                found = Some(row.messages[i].message.clone());
            },
            MessageKind::Ignored => {},
        }
        i += 1;
    }
    proof {
        let all = notes(row.messages@);
        assert(all.take(i as int) =~= all);
    }
    match found {
        Some(text) => text,
        None => if !row.completed {
            Some("test never completed".to_owned())
        } else if !row.started {
            Some("test found that never started".to_owned())
        } else {
            None
        },
    }
}

/// The aggregate of a run: how many cases were selected and filtered out, what happened to
/// each case, and how long the run took.
pub struct Summary {
    colored: bool,
    num_run: usize,
    num_filtered_out: usize,
    status: Vec<CaseStatus>,
    elapsed_s: Option<Elapsed>,
    seen: Ghost<Seq<EventView>>,
    hinted: Ghost<Seq<(nat, bool)>>,
}

impl View for Summary {
    type V = SummaryView;

    closed spec fn view(&self) -> SummaryView {
        SummaryView {
            colored: self.colored,
            num_run: self.num_run as nat,
            num_filtered_out: self.num_filtered_out as nat,
            cases: records(self.status@),
            elapsed: self.elapsed_s,
        }
    }
}

struct Tally {
    passed: usize,
    failed: usize,
    ignored: usize,
    blocks: String,
    lines: String,
}

fn push_failure_block(blocks: &mut String, row: &CaseStatus)
    requires
        ran(row@),
        verdict(row@) == Some(MessageKind::Error),
    ensures
        final(blocks)@ == old(blocks)@ + failure_block(row@),
{
    match find_failure_text(row) {
        Some(text) => {
            blocks.append("---- ");
            blocks.append(row.name.as_str());
            blocks.append(" ----\n");
            blocks.append(text.as_str());
            blocks.append("\n");
            blocks.append("\n");
        },
        None => {},
    }
    proof {
        assert(blocks@ =~= old(blocks)@ + failure_block(row@));
    }
}

fn push_failure_line(lines: &mut String, row: &CaseStatus)
    requires
        ran(row@),
        verdict(row@) == Some(MessageKind::Error),
    ensures
        final(lines)@ == old(lines)@ + failure_line(row@),
{
    lines.append("    ");
    lines.append(row.name.as_str());
    lines.append("\n");
    proof {
        assert(lines@ =~= old(lines)@ + failure_line(row@));
    }
}

/// The clause of the result line that gives the duration of the run, where `seconds` is
/// the duration in seconds.
pub fn finished_report(seconds: Option<String>) -> (text: String)
    ensures
        text@ == finished_clause(text_view(seconds)),
{
    let mut text = String::new();
    match seconds {
        Some(seconds) => {
            text.append("; finished in ");
            text.append(seconds.as_str());
            text.append("s");
        },
        None => {},
    }
    proof {
        assert(text@ =~= finished_clause(text_view(seconds)));
    }
    text
}

enum Change {
    Found,
    Started,
    Completed,
    Message(CaseMessage),
}

impl Change {
    spec fn mark(self) -> Mark {
        match self {
            Change::Found => Mark::Found,
            Change::Started => Mark::Started,
            Change::Completed => Mark::Completed,
            Change::Message(message) => Mark::Message(message.kind, text_view(message.message)),
        }
    }
}

fn bump(n: usize) -> (out: usize)
    ensures
        out == bumped(n as nat),
{
    if n < usize::MAX {
        n + 1
    } else {
        n
    }
}

impl Summary {
    /// A summary that has seen no event.
    pub fn new() -> (summary: Self)
        ensures
            summary@ == fresh(),
            summary.events() == Seq::<EventView>::empty(),
            unmixed(summary@.cases),
    {
        let summary = Summary {
            colored: false,
            num_run: 0,
            num_filtered_out: 0,
            status: Vec::new(),
            elapsed_s: None,
            seen: Ghost(Seq::empty()),
            hinted: Ghost(Seq::empty()),
        };
        proof {
            assert(records(summary.status@) =~= Seq::empty());
        }
        summary
    }

    /// The events taken so far.
    pub closed spec fn events(&self) -> Seq<EventView> {
        self.seen@
    }

    /// The summary with the colors of its report switched on or off.
    pub fn colored(self, yes: bool) -> (summary: Self)
        ensures
            summary@ == (SummaryView { colored: yes, ..self@ }),
            summary.events() == self.events(),
            summary.hints() == self.hints(),
    {
        let mut summary = self;
        summary.colored = yes;
        summary
    }

    /// Whether the report is colored.
    pub fn is_colored(&self) -> (yes: bool)
        ensures
            yes == self@.colored,
    {
        self.colored
    }

    fn find_slot(&self, name: &str) -> (at: usize)
        ensures
            at == slot(self@.cases, name@),
            at <= self.status.len(),
    {
        let wanted = to_chars(name);
        let mut i: usize = 0;
        proof {
            assert(self@.cases.skip(0) =~= self@.cases);
        }
        loop
            invariant
                i <= self.status.len(),
                wanted@ == name@,
                slot(self@.cases, name@) == i + slot(self@.cases.skip(i as int), name@),
            decreases self.status.len() - i,
        {
            if i == self.status.len() {
                return i;
            }
            let here = to_chars(self.status[i].name.as_str());
            proof {
                let rest = self@.cases.skip(i as int);
                assert(rest[0].name == here@);
                assert(rest.skip(1) =~= self@.cases.skip(i + 1));
            }
            if same_text(&here, &wanted) {
                return i;
            }
            i += 1;
        }
    }

    fn note(&mut self, name: &str, change: Change)
        ensures
            final(self)@.cases == noted(old(self)@.cases, name@, change.mark()),
            final(self).colored == old(self).colored,
            final(self).num_run == old(self).num_run,
            final(self).num_filtered_out == old(self).num_filtered_out,
            final(self).elapsed_s == old(self).elapsed_s,
            final(self).seen == old(self).seen,
            final(self).hinted == old(self).hinted,
    {
        let at = self.find_slot(name);
        let here = at < self.status.len();
        let mut row = if here {
            self.status.remove(at)
        } else {
            CaseStatus { name: name.to_owned(), messages: Vec::new(), started: false, completed: false }
        };
        proof {
            if !here {
                assert(notes(row.messages@) =~= Seq::empty());
                assert(row@ == blank(name@));
            }
        }
        let ghost before = row@;
        match change {
            Change::Found => {},
            Change::Started => {
                row.started = true;
            },
            Change::Completed => {
                row.completed = true;
            },
            Change::Message(message) => {
                proof {
                    assert(notes(row.messages@.push(message)) =~= notes(row.messages@).push(
                        (message.kind, text_view(message.message)),
                    ));
                }
                row.messages.push(message);
            },
        }
        assert(row@ == marked(before, change.mark()));
        self.status.insert(at, row);
        proof {
            let old_cases = old(self)@.cases;
            if here {
                assert(records(self.status@) =~= old_cases.update(at as int, row@));
            } else {
                assert(records(self.status@) =~= old_cases.push(row@));
            }
        }
    }

    /// Takes one event into the summary.
    pub fn record(&mut self, event: &Event)
        ensures
            final(self)@ == step(old(self)@, event@),
            final(self).events() == old(self).events().push(event@),
            final(self).hints() == old(self).hints(),
            unmixed(old(self)@.cases) ==> unmixed(final(self)@.cases),
    {
        proof {
            if unmixed(self@.cases) {
                lemma_step_keeps_unmixed(self@, event@);
            }
        }
        match event {
            Event::DiscoverCase(inner) => {
                self.note(inner.name.as_str(), Change::Found);
                if inner.selected {
                    self.num_run = bump(self.num_run);
                } else {
                    self.num_filtered_out = bump(self.num_filtered_out);
                }
            },
            Event::CaseStart(inner) => {
                self.note(inner.name.as_str(), Change::Started);
            },
            Event::CaseMessage(inner) => {
                let message = CaseMessage {
                    name: inner.name.clone(),
                    kind: inner.kind,
                    message: inner.message.clone(),
                    elapsed_s: inner.elapsed_s,
                };
                self.note(inner.name.as_str(), Change::Message(message));
            },
            Event::CaseComplete(inner) => {
                self.note(inner.name.as_str(), Change::Completed);
            },
            Event::RunComplete(inner) => {
                self.elapsed_s = inner.elapsed_s;
            },
            _ => {},
        }
        proof {
            self.seen@ = self.seen@.push(event@);
        }
    }

    /// Takes a recorded event stream into the summary, in order.
    pub fn replay(&mut self, events: &Vec<Event>)
        ensures
            final(self)@ == replayed_onto(old(self)@, events@.map_values(|e: Event| e@)),
            unmixed(old(self)@.cases) ==> unmixed(final(self)@.cases),
    {
        proof {
            if unmixed(self@.cases) {
                lemma_replayed_is_unmixed(self@, events@.map_values(|e: Event| e@));
            }
        }
        let ghost log = events@.map_values(|e: Event| e@);
        let mut i: usize = 0;
        while i < events.len()
            invariant
                i <= events.len(),
                log == events@.map_values(|e: Event| e@),
                self@ == replayed_onto(old(self)@, log.take(i as int)),
            decreases events.len() - i,
        {
            proof {
                assert(log.take(i + 1).drop_last() =~= log.take(i as int));
                assert(log.take(i + 1).last() == events@[i as int]@);
            }
            self.record(&events[i]);
            i += 1;
        }
        proof {
            assert(log.take(i as int) =~= log);
        }
    }

    /// The status of the case named `name`, as far as its messages give one.
    pub fn get_kind(&self, name: &str) -> (kind: Option<MessageKind>)
        ensures
            kind == kind_of(self@.cases, name@),
    {
        let at = self.find_slot(name);
        if at < self.status.len() {
            find_run_status(&self.status[at])
        } else {
            None
        }
    }

    /// Writes the text that opens a run.
    pub fn write_start<W: Sink>(&self, writer: &mut W) -> (r: Result<(), WriteError>)
        ensures
            final(writer).reliable() == old(writer).reliable(),
            old(writer).reliable() ==> r is Ok,
            r is Ok ==> final(writer).written() == old(writer).written() + start_text(self@),
    {
        let mut text = String::new();
        text.append("\n");
        text.append("running ");
        push_decimal(&mut text, self.num_run as u128);
        text.append(" test");
        if self.num_run == 1 {
            text.append("");
        } else {
            text.append("s");
        }
        text.append("\n");
        proof {
            assert(text@ =~= start_text(self@));
        }
        writer.write_text(text.as_str())
    }

    /// Counts the cases by the status the report gives them, and renders the entries of the
    /// two lists of failures.
    fn tally(&self) -> (t: Tally)
        ensures
            t.passed == count(self@.cases, None),
            t.failed == count(self@.cases, Some(MessageKind::Error)),
            t.ignored == count(self@.cases, Some(MessageKind::Ignored)),
            t.blocks@ == failure_blocks(self@.cases),
            t.lines@ == failure_lines(self@.cases),
    {
        let mut num_passed: usize = 0;
        let mut num_failed: usize = 0;
        let mut num_ignored: usize = 0;
        let mut blocks = String::new();
        let mut lines = String::new();
        let ghost cases = self@.cases;
        let mut i: usize = 0;
        while i < self.status.len()
            invariant
                i <= self.status.len(),
                cases == records(self.status@),
                num_passed == count(cases.take(i as int), None),
                num_failed == count(cases.take(i as int), Some(MessageKind::Error)),
                num_ignored == count(cases.take(i as int), Some(MessageKind::Ignored)),
                num_passed + num_failed + num_ignored <= i,
                blocks@ == failure_blocks(cases.take(i as int)),
                lines@ == failure_lines(cases.take(i as int)),
            decreases self.status.len() - i,
        {
            let row = &self.status[i];
            proof {
                assert(cases.take(i + 1).drop_last() =~= cases.take(i as int));
                assert(cases.take(i + 1).last() == row@);
            }
            if has_run(row) {
                match find_verdict(row) {
                    Some(MessageKind::Ignored) => {
                        num_ignored += 1;
                    },
                    Some(MessageKind::Error) => {
                        num_failed += 1;
                        push_failure_block(&mut blocks, row);
                        push_failure_line(&mut lines, row);
                    },
                    None => {
                        num_passed += 1;
                    },
                }
            }
            i += 1;
        }
        proof {
            assert(cases.take(i as int) =~= cases);
        }
        Tally { passed: num_passed, failed: num_failed, ignored: num_ignored, blocks, lines }
    }

    /// The line that closes a run.
    fn result_report(&self, t: &Tally) -> (text: String)
        requires
            t.passed == count(self@.cases, None),
            t.failed == count(self@.cases, Some(MessageKind::Error)),
            t.ignored == count(self@.cases, Some(MessageKind::Ignored)),
        ensures
            text@ == result_line(self@),
    {
        let mut text = String::new();
        if t.failed > 0 {
            push_painted(&mut text, tone_of(self.colored, FAILED), "FAILED");
        } else {
            push_painted(&mut text, tone_of(self.colored, OK), "ok");
        }
        text.append(". ");
        push_decimal(&mut text, t.passed as u128);
        text.append(" passed; ");
        push_decimal(&mut text, t.failed as u128);
        text.append(" failed; ");
        push_decimal(&mut text, t.ignored as u128);
        text.append(" ignored; ");
        push_decimal(&mut text, self.num_filtered_out as u128);
        text.append(" filtered out");
        let finished = finished_report(
            match self.elapsed_s {
                Some(elapsed) => Some(elapsed.to_rounded_seconds()),
                None => None,
            },
        );
        text.append(finished.as_str());
        text.append("\n");
        proof {
            assert(text@ =~= result_line(self@));
        }
        text
    }

    /// The text that closes a run.
    pub fn complete_report(&self) -> (text: String)
        ensures
            text@ == complete_text(self@),
    {
        let t = self.tally();
        let mut text = String::new();
        if t.failed > 0 {
            text.append("\n");
            text.append("failures:\n");
            text.append("\n");
            text.append(t.blocks.as_str());
            text.append("\n");
            text.append("failures:\n");
            text.append(t.lines.as_str());
        }
        proof {
            assert(text@ =~= failures_text(self@));
        }
        text.append("\n");
        let line = self.result_report(&t);
        text.append(line.as_str());
        text.append("\n");
        text
    }

    /// Writes the text that closes a run.
    pub fn write_complete<W: Sink>(&self, writer: &mut W) -> (r: Result<(), WriteError>)
        ensures
            final(writer).reliable() == old(writer).reliable(),
            old(writer).reliable() ==> r is Ok,
            r is Ok ==> final(writer).written() == old(writer).written() + complete_text(self@),
    {
        let text = self.complete_report();
        writer.write_text(text.as_str())
    }
}

/// The summary `start` after the events of `log`, in order.
pub open spec fn replayed_onto(start: SummaryView, log: Seq<EventView>) -> SummaryView
    decreases log.len(),
{
    if log.len() == 0 {
        start
    } else {
        step(replayed_onto(start, log.drop_last()), log.last())
    }
}

/// Whether no name has two records.
pub open spec fn unmixed(cases: Seq<CaseRecord>) -> bool {
    forall|i: int, j: int|
        0 <= i < j < cases.len() ==> (#[trigger] cases[i]).name != (#[trigger] cases[j]).name
}

/// The slot of a name lies behind records of other names only, and at the slot stands a
/// record of the name.
pub proof fn lemma_slot(cases: Seq<CaseRecord>, name: Seq<char>)
    ensures
        slot(cases, name) <= cases.len(),
        forall|i: int| 0 <= i < slot(cases, name) ==> (#[trigger] cases[i]).name != name,
        slot(cases, name) < cases.len() ==> cases[slot(cases, name) as int].name == name,
    decreases cases.len(),
{
    if cases.len() > 0 && cases[0].name != name {
        let rest = cases.skip(1);
        lemma_slot(rest, name);
        assert forall|i: int| 0 <= i < slot(cases, name) implies (#[trigger] cases[i]).name
            != name by {
            if i > 0 {
                assert(cases[i] == rest[i - 1]);
            }
        }
        if slot(cases, name) < cases.len() {
            assert(cases[slot(cases, name) as int] == rest[slot(rest, name) as int]);
        }
    }
}

/// An event for a name moves no record: every record stays at its place under its name,
/// so that the names stand in the order in which they first came.
pub proof fn lemma_noted_keeps_places(cases: Seq<CaseRecord>, name: Seq<char>, mark: Mark)
    ensures
        noted(cases, name, mark).len() >= cases.len(),
        forall|i: int|
            0 <= i < cases.len() ==> (#[trigger] noted(cases, name, mark)[i]).name
                == cases[i].name,
        recorded(noted(cases, name, mark), name),
        forall|other: Seq<char>|
            recorded(cases, other) ==> slot(noted(cases, name, mark), other) == slot(
                cases,
                other,
            ),
{
    lemma_slot(cases, name);
    let after = noted(cases, name, mark);
    assert forall|i: int| 0 <= i < cases.len() implies (#[trigger] after[i]).name
        == cases[i].name by {}
    lemma_slot_found(after, name, slot(cases, name) as int);
    assert forall|other: Seq<char>| recorded(cases, other) implies slot(after, other) == slot(
        cases,
        other,
    ) by {
        lemma_slot(cases, other);
        lemma_slot_found(after, other, slot(cases, other) as int);
    }
}

/// The slot of a name is the place of the first record under the name.
pub proof fn lemma_slot_found(cases: Seq<CaseRecord>, name: Seq<char>, at: int)
    requires
        0 <= at < cases.len(),
        cases[at].name == name,
        forall|i: int| 0 <= i < at ==> (#[trigger] cases[i]).name != name,
    ensures
        slot(cases, name) == at,
    decreases cases.len(),
{
    if at > 0 {
        let rest = cases.skip(1);
        assert(cases[0].name != name);
        assert(rest[at - 1] == cases[at]);
        assert forall|i: int| 0 <= i < at - 1 implies (#[trigger] rest[i]).name != name by {
            assert(rest[i] == cases[i + 1]);
        }
        lemma_slot_found(rest, name, at - 1);
    }
}

/// An event for a name leaves no name with two records.
pub proof fn lemma_noted_keeps_unmixed(cases: Seq<CaseRecord>, name: Seq<char>, mark: Mark)
    requires
        unmixed(cases),
    ensures
        unmixed(noted(cases, name, mark)),
{
    lemma_slot(cases, name);
    let after = noted(cases, name, mark);
    assert forall|i: int, j: int| 0 <= i < j < after.len() implies (#[trigger] after[i]).name != (
    #[trigger] after[j]).name by {
        assert(after[i].name == cases[i].name);
        if j < cases.len() {
            assert(after[j].name == cases[j].name);
        }
    }
}

/// An event leaves no name with two records.
pub proof fn lemma_step_keeps_unmixed(before: SummaryView, event: EventView)
    requires
        unmixed(before.cases),
    ensures
        unmixed(step(before, event).cases),
{
    match event {
        EventView::DiscoverCase { name, .. } => {
            lemma_noted_keeps_unmixed(before.cases, name, Mark::Found);
        },
        EventView::CaseStart { name, .. } => {
            lemma_noted_keeps_unmixed(before.cases, name, Mark::Started);
        },
        EventView::CaseMessage { name, kind, message, .. } => {
            lemma_noted_keeps_unmixed(before.cases, name, Mark::Message(kind, message));
        },
        EventView::CaseComplete { name, .. } => {
            lemma_noted_keeps_unmixed(before.cases, name, Mark::Completed);
        },
        _ => {},
    }
}

/// The records stand in the order in which their names first came: an event moves no
/// record, and a new name gets its record behind all the others. So the cases are listed
/// in the order of their discovery, where they were discovered before they ran.
pub proof fn lemma_step_keeps_places(before: SummaryView, event: EventView)
    ensures
        step(before, event).cases.len() >= before.cases.len(),
        forall|i: int|
            0 <= i < before.cases.len() ==> (#[trigger] step(before, event).cases[i]).name
                == before.cases[i].name,
        forall|name: Seq<char>|
            recorded(before.cases, name) ==> slot(step(before, event).cases, name) == slot(
                before.cases,
                name,
            ),
{
    match event {
        EventView::DiscoverCase { name, .. } => {
            lemma_noted_keeps_places(before.cases, name, Mark::Found);
        },
        EventView::CaseStart { name, .. } => {
            lemma_noted_keeps_places(before.cases, name, Mark::Started);
        },
        EventView::CaseMessage { name, kind, message, .. } => {
            lemma_noted_keeps_places(before.cases, name, Mark::Message(kind, message));
        },
        EventView::CaseComplete { name, .. } => {
            lemma_noted_keeps_places(before.cases, name, Mark::Completed);
        },
        _ => {},
    }
}

/// Whatever the events, the summary holds one record for each name.
pub proof fn lemma_replayed_is_unmixed(start: SummaryView, log: Seq<EventView>)
    requires
        unmixed(start.cases),
    ensures
        unmixed(replayed_onto(start, log).cases),
    decreases log.len(),
{
    if log.len() > 0 {
        lemma_replayed_is_unmixed(start, log.drop_last());
        lemma_step_keeps_unmixed(replayed_onto(start, log.drop_last()), log.last());
    }
}

/// Without colors the line that closes a run is plain text: the status of the run, then
/// the numbers of the cases that passed, failed and were ignored, the number of those
/// that were filtered out, and the duration of the run.
pub proof fn lemma_plain_result_line(summary: SummaryView)
    requires
        !summary.colored,
    ensures
        result_line(summary) == (if count(summary.cases, Some(MessageKind::Error)) > 0 {
            "FAILED"@
        } else {
            "ok"@
        }) + ". "@ + decimal(count(summary.cases, None)) + " passed; "@ + decimal(
            count(summary.cases, Some(MessageKind::Error)),
        ) + " failed; "@ + decimal(count(summary.cases, Some(MessageKind::Ignored)))
            + " ignored; "@ + decimal(summary.num_filtered_out) + " filtered out"@
            + finished_text(summary.elapsed) + "\n"@,
{
    crate::notify::style::lemma_plain_word("FAILED"@);
    crate::notify::style::lemma_plain_word("ok"@);
}

/// The report is a function of the event stream: two summaries that took the same events
/// give the same texts.
pub proof fn lemma_replay_determines_report(first: Summary, second: Summary, log: Seq<EventView>)
    requires
        first@ == replayed(log),
        second@ == replayed(log),
    ensures
        start_text(first@) == start_text(second@),
        complete_text(first@) == complete_text(second@),
{
}

impl Notifier for Summary {
    closed spec fn log(&self) -> Seq<EventView> {
        self.seen@
    }

    open spec fn reliable(&self) -> bool {
        true
    }

    open spec fn refused(&self) -> nat {
        0
    }

    closed spec fn hints(&self) -> Seq<(nat, bool)> {
        self.hinted@
    }

    fn threaded(&mut self, yes: bool) {
        proof {
            self.hinted@ = self.hinted@.push((self.seen@.len(), yes));
        }
    }

    fn notify(&mut self, event: Event) -> (r: Result<(), WriteError>) {
        self.record(&event);
        Ok(())
    }
}

} // verus!
