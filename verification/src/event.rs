//! The lifecycle events of a run, the stable contract between the scheduler and its reporters.

use vstd::prelude::*;
use crate::json_write::value::json_string;
use crate::json_write::write::JsonWrite;
use crate::json_write::write::JsonWriteItems;

verus! {

/// Time since the run began, in whole nanoseconds.
#[derive(Copy, Clone, Debug, PartialEq, Eq, Structural, Default)]
pub struct Elapsed(pub u64);

/// The seconds in `nanos` nanoseconds as the shortest decimal numeral that reads back as
/// the same double-precision number.
pub uninterp spec fn seconds_shortest(nanos: u64) -> Seq<char>;

/// The seconds in `nanos` nanoseconds as a decimal numeral with three digits after the
/// point.
pub uninterp spec fn seconds_rounded(nanos: u64) -> Seq<char>;

/// `Duration::as_secs_f64` and the `Display` of the double it gives.
#[verifier::external_body]
fn format_shortest(nanos: u64) -> (text: String)
    ensures
        text@ == seconds_shortest(nanos),
{
    std::time::Duration::from_nanos(nanos).as_secs_f64().to_string()
}

/// `Duration::as_secs_f64` and the `Display` of the double it gives, at precision 3.
#[verifier::external_body]
fn format_rounded(nanos: u64) -> (text: String)
    ensures
        text@ == seconds_rounded(nanos),
{
    format!("{:.3}", std::time::Duration::from_nanos(nanos).as_secs_f64())
}

impl Elapsed {
    /// The seconds as the event lines carry them.
    pub fn to_seconds(&self) -> (text: String)
        ensures
            text@ == seconds_shortest(self.0),
    {
        format_shortest(self.0)
    }

    /// The seconds as the reports show them, without the unit.
    pub fn to_rounded_seconds(&self) -> (text: String)
        ensures
            text@ == seconds_rounded(self.0),
    {
        format_rounded(self.0)
    }
}

/// What a run executes.
#[derive(Copy, Clone, Debug, PartialEq, Eq, Structural)]
pub enum RunMode {
    Test,
    Bench,
}

impl Default for RunMode {
    fn default() -> (mode: Self)
        ensures
            mode == RunMode::Test,
    {
        RunMode::Test
    }
}

impl RunMode {
    pub open spec fn name(self) -> Seq<char> {
        match self {
            RunMode::Test => "test"@,
            RunMode::Bench => "bench"@,
        }
    }

    pub fn as_str(&self) -> (name: &'static str)
        ensures
            name@ == self.name(),
    {
        match self {
            RunMode::Test => "test",
            RunMode::Bench => "bench",
        }
    }

    /// `Test` is the mode that event lines leave out.
    pub fn is_default(&self) -> (yes: bool)
        ensures
            yes == (*self == RunMode::Test),
    {
        match self {
            RunMode::Test => true,
            RunMode::Bench => false,
        }
    }
}

/// The severity of a message attached to a case. The later variant outranks the earlier one
/// when the status of a case is derived from its messages.
#[derive(Copy, Clone, Debug, PartialEq, Eq, Structural, PartialOrd, Ord)]
pub enum MessageKind {
    Error,
    Ignored,
}

impl MessageKind {
    pub open spec fn name(self) -> Seq<char> {
        match self {
            MessageKind::Error => "error"@,
            MessageKind::Ignored => "ignored"@,
        }
    }

    pub fn as_str(&self) -> (name: &'static str)
        ensures
            name@ == self.name(),
    {
        match self {
            MessageKind::Error => "error",
            MessageKind::Ignored => "ignored",
        }
    }
}

#[derive(Clone, Debug)]
pub struct DiscoverStart {
    pub elapsed_s: Option<Elapsed>,
}

#[derive(Clone, Debug)]
pub struct DiscoverCase {
    pub name: String,
    pub mode: RunMode,
    /// Whether the user's filters keep the case in the run.
    pub selected: bool,
    pub elapsed_s: Option<Elapsed>,
}

#[derive(Clone, Debug)]
pub struct DiscoverComplete {
    pub elapsed_s: Option<Elapsed>,
}

#[derive(Clone, Debug)]
pub struct RunStart {
    pub elapsed_s: Option<Elapsed>,
}

#[derive(Clone, Debug)]
pub struct CaseStart {
    pub name: String,
    pub elapsed_s: Option<Elapsed>,
}

#[derive(Clone, Debug)]
pub struct CaseMessage {
    pub name: String,
    pub kind: MessageKind,
    pub message: Option<String>,
    pub elapsed_s: Option<Elapsed>,
}

#[derive(Clone, Debug)]
pub struct CaseComplete {
    pub name: String,
    pub elapsed_s: Option<Elapsed>,
}

#[derive(Clone, Debug)]
pub struct RunComplete {
    pub elapsed_s: Option<Elapsed>,
}

#[derive(Clone, Debug)]
pub enum Event {
    DiscoverStart(DiscoverStart),
    DiscoverCase(DiscoverCase),
    DiscoverComplete(DiscoverComplete),
    RunStart(RunStart),
    CaseStart(CaseStart),
    CaseMessage(CaseMessage),
    CaseComplete(CaseComplete),
    RunComplete(RunComplete),
}

impl From<DiscoverStart> for Event {
    fn from(inner: DiscoverStart) -> (event: Self) {
        Event::DiscoverStart(inner)
    }
}

impl vstd::std_specs::convert::FromSpecImpl<DiscoverStart> for Event {
    open spec fn obeys_from_spec() -> bool {
        true
    }

    open spec fn from_spec(inner: DiscoverStart) -> Self {
        Event::DiscoverStart(inner)
    }
}

impl From<DiscoverCase> for Event {
    fn from(inner: DiscoverCase) -> (event: Self) {
        Event::DiscoverCase(inner)
    }
}

impl vstd::std_specs::convert::FromSpecImpl<DiscoverCase> for Event {
    open spec fn obeys_from_spec() -> bool {
        true
    }

    open spec fn from_spec(inner: DiscoverCase) -> Self {
        Event::DiscoverCase(inner)
    }
}

impl From<DiscoverComplete> for Event {
    fn from(inner: DiscoverComplete) -> (event: Self) {
        Event::DiscoverComplete(inner)
    }
}

impl vstd::std_specs::convert::FromSpecImpl<DiscoverComplete> for Event {
    open spec fn obeys_from_spec() -> bool {
        true
    }

    open spec fn from_spec(inner: DiscoverComplete) -> Self {
        Event::DiscoverComplete(inner)
    }
}

impl From<RunStart> for Event {
    fn from(inner: RunStart) -> (event: Self) {
        Event::RunStart(inner)
    }
}

impl vstd::std_specs::convert::FromSpecImpl<RunStart> for Event {
    open spec fn obeys_from_spec() -> bool {
        true
    }

    open spec fn from_spec(inner: RunStart) -> Self {
        Event::RunStart(inner)
    }
}

impl From<CaseStart> for Event {
    fn from(inner: CaseStart) -> (event: Self) {
        Event::CaseStart(inner)
    }
}

impl vstd::std_specs::convert::FromSpecImpl<CaseStart> for Event {
    open spec fn obeys_from_spec() -> bool {
        true
    }

    open spec fn from_spec(inner: CaseStart) -> Self {
        Event::CaseStart(inner)
    }
}

impl From<CaseMessage> for Event {
    fn from(inner: CaseMessage) -> (event: Self) {
        Event::CaseMessage(inner)
    }
}

impl vstd::std_specs::convert::FromSpecImpl<CaseMessage> for Event {
    open spec fn obeys_from_spec() -> bool {
        true
    }

    open spec fn from_spec(inner: CaseMessage) -> Self {
        Event::CaseMessage(inner)
    }
}

impl From<CaseComplete> for Event {
    fn from(inner: CaseComplete) -> (event: Self) {
        Event::CaseComplete(inner)
    }
}

impl vstd::std_specs::convert::FromSpecImpl<CaseComplete> for Event {
    open spec fn obeys_from_spec() -> bool {
        true
    }

    open spec fn from_spec(inner: CaseComplete) -> Self {
        Event::CaseComplete(inner)
    }
}

impl From<RunComplete> for Event {
    fn from(inner: RunComplete) -> (event: Self) {
        Event::RunComplete(inner)
    }
}

impl vstd::std_specs::convert::FromSpecImpl<RunComplete> for Event {
    open spec fn obeys_from_spec() -> bool {
        true
    }

    open spec fn from_spec(inner: RunComplete) -> Self {
        Event::RunComplete(inner)
    }
}

/// An event as plain values.
pub enum EventView {
    DiscoverStart { elapsed: Option<Elapsed> },
    DiscoverCase { name: Seq<char>, mode: RunMode, selected: bool, elapsed: Option<Elapsed> },
    DiscoverComplete { elapsed: Option<Elapsed> },
    RunStart { elapsed: Option<Elapsed> },
    CaseStart { name: Seq<char>, elapsed: Option<Elapsed> },
    CaseMessage {
        name: Seq<char>,
        kind: MessageKind,
        message: Option<Seq<char>>,
        elapsed: Option<Elapsed>,
    },
    CaseComplete { name: Seq<char>, elapsed: Option<Elapsed> },
    RunComplete { elapsed: Option<Elapsed> },
}

/// An optional text as plain values.
pub open spec fn text_view(text: Option<String>) -> Option<Seq<char>> {
    match text {
        Some(t) => Some(t@),
        None => None,
    }
}

impl View for DiscoverStart {
    type V = EventView;

    open spec fn view(&self) -> EventView {
        EventView::DiscoverStart { elapsed: self.elapsed_s }
    }
}

impl View for DiscoverCase {
    type V = EventView;

    open spec fn view(&self) -> EventView {
        EventView::DiscoverCase {
            name: self.name@,
            mode: self.mode,
            selected: self.selected,
            elapsed: self.elapsed_s,
        }
    }
}

impl View for DiscoverComplete {
    type V = EventView;

    open spec fn view(&self) -> EventView {
        EventView::DiscoverComplete { elapsed: self.elapsed_s }
    }
}

impl View for RunStart {
    type V = EventView;

    open spec fn view(&self) -> EventView {
        EventView::RunStart { elapsed: self.elapsed_s }
    }
}

impl View for CaseStart {
    type V = EventView;

    open spec fn view(&self) -> EventView {
        EventView::CaseStart { name: self.name@, elapsed: self.elapsed_s }
    }
}

impl View for CaseMessage {
    type V = EventView;

    open spec fn view(&self) -> EventView {
        EventView::CaseMessage {
            name: self.name@,
            kind: self.kind,
            message: text_view(self.message),
            elapsed: self.elapsed_s,
        }
    }
}

impl View for CaseComplete {
    type V = EventView;

    open spec fn view(&self) -> EventView {
        EventView::CaseComplete { name: self.name@, elapsed: self.elapsed_s }
    }
}

impl View for RunComplete {
    type V = EventView;

    open spec fn view(&self) -> EventView {
        EventView::RunComplete { elapsed: self.elapsed_s }
    }
}

impl View for Event {
    type V = EventView;

    open spec fn view(&self) -> EventView {
        match self {
            Event::DiscoverStart(inner) => inner@,
            Event::DiscoverCase(inner) => inner@,
            Event::DiscoverComplete(inner) => inner@,
            Event::RunStart(inner) => inner@,
            Event::CaseStart(inner) => inner@,
            Event::CaseMessage(inner) => inner@,
            Event::CaseComplete(inner) => inner@,
            Event::RunComplete(inner) => inner@,
        }
    }
}

impl EventView {
    /// The event with its time taken out: what the event says, apart from when it was sent.
    pub open spec fn timeless(self) -> EventView {
        match self {
            EventView::DiscoverStart { .. } => EventView::DiscoverStart { elapsed: None },
            EventView::DiscoverCase { name, mode, selected, .. } => EventView::DiscoverCase {
                name,
                mode,
                selected,
                elapsed: None,
            },
            EventView::DiscoverComplete { .. } => EventView::DiscoverComplete { elapsed: None },
            EventView::RunStart { .. } => EventView::RunStart { elapsed: None },
            EventView::CaseStart { name, .. } => EventView::CaseStart { name, elapsed: None },
            EventView::CaseMessage { name, kind, message, .. } => EventView::CaseMessage {
                name,
                kind,
                message,
                elapsed: None,
            },
            EventView::CaseComplete { name, .. } => EventView::CaseComplete { name, elapsed: None },
            EventView::RunComplete { .. } => EventView::RunComplete { elapsed: None },
        }
    }
}

/// A member of an event line whose value is a string.
pub open spec fn string_member(key: Seq<char>, value: Seq<char>) -> Seq<char> {
    json_string(key) + ":"@ + json_string(value)
}

/// The member that names the kind of the event; it opens every event line.
pub open spec fn event_member(tag: Seq<char>) -> Seq<char> {
    string_member("event"@, tag)
}

/// The member that carries the name of the case.
pub open spec fn name_member(name: Seq<char>) -> Seq<char> {
    ","@ + string_member("name"@, name)
}

/// The member that carries the time: the seconds as a decimal numeral in a string. An
/// event without a time has no such member.
pub open spec fn elapsed_member(elapsed: Option<Elapsed>) -> Seq<char> {
    match elapsed {
        Some(elapsed) => ","@ + string_member("elapsed_s"@, seconds_shortest(elapsed.0)),
        None => Seq::empty(),
    }
}

/// The member that carries the mode; the mode `Test` is left out.
pub open spec fn mode_member(mode: RunMode) -> Seq<char> {
    if mode == RunMode::Test {
        Seq::empty()
    } else {
        ","@ + string_member("mode"@, mode.name())
    }
}

/// The member that tells that a case is not selected; for a selected case it is left out.
pub open spec fn selected_member(selected: bool) -> Seq<char> {
    if selected {
        Seq::empty()
    } else {
        ","@ + json_string("selected"@) + ":"@ + "false"@
    }
}

/// The member that carries the text of a message; without a text it is left out.
pub open spec fn message_member(message: Option<Seq<char>>) -> Seq<char> {
    match message {
        Some(text) => ","@ + string_member("message"@, text),
        None => Seq::empty(),
    }
}

/// The line of an event: one JSON object, whose members stand in a fixed order and are
/// left out where they hold their default.
pub open spec fn jsonline(event: EventView) -> Seq<char> {
    match event {
        EventView::DiscoverStart { elapsed } => "{"@ + event_member("discover_start"@)
            + elapsed_member(elapsed) + "}"@,
        EventView::DiscoverCase { name, mode, selected, elapsed } => "{"@ + event_member(
            "discover_case"@,
        ) + name_member(name) + mode_member(mode) + selected_member(selected) + elapsed_member(
            elapsed,
        ) + "}"@,
        EventView::DiscoverComplete { elapsed } => "{"@ + event_member("discover_complete"@)
            + elapsed_member(elapsed) + "}"@,
        EventView::RunStart { elapsed } => "{"@ + event_member("run_start"@) + elapsed_member(
            elapsed,
        ) + "}"@,
        EventView::CaseStart { name, elapsed } => "{"@ + event_member("case_start"@) + name_member(
            name,
        ) + elapsed_member(elapsed) + "}"@,
        EventView::CaseMessage { name, kind, message, elapsed } => "{"@ + event_member(
            "case_message"@,
        ) + name_member(name) + ","@ + string_member("kind"@, kind.name()) + message_member(
            message,
        ) + elapsed_member(elapsed) + "}"@,
        EventView::CaseComplete { name, elapsed } => "{"@ + event_member("case_complete"@)
            + name_member(name) + elapsed_member(elapsed) + "}"@,
        EventView::RunComplete { elapsed } => "{"@ + event_member("run_complete"@)
            + elapsed_member(elapsed) + "}"@,
    }
}

fn open_line(tag: &str) -> (buffer: String)
    ensures
        buffer@ == "{"@ + event_member(tag@),
{
    let mut buffer = String::new();
    buffer.open_object().unwrap();
    buffer.key("event").unwrap();
    buffer.keyval_sep().unwrap();
    buffer.value(tag).unwrap();
    proof {
        assert(buffer@ =~= "{"@ + event_member(tag@));
    }
    buffer
}

fn push_name(buffer: &mut String, name: &String)
    ensures
        final(buffer)@ == old(buffer)@ + name_member(name@),
{
    buffer.val_sep().unwrap();
    buffer.key("name").unwrap();
    buffer.keyval_sep().unwrap();
    buffer.value(name).unwrap();
    proof {
        assert(buffer@ =~= old(buffer)@ + name_member(name@));
    }
}

fn close_line(buffer: &mut String, elapsed_s: Option<Elapsed>)
    ensures
        final(buffer)@ == old(buffer)@ + elapsed_member(elapsed_s) + "}"@,
{
    if let Some(elapsed_s) = elapsed_s {
        buffer.val_sep().unwrap();
        buffer.key("elapsed_s").unwrap();
        buffer.keyval_sep().unwrap();
        buffer.value(elapsed_s.to_seconds()).unwrap();
    }
    buffer.close_object().unwrap();
    proof {
        assert(buffer@ =~= old(buffer)@ + elapsed_member(elapsed_s) + "}"@);
    }
}

impl DiscoverStart {
    pub fn to_jsonline(&self) -> (line: String)
        ensures
            line@ == jsonline(self@),
    {
        let mut buffer = open_line("discover_start");
        close_line(&mut buffer, self.elapsed_s);
        buffer
    }
}

impl DiscoverCase {
    pub fn to_jsonline(&self) -> (line: String)
        ensures
            line@ == jsonline(self@),
    {
        let mut buffer = open_line("discover_case");
        push_name(&mut buffer, &self.name);

        let ghost before = buffer@;
        if !self.mode.is_default() {
            buffer.val_sep().unwrap();
            buffer.key("mode").unwrap();
            buffer.keyval_sep().unwrap();
            buffer.value(self.mode.as_str()).unwrap();
        }
        proof {
            assert(buffer@ =~= before + mode_member(self.mode));
        }

        let ghost before = buffer@;
        if !self.selected {
            buffer.val_sep().unwrap();
            buffer.key("selected").unwrap();
            buffer.keyval_sep().unwrap();
            buffer.value(self.selected).unwrap();
        }
        proof {
            assert(buffer@ =~= before + selected_member(self.selected));
        }

        close_line(&mut buffer, self.elapsed_s);
        buffer
    }
}

impl DiscoverComplete {
    pub fn to_jsonline(&self) -> (line: String)
        ensures
            line@ == jsonline(self@),
    {
        let mut buffer = open_line("discover_complete");
        close_line(&mut buffer, self.elapsed_s);
        buffer
    }
}

impl RunStart {
    pub fn to_jsonline(&self) -> (line: String)
        ensures
            line@ == jsonline(self@),
    {
        let mut buffer = open_line("run_start");
        close_line(&mut buffer, self.elapsed_s);
        buffer
    }
}

impl CaseStart {
    pub fn to_jsonline(&self) -> (line: String)
        ensures
            line@ == jsonline(self@),
    {
        let mut buffer = open_line("case_start");
        push_name(&mut buffer, &self.name);
        close_line(&mut buffer, self.elapsed_s);
        buffer
    }
}

impl CaseMessage {
    pub fn to_jsonline(&self) -> (line: String)
        ensures
            line@ == jsonline(self@),
    {
        let mut buffer = open_line("case_message");
        push_name(&mut buffer, &self.name);

        let ghost before = buffer@;
        buffer.val_sep().unwrap();
        buffer.key("kind").unwrap();
        buffer.keyval_sep().unwrap();
        buffer.value(self.kind.as_str()).unwrap();
        proof {
            assert(buffer@ =~= before + ","@ + string_member("kind"@, self.kind.name()));
        }

        let ghost before = buffer@;
        if let Some(message) = &self.message {
            buffer.val_sep().unwrap();
            buffer.key("message").unwrap();
            buffer.keyval_sep().unwrap();
            buffer.value(message).unwrap();
        }
        proof {
            assert(buffer@ =~= before + message_member(text_view(self.message)));
        }

        close_line(&mut buffer, self.elapsed_s);
        buffer
    }
}

impl CaseComplete {
    pub fn to_jsonline(&self) -> (line: String)
        ensures
            line@ == jsonline(self@),
    {
        let mut buffer = open_line("case_complete");
        push_name(&mut buffer, &self.name);
        close_line(&mut buffer, self.elapsed_s);
        buffer
    }
}

impl RunComplete {
    pub fn to_jsonline(&self) -> (line: String)
        ensures
            line@ == jsonline(self@),
    {
        let mut buffer = open_line("run_complete");
        close_line(&mut buffer, self.elapsed_s);
        buffer
    }
}

impl Event {
    /// The line of the event in the machine-readable report.
    pub fn to_jsonline(&self) -> (line: String)
        ensures
            line@ == jsonline(self@),
    {
        match self {
            Event::DiscoverStart(event) => event.to_jsonline(),
            Event::DiscoverCase(event) => event.to_jsonline(),
            Event::DiscoverComplete(event) => event.to_jsonline(),
            Event::RunStart(event) => event.to_jsonline(),
            Event::CaseStart(event) => event.to_jsonline(),
            Event::CaseMessage(event) => event.to_jsonline(),
            Event::CaseComplete(event) => event.to_jsonline(),
            Event::RunComplete(event) => event.to_jsonline(),
        }
    }
}

} // verus!
