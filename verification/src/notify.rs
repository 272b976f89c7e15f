//! Reporters: sinks that take the events of a run and render them.

use vstd::prelude::*;
use crate::event::Event;
use crate::event::EventView;

pub mod json;
pub mod pretty;
pub mod style;
pub mod summary;
pub mod terse;

verus! {

/// Why a sink did not take a text.
#[derive(Debug)]
pub struct WriteError {
    pub message: String,
}

/// Where a reporter writes. `written` is the text the sink has accepted so far; a sink
/// that is `reliable` never refuses a write.
pub trait Sink {
    spec fn written(&self) -> Seq<char>;

    spec fn reliable(&self) -> bool;

    fn write_text(&mut self, text: &str) -> (r: Result<(), WriteError>)
        ensures
            final(self).reliable() == old(self).reliable(),
            old(self).reliable() ==> r is Ok,
            r is Ok ==> final(self).written() == old(self).written() + text@,
    ;

    fn flush(&mut self) -> (r: Result<(), WriteError>)
        ensures
            final(self).reliable() == old(self).reliable(),
            old(self).reliable() ==> r is Ok,
            final(self).written() == old(self).written(),
    ;
}

/// A string takes every text, in memory.
impl Sink for String {
    open spec fn written(&self) -> Seq<char> {
        self@
    }

    open spec fn reliable(&self) -> bool {
        true
    }

    fn write_text(&mut self, text: &str) -> (r: Result<(), WriteError>) {
        self.append(text);
        Ok(())
    }

    fn flush(&mut self) -> (r: Result<(), WriteError>) {
        Ok(())
    }
}

/// A sink made of two functions: one that writes a text, and one that flushes what was
/// written. `written` is what the first has accepted.
pub struct FnSink<F: Fn(&str) -> Result<(), WriteError>, G: Fn() -> Result<(), WriteError>> {
    write: F,
    flush: G,
    accepted: Ghost<Seq<char>>,
}

impl<F: Fn(&str) -> Result<(), WriteError>, G: Fn() -> Result<(), WriteError>> FnSink<F, G> {
    /// The two functions can be called with every argument.
    #[verifier::type_invariant]
    spec fn callable(&self) -> bool {
        &&& forall|text: &str| call_requires(self.write, (text,))
        &&& call_requires(self.flush, ())
    }

    /// The function that writes a text.
    pub closed spec fn write_fn(&self) -> F {
        self.write
    }

    /// The function that flushes what was written.
    pub closed spec fn flush_fn(&self) -> G {
        self.flush
    }

    /// A sink that writes with `write` and flushes with `flush`.
    pub fn new(write: F, flush: G) -> (sink: Self)
        requires
            forall|text: &str| call_requires(write, (text,)),
            call_requires(flush, ()),
        ensures
            sink.written() == Seq::<char>::empty(),
            sink.write_fn() == write,
            sink.flush_fn() == flush,
            sink.reliable() == ((forall|text: &str, r: Result<(), WriteError>|
                call_ensures(write, (text,), r) ==> r is Ok) && (forall|r: Result<(), WriteError>|
                call_ensures(flush, (), r) ==> r is Ok)),
    {
        FnSink { write, flush, accepted: Ghost(Seq::empty()) }
    }
}

impl<F: Fn(&str) -> Result<(), WriteError>, G: Fn() -> Result<(), WriteError>> Sink for FnSink<
    F,
    G,
> {
    closed spec fn written(&self) -> Seq<char> {
        self.accepted@
    }

    /// The sink is reliable where neither of its two functions can fail.
    open spec fn reliable(&self) -> bool {
        &&& forall|text: &str, r: Result<(), WriteError>|
            call_ensures(self.write_fn(), (text,), r) ==> r is Ok
        &&& forall|r: Result<(), WriteError>| call_ensures(self.flush_fn(), (), r) ==> r is Ok
    }

    /// Hands `text` to the function that writes, and gives back what that function gives.
    /// The sink has accepted the text where the function took it, and nothing otherwise.
    fn write_text(&mut self, text: &str) -> (r: Result<(), WriteError>)
        ensures
            call_ensures(old(self).write_fn(), (text,), r),
            r is Err ==> final(self).written() == old(self).written(),
            final(self).write_fn() == old(self).write_fn(),
            final(self).flush_fn() == old(self).flush_fn(),
    {
        proof {
            use_type_invariant(&*self);
        }
        let r = (self.write)(text);
        if r.is_ok() {
            self.accepted = Ghost(self.accepted@ + text@);
        }
        proof {
            assert(self.write_fn() == old(self).write_fn());
            assert(self.flush_fn() == old(self).flush_fn());
            assert(call_ensures(old(self).write_fn(), (text,), r));
        }
        r
    }

    /// Calls the function that flushes, and gives back what that function gives.
    fn flush(&mut self) -> (r: Result<(), WriteError>)
        ensures
            call_ensures(old(self).flush_fn(), (), r),
            final(self).write_fn() == old(self).write_fn(),
            final(self).flush_fn() == old(self).flush_fn(),
    {
        proof {
            use_type_invariant(&*self);
        }
        let r = (self.flush)();
        proof {
            assert(call_ensures(old(self).flush_fn(), (), r));
        }
        r
    }
}

/// The events of `log` with their times taken out.
pub open spec fn timeless_log(log: Seq<EventView>) -> Seq<EventView> {
    log.map_values(|e: EventView| e.timeless())
}

/// Whether `after` is `before` with further events behind it.
pub open spec fn extends(before: Seq<EventView>, after: Seq<EventView>) -> bool {
    before.len() <= after.len() && after.take(before.len() as int) == before
}

/// The events of `after` that come behind those of `before`.
pub open spec fn added(before: Seq<EventView>, after: Seq<EventView>) -> Seq<EventView> {
    after.skip(before.len() as int)
}

/// A log that was extended twice was extended by the two additions, one behind the other.
pub proof fn lemma_extends_chain(a: Seq<EventView>, b: Seq<EventView>, c: Seq<EventView>)
    requires
        extends(a, b),
        extends(b, c),
    ensures
        extends(a, c),
        added(a, c) == added(a, b) + added(b, c),
        timeless_log(added(a, c)) == timeless_log(added(a, b)) + timeless_log(added(b, c)),
{
    assert(c.take(a.len() as int) =~= c.take(b.len() as int).take(a.len() as int));
    assert(added(a, c) =~= added(a, b) + added(b, c));
    assert(timeless_log(added(a, b) + added(b, c)) =~= timeless_log(added(a, b)) + timeless_log(
        added(b, c),
    ));
}

/// A log with one more event is the log extended by that event.
pub proof fn lemma_extends_push(a: Seq<EventView>, event: EventView)
    ensures
        extends(a, a.push(event)),
        added(a, a.push(event)) == seq![event],
        timeless_log(added(a, a.push(event))) == seq![event.timeless()],
{
    assert(a.push(event).take(a.len() as int) =~= a);
    assert(added(a, a.push(event)) =~= seq![event]);
    assert(timeless_log(seq![event]) =~= seq![event.timeless()]);
}

/// A log extends itself by nothing.
pub proof fn lemma_extends_same(a: Seq<EventView>)
    ensures
        extends(a, a),
        added(a, a) == Seq::<EventView>::empty(),
        timeless_log(added(a, a)) == Seq::<EventView>::empty(),
{
    assert(a.take(a.len() as int) =~= a);
    assert(added(a, a) =~= Seq::<EventView>::empty());
    assert(timeless_log(Seq::<EventView>::empty()) =~= Seq::<EventView>::empty());
}

/// A consumer of the event stream. `log` is the sequence of events taken so far,
/// `refused` the number of events for which `notify` has returned an error, and `hints`
/// the hints taken so far, each with the number of events that had been taken before it.
pub trait Notifier {
    spec fn log(&self) -> Seq<EventView>;

    spec fn reliable(&self) -> bool;

    spec fn refused(&self) -> nat;

    spec fn hints(&self) -> Seq<(nat, bool)>;

    /// Tells the reporter whether cases are about to run in parallel.
    fn threaded(&mut self, yes: bool)
        ensures
            final(self).reliable() == old(self).reliable(),
            final(self).log() == old(self).log(),
            final(self).refused() == old(self).refused(),
            final(self).hints() == old(self).hints().push((old(self).log().len(), yes)),
    ;

    fn notify(&mut self, event: Event) -> (r: Result<(), WriteError>)
        ensures
            final(self).reliable() == old(self).reliable(),
            old(self).reliable() ==> r is Ok,
            final(self).refused() == old(self).refused() + if r is Err {
                1nat
            } else {
                0nat
            },
            final(self).hints() == old(self).hints(),
            r is Ok ==> final(self).log() == old(self).log().push(event@),
    ;
}

/// One of the reporters, chosen when the run begins.
pub enum AnyNotifier<W> {
    Json(crate::notify::json::JsonNotifier<W>),
    TerseList(crate::notify::terse::TerseListNotifier<W>),
    Pretty(crate::notify::pretty::PrettyRunNotifier<W>),
    Terse(crate::notify::terse::TerseRunNotifier<W>),
}

/// Which reporter a run uses.
#[derive(Copy, Clone, Debug, PartialEq, Eq, Structural)]
pub enum Reporter {
    Json,
    TerseList,
    Pretty,
    Terse,
}

/// The reporter that the options ask for: the machine-readable one where the format is
/// JSON; else the lister where the options only list the cases; else the verbose or the
/// quiet one, by the format.
pub open spec fn reporter_for(opts: crate::opts::TestOptsView) -> Reporter {
    if opts.format == crate::opts::OutputFormat::Json {
        Reporter::Json
    } else if opts.list {
        Reporter::TerseList
    } else if opts.format == crate::opts::OutputFormat::Pretty {
        Reporter::Pretty
    } else {
        Reporter::Terse
    }
}

impl<W: Sink> AnyNotifier<W> {
    /// Which reporter this is.
    pub open spec fn reporter(&self) -> Reporter {
        match self {
            AnyNotifier::Json(_) => Reporter::Json,
            AnyNotifier::TerseList(_) => Reporter::TerseList,
            AnyNotifier::Pretty(_) => Reporter::Pretty,
            AnyNotifier::Terse(_) => Reporter::Terse,
        }
    }

    /// The sink that the reporter writes to.
    pub open spec fn sink(&self) -> W {
        match self {
            AnyNotifier::Json(inner) => inner.sink(),
            AnyNotifier::TerseList(inner) => inner.sink(),
            AnyNotifier::Pretty(inner) => inner.sink(),
            AnyNotifier::Terse(inner) => inner.sink(),
        }
    }

    /// Whether the reporter is in the state in which a run with the options `opts` begins:
    /// it has seen no case, and it paints its status words unless the options ask for no
    /// colors.
    pub open spec fn starts_for(&self, opts: crate::opts::TestOptsView) -> bool {
        let summary = crate::notify::summary::SummaryView {
            colored: opts.color != crate::opts::ColorConfig::NeverColor,
            ..crate::notify::summary::fresh()
        };
        match self {
            AnyNotifier::Json(_) => true,
            AnyNotifier::TerseList(inner) => inner.tests() == 0,
            AnyNotifier::Pretty(inner) => inner.view() == (crate::notify::pretty::PrettyView {
                is_multithreaded: false,
                summary,
                name_width: 0,
            }),
            AnyNotifier::Terse(inner) => inner.summary() == summary,
        }
    }

    /// Whether this is the reporter `before` after the hint `yes`: the verbose reporter
    /// keeps the hint and is otherwise as it was; the other reporters are as they were.
    pub open spec fn took_hint(&self, before: &Self, yes: bool) -> bool {
        match (before, self) {
            (AnyNotifier::Pretty(was), AnyNotifier::Pretty(is)) => is.view() == (
            crate::notify::pretty::PrettyView { is_multithreaded: yes, ..was.view() })
                && is.sink() == was.sink(),
            (AnyNotifier::TerseList(was), AnyNotifier::TerseList(is)) => is.tests() == was.tests()
                && is.sink() == was.sink(),
            (AnyNotifier::Terse(was), AnyNotifier::Terse(is)) => is.summary() == was.summary()
                && is.sink() == was.sink(),
            (AnyNotifier::Json(was), AnyNotifier::Json(is)) => is.sink() == was.sink(),
            _ => false,
        }
    }

    /// What the reporter writes for `event`.
    pub open spec fn text_for(&self, event: EventView) -> Seq<char> {
        match self {
            AnyNotifier::Json(_) => crate::notify::json::json_text(event),
            AnyNotifier::TerseList(inner) => crate::notify::terse::list_text(inner.tests(), event),
            AnyNotifier::Pretty(inner) => crate::notify::pretty::pretty_text(inner.view(), event),
            AnyNotifier::Terse(inner) => crate::notify::terse::terse_text(inner.summary(), event),
        }
    }

    /// The sink, with all that was written to it.
    pub fn writer(&self) -> (writer: &W)
        ensures
            *writer == self.sink(),
    {
        match self {
            AnyNotifier::Json(inner) => inner.writer(),
            AnyNotifier::TerseList(inner) => inner.writer(),
            AnyNotifier::Pretty(inner) => inner.writer(),
            AnyNotifier::Terse(inner) => inner.writer(),
        }
    }
}

/// The reporter that the options ask for, writing to `writer`. It paints its status
/// words unless the options ask for no colors.
pub fn notifier<W: Sink>(opts: &crate::opts::TestOpts, writer: W) -> (chosen: AnyNotifier<W>)
    ensures
        chosen.reporter() == reporter_for(opts@),
        chosen.starts_for(opts@),
        chosen.sink() == writer,
        chosen.log() == Seq::<EventView>::empty(),
        chosen.refused() == 0,
        chosen.hints() == Seq::<(nat, bool)>::empty(),
        chosen.reliable() == writer.reliable(),
{
    let colored = match opts.color {
        crate::opts::ColorConfig::NeverColor => false,
        _ => true,
    };
    match opts.format {
        crate::opts::OutputFormat::Json => AnyNotifier::Json(
            crate::notify::json::JsonNotifier::new(writer),
        ),
        crate::opts::OutputFormat::Pretty => if opts.list {
            AnyNotifier::TerseList(crate::notify::terse::TerseListNotifier::new(writer))
        } else {
            AnyNotifier::Pretty(
                crate::notify::pretty::PrettyRunNotifier::new(writer).colored(colored),
            )
        },
        crate::opts::OutputFormat::Terse => if opts.list {
            AnyNotifier::TerseList(crate::notify::terse::TerseListNotifier::new(writer))
        } else {
            AnyNotifier::Terse(crate::notify::terse::TerseRunNotifier::new(writer).colored(colored))
        },
    }
}

impl<W: Sink> Notifier for AnyNotifier<W> {
    open spec fn log(&self) -> Seq<EventView> {
        match self {
            AnyNotifier::Json(inner) => inner.log(),
            AnyNotifier::TerseList(inner) => inner.log(),
            AnyNotifier::Pretty(inner) => inner.log(),
            AnyNotifier::Terse(inner) => inner.log(),
        }
    }

    open spec fn reliable(&self) -> bool {
        match self {
            AnyNotifier::Json(inner) => inner.reliable(),
            AnyNotifier::TerseList(inner) => inner.reliable(),
            AnyNotifier::Pretty(inner) => inner.reliable(),
            AnyNotifier::Terse(inner) => inner.reliable(),
        }
    }

    open spec fn refused(&self) -> nat {
        match self {
            AnyNotifier::Json(inner) => inner.refused(),
            AnyNotifier::TerseList(inner) => inner.refused(),
            AnyNotifier::Pretty(inner) => inner.refused(),
            AnyNotifier::Terse(inner) => inner.refused(),
        }
    }

    open spec fn hints(&self) -> Seq<(nat, bool)> {
        match self {
            AnyNotifier::Json(inner) => inner.hints(),
            AnyNotifier::TerseList(inner) => inner.hints(),
            AnyNotifier::Pretty(inner) => inner.hints(),
            AnyNotifier::Terse(inner) => inner.hints(),
        }
    }

    /// Hands the hint to the reporter: the verbose reporter writes whole lines at the
    /// completion of a case from now on where `yes`, and opens the line at the start of
    /// the case where not; the other reporters write as before.
    fn threaded(&mut self, yes: bool)
        ensures
            final(self).reporter() == old(self).reporter(),
            final(self).sink() == old(self).sink(),
            final(self).took_hint(old(self), yes),
    {
        match self {
            AnyNotifier::Json(inner) => inner.threaded(yes),
            AnyNotifier::TerseList(inner) => inner.threaded(yes),
            AnyNotifier::Pretty(inner) => inner.threaded(yes),
            AnyNotifier::Terse(inner) => inner.threaded(yes),
        }
    }

    fn notify(&mut self, event: Event) -> (r: Result<(), WriteError>)
        ensures
            final(self).reporter() == old(self).reporter(),
            r is Ok ==> final(self).sink().written() == old(self).sink().written() + old(
                self,
            ).text_for(event@),
    {
        match self {
            AnyNotifier::Json(inner) => inner.notify(event),
            AnyNotifier::TerseList(inner) => inner.notify(event),
            AnyNotifier::Pretty(inner) => inner.notify(event),
            AnyNotifier::Terse(inner) => inner.notify(event),
        }
    }
}

} // verus!
