//! The quiet reporters: one character for each case, and the bare list of cases.

use vstd::prelude::*;
use crate::event::Event;
use crate::event::EventView;
use crate::event::MessageKind;
use crate::notify::Notifier;
use crate::notify::Sink;
use crate::notify::WriteError;
use crate::notify::style::FAILED;
use crate::notify::style::IGNORED;
use crate::notify::style::OK;
use crate::notify::style::painted;
use crate::notify::style::push_painted;
use crate::notify::style::tone;
use crate::notify::style::tone_of;
use crate::notify::summary::Summary;
use crate::notify::summary::SummaryView;
use crate::notify::summary::bumped;
use crate::notify::summary::complete_text;
use crate::notify::summary::fresh;
use crate::notify::summary::kind_of;
use crate::notify::summary::start_text;
use crate::notify::summary::step;
use crate::text::decimal;
use crate::text::push_decimal;

verus! {

/// The number of selected cases after `event`.
pub open spec fn list_step(tests: nat, event: EventView) -> nat {
    match event {
        EventView::DiscoverCase { selected, .. } => if selected {
            bumped(tests)
        } else {
            tests
        },
        _ => tests,
    }
}

/// What the lister writes for `event`: a line `name: mode` for each selected case, and the
/// number of selected cases when discovery is complete.
pub open spec fn list_text(tests: nat, event: EventView) -> Seq<char> {
    match event {
        EventView::DiscoverCase { name, mode, selected, .. } => if selected {
            name + ": "@ + mode.name() + "\n"@
        } else {
            Seq::empty()
        },
        EventView::DiscoverComplete { .. } => "\n"@ + decimal(tests) + " tests\n"@ + "\n"@,
        _ => Seq::empty(),
    }
}

/// The reporter of a run that only lists its cases.
pub struct TerseListNotifier<W> {
    writer: W,
    tests: usize,
    seen: Ghost<Seq<EventView>>,
    refused: Ghost<nat>,
    hinted: Ghost<Seq<(nat, bool)>>,
}

impl<W: Sink> TerseListNotifier<W> {
    /// The number of selected cases seen so far.
    pub closed spec fn tests(&self) -> nat {
        self.tests as nat
    }

    /// The sink that the reporter writes to.
    pub closed spec fn sink(&self) -> W {
        self.writer
    }

    pub fn new(writer: W) -> (notifier: Self)
        ensures
            notifier.sink() == writer,
            notifier.tests() == 0,
            notifier.log() == Seq::<EventView>::empty(),
            notifier.refused() == 0,
            notifier.hints() == Seq::<(nat, bool)>::empty(),
    {
        TerseListNotifier {
            writer,
            tests: 0,
            seen: Ghost(Seq::empty()),
            refused: Ghost(0),
            hinted: Ghost(Seq::empty()),
        }
    }

    /// The sink, with all that was written to it.
    pub fn writer(&self) -> (writer: &W)
        ensures
            *writer == self.sink(),
    {
        &self.writer
    }
}

impl<W: Sink> Notifier for TerseListNotifier<W> {
    closed spec fn log(&self) -> Seq<EventView> {
        self.seen@
    }

    closed spec fn refused(&self) -> nat {
        self.refused@
    }

    closed spec fn hints(&self) -> Seq<(nat, bool)> {
        self.hinted@
    }

    open spec fn reliable(&self) -> bool {
        self.sink().reliable()
    }

    fn threaded(&mut self, yes: bool)
        ensures
            final(self).tests() == old(self).tests(),
            final(self).sink() == old(self).sink(),
    {
        proof {
            self.hinted@ = self.hinted@.push((self.seen@.len(), yes));
        }
    }

    fn notify(&mut self, event: Event) -> (r: Result<(), WriteError>)
        ensures
            r is Ok ==> final(self).tests() == list_step(old(self).tests(), event@),
            r is Ok ==> final(self).sink().written() == old(self).sink().written() + list_text(
                old(self).tests(),
                event@,
            ),
    {
        let mut text = String::new();
        match &event {
            Event::DiscoverCase(inner) => {
                if inner.selected {
                    text.append(inner.name.as_str());
                    text.append(": ");
                    text.append(inner.mode.as_str());
                    text.append("\n");
                }
            },
            Event::DiscoverComplete(_) => {
                text.append("\n");
                push_decimal(&mut text, self.tests as u128);
                text.append(" tests\n");
                text.append("\n");
            },
            _ => {},
        }
        proof {
            assert(text@ =~= list_text(self.tests(), event@));
            self.seen@ = self.seen@.push(event@);
        }
        match &event {
            Event::DiscoverCase(inner) => {
                if inner.selected && self.tests < usize::MAX {
                    self.tests = self.tests + 1;
                }
            },
            _ => {},
        }
        let r = self.writer.write_text(text.as_str());
        proof {
            if r is Err {
                self.refused@ = self.refused@ + 1;
            }
        }
        r
    }
}

/// The character that stands for a finished case, painted by its status where the
/// report is colored.
pub open spec fn status_char(colored: bool, status: Option<MessageKind>) -> Seq<char> {
    match status {
        Some(MessageKind::Ignored) => painted(tone(colored, IGNORED), "i"@),
        Some(MessageKind::Error) => painted(tone(colored, FAILED), "F"@),
        None => painted(tone(colored, OK), "."@),
    }
}

/// What the quiet reporter writes for `event`, given the summary before it.
pub open spec fn terse_text(summary: SummaryView, event: EventView) -> Seq<char> {
    let after = step(summary, event);
    match event {
        EventView::RunStart { .. } => start_text(after),
        EventView::CaseComplete { name, .. } => status_char(
            after.colored,
            kind_of(after.cases, name),
        ),
        EventView::RunComplete { .. } => complete_text(after),
        _ => Seq::empty(),
    }
}

/// The quiet reporter, writing to `W`.
pub struct TerseRunNotifier<W> {
    writer: W,
    summary: Summary,
    refused: Ghost<nat>,
    hinted: Ghost<Seq<(nat, bool)>>,
}

impl<W: Sink> TerseRunNotifier<W> {
    /// The summary of the events taken so far.
    pub closed spec fn summary(&self) -> SummaryView {
        self.summary@
    }

    /// The sink that the reporter writes to.
    pub closed spec fn sink(&self) -> W {
        self.writer
    }

    pub fn new(writer: W) -> (notifier: Self)
        ensures
            notifier.sink() == writer,
            notifier.summary() == fresh(),
            notifier.log() == Seq::<EventView>::empty(),
            notifier.refused() == 0,
            notifier.hints() == Seq::<(nat, bool)>::empty(),
    {
        TerseRunNotifier {
            writer,
            summary: Summary::new(),
            refused: Ghost(0),
            hinted: Ghost(Seq::empty()),
        }
    }

    /// The reporter with its colors switched on or off.
    pub fn colored(self, yes: bool) -> (notifier: Self)
        ensures
            notifier.summary() == (SummaryView { colored: yes, ..self.summary() }),
            notifier.sink() == self.sink(),
            notifier.log() == self.log(),
            notifier.refused() == self.refused(),
            notifier.hints() == self.hints(),
    {
        TerseRunNotifier {
            writer: self.writer,
            summary: self.summary.colored(yes),
            refused: self.refused,
            hinted: self.hinted,
        }
    }

    /// The sink, with all that was written to it.
    pub fn writer(&self) -> (writer: &W)
        ensures
            *writer == self.sink(),
    {
        &self.writer
    }
}

impl<W: Sink> Notifier for TerseRunNotifier<W> {
    closed spec fn log(&self) -> Seq<EventView> {
        self.summary.events()
    }

    closed spec fn refused(&self) -> nat {
        self.refused@
    }

    closed spec fn hints(&self) -> Seq<(nat, bool)> {
        self.hinted@
    }

    open spec fn reliable(&self) -> bool {
        self.sink().reliable()
    }

    fn threaded(&mut self, yes: bool)
        ensures
            final(self).summary() == old(self).summary(),
            final(self).sink() == old(self).sink(),
    {
        proof {
            self.hinted@ = self.hinted@.push((self.summary.events().len(), yes));
        }
    }

    fn notify(&mut self, event: Event) -> (r: Result<(), WriteError>)
        ensures
            r is Ok ==> final(self).summary() == step(old(self).summary(), event@),
            r is Ok ==> final(self).sink().written() == old(self).sink().written() + terse_text(
                old(self).summary(),
                event@,
            ),
    {
        self.summary.record(&event);
        let mut text = String::new();
        match &event {
            Event::RunStart(_) => {
                let r = self.summary.write_start(&mut text);
            },
            Event::CaseComplete(inner) => {
                let colored = self.summary.is_colored();
                match self.summary.get_kind(inner.name.as_str()) {
                    Some(MessageKind::Ignored) => push_painted(
                        &mut text,
                        tone_of(colored, IGNORED),
                        "i",
                    ),
                    Some(MessageKind::Error) => push_painted(&mut text, tone_of(colored, FAILED), "F"),
                    None => push_painted(&mut text, tone_of(colored, OK), "."),
                }
            },
            Event::RunComplete(_) => {
                let r = self.summary.write_complete(&mut text);
            },
            _ => {},
        }
        proof {
            assert(text@ =~= terse_text(old(self).summary(), event@));
        }
        let r = match self.writer.write_text(text.as_str()) {
            Ok(()) => self.writer.flush(),
            Err(e) => Err(e),
        };
        proof {
            if r is Err {
                self.refused@ = self.refused@ + 1;
            }
        }
        r
    }
}

} // verus!
