//! The machine-readable reporter: one line of JSON for each event.

use vstd::prelude::*;
use crate::event::Event;
use crate::event::EventView;
use crate::event::jsonline;
use crate::notify::Notifier;
use crate::notify::Sink;
use crate::notify::WriteError;

verus! {

/// What the reporter writes for `event`: its line.
pub open spec fn json_text(event: EventView) -> Seq<char> {
    jsonline(event) + "\n"@
}

/// The machine-readable reporter, writing to `W`.
pub struct JsonNotifier<W> {
    writer: W,
    seen: Ghost<Seq<EventView>>,
    refused: Ghost<nat>,
    hinted: Ghost<Seq<(nat, bool)>>,
}

impl<W: Sink> JsonNotifier<W> {
    /// The sink that the reporter writes to.
    pub closed spec fn sink(&self) -> W {
        self.writer
    }

    pub fn new(writer: W) -> (notifier: Self)
        ensures
            notifier.sink() == writer,
            notifier.log() == Seq::<EventView>::empty(),
            notifier.refused() == 0,
            notifier.hints() == Seq::<(nat, bool)>::empty(),
    {
        JsonNotifier {
            writer,
            seen: Ghost(Seq::empty()),
            refused: Ghost(0),
            hinted: Ghost(Seq::empty()),
        }
    }

    /// The sink, with all that was written to it.
    pub fn writer(&self) -> (writer: &W)
        ensures
            *writer == self.sink(),
    {
        &self.writer
    }
}

impl<W: Sink> Notifier for JsonNotifier<W> {
    closed spec fn log(&self) -> Seq<EventView> {
        self.seen@
    }

    closed spec fn refused(&self) -> nat {
        self.refused@
    }

    closed spec fn hints(&self) -> Seq<(nat, bool)> {
        self.hinted@
    }

    open spec fn reliable(&self) -> bool {
        self.sink().reliable()
    }

    fn threaded(&mut self, yes: bool)
        ensures
            final(self).sink() == old(self).sink(),
    {
        proof {
            self.hinted@ = self.hinted@.push((self.seen@.len(), yes));
        }
    }

    fn notify(&mut self, event: Event) -> (r: Result<(), WriteError>)
        ensures
            r is Ok ==> final(self).sink().written() == old(self).sink().written() + json_text(
                event@,
            ),
    {
        let mut line = event.to_jsonline();
        line.append("\n");
        proof {
            self.seen@ = self.seen@.push(event@);
        }
        let r = self.writer.write_text(line.as_str());
        proof {
            if r is Err {
                self.refused@ = self.refused@ + 1;
            }
        }
        r
    }
}

} // verus!
