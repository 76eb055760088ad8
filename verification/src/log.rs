//! The simulation event log: an append-only, multi-reader broadcast log of
//! semantic input events. Downstream simulation systems subscribe by
//! registering a read cursor and repeatedly reading everything published
//! since their last read.

use vstd::prelude::*;
use crate::events::SemanticInputEvent;

verus! {

/// The append-only log, viewed as the sequence of every event ever published.
pub struct EventLog {
    events: Vec<SemanticInputEvent>,
}

/// A registered reader's position in the log: the number of events it has
/// already consumed.
pub struct ReaderCursor {
    pos: usize,
}

impl ReaderCursor {
    /// How many events this reader has consumed.
    pub closed spec fn pos_spec(self) -> nat {
        self.pos as nat
    }
}

impl View for EventLog {
    type V = Seq<SemanticInputEvent>;

    closed spec fn view(&self) -> Seq<SemanticInputEvent> {
        self.events@
    }
}

impl EventLog {
    /// Creates an empty log.
    pub fn new() -> (log: EventLog)
        ensures
            log@ =~= Seq::<SemanticInputEvent>::empty(),
    {
        EventLog { events: Vec::new() }
    }

    /// The number of events ever published.
    pub fn len(&self) -> (n: usize)
        ensures
            n == self@.len(),
    {
        self.events.len()
    }

    /// The event at a position.
    pub fn get(&self, i: usize) -> (e: SemanticInputEvent)
        requires
            i < self@.len(),
        ensures
            e == self@[i as int],
    {
        self.events[i]
    }

    /// Appends one event. Nothing already published moves.
    pub fn publish(&mut self, e: SemanticInputEvent)
        ensures
            final(self)@ == old(self)@.push(e),
    {
        self.events.push(e);
    }

    /// Appends a whole batch in order. Nothing already published moves.
    pub fn publish_all(&mut self, es: &Vec<SemanticInputEvent>)
        ensures
            final(self)@ == old(self)@ + es@,
    {
        let ghost l0 = self.events@;
        let mut i: usize = 0;
        proof {
            assert(l0 + es@.take(0) =~= l0);
        }
        while i < es.len()
            invariant
                i <= es.len(),
                self.events@ == l0 + es@.take(i as int),
            decreases es.len() - i,
        {
            proof {
                assert((l0 + es@.take(i as int)).push(es@[i as int]) =~= l0 + es@.take(
                    i + 1 as int,
                ));
            }
            self.events.push(es[i]);
            i = i + 1;
        }
        proof {
            assert(l0 + es@.take(es@.len() as int) =~= l0 + es@);
        }
    }

    /// Registers a new reader. It sees only what is published after this
    /// call.
    pub fn register_reader(&self) -> (c: ReaderCursor)
        ensures
            c.pos_spec() == self@.len(),
    {
        ReaderCursor { pos: self.events.len() }
    }

    /// Returns everything published since the cursor's last read, in publish
    /// order, and moves the cursor to the end of the log. A cursor is only
    /// ever used with the log that issued it, so it never points past the
    /// end.
    pub fn read_new(&self, cursor: &mut ReaderCursor) -> (es: Vec<SemanticInputEvent>)
        requires
            old(cursor).pos_spec() <= self@.len(),
        ensures
            es@ == self@.skip(old(cursor).pos_spec() as int),
            final(cursor).pos_spec() == self@.len(),
    {
        let mut es: Vec<SemanticInputEvent> = Vec::new();
        let mut i: usize = cursor.pos;
        let ghost start = cursor.pos as int;
        proof {
            assert(self@.subrange(start, start) =~= Seq::<SemanticInputEvent>::empty());
        }
        while i < self.events.len()
            invariant
                0 <= start <= i <= self.events.len(),
                es@ == self@.subrange(start, i as int),
            decreases self.events.len() - i,
        {
            proof {
                assert(self@.subrange(start, i as int).push(self@[i as int]) =~= self@.subrange(
                    start,
                    i + 1 as int,
                ));
            }
            es.push(self.events[i]);
            i = i + 1;
        }
        proof {
            assert(self@.subrange(start, self@.len() as int) =~= self@.skip(start));
        }
        cursor.pos = i;
        es
    }
}

} // verus!
