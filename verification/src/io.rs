//! IO module: the event bus that connects the core (world, VMs and main
//! loop) with the host around it. Subscribers are kept per event, in
//! subscription order; removing one leaves a tombstone so that the ids of
//! the others never shift. The bus itself never runs code: [`IO::fire`]
//! hands back the subscribers to call, in order, and the host invokes them.
pub mod events;

use vstd::prelude::*;
use crate::global::{Atom, Offs};
use self::events::EVENT_LAST;

verus! {

/// Handle of one subscriber. The host picks the value and maps it back to
/// the action to perform when the handle comes out of [`IO::fire`].
pub type Callback = u64;

/// Parameters that travel with an event.
pub enum Param {
    /// No parameters.
    Empty,
    /// An atom was written by offset.
    SetDot(Offs, Atom),
    /// An atom moved from the first offset to the second.
    MoveDot(Offs, Offs, Atom),
    /// Load atoms and VMs from this dump file.
    LoadAtoms(String),
    /// Save atoms and VMs to this dump file.
    SaveAtoms(String),
}

/// The subscribers of one event that are still active, in subscription
/// order: the tombstones are passed over.
pub open spec fn spec_active(s: Seq<Option<Callback>>) -> Seq<Callback>
    decreases s.len(),
{
    if s.len() == 0 {
        Seq::empty()
    } else {
        spec_active(s.drop_last()) + (match s.last() {
            Some(cb) => seq![cb],
            None => Seq::empty(),
        })
    }
}

/// Event bus object. Holds all listeners by event.
pub struct IO {
    events: Vec<Vec<Option<Callback>>>,
}

impl View for IO {
    type V = Seq<Seq<Option<Callback>>>;

    closed spec fn view(&self) -> Seq<Seq<Option<Callback>>> {
        Seq::new(self.events@.len(), |i: int| self.events@[i]@)
    }
}

impl IO {
    /// One listener list per event, all empty.
    pub fn new() -> (io: IO)
        ensures
            io@.len() == EVENT_LAST,
            forall|e: int| 0 <= e < EVENT_LAST ==> #[trigger] io@[e].len() == 0,
    {
        let mut io = IO { events: Vec::new() };
        let mut i: usize = 0;
        while i < EVENT_LAST
            invariant
                i == io.events@.len(),
                i <= EVENT_LAST,
                forall|e: int| 0 <= e < i ==> #[trigger] io.events@[e]@.len() == 0,
            decreases EVENT_LAST - i,
        {
            io.events.push(Vec::new());
            i += 1;
        }
        io
    }

    /// Assigns a listener to an event and returns the listener id, which is
    /// used in [`IO::off`].
    pub fn on(&mut self, event: usize, cb: Callback) -> (id: usize)
        requires
            event < old(self)@.len(),
        ensures
            final(self)@ == old(self)@.update(
                event as int,
                old(self)@[event as int].push(Some(cb)),
            ),
            id == old(self)@[event as int].len(),
    {
        let n = self.events[event].len();
        let lst = &mut self.events[event];
        lst.push(Some(cb));
        assert(final(self)@ =~= old(self)@.update(
            event as int,
            old(self)@[event as int].push(Some(cb)),
        ));
        n
    }

    /// Unassigns the listener with this id from the event. The slot is only
    /// marked as empty, so the ids of all other listeners stay as they are.
    pub fn off(&mut self, event: usize, listener_id: usize)
        requires
            event < old(self)@.len(),
            listener_id < old(self)@[event as int].len(),
        ensures
            final(self)@ == old(self)@.update(
                event as int,
                old(self)@[event as int].update(listener_id as int, None),
            ),
    {
        let lst = &mut self.events[event];
        lst.set(listener_id, None);
        assert(final(self)@ =~= old(self)@.update(
            event as int,
            old(self)@[event as int].update(listener_id as int, None),
        ));
    }

    /// Fires an event with a parameter: returns the active listeners of the
    /// event, in subscription order. The caller hands `p` to each of them.
    #[allow(unused_variables)]
    pub fn fire(&self, event: usize, p: &Param) -> (cbs: Vec<Callback>)
        requires
            event < self@.len(),
        ensures
            cbs@ == spec_active(self@[event as int]),
    {
        let lst = &self.events[event];
        let mut cbs: Vec<Callback> = Vec::new();
        let n = lst.len();
        let mut i: usize = 0;
        while i < n
            invariant
                i <= n,
                n == lst@.len(),
                cbs@ == spec_active(lst@.take(i as int)),
            decreases n - i,
        {
            proof {
                assert(lst@.take(i + 1).drop_last() =~= lst@.take(i as int));
                assert(lst@.take(i + 1).last() == lst@[i as int]);
            }
            match lst[i] {
                Some(cb) => cbs.push(cb),
                None => (),
            }
            i += 1;
        }
        proof {
            assert(lst@.take(n as int) =~= lst@);
        }
        cbs
    }
}

} // verus!
