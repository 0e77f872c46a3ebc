//! The event table: the executed operations of a run, numbered from 1 in
//! the order in which they ran.

use crate::itable::InstructionTableEntry;
use vstd::prelude::*;

verus! {

/// One executed operation.
#[derive(Clone, Copy, Debug, PartialEq, Eq, Structural)]
pub struct EventTableEntry {
    /// The event's number.
    pub eid: u32,
    /// The event at which the enclosing call was entered.
    pub last_jump_eid: u32,
    /// The row of the operation that ran.
    pub inst: InstructionTableEntry,
}

/// The event that `inst` makes when it runs as the `eid`-th operation.
pub open spec fn event(
    eid: int,
    last_jump_eid: u32,
    inst: InstructionTableEntry,
) -> EventTableEntry {
    EventTableEntry { eid: eid as u32, last_jump_eid, inst }
}

/// The events of a run. The table owns the event counter: the number of the
/// latest event, which is 0 before the first.
#[derive(Debug, PartialEq, Eq)]
pub struct EventTable {
    entries: Vec<EventTableEntry>,
    latest_eid: u32,
}

impl View for EventTable {
    type V = Seq<EventTableEntry>;

    closed spec fn view(&self) -> Seq<EventTableEntry> {
        self.entries@
    }
}

impl EventTable {
    /// The event counter: the number of the latest event.
    pub closed spec fn latest_eid(&self) -> u32 {
        self.latest_eid
    }

    /// The table's invariant: the counter is the number of events so far.
    pub open spec fn wf(&self) -> bool {
        self.latest_eid() == self@.len()
    }

    /// The empty table.
    pub fn new() -> (r: EventTable)
        ensures
            r@ == Seq::<EventTableEntry>::empty(),
            r.latest_eid() == 0,
            r.wf(),
    {
        EventTable { entries: Vec::new(), latest_eid: 0 }
    }

    /// The number of the latest event.
    pub fn get_latest_eid(&self) -> (r: u32)
        ensures
            r == self.latest_eid(),
    {
        self.latest_eid
    }

    /// Records that `inst` ran, gives the event the next number and returns
    /// that number.
    pub fn push(&mut self, inst: InstructionTableEntry, last_jump_eid: u32) -> (eid: u32)
        requires
            old(self).wf(),
            old(self).latest_eid() < u32::MAX,
        ensures
            eid == old(self).latest_eid() + 1,
            final(self).latest_eid() == eid,
            final(self)@ == old(self)@.push(event(eid as int, last_jump_eid, inst)),
            final(self).wf(),
    {
        let eid = self.latest_eid + 1;
        self.entries.push(EventTableEntry { eid, last_jump_eid, inst });
        self.latest_eid = eid;
        eid
    }

    /// The events, in the order in which they ran.
    pub fn entries(&self) -> (r: &Vec<EventTableEntry>)
        ensures
            r@ == self@,
    {
        &self.entries
    }
}

} // verus!
