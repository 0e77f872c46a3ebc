//! The call and jump table: the control transfers of a run, each linked to
//! the event of the call that encloses it.

use vstd::prelude::*;

verus! {

/// One control transfer.
#[derive(Clone, Copy, Debug, PartialEq, Eq, Structural)]
pub struct JumpTableEntry {
    /// The event that made the transfer.
    pub eid: u32,
    /// The event at which the enclosing call was entered.
    pub last_jump_eid: u32,
    /// The stable index of the function that is entered.
    pub callee_fid: u32,
    /// The stable index and position of the operation to return to.
    pub fid: u32,
    pub iid: u32,
}

/// The control transfers in the order in which they happened.
#[derive(Debug, PartialEq, Eq)]
pub struct JumpTable {
    entries: Vec<JumpTableEntry>,
}

impl View for JumpTable {
    type V = Seq<JumpTableEntry>;

    closed spec fn view(&self) -> Seq<JumpTableEntry> {
        self.entries@
    }
}

impl JumpTable {
    /// The empty table.
    pub fn new() -> (r: JumpTable)
        ensures
            r@ == Seq::<JumpTableEntry>::empty(),
    {
        JumpTable { entries: Vec::new() }
    }

    /// Records a control transfer after all earlier ones.
    pub fn push(&mut self, entry: JumpTableEntry)
        ensures
            final(self)@ == old(self)@.push(entry),
    {
        self.entries.push(entry);
    }

    /// The control transfers, in the order in which they happened.
    pub fn entries(&self) -> (r: &Vec<JumpTableEntry>)
        ensures
            r@ == self@,
    {
        &self.entries
    }
}

} // verus!
