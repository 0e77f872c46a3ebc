//! The instruction table: one row per operation of every traced function,
//! addressed by the function's stable index and the operation's position.

use crate::module::DropKeep;
use vstd::prelude::*;

verus! {

/// An operation as the table holds it. A call names its target by the
/// target's stable index.
#[derive(Clone, Copy, Debug, PartialEq, Eq, Structural)]
pub enum Opcode {
    Call { index: u32 },
    CallIndirect { type_index: u32 },
    Return(DropKeep),
    I32Const(i32),
    I32WrapI64,
    /// Any operation that names no function, by opcode number and immediate.
    Other { opcode: u16, immediate: u64 },
}

/// One row of the instruction table.
#[derive(Clone, Copy, Debug, PartialEq, Eq, Structural)]
pub struct InstructionTableEntry {
    /// The stable index of the function.
    pub fid: u32,
    /// The position of the operation in the function.
    pub iid: u32,
    pub opcode: Opcode,
}

/// Some row of `rows` belongs to function `fid`.
pub open spec fn has_function(rows: Seq<InstructionTableEntry>, fid: u32) -> bool {
    exists|k: int| 0 <= k < rows.len() && (#[trigger] rows[k]).fid == fid
}

/// Some row of `rows` stands at position `iid` of function `fid`.
pub open spec fn has_row(rows: Seq<InstructionTableEntry>, fid: u32, iid: u32) -> bool {
    exists|k: int| 0 <= k < rows.len() && (#[trigger] rows[k]).fid == fid && rows[k].iid == iid
}

/// No two rows of `rows` share function and position.
pub open spec fn rows_distinct(rows: Seq<InstructionTableEntry>) -> bool {
    forall|i: int, j: int|
        0 <= i < j < rows.len() ==> !((#[trigger] rows[i]).fid == (#[trigger] rows[j]).fid
            && rows[i].iid == rows[j].iid)
}

/// `row` is the row of `rows` at position `iid` of function `fid`: the first
/// such row in the order of `rows`.
pub open spec fn is_row_at(
    rows: Seq<InstructionTableEntry>,
    fid: u32,
    iid: u32,
    row: InstructionTableEntry,
) -> bool {
    exists|k: int|
        {
            &&& 0 <= k < rows.len()
            &&& #[trigger] rows[k] == row
            &&& row.fid == fid
            &&& row.iid == iid
            &&& forall|j: int|
                0 <= j < k ==> !((#[trigger] rows[j]).fid == fid && rows[j].iid == iid)
        }
}

/// `row` is the row of function `fid` in `rows` with the least position: the
/// first such row in the order of `rows`.
pub open spec fn is_earliest_row(
    rows: Seq<InstructionTableEntry>,
    fid: u32,
    row: InstructionTableEntry,
) -> bool {
    exists|k: int|
        {
            &&& 0 <= k < rows.len()
            &&& #[trigger] rows[k] == row
            &&& row.fid == fid
            &&& forall|j: int|
                0 <= j < rows.len() && (#[trigger] rows[j]).fid == fid ==> row.iid <= rows[j].iid
            &&& forall|j: int|
                0 <= j < k && (#[trigger] rows[j]).fid == fid ==> row.iid < rows[j].iid
        }
}

/// The instruction table, in the order in which its rows were added.
#[derive(Debug, PartialEq, Eq)]
pub struct InstructionTable {
    entries: Vec<InstructionTableEntry>,
}

impl View for InstructionTable {
    type V = Seq<InstructionTableEntry>;

    closed spec fn view(&self) -> Seq<InstructionTableEntry> {
        self.entries@
    }
}

impl InstructionTable {
    /// The table's invariant: a function and a position name at most one row.
    pub open spec fn wf(&self) -> bool {
        rows_distinct(self@)
    }

    /// The empty table.
    pub fn new() -> (r: InstructionTable)
        ensures
            r@ == Seq::<InstructionTableEntry>::empty(),
            r.wf(),
    {
        InstructionTable { entries: Vec::new() }
    }

    /// Adds the row of position `iid` of function `fid`. The table must not
    /// hold a row for that function and position yet.
    pub fn push(&mut self, fid: u32, iid: u32, opcode: Opcode)
        requires
            old(self).wf(),
            !has_row(old(self)@, fid, iid),
        ensures
            final(self)@ == old(self)@.push(InstructionTableEntry { fid, iid, opcode }),
            final(self).wf(),
    {
        self.entries.push(InstructionTableEntry { fid, iid, opcode });
    }

    /// The rows, in the order in which they were added.
    pub fn entries(&self) -> (r: &Vec<InstructionTableEntry>)
        ensures
            r@ == self@,
    {
        &self.entries
    }

    /// The number of rows.
    pub fn len(&self) -> (r: usize)
        ensures
            r == self@.len(),
    {
        self.entries.len()
    }

    /// The row at position `iid` of function `fid`, if the table holds one:
    /// the first such row in the order of the table.
    pub fn find(&self, fid: u32, iid: u32) -> (r: Option<InstructionTableEntry>)
        ensures
            r is Some <==> has_row(self@, fid, iid),
            r matches Some(row) ==> is_row_at(self@, fid, iid, row),
    {
        let mut k: usize = 0;
        while k < self.entries.len()
            invariant
                k <= self.entries.len(),
                forall|j: int|
                    0 <= j < k ==> !((#[trigger] self.entries@[j]).fid == fid
                        && self.entries@[j].iid == iid),
            decreases self.entries.len() - k,
        {
            let row = self.entries[k];
            if row.fid == fid && row.iid == iid {
                assert(self@[k as int] == row);
                return Some(row);
            }
            k += 1;
        }
        None
    }

    /// The row of function `fid` with the least position, if the table holds
    /// a row of that function.
    pub fn first_of(&self, fid: u32) -> (r: Option<InstructionTableEntry>)
        ensures
            r is Some <==> has_function(self@, fid),
            r matches Some(row) ==> is_earliest_row(self@, fid, row),
    {
        let mut best: Option<InstructionTableEntry> = None;
        let ghost mut at: int = 0;
        let mut k: usize = 0;
        while k < self.entries.len()
            invariant
                k <= self.entries.len(),
                best is None ==> forall|j: int|
                    0 <= j < k ==> (#[trigger] self.entries@[j]).fid != fid,
                best matches Some(found) ==> {
                    &&& 0 <= at < k
                    &&& self.entries@[at] == found
                    &&& found.fid == fid
                },
                forall|j: int|
                    best is Some && 0 <= j < k && (#[trigger] self.entries@[j]).fid == fid
                        ==> best->0.iid <= self.entries@[j].iid,
                forall|j: int|
                    best is Some && 0 <= j < at && (#[trigger] self.entries@[j]).fid == fid
                        ==> best->0.iid < self.entries@[j].iid,
            decreases self.entries.len() - k,
        {
            let row = self.entries[k];
            if row.fid == fid {
                let better = match best {
                    None => true,
                    Some(found) => row.iid < found.iid,
                };
                if better {
                    best = Some(row);
                    proof {
                        at = k as int;
                    }
                }
            }
            k += 1;
        }
        proof {
            if best is Some {
                assert(self@[at] == best->0);
                assert(has_function(self@, fid));
            }
        }
        best
    }
}

} // verus!
