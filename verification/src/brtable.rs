//! The indirect-call table: which function each slot of a table was bound to.

use vstd::prelude::*;

verus! {

/// One binding of a table slot to a function.
#[derive(Clone, Copy, Debug, PartialEq, Eq, Structural)]
pub struct ElemEntry {
    pub table_idx: u32,
    pub type_idx: u32,
    pub offset: u32,
    pub func_idx: u32,
}

/// The bindings in the order in which they were recorded. A later binding of
/// a slot does not remove an earlier one.
#[derive(Debug, PartialEq, Eq)]
pub struct ElemTable {
    entries: Vec<ElemEntry>,
}

impl View for ElemTable {
    type V = Seq<ElemEntry>;

    closed spec fn view(&self) -> Seq<ElemEntry> {
        self.entries@
    }
}

impl ElemTable {
    /// The empty table.
    pub fn new() -> (r: ElemTable)
        ensures
            r@ == Seq::<ElemEntry>::empty(),
    {
        ElemTable { entries: Vec::new() }
    }

    /// Records a binding after all earlier ones, as it is.
    pub fn insert(&mut self, entry: ElemEntry)
        ensures
            final(self)@ == old(self)@.push(entry),
    {
        self.entries.push(entry);
    }

    /// The bindings, in the order in which they were recorded.
    pub fn entries(&self) -> (r: &Vec<ElemEntry>)
        ensures
            r@ == self@,
    {
        &self.entries
    }

    /// The number of bindings.
    pub fn len(&self) -> (r: usize)
        ensures
            r == self@.len(),
    {
        self.entries.len()
    }

    /// The binding that was recorded as the `i`-th, counted from 0.
    pub fn get(&self, i: usize) -> (r: Option<ElemEntry>)
        ensures
            r == if i < self@.len() {
                Some(self@[i as int])
            } else {
                None
            },
    {
        if i < self.entries.len() {
            Some(self.entries[i])
        } else {
            None
        }
    }
}

/// What a table holds after the bindings `records` were recorded one by one,
/// in order, in a table that held `table`.
pub open spec fn record_all(table: Seq<ElemEntry>, records: Seq<ElemEntry>) -> Seq<ElemEntry>
    decreases records.len(),
{
    if records.len() == 0 {
        table
    } else {
        record_all(table, records.drop_last()).push(records.last())
    }
}

/// Recording keeps everything. After any number of recordings the table
/// holds what it held before, unchanged, followed by every recorded binding
/// with the fields it was recorded with, in the order of recording.
pub proof fn lemma_recorded_entries_kept(table: Seq<ElemEntry>, records: Seq<ElemEntry>)
    ensures
        record_all(table, records) == table + records,
        record_all(table, records).len() == table.len() + records.len(),
        forall|i: int| 0 <= i < table.len() ==> record_all(table, records)[i] == table[i],
        forall|i: int|
            0 <= i < records.len() ==> record_all(table, records)[table.len() + i] == records[i],
    decreases records.len(),
{
    if records.len() > 0 {
        lemma_recorded_entries_kept(table, records.drop_last());
        assert(records == records.drop_last().push(records.last()));
        assert(record_all(table, records) == table + records);
    }
}

} // verus!
