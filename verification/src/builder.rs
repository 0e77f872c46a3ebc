//! The instruction table builder: it lays out the operations of every
//! function of a module as rows of the instruction table, with call
//! targets rewritten to stable indices.

use crate::host::{ConfigError, FuncDesc};
use crate::itable::{has_function, has_row, InstructionTable, InstructionTableEntry, Opcode};
use crate::module::{call_target_below, FuncInstance, FuncKind, Instruction};
use crate::phantom::{build_phantom_function_instructions, lemma_stub_shape, stub_instructions};
use crate::types::FuncRef;
use vstd::prelude::*;

verus! {

/// The stable index of each function, by module index.
pub open spec fn stable_indices(descs: Seq<FuncDesc>) -> Seq<u32> {
    Seq::new(descs.len(), |i: int| descs[i].index_within_jtable)
}

/// No two functions share a stable index.
pub open spec fn indices_distinct(indices: Seq<u32>) -> bool {
    forall|i: int, j: int| 0 <= i < j < indices.len() ==> indices[i] != indices[j]
}

/// The operation as the table holds it: a call names its target by stable
/// index, every other operation is kept as it is.
pub open spec fn translate(op: Instruction, indices: Seq<u32>) -> Opcode {
    match op {
        Instruction::Call(target) => Opcode::Call { index: indices[target as int] },
        Instruction::CallIndirect(type_index) => Opcode::CallIndirect { type_index },
        Instruction::Return(drop_keep) => Opcode::Return(drop_keep),
        Instruction::I32Const(value) => Opcode::I32Const(value),
        Instruction::I32WrapI64 => Opcode::I32WrapI64,
        Instruction::Other { opcode, immediate } => Opcode::Other { opcode, immediate },
    }
}

/// Rewrites a decoded operation for the table.
pub fn translate_instruction(op: Instruction, descs: &Vec<FuncDesc>) -> (r: Opcode)
    requires
        call_target_below(op, descs.len() as int),
    ensures
        r == translate(op, stable_indices(descs@)),
{
    match op {
        Instruction::Call(target) => Opcode::Call {
            index: descs[target as usize].index_within_jtable,
        },
        Instruction::CallIndirect(type_index) => Opcode::CallIndirect { type_index },
        Instruction::Return(drop_keep) => Opcode::Return(drop_keep),
        Instruction::I32Const(value) => Opcode::I32Const(value),
        Instruction::I32WrapI64 => Opcode::I32WrapI64,
        Instruction::Other { opcode, immediate } => Opcode::Other { opcode, immediate },
    }
}

/// The operations that are traced for a function: the stub where the
/// function is phantom, its own body where it is not.
pub open spec fn traced_code(f: FuncInstance, phantom: bool, input_index: Option<u32>) -> Seq<
    Instruction,
> {
    if phantom {
        match input_index {
            Some(input) => stub_instructions(f.signature@, input),
            None => Seq::empty(),
        }
    } else {
        f.code()
    }
}

/// The rows of one function: one row per operation, at positions 0, 1, 2
/// and so on.
pub open spec fn function_rows(fid: u32, code: Seq<Instruction>, indices: Seq<u32>) -> Seq<
    InstructionTableEntry,
> {
    Seq::new(
        code.len(),
        |k: int| InstructionTableEntry { fid, iid: k as u32, opcode: translate(code[k], indices) },
    )
}

/// The rows of the first `n` functions, in ascending order of module index.
pub open spec fn table_rows(
    funcs: Seq<FuncInstance>,
    phantoms: Seq<FuncRef>,
    input_index: Option<u32>,
    indices: Seq<u32>,
    n: int,
) -> Seq<InstructionTableEntry>
    decreases n,
{
    if n <= 0 {
        Seq::empty()
    } else {
        table_rows(funcs, phantoms, input_index, indices, n - 1) + function_rows(
            indices[n - 1],
            traced_code(funcs[n - 1], phantoms.contains(funcs[n - 1].handle), input_index),
            indices,
        )
    }
}

/// One of the first `n` functions is phantom.
pub open spec fn any_phantom(funcs: Seq<FuncInstance>, phantoms: Seq<FuncRef>, n: int) -> bool {
    exists|i: int| 0 <= i < n && phantoms.contains(#[trigger] funcs[i].handle)
}

/// Every row belongs to one of the first `n` functions.
pub open spec fn rows_of_first(
    rows: Seq<InstructionTableEntry>,
    indices: Seq<u32>,
    n: int,
) -> bool {
    forall|r: int|
        0 <= r < rows.len() ==> exists|j: int| 0 <= j < n && indices[j] == (#[trigger] rows[r]).fid
}

/// The test that a row belongs to function `fid`.
pub open spec fn belongs_to(fid: u32) -> spec_fn(InstructionTableEntry) -> bool {
    |row: InstructionTableEntry| row.fid == fid
}

/// The rows of function `fid` among `rows`, in the order of `rows`.
pub open spec fn rows_of(rows: Seq<InstructionTableEntry>, fid: u32) -> Seq<InstructionTableEntry> {
    rows.filter(belongs_to(fid))
}

/// Where every row belongs to the function, the function's rows are all of
/// them.
proof fn lemma_rows_of_all(rows: Seq<InstructionTableEntry>, fid: u32)
    requires
        forall|k: int| 0 <= k < rows.len() ==> (#[trigger] rows[k]).fid == fid,
    ensures
        rows_of(rows, fid) == rows,
    decreases rows.len(),
{
    reveal(Seq::filter);
    if rows.len() > 0 {
        lemma_rows_of_all(rows.drop_last(), fid);
        assert(rows.drop_last().push(rows.last()) == rows);
    }
}

/// Where no row belongs to the function, the function has no rows.
proof fn lemma_rows_of_none(rows: Seq<InstructionTableEntry>, fid: u32)
    requires
        forall|k: int| 0 <= k < rows.len() ==> (#[trigger] rows[k]).fid != fid,
    ensures
        rows_of(rows, fid) == Seq::<InstructionTableEntry>::empty(),
    decreases rows.len(),
{
    reveal(Seq::filter);
    if rows.len() > 0 {
        lemma_rows_of_none(rows.drop_last(), fid);
    }
}

/// Every row of the first `n` functions carries the stable index of one of
/// them.
pub proof fn lemma_table_rows_of_first(
    funcs: Seq<FuncInstance>,
    phantoms: Seq<FuncRef>,
    input_index: Option<u32>,
    indices: Seq<u32>,
    n: int,
)
    requires
        0 <= n <= indices.len(),
    ensures
        rows_of_first(table_rows(funcs, phantoms, input_index, indices, n), indices, n),
    decreases n,
{
    if n > 0 {
        lemma_table_rows_of_first(funcs, phantoms, input_index, indices, n - 1);
        let earlier = table_rows(funcs, phantoms, input_index, indices, n - 1);
        let rows = table_rows(funcs, phantoms, input_index, indices, n);
        assert forall|r: int| 0 <= r < rows.len() implies exists|j: int|
            0 <= j < n && indices[j] == (#[trigger] rows[r]).fid by {
            if r < earlier.len() {
                assert(rows[r] == earlier[r]);
                let j = choose|j: int| 0 <= j < n - 1 && indices[j] == earlier[r].fid;
                assert(0 <= j < n && indices[j] == rows[r].fid);
            } else {
                assert(indices[n - 1] == rows[r].fid);
            }
        }
    }
}

/// The table holds, for each function, exactly the rows of the operations
/// that are traced for it, in order: among the rows of the first `n`
/// functions, those of function `i` are the rows of its stub where it is
/// phantom, and the rows of its own body where it is not.
pub proof fn lemma_rows_of_function(
    funcs: Seq<FuncInstance>,
    phantoms: Seq<FuncRef>,
    input_index: Option<u32>,
    indices: Seq<u32>,
    n: int,
    i: int,
)
    requires
        0 <= i < n <= indices.len(),
        indices_distinct(indices),
    ensures
        rows_of(table_rows(funcs, phantoms, input_index, indices, n), indices[i]) == function_rows(
            indices[i],
            traced_code(funcs[i], phantoms.contains(funcs[i].handle), input_index),
            indices,
        ),
    decreases n,
{
    let fid = indices[i];
    let earlier = table_rows(funcs, phantoms, input_index, indices, n - 1);
    let last = function_rows(
        indices[n - 1],
        traced_code(funcs[n - 1], phantoms.contains(funcs[n - 1].handle), input_index),
        indices,
    );
    Seq::filter_distributes_over_add(earlier, last, belongs_to(fid));
    if i == n - 1 {
        lemma_table_rows_of_first(funcs, phantoms, input_index, indices, n - 1);
        assert forall|k: int| 0 <= k < earlier.len() implies (#[trigger] earlier[k]).fid != fid by {
            let j = choose|j: int| 0 <= j < n - 1 && indices[j] == earlier[k].fid;
            assert(indices[j] != indices[i]);
        }
        lemma_rows_of_none(earlier, fid);
        lemma_rows_of_all(last, fid);
        assert(Seq::<InstructionTableEntry>::empty() + last == last);
    } else {
        lemma_rows_of_function(funcs, phantoms, input_index, indices, n - 1, i);
        assert(indices[i] != indices[n - 1]);
        lemma_rows_of_none(last, fid);
        assert(rows_of(earlier, fid) + Seq::<InstructionTableEntry>::empty() == rows_of(
            earlier,
            fid,
        ));
    }
}

/// Every traced operation has its row: the table of the first `n` functions
/// holds the row of the operation at position `k` of function `i`.
pub proof fn lemma_row_present(
    funcs: Seq<FuncInstance>,
    phantoms: Seq<FuncRef>,
    input_index: Option<u32>,
    indices: Seq<u32>,
    n: int,
    i: int,
    k: int,
)
    requires
        0 <= i < n <= indices.len(),
        0 <= k < traced_code(funcs[i], phantoms.contains(funcs[i].handle), input_index).len(),
    ensures
        table_rows(funcs, phantoms, input_index, indices, n).contains(
            function_rows(
                indices[i],
                traced_code(funcs[i], phantoms.contains(funcs[i].handle), input_index),
                indices,
            )[k],
        ),
        has_function(table_rows(funcs, phantoms, input_index, indices, n), indices[i]),
        has_row(table_rows(funcs, phantoms, input_index, indices, n), indices[i], k as u32),
    decreases n,
{
    let rows = table_rows(funcs, phantoms, input_index, indices, n);
    let earlier = table_rows(funcs, phantoms, input_index, indices, n - 1);
    let wanted = function_rows(
        indices[i],
        traced_code(funcs[i], phantoms.contains(funcs[i].handle), input_index),
        indices,
    );
    if i == n - 1 {
        assert(rows[earlier.len() + k] == wanted[k]);
    } else {
        lemma_row_present(funcs, phantoms, input_index, indices, n - 1, i, k);
        let w = choose|w: int| 0 <= w < earlier.len() && earlier[w] == wanted[k];
        assert(rows[w] == wanted[k]);
    }
}

/// Tells whether the handle is among the phantom functions.
pub fn contains_handle(phantoms: &Vec<FuncRef>, f: FuncRef) -> (r: bool)
    ensures
        r == phantoms@.contains(f),
{
    let mut k: usize = 0;
    while k < phantoms.len()
        invariant
            k <= phantoms.len(),
            forall|j: int| 0 <= j < k ==> phantoms@[j] != f,
        decreases phantoms.len() - k,
    {
        if phantoms[k] == f {
            return true;
        }
        k += 1;
    }
    false
}

/// Adds the rows of one function to the table, which holds no row of that
/// function yet.
pub fn append_function_rows(
    table: &mut InstructionTable,
    fid: u32,
    code: &Vec<Instruction>,
    descs: &Vec<FuncDesc>,
)
    requires
        old(table).wf(),
        !has_function(old(table)@, fid),
        code.len() <= u32::MAX,
        forall|k: int|
            0 <= k < code.len() ==> call_target_below(#[trigger] code[k], descs.len() as int),
    ensures
        final(table).wf(),
        final(table)@ == old(table)@ + function_rows(fid, code@, stable_indices(descs@)),
{
    let ghost rows = function_rows(fid, code@, stable_indices(descs@));
    let mut k: usize = 0;
    while k < code.len()
        invariant
            k <= code.len(),
            code.len() <= u32::MAX,
            table.wf(),
            !has_function(old(table)@, fid),
            rows == function_rows(fid, code@, stable_indices(descs@)),
            table@ == old(table)@ + rows.subrange(0, k as int),
            forall|j: int|
                0 <= j < code.len() ==> call_target_below(#[trigger] code[j], descs.len() as int),
        decreases code.len() - k,
    {
        let opcode = translate_instruction(code[k], descs);
        proof {
            if has_row(table@, fid, k as u32) {
                let w = choose|w: int|
                    0 <= w < table@.len() && (#[trigger] table@[w]).fid == fid && table@[w].iid
                        == k as u32;
                if w < old(table)@.len() {
                    assert(old(table)@[w].fid == fid);
                } else {
                    assert(table@[w] == rows[w - old(table)@.len()]);
                }
            }
        }
        let ghost before = table@;
        table.push(fid, k as u32, opcode);
        assert(table@ == old(table)@ + rows.subrange(0, k as int + 1)) by {
            assert(rows.subrange(0, k as int + 1) == rows.subrange(0, k as int).push(
                rows[k as int],
            ));
        }
        k += 1;
    }
    assert(rows.subrange(0, k as int) == rows);
}

/// Builds the instruction table of a module instance: for every function in
/// ascending order of module index, the rows of its stub where its handle is
/// among `phantoms`, and the rows of its body otherwise. Fails where a
/// function is phantom and the module has no host input function.
pub fn build_instruction_table(
    funcs: &Vec<FuncInstance>,
    descs: &Vec<FuncDesc>,
    phantoms: &Vec<FuncRef>,
    input_index: Option<u32>,
) -> (r: Result<InstructionTable, ConfigError>)
    requires
        descs.len() == funcs.len(),
        forall|i: int| 0 <= i < funcs.len() ==> (#[trigger] funcs[i]).wf(funcs.len() as int),
        indices_distinct(stable_indices(descs@)),
        input_index matches Some(input) ==> (input as int) < funcs.len(),
    ensures
        match r {
            Ok(table) => {
                &&& input_index is Some || !any_phantom(funcs@, phantoms@, funcs.len() as int)
                &&& table.wf()
                &&& table@ == table_rows(
                    funcs@,
                    phantoms@,
                    input_index,
                    stable_indices(descs@),
                    funcs.len() as int,
                )
            },
            Err(e) => {
                &&& e == ConfigError::MissingHostInput
                &&& input_index is None
                &&& any_phantom(funcs@, phantoms@, funcs.len() as int)
            },
        },
{
    let ghost indices = stable_indices(descs@);
    let mut table = InstructionTable::new();
    let mut i: usize = 0;
    while i < funcs.len()
        invariant
            i <= funcs.len(),
            descs.len() == funcs.len(),
            indices == stable_indices(descs@),
            indices_distinct(indices),
            forall|j: int| 0 <= j < funcs.len() ==> (#[trigger] funcs[j]).wf(funcs.len() as int),
            input_index matches Some(input) ==> (input as int) < funcs.len(),
            input_index is Some || !any_phantom(funcs@, phantoms@, i as int),
            table.wf(),
            table@ == table_rows(funcs@, phantoms@, input_index, indices, i as int),
            rows_of_first(table@, indices, i as int),
        decreases funcs.len() - i,
    {
        let func = &funcs[i];
        let fid = descs[i].index_within_jtable;
        let ghost before = table@;
        proof {
            assert(funcs[i as int].wf(funcs.len() as int));
            if has_function(table@, fid) {
                let w = choose|w: int| 0 <= w < table@.len() && (#[trigger] table@[w]).fid == fid;
                let j = choose|j: int| 0 <= j < i && indices[j] == table@[w].fid;
                assert(indices[j] != indices[i as int]);
            }
        }
        if contains_handle(phantoms, func.handle) {
            let input = match input_index {
                Some(input) => input,
                None => {
                    return Err(ConfigError::MissingHostInput);
                },
            };
            let stub = build_phantom_function_instructions(&func.signature, input);
            proof {
                lemma_stub_shape(func.signature@, input);
            }
            append_function_rows(&mut table, fid, &stub, descs);
        } else {
            match &func.kind {
                FuncKind::Internal { body } => {
                    assert(func.code() == body@);
                    append_function_rows(&mut table, fid, body, descs);
                },
                FuncKind::Host { .. } => {
                    assert(table@ == before + function_rows(fid, func.code(), indices));
                },
            }
        }
        proof {
            let added = function_rows(
                fid,
                traced_code(
                    funcs[i as int],
                    phantoms@.contains(funcs[i as int].handle),
                    input_index,
                ),
                indices,
            );
            assert(table@ == before + added);
            assert forall|r: int| 0 <= r < table@.len() implies exists|j: int|
                0 <= j < i + 1 && indices[j] == (#[trigger] table@[r]).fid by {
                if r < before.len() {
                    assert(table@[r] == before[r]);
                    let j = choose|j: int| 0 <= j < i && indices[j] == before[r].fid;
                    assert(0 <= j < i + 1 && indices[j] == table@[r].fid);
                } else {
                    assert(table@[r] == added[r - before.len()]);
                    assert(indices[i as int] == table@[r].fid);
                }
            }
            if !(input_index is Some) {
                if any_phantom(funcs@, phantoms@, i as int + 1) {
                    let w = choose|w: int|
                        0 <= w < i + 1 && phantoms@.contains(#[trigger] funcs@[w].handle);
                    if w < i {
                        assert(any_phantom(funcs@, phantoms@, i as int));
                    }
                }
            }
        }
        i += 1;
    }
    Ok(table)
}

} // verus!
