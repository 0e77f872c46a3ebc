//! What the tracer reads of a decoded module and of its live instance.

use crate::types::{FuncRef, Signature, ValueType};
use vstd::prelude::*;

verus! {

/// How many values a return discards and whether it hands one back.
#[derive(Clone, Copy, Debug, PartialEq, Eq, Structural)]
pub struct DropKeep {
    pub drop: u32,
    pub keep: Option<ValueType>,
}

/// A decoded operation of a function body. A call names its target by the
/// target's index in the module.
#[derive(Clone, Copy, Debug, PartialEq, Eq, Structural)]
pub enum Instruction {
    Call(u32),
    CallIndirect(u32),
    Return(DropKeep),
    I32Const(i32),
    I32WrapI64,
    /// Any operation that names no function, by opcode number and immediate.
    Other { opcode: u16, immediate: u64 },
}

/// Whether a function is defined by the module or provided by the host.
#[derive(Debug, PartialEq, Eq)]
pub enum FuncKind {
    Internal { body: Vec<Instruction> },
    Host { host_func_index: usize },
}

/// A function of a module instance.
#[derive(Debug, PartialEq, Eq)]
pub struct FuncInstance {
    pub handle: FuncRef,
    pub signature: Signature,
    pub kind: FuncKind,
}

/// What an export is bound to.
#[derive(Clone, Copy, Debug, PartialEq, Eq, Structural)]
pub enum ExternVal {
    Func(FuncRef),
    Table,
    Memory,
    Global,
}

/// A named export of a module instance.
#[derive(Debug, PartialEq, Eq)]
pub struct Export {
    pub name: String,
    pub value: ExternVal,
}

/// The part of a decoded module that the tracer reads.
#[derive(Debug, PartialEq, Eq)]
pub struct Module {
    /// The index of the start function, if the module declares one.
    pub start: Option<u32>,
}

/// A live module instance: its functions by module index, and its exports.
#[derive(Debug, PartialEq, Eq)]
pub struct ModuleInstance {
    pub funcs: Vec<FuncInstance>,
    pub exports: Vec<Export>,
}

impl FuncInstance {
    /// The operations of the function's own body; none for a host function.
    pub open spec fn code(&self) -> Seq<Instruction> {
        match self.kind {
            FuncKind::Internal { body } => body@,
            FuncKind::Host { .. } => Seq::empty(),
        }
    }

    /// The signature and the body fit the table's 32-bit counters, and every
    /// call in the body names one of the `count` functions of the module.
    pub open spec fn wf(&self, count: int) -> bool {
        &&& self.signature.params.len() <= u32::MAX
        &&& self.code().len() <= u32::MAX
        &&& forall|k: int|
            0 <= k < self.code().len() ==> call_target_below(#[trigger] self.code()[k], count)
    }

    /// Decides [`FuncInstance::wf`].
    pub fn is_well_formed(&self, count: usize) -> (r: bool)
        ensures
            r == self.wf(count as int),
    {
        if self.signature.params.len() > u32::MAX as usize {
            return false;
        }
        match &self.kind {
            FuncKind::Host { .. } => true,
            FuncKind::Internal { body } => {
                if body.len() > u32::MAX as usize {
                    return false;
                }
                let mut k: usize = 0;
                while k < body.len()
                    invariant
                        k <= body.len(),
                        self.code() == body@,
                        forall|j: int|
                            0 <= j < k ==> call_target_below(#[trigger] body@[j], count as int),
                    decreases body.len() - k,
                {
                    match body[k] {
                        Instruction::Call(target) => {
                            if target as usize >= count {
                                assert(!call_target_below(self.code()[k as int], count as int));
                                return false;
                            }
                        },
                        _ => {},
                    }
                    k += 1;
                }
                true
            },
        }
    }
}

/// A call's target is one of the first `count` functions; other operations
/// have no target.
pub open spec fn call_target_below(op: Instruction, count: int) -> bool {
    op matches Instruction::Call(target) ==> (target as int) < count
}

/// The operations of the bodies of the first `n` functions, one body after
/// the other.
pub open spec fn all_code(funcs: Seq<FuncInstance>, n: int) -> Seq<Instruction>
    decreases n,
{
    if n <= 0 {
        Seq::empty()
    } else {
        all_code(funcs, n - 1) + funcs[n - 1].code()
    }
}

/// The operations without repetitions: each one where it occurs first.
pub open spec fn distinct(ops: Seq<Instruction>) -> Seq<Instruction>
    decreases ops.len(),
{
    if ops.len() == 0 {
        Seq::empty()
    } else {
        let earlier = distinct(ops.drop_last());
        if earlier.contains(ops.last()) {
            earlier
        } else {
            earlier.push(ops.last())
        }
    }
}

/// Tells whether the operation is among `ops`.
pub fn contains_instruction(ops: &Vec<Instruction>, op: Instruction) -> (r: bool)
    ensures
        r == ops@.contains(op),
{
    let mut k: usize = 0;
    while k < ops.len()
        invariant
            k <= ops.len(),
            forall|j: int| 0 <= j < k ==> ops@[j] != op,
        decreases ops.len() - k,
    {
        if ops[k] == op {
            return true;
        }
        k += 1;
    }
    false
}

impl ModuleInstance {
    /// The instance is what a validated module gives: fewer than 2^32 - 1
    /// functions, each of them well formed.
    pub open spec fn wf(&self) -> bool {
        &&& self.funcs.len() < u32::MAX
        &&& forall|i: int|
            0 <= i < self.funcs.len() ==> (#[trigger] self.funcs[i]).wf(self.funcs.len() as int)
    }

    /// Decides [`ModuleInstance::wf`].
    pub fn is_well_formed(&self) -> (r: bool)
        ensures
            r == self.wf(),
    {
        let count = self.funcs.len();
        if count >= u32::MAX as usize {
            return false;
        }
        let mut i: usize = 0;
        while i < count
            invariant
                i <= count,
                count == self.funcs.len(),
                forall|j: int| 0 <= j < i ==> (#[trigger] self.funcs[j]).wf(count as int),
            decreases count - i,
        {
            if !self.funcs[i].is_well_formed(count) {
                return false;
            }
            i += 1;
        }
        true
    }

    /// The different operations that the bodies of the module's functions
    /// use, each one where it occurs first.
    pub fn distinct_instructions(&self) -> (r: Vec<Instruction>)
        ensures
            r@ == distinct(all_code(self.funcs@, self.funcs.len() as int)),
    {
        let mut insts: Vec<Instruction> = Vec::new();
        let mut i: usize = 0;
        while i < self.funcs.len()
            invariant
                i <= self.funcs.len(),
                insts@ == distinct(all_code(self.funcs@, i as int)),
            decreases self.funcs.len() - i,
        {
            match &self.funcs[i].kind {
                FuncKind::Host { .. } => {
                    assert(all_code(self.funcs@, i as int + 1) == all_code(self.funcs@, i as int));
                },
                FuncKind::Internal { body } => {
                    let ghost before = all_code(self.funcs@, i as int);
                    let mut k: usize = 0;
                    assert(before + body@.subrange(0, 0) == before);
                    while k < body.len()
                        invariant
                            k <= body.len(),
                            insts@ == distinct(before + body@.subrange(0, k as int)),
                        decreases body.len() - k,
                    {
                        let op = body[k];
                        let ghost seen = before + body@.subrange(0, k as int);
                        let ghost next = before + body@.subrange(0, k as int + 1);
                        assert(next.drop_last() == seen);
                        assert(next.last() == op);
                        if !contains_instruction(&insts, op) {
                            insts.push(op);
                        }
                        k += 1;
                    }
                    assert(body@.subrange(0, k as int) == body@);
                    assert(self.funcs@[i as int].code() == body@);
                },
            }
            i += 1;
        }
        insts
    }
}

} // verus!
