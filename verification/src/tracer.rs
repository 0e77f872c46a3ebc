//! The tracer: it owns the trace tables, fills the static ones once from a
//! module instance, and keeps the call frames of a run.

use crate::brtable::{ElemEntry, ElemTable};
use crate::builder::{
    any_phantom, build_instruction_table, contains_handle, function_rows, indices_distinct,
    lemma_row_present, lemma_rows_of_function, rows_of, stable_indices, table_rows, traced_code,
};
use crate::etable::EventTable;
use crate::frames::{frames_ordered, step_frames, FrameStep};
pub use crate::host::FuncDesc;
use crate::host::{ConfigError, HostFunctionDesc};
use crate::imtable::{global_row, memory_image, GlobalInstance, IMTable, MemoryInstance};
use crate::itable::{
    has_function, has_row, is_earliest_row, is_row_at, InstructionTable, InstructionTableEntry,
};
use crate::jtable::JumpTable;
use crate::module::{all_code, distinct, FuncKind, Instruction, Module, ModuleInstance};
use crate::phantom::{
    all_patterns_valid, first_invalid_pattern, is_phantom, resolve_phantom_functions,
    stub_instructions,
};
use crate::translate::{
    all_described, first_undescribed, function_with_stable_index, is_translation,
    lemma_handle_indices_domain, lemma_handle_indices_first, lemma_resolved_input_in_range,
    lemma_stable_indices_dense, resolved_input, stable_index, start_among, translate_functions,
    FuncIndexAllocator,
};
use crate::types::FuncRef;
use std::collections::HashMap;
use vstd::prelude::*;

verus! {

/// The tracer of one module instance.
#[derive(Debug, PartialEq, Eq)]
pub struct Tracer {
    pub itable: InstructionTable,
    pub imtable: IMTable,
    pub etable: EventTable,
    pub jtable: JumpTable,
    pub elem_table: ElemTable,
    /// The type index recorded for each function handle.
    pub type_of_func_ref: HashMap<u64, u32>,
    /// The stable index that each registered function handle stands for.
    pub function_lookup: HashMap<u64, u32>,
    /// The frame markers: for each call that was entered and has not
    /// returned, the event counter at its entry, innermost last.
    pub last_jump_eid: Vec<u32>,
    pub function_index_allocator: FuncIndexAllocator,
    /// The description of each registered function, by module index.
    pub function_index_translation: Vec<FuncDesc>,
    /// The description of each host function slot.
    pub host_function_index_lookup: HashMap<usize, HostFunctionDesc>,
    /// The patterns that name the phantom functions.
    pub phantom_functions: Vec<String>,
    /// The handles of the phantom functions.
    pub phantom_functions_ref: Vec<FuncRef>,
    /// The module index of the host input function, once it is registered.
    pub wasm_input_func_idx: Option<u32>,
    /// The handle of the host input function, if the embedder resolved it.
    pub wasm_input_func_ref: Option<FuncRef>,
}

impl Tracer {
    /// What holds of a tracer at every point of its life. No two rows of the
    /// instruction table share function and position, and the event counter
    /// is the number of events. Every handle that is known stands for the
    /// stable index of a registered function; no two functions share a stable
    /// index, and the allocator will hand out none of them again. The frame
    /// markers are in the order of the run.
    pub open spec fn wf(&self) -> bool {
        &&& self.itable.wf()
        &&& self.etable.wf()
        &&& forall|key: u64| #[trigger]
            self.function_lookup@.contains_key(key) ==> has_stable_index(
                self.function_index_translation@,
                self.function_lookup@[key] as int,
            )
        &&& indices_distinct(stable_indices(self.function_index_translation@))
        &&& forall|i: int|
            0 <= i < self.function_index_translation@.len() ==> (
            #[trigger] self.function_index_translation@[i]).index_within_jtable
                < self.function_index_allocator.next_index()
        &&& self.wasm_input_func_idx matches Some(input) ==> (input as int)
            < self.function_index_translation@.len()
        &&& frames_ordered(self.last_jump_eid@, self.etable.latest_eid())
    }

    /// Nothing is registered yet: no function is known, the instruction table
    /// is empty and the allocator has handed out nothing.
    pub open spec fn is_unregistered(&self) -> bool {
        &&& self.itable@.len() == 0
        &&& self.function_lookup@.is_empty()
        &&& self.function_index_translation@.len() == 0
        &&& self.function_index_allocator.next_index() == 1
        &&& self.wasm_input_func_idx is None
    }

    /// The handle is phantom once `instance` is registered: it was marked
    /// phantom before, or a pattern matches an export bound to it.
    pub open spec fn phantom_after(&self, instance: ModuleInstance, f: FuncRef) -> bool {
        self.phantom_functions_ref@.contains(f) || is_phantom(
            self.phantom_functions@,
            instance.exports@,
            f,
        )
    }

    /// Some function of `instance` is phantom once it is registered.
    pub open spec fn needs_host_input(&self, instance: ModuleInstance) -> bool {
        exists|i: int|
            0 <= i < instance.funcs.len() && self.phantom_after(
                instance,
                #[trigger] instance.funcs[i].handle,
            )
    }

    /// The module index of the host input function in `instance`.
    pub open spec fn host_input_in(&self, instance: ModuleInstance) -> Option<u32> {
        resolved_input(instance.funcs@, self.wasm_input_func_ref, instance.funcs.len() as int)
    }

    /// Registration of `instance` fails with `e`. The conditions are tested
    /// in this order: a host function without description, a pattern that is
    /// no regular expression, a phantom function without host input function.
    pub open spec fn rejects(&self, instance: ModuleInstance, e: ConfigError) -> bool {
        match e {
            ConfigError::MissingHostFunction { host_func_index } => exists|i: int|
                #[trigger] first_undescribed(instance.funcs@, self.host_function_index_lookup@, i)
                    && instance.funcs[i].kind == (FuncKind::Host { host_func_index }),
            ConfigError::InvalidPhantomPattern { index } => {
                &&& all_described(instance.funcs@, self.host_function_index_lookup@)
                &&& first_invalid_pattern(self.phantom_functions@, index as int)
            },
            ConfigError::MissingHostInput => {
                &&& all_described(instance.funcs@, self.host_function_index_lookup@)
                &&& all_patterns_valid(self.phantom_functions@)
                &&& self.host_input_in(instance) is None
                &&& self.needs_host_input(instance)
            },
        }
    }

    /// Registration of `instance` succeeds.
    pub open spec fn accepts(&self, instance: ModuleInstance) -> bool {
        &&& all_described(instance.funcs@, self.host_function_index_lookup@)
        &&& all_patterns_valid(self.phantom_functions@)
        &&& self.host_input_in(instance) is Some || !self.needs_host_input(instance)
    }

    /// This tracer is `before` after `instance` of `module` was registered.
    pub open spec fn registered(
        &self,
        before: Tracer,
        module: Module,
        instance: ModuleInstance,
    ) -> bool {
        &&& is_translation(
            self.function_index_translation@,
            self.function_lookup@,
            self.function_index_allocator.next_index(),
            self.wasm_input_func_idx,
            module.start,
            instance.funcs@,
            before.host_function_index_lookup@,
            before.wasm_input_func_ref,
        )
        &&& before.phantom_functions_ref@.is_prefix_of(self.phantom_functions_ref@)
        &&& forall|f: FuncRef|
            self.phantom_functions_ref@.contains(f) <==> before.phantom_after(instance, f)
        &&& self.itable.wf()
        &&& self.itable@ == table_rows(
            instance.funcs@,
            self.phantom_functions_ref@,
            self.wasm_input_func_idx,
            stable_indices(self.function_index_translation@),
            instance.funcs.len() as int,
        )
        &&& *self == (Tracer {
            itable: self.itable,
            function_lookup: self.function_lookup,
            function_index_allocator: self.function_index_allocator,
            function_index_translation: self.function_index_translation,
            phantom_functions_ref: self.phantom_functions_ref,
            wasm_input_func_idx: self.wasm_input_func_idx,
            ..before
        })
    }

    /// Decides [`Tracer::is_unregistered`].
    pub fn unregistered(&self) -> (r: bool)
        ensures
            r == self.is_unregistered(),
    {
        self.itable.len() == 0 && self.function_lookup.is_empty()
            && self.function_index_translation.len() == 0 && self.function_index_allocator.peek()
            == 1 && self.wasm_input_func_idx.is_none()
    }

    /// The tracer before registration: every table is empty, no call is
    /// entered, and the host function descriptions and the phantom patterns
    /// are the given ones.
    pub fn new(
        host_plugin_lookup: HashMap<usize, HostFunctionDesc>,
        phantom_functions: &Vec<String>,
    ) -> (r: Tracer)
        ensures
            r.wf(),
            r.is_unregistered(),
            r.imtable@.len() == 0,
            r.etable@.len() == 0,
            r.etable.latest_eid() == 0,
            r.jtable@.len() == 0,
            r.elem_table@.len() == 0,
            r.type_of_func_ref@.is_empty(),
            r.last_jump_eid@.len() == 0,
            r.host_function_index_lookup == host_plugin_lookup,
            r.phantom_functions@ == phantom_functions@,
            r.phantom_functions_ref@.len() == 0,
            r.wasm_input_func_ref is None,
    {
        let mut patterns: Vec<String> = Vec::new();
        let mut k: usize = 0;
        while k < phantom_functions.len()
            invariant
                k <= phantom_functions.len(),
                patterns@ == phantom_functions@.subrange(0, k as int),
            decreases phantom_functions.len() - k,
        {
            patterns.push(phantom_functions[k].clone());
            k += 1;
        }
        assert(patterns@ == phantom_functions@);
        Tracer {
            itable: InstructionTable::new(),
            imtable: IMTable::new(),
            etable: EventTable::new(),
            jtable: JumpTable::new(),
            elem_table: ElemTable::new(),
            type_of_func_ref: HashMap::new(),
            function_lookup: HashMap::new(),
            last_jump_eid: Vec::new(),
            function_index_allocator: FuncIndexAllocator::new(),
            function_index_translation: Vec::new(),
            host_function_index_lookup: host_plugin_lookup,
            phantom_functions: patterns,
            phantom_functions_ref: Vec::new(),
            wasm_input_func_idx: None,
            wasm_input_func_ref: None,
        }
    }

    /// Records that a call is entered: the event counter becomes the
    /// innermost frame marker.
    pub fn push_frame(&mut self)
        ensures
            final(self).last_jump_eid@ == old(self).last_jump_eid@.push(
                old(self).etable.latest_eid(),
            ),
            step_frames(
                old(self).last_jump_eid@,
                FrameStep::Enter { eid: old(self).etable.latest_eid() },
            ) == Some(final(self).last_jump_eid@),
            *final(self) == (Tracer { last_jump_eid: final(self).last_jump_eid, ..*old(self) }),
            old(self).wf() ==> final(self).wf(),
    {
        self.last_jump_eid.push(self.etable.get_latest_eid());
    }

    /// Records that the innermost call returns: its frame marker is removed.
    /// A call must have been entered and not have returned yet.
    pub fn pop_frame(&mut self)
        requires
            old(self).last_jump_eid@.len() > 0,
        ensures
            final(self).last_jump_eid@ == old(self).last_jump_eid@.drop_last(),
            step_frames(old(self).last_jump_eid@, FrameStep::Leave) == Some(
                final(self).last_jump_eid@,
            ),
            *final(self) == (Tracer { last_jump_eid: final(self).last_jump_eid, ..*old(self) }),
            old(self).wf() ==> final(self).wf(),
    {
        self.last_jump_eid.pop().unwrap();
    }

    /// The innermost frame marker: the event counter at the entry of the
    /// innermost call. A call must have been entered and not have returned
    /// yet.
    pub fn last_jump_eid(&self) -> (r: u32)
        requires
            self.last_jump_eid@.len() > 0,
        ensures
            r == self.last_jump_eid@.last(),
    {
        self.last_jump_eid[self.last_jump_eid.len() - 1]
    }

    /// The number of calls that were entered and have not returned.
    pub fn frame_depth(&self) -> (r: usize)
        ensures
            r == self.last_jump_eid@.len(),
    {
        self.last_jump_eid.len()
    }

    /// The event counter: the number of the latest event.
    pub fn eid(&self) -> (r: u32)
        ensures
            r == self.etable.latest_eid(),
    {
        self.etable.get_latest_eid()
    }

    /// The description of a host function slot, if the slot has one.
    pub fn lookup_host_plugin(&self, function_index: usize) -> (r: Option<&HostFunctionDesc>)
        ensures
            r == if self.host_function_index_lookup@.contains_key(function_index) {
                Some(&self.host_function_index_lookup@[function_index])
            } else {
                None
            },
    {
        self.host_function_index_lookup.get(&function_index)
    }

    /// Adds the image of a linear memory to the memory and global image.
    pub fn push_init_memory(&mut self, memref: &MemoryInstance)
        requires
            memref.wf(),
        ensures
            final(self).imtable@ == old(self).imtable@ + memory_image(*memref),
            *final(self) == (Tracer { imtable: final(self).imtable, ..*old(self) }),
            old(self).wf() ==> final(self).wf(),
    {
        self.imtable.snapshot_memory(memref);
    }

    /// Adds the row of a global variable to the memory and global image.
    pub fn push_global(&mut self, globalidx: u32, globalref: &GlobalInstance)
        ensures
            final(self).imtable@ == old(self).imtable@.push(global_row(globalidx, *globalref)),
            *final(self) == (Tracer { imtable: final(self).imtable, ..*old(self) }),
            old(self).wf() ==> final(self).wf(),
    {
        self.imtable.snapshot_global(globalidx, globalref);
    }

    /// Records in the indirect-call table that slot `offset` of table
    /// `table_idx` is bound to function `func_idx` of type `type_idx`.
    pub fn push_elem(&mut self, table_idx: u32, offset: u32, func_idx: u32, type_idx: u32)
        ensures
            final(self).elem_table@ == old(self).elem_table@.push(
                ElemEntry { table_idx, type_idx, offset, func_idx },
            ),
            *final(self) == (Tracer { elem_table: final(self).elem_table, ..*old(self) }),
            old(self).wf() ==> final(self).wf(),
    {
        self.elem_table.insert(ElemEntry { table_idx, type_idx, offset, func_idx });
    }

    /// Records the type index of a function handle. The index that was
    /// recorded first for a handle stays.
    pub fn push_type_of_func_ref(&mut self, func: FuncRef, type_idx: u32)
        ensures
            final(self).type_of_func_ref@ == if old(self).type_of_func_ref@.contains_key(func.0) {
                old(self).type_of_func_ref@
            } else {
                old(self).type_of_func_ref@.insert(func.0, type_idx)
            },
            *final(self) == (Tracer {
                type_of_func_ref: final(self).type_of_func_ref,
                ..*old(self)
            }),
            old(self).wf() ==> final(self).wf(),
    {
        if !self.type_of_func_ref.contains_key(&func.0) {
            self.type_of_func_ref.insert(func.0, type_idx);
        }
    }

    /// The type index that was recorded first for the handle. One must have
    /// been recorded.
    pub fn lookup_type_of_func_ref(&self, func_ref: &FuncRef) -> (r: u32)
        requires
            self.type_of_func_ref@.contains_key(func_ref.0),
        ensures
            r == self.type_of_func_ref@[func_ref.0],
    {
        *self.type_of_func_ref.get(&func_ref.0).unwrap()
    }

    /// The stable index of a registered function: that of the first function
    /// of the module with this handle.
    pub fn lookup_function(&self, function: &FuncRef) -> (r: u32)
        requires
            self.function_lookup@.contains_key(function.0),
        ensures
            r == self.function_lookup@[function.0],
    {
        *self.function_lookup.get(&function.0).unwrap()
    }

    /// The row of the operation at position `pos` of a registered function.
    /// The instruction table must hold that row.
    pub fn lookup_ientry(&self, function: &FuncRef, pos: u32) -> (r: InstructionTableEntry)
        requires
            self.function_lookup@.contains_key(function.0),
            has_row(self.itable@, self.function_lookup@[function.0], pos),
        ensures
            is_row_at(self.itable@, self.function_lookup@[function.0], pos, r),
    {
        let function_idx = self.lookup_function(function);
        self.itable.find(function_idx, pos).unwrap()
    }

    /// The row of a registered function with the least position. The
    /// instruction table must hold a row of that function.
    pub fn lookup_first_inst(&self, function: &FuncRef) -> (r: InstructionTableEntry)
        requires
            self.function_lookup@.contains_key(function.0),
            has_function(self.itable@, self.function_lookup@[function.0]),
        ensures
            is_earliest_row(self.itable@, self.function_lookup@[function.0], r),
    {
        let function_idx = self.lookup_function(function);
        self.itable.first_of(function_idx).unwrap()
    }

    /// Marks a function as phantom.
    pub fn push_phantom_function(&mut self, function: FuncRef)
        ensures
            final(self).phantom_functions_ref@ == old(self).phantom_functions_ref@.push(function),
            *final(self) == (Tracer {
                phantom_functions_ref: final(self).phantom_functions_ref,
                ..*old(self)
            }),
            old(self).wf() ==> final(self).wf(),
    {
        self.phantom_functions_ref.push(function);
    }

    /// Tells whether a function is marked as phantom.
    pub fn is_phantom_function(&self, func: &FuncRef) -> (r: bool)
        ensures
            r == self.phantom_functions_ref@.contains(*func),
    {
        contains_handle(&self.phantom_functions_ref, *func)
    }

    /// The different operations that the functions of a module instance use,
    /// each one where it occurs first, for a statistic of the operations.
    pub fn statistics_instructions(&self, module_instance: &ModuleInstance) -> (r: Vec<Instruction>)
        ensures
            r@ == distinct(all_code(module_instance.funcs@, module_instance.funcs.len() as int)),
    {
        module_instance.distinct_instructions()
    }

    /// Registers a module instance: gives every function its stable index and
    /// its kind, finds the phantom functions among the exports, and builds
    /// the instruction table. Where registration fails the tracer is as it
    /// was.
    pub fn register_module_instance(
        &mut self,
        module: &Module,
        module_instance: &ModuleInstance,
    ) -> (r: Result<(), ConfigError>)
        requires
            old(self).is_unregistered(),
            module_instance.wf(),
        ensures
            match r {
                Ok(_) => {
                    &&& old(self).accepts(*module_instance)
                    &&& final(self).registered(*old(self), *module, *module_instance)
                    &&& old(self).wf() ==> final(self).wf()
                },
                Err(e) => old(self).rejects(*module_instance, e) && *final(self) == *old(self),
            },
    {
        let functions = match translate_functions(
            module.start,
            &module_instance.funcs,
            &self.host_function_index_lookup,
            self.wasm_input_func_ref,
        ) {
            Ok(functions) => functions,
            Err(e) => {
                return Err(e);
            },
        };
        let found = match resolve_phantom_functions(
            &self.phantom_functions,
            &module_instance.exports,
        ) {
            Ok(found) => found,
            Err(e) => {
                return Err(e);
            },
        };
        let mut phantoms: Vec<FuncRef> = Vec::new();
        let mut k: usize = 0;
        while k < self.phantom_functions_ref.len()
            invariant
                *self == *old(self),
                k <= self.phantom_functions_ref.len(),
                phantoms@ == self.phantom_functions_ref@.subrange(0, k as int),
            decreases self.phantom_functions_ref.len() - k,
        {
            phantoms.push(self.phantom_functions_ref[k]);
            k += 1;
        }
        assert(phantoms@ == self.phantom_functions_ref@);
        let mut k: usize = 0;
        while k < found.len()
            invariant
                *self == *old(self),
                k <= found.len(),
                phantoms@ == self.phantom_functions_ref@ + found@.subrange(0, k as int),
            decreases found.len() - k,
        {
            phantoms.push(found[k]);
            assert(found@.subrange(0, k as int + 1) == found@.subrange(0, k as int).push(
                found@[k as int],
            ));
            k += 1;
        }
        assert(found@.subrange(0, k as int) == found@);
        proof {
            let count = module_instance.funcs.len() as int;
            lemma_stable_indices_dense(module.start, count);
            lemma_handle_indices_domain(module_instance.funcs@, module.start, count);
            assert forall|key: u64| #[trigger]
                functions.lookup@.contains_key(key) implies has_stable_index(
                functions.descs@,
                functions.lookup@[key] as int,
            ) by {
                let i = choose|i: int|
                    0 <= i < count && (#[trigger] module_instance.funcs@[i]).handle.0 == key
                        && functions.lookup@[key] == stable_index(module.start, i) as u32;
                assert(functions.descs@[i].index_within_jtable == stable_index(module.start, i));
            }
            lemma_resolved_input_in_range(
                module_instance.funcs@,
                self.wasm_input_func_ref,
                count,
            );
            let indices = stable_indices(functions.descs@);
            assert forall|i: int, j: int| 0 <= i < j < indices.len() implies indices[i]
                != indices[j] by {
                assert(functions.descs@[i].index_within_jtable == crate::translate::stable_index(
                    module.start,
                    i,
                ));
                assert(functions.descs@[j].index_within_jtable == crate::translate::stable_index(
                    module.start,
                    j,
                ));
            }
            assert forall|f: FuncRef| phantoms@.contains(f) <==> self.phantom_after(
                *module_instance,
                f,
            ) by {
                let old_refs = self.phantom_functions_ref@;
                if phantoms@.contains(f) {
                    let w = choose|w: int| 0 <= w < phantoms@.len() && phantoms@[w] == f;
                    if w < old_refs.len() {
                        assert(old_refs[w] == f);
                    } else {
                        assert(found@[w - old_refs.len()] == f);
                    }
                }
                if old_refs.contains(f) {
                    let w = choose|w: int| 0 <= w < old_refs.len() && old_refs[w] == f;
                    assert(phantoms@[w] == f);
                }
                if found@.contains(f) {
                    let w = choose|w: int| 0 <= w < found@.len() && found@[w] == f;
                    assert(phantoms@[old_refs.len() + w] == f);
                }
            }
            assert(any_phantom(module_instance.funcs@, phantoms@, count)
                <==> self.needs_host_input(*module_instance)) by {
                if any_phantom(module_instance.funcs@, phantoms@, count) {
                    let w = choose|w: int|
                        0 <= w < count && phantoms@.contains(
                            #[trigger] module_instance.funcs@[w].handle,
                        );
                    assert(self.phantom_after(*module_instance, module_instance.funcs[w].handle));
                }
                if self.needs_host_input(*module_instance) {
                    let w = choose|w: int|
                        0 <= w < module_instance.funcs.len() && self.phantom_after(
                            *module_instance,
                            #[trigger] module_instance.funcs[w].handle,
                        );
                    assert(phantoms@.contains(module_instance.funcs@[w].handle));
                }
            }
        }
        let itable = match build_instruction_table(
            &module_instance.funcs,
            &functions.descs,
            &phantoms,
            functions.input_index,
        ) {
            Ok(itable) => itable,
            Err(e) => {
                return Err(e);
            },
        };
        self.itable = itable;
        self.function_lookup = functions.lookup;
        self.function_index_allocator = functions.allocator;
        self.function_index_translation = functions.descs;
        self.phantom_functions_ref = phantoms;
        self.wasm_input_func_idx = functions.input_index;
        Ok(())
    }
}

/// A registered function is found by its handle: where function `i` is the
/// first of the module with its handle, looking the handle up gives the
/// stable index of function `i`.
pub proof fn lemma_registered_function_found(
    after: Tracer,
    before: Tracer,
    module: Module,
    instance: ModuleInstance,
    i: int,
)
    requires
        instance.wf(),
        after.registered(before, module, instance),
        0 <= i < instance.funcs.len(),
        forall|j: int|
            0 <= j < i ==> (#[trigger] instance.funcs[j]).handle != instance.funcs[i].handle,
    ensures
        after.function_lookup@.contains_key(instance.funcs[i].handle.0),
        after.function_lookup@[instance.funcs[i].handle.0]
            == after.function_index_translation[i].index_within_jtable,
        after.function_index_translation[i].index_within_jtable == stable_index(module.start, i),
{
    lemma_handle_indices_first(
        instance.funcs@,
        module.start,
        instance.funcs.len() as int,
        i,
    );
    assert(after.function_index_translation@[i].index_within_jtable == stable_index(
        module.start,
        i,
    ));
}

/// A phantom function is traced by its stub alone. After registration the
/// rows of a function that is phantom are the rows of the stub for its
/// signature, position by position, and none comes from its own body; so it
/// has as many rows as the stub has operations.
pub proof fn lemma_phantom_function_rows(
    after: Tracer,
    before: Tracer,
    module: Module,
    instance: ModuleInstance,
    i: int,
)
    requires
        instance.wf(),
        before.accepts(instance),
        after.registered(before, module, instance),
        0 <= i < instance.funcs.len(),
        before.phantom_after(instance, instance.funcs[i].handle),
    ensures
        after.wasm_input_func_idx is Some,
        rows_of(after.itable@, after.function_index_translation[i].index_within_jtable)
            == function_rows(
            after.function_index_translation[i].index_within_jtable,
            stub_instructions(instance.funcs[i].signature@, after.wasm_input_func_idx->0),
            stable_indices(after.function_index_translation@),
        ),
        rows_of(after.itable@, after.function_index_translation[i].index_within_jtable).len()
            == stub_instructions(instance.funcs[i].signature@, after.wasm_input_func_idx->0).len(),
{
    let count = instance.funcs.len() as int;
    let indices = stable_indices(after.function_index_translation@);
    assert(before.needs_host_input(instance));
    lemma_indices_distinct(after, before, module, instance);
    lemma_rows_of_function(
        instance.funcs@,
        after.phantom_functions_ref@,
        after.wasm_input_func_idx,
        indices,
        count,
        i,
    );
}

/// A function that is not phantom is traced by its own body. After
/// registration its rows are the rows of its body, position by position; a
/// host function has none. Every call in them names the stable index of its
/// target.
pub proof fn lemma_traced_function_rows(
    after: Tracer,
    before: Tracer,
    module: Module,
    instance: ModuleInstance,
    i: int,
)
    requires
        instance.wf(),
        after.registered(before, module, instance),
        0 <= i < instance.funcs.len(),
        !before.phantom_after(instance, instance.funcs[i].handle),
    ensures
        rows_of(after.itable@, after.function_index_translation[i].index_within_jtable)
            == function_rows(
            after.function_index_translation[i].index_within_jtable,
            instance.funcs[i].code(),
            stable_indices(after.function_index_translation@),
        ),
{
    let count = instance.funcs.len() as int;
    let indices = stable_indices(after.function_index_translation@);
    lemma_indices_distinct(after, before, module, instance);
    lemma_rows_of_function(
        instance.funcs@,
        after.phantom_functions_ref@,
        after.wasm_input_func_idx,
        indices,
        count,
        i,
    );
}

/// Some function has the stable index `v`.
pub open spec fn has_stable_index(descs: Seq<FuncDesc>, v: int) -> bool {
    exists|i: int| 0 <= i < descs.len() && (#[trigger] descs[i]).index_within_jtable == v
}

/// Registration gives out a dense set of stable indices. After registration
/// every function of the module has one description, and no two share a
/// stable index. Where the module's start function is one of its `n`
/// functions, it alone has index 0 and the others have exactly the indices 1
/// to `n - 1`; where the module has none, the functions have exactly the
/// indices 1 to `n`.
pub proof fn lemma_registered_indices_dense(
    after: Tracer,
    before: Tracer,
    module: Module,
    instance: ModuleInstance,
)
    requires
        instance.wf(),
        after.registered(before, module, instance),
    ensures
        after.function_index_translation@.len() == instance.funcs.len(),
        indices_distinct(stable_indices(after.function_index_translation@)),
        forall|i: int|
            0 <= i < instance.funcs.len() ==> ((
            #[trigger] after.function_index_translation[i]).index_within_jtable == 0
                <==> module.start == Some(i as u32)),
        start_among(module.start, instance.funcs.len() as int) ==> {
            &&& forall|i: int|
                0 <= i < instance.funcs.len() ==> (
                #[trigger] after.function_index_translation[i]).index_within_jtable
                    < instance.funcs.len()
            &&& forall|v: int|
                0 <= v < instance.funcs.len() ==> #[trigger] has_stable_index(
                    after.function_index_translation@,
                    v,
                )
        },
        !start_among(module.start, instance.funcs.len() as int) ==> {
            &&& forall|i: int|
                0 <= i < instance.funcs.len() ==> 1 <= (
                #[trigger] after.function_index_translation[i]).index_within_jtable
                    <= instance.funcs.len()
            &&& forall|v: int|
                1 <= v <= instance.funcs.len() ==> #[trigger] has_stable_index(
                    after.function_index_translation@,
                    v,
                )
        },
{
    let count = instance.funcs.len() as int;
    let descs = after.function_index_translation@;
    lemma_indices_distinct(after, before, module, instance);
    lemma_stable_indices_dense(module.start, count);
    assert forall|i: int| 0 <= i < count implies (#[trigger] descs[i]).index_within_jtable
        == stable_index(module.start, i) by {}
    assert forall|v: int|
        (if start_among(module.start, count) {
            0 <= v < count
        } else {
            1 <= v <= count
        }) implies #[trigger] has_stable_index(descs, v) by {
        let i = function_with_stable_index(module.start, count, v);
        assert(0 <= i < count && stable_index(module.start, i) == v);
        assert(descs[i].index_within_jtable == v);
    }
}

/// After registration every traced operation is found. The instruction
/// table holds one row at position `k` of function `i`, which is the row of
/// the `k`-th operation that is traced for the function.
pub proof fn lemma_registered_row_found(
    after: Tracer,
    before: Tracer,
    module: Module,
    instance: ModuleInstance,
    i: int,
    k: int,
)
    requires
        instance.wf(),
        after.registered(before, module, instance),
        0 <= i < instance.funcs.len(),
        0 <= k < traced_code(
            instance.funcs[i],
            after.phantom_functions_ref@.contains(instance.funcs[i].handle),
            after.wasm_input_func_idx,
        ).len(),
    ensures
        has_function(after.itable@, after.function_index_translation[i].index_within_jtable),
        has_row(after.itable@, after.function_index_translation[i].index_within_jtable, k as u32),
        forall|row: InstructionTableEntry|
            #[trigger] is_row_at(
                after.itable@,
                after.function_index_translation[i].index_within_jtable,
                k as u32,
                row,
            ) ==> row == function_rows(
                after.function_index_translation[i].index_within_jtable,
                traced_code(
                    instance.funcs[i],
                    after.phantom_functions_ref@.contains(instance.funcs[i].handle),
                    after.wasm_input_func_idx,
                ),
                stable_indices(after.function_index_translation@),
            )[k],
{
    let count = instance.funcs.len() as int;
    let indices = stable_indices(after.function_index_translation@);
    let fid = after.function_index_translation[i].index_within_jtable;
    let rows = after.itable@;
    let wanted = function_rows(
        fid,
        traced_code(
            instance.funcs[i],
            after.phantom_functions_ref@.contains(instance.funcs[i].handle),
            after.wasm_input_func_idx,
        ),
        indices,
    );
    lemma_row_present(
        instance.funcs@,
        after.phantom_functions_ref@,
        after.wasm_input_func_idx,
        indices,
        count,
        i,
        k,
    );
    let w = choose|w: int| 0 <= w < rows.len() && rows[w] == wanted[k];
    assert forall|row: InstructionTableEntry| #[trigger]
        is_row_at(rows, fid, k as u32, row) implies row == wanted[k] by {
        let v = choose|v: int|
            0 <= v < rows.len() && #[trigger] rows[v] == row && row.fid == fid && row.iid
                == k as u32;
        if v != w {
            if v < w {
                assert(!(rows[v].fid == rows[w].fid && rows[v].iid == rows[w].iid));
            } else {
                assert(!(rows[w].fid == rows[v].fid && rows[w].iid == rows[v].iid));
            }
        }
    }
}

/// After registration no two functions share a stable index.
pub proof fn lemma_indices_distinct(
    after: Tracer,
    before: Tracer,
    module: Module,
    instance: ModuleInstance,
)
    requires
        instance.wf(),
        after.registered(before, module, instance),
    ensures
        indices_distinct(stable_indices(after.function_index_translation@)),
{
    let count = instance.funcs.len() as int;
    let indices = stable_indices(after.function_index_translation@);
    lemma_stable_indices_dense(module.start, count);
    assert forall|i: int, j: int| 0 <= i < j < indices.len() implies indices[i] != indices[j] by {
        assert(after.function_index_translation@[i].index_within_jtable == stable_index(
            module.start,
            i,
        ));
        assert(after.function_index_translation@[j].index_within_jtable == stable_index(
            module.start,
            j,
        ));
    }
}

} // verus!
