use std::collections::HashMap;

use wasm_tracer::host::{
    ConfigError, ExternalHostCallSignature, FunctionType, HostFunctionDesc,
};
use wasm_tracer::itable::{InstructionTableEntry, Opcode};
use wasm_tracer::module::{
    DropKeep, Export, ExternVal, FuncInstance, FuncKind, Instruction, Module, ModuleInstance,
};
use wasm_tracer::tracer::{FuncDesc, Tracer};
use wasm_tracer::types::{FuncRef, Signature, ValueType};

fn host_table() -> HashMap<usize, HostFunctionDesc> {
    let mut table = HashMap::new();
    table.insert(
        0,
        HostFunctionDesc::Internal {
            name: "wasm_input".to_string(),
            op_index_in_plugin: 0,
            plugin: 0,
        },
    );
    table.insert(
        7,
        HostFunctionDesc::External {
            name: "log".to_string(),
            op: 3,
            sig: ExternalHostCallSignature::Argument,
        },
    );
    table
}

fn host_input(handle: u64) -> FuncInstance {
    FuncInstance {
        handle: FuncRef(handle),
        signature: Signature::new(vec![ValueType::I32], Some(ValueType::I64)),
        kind: FuncKind::Host { host_func_index: 0 },
    }
}

fn internal(handle: u64, signature: Signature, body: Vec<Instruction>) -> FuncInstance {
    FuncInstance { handle: FuncRef(handle), signature, kind: FuncKind::Internal { body } }
}

fn export(name: &str, value: ExternVal) -> Export {
    Export { name: name.to_string(), value }
}

fn ret(drop: u32, keep: Option<ValueType>) -> Instruction {
    Instruction::Return(DropKeep { drop, keep })
}

fn row(fid: u32, iid: u32, opcode: Opcode) -> InstructionTableEntry {
    InstructionTableEntry { fid, iid, opcode }
}

fn main_module() -> ModuleInstance {
    ModuleInstance {
        funcs: vec![
            host_input(100),
            internal(
                101,
                Signature::new(vec![], Some(ValueType::I64)),
                vec![Instruction::I32Const(1), Instruction::Call(0), ret(0, Some(ValueType::I64))],
            ),
        ],
        exports: vec![export("main", ExternVal::Func(FuncRef(101)))],
    }
}

fn getter_module() -> ModuleInstance {
    ModuleInstance {
        funcs: vec![
            host_input(200),
            internal(
                201,
                Signature::new(vec![ValueType::I32, ValueType::I32], Some(ValueType::I32)),
                vec![
                    Instruction::Other { opcode: 0x20, immediate: 1 },
                    Instruction::Other { opcode: 0x20, immediate: 2 },
                    Instruction::Other { opcode: 0x6a, immediate: 0 },
                    ret(2, Some(ValueType::I32)),
                ],
            ),
            internal(
                202,
                Signature::new(vec![], None),
                vec![Instruction::I32Const(5), Instruction::Call(1), ret(0, None)],
            ),
        ],
        exports: vec![
            export("get_random", ExternVal::Func(FuncRef(201))),
            export("get_memory", ExternVal::Memory),
            export("run", ExternVal::Func(FuncRef(202))),
        ],
    }
}

#[test]
fn main_calling_host_input_is_traced_with_rewritten_call() {
    let instance = main_module();
    assert!(instance.is_well_formed());
    let mut tracer = Tracer::new(host_table(), &vec![]);
    tracer.wasm_input_func_ref = Some(FuncRef(100));
    assert!(tracer.unregistered());
    assert_eq!(tracer.register_module_instance(&Module { start: None }, &instance), Ok(()));
    assert!(!tracer.unregistered());

    assert_eq!(tracer.imtable.len(), 0);
    let host_input_index = tracer.lookup_function(&FuncRef(100));
    let main_index = tracer.lookup_function(&FuncRef(101));
    assert_eq!(host_input_index, 1);
    assert_eq!(main_index, 2);
    assert_eq!(
        tracer.itable.entries(),
        &vec![
            row(2, 0, Opcode::I32Const(1)),
            row(2, 1, Opcode::Call { index: host_input_index }),
            row(2, 2, Opcode::Return(DropKeep { drop: 0, keep: Some(ValueType::I64) })),
        ]
    );
    assert!(tracer.phantom_functions_ref.is_empty());
    assert!(!tracer.is_phantom_function(&FuncRef(101)));
    assert_eq!(tracer.wasm_input_func_idx, Some(0));
}

#[test]
fn registration_records_kind_and_signature_of_every_function() {
    let instance = ModuleInstance {
        funcs: vec![
            host_input(1),
            FuncInstance {
                handle: FuncRef(2),
                signature: Signature::new(vec![ValueType::I64], None),
                kind: FuncKind::Host { host_func_index: 7 },
            },
            internal(3, Signature::new(vec![], None), vec![ret(0, None)]),
        ],
        exports: vec![],
    };
    let mut tracer = Tracer::new(host_table(), &vec![]);
    assert_eq!(tracer.register_module_instance(&Module { start: None }, &instance), Ok(()));
    assert_eq!(
        tracer.function_index_translation,
        vec![
            FuncDesc {
                index_within_jtable: 1,
                ftype: FunctionType::HostFunction {
                    plugin: 0,
                    function_index: 0,
                    function_name: "wasm_input".to_string(),
                    op_index_in_plugin: 0,
                },
                signature: Signature::new(vec![ValueType::I32], Some(ValueType::I64)),
            },
            FuncDesc {
                index_within_jtable: 2,
                ftype: FunctionType::HostFunctionExternal {
                    function_name: "log".to_string(),
                    op: 3,
                    sig: ExternalHostCallSignature::Argument,
                },
                signature: Signature::new(vec![ValueType::I64], None),
            },
            FuncDesc {
                index_within_jtable: 3,
                ftype: FunctionType::WasmFunction,
                signature: Signature::new(vec![], None),
            },
        ]
    );
    assert_eq!(tracer.function_index_allocator.peek(), 4);
    assert_eq!(tracer.wasm_input_func_idx, None);
}

fn five_functions() -> ModuleInstance {
    let mut funcs = Vec::new();
    for handle in 0..5u64 {
        funcs.push(internal(10 + handle, Signature::new(vec![], None), vec![ret(0, None)]));
    }
    ModuleInstance { funcs, exports: vec![] }
}

fn stable_indices_of(tracer: &Tracer) -> Vec<u32> {
    tracer.function_index_translation.iter().map(|desc| desc.index_within_jtable).collect()
}

#[test]
fn start_function_gets_index_zero_and_the_rest_one_to_n_minus_one() {
    let instance = five_functions();
    let mut tracer = Tracer::new(HashMap::new(), &vec![]);
    assert_eq!(tracer.register_module_instance(&Module { start: Some(2) }, &instance), Ok(()));
    assert_eq!(stable_indices_of(&tracer), vec![1, 2, 0, 3, 4]);
    assert_eq!(tracer.lookup_function(&FuncRef(12)), 0);
    assert_eq!(tracer.function_index_allocator.peek(), 5);
}

#[test]
fn without_start_function_indices_are_one_to_n() {
    let instance = five_functions();
    let mut tracer = Tracer::new(HashMap::new(), &vec![]);
    assert_eq!(tracer.register_module_instance(&Module { start: None }, &instance), Ok(()));
    assert_eq!(stable_indices_of(&tracer), vec![1, 2, 3, 4, 5]);
    assert_eq!(tracer.function_index_allocator.peek(), 6);
}

#[test]
fn start_function_first_or_last_or_out_of_range() {
    let instance = five_functions();
    let mut first = Tracer::new(HashMap::new(), &vec![]);
    assert_eq!(first.register_module_instance(&Module { start: Some(0) }, &instance), Ok(()));
    assert_eq!(stable_indices_of(&first), vec![0, 1, 2, 3, 4]);

    let mut last = Tracer::new(HashMap::new(), &vec![]);
    assert_eq!(last.register_module_instance(&Module { start: Some(4) }, &instance), Ok(()));
    assert_eq!(stable_indices_of(&last), vec![1, 2, 3, 4, 0]);

    let mut beyond = Tracer::new(HashMap::new(), &vec![]);
    assert_eq!(beyond.register_module_instance(&Module { start: Some(9) }, &instance), Ok(()));
    assert_eq!(stable_indices_of(&beyond), vec![1, 2, 3, 4, 5]);
}

#[test]
fn an_empty_module_registers_nothing() {
    let instance = ModuleInstance { funcs: vec![], exports: vec![] };
    let mut tracer = Tracer::new(HashMap::new(), &vec!["^get_.*".to_string()]);
    assert_eq!(tracer.register_module_instance(&Module { start: None }, &instance), Ok(()));
    assert_eq!(tracer.itable.len(), 0);
    assert!(tracer.function_index_translation.is_empty());
    assert_eq!(tracer.function_index_allocator.peek(), 1);
}

#[test]
fn phantom_export_is_traced_by_its_stub() {
    let instance = getter_module();
    let mut tracer = Tracer::new(host_table(), &vec!["^get_.*".to_string()]);
    tracer.wasm_input_func_ref = Some(FuncRef(200));
    assert_eq!(tracer.register_module_instance(&Module { start: None }, &instance), Ok(()));

    assert!(tracer.is_phantom_function(&FuncRef(201)));
    assert!(!tracer.is_phantom_function(&FuncRef(202)));
    assert!(!tracer.is_phantom_function(&FuncRef(200)));
    let input = tracer.lookup_function(&FuncRef(200));
    let getter = tracer.lookup_function(&FuncRef(201));
    let runner = tracer.lookup_function(&FuncRef(202));
    assert_eq!((input, getter, runner), (1, 2, 3));

    let getter_rows: Vec<InstructionTableEntry> =
        tracer.itable.entries().iter().filter(|r| r.fid == getter).cloned().collect();
    assert_eq!(
        getter_rows,
        vec![
            row(2, 0, Opcode::I32Const(0)),
            row(2, 1, Opcode::Call { index: input }),
            row(2, 2, Opcode::I32WrapI64),
            row(2, 3, Opcode::Return(DropKeep { drop: 2, keep: Some(ValueType::I32) })),
        ]
    );
    let runner_rows: Vec<InstructionTableEntry> =
        tracer.itable.entries().iter().filter(|r| r.fid == runner).cloned().collect();
    assert_eq!(
        runner_rows,
        vec![
            row(3, 0, Opcode::I32Const(5)),
            row(3, 1, Opcode::Call { index: getter }),
            row(3, 2, Opcode::Return(DropKeep { drop: 0, keep: None })),
        ]
    );
    assert_eq!(tracer.itable.len(), 7);
}

#[test]
fn a_function_marked_by_hand_is_phantom_too() {
    let instance = getter_module();
    let mut tracer = Tracer::new(host_table(), &vec![]);
    tracer.wasm_input_func_ref = Some(FuncRef(200));
    tracer.push_phantom_function(FuncRef(202));
    assert_eq!(tracer.register_module_instance(&Module { start: None }, &instance), Ok(()));
    assert_eq!(tracer.phantom_functions_ref, vec![FuncRef(202)]);
    assert_eq!(
        tracer.lookup_first_inst(&FuncRef(202)),
        row(3, 0, Opcode::Return(DropKeep { drop: 0, keep: None }))
    );
    assert_eq!(tracer.itable.len(), 5);
}

#[test]
fn a_phantom_host_function_gets_stub_rows() {
    let instance = ModuleInstance {
        funcs: vec![host_input(1)],
        exports: vec![export("input", ExternVal::Func(FuncRef(1)))],
    };
    let mut tracer = Tracer::new(host_table(), &vec!["^in".to_string()]);
    tracer.wasm_input_func_ref = Some(FuncRef(1));
    assert_eq!(tracer.register_module_instance(&Module { start: None }, &instance), Ok(()));
    assert_eq!(
        tracer.itable.entries(),
        &vec![
            row(1, 0, Opcode::I32Const(0)),
            row(1, 1, Opcode::Call { index: 1 }),
            row(1, 2, Opcode::Return(DropKeep { drop: 1, keep: Some(ValueType::I64) })),
        ]
    );
}

#[test]
fn a_host_function_without_description_is_rejected() {
    let instance = ModuleInstance {
        funcs: vec![
            host_input(1),
            FuncInstance {
                handle: FuncRef(2),
                signature: Signature::new(vec![], None),
                kind: FuncKind::Host { host_func_index: 5 },
            },
            FuncInstance {
                handle: FuncRef(3),
                signature: Signature::new(vec![], None),
                kind: FuncKind::Host { host_func_index: 6 },
            },
        ],
        exports: vec![],
    };
    let mut tracer = Tracer::new(host_table(), &vec!["(".to_string()]);
    let before = Tracer::new(host_table(), &vec!["(".to_string()]);
    assert_eq!(
        tracer.register_module_instance(&Module { start: None }, &instance),
        Err(ConfigError::MissingHostFunction { host_func_index: 5 })
    );
    assert_eq!(tracer, before);
}

#[test]
fn a_pattern_that_is_no_expression_is_rejected() {
    let instance = getter_module();
    let patterns = vec!["^get_.*".to_string(), "foo(bar".to_string(), "[".to_string()];
    let mut tracer = Tracer::new(host_table(), &patterns);
    let before = Tracer::new(host_table(), &patterns);
    assert_eq!(
        tracer.register_module_instance(&Module { start: None }, &instance),
        Err(ConfigError::InvalidPhantomPattern { index: 1 })
    );
    assert_eq!(tracer, before);
}

#[test]
fn a_phantom_function_without_host_input_is_rejected() {
    let instance = getter_module();
    let mut tracer = Tracer::new(host_table(), &vec!["^get_.*".to_string()]);
    let before = Tracer::new(host_table(), &vec!["^get_.*".to_string()]);
    assert_eq!(
        tracer.register_module_instance(&Module { start: None }, &instance),
        Err(ConfigError::MissingHostInput)
    );
    assert_eq!(tracer, before);
    assert_eq!(tracer.itable.len(), 0);
}

#[test]
fn a_pattern_that_matches_no_function_needs_no_host_input() {
    let instance = getter_module();
    let mut tracer = Tracer::new(host_table(), &vec!["^get_m.*".to_string()]);
    assert_eq!(tracer.register_module_instance(&Module { start: None }, &instance), Ok(()));
    assert!(tracer.phantom_functions_ref.is_empty());
    assert_eq!(tracer.itable.len(), 7);
}

#[test]
fn the_last_function_with_the_input_handle_is_the_host_input() {
    let instance = ModuleInstance {
        funcs: vec![host_input(9), host_input(9), host_input(8)],
        exports: vec![],
    };
    let mut tracer = Tracer::new(host_table(), &vec![]);
    tracer.wasm_input_func_ref = Some(FuncRef(9));
    assert_eq!(tracer.register_module_instance(&Module { start: None }, &instance), Ok(()));
    assert_eq!(tracer.wasm_input_func_idx, Some(1));
    assert_eq!(tracer.lookup_function(&FuncRef(9)), 1);
    assert_eq!(tracer.lookup_function(&FuncRef(8)), 3);
}

#[test]
fn rows_are_found_by_handle_and_position() {
    let instance = getter_module();
    let mut tracer = Tracer::new(host_table(), &vec![]);
    assert_eq!(tracer.register_module_instance(&Module { start: Some(2) }, &instance), Ok(()));
    assert_eq!(tracer.lookup_function(&FuncRef(202)), 0);
    assert_eq!(
        tracer.lookup_ientry(&FuncRef(201), 2),
        row(2, 2, Opcode::Other { opcode: 0x6a, immediate: 0 })
    );
    assert_eq!(tracer.lookup_ientry(&FuncRef(202), 1), row(0, 1, Opcode::Call { index: 2 }));
    assert_eq!(
        tracer.lookup_first_inst(&FuncRef(201)),
        row(2, 0, Opcode::Other { opcode: 0x20, immediate: 1 })
    );
    assert_eq!(tracer.lookup_first_inst(&FuncRef(202)), row(0, 0, Opcode::I32Const(5)));
}

#[test]
fn a_call_beyond_the_module_is_not_well_formed() {
    let instance = ModuleInstance {
        funcs: vec![internal(1, Signature::new(vec![], None), vec![Instruction::Call(1)])],
        exports: vec![],
    };
    assert!(!instance.is_well_formed());
    let mended = ModuleInstance {
        funcs: vec![internal(1, Signature::new(vec![], None), vec![Instruction::Call(0)])],
        exports: vec![],
    };
    assert!(mended.is_well_formed());
}

#[test]
fn statistics_list_each_operation_once_in_order_of_first_use() {
    let instance = ModuleInstance {
        funcs: vec![
            internal(
                1,
                Signature::new(vec![], None),
                vec![Instruction::I32Const(1), Instruction::I32Const(1), ret(0, None)],
            ),
            host_input(2),
            internal(
                3,
                Signature::new(vec![], None),
                vec![Instruction::Call(1), Instruction::I32Const(1), ret(0, None)],
            ),
        ],
        exports: vec![],
    };
    let tracer = Tracer::new(HashMap::new(), &vec![]);
    assert_eq!(
        tracer.statistics_instructions(&instance),
        vec![Instruction::I32Const(1), ret(0, None), Instruction::Call(1)]
    );
}

#[test]
fn host_slots_are_looked_up_by_number() {
    let tracer = Tracer::new(host_table(), &vec![]);
    assert_eq!(
        tracer.lookup_host_plugin(7),
        Some(&HostFunctionDesc::External {
            name: "log".to_string(),
            op: 3,
            sig: ExternalHostCallSignature::Argument,
        })
    );
    assert_eq!(tracer.lookup_host_plugin(1), None);
}

#[test]
fn errors_describe_themselves() {
    assert_eq!(
        ConfigError::MissingHostFunction { host_func_index: 1 }.description(),
        "a host function has no description"
    );
    assert_eq!(
        ConfigError::InvalidPhantomPattern { index: 0 }.description(),
        "a phantom pattern is not a regular expression"
    );
    assert_eq!(
        ConfigError::MissingHostInput.description(),
        "a phantom function needs the host input function"
    );
}

#[test]
fn a_handle_stands_for_the_first_function_that_has_it() {
    let instance = ModuleInstance {
        funcs: vec![
            internal(5, Signature::new(vec![], None), vec![ret(0, None)]),
            internal(6, Signature::new(vec![], None), vec![Instruction::Call(0), ret(0, None)]),
            internal(5, Signature::new(vec![], None), vec![Instruction::I32WrapI64]),
        ],
        exports: vec![],
    };
    let mut tracer = Tracer::new(HashMap::new(), &vec![]);
    assert_eq!(tracer.register_module_instance(&Module { start: Some(1) }, &instance), Ok(()));
    assert_eq!(tracer.lookup_function(&FuncRef(5)), 1);
    assert_eq!(tracer.lookup_function(&FuncRef(6)), 0);
    assert_eq!(tracer.function_lookup.len(), 2);
    assert_eq!(stable_indices_of(&tracer), vec![1, 0, 2]);
    assert_eq!(tracer.lookup_ientry(&FuncRef(6), 0), row(0, 0, Opcode::Call { index: 1 }));
    assert_eq!(
        tracer.lookup_first_inst(&FuncRef(5)),
        row(1, 0, Opcode::Return(DropKeep { drop: 0, keep: None }))
    );
    assert_eq!(tracer.itable.find(2, 0), Some(row(2, 0, Opcode::I32WrapI64)));
}
