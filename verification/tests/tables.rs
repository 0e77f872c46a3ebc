use std::collections::HashMap;

use wasm_tracer::brtable::{ElemEntry, ElemTable};
use wasm_tracer::etable::{EventTable, EventTableEntry};
use wasm_tracer::imtable::{
    GlobalInstance, IMTable, IMTableEntry, MemoryInstance, RuntimeValue,
};
use wasm_tracer::itable::{InstructionTable, InstructionTableEntry, Opcode};
use wasm_tracer::jtable::{JumpTable, JumpTableEntry};
use wasm_tracer::tracer::Tracer;
use wasm_tracer::translate::FuncIndexAllocator;
use wasm_tracer::types::{FuncRef, Signature, ValueType};

fn one_page() -> Vec<u8> {
    let mut data = vec![0u8; 65536];
    data[..8].copy_from_slice(&[0x01, 0x23, 0x45, 0x67, 0x89, 0xab, 0xcd, 0xef]);
    data[8] = 0xff;
    data[65528..].copy_from_slice(&[0xff; 8]);
    data
}

fn word(address: u32, value: u64) -> IMTableEntry {
    IMTableEntry {
        is_global: false,
        is_mutable: false,
        start_offset: address,
        end_offset: address,
        vtype: ValueType::I64,
        value,
    }
}

#[test]
fn memory_image_has_a_row_per_word_and_a_closing_row() {
    let memory = MemoryInstance { initial: 1, maximum: Some(2), data: one_page() };
    assert!(memory.is_well_formed());
    let mut tracer = Tracer::new(HashMap::new(), &vec![]);
    tracer.push_init_memory(&memory);
    let rows = tracer.imtable.entries();
    assert_eq!(rows.len(), 8192 + 1);
    for (address, row) in rows.iter().take(8192).enumerate() {
        assert_eq!(row.start_offset, address as u32);
        assert_eq!(row.end_offset, address as u32);
        assert!(!row.is_global);
    }
    assert_eq!(rows[0], word(0, 0xefcd_ab89_6745_2301));
    assert_eq!(rows[1], word(1, 0xff));
    assert_eq!(rows[2], word(2, 0));
    assert_eq!(rows[8191], word(8191, u64::MAX));
    assert_eq!(
        rows[8192],
        IMTableEntry {
            is_global: false,
            is_mutable: true,
            start_offset: 8192,
            end_offset: 2 * 8192 - 1,
            vtype: ValueType::I64,
            value: 0,
        }
    );
}

#[test]
fn memory_without_maximum_is_bounded_by_the_largest_address() {
    let memory = MemoryInstance { initial: 0, maximum: None, data: vec![] };
    assert!(memory.is_well_formed());
    let mut image = IMTable::new();
    image.snapshot_memory(&memory);
    assert_eq!(
        image.entries(),
        &vec![IMTableEntry {
            is_global: false,
            is_mutable: true,
            start_offset: 0,
            end_offset: u32::MAX,
            vtype: ValueType::I64,
            value: 0,
        }]
    );
}

#[test]
fn two_pages_give_twice_the_rows() {
    let memory = MemoryInstance { initial: 2, maximum: Some(65536), data: vec![7u8; 2 * 65536] };
    assert!(memory.is_well_formed());
    let mut image = IMTable::new();
    image.snapshot_memory(&memory);
    assert_eq!(image.len(), 2 * 8192 + 1);
    assert_eq!(image.entries()[16383], word(16383, 0x0707_0707_0707_0707));
    assert_eq!(image.entries()[16384].start_offset, 16384);
    assert_eq!(image.entries()[16384].end_offset, 65536 * 8192 - 1);
}

#[test]
fn a_word_is_read_least_significant_byte_first() {
    let memory = MemoryInstance { initial: 1, maximum: None, data: one_page() };
    assert_eq!(
        memory.read_word(0),
        u64::from_le_bytes([0x01, 0x23, 0x45, 0x67, 0x89, 0xab, 0xcd, 0xef])
    );
    assert_eq!(memory.read_word(1), 255);
    assert_eq!(memory.read_word(8191), u64::MAX);
}

#[test]
fn memory_limits_are_checked() {
    let short = MemoryInstance { initial: 1, maximum: None, data: vec![0u8; 65535] };
    assert!(!short.is_well_formed());
    let too_many = MemoryInstance { initial: 65537, maximum: None, data: vec![] };
    assert!(!too_many.is_well_formed());
    let below = MemoryInstance { initial: 1, maximum: Some(0), data: vec![0u8; 65536] };
    assert!(!below.is_well_formed());
    let empty_maximum = MemoryInstance { initial: 0, maximum: Some(0), data: vec![] };
    assert!(!empty_maximum.is_well_formed());
    let beyond = MemoryInstance { initial: 0, maximum: Some(65537), data: vec![] };
    assert!(!beyond.is_well_formed());
    let full = MemoryInstance { initial: 0, maximum: Some(65536), data: vec![] };
    assert!(full.is_well_formed());
}

#[test]
fn global_rows_hold_type_mutability_and_bits() {
    let mut tracer = Tracer::new(HashMap::new(), &vec![]);
    tracer.push_global(0, &GlobalInstance { value: RuntimeValue::I32(-1), mutable: true });
    tracer.push_global(1, &GlobalInstance { value: RuntimeValue::I64(-2), mutable: false });
    tracer.push_global(
        2,
        &GlobalInstance { value: RuntimeValue::F32(1.5f32.to_bits()), mutable: false },
    );
    tracer.push_global(
        3,
        &GlobalInstance { value: RuntimeValue::F64((-0.0f64).to_bits()), mutable: true },
    );
    tracer.push_global(7, &GlobalInstance { value: RuntimeValue::I32(i32::MIN), mutable: false });
    let global = |index: u32, is_mutable: bool, vtype: ValueType, value: u64| IMTableEntry {
        is_global: true,
        is_mutable,
        start_offset: index,
        end_offset: index,
        vtype,
        value,
    };
    assert_eq!(
        tracer.imtable.entries(),
        &vec![
            global(0, true, ValueType::I32, 0xffff_ffff),
            global(1, false, ValueType::I64, 0xffff_ffff_ffff_fffe),
            global(2, false, ValueType::F32, 0x3fc0_0000),
            global(3, true, ValueType::F64, 0x8000_0000_0000_0000),
            global(7, false, ValueType::I32, 0x8000_0000),
        ]
    );
}

#[test]
fn values_are_reinterpreted_not_rounded() {
    assert_eq!(RuntimeValue::I32(5).bits(), 5);
    assert_eq!(RuntimeValue::I32(-5).bits(), (-5i32) as u32 as u64);
    assert_eq!(RuntimeValue::I64(i64::MIN).bits(), 1u64 << 63);
    assert_eq!(RuntimeValue::I64(i64::MAX).bits(), i64::MAX as u64);
    assert_eq!(RuntimeValue::F32(2.75f32.to_bits()).bits(), 0x4030_0000);
    assert_eq!(RuntimeValue::F64(2.75f64.to_bits()).bits(), 0x4006_0000_0000_0000);
    assert_eq!(RuntimeValue::F64(0).value_type(), ValueType::F64);
    assert_eq!(RuntimeValue::I32(0).value_type(), ValueType::I32);
    assert_eq!(RuntimeValue::I64(0).value_type(), ValueType::I64);
    assert_eq!(RuntimeValue::F32(0).value_type(), ValueType::F32);
}

#[test]
fn indirect_call_entries_are_kept_in_order_with_repetitions() {
    let mut tracer = Tracer::new(HashMap::new(), &vec![]);
    tracer.push_elem(0, 3, 11, 2);
    tracer.push_elem(0, 4, 12, 2);
    tracer.push_elem(0, 3, 13, 5);
    tracer.push_elem(0, 3, 11, 2);
    let entry = |table_idx, offset, func_idx, type_idx| ElemEntry {
        table_idx,
        type_idx,
        offset,
        func_idx,
    };
    assert_eq!(
        tracer.elem_table.entries(),
        &vec![entry(0, 3, 11, 2), entry(0, 4, 12, 2), entry(0, 3, 13, 5), entry(0, 3, 11, 2)]
    );
    assert_eq!(tracer.elem_table.get(2), Some(entry(0, 3, 13, 5)));
    assert_eq!(tracer.elem_table.get(4), None);
    assert_eq!(tracer.elem_table.len(), 4);
    assert_eq!(ElemTable::new().len(), 0);
}

#[test]
fn frames_are_pushed_and_popped_in_balance() {
    let mut tracer = Tracer::new(HashMap::new(), &vec![]);
    let inst = InstructionTableEntry { fid: 1, iid: 0, opcode: Opcode::I32Const(0) };
    assert_eq!(tracer.eid(), 0);
    tracer.push_frame();
    assert_eq!(tracer.last_jump_eid(), 0);
    assert_eq!(tracer.etable.push(inst, 0), 1);
    assert_eq!(tracer.etable.push(inst, 0), 2);
    assert_eq!(tracer.eid(), 2);
    tracer.push_frame();
    assert_eq!(tracer.last_jump_eid(), 2);
    assert_eq!(tracer.etable.push(inst, 2), 3);
    tracer.push_frame();
    assert_eq!(tracer.frame_depth(), 3);
    assert_eq!(tracer.last_jump_eid(), 3);
    tracer.pop_frame();
    assert_eq!(tracer.last_jump_eid(), 2);
    tracer.pop_frame();
    assert_eq!(tracer.last_jump_eid(), 0);
    tracer.pop_frame();
    assert_eq!(tracer.frame_depth(), 0);
    assert_eq!(tracer.eid(), 3);
}

#[test]
fn deep_recursion_keeps_the_frames_balanced() {
    let mut tracer = Tracer::new(HashMap::new(), &vec![]);
    let inst = InstructionTableEntry { fid: 1, iid: 0, opcode: Opcode::Call { index: 1 } };
    for depth in 0..10_000u32 {
        tracer.push_frame();
        assert_eq!(tracer.last_jump_eid(), depth);
        tracer.etable.push(inst, depth);
    }
    assert_eq!(tracer.frame_depth(), 10_000);
    for depth in (0..10_000u32).rev() {
        assert_eq!(tracer.last_jump_eid(), depth);
        tracer.pop_frame();
    }
    assert_eq!(tracer.frame_depth(), 0);
}

#[test]
fn events_are_numbered_from_one() {
    let mut events = EventTable::new();
    assert_eq!(events.get_latest_eid(), 0);
    let first = InstructionTableEntry { fid: 1, iid: 0, opcode: Opcode::I32Const(0) };
    let second = InstructionTableEntry { fid: 1, iid: 1, opcode: Opcode::I32WrapI64 };
    assert_eq!(events.push(first, 0), 1);
    assert_eq!(events.push(second, 1), 2);
    assert_eq!(events.get_latest_eid(), 2);
    assert_eq!(
        events.entries(),
        &vec![
            EventTableEntry { eid: 1, last_jump_eid: 0, inst: first },
            EventTableEntry { eid: 2, last_jump_eid: 1, inst: second },
        ]
    );
}

#[test]
fn jumps_are_kept_in_order() {
    let mut jumps = JumpTable::new();
    let first = JumpTableEntry { eid: 1, last_jump_eid: 0, callee_fid: 2, fid: 1, iid: 3 };
    let second = JumpTableEntry { eid: 4, last_jump_eid: 1, callee_fid: 3, fid: 2, iid: 1 };
    jumps.push(first);
    jumps.push(second);
    assert_eq!(jumps.entries(), &vec![first, second]);
}

#[test]
fn instruction_rows_are_found_by_function_and_position() {
    let mut table = InstructionTable::new();
    table.push(2, 1, Opcode::I32WrapI64);
    table.push(1, 0, Opcode::I32Const(7));
    table.push(2, 0, Opcode::Call { index: 1 });
    assert_eq!(table.len(), 3);
    assert_eq!(
        table.find(2, 0),
        Some(InstructionTableEntry { fid: 2, iid: 0, opcode: Opcode::Call { index: 1 } })
    );
    assert_eq!(table.find(1, 1), None);
    assert_eq!(table.find(3, 0), None);
    assert_eq!(
        table.first_of(2),
        Some(InstructionTableEntry { fid: 2, iid: 0, opcode: Opcode::Call { index: 1 } })
    );
    assert_eq!(
        table.first_of(1),
        Some(InstructionTableEntry { fid: 1, iid: 0, opcode: Opcode::I32Const(7) })
    );
    assert_eq!(table.first_of(0), None);
}

#[test]
fn the_allocator_counts_from_one() {
    let mut allocator = FuncIndexAllocator::new();
    assert_eq!(allocator.peek(), 1);
    assert_eq!(allocator.allocate(), 1);
    assert_eq!(allocator.allocate(), 2);
    assert_eq!(allocator.allocate(), 3);
    assert_eq!(allocator.peek(), 4);
}

#[test]
fn type_indices_are_recorded_by_handle() {
    let mut tracer = Tracer::new(HashMap::new(), &vec![]);
    tracer.push_type_of_func_ref(FuncRef(4), 1);
    tracer.push_type_of_func_ref(FuncRef(5), 0);
    tracer.push_type_of_func_ref(FuncRef(4), 9);
    assert_eq!(tracer.lookup_type_of_func_ref(&FuncRef(4)), 1);
    assert_eq!(tracer.lookup_type_of_func_ref(&FuncRef(5)), 0);
}

#[test]
fn a_new_tracer_is_empty_and_keeps_its_configuration() {
    let patterns = vec!["^get_.*".to_string(), "^set_.*".to_string()];
    let tracer = Tracer::new(HashMap::new(), &patterns);
    assert_eq!(tracer.phantom_functions, patterns);
    assert_eq!(tracer.itable.len(), 0);
    assert_eq!(tracer.imtable.len(), 0);
    assert_eq!(tracer.elem_table.len(), 0);
    assert_eq!(tracer.eid(), 0);
    assert_eq!(tracer.frame_depth(), 0);
    assert_eq!(tracer.wasm_input_func_idx, None);
    assert_eq!(tracer.wasm_input_func_ref, None);
    assert!(tracer.host_function_index_lookup.is_empty());
}

#[test]
fn a_signature_is_cloned_with_its_content() {
    let sig = Signature::new(vec![ValueType::I32, ValueType::F64], Some(ValueType::I64));
    let copy = sig.clone();
    assert_eq!(copy, sig);
    assert_eq!(copy.params, vec![ValueType::I32, ValueType::F64]);
    assert_eq!(copy.return_type, Some(ValueType::I64));
}
