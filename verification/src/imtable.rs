//! The memory and global image: what linear memory and the global variables
//! hold when the module is instantiated.

use crate::types::ValueType;
use vstd::prelude::*;

verus! {

/// The number of 8-byte words in a page of linear memory.
pub const WORDS_PER_PAGE: u32 = 8192;

/// The number of bytes in a page of linear memory.
pub const BYTES_PER_PAGE: u32 = 65536;

/// The largest number of pages that linear memory can have.
pub const MAX_PAGES: u32 = 65536;

/// One row of the image: a range of word addresses of linear memory, or one
/// global variable, with its value.
#[derive(Clone, Copy, Debug, PartialEq, Eq, Structural)]
pub struct IMTableEntry {
    pub is_global: bool,
    pub is_mutable: bool,
    pub start_offset: u32,
    pub end_offset: u32,
    pub vtype: ValueType,
    pub value: u64,
}

/// The image, in the order in which its rows were added.
#[derive(Debug, PartialEq, Eq)]
pub struct IMTable {
    entries: Vec<IMTableEntry>,
}

/// A linear memory at instantiation: its limits in pages, and its bytes.
#[derive(Debug, PartialEq, Eq)]
pub struct MemoryInstance {
    pub initial: u32,
    pub maximum: Option<u32>,
    pub data: Vec<u8>,
}

/// The value of a global variable. A floating-point value is held by its bits.
#[derive(Clone, Copy, Debug, PartialEq, Eq, Structural)]
pub enum RuntimeValue {
    I32(i32),
    I64(i64),
    F32(u32),
    F64(u64),
}

/// A global variable at instantiation.
#[derive(Clone, Copy, Debug, PartialEq, Eq, Structural)]
pub struct GlobalInstance {
    pub value: RuntimeValue,
    pub mutable: bool,
}

/// The word at word address `i`: its eight bytes, least significant first.
pub open spec fn word_at(data: Seq<u8>, i: int) -> int {
    data[8 * i] + 0x100 * data[8 * i + 1] + 0x1_0000 * data[8 * i + 2] + 0x100_0000 * data[8 * i
        + 3] + 0x1_0000_0000 * data[8 * i + 4] + 0x100_0000_0000 * data[8 * i + 5]
        + 0x1_0000_0000_0000 * data[8 * i + 6] + 0x100_0000_0000_0000 * data[8 * i + 7]
}

/// The row of the word at word address `i`.
pub open spec fn word_row(data: Seq<u8>, i: int) -> IMTableEntry {
    IMTableEntry {
        is_global: false,
        is_mutable: false,
        start_offset: i as u32,
        end_offset: i as u32,
        vtype: ValueType::I64,
        value: word_at(data, i) as u64,
    }
}

/// The last word address that the memory can ever have: the last of its
/// maximum size where it declares one, the largest 32-bit number otherwise.
pub open spec fn last_address(maximum: Option<u32>) -> int {
    match maximum {
        Some(pages) => pages * WORDS_PER_PAGE - 1,
        None => u32::MAX as int,
    }
}

/// The row that closes the image of a memory: it spans the word addresses
/// from the first one beyond the initial pages to the last one that the
/// memory can ever have, and holds 0.
pub open spec fn sentinel_row(initial: u32, maximum: Option<u32>) -> IMTableEntry {
    IMTableEntry {
        is_global: false,
        is_mutable: true,
        start_offset: (initial * WORDS_PER_PAGE) as u32,
        end_offset: last_address(maximum) as u32,
        vtype: ValueType::I64,
        value: 0,
    }
}

/// The image of a memory: one row for each word of its initial pages, in
/// ascending order of address, and then the closing row.
pub open spec fn memory_image(memory: MemoryInstance) -> Seq<IMTableEntry> {
    Seq::new(
        (memory.initial * WORDS_PER_PAGE + 1) as nat,
        |i: int|
            if i < memory.initial * WORDS_PER_PAGE {
                word_row(memory.data@, i)
            } else {
                sentinel_row(memory.initial, memory.maximum)
            },
    )
}

/// The image of a memory of `P` initial pages has `P * 8192 + 1` rows. Each
/// of the first `P * 8192` rows is the row of one word address, the
/// addresses ascending from 0, so each address below `P * 8192` has exactly
/// one row. The last row starts at address `P * 8192`.
pub proof fn lemma_memory_image_shape(memory: MemoryInstance)
    requires
        memory.wf(),
    ensures
        memory_image(memory).len() == memory.initial * 8192 + 1,
        forall|i: int|
            0 <= i < memory.initial * 8192 ==> {
                &&& (#[trigger] memory_image(memory)[i]).start_offset == i
                &&& memory_image(memory)[i].end_offset == i
                &&& !memory_image(memory)[i].is_global
            },
        forall|i: int, j: int|
            0 <= i < j < memory.initial * 8192 ==> (#[trigger] memory_image(memory)[i]).start_offset
                != (#[trigger] memory_image(memory)[j]).start_offset,
        memory_image(memory).last().start_offset == memory.initial * 8192,
        memory_image(memory).last().end_offset == last_address(memory.maximum),
        memory_image(memory).last().value == 0,
{
}

impl RuntimeValue {
    /// The type of the value.
    pub open spec fn spec_value_type(self) -> ValueType {
        match self {
            RuntimeValue::I32(_) => ValueType::I32,
            RuntimeValue::I64(_) => ValueType::I64,
            RuntimeValue::F32(_) => ValueType::F32,
            RuntimeValue::F64(_) => ValueType::F64,
        }
    }

    /// The value as a 64-bit number: an integer by its two's complement in
    /// the width of its type, a floating-point value by its bits.
    pub open spec fn spec_bits(self) -> int {
        match self {
            RuntimeValue::I32(v) => if v >= 0 {
                v as int
            } else {
                v + 0x1_0000_0000
            },
            RuntimeValue::I64(v) => if v >= 0 {
                v as int
            } else {
                v + 0x1_0000_0000_0000_0000
            },
            RuntimeValue::F32(bits) => bits as int,
            RuntimeValue::F64(bits) => bits as int,
        }
    }

    /// The type of the value.
    #[verifier::when_used_as_spec(spec_value_type)]
    pub fn value_type(self) -> (r: ValueType)
        ensures
            r == self.spec_value_type(),
    {
        match self {
            RuntimeValue::I32(_) => ValueType::I32,
            RuntimeValue::I64(_) => ValueType::I64,
            RuntimeValue::F32(_) => ValueType::F32,
            RuntimeValue::F64(_) => ValueType::F64,
        }
    }

    /// The value as a 64-bit number.
    pub fn bits(self) -> (r: u64)
        ensures
            r == self.spec_bits(),
    {
        match self {
            RuntimeValue::I32(v) => if v >= 0 {
                v as u64
            } else {
                (v as i64 + 0x1_0000_0000) as u64
            },
            RuntimeValue::I64(v) => if v >= 0 {
                v as u64
            } else {
                u64::MAX - ((-(v + 1)) as u64)
            },
            RuntimeValue::F32(bits) => bits as u64,
            RuntimeValue::F64(bits) => bits,
        }
    }
}

/// The row of the global variable with index `index`.
pub open spec fn global_row(index: u32, global: GlobalInstance) -> IMTableEntry {
    IMTableEntry {
        is_global: true,
        is_mutable: global.mutable,
        start_offset: index,
        end_offset: index,
        vtype: global.value.spec_value_type(),
        value: global.value.spec_bits() as u64,
    }
}

impl MemoryInstance {
    /// What holds of a memory at instantiation: it has at most 65536 initial
    /// pages and holds their bytes; a declared maximum is not below the
    /// initial size, at most 65536 pages, and at least one page, so that the
    /// last address below it is a 32-bit number.
    pub open spec fn wf(&self) -> bool {
        &&& self.initial <= MAX_PAGES
        &&& self.maximum matches Some(pages) ==> self.initial <= pages && 1 <= pages <= MAX_PAGES
        &&& self.data.len() >= self.initial * BYTES_PER_PAGE
    }

    /// Decides [`MemoryInstance::wf`].
    pub fn is_well_formed(&self) -> (r: bool)
        ensures
            r == self.wf(),
    {
        if self.initial > MAX_PAGES {
            return false;
        }
        match self.maximum {
            Some(pages) => {
                if self.initial > pages || pages < 1 || pages > MAX_PAGES {
                    return false;
                }
            },
            None => {},
        }
        self.data.len() as u64 >= self.initial as u64 * BYTES_PER_PAGE as u64
    }

    /// Reads the word at word address `index`.
    pub fn read_word(&self, index: u32) -> (r: u64)
        requires
            8 * index + 8 <= self.data.len(),
        ensures
            r == word_at(self.data@, index as int),
    {
        let base = index as usize * 8;
        let b0 = self.data[base] as u64;
        let b1 = self.data[base + 1] as u64;
        let b2 = self.data[base + 2] as u64;
        let b3 = self.data[base + 3] as u64;
        let b4 = self.data[base + 4] as u64;
        let b5 = self.data[base + 5] as u64;
        let b6 = self.data[base + 6] as u64;
        let b7 = self.data[base + 7] as u64;
        b0 + 0x100 * b1 + 0x1_0000 * b2 + 0x100_0000 * b3 + 0x1_0000_0000 * b4 + 0x100_0000_0000
            * b5 + 0x1_0000_0000_0000 * b6 + 0x100_0000_0000_0000 * b7
    }
}

impl View for IMTable {
    type V = Seq<IMTableEntry>;

    closed spec fn view(&self) -> Seq<IMTableEntry> {
        self.entries@
    }
}

impl IMTable {
    /// The empty image.
    pub fn new() -> (r: IMTable)
        ensures
            r@ == Seq::<IMTableEntry>::empty(),
    {
        IMTable { entries: Vec::new() }
    }

    /// Adds a row after all earlier ones.
    pub fn push(
        &mut self,
        is_global: bool,
        is_mutable: bool,
        start_offset: u32,
        end_offset: u32,
        vtype: ValueType,
        value: u64,
    )
        ensures
            final(self)@ == old(self)@.push(
                IMTableEntry { is_global, is_mutable, start_offset, end_offset, vtype, value },
            ),
    {
        self.entries.push(
            IMTableEntry { is_global, is_mutable, start_offset, end_offset, vtype, value },
        );
    }

    /// The rows, in the order in which they were added.
    pub fn entries(&self) -> (r: &Vec<IMTableEntry>)
        ensures
            r@ == self@,
    {
        &self.entries
    }

    /// The number of rows.
    pub fn len(&self) -> (r: usize)
        ensures
            r == self@.len(),
    {
        self.entries.len()
    }

    /// Adds the image of a memory: the rows of the words of its initial
    /// pages, and the closing row.
    pub fn snapshot_memory(&mut self, memory: &MemoryInstance)
        requires
            memory.wf(),
        ensures
            final(self)@ == old(self)@ + memory_image(*memory),
    {
        let words: u32 = memory.initial * WORDS_PER_PAGE;
        let ghost image = memory_image(*memory);
        let mut i: u32 = 0;
        while i < words
            invariant
                i <= words,
                words == memory.initial * WORDS_PER_PAGE,
                memory.wf(),
                image == memory_image(*memory),
                self@ == old(self)@ + image.subrange(0, i as int),
            decreases words - i,
        {
            let value = memory.read_word(i);
            self.push(false, false, i, i, ValueType::I64, value);
            assert(image.subrange(0, i as int + 1) == image.subrange(0, i as int).push(
                image[i as int],
            ));
            i += 1;
        }
        let last = match memory.maximum {
            Some(pages) => pages * WORDS_PER_PAGE - 1,
            None => u32::MAX,
        };
        self.push(false, true, words, last, ValueType::I64, 0);
        assert(image == image.subrange(0, words as int).push(image[words as int]));
    }

    /// Adds the row of a global variable: its index, whether it can change,
    /// its type and its value.
    pub fn snapshot_global(&mut self, index: u32, global: &GlobalInstance)
        ensures
            final(self)@ == old(self)@.push(global_row(index, *global)),
    {
        let vtype = global.value.value_type();
        let value = global.value.bits();
        self.push(true, global.mutable, index, index, vtype, value);
    }
}

} // verus!
