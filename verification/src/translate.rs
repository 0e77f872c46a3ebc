//! The function index translator: it gives every function of a module a
//! stable index and records what kind of function it is.

use crate::host::{classify, function_type_of, ConfigError, FuncDesc, HostFunctionDesc};
use crate::module::{FuncInstance, FuncKind};
use crate::types::FuncRef;
use std::collections::HashMap;
use vstd::prelude::*;

verus! {

/// Hands out stable indices: 1 first, then 2, 3, and so on. Index 0 is never
/// handed out: it belongs to the start function.
#[derive(Debug, PartialEq, Eq)]
pub struct FuncIndexAllocator {
    next: u32,
}

impl FuncIndexAllocator {
    /// The index that the next call of `allocate` returns.
    pub closed spec fn next_index(&self) -> int {
        self.next as int
    }

    #[verifier::type_invariant]
    spec fn positive(&self) -> bool {
        self.next >= 1
    }

    /// The allocator that has handed out nothing.
    pub fn new() -> (r: FuncIndexAllocator)
        ensures
            r.next_index() == 1,
    {
        FuncIndexAllocator { next: 1 }
    }

    /// The index that the next call of `allocate` returns.
    pub fn peek(&self) -> (r: u32)
        ensures
            r == self.next_index(),
            r >= 1,
    {
        proof {
            use_type_invariant(self);
        }
        self.next
    }

    /// Returns the next unused index, which is positive and one more than
    /// the index returned before.
    pub fn allocate(&mut self) -> (r: u32)
        requires
            old(self).next_index() < u32::MAX,
        ensures
            r == old(self).next_index(),
            r >= 1,
            final(self).next_index() == r + 1,
    {
        proof {
            use_type_invariant(&*self);
        }
        let r = self.next;
        self.next = r + 1;
        r
    }
}

/// The start function is one of the first `n` functions.
pub open spec fn start_among(start: Option<u32>, n: int) -> bool {
    start matches Some(s) && (s as int) < n
}

/// The stable index of the function with module index `i`: 0 for the start
/// function; for any other function, one more than the number of functions
/// before it that are not the start function.
pub open spec fn stable_index(start: Option<u32>, i: int) -> int {
    if start == Some(i as u32) && 0 <= i <= u32::MAX {
        0
    } else if start_among(start, i) {
        i
    } else {
        i + 1
    }
}

/// The function at module index below `n` that has stable index `v`, where
/// there is one.
pub open spec fn function_with_stable_index(start: Option<u32>, n: int, v: int) -> int {
    if start_among(start, n) {
        if v == 0 {
            start->0 as int
        } else if v <= start->0 {
            v - 1
        } else {
            v
        }
    } else {
        v - 1
    }
}

/// Index allocation is dense. Among `n` functions no two share a stable
/// index. Where the start function is one of them, it alone has index 0 and
/// the others have exactly the indices 1 to n - 1. Where it is not, the
/// functions have exactly the indices 1 to n.
pub proof fn lemma_stable_indices_dense(start: Option<u32>, n: int)
    requires
        0 <= n <= u32::MAX,
    ensures
        forall|i: int, j: int|
            0 <= i < n && 0 <= j < n && i != j ==> stable_index(start, i) != stable_index(
                start,
                j,
            ),
        start_among(start, n) ==> {
            &&& forall|i: int| 0 <= i < n ==> 0 <= #[trigger] stable_index(start, i) < n
            &&& forall|i: int|
                0 <= i < n ==> (#[trigger] stable_index(start, i) == 0 <==> i == start->0)
            &&& forall|v: int|
                0 <= v < n ==> 0 <= #[trigger] function_with_stable_index(start, n, v) < n
                    && stable_index(start, function_with_stable_index(start, n, v)) == v
        },
        !start_among(start, n) ==> {
            &&& forall|i: int| 0 <= i < n ==> 1 <= #[trigger] stable_index(start, i) <= n
            &&& forall|v: int|
                1 <= v <= n ==> 0 <= #[trigger] function_with_stable_index(start, n, v) < n
                    && stable_index(start, function_with_stable_index(start, n, v)) == v
        },
{
}

/// How many of the first `n` functions get their index from the allocator.
pub open spec fn allocated_count(start: Option<u32>, n: int) -> int {
    if start_among(start, n) {
        n - 1
    } else {
        n
    }
}

/// The module index that the host input handle resolves to among the first
/// `n` functions: the last function with that handle, if any.
pub open spec fn resolved_input(funcs: Seq<FuncInstance>, input: Option<FuncRef>, n: int) -> Option<
    u32,
>
    decreases n,
{
    if n <= 0 {
        None
    } else if input == Some(funcs[n - 1].handle) {
        Some((n - 1) as u32)
    } else {
        resolved_input(funcs, input, n - 1)
    }
}

/// A resolved host input is one of the first `n` functions and has the handle.
pub proof fn lemma_resolved_input_in_range(funcs: Seq<FuncInstance>, input: Option<FuncRef>, n: int)
    requires
        0 <= n <= funcs.len(),
        n <= u32::MAX,
    ensures
        resolved_input(funcs, input, n) matches Some(t) ==> (t as int) < n && input == Some(
            funcs[t as int].handle,
        ),
        resolved_input(funcs, input, n) is None ==> forall|i: int|
            0 <= i < n ==> input != Some(#[trigger] funcs[i].handle),
    decreases n,
{
    if n > 0 && input != Some(funcs[n - 1].handle) {
        lemma_resolved_input_in_range(funcs, input, n - 1);
    }
}

/// Every one of the functions has a kind: no host slot lacks a description.
pub open spec fn all_described(
    funcs: Seq<FuncInstance>,
    host: Map<usize, HostFunctionDesc>,
) -> bool {
    forall|i: int| 0 <= i < funcs.len() ==> function_type_of(#[trigger] funcs[i].kind, host) is Some
}

/// Function `i` is the first whose host slot lacks a description.
pub open spec fn first_undescribed(
    funcs: Seq<FuncInstance>,
    host: Map<usize, HostFunctionDesc>,
    i: int,
) -> bool {
    &&& 0 <= i < funcs.len()
    &&& function_type_of(funcs[i].kind, host) is None
    &&& forall|j: int| 0 <= j < i ==> function_type_of(#[trigger] funcs[j].kind, host) is Some
}

/// What registration records of the functions of a module.
#[derive(Debug, PartialEq, Eq)]
pub struct FunctionTable {
    /// The description of each function, by module index.
    pub descs: Vec<FuncDesc>,
    /// The stable index that each handle stands for.
    pub lookup: HashMap<u64, u32>,
    /// The allocator after the last function.
    pub allocator: FuncIndexAllocator,
    /// The module index of the host input function, if the module has it.
    pub input_index: Option<u32>,
}

/// The stable index that each handle of the first `n` functions stands for:
/// that of the first function with the handle.
pub open spec fn handle_indices(funcs: Seq<FuncInstance>, start: Option<u32>, n: int) -> Map<
    u64,
    u32,
>
    decreases n,
{
    if n <= 0 {
        Map::empty()
    } else {
        let earlier = handle_indices(funcs, start, n - 1);
        let handle = funcs[n - 1].handle.0;
        if earlier.contains_key(handle) {
            earlier
        } else {
            earlier.insert(handle, stable_index(start, n - 1) as u32)
        }
    }
}

/// The handles that stand for a stable index are those of the first `n`
/// functions, and each stands for the stable index of one of them.
pub proof fn lemma_handle_indices_domain(funcs: Seq<FuncInstance>, start: Option<u32>, n: int)
    requires
        0 <= n <= funcs.len(),
    ensures
        forall|i: int|
            0 <= i < n ==> handle_indices(funcs, start, n).contains_key(
                (#[trigger] funcs[i]).handle.0,
            ),
        forall|key: u64| #[trigger]
            handle_indices(funcs, start, n).contains_key(key) ==> exists|i: int|
                0 <= i < n && (#[trigger] funcs[i]).handle.0 == key && handle_indices(
                    funcs,
                    start,
                    n,
                )[key] == stable_index(start, i) as u32,
    decreases n,
{
    if n > 0 {
        lemma_handle_indices_domain(funcs, start, n - 1);
        let earlier = handle_indices(funcs, start, n - 1);
        let now = handle_indices(funcs, start, n);
        assert forall|key: u64| #[trigger] now.contains_key(key) implies exists|i: int|
            0 <= i < n && (#[trigger] funcs[i]).handle.0 == key && now[key] == stable_index(
                start,
                i,
            ) as u32 by {
            if earlier.contains_key(key) {
                let i = choose|i: int|
                    0 <= i < n - 1 && (#[trigger] funcs[i]).handle.0 == key && earlier[key]
                        == stable_index(start, i) as u32;
                assert(0 <= i < n && funcs[i].handle.0 == key);
            } else {
                assert(funcs[n - 1].handle.0 == key);
            }
        }
    }
}

/// A handle stands for the first function that has it: where function `i`
/// is the first of the first `n` functions with its handle, the handle
/// stands for the stable index of function `i`.
pub proof fn lemma_handle_indices_first(
    funcs: Seq<FuncInstance>,
    start: Option<u32>,
    n: int,
    i: int,
)
    requires
        0 <= i < n <= funcs.len(),
        forall|j: int| 0 <= j < i ==> (#[trigger] funcs[j]).handle != funcs[i].handle,
    ensures
        handle_indices(funcs, start, n).contains_key(funcs[i].handle.0),
        handle_indices(funcs, start, n)[funcs[i].handle.0] == stable_index(start, i) as u32,
    decreases n,
{
    if i == n - 1 {
        lemma_handle_indices_domain(funcs, start, n - 1);
        let earlier = handle_indices(funcs, start, n - 1);
        if earlier.contains_key(funcs[i].handle.0) {
            let j = choose|j: int|
                0 <= j < n - 1 && (#[trigger] funcs[j]).handle.0 == funcs[i].handle.0;
            assert(funcs[j].handle == funcs[i].handle);
        }
    } else {
        lemma_handle_indices_first(funcs, start, n - 1, i);
    }
}

/// `descs`, `lookup`, `next_index` and `input_index` are what translating
/// `funcs` records: for each function, by module index, its stable index,
/// its kind and its signature; for each handle, the stable index it stands
/// for; the next index of the allocator; and the module index of the host
/// input function.
pub open spec fn is_translation(
    descs: Seq<FuncDesc>,
    lookup: Map<u64, u32>,
    next_index: int,
    input_index: Option<u32>,
    start: Option<u32>,
    funcs: Seq<FuncInstance>,
    host: Map<usize, HostFunctionDesc>,
    input: Option<FuncRef>,
) -> bool {
    &&& descs.len() == funcs.len()
    &&& forall|i: int|
        0 <= i < funcs.len() ==> {
            &&& (#[trigger] descs[i]).index_within_jtable == stable_index(start, i)
            &&& function_type_of(funcs[i].kind, host) == Some(descs[i].ftype)
            &&& descs[i].signature@ == funcs[i].signature@
        }
    &&& lookup == handle_indices(funcs, start, funcs.len() as int)
    &&& next_index == 1 + allocated_count(start, funcs.len() as int)
    &&& input_index == resolved_input(funcs, input, funcs.len() as int)
}

impl FunctionTable {
    /// The table is the translation of `funcs` under `start`, `host` and
    /// `input`.
    pub open spec fn translates(
        &self,
        start: Option<u32>,
        funcs: Seq<FuncInstance>,
        host: Map<usize, HostFunctionDesc>,
        input: Option<FuncRef>,
    ) -> bool {
        is_translation(
            self.descs@,
            self.lookup@,
            self.allocator.next_index(),
            self.input_index,
            start,
            funcs,
            host,
            input,
        )
    }
}

/// Gives every function its stable index and its kind, in ascending order of
/// module index: the start function gets 0, every other function the next
/// index of a fresh allocator. Fails at the first host function whose slot
/// has no description.
pub fn translate_functions(
    start: Option<u32>,
    funcs: &Vec<FuncInstance>,
    host: &HashMap<usize, HostFunctionDesc>,
    input: Option<FuncRef>,
) -> (r: Result<FunctionTable, ConfigError>)
    requires
        funcs.len() < u32::MAX,
    ensures
        match r {
            Ok(table) => all_described(funcs@, host@) && table.translates(
                start,
                funcs@,
                host@,
                input,
            ),
            Err(e) => e matches ConfigError::MissingHostFunction { host_func_index } && exists|
                i: int,
            |
                #[trigger] first_undescribed(funcs@, host@, i) && funcs[i].kind == (FuncKind::Host {
                    host_func_index,
                }),
        },
{
    let mut allocator = FuncIndexAllocator::new();
    let mut descs: Vec<FuncDesc> = Vec::new();
    let mut lookup: HashMap<u64, u32> = HashMap::new();
    let mut input_index: Option<u32> = None;
    let mut i: usize = 0;
    while i < funcs.len()
        invariant
            i <= funcs.len(),
            funcs.len() < u32::MAX,
            descs.len() == i,
            forall|j: int|
                0 <= j < i ==> {
                    &&& (#[trigger] descs[j]).index_within_jtable == stable_index(start, j)
                    &&& function_type_of(funcs[j].kind, host@) == Some(descs[j].ftype)
                    &&& descs[j].signature@ == funcs[j].signature@
                },
            lookup@ == handle_indices(funcs@, start, i as int),
            forall|j: int| 0 <= j < i ==> function_type_of(#[trigger] funcs[j].kind, host@) is Some,
            allocator.next_index() == 1 + allocated_count(start, i as int),
            input_index == resolved_input(funcs@, input, i as int),
        decreases funcs.len() - i,
    {
        let func = &funcs[i];
        let func_index = i as u32;
        match input {
            Some(handle) => {
                if handle == func.handle {
                    input_index = Some(func_index);
                }
            },
            None => {},
        }
        let is_start = match start {
            Some(s) => s == func_index,
            None => false,
        };
        let index = if is_start {
            0
        } else {
            allocator.allocate()
        };
        let ftype = match classify(&func.kind, host) {
            Ok(ftype) => ftype,
            Err(e) => {
                assert(first_undescribed(funcs@, host@, i as int));
                return Err(e);
            },
        };
        if !lookup.contains_key(&func.handle.0) {
            lookup.insert(func.handle.0, index);
        }
        let signature = func.signature.clone();
        descs.push(FuncDesc { index_within_jtable: index, ftype, signature });
        i += 1;
    }
    Ok(FunctionTable { descs, lookup, allocator, input_index })
}

} // verus!
