//! The phantom function resolver: it finds the exported functions that the
//! configured patterns name, and writes the stub that stands for the body of
//! such a function in the instruction table.

use crate::host::ConfigError;
use crate::matcher::{compile_pattern, expression_accepts, pattern_is_valid, pattern_matches};
use crate::module::{DropKeep, Export, ExternVal, Instruction};
use crate::types::{FuncRef, Signature, SignatureView, ValueType};
use vstd::prelude::*;

verus! {

/// Pattern `k` matches export `j`, and that export is the function `f`.
pub open spec fn export_match(
    patterns: Seq<String>,
    exports: Seq<Export>,
    k: int,
    j: int,
    f: FuncRef,
) -> bool {
    &&& 0 <= k < patterns.len()
    &&& 0 <= j < exports.len()
    &&& exports[j].value == ExternVal::Func(f)
    &&& pattern_matches(patterns[k]@, exports[j].name@)
}

/// A function is phantom when some pattern matches the name of some export
/// that is bound to it. Exports that are no functions count for nothing.
pub open spec fn is_phantom(patterns: Seq<String>, exports: Seq<Export>, f: FuncRef) -> bool {
    exists|k: int, j: int| #[trigger] export_match(patterns, exports, k, j, f)
}

/// One of the first `k` patterns makes `f` phantom.
pub open spec fn matched_by_earlier(
    patterns: Seq<String>,
    exports: Seq<Export>,
    k: int,
    f: FuncRef,
) -> bool {
    exists|i: int, h: int| i < k && #[trigger] export_match(patterns, exports, i, h, f)
}

/// Pattern `k` makes `f` phantom by one of the first `j` exports.
pub open spec fn matched_by_current(
    patterns: Seq<String>,
    exports: Seq<Export>,
    k: int,
    j: int,
    f: FuncRef,
) -> bool {
    exists|h: int| h < j && #[trigger] export_match(patterns, exports, k, h, f)
}

/// Pattern `k` is the first that is no regular expression.
pub open spec fn first_invalid_pattern(patterns: Seq<String>, k: int) -> bool {
    &&& 0 <= k < patterns.len()
    &&& !pattern_is_valid(patterns[k]@)
    &&& forall|j: int| 0 <= j < k ==> pattern_is_valid(#[trigger] patterns[j]@)
}

/// Every pattern is a regular expression.
pub open spec fn all_patterns_valid(patterns: Seq<String>) -> bool {
    forall|k: int| 0 <= k < patterns.len() ==> pattern_is_valid(#[trigger] patterns[k]@)
}

/// The function that an export makes phantom, given whether a pattern
/// matched the export's name: the export's function if it matched and the
/// export is a function, and none otherwise.
pub fn phantom_candidate(matched: bool, value: ExternVal) -> (r: Option<FuncRef>)
    ensures
        r == match value {
            ExternVal::Func(f) => if matched {
                Some(f)
            } else {
                None
            },
            _ => None,
        },
{
    match value {
        ExternVal::Func(f) => if matched {
            Some(f)
        } else {
            None
        },
        _ => None,
    }
}

/// Finds the phantom functions among the exports: compiles each pattern
/// once, in order, and tests it against the name of every export. Fails at
/// the first pattern that is no regular expression.
pub fn resolve_phantom_functions(patterns: &Vec<String>, exports: &Vec<Export>) -> (r: Result<
    Vec<FuncRef>,
    ConfigError,
>)
    ensures
        match r {
            Ok(found) => {
                &&& all_patterns_valid(patterns@)
                &&& forall|f: FuncRef| found@.contains(f) <==> is_phantom(patterns@, exports@, f)
            },
            Err(e) => e matches ConfigError::InvalidPhantomPattern { index }
                && first_invalid_pattern(patterns@, index as int),
        },
{
    let mut found: Vec<FuncRef> = Vec::new();
    let mut k: usize = 0;
    while k < patterns.len()
        invariant
            k <= patterns.len(),
            forall|i: int| 0 <= i < k ==> pattern_is_valid(#[trigger] patterns[i]@),
            forall|f: FuncRef|
                found@.contains(f) <==> matched_by_earlier(patterns@, exports@, k as int, f),
        decreases patterns.len() - k,
    {
        let re = match compile_pattern(patterns[k].as_str()) {
            Ok(re) => re,
            Err(_) => {
                return Err(ConfigError::InvalidPhantomPattern { index: k });
            },
        };
        let mut j: usize = 0;
        while j < exports.len()
            invariant
                k < patterns.len(),
                j <= exports.len(),
                crate::matcher::regex_compiled(patterns[k as int]@) == Some(re),
                forall|f: FuncRef|
                    found@.contains(f) <==> matched_by_earlier(patterns@, exports@, k as int, f)
                        || matched_by_current(patterns@, exports@, k as int, j as int, f),
            decreases exports.len() - j,
        {
            let export = &exports[j];
            let matched = expression_accepts(&re, export.name.as_str());
            let ghost before = found@;
            let candidate = phantom_candidate(matched, export.value);
            match candidate {
                Some(handle) => {
                    found.push(handle);
                    proof {
                        assert forall|f: FuncRef| found@.contains(f) <==> before.contains(f) || f
                            == handle by {
                            if before.contains(f) {
                                let w = choose|w: int| 0 <= w < before.len() && before[w] == f;
                                assert(found@[w] == f);
                            }
                            if f == handle {
                                assert(found@[found@.len() - 1] == f);
                            }
                        }
                    }
                },
                None => {},
            }
            proof {
                assert forall|f: FuncRef|
                    found@.contains(f) <==> matched_by_earlier(patterns@, exports@, k as int, f)
                        || matched_by_current(patterns@, exports@, k as int, j as int, f)
                        || candidate == Some(f) by {
                    assert(before.contains(f) <==> matched_by_earlier(
                        patterns@,
                        exports@,
                        k as int,
                        f,
                    ) || matched_by_current(patterns@, exports@, k as int, j as int, f));
                    assert(found@.contains(f) <==> before.contains(f) || candidate == Some(f));
                }
                assert forall|f: FuncRef|
                    matched_by_current(patterns@, exports@, k as int, j as int + 1, f)
                        <==> matched_by_current(patterns@, exports@, k as int, j as int, f)
                        || candidate == Some(f) by {
                    if candidate == Some(f) {
                        assert(export_match(patterns@, exports@, k as int, j as int, f));
                    }
                    if matched_by_current(patterns@, exports@, k as int, j as int, f) {
                        let h = choose|h: int|
                            h < j && #[trigger] export_match(patterns@, exports@, k as int, h, f);
                        assert(export_match(patterns@, exports@, k as int, h, f));
                    }
                    if matched_by_current(patterns@, exports@, k as int, j as int + 1, f) {
                        let h = choose|h: int|
                            h < j + 1 && #[trigger] export_match(
                                patterns@,
                                exports@,
                                k as int,
                                h,
                                f,
                            );
                        if h < j {
                            assert(export_match(patterns@, exports@, k as int, h, f));
                        }
                    }
                }
            }
            j += 1;
        }
        proof {
            assert forall|f: FuncRef|
                matched_by_earlier(patterns@, exports@, k as int + 1, f) <==> matched_by_earlier(
                    patterns@,
                    exports@,
                    k as int,
                    f,
                ) || matched_by_current(
                    patterns@,
                    exports@,
                    k as int,
                    exports@.len() as int,
                    f,
                ) by {
                if matched_by_earlier(patterns@, exports@, k as int, f) {
                    let (i, h) = choose|i: int, h: int|
                        i < k && #[trigger] export_match(patterns@, exports@, i, h, f);
                    assert(export_match(patterns@, exports@, i, h, f));
                }
                if matched_by_current(patterns@, exports@, k as int, exports@.len() as int, f) {
                    let h = choose|h: int|
                        h < exports@.len() && #[trigger] export_match(
                            patterns@,
                            exports@,
                            k as int,
                            h,
                            f,
                        );
                    assert(export_match(patterns@, exports@, k as int, h, f));
                }
                if matched_by_earlier(patterns@, exports@, k as int + 1, f) {
                    let (i, h) = choose|i: int, h: int|
                        i < k + 1 && #[trigger] export_match(patterns@, exports@, i, h, f);
                    if i < k {
                        assert(export_match(patterns@, exports@, i, h, f));
                    } else {
                        assert(export_match(patterns@, exports@, k as int, h, f));
                    }
                }
            }
        }
        k += 1;
    }
    proof {
        assert forall|f: FuncRef|
            matched_by_earlier(patterns@, exports@, patterns@.len() as int, f) <==> is_phantom(
                patterns@,
                exports@,
                f,
            ) by {
            if is_phantom(patterns@, exports@, f) {
                let (i, h) = choose|i: int, h: int|
                    #[trigger] export_match(patterns@, exports@, i, h, f);
                assert(i < patterns@.len() && export_match(patterns@, exports@, i, h, f));
            }
        }
    }
    Ok(found)
}

/// The stub of a phantom function with signature `sig`, where `input_index`
/// is the host input function. A function with a result asks the host input
/// function for one value, narrowed to 32 bits unless the result is a 64-bit
/// integer; every stub ends by returning, dropping the parameters.
pub open spec fn stub_instructions(sig: SignatureView, input_index: u32) -> Seq<Instruction> {
    let fetch = match sig.return_type {
        None => Seq::<Instruction>::empty(),
        Some(ValueType::I64) => seq![Instruction::I32Const(0), Instruction::Call(input_index)],
        Some(_) => seq![
            Instruction::I32Const(0),
            Instruction::Call(input_index),
            Instruction::I32WrapI64,
        ],
    };
    fetch.push(
        Instruction::Return(DropKeep { drop: sig.params.len() as u32, keep: sig.return_type }),
    )
}

/// Writes the stub of a phantom function.
pub fn build_phantom_function_instructions(sig: &Signature, wasm_input_function_idx: u32) -> (r:
    Vec<Instruction>)
    requires
        sig.params.len() <= u32::MAX,
    ensures
        r@ == stub_instructions(sig@, wasm_input_function_idx),
{
    let mut instructions: Vec<Instruction> = Vec::new();
    match sig.return_type {
        None => {},
        Some(vtype) => {
            instructions.push(Instruction::I32Const(0));
            instructions.push(Instruction::Call(wasm_input_function_idx));
            match vtype {
                ValueType::I64 => {},
                _ => {
                    instructions.push(Instruction::I32WrapI64);
                },
            }
        },
    }
    instructions.push(
        Instruction::Return(DropKeep { drop: sig.params.len() as u32, keep: sig.return_type }),
    );
    instructions
}

/// A stub has one to four operations, and only its call names a function:
/// the host input function.
pub proof fn lemma_stub_shape(sig: SignatureView, input_index: u32)
    ensures
        1 <= stub_instructions(sig, input_index).len() <= 4,
        stub_instructions(sig, input_index).len() == match sig.return_type {
            None => 1int,
            Some(ValueType::I64) => 3int,
            Some(_) => 4int,
        },
        forall|k: int|
            0 <= k < stub_instructions(sig, input_index).len() ==> (
            #[trigger] stub_instructions(sig, input_index)[k] matches Instruction::Call(t) ==> t
                == input_index),
{
}

} // verus!
