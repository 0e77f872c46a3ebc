//! Value types, function signatures and function handles.

use vstd::prelude::*;

verus! {

/// The type of a WebAssembly value.
#[derive(Clone, Copy, Debug, PartialEq, Eq, Hash, Structural)]
pub enum ValueType {
    I32,
    I64,
    F32,
    F64,
}

/// A handle to a live function. Two handles name the same function exactly
/// when their numbers are equal.
#[derive(Clone, Copy, Debug, PartialEq, Eq, Hash, Structural)]
pub struct FuncRef(pub u64);

/// The declared signature of a function.
#[derive(Debug, PartialEq, Eq)]
pub struct Signature {
    pub params: Vec<ValueType>,
    pub return_type: Option<ValueType>,
}

/// The mathematical content of a [`Signature`].
pub ghost struct SignatureView {
    pub params: Seq<ValueType>,
    pub return_type: Option<ValueType>,
}

impl View for Signature {
    type V = SignatureView;

    open spec fn view(&self) -> SignatureView {
        SignatureView { params: self.params@, return_type: self.return_type }
    }
}

impl Signature {
    pub fn new(params: Vec<ValueType>, return_type: Option<ValueType>) -> (r: Signature)
        ensures
            r@.params == params@,
            r@.return_type == return_type,
    {
        Signature { params, return_type }
    }
}

impl Clone for Signature {
    fn clone(&self) -> (r: Signature)
        ensures
            r@ == self@,
    {
        let mut params: Vec<ValueType> = Vec::new();
        let mut i: usize = 0;
        while i < self.params.len()
            invariant
                i <= self.params.len(),
                params@ == self.params@.subrange(0, i as int),
            decreases self.params.len() - i,
        {
            params.push(self.params[i]);
            i += 1;
        }
        assert(params@ == self.params@);
        Signature { params, return_type: self.return_type }
    }
}

} // verus!
