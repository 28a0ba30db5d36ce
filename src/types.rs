//! Value types and function types.
use vstd::prelude::*;

verus! {

/// The numeric kinds of values.
#[derive(Debug, Clone, Copy, PartialEq, Eq, Structural)]
pub enum NumType {
    I32,
    I64,
    F32,
    F64,
}

/// The type of a value.
#[derive(Debug, Clone, Copy, PartialEq, Eq, Structural)]
pub enum ValType {
    NumType(NumType),
}

/// The result type of a structured block: nothing, or one value.
#[derive(Debug, Clone, Copy, PartialEq, Eq, Structural)]
pub enum BlockType {
    Empty,
    ValType(ValType),
}

/// A function signature: its parameter types and its result types, in order.
#[derive(Debug, Clone, PartialEq)]
pub struct FuncType {
    pub parameters: Vec<ValType>,
    pub results: Vec<ValType>,
}

/// What a `FuncType` holds, as sequences.
pub struct FuncTypeModel {
    pub parameters: Seq<ValType>,
    pub results: Seq<ValType>,
}

impl View for FuncType {
    type V = FuncTypeModel;

    open spec fn view(&self) -> FuncTypeModel {
        FuncTypeModel { parameters: self.parameters@, results: self.results@ }
    }
}

/// The value type that a type byte stands for.
pub open spec fn valtype_of_byte(b: u8) -> Option<ValType> {
    if b == 0x7f {
        Some(ValType::NumType(NumType::I32))
    } else if b == 0x7e {
        Some(ValType::NumType(NumType::I64))
    } else if b == 0x7d {
        Some(ValType::NumType(NumType::F32))
    } else if b == 0x7c {
        Some(ValType::NumType(NumType::F64))
    } else {
        None
    }
}

/// Maps a type byte to its value type.
pub fn valtype_from_byte(b: u8) -> (r: Option<ValType>)
    ensures
        r == valtype_of_byte(b),
{
    match b {
        0x7f => Some(ValType::NumType(NumType::I32)),
        0x7e => Some(ValType::NumType(NumType::I64)),
        0x7d => Some(ValType::NumType(NumType::F32)),
        0x7c => Some(ValType::NumType(NumType::F64)),
        _ => None,
    }
}

/// A copy of a list of value types.
pub fn copy_valtypes(v: &Vec<ValType>) -> (r: Vec<ValType>)
    ensures
        r@ == v@,
{
    let mut r: Vec<ValType> = Vec::new();
    let mut i: usize = 0;
    while i < v.len()
        invariant
            i <= v.len(),
            r@ == v@.subrange(0, i as int),
        decreases v.len() - i,
    {
        r.push(v[i]);
        i = i + 1;
        assert(r@ =~= v@.subrange(0, i as int));
    }
    assert(r@ =~= v@);
    r
}

impl FuncType {
    /// A copy of this signature.
    pub fn duplicate(&self) -> (r: FuncType)
        ensures
            r@ == self@,
    {
        FuncType { parameters: copy_valtypes(&self.parameters), results: copy_valtypes(&self.results) }
    }
}

} // verus!
