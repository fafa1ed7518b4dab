//! Value types and runtime values.
use vstd::prelude::*;

verus! {

/// Value types of the WebAssembly binary format.
#[derive(Debug, Clone, Copy, PartialEq, Eq, Structural)]
pub enum ValType {
    I32,
    I64,
    F32,
    F64,
    V128,
    /// Any reference type.
    Ref,
}

/// A runtime value. A double is kept as its IEEE-754 bit pattern; floating-point
/// arithmetic on it happens outside this library.
#[derive(Debug, Clone, Copy, PartialEq, Eq, Structural)]
pub enum WasmValue {
    I32(i32),
    F64(u64),
}

/// The value a local of type `t` starts with, for the types the VM supports.
pub open spec fn spec_default_value(t: ValType) -> Option<WasmValue> {
    match t {
        ValType::I32 => Some(WasmValue::I32(0)),
        ValType::F64 => Some(WasmValue::F64(0)),
        _ => None,
    }
}

impl WasmValue {
    /// The integer of an `I32` value.
    pub fn as_i32(&self) -> (res: i32)
        requires
            *self is I32,
        ensures
            *self == WasmValue::I32(res),
    {
        match self {
            WasmValue::I32(val) => *val,
            WasmValue::F64(_) => 0,
        }
    }

    /// The bits of an `F64` value.
    pub fn as_f64(&self) -> (res: u64)
        requires
            *self is F64,
        ensures
            *self == WasmValue::F64(res),
    {
        match self {
            WasmValue::F64(val) => *val,
            WasmValue::I32(_) => 0,
        }
    }

    /// Zero of the given type; only `i32` and `f64` are supported.
    pub fn default_value(value_type: &ValType) -> (res: WasmValue)
        requires
            spec_default_value(*value_type) is Some,
        ensures
            spec_default_value(*value_type) == Some(res),
    {
        match value_type {
            ValType::F64 => WasmValue::F64(0),
            _ => WasmValue::I32(0),
        }
    }
}

} // verus!
