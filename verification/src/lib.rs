//! A small WebAssembly virtual machine: a binary-module decoder, a stack
//! interpreter and the register-allocation and frame-layout logic of an x86-64
//! JIT back end.
use vstd::prelude::*;

pub mod jit;
pub mod module;
pub mod vm;

verus! {

/// Size in bytes of one page of WebAssembly linear memory.
pub const WASM_DEFAULT_PAGE_SIZE_BYTE: usize = 65536;

} // verus!
