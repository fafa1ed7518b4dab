//! WebAssembly modules: value types, instructions and their binary decoding.
pub mod components;
pub mod decls;
pub mod insts;
pub mod opcodes;
pub mod parse;
pub mod reader;
pub mod value_type;
pub mod wasm_module;
pub mod wasmops;
