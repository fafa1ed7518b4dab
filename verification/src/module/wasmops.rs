//! Opcodes of the WebAssembly instructions this virtual machine understands.
use vstd::prelude::*;

verus! {

pub const WASM_OP_UNREACHABLE: u32 = 0x00;
pub const WASM_OP_NOP: u32 = 0x01;
pub const WASM_OP_BLOCK: u32 = 0x02;
pub const WASM_OP_LOOP: u32 = 0x03;
pub const WASM_OP_IF: u32 = 0x04;
pub const WASM_OP_ELSE: u32 = 0x05;
pub const WASM_OP_END: u32 = 0x0B;
pub const WASM_OP_BR: u32 = 0x0C;
pub const WASM_OP_BR_IF: u32 = 0x0D;
pub const WASM_OP_BR_TABLE: u32 = 0x0E;
pub const WASM_OP_RETURN: u32 = 0x0F;
pub const WASM_OP_CALL: u32 = 0x10;
pub const WASM_OP_CALL_INDIRECT: u32 = 0x11;
pub const WASM_OP_DROP: u32 = 0x1A;
pub const WASM_OP_SELECT: u32 = 0x1B;
pub const WASM_OP_LOCAL_GET: u32 = 0x20;
pub const WASM_OP_LOCAL_SET: u32 = 0x21;
pub const WASM_OP_LOCAL_TEE: u32 = 0x22;
pub const WASM_OP_GLOBAL_GET: u32 = 0x23;
pub const WASM_OP_GLOBAL_SET: u32 = 0x24;
pub const WASM_OP_I32_LOAD: u32 = 0x28;
pub const WASM_OP_F64_LOAD: u32 = 0x2B;
pub const WASM_OP_I32_LOAD8_S: u32 = 0x2C;
pub const WASM_OP_I32_LOAD8_U: u32 = 0x2D;
pub const WASM_OP_I32_LOAD16_S: u32 = 0x2E;
pub const WASM_OP_I32_LOAD16_U: u32 = 0x2F;
pub const WASM_OP_I32_STORE: u32 = 0x36;
pub const WASM_OP_F64_STORE: u32 = 0x39;
pub const WASM_OP_I32_STORE8: u32 = 0x3A;
pub const WASM_OP_I32_STORE16: u32 = 0x3B;
pub const WASM_OP_MEMORY_SIZE: u32 = 0x3F;
pub const WASM_OP_MEMORY_GROW: u32 = 0x40;
pub const WASM_OP_I32_CONST: u32 = 0x41;
pub const WASM_OP_F64_CONST: u32 = 0x44;
pub const WASM_OP_I32_EQZ: u32 = 0x45;
pub const WASM_OP_I32_EQ: u32 = 0x46;
pub const WASM_OP_I32_NE: u32 = 0x47;
pub const WASM_OP_I32_LT_S: u32 = 0x48;
pub const WASM_OP_I32_LT_U: u32 = 0x49;
pub const WASM_OP_I32_GT_S: u32 = 0x4A;
pub const WASM_OP_I32_GT_U: u32 = 0x4B;
pub const WASM_OP_I32_LE_S: u32 = 0x4C;
pub const WASM_OP_I32_LE_U: u32 = 0x4D;
pub const WASM_OP_I32_GE_S: u32 = 0x4E;
pub const WASM_OP_I32_GE_U: u32 = 0x4F;
pub const WASM_OP_F64_EQ: u32 = 0x61;
pub const WASM_OP_F64_NE: u32 = 0x62;
pub const WASM_OP_F64_LT: u32 = 0x63;
pub const WASM_OP_F64_GT: u32 = 0x64;
pub const WASM_OP_F64_LE: u32 = 0x65;
pub const WASM_OP_F64_GE: u32 = 0x66;
pub const WASM_OP_I32_CLZ: u32 = 0x67;
pub const WASM_OP_I32_CTZ: u32 = 0x68;
pub const WASM_OP_I32_POPCNT: u32 = 0x69;
pub const WASM_OP_I32_ADD: u32 = 0x6A;
pub const WASM_OP_I32_SUB: u32 = 0x6B;
pub const WASM_OP_I32_MUL: u32 = 0x6C;
pub const WASM_OP_I32_DIV_S: u32 = 0x6D;
pub const WASM_OP_I32_DIV_U: u32 = 0x6E;
pub const WASM_OP_I32_REM_S: u32 = 0x6F;
pub const WASM_OP_I32_REM_U: u32 = 0x70;
pub const WASM_OP_I32_AND: u32 = 0x71;
pub const WASM_OP_I32_OR: u32 = 0x72;
pub const WASM_OP_I32_XOR: u32 = 0x73;
pub const WASM_OP_I32_SHL: u32 = 0x74;
pub const WASM_OP_I32_SHR_S: u32 = 0x75;
pub const WASM_OP_I32_SHR_U: u32 = 0x76;
pub const WASM_OP_I32_ROTL: u32 = 0x77;
pub const WASM_OP_I32_ROTR: u32 = 0x78;
pub const WASM_OP_F64_ABS: u32 = 0x99;
pub const WASM_OP_F64_NEG: u32 = 0x9A;
pub const WASM_OP_F64_CEIL: u32 = 0x9B;
pub const WASM_OP_F64_FLOOR: u32 = 0x9C;
pub const WASM_OP_F64_TRUNC: u32 = 0x9D;
pub const WASM_OP_F64_NEAREST: u32 = 0x9E;
pub const WASM_OP_F64_SQRT: u32 = 0x9F;
pub const WASM_OP_F64_ADD: u32 = 0xA0;
pub const WASM_OP_F64_SUB: u32 = 0xA1;
pub const WASM_OP_F64_MUL: u32 = 0xA2;
pub const WASM_OP_F64_DIV: u32 = 0xA3;
pub const WASM_OP_F64_MIN: u32 = 0xA4;
pub const WASM_OP_F64_MAX: u32 = 0xA5;
pub const WASM_OP_I32_TRUNC_F64_S: u32 = 0xAA;
pub const WASM_OP_I32_TRUNC_F64_U: u32 = 0xAB;
pub const WASM_OP_F64_CONVERT_I32_S: u32 = 0xB7;
pub const WASM_OP_F64_CONVERT_I32_U: u32 = 0xB8;
pub const WASM_OP_I32_EXTEND8_S: u32 = 0xC0;
pub const WASM_OP_I32_EXTEND16_S: u32 = 0xC1;

} // verus!
