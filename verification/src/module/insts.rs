//! The instruction set of the virtual machine and its decoding from the
//! bytes of a function body.
use vstd::prelude::*;

use super::reader::{
    read_f64_bits_at, read_u8_at, read_valtype_at, read_var_i32_at, read_var_s33_at,
    read_var_u32_at, spec_read_u64_le, spec_read_var_i32, spec_read_var_s33, spec_read_var_u32,
    wasm_read_valtype, DecodeError,
};
use super::value_type::ValType;
use super::wasmops as ops;

verus! {

#[derive(Debug, PartialEq)]
pub struct BrTable {
    pub targets: Vec<u32>,
    pub default_target: u32,
}

#[derive(Debug, Clone, Copy, PartialEq, Eq, Structural)]
pub struct MemArg {
    pub offset: u32,
    pub align: u32,
}

#[derive(Debug, Clone, Copy, PartialEq, Eq, Structural)]
pub enum I32Unop {
    Eqz,
    Clz,
    Ctz,
    Popcnt,
    Extend8S,
    Extend16S,
    F64ConvertI32S,
    F64ConvertI32U,
}

#[derive(Debug, Clone, Copy, PartialEq, Eq, Structural)]
pub enum I32Binop {
    Eq,
    Ne,
    LtS,
    LtU,
    GtS,
    GtU,
    LeS,
    LeU,
    GeS,
    GeU,
    Add,
    Sub,
    Mul,
    DivS,
    DivU,
    RemS,
    RemU,
    And,
    Or,
    Xor,
    Shl,
    ShrS,
    ShrU,
    Rotl,
    Rotr,
}

#[derive(Debug, Clone, Copy, PartialEq, Eq, Structural)]
pub enum F64Unop {
    Abs,
    Neg,
    Ceil,
    Floor,
    Trunc,
    Nearest,
    Sqrt,
    I32TruncF64S,
    I32TruncF64U,
}

#[derive(Debug, Clone, Copy, PartialEq, Eq, Structural)]
pub enum F64Binop {
    Eq,
    Ne,
    Lt,
    Gt,
    Le,
    Ge,
    Add,
    Sub,
    Mul,
    Div,
    Min,
    Max,
}

/// The type of a structured control instruction.
#[derive(Debug, Clone, Copy, PartialEq, Eq, Structural)]
pub enum BlockType {
    Empty,
    Type(ValType),
    FuncType(u32),
}

#[derive(Debug, PartialEq)]
pub enum Instruction {
    Unreachable,
    Nop,
    // control flow
    Block { ty: BlockType },
    Loop { ty: BlockType },
    If { ty: BlockType },
    Else,
    End,
    Br { rel_depth: u32 },
    BrIf { rel_depth: u32 },
    BrTable { table: BrTable },
    Return,
    Call { func_idx: u32 },
    CallIndirect { type_index: u32, table_index: u32 },
    // variable
    Drop,
    Select,
    LocalGet { local_idx: u32 },
    LocalSet { local_idx: u32 },
    LocalTee { local_idx: u32 },
    GlobalGet { global_idx: u32 },
    GlobalSet { global_idx: u32 },
    // memory
    I32Load { memarg: MemArg },
    F64Load { memarg: MemArg },
    I32Load8S { memarg: MemArg },
    I32Load8U { memarg: MemArg },
    I32Load16S { memarg: MemArg },
    I32Load16U { memarg: MemArg },
    I32Store { memarg: MemArg },
    F64Store { memarg: MemArg },
    I32Store8 { memarg: MemArg },
    I32Store16 { memarg: MemArg },
    MemorySize { mem: u32 },
    MemoryGrow { mem: u32 },
    I32Const { value: i32 },
    /// The constant's IEEE-754 bits.
    F64Const { value: u64 },
    // arithmetic
    I32Unop(I32Unop),
    I32Binop(I32Binop),
    F64Unop(F64Unop),
    F64Binop(F64Binop),
}

/// An instruction as a mathematical value: a branch table with its targets as
/// a sequence, every other instruction as itself.
pub enum InstView {
    BrTable { targets: Seq<u32>, default_target: u32 },
    Plain(Instruction),
}

impl View for Instruction {
    type V = InstView;

    open spec fn view(&self) -> InstView {
        match self {
            Instruction::BrTable { table } => InstView::BrTable {
                targets: table.targets@,
                default_target: table.default_target,
            },
            _ => InstView::Plain(*self),
        }
    }
}

/// The views of a sequence of instructions.
pub open spec fn insts_view(v: Seq<Instruction>) -> Seq<InstView> {
    v.map_values(|i: Instruction| i@)
}

/// Whether the instruction opens a structured block.
pub open spec fn spec_is_block_start(i: InstView) -> bool {
    match i {
        InstView::Plain(Instruction::Block { .. }) => true,
        InstView::Plain(Instruction::Loop { .. }) => true,
        InstView::Plain(Instruction::If { .. }) => true,
        _ => false,
    }
}

/// Whether the instruction closes a structured block.
pub open spec fn spec_is_block_end(i: InstView) -> bool {
    i == InstView::Plain(Instruction::End)
}

/// Whether the instruction is `else`.
pub open spec fn spec_is_else(i: InstView) -> bool {
    i == InstView::Plain(Instruction::Else)
}

/// Instructions of a single opcode byte and no immediate.
pub open spec fn spec_simple_inst(op: u32) -> Option<Instruction> {
    if op == ops::WASM_OP_UNREACHABLE { Some(Instruction::Unreachable) }
    else if op == ops::WASM_OP_NOP { Some(Instruction::Nop) }
    else if op == ops::WASM_OP_ELSE { Some(Instruction::Else) }
    else if op == ops::WASM_OP_END { Some(Instruction::End) }
    else if op == ops::WASM_OP_RETURN { Some(Instruction::Return) }
    else if op == ops::WASM_OP_DROP { Some(Instruction::Drop) }
    else if op == ops::WASM_OP_SELECT { Some(Instruction::Select) }
    else if op == ops::WASM_OP_I32_EQZ { Some(Instruction::I32Unop(I32Unop::Eqz)) }
    else if op == ops::WASM_OP_I32_EQ { Some(Instruction::I32Binop(I32Binop::Eq)) }
    else if op == ops::WASM_OP_I32_NE { Some(Instruction::I32Binop(I32Binop::Ne)) }
    else if op == ops::WASM_OP_I32_LT_S { Some(Instruction::I32Binop(I32Binop::LtS)) }
    else if op == ops::WASM_OP_I32_LT_U { Some(Instruction::I32Binop(I32Binop::LtU)) }
    else if op == ops::WASM_OP_I32_GT_S { Some(Instruction::I32Binop(I32Binop::GtS)) }
    else if op == ops::WASM_OP_I32_GT_U { Some(Instruction::I32Binop(I32Binop::GtU)) }
    else if op == ops::WASM_OP_I32_LE_S { Some(Instruction::I32Binop(I32Binop::LeS)) }
    else if op == ops::WASM_OP_I32_LE_U { Some(Instruction::I32Binop(I32Binop::LeU)) }
    else if op == ops::WASM_OP_I32_GE_S { Some(Instruction::I32Binop(I32Binop::GeS)) }
    else if op == ops::WASM_OP_I32_GE_U { Some(Instruction::I32Binop(I32Binop::GeU)) }
    else if op == ops::WASM_OP_F64_EQ { Some(Instruction::F64Binop(F64Binop::Eq)) }
    else if op == ops::WASM_OP_F64_NE { Some(Instruction::F64Binop(F64Binop::Ne)) }
    else if op == ops::WASM_OP_F64_LT { Some(Instruction::F64Binop(F64Binop::Lt)) }
    else if op == ops::WASM_OP_F64_GT { Some(Instruction::F64Binop(F64Binop::Gt)) }
    else if op == ops::WASM_OP_F64_LE { Some(Instruction::F64Binop(F64Binop::Le)) }
    else if op == ops::WASM_OP_F64_GE { Some(Instruction::F64Binop(F64Binop::Ge)) }
    else if op == ops::WASM_OP_I32_CLZ { Some(Instruction::I32Unop(I32Unop::Clz)) }
    else if op == ops::WASM_OP_I32_CTZ { Some(Instruction::I32Unop(I32Unop::Ctz)) }
    else if op == ops::WASM_OP_I32_POPCNT { Some(Instruction::I32Unop(I32Unop::Popcnt)) }
    else if op == ops::WASM_OP_I32_ADD { Some(Instruction::I32Binop(I32Binop::Add)) }
    else if op == ops::WASM_OP_I32_SUB { Some(Instruction::I32Binop(I32Binop::Sub)) }
    else if op == ops::WASM_OP_I32_MUL { Some(Instruction::I32Binop(I32Binop::Mul)) }
    else if op == ops::WASM_OP_I32_DIV_S { Some(Instruction::I32Binop(I32Binop::DivS)) }
    else if op == ops::WASM_OP_I32_DIV_U { Some(Instruction::I32Binop(I32Binop::DivU)) }
    else if op == ops::WASM_OP_I32_REM_S { Some(Instruction::I32Binop(I32Binop::RemS)) }
    else if op == ops::WASM_OP_I32_REM_U { Some(Instruction::I32Binop(I32Binop::RemU)) }
    else if op == ops::WASM_OP_I32_AND { Some(Instruction::I32Binop(I32Binop::And)) }
    else if op == ops::WASM_OP_I32_OR { Some(Instruction::I32Binop(I32Binop::Or)) }
    else if op == ops::WASM_OP_I32_XOR { Some(Instruction::I32Binop(I32Binop::Xor)) }
    else if op == ops::WASM_OP_I32_SHL { Some(Instruction::I32Binop(I32Binop::Shl)) }
    else if op == ops::WASM_OP_I32_SHR_S { Some(Instruction::I32Binop(I32Binop::ShrS)) }
    else if op == ops::WASM_OP_I32_SHR_U { Some(Instruction::I32Binop(I32Binop::ShrU)) }
    else if op == ops::WASM_OP_I32_ROTL { Some(Instruction::I32Binop(I32Binop::Rotl)) }
    else if op == ops::WASM_OP_I32_ROTR { Some(Instruction::I32Binop(I32Binop::Rotr)) }
    else if op == ops::WASM_OP_F64_ABS { Some(Instruction::F64Unop(F64Unop::Abs)) }
    else if op == ops::WASM_OP_F64_NEG { Some(Instruction::F64Unop(F64Unop::Neg)) }
    else if op == ops::WASM_OP_F64_CEIL { Some(Instruction::F64Unop(F64Unop::Ceil)) }
    else if op == ops::WASM_OP_F64_FLOOR { Some(Instruction::F64Unop(F64Unop::Floor)) }
    else if op == ops::WASM_OP_F64_TRUNC { Some(Instruction::F64Unop(F64Unop::Trunc)) }
    else if op == ops::WASM_OP_F64_NEAREST { Some(Instruction::F64Unop(F64Unop::Nearest)) }
    else if op == ops::WASM_OP_F64_SQRT { Some(Instruction::F64Unop(F64Unop::Sqrt)) }
    else if op == ops::WASM_OP_F64_ADD { Some(Instruction::F64Binop(F64Binop::Add)) }
    else if op == ops::WASM_OP_F64_SUB { Some(Instruction::F64Binop(F64Binop::Sub)) }
    else if op == ops::WASM_OP_F64_MUL { Some(Instruction::F64Binop(F64Binop::Mul)) }
    else if op == ops::WASM_OP_F64_DIV { Some(Instruction::F64Binop(F64Binop::Div)) }
    else if op == ops::WASM_OP_F64_MIN { Some(Instruction::F64Binop(F64Binop::Min)) }
    else if op == ops::WASM_OP_F64_MAX { Some(Instruction::F64Binop(F64Binop::Max)) }
    else if op == ops::WASM_OP_I32_TRUNC_F64_S { Some(Instruction::F64Unop(F64Unop::I32TruncF64S)) }
    else if op == ops::WASM_OP_I32_TRUNC_F64_U { Some(Instruction::F64Unop(F64Unop::I32TruncF64U)) }
    else if op == ops::WASM_OP_F64_CONVERT_I32_S { Some(Instruction::I32Unop(I32Unop::F64ConvertI32S)) }
    else if op == ops::WASM_OP_F64_CONVERT_I32_U { Some(Instruction::I32Unop(I32Unop::F64ConvertI32U)) }
    else if op == ops::WASM_OP_I32_EXTEND8_S { Some(Instruction::I32Unop(I32Unop::Extend8S)) }
    else if op == ops::WASM_OP_I32_EXTEND16_S { Some(Instruction::I32Unop(I32Unop::Extend16S)) }
    else { None }
}

/// Instructions whose immediate is one `u32` index.
pub open spec fn spec_index_inst(op: u32, x: u32) -> Option<Instruction> {
    if op == ops::WASM_OP_BR { Some(Instruction::Br { rel_depth: x }) }
    else if op == ops::WASM_OP_BR_IF { Some(Instruction::BrIf { rel_depth: x }) }
    else if op == ops::WASM_OP_CALL { Some(Instruction::Call { func_idx: x }) }
    else if op == ops::WASM_OP_LOCAL_GET { Some(Instruction::LocalGet { local_idx: x }) }
    else if op == ops::WASM_OP_LOCAL_SET { Some(Instruction::LocalSet { local_idx: x }) }
    else if op == ops::WASM_OP_LOCAL_TEE { Some(Instruction::LocalTee { local_idx: x }) }
    else if op == ops::WASM_OP_GLOBAL_GET { Some(Instruction::GlobalGet { global_idx: x }) }
    else if op == ops::WASM_OP_GLOBAL_SET { Some(Instruction::GlobalSet { global_idx: x }) }
    else if op == ops::WASM_OP_MEMORY_SIZE { Some(Instruction::MemorySize { mem: x }) }
    else if op == ops::WASM_OP_MEMORY_GROW { Some(Instruction::MemoryGrow { mem: x }) }
    else { None }
}

/// Instructions whose immediate is a memory argument.
pub open spec fn spec_memarg_inst(op: u32, memarg: MemArg) -> Option<Instruction> {
    if op == ops::WASM_OP_I32_LOAD { Some(Instruction::I32Load { memarg }) }
    else if op == ops::WASM_OP_F64_LOAD { Some(Instruction::F64Load { memarg }) }
    else if op == ops::WASM_OP_I32_LOAD8_S { Some(Instruction::I32Load8S { memarg }) }
    else if op == ops::WASM_OP_I32_LOAD8_U { Some(Instruction::I32Load8U { memarg }) }
    else if op == ops::WASM_OP_I32_LOAD16_S { Some(Instruction::I32Load16S { memarg }) }
    else if op == ops::WASM_OP_I32_LOAD16_U { Some(Instruction::I32Load16U { memarg }) }
    else if op == ops::WASM_OP_I32_STORE { Some(Instruction::I32Store { memarg }) }
    else if op == ops::WASM_OP_F64_STORE { Some(Instruction::F64Store { memarg }) }
    else if op == ops::WASM_OP_I32_STORE8 { Some(Instruction::I32Store8 { memarg }) }
    else if op == ops::WASM_OP_I32_STORE16 { Some(Instruction::I32Store16 { memarg }) }
    else { None }
}

/// Instructions whose immediate is a block type.
pub open spec fn spec_block_inst(op: u32, ty: BlockType) -> Option<Instruction> {
    if op == ops::WASM_OP_BLOCK { Some(Instruction::Block { ty }) }
    else if op == ops::WASM_OP_LOOP { Some(Instruction::Loop { ty }) }
    else if op == ops::WASM_OP_IF { Some(Instruction::If { ty }) }
    else { None }
}

/// Reading a block type: `0x40` is the empty type, another byte in
/// `0x41..0x80` starts a value type, anything else is a signed 33-bit type index.
pub open spec fn spec_read_block_type(s: Seq<u8>) -> Result<(BlockType, nat), DecodeError> {
    if s.len() == 0 {
        Err(DecodeError::Malformed)
    } else if 0x40 <= s[0] < 0x80 {
        if s[0] == 0x40 {
            Ok((BlockType::Empty, 1))
        } else {
            match wasm_read_valtype(s) {
                Some((t, n)) => Ok((BlockType::Type(t), n)),
                None => Err(DecodeError::Malformed),
            }
        }
    } else {
        match spec_read_var_s33(s) {
            Some((x, n)) => if 0 <= x <= u32::MAX {
                Ok((BlockType::FuncType(x as u32), n))
            } else {
                Err(DecodeError::BlockTypeOutOfRange)
            },
            None => Err(DecodeError::Malformed),
        }
    }
}

/// Reading `count` consecutive `u32` numbers.
pub open spec fn spec_read_u32_seq(s: Seq<u8>, count: nat) -> Option<(Seq<u32>, nat)>
    decreases count,
{
    if count == 0 {
        Some((Seq::empty(), 0))
    } else {
        match spec_read_var_u32(s) {
            Some((x, n)) => match spec_read_u32_seq(s.skip(n as int), (count - 1) as nat) {
                Some((r, m)) => Some((seq![x] + r, n + m)),
                None => None,
            },
            None => None,
        }
    }
}

/// Reading a branch table: a count, that many targets, then the default target.
pub open spec fn spec_read_br_table(s: Seq<u8>) -> Option<(InstView, nat)> {
    match spec_read_var_u32(s) {
        Some((c, n1)) => match spec_read_u32_seq(s.skip(n1 as int), c as nat) {
            Some((ts, n2)) => match spec_read_var_u32(s.skip((n1 + n2) as int)) {
                Some((d, n3)) => Some((InstView::BrTable { targets: ts, default_target: d }, n1 + n2 + n3)),
                None => None,
            },
            None => None,
        },
        None => None,
    }
}

/// Reading a memory argument: the alignment, then the offset.
pub open spec fn spec_read_memarg(s: Seq<u8>) -> Option<(MemArg, nat)> {
    match spec_read_var_u32(s) {
        Some((align, n1)) => match spec_read_var_u32(s.skip(n1 as int)) {
            Some((offset, n2)) => Some((MemArg { offset, align }, n1 + n2)),
            None => None,
        },
        None => None,
    }
}

/// Turns a failed read into the decoding error `Malformed`.
pub open spec fn or_malformed<T>(r: Option<(T, nat)>) -> Result<(T, nat), DecodeError> {
    match r {
        Some(x) => Ok(x),
        None => Err(DecodeError::Malformed),
    }
}

/// Decoding the instruction that starts `s`: the instruction and the number
/// of bytes it takes.
pub open spec fn spec_decode_inst(s: Seq<u8>) -> Result<(InstView, nat), DecodeError> {
    if s.len() == 0 {
        Err(DecodeError::Malformed)
    } else {
        let op = s[0] as u32;
        let rest = s.skip(1);
        if spec_simple_inst(op) is Some {
            Ok((InstView::Plain(spec_simple_inst(op).unwrap()), 1))
        } else if spec_index_inst(op, 0) is Some {
            match spec_read_var_u32(rest) {
                Some((x, n)) => Ok((InstView::Plain(spec_index_inst(op, x).unwrap()), n + 1)),
                None => Err(DecodeError::Malformed),
            }
        } else if spec_memarg_inst(op, MemArg { offset: 0, align: 0 }) is Some {
            match spec_read_memarg(rest) {
                Some((m, n)) => Ok((InstView::Plain(spec_memarg_inst(op, m).unwrap()), n + 1)),
                None => Err(DecodeError::Malformed),
            }
        } else if spec_block_inst(op, BlockType::Empty) is Some {
            match spec_read_block_type(rest) {
                Ok((ty, n)) => Ok((InstView::Plain(spec_block_inst(op, ty).unwrap()), n + 1)),
                Err(e) => Err(e),
            }
        } else if op == ops::WASM_OP_BR_TABLE {
            match spec_read_br_table(rest) {
                Some((t, n)) => Ok((t, n + 1)),
                None => Err(DecodeError::Malformed),
            }
        } else if op == ops::WASM_OP_CALL_INDIRECT {
            match spec_read_var_u32(rest) {
                Some((ti, n1)) => match spec_read_var_u32(rest.skip(n1 as int)) {
                    Some((tb, n2)) => Ok((
                        InstView::Plain(Instruction::CallIndirect { type_index: ti, table_index: tb }),
                        n1 + n2 + 1,
                    )),
                    None => Err(DecodeError::Malformed),
                },
                None => Err(DecodeError::Malformed),
            }
        } else if op == ops::WASM_OP_I32_CONST {
            match spec_read_var_i32(rest) {
                Some((v, n)) => Ok((InstView::Plain(Instruction::I32Const { value: v }), n + 1)),
                None => Err(DecodeError::Malformed),
            }
        } else if op == ops::WASM_OP_F64_CONST {
            match spec_read_u64_le(rest) {
                Some((v, n)) => Ok((InstView::Plain(Instruction::F64Const { value: v }), n + 1)),
                None => Err(DecodeError::Malformed),
            }
        } else {
            Err(DecodeError::UnsupportedOpcode(op))
        }
    }
}

/// Decoding a whole instruction sequence, front to back, stopping at the first error.
pub open spec fn spec_decode_code(s: Seq<u8>) -> Result<Seq<InstView>, DecodeError>
    decreases s.len(),
{
    if s.len() == 0 {
        Ok(Seq::empty())
    } else {
        match spec_decode_inst(s) {
            Ok((i, n)) => if 1 <= n <= s.len() {
                match spec_decode_code(s.skip(n as int)) {
                    Ok(r) => Ok(seq![i] + r),
                    Err(e) => Err(e),
                }
            } else {
                Err(DecodeError::Malformed)
            },
            Err(e) => Err(e),
        }
    }
}

fn simple_inst(op: u32) -> (res: Option<Instruction>)
    ensures
        res == spec_simple_inst(op),
{
    if op == ops::WASM_OP_UNREACHABLE { Some(Instruction::Unreachable) }
    else if op == ops::WASM_OP_NOP { Some(Instruction::Nop) }
    else if op == ops::WASM_OP_ELSE { Some(Instruction::Else) }
    else if op == ops::WASM_OP_END { Some(Instruction::End) }
    else if op == ops::WASM_OP_RETURN { Some(Instruction::Return) }
    else if op == ops::WASM_OP_DROP { Some(Instruction::Drop) }
    else if op == ops::WASM_OP_SELECT { Some(Instruction::Select) }
    else if op == ops::WASM_OP_I32_EQZ { Some(Instruction::I32Unop(I32Unop::Eqz)) }
    else if op == ops::WASM_OP_I32_EQ { Some(Instruction::I32Binop(I32Binop::Eq)) }
    else if op == ops::WASM_OP_I32_NE { Some(Instruction::I32Binop(I32Binop::Ne)) }
    else if op == ops::WASM_OP_I32_LT_S { Some(Instruction::I32Binop(I32Binop::LtS)) }
    else if op == ops::WASM_OP_I32_LT_U { Some(Instruction::I32Binop(I32Binop::LtU)) }
    else if op == ops::WASM_OP_I32_GT_S { Some(Instruction::I32Binop(I32Binop::GtS)) }
    else if op == ops::WASM_OP_I32_GT_U { Some(Instruction::I32Binop(I32Binop::GtU)) }
    else if op == ops::WASM_OP_I32_LE_S { Some(Instruction::I32Binop(I32Binop::LeS)) }
    else if op == ops::WASM_OP_I32_LE_U { Some(Instruction::I32Binop(I32Binop::LeU)) }
    else if op == ops::WASM_OP_I32_GE_S { Some(Instruction::I32Binop(I32Binop::GeS)) }
    else if op == ops::WASM_OP_I32_GE_U { Some(Instruction::I32Binop(I32Binop::GeU)) }
    else if op == ops::WASM_OP_F64_EQ { Some(Instruction::F64Binop(F64Binop::Eq)) }
    else if op == ops::WASM_OP_F64_NE { Some(Instruction::F64Binop(F64Binop::Ne)) }
    else if op == ops::WASM_OP_F64_LT { Some(Instruction::F64Binop(F64Binop::Lt)) }
    else if op == ops::WASM_OP_F64_GT { Some(Instruction::F64Binop(F64Binop::Gt)) }
    else if op == ops::WASM_OP_F64_LE { Some(Instruction::F64Binop(F64Binop::Le)) }
    else if op == ops::WASM_OP_F64_GE { Some(Instruction::F64Binop(F64Binop::Ge)) }
    else if op == ops::WASM_OP_I32_CLZ { Some(Instruction::I32Unop(I32Unop::Clz)) }
    else if op == ops::WASM_OP_I32_CTZ { Some(Instruction::I32Unop(I32Unop::Ctz)) }
    else if op == ops::WASM_OP_I32_POPCNT { Some(Instruction::I32Unop(I32Unop::Popcnt)) }
    else if op == ops::WASM_OP_I32_ADD { Some(Instruction::I32Binop(I32Binop::Add)) }
    else if op == ops::WASM_OP_I32_SUB { Some(Instruction::I32Binop(I32Binop::Sub)) }
    else if op == ops::WASM_OP_I32_MUL { Some(Instruction::I32Binop(I32Binop::Mul)) }
    else if op == ops::WASM_OP_I32_DIV_S { Some(Instruction::I32Binop(I32Binop::DivS)) }
    else if op == ops::WASM_OP_I32_DIV_U { Some(Instruction::I32Binop(I32Binop::DivU)) }
    else if op == ops::WASM_OP_I32_REM_S { Some(Instruction::I32Binop(I32Binop::RemS)) }
    else if op == ops::WASM_OP_I32_REM_U { Some(Instruction::I32Binop(I32Binop::RemU)) }
    else if op == ops::WASM_OP_I32_AND { Some(Instruction::I32Binop(I32Binop::And)) }
    else if op == ops::WASM_OP_I32_OR { Some(Instruction::I32Binop(I32Binop::Or)) }
    else if op == ops::WASM_OP_I32_XOR { Some(Instruction::I32Binop(I32Binop::Xor)) }
    else if op == ops::WASM_OP_I32_SHL { Some(Instruction::I32Binop(I32Binop::Shl)) }
    else if op == ops::WASM_OP_I32_SHR_S { Some(Instruction::I32Binop(I32Binop::ShrS)) }
    else if op == ops::WASM_OP_I32_SHR_U { Some(Instruction::I32Binop(I32Binop::ShrU)) }
    else if op == ops::WASM_OP_I32_ROTL { Some(Instruction::I32Binop(I32Binop::Rotl)) }
    else if op == ops::WASM_OP_I32_ROTR { Some(Instruction::I32Binop(I32Binop::Rotr)) }
    else if op == ops::WASM_OP_F64_ABS { Some(Instruction::F64Unop(F64Unop::Abs)) }
    else if op == ops::WASM_OP_F64_NEG { Some(Instruction::F64Unop(F64Unop::Neg)) }
    else if op == ops::WASM_OP_F64_CEIL { Some(Instruction::F64Unop(F64Unop::Ceil)) }
    else if op == ops::WASM_OP_F64_FLOOR { Some(Instruction::F64Unop(F64Unop::Floor)) }
    else if op == ops::WASM_OP_F64_TRUNC { Some(Instruction::F64Unop(F64Unop::Trunc)) }
    else if op == ops::WASM_OP_F64_NEAREST { Some(Instruction::F64Unop(F64Unop::Nearest)) }
    else if op == ops::WASM_OP_F64_SQRT { Some(Instruction::F64Unop(F64Unop::Sqrt)) }
    else if op == ops::WASM_OP_F64_ADD { Some(Instruction::F64Binop(F64Binop::Add)) }
    else if op == ops::WASM_OP_F64_SUB { Some(Instruction::F64Binop(F64Binop::Sub)) }
    else if op == ops::WASM_OP_F64_MUL { Some(Instruction::F64Binop(F64Binop::Mul)) }
    else if op == ops::WASM_OP_F64_DIV { Some(Instruction::F64Binop(F64Binop::Div)) }
    else if op == ops::WASM_OP_F64_MIN { Some(Instruction::F64Binop(F64Binop::Min)) }
    else if op == ops::WASM_OP_F64_MAX { Some(Instruction::F64Binop(F64Binop::Max)) }
    else if op == ops::WASM_OP_I32_TRUNC_F64_S { Some(Instruction::F64Unop(F64Unop::I32TruncF64S)) }
    else if op == ops::WASM_OP_I32_TRUNC_F64_U { Some(Instruction::F64Unop(F64Unop::I32TruncF64U)) }
    else if op == ops::WASM_OP_F64_CONVERT_I32_S { Some(Instruction::I32Unop(I32Unop::F64ConvertI32S)) }
    else if op == ops::WASM_OP_F64_CONVERT_I32_U { Some(Instruction::I32Unop(I32Unop::F64ConvertI32U)) }
    else if op == ops::WASM_OP_I32_EXTEND8_S { Some(Instruction::I32Unop(I32Unop::Extend8S)) }
    else if op == ops::WASM_OP_I32_EXTEND16_S { Some(Instruction::I32Unop(I32Unop::Extend16S)) }
    else { None }
}

fn index_inst(op: u32, x: u32) -> (res: Option<Instruction>)
    ensures
        res == spec_index_inst(op, x),
{
    if op == ops::WASM_OP_BR { Some(Instruction::Br { rel_depth: x }) }
    else if op == ops::WASM_OP_BR_IF { Some(Instruction::BrIf { rel_depth: x }) }
    else if op == ops::WASM_OP_CALL { Some(Instruction::Call { func_idx: x }) }
    else if op == ops::WASM_OP_LOCAL_GET { Some(Instruction::LocalGet { local_idx: x }) }
    else if op == ops::WASM_OP_LOCAL_SET { Some(Instruction::LocalSet { local_idx: x }) }
    else if op == ops::WASM_OP_LOCAL_TEE { Some(Instruction::LocalTee { local_idx: x }) }
    else if op == ops::WASM_OP_GLOBAL_GET { Some(Instruction::GlobalGet { global_idx: x }) }
    else if op == ops::WASM_OP_GLOBAL_SET { Some(Instruction::GlobalSet { global_idx: x }) }
    else if op == ops::WASM_OP_MEMORY_SIZE { Some(Instruction::MemorySize { mem: x }) }
    else if op == ops::WASM_OP_MEMORY_GROW { Some(Instruction::MemoryGrow { mem: x }) }
    else { None }
}

fn memarg_inst(op: u32, memarg: MemArg) -> (res: Option<Instruction>)
    ensures
        res == spec_memarg_inst(op, memarg),
{
    if op == ops::WASM_OP_I32_LOAD { Some(Instruction::I32Load { memarg }) }
    else if op == ops::WASM_OP_F64_LOAD { Some(Instruction::F64Load { memarg }) }
    else if op == ops::WASM_OP_I32_LOAD8_S { Some(Instruction::I32Load8S { memarg }) }
    else if op == ops::WASM_OP_I32_LOAD8_U { Some(Instruction::I32Load8U { memarg }) }
    else if op == ops::WASM_OP_I32_LOAD16_S { Some(Instruction::I32Load16S { memarg }) }
    else if op == ops::WASM_OP_I32_LOAD16_U { Some(Instruction::I32Load16U { memarg }) }
    else if op == ops::WASM_OP_I32_STORE { Some(Instruction::I32Store { memarg }) }
    else if op == ops::WASM_OP_F64_STORE { Some(Instruction::F64Store { memarg }) }
    else if op == ops::WASM_OP_I32_STORE8 { Some(Instruction::I32Store8 { memarg }) }
    else if op == ops::WASM_OP_I32_STORE16 { Some(Instruction::I32Store16 { memarg }) }
    else { None }
}

fn block_inst(op: u32, ty: BlockType) -> (res: Option<Instruction>)
    ensures
        res == spec_block_inst(op, ty),
{
    if op == ops::WASM_OP_BLOCK { Some(Instruction::Block { ty }) }
    else if op == ops::WASM_OP_LOOP { Some(Instruction::Loop { ty }) }
    else if op == ops::WASM_OP_IF { Some(Instruction::If { ty }) }
    else { None }
}

impl Clone for BrTable {
    fn clone(&self) -> (res: Self)
        ensures
            res.targets@ == self.targets@,
            res.default_target == self.default_target,
    {
        let mut targets: Vec<u32> = Vec::new();
        let mut i: usize = 0;
        while i < self.targets.len()
            invariant
                i <= self.targets.len(),
                targets@ == self.targets@.subrange(0, i as int),
            decreases self.targets.len() - i,
        {
            targets.push(self.targets[i]);
            i += 1;
        }
        assert(targets@ == self.targets@);
        BrTable { targets, default_target: self.default_target }
    }
}

impl Clone for Instruction {
    fn clone(&self) -> (res: Self)
        ensures
            res@ == self@,
    {
        match self {
            Instruction::BrTable { table } => Instruction::BrTable { table: table.clone() },
            Instruction::Unreachable => Instruction::Unreachable,
            Instruction::Nop => Instruction::Nop,
            Instruction::Block { ty } => Instruction::Block { ty: *ty },
            Instruction::Loop { ty } => Instruction::Loop { ty: *ty },
            Instruction::If { ty } => Instruction::If { ty: *ty },
            Instruction::Else => Instruction::Else,
            Instruction::End => Instruction::End,
            Instruction::Br { rel_depth } => Instruction::Br { rel_depth: *rel_depth },
            Instruction::BrIf { rel_depth } => Instruction::BrIf { rel_depth: *rel_depth },
            Instruction::Return => Instruction::Return,
            Instruction::Call { func_idx } => Instruction::Call { func_idx: *func_idx },
            Instruction::CallIndirect { type_index, table_index } => Instruction::CallIndirect {
                type_index: *type_index,
                table_index: *table_index,
            },
            Instruction::Drop => Instruction::Drop,
            Instruction::Select => Instruction::Select,
            Instruction::LocalGet { local_idx } => Instruction::LocalGet { local_idx: *local_idx },
            Instruction::LocalSet { local_idx } => Instruction::LocalSet { local_idx: *local_idx },
            Instruction::LocalTee { local_idx } => Instruction::LocalTee { local_idx: *local_idx },
            Instruction::GlobalGet { global_idx } => Instruction::GlobalGet { global_idx: *global_idx },
            Instruction::GlobalSet { global_idx } => Instruction::GlobalSet { global_idx: *global_idx },
            Instruction::I32Load { memarg } => Instruction::I32Load { memarg: *memarg },
            Instruction::F64Load { memarg } => Instruction::F64Load { memarg: *memarg },
            Instruction::I32Load8S { memarg } => Instruction::I32Load8S { memarg: *memarg },
            Instruction::I32Load8U { memarg } => Instruction::I32Load8U { memarg: *memarg },
            Instruction::I32Load16S { memarg } => Instruction::I32Load16S { memarg: *memarg },
            Instruction::I32Load16U { memarg } => Instruction::I32Load16U { memarg: *memarg },
            Instruction::I32Store { memarg } => Instruction::I32Store { memarg: *memarg },
            Instruction::F64Store { memarg } => Instruction::F64Store { memarg: *memarg },
            Instruction::I32Store8 { memarg } => Instruction::I32Store8 { memarg: *memarg },
            Instruction::I32Store16 { memarg } => Instruction::I32Store16 { memarg: *memarg },
            Instruction::MemorySize { mem } => Instruction::MemorySize { mem: *mem },
            Instruction::MemoryGrow { mem } => Instruction::MemoryGrow { mem: *mem },
            Instruction::I32Const { value } => Instruction::I32Const { value: *value },
            Instruction::F64Const { value } => Instruction::F64Const { value: *value },
            Instruction::I32Unop(op) => Instruction::I32Unop(*op),
            Instruction::I32Binop(op) => Instruction::I32Binop(*op),
            Instruction::F64Unop(op) => Instruction::F64Unop(*op),
            Instruction::F64Binop(op) => Instruction::F64Binop(*op),
        }
    }
}

/// Prepends decoded instructions to the decoding of what follows them.
pub open spec fn prepend_decoded(
    done: Seq<InstView>,
    rest: Result<Seq<InstView>, DecodeError>,
) -> Result<Seq<InstView>, DecodeError> {
    match rest {
        Ok(r) => Ok(done + r),
        Err(e) => Err(e),
    }
}

proof fn lemma_prepend_decoded_assoc(
    a: Seq<InstView>,
    b: Seq<InstView>,
    r: Result<Seq<InstView>, DecodeError>,
)
    ensures
        prepend_decoded(a, prepend_decoded(b, r)) == prepend_decoded(a + b, r),
{
    if let Ok(x) = r {
        assert(a + (b + x) == (a + b) + x);
    }
}

/// The result of a decoding step at `pos` agrees with the decoding of the bytes from `pos` on.
pub open spec fn step_result<T>(
    res: Result<(T, usize), DecodeError>,
    spec: Result<(T, nat), DecodeError>,
) -> bool {
    match res {
        Ok((v, n)) => spec == Ok::<(T, nat), DecodeError>((v, n as nat)),
        Err(e) => spec == Err::<(T, nat), DecodeError>(e),
    }
}

impl Instruction {
    /// Decodes the instructions of a function body.
    pub fn from_code_bytes(code_bytes: Vec<u8>) -> (res: Result<Vec<Instruction>, DecodeError>)
        ensures
            match res {
                Ok(v) => spec_decode_code(code_bytes@) == Ok::<Seq<InstView>, DecodeError>(insts_view(v@)),
                Err(e) => spec_decode_code(code_bytes@) == Err::<Seq<InstView>, DecodeError>(e),
            },
    {
        let mut insts: Vec<Instruction> = Vec::new();
        let mut pos: usize = 0;
        let ghost s = code_bytes@;
        assert(s.skip(0) == s);
        while pos < code_bytes.len()
            invariant
                pos <= code_bytes.len(),
                s == code_bytes@,
                spec_decode_code(s) == prepend_decoded(insts_view(insts@), spec_decode_code(s.skip(pos as int))),
            decreases code_bytes.len() - pos,
        {
            let ghost before = insts@;
            match Self::decode_one(&code_bytes, pos) {
                Ok((inst, n)) => {
                    proof {
                        assert(s.skip(pos as int).skip(n as int) == s.skip(pos + n));
                        assert(spec_decode_code(s.skip(pos as int)) == prepend_decoded(
                            seq![inst@],
                            spec_decode_code(s.skip(pos + n)),
                        ));
                        lemma_prepend_decoded_assoc(insts_view(before), seq![inst@], spec_decode_code(s.skip(pos + n)));
                    }
                    insts.push(inst);
                    assert(insts_view(insts@) == insts_view(before) + seq![inst@]);
                    pos = pos + n;
                },
                Err(e) => {
                    return Err(e);
                },
            }
        }
        assert(s.skip(pos as int).len() == 0);
        assert(insts_view(insts@) + Seq::<InstView>::empty() == insts_view(insts@));
        Ok(insts)
    }

    /// Decodes the instruction at `pos`.
    fn decode_one(bytes: &Vec<u8>, pos: usize) -> (res: Result<(Instruction, usize), DecodeError>)
        requires
            pos < bytes@.len(),
        ensures
            match res {
                Ok((i, n)) => spec_decode_inst(bytes@.skip(pos as int)) == Ok::<(InstView, nat), DecodeError>((i@, n as nat))
                    && 1 <= n <= bytes@.len() - pos,
                Err(e) => spec_decode_inst(bytes@.skip(pos as int)) == Err::<(InstView, nat), DecodeError>(e),
            },
    {
        let ghost s = bytes@.skip(pos as int);
        let len = bytes.len();
        assert(len == bytes@.len());
        let b = bytes[pos];
        assert(s[0] == b);
        assert(s.skip(1) == bytes@.skip(pos + 1));
        let opcode = b as u32;
        proof {
            super::reader::lemma_read_len_bound(s.skip(1), 0u8, 0);
        }
        if let Some(i) = simple_inst(opcode) {
            return Ok((i, 1));
        }
        if index_inst(opcode, 0).is_some() {
            let (x, n) = read_var_u32_at(bytes.as_slice(), pos + 1)?;
            let i = index_inst(opcode, x).unwrap();
            return Ok((i, n + 1));
        }
        if memarg_inst(opcode, MemArg { offset: 0, align: 0 }).is_some() {
            let (memarg, n) = Self::read_memarg(bytes, pos + 1)?;
            let i = memarg_inst(opcode, memarg).unwrap();
            return Ok((i, n + 1));
        }
        if block_inst(opcode, BlockType::Empty).is_some() {
            let (ty, n) = Self::read_block_type(bytes, pos + 1)?;
            let i = block_inst(opcode, ty).unwrap();
            return Ok((i, n + 1));
        }
        if opcode == ops::WASM_OP_BR_TABLE {
            let (table, n) = Self::read_br_table(bytes, pos + 1)?;
            return Ok((Instruction::BrTable { table }, n + 1));
        }
        if opcode == ops::WASM_OP_CALL_INDIRECT {
            let (type_index, n1) = read_var_u32_at(bytes.as_slice(), pos + 1)?;
            proof {
                super::reader::lemma_read_len_bound(s.skip(1).skip(n1 as int), 0u8, 0);
                assert(s.skip(1).skip(n1 as int) == bytes@.skip(pos + 1 + n1));
            }
            let (table_index, n2) = read_var_u32_at(bytes.as_slice(), pos + 1 + n1)?;
            return Ok((Instruction::CallIndirect { type_index, table_index }, n1 + n2 + 1));
        }
        if opcode == ops::WASM_OP_I32_CONST {
            let (value, n) = read_var_i32_at(bytes.as_slice(), pos + 1)?;
            return Ok((Instruction::I32Const { value }, n + 1));
        }
        if opcode == ops::WASM_OP_F64_CONST {
            let (value, n) = read_f64_bits_at(bytes.as_slice(), pos + 1)?;
            return Ok((Instruction::F64Const { value }, n + 1));
        }
        Err(DecodeError::UnsupportedOpcode(opcode))
    }

    pub fn is_control_block_start(inst: &Instruction) -> (res: bool)
        ensures
            res == spec_is_block_start(inst@),
    {
        matches!(inst, Instruction::Block { .. } | Instruction::Loop { .. } | Instruction::If { .. })
    }

    pub fn is_control_block_end(inst: &Instruction) -> (res: bool)
        ensures
            res == spec_is_block_end(inst@),
    {
        matches!(inst, Instruction::End)
    }

    fn read_block_type(bytes: &Vec<u8>, pos: usize) -> (res: Result<(BlockType, usize), DecodeError>)
        requires
            pos <= bytes@.len(),
        ensures
            step_result(res, spec_read_block_type(bytes@.skip(pos as int))),
            (res is Ok) ==> 1 <= res.unwrap().1 <= bytes@.len() - pos,
    {
        let ghost s = bytes@.skip(pos as int);
        let len = bytes.len();
        assert(len == bytes@.len());
        let (b, _) = read_u8_at(bytes.as_slice(), pos)?;
        assert(s[0] == b);
        let is_neg = b & 0x80 == 0 && b & 0x40 != 0;
        assert(is_neg == (0x40 <= b && b < 0x80)) by (bit_vector)
            requires
                is_neg == (b & 0x80 == 0 && b & 0x40 != 0),
        ;
        if is_neg {
            if b == 0x40 {
                Ok((BlockType::Empty, 1))
            } else {
                let (t, n) = read_valtype_at(bytes.as_slice(), pos)?;
                Ok((BlockType::Type(t), n))
            }
        } else {
            let (x, n) = read_var_s33_at(bytes.as_slice(), pos)?;
            proof {
                super::reader::lemma_read_len_bound(s, 0u8, 0);
            }
            if 0 <= x && x <= 0xFFFF_FFFF {
                Ok((BlockType::FuncType(x as u32), n))
            } else {
                Err(DecodeError::BlockTypeOutOfRange)
            }
        }
    }

    fn read_br_table(bytes: &Vec<u8>, pos: usize) -> (res: Result<(BrTable, usize), DecodeError>)
        requires
            pos <= bytes@.len(),
        ensures
            match res {
                Ok((t, n)) => spec_read_br_table(bytes@.skip(pos as int)) == Some((
                    InstView::BrTable { targets: t.targets@, default_target: t.default_target },
                    n as nat,
                )) && n <= bytes@.len() - pos,
                Err(e) => spec_read_br_table(bytes@.skip(pos as int)) is None && e == DecodeError::Malformed,
            },
    {
        let ghost s = bytes@.skip(pos as int);
        let len = bytes.len();
        assert(len == bytes@.len());
        let (count, n1) = read_var_u32_at(bytes.as_slice(), pos)?;
        proof {
            super::reader::lemma_read_len_bound(s, 0u8, 0);
        }
        let mut targets: Vec<u32> = Vec::new();
        let mut off: usize = n1;
        let mut i: u32 = 0;
        assert(s.skip(n1 as int) == bytes@.skip(pos + n1));
        while i < count
            invariant
                i <= count,
                n1 <= off <= bytes@.len() - pos,
                len == bytes@.len(),
                s == bytes@.skip(pos as int),
                spec_read_var_u32(s) == Some((count, n1 as nat)),
                spec_read_u32_seq(s.skip(n1 as int), count as nat) == match spec_read_u32_seq(
                    s.skip(off as int),
                    (count - i) as nat,
                ) {
                    Some((r, m)) => Some((targets@ + r, ((off - n1) + m) as nat)),
                    None => None::<(Seq<u32>, nat)>,
                },
            decreases count - i,
        {
            assert(s.skip(off as int) == bytes@.skip(pos + off));
            let r = read_var_u32_at(bytes.as_slice(), pos + off);
            if r.is_err() {
                assert(spec_read_u32_seq(s.skip(off as int), (count - i) as nat) is None);
                return Err(DecodeError::Malformed);
            }
            let (t, n) = r.unwrap();
            proof {
                super::reader::lemma_read_len_bound(s.skip(off as int), 0u8, 0);
                assert(s.skip(off as int).skip(n as int) == s.skip(off + n));
                assert(targets@.push(t) == targets@ + seq![t]);
                assert forall|r: Seq<u32>| targets@ + (seq![t] + r) == targets@.push(t) + r by {
                    assert(targets@ + (seq![t] + r) == targets@.push(t) + r);
                }
            }
            targets.push(t);
            off = off + n;
            i = i + 1;
        }
        assert(s.skip(off as int) == bytes@.skip(pos + off));
        assert(targets@ + Seq::<u32>::empty() == targets@);
        let (default_target, n3) = read_var_u32_at(bytes.as_slice(), pos + off)?;
        proof {
            super::reader::lemma_read_len_bound(s.skip(off as int), 0u8, 0);
            assert(s.skip((n1 + (off - n1)) as int) == s.skip(off as int));
        }
        Ok((BrTable { targets, default_target }, off + n3))
    }

    fn read_memarg(bytes: &Vec<u8>, pos: usize) -> (res: Result<(MemArg, usize), DecodeError>)
        requires
            pos <= bytes@.len(),
        ensures
            match res {
                Ok((m, n)) => spec_read_memarg(bytes@.skip(pos as int)) == Some((m, n as nat)) && n <= bytes@.len() - pos,
                Err(e) => spec_read_memarg(bytes@.skip(pos as int)) is None && e == DecodeError::Malformed,
            },
    {
        let ghost s = bytes@.skip(pos as int);
        let len = bytes.len();
        assert(len == bytes@.len());
        let (align, n1) = read_var_u32_at(bytes.as_slice(), pos)?;
        proof {
            super::reader::lemma_read_len_bound(s, 0u8, 0);
            assert(s.skip(n1 as int) == bytes@.skip(pos + n1));
            super::reader::lemma_read_len_bound(s.skip(n1 as int), 0u8, 0);
        }
        let (offset, n2) = read_var_u32_at(bytes.as_slice(), pos + n1)?;
        Ok((MemArg { offset, align }, n1 + n2))
    }
}

} // verus!
