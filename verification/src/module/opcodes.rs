//! The opcode bytes of the WebAssembly binary format, written out as the
//! format assigns them, and the laws that the decoder reads each byte as the
//! instruction the format gives it.
use vstd::prelude::*;

use super::insts::{
    spec_decode_inst, BlockType, F64Binop, F64Unop, I32Binop, I32Unop, InstView, Instruction, MemArg,
};

verus! {

/// The instruction of each one-byte opcode with no immediate.
pub open spec fn wasm_opcode(b: u8) -> Option<Instruction> {
    if b == 0x00 { Some(Instruction::Unreachable) }
    else if b == 0x01 { Some(Instruction::Nop) }
    else if b == 0x05 { Some(Instruction::Else) }
    else if b == 0x0b { Some(Instruction::End) }
    else if b == 0x0f { Some(Instruction::Return) }
    else if b == 0x1a { Some(Instruction::Drop) }
    else if b == 0x1b { Some(Instruction::Select) }
    else if b == 0x45 { Some(Instruction::I32Unop(I32Unop::Eqz)) }
    else if b == 0x46 { Some(Instruction::I32Binop(I32Binop::Eq)) }
    else if b == 0x47 { Some(Instruction::I32Binop(I32Binop::Ne)) }
    else if b == 0x48 { Some(Instruction::I32Binop(I32Binop::LtS)) }
    else if b == 0x49 { Some(Instruction::I32Binop(I32Binop::LtU)) }
    else if b == 0x4a { Some(Instruction::I32Binop(I32Binop::GtS)) }
    else if b == 0x4b { Some(Instruction::I32Binop(I32Binop::GtU)) }
    else if b == 0x4c { Some(Instruction::I32Binop(I32Binop::LeS)) }
    else if b == 0x4d { Some(Instruction::I32Binop(I32Binop::LeU)) }
    else if b == 0x4e { Some(Instruction::I32Binop(I32Binop::GeS)) }
    else if b == 0x4f { Some(Instruction::I32Binop(I32Binop::GeU)) }
    else if b == 0x61 { Some(Instruction::F64Binop(F64Binop::Eq)) }
    else if b == 0x62 { Some(Instruction::F64Binop(F64Binop::Ne)) }
    else if b == 0x63 { Some(Instruction::F64Binop(F64Binop::Lt)) }
    else if b == 0x64 { Some(Instruction::F64Binop(F64Binop::Gt)) }
    else if b == 0x65 { Some(Instruction::F64Binop(F64Binop::Le)) }
    else if b == 0x66 { Some(Instruction::F64Binop(F64Binop::Ge)) }
    else if b == 0x67 { Some(Instruction::I32Unop(I32Unop::Clz)) }
    else if b == 0x68 { Some(Instruction::I32Unop(I32Unop::Ctz)) }
    else if b == 0x69 { Some(Instruction::I32Unop(I32Unop::Popcnt)) }
    else if b == 0x6a { Some(Instruction::I32Binop(I32Binop::Add)) }
    else if b == 0x6b { Some(Instruction::I32Binop(I32Binop::Sub)) }
    else if b == 0x6c { Some(Instruction::I32Binop(I32Binop::Mul)) }
    else if b == 0x6d { Some(Instruction::I32Binop(I32Binop::DivS)) }
    else if b == 0x6e { Some(Instruction::I32Binop(I32Binop::DivU)) }
    else if b == 0x6f { Some(Instruction::I32Binop(I32Binop::RemS)) }
    else if b == 0x70 { Some(Instruction::I32Binop(I32Binop::RemU)) }
    else if b == 0x71 { Some(Instruction::I32Binop(I32Binop::And)) }
    else if b == 0x72 { Some(Instruction::I32Binop(I32Binop::Or)) }
    else if b == 0x73 { Some(Instruction::I32Binop(I32Binop::Xor)) }
    else if b == 0x74 { Some(Instruction::I32Binop(I32Binop::Shl)) }
    else if b == 0x75 { Some(Instruction::I32Binop(I32Binop::ShrS)) }
    else if b == 0x76 { Some(Instruction::I32Binop(I32Binop::ShrU)) }
    else if b == 0x77 { Some(Instruction::I32Binop(I32Binop::Rotl)) }
    else if b == 0x78 { Some(Instruction::I32Binop(I32Binop::Rotr)) }
    else if b == 0x99 { Some(Instruction::F64Unop(F64Unop::Abs)) }
    else if b == 0x9a { Some(Instruction::F64Unop(F64Unop::Neg)) }
    else if b == 0x9b { Some(Instruction::F64Unop(F64Unop::Ceil)) }
    else if b == 0x9c { Some(Instruction::F64Unop(F64Unop::Floor)) }
    else if b == 0x9d { Some(Instruction::F64Unop(F64Unop::Trunc)) }
    else if b == 0x9e { Some(Instruction::F64Unop(F64Unop::Nearest)) }
    else if b == 0x9f { Some(Instruction::F64Unop(F64Unop::Sqrt)) }
    else if b == 0xa0 { Some(Instruction::F64Binop(F64Binop::Add)) }
    else if b == 0xa1 { Some(Instruction::F64Binop(F64Binop::Sub)) }
    else if b == 0xa2 { Some(Instruction::F64Binop(F64Binop::Mul)) }
    else if b == 0xa3 { Some(Instruction::F64Binop(F64Binop::Div)) }
    else if b == 0xa4 { Some(Instruction::F64Binop(F64Binop::Min)) }
    else if b == 0xa5 { Some(Instruction::F64Binop(F64Binop::Max)) }
    else if b == 0xaa { Some(Instruction::F64Unop(F64Unop::I32TruncF64S)) }
    else if b == 0xab { Some(Instruction::F64Unop(F64Unop::I32TruncF64U)) }
    else if b == 0xb7 { Some(Instruction::I32Unop(I32Unop::F64ConvertI32S)) }
    else if b == 0xb8 { Some(Instruction::I32Unop(I32Unop::F64ConvertI32U)) }
    else if b == 0xc0 { Some(Instruction::I32Unop(I32Unop::Extend8S)) }
    else if b == 0xc1 { Some(Instruction::I32Unop(I32Unop::Extend16S)) }
    else { None }
}

/// The instruction of each opcode whose immediate is one index `x`.
pub open spec fn wasm_index_opcode(b: u8, x: u32) -> Option<Instruction> {
    if b == 0x0c { Some(Instruction::Br { rel_depth: x }) }
    else if b == 0x0d { Some(Instruction::BrIf { rel_depth: x }) }
    else if b == 0x10 { Some(Instruction::Call { func_idx: x }) }
    else if b == 0x20 { Some(Instruction::LocalGet { local_idx: x }) }
    else if b == 0x21 { Some(Instruction::LocalSet { local_idx: x }) }
    else if b == 0x22 { Some(Instruction::LocalTee { local_idx: x }) }
    else if b == 0x23 { Some(Instruction::GlobalGet { global_idx: x }) }
    else if b == 0x24 { Some(Instruction::GlobalSet { global_idx: x }) }
    else if b == 0x3f { Some(Instruction::MemorySize { mem: x }) }
    else if b == 0x40 { Some(Instruction::MemoryGrow { mem: x }) }
    else { None }
}

/// The instruction of each opcode whose immediate is a memory argument.
pub open spec fn wasm_memory_opcode(b: u8, memarg: MemArg) -> Option<Instruction> {
    if b == 0x28 { Some(Instruction::I32Load { memarg }) }
    else if b == 0x2b { Some(Instruction::F64Load { memarg }) }
    else if b == 0x2c { Some(Instruction::I32Load8S { memarg }) }
    else if b == 0x2d { Some(Instruction::I32Load8U { memarg }) }
    else if b == 0x2e { Some(Instruction::I32Load16S { memarg }) }
    else if b == 0x2f { Some(Instruction::I32Load16U { memarg }) }
    else if b == 0x36 { Some(Instruction::I32Store { memarg }) }
    else if b == 0x39 { Some(Instruction::F64Store { memarg }) }
    else if b == 0x3a { Some(Instruction::I32Store8 { memarg }) }
    else if b == 0x3b { Some(Instruction::I32Store16 { memarg }) }
    else { None }
}

/// Every one-byte opcode with no immediate decodes, in one byte, to the
/// instruction the binary format assigns it, whatever follows it.
pub proof fn lemma_decode_opcode_table(b: u8, rest: Seq<u8>)
    requires
        wasm_opcode(b) is Some,
    ensures
        spec_decode_inst(seq![b] + rest) == Ok::<(InstView, nat), super::reader::DecodeError>(
            (InstView::Plain(wasm_opcode(b)->Some_0), 1),
        ),
{
    assert((seq![b] + rest)[0] == b);
}


/// A byte below 128 read as an unsigned LEB128 number is itself, in one byte.
proof fn lemma_read_small_u32(x: u8, rest: Seq<u8>)
    requires
        x < 128,
    ensures
        super::reader::spec_read_var_u32(seq![x] + rest) == Some((x as u32, 1nat)),
{
    let s = seq![x] + rest;
    assert(s[0] == x);
    assert(s.take(1) =~= seq![x]);
    assert(s.take(1).drop_first() =~= Seq::<u8>::empty());
    assert(super::reader::uleb_value(s.take(1).drop_first()) == 0);
    assert(super::reader::uleb_value(s.take(1)) == x as nat);
}

/// Every opcode whose immediate is an index decodes, with an index below
/// 128 in one byte, to the instruction the binary format assigns it with
/// that index, whatever follows.
pub proof fn lemma_decode_index_opcode_table(b: u8, x: u8, rest: Seq<u8>)
    requires
        wasm_index_opcode(b, 0) is Some,
        x < 128,
    ensures
        spec_decode_inst(seq![b, x] + rest) == Ok::<(InstView, nat), super::reader::DecodeError>(
            (InstView::Plain(wasm_index_opcode(b, x as u32)->Some_0), 2),
        ),
{
    let s = seq![b, x] + rest;
    assert(s[0] == b);
    assert(s.skip(1) =~= seq![x] + rest);
    lemma_read_small_u32(x, rest);
}

/// Every load and store opcode decodes, with an alignment and an offset
/// below 128 in one byte each, to the instruction the binary format assigns
/// it with that memory argument, whatever follows.
pub proof fn lemma_decode_memory_opcode_table(b: u8, align: u8, offset: u8, rest: Seq<u8>)
    requires
        wasm_memory_opcode(b, MemArg { offset: 0, align: 0 }) is Some,
        align < 128,
        offset < 128,
    ensures
        spec_decode_inst(seq![b, align, offset] + rest) == Ok::<(InstView, nat), super::reader::DecodeError>(
            (
                InstView::Plain(wasm_memory_opcode(b, MemArg { offset: offset as u32, align: align as u32 })->Some_0),
                3,
            ),
        ),
{
    let s = seq![b, align, offset] + rest;
    assert(s[0] == b);
    assert(s.skip(1) =~= seq![align] + (seq![offset] + rest));
    assert(s.skip(1).skip(1) =~= seq![offset] + rest);
    lemma_read_small_u32(align, seq![offset] + rest);
    lemma_read_small_u32(offset, rest);
}

/// `block`, `loop` and `if` with the empty block type `0x40` decode to the
/// structured instruction of that type.
pub proof fn lemma_decode_block_opcodes(rest: Seq<u8>)
    ensures
        spec_decode_inst(seq![0x02u8, 0x40u8] + rest) == Ok::<(InstView, nat), super::reader::DecodeError>(
            (InstView::Plain(Instruction::Block { ty: BlockType::Empty }), 2),
        ),
        spec_decode_inst(seq![0x03u8, 0x40u8] + rest) == Ok::<(InstView, nat), super::reader::DecodeError>(
            (InstView::Plain(Instruction::Loop { ty: BlockType::Empty }), 2),
        ),
        spec_decode_inst(seq![0x04u8, 0x40u8] + rest) == Ok::<(InstView, nat), super::reader::DecodeError>(
            (InstView::Plain(Instruction::If { ty: BlockType::Empty }), 2),
        ),
{
    assert((seq![0x02u8, 0x40u8] + rest).skip(1) =~= seq![0x40u8] + rest);
    assert((seq![0x03u8, 0x40u8] + rest).skip(1) =~= seq![0x40u8] + rest);
    assert((seq![0x04u8, 0x40u8] + rest).skip(1) =~= seq![0x40u8] + rest);
    assert((seq![0x40u8] + rest)[0] == 0x40u8);
}
} // verus!
