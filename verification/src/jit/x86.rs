//! The x86-64 instructions the code generator emits, as values. The
//! library stops at this list: no part of it encodes the instructions as
//! machine code or runs them.
use vstd::prelude::*;

use super::regalloc::register::{Register, X86FpRegister, X86Register, REG_TEMP};

verus! {

/// A position in the emitted code that jumps may target.
#[derive(Debug, Clone, Copy, PartialEq, Eq, Structural)]
pub struct Label(pub u32);

/// A condition of `setcc` and `jcc`.
#[derive(Debug, Clone, Copy, PartialEq, Eq, Structural)]
pub enum Cond {
    Equal,
    NotEqual,
    /// The sign flag is set.
    Sign,
    Less,
    Greater,
    LessEqual,
    GreaterEqual,
    Below,
    Above,
    BelowEqual,
    AboveEqual,
    Zero,
}

/// An integer operation `dst = dst op src` on two general-purpose registers.
#[derive(Debug, Clone, Copy, PartialEq, Eq, Structural)]
pub enum AluOp {
    Add,
    Sub,
    Imul,
    And,
    Or,
    Xor,
    Shl,
    Sar,
    Shr,
    Rol,
    Ror,
}

/// A scalar double operation `dst = dst op src` on two SSE registers.
#[derive(Debug, Clone, Copy, PartialEq, Eq, Structural)]
pub enum SseOp {
    Add,
    Sub,
    Mul,
    Div,
    Min,
    Max,
}

/// One emitted instruction. A `Register::Stack(o)` operand is the 8-byte
/// spill slot at `rbp - o`.
#[derive(Debug, Clone, Copy, PartialEq, Eq, Structural)]
pub enum X86Inst {
    /// `movq dst, src` (`movq` between an SSE and a general register too).
    Mov { dst: Register, src: Register },
    /// `movq dst, value`.
    MovImm { dst: Register, value: u64 },
    /// `movq dst, [base + disp]` (`movsd` into an SSE register).
    Load { dst: Register, base: X86Register, disp: i64 },
    /// `movq [base + disp], src` (`movsd` from an SSE register).
    Store { base: X86Register, disp: i64, src: Register },
    /// `addq dst, value`.
    AddImm { dst: X86Register, value: u64 },
    /// `subq dst, value`.
    SubImm { dst: X86Register, value: u64 },
    Alu { op: AluOp, dst: X86Register, src: X86Register },
    /// `cmpq a, b`.
    Compare { a: X86Register, b: X86Register },
    /// `cmpq a, value`.
    CompareImm { a: X86Register, value: u64 },
    /// `testq a, b`.
    Test { a: X86Register, b: X86Register },
    /// `set<cond> dst`.
    SetCc { cond: Cond, dst: X86Register },
    Sse { op: SseOp, dst: X86FpRegister, src: X86FpRegister },
    /// `ucomisd a, b`.
    Ucomisd { a: X86FpRegister, b: X86FpRegister },
    /// `j<cond> target`.
    Jcc { cond: Cond, target: Label },
    /// `jmp target`.
    Jmp { target: Label },
    /// Binds `label` to the next instruction.
    Bind { label: Label },
    Push { src: X86Register },
    Pop { dst: X86Register },
    /// `cqo`: sign-extends `rax` into `rdx`.
    Cqo,
    /// `idiv src`: signed division of `rdx:rax`.
    Idiv { src: X86Register },
    /// `div src`: unsigned division of `rdx:rax`.
    Div { src: X86Register },
    /// `movq dst, table`: the address of the table of compiled functions.
    MovFuncTable { dst: X86Register },
    /// `movq dst, [base + index * 8]`.
    LoadIndexed { dst: X86Register, base: X86Register, index: X86Register },
    /// `call target`, the address in a register.
    CallReg { target: X86Register },
    Ret,
    /// `movq [base + disp], value`.
    StoreImm { base: X86Register, disp: i64, value: u64 },
    /// A load of `width` bytes (1, 2, 4 or 8) from `[addr + disp]` into
    /// `dst`, zero-extended.
    LoadMem { dst: X86Register, addr: X86Register, disp: i64, width: u32 },
    /// `movsx reg, reg`: sign-extends the low `width` bytes of `reg`.
    SignExtend { reg: X86Register, width: u32 },
    /// A store of the low `width` bytes of `src` to `[addr + disp]`.
    StoreMem { addr: X86Register, disp: i64, src: X86Register, width: u32 },
    /// `movq dst, address`: the address of the cell of global `index`.
    MovGlobalAddr { dst: X86Register, index: u32 },
    /// `movq dst, address`: the address of the table of the functions'
    /// signature indices.
    MovSigTable { dst: X86Register },
    /// `movq dst, address`: the address of the function indices of table `table`.
    MovElemTable { dst: X86Register, table: u32 },
    /// `movl dst, [base + index * 4]`.
    LoadIndexed32 { dst: X86Register, base: X86Register, index: X86Register },
    /// `movq dst, address`: the address of the target addresses of the
    /// `table`-th branch table of function `func`.
    MovBrTargets { dst: X86Register, func: u32, table: usize },
    /// `jmp [base + index * 8]`.
    JmpIndexed { base: X86Register, index: X86Register },
    /// `movq dst, address`: the address of the cell holding the size of the
    /// linear memory in pages.
    MovMemSizeAddr { dst: X86Register },
    Syscall,
}

/// Moving a value from `src` to `dst`: nothing when they are the same
/// location; through `REG_TEMP` when both are stack slots.
pub open spec fn spec_mov(dst: Register, src: Register) -> Seq<X86Inst> {
    if dst == src {
        Seq::empty()
    } else if dst is Stack && src is Stack {
        seq![X86Inst::Mov { dst: Register::Reg(REG_TEMP), src }, X86Inst::Mov { dst, src: Register::Reg(REG_TEMP) }]
    } else {
        seq![X86Inst::Mov { dst, src }]
    }
}

/// Loading the constant `value` into `reg`; into an SSE register through
/// `REG_TEMP`.
pub open spec fn spec_mov_rawvalue(value: u64, reg: Register) -> Seq<X86Inst> {
    match reg {
        Register::FpReg(_) => seq![
            X86Inst::MovImm { dst: Register::Reg(REG_TEMP), value },
            X86Inst::Mov { dst: reg, src: Register::Reg(REG_TEMP) },
        ],
        _ => seq![X86Inst::MovImm { dst: reg, value }],
    }
}

/// Appends the move of a value from `src` to `dst` to `code`, using only
/// `REG_TEMP` besides them; `semantics::lemma_mov_semantics` states what the
/// appended code does to the machine.
pub fn emit_mov_reg_to_reg(code: &mut Vec<X86Inst>, dst: Register, src: Register)
    ensures
        final(code)@ == old(code)@ + spec_mov(dst, src),
{
    if dst == src {
        assert(code@ + Seq::<X86Inst>::empty() == code@);
        return ;
    }
    match (dst, src) {
        (Register::Stack(_), Register::Stack(_)) => {
            code.push(X86Inst::Mov { dst: Register::Reg(REG_TEMP), src });
            code.push(X86Inst::Mov { dst, src: Register::Reg(REG_TEMP) });
        },
        _ => {
            code.push(X86Inst::Mov { dst, src });
        },
    }
    assert(code@ =~= old(code)@ + spec_mov(dst, src));
}

/// Moving between two locations is empty exactly when they are the same,
/// and never uses more than two instructions.
pub proof fn lemma_mov_empty_iff_same(dst: Register, src: Register)
    ensures
        spec_mov(dst, src).len() == 0 <==> dst == src,
        spec_mov(dst, src).len() <= 2,
{
}

} // verus!
