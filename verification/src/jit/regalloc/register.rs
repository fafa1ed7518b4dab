use vstd::prelude::*;

verus! {

/// General-purpose registers of x86-64.
#[derive(Debug, Clone, Copy, PartialEq, Eq, Structural)]
pub enum X86Register {
    Rax,
    Rbx,
    Rcx,
    Rdx,
    Rsi,
    Rdi,
    Rbp,
    Rsp,
    R8,
    R9,
    R10,
    R11,
    R12,
    R13,
    R14,
    R15,
}

/// Hardware encoding number of a general-purpose register.
pub open spec fn x86_reg_number(r: X86Register) -> u64 {
    match r {
        X86Register::Rax => 0,
        X86Register::Rcx => 1,
        X86Register::Rdx => 2,
        X86Register::Rbx => 3,
        X86Register::Rsp => 4,
        X86Register::Rbp => 5,
        X86Register::Rsi => 6,
        X86Register::Rdi => 7,
        X86Register::R8 => 8,
        X86Register::R9 => 9,
        X86Register::R10 => 10,
        X86Register::R11 => 11,
        X86Register::R12 => 12,
        X86Register::R13 => 13,
        X86Register::R14 => 14,
        X86Register::R15 => 15,
    }
}

impl X86Register {
    /// The register's number in the x86-64 instruction encoding.
    pub fn as_index(&self) -> (res: u64)
        ensures
            res == x86_reg_number(*self),
            res < 16,
    {
        match self {
            X86Register::Rax => 0,
            X86Register::Rcx => 1,
            X86Register::Rdx => 2,
            X86Register::Rbx => 3,
            X86Register::Rsp => 4,
            X86Register::Rbp => 5,
            X86Register::Rsi => 6,
            X86Register::Rdi => 7,
            X86Register::R8 => 8,
            X86Register::R9 => 9,
            X86Register::R10 => 10,
            X86Register::R11 => 11,
            X86Register::R12 => 12,
            X86Register::R13 => 13,
            X86Register::R14 => 14,
            X86Register::R15 => 15,
        }
    }
}

/// SSE registers of x86-64.
#[derive(Debug, Clone, Copy, PartialEq, Eq, Structural)]
pub enum X86FpRegister {
    Xmm0,
    Xmm1,
    Xmm2,
    Xmm3,
    Xmm4,
    Xmm5,
    Xmm6,
    Xmm7,
    Xmm8,
    Xmm9,
    Xmm10,
    Xmm11,
    Xmm12,
    Xmm13,
    Xmm14,
    Xmm15,
}

/// Hardware encoding number of an SSE register: `xmmN` is `N`.
pub open spec fn x86_fp_reg_number(r: X86FpRegister) -> u64 {
    match r {
        X86FpRegister::Xmm0 => 0,
        X86FpRegister::Xmm1 => 1,
        X86FpRegister::Xmm2 => 2,
        X86FpRegister::Xmm3 => 3,
        X86FpRegister::Xmm4 => 4,
        X86FpRegister::Xmm5 => 5,
        X86FpRegister::Xmm6 => 6,
        X86FpRegister::Xmm7 => 7,
        X86FpRegister::Xmm8 => 8,
        X86FpRegister::Xmm9 => 9,
        X86FpRegister::Xmm10 => 10,
        X86FpRegister::Xmm11 => 11,
        X86FpRegister::Xmm12 => 12,
        X86FpRegister::Xmm13 => 13,
        X86FpRegister::Xmm14 => 14,
        X86FpRegister::Xmm15 => 15,
    }
}

impl X86FpRegister {
    /// The register's number in the x86-64 instruction encoding.
    pub fn as_index(&self) -> (res: u64)
        ensures
            res == x86_fp_reg_number(*self),
            res < 16,
    {
        match self {
            X86FpRegister::Xmm0 => 0,
            X86FpRegister::Xmm1 => 1,
            X86FpRegister::Xmm2 => 2,
            X86FpRegister::Xmm3 => 3,
            X86FpRegister::Xmm4 => 4,
            X86FpRegister::Xmm5 => 5,
            X86FpRegister::Xmm6 => 6,
            X86FpRegister::Xmm7 => 7,
            X86FpRegister::Xmm8 => 8,
            X86FpRegister::Xmm9 => 9,
            X86FpRegister::Xmm10 => 10,
            X86FpRegister::Xmm11 => 11,
            X86FpRegister::Xmm12 => 12,
            X86FpRegister::Xmm13 => 13,
            X86FpRegister::Xmm14 => 14,
            X86FpRegister::Xmm15 => 15,
        }
    }
}

/// Base address of the current function's locals.
pub const REG_LOCAL_BASE: X86Register = X86Register::R12;
/// Scratch register used by the code generator.
pub const REG_TEMP: X86Register = X86Register::R13;
/// Second scratch register used by the code generator.
pub const REG_TEMP2: X86Register = X86Register::R14;
/// Base address of the linear memory.
pub const REG_MEMORY_BASE: X86Register = X86Register::R15;
/// Scratch SSE register used by the code generator.
pub const REG_TEMP_FP: X86FpRegister = X86FpRegister::Xmm14;
/// Second scratch SSE register used by the code generator.
pub const REG_TEMP_FP2: X86FpRegister = X86FpRegister::Xmm15;

/// General-purpose registers handed out to operand-stack values, in order of preference.
pub const ALLOC_POOL: [X86Register; 10] = [
    X86Register::Rax,
    X86Register::Rdi,
    X86Register::Rsi,
    X86Register::Rdx,
    X86Register::Rcx,
    X86Register::R8,
    X86Register::R9,
    X86Register::R10,
    X86Register::Rbx,
    X86Register::R11,
];

/// SSE registers handed out to operand-stack values, in order of preference.
pub const FP_ALLOC_POOL: [X86FpRegister; 14] = [
    X86FpRegister::Xmm0,
    X86FpRegister::Xmm1,
    X86FpRegister::Xmm2,
    X86FpRegister::Xmm3,
    X86FpRegister::Xmm4,
    X86FpRegister::Xmm5,
    X86FpRegister::Xmm6,
    X86FpRegister::Xmm7,
    X86FpRegister::Xmm8,
    X86FpRegister::Xmm9,
    X86FpRegister::Xmm10,
    X86FpRegister::Xmm11,
    X86FpRegister::Xmm12,
    X86FpRegister::Xmm13,
];

/// A location holding one operand-stack value.
#[derive(Debug, Clone, Copy, PartialEq, Eq, Structural)]
pub enum Register {
    Reg(X86Register),
    FpReg(X86FpRegister),
    /// A spill slot, as an offset below the frame pointer.
    Stack(usize),
}

/// Whether the System V calling convention lets a callee clobber `r`.
pub open spec fn spec_is_caller_saved(r: Register) -> bool {
    match r {
        Register::Reg(x) => x != X86Register::Rbx && x != X86Register::Rbp && x != X86Register::Rsp
            && x != X86Register::R12 && x != X86Register::R13 && x != X86Register::R14
            && x != X86Register::R15,
        Register::FpReg(_) => true,
        Register::Stack(_) => false,
    }
}

/// The System V integer argument registers, in argument order.
pub open spec fn argument_registers() -> Seq<X86Register> {
    seq![
        X86Register::Rdi,
        X86Register::Rsi,
        X86Register::Rdx,
        X86Register::Rcx,
        X86Register::R8,
        X86Register::R9,
    ]
}

impl Register {
    /// Whether the value in this location is lost across a call.
    pub fn is_caller_saved(&self) -> (res: bool)
        ensures
            res == spec_is_caller_saved(*self),
    {
        match self {
            Register::Reg(r) => match r {
                X86Register::Rax | X86Register::Rcx | X86Register::Rdx | X86Register::Rsi
                | X86Register::Rdi | X86Register::R8 | X86Register::R9 | X86Register::R10
                | X86Register::R11 => true,
                _ => false,
            },
            Register::FpReg(_) => true,
            Register::Stack(_) => false,
        }
    }

    /// The register that carries the `i`-th integer argument of a call.
    pub fn from_ith_argument(i: u32) -> (res: Register)
        requires
            i < 6,
        ensures
            res == Register::Reg(argument_registers()[i as int]),
    {
        match i {
            0 => Register::Reg(X86Register::Rdi),
            1 => Register::Reg(X86Register::Rsi),
            2 => Register::Reg(X86Register::Rdx),
            3 => Register::Reg(X86Register::Rcx),
            4 => Register::Reg(X86Register::R8),
            _ => Register::Reg(X86Register::R9),
        }
    }
}

/// Distinct general-purpose registers have distinct encoding numbers.
pub proof fn lemma_x86_reg_number_injective(a: X86Register, b: X86Register)
    ensures
        x86_reg_number(a) == x86_reg_number(b) <==> a == b,
        x86_reg_number(a) < 16,
{
}

/// Distinct SSE registers have distinct encoding numbers.
pub proof fn lemma_x86_fp_reg_number_injective(a: X86FpRegister, b: X86FpRegister)
    ensures
        x86_fp_reg_number(a) == x86_fp_reg_number(b) <==> a == b,
        x86_fp_reg_number(a) < 16,
{
}

/// The six argument registers are distinct and all caller-saved.
pub proof fn lemma_argument_registers_caller_saved(i: int, j: int)
    requires
        0 <= i < 6,
        0 <= j < 6,
    ensures
        spec_is_caller_saved(Register::Reg(argument_registers()[i])),
        argument_registers()[i] == argument_registers()[j] ==> i == j,
{
}

} // verus!
