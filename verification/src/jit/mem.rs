//! The linear memory of compiled code. It is reserved with `mmap` and made
//! accessible with `mprotect` as it grows; its size in pages lives in a cell
//! that the code reads and writes.
use vstd::prelude::*;

use super::regalloc::register::{Register, X86Register, REG_MEMORY_BASE, REG_TEMP, REG_TEMP2};
use super::x86::{emit_mov_reg_to_reg, spec_mov, AluOp, X86Inst};

verus! {

/// Bytes of address space reserved for the linear memory: 32 GiB.
pub const MEM_SIZE_LIMIT: u64 = 0x8_0000_0000;

/// Bytes in one page of linear memory.
pub const PAGE_SIZE: u64 = 65536;

/// The cell holding the size of the linear memory in pages.
pub struct JitLinearMemory {
    size_mem_in_page: Box<u64>,
}

impl View for JitLinearMemory {
    type V = u64;

    closed spec fn view(&self) -> u64 {
        *self.size_mem_in_page
    }
}

/// Reading the size in pages into `dst`.
pub open spec fn read_size_code(dst: Register) -> Seq<X86Inst> {
    seq![
        X86Inst::MovMemSizeAddr { dst: REG_TEMP },
        X86Inst::Load { dst: Register::Reg(REG_TEMP), base: REG_TEMP, disp: 0 },
    ] + spec_mov(dst, Register::Reg(REG_TEMP))
}

/// Growing the memory by the number of pages in `npages`: the new size is
/// stored in the cell and `mprotect` opens that many bytes for reading and
/// writing, the registers of the system call saved around it.
pub open spec fn grow_code(npages: Register) -> Seq<X86Inst> {
    read_size_code(Register::Reg(REG_TEMP)) + spec_mov(Register::Reg(REG_TEMP2), npages) + seq![
        X86Inst::Alu { op: AluOp::Add, dst: REG_TEMP, src: REG_TEMP2 },
        X86Inst::MovMemSizeAddr { dst: REG_TEMP2 },
        X86Inst::Store { base: REG_TEMP2, disp: 0, src: Register::Reg(REG_TEMP) },
        X86Inst::MovImm { dst: Register::Reg(REG_TEMP2), value: PAGE_SIZE },
        X86Inst::Alu { op: AluOp::Imul, dst: REG_TEMP, src: REG_TEMP2 },
        X86Inst::Push { src: X86Register::Rdi },
        X86Inst::Push { src: X86Register::Rsi },
        X86Inst::Push { src: X86Register::Rdx },
        X86Inst::Push { src: X86Register::Rax },
        X86Inst::Mov { dst: Register::Reg(X86Register::Rdi), src: Register::Reg(REG_MEMORY_BASE) },
        X86Inst::Mov { dst: Register::Reg(X86Register::Rsi), src: Register::Reg(REG_TEMP) },
        X86Inst::MovImm { dst: Register::Reg(X86Register::Rdx), value: 3 },
        X86Inst::MovImm { dst: Register::Reg(X86Register::Rax), value: 10 },
        X86Inst::Syscall,
        X86Inst::Pop { dst: X86Register::Rax },
        X86Inst::Pop { dst: X86Register::Rdx },
        X86Inst::Pop { dst: X86Register::Rsi },
        X86Inst::Pop { dst: X86Register::Rdi },
    ]
}

/// The pages that hold `bytes` bytes, rounded up.
pub open spec fn pages_for(bytes: nat) -> nat {
    ((bytes + 65535) / 65536) as nat
}

/// Reserving the address space with an anonymous private `mmap` without
/// access, keeping its base in `REG_MEMORY_BASE`, then growing to the pages
/// that hold `bytes` bytes.
pub open spec fn init_size_code(bytes: u64) -> Seq<X86Inst> {
    seq![
        X86Inst::Alu { op: AluOp::Xor, dst: X86Register::Rdi, src: X86Register::Rdi },
        X86Inst::MovImm { dst: Register::Reg(X86Register::Rsi), value: MEM_SIZE_LIMIT },
        X86Inst::MovImm { dst: Register::Reg(X86Register::Rdx), value: 0 },
        X86Inst::MovImm { dst: Register::Reg(X86Register::R10), value: 0x22 },
        X86Inst::MovImm { dst: Register::Reg(X86Register::R8), value: 0xFFFF_FFFF_FFFF_FFFF },
        X86Inst::Alu { op: AluOp::Xor, dst: X86Register::R9, src: X86Register::R9 },
        X86Inst::MovImm { dst: Register::Reg(X86Register::Rax), value: 9 },
        X86Inst::Syscall,
        X86Inst::Mov { dst: Register::Reg(REG_MEMORY_BASE), src: Register::Reg(X86Register::Rax) },
        X86Inst::MovImm { dst: Register::Reg(REG_TEMP), value: pages_for(bytes as nat) as u64 },
    ] + grow_code(Register::Reg(REG_TEMP))
}

impl JitLinearMemory {
    /// A memory of zero pages.
    pub fn new() -> (res: Self)
        ensures
            res@ == 0,
    {
        Self { size_mem_in_page: Box::new(0) }
    }

    /// Appends the reservation of the memory and its growth to the pages
    /// holding `initial_mem_size_in_byte` bytes.
    pub fn init_size(&self, code: &mut Vec<X86Inst>, initial_mem_size_in_byte: u64)
        ensures
            final(code)@ == old(code)@ + init_size_code(initial_mem_size_in_byte),
    {
        let q: u64 = initial_mem_size_in_byte / PAGE_SIZE;
        let r: u64 = initial_mem_size_in_byte % PAGE_SIZE;
        let npages: u64 = if r != 0 {
            q + 1
        } else {
            q
        };
        proof {
            let b = initial_mem_size_in_byte as int;
            assert(b == 65536 * (q as int) + (r as int));
            assert(npages as int == (b + 65535) / 65536) by (nonlinear_arith)
                requires
                    b == 65536 * (q as int) + (r as int),
                    0 <= r < 65536,
                    npages == if r != 0 {
                        q + 1
                    } else {
                        q as int
                    },
            ;
        }
        let ghost c0 = code@;
        code.push(X86Inst::Alu { op: AluOp::Xor, dst: X86Register::Rdi, src: X86Register::Rdi });
        code.push(X86Inst::MovImm { dst: Register::Reg(X86Register::Rsi), value: MEM_SIZE_LIMIT });
        code.push(X86Inst::MovImm { dst: Register::Reg(X86Register::Rdx), value: 0 });
        code.push(X86Inst::MovImm { dst: Register::Reg(X86Register::R10), value: 0x22 });
        code.push(X86Inst::MovImm { dst: Register::Reg(X86Register::R8), value: 0xFFFF_FFFF_FFFF_FFFF });
        code.push(X86Inst::Alu { op: AluOp::Xor, dst: X86Register::R9, src: X86Register::R9 });
        code.push(X86Inst::MovImm { dst: Register::Reg(X86Register::Rax), value: 9 });
        code.push(X86Inst::Syscall);
        code.push(X86Inst::Mov { dst: Register::Reg(REG_MEMORY_BASE), src: Register::Reg(X86Register::Rax) });
        code.push(X86Inst::MovImm { dst: Register::Reg(REG_TEMP), value: npages });
        let ghost c1 = code@;
        self.grow(code, Register::Reg(REG_TEMP));
        assert(code@ =~= c0 + init_size_code(initial_mem_size_in_byte));
    }

    /// Appends the growth of the memory by the number of pages in `npages`.
    pub fn grow(&self, code: &mut Vec<X86Inst>, npages: Register)
        ensures
            final(code)@ == old(code)@ + grow_code(npages),
    {
        let ghost c0 = code@;
        self.read_memory_size_in_page(code, Register::Reg(REG_TEMP));
        emit_mov_reg_to_reg(code, Register::Reg(REG_TEMP2), npages);
        code.push(X86Inst::Alu { op: AluOp::Add, dst: REG_TEMP, src: REG_TEMP2 });
        code.push(X86Inst::MovMemSizeAddr { dst: REG_TEMP2 });
        code.push(X86Inst::Store { base: REG_TEMP2, disp: 0, src: Register::Reg(REG_TEMP) });
        code.push(X86Inst::MovImm { dst: Register::Reg(REG_TEMP2), value: PAGE_SIZE });
        code.push(X86Inst::Alu { op: AluOp::Imul, dst: REG_TEMP, src: REG_TEMP2 });
        code.push(X86Inst::Push { src: X86Register::Rdi });
        code.push(X86Inst::Push { src: X86Register::Rsi });
        code.push(X86Inst::Push { src: X86Register::Rdx });
        code.push(X86Inst::Push { src: X86Register::Rax });
        code.push(X86Inst::Mov { dst: Register::Reg(X86Register::Rdi), src: Register::Reg(REG_MEMORY_BASE) });
        code.push(X86Inst::Mov { dst: Register::Reg(X86Register::Rsi), src: Register::Reg(REG_TEMP) });
        code.push(X86Inst::MovImm { dst: Register::Reg(X86Register::Rdx), value: 3 });
        code.push(X86Inst::MovImm { dst: Register::Reg(X86Register::Rax), value: 10 });
        code.push(X86Inst::Syscall);
        code.push(X86Inst::Pop { dst: X86Register::Rax });
        code.push(X86Inst::Pop { dst: X86Register::Rdx });
        code.push(X86Inst::Pop { dst: X86Register::Rsi });
        code.push(X86Inst::Pop { dst: X86Register::Rdi });
        assert(code@ =~= c0 + grow_code(npages));
    }

    /// Appends the read of the size in pages into `dst`.
    pub fn read_memory_size_in_page(&self, code: &mut Vec<X86Inst>, dst: Register)
        ensures
            final(code)@ == old(code)@ + read_size_code(dst),
    {
        let ghost c0 = code@;
        code.push(X86Inst::MovMemSizeAddr { dst: REG_TEMP });
        code.push(X86Inst::Load { dst: Register::Reg(REG_TEMP), base: REG_TEMP, disp: 0 });
        emit_mov_reg_to_reg(code, dst, Register::Reg(REG_TEMP));
        assert(code@ =~= c0 + read_size_code(dst));
    }
}

} // verus!
