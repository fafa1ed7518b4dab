//! Loads and stores of linear memory and globals, and the memory's size.
use vstd::prelude::*;

use super::compiler::{appended, X86JitCompiler};
use super::mem::{grow_code, read_size_code};
use super::regalloc::register::{Register, X86Register, REG_MEMORY_BASE, REG_TEMP, REG_TEMP2};
use super::x86::{spec_mov, AluOp, X86Inst};

verus! {

/// The widths in bytes of the loads and stores of linear memory.
pub open spec fn valid_width(width: u32) -> bool {
    width == 1 || width == 2 || width == 4 || width == 8
}

/// Computing the effective address `base + offset` plus the width `width`
/// of the access, the end of the accessed bytes, into `dst`.
pub open spec fn effective_address_code(dst: X86Register, base: Register, offset: u32, width: u32) -> Seq<X86Inst> {
    spec_mov(Register::Reg(dst), base) + seq![X86Inst::AddImm { dst, value: (offset + width) as u64 }]
}

/// The end in linear memory of an access of `width` bytes at
/// `base + offset`, in `REG_TEMP`.
pub open spec fn memory_address_code(base: Register, offset: u32, width: u32) -> Seq<X86Inst> {
    effective_address_code(REG_TEMP, base, offset, width) + seq![
        X86Inst::Alu { op: AluOp::Add, dst: REG_TEMP, src: REG_MEMORY_BASE },
    ]
}

/// Loading `width` bytes from `base + offset` into `dst`, sign-extended
/// when `sign_extend` holds and the width is below eight bytes: the bytes
/// are read `width` bytes below the end that `REG_TEMP` holds.
pub open spec fn load_code(dst: Register, base: Register, offset: u32, width: u32, sign_extend: bool) -> Seq<X86Inst> {
    memory_address_code(base, offset, width) + seq![
        X86Inst::LoadMem { dst: REG_TEMP, addr: REG_TEMP, disp: (-width) as i64, width },
    ] + (if sign_extend
        && width != 8 {
        seq![X86Inst::SignExtend { reg: REG_TEMP, width }]
    } else {
        Seq::empty()
    }) + spec_mov(dst, Register::Reg(REG_TEMP))
}

/// Storing the low `width` bytes of `value` at `base + offset`: the bytes
/// are written `width` bytes below the end that `REG_TEMP` holds.
pub open spec fn store_code(base: Register, offset: u32, value: Register, width: u32) -> Seq<X86Inst> {
    memory_address_code(base, offset, width) + spec_mov(Register::Reg(REG_TEMP2), value) + seq![
        X86Inst::StoreMem { addr: REG_TEMP, disp: (-width) as i64, src: REG_TEMP2, width },
    ]
}

/// Reading global `global_idx` into `dst`.
pub open spec fn global_get_code(dst: Register, global_idx: u32) -> Seq<X86Inst> {
    seq![
        X86Inst::MovGlobalAddr { dst: REG_TEMP, index: global_idx },
        X86Inst::Load { dst: Register::Reg(REG_TEMP), base: REG_TEMP, disp: 0 },
    ] + spec_mov(dst, Register::Reg(REG_TEMP))
}

/// Writing `value` to global `global_idx`.
pub open spec fn global_set_code(value: Register, global_idx: u32) -> Seq<X86Inst> {
    spec_mov(Register::Reg(REG_TEMP), value) + seq![
        X86Inst::MovGlobalAddr { dst: REG_TEMP2, index: global_idx },
        X86Inst::Store { base: REG_TEMP2, disp: 0, src: Register::Reg(REG_TEMP) },
    ]
}

impl X86JitCompiler {
    /// Leaves in `dst` the effective address `base + offset` plus the
    /// width `width` of the access (`semantics::lemma_effective_address`).
    fn get_effective_address(&mut self, dst: X86Register, base: Register, offset: u32, width: u32)
        ensures
            final(self)@ == appended(old(self)@, effective_address_code(dst, base, offset, width)),
    {
        self.emit_mov(Register::Reg(dst), base);
        self.push_inst(X86Inst::AddImm { dst, value: offset as u64 + width as u64 });
        assert(self@.code =~= old(self)@.code + effective_address_code(dst, base, offset, width));
    }

    /// Loads `width` bytes of linear memory at `base + offset` into `dst`.
    pub fn emit_load_mem(&mut self, dst: Register, base: Register, offset: u32, width: u32, sign_extend: bool)
        requires
            valid_width(width),
        ensures
            final(self)@ == appended(old(self)@, load_code(dst, base, offset, width, sign_extend)),
    {
        self.get_effective_address(REG_TEMP, base, offset, width);
        self.push_inst(X86Inst::Alu { op: AluOp::Add, dst: REG_TEMP, src: REG_MEMORY_BASE });
        self.push_inst(X86Inst::LoadMem { dst: REG_TEMP, addr: REG_TEMP, disp: -(width as i64), width });
        if sign_extend && width != 8 {
            self.push_inst(X86Inst::SignExtend { reg: REG_TEMP, width });
        }
        self.emit_mov(dst, Register::Reg(REG_TEMP));
        assert(self@.code =~= old(self)@.code + load_code(dst, base, offset, width, sign_extend));
    }

    /// Stores the low `width` bytes of `value` in linear memory at `base + offset`.
    pub fn emit_store_mem(&mut self, base: Register, offset: u32, value: Register, width: u32)
        requires
            valid_width(width),
        ensures
            final(self)@ == appended(old(self)@, store_code(base, offset, value, width)),
    {
        self.get_effective_address(REG_TEMP, base, offset, width);
        self.push_inst(X86Inst::Alu { op: AluOp::Add, dst: REG_TEMP, src: REG_MEMORY_BASE });
        self.emit_mov(Register::Reg(REG_TEMP2), value);
        self.push_inst(X86Inst::StoreMem { addr: REG_TEMP, disp: -(width as i64), src: REG_TEMP2, width });
        assert(self@.code =~= old(self)@.code + store_code(base, offset, value, width));
    }

    /// Reads global `global_idx` into `dst`.
    pub fn emit_global_get(&mut self, dst: Register, global_idx: u32)
        ensures
            final(self)@ == appended(old(self)@, global_get_code(dst, global_idx)),
    {
        self.push_inst(X86Inst::MovGlobalAddr { dst: REG_TEMP, index: global_idx });
        self.push_inst(X86Inst::Load { dst: Register::Reg(REG_TEMP), base: REG_TEMP, disp: 0 });
        self.emit_mov(dst, Register::Reg(REG_TEMP));
        assert(self@.code =~= old(self)@.code + global_get_code(dst, global_idx));
    }

    /// Writes `value` to global `global_idx`.
    pub fn emit_global_set(&mut self, value: Register, global_idx: u32)
        ensures
            final(self)@ == appended(old(self)@, global_set_code(value, global_idx)),
    {
        self.emit_mov(Register::Reg(REG_TEMP), value);
        self.push_inst(X86Inst::MovGlobalAddr { dst: REG_TEMP2, index: global_idx });
        self.push_inst(X86Inst::Store { base: REG_TEMP2, disp: 0, src: Register::Reg(REG_TEMP) });
        assert(self@.code =~= old(self)@.code + global_set_code(value, global_idx));
    }

    /// Reads the size of linear memory in pages into `dst`.
    pub fn store_mem_page_size(&mut self, dst: Register)
        ensures
            final(self)@ == appended(old(self)@, read_size_code(dst)),
    {
        self.emit_read_mem_size(dst);
    }

    /// Grows linear memory by the number of pages in `npages`.
    pub fn emit_memory_grow(&mut self, npages: Register)
        ensures
            final(self)@ == appended(old(self)@, grow_code(npages)),
    {
        self.emit_mem_grow(npages);
    }
}

} // verus!
