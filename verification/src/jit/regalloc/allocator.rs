//! Register allocator for the JIT back end.
//!
//! The allocator mirrors the WebAssembly operand stack with a vector of
//! locations: the i-th entry holds the i-th value of the stack. New values get
//! the first free register of the pool, or a fresh spill slot when every
//! register of the pool is taken.
use vstd::prelude::*;

use super::register::{
    spec_is_caller_saved, Register, X86FpRegister, X86Register, ALLOC_POOL, FP_ALLOC_POOL,
};
use crate::jit::ValueType;

verus! {

/// A location together with the type of the value it holds.
#[derive(Debug, PartialEq, Eq, Clone, Copy, Structural)]
pub struct RegWithType {
    pub reg: Register,
    pub ty: ValueType,
}

impl RegWithType {
    pub fn new(reg: Register, ty: ValueType) -> (res: Self)
        ensures
            res.reg == reg,
            res.ty == ty,
    {
        Self { reg, ty }
    }
}

/// Whether some entry of `v` lives in location `r`.
pub open spec fn uses_location(v: Seq<RegWithType>, r: Register) -> bool {
    exists|i: int| 0 <= i < v.len() && #[trigger] v[i].reg == r
}

/// The general-purpose allocation pool as locations.
pub open spec fn gp_pool() -> Seq<Register> {
    seq![
        Register::Reg(X86Register::Rax),
        Register::Reg(X86Register::Rdi),
        Register::Reg(X86Register::Rsi),
        Register::Reg(X86Register::Rdx),
        Register::Reg(X86Register::Rcx),
        Register::Reg(X86Register::R8),
        Register::Reg(X86Register::R9),
        Register::Reg(X86Register::R10),
        Register::Reg(X86Register::Rbx),
        Register::Reg(X86Register::R11),
    ]
}

/// The SSE allocation pool as locations.
pub open spec fn fp_pool() -> Seq<Register> {
    seq![
        Register::FpReg(X86FpRegister::Xmm0),
        Register::FpReg(X86FpRegister::Xmm1),
        Register::FpReg(X86FpRegister::Xmm2),
        Register::FpReg(X86FpRegister::Xmm3),
        Register::FpReg(X86FpRegister::Xmm4),
        Register::FpReg(X86FpRegister::Xmm5),
        Register::FpReg(X86FpRegister::Xmm6),
        Register::FpReg(X86FpRegister::Xmm7),
        Register::FpReg(X86FpRegister::Xmm8),
        Register::FpReg(X86FpRegister::Xmm9),
        Register::FpReg(X86FpRegister::Xmm10),
        Register::FpReg(X86FpRegister::Xmm11),
        Register::FpReg(X86FpRegister::Xmm12),
        Register::FpReg(X86FpRegister::Xmm13),
    ]
}

/// The first location of `pool` that no entry of `v` occupies.
pub open spec fn first_free(pool: Seq<Register>, v: Seq<RegWithType>) -> Option<Register>
    decreases pool.len(),
{
    if pool.len() == 0 {
        None
    } else if !uses_location(v, pool[0]) {
        Some(pool[0])
    } else {
        first_free(pool.drop_first(), v)
    }
}

/// The locations of `v`, in order, that a call clobbers.
pub open spec fn caller_saved_locations(v: Seq<RegWithType>) -> Seq<Register>
    decreases v.len(),
{
    if v.len() == 0 {
        Seq::empty()
    } else {
        let rest = caller_saved_locations(v.drop_last());
        if spec_is_caller_saved(v.last().reg) {
            rest.push(v.last().reg)
        } else {
            rest
        }
    }
}

/// The register vector of the allocator and the current spill offset.
pub struct X86RegisterAllocator {
    reg_vec: Vec<RegWithType>,
    stack_offset: usize,
}

/// The mathematical state of an allocator.
pub struct AllocatorView {
    pub regs: Seq<RegWithType>,
    pub stack_offset: nat,
}

impl View for X86RegisterAllocator {
    type V = AllocatorView;

    closed spec fn view(&self) -> AllocatorView {
        AllocatorView { regs: self.reg_vec@, stack_offset: self.stack_offset as nat }
    }
}

/// The allocator's state is well formed: no two stack entries share a
/// location, and every spill slot in use lies within the spilled area.
pub open spec fn allocator_wf(a: AllocatorView) -> bool {
    &&& forall|i: int, j: int|
        0 <= i < a.regs.len() && 0 <= j < a.regs.len() && i != j ==> #[trigger] a.regs[i].reg
            != #[trigger] a.regs[j].reg
    &&& forall|i: int|
        0 <= i < a.regs.len() ==> match #[trigger] a.regs[i].reg {
            Register::Stack(o) => o <= a.stack_offset,
            _ => true,
        }
}

/// The location the allocator hands out next for an integer value.
pub open spec fn next_gp_location(a: AllocatorView) -> Register {
    match first_free(gp_pool(), a.regs) {
        Some(r) => r,
        None => Register::Stack((a.stack_offset + 8) as usize),
    }
}

/// The location the allocator hands out next for a floating-point value.
pub open spec fn next_fp_location(a: AllocatorView) -> Register {
    match first_free(fp_pool(), a.regs) {
        Some(r) => r,
        None => Register::Stack((a.stack_offset + 8) as usize),
    }
}

/// The location the allocator hands out next for a value that must survive a call.
pub open spec fn next_callee_saved_location(a: AllocatorView) -> Register {
    if !uses_location(a.regs, Register::Reg(X86Register::Rbx)) {
        Register::Reg(X86Register::Rbx)
    } else {
        Register::Stack((a.stack_offset + 8) as usize)
    }
}

/// The spill offset after handing out `r`.
pub open spec fn offset_after(a: AllocatorView, r: Register) -> nat {
    match r {
        Register::Stack(o) => o as nat,
        _ => a.stack_offset,
    }
}

impl X86RegisterAllocator {
    pub fn new() -> (res: Self)
        ensures
            res@.regs == Seq::<RegWithType>::empty(),
            res@.stack_offset == 0,
    {
        Self { reg_vec: Vec::new(), stack_offset: 0 }
    }

    /// Forget every value and every spill slot.
    pub fn reset(&mut self)
        ensures
            final(self)@.regs == Seq::<RegWithType>::empty(),
            final(self)@.stack_offset == 0,
    {
        self.reg_vec.clear();
        self.stack_offset = 0;
    }

    /// Forget every value, keeping the spilled area.
    pub fn clear_vec(&mut self)
        ensures
            final(self)@.regs == Seq::<RegWithType>::empty(),
            final(self)@.stack_offset == old(self)@.stack_offset,
    {
        self.reg_vec.clear();
    }

    pub fn get_vec(&self) -> (res: &Vec<RegWithType>)
        ensures
            res@ == self@.regs,
    {
        &self.reg_vec
    }

    /// The location of the top of the stack.
    pub fn top(&self) -> (res: Option<RegWithType>)
        ensures
            res == (if self@.regs.len() == 0 {
                None
            } else {
                Some(self@.regs.last())
            }),
    {
        if self.reg_vec.len() == 0 {
            None
        } else {
            Some(self.reg_vec[self.reg_vec.len() - 1])
        }
    }

    /// The bytes of spill slots handed out.
    pub fn stack_offset(&self) -> (res: usize)
        ensures
            res == self@.stack_offset,
    {
        self.stack_offset
    }

    pub fn size(&self) -> (res: usize)
        ensures
            res == self@.regs.len(),
    {
        self.reg_vec.len()
    }

    pub fn push(&mut self, rt: RegWithType)
        ensures
            final(self)@.regs == old(self)@.regs.push(rt),
            final(self)@.stack_offset == old(self)@.stack_offset,
    {
        self.reg_vec.push(rt);
    }

    /// Pop the top of the stack, which must exist.
    pub fn pop_noopt(&mut self) -> (res: RegWithType)
        requires
            old(self)@.regs.len() > 0,
        ensures
            res == old(self)@.regs.last(),
            final(self)@.regs == old(self)@.regs.drop_last(),
            final(self)@.stack_offset == old(self)@.stack_offset,
    {
        self.reg_vec.pop().unwrap()
    }

    /// Pop the top of the stack if there is one.
    pub fn pop_opt(&mut self) -> (res: Option<RegWithType>)
        ensures
            old(self)@.regs.len() == 0 ==> (res is None) && final(self)@ == old(self)@,
            old(self)@.regs.len() > 0 ==> res == Some(old(self)@.regs.last())
                && final(self)@.regs == old(self)@.regs.drop_last()
                && final(self)@.stack_offset == old(self)@.stack_offset,
    {
        self.reg_vec.pop()
    }

    /// Whether some entry of the register vector lives in `r`.
    fn in_use(&self, r: Register) -> (res: bool)
        ensures
            res == uses_location(self@.regs, r),
    {
        let mut i: usize = 0;
        while i < self.reg_vec.len()
            invariant
                i <= self.reg_vec.len(),
                forall|k: int| 0 <= k < i ==> self.reg_vec@[k].reg != r,
            decreases self.reg_vec.len() - i,
        {
            if self.reg_vec[i].reg == r {
                assert(self@.regs[i as int].reg == r);
                return true;
            }
            i += 1;
        }
        false
    }

    /// Hand out a value-type-agnostic location for a new integer value.
    pub fn next(&mut self) -> (res: RegWithType)
        requires
            old(self)@.stack_offset + 8 <= usize::MAX,
        ensures
            res == (RegWithType { reg: next_gp_location(old(self)@), ty: ValueType::I32 }),
            final(self)@.regs == old(self)@.regs.push(res),
            final(self)@.stack_offset == offset_after(old(self)@, res.reg),
    {
        let reg = self.next_reg();
        let rt = RegWithType::new(reg, ValueType::I32);
        self.reg_vec.push(rt);
        rt
    }

    /// Hand out a location that a call does not clobber.
    pub fn next_not_caller_saved(&mut self) -> (res: RegWithType)
        requires
            old(self)@.stack_offset + 8 <= usize::MAX,
        ensures
            res == (RegWithType { reg: next_callee_saved_location(old(self)@), ty: ValueType::I32 }),
            final(self)@.regs == old(self)@.regs.push(res),
            final(self)@.stack_offset == offset_after(old(self)@, res.reg),
    {
        // Of the allocation pool only rbx survives calls.
        let mut found: Option<X86Register> = None;
        let mut i: usize = 0;
        while i < 10
            invariant
                0 <= i <= 10,
                (found is Some) ==> found == Some(X86Register::Rbx),
                (found is Some) <==> (i > 8 && !uses_location(self@.regs, Register::Reg(X86Register::Rbx))),
            decreases 10 - i,
        {
            let r = ALLOC_POOL[i];
            assert(ALLOC_POOL@[i as int] == gp_pool()[i as int]->Reg_0);
            if !Register::Reg(r).is_caller_saved() && !self.in_use(Register::Reg(r)) {
                found = Some(r);
            }
            i += 1;
        }
        let reg = match found {
            Some(r) => Register::Reg(r),
            None => self.next_spill(),
        };
        let rt = RegWithType::new(reg, ValueType::I32);
        self.reg_vec.push(rt);
        rt
    }

    /// Hand out a location for a new floating-point value.
    pub fn next_xmm(&mut self) -> (res: RegWithType)
        requires
            old(self)@.stack_offset + 8 <= usize::MAX,
        ensures
            res == (RegWithType { reg: next_fp_location(old(self)@), ty: ValueType::F64 }),
            final(self)@.regs == old(self)@.regs.push(res),
            final(self)@.stack_offset == offset_after(old(self)@, res.reg),
    {
        let reg = self.next_xmm_reg();
        let rt = RegWithType::new(reg, ValueType::F64);
        self.reg_vec.push(rt);
        rt
    }

    /// Hand out a fresh spill slot; locals always live in spill slots.
    pub fn new_spill(&mut self, ty: ValueType) -> (res: RegWithType)
        requires
            old(self)@.stack_offset + 8 <= usize::MAX,
        ensures
            res == (RegWithType { reg: Register::Stack((old(self)@.stack_offset + 8) as usize), ty }),
            final(self)@.regs == old(self)@.regs.push(res),
            final(self)@.stack_offset == old(self)@.stack_offset + 8,
    {
        let reg = self.next_spill();
        let rt = RegWithType::new(reg, ty);
        self.reg_vec.push(rt);
        rt
    }

    /// The locations in use that a call clobbers, bottom of the stack first.
    pub fn get_used_caller_saved_registers(&self) -> (res: Vec<Register>)
        ensures
            res@ == caller_saved_locations(self@.regs),
    {
        let mut res: Vec<Register> = Vec::new();
        let mut i: usize = 0;
        while i < self.reg_vec.len()
            invariant
                i <= self.reg_vec.len(),
                res@ == caller_saved_locations(self@.regs.subrange(0, i as int)),
            decreases self.reg_vec.len() - i,
        {
            let r = self.reg_vec[i].reg;
            assert(self@.regs.subrange(0, i + 1).drop_last() == self@.regs.subrange(0, i as int));
            if r.is_caller_saved() {
                res.push(r);
            }
            i += 1;
        }
        assert(self@.regs.subrange(0, i as int) == self@.regs);
        res
    }

    fn next_reg(&mut self) -> (res: Register)
        requires
            old(self)@.stack_offset + 8 <= usize::MAX,
        ensures
            res == next_gp_location(old(self)@),
            final(self)@.regs == old(self)@.regs,
            final(self)@.stack_offset == offset_after(old(self)@, res),
    {
        let mut i: usize = 0;
        assert(gp_pool().subrange(0, 10) == gp_pool());
        while i < 10
            invariant
                0 <= i <= 10,
                self@ == old(self)@,
                first_free(gp_pool(), self@.regs) == first_free(gp_pool().subrange(i as int, 10), self@.regs),
            decreases 10 - i,
        {
            let reg = Register::Reg(ALLOC_POOL[i]);
            assert(gp_pool().subrange(i as int, 10)[0] == reg);
            assert(gp_pool().subrange(i as int, 10).drop_first() == gp_pool().subrange(i + 1, 10));
            if !self.in_use(reg) {
                return reg;
            }
            i += 1;
        }
        assert(gp_pool().subrange(10, 10).len() == 0);
        self.next_spill()
    }

    fn next_xmm_reg(&mut self) -> (res: Register)
        requires
            old(self)@.stack_offset + 8 <= usize::MAX,
        ensures
            res == next_fp_location(old(self)@),
            final(self)@.regs == old(self)@.regs,
            final(self)@.stack_offset == offset_after(old(self)@, res),
    {
        let mut i: usize = 0;
        assert(fp_pool().subrange(0, 14) == fp_pool());
        while i < 14
            invariant
                0 <= i <= 14,
                self@ == old(self)@,
                first_free(fp_pool(), self@.regs) == first_free(fp_pool().subrange(i as int, 14), self@.regs),
            decreases 14 - i,
        {
            let reg = Register::FpReg(FP_ALLOC_POOL[i]);
            assert(fp_pool().subrange(i as int, 14)[0] == reg);
            assert(fp_pool().subrange(i as int, 14).drop_first() == fp_pool().subrange(i + 1, 14));
            if !self.in_use(reg) {
                return reg;
            }
            i += 1;
        }
        assert(fp_pool().subrange(14, 14).len() == 0);
        self.next_spill()
    }

    fn next_spill(&mut self) -> (res: Register)
        requires
            old(self)@.stack_offset + 8 <= usize::MAX,
        ensures
            res == Register::Stack((old(self)@.stack_offset + 8) as usize),
            final(self)@.regs == old(self)@.regs,
            final(self)@.stack_offset == old(self)@.stack_offset + 8,
    {
        self.stack_offset += 8;
        Register::Stack(self.stack_offset)
    }
}

impl Clone for X86RegisterAllocator {
    fn clone(&self) -> (res: Self)
        ensures
            res@ == self@,
    {
        let mut v: Vec<RegWithType> = Vec::new();
        let mut i: usize = 0;
        while i < self.reg_vec.len()
            invariant
                i <= self.reg_vec.len(),
                v@ == self.reg_vec@.subrange(0, i as int),
            decreases self.reg_vec.len() - i,
        {
            v.push(self.reg_vec[i]);
            i += 1;
        }
        assert(v@ == self.reg_vec@);
        Self { reg_vec: v, stack_offset: self.stack_offset }
    }
}

/// A location that `first_free` picks is free and comes from the pool.
pub proof fn lemma_first_free_is_free(pool: Seq<Register>, v: Seq<RegWithType>)
    ensures
        first_free(pool, v) matches Some(r) ==> !uses_location(v, r) && pool.contains(r),
    decreases pool.len(),
{
    if pool.len() > 0 && uses_location(v, pool[0]) {
        lemma_first_free_is_free(pool.drop_first(), v);
        if let Some(r) = first_free(pool.drop_first(), v) {
            let k = choose|k: int| 0 <= k < pool.drop_first().len() && pool.drop_first()[k] == r;
            assert(pool[k + 1] == r);
        }
    } else if pool.len() > 0 {
        assert(pool[0] == pool[0]);
    }
}

/// Allocation never hands out a location that a live value occupies, and it
/// keeps the allocator well formed: the locations of live values stay pairwise
/// distinct, whichever kind of location is requested.
pub proof fn lemma_allocation_keeps_wf(a: AllocatorView, r: Register, ty: ValueType)
    requires
        allocator_wf(a),
        a.stack_offset + 8 <= usize::MAX,
        r == next_gp_location(a) || r == next_fp_location(a) || r == next_callee_saved_location(a)
            || r == Register::Stack((a.stack_offset + 8) as usize),
    ensures
        !uses_location(a.regs, r),
        allocator_wf(
            AllocatorView {
                regs: a.regs.push(RegWithType { reg: r, ty }),
                stack_offset: offset_after(a, r),
            },
        ),
{
    lemma_first_free_is_free(gp_pool(), a.regs);
    lemma_first_free_is_free(fp_pool(), a.regs);
    if let Register::Stack(o) = r {
        assert(o == a.stack_offset + 8) by {
            if first_free(gp_pool(), a.regs) is Some && r == next_gp_location(a) {
                let x = first_free(gp_pool(), a.regs)->0;
                let k = choose|k: int| 0 <= k < gp_pool().len() && gp_pool()[k] == x;
                assert(!(gp_pool()[k] is Stack));
            }
            if first_free(fp_pool(), a.regs) is Some && r == next_fp_location(a) {
                let x = first_free(fp_pool(), a.regs)->0;
                let k = choose|k: int| 0 <= k < fp_pool().len() && fp_pool()[k] == x;
                assert(!(fp_pool()[k] is Stack));
            }
        }
        if uses_location(a.regs, r) {
            let i = choose|i: int| 0 <= i < a.regs.len() && #[trigger] a.regs[i].reg == r;
            assert(match a.regs[i].reg {
                Register::Stack(o2) => o2 <= a.stack_offset,
                _ => true,
            });
        }
    }
    let b = AllocatorView { regs: a.regs.push(RegWithType { reg: r, ty }), stack_offset: offset_after(a, r) };
    assert forall|i: int, j: int|
        0 <= i < b.regs.len() && 0 <= j < b.regs.len() && i != j implies #[trigger] b.regs[i].reg
            != #[trigger] b.regs[j].reg by {
        if i == a.regs.len() {
            assert(b.regs[j] == a.regs[j]);
        } else if j == a.regs.len() {
            assert(b.regs[i] == a.regs[i]);
        } else {
            assert(b.regs[i] == a.regs[i] && b.regs[j] == a.regs[j]);
        }
    }
    assert forall|i: int| 0 <= i < b.regs.len() implies match #[trigger] b.regs[i].reg {
        Register::Stack(o) => o <= b.stack_offset,
        _ => true,
    } by {
        if i < a.regs.len() {
            assert(b.regs[i] == a.regs[i]);
            assert(match a.regs[i].reg {
                Register::Stack(o) => o <= a.stack_offset,
                _ => true,
            });
        }
    }
}

/// Popping the top of the stack keeps the allocator well formed.
pub proof fn lemma_pop_keeps_wf(a: AllocatorView)
    requires
        allocator_wf(a),
        a.regs.len() > 0,
    ensures
        allocator_wf(AllocatorView { regs: a.regs.drop_last(), stack_offset: a.stack_offset }),
{
    let b = AllocatorView { regs: a.regs.drop_last(), stack_offset: a.stack_offset };
    assert forall|i: int, j: int|
        0 <= i < b.regs.len() && 0 <= j < b.regs.len() && i != j implies #[trigger] b.regs[i].reg
            != #[trigger] b.regs[j].reg by {
        assert(b.regs[i] == a.regs[i] && b.regs[j] == a.regs[j]);
    }
    assert forall|i: int| 0 <= i < b.regs.len() implies match #[trigger] b.regs[i].reg {
        Register::Stack(o) => o <= b.stack_offset,
        _ => true,
    } by {
        assert(b.regs[i] == a.regs[i]);
        assert(match a.regs[i].reg {
            Register::Stack(o) => o <= a.stack_offset,
            _ => true,
        });
    }
}

} // verus!
