//! The frame of a compiled function: prologue, epilogue and return, and the
//! setup of its locals.
use vstd::prelude::*;

use super::compiler::{allocated, appended, jit_value_type, lemma_label_bound, with_regs, CompilerView, X86JitCompiler};
use super::regalloc::allocator::AllocatorView;
use super::regalloc::register::{argument_registers, Register, X86Register, REG_LOCAL_BASE, REG_TEMP, REG_TEMP_FP};
use super::control::{ControlFlowType, ControlFrame, FrameView};
use super::emit::{label_at, label_at_exec, outcome, spec_emit_insts, spill_room, EmitEnv};
use super::utils::{get_stack_size_in_byte, spec_stack_size_in_byte};
use super::x86::{spec_mov, spec_mov_rawvalue, Label, X86Inst};
use super::ValueType;
use crate::module::components::{FuncDecl, FuncDeclView};
use crate::module::value_type::ValType;
use super::JitError;
use crate::module::insts::{insts_view, InstView, Instruction};

verus! {

/// Entering a function at `label` with `stack_size` bytes of spill slots:
/// the frame pointer and the callee-saved registers the code uses are saved.
pub open spec fn prologue_code(label: Label, stack_size: u64) -> Seq<X86Inst> {
    seq![
        X86Inst::Bind { label },
        X86Inst::Push { src: X86Register::Rbp },
        X86Inst::Mov { dst: Register::Reg(X86Register::Rbp), src: Register::Reg(X86Register::Rsp) },
        X86Inst::SubImm { dst: X86Register::Rsp, value: stack_size },
        X86Inst::Push { src: X86Register::Rbx },
        X86Inst::Push { src: X86Register::R12 },
        X86Inst::Push { src: X86Register::R13 },
        X86Inst::Push { src: X86Register::R14 },
        X86Inst::Push { src: X86Register::R15 },
    ]
}

/// Leaving a function entered by `prologue_code`.
pub open spec fn epilogue_code(stack_size: u64) -> Seq<X86Inst> {
    seq![
        X86Inst::Pop { dst: X86Register::R15 },
        X86Inst::Pop { dst: X86Register::R14 },
        X86Inst::Pop { dst: X86Register::R13 },
        X86Inst::Pop { dst: X86Register::R12 },
        X86Inst::Pop { dst: X86Register::Rbx },
        X86Inst::AddImm { dst: X86Register::Rsp, value: stack_size },
        X86Inst::Pop { dst: X86Register::Rbp },
    ]
}

/// Moving the top of the register stack, if any, to `rax`, where the caller
/// finds the result.
pub open spec fn return_value_code(regs: AllocatorView) -> Seq<X86Inst> {
    if regs.regs.len() == 0 {
        Seq::empty()
    } else {
        spec_mov(Register::Reg(X86Register::Rax), regs.regs.last().reg)
    }
}

/// Returning from a function: the result to `rax`, the epilogue and `ret`.
pub open spec fn return_code(regs: AllocatorView, stack_size: u64) -> Seq<X86Inst> {
    return_value_code(regs) + epilogue_code(stack_size) + seq![X86Inst::Ret]
}

/// Returning, after binding `end_label` where there is one.
pub open spec fn function_return_code(end_label: Option<Label>, regs: AllocatorView, stack_size: u64) -> Seq<X86Inst> {
    match end_label {
        Some(l) => seq![X86Inst::Bind { label: l }] + return_code(regs, stack_size),
        None => return_code(regs, stack_size),
    }
}

impl X86JitCompiler {
    /// Enters a function at `func_begin_label` with `stack_size` bytes of
    /// spill slots.
    pub fn prologue(&mut self, func_begin_label: Label, stack_size: u64)
        ensures
            final(self)@ == appended(old(self)@, prologue_code(func_begin_label, stack_size)),
    {
        self.push_inst(X86Inst::Bind { label: func_begin_label });
        self.push_inst(X86Inst::Push { src: X86Register::Rbp });
        self.push_inst(X86Inst::Mov { dst: Register::Reg(X86Register::Rbp), src: Register::Reg(X86Register::Rsp) });
        self.push_inst(X86Inst::SubImm { dst: X86Register::Rsp, value: stack_size });
        self.push_inst(X86Inst::Push { src: X86Register::Rbx });
        self.push_inst(X86Inst::Push { src: X86Register::R12 });
        self.push_inst(X86Inst::Push { src: X86Register::R13 });
        self.push_inst(X86Inst::Push { src: X86Register::R14 });
        self.push_inst(X86Inst::Push { src: X86Register::R15 });
        assert(self@.code =~= old(self)@.code + prologue_code(func_begin_label, stack_size));
    }

    /// Leaves a function entered with `stack_size` bytes of spill slots.
    pub fn epilogue(&mut self, stack_size: u64)
        ensures
            final(self)@ == appended(old(self)@, epilogue_code(stack_size)),
    {
        self.push_inst(X86Inst::Pop { dst: X86Register::R15 });
        self.push_inst(X86Inst::Pop { dst: X86Register::R14 });
        self.push_inst(X86Inst::Pop { dst: X86Register::R13 });
        self.push_inst(X86Inst::Pop { dst: X86Register::R12 });
        self.push_inst(X86Inst::Pop { dst: X86Register::Rbx });
        self.push_inst(X86Inst::AddImm { dst: X86Register::Rsp, value: stack_size });
        self.push_inst(X86Inst::Pop { dst: X86Register::Rbp });
        assert(self@.code =~= old(self)@.code + epilogue_code(stack_size));
    }

    /// Moves the top of the register stack, if any, to `rax`.
    pub fn emit_mov_stack_top_return_reg(&mut self)
        ensures
            final(self)@ == appended(old(self)@, return_value_code(old(self)@.regs)),
    {
        if self.regs_len() > 0 {
            let t = self.top_reg();
            self.emit_mov(Register::Reg(X86Register::Rax), t.reg);
        } else {
            assert(old(self)@.code + Seq::<X86Inst>::empty() =~= old(self)@.code);
        }
    }

    /// Returns from the function, binding `end_label` first where there is one.
    pub fn emit_function_return(&mut self, end_label: Option<Label>, stack_size: u64)
        ensures
            final(self)@ == appended(old(self)@, function_return_code(end_label, old(self)@.regs, stack_size)),
    {
        if let Some(l) = end_label {
            self.emit_single_label(l);
        }
        self.emit_mov_stack_top_return_reg();
        self.epilogue(stack_size);
        self.push_inst(X86Inst::Ret);
        assert(self@.code =~= old(self)@.code + function_return_code(end_label, old(self)@.regs, stack_size));
    }
}


/// How many of `s` are `t`.
pub open spec fn count_of(s: Seq<InstView>, t: InstView) -> nat
    decreases s.len(),
{
    if s.len() == 0 {
        0
    } else {
        count_of(s.drop_last(), t) + if s.last() == t {
            1nat
        } else {
            0nat
        }
    }
}

/// A label for each position of `insts` holding `t`, handed out in order
/// from `start` on; no label elsewhere.
pub open spec fn pregen_labels(insts: Seq<InstView>, t: InstView, start: nat) -> Seq<Option<Label>> {
    Seq::new(
        insts.len(),
        |i: int|
            if insts[i] == t {
                Some(Label((start + count_of(insts.take(i), t)) as u32))
            } else {
                None
            },
    )
}

/// A prefix holds no more of `t` than the whole.
proof fn lemma_count_prefix(s: Seq<InstView>, t: InstView, k: int)
    requires
        0 <= k <= s.len(),
    ensures
        count_of(s.take(k), t) <= count_of(s, t),
    decreases s.len() - k,
{
    if k == s.len() {
        assert(s.take(k) =~= s);
    } else {
        lemma_count_prefix(s, t, k + 1);
        assert(s.take(k + 1).drop_last() =~= s.take(k));
    }
}

/// The instruction whose positions get labels: `else` or `end`.
pub open spec fn pregen_target(want_else: bool) -> InstView {
    if want_else {
        InstView::Plain(Instruction::Else)
    } else {
        InstView::Plain(Instruction::End)
    }
}

/// The outcome of handing out labels for the positions of `insts` holding
/// `t`: the labels and the code generator after, or no labels left.
pub open spec fn spec_pregen(s: CompilerView, insts: Seq<InstView>, t: InstView) -> Result<(Seq<Option<Label>>, CompilerView), JitError> {
    if s.next_label + count_of(insts, t) > u32::MAX {
        Err(JitError::OutOfLabels)
    } else {
        Ok((pregen_labels(insts, t, s.next_label), CompilerView { next_label: s.next_label + count_of(insts, t), ..s }))
    }
}

impl X86JitCompiler {
    /// Hands out a label for each `else` of `insts` where `want_else`
    /// holds, for each `end` otherwise.
    fn pregen_labels_for(&mut self, insts: &Vec<Instruction>, want_else: bool) -> (res: Result<Vec<Option<Label>>, JitError>)
        ensures
            match spec_pregen(old(self)@, insts_view(insts@), pregen_target(want_else)) {
                Ok((v, s)) => res is Ok && res->Ok_0@ == v && final(self)@ == s,
                Err(e) => res == Err::<Vec<Option<Label>>, JitError>(e),
            },
    {
        let ghost iv = insts_view(insts@);
        let ghost s0 = self@;
        let ghost t = pregen_target(want_else);
        let mut out: Vec<Option<Label>> = Vec::new();
        let mut k: usize = 0;
        while k < insts.len()
            invariant
                k <= insts@.len() == iv.len(),
                iv == insts_view(insts@),
                t == pregen_target(want_else),
                s0 == old(self)@,
                self@ == (CompilerView { next_label: s0.next_label + count_of(iv.take(k as int), t), ..s0 }),
                out@ =~= pregen_labels(iv.take(k as int), t, s0.next_label),
            decreases insts.len() - k,
        {
            assert(iv.take(k + 1).drop_last() =~= iv.take(k as int));
            assert(iv[k as int] == insts@[k as int]@);
            let same = if want_else {
                matches!(&insts[k], Instruction::Else)
            } else {
                matches!(&insts[k], Instruction::End)
            };
            if same {
                if !self.has_label_room(1) {
                    proof {
                        lemma_count_prefix(iv, t, k + 1);
                    }
                    return Err(JitError::OutOfLabels);
                }
                let l = self.new_label();
                out.push(Some(l));
            } else {
                out.push(None);
            }
            k += 1;
            assert(forall|i: int| 0 <= i < k - 1 ==> iv.take(k as int).take(i) =~= iv.take(k - 1).take(i));
        }
        assert(iv.take(k as int) =~= iv);
        proof {
            lemma_label_bound(self);
        }
        assert(out@ =~= pregen_labels(iv, t, s0.next_label));
        Ok(out)
    }

    /// Hands out a label for each `end` of `insts`, by position.
    pub fn pregen_labals_for_ends(&mut self, insts: &Vec<Instruction>) -> (res: Result<Vec<Option<Label>>, JitError>)
        ensures
            match spec_pregen(old(self)@, insts_view(insts@), InstView::Plain(Instruction::End)) {
                Ok((v, s)) => res is Ok && res->Ok_0@ == v && final(self)@ == s,
                Err(e) => res == Err::<Vec<Option<Label>>, JitError>(e),
            },
    {
        self.pregen_labels_for(insts, false)
    }

    /// Hands out a label for each `else` of `insts`, by position.
    pub fn pregen_labels_for_else(&mut self, insts: &Vec<Instruction>) -> (res: Result<Vec<Option<Label>>, JitError>)
        ensures
            match spec_pregen(old(self)@, insts_view(insts@), InstView::Plain(Instruction::Else)) {
                Ok((v, s)) => res is Ok && res->Ok_0@ == v && final(self)@ == s,
                Err(e) => res == Err::<Vec<Option<Label>>, JitError>(e),
            },
    {
        self.pregen_labels_for(insts, true)
    }
}


/// The layout of the locals in progress: the code generator, the types of
/// the locals so far and whether the base of the locals is set.
pub struct LocalsState {
    pub s: CompilerView,
    pub types: Seq<ValueType>,
    pub base_set: bool,
}

/// Pointing `REG_LOCAL_BASE` at the spill slot at offset `o` below `rbp`.
pub open spec fn local_base_code(o: nat) -> Seq<X86Inst> {
    seq![
        X86Inst::Mov { dst: Register::Reg(REG_LOCAL_BASE), src: Register::Reg(X86Register::Rbp) },
        X86Inst::SubImm { dst: REG_LOCAL_BASE, value: o as u64 },
    ]
}

/// The value types the JIT keeps.
pub open spec fn supported_type(t: ValType) -> bool {
    t == ValType::I32 || t == ValType::F64
}

/// The displacement from `rbp` of argument `i`, passed on the machine stack.
pub open spec fn stack_arg_disp(i: nat) -> int {
    (i - 6) * 8 + 16
}

/// Copying parameter `i` of type `t` into its slot `r`: from its argument
/// register for the first six, from the caller's stack for the others.
pub open spec fn param_code(i: nat, t: ValType, r: Register) -> Seq<X86Inst> {
    if i < 6 {
        spec_mov(r, Register::Reg(argument_registers()[i as int]))
    } else if t == ValType::I32 {
        seq![X86Inst::Load { dst: Register::Reg(REG_TEMP), base: X86Register::Rbp, disp: stack_arg_disp(i) as i64 }]
            + spec_mov(r, Register::Reg(REG_TEMP))
    } else {
        seq![X86Inst::Load { dst: Register::FpReg(REG_TEMP_FP), base: X86Register::Rbp, disp: stack_arg_disp(i) as i64 }]
            + spec_mov(r, Register::FpReg(REG_TEMP_FP))
    }
}

/// Laying out parameter `i` of type `t` in a new spill slot; the first slot
/// handed out becomes the base of the locals.
pub open spec fn param_step(st: LocalsState, i: nat, t: ValType) -> Result<LocalsState, JitError> {
    if !spill_room(st.s) {
        Err(JitError::OutOfStackSpace)
    } else if !supported_type(t) {
        Err(JitError::Unsupported)
    } else if i >= 6 && stack_arg_disp(i) > i32::MAX {
        Err(JitError::TooManyArguments)
    } else {
        let o = st.s.regs.stack_offset + 8;
        let r = Register::Stack(o as usize);
        let base = if st.base_set {
            Seq::empty()
        } else {
            local_base_code(o)
        };
        Ok(LocalsState {
            s: appended(allocated(st.s, r, ValueType::I32), base + param_code(i, t, r)),
            types: st.types.push(jit_value_type(t)),
            base_set: true,
        })
    }
}

/// Laying out the first `n` parameters.
pub open spec fn params_fold(st: LocalsState, params: Seq<ValType>, n: nat) -> Result<LocalsState, JitError>
    decreases n,
{
    if n == 0 {
        Ok(st)
    } else {
        match params_fold(st, params, (n - 1) as nat) {
            Err(e) => Err(e),
            Ok(st1) => param_step(st1, (n - 1) as nat, params[n - 1]),
        }
    }
}

/// Laying out a declared local of type `t`: a new spill slot set to zero.
/// Where no parameter set the base of the locals, each such slot sets it.
pub open spec fn local_step(st: LocalsState, t: ValType) -> Result<LocalsState, JitError> {
    if !spill_room(st.s) {
        Err(JitError::OutOfStackSpace)
    } else if !supported_type(t) {
        Err(JitError::Unsupported)
    } else {
        let o = st.s.regs.stack_offset + 8;
        let r = Register::Stack(o as usize);
        let base = if st.base_set {
            Seq::empty()
        } else {
            local_base_code(o)
        };
        Ok(LocalsState {
            s: appended(allocated(st.s, r, ValueType::I32), spec_mov_rawvalue(0, r) + base),
            types: st.types.push(jit_value_type(t)),
            base_set: st.base_set,
        })
    }
}

/// Laying out the first `n` local declarations, one slot each.
pub open spec fn locals_fold(st: LocalsState, locals: Seq<(u32, ValType)>, n: nat) -> Result<LocalsState, JitError>
    decreases n,
{
    if n == 0 {
        Ok(st)
    } else {
        match locals_fold(st, locals, (n - 1) as nat) {
            Err(e) => Err(e),
            Ok(st1) => local_step(st1, locals[n - 1].1),
        }
    }
}

/// The code generator after laying out the parameters and locals of `f`,
/// with the register stack emptied, and the types of the locals; or why
/// they cannot be laid out.
pub open spec fn spec_setup_locals(s: CompilerView, f: FuncDeclView) -> Result<(CompilerView, Seq<ValueType>), JitError> {
    match params_fold(LocalsState { s, types: Seq::empty(), base_set: false }, f.sig.params, f.sig.params.len()) {
        Err(e) => Err(e),
        Ok(st) => match locals_fold(st, f.pure_locals, f.pure_locals.len()) {
            Err(e) => Err(e),
            Ok(st2) => Ok((with_regs(st2.s, AllocatorView { regs: Seq::empty(), ..st2.s.regs }), st2.types)),
        },
    }
}

proof fn lemma_params_err_stays(st: LocalsState, params: Seq<ValType>, m: nat, n: nat)
    requires
        m <= n,
        params_fold(st, params, m) is Err,
    ensures
        params_fold(st, params, n) == params_fold(st, params, m),
    decreases n - m,
{
    if m < n {
        lemma_params_err_stays(st, params, m, (n - 1) as nat);
    }
}

proof fn lemma_locals_err_stays(st: LocalsState, locals: Seq<(u32, ValType)>, m: nat, n: nat)
    requires
        m <= n,
        locals_fold(st, locals, m) is Err,
    ensures
        locals_fold(st, locals, n) == locals_fold(st, locals, m),
    decreases n - m,
{
    if m < n {
        lemma_locals_err_stays(st, locals, m, (n - 1) as nat);
    }
}

impl X86JitCompiler {
    /// Points `REG_LOCAL_BASE` at the spill slot `r`.
    fn emit_local_base(&mut self, r: Register)
        requires
            r is Stack,
        ensures
            final(self)@ == appended(old(self)@, local_base_code(r->Stack_0 as nat)),
    {
        if let Register::Stack(o) = r {
            self.push_inst(X86Inst::Mov { dst: Register::Reg(REG_LOCAL_BASE), src: Register::Reg(X86Register::Rbp) });
            self.push_inst(X86Inst::SubImm { dst: REG_LOCAL_BASE, value: o as u64 });
            assert(self@.code =~= old(self)@.code + local_base_code(o as nat));
        }
    }

    /// Lays out the parameters and the declared locals of `fdecl` in spill
    /// slots, each parameter copied from where the caller passed it and each
    /// local set to zero, and returns the types of the locals.
    pub fn setup_locals(&mut self, fdecl: &FuncDecl) -> (res: Result<Vec<ValueType>, JitError>)
        ensures
            match spec_setup_locals(old(self)@, fdecl@) {
                Ok((s, types)) => res is Ok && res->Ok_0@ == types && final(self)@ == s,
                Err(e) => res == Err::<Vec<ValueType>, JitError>(e),
            },
    {
        let ghost st0 = LocalsState { s: old(self)@, types: Seq::empty(), base_set: false };
        let params = &fdecl.get_sig().params;
        let mut local_types: Vec<ValueType> = Vec::new();
        let mut local_base_set = false;
        let mut i: usize = 0;
        while i < params.len()
            invariant
                i <= params@.len(),
                params@ == fdecl@.sig.params,
                st0 == (LocalsState { s: old(self)@, types: Seq::empty(), base_set: false }),
                params_fold(st0, params@, i as nat) == Ok::<LocalsState, JitError>(
                    LocalsState { s: self@, types: local_types@, base_set: local_base_set },
                ),
            decreases params.len() - i,
        {
            let ghost st = LocalsState { s: self@, types: local_types@, base_set: local_base_set };
            let t = params[i];
            let fail = if !self.has_spill_room() {
                Some(JitError::OutOfStackSpace)
            } else if t != ValType::I32 && t != ValType::F64 {
                Some(JitError::Unsupported)
            } else if i >= 6 && i - 6 > 268435453 {
                Some(JitError::TooManyArguments)
            } else {
                None
            };
            if let Some(e) = fail {
                proof {
                    assert(params_fold(st0, params@, (i + 1) as nat) == Err::<LocalsState, JitError>(e));
                    lemma_params_err_stays(st0, params@, (i + 1) as nat, params@.len());
                }
                return Err(e);
            }
            let r = self.alloc_spill(ValueType::I32);
            if !local_base_set {
                self.emit_local_base(r.reg);
                local_base_set = true;
            }
            let ghost mid = self@.code;
            if i < 6 {
                self.emit_mov(r.reg, Register::from_ith_argument(i as u32));
            } else {
                let disp: i64 = ((i - 6) * 8 + 16) as i64;
                if t == ValType::I32 {
                    self.push_inst(X86Inst::Load { dst: Register::Reg(REG_TEMP), base: X86Register::Rbp, disp });
                    self.emit_mov(r.reg, Register::Reg(REG_TEMP));
                } else {
                    self.push_inst(X86Inst::Load { dst: Register::FpReg(REG_TEMP_FP), base: X86Register::Rbp, disp });
                    self.emit_mov(r.reg, Register::FpReg(REG_TEMP_FP));
                }
            }
            let ty = if t == ValType::F64 {
                ValueType::F64
            } else {
                ValueType::I32
            };
            local_types.push(ty);
            let ghost next = param_step(st, i as nat, t)->Ok_0;
            assert(self@.code =~= next.s.code);
            assert(self@ == next.s);
            i += 1;
        }
        let ghost st1 = LocalsState { s: self@, types: local_types@, base_set: local_base_set };
        let locals = fdecl.get_pure_locals();
        let mut k: usize = 0;
        while k < locals.len()
            invariant
                k <= locals@.len(),
                locals@ == fdecl@.pure_locals,
                params_fold(st0, fdecl@.sig.params, fdecl@.sig.params.len()) == Ok::<LocalsState, JitError>(st1),
                st0 == (LocalsState { s: old(self)@, types: Seq::empty(), base_set: false }),
                locals_fold(st1, locals@, k as nat) == Ok::<LocalsState, JitError>(
                    LocalsState { s: self@, types: local_types@, base_set: local_base_set },
                ),
            decreases locals.len() - k,
        {
            let ghost st = LocalsState { s: self@, types: local_types@, base_set: local_base_set };
            let t = locals[k].1;
            let fail = if !self.has_spill_room() {
                Some(JitError::OutOfStackSpace)
            } else if t != ValType::I32 && t != ValType::F64 {
                Some(JitError::Unsupported)
            } else {
                None
            };
            if let Some(e) = fail {
                proof {
                    assert(locals_fold(st1, locals@, (k + 1) as nat) == Err::<LocalsState, JitError>(e));
                    lemma_locals_err_stays(st1, locals@, (k + 1) as nat, locals@.len());
                }
                return Err(e);
            }
            let r = self.alloc_spill(ValueType::I32);
            self.emit_mov_rawvalue_to_reg(0, r.reg);
            if !local_base_set {
                self.emit_local_base(r.reg);
            }
            let ty = if t == ValType::F64 {
                ValueType::F64
            } else {
                ValueType::I32
            };
            local_types.push(ty);
            let ghost next = local_step(st, t)->Ok_0;
            assert(self@.code =~= next.s.code);
            assert(self@ == next.s);
            k += 1;
        }
        self.clear_regs();
        Ok(local_types)
    }
}


/// Whether the frame-size computation of `f` stays within 64 bits.
pub open spec fn frame_fits(f: FuncDeclView) -> bool {
    (f.pure_locals.len() + f.sig.params.len() + f.insts.len() + 1) * 8 + 15 <= u64::MAX
}

/// The code generator with an empty register stack and no open blocks or
/// reconciliations.
pub open spec fn reset_state(s: CompilerView) -> CompilerView {
    CompilerView {
        regs: AllocatorView { regs: Seq::empty(), stack_offset: 0 },
        frames: Seq::empty(),
        reconcile: Seq::empty(),
        ..s
    }
}

/// The code generator with the function-wide block open: it starts at
/// `start` and ends at `end`.
pub open spec fn initial_frame_state(s: CompilerView, start: Label, end: Label) -> CompilerView {
    CompilerView {
        frames: s.frames.push(FrameView { control_type: ControlFlowType::Block, snapshot: s.regs, start_label: start, end_label: end }),
        ..s
    }
}

/// The code generator after compiling function `f_idx` of the module, or
/// why it cannot be compiled: the per-function state is reset, labels are
/// handed out for its `end` and `else` instructions, the function-wide
/// block opens at the function's label and closes at its last `end`, then
/// come the prologue, the layout of the locals, the body and the return.
pub open spec fn spec_compile_func(s: CompilerView, f_idx: usize) -> Result<CompilerView, JitError> {
    if f_idx >= s.module.funcs.len() {
        Err(JitError::FunctionNotFound)
    } else if f_idx >= s.func_labels.len() {
        Err(JitError::MissingLabel)
    } else {
        let f = s.module.funcs[f_idx as int];
        let start = s.func_labels[f_idx as int];
        if !frame_fits(f) {
            Err(JitError::OutOfStackSpace)
        } else {
            let stack_size = spec_stack_size_in_byte(f) as u64;
            match spec_pregen(reset_state(s), f.insts, InstView::Plain(Instruction::End)) {
                Err(e) => Err(e),
                Ok((ends, s2)) => match spec_pregen(s2, f.insts, InstView::Plain(Instruction::Else)) {
                    Err(e) => Err(e),
                    Ok((elses, s3)) => match label_at(ends, f.insts.len() - 1) {
                        None => Err(JitError::MissingLabel),
                        Some(func_end) => {
                            let s5 = appended(initial_frame_state(s3, start, func_end), prologue_code(start, stack_size));
                            match spec_setup_locals(s5, f) {
                                Err(e) => Err(e),
                                Ok((s6, types)) => {
                                    let env = EmitEnv {
                                        func_index: f_idx as u32,
                                        insts: f.insts,
                                        local_types: types,
                                        stack_size,
                                        else_labels: elses,
                                        end_labels: ends,
                                    };
                                    match spec_emit_insts(s6, env, f.insts.len()) {
                                        Err(e) => Err(e),
                                        Ok((s7, _)) => Ok(appended(s7, function_return_code(Some(func_end), s7.regs, stack_size))),
                                    }
                                },
                            }
                        },
                    },
                },
            }
        }
    }
}

/// The code generator after compiling the first `n` functions in order.
pub open spec fn spec_compile_funcs(s: CompilerView, n: nat) -> Result<CompilerView, JitError>
    decreases n,
{
    if n == 0 {
        Ok(s)
    } else {
        match spec_compile_funcs(s, (n - 1) as nat) {
            Err(e) => Err(e),
            Ok(s1) => spec_compile_func(s1, (n - 1) as usize),
        }
    }
}

proof fn lemma_funcs_err_stays(s: CompilerView, m: nat, n: nat)
    requires
        m <= n,
        spec_compile_funcs(s, m) is Err,
    ensures
        spec_compile_funcs(s, n) == spec_compile_funcs(s, m),
    decreases n - m,
{
    if m < n {
        lemma_funcs_err_stays(s, m, (n - 1) as nat);
    }
}

impl X86JitCompiler {
    /// Opens the function-wide block, from `start_label` to `end_label`.
    pub fn push_initial_control_frame(&mut self, start_label: Label, end_label: Label)
        ensures
            final(self)@ == initial_frame_state(old(self)@, start_label, end_label),
    {
        let snapshot = self.regs_snapshot();
        self.push_frame(
            ControlFrame {
                control_type: ControlFlowType::Block,
                entry_regalloc_snapshot: snapshot,
                start_label,
                end_label,
            },
        );
    }

    /// Compiles function `func_index` of the module.
    pub fn compile_func(&mut self, func_index: usize) -> (res: Result<(), JitError>)
        ensures
            outcome(res, final(self)@, spec_compile_func(old(self)@, func_index)),
    {
        let funcs = self.module().get_funcs();
        if func_index >= funcs.len() {
            return Err(JitError::FunctionNotFound);
        }
        let fdecl = funcs[func_index].clone();
        let func_start = match self.func_label(func_index) {
            Some(l) => l,
            None => return Err(JitError::MissingLabel),
        };
        let nframe: u128 = (fdecl.get_pure_locals().len() as u128 + fdecl.get_sig().params.len() as u128
            + fdecl.get_insts().len() as u128 + 1) * 8 + 15;
        if nframe > u64::MAX as u128 {
            return Err(JitError::OutOfStackSpace);
        }
        let stack_size = get_stack_size_in_byte(&fdecl);
        self.reset_function_state();
        let end_labels = self.pregen_labals_for_ends(fdecl.get_insts())?;
        let else_labels = self.pregen_labels_for_else(fdecl.get_insts())?;
        let n = fdecl.get_insts().len();
        let func_end = if n == 0 {
            None
        } else {
            label_at_exec(&end_labels, n - 1)
        };
        let func_end = match func_end {
            Some(l) => l,
            None => return Err(JitError::MissingLabel),
        };
        self.push_initial_control_frame(func_start, func_end);
        self.prologue(func_start, stack_size);
        let local_types = self.setup_locals(&fdecl)?;
        self.emit_asm(#[verifier::truncate] (func_index as u32), fdecl.get_insts(), &local_types, stack_size, &else_labels, &end_labels)?;
        self.emit_function_return(Some(func_end), stack_size);
        Ok(())
    }

    /// Compiles every function of the module, in order.
    pub fn compile_functions(&mut self) -> (res: Result<(), JitError>)
        ensures
            outcome(res, final(self)@, spec_compile_funcs(old(self)@, old(self)@.module.funcs.len())),
    {
        let n = self.module().get_funcs().len();
        let mut i: usize = 0;
        while i < n
            invariant
                i <= n == old(self)@.module.funcs.len(),
                spec_compile_funcs(old(self)@, i as nat) == Ok::<CompilerView, JitError>(self@),
            decreases n - i,
        {
            let r = self.compile_func(i);
            if r.is_err() {
                proof {
                    lemma_funcs_err_stays(old(self)@, (i + 1) as nat, n as nat);
                }
                return r;
            }
            i += 1;
        }
        Ok(())
    }
}

} // verus!
