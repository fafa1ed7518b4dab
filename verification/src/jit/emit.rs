//! Compiling the body of a function, instruction by instruction.
use vstd::prelude::*;

use super::access::{global_get_code, global_set_code, load_code, store_code, valid_width};
use super::compiler::{
    allocated, appended, call_state, f64_binop_state, i32_binop_state, i32_divides, local_get_code,
    local_set_code, popped, select_code, with_regs, CompilerView, X86JitCompiler,
};
use super::control::{br_if_code, br_table_code, br_target, block_state, call_indirect_state, if_state, reconcile_code};
use super::function::return_code;
use super::mem::{grow_code, read_size_code};
use super::regalloc::allocator::{next_fp_location, next_gp_location, AllocatorView};
use super::regalloc::register::{Register, REG_TEMP};
use super::x86::{spec_mov_rawvalue, Label, X86Inst};
use super::{JitError, ValueType};
use crate::module::insts::{insts_view, I32Binop, InstView, Instruction};
use crate::vm::control::{closest_else, find_closest_else, find_matching_end, matching_end};

verus! {

/// What the compilation of a function body works with: the function's index,
/// its instructions, the types of its locals, its spill area and the labels
/// handed out for its `else` and `end` instructions, by position.
pub struct EmitEnv {
    pub func_index: u32,
    pub insts: Seq<InstView>,
    pub local_types: Seq<ValueType>,
    pub stack_size: u64,
    pub else_labels: Seq<Option<Label>>,
    pub end_labels: Seq<Option<Label>>,
}

/// The label at position `i`, if any.
pub open spec fn label_at(v: Seq<Option<Label>>, i: int) -> Option<Label> {
    if 0 <= i < v.len() {
        v[i]
    } else {
        None
    }
}

/// Whether one more value fits in the spill area.
pub open spec fn spill_room(s: CompilerView) -> bool {
    s.regs.stack_offset + 8 <= usize::MAX
}

/// Whether `n` more labels can be handed out.
pub open spec fn label_room(s: CompilerView, n: nat) -> bool {
    s.next_label + n <= u32::MAX
}

/// The code generator after `v` is put in a new location of type `ty`
/// handed out by `next`, with `code` as what computes it there.
pub open spec fn pushed_with(s: CompilerView, r: Register, ty: ValueType, code: Seq<X86Inst>) -> CompilerView {
    appended(allocated(s, r, ty), code)
}

/// A new integer value computed by `code(r)` into the next location `r`.
pub open spec fn spec_push_gp(s: CompilerView, code: spec_fn(Register) -> Seq<X86Inst>) -> Result<CompilerView, JitError> {
    if !spill_room(s) {
        Err(JitError::OutOfStackSpace)
    } else {
        let r = next_gp_location(s.regs);
        Ok(pushed_with(s, r, ValueType::I32, code(r)))
    }
}

/// A load: pops the address and pushes the loaded value.
pub open spec fn spec_load(s: CompilerView, offset: u32, width: u32, sign_extend: bool) -> Result<CompilerView, JitError> {
    if s.regs.regs.len() == 0 {
        Err(JitError::StackUnderflow)
    } else {
        let base = s.regs.regs.last();
        spec_push_gp(popped(s), |r: Register| load_code(r, base.reg, offset, width, sign_extend))
    }
}

/// A store: pops the value and the address.
pub open spec fn spec_store(s: CompilerView, offset: u32, width: u32) -> Result<CompilerView, JitError> {
    if s.regs.regs.len() < 2 {
        Err(JitError::StackUnderflow)
    } else {
        let value = s.regs.regs.last();
        let base = s.regs.regs.drop_last().last();
        Ok(appended(popped(popped(s)), store_code(base.reg, offset, value.reg, width)))
    }
}

/// Opening a `block` at position `i`.
pub open spec fn spec_block(s: CompilerView, env: EmitEnv, i: int) -> Result<CompilerView, JitError> {
    if !label_room(s, 1) {
        Err(JitError::OutOfLabels)
    } else {
        match matching_end(env.insts, i) {
            None => Err(JitError::NoMatchingEnd),
            Some(e) => match label_at(env.end_labels, e) {
                None => Err(JitError::MissingLabel),
                Some(end) => Ok(block_state(CompilerView { next_label: s.next_label + 1, ..s }, Label(s.next_label as u32), end)),
            },
        }
    }
}

/// Opening an `if` at position `i` on the popped condition.
pub open spec fn spec_if(s: CompilerView, env: EmitEnv, i: int) -> Result<CompilerView, JitError> {
    match matching_end(env.insts, i) {
        None => Err(JitError::NoMatchingEnd),
        Some(e) => {
            let else_label = match closest_else(env.insts, i, e) {
                Some(p) => match label_at(env.else_labels, p) {
                    Some(l) => Ok(Some(l)),
                    None => Err(JitError::MissingLabel),
                },
                None => Ok(None),
            };
            match else_label {
                Err(err) => Err(err),
                Ok(el) => match label_at(env.end_labels, e) {
                    None => Err(JitError::MissingLabel),
                    Some(end) => if s.regs.regs.len() == 0 {
                        Err(JitError::StackUnderflow)
                    } else if !label_room(s, 1) {
                        Err(JitError::OutOfLabels)
                    } else {
                        Ok(if_state(popped(s), s.regs.regs.last().reg, el, end))
                    },
                },
            }
        },
    }
}

/// An `else` at position `i`: the `then` arm jumps to the block's end, the
/// `else` label is bound and the register stack goes back to the block's entry.
pub open spec fn spec_else(s: CompilerView, env: EmitEnv, i: int) -> Result<CompilerView, JitError> {
    if s.frames.len() == 0 {
        Err(JitError::ControlStackEmpty)
    } else {
        let f = s.frames.last();
        match label_at(env.else_labels, i) {
            None => Err(JitError::MissingLabel),
            Some(l) => Ok(with_regs(
                appended(s, seq![X86Inst::Jmp { target: f.end_label }, X86Inst::Bind { label: l }]),
                f.snapshot,
            )),
        }
    }
}

/// An `end` at position `i`: the block closes, the code jumps to its label,
/// the waiting branches are reconciled and the label is bound.
pub open spec fn spec_end(s: CompilerView, env: EmitEnv, i: int) -> Result<CompilerView, JitError> {
    if s.frames.len() == 0 {
        Err(JitError::ControlStackEmpty)
    } else {
        match label_at(env.end_labels, i) {
            None => Err(JitError::MissingLabel),
            Some(l) => {
                let s1 = appended(CompilerView { frames: s.frames.drop_last(), ..s }, seq![X86Inst::Jmp { target: l }]);
                match reconcile_code(s1.reconcile, l, s1.regs.regs) {
                    Err(e) => Err(e),
                    Ok(c) => Ok(appended(s1, c + seq![X86Inst::Bind { label: l }])),
                }
            },
        }
    }
}

/// A conditional branch on the popped condition.
pub open spec fn spec_br_if(s: CompilerView, depth: u32) -> Result<CompilerView, JitError> {
    if s.regs.regs.len() == 0 {
        Err(JitError::StackUnderflow)
    } else if !label_room(s, 1) {
        Err(JitError::OutOfLabels)
    } else {
        let cond = s.regs.regs.last();
        let s1 = popped(s);
        match br_target(s1.frames, depth) {
            Err(e) => Err(e),
            Ok(l) => Ok(CompilerView {
                code: s1.code + br_if_code(cond.reg, Label(s1.next_label as u32), l),
                next_label: s1.next_label + 1,
                ..s1
            }),
        }
    }
}

/// A call of function `func_idx`, whose arguments are on the register stack.
pub open spec fn spec_call(s: CompilerView, func_idx: u32) -> Result<CompilerView, JitError> {
    if func_idx >= s.module.funcs.len() {
        Err(JitError::FunctionNotFound)
    } else {
        let nargs = s.module.funcs[func_idx as int].sig.params.len();
        if nargs > s.regs.regs.len() {
            Err(JitError::StackUnderflow)
        } else if nargs * 8 > u64::MAX {
            Err(JitError::TooManyArguments)
        } else if !spill_room(s) {
            Err(JitError::OutOfStackSpace)
        } else {
            Ok(call_state(appended(s, spec_mov_rawvalue(func_idx as u64, Register::Reg(REG_TEMP))), REG_TEMP, nargs))
        }
    }
}

/// `select`: pops the condition, `b` and `a`; `a` stays on the stack and
/// receives `b` when the condition is not zero.
pub open spec fn spec_select(s: CompilerView) -> Result<CompilerView, JitError> {
    let r = s.regs.regs;
    if r.len() < 3 {
        Err(JitError::StackUnderflow)
    } else if !label_room(s, 2) {
        Err(JitError::OutOfLabels)
    } else {
        let cond = r.last();
        let b = r.drop_last().last();
        let a = r.drop_last().drop_last().last();
        Ok(CompilerView {
            regs: AllocatorView { regs: r.drop_last().drop_last(), ..s.regs },
            code: s.code + select_code(a.reg, cond.reg, b.reg, a.reg, Label(s.next_label as u32), Label((s.next_label + 1) as u32)),
            next_label: s.next_label + 2,
            ..s
        })
    }
}

/// A local instruction on local `idx`.
pub open spec fn local_type(env: EmitEnv, idx: u32) -> Result<ValueType, JitError> {
    if idx >= env.local_types.len() {
        Err(JitError::LocalNotFound)
    } else {
        Ok(env.local_types[idx as int])
    }
}

/// The memory instructions: the memory, their width and whether they
/// sign-extend.
pub open spec fn load_shape(i: Instruction) -> Option<(u32, u32, bool)> {
    match i {
        Instruction::I32Load { memarg } => Some((memarg.offset, 4u32, false)),
        Instruction::F64Load { memarg } => Some((memarg.offset, 8u32, false)),
        Instruction::I32Load8S { memarg } => Some((memarg.offset, 1u32, true)),
        Instruction::I32Load8U { memarg } => Some((memarg.offset, 1u32, false)),
        Instruction::I32Load16S { memarg } => Some((memarg.offset, 2u32, true)),
        Instruction::I32Load16U { memarg } => Some((memarg.offset, 2u32, false)),
        _ => None,
    }
}

pub open spec fn store_shape(i: Instruction) -> Option<(u32, u32)> {
    match i {
        Instruction::I32Store { memarg } => Some((memarg.offset, 4u32)),
        Instruction::F64Store { memarg } => Some((memarg.offset, 8u32)),
        Instruction::I32Store8 { memarg } => Some((memarg.offset, 1u32)),
        Instruction::I32Store16 { memarg } => Some((memarg.offset, 2u32)),
        _ => None,
    }
}

/// The code generator after the instruction at position `i` of the body,
/// with `nbr` branch tables compiled before it, or why it cannot be
/// compiled. The second component counts the branch tables.
pub open spec fn spec_emit_inst(s: CompilerView, env: EmitEnv, nbr: nat, i: int) -> Result<(CompilerView, nat), JitError> {
    match env.insts[i] {
        InstView::BrTable { targets, default_target } => if s.regs.regs.len() == 0 {
            Err(JitError::StackUnderflow)
        } else if !label_room(s, 1) {
            Err(JitError::OutOfLabels)
        } else {
            let index = s.regs.regs.last();
            let s1 = popped(s);
            match br_table_code(s1, index.reg, targets, default_target, env.func_index, nbr as usize) {
                Err(e) => Err(e),
                Ok(c) => Ok((CompilerView { code: s1.code + c, next_label: s1.next_label + 1, ..s1 }, nbr + 1)),
            }
        },
        InstView::Plain(inst) => {
            let r: Result<CompilerView, JitError> = match inst {
                Instruction::I32Const { value } => spec_push_gp(s, |r: Register| spec_mov_rawvalue(#[verifier::truncate] (value as u64), r)),
                Instruction::Unreachable => Ok(appended(s, seq![X86Inst::Jmp { target: s.trap_label }])),
                Instruction::Nop => Ok(s),
                Instruction::Block { .. } => spec_block(s, env, i),
                Instruction::If { .. } => spec_if(s, env, i),
                Instruction::Else => spec_else(s, env, i),
                Instruction::End => spec_end(s, env, i),
                Instruction::Br { rel_depth } => match br_target(s.frames, rel_depth) {
                    Err(e) => Err(e),
                    Ok(l) => Ok(appended(s, seq![X86Inst::Jmp { target: l }])),
                },
                Instruction::BrIf { rel_depth } => spec_br_if(s, rel_depth),
                Instruction::Return => Ok(appended(s, return_code(s.regs, env.stack_size))),
                Instruction::Call { func_idx } => spec_call(s, func_idx),
                Instruction::CallIndirect { type_index, table_index } => if s.regs.regs.len() == 0 {
                    Err(JitError::StackUnderflow)
                } else {
                    call_indirect_state(popped(s), s.regs.regs.last().reg, type_index, table_index)
                },
                Instruction::Drop => if s.regs.regs.len() == 0 {
                    Err(JitError::StackUnderflow)
                } else {
                    Ok(popped(s))
                },
                Instruction::Select => spec_select(s),
                Instruction::LocalGet { local_idx } => if !spill_room(s) {
                    Err(JitError::OutOfStackSpace)
                } else {
                    match local_type(env, local_idx) {
                        Err(e) => Err(e),
                        Ok(ty) => spec_push_gp(s, |r: Register| local_get_code(r, local_idx, ty)),
                    }
                },
                Instruction::LocalSet { local_idx } => if s.regs.regs.len() == 0 {
                    Err(JitError::StackUnderflow)
                } else {
                    match local_type(env, local_idx) {
                        Err(e) => Err(e),
                        Ok(ty) => Ok(appended(popped(s), local_set_code(s.regs.regs.last().reg, local_idx, ty))),
                    }
                },
                Instruction::LocalTee { local_idx } => if s.regs.regs.len() == 0 {
                    Err(JitError::StackUnderflow)
                } else {
                    match local_type(env, local_idx) {
                        Err(e) => Err(e),
                        Ok(ty) => Ok(appended(s, local_set_code(s.regs.regs.last().reg, local_idx, ty))),
                    }
                },
                Instruction::GlobalGet { global_idx } => spec_push_gp(s, |r: Register| global_get_code(r, global_idx)),
                Instruction::GlobalSet { global_idx } => if s.regs.regs.len() == 0 {
                    Err(JitError::StackUnderflow)
                } else {
                    Ok(appended(popped(s), global_set_code(s.regs.regs.last().reg, global_idx)))
                },
                Instruction::MemorySize { mem } => if mem != 0 {
                    Err(JitError::InvalidMemoryIndex)
                } else {
                    spec_push_gp(s, |r: Register| read_size_code(r))
                },
                Instruction::MemoryGrow { mem } => if mem != 0 {
                    Err(JitError::InvalidMemoryIndex)
                } else if s.regs.regs.len() == 0 {
                    Err(JitError::StackUnderflow)
                } else if !spill_room(s) {
                    Err(JitError::OutOfStackSpace)
                } else {
                    let s1 = popped(s);
                    let dst = Register::Stack((s1.regs.stack_offset + 8) as usize);
                    Ok(pushed_with(s1, dst, ValueType::I32, grow_code(s.regs.regs.last().reg)))
                },
                Instruction::F64Const { value } => if !spill_room(s) {
                    Err(JitError::OutOfStackSpace)
                } else {
                    let r = next_fp_location(s.regs);
                    Ok(pushed_with(s, r, ValueType::F64, spec_mov_rawvalue(value, r)))
                },
                Instruction::I32Binop(op) => if s.regs.regs.len() < 2 {
                    Err(JitError::StackUnderflow)
                } else if i32_divides(op) && !label_room(s, 1) {
                    Err(JitError::OutOfLabels)
                } else {
                    Ok(i32_binop_state(s, op))
                },
                Instruction::F64Binop(op) => if s.regs.regs.len() < 2 {
                    Err(JitError::StackUnderflow)
                } else if !spill_room(s) {
                    Err(JitError::OutOfStackSpace)
                } else {
                    Ok(f64_binop_state(s, op))
                },
                _ => match load_shape(inst) {
                    Some((offset, width, sign_extend)) => spec_load(s, offset, width, sign_extend),
                    None => match store_shape(inst) {
                        Some((offset, width)) => spec_store(s, offset, width),
                        None => Err(JitError::Unsupported),
                    },
                },
            };
            match r {
                Err(e) => Err(e),
                Ok(s1) => Ok((s1, nbr)),
            }
        },
    }
}

/// The code generator after the first `n` instructions of the body, and
/// the number of branch tables among them, or why they cannot be compiled.
pub open spec fn spec_emit_insts(s: CompilerView, env: EmitEnv, n: nat) -> Result<(CompilerView, nat), JitError>
    decreases n,
{
    if n == 0 {
        Ok((s, 0))
    } else {
        match spec_emit_insts(s, env, (n - 1) as nat) {
            Err(e) => Err(e),
            Ok((s1, nbr)) => spec_emit_inst(s1, env, nbr, n - 1),
        }
    }
}


/// What a compilation step promises: `res` and the state `after` are those
/// that `expected` gives.
pub open spec fn outcome(res: Result<(), JitError>, after: CompilerView, expected: Result<CompilerView, JitError>) -> bool {
    match expected {
        Ok(s) => res is Ok && after == s,
        Err(e) => res == Err::<(), JitError>(e),
    }
}

/// The environment of a body from the arguments of `emit_asm`.
pub open spec fn env_of(
    func_index: u32,
    insts: Seq<Instruction>,
    local_types: Seq<ValueType>,
    stack_size: u64,
    else_labels: Seq<Option<Label>>,
    end_labels: Seq<Option<Label>>,
) -> EmitEnv {
    EmitEnv { func_index, insts: insts_view(insts), local_types, stack_size, else_labels, end_labels }
}

/// The label at position `i` of `v`, if any.
pub(crate) fn label_at_exec(v: &Vec<Option<Label>>, i: usize) -> (res: Option<Label>)
    ensures
        res == label_at(v@, i as int),
{
    if i < v.len() {
        v[i]
    } else {
        None
    }
}

impl X86JitCompiler {
    fn emit_block_at(&mut self, i: usize, insts: &Vec<Instruction>, end_labels: &Vec<Option<Label>>, Ghost(env): Ghost<EmitEnv>) -> (res: Result<(), JitError>)
        requires
            env.insts == insts_view(insts@),
            env.end_labels == end_labels@,
        ensures
            outcome(res, final(self)@, spec_block(old(self)@, env, i as int)),
    {
        if !self.has_label_room(1) {
            return Err(JitError::OutOfLabels);
        }
        let e = match find_matching_end(insts, i) {
            Some(e) => e,
            None => return Err(JitError::NoMatchingEnd),
        };
        let end = match label_at_exec(end_labels, e) {
            Some(l) => l,
            None => return Err(JitError::MissingLabel),
        };
        let block_begin = self.new_label();
        self.emit_block(block_begin, end);
        Ok(())
    }

    fn emit_if_at(
        &mut self,
        i: usize,
        insts: &Vec<Instruction>,
        else_labels: &Vec<Option<Label>>,
        end_labels: &Vec<Option<Label>>,
        Ghost(env): Ghost<EmitEnv>,
    ) -> (res: Result<(), JitError>)
        requires
            env.insts == insts_view(insts@),
            env.else_labels == else_labels@,
            env.end_labels == end_labels@,
        ensures
            outcome(res, final(self)@, spec_if(old(self)@, env, i as int)),
    {
        let e = match find_matching_end(insts, i) {
            Some(e) => e,
            None => return Err(JitError::NoMatchingEnd),
        };
        let else_label = match find_closest_else(insts, i, e) {
            Some(p) => match label_at_exec(else_labels, p) {
                Some(l) => Some(l),
                None => return Err(JitError::MissingLabel),
            },
            None => None,
        };
        let end = match label_at_exec(end_labels, e) {
            Some(l) => l,
            None => return Err(JitError::MissingLabel),
        };
        if self.regs_len() == 0 {
            return Err(JitError::StackUnderflow);
        }
        if !self.has_label_room(1) {
            return Err(JitError::OutOfLabels);
        }
        let cond = self.pop_reg();
        self.emit_if(cond.reg, else_label, end);
        Ok(())
    }

    fn emit_else_at(&mut self, i: usize, else_labels: &Vec<Option<Label>>, Ghost(env): Ghost<EmitEnv>) -> (res: Result<(), JitError>)
        requires
            env.else_labels == else_labels@,
        ensures
            outcome(res, final(self)@, spec_else(old(self)@, env, i as int)),
    {
        let n = self.frames_len();
        if n == 0 {
            return Err(JitError::ControlStackEmpty);
        }
        let l = match label_at_exec(else_labels, i) {
            Some(l) => l,
            None => return Err(JitError::MissingLabel),
        };
        let f = self.frame(n - 1);
        let end_label = f.end_label;
        let snapshot = f.entry_regalloc_snapshot.clone();
        self.emit_jmp(end_label);
        self.emit_single_label(l);
        self.set_regs(snapshot);
        assert(self@.code =~= old(self)@.code + seq![X86Inst::Jmp { target: end_label }, X86Inst::Bind { label: l }]);
        Ok(())
    }

    fn emit_end_at(&mut self, i: usize, end_labels: &Vec<Option<Label>>, Ghost(env): Ghost<EmitEnv>) -> (res: Result<(), JitError>)
        requires
            env.end_labels == end_labels@,
        ensures
            outcome(res, final(self)@, spec_end(old(self)@, env, i as int)),
    {
        if self.frames_len() == 0 {
            return Err(JitError::ControlStackEmpty);
        }
        let l = match label_at_exec(end_labels, i) {
            Some(l) => l,
            None => return Err(JitError::MissingLabel),
        };
        let _ = self.pop_frame();
        self.emit_jmp(l);
        let ghost s1 = self@;
        self.emit_reg_reconciliation(l)?;
        self.emit_single_label(l);
        let ghost c = reconcile_code(s1.reconcile, l, s1.regs.regs)->Ok_0;
        assert(self@.code =~= s1.code + (c + seq![X86Inst::Bind { label: l }]));
        Ok(())
    }

    fn emit_br_if_inst(&mut self, rel_depth: u32) -> (res: Result<(), JitError>)
        ensures
            outcome(res, final(self)@, spec_br_if(old(self)@, rel_depth)),
    {
        if self.regs_len() == 0 {
            return Err(JitError::StackUnderflow);
        }
        if !self.has_label_room(1) {
            return Err(JitError::OutOfLabels);
        }
        let cond = self.pop_reg();
        self.emit_br_if(cond.reg, rel_depth)
    }

    fn emit_call_inst(&mut self, func_idx: u32) -> (res: Result<(), JitError>)
        ensures
            outcome(res, final(self)@, spec_call(old(self)@, func_idx)),
    {
        let nargs = match self.module().get_func(func_idx) {
            Some(f) => f.get_sig().params.len(),
            None => return Err(JitError::FunctionNotFound),
        };
        if nargs > self.regs_len() {
            return Err(JitError::StackUnderflow);
        }
        if nargs as u128 * 8 > u64::MAX as u128 {
            return Err(JitError::TooManyArguments);
        }
        if !self.has_spill_room() {
            return Err(JitError::OutOfStackSpace);
        }
        self.emit_mov_rawvalue_to_reg(func_idx as u64, Register::Reg(REG_TEMP));
        self.emit_call(REG_TEMP, nargs);
        Ok(())
    }

    fn emit_select_inst(&mut self) -> (res: Result<(), JitError>)
        ensures
            outcome(res, final(self)@, spec_select(old(self)@)),
    {
        if self.regs_len() < 3 {
            return Err(JitError::StackUnderflow);
        }
        if !self.has_label_room(2) {
            return Err(JitError::OutOfLabels);
        }
        let ghost r = self@.regs.regs;
        let cond = self.pop_reg();
        let b = self.pop_reg();
        let a = self.pop_reg();
        self.emit_select(a, cond, b, a);
        self.push_reg(a);
        assert(r.drop_last().drop_last().drop_last().push(a) =~= r.drop_last().drop_last());
        assert(self@ =~= spec_select(old(self)@)->Ok_0);
        Ok(())
    }

    fn emit_load_inst(&mut self, offset: u32, width: u32, sign_extend: bool) -> (res: Result<(), JitError>)
        requires
            valid_width(width),
        ensures
            outcome(res, final(self)@, spec_load(old(self)@, offset, width, sign_extend)),
    {
        if self.regs_len() == 0 {
            return Err(JitError::StackUnderflow);
        }
        if !self.has_spill_room() {
            return Err(JitError::OutOfStackSpace);
        }
        let base = self.pop_reg();
        let dst = self.alloc_gp();
        self.emit_load_mem(dst.reg, base.reg, offset, width, sign_extend);
        Ok(())
    }

    fn emit_store_inst(&mut self, offset: u32, width: u32) -> (res: Result<(), JitError>)
        requires
            valid_width(width),
        ensures
            outcome(res, final(self)@, spec_store(old(self)@, offset, width)),
    {
        if self.regs_len() < 2 {
            return Err(JitError::StackUnderflow);
        }
        let value = self.pop_reg();
        let base = self.pop_reg();
        self.emit_store_mem(base.reg, offset, value.reg, width);
        Ok(())
    }
}


impl X86JitCompiler {
    /// Compiles the instruction at position `i` of the body; `nbrtable`
    /// counts the branch tables compiled so far.
    #[verifier::rlimit(40)]
    fn emit_inst(
        &mut self,
        i: usize,
        insts: &Vec<Instruction>,
        local_types: &Vec<ValueType>,
        stack_size: u64,
        else_labels: &Vec<Option<Label>>,
        end_labels: &Vec<Option<Label>>,
        func_index: u32,
        nbrtable: &mut usize,
        Ghost(env): Ghost<EmitEnv>,
    ) -> (res: Result<(), JitError>)
        requires
            i < insts@.len(),
            *old(nbrtable) <= i,
            env == env_of(func_index, insts@, local_types@, stack_size, else_labels@, end_labels@),
        ensures
            match spec_emit_inst(old(self)@, env, *old(nbrtable) as nat, i as int) {
                Ok((s, nb)) => res is Ok && final(self)@ == s && *final(nbrtable) == nb,
                Err(e) => res == Err::<(), JitError>(e),
            },
    {
        let ghost s0 = self@;
        assert(env.insts[i as int] == insts@[i as int]@);
        match &insts[i] {
            Instruction::BrTable { table } => {
                if self.regs_len() == 0 {
                    return Err(JitError::StackUnderflow);
                }
                if !self.has_label_room(1) {
                    return Err(JitError::OutOfLabels);
                }
                let index = self.pop_reg();
                let n_insts = insts.len();
                assert(*nbrtable < n_insts);
                self.emit_br_table(index.reg, table, func_index, *nbrtable)?;
                *nbrtable = *nbrtable + 1;
                Ok(())
            },
            Instruction::I32Const { value } => {
                if !self.has_spill_room() {
                    return Err(JitError::OutOfStackSpace);
                }
                let r = self.alloc_gp();
                self.emit_mov_rawvalue_to_reg(#[verifier::truncate] (*value as u64), r.reg);
                Ok(())
            },
            Instruction::Unreachable => {
                self.emit_trap();
                Ok(())
            },
            Instruction::Nop => Ok(()),
            Instruction::Block { .. } => self.emit_block_at(i, insts, end_labels, Ghost(env)),
            Instruction::If { .. } => self.emit_if_at(i, insts, else_labels, end_labels, Ghost(env)),
            Instruction::Else => self.emit_else_at(i, else_labels, Ghost(env)),
            Instruction::End => self.emit_end_at(i, end_labels, Ghost(env)),
            Instruction::Br { rel_depth } => self.emit_br(*rel_depth),
            Instruction::BrIf { rel_depth } => self.emit_br_if_inst(*rel_depth),
            Instruction::Return => {
                self.emit_function_return(None, stack_size);
                Ok(())
            },
            Instruction::Call { func_idx } => self.emit_call_inst(*func_idx),
            Instruction::CallIndirect { type_index, table_index } => {
                if self.regs_len() == 0 {
                    return Err(JitError::StackUnderflow);
                }
                let callee = self.pop_reg();
                self.emit_call_indirect(callee.reg, *type_index, *table_index)
            },
            Instruction::Drop => {
                if self.regs_len() == 0 {
                    return Err(JitError::StackUnderflow);
                }
                let _ = self.pop_reg();
                Ok(())
            },
            Instruction::Select => self.emit_select_inst(),
            Instruction::LocalGet { local_idx } => {
                if !self.has_spill_room() {
                    return Err(JitError::OutOfStackSpace);
                }
                if *local_idx as usize >= local_types.len() {
                    return Err(JitError::LocalNotFound);
                }
                let dst = self.alloc_gp();
                self.emit_local_get(dst.reg, *local_idx, local_types);
                Ok(())
            },
            Instruction::LocalSet { local_idx } => {
                if self.regs_len() == 0 {
                    return Err(JitError::StackUnderflow);
                }
                if *local_idx as usize >= local_types.len() {
                    return Err(JitError::LocalNotFound);
                }
                let value = self.pop_reg();
                self.emit_local_set(value.reg, *local_idx, local_types[*local_idx as usize]);
                Ok(())
            },
            Instruction::LocalTee { local_idx } => {
                if self.regs_len() == 0 {
                    return Err(JitError::StackUnderflow);
                }
                if *local_idx as usize >= local_types.len() {
                    return Err(JitError::LocalNotFound);
                }
                let ghost r = self@.regs.regs;
                let value = self.pop_reg();
                self.emit_local_tee(value.reg, *local_idx, local_types[*local_idx as usize]);
                self.push_reg(value);
                assert(r.drop_last().push(value) =~= r);
                assert(self@ =~= appended(s0, local_set_code(value.reg, *local_idx, local_types@[*local_idx as int])));
                Ok(())
            },
            Instruction::GlobalGet { global_idx } => {
                if !self.has_spill_room() {
                    return Err(JitError::OutOfStackSpace);
                }
                let dst = self.alloc_gp();
                self.emit_global_get(dst.reg, *global_idx);
                Ok(())
            },
            Instruction::GlobalSet { global_idx } => {
                if self.regs_len() == 0 {
                    return Err(JitError::StackUnderflow);
                }
                let value = self.pop_reg();
                self.emit_global_set(value.reg, *global_idx);
                Ok(())
            },
            Instruction::I32Load { memarg } => self.emit_load_inst(memarg.offset, 4, false),
            Instruction::F64Load { memarg } => self.emit_load_inst(memarg.offset, 8, false),
            Instruction::I32Load8S { memarg } => self.emit_load_inst(memarg.offset, 1, true),
            Instruction::I32Load8U { memarg } => self.emit_load_inst(memarg.offset, 1, false),
            Instruction::I32Load16S { memarg } => self.emit_load_inst(memarg.offset, 2, true),
            Instruction::I32Load16U { memarg } => self.emit_load_inst(memarg.offset, 2, false),
            Instruction::I32Store { memarg } => self.emit_store_inst(memarg.offset, 4),
            Instruction::F64Store { memarg } => self.emit_store_inst(memarg.offset, 8),
            Instruction::I32Store8 { memarg } => self.emit_store_inst(memarg.offset, 1),
            Instruction::I32Store16 { memarg } => self.emit_store_inst(memarg.offset, 2),
            Instruction::MemorySize { mem } => {
                if *mem != 0 {
                    return Err(JitError::InvalidMemoryIndex);
                }
                if !self.has_spill_room() {
                    return Err(JitError::OutOfStackSpace);
                }
                let dst = self.alloc_gp();
                self.store_mem_page_size(dst.reg);
                Ok(())
            },
            Instruction::MemoryGrow { mem } => {
                if *mem != 0 {
                    return Err(JitError::InvalidMemoryIndex);
                }
                if self.regs_len() == 0 {
                    return Err(JitError::StackUnderflow);
                }
                if !self.has_spill_room() {
                    return Err(JitError::OutOfStackSpace);
                }
                let additional_pages = self.pop_reg();
                let _dst = self.alloc_spill(ValueType::I32);
                self.emit_memory_grow(additional_pages.reg);
                Ok(())
            },
            Instruction::F64Const { value } => {
                if !self.has_spill_room() {
                    return Err(JitError::OutOfStackSpace);
                }
                let r = self.alloc_fp();
                self.emit_mov_rawvalue_to_reg(*value, r.reg);
                Ok(())
            },
            Instruction::I32Binop(op) => {
                if self.regs_len() < 2 {
                    return Err(JitError::StackUnderflow);
                }
                let divides = *op == I32Binop::DivS || *op == I32Binop::RemS || *op == I32Binop::DivU || *op
                    == I32Binop::RemU;
                if divides && !self.has_label_room(1) {
                    return Err(JitError::OutOfLabels);
                }
                self.emit_i32_binop(*op);
                Ok(())
            },
            Instruction::F64Binop(op) => {
                if self.regs_len() < 2 {
                    return Err(JitError::StackUnderflow);
                }
                if !self.has_spill_room() {
                    return Err(JitError::OutOfStackSpace);
                }
                self.emit_f64_binop(*op);
                Ok(())
            },
            _ => Err(JitError::Unsupported),
        }
    }

    /// Compiles the body `insts` of function `func_index`, whose locals have
    /// the types `local_types`, whose spill area takes `stack_size` bytes and
    /// whose `else` and `end` instructions have the labels `else_labels` and
    /// `end_labels` by position.
    pub fn emit_asm(
        &mut self,
        func_index: u32,
        insts: &Vec<Instruction>,
        local_types: &Vec<ValueType>,
        stack_size: u64,
        else_labels: &Vec<Option<Label>>,
        end_labels: &Vec<Option<Label>>,
    ) -> (res: Result<(), JitError>)
        ensures
            match spec_emit_insts(
                old(self)@,
                env_of(func_index, insts@, local_types@, stack_size, else_labels@, end_labels@),
                insts@.len(),
            ) {
                Ok((s, _)) => res is Ok && final(self)@ == s,
                Err(e) => res == Err::<(), JitError>(e),
            },
    {
        let ghost env = env_of(func_index, insts@, local_types@, stack_size, else_labels@, end_labels@);
        let mut nbrtable: usize = 0;
        let mut i: usize = 0;
        while i < insts.len()
            invariant
                i <= insts@.len(),
                nbrtable <= i,
                env == env_of(func_index, insts@, local_types@, stack_size, else_labels@, end_labels@),
                spec_emit_insts(old(self)@, env, i as nat) == Ok::<(CompilerView, nat), JitError>((self@, nbrtable as nat)),
            decreases insts.len() - i,
        {
            let ghost before = self@;
            let ghost nb0 = nbrtable;
            let r = self.emit_inst(i, insts, local_types, stack_size, else_labels, end_labels, func_index, &mut nbrtable, Ghost(env));
            if r.is_err() {
                proof {
                    lemma_emit_err_stays(old(self)@, env, (i + 1) as nat, insts@.len());
                }
                return r;
            }
            proof {
                lemma_emit_inst_counts(before, env, nb0 as nat, i as int);
            }
            i += 1;
        }
        Ok(())
    }
}

/// An instruction counts at most one branch table.
proof fn lemma_emit_inst_counts(s: CompilerView, env: EmitEnv, nbr: nat, i: int)
    ensures
        match spec_emit_inst(s, env, nbr, i) {
            Ok((_, nb)) => nb <= nbr + 1,
            Err(_) => true,
        },
{
}

/// Once compiling the body fails, it fails for every longer prefix.
proof fn lemma_emit_err_stays(s: CompilerView, env: EmitEnv, m: nat, n: nat)
    requires
        m <= n,
        spec_emit_insts(s, env, m) is Err,
    ensures
        spec_emit_insts(s, env, n) == spec_emit_insts(s, env, m),
    decreases n - m,
{
    if m < n {
        lemma_emit_err_stays(s, env, m, (n - 1) as nat);
    }
}


} // verus!
