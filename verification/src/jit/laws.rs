//! Properties of the code generator that hold across its operations.
use vstd::prelude::*;

use super::compiler::{
    brtable_label_total, brtable_labels_of, brtable_sizes, initial_compiler, jit_compilable, label_run, label_runs,
    sum_sizes, allocated, appended, call_state, f64_binop_state, i32_binop_state, popped, with_regs, CompilerView,
};
use super::control::call_indirect_state;
use super::emit::{
    load_shape, spec_block, spec_br_if, spec_call, spec_else, spec_emit_inst, spec_emit_insts, spec_end, spec_if,
    spec_load, spec_push_gp, spec_select, spec_store, store_shape, EmitEnv,
};
use super::regalloc::allocator::AllocatorView;
use super::regalloc::register::Register;
use super::function::{
    function_return_code, initial_frame_state, local_step, locals_fold, param_step, params_fold, prologue_code,
    reset_state, spec_compile_func, spec_compile_funcs, spec_pregen, spec_setup_locals, LocalsState,
};
use super::emit::label_at;
use super::utils::spec_stack_size_in_byte;
use super::x86::{Label, X86Inst};
use crate::module::wasm_module::ModuleView;
use crate::module::components::FuncDeclView;
use crate::module::value_type::ValType;
use super::JitError;
use crate::module::insts::{InstView, Instruction};

verus! {

/// `b` continues `a`: the module, the trap label and the labels handed out
/// for the functions and the branch tables stay, the label counter does not
/// go back and the code of `a` is a prefix of the code of `b`.
pub open spec fn continues(a: CompilerView, b: CompilerView) -> bool {
    &&& b.module == a.module
    &&& b.trap_label == a.trap_label
    &&& b.func_labels == a.func_labels
    &&& b.brtable_labels == a.brtable_labels
    &&& a.next_label <= b.next_label
    &&& a.code.is_prefix_of(b.code)
}

proof fn lemma_continues_trans(a: CompilerView, b: CompilerView, c: CompilerView)
    requires
        continues(a, b),
        continues(b, c),
    ensures
        continues(a, c),
{
    assert(a.code =~= c.code.subrange(0, a.code.len() as int)) by {
        assert(b.code.subrange(0, a.code.len() as int) =~= c.code.subrange(0, a.code.len() as int));
    }
}

proof fn lemma_appended(s: CompilerView, c: Seq<X86Inst>)
    ensures
        continues(s, appended(s, c)),
{
    assert(s.code =~= (s.code + c).subrange(0, s.code.len() as int));
}

proof fn lemma_same_code(a: CompilerView, b: CompilerView)
    requires
        b.module == a.module,
        b.trap_label == a.trap_label,
        b.func_labels == a.func_labels,
        b.brtable_labels == a.brtable_labels,
        a.next_label <= b.next_label,
        b.code == a.code,
    ensures
        continues(a, b),
{
    assert(a.code =~= b.code.subrange(0, a.code.len() as int));
}

proof fn lemma_regs_only(s: CompilerView, regs: AllocatorView)
    ensures
        continues(s, with_regs(s, regs)),
{
    lemma_same_code(s, with_regs(s, regs));
}

proof fn lemma_call_state(s: CompilerView, callee: super::regalloc::register::X86Register, n: nat)
    ensures
        continues(s, call_state(s, callee, n)),
{
    let r = call_state(s, callee, n);
    assert(s.code =~= r.code.subrange(0, s.code.len() as int));
}

proof fn lemma_push_gp(s: CompilerView, code: spec_fn(Register) -> Seq<X86Inst>)
    ensures
        match spec_push_gp(s, code) {
            Ok(s1) => continues(s, s1),
            Err(_) => true,
        },
{
    if let Ok(s1) = spec_push_gp(s, code) {
        let r = super::regalloc::allocator::next_gp_location(s.regs);
        let a = allocated(s, r, super::ValueType::I32);
        lemma_regs_only(s, a.regs);
        lemma_appended(a, code(r));
        lemma_continues_trans(s, a, s1);
    }
}

/// What compiling a structured-control instruction, or `select`, gives.
spec fn control_result(s: CompilerView, env: EmitEnv, i: int, inst: Instruction) -> Result<CompilerView, JitError> {
    match inst {
        Instruction::Block { .. } => spec_block(s, env, i),
        Instruction::If { .. } => spec_if(s, env, i),
        Instruction::Else => spec_else(s, env, i),
        Instruction::End => spec_end(s, env, i),
        Instruction::BrIf { rel_depth } => spec_br_if(s, rel_depth),
        _ => spec_select(s),
    }
}

proof fn lemma_control_insts(s: CompilerView, env: EmitEnv, i: int, inst: Instruction)
    ensures
        match control_result(s, env, i, inst) {
            Ok(s1) => continues(s, s1),
            Err(_) => true,
        },
{
    match inst {
        Instruction::Block { .. } => {
            if let Ok(s1) = spec_block(s, env, i) {
                assert(s.code =~= s1.code.subrange(0, s.code.len() as int));
            }
        },
        Instruction::If { .. } => {
            if let Ok(s1) = spec_if(s, env, i) {
                assert(s.code =~= s1.code.subrange(0, s.code.len() as int));
            }
        },
        Instruction::Else => {
            if let Ok(s1) = spec_else(s, env, i) {
                assert(s.code =~= s1.code.subrange(0, s.code.len() as int));
            }
        },
        Instruction::End => {
            if let Ok(s1) = spec_end(s, env, i) {
                assert(s.code =~= s1.code.subrange(0, s.code.len() as int));
            }
        },
        Instruction::BrIf { rel_depth } => {
            if let Ok(s1) = spec_br_if(s, rel_depth) {
                assert(s.code =~= s1.code.subrange(0, s.code.len() as int));
            }
        },
        _ => {
            if let Ok(s1) = spec_select(s) {
                assert(s.code =~= s1.code.subrange(0, s.code.len() as int));
            }
        },
    }
}


proof fn lemma_data_insts(s: CompilerView, env: EmitEnv, nbr: nat, i: int, inst: Instruction)
    requires
        0 <= i < env.insts.len(),
        env.insts[i] == InstView::Plain(inst),
    ensures
        match spec_emit_inst(s, env, nbr, i) {
            Ok((s1, _)) => continues(s, s1),
            Err(_) => true,
        },
{
    let p = popped(s);
    lemma_regs_only(s, p.regs);
    match inst {
        Instruction::Block { .. } | Instruction::If { .. } | Instruction::Else | Instruction::End
        | Instruction::BrIf { .. } | Instruction::Select => {
            lemma_control_insts(s, env, i, inst);
        },
        Instruction::I32Const { value } => {
            lemma_push_gp(s, |r: Register| super::x86::spec_mov_rawvalue(#[verifier::truncate] (value as u64), r));
        },
        Instruction::LocalGet { local_idx } => {
            if let Ok(ty) = super::emit::local_type(env, local_idx) {
                lemma_push_gp(s, |r: Register| super::compiler::local_get_code(r, local_idx, ty));
            }
        },
        Instruction::GlobalGet { global_idx } => {
            lemma_push_gp(s, |r: Register| super::access::global_get_code(r, global_idx));
        },
        Instruction::MemorySize { .. } => {
            lemma_push_gp(s, |r: Register| super::mem::read_size_code(r));
        },
        Instruction::Call { func_idx } => {
            let a = appended(s, super::x86::spec_mov_rawvalue(func_idx as u64, Register::Reg(super::regalloc::register::REG_TEMP)));
            lemma_appended(s, super::x86::spec_mov_rawvalue(func_idx as u64, Register::Reg(super::regalloc::register::REG_TEMP)));
            if let Ok(s1) = spec_call(s, func_idx) {
                let nargs = s.module.funcs[func_idx as int].sig.params.len();
                lemma_call_state(a, super::regalloc::register::REG_TEMP, nargs);
                lemma_continues_trans(s, a, s1);
            }
        },
        Instruction::CallIndirect { type_index, table_index } => {
            if s.regs.regs.len() > 0 {
                let callee = s.regs.regs.last().reg;
                if let Ok(s1) = call_indirect_state(p, callee, type_index, table_index) {
                    let nr_args = p.module.sigs[type_index as int].params.len();
                    let c = super::x86::spec_mov(Register::Reg(super::regalloc::register::REG_TEMP2), callee)
                        + super::control::call_indirect_checks(p.trap_label, p.table_len[table_index as int], type_index, table_index);
                    let a = appended(p, c);
                    lemma_appended(p, c);
                    lemma_call_state(a, super::regalloc::register::REG_TEMP, nr_args);
                    lemma_continues_trans(p, a, s1);
                    lemma_continues_trans(s, p, s1);
                }
            }
        },
        Instruction::LocalSet { local_idx } => {
            if s.regs.regs.len() > 0 {
                if let Ok(ty) = super::emit::local_type(env, local_idx) {
                    lemma_appended(p, super::compiler::local_set_code(s.regs.regs.last().reg, local_idx, ty));
                    lemma_continues_trans(s, p, appended(p, super::compiler::local_set_code(s.regs.regs.last().reg, local_idx, ty)));
                }
            }
        },
        Instruction::LocalTee { local_idx } => {
            if s.regs.regs.len() > 0 {
                if let Ok(ty) = super::emit::local_type(env, local_idx) {
                    lemma_appended(s, super::compiler::local_set_code(s.regs.regs.last().reg, local_idx, ty));
                }
            }
        },
        Instruction::GlobalSet { global_idx } => {
            if s.regs.regs.len() > 0 {
                let c = super::access::global_set_code(s.regs.regs.last().reg, global_idx);
                lemma_appended(p, c);
                lemma_continues_trans(s, p, appended(p, c));
            }
        },
        Instruction::MemoryGrow { .. } => {
            if s.regs.regs.len() > 0 {
                let dst = Register::Stack((p.regs.stack_offset + 8) as usize);
                let a = allocated(p, dst, super::ValueType::I32);
                lemma_regs_only(p, a.regs);
                let c = super::mem::grow_code(s.regs.regs.last().reg);
                lemma_appended(a, c);
                lemma_continues_trans(p, a, appended(a, c));
                lemma_continues_trans(s, p, appended(a, c));
            }
        },
        Instruction::F64Const { value } => {
            let r = super::regalloc::allocator::next_fp_location(s.regs);
            let a = allocated(s, r, super::ValueType::F64);
            lemma_regs_only(s, a.regs);
            lemma_appended(a, super::x86::spec_mov_rawvalue(value, r));
            lemma_continues_trans(s, a, appended(a, super::x86::spec_mov_rawvalue(value, r)));
        },
        Instruction::I32Binop(op) => {
            let r = i32_binop_state(s, op);
            assert(s.code =~= r.code.subrange(0, s.code.len() as int));
        },
        Instruction::F64Binop(op) => {
            let r = f64_binop_state(s, op);
            assert(s.code =~= r.code.subrange(0, s.code.len() as int));
        },
        Instruction::Unreachable | Instruction::Nop | Instruction::Br { .. } | Instruction::Return
        | Instruction::Drop => {
            if let Ok((s1, _)) = spec_emit_inst(s, env, nbr, i) {
                assert(s.code =~= s1.code.subrange(0, s.code.len() as int));
            }
        },
        _ => {
            match load_shape(inst) {
                Some((offset, width, sign_extend)) => {
                    if s.regs.regs.len() > 0 {
                        let base = s.regs.regs.last();
                        lemma_push_gp(p, |r: Register| super::access::load_code(r, base.reg, offset, width, sign_extend));
                        if let Ok(s1) = spec_load(s, offset, width, sign_extend) {
                            lemma_continues_trans(s, p, s1);
                        }
                    }
                },
                None => match store_shape(inst) {
                    Some((offset, width)) => {
                        if let Ok(s1) = spec_store(s, offset, width) {
                            assert(s.code =~= s1.code.subrange(0, s.code.len() as int));
                        }
                    },
                    None => {},
                },
            }
        },
    }
}

/// Compiling an instruction only appends code: what was emitted before
/// stays as it was, and so do the module, the trap label and the labels
/// handed out for the functions and the branch tables; the label counter
/// only grows.
pub proof fn lemma_emit_inst_continues(s: CompilerView, env: EmitEnv, nbr: nat, i: int)
    requires
        0 <= i < env.insts.len(),
    ensures
        match spec_emit_inst(s, env, nbr, i) {
            Ok((s1, _)) => continues(s, s1),
            Err(_) => true,
        },
{
    match env.insts[i] {
        InstView::BrTable { targets, default_target } => {
            if let Ok((s1, _)) = spec_emit_inst(s, env, nbr, i) {
                assert(s.code =~= s1.code.subrange(0, s.code.len() as int));
            }
        },
        InstView::Plain(inst) => lemma_data_insts(s, env, nbr, i, inst),
    }
}

/// Compiling a prefix of a body only appends code, with the same
/// guarantees as for one instruction.
pub proof fn lemma_emit_insts_continue(s: CompilerView, env: EmitEnv, n: nat)
    requires
        n <= env.insts.len(),
    ensures
        match spec_emit_insts(s, env, n) {
            Ok((s1, _)) => continues(s, s1),
            Err(_) => true,
        },
    decreases n,
{
    if n == 0 {
        lemma_same_code(s, s);
    } else {
        lemma_emit_insts_continue(s, env, (n - 1) as nat);
        if let Ok((s1, nbr)) = spec_emit_insts(s, env, (n - 1) as nat) {
            lemma_emit_inst_continues(s1, env, nbr, n - 1);
            if let Ok((s2, _)) = spec_emit_inst(s1, env, nbr, n - 1) {
                lemma_continues_trans(s, s1, s2);
            }
        }
    }
}


proof fn lemma_params_continue(st: LocalsState, params: Seq<ValType>, n: nat)
    requires
        n <= params.len(),
    ensures
        match params_fold(st, params, n) {
            Ok(st1) => continues(st.s, st1.s),
            Err(_) => true,
        },
    decreases n,
{
    if n == 0 {
        lemma_same_code(st.s, st.s);
    } else {
        lemma_params_continue(st, params, (n - 1) as nat);
        if let Ok(st1) = params_fold(st, params, (n - 1) as nat) {
            if let Ok(st2) = param_step(st1, (n - 1) as nat, params[n - 1]) {
                assert(st1.s.code =~= st2.s.code.subrange(0, st1.s.code.len() as int));
                lemma_continues_trans(st.s, st1.s, st2.s);
            }
        }
    }
}

proof fn lemma_locals_continue(st: LocalsState, locals: Seq<(u32, ValType)>, n: nat)
    requires
        n <= locals.len(),
    ensures
        match locals_fold(st, locals, n) {
            Ok(st1) => continues(st.s, st1.s),
            Err(_) => true,
        },
    decreases n,
{
    if n == 0 {
        lemma_same_code(st.s, st.s);
    } else {
        lemma_locals_continue(st, locals, (n - 1) as nat);
        if let Ok(st1) = locals_fold(st, locals, (n - 1) as nat) {
            if let Ok(st2) = local_step(st1, locals[n - 1].1) {
                assert(st1.s.code =~= st2.s.code.subrange(0, st1.s.code.len() as int));
                lemma_continues_trans(st.s, st1.s, st2.s);
            }
        }
    }
}

proof fn lemma_setup_locals_continues(s: CompilerView, f: FuncDeclView)
    ensures
        match spec_setup_locals(s, f) {
            Ok((s1, _)) => continues(s, s1),
            Err(_) => true,
        },
{
    let st0 = LocalsState { s, types: Seq::empty(), base_set: false };
    lemma_params_continue(st0, f.sig.params, f.sig.params.len());
    if let Ok(st) = params_fold(st0, f.sig.params, f.sig.params.len()) {
        lemma_locals_continue(st, f.pure_locals, f.pure_locals.len());
        if let Ok(st2) = locals_fold(st, f.pure_locals, f.pure_locals.len()) {
            lemma_continues_trans(s, st.s, st2.s);
            lemma_regs_only(st2.s, AllocatorView { regs: Seq::empty(), ..st2.s.regs });
            lemma_continues_trans(s, st2.s, with_regs(st2.s, AllocatorView { regs: Seq::empty(), ..st2.s.regs }));
        }
    }
}

/// Compiling a function only appends code, keeps the module and the labels
/// handed out up front, and never moves the label counter back.
pub proof fn lemma_compile_func_continues(s: CompilerView, f_idx: usize)
    ensures
        match spec_compile_func(s, f_idx) {
            Ok(s1) => continues(s, s1),
            Err(_) => true,
        },
{
    if let Ok(s_end) = spec_compile_func(s, f_idx) {
        let f = s.module.funcs[f_idx as int];
        let start = s.func_labels[f_idx as int];
        let stack_size = spec_stack_size_in_byte(f) as u64;
        let s1 = reset_state(s);
        lemma_same_code(s, s1);
        let (ends, s2) = spec_pregen(s1, f.insts, InstView::Plain(Instruction::End))->Ok_0;
        lemma_same_code(s1, s2);
        let (elses, s3) = spec_pregen(s2, f.insts, InstView::Plain(Instruction::Else))->Ok_0;
        lemma_same_code(s2, s3);
        let func_end = label_at(ends, f.insts.len() - 1)->Some_0;
        let s4 = initial_frame_state(s3, start, func_end);
        lemma_same_code(s3, s4);
        let s5 = appended(s4, prologue_code(start, stack_size));
        lemma_appended(s4, prologue_code(start, stack_size));
        lemma_setup_locals_continues(s5, f);
        let (s6, types) = spec_setup_locals(s5, f)->Ok_0;
        let env = EmitEnv {
            func_index: f_idx as u32,
            insts: f.insts,
            local_types: types,
            stack_size,
            else_labels: elses,
            end_labels: ends,
        };
        lemma_emit_insts_continue(s6, env, f.insts.len());
        let (s7, _) = spec_emit_insts(s6, env, f.insts.len())->Ok_0;
        lemma_appended(s7, function_return_code(Some(func_end), s7.regs, stack_size));
        lemma_continues_trans(s, s1, s2);
        lemma_continues_trans(s, s2, s3);
        lemma_continues_trans(s, s3, s4);
        lemma_continues_trans(s, s4, s5);
        lemma_continues_trans(s, s5, s6);
        lemma_continues_trans(s, s6, s7);
        lemma_continues_trans(s, s7, s_end);
    }
}

/// Compiling the functions of a module one after the other only appends
/// code: the code of each function stays as it was emitted.
pub proof fn lemma_compile_funcs_continue(s: CompilerView, n: nat)
    ensures
        match spec_compile_funcs(s, n) {
            Ok(s1) => continues(s, s1),
            Err(_) => true,
        },
    decreases n,
{
    if n == 0 {
        lemma_same_code(s, s);
    } else {
        lemma_compile_funcs_continue(s, (n - 1) as nat);
        if let Ok(s1) = spec_compile_funcs(s, (n - 1) as nat) {
            lemma_compile_func_continues(s1, (n - 1) as usize);
            if let Ok(s2) = spec_compile_func(s1, (n - 1) as usize) {
                lemma_continues_trans(s, s1, s2);
            }
        }
    }
}


proof fn lemma_label_runs_range(start: nat, sizes: Seq<nat>)
    requires
        start + sum_sizes(sizes) <= u32::MAX,
    ensures
        label_runs(start, sizes).len() == sizes.len(),
        forall|t: int, k: int|
            0 <= t < sizes.len() && 0 <= k < label_runs(start, sizes)[t].len() ==> start <= (
            #[trigger] label_runs(start, sizes)[t][k]).0 && (label_runs(start, sizes)[t][k].0 as nat) < start
                + sum_sizes(sizes),
    decreases sizes.len(),
{
    if sizes.len() > 0 {
        let dl = sizes.drop_last();
        lemma_label_runs_range(start, dl);
        let runs = label_runs(start, sizes);
        assert(runs == label_runs(start, dl).push(label_run(start + sum_sizes(dl), sizes.last())));
        assert forall|t: int, k: int| 0 <= t < sizes.len() && 0 <= k < runs[t].len() implies start <= (
        #[trigger] runs[t][k]).0 && (runs[t][k].0 as nat) < start + sum_sizes(sizes) by {
            if t < dl.len() {
                assert(runs[t] == label_runs(start, dl)[t]);
            } else {
                assert(runs[t] == label_run(start + sum_sizes(dl), sizes.last()));
                assert(runs[t][k] == Label((start + sum_sizes(dl) + k) as u32));
            }
        }
    }
}

proof fn lemma_brtable_labels_range(start: nat, funcs: Seq<FuncDeclView>)
    requires
        start + brtable_label_total(funcs) <= u32::MAX,
    ensures
        brtable_labels_of(start, funcs).len() == funcs.len(),
        forall|f: int, t: int, k: int|
            0 <= f < funcs.len() && 0 <= t < brtable_labels_of(start, funcs)[f].len() && 0 <= k
                < brtable_labels_of(start, funcs)[f][t].len() ==> start <= (
            #[trigger] brtable_labels_of(start, funcs)[f][t][k]).0 && (brtable_labels_of(start, funcs)[f][t][k].0 as nat)
                < start + brtable_label_total(funcs),
    decreases funcs.len(),
{
    if funcs.len() > 0 {
        let dl = funcs.drop_last();
        lemma_brtable_labels_range(start, dl);
        let all = brtable_labels_of(start, funcs);
        let base = start + brtable_label_total(dl);
        let sizes = brtable_sizes(funcs.last().insts);
        lemma_label_runs_range(base, sizes);
        assert(all == brtable_labels_of(start, dl).push(label_runs(base, sizes)));
        assert forall|f: int, t: int, k: int|
            0 <= f < funcs.len() && 0 <= t < all[f].len() && 0 <= k < all[f][t].len() implies start <= (
        #[trigger] all[f][t][k]).0 && (all[f][t][k].0 as nat) < start + brtable_label_total(funcs) by {
            if f < dl.len() {
                assert(all[f] == brtable_labels_of(start, dl)[f]);
            } else {
                assert(all[f] == label_runs(base, sizes));
                assert(label_runs(base, sizes)[t][k] == all[f][t][k]);
            }
        }
    }
}

/// The labels a new code generator hands out are apart: the function
/// labels differ from each other and from the trap handler's, and every
/// label of a branch-table target lies after the function labels and
/// before the label counter.
pub proof fn lemma_initial_labels_apart(m: ModuleView)
    requires
        jit_compilable(m),
    ensures
        ({
            let c = initial_compiler(m);
            &&& forall|i: int, j: int|
                0 <= i < m.funcs.len() && 0 <= j < m.funcs.len() && i != j ==> #[trigger] c.func_labels[i]
                    != #[trigger] c.func_labels[j]
            &&& forall|i: int| 0 <= i < m.funcs.len() ==> #[trigger] c.func_labels[i] != c.trap_label
            &&& forall|f: int, t: int, k: int|
                0 <= f < m.funcs.len() && 0 <= t < c.brtable_labels[f].len() && 0 <= k < c.brtable_labels[f][t].len()
                    ==> 1 + m.funcs.len() <= (#[trigger] c.brtable_labels[f][t][k]).0 && (c.brtable_labels[f][t][k].0 as nat)
                    < c.next_label
        }),
{
    lemma_brtable_labels_range(1 + m.funcs.len(), m.funcs);
}

} // verus!
