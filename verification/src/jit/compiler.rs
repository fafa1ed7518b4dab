//! The code generator: it keeps the operand stack of the function being
//! compiled in registers and stack slots and emits the instructions that
//! carry out each WebAssembly instruction on them.
use vstd::prelude::*;

use super::x86::{emit_mov_reg_to_reg, spec_mov, spec_mov_rawvalue, AluOp, X86Inst, Cond, Label, SseOp};
use super::regalloc::allocator::{
    next_gp_location, offset_after, AllocatorView, RegWithType, X86RegisterAllocator,
};
use super::regalloc::register::{
    Register, X86Register, REG_LOCAL_BASE, REG_TEMP, REG_TEMP2, REG_TEMP_FP,
    REG_TEMP_FP2,
};
use super::control::{frames_view, reconcile_view, ControlFrame, FrameView, ReconcileView, RegReconcileInfo};
use super::mem::JitLinearMemory;
use super::ValueType;
use crate::module::insts::{F64Binop, I32Binop, InstView, Instruction};
use crate::module::components::{FuncDecl, FuncDeclView, FuncType, FuncTypeView, GlobalDeclView};
use crate::module::insts::insts_view;
use crate::module::value_type::ValType;
use crate::module::wasm_module::{funcs_view, globals_view, sigs_view, ModuleView, WasmModule};

verus! {

/// The state of the code generator: the module being compiled, the
/// register stack, the frames of the blocks being compiled, the code emitted
/// so far, the labels handed out and the runtime data (tables, globals,
/// signature indices) that the code refers to.
pub struct X86JitCompiler {
    module: WasmModule,
    reg_allocator: X86RegisterAllocator,
    reg_reconcile_info: Vec<RegReconcileInfo>,
    control_flow_stack: Vec<ControlFrame>,
    brtable_nondefault_target_labels: Vec<Vec<Vec<Label>>>,
    code: Vec<X86Inst>,
    next_label: u32,
    linear_mem: JitLinearMemory,
    tables: Vec<Vec<u32>>,
    table_len: Vec<usize>,
    globals: Vec<u64>,
    global_types: Vec<ValueType>,
    trap_label: Label,
    func_labels: Vec<Label>,
    func_sig_indices: Vec<u32>,
}

/// The code generator as a mathematical value.
#[verifier::ext_equal]
pub struct CompilerView {
    pub module: ModuleView,
    pub regs: AllocatorView,
    pub reconcile: Seq<ReconcileView>,
    pub frames: Seq<FrameView>,
    /// For each function, for each of its branch tables in order, the labels
    /// of its targets other than the default one.
    pub brtable_labels: Seq<Seq<Seq<Label>>>,
    pub code: Seq<X86Inst>,
    pub next_label: nat,
    pub mem_pages: u64,
    pub tables: Seq<Seq<u32>>,
    pub table_len: Seq<usize>,
    pub globals: Seq<u64>,
    pub global_types: Seq<ValueType>,
    pub trap_label: Label,
    pub func_labels: Seq<Label>,
    pub func_sig_indices: Seq<u32>,
}

pub open spec fn nested_labels_view(v: Seq<Vec<Vec<Label>>>) -> Seq<Seq<Seq<Label>>> {
    v.map_values(|f: Vec<Vec<Label>>| f@.map_values(|t: Vec<Label>| t@))
}

pub open spec fn tables_view(v: Seq<Vec<u32>>) -> Seq<Seq<u32>> {
    v.map_values(|t: Vec<u32>| t@)
}

impl View for X86JitCompiler {
    type V = CompilerView;

    closed spec fn view(&self) -> CompilerView {
        CompilerView {
            module: self.module@,
            regs: self.reg_allocator@,
            reconcile: reconcile_view(self.reg_reconcile_info@),
            frames: frames_view(self.control_flow_stack@),
            brtable_labels: nested_labels_view(self.brtable_nondefault_target_labels@),
            code: self.code@,
            next_label: self.next_label as nat,
            mem_pages: self.linear_mem@,
            tables: tables_view(self.tables@),
            table_len: self.table_len@,
            globals: self.globals@,
            global_types: self.global_types@,
            trap_label: self.trap_label,
            func_labels: self.func_labels@,
            func_sig_indices: self.func_sig_indices@,
        }
    }
}

/// The first position at or after `i` of a signature equal to `sig`.
pub open spec fn sig_index_from(sigs: Seq<FuncTypeView>, sig: FuncTypeView, i: int) -> Option<nat>
    decreases sigs.len() - i,
{
    if i < 0 || i >= sigs.len() {
        None
    } else if sigs[i] == sig {
        Some(i as nat)
    } else {
        sig_index_from(sigs, sig, i + 1)
    }
}

/// The index of the first of `sigs` equal to `sig`.
pub open spec fn spec_sig_index(sigs: Seq<FuncTypeView>, sig: FuncTypeView) -> Option<nat> {
    sig_index_from(sigs, sig, 0)
}

/// The signature index of function `f` of `m`, as the code stores it.
pub open spec fn sig_index_of(m: ModuleView, f: int) -> u32 {
    match spec_sig_index(m.sigs, m.funcs[f].sig) {
        Some(i) => i as u32,
        None => 0,
    }
}

/// How the JIT keeps a value of type `t`.
pub open spec fn jit_value_type(t: ValType) -> ValueType {
    if t == ValType::F64 {
        ValueType::F64
    } else {
        ValueType::I32
    }
}

/// The number of non-default targets of each branch table of `insts`, in order.
pub open spec fn brtable_sizes(insts: Seq<InstView>) -> Seq<nat>
    decreases insts.len(),
{
    if insts.len() == 0 {
        Seq::empty()
    } else {
        let r = brtable_sizes(insts.drop_last());
        match insts.last() {
            InstView::BrTable { targets, .. } => r.push(targets.len()),
            _ => r,
        }
    }
}

pub open spec fn sum_sizes(s: Seq<nat>) -> nat
    decreases s.len(),
{
    if s.len() == 0 {
        0
    } else {
        sum_sizes(s.drop_last()) + s.last()
    }
}

/// `n` consecutive labels from `start` on.
pub open spec fn label_run(start: nat, n: nat) -> Seq<Label> {
    Seq::new(n, |k: int| Label((start + k) as u32))
}

/// Consecutive runs of labels from `start` on, of the lengths `sizes`.
pub open spec fn label_runs(start: nat, sizes: Seq<nat>) -> Seq<Seq<Label>>
    decreases sizes.len(),
{
    if sizes.len() == 0 {
        Seq::empty()
    } else {
        label_runs(start, sizes.drop_last()).push(label_run(start + sum_sizes(sizes.drop_last()), sizes.last()))
    }
}

/// The labels that the branch tables of `funcs` take in all.
pub open spec fn brtable_label_total(funcs: Seq<FuncDeclView>) -> nat
    decreases funcs.len(),
{
    if funcs.len() == 0 {
        0
    } else {
        brtable_label_total(funcs.drop_last()) + sum_sizes(brtable_sizes(funcs.last().insts))
    }
}

/// The labels of the branch tables of `funcs`, handed out from `start` on,
/// function by function.
pub open spec fn brtable_labels_of(start: nat, funcs: Seq<FuncDeclView>) -> Seq<Seq<Seq<Label>>>
    decreases funcs.len(),
{
    if funcs.len() == 0 {
        Seq::empty()
    } else {
        brtable_labels_of(start, funcs.drop_last()).push(
            label_runs(start + brtable_label_total(funcs.drop_last()), brtable_sizes(funcs.last().insts)),
        )
    }
}

/// The modules the JIT can set up: every global holds an `i32` or an `f64`,
/// every function's signature is among the module's types, and the labels
/// that the functions and their branch tables take are numbered in 32 bits.
pub open spec fn jit_compilable(m: ModuleView) -> bool {
    &&& forall|i: int|
        0 <= i < m.globals.len() ==> (#[trigger] m.globals[i]).ty.content_type == ValType::I32
            || m.globals[i].ty.content_type == ValType::F64
    &&& forall|f: int| 0 <= f < m.funcs.len() ==> spec_sig_index(m.sigs, (#[trigger] m.funcs[f]).sig) is Some
    &&& 1 + m.funcs.len() + brtable_label_total(m.funcs) <= u32::MAX
}

/// The code generator as `X86JitCompiler::new` sets it up for `m`.
pub open spec fn initial_compiler(m: ModuleView) -> CompilerView {
    CompilerView {
        module: m,
        regs: AllocatorView { regs: Seq::empty(), stack_offset: 0 },
        reconcile: Seq::empty(),
        frames: Seq::empty(),
        brtable_labels: brtable_labels_of(1 + m.funcs.len(), m.funcs),
        code: Seq::empty(),
        next_label: 1 + m.funcs.len() + brtable_label_total(m.funcs),
        mem_pages: 0,
        tables: Seq::new(m.tables.len(), |k: int| Seq::<u32>::empty()),
        table_len: Seq::new(m.tables.len(), |k: int| 0usize),
        globals: Seq::new(m.globals.len(), |k: int| 0u64),
        global_types: m.globals.map_values(|d: GlobalDeclView| jit_value_type(d.ty.content_type)),
        trap_label: Label(0),
        func_labels: Seq::new(m.funcs.len(), |k: int| Label((1 + k) as u32)),
        func_sig_indices: Seq::new(m.funcs.len(), |k: int| sig_index_of(m, k)),
    }
}

proof fn lemma_sum_push(s: Seq<nat>, x: nat)
    ensures
        sum_sizes(s.push(x)) == sum_sizes(s) + x,
{
    assert(s.push(x).drop_last() =~= s);
}

/// The branch tables of a prefix of `insts` take no more labels than all of them.
proof fn lemma_brtable_prefix(insts: Seq<InstView>, k: int)
    requires
        0 <= k <= insts.len(),
    ensures
        sum_sizes(brtable_sizes(insts.take(k))) <= sum_sizes(brtable_sizes(insts)),
    decreases insts.len() - k,
{
    if k == insts.len() {
        assert(insts.take(k) =~= insts);
    } else {
        lemma_brtable_prefix(insts, k + 1);
        assert(insts.take(k + 1).drop_last() =~= insts.take(k));
        let r = brtable_sizes(insts.take(k));
        match insts.take(k + 1).last() {
            InstView::BrTable { targets, .. } => lemma_sum_push(r, targets.len()),
            _ => {},
        }
    }
}

/// The functions of a prefix of `funcs` take no more labels than all of them.
proof fn lemma_total_prefix(funcs: Seq<FuncDeclView>, k: int)
    requires
        0 <= k <= funcs.len(),
    ensures
        brtable_label_total(funcs.take(k)) <= brtable_label_total(funcs),
    decreases funcs.len() - k,
{
    if k == funcs.len() {
        assert(funcs.take(k) =~= funcs);
    } else {
        lemma_total_prefix(funcs, k + 1);
        assert(funcs.take(k + 1).drop_last() =~= funcs.take(k));
    }
}

/// The index of the first of `sigs` equal to `sig`.
fn sig_index(sigs: &Vec<FuncType>, sig: &FuncType) -> (res: Option<usize>)
    ensures
        match res {
            Some(i) => spec_sig_index(sigs_view(sigs@), sig@) == Some(i as nat),
            None => spec_sig_index(sigs_view(sigs@), sig@) is None,
        },
{
    let ghost v = sigs_view(sigs@);
    let mut i: usize = 0;
    while i < sigs.len()
        invariant
            i <= sigs@.len() == v.len(),
            v == sigs_view(sigs@),
            spec_sig_index(v, sig@) == sig_index_from(v, sig@, i as int),
        decreases sigs.len() - i,
    {
        assert(v[i as int] == sigs@[i as int]@);
        if sigs[i].same_as(sig) {
            return Some(i);
        }
        i += 1;
    }
    None
}

/// Hands out the labels of the branch tables of `insts` from `start` on;
/// returns them and the next free label.
fn brtable_labels_for(insts: &Vec<Instruction>, start: u32) -> (res: (Vec<Vec<Label>>, u32))
    requires
        start + sum_sizes(brtable_sizes(insts_view(insts@))) <= u32::MAX,
    ensures
        res.0@.map_values(|t: Vec<Label>| t@) == label_runs(start as nat, brtable_sizes(insts_view(insts@))),
        res.1 == start + sum_sizes(brtable_sizes(insts_view(insts@))),
{
    let ghost iv = insts_view(insts@);
    let mut out: Vec<Vec<Label>> = Vec::new();
    let mut next: u32 = start;
    let mut k: usize = 0;
    while k < insts.len()
        invariant
            k <= insts@.len() == iv.len(),
            iv == insts_view(insts@),
            start + sum_sizes(brtable_sizes(iv)) <= u32::MAX,
            out@.map_values(|t: Vec<Label>| t@) =~= label_runs(start as nat, brtable_sizes(iv.take(k as int))),
            next == start + sum_sizes(brtable_sizes(iv.take(k as int))),
        decreases insts.len() - k,
    {
        proof {
            lemma_brtable_prefix(iv, k + 1);
            assert(iv.take(k + 1).drop_last() =~= iv.take(k as int));
            assert(iv.take(k + 1).last() == insts@[k as int]@);
        }
        let ghost sizes = brtable_sizes(iv.take(k as int));
        match &insts[k] {
            Instruction::BrTable { table } => {
                let n = table.targets.len();
                proof {
                    lemma_sum_push(sizes, n as nat);
                }
                let mut run: Vec<Label> = Vec::new();
                let mut j: usize = 0;
                let ghost next0 = next;
                while j < n
                    invariant
                        j <= n,
                        next == next0 + j,
                        next0 as nat + n <= u32::MAX,
                        run@ =~= Seq::new(j as nat, |q: int| Label((next0 + q) as u32)),
                    decreases n - j,
                {
                    run.push(Label(next));
                    next += 1;
                    j += 1;
                }
                assert(run@ =~= label_run(start as nat + sum_sizes(sizes), n as nat));
                let ghost before = out@.map_values(|t: Vec<Label>| t@);
                out.push(run);
                assert(out@.map_values(|t: Vec<Label>| t@) =~= before.push(label_run(start as nat + sum_sizes(sizes), n as nat)));
                assert(brtable_sizes(iv.take(k + 1)) == sizes.push(n as nat));
                assert(brtable_sizes(iv.take(k + 1)).drop_last() =~= sizes);
            },
            _ => {
                assert(brtable_sizes(iv.take(k + 1)) == sizes);
            },
        }
        k += 1;
    }
    assert(iv.take(k as int) =~= iv);
    (out, next)
}

/// Hands out the labels of the branch tables of every function of `funcs`
/// from `start` on; returns them and the next free label.
fn brtable_labels_for_funcs(funcs: &Vec<FuncDecl>, start: u32) -> (res: (Vec<Vec<Vec<Label>>>, u32))
    requires
        start + brtable_label_total(funcs_view(funcs@)) <= u32::MAX,
    ensures
        nested_labels_view(res.0@) == brtable_labels_of(start as nat, funcs_view(funcs@)),
        res.1 == start + brtable_label_total(funcs_view(funcs@)),
{
    let ghost fv = funcs_view(funcs@);
    let mut out: Vec<Vec<Vec<Label>>> = Vec::new();
    let mut next: u32 = start;
    let mut f: usize = 0;
    while f < funcs.len()
        invariant
            f <= funcs@.len() == fv.len(),
            fv == funcs_view(funcs@),
            start + brtable_label_total(fv) <= u32::MAX,
            nested_labels_view(out@) =~= brtable_labels_of(start as nat, fv.take(f as int)),
            next == start + brtable_label_total(fv.take(f as int)),
        decreases funcs.len() - f,
    {
        proof {
            lemma_total_prefix(fv, f + 1);
            assert(fv.take(f + 1).drop_last() =~= fv.take(f as int));
            assert(fv.take(f + 1).last() == funcs@[f as int]@);
        }
        let insts = funcs[f].get_insts();
        let (labels, n) = brtable_labels_for(insts, next);
        let ghost before = nested_labels_view(out@);
        out.push(labels);
        assert(nested_labels_view(out@) =~= before.push(labels@.map_values(|t: Vec<Label>| t@)));
        next = n;
        f += 1;
    }
    assert(fv.take(f as int) =~= fv);
    (out, next)
}

/// The comparison whose flag an `i32` comparison operator sets.
pub open spec fn i32_cond(op: I32Binop) -> Option<Cond> {
    match op {
        I32Binop::Eq => Some(Cond::Equal),
        I32Binop::Ne => Some(Cond::NotEqual),
        I32Binop::LtS => Some(Cond::Sign),
        I32Binop::LtU => Some(Cond::Below),
        I32Binop::GtS => Some(Cond::Greater),
        I32Binop::GtU => Some(Cond::Above),
        I32Binop::LeS => Some(Cond::LessEqual),
        I32Binop::LeU => Some(Cond::BelowEqual),
        I32Binop::GeS => Some(Cond::GreaterEqual),
        I32Binop::GeU => Some(Cond::AboveEqual),
        _ => None,
    }
}

/// The ALU operation of an arithmetic, bitwise or shift `i32` operator.
pub open spec fn i32_alu(op: I32Binop) -> Option<AluOp> {
    match op {
        I32Binop::Add => Some(AluOp::Add),
        I32Binop::Sub => Some(AluOp::Sub),
        I32Binop::Mul => Some(AluOp::Imul),
        I32Binop::And => Some(AluOp::And),
        I32Binop::Or => Some(AluOp::Or),
        I32Binop::Xor => Some(AluOp::Xor),
        I32Binop::Shl => Some(AluOp::Shl),
        I32Binop::ShrS => Some(AluOp::Sar),
        I32Binop::ShrU => Some(AluOp::Shr),
        I32Binop::Rotl => Some(AluOp::Rol),
        I32Binop::Rotr => Some(AluOp::Ror),
        _ => None,
    }
}

/// Whether an `i32` operator divides, and so needs a label of its own.
pub open spec fn i32_divides(op: I32Binop) -> bool {
    op == I32Binop::DivS || op == I32Binop::RemS || op == I32Binop::DivU || op == I32Binop::RemU
}

/// A comparison of the two scratch registers leaving 0 or 1 in `REG_TEMP`.
pub open spec fn compare_code(cond: Cond) -> Seq<X86Inst> {
    seq![
        X86Inst::Compare { a: REG_TEMP, b: REG_TEMP2 },
        X86Inst::MovImm { dst: Register::Reg(REG_TEMP), value: 0 },
        X86Inst::SetCc { cond, dst: REG_TEMP },
    ]
}

/// After a division in `rdx:rax`: keep `result` (quotient `rax` or
/// remainder `rdx`) in `REG_TEMP` and restore `rax` and `rdx`.
pub open spec fn div_tail(result: X86Register) -> Seq<X86Inst> {
    spec_mov(Register::Reg(REG_TEMP), Register::Reg(result)) + seq![
        X86Inst::Pop { dst: X86Register::Rdx },
        X86Inst::Pop { dst: X86Register::Rax },
    ]
}

/// Signed division of `REG_TEMP` by `REG_TEMP2`, trapping on a zero divisor
/// and on the one quotient that overflows.
pub open spec fn signed_div_code(ok: Label, trap: Label, result: X86Register) -> Seq<X86Inst> {
    seq![
        X86Inst::Test { a: REG_TEMP2, b: REG_TEMP2 },
        X86Inst::Jcc { cond: Cond::Zero, target: trap },
        X86Inst::Push { src: X86Register::Rax },
        X86Inst::Push { src: X86Register::Rdx },
        X86Inst::MovImm { dst: Register::Reg(X86Register::Rax), value: 0xFFFF_FFFF_8000_0000 },
        X86Inst::Compare { a: REG_TEMP, b: X86Register::Rax },
        X86Inst::Jcc { cond: Cond::NotEqual, target: ok },
        X86Inst::MovImm { dst: Register::Reg(X86Register::Rax), value: 0xFFFF_FFFF_FFFF_FFFF },
        X86Inst::Compare { a: REG_TEMP2, b: X86Register::Rax },
        X86Inst::Jcc { cond: Cond::NotEqual, target: ok },
        X86Inst::Jmp { target: trap },
        X86Inst::Bind { label: ok },
        X86Inst::Mov { dst: Register::Reg(X86Register::Rax), src: Register::Reg(REG_TEMP) },
        X86Inst::Cqo,
        X86Inst::Idiv { src: REG_TEMP2 },
    ] + div_tail(result)
}

/// Unsigned division of `REG_TEMP` by `REG_TEMP2`, trapping on a zero divisor.
pub open spec fn unsigned_div_code(ok: Label, trap: Label, result: X86Register) -> Seq<X86Inst> {
    seq![
        X86Inst::Test { a: REG_TEMP2, b: REG_TEMP2 },
        X86Inst::Jcc { cond: Cond::Zero, target: trap },
        X86Inst::Bind { label: ok },
        X86Inst::Push { src: X86Register::Rax },
        X86Inst::Push { src: X86Register::Rdx },
        X86Inst::Alu { op: AluOp::Xor, dst: X86Register::Rdx, src: X86Register::Rdx },
        X86Inst::Mov { dst: Register::Reg(X86Register::Rax), src: Register::Reg(REG_TEMP) },
        X86Inst::Div { src: REG_TEMP2 },
    ] + div_tail(result)
}

/// The instructions of an `i32` operator on `REG_TEMP` and `REG_TEMP2`,
/// the result in `REG_TEMP`.
pub open spec fn i32_op_code(op: I32Binop, ok: Label, trap: Label) -> Seq<X86Inst> {
    match i32_cond(op) {
        Some(c) => compare_code(c),
        None => match i32_alu(op) {
            Some(a) => seq![X86Inst::Alu { op: a, dst: REG_TEMP, src: REG_TEMP2 }],
            None => match op {
                I32Binop::DivS => signed_div_code(ok, trap, X86Register::Rax),
                I32Binop::RemS => signed_div_code(ok, trap, X86Register::Rdx),
                I32Binop::DivU => unsigned_div_code(ok, trap, X86Register::Rax),
                _ => unsigned_div_code(ok, trap, X86Register::Rdx),
            },
        },
    }
}

/// The whole of an `i32` binary operator on operands in `a` and `b`, the
/// result back in `a`.
pub open spec fn i32_binop_code(op: I32Binop, a: Register, b: Register, ok: Label, trap: Label) -> Seq<X86Inst> {
    spec_mov(Register::Reg(REG_TEMP), a) + spec_mov(Register::Reg(REG_TEMP2), b) + i32_op_code(op, ok, trap)
        + spec_mov(a, Register::Reg(REG_TEMP))
}

/// The flag an `f64` comparison operator sets.
pub open spec fn f64_cond(op: F64Binop) -> Option<Cond> {
    match op {
        F64Binop::Eq => Some(Cond::Equal),
        F64Binop::Ne => Some(Cond::NotEqual),
        F64Binop::Lt => Some(Cond::Less),
        F64Binop::Gt => Some(Cond::Greater),
        F64Binop::Le => Some(Cond::LessEqual),
        F64Binop::Ge => Some(Cond::GreaterEqual),
        _ => None,
    }
}

/// The SSE operation of an arithmetic `f64` operator.
pub open spec fn f64_sse(op: F64Binop) -> SseOp {
    match op {
        F64Binop::Sub => SseOp::Sub,
        F64Binop::Mul => SseOp::Mul,
        F64Binop::Div => SseOp::Div,
        F64Binop::Min => SseOp::Min,
        F64Binop::Max => SseOp::Max,
        _ => SseOp::Add,
    }
}

/// The code generator after an `i32` binary operator: `b` and `a` are
/// popped and the result stays where `a` was.
pub open spec fn i32_binop_state(s: CompilerView, op: I32Binop) -> CompilerView {
    let r = s.regs.regs;
    let b = r.last();
    let a = r.drop_last().last();
    CompilerView {
        regs: AllocatorView { regs: r.drop_last(), ..s.regs },
        code: s.code + i32_binop_code(op, a.reg, b.reg, Label(s.next_label as u32), s.trap_label),
        next_label: s.next_label + if i32_divides(op) {
            1nat
        } else {
            0nat
        },
        ..s
    }
}

/// The code generator after an `f64` binary operator: `b` and `a` are
/// popped; an arithmetic result goes where `a` was, a comparison's 0 or 1 to
/// a new integer location, which is pushed twice.
pub open spec fn f64_binop_state(s: CompilerView, op: F64Binop) -> CompilerView {
    let r = s.regs.regs;
    let b = r.last();
    let a = r.drop_last().last();
    let rest = AllocatorView { regs: r.drop_last().drop_last(), ..s.regs };
    let pre = s.code + spec_mov(Register::FpReg(REG_TEMP_FP), a.reg) + spec_mov(Register::FpReg(REG_TEMP_FP2), b.reg);
    match f64_cond(op) {
        Some(c) => {
            let dst = RegWithType { reg: next_gp_location(rest), ty: ValueType::I32 };
            CompilerView {
                regs: AllocatorView { regs: rest.regs.push(dst).push(dst), stack_offset: offset_after(rest, dst.reg) },
                code: pre + seq![
                    X86Inst::Ucomisd { a: REG_TEMP_FP, b: REG_TEMP_FP2 },
                    X86Inst::SetCc { cond: c, dst: REG_TEMP },
                ] + spec_mov(dst.reg, Register::Reg(REG_TEMP)),
                ..s
            }
        },
        None => CompilerView {
            regs: AllocatorView { regs: rest.regs.push(RegWithType { reg: a.reg, ty: ValueType::F64 }), ..rest },
            code: pre + seq![X86Inst::Sse { op: f64_sse(op), dst: REG_TEMP_FP, src: REG_TEMP_FP2 }] + spec_mov(
                a.reg,
                Register::FpReg(REG_TEMP_FP),
            ),
            ..s
        },
    }
}

impl X86JitCompiler {
    /// The code generator for `module`: no code yet, an empty register stack,
    /// label 0 for the trap handler, the next labels for the functions in
    /// order and then for the non-default targets of each branch table, empty
    /// tables, globals at zero with their types, and each function's
    /// signature index.
    pub fn new(module: WasmModule) -> (res: Self)
        requires
            jit_compilable(module@),
        ensures
            res@ == initial_compiler(module@),
    {
        let ghost m = module@;
        let funcs = module.get_funcs();
        let nfuncs = funcs.len();
        let mut func_labels: Vec<Label> = Vec::new();
        let mut func_sig_indices: Vec<u32> = Vec::new();
        let mut f: usize = 0;
        while f < nfuncs
            invariant
                f <= nfuncs == m.funcs.len(),
                funcs_view(funcs@) == m.funcs,
                m == module@,
                jit_compilable(m),
                func_labels@ =~= Seq::new(f as nat, |k: int| Label((1 + k) as u32)),
                func_sig_indices@ =~= Seq::new(f as nat, |k: int| sig_index_of(m, k)),
            decreases nfuncs - f,
        {
            assert(funcs@[f as int]@ == m.funcs[f as int]);
            let idx = sig_index(module.get_sigs(), funcs[f].get_sig());
            assert(spec_sig_index(m.sigs, m.funcs[f as int].sig) is Some);
            let i = match idx {
                Some(i) => i,
                None => 0,
            };
            func_labels.push(Label((1 + f) as u32));
            func_sig_indices.push(i as u32);
            f += 1;
        }
        let globals = module.get_globals();
        let mut global_types: Vec<ValueType> = Vec::new();
        let mut zeros: Vec<u64> = Vec::new();
        let mut g: usize = 0;
        while g < globals.len()
            invariant
                g <= globals@.len() == m.globals.len(),
                globals_view(globals@) == m.globals,
                global_types@ =~= m.globals.take(g as int).map_values(|d: GlobalDeclView| jit_value_type(d.ty.content_type)),
                zeros@ =~= Seq::new(g as nat, |k: int| 0u64),
            decreases globals.len() - g,
        {
            assert(globals@[g as int]@ == m.globals[g as int]);
            let t = if globals[g].get_ty().content_type == ValType::F64 {
                ValueType::F64
            } else {
                ValueType::I32
            };
            global_types.push(t);
            zeros.push(0);
            g += 1;
            assert(m.globals.take(g as int).drop_last() =~= m.globals.take(g - 1));
        }
        assert(m.globals.take(g as int) =~= m.globals);
        let ntables = module.get_tables().len();
        let mut tables: Vec<Vec<u32>> = Vec::new();
        let mut table_len: Vec<usize> = Vec::new();
        let mut t: usize = 0;
        while t < ntables
            invariant
                t <= ntables,
                tables_view(tables@) =~= Seq::new(t as nat, |k: int| Seq::<u32>::empty()),
                table_len@ =~= Seq::new(t as nat, |k: int| 0usize),
            decreases ntables - t,
        {
            let ghost before = tables_view(tables@);
            tables.push(Vec::new());
            assert(tables_view(tables@) =~= before.push(Seq::<u32>::empty()));
            table_len.push(0);
            t += 1;
        }
        let (labels, next_label) = brtable_labels_for_funcs(funcs, (1 + nfuncs) as u32);
        let res = X86JitCompiler {
            module,
            reg_allocator: X86RegisterAllocator::new(),
            reg_reconcile_info: Vec::new(),
            control_flow_stack: Vec::new(),
            brtable_nondefault_target_labels: labels,
            code: Vec::new(),
            next_label,
            linear_mem: JitLinearMemory::new(),
            tables,
            table_len,
            globals: zeros,
            global_types,
            trap_label: Label(0),
            func_labels,
            func_sig_indices,
        };
        assert(reconcile_view(res.reg_reconcile_info@) =~= Seq::<ReconcileView>::empty());
        assert(frames_view(res.control_flow_stack@) =~= Seq::<FrameView>::empty());
        assert(res@ =~= initial_compiler(m));
        res
    }

    /// The code emitted so far.
    pub fn code(&self) -> (res: &Vec<X86Inst>)
        ensures
            res@ == self@.code,
    {
        &self.code
    }

    /// The label of the trap handler's entry.
    pub fn trap_label(&self) -> (res: Label)
        ensures
            res == self@.trap_label,
    {
        self.trap_label
    }

    /// A label not handed out before.
    pub fn new_label(&mut self) -> (res: Label)
        requires
            old(self)@.next_label < u32::MAX,
        ensures
            res == Label(old(self)@.next_label as u32),
            final(self)@ == (CompilerView { next_label: old(self)@.next_label + 1, ..old(self)@ }),
    {
        let l = Label(self.next_label);
        self.next_label = self.next_label + 1;
        l
    }

    /// Loads the constant `value` into `reg`.
    pub fn emit_mov_rawvalue_to_reg(&mut self, value: u64, reg: Register)
        ensures
            final(self)@ == (CompilerView { code: old(self)@.code + spec_mov_rawvalue(value, reg), ..old(self)@ }),
    {
        match reg {
            Register::FpReg(_) => {
                self.code.push(X86Inst::MovImm { dst: Register::Reg(REG_TEMP), value });
                self.code.push(X86Inst::Mov { dst: reg, src: Register::Reg(REG_TEMP) });
            },
            _ => {
                self.code.push(X86Inst::MovImm { dst: reg, value });
            },
        }
        assert(self.code@ =~= old(self)@.code + spec_mov_rawvalue(value, reg));
    }

    /// Appends `seq` to the code.
    fn emit_all(&mut self, seq: &Vec<X86Inst>)
        ensures
            final(self)@ == (CompilerView { code: old(self)@.code + seq@, ..old(self)@ }),
    {
        let mut i: usize = 0;
        while i < seq.len()
            invariant
                i <= seq@.len(),
                self@ == (CompilerView { code: old(self)@.code + seq@.take(i as int), ..old(self)@ }),
            decreases seq.len() - i,
        {
            self.code.push(seq[i]);
            i += 1;
            assert(self.code@ =~= old(self)@.code + seq@.take(i as int));
        }
        assert(seq@.take(i as int) == seq@);
    }

    /// The instructions of an `i32` operator on the scratch registers.
    fn emit_i32_op(&mut self, binop: I32Binop)
        requires
            i32_divides(binop) ==> old(self)@.next_label < u32::MAX,
        ensures
            final(self)@ == (CompilerView {
                code: old(self)@.code + i32_op_code(binop, Label(old(self)@.next_label as u32), old(self)@.trap_label),
                next_label: old(self)@.next_label + if i32_divides(binop) {
                    1nat
                } else {
                    0nat
                },
                ..old(self)@
            }),
    {
        let c = match binop {
            I32Binop::Eq => Some(Cond::Equal),
            I32Binop::Ne => Some(Cond::NotEqual),
            I32Binop::LtS => Some(Cond::Sign),
            I32Binop::LtU => Some(Cond::Below),
            I32Binop::GtS => Some(Cond::Greater),
            I32Binop::GtU => Some(Cond::Above),
            I32Binop::LeS => Some(Cond::LessEqual),
            I32Binop::LeU => Some(Cond::BelowEqual),
            I32Binop::GeS => Some(Cond::GreaterEqual),
            I32Binop::GeU => Some(Cond::AboveEqual),
            _ => None,
        };
        if let Some(cond) = c {
            let seq = vec![
                X86Inst::Compare { a: REG_TEMP, b: REG_TEMP2 },
                X86Inst::MovImm { dst: Register::Reg(REG_TEMP), value: 0 },
                X86Inst::SetCc { cond, dst: REG_TEMP },
            ];
            assert(seq@ =~= compare_code(cond));
            self.emit_all(&seq);
            return ;
        }
        let a = match binop {
            I32Binop::Add => Some(AluOp::Add),
            I32Binop::Sub => Some(AluOp::Sub),
            I32Binop::Mul => Some(AluOp::Imul),
            I32Binop::And => Some(AluOp::And),
            I32Binop::Or => Some(AluOp::Or),
            I32Binop::Xor => Some(AluOp::Xor),
            I32Binop::Shl => Some(AluOp::Shl),
            I32Binop::ShrS => Some(AluOp::Sar),
            I32Binop::ShrU => Some(AluOp::Shr),
            I32Binop::Rotl => Some(AluOp::Rol),
            I32Binop::Rotr => Some(AluOp::Ror),
            _ => None,
        };
        if let Some(op) = a {
            self.code.push(X86Inst::Alu { op, dst: REG_TEMP, src: REG_TEMP2 });
            assert(self.code@ =~= old(self)@.code + seq![X86Inst::Alu { op, dst: REG_TEMP, src: REG_TEMP2 }]);
            return ;
        }
        let trap = self.trap_label;
        let ok = self.new_label();
        let result = if binop == I32Binop::DivS || binop == I32Binop::DivU {
            X86Register::Rax
        } else {
            X86Register::Rdx
        };
        let head = if binop == I32Binop::DivS || binop == I32Binop::RemS {
            vec![
                X86Inst::Test { a: REG_TEMP2, b: REG_TEMP2 },
                X86Inst::Jcc { cond: Cond::Zero, target: trap },
                X86Inst::Push { src: X86Register::Rax },
                X86Inst::Push { src: X86Register::Rdx },
                X86Inst::MovImm { dst: Register::Reg(X86Register::Rax), value: 0xFFFF_FFFF_8000_0000 },
                X86Inst::Compare { a: REG_TEMP, b: X86Register::Rax },
                X86Inst::Jcc { cond: Cond::NotEqual, target: ok },
                X86Inst::MovImm { dst: Register::Reg(X86Register::Rax), value: 0xFFFF_FFFF_FFFF_FFFF },
                X86Inst::Compare { a: REG_TEMP2, b: X86Register::Rax },
                X86Inst::Jcc { cond: Cond::NotEqual, target: ok },
                X86Inst::Jmp { target: trap },
                X86Inst::Bind { label: ok },
                X86Inst::Mov { dst: Register::Reg(X86Register::Rax), src: Register::Reg(REG_TEMP) },
                X86Inst::Cqo,
                X86Inst::Idiv { src: REG_TEMP2 },
            ]
        } else {
            vec![
                X86Inst::Test { a: REG_TEMP2, b: REG_TEMP2 },
                X86Inst::Jcc { cond: Cond::Zero, target: trap },
                X86Inst::Bind { label: ok },
                X86Inst::Push { src: X86Register::Rax },
                X86Inst::Push { src: X86Register::Rdx },
                X86Inst::Alu { op: AluOp::Xor, dst: X86Register::Rdx, src: X86Register::Rdx },
                X86Inst::Mov { dst: Register::Reg(X86Register::Rax), src: Register::Reg(REG_TEMP) },
                X86Inst::Div { src: REG_TEMP2 },
            ]
        };
        let ghost before = self@.code;
        self.emit_all(&head);
        emit_mov_reg_to_reg(&mut self.code, Register::Reg(REG_TEMP), Register::Reg(result));
        self.code.push(X86Inst::Pop { dst: X86Register::Rdx });
        self.code.push(X86Inst::Pop { dst: X86Register::Rax });
        assert(self.code@ =~= before + head@ + div_tail(result));
        assert(self.code@ =~= old(self)@.code + i32_op_code(binop, Label(old(self)@.next_label as u32), old(self)@.trap_label));
    }

    /// An `i32` binary operator: pops `b` and `a`, leaves `a op b` where `a` was.
    pub fn emit_i32_binop(&mut self, binop: I32Binop)
        requires
            old(self)@.regs.regs.len() >= 2,
            i32_divides(binop) ==> old(self)@.next_label < u32::MAX,
        ensures
            final(self)@ == i32_binop_state(old(self)@, binop),
    {
        let b = self.reg_allocator.pop_noopt();
        let a = self.reg_allocator.pop_noopt();
        let ghost c0 = self@.code;
        emit_mov_reg_to_reg(&mut self.code, Register::Reg(REG_TEMP), a.reg);
        emit_mov_reg_to_reg(&mut self.code, Register::Reg(REG_TEMP2), b.reg);
        let ghost c1 = self@.code;
        self.emit_i32_op(binop);
        let ghost c2 = self@.code;
        emit_mov_reg_to_reg(&mut self.code, a.reg, Register::Reg(REG_TEMP));
        self.reg_allocator.push(a);
        assert(self@.regs.regs =~= old(self)@.regs.regs.drop_last());
        assert(self@.code =~= old(self)@.code + i32_binop_code(
            binop,
            a.reg,
            b.reg,
            Label(old(self)@.next_label as u32),
            old(self)@.trap_label,
        ));
        assert(self@ =~= i32_binop_state(old(self)@, binop));
    }
}

/// Loading local `local_idx` of type `ty` into `dst`.
pub open spec fn local_get_code(dst: Register, local_idx: u32, ty: ValueType) -> Seq<X86Inst> {
    let base = seq![X86Inst::Mov { dst: Register::Reg(REG_TEMP), src: Register::Reg(REG_LOCAL_BASE) }];
    match ty {
        ValueType::I32 => base + seq![
            X86Inst::Load { dst: Register::Reg(REG_TEMP), base: REG_TEMP, disp: (local_idx * 8) as i64 },
        ] + spec_mov(dst, Register::Reg(REG_TEMP)),
        ValueType::F64 => base + seq![
            X86Inst::Load { dst: Register::FpReg(REG_TEMP_FP), base: REG_TEMP, disp: (local_idx * 8) as i64 },
        ] + spec_mov(dst, Register::FpReg(REG_TEMP_FP)),
    }
}

/// Storing `value` into local `local_idx` of type `ty`.
pub open spec fn local_set_code(value: Register, local_idx: u32, ty: ValueType) -> Seq<X86Inst> {
    match ty {
        ValueType::I32 => spec_mov(Register::Reg(REG_TEMP2), value) + seq![
            X86Inst::Store { base: REG_LOCAL_BASE, disp: (local_idx * 8) as i64, src: Register::Reg(REG_TEMP2) },
        ],
        ValueType::F64 => spec_mov(Register::FpReg(REG_TEMP_FP), value) + seq![
            X86Inst::Store { base: REG_LOCAL_BASE, disp: (local_idx * 8) as i64, src: Register::FpReg(REG_TEMP_FP) },
        ],
    }
}

/// Choosing `a` when `cond` is not zero and `b` otherwise, into `dst`.
pub open spec fn select_code(dst: Register, cond: Register, a: Register, b: Register, is_zero: Label, end: Label) -> Seq<X86Inst> {
    spec_mov(Register::Reg(REG_TEMP), cond) + seq![
        X86Inst::CompareImm { a: REG_TEMP, value: 0 },
        X86Inst::Jcc { cond: Cond::Equal, target: is_zero },
    ] + spec_mov(dst, a) + seq![X86Inst::Jmp { target: end }, X86Inst::Bind { label: is_zero }] + spec_mov(dst, b)
        + seq![X86Inst::Bind { label: end }]
}

impl X86JitCompiler {
    /// An `f64` binary operator: pops `b` and `a`; an arithmetic result goes
    /// where `a` was, a comparison's 0 or 1 to a new integer location, which
    /// is pushed twice.
    pub fn emit_f64_binop(&mut self, binop: F64Binop)
        requires
            old(self)@.regs.regs.len() >= 2,
            old(self)@.regs.stack_offset + 8 <= usize::MAX,
        ensures
            final(self)@ == f64_binop_state(old(self)@, binop),
    {
        let b = self.reg_allocator.pop_noopt().reg;
        let a = self.reg_allocator.pop_noopt().reg;
        emit_mov_reg_to_reg(&mut self.code, Register::FpReg(REG_TEMP_FP), a);
        emit_mov_reg_to_reg(&mut self.code, Register::FpReg(REG_TEMP_FP2), b);
        let ghost pre = self@.code;
        let c = match binop {
            F64Binop::Eq => Some(Cond::Equal),
            F64Binop::Ne => Some(Cond::NotEqual),
            F64Binop::Lt => Some(Cond::Less),
            F64Binop::Gt => Some(Cond::Greater),
            F64Binop::Le => Some(Cond::LessEqual),
            F64Binop::Ge => Some(Cond::GreaterEqual),
            _ => None,
        };
        match c {
            Some(cond) => {
                self.code.push(X86Inst::Ucomisd { a: REG_TEMP_FP, b: REG_TEMP_FP2 });
                self.code.push(X86Inst::SetCc { cond, dst: REG_TEMP });
                let dst = self.reg_allocator.next();
                emit_mov_reg_to_reg(&mut self.code, dst.reg, Register::Reg(REG_TEMP));
                self.reg_allocator.push(dst);
                assert(self@.code =~= pre + seq![
                    X86Inst::Ucomisd { a: REG_TEMP_FP, b: REG_TEMP_FP2 },
                    X86Inst::SetCc { cond, dst: REG_TEMP },
                ] + spec_mov(dst.reg, Register::Reg(REG_TEMP)));
            },
            None => {
                let op = match binop {
                    F64Binop::Sub => SseOp::Sub,
                    F64Binop::Mul => SseOp::Mul,
                    F64Binop::Div => SseOp::Div,
                    F64Binop::Min => SseOp::Min,
                    F64Binop::Max => SseOp::Max,
                    _ => SseOp::Add,
                };
                self.code.push(X86Inst::Sse { op, dst: REG_TEMP_FP, src: REG_TEMP_FP2 });
                emit_mov_reg_to_reg(&mut self.code, a, Register::FpReg(REG_TEMP_FP));
                self.reg_allocator.push(RegWithType::new(a, ValueType::F64));
                assert(self@.code =~= pre + seq![X86Inst::Sse { op, dst: REG_TEMP_FP, src: REG_TEMP_FP2 }]
                    + spec_mov(a, Register::FpReg(REG_TEMP_FP)));
            },
        }
        assert(self@ =~= f64_binop_state(old(self)@, binop));
    }

    /// Moves `a` into `dst` when `cond` holds a value other than zero, `b`
    /// otherwise, using two new labels.
    pub fn emit_select(&mut self, dst: RegWithType, cond: RegWithType, a: RegWithType, b: RegWithType)
        requires
            old(self)@.next_label + 2 <= u32::MAX,
        ensures
            final(self)@ == (CompilerView {
                code: old(self)@.code + select_code(
                    dst.reg,
                    cond.reg,
                    a.reg,
                    b.reg,
                    Label(old(self)@.next_label as u32),
                    Label((old(self)@.next_label + 1) as u32),
                ),
                next_label: old(self)@.next_label + 2,
                ..old(self)@
            }),
    {
        let cond_is_zero = self.new_label();
        let end_label = self.new_label();
        let ghost c0 = self@.code;
        emit_mov_reg_to_reg(&mut self.code, Register::Reg(REG_TEMP), cond.reg);
        self.code.push(X86Inst::CompareImm { a: REG_TEMP, value: 0 });
        self.code.push(X86Inst::Jcc { cond: Cond::Equal, target: cond_is_zero });
        emit_mov_reg_to_reg(&mut self.code, dst.reg, a.reg);
        self.code.push(X86Inst::Jmp { target: end_label });
        self.code.push(X86Inst::Bind { label: cond_is_zero });
        emit_mov_reg_to_reg(&mut self.code, dst.reg, b.reg);
        self.code.push(X86Inst::Bind { label: end_label });
        assert(self@.code =~= c0 + select_code(dst.reg, cond.reg, a.reg, b.reg, cond_is_zero, end_label));
    }

    /// Loads local `local_idx` into `dst`.
    pub fn emit_local_get(&mut self, dst: Register, local_idx: u32, local_types: &Vec<ValueType>)
        requires
            local_idx < local_types@.len(),
        ensures
            final(self)@ == (CompilerView {
                code: old(self)@.code + local_get_code(dst, local_idx, local_types@[local_idx as int]),
                ..old(self)@
            }),
    {
        let ty = local_types[local_idx as usize];
        let offset: i64 = local_idx as i64 * 8;
        let ghost c0 = self@.code;
        self.code.push(X86Inst::Mov { dst: Register::Reg(REG_TEMP), src: Register::Reg(REG_LOCAL_BASE) });
        match ty {
            ValueType::I32 => {
                self.code.push(X86Inst::Load { dst: Register::Reg(REG_TEMP), base: REG_TEMP, disp: offset });
                emit_mov_reg_to_reg(&mut self.code, dst, Register::Reg(REG_TEMP));
            },
            ValueType::F64 => {
                self.code.push(X86Inst::Load { dst: Register::FpReg(REG_TEMP_FP), base: REG_TEMP, disp: offset });
                emit_mov_reg_to_reg(&mut self.code, dst, Register::FpReg(REG_TEMP_FP));
            },
        }
        assert(self@.code =~= c0 + local_get_code(dst, local_idx, ty));
    }

    /// Stores `value` into local `local_idx` of type `ty`.
    pub fn emit_local_set(&mut self, value: Register, local_idx: u32, ty: ValueType)
        ensures
            final(self)@ == (CompilerView { code: old(self)@.code + local_set_code(value, local_idx, ty), ..old(self)@ }),
    {
        let offset: i64 = local_idx as i64 * 8;
        let ghost c0 = self@.code;
        match ty {
            ValueType::I32 => {
                emit_mov_reg_to_reg(&mut self.code, Register::Reg(REG_TEMP2), value);
                self.code.push(X86Inst::Store { base: REG_LOCAL_BASE, disp: offset, src: Register::Reg(REG_TEMP2) });
            },
            ValueType::F64 => {
                emit_mov_reg_to_reg(&mut self.code, Register::FpReg(REG_TEMP_FP), value);
                self.code.push(X86Inst::Store { base: REG_LOCAL_BASE, disp: offset, src: Register::FpReg(REG_TEMP_FP) });
            },
        }
        assert(self@.code =~= c0 + local_set_code(value, local_idx, ty));
    }

    /// Stores the value on top of the stack, `top_of_stack`, into local
    /// `local_idx`; the value stays on the stack.
    pub fn emit_local_tee(&mut self, top_of_stack: Register, local_idx: u32, ty: ValueType)
        ensures
            final(self)@ == (CompilerView {
                code: old(self)@.code + local_set_code(top_of_stack, local_idx, ty),
                ..old(self)@
            }),
    {
        self.emit_local_set(top_of_stack, local_idx, ty);
    }
}

/// Saving a caller-saved location on the machine stack before a call.
pub open spec fn save_code(r: Register) -> Seq<X86Inst> {
    match r {
        Register::Reg(x) => seq![X86Inst::Push { src: x }],
        Register::FpReg(x) => seq![
            X86Inst::Mov { dst: Register::Reg(REG_TEMP2), src: Register::FpReg(x) },
            X86Inst::Push { src: REG_TEMP2 },
        ],
        Register::Stack(_) => Seq::empty(),
    }
}

/// Restoring a location saved by `save_code`.
pub open spec fn restore_code(r: Register) -> Seq<X86Inst> {
    match r {
        Register::Reg(x) => seq![X86Inst::Pop { dst: x }],
        Register::FpReg(x) => seq![
            X86Inst::Pop { dst: REG_TEMP },
            X86Inst::Mov { dst: Register::FpReg(x), src: Register::Reg(REG_TEMP) },
        ],
        Register::Stack(_) => Seq::empty(),
    }
}

/// Saving the locations `rs`, the first first.
pub open spec fn saves_code(rs: Seq<Register>) -> Seq<X86Inst>
    decreases rs.len(),
{
    if rs.len() == 0 {
        Seq::empty()
    } else {
        saves_code(rs.drop_last()) + save_code(rs.last())
    }
}

/// Restoring the locations `rs`, the last first.
pub open spec fn restores_code(rs: Seq<Register>) -> Seq<X86Inst>
    decreases rs.len(),
{
    if rs.len() == 0 {
        Seq::empty()
    } else {
        restore_code(rs.last()) + restores_code(rs.drop_last())
    }
}

/// Pushing an argument that does not go in a register.
pub open spec fn arg_push_code(r: Register) -> Seq<X86Inst> {
    match r {
        Register::Reg(x) => seq![X86Inst::Push { src: x }],
        _ => seq![X86Inst::Mov { dst: Register::Reg(REG_TEMP), src: r }, X86Inst::Push { src: REG_TEMP }],
    }
}

/// The moves of the arguments before position `k` that go in registers,
/// the last first.
pub open spec fn arg_moves_code(args: Seq<Register>, k: nat) -> Seq<X86Inst>
    decreases k,
{
    if k == 0 {
        Seq::empty()
    } else {
        let i = (k - 1) as nat;
        (if i < 6 {
            spec_mov(Register::Reg(super::regalloc::register::argument_registers()[i as int]), args[i as int])
        } else {
            Seq::empty()
        }) + arg_moves_code(args, i)
    }
}

/// Pushing the arguments from position `k` on, in order.
pub open spec fn arg_pushes_code(args: Seq<Register>, k: nat) -> Seq<X86Inst>
    decreases args.len() - k,
{
    if k >= args.len() {
        Seq::empty()
    } else {
        arg_push_code(args[k as int]) + arg_pushes_code(args, k + 1)
    }
}

/// The locations of the top `n` entries of a register stack, the deepest first.
pub open spec fn top_locations(regs: Seq<RegWithType>, n: nat) -> Seq<Register> {
    regs.subrange(regs.len() - n, regs.len() as int).map_values(|r: RegWithType| r.reg)
}

/// The whole of a call of the function whose index is in `callee` with
/// `nr_args` arguments on top of the register stack `regs`, its result in `ret`.
pub open spec fn call_code(callee: X86Register, regs: Seq<RegWithType>, nr_args: nat, ret: Register) -> Seq<X86Inst> {
    let saved = super::regalloc::allocator::caller_saved_locations(regs);
    let args = top_locations(regs, nr_args);
    spec_mov(Register::Reg(REG_TEMP), Register::Reg(callee)) + saves_code(saved) + arg_moves_code(args, nr_args)
        + arg_pushes_code(args, 6) + seq![
        X86Inst::MovFuncTable { dst: REG_TEMP2 },
        X86Inst::LoadIndexed { dst: X86Register::Rax, base: REG_TEMP2, index: REG_TEMP },
        X86Inst::CallReg { target: X86Register::Rax },
    ] + spec_mov(ret, Register::Reg(X86Register::Rax)) + seq![
        X86Inst::AddImm { dst: X86Register::Rsp, value: (if nr_args > 6 { (nr_args - 6) * 8 } else { 0 }) as u64 },
    ] + restores_code(saved)
}

impl X86JitCompiler {
    /// Saves each of the locations `rs` on the machine stack.
    fn emit_saves(&mut self, rs: &Vec<Register>)
        ensures
            final(self)@ == (CompilerView { code: old(self)@.code + saves_code(rs@), ..old(self)@ }),
    {
        let mut i: usize = 0;
        assert(rs@.take(0) == Seq::<Register>::empty());
        while i < rs.len()
            invariant
                i <= rs@.len(),
                self@ == (CompilerView { code: old(self)@.code + saves_code(rs@.take(i as int)), ..old(self)@ }),
            decreases rs.len() - i,
        {
            assert(rs@.take(i + 1).drop_last() == rs@.take(i as int));
            let ghost before = self@.code;
            match rs[i] {
                Register::Reg(x) => {
                    self.code.push(X86Inst::Push { src: x });
                },
                Register::FpReg(x) => {
                    self.code.push(X86Inst::Mov { dst: Register::Reg(REG_TEMP2), src: Register::FpReg(x) });
                    self.code.push(X86Inst::Push { src: REG_TEMP2 });
                },
                Register::Stack(_) => {},
            }
            assert(self@.code =~= before + save_code(rs@[i as int]));
            i += 1;
            assert(self@.code =~= old(self)@.code + saves_code(rs@.take(i as int)));
        }
        assert(rs@.take(i as int) == rs@);
    }

    /// Restores each of the locations `rs`, the last first.
    fn emit_restores(&mut self, rs: &Vec<Register>)
        ensures
            final(self)@ == (CompilerView { code: old(self)@.code + restores_code(rs@), ..old(self)@ }),
    {
        let mut i: usize = rs.len();
        assert(rs@.take(rs@.len() as int) == rs@);
        while i > 0
            invariant
                i <= rs@.len(),
                self@.code + restores_code(rs@.take(i as int)) == old(self)@.code + restores_code(rs@),
                self@ == (CompilerView { code: self@.code, ..old(self)@ }),
            decreases i,
        {
            assert(rs@.take(i as int).drop_last() == rs@.take(i - 1));
            assert(rs@.take(i as int).last() == rs@[i - 1]);
            let ghost before = self@.code;
            match rs[i - 1] {
                Register::Reg(x) => {
                    self.code.push(X86Inst::Pop { dst: x });
                },
                Register::FpReg(x) => {
                    self.code.push(X86Inst::Pop { dst: REG_TEMP });
                    self.code.push(X86Inst::Mov { dst: Register::FpReg(x), src: Register::Reg(REG_TEMP) });
                },
                Register::Stack(_) => {},
            }
            assert(self@.code =~= before + restore_code(rs@[i - 1]));
            assert(self@.code + restores_code(rs@.take(i - 1)) =~= before + restores_code(rs@.take(i as int)));
            i -= 1;
        }
        assert(rs@.take(0) == Seq::<Register>::empty());
        assert(self@.code + Seq::<X86Inst>::empty() == self@.code);
    }

    /// Pops `nr_args` arguments off the register stack and puts the first six
    /// in the argument registers, the last first, then pushes the others on
    /// the machine stack in order.
    fn setup_function_call_arguments(&mut self, nr_args: usize)
        requires
            nr_args <= old(self)@.regs.regs.len(),
        ensures
            final(self)@ == (CompilerView {
                regs: AllocatorView {
                    regs: old(self)@.regs.regs.subrange(0, old(self)@.regs.regs.len() - nr_args),
                    ..old(self)@.regs
                },
                code: old(self)@.code + arg_moves_code(top_locations(old(self)@.regs.regs, nr_args as nat), nr_args as nat)
                    + arg_pushes_code(top_locations(old(self)@.regs.regs, nr_args as nat), 6),
                ..old(self)@
            }),
    {
        let ghost r0 = old(self)@.regs.regs;
        let ghost args_spec = top_locations(r0, nr_args as nat);
        assert(args_spec.len() == nr_args);
        let mut args: Vec<Register> = Vec::new();
        let mut k: usize = 0;
        assert(r0.subrange(0, r0.len() as int) =~= r0);
        while k < nr_args
            invariant
                k <= nr_args <= r0.len(),
                self@ == (CompilerView {
                    regs: AllocatorView { regs: r0.subrange(0, r0.len() - k), ..old(self)@.regs },
                    ..old(self)@
                }),
                args@ == args_spec.subrange(nr_args - k, nr_args as int),
                args_spec == top_locations(r0, nr_args as nat),
                args_spec.len() == nr_args,
            decreases nr_args - k,
        {
            let ghost regs_before = self@.regs.regs;
            let arg = self.reg_allocator.pop_noopt();
            assert(arg == r0[r0.len() - k - 1]);
            assert(r0.subrange(r0.len() - nr_args, r0.len() as int)[nr_args - k - 1] == r0[r0.len() - k - 1]);
            assert(args_spec[nr_args - k - 1] == arg.reg);
            args.insert(0, arg.reg);
            k += 1;
            assert(args@ =~= args_spec.subrange(nr_args - k, nr_args as int));
            assert(self@.regs.regs =~= r0.subrange(0, r0.len() - k));
        }
        assert(args@ =~= args_spec);
        let mut i: usize = nr_args;
        let ghost c0 = self@.code;
        assert(args_spec.len() == nr_args);
        while i > 0
            invariant
                i <= nr_args,
                args@ == args_spec,
                args_spec.len() == nr_args,
                nr_args <= r0.len(),
                self@.code + arg_moves_code(args_spec, i as nat) == c0 + arg_moves_code(args_spec, nr_args as nat),
                self@ == (CompilerView {
                    regs: AllocatorView { regs: r0.subrange(0, r0.len() - nr_args), ..old(self)@.regs },
                    code: self@.code,
                    ..old(self)@
                }),
            decreases i,
        {
            let ghost before = self@.code;
            let idx = i - 1;
            if idx < 6 {
                emit_mov_reg_to_reg(&mut self.code, Register::from_ith_argument(idx as u32), args[idx]);
            }
            assert(self@.code + arg_moves_code(args_spec, idx as nat) =~= before + arg_moves_code(args_spec, i as nat));
            i = idx;
        }
        assert(self@.code + Seq::<X86Inst>::empty() == self@.code);
        let ghost c1 = self@.code;
        let mut j: usize = 6;
        while j < nr_args
            invariant
                6 <= j,
                args@ == args_spec,
                args_spec.len() == nr_args,
                j <= nr_args || j == 6,
                nr_args <= r0.len(),
                self@.code + arg_pushes_code(args_spec, j as nat) == c1 + arg_pushes_code(args_spec, 6),
                self@ == (CompilerView {
                    regs: AllocatorView { regs: r0.subrange(0, r0.len() - nr_args), ..old(self)@.regs },
                    code: self@.code,
                    ..old(self)@
                }),
            decreases nr_args - j,
        {
            let ghost before = self@.code;
            match args[j] {
                Register::Reg(x) => {
                    self.code.push(X86Inst::Push { src: x });
                },
                r => {
                    self.code.push(X86Inst::Mov { dst: Register::Reg(REG_TEMP), src: r });
                    self.code.push(X86Inst::Push { src: REG_TEMP });
                },
            }
            assert(self@.code =~= before + arg_push_code(args_spec[j as int]));
            assert(self@.code + arg_pushes_code(args_spec, (j + 1) as nat) =~= before + arg_pushes_code(args_spec, j as nat));
            j += 1;
        }
        assert(self@.code + Seq::<X86Inst>::empty() == self@.code);
    }

    /// Calls the function whose index is in `callee_index` with `nr_args`
    /// arguments from the register stack: saves the caller-saved locations
    /// in use, passes the arguments, calls through the function table, takes
    /// the result into a location a call does not clobber, drops the pushed
    /// arguments and restores the saved locations.
    #[verifier::rlimit(30)]
    pub fn emit_call(&mut self, callee_index: X86Register, nr_args: usize)
        requires
            nr_args <= old(self)@.regs.regs.len(),
            nr_args * 8 <= u64::MAX,
            old(self)@.regs.stack_offset + 8 <= usize::MAX,
        ensures
            final(self)@ == call_state(old(self)@, callee_index, nr_args as nat),
    {
        let ghost s0 = self@;
        let ghost r0 = old(self)@.regs.regs;
        self.emit_mov(Register::Reg(REG_TEMP), Register::Reg(callee_index));
        let caller_saved_regs = self.reg_allocator.get_used_caller_saved_registers();
        self.emit_saves(&caller_saved_regs);
        self.setup_function_call_arguments(nr_args);
        let ghost s2 = self@;
        self.push_inst(X86Inst::MovFuncTable { dst: REG_TEMP2 });
        self.push_inst(X86Inst::LoadIndexed { dst: X86Register::Rax, base: REG_TEMP2, index: REG_TEMP });
        self.push_inst(X86Inst::CallReg { target: X86Register::Rax });
        let ret = self.reg_allocator.next_not_caller_saved();
        self.emit_mov(ret.reg, Register::Reg(X86Register::Rax));
        let restore_size: u64 = if nr_args > 6 {
            ((nr_args - 6) as u64) * 8
        } else {
            0
        };
        self.push_inst(X86Inst::AddImm { dst: X86Register::Rsp, value: restore_size });
        let ghost s3 = self@;
        self.emit_restores(&caller_saved_regs);
        let ghost saved = super::regalloc::allocator::caller_saved_locations(r0);
        let ghost args = top_locations(r0, nr_args as nat);
        assert(s2.code == s0.code + spec_mov(Register::Reg(REG_TEMP), Register::Reg(callee_index)) + saves_code(saved)
            + arg_moves_code(args, nr_args as nat) + arg_pushes_code(args, 6));
        assert(self@.code =~= s0.code + call_code(callee_index, r0, nr_args as nat, ret.reg));
        let ghost expected = call_state(s0, callee_index, nr_args as nat);
        assert(self@.regs == expected.regs);
        assert(self@.code == expected.code);
        assert(self@ =~= expected);
    }

    /// Appends `inst` to the code.
    pub(crate) fn push_inst(&mut self, inst: X86Inst)
        ensures
            final(self)@ == (CompilerView { code: old(self)@.code.push(inst), ..old(self)@ }),
    {
        self.code.push(inst);
    }

    /// Appends the move of a value from `src` to `dst`.
    pub(crate) fn emit_mov(&mut self, dst: Register, src: Register)
        ensures
            final(self)@ == (CompilerView { code: old(self)@.code + spec_mov(dst, src), ..old(self)@ }),
    {
        emit_mov_reg_to_reg(&mut self.code, dst, src);
    }
}

/// The code generator after a call of the function whose index is in
/// `callee` with `nr_args` arguments from the register stack: the arguments
/// are replaced by the result, in the location `next_callee_saved_location`
/// picks.
pub open spec fn call_state(s: CompilerView, callee: X86Register, nr_args: nat) -> CompilerView {
    let rest = AllocatorView { regs: s.regs.regs.subrange(0, s.regs.regs.len() - nr_args), ..s.regs };
    let ret = RegWithType { reg: super::regalloc::allocator::next_callee_saved_location(rest), ty: ValueType::I32 };
    CompilerView {
        regs: AllocatorView { regs: rest.regs.push(ret), stack_offset: offset_after(rest, ret.reg) },
        code: s.code + call_code(callee, s.regs.regs, nr_args, ret.reg),
        ..s
    }
}


/// The label counter of a code generator fits in 32 bits.
pub proof fn lemma_label_bound(c: &X86JitCompiler)
    ensures
        c@.next_label <= u32::MAX,
{
}

/// The code generator with `c` appended to its code.
pub open spec fn appended(s: CompilerView, c: Seq<X86Inst>) -> CompilerView {
    CompilerView { code: s.code + c, ..s }
}

/// The code generator with the register stack `regs`.
pub open spec fn with_regs(s: CompilerView, regs: AllocatorView) -> CompilerView {
    CompilerView { regs, ..s }
}

/// The code generator after handing out `r` for a new value of type `ty`.
pub open spec fn allocated(s: CompilerView, r: Register, ty: ValueType) -> CompilerView {
    with_regs(
        s,
        AllocatorView { regs: s.regs.regs.push(RegWithType { reg: r, ty }), stack_offset: offset_after(s.regs, r) },
    )
}

/// The code generator with the top of its register stack popped.
pub open spec fn popped(s: CompilerView) -> CompilerView {
    with_regs(s, AllocatorView { regs: s.regs.regs.drop_last(), ..s.regs })
}

impl X86JitCompiler {
    /// The module being compiled.
    pub fn module(&self) -> (res: &WasmModule)
        ensures
            res@ == self@.module,
    {
        &self.module
    }

    /// Pops the top of the register stack, which must exist.
    pub(crate) fn pop_reg(&mut self) -> (res: RegWithType)
        requires
            old(self)@.regs.regs.len() > 0,
        ensures
            res == old(self)@.regs.regs.last(),
            final(self)@ == popped(old(self)@),
    {
        self.reg_allocator.pop_noopt()
    }

    /// Pushes `rt` on the register stack.
    pub(crate) fn push_reg(&mut self, rt: RegWithType)
        ensures
            final(self)@ == with_regs(old(self)@, AllocatorView { regs: old(self)@.regs.regs.push(rt), ..old(self)@.regs }),
    {
        self.reg_allocator.push(rt);
    }

    /// Hands out the next location for an integer value.
    pub fn alloc_gp(&mut self) -> (res: RegWithType)
        requires
            old(self)@.regs.stack_offset + 8 <= usize::MAX,
        ensures
            res == (RegWithType { reg: next_gp_location(old(self)@.regs), ty: ValueType::I32 }),
            final(self)@ == allocated(old(self)@, res.reg, ValueType::I32),
    {
        self.reg_allocator.next()
    }

    /// Hands out the next location for a floating-point value.
    pub fn alloc_fp(&mut self) -> (res: RegWithType)
        requires
            old(self)@.regs.stack_offset + 8 <= usize::MAX,
        ensures
            res == (RegWithType { reg: super::regalloc::allocator::next_fp_location(old(self)@.regs), ty: ValueType::F64 }),
            final(self)@ == allocated(old(self)@, res.reg, ValueType::F64),
    {
        self.reg_allocator.next_xmm()
    }

    /// Hands out a fresh spill slot for a value of type `ty`.
    pub(crate) fn alloc_spill(&mut self, ty: ValueType) -> (res: RegWithType)
        requires
            old(self)@.regs.stack_offset + 8 <= usize::MAX,
        ensures
            res == (RegWithType { reg: Register::Stack((old(self)@.regs.stack_offset + 8) as usize), ty }),
            final(self)@ == allocated(old(self)@, res.reg, ty),
    {
        self.reg_allocator.new_spill(ty)
    }

    /// A copy of the register stack.
    pub(crate) fn regs_snapshot(&self) -> (res: X86RegisterAllocator)
        ensures
            res@ == self@.regs,
    {
        self.reg_allocator.clone()
    }

    /// Replaces the register stack by `regs`.
    pub(crate) fn set_regs(&mut self, regs: X86RegisterAllocator)
        ensures
            final(self)@ == with_regs(old(self)@, regs@),
    {
        self.reg_allocator = regs;
    }

    /// Empties the register stack, keeping the spill area.
    pub(crate) fn clear_regs(&mut self)
        ensures
            final(self)@ == with_regs(old(self)@, AllocatorView { regs: Seq::empty(), ..old(self)@.regs }),
    {
        self.reg_allocator.clear_vec();
    }

    /// Forgets the state of the function compiled before: the register
    /// stack, the spill area, the open blocks and the reconciliations.
    pub(crate) fn reset_function_state(&mut self)
        ensures
            final(self)@ == (CompilerView {
                regs: AllocatorView { regs: Seq::empty(), stack_offset: 0 },
                frames: Seq::empty(),
                reconcile: Seq::empty(),
                ..old(self)@
            }),
    {
        self.reg_allocator.reset();
        self.control_flow_stack.clear();
        self.reg_reconcile_info.clear();
        assert(frames_view(self.control_flow_stack@) =~= Seq::<FrameView>::empty());
        assert(reconcile_view(self.reg_reconcile_info@) =~= Seq::<ReconcileView>::empty());
    }

    /// Opens the block `frame`.
    pub(crate) fn push_frame(&mut self, frame: ControlFrame)
        ensures
            final(self)@ == (CompilerView { frames: old(self)@.frames.push(frame@), ..old(self)@ }),
    {
        let ghost f = frame@;
        self.control_flow_stack.push(frame);
        assert(frames_view(self.control_flow_stack@) =~= old(self)@.frames.push(f));
    }

    /// Closes the innermost block, if there is one.
    pub(crate) fn pop_frame(&mut self) -> (res: Option<ControlFrame>)
        ensures
            old(self)@.frames.len() == 0 ==> res is None && final(self)@ == old(self)@,
            old(self)@.frames.len() > 0 ==> res is Some && res->Some_0@ == old(self)@.frames.last()
                && final(self)@ == (CompilerView { frames: old(self)@.frames.drop_last(), ..old(self)@ }),
    {
        let res = self.control_flow_stack.pop();
        proof {
            if old(self)@.frames.len() > 0 {
                assert(frames_view(self.control_flow_stack@) =~= old(self)@.frames.drop_last());
            }
        }
        res
    }

    /// The number of open blocks.
    pub(crate) fn frames_len(&self) -> (res: usize)
        ensures
            res == self@.frames.len(),
    {
        self.control_flow_stack.len()
    }

    /// The `i`-th open block, the outermost first.
    pub(crate) fn frame(&self, i: usize) -> (res: &ControlFrame)
        requires
            i < self@.frames.len(),
        ensures
            res@ == self@.frames[i as int],
    {
        &self.control_flow_stack[i]
    }

    /// The number of functions in table `i`.
    pub(crate) fn table_len_of(&self, i: u32) -> (res: Option<usize>)
        ensures
            match res {
                Some(n) => i < self@.table_len.len() && n == self@.table_len[i as int],
                None => i >= self@.table_len.len(),
            },
    {
        if (i as usize) < self.table_len.len() {
            Some(self.table_len[i as usize])
        } else {
            None
        }
    }

    /// The labels of the non-default targets of the `table`-th branch table
    /// of function `func`.
    pub(crate) fn brtable_target_labels(&self, func: u32, table: usize) -> (res: Option<&Vec<Label>>)
        ensures
            match res {
                Some(v) => func < self@.brtable_labels.len() && table < self@.brtable_labels[func as int].len()
                    && v@ == self@.brtable_labels[func as int][table as int],
                None => func >= self@.brtable_labels.len() || table >= self@.brtable_labels[func as int].len(),
            },
    {
        if (func as usize) < self.brtable_nondefault_target_labels.len() {
            let f = &self.brtable_nondefault_target_labels[func as usize];
            assert(self@.brtable_labels[func as int] == f@.map_values(|t: Vec<Label>| t@));
            if table < f.len() {
                return Some(&f[table]);
            }
        }
        None
    }

    /// The branches waiting for reconciliation.
    pub(crate) fn reconcile_infos(&self) -> (res: &Vec<RegReconcileInfo>)
        ensures
            reconcile_view(res@) == self@.reconcile,
    {
        &self.reg_reconcile_info
    }

    /// The label of function `i`.
    pub(crate) fn func_label(&self, i: usize) -> (res: Option<Label>)
        ensures
            match res {
                Some(l) => i < self@.func_labels.len() && l == self@.func_labels[i as int],
                None => i >= self@.func_labels.len(),
            },
    {
        if i < self.func_labels.len() {
            Some(self.func_labels[i])
        } else {
            None
        }
    }

    /// Appends the read of the linear memory's size in pages into `dst`.
    pub(crate) fn emit_read_mem_size(&mut self, dst: Register)
        ensures
            final(self)@ == appended(old(self)@, super::mem::read_size_code(dst)),
    {
        self.linear_mem.read_memory_size_in_page(&mut self.code, dst);
    }

    /// Appends the growth of the linear memory by the pages in `npages`.
    pub(crate) fn emit_mem_grow(&mut self, npages: Register)
        ensures
            final(self)@ == appended(old(self)@, super::mem::grow_code(npages)),
    {
        self.linear_mem.grow(&mut self.code, npages);
    }

    /// Appends the reservation of the linear memory and its growth to the
    /// pages holding `bytes` bytes.
    pub(crate) fn emit_mem_init(&mut self, bytes: u64)
        ensures
            final(self)@ == appended(old(self)@, super::mem::init_size_code(bytes)),
    {
        self.linear_mem.init_size(&mut self.code, bytes);
    }
}


impl X86JitCompiler {
    /// The height of the register stack.
    pub fn regs_len(&self) -> (res: usize)
        ensures
            res == self@.regs.regs.len(),
    {
        self.reg_allocator.size()
    }

    /// The top of the register stack, which must exist.
    pub(crate) fn top_reg(&self) -> (res: RegWithType)
        requires
            self@.regs.regs.len() > 0,
        ensures
            res == self@.regs.regs.last(),
    {
        let v = self.reg_allocator.get_vec();
        v[v.len() - 1]
    }

    /// Whether one more spill slot fits in the address space.
    pub(crate) fn has_spill_room(&self) -> (res: bool)
        ensures
            res == (self@.regs.stack_offset + 8 <= usize::MAX),
    {
        self.reg_allocator.stack_offset() <= usize::MAX - 8
    }

    /// Whether one more label can be handed out.
    pub(crate) fn has_label_room(&self, n: u32) -> (res: bool)
        ensures
            res == (self@.next_label + n <= u32::MAX),
    {
        self.next_label <= u32::MAX - n
    }
}


impl X86JitCompiler {
    /// Sets the cell of global `i` to `v` and its type to `ty`.
    pub(crate) fn set_global(&mut self, i: usize, v: u64, ty: ValueType)
        requires
            i < old(self)@.globals.len(),
            i < old(self)@.global_types.len(),
        ensures
            final(self)@ == (CompilerView {
                globals: old(self)@.globals.update(i as int, v),
                global_types: old(self)@.global_types.update(i as int, ty),
                ..old(self)@
            }),
    {
        self.globals.set(i, v);
        self.global_types.set(i, ty);
    }

    /// The number of tables.
    pub(crate) fn tables_len(&self) -> (res: usize)
        ensures
            res == self@.tables.len(),
    {
        self.tables.len()
    }

    /// Appends function `f` to table `t`.
    pub(crate) fn push_table_entry(&mut self, t: usize, f: u32)
        requires
            t < old(self)@.tables.len(),
        ensures
            final(self)@ == (CompilerView {
                tables: old(self)@.tables.update(t as int, old(self)@.tables[t as int].push(f)),
                ..old(self)@
            }),
    {
        let mut v = Vec::new();
        std::mem::swap(&mut v, &mut self.tables[t]);
        v.push(f);
        std::mem::swap(&mut v, &mut self.tables[t]);
        assert(tables_view(self.tables@) =~= old(self)@.tables.update(t as int, old(self)@.tables[t as int].push(f)));
    }

    /// Records the size of every table.
    pub(crate) fn record_table_lens(&mut self)
        requires
            old(self)@.table_len.len() == old(self)@.tables.len(),
        ensures
            final(self)@ == (CompilerView {
                table_len: Seq::new(old(self)@.tables.len(), |i: int| old(self)@.tables[i].len() as usize),
                ..old(self)@
            }),
    {
        let mut i: usize = 0;
        while i < self.tables.len()
            invariant
                i <= self.tables@.len() == self.table_len@.len() == old(self)@.tables.len(),
                self@ == (CompilerView {
                    table_len: Seq::new(old(self)@.tables.len(), |k: int| if k < i {
                        old(self)@.tables[k].len() as usize
                    } else {
                        old(self)@.table_len[k]
                    }),
                    ..old(self)@
                }),
            decreases self.tables.len() - i,
        {
            let n = self.tables[i].len();
            assert(self@.tables[i as int] == self.tables@[i as int]@);
            self.table_len.set(i, n);
            i += 1;
            assert(self.table_len@ =~= Seq::new(old(self)@.tables.len(), |k: int| if k < i {
                old(self)@.tables[k].len() as usize
            } else {
                old(self)@.table_len[k]
            }));
        }
        assert(self.table_len@ =~= Seq::new(old(self)@.tables.len(), |k: int| old(self)@.tables[k].len() as usize));
    }
}


impl X86JitCompiler {
    /// Whether there is a cell and a type per global and a size per table.
    pub(crate) fn is_runtime_sized(&self) -> (res: bool)
        ensures
            res == (self@.globals.len() == self@.module.globals.len() && self@.global_types.len()
                == self@.module.globals.len() && self@.table_len.len() == self@.tables.len()),
    {
        let ng = self.module.get_globals().len();
        self.globals.len() == ng && self.global_types.len() == ng && self.table_len.len() == self.tables.len()
    }
}


impl X86JitCompiler {
    /// The cells of the globals.
    pub fn globals(&self) -> (res: &Vec<u64>)
        ensures
            res@ == self@.globals,
    {
        &self.globals
    }

    /// The types of the globals.
    pub fn global_types(&self) -> (res: &Vec<ValueType>)
        ensures
            res@ == self@.global_types,
    {
        &self.global_types
    }

    /// The function indices of each table.
    pub fn tables(&self) -> (res: &Vec<Vec<u32>>)
        ensures
            tables_view(res@) == self@.tables,
    {
        &self.tables
    }

    /// The recorded size of each table.
    pub fn table_len(&self) -> (res: &Vec<usize>)
        ensures
            res@ == self@.table_len,
    {
        &self.table_len
    }

    /// The label of each function.
    pub fn func_labels(&self) -> (res: &Vec<Label>)
        ensures
            res@ == self@.func_labels,
    {
        &self.func_labels
    }

    /// The signature index of each function.
    pub fn func_sig_indices(&self) -> (res: &Vec<u32>)
        ensures
            res@ == self@.func_sig_indices,
    {
        &self.func_sig_indices
    }
}

} // verus!
