//! Structured control flow in the code generator: the frames of the blocks
//! being compiled, branches, branch tables and indirect calls.
use vstd::prelude::*;

use super::compiler::{appended, call_state, CompilerView, X86JitCompiler};
use super::regalloc::allocator::{AllocatorView, RegWithType, X86RegisterAllocator};
use crate::module::components::copy_vec;
use crate::module::insts::BrTable;
use super::regalloc::register::{Register, REG_TEMP, REG_TEMP2};
use super::x86::{spec_mov, Cond, Label, X86Inst};
use super::JitError;

verus! {

/// The kinds of structured blocks.
#[derive(Debug, Clone, Copy, PartialEq, Eq, Structural)]
pub enum ControlFlowType {
    Block,
    If,
    Loop,
}

/// A block being compiled: its kind, the register stack at its entry and
/// the labels of its start and its end.
pub struct ControlFrame {
    pub control_type: ControlFlowType,
    pub entry_regalloc_snapshot: X86RegisterAllocator,
    pub start_label: Label,
    pub end_label: Label,
}

/// A block frame as a mathematical value.
pub struct FrameView {
    pub control_type: ControlFlowType,
    pub snapshot: AllocatorView,
    pub start_label: Label,
    pub end_label: Label,
}

impl View for ControlFrame {
    type V = FrameView;

    open spec fn view(&self) -> FrameView {
        FrameView {
            control_type: self.control_type,
            snapshot: self.entry_regalloc_snapshot@,
            start_label: self.start_label,
            end_label: self.end_label,
        }
    }
}

/// A branch whose register stack has to be brought in line with the one at
/// the end of its target block: the code doing so starts at
/// `reconcile_start_label` and jumps to `target_end_label`.
pub struct RegReconcileInfo {
    pub target_end_label: Label,
    pub reconcile_start_label: Label,
    pub regalloc_snapshot: X86RegisterAllocator,
}

/// A reconciliation record as a mathematical value.
pub struct ReconcileView {
    pub target_end_label: Label,
    pub reconcile_start_label: Label,
    pub snapshot: AllocatorView,
}

impl View for RegReconcileInfo {
    type V = ReconcileView;

    open spec fn view(&self) -> ReconcileView {
        ReconcileView {
            target_end_label: self.target_end_label,
            reconcile_start_label: self.reconcile_start_label,
            snapshot: self.regalloc_snapshot@,
        }
    }
}

pub open spec fn frames_view(v: Seq<ControlFrame>) -> Seq<FrameView> {
    v.map_values(|f: ControlFrame| f@)
}

pub open spec fn reconcile_view(v: Seq<RegReconcileInfo>) -> Seq<ReconcileView> {
    v.map_values(|r: RegReconcileInfo| r@)
}


/// The end label a branch of relative depth `depth` jumps to, with the open
/// blocks `frames`: only a `block` can be targeted.
pub open spec fn br_target(frames: Seq<FrameView>, depth: u32) -> Result<Label, JitError> {
    if depth >= frames.len() {
        Err(JitError::InvalidBranchDepth)
    } else {
        let f = frames[frames.len() - depth - 1];
        match f.control_type {
            ControlFlowType::Block => Ok(f.end_label),
            _ => Err(JitError::UnsupportedBranchTarget),
        }
    }
}

/// The code generator after opening a `block` whose start and end labels are
/// `begin` and `end`: the frame records the register stack and `begin` is bound.
pub open spec fn block_state(s: CompilerView, begin: Label, end: Label) -> CompilerView {
    CompilerView {
        frames: s.frames.push(FrameView { control_type: ControlFlowType::Block, snapshot: s.regs, start_label: begin, end_label: end }),
        code: s.code.push(X86Inst::Bind { label: begin }),
        ..s
    }
}

/// The code of an `if` on the condition in `cond` starting at `start`: a
/// zero condition jumps to `else_label` where there is one; where there is
/// none, the code jumps to `end`.
pub open spec fn if_code(start: Label, cond: Register, else_label: Option<Label>, end: Label) -> Seq<X86Inst> {
    seq![X86Inst::Bind { label: start }] + spec_mov(Register::Reg(REG_TEMP), cond) + seq![
        X86Inst::CompareImm { a: REG_TEMP, value: 0 },
    ] + match else_label {
        Some(l) => seq![X86Inst::Jcc { cond: Cond::Zero, target: l }],
        None => seq![X86Inst::Jmp { target: end }],
    }
}

/// The code generator after opening an `if` on the condition in `cond`: a
/// new start label is bound; a zero condition jumps to `else_label` where
/// there is one, and the code jumps to `end` where there is none.
pub open spec fn if_state(s: CompilerView, cond: Register, else_label: Option<Label>, end: Label) -> CompilerView {
    let start = Label(s.next_label as u32);
    CompilerView {
        frames: s.frames.push(FrameView { control_type: ControlFlowType::If, snapshot: s.regs, start_label: start, end_label: end }),
        code: s.code + if_code(start, cond, else_label, end),
        next_label: s.next_label + 1,
        ..s
    }
}

/// The instructions of a conditional branch on `cond` to `target`, skipping
/// to `skip` when `cond` is zero.
pub open spec fn br_if_code(cond: Register, skip: Label, target: Label) -> Seq<X86Inst> {
    spec_mov(Register::Reg(REG_TEMP), cond) + seq![
        X86Inst::CompareImm { a: REG_TEMP, value: 0 },
        X86Inst::Jcc { cond: Cond::Zero, target: skip },
        X86Inst::Jmp { target },
        X86Inst::Bind { label: skip },
    ]
}

/// The jump table of a branch table: the first `n` targets, each its label
/// bound and a jump to its block's end.
pub open spec fn br_table_jumps(frames: Seq<FrameView>, labels: Seq<Label>, targets: Seq<u32>, n: nat) -> Result<Seq<X86Inst>, JitError>
    decreases n,
{
    if n == 0 {
        Ok(Seq::empty())
    } else {
        match br_table_jumps(frames, labels, targets, (n - 1) as nat) {
            Err(e) => Err(e),
            Ok(c) => match br_target(frames, targets[n - 1]) {
                Ok(l) => Ok(c + seq![X86Inst::Bind { label: labels[n - 1] }, X86Inst::Jmp { target: l }]),
                Err(e) => Err(e),
            },
        }
    }
}

/// The whole of a branch table on the index in `index`, or why it cannot be
/// compiled. An index out of range, negative included, goes to the default
/// target; the others jump through the table of target addresses.
pub open spec fn br_table_code(
    s: CompilerView,
    index: Register,
    targets: Seq<u32>,
    default_target: u32,
    func: u32,
    table: usize,
) -> Result<Seq<X86Inst>, JitError> {
    let default_label = Label(s.next_label as u32);
    if func >= s.brtable_labels.len() || table >= s.brtable_labels[func as int].len()
        || s.brtable_labels[func as int][table as int].len() < targets.len() {
        Err(JitError::MissingLabel)
    } else {
        match br_table_jumps(s.frames, s.brtable_labels[func as int][table as int], targets, targets.len()) {
            Err(e) => Err(e),
            Ok(jumps) => match br_target(s.frames, default_target) {
                Err(e) => Err(e),
                Ok(d) => Ok(spec_mov(Register::Reg(REG_TEMP), index) + seq![
                    X86Inst::CompareImm { a: REG_TEMP, value: 0 },
                    X86Inst::Jcc { cond: Cond::Sign, target: default_label },
                    X86Inst::CompareImm { a: REG_TEMP, value: targets.len() as u64 },
                    X86Inst::Jcc { cond: Cond::AboveEqual, target: default_label },
                    X86Inst::MovBrTargets { dst: REG_TEMP2, func, table },
                    X86Inst::JmpIndexed { base: REG_TEMP2, index: REG_TEMP },
                ] + jumps + seq![X86Inst::Bind { label: default_label }, X86Inst::Jmp { target: d }]),
            },
        }
    }
}

/// The checks of an indirect call through table `table_index` on the slot
/// in `REG_TEMP2`, whose table holds `table_size` functions, leaving the
/// function index in `REG_TEMP`: a slot out of range or a signature other
/// than `type_index` traps.
pub open spec fn call_indirect_checks(trap: Label, table_size: usize, type_index: u32, table_index: u32) -> Seq<X86Inst> {
    seq![
        X86Inst::CompareImm { a: REG_TEMP2, value: table_size as u64 },
        X86Inst::Jcc { cond: Cond::GreaterEqual, target: trap },
        X86Inst::CompareImm { a: REG_TEMP2, value: 0 },
        X86Inst::Jcc { cond: Cond::Sign, target: trap },
        X86Inst::MovSigTable { dst: REG_TEMP },
        X86Inst::LoadIndexed32 { dst: REG_TEMP, base: REG_TEMP, index: REG_TEMP2 },
        X86Inst::CompareImm { a: REG_TEMP, value: type_index as u64 },
        X86Inst::Jcc { cond: Cond::NotEqual, target: trap },
        X86Inst::MovElemTable { dst: REG_TEMP, table: table_index },
        X86Inst::LoadIndexed32 { dst: REG_TEMP, base: REG_TEMP, index: REG_TEMP2 },
    ]
}

/// The code generator after an indirect call on the table slot in `callee`,
/// or why it cannot be compiled.
pub open spec fn call_indirect_state(s: CompilerView, callee: Register, type_index: u32, table_index: u32) -> Result<CompilerView, JitError> {
    if type_index >= s.module.sigs.len() {
        Err(JitError::TypeNotFound)
    } else if table_index >= s.table_len.len() {
        Err(JitError::TableNotFound)
    } else {
        let nr_args = s.module.sigs[type_index as int].params.len();
        if nr_args > s.regs.regs.len() {
            Err(JitError::StackUnderflow)
        } else if nr_args * 8 > u64::MAX {
            Err(JitError::TooManyArguments)
        } else if s.regs.stack_offset + 8 > usize::MAX {
            Err(JitError::OutOfStackSpace)
        } else {
            Ok(call_state(
                appended(
                    s,
                    spec_mov(Register::Reg(REG_TEMP2), callee) + call_indirect_checks(
                        s.trap_label,
                        s.table_len[table_index as int],
                        type_index,
                        table_index,
                    ),
                ),
                REG_TEMP,
                nr_args,
            ))
        }
    }
}

impl X86JitCompiler {
    /// Binds `label` to the next instruction.
    pub fn emit_single_label(&mut self, label: Label)
        ensures
            final(self)@ == appended(old(self)@, seq![X86Inst::Bind { label }]),
    {
        self.push_inst(X86Inst::Bind { label });
        assert(old(self)@.code.push(X86Inst::Bind { label }) =~= old(self)@.code + seq![X86Inst::Bind { label }]);
    }

    /// Jumps to `dst`.
    pub fn emit_jmp(&mut self, dst: Label)
        ensures
            final(self)@ == appended(old(self)@, seq![X86Inst::Jmp { target: dst }]),
    {
        self.push_inst(X86Inst::Jmp { target: dst });
        assert(old(self)@.code.push(X86Inst::Jmp { target: dst }) =~= old(self)@.code + seq![X86Inst::Jmp { target: dst }]);
    }

    /// Jumps to the trap handler.
    pub fn emit_trap(&mut self)
        ensures
            final(self)@ == appended(old(self)@, seq![X86Inst::Jmp { target: old(self)@.trap_label }]),
    {
        let t = self.trap_label();
        self.emit_jmp(t);
    }

    /// Opens a `block` whose start and end are `block_begin` and `block_end`.
    pub fn emit_block(&mut self, block_begin: Label, block_end: Label)
        ensures
            final(self)@ == block_state(old(self)@, block_begin, block_end),
    {
        let snapshot = self.regs_snapshot();
        self.push_frame(
            ControlFrame {
                control_type: ControlFlowType::Block,
                entry_regalloc_snapshot: snapshot,
                start_label: block_begin,
                end_label: block_end,
            },
        );
        self.emit_single_label(block_begin);
        assert(old(self)@.code + seq![X86Inst::Bind { label: block_begin }] =~= old(self)@.code.push(X86Inst::Bind { label: block_begin }));
    }

    /// Opens an `if` on the condition in `cond`, whose `else` and `end` are
    /// at `else_label` and `end_label`.
    pub fn emit_if(&mut self, cond: Register, else_label: Option<Label>, end_label: Label)
        requires
            old(self)@.next_label < u32::MAX,
        ensures
            final(self)@ == if_state(old(self)@, cond, else_label, end_label),
    {
        let start_label = self.new_label();
        let snapshot = self.regs_snapshot();
        self.push_frame(
            ControlFrame {
                control_type: ControlFlowType::If,
                entry_regalloc_snapshot: snapshot,
                start_label,
                end_label,
            },
        );
        self.emit_single_label(start_label);
        self.emit_mov(Register::Reg(REG_TEMP), cond);
        self.push_inst(X86Inst::CompareImm { a: REG_TEMP, value: 0 });
        match else_label {
            Some(l) => {
                self.push_inst(X86Inst::Jcc { cond: Cond::Zero, target: l });
            },
            None => {
                self.push_inst(X86Inst::Jmp { target: end_label });
            },
        }
        assert(self@.code =~= if_state(old(self)@, cond, else_label, end_label).code);
    }

    /// Finds the end label of the branch target `rel_depth` blocks out.
    fn branch_target(&self, rel_depth: u32) -> (res: Result<Label, JitError>)
        ensures
            res == br_target(self@.frames, rel_depth),
    {
        let n = self.frames_len();
        if rel_depth as usize >= n {
            return Err(JitError::InvalidBranchDepth);
        }
        let f = self.frame(n - 1 - rel_depth as usize);
        match f.control_type {
            ControlFlowType::Block => Ok(f.end_label),
            _ => Err(JitError::UnsupportedBranchTarget),
        }
    }

    /// Branches to the block `rel_depth` blocks out: a jump to its end.
    pub fn emit_br(&mut self, rel_depth: u32) -> (res: Result<(), JitError>)
        ensures
            match br_target(old(self)@.frames, rel_depth) {
                Ok(l) => res is Ok && final(self)@ == appended(old(self)@, seq![X86Inst::Jmp { target: l }]),
                Err(e) => res == Err::<(), JitError>(e) && final(self)@ == old(self)@,
            },
    {
        let target = self.branch_target(rel_depth)?;
        self.emit_jmp(target);
        Ok(())
    }

    /// Branches to the block `rel_depth` blocks out when `cond` holds a
    /// value other than zero.
    pub fn emit_br_if(&mut self, cond: Register, rel_depth: u32) -> (res: Result<(), JitError>)
        requires
            old(self)@.next_label < u32::MAX,
        ensures
            match br_target(old(self)@.frames, rel_depth) {
                Ok(l) => res is Ok && final(self)@ == (CompilerView {
                    code: old(self)@.code + br_if_code(cond, Label(old(self)@.next_label as u32), l),
                    next_label: old(self)@.next_label + 1,
                    ..old(self)@
                }),
                Err(e) => res == Err::<(), JitError>(e) && final(self)@ == old(self)@,
            },
    {
        let target = self.branch_target(rel_depth)?;
        let skip_br = self.new_label();
        self.emit_mov(Register::Reg(REG_TEMP), cond);
        self.push_inst(X86Inst::CompareImm { a: REG_TEMP, value: 0 });
        self.push_inst(X86Inst::Jcc { cond: Cond::Zero, target: skip_br });
        self.emit_br(rel_depth)?;
        self.emit_single_label(skip_br);
        assert(self@.code =~= old(self)@.code + br_if_code(cond, skip_br, target));
        Ok(())
    }
}


/// Once the jump table fails at some target, it fails for every longer prefix.
proof fn lemma_jumps_err_stays(frames: Seq<FrameView>, labels: Seq<Label>, targets: Seq<u32>, m: nat, n: nat)
    requires
        m <= n,
        br_table_jumps(frames, labels, targets, m) is Err,
    ensures
        br_table_jumps(frames, labels, targets, n) == br_table_jumps(frames, labels, targets, m),
    decreases n - m,
{
    if m < n {
        lemma_jumps_err_stays(frames, labels, targets, m, (n - 1) as nat);
    }
}

/// The moves that bring the register stack `now` in line with `branch`:
/// the top `i` entries, compared from the top down, each that differs moved
/// from its place in `now` to its place in `branch`.
pub open spec fn reconcile_moves(branch: Seq<RegWithType>, now: Seq<RegWithType>, i: nat) -> Seq<X86Inst>
    decreases i,
{
    if i == 0 {
        Seq::empty()
    } else {
        let bp = branch[branch.len() - i];
        let nw = now[now.len() - i];
        reconcile_moves(branch, now, (i - 1) as nat) + if bp != nw {
            spec_mov(nw.reg, bp.reg)
        } else {
            Seq::empty()
        }
    }
}

/// The reconciliation code of the branches `infos` that target `end`, in
/// order, with the register stack `now`; a branch with a deeper stack than
/// `now` cannot be reconciled.
pub open spec fn reconcile_code(infos: Seq<ReconcileView>, end: Label, now: Seq<RegWithType>) -> Result<Seq<X86Inst>, JitError>
    decreases infos.len(),
{
    if infos.len() == 0 {
        Ok(Seq::empty())
    } else {
        match reconcile_code(infos.drop_last(), end, now) {
            Err(e) => Err(e),
            Ok(c) => {
                let info = infos.last();
                let b = info.snapshot.regs;
                if info.target_end_label != end {
                    Ok(c)
                } else if b.len() > now.len() {
                    Err(JitError::StackUnderflow)
                } else {
                    Ok(c + seq![X86Inst::Bind { label: info.reconcile_start_label }] + reconcile_moves(b, now, b.len())
                        + seq![X86Inst::Jmp { target: end }])
                }
            },
        }
    }
}

/// Once reconciliation fails at some branch, it fails with every later one.
proof fn lemma_reconcile_err_stays(infos: Seq<ReconcileView>, end: Label, now: Seq<RegWithType>, m: int)
    requires
        0 <= m <= infos.len(),
        reconcile_code(infos.take(m), end, now) is Err,
    ensures
        reconcile_code(infos, end, now) == reconcile_code(infos.take(m), end, now),
    decreases infos.len() - m,
{
    if m == infos.len() {
        assert(infos.take(m) =~= infos);
    } else {
        assert(infos.take(m + 1).drop_last() =~= infos.take(m));
        lemma_reconcile_err_stays(infos, end, now, m + 1);
    }
}

impl X86JitCompiler {
    /// A branch table on the index in `index`: the `which_table`-th of
    /// function `which_func`, whose target labels were handed out up front.
    pub fn emit_br_table(&mut self, index: Register, table: &BrTable, which_func: u32, which_table: usize) -> (res: Result<(), JitError>)
        requires
            old(self)@.next_label < u32::MAX,
        ensures
            match br_table_code(old(self)@, index, table.targets@, table.default_target, which_func, which_table) {
                Ok(c) => res is Ok && final(self)@ == (CompilerView {
                    code: old(self)@.code + c,
                    next_label: old(self)@.next_label + 1,
                    ..old(self)@
                }),
                Err(e) => res == Err::<(), JitError>(e),
            },
    {
        let ghost s0 = self@;
        let target_labels = match self.brtable_target_labels(which_func, which_table) {
            Some(l) => copy_vec(l),
            None => return Err(JitError::MissingLabel),
        };
        let n = table.targets.len();
        if target_labels.len() < n {
            return Err(JitError::MissingLabel);
        }
        let default_target_label = self.new_label();
        self.emit_mov(Register::Reg(REG_TEMP), index);
        self.push_inst(X86Inst::CompareImm { a: REG_TEMP, value: 0 });
        self.push_inst(X86Inst::Jcc { cond: Cond::Sign, target: default_target_label });
        self.push_inst(X86Inst::CompareImm { a: REG_TEMP, value: n as u64 });
        self.push_inst(X86Inst::Jcc { cond: Cond::AboveEqual, target: default_target_label });
        self.push_inst(X86Inst::MovBrTargets { dst: REG_TEMP2, func: which_func, table: which_table });
        self.push_inst(X86Inst::JmpIndexed { base: REG_TEMP2, index: REG_TEMP });
        let ghost head = self@.code;
        let ghost labels = target_labels@;
        let ghost targets = table.targets@;
        let mut k: usize = 0;
        while k < n
            invariant
                k <= n == targets.len() <= labels.len(),
                labels == target_labels@,
                targets == table.targets@,
                s0 == old(self)@,
                labels == s0.brtable_labels[which_func as int][which_table as int],
                which_func < s0.brtable_labels.len(),
                which_table < s0.brtable_labels[which_func as int].len(),
                br_table_jumps(s0.frames, labels, targets, k as nat) is Ok,
                self@ == (CompilerView {
                    code: head + br_table_jumps(s0.frames, labels, targets, k as nat)->Ok_0,
                    next_label: s0.next_label + 1,
                    ..s0
                }),
            decreases n - k,
        {
            let ghost before = self@;
            self.emit_single_label(target_labels[k]);
            let r = self.emit_br(table.targets[k]);
            if r.is_err() {
                proof {
                    assert(br_target(s0.frames, targets[k as int]) == Err::<Label, JitError>(r->Err_0));
                    assert(br_table_jumps(s0.frames, labels, targets, (k + 1) as nat) == Err::<Seq<X86Inst>, JitError>(r->Err_0));
                    lemma_jumps_err_stays(s0.frames, labels, targets, (k + 1) as nat, n as nat);
                    assert(targets.len() == n);
                    assert(br_table_jumps(s0.frames, labels, targets, targets.len()) == Err::<Seq<X86Inst>, JitError>(r->Err_0));
                    assert(br_table_code(s0, index, targets, table.default_target, which_func, which_table) == Err::<Seq<X86Inst>, JitError>(r->Err_0));
                }
                return r;
            }
            k += 1;
            assert(self@.code =~= head + br_table_jumps(s0.frames, labels, targets, k as nat)->Ok_0);
        }
        self.emit_single_label(default_target_label);
        let r = self.emit_br(table.default_target);
        if r.is_err() {
            return r;
        }
        assert(self@.code =~= s0.code + br_table_code(s0, index, targets, table.default_target, which_func, which_table)->Ok_0);
        Ok(())
    }

    /// An indirect call through table `table_index` on the slot in
    /// `callee_index_in_table`: the slot is checked against the table's size
    /// and the function's signature against `type_index`, trapping on a
    /// mismatch, and the function the slot holds is called.
    pub fn emit_call_indirect(&mut self, callee_index_in_table: Register, type_index: u32, table_index: u32) -> (res: Result<(), JitError>)
        ensures
            match call_indirect_state(old(self)@, callee_index_in_table, type_index, table_index) {
                Ok(s) => res is Ok && final(self)@ == s,
                Err(e) => res == Err::<(), JitError>(e) && final(self)@ == old(self)@,
            },
    {
        let nr_args = match self.module().get_sig(type_index) {
            Some(sig) => sig.params.len(),
            None => return Err(JitError::TypeNotFound),
        };
        let table_size = match self.table_len_of(table_index) {
            Some(n) => n,
            None => return Err(JitError::TableNotFound),
        };
        if nr_args > self.regs_len() {
            return Err(JitError::StackUnderflow);
        }
        if nr_args as u128 * 8 > u64::MAX as u128 {
            return Err(JitError::TooManyArguments);
        }
        if !self.has_spill_room() {
            return Err(JitError::OutOfStackSpace);
        }
        let ghost s0 = self@;
        let trap_label = self.trap_label();
        self.emit_mov(Register::Reg(REG_TEMP2), callee_index_in_table);
        self.push_inst(X86Inst::CompareImm { a: REG_TEMP2, value: table_size as u64 });
        self.push_inst(X86Inst::Jcc { cond: Cond::GreaterEqual, target: trap_label });
        self.push_inst(X86Inst::CompareImm { a: REG_TEMP2, value: 0 });
        self.push_inst(X86Inst::Jcc { cond: Cond::Sign, target: trap_label });
        self.push_inst(X86Inst::MovSigTable { dst: REG_TEMP });
        self.push_inst(X86Inst::LoadIndexed32 { dst: REG_TEMP, base: REG_TEMP, index: REG_TEMP2 });
        self.push_inst(X86Inst::CompareImm { a: REG_TEMP, value: type_index as u64 });
        self.push_inst(X86Inst::Jcc { cond: Cond::NotEqual, target: trap_label });
        self.push_inst(X86Inst::MovElemTable { dst: REG_TEMP, table: table_index });
        self.push_inst(X86Inst::LoadIndexed32 { dst: REG_TEMP, base: REG_TEMP, index: REG_TEMP2 });
        let ghost mid = appended(
            s0,
            spec_mov(Register::Reg(REG_TEMP2), callee_index_in_table) + call_indirect_checks(
                trap_label,
                table_size,
                type_index,
                table_index,
            ),
        );
        assert(self@.code =~= mid.code);
        assert(self@ == mid);
        self.emit_call(REG_TEMP, nr_args);
        Ok(())
    }

    /// Emits, for each branch waiting to reach `end_label`, the code that
    /// brings its register stack in line with the current one, then jumps
    /// to `end_label`.
    pub fn emit_reg_reconciliation(&mut self, end_label: Label) -> (res: Result<(), JitError>)
        ensures
            match reconcile_code(old(self)@.reconcile, end_label, old(self)@.regs.regs) {
                Ok(c) => res is Ok && final(self)@ == appended(old(self)@, c),
                Err(e) => res == Err::<(), JitError>(e),
            },
    {
        let ghost s0 = self@;
        let ghost infos = s0.reconcile;
        let now = self.regs_snapshot();
        let now_vec = now.get_vec();
        let n = self.reconcile_infos().len();
        let mut k: usize = 0;
        assert(infos.take(0) =~= Seq::<ReconcileView>::empty());
        while k < n
            invariant
                k <= n == infos.len(),
                now_vec@ == s0.regs.regs,
                infos == s0.reconcile,
                s0 == old(self)@,
                self@.reconcile == infos,
                self@.regs == s0.regs,
                reconcile_code(infos.take(k as int), end_label, s0.regs.regs) is Ok,
                self@ == appended(s0, reconcile_code(infos.take(k as int), end_label, s0.regs.regs)->Ok_0),
            decreases n - k,
        {
            let ghost before = self@.code;
            assert(infos.take(k + 1).drop_last() =~= infos.take(k as int));
            let info = &self.reconcile_infos()[k];
            assert(infos[k as int] == info@);
            let target = info.target_end_label;
            let start = info.reconcile_start_label;
            let branch_alloc = info.regalloc_snapshot.clone();
            let branch = branch_alloc.get_vec();
            if target == end_label {
                let blen = branch.len();
                let nlen = now_vec.len();
                if blen > nlen {
                    proof {
                        assert(infos.take(k + 1).last() == infos[k as int]);
                        assert(reconcile_code(infos.take(k + 1), end_label, s0.regs.regs) == Err::<Seq<X86Inst>, JitError>(JitError::StackUnderflow));
                        lemma_reconcile_err_stays(infos, end_label, s0.regs.regs, k + 1);
                        assert(reconcile_code(infos, end_label, s0.regs.regs) == Err::<Seq<X86Inst>, JitError>(JitError::StackUnderflow));
                    }
                    return Err(JitError::StackUnderflow);
                }
                self.emit_single_label(start);
                let ghost after_bind = self@.code;
                let mut i: usize = 0;
                while i < blen
                    invariant
                        i <= blen <= nlen,
                        blen == branch@.len(),
                        nlen == now_vec@.len(),
                        self@ == appended(s0, after_bind.subrange(s0.code.len() as int, after_bind.len() as int)
                            + reconcile_moves(branch@, now_vec@, i as nat)),
                        after_bind.len() >= s0.code.len(),
                        after_bind.subrange(0, s0.code.len() as int) == s0.code,
                    decreases blen - i,
                {
                    let bp = branch[blen - 1 - i];
                    let nw = now_vec[nlen - 1 - i];
                    if bp != nw {
                        self.emit_mov(nw.reg, bp.reg);
                    }
                    i += 1;
                    assert(self@.code =~= s0.code + after_bind.subrange(s0.code.len() as int, after_bind.len() as int)
                        + reconcile_moves(branch@, now_vec@, i as nat));
                }
                self.emit_jmp(end_label);
            }
            k += 1;
            assert(self@.code =~= s0.code + reconcile_code(infos.take(k as int), end_label, s0.regs.regs)->Ok_0);
        }
        assert(infos.take(n as int) =~= infos);
        Ok(())
    }
}

} // verus!
