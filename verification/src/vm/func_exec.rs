//! The stack interpreter: a machine that executes the instructions of a
//! function one step at a time.
//!
//! Floating-point arithmetic is not done here: a step that reaches an `f64`
//! unary or binary operator pops its operands and returns them in the step's
//! outcome; the caller computes the result and hands it back with
//! `resume_f64`. Calls are executed on an explicit stack of frames.
use vstd::prelude::*;

use super::control::{closest_else, find_closest_else, find_matching_end, matching_end};
use super::interpreter::LinearMemory;
use crate::module::components::{
    ElementItems, ElementKind, FuncDecl, FuncDeclView, GlobalDecl, GlobalDeclView,
};
use crate::module::insts::{F64Binop, F64Unop, I32Binop, I32Unop, InstView, Instruction, MemArg, BlockType};
use crate::module::reader::{
    encode_f64, encode_i32leb, le_bytes, le_bytes_of, le_value, lemma_le_value_push,
    lemma_pow256_step, lemma_pow256_mono, lemma_read_len_bound, pow256, read_f64_bits_at, read_var_i32_at, read_var_u32_at, sleb_encode,
    spec_read_u64_le, spec_read_var_i32, spec_read_var_u32,
};
use crate::module::value_type::{spec_default_value, ValType, WasmValue};
use crate::module::wasm_module::{ModuleView, WasmModule};
use crate::module::wasmops::{WASM_OP_END, WASM_OP_F64_CONST, WASM_OP_I32_CONST};
use crate::WASM_DEFAULT_PAGE_SIZE_BYTE;

verus! {

/// Why execution stopped.
#[derive(Debug, Clone, Copy, PartialEq, Eq, Structural)]
pub enum ExecError {
    /// An `unreachable` instruction ran.
    Unreachable,
    /// An instruction popped an empty operand stack.
    StackUnderflow,
    /// A value had a type its consumer does not accept.
    TypeMismatch,
    /// A block has no matching `end`.
    NoMatchingEnd,
    FunctionNotFound,
    SignatureNotFound,
    SignatureMismatch,
    GlobalNotFound,
    LocalNotFound,
    /// A global's initializer does not start with the constant of its type.
    InvalidInitExpr,
    /// A global's initializer is not valid binary.
    MalformedInitExpr,
    ElementSegmentNotFound,
    ElementIndexOutOfBounds,
    /// A memory address, an index or a size that does not fit its type.
    Overflow,
    OutOfBoundsMemoryAccess,
    InvalidMemoryIndex,
    /// An instruction or a type the interpreter does not implement.
    Unsupported,
    /// The machine already returned from its outermost function.
    Finished,
    /// The machine waits for the result of a floating-point operation.
    AwaitingFloatResult,
    /// `resume_f64` without a pending floating-point operation.
    NotAwaitingFloatResult,
}

/// What a block on the control stack is.
#[derive(Debug, Clone, Copy, PartialEq, Eq, Structural)]
pub enum BlockControlFlowType {
    Block,
    If { else_pc: Option<usize>, condition_met: bool },
    Loop,
}

/// Control flow frame for a code block started with Block, If or Loop.
#[derive(Debug, Clone, Copy, PartialEq, Eq, Structural)]
pub struct BlockControlFlowFrame {
    pub control_type: BlockControlFlowType,
    /// The height of the operand stack expected when the block ends.
    pub expected_stack_height: usize,
    /// Position of the instruction that opens the block.
    pub start_pc: usize,
    /// Position of the block's `end`.
    pub end_pc: usize,
}

/// What one step did.
#[derive(Debug, Clone, Copy, PartialEq, Eq, Structural)]
pub enum StepOutcome {
    /// The machine can take another step.
    Running,
    /// The outermost function returned this value.
    Finished(WasmValue),
    /// The caller must compute `op a` and pass its result to `resume_f64`.
    NeedF64Unop { op: F64Unop, a: u64 },
    /// The caller must compute `a op b` and pass its result to `resume_f64`.
    NeedF64Binop { op: F64Binop, a: u64, b: u64 },
    /// Execution failed.
    Trap(ExecError),
}

/// The activation of one function.
pub struct CallFrame {
    func: FuncDecl,
    pc: usize,
    /// The operand stack, top last.
    operand_stack: Vec<WasmValue>,
    locals: Vec<WasmValue>,
    control_flow_frames: Vec<BlockControlFlowFrame>,
    /// Whether the function's control frame has been set up.
    started: bool,
    /// Whether a `return` ran.
    returned: bool,
}

#[verifier::ext_equal]
pub struct FrameView {
    pub func: FuncDeclView,
    pub pc: nat,
    pub stack: Seq<WasmValue>,
    pub locals: Seq<WasmValue>,
    pub controls: Seq<BlockControlFlowFrame>,
    pub started: bool,
    pub returned: bool,
}

impl View for CallFrame {
    type V = FrameView;

    closed spec fn view(&self) -> FrameView {
        FrameView {
            func: self.func@,
            pc: self.pc as nat,
            stack: self.operand_stack@,
            locals: self.locals@,
            controls: self.control_flow_frames@,
            started: self.started,
            returned: self.returned,
        }
    }
}

/// The interpreter: the running function, its callers, the module and the memory.
pub struct WasmFunctionExecutorImpl {
    cur: CallFrame,
    callers: Vec<CallFrame>,
    module: WasmModule,
    mem: LinearMemory,
    pending: bool,
    finished: bool,
}

#[verifier::ext_equal]
pub struct ExecView {
    pub cur: FrameView,
    pub callers: Seq<FrameView>,
    pub module: ModuleView,
    pub mem: Seq<u8>,
    pub pending: bool,
    pub finished: bool,
}

impl View for WasmFunctionExecutorImpl {
    type V = ExecView;

    closed spec fn view(&self) -> ExecView {
        ExecView {
            cur: self.cur@,
            callers: self.callers@.map_values(|f: CallFrame| f@),
            module: self.module@,
            mem: self.mem.0@,
            pending: self.pending,
            finished: self.finished,
        }
    }
}

// ---------------------------------------------------------------------------
// Semantics

/// The locals declared by `(count, type)` pairs, each set to zero of its type;
/// `None` when a type is not supported.
pub open spec fn expand_locals(pl: Seq<(u32, ValType)>) -> Option<Seq<WasmValue>>
    decreases pl.len(),
{
    if pl.len() == 0 {
        Some(Seq::empty())
    } else {
        match expand_locals(pl.drop_last()) {
            Some(r) => match spec_default_value(pl.last().1) {
                Some(v) => Some(r + Seq::new(pl.last().0 as nat, |i: int| v)),
                None => None,
            },
            None => None,
        }
    }
}

/// A fresh activation of `func` whose locals start with `args`.
pub open spec fn spec_new_frame(func: FuncDeclView, args: Seq<WasmValue>) -> Option<FrameView> {
    match expand_locals(func.pure_locals) {
        Some(l) => Some(FrameView {
            func,
            pc: 0,
            stack: Seq::empty(),
            locals: args + l,
            controls: Seq::empty(),
            started: false,
            returned: false,
        }),
        None => None,
    }
}

pub open spec fn with_pc(f: FrameView, pc: nat) -> FrameView {
    FrameView { pc, ..f }
}

pub open spec fn with_stack(f: FrameView, stack: Seq<WasmValue>) -> FrameView {
    FrameView { stack, ..f }
}

/// Push `v` and move to the next instruction.
pub open spec fn push_next(f: FrameView, stack: Seq<WasmValue>, v: WasmValue) -> FrameView {
    FrameView { stack: stack.push(v), pc: f.pc + 1, ..f }
}

/// Whether the block on top of the control stack skips the instruction at `pc`.
pub open spec fn spec_should_skip(c: BlockControlFlowFrame, pc: nat) -> bool {
    match c.control_type {
        BlockControlFlowType::If { else_pc, condition_met } => match else_pc {
            Some(e) => if pc >= e {
                condition_met
            } else {
                !condition_met
            },
            None => !condition_met,
        },
        _ => false,
    }
}

/// How many values a block of type `ty` leaves on top of the operand stack.
/// A function type index is looked up among the module's functions.
pub open spec fn spec_stack_height_delta(m: ModuleView, ty: BlockType) -> Result<nat, ExecError> {
    match ty {
        BlockType::Empty => Ok(0),
        BlockType::Type(_) => Ok(1),
        BlockType::FuncType(f) => if f < m.funcs.len() {
            let sig = m.funcs[f as int].sig;
            if sig.results.len() >= sig.params.len() {
                Ok((sig.results.len() - sig.params.len()) as nat)
            } else {
                Err(ExecError::Overflow)
            }
        } else {
            Err(ExecError::FunctionNotFound)
        },
    }
}

/// Popping an `i32` off the stack.
pub open spec fn pop_i32(st: Seq<WasmValue>) -> Result<(i32, Seq<WasmValue>), ExecError> {
    if st.len() == 0 {
        Err(ExecError::StackUnderflow)
    } else {
        match st.last() {
            WasmValue::I32(v) => Ok((v, st.drop_last())),
            _ => Err(ExecError::TypeMismatch),
        }
    }
}

/// Popping an `f64` off the stack.
pub open spec fn pop_f64(st: Seq<WasmValue>) -> Result<(u64, Seq<WasmValue>), ExecError> {
    if st.len() == 0 {
        Err(ExecError::StackUnderflow)
    } else {
        match st.last() {
            WasmValue::F64(v) => Ok((v, st.drop_last())),
            _ => Err(ExecError::TypeMismatch),
        }
    }
}

/// A boolean as an `i32`.
pub open spec fn bool_i32(b: bool) -> i32 {
    if b {
        1
    } else {
        0
    }
}

/// Number of significant bits of `x`.
pub open spec fn bit_length(x: nat) -> nat
    decreases x,
{
    if x == 0 {
        0
    } else {
        1 + bit_length(x / 2)
    }
}

/// Number of one bits among the low `n` bits of `x`.
pub open spec fn popcount(x: nat, n: nat) -> nat
    decreases n,
{
    if n == 0 {
        0
    } else {
        x % 2 + popcount(x / 2, (n - 1) as nat)
    }
}

/// Number of zero bits below the lowest one bit of `x`, counting at most `n`.
pub open spec fn trailing_zeros(x: nat, n: nat) -> nat
    decreases n,
{
    if n == 0 || x % 2 == 1 {
        0
    } else {
        1 + trailing_zeros(x / 2, (n - 1) as nat)
    }
}

/// Result of an `i32` unary operator.
pub open spec fn spec_i32_unop(op: I32Unop, a: i32) -> Result<i32, ExecError> {
    match op {
        I32Unop::Eqz => Ok(bool_i32(a == 0)),
        I32Unop::Clz => Ok((32 - bit_length((a as u32) as nat)) as i32),
        I32Unop::Ctz => Ok(trailing_zeros((a as u32) as nat, 32) as i32),
        I32Unop::Popcnt => Ok(popcount((a as u32) as nat, 32) as i32),
        _ => Err(ExecError::Unsupported),
    }
}

/// Result of an `i32` binary operator.
pub open spec fn spec_i32_binop(op: I32Binop, a: i32, b: i32) -> Result<i32, ExecError> {
    match op {
        I32Binop::Eq => Ok(bool_i32(a == b)),
        I32Binop::Ne => Ok(bool_i32(a != b)),
        I32Binop::LtS => Ok(bool_i32(a < b)),
        I32Binop::LtU => Ok(bool_i32((a as u32) < (b as u32))),
        I32Binop::GtS => Ok(bool_i32(a > b)),
        I32Binop::GtU => Ok(bool_i32((a as u32) > (b as u32))),
        I32Binop::LeS => Ok(bool_i32(a <= b)),
        I32Binop::LeU => Ok(bool_i32((a as u32) <= (b as u32))),
        I32Binop::GeS => Ok(bool_i32(a >= b)),
        I32Binop::GeU => Ok(bool_i32((a as u32) >= (b as u32))),
        I32Binop::Add => Ok(a.wrapping_add(b)),
        I32Binop::Sub => Ok(a.wrapping_sub(b)),
        I32Binop::Mul => Ok(a.wrapping_mul(b)),
        I32Binop::And => Ok(a & b),
        I32Binop::Or => Ok(a | b),
        I32Binop::Xor => Ok(a ^ b),
        I32Binop::Shl => Ok(a.wrapping_shl((b & 0x1f) as u32)),
        _ => Err(ExecError::Unsupported),
    }
}

/// The effective address of an access of `width` bytes at `base + offset`,
/// checked against the memory size taken modulo 2^32.
pub open spec fn spec_effective_addr(base_val: i32, offset: u32, width: nat, mem_len: nat) -> Result<nat, ExecError> {
    if base_val < 0 {
        Err(ExecError::Overflow)
    } else if base_val + offset > u32::MAX || base_val + offset + width > u32::MAX {
        Err(ExecError::Overflow)
    } else if base_val + offset + width > mem_len % 0x1_0000_0000 {
        Err(ExecError::OutOfBoundsMemoryAccess)
    } else {
        Ok((base_val + offset) as nat)
    }
}

/// Reading `width` bytes at the address on top of the stack, as an `i32`.
pub open spec fn spec_load_i32(st: Seq<WasmValue>, memarg: MemArg, width: nat, mem: Seq<u8>) -> Result<(i32, Seq<WasmValue>), ExecError> {
    match pop_i32(st) {
        Ok((base, rest)) => match spec_effective_addr(base, memarg.offset, width, mem.len()) {
            Ok(ea) => Ok((
                (le_value(mem.subrange(ea as int, (ea + width) as int)) as u32) as i32,
                rest,
            )),
            Err(e) => Err(e),
        },
        Err(e) => Err(e),
    }
}

/// What an `i32` load of each kind leaves of the loaded value.
pub open spec fn spec_narrow_load(inst: Instruction, v: i32) -> i32 {
    match inst {
        Instruction::I32Load8S { .. } => ((v & 0xFF) as i8) as i32,
        Instruction::I32Load8U { .. } => v & 0xFF,
        Instruction::I32Load16S { .. } => ((v & 0xFFFF) as i16) as i32,
        Instruction::I32Load16U { .. } => v & 0xFFFF,
        _ => v,
    }
}

/// Width in bytes of an `i32` load or store.
pub open spec fn spec_i32_width(inst: Instruction) -> nat {
    match inst {
        Instruction::I32Load8S { .. } | Instruction::I32Load8U { .. } | Instruction::I32Store8 { .. } => 1,
        Instruction::I32Load16S { .. } | Instruction::I32Load16U { .. } | Instruction::I32Store16 { .. } => 2,
        _ => 4,
    }
}

/// Storing the low `width` bytes of the value on top of the stack at the
/// address below it; yields the new stack and memory.
pub open spec fn spec_store_i32(st: Seq<WasmValue>, memarg: MemArg, width: nat, mem: Seq<u8>) -> Result<(Seq<WasmValue>, Seq<u8>), ExecError> {
    match pop_i32(st) {
        Ok((v, st1)) => match pop_i32(st1) {
            Ok((base, rest)) => match spec_effective_addr(base, memarg.offset, width, mem.len()) {
                Ok(ea) => Ok((
                    rest,
                    mem.subrange(0, ea as int) + le_bytes((v as u32) as nat, width) + mem.subrange(
                        (ea + width) as int,
                        mem.len() as int,
                    ),
                )),
                Err(e) => Err(e),
            },
            Err(e) => Err(e),
        },
        Err(e) => Err(e),
    }
}

/// The value of a global as its initializer encodes it.
pub open spec fn spec_global_value(g: GlobalDeclView) -> Result<WasmValue, ExecError> {
    let e = g.init_expr;
    match g.ty.content_type {
        ValType::I32 => match spec_read_var_u32(e) {
            Some((op, n)) => if op != WASM_OP_I32_CONST {
                Err(ExecError::InvalidInitExpr)
            } else {
                match spec_read_var_i32(e.skip(n as int)) {
                    Some((v, _)) => Ok(WasmValue::I32(v)),
                    None => Err(ExecError::MalformedInitExpr),
                }
            },
            None => Err(ExecError::MalformedInitExpr),
        },
        ValType::F64 => match spec_read_var_u32(e) {
            Some((op, n)) => if op != WASM_OP_F64_CONST {
                Err(ExecError::InvalidInitExpr)
            } else {
                match spec_read_u64_le(e.skip(n as int)) {
                    Some((v, _)) => Ok(WasmValue::F64(v)),
                    None => Err(ExecError::MalformedInitExpr),
                }
            },
            None => Err(ExecError::MalformedInitExpr),
        },
        _ => Err(ExecError::Unsupported),
    }
}

/// The initializer `global.set` writes for a value: the constant instruction
/// of its type followed by `end`.
pub open spec fn spec_init_expr_of(v: WasmValue) -> Seq<u8> {
    match v {
        WasmValue::I32(x) => seq![WASM_OP_I32_CONST as u8] + sleb_encode(x as int) + seq![WASM_OP_END as u8],
        WasmValue::F64(x) => seq![WASM_OP_F64_CONST as u8] + le_bytes(x as nat, 8) + seq![WASM_OP_END as u8],
    }
}

/// Whether value `v` may be stored in a slot of type `t`.
pub open spec fn value_fits(v: WasmValue, t: ValType) -> Result<(), ExecError> {
    match t {
        ValType::I32 => if v is I32 {
            Ok(())
        } else {
            Err(ExecError::TypeMismatch)
        },
        ValType::F64 => if v is F64 {
            Ok(())
        } else {
            Err(ExecError::TypeMismatch)
        },
        _ => Err(ExecError::Unsupported),
    }
}

/// Popping the arguments of a call with parameter types `params`, the last
/// parameter first: the arguments in parameter order and the rest of the stack.
pub open spec fn spec_pop_args(st: Seq<WasmValue>, params: Seq<ValType>) -> Result<(Seq<WasmValue>, Seq<WasmValue>), ExecError>
    decreases params.len(),
{
    if params.len() == 0 {
        Ok((Seq::empty(), st))
    } else if st.len() == 0 {
        Err(ExecError::StackUnderflow)
    } else {
        match value_fits(st.last(), params.last()) {
            Ok(_) => match spec_pop_args(st.drop_last(), params.drop_last()) {
                Ok((args, rest)) => Ok((args.push(st.last()), rest)),
                Err(e) => Err(e),
            },
            Err(e) => Err(e),
        }
    }
}

/// Calling `func`: the arguments leave the caller's stack, the caller waits
/// at the instruction after the call and `func` starts in a fresh frame.
pub open spec fn spec_call(s: ExecView, func: FuncDeclView) -> Result<ExecView, ExecError> {
    match spec_pop_args(s.cur.stack, func.sig.params) {
        Ok((args, rest)) => match spec_new_frame(func, args) {
            Some(nf) => Ok(ExecView {
                cur: nf,
                callers: s.callers.push(FrameView { stack: rest, pc: s.cur.pc + 1, ..s.cur }),
                ..s
            }),
            None => Err(ExecError::Unsupported),
        },
        Err(e) => Err(e),
    }
}

/// The first element segment from `k` on that is active in table `table_index`.
pub open spec fn spec_find_elem(elems: Seq<crate::module::components::ElementView>, table_index: u32, k: int) -> Result<int, ExecError>
    decreases elems.len() - k,
{
    if k < 0 || k >= elems.len() {
        Err(ExecError::ElementSegmentNotFound)
    } else {
        match elems[k].kind {
            crate::module::components::ElementKindView::Active { table_index: t, .. } => if t == Some(table_index) {
                Ok(k)
            } else {
                spec_find_elem(elems, table_index, k + 1)
            },
            _ => Err(ExecError::Unsupported),
        }
    }
}

/// The function an indirect call through slot `i` of table `table_index` reaches.
pub open spec fn spec_indirect_callee(m: ModuleView, i: i32, type_index: u32, table_index: u32) -> Result<FuncDeclView, ExecError> {
    match spec_find_elem(m.elems, table_index, 0) {
        Ok(k) => match m.elems[k].funcs {
            Some(fs) => if 0 <= i < fs.len() {
                let callee_index = fs[i as int];
                if callee_index < m.funcs.len() {
                    if type_index < m.sigs.len() {
                        if m.sigs[type_index as int] == m.funcs[callee_index as int].sig {
                            Ok(m.funcs[callee_index as int])
                        } else {
                            Err(ExecError::SignatureMismatch)
                        }
                    } else {
                        Err(ExecError::SignatureNotFound)
                    }
                } else {
                    Err(ExecError::FunctionNotFound)
                }
            } else {
                Err(ExecError::ElementIndexOutOfBounds)
            },
            None => Err(ExecError::Unsupported),
        },
        Err(e) => Err(e),
    }
}

/// The machine after the current instruction leaves frame `f` and continues.
pub open spec fn continue_with(s: ExecView, f: FrameView) -> (ExecView, StepOutcome) {
    (ExecView { cur: f, ..s }, StepOutcome::Running)
}

/// The outcome of a step that failed before changing anything.
pub open spec fn trap(s: ExecView, e: ExecError) -> (ExecView, StepOutcome) {
    (s, StepOutcome::Trap(e))
}

/// The outcome of a step that failed after popping the current frame's
/// operand stack down to `st`.
pub open spec fn trap_at(s: ExecView, st: Seq<WasmValue>, e: ExecError) -> (ExecView, StepOutcome) {
    (ExecView { cur: with_stack(s.cur, st), ..s }, StepOutcome::Trap(e))
}

/// The stack after a pop that may have found it empty.
pub open spec fn after_pop(st: Seq<WasmValue>) -> Seq<WasmValue> {
    if st.len() == 0 {
        st
    } else {
        st.drop_last()
    }
}

/// The stack a failed load leaves: the address popped where there was one.
pub open spec fn popped_once(st: Seq<WasmValue>) -> Seq<WasmValue> {
    match pop_i32(st) {
        Ok((_, rest)) => rest,
        Err(_) => after_pop(st),
    }
}

/// The stack a failed store leaves: the value and the address popped as
/// far as they were there and of type `i32`.
pub open spec fn popped_twice(st: Seq<WasmValue>) -> Seq<WasmValue> {
    match pop_i32(st) {
        Ok((_, st1)) => popped_once(st1),
        Err(_) => after_pop(st),
    }
}

/// The stack left by popping the arguments of parameters `params`, the
/// last first, up to and including the first that does not fit; all of
/// them where each fits.
pub open spec fn spec_pop_args_left(st: Seq<WasmValue>, params: Seq<ValType>) -> Seq<WasmValue>
    decreases params.len(),
{
    if params.len() == 0 || st.len() == 0 {
        st
    } else {
        match value_fits(st.last(), params.last()) {
            Ok(_) => spec_pop_args_left(st.drop_last(), params.drop_last()),
            Err(_) => st.drop_last(),
        }
    }
}

/// Executing one instruction of the current frame.
pub open spec fn spec_exec_inst(s: ExecView, inst: InstView) -> (ExecView, StepOutcome) {
    let f = s.cur;
    let st = f.stack;
    let m = s.module;
    match inst {
        InstView::BrTable { .. } => trap(s, ExecError::Unsupported),
        InstView::Plain(i) => match i {
            Instruction::Return => continue_with(s, FrameView { returned: true, ..f }),
            Instruction::Unreachable => trap(s, ExecError::Unreachable),
            Instruction::Nop | Instruction::Else | Instruction::End => continue_with(s, with_pc(f, f.pc + 1)),
            Instruction::Block { ty } => match spec_stack_height_delta(m, ty) {
                Ok(d) => if st.len() + d > usize::MAX {
                    trap(s, ExecError::Overflow)
                } else {
                    match matching_end(f.func.insts, f.pc as int) {
                        Some(e) => continue_with(
                            s,
                            FrameView {
                                controls: f.controls.push(
                                    BlockControlFlowFrame {
                                        control_type: BlockControlFlowType::Block,
                                        expected_stack_height: (st.len() + d) as usize,
                                        start_pc: f.pc as usize,
                                        end_pc: e as usize,
                                    },
                                ),
                                pc: f.pc + 1,
                                ..f
                            },
                        ),
                        None => trap(s, ExecError::NoMatchingEnd),
                    }
                },
                Err(e) => trap(s, e),
            },
            Instruction::If { ty } => match spec_stack_height_delta(m, ty) {
                Ok(d) => if st.len() + d > usize::MAX {
                    trap(s, ExecError::Overflow)
                } else {
                    match pop_i32(st) {
                        Ok((c, rest)) => match matching_end(f.func.insts, f.pc as int) {
                            Some(e) => continue_with(
                                s,
                                FrameView {
                                    stack: rest,
                                    controls: f.controls.push(
                                        BlockControlFlowFrame {
                                            control_type: BlockControlFlowType::If {
                                                else_pc: match closest_else(f.func.insts, f.pc as int, e) {
                                                    Some(p) => Some(p as usize),
                                                    None => None,
                                                },
                                                condition_met: c != 0,
                                            },
                                            expected_stack_height: (st.len() + d) as usize,
                                            start_pc: f.pc as usize,
                                            end_pc: e as usize,
                                        },
                                    ),
                                    pc: f.pc + 1,
                                    ..f
                                },
                            ),
                            None => trap_at(s, rest, ExecError::NoMatchingEnd),
                        },
                        Err(e) => trap_at(s, after_pop(st), e),
                    }
                },
                Err(e) => trap(s, e),
            },
            Instruction::Call { func_idx } => if func_idx < m.funcs.len() {
                match spec_call(s, m.funcs[func_idx as int]) {
                    Ok(s2) => (s2, StepOutcome::Running),
                    Err(e) => trap_at(s, spec_pop_args_left(st, m.funcs[func_idx as int].sig.params), e),
                }
            } else {
                trap(s, ExecError::FunctionNotFound)
            },
            Instruction::CallIndirect { type_index, table_index } => match pop_i32(st) {
                Ok((x, rest)) => match spec_indirect_callee(m, x, type_index, table_index) {
                    Ok(callee) => match spec_call(ExecView { cur: with_stack(f, rest), ..s }, callee) {
                        Ok(s2) => (s2, StepOutcome::Running),
                        Err(e) => trap_at(s, spec_pop_args_left(rest, callee.sig.params), e),
                    },
                    Err(e) => trap_at(s, rest, e),
                },
                Err(e) => trap_at(s, after_pop(st), e),
            },
            Instruction::Drop => if st.len() == 0 {
                trap(s, ExecError::StackUnderflow)
            } else {
                continue_with(s, FrameView { stack: st.drop_last(), pc: f.pc + 1, ..f })
            },
            Instruction::Select => match pop_i32(st) {
                Ok((c, st1)) => if st1.len() < 2 {
                    trap_at(s, st1, ExecError::StackUnderflow)
                } else {
                    let b = st1.last();
                    let a = st1.drop_last().last();
                    continue_with(s, push_next(f, st1.drop_last().drop_last(), if c != 0 { a } else { b }))
                },
                Err(e) => trap_at(s, after_pop(st), e),
            },
            Instruction::LocalGet { local_idx } => if local_idx < f.locals.len() {
                continue_with(s, push_next(f, st, f.locals[local_idx as int]))
            } else {
                trap(s, ExecError::LocalNotFound)
            },
            Instruction::LocalSet { local_idx } => if st.len() == 0 {
                trap(s, ExecError::StackUnderflow)
            } else if local_idx < f.locals.len() {
                continue_with(
                    s,
                    FrameView {
                        stack: st.drop_last(),
                        locals: f.locals.update(local_idx as int, st.last()),
                        pc: f.pc + 1,
                        ..f
                    },
                )
            } else {
                trap_at(s, st.drop_last(), ExecError::LocalNotFound)
            },
            Instruction::LocalTee { local_idx } => if st.len() == 0 {
                trap(s, ExecError::StackUnderflow)
            } else if local_idx < f.locals.len() {
                continue_with(
                    s,
                    FrameView {
                        locals: f.locals.update(local_idx as int, st.last()),
                        pc: f.pc + 1,
                        ..f
                    },
                )
            } else {
                trap(s, ExecError::LocalNotFound)
            },
            Instruction::GlobalGet { global_idx } => if global_idx < m.globals.len() {
                match spec_global_value(m.globals[global_idx as int]) {
                    Ok(v) => continue_with(s, push_next(f, st, v)),
                    Err(e) => trap(s, e),
                }
            } else {
                trap(s, ExecError::GlobalNotFound)
            },
            Instruction::GlobalSet { global_idx } => if st.len() == 0 {
                trap(s, ExecError::StackUnderflow)
            } else if global_idx < m.globals.len() {
                let g = m.globals[global_idx as int];
                match value_fits(st.last(), g.ty.content_type) {
                    Ok(_) => (
                        ExecView {
                            cur: FrameView { stack: st.drop_last(), pc: f.pc + 1, ..f },
                            module: ModuleView {
                                globals: m.globals.update(
                                    global_idx as int,
                                    GlobalDeclView { ty: g.ty, init_expr: spec_init_expr_of(st.last()) },
                                ),
                                ..m
                            },
                            ..s
                        },
                        StepOutcome::Running,
                    ),
                    Err(e) => trap_at(s, st.drop_last(), e),
                }
            } else {
                trap_at(s, st.drop_last(), ExecError::GlobalNotFound)
            },
            Instruction::I32Load { memarg } | Instruction::I32Load8S { memarg } | Instruction::I32Load8U {
                memarg,
            } | Instruction::I32Load16S { memarg } | Instruction::I32Load16U { memarg } => match spec_load_i32(
                st,
                memarg,
                spec_i32_width(i),
                s.mem,
            ) {
                Ok((v, rest)) => continue_with(s, push_next(f, rest, WasmValue::I32(spec_narrow_load(i, v)))),
                Err(e) => trap_at(s, popped_once(st), e),
            },
            Instruction::F64Load { memarg } => match pop_i32(st) {
                Ok((base, rest)) => match spec_effective_addr(base, memarg.offset, 8, s.mem.len()) {
                    Ok(ea) => continue_with(
                        s,
                        push_next(f, rest, WasmValue::F64(le_value(s.mem.subrange(ea as int, (ea + 8) as int)) as u64)),
                    ),
                    Err(e) => trap_at(s, rest, e),
                },
                Err(e) => trap_at(s, after_pop(st), e),
            },
            Instruction::I32Store { memarg } | Instruction::I32Store8 { memarg } | Instruction::I32Store16 {
                memarg,
            } => match spec_store_i32(st, memarg, spec_i32_width(i), s.mem) {
                Ok((rest, mem2)) => (
                    ExecView { cur: FrameView { stack: rest, pc: f.pc + 1, ..f }, mem: mem2, ..s },
                    StepOutcome::Running,
                ),
                Err(e) => trap_at(s, popped_twice(st), e),
            },
            Instruction::MemorySize { mem } => if mem != 0 {
                trap(s, ExecError::InvalidMemoryIndex)
            } else if s.mem.len() > i32::MAX {
                trap(s, ExecError::Overflow)
            } else {
                continue_with(
                    s,
                    FrameView { stack: seq![WasmValue::I32(s.mem.len() as i32)] + st, pc: f.pc + 1, ..f },
                )
            },
            Instruction::MemoryGrow { mem } => if mem != 0 {
                trap(s, ExecError::InvalidMemoryIndex)
            } else {
                match pop_i32(st) {
                    Ok((p, rest)) => {
                        let new_len = s.mem.len() + p * WASM_DEFAULT_PAGE_SIZE_BYTE;
                        if p < 0 || new_len > usize::MAX || new_len > i32::MAX {
                            trap_at(s, rest, ExecError::Overflow)
                        } else {
                            (
                                ExecView {
                                    cur: FrameView {
                                        stack: seq![WasmValue::I32(new_len as i32)] + rest,
                                        pc: f.pc + 1,
                                        ..f
                                    },
                                    mem: s.mem + Seq::new((p * WASM_DEFAULT_PAGE_SIZE_BYTE) as nat, |k: int| 0u8),
                                    ..s
                                },
                                StepOutcome::Running,
                            )
                        }
                    },
                    Err(e) => trap_at(s, after_pop(st), e),
                }
            },
            Instruction::I32Const { value } => continue_with(s, push_next(f, st, WasmValue::I32(value))),
            Instruction::F64Const { value } => continue_with(s, push_next(f, st, WasmValue::F64(value))),
            Instruction::I32Unop(op) => match pop_i32(st) {
                Ok((a, rest)) => match spec_i32_unop(op, a) {
                    Ok(r) => continue_with(s, push_next(f, rest, WasmValue::I32(r))),
                    Err(e) => trap_at(s, rest, e),
                },
                Err(e) => trap_at(s, after_pop(st), e),
            },
            Instruction::I32Binop(op) => match pop_i32(st) {
                Ok((b, st1)) => match pop_i32(st1) {
                    Ok((a, rest)) => match spec_i32_binop(op, a, b) {
                        Ok(r) => continue_with(s, push_next(f, rest, WasmValue::I32(r))),
                        Err(e) => trap_at(s, rest, e),
                    },
                    Err(e) => trap_at(s, after_pop(st1), e),
                },
                Err(e) => trap_at(s, after_pop(st), e),
            },
            Instruction::F64Unop(op) => match pop_f64(st) {
                Ok((a, rest)) => if op == F64Unop::I32TruncF64S || op == F64Unop::I32TruncF64U {
                    trap_at(s, rest, ExecError::Unsupported)
                } else {
                    (
                        ExecView { cur: FrameView { stack: rest, pc: f.pc + 1, ..f }, pending: true, ..s },
                        StepOutcome::NeedF64Unop { op, a },
                    )
                },
                Err(e) => trap_at(s, after_pop(st), e),
            },
            Instruction::F64Binop(op) => match pop_f64(st) {
                Ok((b, st1)) => match pop_f64(st1) {
                    Ok((a, rest)) => (
                        ExecView { cur: FrameView { stack: rest, pc: f.pc + 1, ..f }, pending: true, ..s },
                        StepOutcome::NeedF64Binop { op, a, b },
                    ),
                    Err(e) => trap_at(s, after_pop(st1), e),
                },
                Err(e) => trap_at(s, after_pop(st), e),
            },
            _ => trap(s, ExecError::Unsupported),
        },
    }
}

/// Leaving the current function with the value on top of its stack.
pub open spec fn spec_finish_frame(s: ExecView) -> (ExecView, StepOutcome) {
    let f = s.cur;
    if f.stack.len() == 0 {
        trap(s, ExecError::StackUnderflow)
    } else if s.callers.len() == 0 {
        (
            ExecView { cur: with_stack(f, f.stack.drop_last()), finished: true, ..s },
            StepOutcome::Finished(f.stack.last()),
        )
    } else {
        let c = s.callers.last();
        (
            ExecView {
                cur: FrameView { stack: c.stack.push(f.stack.last()), ..c },
                callers: s.callers.drop_last(),
                ..s
            },
            StepOutcome::Running,
        )
    }
}

/// One step of the machine.
pub open spec fn spec_step(s: ExecView) -> (ExecView, StepOutcome) {
    let f = s.cur;
    if s.finished {
        trap(s, ExecError::Finished)
    } else if s.pending {
        trap(s, ExecError::AwaitingFloatResult)
    } else if !f.started {
        match matching_end(f.func.insts, 0) {
            Some(e) => continue_with(
                s,
                FrameView {
                    controls: f.controls.push(
                        BlockControlFlowFrame {
                            control_type: BlockControlFlowType::Block,
                            expected_stack_height: 0,
                            start_pc: 0,
                            end_pc: e as usize,
                        },
                    ),
                    started: true,
                    ..f
                },
            ),
            None => trap(s, ExecError::NoMatchingEnd),
        }
    } else if f.returned || f.pc >= f.func.insts.len() {
        spec_finish_frame(s)
    } else if f.controls.len() == 0 {
        trap(s, ExecError::Unsupported)
    } else if spec_should_skip(f.controls.last(), f.pc) {
        continue_with(s, with_pc(f, f.pc + 1))
    } else {
        spec_exec_inst(s, f.func.insts[f.pc as int])
    }
}

/// The result of an executable step agrees with `spec`: the same outcome;
/// unless the step trapped, the same next state; after a trap, the same
/// module, memory, callers and operand stack of the current frame.
pub open spec fn agrees(new: ExecView, res: StepOutcome, spec: (ExecView, StepOutcome)) -> bool {
    &&& res == spec.1
    &&& !(res is Trap) ==> new == spec.0
    &&& res is Trap ==> new.module == spec.0.module && new.mem == spec.0.mem && new.callers == spec.0.callers
        && new.cur.stack == spec.0.cur.stack
}

// ---------------------------------------------------------------------------
// Execution

/// Zero of a supported local type.
fn default_of(t: ValType) -> (res: Result<WasmValue, ExecError>)
    ensures
        match res {
            Ok(v) => spec_default_value(t) == Some(v),
            Err(e) => spec_default_value(t) is None && e == ExecError::Unsupported,
        },
{
    match t {
        ValType::I32 | ValType::F64 => Ok(WasmValue::default_value(&t)),
        _ => Err(ExecError::Unsupported),
    }
}

/// Checks that `v` may be stored in a slot of type `t`.
fn check_fits(v: &WasmValue, t: ValType) -> (res: Result<(), ExecError>)
    ensures
        res == value_fits(*v, t),
{
    match t {
        ValType::I32 => if matches!(v, WasmValue::I32(_)) {
            Ok(())
        } else {
            Err(ExecError::TypeMismatch)
        },
        ValType::F64 => if matches!(v, WasmValue::F64(_)) {
            Ok(())
        } else {
            Err(ExecError::TypeMismatch)
        },
        _ => Err(ExecError::Unsupported),
    }
}

impl CallFrame {
    /// A fresh activation of `func`: its locals are `main_locals` followed by
    /// its declared locals, each zero of its type.
    fn new_frame(func: FuncDecl, main_locals: Vec<WasmValue>) -> (res: Result<CallFrame, ExecError>)
        ensures
            match res {
                Ok(f) => spec_new_frame(func@, main_locals@) == Some(f@),
                Err(e) => spec_new_frame(func@, main_locals@) is None && e == ExecError::Unsupported,
            },
    {
        let locals = Self::setup_locals(main_locals, &func)?;
        Ok(CallFrame {
            func,
            pc: 0,
            operand_stack: Vec::new(),
            locals,
            control_flow_frames: Vec::new(),
            started: false,
            returned: false,
        })
    }

    fn setup_locals(main_locals: Vec<WasmValue>, func: &FuncDecl) -> (res: Result<Vec<WasmValue>, ExecError>)
        ensures
            match res {
                Ok(l) => expand_locals(func@.pure_locals) matches Some(x) && l@ == main_locals@ + x,
                Err(e) => expand_locals(func@.pure_locals) is None && e == ExecError::Unsupported,
            },
    {
        let mut locals = main_locals;
        let pl = func.get_pure_locals();
        let ghost start = locals@;
        let mut i: usize = 0;
        assert(pl@.subrange(0, 0) == Seq::<(u32, ValType)>::empty());
        while i < pl.len()
            invariant
                i <= pl@.len(),
                pl@ == func@.pure_locals,
                expand_locals(pl@.subrange(0, i as int)) matches Some(x) && locals@ == start + x,
            decreases pl.len() - i,
        {
            let (cnt, ty) = pl[i];
            assert(pl@.subrange(0, i + 1).drop_last() == pl@.subrange(0, i as int));
            let v = match default_of(ty) {
                Ok(v) => v,
                Err(e) => {
                    proof {
                        lemma_expand_prefix_none(pl@, i as int + 1);
                    }
                    return Err(e);
                },
            };
            let ghost before = locals@;
            let mut j: u32 = 0;
            while j < cnt
                invariant
                    j <= cnt,
                    locals@ == before + Seq::new(j as nat, |k: int| v),
                decreases cnt - j,
            {
                locals.push(v);
                j += 1;
                assert(locals@ == before + Seq::new(j as nat, |k: int| v));
            }
            i += 1;
            proof {
                let x = expand_locals(pl@.subrange(0, i - 1)).unwrap();
                assert(before + Seq::new(cnt as nat, |k: int| v) == start + (x + Seq::new(cnt as nat, |k: int| v)));
            }
        }
        proof {
            if expand_locals(func@.pure_locals) is Some {
                assert(pl@.subrange(0, i as int) == pl@);
            }
        }
        assert(pl@.subrange(0, i as int) == pl@);
        Ok(locals)
    }

    fn pop(&mut self) -> (res: Option<WasmValue>)
        ensures
            old(self)@.stack.len() == 0 ==> res is None && final(self)@ == old(self)@,
            old(self)@.stack.len() > 0 ==> res == Some(old(self)@.stack.last()) && final(self)@ == with_stack(
                old(self)@,
                old(self)@.stack.drop_last(),
            ),
    {
        self.operand_stack.pop()
    }

    fn pop_i32(&mut self) -> (res: Result<i32, ExecError>)
        ensures
            match pop_i32(old(self)@.stack) {
                Ok((v, rest)) => res == Ok::<i32, ExecError>(v) && final(self)@ == with_stack(old(self)@, rest),
                Err(e) => res == Err::<i32, ExecError>(e) && final(self)@ == with_stack(
                    old(self)@,
                    after_pop(old(self)@.stack),
                ),
            },
    {
        match self.operand_stack.pop() {
            Some(WasmValue::I32(v)) => Ok(v),
            Some(_) => Err(ExecError::TypeMismatch),
            None => Err(ExecError::StackUnderflow),
        }
    }

    fn pop_f64(&mut self) -> (res: Result<u64, ExecError>)
        ensures
            match pop_f64(old(self)@.stack) {
                Ok((v, rest)) => res == Ok::<u64, ExecError>(v) && final(self)@ == with_stack(old(self)@, rest),
                Err(e) => res == Err::<u64, ExecError>(e) && final(self)@ == with_stack(
                    old(self)@,
                    after_pop(old(self)@.stack),
                ),
            },
    {
        match self.operand_stack.pop() {
            Some(WasmValue::F64(v)) => Ok(v),
            Some(_) => Err(ExecError::TypeMismatch),
            None => Err(ExecError::StackUnderflow),
        }
    }
}

/// 2 to the power `k`.
pub open spec fn pow2_n(k: nat) -> nat
    decreases k,
{
    if k == 0 {
        1
    } else {
        2 * pow2_n((k - 1) as nat)
    }
}

/// A number below 2^k has at most k significant bits.
proof fn lemma_bit_length_bound(x: nat, k: nat)
    requires
        x < pow2_n(k),
    ensures
        bit_length(x) <= k,
    decreases k,
{
    if x > 0 {
        if k == 0 {
            assert(pow2_n(0) == 1);
        } else {
            lemma_bit_length_bound(x / 2, (k - 1) as nat);
        }
    }
}

/// Once the locals of a prefix cannot be expanded, neither can the whole list.
proof fn lemma_expand_prefix_none(pl: Seq<(u32, ValType)>, k: int)
    requires
        0 <= k <= pl.len(),
        expand_locals(pl.subrange(0, k)) is None,
    ensures
        expand_locals(pl) is None,
    decreases pl.len() - k,
{
    if k < pl.len() {
        assert(pl.subrange(0, k + 1).drop_last() == pl.subrange(0, k));
        lemma_expand_prefix_none(pl, k + 1);
    } else {
        assert(pl.subrange(0, k) == pl);
    }
}

/// Counts the leading zero bits of a 32-bit number.
fn count_leading_zeros(x: u32) -> (res: i32)
    ensures
        res == (32 - bit_length(x as nat)) as i32,
        bit_length(x as nat) <= 32,
{
    proof {
        assert(pow2_n(32) == 0x1_0000_0000) by {
            reveal_with_fuel(pow2_n, 33);
        }
        lemma_bit_length_bound(x as nat, 32);
    }
    let mut y: u32 = x;
    let mut n: i32 = 0;
    while y > 0
        invariant
            0 <= n,
            n + bit_length(y as nat) == bit_length(x as nat),
            bit_length(x as nat) <= 32,
        decreases y,
    {
        y = y / 2;
        n = n + 1;
    }
    32 - n
}

/// Counts the trailing zero bits of a 32-bit number (32 for zero).
fn count_trailing_zeros(x: u32) -> (res: i32)
    ensures
        res == trailing_zeros(x as nat, 32) as i32,
{
    let mut y: u32 = x;
    let mut n: u32 = 0;
    while n < 32 && y % 2 == 0
        invariant
            n <= 32,
            n + trailing_zeros(y as nat, (32 - n) as nat) == trailing_zeros(x as nat, 32),
        decreases 32 - n,
    {
        y = y / 2;
        n = n + 1;
    }
    proof {
        lemma_trailing_zeros_bound(x as nat, 32);
    }
    n as i32
}

proof fn lemma_trailing_zeros_bound(x: nat, n: nat)
    ensures
        trailing_zeros(x, n) <= n,
    decreases n,
{
    if n > 0 && x % 2 != 1 {
        lemma_trailing_zeros_bound(x / 2, (n - 1) as nat);
    }
}

proof fn lemma_popcount_bound(x: nat, n: nat)
    ensures
        popcount(x, n) <= n,
    decreases n,
{
    if n > 0 {
        lemma_popcount_bound(x / 2, (n - 1) as nat);
    }
}

/// Counts the one bits of a 32-bit number.
fn count_ones(x: u32) -> (res: i32)
    ensures
        res == popcount(x as nat, 32) as i32,
{
    let mut y: u32 = x;
    let mut c: u32 = 0;
    let mut i: u32 = 0;
    while i < 32
        invariant
            i <= 32,
            c <= i,
            c + popcount(y as nat, (32 - i) as nat) == popcount(x as nat, 32),
        decreases 32 - i,
    {
        c = c + y % 2;
        y = y / 2;
        i = i + 1;
    }
    proof {
        lemma_popcount_bound(x as nat, 32);
    }
    c as i32
}

/// Result of an `i32` unary operator.
fn i32_unop(op: I32Unop, a: i32) -> (res: Result<i32, ExecError>)
    ensures
        res == spec_i32_unop(op, a),
{
    match op {
        I32Unop::Eqz => Ok(if a == 0 { 1 } else { 0 }),
        I32Unop::Clz => Ok(count_leading_zeros(a as u32)),
        I32Unop::Ctz => Ok(count_trailing_zeros(a as u32)),
        I32Unop::Popcnt => Ok(count_ones(a as u32)),
        _ => Err(ExecError::Unsupported),
    }
}

/// Result of an `i32` binary operator.
fn i32_binop(op: I32Binop, a: i32, b: i32) -> (res: Result<i32, ExecError>)
    ensures
        res == spec_i32_binop(op, a, b),
{
    let r = match op {
        I32Binop::Eq => a == b,
        I32Binop::Ne => a != b,
        I32Binop::LtS => a < b,
        I32Binop::LtU => (a as u32) < (b as u32),
        I32Binop::GtS => a > b,
        I32Binop::GtU => (a as u32) > (b as u32),
        I32Binop::LeS => a <= b,
        I32Binop::LeU => (a as u32) <= (b as u32),
        I32Binop::GeS => a >= b,
        I32Binop::GeU => (a as u32) >= (b as u32),
        I32Binop::Add => return Ok(a.wrapping_add(b)),
        I32Binop::Sub => return Ok(a.wrapping_sub(b)),
        I32Binop::Mul => return Ok(a.wrapping_mul(b)),
        I32Binop::And => return Ok(a & b),
        I32Binop::Or => return Ok(a | b),
        I32Binop::Xor => return Ok(a ^ b),
        I32Binop::Shl => return Ok(a.wrapping_shl((b & 0x1f) as u32)),
        _ => return Err(ExecError::Unsupported),
    };
    Ok(if r { 1 } else { 0 })
}

/// The address of an access, checked as the interpreter checks it.
fn effective_addr(base_val: i32, offset: u32, width: u32, mem_len: usize) -> (res: Result<usize, ExecError>)
    requires
        width <= 8,
    ensures
        match spec_effective_addr(base_val, offset, width as nat, mem_len as nat) {
            Ok(ea) => res == Ok::<usize, ExecError>(ea as usize) && ea + width <= mem_len,
            Err(e) => res == Err::<usize, ExecError>(e),
        },
{
    if base_val < 0 {
        return Err(ExecError::Overflow);
    }
    let ea: u64 = base_val as u64 + offset as u64;
    if ea > 0xFFFF_FFFF || ea + width as u64 > 0xFFFF_FFFF {
        return Err(ExecError::Overflow);
    }
    let mem_size_u32: u64 = (mem_len as u64) % 0x1_0000_0000;
    if ea + width as u64 > mem_size_u32 {
        return Err(ExecError::OutOfBoundsMemoryAccess);
    }
    Ok(ea as usize)
}

impl WasmFunctionExecutorImpl {
    /// A machine about to run `func` with `init_locals` as its first locals.
    pub fn new(
        func: FuncDecl,
        module: WasmModule,
        mem: LinearMemory,
        init_locals: Option<Vec<WasmValue>>,
    ) -> (res: Result<Self, ExecError>)
        ensures
            match res {
                Ok(e) => spec_new_frame(
                    func@,
                    match init_locals {
                        Some(v) => v@,
                        None => Seq::empty(),
                    },
                ) == Some(e@.cur) && e@.callers.len() == 0 && e@.module == module@ && e@.mem == mem.0@
                    && !e@.pending && !e@.finished,
                Err(x) => spec_new_frame(
                    func@,
                    match init_locals {
                        Some(v) => v@,
                        None => Seq::empty(),
                    },
                ) is None && x == ExecError::Unsupported,
            },
    {
        let main_locals = match init_locals {
            Some(v) => v,
            None => Vec::new(),
        };
        let cur = CallFrame::new_frame(func, main_locals)?;
        let callers: Vec<CallFrame> = Vec::new();
        let res = WasmFunctionExecutorImpl { cur, callers, module, mem, pending: false, finished: false };
        assert(res@.callers.len() == 0);
        Ok(res)
    }

    /// Whether the outermost function has returned.
    pub fn is_finished(&self) -> (res: bool)
        ensures
            res == self@.finished,
    {
        self.finished
    }

    /// Whether the machine waits for the result of a floating-point operation.
    pub fn is_waiting(&self) -> (res: bool)
        ensures
            res == self@.pending,
    {
        self.pending
    }

    /// The memory the machine works on.
    pub fn memory(&self) -> (res: &LinearMemory)
        ensures
            res.0@ == self@.mem,
    {
        &self.mem
    }

    /// The module the machine runs.
    pub fn module(&self) -> (res: &WasmModule)
        ensures
            res@ == self@.module,
    {
        &self.module
    }

    pub fn inc_pc(&mut self)
        requires
            old(self)@.cur.pc < usize::MAX,
        ensures
            final(self)@ == (ExecView { cur: with_pc(old(self)@.cur, old(self)@.cur.pc + 1), ..old(self)@ }),
    {
        self.cur.pc += 1;
    }

    pub fn set_pc(&mut self, pc: usize)
        ensures
            final(self)@ == (ExecView { cur: with_pc(old(self)@.cur, pc as nat), ..old(self)@ }),
    {
        self.cur.pc = pc;
    }

    pub fn push_operand_stack(&mut self, value: WasmValue)
        ensures
            final(self)@ == (ExecView {
                cur: with_stack(old(self)@.cur, old(self)@.cur.stack.push(value)),
                ..old(self)@
            }),
    {
        self.cur.operand_stack.push(value);
    }

    pub fn pop_operand_stack(&mut self) -> (res: WasmValue)
        requires
            old(self)@.cur.stack.len() > 0,
        ensures
            res == old(self)@.cur.stack.last(),
            final(self)@ == (ExecView {
                cur: with_stack(old(self)@.cur, old(self)@.cur.stack.drop_last()),
                ..old(self)@
            }),
    {
        self.cur.operand_stack.pop().unwrap()
    }

    pub fn mem_size(&self) -> (res: usize)
        ensures
            res == self@.mem.len(),
    {
        self.mem.size()
    }

    pub fn grow_mem(&mut self, additional_pages: u32)
        requires
            old(self)@.mem.len() + additional_pages * WASM_DEFAULT_PAGE_SIZE_BYTE <= usize::MAX,
        ensures
            final(self)@ == (ExecView {
                mem: old(self)@.mem + Seq::new(
                    (additional_pages * WASM_DEFAULT_PAGE_SIZE_BYTE) as nat,
                    |i: int| 0u8,
                ),
                ..old(self)@
            }),
    {
        self.mem.grow(additional_pages);
    }

    /// Starts a call of `func` from the current instruction: pops its arguments,
    /// suspends the current function at its next instruction and enters `func`.
    /// The callee's result reaches the caller's stack when the callee returns.
    pub fn call_func(&mut self, func: FuncDecl) -> (res: Result<(), ExecError>)
        requires
            old(self)@.cur.pc < usize::MAX,
        ensures
            match spec_call(old(self)@, func@) {
                Ok(s2) => res is Ok && final(self)@ == s2,
                Err(e) => res == Err::<(), ExecError>(e) && final(self)@ == (ExecView {
                    cur: with_stack(old(self)@.cur, spec_pop_args_left(old(self)@.cur.stack, func@.sig.params)),
                    ..old(self)@
                }),
            },
    {
        let ghost s0 = self@;
        let ghost params_spec = func@.sig.params;
        let params = crate::module::components::copy_vec(&func.get_sig().params);
        assert(params@ == params_spec);
        let mut args: Vec<WasmValue> = Vec::new();
        let mut k: usize = params.len();
        assert(params_spec.take(k as int) == params_spec);
        while k > 0
            invariant
                k <= params@.len(),
                params@ == params_spec,
                params_spec == func@.sig.params,
                s0 == old(self)@,
                self@ == (ExecView { cur: with_stack(s0.cur, self@.cur.stack), ..s0 }),
                spec_pop_args_left(s0.cur.stack, params_spec) == spec_pop_args_left(
                    self@.cur.stack,
                    params_spec.take(k as int),
                ),
                spec_pop_args(s0.cur.stack, params_spec) == match spec_pop_args(
                    self@.cur.stack,
                    params_spec.take(k as int),
                ) {
                    Ok((a, r)) => Ok((a + args@, r)),
                    Err(e) => Err::<(Seq<WasmValue>, Seq<WasmValue>), ExecError>(e),
                },
            decreases k,
        {
            let ghost st = self@.cur.stack;
            assert(params_spec.take(k as int).drop_last() == params_spec.take(k - 1));
            assert(params_spec.take(k as int).last() == params_spec[k - 1]);
            let v = match self.cur.pop() {
                Some(v) => v,
                None => {
                    assert(spec_pop_args(st, params_spec.take(k as int)) == Err::<
                        (Seq<WasmValue>, Seq<WasmValue>),
                        ExecError,
                    >(ExecError::StackUnderflow));
                    return Err(ExecError::StackUnderflow);
                },
            };
            match check_fits(&v, params[k - 1]) {
                Ok(_) => {},
                Err(e) => {
                    assert(spec_pop_args(st, params_spec.take(k as int)) == Err::<
                        (Seq<WasmValue>, Seq<WasmValue>),
                        ExecError,
                    >(e));
                    return Err(e);
                },
            }
            proof {
                assert forall|a: Seq<WasmValue>| a.push(v) + args@ == a + (seq![v] + args@) by {
                    assert(a.push(v) + args@ == a + (seq![v] + args@));
                }
            }
            let ghost args_before = args@;
            args.insert(0, v);
            assert(args@ == seq![v] + args_before) by {
                assert(args@ =~= seq![v] + args_before);
            }
            k -= 1;
        }
        assert(params_spec.take(0) == Seq::<ValType>::empty());
        assert(Seq::<WasmValue>::empty() + args@ == args@);
        let mut nf = CallFrame::new_frame(func, args)?;
        self.cur.pc += 1;
        std::mem::swap(&mut self.cur, &mut nf);
        self.callers.push(nf);
        assert(self@.callers == s0.callers.push(FrameView { stack: nf@.stack, pc: s0.cur.pc + 1, ..s0.cur }));
        Ok(())
    }
}


/// Reads `width` little-endian bytes of `mem` at `ea`.
fn read_le(mem: &Vec<u8>, ea: usize, width: usize) -> (res: u64)
    requires
        width <= 8,
        ea + width <= mem@.len(),
    ensures
        res == le_value(mem@.subrange(ea as int, ea + width)),
{
    let n = mem.len();
    let mut value: u128 = 0;
    let mut mult: u128 = 1;
    let mut i: usize = 0;
    proof {
        assert(pow256(0) == 1);
        assert(mem@.subrange(ea as int, ea as int) == Seq::<u8>::empty());
        assert(pow256(8) == 0x1_0000_0000_0000_0000) by {
            reveal_with_fuel(pow256, 9);
        }
    }
    while i < width
        invariant
            i <= width <= 8,
            ea + width <= n,
            n == mem@.len(),
            mult == pow256(i as nat),
            value == le_value(mem@.subrange(ea as int, ea + i)),
            value < mult,
            pow256(8) == 0x1_0000_0000_0000_0000,
        decreases width - i,
    {
        let b = mem[ea + i];
        proof {
            assert(mem@.subrange(ea as int, ea + i + 1) == mem@.subrange(ea as int, ea + i).push(b));
            lemma_le_value_push(mem@.subrange(ea as int, ea + i), b);
            lemma_pow256_step(i as nat);
            lemma_pow256_mono(i as nat + 1, 8);
            assert(value + b * mult < 256 * mult) by (nonlinear_arith)
                requires
                    value < mult,
                    b < 256,
            ;
            assert(pow256(i as nat) * b == b * mult) by (nonlinear_arith)
                requires
                    mult == pow256(i as nat),
            ;
        }
        value = value + (b as u128) * mult;
        mult = mult * 256;
        i += 1;
    }
    proof {
        lemma_pow256_mono(width as nat, 8);
    }
    value as u64
}

/// Overwrites the bytes of `mem` from `ea` on with `bytes`.
fn write_bytes(mem: &mut Vec<u8>, ea: usize, bytes: &Vec<u8>)
    requires
        ea + bytes@.len() <= old(mem)@.len(),
    ensures
        final(mem)@ == old(mem)@.subrange(0, ea as int) + bytes@ + old(mem)@.subrange(
            ea + bytes@.len(),
            old(mem)@.len() as int,
        ),
{
    let ghost m0 = mem@;
    let n = mem.len();
    let mut i: usize = 0;
    assert(mem@ == m0.subrange(0, ea as int) + bytes@.subrange(0, 0) + m0.subrange(ea as int, m0.len() as int));
    while i < bytes.len()
        invariant
            i <= bytes@.len(),
            ea + bytes@.len() <= m0.len(),
            n == m0.len(),
            mem@ == m0.subrange(0, ea as int) + bytes@.subrange(0, i as int) + m0.subrange(ea + i, m0.len() as int),
        decreases bytes.len() - i,
    {
        mem.set(ea + i, bytes[i]);
        i += 1;
        assert(mem@ =~= m0.subrange(0, ea as int) + bytes@.subrange(0, i as int) + m0.subrange(ea + i, m0.len() as int));
    }
    assert(bytes@.subrange(0, i as int) == bytes@);
}

impl WasmFunctionExecutorImpl {
    /// Leaves the current function with the value on top of its stack.
    fn finish_frame(&mut self) -> (res: StepOutcome)
        ensures
            agrees(final(self)@, res, spec_finish_frame(old(self)@)),
    {
        let v = match self.cur.operand_stack.pop() {
            Some(v) => v,
            None => return StepOutcome::Trap(ExecError::StackUnderflow),
        };
        let ghost callers0 = self.callers@;
        match self.callers.pop() {
            None => {
                self.finished = true;
                StepOutcome::Finished(v)
            },
            Some(mut c) => {
                assert(c@ == old(self)@.callers.last());
                assert(self.callers@.map_values(|f: CallFrame| f@) =~= old(self)@.callers.drop_last());
                c.operand_stack.push(v);
                self.cur = c;
                StepOutcome::Running
            },
        }
    }

    /// Hands the machine the result of the floating-point operation it waits for.
    pub fn resume_f64(&mut self, value: WasmValue) -> (res: Result<(), ExecError>)
        ensures
            old(self)@.pending ==> res is Ok && final(self)@ == (ExecView {
                cur: with_stack(old(self)@.cur, old(self)@.cur.stack.push(value)),
                pending: false,
                ..old(self)@
            }),
            !old(self)@.pending ==> res == Err::<(), ExecError>(ExecError::NotAwaitingFloatResult)
                && final(self)@ == old(self)@,
    {
        if !self.pending {
            return Err(ExecError::NotAwaitingFloatResult);
        }
        self.cur.operand_stack.push(value);
        self.pending = false;
        Ok(())
    }
}


/// Whether the block `c` on top of the control stack skips the instruction at `pc`.
fn should_skip(c: &BlockControlFlowFrame, pc: usize) -> (res: bool)
    ensures
        res == spec_should_skip(*c, pc as nat),
{
    match c.control_type {
        BlockControlFlowType::If { else_pc, condition_met } => match else_pc {
            Some(e) => if pc >= e {
                condition_met
            } else {
                !condition_met
            },
            None => !condition_met,
        },
        _ => false,
    }
}

/// The value of a global as its initializer encodes it.
pub(crate) fn global_value(g: &GlobalDecl) -> (res: Result<WasmValue, ExecError>)
    ensures
        res == spec_global_value(g@),
{
    let e = g.get_init_expr();
    assert(e@.skip(0) == e@);
    match g.get_ty().content_type {
        ValType::I32 => {
            let (op, n) = match read_var_u32_at(e.as_slice(), 0) {
                Ok(r) => r,
                Err(_) => return Err(ExecError::MalformedInitExpr),
            };
            if op != WASM_OP_I32_CONST {
                return Err(ExecError::InvalidInitExpr);
            }
            proof {
                lemma_read_len_bound(e@, 0u8, 0);
            }
            match read_var_i32_at(e.as_slice(), n) {
                Ok((v, _)) => Ok(WasmValue::I32(v)),
                Err(_) => Err(ExecError::MalformedInitExpr),
            }
        },
        ValType::F64 => {
            let (op, n) = match read_var_u32_at(e.as_slice(), 0) {
                Ok(r) => r,
                Err(_) => return Err(ExecError::MalformedInitExpr),
            };
            if op != WASM_OP_F64_CONST {
                return Err(ExecError::InvalidInitExpr);
            }
            proof {
                lemma_read_len_bound(e@, 0u8, 0);
            }
            match read_f64_bits_at(e.as_slice(), n) {
                Ok((v, _)) => Ok(WasmValue::F64(v)),
                Err(_) => Err(ExecError::MalformedInitExpr),
            }
        },
        _ => Err(ExecError::Unsupported),
    }
}

/// The initializer that stores `v`: its constant instruction and `end`.
fn init_expr_of(v: WasmValue) -> (res: Vec<u8>)
    ensures
        res@ == spec_init_expr_of(v),
{
    let (mut e, op) = match v {
        WasmValue::I32(x) => (encode_i32leb(x), WASM_OP_I32_CONST as u8),
        WasmValue::F64(x) => (encode_f64(x), WASM_OP_F64_CONST as u8),
    };
    let ghost body = e@;
    e.insert(0, op);
    e.push(WASM_OP_END as u8);
    assert(e@ =~= seq![op] + body + seq![WASM_OP_END as u8]);
    e
}

impl WasmFunctionExecutorImpl {
    /// How many values a block of type `ty` leaves on the operand stack.
    fn stack_height_delta(&self, ty: BlockType) -> (res: Result<usize, ExecError>)
        ensures
            match spec_stack_height_delta(self@.module, ty) {
                Ok(d) => res == Ok::<usize, ExecError>(d as usize) && d <= usize::MAX,
                Err(e) => res == Err::<usize, ExecError>(e),
            },
    {
        match ty {
            BlockType::Empty => Ok(0),
            BlockType::Type(_) => Ok(1),
            BlockType::FuncType(f) => match self.module.get_func(f) {
                Some(func) => {
                    let sig = func.get_sig();
                    let nr = sig.results.len();
                    let np = sig.params.len();
                    if nr >= np {
                        Ok(nr - np)
                    } else {
                        Err(ExecError::Overflow)
                    }
                },
                None => Err(ExecError::FunctionNotFound),
            },
        }
    }

    /// `block`: opens a block on the control stack.
    fn exec_block(&mut self, ty: BlockType) -> (res: StepOutcome)
        requires
            old(self)@.cur.pc < usize::MAX,
        ensures
            agrees(final(self)@, res, spec_exec_inst(old(self)@, InstView::Plain(Instruction::Block { ty }))),
    {
        let d = match self.stack_height_delta(ty) {
            Ok(d) => d,
            Err(e) => return StepOutcome::Trap(e),
        };
        let h = match self.cur.operand_stack.len().checked_add(d) {
            Some(h) => h,
            None => return StepOutcome::Trap(ExecError::Overflow),
        };
        let pc = self.cur.pc;
        let end = match find_matching_end(self.cur.func.get_insts(), pc) {
            Some(e) => e,
            None => return StepOutcome::Trap(ExecError::NoMatchingEnd),
        };
        self.cur.control_flow_frames.push(
            BlockControlFlowFrame {
                control_type: BlockControlFlowType::Block,
                expected_stack_height: h,
                start_pc: pc,
                end_pc: end,
            },
        );
        self.cur.pc = pc + 1;
        StepOutcome::Running
    }

    /// `if`: pops the condition and opens a block whose branches the control
    /// stack selects.
    fn exec_if(&mut self, ty: BlockType) -> (res: StepOutcome)
        requires
            old(self)@.cur.pc < usize::MAX,
        ensures
            agrees(final(self)@, res, spec_exec_inst(old(self)@, InstView::Plain(Instruction::If { ty }))),
    {
        let d = match self.stack_height_delta(ty) {
            Ok(d) => d,
            Err(e) => return StepOutcome::Trap(e),
        };
        let h = match self.cur.operand_stack.len().checked_add(d) {
            Some(h) => h,
            None => return StepOutcome::Trap(ExecError::Overflow),
        };
        let c = match self.cur.pop_i32() {
            Ok(c) => c,
            Err(e) => return StepOutcome::Trap(e),
        };
        let pc = self.cur.pc;
        let insts = self.cur.func.get_insts();
        let end = match find_matching_end(insts, pc) {
            Some(e) => e,
            None => return StepOutcome::Trap(ExecError::NoMatchingEnd),
        };
        let else_pc = find_closest_else(insts, pc, end);
        self.cur.control_flow_frames.push(
            BlockControlFlowFrame {
                control_type: BlockControlFlowType::If { else_pc, condition_met: c != 0 },
                expected_stack_height: h,
                start_pc: pc,
                end_pc: end,
            },
        );
        self.cur.pc = pc + 1;
        StepOutcome::Running
    }
}

impl WasmFunctionExecutorImpl {
    /// `call`: enters function `func_idx`.
    fn exec_call(&mut self, func_idx: u32) -> (res: StepOutcome)
        requires
            old(self)@.cur.pc < usize::MAX,
        ensures
            agrees(final(self)@, res, spec_exec_inst(old(self)@, InstView::Plain(Instruction::Call { func_idx }))),
    {
        let func = match self.module.get_func(func_idx) {
            Some(f) => f.clone(),
            None => return StepOutcome::Trap(ExecError::FunctionNotFound),
        };
        match self.call_func(func) {
            Ok(()) => StepOutcome::Running,
            Err(e) => StepOutcome::Trap(e),
        }
    }

    /// The first element segment that is active in table `table_index`.
    fn find_elem(&self, table_index: u32) -> (res: Result<usize, ExecError>)
        ensures
            match spec_find_elem(self@.module.elems, table_index, 0) {
                Ok(k) => (res is Ok) && res.unwrap() as int == k && 0 <= k < self@.module.elems.len(),
                Err(e) => res == Err::<usize, ExecError>(e),
            },
    {
        let elems = self.module.get_elems();
        let ghost ev = self@.module.elems;
        let mut k: usize = 0;
        while k < elems.len()
            invariant
                k <= elems@.len(),
                ev == crate::module::wasm_module::elems_view(elems@),
                ev == self@.module.elems,
                spec_find_elem(ev, table_index, 0) == spec_find_elem(ev, table_index, k as int),
            decreases elems.len() - k,
        {
            assert(ev[k as int] == elems@[k as int]@);
            match &elems[k].kind {
                ElementKind::Active { table_index: t, .. } => {
                    if let Some(x) = t {
                        if *x == table_index {
                            return Ok(k);
                        }
                    }
                },
                _ => return Err(ExecError::Unsupported),
            }
            k += 1;
        }
        Err(ExecError::ElementSegmentNotFound)
    }

    /// `call_indirect`: pops a table slot and enters the function it holds,
    /// which must have signature `type_index`.
    fn exec_call_indirect(&mut self, type_index: u32, table_index: u32) -> (res: StepOutcome)
        requires
            old(self)@.cur.pc < usize::MAX,
        ensures
            agrees(
                final(self)@,
                res,
                spec_exec_inst(old(self)@, InstView::Plain(Instruction::CallIndirect { type_index, table_index })),
            ),
    {
        let x = match self.cur.pop_i32() {
            Ok(v) => v,
            Err(e) => return StepOutcome::Trap(e),
        };
        let k = match self.find_elem(table_index) {
            Ok(k) => k,
            Err(e) => return StepOutcome::Trap(e),
        };

        let elems = self.module.get_elems();
        assert(self@.module.elems[k as int] == elems@[k as int]@);
        let fs = match &elems[k].items {
            ElementItems::Functions(v) => v,
            _ => {
                assert(old(self)@.module.elems[k as int].funcs is None);
                return StepOutcome::Trap(ExecError::Unsupported);
            },
        };
        assert(old(self)@.module.elems[k as int].funcs == Some(fs@));
        if x < 0 || x as usize >= fs.len() {
            return StepOutcome::Trap(ExecError::ElementIndexOutOfBounds);
        }
        let callee_index = fs[x as usize];
        let callee = match self.module.get_func(callee_index) {
            Some(f) => f,
            None => return StepOutcome::Trap(ExecError::FunctionNotFound),
        };
        let expected = match self.module.get_sig(type_index) {
            Some(sig) => sig,
            None => return StepOutcome::Trap(ExecError::SignatureNotFound),
        };
        if !expected.same_as(callee.get_sig()) {
            return StepOutcome::Trap(ExecError::SignatureMismatch);
        }
        let callee = callee.clone();
        match self.call_func(callee) {
            Ok(()) => StepOutcome::Running,
            Err(e) => StepOutcome::Trap(e),
        }
    }

    /// `select`: keeps the first or the second of two values by a condition.
    fn exec_select(&mut self) -> (res: StepOutcome)
        requires
            old(self)@.cur.pc < usize::MAX,
        ensures
            agrees(final(self)@, res, spec_exec_inst(old(self)@, InstView::Plain(Instruction::Select))),
    {
        let c = match self.cur.pop_i32() {
            Ok(c) => c,
            Err(e) => return StepOutcome::Trap(e),
        };
        if self.cur.operand_stack.len() < 2 {
            return StepOutcome::Trap(ExecError::StackUnderflow);
        }
        let b = self.cur.operand_stack.pop().unwrap();
        let a = self.cur.operand_stack.pop().unwrap();
        self.cur.operand_stack.push(if c != 0 { a } else { b });
        self.cur.pc += 1;
        StepOutcome::Running
    }

    /// `local.get`, `local.set` and `local.tee`.
    fn exec_local(&mut self, inst: &Instruction) -> (res: StepOutcome)
        requires
            old(self)@.cur.pc < usize::MAX,
            inst is LocalGet || inst is LocalSet || inst is LocalTee,
        ensures
            agrees(final(self)@, res, spec_exec_inst(old(self)@, inst@)),
    {
        match inst {
            Instruction::LocalGet { local_idx } => {
                if *local_idx as usize >= self.cur.locals.len() {
                    return StepOutcome::Trap(ExecError::LocalNotFound);
                }
                let v = self.cur.locals[*local_idx as usize];
                self.cur.operand_stack.push(v);
            },
            Instruction::LocalSet { local_idx } => {
                let v = match self.cur.operand_stack.pop() {
                    Some(v) => v,
                    None => return StepOutcome::Trap(ExecError::StackUnderflow),
                };
                if *local_idx as usize >= self.cur.locals.len() {
                    return StepOutcome::Trap(ExecError::LocalNotFound);
                }
                self.cur.locals.set(*local_idx as usize, v);
            },
            _ => {
                if self.cur.operand_stack.len() == 0 {
                    return StepOutcome::Trap(ExecError::StackUnderflow);
                }
                let v = self.cur.operand_stack[self.cur.operand_stack.len() - 1];
                let local_idx = match inst {
                    Instruction::LocalTee { local_idx } => *local_idx,
                    _ => return StepOutcome::Trap(ExecError::Unsupported),
                };
                if local_idx as usize >= self.cur.locals.len() {
                    return StepOutcome::Trap(ExecError::LocalNotFound);
                }
                self.cur.locals.set(local_idx as usize, v);
            },
        }
        self.cur.pc += 1;
        StepOutcome::Running
    }

    /// `global.get`: pushes the value of a global.
    fn exec_global_get(&mut self, global_idx: u32) -> (res: StepOutcome)
        requires
            old(self)@.cur.pc < usize::MAX,
        ensures
            agrees(final(self)@, res, spec_exec_inst(old(self)@, InstView::Plain(Instruction::GlobalGet { global_idx }))),
    {
        let globals = self.module.get_globals();
        if global_idx as usize >= globals.len() {
            return StepOutcome::Trap(ExecError::GlobalNotFound);
        }
        assert(self@.module.globals[global_idx as int] == globals@[global_idx as int]@);
        let v = match global_value(&globals[global_idx as usize]) {
            Ok(v) => v,
            Err(e) => return StepOutcome::Trap(e),
        };
        self.cur.operand_stack.push(v);
        self.cur.pc += 1;
        StepOutcome::Running
    }

    /// `global.set`: pops a value and makes it the global's initializer.
    fn exec_global_set(&mut self, global_idx: u32) -> (res: StepOutcome)
        requires
            old(self)@.cur.pc < usize::MAX,
        ensures
            agrees(final(self)@, res, spec_exec_inst(old(self)@, InstView::Plain(Instruction::GlobalSet { global_idx }))),
    {
        let v = match self.cur.operand_stack.pop() {
            Some(v) => v,
            None => return StepOutcome::Trap(ExecError::StackUnderflow),
        };
        let globals = self.module.get_globals();
        if global_idx as usize >= globals.len() {
            return StepOutcome::Trap(ExecError::GlobalNotFound);
        }
        assert(self@.module.globals[global_idx as int] == globals@[global_idx as int]@);
        let ty = globals[global_idx as usize].get_ty().content_type;
        match check_fits(&v, ty) {
            Ok(_) => {},
            Err(e) => return StepOutcome::Trap(e),
        }
        let expr = init_expr_of(v);
        self.module.set_global_init_expr(global_idx as usize, expr);
        self.cur.pc += 1;
        StepOutcome::Running
    }
}

impl WasmFunctionExecutorImpl {
    /// The `i32` loads: reads one, two or four bytes at the popped address.
    fn exec_i32_load(&mut self, inst: &Instruction) -> (res: StepOutcome)
        requires
            old(self)@.cur.pc < usize::MAX,
            inst is I32Load || inst is I32Load8S || inst is I32Load8U || inst is I32Load16S || inst is I32Load16U,
        ensures
            agrees(final(self)@, res, spec_exec_inst(old(self)@, inst@)),
    {
        let (memarg, width): (MemArg, u32) = match inst {
            Instruction::I32Load { memarg } => (*memarg, 4),
            Instruction::I32Load8S { memarg } | Instruction::I32Load8U { memarg } => (*memarg, 1),
            _ => match inst {
                Instruction::I32Load16S { memarg } | Instruction::I32Load16U { memarg } => (*memarg, 2),
                _ => return StepOutcome::Trap(ExecError::Unsupported),
            },
        };
        let base = match self.cur.pop_i32() {
            Ok(v) => v,
            Err(e) => return StepOutcome::Trap(e),
        };
        let ea = match effective_addr(base, memarg.offset, width, self.mem.size()) {
            Ok(ea) => ea,
            Err(e) => return StepOutcome::Trap(e),
        };
        let raw = read_le(&self.mem.0, ea, width as usize);
        let v = (raw as u32) as i32;
        let v = match inst {
            Instruction::I32Load8S { .. } => ((v & 0xFF) as i8) as i32,
            Instruction::I32Load8U { .. } => v & 0xFF,
            Instruction::I32Load16S { .. } => ((v & 0xFFFF) as i16) as i32,
            Instruction::I32Load16U { .. } => v & 0xFFFF,
            _ => v,
        };
        self.cur.operand_stack.push(WasmValue::I32(v));
        self.cur.pc += 1;
        StepOutcome::Running
    }

    /// `f64.load`: reads the eight bytes of an `f64` at the popped address.
    fn exec_f64_load(&mut self, memarg: MemArg) -> (res: StepOutcome)
        requires
            old(self)@.cur.pc < usize::MAX,
        ensures
            agrees(final(self)@, res, spec_exec_inst(old(self)@, InstView::Plain(Instruction::F64Load { memarg }))),
    {
        let base = match self.cur.pop_i32() {
            Ok(v) => v,
            Err(e) => return StepOutcome::Trap(e),
        };
        let ea = match effective_addr(base, memarg.offset, 8, self.mem.size()) {
            Ok(ea) => ea,
            Err(e) => return StepOutcome::Trap(e),
        };
        let raw = read_le(&self.mem.0, ea, 8);
        self.cur.operand_stack.push(WasmValue::F64(raw));
        self.cur.pc += 1;
        StepOutcome::Running
    }

    /// The `i32` stores: writes the low one, two or four bytes of the popped
    /// value at the address below it.
    fn exec_i32_store(&mut self, inst: &Instruction) -> (res: StepOutcome)
        requires
            old(self)@.cur.pc < usize::MAX,
            inst is I32Store || inst is I32Store8 || inst is I32Store16,
        ensures
            agrees(final(self)@, res, spec_exec_inst(old(self)@, inst@)),
    {
        let (memarg, width): (MemArg, u32) = match inst {
            Instruction::I32Store { memarg } => (*memarg, 4),
            Instruction::I32Store8 { memarg } => (*memarg, 1),
            Instruction::I32Store16 { memarg } => (*memarg, 2),
            _ => return StepOutcome::Trap(ExecError::Unsupported),
        };
        let v = match self.cur.pop_i32() {
            Ok(v) => v,
            Err(e) => return StepOutcome::Trap(e),
        };
        let base = match self.cur.pop_i32() {
            Ok(v) => v,
            Err(e) => return StepOutcome::Trap(e),
        };
        let ea = match effective_addr(base, memarg.offset, width, self.mem.size()) {
            Ok(ea) => ea,
            Err(e) => return StepOutcome::Trap(e),
        };
        let bytes = le_bytes_of((v as u32) as u64, width as usize);
        proof {
            crate::module::reader::lemma_le_value_of_bytes((v as u32) as nat, width as nat);
        }
        write_bytes(&mut self.mem.0, ea, &bytes);
        self.cur.pc += 1;
        StepOutcome::Running
    }

    /// `memory.size`: the memory size in bytes, placed at the bottom of the
    /// operand stack.
    fn exec_memory_size(&mut self, mem: u32) -> (res: StepOutcome)
        requires
            old(self)@.cur.pc < usize::MAX,
        ensures
            agrees(final(self)@, res, spec_exec_inst(old(self)@, InstView::Plain(Instruction::MemorySize { mem }))),
    {
        if mem != 0 {
            return StepOutcome::Trap(ExecError::InvalidMemoryIndex);
        }
        let size = self.mem.size();
        if size > 0x7FFF_FFFF {
            return StepOutcome::Trap(ExecError::Overflow);
        }
        let ghost st = self@.cur.stack;
        self.cur.operand_stack.insert(0, WasmValue::I32(size as i32));
        assert(self@.cur.stack =~= seq![WasmValue::I32(size as i32)] + st);
        self.cur.pc += 1;
        StepOutcome::Running
    }

    /// `memory.grow`: grows the memory by the popped number of pages and
    /// places the new size in bytes at the bottom of the operand stack.
    fn exec_memory_grow(&mut self, mem: u32) -> (res: StepOutcome)
        requires
            old(self)@.cur.pc < usize::MAX,
        ensures
            agrees(final(self)@, res, spec_exec_inst(old(self)@, InstView::Plain(Instruction::MemoryGrow { mem }))),
    {
        if mem != 0 {
            return StepOutcome::Trap(ExecError::InvalidMemoryIndex);
        }
        let p = match self.cur.pop_i32() {
            Ok(v) => v,
            Err(e) => return StepOutcome::Trap(e),
        };
        if p < 0 {
            return StepOutcome::Trap(ExecError::Overflow);
        }
        let size = self.mem.size();
        let added = match (p as usize).checked_mul(WASM_DEFAULT_PAGE_SIZE_BYTE) {
            Some(a) => a,
            None => return StepOutcome::Trap(ExecError::Overflow),
        };
        let new_len = match size.checked_add(added) {
            Some(n) => n,
            None => return StepOutcome::Trap(ExecError::Overflow),
        };
        if new_len > 0x7FFF_FFFF {
            return StepOutcome::Trap(ExecError::Overflow);
        }
        self.mem.grow(p as u32);
        let ghost st = self@.cur.stack;
        self.cur.operand_stack.insert(0, WasmValue::I32(new_len as i32));
        assert(self@.cur.stack =~= seq![WasmValue::I32(new_len as i32)] + st);
        self.cur.pc += 1;
        StepOutcome::Running
    }

    /// The `i32` unary operators.
    fn exec_i32_unop(&mut self, op: I32Unop) -> (res: StepOutcome)
        requires
            old(self)@.cur.pc < usize::MAX,
        ensures
            agrees(final(self)@, res, spec_exec_inst(old(self)@, InstView::Plain(Instruction::I32Unop(op)))),
    {
        let a = match self.cur.pop_i32() {
            Ok(v) => v,
            Err(e) => return StepOutcome::Trap(e),
        };
        let r = match i32_unop(op, a) {
            Ok(r) => r,
            Err(e) => return StepOutcome::Trap(e),
        };
        self.cur.operand_stack.push(WasmValue::I32(r));
        self.cur.pc += 1;
        StepOutcome::Running
    }

    /// The `i32` binary operators.
    fn exec_i32_binop(&mut self, op: I32Binop) -> (res: StepOutcome)
        requires
            old(self)@.cur.pc < usize::MAX,
        ensures
            agrees(final(self)@, res, spec_exec_inst(old(self)@, InstView::Plain(Instruction::I32Binop(op)))),
    {
        let b = match self.cur.pop_i32() {
            Ok(v) => v,
            Err(e) => return StepOutcome::Trap(e),
        };
        let a = match self.cur.pop_i32() {
            Ok(v) => v,
            Err(e) => return StepOutcome::Trap(e),
        };
        let r = match i32_binop(op, a, b) {
            Ok(r) => r,
            Err(e) => return StepOutcome::Trap(e),
        };
        self.cur.operand_stack.push(WasmValue::I32(r));
        self.cur.pc += 1;
        StepOutcome::Running
    }

    /// The `f64` unary operators: pops the operand and asks for the result.
    fn exec_f64_unop(&mut self, op: F64Unop) -> (res: StepOutcome)
        requires
            old(self)@.cur.pc < usize::MAX,
        ensures
            agrees(final(self)@, res, spec_exec_inst(old(self)@, InstView::Plain(Instruction::F64Unop(op)))),
    {
        let a = match self.cur.pop_f64() {
            Ok(v) => v,
            Err(e) => return StepOutcome::Trap(e),
        };
        if op == F64Unop::I32TruncF64S || op == F64Unop::I32TruncF64U {
            return StepOutcome::Trap(ExecError::Unsupported);
        }
        self.cur.pc += 1;
        self.pending = true;
        StepOutcome::NeedF64Unop { op, a }
    }

    /// The `f64` binary operators: pops the operands and asks for the result.
    fn exec_f64_binop(&mut self, op: F64Binop) -> (res: StepOutcome)
        requires
            old(self)@.cur.pc < usize::MAX,
        ensures
            agrees(final(self)@, res, spec_exec_inst(old(self)@, InstView::Plain(Instruction::F64Binop(op)))),
    {
        let b = match self.cur.pop_f64() {
            Ok(v) => v,
            Err(e) => return StepOutcome::Trap(e),
        };
        let a = match self.cur.pop_f64() {
            Ok(v) => v,
            Err(e) => return StepOutcome::Trap(e),
        };
        self.cur.pc += 1;
        self.pending = true;
        StepOutcome::NeedF64Binop { op, a, b }
    }
}

impl WasmFunctionExecutorImpl {
    /// Executes one instruction of the current function.
    fn exec_inst(&mut self, inst: &Instruction) -> (res: StepOutcome)
        requires
            old(self)@.cur.pc < usize::MAX,
        ensures
            agrees(final(self)@, res, spec_exec_inst(old(self)@, inst@)),
    {
        match inst {
            Instruction::Return => {
                self.cur.returned = true;
                StepOutcome::Running
            },
            Instruction::Unreachable => StepOutcome::Trap(ExecError::Unreachable),
            Instruction::Nop | Instruction::Else | Instruction::End => {
                self.cur.pc += 1;
                StepOutcome::Running
            },
            Instruction::Block { ty } => self.exec_block(*ty),
            Instruction::If { ty } => self.exec_if(*ty),
            Instruction::Call { func_idx } => self.exec_call(*func_idx),
            Instruction::CallIndirect { type_index, table_index } => self.exec_call_indirect(
                *type_index,
                *table_index,
            ),
            Instruction::Drop => {
                if self.cur.operand_stack.len() == 0 {
                    return StepOutcome::Trap(ExecError::StackUnderflow);
                }
                self.cur.operand_stack.pop();
                self.cur.pc += 1;
                StepOutcome::Running
            },
            Instruction::Select => self.exec_select(),
            Instruction::LocalGet { .. } | Instruction::LocalSet { .. } | Instruction::LocalTee { .. } => {
                self.exec_local(inst)
            },
            Instruction::GlobalGet { global_idx } => self.exec_global_get(*global_idx),
            Instruction::GlobalSet { global_idx } => self.exec_global_set(*global_idx),
            Instruction::I32Load { .. } | Instruction::I32Load8S { .. } | Instruction::I32Load8U { .. }
            | Instruction::I32Load16S { .. } | Instruction::I32Load16U { .. } => self.exec_i32_load(inst),
            Instruction::F64Load { memarg } => self.exec_f64_load(*memarg),
            Instruction::I32Store { .. } | Instruction::I32Store8 { .. } | Instruction::I32Store16 { .. } => {
                self.exec_i32_store(inst)
            },
            Instruction::MemorySize { mem } => self.exec_memory_size(*mem),
            Instruction::MemoryGrow { mem } => self.exec_memory_grow(*mem),
            Instruction::I32Const { value } => {
                self.cur.operand_stack.push(WasmValue::I32(*value));
                self.cur.pc += 1;
                StepOutcome::Running
            },
            Instruction::F64Const { value } => {
                self.cur.operand_stack.push(WasmValue::F64(*value));
                self.cur.pc += 1;
                StepOutcome::Running
            },
            Instruction::I32Unop(op) => self.exec_i32_unop(*op),
            Instruction::I32Binop(op) => self.exec_i32_binop(*op),
            Instruction::F64Unop(op) => self.exec_f64_unop(*op),
            Instruction::F64Binop(op) => self.exec_f64_binop(*op),
            _ => StepOutcome::Trap(ExecError::Unsupported),
        }
    }

    /// Takes one step: sets up the function's outermost block, executes or
    /// skips the next instruction, or returns from the current function.
    pub fn step(&mut self) -> (res: StepOutcome)
        ensures
            agrees(final(self)@, res, spec_step(old(self)@)),
    {
        if self.finished {
            return StepOutcome::Trap(ExecError::Finished);
        }
        if self.pending {
            return StepOutcome::Trap(ExecError::AwaitingFloatResult);
        }
        if !self.cur.started {
            return match find_matching_end(self.cur.func.get_insts(), 0) {
                Some(e) => {
                    self.cur.control_flow_frames.push(
                        BlockControlFlowFrame {
                            control_type: BlockControlFlowType::Block,
                            expected_stack_height: 0,
                            start_pc: 0,
                            end_pc: e,
                        },
                    );
                    self.cur.started = true;
                    StepOutcome::Running
                },
                None => StepOutcome::Trap(ExecError::NoMatchingEnd),
            };
        }
        let n = self.cur.func.get_insts().len();
        if self.cur.returned || self.cur.pc >= n {
            return self.finish_frame();
        }
        let nc = self.cur.control_flow_frames.len();
        if nc == 0 {
            return StepOutcome::Trap(ExecError::Unsupported);
        }
        if should_skip(&self.cur.control_flow_frames[nc - 1], self.cur.pc) {
            self.cur.pc += 1;
            return StepOutcome::Running;
        }
        let inst = self.cur.func.get_inst(self.cur.pc).clone();
        self.exec_inst(&inst)
    }
}

} // verus!
