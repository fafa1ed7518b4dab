//! The size of a compiled function's stack frame.
use vstd::prelude::*;

use crate::module::components::{FuncDecl, FuncDeclView};
use crate::module::insts::{insts_view, InstView, Instruction};

verus! {

/// The state of the scan that bounds the operand stack depth: the current
/// depth, the greatest depth so far and the depth at the start of each open
/// block.
pub struct DepthScan {
    pub cur: nat,
    pub max: nat,
    pub blocks: Seq<nat>,
}

/// `a - b`, or zero when `b` is larger.
pub open spec fn sat_sub(a: nat, b: nat) -> nat {
    if a >= b {
        (a - b) as nat
    } else {
        0
    }
}

/// The depth and the open blocks after one instruction.
pub open spec fn depth_after(s: DepthScan, i: InstView) -> (nat, Seq<nat>) {
    match i {
        InstView::BrTable { .. } => (sat_sub(s.cur, 1), s.blocks),
        InstView::Plain(inst) => match inst {
            Instruction::I32Const { .. } | Instruction::F64Const { .. } | Instruction::LocalGet { .. }
            | Instruction::GlobalGet { .. } | Instruction::MemorySize { .. } => (s.cur + 1, s.blocks),
            Instruction::Unreachable | Instruction::Return => (0, s.blocks),
            Instruction::Drop | Instruction::I32Binop(_) | Instruction::F64Binop(_) | Instruction::BrIf { .. }
            | Instruction::LocalSet { .. } | Instruction::GlobalSet { .. } => (sat_sub(s.cur, 1), s.blocks),
            Instruction::Select | Instruction::I32Store { .. } | Instruction::F64Store { .. }
            | Instruction::I32Store8 { .. } | Instruction::I32Store16 { .. } => (sat_sub(s.cur, 2), s.blocks),
            Instruction::Block { .. } | Instruction::Loop { .. } | Instruction::If { .. } => (
                s.cur,
                s.blocks.push(s.cur),
            ),
            Instruction::Else => (
                if s.blocks.len() > 0 {
                    s.blocks.last()
                } else {
                    s.cur
                },
                s.blocks,
            ),
            Instruction::End => if s.blocks.len() > 0 {
                (
                    if s.cur >= s.blocks.last() {
                        s.cur
                    } else {
                        s.blocks.last()
                    },
                    s.blocks.drop_last(),
                )
            } else {
                (s.cur, s.blocks)
            },
            _ => (s.cur, s.blocks),
        },
    }
}

/// One step of the scan.
pub open spec fn depth_step(s: DepthScan, i: InstView) -> DepthScan {
    let (cur, blocks) = depth_after(s, i);
    DepthScan {
        cur,
        max: if cur > s.max {
            cur
        } else {
            s.max
        },
        blocks,
    }
}

/// The scan over a whole instruction sequence, from depth zero.
pub open spec fn depth_scan(insts: Seq<InstView>) -> DepthScan
    decreases insts.len(),
{
    if insts.len() == 0 {
        DepthScan { cur: 0, max: 0, blocks: Seq::empty() }
    } else {
        depth_step(depth_scan(insts.drop_last()), insts.last())
    }
}

/// The stack frame of a compiled function, in bytes: eight bytes for each
/// local declaration and parameter, for each slot of the deepest operand
/// stack the scan finds and for the memory size, rounded up to a multiple
/// of 16.
pub open spec fn spec_stack_size_in_byte(f: FuncDeclView) -> nat {
    let total = (f.pure_locals.len() + f.sig.params.len() + depth_scan(f.insts).max + 1) * 8;
    ((total + 15) / 16 * 16) as nat
}

/// An upper bound of the stack frame size of the compiled `fdecl`.
pub fn get_stack_size_in_byte(fdecl: &FuncDecl) -> (res: u64)
    requires
        (fdecl@.pure_locals.len() + fdecl@.sig.params.len() + fdecl@.insts.len() + 1) * 8 + 15 <= u64::MAX,
    ensures
        res == spec_stack_size_in_byte(fdecl@),
{
    let nlocals = (fdecl.get_pure_locals().len() as u64) + (fdecl.get_sig().params.len() as u64);
    let mut max_stack_depth: u64 = 0;
    let mut current_stack_depth: u64 = 0;
    let mut block_stack: Vec<u64> = Vec::new();
    let insts = fdecl.get_insts();
    let ghost v = insts_view(insts@);
    let mut pc: usize = 0;
    assert(v.take(0) == Seq::<InstView>::empty());
    assert(block_stack@.map_values(|d: u64| d as nat) =~= Seq::<nat>::empty());
    while pc < insts.len()
        invariant
            pc <= insts@.len(),
            v == insts_view(insts@),
            v == fdecl@.insts,
            current_stack_depth <= pc,
            max_stack_depth <= pc,
            forall|k: int| 0 <= k < block_stack@.len() ==> #[trigger] block_stack@[k] <= pc,
            depth_scan(v.take(pc as int)) == (DepthScan {
                cur: current_stack_depth as nat,
                max: max_stack_depth as nat,
                blocks: block_stack@.map_values(|d: u64| d as nat),
            }),
        decreases insts.len() - pc,
    {
        let inst = &insts[pc];
        assert(v.take(pc + 1).drop_last() == v.take(pc as int));
        assert(v.take(pc + 1).last() == inst@);
        let ghost blocks_before = block_stack@;
        match inst {
            Instruction::I32Const { .. } | Instruction::F64Const { .. } | Instruction::LocalGet { .. }
            | Instruction::GlobalGet { .. } | Instruction::MemorySize { .. } => {
                current_stack_depth += 1;
            },
            Instruction::Unreachable | Instruction::Return => {
                current_stack_depth = 0;
            },
            Instruction::Drop | Instruction::I32Binop(_) | Instruction::F64Binop(_) | Instruction::BrIf { .. }
            | Instruction::LocalSet { .. } | Instruction::GlobalSet { .. } | Instruction::BrTable { .. } => {
                current_stack_depth = current_stack_depth.saturating_sub(1);
            },
            Instruction::Select | Instruction::I32Store { .. } | Instruction::F64Store { .. }
            | Instruction::I32Store8 { .. } | Instruction::I32Store16 { .. } => {
                current_stack_depth = current_stack_depth.saturating_sub(2);
            },
            Instruction::Block { .. } | Instruction::Loop { .. } | Instruction::If { .. } => {
                block_stack.push(current_stack_depth);
                assert(block_stack@.map_values(|d: u64| d as nat) =~= blocks_before.map_values(
                    |d: u64| d as nat,
                ).push(current_stack_depth as nat));
            },
            Instruction::Else => {
                if block_stack.len() > 0 {
                    current_stack_depth = block_stack[block_stack.len() - 1];
                }
            },
            Instruction::End => {
                if let Some(depth_at_block_start) = block_stack.pop() {
                    assert(block_stack@.map_values(|d: u64| d as nat) =~= blocks_before.map_values(
                        |d: u64| d as nat,
                    ).drop_last());
                    if depth_at_block_start > current_stack_depth {
                        current_stack_depth = depth_at_block_start;
                    }
                }
            },
            _ => {},
        }
        if current_stack_depth > max_stack_depth {
            max_stack_depth = current_stack_depth;
        }
        pc += 1;
    }
    assert(v.take(pc as int) == v);
    let total = (nlocals + max_stack_depth + 1) * 8;
    let x = total + 15;
    assert(x & !15u64 == (x / 16) * 16) by (bit_vector);
    x & !15u64
}


/// How many values an instruction without control flow takes from the
/// operand stack and how many it puts back, by the WebAssembly typing
/// rules; the function's final `end`, with no block open, takes and puts
/// back none. `None` for the other instructions.
pub open spec fn wasm_stack_effect(i: InstView) -> Option<(nat, nat)> {
    match i {
        InstView::BrTable { .. } => None,
        InstView::Plain(inst) => match inst {
            Instruction::I32Const { .. } | Instruction::F64Const { .. } | Instruction::LocalGet { .. }
            | Instruction::GlobalGet { .. } | Instruction::MemorySize { .. } => Some((0nat, 1nat)),
            Instruction::LocalSet { .. } | Instruction::GlobalSet { .. } | Instruction::Drop => Some((1nat, 0nat)),
            Instruction::LocalTee { .. } | Instruction::I32Unop(_) | Instruction::F64Unop(_)
            | Instruction::MemoryGrow { .. } | Instruction::I32Load { .. } | Instruction::F64Load { .. }
            | Instruction::I32Load8S { .. } | Instruction::I32Load8U { .. } | Instruction::I32Load16S { .. }
            | Instruction::I32Load16U { .. } => Some((1nat, 1nat)),
            Instruction::I32Binop(_) | Instruction::F64Binop(_) => Some((2nat, 1nat)),
            Instruction::I32Store { .. } | Instruction::F64Store { .. } | Instruction::I32Store8 { .. }
            | Instruction::I32Store16 { .. } => Some((2nat, 0nat)),
            Instruction::Select => Some((3nat, 1nat)),
            Instruction::Nop | Instruction::End => Some((0nat, 0nat)),
            _ => None,
        },
    }
}

/// The operand stack depth after `insts`, run from an empty stack, for
/// code of instructions without control flow in which every instruction
/// finds the values it takes; `None` for any other code.
pub open spec fn straight_depth(insts: Seq<InstView>) -> Option<nat>
    decreases insts.len(),
{
    if insts.len() == 0 {
        Some(0)
    } else {
        match straight_depth(insts.drop_last()) {
            Some(d) => match wasm_stack_effect(insts.last()) {
                Some((p, q)) => if d >= p {
                    Some((d - p + q) as nat)
                } else {
                    None
                },
                None => None,
            },
            None => None,
        }
    }
}

/// On straight code the scan follows the operand stack exactly and its
/// greatest depth is at least every depth reached.
proof fn lemma_scan_follows_straight(insts: Seq<InstView>)
    requires
        straight_depth(insts) is Some,
    ensures
        depth_scan(insts).cur == straight_depth(insts)->Some_0,
        depth_scan(insts).blocks.len() == 0,
        depth_scan(insts).max >= depth_scan(insts).cur,
    decreases insts.len(),
{
    if insts.len() > 0 {
        lemma_scan_follows_straight(insts.drop_last());
    }
}

/// The greatest depth of the scan does not shrink as the code grows.
proof fn lemma_scan_max_grows(insts: Seq<InstView>, k: int)
    requires
        0 <= k <= insts.len(),
    ensures
        depth_scan(insts.take(k)).max <= depth_scan(insts).max,
    decreases insts.len() - k,
{
    if k < insts.len() {
        lemma_scan_max_grows(insts, k + 1);
        assert(insts.take(k + 1).drop_last() =~= insts.take(k));
    } else {
        assert(insts.take(k) =~= insts);
    }
}

/// For a body of instructions without control flow in which every
/// instruction finds the values it takes, the stack frame has room for the
/// locals, the parameters, the memory size and every operand stack depth
/// the body reaches: eight bytes each.
pub proof fn lemma_frame_holds_operand_stack(f: FuncDeclView, k: int)
    requires
        straight_depth(f.insts) is Some,
        0 <= k <= f.insts.len(),
    ensures
        straight_depth(f.insts.take(k)) is Some,
        spec_stack_size_in_byte(f) >= 8 * (f.pure_locals.len() + f.sig.params.len() + 1 + straight_depth(
            f.insts.take(k),
        )->Some_0),
{
    lemma_straight_prefix(f.insts, k);
    lemma_scan_follows_straight(f.insts.take(k));
    lemma_scan_max_grows(f.insts, k);
    let t = (f.pure_locals.len() + f.sig.params.len() + depth_scan(f.insts).max + 1) * 8;
    assert((t + 15) / 16 * 16 >= t) by (nonlinear_arith);
}

/// A prefix of straight code is straight.
proof fn lemma_straight_prefix(insts: Seq<InstView>, k: int)
    requires
        straight_depth(insts) is Some,
        0 <= k <= insts.len(),
    ensures
        straight_depth(insts.take(k)) is Some,
    decreases insts.len() - k,
{
    if k == insts.len() {
        assert(insts.take(k) =~= insts);
    } else {
        lemma_straight_prefix(insts, k + 1);
        assert(insts.take(k + 1).drop_last() =~= insts.take(k));
    }
}
} // verus!
