//! Locating the `else` and `end` that belong to a structured block.
use vstd::prelude::*;

use crate::module::insts::{insts_view, spec_is_block_end, spec_is_block_start, spec_is_else, InstView, Instruction};

verus! {

/// How an instruction changes the block nesting depth.
pub open spec fn depth_delta(i: InstView) -> int {
    if spec_is_block_start(i) {
        1
    } else if spec_is_block_end(i) {
        -1
    } else {
        0
    }
}

/// Scanning forward from `pc` with nesting depth `depth` before it: the first
/// position at which the depth, counted through that position, is zero.
pub open spec fn scan_for_end(insts: Seq<InstView>, pc: int, depth: int) -> Option<int>
    decreases insts.len() - pc,
{
    if pc < 0 || pc >= insts.len() {
        None
    } else if depth + depth_delta(insts[pc]) == 0 {
        Some(pc)
    } else {
        scan_for_end(insts, pc + 1, depth + depth_delta(insts[pc]))
    }
}

/// The `end` matching the block that opens at `start`.
pub open spec fn matching_end(insts: Seq<InstView>, start: int) -> Option<int> {
    scan_for_end(insts, start, 0)
}

/// The first `else` at or after `pc`.
pub open spec fn first_else(insts: Seq<InstView>, pc: int) -> Option<int>
    decreases insts.len() - pc,
{
    if pc < 0 || pc >= insts.len() {
        None
    } else if spec_is_else(insts[pc]) {
        Some(pc)
    } else {
        first_else(insts, pc + 1)
    }
}

/// The `else` of the block opening at `start`: the first `else` from `start`
/// on, provided it comes before the block's `end` (`end` is the block's end).
pub open spec fn closest_else(insts: Seq<InstView>, start: int, end: int) -> Option<int> {
    match first_else(insts, start) {
        Some(p) => if p < end {
            Some(p)
        } else {
            None
        },
        None => None,
    }
}

/// Finds the `end` of the block that opens at `start`.
pub fn find_matching_end(insts: &Vec<Instruction>, start: usize) -> (res: Option<usize>)
    ensures
        match res {
            Some(p) => matching_end(insts_view(insts@), start as int) == Some(p as int),
            None => matching_end(insts_view(insts@), start as int) is None,
        },
{
    let ghost v = insts_view(insts@);
    let mut pc: usize = start;
    let mut depth: i128 = 0;
    while pc < insts.len()
        invariant
            start <= pc,
            v == insts_view(insts@),
            -(pc - start) <= depth <= pc - start,
            matching_end(v, start as int) == scan_for_end(v, pc as int, depth as int),
        decreases insts.len() - pc,
    {
        let inst = &insts[pc];
        assert(v[pc as int] == inst@);
        if Instruction::is_control_block_start(inst) {
            depth += 1;
        } else if Instruction::is_control_block_end(inst) {
            depth -= 1;
        }
        if depth == 0 {
            return Some(pc);
        }
        pc += 1;
    }
    None
}

/// Finds the `else` of the block opening at `start` whose `end` is at `end`.
pub fn find_closest_else(insts: &Vec<Instruction>, start: usize, end: usize) -> (res: Option<usize>)
    ensures
        match res {
            Some(p) => closest_else(insts_view(insts@), start as int, end as int) == Some(p as int),
            None => closest_else(insts_view(insts@), start as int, end as int) is None,
        },
{
    let ghost v = insts_view(insts@);
    let mut pc: usize = start;
    while pc < insts.len()
        invariant
            start <= pc,
            v == insts_view(insts@),
            first_else(v, start as int) == first_else(v, pc as int),
        decreases insts.len() - pc,
    {
        let inst = &insts[pc];
        assert(v[pc as int] == inst@);
        if matches!(inst, Instruction::Else) {
            if pc < end {
                return Some(pc);
            } else {
                return None;
            }
        }
        pc += 1;
    }
    None
}

} // verus!
