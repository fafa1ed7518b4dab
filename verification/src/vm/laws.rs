//! Properties of the interpreter that span several instructions or calls.
use vstd::prelude::*;

use super::func_exec::{
    spec_call, spec_exec_inst, spec_finish_frame, spec_global_value, spec_init_expr_of,
    spec_load_i32, spec_pop_args, spec_step, spec_store_i32, ExecView, FrameView, StepOutcome,
};
use super::interpreter::spec_setup_data;
use crate::module::components::{DataView, FuncDeclView, GlobalDeclView, GlobalType};
use crate::module::insts::{I32Binop, InstView, Instruction, MemArg};
use crate::module::reader::{
    le_bytes, le_value, lemma_le_value_of_bytes, lemma_sleb_encode, lemma_sleb_encode_read_back,
    pow256, sleb_encode,
};
use crate::module::value_type::{ValType, WasmValue};

verus! {

/// An initializer written for a value of a global's type reads back as that
/// value.
pub proof fn lemma_init_expr_read_back(v: WasmValue, mutable: bool)
    ensures
        spec_global_value(
            GlobalDeclView {
                ty: GlobalType {
                    content_type: match v {
                        WasmValue::I32(_) => ValType::I32,
                        WasmValue::F64(_) => ValType::F64,
                    },
                    mutable,
                },
                init_expr: spec_init_expr_of(v),
            },
        ) == Ok::<WasmValue, super::func_exec::ExecError>(v),
{
    let e = spec_init_expr_of(v);
    match v {
        WasmValue::I32(x) => {
            lemma_sleb_encode(x as int);
            let enc = sleb_encode(x as int);
            assert(e == seq![0x41u8] + enc + seq![0x0bu8]);
            assert(e[0] == 0x41u8);
            assert(e.take(1) == seq![0x41u8]);
            assert(e.take(1).drop_first().len() == 0);
            assert(e.skip(1) == enc + seq![0x0bu8]);
            lemma_sleb_encode_read_back(x, seq![0x0bu8]);
            assert(crate::module::reader::leb_len(e) == Some(1nat));
            assert(crate::module::reader::uleb_value(e.take(1).drop_first()) == 0);
            assert(crate::module::reader::uleb_value(e.take(1)) == 65);
            assert(crate::module::reader::spec_read_var_u32(e) == Some((0x41u32, 1nat)));
            assert(crate::module::reader::spec_read_var_i32(e.skip(1)) == Some((x, enc.len())));
        },
        WasmValue::F64(x) => {
            lemma_le_value_of_bytes(x as nat, 8);
            assert(pow256(8) == 0x1_0000_0000_0000_0000) by {
                reveal_with_fuel(pow256, 9);
            }
            let b = le_bytes(x as nat, 8);
            assert(e == seq![0x44u8] + b + seq![0x0bu8]);
            assert(e[0] == 0x44u8);
            assert(e.take(1) == seq![0x44u8]);
            assert(e.take(1).drop_first().len() == 0);
            assert(e.skip(1) == b + seq![0x0bu8]);
            assert(e.skip(1).take(8) == b);
            assert(crate::module::reader::leb_len(e) == Some(1nat));
            assert(crate::module::reader::uleb_value(e.take(1).drop_first()) == 0);
            assert(crate::module::reader::uleb_value(e.take(1)) == 68);
            assert(crate::module::reader::spec_read_var_u32(e) == Some((0x44u32, 1nat)));
            assert(le_value(b) == x);
        },
    }
}

/// `global.set` followed by `global.get` of the same global leaves the
/// operand stack as it was: the value set is the value read back.
pub proof fn lemma_global_set_then_get(s: ExecView, global_idx: u32)
    requires
        spec_exec_inst(s, InstView::Plain(Instruction::GlobalSet { global_idx })).1 == StepOutcome::Running,
    ensures
        ({
            let s1 = spec_exec_inst(s, InstView::Plain(Instruction::GlobalSet { global_idx })).0;
            let (s2, out) = spec_exec_inst(s1, InstView::Plain(Instruction::GlobalGet { global_idx }));
            &&& spec_global_value(s1.module.globals[global_idx as int]) == Ok::<
                WasmValue,
                super::func_exec::ExecError,
            >(s.cur.stack.last())
            &&& out == StepOutcome::Running
            &&& s2.cur.stack == s.cur.stack
            &&& s2.cur.pc == s.cur.pc + 2
        }),
{
    let st = s.cur.stack;
    let g = s.module.globals[global_idx as int];
    lemma_init_expr_read_back(st.last(), g.ty.mutable);
    assert(st.drop_last().push(st.last()) == st);
}

/// What a load of `width` bytes gives back of a stored `i32` `v`: its low
/// byte, its low two bytes, or all of it.
pub open spec fn stored_part(v: i32, width: nat) -> i32 {
    if width == 1 {
        v & 0xFF
    } else if width == 2 {
        v & 0xFFFF
    } else {
        v
    }
}

/// A store of 1, 2 or 4 bytes followed by a load of as many bytes at the
/// same address and offset reads back the stored value's low byte, low two
/// bytes or whole value, zero-extended; the store keeps the memory's size.
pub proof fn lemma_store_then_load(st: Seq<WasmValue>, memarg: MemArg, width: nat, mem: Seq<u8>)
    requires
        width == 1 || width == 2 || width == 4,
        spec_store_i32(st, memarg, width, mem) is Ok,
    ensures
        ({
            let (rest, mem2) = spec_store_i32(st, memarg, width, mem).unwrap();
            let base = st.drop_last().last();
            &&& mem2.len() == mem.len()
            &&& spec_load_i32(rest.push(base), memarg, width, mem2) == Ok::<
                (i32, Seq<WasmValue>),
                super::func_exec::ExecError,
            >((stored_part(st.last()->I32_0, width), rest))
        }),
{
    let v = st.last()->I32_0;
    let (rest, mem2) = spec_store_i32(st, memarg, width, mem).unwrap();
    let base = st.drop_last().last()->I32_0;
    let ea = (base + memarg.offset) as nat;
    let x = (v as u32) as nat;
    let b = le_bytes(x, width);
    lemma_le_value_of_bytes(x, width);
    assert(mem2 == mem.subrange(0, ea as int) + b + mem.subrange((ea + width) as int, mem.len() as int));
    assert(mem2.subrange(ea as int, (ea + width) as int) == b);
    assert(rest.push(st.drop_last().last()).drop_last() == rest);
    assert(rest.push(st.drop_last().last()).last() == st.drop_last().last());
    let u = v as u32;
    if width == 1 {
        assert(pow256(1) == 256) by {
            reveal_with_fuel(pow256, 2);
        }
        assert(le_value(mem2.subrange(ea as int, (ea + width) as int)) == (u % 256) as nat);
        assert(((u % 256) as u32) as i32 == v & 0xFF) by (bit_vector)
            requires
                u == v as u32,
        ;
    } else if width == 2 {
        assert(pow256(2) == 65536) by {
            reveal_with_fuel(pow256, 3);
        }
        assert(le_value(mem2.subrange(ea as int, (ea + width) as int)) == (u % 65536) as nat);
        assert(((u % 65536) as u32) as i32 == v & 0xFFFF) by (bit_vector)
            requires
                u == v as u32,
        ;
    } else {
        assert(pow256(4) == 0x1_0000_0000) by {
            reveal_with_fuel(pow256, 5);
        }
        assert(x < 0x1_0000_0000);
        assert(x % 0x1_0000_0000 == x);
        assert(le_value(mem2.subrange(ea as int, (ea + width) as int)) == u as nat);
        assert((u as u32) as i32 == v) by (bit_vector)
            requires
                u == v as u32,
        ;
    }
}

/// A call suspends the caller at the instruction after the call; when the
/// callee leaves with a value on top of its stack, the caller resumes there,
/// its arguments popped and that value pushed, with its callers as before.
pub proof fn lemma_call_then_return(s: ExecView, func: FuncDeclView, callee: FrameView)
    requires
        spec_call(s, func) is Ok,
        callee.stack.len() > 0,
    ensures
        ({
            let s2 = spec_call(s, func).unwrap();
            let (s3, out) = spec_finish_frame(ExecView { cur: callee, ..s2 });
            &&& out == StepOutcome::Running
            &&& s3.callers == s.callers
            &&& s3.cur.pc == s.cur.pc + 1
            &&& s3.cur.stack == spec_pop_args(s.cur.stack, func.sig.params).unwrap().1.push(
                callee.stack.last(),
            )
            &&& s3.cur.func == s.cur.func
            &&& s3.cur.locals == s.cur.locals
            &&& s3.cur.controls == s.cur.controls
        }),
{
    let s2 = spec_call(s, func).unwrap();
    assert(s2.callers.drop_last() == s.callers);
}

/// Copying data segments into a memory keeps its size.
pub proof fn lemma_setup_data_keeps_size(datas: Seq<DataView>, mem: Seq<u8>)
    requires
        spec_setup_data(datas, mem) is Ok,
    ensures
        spec_setup_data(datas, mem).unwrap().len() == mem.len(),
    decreases datas.len(),
{
    if datas.len() > 0 {
        lemma_setup_data_keeps_size(datas.drop_last(), mem);
    }
}

/// No step shrinks the memory.
pub proof fn lemma_step_keeps_memory(s: ExecView)
    ensures
        spec_step(s).0.mem.len() >= s.mem.len(),
{
    let f = s.cur;
    if !s.finished && !s.pending && f.started && !(f.returned || f.pc >= f.func.insts.len())
        && f.controls.len() > 0 && !super::func_exec::spec_should_skip(f.controls.last(), f.pc) {
        let i = f.func.insts[f.pc as int];
        match i {
            InstView::Plain(inst) => match inst {
                Instruction::I32Store { memarg } | Instruction::I32Store8 { memarg }
                | Instruction::I32Store16 { memarg } => {
                    let w = super::func_exec::spec_i32_width(inst);
                    if spec_store_i32(f.stack, memarg, w, s.mem) is Ok {
                        let (rest, mem2) = spec_store_i32(f.stack, memarg, w, s.mem).unwrap();
                        let v = f.stack.last()->I32_0;
                        lemma_le_value_of_bytes((v as u32) as nat, w);
                    }
                },
                _ => {},
            },
            _ => {},
        }
    }
}


/// An instruction that traps leaves the module (its globals among them), the
/// linear memory and the waiting callers as they were.
pub proof fn lemma_trap_keeps_module_and_memory(s: ExecView, inst: InstView)
    ensures
        spec_exec_inst(s, inst).1 is Trap ==> {
            let t = spec_exec_inst(s, inst).0;
            t.module == s.module && t.mem == s.mem && t.callers == s.callers
        },
{
}

/// A step that traps leaves the module, the linear memory and the waiting
/// callers as they were.
pub proof fn lemma_step_trap_keeps_module_and_memory(s: ExecView)
    ensures
        spec_step(s).1 is Trap ==> {
            let t = spec_step(s).0;
            t.module == s.module && t.mem == s.mem && t.callers == s.callers
        },
{
    if !s.finished && !s.pending && s.cur.started && !(s.cur.returned || s.cur.pc >= s.cur.func.insts.len())
        && s.cur.controls.len() > 0 && !super::func_exec::spec_should_skip(s.cur.controls.last(), s.cur.pc) {
        lemma_trap_keeps_module_and_memory(s, s.cur.func.insts[s.cur.pc as int]);
    }
}

/// A `call_indirect` whose table slot does not lead to a callee of the
/// expected signature traps with its index popped and nothing else changed.
pub proof fn lemma_call_indirect_trap_pops_index(s: ExecView, type_index: u32, table_index: u32)
    requires
        super::func_exec::pop_i32(s.cur.stack) is Ok,
        super::func_exec::spec_indirect_callee(
            s.module,
            super::func_exec::pop_i32(s.cur.stack)->Ok_0.0,
            type_index,
            table_index,
        ) is Err,
    ensures
        ({
            let (t, out) = spec_exec_inst(s, InstView::Plain(Instruction::CallIndirect { type_index, table_index }));
            &&& out is Trap
            &&& t.cur.stack == s.cur.stack.drop_last()
            &&& t.module == s.module
            &&& t.mem == s.mem
        }),
{
}

/// A step on `select` with the stack `[.., a, b, c]`, `c` an `i32`, keeps
/// `a` when `c` is not zero and `b` when it is, drops the other two values
/// and moves to the next instruction; nothing else changes.
pub proof fn lemma_select_keeps_first_when_true(s: ExecView, rest: Seq<WasmValue>, a: WasmValue, b: WasmValue, c: i32)
    requires
        !s.finished,
        !s.pending,
        s.cur.started,
        !s.cur.returned,
        s.cur.pc < s.cur.func.insts.len(),
        s.cur.controls.len() > 0,
        !super::func_exec::spec_should_skip(s.cur.controls.last(), s.cur.pc),
        s.cur.func.insts[s.cur.pc as int] == InstView::Plain(Instruction::Select),
        s.cur.stack == rest.push(a).push(b).push(WasmValue::I32(c)),
    ensures
        ({
            let (t, out) = spec_step(s);
            &&& out == StepOutcome::Running
            &&& t.cur.stack == rest.push(if c != 0 {
                a
            } else {
                b
            })
            &&& t.cur.pc == s.cur.pc + 1
            &&& t.module == s.module
            &&& t.mem == s.mem
            &&& t.callers == s.callers
        }),
{
    let st = s.cur.stack;
    assert(st.drop_last() == rest.push(a).push(b));
    assert(st.drop_last().drop_last() == rest.push(a));
    assert(st.drop_last().drop_last().drop_last() == rest);
}

/// The linear memory of an instance has exactly the initial number of
/// pages the module declares for its memory, 65536 bytes each, whatever
/// maximum it declares; no memory means no bytes.
pub proof fn lemma_instance_memory_len(m: crate::module::wasm_module::ModuleView)
    requires
        super::interpreter::spec_instance_memory(m) is Ok,
    ensures
        super::interpreter::spec_instance_memory(m).unwrap().len() == if m.mems.len() > 0 {
            m.mems[0].initial * 65536
        } else {
            0
        },
{
    let n = super::interpreter::spec_initial_memory_len(m).unwrap();
    lemma_setup_data_keeps_size(m.datas, Seq::new(n, |i: int| 0u8));
}

/// What the WebAssembly `i32` operators compute, as integers before they are
/// taken modulo 2^32: the sum, difference and product, and 1 or 0 for a
/// comparison that holds or not (unsigned comparisons read both operands
/// as `u32`); `None` for the other operators.
pub open spec fn i32_wasm_value(op: I32Binop, x: i32, y: i32) -> Option<int> {
    let ux = x as u32;
    let uy = y as u32;
    let b = |c: bool| if c { 1int } else { 0int };
    match op {
        I32Binop::Add => Some(x + y),
        I32Binop::Sub => Some(x - y),
        I32Binop::Mul => Some(x * y),
        I32Binop::Eq => Some(b(x == y)),
        I32Binop::Ne => Some(b(x != y)),
        I32Binop::LtS => Some(b(x < y)),
        I32Binop::LtU => Some(b(ux < uy)),
        I32Binop::GtS => Some(b(x > y)),
        I32Binop::GtU => Some(b(ux > uy)),
        I32Binop::LeS => Some(b(x <= y)),
        I32Binop::LeU => Some(b(ux <= uy)),
        I32Binop::GeS => Some(b(x >= y)),
        I32Binop::GeU => Some(b(ux >= uy)),
        _ => None,
    }
}

/// An `i32` arithmetic or comparison operator on the stack `[.., x, y]`
/// replaces the two operands by the operator's value taken modulo 2^32, as
/// an `i32`, and moves to the next instruction.
pub proof fn lemma_i32_binop_value(s: ExecView, op: I32Binop, rest: Seq<WasmValue>, x: i32, y: i32)
    requires
        i32_wasm_value(op, x, y) is Some,
        s.cur.stack == rest.push(WasmValue::I32(x)).push(WasmValue::I32(y)),
    ensures
        ({
            let (t, out) = spec_exec_inst(s, InstView::Plain(Instruction::I32Binop(op)));
            &&& out == StepOutcome::Running
            &&& t.cur.pc == s.cur.pc + 1
            &&& t.cur.stack.len() == rest.len() + 1
            &&& t.cur.stack.drop_last() == rest
            &&& t.cur.stack.last() is I32
            &&& (t.cur.stack.last()->I32_0 - i32_wasm_value(op, x, y)->Some_0) % 0x1_0000_0000 == 0
        }),
{
    let st = s.cur.stack;
    assert(st.drop_last() == rest.push(WasmValue::I32(x)));
    assert(st.drop_last().drop_last() == rest);
    lemma_i32_value_congruent(op, x, y);
}

/// The interpreter's value of an `i32` operator is the WebAssembly value
/// modulo 2^32.
proof fn lemma_i32_value_congruent(op: I32Binop, x: i32, y: i32)
    requires
        i32_wasm_value(op, x, y) is Some,
    ensures
        super::func_exec::spec_i32_binop(op, x, y) is Ok,
        (super::func_exec::spec_i32_binop(op, x, y)->Ok_0 - i32_wasm_value(op, x, y)->Some_0) % 0x1_0000_0000 == 0,
{
    let v = i32_wasm_value(op, x, y)->Some_0;
    let r = super::func_exec::spec_i32_binop(op, x, y)->Ok_0;
    if op == I32Binop::Add {
        if x + y > i32::MAX {
            assert(r - v == -0x1_0000_0000);
            vstd::arithmetic::div_mod::lemma_mod_multiples_basic(-1, 0x1_0000_0000);
        } else if x + y < i32::MIN {
            assert(r - v == 0x1_0000_0000);
            vstd::arithmetic::div_mod::lemma_mod_multiples_basic(1, 0x1_0000_0000);
        }
    } else if op == I32Binop::Mul {
        let p = x as int * y as int;
        let q = p / 0x1_0000_0000;
        vstd::arithmetic::div_mod::lemma_fundamental_div_mod(p, 0x1_0000_0000);
        assert(r as int == p - q * 0x1_0000_0000 || r as int == p - q * 0x1_0000_0000 - 0x1_0000_0000);
        vstd::arithmetic::div_mod::lemma_mod_multiples_basic(-q, 0x1_0000_0000);
        vstd::arithmetic::div_mod::lemma_mod_multiples_basic(-q - 1, 0x1_0000_0000);
    }
    assert((r - v) % 0x1_0000_0000 == 0);
}
} // verus!
