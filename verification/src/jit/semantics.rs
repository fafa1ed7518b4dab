//! What the moves and the integer instructions of the emitted code do to
//! the machine: registers, and spill slots as 8-byte cells below the frame
//! pointer.
use vstd::arithmetic::power2::pow2;
use vstd::prelude::*;

use super::access::effective_address_code;
use super::compiler::{i32_alu, i32_binop_code};
use super::regalloc::register::{Register, X86FpRegister, X86Register, REG_TEMP, REG_TEMP2};
use super::x86::{spec_mov, AluOp, Cond, Label, X86Inst};
use crate::module::insts::I32Binop;

verus! {

/// A machine state: the general registers, the low 64 bits of the SSE
/// registers, memory as 8-byte cells by address, the two operands of the
/// last comparison (a `test` of `a` and `b` sets `a & b` and 0), the
/// address of the table of signature indices and of each table's function
/// indices, and the 4-byte words of memory by address.
pub struct Machine {
    pub gp: spec_fn(X86Register) -> u64,
    pub fp: spec_fn(X86FpRegister) -> u64,
    pub mem: spec_fn(int) -> u64,
    pub flags: (u64, u64),
    pub sig_table: u64,
    pub elem_table: spec_fn(u32) -> u64,
    pub mem32: spec_fn(int) -> u32,
}

/// The address of spill slot `o`: `o` bytes below the frame pointer.
pub open spec fn slot_addr(m: Machine, o: usize) -> int {
    (m.gp)(X86Register::Rbp) as int - o as int
}

/// The value a location holds.
pub open spec fn read_loc(m: Machine, r: Register) -> u64 {
    match r {
        Register::Reg(x) => (m.gp)(x),
        Register::FpReg(x) => (m.fp)(x),
        Register::Stack(o) => (m.mem)(slot_addr(m, o)),
    }
}

/// The machine with `v` written to location `r`.
pub open spec fn write_loc(m: Machine, r: Register, v: u64) -> Machine {
    match r {
        Register::Reg(x) => Machine { gp: |y: X86Register| if y == x { v } else { (m.gp)(y) }, ..m },
        Register::FpReg(x) => Machine { fp: |y: X86FpRegister| if y == x { v } else { (m.fp)(y) }, ..m },
        Register::Stack(o) => {
            let a = slot_addr(m, o);
            Machine { mem: |b: int| if b == a { v } else { (m.mem)(b) }, ..m }
        },
    }
}

/// 2 to the 64th.
pub open spec fn word() -> int {
    0x1_0000_0000_0000_0000
}

/// An ALU operation on 64-bit values, for the operations modelled here;
/// shifts take their count modulo 64, as x86-64 does.
pub open spec fn alu_result(op: AluOp, a: u64, b: u64) -> Option<u64> {
    match op {
        AluOp::Add => Some(((a as int + b as int) % word()) as u64),
        AluOp::Sub => Some(((a as int - b as int) % word()) as u64),
        AluOp::Imul => Some(((a as int * b as int) % word()) as u64),
        AluOp::And => Some(a & b),
        AluOp::Or => Some(a | b),
        AluOp::Xor => Some(a ^ b),
        AluOp::Shl => Some(((a as int * pow2((b % 64) as nat)) % word()) as u64),
        AluOp::Shr => Some((a as int / pow2((b % 64) as nat) as int) as u64),
        AluOp::Sar => Some(((signed(a) / pow2((b % 64) as nat) as int) % word()) as u64),
        _ => None,
    }
}

/// A 64-bit value read as two's complement.
pub open spec fn signed(x: u64) -> int {
    if x >= 0x8000_0000_0000_0000 {
        x as int - word()
    } else {
        x as int
    }
}

/// Whether condition `c` holds after comparing `x` with `y`.
pub open spec fn cond_holds(c: Cond, flags: (u64, u64)) -> bool {
    let (x, y) = flags;
    match c {
        Cond::Equal | Cond::Zero => x == y,
        Cond::NotEqual => x != y,
        Cond::Sign => (x as int - y as int) % word() >= 0x8000_0000_0000_0000,
        Cond::Less => signed(x) < signed(y),
        Cond::Greater => signed(x) > signed(y),
        Cond::LessEqual => signed(x) <= signed(y),
        Cond::GreaterEqual => signed(x) >= signed(y),
        Cond::Below => x < y,
        Cond::Above => x > y,
        Cond::BelowEqual => x <= y,
        Cond::AboveEqual => x >= y,
    }
}

/// The address `base + index * 4`, modulo 2 to the 64th.
pub open spec fn indexed4(base: u64, index: u64) -> int {
    (base as int + index as int * 4) % word()
}

/// The machine after one instruction that does not jump, for the moves,
/// constants, immediate additions and subtractions, the modelled ALU
/// operations, comparisons, `setcc` and the reads of the runtime tables;
/// `None` for any other instruction.
pub open spec fn step_inst(m: Machine, i: X86Inst) -> Option<Machine> {
    match i {
        X86Inst::Compare { a, b } => Some(Machine { flags: ((m.gp)(a), (m.gp)(b)), ..m }),
        X86Inst::CompareImm { a, value } => Some(Machine { flags: ((m.gp)(a), value), ..m }),
        X86Inst::Test { a, b } => Some(Machine { flags: ((m.gp)(a) & (m.gp)(b), 0), ..m }),
        X86Inst::SetCc { cond, dst } => Some(
            write_loc(
                m,
                Register::Reg(dst),
                ((m.gp)(dst) as int / 256 * 256 + if cond_holds(cond, m.flags) {
                    1int
                } else {
                    0int
                }) as u64,
            ),
        ),
        X86Inst::MovSigTable { dst } => Some(write_loc(m, Register::Reg(dst), m.sig_table)),
        X86Inst::MovElemTable { dst, table } => Some(write_loc(m, Register::Reg(dst), (m.elem_table)(table))),
        X86Inst::LoadIndexed32 { dst, base, index } => Some(
            write_loc(m, Register::Reg(dst), (m.mem32)(indexed4((m.gp)(base), (m.gp)(index))) as u64),
        ),
        X86Inst::Mov { dst, src } => Some(write_loc(m, dst, read_loc(m, src))),
        X86Inst::MovImm { dst, value } => Some(write_loc(m, dst, value)),
        X86Inst::AddImm { dst, value } => Some(
            write_loc(m, Register::Reg(dst), (((m.gp)(dst) as int + value as int) % word()) as u64),
        ),
        X86Inst::SubImm { dst, value } => Some(
            write_loc(m, Register::Reg(dst), (((m.gp)(dst) as int - value as int) % word()) as u64),
        ),
        X86Inst::Alu { op, dst, src } => match alu_result(op, (m.gp)(dst), (m.gp)(src)) {
            Some(v) => Some(write_loc(m, Register::Reg(dst), v)),
            None => None,
        },
        _ => None,
    }
}

/// The machine after running `code` from its first instruction to its
/// last, or `None` where it holds an instruction not modelled.
pub open spec fn run(m: Machine, code: Seq<X86Inst>) -> Option<Machine>
    decreases code.len(),
{
    if code.len() == 0 {
        Some(m)
    } else {
        match step_inst(m, code[0]) {
            Some(m1) => run(m1, code.drop_first()),
            None => None,
        }
    }
}

/// Running two pieces of code one after the other is running them joined.
pub proof fn lemma_run_append(m: Machine, c1: Seq<X86Inst>, c2: Seq<X86Inst>)
    ensures
        run(m, c1 + c2) == match run(m, c1) {
            Some(m1) => run(m1, c2),
            None => None,
        },
    decreases c1.len(),
{
    if c1.len() == 0 {
        assert(c1 + c2 =~= c2);
    } else {
        assert((c1 + c2).drop_first() =~= c1.drop_first() + c2);
        assert((c1 + c2)[0] == c1[0]);
        if let Some(m1) = step_inst(m, c1[0]) {
            lemma_run_append(m1, c1.drop_first(), c2);
        }
    }
}

/// Two locations do not share a byte: spill slots are apart when they are
/// at least 8 bytes apart.
pub open spec fn apart(r: Register, s: Register) -> bool {
    match (r, s) {
        (Register::Stack(a), Register::Stack(b)) => a + 8 <= b || b + 8 <= a,
        _ => r != s,
    }
}

/// Writing a location other than the frame pointer leaves every location
/// apart from it as it was.
pub proof fn lemma_write_frame(m: Machine, dst: Register, v: u64, r: Register)
    requires
        dst != Register::Reg(X86Register::Rbp),
        apart(r, dst),
    ensures
        read_loc(write_loc(m, dst, v), r) == read_loc(m, r),
        read_loc(write_loc(m, dst, v), dst) == v,
{
}

/// The code of a move from `src` to `dst` puts the value of `src` in `dst`
/// and leaves every location apart from `dst` as it was, `REG_TEMP` aside
/// when both are spill slots, provided `dst` is not the frame pointer.
pub proof fn lemma_mov_semantics(m: Machine, dst: Register, src: Register, r: Register)
    requires
        dst != Register::Reg(X86Register::Rbp),
    ensures
        run(m, spec_mov(dst, src)) is Some,
        read_loc(run(m, spec_mov(dst, src))->Some_0, dst) == read_loc(m, src),
        run(m, spec_mov(dst, src))->Some_0.flags == m.flags,
        run(m, spec_mov(dst, src))->Some_0.sig_table == m.sig_table,
        run(m, spec_mov(dst, src))->Some_0.elem_table == m.elem_table,
        run(m, spec_mov(dst, src))->Some_0.mem32 == m.mem32,
        apart(r, dst) && (r != Register::Reg(REG_TEMP) || !(dst is Stack && src is Stack)) ==> read_loc(
            run(m, spec_mov(dst, src))->Some_0,
            r,
        ) == read_loc(m, r),
{
    reveal_with_fuel(run, 3);
    if dst == src {
    } else if dst is Stack && src is Stack {
        let t = Register::Reg(REG_TEMP);
        let m1 = write_loc(m, t, read_loc(m, src));
        assert(read_loc(m1, src) == read_loc(m, src));
        let m2 = write_loc(m1, dst, read_loc(m1, t));
        let c = spec_mov(dst, src);
        assert(c.drop_first().drop_first() =~= Seq::<X86Inst>::empty());
        assert(run(m, c) == Some(m2));
        if apart(r, dst) && r != t {
            lemma_write_frame(m1, dst, read_loc(m1, t), r);
            lemma_write_frame(m, t, read_loc(m, src), r);
        }
    } else {
        let c = spec_mov(dst, src);
        assert(c.drop_first() =~= Seq::<X86Inst>::empty());
        if apart(r, dst) {
            lemma_write_frame(m, dst, read_loc(m, src), r);
        }
    }
}

/// The effective-address code leaves in `dst` the value of `base` plus the
/// offset and the width of the access, modulo 2 to the 64th.
pub proof fn lemma_effective_address(m: Machine, dst: X86Register, base: Register, offset: u32, width: u32)
    requires
        dst != X86Register::Rbp,
    ensures
        run(m, effective_address_code(dst, base, offset, width)) is Some,
        (run(m, effective_address_code(dst, base, offset, width))->Some_0.gp)(dst) == ((read_loc(m, base) as int
            + offset + width) % word()) as u64,
{
    let d = Register::Reg(dst);
    lemma_mov_semantics(m, d, base, d);
    let m1 = run(m, spec_mov(d, base))->Some_0;
    let add = seq![X86Inst::AddImm { dst, value: (offset + width) as u64 }];
    reveal_with_fuel(run, 2);
    lemma_run_append(m, spec_mov(d, base), add);
    assert(add.drop_first() =~= Seq::<X86Inst>::empty());
    assert(read_loc(m1, d) == (m1.gp)(dst));
}

/// The locations the code of an `i32` operator may use besides its
/// operands' own: the two scratch registers and the frame pointer.
pub open spec fn operand_ok(r: Register) -> bool {
    r != Register::Reg(REG_TEMP) && r != Register::Reg(REG_TEMP2) && r != Register::Reg(X86Register::Rbp)
}

/// The code of an `i32` addition, subtraction, multiplication, and, or or
/// xor on the operands in `a` and `b` leaves the 64-bit result of the
/// operation on their values in `a`, and every location apart from `a` and
/// the two scratch registers as it was.
pub proof fn lemma_i32_alu_binop(m: Machine, op: I32Binop, a: Register, b: Register, ok: Label, trap: Label, r: Register)
    requires
        i32_alu(op) is Some,
        alu_result(i32_alu(op)->Some_0, read_loc(m, a), read_loc(m, b)) is Some,
        operand_ok(a),
        operand_ok(b),
    ensures
        run(m, i32_binop_code(op, a, b, ok, trap)) is Some,
        read_loc(run(m, i32_binop_code(op, a, b, ok, trap))->Some_0, a) == alu_result(
            i32_alu(op)->Some_0,
            read_loc(m, a),
            read_loc(m, b),
        )->Some_0,
        apart(r, a) && r != Register::Reg(REG_TEMP) && r != Register::Reg(REG_TEMP2) ==> read_loc(
            run(m, i32_binop_code(op, a, b, ok, trap))->Some_0,
            r,
        ) == read_loc(m, r),
{
    let t1 = Register::Reg(REG_TEMP);
    let t2 = Register::Reg(REG_TEMP2);
    let alu = i32_alu(op)->Some_0;
    let c1 = spec_mov(t1, a);
    let c2 = spec_mov(t2, b);
    let c3 = seq![X86Inst::Alu { op: alu, dst: REG_TEMP, src: REG_TEMP2 }];
    let c4 = spec_mov(a, t1);
    assert(i32_binop_code(op, a, b, ok, trap) == c1 + c2 + c3 + c4);
    // first move
    lemma_mov_semantics(m, t1, a, b);
    lemma_mov_semantics(m, t1, a, r);
    let m1 = run(m, c1)->Some_0;
    // second move
    lemma_mov_semantics(m1, t2, b, t1);
    lemma_mov_semantics(m1, t2, b, r);
    let m2 = run(m1, c2)->Some_0;
    lemma_run_append(m, c1, c2);
    // the operation
    let v = alu_result(alu, read_loc(m, a), read_loc(m, b))->Some_0;
    assert(c3.drop_first() =~= Seq::<X86Inst>::empty());
    reveal_with_fuel(run, 2);
    let m3 = write_loc(m2, t1, v);
    assert(run(m2, c3) == Some(m3));
    lemma_run_append(m, c1 + c2, c3);
    if apart(r, t1) {
        lemma_write_frame(m2, t1, v, r);
    }
    // the result back to `a`
    lemma_mov_semantics(m3, a, t1, r);
    lemma_mov_semantics(m3, a, t1, a);
    lemma_run_append(m, c1 + c2 + c3, c4);
}


/// How a piece of code is left: at its end, or by a jump to a label it does
/// not bind.
pub enum Exit {
    End,
    Jump(Label),
}

/// The first position from `k` on at which `code` binds `l`.
pub open spec fn label_pos(code: Seq<X86Inst>, l: Label, k: int) -> Option<int>
    decreases code.len() - k,
{
    if k < 0 || k >= code.len() {
        None
    } else if code[k] == (X86Inst::Bind { label: l }) {
        Some(k)
    } else {
        label_pos(code, l, k + 1)
    }
}

/// Running `code` from position `pc` with at most `fuel` instructions: the
/// machine and how the code is left; `None` where the fuel runs out or an
/// instruction is not modelled. A jump goes to the first position binding
/// its label, or leaves the code where no position does.
pub open spec fn exec_code(m: Machine, code: Seq<X86Inst>, pc: int, fuel: nat) -> Option<(Machine, Exit)>
    decreases fuel,
{
    if fuel == 0 {
        None
    } else if pc < 0 || pc >= code.len() {
        Some((m, Exit::End))
    } else {
        match code[pc] {
            X86Inst::Bind { .. } => exec_code(m, code, pc + 1, (fuel - 1) as nat),
            X86Inst::Jmp { target } => match label_pos(code, target, 0) {
                Some(p) => exec_code(m, code, p, (fuel - 1) as nat),
                None => Some((m, Exit::Jump(target))),
            },
            X86Inst::Jcc { cond, target } => if cond_holds(cond, m.flags) {
                match label_pos(code, target, 0) {
                    Some(p) => exec_code(m, code, p, (fuel - 1) as nat),
                    None => Some((m, Exit::Jump(target))),
                }
            } else {
                exec_code(m, code, pc + 1, (fuel - 1) as nat)
            },
            i => match step_inst(m, i) {
                Some(m1) => exec_code(m1, code, pc + 1, (fuel - 1) as nat),
                None => None,
            },
        }
    }
}

/// Code with no label and no jump.
pub open spec fn straight(c: Seq<X86Inst>) -> bool {
    forall|i: int| 0 <= i < c.len() ==> !(#[trigger] c[i] is Bind) && !(c[i] is Jmp) && !(c[i] is Jcc)
}

proof fn lemma_mov_straight(dst: Register, src: Register)
    ensures
        straight(spec_mov(dst, src)),
{
}

/// Running a straight piece `c` inside `code` is running it on its own.
proof fn lemma_exec_straight(m: Machine, code: Seq<X86Inst>, p: int, c: Seq<X86Inst>, fuel: nat)
    requires
        straight(c),
        run(m, c) is Some,
        0 <= p,
        p + c.len() <= code.len(),
        code.subrange(p, p + c.len()) == c,
    ensures
        exec_code(m, code, p, fuel + c.len()) == exec_code(run(m, c)->Some_0, code, p + c.len(), fuel),
    decreases c.len(),
{
    if c.len() > 0 {
        assert(code[p] == c[0]);
        let m1 = step_inst(m, c[0])->Some_0;
        assert(code.subrange(p + 1, p + c.len()) == c.drop_first());
        lemma_exec_straight(m1, code, p + 1, c.drop_first(), fuel);
        assert((fuel + c.len()) as nat - 1 == fuel + c.drop_first().len());
    }
}

/// `code` binds `l` first at `p`.
proof fn lemma_label_at(code: Seq<X86Inst>, l: Label, p: int, k: int)
    requires
        0 <= k <= p < code.len(),
        code[p] == (X86Inst::Bind { label: l }),
        forall|i: int| k <= i < p ==> code[i] != (X86Inst::Bind { label: l }),
    ensures
        label_pos(code, l, k) == Some(p),
    decreases p - k,
{
    if k < p {
        lemma_label_at(code, l, p, k + 1);
    }
}

/// `code` does not bind `l` from `k` on.
proof fn lemma_label_absent(code: Seq<X86Inst>, l: Label, k: int)
    requires
        0 <= k,
        forall|i: int| k <= i < code.len() ==> code[i] != (X86Inst::Bind { label: l }),
    ensures
        label_pos(code, l, k) is None,
    decreases code.len() - k,
{
    if k < code.len() {
        lemma_label_absent(code, l, k + 1);
    }
}

/// The code of an `if` on the value `v` of `cond`, with an `else` label
/// other than its start label, jumps to the `else` label when `v` is zero
/// and otherwise runs on into the `then` arm; without an `else`, it jumps
/// to `end` whatever `v` is.
pub proof fn lemma_if_branches(m: Machine, start: Label, cond: Register, else_label: Option<Label>, end: Label)
    requires
        match else_label {
            Some(l) => l != start,
            None => end != start,
        },
    ensures
        ({
            let code = super::control::if_code(start, cond, else_label, end);
            let r = exec_code(m, code, 0, code.len() + 1);
            let v = read_loc(m, cond);
            &&& r is Some
            &&& r->Some_0.1 == match else_label {
                Some(l) => if v == 0 {
                    Exit::Jump(l)
                } else {
                    Exit::End
                },
                None => Exit::Jump(end),
            }
        }),
{
    let t = Register::Reg(REG_TEMP);
    let mv = spec_mov(t, cond);
    let k = mv.len() as int;
    let last = match else_label {
        Some(l) => X86Inst::Jcc { cond: Cond::Zero, target: l },
        None => X86Inst::Jmp { target: end },
    };
    let code = super::control::if_code(start, cond, else_label, end);
    assert(code == seq![X86Inst::Bind { label: start }] + mv + seq![X86Inst::CompareImm { a: REG_TEMP, value: 0 }] + seq![last]);
    let n = code.len() as int;
    assert(n == k + 3);
    lemma_mov_straight(t, cond);
    lemma_mov_semantics(m, t, cond, t);
    let m1 = run(m, mv)->Some_0;
    assert(code.subrange(1, 1 + k) == mv);
    lemma_exec_straight(m, code, 1, mv, 3);
    assert(exec_code(m, code, 0, (n + 1) as nat) == exec_code(m, code, 1, n as nat));
    let m2 = Machine { flags: ((m1.gp)(REG_TEMP), 0u64), ..m1 };
    assert(read_loc(m1, t) == (m1.gp)(REG_TEMP));
    assert(exec_code(m1, code, 1 + k, 3) == exec_code(m2, code, 2 + k, 2));
    assert(code[2 + k] == last);
    match else_label {
        Some(l) => {
            assert forall|i: int| 0 <= i < n implies code[i] != (X86Inst::Bind { label: l }) by {
                if 1 <= i < 1 + k {
                    assert(code[i] == mv[i - 1]);
                }
            }
            lemma_label_absent(code, l, 0);
            if read_loc(m, cond) == 0 {
                assert(exec_code(m2, code, 2 + k, 2) == Some((m2, Exit::Jump(l))));
            } else {
                assert(exec_code(m2, code, 2 + k, 2) == exec_code(m2, code, 3 + k, 1));
                assert(exec_code(m2, code, 3 + k, 1) == Some((m2, Exit::End)));
            }
        },
        None => {
            assert forall|i: int| 0 <= i < n implies code[i] != (X86Inst::Bind { label: end }) by {
                if 1 <= i < 1 + k {
                    assert(code[i] == mv[i - 1]);
                }
            }
            lemma_label_absent(code, end, 0);
            assert(exec_code(m2, code, 2 + k, 2) == Some((m2, Exit::Jump(end))));
        },
    }
}

/// The code of `select` leaves in `dst` the value of `a` where `cond` holds
/// a value other than zero and the value of `b` otherwise, and runs to its
/// end; `a` and `b` must not be `REG_TEMP`, which holds the condition, and
/// the two labels must differ.
pub proof fn lemma_select_semantics(m: Machine, dst: Register, cond: Register, a: Register, b: Register, z: Label, e: Label)
    requires
        z != e,
        dst != Register::Reg(X86Register::Rbp),
        a != Register::Reg(REG_TEMP),
        b != Register::Reg(REG_TEMP),
    ensures
        ({
            let code = super::compiler::select_code(dst, cond, a, b, z, e);
            let r = exec_code(m, code, 0, code.len() + 1);
            &&& r is Some
            &&& r->Some_0.1 == Exit::End
            &&& read_loc(r->Some_0.0, dst) == if read_loc(m, cond) != 0 {
                read_loc(m, a)
            } else {
                read_loc(m, b)
            }
        }),
{
    let t = Register::Reg(REG_TEMP);
    let c1 = spec_mov(t, cond);
    let c2 = spec_mov(dst, a);
    let c3 = spec_mov(dst, b);
    let k1 = c1.len() as int;
    let k2 = c2.len() as int;
    let k3 = c3.len() as int;
    let code = super::compiler::select_code(dst, cond, a, b, z, e);
    let mid = seq![X86Inst::CompareImm { a: REG_TEMP, value: 0 }, X86Inst::Jcc { cond: Cond::Equal, target: z }];
    let mid2 = seq![X86Inst::Jmp { target: e }, X86Inst::Bind { label: z }];
    assert(code == c1 + mid + c2 + mid2 + c3 + seq![X86Inst::Bind { label: e }]);
    let n = code.len() as int;
    assert(n == k1 + k2 + k3 + 5);
    lemma_mov_straight(t, cond);
    lemma_mov_straight(dst, a);
    lemma_mov_straight(dst, b);
    let pz = k1 + 2 + k2 + 1;
    let pe = n - 1;
    assert forall|i: int| 0 <= i < pz implies code[i] != (X86Inst::Bind { label: z }) by {
        if 0 <= i < k1 {
            assert(code[i] == c1[i]);
        } else if k1 + 2 <= i < k1 + 2 + k2 {
            assert(code[i] == c2[i - k1 - 2]);
        }
    }
    lemma_label_at(code, z, pz, 0);
    assert forall|i: int| 0 <= i < pe implies code[i] != (X86Inst::Bind { label: e }) by {
        if 0 <= i < k1 {
            assert(code[i] == c1[i]);
        } else if k1 + 2 <= i < k1 + 2 + k2 {
            assert(code[i] == c2[i - k1 - 2]);
        } else if pz + 1 <= i < pz + 1 + k3 {
            assert(code[i] == c3[i - pz - 1]);
        }
    }
    lemma_label_at(code, e, pe, 0);
    // the condition into `REG_TEMP`
    lemma_mov_semantics(m, t, cond, t);
    lemma_mov_semantics(m, t, cond, a);
    lemma_mov_semantics(m, t, cond, b);
    let m1 = run(m, c1)->Some_0;
    assert(code.subrange(0, k1) == c1);
    lemma_exec_straight(m, code, 0, c1, (n + 1 - k1) as nat);
    let v = read_loc(m, cond);
    assert((m1.gp)(REG_TEMP) == v);
    let m2 = Machine { flags: (v, 0u64), ..m1 };
    assert(code[k1] == mid[0]);
    assert(code[k1 + 1] == mid[1]);
    assert(exec_code(m1, code, k1, (n + 1 - k1) as nat) == exec_code(m2, code, k1 + 1, (n - k1) as nat));
    assert(code[pe] == (X86Inst::Bind { label: e }));
    if v != 0 {
        assert(exec_code(m2, code, k1 + 1, (n - k1) as nat) == exec_code(m2, code, k1 + 2, (n - k1 - 1) as nat));
        lemma_mov_semantics(m2, dst, a, dst);
        assert(read_loc(m2, a) == read_loc(m, a));
        assert(code.subrange(k1 + 2, k1 + 2 + k2) == c2);
        lemma_exec_straight(m2, code, k1 + 2, c2, (n - k1 - 1 - k2) as nat);
        let m3 = run(m2, c2)->Some_0;
        assert(code[k1 + 2 + k2] == mid2[0]);
        assert(exec_code(m3, code, k1 + 2 + k2, (n - k1 - 1 - k2) as nat) == exec_code(m3, code, pe, (n - k1 - 2 - k2) as nat));
        assert(exec_code(m3, code, pe, (n - k1 - 2 - k2) as nat) == exec_code(m3, code, pe + 1, (n - k1 - 3 - k2) as nat));
    } else {
        assert(exec_code(m2, code, k1 + 1, (n - k1) as nat) == exec_code(m2, code, pz, (n - k1 - 1) as nat));
        assert(code[pz] == (X86Inst::Bind { label: z }));
        assert(exec_code(m2, code, pz, (n - k1 - 1) as nat) == exec_code(m2, code, pz + 1, (n - k1 - 2) as nat));
        lemma_mov_semantics(m2, dst, b, dst);
        assert(read_loc(m2, b) == read_loc(m, b));
        assert(code.subrange(pz + 1, pz + 1 + k3) == c3);
        lemma_exec_straight(m2, code, pz + 1, c3, (n - k1 - 2 - k3) as nat);
        let m3 = run(m2, c3)->Some_0;
        assert(pz + 1 + k3 == pe);
        assert(exec_code(m3, code, pe, (n - k1 - 2 - k3) as nat) == exec_code(m3, code, pe + 1, (n - k1 - 3 - k3) as nat));
    }
}


/// Whether the checks of an indirect call on the table slot `v` trap: a
/// slot at or past `size` or negative, read as two's complement, or a
/// signature index other than `ti` at the slot's place in the table of
/// signature indices.
pub open spec fn call_indirect_traps(m: Machine, v: u64, size: usize, ti: u32) -> bool {
    signed(v) >= signed(size as u64) || signed(v) < 0 || (m.mem32)(indexed4(m.sig_table, v)) as u64 != ti as u64
}

/// The code of the checks of an indirect call on the slot in `callee`
/// jumps to `trap` exactly when `call_indirect_traps` holds, and otherwise
/// runs to its end with the function index at the slot's place in table
/// `t` in `REG_TEMP`.
pub proof fn lemma_call_indirect_checks(m: Machine, callee: Register, trap: Label, size: usize, ti: u32, t: u32)
    ensures
        ({
            let code = spec_mov(Register::Reg(REG_TEMP2), callee) + super::control::call_indirect_checks(trap, size, ti, t);
            let r = exec_code(m, code, 0, code.len() + 1);
            let v = read_loc(m, callee);
            &&& r is Some
            &&& r->Some_0.1 == if call_indirect_traps(m, v, size, ti) {
                Exit::Jump(trap)
            } else {
                Exit::End
            }
            &&& !call_indirect_traps(m, v, size, ti) ==> (r->Some_0.0.gp)(REG_TEMP) == (m.mem32)(
                indexed4((m.elem_table)(t), v),
            ) as u64
        }),
{
    let t2 = Register::Reg(REG_TEMP2);
    let mv = spec_mov(t2, callee);
    let checks = super::control::call_indirect_checks(trap, size, ti, t);
    let code = mv + checks;
    let k = mv.len() as int;
    let n = code.len() as int;
    assert(n == k + 10);
    lemma_mov_straight(t2, callee);
    lemma_mov_semantics(m, t2, callee, t2);
    let v = read_loc(m, callee);
    let m1 = run(m, mv)->Some_0;
    assert((m1.gp)(REG_TEMP2) == v);
    assert(code.subrange(0, k) == mv);
    lemma_exec_straight(m, code, 0, mv, 11);
    assert forall|i: int| 0 <= i < n implies code[i] != (X86Inst::Bind { label: trap }) by {
        if i < k {
            assert(code[i] == mv[i]);
        } else {
            assert(code[i] == checks[i - k]);
        }
    }
    lemma_label_absent(code, trap, 0);
    assert forall|i: int| 0 <= i < 10 implies code[k + i] == checks[i] by {}
    let m2 = Machine { flags: (v, size as u64), ..m1 };
    assert(exec_code(m1, code, k, 11) == exec_code(m2, code, k + 1, 10));
    if signed(v) >= signed(size as u64) {
        assert(exec_code(m2, code, k + 1, 10) == Some((m2, Exit::Jump(trap))));
        return;
    }
    assert(exec_code(m2, code, k + 1, 10) == exec_code(m2, code, k + 2, 9));
    let m3 = Machine { flags: (v, 0u64), ..m2 };
    assert(exec_code(m2, code, k + 2, 9) == exec_code(m3, code, k + 3, 8));
    assert(cond_holds(Cond::Sign, m3.flags) == (signed(v) < 0));
    if signed(v) < 0 {
        assert(exec_code(m3, code, k + 3, 8) == Some((m3, Exit::Jump(trap))));
        return;
    }
    assert(exec_code(m3, code, k + 3, 8) == exec_code(m3, code, k + 4, 7));
    let m4 = write_loc(m3, Register::Reg(REG_TEMP), m3.sig_table);
    assert(exec_code(m3, code, k + 4, 7) == exec_code(m4, code, k + 5, 6));
    assert((m4.gp)(REG_TEMP2) == v);
    let sig = (m.mem32)(indexed4(m.sig_table, v));
    let m5 = write_loc(m4, Register::Reg(REG_TEMP), sig as u64);
    assert(exec_code(m4, code, k + 5, 6) == exec_code(m5, code, k + 6, 5));
    let m6 = Machine { flags: (sig as u64, ti as u64), ..m5 };
    assert(exec_code(m5, code, k + 6, 5) == exec_code(m6, code, k + 7, 4));
    if sig as u64 != ti as u64 {
        assert(exec_code(m6, code, k + 7, 4) == Some((m6, Exit::Jump(trap))));
        return;
    }
    assert(exec_code(m6, code, k + 7, 4) == exec_code(m6, code, k + 8, 3));
    let m7 = write_loc(m6, Register::Reg(REG_TEMP), (m.elem_table)(t));
    assert(exec_code(m6, code, k + 8, 3) == exec_code(m7, code, k + 9, 2));
    assert((m7.gp)(REG_TEMP2) == v);
    let m8 = write_loc(m7, Register::Reg(REG_TEMP), (m.mem32)(indexed4((m.elem_table)(t), v)) as u64);
    assert(exec_code(m7, code, k + 9, 2) == exec_code(m8, code, k + 10, 1));
    assert(exec_code(m8, code, k + 10, 1) == Some((m8, Exit::End)));
}


/// What the WebAssembly arithmetic, bitwise and shift `i32` operators
/// compute on the 64-bit values of their operands: the sum, the difference
/// and the product modulo 2 to the 64th, the bitwise and, or and xor, and
/// the shifts left, logical right and arithmetic right by the second
/// operand modulo 64 (the count x86-64 takes); `None` for the other
/// operators.
pub open spec fn i32_arith_value(op: I32Binop, x: u64, y: u64) -> Option<u64> {
    match op {
        I32Binop::Add => Some(((x as int + y as int) % word()) as u64),
        I32Binop::Sub => Some(((x as int - y as int) % word()) as u64),
        I32Binop::Mul => Some(((x as int * y as int) % word()) as u64),
        I32Binop::And => Some(x & y),
        I32Binop::Or => Some(x | y),
        I32Binop::Xor => Some(x ^ y),
        I32Binop::Shl => Some(((x as int * pow2((y % 64) as nat)) % word()) as u64),
        I32Binop::ShrU => Some((x as int / pow2((y % 64) as nat) as int) as u64),
        I32Binop::ShrS => Some(((signed(x) / pow2((y % 64) as nat) as int) % word()) as u64),
        _ => None,
    }
}

/// The code of an arithmetic, bitwise or shift `i32` operator leaves in
/// `a` the operator's result on the values of `a` and `b`.
pub proof fn lemma_i32_arith_code(m: Machine, op: I32Binop, a: Register, b: Register, ok: Label, trap: Label)
    requires
        i32_arith_value(op, read_loc(m, a), read_loc(m, b)) is Some,
        operand_ok(a),
        operand_ok(b),
    ensures
        run(m, i32_binop_code(op, a, b, ok, trap)) is Some,
        read_loc(run(m, i32_binop_code(op, a, b, ok, trap))->Some_0, a) == i32_arith_value(
            op,
            read_loc(m, a),
            read_loc(m, b),
        )->Some_0,
{
    lemma_i32_alu_binop(m, op, a, b, ok, trap, a);
}

/// An `i32` held in a 64-bit register, sign-extended.
pub open spec fn sext(x: i32) -> u64 {
    if x < 0 {
        (x + word()) as u64
    } else {
        x as u64
    }
}

/// An `i32` read as unsigned.
pub open spec fn unsigned32(x: i32) -> int {
    if x < 0 {
        x + 0x1_0000_0000
    } else {
        x as int
    }
}

/// Whether the WebAssembly `i32` comparison `op` holds of `x` and `y`;
/// `None` for the operators that do not compare.
pub open spec fn i32_compare_value(op: I32Binop, x: i32, y: i32) -> Option<bool> {
    match op {
        I32Binop::Eq => Some(x == y),
        I32Binop::Ne => Some(x != y),
        I32Binop::LtS => Some(x < y),
        I32Binop::LtU => Some(unsigned32(x) < unsigned32(y)),
        I32Binop::GtS => Some(x > y),
        I32Binop::GtU => Some(unsigned32(x) > unsigned32(y)),
        I32Binop::LeS => Some(x <= y),
        I32Binop::LeU => Some(unsigned32(x) <= unsigned32(y)),
        I32Binop::GeS => Some(x >= y),
        I32Binop::GeU => Some(unsigned32(x) >= unsigned32(y)),
        _ => None,
    }
}

/// The flags of comparing two sign-extended `i32`s decide each condition
/// the way the comparison of the `i32`s does.
proof fn lemma_cond_on_i32(op: I32Binop, x: i32, y: i32)
    requires
        i32_compare_value(op, x, y) is Some,
        super::compiler::i32_cond(op) is Some,
    ensures
        cond_holds(super::compiler::i32_cond(op)->Some_0, (sext(x), sext(y))) == i32_compare_value(op, x, y)->Some_0,
{
    let xx = sext(x) as int;
    let yy = sext(y) as int;
    assert(signed(sext(x)) == x);
    assert(signed(sext(y)) == y);
    if x < 0 && y >= 0 {
        assert((xx - yy) % word() == xx - yy);
    } else if x >= 0 && y < 0 {
        assert((xx - yy) % word() == xx - yy + word());
    } else if x < y {
        assert((xx - yy) % word() == xx - yy + word());
    } else {
        assert((xx - yy) % word() == xx - yy);
    }
}

/// The code of an `i32` comparison on sign-extended `i32`s `x` in `a` and
/// `y` in `b` leaves in `a` 1 where the WebAssembly comparison holds and 0
/// where it does not.
pub proof fn lemma_i32_compare_code(m: Machine, op: I32Binop, a: Register, b: Register, ok: Label, trap: Label, x: i32, y: i32)
    requires
        i32_compare_value(op, x, y) is Some,
        read_loc(m, a) == sext(x),
        read_loc(m, b) == sext(y),
        operand_ok(a),
        operand_ok(b),
    ensures
        run(m, i32_binop_code(op, a, b, ok, trap)) is Some,
        read_loc(run(m, i32_binop_code(op, a, b, ok, trap))->Some_0, a) == if i32_compare_value(op, x, y)->Some_0 {
            1u64
        } else {
            0u64
        },
{
    let t1 = Register::Reg(REG_TEMP);
    let t2 = Register::Reg(REG_TEMP2);
    let c = super::compiler::i32_cond(op)->Some_0;
    let c1 = spec_mov(t1, a);
    let c2 = spec_mov(t2, b);
    let c3 = super::compiler::compare_code(c);
    let c4 = spec_mov(a, t1);
    assert(i32_binop_code(op, a, b, ok, trap) == c1 + c2 + c3 + c4);
    lemma_mov_semantics(m, t1, a, b);
    let m1 = run(m, c1)->Some_0;
    lemma_mov_semantics(m1, t2, b, t1);
    let m2 = run(m1, c2)->Some_0;
    lemma_run_append(m, c1, c2);
    assert((m2.gp)(REG_TEMP) == sext(x));
    assert((m2.gp)(REG_TEMP2) == sext(y));
    let m3 = Machine { flags: (sext(x), sext(y)), ..m2 };
    let m4 = write_loc(m3, t1, 0);
    let bit = if cond_holds(c, m4.flags) {
        1int
    } else {
        0int
    };
    let m5 = write_loc(m4, t1, ((m4.gp)(REG_TEMP) as int / 256 * 256 + bit) as u64);
    reveal_with_fuel(run, 4);
    assert(c3.drop_first().drop_first().drop_first() =~= Seq::<X86Inst>::empty());
    assert(run(m2, c3) == Some(m5));
    lemma_run_append(m, c1 + c2, c3);
    lemma_cond_on_i32(op, x, y);
    assert((m5.gp)(REG_TEMP) == if i32_compare_value(op, x, y)->Some_0 {
        1u64
    } else {
        0u64
    });
    lemma_mov_semantics(m5, a, t1, a);
    lemma_run_append(m, c1 + c2 + c3, c4);
}
} // verus!
