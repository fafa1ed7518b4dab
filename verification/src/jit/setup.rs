//! Setting up what compiled code runs with: the trap handler's entry, the
//! tables, the globals and the entry point that calls `main`.
use vstd::prelude::*;

use super::compiler::{appended, jit_value_type, CompilerView, X86JitCompiler};
use super::emit::outcome;
use super::function::spec_compile_funcs;
use super::mem::init_size_code;
use super::regalloc::register::{argument_registers, Register, X86Register, REG_TEMP, REG_TEMP_FP};
use super::x86::{spec_mov_rawvalue, Label, X86Inst};
use super::{JitError, ValueType};
use crate::module::components::{Element, ElementItems, ElementKind, ElementKindView, ElementView};
use crate::module::reader::{read_var_i32_at, spec_read_var_i32};
use crate::module::value_type::{ValType, WasmValue};
use crate::module::wasm_module::spec_main_index;
use crate::module::wasmops::WASM_OP_I32_CONST;
use crate::vm::func_exec::{global_value, spec_global_value, ExecError};

verus! {

/// The entry of the trap handler: a store to address zero, which faults.
pub open spec fn trap_entry_code(trap: Label) -> Seq<X86Inst> {
    seq![
        X86Inst::Bind { label: trap },
        X86Inst::MovImm { dst: Register::Reg(X86Register::Rax), value: 0 },
        X86Inst::StoreImm { base: X86Register::Rax, disp: 0, value: 1 },
    ]
}

/// How a global's value is kept in its cell: an `i32` sign-extended, an
/// `f64` as its bits.
pub open spec fn value_bits(v: WasmValue) -> u64 {
    match v {
        WasmValue::I32(x) => #[verifier::truncate] (x as u64),
        WasmValue::F64(b) => b,
    }
}

/// The error of the JIT for an initializer the interpreter rejects.
pub open spec fn init_error(e: ExecError) -> JitError {
    match e {
        ExecError::InvalidInitExpr => JitError::InvalidInitExpr,
        ExecError::MalformedInitExpr => JitError::MalformedInitExpr,
        _ => JitError::Unsupported,
    }
}

/// The code generator after setting the first `n` globals from their
/// initializers, or why one cannot be set.
pub open spec fn globals_fold(s: CompilerView, n: nat) -> Result<CompilerView, JitError>
    decreases n,
{
    if n == 0 {
        Ok(s)
    } else {
        match globals_fold(s, (n - 1) as nat) {
            Err(e) => Err(e),
            Ok(s1) => {
                let g = s.module.globals[n - 1];
                match spec_global_value(g) {
                    Err(e) => Err(init_error(e)),
                    Ok(v) => Ok(CompilerView {
                        globals: s1.globals.update(n - 1, value_bits(v)),
                        global_types: s1.global_types.update(n - 1, jit_value_type(g.ty.content_type)),
                        ..s1
                    }),
                }
            },
        }
    }
}

/// The table an active element segment is placed in: the one it names, or
/// the value of its offset expression, an `i32.const`, where it names none.
pub open spec fn elem_table_index(e: ElementView) -> Result<u32, JitError> {
    match e.kind {
        ElementKindView::Active { table_index: Some(t), .. } => Ok(t),
        ElementKindView::Active { table_index: None, offset_expr } => if offset_expr.len() == 0 {
            Err(JitError::MalformedInitExpr)
        } else if offset_expr[0] as u32 != WASM_OP_I32_CONST {
            Err(JitError::InvalidInitExpr)
        } else {
            match spec_read_var_i32(offset_expr.skip(1)) {
                Some((v, _)) => Ok(#[verifier::truncate] (v as u32)),
                None => Err(JitError::MalformedInitExpr),
            }
        },
        _ => Err(JitError::Unsupported),
    }
}

/// The tables after placing element segment `e`: its functions are
/// appended to its table.
pub open spec fn place_elem(tables: Seq<Seq<u32>>, e: ElementView) -> Result<Seq<Seq<u32>>, JitError> {
    match elem_table_index(e) {
        Err(err) => Err(err),
        Ok(t) => match e.funcs {
            None => Err(JitError::Unsupported),
            Some(fs) => if fs.len() == 0 {
                Ok(tables)
            } else if t >= tables.len() {
                Err(JitError::TableNotFound)
            } else {
                Ok(tables.update(t as int, tables[t as int] + fs))
            },
        },
    }
}

/// The tables after placing the first `n` element segments.
pub open spec fn tables_fold(tables: Seq<Seq<u32>>, elems: Seq<ElementView>, n: nat) -> Result<Seq<Seq<u32>>, JitError>
    decreases n,
{
    if n == 0 {
        Ok(tables)
    } else {
        match tables_fold(tables, elems, (n - 1) as nat) {
            Err(e) => Err(e),
            Ok(t) => place_elem(t, elems[n - 1]),
        }
    }
}

/// The code generator after placing every element segment and recording
/// each table's size.
pub open spec fn spec_setup_tables(s: CompilerView) -> Result<CompilerView, JitError> {
    match tables_fold(s.tables, s.module.elems, s.module.elems.len()) {
        Err(e) => Err(e),
        Ok(t) => Ok(CompilerView { tables: t, table_len: Seq::new(t.len(), |i: int| t[i].len() as usize), ..s }),
    }
}

/// The bits of a parameter of `main`.
pub open spec fn param_bits(p: WasmValue) -> u64 {
    value_bits(p)
}

/// Passing parameter `i` of `main`: the first six in the argument registers,
/// the others pushed on the machine stack. An `f64` pushed on the stack is
/// loaded into `REG_TEMP_FP`, and the general register of the same number
/// is pushed.
pub open spec fn main_param_code(i: nat, p: WasmValue) -> Seq<X86Inst> {
    if i < 6 {
        spec_mov_rawvalue(param_bits(p), Register::Reg(argument_registers()[i as int]))
    } else {
        match p {
            WasmValue::I32(_) => spec_mov_rawvalue(param_bits(p), Register::Reg(REG_TEMP)) + seq![
                X86Inst::Push { src: REG_TEMP },
            ],
            WasmValue::F64(_) => spec_mov_rawvalue(param_bits(p), Register::FpReg(REG_TEMP_FP)) + seq![
                X86Inst::Push { src: X86Register::R14 },
            ],
        }
    }
}

/// Passing the first `n` parameters of `main`.
pub open spec fn main_params_code(ps: Seq<WasmValue>, n: nat) -> Seq<X86Inst>
    decreases n,
{
    if n == 0 {
        Seq::empty()
    } else {
        main_params_code(ps, (n - 1) as nat) + main_param_code((n - 1) as nat, ps[n - 1])
    }
}

/// The entry point at `entry`: the linear memory is set up with `bytes`
/// bytes, the parameters passed and `main` entered.
pub open spec fn vm_entry_code(entry: Label, bytes: u64, ps: Seq<WasmValue>, main: Label) -> Seq<X86Inst> {
    seq![X86Inst::Bind { label: entry }] + init_size_code(bytes) + main_params_code(ps, ps.len()) + seq![
        X86Inst::Jmp { target: main },
    ]
}

/// The sizes the setup needs: a cell and a type per global, a size per table.
pub open spec fn runtime_sized(s: CompilerView) -> bool {
    &&& s.globals.len() == s.module.globals.len()
    &&& s.global_types.len() == s.module.globals.len()
    &&& s.table_len.len() == s.tables.len()
}

/// The initial size of the linear memory in bytes, if it fits in 64 bits.
pub open spec fn initial_mem_bytes(s: CompilerView) -> Option<u64> {
    if s.module.mems.len() == 0 {
        Some(0)
    } else if s.module.mems[0].initial * 65536 <= u64::MAX {
        Some((s.module.mems[0].initial * 65536) as u64)
    } else {
        None
    }
}

/// The code generator after the whole setup, and the entry label; or why
/// it cannot be set up.
pub open spec fn spec_setup_runtime(s: CompilerView, ps: Seq<WasmValue>) -> Result<(CompilerView, Label), JitError> {
    let s1 = appended(s, trap_entry_code(s.trap_label));
    match spec_setup_tables(s1) {
        Err(e) => Err(e),
        Ok(s2) => match globals_fold(s2, s2.module.globals.len()) {
            Err(e) => Err(e),
            Ok(s3) => match spec_main_index(s3.module.exports) {
                None => Err(JitError::MainNotFound),
                Some(main) => if main >= s3.func_labels.len() {
                    Err(JitError::MissingLabel)
                } else {
                    match initial_mem_bytes(s3) {
                        None => Err(JitError::MemoryTooLarge),
                        Some(bytes) => if s3.next_label >= u32::MAX {
                            Err(JitError::OutOfLabels)
                        } else {
                            let entry = Label(s3.next_label as u32);
                            Ok((
                                appended(
                                    CompilerView { next_label: s3.next_label + 1, ..s3 },
                                    vm_entry_code(entry, bytes, ps, s3.func_labels[main as int]),
                                ),
                                entry,
                            ))
                        },
                    }
                },
            },
        },
    }
}

/// The code generator after setting up the runtime and compiling every
/// function, and the entry label; or why that fails.
pub open spec fn spec_compile(s: CompilerView, ps: Seq<WasmValue>) -> Result<(CompilerView, Label), JitError> {
    match spec_setup_runtime(s, ps) {
        Err(e) => Err(e),
        Ok((s1, entry)) => match spec_compile_funcs(s1, s1.module.funcs.len()) {
            Err(e) => Err(e),
            Ok(s2) => Ok((s2, entry)),
        },
    }
}

proof fn lemma_globals_err_stays(s: CompilerView, m: nat, n: nat)
    requires
        m <= n,
        globals_fold(s, m) is Err,
    ensures
        globals_fold(s, n) == globals_fold(s, m),
    decreases n - m,
{
    if m < n {
        lemma_globals_err_stays(s, m, (n - 1) as nat);
    }
}

proof fn lemma_tables_err_stays(t: Seq<Seq<u32>>, elems: Seq<ElementView>, m: nat, n: nat)
    requires
        m <= n,
        tables_fold(t, elems, m) is Err,
    ensures
        tables_fold(t, elems, n) == tables_fold(t, elems, m),
    decreases n - m,
{
    if m < n {
        lemma_tables_err_stays(t, elems, m, (n - 1) as nat);
    }
}

/// Setting globals keeps the number of cells and types.
proof fn lemma_globals_fold_sizes(s: CompilerView, n: nat)
    requires
        runtime_sized(s),
        n <= s.module.globals.len(),
    ensures
        match globals_fold(s, n) {
            Ok(s1) => s1.globals.len() == s.globals.len() && s1.global_types.len() == s.global_types.len()
                && s1.module == s.module,
            Err(_) => true,
        },
    decreases n,
{
    if n > 0 {
        lemma_globals_fold_sizes(s, (n - 1) as nat);
    }
}


/// The table element segment `e` is placed in.
fn elem_table_index_exec(e: &Element) -> (res: Result<u32, JitError>)
    ensures
        res == elem_table_index(e@),
{
    match &e.kind {
        ElementKind::Active { table_index: Some(t), .. } => Ok(*t),
        ElementKind::Active { table_index: None, offset_expr } => {
            if offset_expr.len() == 0 {
                return Err(JitError::MalformedInitExpr);
            }
            if offset_expr[0] as u32 != WASM_OP_I32_CONST {
                return Err(JitError::InvalidInitExpr);
            }
            match read_var_i32_at(offset_expr.as_slice(), 1) {
                Ok((v, _)) => Ok(#[verifier::truncate] (v as u32)),
                Err(_) => Err(JitError::MalformedInitExpr),
            }
        },
        _ => Err(JitError::Unsupported),
    }
}

impl X86JitCompiler {
    /// Binds the trap handler's entry: a store to address zero, which faults.
    pub fn setup_trap_entry(&mut self) -> (res: Label)
        ensures
            res == old(self)@.trap_label,
            final(self)@ == appended(old(self)@, trap_entry_code(old(self)@.trap_label)),
    {
        let trap_label = self.trap_label();
        self.push_inst(X86Inst::Bind { label: trap_label });
        self.push_inst(X86Inst::MovImm { dst: Register::Reg(X86Register::Rax), value: 0 });
        self.push_inst(X86Inst::StoreImm { base: X86Register::Rax, disp: 0, value: 1 });
        assert(self@.code =~= old(self)@.code + trap_entry_code(trap_label));
        trap_label
    }

    /// Sets each global's cell from its initializer.
    pub fn setup_globals(&mut self) -> (res: Result<(), JitError>)
        requires
            runtime_sized(old(self)@),
        ensures
            outcome(res, final(self)@, globals_fold(old(self)@, old(self)@.module.globals.len())),
    {
        let n = self.module().get_globals().len();
        let mut i: usize = 0;
        while i < n
            invariant
                i <= n == old(self)@.module.globals.len(),
                self@.module == old(self)@.module,
                self@.globals.len() == old(self)@.globals.len() == n,
                self@.global_types.len() == old(self)@.global_types.len() == n,
                globals_fold(old(self)@, i as nat) == Ok::<CompilerView, JitError>(self@),
            decreases n - i,
        {
            let g = self.module().get_globals()[i].clone();
            assert(g@ == old(self)@.module.globals[i as int]);
            match global_value(&g) {
                Err(e) => {
                    let err = match e {
                        ExecError::InvalidInitExpr => JitError::InvalidInitExpr,
                        ExecError::MalformedInitExpr => JitError::MalformedInitExpr,
                        _ => JitError::Unsupported,
                    };
                    proof {
                        lemma_globals_err_stays(old(self)@, (i + 1) as nat, n as nat);
                    }
                    return Err(err);
                },
                Ok(v) => {
                    let bits = match v {
                        WasmValue::I32(x) => #[verifier::truncate] (x as u64),
                        WasmValue::F64(b) => b,
                    };
                    let ty = if g.get_ty().content_type == ValType::F64 {
                        ValueType::F64
                    } else {
                        ValueType::I32
                    };
                    self.set_global(i, bits, ty);
                },
            }
            i += 1;
        }
        Ok(())
    }

    /// Places the function indices of each element segment in its table,
    /// then records each table's size.
    pub fn setup_tables(&mut self) -> (res: Result<(), JitError>)
        requires
            old(self)@.table_len.len() == old(self)@.tables.len(),
        ensures
            outcome(res, final(self)@, spec_setup_tables(old(self)@)),
    {
        let ghost elems = old(self)@.module.elems;
        let n = self.module().get_elems().len();
        let mut k: usize = 0;
        while k < n
            invariant
                k <= n == elems.len(),
                elems == old(self)@.module.elems,
                tables_fold(old(self)@.tables, elems, k as nat) == Ok::<Seq<Seq<u32>>, JitError>(self@.tables),
                self@ == (CompilerView { tables: self@.tables, ..old(self)@ }),
                self@.tables.len() == old(self)@.tables.len(),
            decreases n - k,
        {
            let e = self.module().get_elems()[k].clone();
            assert(e@ == elems[k as int]);
            let t = match elem_table_index_exec(&e) {
                Ok(t) => t,
                Err(err) => {
                    proof {
                        lemma_tables_err_stays(old(self)@.tables, elems, (k + 1) as nat, n as nat);
                    }
                    return Err(err);
                },
            };
            match &e.items {
                ElementItems::Expressions => {
                    proof {
                        lemma_tables_err_stays(old(self)@.tables, elems, (k + 1) as nat, n as nat);
                    }
                    return Err(JitError::Unsupported);
                },
                ElementItems::Functions(fs) => {
                    if fs.len() > 0 {
                        if t as usize >= self.tables_len() {
                            proof {
                                lemma_tables_err_stays(old(self)@.tables, elems, (k + 1) as nat, n as nat);
                            }
                            return Err(JitError::TableNotFound);
                        }
                        let ghost before = self@.tables;
                        let mut j: usize = 0;
                        while j < fs.len()
                            invariant
                                j <= fs@.len(),
                                (t as int) < before.len(),
                                self@ == (CompilerView { tables: self@.tables, ..old(self)@ }),
                                self@.tables == before.update(t as int, before[t as int] + fs@.take(j as int)),
                            decreases fs.len() - j,
                        {
                            self.push_table_entry(t as usize, fs[j]);
                            j += 1;
                            assert(before[t as int] + fs@.take(j as int) =~= (before[t as int] + fs@.take(j - 1)).push(fs@[j - 1]));
                            assert(self@.tables =~= before.update(t as int, before[t as int] + fs@.take(j as int)));
                        }
                        assert(fs@.take(j as int) =~= fs@);
                    } else {
                    }
                },
            }
            k += 1;
        }
        self.record_table_lens();
        Ok(())
    }

    /// Binds a new label, the entry point: it sets up the linear memory with
    /// `initial_mem_size_in_byte` bytes, passes `main_params` and enters `main_label`.
    pub fn setup_vm_entry(&mut self, main_label: Label, initial_mem_size_in_byte: u64, main_params: &Vec<WasmValue>) -> (res: Label)
        requires
            old(self)@.next_label < u32::MAX,
        ensures
            res == Label(old(self)@.next_label as u32),
            final(self)@ == appended(
                CompilerView { next_label: old(self)@.next_label + 1, ..old(self)@ },
                vm_entry_code(res, initial_mem_size_in_byte, main_params@, main_label),
            ),
    {
        let vm_entry_label = self.new_label();
        let ghost s1 = self@;
        self.emit_single_label(vm_entry_label);
        self.emit_mem_init(initial_mem_size_in_byte);
        let ghost c0 = self@.code;
        let mut i: usize = 0;
        while i < main_params.len()
            invariant
                i <= main_params@.len(),
                self@ == appended(s1, self@.code.subrange(s1.code.len() as int, self@.code.len() as int)),
                self@.code.len() >= s1.code.len(),
                self@.code == c0 + main_params_code(main_params@, i as nat),
                c0.len() >= s1.code.len(),
            decreases main_params.len() - i,
        {
            let p = main_params[i];
            let bits = match p {
                WasmValue::I32(v) => #[verifier::truncate] (v as u64),
                WasmValue::F64(b) => b,
            };
            if i < 6 {
                self.emit_mov_rawvalue_to_reg(bits, Register::from_ith_argument(i as u32));
            } else {
                match p {
                    WasmValue::I32(_) => {
                        self.emit_mov_rawvalue_to_reg(bits, Register::Reg(REG_TEMP));
                        self.push_inst(X86Inst::Push { src: REG_TEMP });
                    },
                    WasmValue::F64(_) => {
                        self.emit_mov_rawvalue_to_reg(bits, Register::FpReg(REG_TEMP_FP));
                        self.push_inst(X86Inst::Push { src: X86Register::R14 });
                    },
                }
            }
            i += 1;
            assert(self@.code =~= c0 + main_params_code(main_params@, i as nat));
            assert(self@ =~= appended(s1, self@.code.subrange(s1.code.len() as int, self@.code.len() as int)));
        }
        self.emit_jmp(main_label);
        assert(self@.code =~= s1.code + vm_entry_code(vm_entry_label, initial_mem_size_in_byte, main_params@, main_label));
        vm_entry_label
    }

    /// Sets up the runtime: the trap handler's entry, the tables, the
    /// globals and the entry point calling `main` with `main_params`;
    /// returns the entry point's label.
    pub fn setup_runtime(&mut self, main_params: &Vec<WasmValue>) -> (res: Result<Label, JitError>)
        requires
            runtime_sized(old(self)@),
        ensures
            match spec_setup_runtime(old(self)@, main_params@) {
                Ok((s, l)) => res == Ok::<Label, JitError>(l) && final(self)@ == s,
                Err(e) => res == Err::<Label, JitError>(e),
            },
    {
        self.setup_trap_entry();
        self.setup_tables()?;
        let ghost s2 = self@;
        proof {
            lemma_globals_fold_sizes(s2, s2.module.globals.len());
        }
        self.setup_globals()?;
        let main = match self.module().get_main_index() {
            Some(m) => m,
            None => return Err(JitError::MainNotFound),
        };
        let main_label = match self.func_label(main as usize) {
            Some(l) => l,
            None => return Err(JitError::MissingLabel),
        };
        let bytes: u64 = match self.module().get_memory() {
            Some(m) => {
                if m.initial > 0xFFFF_FFFF_FFFF {
                    return Err(JitError::MemoryTooLarge);
                }
                m.initial * 65536
            },
            None => 0,
        };
        if !self.has_label_room(1) {
            return Err(JitError::OutOfLabels);
        }
        let entry = self.setup_vm_entry(main_label, bytes, main_params);
        Ok(entry)
    }

    /// Sets up the runtime and compiles every function; returns the label
    /// of the entry point.
    pub fn compile(&mut self, main_params: Vec<WasmValue>) -> (res: Result<Label, JitError>)
        requires
            runtime_sized(old(self)@),
        ensures
            match spec_compile(old(self)@, main_params@) {
                Ok((s, l)) => res == Ok::<Label, JitError>(l) && final(self)@ == s,
                Err(e) => res == Err::<Label, JitError>(e),
            },
    {
        let entry = self.setup_runtime(&main_params)?;
        self.compile_functions()?;
        Ok(entry)
    }
}

/// A compiler of a whole module to code that starts at an entry point.
pub trait WasmJitCompiler: View + Sized {
    /// The compiler after compiling with the arguments `main_params` of
    /// `main`, and the entry label; or why compiling fails.
    spec fn compile_outcome(v: Self::V, main_params: Seq<WasmValue>) -> Result<(Self::V, Label), JitError>;

    fn compile(&mut self, main_params: Vec<WasmValue>) -> (res: Result<Label, JitError>)
        ensures
            match Self::compile_outcome(old(self)@, main_params@) {
                Ok((v, l)) => res == Ok::<Label, JitError>(l) && final(self)@ == v,
                Err(e) => res == Err::<Label, JitError>(e),
            },
    ;
}

/// What `WasmJitCompiler::compile` gives: `Unsupported` where the cells of
/// the globals or the sizes of the tables do not match the module, otherwise
/// what `X86JitCompiler::compile` gives.
pub open spec fn checked_compile(v: CompilerView, main_params: Seq<WasmValue>) -> Result<(CompilerView, Label), JitError> {
    if !runtime_sized(v) {
        Err(JitError::Unsupported)
    } else {
        spec_compile(v, main_params)
    }
}

impl WasmJitCompiler for X86JitCompiler {
    open spec fn compile_outcome(v: CompilerView, main_params: Seq<WasmValue>) -> Result<(CompilerView, Label), JitError> {
        checked_compile(v, main_params)
    }

    /// `X86JitCompiler::compile`, after checking its precondition: fails
    /// with `Unsupported` where the cells of the globals or the sizes of the
    /// tables do not match the module.
    fn compile(&mut self, main_params: Vec<WasmValue>) -> (res: Result<Label, JitError>) {
        if !self.is_runtime_sized() {
            return Err(JitError::Unsupported);
        }
        X86JitCompiler::compile(self, main_params)
    }
}

} // verus!
