//! Linear memory and the interpreter front end: instantiating a module and
//! preparing the call of its `main` function.
use vstd::prelude::*;

use super::func_exec::{spec_new_frame, ExecError, ExecView, WasmFunctionExecutorImpl};
use crate::module::components::{copy_vec, Data, DataKind, DataKindView, DataView};
use crate::module::reader::{read_u8_at, read_var_i32_at, spec_read_u8, spec_read_var_i32};
use crate::module::value_type::WasmValue;
use crate::module::wasm_module::{datas_view, spec_main_index, ModuleView, WasmModule};
use crate::module::wasmops::WASM_OP_I32_CONST;
use crate::WASM_DEFAULT_PAGE_SIZE_BYTE;

verus! {

/// The bytes of a linear memory.
pub struct LinearMemory(pub Vec<u8>);

impl LinearMemory {
    pub fn size(&self) -> (res: usize)
        ensures
            res == self.0@.len(),
    {
        self.0.len()
    }

    /// Appends `additional_pages` pages of zeros.
    pub fn grow(&mut self, additional_pages: u32)
        requires
            old(self).0@.len() + additional_pages * WASM_DEFAULT_PAGE_SIZE_BYTE <= usize::MAX,
        ensures
            final(self).0@ == old(self).0@ + Seq::new(
                (additional_pages * WASM_DEFAULT_PAGE_SIZE_BYTE) as nat,
                |i: int| 0u8,
            ),
    {
        let new_size = self.0.len() + (additional_pages as usize * WASM_DEFAULT_PAGE_SIZE_BYTE);
        let ghost old_mem = self.0@;
        self.0.resize(new_size, 0);
        assert(self.0@ =~= old_mem + Seq::new(
            (additional_pages * WASM_DEFAULT_PAGE_SIZE_BYTE) as nat,
            |i: int| 0u8,
        )) by {
            assert forall|i: int| old_mem.len() <= i < new_size implies self.0@[i] == 0u8 by {
                assert(cloned::<u8>(0u8, self.0@[i]));
            }
        }
    }
}

impl Clone for LinearMemory {
    fn clone(&self) -> (res: Self)
        ensures
            res.0@ == self.0@,
    {
        LinearMemory(copy_vec(&self.0))
    }
}

/// Why a module could not be instantiated.
#[derive(Debug, Clone, Copy, PartialEq, Eq, Structural)]
pub enum InstantiateError {
    /// The initial memory does not fit in the address space.
    MemoryTooLarge,
    /// A passive data segment, which the VM does not implement.
    PassiveDataSegment,
    /// A data segment for a memory other than memory 0.
    InvalidMemoryIndex,
    /// A data segment whose offset is not an `i32.const`.
    InvalidOffsetExpr,
    /// A data segment whose offset expression is not valid binary.
    MalformedOffsetExpr,
    /// A data segment at a negative offset.
    NegativeOffset,
    /// A data segment that does not fit in the memory.
    OutOfBounds,
}

/// Why `main` could not be started.
#[derive(Debug, Clone, Copy, PartialEq, Eq, Structural)]
pub enum RunError {
    /// No function is exported as `main`.
    MainNotFound,
    /// The executor could not start or stopped on an error.
    Exec(ExecError),
}

/// The length in bytes of the memory a module starts with: its first
/// memory's initial pages, or none.
pub open spec fn spec_initial_memory_len(m: ModuleView) -> Option<nat> {
    if m.mems.len() > 0 {
        let n = m.mems[0].initial * WASM_DEFAULT_PAGE_SIZE_BYTE;
        if n <= usize::MAX {
            Some(n as nat)
        } else {
            None
        }
    } else {
        Some(0)
    }
}

/// The offset at which a data segment is copied: an active segment of
/// memory 0 whose offset expression starts with `i32.const`.
pub open spec fn spec_data_offset(d: DataView) -> Result<nat, InstantiateError> {
    match d.kind {
        DataKindView::Passive => Err(InstantiateError::PassiveDataSegment),
        DataKindView::Active { memory_index, offset_expr } => if memory_index != 0 {
            Err(InstantiateError::InvalidMemoryIndex)
        } else {
            match spec_read_u8(offset_expr) {
                Some((op, _)) => if op as u32 != WASM_OP_I32_CONST {
                    Err(InstantiateError::InvalidOffsetExpr)
                } else {
                    match spec_read_var_i32(offset_expr.skip(1)) {
                        Some((off, _)) => if off < 0 {
                            Err(InstantiateError::NegativeOffset)
                        } else {
                            Ok(off as nat)
                        },
                        None => Err(InstantiateError::MalformedOffsetExpr),
                    }
                },
                None => Err(InstantiateError::MalformedOffsetExpr),
            }
        },
    }
}

/// The memory after copying the data segments `datas` into `mem`, in order.
pub open spec fn spec_setup_data(datas: Seq<DataView>, mem: Seq<u8>) -> Result<Seq<u8>, InstantiateError>
    decreases datas.len(),
{
    if datas.len() == 0 {
        Ok(mem)
    } else {
        match spec_setup_data(datas.drop_last(), mem) {
            Ok(m1) => {
                let d = datas.last();
                match spec_data_offset(d) {
                    Ok(off) => if off + d.data.len() > m1.len() {
                        Err(InstantiateError::OutOfBounds)
                    } else {
                        Ok(m1.subrange(0, off as int) + d.data + m1.subrange((off + d.data.len()) as int, m1.len() as int))
                    },
                    Err(e) => Err(e),
                }
            },
            Err(e) => Err(e),
        }
    }
}

/// The memory a module starts with.
pub open spec fn spec_instance_memory(m: ModuleView) -> Result<Seq<u8>, InstantiateError> {
    match spec_initial_memory_len(m) {
        Some(n) => spec_setup_data(m.datas, Seq::new(n, |i: int| 0u8)),
        None => Err(InstantiateError::MemoryTooLarge),
    }
}

/// Once a prefix of the data segments fails, so do all of them.
proof fn lemma_setup_data_prefix(datas: Seq<DataView>, mem: Seq<u8>, i: int)
    requires
        0 <= i <= datas.len(),
        spec_setup_data(datas.take(i), mem) is Err,
    ensures
        spec_setup_data(datas, mem) == spec_setup_data(datas.take(i), mem),
    decreases datas.len() - i,
{
    if i == datas.len() {
        assert(datas.take(i) == datas);
    } else {
        assert(datas.take(i + 1).drop_last() == datas.take(i));
        lemma_setup_data_prefix(datas, mem, i + 1);
    }
}

/// The offset of data segment `d` in memory.
fn data_offset(d: &Data) -> (res: Result<usize, InstantiateError>)
    ensures
        match spec_data_offset(d@) {
            Ok(off) => res == Ok::<usize, InstantiateError>(off as usize) && off <= i32::MAX,
            Err(e) => res == Err::<usize, InstantiateError>(e),
        },
{
    match &d.kind {
        DataKind::Passive => Err(InstantiateError::PassiveDataSegment),
        DataKind::Active { memory_index, offset_expr } => {
            if *memory_index != 0 {
                return Err(InstantiateError::InvalidMemoryIndex);
            }
            let e = offset_expr.as_slice();
            assert(e@.skip(0) == e@);
            let (op, _) = match read_u8_at(e, 0) {
                Ok(r) => r,
                Err(_) => return Err(InstantiateError::MalformedOffsetExpr),
            };
            if op as u32 != WASM_OP_I32_CONST {
                return Err(InstantiateError::InvalidOffsetExpr);
            }
            let (off, _) = match read_var_i32_at(e, 1) {
                Ok(r) => r,
                Err(_) => return Err(InstantiateError::MalformedOffsetExpr),
            };
            if off < 0 {
                return Err(InstantiateError::NegativeOffset);
            }
            Ok(off as usize)
        },
    }
}

/// A module with its memory, ready to run.
pub struct WasmInterpreter {
    module: WasmModule,
    mem: LinearMemory,
    jit_mode: bool,
}

/// An instance as a mathematical value.
pub struct InterpreterView {
    pub module: ModuleView,
    pub mem: Seq<u8>,
    pub jit_mode: bool,
}

impl View for WasmInterpreter {
    type V = InterpreterView;

    closed spec fn view(&self) -> InterpreterView {
        InterpreterView { module: self.module@, mem: self.mem.0@, jit_mode: self.jit_mode }
    }
}

impl WasmInterpreter {
    /// Instantiates `module`: a memory of its initial size, zeroed, with its
    /// data segments copied in.
    pub fn from_module(module: WasmModule, jit_mode: bool) -> (res: Result<Self, InstantiateError>)
        ensures
            match spec_instance_memory(module@) {
                Ok(mem) => (res is Ok) && res.unwrap()@ == (InterpreterView { module: module@, mem, jit_mode }),
                Err(e) => res matches Err(x) && x == e,
            },
    {
        let len: usize = match module.get_memory() {
            Some(m) => {
                if m.initial > (usize::MAX / WASM_DEFAULT_PAGE_SIZE_BYTE) as u64 {
                    return Err(InstantiateError::MemoryTooLarge);
                }
                (m.initial as usize) * WASM_DEFAULT_PAGE_SIZE_BYTE
            },
            None => 0,
        };
        let mut mem = LinearMemory(Vec::new());
        mem.0.resize(len, 0u8);
        assert(mem.0@ =~= Seq::new(len as nat, |i: int| 0u8)) by {
            assert forall|i: int| 0 <= i < len implies mem.0@[i] == 0u8 by {
                assert(cloned::<u8>(0u8, mem.0@[i]));
            }
        }
        Self::setup_data_section(&module, &mut mem)?;
        Ok(WasmInterpreter { module, mem, jit_mode })
    }

    /// Copies the data segments of `module` into `mem`, in order.
    fn setup_data_section(module: &WasmModule, mem: &mut LinearMemory) -> (res: Result<(), InstantiateError>)
        ensures
            match spec_setup_data(module@.datas, old(mem).0@) {
                Ok(m) => (res is Ok) && final(mem).0@ == m,
                Err(e) => res matches Err(x) && x == e,
            },
    {
        let datas = module.get_datas();
        let ghost dv = module@.datas;
        let ghost m0 = mem.0@;
        let mut i: usize = 0;
        assert(dv.take(0) == Seq::<DataView>::empty());
        while i < datas.len()
            invariant
                i <= datas@.len(),
                dv == datas_view(datas@),
                dv == module@.datas,
                m0 == old(mem).0@,
                spec_setup_data(dv.take(i as int), m0) == Ok::<Seq<u8>, InstantiateError>(mem.0@),
            decreases datas.len() - i,
        {
            let d = &datas[i];
            assert(dv[i as int] == d@);
            assert(dv.take(i + 1).drop_last() == dv.take(i as int));
            assert(dv.take(i + 1).last() == dv[i as int]);
            let off = match data_offset(d) {
                Ok(o) => o,
                Err(e) => {
                    proof {
                        lemma_setup_data_prefix(dv, m0, i + 1);
                    }
                    return Err(e);
                },
            };
            let n = mem.0.len();
            if d.data.len() > n || off > n - d.data.len() {
                proof {
                    lemma_setup_data_prefix(dv, m0, i + 1);
                }
                return Err(InstantiateError::OutOfBounds);
            }
            let ghost before = mem.0@;
            let mut j: usize = 0;
            while j < d.data.len()
                invariant
                    j <= d.data@.len(),
                    off + d.data@.len() <= n,
                    n == before.len(),
                    mem.0@.len() == n,
                    forall|k: int| 0 <= k < off ==> mem.0@[k] == before[k],
                    forall|k: int| off + j <= k < n ==> mem.0@[k] == before[k],
                    forall|k: int| 0 <= k < j ==> mem.0@[off + k] == d.data@[k],
                decreases d.data.len() - j,
            {
                mem.0.set(off + j, d.data[j]);
                j += 1;
            }
            assert(mem.0@ =~= before.subrange(0, off as int) + d.data@ + before.subrange(
                off + d.data@.len(),
                n as int,
            ));
            i += 1;
        }
        assert(dv.take(i as int) == dv);
        Ok(())
    }

    /// The module the instance runs.
    pub fn module(&self) -> (res: &WasmModule)
        ensures
            res@ == self@.module,
    {
        &self.module
    }

    /// The memory of the instance.
    pub fn memory(&self) -> (res: &LinearMemory)
        ensures
            res.0@ == self@.mem,
    {
        &self.mem
    }

    /// Whether the instance is meant to run compiled code.
    pub fn jit_mode(&self) -> (res: bool)
        ensures
            res == self@.jit_mode,
    {
        self.jit_mode
    }

    /// An executor about to run the function exported as `main` with
    /// `main_params` as its first locals, on copies of the module and the memory.
    pub fn main_executor(&self, main_params: Vec<WasmValue>) -> (res: Result<WasmFunctionExecutorImpl, RunError>)
        ensures
            match spec_main_index(self@.module.exports) {
                Some(ix) => if ix < self@.module.funcs.len() {
                    match spec_new_frame(self@.module.funcs[ix as int], main_params@) {
                        Some(f) => (res is Ok) && res.unwrap()@ == (ExecView {
                            cur: f,
                            callers: Seq::empty(),
                            module: self@.module,
                            mem: self@.mem,
                            pending: false,
                            finished: false,
                        }),
                        None => res matches Err(x) && x == RunError::Exec(ExecError::Unsupported),
                    }
                } else {
                    res matches Err(x) && x == RunError::MainNotFound
                },
                None => res matches Err(x) && x == RunError::MainNotFound,
            },
    {
        let main_index = match self.module.get_main_index() {
            Some(ix) => ix,
            None => return Err(RunError::MainNotFound),
        };
        let main_func = match self.module.get_func(main_index) {
            Some(f) => f.clone(),
            None => return Err(RunError::MainNotFound),
        };
        match WasmFunctionExecutorImpl::new(main_func, self.module.clone(), self.mem.clone(), Some(main_params)) {
            Ok(e) => {
                assert(e@ =~= (ExecView {
                    cur: e@.cur,
                    callers: Seq::empty(),
                    module: self@.module,
                    mem: self@.mem,
                    pending: false,
                    finished: false,
                }));
                Ok(e)
            },
            Err(x) => Err(RunError::Exec(x)),
        }
    }
}

/// A virtual machine that runs a module's `main` function.
pub trait WasmVm {
    /// Runs `main` with `main_params`; the value it returns, as text.
    fn run(&self, main_params: Vec<WasmValue>) -> Result<String, RunError>;
}

} // verus!
