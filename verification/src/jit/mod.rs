//! Target-independent decisions of the x86-64 JIT back end.
use vstd::prelude::*;

pub mod x86;
pub mod mem;
pub mod control;
pub mod access;
pub mod function;
pub mod emit;
pub mod setup;
pub mod laws;
pub mod semantics;
pub mod compiler;
pub mod regalloc;
pub mod utils;

verus! {

/// Why a module or a function could not be compiled.
#[derive(Debug, Clone, Copy, PartialEq, Eq, Structural)]
pub enum JitError {
    /// An instruction takes more values than the operand stack holds.
    StackUnderflow,
    /// Every 32-bit label has been handed out.
    OutOfLabels,
    /// The spill area would pass the end of the address space.
    OutOfStackSpace,
    /// A block has no matching `end`.
    NoMatchingEnd,
    /// A position that needs a label has none.
    MissingLabel,
    /// An `else` or `end` with no open block.
    ControlStackEmpty,
    /// A branch to a depth beyond the open blocks.
    InvalidBranchDepth,
    /// A branch to a block kind the back end does not handle.
    UnsupportedBranchTarget,
    /// An instruction or construct the back end does not compile.
    Unsupported,
    FunctionNotFound,
    TypeNotFound,
    TableNotFound,
    LocalNotFound,
    /// A memory instruction names a memory other than memory 0.
    InvalidMemoryIndex,
    /// A call passes more arguments than the stack can take.
    TooManyArguments,
    /// A constant expression that cannot be decoded.
    MalformedInitExpr,
    /// A constant expression that does not start with the expected constant.
    InvalidInitExpr,
    /// No function is exported as `main`.
    MainNotFound,
    /// The initial size of the linear memory in bytes does not fit in 64 bits.
    MemoryTooLarge,
}

/// The two value types the JIT back end keeps in registers.
#[derive(Debug, Clone, Copy, PartialEq, Eq, Structural)]
pub enum ValueType {
    I32,
    F64,
}

} // verus!
