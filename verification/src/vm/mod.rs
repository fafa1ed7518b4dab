//! The stack interpreter.
pub mod control;
pub mod func_exec;
pub mod interpreter;
pub mod laws;
