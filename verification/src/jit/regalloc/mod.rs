//! Registers of the x86-64 target and the operand-stack register allocator.
pub mod allocator;
pub mod register;
