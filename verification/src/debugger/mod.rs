//! Debugging support: GDB remote protocol

pub mod gdb;
