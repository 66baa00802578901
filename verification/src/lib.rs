//! An emulator for a small 16-register, 32-bit processor whose program and data
//! share one byte-addressed memory.

pub mod bytes;
pub mod instructions;
pub mod instruction_consts;
pub mod programs;
pub mod semantics;
pub mod cpu;
pub mod laws;
pub mod print_number;
pub mod instruction_laws;
