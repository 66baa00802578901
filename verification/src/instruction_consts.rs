//! Opcodes of the instruction set.

use vstd::prelude::*;

verus! {

/// Stops the processor.
pub const EXIT: u8 = 0;

/// Copies one register into another.
pub const MOV: u8 = 1;

/// One-register math.
pub const INC: u8 = 2;
pub const DEC: u8 = 3;
pub const FLIP: u8 = 4;

/// Two-register math.
pub const ADD: u8 = 10;
pub const SUB: u8 = 11;
pub const MULT: u8 = 12;
pub const DIV: u8 = 13;
pub const AND: u8 = 14;
pub const OR: u8 = 15;
/// Reserved: occupies three bytes and does nothing.
pub const ROTATE_LEFT: u8 = 16;
/// Reserved: occupies three bytes and does nothing.
pub const ROTATE_RIGHT: u8 = 17;
pub const MOD: u8 = 18;

/// Constant loads.
pub const LD_32: u8 = 30;
pub const LD_BYTE: u8 = 31;

/// Memory/register transfer through a location held in a register.
pub const READ_32_R: u8 = 40;
pub const READ_BYTE_R: u8 = 41;
pub const WRITE_32_R: u8 = 42;
pub const WRITE_BYTE_R: u8 = 43;

/// Memory/register transfer through a location given in the instruction.
pub const READ_32_C: u8 = 45;
pub const READ_BYTE_C: u8 = 46;
pub const WRITE_32_C: u8 = 47;
pub const WRITE_BYTE_C: u8 = 48;

/// Stack operations.
pub const PUSH: u8 = 0x32;
pub const POP: u8 = 0x33;
pub const PUSHA: u8 = 0x34;
pub const POPA: u8 = 0x35;

/// Control flow.
pub const JNZ: u8 = 80;
pub const JZ: u8 = 81;
pub const JNZ_R: u8 = 0x5A;
pub const JZ_R: u8 = 0x5B;

/// Printing.
pub const PRNTC_LOC: u8 = 120;
pub const PRNT_STACK: u8 = 121;

/// Does nothing but move to the next byte.
pub const PAD: u8 = 0xFF;

} // verus!
