//! Example programs, each meant to be loaded at a fixed place in memory.

use vstd::prelude::*;
use crate::instruction_consts::{
    ADD, DIV, INC, JNZ, JNZ_R, JZ_R, LD_BYTE, MOD, MOV, OR, PAD, POPA, PRNTC_LOC, PRNT_STACK, PUSH,
    PUSHA, SUB, WRITE_32_R, WRITE_BYTE_R,
};

verus! {

/// Computes the Fibonacci numbers up to the 19th and writes each, as a 32-bit word,
/// to memory from location 100 on.
pub const FIB: [u8; 53] = [
    LD_BYTE, 1, 0,
    LD_BYTE, 2, 1,
    LD_BYTE, 10, 0,
    LD_BYTE, 14, 19,
    LD_BYTE, 15, 0,
    LD_BYTE, 9, 100,
    WRITE_32_R, 0b0001_1001, PAD,
    INC, 9, PAD,
    INC, 9, PAD,
    INC, 9, PAD,
    INC, 9, PAD,
    ADD, 0b0001_0010, 3,
    OR, 0b0001_1010, 2,
    OR, 0b0011_1010, 1,
    INC, 15, PAD,
    SUB, 0b1110_1111, 7,
    JNZ, 18,
    WRITE_32_R, 0b0001_1001, PAD,
];

/// Computes the first 32 Fibonacci numbers and prints each one by calling the
/// program `PRINT32`, which must be loaded at location 240.
pub const FIB2: [u8; 45] = [
    LD_BYTE, 1, 0,
    LD_BYTE, 2, 1,
    LD_BYTE, 10, 0,
    LD_BYTE, 13, 32,
    LD_BYTE, 14, 0,
    ADD, 0b0001_0010, 3,
    MOV, 0b0001_0010,
    MOV, 0b0011_0001,
    INC, 14, PAD,
    PUSHA, PAD, PAD,
    LD_BYTE, 15, 37,
    LD_BYTE, 10, 240,
    JNZ_R, 10, PAD,
    POPA, PAD, PAD,
    SUB, 0b1101_1110, 7,
    JNZ, 15,
];

/// Writes "hello" to memory from location 100 on and then prints from there. Its
/// closing jump goes to location 45, an operand byte (100) rather than the print
/// instruction after it, so it prints the first letter and then meets a byte that is
/// no instruction.
pub const HELLO: [u8; 57] = [
    LD_BYTE, 0, 100,
    LD_BYTE, 1, 104,
    WRITE_BYTE_R, 0b0001_0000,
    INC, 0, PAD,
    LD_BYTE, 1, 101,
    WRITE_BYTE_R, 0b0001_0000,
    INC, 0, PAD,
    LD_BYTE, 1, 108,
    WRITE_BYTE_R, 0b0001_0000,
    INC, 0, PAD,
    LD_BYTE, 1, 108,
    WRITE_BYTE_R, 0b0001_0000,
    INC, 0, PAD,
    LD_BYTE, 1, 111,
    WRITE_BYTE_R, 0b0001_0000,
    INC, 0, PAD,
    LD_BYTE, 2, 100,
    PRNTC_LOC, 0b00000010, PAD,
    INC, 2, PAD,
    SUB, 0b0010_0000, 10,
    JNZ, 45,
];

/// Prints "helloworld!" and a newline.
pub const HELLO2: [u8; 32] = [
    JNZ, 15, PAD,
    104, 101, 108,
    108, 111, 119,
    111, 114, 108,
    100, 33, 10,
    LD_BYTE, 0, 3,
    LD_BYTE, 1, 15,
    PRNTC_LOC, 0, PAD,
    INC, 0, PAD,
    SUB, 0b0001_0000, 14,
    JNZ, 21,
];

/// Prints the (non-negative) number in register 1 in decimal, followed by a space,
/// then jumps to the location in register 15. Register 10 must hold the location the
/// program was loaded at. Uses the stack and registers 7 to 14. Proved in
/// `print_number::law_print32_prints_decimal`.
pub const PRINT32: [u8; 54] = [
    LD_BYTE, 14, 10,
    LD_BYTE, 13, 200,
    LD_BYTE, 12, 30,
    LD_BYTE, 7, 0x30,
    LD_BYTE, 8, 0,
    PUSH, 8, PAD,
    LD_BYTE, 8, 32,
    PUSH, 8, PAD,
    ADD, 0b1100_1010, 12,
    OR, 0b0001_0001, 9,
    MOD, 0b1001_1110, 8,
    DIV, 0b1001_1110, 9,
    ADD, 0b0111_1000, 8,
    PUSH, 8, PAD,
    OR, 0b1001_1001, 9,
    JNZ_R, 12, PAD,
    PRNT_STACK, PAD, PAD,
    JZ_R, 15, PAD,
];

} // verus!
