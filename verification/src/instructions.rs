//! The register, stack and control-flow operations that the instructions are built from.

use vstd::prelude::*;
use crate::bytes::{
    bytes_to_i32, decode_i32, encode_i32, splice,
};

verus! {

/// The register named by the upper four bits of an operand byte.
pub open spec fn high_nibble(byte: u8) -> u8 {
    byte >> 4u8
}

/// The register named by the lower four bits of an operand byte.
pub open spec fn low_nibble(byte: u8) -> u8 {
    byte & 0x0Fu8
}

/// Both nibbles of a byte name one of the sixteen registers.
pub proof fn lemma_nibbles(byte: u8)
    ensures
        high_nibble(byte) < 16,
        low_nibble(byte) < 16,
{
    assert(byte >> 4u8 < 16u8) by (bit_vector);
    assert(byte & 0x0Fu8 < 16u8) by (bit_vector);
}

/// Whether the zero flag (the last bit of the flag byte) is set.
pub open spec fn zero_flag(flag: u8) -> bool {
    flag & 1u8 != 0
}

/// The flag byte after an operation yielded `value`: the zero bit is set exactly
/// when `value` is zero, and the other bits are kept.
pub open spec fn flag_after(flag: u8, value: i32) -> u8 {
    if value == 0 {
        flag | 1u8
    } else {
        flag & 0xFEu8
    }
}

/// Copies the register named by the upper nibble of `byte` into the register named
/// by its lower nibble.
pub fn mov(registers: &mut [i32], byte: &u8)
    requires
        high_nibble(*byte) < old(registers)@.len(),
        low_nibble(*byte) < old(registers)@.len(),
    ensures
        final(registers)@ == old(registers)@.update(
            low_nibble(*byte) as int,
            old(registers)@[high_nibble(*byte) as int],
        ),
{
    let b: u8 = *byte;
    let source: usize = ((b & 0xF0) >> 4) as usize;
    let dest: usize = (b & 0x0F) as usize;
    assert((b & 0xF0u8) >> 4u8 == b >> 4u8) by (bit_vector);
    let value: i32 = registers[source];
    registers[dest] = value;
}

/// Pushes `registers[register]` onto the stack: its four big-endian bytes are written
/// at the stack pointer, which then moves up by four.
pub fn push_reg(register: usize, registers: &[i32], mem: &mut [u8], sp: &mut u16)
    requires
        register < registers@.len(),
        *old(sp) + 4 <= old(mem)@.len(),
        *old(sp) + 4 <= u16::MAX,
    ensures
        final(mem)@ == splice(old(mem)@, *old(sp) as int, encode_i32(registers@[register as int])),
        *final(sp) == *old(sp) + 4,
{
    let v: i32 = registers[register];
    proof {
        assert(((v >> 24i32) & 0xFFi32) as u8 == ((v as u32) >> 24u32) as u8) by (bit_vector);
        assert(((v >> 16i32) & 0xFFi32) as u8 == ((v as u32) >> 16u32) as u8) by (bit_vector);
        assert(((v >> 8i32) & 0xFFi32) as u8 == ((v as u32) >> 8u32) as u8) by (bit_vector);
        assert((v & 0xFFi32) as u8 == v as u8) by (bit_vector);
    }
    mem[*sp as usize] = ((v >> 24) & 0x00_00_00_FF) as u8;
    mem[(*sp + 1) as usize] = ((v >> 16) & 0x00_00_00_FF) as u8;
    mem[(*sp + 2) as usize] = ((v >> 8) & 0x00_00_00_FF) as u8;
    mem[(*sp + 3) as usize] = (v & 0x00_00_00_FF) as u8;
    *sp = *sp + 4;
    assert(mem@ =~= splice(old(mem)@, *old(sp) as int, encode_i32(v)));
}

/// Pops the top four bytes of the stack into `registers[register]`.
pub fn pop_reg(register: usize, registers: &mut [i32], mem: &[u8], sp: &mut u16)
    requires
        register < old(registers)@.len(),
        4 <= *old(sp),
        *old(sp) <= mem@.len(),
    ensures
        *final(sp) == *old(sp) - 4,
        final(registers)@ == old(registers)@.update(
            register as int,
            decode_i32(mem@.subrange(*old(sp) - 4, *old(sp) as int)),
        ),
{
    *sp = *sp - 4;
    let v: i32 = bytes_to_i32(&mem[(*sp) as usize..(*sp + 4) as usize]);
    registers[register] = v;
}

/// Pops the top four bytes of the stack and returns them as an integer.
pub fn pop(mem: &[u8], sp: &mut u16) -> (value: i32)
    requires
        4 <= *old(sp),
        *old(sp) <= mem@.len(),
    ensures
        *final(sp) == *old(sp) - 4,
        value == decode_i32(mem@.subrange(*old(sp) - 4, *old(sp) as int)),
{
    *sp = *sp - 4;
    bytes_to_i32(&mem[(*sp) as usize..(*sp + 4) as usize])
}

/// Adds `by` to `registers[register]` and sets the zero flag from the result.
pub fn inc(register: usize, registers: &mut [i32], by: i32, flag: &mut u8)
    requires
        register < old(registers)@.len(),
        i32::MIN <= old(registers)@[register as int] + by <= i32::MAX,
    ensures
        final(registers)@ == old(registers)@.update(
            register as int,
            (old(registers)@[register as int] + by) as i32,
        ),
        *final(flag) == flag_after(*old(flag), final(registers)@[register as int]),
{
    registers[register] = registers[register] + by;
    if registers[register] == 0 {
        *flag = *flag | 0b0000000_1;
    } else {
        *flag = *flag & 0b1111111_0;
    }
}

/// Replaces `registers[register]` by its bitwise complement, which for two's-complement
/// integers is `-1 - value`, and sets the zero flag from the result.
pub fn flip(register: usize, registers: &mut [i32], flag: &mut u8)
    requires
        register < old(registers)@.len(),
    ensures
        final(registers)@ == old(registers)@.update(
            register as int,
            (-1 - old(registers)@[register as int]) as i32,
        ),
        *final(flag) == flag_after(*old(flag), final(registers)@[register as int]),
{
    let before: i32 = registers[register];
    let flipped: i32 = !before;
    assert(!before == -1 - before) by (bit_vector);
    registers[register] = flipped;
    if flipped == 0 {
        *flag = *flag | 0b0000000_1;
    } else {
        *flag = *flag & 0b1111111_0;
    }
}

/// Applies `operator` to the registers named by the two nibbles of `byte`, stores the
/// result in register `dest` and sets the zero flag from it.
pub fn two_register_math<F: Fn(i32, i32) -> i32>(
    byte: u8,
    dest: u8,
    operator: F,
    registers: &mut [i32],
    flag: &mut u8,
)
    requires
        high_nibble(byte) < old(registers)@.len(),
        low_nibble(byte) < old(registers)@.len(),
        dest < old(registers)@.len(),
        call_requires(
            operator,
            (old(registers)@[high_nibble(byte) as int], old(registers)@[low_nibble(byte) as int]),
        ),
    ensures
        call_ensures(
            operator,
            (old(registers)@[high_nibble(byte) as int], old(registers)@[low_nibble(byte) as int]),
            final(registers)@[dest as int],
        ),
        final(registers)@ == old(registers)@.update(dest as int, final(registers)@[dest as int]),
        *final(flag) == flag_after(*old(flag), final(registers)@[dest as int]),
{
    assert((byte & 0b1111_0000u8) >> 4u8 == byte >> 4u8) by (bit_vector);
    let reg1: usize = ((byte & 0b1111_0000) >> 4) as usize;
    let reg2: usize = (byte & 0b0000_1111) as usize;
    let value: i32 = operator(registers[reg1], registers[reg2]);
    registers[dest as usize] = value;
    if registers[dest as usize] == 0 {
        *flag = *flag | 0b0000000_1;
    } else {
        *flag = *flag & 0b1111111_0;
    }
}

/// Loads a 32-bit constant into `registers[register]`.
pub fn ld_32(register: usize, registers: &mut [i32], val: i32)
    requires
        register < old(registers)@.len(),
    ensures
        final(registers)@ == old(registers)@.update(register as int, val),
{
    registers[register] = val;
}

/// Loads an 8-bit constant, zero-extended, into `registers[register]`.
pub fn ld_byte(register: usize, registers: &mut [i32], val: u8)
    requires
        register < old(registers)@.len(),
    ensures
        final(registers)@ == old(registers)@.update(register as int, val as i32),
{
    registers[register] = val as i32;
}

/// Jumps to `dest` when the zero flag is clear; otherwise moves past the two-byte
/// jump instruction.
pub fn jnz(dest: usize, flag: &u8, loc: &mut usize)
    requires
        zero_flag(*flag) ==> *old(loc) + 2 <= usize::MAX,
    ensures
        *final(loc) == if !zero_flag(*flag) { dest } else { (*old(loc) + 2) as usize },
{
    if *flag & 0b0000000_1 == 0 {
        *loc = dest;
    } else {
        *loc = *loc + 2;
    }
}

/// Jumps to `dest` when the zero flag is set; otherwise moves past the two-byte
/// jump instruction.
pub fn jz(dest: usize, flag: &u8, loc: &mut usize)
    requires
        !zero_flag(*flag) ==> *old(loc) + 2 <= usize::MAX,
    ensures
        *final(loc) == if zero_flag(*flag) { dest } else { (*old(loc) + 2) as usize },
{
    if *flag & 0b0000000_1 != 0 {
        *loc = dest;
    } else {
        *loc = *loc + 2;
    }
}

} // verus!
