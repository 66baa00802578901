use processor::bytes::bytes_to_i32;
use processor::instructions::{
    flip, inc, jnz, jz, ld_32, ld_byte, mov, pop, pop_reg, push_reg, two_register_math,
};

#[test]
fn bytes_to_i32_reads_big_endian() {
    assert_eq!(bytes_to_i32(&[0, 0, 0, 1]), 1);
    assert_eq!(bytes_to_i32(&[0x12, 0x34, 0x56, 0x78]), 0x1234_5678);
    assert_eq!(bytes_to_i32(&[0, 0, 1, 0]), 256);
    assert_eq!(bytes_to_i32(&[0xFF, 0xFF, 0xFF, 0xFF]), -1);
    assert_eq!(bytes_to_i32(&[0x80, 0, 0, 0]), i32::MIN);
    assert_eq!(bytes_to_i32(&[0x7F, 0xFF, 0xFF, 0xFF]), i32::MAX);
    assert_eq!(bytes_to_i32(&[0, 0, 0x10, 0x55, 9, 9]), 0x1055);
}

#[test]
fn mov_copies_high_nibble_register_to_low_nibble_register() {
    let mut registers = [0i32; 16];
    registers[1] = 42;
    registers[2] = 7;
    mov(&mut registers, &0b0001_0010);
    assert_eq!(registers[2], 42);
    assert_eq!(registers[1], 42);
    mov(&mut registers, &0b1111_0000);
    assert_eq!(registers[0], 0);
}

#[test]
fn push_reg_writes_big_endian_and_pop_reg_reads_it_back() {
    let mut registers = [0i32; 16];
    registers[3] = 0x0102_0304;
    let mut mem = [0u8; 16];
    let mut sp: u16 = 4;
    push_reg(3, &registers, &mut mem, &mut sp);
    assert_eq!(sp, 8);
    assert_eq!(&mem[4..8], &[1, 2, 3, 4]);
    assert_eq!(mem[3], 0);
    assert_eq!(mem[8], 0);
    pop_reg(5, &mut registers, &mem, &mut sp);
    assert_eq!(sp, 4);
    assert_eq!(registers[5], 0x0102_0304);
}

#[test]
fn push_reg_of_negative_value() {
    let mut registers = [0i32; 16];
    registers[0] = -2;
    let mut mem = [0u8; 8];
    let mut sp: u16 = 0;
    push_reg(0, &registers, &mut mem, &mut sp);
    assert_eq!(&mem[0..4], &[0xFF, 0xFF, 0xFF, 0xFE]);
    assert_eq!(pop(&mem, &mut sp), -2);
    assert_eq!(sp, 0);
}

#[test]
fn inc_sets_and_clears_the_zero_flag() {
    let mut registers = [0i32; 16];
    registers[4] = -1;
    let mut flag: u8 = 0b1010_1010;
    inc(4, &mut registers, 1, &mut flag);
    assert_eq!(registers[4], 0);
    assert_eq!(flag, 0b1010_1011);
    inc(4, &mut registers, -1, &mut flag);
    assert_eq!(registers[4], -1);
    assert_eq!(flag, 0b1010_1010);
}

#[test]
fn flip_complements_and_sets_flag() {
    let mut registers = [0i32; 16];
    registers[2] = -1;
    let mut flag: u8 = 0;
    flip(2, &mut registers, &mut flag);
    assert_eq!(registers[2], 0);
    assert_eq!(flag, 1);
    flip(2, &mut registers, &mut flag);
    assert_eq!(registers[2], -1);
    assert_eq!(flag, 0);
    registers[3] = 5;
    flip(3, &mut registers, &mut flag);
    assert_eq!(registers[3], -6);
}

#[test]
fn two_register_math_applies_operator_and_sets_flag() {
    let mut registers = [0i32; 16];
    registers[1] = 5;
    registers[2] = 7;
    let mut flag: u8 = 1;
    two_register_math(0b0001_0010, 3, |a: i32, b: i32| a.wrapping_add(b), &mut registers, &mut flag);
    assert_eq!(registers[3], 12);
    assert_eq!(flag, 0);
    two_register_math(0b0001_0001, 4, |a: i32, b: i32| a.wrapping_sub(b), &mut registers, &mut flag);
    assert_eq!(registers[4], 0);
    assert_eq!(flag, 1);
}

#[test]
fn ld_32_and_ld_byte_load_constants() {
    let mut registers = [0i32; 16];
    ld_32(7, &mut registers, -123456);
    assert_eq!(registers[7], -123456);
    ld_byte(8, &mut registers, 0xFF);
    assert_eq!(registers[8], 255);
}

#[test]
fn jnz_jumps_when_zero_flag_clear() {
    let mut loc: usize = 10;
    jnz(40, &0b0000_0010, &mut loc);
    assert_eq!(loc, 40);
    let mut loc: usize = 10;
    jnz(40, &0b0000_0001, &mut loc);
    assert_eq!(loc, 12);
}

#[test]
fn jz_jumps_when_zero_flag_set() {
    let mut loc: usize = 10;
    jz(40, &0b0000_0011, &mut loc);
    assert_eq!(loc, 40);
    let mut loc: usize = 10;
    jz(40, &0b1111_1110, &mut loc);
    assert_eq!(loc, 12);
}
