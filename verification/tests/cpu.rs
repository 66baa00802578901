use processor::cpu::Cpu;
use processor::instruction_consts::{
    ADD, AND, DEC, DIV, EXIT, FLIP, INC, JNZ, JNZ_R, JZ, JZ_R, LD_32, LD_BYTE, MOD, MOV, MULT, OR,
    PAD, POP, POPA, PRNTC_LOC, PRNT_STACK, PUSH, PUSHA, READ_32_C, READ_32_R, READ_BYTE_C,
    READ_BYTE_R, ROTATE_LEFT, SUB, WRITE_32_C, WRITE_32_R, WRITE_BYTE_C, WRITE_BYTE_R,
};
use processor::semantics::{Fault, Status, MEM_LEN, STACK_START};

fn cpu_with(program: &[u8]) -> Cpu {
    let mut cpu = Cpu::new();
    cpu.load(0, program);
    cpu
}

fn step(cpu: &mut Cpu) -> Result<Status, Fault> {
    let mut out = Vec::new();
    let r = cpu.step(&mut out);
    assert!(out.is_empty());
    r
}

#[test]
fn new_cpu_is_zeroed() {
    let cpu = Cpu::new();
    assert_eq!(cpu.registers, vec![0; 16]);
    assert_eq!(cpu.mem.len(), MEM_LEN);
    assert!(cpu.mem.iter().all(|b| *b == 0));
    assert_eq!(cpu.flag, 0);
    assert_eq!(cpu.sp, STACK_START);
    assert_eq!(cpu.sp, 4096);
    assert_eq!(cpu.loc, 0);
}

#[test]
fn load_copies_program() {
    let mut cpu = Cpu::new();
    cpu.load(240, &[1, 2, 3]);
    assert_eq!(&cpu.mem[239..244], &[0, 1, 2, 3, 0]);
}

#[test]
fn exit_halts_without_change() {
    let mut cpu = cpu_with(&[EXIT]);
    assert_eq!(step(&mut cpu), Ok(Status::Halted));
    assert_eq!(cpu.loc, 0);
    assert_eq!(step(&mut cpu), Ok(Status::Halted));
}

#[test]
fn end_of_memory_halts() {
    let mut cpu = Cpu::new();
    cpu.loc = MEM_LEN;
    assert_eq!(step(&mut cpu), Ok(Status::Halted));
    assert_eq!(cpu.loc, MEM_LEN);
}

#[test]
fn pad_moves_one_byte() {
    let mut cpu = cpu_with(&[PAD, PAD, EXIT]);
    assert_eq!(step(&mut cpu), Ok(Status::Running));
    assert_eq!(cpu.loc, 1);
    assert_eq!(step(&mut cpu), Ok(Status::Running));
    assert_eq!(step(&mut cpu), Ok(Status::Halted));
    assert_eq!(cpu.loc, 2);
}

#[test]
fn unknown_byte_changes_nothing() {
    let mut cpu = cpu_with(&[7, 1, 2]);
    assert_eq!(step(&mut cpu), Ok(Status::Unknown(7)));
    assert_eq!(cpu.loc, 0);
    assert_eq!(step(&mut cpu), Ok(Status::Unknown(7)));
}

#[test]
fn ld_byte_and_mov() {
    let mut cpu = cpu_with(&[LD_BYTE, 3, 200, MOV, 0b0011_0101, EXIT]);
    assert_eq!(step(&mut cpu), Ok(Status::Running));
    assert_eq!(cpu.registers[3], 200);
    assert_eq!(cpu.loc, 3);
    assert_eq!(step(&mut cpu), Ok(Status::Running));
    assert_eq!(cpu.registers[5], 200);
    assert_eq!(cpu.loc, 5);
}

#[test]
fn ld_32_loads_big_endian_word() {
    let mut cpu = cpu_with(&[LD_32, 9, 0xFF, 0xFF, 0xFF, 0xF6, EXIT]);
    assert_eq!(step(&mut cpu), Ok(Status::Running));
    assert_eq!(cpu.registers[9], -10);
    assert_eq!(cpu.loc, 6);
}

#[test]
fn inc_dec_flip_set_zero_flag() {
    let mut cpu = cpu_with(&[INC, 1, PAD, DEC, 1, DEC, 1, FLIP, 1]);
    assert_eq!(step(&mut cpu), Ok(Status::Running));
    assert_eq!(cpu.registers[1], 1);
    assert_eq!(cpu.flag, 0);
    assert_eq!(cpu.loc, 2);
    step(&mut cpu).unwrap();
    assert_eq!(step(&mut cpu), Ok(Status::Running));
    assert_eq!(cpu.registers[1], 0);
    assert_eq!(cpu.flag, 1);
    assert_eq!(step(&mut cpu), Ok(Status::Running));
    assert_eq!(cpu.registers[1], -1);
    assert_eq!(cpu.flag, 0);
    assert_eq!(step(&mut cpu), Ok(Status::Running));
    assert_eq!(cpu.registers[1], 0);
    assert_eq!(cpu.flag, 1);
    assert_eq!(cpu.loc, 9);
}

fn math(op: u8, a: i32, b: i32) -> Result<(i32, u8), Fault> {
    let mut cpu = cpu_with(&[op, 0b0001_0010, 3]);
    cpu.registers[1] = a;
    cpu.registers[2] = b;
    match step(&mut cpu) {
        Ok(status) => {
            assert_eq!(status, Status::Running);
            assert_eq!(cpu.loc, 3);
            Ok((cpu.registers[3], cpu.flag))
        },
        Err(f) => {
            assert_eq!(cpu.loc, 0);
            assert_eq!(cpu.registers[3], 0);
            Err(f)
        },
    }
}

#[test]
fn two_register_math_results() {
    assert_eq!(math(ADD, 2, 3), Ok((5, 0)));
    assert_eq!(math(ADD, i32::MAX, 1), Ok((i32::MIN, 0)));
    assert_eq!(math(SUB, 3, 3), Ok((0, 1)));
    assert_eq!(math(SUB, i32::MIN, 1), Ok((i32::MAX, 0)));
    assert_eq!(math(MULT, -4, 6), Ok((-24, 0)));
    assert_eq!(math(MULT, 0x10000, 0x10000), Ok((0, 1)));
    assert_eq!(math(DIV, 7, 2), Ok((3, 0)));
    assert_eq!(math(DIV, -7, 2), Ok((-3, 0)));
    assert_eq!(math(DIV, i32::MIN, -1), Ok((i32::MIN, 0)));
    assert_eq!(math(AND, 0b1100, 0b1010), Ok((0b1000, 0)));
    assert_eq!(math(OR, 0b1100, 0b1010), Ok((0b1110, 0)));
    assert_eq!(math(MOD, 7, 3), Ok((1, 0)));
    assert_eq!(math(MOD, -7, 3), Ok((2, 0)));
    assert_eq!(math(MOD, -7, -3), Ok((2, 0)));
    assert_eq!(math(MOD, 9, 3), Ok((0, 1)));
}

#[test]
fn math_faults() {
    assert_eq!(math(DIV, 1, 0), Err(Fault::DivideByZero));
    assert_eq!(math(MOD, 1, 0), Err(Fault::DivideByZero));
    assert_eq!(math(MOD, i32::MIN, -1), Err(Fault::ArithmeticOverflow));
}

#[test]
fn rotations_only_move_on() {
    let mut cpu = cpu_with(&[ROTATE_LEFT, 0x12, 3]);
    cpu.registers[1] = 5;
    assert_eq!(step(&mut cpu), Ok(Status::Running));
    assert_eq!(cpu.loc, 3);
    assert_eq!(cpu.registers[3], 0);
}

#[test]
fn bad_register_fault() {
    let mut cpu = cpu_with(&[INC, 16, PAD]);
    assert_eq!(step(&mut cpu), Err(Fault::BadRegister));
    assert_eq!(cpu.loc, 0);
    let mut cpu = cpu_with(&[ADD, 0x12, 16]);
    assert_eq!(step(&mut cpu), Err(Fault::BadRegister));
    let mut cpu = cpu_with(&[LD_BYTE, 200, 1]);
    assert_eq!(step(&mut cpu), Err(Fault::BadRegister));
}

#[test]
fn memory_out_of_range_fault() {
    let mut cpu = Cpu::new();
    cpu.mem[MEM_LEN - 2] = LD_BYTE;
    cpu.loc = MEM_LEN - 2;
    assert_eq!(step(&mut cpu), Err(Fault::MemoryOutOfRange));
    assert_eq!(cpu.loc, MEM_LEN - 2);
    let mut cpu = cpu_with(&[PRNTC_LOC, 0, PAD]);
    cpu.registers[0] = -1;
    let mut out = Vec::new();
    assert_eq!(cpu.step(&mut out), Err(Fault::MemoryOutOfRange));
    assert!(out.is_empty());
}

#[test]
fn arithmetic_overflow_fault() {
    let mut cpu = cpu_with(&[INC, 0, PAD]);
    cpu.registers[0] = i32::MAX;
    assert_eq!(step(&mut cpu), Err(Fault::ArithmeticOverflow));
    assert_eq!(cpu.registers[0], i32::MAX);
    let mut cpu = cpu_with(&[DEC, 0, PAD]);
    cpu.registers[0] = i32::MIN;
    assert_eq!(step(&mut cpu), Err(Fault::ArithmeticOverflow));
}

#[test]
fn stack_faults() {
    let mut cpu = cpu_with(&[PUSH, 0, PAD]);
    cpu.sp = (MEM_LEN - 2) as u16;
    assert_eq!(step(&mut cpu), Err(Fault::StackOverflow));
    let mut cpu = cpu_with(&[POP, 0, PAD]);
    cpu.sp = 2;
    assert_eq!(step(&mut cpu), Err(Fault::StackUnderflow));
    let mut cpu = cpu_with(&[POPA]);
    cpu.sp = 60;
    assert_eq!(step(&mut cpu), Err(Fault::StackUnderflow));
    let mut cpu = cpu_with(&[PUSHA]);
    cpu.sp = (MEM_LEN - 63) as u16;
    assert_eq!(step(&mut cpu), Err(Fault::StackOverflow));
    assert_eq!(cpu.sp, (MEM_LEN - 63) as u16);
}

#[test]
fn push_then_pop_restores_register_and_stack_pointer() {
    let mut cpu = cpu_with(&[PUSH, 4, PAD, LD_BYTE, 4, 1, POP, 4, PAD]);
    cpu.registers[4] = -5;
    step(&mut cpu).unwrap();
    assert_eq!(cpu.sp, 4100);
    assert_eq!(cpu.loc, 2);
    assert_eq!(&cpu.mem[4096..4100], &[0xFF, 0xFF, 0xFF, 0xFB]);
    step(&mut cpu).unwrap();
    step(&mut cpu).unwrap();
    assert_eq!(cpu.registers[4], 1);
    step(&mut cpu).unwrap();
    assert_eq!(cpu.loc, 8);
    assert_eq!(cpu.sp, 4096);
    assert_eq!(cpu.registers[4], -5);
}

#[test]
fn pusha_then_popa_restores_all_registers() {
    let mut cpu = cpu_with(&[PUSHA, LD_BYTE, 0, 9, LD_BYTE, 15, 9, POPA]);
    for r in 0..16 {
        cpu.registers[r] = (r as i32) * 1000 - 7000;
    }
    let saved = cpu.registers.clone();
    step(&mut cpu).unwrap();
    assert_eq!(cpu.sp, 4096 + 64);
    assert_eq!(&cpu.mem[4156..4160], &[0, 0, 0x1F, 0x40]);
    step(&mut cpu).unwrap();
    step(&mut cpu).unwrap();
    assert_eq!(cpu.registers[0], 9);
    step(&mut cpu).unwrap();
    assert_eq!(cpu.registers, saved);
    assert_eq!(cpu.sp, 4096);
    assert_eq!(cpu.loc, 8);
}

#[test]
fn register_located_transfers() {
    let mut cpu = cpu_with(&[
        WRITE_32_R, 0b0001_0010,
        READ_32_R, 0b0011_0010,
        WRITE_BYTE_R, 0b0001_0100,
        READ_BYTE_R, 0b0101_0100,
    ]);
    cpu.registers[1] = 0x0A0B_0C0D;
    cpu.registers[2] = 1000;
    cpu.registers[4] = 2000;
    step(&mut cpu).unwrap();
    assert_eq!(&cpu.mem[1000..1004], &[0x0A, 0x0B, 0x0C, 0x0D]);
    assert_eq!(cpu.loc, 2);
    step(&mut cpu).unwrap();
    assert_eq!(cpu.registers[3], 0x0A0B_0C0D);
    step(&mut cpu).unwrap();
    assert_eq!(cpu.mem[2000], 0x0D);
    assert_eq!(cpu.mem[2001], 0);
    step(&mut cpu).unwrap();
    assert_eq!(cpu.registers[5], 0x0D);
    assert_eq!(cpu.loc, 8);
}

#[test]
fn constant_located_transfers() {
    let mut cpu = cpu_with(&[
        WRITE_32_C, 1, 0, 0, 0x03, 0xE8,
        READ_32_C, 2, 0, 0, 0x03, 0xE8,
        WRITE_BYTE_C, 1, 200,
        READ_BYTE_C, 3, 200,
    ]);
    cpu.registers[1] = -2;
    step(&mut cpu).unwrap();
    assert_eq!(&cpu.mem[1000..1004], &[0xFF, 0xFF, 0xFF, 0xFE]);
    assert_eq!(cpu.loc, 6);
    step(&mut cpu).unwrap();
    assert_eq!(cpu.registers[2], -2);
    assert_eq!(cpu.loc, 12);
    step(&mut cpu).unwrap();
    assert_eq!(cpu.mem[200], 0xFE);
    step(&mut cpu).unwrap();
    assert_eq!(cpu.registers[3], 0xFE);
    assert_eq!(cpu.loc, 18);
}

#[test]
fn transfer_out_of_memory_faults() {
    let mut cpu = cpu_with(&[READ_32_R, 0b0001_0010]);
    cpu.registers[2] = (MEM_LEN - 3) as i32;
    assert_eq!(step(&mut cpu), Err(Fault::MemoryOutOfRange));
    let mut cpu = cpu_with(&[WRITE_BYTE_R, 0b0001_0010]);
    cpu.registers[2] = -1;
    assert_eq!(step(&mut cpu), Err(Fault::MemoryOutOfRange));
    assert!(cpu.mem.iter().skip(2).all(|b| *b == 0));
}

#[test]
fn jumps_follow_the_zero_flag() {
    let mut cpu = cpu_with(&[JNZ, 100]);
    step(&mut cpu).unwrap();
    assert_eq!(cpu.loc, 100);
    let mut cpu = cpu_with(&[JZ, 100]);
    step(&mut cpu).unwrap();
    assert_eq!(cpu.loc, 2);
    let mut cpu = cpu_with(&[JZ, 100]);
    cpu.flag = 1;
    step(&mut cpu).unwrap();
    assert_eq!(cpu.loc, 100);
    let mut cpu = cpu_with(&[JNZ_R, 6]);
    cpu.registers[6] = 300;
    step(&mut cpu).unwrap();
    assert_eq!(cpu.loc, 300);
    let mut cpu = cpu_with(&[JZ_R, 6]);
    cpu.registers[6] = 300;
    cpu.flag = 1;
    step(&mut cpu).unwrap();
    assert_eq!(cpu.loc, 300);
    let mut cpu = cpu_with(&[JNZ_R, 6]);
    cpu.registers[6] = -1;
    step(&mut cpu).unwrap();
    assert!(cpu.loc >= MEM_LEN);
    assert_eq!(step(&mut cpu), Ok(Status::Halted));
}

#[test]
fn print_char_prints_byte_at_register_location() {
    let mut cpu = cpu_with(&[PRNTC_LOC, 3, PAD, 0, 0, 65]);
    cpu.registers[3] = 5;
    let mut out = vec![b'x'];
    assert_eq!(cpu.step(&mut out), Ok(Status::Running));
    assert_eq!(out, b"xA".to_vec());
    assert_eq!(cpu.loc, 2);
}

#[test]
fn print_stack_pops_until_zero() {
    let mut cpu = cpu_with(&[
        LD_BYTE, 8, 0, PUSH, 8, PAD,
        LD_BYTE, 8, b' ', PUSH, 8, PAD,
        LD_BYTE, 8, b'2', PUSH, 8, PAD,
        LD_BYTE, 8, b'1', PUSH, 8, PAD,
        PRNT_STACK,
    ]);
    let mut out = Vec::new();
    assert_eq!(cpu.run(&mut out, 12), Ok(Status::Running));
    assert_eq!(cpu.loc, 24);
    assert!(out.is_empty());
    assert_eq!(cpu.sp, 4096 + 16);
    assert_eq!(cpu.step(&mut out), Ok(Status::Running));
    assert_eq!(out, b"12 ".to_vec());
    assert_eq!(cpu.sp, 4096);
    assert_eq!(cpu.loc, 25);
}

#[test]
fn print_stack_underflow_prints_nothing() {
    let mut cpu = cpu_with(&[PRNT_STACK]);
    cpu.sp = 4;
    cpu.mem[3] = b'a';
    let mut out = Vec::new();
    assert_eq!(cpu.step(&mut out), Err(Fault::StackUnderflow));
    assert!(out.is_empty());
    assert_eq!(cpu.sp, 4);
}

#[test]
fn run_stops_at_unknown_byte() {
    let mut cpu = cpu_with(&[PAD, PAD, 9]);
    let mut out = Vec::new();
    assert_eq!(cpu.run(&mut out, 100), Ok(Status::Unknown(9)));
    assert_eq!(cpu.loc, 2);
}

#[test]
fn run_reports_fault_and_keeps_output() {
    let mut cpu = cpu_with(&[PRNTC_LOC, 0, PAD, INC, 20]);
    cpu.registers[0] = 0;
    let mut out = Vec::new();
    assert_eq!(cpu.run(&mut out, 100), Err(Fault::BadRegister));
    assert_eq!(out, vec![PRNTC_LOC]);
    assert_eq!(cpu.loc, 3);
}

#[test]
fn run_with_no_steps_changes_nothing() {
    let mut cpu = cpu_with(&[INC, 0, PAD]);
    let mut out = Vec::new();
    assert_eq!(cpu.run(&mut out, 0), Ok(Status::Running));
    assert_eq!(cpu.loc, 0);
    assert_eq!(cpu.registers[0], 0);
}

#[test]
fn sub_undoes_wrapping_add() {
    let mut cpu = cpu_with(&[ADD, 0b0001_0010, 1, SUB, 0b0001_0010, 1]);
    cpu.registers[1] = i32::MAX - 1;
    cpu.registers[2] = 5;
    step(&mut cpu).unwrap();
    assert_eq!(cpu.registers[1], i32::MIN + 3);
    step(&mut cpu).unwrap();
    assert_eq!(cpu.registers[1], i32::MAX - 1);
}

#[test]
fn loads_touch_neither_memory_nor_flag_nor_stack() {
    let mut cpu = cpu_with(&[LD_BYTE, 2, 0, LD_32, 3, 0, 0, 0, 0]);
    cpu.flag = 0b0000_0101;
    let mem = cpu.mem.clone();
    step(&mut cpu).unwrap();
    step(&mut cpu).unwrap();
    assert_eq!(cpu.mem, mem);
    assert_eq!(cpu.flag, 0b0000_0101);
    assert_eq!(cpu.sp, STACK_START);
}

#[test]
fn math_keeps_other_flag_bits() {
    let mut cpu = cpu_with(&[INC, 0, PAD, INC, 0, PAD]);
    cpu.flag = 0b1000_0000;
    cpu.registers[0] = -1;
    step(&mut cpu).unwrap();
    assert_eq!(cpu.flag, 0b1000_0001);
    step(&mut cpu).unwrap();
    step(&mut cpu).unwrap();
    assert_eq!(cpu.flag, 0b1000_0000);
}
