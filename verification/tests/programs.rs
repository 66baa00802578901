use processor::bytes::bytes_to_i32;
use processor::cpu::Cpu;
use processor::programs::{FIB, FIB2, HELLO, HELLO2, PRINT32};
use processor::semantics::Status;

fn fib(n: usize) -> i32 {
    let (mut a, mut b) = (0i32, 1i32);
    for _ in 0..n {
        let c = a + b;
        a = b;
        b = c;
    }
    a
}

#[test]
fn fib_writes_fibonacci_numbers_to_memory() {
    let mut cpu = Cpu::new();
    cpu.load(0, &FIB);
    let mut out = Vec::new();
    assert_eq!(cpu.run(&mut out, 10_000), Ok(Status::Halted));
    assert!(out.is_empty());
    for i in 0..20 {
        let at = 100 + 4 * i;
        assert_eq!(bytes_to_i32(&cpu.mem[at..at + 4]), fib(i));
    }
    assert_eq!(cpu.registers[1], 4181);
}

#[test]
fn fib2_with_print32_prints_first_32_fibonacci_numbers() {
    let mut cpu = Cpu::new();
    cpu.load(0, &FIB2);
    cpu.load(240, &PRINT32);
    let mut out = Vec::new();
    assert_eq!(cpu.run(&mut out, 1_000_000), Ok(Status::Halted));
    let mut expected = String::new();
    for i in 1..=32 {
        expected.push_str(&format!("{} ", fib(i)));
    }
    assert_eq!(String::from_utf8(out).unwrap(), expected);
    assert_eq!(cpu.registers[1], 2178309);
    assert_eq!(cpu.sp, 4096);
}

#[test]
fn hello2_prints_helloworld() {
    let mut cpu = Cpu::new();
    cpu.load(0, &HELLO2);
    let mut out = Vec::new();
    assert_eq!(cpu.run(&mut out, 10_000), Ok(Status::Halted));
    assert_eq!(out, b"helloworld!\n".to_vec());
}

#[test]
fn hello_writes_hello_then_jumps_into_an_operand() {
    let mut cpu = Cpu::new();
    cpu.load(0, &HELLO);
    let mut out = Vec::new();
    assert_eq!(cpu.run(&mut out, 10_000), Ok(Status::Unknown(100)));
    assert_eq!(&cpu.mem[100..105], b"hello");
    assert_eq!(out, b"h".to_vec());
    assert_eq!(cpu.loc, 45);
}

fn print32_run(value: i32) -> (Vec<u8>, Cpu, Status) {
    let mut cpu = Cpu::new();
    cpu.load(240, &PRINT32);
    cpu.registers[1] = value;
    cpu.registers[10] = 240;
    cpu.registers[15] = 1000;
    cpu.registers[3] = -77;
    cpu.loc = 240;
    let digits = value.to_string().len() as u64;
    let mut out = Vec::new();
    let status = cpu.run(&mut out, 17 + 7 * digits).unwrap();
    (out, cpu, status)
}

#[test]
fn print32_prints_number_and_space_then_returns() {
    for value in [0, 7, 10, 1234567, i32::MAX] {
        let (out, cpu, status) = print32_run(value);
        assert_eq!(status, Status::Running);
        assert_eq!(String::from_utf8(out).unwrap(), format!("{} ", value));
        assert_eq!(cpu.loc, 1000);
        assert_eq!(cpu.sp, 4096);
        assert_eq!(cpu.registers[1], value);
        assert_eq!(cpu.registers[3], -77);
        assert_eq!(cpu.registers[10], 240);
        assert_eq!(cpu.registers[15], 1000);
        assert_eq!(&cpu.mem[240..294], &PRINT32[..]);
    }
}
