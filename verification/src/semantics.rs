//! What one instruction does to the processor: the state, the outcome of a step, and
//! the step itself as a function from state to outcome.

use vstd::prelude::*;
use crate::bytes::{decode_i32, encode_i32, splice};
use crate::instruction_consts::{
    ADD, AND, DEC, DIV, EXIT, FLIP, INC, JNZ, JNZ_R, JZ, JZ_R, LD_32, LD_BYTE, MOD, MOV, MULT, OR,
    PAD, POP, POPA, PRNTC_LOC, PRNT_STACK, PUSH, PUSHA, READ_32_C, READ_32_R, READ_BYTE_C,
    READ_BYTE_R, ROTATE_LEFT, ROTATE_RIGHT, SUB, WRITE_32_C, WRITE_BYTE_C, WRITE_BYTE_R,
};
use crate::instructions::{
    flag_after, high_nibble, low_nibble, zero_flag,
};

verus! {

/// Size of the memory in bytes.
pub const MEM_LEN: usize = 8192;

/// Number of registers.
pub const NUM_REGISTERS: usize = 16;

/// Where the stack begins; it grows towards higher locations.
pub const STACK_START: u16 = 4096;

/// The whole state of the processor.
#[verifier::ext_equal]
pub struct CpuState {
    pub registers: Seq<i32>,
    pub mem: Seq<u8>,
    pub flag: u8,
    pub sp: u16,
    pub loc: usize,
}

impl CpuState {
    /// Sixteen registers and `MEM_LEN` bytes of memory.
    pub open spec fn wf(self) -> bool {
        &&& self.registers.len() == NUM_REGISTERS
        &&& self.mem.len() == MEM_LEN
    }
}

/// What the processor does after a step.
#[derive(Clone, Copy, Debug, PartialEq, Eq, Structural)]
pub enum Status {
    /// It goes on with the instruction at its new location.
    Running,
    /// It has stopped: it met `EXIT` or its location left memory.
    Halted,
    /// The byte at its location is no instruction; the state is unchanged.
    Unknown(u8),
}

/// Why an instruction cannot be carried out.
#[derive(Clone, Copy, Debug, PartialEq, Eq, Structural)]
pub enum Fault {
    /// An operand or an addressed byte lies outside memory.
    MemoryOutOfRange,
    /// An operand names a register that does not exist.
    BadRegister,
    /// The stack pointer would move beyond the end of memory.
    StackOverflow,
    /// The stack pointer would move below zero.
    StackUnderflow,
    /// `INC`, `DEC` or `MOD` left the range of 32-bit integers.
    ArithmeticOverflow,
    /// `DIV` or `MOD` by zero.
    DivideByZero,
}

/// The effect of one successful step: the new state, the bytes printed, and the status.
pub struct Transition {
    pub next: CpuState,
    pub output: Seq<u8>,
    pub status: Status,
}

/// A step that prints nothing and goes on from state `s`.
pub open spec fn running(s: CpuState) -> Result<Transition, Fault> {
    Ok(Transition { next: s, output: Seq::empty(), status: Status::Running })
}

/// `s` moved to location `loc`.
pub open spec fn at(s: CpuState, loc: int) -> CpuState {
    CpuState { loc: loc as usize, ..s }
}

/// Whether the operand byte `k` places after the instruction's opcode lies in memory.
pub open spec fn has_operand(s: CpuState, k: int) -> bool {
    s.loc + k < s.mem.len()
}

/// The operand byte `k` places after the opcode.
pub open spec fn operand(s: CpuState, k: int) -> u8 {
    s.mem[s.loc + k]
}

/// A register value used as a memory location.
pub open spec fn address(v: i32) -> usize {
    v as usize
}

/// Truncating division of integers, rounding towards zero.
pub open spec fn trunc_div(x: int, d: int) -> int {
    if x == 0 {
        0
    } else if x > 0 && d > 0 {
        x / d
    } else if x < 0 && d < 0 {
        (x * -1) / (d * -1)
    } else if x < 0 {
        ((x * -1) / d) * -1
    } else {
        (x / (d * -1)) * -1
    }
}

/// The quotient rounded towards zero fits in 32 bits except for `i32::MIN / -1`.
pub proof fn lemma_trunc_div_range(x: i32, d: i32)
    requires
        d != 0,
    ensures
        x == i32::MIN && d == -1 ==> trunc_div(x as int, d as int) == i32::MAX + 1,
        !(x == i32::MIN && d == -1) ==> i32::MIN <= trunc_div(x as int, d as int) <= i32::MAX,
{
    let xi = x as int;
    let di = d as int;
    if xi > 0 && di > 0 {
        assert(0 <= xi / di <= xi) by (nonlinear_arith)
            requires
                xi > 0,
                di > 0,
        ;
    } else if xi < 0 && di < 0 {
        let n = xi * -1;
        let m = di * -1;
        if m == 1 {
            assert(n / m == n);
        } else {
            assert(0 <= n / m <= 1073741824) by (nonlinear_arith)
                requires
                    0 < n <= 2147483648,
                    m >= 2,
            ;
        }
    } else if xi < 0 {
        let n = xi * -1;
        assert(0 <= n / di <= n) by (nonlinear_arith)
            requires
                n > 0,
                di > 0,
        ;
    } else if xi > 0 {
        let m = di * -1;
        assert(0 <= xi / m <= xi) by (nonlinear_arith)
            requires
                xi > 0,
                m > 0,
        ;
    }
}

/// `a / b` rounded towards zero, where the one quotient that leaves the range of
/// 32-bit integers wraps to `i32::MIN`.
pub open spec fn wrapping_quotient(a: i32, b: i32) -> i32 {
    if a == i32::MIN && b == -1 {
        i32::MIN
    } else {
        trunc_div(a as int, b as int) as i32
    }
}

/// The Euclidean remainder of `a` by `b`, which lies in `0..|b|`.
pub open spec fn euclid_rem(a: i32, b: i32) -> i32 {
    (a as int % b as int) as i32
}

/// The result of a two-register math instruction on operands `a` and `b`: `ADD`,
/// `SUB` and `MULT` wrap, `DIV` rounds towards zero and wraps, `MOD` is the
/// Euclidean remainder.
pub open spec fn math_result(op: u8, a: i32, b: i32) -> Result<i32, Fault> {
    if op == ADD {
        Ok(vstd::wrapping::i32_specs::wrapping_add(a, b))
    } else if op == SUB {
        Ok(vstd::wrapping::i32_specs::wrapping_sub(a, b))
    } else if op == MULT {
        Ok(vstd::wrapping::i32_specs::wrapping_mul(a, b))
    } else if op == DIV {
        if b == 0 {
            Err(Fault::DivideByZero)
        } else {
            Ok(wrapping_quotient(a, b))
        }
    } else if op == AND {
        Ok(a & b)
    } else if op == OR {
        Ok(a | b)
    } else {
        if b == 0 {
            Err(Fault::DivideByZero)
        } else if a == i32::MIN && b == -1 {
            Err(Fault::ArithmeticOverflow)
        } else {
            Ok(euclid_rem(a, b))
        }
    }
}

/// `MOV`.
pub open spec fn step_mov(s: CpuState) -> Result<Transition, Fault> {
    if !has_operand(s, 1) {
        Err(Fault::MemoryOutOfRange)
    } else {
        let b = operand(s, 1);
        running(
            CpuState {
                registers: s.registers.update(
                    low_nibble(b) as int,
                    s.registers[high_nibble(b) as int],
                ),
                loc: (s.loc + 2) as usize,
                ..s
            },
        )
    }
}

/// `INC`, `DEC` and `FLIP`.
pub open spec fn step_one_register(s: CpuState, op: u8) -> Result<Transition, Fault> {
    if !has_operand(s, 1) {
        Err(Fault::MemoryOutOfRange)
    } else {
        let r = operand(s, 1);
        if r >= s.registers.len() {
            Err(Fault::BadRegister)
        } else {
            let old_value = s.registers[r as int];
            let value: int = if op == INC {
                old_value + 1
            } else if op == DEC {
                old_value - 1
            } else {
                -1 - old_value
            };
            if value < i32::MIN || value > i32::MAX {
                Err(Fault::ArithmeticOverflow)
            } else {
                running(
                    CpuState {
                        registers: s.registers.update(r as int, value as i32),
                        flag: flag_after(s.flag, value as i32),
                        loc: (s.loc + 2) as usize,
                        ..s
                    },
                )
            }
        }
    }
}

/// `ADD`, `SUB`, `MULT`, `DIV`, `AND`, `OR`, `MOD`, and the reserved rotations.
pub open spec fn step_two_register(s: CpuState, op: u8) -> Result<Transition, Fault> {
    if op == ROTATE_LEFT || op == ROTATE_RIGHT {
        running(at(s, s.loc + 3))
    } else if !has_operand(s, 2) {
        Err(Fault::MemoryOutOfRange)
    } else {
        let b = operand(s, 1);
        let d = operand(s, 2);
        let x = s.registers[high_nibble(b) as int];
        let y = s.registers[low_nibble(b) as int];
        match math_result(op, x, y) {
            Err(f) => Err(f),
            Ok(value) => if d >= s.registers.len() {
                Err(Fault::BadRegister)
            } else {
                running(
                    CpuState {
                        registers: s.registers.update(d as int, value),
                        flag: flag_after(s.flag, value),
                        loc: (s.loc + 3) as usize,
                        ..s
                    },
                )
            },
        }
    }
}

/// `s` with register `r` set to `value` and moved to location `loc`.
pub open spec fn set_register(s: CpuState, r: int, value: i32, loc: int) -> CpuState {
    CpuState { registers: s.registers.update(r, value), loc: loc as usize, ..s }
}

/// `LD_32`: loads the big-endian word that follows the register operand.
pub open spec fn step_ld_32(s: CpuState) -> Result<Transition, Fault> {
    if s.loc + 6 > s.mem.len() {
        Err(Fault::MemoryOutOfRange)
    } else if operand(s, 1) >= s.registers.len() {
        Err(Fault::BadRegister)
    } else {
        running(
            set_register(
                s,
                operand(s, 1) as int,
                decode_i32(s.mem.subrange(s.loc + 2, s.loc + 6)),
                s.loc + 6,
            ),
        )
    }
}

/// `LD_BYTE`: loads the byte that follows the register operand.
pub open spec fn step_ld_byte(s: CpuState) -> Result<Transition, Fault> {
    if !has_operand(s, 2) {
        Err(Fault::MemoryOutOfRange)
    } else if operand(s, 1) >= s.registers.len() {
        Err(Fault::BadRegister)
    } else {
        running(set_register(s, operand(s, 1) as int, operand(s, 2) as i32, s.loc + 3))
    }
}

/// Whether a transfer opcode reads from memory (otherwise it writes).
pub open spec fn is_read(op: u8) -> bool {
    op == READ_32_R || op == READ_BYTE_R || op == READ_32_C || op == READ_BYTE_C
}

/// Whether a transfer opcode moves one byte (otherwise a 32-bit word).
pub open spec fn is_byte_transfer(op: u8) -> bool {
    op == READ_BYTE_R || op == WRITE_BYTE_R || op == READ_BYTE_C || op == WRITE_BYTE_C
}

/// Moves a byte or word between register `r` and memory location `addr`, then goes to
/// location `next`.
pub open spec fn transfer(s: CpuState, op: u8, r: int, addr: usize, next: int) -> Result<
    Transition,
    Fault,
> {
    if is_byte_transfer(op) {
        if addr >= s.mem.len() {
            Err(Fault::MemoryOutOfRange)
        } else if is_read(op) {
            running(set_register(s, r, s.mem[addr as int] as i32, next))
        } else {
            running(
                CpuState {
                    mem: s.mem.update(addr as int, s.registers[r] as u8),
                    loc: next as usize,
                    ..s
                },
            )
        }
    } else {
        if addr + 4 > s.mem.len() {
            Err(Fault::MemoryOutOfRange)
        } else if is_read(op) {
            running(set_register(s, r, decode_i32(s.mem.subrange(addr as int, addr + 4)), next))
        } else {
            running(
                CpuState {
                    mem: splice(s.mem, addr as int, encode_i32(s.registers[r])),
                    loc: next as usize,
                    ..s
                },
            )
        }
    }
}

/// Opcodes from `READ_32_R` to `WRITE_BYTE_C`. The `_R` forms name the data register
/// in the upper nibble and the register holding the location in the lower nibble; the
/// `_C` forms name the data register in their first operand and give the location as
/// a big-endian word (32-bit forms) or a byte (byte forms). The unassigned opcode
/// between the two groups moves on by four bytes.
pub open spec fn step_transfer(s: CpuState, op: u8) -> Result<Transition, Fault> {
    if op <= WRITE_BYTE_R {
        if !has_operand(s, 1) {
            Err(Fault::MemoryOutOfRange)
        } else {
            let b = operand(s, 1);
            transfer(
                s,
                op,
                high_nibble(b) as int,
                address(s.registers[low_nibble(b) as int]),
                s.loc + 2,
            )
        }
    } else if op == READ_32_C || op == WRITE_32_C {
        if s.loc + 6 > s.mem.len() {
            Err(Fault::MemoryOutOfRange)
        } else if operand(s, 1) >= s.registers.len() {
            Err(Fault::BadRegister)
        } else {
            transfer(
                s,
                op,
                operand(s, 1) as int,
                decode_i32(s.mem.subrange(s.loc + 2, s.loc + 6)) as u32 as usize,
                s.loc + 6,
            )
        }
    } else if op == READ_BYTE_C || op == WRITE_BYTE_C {
        if !has_operand(s, 2) {
            Err(Fault::MemoryOutOfRange)
        } else if operand(s, 1) >= s.registers.len() {
            Err(Fault::BadRegister)
        } else {
            transfer(s, op, operand(s, 1) as int, operand(s, 2) as usize, s.loc + 3)
        }
    } else {
        if !has_operand(s, 1) {
            Err(Fault::MemoryOutOfRange)
        } else {
            running(at(s, s.loc + 4))
        }
    }
}

/// `PUSH` and `POP`.
pub open spec fn step_push_pop(s: CpuState, op: u8) -> Result<Transition, Fault> {
    if !has_operand(s, 1) {
        Err(Fault::MemoryOutOfRange)
    } else {
        let r = operand(s, 1);
        if op == PUSH {
            if r >= s.registers.len() {
                Err(Fault::BadRegister)
            } else if s.sp + 4 > s.mem.len() {
                Err(Fault::StackOverflow)
            } else {
                running(
                    CpuState {
                        mem: splice(s.mem, s.sp as int, encode_i32(s.registers[r as int])),
                        sp: (s.sp + 4) as u16,
                        loc: (s.loc + 2) as usize,
                        ..s
                    },
                )
            }
        } else {
            if s.sp < 4 {
                Err(Fault::StackUnderflow)
            } else if s.sp > s.mem.len() {
                Err(Fault::StackOverflow)
            } else if r >= s.registers.len() {
                Err(Fault::BadRegister)
            } else {
                running(
                    CpuState {
                        registers: s.registers.update(
                            r as int,
                            decode_i32(s.mem.subrange(s.sp - 4, s.sp as int)),
                        ),
                        sp: (s.sp - 4) as u16,
                        loc: (s.loc + 2) as usize,
                        ..s
                    },
                )
            }
        }
    }
}

/// The bytes of the given register values, each as a big-endian word, in order.
pub open spec fn encode_registers(registers: Seq<i32>) -> Seq<u8>
    decreases registers.len(),
{
    if registers.len() == 0 {
        Seq::empty()
    } else {
        encode_registers(registers.drop_last()) + encode_i32(registers.last())
    }
}

/// Each register takes four bytes.
pub proof fn lemma_encode_registers_len(registers: Seq<i32>)
    ensures
        encode_registers(registers).len() == 4 * registers.len(),
    decreases registers.len(),
{
    if registers.len() > 0 {
        lemma_encode_registers_len(registers.drop_last());
    }
}

/// Encoding one register more appends its four bytes.
pub proof fn lemma_encode_registers_take(registers: Seq<i32>, k: int)
    requires
        0 <= k < registers.len(),
    ensures
        encode_registers(registers.take(k + 1)) == encode_registers(registers.take(k))
            + encode_i32(registers[k]),
{
    assert(registers.take(k + 1).drop_last() =~= registers.take(k));
}

/// The `n` words stored from `at` on, in order.
pub open spec fn decode_words(mem: Seq<u8>, at: int, n: nat) -> Seq<i32> {
    Seq::new(n, |i: int| decode_i32(mem.subrange(at + 4 * i, at + 4 * i + 4)))
}

/// Pushes all registers, register 0 first, so that register 15 ends on top.
pub open spec fn push_all(s: CpuState) -> Result<CpuState, Fault> {
    if s.sp + 4 * s.registers.len() > s.mem.len() {
        Err(Fault::StackOverflow)
    } else {
        Ok(
            CpuState {
                mem: splice(s.mem, s.sp as int, encode_registers(s.registers)),
                sp: (s.sp + 4 * s.registers.len()) as u16,
                ..s
            },
        )
    }
}

/// Pops all registers, register 15 first.
pub open spec fn pop_all(s: CpuState) -> Result<CpuState, Fault> {
    let n = s.registers.len();
    if s.sp < 4 {
        Err(Fault::StackUnderflow)
    } else if s.sp > s.mem.len() {
        Err(Fault::StackOverflow)
    } else if s.sp < 4 * n {
        Err(Fault::StackUnderflow)
    } else {
        Ok(
            CpuState {
                registers: decode_words(s.mem, s.sp - 4 * n, n),
                sp: (s.sp - 4 * n) as u16,
                ..s
            },
        )
    }
}

/// `PUSHA` and `POPA`.
pub open spec fn step_push_pop_all(s: CpuState, op: u8) -> Result<Transition, Fault> {
    match if op == PUSHA { push_all(s) } else { pop_all(s) } {
        Err(f) => Err(f),
        Ok(t) => running(at(t, s.loc + 1)),
    }
}

/// `JNZ`, `JZ`, `JNZ_R`, `JZ_R`, and the unassigned opcodes between them, which
/// behave as `JNZ`.
pub open spec fn step_jump(s: CpuState, op: u8) -> Result<Transition, Fault> {
    if !has_operand(s, 1) {
        Err(Fault::MemoryOutOfRange)
    } else {
        let by_register = op == JNZ_R || op == JZ_R;
        let r = operand(s, 1);
        if by_register && r >= s.registers.len() {
            Err(Fault::BadRegister)
        } else {
            let dest: usize = if by_register {
                address(s.registers[r as int])
            } else {
                r as usize
            };
            let taken = if op == JZ || op == JZ_R {
                zero_flag(s.flag)
            } else {
                !zero_flag(s.flag)
            };
            running(at(s, if taken { dest as int } else { s.loc + 2 }))
        }
    }
}

/// `PRNTC_LOC`: prints the byte at the location held in a register.
pub open spec fn step_print_char(s: CpuState) -> Result<Transition, Fault> {
    if !has_operand(s, 1) {
        Err(Fault::MemoryOutOfRange)
    } else if operand(s, 1) >= s.registers.len() {
        Err(Fault::BadRegister)
    } else {
        let addr = address(s.registers[operand(s, 1) as int]);
        if addr >= s.mem.len() {
            Err(Fault::MemoryOutOfRange)
        } else {
            Ok(
                Transition {
                    next: at(s, s.loc + 2),
                    output: seq![s.mem[addr as int]],
                    status: Status::Running,
                },
            )
        }
    }
}

/// The text that `PRNT_STACK` prints from stack pointer `sp` on, and the stack pointer
/// after it: words are popped until one whose lowest byte is zero, and the lowest byte
/// of each word before it is printed.
pub open spec fn stack_text(mem: Seq<u8>, sp: u16) -> Result<(Seq<u8>, u16), Fault>
    decreases sp,
{
    if sp < 4 {
        Err(Fault::StackUnderflow)
    } else if sp > mem.len() {
        Err(Fault::StackOverflow)
    } else {
        let byte = mem[sp - 1];
        if byte == 0 {
            Ok((Seq::empty(), (sp - 4) as u16))
        } else {
            match stack_text(mem, (sp - 4) as u16) {
                Err(f) => Err(f),
                Ok((text, rest)) => Ok((seq![byte] + text, rest)),
            }
        }
    }
}

/// `text` put in front of the text in `r`, if `r` is no fault.
pub open spec fn prefixed(text: Seq<u8>, r: Result<(Seq<u8>, u16), Fault>) -> Result<
    (Seq<u8>, u16),
    Fault,
> {
    match r {
        Ok((rest, sp)) => Ok((text + rest, sp)),
        Err(f) => Err(f),
    }
}

/// `PRNT_STACK`.
pub open spec fn step_print_stack(s: CpuState) -> Result<Transition, Fault> {
    match stack_text(s.mem, s.sp) {
        Err(f) => Err(f),
        Ok((text, sp)) => Ok(
            Transition {
                next: CpuState { sp: sp, loc: (s.loc + 1) as usize, ..s },
                output: text,
                status: Status::Running,
            },
        ),
    }
}

/// One step of the processor from state `s`.
#[verifier::opaque]
pub open spec fn step_spec(s: CpuState) -> Result<Transition, Fault> {
    if s.loc >= s.mem.len() {
        Ok(Transition { next: s, output: Seq::empty(), status: Status::Halted })
    } else {
        let op = s.mem[s.loc as int];
        if op == EXIT {
            Ok(Transition { next: s, output: Seq::empty(), status: Status::Halted })
        } else if op == MOV {
            step_mov(s)
        } else if INC <= op <= FLIP {
            step_one_register(s, op)
        } else if ADD <= op <= MOD {
            step_two_register(s, op)
        } else if op == LD_32 {
            step_ld_32(s)
        } else if op == LD_BYTE {
            step_ld_byte(s)
        } else if READ_32_R <= op <= WRITE_BYTE_C {
            step_transfer(s, op)
        } else if op == PUSH || op == POP {
            step_push_pop(s, op)
        } else if op == PUSHA || op == POPA {
            step_push_pop_all(s, op)
        } else if JNZ <= op <= JZ_R {
            step_jump(s, op)
        } else if op == PRNTC_LOC {
            step_print_char(s)
        } else if op == PRNT_STACK {
            step_print_stack(s)
        } else if op == PAD {
            running(at(s, s.loc + 1))
        } else {
            Ok(Transition { next: s, output: Seq::empty(), status: Status::Unknown(op) })
        }
    }
}

/// The state, the bytes printed and the final result after stepping from `s` until
/// the processor stops running (it halts, meets an unknown byte, or faults) or
/// `fuel` steps have been taken. A faulting step changes nothing.
pub open spec fn run_spec(s: CpuState, fuel: nat) -> (CpuState, Seq<u8>, Result<Status, Fault>)
    decreases fuel,
{
    if fuel == 0 {
        (s, Seq::empty(), Ok(Status::Running))
    } else {
        match step_spec(s) {
            Err(f) => (s, Seq::empty(), Err(f)),
            Ok(t) => if t.status == Status::Running {
                let rest = run_spec(t.next, (fuel - 1) as nat);
                (rest.0, t.output + rest.1, rest.2)
            } else {
                (t.next, t.output, Ok(t.status))
            },
        }
    }
}

} // verus!
