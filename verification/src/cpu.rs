//! The processor: its state in memory, and the step that carries out one instruction.

use vstd::prelude::*;
use crate::bytes::{bytes_to_i32, encode_i32, splice};
use crate::instruction_consts::{
    ADD, AND, DEC, DIV, EXIT, FLIP, INC, JNZ, JNZ_R, JZ, JZ_R, LD_32, LD_BYTE, MOD, MOV, MULT, OR,
    PAD, POP, POPA, PRNTC_LOC, PRNT_STACK, PUSH, PUSHA, READ_32_C, READ_32_R, READ_BYTE_C,
    READ_BYTE_R, ROTATE_LEFT, ROTATE_RIGHT, SUB, WRITE_32_C, WRITE_BYTE_C, WRITE_BYTE_R,
};
use crate::instructions::{
    flip, inc, jnz, jz, ld_32, ld_byte, mov, pop, pop_reg, push_reg, two_register_math,
};
use crate::semantics::{
    at, euclid_rem, prefixed, wrapping_quotient, stack_text, step_jump, step_ld_32, step_ld_byte,
    step_mov, step_one_register, step_print_char, step_print_stack, step_push_pop,
    step_push_pop_all, step_spec, run_spec, step_transfer, step_two_register, transfer, CpuState,
    Fault, Status, Transition, MEM_LEN, NUM_REGISTERS, STACK_START,
};

verus! {

/// The processor: sixteen registers, a byte memory that holds program and data, the
/// flag byte, the stack pointer and the location of the next instruction.
pub struct Cpu {
    pub registers: Vec<i32>,
    pub mem: Vec<u8>,
    pub flag: u8,
    pub sp: u16,
    pub loc: usize,
}

impl View for Cpu {
    type V = CpuState;

    open spec fn view(&self) -> CpuState {
        CpuState {
            registers: self.registers@,
            mem: self.mem@,
            flag: self.flag,
            sp: self.sp,
            loc: self.loc,
        }
    }
}

/// `ADD`: wrapping addition.
fn wrapping_add_op(x: i32, y: i32) -> (z: i32)
    ensures
        z == vstd::wrapping::i32_specs::wrapping_add(x, y),
{
    x.wrapping_add(y)
}

/// `SUB`: wrapping subtraction.
fn wrapping_sub_op(x: i32, y: i32) -> (z: i32)
    ensures
        z == vstd::wrapping::i32_specs::wrapping_sub(x, y),
{
    x.wrapping_sub(y)
}

/// `MULT`: wrapping multiplication.
fn wrapping_mul_op(x: i32, y: i32) -> (z: i32)
    ensures
        z == vstd::wrapping::i32_specs::wrapping_mul(x, y),
{
    x.wrapping_mul(y)
}

/// `DIV`: division rounding towards zero; the one overflowing quotient wraps.
fn wrapping_div_op(x: i32, y: i32) -> (z: i32)
    requires
        y != 0,
    ensures
        z == wrapping_quotient(x, y),
{
    proof {
        crate::semantics::lemma_trunc_div_range(x, y);
    }
    match x.checked_div(y) {
        Some(q) => q,
        None => i32::MIN,
    }
}

/// `AND`: bitwise and.
fn and_op(x: i32, y: i32) -> (z: i32)
    ensures
        z == x & y,
{
    x & y
}

/// `OR`: bitwise or.
fn or_op(x: i32, y: i32) -> (z: i32)
    ensures
        z == x | y,
{
    x | y
}

/// `MOD`: Euclidean remainder.
fn rem_euclid_op(x: i32, y: i32) -> (z: i32)
    requires
        y != 0,
        !(x == i32::MIN && y == -1),
    ensures
        z == euclid_rem(x, y),
{
    match x.checked_rem_euclid(y) {
        Some(m) => m,
        None => 0,
    }
}

/// A step that printed nothing ended as `expected` says, from `pre` to `post` with
/// result `r`; on a fault the state is unchanged.
pub open spec fn silent_outcome(
    pre: CpuState,
    post: CpuState,
    r: Result<Status, Fault>,
    expected: Result<Transition, Fault>,
) -> bool {
    match expected {
        Ok(t) => r == Ok::<Status, Fault>(t.status) && post == t.next && t.output
            == Seq::<u8>::empty(),
        Err(f) => r == Err::<Status, Fault>(f) && post == pre,
    }
}

/// A step ended as `expected` says: from `pre` to `post` with result `r`, having
/// appended what it printed to the output, which went from `out_pre` to `out_post`.
/// On a fault neither the state nor the output changed.
pub open spec fn outcome_matches(
    pre: CpuState,
    post: CpuState,
    out_pre: Seq<u8>,
    out_post: Seq<u8>,
    r: Result<Status, Fault>,
    expected: Result<Transition, Fault>,
) -> bool {
    match expected {
        Ok(t) => r == Ok::<Status, Fault>(t.status) && post == t.next && out_post == out_pre
            + t.output,
        Err(f) => r == Err::<Status, Fault>(f) && post == pre && out_post == out_pre,
    }
}

impl Cpu {
    /// Sixteen registers and `MEM_LEN` bytes of memory.
    pub open spec fn wf(&self) -> bool {
        self@.wf()
    }

    /// A processor with all registers, memory and the flag zero, the stack pointer at
    /// `STACK_START`, and location 0.
    pub fn new() -> (cpu: Cpu)
        ensures
            cpu.wf(),
            cpu@.registers == Seq::new(NUM_REGISTERS as nat, |i: int| 0i32),
            cpu@.mem == Seq::new(MEM_LEN as nat, |i: int| 0u8),
            cpu@.flag == 0,
            cpu@.sp == STACK_START,
            cpu@.loc == 0,
    {
        let registers: Vec<i32> = vec![0i32; NUM_REGISTERS];
        let mem: Vec<u8> = vec![0u8; MEM_LEN];
        let cpu = Cpu { registers, mem, flag: 0b0000000_0, sp: STACK_START, loc: 0 };
        assert(cpu@.registers =~= Seq::new(NUM_REGISTERS as nat, |i: int| 0i32));
        assert(cpu@.mem =~= Seq::new(MEM_LEN as nat, |i: int| 0u8));
        cpu
    }

    /// Copies `program` into memory from location `at` on.
    pub fn load(&mut self, at: usize, program: &[u8])
        requires
            old(self).wf(),
            at + program@.len() <= MEM_LEN,
        ensures
            final(self).wf(),
            final(self)@ == (CpuState {
                mem: splice(old(self)@.mem, at as int, program@),
                ..old(self)@
            }),
    {
        let n: usize = program.len();
        let mut i: usize = 0;
        while i < n
            invariant
                self.wf(),
                old(self).wf(),
                0 <= i <= n,
                n == program@.len(),
                at + n <= MEM_LEN,
                self.registers@ == old(self)@.registers,
                self.flag == old(self)@.flag,
                self.sp == old(self)@.sp,
                self.loc == old(self)@.loc,
                self.mem@ =~= splice(old(self)@.mem, at as int, program@.take(i as int)),
            decreases n - i,
        {
            proof {
                assert(program@.take(i + 1) =~= program@.take(i as int).push(program@[i as int]));
                crate::bytes::lemma_splice_push(
                    old(self)@.mem,
                    at as int,
                    program@.take(i as int),
                    program@[i as int],
                );
            }
            self.mem.set(at + i, program[i]);
            i = i + 1;
        }
        assert(program@.take(n as int) =~= program@);
        assert(self@ =~= CpuState {
            mem: splice(old(self)@.mem, at as int, program@),
            ..old(self)@
        });
    }

    /// `MOV`.
    fn exec_mov(&mut self) -> (r: Result<Status, Fault>)
        requires
            old(self).wf(),
            old(self).loc < MEM_LEN,
        ensures
            final(self).wf(),
            silent_outcome(old(self)@, final(self)@, r, step_mov(old(self)@)),
    {
        let loc: usize = self.loc;
        if loc + 1 >= self.mem.len() {
            return Err(Fault::MemoryOutOfRange);
        }
        let byte: u8 = self.mem[loc + 1];
        proof {
            assert(byte >> 4u8 < 16u8) by (bit_vector);
            assert(byte & 0x0Fu8 < 16u8) by (bit_vector);
        }
        mov(self.registers.as_mut_slice(), &byte);
        self.loc = loc + 2;
        proof {
            let t = step_mov(old(self)@)->Ok_0;
            assert(self@ =~= t.next);
        }
        Ok(Status::Running)
    }

    /// `INC`, `DEC` and `FLIP`.
    fn exec_one_register(&mut self, op: u8) -> (r: Result<Status, Fault>)
        requires
            old(self).wf(),
            old(self).loc < MEM_LEN,
            INC <= op <= FLIP,
        ensures
            final(self).wf(),
            silent_outcome(old(self)@, final(self)@, r, step_one_register(old(self)@, op)),
    {
        let loc: usize = self.loc;
        if loc + 1 >= self.mem.len() {
            return Err(Fault::MemoryOutOfRange);
        }
        let register: usize = self.mem[loc + 1] as usize;
        if register >= self.registers.len() {
            return Err(Fault::BadRegister);
        }
        if op == INC {
            if self.registers[register] == i32::MAX {
                return Err(Fault::ArithmeticOverflow);
            }
            inc(register, self.registers.as_mut_slice(), 1, &mut self.flag);
        } else if op == DEC {
            if self.registers[register] == i32::MIN {
                return Err(Fault::ArithmeticOverflow);
            }
            inc(register, self.registers.as_mut_slice(), -1, &mut self.flag);
        } else {
            flip(register, self.registers.as_mut_slice(), &mut self.flag);
        }
        self.loc = loc + 2;
        proof {
            let t = step_one_register(old(self)@, op)->Ok_0;
            assert(self@ =~= t.next);
        }
        Ok(Status::Running)
    }

    /// `ADD`, `SUB`, `MULT`, `DIV`, `AND`, `OR`, `MOD` and the reserved rotations.
    fn exec_two_register(&mut self, op: u8) -> (r: Result<Status, Fault>)
        requires
            old(self).wf(),
            old(self).loc < MEM_LEN,
            ADD <= op <= MOD,
        ensures
            final(self).wf(),
            silent_outcome(old(self)@, final(self)@, r, step_two_register(old(self)@, op)),
    {
        let loc: usize = self.loc;
        if op == ROTATE_LEFT || op == ROTATE_RIGHT {
            self.loc = loc + 3;
            proof {
                assert(self@ =~= at(old(self)@, old(self)@.loc + 3));
            }
            return Ok(Status::Running);
        }
        if loc + 2 >= self.mem.len() {
            return Err(Fault::MemoryOutOfRange);
        }
        let byte: u8 = self.mem[loc + 1];
        let dest: u8 = self.mem[loc + 2];
        proof {
            assert(byte >> 4u8 < 16u8) by (bit_vector);
            assert(byte & 0x0Fu8 < 16u8) by (bit_vector);
            assert((byte & 0xF0u8) >> 4u8 == byte >> 4u8) by (bit_vector);
        }
        let a: i32 = self.registers[((byte & 0xF0) >> 4) as usize];
        let b: i32 = self.registers[(byte & 0x0F) as usize];
        if (op == DIV || op == MOD) && b == 0 {
            return Err(Fault::DivideByZero);
        }
        if op == MOD && a == i32::MIN && b == -1 {
            return Err(Fault::ArithmeticOverflow);
        }
        if dest as usize >= self.registers.len() {
            return Err(Fault::BadRegister);
        }
        if op == ADD {
            two_register_math(
                byte,
                dest,
                wrapping_add_op,
                self.registers.as_mut_slice(),
                &mut self.flag,
            );
        } else if op == SUB {
            two_register_math(
                byte,
                dest,
                wrapping_sub_op,
                self.registers.as_mut_slice(),
                &mut self.flag,
            );
        } else if op == MULT {
            two_register_math(
                byte,
                dest,
                wrapping_mul_op,
                self.registers.as_mut_slice(),
                &mut self.flag,
            );
        } else if op == DIV {
            two_register_math(
                byte,
                dest,
                wrapping_div_op,
                self.registers.as_mut_slice(),
                &mut self.flag,
            );
        } else if op == AND {
            two_register_math(
                byte,
                dest,
                and_op,
                self.registers.as_mut_slice(),
                &mut self.flag,
            );
        } else if op == OR {
            two_register_math(byte, dest, or_op, self.registers.as_mut_slice(), &mut self.flag);
        } else {
            two_register_math(
                byte,
                dest,
                rem_euclid_op,
                self.registers.as_mut_slice(),
                &mut self.flag,
            );
        }
        self.loc = loc + 3;
        proof {
            let t = step_two_register(old(self)@, op)->Ok_0;
            assert(self@ =~= t.next);
        }
        Ok(Status::Running)
    }

    /// `LD_32`.
    fn exec_ld_32(&mut self) -> (r: Result<Status, Fault>)
        requires
            old(self).wf(),
            old(self).loc < MEM_LEN,
        ensures
            final(self).wf(),
            silent_outcome(old(self)@, final(self)@, r, step_ld_32(old(self)@)),
    {
        let loc: usize = self.loc;
        if loc + 6 > self.mem.len() {
            return Err(Fault::MemoryOutOfRange);
        }
        let dest: usize = self.mem[loc + 1] as usize;
        let the_int: i32 = bytes_to_i32(&self.mem.as_slice()[loc + 2..loc + 6]);
        if dest >= self.registers.len() {
            return Err(Fault::BadRegister);
        }
        ld_32(dest, self.registers.as_mut_slice(), the_int);
        self.loc = loc + 6;
        proof {
            let t = step_ld_32(old(self)@)->Ok_0;
            assert(self@ =~= t.next);
        }
        Ok(Status::Running)
    }

    /// `LD_BYTE`.
    fn exec_ld_byte(&mut self) -> (r: Result<Status, Fault>)
        requires
            old(self).wf(),
            old(self).loc < MEM_LEN,
        ensures
            final(self).wf(),
            silent_outcome(old(self)@, final(self)@, r, step_ld_byte(old(self)@)),
    {
        let loc: usize = self.loc;
        if loc + 2 >= self.mem.len() {
            return Err(Fault::MemoryOutOfRange);
        }
        let byte: u8 = self.mem[loc + 2];
        let dest: usize = self.mem[loc + 1] as usize;
        if dest >= self.registers.len() {
            return Err(Fault::BadRegister);
        }
        ld_byte(dest, self.registers.as_mut_slice(), byte);
        self.loc = loc + 3;
        proof {
            let t = step_ld_byte(old(self)@)->Ok_0;
            assert(self@ =~= t.next);
        }
        Ok(Status::Running)
    }

    /// Moves a byte or word between register `register` and memory location
    /// `mem_loc`, then goes to location `next`.
    fn exec_transfer_at(&mut self, op: u8, register: usize, mem_loc: usize, next: usize) -> (r:
        Result<Status, Fault>)
        requires
            old(self).wf(),
            register < NUM_REGISTERS,
        ensures
            final(self).wf(),
            silent_outcome(
                old(self)@,
                final(self)@,
                r,
                transfer(old(self)@, op, register as int, mem_loc, next as int),
            ),
    {
        if op == READ_BYTE_R || op == WRITE_BYTE_R || op == READ_BYTE_C || op == WRITE_BYTE_C {
            if mem_loc >= self.mem.len() {
                return Err(Fault::MemoryOutOfRange);
            }
            if op == READ_BYTE_R || op == READ_BYTE_C {
                let value: i32 = self.mem[mem_loc] as i32;
                self.registers.set(register, value);
            } else {
                let value: i32 = self.registers[register];
                assert((value & 0b11111111i32) as u8 == value as u8) by (bit_vector);
                self.mem.set(mem_loc, (value & 0b11111111) as u8);
            }
        } else {
            if mem_loc > self.mem.len() - 4 {
                return Err(Fault::MemoryOutOfRange);
            }
            if op == READ_32_R || op == READ_32_C {
                let value: i32 = bytes_to_i32(&self.mem.as_slice()[mem_loc..mem_loc + 4]);
                self.registers.set(register, value);
            } else {
                let contents: i32 = self.registers[register];
                proof {
                    assert(((contents >> 24i32) & 0xFFi32) as u8 == ((contents as u32) >> 24u32) as u8)
                        by (bit_vector);
                    assert(((contents >> 16i32) & 0xFFi32) as u8 == ((contents as u32) >> 16u32) as u8)
                        by (bit_vector);
                    assert(((contents >> 8i32) & 0xFFi32) as u8 == ((contents as u32) >> 8u32) as u8)
                        by (bit_vector);
                    assert((contents & 0xFFi32) as u8 == contents as u8) by (bit_vector);
                }
                self.mem.set(mem_loc + 3, (contents & 0x00_00_00_FF) as u8);
                self.mem.set(mem_loc + 2, ((contents >> 8) & 0x00_00_00_FF) as u8);
                self.mem.set(mem_loc + 1, ((contents >> 16) & 0x00_00_00_FF) as u8);
                self.mem.set(mem_loc, ((contents >> 24) & 0x00_00_00_FF) as u8);
                assert(self.mem@ =~= splice(old(self)@.mem, mem_loc as int, encode_i32(contents)));
            }
        }
        self.loc = next;
        proof {
            let t = transfer(old(self)@, op, register as int, mem_loc, next as int)->Ok_0;
            assert(self@ =~= t.next);
        }
        Ok(Status::Running)
    }

    /// Opcodes from `READ_32_R` to `WRITE_BYTE_C`.
    fn exec_transfer(&mut self, op: u8) -> (r: Result<Status, Fault>)
        requires
            old(self).wf(),
            old(self).loc < MEM_LEN,
            READ_32_R <= op <= WRITE_BYTE_C,
        ensures
            final(self).wf(),
            silent_outcome(old(self)@, final(self)@, r, step_transfer(old(self)@, op)),
    {
        let loc: usize = self.loc;
        if op <= WRITE_BYTE_R {
            if loc + 1 >= self.mem.len() {
                return Err(Fault::MemoryOutOfRange);
            }
            let byte: u8 = self.mem[loc + 1];
            proof {
                assert(byte >> 4u8 < 16u8) by (bit_vector);
                assert(byte & 0x0Fu8 < 16u8) by (bit_vector);
                assert((byte & 0xF0u8) >> 4u8 == byte >> 4u8) by (bit_vector);
            }
            let register: usize = ((byte & 0b1111_0000) >> 4) as usize;
            let mem_loc: usize = self.registers[(byte & 0b0000_1111) as usize] as usize;
            self.exec_transfer_at(op, register, mem_loc, loc + 2)
        } else if op == READ_32_C || op == WRITE_32_C {
            if loc + 6 > self.mem.len() {
                return Err(Fault::MemoryOutOfRange);
            }
            let register: usize = self.mem[loc + 1] as usize;
            if register >= self.registers.len() {
                return Err(Fault::BadRegister);
            }
            let location: i32 = bytes_to_i32(&self.mem.as_slice()[loc + 2..loc + 6]);
            let mem_loc: usize = location as u32 as usize;
            self.exec_transfer_at(op, register, mem_loc, loc + 6)
        } else if op == READ_BYTE_C || op == WRITE_BYTE_C {
            if loc + 2 >= self.mem.len() {
                return Err(Fault::MemoryOutOfRange);
            }
            let register: usize = self.mem[loc + 1] as usize;
            if register >= self.registers.len() {
                return Err(Fault::BadRegister);
            }
            let mem_loc: usize = self.mem[loc + 2] as usize;
            self.exec_transfer_at(op, register, mem_loc, loc + 3)
        } else {
            if loc + 1 >= self.mem.len() {
                return Err(Fault::MemoryOutOfRange);
            }
            self.loc = loc + 4;
            proof {
                assert(self@ =~= at(old(self)@, old(self)@.loc + 4));
            }
            Ok(Status::Running)
        }
    }

    /// `PUSH` and `POP`.
    fn exec_push_pop(&mut self, op: u8) -> (r: Result<Status, Fault>)
        requires
            old(self).wf(),
            old(self).loc < MEM_LEN,
            op == PUSH || op == POP,
        ensures
            final(self).wf(),
            silent_outcome(old(self)@, final(self)@, r, step_push_pop(old(self)@, op)),
    {
        let loc: usize = self.loc;
        if loc + 1 >= self.mem.len() {
            return Err(Fault::MemoryOutOfRange);
        }
        let register: usize = self.mem[loc + 1] as usize;
        if op == PUSH {
            if register >= self.registers.len() {
                return Err(Fault::BadRegister);
            }
            if self.sp as usize + 4 > self.mem.len() {
                return Err(Fault::StackOverflow);
            }
            push_reg(register, self.registers.as_slice(), self.mem.as_mut_slice(), &mut self.sp);
        } else {
            if self.sp < 4 {
                return Err(Fault::StackUnderflow);
            }
            if self.sp as usize > self.mem.len() {
                return Err(Fault::StackOverflow);
            }
            if register >= self.registers.len() {
                return Err(Fault::BadRegister);
            }
            pop_reg(register, self.registers.as_mut_slice(), self.mem.as_slice(), &mut self.sp);
        }
        self.loc = loc + 2;
        proof {
            let t = step_push_pop(old(self)@, op)->Ok_0;
            assert(self@ =~= t.next);
        }
        Ok(Status::Running)
    }

    /// `JNZ`, `JZ`, `JNZ_R`, `JZ_R` and the unassigned opcodes between them.
    fn exec_jump(&mut self, op: u8) -> (r: Result<Status, Fault>)
        requires
            old(self).wf(),
            old(self).loc < MEM_LEN,
            JNZ <= op <= JZ_R,
        ensures
            final(self).wf(),
            silent_outcome(old(self)@, final(self)@, r, step_jump(old(self)@, op)),
    {
        let loc: usize = self.loc;
        if loc + 1 >= self.mem.len() {
            return Err(Fault::MemoryOutOfRange);
        }
        let operand: u8 = self.mem[loc + 1];
        let dest: usize;
        if op == JNZ_R || op == JZ_R {
            if operand as usize >= self.registers.len() {
                return Err(Fault::BadRegister);
            }
            dest = self.registers[operand as usize] as usize;
        } else {
            dest = operand as usize;
        }
        if op == JZ || op == JZ_R {
            jz(dest, &self.flag, &mut self.loc);
        } else {
            jnz(dest, &self.flag, &mut self.loc);
        }
        proof {
            let t = step_jump(old(self)@, op)->Ok_0;
            assert(self@ =~= t.next);
        }
        Ok(Status::Running)
    }

    /// `PRNTC_LOC`.
    fn exec_print_char(&mut self, out: &mut Vec<u8>) -> (r: Result<Status, Fault>)
        requires
            old(self).wf(),
            old(self).loc < MEM_LEN,
        ensures
            final(self).wf(),
            outcome_matches(
                old(self)@,
                final(self)@,
                old(out)@,
                final(out)@,
                r,
                step_print_char(old(self)@),
            ),
    {
        let loc: usize = self.loc;
        if loc + 1 >= self.mem.len() {
            return Err(Fault::MemoryOutOfRange);
        }
        let register: usize = self.mem[loc + 1] as usize;
        if register >= self.registers.len() {
            return Err(Fault::BadRegister);
        }
        let mem_loc: usize = self.registers[register] as usize;
        if mem_loc >= self.mem.len() {
            return Err(Fault::MemoryOutOfRange);
        }
        out.push(self.mem[mem_loc]);
        self.loc = loc + 2;
        proof {
            let t = step_print_char(old(self)@)->Ok_0;
            assert(self@ =~= t.next);
            assert(out@ =~= old(out)@ + t.output);
        }
        Ok(Status::Running)
    }

    /// `PUSHA` and `POPA`.
    fn exec_push_pop_all(&mut self, op: u8) -> (r: Result<Status, Fault>)
        requires
            old(self).wf(),
            old(self).loc < MEM_LEN,
            op == PUSHA || op == POPA,
        ensures
            final(self).wf(),
            silent_outcome(old(self)@, final(self)@, r, step_push_pop_all(old(self)@, op)),
    {
        let loc: usize = self.loc;
        let ghost pre = self@;
        if op == PUSHA {
            if self.sp as usize + 4 * NUM_REGISTERS > self.mem.len() {
                return Err(Fault::StackOverflow);
            }
            let mut register: usize = 0;
            while register < NUM_REGISTERS
                invariant
                    self.wf(),
                    pre.wf(),
                    0 <= register <= NUM_REGISTERS,
                    pre.sp + 4 * NUM_REGISTERS <= MEM_LEN,
                    self.registers@ == pre.registers,
                    self.flag == pre.flag,
                    self.loc == pre.loc,
                    self.sp == pre.sp + 4 * register,
                    self.mem@ == splice(
                        pre.mem,
                        pre.sp as int,
                        crate::semantics::encode_registers(pre.registers.take(register as int)),
                    ),
                decreases NUM_REGISTERS - register,
            {
                proof {
                    crate::semantics::lemma_encode_registers_len(pre.registers.take(register as int));
                    crate::semantics::lemma_encode_registers_take(pre.registers, register as int);
                    crate::bytes::lemma_splice_concat(
                        pre.mem,
                        pre.sp as int,
                        crate::semantics::encode_registers(pre.registers.take(register as int)),
                        encode_i32(pre.registers[register as int]),
                    );
                }
                push_reg(
                    register,
                    self.registers.as_slice(),
                    self.mem.as_mut_slice(),
                    &mut self.sp,
                );
                register = register + 1;
            }
            proof {
                assert(pre.registers.take(NUM_REGISTERS as int) =~= pre.registers);
            }
        } else {
            if self.sp < 4 {
                return Err(Fault::StackUnderflow);
            }
            if self.sp as usize > self.mem.len() {
                return Err(Fault::StackOverflow);
            }
            if (self.sp as usize) < 4 * NUM_REGISTERS {
                return Err(Fault::StackUnderflow);
            }
            let ghost base: int = pre.sp - 4 * NUM_REGISTERS;
            let ghost words = crate::semantics::decode_words(pre.mem, base, NUM_REGISTERS as nat);
            let mut register: usize = NUM_REGISTERS;
            while register > 0
                invariant
                    self.wf(),
                    0 <= register <= NUM_REGISTERS,
                    0 <= base,
                    base + 4 * NUM_REGISTERS == pre.sp,
                    pre.sp <= MEM_LEN,
                    words == crate::semantics::decode_words(pre.mem, base, NUM_REGISTERS as nat),
                    self.mem@ == pre.mem,
                    self.flag == pre.flag,
                    self.loc == pre.loc,
                    self.sp == base + 4 * register,
                    forall|j: int| 0 <= j < register ==> self.registers@[j] == pre.registers[j],
                    forall|j: int| register <= j < NUM_REGISTERS ==> self.registers@[j] == words[j],
                decreases register,
            {
                register = register - 1;
                pop_reg(register, self.registers.as_mut_slice(), self.mem.as_slice(), &mut self.sp);
            }
            proof {
                assert(self.registers@ =~= words);
            }
        }
        self.loc = loc + 1;
        proof {
            let t = step_push_pop_all(old(self)@, op)->Ok_0;
            assert(self@ =~= t.next);
        }
        Ok(Status::Running)
    }

    /// `PRNT_STACK`.
    fn exec_print_stack(&mut self, out: &mut Vec<u8>) -> (r: Result<Status, Fault>)
        requires
            old(self).wf(),
            old(self).loc < MEM_LEN,
        ensures
            final(self).wf(),
            outcome_matches(
                old(self)@,
                final(self)@,
                old(out)@,
                final(out)@,
                r,
                step_print_stack(old(self)@),
            ),
    {
        let ghost pre = self@;
        let mut sp: u16 = self.sp;
        let mut text: Vec<u8> = Vec::new();
        loop
            invariant_except_break
                self@ == pre,
                pre.wf(),
                stack_text(pre.mem, pre.sp) == prefixed(text@, stack_text(pre.mem, sp)),
            ensures
                self@ == pre,
                pre.wf(),
                stack_text(pre.mem, pre.sp) == Ok::<(Seq<u8>, u16), Fault>((text@, sp)),
            decreases sp,
        {
            if sp < 4 {
                return Err(Fault::StackUnderflow);
            }
            if sp as usize > self.mem.len() {
                return Err(Fault::StackOverflow);
            }
            let ghost before: u16 = sp;
            let the_byte: u8 = (pop(self.mem.as_slice(), &mut sp) & 0xFF) as u8;
            proof {
                crate::bytes::lemma_decode_low_byte(pre.mem.subrange(before - 4, before as int));
            }
            if the_byte == 0 {
                proof {
                    assert(text@ + Seq::<u8>::empty() =~= text@);
                }
                break;
            }
            proof {
                assert(text@.push(the_byte) =~= text@ + seq![the_byte]);
                match stack_text(pre.mem, sp) {
                    Ok((rest, _)) => {
                        assert(text@ + (seq![the_byte] + rest) =~= text@.push(the_byte) + rest);
                    },
                    Err(_) => {},
                }
            }
            text.push(the_byte);
        }
        self.sp = sp;
        out.append(&mut text);
        self.loc = self.loc + 1;
        proof {
            let t = step_print_stack(old(self)@)->Ok_0;
            assert(self@ =~= t.next);
        }
        Ok(Status::Running)
    }

    /// Carries out the instruction at the current location, appending what it prints
    /// to `out`. At or past the end of memory, and at `EXIT`, the processor is halted
    /// and nothing changes; at a byte that is no instruction nothing changes either.
    pub fn step(&mut self, out: &mut Vec<u8>) -> (r: Result<Status, Fault>)
        requires
            old(self).wf(),
        ensures
            final(self).wf(),
            outcome_matches(
                old(self)@,
                final(self)@,
                old(out)@,
                final(out)@,
                r,
                step_spec(old(self)@),
            ),
    {
        proof {
            reveal(step_spec);
        }
        if self.loc >= self.mem.len() {
            proof {
                assert(old(out)@ + Seq::<u8>::empty() =~= old(out)@);
            }
            return Ok(Status::Halted);
        }
        let op: u8 = self.mem[self.loc];
        let r = if op == EXIT {
            Ok(Status::Halted)
        } else if op == MOV {
            self.exec_mov()
        } else if INC <= op && op <= FLIP {
            self.exec_one_register(op)
        } else if ADD <= op && op <= MOD {
            self.exec_two_register(op)
        } else if op == LD_32 {
            self.exec_ld_32()
        } else if op == LD_BYTE {
            self.exec_ld_byte()
        } else if READ_32_R <= op && op <= WRITE_BYTE_C {
            self.exec_transfer(op)
        } else if op == PUSH || op == POP {
            self.exec_push_pop(op)
        } else if op == PUSHA || op == POPA {
            self.exec_push_pop_all(op)
        } else if JNZ <= op && op <= JZ_R {
            self.exec_jump(op)
        } else if op == PRNTC_LOC {
            return self.exec_print_char(out);
        } else if op == PRNT_STACK {
            return self.exec_print_stack(out);
        } else if op == PAD {
            self.loc = self.loc + 1;
            proof {
                assert(self@ =~= at(old(self)@, old(self)@.loc + 1));
            }
            Ok(Status::Running)
        } else {
            Ok(Status::Unknown(op))
        };
        proof {
            assert(old(out)@ + Seq::<u8>::empty() =~= old(out)@);
        }
        r
    }

    /// Steps until the processor stops running (it halts, meets a byte that is no
    /// instruction, or faults) or `max_steps` steps have been taken, appending what
    /// it prints to `out`.
    pub fn run(&mut self, out: &mut Vec<u8>, max_steps: u64) -> (r: Result<Status, Fault>)
        requires
            old(self).wf(),
        ensures
            final(self).wf(),
            final(self)@ == run_spec(old(self)@, max_steps as nat).0,
            final(out)@ == old(out)@ + run_spec(old(self)@, max_steps as nat).1,
            r == run_spec(old(self)@, max_steps as nat).2,
    {
        let ghost start = self@;
        let ghost out_start = out@;
        let mut remaining: u64 = max_steps;
        loop
            invariant
                self.wf(),
                start == old(self)@,
                out_start == old(out)@,
                run_spec(start, max_steps as nat).0 == run_spec(self@, remaining as nat).0,
                run_spec(start, max_steps as nat).2 == run_spec(self@, remaining as nat).2,
                out_start + run_spec(start, max_steps as nat).1 == out@ + run_spec(
                    self@,
                    remaining as nat,
                ).1,
            decreases remaining,
        {
            if remaining == 0 {
                proof {
                    assert(out@ + Seq::<u8>::empty() =~= out@);
                }
                return Ok(Status::Running);
            }
            let ghost before = self@;
            let ghost out_before = out@;
            let r = self.step(out);
            match r {
                Err(f) => {
                    proof {
                        assert(out@ + Seq::<u8>::empty() =~= out@);
                    }
                    return Err(f);
                },
                Ok(Status::Running) => {
                    proof {
                        let t = step_spec(before)->Ok_0;
                        let rest = run_spec(t.next, (remaining - 1) as nat);
                        assert(out_before + (t.output + rest.1) =~= out@ + rest.1);
                    }
                    remaining = remaining - 1;
                },
                Ok(status) => {
                    return Ok(status);
                },
            }
        }
    }
}

} // verus!
