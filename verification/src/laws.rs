//! Properties of the instruction set that relate several instructions or hold of
//! every state.

use vstd::prelude::*;
use crate::bytes::{encode_i32, lemma_decode_encode, splice};
use crate::instruction_consts::{
    ADD, DEC, EXIT, FLIP, INC, JNZ, JZ, MOD, POP, POPA, PRNTC_LOC, PRNT_STACK, PUSH, PUSHA,
    READ_32_C, READ_32_R, READ_BYTE_C, READ_BYTE_R, SUB, WRITE_32_C, WRITE_32_R, WRITE_BYTE_C,
    WRITE_BYTE_R,
};
use crate::instructions::{flag_after, zero_flag};
use crate::semantics::{
    at, prefixed, decode_words, encode_registers, euclid_rem, has_operand,
    lemma_encode_registers_len, math_result, operand, pop_all, push_all, run_spec, step_jump,
    step_one_register, step_push_pop, step_spec, transfer, stack_text, CpuState, Fault, Status,
    Transition,
};

verus! {

/// The word `i` of the encoded registers is the encoding of register `i`.
proof fn lemma_encode_registers_index(registers: Seq<i32>, i: int)
    requires
        0 <= i < registers.len(),
    ensures
        encode_registers(registers).subrange(4 * i, 4 * i + 4) == encode_i32(registers[i]),
    decreases registers.len(),
{
    let init = registers.drop_last();
    lemma_encode_registers_len(init);
    lemma_decode_encode(registers.last());
    if i == registers.len() - 1 {
        assert(encode_registers(registers).subrange(4 * i, 4 * i + 4) =~= encode_i32(registers[i]));
    } else {
        lemma_encode_registers_index(init, i);
        assert(encode_registers(registers).subrange(4 * i, 4 * i + 4) =~= encode_registers(
            init,
        ).subrange(4 * i, 4 * i + 4));
    }
}

/// The zero flag is set after an operation exactly when its result is zero, and the
/// other seven bits of the flag byte are left as they were.
pub proof fn law_zero_flag(flag: u8, value: i32)
    ensures
        zero_flag(flag_after(flag, value)) <==> value == 0,
        flag_after(flag, value) & 0xFEu8 == flag & 0xFEu8,
{
    assert((flag | 1u8) & 1u8 != 0 && (flag | 1u8) & 0xFEu8 == flag & 0xFEu8) by (bit_vector);
    assert((flag & 0xFEu8) & 1u8 == 0 && (flag & 0xFEu8) & 0xFEu8 == flag & 0xFEu8) by (bit_vector);
}

/// Subtracting what was just added gives the first operand back, also when the
/// addition wrapped.
pub proof fn law_sub_undoes_add(a: i32, b: i32)
    ensures
        math_result(ADD, a, b) matches Ok(sum) && math_result(SUB, sum, b) == Ok::<i32, Fault>(a),
{
}

/// The Euclidean remainder lies in `0..|b|`.
pub proof fn law_mod_range(a: i32, b: i32)
    requires
        b != 0,
    ensures
        0 <= euclid_rem(a, b),
        b > 0 ==> euclid_rem(a, b) < b,
        b < 0 ==> euclid_rem(a, b) < -b,
{
}

/// `DEC` on the same register undoes `INC`, and `INC` undoes `DEC`, wherever the first
/// of them does not overflow.
pub proof fn law_dec_undoes_inc(s: CpuState)
    requires
        s.wf(),
    ensures
        step_one_register(s, INC) matches Ok(t) ==> step_one_register(at(t.next, s.loc as int), DEC)
            matches Ok(u) && u.next.registers == s.registers,
        step_one_register(s, DEC) matches Ok(t) ==> step_one_register(at(t.next, s.loc as int), INC)
            matches Ok(u) && u.next.registers == s.registers,
{
    if let Ok(t) = step_one_register(s, INC) {
        let r = operand(s, 1) as int;
        assert(t.next.registers.update(r, s.registers[r]) =~= s.registers);
    }
    if let Ok(t) = step_one_register(s, DEC) {
        let r = operand(s, 1) as int;
        assert(t.next.registers.update(r, s.registers[r]) =~= s.registers);
    }
}

/// `FLIP` twice on the same register gives it its value back.
pub proof fn law_flip_twice(s: CpuState)
    requires
        s.wf(),
    ensures
        step_one_register(s, FLIP) matches Ok(t) ==> step_one_register(
            at(t.next, s.loc as int),
            FLIP,
        ) matches Ok(u) && u.next.registers == s.registers,
{
    if let Ok(t) = step_one_register(s, FLIP) {
        let r = operand(s, 1) as int;
        assert(t.next.registers.update(r, s.registers[r]) =~= s.registers);
    }
}

/// Of `JNZ` and `JZ` with the same operand and flag, exactly one jumps to the operand
/// and the other moves past the instruction.
pub proof fn law_jumps_complementary(s: CpuState)
    requires
        s.wf(),
        has_operand(s, 1),
    ensures
        step_jump(s, JNZ) matches Ok(t) && step_jump(s, JZ) matches Ok(u) && ({
            ||| t.next.loc == operand(s, 1) as usize && u.next.loc == s.loc + 2
            ||| t.next.loc == s.loc + 2 && u.next.loc == operand(s, 1) as usize
        }),
{
}

/// `POP` into a register undoes `PUSH` of it: the register and the stack pointer are as
/// before the push (unless the push overwrote the register operand itself).
pub proof fn law_pop_undoes_push(s: CpuState)
    requires
        s.wf(),
        !(s.sp <= s.loc + 1 < s.sp + 4),
    ensures
        step_push_pop(s, PUSH) matches Ok(t) ==> step_push_pop(at(t.next, s.loc as int), POP)
            matches Ok(u) && u.next.registers == s.registers && u.next.sp == s.sp,
{
    if let Ok(t) = step_push_pop(s, PUSH) {
        let r = operand(s, 1) as int;
        let v = s.registers[r];
        lemma_decode_encode(v);
        assert(t.next.mem.subrange(s.sp as int, s.sp + 4) =~= encode_i32(v));
        assert(s.registers.update(r, v) =~= s.registers);
        assert(t.next.mem[s.loc + 1] == s.mem[s.loc + 1]);
    }
}

/// `POPA` undoes `PUSHA`: all registers and the stack pointer are as before the push.
pub proof fn law_pop_all_undoes_push_all(s: CpuState)
    requires
        s.wf(),
    ensures
        push_all(s) matches Ok(p) ==> pop_all(p) matches Ok(q) && q.registers == s.registers && q.sp
            == s.sp && q.mem == p.mem,
{
    if let Ok(p) = push_all(s) {
        let enc = encode_registers(s.registers);
        lemma_encode_registers_len(s.registers);
        assert forall|i: int| 0 <= i < 16 implies #[trigger] decode_words(p.mem, s.sp as int, 16)[i]
            == s.registers[i] by {
            lemma_encode_registers_index(s.registers, i);
            lemma_decode_encode(s.registers[i]);
            assert(p.mem.subrange(s.sp + 4 * i, s.sp + 4 * i + 4) =~= enc.subrange(4 * i, 4 * i + 4));
        }
        assert(decode_words(p.mem, s.sp as int, 16) =~= s.registers);
    }
}

/// Reading a word back from where a word was just written gives the written register's
/// value, and the write leaves every other byte of memory as it was.
pub proof fn law_read_after_write_32(
    s: CpuState,
    write: u8,
    r: int,
    addr: usize,
    next: int,
    read: u8,
    r2: int,
    next2: int,
)
    requires
        s.wf(),
        write == WRITE_32_R || write == WRITE_32_C,
        read == READ_32_R || read == READ_32_C,
        0 <= r < 16,
        0 <= r2 < 16,
    ensures
        transfer(s, write, r, addr, next) matches Ok(t) ==> {
            &&& transfer(t.next, read, r2, addr, next2) matches Ok(u)
            &&& u.next.registers[r2] == s.registers[r]
            &&& forall|j: int|
                0 <= j < s.mem.len() && !(addr <= j < addr + 4) ==> #[trigger] t.next.mem[j]
                    == s.mem[j]
        },
{
    if let Ok(t) = transfer(s, write, r, addr, next) {
        lemma_decode_encode(s.registers[r]);
        assert(t.next.mem.subrange(addr as int, addr + 4) =~= encode_i32(s.registers[r]));
    }
}

/// Reading a byte back from where a byte was just written gives the lowest byte of the
/// written register, and the write leaves every other byte of memory as it was.
pub proof fn law_read_after_write_byte(
    s: CpuState,
    write: u8,
    r: int,
    addr: usize,
    next: int,
    read: u8,
    r2: int,
    next2: int,
)
    requires
        s.wf(),
        write == WRITE_BYTE_R || write == WRITE_BYTE_C,
        read == READ_BYTE_R || read == READ_BYTE_C,
        0 <= r < 16,
        0 <= r2 < 16,
    ensures
        transfer(s, write, r, addr, next) matches Ok(t) ==> {
            &&& transfer(t.next, read, r2, addr, next2) matches Ok(u)
            &&& u.next.registers[r2] == (s.registers[r] as u8) as i32
            &&& forall|j: int|
                0 <= j < s.mem.len() && j != addr ==> #[trigger] t.next.mem[j] == s.mem[j]
        },
{
}

/// What each step may touch: only the write instructions, `PUSH` and `PUSHA` change
/// memory; only the stack instructions and `PRNT_STACK` move the stack pointer; only
/// one- and two-register math changes the flag; only `PRNTC_LOC` and `PRNT_STACK`
/// print.
pub proof fn law_step_frame(s: CpuState)
    requires
        s.wf(),
    ensures
        step_spec(s) matches Ok(t) ==> {
            let op = s.mem[s.loc as int];
            &&& t.next.mem != s.mem ==> (op == WRITE_32_R || op == WRITE_BYTE_R || op == WRITE_32_C
                || op == WRITE_BYTE_C || op == PUSH || op == PUSHA)
            &&& t.next.sp != s.sp ==> (op == PUSH || op == POP || op == PUSHA || op == POPA || op
                == PRNT_STACK)
            &&& t.next.flag != s.flag ==> (INC <= op <= FLIP || ADD <= op <= MOD)
            &&& t.output.len() > 0 ==> (op == PRNTC_LOC || op == PRNT_STACK)
        },
{
    reveal(step_spec);
}

/// The text that `PRNT_STACK` prints depends only on the memory below the stack pointer.
proof fn lemma_stack_text_below(m1: Seq<u8>, m2: Seq<u8>, sp: u16)
    requires
        m1.len() == m2.len(),
        sp <= m1.len() ==> m1.take(sp as int) == m2.take(sp as int),
    ensures
        stack_text(m1, sp) == stack_text(m2, sp),
    decreases sp,
{
    if 4 <= sp && sp <= m1.len() {
        assert(m1[sp - 1] == m1.take(sp as int)[sp - 1]);
        assert(m2[sp - 1] == m2.take(sp as int)[sp - 1]);
        let lower = (sp - 4) as u16;
        assert(m1.take(lower as int) =~= m1.take(sp as int).take(lower as int));
        assert(m2.take(lower as int) =~= m2.take(sp as int).take(lower as int));
        lemma_stack_text_below(m1, m2, lower);
    }
}

/// After a word is pushed, `PRNT_STACK` prints its lowest byte and then what it would
/// have printed before the push; if that byte is zero it prints nothing and stops with
/// the stack pointer where it was before the push.
pub proof fn law_print_stack_after_push(mem: Seq<u8>, sp: u16, v: i32)
    requires
        sp + 4 <= mem.len(),
        sp + 4 <= u16::MAX,
    ensures
        stack_text(splice(mem, sp as int, encode_i32(v)), (sp + 4) as u16) == if v as u8 == 0 {
            Ok::<(Seq<u8>, u16), Fault>((Seq::empty(), sp))
        } else {
            prefixed(seq![v as u8], stack_text(mem, sp))
        },
{
    let pushed = splice(mem, sp as int, encode_i32(v));
    assert(pushed[sp + 3] == v as u8);
    assert(pushed.take(sp as int) =~= mem.take(sp as int));
    lemma_stack_text_below(pushed, mem, sp);
}

/// A halted processor stays as it is: at or past the end of memory, or at `EXIT`, a
/// step changes nothing and prints nothing, and so does any run.
pub proof fn law_halted_is_fixed(s: CpuState, fuel: nat)
    requires
        s.wf(),
        s.loc >= s.mem.len() || s.mem[s.loc as int] == EXIT,
    ensures
        step_spec(s) == Ok::<Transition, Fault>(
            Transition { next: s, output: Seq::empty(), status: Status::Halted },
        ),
        run_spec(s, fuel) == (if fuel == 0 {
            (s, Seq::<u8>::empty(), Ok::<Status, Fault>(Status::Running))
        } else {
            (s, Seq::<u8>::empty(), Ok::<Status, Fault>(Status::Halted))
        }),
{
    reveal(step_spec);
}

/// A step that meets a byte that is no instruction changes nothing and prints nothing.
pub proof fn law_unknown_changes_nothing(s: CpuState)
    requires
        s.wf(),
    ensures
        step_spec(s) matches Ok(t) ==> (t.status is Unknown ==> t.next == s && t.output
            == Seq::<u8>::empty()),
{
    reveal(step_spec);
}

/// A step keeps sixteen registers and `MEM_LEN` bytes of memory.
pub proof fn law_step_keeps_shape(s: CpuState)
    requires
        s.wf(),
    ensures
        step_spec(s) matches Ok(t) ==> t.next.wf(),
{
    reveal(step_spec);
    lemma_encode_registers_len(s.registers);
    if s.loc + 1 < s.mem.len() {
        crate::instructions::lemma_nibbles(operand(s, 1));
    }
}

} // verus!
