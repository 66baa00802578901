//! What the `PRINT32` routine does: for every non-negative number in register 1 it
//! prints the number's decimal digits and a space, then jumps to the location held in
//! register 15.

use vstd::prelude::*;
use crate::bytes::{encode_i32, splice};
use crate::instruction_consts::{JNZ_R, JZ_R, LD_BYTE, PAD, PRNT_STACK, PUSH};
use crate::instructions::{flag_after, high_nibble, low_nibble, zero_flag};
use crate::laws::{law_print_stack_after_push, law_zero_flag};
use crate::programs::PRINT32;
use crate::semantics::{
    address, at, math_result, run_spec, running, set_register, stack_text, step_spec, CpuState,
    Fault, Status, Transition, MEM_LEN,
};

verus! {

/// The decimal digits of `n`, most significant first, as ASCII bytes.
pub open spec fn decimal(n: nat) -> Seq<u8>
    decreases n,
{
    if n < 10 {
        seq![(48 + n) as u8]
    } else {
        decimal(n / 10) + seq![(48 + n % 10) as u8]
    }
}

/// The number of decimal digits of `n`.
pub open spec fn num_digits(n: nat) -> nat
    decreases n,
{
    if n < 10 {
        1
    } else {
        1 + num_digits(n / 10)
    }
}

/// `s` after a math instruction stored `value` in register `d` and moved to `loc`.
pub open spec fn math_next(s: CpuState, d: int, value: i32, loc: int) -> CpuState {
    CpuState {
        registers: s.registers.update(d, value),
        flag: flag_after(s.flag, value),
        loc: loc as usize,
        ..s
    }
}

/// `s` after pushing register `r` and moving to `loc`.
pub open spec fn push_next(s: CpuState, r: int, loc: int) -> CpuState {
    CpuState {
        mem: splice(s.mem, s.sp as int, encode_i32(s.registers[r])),
        sp: (s.sp + 4) as u16,
        loc: loc as usize,
        ..s
    }
}

/// The step at an `LD_BYTE` instruction.
pub proof fn lemma_step_ld_byte(s: CpuState)
    requires
        s.wf(),
        s.loc + 2 < s.mem.len(),
        s.mem[s.loc as int] == LD_BYTE,
        s.mem[s.loc + 1] < 16,
    ensures
        step_spec(s) == running(
            set_register(s, s.mem[s.loc + 1] as int, s.mem[s.loc + 2] as i32, s.loc + 3),
        ),
{
    reveal(step_spec);
}

proof fn lemma_step_pad(s: CpuState)
    requires
        s.wf(),
        s.loc < s.mem.len(),
        s.mem[s.loc as int] == PAD,
    ensures
        step_spec(s) == running(at(s, s.loc + 1)),
{
    reveal(step_spec);
}

proof fn lemma_step_push(s: CpuState)
    requires
        s.wf(),
        s.loc + 1 < s.mem.len(),
        s.mem[s.loc as int] == PUSH,
        s.mem[s.loc + 1] < 16,
        s.sp + 4 <= s.mem.len(),
    ensures
        step_spec(s) == running(push_next(s, s.mem[s.loc + 1] as int, s.loc + 2)),
{
    reveal(step_spec);
}

/// The step at a two-register math instruction that yields a value.
pub proof fn lemma_step_math(s: CpuState)
    requires
        s.wf(),
        s.loc + 2 < s.mem.len(),
        10 <= s.mem[s.loc as int] <= 18,
        s.mem[s.loc as int] != 16,
        s.mem[s.loc as int] != 17,
        s.mem[s.loc + 2] < 16,
        math_result(
            s.mem[s.loc as int],
            s.registers[high_nibble(s.mem[s.loc + 1]) as int],
            s.registers[low_nibble(s.mem[s.loc + 1]) as int],
        ) is Ok,
    ensures
        step_spec(s) == running(
            math_next(
                s,
                s.mem[s.loc + 2] as int,
                math_result(
                    s.mem[s.loc as int],
                    s.registers[high_nibble(s.mem[s.loc + 1]) as int],
                    s.registers[low_nibble(s.mem[s.loc + 1]) as int],
                )->Ok_0,
                s.loc + 3,
            ),
        ),
{
    reveal(step_spec);
}

proof fn lemma_step_jump_register(s: CpuState)
    requires
        s.wf(),
        s.loc + 1 < s.mem.len(),
        s.mem[s.loc as int] == JNZ_R || s.mem[s.loc as int] == JZ_R,
        s.mem[s.loc + 1] < 16,
    ensures
        step_spec(s) == running(
            at(
                s,
                if (s.mem[s.loc as int] == JZ_R) == zero_flag(s.flag) {
                    address(s.registers[s.mem[s.loc + 1] as int]) as int
                } else {
                    s.loc + 2
                },
            ),
        ),
{
    reveal(step_spec);
}

proof fn lemma_step_print_stack(s: CpuState)
    requires
        s.wf(),
        s.loc < s.mem.len(),
        s.mem[s.loc as int] == PRNT_STACK,
        stack_text(s.mem, s.sp) is Ok,
    ensures
        step_spec(s) == Ok::<Transition, Fault>(
            Transition {
                next: CpuState {
                    sp: stack_text(s.mem, s.sp)->Ok_0.1,
                    loc: (s.loc + 1) as usize,
                    ..s
                },
                output: stack_text(s.mem, s.sp)->Ok_0.0,
                status: Status::Running,
            },
        ),
{
    reveal(step_spec);
}

/// Running one step more from `s` is that step followed by the run from where it led.
proof fn lemma_run_step(s: CpuState, t: Transition, fuel: nat)
    requires
        step_spec(s) == Ok::<Transition, Fault>(t),
        t.status == Status::Running,
    ensures
        run_spec(s, fuel + 1) == (
            run_spec(t.next, fuel).0,
            t.output + run_spec(t.next, fuel).1,
            run_spec(t.next, fuel).2,
        ),
{
}

/// Running one silent step more from `s` is the run from where the step led.
proof fn lemma_run_silent(s: CpuState, next: CpuState, fuel: nat)
    requires
        step_spec(s) == running(next),
    ensures
        run_spec(s, fuel + 1) == run_spec(next, fuel),
{
    lemma_run_step(s, Transition { next, output: Seq::empty(), status: Status::Running }, fuel);
    assert(Seq::<u8>::empty() + run_spec(next, fuel).1 =~= run_spec(next, fuel).1);
}

/// The `PRINT32` routine lies in `mem` from `base` on.
pub open spec fn routine_at(mem: Seq<u8>, base: int) -> bool {
    &&& 0 <= base
    &&& base + 54 <= mem.len()
    &&& mem.subrange(base, base + 54) == PRINT32@
}

/// `room` bytes of stack from `sp` on fit in memory and do not overlap the routine at
/// `base`.
pub open spec fn stack_clear(sp: int, room: int, base: int) -> bool {
    &&& sp + room <= MEM_LEN
    &&& (sp + room <= base || sp >= base + 54)
}

proof fn lemma_code(mem: Seq<u8>, base: int)
    requires
        routine_at(mem, base),
    ensures
        forall|k: int| 0 <= k < 54 ==> #[trigger] mem[base + k] == PRINT32@[k],
{
    assert forall|k: int| 0 <= k < 54 implies #[trigger] mem[base + k] == PRINT32@[k] by {
        assert(mem.subrange(base, base + 54)[k] == mem[base + k]);
    }
}

/// Writing four bytes outside the routine leaves it in place.
proof fn lemma_push_keeps_routine(mem: Seq<u8>, base: int, at: int, v: i32)
    requires
        routine_at(mem, base),
        0 <= at,
        at + 4 <= mem.len(),
        at + 4 <= base || at >= base + 54,
    ensures
        routine_at(splice(mem, at, encode_i32(v)), base),
{
    let m2 = splice(mem, at, encode_i32(v));
    assert(m2.subrange(base, base + 54) =~= mem.subrange(base, base + 54));
}

proof fn lemma_or_self(x: i32)
    ensures
        x | x == x,
{
    assert(x | x == x) by (bit_vector);
}

proof fn lemma_operand_nibbles()
    ensures
        high_nibble(0x9Eu8) == 9,
        low_nibble(0x9Eu8) == 14,
        high_nibble(0x78u8) == 7,
        low_nibble(0x78u8) == 8,
        high_nibble(0x99u8) == 9,
        low_nibble(0x99u8) == 9,
        high_nibble(0xCAu8) == 12,
        low_nibble(0xCAu8) == 10,
        high_nibble(0x11u8) == 1,
        low_nibble(0x11u8) == 1,
{
    assert(0x9Eu8 >> 4u8 == 9u8 && 0x9Eu8 & 0x0Fu8 == 14u8) by (bit_vector);
    assert(0x78u8 >> 4u8 == 7u8 && 0x78u8 & 0x0Fu8 == 8u8) by (bit_vector);
    assert(0x99u8 >> 4u8 == 9u8 && 0x99u8 & 0x0Fu8 == 9u8) by (bit_vector);
    assert(0xCAu8 >> 4u8 == 12u8 && 0xCAu8 & 0x0Fu8 == 10u8) by (bit_vector);
    assert(0x11u8 >> 4u8 == 1u8 && 0x11u8 & 0x0Fu8 == 1u8) by (bit_vector);
}

/// The state at the head of the routine's digit loop: `q` is what is left to print,
/// and the stack holds, from the top, the digits already taken off and a space.
pub open spec fn loop_head(s: CpuState, base: int, sp0: u16, q: int, text: Seq<u8>) -> bool {
    &&& s.wf()
    &&& routine_at(s.mem, base)
    &&& s.loc == base + 30
    &&& s.registers[7] == 0x30
    &&& s.registers[10] == base
    &&& s.registers[12] == base + 30
    &&& s.registers[14] == 10
    &&& s.registers[9] == q
    &&& q >= 0
    &&& stack_clear(s.sp as int, 4 * num_digits(q as nat) as int, base)
    &&& stack_text(s.mem, s.sp) == Ok::<(Seq<u8>, u16), Fault>((text + seq![32u8], sp0))
}

/// From the loop head, the routine prints the digits of `q`, then the text already on
/// the stack, and jumps to the location in register 15.
#[verifier::rlimit(50)]
proof fn lemma_digit_loop(s: CpuState, base: int, sp0: u16, q: int, text: Seq<u8>)
    requires
        loop_head(s, base, sp0, q, text),
    ensures
        ({
            let r = run_spec(s, 7 * num_digits(q as nat) + 5);
            &&& r.1 == decimal(q as nat) + text + seq![32u8]
            &&& r.2 == Ok::<Status, Fault>(Status::Running)
            &&& r.0.wf()
            &&& r.0.loc == address(s.registers[15])
            &&& r.0.sp == sp0
            &&& routine_at(r.0.mem, base)
            &&& forall|i: int|
                0 <= i < 16 && i != 8 && i != 9 ==> #[trigger] r.0.registers[i] == s.registers[i]
        }),
    decreases q,
{
    let b = base;
    lemma_code(s.mem, b);
    lemma_operand_nibbles();
    let d: int = q % 10;
    let q2: int = q / 10;
    let c: i32 = (48 + d) as i32;
    assert(s.mem[b + 30] == PRINT32@[30]);
    assert(s.mem[b + 31] == PRINT32@[31]);
    assert(s.mem[b + 32] == PRINT32@[32]);
    // MOD r9, r14 -> r8
    lemma_step_math(s);
    let t1 = math_next(s, 8, d as i32, b + 33);
    assert(step_spec(s) == running(t1));
    // DIV r9, r14 -> r9
    assert(t1.mem[b + 33] == PRINT32@[33]);
    assert(t1.mem[b + 34] == PRINT32@[34]);
    assert(t1.mem[b + 35] == PRINT32@[35]);
    lemma_step_math(t1);
    let t2 = math_next(t1, 9, q2 as i32, b + 36);
    assert(step_spec(t1) == running(t2));
    // ADD r7, r8 -> r8
    assert(t2.mem[b + 36] == PRINT32@[36]);
    assert(t2.mem[b + 37] == PRINT32@[37]);
    assert(t2.mem[b + 38] == PRINT32@[38]);
    lemma_step_math(t2);
    let t3 = math_next(t2, 8, c, b + 39);
    assert(step_spec(t2) == running(t3));
    // PUSH r8
    assert(t3.mem[b + 39] == PRINT32@[39]);
    assert(t3.mem[b + 40] == PRINT32@[40]);
    lemma_step_push(t3);
    let t4 = push_next(t3, 8, b + 41);
    assert(step_spec(t3) == running(t4));
    lemma_push_keeps_routine(t3.mem, b, t3.sp as int, c);
    lemma_code(t4.mem, b);
    // PAD
    assert(t4.mem[b + 41] == PRINT32@[41]);
    lemma_step_pad(t4);
    let t5 = at(t4, b + 42);
    // OR r9, r9 -> r9
    assert(t5.mem[b + 42] == PRINT32@[42]);
    assert(t5.mem[b + 43] == PRINT32@[43]);
    assert(t5.mem[b + 44] == PRINT32@[44]);
    lemma_or_self(q2 as i32);
    lemma_step_math(t5);
    let t6 = math_next(t5, 9, q2 as i32, b + 45);
    assert(step_spec(t5) == running(t6));
    law_zero_flag(t5.flag, q2 as i32);
    // JNZ_R r12
    assert(t6.mem[b + 45] == PRINT32@[45]);
    assert(t6.mem[b + 46] == PRINT32@[46]);
    lemma_step_jump_register(t6);
    let t7 = at(t6, if q2 != 0 { b + 30 } else { b + 47 });
    assert(step_spec(t6) == running(t7));
    // The pushed digit is on top of the stack.
    law_print_stack_after_push(t3.mem, t3.sp, c);
    assert(seq![c as u8] + (text + seq![32u8]) =~= (seq![c as u8] + text) + seq![32u8]);
    assert(stack_text(t7.mem, t7.sp) == Ok::<(Seq<u8>, u16), Fault>(
        ((seq![c as u8] + text) + seq![32u8], sp0),
    ));
    if q2 != 0 {
        let rest: nat = 7 * num_digits(q2 as nat) + 5;
        assert(7 * num_digits(q as nat) + 5 == rest + 7);
        lemma_run_silent(s, t1, rest + 6);
        lemma_run_silent(t1, t2, rest + 5);
        lemma_run_silent(t2, t3, rest + 4);
        lemma_run_silent(t3, t4, rest + 3);
        lemma_run_silent(t4, t5, rest + 2);
        lemma_run_silent(t5, t6, rest + 1);
        lemma_run_silent(t6, t7, rest);
        assert(loop_head(t7, b, sp0, q2, seq![c as u8] + text));
        lemma_digit_loop(t7, b, sp0, q2, seq![c as u8] + text);
        assert(decimal(q as nat) == decimal(q2 as nat) + seq![c as u8]);
        assert(decimal(q2 as nat) + (seq![c as u8] + text) + seq![32u8] =~= decimal(q as nat) + text
            + seq![32u8]);
    } else {
        lemma_code(t7.mem, b);
        // PAD
        assert(t7.mem[b + 47] == PRINT32@[47]);
        lemma_step_pad(t7);
        let u1 = at(t7, b + 48);
        // PRNT_STACK
        assert(u1.mem[b + 48] == PRINT32@[48]);
        lemma_step_print_stack(u1);
        let printed = (seq![c as u8] + text) + seq![32u8];
        let u2 = CpuState { sp: sp0, loc: (b + 49) as usize, ..u1 };
        let tr = Transition { next: u2, output: printed, status: Status::Running };
        assert(step_spec(u1) == Ok::<Transition, Fault>(tr));
        // PAD, PAD
        assert(u2.mem[b + 49] == PRINT32@[49]);
        lemma_step_pad(u2);
        let u3 = at(u2, b + 50);
        assert(u3.mem[b + 50] == PRINT32@[50]);
        lemma_step_pad(u3);
        let u4 = at(u3, b + 51);
        // JZ_R r15
        assert(u4.mem[b + 51] == PRINT32@[51]);
        assert(u4.mem[b + 52] == PRINT32@[52]);
        lemma_step_jump_register(u4);
        let u5 = at(u4, address(u4.registers[15]) as int);
        assert(step_spec(u4) == running(u5));
        assert(num_digits(q as nat) == 1);
        lemma_run_silent(s, t1, 11);
        lemma_run_silent(t1, t2, 10);
        lemma_run_silent(t2, t3, 9);
        lemma_run_silent(t3, t4, 8);
        lemma_run_silent(t4, t5, 7);
        lemma_run_silent(t5, t6, 6);
        lemma_run_silent(t6, t7, 5);
        lemma_run_silent(t7, u1, 4);
        lemma_run_step(u1, tr, 3);
        lemma_run_silent(u2, u3, 2);
        lemma_run_silent(u3, u4, 1);
        lemma_run_silent(u4, u5, 0);
        assert(decimal(q as nat) == seq![c as u8]);
        assert(printed + Seq::<u8>::empty() =~= decimal(q as nat) + text + seq![32u8]);
    }
}

/// The routine's first six steps: it loads its constants and pushes a zero word.
proof fn lemma_prologue_first(s: CpuState, rest: nat) -> (p: CpuState)
    requires
        s.wf(),
        routine_at(s.mem, s.registers[10] as int),
        s.loc == s.registers[10],
        stack_clear(s.sp as int, 8, s.registers[10] as int),
    ensures
        p.wf(),
        routine_at(p.mem, s.registers[10] as int),
        p.loc == s.registers[10] + 17,
        p.registers[14] == 10,
        p.registers[12] == 30,
        p.registers[7] == 0x30,
        forall|i: int|
            0 <= i < 16 && i != 7 && i != 8 && i != 12 && i != 13 && i != 14
                ==> #[trigger] p.registers[i] == s.registers[i],
        p.sp == s.sp + 4,
        stack_text(p.mem, p.sp) == Ok::<(Seq<u8>, u16), Fault>((Seq::empty(), s.sp)),
        run_spec(s, rest + 6) == run_spec(p, rest),
{
    let b: int = s.registers[10] as int;
    lemma_code(s.mem, b);
    // LD_BYTE 14, 10
    assert(s.mem[b + 0] == PRINT32@[0]);
    assert(s.mem[b + 1] == PRINT32@[1]);
    assert(s.mem[b + 2] == PRINT32@[2]);
    lemma_step_ld_byte(s);
    let p1 = set_register(s, 14, 10, b + 3);
    // LD_BYTE 13, 200
    assert(p1.mem[b + 3] == PRINT32@[3]);
    assert(p1.mem[b + 4] == PRINT32@[4]);
    assert(p1.mem[b + 5] == PRINT32@[5]);
    lemma_step_ld_byte(p1);
    let p2 = set_register(p1, 13, 200, b + 6);
    // LD_BYTE 12, 30
    assert(p2.mem[b + 6] == PRINT32@[6]);
    assert(p2.mem[b + 7] == PRINT32@[7]);
    assert(p2.mem[b + 8] == PRINT32@[8]);
    lemma_step_ld_byte(p2);
    let p3 = set_register(p2, 12, 30, b + 9);
    // LD_BYTE 7, 0x30
    assert(p3.mem[b + 9] == PRINT32@[9]);
    assert(p3.mem[b + 10] == PRINT32@[10]);
    assert(p3.mem[b + 11] == PRINT32@[11]);
    lemma_step_ld_byte(p3);
    let p4 = set_register(p3, 7, 0x30, b + 12);
    // LD_BYTE 8, 0
    assert(p4.mem[b + 12] == PRINT32@[12]);
    assert(p4.mem[b + 13] == PRINT32@[13]);
    assert(p4.mem[b + 14] == PRINT32@[14]);
    lemma_step_ld_byte(p4);
    let p5 = set_register(p4, 8, 0, b + 15);
    // PUSH 8
    assert(p5.mem[b + 15] == PRINT32@[15]);
    assert(p5.mem[b + 16] == PRINT32@[16]);
    lemma_step_push(p5);
    let p6 = push_next(p5, 8, b + 17);
    lemma_push_keeps_routine(p5.mem, b, p5.sp as int, 0);
    law_print_stack_after_push(p5.mem, p5.sp, 0);
    lemma_run_silent(s, p1, rest + 5);
    lemma_run_silent(p1, p2, rest + 4);
    lemma_run_silent(p2, p3, rest + 3);
    lemma_run_silent(p3, p4, rest + 2);
    lemma_run_silent(p4, p5, rest + 1);
    lemma_run_silent(p5, p6, rest);
    p6
}

/// The routine's next six steps: it pushes a space and sets up its loop.
#[verifier::rlimit(50)]
proof fn lemma_prologue_second(s: CpuState, b: int, sp0: u16, rest: nat) -> (p: CpuState)
    requires
        s.wf(),
        routine_at(s.mem, b),
        s.loc == b + 17,
        s.registers[10] == b,
        s.registers[14] == 10,
        s.registers[12] == 30,
        s.registers[7] == 0x30,
        s.registers[1] >= 0,
        s.sp == sp0 + 4,
        stack_clear(sp0 as int, (8 + 4 * num_digits(s.registers[1] as nat)) as int, b),
        stack_text(s.mem, s.sp) == Ok::<(Seq<u8>, u16), Fault>((Seq::empty(), sp0)),
    ensures
        loop_head(p, b, sp0, s.registers[1] as int, Seq::empty()),
        forall|i: int|
            0 <= i < 16 && i != 8 && i != 9 && i != 12 ==> #[trigger] p.registers[i]
                == s.registers[i],
        run_spec(s, rest + 6) == run_spec(p, rest),
{
    lemma_code(s.mem, b);
    lemma_operand_nibbles();
    // PAD
    assert(s.mem[b + 17] == PRINT32@[17]);
    lemma_step_pad(s);
    let p7 = at(s, b + 18);
    // LD_BYTE 8, ' '
    assert(p7.mem[b + 18] == PRINT32@[18]);
    assert(p7.mem[b + 19] == PRINT32@[19]);
    assert(p7.mem[b + 20] == PRINT32@[20]);
    lemma_step_ld_byte(p7);
    let p8 = set_register(p7, 8, 32, b + 21);
    // PUSH 8
    assert(p8.mem[b + 21] == PRINT32@[21]);
    assert(p8.mem[b + 22] == PRINT32@[22]);
    lemma_step_push(p8);
    let p9 = push_next(p8, 8, b + 23);
    lemma_push_keeps_routine(p8.mem, b, p8.sp as int, 32);
    law_print_stack_after_push(p8.mem, p8.sp, 32);
    lemma_code(p9.mem, b);
    // PAD
    assert(p9.mem[b + 23] == PRINT32@[23]);
    lemma_step_pad(p9);
    let p10 = at(p9, b + 24);
    // ADD r12, r10 -> r12
    assert(p10.mem[b + 24] == PRINT32@[24]);
    assert(p10.mem[b + 25] == PRINT32@[25]);
    assert(p10.mem[b + 26] == PRINT32@[26]);
    lemma_step_math(p10);
    let p11 = math_next(p10, 12, (b + 30) as i32, b + 27);
    assert(step_spec(p10) == running(p11));
    // OR r1, r1 -> r9
    assert(p11.mem[b + 27] == PRINT32@[27]);
    assert(p11.mem[b + 28] == PRINT32@[28]);
    assert(p11.mem[b + 29] == PRINT32@[29]);
    lemma_or_self(s.registers[1]);
    lemma_step_math(p11);
    let p12 = math_next(p11, 9, s.registers[1], b + 30);
    assert(step_spec(p11) == running(p12));
    assert(Seq::<u8>::empty() + seq![32u8] =~= seq![32u8]);
    assert(stack_text(p12.mem, p12.sp) == Ok::<(Seq<u8>, u16), Fault>(
        (Seq::<u8>::empty() + seq![32u8], sp0),
    ));
    lemma_run_silent(s, p7, rest + 5);
    lemma_run_silent(p7, p8, rest + 4);
    lemma_run_silent(p8, p9, rest + 3);
    lemma_run_silent(p9, p10, rest + 2);
    lemma_run_silent(p10, p11, rest + 1);
    lemma_run_silent(p11, p12, rest);
    p12
}

/// The `PRINT32` routine, loaded at the location held in register 10 and entered there
/// with a non-negative number in register 1 and room on the stack, outside the routine,
/// for two words and one word per digit, prints the number's decimal digits followed by
/// a space and then jumps to the location held in register 15. This takes
/// `17 + 7 * num_digits` steps, leaves the stack pointer and the routine as they were,
/// and keeps registers 0 to 6, 10, 11 and 15.
pub proof fn law_print32_prints_decimal(s: CpuState)
    requires
        s.wf(),
        routine_at(s.mem, s.registers[10] as int),
        s.loc == s.registers[10],
        s.registers[1] >= 0,
        stack_clear(
            s.sp as int,
            (8 + 4 * num_digits(s.registers[1] as nat)) as int,
            s.registers[10] as int,
        ),
    ensures
        ({
            let r = run_spec(s, 17 + 7 * num_digits(s.registers[1] as nat));
            &&& r.1 == decimal(s.registers[1] as nat) + seq![32u8]
            &&& r.2 == Ok::<Status, Fault>(Status::Running)
            &&& r.0.wf()
            &&& r.0.loc == address(s.registers[15])
            &&& r.0.sp == s.sp
            &&& routine_at(r.0.mem, s.registers[10] as int)
            &&& forall|i: int|
                0 <= i < 16 && (i < 7 || i == 10 || i == 11 || i == 15)
                    ==> #[trigger] r.0.registers[i] == s.registers[i]
        }),
{
    let b: int = s.registers[10] as int;
    let n: int = s.registers[1] as int;
    let rest: nat = 7 * num_digits(n as nat) + 5;
    let q = lemma_prologue_first(s, rest + 6);
    let p = lemma_prologue_second(q, b, s.sp, rest);
    lemma_digit_loop(p, b, s.sp, n, Seq::empty());
    assert(decimal(n as nat) + Seq::<u8>::empty() + seq![32u8] =~= decimal(n as nat) + seq![32u8]);
}

} // verus!
