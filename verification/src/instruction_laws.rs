//! What each math and load instruction computes, stated over the integers and the bits
//! of its operands.

use vstd::prelude::*;
use crate::instruction_consts::{
    ADD, AND, DEC, DIV, FLIP, INC, LD_32, LD_BYTE, MOD, MOV, MULT, OR, SUB,
};
use crate::instructions::{high_nibble, lemma_nibbles, low_nibble, zero_flag};
use crate::laws::law_zero_flag;
use crate::print_number::lemma_step_math;
use crate::bytes::{encode_i32, i32_from_be, lemma_decode_encode};
use crate::semantics::{CpuState, Fault, Transition, step_spec};

verus! {

/// Two to the 32nd power: 32-bit results are taken modulo this.
pub open spec fn word_modulus() -> int {
    0x1_0000_0000
}

/// The first operand register of the instruction at the current location.
pub open spec fn first_operand(s: CpuState) -> i32 {
    s.registers[high_nibble(s.mem[s.loc + 1]) as int]
}

/// The second operand register of the instruction at the current location.
pub open spec fn second_operand(s: CpuState) -> i32 {
    s.registers[low_nibble(s.mem[s.loc + 1]) as int]
}

/// The destination register of a two-register instruction at the current location.
pub open spec fn destination(s: CpuState) -> int {
    s.mem[s.loc + 2] as int
}

/// Bit `i` of `x`.
pub open spec fn bit(x: i32, i: u32) -> bool {
    (x >> i) & 1i32 == 1i32
}

/// Two 32-bit integers congruent modulo 2^32 are equal.
proof fn lemma_congruent_words_equal(v: int, e: int)
    requires
        (v - e) % word_modulus() == 0,
        i32::MIN <= v <= i32::MAX,
        i32::MIN <= e <= i32::MAX,
    ensures
        v == e,
{
    let x = v - e;
    assert(x == 0) by (nonlinear_arith)
        requires
            x % 4294967296 == 0,
            -4294967296 < x < 4294967296,
    ;
}

/// A two-register instruction whose result is `exact` modulo 2^32 stores that value,
/// sets the zero flag by it and touches nothing else.
pub open spec fn stores_word(s: CpuState, exact: int) -> bool {
    step_spec(s) matches Ok(t) && {
        let v = t.next.registers[destination(s)];
        &&& (v - exact) % word_modulus() == 0
        &&& (i32::MIN <= exact <= i32::MAX ==> v == exact)
        &&& (zero_flag(t.next.flag) <==> v == 0)
        &&& t.next.registers == s.registers.update(destination(s), v)
        &&& t.next.mem == s.mem
        &&& t.next.sp == s.sp
        &&& t.next.loc == s.loc + 3
        &&& t.output.len() == 0
    }
}

/// The well-formed states with the two-register instruction `op` at the current
/// location, its operands in memory and naming a real destination register.
pub open spec fn at_two_register(s: CpuState, op: u8) -> bool {
    &&& s.wf()
    &&& s.loc + 2 < s.mem.len()
    &&& s.mem[s.loc as int] == op
    &&& s.mem[s.loc + 2] < 16
}

/// `ADD` stores the sum of its operands modulo 2^32 (the sum itself when it fits in 32
/// bits), and `SUB` the difference.
pub proof fn law_add_sub_values(s: CpuState)
    requires
        at_two_register(s, ADD) || at_two_register(s, SUB),
    ensures
        at_two_register(s, ADD) ==> stores_word(s, first_operand(s) + second_operand(s)),
        at_two_register(s, SUB) ==> stores_word(s, first_operand(s) - second_operand(s)),
{
    lemma_nibbles(s.mem[s.loc + 1]);
    lemma_step_math(s);
    let a = first_operand(s);
    let b = second_operand(s);
    let exact: int = if s.mem[s.loc as int] == ADD { a + b } else { a - b };
    reveal(step_spec);
    let t = step_spec(s)->Ok_0;
    let v = t.next.registers[destination(s)];
    law_zero_flag(s.flag, v);
    assert((v - exact) % word_modulus() == 0);
    if i32::MIN <= exact <= i32::MAX {
        lemma_congruent_words_equal(v as int, exact);
    }
    assert(t.next.registers =~= s.registers.update(destination(s), v));
}

/// `MULT` stores the product of its operands modulo 2^32 (the product itself when it
/// fits in 32 bits).
pub proof fn law_mult_value(s: CpuState)
    requires
        at_two_register(s, MULT),
    ensures
        stores_word(s, first_operand(s) * second_operand(s)),
{
    lemma_nibbles(s.mem[s.loc + 1]);
    lemma_step_math(s);
    let a = first_operand(s);
    let b = second_operand(s);
    let p: int = a * b;
    let m = word_modulus();
    reveal(step_spec);
    let t = step_spec(s)->Ok_0;
    let v = t.next.registers[destination(s)];
    law_zero_flag(s.flag, v);
    vstd::arithmetic::div_mod::lemma_fundamental_div_mod(p, m);
    let q = p / m;
    let r = p % m;
    if r > i32::MAX {
        assert(v == r - m);
        assert(v - p == (-q - 1) * m) by (nonlinear_arith)
            requires
                v == r - m,
                p == m * q + r,
        ;
        vstd::arithmetic::div_mod::lemma_mod_multiples_basic(-q - 1, m);
    } else {
        assert(v == r);
        assert(v - p == (-q) * m) by (nonlinear_arith)
            requires
                v == r,
                p == m * q + r,
        ;
        vstd::arithmetic::div_mod::lemma_mod_multiples_basic(-q, m);
    }
    if i32::MIN <= p <= i32::MAX {
        lemma_congruent_words_equal(v as int, p);
    }
    assert(t.next.registers =~= s.registers.update(destination(s), v));
}

/// Each bit of what `AND` stores is set exactly when that bit is set in both operands,
/// and each bit of what `OR` stores exactly when it is set in either.
pub proof fn law_and_or_bits(s: CpuState)
    requires
        at_two_register(s, AND) || at_two_register(s, OR),
    ensures
        step_spec(s) matches Ok(t) && {
            let v = t.next.registers[destination(s)];
            &&& forall|i: u32|
                i < 32 ==> (#[trigger] bit(v, i) <==> if s.mem[s.loc as int] == AND {
                    bit(first_operand(s), i) && bit(second_operand(s), i)
                } else {
                    bit(first_operand(s), i) || bit(second_operand(s), i)
                })
            &&& (zero_flag(t.next.flag) <==> v == 0)
            &&& t.next.registers == s.registers.update(destination(s), v)
            &&& t.next.loc == s.loc + 3
        },
{
    lemma_nibbles(s.mem[s.loc + 1]);
    lemma_step_math(s);
    let a = first_operand(s);
    let b = second_operand(s);
    reveal(step_spec);
    let t = step_spec(s)->Ok_0;
    let v = t.next.registers[destination(s)];
    law_zero_flag(s.flag, v);
    if s.mem[s.loc as int] == AND {
        assert forall|i: u32| i < 32 implies (#[trigger] bit(v, i) <==> bit(a, i) && bit(b, i)) by {
            assert(((v >> i) & 1i32 == 1i32) <==> ((a >> i) & 1i32 == 1i32 && (b >> i) & 1i32
                == 1i32)) by (bit_vector)
                requires
                    v == a & b,
                    i < 32,
            ;
        }
    } else {
        assert forall|i: u32| i < 32 implies (#[trigger] bit(v, i) <==> bit(a, i) || bit(b, i)) by {
            assert(((v >> i) & 1i32 == 1i32) <==> ((a >> i) & 1i32 == 1i32 || (b >> i) & 1i32
                == 1i32)) by (bit_vector)
                requires
                    v == a | b,
                    i < 32,
            ;
        }
    }
    assert(t.next.registers =~= s.registers.update(destination(s), v));
}

/// The well-formed states with the one-register instruction `op` at the current
/// location, naming a real register.
pub open spec fn at_one_register(s: CpuState, op: u8) -> bool {
    &&& s.wf()
    &&& s.loc + 1 < s.mem.len()
    &&& s.mem[s.loc as int] == op
    &&& s.mem[s.loc + 1] < 16
}

/// `INC` adds one to its register and `DEC` subtracts one, failing exactly when that
/// leaves the 32-bit range; each bit of what `FLIP` stores is set exactly when it is
/// clear in the register. Each sets the zero flag by its result.
pub proof fn law_one_register_values(s: CpuState)
    requires
        at_one_register(s, INC) || at_one_register(s, DEC) || at_one_register(s, FLIP),
    ensures
        ({
            let r = s.mem[s.loc + 1] as int;
            let x = s.registers[r];
            &&& at_one_register(s, INC) ==> (x == i32::MAX <==> step_spec(s) == Err::<
                Transition,
                Fault,
            >(Fault::ArithmeticOverflow))
            &&& at_one_register(s, DEC) ==> (x == i32::MIN <==> step_spec(s) == Err::<
                Transition,
                Fault,
            >(Fault::ArithmeticOverflow))
            &&& step_spec(s) matches Ok(t) ==> {
                let v = t.next.registers[r];
                &&& at_one_register(s, INC) ==> v == x + 1
                &&& at_one_register(s, DEC) ==> v == x - 1
                &&& at_one_register(s, FLIP) ==> forall|i: u32|
                    i < 32 ==> (#[trigger] bit(v, i) <==> !bit(x, i))
                &&& (zero_flag(t.next.flag) <==> v == 0)
                &&& t.next.registers == s.registers.update(r, v)
                &&& t.next.loc == s.loc + 2
            }
        }),
{
    reveal(step_spec);
    let r = s.mem[s.loc + 1] as int;
    let x = s.registers[r];
    if let Ok(t) = step_spec(s) {
        let v = t.next.registers[r];
        law_zero_flag(s.flag, v);
        if s.mem[s.loc as int] == FLIP {
            assert forall|i: u32| i < 32 implies (#[trigger] bit(v, i) <==> !bit(x, i)) by {
                assert(((v >> i) & 1i32 == 1i32) <==> !((x >> i) & 1i32 == 1i32)) by (bit_vector)
                    requires
                        v == -1 - x,
                        i < 32,
                ;
            }
        }
        assert(t.next.registers =~= s.registers.update(r, v));
    }
}

/// The unsigned big-endian value of four bytes.
pub open spec fn big_endian_value(b0: u8, b1: u8, b2: u8, b3: u8) -> int {
    b0 * 0x100_0000 + b1 * 0x1_0000 + b2 * 0x100 + b3
}

/// Four bytes read as a two's-complement word: their big-endian value, less 2^32 when
/// the top bit is set.
proof fn lemma_word_value(b0: u8, b1: u8, b2: u8, b3: u8)
    ensures
        i32_from_be(b0, b1, b2, b3) == big_endian_value(b0, b1, b2, b3) - if b0 >= 128 {
            word_modulus()
        } else {
            0
        },
{
    let v = i32_from_be(b0, b1, b2, b3);
    if b0 >= 128 {
        assert(v == (b0 as i32 - 256i32) * 0x100_0000i32 + (b1 as i32) * 0x1_0000i32 + (b2 as i32)
            * 0x100i32 + (b3 as i32)) by (bit_vector)
            requires
                v == i32_from_be(b0, b1, b2, b3),
                b0 >= 128,
        ;
    } else {
        assert(v == (b0 as i32) * 0x100_0000i32 + (b1 as i32) * 0x1_0000i32 + (b2 as i32) * 0x100i32
            + (b3 as i32)) by (bit_vector)
            requires
                v == i32_from_be(b0, b1, b2, b3),
                b0 < 128,
        ;
    }
}

/// The well-formed states with `LD_32` at the current location, its four constant bytes
/// in memory and naming a real register.
pub open spec fn at_ld_32(s: CpuState) -> bool {
    &&& s.wf()
    &&& s.loc + 6 <= s.mem.len()
    &&& s.mem[s.loc as int] == LD_32
    &&& s.mem[s.loc + 1] < 16
}

/// `LD_32` loads the four bytes after its register operand as a big-endian
/// two's-complement word: their unsigned value, less 2^32 when the top bit is set.
pub proof fn law_ld_32_value(s: CpuState)
    requires
        at_ld_32(s),
    ensures
        step_spec(s) matches Ok(t) && {
            let r = s.mem[s.loc + 1] as int;
            let (b0, b1, b2, b3) = (
                s.mem[s.loc + 2],
                s.mem[s.loc + 3],
                s.mem[s.loc + 4],
                s.mem[s.loc + 5],
            );
            &&& t.next.registers[r] == big_endian_value(b0, b1, b2, b3) - if b0 >= 128 {
                word_modulus()
            } else {
                0
            }
            &&& t.next.registers == s.registers.update(r, t.next.registers[r])
            &&& t.next.mem == s.mem
            &&& t.next.flag == s.flag
            &&& t.next.loc == s.loc + 6
        },
{
    reveal(step_spec);
    let r = s.mem[s.loc + 1] as int;
    lemma_word_value(s.mem[s.loc + 2], s.mem[s.loc + 3], s.mem[s.loc + 4], s.mem[s.loc + 5]);
    let t = step_spec(s)->Ok_0;
    assert(t.next.registers =~= s.registers.update(r, t.next.registers[r]));
}

/// Every 32-bit constant written after `LD_32` as its four big-endian bytes is loaded
/// unchanged.
pub proof fn law_ld_32_round_trip(s: CpuState, v: i32)
    requires
        at_ld_32(s),
        s.mem.subrange(s.loc + 2, s.loc + 6) == encode_i32(v),
    ensures
        step_spec(s) matches Ok(t) && t.next.registers[s.mem[s.loc + 1] as int] == v,
{
    reveal(step_spec);
    lemma_decode_encode(v);
}

/// `LD_BYTE` loads its constant byte, zero-extended, and `MOV` copies the register named
/// by the upper nibble of its operand into the one named by the lower nibble.
pub proof fn law_ld_byte_and_mov(s: CpuState)
    requires
        s.wf(),
        s.loc + 2 < s.mem.len(),
        s.mem[s.loc as int] == LD_BYTE || s.mem[s.loc as int] == MOV,
        s.mem[s.loc as int] == LD_BYTE ==> s.mem[s.loc + 1] < 16,
    ensures
        step_spec(s) matches Ok(t) && {
            &&& s.mem[s.loc as int] == LD_BYTE ==> {
                &&& t.next.registers[s.mem[s.loc + 1] as int] == s.mem[s.loc + 2] as int
                &&& 0 <= t.next.registers[s.mem[s.loc + 1] as int] < 256
                &&& t.next.loc == s.loc + 3
            }
            &&& s.mem[s.loc as int] == MOV ==> {
                &&& t.next.registers[low_nibble(s.mem[s.loc + 1]) as int] == first_operand(s)
                &&& t.next.loc == s.loc + 2
            }
            &&& t.next.mem == s.mem
            &&& t.next.flag == s.flag
        },
{
    reveal(step_spec);
    lemma_nibbles(s.mem[s.loc + 1]);
}

/// Division of a positive `n` by a positive `m` leaves a remainder in `0..m`.
proof fn lemma_positive_division(n: int, m: int)
    requires
        n > 0,
        m > 0,
    ensures
        0 <= n - (n / m) * m < m,
        n / m >= 0,
{
    vstd::arithmetic::div_mod::lemma_fundamental_div_mod(n, m);
    assert(0 <= n % m < m);
    assert(n / m >= 0) by (nonlinear_arith)
        requires
            n > 0,
            m > 0,
            n == m * (n / m) + n % m,
            0 <= n % m < m,
    ;
    assert(m * (n / m) == (n / m) * m) by (nonlinear_arith);
}

/// `DIV` stores the quotient rounded towards zero: the remainder it leaves is smaller
/// than the divisor in size and has the dividend's sign; `i32::MIN / -1` wraps to
/// `i32::MIN`, and division by zero is a fault. `MOD` stores the Euclidean remainder:
/// it lies in `0..|b|` and differs from the dividend by a multiple of the divisor;
/// `MOD` by zero and `i32::MIN` by -1 are faults.
pub proof fn law_div_mod_values(s: CpuState)
    requires
        at_two_register(s, DIV) || at_two_register(s, MOD),
    ensures
        ({
            let a = first_operand(s);
            let b = second_operand(s);
            &&& b == 0 ==> step_spec(s) == Err::<Transition, Fault>(Fault::DivideByZero)
            &&& at_two_register(s, MOD) && a == i32::MIN && b == -1 ==> step_spec(s) == Err::<
                Transition,
                Fault,
            >(Fault::ArithmeticOverflow)
            &&& step_spec(s) matches Ok(t) ==> {
                let v = t.next.registers[destination(s)];
                &&& b != 0
                &&& at_two_register(s, DIV) && a == i32::MIN && b == -1 ==> v == i32::MIN
                &&& at_two_register(s, DIV) && !(a == i32::MIN && b == -1) ==> {
                    let rem = a - v * b;
                    &&& (if rem < 0 { -rem } else { rem }) < (if b < 0 { -b } else { b as int })
                    &&& (rem == 0 || (rem < 0) == (a < 0))
                }
                &&& at_two_register(s, MOD) ==> {
                    &&& 0 <= v < (if b < 0 { -b } else { b as int })
                    &&& (a - v) % (if b < 0 { -b } else { b as int }) == 0
                }
                &&& (zero_flag(t.next.flag) <==> v == 0)
                &&& t.next.registers == s.registers.update(destination(s), v)
                &&& t.next.loc == s.loc + 3
            }
        }),
{
    lemma_nibbles(s.mem[s.loc + 1]);
    reveal(step_spec);
    let a = first_operand(s);
    let b = second_operand(s);
    if let Ok(t) = step_spec(s) {
        let v = t.next.registers[destination(s)];
        law_zero_flag(s.flag, v);
        assert(t.next.registers =~= s.registers.update(destination(s), v));
        if at_two_register(s, DIV) && !(a == i32::MIN && b == -1) {
            crate::semantics::lemma_trunc_div_range(a, b);
            let x = a as int;
            let d = b as int;
            if x > 0 && d > 0 {
                lemma_positive_division(x, d);
            } else if x < 0 && d < 0 {
                lemma_positive_division(-x, -d);
                assert((-x / -d) * d == -((-x / -d) * -d)) by (nonlinear_arith);
            } else if x < 0 && d > 0 {
                lemma_positive_division(-x, d);
                assert(-(-x / d) * d == -((-x / d) * d)) by (nonlinear_arith);
            } else if x > 0 && d < 0 {
                lemma_positive_division(x, -d);
                assert(-(x / -d) * d == (x / -d) * -d) by (nonlinear_arith);
            }
        }
        if at_two_register(s, MOD) {
            let m = b as int;
            vstd::arithmetic::div_mod::lemma_fundamental_div_mod(a as int, m);
            let q = (a as int) / m;
            assert(a - v == q * m) by (nonlinear_arith)
                requires
                    a == m * q + (a as int) % m,
                    v == (a as int) % m,
            ;
            vstd::arithmetic::div_mod::lemma_mod_multiples_basic(q, if m < 0 { -m } else { m });
            if m < 0 {
                assert(q * m == (-q) * (-m)) by (nonlinear_arith);
                vstd::arithmetic::div_mod::lemma_mod_multiples_basic(-q, -m);
            }
        }
    }
}

} // verus!
