//! Arithmetic on 32-bit stack words.
//!
//! A word is held as its bit pattern (`u32`); the signed operations read it
//! as a two's-complement integer and every result is reduced modulo 2^32.

use crate::instruction::{ArithOp, Comparison, Test, UnaryOp};
use vstd::arithmetic::div_mod::{lemma_fundamental_div_mod, lemma_fundamental_div_mod_converse};
use vstd::arithmetic::power2::{lemma2_to64, lemma_pow2_pos, pow2};
use vstd::bits::{lemma_u32_pow2_no_overflow, lemma_u32_shr_is_div, lemma_u64_shl_is_mul};
use vstd::prelude::*;

verus! {

pub open spec fn modulus() -> int {
    0x1_0000_0000
}

/// The two's-complement integer that the bits of `w` stand for.
pub open spec fn signed(w: u32) -> int {
    if w < 0x8000_0000 {
        w as int
    } else {
        w - modulus()
    }
}

/// The word holding `x` modulo 2^32.
pub open spec fn wrap(x: int) -> u32 {
    (x % modulus()) as u32
}

pub open spec fn abs(x: int) -> int {
    if x < 0 {
        -x
    } else {
        x
    }
}

/// Division rounding toward zero.
pub open spec fn trunc_div(a: int, b: int) -> int {
    if (a < 0) != (b < 0) {
        -(abs(a) / abs(b))
    } else {
        abs(a) / abs(b)
    }
}

/// Remainder of `trunc_div`: it has the sign of the dividend.
pub open spec fn trunc_rem(a: int, b: int) -> int {
    if a < 0 {
        -(abs(a) % abs(b))
    } else {
        abs(a) % abs(b)
    }
}

/// The shift amount that a word operand selects: its low five bits.
pub open spec fn shift_of(r: u32) -> nat {
    (r % 32) as nat
}

/// The result of a binary operator on `left` and `right`. Division and
/// remainder by zero give zero.
pub open spec fn binary_spec(op: ArithOp, left: u32, right: u32) -> u32 {
    let a = signed(left);
    let b = signed(right);
    match op {
        ArithOp::Add => wrap(left + right),
        ArithOp::Sub => wrap(left - right),
        ArithOp::Mul => wrap(left * right),
        ArithOp::Div => if b == 0 {
            0
        } else {
            wrap(trunc_div(a, b))
        },
        ArithOp::Rem => if b == 0 {
            0
        } else {
            wrap(trunc_rem(a, b))
        },
        ArithOp::And => left & right,
        ArithOp::Or => left | right,
        ArithOp::Xor => left ^ right,
        ArithOp::Lsl => wrap(left * pow2(shift_of(right))),
        ArithOp::Lsr => (left as nat / pow2(shift_of(right))) as u32,
        ArithOp::Asr => wrap(a / (pow2(shift_of(right)) as int)),
        ArithOp::Unknown => 0,
    }
}

pub open spec fn unary_spec(op: UnaryOp, v: u32) -> u32 {
    match op {
        UnaryOp::Neg => wrap(-signed(v)),
        UnaryOp::Not => !v,
        UnaryOp::Unknown => 0,
    }
}

pub open spec fn compare_spec(cond: Comparison, left: u32, right: u32) -> bool {
    let a = signed(left);
    let b = signed(right);
    match cond {
        Comparison::Eq => a == b,
        Comparison::Ne => a != b,
        Comparison::Lt => a < b,
        Comparison::Gt => a > b,
        Comparison::Le => a <= b,
        Comparison::Ge => a >= b,
        Comparison::Never => false,
    }
}

pub open spec fn test_spec(test: Test, v: u32) -> bool {
    match test {
        Test::Zero => signed(v) == 0,
        Test::NonZero => signed(v) != 0,
        Test::Negative => signed(v) < 0,
        Test::NonNegative => signed(v) >= 0,
    }
}

/// Reads a word as a signed integer.
pub fn to_signed(w: u32) -> (r: i32)
    ensures
        r == signed(w),
{
    if w < 0x8000_0000 {
        w as i32
    } else {
        (w as i64 - 0x1_0000_0000) as i32
    }
}

pub proof fn lemma_wrap_small(x: int)
    requires
        -modulus() <= x < 2 * modulus(),
    ensures
        wrap(x) == if x < 0 {
            x + modulus()
        } else if x >= modulus() {
            x - modulus()
        } else {
            x
        },
{
    if x < 0 {
        lemma_fundamental_div_mod_converse(x, modulus(), -1, x + modulus());
    } else if x >= modulus() {
        lemma_fundamental_div_mod_converse(x, modulus(), 1, x - modulus());
    } else {
        lemma_fundamental_div_mod_converse(x, modulus(), 0, x);
    }
}

/// The magnitude of the signed value of `w`.
pub fn magnitude(w: u32) -> (r: u32)
    ensures
        r == abs(signed(w)),
{
    if w < 0x8000_0000 {
        w
    } else {
        0u32.wrapping_sub(w)
    }
}

/// The word of the integer `-x`.
fn negated(x: u32) -> (r: u32)
    ensures
        r == wrap(-x),
{
    proof {
        lemma_wrap_small(-x);
    }
    0u32.wrapping_sub(x)
}

fn divide(left: u32, right: u32) -> (r: u32)
    requires
        signed(right) != 0,
    ensures
        r == wrap(trunc_div(signed(left), signed(right))),
{
    let ma = magnitude(left);
    let mb = magnitude(right);
    let q = ma / mb;
    if (left >= 0x8000_0000) != (right >= 0x8000_0000) {
        negated(q)
    } else {
        proof {
            lemma_wrap_small(q as int);
        }
        q
    }
}

fn remainder(left: u32, right: u32) -> (r: u32)
    requires
        signed(right) != 0,
    ensures
        r == wrap(trunc_rem(signed(left), signed(right))),
{
    let ma = magnitude(left);
    let mb = magnitude(right);
    let m = ma % mb;
    if left >= 0x8000_0000 {
        negated(m)
    } else {
        proof {
            lemma_wrap_small(m as int);
        }
        m
    }
}

fn shift_left(left: u32, s: u32) -> (r: u32)
    requires
        s < 32,
    ensures
        r == wrap(left * pow2(s as nat)),
{
    proof {
        lemma_u32_pow2_no_overflow(s as nat);
        lemma2_to64();
        assert(left * pow2(s as nat) <= 0xFFFF_FFFF * 0xFFFF_FFFF) by (nonlinear_arith)
            requires
                left <= 0xFFFF_FFFF,
                pow2(s as nat) <= 0xFFFF_FFFF,
        ;
        lemma_u64_shl_is_mul(left as u64, s as u64);
    }
    let p: u64 = (left as u64) << (s as u64);
    (p % 0x1_0000_0000) as u32
}

fn shift_right_arith(left: u32, s: u32) -> (r: u32)
    requires
        s < 32,
    ensures
        r == wrap(signed(left) / (pow2(s as nat) as int)),
{
    proof {
        lemma_pow2_pos(s as nat);
        lemma_u32_pow2_no_overflow(s as nat);
    }
    if left < 0x8000_0000 {
        proof {
            lemma_u32_shr_is_div(left, s);
            vstd::arithmetic::div_mod::lemma_div_pos_is_pos(left as int, pow2(s as nat) as int);
            vstd::arithmetic::div_mod::lemma_div_is_ordered_by_denominator(
                left as int,
                1,
                pow2(s as nat) as int,
            );
            lemma_wrap_small(left as int / pow2(s as nat) as int);
        }
        left >> s
    } else {
        let n: u32 = 0xFFFF_FFFF - left;
        let q = n >> s;
        proof {
            lemma_u32_shr_is_div(n, s);
            let d = pow2(s as nat) as int;
            lemma_fundamental_div_mod(n as int, d);
            let rem = n as int % d;
            assert(signed(left) == -(n as int) - 1);
            assert(-(n as int) - 1 == (-(q as int) - 1) * d + (d - rem - 1)) by (nonlinear_arith)
                requires
                    n as int == d * (q as int) + rem,
            ;
            lemma_fundamental_div_mod_converse(-(n as int) - 1, d, -(q as int) - 1, d - rem - 1);
            vstd::arithmetic::div_mod::lemma_div_is_ordered_by_denominator(n as int, 1, d);
            lemma_wrap_small(-(q as int) - 1);
        }
        0xFFFF_FFFF - q
    }
}

/// Applies a binary operator to two words.
pub fn apply_binary(op: ArithOp, left: u32, right: u32) -> (r: u32)
    ensures
        r == binary_spec(op, left, right),
{
    proof {
        lemma_wrap_small(left + right);
        lemma_wrap_small(left - right);
    }
    match op {
        ArithOp::Add => left.wrapping_add(right),
        ArithOp::Sub => left.wrapping_sub(right),
        ArithOp::Mul => left.wrapping_mul(right),
        ArithOp::Div => if right == 0 {
            0
        } else {
            divide(left, right)
        },
        ArithOp::Rem => if right == 0 {
            0
        } else {
            remainder(left, right)
        },
        ArithOp::And => left & right,
        ArithOp::Or => left | right,
        ArithOp::Xor => left ^ right,
        ArithOp::Lsl => shift_left(left, right % 32),
        ArithOp::Lsr => {
            proof {
                lemma_u32_shr_is_div(left, right % 32);
            }
            left >> (right % 32)
        },
        ArithOp::Asr => shift_right_arith(left, right % 32),
        ArithOp::Unknown => 0,
    }
}

/// Applies a unary operator to a word.
pub fn apply_unary(op: UnaryOp, v: u32) -> (r: u32)
    ensures
        r == unary_spec(op, v),
{
    match op {
        UnaryOp::Neg => {
            proof {
                lemma_wrap_small(-v);
                lemma_wrap_small(-signed(v));
            }
            0u32.wrapping_sub(v)
        },
        UnaryOp::Not => !v,
        UnaryOp::Unknown => 0,
    }
}

/// Evaluates a binary branch condition.
pub fn compare(cond: Comparison, left: u32, right: u32) -> (r: bool)
    ensures
        r == compare_spec(cond, left, right),
{
    let a = to_signed(left);
    let b = to_signed(right);
    match cond {
        Comparison::Eq => a == b,
        Comparison::Ne => a != b,
        Comparison::Lt => a < b,
        Comparison::Gt => a > b,
        Comparison::Le => a <= b,
        Comparison::Ge => a >= b,
        Comparison::Never => false,
    }
}

/// Evaluates a unary branch condition.
pub fn test_word(test: Test, v: u32) -> (r: bool)
    ensures
        r == test_spec(test, v),
{
    let a = to_signed(v);
    match test {
        Test::Zero => a == 0,
        Test::NonZero => a != 0,
        Test::Negative => a < 0,
        Test::NonNegative => a >= 0,
    }
}

/// Division and remainder by zero give zero, for every dividend.
pub proof fn lemma_division_by_zero(left: u32)
    ensures
        binary_spec(ArithOp::Div, left, 0) == 0,
        binary_spec(ArithOp::Rem, left, 0) == 0,
{
}

} // verus!
