//! Floating-point numbers, by their IEEE 754 bits.
//!
//! Arithmetic on them is left to the machine; what is decided here is what the
//! bits alone decide: order, identity, hashing, conversion to an integer, and
//! the printed form of a number whose shortest decimal digits are known.
use crate::radix::int_text;
use crate::text::{chars_of_str, concat2};
use crate::value::Double;
use vstd::prelude::*;

verus! {

use crate::lexer::{digit_value, digits_number};
use crate::radix::decimal;
use crate::value::DoubleView;
use vstd::arithmetic::power2::{lemma2_to64, lemma_pow2_pos, pow2};

/// The bits of the canonical NaN.
pub const NAN_BITS: u64 = 0x7ff8_0000_0000_0000;

/// Whether the sign bit is set.
pub open spec fn is_negative(bits: u64) -> bool {
    bits >= 0x8000_0000_0000_0000
}

/// The bits without the sign.
pub open spec fn magnitude_bits(bits: u64) -> int {
    if is_negative(bits) {
        bits - 0x8000_0000_0000_0000
    } else {
        bits as int
    }
}

pub open spec fn is_nan(bits: u64) -> bool {
    magnitude_bits(bits) > 0x7ff0_0000_0000_0000
}

pub open spec fn is_infinite(bits: u64) -> bool {
    magnitude_bits(bits) == 0x7ff0_0000_0000_0000
}

/// Position of a number on the real line, with both zeros at 0: the numeric
/// order of two doubles is the order of these.
pub open spec fn line_position(bits: u64) -> int {
    if is_negative(bits) {
        -magnitude_bits(bits)
    } else {
        magnitude_bits(bits)
    }
}

/// Position in the total order of `java.lang.Double.compare`: every NaN above
/// every number, and `-0.0` below `0.0`.
pub open spec fn total_position(bits: u64) -> int {
    if is_nan(bits) {
        NAN_BITS as int
    } else if is_negative(bits) {
        -magnitude_bits(bits) - 1
    } else {
        magnitude_bits(bits)
    }
}

/// The numeric `==`: NaN equals nothing and the zeros are equal.
pub open spec fn numeric_eq(a: u64, b: u64) -> bool {
    !is_nan(a) && !is_nan(b) && line_position(a) == line_position(b)
}

/// `Double.equals`: NaN equals itself and the zeros differ.
pub open spec fn boxed_eq(a: u64, b: u64) -> bool {
    (is_nan(a) && is_nan(b)) || a == b
}

/// `Double.hashCode`: the two halves of the bits, every NaN counting as one.
pub open spec fn hash_of_bits(bits: u64) -> i32 {
    let b = if is_nan(bits) {
        NAN_BITS
    } else {
        bits
    };
    (b ^ (b >> 32)) as u32 as i32
}

pub(crate) fn magnitude(bits: u64) -> (r: u64)
    ensures
        r == magnitude_bits(bits),
{
    if bits >= 0x8000_0000_0000_0000 {
        bits - 0x8000_0000_0000_0000
    } else {
        bits
    }
}

pub fn nan(bits: u64) -> (r: bool)
    ensures
        r == is_nan(bits),
{
    magnitude(bits) > 0x7ff0_0000_0000_0000
}

/// The numeric `==` of two doubles.
pub fn numerically_equal(a: u64, b: u64) -> (r: bool)
    ensures
        r == numeric_eq(a, b),
{
    !nan(a) && !nan(b) && (a == b || (magnitude(a) == 0 && magnitude(b) == 0))
}

/// `Double.equals`.
pub fn double_equal(a: u64, b: u64) -> (r: bool)
    ensures
        r == boxed_eq(a, b),
{
    (nan(a) && nan(b)) || a == b
}

/// The sign of `a` compared with `b`: -1, 0 or 1.
pub open spec fn sign_of_difference(a: int, b: int) -> int {
    if a < b {
        -1
    } else if a == b {
        0
    } else {
        1
    }
}

fn position(bits: u64) -> (r: i128)
    ensures
        r == total_position(bits),
{
    if nan(bits) {
        NAN_BITS as i128
    } else if bits >= 0x8000_0000_0000_0000 {
        -(magnitude(bits) as i128) - 1
    } else {
        bits as i128
    }
}

/// `java.lang.Double.compare`, a total order, which IEEE comparison is not:
/// NaN sorts above every number and `-0.0` below `0.0`.
pub fn double_compare(a: u64, b: u64) -> (r: i8)
    ensures
        r == sign_of_difference(total_position(a), total_position(b)),
{
    let x: i128 = position(a);
    let y: i128 = position(b);
    if x < y {
        -1
    } else if x == y {
        0
    } else {
        1
    }
}

/// `Double.hashCode()`: the JVM folds the two halves of `doubleToLongBits`,
/// which canonicalizes every NaN to one bit pattern and keeps `-0.0` distinct
/// from `0.0`.
pub fn double_hash(bits: u64) -> (h: i32)
    ensures
        h == hash_of_bits(bits),
{
    let b: u64 = if nan(bits) {
        NAN_BITS
    } else {
        bits
    };
    (b ^ (b >> 32)) as u32 as i32
}

/// `java.lang.Math.max` of two doubles: a NaN operand wins, and `+0.0` wins
/// over `-0.0`.
pub open spec fn larger(a: u64, b: u64) -> u64 {
    if is_nan(a) {
        a
    } else if is_nan(b) {
        b
    } else if total_position(a) >= total_position(b) {
        a
    } else {
        b
    }
}

/// `java.lang.Math.min` of two doubles.
pub open spec fn smaller(a: u64, b: u64) -> u64 {
    if is_nan(a) {
        a
    } else if is_nan(b) {
        b
    } else if total_position(a) <= total_position(b) {
        a
    } else {
        b
    }
}

/// `java.lang.Math.max(double, double)`.
pub fn java_fmax(a: u64, b: u64) -> (r: u64)
    ensures
        r == larger(a, b),
{
    if nan(a) {
        a
    } else if nan(b) {
        b
    } else if position(a) >= position(b) {
        a
    } else {
        b
    }
}

/// `java.lang.Math.min(double, double)`.
pub fn java_fmin(a: u64, b: u64) -> (r: u64)
    ensures
        r == smaller(a, b),
{
    if nan(a) {
        a
    } else if nan(b) {
        b
    } else if position(a) <= position(b) {
        a
    } else {
        b
    }
}

// ── To an integer ───────────────────────────────────────────────────────────

/// The significand, with the implicit leading bit of a normal number.
pub open spec fn significand(bits: u64) -> int {
    let m = magnitude_bits(bits);
    if m / 0x10_0000_0000_0000 == 0 {
        m
    } else {
        m % 0x10_0000_0000_0000 + 0x10_0000_0000_0000
    }
}

/// The power of two that the significand is scaled by.
pub open spec fn exponent(bits: u64) -> int {
    let e = magnitude_bits(bits) / 0x10_0000_0000_0000;
    if e == 0 {
        -1074
    } else {
        e - 1075
    }
}

/// `n` brought into the range of a 64-bit integer.
pub open spec fn saturated(n: int) -> int {
    if n < i64::MIN {
        i64::MIN as int
    } else if n > i64::MAX {
        i64::MAX as int
    } else {
        n
    }
}

/// `|x|` rounded toward zero, for the finite number `x`.
pub open spec fn whole_part(bits: u64) -> int {
    let e = exponent(bits);
    if e >= 0 {
        significand(bits) * pow2(e as nat)
    } else {
        significand(bits) / (pow2((-e) as nat) as int)
    }
}

/// The number rounded toward zero: NaN is 0, and what exceeds 64 bits
/// saturates.
pub open spec fn truncated(bits: u64) -> int {
    if is_nan(bits) {
        0
    } else if is_infinite(bits) {
        if is_negative(bits) {
            i64::MIN as int
        } else {
            i64::MAX as int
        }
    } else if is_negative(bits) {
        saturated(-whole_part(bits))
    } else {
        saturated(whole_part(bits))
    }
}

/// The integer nearest to the number, halves rounded up: the floor of the
/// number plus one half. NaN is 0, and what exceeds 64 bits saturates.
pub open spec fn rounded_half_up(bits: u64) -> int {
    let e = exponent(bits);
    if e >= 0 || is_nan(bits) || is_infinite(bits) {
        truncated(bits)
    } else {
        let m = if is_negative(bits) {
            -significand(bits)
        } else {
            significand(bits)
        };
        (2 * m + pow2((-e) as nat)) / (2 * pow2((-e) as nat) as int)
    }
}

fn exponent_of(bits: u64) -> (e: i64)
    ensures
        e == exponent(bits),
        -1074 <= e <= 972,
{
    let biased: i64 = (magnitude(bits) / 0x10_0000_0000_0000) as i64;
    if biased == 0 {
        -1074
    } else {
        biased - 1075
    }
}

fn significand_of(bits: u64) -> (m: u64)
    ensures
        m == significand(bits),
        m < 0x20_0000_0000_0000,
        exponent(bits) > -1074 ==> m >= 0x10_0000_0000_0000,
{
    let m: u64 = magnitude(bits);
    if m / 0x10_0000_0000_0000 == 0 {
        m
    } else {
        m % 0x10_0000_0000_0000 + 0x10_0000_0000_0000
    }
}

/// `2^k`.
fn power_of_two(k: u32) -> (r: u64)
    requires
        k < 64,
    ensures
        r == pow2(k as nat),
{
    let mut r: u64 = 1;
    let mut i: u32 = 0;
    proof {
        lemma2_to64();
    }
    while i < k
        invariant
            i <= k < 64,
            r == pow2(i as nat),
        decreases k - i,
    {
        proof {
            lemma_power_step(i as nat);
            lemma_power_order((i + 1) as nat, 63);
            lemma2_to64();
            vstd::arithmetic::power2::lemma2_to64_rest();
        }
        r = r * 2;
        i = i + 1;
    }
    r
}

proof fn lemma_power_step(k: nat)
    ensures
        pow2(k + 1) == 2 * pow2(k),
{
    vstd::arithmetic::power2::lemma_pow2_unfold(k + 1);
}

proof fn lemma_power_order(a: nat, b: nat)
    requires
        a <= b,
    ensures
        pow2(a) <= pow2(b),
{
    if a < b {
        vstd::arithmetic::power2::lemma_pow2_strictly_increases(a, b);
    }
}

/// The number rounded toward zero, the way a JVM converts a double to a long.
pub fn double_to_int(bits: u64) -> (r: i64)
    ensures
        r == truncated(bits),
{
    if nan(bits) {
        return 0;
    }
    let negative: bool = bits >= 0x8000_0000_0000_0000;
    if magnitude(bits) == 0x7ff0_0000_0000_0000 {
        return if negative {
            i64::MIN
        } else {
            i64::MAX
        };
    }
    let e: i64 = exponent_of(bits);
    let m: u64 = significand_of(bits);
    proof {
        lemma2_to64();
        vstd::arithmetic::power2::lemma2_to64_rest();
    }
    let whole: u64;
    if e >= 11 {
        proof {
            lemma_power_order(11, e as nat);
            assert(m * pow2(e as nat) >= 0x10_0000_0000_0000 * 2048) by (nonlinear_arith)
                requires
                    m >= 0x10_0000_0000_0000,
                    pow2(e as nat) >= 2048,
            ;
        }
        return if negative {
            i64::MIN
        } else {
            i64::MAX
        };
    } else if e >= 0 {
        let p: u64 = power_of_two(e as u32);
        proof {
            lemma_power_order(e as nat, 10);
        }
        assert(m * p < 0x20_0000_0000_0000 * 1024) by (nonlinear_arith)
            requires
                m < 0x20_0000_0000_0000,
                p <= 1024,
        ;
        whole = m * p;
    } else if e > -64 {
        let p: u64 = power_of_two((-e) as u32);
        proof {
            lemma_pow2_pos((-e) as nat);
        }
        whole = m / p;
        assert(m as int / p as int <= m) by (nonlinear_arith)
            requires
                p >= 1,
        ;
    } else {
        whole = 0;
        proof {
            lemma_power_order(63, (-e) as nat);
            lemma_pow2_pos((-e) as nat);
            assert(m as int / pow2((-e) as nat) as int == 0) by (nonlinear_arith)
                requires
                    0 <= m < pow2((-e) as nat),
            ;
        }
    }
    if negative {
        -(whole as i64)
    } else {
        whole as i64
    }
}

/// `java.lang.Math.round(double)`: the floor of the number plus one half, with
/// no rounding error of its own.
pub fn java_math_round(bits: u64) -> (r: i64)
    ensures
        r == rounded_half_up(bits),
{
    let e: i64 = exponent_of(bits);
    if e >= 0 || nan(bits) || magnitude(bits) == 0x7ff0_0000_0000_0000 {
        return double_to_int(bits);
    }
    let m: u64 = significand_of(bits);
    let negative: bool = bits >= 0x8000_0000_0000_0000;
    let signed: i128 = if negative {
        -(m as i128)
    } else {
        m as i128
    };
    proof {
        lemma2_to64();
        vstd::arithmetic::power2::lemma2_to64_rest();
        lemma_pow2_pos((-e) as nat);
    }
    if e <= -56 {
        proof {
            let p = pow2((-e) as nat) as int;
            lemma_power_order(56, (-e) as nat);
            assert((2 * signed + p) / (2 * p) == 0) by (nonlinear_arith)
                requires
                    0 <= 2 * signed + p < 2 * p,
            ;
        }
        return 0;
    }
    let p: i128 = power_of_two((-e) as u32) as i128;
    proof {
        lemma_power_order((-e) as nat, 56);
    }
    let top: i128 = 2 * signed + p;
    let d: i128 = 2 * p;
    if top >= 0 {
        assert(0 <= top as int / d as int <= top) by (nonlinear_arith)
            requires
                top >= 0,
                d >= 1,
        ;
        (top / d) as i64
    } else {
        // Rounding toward negative infinity.
        let up: i128 = d - 1 - top;
        assert(up / d == (d - 1 - top) / (d as int));
        proof {
            lemma_floor_of_negative(top as int, d as int);
        }
        assert(0 <= up as int / d as int <= up) by (nonlinear_arith)
            requires
                up >= 0,
                d >= 1,
        ;
        (-(up / d)) as i64
    }
}

proof fn lemma_floor_of_negative(x: int, d: int)
    requires
        x < 0,
        d > 0,
    ensures
        x / d == -((d - 1 - x) / d),
{
    let y = d - 1 - x;
    vstd::arithmetic::div_mod::lemma_fundamental_div_mod(y, d);
    vstd::arithmetic::div_mod::lemma_mod_bound(y, d);
    let q = y / d;
    let r = y % d;
    assert(x == d * (-q) + (d - 1 - r)) by (nonlinear_arith)
        requires
            y == d * q + r,
            y == d - 1 - x,
    ;
    vstd::arithmetic::div_mod::lemma_fundamental_div_mod_converse(x, d, -q, d - 1 - r);
}

// ── Printed forms ───────────────────────────────────────────────────────────

/// `n` zeros.
pub open spec fn zeros(n: int) -> Seq<char> {
    Seq::new(
        if n > 0 {
            n as nat
        } else {
            0
        },
        |i: int| '0',
    )
}

/// The digits before the decimal point of `d.ddd × 10^e`.
pub open spec fn whole_digits(digits: Seq<char>, e: int) -> Seq<char> {
    if e < 0 {
        seq!['0']
    } else if digits.len() <= e + 1 {
        digits + zeros(e + 1 - digits.len())
    } else {
        digits.take(e + 1)
    }
}

/// The digits behind the decimal point of `d.ddd × 10^e`.
pub open spec fn fraction_digits(digits: Seq<char>, e: int) -> Seq<char> {
    if e < 0 {
        zeros(-e - 1) + digits
    } else if digits.len() <= e + 1 {
        Seq::empty()
    } else {
        digits.skip(e + 1)
    }
}

/// `digits`, or `0` when there are none.
pub open spec fn or_zero(digits: Seq<char>) -> Seq<char> {
    if digits.len() == 0 {
        seq!['0']
    } else {
        digits
    }
}

/// The first `n` of `digits`, or all of them when there are fewer.
pub open spec fn first_digits(digits: Seq<char>, n: int) -> Seq<char> {
    if digits.len() <= n {
        digits
    } else {
        digits.take(n)
    }
}

/// What [`first_digits`] leaves.
pub open spec fn digits_after(digits: Seq<char>, n: int) -> Seq<char> {
    if digits.len() <= n {
        Seq::empty()
    } else {
        digits.skip(n)
    }
}

/// The printed form of a finite non-zero magnitude: plain decimal inside
/// `[1e-3, 1e7)`, else one digit before the point and an exponent.
pub open spec fn magnitude_text(digits: Seq<char>, e: int) -> Seq<char> {
    if -3 <= e < 7 {
        whole_digits(digits, e) + seq!['.'] + or_zero(fraction_digits(digits, e))
    } else {
        or_zero(first_digits(digits, 1)) + seq!['.'] + or_zero(digits_after(digits, 1)) + seq!['E']
            + decimal(e)
    }
}

/// Kotlin `Double.toString()`.
pub open spec fn double_text(d: DoubleView) -> Seq<char> {
    if is_nan(d.bits) {
        "NaN"@
    } else if is_infinite(d.bits) {
        if is_negative(d.bits) {
            "-Infinity"@
        } else {
            "Infinity"@
        }
    } else if magnitude_bits(d.bits) == 0 {
        if is_negative(d.bits) {
            "-0.0"@
        } else {
            "0.0"@
        }
    } else if is_negative(d.bits) {
        seq!['-'] + magnitude_text(d.digits, d.exp10)
    } else {
        magnitude_text(d.digits, d.exp10)
    }
}

/// Append `n` zeros.
fn push_zeros(v: &mut Vec<char>, n: u64)
    ensures
        final(v)@ == old(v)@ + zeros(n as int),
{
    let mut i: u64 = 0;
    assert(v@ + zeros(0) =~= v@);
    while i < n
        invariant
            i <= n,
            v@ == old(v)@ + zeros(i as int),
        decreases n - i,
    {
        v.push('0');
        i = i + 1;
        assert(old(v)@ + zeros(i as int) =~= (old(v)@ + zeros(i - 1)).push('0'));
    }
}

/// Append the characters `from .. to` of `src`.
pub(crate) fn push_range(v: &mut Vec<char>, src: &Vec<char>, from: usize, to: usize)
    requires
        from <= to <= src@.len(),
    ensures
        final(v)@ == old(v)@ + src@.subrange(from as int, to as int),
{
    let mut i: usize = from;
    assert(v@ + src@.subrange(from as int, from as int) =~= v@);
    while i < to
        invariant
            from <= i <= to <= src@.len(),
            v@ == old(v)@ + src@.subrange(from as int, i as int),
        decreases to - i,
    {
        v.push(src[i]);
        i = i + 1;
        assert(old(v)@ + src@.subrange(from as int, i as int) =~= (old(v)@ + src@.subrange(
            from as int,
            i - 1,
        )).push(src@[i - 1]));
    }
}

/// The digits before the decimal point.
pub(crate) fn whole_of(digits: &Vec<char>, e: i32) -> (r: Vec<char>)
    ensures
        r@ == whole_digits(digits@, e as int),
{
    let mut r: Vec<char> = Vec::new();
    if e < 0 {
        r.push('0');
        assert(r@ =~= seq!['0']);
    } else {
        let want: u64 = e as u64 + 1;
        if digits.len() as u64 <= want {
            push_range(&mut r, digits, 0, digits.len());
            push_zeros(&mut r, want - digits.len() as u64);
            assert(r@ =~= digits@ + zeros(e + 1 - digits@.len()));
        } else {
            push_range(&mut r, digits, 0, want as usize);
            assert(r@ =~= digits@.take(e + 1));
        }
    }
    r
}

/// The digits behind the decimal point.
pub(crate) fn fraction_of(digits: &Vec<char>, e: i32) -> (r: Vec<char>)
    ensures
        r@ == fraction_digits(digits@, e as int),
{
    let mut r: Vec<char> = Vec::new();
    if e < 0 {
        push_zeros(&mut r, (-(e as i64) - 1) as u64);
        push_range(&mut r, digits, 0, digits.len());
        assert(r@ =~= zeros(-e - 1) + digits@);
    } else {
        let want: u64 = e as u64 + 1;
        if (digits.len() as u64) > want {
            push_range(&mut r, digits, want as usize, digits.len());
            assert(r@ =~= digits@.skip(e + 1));
        }
    }
    r
}

/// Append `digits`, or `0` when there are none.
fn push_or_zero(v: &mut Vec<char>, digits: &Vec<char>, from: usize, to: usize)
    requires
        from <= to <= digits@.len(),
    ensures
        final(v)@ == old(v)@ + or_zero(digits@.subrange(from as int, to as int)),
{
    if from == to {
        v.push('0');
        assert(v@ =~= old(v)@ + seq!['0']);
    } else {
        push_range(v, digits, from, to);
    }
}

/// The string with the characters `v`.
pub(crate) fn to_string(v: &Vec<char>) -> (s: String)
    ensures
        s@ == v@,
{
    let s: String = crate::text::string_of(v, 0, v.len());
    assert(v@.subrange(0, v@.len() as int) =~= v@);
    s
}

/// Append the printed form of a finite non-zero magnitude.
fn push_magnitude(out: &mut Vec<char>, digits: &Vec<char>, exp10: i32)
    ensures
        final(out)@ == old(out)@ + magnitude_text(digits@, exp10 as int),
{
    let ghost before = out@;
    if -3 <= exp10 && exp10 < 7 {
        let whole: Vec<char> = whole_of(digits, exp10);
        let fraction: Vec<char> = fraction_of(digits, exp10);
        push_range(out, &whole, 0, whole.len());
        out.push('.');
        push_or_zero(out, &fraction, 0, fraction.len());
        assert(whole@.subrange(0, whole@.len() as int) =~= whole@);
        assert(fraction@.subrange(0, fraction@.len() as int) =~= fraction@);
        assert(out@ =~= before + magnitude_text(digits@, exp10 as int));
    } else {
        let cut: usize = if digits.len() <= 1 {
            digits.len()
        } else {
            1
        };
        push_or_zero(out, digits, 0, cut);
        out.push('.');
        push_or_zero(out, digits, cut, digits.len());
        out.push('E');
        let e: Vec<char> = chars_of_str(int_text(exp10 as i64).as_str());
        push_range(out, &e, 0, e.len());
        assert(e@.subrange(0, e@.len() as int) =~= e@);
        assert(digits@.subrange(0, cut as int) =~= first_digits(digits@, 1));
        assert(digits@.subrange(cut as int, digits@.len() as int) =~= digits_after(digits@, 1));
        assert(out@ =~= before + magnitude_text(digits@, exp10 as int));
    }
}

/// Kotlin `Double.toString()`: shortest round-trip, whole values keep a trailing
/// `.0`, and the non-finite forms are `NaN` / `Infinity` / `-Infinity`. Plain
/// decimal is used only inside `[1e-3, 1e7)`.
pub fn format_double(d: &Double) -> (s: String)
    ensures
        s@ == double_text(d@),
{
    if nan(d.bits) {
        return "NaN".to_owned();
    }
    let negative: bool = d.bits >= 0x8000_0000_0000_0000;
    if magnitude(d.bits) == 0x7ff0_0000_0000_0000 {
        return if negative {
            "-Infinity".to_owned()
        } else {
            "Infinity".to_owned()
        };
    }
    if magnitude(d.bits) == 0 {
        return if negative {
            "-0.0".to_owned()
        } else {
            "0.0".to_owned()
        };
    }
    let digits: Vec<char> = chars_of_str(d.digits.as_str());
    let mut out: Vec<char> = Vec::new();
    if negative {
        out.push('-');
    }
    push_magnitude(&mut out, &digits, d.exp10);
    assert(out@ =~= double_text(d@));
    to_string(&out)
}

/// The digits one above `s`: the number written by the result is one more.
pub open spec fn incremented(s: Seq<char>) -> Seq<char>
    decreases s.len(),
{
    if s.len() == 0 {
        seq!['1']
    } else if s.last() == '9' {
        incremented(s.drop_last()).push('0')
    } else if '0' <= s.last() <= '8' {
        s.drop_last().push((s.last() as int + 1) as char)
    } else {
        s
    }
}

/// The first `keep` of the digits `s`, padded with zeros when there are fewer,
/// and rounded half up when there are more.
pub open spec fn kept_digits(s: Seq<char>, keep: int) -> Seq<char> {
    if s.len() <= keep {
        s + zeros(keep - s.len())
    } else if s[keep] >= '5' {
        incremented(s.take(keep))
    } else {
        s.take(keep)
    }
}

/// A finite magnitude with exactly `prec` fraction digits, rounded half up on
/// its shortest decimal form.
pub open spec fn fixed_magnitude(digits: Seq<char>, e: int, prec: int) -> Seq<char> {
    let whole = whole_digits(digits, e);
    let all = kept_digits(whole + fraction_digits(digits, e), whole.len() + prec);
    if prec == 0 {
        all
    } else {
        all.take(all.len() - prec) + seq!['.'] + all.skip(all.len() - prec)
    }
}

/// The `%.{prec}f` form.
pub open spec fn fixed_text(d: DoubleView, prec: int) -> Seq<char> {
    if is_nan(d.bits) || is_infinite(d.bits) {
        double_text(d)
    } else if is_negative(d.bits) {
        seq!['-'] + fixed_magnitude(d.digits, d.exp10, prec)
    } else {
        fixed_magnitude(d.digits, d.exp10, prec)
    }
}

/// Whether `s` is made of decimal digits.
pub open spec fn is_decimal(s: Seq<char>) -> bool {
    forall|i: int| 0 <= i < s.len() ==> '0' <= #[trigger] s[i] <= '9'
}

proof fn lemma_incremented_len(s: Seq<char>)
    ensures
        s.len() <= incremented(s).len() <= s.len() + 1,
    decreases s.len(),
{
    if s.len() > 0 && s.last() == '9' {
        lemma_incremented_len(s.drop_last());
    }
}

/// One more, digit by digit.
fn increment(v: &mut Vec<char>)
    ensures
        final(v)@ == incremented(old(v)@),
    decreases old(v)@.len(),
{
    match v.pop() {
        None => {
            v.push('1');
            assert(v@ =~= seq!['1']);
        },
        Some(c) => {
            assert(v@ =~= old(v)@.drop_last());
            assert(c == old(v)@.last());
            if c == '9' {
                increment(v);
                v.push('0');
            } else if '0' <= c && c <= '8' {
                let next: char = (c as u8 + 1) as char;
                v.push(next);
            } else {
                v.push(c);
                assert(v@ =~= old(v)@);
            }
        },
    }
}

/// The first `keep` digits, padded or rounded half up.
fn keep_digits(all: &mut Vec<char>, keep: u128)
    requires
        keep <= old(all)@.len() + u32::MAX,
    ensures
        final(all)@ == kept_digits(old(all)@, keep as int),
{
    if all.len() as u128 <= keep {
        let missing: u128 = keep - all.len() as u128;
        push_zeros(all, missing as u64);
    } else {
        let round_up: bool = all[keep as usize] >= '5';
        all.truncate(keep as usize);
        assert(all@ =~= old(all)@.take(keep as int));
        if round_up {
            increment(all);
        }
    }
}

/// `all` with a decimal point before its last `prec` digits.
fn with_point(all: &Vec<char>, prec: usize) -> (r: Vec<char>)
    requires
        prec <= all@.len(),
    ensures
        r@ == (if prec == 0 {
            all@
        } else {
            all@.take(all@.len() - prec) + seq!['.'] + all@.skip(all@.len() - prec)
        }),
{
    let mut r: Vec<char> = Vec::new();
    let cut: usize = all.len() - prec;
    push_range(&mut r, all, 0, cut);
    if prec > 0 {
        r.push('.');
    }
    push_range(&mut r, all, cut, all.len());
    assert(r@ =~= (if prec == 0 {
        all@
    } else {
        all@.take(all@.len() - prec) + seq!['.'] + all@.skip(all@.len() - prec)
    }));
    r
}

/// A finite magnitude with exactly `prec` fraction digits.
fn fixed_of(d: &Double, prec: u32) -> (r: Vec<char>)
    ensures
        r@ == fixed_magnitude(d@.digits, d@.exp10, prec as int),
{
    let digits: Vec<char> = chars_of_str(d.digits.as_str());
    let whole: Vec<char> = whole_of(&digits, d.exp10);
    let fraction: Vec<char> = fraction_of(&digits, d.exp10);
    let mut all: Vec<char> = Vec::new();
    push_range(&mut all, &whole, 0, whole.len());
    push_range(&mut all, &fraction, 0, fraction.len());
    let ghost joined = whole@ + fraction@;
    assert(all@ =~= joined);
    let keep: u128 = whole.len() as u128 + prec as u128;
    keep_digits(&mut all, keep);
    proof {
        lemma_incremented_len(joined.take(keep as int));
    }
    with_point(&all, prec as usize)
}

/// `x` with exactly `prec` fraction digits, rounded the way
/// `java.util.Formatter`'s `%f` rounds: half up, applied to the value's shortest
/// round-tripping decimal form.
pub fn format_fixed(d: &Double, prec: u32) -> (s: String)
    ensures
        s@ == fixed_text(d@, prec as int),
{
    if nan(d.bits) || magnitude(d.bits) == 0x7ff0_0000_0000_0000 {
        return format_double(d);
    }
    let body: Vec<char> = fixed_of(d, prec);
    let text: String = to_string(&body);
    if d.bits >= 0x8000_0000_0000_0000 {
        let s: String = concat2("-", text.as_str());
        proof {
            reveal_strlit("-");
        }
        assert("-"@ =~= seq!['-']);
        s
    } else {
        text
    }
}

// ── Laws ────────────────────────────────────────────────────────────────────

/// Counting up a run of digits adds one to the number it writes.
pub proof fn law_incremented_adds_one(s: Seq<char>)
    requires
        is_decimal(s),
    ensures
        is_decimal(incremented(s)),
        digits_number(incremented(s), 10) == digits_number(s, 10) + 1,
    decreases s.len(),
{
    if s.len() == 0 {
        let one = seq!['1'];
        assert(one.drop_last() =~= Seq::<char>::empty());
        assert(digits_number(one.drop_last(), 10) == 0);
    } else {
        let head = s.drop_last();
        if s.last() == '9' {
            law_incremented_adds_one(head);
            let up = incremented(head);
            assert(up.push('0').drop_last() =~= up);
        } else {
            let last = (s.last() as int + 1) as char;
            crate::text::lemma_char_code(s.last());
            assert(head.push(last).drop_last() =~= head);
            assert(digit_value(last) == digit_value(s.last()) + 1);
        }
    }
}

/// `Double.equals` and `Double.hashCode` agree: equal doubles hash alike.
pub proof fn law_equal_doubles_hash_alike(a: u64, b: u64)
    requires
        boxed_eq(a, b),
    ensures
        hash_of_bits(a) == hash_of_bits(b),
{
}

/// `Double.compare` answers 0 exactly where `Double.equals` answers `true`.
pub proof fn law_compare_agrees_with_equals(a: u64, b: u64)
    ensures
        total_position(a) == total_position(b) <==> boxed_eq(a, b),
{
}

} // verus!
