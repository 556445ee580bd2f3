//! Integers in positional notation.
use crate::lexer::digit_of;
use crate::text::{chars_of_str, push_char};
use vstd::prelude::*;

verus! {

use crate::lexer::{digit_value, digits_number};
use vstd::arithmetic::div_mod::lemma_fundamental_div_mod;

/// The character that writes the digit `d`, in lower case.
pub open spec fn digit_char(d: int) -> char {
    if d < 10 {
        ('0' as int + d) as char
    } else {
        ('a' as int + d - 10) as char
    }
}

/// A natural number in base `base`, without leading zeros.
pub open spec fn nat_digits(n: nat, base: nat) -> Seq<char>
    decreases n,
{
    if base < 2 || n < base {
        seq![digit_char(n as int)]
    } else {
        proof {
            lemma_quotient_smaller(n, base);
        }
        nat_digits(n / base, base).push(digit_char((n % base) as int))
    }
}

/// Dividing by a base makes a number smaller.
pub proof fn lemma_quotient_smaller(n: nat, base: nat)
    requires
        2 <= base <= n,
    ensures
        n / base < n,
{
    assert(n / base < n) by (nonlinear_arith)
        requires
            2 <= base <= n,
    ;
}

/// An integer in base `base`, with the sign written out in front.
pub open spec fn int_digits(n: int, base: nat) -> Seq<char> {
    if n < 0 {
        seq!['-'] + nat_digits((-n) as nat, base)
    } else {
        nat_digits(n as nat, base)
    }
}

/// An integer in decimal notation.
pub open spec fn decimal(n: int) -> Seq<char> {
    int_digits(n, 10)
}

/// The character that writes the digit `d`.
fn char_of_digit(d: u32) -> (c: char)
    requires
        d < 36,
    ensures
        c == digit_char(d as int),
{
    if d < 10 {
        ('0' as u8 + d as u8) as char
    } else {
        ('a' as u8 + (d - 10) as u8) as char
    }
}

/// Append `n` in base `base` to `s`.
fn push_digits(s: &mut String, n: u64, base: u32)
    requires
        2 <= base <= 36,
    ensures
        final(s)@ == old(s)@ + nat_digits(n as nat, base as nat),
    decreases n,
{
    if n >= base as u64 {
        assert(n / (base as u64) < n) by (nonlinear_arith)
            requires
                base >= 2,
                n >= base,
        ;
        push_digits(s, n / (base as u64), base);
    }
    assert(n % (base as u64) < base) by (nonlinear_arith)
        requires
            base >= 2,
    ;
    let ghost before = s@;
    push_char(s, char_of_digit((n % (base as u64)) as u32));
    proof {
        if n < base {
            assert(n % (base as u64) == n) by (nonlinear_arith)
                requires
                    n < base,
                    base >= 2,
            ;
            assert(s@ =~= old(s)@ + nat_digits(n as nat, base as nat));
        } else {
            assert(s@ =~= old(s)@ + nat_digits((n / (base as u64)) as nat, base as nat).push(
                digit_char((n % (base as u64)) as int),
            ));
        }
    }
}

/// A natural number in `radix`.
pub fn unsigned_to_radix(n: u64, radix: u32) -> (s: String)
    requires
        2 <= radix <= 36,
    ensures
        s@ == nat_digits(n as nat, radix as nat),
{
    let mut s: String = String::new();
    push_digits(&mut s, n, radix);
    assert(Seq::<char>::empty() + nat_digits(n as nat, radix as nat) =~= nat_digits(
        n as nat,
        radix as nat,
    ));
    s
}

/// An integer in `radix`, with the sign written out in front: the form
/// `Int.toString(radix)` produces, where `(-255).toString(16)` is `-ff`.
pub fn to_radix(n: i64, radix: u32) -> (s: String)
    requires
        2 <= radix <= 36,
    ensures
        s@ == int_digits(n as int, radix as nat),
{
    let mut s: String = String::new();
    if n < 0 {
        push_char(&mut s, '-');
        assert(s@ =~= seq!['-']);
        let magnitude: u64 = (-(n as i128)) as u64;
        push_digits(&mut s, magnitude, radix);
    } else {
        push_digits(&mut s, n as u64, radix);
        assert(s@ =~= int_digits(n as int, radix as nat));
    }
    s
}

/// An integer in decimal notation.
pub fn int_text(n: i64) -> (s: String)
    ensures
        s@ == decimal(n as int),
{
    to_radix(n, 10)
}

// ── Reading ─────────────────────────────────────────────────────────────────

/// Whether `s` is a non-empty run of digits of `base`.
pub open spec fn is_digit_run(s: Seq<char>, base: int) -> bool {
    s.len() > 0 && forall|i: int| 0 <= i < s.len() ==> digit_value(#[trigger] s[i]) < base
}

/// The integer that `s` writes in `base`: digits with an optional sign. `None`
/// when `s` is something else.
pub open spec fn signed_number(s: Seq<char>, base: int) -> Option<int> {
    if is_digit_run(s, base) {
        Some(digits_number(s, base))
    } else if s.len() > 0 && (s[0] == '-' || s[0] == '+') && is_digit_run(s.skip(1), base) {
        Some(
            if s[0] == '-' {
                -digits_number(s.skip(1), base)
            } else {
                digits_number(s.skip(1), base)
            },
        )
    } else {
        None
    }
}

/// The 64-bit integer that `s` writes in `base`, if it fits.
pub open spec fn long_number(s: Seq<char>, base: int) -> Option<int> {
    match signed_number(s, base) {
        Some(n) => if i64::MIN <= n <= i64::MAX {
            Some(n)
        } else {
            None
        },
        None => None,
    }
}

proof fn lemma_number_grows(s: Seq<char>, i: int, base: int)
    requires
        0 <= i <= s.len(),
        base >= 1,
        is_digit_run(s, base),
    ensures
        0 <= digits_number(s.take(i), base) <= digits_number(s, base),
    decreases s.len() - i,
{
    lemma_number_nonneg(s.take(i), base);
    if i == s.len() {
        assert(s.take(i) =~= s);
    } else {
        lemma_number_grows(s, i + 1, base);
        assert(s.take(i + 1).drop_last() =~= s.take(i));
        let v = digits_number(s.take(i), base);
        assert(v * base >= v) by (nonlinear_arith)
            requires
                v >= 0,
                base >= 1,
        ;
        assert(digit_value(s[i]) >= 0);
    }
}

proof fn lemma_number_nonneg(s: Seq<char>, base: int)
    requires
        base >= 0,
    ensures
        digits_number(s, base) >= 0,
    decreases s.len(),
{
    if s.len() > 0 {
        lemma_number_nonneg(s.drop_last(), base);
        let v = digits_number(s.drop_last(), base);
        assert(v * base >= 0) by (nonlinear_arith)
            requires
                v >= 0,
                base >= 0,
        ;
    }
}

/// The number that the characters from `from` on write, when they are digits of
/// `base` and it is at most `limit`.
fn magnitude(v: &Vec<char>, from: usize, base: u32, limit: u64) -> (r: Option<u64>)
    requires
        from <= v@.len(),
        2 <= base <= 36,
    ensures
        match r {
            Some(n) => is_digit_run(v@.skip(from as int), base as int) && n == digits_number(
                v@.skip(from as int),
                base as int,
            ) && n <= limit,
            None => !is_digit_run(v@.skip(from as int), base as int) || digits_number(
                v@.skip(from as int),
                base as int,
            ) > limit,
        },
{
    let ghost s = v@.skip(from as int);
    if from == v.len() {
        return None;
    }
    let mut n: u64 = 0;
    let mut i: usize = from;
    while i < v.len()
        invariant
            from <= i <= v@.len(),
            s == v@.skip(from as int),
            s.len() > 0,
            2 <= base <= 36,
            forall|j: int| 0 <= j < i - from ==> digit_value(#[trigger] s[j]) < base,
            n == digits_number(s.take(i - from), base as int),
            n <= limit,
        decreases v.len() - i,
    {
        let d: u32 = digit_of(v[i]);
        assert(v@[i as int] == s[i - from]);
        if d >= base {
            return None;
        }
        assert(0 <= n * base <= u64::MAX * 36) by (nonlinear_arith)
            requires
                0 <= n <= u64::MAX,
                2 <= base <= 36,
        ;
        let wide: u128 = (n as u128) * (base as u128) + (d as u128);
        assert(s.take(i - from + 1).drop_last() =~= s.take(i - from));
        if wide > limit as u128 {
            proof {
                if is_digit_run(s, base as int) {
                    lemma_number_grows(s, i - from + 1, base as int);
                }
            }
            return None;
        }
        n = wide as u64;
        i = i + 1;
    }
    assert(s.take(i - from) =~= s);
    Some(n)
}

/// The size that `s` writes in decimal: digits behind an optional `+`, if it
/// fits.
pub open spec fn size_number(s: Seq<char>) -> Option<int> {
    let body = if s.len() > 0 && s[0] == '+' {
        s.skip(1)
    } else {
        s
    };
    if is_digit_run(body, 10) && digits_number(body, 10) <= usize::MAX {
        Some(digits_number(body, 10))
    } else {
        None
    }
}

/// The number that the decimal digits between two positions write, when it is at
/// most `limit`.
pub(crate) fn digits_between(v: &Vec<char>, from: usize, to: usize, limit: u64) -> (r: Option<u64>)
    requires
        from < to <= v@.len(),
        forall|i: int| from <= i < to ==> '0' <= #[trigger] v@[i] <= '9',
    ensures
        match r {
            Some(n) => n == digits_number(v@.subrange(from as int, to as int), 10) && n <= limit,
            None => digits_number(v@.subrange(from as int, to as int), 10) > limit,
        },
{
    let mut part: Vec<char> = Vec::new();
    let mut i: usize = from;
    while i < to
        invariant
            from <= i <= to <= v@.len(),
            part@ == v@.subrange(from as int, i as int),
        decreases to - i,
    {
        part.push(v[i]);
        i = i + 1;
        assert(v@.subrange(from as int, i as int) =~= v@.subrange(from as int, i - 1).push(
            v@[i - 1],
        ));
    }
    assert(part@.skip(0) =~= part@);
    assert forall|k: int| 0 <= k < part@.len() implies digit_value(#[trigger] part@[k]) < 10 by {
        assert(part@[k] == v@[from + k]);
    }
    magnitude(&part, 0, 10, limit)
}

/// The size that `s` writes in decimal.
pub fn parse_size(s: &str) -> (r: Option<usize>)
    ensures
        match r {
            Some(n) => size_number(s@) == Some(n as int),
            None => size_number(s@) is None,
        },
{
    let v: Vec<char> = chars_of_str(s);
    let from: usize = if v.len() > 0 && v[0] == '+' {
        1
    } else {
        0
    };
    assert(v@.skip(0) =~= v@);
    match magnitude(&v, from, 10, usize::MAX as u64) {
        Some(n) => Some(n as usize),
        None => None,
    }
}

/// The 64-bit integer that `s` writes in `radix`: digits with an optional sign,
/// and nothing around them.
pub fn parse_long(s: &str, radix: u32) -> (r: Option<i64>)
    requires
        2 <= radix <= 36,
    ensures
        r == (match long_number(s@, radix as int) {
            Some(n) => Some(n as i64),
            None => None,
        }),
        r matches Some(n) ==> long_number(s@, radix as int) == Some(n as int),
{
    let v: Vec<char> = chars_of_str(s);
    if v.len() == 0 {
        return None;
    }
    proof {
        if v@[0] == '-' || v@[0] == '+' {
            assert(digit_value(v@[0]) == 36);
        }
        assert(v@.skip(0) =~= v@);
    }
    if v[0] == '-' {
        match magnitude(&v, 1, radix, 0x8000_0000_0000_0000) {
            Some(m) => Some((-(m as i128)) as i64),
            None => {
                proof {
                    if is_digit_run(v@.skip(1), radix as int) {
                        lemma_number_nonneg(v@.skip(1), radix as int);
                    }
                }
                None
            },
        }
    } else if v[0] == '+' {
        match magnitude(&v, 1, radix, 0x7fff_ffff_ffff_ffff) {
            Some(m) => Some(m as i64),
            None => None,
        }
    } else {
        match magnitude(&v, 0, radix, 0x7fff_ffff_ffff_ffff) {
            Some(m) => Some(m as i64),
            None => None,
        }
    }
}

// ── Laws ────────────────────────────────────────────────────────────────────

pub proof fn lemma_nat_digits_read_back(n: nat, base: nat)
    requires
        2 <= base <= 36,
    ensures
        is_digit_run(nat_digits(n, base), base as int),
        digits_number(nat_digits(n, base), base as int) == n,
    decreases n,
{
    if n < base {
        let d = seq![digit_char(n as int)];
        assert(d.drop_last() =~= Seq::<char>::empty());
        assert(digits_number(d.drop_last(), base as int) == 0);
        assert(0int * base == 0);
    } else {
        lemma_quotient_smaller(n, base);
        lemma_nat_digits_read_back(n / base, base);
        let head = nat_digits(n / base, base);
        let last = digit_char((n % base) as int);
        assert(n % base < base) by (nonlinear_arith)
            requires
                base >= 2,
        ;
        lemma_fundamental_div_mod(n as int, base as int);
        assert(head.push(last).drop_last() =~= head);
        assert(digit_value(last) == n % base);
        assert((n / base) as int * base as int == base as int * (n as int / base as int))
            by (nonlinear_arith);
        assert forall|i: int| 0 <= i < head.push(last).len() implies digit_value(
            #[trigger] head.push(last)[i],
        ) < base by {
            if i < head.len() {
                assert(head.push(last)[i] == head[i]);
            }
        }
    }
}

/// Reading back what was written gives the number: `toInt(radix)` undoes
/// `toString(radix)` for every 64-bit integer.
pub proof fn law_radix_round_trip(n: int, base: nat)
    requires
        2 <= base <= 36,
        i64::MIN <= n <= i64::MAX,
    ensures
        long_number(int_digits(n, base), base as int) == Some(n),
{
    if n < 0 {
        let d = nat_digits((-n) as nat, base);
        lemma_nat_digits_read_back((-n) as nat, base);
        let s = int_digits(n, base);
        assert(s.skip(1) =~= d);
        assert(digit_value(s[0]) == 36);
        assert(!is_digit_run(s, base as int));
    } else {
        lemma_nat_digits_read_back(n as nat, base);
    }
}

} // verus!
