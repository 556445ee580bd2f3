//! Reading numbers from text, the way the JVM reads them.
use crate::host::Host;
use crate::radix::{int_text, parse_long};
use crate::reply::NumberText;
use crate::text::{chars_of_str, concat2, concat3, same, string_of};
use crate::value::Value;
use vstd::prelude::*;

verus! {

use crate::host::HostView;
use crate::lexer::digit_value;
use crate::radix::{decimal, long_number};
use crate::reply::{NumberTextView, ReplyView};

// ── Integers ────────────────────────────────────────────────────────────────

/// Why an integer parse failed, which decides whether an `…OrNull` form
/// swallows it.
#[derive(Debug, PartialEq, Eq)]
pub enum ParseFail {
    /// The radix was outside `2..36`. It is checked before the string is looked
    /// at, so even `toIntOrNull` raises this one.
    Radix(String),
    /// The string is not a number of the requested width. The `…OrNull` forms
    /// answer null here.
    Number(String),
}

/// The radix argument, 10 when it was not given.
pub open spec fn radix_of(h: HostView, args: Seq<Value>) -> int {
    if args.len() > 0 {
        h.num_of(args[0])
    } else {
        10
    }
}

/// Whether `n` fits a signed integer of `bits` bits.
pub open spec fn fits(n: int, bits: int) -> bool {
    if bits == 8 {
        i8::MIN <= n <= i8::MAX
    } else if bits == 16 {
        i16::MIN <= n <= i16::MAX
    } else if bits == 32 {
        i32::MIN <= n <= i32::MAX
    } else {
        i64::MIN <= n <= i64::MAX
    }
}

/// The message for a radix outside `2..36`.
pub open spec fn radix_message(radix: int) -> Seq<char> {
    "java.lang.IllegalArgumentException: radix "@ + decimal(radix)
        + " was not in valid range 2..36"@
}

/// The message for a text that writes no integer.
pub open spec fn malformed_message(s: Seq<char>, radix: int) -> Seq<char> {
    "java.lang.NumberFormatException: For input string: \""@ + s + "\""@ + (if radix == 10 {
        Seq::<char>::empty()
    } else {
        " under radix "@ + decimal(radix)
    })
}

/// The message for an integer outside the requested width.
pub open spec fn width_message(s: Seq<char>, radix: int) -> Seq<char> {
    "java.lang.NumberFormatException: Value out of range. Value:\""@ + s + "\" Radix:"@ + decimal(
        radix,
    )
}

/// What `String.toInt` and its kin answer: the integer, or the fault of a radix
/// outside `2..36`, of a text that writes no 64-bit integer (or, for a narrow
/// type, none that fits an `Int`), or of an integer outside the width.
pub open spec fn radix_reply(h: HostView, s: Seq<char>, args: Seq<Value>, bits: int) -> ReplyView {
    let radix = radix_of(h, args);
    if radix < 2 || radix > 36 {
        ReplyView::Fault(radix_message(radix))
    } else {
        match long_number(s, radix) {
            None => ReplyView::Fault(malformed_message(s, radix)),
            Some(n) => if fits(n, bits) {
                ReplyView::Value(Value::Int(n as i64))
            } else if !fits(n, 32) {
                ReplyView::Fault(malformed_message(s, radix))
            } else {
                ReplyView::Fault(width_message(s, radix))
            },
        }
    }
}

/// What the `…OrNull` forms answer: null in place of a fault of the text, but
/// not of the radix.
pub open spec fn radix_reply_or_null(
    h: HostView,
    s: Seq<char>,
    args: Seq<Value>,
    bits: int,
) -> ReplyView {
    let radix = radix_of(h, args);
    match radix_reply(h, s, args, bits) {
        ReplyView::Fault(m) => if radix < 2 || radix > 36 {
            ReplyView::Fault(m)
        } else {
            ReplyView::Value(Value::Undef)
        },
        other => other,
    }
}

fn malformed(s: &str, radix: i64) -> (m: String)
    ensures
        m@ == malformed_message(s@, radix as int),
{
    let head: String = concat3(
        "java.lang.NumberFormatException: For input string: \"",
        s,
        "\"",
    );
    if radix == 10 {
        assert(head@ + Seq::<char>::empty() =~= head@);
        head
    } else {
        let tail: String = concat2(" under radix ", int_text(radix).as_str());
        concat2(head.as_str(), tail.as_str())
    }
}

fn in_width(n: i64, bits: u32) -> (r: bool)
    ensures
        r == fits(n as int, bits as int),
{
    if bits == 8 {
        -128 <= n && n <= 127
    } else if bits == 16 {
        -32768 <= n && n <= 32767
    } else if bits == 32 {
        -2147483648 <= n && n <= 2147483647
    } else {
        true
    }
}

/// `String.toInt`/`toLong` and their `…OrNull` forms, honouring the optional
/// radix argument. No trimming: surrounding whitespace is refused.
pub fn parse_radix(h: &Host, s: &str, args: &Vec<Value>, bits: u32) -> (r: Result<i64, ParseFail>)
    requires
        bits == 8 || bits == 16 || bits == 32 || bits == 64,
    ensures
        match r {
            Ok(n) => radix_reply(h@, s@, args@, bits as int) == ReplyView::Value(Value::Int(n)),
            Err(ParseFail::Radix(m)) => radix_reply(h@, s@, args@, bits as int)
                == ReplyView::Fault(m@) && !(2 <= radix_of(h@, args@) <= 36),
            Err(ParseFail::Number(m)) => radix_reply(h@, s@, args@, bits as int)
                == ReplyView::Fault(m@) && 2 <= radix_of(h@, args@) <= 36,
        },
{
    let radix: i64 = if args.len() > 0 {
        h.num_of(args[0])
    } else {
        10
    };
    if radix < 2 || radix > 36 {
        return Err(
            ParseFail::Radix(
                concat3(
                    "java.lang.IllegalArgumentException: radix ",
                    int_text(radix).as_str(),
                    " was not in valid range 2..36",
                ),
            ),
        );
    }
    match parse_long(s, radix as u32) {
        None => Err(ParseFail::Number(malformed(s, radix))),
        Some(n) => if in_width(n, bits) {
            Ok(n)
        } else if !in_width(n, 32) {
            Err(ParseFail::Number(malformed(s, radix)))
        } else {
            let head: String = concat3(
                "java.lang.NumberFormatException: Value out of range. Value:\"",
                s,
                "\" Radix:",
            );
            Err(ParseFail::Number(concat2(head.as_str(), int_text(radix).as_str())))
        },
    }
}

// ── Floating-point numbers ──────────────────────────────────────────────────

/// The first position from `i` on whose character is no decimal digit.
pub open spec fn digits_stop(s: Seq<char>, i: int) -> int
    decreases s.len() - i,
{
    if 0 <= i < s.len() && '0' <= s[i] <= '9' {
        digits_stop(s, i + 1)
    } else {
        i
    }
}

pub proof fn lemma_digits_stop(s: Seq<char>, i: int)
    requires
        0 <= i <= s.len(),
    ensures
        i <= digits_stop(s, i) <= s.len(),
    decreases s.len() - i,
{
    if i < s.len() && '0' <= s[i] <= '9' {
        lemma_digits_stop(s, i + 1);
    }
}

pub open spec fn char_at(s: Seq<char>, i: int) -> char {
    if 0 <= i < s.len() {
        s[i]
    } else {
        '\0'
    }
}

/// Position behind an optional sign at `i`.
pub open spec fn after_sign(s: Seq<char>, i: int) -> int {
    if char_at(s, i) == '+' || char_at(s, i) == '-' {
        i + 1
    } else {
        i
    }
}

/// Position behind the digits, point and digits of a decimal number at `i`.
pub open spec fn mantissa_stop(s: Seq<char>, i: int) -> int {
    let w = digits_stop(s, i);
    if char_at(s, w) == '.' {
        digits_stop(s, w + 1)
    } else {
        w
    }
}

/// Whether the mantissa at `i` has a digit before or behind its point.
pub open spec fn mantissa_ok(s: Seq<char>, i: int) -> bool {
    let w = digits_stop(s, i);
    w > i || (char_at(s, w) == '.' && digits_stop(s, w + 1) > w + 1)
}

/// Whether `s` is a decimal number without a sign: digits with an optional point
/// among or around them, and an optional exponent.
pub open spec fn is_decimal_number(s: Seq<char>) -> bool {
    let m = mantissa_stop(s, 0);
    &&& mantissa_ok(s, 0)
    &&& if char_at(s, m) == 'e' || char_at(s, m) == 'E' {
        let d = after_sign(s, m + 1);
        digits_stop(s, d) > d && digits_stop(s, d) == s.len()
    } else {
        m == s.len()
    }
}

/// `s` without the characters up to the space at both ends.
pub open spec fn ascii_trimmed(s: Seq<char>) -> Seq<char> {
    ascii_trimmed_end(ascii_trimmed_start(s))
}

pub open spec fn ascii_trimmed_start(s: Seq<char>) -> Seq<char>
    decreases s.len(),
{
    if s.len() > 0 && s[0] <= ' ' {
        ascii_trimmed_start(s.skip(1))
    } else {
        s
    }
}

pub open spec fn ascii_trimmed_end(s: Seq<char>) -> Seq<char>
    decreases s.len(),
{
    if s.len() > 0 && s.last() <= ' ' {
        ascii_trimmed_end(s.drop_last())
    } else {
        s
    }
}

pub open spec fn is_type_suffix(c: char) -> bool {
    c == 'd' || c == 'D' || c == 'f' || c == 'F'
}

/// `s` without one type suffix, which never stands alone.
pub open spec fn without_suffix(s: Seq<char>) -> Seq<char> {
    if s.len() > 1 && is_type_suffix(s.last()) {
        s.drop_last()
    } else {
        s
    }
}

/// `s` without its sign.
pub open spec fn without_sign(s: Seq<char>) -> Seq<char> {
    if s.len() > 0 && (s[0] == '-' || s[0] == '+') {
        s.skip(1)
    } else {
        s
    }
}

/// The first position of a `p` or `P`, or the length.
pub open spec fn exponent_mark(s: Seq<char>, i: int) -> int
    decreases s.len() - i,
{
    if 0 <= i < s.len() && s[i] != 'p' && s[i] != 'P' {
        exponent_mark(s, i + 1)
    } else {
        i
    }
}

/// The first position of a `.`, or the length.
pub open spec fn point_mark(s: Seq<char>, i: int) -> int
    decreases s.len() - i,
{
    if 0 <= i < s.len() && s[i] != '.' {
        point_mark(s, i + 1)
    } else {
        i
    }
}

pub proof fn lemma_marks(s: Seq<char>, i: int)
    requires
        0 <= i <= s.len(),
    ensures
        i <= exponent_mark(s, i) <= s.len(),
        i <= point_mark(s, i) <= s.len(),
    decreases s.len() - i,
{
    if i < s.len() {
        lemma_marks(s, i + 1);
    }
}

/// Whether every character is a hexadecimal digit.
pub open spec fn all_hex(s: Seq<char>) -> bool {
    forall|i: int| 0 <= i < s.len() ==> digit_value(#[trigger] s[i]) < 16
}

/// A hexadecimal floating-point literal behind its `0x`: digits with an optional
/// point, and a mandatory binary exponent.
pub open spec fn hex_number(s: Seq<char>, negative: bool) -> Option<NumberTextView> {
    let p = exponent_mark(s, 0);
    if p >= s.len() {
        None
    } else {
        let m = s.take(p);
        let q = point_mark(m, 0);
        let whole = m.take(q);
        let fraction = if q < m.len() {
            m.skip(q + 1)
        } else {
            Seq::empty()
        };
        match long_number(s.skip(p + 1), 10) {
            None => None,
            Some(e) => if e < i32::MIN || e > i32::MAX || whole.len() + fraction.len() == 0
                || !all_hex(whole) || !all_hex(fraction) {
                None
            } else {
                Some(NumberTextView::Hex { negative, whole, fraction, exp: e })
            },
        }
    }
}

/// The floating-point number that a text writes by the rules of
/// `java.lang.Double.parseDouble`: surrounded by characters up to the space, with
/// one optional sign; the word `Infinity` or `NaN`, or a hexadecimal or a decimal
/// number with an optional type suffix.
pub open spec fn number_of(s: Seq<char>) -> Option<NumberTextView> {
    let core = ascii_trimmed(s);
    let negative = core.len() > 0 && core[0] == '-';
    let unsigned = without_sign(core);
    let body = without_suffix(unsigned);
    if unsigned == "Infinity"@ {
        Some(NumberTextView::Infinity { negative })
    } else if unsigned == "NaN"@ {
        Some(NumberTextView::NotANumber)
    } else if body.len() >= 2 && body[0] == '0' && (body[1] == 'x' || body[1] == 'X') {
        hex_number(body.skip(2), negative)
    } else if is_decimal_number(body) {
        Some(NumberTextView::Decimal { negative, body })
    } else {
        None
    }
}

/// The fault of a text that writes no floating-point number.
pub open spec fn number_fault(s: Seq<char>) -> Seq<char> {
    if ascii_trimmed(s).len() == 0 {
        "java.lang.NumberFormatException: empty String"@
    } else {
        "java.lang.NumberFormatException: For input string: \""@ + s + "\""@
    }
}

fn skip_digits(v: &Vec<char>, from: usize) -> (r: usize)
    requires
        from <= v@.len(),
    ensures
        r == digits_stop(v@, from as int),
        from <= r <= v@.len(),
{
    let mut i: usize = from;
    while i < v.len() && '0' <= v[i] && v[i] <= '9'
        invariant
            from <= i <= v@.len(),
            digits_stop(v@, i as int) == digits_stop(v@, from as int),
        decreases v.len() - i,
    {
        i = i + 1;
    }
    i
}

fn at(v: &Vec<char>, i: usize) -> (c: char)
    ensures
        c == char_at(v@, i as int),
{
    if i < v.len() {
        v[i]
    } else {
        '\0'
    }
}

fn decimal_number(v: &Vec<char>) -> (r: bool)
    ensures
        r == is_decimal_number(v@),
{
    let n: usize = v.len();
    let w: usize = skip_digits(v, 0);
    let mut ok: bool = w > 0;
    let mut m: usize = w;
    if at(v, w) == '.' {
        assert(w < n);
        m = skip_digits(v, w + 1);
        ok = ok || m > w + 1;
    }
    if !ok {
        return false;
    }
    if at(v, m) == 'e' || at(v, m) == 'E' {
        assert(m < n);
        let d: usize = if at(v, m + 1) == '+' || at(v, m + 1) == '-' {
            m + 2
        } else {
            m + 1
        };
        let e: usize = skip_digits(v, d);
        e > d && e == v.len()
    } else {
        m == v.len()
    }
}

fn trim_ascii(v: &Vec<char>) -> (r: Vec<char>)
    ensures
        r@ == ascii_trimmed(v@),
{
    let mut i: usize = 0;
    assert(v@.skip(0) =~= v@);
    while i < v.len() && v[i] <= ' '
        invariant
            i <= v@.len(),
            ascii_trimmed_start(v@.skip(i as int)) == ascii_trimmed_start(v@),
        decreases v.len() - i,
    {
        assert(v@.skip(i as int).skip(1) =~= v@.skip(i + 1));
        i = i + 1;
    }
    let ghost head = v@.skip(i as int);
    assert(ascii_trimmed_start(v@) == head);
    let mut j: usize = v.len();
    assert(v@.subrange(i as int, j as int) =~= head);
    while j > i && v[j - 1] <= ' '
        invariant
            i <= j <= v@.len(),
            ascii_trimmed_end(v@.subrange(i as int, j as int)) == ascii_trimmed_end(head),
        decreases j,
    {
        let ghost t = v@.subrange(i as int, j as int);
        assert(t.last() == v@[j - 1]);
        assert(t.drop_last() =~= v@.subrange(i as int, j - 1));
        j = j - 1;
    }
    proof {
        let t = v@.subrange(i as int, j as int);
        if j > i {
            assert(t.last() == v@[j - 1]);
        }
    }
    part(v, i, j)
}

fn part(v: &Vec<char>, from: usize, to: usize) -> (r: Vec<char>)
    requires
        from <= to <= v@.len(),
    ensures
        r@ == v@.subrange(from as int, to as int),
{
    let mut r: Vec<char> = Vec::new();
    let mut i: usize = from;
    while i < to
        invariant
            from <= i <= to <= v@.len(),
            r@ == v@.subrange(from as int, i as int),
        decreases to - i,
    {
        r.push(v[i]);
        i = i + 1;
        assert(v@.subrange(from as int, i as int) =~= v@.subrange(from as int, i - 1).push(
            v@[i - 1],
        ));
    }
    r
}

fn hex_digits(v: &Vec<char>) -> (r: bool)
    ensures
        r == all_hex(v@),
{
    let mut i: usize = 0;
    while i < v.len()
        invariant
            i <= v@.len(),
            forall|j: int| 0 <= j < i ==> digit_value(#[trigger] v@[j]) < 16,
        decreases v.len() - i,
    {
        if crate::lexer::digit_of(v[i]) >= 16 {
            return false;
        }
        i = i + 1;
    }
    true
}

fn whole_string(v: &Vec<char>) -> (s: String)
    ensures
        s@ == v@,
{
    assert(v@.subrange(0, v@.len() as int) =~= v@);
    string_of(v, 0, v.len())
}

/// A number text, if there is one, as a mathematical value.
pub open spec fn number_text_view(r: Option<NumberText>) -> Option<NumberTextView> {
    match r {
        Some(t) => Some(t@),
        None => None,
    }
}

fn parse_hex(v: &Vec<char>, negative: bool) -> (r: Option<NumberText>)
    ensures
        number_text_view(r) == hex_number(v@, negative),
{
    let mut p: usize = 0;
    while p < v.len() && v[p] != 'p' && v[p] != 'P'
        invariant
            p <= v@.len(),
            exponent_mark(v@, p as int) == exponent_mark(v@, 0),
        decreases v.len() - p,
    {
        p = p + 1;
    }
    if p >= v.len() {
        return None;
    }
    let m: Vec<char> = part(v, 0, p);
    assert(m@ =~= v@.take(p as int));
    let mut q: usize = 0;
    while q < m.len() && m[q] != '.'
        invariant
            q <= m@.len(),
            point_mark(m@, q as int) == point_mark(m@, 0),
        decreases m.len() - q,
    {
        q = q + 1;
    }
    let whole: Vec<char> = part(&m, 0, q);
    assert(whole@ =~= m@.take(q as int));
    let fraction: Vec<char> = if q < m.len() {
        let f: Vec<char> = part(&m, q + 1, m.len());
        assert(f@ =~= m@.skip(q + 1));
        f
    } else {
        Vec::new()
    };
    let tail: Vec<char> = part(v, p + 1, v.len());
    assert(tail@ =~= v@.skip(p + 1));
    let exp: i64 = match parse_long(whole_string(&tail).as_str(), 10) {
        Some(e) => e,
        None => {
            return None;
        },
    };
    if exp < i32::MIN as i64 || exp > i32::MAX as i64 || (whole.len() == 0 && fraction.len() == 0)
        || !hex_digits(&whole) || !hex_digits(&fraction) {
        return None;
    }
    Some(
        NumberText::Hex {
            negative,
            whole: whole_string(&whole),
            fraction: whole_string(&fraction),
            exp: exp as i32,
        },
    )
}

/// The number that `s` writes by the rules of `java.lang.Double.parseDouble`,
/// taken apart; `None` when it writes none.
pub fn parse_number(s: &str) -> (r: Option<NumberText>)
    ensures
        number_text_view(r) == number_of(s@),
{
    let core: Vec<char> = trim_ascii(&chars_of_str(s));
    let negative: bool = core.len() > 0 && core[0] == '-';
    let unsigned: Vec<char> = if core.len() > 0 && (core[0] == '-' || core[0] == '+') {
        let b: Vec<char> = part(&core, 1, core.len());
        assert(b@ =~= core@.skip(1));
        b
    } else {
        core
    };
    let word: String = whole_string(&unsigned);
    if same(word.as_str(), "Infinity") {
        return Some(NumberText::Infinity { negative });
    }
    if same(word.as_str(), "NaN") {
        return Some(NumberText::NotANumber);
    }
    let n: usize = unsigned.len();
    let body: Vec<char> = if n > 1 && (unsigned[n - 1] == 'd' || unsigned[n - 1] == 'D'
        || unsigned[n - 1] == 'f' || unsigned[n - 1] == 'F') {
        let c: Vec<char> = part(&unsigned, 0, n - 1);
        assert(c@ =~= unsigned@.drop_last());
        c
    } else {
        unsigned
    };
    if body.len() >= 2 && body[0] == '0' && (body[1] == 'x' || body[1] == 'X') {
        let hex: Vec<char> = part(&body, 2, body.len());
        assert(hex@ =~= body@.skip(2));
        return parse_hex(&hex, negative);
    }
    if decimal_number(&body) {
        Some(NumberText::Decimal { negative, body: whole_string(&body) })
    } else {
        None
    }
}

/// The fault of a text that writes no floating-point number.
pub fn number_failure(s: &str) -> (m: String)
    ensures
        m@ == number_fault(s@),
{
    if trim_ascii(&chars_of_str(s)).len() == 0 {
        "java.lang.NumberFormatException: empty String".to_owned()
    } else {
        concat3("java.lang.NumberFormatException: For input string: \"", s, "\"")
    }
}

} // verus!
