//! How the literals of a source text are read: numbers in every notation, and
//! characters.
use crate::token::Tok;
use vstd::prelude::*;

verus! {

use crate::lexer::{comment_end, tokens_from, trivia_end};
use crate::lexer::{
    digit_value, digits_end, digits_number, is_digit, is_ident_char, plain_digits_end, radix_end,
    string_rest, token_at, without_seps,
};
use crate::token::{StrPartView, TokView};

/// The token `t`, which ends at `q`.
pub open spec fn reads(s: Seq<char>, t: TokView, q: nat) -> bool {
    token_at(s, 0) == Ok::<(TokView, int), Seq<char>>((t, q as int))
}

// ── Digits ──────────────────────────────────────────────────────────────────

proof fn lemma_radix_end(s: Seq<char>, p: int, e: int, base: int)
    requires
        0 <= p <= e <= s.len(),
        forall|i: int| p <= i < e ==> digit_value(#[trigger] s[i]) < base || s[i] == '_',
        e < s.len() ==> digit_value(s[e]) >= base && s[e] != '_',
    ensures
        radix_end(s, p, base) == e,
    decreases e - p,
{
    if p < e {
        lemma_radix_end(s, p + 1, e, base);
    }
}

proof fn lemma_digits_end(s: Seq<char>, p: int, e: int)
    requires
        0 <= p <= e <= s.len(),
        forall|i: int| p <= i < e ==> is_digit(#[trigger] s[i]) || s[i] == '_',
        e < s.len() ==> !is_digit(s[e]) && s[e] != '_',
    ensures
        digits_end(s, p) == e,
    decreases e - p,
{
    if p < e {
        lemma_digits_end(s, p + 1, e);
    }
}

proof fn lemma_plain_digits_end(s: Seq<char>, p: int, e: int)
    requires
        0 <= p <= e <= s.len(),
        forall|i: int| p <= i < e ==> is_digit(#[trigger] s[i]),
        e < s.len() ==> !is_digit(s[e]),
    ensures
        plain_digits_end(s, p) == e,
    decreases e - p,
{
    if p < e {
        lemma_plain_digits_end(s, p + 1, e);
    }
}

proof fn lemma_seps(a: Seq<char>, b: Seq<char>)
    ensures
        without_seps(a + b) == without_seps(a) + without_seps(b),
    decreases b.len(),
{
    if b.len() == 0 {
        assert(a + b =~= a);
        assert(without_seps(a) + without_seps(b) =~= without_seps(a));
    } else {
        lemma_seps(a, b.drop_last());
        assert((a + b).drop_last() =~= a + b.drop_last());
        assert((a + b).last() == b.last());
        assert(without_seps(a) + without_seps(b) =~= if b.last() == '_' {
            without_seps(a) + without_seps(b.drop_last())
        } else {
            (without_seps(a) + without_seps(b.drop_last())).push(b.last())
        });
    }
}

proof fn lemma_no_seps(s: Seq<char>)
    requires
        forall|i: int| 0 <= i < s.len() ==> #[trigger] s[i] != '_',
    ensures
        without_seps(s) == s,
    decreases s.len(),
{
    if s.len() > 0 {
        assert(s[s.len() - 1] != '_');
        assert forall|i: int| 0 <= i < s.drop_last().len() implies #[trigger] s.drop_last()[i]
            != '_' by {
            assert(s.drop_last()[i] == s[i]);
        }
        lemma_no_seps(s.drop_last());
        assert(s.drop_last().push(s.last()) =~= s);
    }
}

// ── Whole numbers ───────────────────────────────────────────────────────────

/// `0x` writes a number in base sixteen and `0b` one in base two: the token is the
/// number of its digits, with or without the `L` of a long number.
pub proof fn law_based_numbers(x: char, base: int, w: Seq<char>, rest: Seq<char>)
    requires
        ((x == 'x' || x == 'X') && base == 16) || ((x == 'b' || x == 'B') && base == 2),
        w.len() > 0,
        forall|i: int| 0 <= i < w.len() ==> digit_value(#[trigger] w[i]) < base,
        digits_number(w, base) <= i64::MAX,
        rest.len() > 0 ==> !is_ident_char(rest[0]),
    ensures
        ({
            let n = TokView::Plain(Tok::Int(digits_number(w, base) as i64));
            &&& reads(seq!['0', x] + w + rest, n, w.len() + 2)
            &&& reads(seq!['0', x] + w + seq!['L'] + rest, n, w.len() + 3)
        }),
{
    let s = seq!['0', x] + w + rest;
    let t = seq!['0', x] + w + seq!['L'] + rest;
    let e = w.len() + 2int;
    assert(s[2] == w[0] && t[2] == w[0]);
    assert forall|i: int| 2 <= i < e implies digit_value(#[trigger] s[i]) < base by {
        assert(s[i] == w[i - 2]);
    }
    assert forall|i: int| 2 <= i < e implies digit_value(#[trigger] t[i]) < base by {
        assert(t[i] == w[i - 2]);
    }
    if rest.len() > 0 {
        assert(s[e] == rest[0]);
    }
    lemma_radix_end(s, 2, e, base);
    assert(t[e] == 'L');
    lemma_radix_end(t, 2, e, base);
    assert(s.subrange(2, e) =~= w);
    assert(t.subrange(2, e) =~= w);
    assert forall|i: int| 0 <= i < w.len() implies #[trigger] w[i] != '_' by {
        assert(digit_value(w[i]) < base);
    }
    lemma_no_seps(w);
}

/// The digits of a number may be set apart by `_`, which stand for nothing.
pub proof fn law_separators(a: Seq<char>, b: Seq<char>, n: i64)
    requires
        a.len() > 0 && b.len() > 0,
        forall|i: int| 0 <= i < a.len() ==> is_digit(#[trigger] a[i]),
        forall|i: int| 0 <= i < b.len() ==> is_digit(#[trigger] b[i]),
        reads(a + b, TokView::Plain(Tok::Int(n)), a.len() + b.len()),
    ensures
        reads(a + seq!['_'] + b, TokView::Plain(Tok::Int(n)), a.len() + b.len() + 1),
{
    let s = a + b;
    let t = a + seq!['_'] + b;
    assert forall|i: int| 0 <= i < s.len() implies is_digit(#[trigger] s[i]) by {
        if i < a.len() {
            assert(s[i] == a[i]);
        } else {
            assert(s[i] == b[i - a.len()]);
        }
    }
    assert forall|i: int| 0 <= i < t.len() implies is_digit(#[trigger] t[i]) || t[i] == '_' by {
        if i < a.len() {
            assert(t[i] == a[i]);
        } else if i > a.len() {
            assert(t[i] == b[i - a.len() - 1]);
        }
    }
    lemma_digits_end(s, 0, s.len() as int);
    lemma_digits_end(t, 0, t.len() as int);
    assert(s.subrange(0, s.len() as int) =~= s);
    assert(t.subrange(0, t.len() as int) =~= t);
    assert forall|i: int| 0 <= i < s.len() implies #[trigger] s[i] != '_' by {
        assert(is_digit(s[i]));
    }
    lemma_no_seps(s);
    lemma_seps(a + seq!['_'], b);
    lemma_seps(a, seq!['_']);
    lemma_seps(a, b);
    assert(seq!['_'].drop_last() =~= Seq::<char>::empty());
    assert(without_seps(Seq::<char>::empty()) =~= Seq::<char>::empty());
    assert(without_seps(seq!['_']) =~= Seq::<char>::empty());
    assert(without_seps(a) + Seq::<char>::empty() =~= without_seps(a));
    assert(is_digit(s[0]) && is_digit(t[0]) && is_digit(s[1]));
    assert(t[1] == '_' || is_digit(t[1]));
}

/// An `L` behind a number marks it as long and leaves its value.
pub proof fn law_long_numbers(w: Seq<char>, rest: Seq<char>)
    requires
        w.len() > 0,
        forall|i: int| 0 <= i < w.len() ==> is_digit(#[trigger] w[i]),
        rest.len() > 0 ==> !is_ident_char(rest[0]) && rest[0] != '.',
        digits_number(w, 10) <= i64::MAX,
    ensures
        reads(
            w + rest,
            TokView::Plain(Tok::Int(digits_number(w, 10) as i64)),
            w.len(),
        ),
        reads(
            w + seq!['L'] + rest,
            TokView::Plain(Tok::Int(digits_number(w, 10) as i64)),
            w.len() + 1,
        ),
{
    let s = w + rest;
    let t = w + seq!['L'] + rest;
    let e = w.len() as int;
    assert forall|i: int| 0 <= i < e implies is_digit(#[trigger] s[i]) by {
        assert(s[i] == w[i]);
    }
    assert forall|i: int| 0 <= i < e implies is_digit(#[trigger] t[i]) by {
        assert(t[i] == w[i]);
    }
    if rest.len() > 0 {
        assert(s[e] == rest[0]);
    }
    assert(t[e] == 'L');
    lemma_digits_end(s, 0, e);
    lemma_digits_end(t, 0, e);
    assert(s.subrange(0, e) =~= w);
    assert(t.subrange(0, e) =~= w);
    lemma_digit_values(w);
    lemma_no_seps(w);
    assert(is_digit(s[0]) && is_digit(t[0]));
    if e > 1 {
        assert(is_digit(s[1]) && is_digit(t[1]));
    }
}

proof fn lemma_digit_values(w: Seq<char>)
    requires
        forall|i: int| 0 <= i < w.len() ==> is_digit(#[trigger] w[i]),
    ensures
        forall|i: int| 0 <= i < w.len() ==> #[trigger] w[i] != '_',
        crate::lexer::all_digits(w, 10),
{
    assert forall|i: int| 0 <= i < w.len() implies #[trigger] w[i] != '_' by {
        assert(is_digit(w[i]));
    }
    assert forall|i: int| 0 <= i < w.len() implies digit_value(#[trigger] w[i]) < 10 by {
        assert(is_digit(w[i]));
    }
}

// ── Doubles ─────────────────────────────────────────────────────────────────

/// A number with a point and digits behind it is a double, as it is written; so is
/// a number with an `f` behind it, which does not belong to its digits.
pub proof fn law_doubles(w: Seq<char>, f: Seq<char>, rest: Seq<char>)
    requires
        w.len() > 0 && f.len() > 0,
        forall|i: int| 0 <= i < w.len() ==> is_digit(#[trigger] w[i]),
        forall|i: int| 0 <= i < f.len() ==> is_digit(#[trigger] f[i]),
        rest.len() > 0 ==> !is_ident_char(rest[0]),
    ensures
        reads(
            w + seq!['.'] + f + rest,
            TokView::Float(w + seq!['.'] + f),
            w.len() + f.len() + 1,
        ),
        reads(w + seq!['f'] + rest, TokView::Float(w), w.len() + 1),
{
    let k = w.len() as int;
    let e = k + 1 + f.len();
    let s = w + seq!['.'] + f + rest;
    let t = w + seq!['f'] + rest;
    assert forall|i: int| 0 <= i < k implies is_digit(#[trigger] s[i]) by {
        assert(s[i] == w[i]);
    }
    assert forall|i: int| 0 <= i < k implies is_digit(#[trigger] t[i]) by {
        assert(t[i] == w[i]);
    }
    assert(s[k] == '.' && t[k] == 'f');
    lemma_digits_end(s, 0, k);
    lemma_digits_end(t, 0, k);
    assert forall|i: int| k + 1 <= i < e implies is_digit(#[trigger] s[i]) by {
        assert(s[i] == f[i - k - 1]);
    }
    if rest.len() > 0 {
        assert(s[e] == rest[0]);
    }
    lemma_digits_end(s, k + 1, e);
    assert(is_digit(s[k + 1]));
    assert(s.subrange(0, e) =~= w + seq!['.'] + f);
    assert(t.subrange(0, k) =~= w);
    lemma_digit_values(w);
    lemma_no_seps(w);
    let raw = w + seq!['.'] + f;
    lemma_digit_values(f);
    assert forall|i: int| 0 <= i < raw.len() implies #[trigger] raw[i] != '_' by {
        if i < k {
            assert(raw[i] == w[i]);
        } else if i > k {
            assert(raw[i] == f[i - k - 1]);
        }
    }
    lemma_no_seps(raw);
    assert(is_digit(s[0]) && is_digit(t[0]));
    if k > 1 {
        assert(is_digit(s[1]) && is_digit(t[1]));
    }
}

/// A number with an exponent is a double: an `e`, a sign or none, and digits.
pub proof fn law_exponents(w: Seq<char>, x: char, sign: Seq<char>, f: Seq<char>, rest: Seq<char>)
    requires
        w.len() > 0 && f.len() > 0,
        x == 'e' || x == 'E',
        sign == seq!['-'] || sign == seq!['+'] || sign == Seq::<char>::empty(),
        forall|i: int| 0 <= i < w.len() ==> is_digit(#[trigger] w[i]),
        forall|i: int| 0 <= i < f.len() ==> is_digit(#[trigger] f[i]),
        rest.len() > 0 ==> !is_ident_char(rest[0]),
    ensures
        reads(
            w + seq![x] + sign + f + rest,
            TokView::Float(w + seq![x] + sign + f),
            w.len() + 1 + sign.len() + f.len(),
        ),
{
    let k = w.len() as int;
    let d = k + 1 + sign.len();
    let e = d + f.len();
    let s = w + seq![x] + sign + f + rest;
    assert forall|i: int| 0 <= i < k implies is_digit(#[trigger] s[i]) by {
        assert(s[i] == w[i]);
    }
    assert(s[k] == x);
    lemma_digits_end(s, 0, k);
    assert forall|i: int| d <= i < e implies is_digit(#[trigger] s[i]) by {
        assert(s[i] == f[i - d]);
    }
    if rest.len() > 0 {
        assert(s[e] == rest[0]);
    }
    lemma_plain_digits_end(s, d, e);
    if sign.len() == 0 {
        assert(is_digit(s[k + 1]));
    } else {
        assert(s[k + 1] == sign[0]);
    }
    let raw = w + seq![x] + sign + f;
    assert(s.subrange(0, e) =~= raw);
    lemma_digit_values(w);
    lemma_digit_values(f);
    assert forall|i: int| 0 <= i < raw.len() implies #[trigger] raw[i] != '_' by {
        if i < k {
            assert(raw[i] == w[i]);
        } else if k < i < d {
            assert(raw[i] == sign[0]);
        } else if i >= d {
            assert(raw[i] == f[i - d]);
        }
    }
    lemma_no_seps(raw);
    assert(is_digit(s[0]));
    if k > 1 {
        assert(is_digit(s[1]));
    }
}

// ── Characters ──────────────────────────────────────────────────────────────

/// What the character behind a `\` stands for in a character literal.
pub proof fn law_escaped_characters(c: char)
    requires
        c != 'u',
        (c as int) < 0x80,
    ensures
        ({
            let s = seq!['\'', '\\', c, '\''];
            let code = if c == 'n' {
                10
            } else if c == 't' {
                9
            } else if c == 'r' {
                13
            } else if c == 'b' {
                8
            } else if c == '0' {
                0
            } else {
                c as int
            };
            reads(s, TokView::Plain(Tok::Char(code as i64)), 4)
        }),
{
}

/// `\u` and four hexadecimal digits are the character with that code; half of a
/// surrogate pair is none.
pub proof fn law_unicode_escapes(d: Seq<char>)
    requires
        d.len() == 4,
        forall|i: int| 0 <= i < 4 ==> digit_value(#[trigger] d[i]) < 16,
    ensures
        ({
            let n = digits_number(d, 16);
            let s = seq!['\'', '\\', 'u'] + d + seq!['\''];
            if 0xd800 <= n <= 0xdfff {
                token_at(s, 0) is Err
            } else {
                reads(s, TokView::Plain(Tok::Char(n as i64)), 8)
            }
        }),
{
    reveal_with_fuel(digits_number, 5);
    let s = seq!['\'', '\\', 'u'] + d + seq!['\''];
    assert(s[3] == d[0] && s[4] == d[1] && s[5] == d[2] && s[6] == d[3] && s[7] == '\'');
    let a = d.drop_last();
    let b = a.drop_last();
    let c = b.drop_last();
    assert(c.drop_last().len() == 0);
    assert(d.last() == d[3] && a.last() == d[2] && b.last() == d[1] && c.last() == d[0]);
    assert(digits_number(c, 16) == digit_value(d[0]));
    assert(digits_number(b, 16) == digit_value(d[0]) * 16 + digit_value(d[1]));
}

// ── Comments in comments ────────────────────────────────────────────────────

/// Whether a text holds neither of the characters that comments begin and end with.
pub open spec fn is_remark(s: Seq<char>) -> bool {
    forall|i: int| 0 <= i < s.len() ==> #[trigger] s[i] != '/' && s[i] != '*'
}

proof fn lemma_remark(s: Seq<char>, p: int, q: int, depth: int)
    requires
        0 <= p <= q <= s.len(),
        is_remark(s.subrange(p, q)),
        depth > 0,
    ensures
        comment_end(s, p, depth) == comment_end(s, q, depth),
    decreases q - p,
{
    if p < q {
        let t = s.subrange(p, q);
        let u = s.subrange(p + 1, q);
        assert(t[0] == s[p]);
        assert forall|i: int| 0 <= i < u.len() implies #[trigger] u[i] != '/' && u[i] != '*' by {
            assert(u[i] == t[i + 1]);
        }
        lemma_remark(s, p + 1, q, depth);
    }
}

/// A block comment may hold another: it ends where its own end stands, not that of
/// the one within.
pub proof fn law_comments_in_comments(a: Seq<char>, b: Seq<char>, c: Seq<char>, rest: Seq<char>)
    requires
        is_remark(a),
        is_remark(b),
        is_remark(c),
    ensures
        ({
            let s = seq!['/', '*'] + a + seq!['/', '*'] + b + seq!['*', '/'] + c + seq!['*', '/']
                + rest;
            tokens_from(s, 0) == tokens_from(s, (a.len() + b.len() + c.len() + 8) as int)
        }),
{
    let s = seq!['/', '*'] + a + seq!['/', '*'] + b + seq!['*', '/'] + c + seq!['*', '/'] + rest;
    let i = 2 + a.len() as int;
    let j = i + 2 + b.len();
    let k = j + 2 + c.len();
    assert(s[0] == '/' && s[1] == '*');
    assert(s[i] == '/' && s[i + 1] == '*');
    assert(s[j] == '*' && s[j + 1] == '/');
    assert(s[k] == '*' && s[k + 1] == '/');
    assert(s.subrange(2, i) =~= a);
    assert(s.subrange(i + 2, j) =~= b);
    assert(s.subrange(j + 2, k) =~= c);
    lemma_remark(s, 2, i, 1);
    lemma_remark(s, i + 2, j, 2);
    lemma_remark(s, j + 2, k, 1);
    assert(comment_end(s, k + 2, 0) == Some(k + 2));
    assert(comment_end(s, k, 1) == Some(k + 2));
    assert(comment_end(s, j, 2) == comment_end(s, j + 2, 1));
    assert(comment_end(s, i, 1) == comment_end(s, i + 2, 2));
    assert(trivia_end(s, 0) == trivia_end(s, k + 2));
}

// ── What has no end ─────────────────────────────────────────────────────────

proof fn lemma_open_string(s: Seq<char>, p: int, parts: Seq<StrPartView>, cur: Seq<char>)
    requires
        0 <= p,
        forall|i: int| p <= i < s.len() ==> #[trigger] s[i] != '"' && s[i] != '\\' && s[i] != '$',
    ensures
        string_rest(s, p, parts, cur) is Err,
    decreases s.len() - p,
{
    if p < s.len() {
        lemma_open_string(s, p + 1, parts, cur.push(s[p]));
    }
}

/// A string literal without its closing quote is an error.
pub proof fn law_open_strings(t: Seq<char>)
    requires
        forall|i: int| 0 <= i < t.len() ==> #[trigger] t[i] != '"' && t[i] != '\\' && t[i] != '$',
    ensures
        token_at(seq!['"'] + t, 0) is Err,
{
    let s = seq!['"'] + t;
    assert forall|i: int| 1 <= i < s.len() implies #[trigger] s[i] != '"' && s[i] != '\\' && s[i]
        != '$' by {
        assert(s[i] == t[i - 1]);
    }
    lemma_open_string(s, 1, Seq::empty(), Seq::empty());
}

/// A character literal that holds more than one character, or has no closing quote,
/// is an error.
pub proof fn law_open_characters(c: char, t: Seq<char>)
    requires
        c != '\\',
        t.len() > 0 ==> t[0] != '\'',
    ensures
        token_at(seq!['\'', c] + t, 0) is Err,
{
    let s = seq!['\'', c] + t;
    if t.len() > 0 {
        assert(s[2] == t[0]);
    }
}

} // verus!
