//! Strings as the UTF-16 code units that a JVM string is made of.
use crate::text::{char_from_code, chars_of_str, push_char};
use vstd::prelude::*;

verus! {

use crate::text::lemma_char_code;

/// The code units of one character.
pub open spec fn char_units(c: char) -> Seq<u16> {
    let code = c as int;
    if code < 0x10000 {
        seq![code as u16]
    } else {
        seq![(0xd800 + (code - 0x10000) / 0x400) as u16, (0xdc00 + (code - 0x10000) % 0x400) as u16]
    }
}

/// The code units of a text.
pub open spec fn units_of(s: Seq<char>) -> Seq<u16>
    decreases s.len(),
{
    if s.len() == 0 {
        Seq::empty()
    } else {
        units_of(s.drop_last()) + char_units(s.last())
    }
}

pub open spec fn is_high(u: u16) -> bool {
    0xd800 <= u <= 0xdbff
}

pub open spec fn is_low(u: u16) -> bool {
    0xdc00 <= u <= 0xdfff
}

/// The character that a surrogate pair stands for.
pub open spec fn pair_char(hi: u16, lo: u16) -> char {
    (0x10000 + (hi - 0xd800) * 0x400 + (lo - 0xdc00)) as char
}

/// The text that `units` from position `p` on stand for. An unpaired surrogate
/// becomes `?`, the substitution the JVM's encoder makes.
pub open spec fn text_from(units: Seq<u16>, p: int) -> Seq<char>
    decreases units.len() - p,
{
    if p < 0 || p >= units.len() {
        Seq::empty()
    } else if is_high(units[p]) && p + 1 < units.len() && is_low(units[p + 1]) {
        seq![pair_char(units[p], units[p + 1])] + text_from(units, p + 2)
    } else if is_high(units[p]) || is_low(units[p]) {
        seq!['?'] + text_from(units, p + 1)
    } else {
        seq![units[p] as char] + text_from(units, p + 1)
    }
}

/// The text that `units` stand for.
pub open spec fn text_of_units(units: Seq<u16>) -> Seq<char> {
    text_from(units, 0)
}

/// The UTF-16 length of a text.
pub open spec fn unit_len(s: Seq<char>) -> int {
    units_of(s).len() as int
}

/// The UTF-16 code units of `s`.
pub fn units(s: &str) -> (r: Vec<u16>)
    ensures
        r@ == units_of(s@),
{
    let v: Vec<char> = chars_of_str(s);
    let mut r: Vec<u16> = Vec::new();
    let mut i: usize = 0;
    while i < v.len()
        invariant
            i <= v@.len(),
            r@ == units_of(v@.take(i as int)),
        decreases v.len() - i,
    {
        assert(v@.take(i + 1).drop_last() =~= v@.take(i as int));
        let ghost before = r@;
        let code: u32 = v[i] as u32;
        proof {
            lemma_char_code(v@[i as int]);
        }
        if code < 0x10000 {
            r.push(code as u16);
        } else {
            let rest: u32 = code - 0x10000;
            r.push((0xd800 + rest / 0x400) as u16);
            r.push((0xdc00 + rest % 0x400) as u16);
        }
        assert(r@ =~= before + char_units(v@[i as int]));
        i = i + 1;
    }
    assert(v@.take(i as int) =~= v@);
    r
}

/// UTF-16 code units back to text, an unpaired surrogate becoming `?`.
pub fn utf16_to_string(units: &Vec<u16>) -> (s: String)
    ensures
        s@ == text_of_units(units@),
{
    let mut s: String = String::new();
    let mut p: usize = 0;
    assert(s@ + text_from(units@, 0) =~= text_from(units@, 0));
    while p < units.len()
        invariant
            p <= units@.len(),
            s@ + text_from(units@, p as int) == text_of_units(units@),
        decreases units.len() - p,
    {
        let u: u16 = units[p];
        let ghost before = s@;
        let high: bool = 0xd800 <= u && u <= 0xdbff;
        let low: bool = 0xdc00 <= u && u <= 0xdfff;
        if high && p + 1 < units.len() && 0xdc00 <= units[p + 1] && units[p + 1] <= 0xdfff {
            let lo: u16 = units[p + 1];
            let code: u32 = 0x10000 + (u as u32 - 0xd800) * 0x400 + (lo as u32 - 0xdc00);
            let c: char = match char_from_code(code) {
                Some(c) => c,
                None => '?',
            };
            push_char(&mut s, c);
            assert(before + (seq![c] + text_from(units@, p + 2)) =~= s@ + text_from(units@, p + 2));
            p = p + 2;
        } else if high || low {
            push_char(&mut s, '?');
            assert(before + (seq!['?'] + text_from(units@, p + 1)) =~= s@ + text_from(
                units@,
                p + 1,
            ));
            p = p + 1;
        } else {
            let c: char = match char_from_code(u as u32) {
                Some(c) => c,
                None => '?',
            };
            push_char(&mut s, c);
            assert(before + (seq![c] + text_from(units@, p + 1)) =~= s@ + text_from(units@, p + 1));
            p = p + 1;
        }
    }
    assert(text_from(units@, p as int) =~= Seq::empty());
    assert(s@ + Seq::<char>::empty() =~= s@);
    s
}

// ── Laws ────────────────────────────────────────────────────────────────────

proof fn lemma_units_front(s: Seq<char>)
    requires
        s.len() > 0,
    ensures
        units_of(s) == char_units(s[0]) + units_of(s.skip(1)),
    decreases s.len(),
{
    if s.len() == 1 {
        assert(s.drop_last() =~= Seq::empty());
        assert(s.skip(1) =~= Seq::empty());
        assert(units_of(s) =~= char_units(s[0]) + units_of(s.skip(1)));
    } else {
        lemma_units_front(s.drop_last());
        assert(s.drop_last().skip(1) =~= s.skip(1).drop_last());
        assert(units_of(s) =~= char_units(s[0]) + units_of(s.skip(1)));
    }
}

proof fn lemma_text_suffix(units: Seq<u16>, k: int, p: int)
    requires
        0 <= k,
        0 <= p,
        k + p <= units.len(),
    ensures
        text_from(units, k + p) == text_from(units.skip(k), p),
    decreases units.len() - p,
{
    if k + p < units.len() {
        assert(units.skip(k)[p] == units[k + p]);
        if p + 1 < units.skip(k).len() {
            assert(units.skip(k)[p + 1] == units[k + p + 1]);
        }
        if is_high(units[k + p]) && k + p + 1 < units.len() && is_low(units[k + p + 1]) {
            lemma_text_suffix(units, k, p + 2);
        } else {
            lemma_text_suffix(units, k, p + 1);
        }
    }
}

/// A text survives the way to UTF-16 and back.
pub proof fn law_utf16_round_trip(s: Seq<char>)
    ensures
        text_of_units(units_of(s)) == s,
    decreases s.len(),
{
    if s.len() > 0 {
        lemma_units_front(s);
        let u = units_of(s);
        let head = char_units(s[0]);
        let tail = s.skip(1);
        law_utf16_round_trip(tail);
        assert(u.skip(head.len() as int) =~= units_of(tail));
        lemma_text_suffix(u, head.len() as int, 0);
        let code = s[0] as int;
        lemma_char_code(s[0]);
        assert(u[0] == head[0]);
        if code >= 0x10000 {
            assert(u[1] == head[1]);
        }
        assert(text_from(u, 0) =~= seq![s[0]] + tail);
        assert(s =~= seq![s[0]] + tail);
    } else {
        assert(text_of_units(units_of(s)) =~= s);
    }
}

/// The code units of two texts in a row are the code units of the first and
/// those of the second.
pub proof fn law_units_concat(a: Seq<char>, b: Seq<char>)
    ensures
        units_of(a + b) == units_of(a) + units_of(b),
    decreases b.len(),
{
    if b.len() == 0 {
        assert(a + b =~= a);
        assert(units_of(a) + units_of(b) =~= units_of(a));
    } else {
        law_units_concat(a, b.drop_last());
        assert((a + b).drop_last() =~= a + b.drop_last());
        assert(units_of(a + b) =~= units_of(a) + units_of(b));
    }
}

} // verus!
