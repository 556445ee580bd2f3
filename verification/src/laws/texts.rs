//! What the members of a text answer.
use crate::value::Value;
use vstd::prelude::*;

verus! {

use crate::display::text_of;
use crate::host::HostView;
use crate::laws::names::lemma_names;
use crate::lexer::{digit_value, digits_number};
use crate::radix::is_digit_run;
use crate::reply::ReplyView;
use crate::search::{
    ends_with, find_from, lemma_find_bounds, lemma_joined_front, occurs_at, pieces, split_from,
    starts_with,
};
use crate::strings::{
    is_white,
    last_unit_index,
    repeated,
    text_member,
    trimmed,
    trimmed_end,
    trimmed_start,
    unit_difference,
};
use crate::text::lemma_char_code;
use crate::utf16::{char_units, law_units_concat, law_utf16_round_trip, unit_len, units_of};
use crate::value::{char_value, ObjView};

/// The member `name` of the text `s` answers `r`.
pub open spec fn gives(
    h: HostView,
    recv: Value,
    s: Seq<char>,
    name: Seq<char>,
    args: Seq<Value>,
    r: ReplyView,
) -> bool {
    text_member(h, recv, s, name, args) == Some(r)
}

/// The member answers `b`.
pub open spec fn answers(
    h: HostView,
    recv: Value,
    s: Seq<char>,
    name: Seq<char>,
    args: Seq<Value>,
    b: bool,
) -> bool {
    gives(h, recv, s, name, args, ReplyView::Value(Value::Bool(b)))
}

/// The member answers the integer `n`.
pub open spec fn counts(
    h: HostView,
    recv: Value,
    s: Seq<char>,
    name: Seq<char>,
    args: Seq<Value>,
    n: int,
) -> bool {
    gives(h, recv, s, name, args, ReplyView::Value(Value::Int(n as i64)))
}

/// The member answers the text `t`.
pub open spec fn writes(
    h: HostView,
    recv: Value,
    s: Seq<char>,
    name: Seq<char>,
    args: Seq<Value>,
    t: Seq<char>,
) -> bool {
    gives(h, recv, s, name, args, ReplyView::Text(t))
}

proof fn lemma_text_argument(h: HostView, b: usize)
    ensures
        text_of(h, Value::Str(b)) == h.text(b),
{
}

proof fn lemma_concat_at(a: Seq<char>, p: Seq<char>, b: Seq<char>)
    ensures
        occurs_at(a + p + b, p, a.len() as int),
{
    assert((a + p + b).subrange(a.len() as int, (a.len() + p.len()) as int) =~= p);
}

proof fn lemma_occurs_splits(s: Seq<char>, p: Seq<char>, k: int)
    requires
        occurs_at(s, p, k),
    ensures
        s == s.take(k) + p + s.skip(k + p.len()),
{
    assert forall|j: int| 0 <= j < p.len() implies p[j] == s[k + j] by {
        assert(s.subrange(k, k + p.len())[j] == s[k + j]);
    }
    assert(s =~= s.take(k) + p + s.skip(k + p.len()));
}

proof fn lemma_find_least(s: Seq<char>, p: Seq<char>, i: int, k: int)
    requires
        0 <= i <= k,
        occurs_at(s, p, k),
    ensures
        find_from(s, p, i) matches Some(j) && i <= j <= k && occurs_at(s, p, j),
    decreases k - i,
{
    if !occurs_at(s, p, i) {
        lemma_find_least(s, p, i + 1, k);
    }
}

// ── Length ──────────────────────────────────────────────────────────────────

/// The length of a text counts UTF-16 code units: one for a character of the basic
/// plane, two for any other, and for two texts in a row the lengths add up.
pub proof fn law_length_counts_code_units(h: HostView, recv: Value, a: Seq<char>, b: Seq<char>, c: char)
    ensures
        counts(h, recv, Seq::empty(), "length"@, Seq::empty(), 0),
        counts(
            h,
            recv,
            seq![c],
            "length"@,
            Seq::empty(),
            if c as int <= 0xffff {
                1
            } else {
                2
            },
        ),
        counts(h, recv, a, "length"@, Seq::empty(), unit_len(a)),
        unit_len(a + b) == unit_len(a) + unit_len(b),
{
    lemma_names();
    law_units_concat(a, b);
    let one = seq![c];
    assert(one.drop_last() =~= Seq::empty());
    reveal_with_fuel(units_of, 2);
    assert(units_of(one) =~= char_units(c));
}

/// A text is empty when it has no character, and blank when it has none but
/// whitespace.
pub proof fn law_empty_and_blank(h: HostView, recv: Value, s: Seq<char>, args: Seq<Value>)
    ensures
        answers(h, recv, s, "isEmpty"@, args, s == Seq::<char>::empty()),
        answers(h, recv, s, "isNotEmpty"@, args, s != Seq::<char>::empty()),
        answers(
            h,
            recv,
            s,
            "isBlank"@,
            args,
            forall|i: int| 0 <= i < s.len() ==> is_white(#[trigger] s[i]),
        ),
        answers(
            h,
            recv,
            s,
            "isNotBlank"@,
            args,
            !(forall|i: int| 0 <= i < s.len() ==> is_white(#[trigger] s[i])),
        ),
{
    lemma_names();
    assert(s.len() == 0 <==> s =~= Seq::<char>::empty());
    let (a, r, b) = lemma_trimmed(s, true, true);
    if trimmed(s, true, true).len() == 0 {
        assert forall|i: int| 0 <= i < s.len() implies is_white(#[trigger] s[i]) by {
            if i < a.len() {
                assert(s[i] == a[i]);
            } else {
                assert(s[i] == b[i - a.len()]);
            }
        }
    } else {
        assert(s[a.len() as int] == r[0]);
        assert(!is_white(s[a.len() as int]));
    }
}

// ── Occurrences ─────────────────────────────────────────────────────────────

/// A text contains another exactly when it is the other with something before and
/// behind it.
pub proof fn law_contains(h: HostView, recv: Value, s: Seq<char>, b: usize)
    ensures
        answers(
            h,
            recv,
            s,
            "contains"@,
            seq![Value::Str(b)],
            exists|x: Seq<char>, y: Seq<char>| s == #[trigger] (x + h.text(b) + y),
        ),
{
    lemma_names();
    lemma_text_argument(h, b);
    let p = h.text(b);
    lemma_find_bounds(s, p, 0);
    if let Some(k) = find_from(s, p, 0) {
        lemma_occurs_splits(s, p, k);
        assert(s == s.take(k) + p + s.skip(k + p.len()));
    }
    if exists|x: Seq<char>, y: Seq<char>| s == #[trigger] (x + p + y) {
        let (x, y) = choose|x: Seq<char>, y: Seq<char>| s == #[trigger] (x + p + y);
        lemma_concat_at(x, p, y);
        lemma_find_least(s, p, 0, x.len() as int);
    }
}

/// A text starts with another exactly when it is the other with something behind it.
pub proof fn law_starts_with(h: HostView, recv: Value, s: Seq<char>, b: usize)
    ensures
        answers(
            h,
            recv,
            s,
            "startsWith"@,
            seq![Value::Str(b)],
            exists|t: Seq<char>| s == #[trigger] (h.text(b) + t),
        ),
{
    lemma_names();
    lemma_text_argument(h, b);
    law_utf16_round_trip(s);
    let p = h.text(b);
    let u = units_of(s);
    assert(u.subrange(0, u.len() as int) =~= u);
    if starts_with(s, p) {
        lemma_occurs_splits(s, p, 0);
        assert(s.take(0) + p =~= p);
        assert(s == p + s.skip(p.len() as int));
    }
    if exists|t: Seq<char>| s == #[trigger] (p + t) {
        let t = choose|t: Seq<char>| s == #[trigger] (p + t);
        lemma_concat_at(Seq::empty(), p, t);
        assert(Seq::<char>::empty() + p + t =~= s);
    }
}

/// A text ends with another exactly when it is the other with something before it.
pub proof fn law_ends_with(h: HostView, recv: Value, s: Seq<char>, b: usize)
    ensures
        answers(
            h,
            recv,
            s,
            "endsWith"@,
            seq![Value::Str(b)],
            exists|t: Seq<char>| s == #[trigger] (t + h.text(b)),
        ),
{
    lemma_names();
    lemma_text_argument(h, b);
    let p = h.text(b);
    if ends_with(s, p) {
        let k = s.len() - p.len();
        lemma_occurs_splits(s, p, k);
        assert(s.take(k) + p + s.skip(k + p.len()) =~= s.take(k) + p);
        assert(s == s.take(k) + p);
    }
    if exists|t: Seq<char>| s == #[trigger] (t + p) {
        let t = choose|t: Seq<char>| s == #[trigger] (t + p);
        lemma_concat_at(t, p, Seq::empty());
        assert(t + p + Seq::<char>::empty() =~= s);
    }
}

/// `indexOf` answers how many code units stand before the first occurrence, and -1
/// where there is none.
pub proof fn law_index_of(h: HostView, recv: Value, s: Seq<char>, b: usize, x: Seq<char>, y: Seq<char>)
    requires
        s == x + h.text(b) + y,
        forall|v: Seq<char>, w: Seq<char>|
            s == #[trigger] (v + h.text(b) + w) ==> x.len() <= v.len(),
    ensures
        counts(h, recv, s, "indexOf"@, seq![Value::Str(b)], unit_len(x)),
{
    lemma_names();
    lemma_text_argument(h, b);
    let p = h.text(b);
    law_utf16_round_trip(s);
    let u = units_of(s);
    assert(u.subrange(0, u.len() as int) =~= u);
    lemma_concat_at(x, p, y);
    lemma_find_least(s, p, 0, x.len() as int);
    let k = find_from(s, p, 0)->0;
    lemma_occurs_splits(s, p, k);
    assert(s == s.take(k) + p + s.skip(k + p.len()));
    assert(s.take(k) =~= x);
}

/// A start behind the beginning leaves out what stands before it: `startsWith` asks
/// what stands behind, and `indexOf` searches there and counts what was left out.
pub proof fn law_starts_behind_the_beginning(
    h: HostView,
    recv: Value,
    a: Seq<char>,
    t: Seq<char>,
    b: usize,
    n: i64,
    k: i64,
)
    requires
        n == unit_len(a),
        counts(h, recv, t, "indexOf"@, seq![Value::Str(b)], k as int),
        -1 <= k,
        n + k <= i64::MAX,
        -1 <= crate::strings::unit_index_of(t, h.text(b)) <= i64::MAX,
    ensures
        counts(
            h,
            recv,
            a + t,
            "indexOf"@,
            seq![Value::Str(b), Value::Int(n)],
            if k == -1 {
                -1
            } else {
                n + k
            },
        ),
        text_member(h, recv, a + t, "startsWith"@, seq![Value::Str(b), Value::Int(n)])
            == text_member(h, recv, t, "startsWith"@, seq![Value::Str(b)]),
{
    lemma_names();
    lemma_text_argument(h, b);
    law_units_concat(a, t);
    law_utf16_round_trip(t);
    let u = units_of(t);
    let all = units_of(a + t);
    assert(u.subrange(0, u.len() as int) =~= u);
    assert(all.subrange(n as int, all.len() as int) =~= u);
    assert(crate::strings::index_from(t, h.text(b), 0) == crate::strings::unit_index_of(
        t,
        h.text(b),
    ));
}

/// `indexOf` answers -1 for what a text does not contain.
pub proof fn law_index_of_nothing(h: HostView, recv: Value, s: Seq<char>, b: usize)
    requires
        forall|v: Seq<char>, w: Seq<char>| s != #[trigger] (v + h.text(b) + w),
    ensures
        counts(h, recv, s, "indexOf"@, seq![Value::Str(b)], -1),
{
    lemma_names();
    lemma_text_argument(h, b);
    let p = h.text(b);
    law_utf16_round_trip(s);
    let u = units_of(s);
    assert(u.subrange(0, u.len() as int) =~= u);
    lemma_find_bounds(s, p, 0);
    if let Some(k) = find_from(s, p, 0) {
        lemma_occurs_splits(s, p, k);
        assert(s == s.take(k) + p + s.skip(k + p.len()));
    }
}

/// `lastIndexOf` answers a position at which the other text stands, and never one before
/// another such; -1 comes only where there is none.
pub proof fn law_last_index_of(h: HostView, recv: Value, s: Seq<char>, b: usize, x: Seq<char>, y: Seq<char>)
    requires
        s == x + h.text(b) + y,
        h.text(b).len() > 0,
        unit_len(s) <= i64::MAX,
    ensures
        text_member(h, recv, s, "lastIndexOf"@, seq![Value::Str(b)]) matches Some(
            ReplyView::Value(Value::Int(k)),
        ) && unit_len(x) <= k && k + unit_len(h.text(b)) <= unit_len(s) && units_of(s).subrange(
            k as int,
            k + unit_len(h.text(b)),
        ) == units_of(h.text(b)),
{
    lemma_names();
    lemma_text_argument(h, b);
    let p = h.text(b);
    law_units_concat(x + p, y);
    law_units_concat(x, p);
    let u = units_of(s);
    let q = units_of(p);
    let at = units_of(x).len() as int;
    assert(u.subrange(at, at + q.len()) =~= q);
    law_units_concat(p.drop_last(), seq![p.last()]);
    assert(p =~= p.drop_last() + seq![p.last()]);
    assert(q.len() > 0);
    lemma_last_unit_index(u, q, u.len() - q.len(), at);
}

proof fn lemma_last_unit_index(u: Seq<u16>, p: Seq<u16>, from: int, at: int)
    requires
        0 <= at <= from,
        from + p.len() <= u.len(),
        u.subrange(at, at + p.len()) == p,
    ensures
        ({
            let k = last_unit_index(u, p, from);
            at <= k <= from && u.subrange(k, k + p.len()) == p
        }),
    decreases from - at,
{
    if !(u.subrange(from, from + p.len()) == p) {
        lemma_last_unit_index(u, p, from - 1, at);
    }
}

// ── Comparison ──────────────────────────────────────────────────────────────

/// `compareTo` answers the difference of the first code units that differ, or of the
/// lengths where one text goes on behind the other: negative for what comes first in a
/// dictionary.
pub proof fn law_compare_to(
    h: HostView,
    recv: Value,
    b: usize,
    common: Seq<char>,
    x: Seq<char>,
    y: Seq<char>,
)
    requires
        h.text(b) == common + y,
        x.len() > 0 && y.len() > 0 ==> x[0] != y[0] && x[0] as int <= 0xffff && y[0] as int
            <= 0xffff,
    ensures
        counts(
            h,
            recv,
            common + x,
            "compareTo"@,
            seq![Value::Str(b)],
            if x.len() > 0 && y.len() > 0 {
                x[0] as int - y[0] as int
            } else {
                unit_len(x) - unit_len(y)
            },
        ),
{
    lemma_names();
    lemma_text_argument(h, b);
    law_units_concat(common, x);
    law_units_concat(common, y);
    lemma_common_units(units_of(common), units_of(x), units_of(y));
    lemma_first_unit(x);
    lemma_first_unit(y);
}

proof fn lemma_first_unit(x: Seq<char>)
    ensures
        x.len() == 0 ==> units_of(x).len() == 0,
        x.len() > 0 ==> units_of(x).len() > 0,
        x.len() > 0 && x[0] as int <= 0xffff ==> units_of(x)[0] == x[0] as int,
{
    if x.len() > 0 {
        let one = seq![x[0]];
        law_units_concat(one, x.skip(1));
        assert(x =~= one + x.skip(1));
        assert(one.drop_last() =~= Seq::empty());
        reveal_with_fuel(units_of, 2);
        assert(units_of(one) =~= char_units(x[0]));
        lemma_char_code(x[0]);
        assert(units_of(x)[0] == char_units(x[0])[0]);
    }
}

proof fn lemma_common_units(c: Seq<u16>, x: Seq<u16>, y: Seq<u16>)
    ensures
        unit_difference(c + x, c + y) == unit_difference(x, y),
    decreases c.len(),
{
    if c.len() == 0 {
        assert(c + x =~= x);
        assert(c + y =~= y);
    } else {
        assert((c + x).skip(1) =~= c.skip(1) + x);
        assert((c + y).skip(1) =~= c.skip(1) + y);
        lemma_common_units(c.skip(1), x, y);
    }
}

// ── Characters ──────────────────────────────────────────────────────────────

/// The character at an index is the one that so many code units stand before; the first
/// and the last are those at the ends. A text without characters has neither.
pub proof fn law_characters(h: HostView, recv: Value, x: Seq<char>, c: char, y: Seq<char>, i: i64)
    requires
        c as int <= 0xffff,
        i == unit_len(x),
    ensures
        gives(
            h,
            recv,
            x + seq![c] + y,
            "get"@,
            seq![Value::Int(i)],
            ReplyView::Value(char_value(c as int)),
        ),
        x.len() == 0 ==> gives(
            h,
            recv,
            x + seq![c] + y,
            "first"@,
            Seq::empty(),
            ReplyView::Value(char_value(c as int)),
        ),
        y.len() == 0 ==> gives(
            h,
            recv,
            x + seq![c] + y,
            "last"@,
            Seq::empty(),
            ReplyView::Value(char_value(c as int)),
        ),
        text_member(h, recv, Seq::empty(), "first"@, Seq::empty()) matches Some(ReplyView::Fault(_)),
        text_member(h, recv, Seq::empty(), "last"@, Seq::empty()) matches Some(ReplyView::Fault(_)),
{
    lemma_names();
    law_units_concat(x + seq![c], y);
    law_units_concat(x, seq![c]);
    let one = seq![c];
    assert(one.drop_last() =~= Seq::empty());
    reveal_with_fuel(units_of, 2);
    assert(units_of(one) =~= seq![c as int as u16]);
    let u = units_of(x + seq![c] + y);
    assert(u[i as int] == c as int as u16);
    assert(units_of(Seq::<char>::empty()).len() == 0);
}

/// An index outside a text raises.
pub proof fn law_characters_outside(h: HostView, recv: Value, s: Seq<char>, i: i64)
    requires
        i < 0 || i >= unit_len(s),
    ensures
        text_member(h, recv, s, "get"@, seq![Value::Int(i)]) matches Some(ReplyView::Fault(_)),
{
    lemma_names();
}

// ── Cutting ─────────────────────────────────────────────────────────────────

/// `substring` answers what stands between two positions, counted in code units, and
/// with one position what stands from it on.
pub proof fn law_substring(
    h: HostView,
    recv: Value,
    a: Seq<char>,
    b: Seq<char>,
    c: Seq<char>,
    from: i64,
    to: i64,
)
    requires
        from == unit_len(a),
        to == unit_len(a + b),
    ensures
        writes(h, recv, a + b + c, "substring"@, seq![Value::Int(from), Value::Int(to)], b),
        writes(h, recv, a + b, "substring"@, seq![Value::Int(from)], b),
        writes(h, recv, a + b + c, "subSequence"@, seq![Value::Int(from), Value::Int(to)], b),
{
    lemma_names();
    law_units_concat(a + b, c);
    law_units_concat(a, b);
    law_utf16_round_trip(b);
    let u = units_of(a + b + c);
    assert(u.subrange(from as int, to as int) =~= units_of(b));
    let v = units_of(a + b);
    assert(v.subrange(from as int, v.len() as int) =~= units_of(b));
}

/// A range that is not inside the text raises.
pub proof fn law_substring_outside(h: HostView, recv: Value, s: Seq<char>, from: i64, to: i64)
    requires
        from < 0 || to > unit_len(s) || from > to,
    ensures
        text_member(h, recv, s, "substring"@, seq![Value::Int(from), Value::Int(to)]) matches Some(
            ReplyView::Fault(_),
        ),
{
    lemma_names();
}

/// `take` and `drop` cut behind the first code units, and `takeLast` and `dropLast` before
/// the last.
pub proof fn law_cut(h: HostView, recv: Value, a: Seq<char>, b: Seq<char>, n: i64, m: i64)
    requires
        n == unit_len(a),
        m == unit_len(b),
    ensures
        writes(h, recv, a + b, "take"@, seq![Value::Int(n)], a),
        writes(h, recv, a + b, "drop"@, seq![Value::Int(n)], b),
        writes(h, recv, a + b, "takeLast"@, seq![Value::Int(m)], b),
        writes(h, recv, a + b, "dropLast"@, seq![Value::Int(m)], a),
{
    lemma_names();
    law_units_concat(a, b);
    law_utf16_round_trip(a);
    law_utf16_round_trip(b);
    let u = units_of(a + b);
    assert(u.subrange(0, n as int) =~= units_of(a));
    assert(u.subrange(n as int, u.len() as int) =~= units_of(b));
}

/// A count past the end takes or drops all, and a negative one raises.
pub proof fn law_cut_outside(h: HostView, recv: Value, s: Seq<char>, n: i64)
    ensures
        n >= unit_len(s) ==> {
            &&& writes(h, recv, s, "take"@, seq![Value::Int(n)], s)
            &&& writes(h, recv, s, "drop"@, seq![Value::Int(n)], Seq::empty())
            &&& writes(h, recv, s, "takeLast"@, seq![Value::Int(n)], s)
            &&& writes(h, recv, s, "dropLast"@, seq![Value::Int(n)], Seq::empty())
        },
        n < 0 ==> {
            &&& text_member(h, recv, s, "take"@, seq![Value::Int(n)]) matches Some(ReplyView::Fault(_))
            &&& text_member(h, recv, s, "drop"@, seq![Value::Int(n)]) matches Some(ReplyView::Fault(_))
            &&& text_member(h, recv, s, "takeLast"@, seq![Value::Int(n)]) matches Some(
                ReplyView::Fault(_),
            )
            &&& text_member(h, recv, s, "dropLast"@, seq![Value::Int(n)]) matches Some(
                ReplyView::Fault(_),
            )
        },
{
    lemma_names();
    law_utf16_round_trip(s);
    law_utf16_round_trip(Seq::empty());
    let u = units_of(s);
    assert(u.subrange(0, u.len() as int) =~= u);
    assert(u.subrange(u.len() as int, u.len() as int) =~= units_of(Seq::<char>::empty()));
    assert(u.subrange(0, 0) =~= units_of(Seq::<char>::empty()));
}

/// `removePrefix` takes away what the text starts with, where it does.
pub proof fn law_remove_prefix(h: HostView, recv: Value, b: usize, t: Seq<char>)
    ensures
        writes(h, recv, h.text(b) + t, "removePrefix"@, seq![Value::Str(b)], t),
        (forall|x: Seq<char>| t != #[trigger] (h.text(b) + x)) ==> writes(
            h,
            recv,
            t,
            "removePrefix"@,
            seq![Value::Str(b)],
            t,
        ),
{
    lemma_names();
    lemma_text_argument(h, b);
    lemma_prefix(h.text(b), t);
}

proof fn lemma_prefix(p: Seq<char>, t: Seq<char>)
    ensures
        starts_with(p + t, p),
        (p + t).skip(p.len() as int) == t,
        starts_with(t, p) ==> t == p + t.skip(p.len() as int),
{
    let s = p + t;
    assert(s.subrange(0, p.len() as int) =~= p);
    assert(s.skip(p.len() as int) =~= t);
    if starts_with(t, p) {
        lemma_occurs_splits(t, p, 0);
        assert(t.take(0) + p =~= p);
    }
}

/// `removeSuffix` takes away what the text ends with, where it does.
pub proof fn law_remove_suffix(h: HostView, recv: Value, b: usize, t: Seq<char>)
    ensures
        writes(h, recv, t + h.text(b), "removeSuffix"@, seq![Value::Str(b)], t),
        (forall|x: Seq<char>| t != #[trigger] (x + h.text(b))) ==> writes(
            h,
            recv,
            t,
            "removeSuffix"@,
            seq![Value::Str(b)],
            t,
        ),
{
    lemma_names();
    lemma_text_argument(h, b);
    let p = h.text(b);
    let e = t + p;
    assert(e.subrange(e.len() - p.len(), e.len() as int) =~= p);
    assert(e.take(e.len() - p.len()) =~= t);
    if ends_with(t, p) {
        let k = t.len() - p.len();
        lemma_occurs_splits(t, p, k);
        assert(t.take(k) + p + t.skip(k + p.len()) =~= t.take(k) + p);
        assert(t == t.take(k) + p);
    }
}

/// `substringBefore` answers what stands before the first occurrence, and
/// `substringAfter` what stands behind it; both answer the text itself where there is none.
pub proof fn law_before_and_behind(
    h: HostView,
    recv: Value,
    s: Seq<char>,
    b: usize,
    x: Seq<char>,
    y: Seq<char>,
)
    ensures
        s == x + h.text(b) + y && (forall|v: Seq<char>, w: Seq<char>|
            s == #[trigger] (v + h.text(b) + w) ==> x.len() <= v.len()) ==> {
            &&& writes(h, recv, s, "substringBefore"@, seq![Value::Str(b)], x)
            &&& writes(h, recv, s, "substringAfter"@, seq![Value::Str(b)], y)
        },
        (forall|v: Seq<char>, w: Seq<char>| s != #[trigger] (v + h.text(b) + w)) ==> {
            &&& writes(h, recv, s, "substringBefore"@, seq![Value::Str(b)], s)
            &&& writes(h, recv, s, "substringAfter"@, seq![Value::Str(b)], s)
        },
{
    lemma_names();
    lemma_text_argument(h, b);
    let p = h.text(b);
    lemma_find_bounds(s, p, 0);
    if let Some(k) = find_from(s, p, 0) {
        lemma_occurs_splits(s, p, k);
        assert(s == s.take(k) + p + s.skip(k + p.len()));
        if s == x + p + y {
            lemma_concat_at(x, p, y);
            lemma_find_least(s, p, 0, x.len() as int);
            if x.len() <= s.take(k).len() {
                assert(s.take(k) =~= x);
                assert(s.skip(k + p.len()) =~= y);
            }
        }
    } else if s == x + p + y {
        lemma_concat_at(x, p, y);
        lemma_find_least(s, p, 0, x.len() as int);
    }
}

proof fn lemma_trimmed(s: Seq<char>, start: bool, end: bool) -> (r: (Seq<char>, Seq<char>, Seq<char>))
    ensures
        r.1 == trimmed(s, start, end),
        s == r.0 + r.1 + r.2,
        !start ==> r.0.len() == 0,
        !end ==> r.2.len() == 0,
        forall|i: int| 0 <= i < r.0.len() ==> is_white(#[trigger] r.0[i]),
        forall|i: int| 0 <= i < r.2.len() ==> is_white(#[trigger] r.2[i]),
        r.1.len() > 0 && start ==> !is_white(r.1[0]),
        r.1.len() > 0 && end ==> !is_white(r.1.last()),
        r.1.len() == 0 && start ==> r.0 == s,
{
    let none = Seq::<char>::empty();
    let (a, t) = if start {
        (lemma_trimmed_start(s), trimmed_start(s))
    } else {
        (none, s)
    };
    assert(s =~= a + t);
    if end {
        let b = lemma_trimmed_end(t);
        let r = trimmed_end(t);
        assert(s =~= a + r + b);
        if r.len() > 0 {
            assert(t[0] == r[0]);
        } else if start {
            if t.len() > 0 {
                assert(t[0] == b[0]);
            }
            assert(a =~= s);
        }
        (a, r, b)
    } else {
        assert(s =~= a + t + none);
        if start && t.len() == 0 {
            assert(a =~= s);
        }
        (a, t, none)
    }
}

proof fn lemma_trimmed_start(s: Seq<char>) -> (a: Seq<char>)
    ensures
        s == a + trimmed_start(s),
        forall|i: int| 0 <= i < a.len() ==> is_white(#[trigger] a[i]),
        trimmed_start(s).len() > 0 ==> !is_white(trimmed_start(s)[0]),
    decreases s.len(),
{
    if s.len() > 0 && is_white(s[0]) {
        let b = lemma_trimmed_start(s.skip(1));
        let t = trimmed_start(s.skip(1));
        let a = seq![s[0]] + b;
        assert(a + t =~= seq![s[0]] + (b + t));
        assert(s =~= seq![s[0]] + s.skip(1));
        a
    } else {
        assert(s =~= Seq::<char>::empty() + s);
        Seq::empty()
    }
}

proof fn lemma_trimmed_end(s: Seq<char>) -> (b: Seq<char>)
    ensures
        s == trimmed_end(s) + b,
        forall|i: int| 0 <= i < b.len() ==> is_white(#[trigger] b[i]),
        trimmed_end(s).len() > 0 ==> !is_white(trimmed_end(s).last()),
    decreases s.len(),
{
    if s.len() > 0 && is_white(s.last()) {
        let c = lemma_trimmed_end(s.drop_last());
        let t = trimmed_end(s.drop_last());
        let b = c.push(s.last());
        assert(t + b =~= (t + c).push(s.last()));
        assert(s =~= s.drop_last().push(s.last()));
        b
    } else {
        assert(s =~= s + Seq::<char>::empty());
        Seq::empty()
    }
}

/// Trimming takes whitespace away at the ends and nothing else: `trimStart` at the
/// start, `trimEnd` at the end, and `trim` at both.
pub proof fn law_trim(h: HostView, recv: Value, a: Seq<char>, t: Seq<char>, b: Seq<char>)
    requires
        t.len() > 0,
        !is_white(t[0]),
        !is_white(t.last()),
        forall|i: int| 0 <= i < a.len() ==> is_white(#[trigger] a[i]),
        forall|i: int| 0 <= i < b.len() ==> is_white(#[trigger] b[i]),
    ensures
        writes(h, recv, a + t + b, "trim"@, Seq::empty(), t),
        writes(h, recv, a + t + b, "trimStart"@, Seq::empty(), t + b),
        writes(h, recv, a + t + b, "trimEnd"@, Seq::empty(), a + t),
        writes(h, recv, a, "trim"@, Seq::empty(), Seq::empty()),
{
    lemma_names();
    let s = a + t + b;
    assert(s =~= a + (t + b));
    lemma_trim_start_of(a, t + b);
    lemma_trim_end_of(t, b);
    lemma_trim_end_of(a + t, b);
    lemma_trim_start_of(a, Seq::empty());
    assert(a + Seq::<char>::empty() =~= a);
}

proof fn lemma_trim_start_of(a: Seq<char>, t: Seq<char>)
    requires
        t.len() > 0 ==> !is_white(t[0]),
        forall|i: int| 0 <= i < a.len() ==> is_white(#[trigger] a[i]),
    ensures
        trimmed_start(a + t) == t,
    decreases a.len(),
{
    if a.len() == 0 {
        assert(a + t =~= t);
    } else {
        assert(is_white(a[0]));
        assert((a + t)[0] == a[0]);
        assert((a + t).skip(1) =~= a.skip(1) + t);
        assert forall|i: int| 0 <= i < a.skip(1).len() implies is_white(#[trigger] a.skip(1)[i]) by {
            assert(a.skip(1)[i] == a[i + 1]);
        }
        lemma_trim_start_of(a.skip(1), t);
    }
}

proof fn lemma_trim_end_of(t: Seq<char>, b: Seq<char>)
    requires
        t.len() > 0 ==> !is_white(t.last()),
        forall|i: int| 0 <= i < b.len() ==> is_white(#[trigger] b[i]),
    ensures
        trimmed_end(t + b) == t,
    decreases b.len(),
{
    if b.len() == 0 {
        assert(t + b =~= t);
    } else {
        assert(is_white(b[b.len() - 1]));
        assert((t + b).last() == b.last());
        assert((t + b).drop_last() =~= t + b.drop_last());
        assert forall|i: int| 0 <= i < b.drop_last().len() implies is_white(
            #[trigger] b.drop_last()[i],
        ) by {
            assert(b.drop_last()[i] == b[i]);
        }
        lemma_trim_end_of(t, b.drop_last());
    }
}

/// Blanks, tabs and line breaks are whitespace; letters, digits and signs are not.
pub proof fn law_whitespace(c: char)
    ensures
        is_white(' ') && is_white('\t') && is_white('\n') && is_white('\r'),
        '!' <= c <= '~' ==> !is_white(c),
{
}

// ── Building ────────────────────────────────────────────────────────────────

/// `plus` puts one text behind the other.
pub proof fn law_plus(h: HostView, recv: Value, s: Seq<char>, b: usize)
    ensures
        writes(h, recv, s, "plus"@, seq![Value::Str(b)], s + h.text(b)),
{
    lemma_names();
    lemma_text_argument(h, b);
}

/// `reversed` turns a text round.
pub proof fn law_reversed(h: HostView, recv: Value, s: Seq<char>, t: Seq<char>)
    requires
        writes(h, recv, s, "reversed"@, Seq::empty(), t),
    ensures
        t.len() == s.len(),
        forall|i: int| 0 <= i < s.len() ==> t[s.len() - 1 - i] == #[trigger] s[i],
{
    lemma_names();
}

/// `repeat` puts a text in a row: not at all for 0, and once more for one more.
pub proof fn law_repeat(h: HostView, recv: Value, s: Seq<char>, n: i64, t: Seq<char>)
    requires
        0 <= n < i64::MAX,
        writes(h, recv, s, "repeat"@, seq![Value::Int(n)], t),
    ensures
        n == 0 ==> t.len() == 0,
        writes(h, recv, s, "repeat"@, seq![Value::Int((n + 1) as i64)], t + s),
{
    lemma_names();
}

/// A negative number of repetitions raises.
pub proof fn law_repeat_less_than_nothing(h: HostView, recv: Value, s: Seq<char>, n: i64)
    requires
        n < 0,
    ensures
        text_member(h, recv, s, "repeat"@, seq![Value::Int(n)]) matches Some(ReplyView::Fault(_)),
{
    lemma_names();
}

proof fn lemma_repeated(c: char, n: int)
    ensures
        repeated(seq![c], n).len() == if n > 0 {
            n
        } else {
            0
        },
        forall|i: int| 0 <= i < repeated(seq![c], n).len() ==> #[trigger] repeated(seq![c], n)[i] == c,
    decreases n,
{
    if n > 0 {
        lemma_repeated(c, n - 1);
    }
}

/// `padStart` puts fill characters before a text and `padEnd` behind it, as many as are
/// missing to the length that is asked for; a text that is long enough stays.
pub proof fn law_padding(h: HostView, recv: Value, s: Seq<char>, n: i64, c: char)
    requires
        n >= 0,
        c as int <= 0xffff,
    ensures
        ({
            let missing = if n > unit_len(s) {
                n - unit_len(s)
            } else {
                0
            };
            let fill = Seq::new(missing as nat, |i: int| c);
            let blanks = Seq::new(missing as nat, |i: int| ' ');
            &&& writes(h, recv, s, "padStart"@, seq![Value::Int(n), char_value(c as int)], fill + s)
            &&& writes(h, recv, s, "padEnd"@, seq![Value::Int(n), char_value(c as int)], s + fill)
            &&& writes(h, recv, s, "padStart"@, seq![Value::Int(n)], blanks + s)
            &&& writes(h, recv, s, "padEnd"@, seq![Value::Int(n)], s + blanks)
        }),
{
    lemma_names();
    let missing = if n > unit_len(s) {
        n - unit_len(s)
    } else {
        0
    };
    lemma_repeated(c, n - unit_len(s));
    lemma_repeated(' ', n - unit_len(s));
    crate::value::law_char_round_trip(c as int);
    assert(repeated(seq![c], n - unit_len(s)) =~= Seq::new(missing as nat, |i: int| c));
    assert(repeated(seq![' '], n - unit_len(s)) =~= Seq::new(missing as nat, |i: int| ' '));
}

// ── Replacing and splitting ─────────────────────────────────────────────────

proof fn lemma_occurs_behind(s: Seq<char>, p: Seq<char>, d: int, k: int)
    requires
        0 <= d <= s.len(),
        0 <= k,
    ensures
        occurs_at(s.skip(d), p, k) == occurs_at(s, p, d + k),
{
    if k + p.len() <= s.len() - d {
        assert(s.skip(d).subrange(k, k + p.len()) =~= s.subrange(d + k, d + k + p.len()));
    }
}

proof fn lemma_find_behind(s: Seq<char>, p: Seq<char>, d: int, k: int)
    requires
        0 <= d <= s.len(),
        0 <= k,
    ensures
        match find_from(s.skip(d), p, k) {
            Some(j) => find_from(s, p, d + k) == Some(d + j),
            None => find_from(s, p, d + k) is None,
        },
    decreases s.len() + 1 - d - k,
{
    if k + p.len() <= s.len() - d {
        lemma_occurs_behind(s, p, d, k);
        if !occurs_at(s, p, d + k) {
            lemma_find_behind(s, p, d, k + 1);
        }
    }
}

proof fn lemma_split_behind(s: Seq<char>, p: Seq<char>, d: int, k: int)
    requires
        p.len() > 0,
        0 <= d <= s.len(),
        0 <= k <= s.len() - d,
    ensures
        split_from(s.skip(d), p, k) == split_from(s, p, d + k),
    decreases s.len() - d - k,
{
    lemma_find_behind(s, p, d, k);
    lemma_find_bounds(s.skip(d), p, k);
    let t = s.skip(d);
    assert(t.subrange(k, t.len() as int) =~= s.subrange(d + k, s.len() as int));
    if let Some(j) = find_from(t, p, k) {
        assert(t.subrange(k, j) =~= s.subrange(d + k, d + j));
        lemma_split_behind(s, p, d, (j + p.len()) as int);
    }
}

proof fn lemma_split_is_some(s: Seq<char>, p: Seq<char>, i: int)
    requires
        0 <= i <= s.len(),
    ensures
        split_from(s, p, i).len() > 0,
{
}

/// What stands before the first of the characters that a text is cut at is its
/// first piece, and what stands behind is cut further.
pub proof fn lemma_first_piece(x: Seq<char>, p: Seq<char>, y: Seq<char>)
    requires
        p.len() == 1,
        forall|i: int| 0 <= i < x.len() ==> x[i] != p[0],
    ensures
        pieces(x + p + y, p) == seq![x] + pieces(y, p),
        pieces(x, p) == seq![x],
{
    let s = x + p + y;
    let k = x.len() as int;
    lemma_concat_at(x, p, y);
    lemma_find_least(s, p, 0, k);
    lemma_find_bounds(s, p, 0);
    let j = find_from(s, p, 0)->0;
    if j < k {
        assert(s.subrange(j, j + 1)[0] == x[j]);
    }
    assert(s.subrange(0, k) =~= x);
    assert(s.skip(k + 1) =~= y);
    lemma_split_behind(s, p, k + 1, 0);
    lemma_find_bounds(x, p, 0);
    if let Some(i) = find_from(x, p, 0) {
        assert(x.subrange(i, i + 1)[0] == x[i]);
    }
    assert(x.subrange(0, k) =~= x);
}

/// Splitting at a delimiter cuts a text at its first occurrence and splits what stands
/// behind; a text without it is one piece.
pub proof fn law_split(h: HostView, recv: Value, s: Seq<char>, b: usize, x: Seq<char>, y: Seq<char>)
    requires
        h.text(b).len() > 0,
    ensures
        s == x + h.text(b) + y && (forall|v: Seq<char>, w: Seq<char>|
            s == #[trigger] (v + h.text(b) + w) ==> x.len() <= v.len()) ==> (text_member(
            h,
            recv,
            y,
            "split"@,
            seq![Value::Str(b)],
        ) matches Some(ReplyView::Texts(rest)) && gives(
            h,
            recv,
            s,
            "split"@,
            seq![Value::Str(b)],
            ReplyView::Texts(seq![x] + rest),
        )),
        (forall|v: Seq<char>, w: Seq<char>| s != #[trigger] (v + h.text(b) + w)) ==> gives(
            h,
            recv,
            s,
            "split"@,
            seq![Value::Str(b)],
            ReplyView::Texts(seq![s]),
        ),
{
    lemma_names();
    lemma_text_argument(h, b);
    let p = h.text(b);
    lemma_find_bounds(s, p, 0);
    assert(s.subrange(0, s.len() as int) =~= s);
    if let Some(k) = find_from(s, p, 0) {
        lemma_occurs_splits(s, p, k);
        assert(s == s.take(k) + p + s.skip(k + p.len()));
        if s == x + p + y {
            lemma_concat_at(x, p, y);
            lemma_find_least(s, p, 0, x.len() as int);
            if x.len() <= s.take(k).len() {
                assert(s.subrange(0, k) =~= x);
                assert(s.skip(k + p.len()) =~= y);
                lemma_split_behind(s, p, k + p.len(), 0);
            }
        }
    } else if s == x + p + y {
        lemma_concat_at(x, p, y);
        lemma_find_least(s, p, 0, x.len() as int);
    }
}

/// `replace` puts the new text where the old one occurs first, and goes on behind it; a
/// text without the old one stays. `replaceFirst` does so once.
pub proof fn law_replace(
    h: HostView,
    recv: Value,
    s: Seq<char>,
    b: usize,
    c: usize,
    x: Seq<char>,
    y: Seq<char>,
)
    requires
        h.text(b).len() > 0,
    ensures
        s == x + h.text(b) + y && (forall|v: Seq<char>, w: Seq<char>|
            s == #[trigger] (v + h.text(b) + w) ==> x.len() <= v.len()) ==> (text_member(
            h,
            recv,
            y,
            "replace"@,
            seq![Value::Str(b), Value::Str(c)],
        ) matches Some(ReplyView::Text(rest)) && writes(
            h,
            recv,
            s,
            "replace"@,
            seq![Value::Str(b), Value::Str(c)],
            x + h.text(c) + rest,
        ) && writes(
            h,
            recv,
            s,
            "replaceFirst"@,
            seq![Value::Str(b), Value::Str(c)],
            x + h.text(c) + y,
        )),
        (forall|v: Seq<char>, w: Seq<char>| s != #[trigger] (v + h.text(b) + w)) ==> writes(
            h,
            recv,
            s,
            "replace"@,
            seq![Value::Str(b), Value::Str(c)],
            s,
        ) && writes(h, recv, s, "replaceFirst"@, seq![Value::Str(b), Value::Str(c)], s),
{
    lemma_names();
    lemma_text_argument(h, b);
    lemma_text_argument(h, c);
    let p = h.text(b);
    lemma_find_bounds(s, p, 0);
    assert(s.subrange(0, s.len() as int) =~= s);
    if let Some(k) = find_from(s, p, 0) {
        lemma_occurs_splits(s, p, k);
        assert(s == s.take(k) + p + s.skip(k + p.len()));
        if s == x + p + y {
            lemma_concat_at(x, p, y);
            lemma_find_least(s, p, 0, x.len() as int);
            if x.len() <= s.take(k).len() {
                assert(s.subrange(0, k) =~= x);
                assert(s.take(k) =~= x);
                assert(s.skip(k + p.len()) =~= y);
                lemma_split_behind(s, p, k + p.len(), 0);
                lemma_split_is_some(y, p, 0);
                lemma_joined_front(x, split_from(y, p, 0), h.text(c));
            }
        }
    } else if s == x + p + y {
        lemma_concat_at(x, p, y);
        lemma_find_least(s, p, 0, x.len() as int);
    }
}

// ── Numbers ─────────────────────────────────────────────────────────────────

/// Whether a text is nothing but decimal digits, and has one.
pub open spec fn is_decimal(s: Seq<char>) -> bool {
    &&& s.len() > 0
    &&& forall|i: int| 0 <= i < s.len() ==> '0' <= #[trigger] s[i] <= '9'
}

proof fn lemma_decimal(s: Seq<char>)
    requires
        is_decimal(s),
    ensures
        is_digit_run(s, 10),
        digits_number(s, 10) >= 0,
    decreases s.len(),
{
    assert('0' <= s[s.len() - 1] <= '9');
    if s.len() > 1 {
        assert forall|i: int| 0 <= i < s.drop_last().len() implies '0' <= #[trigger] s.drop_last()[i]
            <= '9' by {
            assert(s.drop_last()[i] == s[i]);
        }
        lemma_decimal(s.drop_last());
    } else {
        reveal_with_fuel(digits_number, 2);
    }
}

/// `toLong` reads decimal digits: one digit is its value, each digit more makes ten times
/// the number and the digit, and a `-` before them makes it negative.
pub proof fn law_numbers_are_read(h: HostView, recv: Value, s: Seq<char>, c: char, n: i64)
    requires
        is_decimal(s),
        '0' <= c <= '9',
        counts(h, recv, s, "toLong"@, Seq::empty(), n as int),
    ensures
        counts(h, recv, seq![c], "toLong"@, Seq::empty(), c as int - '0' as int),
        n * 10 + (c as int - '0' as int) <= i64::MAX ==> counts(
            h,
            recv,
            s.push(c),
            "toLong"@,
            Seq::empty(),
            n * 10 + (c as int - '0' as int),
        ),
        counts(h, recv, seq!['-'] + s, "toLong"@, Seq::empty(), -n),
        counts(h, recv, seq!['+'] + s, "toLong"@, Seq::empty(), n as int),
{
    lemma_names();
    lemma_decimal(s);
    let one = seq![c];
    assert(one.drop_last() =~= Seq::empty());
    lemma_decimal(one);
    reveal_with_fuel(digits_number, 2);
    let t = s.push(c);
    assert forall|i: int| 0 <= i < t.len() implies '0' <= #[trigger] t[i] <= '9' by {
        if i < s.len() {
            assert(t[i] == s[i]);
        }
    }
    lemma_decimal(t);
    assert(t.drop_last() =~= s);
    let minus = seq!['-'] + s;
    let plus = seq!['+'] + s;
    assert(minus.skip(1) =~= s);
    assert(plus.skip(1) =~= s);
    assert(digit_value(minus[0]) == 36);
    assert(digit_value(plus[0]) == 36);
}

/// The narrower reads give what `toLong` gives where it fits, and raise elsewhere; what is
/// no number raises too.
pub proof fn law_narrow_reads(h: HostView, recv: Value, s: Seq<char>)
    ensures
        match text_member(h, recv, s, "toLong"@, Seq::empty()) {
            Some(ReplyView::Value(Value::Int(n))) => {
                &&& if -0x8000_0000 <= n <= 0x7fff_ffff {
                    counts(h, recv, s, "toInt"@, Seq::empty(), n as int)
                } else {
                    text_member(h, recv, s, "toInt"@, Seq::empty()) matches Some(ReplyView::Fault(_))
                }
                &&& if -0x8000 <= n <= 0x7fff {
                    counts(h, recv, s, "toShort"@, Seq::empty(), n as int)
                } else {
                    text_member(h, recv, s, "toShort"@, Seq::empty()) matches Some(
                        ReplyView::Fault(_),
                    )
                }
                &&& if -0x80 <= n <= 0x7f {
                    counts(h, recv, s, "toByte"@, Seq::empty(), n as int)
                } else {
                    text_member(h, recv, s, "toByte"@, Seq::empty()) matches Some(
                        ReplyView::Fault(_),
                    )
                }
            },
            Some(ReplyView::Fault(_)) => {
                &&& text_member(h, recv, s, "toInt"@, Seq::empty()) matches Some(ReplyView::Fault(_))
                &&& text_member(h, recv, s, "toShort"@, Seq::empty()) matches Some(
                    ReplyView::Fault(_),
                )
                &&& text_member(h, recv, s, "toByte"@, Seq::empty()) matches Some(ReplyView::Fault(_))
            },
            _ => false,
        },
{
    lemma_names();
}

/// A text with a character that is neither a decimal digit nor a leading sign is no
/// number.
pub proof fn law_no_numbers(h: HostView, recv: Value, s: Seq<char>, i: int)
    requires
        s.len() == 0 || (0 <= i < s.len() && !('0' <= s[i] <= '9') && (i == 0 ==> s[0] != '-' && s[0]
            != '+')),
    ensures
        text_member(h, recv, s, "toLong"@, Seq::empty()) matches Some(ReplyView::Fault(_)),
        gives(h, recv, s, "toIntOrNull"@, Seq::empty(), ReplyView::Value(Value::Undef)),
        gives(h, recv, s, "toLongOrNull"@, Seq::empty(), ReplyView::Value(Value::Undef)),
{
    lemma_names();
    if s.len() > 0 {
        assert(digit_value(s[i]) >= 10);
        if i > 0 {
            assert(s.skip(1)[i - 1] == s[i]);
        }
    }
}

/// The characters of a text as an array are its code units.
pub proof fn law_char_array(h: HostView, recv: Value, s: Seq<char>)
    ensures
        text_member(h, recv, s, "toCharArray"@, Seq::empty()) matches Some(
            ReplyView::Object(ObjView::Array { items, desc }),
        ) && items.len() == unit_len(s) && forall|i: int|
            0 <= i < items.len() ==> #[trigger] items[i] == char_value(units_of(s)[i] as int),
{
    lemma_names();
}

} // verus!
