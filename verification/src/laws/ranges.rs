//! What ranges hold, and what characters and builders answer.
use crate::range::{RangeForm, RangeObj};
use crate::receiver::SeqKind;
use crate::value::Value;
use crate::walk::Stop;
use vstd::prelude::*;

verus! {

use crate::builder::{builder_member, pairs_mended};
use crate::chars::{
    char_member,
    lower_mapping,
    unicode_alphabetic,
    unicode_lower,
    unicode_numeric,
    unicode_upper,
    upper_mapping,
};
use crate::display::text_of;
use crate::host::HostView;
use crate::laws::names::lemma_names;
use crate::range::range_of;
use crate::reply::ReplyView;
use crate::sequences::shared_member;
use crate::strings::is_white;
use crate::utf16::{text_of_units, units_of};
use crate::value::{char_value, law_char_round_trip, ObjView};
use crate::walk::Answers;

// ── Ranges ──────────────────────────────────────────────────────────────────

/// `a..b` holds what lies between its bounds, both included, `a until b` leaves `b` out,
/// and `a downTo b` counts down.
pub proof fn law_range_members(a: i64, b: i64, is_char: bool, v: int)
    ensures
        range_of(a, b, RangeForm::Inclusive, is_char).has(v) <==> a <= v <= b,
        range_of(a, b, RangeForm::Until, is_char).has(v) <==> a <= v < b,
        range_of(a, b, RangeForm::DownTo, is_char).has(v) <==> b <= v <= a,
{
    assert((v - a) % 1 == 0);
    assert((v - 1) % 1 == 0);
    assert((v - a) % (-1int) == 0) by (nonlinear_arith);
}

/// The elements of a range go from its first bound to its last, one by one.
pub proof fn law_range_elements(a: i64, b: i64, i: int)
    ensures
        ({
            let up = range_of(a, b, RangeForm::Inclusive, false);
            let below = range_of(a, b, RangeForm::Until, false);
            let down = range_of(a, b, RangeForm::DownTo, false);
            &&& b - a < i64::MAX ==> up.elements().len() == (if a <= b {
                b - a + 1
            } else {
                0
            })
            &&& b - a < i64::MAX ==> below.elements().len() == (if a < b {
                b - a
            } else {
                0
            })
            &&& a - b < i64::MAX ==> down.elements().len() == (if b <= a {
                a - b + 1
            } else {
                0
            })
            &&& 0 <= i < up.elements().len() ==> up.elements()[i] == Value::Int((a + i) as i64)
            &&& 0 <= i < below.elements().len() ==> below.elements()[i] == Value::Int((a + i) as i64)
            &&& 0 <= i < down.elements().len() ==> down.elements()[i] == Value::Int((a - i) as i64)
        }),
{
    assert(i * -1 == -i) by (nonlinear_arith);
    assert((b - a) / 1 == b - a);
    assert((b - 1 - a) / 1 == b - 1 - a);
    assert((a - b) / 1 == a - b);
    let below = range_of(a, b, RangeForm::Until, false);
    if b == i64::MIN {
        assert(below.size() == 0);
    }
}

/// The elements of a range of characters are the characters with those codes.
pub proof fn law_character_ranges(a: i64, b: i64, i: int)
    requires
        0 <= a <= b <= 0xffff,
        0 <= i <= b - a,
    ensures
        range_of(a, b, RangeForm::Inclusive, true).elements().len() == b - a + 1,
        range_of(a, b, RangeForm::Inclusive, true).elements()[i] == char_value(a + i),
{
    assert((b - a) / 1 == b - a);
}

/// With a step a range holds every so many of its elements, from the first on.
pub proof fn law_stepped_ranges(r: RangeObj, n: i64, v: int, i: int)
    requires
        n > 0,
        r.step == n || r.step == -n,
        !r.is_char,
    ensures
        r.step == n ==> (r.has(v) <==> r.first <= v <= r.end && (v - r.first) % (n as int) == 0),
        r.step == -n ==> (r.has(v) <==> r.end <= v <= r.first && (r.first - v) % (n as int) == 0),
        0 <= i < r.elements().len() ==> r.elements()[i] == Value::Int((r.first + i * r.step) as i64),
{
    if r.step == -n {
        let d = r.first - v;
        let m: int = n as int;
        assert((-d) % (-m) == 0 <==> d % m == 0) by {
            lemma_multiples(d, m);
        }
    }
}

proof fn lemma_multiples(d: int, m: int)
    requires
        m > 0,
    ensures
        (-d) % (-m) == 0 <==> d % m == 0,
{
    vstd::arithmetic::div_mod::lemma_fundamental_div_mod(d, m);
    vstd::arithmetic::div_mod::lemma_fundamental_div_mod(-d, -m);
    if d % m == 0 {
        let q = d / m;
        assert(-d == (-m) * q) by (nonlinear_arith)
            requires
                d == m * q,
        ;
        lemma_exact(-d, -m, q);
    }
    if (-d) % (-m) == 0 {
        let q = (-d) / (-m);
        assert(d == m * q) by (nonlinear_arith)
            requires
                -d == (-m) * q,
        ;
        lemma_exact(d, m, q);
    }
}

proof fn lemma_exact(d: int, m: int, q: int)
    requires
        m != 0,
        d == m * q,
    ensures
        d % m == 0,
{
    if m > 0 {
        vstd::arithmetic::div_mod::lemma_fundamental_div_mod_converse(d, m, q, 0);
    } else {
        assert(d % m == 0) by (nonlinear_arith)
            requires
                m != 0,
                d == m * q,
        ;
    }
}

/// The first and the last of a range are its first bound and the last element that its
/// step reaches.
pub proof fn law_range_ends(
    h: HostView,
    r: RangeObj,
    items: Seq<Value>,
    recv: Option<Value>,
    kind: SeqKind,
    log: Answers,
)
    requires
        !r.is_char,
    ensures
        shared_member(h, items, recv, kind, Some(r), "first"@, Seq::empty(), log) == Ok::<
            Option<ReplyView>,
            Stop,
        >(Some(ReplyView::Value(Value::Int(r.first)))),
        r.step == 1 ==> shared_member(h, items, recv, kind, Some(r), "last"@, Seq::empty(), log)
            == Ok::<Option<ReplyView>, Stop>(Some(ReplyView::Value(Value::Int(r.end)))),
        shared_member(h, items, recv, kind, Some(r), "reversed"@, Seq::empty(), log) matches Ok(
            Some(ReplyView::Object(ObjView::Range(q))),
        ) && q.end == r.first && q.step == -1 && (r.step == 1 ==> q.first == r.end),
{
    lemma_names();
    assert((r.end - r.first) % 1 == 0);
}

// ── Characters ──────────────────────────────────────────────────────────────

/// The member `name` of the character with the code `code` answers `v`.
pub open spec fn answers(h: HostView, code: int, name: Seq<char>, args: Seq<Value>, v: Value) -> bool {
    char_member(h, code, name, args) == ReplyView::Value(v)
}

/// A character has its code, counts by it, and is written as itself.
pub proof fn law_character_codes(h: HostView, code: int, other: int, n: i64)
    requires
        0 <= code <= 0xffff,
        0 <= other <= 0xffff,
    ensures
        answers(h, code, "code"@, Seq::empty(), Value::Int(code as i64)),
        answers(h, code, "hashCode"@, Seq::empty(), Value::Int(code as i64)),
        0 <= code + n <= 0xffff ==> answers(
            h,
            code,
            "plus"@,
            seq![Value::Int(n)],
            char_value(code + n),
        ),
        0 <= code - n <= 0xffff ==> answers(
            h,
            code,
            "minus"@,
            seq![Value::Int(n)],
            char_value(code - n),
        ),
        answers(
            h,
            code,
            "minus"@,
            seq![char_value(other)],
            Value::Int((code - other) as i64),
        ),
        answers(
            h,
            code,
            "compareTo"@,
            seq![char_value(other)],
            Value::Int(
                if code < other {
                    (-1) as i64
                } else if code > other {
                    1
                } else {
                    0
                },
            ),
        ),
        !(0xd800 <= code <= 0xdfff) ==> char_member(h, code, "toString"@, Seq::empty())
            == ReplyView::Text(seq![code as char]),
{
    lemma_names();
    law_char_round_trip(other);
}

/// A decimal digit has its value, and nothing else has one.
pub proof fn law_digits(h: HostView, code: int)
    requires
        0 <= code <= 0xffff,
    ensures
        '0' as int <= code <= '9' as int ==> answers(
            h,
            code,
            "digitToInt"@,
            Seq::empty(),
            Value::Int((code - '0' as int) as i64),
        ),
        !('0' as int <= code <= '9' as int) ==> char_member(h, code, "digitToInt"@, Seq::empty()) is Fault,
{
    lemma_names();
}

/// What a character is goes by the Unicode tables, and whitespace by Kotlin's own.
pub proof fn law_character_kinds(h: HostView, c: char)
    requires
        c as int <= 0xffff,
    ensures
        ({
            let says = |name: Seq<char>, b: bool|
                answers(h, c as int, name, Seq::empty(), Value::Bool(b));
            &&& says("isDigit"@, unicode_numeric(c))
            &&& says("isLetter"@, unicode_alphabetic(c))
            &&& says("isLetterOrDigit"@, unicode_alphabetic(c) || unicode_numeric(c))
            &&& says("isWhitespace"@, is_white(c))
            &&& says("isUpperCase"@, unicode_upper(c))
            &&& says("isLowerCase"@, unicode_lower(c))
            &&& char_member(h, c as int, "uppercase"@, Seq::empty()) == ReplyView::Text(
                upper_mapping(c),
            )
            &&& char_member(h, c as int, "lowercase"@, Seq::empty()) == ReplyView::Text(
                lower_mapping(c),
            )
            &&& upper_mapping(c).len() == 1 ==> answers(
                h,
                c as int,
                "uppercaseChar"@,
                Seq::empty(),
                char_value(upper_mapping(c)[0] as int),
            )
            &&& lower_mapping(c).len() == 1 ==> answers(
                h,
                c as int,
                "lowercaseChar"@,
                Seq::empty(),
                char_value(lower_mapping(c)[0] as int),
            )
        }),
{
    lemma_names();
    crate::text::lemma_char_code(c);
}

// ── Builders ────────────────────────────────────────────────────────────────

/// The member `name` of a builder leaves it holding `after`, and answers `v`.
pub open spec fn edits(
    h: HostView,
    recv: Value,
    u: Seq<u16>,
    cap: int,
    name: Seq<char>,
    args: Seq<Value>,
    after: Seq<u16>,
    v: Value,
) -> bool {
    builder_member(h, recv, u, cap, name, args) matches Some(
        ReplyView::Update(w, ObjView::Builder { units, cap: _ }, r),
    ) && w == recv && units == after && r == v
}

/// `append` puts the text of a value behind what a builder holds, `appendLine` a line break
/// behind that, and `insert` puts it before a position.
pub proof fn law_builder_insertions(
    h: HostView,
    recv: Value,
    a: Seq<u16>,
    b: Seq<u16>,
    cap: int,
    x: Value,
    n: i64,
)
    requires
        n == a.len(),
    ensures
        edits(h, recv, a, cap, "append"@, seq![x], a + units_of(text_of(h, x)), recv),
        edits(
            h,
            recv,
            a,
            cap,
            "appendLine"@,
            seq![x],
            a + units_of(text_of(h, x)) + seq![10u16],
            recv,
        ),
        edits(
            h,
            recv,
            a + b,
            cap,
            "insert"@,
            seq![Value::Int(n), x],
            a + units_of(text_of(h, x)) + b,
            recv,
        ),
{
    lemma_names();
    let t = units_of(text_of(h, x));
    assert((a + t).push(10u16) =~= a + t + seq![10u16]);
    let u = a + b;
    assert(u.take(n as int) =~= a);
    assert(u.skip(n as int) =~= b);
    assert(crate::builder::spliced(u, n as int, n as int, t) =~= a + t + b);
}

/// `delete` takes away what stands between two positions, `replace` puts a text in its
/// place, and `deleteCharAt` takes away one code unit.
pub proof fn law_builder_deletions(
    h: HostView,
    recv: Value,
    a: Seq<u16>,
    b: Seq<u16>,
    c: Seq<u16>,
    cap: int,
    x: Value,
    from: i64,
    to: i64,
)
    requires
        from == a.len(),
        to == a.len() + b.len(),
    ensures
        edits(
            h,
            recv,
            a + b + c,
            cap,
            "delete"@,
            seq![Value::Int(from), Value::Int(to)],
            a + c,
            recv,
        ),
        edits(
            h,
            recv,
            a + b + c,
            cap,
            "deleteRange"@,
            seq![Value::Int(from), Value::Int(to)],
            a + c,
            recv,
        ),
        edits(
            h,
            recv,
            a + b + c,
            cap,
            "replace"@,
            seq![Value::Int(from), Value::Int(to), x],
            a + units_of(text_of(h, x)) + c,
            recv,
        ),
        b.len() == 1 ==> edits(
            h,
            recv,
            a + b + c,
            cap,
            "deleteCharAt"@,
            seq![Value::Int(from)],
            a + c,
            recv,
        ),
{
    lemma_names();
    let u = a + b + c;
    let t = units_of(text_of(h, x));
    let none = Seq::<u16>::empty();
    assert(crate::builder::spliced(u, from as int, to as int, none) =~= a + c);
    assert(crate::builder::spliced(u, from as int, to as int, t) =~= a + t + c);
}

/// `setCharAt` changes one code unit, `clear` takes all away, `setLength` cuts what is too
/// long and fills what is too short with NUL, and `toString` gives the text.
pub proof fn law_builder_changes(
    h: HostView,
    recv: Value,
    u: Seq<u16>,
    cap: int,
    i: i64,
    c: int,
    n: i64,
)
    requires
        0 <= i < u.len(),
        0 <= c <= 0xffff,
        n >= 0,
    ensures
        edits(
            h,
            recv,
            u,
            cap,
            "setCharAt"@,
            seq![Value::Int(i), char_value(c)],
            u.update(i as int, c as u16),
            Value::Undef,
        ),
        edits(h, recv, u, cap, "clear"@, Seq::empty(), Seq::empty(), recv),
        n <= u.len() ==> edits(
            h,
            recv,
            u,
            cap,
            "setLength"@,
            seq![Value::Int(n)],
            u.take(n as int),
            Value::Undef,
        ),
        n > u.len() ==> edits(
            h,
            recv,
            u,
            cap,
            "setLength"@,
            seq![Value::Int(n)],
            u + Seq::new((n - u.len()) as nat, |k: int| 0u16),
            Value::Undef,
        ),
        builder_member(h, recv, u, cap, "toString"@, Seq::empty()) == Some(
            ReplyView::Text(text_of_units(u)),
        ),
{
    lemma_names();
    law_char_round_trip(c);
    if n <= u.len() {
        assert(crate::builder::resized(u, n as int) =~= u.take(n as int));
    } else {
        assert(crate::builder::resized(u, n as int) =~= u + Seq::new(
            (n - u.len()) as nat,
            |k: int| 0u16,
        ));
    }
}

proof fn lemma_nothing_to_mend(u: Seq<u16>)
    requires
        forall|i: int| 0 <= i < u.len() ==> !(0xd800 <= #[trigger] u[i] <= 0xdfff),
    ensures
        pairs_mended(u) == u,
    decreases u.len(),
{
    if u.len() > 0 {
        assert(!(0xd800 <= u[0] <= 0xdfff));
        if u.len() > 1 {
            assert(!(0xd800 <= u[1] <= 0xdfff));
        }
        assert forall|i: int| 0 <= i < u.skip(1).len() implies !(0xd800 <= #[trigger] u.skip(1)[i]
            <= 0xdfff) by {
            assert(u.skip(1)[i] == u[i + 1]);
        }
        lemma_nothing_to_mend(u.skip(1));
        assert(u =~= seq![u[0]] + u.skip(1));
    } else {
        assert(u =~= Seq::empty());
    }
}

/// `reverse` turns round what a builder holds.
pub proof fn law_builder_reverse(h: HostView, recv: Value, u: Seq<u16>, cap: int)
    requires
        forall|i: int| 0 <= i < u.len() ==> !(0xd800 <= #[trigger] u[i] <= 0xdfff),
    ensures
        edits(
            h,
            recv,
            u,
            cap,
            "reverse"@,
            Seq::empty(),
            Seq::new(u.len(), |i: int| u[u.len() - 1 - i]),
            recv,
        ),
{
    lemma_names();
    let t = u.reverse();
    assert(t =~= Seq::new(u.len(), |i: int| u[u.len() - 1 - i]));
    assert forall|i: int| 0 <= i < t.len() implies !(0xd800 <= #[trigger] t[i] <= 0xdfff) by {
        assert(t[i] == u[u.len() - 1 - i]);
    }
    lemma_nothing_to_mend(t);
}

// ── Equality of ranges ──────────────────────────────────────────────────────

/// Two ranges are equal when both are empty, or when they have the same first and
/// last element and the same step.
pub proof fn law_range_equality(h: HostView, x: u32, y: u32, a: RangeObj, b: RangeObj, fuel: nat)
    requires
        x != y,
        fuel > 1,
        h.obj(Value::Obj(x)) == Some(ObjView::Range(a)),
        h.obj(Value::Obj(y)) == Some(ObjView::Range(b)),
        a.is_char == b.is_char,
        a.progression == b.progression,
    ensures
        crate::compare::eq_within(h, Value::Obj(x), Value::Obj(y), fuel) == Some(
            (a.is_void() && b.is_void()) || (!a.is_void() && !b.is_void() && a.first == b.first
                && a.last_element() == b.last_element() && a.step == b.step),
        ),
{
}

/// The hash of a range folds its ends, and of a progression its step too.
pub proof fn law_range_hash(r: RangeObj)
    requires
        !r.is_void(),
    ensures
        !r.progression ==> crate::compare::range_hash(r) == ((r.first as i32).wrapping_mul(
            31,
        )).wrapping_add((r.last_element() as i64) as i32),
        r.progression ==> crate::compare::range_hash(r) == (((r.first as i32).wrapping_mul(
            31,
        )).wrapping_add((r.last_element() as i64) as i32).wrapping_mul(31)).wrapping_add(
            r.step as i32,
        ),
{
}

} // verus!
