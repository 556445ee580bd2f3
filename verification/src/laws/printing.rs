//! What a program may rely on when it prints a value.
use crate::host::HostView;
use crate::range::RangeObj;
use crate::value::{DoubleView, ObjView, Value};
use vstd::prelude::*;

verus! {

use crate::compare::{budget, data_fields};
use crate::display::{
    render, render_element, render_entries, render_fields, render_items, render_throwable,
    text_of,
};
use crate::double::{
    double_text, fixed_text, fraction_digits, incremented, is_decimal, is_infinite, is_nan,
    is_negative, kept_digits, law_incremented_adds_one, magnitude_bits, whole_digits, zeros,
};
use crate::lexer::{digit_value, digits_number};
use crate::search::{joined, lemma_joined_front};
use crate::utf16::text_of_units;
use crate::value::code_of;

// ── Integers ────────────────────────────────────────────────────────────────

/// An integer prints as its decimal digits: one digit alone for a number below
/// ten, one digit behind the others for every tenfold, and a minus sign in front of
/// what is less than nothing.
pub proof fn law_integers(h: HostView, n: i64, m: i64, d: i64)
    requires
        0 <= d < 10,
    ensures
        text_of(h, Value::Int(d)) == seq![('0' as int + d) as char],
        m > 0 && n == 10 * m + d ==> text_of(h, Value::Int(n)) == text_of(h, Value::Int(m)).push(
            ('0' as int + d) as char,
        ),
        m > 0 && n == -m ==> text_of(h, Value::Int(n)) == seq!['-'] + text_of(h, Value::Int(m)),
{
    if m > 0 && n == 10 * m + d {
        assert(n as nat / 10 == m as nat && n as nat % 10 == d as nat);
    }
}

/// Null and the truth values print as their names, and a text as itself.
pub proof fn law_words(h: HostView, id: usize)
    ensures
        text_of(h, Value::Undef) == "null"@,
        text_of(h, Value::Bool(true)) == "true"@,
        text_of(h, Value::Bool(false)) == "false"@,
        text_of(h, Value::Str(id)) == h.text(id),
{
}

/// A character prints as itself.
pub proof fn law_characters(h: HostView, v: Value, c: char)
    requires
        code_of(v) == Some(c as int),
    ensures
        text_of(h, v) == seq![c],
{
    crate::text::lemma_char_code(c);
}

// ── Doubles ─────────────────────────────────────────────────────────────────

/// Ten to the power of `n`.
pub open spec fn ten_to(n: nat) -> int
    decreases n,
{
    if n == 0 {
        1
    } else {
        10 * ten_to((n - 1) as nat)
    }
}

/// A double that is neither zero, nor infinite, nor `NaN`, whose shortest decimal
/// form is `d.ddd` times ten to the power of its exponent.
pub open spec fn is_ordinary(d: DoubleView) -> bool {
    &&& !is_nan(d.bits)
    &&& !is_infinite(d.bits)
    &&& magnitude_bits(d.bits) != 0
    &&& is_decimal(d.digits)
    &&& d.digits.len() > 0
}

proof fn lemma_zeros_behind(s: Seq<char>, k: nat)
    ensures
        digits_number(s + zeros(k as int), 10) == digits_number(s, 10) * ten_to(k),
    decreases k,
{
    let t = s + zeros(k as int);
    if k == 0 {
        assert(t =~= s);
    } else {
        lemma_zeros_behind(s, (k - 1) as nat);
        assert(t.drop_last() =~= s + zeros(k - 1));
        assert(t.last() == '0');
        assert(digits_number(s, 10) * ten_to((k - 1) as nat) * 10 == digits_number(s, 10) * (10
            * ten_to((k - 1) as nat))) by (nonlinear_arith);
    }
}

proof fn lemma_zeros_before(k: nat, s: Seq<char>)
    ensures
        digits_number(zeros(k as int) + s, 10) == digits_number(s, 10),
    decreases k + s.len(),
{
    let t = zeros(k as int) + s;
    if s.len() > 0 {
        lemma_zeros_before(k, s.drop_last());
        assert(t.drop_last() =~= zeros(k as int) + s.drop_last());
    } else if k > 0 {
        lemma_zeros_before((k - 1) as nat, s);
        assert(t.drop_last() =~= zeros(k - 1) + s);
        assert(t.last() == '0');
    } else {
        assert(t =~= s);
    }
}

/// A double from a thousandth up to ten million prints as a plain decimal: what
/// stands before and behind the point writes the number exactly, with at least one
/// digit on either side.
pub proof fn law_plain_doubles(d: DoubleView) -> (r: (Seq<char>, Seq<char>))
    requires
        is_ordinary(d),
        !is_negative(d.bits),
        -3 <= d.exp10 < 7,
    ensures
        double_text(d) == r.0 + seq!['.'] + r.1,
        is_decimal(r.0) && is_decimal(r.1),
        r.0.len() == (if d.exp10 < 0 {
            1
        } else {
            d.exp10 + 1
        }),
        r.1.len() > 0,
        r.1.len() + d.exp10 + 1 >= d.digits.len(),
        digits_number(r.0 + r.1, 10) == digits_number(d.digits, 10) * ten_to(
            (r.1.len() + d.exp10 + 1 - d.digits.len()) as nat,
        ),
{
    let e = d.exp10;
    let w = whole_digits(d.digits, e);
    let f = crate::double::or_zero(fraction_digits(d.digits, e));
    if e < 0 {
        assert(w + f =~= zeros(-e) + d.digits);
        lemma_zeros_before((-e) as nat, d.digits);
    } else if d.digits.len() <= e + 1 {
        assert(w + f =~= d.digits + zeros(e + 2 - d.digits.len()));
        lemma_zeros_behind(d.digits, (e + 2 - d.digits.len()) as nat);
    } else {
        assert(w + f =~= d.digits);
    }
    (w, f)
}

/// Any other magnitude prints with one digit before the point and the power of ten
/// behind an `E`.
pub proof fn law_scientific_doubles(d: DoubleView) -> (r: (Seq<char>, Seq<char>))
    requires
        is_ordinary(d),
        !is_negative(d.bits),
        d.exp10 < -3 || d.exp10 >= 7,
    ensures
        double_text(d) == r.0 + seq!['.'] + r.1 + seq!['E'] + crate::radix::decimal(d.exp10),
        is_decimal(r.0) && is_decimal(r.1),
        r.0.len() == 1,
        r.1.len() > 0,
        r.1.len() + 1 >= d.digits.len(),
        digits_number(r.0 + r.1, 10) == digits_number(d.digits, 10) * ten_to(
            (r.1.len() + 1 - d.digits.len()) as nat,
        ),
{
    let w = crate::double::or_zero(crate::double::first_digits(d.digits, 1));
    let f = crate::double::or_zero(crate::double::digits_after(d.digits, 1));
    if d.digits.len() == 1 {
        assert(w + f =~= d.digits + zeros(1));
        lemma_zeros_behind(d.digits, 1);
    } else {
        assert(w + f =~= d.digits);
    }
    (w, f)
}

/// A double below zero prints as its magnitude behind a minus sign.
pub proof fn law_negative_doubles(a: DoubleView, b: DoubleView)
    requires
        is_ordinary(a) && is_ordinary(b),
        is_negative(a.bits) && !is_negative(b.bits),
        a.digits == b.digits && a.exp10 == b.exp10,
    ensures
        double_text(a) == seq!['-'] + double_text(b),
{
}

/// The doubles that have no digits of their own print as their names, and zero with
/// its sign.
pub proof fn law_special_doubles(d: DoubleView)
    ensures
        is_nan(d.bits) ==> double_text(d) == "NaN"@,
        !is_nan(d.bits) && is_infinite(d.bits) && !is_negative(d.bits) ==> double_text(d)
            == "Infinity"@,
        !is_nan(d.bits) && is_infinite(d.bits) && is_negative(d.bits) ==> double_text(d)
            == "-Infinity"@,
        magnitude_bits(d.bits) == 0 && !is_negative(d.bits) ==> double_text(d) == "0.0"@,
        magnitude_bits(d.bits) == 0 && is_negative(d.bits) ==> double_text(d) == "-0.0"@,
{
}

proof fn lemma_digits_split(s: Seq<char>, k: int)
    requires
        is_decimal(s),
        0 <= k <= s.len(),
    ensures
        digits_number(s, 10) == digits_number(s.take(k), 10) * ten_to((s.len() - k) as nat)
            + digits_number(s.skip(k), 10),
        0 <= digits_number(s.skip(k), 10) < ten_to((s.len() - k) as nat),
    decreases s.len() - k,
{
    if k == s.len() {
        assert(s.take(k) =~= s);
        assert(s.skip(k) =~= Seq::<char>::empty());
    } else {
        let t = s.drop_last();
        lemma_digits_split(t, k);
        assert(t.take(k) =~= s.take(k));
        assert(t.skip(k) =~= s.skip(k).drop_last());
        assert(s.skip(k).last() == s.last());
        let a = digits_number(s.take(k), 10);
        let p = ten_to((t.len() - k) as nat);
        assert((a * p) * 10 == a * (10 * p)) by (nonlinear_arith);
        assert(0 <= digit_value(s.last()) < 10) by {
            assert('0' <= s[s.len() - 1] <= '9');
        }
    }
}

proof fn lemma_rounded(s: Seq<char>, keep: int)
    requires
        is_decimal(s),
        0 <= keep < s.len(),
    ensures
        ({
            let unit = ten_to((s.len() - keep) as nat);
            let n = digits_number(kept_digits(s, keep), 10) * unit - digits_number(s, 10);
            -unit < 2 * n <= unit
        }),
        is_decimal(kept_digits(s, keep)),
{
    lemma_digits_split(s, keep);
    let tail = s.skip(keep);
    lemma_digits_split(tail, 1);
    let unit = ten_to((s.len() - keep) as nat);
    let rest = ten_to((tail.len() - 1) as nat);
    assert(unit == 10 * rest);
    assert(tail.take(1) =~= seq![s[keep]]);
    assert(seq![s[keep]].drop_last() =~= Seq::<char>::empty());
    let first = digit_value(s[keep]);
    assert('0' <= s[keep] <= '9');
    assert(digits_number(Seq::<char>::empty(), 10) == 0);
    assert(digits_number(seq![s[keep]], 10) == first);
    let head = digits_number(s.take(keep), 10);
    if s[keep] >= '5' {
        law_incremented_adds_one(s.take(keep));
        assert((head + 1) * unit == head * unit + unit) by (nonlinear_arith);
        assert(2 * (first * rest) >= 10 * rest) by (nonlinear_arith)
            requires
                first >= 5,
                rest >= 0,
        ;
    } else {
        assert(2 * (first * rest) <= 8 * rest) by (nonlinear_arith)
            requires
                0 <= first <= 4,
                rest >= 0,
        ;
    }
}

/// `%.{prec}f` writes exactly `prec` digits behind the point, and the number they
/// write is the nearest that so many digits can: what is left out is at most half a
/// unit of the last digit, and a half is rounded up.
pub proof fn law_fixed_doubles(d: DoubleView, prec: nat) -> (r: (Seq<char>, Seq<char>))
    requires
        is_ordinary(d),
        !is_negative(d.bits),
    ensures
        fixed_text(d, prec as int) == (if prec == 0 {
            r.0
        } else {
            r.0 + seq!['.'] + r.1
        }),
        r.1.len() == prec,
        ({
            let written = digits_number(r.0 + r.1, 10);
            let value = digits_number(d.digits, 10);
            let shift = d.digits.len() - d.exp10 - 1 - prec;
            if shift <= 0 {
                written == value * ten_to((-shift) as nat)
            } else {
                let unit = ten_to(shift as nat);
                -unit < 2 * (written * unit - value) <= unit
            }
        }),
{
    let w = whole_digits(d.digits, d.exp10);
    let s = w + fraction_digits(d.digits, d.exp10);
    let keep = (w.len() + prec) as int;
    let all = kept_digits(s, keep);
    lemma_all_digits(d, prec);
    lemma_kept_len(s, keep);
    let r = (all.take(all.len() - prec), all.skip(all.len() - prec));
    assert(r.0 + r.1 =~= all);
    assert(prec == 0 ==> r.0 =~= all);
    r
}

proof fn lemma_all_digits(d: DoubleView, prec: nat)
    requires
        is_decimal(d.digits),
        d.digits.len() > 0,
    ensures
        ({
            let w = whole_digits(d.digits, d.exp10);
            let s = w + fraction_digits(d.digits, d.exp10);
            let written = digits_number(kept_digits(s, (w.len() + prec) as int), 10);
            let value = digits_number(d.digits, 10);
            let shift = d.digits.len() - d.exp10 - 1 - prec;
            if shift <= 0 {
                written == value * ten_to((-shift) as nat)
            } else {
                let unit = ten_to(shift as nat);
                -unit < 2 * (written * unit - value) <= unit
            }
        }),
{
    let e = d.exp10;
    let w = whole_digits(d.digits, e);
    let s = w + fraction_digits(d.digits, e);
    let keep = (w.len() + prec) as int;
    let shift = d.digits.len() - e - 1 - prec;
    if e >= 0 && d.digits.len() <= e + 1 {
        assert(s =~= d.digits + zeros(e + 1 - d.digits.len()));
        assert(kept_digits(s, keep) =~= d.digits + zeros(-shift));
        lemma_zeros_behind(d.digits, (-shift) as nat);
    } else {
        if e < 0 {
            assert(s =~= zeros(-e) + d.digits);
            lemma_zeros_before((-e) as nat, d.digits);
        } else {
            assert(s =~= d.digits);
        }
        assert(s.len() - keep == shift);
        if shift <= 0 {
            assert(kept_digits(s, keep) =~= s + zeros(-shift));
            lemma_zeros_behind(s, (-shift) as nat);
        } else {
            assert(is_decimal(s));
            lemma_rounded(s, keep);
        }
    }
}

proof fn lemma_kept_len(s: Seq<char>, keep: int)
    requires
        0 <= keep,
    ensures
        kept_digits(s, keep).len() >= keep,
{
    if s.len() > keep && s[keep] >= '5' {
        lemma_incremented_len(s.take(keep));
    }
}

proof fn lemma_incremented_len(s: Seq<char>)
    ensures
        incremented(s).len() >= s.len(),
    decreases s.len(),
{
    if s.len() > 0 && s.last() == '9' {
        lemma_incremented_len(s.drop_last());
    }
}

// ── Containers ──────────────────────────────────────────────────────────────

/// The printed forms of some values.
pub open spec fn texts_of(h: HostView, items: Seq<Value>) -> Seq<Seq<char>> {
    items.map_values(|v: Value| text_of(h, v))
}

/// Whether none of some values is a heap object.
pub open spec fn are_scalars(h: HostView, items: Seq<Value>) -> bool {
    forall|i: int| 0 <= i < items.len() ==> h.obj(#[trigger] items[i]) is None && !(
    items[i] is Obj && code_of(items[i]) is None)
}

proof fn lemma_alone(h: HostView, v: Value, stack: Seq<u32>, fuel: nat)
    requires
        h.obj(v) is None,
    ensures
        render(h, v, stack, fuel).0 == text_of(h, v),
{
}

proof fn lemma_scalar(h: HostView, v: Value, in_map: bool, stack: Seq<u32>, fuel: nat)
    requires
        h.obj(v) is None,
        v is Obj ==> code_of(v) is Some,
        stack.len() > 0 && code_of(Value::Obj(stack.last())) is None,
    ensures
        render(h, v, stack, fuel).0 == text_of(h, v),
        render_element(h, v, in_map, stack, fuel).0 == text_of(h, v),
{
}

proof fn lemma_items(h: HostView, items: Seq<Value>, i: int, stack: Seq<u32>, fuel: nat)
    requires
        are_scalars(h, items),
        0 <= i <= items.len(),
        stack.len() > 0 && code_of(Value::Obj(stack.last())) is None,
    ensures
        render_items(h, items, i, stack, fuel).0 == joined(texts_of(h, items.skip(i)), ", "@),
    decreases items.len() - i,
{
    let ts = texts_of(h, items.skip(i));
    if i < items.len() {
        lemma_scalar(h, items[i], false, stack, fuel);
        lemma_items(h, items, i + 1, stack, fuel);
        let rest = texts_of(h, items.skip(i + 1));
        assert(ts =~= seq![text_of(h, items[i])] + rest);
        if i + 1 < items.len() {
            lemma_joined_front(text_of(h, items[i]), rest, ", "@);
            assert(text_of(h, items[i]) + ", "@ + joined(rest, ", "@) =~= joined(ts, ", "@));
        } else {
            assert(rest.len() == 0);
            assert(ts.len() == 1 && ts[0] == text_of(h, items[i]));
            assert(text_of(h, items[i]) + Seq::<char>::empty() + Seq::<char>::empty()
                =~= text_of(h, items[i]));
        }
    }
}

/// A list or a set prints its elements in order between brackets, a comma and a
/// blank between any two.
pub proof fn law_lists_and_sets(h: HostView, v: Value, items: Seq<Value>)
    requires
        code_of(v) is None,
        h.obj(v) == Some(ObjView::List(items)) || h.obj(v) == Some(ObjView::SetObj(items)),
        are_scalars(h, items),
    ensures
        text_of(h, v) == "["@ + joined(texts_of(h, items), ", "@) + "]"@,
{
    let inner = Seq::<u32>::empty().push(v->Obj_0);
    assert(inner.last() == v->Obj_0);
    lemma_items(h, items, 0, inner, budget(h));
    assert(items.skip(0) =~= items);
}

proof fn lemma_entries(h: HostView, es: Seq<(Value, Value)>, i: int, stack: Seq<u32>, fuel: nat)
    requires
        are_scalars(h, es.map_values(|e: (Value, Value)| e.0)),
        are_scalars(h, es.map_values(|e: (Value, Value)| e.1)),
        0 <= i <= es.len(),
        stack.len() > 0 && code_of(Value::Obj(stack.last())) is None,
    ensures
        render_entries(h, es, i, stack, fuel).0 == joined(entry_texts(h, es.skip(i)), ", "@),
    decreases es.len() - i,
{
    let ts = entry_texts(h, es.skip(i));
    if i < es.len() {
        assert(es.map_values(|e: (Value, Value)| e.0)[i] == es[i].0);
        assert(es.map_values(|e: (Value, Value)| e.1)[i] == es[i].1);
        lemma_scalar(h, es[i].0, true, stack, fuel);
        lemma_scalar(h, es[i].1, true, stack, fuel);
        lemma_entries(h, es, i + 1, stack, fuel);
        let rest = entry_texts(h, es.skip(i + 1));
        let one = text_of(h, es[i].0) + "="@ + text_of(h, es[i].1);
        assert(ts =~= seq![one] + rest);
        if i + 1 < es.len() {
            lemma_joined_front(one, rest, ", "@);
            assert(one + ", "@ + joined(rest, ", "@) =~= joined(ts, ", "@));
        } else {
            assert(rest.len() == 0);
            assert(ts.len() == 1 && ts[0] == one);
            assert(one + Seq::<char>::empty() + Seq::<char>::empty() =~= one);
        }
    }
}

/// The printed forms of some entries: each key, `=`, and its value.
pub open spec fn entry_texts(h: HostView, es: Seq<(Value, Value)>) -> Seq<Seq<char>> {
    es.map_values(|e: (Value, Value)| text_of(h, e.0) + "="@ + text_of(h, e.1))
}

/// A map prints its entries in order between braces.
pub proof fn law_maps(h: HostView, v: Value, es: Seq<(Value, Value)>)
    requires
        code_of(v) is None,
        h.obj(v) == Some(ObjView::MapObj(es)),
        are_scalars(h, es.map_values(|e: (Value, Value)| e.0)),
        are_scalars(h, es.map_values(|e: (Value, Value)| e.1)),
    ensures
        text_of(h, v) == "{"@ + joined(entry_texts(h, es), ", "@) + "}"@,
{
    let inner = Seq::<u32>::empty().push(v->Obj_0);
    assert(inner.last() == v->Obj_0);
    lemma_entries(h, es, 0, inner, budget(h));
    assert(es.skip(0) =~= es);
}

/// A collection that holds itself prints a placeholder in its own place.
pub proof fn law_collections_in_themselves(h: HostView, v: Value, k: Value)
    requires
        code_of(v) is None,
        are_scalars(h, seq![k]),
    ensures
        h.obj(v) == Some(ObjView::List(seq![v])) ==> text_of(h, v) == "["@ + "(this Collection)"@
            + "]"@,
        h.obj(v) == Some(ObjView::MapObj(seq![(k, v)])) ==> text_of(h, v) == "{"@ + (text_of(h, k)
            + "="@ + "(this Map)"@) + "}"@,
{
    let inner = Seq::<u32>::empty().push(v->Obj_0);
    let none = Seq::<char>::empty();
    if h.obj(v) == Some(ObjView::List(seq![v])) {
        assert(render_element(h, v, false, inner, budget(h)).0 == "(this Collection)"@);
        assert(render_items(h, seq![v], 1, inner, budget(h)).0 =~= none);
        assert(render_items(h, seq![v], 0, inner, budget(h)).0 =~= "(this Collection)"@ + none
            + none);
        assert("(this Collection)"@ + none + none =~= "(this Collection)"@);
    }
    if h.obj(v) == Some(ObjView::MapObj(seq![(k, v)])) {
        assert(h.obj(seq![k][0]) is None);
        lemma_scalar(h, k, true, inner, budget(h));
        assert(render_element(h, v, true, inner, budget(h)).0 == "(this Map)"@);
        assert(render_entries(h, seq![(k, v)], 1, inner, budget(h)).0 =~= none);
        assert(render_entries(h, seq![(k, v)], 0, inner, budget(h)).0 =~= text_of(h, k) + "="@
            + "(this Map)"@ + none + none);
        assert(text_of(h, k) + "="@ + "(this Map)"@ + none + none =~= text_of(h, k) + "="@
            + "(this Map)"@);
    }
}

/// Pairs and triples print between parentheses, a map entry as `key=value`.
pub proof fn law_tuples(h: HostView, v: Value, a: Value, b: Value, c: Value)
    requires
        code_of(v) is None,
        are_scalars(h, seq![a, b, c]),
        h.heap.len() > 1,
    ensures
        h.obj(v) == Some(ObjView::Pair(a, b)) ==> text_of(h, v) == "("@ + text_of(h, a) + ", "@
            + text_of(h, b) + ")"@,
        h.obj(v) == Some(ObjView::Triple(a, b, c)) ==> text_of(h, v) == "("@ + text_of(h, a)
            + ", "@ + text_of(h, b) + ", "@ + text_of(h, c) + ")"@,
        h.obj(v) == Some(ObjView::Entry(a, b)) ==> text_of(h, v) == text_of(h, a) + "="@ + text_of(
            h,
            b,
        ),
{
    let s = seq![a, b, c];
    assert(h.obj(s[0]) is None && h.obj(s[1]) is None && h.obj(s[2]) is None);
    let rest = (budget(h) - 1) as nat;
    lemma_alone(h, a, Seq::empty(), rest);
    lemma_alone(h, b, Seq::empty(), rest);
    lemma_alone(h, c, Seq::empty(), rest);
}

/// A result prints what it holds behind whether it is a success or a failure, and a
/// lazy value what it has, if it has it.
pub proof fn law_results_and_lazies(
    h: HostView,
    v: Value,
    a: Value,
    e: Value,
    class: Seq<char>,
    m: Seq<char>,
    thunk: Value,
)
    requires
        code_of(v) is None,
        are_scalars(h, seq![a]),
        h.heap.len() > 1,
        h.obj(e) == Some(ObjView::Exc { class, msg: Some(m) }),
    ensures
        h.obj(v) == Some(ObjView::Res { value: a, err: None }) ==> text_of(h, v) == "Success("@
            + text_of(h, a) + ")"@,
        h.obj(v) == Some(ObjView::Res { value: a, err: Some(e) }) ==> text_of(h, v) == "Failure("@
            + (class + ": "@ + m) + ")"@,
        h.obj(v) == Some(ObjView::Lazy { thunk, cached: Some(a) }) ==> text_of(h, v) == text_of(
            h,
            a,
        ),
        h.obj(v) == Some(ObjView::Lazy { thunk, cached: None }) ==> text_of(h, v)
            == "Lazy value not initialized yet."@,
{
    assert(h.obj(seq![a][0]) is None);
    let rest = (budget(h) - 1) as nat;
    lemma_alone(h, a, Seq::empty(), rest);
    assert(render_throwable(h, e, Seq::empty(), rest).0 == class + ": "@ + m);
}

/// A throwable prints its class, and its message behind a colon.
pub proof fn law_throwables(h: HostView, v: Value, class: Seq<char>, m: Seq<char>)
    requires
        code_of(v) is None,
    ensures
        h.obj(v) == Some(ObjView::Exc { class, msg: Some(m) }) ==> text_of(h, v) == class + ": "@
            + m,
        h.obj(v) == Some(ObjView::Exc { class, msg: None }) ==> text_of(h, v) == class,
{
}

/// A string builder prints what was appended to it.
pub proof fn law_builders(h: HostView, v: Value, o: ObjView)
    requires
        code_of(v) is None,
        h.obj(v) == Some(o),
    ensures
        o matches ObjView::Builder { units, .. } ==> text_of(h, v) == text_of_units(units),
{
}

/// A range prints its ends with two dots between them; a progression says how it
/// goes and by how much.
pub proof fn law_ranges(h: HostView, v: Value, r: RangeObj)
    requires
        code_of(v) is None,
        h.obj(v) == Some(ObjView::Range(r)),
        !r.is_char,
    ensures
        !r.progression ==> text_of(h, v) == text_of(h, Value::Int(r.first)) + ".."@ + text_of(
            h,
            Value::Int(r.end),
        ),
        r.progression && r.step > 0 ==> text_of(h, v) == text_of(h, Value::Int(r.first)) + ".."@
            + crate::radix::decimal(r.last_element()) + " step "@ + text_of(h, Value::Int(r.step)),
        r.progression && r.step < 0 ==> text_of(h, v) == text_of(h, Value::Int(r.first))
            + " downTo "@ + crate::radix::decimal(r.last_element()) + " step "@
            + crate::radix::decimal(-r.step),
{
}

/// A range of characters prints the characters.
pub proof fn law_character_ranges(h: HostView, v: Value, r: RangeObj, a: char, b: char)
    requires
        code_of(v) is None,
        h.obj(v) == Some(ObjView::Range(r)),
        r.is_char && !r.progression,
        r.first == a as int && r.end == b as int,
        (a as int) < 0x10000 && (b as int) < 0x10000,
    ensures
        text_of(h, v) == seq![a] + ".."@ + seq![b],
{
    crate::text::lemma_char_code(a);
    crate::text::lemma_char_code(b);
}

// ── Instances ───────────────────────────────────────────────────────────────

/// The printed forms of some properties: each name, `=`, and its value.
pub open spec fn property_texts(h: HostView, fs: Seq<(Seq<char>, Value)>) -> Seq<Seq<char>> {
    fs.map_values(|f: (Seq<char>, Value)| f.0 + "="@ + text_of(h, f.1))
}

proof fn lemma_fields(
    h: HostView,
    fs: Seq<(Seq<char>, Value)>,
    i: int,
    stack: Seq<u32>,
    fuel: nat,
)
    requires
        are_scalars(h, fs.map_values(|f: (Seq<char>, Value)| f.1)),
        0 <= i <= fs.len(),
        stack.len() > 0 && code_of(Value::Obj(stack.last())) is None,
    ensures
        render_fields(h, fs, i, stack, fuel).0 == joined(property_texts(h, fs.skip(i)), ", "@),
    decreases fs.len() - i,
{
    let ts = property_texts(h, fs.skip(i));
    if i < fs.len() {
        assert(fs.map_values(|f: (Seq<char>, Value)| f.1)[i] == fs[i].1);
        lemma_scalar(h, fs[i].1, false, stack, fuel);
        lemma_fields(h, fs, i + 1, stack, fuel);
        let rest = property_texts(h, fs.skip(i + 1));
        let one = fs[i].0 + "="@ + text_of(h, fs[i].1);
        assert(ts =~= seq![one] + rest);
        if i + 1 < fs.len() {
            lemma_joined_front(one, rest, ", "@);
            assert(one + ", "@ + joined(rest, ", "@) =~= joined(ts, ", "@));
        } else {
            assert(rest.len() == 0);
            assert(ts.len() == 1 && ts[0] == one);
            assert(one + Seq::<char>::empty() + Seq::<char>::empty() =~= one);
        }
    }
}

/// An instance of a data class prints its class and, between parentheses, the
/// properties of its constructor with their names.
pub proof fn law_data_instances(
    h: HostView,
    v: Value,
    class: Seq<char>,
    fields: Seq<(Seq<char>, Value)>,
    from: int,
    len: int,
)
    requires
        code_of(v) is None,
        h.obj(v) == Some(
            ObjView::Instance { class, is_data: true, fields, data_from: from, data_len: len },
        ),
        are_scalars(
            h,
            data_fields(fields, from, len).map_values(|f: (Seq<char>, Value)| f.1),
        ),
    ensures
        text_of(h, v) == class + "("@ + joined(
            property_texts(h, data_fields(fields, from, len)),
            ", "@,
        ) + ")"@,
{
    let inner = Seq::<u32>::empty().push(v->Obj_0);
    assert(inner.last() == v->Obj_0);
    let own = data_fields(fields, from, len);
    lemma_fields(h, own, 0, inner, budget(h));
    assert(own.skip(0) =~= own);
}

} // verus!
