//! What single values answer: results, messages, rounded numbers and texts by
//! lines, and how two elements are sorted by a comparison.
use crate::hof::CallArgs;
use crate::value::Value;
use crate::walk::Stop;
use vstd::arithmetic::power2::pow2;
use vstd::prelude::*;

verus! {

use crate::builder::builder_member;
use crate::chars::char_member;
use crate::double::{
    exponent, is_infinite, is_nan, is_negative, rounded_half_up, significand, truncated, whole_part,
};
use crate::hof::{
    comparator_of, hof_step, identity, sort_call, NotesView, PlanView, SortingView, StepView,
};
use crate::host::HostView;
use crate::laws::changes::{alike, is_plain, nothing_asked};
use crate::laws::names::lemma_names;
use crate::laws::orders::number_of_bits;
use crate::laws::texts::lemma_first_piece;
use crate::members::universal_member;
use crate::numbers::{less, number_member};
use crate::objects::{component_index, object_walk};
use crate::reply::ReplyView;
use crate::search::starts_with;
use crate::strings::text_member;
use crate::value::ObjView;
use crate::walk::Answers;

// ── Results and throwables ──────────────────────────────────────────────────

proof fn lemma_result_names()
    ensures
        component_index("isSuccess"@) is None,
        component_index("isFailure"@) is None,
        component_index("getOrNull"@) is None,
        component_index("exceptionOrNull"@) is None,
        component_index("message"@) is None,
{
    reveal_strlit("component");
    reveal_strlit("isSuccess");
    assert("isSuccess"@[0] != 'c');
    reveal_strlit("isFailure");
    assert("isFailure"@[0] != 'c');
    reveal_strlit("getOrNull");
    assert("getOrNull"@[0] != 'c');
    reveal_strlit("exceptionOrNull");
    assert("exceptionOrNull"@[0] != 'c');
    reveal_strlit("message");
    assert("message"@[0] != 'c');
    assert("component"@[0] == 'c');
    assert forall|s: Seq<char>| s.len() > 0 && s[0] != 'c' implies component_index(s) is None by {
        if starts_with(s, "component"@) {
            assert(s.subrange(0, 9)[0] == s[0]);
        }
    }
}

/// A result is either a success or a failure: a success has its value and no
/// exception, a failure its exception and no value.
pub proof fn law_results(h: HostView, recv: Value, v: Value, e: Value)
    ensures
        h.obj(recv) == Some(ObjView::Res { value: v, err: None }) ==> {
            &&& object_walk(h, recv, "isSuccess"@, Seq::empty(), nothing_asked()) == Ok::<ReplyView, Stop>(
                ReplyView::Value(Value::Bool(true)),
            )
            &&& object_walk(h, recv, "getOrNull"@, Seq::empty(), nothing_asked()) == Ok::<ReplyView, Stop>(
                ReplyView::Value(v),
            )
        },
        h.obj(recv) == Some(ObjView::Res { value: v, err: Some(e) }) ==> {
            &&& object_walk(h, recv, "isSuccess"@, Seq::empty(), nothing_asked()) == Ok::<ReplyView, Stop>(
                ReplyView::Value(Value::Bool(false)),
            )
            &&& object_walk(h, recv, "getOrNull"@, Seq::empty(), nothing_asked()) == Ok::<ReplyView, Stop>(
                ReplyView::Value(Value::Undef),
            )
        },
{
    lemma_names();
    lemma_result_names();
}

/// The other half of a result.
pub proof fn law_failed_results(h: HostView, recv: Value, v: Value, e: Value)
    ensures
        h.obj(recv) == Some(ObjView::Res { value: v, err: None }) ==> {
            &&& object_walk(h, recv, "isFailure"@, Seq::empty(), nothing_asked()) == Ok::<ReplyView, Stop>(
                ReplyView::Value(Value::Bool(false)),
            )
            &&& object_walk(h, recv, "exceptionOrNull"@, Seq::empty(), nothing_asked()) == Ok::<
                ReplyView,
                Stop,
            >(ReplyView::Value(Value::Undef))
        },
        h.obj(recv) == Some(ObjView::Res { value: v, err: Some(e) }) ==> {
            &&& object_walk(h, recv, "isFailure"@, Seq::empty(), nothing_asked()) == Ok::<ReplyView, Stop>(
                ReplyView::Value(Value::Bool(true)),
            )
            &&& object_walk(h, recv, "exceptionOrNull"@, Seq::empty(), nothing_asked()) == Ok::<
                ReplyView,
                Stop,
            >(ReplyView::Value(e))
        },
{
    lemma_names();
    lemma_result_names();
}

/// The message of a throwable is the one it was made with, or null.
pub proof fn law_messages(h: HostView, recv: Value, class: Seq<char>, m: Seq<char>, log: Answers)
    ensures
        h.obj(recv) == Some(ObjView::Exc { class, msg: Some(m) }) ==> object_walk(
            h,
            recv,
            "message"@,
            Seq::empty(),
            log,
        ) == Ok::<ReplyView, Stop>(ReplyView::Text(m)),
        h.obj(recv) == Some(ObjView::Exc { class, msg: None }) ==> object_walk(
            h,
            recv,
            "message"@,
            Seq::empty(),
            log,
        ) == Ok::<ReplyView, Stop>(ReplyView::Value(Value::Undef)),
{
    lemma_names();
    lemma_result_names();
}

// ── Equality ────────────────────────────────────────────────────────────────

/// `equals` answers whether two values are the same.
pub proof fn law_equals(h: HostView, a: Value, b: Value)
    requires
        is_plain(a),
        is_plain(b),
    ensures
        universal_member(h, a, "equals"@, seq![b], nothing_asked()) == Ok::<
            Option<ReplyView>,
            Stop,
        >(Some(ReplyView::Value(Value::Bool(alike(h, a, b))))),
{
    lemma_names();
    crate::laws::changes::lemma_plain_member(h, a, b, false, crate::compare::budget(h));
}

/// Two characters are equal when they are the same character.
pub proof fn law_character_equality(h: HostView, c: int, d: int)
    requires
        0 <= c <= 0xffff,
        0 <= d <= 0xffff,
        h.heap.len() <= crate::value::CHAR_TAG,
    ensures
        char_member(h, c, "equals"@, seq![crate::value::char_value(d)]) == ReplyView::Value(
            Value::Bool(c == d),
        ),
{
    lemma_names();
    crate::value::law_char_round_trip(c);
    crate::value::law_char_round_trip(d);
    let a = crate::value::char_value(c);
    let b = crate::value::char_value(d);
    assert(crate::compare::eq_within(h, a, b, crate::compare::budget(h)) == Some(c == d));
}

// ── Rounding ────────────────────────────────────────────────────────────────

proof fn lemma_units(bits: u64)
    requires
        !is_nan(bits),
        !is_infinite(bits),
    ensures
        exponent(bits) >= -1074,
        number_of_bits(bits) == (if is_negative(bits) {
            -significand(bits)
        } else {
            significand(bits)
        }) * pow2((exponent(bits) + 1074) as nat),
{
    let s = significand(bits);
    let e = bits as int / 0x10_0000_0000_0000 % 0x800;
    vstd::arithmetic::power2::lemma2_to64();
    assert((-s) * pow2((exponent(bits) + 1074) as nat) == -(s * pow2(
        (exponent(bits) + 1074) as nat,
    ))) by (nonlinear_arith);
    assert(s * 1 == s && (-s) * 1 == -s);
}

/// A double is rounded to the nearest integer, and upward where two are as near: in
/// units of the smallest positive double, what is left out is at most half of what
/// makes one.
pub proof fn law_rounding(bits: u64)
    requires
        !is_nan(bits),
        !is_infinite(bits),
        exponent(bits) < 0,
    ensures
        ({
            let one = pow2(1074) as int;
            let off = 2 * (rounded_half_up(bits) * one - number_of_bits(bits));
            -one < off <= one
        }),
{
    lemma_units(bits);
    let e = exponent(bits);
    let m = if is_negative(bits) {
        -significand(bits)
    } else {
        significand(bits)
    };
    let p = pow2((-e) as nat) as int;
    let k = pow2((e + 1074) as nat) as int;
    vstd::arithmetic::power2::lemma_pow2_pos((-e) as nat);
    vstd::arithmetic::power2::lemma_pow2_pos((e + 1074) as nat);
    vstd::arithmetic::power2::lemma_pow2_adds((-e) as nat, (e + 1074) as nat);
    let n = (2 * m + p) / (2 * p);
    vstd::arithmetic::div_mod::lemma_fundamental_div_mod(2 * m + p, 2 * p);
    vstd::arithmetic::div_mod::lemma_mod_bound(2 * m + p, 2 * p);
    let r = (2 * m + p) % (2 * p);
    assert(2 * (n * (p * k) - m * k) == (p - r) * k) by (nonlinear_arith)
        requires
            2 * m + p == (2 * p) * n + r,
    ;
    assert(-(p * k) < (p - r) * k <= p * k) by (nonlinear_arith)
        requires
            0 <= r < 2 * p,
            k > 0,
            p > 0,
    ;
}

/// A double is cut to the integer before its point: toward zero, by less than one.
pub proof fn law_truncation(bits: u64)
    requires
        !is_nan(bits),
        !is_infinite(bits),
        exponent(bits) < 0,
    ensures
        ({
            let one = pow2(1074) as int;
            let off = number_of_bits(bits) - truncated(bits) * one;
            &&& is_negative(bits) ==> -one < off <= 0
            &&& !is_negative(bits) ==> 0 <= off < one
        }),
{
    lemma_units(bits);
    let e = exponent(bits);
    let s = significand(bits);
    let p = pow2((-e) as nat) as int;
    let k = pow2((e + 1074) as nat) as int;
    vstd::arithmetic::power2::lemma_pow2_pos((-e) as nat);
    vstd::arithmetic::power2::lemma_pow2_pos((e + 1074) as nat);
    vstd::arithmetic::power2::lemma_pow2_adds((-e) as nat, (e + 1074) as nat);
    let q = s / p;
    let r = s % p;
    vstd::arithmetic::div_mod::lemma_fundamental_div_mod(s, p);
    vstd::arithmetic::div_mod::lemma_mod_bound(s, p);
    assert(s * k - q * (p * k) == r * k) by (nonlinear_arith)
        requires
            s == p * q + r,
    ;
    assert(0 <= r * k < p * k) by (nonlinear_arith)
        requires
            0 <= r < p,
            k > 0,
    ;
    assert((-s) * k == -(s * k) && (-q) * (p * k) == -(q * (p * k))) by (nonlinear_arith);
    assert(0 <= q <= s) by (nonlinear_arith)
        requires
            s == p * q + r,
            0 <= r < p,
            s >= 0,
    ;
    assert(whole_part(bits) == q);
    assert(s < 0x20_0000_0000_0000);
}

/// `roundToLong` and `roundToInt` round so; `roundToInt` stops at the ends of what
/// an `Int` can hold, and neither rounds `NaN`.
pub proof fn law_rounding_members(h: HostView, id: usize)
    ensures
        is_nan(h.double(id).bits) ==> (number_member(
            h,
            Value::Float(id),
            "roundToLong"@,
            Seq::empty(),
        ) matches Some(ReplyView::Fault(_))),
        !is_nan(h.double(id).bits) ==> number_member(
            h,
            Value::Float(id),
            "roundToLong"@,
            Seq::empty(),
        ) == Some(
            ReplyView::Value(crate::strings::as_int(rounded_half_up(h.double(id).bits))),
        ),
{
    lemma_names();
}

// ── Lines ───────────────────────────────────────────────────────────────────

/// `lines` cuts a text at its line breaks, with or without a carriage return.
pub proof fn law_lines(
    h: HostView,
    recv: Value,
    a: Seq<char>,
    b: Seq<char>,
    rest: Seq<Seq<char>>,
)
    requires
        forall|i: int| 0 <= i < a.len() ==> a[i] != '\n',
        a.len() > 0 ==> a.last() != '\r',
        text_member(h, recv, b, "lines"@, Seq::empty()) == Some(ReplyView::Texts(rest)),
    ensures
        text_member(h, recv, a, "lines"@, Seq::empty()) == Some(ReplyView::Texts(seq![a])),
        text_member(h, recv, a + seq!['\n'] + b, "lines"@, Seq::empty()) == Some(
            ReplyView::Texts(seq![a] + rest),
        ),
        text_member(h, recv, a + seq!['\r', '\n'] + b, "lines"@, Seq::empty()) == Some(
            ReplyView::Texts(seq![a] + rest),
        ),
{
    lemma_names();
    let n = seq!['\n'];
    let cut = |l: Seq<char>| crate::strings::without_cr(l);
    lemma_first_piece(a, n, b);
    let r = a.push('\r');
    lemma_first_piece(r, n, b);
    assert(r + n + b =~= a + seq!['\r', '\n'] + b);
    assert(r.drop_last() =~= a);
    let ps = crate::search::pieces(b, n);
    assert((seq![a] + ps).map_values(cut) =~= seq![a] + ps.map_values(cut));
    assert((seq![r] + ps).map_values(cut) =~= seq![a] + ps.map_values(cut));
    assert(seq![a].map_values(cut) =~= seq![a]);
}

/// The older names of the members that change a text's case.
pub proof fn law_case(h: HostView, recv: Value, s: Seq<char>)
    ensures
        text_member(h, recv, s, "uppercase"@, Seq::empty()) == Some(
            ReplyView::Text(crate::strings::upper_case(s)),
        ),
        text_member(h, recv, s, "lowercase"@, Seq::empty()) == Some(
            ReplyView::Text(crate::strings::lower_case(s)),
        ),
        text_member(h, recv, s, "toUpperCase"@, Seq::empty()) == text_member(
            h,
            recv,
            s,
            "uppercase"@,
            Seq::empty(),
        ),
        text_member(h, recv, s, "toLowerCase"@, Seq::empty()) == text_member(
            h,
            recv,
            s,
            "lowercase"@,
            Seq::empty(),
        ),
{
    lemma_names();
}

// ── Sorting by a comparison ─────────────────────────────────────────────────

/// A comparison that answers more than nothing puts its first operand behind its
/// second; any other leaves the two as they stand.
pub proof fn law_sorted_with(h: HostView, p: PlanView, x: Value, y: Value, c: i64, log: Answers)
    requires
        p.name == "sortedWith"@,
        p.items == seq![x, y],
        !p.text,
        p.notes.sorting == SortingView::of(2),
        comparator_of(h, p.lambda) is None,
        h.obj(p.recv) matches Some(ObjView::List(_)),
    ensures
        hof_step(h, p, Seq::empty(), log) == Ok::<StepView, Stop>(
            StepView::Call(p.lambda, CallArgs::Two(x, y)),
        ),
        ({
            let s = p.notes.sorting.noted(h, p.lambda, Value::Int(c));
            &&& !s.compares()
            &&& crate::sorting::picked(p.items, s.order) == (if c > 0 {
                seq![y, x]
            } else {
                seq![x, y]
            })
        }),
{
    lemma_names();
    let s = SortingView::of(2);
    assert(identity(2)[0] == 0 && identity(2)[1] == 1);
    let t = s.noted(h, p.lambda, Value::Int(c));
    assert(t == s.decided(c as int));
    assert(crate::sorting::picked(p.items, t.order) =~= if c > 0 {
        seq![y, x]
    } else {
        seq![x, y]
    });
}

/// A comparator of one key asks the key of either element, and orders the elements
/// by what it gave, the other way round where it is a descending one.
pub proof fn law_sorted_by_a_key(
    h: HostView,
    p: PlanView,
    k: Value,
    descending: bool,
    x: Value,
    y: Value,
    a: Value,
    b: Value,
)
    requires
        p.items == seq![x, y],
        p.notes.sorting == SortingView::of(2),
        comparator_of(h, p.lambda) == Some(seq![(k, descending)]),
    ensures
        ({
            let s = p.notes.sorting.noted(h, p.lambda, a);
            let t = s.noted(h, p.lambda, b);
            let ord = crate::types::natural_order(h, a, b);
            &&& sort_call(h, p) == Some((k, CallArgs::One(x)))
            &&& s.compares() && s.first == Some(a)
            &&& !t.compares()
            &&& crate::sorting::picked(p.items, t.order) == (if (!descending && ord > 0) || (
            descending && ord < 0) {
                seq![y, x]
            } else {
                seq![x, y]
            })
        }),
{
    let z = SortingView::of(2);
    assert(identity(2)[0] == 0 && identity(2)[1] == 1);
    let s = z.noted(h, p.lambda, a);
    let t = s.noted(h, p.lambda, b);
    let ord = crate::types::natural_order(h, a, b);
    let swap = (!descending && ord > 0) || (descending && ord < 0);
    assert(crate::sorting::picked(p.items, t.order) =~= if swap {
        seq![y, x]
    } else {
        seq![x, y]
    });
}

// ── Groups ──────────────────────────────────────────────────────────────────

/// One value more for a key that is known makes its group and its count one larger
/// and leaves the others; for a key that is not, it makes a group of one, behind the
/// others.
pub proof fn law_groups(n: NotesView, i: int, k: Value, v: Value, j: int)
    requires
        n.keys.len() == n.groups.len(),
        n.keys.len() < i64::MAX,
        0 <= i <= n.keys.len(),
        i < n.keys.len() ==> n.groups[i].len() < i64::MAX,
        0 <= j < n.keys.len(),
    ensures
        ({
            let m = n.with_value(i, k, v);
            &&& i < n.keys.len() ==> m.keyed()[i] == (n.keys[i], n.groups[i].push(v))
                && m.counted()[i] == (n.keys[i], Value::Int((n.groups[i].len() + 1) as i64))
                && m.keyed().len() == n.keyed().len()
            &&& i == n.keys.len() ==> m.keyed() == n.keyed().push((k, seq![v])) && m.counted()
                == n.counted().push((k, Value::Int(1)))
            &&& j != i ==> m.keyed()[j] == n.keyed()[j] && m.counted()[j] == n.counted()[j]
        }),
{
    let m = n.with_value(i, k, v);
    if i == n.keys.len() {
        assert(m.keyed() =~= n.keyed().push((k, seq![v])));
        assert(m.counted() =~= n.counted().push((k, Value::Int(1))));
    }
}

// ── Buckets ─────────────────────────────────────────────────────────────────

/// A hash table spreads a hash before it picks the bucket: the upper half stays, and
/// is mixed into the lower half, so that a hash of the lower half alone is itself.
pub proof fn law_spreading(hash: i32, n: nat)
    ensures
        crate::order::spread(hash) / 0x10000 == (hash as u32) / 0x10000,
        crate::order::spread(hash) % 0x10000 == ((hash as u32) % 0x10000) ^ ((hash as u32)
            / 0x10000),
        0 <= hash < 0x10000 && n > 0 ==> crate::order::bucket(hash, n) == hash as int % n as int,
{
    let u = hash as u32;
    assert((u ^ (u >> 16u32)) / 0x10000 == u / 0x10000 && (u ^ (u >> 16u32)) % 0x10000 == ((u
        % 0x10000) ^ (u / 0x10000)) && (u < 0x10000 ==> (u ^ (u >> 16u32)) == u)) by (bit_vector);
}

// ── Enum constants ──────────────────────────────────────────────────────────

/// Constants of an `enum` are compared by their ordinals.
pub proof fn law_enum_order(h: HostView, a: Value, b: Value, x: i64, y: i64)
    requires
        crate::types::ordinal_of(h, a) == Some(x as int),
        crate::types::ordinal_of(h, b) == Some(y as int),
        i64::MIN <= x - y <= i64::MAX,
    ensures
        object_walk(h, a, "compareTo"@, seq![b], nothing_asked()) == Ok::<ReplyView, Stop>(
            ReplyView::Value(Value::Int((x - y) as i64)),
        ),
{
    lemma_names();
    reveal_strlit("compareTo");
    reveal_strlit("component");
    assert("compareTo"@.subrange(0, 9)[4] == 'a' && "component"@[4] == 'o');
}

// ── Doubles in bounds ───────────────────────────────────────────────────────

/// A double below its lower bound becomes the bound, one above its upper bound that,
/// and any other stays.
pub proof fn law_double_coercion(h: HostView, v: usize, lo: usize, hi: usize)
    requires
        !less(h.double(hi).bits, h.double(lo).bits),
    ensures
        ({
            let r = number_member(
                h,
                Value::Float(v),
                "coerceIn"@,
                seq![Value::Float(lo), Value::Float(hi)],
            );
            let (x, l, g) = (h.double(v).bits, h.double(lo).bits, h.double(hi).bits);
            &&& less(x, l) ==> r == Some(ReplyView::Value(Value::Float(lo)))
            &&& !less(x, l) && less(g, x) ==> r == Some(ReplyView::Value(Value::Float(hi)))
            &&& !less(x, l) && !less(g, x) ==> r == Some(ReplyView::Value(Value::Float(v)))
        }),
{
    lemma_names();
}

/// The sign of a double that is neither zero nor `NaN` is one with the sign of the
/// double.
pub proof fn law_double_sign(h: HostView, v: usize)
    requires
        !is_nan(h.double(v).bits),
        crate::double::magnitude_bits(h.double(v).bits) != 0,
    ensures
        number_member(h, Value::Float(v), "sign"@, Seq::empty()) matches Some(ReplyView::Number(d))
            && crate::double::magnitude_bits(d.bits) == 0x3ff0_0000_0000_0000 && is_negative(d.bits)
            == is_negative(h.double(v).bits),
{
    lemma_names();
}

// ── Builders ────────────────────────────────────────────────────────────────

/// `deleteAt` is another name of `deleteCharAt`, and `trimToSize` leaves the text.
pub proof fn law_builder_names(h: HostView, recv: Value, u: Seq<u16>, cap: int, n: i64)
    ensures
        builder_member(h, recv, u, cap, "deleteAt"@, seq![Value::Int(n)]) == builder_member(
            h,
            recv,
            u,
            cap,
            "deleteCharAt"@,
            seq![Value::Int(n)],
        ),
        builder_member(h, recv, u, cap, "trimToSize"@, Seq::empty()) matches Some(
            ReplyView::Update(r, ObjView::Builder { units, .. }, _),
        ) && r == recv && units == u,
        builder_member(h, recv, u, cap, "ensureCapacity"@, seq![Value::Int(n)]) matches Some(
            ReplyView::Update(r, ObjView::Builder { units, .. }, _),
        ) && r == recv && units == u,
{
    lemma_names();
}

/// `appendRange` puts a part of a text behind, `insertRange` puts it in at a place.
pub proof fn law_builder_ranges(
    h: HostView,
    recv: Value,
    a: Seq<u16>,
    b: Seq<u16>,
    cap: int,
    x: usize,
    n: i64,
    from: i64,
    to: i64,
)
    requires
        n == a.len(),
        0 <= from <= to <= crate::utf16::units_of(h.text(x)).len(),
    ensures
        ({
            let part = crate::utf16::units_of(h.text(x)).subrange(from as int, to as int);
            &&& builder_member(
                h,
                recv,
                a,
                cap,
                "appendRange"@,
                seq![Value::Str(x), Value::Int(from), Value::Int(to)],
            ) matches Some(ReplyView::Update(_, ObjView::Builder { units, .. }, _)) && units == a
                + part
            &&& builder_member(
                h,
                recv,
                a + b,
                cap,
                "insertRange"@,
                seq![Value::Int(n), Value::Str(x), Value::Int(from), Value::Int(to)],
            ) matches Some(ReplyView::Update(_, ObjView::Builder { units, .. }, _)) && units == a
                + part + b
        }),
{
    lemma_names();
    let part = crate::utf16::units_of(h.text(x)).subrange(from as int, to as int);
    assert(a.take(a.len() as int) =~= a);
    assert(a.skip(a.len() as int) =~= Seq::<u16>::empty());
    assert(a + part + Seq::<u16>::empty() =~= a + part);
    assert((a + b).take(a.len() as int) =~= a);
    assert((a + b).skip(a.len() as int) =~= b);
}

} // verus!
