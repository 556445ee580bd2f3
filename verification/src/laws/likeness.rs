//! When two values are equal, and what their hashes are.
use crate::value::Value;
use vstd::prelude::*;

verus! {

use crate::compare::{
    all_eq_within, any_eq_within, data_fields, data_hash_within, each_in_within,
    entries_hash_within, eq_within, field_values, fold_hash_within, hash_within, is_identical,
    obj_hash_within, sum_hash_within, text_hash,
};
use crate::host::HostView;
use crate::laws::orders::is_finite;
use crate::utf16::{char_units, units_of};
use crate::value::{char_value, code_of, ObjView};

/// Whether `a` and `b` were compared in full and found equal.
pub open spec fn equals(h: HostView, a: Value, b: Value, fuel: nat) -> bool {
    eq_within(h, a, b, fuel) == Some(true)
}

/// Whether `a` and `b` were compared in full and found different.
pub open spec fn differs(h: HostView, a: Value, b: Value, fuel: nat) -> bool {
    eq_within(h, a, b, fuel) == Some(false)
}

/// Integers are equal when they are the same number, truth values when they are the same,
/// texts when they have the same characters; null equals null alone.
pub proof fn law_equal_scalars(h: HostView, m: i64, n: i64, a: bool, b: bool, x: usize, y: usize, fuel: nat)
    ensures
        m == n ==> equals(h, Value::Int(m), Value::Int(n), fuel),
        m != n ==> differs(h, Value::Int(m), Value::Int(n), fuel),
        a == b ==> equals(h, Value::Bool(a), Value::Bool(b), fuel),
        a != b ==> differs(h, Value::Bool(a), Value::Bool(b), fuel),
        h.text(x) == h.text(y) ==> equals(h, Value::Str(x), Value::Str(y), fuel),
        h.text(x) != h.text(y) ==> differs(h, Value::Str(x), Value::Str(y), fuel),
        equals(h, Value::Undef, Value::Undef, fuel),
        differs(h, Value::Undef, Value::Int(n), fuel),
        differs(h, Value::Undef, Value::Bool(b), fuel),
        differs(h, Value::Undef, Value::Str(y), fuel),
        differs(h, Value::Int(m), Value::Bool(b), fuel),
        differs(h, Value::Int(m), Value::Str(y), fuel),
        differs(h, Value::Bool(a), Value::Str(y), fuel),
        differs(h, Value::Str(x), Value::Int(n), fuel),
{
}

/// Doubles are equal when their bits are, and two that are no number are equal too; so the
/// two zeros differ.
pub proof fn law_equal_doubles(h: HostView, x: usize, y: usize, fuel: nat)
    ensures
        ({
            let a = h.double(x).bits;
            let b = h.double(y).bits;
            let a_is_nan = !is_finite(a) && a as int % 0x10_0000_0000_0000 != 0;
            let b_is_nan = !is_finite(b) && b as int % 0x10_0000_0000_0000 != 0;
            if a == b || (a_is_nan && b_is_nan) {
                equals(h, Value::Float(x), Value::Float(y), fuel)
            } else {
                differs(h, Value::Float(x), Value::Float(y), fuel)
            }
        }),
{
}

proof fn lemma_all_equal(h: HostView, xs: Seq<Value>, ys: Seq<Value>, i: int, fuel: nat)
    requires
        0 <= i <= xs.len(),
        xs.len() == ys.len(),
    ensures
        all_eq_within(h, xs, ys, i, fuel) == Some(true) <==> forall|k: int|
            i <= k < xs.len() ==> equals(h, #[trigger] xs[k], ys[k], fuel),
        all_eq_within(h, xs, ys, i, fuel) == Some(false) ==> exists|k: int|
            i <= k < xs.len() && differs(h, #[trigger] xs[k], ys[k], fuel),
    decreases xs.len() - i,
{
    if i < xs.len() {
        lemma_all_equal(h, xs, ys, i + 1, fuel);
        if eq_within(h, xs[i], ys[i], fuel) == Some(false) {
            assert(differs(h, xs[i], ys[i], fuel));
        }
    }
}

/// Two lists are equal exactly when they are as long as each other and equal element by
/// element; where they differ, their lengths do or two elements at one position.
pub proof fn law_equal_lists(h: HostView, a: u32, b: u32, xs: Seq<Value>, ys: Seq<Value>, fuel: nat)
    requires
        a != b,
        h.obj(Value::Obj(a)) == Some(ObjView::List(xs)),
        h.obj(Value::Obj(b)) == Some(ObjView::List(ys)),
    ensures
        equals(h, Value::Obj(a), Value::Obj(b), fuel + 1) <==> xs.len() == ys.len() && forall|i: int|
            0 <= i < xs.len() ==> equals(h, #[trigger] xs[i], ys[i], fuel),
        xs.len() != ys.len() ==> differs(h, Value::Obj(a), Value::Obj(b), fuel + 1),
        differs(h, Value::Obj(a), Value::Obj(b), fuel + 1) && xs.len() == ys.len() ==> exists|i: int|
            0 <= i < xs.len() && differs(h, #[trigger] xs[i], ys[i], fuel),
{
    if xs.len() == ys.len() {
        lemma_all_equal(h, xs, ys, 0, fuel);
    }
}

proof fn lemma_some_equal(h: HostView, x: Value, ys: Seq<Value>, j: int, fuel: nat)
    requires
        0 <= j <= ys.len(),
    ensures
        any_eq_within(h, x, ys, j, fuel) == Some(true) ==> exists|k: int|
            j <= k < ys.len() && equals(h, x, #[trigger] ys[k], fuel),
        any_eq_within(h, x, ys, j, fuel) == Some(false) <==> forall|k: int|
            j <= k < ys.len() ==> differs(h, x, #[trigger] ys[k], fuel),
    decreases ys.len() - j,
{
    if j < ys.len() {
        lemma_some_equal(h, x, ys, j + 1, fuel);
        if eq_within(h, x, ys[j], fuel) == Some(true) {
            assert(equals(h, x, ys[j], fuel));
        }
    }
}

proof fn lemma_each_in(h: HostView, xs: Seq<Value>, ys: Seq<Value>, i: int, fuel: nat)
    requires
        0 <= i <= xs.len(),
    ensures
        each_in_within(h, xs, ys, i, fuel) == Some(true) ==> forall|k: int|
            i <= k < xs.len() ==> any_eq_within(h, #[trigger] xs[k], ys, 0, fuel) == Some(true),
        each_in_within(h, xs, ys, i, fuel) == Some(false) ==> exists|k: int|
            i <= k < xs.len() && any_eq_within(h, #[trigger] xs[k], ys, 0, fuel) == Some(false),
    decreases xs.len() - i,
{
    if i < xs.len() {
        lemma_each_in(h, xs, ys, i + 1, fuel);
        if any_eq_within(h, xs[i], ys, 0, fuel) == Some(false) {
            assert(any_eq_within(h, xs[i], ys, 0, fuel) == Some(false));
        }
    }
}

/// Two sets are equal when they are as large as each other and each element of one equals
/// one of the other, in whatever order; where they differ in no size, an element of one
/// differs from all of the other.
pub proof fn law_equal_sets(h: HostView, a: u32, b: u32, xs: Seq<Value>, ys: Seq<Value>, fuel: nat)
    requires
        a != b,
        h.obj(Value::Obj(a)) == Some(ObjView::SetObj(xs)),
        h.obj(Value::Obj(b)) == Some(ObjView::SetObj(ys)),
    ensures
        equals(h, Value::Obj(a), Value::Obj(b), fuel + 1) ==> xs.len() == ys.len() && forall|i: int|
            0 <= i < xs.len() ==> exists|j: int|
                0 <= j < ys.len() && equals(h, #[trigger] xs[i], #[trigger] ys[j], fuel),
        xs.len() != ys.len() ==> differs(h, Value::Obj(a), Value::Obj(b), fuel + 1),
        differs(h, Value::Obj(a), Value::Obj(b), fuel + 1) && xs.len() == ys.len() ==> exists|i: int|
            0 <= i < xs.len() && forall|j: int|
                0 <= j < ys.len() ==> differs(h, #[trigger] xs[i], #[trigger] ys[j], fuel),
{
    if xs.len() == ys.len() {
        lemma_each_in(h, xs, ys, 0, fuel);
        if equals(h, Value::Obj(a), Value::Obj(b), fuel + 1) {
            assert forall|i: int| 0 <= i < xs.len() implies exists|j: int|
                0 <= j < ys.len() && equals(h, #[trigger] xs[i], #[trigger] ys[j], fuel) by {
                lemma_some_equal(h, xs[i], ys, 0, fuel);
                assert(any_eq_within(h, xs[i], ys, 0, fuel) == Some(true));
            }
        }
        if differs(h, Value::Obj(a), Value::Obj(b), fuel + 1) {
            let i = choose|k: int|
                0 <= k < xs.len() && any_eq_within(h, #[trigger] xs[k], ys, 0, fuel) == Some(false);
            lemma_some_equal(h, xs[i], ys, 0, fuel);
            assert(forall|j: int|
                0 <= j < ys.len() ==> differs(h, #[trigger] xs[i], #[trigger] ys[j], fuel));
        }
    }
}

/// Two pairs, two entries and two triples are equal exactly when their parts are.
pub proof fn law_equal_couples(
    h: HostView,
    a: u32,
    b: u32,
    p: Value,
    q: Value,
    x: Value,
    y: Value,
    fuel: nat,
)
    requires
        a != b,
        ({
            ||| h.obj(Value::Obj(a)) == Some(ObjView::Pair(p, q)) && h.obj(Value::Obj(b)) == Some(
                ObjView::Pair(x, y),
            )
            ||| h.obj(Value::Obj(a)) == Some(ObjView::Entry(p, q)) && h.obj(Value::Obj(b)) == Some(
                ObjView::Entry(x, y),
            )
        }),
    ensures
        equals(h, Value::Obj(a), Value::Obj(b), fuel + 1) <==> equals(h, p, x, fuel) && equals(
            h,
            q,
            y,
            fuel,
        ),
{
    let xs = seq![p, q];
    let ys = seq![x, y];
    lemma_all_equal(h, xs, ys, 0, fuel);
    assert(xs[0] == p && xs[1] == q && ys[0] == x && ys[1] == y);
}

/// Two instances of data classes are equal exactly when they are of one class and their
/// constructor properties are equal, in order.
pub proof fn law_equal_data(
    h: HostView,
    a: u32,
    b: u32,
    ca: Seq<char>,
    cb: Seq<char>,
    fa: Seq<(Seq<char>, Value)>,
    fb: Seq<(Seq<char>, Value)>,
    fuel: nat,
)
    requires
        a != b,
        fa.len() == fb.len(),
        h.obj(Value::Obj(a)) == Some(
            ObjView::Instance {
                class: ca,
                is_data: true,
                fields: fa,
                data_from: 0,
                data_len: fa.len() as int,
            },
        ),
        h.obj(Value::Obj(b)) == Some(
            ObjView::Instance {
                class: cb,
                is_data: true,
                fields: fb,
                data_from: 0,
                data_len: fb.len() as int,
            },
        ),
    ensures
        equals(h, Value::Obj(a), Value::Obj(b), fuel + 1) <==> ca == cb && forall|i: int|
            0 <= i < fa.len() ==> equals(h, (#[trigger] fa[i]).1, fb[i].1, fuel),
{
    let xs = field_values(data_fields(fa, 0, fa.len() as int));
    let ys = field_values(data_fields(fb, 0, fb.len() as int));
    assert(data_fields(fa, 0, fa.len() as int) =~= fa);
    assert(data_fields(fb, 0, fb.len() as int) =~= fb);
    lemma_all_equal(h, xs, ys, 0, fuel);
    assert forall|i: int| 0 <= i < fa.len() implies xs[i] == (#[trigger] fa[i]).1 && ys[i]
        == fb[i].1 by {}
    if ca == cb {
        if equals(h, Value::Obj(a), Value::Obj(b), fuel + 1) {
            assert forall|i: int| 0 <= i < fa.len() implies equals(
                h,
                (#[trigger] fa[i]).1,
                fb[i].1,
                fuel,
            ) by {
                assert(equals(h, xs[i], ys[i], fuel));
            }
        }
        if forall|i: int| 0 <= i < fa.len() ==> equals(h, (#[trigger] fa[i]).1, fb[i].1, fuel) {
            assert forall|k: int| 0 <= k < xs.len() implies equals(h, #[trigger] xs[k], ys[k], fuel) by {
                assert(equals(h, fa[k].1, fb[k].1, fuel));
            }
        }
    }
}

/// Values of different kinds differ: a list, a set, a map, a pair and a text never equal
/// one of another kind.
pub proof fn law_kinds_differ(h: HostView, a: u32, b: u32, fuel: nat)
    requires
        a != b,
        h.obj(Value::Obj(a)) matches Some(ObjView::List(_)),
        ({
            ||| h.obj(Value::Obj(b)) matches Some(ObjView::SetObj(_))
            ||| h.obj(Value::Obj(b)) matches Some(ObjView::MapObj(_))
            ||| h.obj(Value::Obj(b)) matches Some(ObjView::Pair(_, _))
            ||| h.obj(Value::Obj(b)) matches Some(ObjView::Array { .. })
            ||| h.obj(Value::Obj(b)) matches Some(ObjView::Range(_))
        }),
    ensures
        differs(h, Value::Obj(a), Value::Obj(b), fuel + 1),
        differs(h, Value::Obj(b), Value::Obj(a), fuel + 1),
{
}

/// `===` on objects is being the same object, and on other values `==`.
pub proof fn law_identity(h: HostView, a: u32, b: u32, m: i64, n: i64, x: usize, y: usize)
    ensures
        is_identical(h, Value::Obj(a), Value::Obj(b)) <==> a == b,
        is_identical(h, Value::Int(m), Value::Int(n)) <==> m == n,
        is_identical(h, Value::Str(x), Value::Str(y)) <==> h.text(x) == h.text(y),
        !is_identical(h, Value::Int(m), Value::Float(y)),
        !is_identical(h, Value::Undef, Value::Int(n)),
{
}

// ── Hashes ──────────────────────────────────────────────────────────────────

/// Thirty-one times what has been folded so far, and one hash more, in 32 bits.
pub open spec fn folded(acc: i32, e: i32) -> i32 {
    acc.wrapping_mul(31).wrapping_add(e)
}

/// The hash of a text folds its code units.
pub proof fn law_text_hash(s: Seq<char>, c: char)
    requires
        c as int <= 0xffff,
    ensures
        text_hash(Seq::empty()) == 0,
        text_hash(s.push(c)) == folded(text_hash(s), c as int as i32),
{
    let t = s.push(c);
    assert(t.drop_last() =~= s);
    assert(char_units(c) =~= seq![c as int as u16]);
    let u = units_of(s);
    let v = units_of(t);
    assert(v =~= u.push(c as int as u16));
    assert(v.drop_last() =~= u);
    assert(units_of(Seq::<char>::empty()) =~= Seq::empty());
}

/// The hash of an `Int` is itself, that of a truth value one of two primes, that of a
/// character its code, that of a text the fold of its code units, and that of null 0.
pub proof fn law_scalar_hashes(h: HostView, n: i64, x: usize, c: int, fuel: nat)
    requires
        0 <= c <= 0xffff,
    ensures
        i32::MIN <= n <= i32::MAX ==> hash_within(h, Value::Int(n), false, fuel) == Some(n as i32),
        hash_within(h, Value::Int(n), true, fuel) == Some(
            (n ^ (((n as u64) >> 32u64) as i64)) as i32,
        ),
        hash_within(h, Value::Bool(true), false, fuel) == Some(1231i32),
        hash_within(h, Value::Bool(false), false, fuel) == Some(1237i32),
        hash_within(h, Value::Undef, false, fuel) == Some(0i32),
        hash_within(h, Value::Str(x), false, fuel) == Some(text_hash(h.text(x))),
        hash_within(h, char_value(c), false, fuel) == Some(c as i32),
{
    crate::value::law_char_round_trip(c);
}

/// The hash of a list starts at 1 and folds the hashes of its elements.
pub proof fn law_list_hash(
    h: HostView,
    a: Value,
    b: Value,
    xs: Seq<Value>,
    x: Value,
    acc: i32,
    e: i32,
    fuel: nat,
)
    requires
        code_of(a) is None && code_of(b) is None,
        h.obj(a) == Some(ObjView::List(xs)),
        h.obj(b) == Some(ObjView::List(xs.push(x))),
        hash_within(h, a, false, fuel + 1) == Some(acc),
        hash_within(h, x, false, fuel) == Some(e),
    ensures
        xs.len() == 0 ==> acc == 1,
        hash_within(h, b, false, fuel + 1) == Some(folded(acc, e)),
{
    let ys = xs.push(x);
    let n = ys.len() as int;
    lemma_fold_prefix(h, xs, ys, n - 1, fuel);
    assert(ys[n - 1] == x);
    assert(obj_hash_within(h, a, ObjView::List(xs), fuel) == fold_hash_within(h, xs, n - 1, 1, fuel));
    assert(obj_hash_within(h, b, ObjView::List(ys), fuel) == fold_hash_within(h, ys, n, 1, fuel));
    assert(fold_hash_within(h, ys, n, 1, fuel) == Some(folded(acc, e)));
}

proof fn lemma_fold_prefix(h: HostView, xs: Seq<Value>, ys: Seq<Value>, n: int, fuel: nat)
    requires
        0 <= n <= xs.len() <= ys.len(),
        forall|i: int| 0 <= i < xs.len() ==> #[trigger] ys[i] == xs[i],
    ensures
        fold_hash_within(h, ys, n, 1, fuel) == fold_hash_within(h, xs, n, 1, fuel),
        sum_hash_within(h, ys, n, fuel) == sum_hash_within(h, xs, n, fuel),
    decreases n,
{
    if n > 0 {
        lemma_fold_prefix(h, xs, ys, n - 1, fuel);
        assert(ys[n - 1] == xs[n - 1]);
    }
}

/// The hash of a set is the sum of those of its elements.
pub proof fn law_set_hash(
    h: HostView,
    a: Value,
    b: Value,
    xs: Seq<Value>,
    x: Value,
    acc: i32,
    e: i32,
    fuel: nat,
)
    requires
        code_of(a) is None && code_of(b) is None,
        h.obj(a) == Some(ObjView::SetObj(xs)),
        h.obj(b) == Some(ObjView::SetObj(xs.push(x))),
        hash_within(h, a, false, fuel + 1) == Some(acc),
        hash_within(h, x, false, fuel) == Some(e),
    ensures
        xs.len() == 0 ==> acc == 0,
        hash_within(h, b, false, fuel + 1) == Some(acc.wrapping_add(e)),
{
    let ys = xs.push(x);
    let n = ys.len() as int;
    lemma_fold_prefix(h, xs, ys, n - 1, fuel);
    assert(ys[n - 1] == x);
    assert(obj_hash_within(h, a, ObjView::SetObj(xs), fuel) == sum_hash_within(h, xs, n - 1, fuel));
    assert(obj_hash_within(h, b, ObjView::SetObj(ys), fuel) == sum_hash_within(h, ys, n, fuel));
    assert(sum_hash_within(h, ys, n, fuel) == Some(acc.wrapping_add(e)));
}

/// The hash of a map is the sum of those of its entries, and an entry's joins those of its
/// key and its value by exclusive or.
pub proof fn law_map_hash(
    h: HostView,
    a: Value,
    b: Value,
    c: Value,
    es: Seq<(Value, Value)>,
    k: Value,
    v: Value,
    acc: i32,
    x: i32,
    y: i32,
    fuel: nat,
)
    requires
        code_of(a) is None && code_of(b) is None && code_of(c) is None,
        h.obj(a) == Some(ObjView::MapObj(es)),
        h.obj(b) == Some(ObjView::MapObj(es.push((k, v)))),
        h.obj(c) == Some(ObjView::Entry(k, v)),
        hash_within(h, a, false, fuel + 1) == Some(acc),
        hash_within(h, k, false, fuel) == Some(x),
        hash_within(h, v, false, fuel) == Some(y),
    ensures
        es.len() == 0 ==> acc == 0,
        hash_within(h, b, false, fuel + 1) == Some(acc.wrapping_add(x ^ y)),
        hash_within(h, c, false, fuel + 1) == Some(x ^ y),
{
    let fs = es.push((k, v));
    let n = fs.len() as int;
    lemma_entries_prefix(h, es, fs, n - 1, fuel);
    assert(fs[n - 1] == (k, v));
    assert(obj_hash_within(h, a, ObjView::MapObj(es), fuel) == entries_hash_within(
        h,
        es,
        n - 1,
        fuel,
    ));
    assert(obj_hash_within(h, b, ObjView::MapObj(fs), fuel) == entries_hash_within(h, fs, n, fuel));
    assert(entries_hash_within(h, fs, n, fuel) == Some(acc.wrapping_add(x ^ y)));
}

proof fn lemma_entries_prefix(
    h: HostView,
    xs: Seq<(Value, Value)>,
    ys: Seq<(Value, Value)>,
    n: int,
    fuel: nat,
)
    requires
        0 <= n <= xs.len() <= ys.len(),
        forall|i: int| 0 <= i < xs.len() ==> #[trigger] ys[i] == xs[i],
    ensures
        entries_hash_within(h, ys, n, fuel) == entries_hash_within(h, xs, n, fuel),
    decreases n,
{
    if n > 0 {
        lemma_entries_prefix(h, xs, ys, n - 1, fuel);
        assert(ys[n - 1] == xs[n - 1]);
    }
}

/// The hash of a pair folds those of its parts, the first without a factor.
pub proof fn law_pair_hash(h: HostView, a: Value, p: Value, q: Value, x: i32, y: i32, fuel: nat)
    requires
        code_of(a) is None,
        h.obj(a) == Some(ObjView::Pair(p, q)),
        hash_within(h, p, false, fuel) == Some(x),
        hash_within(h, q, false, fuel) == Some(y),
    ensures
        hash_within(h, a, false, fuel + 1) == Some(folded(x, y)),
{
    let own = seq![p, q];
    assert(own[0] == p && own[1] == q);
    assert(data_hash_within(h, own, None, 1, fuel) == Some(x));
    assert(data_hash_within(h, own, None, 2, fuel) == Some(folded(x, y)));
    assert(obj_hash_within(h, a, ObjView::Pair(p, q), fuel) == Some(folded(x, y)));
}

} // verus!
