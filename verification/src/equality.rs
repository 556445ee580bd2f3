//! Laws of equality and hashing.
use crate::value::{Value, CHAR_TAG};
use crate::walk::{Call, Stop};
use vstd::prelude::*;

verus! {

use crate::compare::{
    all_eq_within,
    any_entry_within,
    any_eq_within,
    data_fields,
    data_hash_within,
    each_in_within,
    entries_hash_within,
    entries_in_within,
    eq_within,
    field_values,
    fold_hash_within,
    hash_step,
    hash_within,
    is_identical,
    is_long_property,
    obj_eq_within,
    obj_hash_within,
    sum_hash_within,
};
use crate::double::magnitude_bits;
use crate::host::HostView;
use crate::value::{holds, ObjView};
use crate::walk::{
    all_eq_walk,
    consult,
    entries_walk,
    eq_walk,
    fold_walk,
    hash_eq_walk,
    hash_walk,
    host_at,
    shape_eq_walk,
    sum_walk,
    Answers,
    Outcome,
};

// ── Every value equals itself ───────────────────────────────────────────────

/// Every value equals itself, a `NaN` included.
pub proof fn law_equality_is_reflexive(h: HostView, v: Value, fuel: nat)
    ensures
        eq_within(h, v, v, fuel) == Some(true),
{
}

/// Every value is identical to itself.
pub proof fn law_identity_is_reflexive(h: HostView, v: Value)
    ensures
        is_identical(h, v, v),
{
}

/// Identical values are equal, but for a zero and the negative zero.
pub proof fn law_identical_values_are_equal(h: HostView, a: Value, b: Value, fuel: nat)
    requires
        is_identical(h, a, b),
        a matches Value::Float(id) ==> magnitude_bits(h.double(id).bits) != 0,
    ensures
        eq_within(h, a, b, fuel) == Some(true),
{
}

/// A `Map.Entry` never equals a `Pair`, whatever they hold.
pub proof fn law_entries_are_not_pairs(h: HostView, a: Value, b: Value, fuel: nat)
    requires
        h.obj(a) matches Some(ObjView::Entry(_, _)),
        h.obj(b) matches Some(ObjView::Pair(_, _)),
        fuel > 0,
    ensures
        eq_within(h, a, b, fuel) == Some(false),
        eq_within(h, b, a, fuel) == Some(false),
{
}

/// Whether a kind of object has no equality but that of the object itself: an
/// array, a `StringBuilder`, a lambda, and an instance of a class that is no
/// `data` class.
pub open spec fn is_identity_kind(o: ObjView) -> bool {
    match o {
        ObjView::Array { .. } => true,
        ObjView::Builder { .. } => true,
        ObjView::Closure { .. } => true,
        ObjView::Instance { is_data, .. } => !is_data,
        _ => false,
    }
}

/// An object of such a kind equals itself alone.
pub proof fn law_identity_kinds_equal_themselves_alone(
    h: HostView,
    a: Value,
    b: Value,
    fuel: nat,
)
    requires
        h.obj(a) matches Some(o) && is_identity_kind(o),
        b is Obj,
        fuel > 0,
    ensures
        eq_within(h, a, b, fuel) == Some(a == b),
{
}

/// A declared `equals` decides alone, even of a value and itself: it is asked
/// first, and what it answers is final.
pub proof fn law_declared_equals_decides(
    h: HostView,
    log: Answers,
    at: nat,
    a: Value,
    b: Value,
    fuel: nat,
)
    requires
        host_at(h, log, at).class_of(a) matches Some(class) && host_at(h, log, at).equals_subs.contains_key(class),
        fuel > 0,
    ensures
        at >= log.len() ==> eq_walk(h, log, at, a, b, fuel) == Err::<(bool, nat), Stop>(
            Stop::Ask(Call { sub: host_at(h, log, at).equals_subs[host_at(h, log, at).class_of(a)->0], recv: a, other: Some(b) }),
        ),
        at < log.len() && log[at as int].answer is Some ==> eq_walk(h, log, at, a, b, fuel) == Ok::<
            (bool, nat),
            Stop,
        >((holds(log[at as int].answer->0), at + 1)),
{
}

/// A declared `hashCode` decides alone.
pub proof fn law_declared_hash_decides(
    h: HostView,
    log: Answers,
    at: nat,
    v: Value,
    long: bool,
    fuel: nat,
)
    requires
        host_at(h, log, at).class_of(v) matches Some(class) && host_at(h, log, at).hashcode_subs.contains_key(class),
        fuel > 0,
    ensures
        at >= log.len() ==> hash_walk(h, log, at, v, long, fuel) == Err::<(i32, nat), Stop>(
            Stop::Ask(Call { sub: host_at(h, log, at).hashcode_subs[host_at(h, log, at).class_of(v)->0], recv: v, other: None }),
        ),
        at < log.len() && log[at as int].answer is Some ==> hash_walk(h, log, at, v, long, fuel) == Ok::<
            (i32, nat),
            Stop,
        >(((host_at(h, log, at + 1).to_int(log[at as int].answer->0) as i64) as i32, at + 1)),
{
}

/// A hash container finds an object by itself without asking its members, where
/// `==` asks a declared `equals` all the same.
pub proof fn law_hash_containers_know_the_object(
    h: HostView,
    log: Answers,
    at: nat,
    v: Value,
    fuel: nat,
)
    requires
        v is Obj,
    ensures
        hash_eq_walk(h, log, at, v, v, fuel) == Ok::<(bool, nat), Stop>((true, at)),
{
}

/// A hash container reaches `equals` only once the hashes agree.
pub proof fn law_hash_gates_equality(
    h: HostView,
    log: Answers,
    at: nat,
    a: Value,
    b: Value,
    x: i32,
    n: nat,
    y: i32,
    m: nat,
    fuel: nat,
)
    requires
        a != b,
        hash_walk(h, log, at, a, false, fuel) == Ok::<(i32, nat), Stop>((x, n)),
        hash_walk(h, log, n, b, false, fuel) == Ok::<(i32, nat), Stop>((y, m)),
    ensures
        x != y ==> hash_eq_walk(h, log, at, a, b, fuel) == Ok::<(bool, nat), Stop>((false, m)),
        x == y ==> hash_eq_walk(h, log, at, a, b, fuel) == eq_walk(h, log, m, a, b, fuel),
{
}

proof fn lemma_all_reflexive(h: HostView, xs: Seq<Value>, i: int, fuel: nat)
    ensures
        all_eq_within(h, xs, xs, i, fuel) == Some(true),
    decreases xs.len() - i,
{
    if 0 <= i < xs.len() {
        law_equality_is_reflexive(h, xs[i], fuel);
        lemma_all_reflexive(h, xs, i + 1, fuel);
    }
}

/// A `data` class compares and hashes its primary-constructor properties alone:
/// two instances that agree in them are equal and have the same hash, whatever
/// their other properties are.
pub proof fn law_data_members_see_the_constructor(
    h: HostView,
    class: Seq<char>,
    fa: Seq<(Seq<char>, Value)>,
    da: int,
    la: int,
    fb: Seq<(Seq<char>, Value)>,
    db: int,
    lb: int,
    va: Value,
    vb: Value,
    fuel: nat,
)
    requires
        field_values(data_fields(fa, da, la)) == field_values(data_fields(fb, db, lb)),
    ensures
        ({
            let a = ObjView::Instance {
                class,
                is_data: true,
                fields: fa,
                data_from: da,
                data_len: la,
            };
            let b = ObjView::Instance {
                class,
                is_data: true,
                fields: fb,
                data_from: db,
                data_len: lb,
            };
            &&& obj_eq_within(h, a, b, fuel) == Some(true)
            &&& obj_hash_within(h, va, a, fuel) == obj_hash_within(h, vb, b, fuel)
        }),
{
    lemma_all_reflexive(h, field_values(data_fields(fa, da, la)), 0, fuel);
}

// ── A larger budget changes no answer ───────────────────────────────────────

proof fn lemma_eq_more(h: HostView, a: Value, b: Value, fuel: nat)
    ensures
        eq_within(h, a, b, fuel) is Some ==> eq_within(h, a, b, fuel + 1) == eq_within(
            h,
            a,
            b,
            fuel,
        ),
    decreases fuel, 0int, 0int,
{
    if fuel > 0 {
        match (h.obj(a), h.obj(b)) {
            (Some(oa), Some(ob)) => {
                lemma_obj_eq_more(h, oa, ob, (fuel - 1) as nat);
            },
            _ => {},
        }
    }
}

proof fn lemma_obj_eq_more(h: HostView, a: ObjView, b: ObjView, fuel: nat)
    ensures
        obj_eq_within(h, a, b, fuel) is Some ==> obj_eq_within(h, a, b, fuel + 1) == obj_eq_within(
            h,
            a,
            b,
            fuel,
        ),
    decreases fuel, 3int, 0int,
{
    match (a, b) {
        (
            ObjView::Instance { fields: fa, data_from: da, data_len: la, .. },
            ObjView::Instance { fields: fb, data_from: db, data_len: lb, .. },
        ) => {
            lemma_all_more(
                h,
                field_values(data_fields(fa, da, la)),
                field_values(data_fields(fb, db, lb)),
                0,
                fuel,
            );
        },
        (ObjView::List(xa), ObjView::List(xb)) => {
            lemma_all_more(h, xa, xb, 0, fuel);
        },
        (ObjView::SetObj(xa), ObjView::SetObj(xb)) => {
            lemma_each_more(h, xa, xb, 0, fuel);
        },
        (ObjView::Pair(a1, a2), ObjView::Pair(b1, b2)) => {
            lemma_all_more(h, seq![a1, a2], seq![b1, b2], 0, fuel);
        },
        (ObjView::Entry(a1, a2), ObjView::Entry(b1, b2)) => {
            lemma_all_more(h, seq![a1, a2], seq![b1, b2], 0, fuel);
        },
        (ObjView::Triple(a1, a2, a3), ObjView::Triple(b1, b2, b3)) => {
            lemma_all_more(h, seq![a1, a2, a3], seq![b1, b2, b3], 0, fuel);
        },
        (ObjView::MapObj(ea), ObjView::MapObj(eb)) => {
            lemma_entries_more(h, ea, eb, 0, fuel);
        },
        _ => {},
    }
}

proof fn lemma_all_more(h: HostView, xs: Seq<Value>, ys: Seq<Value>, i: int, fuel: nat)
    ensures
        all_eq_within(h, xs, ys, i, fuel) is Some ==> all_eq_within(h, xs, ys, i, fuel + 1)
            == all_eq_within(h, xs, ys, i, fuel),
    decreases fuel, 1int, xs.len() - i,
{
    if 0 <= i < xs.len() && i < ys.len() {
        lemma_eq_more(h, xs[i], ys[i], fuel);
        lemma_all_more(h, xs, ys, i + 1, fuel);
    }
}

proof fn lemma_any_more(h: HostView, x: Value, ys: Seq<Value>, j: int, fuel: nat)
    ensures
        any_eq_within(h, x, ys, j, fuel) is Some ==> any_eq_within(h, x, ys, j, fuel + 1)
            == any_eq_within(h, x, ys, j, fuel),
    decreases fuel, 1int, ys.len() - j,
{
    if 0 <= j < ys.len() {
        lemma_eq_more(h, x, ys[j], fuel);
        lemma_any_more(h, x, ys, j + 1, fuel);
    }
}

proof fn lemma_each_more(h: HostView, xs: Seq<Value>, ys: Seq<Value>, i: int, fuel: nat)
    ensures
        each_in_within(h, xs, ys, i, fuel) is Some ==> each_in_within(h, xs, ys, i, fuel + 1)
            == each_in_within(h, xs, ys, i, fuel),
    decreases fuel, 2int, xs.len() - i,
{
    if 0 <= i < xs.len() {
        lemma_any_more(h, xs[i], ys, 0, fuel);
        lemma_each_more(h, xs, ys, i + 1, fuel);
    }
}

proof fn lemma_any_entry_more(
    h: HostView,
    e: (Value, Value),
    es: Seq<(Value, Value)>,
    j: int,
    fuel: nat,
)
    ensures
        any_entry_within(h, e, es, j, fuel) is Some ==> any_entry_within(h, e, es, j, fuel + 1)
            == any_entry_within(h, e, es, j, fuel),
    decreases fuel, 1int, es.len() - j,
{
    if 0 <= j < es.len() {
        lemma_eq_more(h, e.0, es[j].0, fuel);
        lemma_eq_more(h, e.1, es[j].1, fuel);
        lemma_any_entry_more(h, e, es, j + 1, fuel);
    }
}

proof fn lemma_entries_more(
    h: HostView,
    xs: Seq<(Value, Value)>,
    ys: Seq<(Value, Value)>,
    i: int,
    fuel: nat,
)
    ensures
        entries_in_within(h, xs, ys, i, fuel) is Some ==> entries_in_within(h, xs, ys, i, fuel + 1)
            == entries_in_within(h, xs, ys, i, fuel),
    decreases fuel, 2int, xs.len() - i,
{
    if 0 <= i < xs.len() {
        lemma_any_entry_more(h, xs[i], ys, 0, fuel);
        lemma_entries_more(h, xs, ys, i + 1, fuel);
    }
}

/// A comparison that comes to an answer within a budget comes to the same within
/// every larger one.
pub proof fn law_equality_needs_no_more(h: HostView, a: Value, b: Value, fuel: nat, more: nat)
    requires
        eq_within(h, a, b, fuel) is Some,
        fuel <= more,
    ensures
        eq_within(h, a, b, more) == eq_within(h, a, b, fuel),
    decreases more,
{
    if fuel < more {
        law_equality_needs_no_more(h, a, b, fuel, (more - 1) as nat);
        lemma_eq_more(h, a, b, (more - 1) as nat);
    }
}

// ── Without overrides ───────────────────────────────────────────────────────

/// Whether no object is a `Set` or a `Map`, whose membership goes by hash first.
pub open spec fn no_hashed_containers(h: HostView) -> bool {
    forall|i: int|
        0 <= i < h.heap.len() ==> !(#[trigger] h.heap[i] is SetObj) && !(h.heap[i] is MapObj)
}

/// Whether a walk that gave `out` agrees with the plain answer `want` and used
/// no answers.
pub open spec fn agrees<T>(out: Outcome<T>, at: nat, want: Option<T>) -> bool {
    out matches Ok((r, n)) ==> n == at && want == Some(r)
}

/// In a program that declares no `equals`, `==` is structural equality, as far
/// as no `Set` or `Map` is involved.
pub proof fn law_equality_without_overrides(
    h: HostView,
    log: Answers,
    at: nat,
    a: Value,
    b: Value,
    fuel: nat,
)
    requires
        host_at(h, log, at).equals_subs == Map::<Seq<char>, u16>::empty(),
        no_hashed_containers(host_at(h, log, at)),
    ensures
        agrees(eq_walk(h, log, at, a, b, fuel), at, eq_within(host_at(h, log, at), a, b, fuel)),
    decreases fuel, 0int, 0int,
{
    if fuel > 0 {
        assert(consult(host_at(h, log, at), host_at(h, log, at).equals_subs, log, at, a, Some(b)) == Ok::<_, Stop>((None::<Value>, at)));
        if !(a is Obj && a == b) {
            lemma_shape_agrees(h, log, at, a, b, (fuel - 1) as nat);
        }
    }
}

proof fn lemma_shape_agrees(
    h: HostView,
    log: Answers,
    at: nat,
    a: Value,
    b: Value,
    fuel: nat,
)
    requires
        host_at(h, log, at).equals_subs == Map::<Seq<char>, u16>::empty(),
        no_hashed_containers(host_at(h, log, at)),
        !(a is Obj && a == b),
    ensures
        agrees(shape_eq_walk(h, log, at, a, b, fuel), at, eq_within(host_at(h, log, at), a, b, fuel + 1)),
    decreases fuel, 5int, 0int,
{
    match (host_at(h, log, at).obj(a), host_at(h, log, at).obj(b)) {
        (Some(ObjView::List(xa)), Some(ObjView::List(xb))) => {
            lemma_all_agrees(h, log, at, xa, xb, 0, fuel);
        },
        (Some(ObjView::SetObj(xa)), Some(ObjView::SetObj(xb))) => {
            assert(!(host_at(h, log, at).heap[a->Obj_0 as int] is SetObj));
        },
        (Some(ObjView::MapObj(ea)), Some(ObjView::MapObj(eb))) => {
            assert(!(host_at(h, log, at).heap[a->Obj_0 as int] is MapObj));
        },
        (Some(ObjView::Pair(a1, a2)), Some(ObjView::Pair(b1, b2))) => {
            lemma_all_agrees(h, log, at, seq![a1, a2], seq![b1, b2], 0, fuel);
        },
        (Some(ObjView::Entry(a1, a2)), Some(ObjView::Entry(b1, b2))) => {
            lemma_all_agrees(h, log, at, seq![a1, a2], seq![b1, b2], 0, fuel);
        },
        (Some(ObjView::Triple(a1, a2, a3)), Some(ObjView::Triple(b1, b2, b3))) => {
            lemma_all_agrees(h, log, at, seq![a1, a2, a3], seq![b1, b2, b3], 0, fuel);
        },
        (
            Some(
                ObjView::Instance { is_data: true, fields: fa, data_from: da, data_len: la, .. },
            ),
            Some(
                ObjView::Instance { is_data: true, fields: fb, data_from: db, data_len: lb, .. },
            ),
        ) => {
            lemma_all_agrees(
                h,
                log,
                at,
                field_values(data_fields(fa, da, la)),
                field_values(data_fields(fb, db, lb)),
                0,
                fuel,
            );
        },
        _ => {
            lemma_eq_more(host_at(h, log, at), a, b, fuel);
        },
    }
}

proof fn lemma_all_agrees(
    h: HostView,
    log: Answers,
    at: nat,
    xs: Seq<Value>,
    ys: Seq<Value>,
    i: int,
    fuel: nat,
)
    requires
        host_at(h, log, at).equals_subs == Map::<Seq<char>, u16>::empty(),
        no_hashed_containers(host_at(h, log, at)),
    ensures
        agrees(all_eq_walk(h, log, at, xs, ys, i, fuel), at, all_eq_within(host_at(h, log, at), xs, ys, i, fuel)),
    decreases fuel, 1int, xs.len() - i,
{
    if 0 <= i < xs.len() && i < ys.len() {
        law_equality_without_overrides(h, log, at, xs[i], ys[i], fuel);
        lemma_all_agrees(h, log, at, xs, ys, i + 1, fuel);
    }
}

/// In a program that declares no `hashCode`, the hash is the structural one.
pub proof fn law_hash_without_overrides(
    h: HostView,
    log: Answers,
    at: nat,
    v: Value,
    long: bool,
    fuel: nat,
)
    requires
        host_at(h, log, at).hashcode_subs == Map::<Seq<char>, u16>::empty(),
        host_at(h, log, at).heap.len() <= CHAR_TAG,
    ensures
        agrees(hash_walk(h, log, at, v, long, fuel), at, hash_within(host_at(h, log, at), v, long, fuel)),
    decreases fuel, 0int, 0int,
{
    if fuel > 0 {
        assert(consult(host_at(h, log, at), host_at(h, log, at).hashcode_subs, log, at, v, None) == Ok::<_, Stop>((None::<Value>, at)));
        let inner = (fuel - 1) as nat;
        match host_at(h, log, at).obj(v) {
            Some(ObjView::List(items)) => {
                lemma_fold_agrees(h, log, at, items, 0, 1, inner);
            },
            Some(ObjView::SetObj(items)) => {
                lemma_sum_agrees(h, log, at, items, 0, 0, inner);
            },
            Some(ObjView::MapObj(es)) => {
                lemma_entries_agree(h, log, at, es, 0, 0, inner);
            },
            Some(ObjView::Pair(a, b)) => {
                law_hash_without_overrides(h, log, at, a, false, inner);
                law_hash_without_overrides(h, log, at, b, false, inner);
                let own = seq![a, b];
                assert(own[0] == a && own[1] == b);
                assert(!is_long_property(None, 0) && !is_long_property(None, 1));
                assert(data_hash_within(host_at(h, log, at), own, None, 1, inner) == hash_within(host_at(h, log, at), a, false, inner));
                assert(data_hash_within(host_at(h, log, at), own, None, 2, inner) == (match (
                    hash_within(host_at(h, log, at), a, false, inner),
                    hash_within(host_at(h, log, at), b, false, inner),
                ) {
                    (Some(acc), Some(e)) => Some(hash_step(acc, e)),
                    _ => None,
                }));
                assert(obj_hash_within(host_at(h, log, at), v, host_at(h, log, at).obj(v)->0, inner) == data_hash_within(host_at(h, log, at),
                    own,
                    None,
                    2,
                    inner,
                ));
            },
            Some(ObjView::Entry(a, b)) => {
                law_hash_without_overrides(h, log, at, a, false, inner);
                law_hash_without_overrides(h, log, at, b, false, inner);
            },
            _ => {},
        }
    }
}

proof fn lemma_fold_agrees(
    h: HostView,
    log: Answers,
    at: nat,
    items: Seq<Value>,
    i: int,
    acc: i32,
    fuel: nat,
)
    requires
        host_at(h, log, at).hashcode_subs == Map::<Seq<char>, u16>::empty(),
        host_at(h, log, at).heap.len() <= CHAR_TAG,
        0 <= i <= items.len(),
        fold_hash_within(host_at(h, log, at), items, i, 1, fuel) == Some(acc),
    ensures
        agrees(
            fold_walk(h, log, at, items, i, acc, fuel),
            at,
            fold_hash_within(host_at(h, log, at), items, items.len() as int, 1, fuel),
        ),
    decreases fuel, 2int, items.len() - i,
{
    if i < items.len() {
        law_hash_without_overrides(h, log, at, items[i], false, fuel);
        if let Ok((e, n)) = hash_walk(h, log, at, items[i], false, fuel) {
            lemma_fold_agrees(h, log, at, items, i + 1, hash_step(acc, e), fuel);
        }
    }
}

proof fn lemma_sum_agrees(
    h: HostView,
    log: Answers,
    at: nat,
    items: Seq<Value>,
    i: int,
    acc: i32,
    fuel: nat,
)
    requires
        host_at(h, log, at).hashcode_subs == Map::<Seq<char>, u16>::empty(),
        host_at(h, log, at).heap.len() <= CHAR_TAG,
        0 <= i <= items.len(),
        sum_hash_within(host_at(h, log, at), items, i, fuel) == Some(acc),
    ensures
        agrees(
            sum_walk(h, log, at, items, i, acc, fuel),
            at,
            sum_hash_within(host_at(h, log, at), items, items.len() as int, fuel),
        ),
    decreases fuel, 2int, items.len() - i,
{
    if i < items.len() {
        law_hash_without_overrides(h, log, at, items[i], false, fuel);
        if let Ok((e, n)) = hash_walk(h, log, at, items[i], false, fuel) {
            lemma_sum_agrees(h, log, at, items, i + 1, acc.wrapping_add(e), fuel);
        }
    }
}

proof fn lemma_entries_agree(
    h: HostView,
    log: Answers,
    at: nat,
    es: Seq<(Value, Value)>,
    i: int,
    acc: i32,
    fuel: nat,
)
    requires
        host_at(h, log, at).hashcode_subs == Map::<Seq<char>, u16>::empty(),
        host_at(h, log, at).heap.len() <= CHAR_TAG,
        0 <= i <= es.len(),
        entries_hash_within(host_at(h, log, at), es, i, fuel) == Some(acc),
    ensures
        agrees(
            entries_walk(h, log, at, es, i, acc, fuel),
            at,
            entries_hash_within(host_at(h, log, at), es, es.len() as int, fuel),
        ),
    decreases fuel, 2int, es.len() - i,
{
    if i < es.len() {
        law_hash_without_overrides(h, log, at, es[i].0, false, fuel);
        law_hash_without_overrides(h, log, at, es[i].1, false, fuel);
        if let Ok((k, n)) = hash_walk(h, log, at, es[i].0, false, fuel) {
            if let Ok((x, m)) = hash_walk(h, log, at, es[i].1, false, fuel) {
                lemma_entries_agree(h, log, at, es, i + 1, acc.wrapping_add(k ^ x), fuel);
            }
        }
    }
}

// ── Order does not matter ───────────────────────────────────────────────────

proof fn lemma_sum_prefix(h: HostView, a: Seq<Value>, b: Seq<Value>, n: int, fuel: nat)
    requires
        n <= a.len(),
        n <= b.len(),
        forall|i: int| 0 <= i < n ==> a[i] == b[i],
    ensures
        sum_hash_within(h, a, n, fuel) == sum_hash_within(h, b, n, fuel),
    decreases n,
{
    if n > 0 {
        lemma_sum_prefix(h, a, b, n - 1, fuel);
    }
}

/// Two hashes added up, when both are there.
pub open spec fn added(a: Option<i32>, b: Option<i32>) -> Option<i32> {
    match (a, b) {
        (Some(x), Some(y)) => Some(x.wrapping_add(y)),
        _ => None,
    }
}

proof fn lemma_added_swap(a: Option<i32>, b: Option<i32>, c: Option<i32>)
    ensures
        added(added(a, b), c) == added(added(a, c), b),
{
}

pub proof fn lemma_sum_without(h: HostView, b: Seq<Value>, j: int, fuel: nat)
    requires
        0 <= j < b.len(),
    ensures
        sum_hash_within(h, b, b.len() as int, fuel) == added(
            sum_hash_within(h, b.remove(j), b.len() - 1, fuel),
            hash_within(h, b[j], false, fuel),
        ),
    decreases b.len(),
{
    let n = b.len() as int;
    if j == n - 1 {
        assert(b.remove(j) =~= b.drop_last());
        lemma_sum_prefix(h, b, b.drop_last(), n - 1, fuel);
    } else {
        let c = b.drop_last();
        lemma_sum_without(h, c, j, fuel);
        lemma_sum_prefix(h, b, c, n - 1, fuel);
        lemma_sum_prefix(h, b.remove(j), c.remove(j), n - 2, fuel);
        assert(b.remove(j)[n - 2] == b[n - 1]);
        assert(c[j] == b[j]);
        lemma_added_swap(
            sum_hash_within(h, c.remove(j), n - 2, fuel),
            hash_within(h, b[j], false, fuel),
            hash_within(h, b[n - 1], false, fuel),
        );
    }
}

/// The hash of a `Set` does not depend on the order of its elements.
pub proof fn law_set_hash_ignores_order(h: HostView, a: Seq<Value>, b: Seq<Value>, fuel: nat)
    requires
        a.to_multiset() == b.to_multiset(),
    ensures
        sum_hash_within(h, a, a.len() as int, fuel) == sum_hash_within(h, b, b.len() as int, fuel),
    decreases a.len(),
{
    broadcast use vstd::seq_lib::group_to_multiset_ensures;

    assert(a.len() == a.to_multiset().len());
    assert(b.len() == b.to_multiset().len());
    if a.len() > 0 {
        let x = a.last();
        assert(a[a.len() - 1] == x);
        assert(a.contains(x));
        assert(a.to_multiset().count(x) > 0);
        assert(b.contains(x));
        let j = choose|j: int| 0 <= j < b.len() && b[j] == x;
        let c = b.remove(j);
        assert(a.remove(a.len() - 1) =~= a.drop_last());
        assert(a.drop_last().to_multiset() =~= a.to_multiset().remove(x));
        assert(c.to_multiset() =~= b.to_multiset().remove(x));
        law_set_hash_ignores_order(h, a.drop_last(), c, fuel);
        lemma_sum_without(h, a, a.len() - 1, fuel);
        lemma_sum_without(h, b, j, fuel);
    }
}

proof fn lemma_entries_prefix(
    h: HostView,
    a: Seq<(Value, Value)>,
    b: Seq<(Value, Value)>,
    n: int,
    fuel: nat,
)
    requires
        n <= a.len(),
        n <= b.len(),
        forall|i: int| 0 <= i < n ==> a[i] == b[i],
    ensures
        entries_hash_within(h, a, n, fuel) == entries_hash_within(h, b, n, fuel),
    decreases n,
{
    if n > 0 {
        lemma_entries_prefix(h, a, b, n - 1, fuel);
    }
}

/// The hash of an entry.
pub open spec fn entry_hash(h: HostView, e: (Value, Value), fuel: nat) -> Option<i32> {
    match (hash_within(h, e.0, false, fuel), hash_within(h, e.1, false, fuel)) {
        (Some(k), Some(x)) => Some(k ^ x),
        _ => None,
    }
}

pub proof fn lemma_entries_without(h: HostView, b: Seq<(Value, Value)>, j: int, fuel: nat)
    requires
        0 <= j < b.len(),
    ensures
        entries_hash_within(h, b, b.len() as int, fuel) == added(
            entries_hash_within(h, b.remove(j), b.len() - 1, fuel),
            entry_hash(h, b[j], fuel),
        ),
    decreases b.len(),
{
    let n = b.len() as int;
    if j == n - 1 {
        assert(b.remove(j) =~= b.drop_last());
        lemma_entries_prefix(h, b, b.drop_last(), n - 1, fuel);
    } else {
        let c = b.drop_last();
        lemma_entries_without(h, c, j, fuel);
        lemma_entries_prefix(h, b, c, n - 1, fuel);
        lemma_entries_prefix(h, b.remove(j), c.remove(j), n - 2, fuel);
        assert(b.remove(j)[n - 2] == b[n - 1]);
        assert(c[j] == b[j]);
        lemma_added_swap(
            entries_hash_within(h, c.remove(j), n - 2, fuel),
            entry_hash(h, b[j], fuel),
            entry_hash(h, b[n - 1], fuel),
        );
        assert(entries_hash_within(h, b, n, fuel) == added(
            entries_hash_within(h, b, n - 1, fuel),
            entry_hash(h, b[n - 1], fuel),
        ));
        assert(entries_hash_within(h, b.remove(j), n - 1, fuel) == added(
            entries_hash_within(h, b.remove(j), n - 2, fuel),
            entry_hash(h, b[n - 1], fuel),
        ));
    }
}

/// The hash of a `Map` does not depend on the order of its entries.
pub proof fn law_map_hash_ignores_order(
    h: HostView,
    a: Seq<(Value, Value)>,
    b: Seq<(Value, Value)>,
    fuel: nat,
)
    requires
        a.to_multiset() == b.to_multiset(),
    ensures
        entries_hash_within(h, a, a.len() as int, fuel) == entries_hash_within(
            h,
            b,
            b.len() as int,
            fuel,
        ),
    decreases a.len(),
{
    broadcast use vstd::seq_lib::group_to_multiset_ensures;

    assert(a.len() == a.to_multiset().len());
    assert(b.len() == b.to_multiset().len());
    if a.len() > 0 {
        let x = a.last();
        assert(a[a.len() - 1] == x);
        assert(a.contains(x));
        assert(a.to_multiset().count(x) > 0);
        assert(b.contains(x));
        let j = choose|j: int| 0 <= j < b.len() && b[j] == x;
        let c = b.remove(j);
        assert(a.remove(a.len() - 1) =~= a.drop_last());
        assert(a.drop_last().to_multiset() =~= a.to_multiset().remove(x));
        assert(c.to_multiset() =~= b.to_multiset().remove(x));
        law_map_hash_ignores_order(h, a.drop_last(), c, fuel);
        lemma_entries_without(h, a, a.len() - 1, fuel);
        lemma_entries_without(h, b, j, fuel);
    }
}

proof fn lemma_found(h: HostView, x: Value, ys: Seq<Value>, i: int, j: int, fuel: nat)
    requires
        0 <= i <= j < ys.len(),
        ys[j] == x,
    ensures
        any_eq_within(h, x, ys, i, fuel) != Some(false),
    decreases j - i,
{
    law_equality_is_reflexive(h, x, fuel);
    if i < j {
        lemma_found(h, x, ys, i + 1, j, fuel);
    }
}

proof fn lemma_each_found(h: HostView, xs: Seq<Value>, ys: Seq<Value>, i: int, fuel: nat)
    requires
        0 <= i,
        forall|k: int| 0 <= k < xs.len() ==> ys.contains(#[trigger] xs[k]),
    ensures
        each_in_within(h, xs, ys, i, fuel) != Some(false),
    decreases xs.len() - i,
{
    if i < xs.len() {
        assert(ys.contains(xs[i]));
        let j = choose|j: int| 0 <= j < ys.len() && ys[j] == xs[i];
        lemma_found(h, xs[i], ys, 0, j, fuel);
        lemma_each_found(h, xs, ys, i + 1, fuel);
    }
}

/// Two `Set`s with the same elements in another order are equal, as far as the
/// comparison has an end.
pub proof fn law_set_equality_ignores_order(h: HostView, a: Seq<Value>, b: Seq<Value>, fuel: nat)
    requires
        a.to_multiset() == b.to_multiset(),
        obj_eq_within(h, ObjView::SetObj(a), ObjView::SetObj(b), fuel) is Some,
    ensures
        obj_eq_within(h, ObjView::SetObj(a), ObjView::SetObj(b), fuel) == Some(true),
{
    broadcast use vstd::seq_lib::group_to_multiset_ensures;

    assert(a.len() == a.to_multiset().len());
    assert(b.len() == b.to_multiset().len());
    assert forall|k: int| 0 <= k < a.len() implies b.contains(#[trigger] a[k]) by {
        assert(a.contains(a[k]));
        assert(a.to_multiset().count(a[k]) > 0);
    }
    lemma_each_found(h, a, b, 0, fuel);
}

} // verus!
