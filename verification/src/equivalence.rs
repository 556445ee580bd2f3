//! Equality is an equivalence, and equal values hash alike.
//!
//! Both speak of values without a circle: those whose hash is found within the
//! nesting budget.
use crate::value::{Value, CHAR_TAG};
use vstd::prelude::*;

verus! {

use crate::compare::{
    all_eq_within,
    any_entry_within,
    any_eq_within,
    data_fields,
    data_hash_within,
    each_in_within,
    entries_hash_within,
    entries_in_within,
    eq_within,
    field_values,
    fold_hash_within,
    hash_within,
    is_long_property,
    obj_eq_within,
    obj_hash_within,
    range_eq,
    scalar_eq,
    sum_hash_within,
};
use crate::equality::{
    entry_hash,
    law_equality_is_reflexive,
    lemma_entries_without,
    lemma_sum_without,
};
use crate::host::HostView;
use crate::order::entry_keys;
use crate::value::ObjView;

// ── Sound heaps ─────────────────────────────────────────────────────────────

/// The values of entries.
pub open spec fn entry_values(es: Seq<(Value, Value)>) -> Seq<Value> {
    es.map_values(|e: (Value, Value)| e.1)
}

/// The values that decide about the equality of an object.
pub open spec fn parts(o: ObjView) -> Seq<Value> {
    match o {
        ObjView::Instance { is_data, fields, data_from, data_len, .. } => if is_data {
            field_values(data_fields(fields, data_from, data_len))
        } else {
            Seq::empty()
        },
        ObjView::List(xs) => xs,
        ObjView::SetObj(xs) => xs,
        ObjView::MapObj(es) => entry_keys(es) + entry_values(es),
        ObjView::Pair(a, b) => seq![a, b],
        ObjView::Entry(a, b) => seq![a, b],
        ObjView::Triple(a, b, c) => seq![a, b, c],
        _ => Seq::empty(),
    }
}

/// Whether an object of the heap holds the value.
pub open spec fn is_held(h: HostView, x: Value) -> bool {
    exists|id: int, k: int|
        0 <= id < h.heap.len() && 0 <= k < parts(h.heap[id]).len() && #[trigger] parts(
            h.heap[id],
        )[k] == x
}

/// Whether the values are not an integer and a double of the same value. Such
/// two are equal, but hash as the JVM hashes each of them.
pub open spec fn are_apart(h: HostView, x: Value, y: Value) -> bool {
    (x is Int && y is Float) || (x is Float && y is Int) ==> !scalar_eq(h, x, y)
}

/// Whether no two of the values are equal, however far they are compared.
pub open spec fn are_unlike(h: HostView, xs: Seq<Value>) -> bool {
    forall|i: int, j: int, fuel: nat|
        0 <= i < xs.len() && 0 <= j < xs.len() && i != j ==> #[trigger] eq_within(
            h,
            xs[i],
            xs[j],
            fuel,
        ) != Some(true)
}

/// Whether a set has no element twice and a map no key.
pub open spec fn has_no_twins(h: HostView, o: ObjView) -> bool {
    match o {
        ObjView::SetObj(xs) => are_unlike(h, xs),
        ObjView::MapObj(es) => are_unlike(h, entry_keys(es)),
        _ => true,
    }
}

/// Whether two instances of one class agree in being `data`.
pub open spec fn are_alike_kinds(a: ObjView, b: ObjView) -> bool {
    match (a, b) {
        (
            ObjView::Instance { class: ca, is_data: da, .. },
            ObjView::Instance { class: cb, is_data: db, .. },
        ) => ca == cb ==> da == db,
        _ => true,
    }
}

/// Whether a heap is as a program makes it: handles are told apart from
/// characters, sets and maps have nothing twice, and a class is `data` or not.
/// Besides, no integer in it equals a double.
pub open spec fn is_sound(h: HostView) -> bool {
    &&& h.heap.len() <= CHAR_TAG
    &&& forall|id: int| 0 <= id < h.heap.len() ==> has_no_twins(h, #[trigger] h.heap[id])
    &&& forall|i: int, j: int|
        0 <= i < h.heap.len() && 0 <= j < h.heap.len() ==> are_alike_kinds(
            #[trigger] h.heap[i],
            #[trigger] h.heap[j],
        )
    &&& forall|x: Value, y: Value|
        #[trigger] is_held(h, x) && #[trigger] is_held(h, y) ==> are_apart(h, x, y)
}

/// Whether the hash of the value is found within `fuel`.
pub open spec fn is_hashed(h: HostView, v: Value, fuel: nat) -> bool {
    hash_within(h, v, false, fuel) is Some
}

/// Whether the value is compared with any other within `fuel`.
pub open spec fn is_within(h: HostView, v: Value, fuel: nat) -> bool {
    fuel > 0 && is_hashed(h, v, (fuel - 1) as nat)
}

/// Whether each of the values is compared with any other within `fuel`.
pub open spec fn all_within(h: HostView, xs: Seq<Value>, fuel: nat) -> bool {
    forall|i: int| 0 <= i < xs.len() ==> is_within(h, #[trigger] xs[i], fuel)
}

// ── Parts nest less deep ────────────────────────────────────────────────────

proof fn lemma_width_is_no_matter(h: HostView, v: Value, long: bool, fuel: nat)
    ensures
        hash_within(h, v, long, fuel) is Some == is_hashed(h, v, fuel),
        !(v is Int) ==> hash_within(h, v, long, fuel) == hash_within(h, v, false, fuel),
{
}

proof fn lemma_folded(h: HostView, xs: Seq<Value>, n: int, seed: i32, fuel: nat)
    requires
        n <= xs.len(),
        fold_hash_within(h, xs, n, seed, fuel) is Some,
    ensures
        forall|i: int| 0 <= i < n ==> is_hashed(h, #[trigger] xs[i], fuel),
    decreases n,
{
    if n > 0 {
        lemma_folded(h, xs, n - 1, seed, fuel);
    }
}

proof fn lemma_data_folded(
    h: HostView,
    xs: Seq<Value>,
    mask: Option<Seq<char>>,
    n: int,
    fuel: nat,
)
    requires
        n <= xs.len(),
        data_hash_within(h, xs, mask, n, fuel) is Some,
    ensures
        forall|i: int| 0 <= i < n ==> is_hashed(h, #[trigger] xs[i], fuel),
    decreases n,
{
    if n > 0 {
        lemma_width_is_no_matter(h, xs[n - 1], is_long_property(mask, n - 1), fuel);
        if n > 1 {
            lemma_data_folded(h, xs, mask, n - 1, fuel);
        }
    }
}

proof fn lemma_summed(h: HostView, xs: Seq<Value>, n: int, fuel: nat)
    requires
        n <= xs.len(),
        sum_hash_within(h, xs, n, fuel) is Some,
    ensures
        forall|i: int| 0 <= i < n ==> is_hashed(h, #[trigger] xs[i], fuel),
    decreases n,
{
    if n > 0 {
        lemma_summed(h, xs, n - 1, fuel);
    }
}

proof fn lemma_entries_summed(h: HostView, es: Seq<(Value, Value)>, n: int, fuel: nat)
    requires
        n <= es.len(),
        entries_hash_within(h, es, n, fuel) is Some,
    ensures
        forall|i: int|
            0 <= i < n ==> is_hashed(h, (#[trigger] es[i]).0, fuel) && is_hashed(
                h,
                es[i].1,
                fuel,
            ),
    decreases n,
{
    if n > 0 {
        lemma_entries_summed(h, es, n - 1, fuel);
    }
}

proof fn lemma_parts_are_within(h: HostView, v: Value, o: ObjView, fuel: nat)
    requires
        obj_hash_within(h, v, o, fuel) is Some,
    ensures
        all_within(h, parts(o), fuel + 1),
{
    match o {
        ObjView::Instance { class, is_data, fields, data_from, data_len } => if is_data {
            let own = field_values(data_fields(fields, data_from, data_len));
            lemma_data_folded(
                h,
                own,
                crate::compare::width_mask(h, class),
                own.len() as int,
                fuel,
            );
        },
        ObjView::List(xs) => {
            lemma_folded(h, xs, xs.len() as int, 1, fuel);
        },
        ObjView::SetObj(xs) => {
            lemma_summed(h, xs, xs.len() as int, fuel);
        },
        ObjView::MapObj(es) => {
            lemma_entries_summed(h, es, es.len() as int, fuel);
            let p = parts(o);
            assert forall|i: int| 0 <= i < p.len() implies is_within(h, #[trigger] p[i], fuel + 1) by {
                if i < es.len() {
                    assert(p[i] == es[i].0);
                } else {
                    assert(p[i] == es[i - es.len()].1);
                }
            }
        },
        ObjView::Pair(a, b) => {
            lemma_data_folded(h, seq![a, b], None, 2, fuel);
        },
        ObjView::Triple(a, b, c) => {
            lemma_data_folded(h, seq![a, b, c], None, 3, fuel);
        },
        _ => {},
    }
}

// ── Comparisons of sequences ────────────────────────────────────────────────

proof fn lemma_all(h: HostView, xs: Seq<Value>, ys: Seq<Value>, i: int, fuel: nat)
    requires
        0 <= i,
        forall|k: int|
            i <= k < xs.len() && k < ys.len() ==> #[trigger] eq_within(h, xs[k], ys[k], fuel)
                is Some,
    ensures
        all_eq_within(h, xs, ys, i, fuel) is Some,
        all_eq_within(h, xs, ys, i, fuel) == Some(true) <==> forall|k: int|
            i <= k < xs.len() && k < ys.len() ==> #[trigger] eq_within(h, xs[k], ys[k], fuel)
                == Some(true),
    decreases xs.len() - i,
{
    if i < xs.len() && i < ys.len() {
        lemma_all(h, xs, ys, i + 1, fuel);
        if eq_within(h, xs[i], ys[i], fuel) == Some(true) {
            assert(all_eq_within(h, xs, ys, i, fuel) == all_eq_within(h, xs, ys, i + 1, fuel));
        }
    }
}

proof fn lemma_any(h: HostView, x: Value, ys: Seq<Value>, j: int, fuel: nat)
    requires
        0 <= j,
        forall|k: int| j <= k < ys.len() ==> #[trigger] eq_within(h, x, ys[k], fuel) is Some,
    ensures
        any_eq_within(h, x, ys, j, fuel) is Some,
        any_eq_within(h, x, ys, j, fuel) == Some(true) <==> exists|k: int|
            j <= k < ys.len() && #[trigger] eq_within(h, x, ys[k], fuel) == Some(true),
    decreases ys.len() - j,
{
    if j < ys.len() {
        lemma_any(h, x, ys, j + 1, fuel);
        if eq_within(h, x, ys[j], fuel) == Some(false) {
            assert(any_eq_within(h, x, ys, j, fuel) == any_eq_within(h, x, ys, j + 1, fuel));
        }
    }
}

proof fn lemma_each(h: HostView, xs: Seq<Value>, ys: Seq<Value>, i: int, fuel: nat)
    requires
        0 <= i,
        forall|k: int|
            i <= k < xs.len() ==> #[trigger] any_eq_within(h, xs[k], ys, 0, fuel) is Some,
    ensures
        each_in_within(h, xs, ys, i, fuel) is Some,
        each_in_within(h, xs, ys, i, fuel) == Some(true) <==> forall|k: int|
            i <= k < xs.len() ==> #[trigger] any_eq_within(h, xs[k], ys, 0, fuel) == Some(true),
    decreases xs.len() - i,
{
    if i < xs.len() {
        lemma_each(h, xs, ys, i + 1, fuel);
        if any_eq_within(h, xs[i], ys, 0, fuel) == Some(true) {
            assert(each_in_within(h, xs, ys, i, fuel) == each_in_within(h, xs, ys, i + 1, fuel));
        }
    }
}

/// Whether two entries are equal.
spec fn entry_eq(h: HostView, e: (Value, Value), g: (Value, Value), fuel: nat) -> bool {
    eq_within(h, e.0, g.0, fuel) == Some(true) && eq_within(h, e.1, g.1, fuel) == Some(true)
}

/// Whether the comparison of two entries has an end.
spec fn entry_ends(h: HostView, e: (Value, Value), g: (Value, Value), fuel: nat) -> bool {
    eq_within(h, e.0, g.0, fuel) is Some && eq_within(h, e.1, g.1, fuel) is Some
}

proof fn lemma_any_entry(
    h: HostView,
    e: (Value, Value),
    es: Seq<(Value, Value)>,
    j: int,
    fuel: nat,
)
    requires
        0 <= j,
        forall|k: int| j <= k < es.len() ==> #[trigger] entry_ends(h, e, es[k], fuel),
    ensures
        any_entry_within(h, e, es, j, fuel) is Some,
        any_entry_within(h, e, es, j, fuel) == Some(true) <==> exists|k: int|
            j <= k < es.len() && #[trigger] entry_eq(h, e, es[k], fuel),
    decreases es.len() - j,
{
    if j < es.len() {
        lemma_any_entry(h, e, es, j + 1, fuel);
        assert(entry_ends(h, e, es[j], fuel));
        if entry_eq(h, e, es[j], fuel) {
        } else {
            assert(any_entry_within(h, e, es, j, fuel) == any_entry_within(h, e, es, j + 1, fuel));
        }
    }
}

proof fn lemma_entries(
    h: HostView,
    xs: Seq<(Value, Value)>,
    ys: Seq<(Value, Value)>,
    i: int,
    fuel: nat,
)
    requires
        0 <= i,
        forall|k: int|
            i <= k < xs.len() ==> #[trigger] any_entry_within(h, xs[k], ys, 0, fuel) is Some,
    ensures
        entries_in_within(h, xs, ys, i, fuel) is Some,
        entries_in_within(h, xs, ys, i, fuel) == Some(true) <==> forall|k: int|
            i <= k < xs.len() ==> #[trigger] any_entry_within(h, xs[k], ys, 0, fuel) == Some(true),
    decreases xs.len() - i,
{
    if i < xs.len() {
        lemma_entries(h, xs, ys, i + 1, fuel);
        if any_entry_within(h, xs[i], ys, 0, fuel) == Some(true) {
            assert(entries_in_within(h, xs, ys, i, fuel) == entries_in_within(
                h,
                xs,
                ys,
                i + 1,
                fuel,
            ));
        }
    }
}

// ── Comparisons end ─────────────────────────────────────────────────────────

/// Whether a comparison with each of `ys` ends for each of `xs`.
spec fn all_end(h: HostView, xs: Seq<Value>, ys: Seq<Value>, fuel: nat) -> bool {
    forall|i: int, j: int|
        0 <= i < xs.len() && 0 <= j < ys.len() ==> #[trigger] eq_within(h, xs[i], ys[j], fuel)
            is Some
}

proof fn lemma_comparison_ends(h: HostView, a: Value, b: Value, fuel: nat)
    requires
        h.heap.len() <= CHAR_TAG,
        is_within(h, a, fuel),
    ensures
        eq_within(h, a, b, fuel) is Some,
    decreases fuel, 0int,
{
    if a is Obj && b is Obj && a != b {
        if let (Some(oa), Some(ob)) = (h.obj(a), h.obj(b)) {
            let f = (fuel - 1) as nat;
            lemma_parts_are_within(h, a, oa, (f - 1) as nat);
            lemma_obj_comparison_ends(h, oa, ob, f);
        }
    }
}

proof fn lemma_all_end(h: HostView, xs: Seq<Value>, ys: Seq<Value>, fuel: nat)
    requires
        h.heap.len() <= CHAR_TAG,
        all_within(h, xs, fuel),
    ensures
        all_end(h, xs, ys, fuel),
    decreases fuel, 1int,
{
    assert forall|i: int, j: int|
        0 <= i < xs.len() && 0 <= j < ys.len() implies #[trigger] eq_within(h, xs[i], ys[j], fuel)
        is Some by {
        lemma_comparison_ends(h, xs[i], ys[j], fuel);
    }
}

/// The facts about the comparison of two sequences whose comparisons end.
proof fn lemma_sequences_end(h: HostView, xs: Seq<Value>, ys: Seq<Value>, fuel: nat)
    requires
        all_end(h, xs, ys, fuel),
    ensures
        all_eq_within(h, xs, ys, 0, fuel) is Some,
        all_eq_within(h, xs, ys, 0, fuel) == Some(true) <==> forall|k: int|
            0 <= k < xs.len() && k < ys.len() ==> #[trigger] eq_within(h, xs[k], ys[k], fuel)
                == Some(true),
        each_in_within(h, xs, ys, 0, fuel) is Some,
        each_in_within(h, xs, ys, 0, fuel) == Some(true) <==> forall|k: int|
            0 <= k < xs.len() ==> is_in(h, #[trigger] xs[k], ys, fuel),
{
    lemma_all(h, xs, ys, 0, fuel);
    assert forall|k: int| 0 <= k < xs.len() implies #[trigger] any_eq_within(
        h,
        xs[k],
        ys,
        0,
        fuel,
    ) is Some && (any_eq_within(h, xs[k], ys, 0, fuel) == Some(true) <==> is_in(
        h,
        xs[k],
        ys,
        fuel,
    )) by {
        lemma_any(h, xs[k], ys, 0, fuel);
    }
    lemma_each(h, xs, ys, 0, fuel);
    if each_in_within(h, xs, ys, 0, fuel) == Some(true) {
        assert forall|k: int| 0 <= k < xs.len() implies is_in(h, #[trigger] xs[k], ys, fuel) by {
            assert(any_eq_within(h, xs[k], ys, 0, fuel) == Some(true));
        }
    }
    if forall|k: int| 0 <= k < xs.len() ==> is_in(h, #[trigger] xs[k], ys, fuel) {
        assert forall|k: int| 0 <= k < xs.len() implies #[trigger] any_eq_within(
            h,
            xs[k],
            ys,
            0,
            fuel,
        ) == Some(true) by {
            assert(is_in(h, xs[k], ys, fuel));
        }
    }
}

/// Whether one of `ys` equals `x`.
spec fn is_in(h: HostView, x: Value, ys: Seq<Value>, fuel: nat) -> bool {
    exists|k: int| 0 <= k < ys.len() && #[trigger] eq_within(h, x, ys[k], fuel) == Some(true)
}

/// Whether one of `ys` equals the entry `e`.
spec fn is_entry_in(h: HostView, e: (Value, Value), ys: Seq<(Value, Value)>, fuel: nat) -> bool {
    exists|k: int| 0 <= k < ys.len() && #[trigger] entry_eq(h, e, ys[k], fuel)
}

/// The facts about the comparison of two maps whose comparisons end.
proof fn lemma_maps_end(
    h: HostView,
    xs: Seq<(Value, Value)>,
    ys: Seq<(Value, Value)>,
    fuel: nat,
)
    requires
        all_end(h, entry_keys(xs), entry_keys(ys), fuel),
        all_end(h, entry_values(xs), entry_values(ys), fuel),
    ensures
        entries_in_within(h, xs, ys, 0, fuel) is Some,
        entries_in_within(h, xs, ys, 0, fuel) == Some(true) <==> forall|k: int|
            0 <= k < xs.len() ==> is_entry_in(h, #[trigger] xs[k], ys, fuel),
{
    assert forall|k: int| 0 <= k < xs.len() implies #[trigger] any_entry_within(
        h,
        xs[k],
        ys,
        0,
        fuel,
    ) is Some && (any_entry_within(h, xs[k], ys, 0, fuel) == Some(true) <==> is_entry_in(
        h,
        xs[k],
        ys,
        fuel,
    )) by {
        assert forall|j: int| 0 <= j < ys.len() implies #[trigger] entry_ends(
            h,
            xs[k],
            ys[j],
            fuel,
        ) by {
            assert(eq_within(h, entry_keys(xs)[k], entry_keys(ys)[j], fuel) is Some);
            assert(eq_within(h, entry_values(xs)[k], entry_values(ys)[j], fuel) is Some);
        }
        lemma_any_entry(h, xs[k], ys, 0, fuel);
    }
    lemma_entries(h, xs, ys, 0, fuel);
    if entries_in_within(h, xs, ys, 0, fuel) == Some(true) {
        assert forall|k: int| 0 <= k < xs.len() implies is_entry_in(
            h,
            #[trigger] xs[k],
            ys,
            fuel,
        ) by {
            assert(any_entry_within(h, xs[k], ys, 0, fuel) == Some(true));
        }
    }
    if forall|k: int| 0 <= k < xs.len() ==> is_entry_in(h, #[trigger] xs[k], ys, fuel) {
        assert forall|k: int| 0 <= k < xs.len() implies #[trigger] any_entry_within(
            h,
            xs[k],
            ys,
            0,
            fuel,
        ) == Some(true) by {
            assert(is_entry_in(h, xs[k], ys, fuel));
        }
    }
}

proof fn lemma_map_parts(es: Seq<(Value, Value)>)
    ensures
        parts(ObjView::MapObj(es)).len() == 2 * es.len(),
        forall|i: int|
            0 <= i < es.len() ==> parts(ObjView::MapObj(es))[i] == (#[trigger] es[i]).0 && parts(
                ObjView::MapObj(es),
            )[es.len() + i] == es[i].1,
{
}

proof fn lemma_map_within(h: HostView, es: Seq<(Value, Value)>, fuel: nat)
    requires
        all_within(h, parts(ObjView::MapObj(es)), fuel),
    ensures
        all_within(h, entry_keys(es), fuel),
        all_within(h, entry_values(es), fuel),
{
    let p = parts(ObjView::MapObj(es));
    lemma_map_parts(es);
    assert forall|i: int| 0 <= i < es.len() implies is_within(
        h,
        #[trigger] entry_keys(es)[i],
        fuel,
    ) by {
        assert(p[i] == es[i].0);
    }
    assert forall|i: int| 0 <= i < es.len() implies is_within(
        h,
        #[trigger] entry_values(es)[i],
        fuel,
    ) by {
        assert(p[es.len() + i] == es[i].1);
    }
}

proof fn lemma_obj_comparison_ends(h: HostView, a: ObjView, b: ObjView, fuel: nat)
    requires
        h.heap.len() <= CHAR_TAG,
        all_within(h, parts(a), fuel),
    ensures
        obj_eq_within(h, a, b, fuel) is Some,
    decreases fuel, 2int,
{
    match (a, b) {
        (ObjView::MapObj(ea), ObjView::MapObj(eb)) => {
            lemma_map_within(h, ea, fuel);
            lemma_all_end(h, entry_keys(ea), entry_keys(eb), fuel);
            lemma_all_end(h, entry_values(ea), entry_values(eb), fuel);
            lemma_maps_end(h, ea, eb, fuel);
        },
        (
            ObjView::Instance { is_data, fields: fa, data_from: da, data_len: la, .. },
            ObjView::Instance { fields: fb, data_from: db, data_len: lb, .. },
        ) => if is_data {
            let ys = field_values(data_fields(fb, db, lb));
            lemma_all_end(h, parts(a), ys, fuel);
            lemma_sequences_end(h, parts(a), ys, fuel);
        },
        _ => {
            lemma_all_end(h, parts(a), parts(b), fuel);
            lemma_sequences_end(h, parts(a), parts(b), fuel);
        },
    }
}

// ── Two that equal a third are equal ────────────────────────────────────────

/// Whether the kind of object is compared by its parts.
spec fn is_structural(o: ObjView) -> bool {
    match o {
        ObjView::Instance { is_data, .. } => is_data,
        ObjView::List(_) => true,
        ObjView::SetObj(_) => true,
        ObjView::MapObj(_) => true,
        ObjView::Pair(_, _) => true,
        ObjView::Entry(_, _) => true,
        ObjView::Triple(_, _, _) => true,
        ObjView::Range(_) => true,
        _ => false,
    }
}

proof fn lemma_obj_reflexive(h: HostView, o: ObjView, fuel: nat)
    requires
        h.heap.len() <= CHAR_TAG,
        is_structural(o),
        all_within(h, parts(o), fuel),
    ensures
        obj_eq_within(h, o, o, fuel) == Some(true),
{
    let xs = parts(o);
    lemma_all_end(h, xs, xs, fuel);
    lemma_sequences_end(h, xs, xs, fuel);
    assert forall|k: int| 0 <= k < xs.len() implies eq_within(h, #[trigger] xs[k], xs[k], fuel)
        == Some(true) && is_in(h, xs[k], xs, fuel) by {
        law_equality_is_reflexive(h, xs[k], fuel);
    }
    if let ObjView::MapObj(es) = o {
        lemma_map_within(h, es, fuel);
        lemma_all_end(h, entry_keys(es), entry_keys(es), fuel);
        lemma_all_end(h, entry_values(es), entry_values(es), fuel);
        lemma_maps_end(h, es, es, fuel);
        assert forall|k: int| 0 <= k < es.len() implies is_entry_in(
            h,
            #[trigger] es[k],
            es,
            fuel,
        ) by {
            law_equality_is_reflexive(h, es[k].0, fuel);
            law_equality_is_reflexive(h, es[k].1, fuel);
            assert(entry_eq(h, es[k], es[k], fuel));
        }
    }
}

/// What stands at `n` different places among `n` stands at each of them.
proof fn lemma_onto(s: Seq<int>, n: int)
    requires
        s.len() == n,
        s.no_duplicates(),
        forall|i: int| 0 <= i < n ==> 0 <= #[trigger] s[i] < n,
    ensures
        forall|m: int| 0 <= m < n ==> #[trigger] s.contains(m),
{
    let all = vstd::set_lib::set_int_range(0, n);
    vstd::set_lib::lemma_int_range(0, n);
    s.unique_seq_to_set();
    assert(s.to_set().subset_of(all));
    vstd::set_lib::lemma_subset_equality(s.to_set(), all);
    assert forall|m: int| 0 <= m < n implies #[trigger] s.contains(m) by {
        assert(all.contains(m));
        assert(s.to_set().contains(m));
    }
}

/// The places at which the elements of a set are found in another.
spec fn places(h: HostView, xs: Seq<Value>, ys: Seq<Value>, fuel: nat) -> Seq<int> {
    Seq::new(
        xs.len(),
        |i: int|
            choose|k: int|
                0 <= k < ys.len() && #[trigger] eq_within(h, xs[i], ys[k], fuel) == Some(true),
    )
}

/// The places at which the entries of a map are found in another.
spec fn entry_places(
    h: HostView,
    xs: Seq<(Value, Value)>,
    ys: Seq<(Value, Value)>,
    fuel: nat,
) -> Seq<int> {
    Seq::new(
        xs.len(),
        |i: int| choose|k: int| 0 <= k < ys.len() && #[trigger] entry_eq(h, xs[i], ys[k], fuel),
    )
}

proof fn lemma_held(h: HostView, id: int, k: int)
    requires
        0 <= id < h.heap.len(),
        0 <= k < parts(h.heap[id]).len(),
    ensures
        is_held(h, parts(h.heap[id])[k]),
{
}

/// [`lemma_meet`] for parts of objects of the heap.
proof fn lemma_parts_meet(
    h: HostView,
    a: int,
    i: int,
    b: int,
    j: int,
    c: int,
    k: int,
    fuel: nat,
)
    requires
        is_sound(h),
        0 <= a < h.heap.len(),
        0 <= b < h.heap.len(),
        0 <= c < h.heap.len(),
        0 <= i < parts(h.heap[a]).len(),
        0 <= j < parts(h.heap[b]).len(),
        0 <= k < parts(h.heap[c]).len(),
        is_within(h, parts(h.heap[a])[i], fuel),
        is_within(h, parts(h.heap[b])[j], fuel),
        is_within(h, parts(h.heap[c])[k], fuel),
        eq_within(h, parts(h.heap[a])[i], parts(h.heap[c])[k], fuel) == Some(true),
        eq_within(h, parts(h.heap[b])[j], parts(h.heap[c])[k], fuel) == Some(true),
    ensures
        eq_within(h, parts(h.heap[a])[i], parts(h.heap[b])[j], fuel) == Some(true),
    decreases fuel, 1int,
{
    lemma_held(h, a, i);
    lemma_held(h, b, j);
    lemma_held(h, c, k);
    lemma_meet(h, parts(h.heap[a])[i], parts(h.heap[b])[j], parts(h.heap[c])[k], fuel);
}

/// Two values that equal a third are equal.
proof fn lemma_meet(h: HostView, a: Value, b: Value, c: Value, fuel: nat)
    requires
        is_sound(h),
        are_apart(h, a, b),
        are_apart(h, a, c),
        are_apart(h, b, c),
        is_within(h, a, fuel),
        is_within(h, b, fuel),
        is_within(h, c, fuel),
        eq_within(h, a, c, fuel) == Some(true),
        eq_within(h, b, c, fuel) == Some(true),
    ensures
        eq_within(h, a, b, fuel) == Some(true),
    decreases fuel, 0int,
{
    if let (Value::Obj(x), Value::Obj(y), Value::Obj(z)) = (a, b, c) {
        if x != y && y != z {
            let f = (fuel - 1) as nat;
            lemma_parts_are_within(h, b, h.obj(b)->0, (f - 1) as nat);
            lemma_parts_are_within(h, c, h.obj(c)->0, (f - 1) as nat);
            if x == z {
                lemma_obj_reflexive(h, h.obj(c)->0, f);
            } else {
                lemma_parts_are_within(h, a, h.obj(a)->0, (f - 1) as nat);
            }
            lemma_obj_meet(h, x as int, y as int, z as int, f);
        }
    }
}

/// Sequences of parts that equal a third pairwise are equal pairwise.
proof fn lemma_pairwise_meet(h: HostView, a: int, b: int, c: int, fuel: nat)
    requires
        is_sound(h),
        0 <= a < h.heap.len(),
        0 <= b < h.heap.len(),
        0 <= c < h.heap.len(),
        all_within(h, parts(h.heap[a]), fuel),
        all_within(h, parts(h.heap[b]), fuel),
        all_within(h, parts(h.heap[c]), fuel),
        parts(h.heap[a]).len() == parts(h.heap[c]).len(),
        parts(h.heap[b]).len() == parts(h.heap[c]).len(),
        all_eq_within(h, parts(h.heap[a]), parts(h.heap[c]), 0, fuel) == Some(true),
        all_eq_within(h, parts(h.heap[b]), parts(h.heap[c]), 0, fuel) == Some(true),
    ensures
        all_eq_within(h, parts(h.heap[a]), parts(h.heap[b]), 0, fuel) == Some(true),
    decreases fuel, 2int,
{
    let xs = parts(h.heap[a]);
    let ys = parts(h.heap[b]);
    let zs = parts(h.heap[c]);
    lemma_all_end(h, xs, zs, fuel);
    lemma_all_end(h, ys, zs, fuel);
    lemma_all_end(h, xs, ys, fuel);
    lemma_all(h, xs, zs, 0, fuel);
    lemma_all(h, ys, zs, 0, fuel);
    lemma_all(h, xs, ys, 0, fuel);
    assert forall|k: int| 0 <= k < xs.len() && k < ys.len() implies #[trigger] eq_within(
        h,
        xs[k],
        ys[k],
        fuel,
    ) == Some(true) by {
        assert(eq_within(h, xs[k], zs[k], fuel) == Some(true));
        assert(eq_within(h, ys[k], zs[k], fuel) == Some(true));
        lemma_parts_meet(h, a, k, b, k, c, k, fuel);
    }
}

/// Two objects that equal a third are equal.
proof fn lemma_obj_meet(h: HostView, a: int, b: int, c: int, fuel: nat)
    requires
        is_sound(h),
        0 <= a < h.heap.len(),
        0 <= b < h.heap.len(),
        0 <= c < h.heap.len(),
        all_within(h, parts(h.heap[a]), fuel),
        all_within(h, parts(h.heap[b]), fuel),
        all_within(h, parts(h.heap[c]), fuel),
        obj_eq_within(h, h.heap[a], h.heap[c], fuel) == Some(true),
        obj_eq_within(h, h.heap[b], h.heap[c], fuel) == Some(true),
    ensures
        obj_eq_within(h, h.heap[a], h.heap[b], fuel) == Some(true),
    decreases fuel, 5int,
{
    assert(are_alike_kinds(h.heap[a], h.heap[c]));
    assert(are_alike_kinds(h.heap[b], h.heap[c]));
    match h.heap[c] {
        ObjView::SetObj(_) => {
            lemma_sets_meet(h, a, b, c, fuel);
        },
        ObjView::MapObj(_) => {
            lemma_maps_meet(h, a, b, c, fuel);
        },
        ObjView::Range(_) => {},
        _ => {
            lemma_pairwise_meet(h, a, b, c, fuel);
        },
    }
}

/// The elements of a set are found at different places in a set that it equals.
proof fn lemma_places(h: HostView, a: int, c: int, fuel: nat)
    requires
        is_sound(h),
        0 <= a < h.heap.len(),
        0 <= c < h.heap.len(),
        h.heap[a] is SetObj,
        h.heap[c] is SetObj,
        all_within(h, parts(h.heap[a]), fuel),
        all_within(h, parts(h.heap[c]), fuel),
        obj_eq_within(h, h.heap[a], h.heap[c], fuel) == Some(true),
    ensures
        ({
            let xs = parts(h.heap[a]);
            let zs = parts(h.heap[c]);
            let at = places(h, xs, zs, fuel);
            &&& xs.len() == zs.len()
            &&& at.no_duplicates()
            &&& forall|i: int|
                0 <= i < xs.len() ==> 0 <= #[trigger] at[i] < zs.len() && eq_within(
                    h,
                    xs[i],
                    zs[at[i]],
                    fuel,
                ) == Some(true)
        }),
    decreases fuel, 2int,
{
    let xs = parts(h.heap[a]);
    let zs = parts(h.heap[c]);
    let at = places(h, xs, zs, fuel);
    lemma_all_end(h, xs, zs, fuel);
    lemma_sequences_end(h, xs, zs, fuel);
    assert forall|i: int| 0 <= i < xs.len() implies 0 <= #[trigger] at[i] < zs.len() && eq_within(
        h,
        xs[i],
        zs[at[i]],
        fuel,
    ) == Some(true) by {
        assert(is_in(h, xs[i], zs, fuel));
    }
    assert forall|i: int, j: int| 0 <= i < at.len() && 0 <= j < at.len() && i != j implies at[i]
        != at[j] by {
        if at[i] == at[j] {
            assert(0 <= at[i] < zs.len());
            lemma_parts_meet(h, a, i, a, j, c, at[i], fuel);
            assert(has_no_twins(h, h.heap[a]));
            assert(eq_within(h, xs[i], xs[j], fuel) != Some(true));
        }
    }
}

proof fn lemma_sets_meet(h: HostView, a: int, b: int, c: int, fuel: nat)
    requires
        is_sound(h),
        0 <= a < h.heap.len(),
        0 <= b < h.heap.len(),
        0 <= c < h.heap.len(),
        h.heap[a] is SetObj,
        h.heap[b] is SetObj,
        h.heap[c] is SetObj,
        all_within(h, parts(h.heap[a]), fuel),
        all_within(h, parts(h.heap[b]), fuel),
        all_within(h, parts(h.heap[c]), fuel),
        obj_eq_within(h, h.heap[a], h.heap[c], fuel) == Some(true),
        obj_eq_within(h, h.heap[b], h.heap[c], fuel) == Some(true),
    ensures
        obj_eq_within(h, h.heap[a], h.heap[b], fuel) == Some(true),
    decreases fuel, 3int,
{
    let xs = parts(h.heap[a]);
    let ys = parts(h.heap[b]);
    let zs = parts(h.heap[c]);
    lemma_places(h, a, c, fuel);
    lemma_places(h, b, c, fuel);
    let at = places(h, xs, zs, fuel);
    let bt = places(h, ys, zs, fuel);
    lemma_onto(bt, zs.len() as int);
    lemma_all_end(h, xs, ys, fuel);
    lemma_sequences_end(h, xs, ys, fuel);
    assert forall|i: int| 0 <= i < xs.len() implies is_in(h, #[trigger] xs[i], ys, fuel) by {
        assert(0 <= at[i] < zs.len());
        assert(bt.contains(at[i]));
        let j = choose|j: int| 0 <= j < bt.len() && bt[j] == at[i];
        lemma_parts_meet(h, a, i, b, j, c, at[i], fuel);
    }
}

/// The entries of a map.
spec fn entries_of(o: ObjView) -> Seq<(Value, Value)> {
    match o {
        ObjView::MapObj(es) => es,
        _ => Seq::empty(),
    }
}

/// [`lemma_meet`] for entries of maps of the heap.
proof fn lemma_entries_meet(
    h: HostView,
    a: int,
    i: int,
    b: int,
    j: int,
    c: int,
    k: int,
    fuel: nat,
)
    requires
        is_sound(h),
        0 <= a < h.heap.len(),
        0 <= b < h.heap.len(),
        0 <= c < h.heap.len(),
        h.heap[a] is MapObj,
        h.heap[b] is MapObj,
        h.heap[c] is MapObj,
        all_within(h, parts(h.heap[a]), fuel),
        all_within(h, parts(h.heap[b]), fuel),
        all_within(h, parts(h.heap[c]), fuel),
        0 <= i < entries_of(h.heap[a]).len(),
        0 <= j < entries_of(h.heap[b]).len(),
        0 <= k < entries_of(h.heap[c]).len(),
        entry_eq(h, entries_of(h.heap[a])[i], entries_of(h.heap[c])[k], fuel),
        entry_eq(h, entries_of(h.heap[b])[j], entries_of(h.heap[c])[k], fuel),
    ensures
        entry_eq(h, entries_of(h.heap[a])[i], entries_of(h.heap[b])[j], fuel),
    decreases fuel, 2int,
{
    let xs = entries_of(h.heap[a]);
    let ys = entries_of(h.heap[b]);
    let zs = entries_of(h.heap[c]);
    lemma_map_parts(xs);
    lemma_map_parts(ys);
    lemma_map_parts(zs);
    assert(parts(h.heap[a])[i] == xs[i].0 && parts(h.heap[a])[xs.len() + i] == xs[i].1);
    assert(parts(h.heap[b])[j] == ys[j].0 && parts(h.heap[b])[ys.len() + j] == ys[j].1);
    assert(parts(h.heap[c])[k] == zs[k].0 && parts(h.heap[c])[zs.len() + k] == zs[k].1);
    lemma_parts_meet(h, a, i, b, j, c, k, fuel);
    lemma_parts_meet(h, a, xs.len() + i, b, ys.len() + j, c, zs.len() + k, fuel);
}

/// The entries of a map are found at different places in a map that it equals.
proof fn lemma_entry_places(h: HostView, a: int, c: int, fuel: nat)
    requires
        is_sound(h),
        0 <= a < h.heap.len(),
        0 <= c < h.heap.len(),
        h.heap[a] is MapObj,
        h.heap[c] is MapObj,
        all_within(h, parts(h.heap[a]), fuel),
        all_within(h, parts(h.heap[c]), fuel),
        obj_eq_within(h, h.heap[a], h.heap[c], fuel) == Some(true),
    ensures
        ({
            let xs = entries_of(h.heap[a]);
            let zs = entries_of(h.heap[c]);
            let at = entry_places(h, xs, zs, fuel);
            &&& xs.len() == zs.len()
            &&& at.no_duplicates()
            &&& forall|i: int|
                0 <= i < xs.len() ==> 0 <= #[trigger] at[i] < zs.len() && entry_eq(
                    h,
                    xs[i],
                    zs[at[i]],
                    fuel,
                )
        }),
    decreases fuel, 3int,
{
    let xs = entries_of(h.heap[a]);
    let zs = entries_of(h.heap[c]);
    let at = entry_places(h, xs, zs, fuel);
    lemma_map_within(h, xs, fuel);
    lemma_all_end(h, entry_keys(xs), entry_keys(zs), fuel);
    lemma_all_end(h, entry_values(xs), entry_values(zs), fuel);
    lemma_maps_end(h, xs, zs, fuel);
    assert forall|i: int| 0 <= i < xs.len() implies 0 <= #[trigger] at[i] < zs.len() && entry_eq(
        h,
        xs[i],
        zs[at[i]],
        fuel,
    ) by {
        assert(is_entry_in(h, xs[i], zs, fuel));
    }
    assert forall|i: int, j: int| 0 <= i < at.len() && 0 <= j < at.len() && i != j implies at[i]
        != at[j] by {
        if at[i] == at[j] {
            assert(0 <= at[i] < zs.len());
            assert(0 <= at[j] < zs.len());
            lemma_entries_meet(h, a, i, a, j, c, at[i], fuel);
            assert(has_no_twins(h, h.heap[a]));
            assert(entry_keys(xs)[i] == xs[i].0 && entry_keys(xs)[j] == xs[j].0);
            assert(eq_within(h, entry_keys(xs)[i], entry_keys(xs)[j], fuel) != Some(true));
        }
    }
}

proof fn lemma_maps_meet(h: HostView, a: int, b: int, c: int, fuel: nat)
    requires
        is_sound(h),
        0 <= a < h.heap.len(),
        0 <= b < h.heap.len(),
        0 <= c < h.heap.len(),
        h.heap[a] is MapObj,
        h.heap[b] is MapObj,
        h.heap[c] is MapObj,
        all_within(h, parts(h.heap[a]), fuel),
        all_within(h, parts(h.heap[b]), fuel),
        all_within(h, parts(h.heap[c]), fuel),
        obj_eq_within(h, h.heap[a], h.heap[c], fuel) == Some(true),
        obj_eq_within(h, h.heap[b], h.heap[c], fuel) == Some(true),
    ensures
        obj_eq_within(h, h.heap[a], h.heap[b], fuel) == Some(true),
    decreases fuel, 4int,
{
    let xs = entries_of(h.heap[a]);
    let ys = entries_of(h.heap[b]);
    let zs = entries_of(h.heap[c]);
    lemma_entry_places(h, a, c, fuel);
    lemma_entry_places(h, b, c, fuel);
    let at = entry_places(h, xs, zs, fuel);
    let bt = entry_places(h, ys, zs, fuel);
    lemma_onto(bt, zs.len() as int);
    lemma_map_within(h, xs, fuel);
    lemma_all_end(h, entry_keys(xs), entry_keys(ys), fuel);
    lemma_all_end(h, entry_values(xs), entry_values(ys), fuel);
    lemma_maps_end(h, xs, ys, fuel);
    assert forall|i: int| 0 <= i < xs.len() implies is_entry_in(h, #[trigger] xs[i], ys, fuel) by {
        assert(0 <= at[i] < zs.len());
        assert(bt.contains(at[i]));
        let j = choose|j: int| 0 <= j < bt.len() && bt[j] == at[i];
        lemma_entries_meet(h, a, i, b, j, c, at[i], fuel);
    }
}

// ── Equal values hash alike ─────────────────────────────────────────────────

/// Whether equal ranges that are not empty agree in being a progression. On the
/// JVM `1..3` and `1..3 step 1` are equal, but hash differently.
pub open spec fn has_alike_ranges(h: HostView) -> bool {
    forall|i: int, j: int|
        0 <= i < h.heap.len() && 0 <= j < h.heap.len() ==> match (
            #[trigger] h.heap[i],
            #[trigger] h.heap[j],
        ) {
            (ObjView::Range(a), ObjView::Range(b)) => range_eq(a, b) && !a.is_void()
                ==> a.progression == b.progression,
            _ => true,
        }
}

/// Whether the values hash alike, pairwise.
spec fn hash_alike(h: HostView, xs: Seq<Value>, ys: Seq<Value>, fuel: nat) -> bool {
    xs.len() == ys.len() && forall|k: int, long: bool|
        0 <= k < xs.len() ==> hash_within(h, xs[k], long, fuel) == #[trigger] hash_within(
            h,
            ys[k],
            long,
            fuel,
        )
}

proof fn lemma_folds_alike(h: HostView, xs: Seq<Value>, ys: Seq<Value>, n: int, seed: i32, fuel: nat)
    requires
        hash_alike(h, xs, ys, fuel),
        n <= xs.len(),
    ensures
        fold_hash_within(h, xs, n, seed, fuel) == fold_hash_within(h, ys, n, seed, fuel),
    decreases n,
{
    if n > 0 {
        lemma_folds_alike(h, xs, ys, n - 1, seed, fuel);
        assert(hash_within(h, xs[n - 1], false, fuel) == hash_within(h, ys[n - 1], false, fuel));
    }
}

proof fn lemma_data_folds_alike(
    h: HostView,
    xs: Seq<Value>,
    ys: Seq<Value>,
    mask: Option<Seq<char>>,
    n: int,
    fuel: nat,
)
    requires
        hash_alike(h, xs, ys, fuel),
        n <= xs.len(),
    ensures
        data_hash_within(h, xs, mask, n, fuel) == data_hash_within(h, ys, mask, n, fuel),
    decreases n,
{
    if n > 0 {
        let long = is_long_property(mask, n - 1);
        assert(hash_within(h, xs[n - 1], long, fuel) == hash_within(h, ys[n - 1], long, fuel));
        if n > 1 {
            lemma_data_folds_alike(h, xs, ys, mask, n - 1, fuel);
        }
    }
}

/// The places that are left when the one at the end of `s` is taken out.
spec fn without_last_place(s: Seq<int>) -> Seq<int> {
    s.drop_last().map_values(
        |p: int|
            if p < s.last() {
                p
            } else {
                p - 1
            },
    )
}

proof fn lemma_sums_alike(h: HostView, xs: Seq<Value>, ys: Seq<Value>, s: Seq<int>, fuel: nat)
    requires
        xs.len() == ys.len(),
        xs.len() == s.len(),
        s.no_duplicates(),
        forall|i: int|
            0 <= i < s.len() ==> 0 <= #[trigger] s[i] < ys.len() && hash_within(
                h,
                xs[i],
                false,
                fuel,
            ) == hash_within(h, ys[s[i]], false, fuel),
    ensures
        sum_hash_within(h, xs, xs.len() as int, fuel) == sum_hash_within(
            h,
            ys,
            ys.len() as int,
            fuel,
        ),
    decreases xs.len(),
{
    if xs.len() > 0 {
        let n = xs.len() as int;
        let k = s[n - 1];
        let t = without_last_place(s);
        let rest = ys.remove(k);
        assert forall|i: int| 0 <= i < n - 1 implies 0 <= #[trigger] t[i] < n - 1 && rest[t[i]]
            == ys[s[i]] by {
            assert(s[i] != s[n - 1]);
        }
        assert(t.no_duplicates()) by {
            assert forall|i: int, j: int| 0 <= i < t.len() && 0 <= j < t.len() && i != j implies t[i]
                != t[j] by {
                assert(s[i] != s[j] && s[i] != s[n - 1] && s[j] != s[n - 1]);
            }
        }
        assert forall|i: int| 0 <= i < t.len() implies 0 <= #[trigger] t[i] < rest.len()
            && hash_within(h, xs.drop_last()[i], false, fuel) == hash_within(
            h,
            rest[t[i]],
            false,
            fuel,
        ) by {
            assert(0 <= s[i] < ys.len());
        }
        lemma_sums_alike(h, xs.drop_last(), rest, t, fuel);
        lemma_sum_without(h, xs, n - 1, fuel);
        assert(xs.remove(n - 1) =~= xs.drop_last());
        lemma_sum_without(h, ys, k, fuel);
    }
}

proof fn lemma_entry_sums_alike(
    h: HostView,
    xs: Seq<(Value, Value)>,
    ys: Seq<(Value, Value)>,
    s: Seq<int>,
    fuel: nat,
)
    requires
        xs.len() == ys.len(),
        xs.len() == s.len(),
        s.no_duplicates(),
        forall|i: int|
            0 <= i < s.len() ==> 0 <= #[trigger] s[i] < ys.len() && entry_hash(h, xs[i], fuel)
                == entry_hash(h, ys[s[i]], fuel),
    ensures
        entries_hash_within(h, xs, xs.len() as int, fuel) == entries_hash_within(
            h,
            ys,
            ys.len() as int,
            fuel,
        ),
    decreases xs.len(),
{
    if xs.len() > 0 {
        let n = xs.len() as int;
        let k = s[n - 1];
        let t = without_last_place(s);
        let rest = ys.remove(k);
        assert forall|i: int| 0 <= i < n - 1 implies 0 <= #[trigger] t[i] < n - 1 && rest[t[i]]
            == ys[s[i]] by {
            assert(s[i] != s[n - 1]);
        }
        assert(t.no_duplicates()) by {
            assert forall|i: int, j: int| 0 <= i < t.len() && 0 <= j < t.len() && i != j implies t[i]
                != t[j] by {
                assert(s[i] != s[j] && s[i] != s[n - 1] && s[j] != s[n - 1]);
            }
        }
        assert forall|i: int| 0 <= i < t.len() implies 0 <= #[trigger] t[i] < rest.len()
            && entry_hash(h, xs.drop_last()[i], fuel) == entry_hash(h, rest[t[i]], fuel) by {
            assert(0 <= s[i] < ys.len());
        }
        lemma_entry_sums_alike(h, xs.drop_last(), rest, t, fuel);
        lemma_entries_without(h, xs, n - 1, fuel);
        assert(xs.remove(n - 1) =~= xs.drop_last());
        lemma_entries_without(h, ys, k, fuel);
    }
}

/// [`law_equal_values_hash_alike`] for parts of objects of the heap.
proof fn lemma_parts_hash_alike(h: HostView, a: int, i: int, b: int, j: int, long: bool, fuel: nat)
    requires
        is_sound(h),
        has_alike_ranges(h),
        0 <= a < h.heap.len(),
        0 <= b < h.heap.len(),
        0 <= i < parts(h.heap[a]).len(),
        0 <= j < parts(h.heap[b]).len(),
        is_hashed(h, parts(h.heap[a])[i], fuel),
        is_hashed(h, parts(h.heap[b])[j], fuel),
        eq_within(h, parts(h.heap[a])[i], parts(h.heap[b])[j], fuel + 1) == Some(true),
    ensures
        hash_within(h, parts(h.heap[a])[i], long, fuel) == hash_within(
            h,
            parts(h.heap[b])[j],
            long,
            fuel,
        ),
    decreases fuel, 1int,
{
    lemma_held(h, a, i);
    lemma_held(h, b, j);
    law_equal_values_hash_alike(h, parts(h.heap[a])[i], parts(h.heap[b])[j], long, fuel);
}

/// Equal values hash alike.
pub proof fn law_equal_values_hash_alike(h: HostView, a: Value, b: Value, long: bool, fuel: nat)
    requires
        is_sound(h),
        has_alike_ranges(h),
        are_apart(h, a, b),
        is_hashed(h, a, fuel),
        is_hashed(h, b, fuel),
        eq_within(h, a, b, fuel + 1) == Some(true),
    ensures
        hash_within(h, a, long, fuel) == hash_within(h, b, long, fuel),
    decreases fuel, 0int,
{
    match (a, b) {
        (Value::Obj(x), Value::Obj(y)) => if x != y {
            let f = (fuel - 1) as nat;
            lemma_parts_are_within(h, a, h.obj(a)->0, f);
            lemma_parts_are_within(h, b, h.obj(b)->0, f);
            lemma_objs_hash_alike(h, x as int, y as int, f);
        },
        (Value::Float(x), Value::Float(y)) => {
            crate::double::law_equal_doubles_hash_alike(h.double(x).bits, h.double(y).bits);
        },
        _ => {},
    }
}

proof fn lemma_objs_hash_alike(h: HostView, a: int, b: int, fuel: nat)
    requires
        is_sound(h),
        has_alike_ranges(h),
        0 <= a < h.heap.len(),
        0 <= b < h.heap.len(),
        all_within(h, parts(h.heap[a]), fuel + 1),
        all_within(h, parts(h.heap[b]), fuel + 1),
        obj_eq_within(h, h.heap[a], h.heap[b], fuel + 1) == Some(true),
    ensures
        obj_hash_within(h, Value::Obj(a as u32), h.heap[a], fuel) == obj_hash_within(
            h,
            Value::Obj(b as u32),
            h.heap[b],
            fuel,
        ),
    decreases fuel, 2int,
{
    assert(are_alike_kinds(h.heap[a], h.heap[b]));
    let xs = parts(h.heap[a]);
    let ys = parts(h.heap[b]);
    match h.heap[b] {
        ObjView::SetObj(_) => {
            lemma_places(h, a, b, fuel + 1);
            let at = places(h, xs, ys, fuel + 1);
            assert forall|i: int| 0 <= i < at.len() implies 0 <= #[trigger] at[i] < ys.len()
                && hash_within(h, xs[i], false, fuel) == hash_within(
                h,
                ys[at[i]],
                false,
                fuel,
            ) by {
                lemma_parts_hash_alike(h, a, i, b, at[i], false, fuel);
            }
            lemma_sums_alike(h, xs, ys, at, fuel);
        },
        ObjView::MapObj(_) => {
            lemma_entry_places(h, a, b, fuel + 1);
            let es = entries_of(h.heap[a]);
            let gs = entries_of(h.heap[b]);
            let at = entry_places(h, es, gs, fuel + 1);
            lemma_map_parts(es);
            lemma_map_parts(gs);
            assert forall|i: int| 0 <= i < at.len() implies 0 <= #[trigger] at[i] < gs.len()
                && entry_hash(h, es[i], fuel) == entry_hash(h, gs[at[i]], fuel) by {
                let j = at[i];
                assert(xs[i] == es[i].0 && xs[es.len() + i] == es[i].1);
                assert(ys[j] == gs[j].0 && ys[gs.len() + j] == gs[j].1);
                lemma_parts_hash_alike(h, a, i, b, j, false, fuel);
                lemma_parts_hash_alike(h, a, es.len() + i, b, gs.len() + j, false, fuel);
            }
            lemma_entry_sums_alike(h, es, gs, at, fuel);
        },
        ObjView::Range(_) => {},
        _ => {
            lemma_all_end(h, xs, ys, fuel + 1);
            lemma_all(h, xs, ys, 0, fuel + 1);
            assert forall|k: int, long: bool| 0 <= k < xs.len() implies hash_within(
                h,
                xs[k],
                long,
                fuel,
            ) == #[trigger] hash_within(h, ys[k], long, fuel) by {
                assert(eq_within(h, xs[k], ys[k], fuel + 1) == Some(true));
                lemma_parts_hash_alike(h, a, k, b, k, long, fuel);
            }
            assert(hash_alike(h, xs, ys, fuel));
            lemma_lists_hash_alike(h, a, b, fuel);
        },
    }
}

/// Objects whose parts hash alike pairwise hash alike.
proof fn lemma_lists_hash_alike(h: HostView, a: int, b: int, fuel: nat)
    requires
        0 <= a < h.heap.len(),
        0 <= b < h.heap.len(),
        hash_alike(h, parts(h.heap[a]), parts(h.heap[b]), fuel),
        obj_eq_within(h, h.heap[a], h.heap[b], fuel + 1) == Some(true),
        are_alike_kinds(h.heap[a], h.heap[b]),
        !(h.heap[b] is SetObj || h.heap[b] is MapObj || h.heap[b] is Range),
    ensures
        obj_hash_within(h, Value::Obj(a as u32), h.heap[a], fuel) == obj_hash_within(
            h,
            Value::Obj(b as u32),
            h.heap[b],
            fuel,
        ),
{
    let xs = parts(h.heap[a]);
    let ys = parts(h.heap[b]);
    match h.heap[b] {
        ObjView::Instance { class, .. } => {
            lemma_data_folds_alike(
                h,
                xs,
                ys,
                crate::compare::width_mask(h, class),
                xs.len() as int,
                fuel,
            );
        },
        ObjView::List(_) => {
            lemma_folds_alike(h, xs, ys, xs.len() as int, 1, fuel);
        },
        ObjView::Entry(_, _) => {
            assert(hash_within(h, xs[0], false, fuel) == hash_within(h, ys[0], false, fuel));
            assert(hash_within(h, xs[1], false, fuel) == hash_within(h, ys[1], false, fuel));
        },
        _ => {
            lemma_data_folds_alike(h, xs, ys, None, xs.len() as int, fuel);
        },
    }
}

// ── An equivalence ──────────────────────────────────────────────────────────

/// Equality does not depend on the side.
pub proof fn law_equality_is_symmetric(h: HostView, a: Value, b: Value, fuel: nat)
    requires
        is_sound(h),
        are_apart(h, a, b),
        is_within(h, a, fuel),
        is_within(h, b, fuel),
    ensures
        eq_within(h, a, b, fuel) == eq_within(h, b, a, fuel),
{
    law_equality_is_reflexive(h, a, fuel);
    law_equality_is_reflexive(h, b, fuel);
    lemma_comparison_ends(h, a, b, fuel);
    lemma_comparison_ends(h, b, a, fuel);
    if eq_within(h, a, b, fuel) == Some(true) {
        lemma_meet(h, b, a, b, fuel);
    }
    if eq_within(h, b, a, fuel) == Some(true) {
        lemma_meet(h, a, b, a, fuel);
    }
}

/// What equals an equal is equal.
pub proof fn law_equality_is_transitive(h: HostView, a: Value, b: Value, c: Value, fuel: nat)
    requires
        is_sound(h),
        are_apart(h, a, b),
        are_apart(h, b, c),
        are_apart(h, a, c),
        is_within(h, a, fuel),
        is_within(h, b, fuel),
        is_within(h, c, fuel),
        eq_within(h, a, b, fuel) == Some(true),
        eq_within(h, b, c, fuel) == Some(true),
    ensures
        eq_within(h, a, c, fuel) == Some(true),
{
    law_equality_is_symmetric(h, b, c, fuel);
    lemma_meet(h, a, c, b, fuel);
}

} // verus!
