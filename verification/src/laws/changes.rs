//! How collections are searched and changed.
use crate::receiver::SeqKind;
use crate::value::Value;
use crate::walk::Stop;
use vstd::prelude::*;

verus! {

use crate::compare::{budget, eq_within, hash_within};
use crate::host::HostView;
use crate::laws::names::lemma_names;
use crate::objects::{component_index, index_get_walk, index_set_walk, object_walk};
use crate::operators::{
    contains_walk, distinct_walk, member_walk, minus_walk, operator_walk, position_walk,
    among_walk,
};
use crate::order::entry_keys;
use crate::reply::ReplyView;
use crate::sequences::shared_member;
use crate::value::{code_of, ObjView};
use crate::walk::{eq_walk, hash_walk, Answers};

/// An integer, a text or a truth value.
pub open spec fn is_plain(v: Value) -> bool {
    v is Int || v is Str || v is Bool
}

/// Whether all values are plain.
pub open spec fn are_plain(vs: Seq<Value>) -> bool {
    forall|i: int| 0 <= i < vs.len() ==> is_plain(#[trigger] vs[i])
}

/// Whether two plain values are the same: the same number, the same characters, or the
/// same truth value.
pub open spec fn alike(h: HostView, a: Value, b: Value) -> bool {
    match (a, b) {
        (Value::Int(m), Value::Int(n)) => m == n,
        (Value::Bool(m), Value::Bool(n)) => m == n,
        (Value::Str(x), Value::Str(y)) => h.text(x) == h.text(y),
        _ => false,
    }
}

/// Whether one of the values is the same as `v`.
pub open spec fn holds_one(h: HostView, vs: Seq<Value>, v: Value) -> bool {
    exists|i: int| 0 <= i < vs.len() && alike(h, #[trigger] vs[i], v)
}

/// Whether `p` is the first position whose value is the same as `v`, or the length where
/// there is none.
pub open spec fn is_first(h: HostView, vs: Seq<Value>, v: Value, p: int) -> bool {
    &&& 0 <= p <= vs.len()
    &&& p < vs.len() ==> alike(h, vs[p], v)
    &&& forall|k: int| 0 <= k < p ==> !alike(h, #[trigger] vs[k], v)
}

/// The log of a run in which nothing has been asked.
pub open spec fn nothing_asked() -> Answers {
    Seq::empty()
}

pub proof fn lemma_plain_member(h: HostView, a: Value, b: Value, hashed: bool, fuel: nat)
    requires
        is_plain(a),
        is_plain(b),
        fuel > 0,
    ensures
        member_walk(h, nothing_asked(), 0, a, b, hashed, fuel) == Ok::<(bool, nat), Stop>(
            (alike(h, a, b), 0),
        ),
{
    let log = nothing_asked();
    assert(h.class_of(a) is None && h.class_of(b) is None);
    assert(h.obj(a) is None && h.obj(b) is None);
    assert(code_of(a) is None && code_of(b) is None);
    assert(eq_walk(h, log, 0, a, b, fuel) == Ok::<(bool, nat), Stop>((alike(h, a, b), 0))) by {
        assert(eq_within(h, a, b, (fuel - 1) as nat) == Some(alike(h, a, b)));
    }
    if hashed {
        assert(hash_walk(h, log, 0, a, false, fuel) == Ok::<(i32, nat), Stop>(
            (hash_within(h, a, false, fuel)->0, 0),
        ));
        assert(hash_walk(h, log, 0, b, false, fuel) == Ok::<(i32, nat), Stop>(
            (hash_within(h, b, false, fuel)->0, 0),
        ));
        if alike(h, a, b) {
            assert(hash_within(h, a, false, fuel) == hash_within(h, b, false, fuel));
        }
    }
}

pub proof fn lemma_plain_position(h: HostView, items: Seq<Value>, v: Value, i: int, hashed: bool, fuel: nat) -> (p: int)
    requires
        are_plain(items),
        is_plain(v),
        fuel > 0,
        0 <= i <= items.len(),
    ensures
        position_walk(h, nothing_asked(), 0, items, v, i, hashed, fuel) == Ok::<(int, nat), Stop>((p, 0)),
        i <= p <= items.len(),
        p < items.len() ==> alike(h, items[p], v),
        forall|k: int| i <= k < p ==> !alike(h, #[trigger] items[k], v),
    decreases items.len() - i,
{
    if i < items.len() {
        assert(is_plain(items[i]));
        lemma_plain_member(h, items[i], v, hashed, fuel);
        if alike(h, items[i], v) {
            i
        } else {
            lemma_plain_position(h, items, v, i + 1, hashed, fuel)
        }
    } else {
        items.len() as int
    }
}

/// `contains` and `in` find what is in a collection, `indexOf` answers the first position
/// at which it stands, and -1 where it does not.
pub proof fn law_membership(
    h: HostView,
    items: Seq<Value>,
    recv: Option<Value>,
    kind: SeqKind,
    v: Value,
    p: int,
)
    requires
        are_plain(items),
        is_plain(v),
        is_first(h, items, v, p),
    ensures
        shared_member(h, items, recv, kind, None, "contains"@, seq![v], nothing_asked()) == Ok::<
            Option<ReplyView>,
            Stop,
        >(Some(ReplyView::Value(Value::Bool(p < items.len())))),
        shared_member(h, items, recv, kind, None, "indexOf"@, seq![v], nothing_asked()) == Ok::<
            Option<ReplyView>,
            Stop,
        >(
            Some(
                ReplyView::Value(
                    Value::Int(
                        if p < items.len() {
                            p as i64
                        } else {
                            (-1) as i64
                        },
                    ),
                ),
            ),
        ),
        forall|c: Value|
            !(c is Str) && (#[trigger] h.obj(c) == Some(ObjView::List(items)) || h.obj(c) == Some(
                ObjView::SetObj(items),
            )) ==> contains_walk(h, c, v, nothing_asked()) == Ok::<bool, Stop>(p < items.len()),
{
    lemma_names();
    let a = lemma_plain_position(h, items, v, 0, true, budget(h));
    let b = lemma_plain_position(h, items, v, 0, false, budget(h));
    if a < p {
        assert(!alike(h, items[a], v));
    } else if p < a {
        assert(!alike(h, items[p], v));
    }
    if b < p {
        assert(!alike(h, items[b], v));
    } else if p < b {
        assert(!alike(h, items[p], v));
    }
    assert(a == p && b == p);
}

/// `containsAll` answers whether each of the others is in the collection.
pub proof fn law_contains_all(
    h: HostView,
    items: Seq<Value>,
    recv: Option<Value>,
    kind: SeqKind,
    other: Value,
    wanted: Seq<Value>,
)
    requires
        are_plain(items),
        are_plain(wanted),
        h.obj(other) == Some(ObjView::List(wanted)),
    ensures
        shared_member(h, items, recv, kind, None, "containsAll"@, seq![other], nothing_asked())
            == Ok::<Option<ReplyView>, Stop>(
            Some(
                ReplyView::Value(
                    Value::Bool(
                        forall|i: int| 0 <= i < wanted.len() ==> holds_one(h, items, #[trigger] wanted[i]),
                    ),
                ),
            ),
        ),
{
    lemma_names();
    lemma_contains_all(h, items, wanted, 0, kind.by_hash());
}

proof fn lemma_contains_all(h: HostView, items: Seq<Value>, wanted: Seq<Value>, i: int, hashed: bool)
    requires
        are_plain(items),
        are_plain(wanted),
        0 <= i <= wanted.len(),
    ensures
        crate::sequences::contains_all_walk(
            h,
            nothing_asked(),
            0,
            items,
            wanted,
            i,
            hashed,
            budget(h),
        ) == Ok::<(bool, nat), Stop>(
            (forall|k: int| i <= k < wanted.len() ==> holds_one(h, items, #[trigger] wanted[k]), 0),
        ),
    decreases wanted.len() - i,
{
    if i < wanted.len() {
        assert(is_plain(wanted[i]));
        let p = lemma_plain_position(h, items, wanted[i], 0, hashed, budget(h));
        lemma_contains_all(h, items, wanted, i + 1, hashed);
        if p < items.len() {
            assert(holds_one(h, items, wanted[i]));
        } else {
            assert(!holds_one(h, items, wanted[i]));
        }
    }
}

proof fn lemma_distinct(h: HostView, vals: Seq<Value>, i: int, out: Seq<Value>) -> (r: Seq<Value>)
    requires
        are_plain(vals),
        are_plain(out),
        0 <= i <= vals.len(),
        forall|k: int| 0 <= k < i ==> holds_one(h, out, #[trigger] vals[k]),
        forall|k: int| 0 <= k < out.len() ==> vals.contains(#[trigger] out[k]),
        forall|k: int, l: int| 0 <= k < l < out.len() ==> !alike(h, #[trigger] out[k], #[trigger] out[l]),
    ensures
        distinct_walk(h, nothing_asked(), 0, vals, i, out, budget(h)) == Ok::<(Seq<Value>, nat), Stop>(
            (r, 0),
        ),
        are_plain(r),
        forall|k: int| 0 <= k < vals.len() ==> holds_one(h, r, #[trigger] vals[k]),
        forall|k: int| 0 <= k < r.len() ==> vals.contains(#[trigger] r[k]),
        forall|k: int, l: int| 0 <= k < l < r.len() ==> !alike(h, #[trigger] r[k], #[trigger] r[l]),
        out.len() <= r.len(),
        forall|k: int| 0 <= k < out.len() ==> #[trigger] r[k] == out[k],
    decreases vals.len() - i,
{
    if i >= vals.len() {
        out
    } else {
        let v = vals[i];
        assert(is_plain(v));
        let p = lemma_plain_position(h, out, v, 0, true, budget(h));
        let next = if p < out.len() {
            out
        } else {
            out.push(v)
        };
        assert forall|k: int| 0 <= k < next.len() implies is_plain(#[trigger] next[k]) by {
            if k < out.len() {
                assert(next[k] == out[k]);
            }
        }
        assert forall|k: int| 0 <= k < i + 1 implies holds_one(h, next, #[trigger] vals[k]) by {
            if k < i {
                let j = choose|j: int| 0 <= j < out.len() && alike(h, #[trigger] out[j], vals[k]);
                assert(holds_one(h, out, vals[k]));
                assert(next[j] == out[j]);
            } else if p < out.len() {
                assert(alike(h, next[p], v));
            } else {
                assert(next[out.len() as int] == v);
                assert(alike(h, next[out.len() as int], v));
            }
        }
        assert forall|k: int| 0 <= k < next.len() implies vals.contains(#[trigger] next[k]) by {
            if k < out.len() {
                assert(next[k] == out[k]);
            } else {
                assert(vals[i] == next[k]);
            }
        }
        assert forall|k: int, l: int| 0 <= k < l < next.len() implies !alike(
            h,
            #[trigger] next[k],
            #[trigger] next[l],
        ) by {
            if l < out.len() {
                assert(!alike(h, out[k], out[l]));
            }
        }
        lemma_distinct(h, vals, i + 1, next)
    }
}

/// `distinct` and `toSet` keep each value once: all that was there is there, nothing else
/// is, and no two are the same.
pub proof fn law_distinct(
    h: HostView,
    items: Seq<Value>,
    recv: Option<Value>,
    kind: SeqKind,
)
    requires
        are_plain(items),
    ensures
        exists|r: Seq<Value>|
            {
                &&& #[trigger] keeps_each_once(h, items, r)
                &&& shared_member(
                    h,
                    items,
                    recv,
                    kind,
                    None,
                    "toSet"@,
                    Seq::empty(),
                    nothing_asked(),
                ) == Ok::<Option<ReplyView>, Stop>(Some(ReplyView::Object(ObjView::SetObj(r))))
                &&& shared_member(
                    h,
                    items,
                    recv,
                    kind,
                    None,
                    "distinct"@,
                    Seq::empty(),
                    nothing_asked(),
                ) matches Ok(Some(ReplyView::Tagged(s, _))) && s == r
            },
{
    lemma_names();
    let r = lemma_distinct(h, items, 0, Seq::empty());
    assert(keeps_each_once(h, items, r));
}

/// Whether `r` holds each of the values once, and nothing else.
pub open spec fn keeps_each_once(h: HostView, vals: Seq<Value>, r: Seq<Value>) -> bool {
    &&& forall|k: int| 0 <= k < vals.len() ==> holds_one(h, r, #[trigger] vals[k])
    &&& forall|k: int| 0 <= k < r.len() ==> vals.contains(#[trigger] r[k])
    &&& forall|k: int, l: int| 0 <= k < l < r.len() ==> !alike(h, #[trigger] r[k], #[trigger] r[l])
}

/// `union` keeps each value of both once.
pub proof fn law_union(
    h: HostView,
    items: Seq<Value>,
    recv: Option<Value>,
    kind: SeqKind,
    other: Value,
    ys: Seq<Value>,
)
    requires
        are_plain(items),
        are_plain(ys),
        h.obj(other) == Some(ObjView::List(ys)),
    ensures
        exists|r: Seq<Value>|
            #[trigger] keeps_each_once(h, items + ys, r) && shared_member(
                h,
                items,
                recv,
                kind,
                None,
                "union"@,
                seq![other],
                nothing_asked(),
            ) == Ok::<Option<ReplyView>, Stop>(Some(ReplyView::Object(ObjView::SetObj(r)))),
{
    lemma_names();
    let all = items + ys;
    assert forall|i: int| 0 <= i < all.len() implies is_plain(#[trigger] all[i]) by {
        if i < items.len() {
            assert(all[i] == items[i]);
        } else {
            assert(all[i] == ys[i - items.len()]);
        }
    }
    let r = lemma_distinct(h, all, 0, Seq::empty());
    assert(keeps_each_once(h, all, r));
}

// ── Changing a list ─────────────────────────────────────────────────────────

proof fn lemma_no_component(name: Seq<char>)
    requires
        name.len() < 9 || name[0] != 'c',
    ensures
        component_index(name) is None,
{
    reveal_strlit("component");
    if name.len() >= 9 {
        assert(name.subrange(0, 9)[0] == name[0]);
        assert("component"@[0] == 'c');
    }
}

proof fn lemma_changing_names()
    ensures
        component_index("add"@) is None,
        component_index("remove"@) is None,
        component_index("removeAt"@) is None,
        component_index("put"@) is None,
        component_index("keys"@) is None,
        component_index("values"@) is None,
        component_index("entries"@) is None,
        component_index("get"@) is None,
        component_index("size"@) is None,
        component_index("isEmpty"@) is None,
        component_index("first"@) is None,
        component_index("second"@) is None,
        component_index("third"@) is None,
        component_index("key"@) is None,
        component_index("value"@) is None,
        component_index("toSortedMap"@) is None,
        component_index("toList"@) is None,
        component_index("plus"@) is None,
        component_index("minus"@) is None,
        component_index("plusAssign"@) is None,
        component_index("minusAssign"@) is None,
{
    reveal_strlit("add");
    reveal_strlit("remove");
    reveal_strlit("removeAt");
    reveal_strlit("put");
    reveal_strlit("keys");
    reveal_strlit("values");
    reveal_strlit("entries");
    reveal_strlit("get");
    reveal_strlit("size");
    reveal_strlit("isEmpty");
    reveal_strlit("first");
    reveal_strlit("second");
    reveal_strlit("third");
    reveal_strlit("key");
    reveal_strlit("value");
    reveal_strlit("toSortedMap");
    reveal_strlit("toList");
    reveal_strlit("plus");
    reveal_strlit("minus");
    reveal_strlit("plusAssign");
    reveal_strlit("minusAssign");
    lemma_no_component("add"@);
    lemma_no_component("remove"@);
    lemma_no_component("removeAt"@);
    lemma_no_component("put"@);
    lemma_no_component("keys"@);
    lemma_no_component("values"@);
    lemma_no_component("entries"@);
    lemma_no_component("get"@);
    lemma_no_component("size"@);
    lemma_no_component("isEmpty"@);
    lemma_no_component("first"@);
    lemma_no_component("second"@);
    lemma_no_component("third"@);
    lemma_no_component("key"@);
    lemma_no_component("value"@);
    lemma_no_component("toSortedMap"@);
    lemma_no_component("toList"@);
    lemma_no_component("plus"@);
    lemma_no_component("minus"@);
    lemma_no_component("plusAssign"@);
    lemma_no_component("minusAssign"@);
}

/// `add` puts an element at the end of a list, or before an index; the rest of the list
/// stays. An index outside raises.
pub proof fn law_list_add(
    h: HostView,
    recv: Value,
    items: Seq<Value>,
    a: Seq<Value>,
    b: Seq<Value>,
    v: Value,
    i: i64,
    log: Answers,
)
    requires
        h.obj(recv) == Some(ObjView::List(items)),
        items == a + b,
    ensures
        object_walk(h, recv, "add"@, seq![v], log) matches Ok(r) ==> r == ReplyView::Update(
            recv,
            ObjView::List(items + seq![v]),
            Value::Bool(true),
        ),
        i == a.len() ==> object_walk(h, recv, "add"@, seq![Value::Int(i), v], log) == Ok::<
            ReplyView,
            Stop,
        >(ReplyView::Update(recv, ObjView::List(a + seq![v] + b), Value::Undef)),
        i < 0 || i > items.len() ==> object_walk(h, recv, "add"@, seq![Value::Int(i), v], log) matches Ok(
            ReplyView::Fault(_),
        ),
{
    lemma_names();
    lemma_changing_names();
    assert(items.push(v) =~= items + seq![v]);
    if i == a.len() {
        assert(items.insert(i as int, v) =~= a + seq![v] + b);
    }
}

/// `removeAt` takes one element out of a list and answers it; the rest stays. An index
/// outside raises.
pub proof fn law_list_remove_at(
    h: HostView,
    recv: Value,
    a: Seq<Value>,
    v: Value,
    b: Seq<Value>,
    i: i64,
    j: i64,
    log: Answers,
)
    requires
        h.obj(recv) == Some(ObjView::List(a + seq![v] + b)),
        i == a.len(),
        j < 0 || j > a.len() + b.len(),
    ensures
        object_walk(h, recv, "removeAt"@, seq![Value::Int(i)], log) == Ok::<ReplyView, Stop>(
            ReplyView::Update(recv, ObjView::List(a + b), v),
        ),
        object_walk(h, recv, "removeAt"@, seq![Value::Int(j)], log) matches Ok(ReplyView::Fault(_)),
{
    lemma_names();
    lemma_changing_names();
    let items = a + seq![v] + b;
    assert(items.remove(i as int) =~= a + b);
}

/// `remove` takes the first element out that is the same as the argument, and answers
/// whether there was one.
pub proof fn law_list_remove(
    h: HostView,
    recv: Value,
    items: Seq<Value>,
    v: Value,
    p: int,
)
    requires
        h.obj(recv) == Some(ObjView::List(items)),
        are_plain(items),
        is_plain(v),
        is_first(h, items, v, p),
    ensures
        object_walk(h, recv, "remove"@, seq![v], nothing_asked()) == Ok::<ReplyView, Stop>(
            if p < items.len() {
                ReplyView::Update(
                    recv,
                    ObjView::List(items.take(p) + items.skip(p + 1)),
                    Value::Bool(true),
                )
            } else {
                ReplyView::Value(Value::Bool(false))
            },
        ),
{
    lemma_names();
    lemma_changing_names();
    let q = lemma_plain_position(h, items, v, 0, false, budget(h));
    if q < p {
        assert(!alike(h, items[q], v));
    } else if p < q {
        assert(!alike(h, items[p], v));
    }
    if p < items.len() {
        assert(items.remove(p) =~= items.take(p) + items.skip(p + 1));
    }
}

/// An indexed store changes one element of a list or an array, and reading it gives what
/// was stored; an index outside raises on both.
pub proof fn law_indexed_access(
    h: HostView,
    recv: Value,
    items: Seq<Value>,
    i: i64,
    v: Value,
    log: Answers,
)
    requires
        h.obj(recv) == Some(ObjView::List(items)),
    ensures
        0 <= i < items.len() ==> {
            &&& index_get_walk(h, recv, Value::Int(i), log) == Ok::<ReplyView, Stop>(
                ReplyView::Value(items[i as int]),
            )
            &&& index_set_walk(h, recv, Value::Int(i), v, log) matches Ok(
                ReplyView::Update(w, ObjView::List(after), _),
            ) && w == recv && after.len() == items.len() && after[i as int] == v && forall|k: int|
                0 <= k < items.len() && k != i ==> after[k] == #[trigger] items[k]
        },
        !(0 <= i < items.len()) ==> {
            &&& index_get_walk(h, recv, Value::Int(i), log) matches Ok(ReplyView::Fault(_))
            &&& index_set_walk(h, recv, Value::Int(i), v, log) matches Ok(ReplyView::Fault(_))
        },
{
}

// ── Changing a set ──────────────────────────────────────────────────────────

/// `add` puts an element into a set that is not there yet, and answers whether it did.
pub proof fn law_set_add(h: HostView, recv: Value, items: Seq<Value>, v: Value)
    requires
        h.obj(recv) == Some(ObjView::SetObj(items)),
        are_plain(items),
        is_plain(v),
    ensures
        object_walk(h, recv, "add"@, seq![v], nothing_asked()) == Ok::<ReplyView, Stop>(
            if holds_one(h, items, v) {
                ReplyView::Value(Value::Bool(false))
            } else {
                ReplyView::Update(recv, ObjView::SetObj(items + seq![v]), Value::Bool(true))
            },
        ),
{
    lemma_names();
    lemma_changing_names();
    let p = lemma_plain_position(h, items, v, 0, true, budget(h));
    assert(items.push(v) =~= items + seq![v]);
    if p < items.len() {
        assert(holds_one(h, items, v));
    }
}

// ── Maps ────────────────────────────────────────────────────────────────────

/// A map is read by its keys: `get` and indexing answer the value of the key, or null, and
/// `containsKey` whether it is there.
pub proof fn law_map_read(h: HostView, recv: Value, es: Seq<(Value, Value)>, k: Value, p: int)
    requires
        h.obj(recv) == Some(ObjView::MapObj(es)),
        !(recv is Str),
        are_plain(entry_keys(es)),
        is_plain(k),
        is_first(h, entry_keys(es), k, p),
    ensures
        ({
            let v = if p < es.len() {
                es[p].1
            } else {
                Value::Undef
            };
            &&& index_get_walk(h, recv, k, nothing_asked()) == Ok::<ReplyView, Stop>(
                ReplyView::Value(v),
            )
            &&& object_walk(h, recv, "get"@, seq![k], nothing_asked()) == Ok::<ReplyView, Stop>(
                ReplyView::Value(v),
            )
            &&& contains_walk(h, recv, k, nothing_asked()) == Ok::<bool, Stop>(p < es.len())
        }),
{
    lemma_names();
    lemma_changing_names();
    lemma_key(h, es, k, p);
}

proof fn lemma_key(h: HostView, es: Seq<(Value, Value)>, k: Value, p: int)
    requires
        are_plain(entry_keys(es)),
        is_plain(k),
        is_first(h, entry_keys(es), k, p),
    ensures
        position_walk(h, nothing_asked(), 0, entry_keys(es), k, 0, true, budget(h)) == Ok::<
            (int, nat),
            Stop,
        >((p, 0)),
{
    let keys = entry_keys(es);
    let q = lemma_plain_position(h, keys, k, 0, true, budget(h));
    if q < p {
        assert(!alike(h, keys[q], k));
    } else if p < q {
        assert(!alike(h, keys[p], k));
    }
}

/// `put` gives the key its value: in the place of the key where it is there, else at the
/// end. It answers the value that the key had, or null.
pub proof fn law_map_put(h: HostView, recv: Value, es: Seq<(Value, Value)>, k: Value, v: Value, p: int)
    requires
        h.obj(recv) == Some(ObjView::MapObj(es)),
        are_plain(entry_keys(es)),
        is_plain(k),
        is_first(h, entry_keys(es), k, p),
    ensures
        object_walk(h, recv, "put"@, seq![k, v], nothing_asked()) == Ok::<ReplyView, Stop>(
            if p < es.len() {
                ReplyView::Update(
                    recv,
                    ObjView::MapObj(es.update(p, (es[p].0, v))),
                    es[p].1,
                )
            } else {
                ReplyView::Update(recv, ObjView::MapObj(es + seq![(k, v)]), Value::Undef)
            },
        ),
        object_walk(h, recv, "remove"@, seq![k], nothing_asked()) == Ok::<ReplyView, Stop>(
            if p < es.len() {
                ReplyView::Update(
                    recv,
                    ObjView::MapObj(es.take(p) + es.skip(p + 1)),
                    Value::Bool(true),
                )
            } else {
                ReplyView::Value(Value::Bool(false))
            },
        ),
{
    lemma_names();
    lemma_changing_names();
    lemma_key(h, es, k, p);
    assert(es.push((k, v)) =~= es + seq![(k, v)]);
    if p < es.len() {
        assert(es.remove(p) =~= es.take(p) + es.skip(p + 1));
    }
}

/// The keys, the values and the entries of a map stand in its order.
pub proof fn law_map_views(h: HostView, recv: Value, es: Seq<(Value, Value)>, log: Answers)
    requires
        h.obj(recv) == Some(ObjView::MapObj(es)),
    ensures
        object_walk(h, recv, "keys"@, Seq::empty(), log) matches Ok(
            ReplyView::Object(ObjView::SetObj(ks)),
        ) && ks.len() == es.len() && forall|i: int|
            0 <= i < es.len() ==> ks[i] == (#[trigger] es[i]).0,
        object_walk(h, recv, "values"@, Seq::empty(), log) matches Ok(
            ReplyView::Object(ObjView::List(vs)),
        ) && vs.len() == es.len() && forall|i: int|
            0 <= i < es.len() ==> vs[i] == (#[trigger] es[i]).1,
        object_walk(h, recv, "entries"@, Seq::empty(), log) matches Ok(ReplyView::NewSet(os))
            && os.len() == es.len() && forall|i: int|
            0 <= i < es.len() ==> os[i] == ObjView::Entry((#[trigger] es[i]).0, es[i].1),
        object_walk(h, recv, "toList"@, Seq::empty(), log) matches Ok(ReplyView::NewList(os))
            && os.len() == es.len() && forall|i: int|
            0 <= i < es.len() ==> os[i] == ObjView::Pair((#[trigger] es[i]).0, es[i].1),
        object_walk(h, recv, "size"@, Seq::empty(), log) == Ok::<ReplyView, Stop>(
            ReplyView::Value(Value::Int(es.len() as i64)),
        ),
        object_walk(h, recv, "isEmpty"@, Seq::empty(), log) == Ok::<ReplyView, Stop>(
            ReplyView::Value(Value::Bool(es.len() == 0)),
        ),
{
    lemma_names();
    lemma_changing_names();
}

/// The parts of a pair, a triple and an entry have their names.
pub proof fn law_parts(h: HostView, recv: Value, a: Value, b: Value, c: Value)
    ensures
        h.obj(recv) == Some(ObjView::Pair(a, b)) ==> {
            &&& object_walk(h, recv, "first"@, Seq::empty(), nothing_asked()) == Ok::<ReplyView, Stop>(
                ReplyView::Value(a),
            )
            &&& object_walk(h, recv, "second"@, Seq::empty(), nothing_asked()) == Ok::<
                ReplyView,
                Stop,
            >(ReplyView::Value(b))
        },
        h.obj(recv) == Some(ObjView::Triple(a, b, c)) ==> {
            &&& object_walk(h, recv, "first"@, Seq::empty(), nothing_asked()) == Ok::<ReplyView, Stop>(
                ReplyView::Value(a),
            )
            &&& object_walk(h, recv, "second"@, Seq::empty(), nothing_asked()) == Ok::<
                ReplyView,
                Stop,
            >(ReplyView::Value(b))
            &&& object_walk(h, recv, "third"@, Seq::empty(), nothing_asked()) == Ok::<ReplyView, Stop>(
                ReplyView::Value(c),
            )
        },
        h.obj(recv) == Some(ObjView::Entry(a, b)) ==> {
            &&& object_walk(h, recv, "key"@, Seq::empty(), nothing_asked()) == Ok::<ReplyView, Stop>(
                ReplyView::Value(a),
            )
            &&& object_walk(h, recv, "value"@, Seq::empty(), nothing_asked()) == Ok::<ReplyView, Stop>(
                ReplyView::Value(b),
            )
        },
{
    lemma_names();
    lemma_changing_names();
}

// ── Operators ───────────────────────────────────────────────────────────────

/// `+` puts an element, or the elements of a collection, behind those of a list; the
/// assigning form changes the list itself.
pub proof fn law_plus(h: HostView, recv: Value, items: Seq<Value>, v: Value, log: Answers)
    requires
        log.len() == 0,
        h.obj(recv) == Some(ObjView::List(items)),
    ensures
        ({
            let more = match h.obj(v) {
                Some(ObjView::List(ys)) => items + ys,
                Some(ObjView::SetObj(ys)) => items + ys,
                Some(ObjView::Array { items: ys, .. }) => items + ys,
                _ => items + seq![v],
            };
            h.obj(v) matches Some(ObjView::Range(_)) || {
                &&& operator_walk(h, recv, "plus"@, v, log) == Ok::<ReplyView, Stop>(
                    ReplyView::Object(ObjView::List(more)),
                )
                &&& operator_walk(h, recv, "plusAssign"@, v, log) == Ok::<ReplyView, Stop>(
                    ReplyView::Update(recv, ObjView::List(more), Value::Undef),
                )
            }
        }),
{
    lemma_names();
    assert(items.push(v) =~= items + seq![v]);
}

/// `-` takes the first element away that is the same as the operand.
pub proof fn law_minus_element(h: HostView, recv: Value, items: Seq<Value>, v: Value, p: int)
    requires
        h.obj(recv) == Some(ObjView::List(items)),
        are_plain(items),
        is_plain(v),
        is_first(h, items, v, p),
    ensures
        operator_walk(h, recv, "minus"@, v, nothing_asked()) == Ok::<ReplyView, Stop>(
            ReplyView::Object(
                ObjView::List(
                    if p < items.len() {
                        items.take(p) + items.skip(p + 1)
                    } else {
                        items
                    },
                ),
            ),
        ),
{
    lemma_names();
    let q = lemma_plain_position(h, items, v, 0, false, budget(h));
    if q < p {
        assert(!alike(h, items[q], v));
    } else if p < q {
        assert(!alike(h, items[p], v));
    }
    if p < items.len() {
        assert(items.remove(p) =~= items.take(p) + items.skip(p + 1));
    }
}

proof fn lemma_among(h: HostView, x: Value, ys: Seq<Value>, j: int, hashed: bool)
    requires
        is_plain(x),
        are_plain(ys),
        0 <= j <= ys.len(),
    ensures
        among_walk(h, nothing_asked(), 0, x, ys, j, hashed, budget(h)) == Ok::<(bool, nat), Stop>(
            (exists|k: int| j <= k < ys.len() && alike(h, x, #[trigger] ys[k]), 0),
        ),
    decreases ys.len() - j,
{
    if j < ys.len() {
        assert(is_plain(ys[j]));
        lemma_plain_member(h, x, ys[j], hashed, budget(h));
        lemma_among(h, x, ys, j + 1, hashed);
        if alike(h, x, ys[j]) {
            assert(exists|k: int| j <= k < ys.len() && alike(h, x, #[trigger] ys[k]));
        }
    }
}

/// `-` with a collection keeps the elements that are the same as none of its own: one
/// element more is kept exactly then.
pub proof fn law_minus_elements(
    h: HostView,
    recv: Value,
    longer: Value,
    items: Seq<Value>,
    x: Value,
    other: Value,
    ys: Seq<Value>,
    out: Seq<Value>,
)
    requires
        h.obj(recv) == Some(ObjView::List(items)),
        h.obj(longer) == Some(ObjView::List(seq![x] + items)),
        h.obj(other) == Some(ObjView::List(ys)),
        are_plain(items),
        is_plain(x),
        are_plain(ys),
        operator_walk(h, recv, "minus"@, other, nothing_asked()) == Ok::<ReplyView, Stop>(
            ReplyView::Object(ObjView::List(out)),
        ),
    ensures
        items.len() == 0 ==> out.len() == 0,
        operator_walk(h, longer, "minus"@, other, nothing_asked()) == Ok::<ReplyView, Stop>(
            ReplyView::Object(
                ObjView::List(
                    if exists|k: int| 0 <= k < ys.len() && alike(h, x, #[trigger] ys[k]) {
                        out
                    } else {
                        seq![x] + out
                    },
                ),
            ),
        ),
{
    lemma_names();
    let none = Seq::<Value>::empty();
    lemma_among(h, x, ys, 0, false);
    let first = if exists|k: int| 0 <= k < ys.len() && alike(h, x, #[trigger] ys[k]) {
        none
    } else {
        none.push(x)
    };
    let tail = lemma_minus(h, items, 0, ys, none);
    assert(none + tail =~= tail);
    lemma_minus_shift(h, x, items, ys, first, tail);
    assert(none.push(x) + out =~= seq![x] + out);
    assert(none + out =~= out);
}

proof fn lemma_minus(h: HostView, items: Seq<Value>, i: int, ys: Seq<Value>, out: Seq<Value>) -> (tail: Seq<Value>)
    requires
        are_plain(items),
        are_plain(ys),
        0 <= i <= items.len(),
    ensures
        minus_walk(h, nothing_asked(), 0, items, i, ys, false, out, budget(h)) == Ok::<
            (Seq<Value>, nat),
            Stop,
        >((out + tail, 0)),
    decreases items.len() - i,
{
    if i >= items.len() {
        assert(out + Seq::<Value>::empty() =~= out);
        Seq::empty()
    } else {
        assert(is_plain(items[i]));
        lemma_among(h, items[i], ys, 0, false);
        let hit = exists|k: int| 0 <= k < ys.len() && alike(h, items[i], #[trigger] ys[k]);
        if hit {
            lemma_minus(h, items, i + 1, ys, out)
        } else {
            let t = lemma_minus(h, items, i + 1, ys, out.push(items[i]));
            assert(out.push(items[i]) + t =~= out + (seq![items[i]] + t));
            seq![items[i]] + t
        }
    }
}

proof fn lemma_minus_shift(
    h: HostView,
    x: Value,
    items: Seq<Value>,
    ys: Seq<Value>,
    first: Seq<Value>,
    tail: Seq<Value>,
)
    requires
        are_plain(items),
        is_plain(x),
        are_plain(ys),
        first == (if exists|k: int| 0 <= k < ys.len() && alike(h, x, #[trigger] ys[k]) {
            Seq::<Value>::empty()
        } else {
            Seq::<Value>::empty().push(x)
        }),
        minus_walk(h, nothing_asked(), 0, items, 0, ys, false, Seq::empty(), budget(h)) == Ok::<
            (Seq<Value>, nat),
            Stop,
        >((tail, 0)),
    ensures
        minus_walk(
            h,
            nothing_asked(),
            0,
            seq![x] + items,
            0,
            ys,
            false,
            Seq::empty(),
            budget(h),
        ) == Ok::<(Seq<Value>, nat), Stop>((first + tail, 0)),
{
    let all = seq![x] + items;
    lemma_among(h, x, ys, 0, false);
    assert(all[0] == x);
    lemma_minus_same(h, items, all, 0, ys, Seq::empty(), first);
    assert(minus_walk(h, nothing_asked(), 0, all, 0, ys, false, Seq::empty(), budget(h))
        == minus_walk(h, nothing_asked(), 0, all, 1, ys, false, first, budget(h)));
    let t = lemma_minus(h, items, 0, ys, Seq::empty());
    assert(Seq::<Value>::empty() + t =~= t);
}

proof fn lemma_minus_same(
    h: HostView,
    items: Seq<Value>,
    all: Seq<Value>,
    i: int,
    ys: Seq<Value>,
    a: Seq<Value>,
    b: Seq<Value>,
)
    requires
        are_plain(items),
        are_plain(ys),
        0 <= i <= items.len(),
        all.len() == items.len() + 1,
        forall|k: int| 0 <= k < items.len() ==> #[trigger] all[k + 1] == items[k],
    ensures
        exists|t: Seq<Value>|
            minus_walk(h, nothing_asked(), 0, items, i, ys, false, a, budget(h)) == Ok::<
                (Seq<Value>, nat),
                Stop,
            >((a + t, 0)) && minus_walk(h, nothing_asked(), 0, all, i + 1, ys, false, b, budget(h))
                == Ok::<(Seq<Value>, nat), Stop>((#[trigger] (b + t), 0)),
    decreases items.len() - i,
{
    if i >= items.len() {
        let t = Seq::<Value>::empty();
        assert(a + t =~= a);
        assert(b + t =~= b);
    } else {
        assert(is_plain(items[i]));
        assert(all[i + 1] == items[i]);
        lemma_among(h, items[i], ys, 0, false);
        let hit = exists|k: int| 0 <= k < ys.len() && alike(h, items[i], #[trigger] ys[k]);
        if hit {
            lemma_minus_same(h, items, all, i + 1, ys, a, b);
        } else {
            let v = items[i];
            lemma_minus_same(h, items, all, i + 1, ys, a.push(v), b.push(v));
            let t = choose|t: Seq<Value>|
                minus_walk(h, nothing_asked(), 0, items, i + 1, ys, false, a.push(v), budget(h))
                    == Ok::<(Seq<Value>, nat), Stop>((a.push(v) + t, 0)) && minus_walk(
                    h,
                    nothing_asked(),
                    0,
                    all,
                    i + 2,
                    ys,
                    false,
                    b.push(v),
                    budget(h),
                ) == Ok::<(Seq<Value>, nat), Stop>((#[trigger] (b.push(v) + t), 0));
            let u = seq![v] + t;
            assert(a.push(v) + t =~= a + u);
            assert(b.push(v) + t =~= b + u);
        }
    }
}

} // verus!
