//! What the members answer that every collection shares.
use crate::receiver::SeqKind;
use crate::value::Value;
use crate::walk::Stop;
use vstd::prelude::*;

verus! {

use crate::host::HostView;
use crate::laws::names::lemma_names;
use crate::laws::orders::{
    is_ascending,
    is_descending,
    law_order_turns_round,
    lemma_extreme,
    lemma_sorted_by_keys,
    rearranges,
};
use crate::order::{are_comparable, by_key};
use crate::receiver::{items_of, join_text, value_texts, windows};
use crate::reply::ReplyView;
use crate::search::{joined, starts_with};
use crate::sequences::{extreme, shared_member, Extreme};
use crate::sorting::{picked, sorted_positions};
use crate::types::natural_order;
use crate::value::ObjView;
use crate::walk::Answers;

/// The member `name` of a collection of `items` that is no range answers `r`.
pub open spec fn gives(
    h: HostView,
    items: Seq<Value>,
    recv: Option<Value>,
    kind: SeqKind,
    name: Seq<char>,
    args: Seq<Value>,
    log: Answers,
    r: ReplyView,
) -> bool {
    shared_member(h, items, recv, kind, None, name, args, log) == Ok::<Option<ReplyView>, Stop>(Some(r))
}

/// The member raises.
pub open spec fn raises(
    h: HostView,
    items: Seq<Value>,
    recv: Option<Value>,
    kind: SeqKind,
    name: Seq<char>,
    args: Seq<Value>,
    log: Answers,
) -> bool {
    shared_member(h, items, recv, kind, None, name, args, log) matches Ok(Some(ReplyView::Fault(_)))
}

/// The member answers a list of `out`.
pub open spec fn lists(
    h: HostView,
    items: Seq<Value>,
    recv: Option<Value>,
    kind: SeqKind,
    name: Seq<char>,
    args: Seq<Value>,
    log: Answers,
    out: Seq<Value>,
) -> bool {
    match shared_member(h, items, recv, kind, None, name, args, log) {
        Ok(Some(ReplyView::Object(ObjView::List(v)))) => v == out,
        Ok(Some(ReplyView::Tagged(v, _))) => v == out,
        Ok(Some(ReplyView::Sequence(v))) => v == out,
        _ => false,
    }
}

/// `size` and `count` answer how many elements there are, and `isEmpty` whether there
/// are none.
pub proof fn law_size(
    h: HostView,
    items: Seq<Value>,
    recv: Option<Value>,
    kind: SeqKind,
    args: Seq<Value>,
    log: Answers,
)
    ensures
        ({
            let says = |name: Seq<char>, v: Value|
                gives(h, items, recv, kind, name, args, log, ReplyView::Value(v));
            &&& says("size"@, Value::Int(items.len() as i64))
            &&& says("count"@, Value::Int(items.len() as i64))
            &&& says("isEmpty"@, Value::Bool(items.len() == 0))
            &&& says("isNotEmpty"@, Value::Bool(items.len() > 0))
        }),
{
    lemma_names();
}

/// `first` and `last` answer the elements at the ends, and raise where there is none.
pub proof fn law_ends(
    h: HostView,
    items: Seq<Value>,
    recv: Option<Value>,
    kind: SeqKind,
    args: Seq<Value>,
    log: Answers,
)
    ensures
        items.len() > 0 ==> {
            let says = |name: Seq<char>, v: Value|
                gives(h, items, recv, kind, name, args, log, ReplyView::Value(v));
            &&& says("first"@, items[0])
            &&& says("firstOrNull"@, items[0])
            &&& says("last"@, items[items.len() - 1])
            &&& says("lastOrNull"@, items[items.len() - 1])
        },
        items.len() == 0 ==> {
            &&& raises(h, items, recv, kind, "first"@, args, log)
            &&& raises(h, items, recv, kind, "last"@, args, log)
            &&& gives(h, items, recv, kind, "firstOrNull"@, args, log, ReplyView::Value(Value::Undef))
            &&& gives(h, items, recv, kind, "lastOrNull"@, args, log, ReplyView::Value(Value::Undef))
        },
{
    lemma_names();
}

/// `get` and `elementAt` answer the element at an index, and raise outside; their
/// `…OrNull` forms answer null there.
pub proof fn law_element_at(
    h: HostView,
    items: Seq<Value>,
    recv: Option<Value>,
    kind: SeqKind,
    i: i64,
    log: Answers,
)
    ensures
        ({
            let at = seq![Value::Int(i)];
            let says = |name: Seq<char>, v: Value|
                gives(h, items, recv, kind, name, at, log, ReplyView::Value(v));
            if 0 <= i < items.len() {
                &&& says("get"@, items[i as int])
                &&& says("elementAt"@, items[i as int])
                &&& says("getOrNull"@, items[i as int])
                &&& says("elementAtOrNull"@, items[i as int])
            } else {
                &&& raises(h, items, recv, kind, "get"@, at, log)
                &&& raises(h, items, recv, kind, "elementAt"@, at, log)
                &&& says("getOrNull"@, Value::Undef)
                &&& says("elementAtOrNull"@, Value::Undef)
            }
        }),
{
    lemma_names();
}

/// `single` answers the one element, and raises where there is another number of them.
pub proof fn law_single(
    h: HostView,
    items: Seq<Value>,
    recv: Option<Value>,
    kind: SeqKind,
    log: Answers,
)
    ensures
        ({
            let none = Seq::<Value>::empty();
            if items.len() == 1 {
                &&& gives(h, items, recv, kind, "single"@, none, log, ReplyView::Value(items[0]))
                &&& gives(h, items, recv, kind, "singleOrNull"@, none, log, ReplyView::Value(items[0]))
            } else {
                &&& raises(h, items, recv, kind, "single"@, none, log)
                &&& gives(
                    h,
                    items,
                    recv,
                    kind,
                    "singleOrNull"@,
                    none,
                    log,
                    ReplyView::Value(Value::Undef),
                )
            }
        }),
{
    lemma_names();
}

/// `take(n)` answers the first `n` elements and `drop(n)` the others, `takeLast(n)` the
/// last `n` and `dropLast(n)` the others. A count past the end takes or drops all, and a
/// negative one raises.
pub proof fn law_take_and_drop(
    h: HostView,
    items: Seq<Value>,
    recv: Option<Value>,
    kind: SeqKind,
    n: i64,
    log: Answers,
)
    ensures
        ({
            let args = seq![Value::Int(n)];
            let len = items.len() as int;
            &&& 0 <= n <= len ==> {
                &&& lists(h, items, recv, kind, "take"@, args, log, items.take(n as int))
                &&& lists(h, items, recv, kind, "drop"@, args, log, items.skip(n as int))
                &&& lists(h, items, recv, kind, "takeLast"@, args, log, items.skip(len - n))
                &&& lists(h, items, recv, kind, "dropLast"@, args, log, items.take(len - n))
            }
            &&& n > len ==> {
                &&& lists(h, items, recv, kind, "take"@, args, log, items)
                &&& lists(h, items, recv, kind, "drop"@, args, log, Seq::empty())
                &&& lists(h, items, recv, kind, "takeLast"@, args, log, items)
                &&& lists(h, items, recv, kind, "dropLast"@, args, log, Seq::empty())
            }
            &&& n < 0 ==> {
                &&& raises(h, items, recv, kind, "take"@, args, log)
                &&& raises(h, items, recv, kind, "drop"@, args, log)
                &&& raises(h, items, recv, kind, "takeLast"@, args, log)
                &&& raises(h, items, recv, kind, "dropLast"@, args, log)
            }
        }),
{
    lemma_names();
    let len = items.len() as int;
    let k: int = if n < len {
        n as int
    } else {
        len
    };
    if n >= 0 {
        assert(items.subrange(0, k) =~= items.take(k));
        assert(items.subrange(k, len) =~= items.skip(k));
        assert(items.subrange(len - k, len) =~= items.skip(len - k));
        assert(items.subrange(0, len - k) =~= items.take(len - k));
        if n > len {
            assert(items.take(len) =~= items);
            assert(items.skip(len) =~= Seq::empty());
            assert(items.skip(0) =~= items);
            assert(items.take(0) =~= Seq::empty());
        }
    }
}

/// `reversed` turns a collection round.
pub proof fn law_reversed(
    h: HostView,
    items: Seq<Value>,
    recv: Option<Value>,
    kind: SeqKind,
    log: Answers,
    out: Seq<Value>,
)
    requires
        lists(h, items, recv, kind, "reversed"@, Seq::empty(), log, out),
    ensures
        out.len() == items.len(),
        forall|i: int| 0 <= i < items.len() ==> out[items.len() - 1 - i] == #[trigger] items[i],
{
    lemma_names();
}

/// `toList`, `toMutableList`, `asList`, `asIterable`, `toTypedArray` and `asSequence` keep
/// the elements as they are.
pub proof fn law_copies(
    h: HostView,
    items: Seq<Value>,
    recv: Option<Value>,
    kind: SeqKind,
    args: Seq<Value>,
    log: Answers,
)
    ensures
        lists(h, items, recv, kind, "toList"@, args, log, items),
        lists(h, items, recv, kind, "toMutableList"@, args, log, items),
        lists(h, items, recv, kind, "toTypedArray"@, args, log, items),
        lists(h, items, recv, kind, "asList"@, args, log, items),
        lists(h, items, recv, kind, "asIterable"@, args, log, items),
        lists(h, items, recv, kind, "asSequence"@, args, log, items),
{
    lemma_names();
}

/// `filterNotNull` leaves the nulls out: one element more is added unless it is null.
pub proof fn law_filter_not_null(
    h: HostView,
    items: Seq<Value>,
    recv: Option<Value>,
    kind: SeqKind,
    args: Seq<Value>,
    log: Answers,
    x: Value,
    out: Seq<Value>,
)
    requires
        lists(h, items, recv, kind, "filterNotNull"@, args, log, out),
    ensures
        items.len() == 0 ==> out.len() == 0,
        lists(
            h,
            items.push(x),
            recv,
            kind,
            "filterNotNull"@,
            args,
            log,
            if x == Value::Undef {
                out
            } else {
                out.push(x)
            },
        ),
{
    lemma_names();
    let f = |v: Value| v != Value::Undef;
    reveal(Seq::filter);
    assert(items.push(x).drop_last() =~= items);
    assert(items.push(x).filter(f) =~= if f(x) {
        items.filter(f).push(x)
    } else {
        items.filter(f)
    });
}

/// `flatten` puts what the elements hold in a row: one element more adds what it holds.
pub proof fn law_flatten(
    h: HostView,
    items: Seq<Value>,
    recv: Option<Value>,
    kind: SeqKind,
    args: Seq<Value>,
    log: Answers,
    x: Value,
    out: Seq<Value>,
)
    requires
        lists(h, items, recv, kind, "flatten"@, args, log, out),
    ensures
        items.len() == 0 ==> out.len() == 0,
        lists(h, items.push(x), recv, kind, "flatten"@, args, log, out + items_of(h, x)),
        forall|s: Seq<Value>| #[trigger] h.obj(x) == Some(ObjView::List(s)) ==> items_of(h, x) == s,
{
    lemma_names();
    assert(items.push(x).drop_last() =~= items);
}

/// `sum` over integers adds them up, in 64 bits: one more is added to it.
pub proof fn law_sum(
    h: HostView,
    items: Seq<Value>,
    recv: Option<Value>,
    kind: SeqKind,
    args: Seq<Value>,
    log: Answers,
    sum: i64,
    n: i64,
)
    requires
        forall|i: int| 0 <= i < items.len() ==> #[trigger] items[i] is Int,
        gives(h, items, recv, kind, "sum"@, args, log, ReplyView::Value(Value::Int(sum))),
    ensures
        items.len() == 0 ==> sum == 0,
        i64::MIN <= sum + n <= i64::MAX ==> gives(
            h,
            items.push(Value::Int(n)),
            recv,
            kind,
            "sum"@,
            args,
            log,
            ReplyView::Value(Value::Int((sum + n) as i64)),
        ),
{
    lemma_names();
    let more = items.push(Value::Int(n));
    assert forall|i: int| 0 <= i < more.len() implies #[trigger] more[i] is Int by {
        if i < items.len() {
            assert(more[i] == items[i]);
        }
    }
    assert(more.drop_last() =~= items);
}

/// `average` is over all elements.
pub proof fn law_average(
    h: HostView,
    items: Seq<Value>,
    recv: Option<Value>,
    kind: SeqKind,
    args: Seq<Value>,
    log: Answers,
)
    ensures
        gives(h, items, recv, kind, "average"@, args, log, ReplyView::Average(items)),
{
    lemma_names();
}

/// `max` answers an element that no other exceeds, and `min` one that exceeds no other;
/// NaN among doubles wins over both.
pub proof fn law_extremes(
    h: HostView,
    items: Seq<Value>,
    recv: Option<Value>,
    kind: SeqKind,
    args: Seq<Value>,
    log: Answers,
    i: int,
)
    requires
        are_comparable(h, items),
        0 <= i < items.len(),
    ensures
        forall|name: Seq<char>|
            (name == "max"@ || name == "maxOrNull"@) ==> match #[trigger] shared_member(
                h,
                items,
                recv,
                kind,
                None,
                name,
                args,
                log,
            ) {
                Ok(Some(ReplyView::Value(v))) => items.contains(v) && natural_order(h, items[i], v)
                    <= 0,
                Ok(Some(ReplyView::Number(_))) => true,
                _ => false,
            },
        forall|name: Seq<char>|
            (name == "min"@ || name == "minOrNull"@) ==> match #[trigger] shared_member(
                h,
                items,
                recv,
                kind,
                None,
                name,
                args,
                log,
            ) {
                Ok(Some(ReplyView::Value(v))) => items.contains(v) && natural_order(h, items[i], v)
                    >= 0,
                Ok(Some(ReplyView::Number(_))) => true,
                _ => false,
            },
{
    lemma_names();
    lemma_extreme_names();
    lemma_extreme(h, items, true, i);
    lemma_extreme(h, items, false, i);
}

proof fn lemma_extreme_names()
    ensures
        starts_with("max"@, "max"@),
        starts_with("maxOrNull"@, "max"@),
        !starts_with("min"@, "max"@),
        !starts_with("minOrNull"@, "max"@),
{
    reveal_strlit("max");
    reveal_strlit("maxOrNull");
    reveal_strlit("min");
    reveal_strlit("minOrNull");
    assert("max"@.subrange(0, 3) =~= "max"@);
    assert("maxOrNull"@.subrange(0, 3) =~= "max"@);
    assert("min"@.subrange(0, 3)[1] == 'i');
    assert("minOrNull"@.subrange(0, 3)[1] == 'i');
    assert("max"@[1] == 'a');
}

/// NaN wins only where an element is a double.
pub proof fn law_extremes_of_integers(
    h: HostView,
    items: Seq<Value>,
    recv: Option<Value>,
    kind: SeqKind,
    args: Seq<Value>,
    log: Answers,
)
    requires
        items.len() > 0,
        forall|i: int| 0 <= i < items.len() ==> !(#[trigger] items[i] is Float),
    ensures
        shared_member(h, items, recv, kind, None, "max"@, args, log) matches Ok(
            Some(ReplyView::Value(_)),
        ),
        shared_member(h, items, recv, kind, None, "min"@, args, log) matches Ok(
            Some(ReplyView::Value(_)),
        ),
{
    lemma_names();
    lemma_no_nan(h, items, starts_with("max"@, "max"@));
    lemma_no_nan(h, items, starts_with("min"@, "max"@));
}

proof fn lemma_no_nan(h: HostView, vs: Seq<Value>, max: bool)
    requires
        forall|i: int| 0 <= i < vs.len() ==> !(#[trigger] vs[i] is Float),
    ensures
        vs.len() > 0 ==> (extreme(h, vs, max) matches Extreme::Of(v) && !(v is Float)),
    decreases vs.len(),
{
    if vs.len() > 0 {
        assert forall|i: int| 0 <= i < vs.drop_last().len() implies !(#[trigger] vs.drop_last()[i] is Float) by {
            assert(vs.drop_last()[i] == vs[i]);
        }
        assert(!(vs[vs.len() - 1] is Float));
        lemma_no_nan(h, vs.drop_last(), max);
    }
}

/// `sorted` answers the elements in ascending order and `sortedDescending` in descending
/// order, each exactly as often as it was there.
pub proof fn law_sorted(
    h: HostView,
    items: Seq<Value>,
    recv: Option<Value>,
    kind: SeqKind,
    args: Seq<Value>,
    log: Answers,
)
    requires
        are_comparable(h, items),
    ensures
        exists|at: Seq<int>, out: Seq<Value>|
            #[trigger] rearranges(at, items, out) && is_ascending(h, out) && lists(
                h,
                items,
                recv,
                kind,
                "sorted"@,
                args,
                log,
                out,
            ),
        exists|at: Seq<int>, out: Seq<Value>|
            #[trigger] rearranges(at, items, out) && is_descending(h, out) && lists(
                h,
                items,
                recv,
                kind,
                "sortedDescending"@,
                args,
                log,
                out,
            ),
{
    lemma_names();
    let at = sorted_positions(items.len() as int, by_key(h, items));
    let out = picked(items, at);
    lemma_sorted_by_keys(h, items, items);
    assert(rearranges(at, items, out) && is_ascending(h, out));
    let ta = at.reverse();
    let tout = out.reverse();
    assert forall|i: int, j: int| 0 <= i < j < tout.len() implies natural_order(
        h,
        #[trigger] tout[i],
        #[trigger] tout[j],
    ) >= 0 by {
        let n = out.len() - 1;
        assert(natural_order(h, out[n - j], out[n - i]) <= 0);
        law_order_turns_round(h, tout[i], tout[j]);
    }
    assert forall|i: int| 0 <= i < ta.len() implies 0 <= #[trigger] ta[i] < items.len() && tout[i]
        == items[ta[i]] by {
        assert(ta[i] == at[at.len() - 1 - i]);
    }
    assert(ta.no_duplicates()) by {
        assert forall|i: int, j: int| 0 <= i < ta.len() && 0 <= j < ta.len() && i != j implies ta[i]
            != ta[j] by {
            assert(ta[i] == at[at.len() - 1 - i] && ta[j] == at[at.len() - 1 - j]);
        }
    }
    assert(rearranges(ta, items, tout));
}

/// `zip` pairs the elements of both at equal positions as long as both have one, and
/// `zipWithNext` each element with its successor.
pub proof fn law_zip(
    h: HostView,
    items: Seq<Value>,
    recv: Option<Value>,
    kind: SeqKind,
    other: Value,
    ys: Seq<Value>,
    log: Answers,
)
    requires
        h.obj(other) == Some(ObjView::List(ys)),
    ensures
        shared_member(h, items, recv, kind, None, "zip"@, seq![other], log) matches Ok(
            Some(ReplyView::NewList(ps)),
        ) && ps.len() == (if items.len() < ys.len() {
            items.len()
        } else {
            ys.len()
        }) && forall|i: int| 0 <= i < ps.len() ==> #[trigger] ps[i] == ObjView::Pair(items[i], ys[i]),
        shared_member(h, items, recv, kind, None, "zipWithNext"@, Seq::empty(), log) matches Ok(
            Some(ReplyView::NewList(ps)),
        ) && ps.len() == (if items.len() == 0 {
            0
        } else {
            (items.len() - 1) as nat
        }) && forall|i: int|
            0 <= i < ps.len() ==> #[trigger] ps[i] == ObjView::Pair(items[i], items[i + 1]),
{
    lemma_names();
    assert(items_of(h, other) == ys);
}

/// `withIndex` answers each element with its position.
pub proof fn law_with_index(
    h: HostView,
    items: Seq<Value>,
    recv: Option<Value>,
    kind: SeqKind,
    args: Seq<Value>,
    log: Answers,
)
    ensures
        shared_member(h, items, recv, kind, None, "withIndex"@, args, log) matches Ok(
            Some(ReplyView::NewList(vs)),
        ) && vs.len() == items.len() && forall|i: int|
            0 <= i < vs.len() ==> (#[trigger] vs[i] matches ObjView::Instance { fields, .. } && fields
                == seq![("index"@, Value::Int(i as i64)), ("value"@, items[i])]),
{
    lemma_names();
}

/// `unzip` takes couples apart: the first halves and the second halves, in their order.
pub proof fn law_unzip(
    h: HostView,
    items: Seq<Value>,
    recv: Option<Value>,
    kind: SeqKind,
    args: Seq<Value>,
    log: Answers,
    x: Value,
    a: Value,
    b: Value,
    firsts: Seq<Value>,
    seconds: Seq<Value>,
)
    requires
        gives(h, items, recv, kind, "unzip"@, args, log, ReplyView::Lists(firsts, seconds)),
        h.obj(x) == Some(ObjView::Pair(a, b)),
    ensures
        firsts.len() == items.len() && seconds.len() == items.len(),
        gives(
            h,
            items.push(x),
            recv,
            kind,
            "unzip"@,
            args,
            log,
            ReplyView::Lists(firsts.push(a), seconds.push(b)),
        ),
{
    lemma_names();
    assert(items.push(x).drop_last() =~= items);
    let cs = crate::receiver::all_couples(h, items)->0;
    lemma_couples_len(h, items);
    let more = crate::receiver::all_couples(h, items.push(x))->0;
    assert(more == cs.push((a, b)));
    assert(more.map_values(|c: (Value, Value)| c.0) =~= firsts.push(a));
    assert(more.map_values(|c: (Value, Value)| c.1) =~= seconds.push(b));
}

proof fn lemma_couples_len(h: HostView, items: Seq<Value>)
    ensures
        crate::receiver::all_couples(h, items) matches Some(cs) ==> cs.len() == items.len(),
    decreases items.len(),
{
    if items.len() > 0 {
        lemma_couples_len(h, items.drop_last());
    }
}

/// `slice` answers the elements at the given indices: one index more adds the element at
/// it, and raises outside the collection.
pub proof fn law_slice(
    h: HostView,
    items: Seq<Value>,
    recv: Option<Value>,
    kind: SeqKind,
    at: Value,
    more: Value,
    is: Seq<Value>,
    i: i64,
    log: Answers,
    out: Seq<Value>,
)
    requires
        h.obj(at) == Some(ObjView::List(is)),
        h.obj(more) == Some(ObjView::List(is.push(Value::Int(i)))),
        lists(h, items, recv, kind, "slice"@, seq![at], log, out),
    ensures
        is.len() == 0 ==> out.len() == 0,
        0 <= i < items.len() ==> lists(
            h,
            items,
            recv,
            kind,
            "slice"@,
            seq![more],
            log,
            out.push(items[i as int]),
        ),
        !(0 <= i < items.len()) ==> raises(h, items, recv, kind, "slice"@, seq![more], log),
{
    lemma_names();
    assert(items_of(h, at) == is);
    assert(items_of(h, more) == is.push(Value::Int(i)));
    assert(is.push(Value::Int(i)).drop_last() =~= is);
}

/// `subList` answers the elements from one index up to another, and raises where they are
/// not within the list or cross.
pub proof fn law_sub_list(
    h: HostView,
    items: Seq<Value>,
    recv: Option<Value>,
    kind: SeqKind,
    from: i64,
    to: i64,
    log: Answers,
)
    ensures
        ({
            let args = seq![Value::Int(from), Value::Int(to)];
            if 0 <= from <= to <= items.len() {
                lists(
                    h,
                    items,
                    recv,
                    kind,
                    "subList"@,
                    args,
                    log,
                    items.skip(from as int).take(to - from),
                )
            } else {
                raises(h, items, recv, kind, "subList"@, args, log)
            }
        }),
{
    lemma_names();
    if 0 <= from <= to <= items.len() {
        assert(items.subrange(from as int, to as int) =~= items.skip(from as int).take(to - from));
    }
}

/// `chunked(n)` cuts a collection into pieces of `n` elements, the last of which may be
/// shorter: in a row they are the collection.
pub proof fn law_chunked(
    h: HostView,
    items: Seq<Value>,
    recv: Option<Value>,
    kind: SeqKind,
    n: i64,
    log: Answers,
    x: Seq<Value>,
    y: Seq<Value>,
)
    requires
        n > 0,
        items == x + y,
        x.len() == n || (0 < x.len() < n && y.len() == 0),
    ensures
        shared_member(h, items, recv, kind, None, "chunked"@, seq![Value::Int(n)], log) matches Ok(
            Some(ReplyView::NewList(gs)),
        ) && gs.len() > 0 && gs[0] == ObjView::List(x) && gives(
            h,
            y,
            recv,
            kind,
            "chunked"@,
            seq![Value::Int(n)],
            log,
            ReplyView::NewList(gs.skip(1)),
        ),
        gives(
            h,
            Seq::empty(),
            recv,
            kind,
            "chunked"@,
            seq![Value::Int(n)],
            log,
            ReplyView::NewList(Seq::empty()),
        ),
{
    lemma_names();
    let size = n as int;
    let len = items.len() as int;
    assert(y =~= items.skip(x.len() as int));
    lemma_windows_behind(items, x.len() as int, 0, size, size, true);
    if x.len() == n {
        assert(items.subrange(0, size) =~= x);
    } else {
        assert(items.subrange(0, len) =~= x);
        assert(windows(items, size, size, size, true) =~= Seq::empty());
        assert(windows(y, 0, size, size, true) =~= Seq::empty());
    }
    let all = crate::hof::list_objs(windows(items, 0, size, size, true));
    let rest = crate::hof::list_objs(windows(y, 0, size, size, true));
    assert(all.skip(1) =~= rest);
    assert(crate::hof::list_objs(windows(Seq::empty(), 0, size, size, true)) =~= Seq::empty());
}

proof fn lemma_windows_behind(items: Seq<Value>, d: int, at: int, size: int, step: int, partial: bool)
    requires
        0 <= d <= items.len(),
        0 <= at,
        size > 0,
        step > 0,
    ensures
        windows(items.skip(d), at, size, step, partial) == windows(
            items,
            d + at,
            size,
            step,
            partial,
        ),
    decreases
        (if d + at < items.len() {
            items.len() - d - at
        } else {
            0
        }),
{
    let t = items.skip(d);
    if at < t.len() {
        lemma_windows_behind(items, d, at + step, size, step, partial);
        if at + size <= t.len() {
            assert(t.subrange(at, at + size) =~= items.subrange(d + at, d + at + size));
        }
        assert(t.subrange(at, t.len() as int) =~= items.subrange(d + at, items.len() as int));
    }
}

/// `windowed(n, step)` answers the first `n` elements, and what it answers for the
/// collection without its first `step`; fewer than `n` elements give nothing more.
pub proof fn law_windowed(
    h: HostView,
    items: Seq<Value>,
    recv: Option<Value>,
    kind: SeqKind,
    n: i64,
    step: i64,
    log: Answers,
)
    requires
        n > 0,
        step > 0,
    ensures
        ({
            let args = seq![Value::Int(n), Value::Int(step)];
            &&& items.len() < n ==> gives(
                h,
                items,
                recv,
                kind,
                "windowed"@,
                args,
                log,
                ReplyView::NewList(Seq::empty()),
            )
            &&& items.len() >= n ==> (shared_member(h, items, recv, kind, None, "windowed"@, args, log) matches Ok(
                Some(ReplyView::NewList(gs)),
            ) && gs.len() > 0 && gs[0] == ObjView::List(items.take(n as int)) && (step <= items.len()
                ==> gives(
                h,
                items.skip(step as int),
                recv,
                kind,
                "windowed"@,
                args,
                log,
                ReplyView::NewList(gs.skip(1)),
            )) && (step > items.len() ==> gs.len() == 1))
        }),
{
    lemma_names();
    let size = n as int;
    let all = windows(items, 0, size, step as int, false);
    if items.len() < n {
        assert(crate::hof::list_objs(all) =~= Seq::empty());
    } else {
        assert(items.subrange(0, size) =~= items.take(size));
        let later = windows(items, step as int, size, step as int, false);
        if step <= items.len() {
            lemma_windows_behind(items, step as int, 0, size, step as int, false);
            assert(crate::hof::list_objs(all).skip(1) =~= crate::hof::list_objs(later));
        } else {
            assert(later =~= Seq::empty());
        }
    }
}

/// A size or a step that is not positive raises.
pub proof fn law_windows_need_a_size(
    h: HostView,
    items: Seq<Value>,
    recv: Option<Value>,
    kind: SeqKind,
    n: i64,
    step: i64,
    log: Answers,
)
    ensures
        n <= 0 ==> raises(h, items, recv, kind, "chunked"@, seq![Value::Int(n)], log),
        n <= 0 || step <= 0 ==> raises(
            h,
            items,
            recv,
            kind,
            "windowed"@,
            seq![Value::Int(n), Value::Int(step)],
            log,
        ),
{
    lemma_names();
}

/// `joinToString` puts the texts of the elements in a row, with the separator between them
/// (by itself `, `): one element more adds the separator and its text.
pub proof fn law_join_to_string(
    h: HostView,
    items: Seq<Value>,
    recv: Option<Value>,
    kind: SeqKind,
    log: Answers,
    sep: usize,
    x: Value,
    t: Seq<char>,
    u: Seq<char>,
)
    requires
        gives(h, items, recv, kind, "joinToString"@, seq![Value::Str(sep)], log, ReplyView::Text(t)),
        gives(h, items, recv, kind, "joinToString"@, Seq::empty(), log, ReplyView::Text(u)),
    ensures
        items.len() == 0 ==> t.len() == 0 && u.len() == 0,
        ({
            let text = crate::display::text_of(h, x);
            let more = items.push(x);
            &&& gives(
                h,
                more,
                recv,
                kind,
                "joinToString"@,
                seq![Value::Str(sep)],
                log,
                ReplyView::Text(
                    if items.len() == 0 {
                        text
                    } else {
                        t + h.text(sep) + text
                    },
                ),
            )
            &&& gives(
                h,
                more,
                recv,
                kind,
                "joinToString"@,
                Seq::empty(),
                log,
                ReplyView::Text(
                    if items.len() == 0 {
                        text
                    } else {
                        u + ", "@ + text
                    },
                ),
            )
        }),
{
    lemma_names();
    reveal_strlit("");
    let more = items.push(x);
    let ts = value_texts(h, items);
    let us = value_texts(h, more);
    assert(us.drop_last() =~= ts);
    assert(us.take(us.len() as int) =~= us);
    assert(ts.take(ts.len() as int) =~= ts);
    assert(crate::display::text_of(h, Value::Str(sep)) == h.text(sep));
    let a = joined(ts, h.text(sep));
    let b = joined(us, h.text(sep));
    assert(""@ + a + ""@ =~= a);
    assert(""@ + b + ""@ =~= b);
    let c = joined(ts, ", "@);
    let d = joined(us, ", "@);
    assert(""@ + c + ""@ =~= c);
    assert(""@ + d + ""@ =~= d);
}

proof fn lemma_joined(
    h: HostView,
    items: Seq<Value>,
    recv: Option<Value>,
    kind: SeqKind,
    log: Answers,
    args: Seq<Value>,
)
    ensures
        gives(
            h,
            items,
            recv,
            kind,
            "joinToString"@,
            args,
            log,
            ReplyView::Text(join_text(h, value_texts(h, items), items.len() as int, args)),
        ),
{
    lemma_names();
}

proof fn lemma_text_argument(h: HostView, b: usize)
    ensures
        crate::display::text_of(h, Value::Str(b)) == h.text(b),
{
}

/// The prefix stands before all that `joinToString` answers, and the postfix behind it.
pub proof fn law_join_between(
    h: HostView,
    items: Seq<Value>,
    recv: Option<Value>,
    kind: SeqKind,
    log: Answers,
    sep: usize,
    pre: usize,
    post: usize,
    body: Seq<char>,
)
    requires
        gives(
            h,
            items,
            recv,
            kind,
            "joinToString"@,
            seq![Value::Str(sep)],
            log,
            ReplyView::Text(body),
        ),
    ensures
        gives(
            h,
            items,
            recv,
            kind,
            "joinToString"@,
            seq![Value::Str(sep), Value::Str(pre), Value::Str(post)],
            log,
            ReplyView::Text(h.text(pre) + body + h.text(post)),
        ),
{
    reveal_strlit("");
    lemma_joined(h, items, recv, kind, log, seq![Value::Str(sep)]);
    lemma_joined(
        h,
        items,
        recv,
        kind,
        log,
        seq![Value::Str(sep), Value::Str(pre), Value::Str(post)],
    );
    lemma_text_argument(h, sep);
    lemma_text_argument(h, pre);
    lemma_text_argument(h, post);
    let ts = value_texts(h, items);
    assert(ts.take(ts.len() as int) =~= ts);
    let a = joined(ts, h.text(sep));
    assert(""@ + a + ""@ =~= a);
}

/// `joinToString` with a limit joins so many elements, and puts a mark in the place of the
/// others.
pub proof fn law_join_with_a_limit(
    h: HostView,
    items: Seq<Value>,
    recv: Option<Value>,
    kind: SeqKind,
    log: Answers,
    sep: usize,
    pre: usize,
    post: usize,
    limit: i64,
    mark: usize,
    body: Seq<char>,
)
    requires
        0 < limit < items.len(),
        gives(
            h,
            items.take(limit as int),
            recv,
            kind,
            "joinToString"@,
            seq![Value::Str(sep)],
            log,
            ReplyView::Text(body),
        ),
    ensures
        gives(
            h,
            items,
            recv,
            kind,
            "joinToString"@,
            seq![
                Value::Str(sep),
                Value::Str(pre),
                Value::Str(post),
                Value::Int(limit),
                Value::Str(mark),
            ],
            log,
            ReplyView::Text(h.text(pre) + (body + h.text(sep) + h.text(mark)) + h.text(post)),
        ),
{
    reveal_strlit("");
    let n = limit as int;
    let few = items.take(n);
    lemma_joined(h, few, recv, kind, log, seq![Value::Str(sep)]);
    lemma_joined(
        h,
        items,
        recv,
        kind,
        log,
        seq![
            Value::Str(sep),
            Value::Str(pre),
            Value::Str(post),
            Value::Int(limit),
            Value::Str(mark),
        ],
    );
    lemma_text_argument(h, sep);
    lemma_text_argument(h, pre);
    lemma_text_argument(h, post);
    lemma_text_argument(h, mark);
    let ts = value_texts(h, few);
    let all = value_texts(h, items);
    assert(ts.take(n) =~= ts);
    assert(all.take(n) =~= ts);
    let a = joined(ts, h.text(sep));
    assert(""@ + a + ""@ =~= a);
    lemma_limited(h, all, items.len() as int, sep, pre, post, limit, mark);
}

proof fn lemma_limited(
    h: HostView,
    bodies: Seq<Seq<char>>,
    n: int,
    sep: usize,
    pre: usize,
    post: usize,
    limit: i64,
    mark: usize,
)
    requires
        0 < limit < n,
        n == bodies.len(),
    ensures
        join_text(
            h,
            bodies,
            n,
            seq![
                Value::Str(sep),
                Value::Str(pre),
                Value::Str(post),
                Value::Int(limit),
                Value::Str(mark),
            ],
        ) == h.text(pre) + (joined(bodies.take(limit as int), h.text(sep)) + h.text(sep) + h.text(
            mark,
        )) + h.text(post),
{
    let args = seq![
        Value::Str(sep),
        Value::Str(pre),
        Value::Str(post),
        Value::Int(limit),
        Value::Str(mark),
    ];
    lemma_text_argument(h, sep);
    lemma_text_argument(h, pre);
    lemma_text_argument(h, post);
    lemma_text_argument(h, mark);
    assert(crate::receiver::shown_count(h, args, n) == limit);
    assert(crate::receiver::text_or(h, args, 4, "..."@) == h.text(mark));
    let ts = bodies.take(limit as int);
    let parts = ts.push(h.text(mark));
    assert(parts.drop_last() =~= ts);
}

} // verus!
