//! The lambda-free members that every ordered sequence shares: lists, sets,
//! arrays, ranges, and texts read as their characters.
use crate::compare::depth_budget;
use crate::double::nan;
use crate::gather::{drop_nulls, flatten, sum_values};
use crate::hof::{class_of_sorted, objs_of_groups};
use crate::host::{Host, ListImpl};
use crate::operators::{distinct, position, remain, retained, searches_by_hash};
use crate::order::natural_positions;
use crate::radix::int_text;
use crate::range::RangeObj;
use crate::receiver::{
    couple,
    groups_of,
    index_fault,
    join_to_string,
    sequence_items,
    texts_of_values,
    value_at,
    SeqKind,
};
use crate::reply::Reply;
use crate::search::{has_prefix, has_suffix};
use crate::sorting::pick;
use crate::strings::{int_arg, number_message, size_text};
use crate::text::{concat2, concat3, same};
use crate::types::value_order;
use crate::value::{copy_values, values_between, Double, HeapObj, Value};
use crate::walk::{host_before, Log, Stop, Turn};
use vstd::prelude::*;

verus! {

use crate::compare::budget;
use crate::double::is_nan;
use crate::gather::{flattened, non_null, sum_reply};
use crate::hof::{list_objs, sorted_class};
use crate::host::HostView;
use crate::operators::{
    distinct_walk,
    is_decided,
    is_hashed,
    law_retaining_decides_each,
    position_walk,
    remaining,
    retained_walk,
};
use crate::order::by_key;
use crate::radix::decimal;
use crate::receiver::{
    couple_of,
    grouped,
    index_fault_message,
    items_of,
    join_text,
    pair_objs,
    unresolved,
    value_or_null,
    value_texts,
};
use crate::reply::{objs_view, reply_view, ReplyView};
use crate::search::{ends_with, starts_with};
use crate::sorting::{picked, sorted_positions};
use crate::strings::{arg_int, as_int, at_most, with_number};
use crate::types::natural_order;
use crate::value::{DoubleView, ObjView};
use crate::walk::{host_at, reached, Answers, Outcome};

// ── Elements ────────────────────────────────────────────────────────────────

/// The class recorded for the receiver, when there is one.
pub open spec fn class_recorded(h: HostView, recv: Option<Value>) -> Option<ListImpl> {
    match recv {
        Some(v) => h.list_tag(v),
        None => None,
    }
}

/// The greatest or least element so far: nothing yet, NaN, or a value.
#[derive(Clone, Copy, Debug, PartialEq, Eq, Structural)]
pub enum Extreme {
    Nothing,
    Nan,
    Of(Value),
}

/// The greatest or least of some values. A NaN among floating-point values wins
/// over all; else a later value is taken when it is greater (for the greatest)
/// or not greater (for the least).
pub open spec fn extreme(h: HostView, vs: Seq<Value>, max: bool) -> Extreme
    decreases vs.len(),
{
    if vs.len() == 0 {
        Extreme::Nothing
    } else {
        let b = vs.last();
        match extreme(h, vs.drop_last(), max) {
            Extreme::Nothing => Extreme::Of(b),
            Extreme::Nan => Extreme::Nan,
            Extreme::Of(a) => if (a is Float || b is Float) && (is_nan(h.to_double(a)) || is_nan(
                h.to_double(b),
            )) {
                Extreme::Nan
            } else if (natural_order(h, b, a) > 0) == max {
                Extreme::Of(b)
            } else {
                Extreme::Of(a)
            },
        }
    }
}

/// The number that is not a number.
pub open spec fn nan_number() -> DoubleView {
    DoubleView { bits: 0x7ff8_0000_0000_0000, digits: seq!['0'], exp10: 0 }
}

/// The elements at some indices, or the first index outside.
pub open spec fn sliced(h: HostView, items: Seq<Value>, at: Seq<Value>) -> Result<Seq<Value>, int>
    decreases at.len(),
{
    if at.len() == 0 {
        Ok(Seq::empty())
    } else {
        match sliced(h, items, at.drop_last()) {
            Err(i) => Err(i),
            Ok(out) => {
                let i = h.to_int(at.last());
                if 0 <= i < items.len() {
                    Ok(out.push(items[i]))
                } else {
                    Err(i)
                }
            },
        }
    }
}

/// The reply for an element that has to be there.
pub open spec fn needed(kind: SeqKind, items: Seq<Value>, at: int) -> ReplyView {
    if items.len() == 0 {
        ReplyView::Fault(kind.empty_message())
    } else {
        ReplyView::Value(items[at])
    }
}

/// The `subList` from `from` to `to`, or the fault of its bounds: one bound per
/// fault, and a crossed pair is another one.
pub open spec fn sub_list(items: Seq<Value>, from: int, to: int) -> ReplyView {
    if from < 0 {
        ReplyView::Fault(
            with_number("java.lang.IndexOutOfBoundsException: fromIndex = "@, from, ""@),
        )
    } else if to > items.len() {
        ReplyView::Fault(with_number("java.lang.IndexOutOfBoundsException: toIndex = "@, to, ""@))
    } else if from > to {
        ReplyView::Fault(
            "java.lang.IllegalArgumentException: fromIndex("@ + decimal(from) + ") > toIndex("@
                + decimal(to) + ")"@,
        )
    } else {
        ReplyView::Object(ObjView::List(items.subrange(from, to)))
    }
}

/// The members that answer an element or a number.
pub open spec fn element_member(
    h: HostView,
    items: Seq<Value>,
    recv: Option<Value>,
    kind: SeqKind,
    range: Option<RangeObj>,
    name: Seq<char>,
    args: Seq<Value>,
) -> Option<ReplyView> {
    let i = arg_int(h, args, 0, 0);
    if name == "size"@ || name == "count"@ {
        Some(ReplyView::Value(as_int(items.len() as int)))
    } else if name == "isEmpty"@ {
        Some(ReplyView::Value(Value::Bool(items.len() == 0)))
    } else if name == "isNotEmpty"@ {
        Some(ReplyView::Value(Value::Bool(items.len() != 0)))
    } else if name == "first"@ {
        Some(
            match range {
                Some(r) => ReplyView::Value(wrapped(r, r.first as int)),
                None => needed(kind, items, 0),
            },
        )
    } else if name == "last"@ {
        Some(
            match range {
                Some(r) => ReplyView::Value(wrapped(r, r.last_element())),
                None => needed(kind, items, items.len() - 1),
            },
        )
    } else if name == "get"@ || name == "elementAt"@ {
        Some(
            if 0 <= i < items.len() {
                ReplyView::Value(items[i])
            } else {
                ReplyView::Fault(
                    index_fault_message(kind, class_recorded(h, recv), i, items.len() as int),
                )
            },
        )
    } else if name == "getOrNull"@ || name == "elementAtOrNull"@ {
        Some(ReplyView::Value(value_or_null(items, i)))
    } else if name == "firstOrNull"@ {
        Some(ReplyView::Value(value_or_null(items, 0)))
    } else if name == "lastOrNull"@ {
        Some(ReplyView::Value(value_or_null(items, items.len() - 1)))
    } else if name == "slice"@ {
        let at = if args.len() > 0 {
            items_of(h, args[0])
        } else {
            Seq::empty()
        };
        Some(
            match sliced(h, items, at) {
                Ok(out) => ReplyView::Tagged(out, ListImpl::ReadOnly),
                Err(k) => ReplyView::Fault(
                    "java.lang.IndexOutOfBoundsException: Index: "@ + decimal(k) + ", Size: "@
                        + decimal(items.len() as int),
                ),
            },
        )
    } else if name == "subList"@ {
        Some(sub_list(items, i, arg_int(h, args, 1, items.len() as int)))
    } else if name == "sum"@ {
        Some(sum_reply(items))
    } else if name == "average"@ {
        Some(ReplyView::Average(items))
    } else if name == "max"@ || name == "min"@ || name == "maxOrNull"@ || name == "minOrNull"@ {
        Some(
            match extreme(h, items, starts_with(name, "max"@)) {
                Extreme::Nan => ReplyView::Number(nan_number()),
                Extreme::Of(v) => ReplyView::Value(v),
                Extreme::Nothing => if ends_with(name, "OrNull"@) {
                    ReplyView::Value(Value::Undef)
                } else {
                    ReplyView::Fault("java.util.NoSuchElementException"@)
                },
            },
        )
    } else if (name == "single"@ || name == "singleOrNull"@) && args.len() == 0 {
        Some(
            if items.len() == 1 {
                ReplyView::Value(items[0])
            } else if name == "singleOrNull"@ {
                ReplyView::Value(Value::Undef)
            } else if items.len() == 0 {
                ReplyView::Fault(kind.empty_message())
            } else {
                ReplyView::Fault(
                    "java.lang.IllegalArgumentException: "@ + kind.subject()
                        + " has more than one element."@,
                )
            },
        )
    } else {
        None
    }
}

/// A number of a range as the Kotlin value it is.
pub open spec fn wrapped(r: RangeObj, n: int) -> Value {
    if r.is_char {
        crate::value::char_value(n)
    } else {
        Value::Int(n as i64)
    }
}

fn find_extreme(h: &Host, vs: &Vec<Value>, max: bool) -> (r: Extreme)
    ensures
        r == extreme(h@, vs@, max),
{
    let mut r: Extreme = Extreme::Nothing;
    let mut i: usize = 0;
    assert(vs@.take(0) =~= Seq::empty());
    while i < vs.len()
        invariant
            i <= vs@.len(),
            r == extreme(h@, vs@.take(i as int), max),
        decreases vs.len() - i,
    {
        assert(vs@.take(i + 1).drop_last() =~= vs@.take(i as int));
        assert(vs@.take(i + 1).last() == vs@[i as int]);
        let b: Value = vs[i];
        match r {
            Extreme::Nothing => {
                r = Extreme::Of(b);
            },
            Extreme::Nan => {},
            Extreme::Of(a) => {
                let floating: bool = matches!(a, Value::Float(_)) || matches!(b, Value::Float(_));
                if floating && (nan(h.to_double(a)) || nan(h.to_double(b))) {
                    r = Extreme::Nan;
                } else if (value_order(h, b, a) > 0) == max {
                    r = Extreme::Of(b);
                }
            },
        }
        i = i + 1;
    }
    assert(vs@.take(i as int) =~= vs@);
    r
}

proof fn lemma_sliced_err(h: HostView, items: Seq<Value>, at: Seq<Value>, k: int)
    requires
        0 <= k <= at.len(),
        sliced(h, items, at.take(k)) is Err,
    ensures
        sliced(h, items, at) == sliced(h, items, at.take(k)),
    decreases at.len() - k,
{
    if k < at.len() {
        assert(at.take(k + 1).drop_last() =~= at.take(k));
        lemma_sliced_err(h, items, at, k + 1);
    } else {
        assert(at.take(k) =~= at);
    }
}

fn slice(h: &Host, items: &Vec<Value>, at: &Vec<Value>) -> (r: Result<Vec<Value>, i64>)
    ensures
        match r {
            Ok(out) => sliced(h@, items@, at@) == Ok::<Seq<Value>, int>(out@),
            Err(k) => sliced(h@, items@, at@) == Err::<Seq<Value>, int>(k as int),
        },
{
    let mut out: Vec<Value> = Vec::new();
    let mut k: usize = 0;
    assert(at@.take(0) =~= Seq::empty());
    while k < at.len()
        invariant
            k <= at@.len(),
            sliced(h@, items@, at@.take(k as int)) == Ok::<Seq<Value>, int>(out@),
        decreases at.len() - k,
    {
        assert(at@.take(k + 1).drop_last() =~= at@.take(k as int));
        assert(at@.take(k + 1).last() == at@[k as int]);
        let i: i64 = h.to_int(at[k]);
        if 0 <= i && (i as u128) < items.len() as u128 {
            out.push(items[i as usize]);
        } else {
            proof {
                lemma_sliced_err(h@, items@, at@, k + 1);
            }
            return Err(i);
        }
        k = k + 1;
    }
    assert(at@.take(k as int) =~= at@);
    Ok(out)
}

fn need(kind: SeqKind, items: &Vec<Value>, last: bool) -> (r: Reply)
    ensures
        r@ == needed(
            kind,
            items@,
            if last {
                items@.len() - 1
            } else {
                0
            },
        ),
{
    if items.len() == 0 {
        Reply::Fault(kind.empty())
    } else if last {
        Reply::Value(items[items.len() - 1])
    } else {
        Reply::Value(items[0])
    }
}

fn sub_list_of(items: &Vec<Value>, from: i64, to: i64) -> (r: Reply)
    ensures
        r@ == sub_list(items@, from as int, to as int),
{
    if from < 0 {
        Reply::Fault(
            number_message("java.lang.IndexOutOfBoundsException: fromIndex = ", from, ""),
        )
    } else if to as i128 > items.len() as i128 {
        Reply::Fault(number_message("java.lang.IndexOutOfBoundsException: toIndex = ", to, ""))
    } else if from > to {
        let head: String = concat3(
            "java.lang.IllegalArgumentException: fromIndex(",
            int_text(from).as_str(),
            ") > toIndex(",
        );
        Reply::Fault(concat3(head.as_str(), int_text(to).as_str(), ")"))
    } else {
        Reply::Object(HeapObj::List(values_between(items, from as usize, to as usize)))
    }
}

fn tail_list(items: &Vec<Value>, from: i64) -> (r: Reply)
    ensures
        r@ == sub_list(items@, from as int, items@.len() as int),
{
    if from < 0 {
        Reply::Fault(
            number_message("java.lang.IndexOutOfBoundsException: fromIndex = ", from, ""),
        )
    } else if from as i128 > items.len() as i128 {
        let head: String = concat3(
            "java.lang.IllegalArgumentException: fromIndex(",
            int_text(from).as_str(),
            ") > toIndex(",
        );
        Reply::Fault(concat3(head.as_str(), size_text(items.len()).as_str(), ")"))
    } else {
        Reply::Object(HeapObj::List(values_between(items, from as usize, items.len())))
    }
}

fn nan_reply() -> (r: Reply)
    ensures
        r@ == ReplyView::Number(nan_number()),
{
    proof {
        reveal_strlit("0");
    }
    assert("0"@ =~= seq!['0']);
    Reply::Number(Double { bits: 0x7ff8_0000_0000_0000, digits: "0".to_owned(), exp10: 0 })
}

fn element(
    h: &Host,
    items: &Vec<Value>,
    recv: Option<Value>,
    kind: SeqKind,
    range: Option<RangeObj>,
    name: &str,
    args: &Vec<Value>,
) -> (r: Option<Reply>)
    ensures
        reply_view(r) == element_member(h@, items@, recv, kind, range, name@, args@),
{
    let i: i64 = int_arg(h, args, 0, 0);
    if same(name, "size") || same(name, "count") {
        Some(Reply::Value(Value::Int(items.len() as i64)))
    } else if same(name, "isEmpty") {
        Some(Reply::Value(Value::Bool(items.len() == 0)))
    } else if same(name, "isNotEmpty") {
        Some(Reply::Value(Value::Bool(items.len() != 0)))
    } else if same(name, "first") {
        match range {
            Some(r) => Some(Reply::Value(r.wrap(r.first))),
            None => Some(need(kind, items, false)),
        }
    } else if same(name, "last") {
        match range {
            Some(r) => Some(Reply::Value(r.wrap(r.last()))),
            None => Some(need(kind, items, true)),
        }
    } else if same(name, "get") || same(name, "elementAt") {
        if 0 <= i && (i as u128) < items.len() as u128 {
            Some(Reply::Value(items[i as usize]))
        } else {
            let class: Option<ListImpl> = match recv {
                Some(v) => h.list_tag(v),
                None => None,
            };
            Some(Reply::Fault(index_fault(kind, class, i, items.len())))
        }
    } else if same(name, "getOrNull") || same(name, "elementAtOrNull") {
        Some(Reply::Value(value_at(items, i)))
    } else if same(name, "firstOrNull") {
        Some(Reply::Value(value_at(items, 0)))
    } else if same(name, "lastOrNull") {
        if items.len() == 0 {
            Some(Reply::Value(Value::Undef))
        } else {
            Some(Reply::Value(items[items.len() - 1]))
        }
    } else if same(name, "slice") {
        let at: Vec<Value> = if args.len() > 0 {
            sequence_items(h, args[0])
        } else {
            Vec::new()
        };
        match slice(h, items, &at) {
            Ok(out) => Some(Reply::Tagged(out, ListImpl::ReadOnly)),
            Err(k) => {
                let head: String = concat2(
                    "java.lang.IndexOutOfBoundsException: Index: ",
                    int_text(k).as_str(),
                );
                Some(
                    Reply::Fault(
                        concat3(head.as_str(), ", Size: ", size_text(items.len()).as_str()),
                    ),
                )
            },
        }
    } else if same(name, "subList") {
        if args.len() > 1 {
            Some(sub_list_of(items, i, h.to_int(args[1])))
        } else {
            Some(tail_list(items, i))
        }
    } else if same(name, "sum") {
        Some(sum_values(items))
    } else if same(name, "average") {
        Some(Reply::Average(copy_values(items)))
    } else if same(name, "max") || same(name, "min") || same(name, "maxOrNull") || same(
        name,
        "minOrNull",
    ) {
        match find_extreme(h, items, has_prefix(name, "max")) {
            Extreme::Nan => Some(nan_reply()),
            Extreme::Of(v) => Some(Reply::Value(v)),
            Extreme::Nothing => if has_suffix(name, "OrNull") {
                Some(Reply::Value(Value::Undef))
            } else {
                Some(Reply::Fault("java.util.NoSuchElementException".to_owned()))
            },
        }
    } else if (same(name, "single") || same(name, "singleOrNull")) && args.len() == 0 {
        if items.len() == 1 {
            Some(Reply::Value(items[0]))
        } else if same(name, "singleOrNull") {
            Some(Reply::Value(Value::Undef))
        } else if items.len() == 0 {
            Some(Reply::Fault(kind.empty()))
        } else {
            Some(
                Reply::Fault(
                    concat3(
                        "java.lang.IllegalArgumentException: ",
                        kind.more_than_one(),
                        " has more than one element.",
                    ),
                ),
            )
        }
    } else {
        None
    }
}

// ── New sequences ───────────────────────────────────────────────────────────

/// The couples of elements at equal positions; the shorter sequence decides.
pub open spec fn side_by_side(a: Seq<Value>, b: Seq<Value>) -> Seq<(Value, Value)> {
    Seq::new(
        if a.len() < b.len() {
            a.len()
        } else {
            b.len()
        },
        |i: int| (a[i], b[i]),
    )
}

/// The element `i` of `withIndex`.
pub open spec fn indexed_value(i: int, v: Value) -> ObjView {
    ObjView::Instance {
        class: "IndexedValue"@,
        is_data: true,
        fields: seq![("index"@, as_int(i)), ("value"@, v)],
        data_from: 0,
        data_len: 2,
    }
}

/// The elements of `withIndex`.
pub open spec fn indexed_values(items: Seq<Value>) -> Seq<ObjView> {
    Seq::new(items.len(), |i: int| indexed_value(i, items[i]))
}

/// Each element with its successor.
pub open spec fn neighbours(items: Seq<Value>) -> Seq<(Value, Value)> {
    side_by_side(items, items.skip(1))
}

/// The fault of a negative element count.
pub open spec fn count_fault(n: int) -> Seq<char> {
    with_number(
        "java.lang.IllegalArgumentException: Requested element count "@,
        n,
        " is less than zero."@,
    )
}

/// The members that answer a new sequence or a text.
pub open spec fn sequence_of(
    h: HostView,
    items: Seq<Value>,
    kind: SeqKind,
    range: Option<RangeObj>,
    name: Seq<char>,
    args: Seq<Value>,
) -> Option<ReplyView> {
    let len = items.len() as int;
    let other = if args.len() > 0 {
        items_of(h, args[0])
    } else {
        Seq::empty()
    };
    let n = arg_int(h, args, 0, 0);
    let k = at_most(n, len);
    if name == "flatten"@ {
        Some(ReplyView::Object(ObjView::List(flattened(h, items))))
    } else if name == "zip"@ {
        Some(ReplyView::NewList(pair_objs(side_by_side(items, other))))
    } else if name == "zipWithNext"@ {
        Some(ReplyView::NewList(pair_objs(neighbours(items))))
    } else if name == "chunked"@ || name == "windowed"@ {
        Some(
            match grouped(h, items, name, args) {
                Ok(gs) => ReplyView::NewList(list_objs(gs)),
                Err(m) => ReplyView::Fault(m),
            },
        )
    } else if name == "toList"@ {
        Some(ReplyView::Tagged(items, ListImpl::ReadOnly))
    } else if name == "toMutableList"@ || name == "toTypedArray"@ || name == "asList"@ || name
        == "asIterable"@ {
        Some(ReplyView::Object(ObjView::List(items)))
    } else if name == "asSequence"@ {
        Some(ReplyView::Sequence(items))
    } else if name == "withIndex"@ {
        Some(ReplyView::NewList(indexed_values(items)))
    } else if name == "filterNotNull"@ {
        Some(ReplyView::Object(ObjView::List(non_null(items))))
    } else if name == "sorted"@ || name == "sortedDescending"@ {
        let s = picked(items, sorted_positions(len, by_key(h, items)));
        Some(
            ReplyView::Tagged(
                if name == "sorted"@ {
                    s
                } else {
                    s.reverse()
                },
                sorted_class(kind),
            ),
        )
    } else if name == "take"@ || name == "drop"@ || name == "takeLast"@ || name == "dropLast"@ {
        Some(
            if n < 0 {
                ReplyView::Fault(count_fault(n))
            } else {
                ReplyView::Tagged(
                    if name == "take"@ {
                        items.subrange(0, k)
                    } else if name == "drop"@ {
                        items.subrange(k, len)
                    } else if name == "takeLast"@ {
                        items.subrange(len - k, len)
                    } else {
                        items.subrange(0, len - k)
                    },
                    ListImpl::ReadOnly,
                )
            },
        )
    } else if name == "unzip"@ {
        Some(
            match crate::receiver::all_couples(h, items) {
                Some(cs) => ReplyView::Lists(
                    cs.map_values(|c: (Value, Value)| c.0),
                    cs.map_values(|c: (Value, Value)| c.1),
                ),
                None => ReplyView::Fault(unresolved(name, "List"@)),
            },
        )
    } else if name == "joinToString"@ {
        Some(ReplyView::Text(join_text(h, value_texts(h, items), len, args)))
    } else if name == "reversed"@ {
        Some(
            match range {
                Some(r) => ReplyView::Object(ObjView::Range(turned(r))),
                None => ReplyView::Tagged(items.reverse(), ListImpl::ReadOnly),
            },
        )
    } else {
        None
    }
}

/// The progression that counts a range down by one.
pub open spec fn turned(r: RangeObj) -> RangeObj {
    RangeObj {
        first: turned_bound(r, r.last_element()),
        end: turned_bound(r, r.first as int),
        step: -1i64 as i64,
        progression: true,
        is_char: r.is_char,
    }
}

/// A bound of a range as the number its value has.
pub open spec fn turned_bound(r: RangeObj, n: int) -> i64 {
    if r.is_char {
        (n % 0x10000) as i64
    } else {
        n as i64
    }
}

fn pair_up(a: &Vec<Value>, b: &Vec<Value>, from: usize) -> (r: Vec<HeapObj>)
    requires
        from <= b@.len(),
    ensures
        objs_view(r@) == pair_objs(side_by_side(a@, b@.skip(from as int))),
{
    let mut r: Vec<HeapObj> = Vec::new();
    let n: usize = b.len();
    let ghost want = pair_objs(side_by_side(a@, b@.skip(from as int)));
    let mut i: usize = 0;
    while i < a.len() && i < n - from
        invariant
            n == b@.len(),
            from <= n,
            i <= a@.len(),
            i <= n - from,
            want == pair_objs(side_by_side(a@, b@.skip(from as int))),
            r@.len() == i,
            forall|k: int| 0 <= k < i ==> (#[trigger] r@[k])@ == want[k],
        decreases a.len() - i,
    {
        r.push(HeapObj::Pair(a[i], b[from + i]));
        i = i + 1;
    }
    assert(objs_view(r@) =~= want);
    r
}

fn number_all(items: &Vec<Value>) -> (r: Vec<HeapObj>)
    ensures
        objs_view(r@) == indexed_values(items@),
{
    let mut r: Vec<HeapObj> = Vec::new();
    let ghost want = indexed_values(items@);
    let mut i: usize = 0;
    while i < items.len()
        invariant
            i <= items@.len(),
            want == indexed_values(items@),
            r@.len() == i,
            forall|k: int| 0 <= k < i ==> (#[trigger] r@[k])@ == want[k],
        decreases items.len() - i,
    {
        let mut fields: Vec<(String, Value)> = Vec::new();
        fields.push(("index".to_owned(), Value::Int(i as i64)));
        fields.push(("value".to_owned(), items[i]));
        assert(crate::value::fields_view(fields@) =~= seq![
            ("index"@, as_int(i as int)),
            ("value"@, items@[i as int]),
        ]);
        let o: HeapObj = HeapObj::Instance {
            class: "IndexedValue".to_owned(),
            is_data: true,
            fields,
            data_from: 0,
            data_len: 2,
        };
        assert(o@ =~= want[i as int]);
        r.push(o);
        i = i + 1;
    }
    assert(objs_view(r@) =~= want);
    r
}

fn reverse(items: &Vec<Value>) -> (r: Vec<Value>)
    ensures
        r@ == items@.reverse(),
{
    let mut r: Vec<Value> = Vec::new();
    let mut i: usize = items.len();
    while i > 0
        invariant
            i <= items@.len(),
            r@ == items@.reverse().take(items@.len() - i),
        decreases i,
    {
        i = i - 1;
        r.push(items[i]);
        assert(items@.reverse().take(items@.len() - i) =~= items@.reverse().take(
            items@.len() - i - 1,
        ).push(items@[i as int]));
    }
    assert(items@.reverse().take(items@.len() as int) =~= items@.reverse());
    r
}

fn cut(items: &Vec<Value>, name: &str, n: i64) -> (r: Reply)
    ensures
        r@ == ({
            let len = items@.len() as int;
            let k = at_most(n as int, len);
            if n < 0 {
                ReplyView::Fault(count_fault(n as int))
            } else {
                ReplyView::Tagged(
                    if name@ == "take"@ {
                        items@.subrange(0, k)
                    } else if name@ == "drop"@ {
                        items@.subrange(k, len)
                    } else if name@ == "takeLast"@ {
                        items@.subrange(len - k, len)
                    } else {
                        items@.subrange(0, len - k)
                    },
                    ListImpl::ReadOnly,
                )
            }
        }),
{
    if n < 0 {
        return Reply::Fault(
            number_message(
                "java.lang.IllegalArgumentException: Requested element count ",
                n,
                " is less than zero.",
            ),
        );
    }
    let len: usize = items.len();
    let k: usize = if (n as i128) < len as i128 {
        n as usize
    } else {
        len
    };
    let out: Vec<Value> = if same(name, "take") {
        values_between(items, 0, k)
    } else if same(name, "drop") {
        values_between(items, k, len)
    } else if same(name, "takeLast") {
        values_between(items, len - k, len)
    } else {
        values_between(items, 0, len - k)
    };
    Reply::Tagged(out, ListImpl::ReadOnly)
}

proof fn lemma_couples_stop(h: HostView, items: Seq<Value>, k: int)
    requires
        0 <= k < items.len(),
        couple_of(h, items[k]) is None,
    ensures
        crate::receiver::all_couples(h, items) is None,
    decreases items.len(),
{
    if k < items.len() - 1 {
        assert(items.drop_last()[k] == items[k]);
        lemma_couples_stop(h, items.drop_last(), k);
    }
}

fn unzip(h: &Host, items: &Vec<Value>) -> (r: Option<(Vec<Value>, Vec<Value>)>)
    ensures
        match (r, crate::receiver::all_couples(h@, items@)) {
            (Some((a, b)), Some(cs)) => a@ == cs.map_values(|c: (Value, Value)| c.0) && b@
                == cs.map_values(|c: (Value, Value)| c.1),
            (None, None) => true,
            _ => false,
        },
{
    let mut a: Vec<Value> = Vec::new();
    let mut b: Vec<Value> = Vec::new();
    let ghost mut cs: Seq<(Value, Value)> = Seq::empty();
    let mut i: usize = 0;
    assert(items@.take(0) =~= Seq::empty());
    while i < items.len()
        invariant
            i <= items@.len(),
            crate::receiver::all_couples(h@, items@.take(i as int)) == Some(cs),
            a@ == cs.map_values(|c: (Value, Value)| c.0),
            b@ == cs.map_values(|c: (Value, Value)| c.1),
        decreases items.len() - i,
    {
        assert(items@.take(i + 1).drop_last() =~= items@.take(i as int));
        assert(items@.take(i + 1).last() == items@[i as int]);
        match couple(h, items[i]) {
            Some((x, y)) => {
                a.push(x);
                b.push(y);
                proof {
                    cs = cs.push((x, y));
                }
                assert(a@ =~= cs.map_values(|c: (Value, Value)| c.0));
                assert(b@ =~= cs.map_values(|c: (Value, Value)| c.1));
            },
            None => {
                proof {
                    lemma_couples_stop(h@, items@, i as int);
                }
                return None;
            },
        }
        i = i + 1;
    }
    assert(items@.take(i as int) =~= items@);
    Some((a, b))
}

fn turn(r: RangeObj) -> (t: RangeObj)
    ensures
        t == turned(r),
{
    let last: i64 = r.last();
    if r.is_char {
        RangeObj {
            first: low16(last),
            end: low16(r.first),
            step: -1,
            progression: true,
            is_char: true,
        }
    } else {
        RangeObj { first: last, end: r.first, step: -1, progression: true, is_char: false }
    }
}

fn low16(n: i64) -> (r: i64)
    ensures
        r == n as int % 0x10000,
{
    let low: i64 = n % 0x10000;
    if low < 0 {
        low + 0x10000
    } else {
        low
    }
}

fn new_sequence(
    h: &Host,
    items: &Vec<Value>,
    kind: SeqKind,
    range: Option<RangeObj>,
    name: &str,
    args: &Vec<Value>,
) -> (r: Option<Reply>)
    ensures
        reply_view(r) == sequence_of(h@, items@, kind, range, name@, args@),
{
    if same(name, "flatten") {
        Some(Reply::Object(HeapObj::List(flatten(h, items))))
    } else if same(name, "zip") {
        let other: Vec<Value> = if args.len() > 0 {
            sequence_items(h, args[0])
        } else {
            Vec::new()
        };
        assert(other@.skip(0) =~= other@);
        Some(Reply::NewList(pair_up(items, &other, 0)))
    } else if same(name, "zipWithNext") {
        if items.len() == 0 {
            let none: Vec<HeapObj> = Vec::new();
            assert(objs_view(none@) =~= pair_objs(neighbours(items@)));
            Some(Reply::NewList(none))
        } else {
            Some(Reply::NewList(pair_up(items, items, 1)))
        }
    } else if same(name, "chunked") || same(name, "windowed") {
        match groups_of(h, items, name, args) {
            Ok(gs) => Some(Reply::NewList(objs_of_groups(gs))),
            Err(m) => Some(Reply::Fault(m)),
        }
    } else if same(name, "toList") {
        Some(Reply::Tagged(copy_values(items), ListImpl::ReadOnly))
    } else if same(name, "toMutableList") || same(name, "toTypedArray") || same(name, "asList")
        || same(name, "asIterable") {
        Some(Reply::Object(HeapObj::List(copy_values(items))))
    } else if same(name, "asSequence") {
        Some(Reply::Sequence(copy_values(items)))
    } else if same(name, "withIndex") {
        Some(Reply::NewList(number_all(items)))
    } else if same(name, "filterNotNull") {
        Some(Reply::Object(HeapObj::List(drop_nulls(items))))
    } else if same(name, "sorted") || same(name, "sortedDescending") {
        let at: Vec<usize> = natural_positions(h, items);
        let out: Vec<Value> = pick(items, &at);
        if same(name, "sorted") {
            Some(Reply::Tagged(out, class_of_sorted(kind)))
        } else {
            Some(Reply::Tagged(reverse(&out), class_of_sorted(kind)))
        }
    } else if same(name, "take") || same(name, "drop") || same(name, "takeLast") || same(
        name,
        "dropLast",
    ) {
        Some(cut(items, name, int_arg(h, args, 0, 0)))
    } else if same(name, "unzip") {
        match unzip(h, items) {
            Some((a, b)) => Some(Reply::Lists(a, b)),
            None => Some(Reply::Fault(crate::receiver::unresolved_text(name, "List"))),
        }
    } else if same(name, "joinToString") {
        let bodies: Vec<String> = texts_of_values(h, items);
        assert(bodies@.len() == items@.len()) by {
            assert(crate::search::texts_view(bodies@).len() == value_texts(h@, items@).len());
        }
        Some(Reply::Text(join_to_string(h, &bodies, items.len(), args)))
    } else if same(name, "reversed") {
        match range {
            Some(r) => Some(Reply::Object(HeapObj::Range(turn(r)))),
            None => Some(Reply::Tagged(reverse(items), ListImpl::ReadOnly)),
        }
    } else {
        None
    }
}

// ── Comparing elements ──────────────────────────────────────────────────────

/// Whether each of `wanted` from position `i` on is an element.
pub open spec fn contains_all_walk(
    h: HostView,
    log: Answers,
    at: nat,
    items: Seq<Value>,
    wanted: Seq<Value>,
    i: int,
    hashed: bool,
    fuel: nat,
) -> Outcome<bool>
    decreases wanted.len() - i,
{
    if i < 0 || i >= wanted.len() {
        Ok((true, at))
    } else {
        match position_walk(h, log, at, items, wanted[i], 0, hashed, fuel) {
            Err(s) => Err(s),
            Ok((p, n)) => if p < items.len() {
                contains_all_walk(h, log, n, items, wanted, i + 1, hashed, fuel)
            } else {
                Ok((false, n))
            },
        }
    }
}

/// The members that compare elements. A `Set` and the keys of a `Map` compare by
/// hash first.
pub open spec fn comparing_member(
    h: HostView,
    items: Seq<Value>,
    kind: SeqKind,
    name: Seq<char>,
    args: Seq<Value>,
    log: Answers,
) -> Result<Option<ReplyView>, Stop> {
    let hashed = kind.by_hash();
    let other = if args.len() > 0 {
        items_of(host_at(h, log, 0), args[0])
    } else {
        Seq::empty()
    };
    if name == "contains"@ || name == "indexOf"@ {
        if args.len() == 0 {
            Ok(
                Some(
                    ReplyView::Value(
                        if name == "contains"@ {
                            Value::Bool(false)
                        } else {
                            as_int(-1)
                        },
                    ),
                ),
            )
        } else {
            match position_walk(h, log, 0, items, args[0], 0, hashed, budget(h)) {
                Err(s) => Err(s),
                Ok((p, _)) => Ok(
                    Some(
                        ReplyView::Value(
                            if name == "contains"@ {
                                Value::Bool(p < items.len())
                            } else if p < items.len() {
                                as_int(p)
                            } else {
                                as_int(-1)
                            },
                        ),
                    ),
                ),
            }
        }
    } else if name == "containsAll"@ {
        match contains_all_walk(h, log, 0, items, other, 0, hashed, budget(h)) {
            Err(s) => Err(s),
            Ok((r, _)) => Ok(Some(ReplyView::Value(Value::Bool(r)))),
        }
    } else if name == "toSet"@ || name == "toMutableSet"@ || name == "toHashSet"@ || name
        == "distinct"@ {
        match distinct_walk(h, log, 0, items, 0, Seq::empty(), budget(h)) {
            Err(s) => Err(s),
            Ok((d, _)) => Ok(
                Some(
                    if name == "distinct"@ {
                        ReplyView::Tagged(d, ListImpl::ReadOnly)
                    } else {
                        ReplyView::Object(ObjView::SetObj(d))
                    },
                ),
            ),
        }
    } else if name == "union"@ {
        match distinct_walk(h, log, 0, items + other, 0, Seq::empty(), budget(h)) {
            Err(s) => Err(s),
            Ok((d, _)) => Ok(Some(ReplyView::Object(ObjView::SetObj(d)))),
        }
    } else if name == "intersect"@ || name == "subtract"@ {
        match distinct_walk(h, log, 0, items, 0, Seq::empty(), budget(h)) {
            Err(s) => Err(s),
            Ok((d, n)) => match retained_walk(
                h,
                log,
                n,
                d,
                other,
                args.len() > 0 && is_hashed(host_at(h, log, 0), args[0]),
                name == "intersect"@,
                Seq::empty(),
                budget(h),
            ) {
                Err(s) => Err(s),
                Ok((stays, _)) => Ok(Some(ReplyView::Object(ObjView::SetObj(remaining(d, stays))))),
            },
        }
    } else {
        Ok(None)
    }
}

fn contains_all(
    log: &mut Log,
    h: &Host,
    items: &Vec<Value>,
    wanted: &Vec<Value>,
    hashed: bool,
    fuel: usize,
) -> (r: Result<bool, Stop>)
    requires
        old(log).at <= old(log).answers@.len(),
    ensures
        final(log).answers == old(log).answers,
        final(log).at <= final(log).answers@.len(),
        reached(
            r,
            final(log).at,
            contains_all_walk(
                h@,
                old(log).answers@,
                old(log).at as nat,
                items@,
                wanted@,
                0,
                hashed,
                fuel as nat,
            ),
        ),
{
    let ghost goal = contains_all_walk(
        h@,
        log.answers@,
        log.at as nat,
        items@,
        wanted@,
        0,
        hashed,
        fuel as nat,
    );
    let mut i: usize = 0;
    while i < wanted.len()
        invariant
            i <= wanted@.len(),
            log.answers == old(log).answers,
            log.at <= log.answers@.len(),
            goal == contains_all_walk(
                h@,
                old(log).answers@,
                old(log).at as nat,
                items@,
                wanted@,
                0,
                hashed,
                fuel as nat,
            ),
            contains_all_walk(
                h@,
                log.answers@,
                log.at as nat,
                items@,
                wanted@,
                i as int,
                hashed,
                fuel as nat,
            ) == goal,
        decreases wanted.len() - i,
    {
        match position(log, h, items, wanted[i], hashed, fuel) {
            Err(s) => {
                return Err(s);
            },
            Ok(p) => {
                if p >= items.len() {
                    return Ok(false);
                }
            },
        }
        i = i + 1;
    }
    Ok(true)
}

/// An optional reply, or why there is none yet, as a mathematical value.
pub open spec fn maybe_replied(r: Result<Option<Reply>, Stop>) -> Result<Option<ReplyView>, Stop> {
    match r {
        Ok(x) => Ok(reply_view(x)),
        Err(s) => Err(s),
    }
}

fn comparing(
    h: &Host,
    items: &Vec<Value>,
    kind: SeqKind,
    name: &str,
    args: &Vec<Value>,
    answers: &Vec<Turn>,
) -> (r: Result<Option<Reply>, Stop>)
    ensures
        maybe_replied(r) == comparing_member(h@, items@, kind, name@, args@, answers@),
{
    let hashed: bool = kind.hashed();
    let fuel: usize = depth_budget(h);
    let mut log = Log::new(answers);
    if same(name, "contains") || same(name, "indexOf") {
        if args.len() == 0 {
            if same(name, "contains") {
                return Ok(Some(Reply::Value(Value::Bool(false))));
            } else {
                return Ok(Some(Reply::Value(Value::Int(-1))));
            }
        }
        match position(&mut log, h, items, args[0], hashed, fuel) {
            Err(s) => Err(s),
            Ok(p) => if same(name, "contains") {
                Ok(Some(Reply::Value(Value::Bool(p < items.len()))))
            } else if p < items.len() {
                Ok(Some(Reply::Value(Value::Int(p as i64))))
            } else {
                Ok(Some(Reply::Value(Value::Int(-1))))
            },
        }
    } else if same(name, "containsAll") {
        let other: Vec<Value> = if args.len() > 0 {
            sequence_items(host_before(h, answers), args[0])
        } else {
            Vec::new()
        };
        match contains_all(&mut log, h, items, &other, hashed, fuel) {
            Err(s) => Err(s),
            Ok(r) => Ok(Some(Reply::Value(Value::Bool(r)))),
        }
    } else if same(name, "toSet") || same(name, "toMutableSet") || same(name, "toHashSet") || same(
        name,
        "distinct",
    ) {
        match distinct(&mut log, h, items, fuel) {
            Err(s) => Err(s),
            Ok(d) => if same(name, "distinct") {
                Ok(Some(Reply::Tagged(d, ListImpl::ReadOnly)))
            } else {
                Ok(Some(Reply::Object(HeapObj::SetObj(d))))
            },
        }
    } else if same(name, "union") {
        let mut all: Vec<Value> = copy_values(items);
        let mut other: Vec<Value> = if args.len() > 0 {
            sequence_items(host_before(h, answers), args[0])
        } else {
            Vec::new()
        };
        all.append(&mut other);
        match distinct(&mut log, h, &all, fuel) {
            Err(s) => Err(s),
            Ok(d) => Ok(Some(Reply::Object(HeapObj::SetObj(d)))),
        }
    } else if same(name, "intersect") || same(name, "subtract") {
        let other: Vec<Value> = if args.len() > 0 {
            sequence_items(host_before(h, answers), args[0])
        } else {
            Vec::new()
        };
        match distinct(&mut log, h, items, fuel) {
            Err(s) => Err(s),
            Ok(d) => {
                let by_hash: bool = args.len() > 0 && searches_by_hash(
                    host_before(h, answers),
                    args[0],
                );
                match retained(&mut log, h, &d, &other, by_hash, same(name, "intersect"), fuel) {
                    Err(s) => Err(s),
                    Ok(stays) => Ok(Some(Reply::Object(HeapObj::SetObj(remain(&d, &stays))))),
                }
            },
        }
    } else {
        Ok(None)
    }
}

// ── All of them ─────────────────────────────────────────────────────────────

/// The members that every ordered sequence shares. `range` is the receiver when
/// it is a range, whose `first` and `last` are properties of the progression.
pub open spec fn shared_member(
    h: HostView,
    items: Seq<Value>,
    recv: Option<Value>,
    kind: SeqKind,
    range: Option<RangeObj>,
    name: Seq<char>,
    args: Seq<Value>,
    log: Answers,
) -> Result<Option<ReplyView>, Stop> {
    match element_member(h, items, recv, kind, range, name, args) {
        Some(r) => Ok(Some(r)),
        None => match sequence_of(h, items, kind, range, name, args) {
            Some(r) => Ok(Some(r)),
            None => comparing_member(h, items, kind, name, args, log),
        },
    }
}

/// The read-only members every ordered sequence shares; `None` when `name` is
/// none of them.
pub fn sequence_member(
    h: &Host,
    items: &Vec<Value>,
    recv: Option<Value>,
    kind: SeqKind,
    range: Option<RangeObj>,
    name: &str,
    args: &Vec<Value>,
    answers: &Vec<Turn>,
) -> (r: Result<Option<Reply>, Stop>)
    ensures
        maybe_replied(r) == shared_member(
            h@,
            items@,
            recv,
            kind,
            range,
            name@,
            args@,
            answers@,
        ),
{
    match element(h, items, recv, kind, range, name, args) {
        Some(r) => Ok(Some(r)),
        None => match new_sequence(h, items, kind, range, name, args) {
            Some(r) => Ok(Some(r)),
            None => comparing(h, items, kind, name, args, answers),
        },
    }
}

/// `intersect` gives exactly those of the receiver's distinct elements that the
/// argument holds, and `subtract` exactly the others, in their order: each is searched
/// for in the argument, as `in` does it, with the members that a program declares.
pub proof fn law_set_operators_go_by_membership(
    h: HostView,
    items: Seq<Value>,
    kind: SeqKind,
    name: Seq<char>,
    arg: Value,
    log: Answers,
)
    requires
        name == "intersect"@ || name == "subtract"@,
        comparing_member(h, items, kind, name, seq![arg], log) is Ok,
    ensures
        distinct_walk(h, log, 0, items, 0, Seq::empty(), budget(h)) matches Ok((d, _))
            && exists|stays: Seq<bool>|
            {
                &&& stays.len() == d.len()
                &&& comparing_member(h, items, kind, name, seq![arg], log)->Ok_0 == Some(
                    ReplyView::Object(ObjView::SetObj(#[trigger] remaining(d, stays))),
                )
                &&& forall|i: int|
                    0 <= i < d.len() ==> is_decided(
                        h,
                        log,
                        items_of(host_at(h, log, 0), arg),
                        d[i],
                        is_hashed(host_at(h, log, 0), arg),
                        #[trigger] stays[i] == (name == "intersect"@),
                        budget(h),
                    )
            },
{
    lemma_set_operator_names(name);
    let g = host_at(h, log, 0);
    if let Ok((d, n)) = distinct_walk(h, log, 0, items, 0, Seq::empty(), budget(h)) {
        let other = items_of(g, arg);
        let want = name == "intersect"@;
        law_retaining_decides_each(
            h,
            log,
            n,
            d,
            other,
            is_hashed(g, arg),
            want,
            Seq::empty(),
            budget(h),
        );
        let (stays, _) = retained_walk(
            h,
            log,
            n,
            d,
            other,
            is_hashed(g, arg),
            want,
            Seq::empty(),
            budget(h),
        )->Ok_0;
        let left = remaining(d, stays);
        assert(left == remaining(d, stays));
    }
}

proof fn lemma_set_operator_names(name: Seq<char>)
    requires
        name == "intersect"@ || name == "subtract"@,
    ensures
        name != "contains"@,
        name != "indexOf"@,
        name != "containsAll"@,
        name != "toSet"@,
        name != "toMutableSet"@,
        name != "toHashSet"@,
        name != "distinct"@,
        name != "union"@,
{
    reveal_strlit("intersect");
    reveal_strlit("subtract");
    reveal_strlit("contains");
    reveal_strlit("indexOf");
    reveal_strlit("containsAll");
    reveal_strlit("toSet");
    reveal_strlit("toMutableSet");
    reveal_strlit("toHashSet");
    reveal_strlit("distinct");
    reveal_strlit("union");
    assert("intersect"@[0] == 'i' && "intersect"@.len() == 9);
    assert("subtract"@[0] == 's');
    assert("toHashSet"@[0] == 't');
    assert("contains"@[0] == 'c');
    assert("distinct"@[0] == 'd');
}

/// `take(n)` and `drop(n)` partition the receiver, and so do `dropLast(n)` and
/// `takeLast(n)`; a count past the end takes or drops all.
pub proof fn law_ends_partition(
    h: HostView,
    items: Seq<Value>,
    kind: SeqKind,
    range: Option<RangeObj>,
    args: Seq<Value>,
)
    requires
        arg_int(h, args, 0, 0) >= 0,
    ensures
        ({
            let cut = |name: Seq<char>| sequence_of(h, items, kind, range, name, args)->0;
            &&& cut("take"@) is Tagged && cut("drop"@) is Tagged
            &&& cut("takeLast"@) is Tagged && cut("dropLast"@) is Tagged
            &&& cut("take"@)->Tagged_0 + cut("drop"@)->Tagged_0 == items
            &&& cut("dropLast"@)->Tagged_0 + cut("takeLast"@)->Tagged_0 == items
        }),
{
    reveal_strlit("flatten");
    reveal_strlit("zip");
    reveal_strlit("zipWithNext");
    reveal_strlit("chunked");
    reveal_strlit("windowed");
    reveal_strlit("toList");
    reveal_strlit("toMutableList");
    reveal_strlit("toTypedArray");
    reveal_strlit("asList");
    reveal_strlit("asIterable");
    reveal_strlit("asSequence");
    reveal_strlit("withIndex");
    reveal_strlit("filterNotNull");
    reveal_strlit("sorted");
    reveal_strlit("sortedDescending");
    reveal_strlit("take");
    reveal_strlit("drop");
    reveal_strlit("takeLast");
    reveal_strlit("dropLast");
    assert("flatten"@.len() == 7);
    assert("zip"@.len() == 3);
    assert("zipWithNext"@.len() == 11);
    assert("chunked"@.len() == 7);
    assert("windowed"@.len() == 8);
    assert("toList"@.len() == 6);
    assert("toMutableList"@.len() == 13);
    assert("toTypedArray"@.len() == 12);
    assert("asList"@.len() == 6);
    assert("asIterable"@.len() == 10);
    assert("asSequence"@.len() == 10);
    assert("withIndex"@.len() == 9);
    assert("filterNotNull"@.len() == 13);
    assert("sorted"@.len() == 6);
    assert("sortedDescending"@.len() == 16);
    assert("take"@.len() == 4);
    assert("drop"@.len() == 4);
    assert("takeLast"@.len() == 8);
    assert("dropLast"@.len() == 8);
    assert("take"@[0] == 't');
    assert("drop"@[0] == 'd');
    assert("takeLast"@[0] == 't');
    assert("windowed"@[0] == 'w');
    assert("dropLast"@[0] == 'd');
    let len = items.len() as int;
    let k = at_most(arg_int(h, args, 0, 0), len);
    assert(items.subrange(0, k) + items.subrange(k, len) =~= items);
    assert(items.subrange(0, len - k) + items.subrange(len - k, len) =~= items);
}

/// The members that answer an element raise on nothing found, and their `…OrNull`
/// forms answer null there and the same otherwise. A range is left out: the first
/// of an empty one is its bound.
pub proof fn law_or_null_elements(
    h: HostView,
    items: Seq<Value>,
    recv: Option<Value>,
    kind: SeqKind,
    args: Seq<Value>,
)
    ensures
        ({
            let plain = |name: Seq<char>| element_member(h, items, recv, kind, None, name, args)->0;
            &&& plain("firstOrNull"@) == plain("first"@).or_null()
            &&& plain("lastOrNull"@) == plain("last"@).or_null()
            &&& plain("getOrNull"@) == plain("get"@).or_null()
            &&& plain("elementAtOrNull"@) == plain("elementAt"@).or_null()
            &&& plain("maxOrNull"@) == plain("max"@).or_null()
            &&& plain("minOrNull"@) == plain("min"@).or_null()
            &&& args.len() == 0 ==> plain("singleOrNull"@) == plain("single"@).or_null()
        }),
{
    reveal_strlit("size");
    reveal_strlit("count");
    reveal_strlit("isEmpty");
    reveal_strlit("isNotEmpty");
    reveal_strlit("first");
    reveal_strlit("last");
    reveal_strlit("get");
    reveal_strlit("elementAt");
    reveal_strlit("getOrNull");
    reveal_strlit("elementAtOrNull");
    reveal_strlit("firstOrNull");
    reveal_strlit("lastOrNull");
    reveal_strlit("slice");
    reveal_strlit("subList");
    reveal_strlit("sum");
    reveal_strlit("average");
    reveal_strlit("max");
    reveal_strlit("min");
    reveal_strlit("maxOrNull");
    reveal_strlit("minOrNull");
    reveal_strlit("single");
    reveal_strlit("singleOrNull");
    assert("size"@.len() == 4);
    assert("count"@.len() == 5);
    assert("isEmpty"@.len() == 7);
    assert("isNotEmpty"@.len() == 10);
    assert("first"@.len() == 5);
    assert("last"@.len() == 4);
    assert("get"@.len() == 3);
    assert("elementAt"@.len() == 9);
    assert("getOrNull"@.len() == 9);
    assert("elementAtOrNull"@.len() == 15);
    assert("firstOrNull"@.len() == 11);
    assert("lastOrNull"@.len() == 10);
    assert("slice"@.len() == 5);
    assert("subList"@.len() == 7);
    assert("sum"@.len() == 3);
    assert("average"@.len() == 7);
    assert("max"@.len() == 3);
    assert("min"@.len() == 3);
    assert("maxOrNull"@.len() == 9);
    assert("minOrNull"@.len() == 9);
    assert("single"@.len() == 6);
    assert("singleOrNull"@.len() == 12);
    assert("size"@[0] == 's');
    assert("count"@[0] == 'c');
    assert("isEmpty"@[0] == 'i');
    assert("isNotEmpty"@[0] == 'i');
    assert("first"@[0] == 'f');
    assert("last"@[0] == 'l');
    assert("get"@[0] == 'g');
    assert("elementAt"@[0] == 'e');
    assert("getOrNull"@[0] == 'g');
    assert("lastOrNull"@[0] == 'l');
    assert("slice"@[0] == 's');
    assert("subList"@[0] == 's');
    assert("sum"@[0] == 's');
    assert("average"@[0] == 'a');
    assert("max"@[0] == 'm');
    assert("max"@[1] == 'a');
    assert("min"@[0] == 'm');
    assert("min"@[1] == 'i');
    assert("maxOrNull"@[0] == 'm');
    assert("maxOrNull"@[1] == 'a');
    assert("minOrNull"@[0] == 'm');
    assert("minOrNull"@[1] == 'i');
    reveal_strlit("OrNull");
    assert("OrNull"@.len() == 6);
    assert("max"@.subrange(0, 3) =~= "max"@);
    assert("maxOrNull"@.subrange(0, 3) =~= "max"@);
    assert("maxOrNull"@.subrange(3, 9) =~= "OrNull"@);
    assert("minOrNull"@.subrange(3, 9) =~= "OrNull"@);
    assert("min"@.subrange(0, 3)[1] == 'i' && "minOrNull"@.subrange(0, 3)[1] == 'i');
    assert(starts_with("max"@, "max"@) && starts_with("maxOrNull"@, "max"@));
    assert(!starts_with("min"@, "max"@) && !starts_with("minOrNull"@, "max"@));
    assert(ends_with("maxOrNull"@, "OrNull"@) && ends_with("minOrNull"@, "OrNull"@));
    assert(!ends_with("max"@, "OrNull"@) && !ends_with("min"@, "OrNull"@));
}

} // verus!
