//! What the members do that take a lambda.
use crate::hof::CallArgs;
use crate::value::Value;
use crate::walk::Stop;
use vstd::prelude::*;

verus! {

use crate::gather::{count_where, kept, last_where};
use crate::hof::{by_key_descending, hof_step, noted, PlanView, StepView};
use crate::host::HostView;
use crate::laws::names::lemma_names;
use crate::laws::orders::{
    law_order_turns_round, lemma_best_index, lemma_best_value, lemma_sorted_by_keys, rearranges,
};
use crate::order::{are_comparable, by_key, law_sorted_values_are_in_order, lemma_keys_order};
use crate::receiver::items_of;
use crate::reply::ReplyView;
use crate::search::{ends_with, starts_with};
use crate::sorting::{
    is_order,
    law_sort_orders,
    law_sort_permutes,
    picked,
    sorted_positions,
};
use crate::types::natural_order;
use crate::value::ObjView;
use crate::walk::Answers;

/// The member calls its lambda with `args` next.
pub open spec fn calls(h: HostView, p: PlanView, rs: Seq<Value>, log: Answers, args: CallArgs) -> bool {
    hof_step(h, p, rs, log) == Ok::<StepView, Stop>(StepView::Call(p.lambda, args))
}

/// The member is done, and answers `r`.
pub open spec fn replies(h: HostView, p: PlanView, rs: Seq<Value>, log: Answers, r: ReplyView) -> bool {
    hof_step(h, p, rs, log) == Ok::<StepView, Stop>(StepView::Done(r))
}

/// The member is done, and answers a new list of `out`.
pub open spec fn lists(h: HostView, p: PlanView, rs: Seq<Value>, log: Answers, out: Seq<Value>) -> bool {
    replies(h, p, rs, log, ReplyView::Object(ObjView::List(out)))
}

/// Whether `at` are the positions, from first to last, whose result is `true` (or, for
/// `want` false, is not).
pub open spec fn selects(at: Seq<int>, rs: Seq<Value>, want: bool) -> bool {
    &&& forall|k: int|
        0 <= k < at.len() ==> 0 <= #[trigger] at[k] < rs.len() && (rs[at[k]] == Value::Bool(true))
            == want
    &&& forall|j: int, k: int| 0 <= j < k < at.len() ==> #[trigger] at[j] < #[trigger] at[k]
    &&& forall|i: int|
        0 <= i < rs.len() && (#[trigger] rs[i] == Value::Bool(true)) == want ==> at.contains(i)
}

/// Whether `out` are the elements at the positions `at`.
pub open spec fn is_taken(items: Seq<Value>, at: Seq<int>, out: Seq<Value>) -> bool {
    &&& out.len() == at.len()
    &&& forall|k: int| 0 <= k < at.len() ==> #[trigger] out[k] == items[at[k]]
}

pub proof fn lemma_kept(items: Seq<Value>, rs: Seq<Value>, want: bool) -> (at: Seq<int>)
    requires
        items.len() == rs.len(),
    ensures
        selects(at, rs, want),
        is_taken(items, at, kept(items, rs, want)),
    decreases items.len(),
{
    if items.len() == 0 {
        Seq::empty()
    } else {
        let n = items.len() - 1;
        let less = lemma_kept(items.drop_last(), rs.take(n), want);
        let before = kept(items.drop_last(), rs.take(n), want);
        assert forall|i: int| 0 <= i < n && (#[trigger] rs[i] == Value::Bool(true))
            == want implies less.contains(i) by {
            assert(rs.take(n)[i] == rs[i]);
        }
        assert forall|k: int| 0 <= k < less.len() implies 0 <= #[trigger] less[k] < n && (
        rs[less[k]] == Value::Bool(true)) == want by {
            assert(rs.take(n)[less[k]] == rs[less[k]]);
        }
        if (rs[n] == Value::Bool(true)) == want {
            let at = less.push(n);
            let out = before.push(items[n]);
            assert forall|i: int| 0 <= i < rs.len() && (#[trigger] rs[i] == Value::Bool(true))
                == want implies at.contains(i) by {
                if i < n {
                    let k = choose|k: int| 0 <= k < less.len() && less[k] == i;
                    assert(less.contains(i));
                    assert(at[k] == i);
                } else {
                    assert(at[at.len() - 1] == n);
                }
            }
            assert forall|k: int| 0 <= k < at.len() implies #[trigger] out[k] == items[at[k]] by {
                if k < less.len() {
                    assert(before[k] == items.drop_last()[less[k]]);
                }
            }
            at
        } else {
            assert forall|k: int| 0 <= k < less.len() implies #[trigger] before[k]
                == items[less[k]] by {
                assert(before[k] == items.drop_last()[less[k]]);
            }
            less
        }
    }
}

proof fn lemma_counted(rs: Seq<Value>)
    ensures
        count_where(rs) == kept(rs, rs, true).len(),
    decreases rs.len(),
{
    if rs.len() > 0 {
        lemma_counted(rs.drop_last());
        assert(rs.take(rs.len() - 1) =~= rs.drop_last());
        assert(rs[rs.len() - 1] == rs.last());
    }
}

// ── One call per element ────────────────────────────────────────────────────

/// The members that hand each element to their lambda, alone.
pub open spec fn takes_each(name: Seq<char>) -> bool {
    ||| name == "map"@
    ||| name == "filter"@
    ||| name == "filterNot"@
    ||| name == "forEach"@
    ||| name == "onEach"@
    ||| name == "mapNotNull"@
    ||| name == "flatMap"@
    ||| name == "count"@
    ||| name == "sumOf"@
    ||| name == "maxBy"@
    ||| name == "maxByOrNull"@
    ||| name == "minBy"@
    ||| name == "minByOrNull"@
    ||| name == "sortedBy"@
    ||| name == "sortedByDescending"@
    ||| name == "partition"@
    ||| name == "associateBy"@
    ||| name == "associateWith"@
    ||| name == "groupBy"@
    ||| name == "single"@
    ||| name == "singleOrNull"@
    ||| name == "last"@
    ||| name == "findLast"@
    ||| name == "lastOrNull"@
    ||| name == "indexOfLast"@
    ||| name == "maxOf"@
    ||| name == "minOf"@
    ||| name == "maxOfOrNull"@
    ||| name == "minOfOrNull"@
}

/// A member over elements hands them to its lambda one after another, from the first
/// to the last, before it answers.
pub proof fn law_each_element_is_handed_over(h: HostView, p: PlanView, rs: Seq<Value>, log: Answers)
    requires
        takes_each(p.name),
        rs.len() < p.items.len(),
    ensures
        calls(h, p, rs, log, CallArgs::One(p.items[rs.len() as int])),
{
    lemma_names();
}

/// `map` answers the results, in the order of the elements.
pub proof fn law_map_lists_the_results(h: HostView, p: PlanView, rs: Seq<Value>, log: Answers)
    requires
        p.name == "map"@,
        !p.text,
        rs.len() == p.items.len(),
    ensures
        lists(h, p, rs, log, rs),
{
    lemma_names();
}

/// `filter` answers the elements whose result is `true`, and `filterNot` the others,
/// in their order.
pub proof fn law_filter_keeps_what_holds(
    h: HostView,
    p: PlanView,
    rs: Seq<Value>,
    log: Answers,
    want: bool,
)
    requires
        p.name == if want {
            "filter"@
        } else {
            "filterNot"@
        },
        !p.text,
        !(h.obj(p.recv) matches Some(ObjView::MapObj(_))),
        rs.len() == p.items.len(),
    ensures
        exists|at: Seq<int>, out: Seq<Value>|
            {
                &&& #[trigger] selects(at, rs, want)
                &&& #[trigger] is_taken(p.items, at, out)
                &&& match h.obj(p.recv) {
                    Some(ObjView::SetObj(_)) => replies(
                        h,
                        p,
                        rs,
                        log,
                        ReplyView::Object(ObjView::SetObj(out)),
                    ),
                    _ => lists(h, p, rs, log, out),
                }
            },
{
    lemma_names();
    let at = lemma_kept(p.items, rs, want);
    let out = kept(p.items, rs, want);
    assert(selects(at, rs, want) && is_taken(p.items, at, out));
}

/// `filterIndexed` answers the elements whose result is `true`, in their order.
pub proof fn law_filter_indexed_keeps_what_holds(
    h: HostView,
    p: PlanView,
    rs: Seq<Value>,
    log: Answers,
)
    requires
        p.name == "filterIndexed"@,
        !p.text,
        rs.len() == p.items.len(),
    ensures
        exists|at: Seq<int>, out: Seq<Value>|
            #[trigger] selects(at, rs, true) && #[trigger] is_taken(p.items, at, out) && lists(
                h,
                p,
                rs,
                log,
                out,
            ),
{
    lemma_names();
    let at = lemma_kept(p.items, rs, true);
    let out = kept(p.items, rs, true);
    assert(selects(at, rs, true) && is_taken(p.items, at, out));
}

/// `partition` answers two lists: the elements whose result is `true`, and the
/// others.
pub proof fn law_partition_tells_apart(h: HostView, p: PlanView, rs: Seq<Value>, log: Answers)
    requires
        p.name == "partition"@,
        !p.text,
        rs.len() == p.items.len(),
    ensures
        exists|at: Seq<int>, out: Seq<Value>, to: Seq<int>, rest: Seq<Value>|
            {
                &&& #[trigger] selects(at, rs, true) && #[trigger] is_taken(p.items, at, out)
                &&& #[trigger] selects(to, rs, false) && #[trigger] is_taken(p.items, to, rest)
                &&& replies(h, p, rs, log, ReplyView::Lists(out, rest))
            },
{
    lemma_names();
    let at = lemma_kept(p.items, rs, true);
    let to = lemma_kept(p.items, rs, false);
    let out = kept(p.items, rs, true);
    let rest = kept(p.items, rs, false);
    assert(selects(at, rs, true) && is_taken(p.items, at, out));
    assert(selects(to, rs, false) && is_taken(p.items, to, rest));
    assert(replies(h, p, rs, log, ReplyView::Lists(out, rest)));
}

/// `count` answers how many results are `true`.
pub proof fn law_count_counts_what_holds(h: HostView, p: PlanView, rs: Seq<Value>, log: Answers)
    requires
        p.name == "count"@,
        rs.len() == p.items.len(),
    ensures
        exists|at: Seq<int>|
            #[trigger] selects(at, rs, true) && replies(
                h,
                p,
                rs,
                log,
                ReplyView::Value(Value::Int(at.len() as i64)),
            ),
{
    lemma_names();
    let at = lemma_kept(rs, rs, true);
    lemma_counted(rs);
    assert(selects(at, rs, true));
}

/// `forEach` and `forEachIndexed` answer nothing, and `onEach` the elements.
pub proof fn law_for_each_answers_nothing(h: HostView, p: PlanView, rs: Seq<Value>, log: Answers)
    requires
        !p.text,
        rs.len() == p.items.len(),
    ensures
        p.name == "forEach"@ || p.name == "forEachIndexed"@ ==> replies(
            h,
            p,
            rs,
            log,
            ReplyView::Value(Value::Undef),
        ),
        p.name == "onEach"@ ==> lists(h, p, rs, log, p.items),
{
    lemma_names();
}

/// `mapNotNull` answers the results without the nulls: one result more is added
/// unless it is null.
pub proof fn law_map_not_null_leaves_out_nulls(
    h: HostView,
    p: PlanView,
    rs: Seq<Value>,
    log: Answers,
    x: Value,
    r: Value,
    out: Seq<Value>,
)
    requires
        p.name == "mapNotNull"@,
        !p.text,
        rs.len() == p.items.len(),
        lists(h, p, rs, log, out),
    ensures
        rs.len() == 0 ==> out.len() == 0,
        lists(
            h,
            PlanView { items: p.items.push(x), ..p },
            rs.push(r),
            log,
            if r == Value::Undef {
                out
            } else {
                out.push(r)
            },
        ),
{
    lemma_names();
    let f = |v: Value| v != Value::Undef;
    reveal(Seq::filter);
    assert(rs.push(r).drop_last() =~= rs);
    assert(rs.push(r).filter(f) =~= if f(r) {
        rs.filter(f).push(r)
    } else {
        rs.filter(f)
    });
}

/// `flatMap` answers what its results hold, one after another.
pub proof fn law_flat_map_joins_the_results(
    h: HostView,
    p: PlanView,
    k: int,
    v: Value,
    log: Answers,
    rs: Seq<Value>,
)
    requires
        p.name == "flatMap"@ || p.name == "flatMapIndexed"@,
        !p.text,
        rs.len() == p.items.len(),
    ensures
        noted(h, p, k, v, log) matches Ok(q) && q.notes.items == p.notes.items + items_of(h, v)
            && q.items == p.items && q.name == p.name,
        lists(h, p, rs, log, p.notes.items),
{
    lemma_names();
}

/// `sumOf` over integers answers their sum, in 64 bits: one more is added to it.
pub proof fn law_sum_of_adds_up(
    h: HostView,
    p: PlanView,
    rs: Seq<Value>,
    log: Answers,
    x: Value,
    sum: i64,
    n: i64,
)
    requires
        p.name == "sumOf"@,
        rs.len() == p.items.len(),
        forall|i: int| 0 <= i < rs.len() ==> #[trigger] rs[i] is Int,
        replies(h, p, rs, log, ReplyView::Value(Value::Int(sum))),
    ensures
        rs.len() == 0 ==> sum == 0,
        i64::MIN <= sum + n <= i64::MAX ==> replies(
            h,
            PlanView { items: p.items.push(x), ..p },
            rs.push(Value::Int(n)),
            log,
            ReplyView::Value(Value::Int((sum + n) as i64)),
        ),
{
    lemma_names();
    let more = rs.push(Value::Int(n));
    assert forall|i: int| 0 <= i < more.len() implies #[trigger] more[i] is Int by {
        if i < rs.len() {
            assert(more[i] == rs[i]);
        }
    }
    assert(more.drop_last() =~= rs);
}

/// `maxBy` answers the first element whose key no other key exceeds, and `minBy` the
/// first whose key exceeds no other.
pub proof fn law_best_by_key(h: HostView, p: PlanView, rs: Seq<Value>, log: Answers)
    requires
        p.name == "maxBy"@ || p.name == "maxByOrNull"@ || p.name == "minBy"@ || p.name
            == "minByOrNull"@,
        p.items.len() > 0,
        rs.len() == p.items.len(),
        are_comparable(h, rs),
    ensures
        exists|b: int|
            {
                &&& 0 <= b < rs.len()
                &&& replies(h, p, rs, log, ReplyView::Value(#[trigger] p.items[b]))
                &&& forall|i: int|
                    0 <= i < rs.len() ==> {
                        let order = natural_order(h, #[trigger] rs[i], rs[b]);
                        &&& p.name == "maxBy"@ || p.name == "maxByOrNull"@ ==> order <= 0
                        &&& p.name == "minBy"@ || p.name == "minByOrNull"@ ==> order >= 0
                        &&& order == 0 ==> b <= i
                    }
            },
{
    lemma_names();
    lemma_max_names(p.name);
    let max = starts_with(p.name, "max"@);
    let b = crate::gather::best_index(h, rs, max);
    lemma_best_index(h, rs, max, 0);
    assert forall|i: int| 0 <= i < rs.len() implies {
        let order = natural_order(h, #[trigger] rs[i], rs[b]);
        &&& p.name == "maxBy"@ || p.name == "maxByOrNull"@ ==> order <= 0
        &&& p.name == "minBy"@ || p.name == "minByOrNull"@ ==> order >= 0
        &&& order == 0 ==> b <= i
    } by {
        lemma_best_index(h, rs, max, i);
    }
    assert(replies(h, p, rs, log, ReplyView::Value(p.items[b])));
}

proof fn lemma_max_names(name: Seq<char>)
    ensures
        name == "maxBy"@ || name == "maxByOrNull"@ ==> starts_with(name, "max"@),
        name == "minBy"@ || name == "minByOrNull"@ ==> !starts_with(name, "max"@),
        name == "maxOf"@ || name == "maxOfOrNull"@ ==> starts_with(name, "maxOf"@),
        name == "minOf"@ || name == "minOfOrNull"@ ==> !starts_with(name, "maxOf"@),
{
    reveal_strlit("max");
    reveal_strlit("maxOf");
    reveal_strlit("maxBy");
    reveal_strlit("maxByOrNull");
    reveal_strlit("minBy");
    reveal_strlit("minByOrNull");
    reveal_strlit("maxOfOrNull");
    reveal_strlit("minOf");
    reveal_strlit("minOfOrNull");
    assert("maxBy"@.subrange(0, 3) =~= "max"@);
    assert("maxByOrNull"@.subrange(0, 3) =~= "max"@);
    assert("maxOf"@.subrange(0, 5) =~= "maxOf"@);
    assert("maxOfOrNull"@.subrange(0, 5) =~= "maxOf"@);
    assert("minBy"@.subrange(0, 3)[1] == 'i');
    assert("minByOrNull"@.subrange(0, 3)[1] == 'i');
    assert("minOf"@.subrange(0, 5)[1] == 'i');
    assert("minOfOrNull"@.subrange(0, 5)[1] == 'i');
    assert("max"@[1] == 'a' && "maxOf"@[1] == 'a');
}

/// `maxOf` answers a result that no other exceeds, and `minOf` one that exceeds no
/// other.
pub proof fn law_best_result(h: HostView, p: PlanView, rs: Seq<Value>, log: Answers, i: int)
    requires
        p.name == "maxOf"@ || p.name == "maxOfOrNull"@ || p.name == "minOf"@ || p.name
            == "minOfOrNull"@,
        rs.len() == p.items.len(),
        0 <= i < rs.len(),
        are_comparable(h, rs),
    ensures
        hof_step(h, p, rs, log) matches Ok(StepView::Done(ReplyView::Value(v))) && rs.contains(v)
            && (p.name == "maxOf"@ || p.name == "maxOfOrNull"@ ==> natural_order(h, rs[i], v) <= 0)
            && (p.name == "minOf"@ || p.name == "minOfOrNull"@ ==> natural_order(h, rs[i], v) >= 0),
{
    lemma_names();
    lemma_max_names(p.name);
    lemma_best_value(h, rs, starts_with(p.name, "maxOf"@), i);
}

/// The best of nothing is null for the `…OrNull` members, and raises for the others.
pub proof fn law_best_of_nothing(h: HostView, p: PlanView, log: Answers)
    requires
        p.items.len() == 0,
    ensures
        p.name == "maxBy"@ ==> replies(
            h,
            p,
            Seq::empty(),
            log,
            ReplyView::Fault("java.util.NoSuchElementException"@),
        ),
        p.name == "minBy"@ ==> replies(
            h,
            p,
            Seq::empty(),
            log,
            ReplyView::Fault("java.util.NoSuchElementException"@),
        ),
        p.name == "maxOf"@ ==> replies(
            h,
            p,
            Seq::empty(),
            log,
            ReplyView::Fault("java.util.NoSuchElementException"@),
        ),
        p.name == "minOf"@ ==> replies(
            h,
            p,
            Seq::empty(),
            log,
            ReplyView::Fault("java.util.NoSuchElementException"@),
        ),
        p.name == "maxByOrNull"@ ==> replies(
            h,
            p,
            Seq::empty(),
            log,
            ReplyView::Value(Value::Undef),
        ),
        p.name == "minByOrNull"@ ==> replies(
            h,
            p,
            Seq::empty(),
            log,
            ReplyView::Value(Value::Undef),
        ),
        p.name == "maxOfOrNull"@ ==> replies(
            h,
            p,
            Seq::empty(),
            log,
            ReplyView::Value(Value::Undef),
        ),
        p.name == "minOfOrNull"@ ==> replies(
            h,
            p,
            Seq::empty(),
            log,
            ReplyView::Value(Value::Undef),
        ),
{
    lemma_names();
    reveal_strlit("OrNull");
    reveal_strlit("maxBy");
    reveal_strlit("minBy");
    reveal_strlit("maxOf");
    reveal_strlit("minOf");
    reveal_strlit("maxByOrNull");
    reveal_strlit("minByOrNull");
    reveal_strlit("maxOfOrNull");
    reveal_strlit("minOfOrNull");
    assert("maxByOrNull"@.subrange(5, 11) =~= "OrNull"@);
    assert(ends_with("maxByOrNull"@, "OrNull"@));
    assert("minByOrNull"@.subrange(5, 11) =~= "OrNull"@);
    assert(ends_with("minByOrNull"@, "OrNull"@));
    assert("maxOfOrNull"@.subrange(5, 11) =~= "OrNull"@);
    assert(ends_with("maxOfOrNull"@, "OrNull"@));
    assert("minOfOrNull"@.subrange(5, 11) =~= "OrNull"@);
    assert(ends_with("minOfOrNull"@, "OrNull"@));
    assert(!ends_with("maxBy"@, "OrNull"@));
    assert(!ends_with("minBy"@, "OrNull"@));
    assert(!ends_with("maxOf"@, "OrNull"@));
    assert(!ends_with("minOf"@, "OrNull"@));
}

/// `sortedBy` answers the elements in the ascending order of their keys, and those of
/// equal keys in the order they had.
pub proof fn law_sorted_by_goes_up(h: HostView, p: PlanView, rs: Seq<Value>, log: Answers)
    requires
        p.name == "sortedBy"@,
        !p.text,
        rs.len() == p.items.len(),
        are_comparable(h, rs),
    ensures
        exists|at: Seq<int>, out: Seq<Value>|
            {
                &&& #[trigger] rearranges(at, p.items, out)
                &&& hof_step(h, p, rs, log) matches Ok(StepView::Done(ReplyView::Tagged(v, _))) && v
                    == out
                &&& forall|i: int, j: int|
                    0 <= i < j < at.len() ==> {
                        let order = natural_order(h, rs[#[trigger] at[i]], rs[#[trigger] at[j]]);
                        order < 0 || (order == 0 && at[i] < at[j])
                    }
            },
{
    lemma_names();
    let at = sorted_positions(rs.len() as int, by_key(h, rs));
    lemma_sorted_by_keys(h, p.items, rs);
    law_sorted_values_are_in_order(h, rs);
    assert(rearranges(at, p.items, picked(p.items, at)));
}

/// `sortedByDescending` answers the elements in the descending order of their keys,
/// and those of equal keys in the order they had.
pub proof fn law_sorted_by_descending_goes_down(
    h: HostView,
    p: PlanView,
    rs: Seq<Value>,
    log: Answers,
)
    requires
        p.name == "sortedByDescending"@,
        !p.text,
        rs.len() == p.items.len(),
        are_comparable(h, rs),
    ensures
        exists|at: Seq<int>, out: Seq<Value>|
            {
                &&& #[trigger] rearranges(at, p.items, out)
                &&& hof_step(h, p, rs, log) matches Ok(StepView::Done(ReplyView::Tagged(v, _))) && v
                    == out
                &&& forall|i: int, j: int|
                    0 <= i < j < at.len() ==> {
                        let order = natural_order(h, rs[#[trigger] at[i]], rs[#[trigger] at[j]]);
                        order > 0 || (order == 0 && at[i] < at[j])
                    }
            },
{
    lemma_names();
    let n = rs.len() as int;
    let le = by_key_descending(h, rs);
    let up = by_key(h, rs);
    lemma_keys_order(h, rs);
    assert forall|a: int, b: int| 0 <= a < n && 0 <= b < n implies #[trigger] le(a, b) || le(b, a) by {
        assert(up(a, b) || up(b, a));
    }
    assert forall|a: int, b: int, c: int|
        0 <= a < n && 0 <= b < n && 0 <= c < n && #[trigger] le(a, b) && #[trigger] le(
            b,
            c,
        ) implies le(a, c) by {
        assert(up(c, b) && up(b, a));
    }
    assert(is_order(n, le));
    law_sort_orders(n, le);
    law_sort_permutes(n, le);
    let at = sorted_positions(n, le);
    let out = picked(p.items, at);
    assert forall|i: int, j: int| 0 <= i < j < at.len() implies {
        let order = natural_order(h, rs[#[trigger] at[i]], rs[#[trigger] at[j]]);
        order > 0 || (order == 0 && at[i] < at[j])
    } by {
        assert(le(at[i], at[j]));
        law_order_turns_round(h, rs[at[i]], rs[at[j]]);
        if natural_order(h, rs[at[i]], rs[at[j]]) == 0 {
            assert(le(at[j], at[i]));
        }
    }
    assert(rearranges(at, p.items, out));
}

/// `groupBy` answers each key with its values, in the order in which the keys came;
/// `associateBy` and `associateWith` answer each key with its last value, and so do
/// `associate`, `mapKeys` and `mapValues`.
pub proof fn law_maps_hold_what_was_noted(
    h: HostView,
    p: PlanView,
    rs: Seq<Value>,
    log: Answers,
)
    requires
        !p.text,
        rs.len() == p.items.len(),
        p.notes.keys.len() == p.notes.groups.len(),
        forall|i: int| 0 <= i < p.notes.groups.len() ==> (#[trigger] p.notes.groups[i]).len() > 0,
    ensures
        p.name == "groupBy"@ ==> (hof_step(h, p, rs, log) matches Ok(
            StepView::Done(ReplyView::Groups(gs)),
        ) && gs.len() == p.notes.keys.len() && forall|i: int|
            0 <= i < gs.len() ==> #[trigger] gs[i] == (p.notes.keys[i], p.notes.groups[i])),
        p.name == "associateBy"@ || p.name == "associateWith"@ || p.name == "mapKeys"@ || p.name
            == "mapValues"@ ==> (hof_step(h, p, rs, log) matches Ok(
            StepView::Done(ReplyView::Object(ObjView::MapObj(es))),
        ) && es.len() == p.notes.keys.len() && forall|i: int|
            0 <= i < es.len() ==> #[trigger] es[i] == (p.notes.keys[i], p.notes.groups[i].last())),
        p.name == "Grouping.eachCount"@ ==> (hof_step(h, p, rs, log) matches Ok(
            StepView::Done(ReplyView::Object(ObjView::MapObj(es))),
        ) && es.len() == p.notes.keys.len() && forall|i: int|
            0 <= i < es.len() ==> #[trigger] es[i] == (
                p.notes.keys[i],
                Value::Int(p.notes.groups[i].len() as i64),
            )),
{
    lemma_names();
}

/// What a call gives for a key: `groupBy`, `associateBy` and `eachCount` take the
/// result for the key and the element for the value, `associateWith` the element for the
/// key and the result for the value.
pub proof fn law_keys_and_values(h: HostView, p: PlanView, k: int, v: Value)
    requires
        0 <= k < p.items.len(),
    ensures
        p.name == "groupBy"@ || p.name == "associateBy"@ || p.name == "Grouping.eachCount"@
            ==> crate::hof::keyed_by_call(h, p, k, v) == (v, p.items[k]),
        p.name == "associateWith"@ ==> crate::hof::keyed_by_call(h, p, k, v) == (p.items[k], v),
        forall|a: Value, b: Value|
            p.name == "associate"@ && #[trigger] h.obj(v) == Some(ObjView::Pair(a, b))
                ==> crate::hof::keyed_by_call(h, p, k, v) == (a, b),
        forall|a: Value, b: Value|
            p.name == "mapKeys"@ && #[trigger] h.obj(p.items[k]) == Some(ObjView::Entry(a, b))
                ==> crate::hof::keyed_by_call(h, p, k, v) == (v, b),
        forall|a: Value, b: Value|
            p.name == "mapValues"@ && #[trigger] h.obj(p.items[k]) == Some(ObjView::Entry(a, b))
                ==> crate::hof::keyed_by_call(h, p, k, v) == (a, v),
{
    lemma_names();
}

/// `last { … }` answers the last element whose result is `true`, and `indexOfLast` its
/// position; where there is none, `lastOrNull` and `findLast` answer null and
/// `indexOfLast` answers -1.
pub proof fn law_last_match(h: HostView, p: PlanView, rs: Seq<Value>, log: Answers, k: int)
    requires
        rs.len() == p.items.len(),
        -1 <= k < rs.len(),
        k >= 0 ==> rs[k] == Value::Bool(true),
        forall|i: int| k < i < rs.len() ==> #[trigger] rs[i] != Value::Bool(true),
    ensures
        k >= 0 && (p.name == "last"@ || p.name == "lastOrNull"@ || p.name == "findLast"@)
            ==> replies(h, p, rs, log, ReplyView::Value(p.items[k])),
        k < 0 && (p.name == "lastOrNull"@ || p.name == "findLast"@) ==> replies(
            h,
            p,
            rs,
            log,
            ReplyView::Value(Value::Undef),
        ),
        k < 0 && p.name == "last"@ ==> hof_step(h, p, rs, log) matches Ok(
            StepView::Done(ReplyView::Fault(_)),
        ),
        p.name == "indexOfLast"@ ==> replies(
            h,
            p,
            rs,
            log,
            ReplyView::Value(Value::Int(k as i64)),
        ),
{
    lemma_names();
    lemma_last_where(rs, k);
}

proof fn lemma_last_where(rs: Seq<Value>, k: int)
    requires
        -1 <= k < rs.len(),
        k >= 0 ==> rs[k] == Value::Bool(true),
        forall|i: int| k < i < rs.len() ==> #[trigger] rs[i] != Value::Bool(true),
    ensures
        last_where(rs) == k,
    decreases rs.len(),
{
    if rs.len() > 0 && k < rs.len() - 1 {
        assert(rs.last() == rs[rs.len() - 1]);
        assert forall|i: int| k < i < rs.drop_last().len() implies #[trigger] rs.drop_last()[i]
            != Value::Bool(true) by {
            assert(rs.drop_last()[i] == rs[i]);
        }
        lemma_last_where(rs.drop_last(), k);
    }
}

/// `single { … }` answers the one element whose result is `true`; where there is none
/// or more than one, `singleOrNull` answers null and `single` raises.
pub proof fn law_single_match(h: HostView, p: PlanView, rs: Seq<Value>, log: Answers)
    requires
        p.name == "single"@ || p.name == "singleOrNull"@,
        rs.len() == p.items.len(),
    ensures
        exists|at: Seq<int>|
            {
                &&& #[trigger] selects(at, rs, true)
                &&& at.len() == 1 ==> replies(h, p, rs, log, ReplyView::Value(p.items[at[0]]))
                &&& at.len() != 1 && p.name == "singleOrNull"@ ==> replies(
                    h,
                    p,
                    rs,
                    log,
                    ReplyView::Value(Value::Undef),
                )
                &&& at.len() != 1 && p.name == "single"@ ==> hof_step(h, p, rs, log) matches Ok(
                    StepView::Done(ReplyView::Fault(_)),
                )
            },
{
    lemma_names();
    let at = lemma_kept(p.items, rs, true);
    assert(selects(at, rs, true));
}

// ── Calls with a position ───────────────────────────────────────────────────

/// The `…Indexed` members hand each position and its element to their lambda, from the
/// first to the last; `mapIndexed` answers the results.
pub proof fn law_indexed_members(h: HostView, p: PlanView, rs: Seq<Value>, log: Answers)
    requires
        p.name == "mapIndexed"@ || p.name == "flatMapIndexed"@ || p.name == "filterIndexed"@
            || p.name == "forEachIndexed"@,
        !p.text,
        rs.len() <= p.items.len(),
    ensures
        rs.len() < p.items.len() ==> calls(
            h,
            p,
            rs,
            log,
            CallArgs::Two(Value::Int(rs.len() as i64), p.items[rs.len() as int]),
        ),
        rs.len() == p.items.len() && p.name == "mapIndexed"@ ==> lists(h, p, rs, log, rs),
{
    lemma_names();
}

// ── Folds ───────────────────────────────────────────────────────────────────

/// A fold from the first element on starts with the value it is given, hands its lambda
/// the accumulator and the next element, and answers the last accumulator.
pub proof fn law_fold(h: HostView, p: PlanView, rs: Seq<Value>, log: Answers, initial: Value)
    requires
        p.name == "fold"@,
        p.extras == seq![initial],
        rs.len() <= p.items.len(),
    ensures
        ({
            let k = rs.len() as int;
            let acc = if k == 0 {
                initial
            } else {
                rs[k - 1]
            };
            if k < p.items.len() {
                calls(h, p, rs, log, CallArgs::Two(acc, p.items[k]))
            } else {
                replies(h, p, rs, log, ReplyView::Value(acc))
            }
        }),
{
    lemma_names();
}

/// A fold from the last element on hands its lambda the element and the accumulator.
pub proof fn law_fold_right(h: HostView, p: PlanView, rs: Seq<Value>, log: Answers, initial: Value)
    requires
        p.name == "foldRight"@,
        p.extras == seq![initial],
        rs.len() <= p.items.len(),
    ensures
        ({
            let k = rs.len() as int;
            let n = p.items.len() as int;
            let acc = if k == 0 {
                initial
            } else {
                rs[k - 1]
            };
            if k < n {
                calls(h, p, rs, log, CallArgs::Two(p.items[n - 1 - k], acc))
            } else {
                replies(h, p, rs, log, ReplyView::Value(acc))
            }
        }),
{
    lemma_names();
}

/// `reduce` starts with the first element, and raises where there is none.
pub proof fn law_reduce(h: HostView, p: PlanView, rs: Seq<Value>, log: Answers)
    requires
        p.name == "reduce"@,
        p.items.len() > 0 ==> rs.len() < p.items.len(),
    ensures
        ({
            let k = rs.len() as int;
            let acc = if k == 0 {
                p.items[0]
            } else {
                rs[k - 1]
            };
            if p.items.len() == 0 {
                hof_step(h, p, rs, log) matches Ok(StepView::Done(ReplyView::Fault(_)))
            } else if k + 1 < p.items.len() {
                calls(h, p, rs, log, CallArgs::Two(acc, p.items[k + 1]))
            } else {
                replies(h, p, rs, log, ReplyView::Value(acc))
            }
        }),
{
    lemma_names();
}

/// `reduceRight` starts with the last element and goes towards the first.
pub proof fn law_reduce_right(h: HostView, p: PlanView, rs: Seq<Value>, log: Answers)
    requires
        p.name == "reduceRight"@,
        p.items.len() > 0 ==> rs.len() < p.items.len(),
    ensures
        ({
            let k = rs.len() as int;
            let n = p.items.len() as int;
            let acc = if k == 0 {
                p.items[n - 1]
            } else {
                rs[k - 1]
            };
            if n == 0 {
                hof_step(h, p, rs, log) matches Ok(StepView::Done(ReplyView::Fault(_)))
            } else if k + 1 < n {
                calls(h, p, rs, log, CallArgs::Two(p.items[n - 2 - k], acc))
            } else {
                replies(h, p, rs, log, ReplyView::Value(acc))
            }
        }),
{
    lemma_names();
}

/// `runningFold`, also called `scan`, calls as `fold` does and answers every
/// accumulator, the value it is given first: the list is one longer than the receiver.
pub proof fn law_running_fold(h: HostView, p: PlanView, rs: Seq<Value>, log: Answers, initial: Value)
    requires
        p.name == "runningFold"@ || p.name == "scan"@,
        p.extras == seq![initial],
        !p.text,
        rs.len() <= p.items.len(),
    ensures
        rs.len() < p.items.len() ==> calls(
            h,
            p,
            rs,
            log,
            CallArgs::Two(
                if rs.len() == 0 {
                    initial
                } else {
                    rs[rs.len() - 1]
                },
                p.items[rs.len() as int],
            ),
        ),
        rs.len() == p.items.len() ==> (hof_step(h, p, rs, log) matches Ok(
            StepView::Done(ReplyView::Object(ObjView::List(out))),
        ) && out.len() == p.items.len() + 1 && out[0] == initial && forall|i: int|
            0 <= i < rs.len() ==> out[i + 1] == #[trigger] rs[i]),
{
    lemma_names();
}

/// `runningReduce`, also called `scanReduce`, calls as `reduce` does and answers every
/// accumulator, the first element first: the list is as long as the receiver.
pub proof fn law_running_reduce(h: HostView, p: PlanView, rs: Seq<Value>, log: Answers)
    requires
        p.name == "runningReduce"@ || p.name == "scanReduce"@,
        !p.text,
        p.items.len() > 0 ==> rs.len() < p.items.len(),
    ensures
        rs.len() + 1 < p.items.len() ==> calls(
            h,
            p,
            rs,
            log,
            CallArgs::Two(
                if rs.len() == 0 {
                    p.items[0]
                } else {
                    rs[rs.len() - 1]
                },
                p.items[rs.len() as int + 1],
            ),
        ),
        rs.len() + 1 == p.items.len() ==> (hof_step(h, p, rs, log) matches Ok(
            StepView::Done(ReplyView::Object(ObjView::List(out))),
        ) && out.len() == p.items.len() && out[0] == p.items[0] && forall|i: int|
            0 <= i < rs.len() ==> out[i + 1] == #[trigger] rs[i]),
        p.items.len() == 0 ==> lists(h, p, rs, log, Seq::empty()),
{
    lemma_names();
}

// ── Searches ────────────────────────────────────────────────────────────────

/// A search hands its lambda one element after another as long as no result has settled
/// it: `true` settles `any`, `none`, `first`, `find` and `indexOfFirst`, and anything else
/// settles `all`, `takeWhile` and `dropWhile`.
pub proof fn law_searches_go_on(h: HostView, p: PlanView, rs: Seq<Value>, log: Answers)
    requires
        rs.len() < p.items.len(),
        ({
            ||| p.name == "any"@ || p.name == "none"@ || p.name == "first"@ || p.name == "find"@
                || p.name == "firstOrNull"@ || p.name == "indexOfFirst"@
            ||| p.name == "all"@ || p.name == "takeWhile"@ || p.name == "dropWhile"@
        }),
        rs.len() > 0 ==> (rs.last() == Value::Bool(true)) == (p.name == "all"@ || p.name
            == "takeWhile"@ || p.name == "dropWhile"@),
    ensures
        calls(h, p, rs, log, CallArgs::One(p.items[rs.len() as int])),
{
    lemma_names();
}

/// What a search answers once a result is `true`, the last that has come.
pub proof fn law_searches_find_the_first(h: HostView, p: PlanView, rs: Seq<Value>, log: Answers)
    requires
        0 < rs.len() <= p.items.len(),
        rs.last() == Value::Bool(true),
    ensures
        p.name == "any"@ ==> replies(h, p, rs, log, ReplyView::Value(Value::Bool(true))),
        p.name == "none"@ ==> replies(h, p, rs, log, ReplyView::Value(Value::Bool(false))),
        p.name == "first"@ || p.name == "find"@ || p.name == "firstOrNull"@ ==> replies(
            h,
            p,
            rs,
            log,
            ReplyView::Value(p.items[rs.len() - 1]),
        ),
        p.name == "indexOfFirst"@ ==> replies(
            h,
            p,
            rs,
            log,
            ReplyView::Value(Value::Int((rs.len() - 1) as i64)),
        ),
{
    lemma_names();
}

/// What `all`, `takeWhile` and `dropWhile` answer once a result is not `true`, the last
/// that has come: `takeWhile` the elements before it, and `dropWhile` those from it on.
pub proof fn law_searches_stop_at_the_first(h: HostView, p: PlanView, rs: Seq<Value>, log: Answers)
    requires
        0 < rs.len() <= p.items.len(),
        rs.last() != Value::Bool(true),
        !p.text,
    ensures
        p.name == "all"@ ==> replies(h, p, rs, log, ReplyView::Value(Value::Bool(false))),
        p.name == "takeWhile"@ ==> lists(h, p, rs, log, p.items.take(rs.len() - 1)),
        p.name == "dropWhile"@ ==> lists(h, p, rs, log, p.items.skip(rs.len() - 1)),
{
    lemma_names();
    if p.name == "takeWhile"@ || p.name == "dropWhile"@ || p.name == "all"@ {
        assert(p.items.subrange(0, rs.len() - 1) =~= p.items.take(rs.len() - 1));
        assert(p.items.subrange(rs.len() - 1, p.items.len() as int) =~= p.items.skip(rs.len() - 1));
    }
}

/// What a search answers that no result has settled.
pub proof fn law_searches_find_nothing(h: HostView, p: PlanView, rs: Seq<Value>, log: Answers)
    requires
        rs.len() == p.items.len(),
        !p.text,
        rs.len() > 0 ==> (rs.last() == Value::Bool(true)) == (p.name == "all"@ || p.name
            == "takeWhile"@ || p.name == "dropWhile"@),
    ensures
        p.name == "any"@ ==> replies(h, p, rs, log, ReplyView::Value(Value::Bool(false))),
        p.name == "none"@ || p.name == "all"@ ==> replies(
            h,
            p,
            rs,
            log,
            ReplyView::Value(Value::Bool(true)),
        ),
        p.name == "find"@ || p.name == "firstOrNull"@ ==> replies(
            h,
            p,
            rs,
            log,
            ReplyView::Value(Value::Undef),
        ),
        p.name == "first"@ ==> hof_step(h, p, rs, log) matches Ok(StepView::Done(ReplyView::Fault(_))),
        p.name == "indexOfFirst"@ ==> replies(h, p, rs, log, ReplyView::Value(Value::Int((-1) as i64))),
        p.name == "takeWhile"@ ==> lists(h, p, rs, log, p.items),
        p.name == "dropWhile"@ ==> lists(h, p, rs, log, Seq::empty()),
{
    lemma_names();
    let n = p.items.len() as int;
    assert(p.items.subrange(0, n) =~= p.items);
    assert(p.items.subrange(n, n) =~= Seq::empty());
}

// ── Pairs of elements ───────────────────────────────────────────────────────

/// `zip` hands over the elements of both at equal positions as long as both have one, and
/// `zipWithNext` each element with its successor; both answer the results.
pub proof fn law_pairs_are_handed_over(h: HostView, p: PlanView, rs: Seq<Value>, log: Answers)
    requires
        !p.text,
    ensures
        p.name == "zip"@ && rs.len() < p.items.len() && rs.len() < p.other.len() ==> calls(
            h,
            p,
            rs,
            log,
            CallArgs::Two(p.items[rs.len() as int], p.other[rs.len() as int]),
        ),
        p.name == "zip"@ && (rs.len() >= p.items.len() || rs.len() >= p.other.len()) ==> lists(
            h,
            p,
            rs,
            log,
            rs,
        ),
        p.name == "zipWithNext"@ && rs.len() + 1 < p.items.len() ==> calls(
            h,
            p,
            rs,
            log,
            CallArgs::Two(p.items[rs.len() as int], p.items[rs.len() as int + 1]),
        ),
        p.name == "zipWithNext"@ && rs.len() + 1 >= p.items.len() ==> lists(h, p, rs, log, rs),
{
    lemma_names();
}

// ── Maps ────────────────────────────────────────────────────────────────────

/// `filterKeys` hands over the keys and `filterValues` the values; one entry more is
/// kept exactly when its result is `true`.
pub proof fn law_filtered_maps(
    h: HostView,
    p: PlanView,
    rs: Seq<Value>,
    log: Answers,
    x: Value,
    a: Value,
    b: Value,
    r: Value,
    out: Seq<(Value, Value)>,
)
    requires
        p.name == "filterKeys"@ || p.name == "filterValues"@,
        !p.text,
        rs.len() == p.items.len(),
        replies(h, p, rs, log, ReplyView::Object(ObjView::MapObj(out))),
        h.obj(x) == Some(ObjView::Entry(a, b)),
    ensures
        rs.len() == 0 ==> out.len() == 0,
        ({
            let q = PlanView { items: p.items.push(x), ..p };
            &&& calls(
                h,
                q,
                rs,
                log,
                CallArgs::One(
                    if p.name == "filterKeys"@ {
                        a
                    } else {
                        b
                    },
                ),
            )
            &&& replies(
                h,
                q,
                rs.push(r),
                log,
                ReplyView::Object(
                    ObjView::MapObj(
                        if r == Value::Bool(true) {
                            out.push((a, b))
                        } else {
                            out
                        },
                    ),
                ),
            )
        }),
{
    lemma_names();
    let items = p.items.push(x);
    assert(items.drop_last() =~= p.items);
    assert(rs.push(r).take(items.len() - 1) =~= rs);
    if r == Value::Bool(true) {
        let ks = kept(p.items, rs, true).push(x);
        assert(ks.drop_last() =~= kept(p.items, rs, true));
    }
}

/// A filtered map is filtered entry by entry: one entry more is kept exactly when its
/// result is `true` (for `filterNot`: is not).
pub proof fn law_filter_of_a_map(
    h: HostView,
    p: PlanView,
    rs: Seq<Value>,
    log: Answers,
    x: Value,
    a: Value,
    b: Value,
    r: Value,
    out: Seq<(Value, Value)>,
)
    requires
        p.name == "filter"@ || p.name == "filterNot"@,
        !p.text,
        h.obj(p.recv) matches Some(ObjView::MapObj(_)),
        rs.len() == p.items.len(),
        replies(h, p, rs, log, ReplyView::Object(ObjView::MapObj(out))),
        h.obj(x) == Some(ObjView::Entry(a, b)),
    ensures
        rs.len() == 0 ==> out.len() == 0,
        replies(
            h,
            PlanView { items: p.items.push(x), ..p },
            rs.push(r),
            log,
            ReplyView::Object(
                ObjView::MapObj(
                    if (r == Value::Bool(true)) == (p.name == "filter"@) {
                        out.push((a, b))
                    } else {
                        out
                    },
                ),
            ),
        ),
{
    lemma_names();
    let want = p.name == "filter"@;
    let items = p.items.push(x);
    assert(items.drop_last() =~= p.items);
    assert(rs.push(r).take(items.len() - 1) =~= rs);
    if (r == Value::Bool(true)) == want {
        let ks = kept(p.items, rs, want).push(x);
        assert(ks.drop_last() =~= kept(p.items, rs, want));
    }
}

/// `getOrElse` on a list answers the element at the index, and calls its lambda with the
/// index where there is none.
pub proof fn law_get_or_else(h: HostView, p: PlanView, log: Answers, i: i64)
    requires
        p.name == "getOrElse"@,
        p.extras == seq![Value::Int(i)],
        !(h.obj(p.recv) matches Some(ObjView::MapObj(_))),
    ensures
        0 <= i < p.items.len() ==> replies(
            h,
            p,
            Seq::empty(),
            log,
            ReplyView::Value(p.items[i as int]),
        ),
        !(0 <= i < p.items.len()) ==> calls(
            h,
            p,
            Seq::empty(),
            log,
            CallArgs::One(Value::Int(i)),
        ),
        forall|v: Value| replies(h, p, #[trigger] seq![v], log, ReplyView::Value(v)),
{
    assert forall|v: Value| replies(h, p, #[trigger] seq![v], log, ReplyView::Value(v)) by {
        assert(seq![v][0] == v);
    }
}

} // verus!
