//! Folds over elements and the results a lambda gave for them.
use crate::host::Host;
use crate::receiver::{couple, sequence_items};
use crate::reply::Reply;
use crate::types::value_order;
use crate::value::{is_int, truthy, Value};
use vstd::prelude::*;

verus! {

use crate::host::HostView;
use crate::receiver::{couple_of, items_of};
use crate::reply::ReplyView;
use crate::types::natural_order;
use crate::value::holds;

// ── Selecting ───────────────────────────────────────────────────────────────

/// The elements whose result holds (or does not, for `want == false`), in order.
pub open spec fn kept(items: Seq<Value>, rs: Seq<Value>, want: bool) -> Seq<Value>
    decreases items.len(),
{
    if items.len() == 0 || rs.len() < items.len() {
        Seq::empty()
    } else {
        let n = items.len() - 1;
        let before = kept(items.drop_last(), rs.take(n), want);
        if holds(rs[n]) == want {
            before.push(items[n])
        } else {
            before
        }
    }
}

/// The elements whose result holds, or does not.
pub(crate) fn keep(items: &Vec<Value>, rs: &Vec<Value>, want: bool) -> (r: Vec<Value>)
    requires
        rs@.len() >= items@.len(),
    ensures
        r@ == kept(items@, rs@.take(items@.len() as int), want),
        r@.len() <= items@.len(),
{
    let mut r: Vec<Value> = Vec::new();
    let mut i: usize = 0;
    assert(items@.take(0) =~= Seq::empty());
    while i < items.len()
        invariant
            i <= items@.len(),
            rs@.len() >= items@.len(),
            r@.len() <= i,
            r@ == kept(items@.take(i as int), rs@.take(i as int), want),
        decreases items.len() - i,
    {
        assert(items@.take(i + 1).drop_last() =~= items@.take(i as int));
        assert(rs@.take(i + 1).take(i as int) =~= rs@.take(i as int));
        if truthy(&rs[i]) == want {
            r.push(items[i]);
        }
        i = i + 1;
    }
    assert(items@.take(i as int) =~= items@);
    r
}

/// The first position whose result holds (or does not), or the length.
pub open spec fn first_where(rs: Seq<Value>, want: bool) -> int
    decreases rs.len(),
{
    if rs.len() == 0 {
        0
    } else if first_where(rs.drop_last(), want) < rs.len() - 1 {
        first_where(rs.drop_last(), want)
    } else if holds(rs.last()) == want {
        rs.len() - 1
    } else {
        rs.len() as int
    }
}

pub proof fn lemma_first_where(rs: Seq<Value>, want: bool)
    ensures
        0 <= first_where(rs, want) <= rs.len(),
        forall|i: int| 0 <= i < first_where(rs, want) ==> holds(#[trigger] rs[i]) != want,
        first_where(rs, want) < rs.len() ==> holds(rs[first_where(rs, want)]) == want,
    decreases rs.len(),
{
    if rs.len() > 0 {
        lemma_first_where(rs.drop_last(), want);
        assert forall|i: int| 0 <= i < first_where(rs, want) implies holds(#[trigger] rs[i])
            != want by {
            if i < rs.len() - 1 {
                assert(rs.drop_last()[i] == rs[i]);
            }
        }
    }
}

/// The first position whose result holds, or does not.
pub(crate) fn first_at(rs: &Vec<Value>, from: usize, want: bool) -> (k: usize)
    requires
        from <= rs@.len(),
    ensures
        k == first_where(rs@.skip(from as int), want),
        from + k <= rs@.len(),
{
    let n: usize = rs.len();
    let mut k: usize = 0;
    let ghost all = rs@.skip(from as int);
    while from + k < rs.len()
        invariant
            n == rs@.len(),
            from + k <= n,
            all == rs@.skip(from as int),
            forall|i: int| 0 <= i < k ==> holds(#[trigger] all[i]) != want,
        decreases n - k,
    {
        if truthy(&rs[from + k]) == want {
            proof {
                lemma_first_where(all, want);
                assert(all[k as int] == rs@[from + k]);
            }
            return k;
        }
        assert(all[k as int] == rs@[from + k]);
        k = k + 1;
    }
    proof {
        lemma_first_where(all, want);
    }
    k
}

/// The last position whose result holds, or -1.
pub open spec fn last_where(rs: Seq<Value>) -> int
    decreases rs.len(),
{
    if rs.len() == 0 {
        -1
    } else if holds(rs.last()) {
        rs.len() - 1
    } else {
        last_where(rs.drop_last())
    }
}

/// The last position whose result holds.
pub(crate) fn last_at(rs: &Vec<Value>) -> (r: Option<usize>)
    ensures
        match r {
            Some(k) => k == last_where(rs@) && k < rs@.len(),
            None => last_where(rs@) == -1,
        },
{
    let mut i: usize = rs.len();
    assert(rs@.take(rs@.len() as int) =~= rs@);
    while i > 0
        invariant
            i <= rs@.len(),
            last_where(rs@.take(i as int)) == last_where(rs@),
        decreases i,
    {
        assert(rs@.take(i as int).last() == rs@[i - 1]);
        assert(rs@.take(i as int).drop_last() =~= rs@.take(i - 1));
        if truthy(&rs[i - 1]) {
            return Some(i - 1);
        }
        i = i - 1;
    }
    None
}

/// How many results hold.
pub open spec fn count_where(rs: Seq<Value>) -> int
    decreases rs.len(),
{
    if rs.len() == 0 {
        0
    } else {
        count_where(rs.drop_last()) + if holds(rs.last()) {
            1int
        } else {
            0int
        }
    }
}

/// How many results hold.
pub(crate) fn count_true(rs: &Vec<Value>) -> (n: usize)
    ensures
        n == count_where(rs@),
{
    let mut n: usize = 0;
    let mut i: usize = 0;
    assert(rs@.take(0) =~= Seq::empty());
    while i < rs.len()
        invariant
            i <= rs@.len(),
            n <= i,
            n == count_where(rs@.take(i as int)),
        decreases rs.len() - i,
    {
        assert(rs@.take(i + 1).drop_last() =~= rs@.take(i as int));
        if truthy(&rs[i]) {
            n = n + 1;
        }
        i = i + 1;
    }
    assert(rs@.take(i as int) =~= rs@);
    n
}

/// The values that are not null.
pub open spec fn non_null(vs: Seq<Value>) -> Seq<Value> {
    vs.filter(|v: Value| v != Value::Undef)
}

/// The values that are not null.
pub(crate) fn drop_nulls(vs: &Vec<Value>) -> (r: Vec<Value>)
    ensures
        r@ == non_null(vs@),
{
    let mut r: Vec<Value> = Vec::new();
    let mut i: usize = 0;
    let ghost f = |v: Value| v != Value::Undef;
    assert(vs@.take(0).filter(f) =~= Seq::empty()) by {
        reveal(Seq::filter);
    }
    while i < vs.len()
        invariant
            i <= vs@.len(),
            f == (|v: Value| v != Value::Undef),
            r@ == vs@.take(i as int).filter(f),
        decreases vs.len() - i,
    {
        proof {
            reveal(Seq::filter);
            assert(vs@.take(i + 1).drop_last() =~= vs@.take(i as int));
            assert(vs@.take(i + 1).last() == vs@[i as int]);
        }
        match vs[i] {
            Value::Undef => {},
            v => {
                r.push(v);
            },
        }
        i = i + 1;
    }
    assert(vs@.take(i as int) =~= vs@);
    r
}

/// The elements of the values, one behind another.
pub open spec fn flattened(h: HostView, vs: Seq<Value>) -> Seq<Value>
    decreases vs.len(),
{
    if vs.len() == 0 {
        Seq::empty()
    } else {
        flattened(h, vs.drop_last()) + items_of(h, vs.last())
    }
}

/// The elements of the values, one behind another.
pub(crate) fn flatten(h: &Host, vs: &Vec<Value>) -> (r: Vec<Value>)
    ensures
        r@ == flattened(h@, vs@),
{
    let mut r: Vec<Value> = Vec::new();
    let mut i: usize = 0;
    assert(vs@.take(0) =~= Seq::empty());
    while i < vs.len()
        invariant
            i <= vs@.len(),
            r@ == flattened(h@, vs@.take(i as int)),
        decreases vs.len() - i,
    {
        let mut more: Vec<Value> = sequence_items(h, vs[i]);
        assert(vs@.take(i + 1).drop_last() =~= vs@.take(i as int));
        r.append(&mut more);
        i = i + 1;
    }
    assert(vs@.take(i as int) =~= vs@);
    r
}

// ── Extremes and sums ───────────────────────────────────────────────────────

/// The position of the greatest (or the least) key; the first of equal ones.
pub open spec fn best_index(h: HostView, keys: Seq<Value>, max: bool) -> int
    decreases keys.len(),
{
    if keys.len() <= 1 {
        0
    } else {
        let b = best_index(h, keys.drop_last(), max);
        let ord = natural_order(h, keys.last(), keys[b]);
        if (max && ord > 0) || (!max && ord < 0) {
            keys.len() - 1
        } else {
            b
        }
    }
}

/// The position of the greatest (or the least) key.
pub(crate) fn best_at(h: &Host, keys: &Vec<Value>, max: bool) -> (b: usize)
    requires
        keys@.len() > 0,
    ensures
        b == best_index(h@, keys@, max),
        b < keys@.len(),
{
    let mut b: usize = 0;
    let mut i: usize = 1;
    while i < keys.len()
        invariant
            1 <= i <= keys@.len(),
            b < i,
            b == best_index(h@, keys@.take(i as int), max),
        decreases keys.len() - i,
    {
        assert(keys@.take(i + 1).drop_last() =~= keys@.take(i as int));
        let ord: i8 = value_order(h, keys[i], keys[b]);
        if (max && ord > 0) || (!max && ord < 0) {
            b = i;
        }
        i = i + 1;
    }
    assert(keys@.take(i as int) =~= keys@);
    b
}

/// The greatest or the least of some values: a later one is taken when it is
/// greater (for the greatest) or not greater (for the least).
pub open spec fn best_value(h: HostView, vs: Seq<Value>, max: bool) -> Option<Value>
    decreases vs.len(),
{
    if vs.len() == 0 {
        None
    } else {
        match best_value(h, vs.drop_last(), max) {
            None => Some(vs.last()),
            Some(b) => if (natural_order(h, vs.last(), b) > 0) == max {
                Some(vs.last())
            } else {
                Some(b)
            },
        }
    }
}

/// The greatest or the least of some values.
pub(crate) fn best_of(h: &Host, vs: &Vec<Value>, max: bool) -> (r: Option<Value>)
    ensures
        r == best_value(h@, vs@, max),
{
    let mut r: Option<Value> = None;
    let mut i: usize = 0;
    assert(vs@.take(0) =~= Seq::empty());
    while i < vs.len()
        invariant
            i <= vs@.len(),
            r == best_value(h@, vs@.take(i as int), max),
        decreases vs.len() - i,
    {
        assert(vs@.take(i + 1).drop_last() =~= vs@.take(i as int));
        assert(vs@.take(i + 1).last() == vs@[i as int]);
        match r {
            None => {
                r = Some(vs[i]);
            },
            Some(b) => {
                if (value_order(h, vs[i], b) > 0) == max {
                    r = Some(vs[i]);
                }
            },
        }
        i = i + 1;
    }
    assert(vs@.take(i as int) =~= vs@);
    r
}

/// Whether all values are integers.
pub open spec fn all_ints(vs: Seq<Value>) -> bool {
    forall|i: int| 0 <= i < vs.len() ==> (#[trigger] vs[i]) is Int
}

/// The sum of integers, wrapping at 64 bits.
pub open spec fn int_sum(vs: Seq<Value>) -> i64
    decreases vs.len(),
{
    if vs.len() == 0 {
        0
    } else {
        match vs.last() {
            Value::Int(n) => int_sum(vs.drop_last()).wrapping_add(n),
            _ => int_sum(vs.drop_last()),
        }
    }
}

/// The sum of numbers: an integer when all are, else a floating-point sum.
pub open spec fn sum_reply(vs: Seq<Value>) -> ReplyView {
    if all_ints(vs) {
        ReplyView::Value(Value::Int(int_sum(vs)))
    } else {
        ReplyView::Sum(vs)
    }
}

/// Whether all values are integers.
pub(crate) fn are_ints(vs: &Vec<Value>) -> (r: bool)
    ensures
        r == all_ints(vs@),
{
    let mut i: usize = 0;
    while i < vs.len()
        invariant
            i <= vs@.len(),
            forall|k: int| 0 <= k < i ==> (#[trigger] vs@[k]) is Int,
        decreases vs.len() - i,
    {
        if !is_int(&vs[i]) {
            return false;
        }
        i = i + 1;
    }
    true
}

/// Sum a list of numbers: an integer when all are, else a floating-point sum.
pub fn sum_values(vs: &Vec<Value>) -> (r: Reply)
    ensures
        r@ == sum_reply(vs@),
{
    if !are_ints(vs) {
        return Reply::Sum(crate::value::copy_values(vs));
    }
    let mut acc: i64 = 0;
    let mut i: usize = 0;
    assert(vs@.take(0) =~= Seq::empty());
    while i < vs.len()
        invariant
            i <= vs@.len(),
            acc == int_sum(vs@.take(i as int)),
        decreases vs.len() - i,
    {
        assert(vs@.take(i + 1).drop_last() =~= vs@.take(i as int));
        if let Value::Int(n) = vs[i] {
            acc = acc.wrapping_add(n);
        }
        i = i + 1;
    }
    assert(vs@.take(i as int) =~= vs@);
    Reply::Value(Value::Int(acc))
}

// ── Entries ─────────────────────────────────────────────────────────────────

/// The couples among some values.
pub open spec fn couples_in(h: HostView, vs: Seq<Value>) -> Seq<(Value, Value)>
    decreases vs.len(),
{
    if vs.len() == 0 {
        Seq::empty()
    } else {
        match couple_of(h, vs.last()) {
            Some(c) => couples_in(h, vs.drop_last()).push(c),
            None => couples_in(h, vs.drop_last()),
        }
    }
}

/// The couples among some values.
pub(crate) fn pick_couples(h: &Host, vs: &Vec<Value>) -> (r: Vec<(Value, Value)>)
    ensures
        r@ == couples_in(h@, vs@),
{
    let mut r: Vec<(Value, Value)> = Vec::new();
    let mut i: usize = 0;
    assert(vs@.take(0) =~= Seq::empty());
    while i < vs.len()
        invariant
            i <= vs@.len(),
            r@ == couples_in(h@, vs@.take(i as int)),
        decreases vs.len() - i,
    {
        assert(vs@.take(i + 1).drop_last() =~= vs@.take(i as int));
        assert(vs@.take(i + 1).last() == vs@[i as int]);
        match couple(h, vs[i]) {
            Some(c) => {
                r.push(c);
            },
            None => {},
        }
        i = i + 1;
    }
    assert(vs@.take(i as int) =~= vs@);
    r
}

/// What a predicate keeps and what it drops are together all the elements: a
/// `partition` loses nothing and invents nothing.
pub proof fn law_partition_is_complete(items: Seq<Value>, rs: Seq<Value>)
    requires
        rs.len() == items.len(),
    ensures
        kept(items, rs, true).to_multiset().add(kept(items, rs, false).to_multiset())
            == items.to_multiset(),
        kept(items, rs, true).len() + kept(items, rs, false).len() == items.len(),
    decreases items.len(),
{
    broadcast use vstd::seq_lib::group_to_multiset_ensures;

    if items.len() > 0 {
        let n = items.len() - 1;
        let a = kept(items.drop_last(), rs.take(n), true);
        let b = kept(items.drop_last(), rs.take(n), false);
        law_partition_is_complete(items.drop_last(), rs.take(n));
        assert(items =~= items.drop_last().push(items[n]));
        if holds(rs[n]) {
            assert(a.push(items[n]).to_multiset().add(b.to_multiset()) =~= a.to_multiset().add(
                b.to_multiset(),
            ).insert(items[n]));
        } else {
            assert(a.to_multiset().add(b.push(items[n]).to_multiset()) =~= a.to_multiset().add(
                b.to_multiset(),
            ).insert(items[n]));
        }
    } else {
        assert(kept(items, rs, true) =~= Seq::empty());
        assert(kept(items, rs, false) =~= Seq::empty());
        assert(kept(items, rs, true).to_multiset().add(kept(items, rs, false).to_multiset())
            =~= items.to_multiset());
    }
}

} // verus!
