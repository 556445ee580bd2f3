//! Membership, the collection builders, and the operators on collections.
//!
//! Comparing elements may run a user's `equals` or `hashCode`; as in
//! [`crate::walk`], each operation is a function of the answers those have given
//! so far.
use crate::compare::depth_budget;
use crate::display::kotlin_string;
use crate::host::{CollOrder, Host};
use crate::order::{keys_of, CollSpec};
use crate::receiver::{as_couples, as_iterable, copy_entries, unresolved_on};
use crate::reply::Reply;
use crate::search::contains;
use crate::text::{concat2, concat3, same};
use crate::types::obj_label;
use crate::value::{copy_values, is_char, HeapObj, Value};
use crate::walk::{host_before, Log, Stop, Turn};
use vstd::prelude::*;

verus! {

use crate::compare::budget;
use crate::display::text_of;
use crate::host::HostView;
use crate::order::entry_keys;
use crate::receiver::{couples, iterable_items, unresolved};
use crate::reply::ReplyView;
use crate::search::find_from;
use crate::types::label_of;
use crate::value::{code_of, ObjView};
use crate::walk::{eq_walk, hash_eq_walk, host_at, reached, Answers, Outcome};

// ── Membership ──────────────────────────────────────────────────────────────

/// One element comparison: by hash and then `==` in a `Set` or among the keys of
/// a `Map`, by `==` alone in a `List`.
pub open spec fn member_walk(
    h: HostView,
    log: Answers,
    at: nat,
    a: Value,
    b: Value,
    hashed: bool,
    fuel: nat,
) -> Outcome<bool> {
    if hashed {
        hash_eq_walk(h, log, at, a, b, fuel)
    } else {
        eq_walk(h, log, at, a, b, fuel)
    }
}

/// The first position from `i` on whose element equals `v`, or the length.
pub open spec fn position_walk(
    h: HostView,
    log: Answers,
    at: nat,
    items: Seq<Value>,
    v: Value,
    i: int,
    hashed: bool,
    fuel: nat,
) -> Outcome<int>
    decreases items.len() - i,
{
    if i < 0 || i >= items.len() {
        Ok((items.len() as int, at))
    } else {
        match member_walk(h, log, at, items[i], v, hashed, fuel) {
            Err(s) => Err(s),
            Ok((true, n)) => Ok((i, n)),
            Ok((false, n)) => position_walk(h, log, n, items, v, i + 1, hashed, fuel),
        }
    }
}

/// Whether `x` equals one of `ys` from position `j` on.
pub open spec fn among_walk(
    h: HostView,
    log: Answers,
    at: nat,
    x: Value,
    ys: Seq<Value>,
    j: int,
    hashed: bool,
    fuel: nat,
) -> Outcome<bool>
    decreases ys.len() - j,
{
    if j < 0 || j >= ys.len() {
        Ok((false, at))
    } else {
        match member_walk(h, log, at, x, ys[j], hashed, fuel) {
            Ok((false, n)) => among_walk(h, log, n, x, ys, j + 1, hashed, fuel),
            other => other,
        }
    }
}

/// Which of `items` stay, behind the decisions `done` on the first of them: those
/// that `other` holds (`want`), or those that it does not. `hashed` says whether
/// `other` is searched by hash.
pub open spec fn retained_walk(
    h: HostView,
    log: Answers,
    at: nat,
    items: Seq<Value>,
    other: Seq<Value>,
    hashed: bool,
    want: bool,
    done: Seq<bool>,
    fuel: nat,
) -> Outcome<Seq<bool>>
    decreases items.len() - done.len(),
{
    if done.len() >= items.len() {
        Ok((done, at))
    } else {
        match position_walk(h, log, at, other, items[done.len() as int], 0, hashed, fuel) {
            Err(s) => Err(s),
            Ok((p, n)) => retained_walk(
                h,
                log,
                n,
                items,
                other,
                hashed,
                want,
                done.push((p < other.len()) == want),
                fuel,
            ),
        }
    }
}

/// The values that stay: all but those decided against.
pub open spec fn remaining(items: Seq<Value>, stays: Seq<bool>) -> Seq<Value>
    decreases items.len(),
{
    if items.len() == 0 {
        Seq::empty()
    } else {
        let n = items.len() - 1;
        let before = remaining(items.drop_last(), stays);
        if n < stays.len() && !stays[n] {
            before
        } else {
            before.push(items.last())
        }
    }
}

/// The distinct elements of `vals` from position `i` on, behind `out`; of a
/// repeat the first stays.
pub open spec fn distinct_walk(
    h: HostView,
    log: Answers,
    at: nat,
    vals: Seq<Value>,
    i: int,
    out: Seq<Value>,
    fuel: nat,
) -> Outcome<Seq<Value>>
    decreases vals.len() - i,
{
    if i < 0 || i >= vals.len() {
        Ok((out, at))
    } else {
        match position_walk(h, log, at, out, vals[i], 0, true, fuel) {
            Err(s) => Err(s),
            Ok((p, n)) => distinct_walk(
                h,
                log,
                n,
                vals,
                i + 1,
                if p < out.len() {
                    out
                } else {
                    out.push(vals[i])
                },
                fuel,
            ),
        }
    }
}

/// The entries with `k` put to `v`: a key that is there keeps its place.
pub open spec fn upsert_walk(
    h: HostView,
    log: Answers,
    at: nat,
    es: Seq<(Value, Value)>,
    k: Value,
    v: Value,
    fuel: nat,
) -> Outcome<Seq<(Value, Value)>> {
    match position_walk(h, log, at, entry_keys(es), k, 0, true, fuel) {
        Err(s) => Err(s),
        Ok((p, n)) => Ok(
            (
                if p < es.len() {
                    es.update(p, (es[p].0, v))
                } else {
                    es.push((k, v))
                },
                n,
            ),
        ),
    }
}

/// The entries with the couples of `add` from position `i` on put one after
/// another.
pub open spec fn put_all_walk(
    h: HostView,
    log: Answers,
    at: nat,
    es: Seq<(Value, Value)>,
    add: Seq<(Value, Value)>,
    i: int,
    fuel: nat,
) -> Outcome<Seq<(Value, Value)>>
    decreases add.len() - i,
{
    if i < 0 || i >= add.len() {
        Ok((es, at))
    } else {
        match upsert_walk(h, log, at, es, add[i].0, add[i].1, fuel) {
            Err(s) => Err(s),
            Ok((out, n)) => put_all_walk(h, log, n, out, add, i + 1, fuel),
        }
    }
}

/// The elements from position `i` on that equal none of `drop`, behind `out`.
pub open spec fn minus_walk(
    h: HostView,
    log: Answers,
    at: nat,
    items: Seq<Value>,
    i: int,
    drop: Seq<Value>,
    hashed: bool,
    out: Seq<Value>,
    fuel: nat,
) -> Outcome<Seq<Value>>
    decreases items.len() - i,
{
    if i < 0 || i >= items.len() {
        Ok((out, at))
    } else {
        match among_walk(h, log, at, items[i], drop, 0, hashed, fuel) {
            Err(s) => Err(s),
            Ok((hit, n)) => minus_walk(
                h,
                log,
                n,
                items,
                i + 1,
                drop,
                hashed,
                if hit {
                    out
                } else {
                    out.push(items[i])
                },
                fuel,
            ),
        }
    }
}

/// The entries from position `i` on whose key equals none of `drop`, behind
/// `out`.
pub open spec fn minus_keys_walk(
    h: HostView,
    log: Answers,
    at: nat,
    es: Seq<(Value, Value)>,
    i: int,
    drop: Seq<Value>,
    out: Seq<(Value, Value)>,
    fuel: nat,
) -> Outcome<Seq<(Value, Value)>>
    decreases es.len() - i,
{
    if i < 0 || i >= es.len() {
        Ok((out, at))
    } else {
        match among_walk(h, log, at, es[i].0, drop, 0, true, fuel) {
            Err(s) => Err(s),
            Ok((hit, n)) => minus_keys_walk(
                h,
                log,
                n,
                es,
                i + 1,
                drop,
                if hit {
                    out
                } else {
                    out.push(es[i])
                },
                fuel,
            ),
        }
    }
}

/// One element comparison.
pub(crate) fn member_eq(log: &mut Log, h: &Host, a: Value, b: Value, hashed: bool, fuel: usize) -> (r:
    Result<bool, Stop>)
    requires
        old(log).at <= old(log).answers@.len(),
    ensures
        final(log).answers == old(log).answers,
        final(log).at <= final(log).answers@.len(),
        reached(
            r,
            final(log).at,
            member_walk(h@, old(log).answers@, old(log).at as nat, a, b, hashed, fuel as nat),
        ),
{
    if hashed {
        log.hash_equal(h, a, b, fuel)
    } else {
        log.equal(h, a, b, fuel)
    }
}

/// A position, with how many answers were used, as what a walk has come to.
pub open spec fn position_reached(r: Result<usize, Stop>, at: usize, out: Outcome<int>) -> bool {
    match r {
        Ok(k) => out == Ok::<(int, nat), Stop>((k as int, at as nat)),
        Err(s) => out == Err::<(int, nat), Stop>(s),
    }
}

/// The first position whose element equals `v`, or the length.
pub(crate) fn position(
    log: &mut Log,
    h: &Host,
    items: &Vec<Value>,
    v: Value,
    hashed: bool,
    fuel: usize,
) -> (r: Result<usize, Stop>)
    requires
        old(log).at <= old(log).answers@.len(),
    ensures
        final(log).answers == old(log).answers,
        final(log).at <= final(log).answers@.len(),
        position_reached(
            r,
            final(log).at,
            position_walk(
                h@,
                old(log).answers@,
                old(log).at as nat,
                items@,
                v,
                0,
                hashed,
                fuel as nat,
            ),
        ),
        r matches Ok(k) ==> k <= items@.len(),
{
    let ghost goal = position_walk(
        h@,
        log.answers@,
        log.at as nat,
        items@,
        v,
        0,
        hashed,
        fuel as nat,
    );
    let mut i: usize = 0;
    while i < items.len()
        invariant
            i <= items@.len(),
            log.answers == old(log).answers,
            log.at <= log.answers@.len(),
            goal == position_walk(
                h@,
                old(log).answers@,
                old(log).at as nat,
                items@,
                v,
                0,
                hashed,
                fuel as nat,
            ),
            position_walk(
                h@,
                log.answers@,
                log.at as nat,
                items@,
                v,
                i as int,
                hashed,
                fuel as nat,
            ) == goal,
        decreases items.len() - i,
    {
        match member_eq(log, h, items[i], v, hashed, fuel) {
            Err(s) => {
                return Err(s);
            },
            Ok(true) => {
                return Ok(i);
            },
            Ok(false) => {},
        }
        i = i + 1;
    }
    Ok(i)
}

/// Whether `x` equals one of `ys`.
pub(crate) fn among(log: &mut Log, h: &Host, x: Value, ys: &Vec<Value>, hashed: bool, fuel: usize) -> (
r: Result<bool, Stop>)
    requires
        old(log).at <= old(log).answers@.len(),
    ensures
        final(log).answers == old(log).answers,
        final(log).at <= final(log).answers@.len(),
        reached(
            r,
            final(log).at,
            among_walk(h@, old(log).answers@, old(log).at as nat, x, ys@, 0, hashed, fuel as nat),
        ),
{
    let ghost goal = among_walk(h@, log.answers@, log.at as nat, x, ys@, 0, hashed, fuel as nat);
    let mut j: usize = 0;
    while j < ys.len()
        invariant
            j <= ys@.len(),
            log.answers == old(log).answers,
            log.at <= log.answers@.len(),
            goal == among_walk(
                h@,
                old(log).answers@,
                old(log).at as nat,
                x,
                ys@,
                0,
                hashed,
                fuel as nat,
            ),
            among_walk(h@, log.answers@, log.at as nat, x, ys@, j as int, hashed, fuel as nat)
                == goal,
        decreases ys.len() - j,
    {
        match member_eq(log, h, x, ys[j], hashed, fuel) {
            Ok(false) => {},
            other => {
                return other;
            },
        }
        j = j + 1;
    }
    Ok(false)
}

/// A list, with how many answers were used, as what a walk has come to.
pub open spec fn list_reached<T>(r: Result<Vec<T>, Stop>, at: usize, out: Outcome<Seq<T>>) -> bool {
    match r {
        Ok(v) => out == Ok::<(Seq<T>, nat), Stop>((v@, at as nat)),
        Err(s) => out == Err::<(Seq<T>, nat), Stop>(s),
    }
}

/// Which of `items` stay, by whether `other` holds them.
pub(crate) fn retained(
    log: &mut Log,
    h: &Host,
    items: &Vec<Value>,
    other: &Vec<Value>,
    hashed: bool,
    want: bool,
    fuel: usize,
) -> (r: Result<Vec<bool>, Stop>)
    requires
        old(log).at <= old(log).answers@.len(),
    ensures
        final(log).answers == old(log).answers,
        final(log).at <= final(log).answers@.len(),
        list_reached(
            r,
            final(log).at,
            retained_walk(
                h@,
                old(log).answers@,
                old(log).at as nat,
                items@,
                other@,
                hashed,
                want,
                Seq::empty(),
                fuel as nat,
            ),
        ),
{
    let ghost goal = retained_walk(
        h@,
        log.answers@,
        log.at as nat,
        items@,
        other@,
        hashed,
        want,
        Seq::empty(),
        fuel as nat,
    );
    let mut stays: Vec<bool> = Vec::new();
    assert(stays@ =~= Seq::empty());
    while stays.len() < items.len()
        invariant
            log.answers == old(log).answers,
            log.at <= log.answers@.len(),
            goal == retained_walk(
                h@,
                old(log).answers@,
                old(log).at as nat,
                items@,
                other@,
                hashed,
                want,
                Seq::empty(),
                fuel as nat,
            ),
            retained_walk(
                h@,
                log.answers@,
                log.at as nat,
                items@,
                other@,
                hashed,
                want,
                stays@,
                fuel as nat,
            ) == goal,
        decreases items.len() - stays.len(),
    {
        match position(log, h, other, items[stays.len()], hashed, fuel) {
            Err(s) => {
                return Err(s);
            },
            Ok(p) => {
                stays.push((p < other.len()) == want);
            },
        }
    }
    Ok(stays)
}

/// The values that stay.
pub(crate) fn remain(items: &Vec<Value>, stays: &Vec<bool>) -> (r: Vec<Value>)
    ensures
        r@ == remaining(items@, stays@),
{
    let mut r: Vec<Value> = Vec::new();
    let mut i: usize = 0;
    assert(items@.take(0) =~= Seq::empty());
    while i < items.len()
        invariant
            i <= items@.len(),
            r@ == remaining(items@.take(i as int), stays@),
        decreases items.len() - i,
    {
        assert(items@.take(i + 1).drop_last() =~= items@.take(i as int));
        if i >= stays.len() || stays[i] {
            r.push(items[i]);
        }
        i = i + 1;
    }
    assert(items@.take(i as int) =~= items@);
    r
}

/// The distinct elements of `vals`, keeping the first of a repeat.
pub(crate) fn distinct(log: &mut Log, h: &Host, vals: &Vec<Value>, fuel: usize) -> (r: Result<
    Vec<Value>,
    Stop,
>)
    requires
        old(log).at <= old(log).answers@.len(),
    ensures
        final(log).answers == old(log).answers,
        final(log).at <= final(log).answers@.len(),
        list_reached(
            r,
            final(log).at,
            distinct_walk(
                h@,
                old(log).answers@,
                old(log).at as nat,
                vals@,
                0,
                Seq::empty(),
                fuel as nat,
            ),
        ),
{
    let ghost goal = distinct_walk(
        h@,
        log.answers@,
        log.at as nat,
        vals@,
        0,
        Seq::empty(),
        fuel as nat,
    );
    let mut out: Vec<Value> = Vec::new();
    let mut i: usize = 0;
    while i < vals.len()
        invariant
            i <= vals@.len(),
            log.answers == old(log).answers,
            log.at <= log.answers@.len(),
            goal == distinct_walk(
                h@,
                old(log).answers@,
                old(log).at as nat,
                vals@,
                0,
                Seq::empty(),
                fuel as nat,
            ),
            distinct_walk(h@, log.answers@, log.at as nat, vals@, i as int, out@, fuel as nat)
                == goal,
        decreases vals.len() - i,
    {
        match position(log, h, &out, vals[i], true, fuel) {
            Err(s) => {
                return Err(s);
            },
            Ok(p) => {
                if p >= out.len() {
                    out.push(vals[i]);
                }
            },
        }
        i = i + 1;
    }
    Ok(out)
}

/// Put `k` to `v`, keeping a key that is there in its place.
pub(crate) fn map_upsert(
    log: &mut Log,
    h: &Host,
    es: &mut Vec<(Value, Value)>,
    k: Value,
    v: Value,
    fuel: usize,
) -> (r: Result<(), Stop>)
    requires
        old(log).at <= old(log).answers@.len(),
    ensures
        final(log).answers == old(log).answers,
        final(log).at <= final(log).answers@.len(),
        match r {
            Ok(()) => upsert_walk(
                h@,
                old(log).answers@,
                old(log).at as nat,
                old(es)@,
                k,
                v,
                fuel as nat,
            ) == Ok::<_, Stop>((final(es)@, final(log).at as nat)),
            Err(s) => upsert_walk(
                h@,
                old(log).answers@,
                old(log).at as nat,
                old(es)@,
                k,
                v,
                fuel as nat,
            ) == Err::<(Seq<(Value, Value)>, nat), Stop>(s),
        },
{
    let keys: Vec<Value> = keys_of(es);
    match position(log, h, &keys, k, true, fuel) {
        Err(s) => Err(s),
        Ok(p) => {
            if p < es.len() {
                let key: Value = es[p].0;
                es.set(p, (key, v));
            } else {
                es.push((k, v));
            }
            Ok(())
        },
    }
}

/// Put couples one after another.
pub(crate) fn put_couples(
    log: &mut Log,
    h: &Host,
    es: Vec<(Value, Value)>,
    add: &Vec<(Value, Value)>,
    fuel: usize,
) -> (r: Result<Vec<(Value, Value)>, Stop>)
    requires
        old(log).at <= old(log).answers@.len(),
    ensures
        final(log).answers == old(log).answers,
        final(log).at <= final(log).answers@.len(),
        list_reached(
            r,
            final(log).at,
            put_all_walk(
                h@,
                old(log).answers@,
                old(log).at as nat,
                es@,
                add@,
                0,
                fuel as nat,
            ),
        ),
{
    let ghost start = es@;
    let ghost goal = put_all_walk(h@, log.answers@, log.at as nat, es@, add@, 0, fuel as nat);
    let mut out: Vec<(Value, Value)> = es;
    let mut i: usize = 0;
    while i < add.len()
        invariant
            i <= add@.len(),
            log.answers == old(log).answers,
            log.at <= log.answers@.len(),
            start == es@,
            goal == put_all_walk(
                h@,
                old(log).answers@,
                old(log).at as nat,
                start,
                add@,
                0,
                fuel as nat,
            ),
            put_all_walk(h@, log.answers@, log.at as nat, out@, add@, i as int, fuel as nat)
                == goal,
        decreases add.len() - i,
    {
        match map_upsert(log, h, &mut out, add[i].0, add[i].1, fuel) {
            Err(s) => {
                return Err(s);
            },
            Ok(()) => {},
        }
        i = i + 1;
    }
    Ok(out)
}

fn minus_all(
    log: &mut Log,
    h: &Host,
    items: &Vec<Value>,
    drop: &Vec<Value>,
    hashed: bool,
    fuel: usize,
) -> (r: Result<Vec<Value>, Stop>)
    requires
        old(log).at <= old(log).answers@.len(),
    ensures
        final(log).answers == old(log).answers,
        final(log).at <= final(log).answers@.len(),
        list_reached(
            r,
            final(log).at,
            minus_walk(
                h@,
                old(log).answers@,
                old(log).at as nat,
                items@,
                0,
                drop@,
                hashed,
                Seq::empty(),
                fuel as nat,
            ),
        ),
{
    let ghost goal = minus_walk(
        h@,
        log.answers@,
        log.at as nat,
        items@,
        0,
        drop@,
        hashed,
        Seq::empty(),
        fuel as nat,
    );
    let mut out: Vec<Value> = Vec::new();
    let mut i: usize = 0;
    while i < items.len()
        invariant
            i <= items@.len(),
            log.answers == old(log).answers,
            log.at <= log.answers@.len(),
            goal == minus_walk(
                h@,
                old(log).answers@,
                old(log).at as nat,
                items@,
                0,
                drop@,
                hashed,
                Seq::empty(),
                fuel as nat,
            ),
            minus_walk(
                h@,
                log.answers@,
                log.at as nat,
                items@,
                i as int,
                drop@,
                hashed,
                out@,
                fuel as nat,
            ) == goal,
        decreases items.len() - i,
    {
        match among(log, h, items[i], drop, hashed, fuel) {
            Err(s) => {
                return Err(s);
            },
            Ok(hit) => {
                if !hit {
                    out.push(items[i]);
                }
            },
        }
        i = i + 1;
    }
    Ok(out)
}

fn minus_keys(
    log: &mut Log,
    h: &Host,
    es: &Vec<(Value, Value)>,
    drop: &Vec<Value>,
    fuel: usize,
) -> (r: Result<Vec<(Value, Value)>, Stop>)
    requires
        old(log).at <= old(log).answers@.len(),
    ensures
        final(log).answers == old(log).answers,
        final(log).at <= final(log).answers@.len(),
        list_reached(
            r,
            final(log).at,
            minus_keys_walk(
                h@,
                old(log).answers@,
                old(log).at as nat,
                es@,
                0,
                drop@,
                Seq::empty(),
                fuel as nat,
            ),
        ),
{
    let ghost goal = minus_keys_walk(
        h@,
        log.answers@,
        log.at as nat,
        es@,
        0,
        drop@,
        Seq::empty(),
        fuel as nat,
    );
    let mut out: Vec<(Value, Value)> = Vec::new();
    let mut i: usize = 0;
    while i < es.len()
        invariant
            i <= es@.len(),
            log.answers == old(log).answers,
            log.at <= log.answers@.len(),
            goal == minus_keys_walk(
                h@,
                old(log).answers@,
                old(log).at as nat,
                es@,
                0,
                drop@,
                Seq::empty(),
                fuel as nat,
            ),
            minus_keys_walk(
                h@,
                log.answers@,
                log.at as nat,
                es@,
                i as int,
                drop@,
                out@,
                fuel as nat,
            ) == goal,
        decreases es.len() - i,
    {
        match among(log, h, es[i].0, drop, true, fuel) {
            Err(s) => {
                return Err(s);
            },
            Ok(hit) => {
                if !hit {
                    out.push(es[i]);
                }
            },
        }
        i = i + 1;
    }
    Ok(out)
}

// ── `in` ────────────────────────────────────────────────────────────────────

/// What a container search looks through: its elements, and whether it goes by
/// hash.
pub open spec fn searched(h: HostView, container: Value) -> Option<(Seq<Value>, bool)> {
    match h.obj(container) {
        Some(ObjView::List(items)) => Some((items, false)),
        Some(ObjView::Array { items, .. }) => Some((items, false)),
        Some(ObjView::SetObj(items)) => Some((items, true)),
        Some(ObjView::MapObj(es)) => Some((entry_keys(es), true)),
        _ => None,
    }
}

/// Whether a search in `container` goes by hash.
pub open spec fn is_hashed(h: HostView, container: Value) -> bool {
    searched(h, container) matches Some((_, true))
}

/// `value in container`: part of a text, member of a range, element of a list,
/// an array or a set, key of a map.
pub open spec fn contains_walk(h: HostView, container: Value, value: Value, log: Answers) -> Result<
    bool,
    Stop,
> {
    let g = host_at(h, log, 0);
    match container {
        Value::Str(id) => Ok(find_from(g.text(id), text_of(g, value), 0) is Some),
        _ => match g.obj(container) {
            Some(ObjView::Range(r)) => Ok(
                r.is_char == (code_of(value) is Some) && r.has(g.num_of(value)),
            ),
            _ => match searched(g, container) {
                None => Ok(false),
                Some((items, hashed)) => match position_walk(
                    h,
                    log,
                    0,
                    items,
                    value,
                    0,
                    hashed,
                    budget(h),
                ) {
                    Err(s) => Err(s),
                    Ok((p, _)) => Ok(p < items.len()),
                },
            },
        },
    }
}

/// Whether a search in `container` goes by hash.
pub(crate) fn searches_by_hash(h: &Host, container: Value) -> (r: bool)
    ensures
        r == is_hashed(h@, container),
{
    matches!(h.obj(container), Some(HeapObj::SetObj(_) | HeapObj::MapObj(_)))
}

/// The elements a container search looks through.
pub(crate) fn search_items(h: &Host, container: Value) -> (r: Option<(Vec<Value>, bool)>)
    ensures
        match r {
            Some((items, hashed)) => searched(h@, container) == Some((items@, hashed)),
            None => searched(h@, container) is None,
        },
{
    match h.obj(container) {
        Some(HeapObj::List(items)) => Some((copy_values(items), false)),
        Some(HeapObj::Array { items, .. }) => Some((copy_values(items), false)),
        Some(HeapObj::SetObj(items)) => Some((copy_values(items), true)),
        Some(HeapObj::MapObj(es)) => Some((keys_of(es), true)),
        _ => None,
    }
}

/// `value in container` for every container kind `in` accepts.
pub fn contains_value(h: &Host, container: Value, value: Value, answers: &Vec<Turn>) -> (r:
    Result<bool, Stop>)
    ensures
        r == contains_walk(h@, container, value, answers@),
{
    let g: &Host = host_before(h, answers);
    if let Value::Str(id) = container {
        return Ok(contains(g.text(id), kotlin_string(g, value).as_str()));
    }
    if let Some(HeapObj::Range(r)) = g.obj(container) {
        return Ok(r.is_char == is_char(&value) && r.contains(g.num_of(value)));
    }
    match search_items(g, container) {
        None => Ok(false),
        Some((items, hashed)) => {
            let mut log = Log::new(answers);
            match position(&mut log, h, &items, value, hashed, depth_budget(h)) {
                Err(s) => Err(s),
                Ok(p) => Ok(p < items.len()),
            }
        },
    }
}

/// The position of the element (or map key) that equals `v` among those that
/// `recv` has when the search starts; `None` when there is none or `recv` is no
/// container.
pub open spec fn key_position_walk(h: HostView, recv: Value, v: Value, log: Answers) -> Result<
    Option<int>,
    Stop,
> {
    match searched(host_at(h, log, 0), recv) {
        None => Ok(None),
        Some((items, hashed)) => match position_walk(h, log, 0, items, v, 0, hashed, budget(h)) {
            Err(s) => Err(s),
            Ok((p, _)) => Ok(
                if p < items.len() {
                    Some(p)
                } else {
                    None
                },
            ),
        },
    }
}

/// The position of the element (or map key) of `recv` that equals `v`.
pub(crate) fn key_position(h: &Host, recv: Value, v: Value, answers: &Vec<Turn>) -> (r: Result<
    Option<usize>,
    Stop,
>)
    ensures
        match r {
            Ok(Some(k)) => key_position_walk(h@, recv, v, answers@) == Ok::<_, Stop>(
                Some(k as int),
            ),
            Ok(None) => key_position_walk(h@, recv, v, answers@) == Ok::<Option<int>, Stop>(None),
            Err(s) => key_position_walk(h@, recv, v, answers@) == Err::<Option<int>, Stop>(s),
        },
{
    match search_items(host_before(h, answers), recv) {
        None => Ok(None),
        Some((items, hashed)) => {
            let mut log = Log::new(answers);
            match position(&mut log, h, &items, v, hashed, depth_budget(h)) {
                Err(s) => Err(s),
                Ok(p) => if p < items.len() {
                    Ok(Some(p))
                } else {
                    Ok(None)
                },
            }
        },
    }
}

// ── Builders ────────────────────────────────────────────────────────────────

/// The elements a set builder is given: the arguments, or those of the one
/// argument it copies.
pub open spec fn set_sources(h: HostView, spec: CollSpec, vals: Seq<Value>) -> Seq<Value> {
    if !spec.copy {
        vals
    } else if vals.len() == 0 {
        Seq::empty()
    } else {
        match iterable_items(h, vals[0]) {
            Some(items) => items,
            None => Seq::empty(),
        }
    }
}

/// The state with a collection allocated under the order `ord`.
pub open spec fn built(h: HostView, o: ObjView, ord: Option<CollOrder>) -> HostView {
    match ord {
        Some(k) => h.allocated(o).with_order(h.next_handle(), k),
        None => h.allocated(o),
    }
}

/// What building a set comes to. The set still has to be put in its order.
pub open spec fn set_walk(h: HostView, spec: CollSpec, vals: Seq<Value>, log: Answers) -> Result<
    HostView,
    Stop,
> {
    let g = host_at(h, log, 0);
    match distinct_walk(h, log, 0, set_sources(g, spec, vals), 0, Seq::empty(), budget(h)) {
        Err(s) => Err(s),
        Ok((items, _)) => Ok(
            built(h, ObjView::SetObj(items), spec.order_for_size(items.len())),
        ),
    }
}

/// Build a set. It still has to be put in its order.
pub fn set_new(h: &mut Host, spec: CollSpec, vals: &Vec<Value>, answers: &Vec<Turn>) -> (r:
    Result<Value, Stop>)
    ensures
        match set_walk(old(h)@, spec, vals@, answers@) {
            Ok(g) => r == Ok::<Value, Stop>(old(h)@.next_handle()) && final(h)@ == g,
            Err(s) => r == Err::<Value, Stop>(s) && final(h)@ == old(h)@,
        },
{
    let sources: Vec<Value> = if !spec.copy {
        copy_values(vals)
    } else if vals.len() == 0 {
        Vec::new()
    } else {
        match as_iterable(host_before(h, answers), vals[0]) {
            Some(items) => items,
            None => Vec::new(),
        }
    };
    let mut log = Log::new(answers);
    match distinct(&mut log, h, &sources, depth_budget(h)) {
        Err(s) => Err(s),
        Ok(items) => {
            let ord: Option<CollOrder> = spec.order_for(items.len());
            let v: Value = h.allocate(HeapObj::SetObj(items));
            if let Some(k) = ord {
                h.tag_order(v, k);
            }
            Ok(v)
        },
    }
}

/// The pairs among some values.
pub open spec fn pairs_in(h: HostView, vs: Seq<Value>) -> Seq<(Value, Value)>
    decreases vs.len(),
{
    if vs.len() == 0 {
        Seq::empty()
    } else {
        match h.obj(vs.last()) {
            Some(ObjView::Pair(a, b)) => pairs_in(h, vs.drop_last()).push((a, b)),
            _ => pairs_in(h, vs.drop_last()),
        }
    }
}

fn pick_pairs(h: &Host, vs: &Vec<Value>) -> (r: Vec<(Value, Value)>)
    ensures
        r@ == pairs_in(h@, vs@),
{
    let mut r: Vec<(Value, Value)> = Vec::new();
    let mut i: usize = 0;
    assert(vs@.take(0) =~= Seq::empty());
    while i < vs.len()
        invariant
            i <= vs@.len(),
            r@ == pairs_in(h@, vs@.take(i as int)),
        decreases vs.len() - i,
    {
        assert(vs@.take(i + 1).drop_last() =~= vs@.take(i as int));
        assert(vs@.take(i + 1).last() == vs@[i as int]);
        match h.obj(vs[i]) {
            Some(HeapObj::Pair(a, b)) => {
                r.push((*a, *b));
            },
            _ => {},
        }
        i = i + 1;
    }
    assert(vs@.take(i as int) =~= vs@);
    r
}

/// The couples a map builder is given: the `k to v` pairs, or the couples of the
/// one argument it copies.
pub open spec fn map_sources(h: HostView, spec: CollSpec, vals: Seq<Value>) -> Seq<(Value, Value)> {
    if !spec.copy {
        pairs_in(h, vals)
    } else if vals.len() == 0 {
        Seq::empty()
    } else {
        match couples(h, vals[0]) {
            Some(es) => es,
            None => Seq::empty(),
        }
    }
}

/// What building a map comes to. The map still has to be put in its order.
pub open spec fn map_walk(h: HostView, spec: CollSpec, vals: Seq<Value>, log: Answers) -> Result<
    HostView,
    Stop,
> {
    let g = host_at(h, log, 0);
    match put_all_walk(h, log, 0, Seq::empty(), map_sources(g, spec, vals), 0, budget(h)) {
        Err(s) => Err(s),
        Ok((es, _)) => Ok(built(h, ObjView::MapObj(es), spec.order_for_size(es.len()))),
    }
}

/// Build a map: a repeated key keeps its first place and takes the last value.
/// The map still has to be put in its order.
pub fn map_new(h: &mut Host, spec: CollSpec, vals: &Vec<Value>, answers: &Vec<Turn>) -> (r:
    Result<Value, Stop>)
    ensures
        match map_walk(old(h)@, spec, vals@, answers@) {
            Ok(g) => r == Ok::<Value, Stop>(old(h)@.next_handle()) && final(h)@ == g,
            Err(s) => r == Err::<Value, Stop>(s) && final(h)@ == old(h)@,
        },
{
    let sources: Vec<(Value, Value)> = if !spec.copy {
        pick_pairs(host_before(h, answers), vals)
    } else if vals.len() == 0 {
        Vec::new()
    } else {
        match as_couples(host_before(h, answers), vals[0]) {
            Some(es) => es,
            None => Vec::new(),
        }
    };
    let mut log = Log::new(answers);
    match put_couples(&mut log, h, Vec::new(), &sources, depth_budget(h)) {
        Err(s) => Err(s),
        Ok(es) => {
            let ord: Option<CollOrder> = spec.order_for(es.len());
            let v: Value = h.allocate(HeapObj::MapObj(es));
            if let Some(k) = ord {
                h.tag_order(v, k);
            }
            Ok(v)
        },
    }
}

// ── Operators ───────────────────────────────────────────────────────────────

/// The operators that collections define, as whether they add and whether they
/// change the receiver.
pub open spec fn operator_of(name: Seq<char>) -> Option<(bool, bool)> {
    if name == "plus"@ {
        Some((true, false))
    } else if name == "minus"@ {
        Some((false, false))
    } else if name == "plusAssign"@ {
        Some((true, true))
    } else if name == "minusAssign"@ {
        Some((false, true))
    } else {
        None
    }
}

/// The operators that collections define.
pub fn operator_kind(name: &str) -> (r: Option<(bool, bool)>)
    ensures
        r == operator_of(name@),
{
    if same(name, "plus") {
        Some((true, false))
    } else if same(name, "minus") {
        Some((false, false))
    } else if same(name, "plusAssign") {
        Some((true, true))
    } else if same(name, "minusAssign") {
        Some((false, true))
    } else {
        None
    }
}

/// The keys or elements that a `minus` drops: those of an iterable, or the
/// operand itself.
pub open spec fn dropped(h: HostView, rhs: Value) -> Seq<Value> {
    match iterable_items(h, rhs) {
        Some(items) => items,
        None => seq![rhs],
    }
}

/// An operator on a map: `+` puts couples, `-` drops keys.
pub open spec fn map_operator(
    h: HostView,
    lhs: Value,
    es: Seq<(Value, Value)>,
    name: Seq<char>,
    rhs: Value,
    adding: bool,
    assign: bool,
    log: Answers,
) -> Result<ReplyView, Stop> {
    let done = |out: Seq<(Value, Value)>|
        if assign {
            ReplyView::Update(lhs, ObjView::MapObj(out), Value::Undef)
        } else {
            ReplyView::Object(ObjView::MapObj(out))
        };
    let g = host_at(h, log, 0);
    if adding {
        match couples(g, rhs) {
            None => Ok(
                ReplyView::Fault(
                    "unresolved reference: "@ + name + " on Map with "@ + label_of(g, rhs),
                ),
            ),
            Some(add) => match put_all_walk(h, log, 0, es, add, 0, budget(h)) {
                Err(s) => Err(s),
                Ok((out, _)) => Ok(done(out)),
            },
        }
    } else {
        match minus_keys_walk(h, log, 0, es, 0, dropped(g, rhs), Seq::empty(), budget(h)) {
            Err(s) => Err(s),
            Ok((out, _)) => Ok(done(out)),
        }
    }
}

/// The elements that an operator leaves: `+` appends the operand's elements or
/// the operand, `-` drops every occurrence of the operand's elements or the
/// first of the operand.
pub open spec fn element_walk(
    h: HostView,
    items: Seq<Value>,
    rhs: Value,
    adding: bool,
    is_set: bool,
    log: Answers,
) -> Outcome<Seq<Value>> {
    match (adding, iterable_items(host_at(h, log, 0), rhs)) {
        (true, Some(more)) => Ok((items + more, 0)),
        (true, None) => Ok((items.push(rhs), 0)),
        (false, Some(drop)) => minus_walk(
            h,
            log,
            0,
            items,
            0,
            drop,
            is_set,
            Seq::empty(),
            budget(h),
        ),
        (false, None) => match position_walk(h, log, 0, items, rhs, 0, is_set, budget(h)) {
            Err(s) => Err(s),
            Ok((p, n)) => Ok(
                (
                    if p < items.len() {
                        items.remove(p)
                    } else {
                        items
                    },
                    n,
                ),
            ),
        },
    }
}

/// The elements that an operator leaves in the receiver's container: a set holds
/// each once, and everything else gives a list.
pub open spec fn operated(
    h: HostView,
    items: Seq<Value>,
    rhs: Value,
    adding: bool,
    is_set: bool,
    log: Answers,
) -> Result<ObjView, Stop> {
    match element_walk(h, items, rhs, adding, is_set, log) {
        Err(s) => Err(s),
        Ok((out, n)) => if is_set {
            match distinct_walk(h, log, n, out, 0, Seq::empty(), budget(h)) {
                Err(s) => Err(s),
                Ok((d, _)) => Ok(ObjView::SetObj(d)),
            }
        } else {
            Ok(ObjView::List(out))
        },
    }
}

/// The receiver with the result of an assigning operator.
pub open spec fn assigned(h: HostView, lhs: Value, result: ObjView) -> ReplyView {
    match (h.obj(lhs), result) {
        (Some(ObjView::SetObj(_)), ObjView::SetObj(v)) => ReplyView::Update(
            lhs,
            ObjView::SetObj(v),
            Value::Undef,
        ),
        (Some(ObjView::List(_)), ObjView::List(v)) => ReplyView::Update(
            lhs,
            ObjView::List(v),
            Value::Undef,
        ),
        (Some(ObjView::Array { desc, .. }), ObjView::List(v)) => ReplyView::Update(
            lhs,
            ObjView::Array { items: v, desc },
            Value::Undef,
        ),
        _ => ReplyView::Value(Value::Undef),
    }
}

/// A Kotlin operator convention on a collection. `plus` and `minus` answer a new
/// collection of the receiver's kind; their assigning forms change the receiver.
pub open spec fn operator_walk(h: HostView, lhs: Value, name: Seq<char>, rhs: Value, log: Answers) -> Result<
    ReplyView,
    Stop,
> {
    let g = host_at(h, log, 0);
    match operator_of(name) {
        None => Ok(ReplyView::Fault(unresolved(name, label_of(g, lhs)))),
        Some((adding, assign)) => match g.obj(lhs) {
            Some(ObjView::MapObj(es)) => map_operator(h, lhs, es, name, rhs, adding, assign, log),
            _ => match iterable_items(g, lhs) {
                None => Ok(ReplyView::Fault(unresolved(name, label_of(g, lhs)))),
                Some(items) => {
                    let is_set = g.obj(lhs) matches Some(ObjView::SetObj(_));
                    match operated(h, items, rhs, adding, is_set, log) {
                        Err(s) => Err(s),
                        Ok(o) => Ok(
                            if assign {
                                assigned(g, lhs, o)
                            } else {
                                ReplyView::Object(o)
                            },
                        ),
                    }
                },
            },
        },
    }
}

/// A reply, or why there is none yet, as a mathematical value.
pub open spec fn replied(r: Result<Reply, Stop>) -> Result<ReplyView, Stop> {
    match r {
        Ok(x) => Ok(x@),
        Err(s) => Err(s),
    }
}

fn map_operate(
    h: &Host,
    lhs: Value,
    es: &Vec<(Value, Value)>,
    name: &str,
    rhs: Value,
    adding: bool,
    assign: bool,
    answers: &Vec<Turn>,
) -> (r: Result<Reply, Stop>)
    ensures
        replied(r) == map_operator(h@, lhs, es@, name@, rhs, adding, assign, answers@),
{
    let g: &Host = host_before(h, answers);
    let mut log = Log::new(answers);
    let fuel: usize = depth_budget(h);
    let out: Vec<(Value, Value)> = if adding {
        match as_couples(g, rhs) {
            None => {
                let head: String = concat3("unresolved reference: ", name, " on Map with ");
                return Ok(Reply::Fault(concat2(head.as_str(), obj_label(g, rhs).as_str())));
            },
            Some(add) => match put_couples(&mut log, h, copy_entries(es), &add, fuel) {
                Err(s) => {
                    return Err(s);
                },
                Ok(out) => out,
            },
        }
    } else {
        let drop: Vec<Value> = match as_iterable(g, rhs) {
            Some(items) => items,
            None => {
                let one: Vec<Value> = vec![rhs];
                assert(one@ =~= seq![rhs]);
                one
            },
        };
        match minus_keys(&mut log, h, es, &drop, fuel) {
            Err(s) => {
                return Err(s);
            },
            Ok(out) => out,
        }
    };
    if assign {
        Ok(Reply::Update(lhs, HeapObj::MapObj(out), Value::Undef))
    } else {
        Ok(Reply::Object(HeapObj::MapObj(out)))
    }
}

fn operate(
    h: &Host,
    items: Vec<Value>,
    rhs: Value,
    adding: bool,
    is_set: bool,
    answers: &Vec<Turn>,
) -> (r: Result<HeapObj, Stop>)
    ensures
        match r {
            Ok(o) => operated(h@, items@, rhs, adding, is_set, answers@) == Ok::<_, Stop>(o@)
                && (o is SetObj || o is List),
            Err(s) => operated(h@, items@, rhs, adding, is_set, answers@) == Err::<ObjView, Stop>(s),
        },
{
    let g: &Host = host_before(h, answers);
    let mut log = Log::new(answers);
    let fuel: usize = depth_budget(h);
    let mut out: Vec<Value> = items;
    match as_iterable(g, rhs) {
        Some(more) => {
            if adding {
                let mut tail: Vec<Value> = more;
                out.append(&mut tail);
            } else {
                match minus_all(&mut log, h, &out, &more, is_set, fuel) {
                    Err(s) => {
                        return Err(s);
                    },
                    Ok(left) => {
                        out = left;
                    },
                }
            }
        },
        None => {
            if adding {
                out.push(rhs);
            } else {
                match position(&mut log, h, &out, rhs, is_set, fuel) {
                    Err(s) => {
                        return Err(s);
                    },
                    Ok(p) => {
                        if p < out.len() {
                            out.remove(p);
                        }
                    },
                }
            }
        },
    }
    if is_set {
        match distinct(&mut log, h, &out, fuel) {
            Err(s) => Err(s),
            Ok(d) => Ok(HeapObj::SetObj(d)),
        }
    } else {
        Ok(HeapObj::List(out))
    }
}

fn assign_to(h: &Host, lhs: Value, result: HeapObj) -> (r: Reply)
    ensures
        r@ == assigned(h@, lhs, result@),
{
    match (h.obj(lhs), result) {
        (Some(HeapObj::SetObj(_)), HeapObj::SetObj(v)) => Reply::Update(
            lhs,
            HeapObj::SetObj(v),
            Value::Undef,
        ),
        (Some(HeapObj::List(_)), HeapObj::List(v)) => Reply::Update(
            lhs,
            HeapObj::List(v),
            Value::Undef,
        ),
        (Some(HeapObj::Array { desc, .. }), HeapObj::List(v)) => Reply::Update(
            lhs,
            HeapObj::Array { items: v, desc: desc.as_str().to_owned() },
            Value::Undef,
        ),
        _ => Reply::Value(Value::Undef),
    }
}

/// Apply a Kotlin operator convention to a collection.
pub fn operator_apply(h: &Host, lhs: Value, name: &str, rhs: Value, answers: &Vec<Turn>) -> (r:
    Result<Reply, Stop>)
    ensures
        replied(r) == operator_walk(h@, lhs, name@, rhs, answers@),
{
    let g: &Host = host_before(h, answers);
    let (adding, assign): (bool, bool) = match operator_kind(name) {
        Some(k) => k,
        None => {
            return Ok(Reply::Fault(unresolved_on(g, name, lhs)));
        },
    };
    if let Some(HeapObj::MapObj(es)) = g.obj(lhs) {
        return map_operate(h, lhs, es, name, rhs, adding, assign, answers);
    }
    let is_set: bool = match g.obj(lhs) {
        Some(HeapObj::SetObj(_)) => true,
        _ => false,
    };
    match as_iterable(g, lhs) {
        None => Ok(Reply::Fault(unresolved_on(g, name, lhs))),
        Some(items) => match operate(h, items, rhs, adding, is_set, answers) {
            Err(s) => Err(s),
            Ok(o) => if assign {
                Ok(assign_to(g, lhs, o))
            } else {
                Ok(Reply::Object(o))
            },
        },
    }
}

/// An operator that does not assign leaves its receiver, and every other object,
/// as it was.
pub proof fn law_operators_leave_the_receiver(
    h: HostView,
    lhs: Value,
    name: Seq<char>,
    rhs: Value,
    log: Answers,
    v: Value,
)
    requires
        operator_of(name) matches Some((_, false)),
        operator_walk(h, lhs, name, rhs, log) is Ok,
        h.obj(v) is Some,
    ensures
        crate::reply::settled(h, operator_walk(h, lhs, name, rhs, log)->Ok_0).0.obj(v) == h.obj(v),
{
}

/// What `distinct` keeps it keeps in order: the elements found so far stay in
/// front, and every further one is an element of the receiver.
pub proof fn law_distinct_keeps_elements(
    h: HostView,
    log: Answers,
    at: nat,
    vals: Seq<Value>,
    i: int,
    out: Seq<Value>,
    fuel: nat,
)
    requires
        0 <= i,
    ensures
        distinct_walk(h, log, at, vals, i, out, fuel) matches Ok((r, _)) ==> {
            &&& out.len() <= r.len()
            &&& r.take(out.len() as int) == out
            &&& forall|k: int| out.len() <= k < r.len() ==> vals.contains(#[trigger] r[k])
        },
    decreases vals.len() - i,
{
    if i < vals.len() {
        if let Ok((p, n)) = position_walk(h, log, at, out, vals[i], 0, true, fuel) {
            let next = if p < out.len() {
                out
            } else {
                out.push(vals[i])
            };
            law_distinct_keeps_elements(h, log, n, vals, i + 1, next, fuel);
            if let Ok((r, _)) = distinct_walk(h, log, n, vals, i + 1, next, fuel) {
                assert(next.take(out.len() as int) =~= out);
                assert(r.take(out.len() as int) =~= r.take(next.len() as int).take(
                    out.len() as int,
                ));
                assert forall|k: int| out.len() <= k < r.len() implies vals.contains(
                    #[trigger] r[k],
                ) by {
                    if k < next.len() {
                        assert(r[k] == r.take(next.len() as int)[k]);
                        assert(r[k] == vals[i]);
                    }
                }
            }
        }
    } else {
        assert(out.take(out.len() as int) =~= out);
    }
}

/// Whether a hash container has compared `x` with `v` and found them different.
pub open spec fn are_told_apart(h: HostView, log: Answers, x: Value, v: Value, fuel: nat) -> bool {
    exists|at: nat|
        (#[trigger] member_walk(h, log, at, x, v, true, fuel)) matches Ok((false, _))
}

/// Whether a hash container has compared `x` with `v` and found them equal.
pub open spec fn are_found_equal(h: HostView, log: Answers, x: Value, v: Value, fuel: nat) -> bool {
    exists|at: nat|
        (#[trigger] member_walk(h, log, at, x, v, true, fuel)) matches Ok((true, _))
}

/// Whether each of the values was found different from those before it.
pub open spec fn have_no_repeat(h: HostView, log: Answers, xs: Seq<Value>, fuel: nat) -> bool {
    forall|k: int, l: int|
        0 <= k < l < xs.len() ==> are_told_apart(h, log, #[trigger] xs[k], #[trigger] xs[l], fuel)
}

pub proof fn lemma_passed(
    h: HostView,
    log: Answers,
    at: nat,
    items: Seq<Value>,
    v: Value,
    i: int,
    fuel: nat,
)
    requires
        0 <= i,
        position_walk(h, log, at, items, v, i, true, fuel) matches Ok((p, _)) && p >= items.len(),
    ensures
        forall|k: int|
            i <= k < items.len() ==> are_told_apart(h, log, #[trigger] items[k], v, fuel),
    decreases items.len() - i,
{
    if i < items.len() {
        match member_walk(h, log, at, items[i], v, true, fuel) {
            Ok((false, n)) => {
                lemma_passed(h, log, n, items, v, i + 1, fuel);
            },
            _ => {},
        }
    }
}

/// `distinct`, and with it a new `Set`, holds no element twice: each was found
/// different from those before it.
pub proof fn law_distinct_has_no_repeat(
    h: HostView,
    log: Answers,
    at: nat,
    vals: Seq<Value>,
    i: int,
    out: Seq<Value>,
    fuel: nat,
)
    requires
        0 <= i,
        have_no_repeat(h, log, out, fuel),
    ensures
        distinct_walk(h, log, at, vals, i, out, fuel) matches Ok((r, _)) ==> have_no_repeat(
            h,
            log,
            r,
            fuel,
        ),
    decreases vals.len() - i,
{
    if i < vals.len() {
        if let Ok((p, n)) = position_walk(h, log, at, out, vals[i], 0, true, fuel) {
            if p < out.len() {
                law_distinct_has_no_repeat(h, log, n, vals, i + 1, out, fuel);
            } else {
                lemma_passed(h, log, at, out, vals[i], 0, fuel);
                law_distinct_has_no_repeat(h, log, n, vals, i + 1, out.push(vals[i]), fuel);
            }
        }
    }
}

pub proof fn lemma_position_is_from(
    h: HostView,
    log: Answers,
    at: nat,
    items: Seq<Value>,
    v: Value,
    i: int,
    hashed: bool,
    fuel: nat,
)
    requires
        0 <= i <= items.len(),
    ensures
        position_walk(h, log, at, items, v, i, hashed, fuel) matches Ok((p, _)) ==> i <= p
            <= items.len(),
    decreases items.len() - i,
{
    if i < items.len() {
        if let Ok((false, n)) = member_walk(h, log, at, items[i], v, hashed, fuel) {
            lemma_position_is_from(h, log, n, items, v, i + 1, hashed, fuel);
        }
    }
}

/// A value that a hash container finds at a position equals what stands there.
pub proof fn lemma_found(
    h: HostView,
    log: Answers,
    at: nat,
    items: Seq<Value>,
    v: Value,
    i: int,
    fuel: nat,
)
    requires
        0 <= i,
    ensures
        position_walk(h, log, at, items, v, i, true, fuel) matches Ok((p, _)) ==> (p
            < items.len() ==> are_found_equal(h, log, items[p], v, fuel)),
    decreases items.len() - i,
{
    if i < items.len() {
        if let Ok((false, n)) = member_walk(h, log, at, items[i], v, true, fuel) {
            lemma_found(h, log, n, items, v, i + 1, fuel);
        }
    }
}

/// A key is found at a position that the container has.
pub proof fn lemma_key_position(h: HostView, recv: Value, v: Value, log: Answers)
    ensures
        key_position_walk(h, recv, v, log) matches Ok(Some(p)) ==> searched(host_at(h, log, 0), recv) is Some && 0
            <= p < (searched(host_at(h, log, 0), recv)->0).0.len(),
{
    if let Some((items, hashed)) = searched(host_at(h, log, 0), recv) {
        lemma_position_is_from(h, log, 0, items, v, 0, hashed, budget(h));
    }
}

/// A key that a hash container does not find is different from each that it has.
pub proof fn law_missing_keys_are_new(h: HostView, recv: Value, v: Value, log: Answers)
    requires
        searched(host_at(h, log, 0), recv) matches Some((_, true)),
        key_position_walk(h, recv, v, log) == Ok::<Option<int>, Stop>(None),
    ensures
        forall|k: int|
            0 <= k < (searched(host_at(h, log, 0), recv)->0).0.len() ==> are_told_apart(
                h,
                log,
                #[trigger] (searched(host_at(h, log, 0), recv)->0).0[k],
                v,
                budget(h),
            ),
{
    lemma_passed(h, log, 0, (searched(host_at(h, log, 0), recv)->0).0, v, 0, budget(h));
}

/// Whether a search for `v` among `other` has found it, or has not, as `found` says.
pub open spec fn is_decided(
    h: HostView,
    log: Answers,
    other: Seq<Value>,
    v: Value,
    hashed: bool,
    found: bool,
    fuel: nat,
) -> bool {
    exists|at: nat|
        (#[trigger] position_walk(h, log, at, other, v, 0, hashed, fuel)) matches Ok((p, _)) && (p
            < other.len()) == found
}

/// Every value is kept or dropped by whether it was found, in a search that asks
/// the members a program declares.
pub proof fn law_retaining_decides_each(
    h: HostView,
    log: Answers,
    at: nat,
    items: Seq<Value>,
    other: Seq<Value>,
    hashed: bool,
    want: bool,
    done: Seq<bool>,
    fuel: nat,
)
    requires
        done.len() <= items.len(),
        forall|i: int|
            0 <= i < done.len() ==> is_decided(
                h,
                log,
                other,
                items[i],
                hashed,
                #[trigger] done[i] == want,
                fuel,
            ),
    ensures
        retained_walk(h, log, at, items, other, hashed, want, done, fuel) matches Ok((stays, _))
            ==> {
            &&& stays.len() == items.len()
            &&& forall|i: int|
                0 <= i < items.len() ==> is_decided(
                    h,
                    log,
                    other,
                    items[i],
                    hashed,
                    #[trigger] stays[i] == want,
                    fuel,
                )
        },
    decreases items.len() - done.len(),
{
    if done.len() < items.len() {
        let v = items[done.len() as int];
        if let Ok((p, n)) = position_walk(h, log, at, other, v, 0, hashed, fuel) {
            let stay = (p < other.len()) == want;
            assert(is_decided(h, log, other, v, hashed, stay == want, fuel));
            let next = done.push(stay);
            assert forall|i: int| 0 <= i < next.len() implies is_decided(
                h,
                log,
                other,
                items[i],
                hashed,
                #[trigger] next[i] == want,
                fuel,
            ) by {
                if i < done.len() {
                    assert(next[i] == done[i]);
                }
            }
            law_retaining_decides_each(h, log, n, items, other, hashed, want, next, fuel);
        }
    }
}

} // verus!
