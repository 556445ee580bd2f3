//! What a walk has come to before a turn, it keeps: a part that is finished without
//! a further question is the same in every later state, once the turn is on record.
use crate::display::RENDER_DEPTH_LIMIT;
use crate::value::Value;
use crate::walk::{Stop, Turn};
use vstd::prelude::*;

verus! {

use crate::compare::{data_fields, field_values, hash_step};
use crate::display::{
    placeholder,
    plain,
    separator,
    show_couple,
    show_element,
    show_entries,
    show_items,
    show_walk,
    then_render,
    Rendered,
};
use crate::host::HostView;
use crate::value::ObjView;
use crate::walk::{
    all_eq_walk,
    any_entry_walk,
    any_hash_eq_walk,
    consult,
    each_in_walk,
    entries_in_walk,
    entries_walk,
    eq_walk,
    fold_walk,
    hash_eq_walk,
    hash_walk,
    host_at,
    shape_eq_walk,
    sum_walk,
    Answers,
    Outcome,
};

/// Whether a walk has come to an end: it has a result, or it never will.
pub open spec fn is_over<T>(out: Outcome<T>) -> bool {
    !(out matches Err(Stop::Ask(_)))
}

/// Whether a walk that is over used turns from `at` on, and `len` at most.
pub open spec fn used_within<T>(out: Outcome<T>, at: nat, len: nat) -> bool {
    out matches Ok((_, n)) ==> at <= n <= len
}

/// An equality that is decided without a further question stays decided, whatever
/// the member that is run next does to the heap.
pub proof fn law_equality_keeps_what_was_read(
    h: HostView,
    later: HostView,
    log: Answers,
    turn: Turn,
    at: nat,
    a: Value,
    b: Value,
    fuel: nat,
)
    requires
        turn.host@ == h,
        at <= log.len(),
        is_over(eq_walk(h, log, at, a, b, fuel)),
    ensures
        eq_walk(later, log.push(turn), at, a, b, fuel) == eq_walk(h, log, at, a, b, fuel),
        used_within(eq_walk(h, log, at, a, b, fuel), at, log.len()),
    decreases fuel, 0int, 0int,
{
    if fuel > 0 {
        let g = host_at(h, log, at);
        assert(host_at(later, log.push(turn), at) == g);
        if let Ok((None, n)) = consult(g, g.equals_subs, log, at, a, Some(b)) {
            if !(a is Obj && a == b) {
                lemma_shape_kept(h, later, log, turn, n, a, b, (fuel - 1) as nat);
            }
        }
    }
}

proof fn lemma_shape_kept(
    h: HostView,
    later: HostView,
    log: Answers,
    turn: Turn,
    at: nat,
    a: Value,
    b: Value,
    fuel: nat,
)
    requires
        turn.host@ == h,
        at <= log.len(),
        is_over(shape_eq_walk(h, log, at, a, b, fuel)),
    ensures
        shape_eq_walk(later, log.push(turn), at, a, b, fuel)
            == shape_eq_walk(h, log, at, a, b, fuel),
        used_within(shape_eq_walk(h, log, at, a, b, fuel), at, log.len()),
    decreases fuel, 5int, 0int,
{
    let g = host_at(h, log, at);
    assert(host_at(later, log.push(turn), at) == g);
    match (g.obj(a), g.obj(b)) {
        (Some(ObjView::List(xa)), Some(ObjView::List(xb))) => {
            if xa.len() == xb.len() {
                lemma_all_kept(h, later, log, turn, at, xa, xb, 0, fuel);
            }
        },
        (Some(ObjView::SetObj(xa)), Some(ObjView::SetObj(xb))) => {
            if xa.len() == xb.len() {
                lemma_each_kept(h, later, log, turn, at, xa, xb, 0, fuel);
            }
        },
        (Some(ObjView::MapObj(ea)), Some(ObjView::MapObj(eb))) => {
            if ea.len() == eb.len() {
                lemma_entries_in_kept(h, later, log, turn, at, ea, eb, 0, fuel);
            }
        },
        (Some(ObjView::Pair(a1, a2)), Some(ObjView::Pair(b1, b2))) => {
            lemma_all_kept(h, later, log, turn, at, seq![a1, a2], seq![b1, b2], 0, fuel);
        },
        (Some(ObjView::Entry(a1, a2)), Some(ObjView::Entry(b1, b2))) => {
            lemma_all_kept(h, later, log, turn, at, seq![a1, a2], seq![b1, b2], 0, fuel);
        },
        (Some(ObjView::Triple(a1, a2, a3)), Some(ObjView::Triple(b1, b2, b3))) => {
            lemma_all_kept(
                h,
                later,
                log,
                turn,
                at,
                seq![a1, a2, a3],
                seq![b1, b2, b3],
                0,
                fuel,
            );
        },
        (
            Some(
                ObjView::Instance {
                    class: ca,
                    is_data: true,
                    fields: fa,
                    data_from: da,
                    data_len: la,
                },
            ),
            Some(
                ObjView::Instance {
                    class: cb,
                    is_data: true,
                    fields: fb,
                    data_from: db,
                    data_len: lb,
                },
            ),
        ) => {
            let xa = field_values(data_fields(fa, da, la));
            let xb = field_values(data_fields(fb, db, lb));
            if ca == cb && xa.len() == xb.len() {
                lemma_all_kept(h, later, log, turn, at, xa, xb, 0, fuel);
            }
        },
        _ => {},
    }
}

proof fn lemma_all_kept(
    h: HostView,
    later: HostView,
    log: Answers,
    turn: Turn,
    at: nat,
    xs: Seq<Value>,
    ys: Seq<Value>,
    i: int,
    fuel: nat,
)
    requires
        turn.host@ == h,
        at <= log.len(),
        is_over(all_eq_walk(h, log, at, xs, ys, i, fuel)),
    ensures
        all_eq_walk(later, log.push(turn), at, xs, ys, i, fuel)
            == all_eq_walk(h, log, at, xs, ys, i, fuel),
        used_within(all_eq_walk(h, log, at, xs, ys, i, fuel), at, log.len()),
    decreases fuel, 1int, xs.len() - i,
{
    if 0 <= i < xs.len() && i < ys.len() {
        law_equality_keeps_what_was_read(h, later, log, turn, at, xs[i], ys[i], fuel);
        if let Ok((true, n)) = eq_walk(h, log, at, xs[i], ys[i], fuel) {
            lemma_all_kept(h, later, log, turn, n, xs, ys, i + 1, fuel);
        }
    }
}

proof fn lemma_hash_eq_kept(
    h: HostView,
    later: HostView,
    log: Answers,
    turn: Turn,
    at: nat,
    a: Value,
    b: Value,
    fuel: nat,
)
    requires
        turn.host@ == h,
        at <= log.len(),
        is_over(hash_eq_walk(h, log, at, a, b, fuel)),
    ensures
        hash_eq_walk(later, log.push(turn), at, a, b, fuel) == hash_eq_walk(h, log, at, a, b, fuel),
        used_within(hash_eq_walk(h, log, at, a, b, fuel), at, log.len()),
    decreases fuel, 2int, 0int,
{
    if !(a is Obj && a == b) {
        law_hash_keeps_what_was_read(h, later, log, turn, at, a, false, fuel);
        if let Ok((x, n)) = hash_walk(h, log, at, a, false, fuel) {
            law_hash_keeps_what_was_read(h, later, log, turn, n, b, false, fuel);
            if let Ok((y, m)) = hash_walk(h, log, n, b, false, fuel) {
                if x == y {
                    law_equality_keeps_what_was_read(h, later, log, turn, m, a, b, fuel);
                }
            }
        }
    }
}

proof fn lemma_any_kept(
    h: HostView,
    later: HostView,
    log: Answers,
    turn: Turn,
    at: nat,
    x: Value,
    ys: Seq<Value>,
    j: int,
    fuel: nat,
)
    requires
        turn.host@ == h,
        at <= log.len(),
        is_over(any_hash_eq_walk(h, log, at, x, ys, j, fuel)),
    ensures
        any_hash_eq_walk(later, log.push(turn), at, x, ys, j, fuel)
            == any_hash_eq_walk(h, log, at, x, ys, j, fuel),
        used_within(any_hash_eq_walk(h, log, at, x, ys, j, fuel), at, log.len()),
    decreases fuel, 3int, ys.len() - j,
{
    if 0 <= j < ys.len() {
        lemma_hash_eq_kept(h, later, log, turn, at, x, ys[j], fuel);
        if let Ok((false, n)) = hash_eq_walk(h, log, at, x, ys[j], fuel) {
            lemma_any_kept(h, later, log, turn, n, x, ys, j + 1, fuel);
        }
    }
}

proof fn lemma_each_kept(
    h: HostView,
    later: HostView,
    log: Answers,
    turn: Turn,
    at: nat,
    xs: Seq<Value>,
    ys: Seq<Value>,
    i: int,
    fuel: nat,
)
    requires
        turn.host@ == h,
        at <= log.len(),
        is_over(each_in_walk(h, log, at, xs, ys, i, fuel)),
    ensures
        each_in_walk(later, log.push(turn), at, xs, ys, i, fuel)
            == each_in_walk(h, log, at, xs, ys, i, fuel),
        used_within(each_in_walk(h, log, at, xs, ys, i, fuel), at, log.len()),
    decreases fuel, 4int, xs.len() - i,
{
    if 0 <= i < xs.len() {
        lemma_any_kept(h, later, log, turn, at, xs[i], ys, 0, fuel);
        if let Ok((true, n)) = any_hash_eq_walk(h, log, at, xs[i], ys, 0, fuel) {
            lemma_each_kept(h, later, log, turn, n, xs, ys, i + 1, fuel);
        }
    }
}

proof fn lemma_any_entry_kept(
    h: HostView,
    later: HostView,
    log: Answers,
    turn: Turn,
    at: nat,
    e: (Value, Value),
    es: Seq<(Value, Value)>,
    j: int,
    fuel: nat,
)
    requires
        turn.host@ == h,
        at <= log.len(),
        is_over(any_entry_walk(h, log, at, e, es, j, fuel)),
    ensures
        any_entry_walk(later, log.push(turn), at, e, es, j, fuel)
            == any_entry_walk(h, log, at, e, es, j, fuel),
        used_within(any_entry_walk(h, log, at, e, es, j, fuel), at, log.len()),
    decreases fuel, 3int, es.len() - j,
{
    if 0 <= j < es.len() {
        lemma_hash_eq_kept(h, later, log, turn, at, e.0, es[j].0, fuel);
        match hash_eq_walk(h, log, at, e.0, es[j].0, fuel) {
            Ok((false, n)) => {
                lemma_any_entry_kept(h, later, log, turn, n, e, es, j + 1, fuel);
            },
            Ok((true, n)) => {
                law_equality_keeps_what_was_read(h, later, log, turn, n, e.1, es[j].1, fuel);
                if let Ok((false, m)) = eq_walk(h, log, n, e.1, es[j].1, fuel) {
                    lemma_any_entry_kept(h, later, log, turn, m, e, es, j + 1, fuel);
                }
            },
            Err(_) => {},
        }
    }
}

proof fn lemma_entries_in_kept(
    h: HostView,
    later: HostView,
    log: Answers,
    turn: Turn,
    at: nat,
    xs: Seq<(Value, Value)>,
    ys: Seq<(Value, Value)>,
    i: int,
    fuel: nat,
)
    requires
        turn.host@ == h,
        at <= log.len(),
        is_over(entries_in_walk(h, log, at, xs, ys, i, fuel)),
    ensures
        entries_in_walk(later, log.push(turn), at, xs, ys, i, fuel)
            == entries_in_walk(h, log, at, xs, ys, i, fuel),
        used_within(entries_in_walk(h, log, at, xs, ys, i, fuel), at, log.len()),
    decreases fuel, 4int, xs.len() - i,
{
    if 0 <= i < xs.len() {
        lemma_any_entry_kept(h, later, log, turn, at, xs[i], ys, 0, fuel);
        if let Ok((true, n)) = any_entry_walk(h, log, at, xs[i], ys, 0, fuel) {
            lemma_entries_in_kept(h, later, log, turn, n, xs, ys, i + 1, fuel);
        }
    }
}

/// A hash that is worked out without a further question stays as it is, whatever
/// the member that is run next does to the heap.
pub proof fn law_hash_keeps_what_was_read(
    h: HostView,
    later: HostView,
    log: Answers,
    turn: Turn,
    at: nat,
    v: Value,
    long: bool,
    fuel: nat,
)
    requires
        turn.host@ == h,
        at <= log.len(),
        is_over(hash_walk(h, log, at, v, long, fuel)),
    ensures
        hash_walk(later, log.push(turn), at, v, long, fuel) == hash_walk(h, log, at, v, long, fuel),
        used_within(hash_walk(h, log, at, v, long, fuel), at, log.len()),
    decreases fuel, 0int, 0int,
{
    if fuel > 0 {
        let g = host_at(h, log, at);
        assert(host_at(later, log.push(turn), at) == g);
        let inner = (fuel - 1) as nat;
        match consult(g, g.hashcode_subs, log, at, v, None) {
            Err(_) => {},
            Ok((Some(_), n)) => {
                assert(host_at(later, log.push(turn), n) == host_at(h, log, n));
            },
            Ok((None, n)) => {
                assert(host_at(later, log.push(turn), n) == host_at(h, log, n));
                match host_at(h, log, n).obj(v) {
                    Some(ObjView::List(items)) => {
                        lemma_fold_kept(h, later, log, turn, n, items, 0, 1, inner);
                    },
                    Some(ObjView::SetObj(items)) => {
                        lemma_sum_kept(h, later, log, turn, n, items, 0, 0, inner);
                    },
                    Some(ObjView::MapObj(es)) => {
                        lemma_entries_kept(h, later, log, turn, n, es, 0, 0, inner);
                    },
                    Some(ObjView::Pair(a, b)) => {
                        lemma_couple_hash_kept(h, later, log, turn, n, a, b, inner);
                    },
                    Some(ObjView::Entry(a, b)) => {
                        lemma_couple_hash_kept(h, later, log, turn, n, a, b, inner);
                    },
                    _ => {},
                }
            },
        }
    }
}

proof fn lemma_couple_hash_kept(
    h: HostView,
    later: HostView,
    log: Answers,
    turn: Turn,
    at: nat,
    a: Value,
    b: Value,
    fuel: nat,
)
    requires
        turn.host@ == h,
        at <= log.len(),
        is_over(hash_walk(h, log, at, a, false, fuel)),
        hash_walk(h, log, at, a, false, fuel) matches Ok((_, n)) ==> is_over(
            hash_walk(h, log, n, b, false, fuel),
        ),
    ensures
        hash_walk(later, log.push(turn), at, a, false, fuel) == hash_walk(
            h,
            log,
            at,
            a,
            false,
            fuel,
        ),
        used_within(hash_walk(h, log, at, a, false, fuel), at, log.len()),
        hash_walk(h, log, at, a, false, fuel) matches Ok((_, n)) ==> {
            &&& hash_walk(later, log.push(turn), n, b, false, fuel) == hash_walk(
                h,
                log,
                n,
                b,
                false,
                fuel,
            )
            &&& used_within(hash_walk(h, log, n, b, false, fuel), n, log.len())
        },
    decreases fuel, 1int, 0int,
{
    law_hash_keeps_what_was_read(h, later, log, turn, at, a, false, fuel);
    if let Ok((_, n)) = hash_walk(h, log, at, a, false, fuel) {
        law_hash_keeps_what_was_read(h, later, log, turn, n, b, false, fuel);
    }
}

proof fn lemma_fold_kept(
    h: HostView,
    later: HostView,
    log: Answers,
    turn: Turn,
    at: nat,
    items: Seq<Value>,
    i: int,
    acc: i32,
    fuel: nat,
)
    requires
        turn.host@ == h,
        at <= log.len(),
        is_over(fold_walk(h, log, at, items, i, acc, fuel)),
    ensures
        fold_walk(later, log.push(turn), at, items, i, acc, fuel)
            == fold_walk(h, log, at, items, i, acc, fuel),
        used_within(fold_walk(h, log, at, items, i, acc, fuel), at, log.len()),
    decreases fuel, 1int, items.len() - i,
{
    if 0 <= i < items.len() {
        law_hash_keeps_what_was_read(h, later, log, turn, at, items[i], false, fuel);
        if let Ok((e, n)) = hash_walk(h, log, at, items[i], false, fuel) {
            lemma_fold_kept(h, later, log, turn, n, items, i + 1, hash_step(acc, e), fuel);
        }
    }
}

proof fn lemma_sum_kept(
    h: HostView,
    later: HostView,
    log: Answers,
    turn: Turn,
    at: nat,
    items: Seq<Value>,
    i: int,
    acc: i32,
    fuel: nat,
)
    requires
        turn.host@ == h,
        at <= log.len(),
        is_over(sum_walk(h, log, at, items, i, acc, fuel)),
    ensures
        sum_walk(later, log.push(turn), at, items, i, acc, fuel)
            == sum_walk(h, log, at, items, i, acc, fuel),
        used_within(sum_walk(h, log, at, items, i, acc, fuel), at, log.len()),
    decreases fuel, 1int, items.len() - i,
{
    if 0 <= i < items.len() {
        law_hash_keeps_what_was_read(h, later, log, turn, at, items[i], false, fuel);
        if let Ok((e, n)) = hash_walk(h, log, at, items[i], false, fuel) {
            lemma_sum_kept(h, later, log, turn, n, items, i + 1, acc.wrapping_add(e), fuel);
        }
    }
}

proof fn lemma_entries_kept(
    h: HostView,
    later: HostView,
    log: Answers,
    turn: Turn,
    at: nat,
    es: Seq<(Value, Value)>,
    i: int,
    acc: i32,
    fuel: nat,
)
    requires
        turn.host@ == h,
        at <= log.len(),
        is_over(entries_walk(h, log, at, es, i, acc, fuel)),
    ensures
        entries_walk(later, log.push(turn), at, es, i, acc, fuel)
            == entries_walk(h, log, at, es, i, acc, fuel),
        used_within(entries_walk(h, log, at, es, i, acc, fuel), at, log.len()),
    decreases fuel, 1int, es.len() - i,
{
    if 0 <= i < es.len() {
        law_hash_keeps_what_was_read(h, later, log, turn, at, es[i].0, false, fuel);
        if let Ok((k, n)) = hash_walk(h, log, at, es[i].0, false, fuel) {
            law_hash_keeps_what_was_read(h, later, log, turn, n, es[i].1, false, fuel);
            if let Ok((x, m)) = hash_walk(h, log, n, es[i].1, false, fuel) {
                lemma_entries_kept(
                    h,
                    later,
                    log,
                    turn,
                    m,
                    es,
                    i + 1,
                    acc.wrapping_add(k ^ x),
                    fuel,
                );
            }
        }
    }
}

/// A text that is written without a further question stays as it is, whatever the
/// member that is run next does to the heap: what has been printed of a collection
/// is not printed anew.
pub proof fn law_text_keeps_what_was_read(
    h: HostView,
    later: HostView,
    log: Answers,
    turn: Turn,
    at: nat,
    v: Value,
    stack: Seq<u32>,
)
    requires
        turn.host@ == h,
        at <= log.len(),
        is_over(show_walk(h, log, at, v, stack)),
    ensures
        show_walk(later, log.push(turn), at, v, stack) == show_walk(h, log, at, v, stack),
        used_within(show_walk(h, log, at, v, stack), at, log.len()),
    decreases RENDER_DEPTH_LIMIT - stack.len(), 0int, 0int,
{
    let g = host_at(h, log, at);
    assert(host_at(later, log.push(turn), at) == g);
    match consult(g, g.tostring_subs, log, at, v, None) {
        Err(_) => {},
        Ok((Some(_), n)) => {
            assert(host_at(later, log.push(turn), n) == host_at(h, log, n));
        },
        Ok((None, n)) => {
            let f = host_at(h, log, n);
            assert(host_at(later, log.push(turn), n) == f);
            let inner = stack.push(v->Obj_0);
            if stack.len() < RENDER_DEPTH_LIMIT {
                match f.obj(v) {
                    Some(ObjView::List(items)) => {
                        lemma_items_kept(h, later, log, turn, n, items, 0, inner, plain("["@));
                    },
                    Some(ObjView::SetObj(items)) => {
                        lemma_items_kept(h, later, log, turn, n, items, 0, inner, plain("["@));
                    },
                    Some(ObjView::MapObj(es)) => {
                        lemma_shown_entries_kept(h, later, log, turn, n, es, 0, inner, plain("{"@));
                    },
                    Some(ObjView::Pair(a, b)) => {
                        lemma_couple_kept(h, later, log, turn, n, "("@, a, ", "@, b, ")"@, inner);
                    },
                    Some(ObjView::Entry(a, b)) => {
                        lemma_couple_kept(h, later, log, turn, n, ""@, a, "="@, b, ""@, inner);
                    },
                    _ => {},
                }
            }
        },
    }
}

proof fn lemma_element_kept(
    h: HostView,
    later: HostView,
    log: Answers,
    turn: Turn,
    at: nat,
    v: Value,
    in_map: bool,
    stack: Seq<u32>,
)
    requires
        turn.host@ == h,
        at <= log.len(),
        is_over(show_element(h, log, at, v, in_map, stack)),
    ensures
        show_element(later, log.push(turn), at, v, in_map, stack)
            == show_element(h, log, at, v, in_map, stack),
        used_within(show_element(h, log, at, v, in_map, stack), at, log.len()),
    decreases RENDER_DEPTH_LIMIT - stack.len(), 1int, 0int,
{
    if placeholder(v, stack, in_map) is None {
        law_text_keeps_what_was_read(h, later, log, turn, at, v, stack);
    }
}

proof fn lemma_items_kept(
    h: HostView,
    later: HostView,
    log: Answers,
    turn: Turn,
    at: nat,
    items: Seq<Value>,
    i: int,
    stack: Seq<u32>,
    done: Rendered,
)
    requires
        turn.host@ == h,
        at <= log.len(),
        is_over(show_items(h, log, at, items, i, stack, done)),
    ensures
        show_items(later, log.push(turn), at, items, i, stack, done)
            == show_items(h, log, at, items, i, stack, done),
        used_within(show_items(h, log, at, items, i, stack, done), at, log.len()),
    decreases RENDER_DEPTH_LIMIT - stack.len(), 2int, items.len() - i,
{
    if 0 <= i < items.len() {
        lemma_element_kept(h, later, log, turn, at, items[i], false, stack);
        if let Ok((r, n)) = show_element(h, log, at, items[i], false, stack) {
            let next = then_render(
                then_render(done, r),
                plain(separator(i, items.len() as int)),
            );
            lemma_items_kept(h, later, log, turn, n, items, i + 1, stack, next);
        }
    }
}

proof fn lemma_shown_entries_kept(
    h: HostView,
    later: HostView,
    log: Answers,
    turn: Turn,
    at: nat,
    es: Seq<(Value, Value)>,
    i: int,
    stack: Seq<u32>,
    done: Rendered,
)
    requires
        turn.host@ == h,
        at <= log.len(),
        is_over(show_entries(h, log, at, es, i, stack, done)),
    ensures
        show_entries(later, log.push(turn), at, es, i, stack, done)
            == show_entries(h, log, at, es, i, stack, done),
        used_within(show_entries(h, log, at, es, i, stack, done), at, log.len()),
    decreases RENDER_DEPTH_LIMIT - stack.len(), 2int, es.len() - i,
{
    if 0 <= i < es.len() {
        lemma_element_kept(h, later, log, turn, at, es[i].0, true, stack);
        if let Ok((k, n)) = show_element(h, log, at, es[i].0, true, stack) {
            lemma_element_kept(h, later, log, turn, n, es[i].1, true, stack);
            if let Ok((x, m)) = show_element(h, log, n, es[i].1, true, stack) {
                let next = then_render(
                    then_render(then_render(then_render(done, k), plain("="@)), x),
                    plain(separator(i, es.len() as int)),
                );
                lemma_shown_entries_kept(h, later, log, turn, m, es, i + 1, stack, next);
            }
        }
    }
}

proof fn lemma_couple_kept(
    h: HostView,
    later: HostView,
    log: Answers,
    turn: Turn,
    at: nat,
    open: Seq<char>,
    a: Value,
    middle: Seq<char>,
    b: Value,
    close: Seq<char>,
    stack: Seq<u32>,
)
    requires
        turn.host@ == h,
        at <= log.len(),
        is_over(show_couple(h, log, at, open, a, middle, b, close, stack)),
    ensures
        show_couple(later, log.push(turn), at, open, a, middle, b, close, stack)
            == show_couple(h, log, at, open, a, middle, b, close, stack),
        used_within(show_couple(h, log, at, open, a, middle, b, close, stack), at, log.len()),
    decreases RENDER_DEPTH_LIMIT - stack.len(), 1int, 0int,
{
    law_text_keeps_what_was_read(h, later, log, turn, at, a, stack);
    if let Ok((_, n)) = show_walk(h, log, at, a, stack) {
        law_text_keeps_what_was_read(h, later, log, turn, n, b, stack);
    }
}

} // verus!
