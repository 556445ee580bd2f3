//! Equality and hashing with user overrides in play.
//!
//! A class may declare its own `equals` and `hashCode`, and the structural walk
//! over a container reaches instances of it. Running such a member is the
//! VM's work, so a walk is a conversation: it is given the turns it has taken so
//! far, in order, and either finishes or says which member to run next. The
//! caller runs it and appends the turn: the answer, and the state in which the
//! walk had come to ask.
//!
//! The member may change the heap. Nothing that the walk has read by then changes
//! with it: up to each turn the walk reads the state of that turn, and what it
//! does behind the last turn reads the state as it is now.
use crate::compare::{data_values, depth_budget, value_eq_within, value_hash_within};
use crate::host::Host;
use crate::table::Table;
use crate::text::same;
use crate::value::{truthy, HeapObj, Value};
use std::rc::Rc;
use vstd::prelude::*;

verus! {

use crate::compare::{budget, data_fields, eq_within, field_values, hash_step, hash_within};
use crate::host::HostView;
use crate::value::{holds, ObjView};

/// A user member to run: the subroutine, its receiver, and the argument of an
/// `equals`.
#[derive(Clone, Copy, Debug, PartialEq, Eq, Structural)]
pub struct Call {
    pub sub: u16,
    pub recv: Value,
    pub other: Option<Value>,
}

/// Why a walk has not finished.
#[derive(Clone, Copy, Debug, PartialEq, Eq, Structural)]
pub enum Stop {
    /// A user member has to be run first.
    Ask(Call),
    /// The values contain themselves and the walk has no end.
    TooDeep,
}

/// What a walk has come to: a result and how many answers it used, or why it
/// stopped.
pub type Outcome<T> = Result<(T, nat), Stop>;

/// A member that was run for a walk: the state in which the walk asked for it, and
/// what it answered. `None` is a member that could not be run; the walk then goes
/// on as if there were none.
pub struct Turn {
    pub host: Rc<Host>,
    pub answer: Option<Value>,
}

/// The turns a walk has taken so far.
pub type Answers = Seq<Turn>;

/// The state that a walk reads behind its first `at` turns, where `h` is the state
/// now.
pub open spec fn host_at(h: HostView, log: Answers, at: nat) -> HostView {
    if at < log.len() {
        log[at as int].host@
    } else {
        h
    }
}

/// The state that a walk reads behind its first `at` turns.
pub fn host_behind<'a>(h: &'a Host, answers: &'a Vec<Turn>, at: usize) -> (g: &'a Host)
    ensures
        g@ == host_at(h@, answers@, at as nat),
{
    if at < answers.len() {
        &*answers[at].host
    } else {
        h
    }
}

/// The state in which a walk starts.
pub fn host_before<'a>(h: &'a Host, answers: &'a Vec<Turn>) -> (g: &'a Host)
    ensures
        g@ == host_at(h@, answers@, 0),
{
    host_behind(h, answers, 0)
}

/// The answer of the member that `subs` registers for the class of `recv`:
/// `None` when there is none.
pub open spec fn consult(
    h: HostView,
    subs: Map<Seq<char>, u16>,
    log: Answers,
    at: nat,
    recv: Value,
    other: Option<Value>,
) -> Outcome<Option<Value>> {
    match h.class_of(recv) {
        None => Ok((None, at)),
        Some(class) => if !subs.contains_key(class) {
            Ok((None, at))
        } else if at < log.len() {
            Ok((log[at as int].answer, at + 1))
        } else {
            Err(Stop::Ask(Call { sub: subs[class], recv, other }))
        },
    }
}

/// Kotlin `a == b`: the left operand's `equals` when its class declares one,
/// else identity, else structural equality whose parts are compared in the same
/// way.
pub open spec fn eq_walk(h: HostView, log: Answers, at: nat, a: Value, b: Value, fuel: nat) -> Outcome<
    bool,
>
    decreases fuel, 0int, 0int,
{
    if fuel == 0 {
        Err(Stop::TooDeep)
    } else {
        let g = host_at(h, log, at);
        match consult(g, g.equals_subs, log, at, a, Some(b)) {
            Err(s) => Err(s),
            Ok((Some(r), n)) => Ok((holds(r), n)),
            Ok((None, n)) => if a is Obj && a == b {
                Ok((true, n))
            } else {
                shape_eq_walk(h, log, n, a, b, (fuel - 1) as nat)
            },
        }
    }
}

/// Structural equality of two values that declare no `equals`.
pub open spec fn shape_eq_walk(
    h: HostView,
    log: Answers,
    at: nat,
    a: Value,
    b: Value,
    fuel: nat,
) -> Outcome<bool>
    decreases fuel, 5int, 0int,
{
    let g = host_at(h, log, at);
    match (g.obj(a), g.obj(b)) {
        (Some(ObjView::List(xa)), Some(ObjView::List(xb))) => if xa.len() != xb.len() {
            Ok((false, at))
        } else {
            all_eq_walk(h, log, at, xa, xb, 0, fuel)
        },
        (Some(ObjView::SetObj(xa)), Some(ObjView::SetObj(xb))) => if xa.len() != xb.len() {
            Ok((false, at))
        } else {
            each_in_walk(h, log, at, xa, xb, 0, fuel)
        },
        (Some(ObjView::MapObj(ea)), Some(ObjView::MapObj(eb))) => if ea.len() != eb.len() {
            Ok((false, at))
        } else {
            entries_in_walk(h, log, at, ea, eb, 0, fuel)
        },
        (Some(ObjView::Pair(a1, a2)), Some(ObjView::Pair(b1, b2))) => all_eq_walk(
            h,
            log,
            at,
            seq![a1, a2],
            seq![b1, b2],
            0,
            fuel,
        ),
        (Some(ObjView::Entry(a1, a2)), Some(ObjView::Entry(b1, b2))) => all_eq_walk(
            h,
            log,
            at,
            seq![a1, a2],
            seq![b1, b2],
            0,
            fuel,
        ),
        (Some(ObjView::Triple(a1, a2, a3)), Some(ObjView::Triple(b1, b2, b3))) => all_eq_walk(
            h,
            log,
            at,
            seq![a1, a2, a3],
            seq![b1, b2, b3],
            0,
            fuel,
        ),
        (
            Some(
                ObjView::Instance {
                    class: ca,
                    is_data: true,
                    fields: fa,
                    data_from: da,
                    data_len: la,
                },
            ),
            Some(
                ObjView::Instance {
                    class: cb,
                    is_data: true,
                    fields: fb,
                    data_from: db,
                    data_len: lb,
                },
            ),
        ) => {
            let xa = field_values(data_fields(fa, da, la));
            let xb = field_values(data_fields(fb, db, lb));
            if ca != cb || xa.len() != xb.len() {
                Ok((false, at))
            } else {
                all_eq_walk(h, log, at, xa, xb, 0, fuel)
            }
        },
        _ => match eq_within(g, a, b, fuel) {
            Some(r) => Ok((r, at)),
            None => Err(Stop::TooDeep),
        },
    }
}

/// Whether the values from position `i` on are pairwise equal.
pub open spec fn all_eq_walk(
    h: HostView,
    log: Answers,
    at: nat,
    xs: Seq<Value>,
    ys: Seq<Value>,
    i: int,
    fuel: nat,
) -> Outcome<bool>
    decreases fuel, 1int, xs.len() - i,
{
    if i < 0 || i >= xs.len() || i >= ys.len() {
        Ok((true, at))
    } else {
        match eq_walk(h, log, at, xs[i], ys[i], fuel) {
            Ok((true, n)) => all_eq_walk(h, log, n, xs, ys, i + 1, fuel),
            other => other,
        }
    }
}

/// Membership equality of the hash-based containers: the same object, or equal
/// hashes and then `==`.
pub open spec fn hash_eq_walk(
    h: HostView,
    log: Answers,
    at: nat,
    a: Value,
    b: Value,
    fuel: nat,
) -> Outcome<bool>
    decreases fuel, 2int, 0int,
{
    if a is Obj && a == b {
        Ok((true, at))
    } else {
        match hash_walk(h, log, at, a, false, fuel) {
            Err(s) => Err(s),
            Ok((x, n)) => match hash_walk(h, log, n, b, false, fuel) {
                Err(s) => Err(s),
                Ok((y, m)) => if x == y {
                    eq_walk(h, log, m, a, b, fuel)
                } else {
                    Ok((false, m))
                },
            },
        }
    }
}

/// Whether one of `ys` from position `j` on is hash-equal to `x`.
pub open spec fn any_hash_eq_walk(
    h: HostView,
    log: Answers,
    at: nat,
    x: Value,
    ys: Seq<Value>,
    j: int,
    fuel: nat,
) -> Outcome<bool>
    decreases fuel, 3int, ys.len() - j,
{
    if j < 0 || j >= ys.len() {
        Ok((false, at))
    } else {
        match hash_eq_walk(h, log, at, x, ys[j], fuel) {
            Ok((false, n)) => any_hash_eq_walk(h, log, n, x, ys, j + 1, fuel),
            other => other,
        }
    }
}

/// Whether each of `xs` from position `i` on is hash-equal to one of `ys`.
pub open spec fn each_in_walk(
    h: HostView,
    log: Answers,
    at: nat,
    xs: Seq<Value>,
    ys: Seq<Value>,
    i: int,
    fuel: nat,
) -> Outcome<bool>
    decreases fuel, 4int, xs.len() - i,
{
    if i < 0 || i >= xs.len() {
        Ok((true, at))
    } else {
        match any_hash_eq_walk(h, log, at, xs[i], ys, 0, fuel) {
            Ok((true, n)) => each_in_walk(h, log, n, xs, ys, i + 1, fuel),
            other => other,
        }
    }
}

/// Whether one of the entries `es` from position `j` on has a hash-equal key
/// and an equal value.
pub open spec fn any_entry_walk(
    h: HostView,
    log: Answers,
    at: nat,
    e: (Value, Value),
    es: Seq<(Value, Value)>,
    j: int,
    fuel: nat,
) -> Outcome<bool>
    decreases fuel, 3int, es.len() - j,
{
    if j < 0 || j >= es.len() {
        Ok((false, at))
    } else {
        match hash_eq_walk(h, log, at, e.0, es[j].0, fuel) {
            Err(s) => Err(s),
            Ok((false, n)) => any_entry_walk(h, log, n, e, es, j + 1, fuel),
            Ok((true, n)) => match eq_walk(h, log, n, e.1, es[j].1, fuel) {
                Ok((false, m)) => any_entry_walk(h, log, m, e, es, j + 1, fuel),
                other => other,
            },
        }
    }
}

/// Whether each of the entries `xs` from position `i` on is one of `ys`.
pub open spec fn entries_in_walk(
    h: HostView,
    log: Answers,
    at: nat,
    xs: Seq<(Value, Value)>,
    ys: Seq<(Value, Value)>,
    i: int,
    fuel: nat,
) -> Outcome<bool>
    decreases fuel, 4int, xs.len() - i,
{
    if i < 0 || i >= xs.len() {
        Ok((true, at))
    } else {
        match any_entry_walk(h, log, at, xs[i], ys, 0, fuel) {
            Ok((true, n)) => entries_in_walk(h, log, n, xs, ys, i + 1, fuel),
            other => other,
        }
    }
}

/// `hashCode()` with overrides: the class's own when it declares one, else the
/// structural fold over parts hashed in the same way.
pub open spec fn hash_walk(
    h: HostView,
    log: Answers,
    at: nat,
    v: Value,
    long: bool,
    fuel: nat,
) -> Outcome<i32>
    decreases fuel, 0int, 0int,
{
    if fuel == 0 {
        Err(Stop::TooDeep)
    } else {
        let g = host_at(h, log, at);
        match consult(g, g.hashcode_subs, log, at, v, None) {
            Err(s) => Err(s),
            Ok((Some(r), n)) => Ok(((host_at(h, log, n).to_int(r) as i64) as i32, n)),
            Ok((None, n)) => {
                let inner = (fuel - 1) as nat;
                match host_at(h, log, n).obj(v) {
                    Some(ObjView::List(items)) => fold_walk(h, log, n, items, 0, 1, inner),
                    Some(ObjView::SetObj(items)) => sum_walk(h, log, n, items, 0, 0, inner),
                    Some(ObjView::MapObj(es)) => entries_walk(h, log, n, es, 0, 0, inner),
                    Some(ObjView::Pair(a, b)) => match hash_walk(h, log, n, a, false, inner) {
                        Err(s) => Err(s),
                        Ok((x, m)) => match hash_walk(h, log, m, b, false, inner) {
                            Err(s) => Err(s),
                            Ok((y, k)) => Ok((hash_step(x, y), k)),
                        },
                    },
                    Some(ObjView::Entry(a, b)) => match hash_walk(h, log, n, a, false, inner) {
                        Err(s) => Err(s),
                        Ok((x, m)) => match hash_walk(h, log, m, b, false, inner) {
                            Err(s) => Err(s),
                            Ok((y, k)) => Ok((x ^ y, k)),
                        },
                    },
                    _ => match hash_within(host_at(h, log, n), v, long, fuel) {
                        Some(r) => Ok((r, n)),
                        None => Err(Stop::TooDeep),
                    },
                }
            },
        }
    }
}

/// The `List` fold of `items` from position `i` on, onto `acc`.
pub open spec fn fold_walk(
    h: HostView,
    log: Answers,
    at: nat,
    items: Seq<Value>,
    i: int,
    acc: i32,
    fuel: nat,
) -> Outcome<i32>
    decreases fuel, 1int, items.len() - i,
{
    if i < 0 || i >= items.len() {
        Ok((acc, at))
    } else {
        match hash_walk(h, log, at, items[i], false, fuel) {
            Err(s) => Err(s),
            Ok((e, n)) => fold_walk(h, log, n, items, i + 1, hash_step(acc, e), fuel),
        }
    }
}

/// The sum of the hashes of `items` from position `i` on, onto `acc`.
pub open spec fn sum_walk(
    h: HostView,
    log: Answers,
    at: nat,
    items: Seq<Value>,
    i: int,
    acc: i32,
    fuel: nat,
) -> Outcome<i32>
    decreases fuel, 1int, items.len() - i,
{
    if i < 0 || i >= items.len() {
        Ok((acc, at))
    } else {
        match hash_walk(h, log, at, items[i], false, fuel) {
            Err(s) => Err(s),
            Ok((e, n)) => sum_walk(h, log, n, items, i + 1, acc.wrapping_add(e), fuel),
        }
    }
}

/// The sum of the entry hashes of `es` from position `i` on, onto `acc`.
pub open spec fn entries_walk(
    h: HostView,
    log: Answers,
    at: nat,
    es: Seq<(Value, Value)>,
    i: int,
    acc: i32,
    fuel: nat,
) -> Outcome<i32>
    decreases fuel, 1int, es.len() - i,
{
    if i < 0 || i >= es.len() {
        Ok((acc, at))
    } else {
        match hash_walk(h, log, at, es[i].0, false, fuel) {
            Err(s) => Err(s),
            Ok((k, n)) => match hash_walk(h, log, n, es[i].1, false, fuel) {
                Err(s) => Err(s),
                Ok((x, m)) => entries_walk(h, log, m, es, i + 1, acc.wrapping_add(k ^ x), fuel),
            },
        }
    }
}

// ── Running the walks ───────────────────────────────────────────────────────

/// The turns of a walk and how many of them have been used.
pub struct Log<'a> {
    pub answers: &'a Vec<Turn>,
    pub at: usize,
}

/// Whether `r`, reached with `at` answers used, is what the walk comes to.
pub open spec fn reached<T>(r: Result<T, Stop>, at: usize, out: Outcome<T>) -> bool {
    match r {
        Ok(x) => out == Ok::<(T, nat), Stop>((x, at as nat)),
        Err(s) => out == Err::<(T, nat), Stop>(s),
    }
}

impl<'a> Log<'a> {
    /// A walk that has used no turn yet.
    pub fn new(answers: &'a Vec<Turn>) -> (log: Self)
        ensures
            log.answers == answers,
            log.at == 0,
    {
        Log { answers, at: 0 }
    }

    /// The state that the walk reads now.
    pub fn now<'b>(&self, h: &'b Host) -> (g: &'b Host)
        where
            'a: 'b,

        ensures
            g@ == host_at(h@, self.answers@, self.at as nat),
    {
        let answers: &'a Vec<Turn> = self.answers;
        host_behind(h, answers, self.at)
    }

    fn consult(
        &mut self,
        h: &Host,
        subs: &Table<u16>,
        recv: Value,
        other: Option<Value>,
    ) -> (r: Result<Option<Value>, Stop>)
        requires
            old(self).at <= old(self).answers@.len(),
        ensures
            final(self).answers == old(self).answers,
            final(self).at <= final(self).answers@.len(),
            reached(
                r,
                final(self).at,
                consult(h@, subs@, old(self).answers@, old(self).at as nat, recv, other),
            ),
    {
        match h.obj(recv) {
            Some(HeapObj::Instance { class, .. }) => match subs.get(class.as_str()) {
                None => Ok(None),
                Some(sub) => if self.at < self.answers.len() {
                    let r: Option<Value> = self.answers[self.at].answer;
                    self.at = self.at + 1;
                    Ok(r)
                } else {
                    Err(Stop::Ask(Call { sub: *sub, recv, other }))
                },
            },
            _ => Ok(None),
        }
    }

    /// The answer of the `toString()` override of `recv`'s class, if it has one.
    pub fn consult_tostring(&mut self, h: &Host, recv: Value) -> (r: Result<Option<Value>, Stop>)
        requires
            old(self).at <= old(self).answers@.len(),
        ensures
            final(self).answers == old(self).answers,
            final(self).at <= final(self).answers@.len(),
            reached(
                r,
                final(self).at,
                ({
                    let g = host_at(h@, old(self).answers@, old(self).at as nat);
                    consult(
                        g,
                        g.tostring_subs,
                        old(self).answers@,
                        old(self).at as nat,
                        recv,
                        None,
                    )
                }),
            ),
    {
        let g: &Host = self.now(h);
        self.consult(g, &g.tostring_subs, recv, None)
    }

    /// Kotlin `a == b` within a nesting budget.
    pub fn equal(&mut self, h: &Host, a: Value, b: Value, fuel: usize) -> (r: Result<bool, Stop>)
        requires
            old(self).at <= old(self).answers@.len(),
        ensures
            final(self).answers == old(self).answers,
            final(self).at <= final(self).answers@.len(),
            reached(
                r,
                final(self).at,
                eq_walk(h@, old(self).answers@, old(self).at as nat, a, b, fuel as nat),
            ),
        decreases fuel, 0int, 0int,
    {
        if fuel == 0 {
            return Err(Stop::TooDeep);
        }
        let g: &Host = self.now(h);
        match self.consult(g, &g.equals_subs, a, Some(b)) {
            Err(s) => {
                return Err(s);
            },
            Ok(Some(r)) => {
                return Ok(truthy(&r));
            },
            Ok(None) => {},
        }
        if let Value::Obj(x) = a {
            if let Value::Obj(y) = b {
                if x == y {
                    return Ok(true);
                }
            }
        }
        self.shape_equal(h, a, b, fuel - 1)
    }

    fn shape_equal(&mut self, h: &Host, a: Value, b: Value, fuel: usize) -> (r: Result<bool, Stop>)
        requires
            old(self).at <= old(self).answers@.len(),
        ensures
            final(self).answers == old(self).answers,
            final(self).at <= final(self).answers@.len(),
            reached(
                r,
                final(self).at,
                shape_eq_walk(h@, old(self).answers@, old(self).at as nat, a, b, fuel as nat),
            ),
        decreases fuel, 5int, 0int,
    {
        let g: &Host = self.now(h);
        match (g.obj(a), g.obj(b)) {
            (Some(HeapObj::List(xa)), Some(HeapObj::List(xb))) => if xa.len() != xb.len() {
                Ok(false)
            } else {
                self.all_equal(h, xa, xb, fuel)
            },
            (Some(HeapObj::SetObj(xa)), Some(HeapObj::SetObj(xb))) => if xa.len() != xb.len() {
                Ok(false)
            } else {
                self.each_in(h, xa, xb, fuel)
            },
            (Some(HeapObj::MapObj(ea)), Some(HeapObj::MapObj(eb))) => if ea.len() != eb.len() {
                Ok(false)
            } else {
                self.entries_in(h, ea, eb, fuel)
            },
            (Some(HeapObj::Pair(a1, a2)), Some(HeapObj::Pair(b1, b2))) => {
                let xa: Vec<Value> = vec![*a1, *a2];
                let xb: Vec<Value> = vec![*b1, *b2];
                assert(xa@ =~= seq![*a1, *a2] && xb@ =~= seq![*b1, *b2]);
                self.all_equal(h, &xa, &xb, fuel)
            },
            (Some(HeapObj::Entry(a1, a2)), Some(HeapObj::Entry(b1, b2))) => {
                let xa: Vec<Value> = vec![*a1, *a2];
                let xb: Vec<Value> = vec![*b1, *b2];
                assert(xa@ =~= seq![*a1, *a2] && xb@ =~= seq![*b1, *b2]);
                self.all_equal(h, &xa, &xb, fuel)
            },
            (Some(HeapObj::Triple(a1, a2, a3)), Some(HeapObj::Triple(b1, b2, b3))) => {
                let xa: Vec<Value> = vec![*a1, *a2, *a3];
                let xb: Vec<Value> = vec![*b1, *b2, *b3];
                assert(xa@ =~= seq![*a1, *a2, *a3] && xb@ =~= seq![*b1, *b2, *b3]);
                self.all_equal(h, &xa, &xb, fuel)
            },
            (
                Some(
                    HeapObj::Instance {
                        class: ca,
                        is_data: true,
                        fields: fa,
                        data_from: da,
                        data_len: la,
                    },
                ),
                Some(
                    HeapObj::Instance {
                        class: cb,
                        is_data: true,
                        fields: fb,
                        data_from: db,
                        data_len: lb,
                    },
                ),
            ) => {
                let xa: Vec<Value> = data_values(fa, *da, *la);
                let xb: Vec<Value> = data_values(fb, *db, *lb);
                if !same(ca.as_str(), cb.as_str()) || xa.len() != xb.len() {
                    Ok(false)
                } else {
                    self.all_equal(h, &xa, &xb, fuel)
                }
            },
            _ => match value_eq_within(g, a, b, fuel) {
                Some(r) => Ok(r),
                None => Err(Stop::TooDeep),
            },
        }
    }

    fn all_equal(&mut self, h: &Host, xs: &Vec<Value>, ys: &Vec<Value>, fuel: usize) -> (r: Result<
        bool,
        Stop,
    >)
        requires
            old(self).at <= old(self).answers@.len(),
        ensures
            final(self).answers == old(self).answers,
            final(self).at <= final(self).answers@.len(),
            reached(
                r,
                final(self).at,
                all_eq_walk(h@, old(self).answers@, old(self).at as nat, xs@, ys@, 0, fuel as nat),
            ),
        decreases fuel, 1int, 0int,
    {
        let ghost goal = all_eq_walk(h@, self.answers@, self.at as nat, xs@, ys@, 0, fuel as nat);
        let mut i: usize = 0;
        while i < xs.len() && i < ys.len()
            invariant
                i <= xs@.len(),
                self.answers == old(self).answers,
                self.at <= self.answers@.len(),
                goal == all_eq_walk(
                    h@,
                    old(self).answers@,
                    old(self).at as nat,
                    xs@,
                    ys@,
                    0,
                    fuel as nat,
                ),
                all_eq_walk(h@, self.answers@, self.at as nat, xs@, ys@, i as int, fuel as nat)
                    == goal,
            decreases xs.len() - i,
        {
            match self.equal(h, xs[i], ys[i], fuel) {
                Ok(true) => {},
                other => {
                    return other;
                },
            }
            i = i + 1;
        }
        Ok(true)
    }

    /// Membership equality of the hash-based containers within a nesting
    /// budget.
    pub fn hash_equal(&mut self, h: &Host, a: Value, b: Value, fuel: usize) -> (r: Result<bool, Stop>)
        requires
            old(self).at <= old(self).answers@.len(),
        ensures
            final(self).answers == old(self).answers,
            final(self).at <= final(self).answers@.len(),
            reached(
                r,
                final(self).at,
                hash_eq_walk(h@, old(self).answers@, old(self).at as nat, a, b, fuel as nat),
            ),
        decreases fuel, 2int, 0int,
    {
        if let Value::Obj(x) = a {
            if let Value::Obj(y) = b {
                if x == y {
                    return Ok(true);
                }
            }
        }
        let x: i32 = match self.hash(h, a, false, fuel) {
            Ok(x) => x,
            Err(s) => {
                return Err(s);
            },
        };
        let y: i32 = match self.hash(h, b, false, fuel) {
            Ok(y) => y,
            Err(s) => {
                return Err(s);
            },
        };
        if x == y {
            self.equal(h, a, b, fuel)
        } else {
            Ok(false)
        }
    }

    /// Whether one of `ys` is hash-equal to `x`.
    pub fn any_hash_equal(&mut self, h: &Host, x: Value, ys: &Vec<Value>, fuel: usize) -> (r: Result<
        bool,
        Stop,
    >)
        requires
            old(self).at <= old(self).answers@.len(),
        ensures
            final(self).answers == old(self).answers,
            final(self).at <= final(self).answers@.len(),
            reached(
                r,
                final(self).at,
                any_hash_eq_walk(
                    h@,
                    old(self).answers@,
                    old(self).at as nat,
                    x,
                    ys@,
                    0,
                    fuel as nat,
                ),
            ),
        decreases fuel, 3int, 0int,
    {
        let ghost goal = any_hash_eq_walk(h@, self.answers@, self.at as nat, x, ys@, 0, fuel as nat);
        let mut j: usize = 0;
        while j < ys.len()
            invariant
                j <= ys@.len(),
                self.answers == old(self).answers,
                self.at <= self.answers@.len(),
                goal == any_hash_eq_walk(
                    h@,
                    old(self).answers@,
                    old(self).at as nat,
                    x,
                    ys@,
                    0,
                    fuel as nat,
                ),
                any_hash_eq_walk(h@, self.answers@, self.at as nat, x, ys@, j as int, fuel as nat)
                    == goal,
            decreases ys.len() - j,
        {
            match self.hash_equal(h, x, ys[j], fuel) {
                Ok(false) => {},
                other => {
                    return other;
                },
            }
            j = j + 1;
        }
        Ok(false)
    }

    fn each_in(&mut self, h: &Host, xs: &Vec<Value>, ys: &Vec<Value>, fuel: usize) -> (r: Result<
        bool,
        Stop,
    >)
        requires
            old(self).at <= old(self).answers@.len(),
        ensures
            final(self).answers == old(self).answers,
            final(self).at <= final(self).answers@.len(),
            reached(
                r,
                final(self).at,
                each_in_walk(h@, old(self).answers@, old(self).at as nat, xs@, ys@, 0, fuel as nat),
            ),
        decreases fuel, 4int, 0int,
    {
        let ghost goal = each_in_walk(h@, self.answers@, self.at as nat, xs@, ys@, 0, fuel as nat);
        let mut i: usize = 0;
        while i < xs.len()
            invariant
                i <= xs@.len(),
                self.answers == old(self).answers,
                self.at <= self.answers@.len(),
                goal == each_in_walk(
                    h@,
                    old(self).answers@,
                    old(self).at as nat,
                    xs@,
                    ys@,
                    0,
                    fuel as nat,
                ),
                each_in_walk(h@, self.answers@, self.at as nat, xs@, ys@, i as int, fuel as nat)
                    == goal,
            decreases xs.len() - i,
        {
            match self.any_hash_equal(h, xs[i], ys, fuel) {
                Ok(true) => {},
                other => {
                    return other;
                },
            }
            i = i + 1;
        }
        Ok(true)
    }

    fn any_entry(
        &mut self,
        h: &Host,
        e: (Value, Value),
        es: &Vec<(Value, Value)>,
        fuel: usize,
    ) -> (r: Result<bool, Stop>)
        requires
            old(self).at <= old(self).answers@.len(),
        ensures
            final(self).answers == old(self).answers,
            final(self).at <= final(self).answers@.len(),
            reached(
                r,
                final(self).at,
                any_entry_walk(h@, old(self).answers@, old(self).at as nat, e, es@, 0, fuel as nat),
            ),
        decreases fuel, 3int, 0int,
    {
        let ghost goal = any_entry_walk(h@, self.answers@, self.at as nat, e, es@, 0, fuel as nat);
        let mut j: usize = 0;
        while j < es.len()
            invariant
                j <= es@.len(),
                self.answers == old(self).answers,
                self.at <= self.answers@.len(),
                goal == any_entry_walk(
                    h@,
                    old(self).answers@,
                    old(self).at as nat,
                    e,
                    es@,
                    0,
                    fuel as nat,
                ),
                any_entry_walk(h@, self.answers@, self.at as nat, e, es@, j as int, fuel as nat)
                    == goal,
            decreases es.len() - j,
        {
            match self.hash_equal(h, e.0, es[j].0, fuel) {
                Err(s) => {
                    return Err(s);
                },
                Ok(false) => {},
                Ok(true) => match self.equal(h, e.1, es[j].1, fuel) {
                    Ok(false) => {},
                    other => {
                        return other;
                    },
                },
            }
            j = j + 1;
        }
        Ok(false)
    }

    fn entries_in(
        &mut self,
        h: &Host,
        xs: &Vec<(Value, Value)>,
        ys: &Vec<(Value, Value)>,
        fuel: usize,
    ) -> (r: Result<bool, Stop>)
        requires
            old(self).at <= old(self).answers@.len(),
        ensures
            final(self).answers == old(self).answers,
            final(self).at <= final(self).answers@.len(),
            reached(
                r,
                final(self).at,
                entries_in_walk(
                    h@,
                    old(self).answers@,
                    old(self).at as nat,
                    xs@,
                    ys@,
                    0,
                    fuel as nat,
                ),
            ),
        decreases fuel, 4int, 0int,
    {
        let ghost goal = entries_in_walk(
            h@,
            self.answers@,
            self.at as nat,
            xs@,
            ys@,
            0,
            fuel as nat,
        );
        let mut i: usize = 0;
        while i < xs.len()
            invariant
                i <= xs@.len(),
                self.answers == old(self).answers,
                self.at <= self.answers@.len(),
                goal == entries_in_walk(
                    h@,
                    old(self).answers@,
                    old(self).at as nat,
                    xs@,
                    ys@,
                    0,
                    fuel as nat,
                ),
                entries_in_walk(h@, self.answers@, self.at as nat, xs@, ys@, i as int, fuel as nat)
                    == goal,
            decreases xs.len() - i,
        {
            match self.any_entry(h, xs[i], ys, fuel) {
                Ok(true) => {},
                other => {
                    return other;
                },
            }
            i = i + 1;
        }
        Ok(true)
    }

    /// `hashCode()` within a nesting budget.
    pub fn hash(&mut self, h: &Host, v: Value, long: bool, fuel: usize) -> (r: Result<i32, Stop>)
        requires
            old(self).at <= old(self).answers@.len(),
        ensures
            final(self).answers == old(self).answers,
            final(self).at <= final(self).answers@.len(),
            reached(
                r,
                final(self).at,
                hash_walk(h@, old(self).answers@, old(self).at as nat, v, long, fuel as nat),
            ),
        decreases fuel, 0int, 0int,
    {
        if fuel == 0 {
            return Err(Stop::TooDeep);
        }
        let g: &Host = self.now(h);
        match self.consult(g, &g.hashcode_subs, v, None) {
            Err(s) => {
                return Err(s);
            },
            Ok(Some(r)) => {
                return Ok(self.now(h).to_int(r) as i32);
            },
            Ok(None) => {},
        }
        let g: &Host = self.now(h);
        match g.obj(v) {
            Some(HeapObj::List(items)) => self.fold(h, items, 1, fuel - 1),
            Some(HeapObj::SetObj(items)) => self.sum(h, items, fuel - 1),
            Some(HeapObj::MapObj(es)) => self.entries(h, es, fuel - 1),
            Some(HeapObj::Pair(a, b)) => {
                let x: i32 = match self.hash(h, *a, false, fuel - 1) {
                    Ok(x) => x,
                    Err(s) => {
                        return Err(s);
                    },
                };
                match self.hash(h, *b, false, fuel - 1) {
                    Ok(y) => Ok(x.wrapping_mul(31).wrapping_add(y)),
                    Err(s) => Err(s),
                }
            },
            Some(HeapObj::Entry(a, b)) => {
                let x: i32 = match self.hash(h, *a, false, fuel - 1) {
                    Ok(x) => x,
                    Err(s) => {
                        return Err(s);
                    },
                };
                match self.hash(h, *b, false, fuel - 1) {
                    Ok(y) => Ok(x ^ y),
                    Err(s) => Err(s),
                }
            },
            _ => match value_hash_within(g, v, long, fuel) {
                Some(r) => Ok(r),
                None => Err(Stop::TooDeep),
            },
        }
    }

    fn fold(&mut self, h: &Host, items: &Vec<Value>, seed: i32, fuel: usize) -> (r: Result<
        i32,
        Stop,
    >)
        requires
            old(self).at <= old(self).answers@.len(),
        ensures
            final(self).answers == old(self).answers,
            final(self).at <= final(self).answers@.len(),
            reached(
                r,
                final(self).at,
                fold_walk(h@, old(self).answers@, old(self).at as nat, items@, 0, seed, fuel as nat),
            ),
        decreases fuel, 1int, 0int,
    {
        let ghost goal = fold_walk(h@, self.answers@, self.at as nat, items@, 0, seed, fuel as nat);
        let mut acc: i32 = seed;
        let mut i: usize = 0;
        while i < items.len()
            invariant
                i <= items@.len(),
                self.answers == old(self).answers,
                self.at <= self.answers@.len(),
                goal == fold_walk(
                    h@,
                    old(self).answers@,
                    old(self).at as nat,
                    items@,
                    0,
                    seed,
                    fuel as nat,
                ),
                fold_walk(h@, self.answers@, self.at as nat, items@, i as int, acc, fuel as nat)
                    == goal,
            decreases items.len() - i,
        {
            match self.hash(h, items[i], false, fuel) {
                Ok(e) => {
                    acc = acc.wrapping_mul(31).wrapping_add(e);
                },
                Err(s) => {
                    return Err(s);
                },
            }
            i = i + 1;
        }
        Ok(acc)
    }

    fn sum(&mut self, h: &Host, items: &Vec<Value>, fuel: usize) -> (r: Result<i32, Stop>)
        requires
            old(self).at <= old(self).answers@.len(),
        ensures
            final(self).answers == old(self).answers,
            final(self).at <= final(self).answers@.len(),
            reached(
                r,
                final(self).at,
                sum_walk(h@, old(self).answers@, old(self).at as nat, items@, 0, 0, fuel as nat),
            ),
        decreases fuel, 1int, 0int,
    {
        let ghost goal = sum_walk(h@, self.answers@, self.at as nat, items@, 0, 0, fuel as nat);
        let mut acc: i32 = 0;
        let mut i: usize = 0;
        while i < items.len()
            invariant
                i <= items@.len(),
                self.answers == old(self).answers,
                self.at <= self.answers@.len(),
                goal == sum_walk(
                    h@,
                    old(self).answers@,
                    old(self).at as nat,
                    items@,
                    0,
                    0,
                    fuel as nat,
                ),
                sum_walk(h@, self.answers@, self.at as nat, items@, i as int, acc, fuel as nat)
                    == goal,
            decreases items.len() - i,
        {
            match self.hash(h, items[i], false, fuel) {
                Ok(e) => {
                    acc = acc.wrapping_add(e);
                },
                Err(s) => {
                    return Err(s);
                },
            }
            i = i + 1;
        }
        Ok(acc)
    }

    fn entries(&mut self, h: &Host, es: &Vec<(Value, Value)>, fuel: usize) -> (r: Result<i32, Stop>)
        requires
            old(self).at <= old(self).answers@.len(),
        ensures
            final(self).answers == old(self).answers,
            final(self).at <= final(self).answers@.len(),
            reached(
                r,
                final(self).at,
                entries_walk(h@, old(self).answers@, old(self).at as nat, es@, 0, 0, fuel as nat),
            ),
        decreases fuel, 1int, 0int,
    {
        let ghost goal = entries_walk(h@, self.answers@, self.at as nat, es@, 0, 0, fuel as nat);
        let mut acc: i32 = 0;
        let mut i: usize = 0;
        while i < es.len()
            invariant
                i <= es@.len(),
                self.answers == old(self).answers,
                self.at <= self.answers@.len(),
                goal == entries_walk(
                    h@,
                    old(self).answers@,
                    old(self).at as nat,
                    es@,
                    0,
                    0,
                    fuel as nat,
                ),
                entries_walk(h@, self.answers@, self.at as nat, es@, i as int, acc, fuel as nat)
                    == goal,
            decreases es.len() - i,
        {
            let k: i32 = match self.hash(h, es[i].0, false, fuel) {
                Ok(k) => k,
                Err(s) => {
                    return Err(s);
                },
            };
            match self.hash(h, es[i].1, false, fuel) {
                Ok(x) => {
                    acc = acc.wrapping_add(k ^ x);
                },
                Err(s) => {
                    return Err(s);
                },
            }
            i = i + 1;
        }
        Ok(acc)
    }
}

/// `Ok` of the result, or why the walk stopped.
pub open spec fn result_of<T>(out: Outcome<T>) -> Result<T, Stop> {
    match out {
        Ok((x, _)) => Ok(x),
        Err(s) => Err(s),
    }
}

/// Kotlin `==`, with a user `equals` in play. Dispatch is on the left operand's
/// class; an override's answer is final, and it runs even when both sides are
/// the same object.
pub fn equal_vm(h: &Host, a: Value, b: Value, answers: &Vec<Turn>) -> (r: Result<
    bool,
    Stop,
>)
    ensures
        r == result_of(eq_walk(h@, answers@, 0, a, b, budget(h@))),
{
    let mut log = Log::new(answers);
    log.equal(h, a, b, depth_budget(h))
}

/// Kotlin `hashCode()`, with a user `hashCode` in play.
pub fn hash_vm(h: &Host, v: Value, long: bool, answers: &Vec<Turn>) -> (r: Result<
    i32,
    Stop,
>)
    ensures
        r == result_of(hash_walk(h@, answers@, 0, v, long, budget(h@))),
{
    let mut log = Log::new(answers);
    log.hash(h, v, long, depth_budget(h))
}

} // verus!
