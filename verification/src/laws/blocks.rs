//! What a program may rely on when it hands a block to a function of the standard
//! library that is no member of a collection.
use crate::host::HostView;
use crate::hof::CallArgs;
use crate::value::{ObjView, Value};
use vstd::prelude::*;

verus! {

use crate::calls::{
    arg_values, array_step, catching, comparator_made, invoked, lazy_step, precond_step,
    result_step, scope_step, InvocationView,
};
use crate::display::text_of;
use crate::hof::{comparator_of, StepView};
use crate::laws::names::lemma_names;
use crate::reply::ReplyView;
use crate::search::{ends_with, occurs_at, starts_with};

// ── Calls ───────────────────────────────────────────────────────────────────

/// A lambda gets the arguments of the call in order: what is too much is left out,
/// what is missing is null, and behind them stand the values that it captured.
pub proof fn law_lambdas_get_their_arguments(
    h: HostView,
    f: Value,
    args: Seq<Value>,
    name_idx: u16,
    params: u8,
    captures: Seq<Value>,
    i: int,
)
    requires
        h.pending is None,
        h.obj(f) == Some(ObjView::Closure { name_idx, params, captures }),
    ensures
        invoked(h, f, args) matches InvocationView::Run(sub, frame) && sub == name_idx
            && frame.len() == params + captures.len() && (0 <= i < params && i < args.len()
            ==> frame[i] == args[i]) && (args.len() <= i < params ==> frame[i] == Value::Undef) && (
        0 <= i < captures.len() ==> frame[params + i] == captures[i]),
{
}

/// What is no lambda cannot be called.
pub proof fn law_only_lambdas_are_called(h: HostView, f: Value, args: Seq<Value>)
    requires
        h.pending is None,
        !(h.obj(f) matches Some(ObjView::Closure { .. })),
    ensures
        invoked(h, f, args) is Fault,
{
}

/// The arguments of a call stand in the order in which they are given.
pub proof fn law_arguments_keep_their_order(x: Value, y: Value)
    ensures
        arg_values(CallArgs::Nothing).len() == 0,
        arg_values(CallArgs::One(x)) == seq![x],
        arg_values(CallArgs::Two(x, y)) == seq![x] + seq![y],
{
    assert(arg_values(CallArgs::Two(x, y)) =~= seq![x] + seq![y]);
}

// ── Scope functions ─────────────────────────────────────────────────────────

/// Every scope function calls its block once, on the receiver.
pub proof fn law_scopes_call_once(name: Seq<char>, recv: Value, f: Value, r: Value)
    requires
        name == "let"@ || name == "run"@ || name == "also"@ || name == "apply"@ || name
            == "takeIf"@ || name == "takeUnless"@,
    ensures
        scope_step(name, recv, f, Seq::empty()) == StepView::Call(f, CallArgs::One(recv)),
        scope_step(name, recv, f, seq![r]) is Done,
{
    lemma_names();
}

/// `let` and `run` give back what the block gives, `also` and `apply` the receiver
/// itself.
pub proof fn law_scopes(recv: Value, f: Value, r: Value)
    ensures
        scope_step("let"@, recv, f, seq![r]) == StepView::Done(ReplyView::Value(r)),
        scope_step("run"@, recv, f, seq![r]) == StepView::Done(ReplyView::Value(r)),
        scope_step("also"@, recv, f, seq![r]) == StepView::Done(ReplyView::Value(recv)),
        scope_step("apply"@, recv, f, seq![r]) == StepView::Done(ReplyView::Value(recv)),
{
    lemma_names();
}

/// `takeIf` keeps a receiver that the block accepts and `takeUnless` one that it
/// does not; of any receiver exactly one of the two is null, unless it is null.
pub proof fn law_taking(recv: Value, f: Value, r: Value)
    ensures
        scope_step("takeIf"@, recv, f, seq![Value::Bool(true)]) == StepView::Done(
            ReplyView::Value(recv),
        ),
        scope_step("takeIf"@, recv, f, seq![Value::Bool(false)]) == StepView::Done(
            ReplyView::Value(Value::Undef),
        ),
        ({
            let kept = scope_step("takeIf"@, recv, f, seq![r]);
            let other = scope_step("takeUnless"@, recv, f, seq![r]);
            let null = StepView::Done(ReplyView::Value(Value::Undef));
            let same = StepView::Done(ReplyView::Value(recv));
            (kept == same && other == null) || (kept == null && other == same)
        }),
{
    lemma_names();
}

// ── Results ─────────────────────────────────────────────────────────────────

/// A success hands its value to `map` and `onSuccess`, is its value to
/// `getOrElse`, and is left alone by `onFailure`.
pub proof fn law_successes(h: HostView, recv: Value, f: Value, v: Value, r: Value)
    requires
        h.obj(recv) == Some(ObjView::Res { value: v, err: None }),
    ensures
        result_step(h, "getOrElse"@, recv, f, Seq::empty()) == StepView::Done(ReplyView::Value(v)),
        result_step(h, "onFailure"@, recv, f, Seq::empty()) == StepView::Done(
            ReplyView::Value(recv),
        ),
        result_step(h, "map"@, recv, f, Seq::empty()) == StepView::Call(f, CallArgs::One(v)),
        result_step(h, "map"@, recv, f, seq![r]) == StepView::Done(
            ReplyView::Object(ObjView::Res { value: r, err: None }),
        ),
        result_step(h, "onSuccess"@, recv, f, Seq::empty()) == StepView::Call(
            f,
            CallArgs::One(v),
        ),
        result_step(h, "onSuccess"@, recv, f, seq![r]) == StepView::Done(ReplyView::Value(recv)),
{
    lemma_names();
}

/// A failure hands its throwable to `getOrElse` and `onFailure`, and is left alone
/// by `map` and `onSuccess`.
pub proof fn law_failures(h: HostView, recv: Value, f: Value, v: Value, e: Value, r: Value)
    requires
        h.obj(recv) == Some(ObjView::Res { value: v, err: Some(e) }),
    ensures
        result_step(h, "getOrElse"@, recv, f, Seq::empty()) == StepView::Call(
            f,
            CallArgs::One(e),
        ),
        result_step(h, "getOrElse"@, recv, f, seq![r]) == StepView::Done(ReplyView::Value(r)),
        result_step(h, "onFailure"@, recv, f, Seq::empty()) == StepView::Call(
            f,
            CallArgs::One(e),
        ),
        result_step(h, "onFailure"@, recv, f, seq![r]) == StepView::Done(ReplyView::Value(recv)),
        result_step(h, "map"@, recv, f, Seq::empty()) == StepView::Done(ReplyView::Value(recv)),
        result_step(h, "onSuccess"@, recv, f, Seq::empty()) == StepView::Done(
            ReplyView::Value(recv),
        ),
{
    lemma_names();
}

/// `runCatching` makes a success of what its block gives, and a failure of what it
/// throws.
pub proof fn law_run_catching(h: HostView, v: Value, e: Value, result: Result<Value, Seq<char>>)
    ensures
        h.pending is None ==> catching(h, Ok(v)) == (
            h,
            ReplyView::Object(ObjView::Res { value: v, err: None }),
        ),
        h.pending == Some(e) ==> (catching(h, result).1 matches ReplyView::Object(
            ObjView::Res { err, .. },
        ) && err == Some(e)),
        catching(h, result).0 == (HostView { pending: None, ..h }),
{
}

// ── Lazy values ─────────────────────────────────────────────────────────────

/// A cell that has its value gives it without a call; one that has none calls its
/// thunk, gives what that gave, and keeps both.
pub proof fn law_lazy_cells(h: HostView, cell: Value, thunk: Value, v: Value, r: Value)
    ensures
        h.obj(cell) == Some(ObjView::Lazy { thunk, cached: Some(v) }) ==> lazy_step(
            h,
            cell,
            Seq::empty(),
        ) == StepView::Done(ReplyView::Value(v)),
        h.obj(cell) == Some(ObjView::Lazy { thunk, cached: None }) ==> {
            &&& lazy_step(h, cell, Seq::empty()) == StepView::Call(thunk, CallArgs::Nothing)
            &&& lazy_step(h, cell, seq![r]) == StepView::Done(
                ReplyView::Update(cell, ObjView::Lazy { thunk, cached: Some(r) }, r),
            )
        },
        h.obj(cell) is None ==> lazy_step(h, cell, Seq::empty()) == StepView::Done(
            ReplyView::Value(cell),
        ),
{
}

// ── Arrays ──────────────────────────────────────────────────────────────────

/// An array initialiser calls its lambda on each index in turn, and the array holds
/// what it gave, in that order.
pub proof fn law_array_initialisers(n: i64, desc: Seq<char>, f: Value, rs: Seq<Value>)
    ensures
        n < 0 ==> (array_step(n as int, desc, f, rs) matches StepView::Done(ReplyView::Fault(_))),
        rs.len() < n ==> (array_step(n as int, desc, f, rs) matches StepView::Call(
            g,
            CallArgs::One(Value::Int(k)),
        ) && g == f && k == rs.len()),
        n >= 0 && rs.len() == n ==> (array_step(n as int, desc, f, rs) matches StepView::Done(
            ReplyView::Object(ObjView::Array { items, .. }),
        ) && items == rs),
{
}

// ── Preconditions ───────────────────────────────────────────────────────────

/// `require` and `check` answer nothing when they hold; `requireNotNull` and
/// `checkNotNull` answer what they were given.
pub proof fn law_preconditions_that_hold(h: HostView, v: Value, m: Value, rs: Seq<Value>)
    ensures
        precond_step(h, "require"@, seq![Value::Bool(true), m], rs) == StepView::Done(
            ReplyView::Value(Value::Undef),
        ),
        precond_step(h, "check"@, seq![Value::Bool(true), m], rs) == StepView::Done(
            ReplyView::Value(Value::Undef),
        ),
        !(v is Undef) ==> precond_step(h, "requireNotNull"@, seq![v, m], rs) == StepView::Done(
            ReplyView::Value(v),
        ),
        !(v is Undef) ==> precond_step(h, "checkNotNull"@, seq![v, m], rs) == StepView::Done(
            ReplyView::Value(v),
        ),
{
    lemma_names();
}

/// What fails, and with which class of exception.
pub proof fn law_preconditions_that_fail(h: HostView, rs: Seq<Value>)
    ensures
        precond_step(h, "require"@, seq![Value::Bool(false)], rs) == StepView::Done(
            ReplyView::Fault("java.lang.IllegalArgumentException"@ + ": "@ + "Failed requirement."@),
        ),
        precond_step(h, "check"@, seq![Value::Bool(false)], rs) == StepView::Done(
            ReplyView::Fault("java.lang.IllegalStateException"@ + ": "@ + "Check failed."@),
        ),
        precond_step(h, "requireNotNull"@, seq![Value::Undef], rs) == StepView::Done(
            ReplyView::Fault(
                "java.lang.IllegalArgumentException"@ + ": "@ + "Required value was null."@,
            ),
        ),
        precond_step(h, "checkNotNull"@, seq![Value::Undef], rs) == StepView::Done(
            ReplyView::Fault(
                "java.lang.IllegalStateException"@ + ": "@ + "Required value was null."@,
            ),
        ),
        precond_step(h, "TODO"@, Seq::empty(), rs) == StepView::Done(
            ReplyView::Fault(
                "kotlin.NotImplementedError"@ + ": "@ + "An operation is not implemented."@,
            ),
        ),
{
    lemma_names();
}

/// A failed precondition has the text of the message that was given.
pub proof fn law_given_messages(h: HostView, m: Value, rs: Seq<Value>)
    requires
        !(h.obj(m) matches Some(ObjView::Closure { .. })),
    ensures
        precond_step(h, "require"@, seq![Value::Bool(false), m], rs) == StepView::Done(
            ReplyView::Fault("java.lang.IllegalArgumentException"@ + ": "@ + text_of(h, m)),
        ),
        precond_step(h, "check"@, seq![Value::Bool(false), m], rs) == StepView::Done(
            ReplyView::Fault("java.lang.IllegalStateException"@ + ": "@ + text_of(h, m)),
        ),
        precond_step(h, "error"@, seq![m], rs) == StepView::Done(
            ReplyView::Fault("java.lang.IllegalStateException"@ + ": "@ + text_of(h, m)),
        ),
        precond_step(h, "TODO"@, seq![m], rs) == StepView::Done(
            ReplyView::Fault(
                "kotlin.NotImplementedError"@ + ": "@ + ("An operation is not implemented: "@
                    + text_of(h, m)),
            ),
        ),
{
    lemma_names();
}

/// A message that is a lambda is run when the precondition fails, on nothing, and
/// its text is the message.
pub proof fn law_lazy_messages(h: HostView, m: Value, r: Value)
    requires
        h.obj(m) matches Some(ObjView::Closure { .. }),
    ensures
        precond_step(h, "require"@, seq![Value::Bool(false), m], Seq::empty()) == StepView::Call(
            m,
            CallArgs::Nothing,
        ),
        precond_step(h, "require"@, seq![Value::Bool(false), m], seq![r]) == StepView::Done(
            ReplyView::Fault("java.lang.IllegalArgumentException"@ + ": "@ + text_of(h, r)),
        ),
        precond_step(h, "check"@, seq![Value::Bool(false), m], seq![r]) == StepView::Done(
            ReplyView::Fault("java.lang.IllegalStateException"@ + ": "@ + text_of(h, r)),
        ),
{
    lemma_names();
}

// ── Comparators ─────────────────────────────────────────────────────────────

/// `compareBy` orders by its keys in turn, `compareByDescending` the other way
/// round; the `then` forms put their keys behind those of the comparator before
/// them.
pub proof fn law_comparators(h: HostView, base: Value, chain: Seq<(Value, bool)>, k: Value, l: Value)
    requires
        comparator_of(h, base) == Some(chain),
    ensures
        comparator_made(h, "compareBy"@, base, seq![k, l]) == ObjView::Comparator(
            seq![(k, false), (l, false)],
        ),
        comparator_made(h, "compareByDescending"@, base, seq![k]) == ObjView::Comparator(
            seq![(k, true)],
        ),
        comparator_made(h, "thenBy"@, base, seq![k]) == ObjView::Comparator(
            chain.push((k, false)),
        ),
        comparator_made(h, "thenByDescending"@, base, seq![k]) == ObjView::Comparator(
            chain.push((k, true)),
        ),
{
    reveal_strlit("compareBy");
    reveal_strlit("compareByDescending");
    reveal_strlit("thenBy");
    reveal_strlit("thenByDescending");
    reveal_strlit("then");
    reveal_strlit("Descending");
    assert("compareBy"@.subrange(0, 4)[0] == 'c');
    assert("compareByDescending"@.subrange(0, 4)[0] == 'c');
    assert("thenBy"@.subrange(0, 4) =~= "then"@);
    assert("thenByDescending"@.subrange(0, 4) =~= "then"@);
    assert("compareByDescending"@.subrange(9, 19) =~= "Descending"@);
    assert("thenByDescending"@.subrange(6, 16) =~= "Descending"@);
    assert(occurs_at("thenBy"@, "then"@, 0) && occurs_at("thenByDescending"@, "then"@, 0));
    assert(starts_with("thenBy"@, "then"@) && starts_with("thenByDescending"@, "then"@));
    assert(ends_with("compareByDescending"@, "Descending"@));
    assert(ends_with("thenByDescending"@, "Descending"@));
    let none = Seq::<(Value, bool)>::empty();
    assert(none + crate::calls::keyed_by(seq![k, l], false) =~= seq![(k, false), (l, false)]);
    assert(none + crate::calls::keyed_by(seq![k], true) =~= seq![(k, true)]);
    assert(chain + crate::calls::keyed_by(seq![k], false) =~= chain.push((k, false)));
    assert(chain + crate::calls::keyed_by(seq![k], true) =~= chain.push((k, true)));
}

} // verus!
