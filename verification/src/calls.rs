//! Lambdas: building and invoking them, and the operations that run one outside
//! the collection members.
use crate::display::{display_each, kotlin_string};
use crate::hof::{CallArgs, Step};
use crate::host::Host;
use crate::ops::negative_array_size;
use crate::receiver::{array_desc, sequence_items};
use crate::reply::Reply;
use crate::search::{has_prefix, has_suffix, join};
use crate::text::{concat2, concat3, same};
use crate::value::{copy_values, truthy, HeapObj, Value};
use crate::walk::{host_before, Stop, Turn};
use vstd::prelude::*;

verus! {

use crate::display::{show_each, text_of};
use crate::hof::{comparator_of, StepView};
use crate::host::HostView;
use crate::ops::{descriptor_or, negative_size};
use crate::receiver::{items_of, value_or_null};
use crate::reply::{settled, ReplyView};
use crate::search::{ends_with, joined, starts_with};
use crate::value::{holds, ObjView};
use crate::walk::{host_at, result_of, Answers};

// ── Closures ────────────────────────────────────────────────────────────────

/// How deep the runs of lambdas and overrides may nest before a
/// `java.lang.StackOverflowError` is raised.
pub const NESTED_RUN_LIMIT: usize = 2000;

/// Whether another run may nest inside `depth` runs.
pub fn may_nest(depth: usize) -> (r: bool)
    ensures
        r == (depth < NESTED_RUN_LIMIT),
{
    depth < NESTED_RUN_LIMIT
}

/// A closure over captured values, from the operands that describe it.
pub fn make_closure(h: &Host, captures: &Vec<Value>, name: Value, params: Value) -> (o: HeapObj)
    ensures
        o@ == (ObjView::Closure {
            name_idx: (h@.to_int(name) as i64) as u16,
            params: (h@.to_int(params) as i64) as u8,
            captures: captures@,
        }),
{
    HeapObj::Closure {
        name_idx: h.to_int(name) as u16,
        params: h.to_int(params) as u8,
        captures: copy_values(captures),
    }
}

/// What invoking a value has the machine do.
#[derive(Debug, PartialEq, Eq)]
pub enum Invocation {
    /// Nothing: an exception is in flight, and the answer is null.
    Skip,
    /// Run a subroutine on a frame: the parameters, then the captured values.
    Run(u16, Vec<Value>),
    Fault(String),
}

/// An [`Invocation`] as a mathematical value.
pub enum InvocationView {
    Skip,
    Run(u16, Seq<Value>),
    Fault(Seq<char>),
}

impl View for Invocation {
    type V = InvocationView;

    open spec fn view(&self) -> InvocationView {
        match self {
            Invocation::Skip => InvocationView::Skip,
            Invocation::Run(sub, frame) => InvocationView::Run(*sub, frame@),
            Invocation::Fault(m) => InvocationView::Fault(m@),
        }
    }
}

/// The parameters of a frame: the arguments, cut or filled up with null to the
/// number that the body declares.
pub open spec fn parameters(args: Seq<Value>, n: int) -> Seq<Value> {
    Seq::new(n as nat, |i: int| value_or_null(args, i))
}

/// How a value is invoked.
pub open spec fn invoked(h: HostView, f: Value, args: Seq<Value>) -> InvocationView {
    if h.pending is Some {
        InvocationView::Skip
    } else {
        match h.obj(f) {
            Some(ObjView::Closure { name_idx, params, captures }) => InvocationView::Run(
                name_idx,
                parameters(args, params as int) + captures,
            ),
            _ => InvocationView::Fault("kotlin: value is not a function"@),
        }
    }
}

/// How a value is invoked.
pub fn invoke_closure(h: &Host, f: Value, args: &Vec<Value>) -> (r: Invocation)
    ensures
        r@ == invoked(h@, f, args@),
{
    if h.pending.is_some() {
        return Invocation::Skip;
    }
    match h.obj(f) {
        Some(HeapObj::Closure { name_idx, params, captures }) => {
            let n: usize = *params as usize;
            let mut frame: Vec<Value> = Vec::new();
            let mut i: usize = 0;
            while i < n
                invariant
                    i <= n,
                    n == *params,
                    frame@ == parameters(args@, i as int),
                decreases n - i,
            {
                let v: Value = if i < args.len() {
                    args[i]
                } else {
                    Value::Undef
                };
                frame.push(v);
                i = i + 1;
                assert(parameters(args@, i as int) =~= parameters(args@, i - 1).push(
                    value_or_null(args@, i - 1),
                ));
            }
            let mut rest: Vec<Value> = copy_values(captures);
            frame.append(&mut rest);
            Invocation::Run(*name_idx, frame)
        },
        _ => Invocation::Fault("kotlin: value is not a function".to_owned()),
    }
}

/// The arguments of a call, in a row.
pub open spec fn arg_values(a: CallArgs) -> Seq<Value> {
    match a {
        CallArgs::Nothing => Seq::empty(),
        CallArgs::One(x) => seq![x],
        CallArgs::Two(x, y) => seq![x, y],
    }
}

/// The arguments of a call, in a row.
pub fn args_of(a: CallArgs) -> (r: Vec<Value>)
    ensures
        r@ == arg_values(a),
{
    let r: Vec<Value> = match a {
        CallArgs::Nothing => Vec::new(),
        CallArgs::One(x) => vec![x],
        CallArgs::Two(x, y) => vec![x, y],
    };
    assert(r@ =~= arg_values(a));
    r
}

// ── Comparators ─────────────────────────────────────────────────────────────

/// Selectors, each with whether it orders the other way round.
pub open spec fn keyed_by(keys: Seq<Value>, descending: bool) -> Seq<(Value, bool)> {
    keys.map_values(|k: Value| (k, descending))
}

/// The comparator that a builder makes. The `then…` forms extend the keys of a
/// base, which keeps its own.
pub open spec fn comparator_made(h: HostView, name: Seq<char>, base: Value, keys: Seq<Value>) -> ObjView {
    let chain = if starts_with(name, "then"@) {
        match comparator_of(h, base) {
            Some(c) => c,
            None => Seq::empty(),
        }
    } else {
        Seq::empty()
    };
    ObjView::Comparator(chain + keyed_by(keys, ends_with(name, "Descending"@)))
}

/// Whether a comparator builder takes a base off the stack.
pub fn takes_base(name: &str) -> (r: bool)
    ensures
        r == starts_with(name@, "then"@),
{
    has_prefix(name, "then")
}

/// Build or extend a comparator.
pub fn make_comparator(h: &Host, name: &str, base: Value, keys: &Vec<Value>) -> (o: HeapObj)
    ensures
        o@ == comparator_made(h@, name@, base, keys@),
{
    let descending: bool = has_suffix(name, "Descending");
    let mut chain: Vec<(Value, bool)> = Vec::new();
    if has_prefix(name, "then") {
        if let Some(HeapObj::Comparator(c)) = h.obj(base) {
            let mut i: usize = 0;
            while i < c.len()
                invariant
                    i <= c@.len(),
                    chain@ == c@.take(i as int),
                decreases c.len() - i,
            {
                chain.push(c[i]);
                i = i + 1;
                assert(c@.take(i as int) =~= c@.take(i - 1).push(c@[i - 1]));
            }
            assert(c@.take(i as int) =~= c@);
        }
    }
    let ghost before = chain@;
    let ghost added = keyed_by(keys@, descending);
    let mut i: usize = 0;
    assert(before + added.take(0) =~= before);
    while i < keys.len()
        invariant
            i <= keys@.len(),
            added == keyed_by(keys@, descending),
            chain@ == before + added.take(i as int),
        decreases keys.len() - i,
    {
        chain.push((keys[i], descending));
        i = i + 1;
        assert(before + added.take(i as int) =~= (before + added.take(i - 1)).push(added[i - 1]));
    }
    assert(added.take(i as int) =~= added);
    assert(starts_with(name@, "then"@) ==> before =~= (match comparator_of(h@, base) {
        Some(c) => c,
        None => Seq::empty(),
    }));
    HeapObj::Comparator(chain)
}

// ── Scope functions ─────────────────────────────────────────────────────────

/// The fault of a name that nothing has.
pub open spec fn unknown(name: Seq<char>) -> StepView {
    StepView::Done(ReplyView::Fault("unresolved reference: "@ + name))
}

/// A call of `f`, or what `made` makes of its result.
pub open spec fn after_call(
    f: Value,
    a: CallArgs,
    rs: Seq<Value>,
    made: spec_fn(Value) -> ReplyView,
) -> StepView {
    if rs.len() == 0 {
        StepView::Call(f, a)
    } else {
        StepView::Done(made(rs[0]))
    }
}

/// The scope functions: `let` and `run` answer what the block does, `also` and
/// `apply` the receiver, `takeIf` and `takeUnless` the receiver or null.
pub open spec fn scope_step(name: Seq<char>, recv: Value, f: Value, rs: Seq<Value>) -> StepView {
    let a = CallArgs::One(recv);
    if name == "let"@ || name == "run"@ {
        after_call(f, a, rs, |r: Value| ReplyView::Value(r))
    } else if name == "also"@ || name == "apply"@ {
        after_call(f, a, rs, |r: Value| ReplyView::Value(recv))
    } else if name == "takeIf"@ || name == "takeUnless"@ {
        after_call(
            f,
            a,
            rs,
            |r: Value|
                ReplyView::Value(
                    if holds(r) == (name == "takeIf"@) {
                        recv
                    } else {
                        Value::Undef
                    },
                ),
        )
    } else {
        unknown(name)
    }
}

/// The next step of a scope function, given the results of its calls so far.
pub fn scope_fn(name: &str, recv: Value, f: Value, rs: &Vec<Value>) -> (s: Step)
    ensures
        s@ == scope_step(name@, recv, f, rs@),
{
    let known: bool = same(name, "let") || same(name, "run") || same(name, "also") || same(
        name,
        "apply",
    ) || same(name, "takeIf") || same(name, "takeUnless");
    if !known {
        return Step::Done(Reply::Fault(concat2("unresolved reference: ", name)));
    }
    if rs.len() == 0 {
        return Step::Call(f, CallArgs::One(recv));
    }
    if same(name, "let") || same(name, "run") {
        Step::Done(Reply::Value(rs[0]))
    } else if same(name, "also") || same(name, "apply") {
        Step::Done(Reply::Value(recv))
    } else if truthy(&rs[0]) == same(name, "takeIf") {
        Step::Done(Reply::Value(recv))
    } else {
        Step::Done(Reply::Value(Value::Undef))
    }
}

// ── Results ─────────────────────────────────────────────────────────────────

/// A successful result.
pub open spec fn success(v: Value) -> ObjView {
    ObjView::Res { value: v, err: None }
}

/// The members of a `Result` that take a lambda.
pub open spec fn result_step(
    h: HostView,
    name: Seq<char>,
    recv: Value,
    f: Value,
    rs: Seq<Value>,
) -> StepView {
    let kept = StepView::Done(ReplyView::Value(recv));
    match h.obj(recv) {
        Some(ObjView::Res { value, err }) => if name == "getOrElse"@ {
            match err {
                Some(e) => after_call(f, CallArgs::One(e), rs, |r: Value| ReplyView::Value(r)),
                None => StepView::Done(ReplyView::Value(value)),
            }
        } else if name == "onSuccess"@ {
            match err {
                Some(_) => kept,
                None => after_call(
                    f,
                    CallArgs::One(value),
                    rs,
                    |r: Value| ReplyView::Value(recv),
                ),
            }
        } else if name == "onFailure"@ {
            match err {
                Some(e) => after_call(f, CallArgs::One(e), rs, |r: Value| ReplyView::Value(recv)),
                None => kept,
            }
        } else if name == "map"@ {
            match err {
                Some(_) => kept,
                None => after_call(
                    f,
                    CallArgs::One(value),
                    rs,
                    |r: Value| ReplyView::Object(success(r)),
                ),
            }
        } else {
            unknown(name)
        },
        _ => unknown(name),
    }
}

/// The next step of a `Result` member, given the results of its calls so far.
pub fn result_hof(h: &Host, name: &str, recv: Value, f: Value, rs: &Vec<Value>) -> (s: Step)
    ensures
        s@ == result_step(h@, name@, recv, f, rs@),
{
    let (value, err): (Value, Option<Value>) = match h.obj(recv) {
        Some(HeapObj::Res { value, err }) => (*value, *err),
        _ => {
            return Step::Done(Reply::Fault(concat2("unresolved reference: ", name)));
        },
    };
    let handed: Option<Value> = if same(name, "getOrElse") {
        match err {
            Some(e) => Some(e),
            None => {
                return Step::Done(Reply::Value(value));
            },
        }
    } else if same(name, "onSuccess") {
        match err {
            Some(_) => None,
            None => Some(value),
        }
    } else if same(name, "onFailure") {
        err
    } else if same(name, "map") {
        match err {
            Some(_) => None,
            None => Some(value),
        }
    } else {
        return Step::Done(Reply::Fault(concat2("unresolved reference: ", name)));
    };
    match handed {
        None => Step::Done(Reply::Value(recv)),
        Some(v) => if rs.len() == 0 {
            Step::Call(f, CallArgs::One(v))
        } else if same(name, "getOrElse") {
            Step::Done(Reply::Value(rs[0]))
        } else if same(name, "onSuccess") || same(name, "onFailure") {
            Step::Done(Reply::Value(recv))
        } else {
            Step::Done(Reply::Object(HeapObj::Res { value: rs[0], err: None }))
        },
    }
}

/// The state and the reply of `runCatching` once its block has run: an exception
/// that the block raised becomes a failure.
pub open spec fn catching(h: HostView, result: Result<Value, Seq<char>>) -> (HostView, ReplyView) {
    match h.pending {
        Some(e) => (
            HostView { pending: None, ..h },
            ReplyView::Object(ObjView::Res { value: Value::Undef, err: Some(e) }),
        ),
        None => match result {
            Ok(v) => (h, ReplyView::Object(success(v))),
            Err(m) => (h, ReplyView::Fault(m)),
        },
    }
}

/// Finish `runCatching` once its block has run.
pub fn run_catching(h: &mut Host, result: Result<Value, String>) -> (r: Reply)
    ensures
        (final(h)@, r@) == catching(
            old(h)@,
            match result {
                Ok(v) => Ok(v),
                Err(m) => Err(m@),
            },
        ),
{
    match h.pending.take() {
        Some(e) => Reply::Object(HeapObj::Res { value: Value::Undef, err: Some(e) }),
        None => match result {
            Ok(v) => Reply::Object(HeapObj::Res { value: v, err: None }),
            Err(m) => Reply::Fault(m),
        },
    }
}

// ── Lazy values ─────────────────────────────────────────────────────────────

/// A read of a `by lazy` cell: the value it has, or that of its thunk, which it
/// then keeps, even when the thunk has read the cell itself. Any other value is
/// read as itself.
pub open spec fn lazy_step(h: HostView, cell: Value, rs: Seq<Value>) -> StepView {
    match h.obj(cell) {
        Some(ObjView::Lazy { thunk, cached }) => if rs.len() > 0 {
            StepView::Done(
                ReplyView::Update(cell, ObjView::Lazy { thunk, cached: Some(rs[0]) }, rs[0]),
            )
        } else {
            match cached {
                Some(v) => StepView::Done(ReplyView::Value(v)),
                None => StepView::Call(thunk, CallArgs::Nothing),
            }
        },
        _ => StepView::Done(ReplyView::Value(cell)),
    }
}

/// The next step of a read of a `by lazy` cell.
pub fn lazy_get(h: &Host, cell: Value, rs: &Vec<Value>) -> (s: Step)
    ensures
        s@ == lazy_step(h@, cell, rs@),
{
    match h.obj(cell) {
        Some(HeapObj::Lazy { thunk, cached }) => if rs.len() > 0 {
            Step::Done(
                Reply::Update(cell, HeapObj::Lazy { thunk: *thunk, cached: Some(rs[0]) }, rs[0]),
            )
        } else {
            match cached {
                Some(v) => Step::Done(Reply::Value(*v)),
                None => Step::Call(*thunk, CallArgs::Nothing),
            }
        },
        _ => Step::Done(Reply::Value(cell)),
    }
}

// ── Arrays ──────────────────────────────────────────────────────────────────

/// An array whose elements a lambda gives, one for each index.
pub open spec fn array_step(n: int, desc: Seq<char>, f: Value, rs: Seq<Value>) -> StepView {
    if n < 0 {
        StepView::Done(ReplyView::Fault(negative_size(n)))
    } else if rs.len() < n {
        StepView::Call(f, CallArgs::One(Value::Int(rs.len() as i64)))
    } else {
        StepView::Done(
            ReplyView::Object(ObjView::Array { items: rs, desc: descriptor_or(desc, rs) }),
        )
    }
}

/// The next step of an array initialiser, given the results of its calls so far.
pub fn array_init(n: i64, desc: &str, f: Value, rs: &Vec<Value>) -> (s: Step)
    ensures
        s@ == array_step(n as int, desc@, f, rs@),
{
    if n < 0 {
        return Step::Done(Reply::Fault(negative_array_size(n)));
    }
    if (rs.len() as u128) < n as u128 {
        return Step::Call(f, CallArgs::One(Value::Int(rs.len() as i64)));
    }
    let d: String = if desc.is_empty() {
        array_desc(rs)
    } else {
        desc.to_owned()
    };
    Step::Done(Reply::Object(HeapObj::Array { items: copy_values(rs), desc: d }))
}

// ── Preconditions ───────────────────────────────────────────────────────────

/// Whether a precondition only raises.
pub open spec fn always_fails(name: Seq<char>) -> bool {
    name == "error"@ || name == "TODO"@
}

/// What a precondition answers when it holds; `None` when it does not.
pub open spec fn precondition(name: Seq<char>, subject: Value) -> Option<Value> {
    if name == "require"@ || name == "check"@ {
        if holds(subject) {
            Some(Value::Undef)
        } else {
            None
        }
    } else if name == "requireNotNull"@ || name == "checkNotNull"@ {
        if subject is Undef {
            None
        } else {
            Some(subject)
        }
    } else {
        None
    }
}

/// The class that a failed precondition raises.
pub open spec fn failed_class(name: Seq<char>) -> Seq<char> {
    if name == "require"@ || name == "requireNotNull"@ {
        "java.lang.IllegalArgumentException"@
    } else if name == "check"@ || name == "checkNotNull"@ || name == "error"@ {
        "java.lang.IllegalStateException"@
    } else {
        "kotlin.NotImplementedError"@
    }
}

/// The message of a failed precondition. `TODO` puts the reason behind a fixed
/// sentence.
pub open spec fn failed_message(name: Seq<char>, given: Option<Seq<char>>) -> Seq<char> {
    match given {
        Some(m) => if name == "TODO"@ {
            "An operation is not implemented: "@ + m
        } else {
            m
        },
        None => if name == "TODO"@ {
            "An operation is not implemented."@
        } else if name == "require"@ {
            "Failed requirement."@
        } else if name == "check"@ {
            "Check failed."@
        } else if name == "requireNotNull"@ || name == "checkNotNull"@ {
            "Required value was null."@
        } else {
            ""@
        },
    }
}

/// A precondition call on `vals`: the subject, unless it always fails, and the
/// message, which may be a lambda that only a failure runs.
pub open spec fn precond_step(h: HostView, name: Seq<char>, vals: Seq<Value>, rs: Seq<Value>) -> StepView {
    let skip: int = if always_fails(name) {
        0
    } else {
        1
    };
    match precondition(name, value_or_null(vals, 0)) {
        Some(v) => StepView::Done(ReplyView::Value(v)),
        None => if skip < vals.len() {
            let m = vals[skip];
            if h.obj(m) is Some && h.obj(m)->0 is Closure {
                after_call(
                    m,
                    CallArgs::Nothing,
                    rs,
                    |r: Value| precondition_fault(name, Some(text_of(h, r))),
                )
            } else {
                StepView::Done(precondition_fault(name, Some(text_of(h, m))))
            }
        } else {
            StepView::Done(precondition_fault(name, None))
        },
    }
}

/// The fault of a failed precondition.
pub open spec fn precondition_fault(name: Seq<char>, given: Option<Seq<char>>) -> ReplyView {
    ReplyView::Fault(failed_class(name) + ": "@ + failed_message(name, given))
}

fn fail(name: &str, given: Option<String>) -> (r: Reply)
    ensures
        r@ == precondition_fault(
            name@,
            match given {
                Some(m) => Some(m@),
                None => None,
            },
        ),
{
    let class: &str = if same(name, "require") || same(name, "requireNotNull") {
        "java.lang.IllegalArgumentException"
    } else if same(name, "check") || same(name, "checkNotNull") || same(name, "error") {
        "java.lang.IllegalStateException"
    } else {
        "kotlin.NotImplementedError"
    };
    let message: String = match given {
        Some(m) => if same(name, "TODO") {
            concat2("An operation is not implemented: ", m.as_str())
        } else {
            m
        },
        None => if same(name, "TODO") {
            "An operation is not implemented.".to_owned()
        } else if same(name, "require") {
            "Failed requirement.".to_owned()
        } else if same(name, "check") {
            "Check failed.".to_owned()
        } else if same(name, "requireNotNull") || same(name, "checkNotNull") {
            "Required value was null.".to_owned()
        } else {
            "".to_owned()
        },
    };
    Reply::Fault(concat3(class, ": ", message.as_str()))
}

fn precondition_holds(name: &str, subject: Value) -> (r: Option<Value>)
    ensures
        r == precondition(name@, subject),
{
    if same(name, "require") || same(name, "check") {
        if truthy(&subject) {
            Some(Value::Undef)
        } else {
            None
        }
    } else if same(name, "requireNotNull") || same(name, "checkNotNull") {
        match subject {
            Value::Undef => None,
            v => Some(v),
        }
    } else {
        None
    }
}

/// The next step of a precondition, given the results of its calls so far.
pub fn precond(h: &Host, name: &str, vals: &Vec<Value>, rs: &Vec<Value>) -> (s: Step)
    ensures
        s@ == precond_step(h@, name@, vals@, rs@),
{
    let subject: Value = if vals.len() > 0 {
        vals[0]
    } else {
        Value::Undef
    };
    if let Some(v) = precondition_holds(name, subject) {
        return Step::Done(Reply::Value(v));
    }
    let skip: usize = if same(name, "error") || same(name, "TODO") {
        0
    } else {
        1
    };
    if skip >= vals.len() {
        return Step::Done(fail(name, None));
    }
    let m: Value = vals[skip];
    let is_closure: bool = match h.obj(m) {
        Some(HeapObj::Closure { .. }) => true,
        _ => false,
    };
    if !is_closure {
        return Step::Done(fail(name, Some(kotlin_string(h, m))));
    }
    if rs.len() == 0 {
        Step::Call(m, CallArgs::Nothing)
    } else {
        Step::Done(fail(name, Some(kotlin_string(h, rs[0]))))
    }
}

// ── Texts with overrides ────────────────────────────────────────────────────

/// `joinToString` with `toString` overrides honoured.
pub open spec fn join_walk(h: HostView, recv: Value, sep: Option<Value>, log: Answers) -> Result<
    Seq<char>,
    Stop,
> {
    let g = host_at(h, log, 0);
    let between = match sep {
        Some(s) => text_of(g, s),
        None => ", "@,
    };
    match result_of(show_each(h, log, 0, items_of(g, recv), 0, Seq::empty())) {
        Ok(ts) => Ok(joined(ts, between)),
        Err(s) => Err(s),
    }
}

/// `joinToString` with `toString` overrides honoured.
pub fn join_display(h: &Host, recv: Value, sep: Option<Value>, answers: &Vec<Turn>) -> (r: Result<
    String,
    Stop,
>)
    ensures
        match r {
            Ok(s) => join_walk(h@, recv, sep, answers@) == Ok::<Seq<char>, Stop>(s@),
            Err(e) => join_walk(h@, recv, sep, answers@) == Err::<Seq<char>, Stop>(e),
        },
{
    let g: &Host = host_before(h, answers);
    let between: String = match sep {
        Some(s) => kotlin_string(g, s),
        None => ", ".to_owned(),
    };
    let items: Vec<Value> = sequence_items(g, recv);
    match display_each(h, &items, answers) {
        Ok(ts) => Ok(join(&ts, between.as_str())),
        Err(s) => Err(s),
    }
}

// ── Laws ────────────────────────────────────────────────────────────────────

/// The message of a precondition that holds is not evaluated: the call answers
/// at once.
pub proof fn law_message_is_lazy(h: HostView, name: Seq<char>, vals: Seq<Value>, rs: Seq<Value>)
    requires
        precondition(name, value_or_null(vals, 0)) is Some,
    ensures
        precond_step(h, name, vals, rs) is Done,
{
}

/// A `by lazy` cell runs its thunk once: behind the first read it answers what
/// the thunk gave, without a call, whatever the cell came to hold while the thunk
/// ran.
pub proof fn law_lazy_runs_once(h: HostView, g: HostView, cell: Value, r: Value)
    requires
        h.obj(cell) matches Some(ObjView::Lazy { cached: None, .. }),
        g.obj(cell) matches Some(ObjView::Lazy { .. }),
    ensures
        lazy_step(h, cell, Seq::empty()) is Call,
        lazy_step(g, cell, seq![r]) is Done,
        lazy_step(settled(g, lazy_step(g, cell, seq![r])->Done_0).0, cell, Seq::empty())
            == StepView::Done(ReplyView::Value(r)),
{
}

/// While an exception is in flight no lambda runs.
pub proof fn law_no_calls_while_unwinding(h: HostView, f: Value, args: Seq<Value>)
    requires
        h.pending is Some,
    ensures
        invoked(h, f, args) == InvocationView::Skip,
{
}

/// `runCatching` leaves no exception in flight.
pub proof fn law_catching_catches(h: HostView, result: Result<Value, Seq<char>>)
    ensures
        catching(h, result).0.pending is None,
{
}

} // verus!
