//! Exceptions: raising, catching, parking across `finally`, and the faults that
//! become one.
use crate::display::{kotlin_string, throwable_str};
use crate::host::Host;
use crate::ops::vm_string;
use crate::search::{find, has_prefix, has_suffix};
use crate::text::{chars_of_str, concat2, same, string_of};
use crate::types::{simple_name, throwable_matches};
use crate::value::{HeapObj, Value};
use vstd::prelude::*;

verus! {

use crate::compare::budget;
use crate::display::{render_throwable, text_of};
use crate::host::HostView;
use crate::ops::vm_text;
use crate::search::{ends_with, find_from, starts_with};
use crate::types::{caught_by, last_segment};
use crate::value::{opt_text, ObjView};

// ── Fault messages ──────────────────────────────────────────────────────────

/// A message before and behind its first `: `.
pub open spec fn class_and_detail(s: Seq<char>) -> (Seq<char>, Option<Seq<char>>) {
    match find_from(s, ": "@, 0) {
        Some(i) => (s.take(i), Some(s.skip(i + ": "@.len() as int))),
        None => (s, None),
    }
}

/// Whether a name is that of a JVM throwable: qualified, and ending in
/// `Exception` or `Error`.
pub open spec fn is_throwable_name(fqn: Seq<char>) -> bool {
    (starts_with(fqn, "java."@) || starts_with(fqn, "kotlin."@)) && (ends_with(
        last_segment(fqn),
        "Exception"@,
    ) || ends_with(last_segment(fqn), "Error"@))
}

/// The throwable that a fault message names; a message of the frontend's own
/// names none, so that no `catch` can swallow it.
pub open spec fn named_throwable(s: Seq<char>) -> Option<ObjView> {
    let (class, msg) = class_and_detail(s);
    if is_throwable_name(class) {
        Some(ObjView::Exc { class, msg })
    } else {
        None
    }
}

/// What the report of an uncaught exception starts with.
pub open spec fn report(s: Seq<char>) -> Seq<char> {
    "Exception in thread \"main\" "@ + s
}

/// Parse a `java.lang.Xxx: message` fault into a throwable.
pub fn throwable_from_message(s: &str) -> (r: Option<HeapObj>)
    ensures
        match r {
            Some(o) => named_throwable(s@) == Some(o@),
            None => named_throwable(s@) is None,
        },
{
    let v: Vec<char> = chars_of_str(s);
    let n: usize = v.len();
    let mark: Vec<char> = chars_of_str(": ");
    let (class, msg): (String, Option<String>) = match find(&v, &mark, 0) {
        Some(i) => {
            assert(v@.subrange(0, i as int) =~= v@.take(i as int));
            assert(v@.subrange(i + mark@.len(), v@.len() as int) =~= v@.skip(i + mark@.len()));
            (string_of(&v, 0, i), Some(string_of(&v, i + mark.len(), n)))
        },
        None => (s.to_owned(), None),
    };
    if !has_prefix(class.as_str(), "java.") && !has_prefix(class.as_str(), "kotlin.") {
        return None;
    }
    let last: String = simple_name(class.as_str());
    if !has_suffix(last.as_str(), "Exception") && !has_suffix(last.as_str(), "Error") {
        return None;
    }
    Some(HeapObj::Exc { class, msg })
}

// ── Raising ─────────────────────────────────────────────────────────────────

/// The state after `exc` is raised, and whether the run has to stop. The first
/// exception wins: one raised while another is in flight is dropped.
pub open spec fn raised(h: HostView, exc: Value) -> (HostView, bool) {
    if h.pending is Some {
        (h, false)
    } else if h.catchable {
        (HostView { pending: Some(exc), ..h }, false)
    } else {
        (
            HostView {
                error: Some(report(render_throwable(h, exc, Seq::empty(), budget(h)).0)),
                ..h
            },
            true,
        )
    }
}

/// The state after a fault, and whether the run has to stop. A fault that names
/// a throwable is raised where the program can catch; the rest stop the run. One
/// that comes while an exception is in flight is dropped.
pub open spec fn faulted(h: HostView, msg: Seq<char>) -> (HostView, bool) {
    if h.pending is Some {
        (h, false)
    } else {
        match named_throwable(msg) {
            Some(o) => if h.catchable {
                raised(h.allocated(o), h.next_handle())
            } else {
                (HostView { error: Some(report(msg)), ..h }, true)
            },
            None => (HostView { error: Some(msg), ..h }, true),
        }
    }
}

/// Make `exc` the in-flight exception. Answers whether the run has to stop.
pub fn raise(h: &mut Host, exc: Value) -> (halt: bool)
    ensures
        (final(h)@, halt) == raised(old(h)@, exc),
{
    if h.pending.is_some() {
        return false;
    }
    if h.catchable {
        h.pending = Some(exc);
        return false;
    }
    let text: String = throwable_str(h, exc);
    h.error = Some(concat2("Exception in thread \"main\" ", text.as_str()));
    true
}

/// Stop the run with `msg`, or raise the throwable that it names. Answers
/// whether the run has to stop.
pub fn fault(h: &mut Host, msg: String) -> (halt: bool)
    ensures
        (final(h)@, halt) == faulted(old(h)@, msg@),
{
    if h.pending.is_some() {
        return false;
    }
    match throwable_from_message(msg.as_str()) {
        Some(o) => {
            if h.catchable {
                let exc: Value = h.allocate(o);
                return raise(h, exc);
            }
            h.error = Some(concat2("Exception in thread \"main\" ", msg.as_str()));
            true
        },
        None => {
            h.error = Some(msg);
            true
        },
    }
}

/// The throwable that a constructor call makes: a null message is none.
pub open spec fn constructed(h: HostView, class: Seq<char>, msg: Value) -> ObjView {
    ObjView::Exc {
        class,
        msg: match msg {
            Value::Undef => None,
            _ => Some(text_of(h, msg)),
        },
    }
}

/// Construct a throwable of the class `class`.
pub fn exc_new(h: &mut Host, class: &str, msg: Value) -> (v: Value)
    ensures
        final(h)@ == old(h)@.allocated(constructed(old(h)@, class@, msg)),
        v == old(h)@.next_handle(),
{
    let text: Option<String> = match msg {
        Value::Undef => None,
        _ => Some(kotlin_string(h, msg)),
    };
    h.allocate(HeapObj::Exc { class: class.to_owned(), msg: text })
}

// ── Catching ────────────────────────────────────────────────────────────────

/// Whether the exception in flight is caught by a clause for `want`.
/// `Throwable` catches everything.
pub open spec fn catches(h: HostView, want: Seq<char>) -> bool {
    match h.pending {
        Some(v) => want == "Throwable"@ || caught_by(h, v, want),
        None => false,
    }
}

/// Whether the exception in flight is caught by a clause for `want`.
pub fn exc_match(h: &Host, want: &str) -> (r: bool)
    ensures
        r == catches(h@, want@),
{
    match h.pending {
        Some(v) => same(want, "Throwable") || throwable_matches(h, v, want),
        None => false,
    }
}

/// Take the exception in flight; null when there is none.
pub fn exc_take(h: &mut Host) -> (v: Value)
    ensures
        final(h)@ == (HostView { pending: None, ..old(h)@ }),
        v == (match old(h)@.pending {
            Some(e) => e,
            None => Value::Undef,
        }),
{
    match h.pending.take() {
        Some(e) => e,
        None => Value::Undef,
    }
}

/// The state with the exception in flight, or none, parked for the time of a
/// `finally` body.
pub open spec fn parked(h: HostView) -> HostView {
    HostView { pending: None, stash: h.stash.push(h.pending), ..h }
}

/// The state behind a `finally` body: what was parked is in flight again, unless
/// the body raised an exception of its own.
pub open spec fn unparked(h: HostView) -> HostView {
    if h.stash.len() == 0 {
        h
    } else {
        HostView {
            stash: h.stash.drop_last(),
            pending: if h.pending is None {
                h.stash.last()
            } else {
                h.pending
            },
            ..h
        }
    }
}

/// Park the exception in flight, before a `finally` body.
pub fn exc_stash(h: &mut Host)
    ensures
        final(h)@ == parked(old(h)@),
{
    let held: Option<Value> = h.pending.take();
    h.stash.push(held);
}

/// Put the parked exception in flight again, behind a `finally` body.
pub fn exc_unstash(h: &mut Host)
    ensures
        final(h)@ == unparked(old(h)@),
{
    match h.stash.pop() {
        None => {},
        Some(held) => {
            if h.pending.is_none() {
                h.pending = held;
            }
        },
    }
}

/// The state after an exception has reached the top: its report is left for the
/// runner.
pub open spec fn aborted(h: HostView) -> HostView {
    let exc = match h.pending {
        Some(e) => e,
        None => Value::Undef,
    };
    let g = HostView { pending: None, ..h };
    HostView {
        error: Some(report(render_throwable(g, exc, Seq::empty(), budget(g)).0)),
        ..g
    }
}

/// Report the exception in flight as uncaught; the run then stops.
pub fn exc_abort(h: &mut Host)
    ensures
        final(h)@ == aborted(old(h)@),
{
    let exc: Value = exc_take(h);
    let text: String = throwable_str(h, exc);
    h.error = Some(concat2("Exception in thread \"main\" ", text.as_str()));
}

/// The operand-stack length that a handler cuts back to: the recorded one,
/// unless the stack is shorter by now.
pub fn exc_cut(recorded: i64, len: usize) -> (n: usize)
    ensures
        n == (if recorded <= 0 {
            0
        } else if recorded <= len {
            recorded as int
        } else {
            len as int
        }),
{
    if recorded <= 0 {
        0
    } else if recorded as u128 <= len as u128 {
        recorded as usize
    } else {
        len
    }
}

/// What a print call writes: nothing while an exception is in flight.
pub open spec fn print_text(h: HostView, v: Option<Value>, newline: bool) -> Option<Seq<char>> {
    let text = match v {
        Some(x) => vm_text(h, x),
        None => Seq::empty(),
    };
    if h.pending is Some {
        None
    } else if newline {
        Some(text + "\n"@)
    } else {
        Some(text)
    }
}

/// What a print call writes.
pub fn printed(h: &Host, v: Option<Value>, newline: bool) -> (r: Option<String>)
    ensures
        opt_text(r) == print_text(h@, v, newline),
{
    if h.pending.is_some() {
        return None;
    }
    let s: String = match v {
        Some(x) => vm_string(h, x),
        None => String::new(),
    };
    assert(v is None ==> s@ =~= Seq::empty());
    if newline {
        Some(concat2(s.as_str(), "\n"))
    } else {
        Some(s)
    }
}

// ── Laws ────────────────────────────────────────────────────────────────────

/// The first exception wins: while one is in flight, neither a raise nor a fault
/// changes anything or stops the run.
pub proof fn law_first_exception_wins(h: HostView, exc: Value, msg: Seq<char>)
    requires
        h.pending is Some,
    ensures
        raised(h, exc) == (h, false),
        faulted(h, msg) == (h, false),
{
}

/// A `finally` body that completes leaves the exception that it interrupted in
/// flight, and one that raises replaces it.
pub proof fn law_finally(h: HostView, body: HostView)
    requires
        body.stash == parked(h).stash,
    ensures
        unparked(parked(h)) == h,
        unparked(body).stash == h.stash,
        body.pending is None ==> unparked(body).pending == h.pending,
        body.pending is Some ==> unparked(body).pending == body.pending,
{
    assert(parked(h).stash.drop_last() =~= h.stash);
    assert(unparked(parked(h)) =~= h);
}

/// A fault of the frontend's own is never raised: it stops the run, whether or
/// not the program can catch.
pub proof fn law_internal_faults_stop(h: HostView, msg: Seq<char>)
    requires
        h.pending is None,
        !is_throwable_name(class_and_detail(msg).0),
    ensures
        faulted(h, msg).1,
        faulted(h, msg).0.pending is None,
        faulted(h, msg).0.error == Some(msg),
{
}

/// `catch (e: Throwable)` catches whatever is in flight.
pub proof fn law_throwable_catches_all(h: HostView)
    requires
        h.pending is Some,
    ensures
        catches(h, "Throwable"@),
{
}

/// Nothing is printed between a raise and its handler.
pub proof fn law_nothing_prints_while_unwinding(h: HostView, v: Option<Value>, newline: bool)
    requires
        h.pending is Some,
    ensures
        print_text(h, v, newline) is None,
{
}

} // verus!
