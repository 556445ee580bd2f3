//! Collection members with a lambda, from the call to the answer.
//!
//! A job is such a member under way. The machine runs the calls that it asks for
//! and hands the results back; a lazy receiver is worked off in the same way.
use crate::hof::{hof_next, hof_note, hof_start, CallArgs, Notes, Plan, Step};
use crate::host::Host;
use crate::lazyseq::{endless_fault, gen_pull, gen_with, is_gen, stage_of, Place, Pull, Search};
use crate::receiver::{seq_kind_of, SeqKind};
use crate::reply::Reply;
use crate::text::same;
use crate::value::{copy_values, HeapObj, Value};
use crate::walk::{Stop, Turn};
use vstd::prelude::*;

verus! {

use crate::hof::{
    fits,
    hof_step,
    law_a_call_leaves_room,
    noted,
    plan_view,
    started,
    NotesView,
    PlanView,
    StepView,
};
use crate::host::HostView;
use crate::lazyseq::{
    endless_message,
    gen_of,
    is_short_search,
    lazy_stage,
    pull_call,
    pull_noted,
    pull_of,
    search_noted,
    search_of,
    short_search,
    with_stage,
    PullView,
    SearchView,
};
use crate::receiver::kind_of;
use crate::reply::ReplyView;
use crate::value::ObjView;
use crate::walk::Answers;

/// A member under way.
#[derive(Debug, PartialEq, Eq)]
pub enum Job {
    /// A search that pulls a lazy sequence only as far as it must.
    Search { search: Search, name: String, lambda: Value },
    /// A lazy sequence being pulled into the list that the member works on.
    Pulling { pull: Pull, name: String, extras: Vec<Value>, lambda: Value },
    /// A member of a receiver that is there.
    Member(Plan),
}

/// A [`Job`] as a mathematical value.
#[verifier::ext_equal]
pub enum JobView {
    Search { search: SearchView, name: Seq<char>, lambda: Value },
    Pulling { pull: PullView, name: Seq<char>, extras: Seq<Value>, lambda: Value },
    Member(PlanView),
}

impl View for Job {
    type V = JobView;

    open spec fn view(&self) -> JobView {
        match self {
            Job::Search { search, name, lambda } => JobView::Search {
                search: search@,
                name: name@,
                lambda: *lambda,
            },
            Job::Pulling { pull, name, extras, lambda } => JobView::Pulling {
                pull: pull@,
                name: name@,
                extras: extras@,
                lambda: *lambda,
            },
            Job::Member(p) => JobView::Member(p@),
        }
    }
}

/// What a job does next.
#[derive(Debug, PartialEq, Eq)]
pub enum Progress {
    Call(Value, CallArgs),
    Done(Reply),
    /// Go on with another job, whose calls start anew.
    Next(Job),
}

/// A [`Progress`] as a mathematical value.
#[verifier::ext_equal]
pub enum ProgressView {
    Call(Value, CallArgs),
    Done(ReplyView),
    Next(JobView),
}

impl View for Progress {
    type V = ProgressView;

    open spec fn view(&self) -> ProgressView {
        match self {
            Progress::Call(f, a) => ProgressView::Call(*f, *a),
            Progress::Done(r) => ProgressView::Done(r@),
            Progress::Next(j) => ProgressView::Next(j@),
        }
    }
}

/// A step as the progress of a job.
pub open spec fn progress_of(s: StepView) -> ProgressView {
    match s {
        StepView::Call(f, a) => ProgressView::Call(f, a),
        StepView::Done(r) => ProgressView::Done(r),
    }
}

/// The progress of a started plan.
pub open spec fn begun(r: Result<PlanView, Seq<char>>) -> ProgressView {
    match r {
        Ok(p) => ProgressView::Next(JobView::Member(p)),
        Err(m) => ProgressView::Done(ReplyView::Fault(m)),
    }
}

/// The state with a list in place of the lazy sequence that gave it, and the
/// list.
pub open spec fn materialized(h: HostView, items: Seq<Value>) -> (HostView, Value) {
    (
        h.allocated(ObjView::List(items)).with_sequence_tag(h.next_handle()),
        h.next_handle(),
    )
}

/// The start of a member call: what can be answered at once, or a job.
pub open spec fn job_started(
    h: HostView,
    name: Seq<char>,
    recv: Value,
    extras: Seq<Value>,
    lambda: Value,
) -> (HostView, ProgressView) {
    match gen_of(h, recv) {
        Some(g) => match lazy_stage(name, lambda) {
            Some(stage) => (h, ProgressView::Done(ReplyView::Object(with_stage(g, stage)))),
            None => (
                h,
                ProgressView::Next(
                    if is_short_search(name) {
                        JobView::Search { search: search_of(g), name, lambda }
                    } else {
                        JobView::Pulling { pull: pull_of(g, None), name, extras, lambda }
                    },
                ),
            ),
        },
        None => {
            let (g, r) = started(h, name, recv, extras, lambda, kind_of(h, recv));
            (g, begun(r))
        },
    }
}

/// What a job does next, given the results of its calls so far, and the state
/// that it leaves.
pub open spec fn job_step(h: HostView, j: JobView, rs: Seq<Value>, log: Answers) -> (
    HostView,
    Result<ProgressView, Stop>,
) {
    match j {
        JobView::Search { search, name, lambda } => (
            h,
            Ok(progress_of(short_search(search, SeqKind::Lazy, name, lambda))),
        ),
        JobView::Pulling { pull, name, extras, lambda } => match pull_call(pull) {
            Some((f, a)) => (h, Ok(ProgressView::Call(f, a))),
            None => if pull.place == Place::Endless {
                (h, Ok(ProgressView::Done(ReplyView::Fault(endless_message()))))
            } else {
                let (g1, list) = materialized(h, pull.out);
                let (g2, r) = started(g1, name, list, extras, lambda, SeqKind::Lazy);
                (g2, Ok(begun(r)))
            },
        },
        JobView::Member(p) => (
            h,
            match hof_step(h, p, rs, log) {
                Ok(s) => Ok(progress_of(s)),
                Err(s) => Err(s),
            },
        ),
    }
}

/// The progress of a job, or why there is none yet, as a mathematical value.
pub open spec fn progressed(r: Result<Progress, Stop>) -> Result<ProgressView, Stop> {
    match r {
        Ok(p) => Ok(p@),
        Err(s) => Err(s),
    }
}

/// Whether `n` results are no more than the job asks for.
pub open spec fn job_fits(j: JobView, n: nat) -> bool {
    j matches JobView::Member(p) ==> fits(p, n)
}

/// Put a list in place of the lazy sequence that gave it.
pub fn materialize(h: &mut Host, items: Vec<Value>) -> (v: Value)
    ensures
        (final(h)@, v) == materialized(old(h)@, items@),
{
    let v: Value = h.allocate(HeapObj::List(items));
    h.tag_sequence(v);
    v
}

fn begin(r: Result<Plan, String>) -> (p: Progress)
    ensures
        p@ == begun(plan_view(r)),
{
    match r {
        Ok(p) => Progress::Next(Job::Member(p)),
        Err(m) => Progress::Done(Reply::Fault(m)),
    }
}

fn progress(s: Step) -> (p: Progress)
    ensures
        p@ == progress_of(s@),
{
    match s {
        Step::Call(f, a) => Progress::Call(f, a),
        Step::Done(r) => Progress::Done(r),
    }
}

fn short_name(name: &str) -> (r: bool)
    ensures
        r == is_short_search(name@),
{
    same(name, "first") || same(name, "firstOrNull") || same(name, "find") || same(name, "any")
        || same(name, "indexOfFirst")
}

/// Start a member that takes a lambda.
pub fn start(h: &mut Host, name: &str, recv: Value, extras: &Vec<Value>, lambda: Value) -> (p: Progress)
    ensures
        (final(h)@, p@) == job_started(old(h)@, name@, recv, extras@, lambda),
{
    if is_gen(h, recv) {
        if let Some(stage) = stage_of(name, lambda) {
            return Progress::Done(Reply::Object(gen_with(h, recv, stage)));
        }
        if short_name(name) {
            if let Some(search) = Search::start(h, recv) {
                return Progress::Next(Job::Search { search, name: name.to_owned(), lambda });
            }
        } else if let Some(pull) = gen_pull(h, recv, None) {
            return Progress::Next(
                Job::Pulling { pull, name: name.to_owned(), extras: copy_values(extras), lambda },
            );
        }
    }
    let kind: SeqKind = seq_kind_of(h, recv);
    begin(hof_start(h, name, recv, extras, lambda, kind))
}

/// What a job does next, given the results of its calls so far.
pub fn advance(h: &mut Host, j: &Job, rs: &Vec<Value>, answers: &Vec<Turn>) -> (r: Result<
    Progress,
    Stop,
>)
    requires
        job_fits(j@, rs@.len()),
    ensures
        (final(h)@, progressed(r)) == job_step(old(h)@, j@, rs@, answers@),
{
    match j {
        Job::Search { search, name, lambda } => Ok(
            progress(search.next(SeqKind::Lazy, name.as_str(), *lambda)),
        ),
        Job::Pulling { pull, name, extras, lambda } => match pull.call() {
            Some((f, a)) => Ok(Progress::Call(f, a)),
            None => {
                if let Place::Endless = pull.place {
                    return Ok(Progress::Done(Reply::Fault(endless_fault())));
                }
                let list: Value = materialize(h, copy_values(&pull.out));
                Ok(begin(hof_start(h, name.as_str(), list, extras, *lambda, SeqKind::Lazy)))
            },
        },
        Job::Member(p) => match hof_next(h, p, rs, answers) {
            Ok(s) => Ok(progress(s)),
            Err(s) => Err(s),
        },
    }
}

/// The plan that counts how many elements have each key a lambda gives.
pub open spec fn counting(items: Seq<Value>, key: Value) -> PlanView {
    PlanView {
        name: "Grouping.eachCount"@,
        kind: SeqKind::List,
        recv: Value::Undef,
        extras: Seq::empty(),
        lambda: key,
        items,
        other: Seq::empty(),
        text: false,
        notes: NotesView::empty(items.len()),
    }
}

/// The job that counts how many elements have each key a lambda gives.
pub fn count_each(items: Vec<Value>, key: Value) -> (j: Job)
    ensures
        j@ == JobView::Member(counting(items@, key)),
        job_fits(j@, 0),
{
    let notes: Notes = Notes::new(items.len());
    let p = Plan {
        name: "Grouping.eachCount".to_owned(),
        kind: SeqKind::List,
        recv: Value::Undef,
        extras: Vec::new(),
        lambda: key,
        items,
        other: Vec::new(),
        text: false,
        notes,
    };
    assert(p@ =~= counting(items@, key));
    Job::Member(p)
}

/// The job with the result `v` of call `k` noted.
pub open spec fn job_noted(h: HostView, j: JobView, k: int, v: Value, log: Answers) -> Result<
    JobView,
    Stop,
> {
    match j {
        JobView::Member(p) => match noted(h, p, k, v, log) {
            Ok(q) => Ok(JobView::Member(q)),
            Err(s) => Err(s),
        },
        JobView::Search { search, name, lambda } => Ok(
            JobView::Search { search: search_noted(search, v), name, lambda },
        ),
        JobView::Pulling { pull, name, extras, lambda } => Ok(
            JobView::Pulling { pull: pull_noted(pull, v), name, extras, lambda },
        ),
    }
}

/// Note the result `v` of call `k`, as soon as it has come. Nothing is noted while a
/// declared `equals` or `hashCode` of a key has to be run first, nor when a
/// comparison of keys has no end.
pub fn note(h: &Host, j: &mut Job, k: usize, v: Value, answers: &Vec<Turn>) -> (r: Result<
    (),
    Stop,
>)
    ensures
        match job_noted(h@, old(j)@, k as int, v, answers@) {
            Ok(q) => r is Ok && final(j)@ == q,
            Err(s) => r == Err::<(), Stop>(s) && final(j)@ == old(j)@,
        },
{
    match j {
        Job::Member(p) => hof_note(h, p, k, v, answers),
        Job::Search { search, .. } => {
            search.note(v);
            Ok(())
        },
        Job::Pulling { pull, .. } => {
            pull.note(v);
            Ok(())
        },
    }
}

/// A job that asks for a call is ready for its result once that is noted, and one
/// that has just started is ready to go on.
pub proof fn law_jobs_go_on(
    h: HostView,
    j: JobView,
    rs: Seq<Value>,
    log: Answers,
    g: HostView,
    v: Value,
    turns: Answers,
)
    requires
        job_fits(j, rs.len()),
    ensures
        job_step(h, j, rs, log).1 matches Ok(ProgressView::Call(_, _)) && job_noted(
            g,
            j,
            rs.len() as int,
            v,
            turns,
        ) is Ok ==> job_fits(job_noted(g, j, rs.len() as int, v, turns)->Ok_0, rs.len() + 1),
        job_step(h, j, rs, log).1 matches Ok(ProgressView::Next(k)) ==> job_fits(k, 0),
{
    if let JobView::Member(p) = j {
        if hof_step(h, p, rs, log) is Ok && hof_step(h, p, rs, log)->Ok_0 is Call && noted(
            g,
            p,
            rs.len() as int,
            v,
            turns,
        ) is Ok {
            law_a_call_leaves_room(h, p, rs, log, g, v, turns);
        }
    }
}

/// The members that stay lazy run no lambda: they answer a new lazy sequence at
/// once and leave the old one as it was.
pub proof fn law_stages_are_lazy(
    h: HostView,
    name: Seq<char>,
    recv: Value,
    extras: Seq<Value>,
    lambda: Value,
)
    requires
        gen_of(h, recv) is Some,
        lazy_stage(name, lambda) is Some,
    ensures
        job_started(h, name, recv, extras, lambda).0 == h,
        job_started(h, name, recv, extras, lambda).1 == ProgressView::Done(
            ReplyView::Object(with_stage(gen_of(h, recv)->0, lazy_stage(name, lambda)->0)),
        ),
{
}

} // verus!
