//! What a program may rely on of a lazy sequence: what each stage lets through,
//! and when the source is asked.
use crate::hof::CallArgs;
use crate::value::{ObjView, Value};
use vstd::prelude::*;

verus! {

use crate::laws::names::lemma_names;
use crate::lazyseq::{
    lazy_stage, passing, pull_call, pull_noted, pull_of, short_found, with_stage, GenView, Place,
    PullView, GEN_PULL_CAP,
};
use crate::receiver::SeqKind;
use crate::reply::ReplyView;
use crate::value::Stage;

/// Whether a sequence may still be asked for an element, and has one to give.
pub open spec fn has_more(g: PullView) -> bool {
    &&& g.seed is Some
    &&& g.want is None
    &&& g.pulled < GEN_PULL_CAP
}

// ── The source ──────────────────────────────────────────────────────────────

/// The first element is the seed, and each further one what the step makes of the
/// one before; a null ends the sequence.
pub proof fn law_elements_follow_each_other(g: PullView, x: Value, next: Value)
    requires
        g.place == Place::Source(x),
        g.stages.len() == 0,
        g.want is None,
        g.pulled < GEN_PULL_CAP,
    ensures
        pull_call(g) == Some((g.step, CallArgs::One(x))),
        pull_noted(g, next).out == g.out.push(x),
        !(next is Undef) ==> pull_noted(g, next).place == Place::Source(next),
        next is Undef ==> pull_noted(g, next).place == Place::Done,
{
}

/// A pull starts at the seed with nothing taken; a sequence without a seed is
/// empty, and one of which nothing is wanted is not asked.
pub proof fn law_pulls_start_at_the_seed(g: GenView, x: Value, want: Option<int>)
    ensures
        pull_of(g, want).out.len() == 0,
        g.seed == Some(x) && want is None ==> pull_of(g, want).place == Place::Source(x),
        g.seed == Some(x) && want == Some(0int) ==> pull_of(g, want).place == Place::Done,
        g.seed is None ==> pull_of(g, want).place == Place::Done,
{
}

/// The source is asked for no more than was wanted.
pub proof fn law_pulls_stop_when_they_have_enough(g: PullView, x: Value, next: Value)
    requires
        g.place == Place::Source(x),
        g.stages.len() == 0,
        g.want == Some(g.out.len() + 1int),
    ensures
        pull_noted(g, next).place == Place::Done,
        pull_noted(g, next).out == g.out.push(x),
{
}

// ── Stages ──────────────────────────────────────────────────────────────────

/// The members of a sequence that wait for elements: which they are, and that each
/// stands behind those before it.
pub proof fn law_stages_are_added_behind(g: GenView, f: Value, s: Stage)
    ensures
        lazy_stage("map"@, f) == Some(Stage::Apply(f)),
        lazy_stage("filter"@, f) == Some(Stage::Filter(f, true)),
        lazy_stage("filterNot"@, f) == Some(Stage::Filter(f, false)),
        lazy_stage("takeWhile"@, f) == Some(Stage::TakeWhile(f)),
        lazy_stage("dropWhile"@, f) == Some(Stage::DropWhile(f, false)),
        with_stage(g, s) matches ObjView::Gen { seed, step, stages } && seed == g.seed && step
            == g.step && stages == g.stages + seq![s],
{
    lemma_names();
    assert(g.stages.push(s) =~= g.stages + seq![s]);
}

/// `map` lets through what its lambda makes of the element.
pub proof fn law_map(g: PullView, f: Value, x: Value, r: Value)
    requires
        g.stages == seq![Stage::Apply(f)],
        g.place == Place::At(0, x),
        has_more(g),
    ensures
        pull_call(g) == Some((f, CallArgs::One(x))),
        pull_noted(g, r).out == g.out.push(r),
        pull_noted(g, r).place == Place::Source(g.seed->0),
{
}

/// `filter` lets an element through that its lambda accepts, `filterNot` one that it
/// does not.
pub proof fn law_filter(g: PullView, f: Value, keep: bool, x: Value, b: bool)
    requires
        g.stages == seq![Stage::Filter(f, keep)],
        g.place == Place::At(0, x),
        has_more(g),
    ensures
        pull_call(g) == Some((f, CallArgs::One(x))),
        b == keep ==> pull_noted(g, Value::Bool(b)).out == g.out.push(x),
        b != keep ==> pull_noted(g, Value::Bool(b)).out == g.out,
        pull_noted(g, Value::Bool(b)).place == Place::Source(g.seed->0),
{
}

/// `takeWhile` lets elements through up to the first that its lambda does not
/// accept, and ends there.
pub proof fn law_take_while(g: PullView, f: Value, x: Value)
    requires
        g.stages == seq![Stage::TakeWhile(f)],
        g.place == Place::At(0, x),
        has_more(g),
    ensures
        pull_call(g) == Some((f, CallArgs::One(x))),
        pull_noted(g, Value::Bool(true)).out == g.out.push(x),
        pull_noted(g, Value::Bool(true)).place == Place::Source(g.seed->0),
        pull_noted(g, Value::Bool(false)).out == g.out,
        pull_noted(g, Value::Bool(false)).place == Place::Done,
{
}

/// `dropWhile` leaves elements out as long as its lambda accepts them, and from the
/// first that it does not lets every one through without asking.
pub proof fn law_drop_while(g: PullView, f: Value, x: Value, next: Value)
    requires
        g.stages == seq![Stage::DropWhile(f, false)],
        g.place == Place::At(0, x),
        has_more(g),
        g.pulled + 1 < GEN_PULL_CAP,
    ensures
        pull_call(g) == Some((f, CallArgs::One(x))),
        pull_noted(g, Value::Bool(true)).out == g.out,
        pull_noted(g, Value::Bool(false)).out == g.out.push(x),
        pull_noted(pull_noted(g, Value::Bool(false)), next).out == g.out.push(x).push(g.seed->0),
{
    let a = pull_noted(g, Value::Bool(false));
    assert(a.stages =~= seq![Stage::DropWhile(f, true)]);
    assert(a.place == Place::Source(g.seed->0));
    let b = PullView {
        seed: if next == Value::Undef {
            None
        } else {
            Some(next)
        },
        ..a
    };
    assert(passing(b, 1, g.seed->0).out == a.out.push(g.seed->0));
    assert(passing(b, 0, g.seed->0).out == a.out.push(g.seed->0));
}

/// `take` lets so many elements through and then ends.
pub proof fn law_take(g: PullView, n: i64, x: Value)
    requires
        g.stages == seq![Stage::Take(n)],
        has_more(g),
    ensures
        n > 0 ==> passing(g, 0, x).out == g.out.push(x) && passing(g, 0, x).stages
            == seq![Stage::Take((n - 1) as i64)],
        n <= 0 ==> passing(g, 0, x).out == g.out && passing(g, 0, x).place == Place::Done,
{
    if n > 0 {
        let a = PullView { stages: g.stages.update(0, Stage::Take((n - 1) as i64)), ..g };
        assert(a.stages =~= seq![Stage::Take((n - 1) as i64)]);
        assert(passing(a, 1, x).out == g.out.push(x));
    }
}

/// `drop` leaves so many elements out and lets every further one through.
pub proof fn law_drop(g: PullView, n: i64, x: Value)
    requires
        g.stages == seq![Stage::Drop(n)],
        has_more(g),
    ensures
        n > 0 ==> passing(g, 0, x).out == g.out && passing(g, 0, x).stages == seq![
            Stage::Drop((n - 1) as i64),
        ],
        n <= 0 ==> passing(g, 0, x).out == g.out.push(x) && passing(g, 0, x).stages == g.stages,
{
    if n > 0 {
        assert(g.stages.update(0, Stage::Drop((n - 1) as i64)) =~= seq![
            Stage::Drop((n - 1) as i64),
        ]);
    } else {
        assert(passing(g, 1, x).out == g.out.push(x));
    }
}

/// What a stage lets through, the next stage is handed.
pub proof fn law_stages_in_a_row(g: PullView, f: Value, k: Value, x: Value, r: Value)
    requires
        g.stages == seq![Stage::Apply(f), Stage::Filter(k, true)],
        g.place == Place::At(0, x),
    ensures
        pull_call(g) == Some((f, CallArgs::One(x))),
        pull_call(pull_noted(g, r)) == Some((k, CallArgs::One(r))),
        pull_noted(g, r).out == g.out,
{
    assert(passing(g, 1, r).place == Place::At(1, r));
}

// ── Searches ────────────────────────────────────────────────────────────────

/// A search answers with what it found: the element, that there is one, or its
/// position; with nothing found there is none, and `first` fails.
pub proof fn law_searches(kind: SeqKind, k: i64, v: Value)
    requires
        k >= 0,
    ensures
        short_found(kind, "first"@, Some((k as int, v))) == ReplyView::Value(v),
        short_found(kind, "firstOrNull"@, Some((k as int, v))) == ReplyView::Value(v),
        short_found(kind, "find"@, Some((k as int, v))) == ReplyView::Value(v),
        short_found(kind, "any"@, Some((k as int, v))) == ReplyView::Value(Value::Bool(true)),
        short_found(kind, "indexOfFirst"@, Some((k as int, v))) == ReplyView::Value(Value::Int(k)),
        short_found(kind, "first"@, None) is Fault,
        short_found(kind, "firstOrNull"@, None) == ReplyView::Value(Value::Undef),
        short_found(kind, "find"@, None) == ReplyView::Value(Value::Undef),
        short_found(kind, "any"@, None) == ReplyView::Value(Value::Bool(false)),
        short_found(kind, "indexOfFirst"@, None) == ReplyView::Value(Value::Int((-1) as i64)),
{
    lemma_names();
}

} // verus!
