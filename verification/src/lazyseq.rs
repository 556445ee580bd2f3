//! Lazy sequences: a generator, and the stages its elements pass through.
//!
//! Advancing the generator and applying a stage call lambdas. A pull is therefore
//! a state: it names the call that it needs, and goes on with the result.
use crate::hof::{CallArgs, Step};
use crate::host::Host;
use crate::receiver::SeqKind;
use crate::reply::Reply;
use crate::text::same;
use crate::value::{truthy, HeapObj, Stage, Value};
use vstd::prelude::*;

verus! {

use crate::hof::StepView;
use crate::host::HostView;
use crate::reply::ReplyView;
use crate::strings::as_int;
use crate::value::{holds, ObjView};

/// How many elements a pipeline without an end may produce.
pub const GEN_PULL_CAP: usize = 1_000_000;

/// A lazy sequence: the next element, the step that follows it, and the stages.
#[verifier::ext_equal]
pub struct GenView {
    pub seed: Option<Value>,
    pub step: Value,
    pub stages: Seq<Stage>,
}

/// The parts of a lazy sequence.
pub open spec fn gen_of(h: HostView, v: Value) -> Option<GenView> {
    match h.obj(v) {
        Some(ObjView::Gen { seed, step, stages }) => Some(GenView { seed, step, stages }),
        _ => None,
    }
}

// ── Pulling ─────────────────────────────────────────────────────────────────

/// Where a pull stands.
#[derive(Clone, Copy, Debug, PartialEq, Eq, Structural)]
pub enum Place {
    /// The generator is asked for what follows this element.
    Source(Value),
    /// The stage at this position is asked about this element.
    At(usize, Value),
    /// There are as many elements as were wanted, or no more.
    Done,
    /// The pipeline produced too much without an end.
    Endless,
}

/// A pull under way: what is left of the sequence, how many elements are wanted,
/// those that have come out, and how many the generator has given.
#[derive(Debug, PartialEq, Eq)]
pub struct Pull {
    pub seed: Option<Value>,
    pub step: Value,
    pub stages: Vec<Stage>,
    pub want: Option<usize>,
    pub out: Vec<Value>,
    pub pulled: usize,
    pub place: Place,
}

/// A [`Pull`] as a mathematical value.
#[verifier::ext_equal]
pub struct PullView {
    pub seed: Option<Value>,
    pub step: Value,
    pub stages: Seq<Stage>,
    pub want: Option<int>,
    pub out: Seq<Value>,
    pub pulled: int,
    pub place: Place,
}

/// A wanted number as a mathematical value.
pub open spec fn wanted(want: Option<usize>) -> Option<int> {
    match want {
        Some(n) => Some(n as int),
        None => None,
    }
}

impl View for Pull {
    type V = PullView;

    open spec fn view(&self) -> PullView {
        PullView {
            seed: self.seed,
            step: self.step,
            stages: self.stages@,
            want: wanted(self.want),
            out: self.out@,
            pulled: self.pulled as int,
            place: self.place,
        }
    }
}

/// The pull on its way to the next element, if there is to be one.
pub open spec fn fetching(g: PullView) -> PullView {
    match g.seed {
        None => PullView { place: Place::Done, ..g },
        Some(cur) => if g.want matches Some(n) && g.out.len() >= n {
            PullView { place: Place::Done, ..g }
        } else if g.pulled >= GEN_PULL_CAP {
            PullView { place: Place::Endless, ..g }
        } else {
            PullView { place: Place::Source(cur), pulled: g.pulled + 1, ..g }
        },
    }
}

/// The pull with `x` on its way through the stages from `i` on, as far as it gets
/// without a call.
pub open spec fn passing(g: PullView, i: int, x: Value) -> PullView
    decreases g.stages.len() - i,
{
    if i < 0 || i >= g.stages.len() {
        fetching(PullView { out: g.out.push(x), ..g })
    } else {
        match g.stages[i] {
            Stage::DropWhile(_, true) => passing(g, i + 1, x),
            Stage::Take(n) => if n <= 0 {
                PullView { place: Place::Done, ..g }
            } else {
                passing(
                    PullView { stages: g.stages.update(i, Stage::Take((n - 1) as i64)), ..g },
                    i + 1,
                    x,
                )
            },
            Stage::Drop(n) => if n > 0 {
                fetching(
                    PullView { stages: g.stages.update(i, Stage::Drop((n - 1) as i64)), ..g },
                )
            } else {
                passing(g, i + 1, x)
            },
            _ => PullView { place: Place::At(i as usize, x), ..g },
        }
    }
}

/// The start of a pull of `want` elements, or of all.
pub open spec fn pull_of(g: GenView, want: Option<int>) -> PullView {
    fetching(
        PullView {
            seed: g.seed,
            step: g.step,
            stages: g.stages,
            want,
            out: Seq::empty(),
            pulled: 0,
            place: Place::Done,
        },
    )
}

/// The call that a pull needs next.
pub open spec fn pull_call(g: PullView) -> Option<(Value, CallArgs)> {
    match g.place {
        Place::Source(cur) => Some((g.step, CallArgs::One(cur))),
        Place::At(i, x) => if i < g.stages.len() {
            match g.stages[i as int] {
                Stage::Apply(f) => Some((f, CallArgs::One(x))),
                Stage::Filter(f, _) => Some((f, CallArgs::One(x))),
                Stage::TakeWhile(f) => Some((f, CallArgs::One(x))),
                Stage::DropWhile(f, _) => Some((f, CallArgs::One(x))),
                _ => None,
            }
        } else {
            None
        },
        _ => None,
    }
}

/// The pull with the result of its call. The generator advances before the
/// stages see an element, and a null ends it.
pub open spec fn pull_noted(g: PullView, v: Value) -> PullView {
    match g.place {
        Place::Source(cur) => passing(
            PullView {
                seed: if v == Value::Undef {
                    None
                } else {
                    Some(v)
                },
                ..g
            },
            0,
            cur,
        ),
        Place::At(i, x) => if i < g.stages.len() {
            match g.stages[i as int] {
                Stage::Apply(_) => passing(g, i + 1, v),
                Stage::Filter(_, keep) => if holds(v) == keep {
                    passing(g, i + 1, x)
                } else {
                    fetching(g)
                },
                Stage::TakeWhile(_) => if holds(v) {
                    passing(g, i + 1, x)
                } else {
                    PullView { place: Place::Done, ..g }
                },
                Stage::DropWhile(f, _) => if holds(v) {
                    fetching(g)
                } else {
                    passing(
                        PullView {
                            stages: g.stages.update(i as int, Stage::DropWhile(f, true)),
                            ..g
                        },
                        i + 1,
                        x,
                    )
                },
                _ => g,
            }
        } else {
            g
        },
        _ => g,
    }
}

/// The fault of a pipeline without an end.
pub open spec fn endless_message() -> Seq<char> {
    "java.lang.IllegalStateException: sequence produced more than 1000000 elements without a `take`, `takeWhile` or a step returning null"@
}

/// The fault of a pipeline without an end.
pub fn endless_fault() -> (s: String)
    ensures
        s@ == endless_message(),
{
    "java.lang.IllegalStateException: sequence produced more than 1000000 elements without a `take`, `takeWhile` or a step returning null".to_owned()
}

impl Pull {
    fn fetch(&mut self)
        ensures
            final(self)@ == fetching(old(self)@),
    {
        match self.seed {
            None => {
                self.place = Place::Done;
            },
            Some(cur) => {
                let enough: bool = match self.want {
                    Some(n) => self.out.len() >= n,
                    None => false,
                };
                if enough {
                    self.place = Place::Done;
                } else if self.pulled >= GEN_PULL_CAP {
                    self.place = Place::Endless;
                } else {
                    self.place = Place::Source(cur);
                    self.pulled = self.pulled + 1;
                }
            },
        }
    }

    fn pass(&mut self, from: usize, x: Value)
        ensures
            final(self)@ == passing(old(self)@, from as int, x),
    {
        let ghost goal = passing(self@, from as int, x);
        let mut i: usize = from;
        while i < self.stages.len()
            invariant
                passing(self@, i as int, x) == goal,
                goal == passing(old(self)@, from as int, x),
            decreases self.stages@.len() - i,
        {
            match self.stages[i] {
                Stage::DropWhile(_, true) => {},
                Stage::Take(n) => {
                    if n <= 0 {
                        self.place = Place::Done;
                        return;
                    }
                    let ghost before = self@;
                    self.stages.set(i, Stage::Take(n - 1));
                    assert(self@ =~= PullView {
                        stages: before.stages.update(i as int, Stage::Take((n - 1) as i64)),
                        ..before
                    });
                },
                Stage::Drop(n) => {
                    if n > 0 {
                        let ghost before = self@;
                        self.stages.set(i, Stage::Drop(n - 1));
                        assert(self@ =~= PullView {
                            stages: before.stages.update(i as int, Stage::Drop((n - 1) as i64)),
                            ..before
                        });
                        self.fetch();
                        return;
                    }
                },
                _ => {
                    self.place = Place::At(i, x);
                    return;
                },
            }
            i = i + 1;
        }
        let ghost before = self@;
        self.out.push(x);
        assert(self@ =~= PullView { out: before.out.push(x), ..before });
        self.fetch();
    }

    /// The call that the pull needs next.
    pub fn call(&self) -> (r: Option<(Value, CallArgs)>)
        ensures
            r == pull_call(self@),
    {
        match self.place {
            Place::Source(cur) => Some((self.step, CallArgs::One(cur))),
            Place::At(i, x) => if i < self.stages.len() {
                match self.stages[i] {
                    Stage::Apply(f) => Some((f, CallArgs::One(x))),
                    Stage::Filter(f, _) => Some((f, CallArgs::One(x))),
                    Stage::TakeWhile(f) => Some((f, CallArgs::One(x))),
                    Stage::DropWhile(f, _) => Some((f, CallArgs::One(x))),
                    _ => None,
                }
            } else {
                None
            },
            _ => None,
        }
    }

    /// Go on with the result of the call.
    pub fn note(&mut self, v: Value)
        ensures
            final(self)@ == pull_noted(old(self)@, v),
    {
        let ghost before = self@;
        match self.place {
            Place::Source(cur) => {
                self.seed = match v {
                    Value::Undef => None,
                    next => Some(next),
                };
                self.pass(0, cur);
            },
            Place::At(i, x) => {
                if i < self.stages.len() {
                    match self.stages[i] {
                        Stage::Apply(_) => {
                            self.pass(i + 1, v);
                        },
                        Stage::Filter(_, keep) => {
                            if truthy(&v) == keep {
                                self.pass(i + 1, x);
                            } else {
                                self.fetch();
                            }
                        },
                        Stage::TakeWhile(_) => {
                            if truthy(&v) {
                                self.pass(i + 1, x);
                            } else {
                                self.place = Place::Done;
                            }
                        },
                        Stage::DropWhile(f, _) => {
                            if truthy(&v) {
                                self.fetch();
                            } else {
                                self.stages.set(i, Stage::DropWhile(f, true));
                                assert(self@ =~= PullView {
                                    stages: before.stages.update(
                                        i as int,
                                        Stage::DropWhile(f, true),
                                    ),
                                    ..before
                                });
                                self.pass(i + 1, x);
                            }
                        },
                        _ => {},
                    }
                }
            },
            _ => {},
        }
    }
}

fn copy_stages(v: &Vec<Stage>) -> (r: Vec<Stage>)
    ensures
        r@ == v@,
{
    let mut r: Vec<Stage> = Vec::new();
    let mut i: usize = 0;
    while i < v.len()
        invariant
            i <= v@.len(),
            r@ == v@.take(i as int),
        decreases v.len() - i,
    {
        r.push(v[i]);
        i = i + 1;
        assert(v@.take(i as int) =~= v@.take(i - 1).push(v@[i - 1]));
    }
    assert(v@.take(i as int) =~= v@);
    r
}

fn pull_start(seed: Option<Value>, step: Value, stages: Vec<Stage>, want: Option<usize>) -> (p: Pull)
    ensures
        p@ == pull_of(GenView { seed, step, stages: stages@ }, wanted(want)),
{
    let mut p = Pull {
        seed,
        step,
        stages,
        want,
        out: Vec::new(),
        pulled: 0,
        place: Place::Done,
    };
    assert(p@.out =~= Seq::empty());
    p.fetch();
    p
}

/// Start to pull `want` elements, or all, out of a lazy sequence. `None` when it
/// is none. The sequence itself stays as it is.
pub fn gen_pull(h: &Host, gen: Value, want: Option<usize>) -> (r: Option<Pull>)
    ensures
        match r {
            Some(p) => gen_of(h@, gen) matches Some(g) && p@ == pull_of(g, wanted(want)),
            None => gen_of(h@, gen) is None,
        },
{
    match h.obj(gen) {
        Some(HeapObj::Gen { seed, step, stages }) => Some(
            pull_start(*seed, *step, copy_stages(stages), want),
        ),
        _ => None,
    }
}

/// Whether a pull has brought no more elements than the generator has given or
/// than were wanted, and the generator no more than the cap.
pub open spec fn is_bounded(g: PullView) -> bool {
    &&& g.out.len() <= g.pulled <= GEN_PULL_CAP
    &&& g.place is Source || g.place is At ==> g.out.len() < g.pulled
    &&& g.want matches Some(n) ==> 0 <= n && g.out.len() <= n && (g.place is Source || g.place is At
        ==> g.out.len() < n)
}

proof fn lemma_passing_bounded(g: PullView, i: int, x: Value)
    requires
        is_bounded(PullView { place: Place::At(0, x), ..g }),
    ensures
        is_bounded(passing(g, i, x)),
        passing(g, i, x).want == g.want,
        g.out.is_prefix_of(passing(g, i, x).out),
    decreases g.stages.len() - i,
{
    if 0 <= i < g.stages.len() {
        match g.stages[i] {
            Stage::DropWhile(_, true) => {
                lemma_passing_bounded(g, i + 1, x);
            },
            Stage::Take(n) => if n > 0 {
                lemma_passing_bounded(
                    PullView { stages: g.stages.update(i, Stage::Take((n - 1) as i64)), ..g },
                    i + 1,
                    x,
                );
            },
            Stage::Drop(n) => if n <= 0 {
                lemma_passing_bounded(g, i + 1, x);
            },
            _ => {},
        }
    }
}

/// A pull brings at most as many elements as were wanted, and the generator gives
/// no more than the cap; what has come out stays.
pub proof fn law_pull_is_bounded(g: GenView, want: Option<int>, p: PullView, v: Value)
    requires
        want matches Some(n) ==> n >= 0,
        is_bounded(p),
    ensures
        is_bounded(pull_of(g, want)),
        is_bounded(pull_noted(p, v)),
        pull_noted(p, v).want == p.want,
        p.out.is_prefix_of(pull_noted(p, v).out),
{
    match p.place {
        Place::Source(cur) => {
            lemma_passing_bounded(
                PullView {
                    seed: if v == Value::Undef {
                        None
                    } else {
                        Some(v)
                    },
                    ..p
                },
                0,
                cur,
            );
        },
        Place::At(i, x) => if i < p.stages.len() {
            match p.stages[i as int] {
                Stage::Apply(_) => {
                    lemma_passing_bounded(p, i + 1, v);
                },
                Stage::DropWhile(f, _) => {
                    lemma_passing_bounded(
                        PullView {
                            stages: p.stages.update(i as int, Stage::DropWhile(f, true)),
                            ..p
                        },
                        i + 1,
                        x,
                    );
                },
                _ => {
                    lemma_passing_bounded(p, i + 1, x);
                },
            }
        },
        _ => {},
    }
}

// ── Making sequences ────────────────────────────────────────────────────────

/// A new lazy sequence: `g` with a stage appended. The base keeps its own
/// stages.
pub open spec fn with_stage(g: GenView, stage: Stage) -> ObjView {
    ObjView::Gen { seed: g.seed, step: g.step, stages: g.stages.push(stage) }
}

/// A new lazy sequence: that of `gen` with a stage appended.
pub fn gen_with(h: &Host, gen: Value, stage: Stage) -> (o: HeapObj)
    requires
        gen_of(h@, gen) is Some,
    ensures
        o@ == with_stage(gen_of(h@, gen)->0, stage),
{
    let mut seed: Option<Value> = None;
    let mut step: Value = Value::Undef;
    let mut stages: Vec<Stage> = Vec::new();
    if let Some(HeapObj::Gen { seed: s, step: f, stages: t }) = h.obj(gen) {
        seed = *s;
        step = *f;
        stages = copy_stages(t);
    }
    stages.push(stage);
    HeapObj::Gen { seed, step, stages }
}

/// Whether `v` is a lazy sequence.
pub fn is_gen(h: &Host, v: Value) -> (r: bool)
    ensures
        r == (gen_of(h@, v) is Some),
{
    match h.obj(v) {
        Some(HeapObj::Gen { .. }) => true,
        _ => false,
    }
}

/// `generateSequence(seed) { … }`: a null seed is an empty sequence.
pub fn genseq(seed: Value, step: Value) -> (o: HeapObj)
    ensures
        o@ == (ObjView::Gen {
            seed: if seed == Value::Undef {
                None
            } else {
                Some(seed)
            },
            step,
            stages: Seq::empty(),
        }),
{
    let s: Option<Value> = match seed {
        Value::Undef => None,
        v => Some(v),
    };
    HeapObj::Gen { seed: s, step, stages: Vec::new() }
}

/// The lambda members of a lazy sequence that stay lazy, as stages.
pub open spec fn lazy_stage(name: Seq<char>, lambda: Value) -> Option<Stage> {
    if name == "map"@ {
        Some(Stage::Apply(lambda))
    } else if name == "filter"@ {
        Some(Stage::Filter(lambda, true))
    } else if name == "filterNot"@ {
        Some(Stage::Filter(lambda, false))
    } else if name == "takeWhile"@ {
        Some(Stage::TakeWhile(lambda))
    } else if name == "dropWhile"@ {
        Some(Stage::DropWhile(lambda, false))
    } else {
        None
    }
}

/// The stage that a lambda member adds to a lazy sequence, if it stays lazy.
pub fn stage_of(name: &str, lambda: Value) -> (r: Option<Stage>)
    ensures
        r == lazy_stage(name@, lambda),
{
    if same(name, "map") {
        Some(Stage::Apply(lambda))
    } else if same(name, "filter") {
        Some(Stage::Filter(lambda, true))
    } else if same(name, "filterNot") {
        Some(Stage::Filter(lambda, false))
    } else if same(name, "takeWhile") {
        Some(Stage::TakeWhile(lambda))
    } else if same(name, "dropWhile") {
        Some(Stage::DropWhile(lambda, false))
    } else {
        None
    }
}

/// The searches that pull only as far as they must.
pub open spec fn is_short_search(name: Seq<char>) -> bool {
    ||| name == "first"@
    ||| name == "firstOrNull"@
    ||| name == "find"@
    ||| name == "any"@
    ||| name == "indexOfFirst"@
}

/// What a search answers when it found element `k`, or nothing.
pub open spec fn short_found(kind: SeqKind, name: Seq<char>, hit: Option<(int, Value)>) -> ReplyView {
    match hit {
        Some((k, v)) => if name == "any"@ {
            ReplyView::Value(Value::Bool(true))
        } else if name == "indexOfFirst"@ {
            ReplyView::Value(as_int(k))
        } else {
            ReplyView::Value(v)
        },
        None => if name == "any"@ {
            ReplyView::Value(Value::Bool(false))
        } else if name == "indexOfFirst"@ {
            ReplyView::Value(as_int(-1))
        } else if name == "first"@ {
            ReplyView::Fault(kind.no_match_message(name))
        } else {
            ReplyView::Value(Value::Undef)
        },
    }
}

/// A search that pulls a lazy sequence one element at a time: the sequence, the
/// element that it has come to, the pull of that element, and whether it is a
/// match. Each element is pulled anew from the start of the sequence.
#[derive(Debug, PartialEq, Eq)]
pub struct Search {
    pub seed: Option<Value>,
    pub step: Value,
    pub stages: Vec<Stage>,
    pub k: usize,
    pub pull: Pull,
    pub hit: bool,
}

/// A [`Search`] as a mathematical value.
#[verifier::ext_equal]
pub struct SearchView {
    pub gen: GenView,
    pub k: int,
    pub pull: PullView,
    pub hit: bool,
}

impl View for Search {
    type V = SearchView;

    open spec fn view(&self) -> SearchView {
        SearchView {
            gen: GenView { seed: self.seed, step: self.step, stages: self.stages@ },
            k: self.k as int,
            pull: self.pull@,
            hit: self.hit,
        }
    }
}

/// The start of a search.
pub open spec fn search_of(g: GenView) -> SearchView {
    SearchView { gen: g, k: 0, pull: pull_of(g, Some(1)), hit: false }
}

/// What a search does next.
pub open spec fn short_search(
    s: SearchView,
    kind: SeqKind,
    name: Seq<char>,
    lambda: Value,
) -> StepView {
    match pull_call(s.pull) {
        Some((f, a)) => StepView::Call(f, a),
        None => if s.pull.place == Place::Endless {
            StepView::Done(ReplyView::Fault(endless_message()))
        } else if s.k >= s.pull.out.len() {
            StepView::Done(short_found(kind, name, None))
        } else if s.hit {
            StepView::Done(short_found(kind, name, Some((s.k, s.pull.out[s.k]))))
        } else {
            StepView::Call(lambda, CallArgs::One(s.pull.out[s.k]))
        },
    }
}

/// The search with the result of its call: one of the pull, or of the lambda.
pub open spec fn search_noted(s: SearchView, v: Value) -> SearchView {
    if pull_call(s.pull) is Some {
        SearchView { pull: pull_noted(s.pull, v), ..s }
    } else if holds(v) {
        SearchView { hit: true, ..s }
    } else if s.k < GEN_PULL_CAP {
        SearchView { k: s.k + 1, pull: pull_of(s.gen, Some(s.k + 2)), ..s }
    } else {
        s
    }
}

fn short_reply(kind: SeqKind, name: &str, hit: Option<(usize, Value)>) -> (r: Reply)
    ensures
        r@ == short_found(
            kind,
            name@,
            match hit {
                Some((k, v)) => Some((k as int, v)),
                None => None,
            },
        ),
{
    match hit {
        Some((k, v)) => if same(name, "any") {
            Reply::Value(Value::Bool(true))
        } else if same(name, "indexOfFirst") {
            Reply::Value(Value::Int(k as i64))
        } else {
            Reply::Value(v)
        },
        None => if same(name, "any") {
            Reply::Value(Value::Bool(false))
        } else if same(name, "indexOfFirst") {
            Reply::Value(Value::Int(-1))
        } else if same(name, "first") {
            Reply::Fault(kind.no_match(name))
        } else {
            Reply::Value(Value::Undef)
        },
    }
}

impl Search {
    /// Start to search a lazy sequence. `None` when it is none.
    pub fn start(h: &Host, gen: Value) -> (r: Option<Search>)
        ensures
            match r {
                Some(s) => gen_of(h@, gen) matches Some(g) && s@ == search_of(g),
                None => gen_of(h@, gen) is None,
            },
    {
        match h.obj(gen) {
            Some(HeapObj::Gen { seed, step, stages }) => {
                let s = Search {
                    seed: *seed,
                    step: *step,
                    stages: copy_stages(stages),
                    k: 0,
                    pull: pull_start(*seed, *step, copy_stages(stages), Some(1)),
                    hit: false,
                };
                assert(s@ =~= search_of(gen_of(h@, gen)->0));
                Some(s)
            },
            _ => None,
        }
    }

    /// What the search does next.
    pub fn next(&self, kind: SeqKind, name: &str, lambda: Value) -> (s: Step)
        ensures
            s@ == short_search(self@, kind, name@, lambda),
    {
        match self.pull.call() {
            Some((f, a)) => Step::Call(f, a),
            None => {
                if let Place::Endless = self.pull.place {
                    return Step::Done(Reply::Fault(endless_fault()));
                }
                if self.k >= self.pull.out.len() {
                    return Step::Done(short_reply(kind, name, None));
                }
                let v: Value = self.pull.out[self.k];
                if self.hit {
                    Step::Done(short_reply(kind, name, Some((self.k, v))))
                } else {
                    Step::Call(lambda, CallArgs::One(v))
                }
            },
        }
    }

    /// Go on with the result of the call.
    pub fn note(&mut self, v: Value)
        ensures
            final(self)@ == search_noted(old(self)@, v),
    {
        let ghost before = self@;
        if self.pull.call().is_some() {
            self.pull.note(v);
            assert(self@ =~= search_noted(before, v));
        } else if truthy(&v) {
            self.hit = true;
            assert(self@ =~= search_noted(before, v));
        } else if self.k < GEN_PULL_CAP {
            self.k = self.k + 1;
            self.pull = pull_start(
                self.seed,
                self.step,
                copy_stages(&self.stages),
                Some(self.k + 1),
            );
            assert(self@ =~= search_noted(before, v));
        }
    }
}

/// A lazy search pulls one element at a time, and is done with the first that
/// matches: it never asks for an element behind the one it has come to.
pub proof fn law_lazy_searches_stop(
    s: SearchView,
    kind: SeqKind,
    name: Seq<char>,
    lambda: Value,
    v: Value,
)
    requires
        s.k >= 0,
        s.pull.want == Some(s.k + 1),
        is_bounded(s.pull),
    ensures
        search_noted(s, v).pull.want == Some(search_noted(s, v).k + 1),
        is_bounded(search_noted(s, v).pull),
        pull_call(s.pull) is None && short_search(s, kind, name, lambda) is Call && holds(v)
            ==> short_search(search_noted(s, v), kind, name, lambda) == StepView::Done(
            short_found(kind, name, Some((s.k, s.pull.out[s.k]))),
        ),
{
    law_pull_is_bounded(s.gen, Some(s.k + 2), s.pull, v);
}

} // verus!
