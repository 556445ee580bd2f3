//! The collection members that take a lambda.
//!
//! A call of the lambda is the VM's work. A member is therefore a function of the
//! results that its lambda has given so far: it names the next call, or it is
//! done.
use crate::compare::depth_budget;
use crate::display::kotlin_string;
use crate::gather::{
    best_at,
    best_of,
    count_true,
    drop_nulls,
    first_at,
    keep,
    last_at,
    pick_couples,
    sum_values,
};
use crate::host::{Host, ListImpl};
use crate::operators::position;
use crate::order::natural_positions;
use crate::receiver::{
    concat_values,
    couple,
    extremum_or,
    groups_of,
    join_count,
    join_to_string,
    list_snapshot,
    charseq_returns_string,
    sequence_items,
    unresolved_on,
    SeqKind,
};
use crate::reply::{store_objs, store_texts, Reply};
use crate::search::has_prefix;
use crate::sorting::{pick, sort_positions};
use crate::strings::chars_of;
use crate::text::same;
use crate::types::value_order;
use crate::value::{copy_values, truthy, values_between, HeapObj, Value};
use crate::walk::{host_before, Log, Stop, Turn};
use vstd::prelude::*;

verus! {

use crate::compare::budget;
use crate::display::text_of;
use crate::gather::{
    best_index,
    best_value,
    count_where,
    couples_in,
    first_where,
    kept,
    last_where,
    lemma_first_where,
    non_null,
    sum_reply,
};
use crate::host::HostView;
use crate::operators::{
    are_found_equal,
    are_told_apart,
    lemma_found,
    lemma_passed,
    lemma_position_is_from,
    position_walk,
};
use crate::order::by_key;
use crate::receiver::{
    couple_of,
    extremum_reply,
    grouped,
    items_of,
    join_text,
    lists_view,
    rebuilds_text,
    run_together,
    shown_count,
    snapshot,
    unresolved,
    value_or_null,
};
use crate::reply::{groups_view, objs_view, with_objs, with_texts, ReplyView};
use crate::search::{starts_with, texts_view};
use crate::sorting::{picked, positions_view, sorted_positions};
use crate::strings::{as_int, char_values};
use crate::types::{label_of, natural_order};
use crate::value::{holds, ObjView};
use crate::walk::{host_at, Answers};

/// The arguments of one call.
#[derive(Clone, Copy, Debug, PartialEq, Eq, Structural)]
pub enum CallArgs {
    Nothing,
    One(Value),
    Two(Value, Value),
}

/// What a member has made of the results of its calls, each as it came: the
/// lambda can change an object that it has answered before.
#[derive(Debug, PartialEq, Eq)]
pub struct Notes {
    /// The elements of the results of `flatMap`.
    pub items: Vec<Value>,
    /// The texts of the results of `joinToString`.
    pub texts: Vec<String>,
    /// The keys that have appeared, each once, in the order of appearance.
    pub keys: Vec<Value>,
    /// The values that were given for each key.
    pub groups: Vec<Vec<Value>>,
    /// How far `sortedWith` has come.
    pub sorting: Sorting,
}

/// [`Notes`] as a mathematical value.
#[verifier::ext_equal]
pub struct NotesView {
    pub items: Seq<Value>,
    pub texts: Seq<Seq<char>>,
    pub keys: Seq<Value>,
    pub groups: Seq<Seq<Value>>,
    pub sorting: SortingView,
}

impl View for Notes {
    type V = NotesView;

    open spec fn view(&self) -> NotesView {
        NotesView {
            items: self.items@,
            texts: texts_view(self.texts@),
            keys: self.keys@,
            groups: lists_view(self.groups@),
            sorting: self.sorting@,
        }
    }
}

impl NotesView {
    /// The notes before any call of a member with `n` elements.
    pub open spec fn empty(n: nat) -> NotesView {
        NotesView {
            items: Seq::empty(),
            texts: Seq::empty(),
            keys: Seq::empty(),
            groups: Seq::empty(),
            sorting: SortingView::of(n),
        }
    }

    /// The notes with a value more for the key at `i`, which is new when there
    /// are not so many.
    pub open spec fn with_value(self, i: int, key: Value, value: Value) -> NotesView {
        if 0 <= i < self.groups.len() {
            NotesView { groups: self.groups.update(i, self.groups[i].push(value)), ..self }
        } else {
            NotesView {
                keys: self.keys.push(key),
                groups: self.groups.push(seq![value]),
                ..self
            }
        }
    }

    /// Each key with its values.
    pub open spec fn keyed(self) -> Seq<(Value, Seq<Value>)> {
        Seq::new(self.pairs(), |i: int| (self.keys[i], self.groups[i]))
    }

    /// Each key with how many values it has.
    pub open spec fn counted(self) -> Seq<(Value, Value)> {
        Seq::new(
            self.pairs(),
            |i: int| (self.keys[i], Value::Int(self.groups[i].len() as i64)),
        )
    }

    /// Each key with its last value.
    pub open spec fn lasts(self) -> Seq<(Value, Value)> {
        Seq::new(self.pairs(), |i: int| (self.keys[i], last_or_null(self.groups[i])))
    }

    /// How many keys have values.
    pub open spec fn pairs(self) -> nat {
        if self.keys.len() < self.groups.len() {
            self.keys.len()
        } else {
            self.groups.len()
        }
    }
}

/// The last value, or null.
pub open spec fn last_or_null(vs: Seq<Value>) -> Value {
    if vs.len() == 0 {
        Value::Undef
    } else {
        vs.last()
    }
}

impl Notes {
    /// The notes before any call of a member with `n` elements.
    pub fn new(n: usize) -> (r: Notes)
        ensures
            r@ == NotesView::empty(n as nat),
    {
        let r = Notes {
            items: Vec::new(),
            texts: Vec::new(),
            keys: Vec::new(),
            groups: Vec::new(),
            sorting: Sorting::of(n),
        };
        assert(r@ =~= NotesView::empty(n as nat));
        r
    }

    fn add_value(&mut self, i: usize, key: Value, value: Value)
        ensures
            final(self)@ == old(self)@.with_value(i as int, key, value),
    {
        let ghost before = self@;
        if i < self.groups.len() {
            assert(before.groups[i as int] == self.groups@[i as int]@);
            self.groups[i].push(value);
            assert(self@ =~= before.with_value(i as int, key, value));
        } else {
            self.keys.push(key);
            let one: Vec<Value> = vec![value];
            assert(one@ =~= seq![value]);
            self.groups.push(one);
            assert(self@ =~= before.with_value(i as int, key, value));
        }
    }

    fn count(&self) -> (n: usize)
        ensures
            n == self@.pairs(),
            n <= self.keys@.len(),
            n <= self.groups@.len(),
    {
        if self.keys.len() < self.groups.len() {
            self.keys.len()
        } else {
            self.groups.len()
        }
    }

    fn to_groups(&self) -> (r: Vec<(Value, Vec<Value>)>)
        ensures
            groups_view(r@) == self@.keyed(),
    {
        let mut r: Vec<(Value, Vec<Value>)> = Vec::new();
        let n: usize = self.count();
        let ghost want = self@.keyed();
        let mut i: usize = 0;
        while i < n
            invariant
                i <= n,
                n == self@.pairs(),
                n <= self.keys@.len(),
                n <= self.groups@.len(),
                want == self@.keyed(),
                r@.len() == i,
                forall|k: int|
                    0 <= k < i ==> (#[trigger] r@[k]).0 == want[k].0 && r@[k].1@ == want[k].1,
            decreases n - i,
        {
            assert(self@.groups[i as int] == self.groups@[i as int]@);
            r.push((self.keys[i], copy_values(&self.groups[i])));
            i = i + 1;
        }
        assert(groups_view(r@) =~= want);
        r
    }

    fn to_counts(&self) -> (r: Vec<(Value, Value)>)
        ensures
            r@ == self@.counted(),
    {
        let mut r: Vec<(Value, Value)> = Vec::new();
        let n: usize = self.count();
        let ghost want = self@.counted();
        let mut i: usize = 0;
        while i < n
            invariant
                i <= n,
                n == self@.pairs(),
                n <= self.keys@.len(),
                n <= self.groups@.len(),
                want == self@.counted(),
                r@.len() == i,
                forall|k: int| 0 <= k < i ==> #[trigger] r@[k] == want[k],
            decreases n - i,
        {
            assert(self@.groups[i as int] == self.groups@[i as int]@);
            r.push((self.keys[i], Value::Int(self.groups[i].len() as i64)));
            i = i + 1;
        }
        assert(r@ =~= want);
        r
    }

    fn to_entries(&self) -> (r: Vec<(Value, Value)>)
        ensures
            r@ == self@.lasts(),
    {
        let mut r: Vec<(Value, Value)> = Vec::new();
        let n: usize = self.count();
        let ghost want = self@.lasts();
        let mut i: usize = 0;
        while i < n
            invariant
                i <= n,
                n == self@.pairs(),
                n <= self.keys@.len(),
                n <= self.groups@.len(),
                want == self@.lasts(),
                r@.len() == i,
                forall|k: int| 0 <= k < i ==> #[trigger] r@[k] == want[k],
            decreases n - i,
        {
            assert(self@.groups[i as int] == self.groups@[i as int]@);
            let g: &Vec<Value> = &self.groups[i];
            let v: Value = if g.len() == 0 {
                Value::Undef
            } else {
                g[g.len() - 1]
            };
            r.push((self.keys[i], v));
            i = i + 1;
        }
        assert(r@ =~= want);
        r
    }
}

/// A member that is being worked out: its name, its receiver and what that
/// presents, its leading arguments, its lambda, and what it has noted.
#[derive(Debug, PartialEq, Eq)]
pub struct Plan {
    pub name: String,
    pub kind: SeqKind,
    pub recv: Value,
    pub extras: Vec<Value>,
    pub lambda: Value,
    /// The receiver's elements.
    pub items: Vec<Value>,
    /// The elements of the other operand of `zip`.
    pub other: Vec<Value>,
    /// Whether the receiver is a text, read as its characters.
    pub text: bool,
    pub notes: Notes,
}

/// A [`Plan`] as a mathematical value.
#[verifier::ext_equal]
pub struct PlanView {
    pub name: Seq<char>,
    pub kind: SeqKind,
    pub recv: Value,
    pub extras: Seq<Value>,
    pub lambda: Value,
    pub items: Seq<Value>,
    pub other: Seq<Value>,
    pub text: bool,
    pub notes: NotesView,
}

impl View for Plan {
    type V = PlanView;

    open spec fn view(&self) -> PlanView {
        PlanView {
            name: self.name@,
            kind: self.kind,
            recv: self.recv,
            extras: self.extras@,
            lambda: self.lambda,
            items: self.items@,
            other: self.other@,
            text: self.text,
            notes: self.notes@,
        }
    }
}

/// What a member does next.
#[derive(Debug, PartialEq, Eq)]
pub enum Step {
    /// Call a lambda.
    Call(Value, CallArgs),
    Done(Reply),
}

/// A [`Step`] as a mathematical value.
#[verifier::ext_equal]
pub enum StepView {
    Call(Value, CallArgs),
    Done(ReplyView),
}

impl View for Step {
    type V = StepView;

    open spec fn view(&self) -> StepView {
        match self {
            Step::Call(f, a) => StepView::Call(*f, *a),
            Step::Done(r) => StepView::Done(r@),
        }
    }
}

/// A step, or why there is none yet, as a mathematical value.
pub open spec fn stepped(r: Result<Step, Stop>) -> Result<StepView, Stop> {
    match r {
        Ok(s) => Ok(s@),
        Err(s) => Err(s),
    }
}

/// Done, with an existing value.
pub open spec fn answer(v: Value) -> StepView {
    StepView::Done(ReplyView::Value(v))
}

/// Done, with a new list.
pub open spec fn list(items: Seq<Value>) -> StepView {
    StepView::Done(ReplyView::Object(ObjView::List(items)))
}

// ── One call per element ────────────────────────────────────────────────────

/// The members that call their lambda once with each element and look at the
/// results afterwards.
pub open spec fn is_each(name: Seq<char>) -> bool {
    ||| name == "map"@
    ||| name == "chunked"@
    ||| name == "windowed"@
    ||| name == "filter"@
    ||| name == "filterNot"@
    ||| name == "forEach"@
    ||| name == "onEach"@
    ||| name == "mapNotNull"@
    ||| name == "flatMap"@
    ||| name == "count"@
    ||| name == "sumOf"@
    ||| name == "maxBy"@
    ||| name == "maxByOrNull"@
    ||| name == "minBy"@
    ||| name == "minByOrNull"@
    ||| name == "sortedBy"@
    ||| name == "sortedByDescending"@
    ||| name == "partition"@
    ||| name == "associateBy"@
    ||| name == "associateWith"@
    ||| name == "groupBy"@
    ||| name == "Grouping.eachCount"@
    ||| name == "single"@
    ||| name == "singleOrNull"@
    ||| name == "last"@
    ||| name == "findLast"@
    ||| name == "lastOrNull"@
    ||| name == "indexOfLast"@
    ||| name == "maxOf"@
    ||| name == "minOf"@
    ||| name == "maxOfOrNull"@
    ||| name == "minOfOrNull"@
}

fn calls_each(name: &str) -> (r: bool)
    ensures
        r == is_each(name@),
{
    same(name, "map") || same(name, "chunked") || same(name, "windowed") || same(name, "filter")
        || same(name, "filterNot") || same(name, "forEach") || same(name, "onEach") || same(
        name,
        "mapNotNull",
    ) || same(name, "flatMap") || same(name, "count") || same(name, "sumOf") || same(name, "maxBy")
        || same(name, "maxByOrNull") || same(name, "minBy") || same(name, "minByOrNull") || same(
        name,
        "sortedBy",
    ) || same(name, "sortedByDescending") || same(name, "partition") || same(name, "associateBy")
        || same(name, "associateWith") || same(name, "groupBy") || same(
        name,
        "Grouping.eachCount",
    ) || same(name, "single") || same(name, "singleOrNull") || same(name, "last") || same(
        name,
        "findLast",
    ) || same(name, "lastOrNull") || same(name, "indexOfLast") || same(name, "maxOf") || same(
        name,
        "minOf",
    ) || same(name, "maxOfOrNull") || same(name, "minOfOrNull")
}

/// The kept elements in the receiver's own kind of container.
pub open spec fn same_kind(h: HostView, recv: Value, out: Seq<Value>) -> ReplyView {
    match h.obj(recv) {
        Some(ObjView::MapObj(_)) => ReplyView::Object(ObjView::MapObj(couples_in(h, out))),
        Some(ObjView::SetObj(_)) => ReplyView::Object(ObjView::SetObj(out)),
        _ => ReplyView::Object(ObjView::List(out)),
    }
}

/// The kept elements in the receiver's own kind of container.
pub fn same_kind_as(h: &Host, recv: Value, out: Vec<Value>) -> (r: Reply)
    ensures
        r@ == same_kind(h@, recv, out@),
{
    match h.obj(recv) {
        Some(HeapObj::MapObj(_)) => Reply::Object(HeapObj::MapObj(pick_couples(h, &out))),
        Some(HeapObj::SetObj(_)) => Reply::Object(HeapObj::SetObj(out)),
        _ => Reply::Object(HeapObj::List(out)),
    }
}

/// The class of the list that sorting a receiver of a kind gives.
pub open spec fn sorted_class(kind: SeqKind) -> ListImpl {
    if kind.collects() {
        ListImpl::Sorted
    } else {
        ListImpl::ReadOnly
    }
}

pub(crate) fn class_of_sorted(kind: SeqKind) -> (r: ListImpl)
    ensures
        r == sorted_class(kind),
{
    if kind.is_collection() {
        ListImpl::Sorted
    } else {
        ListImpl::ReadOnly
    }
}

/// The descending natural order of positions by their keys.
pub open spec fn by_key_descending(h: HostView, keys: Seq<Value>) -> spec_fn(int, int) -> bool {
    |a: int, b: int| natural_order(h, keys[b], keys[a]) <= 0
}

fn descending_positions(h: &Host, keys: &Vec<Value>) -> (at: Vec<usize>)
    ensures
        positions_view(at@) == sorted_positions(keys@.len() as int, by_key_descending(h@, keys@)),
        at@.len() == keys@.len(),
        forall|i: int| 0 <= i < at@.len() ==> #[trigger] at@[i] < keys@.len(),
{
    let le = |a: usize, b: usize| -> (r: bool)
        requires
            a < keys@.len(),
            b < keys@.len(),
        ensures
            r == (natural_order(h@, keys@[b as int], keys@[a as int]) <= 0),
        { value_order(h, keys[b], keys[a]) <= 0 };
    sort_positions(keys.len(), le, Ghost(by_key_descending(h@, keys@)))
}

/// Done, with a new map of each key with its last value.
pub open spec fn entries(p: PlanView) -> StepView {
    StepView::Done(ReplyView::Object(ObjView::MapObj(p.notes.lasts())))
}

fn entries_step(p: &Plan) -> (s: Step)
    ensures
        s@ == entries(p@),
{
    Step::Done(Reply::Object(HeapObj::MapObj(p.notes.to_entries())))
}

/// What a search with a predicate answers when it found `v`, or nothing.
pub open spec fn found(kind: SeqKind, name: Seq<char>, v: Option<Value>) -> StepView {
    match v {
        Some(x) => answer(x),
        None => if name == "first"@ || name == "last"@ {
            StepView::Done(ReplyView::Fault(kind.no_match_message(name)))
        } else {
            answer(Value::Undef)
        },
    }
}

fn found_step(kind: SeqKind, name: &str, v: Option<Value>) -> (s: Step)
    ensures
        s@ == found(kind, name@, v),
{
    match v {
        Some(x) => Step::Done(Reply::Value(x)),
        None => if same(name, "first") || same(name, "last") {
            Step::Done(Reply::Fault(kind.no_match(name)))
        } else {
            Step::Done(Reply::Value(Value::Undef))
        },
    }
}

/// What `single { … }` answers for the elements that matched.
pub open spec fn single_found(kind: SeqKind, name: Seq<char>, hits: Seq<Value>) -> StepView {
    if hits.len() == 1 {
        answer(hits[0])
    } else if name == "singleOrNull"@ {
        answer(Value::Undef)
    } else if hits.len() == 0 {
        StepView::Done(ReplyView::Fault(kind.no_match_message(name)))
    } else {
        StepView::Done(ReplyView::Fault(kind.many_match_message(name)))
    }
}

/// What a member that calls its lambda with each element answers, from the
/// results.
pub open spec fn each_done(h: HostView, p: PlanView, rs: Seq<Value>) -> StepView {
    let name = p.name;
    let items = p.items;
    let n = items.len();
    if name == "map"@ || name == "chunked"@ || name == "windowed"@ {
        list(rs)
    } else if name == "filter"@ {
        StepView::Done(same_kind(h, p.recv, kept(items, rs, true)))
    } else if name == "filterNot"@ {
        StepView::Done(same_kind(h, p.recv, kept(items, rs, false)))
    } else if name == "forEach"@ {
        answer(Value::Undef)
    } else if name == "onEach"@ {
        list(items)
    } else if name == "mapNotNull"@ {
        list(non_null(rs))
    } else if name == "flatMap"@ {
        list(p.notes.items)
    } else if name == "count"@ {
        answer(as_int(count_where(rs)))
    } else if name == "sumOf"@ {
        StepView::Done(sum_reply(rs))
    } else if name == "maxBy"@ || name == "maxByOrNull"@ || name == "minBy"@ || name
        == "minByOrNull"@ {
        let best = if n == 0 {
            None
        } else {
            Some(items[best_index(h, rs, starts_with(name, "max"@))])
        };
        StepView::Done(extremum_reply(best, name))
    } else if name == "sortedBy"@ {
        StepView::Done(
            ReplyView::Tagged(
                picked(items, sorted_positions(n as int, by_key(h, rs))),
                sorted_class(p.kind),
            ),
        )
    } else if name == "sortedByDescending"@ {
        StepView::Done(
            ReplyView::Tagged(
                picked(items, sorted_positions(n as int, by_key_descending(h, rs))),
                sorted_class(p.kind),
            ),
        )
    } else if name == "partition"@ {
        StepView::Done(ReplyView::Lists(kept(items, rs, true), kept(items, rs, false)))
    } else if name == "associateBy"@ || name == "associateWith"@ {
        entries(p)
    } else if name == "groupBy"@ {
        StepView::Done(ReplyView::Groups(p.notes.keyed()))
    } else if name == "Grouping.eachCount"@ {
        StepView::Done(ReplyView::Object(ObjView::MapObj(p.notes.counted())))
    } else if name == "single"@ || name == "singleOrNull"@ {
        single_found(p.kind, name, kept(items, rs, true))
    } else if name == "last"@ || name == "findLast"@ || name == "lastOrNull"@ {
        let k = last_where(rs);
        found(
            p.kind,
            name,
            if k < 0 {
                None
            } else {
                Some(items[k])
            },
        )
    } else if name == "indexOfLast"@ {
        answer(as_int(last_where(rs)))
    } else {
        StepView::Done(
            extremum_reply(best_value(h, rs, starts_with(name, "maxOf"@)), name),
        )
    }
}

fn single_step(kind: SeqKind, name: &str, hits: &Vec<Value>) -> (s: Step)
    ensures
        s@ == single_found(kind, name@, hits@),
{
    if hits.len() == 1 {
        Step::Done(Reply::Value(hits[0]))
    } else if same(name, "singleOrNull") {
        Step::Done(Reply::Value(Value::Undef))
    } else if hits.len() == 0 {
        Step::Done(Reply::Fault(kind.no_match(name)))
    } else {
        Step::Done(Reply::Fault(kind.many_match(name)))
    }
}

fn list_step(items: Vec<Value>) -> (s: Step)
    ensures
        s@ == list(items@),
{
    Step::Done(Reply::Object(HeapObj::List(items)))
}

fn answer_step(v: Value) -> (s: Step)
    ensures
        s@ == answer(v),
{
    Step::Done(Reply::Value(v))
}

fn each_reply(h: &Host, p: &Plan, rs: &Vec<Value>) -> (s: Step)
    requires
        rs@.len() == p.items@.len(),
    ensures
        s@ == each_done(h@, p@, rs@),
{
    let name: &str = p.name.as_str();
    let items: &Vec<Value> = &p.items;
    assert(rs@.take(items@.len() as int) =~= rs@);
    if same(name, "map") || same(name, "chunked") || same(name, "windowed") {
        list_step(copy_values(rs))
    } else if same(name, "filter") {
        Step::Done(same_kind_as(h, p.recv, keep(items, rs, true)))
    } else if same(name, "filterNot") {
        Step::Done(same_kind_as(h, p.recv, keep(items, rs, false)))
    } else if same(name, "forEach") {
        answer_step(Value::Undef)
    } else if same(name, "onEach") {
        list_step(copy_values(items))
    } else if same(name, "mapNotNull") {
        list_step(drop_nulls(rs))
    } else if same(name, "flatMap") {
        list_step(copy_values(&p.notes.items))
    } else if same(name, "count") {
        answer_step(Value::Int(count_true(rs) as i64))
    } else if same(name, "sumOf") {
        Step::Done(sum_values(rs))
    } else if same(name, "maxBy") || same(name, "maxByOrNull") || same(name, "minBy") || same(
        name,
        "minByOrNull",
    ) {
        let best: Option<Value> = if items.len() == 0 {
            None
        } else {
            Some(items[best_at(h, rs, has_prefix(name, "max"))])
        };
        Step::Done(extremum_or(best, name))
    } else if same(name, "sortedBy") {
        let at: Vec<usize> = natural_positions(h, rs);
        Step::Done(Reply::Tagged(pick(items, &at), class_of_sorted(p.kind)))
    } else if same(name, "sortedByDescending") {
        let at: Vec<usize> = descending_positions(h, rs);
        Step::Done(Reply::Tagged(pick(items, &at), class_of_sorted(p.kind)))
    } else if same(name, "partition") {
        Step::Done(Reply::Lists(keep(items, rs, true), keep(items, rs, false)))
    } else if same(name, "associateBy") || same(name, "associateWith") {
        entries_step(p)
    } else if same(name, "groupBy") {
        Step::Done(Reply::Groups(p.notes.to_groups()))
    } else if same(name, "Grouping.eachCount") {
        Step::Done(Reply::Object(HeapObj::MapObj(p.notes.to_counts())))
    } else if same(name, "single") || same(name, "singleOrNull") {
        single_step(p.kind, name, &keep(items, rs, true))
    } else if same(name, "last") || same(name, "findLast") || same(name, "lastOrNull") {
        let hit: Option<Value> = match last_at(rs) {
            Some(k) => Some(items[k]),
            None => None,
        };
        found_step(p.kind, name, hit)
    } else if same(name, "indexOfLast") {
        let k: i64 = match last_at(rs) {
            Some(k) => k as i64,
            None => -1,
        };
        answer_step(Value::Int(k))
    } else {
        Step::Done(extremum_or(best_of(h, rs, has_prefix(name, "maxOf")), name))
    }
}

// ── Calls with a position ───────────────────────────────────────────────────

/// The members that call their lambda once with each position and element.
pub open spec fn is_indexed(name: Seq<char>) -> bool {
    ||| name == "mapIndexed"@
    ||| name == "flatMapIndexed"@
    ||| name == "filterIndexed"@
    ||| name == "forEachIndexed"@
}

/// What such a member answers, from the results.
pub open spec fn indexed_done(p: PlanView, rs: Seq<Value>) -> StepView {
    if p.name == "mapIndexed"@ {
        list(rs)
    } else if p.name == "flatMapIndexed"@ {
        list(p.notes.items)
    } else if p.name == "filterIndexed"@ {
        list(kept(p.items, rs, true))
    } else {
        answer(Value::Undef)
    }
}

fn indexed_reply(p: &Plan, rs: &Vec<Value>) -> (s: Step)
    requires
        rs@.len() == p.items@.len(),
    ensures
        s@ == indexed_done(p@, rs@),
{
    let name: &str = p.name.as_str();
    assert(rs@.take(p.items@.len() as int) =~= rs@);
    if same(name, "mapIndexed") {
        list_step(copy_values(rs))
    } else if same(name, "flatMapIndexed") {
        list_step(copy_values(&p.notes.items))
    } else if same(name, "filterIndexed") {
        list_step(keep(&p.items, rs, true))
    } else {
        answer_step(Value::Undef)
    }
}

// ── Folds ───────────────────────────────────────────────────────────────────

/// The members that hand their lambda the result of the call before.
pub open spec fn is_fold(name: Seq<char>) -> bool {
    ||| name == "fold"@
    ||| name == "foldRight"@
    ||| name == "runningFold"@
    ||| name == "scan"@
    ||| name == "runningReduce"@
    ||| name == "scanReduce"@
    ||| name == "reduce"@
    ||| name == "reduceRight"@
}

/// Whether the first element, in walking order, is the first accumulator.
pub open spec fn seeds_itself(name: Seq<char>) -> bool {
    ||| name == "runningReduce"@
    ||| name == "scanReduce"@
    ||| name == "reduce"@
    ||| name == "reduceRight"@
}

/// Whether the walk goes from the end, with the element as the first argument.
pub open spec fn walks_back(name: Seq<char>) -> bool {
    name == "foldRight"@ || name == "reduceRight"@
}

/// The elements in walking order.
pub open spec fn walked(p: PlanView) -> Seq<Value> {
    if walks_back(p.name) {
        p.items.reverse()
    } else {
        p.items
    }
}

/// The accumulator before any call.
pub open spec fn first_acc(p: PlanView) -> Value {
    if seeds_itself(p.name) {
        walked(p)[0]
    } else {
        value_or_null(p.extras, 0)
    }
}

/// What a fold does next. Call `k` gets the result of the call before it (or the
/// first accumulator) and the next element.
pub open spec fn fold_step(p: PlanView, rs: Seq<Value>) -> StepView {
    let name = p.name;
    let w = walked(p);
    let skip: int = if seeds_itself(name) {
        1
    } else {
        0
    };
    let k = rs.len() as int;
    let acc = if k == 0 {
        first_acc(p)
    } else {
        rs.last()
    };
    if seeds_itself(name) && w.len() == 0 {
        if name == "reduce"@ || name == "reduceRight"@ {
            StepView::Done(ReplyView::Fault(p.kind.reduce_message(name)))
        } else {
            list(Seq::empty())
        }
    } else if k + skip < w.len() {
        StepView::Call(
            p.lambda,
            if walks_back(name) {
                CallArgs::Two(w[k + skip], acc)
            } else {
                CallArgs::Two(acc, w[k + skip])
            },
        )
    } else if name == "runningFold"@ || name == "scan"@ || name == "runningReduce"@ || name
        == "scanReduce"@ {
        list(seq![first_acc(p)] + rs)
    } else {
        answer(acc)
    }
}

fn folds(name: &str) -> (r: bool)
    ensures
        r == is_fold(name@),
{
    same(name, "fold") || same(name, "foldRight") || same(name, "runningFold") || same(name, "scan")
        || same(name, "runningReduce") || same(name, "scanReduce") || same(name, "reduce") || same(
        name,
        "reduceRight",
    )
}

fn fold_next(p: &Plan, rs: &Vec<Value>) -> (s: Step)
    requires
        rs@.len() <= p.items@.len(),
    ensures
        s@ == fold_step(p@, rs@),
{
    let name: &str = p.name.as_str();
    let n: usize = p.items.len();
    let seeds: bool = same(name, "runningReduce") || same(name, "scanReduce") || same(name, "reduce")
        || same(name, "reduceRight");
    let back: bool = same(name, "foldRight") || same(name, "reduceRight");
    if seeds && n == 0 {
        if same(name, "reduce") || same(name, "reduceRight") {
            return Step::Done(Reply::Fault(p.kind.reduce_fault(name)));
        } else {
            return list_step(Vec::new());
        }
    }
    let first: Value = if seeds {
        if back {
            p.items[n - 1]
        } else {
            p.items[0]
        }
    } else if p.extras.len() > 0 {
        p.extras[0]
    } else {
        Value::Undef
    };
    let k: usize = rs.len();
    let acc: Value = if k == 0 {
        first
    } else {
        rs[k - 1]
    };
    let left: usize = if seeds {
        n - 1
    } else {
        n
    };
    if k < left {
        if back {
            Step::Call(p.lambda, CallArgs::Two(p.items[left - 1 - k], acc))
        } else {
            Step::Call(p.lambda, CallArgs::Two(acc, p.items[k + (n - left)]))
        }
    } else if same(name, "runningFold") || same(name, "scan") || same(name, "runningReduce") || same(
        name,
        "scanReduce",
    ) {
        let mut out: Vec<Value> = vec![first];
        let mut more: Vec<Value> = copy_values(rs);
        out.append(&mut more);
        assert(out@ =~= seq![first] + rs@);
        list_step(out)
    } else {
        answer_step(acc)
    }
}

// ── Searches that stop early ────────────────────────────────────────────────

/// The members that stop calling once a result settles the matter.
pub open spec fn is_search(name: Seq<char>) -> bool {
    ||| name == "any"@
    ||| name == "none"@
    ||| name == "all"@
    ||| name == "first"@
    ||| name == "find"@
    ||| name == "firstOrNull"@
    ||| name == "indexOfFirst"@
    ||| name == "takeWhile"@
    ||| name == "dropWhile"@
}

/// The result that settles the matter.
pub open spec fn settling(name: Seq<char>) -> bool {
    !(name == "all"@ || name == "takeWhile"@ || name == "dropWhile"@)
}

/// What a search answers when the result at `k` settled it, or none did and `k`
/// is the number of elements.
pub open spec fn search_done(p: PlanView, k: int) -> StepView {
    let name = p.name;
    let hit = k < p.items.len();
    if name == "any"@ {
        answer(Value::Bool(hit))
    } else if name == "none"@ || name == "all"@ {
        answer(Value::Bool(!hit))
    } else if name == "takeWhile"@ {
        list(p.items.subrange(0, k))
    } else if name == "dropWhile"@ {
        list(p.items.subrange(k, p.items.len() as int))
    } else if name == "indexOfFirst"@ {
        answer(
            if hit {
                as_int(k)
            } else {
                as_int(-1)
            },
        )
    } else {
        found(
            p.kind,
            name,
            if hit {
                Some(p.items[k])
            } else {
                None
            },
        )
    }
}

/// What a search does next: the result that has come last may settle it.
pub open spec fn search_step(p: PlanView, rs: Seq<Value>) -> StepView {
    let k = rs.len() as int;
    let n = p.items.len() as int;
    if k > 0 && holds(rs.last()) == settling(p.name) {
        search_done(p, k - 1)
    } else if k < n {
        StepView::Call(p.lambda, CallArgs::One(p.items[k]))
    } else {
        search_done(p, n)
    }
}

fn searches(name: &str) -> (r: bool)
    ensures
        r == is_search(name@),
{
    same(name, "any") || same(name, "none") || same(name, "all") || same(name, "first") || same(
        name,
        "find",
    ) || same(name, "firstOrNull") || same(name, "indexOfFirst") || same(name, "takeWhile") || same(
        name,
        "dropWhile",
    )
}

fn search_next(p: &Plan, rs: &Vec<Value>) -> (s: Step)
    requires
        rs@.len() <= p.items@.len(),
    ensures
        s@ == search_step(p@, rs@),
{
    let name: &str = p.name.as_str();
    let want: bool = !(same(name, "all") || same(name, "takeWhile") || same(name, "dropWhile"));
    let n: usize = p.items.len();
    let given: usize = rs.len();
    let settled: bool = given > 0 && truthy(&rs[given - 1]) == want;
    if !settled && given < n {
        return Step::Call(p.lambda, CallArgs::One(p.items[given]));
    }
    let k: usize = if settled {
        given - 1
    } else {
        n
    };
    let hit: bool = k < n;
    if same(name, "any") {
        answer_step(Value::Bool(hit))
    } else if same(name, "none") || same(name, "all") {
        answer_step(Value::Bool(!hit))
    } else if same(name, "takeWhile") {
        list_step(values_between(&p.items, 0, k))
    } else if same(name, "dropWhile") {
        list_step(values_between(&p.items, k, n))
    } else if same(name, "indexOfFirst") {
        if hit {
            answer_step(Value::Int(k as i64))
        } else {
            answer_step(Value::Int(-1))
        }
    } else if hit {
        found_step(p.kind, name, Some(p.items[k]))
    } else {
        found_step(p.kind, name, None)
    }
}

// ── Trimming by a predicate ─────────────────────────────────────────────────

/// The members that drop elements from the ends while a predicate holds.
pub open spec fn is_trim(name: Seq<char>) -> bool {
    name == "trim"@ || name == "trimStart"@ || name == "trimEnd"@
}

/// What trimming at the end does next: the elements before `lo` are gone already,
/// and `rs` are the results from the end on.
pub open spec fn trim_end_step(p: PlanView, lo: int, rs: Seq<Value>) -> StepView {
    let n = p.items.len() as int;
    let q = first_where(rs, false);
    if q == rs.len() && n - q > lo {
        StepView::Call(p.lambda, CallArgs::One(p.items[n - 1 - q]))
    } else {
        list(p.items.subrange(lo, n - q))
    }
}

/// What trimming does next: from the start first, then from the end.
pub open spec fn trim_step(p: PlanView, rs: Seq<Value>) -> StepView {
    let n = p.items.len() as int;
    if p.name == "trimEnd"@ {
        trim_end_step(p, 0, rs)
    } else {
        let lo = first_where(rs, false);
        if lo >= n {
            list(Seq::empty())
        } else if lo == rs.len() {
            StepView::Call(p.lambda, CallArgs::One(p.items[lo]))
        } else if p.name == "trimStart"@ {
            list(p.items.subrange(lo, n))
        } else {
            trim_end_step(p, lo, rs.skip(lo + 1))
        }
    }
}

proof fn lemma_trim_names()
    ensures
        "trim"@ != "trimEnd"@,
        "trim"@ != "trimStart"@,
{
    reveal_strlit("trim");
    reveal_strlit("trimEnd");
    reveal_strlit("trimStart");
    assert("trim"@.len() == 4);
    assert("trimEnd"@.len() == 7);
    assert("trimStart"@.len() == 9);
}

fn trim_end_next(p: &Plan, lo: usize, rs: &Vec<Value>, from: usize) -> (s: Step)
    requires
        lo <= p.items@.len(),
        from <= rs@.len(),
        rs@.len() - from <= p.items@.len() - lo,
    ensures
        s@ == trim_end_step(p@, lo as int, rs@.skip(from as int)),
{
    let n: usize = p.items.len();
    let q: usize = first_at(rs, from, false);
    if q == rs.len() - from && n - q > lo {
        Step::Call(p.lambda, CallArgs::One(p.items[n - 1 - q]))
    } else {
        list_step(values_between(&p.items, lo, n - q))
    }
}

fn trim_next(p: &Plan, rs: &Vec<Value>) -> (s: Step)
    requires
        rs@.len() <= p.items@.len() || (p.name@ == "trim"@ && rs@.len() <= p.items@.len() + 1),
    ensures
        s@ == trim_step(p@, rs@),
{
    let name: &str = p.name.as_str();
    let n: usize = p.items.len();
    assert(rs@.skip(0) =~= rs@);
    proof {
        lemma_trim_names();
    }
    if same(name, "trimEnd") {
        return trim_end_next(p, 0, rs, 0);
    }
    let lo: usize = first_at(rs, 0, false);
    if lo >= n {
        list_step(Vec::new())
    } else if lo == rs.len() {
        Step::Call(p.lambda, CallArgs::One(p.items[lo]))
    } else if same(name, "trimStart") {
        list_step(values_between(&p.items, lo, n))
    } else {
        trim_end_next(p, lo, rs, lo + 1)
    }
}

// ── Pairs of elements ───────────────────────────────────────────────────────

/// The members that call their lambda with pairs of elements.
pub open spec fn is_pairing(name: Seq<char>) -> bool {
    name == "zipWithNext"@ || name == "zip"@
}

/// The number of pairs.
pub open spec fn pair_count(p: PlanView) -> int {
    if p.name == "zip"@ {
        if p.items.len() < p.other.len() {
            p.items.len() as int
        } else {
            p.other.len() as int
        }
    } else if p.items.len() == 0 {
        0
    } else {
        p.items.len() - 1
    }
}

/// What such a member does next: the results are its answer.
pub open spec fn pair_step(p: PlanView, rs: Seq<Value>) -> StepView {
    let k = rs.len() as int;
    if k < pair_count(p) {
        StepView::Call(
            p.lambda,
            if p.name == "zip"@ {
                CallArgs::Two(p.items[k], p.other[k])
            } else {
                CallArgs::Two(p.items[k], p.items[k + 1])
            },
        )
    } else {
        list(rs)
    }
}

fn pair_next(p: &Plan, rs: &Vec<Value>) -> (s: Step)
    ensures
        s@ == pair_step(p@, rs@),
{
    let k: usize = rs.len();
    let n: usize = p.items.len();
    if same(p.name.as_str(), "zip") {
        if k < n && k < p.other.len() {
            Step::Call(p.lambda, CallArgs::Two(p.items[k], p.other[k]))
        } else {
            list_step(copy_values(rs))
        }
    } else if n > 0 && k < n - 1 {
        Step::Call(p.lambda, CallArgs::Two(p.items[k], p.items[k + 1]))
    } else {
        list_step(copy_values(rs))
    }
}

// ── Entries ─────────────────────────────────────────────────────────────────

/// The members whose elements or results are couples.
pub open spec fn is_coupled(name: Seq<char>) -> bool {
    ||| name == "filterKeys"@
    ||| name == "filterValues"@
    ||| name == "mapValues"@
    ||| name == "mapKeys"@
    ||| name == "associate"@
}

/// One half of a couple; null for anything else.
pub open spec fn half(h: HostView, v: Value, first: bool) -> Value {
    match couple_of(h, v) {
        Some((a, b)) => if first {
            a
        } else {
            b
        },
        None => Value::Undef,
    }
}

/// One half of each couple.
pub open spec fn halves(h: HostView, vs: Seq<Value>, first: bool) -> Seq<Value> {
    vs.map_values(|v: Value| half(h, v, first))
}

/// Whether `v` is a `Pair`.
pub open spec fn is_pair(h: HostView, v: Value) -> bool {
    h.obj(v) matches Some(ObjView::Pair(_, _))
}

/// What such a member does next.
pub open spec fn coupled_step(h: HostView, p: PlanView, rs: Seq<Value>) -> StepView {
    let name = p.name;
    let k = rs.len() as int;
    let n = p.items.len() as int;
    if name == "associate"@ {
        if exists|i: int| 0 <= i < k && !is_pair(h, #[trigger] rs[i]) {
            StepView::Done(ReplyView::Fault("kotlin: associate expects a Pair"@))
        } else if k < n {
            StepView::Call(p.lambda, CallArgs::One(p.items[k]))
        } else {
            entries(p)
        }
    } else if k < n {
        match couple_of(h, p.items[k]) {
            None => StepView::Done(ReplyView::Fault(unresolved(name, label_of(h, p.recv)))),
            Some((a, b)) => StepView::Call(
                p.lambda,
                if name == "filterKeys"@ {
                    CallArgs::One(a)
                } else if name == "filterValues"@ {
                    CallArgs::One(b)
                } else {
                    CallArgs::One(p.items[k])
                },
            ),
        }
    } else if name == "mapValues"@ || name == "mapKeys"@ {
        entries(p)
    } else {
        StepView::Done(
            ReplyView::Object(ObjView::MapObj(couples_in(h, kept(p.items, rs, true)))),
        )
    }
}

fn half_each(h: &Host, vs: &Vec<Value>, first: bool) -> (r: Vec<Value>)
    ensures
        r@ == halves(h@, vs@, first),
{
    let mut r: Vec<Value> = Vec::new();
    let mut i: usize = 0;
    while i < vs.len()
        invariant
            i <= vs@.len(),
            r@ == halves(h@, vs@, first).take(i as int),
        decreases vs.len() - i,
    {
        let x: Value = match couple(h, vs[i]) {
            Some((a, b)) => if first {
                a
            } else {
                b
            },
            None => Value::Undef,
        };
        r.push(x);
        i = i + 1;
        assert(halves(h@, vs@, first).take(i as int) =~= halves(h@, vs@, first).take(i - 1).push(x));
    }
    assert(halves(h@, vs@, first).take(i as int) =~= halves(h@, vs@, first));
    r
}

fn all_pairs(h: &Host, vs: &Vec<Value>) -> (r: bool)
    ensures
        r == !(exists|i: int| 0 <= i < vs@.len() && !is_pair(h@, #[trigger] vs@[i])),
{
    let mut i: usize = 0;
    while i < vs.len()
        invariant
            i <= vs@.len(),
            forall|k: int| 0 <= k < i ==> is_pair(h@, #[trigger] vs@[k]),
        decreases vs.len() - i,
    {
        let ok: bool = match h.obj(vs[i]) {
            Some(HeapObj::Pair(_, _)) => true,
            _ => false,
        };
        if !ok {
            assert(!is_pair(h@, vs@[i as int]));
            return false;
        }
        i = i + 1;
    }
    true
}

fn coupled(name: &str) -> (r: bool)
    ensures
        r == is_coupled(name@),
{
    same(name, "filterKeys") || same(name, "filterValues") || same(name, "mapValues") || same(
        name,
        "mapKeys",
    ) || same(name, "associate")
}

fn coupled_next(h: &Host, p: &Plan, rs: &Vec<Value>) -> (s: Step)
    requires
        rs@.len() <= p.items@.len(),
    ensures
        s@ == coupled_step(h@, p@, rs@),
{
    let name: &str = p.name.as_str();
    let k: usize = rs.len();
    let n: usize = p.items.len();
    if same(name, "associate") {
        if !all_pairs(h, rs) {
            Step::Done(Reply::Fault("kotlin: associate expects a Pair".to_owned()))
        } else if k < n {
            Step::Call(p.lambda, CallArgs::One(p.items[k]))
        } else {
            entries_step(p)
        }
    } else if k < n {
        match couple(h, p.items[k]) {
            None => Step::Done(Reply::Fault(unresolved_on(h, name, p.recv))),
            Some((a, b)) => if same(name, "filterKeys") {
                Step::Call(p.lambda, CallArgs::One(a))
            } else if same(name, "filterValues") {
                Step::Call(p.lambda, CallArgs::One(b))
            } else {
                Step::Call(p.lambda, CallArgs::One(p.items[k]))
            },
        }
    } else if same(name, "mapValues") || same(name, "mapKeys") {
        entries_step(p)
    } else {
        assert(rs@.take(p.items@.len() as int) =~= rs@);
        Step::Done(Reply::Object(HeapObj::MapObj(pick_couples(h, &keep(&p.items, rs, true)))))
    }
}

// ── Comparators ─────────────────────────────────────────────────────────────

/// The `(selector, descending)` keys of a comparator.
pub open spec fn comparator_of(h: HostView, v: Value) -> Option<Seq<(Value, bool)>> {
    match h.obj(v) {
        Some(ObjView::Comparator(keys)) => Some(keys),
        _ => None,
    }
}

/// A sort by insertion under way: the positions before `i` are in order, the one
/// at `j` is on its way down, and it is compared with the one before it by the
/// key `key`, of which the first of the two is known or not.
#[derive(Debug, PartialEq, Eq)]
pub struct Sorting {
    pub order: Vec<usize>,
    pub i: usize,
    pub j: usize,
    pub key: usize,
    pub first: Option<Value>,
}

/// A [`Sorting`] as a mathematical value.
#[verifier::ext_equal]
pub struct SortingView {
    pub order: Seq<int>,
    pub i: int,
    pub j: int,
    pub key: int,
    pub first: Option<Value>,
}

impl View for Sorting {
    type V = SortingView;

    open spec fn view(&self) -> SortingView {
        SortingView {
            order: positions_view(self.order@),
            i: self.i as int,
            j: self.j as int,
            key: self.key as int,
            first: self.first,
        }
    }
}

/// The positions `0 .. n`.
pub open spec fn identity(n: nat) -> Seq<int> {
    Seq::new(n, |i: int| i)
}

impl SortingView {
    /// The sort of `n` elements before any comparison.
    pub open spec fn of(n: nat) -> SortingView {
        SortingView { order: identity(n), i: 1, j: 1, key: 0, first: None }
    }

    /// Whether this is a sort of `n` elements.
    pub open spec fn sorts(self, n: nat) -> bool {
        &&& self.order.len() == n
        &&& forall|k: int| 0 <= k < n ==> 0 <= #[trigger] self.order[k] < n
    }

    /// Whether there is a comparison to make.
    pub open spec fn compares(self) -> bool {
        0 < self.j < self.order.len() && self.i < self.order.len()
    }

    /// The sort with the next position on its way down.
    pub open spec fn advanced(self) -> SortingView {
        SortingView { i: self.i + 1, j: self.i + 1, key: 0, first: None, ..self }
    }

    /// The sort after a comparison: positive when the two have to change places.
    pub open spec fn decided(self, c: int) -> SortingView {
        if !self.compares() {
            self
        } else if c > 0 {
            let swapped = SortingView {
                order: self.order.update(self.j - 1, self.order[self.j]).update(
                    self.j,
                    self.order[self.j - 1],
                ),
                j: self.j - 1,
                key: 0,
                first: None,
                ..self
            };
            if self.j == 1 {
                swapped.advanced()
            } else {
                swapped
            }
        } else {
            self.advanced()
        }
    }

    /// The sort with a result of the lambda, or of a key: the first key that tells
    /// the two apart decides.
    pub open spec fn noted(self, h: HostView, by: Value, v: Value) -> SortingView {
        match comparator_of(h, by) {
            None => self.decided(h.to_int(v)),
            Some(keys) => match self.first {
                None => SortingView { first: Some(v), ..self },
                Some(x) => {
                    let ord = natural_order(h, x, v);
                    if 0 <= self.key < keys.len() && ord != 0 {
                        self.decided(
                            if keys[self.key].1 {
                                -ord
                            } else {
                                ord
                            },
                        )
                    } else if self.key + 1 < keys.len() {
                        SortingView { key: self.key + 1, first: None, ..self }
                    } else {
                        self.decided(0)
                    }
                },
            },
        }
    }
}

/// The call that a sort needs next; `None` when it is done.
pub open spec fn sort_call(h: HostView, p: PlanView) -> Option<(Value, CallArgs)> {
    let s = p.notes.sorting;
    if !s.compares() {
        None
    } else {
        let a = p.items[s.order[s.j - 1]];
        let b = p.items[s.order[s.j]];
        match comparator_of(h, p.lambda) {
            None => Some((p.lambda, CallArgs::Two(a, b))),
            Some(keys) => if 0 <= s.key < keys.len() {
                Some(
                    (
                        keys[s.key].0,
                        CallArgs::One(
                            if s.first is None {
                                a
                            } else {
                                b
                            },
                        ),
                    ),
                )
            } else {
                None
            },
        }
    }
}

/// What `sortedWith` does next.
pub open spec fn sorted_with_step(h: HostView, p: PlanView) -> StepView {
    match sort_call(h, p) {
        Some((f, a)) => StepView::Call(f, a),
        None => {
            let out = picked(p.items, p.notes.sorting.order);
            StepView::Done(
                match h.obj(p.recv) {
                    Some(ObjView::MapObj(_)) => same_kind(h, p.recv, out),
                    Some(ObjView::SetObj(_)) => same_kind(h, p.recv, out),
                    _ => ReplyView::Tagged(out, sorted_class(p.kind)),
                },
            )
        },
    }
}

impl Sorting {
    fn of(n: usize) -> (s: Sorting)
        ensures
            s@ == SortingView::of(n as nat),
            s@.sorts(n as nat),
    {
        let mut order: Vec<usize> = Vec::new();
        let mut k: usize = 0;
        while k < n
            invariant
                k <= n,
                order@.len() == k,
                forall|x: int| 0 <= x < k ==> #[trigger] order@[x] == x,
            decreases n - k,
        {
            order.push(k);
            k = k + 1;
        }
        let s = Sorting { order, i: 1, j: 1, key: 0, first: None };
        assert(s@.order =~= identity(n as nat));
        assert(s@ =~= SortingView::of(n as nat));
        s
    }

    fn decide(&mut self, c: i64)
        ensures
            final(self)@ == old(self)@.decided(c as int),
    {
        let ghost before = self@;
        if !(0 < self.j && self.j < self.order.len() && self.i < self.order.len()) {
            return;
        }
        if c > 0 {
            let x: usize = self.order[self.j - 1];
            let y: usize = self.order[self.j];
            self.order.set(self.j - 1, y);
            self.order.set(self.j, x);
            assert(self@.order =~= before.order.update(before.j - 1, before.order[before.j]).update(
                before.j,
                before.order[before.j - 1],
            ));
            self.j = self.j - 1;
        }
        if c <= 0 || self.j == 0 {
            self.i = self.i + 1;
            self.j = self.i;
        }
        self.key = 0;
        self.first = None;
        assert(self@ =~= before.decided(c as int));
    }

    fn note(&mut self, h: &Host, by: Value, v: Value)
        ensures
            final(self)@ == old(self)@.noted(h@, by, v),
    {
        let ghost before = self@;
        match h.obj(by) {
            Some(HeapObj::Comparator(keys)) => {
                assert(comparator_of(h@, by) == Some(keys@));
                match self.first {
                    None => {
                        self.first = Some(v);
                        assert(self@ =~= before.noted(h@, by, v));
                    },
                    Some(x) => {
                        let ord: i8 = value_order(h, x, v);
                        if self.key < keys.len() && ord != 0 {
                            let c: i64 = if keys[self.key].1 {
                                -(ord as i64)
                            } else {
                                ord as i64
                            };
                            self.decide(c);
                        } else if self.key < keys.len() && self.key + 1 < keys.len() {
                            self.key = self.key + 1;
                            self.first = None;
                            assert(self@ =~= before.noted(h@, by, v));
                        } else {
                            self.decide(0);
                        }
                    },
                }
            },
            _ => {
                assert(comparator_of(h@, by) is None);
                self.decide(h.to_int(v));
            },
        }
    }
}

fn sorted_with_next(h: &Host, p: &Plan) -> (s: Step)
    requires
        p@.notes.sorting.sorts(p@.items.len()),
    ensures
        s@ == sorted_with_step(h@, p@),
{
    let t: &Sorting = &p.notes.sorting;
    assert(forall|k: int|
        0 <= k < t.order@.len() ==> p@.notes.sorting.order[k] == #[trigger] t.order@[k]);
    if 0 < t.j && t.j < t.order.len() && t.i < t.order.len() {
        let a: Value = p.items[t.order[t.j - 1]];
        let b: Value = p.items[t.order[t.j]];
        match h.obj(p.lambda) {
            Some(HeapObj::Comparator(keys)) => {
                assert(comparator_of(h@, p.lambda) == Some(keys@));
                if t.key < keys.len() {
                    let x: Value = if t.first.is_none() {
                        a
                    } else {
                        b
                    };
                    return Step::Call(keys[t.key].0, CallArgs::One(x));
                }
            },
            _ => {
                assert(comparator_of(h@, p.lambda) is None);
                return Step::Call(p.lambda, CallArgs::Two(a, b));
            },
        }
    }
    let out: Vec<Value> = pick(&p.items, &t.order);
    match h.obj(p.recv) {
        Some(HeapObj::MapObj(_)) => Step::Done(same_kind_as(h, p.recv, out)),
        Some(HeapObj::SetObj(_)) => Step::Done(same_kind_as(h, p.recv, out)),
        _ => Step::Done(Reply::Tagged(out, class_of_sorted(p.kind))),
    }
}

impl SortingView {
    /// The sort brought to its end with `c` comparing the positions.
    pub open spec fn finished(self, c: spec_fn(int, int) -> int) -> SortingView
        decreases self.order.len() - self.i, self.j,
    {
        if self.compares() {
            self.decided(c(self.order[self.j - 1], self.order[self.j])).finished(c)
        } else {
            self
        }
    }

    /// Whether the positions up to `i` are in order but for the one at `j`, which
    /// only comes before those it has passed.
    pub open spec fn ordered(self, c: spec_fn(int, int) -> int) -> bool {
        let n = self.order.len() as int;
        &&& 0 < self.j <= self.i
        &&& if self.i < n {
            self.order[self.j] == self.i
        } else {
            self.j == self.i
        }
        &&& forall|k: int| self.i < k < n ==> #[trigger] self.order[k] == k
        &&& forall|k: int|
            0 <= k <= self.i && k < n && k != self.j ==> #[trigger] self.order[k] < self.i
        &&& forall|a: int, b: int|
            #![trigger self.order[a], self.order[b]]
            0 <= a < b <= self.i && b < n && b != self.j ==> precedes(
                c,
                self.order[a],
                self.order[b],
            )
    }
}

/// Whether `c` compares the positions `0 .. n` as a comparator should: the sign
/// turns with the operands, and what is not after is not after transitively.
pub open spec fn is_comparison(c: spec_fn(int, int) -> int, n: nat) -> bool {
    &&& forall|x: int, y: int|
        #![trigger c(x, y)]
        0 <= x < n && 0 <= y < n ==> (c(x, y) > 0 <==> c(y, x) < 0)
    &&& forall|x: int, y: int, z: int|
        #![trigger c(x, y), c(y, z)]
        0 <= x < n && 0 <= y < n && 0 <= z < n && c(x, y) <= 0 && c(y, z) <= 0 ==> c(x, z) <= 0
}

/// Whether a stable sort by `c` puts `x` before `y`.
pub open spec fn precedes(c: spec_fn(int, int) -> int, x: int, y: int) -> bool {
    c(x, y) < 0 || c(x, y) == 0 && x < y
}

proof fn lemma_precedes_is_transitive(
    c: spec_fn(int, int) -> int,
    n: nat,
    x: int,
    y: int,
    z: int,
)
    requires
        is_comparison(c, n),
        0 <= x < n,
        0 <= y < n,
        0 <= z < n,
        precedes(c, x, y),
        precedes(c, y, z),
    ensures
        precedes(c, x, z),
{
    assert(c(x, y) <= 0 && c(y, z) <= 0);
    assert(c(x, z) <= 0);
    if c(x, z) == 0 {
        assert(c(z, x) <= 0);
        assert(c(y, x) <= 0);
        assert(c(z, y) <= 0);
    }
}

proof fn lemma_decided_keeps_order(s: SortingView, c: spec_fn(int, int) -> int, n: nat)
    requires
        is_comparison(c, n),
        s.sorts(n),
        s.ordered(c),
        s.compares(),
    ensures
        s.decided(c(s.order[s.j - 1], s.order[s.j])).sorts(n),
        s.decided(c(s.order[s.j - 1], s.order[s.j])).ordered(c),
{
    let x = s.order[s.j - 1];
    let y = s.order[s.j];
    let t = s.decided(c(x, y));
    if c(x, y) > 0 {
        assert(c(y, x) < 0);
    } else {
        assert(precedes(c, x, y));
        assert forall|a: int, b: int|
            #![trigger t.order[a], t.order[b]]
            0 <= a < b <= t.i && b < n && b != t.j implies precedes(
            c,
            t.order[a],
            t.order[b],
        ) by {
            if b == s.j && a != s.j - 1 {
                assert(precedes(c, s.order[a], s.order[s.j - 1]));
                lemma_precedes_is_transitive(c, n, s.order[a], x, y);
            }
        }
    }
}

proof fn lemma_swap_keeps_elements(s: SortingView, c: int, n: nat)
    requires
        s.sorts(n),
    ensures
        s.decided(c).sorts(n),
        s.decided(c).order.to_multiset() == s.order.to_multiset(),
{
    if s.compares() {
        broadcast use vstd::multiset::group_multiset_axioms;

        let once = s.order.update(s.j - 1, s.order[s.j]);
        let swapped = once.update(s.j, s.order[s.j - 1]);
        vstd::seq_lib::to_multiset_update(s.order, s.j - 1, s.order[s.j]);
        vstd::seq_lib::to_multiset_update(once, s.j, s.order[s.j - 1]);
        vstd::seq_lib::to_multiset_contains(s.order, s.order[s.j - 1]);
        assert(s.order.contains(s.order[s.j - 1]));
        assert(swapped.to_multiset() =~= s.order.to_multiset());
    }
}

/// A comparison loses and invents no element: what is sorted stays a permutation,
/// whatever the comparator answers.
pub proof fn law_sorting_permutes(s: SortingView, h: HostView, by: Value, v: Value, n: nat)
    requires
        s.sorts(n),
    ensures
        s.noted(h, by, v).sorts(n),
        s.noted(h, by, v).order.to_multiset() == s.order.to_multiset(),
{
    lemma_swap_keeps_elements(s, h.to_int(v), n);
    lemma_swap_keeps_elements(s, 0, n);
    if s.first is Some {
        lemma_swap_keeps_elements(s, natural_order(h, s.first->0, v), n);
        lemma_swap_keeps_elements(s, -natural_order(h, s.first->0, v), n);
    }
}

proof fn lemma_finished(s: SortingView, c: spec_fn(int, int) -> int, n: nat)
    requires
        is_comparison(c, n),
        s.sorts(n),
        s.ordered(c),
    ensures
        s.finished(c).sorts(n),
        s.finished(c).ordered(c),
        !s.finished(c).compares(),
        s.finished(c).order.to_multiset() == s.order.to_multiset(),
    decreases s.order.len() - s.i, s.j,
{
    if s.compares() {
        let d = c(s.order[s.j - 1], s.order[s.j]);
        lemma_decided_keeps_order(s, c, n);
        lemma_swap_keeps_elements(s, d, n);
        lemma_finished(s.decided(d), c, n);
    }
}

/// `sortedWith` puts every element in order, and keeps those that compare equal in
/// the order they had.
pub proof fn law_sorting_is_stable(c: spec_fn(int, int) -> int, n: nat)
    requires
        is_comparison(c, n),
    ensures
        SortingView::of(n).finished(c).order.to_multiset() == identity(n).to_multiset(),
        forall|a: int, b: int|
            0 <= a < b < n ==> precedes(
                c,
                #[trigger] SortingView::of(n).finished(c).order[a],
                #[trigger] SortingView::of(n).finished(c).order[b],
            ),
{
    lemma_finished(SortingView::of(n), c, n);
}

// ── The rest ────────────────────────────────────────────────────────────────

/// What `getOrElse` does next. On a `Map` its argument is a key, else an index;
/// the lambda supplies what is missing.
pub open spec fn get_or_else_step(h: HostView, p: PlanView, rs: Seq<Value>, log: Answers) -> Result<
    StepView,
    Stop,
> {
    let key = value_or_null(p.extras, 0);
    if rs.len() > 0 {
        Ok(answer(rs[0]))
    } else if h.obj(p.recv) matches Some(ObjView::MapObj(_)) {
        let keys = halves(host_at(h, log, 0), p.items, true);
        match position_walk(h, log, 0, keys, key, 0, true, budget(h)) {
            Err(s) => Err(s),
            Ok((i, _)) => Ok(
                if i < p.items.len() {
                    answer(half(h, p.items[i], false))
                } else {
                    StepView::Call(p.lambda, CallArgs::One(key))
                },
            ),
        }
    } else {
        let i = h.to_int(key);
        Ok(
            if 0 <= i < p.items.len() {
                answer(p.items[i])
            } else {
                StepView::Call(p.lambda, CallArgs::One(Value::Int(i as i64)))
            },
        )
    }
}

fn get_or_else_next(h: &Host, p: &Plan, rs: &Vec<Value>, answers: &Vec<Turn>) -> (s: Result<
    Step,
    Stop,
>)
    ensures
        stepped(s) == get_or_else_step(h@, p@, rs@, answers@),
{
    if rs.len() > 0 {
        return Ok(answer_step(rs[0]));
    }
    let key: Value = if p.extras.len() > 0 {
        p.extras[0]
    } else {
        Value::Undef
    };
    match h.obj(p.recv) {
        Some(HeapObj::MapObj(_)) => {
            let keys: Vec<Value> = half_each(host_before(h, answers), &p.items, true);
            let mut log = Log::new(answers);
            match position(&mut log, h, &keys, key, true, depth_budget(h)) {
                Err(s) => Err(s),
                Ok(i) => if i < p.items.len() {
                    let v: Value = match couple(h, p.items[i]) {
                        Some((_, b)) => b,
                        None => Value::Undef,
                    };
                    Ok(answer_step(v))
                } else {
                    Ok(Step::Call(p.lambda, CallArgs::One(key)))
                },
            }
        },
        _ => {
            let i: i64 = h.to_int(key);
            if 0 <= i && (i as u128) < p.items.len() as u128 {
                Ok(answer_step(p.items[i as usize]))
            } else {
                Ok(Step::Call(p.lambda, CallArgs::One(Value::Int(i))))
            }
        },
    }
}

/// What `joinToString` with a transform does next: it renders as many elements
/// as its limit allows.
pub open spec fn join_step(h: HostView, p: PlanView, rs: Seq<Value>) -> StepView {
    let n = p.items.len() as int;
    if rs.len() < shown_count(h, p.extras, n) {
        StepView::Call(p.lambda, CallArgs::One(p.items[rs.len() as int]))
    } else {
        StepView::Done(ReplyView::Text(join_text(h, p.notes.texts, n, p.extras)))
    }
}

/// What a member other than `getOrElse` does next, of a receiver that is no text.
pub open spec fn plain_step(h: HostView, p: PlanView, rs: Seq<Value>) -> StepView {
    let name = p.name;
    let k = rs.len() as int;
    let n = p.items.len();
    if name == "sortedWith"@ {
        sorted_with_step(h, p)
    } else if is_trim(name) {
        trim_step(p, rs)
    } else if is_each(name) {
        if k < n {
            StepView::Call(p.lambda, CallArgs::One(p.items[k]))
        } else {
            each_done(h, p, rs)
        }
    } else if is_indexed(name) {
        if k < n {
            StepView::Call(p.lambda, CallArgs::Two(as_int(k), p.items[k]))
        } else {
            indexed_done(p, rs)
        }
    } else if is_fold(name) {
        fold_step(p, rs)
    } else if is_search(name) {
        search_step(p, rs)
    } else if is_pairing(name) {
        pair_step(p, rs)
    } else if is_coupled(name) {
        coupled_step(h, p, rs)
    } else if name == "joinToString"@ {
        join_step(h, p, rs)
    } else if name == "groupingBy"@ {
        StepView::Done(
            ReplyView::Object(ObjView::Grouping { items: p.items, key: p.lambda }),
        )
    } else {
        StepView::Done(ReplyView::Fault(unresolved(name, label_of(h, p.recv))))
    }
}

/// A reply over characters, as the overload for texts gives it.
pub open spec fn text_step(h: HostView, name: Seq<char>, s: StepView) -> StepView {
    match s {
        StepView::Done(ReplyView::Object(ObjView::List(v))) => if rebuilds_text(name) {
            StepView::Done(ReplyView::Text(run_together(h, v)))
        } else {
            s
        },
        StepView::Done(ReplyView::Lists(a, b)) => StepView::Done(
            ReplyView::TextPair(run_together(h, a), run_together(h, b)),
        ),
        _ => s,
    }
}

/// What a member does next, given the results of its calls so far.
pub open spec fn hof_step(h: HostView, p: PlanView, rs: Seq<Value>, log: Answers) -> Result<
    StepView,
    Stop,
> {
    let step = if p.name == "getOrElse"@ {
        get_or_else_step(h, p, rs, log)
    } else {
        Ok(plain_step(h, p, rs))
    };
    match step {
        Err(s) => Err(s),
        Ok(s) => Ok(
            if p.text {
                text_step(h, p.name, s)
            } else {
                s
            },
        ),
    }
}

fn join_next(h: &Host, p: &Plan, rs: &Vec<Value>) -> (s: Step)
    requires
        p@.notes.texts.len() == rs@.len(),
    ensures
        s@ == join_step(h@, p@, rs@),
{
    let n: usize = p.items.len();
    if rs.len() < join_count(h, &p.extras, n) {
        Step::Call(p.lambda, CallArgs::One(p.items[rs.len()]))
    } else {
        Step::Done(Reply::Text(join_to_string(h, &p.notes.texts, n, &p.extras)))
    }
}

/// What a member other than `getOrElse` does next, of a receiver that is no text.
fn plain_next(h: &Host, p: &Plan, rs: &Vec<Value>) -> (s: Step)
    requires
        fits(p@, rs@.len()),
        p@.name != "getOrElse"@,
    ensures
        s@ == plain_step(h@, p@, rs@),
{
    let name: &str = p.name.as_str();
    let k: usize = rs.len();
    let n: usize = p.items.len();
    if same(name, "sortedWith") {
        sorted_with_next(h, p)
    } else if same(name, "trim") || same(name, "trimStart") || same(name, "trimEnd") {
        trim_next(p, rs)
    } else if calls_each(name) {
        if k < n {
            Step::Call(p.lambda, CallArgs::One(p.items[k]))
        } else {
            each_reply(h, p, rs)
        }
    } else if same(name, "mapIndexed") || same(name, "flatMapIndexed") || same(
        name,
        "filterIndexed",
    ) || same(name, "forEachIndexed") {
        if k < n {
            Step::Call(p.lambda, CallArgs::Two(Value::Int(k as i64), p.items[k]))
        } else {
            indexed_reply(p, rs)
        }
    } else if folds(name) {
        fold_next(p, rs)
    } else if searches(name) {
        search_next(p, rs)
    } else if same(name, "zipWithNext") || same(name, "zip") {
        pair_next(p, rs)
    } else if coupled(name) {
        coupled_next(h, p, rs)
    } else if same(name, "joinToString") {
        join_next(h, p, rs)
    } else if same(name, "groupingBy") {
        Step::Done(
            Reply::Object(HeapObj::Grouping { items: copy_values(&p.items), key: p.lambda }),
        )
    } else {
        Step::Done(Reply::Fault(unresolved_on(h, name, p.recv)))
    }
}

fn as_text(h: &Host, name: &str, s: Step) -> (r: Step)
    ensures
        r@ == text_step(h@, name@, s@),
{
    match s {
        Step::Done(Reply::Object(HeapObj::List(v))) => if charseq_returns_string(name) {
            Step::Done(Reply::Text(concat_values(h, &v)))
        } else {
            Step::Done(Reply::Object(HeapObj::List(v)))
        },
        Step::Done(Reply::Lists(a, b)) => Step::Done(
            Reply::TextPair(concat_values(h, &a), concat_values(h, &b)),
        ),
        other => other,
    }
}

/// Whether `n` results are no more than the member asks for, and it has noted
/// what it needs of them.
pub open spec fn fits(p: PlanView, n: nat) -> bool {
    &&& {
        ||| n <= p.items.len()
        ||| p.name == "trim"@ && n <= p.items.len() + 1
        ||| p.name == "sortedWith"@
        ||| p.name == "getOrElse"@
    }
    &&& p.name == "joinToString"@ ==> p.notes.texts.len() == n
    &&& p.notes.sorting.sorts(p.items.len())
}

/// What a member does next, given the results of its calls so far.
pub fn hof_next(h: &Host, p: &Plan, rs: &Vec<Value>, answers: &Vec<Turn>) -> (s: Result<
    Step,
    Stop,
>)
    requires
        fits(p@, rs@.len()),
    ensures
        stepped(s) == hof_step(h@, p@, rs@, answers@),
{
    let s: Step = if same(p.name.as_str(), "getOrElse") {
        match get_or_else_next(h, p, rs, answers) {
            Ok(s) => s,
            Err(s) => {
                return Err(s);
            },
        }
    } else {
        plain_next(h, p, rs)
    };
    if p.text {
        Ok(as_text(h, p.name.as_str(), s))
    } else {
        Ok(s)
    }
}

// ── Noting results ──────────────────────────────────────────────────────────

/// The members that collect values under keys.
pub open spec fn is_keyed(name: Seq<char>) -> bool {
    ||| name == "groupBy"@
    ||| name == "Grouping.eachCount"@
    ||| name == "associateBy"@
    ||| name == "associateWith"@
    ||| name == "associate"@
    ||| name == "mapKeys"@
    ||| name == "mapValues"@
}

/// The key and the value that call `k` with the result `v` gives.
pub open spec fn keyed_by_call(h: HostView, p: PlanView, k: int, v: Value) -> (Value, Value) {
    let item = value_or_null(p.items, k);
    if p.name == "associateWith"@ {
        (item, v)
    } else if p.name == "associate"@ {
        (half(h, v, true), half(h, v, false))
    } else if p.name == "mapKeys"@ {
        (v, half(h, item, false))
    } else if p.name == "mapValues"@ {
        (half(h, item, true), v)
    } else {
        (v, item)
    }
}

/// The plan with the result `v` of call `k` noted. The keys of a `Map` are told
/// apart by hash and `==`. What `associate` gets instead of a `Pair` is not noted.
pub open spec fn noted(h: HostView, p: PlanView, k: int, v: Value, log: Answers) -> Result<
    PlanView,
    Stop,
> {
    let notes = p.notes;
    let g = host_at(h, log, 0);
    if p.name == "flatMap"@ || p.name == "flatMapIndexed"@ {
        Ok(
            PlanView {
                notes: NotesView { items: notes.items + items_of(h, v), ..notes },
                ..p
            },
        )
    } else if p.name == "joinToString"@ {
        Ok(
            PlanView {
                notes: NotesView { texts: notes.texts.push(text_of(h, v)), ..notes },
                ..p
            },
        )
    } else if p.name == "associate"@ && !is_pair(g, v) {
        Ok(p)
    } else if is_keyed(p.name) {
        let (key, value) = keyed_by_call(g, p, k, v);
        match position_walk(h, log, 0, notes.keys, key, 0, true, budget(h)) {
            Ok((i, _)) => Ok(PlanView { notes: notes.with_value(i, key, value), ..p }),
            Err(s) => Err(s),
        }
    } else if p.name == "sortedWith"@ {
        Ok(
            PlanView {
                notes: NotesView { sorting: notes.sorting.noted(h, p.lambda, v), ..notes },
                ..p
            },
        )
    } else {
        Ok(p)
    }
}

fn halved(h: &Host, v: Value) -> (r: (Value, Value))
    ensures
        r == (half(h@, v, true), half(h@, v, false)),
{
    match couple(h, v) {
        Some(c) => c,
        None => (Value::Undef, Value::Undef),
    }
}

fn key_and_value(h: &Host, p: &Plan, k: usize, v: Value) -> (r: (Value, Value))
    ensures
        r == keyed_by_call(h@, p@, k as int, v),
{
    let name: &str = p.name.as_str();
    let item: Value = if k < p.items.len() {
        p.items[k]
    } else {
        Value::Undef
    };
    if same(name, "associateWith") {
        (item, v)
    } else if same(name, "associate") {
        halved(h, v)
    } else if same(name, "mapKeys") {
        (v, halved(h, item).1)
    } else if same(name, "mapValues") {
        (halved(h, item).0, v)
    } else {
        (v, item)
    }
}

fn gives_pair(h: &Host, v: Value) -> (r: bool)
    ensures
        r == is_pair(h@, v),
{
    matches!(h.obj(v), Some(HeapObj::Pair(_, _)))
}

/// Note the result `v` of call `k`, as soon as it has come. Nothing is noted while a
/// declared `equals` or `hashCode` of a key has to be run first, nor when a
/// comparison of keys has no end.
pub fn hof_note(h: &Host, p: &mut Plan, k: usize, v: Value, answers: &Vec<Turn>) -> (r: Result<
    (),
    Stop,
>)
    ensures
        match noted(h@, old(p)@, k as int, v, answers@) {
            Ok(q) => r is Ok && final(p)@ == q,
            Err(s) => r == Err::<(), Stop>(s) && final(p)@ == old(p)@,
        },
{
    let ghost before = p@;
    let g: &Host = host_before(h, answers);
    let flat: bool = same(p.name.as_str(), "flatMap") || same(p.name.as_str(), "flatMapIndexed");
    let joins: bool = same(p.name.as_str(), "joinToString");
    let keys: bool = same(p.name.as_str(), "groupBy") || same(p.name.as_str(), "Grouping.eachCount")
        || same(p.name.as_str(), "associateBy") || same(p.name.as_str(), "associateWith") || same(
        p.name.as_str(),
        "associate",
    ) || same(p.name.as_str(), "mapKeys") || same(p.name.as_str(), "mapValues");
    let sorts: bool = same(p.name.as_str(), "sortedWith");
    let ghost after = noted(h@, before, k as int, v, answers@);
    if flat {
        let mut more: Vec<Value> = sequence_items(h, v);
        p.notes.items.append(&mut more);
        assert(p@ =~= after->Ok_0);
    } else if joins {
        let t: String = kotlin_string(h, v);
        p.notes.texts.push(t);
        assert(p@.notes.texts =~= before.notes.texts.push(text_of(h@, v)));
        assert(p@ =~= after->Ok_0);
    } else if same(p.name.as_str(), "associate") && !gives_pair(g, v) {
    } else if keys {
        let (key, value): (Value, Value) = key_and_value(g, p, k, v);
        let mut log = Log::new(answers);
        match position(&mut log, h, &p.notes.keys, key, true, depth_budget(h)) {
            Err(s) => {
                return Err(s);
            },
            Ok(i) => {
                p.notes.add_value(i, key, value);
                assert(p@ =~= after->Ok_0);
            },
        }
    } else if sorts {
        let by: Value = p.lambda;
        p.notes.sorting.note(h, by, v);
        assert(p@ =~= after->Ok_0);
    }
    Ok(())
}

/// Keys are kept apart: a key that is noted was found different from each before
/// it, and what is given for a key that equals one of those joins its values.
pub proof fn law_noting_keeps_keys_apart(h: HostView, p: PlanView, k: int, v: Value, log: Answers)
    requires
        noted(h, p, k, v, log) is Ok,
        is_keyed(p.name),
        p.name == "associate"@ ==> is_pair(host_at(h, log, 0), v),
        p.notes.keys.len() == p.notes.groups.len(),
    ensures
        ({
            let notes = p.notes;
            let q = noted(h, p, k, v, log)->Ok_0.notes;
            let (key, value) = keyed_by_call(host_at(h, log, 0), p, k, v);
            let is_new = {
                &&& q.keys == notes.keys.push(key)
                &&& q.groups == notes.groups.push(seq![value])
                &&& forall|i: int|
                    0 <= i < notes.keys.len() ==> are_told_apart(
                        h,
                        log,
                        #[trigger] notes.keys[i],
                        key,
                        budget(h),
                    )
            };
            let joins = {
                &&& q.keys == notes.keys
                &&& exists|i: int|
                    {
                        &&& 0 <= i < notes.keys.len()
                        &&& are_found_equal(h, log, #[trigger] notes.keys[i], key, budget(h))
                        &&& q.groups == notes.groups.update(i, notes.groups[i].push(value))
                    }
            };
            is_new || joins
        }),
{
    lemma_keyed_names(p.name);
    let keys = p.notes.keys;
    let (key, _) = keyed_by_call(host_at(h, log, 0), p, k, v);
    lemma_position_is_from(h, log, 0, keys, key, 0, true, budget(h));
    if let Ok((i, _)) = position_walk(h, log, 0, keys, key, 0, true, budget(h)) {
        if i == keys.len() {
            lemma_passed(h, log, 0, keys, key, 0, budget(h));
        } else {
            lemma_found(h, log, 0, keys, key, 0, budget(h));
            assert(are_found_equal(h, log, keys[i], key, budget(h)));
        }
    }
}

proof fn lemma_keyed_names(name: Seq<char>)
    requires
        is_keyed(name),
    ensures
        name != "flatMap"@,
        name != "flatMapIndexed"@,
        name != "joinToString"@,
{
    reveal_strlit("flatMap");
    reveal_strlit("flatMapIndexed");
    reveal_strlit("joinToString");
    reveal_strlit("groupBy");
    reveal_strlit("Grouping.eachCount");
    reveal_strlit("associateBy");
    reveal_strlit("associateWith");
    reveal_strlit("associate");
    reveal_strlit("mapKeys");
    reveal_strlit("mapValues");
    assert("flatMap"@[0] == 'f');
    assert("flatMapIndexed"@[0] == 'f');
    assert("joinToString"@[0] == 'j');
    assert("groupBy"@[0] == 'g');
    assert("Grouping.eachCount"@[0] == 'G');
    assert("associateBy"@[0] == 'a');
    assert("associateWith"@[0] == 'a');
    assert("associate"@[0] == 'a');
    assert("mapKeys"@[0] == 'm');
    assert("mapValues"@[0] == 'm');
}

proof fn lemma_join_names()
    ensures
        "joinToString"@ != "flatMap"@,
        "joinToString"@ != "flatMapIndexed"@,
{
    reveal_strlit("joinToString");
    reveal_strlit("flatMap");
    reveal_strlit("flatMapIndexed");
    assert("joinToString"@.len() == 12);
    assert("flatMap"@.len() == 7);
    assert("flatMapIndexed"@.len() == 14);
}

/// A member that has asked for a call is ready for its result: with that noted,
/// one more result is still no more than it asks for.
pub proof fn law_a_call_leaves_room(
    h: HostView,
    p: PlanView,
    rs: Seq<Value>,
    log: Answers,
    g: HostView,
    v: Value,
    turns: Answers,
)
    requires
        fits(p, rs.len()),
        hof_step(h, p, rs, log) matches Ok(StepView::Call(_, _)),
        noted(g, p, rs.len() as int, v, turns) is Ok,
    ensures
        fits(noted(g, p, rs.len() as int, v, turns)->Ok_0, rs.len() + 1),
{
    lemma_join_names();
    law_sorting_permutes(p.notes.sorting, g, p.lambda, v, p.items.len());
    if !(p.name == "sortedWith"@ || p.name == "getOrElse"@) {
        if is_trim(p.name) {
            lemma_trim_names();
            lemma_first_where(rs, false);
            if p.name != "trimEnd"@ {
                let lo = first_where(rs, false);
                if lo < rs.len() {
                    lemma_first_where(rs.skip(lo + 1), false);
                }
            }
        }
    }
}

// ── Starting ────────────────────────────────────────────────────────────────

/// The plan of a member over the elements `items`.
pub open spec fn planned(
    h: HostView,
    name: Seq<char>,
    recv: Value,
    extras: Seq<Value>,
    lambda: Value,
    kind: SeqKind,
    items: Seq<Value>,
    text: bool,
) -> PlanView {
    PlanView {
        name,
        kind,
        recv,
        extras,
        lambda,
        items,
        other: if name == "zip"@ && extras.len() > 0 {
            items_of(h, extras[0])
        } else {
            Seq::empty()
        },
        text,
        notes: NotesView::empty(items.len()),
    }
}

/// The texts of groups of characters.
pub open spec fn group_texts(h: HostView, gs: Seq<Seq<Value>>) -> Seq<Seq<char>> {
    gs.map_values(|g: Seq<Value>| run_together(h, g))
}

/// Groups as list objects.
pub open spec fn list_objs(gs: Seq<Seq<Value>>) -> Seq<ObjView> {
    gs.map_values(|g: Seq<Value>| ObjView::List(g))
}

/// The start of a member on a text: its characters become a new list, and the
/// groups of `chunked` and `windowed` new texts.
pub open spec fn text_started(
    h: HostView,
    name: Seq<char>,
    s: Seq<char>,
    extras: Seq<Value>,
    lambda: Value,
    kind: SeqKind,
) -> (HostView, Result<PlanView, Seq<char>>) {
    let chars = char_values(s);
    let recv = h.next_handle();
    let g = h.allocated(ObjView::List(chars));
    if name == "chunked"@ || name == "windowed"@ {
        match grouped(g, chars, name, extras) {
            Err(m) => (g, Err(m)),
            Ok(gs) => {
                let (f, items) = with_texts(g, group_texts(g, gs));
                (f, Ok(planned(f, name, recv, extras, lambda, kind, items, false)))
            },
        }
    } else {
        (g, Ok(planned(g, name, recv, extras, lambda, kind, chars, true)))
    }
}

/// The start of a member that takes a lambda: the state with what the receiver
/// presents, and the plan or a fault. The groups of `chunked` and `windowed`
/// become new lists.
pub open spec fn started(
    h: HostView,
    name: Seq<char>,
    recv: Value,
    extras: Seq<Value>,
    lambda: Value,
    kind: SeqKind,
) -> (HostView, Result<PlanView, Seq<char>>) {
    match recv {
        Value::Str(id) => text_started(h, name, h.text(id), extras, lambda, kind),
        _ => {
            let (g, snap) = snapshot(h, recv);
            match snap {
                None => (g, Err(unresolved(name, label_of(g, recv)))),
                Some(items) => if name == "chunked"@ || name == "windowed"@ {
                    match grouped(g, items, name, extras) {
                        Err(m) => (g, Err(m)),
                        Ok(gs) => {
                            let (f, lists) = with_objs(g, list_objs(gs));
                            (f, Ok(planned(f, name, recv, extras, lambda, kind, lists, false)))
                        },
                    }
                } else {
                    (g, Ok(planned(g, name, recv, extras, lambda, kind, items, false)))
                },
            }
        },
    }
}

fn plan(
    h: &Host,
    name: &str,
    recv: Value,
    extras: &Vec<Value>,
    lambda: Value,
    kind: SeqKind,
    items: Vec<Value>,
    text: bool,
) -> (p: Plan)
    ensures
        p@ == planned(h@, name@, recv, extras@, lambda, kind, items@, text),
{
    let other: Vec<Value> = if same(name, "zip") && extras.len() > 0 {
        sequence_items(h, extras[0])
    } else {
        Vec::new()
    };
    let notes: Notes = Notes::new(items.len());
    Plan {
        name: name.to_owned(),
        kind,
        recv,
        extras: copy_values(extras),
        lambda,
        items,
        other,
        text,
        notes,
    }
}

pub(crate) fn texts_of_groups(h: &Host, gs: &Vec<Vec<Value>>) -> (r: Vec<String>)
    ensures
        texts_view(r@) == group_texts(h@, lists_view(gs@)),
{
    let mut r: Vec<String> = Vec::new();
    let ghost want = group_texts(h@, lists_view(gs@));
    let mut i: usize = 0;
    while i < gs.len()
        invariant
            i <= gs@.len(),
            want == group_texts(h@, lists_view(gs@)),
            r@.len() == i,
            forall|k: int| 0 <= k < i ==> (#[trigger] r@[k])@ == want[k],
        decreases gs.len() - i,
    {
        assert(lists_view(gs@)[i as int] == gs@[i as int]@);
        r.push(concat_values(h, &gs[i]));
        i = i + 1;
    }
    assert(texts_view(r@) =~= want);
    r
}

pub(crate) fn objs_of_groups(gs: Vec<Vec<Value>>) -> (r: Vec<HeapObj>)
    ensures
        objs_view(r@) == list_objs(lists_view(gs@)),
{
    let mut r: Vec<HeapObj> = Vec::new();
    let ghost want = list_objs(lists_view(gs@));
    for g in it: gs
        invariant
            it.seq() == gs@,
            want == list_objs(lists_view(gs@)),
            r@.len() == it.index(),
            forall|k: int| 0 <= k < it.index() ==> (#[trigger] r@[k])@ == want[k],
    {
        assert(lists_view(gs@)[it.index() as int] == g@);
        r.push(HeapObj::List(g));
    }
    assert(objs_view(r@) =~= want);
    r
}

/// A plan, or a fault, as a mathematical value.
pub open spec fn plan_view(r: Result<Plan, String>) -> Result<PlanView, Seq<char>> {
    match r {
        Ok(p) => Ok(p@),
        Err(m) => Err(m@),
    }
}

fn start_on_text(
    h: &mut Host,
    name: &str,
    s: &str,
    extras: &Vec<Value>,
    lambda: Value,
    kind: SeqKind,
) -> (r: Result<Plan, String>)
    ensures
        (final(h)@, plan_view(r)) == text_started(old(h)@, name@, s@, extras@, lambda, kind),
{
    let chars: Vec<Value> = chars_of(s);
    let recv: Value = h.allocate(HeapObj::List(copy_values(&chars)));
    if same(name, "chunked") || same(name, "windowed") {
        match groups_of(h, &chars, name, extras) {
            Err(m) => Err(m),
            Ok(gs) => {
                let ts: Vec<String> = texts_of_groups(h, &gs);
                let items: Vec<Value> = store_texts(h, ts);
                Ok(plan(h, name, recv, extras, lambda, kind, items, false))
            },
        }
    } else {
        Ok(plan(h, name, recv, extras, lambda, kind, chars, true))
    }
}

/// Start a member that takes a lambda on a receiver that is no lazy sequence.
pub fn hof_start(
    h: &mut Host,
    name: &str,
    recv: Value,
    extras: &Vec<Value>,
    lambda: Value,
    kind: SeqKind,
) -> (r: Result<Plan, String>)
    ensures
        (final(h)@, plan_view(r)) == started(old(h)@, name@, recv, extras@, lambda, kind),
{
    if let Value::Str(id) = recv {
        let s: String = h.text(id).to_owned();
        return start_on_text(h, name, s.as_str(), extras, lambda, kind);
    }
    match list_snapshot(h, recv) {
        None => Err(unresolved_on(h, name, recv)),
        Some(items) => if same(name, "chunked") || same(name, "windowed") {
            match groups_of(h, &items, name, extras) {
                Err(m) => Err(m),
                Ok(gs) => {
                    let lists: Vec<Value> = store_objs(h, objs_of_groups(gs));
                    Ok(plan(h, name, recv, extras, lambda, kind, lists, false))
                },
            }
        } else {
            Ok(plan(h, name, recv, extras, lambda, kind, items, false))
        },
    }
}

/// A search calls its lambda no more once a result settles the matter.
pub proof fn law_searches_stop_early(p: PlanView, rs: Seq<Value>)
    requires
        is_search(p.name),
        rs.len() > 0,
        holds(rs.last()) == settling(p.name),
    ensures
        search_step(p, rs) is Done,
{
}

/// Filtering keeps the receiver's kind: a filtered map is a map, a filtered set a
/// set, and anything else a list.
pub proof fn law_filtering_keeps_the_kind(h: HostView, p: PlanView, rs: Seq<Value>)
    requires
        p.name == "filter"@ || p.name == "filterNot"@,
    ensures
        match each_done(h, p, rs) {
            StepView::Done(ReplyView::Object(o)) => match h.obj(p.recv) {
                Some(ObjView::MapObj(_)) => o is MapObj,
                Some(ObjView::SetObj(_)) => o is SetObj,
                _ => o is List,
            },
            _ => false,
        },
{
    reveal_strlit("filter");
    reveal_strlit("filterNot");
    reveal_strlit("map");
    reveal_strlit("chunked");
    reveal_strlit("windowed");
}

/// The step with null in place of a fault.
pub open spec fn nulled(s: StepView) -> StepView {
    match s {
        StepView::Done(r) => StepView::Done(r.or_null()),
        other => other,
    }
}

/// The `…OrNull` searches answer null where their plain counterparts raise, and
/// the same otherwise.
pub proof fn law_or_null_searches(kind: SeqKind, v: Option<Value>, hits: Seq<Value>)
    ensures
        found(kind, "firstOrNull"@, v) == nulled(found(kind, "first"@, v)),
        found(kind, "lastOrNull"@, v) == nulled(found(kind, "last"@, v)),
        single_found(kind, "singleOrNull"@, hits) == nulled(single_found(kind, "single"@, hits)),
{
    reveal_strlit("first");
    reveal_strlit("firstOrNull");
    reveal_strlit("last");
    reveal_strlit("lastOrNull");
    reveal_strlit("single");
    reveal_strlit("singleOrNull");
}

} // verus!
