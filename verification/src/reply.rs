//! What a member call comes to.
use crate::host::{CollOrder, Host, ListImpl};
use crate::value::{Double, HeapObj, Value};
use vstd::prelude::*;

verus! {

use crate::host::HostView;
use crate::search::texts_view;
use crate::value::{DoubleView, ObjView};

/// A floating-point operation, to be carried out by the machine.
#[derive(Clone, Copy, Debug, PartialEq, Eq, Structural)]
pub enum FloatOp {
    Add,
    Sub,
    Mul,
    Div,
    Rem,
    Pow,
    Neg,
    /// The magnitude.
    Abs,
    Sqrt,
    Floor,
    Ceil,
    /// Round half to even.
    Round,
    /// The first operand as a double.
    Convert,
    Lt,
    Gt,
    Le,
    Ge,
    Eq,
    Ne,
}

/// A floating-point operation on two values, each taken as a double.
#[derive(Clone, Copy, Debug, PartialEq, Eq, Structural)]
pub struct FloatTask {
    pub op: FloatOp,
    pub a: Value,
    pub b: Value,
}

/// The text of a floating-point number, taken apart. The reader converts it.
#[derive(Debug, PartialEq, Eq)]
pub enum NumberText {
    Infinity { negative: bool },
    NotANumber,
    /// `whole.fraction × 2^exp` in hexadecimal digits.
    Hex { negative: bool, whole: String, fraction: String, exp: i32 },
    /// A decimal number in plain or exponent notation.
    Decimal { negative: bool, body: String },
}

/// A [`NumberText`] as a mathematical value.
#[verifier::ext_equal]
pub enum NumberTextView {
    Infinity { negative: bool },
    NotANumber,
    Hex { negative: bool, whole: Seq<char>, fraction: Seq<char>, exp: int },
    Decimal { negative: bool, body: Seq<char> },
}

impl View for NumberText {
    type V = NumberTextView;

    open spec fn view(&self) -> NumberTextView {
        match self {
            NumberText::Infinity { negative } => NumberTextView::Infinity { negative: *negative },
            NumberText::NotANumber => NumberTextView::NotANumber,
            NumberText::Hex { negative, whole, fraction, exp } => NumberTextView::Hex {
                negative: *negative,
                whole: whole@,
                fraction: fraction@,
                exp: *exp as int,
            },
            NumberText::Decimal { negative, body } => NumberTextView::Decimal {
                negative: *negative,
                body: body@,
            },
        }
    }
}

/// What a member call comes to, before anything is stored: an existing value,
/// something new to be stored, work for the machine's floating-point unit, or a
/// fault.
#[derive(Debug, PartialEq, Eq)]
pub enum Reply {
    Value(Value),
    /// A new text.
    Text(String),
    /// A new list of new texts.
    Texts(Vec<String>),
    /// Two new texts, in a new pair.
    TextPair(String, String),
    /// A new object.
    Object(HeapObj),
    /// A new list that stands for a certain class.
    Tagged(Vec<Value>, ListImpl),
    /// A new list that is a view of a `Sequence`.
    Sequence(Vec<Value>),
    /// A new list of new objects.
    NewList(Vec<HeapObj>),
    /// A new set of new objects.
    NewSet(Vec<HeapObj>),
    /// Two new lists, in a new pair.
    Lists(Vec<Value>, Vec<Value>),
    /// A new map from keys to new lists.
    Groups(Vec<(Value, Vec<Value>)>),
    /// A new map that stays in key order; its entries are in that order.
    SortedMap(Vec<(Value, Value)>),
    /// A new content for the object of the first value, and the second value.
    Update(Value, HeapObj, Value),
    /// A new number.
    Number(Double),
    /// A number to be computed.
    Compute(FloatTask),
    /// The sum of the values, taken as doubles.
    Sum(Vec<Value>),
    /// The average of the values, taken as doubles.
    Average(Vec<Value>),
    /// A number to be read.
    Read(NumberText),
    /// A text to be made from a format and its arguments.
    Format(String, Vec<Value>),
    /// The same member of the list that the lazy receiver gives.
    Pull,
    /// How many of the elements have each key that a lambda gives.
    Count(Vec<Value>, Value),
    /// A fault message.
    Fault(String),
}

/// Objects as mathematical values.
pub open spec fn objs_view(v: Seq<HeapObj>) -> Seq<ObjView> {
    v.map_values(|o: HeapObj| o@)
}

/// Keyed lists as mathematical values.
pub open spec fn groups_view(v: Seq<(Value, Vec<Value>)>) -> Seq<(Value, Seq<Value>)> {
    v.map_values(|g: (Value, Vec<Value>)| (g.0, g.1@))
}

/// A [`Reply`] as a mathematical value.
#[verifier::ext_equal]
pub enum ReplyView {
    Value(Value),
    Text(Seq<char>),
    Texts(Seq<Seq<char>>),
    TextPair(Seq<char>, Seq<char>),
    Object(ObjView),
    Tagged(Seq<Value>, ListImpl),
    Sequence(Seq<Value>),
    NewList(Seq<ObjView>),
    NewSet(Seq<ObjView>),
    Lists(Seq<Value>, Seq<Value>),
    Groups(Seq<(Value, Seq<Value>)>),
    SortedMap(Seq<(Value, Value)>),
    Update(Value, ObjView, Value),
    Number(DoubleView),
    Compute(FloatTask),
    Sum(Seq<Value>),
    Average(Seq<Value>),
    Read(NumberTextView),
    Format(Seq<char>, Seq<Value>),
    Pull,
    Count(Seq<Value>, Value),
    Fault(Seq<char>),
}

impl ReplyView {
    /// The reply with null in place of a fault.
    pub open spec fn or_null(self) -> ReplyView {
        match self {
            ReplyView::Fault(_) => ReplyView::Value(Value::Undef),
            other => other,
        }
    }
}

impl View for Reply {
    type V = ReplyView;

    open spec fn view(&self) -> ReplyView {
        match self {
            Reply::Value(v) => ReplyView::Value(*v),
            Reply::Text(s) => ReplyView::Text(s@),
            Reply::Texts(v) => ReplyView::Texts(texts_view(v@)),
            Reply::TextPair(a, b) => ReplyView::TextPair(a@, b@),
            Reply::Object(o) => ReplyView::Object(o@),
            Reply::Tagged(v, t) => ReplyView::Tagged(v@, *t),
            Reply::Sequence(v) => ReplyView::Sequence(v@),
            Reply::NewList(v) => ReplyView::NewList(objs_view(v@)),
            Reply::NewSet(v) => ReplyView::NewSet(objs_view(v@)),
            Reply::Lists(a, b) => ReplyView::Lists(a@, b@),
            Reply::Groups(g) => ReplyView::Groups(groups_view(g@)),
            Reply::SortedMap(es) => ReplyView::SortedMap(es@),
            Reply::Update(v, o, a) => ReplyView::Update(*v, o@, *a),
            Reply::Sum(v) => ReplyView::Sum(v@),
            Reply::Average(v) => ReplyView::Average(v@),
            Reply::Number(d) => ReplyView::Number(d@),
            Reply::Compute(t) => ReplyView::Compute(*t),
            Reply::Read(t) => ReplyView::Read(t@),
            Reply::Format(f, a) => ReplyView::Format(f@, a@),
            Reply::Pull => ReplyView::Pull,
            Reply::Count(v, k) => ReplyView::Count(v@, *k),
            Reply::Fault(m) => ReplyView::Fault(m@),
        }
    }
}

/// A reply, if there is one, as a mathematical value.
pub open spec fn reply_view(r: Option<Reply>) -> Option<ReplyView> {
    match r {
        Some(x) => Some(x@),
        None => None,
    }
}

/// What the caller gets.
#[derive(Debug, PartialEq, Eq)]
pub enum Answer {
    Value(Value),
    Compute(FloatTask),
    Sum(Vec<Value>),
    Average(Vec<Value>),
    Read(NumberText),
    Format(String, Vec<Value>),
    Pull,
    Count(Vec<Value>, Value),
    Fault(String),
}

/// An [`Answer`] as a mathematical value.
#[verifier::ext_equal]
pub enum AnswerView {
    Value(Value),
    Compute(FloatTask),
    Sum(Seq<Value>),
    Average(Seq<Value>),
    Read(NumberTextView),
    Format(Seq<char>, Seq<Value>),
    Pull,
    Count(Seq<Value>, Value),
    Fault(Seq<char>),
}

impl View for Answer {
    type V = AnswerView;

    open spec fn view(&self) -> AnswerView {
        match self {
            Answer::Value(v) => AnswerView::Value(*v),
            Answer::Compute(t) => AnswerView::Compute(*t),
            Answer::Sum(v) => AnswerView::Sum(v@),
            Answer::Average(v) => AnswerView::Average(v@),
            Answer::Read(t) => AnswerView::Read(t@),
            Answer::Format(f, a) => AnswerView::Format(f@, a@),
            Answer::Pull => AnswerView::Pull,
            Answer::Count(v, k) => AnswerView::Count(v@, *k),
            Answer::Fault(m) => AnswerView::Fault(m@),
        }
    }
}

/// The state with the texts of `ts` added, and their values.
pub open spec fn with_texts(h: HostView, ts: Seq<Seq<char>>) -> (HostView, Seq<Value>) {
    (
        HostView { texts: h.texts + ts, ..h },
        Seq::new(ts.len(), |i: int| Value::Str((h.texts.len() + i) as usize)),
    )
}

/// The state with the objects of `os` allocated, and their handles.
pub open spec fn with_objs(h: HostView, os: Seq<ObjView>) -> (HostView, Seq<Value>)
    decreases os.len(),
{
    if os.len() == 0 {
        (h, Seq::empty())
    } else {
        let (g, vs) = with_objs(h, os.drop_last());
        (g.allocated(os.last()), vs.push(g.next_handle()))
    }
}

/// Lists as objects.
pub open spec fn group_lists(gs: Seq<(Value, Seq<Value>)>) -> Seq<ObjView> {
    gs.map_values(|g: (Value, Seq<Value>)| ObjView::List(g.1))
}

/// The entries that pair each key with its new list.
pub open spec fn group_entries(gs: Seq<(Value, Seq<Value>)>, vs: Seq<Value>) -> Seq<(Value, Value)> {
    Seq::new(gs.len(), |i: int| (gs[i].0, vs[i]))
}

/// The state with `o` allocated, and the handle as the answer.
pub open spec fn stored(h: HostView, o: ObjView) -> (HostView, AnswerView) {
    (h.allocated(o), AnswerView::Value(h.next_handle()))
}

/// The state with a new list of the class `t`, and the list.
pub open spec fn tagged(h: HostView, items: Seq<Value>, t: ListImpl) -> (HostView, AnswerView) {
    (
        h.allocated(ObjView::List(items)).with_list_tag(h.next_handle(), t),
        AnswerView::Value(h.next_handle()),
    )
}

/// The state after a reply is stored, and what the caller gets.
pub open spec fn settled(h: HostView, r: ReplyView) -> (HostView, AnswerView) {
    match r {
        ReplyView::Value(v) => (h, AnswerView::Value(v)),
        ReplyView::Text(s) => (h.with_text(s), AnswerView::Value(h.next_text())),
        ReplyView::Texts(ts) => {
            let (g, vs) = with_texts(h, ts);
            stored(g, ObjView::List(vs))
        },
        ReplyView::TextPair(a, b) => {
            let g = h.with_text(a);
            stored(g.with_text(b), ObjView::Pair(h.next_text(), g.next_text()))
        },
        ReplyView::Object(o) => stored(h, o),
        ReplyView::Tagged(items, t) => tagged(h, items, t),
        ReplyView::Sequence(items) => (
            h.allocated(ObjView::List(items)).with_sequence_tag(h.next_handle()),
            AnswerView::Value(h.next_handle()),
        ),
        ReplyView::NewList(os) => {
            let (g, vs) = with_objs(h, os);
            stored(g, ObjView::List(vs))
        },
        ReplyView::NewSet(os) => {
            let (g, vs) = with_objs(h, os);
            stored(g, ObjView::SetObj(vs))
        },
        ReplyView::Lists(a, b) => {
            let g = h.allocated(ObjView::List(a));
            stored(
                g.allocated(ObjView::List(b)),
                ObjView::Pair(h.next_handle(), g.next_handle()),
            )
        },
        ReplyView::Groups(gs) => {
            let (g, vs) = with_objs(h, group_lists(gs));
            stored(g, ObjView::MapObj(group_entries(gs, vs)))
        },
        ReplyView::SortedMap(es) => (
            h.allocated(ObjView::MapObj(es)).with_order(h.next_handle(), CollOrder::Sorted),
            AnswerView::Value(h.next_handle()),
        ),
        ReplyView::Update(v, o, a) => (
            if h.obj(v) is Some {
                h.with_obj(v, o)
            } else {
                h
            },
            AnswerView::Value(a),
        ),
        ReplyView::Number(d) => (
            h.with_double(d),
            AnswerView::Value(Value::Float(h.doubles.len() as usize)),
        ),
        ReplyView::Compute(t) => (h, AnswerView::Compute(t)),
        ReplyView::Sum(v) => (h, AnswerView::Sum(v)),
        ReplyView::Average(v) => (h, AnswerView::Average(v)),
        ReplyView::Read(t) => (h, AnswerView::Read(t)),
        ReplyView::Format(f, a) => (h, AnswerView::Format(f, a)),
        ReplyView::Pull => (h, AnswerView::Pull),
        ReplyView::Count(v, k) => (h, AnswerView::Count(v, k)),
        ReplyView::Fault(m) => (h, AnswerView::Fault(m)),
    }
}

/// Allocate objects and answer their handles.
pub fn store_objs(h: &mut Host, os: Vec<HeapObj>) -> (vs: Vec<Value>)
    ensures
        (final(h)@, vs@) == with_objs(old(h)@, objs_view(os@)),
        vs@.len() == os@.len(),
{
    let ghost all = objs_view(os@);
    let mut vs: Vec<Value> = Vec::new();
    assert(all.take(0) =~= Seq::empty());
    for o in it: os
        invariant
            it.seq() == os@,
            all == objs_view(os@),
            vs@.len() == it.index(),
            (h@, vs@) == with_objs(old(h)@, all.take(it.index() as int)),
    {
        let ghost k = it.index() as int;
        assert(o@ == all[k]);
        assert(all.take(k + 1).drop_last() =~= all.take(k));
        let v: Value = h.allocate(o);
        vs.push(v);
    }
    assert(all.take(all.len() as int) =~= all);
    vs
}

/// Add texts to the text table and answer their values.
pub fn store_texts(h: &mut Host, ts: Vec<String>) -> (vs: Vec<Value>)
    ensures
        (final(h)@, vs@) == with_texts(old(h)@, texts_view(ts@)),
{
    let ghost all = texts_view(ts@);
    let mut vs: Vec<Value> = Vec::new();
    let mut i: usize = 0;
    let ghost goal = with_texts(old(h)@, all);
    assert(h@ =~= HostView { texts: old(h)@.texts + all.take(0), ..old(h)@ }) by {
        assert(old(h)@.texts + all.take(0) =~= old(h)@.texts);
    }
    while i < ts.len()
        invariant
            i <= ts@.len(),
            all == texts_view(ts@),
            goal == with_texts(old(h)@, all),
            h@ == (HostView { texts: old(h)@.texts + all.take(i as int), ..old(h)@ }),
            vs@ == goal.1.take(i as int),
        decreases ts.len() - i,
    {
        let ghost before = h@;
        let v: Value = h.text_value(ts[i].as_str().to_owned());
        vs.push(v);
        i = i + 1;
        assert(before.texts.push(all[i - 1]) =~= old(h)@.texts + all.take(i as int));
        assert(h@ =~= HostView { texts: old(h)@.texts + all.take(i as int), ..old(h)@ });
        assert(vs@ =~= goal.1.take(i as int));
    }
    assert(all.take(i as int) =~= all);
    assert(vs@ =~= goal.1);
    vs
}

/// Store lists under their keys and answer the entries.
fn store_groups(h: &mut Host, gs: Vec<(Value, Vec<Value>)>) -> (es: Vec<(Value, Value)>)
    ensures
        ({
            let (g, vs) = with_objs(old(h)@, group_lists(groups_view(gs@)));
            final(h)@ == g && es@ == group_entries(groups_view(gs@), vs)
        }),
{
    let ghost all = groups_view(gs@);
    let mut keys: Vec<Value> = Vec::new();
    let mut lists: Vec<HeapObj> = Vec::new();
    for g in it: gs
        invariant
            it.seq() == gs@,
            all == groups_view(gs@),
            keys@.len() == it.index(),
            lists@.len() == it.index(),
            forall|k: int| 0 <= k < it.index() ==> #[trigger] keys@[k] == all[k].0,
            forall|k: int|
                0 <= k < it.index() ==> (#[trigger] lists@[k])@ == ObjView::List(all[k].1),
    {
        keys.push(g.0);
        lists.push(HeapObj::List(g.1));
    }
    assert(objs_view(lists@) =~= group_lists(all));
    let vs: Vec<Value> = store_objs(h, lists);
    let ghost want = group_entries(all, vs@);
    let mut es: Vec<(Value, Value)> = Vec::new();
    let mut i: usize = 0;
    while i < keys.len()
        invariant
            i <= keys@.len(),
            keys@.len() == vs@.len(),
            all.len() == keys@.len(),
            want == group_entries(all, vs@),
            forall|k: int| 0 <= k < keys@.len() ==> #[trigger] keys@[k] == all[k].0,
            es@ == want.take(i as int),
        decreases keys.len() - i,
    {
        es.push((keys[i], vs[i]));
        i = i + 1;
        assert(want.take(i as int) =~= want.take(i - 1).push(want[i - 1]));
    }
    assert(want.take(i as int) =~= want);
    es
}

/// Store what a reply holds and hand it to the caller.
pub fn settle(h: &mut Host, r: Reply) -> (a: Answer)
    ensures
        (final(h)@, a@) == settled(old(h)@, r@),
{
    match r {
        Reply::Value(v) => Answer::Value(v),
        Reply::Text(s) => Answer::Value(h.text_value(s)),
        Reply::Texts(ts) => {
            let vs: Vec<Value> = store_texts(h, ts);
            Answer::Value(h.allocate(HeapObj::List(vs)))
        },
        Reply::TextPair(a, b) => {
            let x: Value = h.text_value(a);
            let y: Value = h.text_value(b);
            Answer::Value(h.allocate(HeapObj::Pair(x, y)))
        },
        Reply::Object(o) => Answer::Value(h.allocate(o)),
        Reply::Tagged(items, t) => {
            let v: Value = h.allocate(HeapObj::List(items));
            h.tag_list(v, t);
            Answer::Value(v)
        },
        Reply::Sequence(items) => {
            let v: Value = h.allocate(HeapObj::List(items));
            h.tag_sequence(v);
            Answer::Value(v)
        },
        Reply::NewList(os) => {
            let vs: Vec<Value> = store_objs(h, os);
            Answer::Value(h.allocate(HeapObj::List(vs)))
        },
        Reply::NewSet(os) => {
            let vs: Vec<Value> = store_objs(h, os);
            Answer::Value(h.allocate(HeapObj::SetObj(vs)))
        },
        Reply::Lists(a, b) => {
            let x: Value = h.allocate(HeapObj::List(a));
            let y: Value = h.allocate(HeapObj::List(b));
            Answer::Value(h.allocate(HeapObj::Pair(x, y)))
        },
        Reply::Groups(gs) => {
            let es: Vec<(Value, Value)> = store_groups(h, gs);
            Answer::Value(h.allocate(HeapObj::MapObj(es)))
        },
        Reply::SortedMap(es) => {
            let v: Value = h.allocate(HeapObj::MapObj(es));
            h.tag_order(v, CollOrder::Sorted);
            Answer::Value(v)
        },
        Reply::Update(v, o, a) => {
            if let Value::Obj(id) = v {
                if (id as usize) < h.heap.len() {
                    h.replace(id, o);
                }
            }
            Answer::Value(a)
        },
        Reply::Number(d) => Answer::Value(h.double_value(d)),
        Reply::Compute(t) => Answer::Compute(t),
        Reply::Sum(v) => Answer::Sum(v),
        Reply::Average(v) => Answer::Average(v),
        Reply::Read(t) => Answer::Read(t),
        Reply::Format(f, a) => Answer::Format(f, a),
        Reply::Pull => Answer::Pull,
        Reply::Count(v, k) => Answer::Count(v, k),
        Reply::Fault(m) => Answer::Fault(m),
    }
}

proof fn lemma_new_objects_keep_old(h: HostView, os: Seq<ObjView>, v: Value)
    requires
        h.obj(v) is Some,
    ensures
        with_objs(h, os).0.obj(v) == h.obj(v),
    decreases os.len(),
{
    if os.len() > 0 {
        lemma_new_objects_keep_old(h, os.drop_last(), v);
    }
}

/// Storing a reply changes no object that was there, but for the one that an
/// update names.
pub proof fn law_storing_keeps_objects(h: HostView, r: ReplyView, v: Value)
    requires
        h.obj(v) is Some,
        r matches ReplyView::Update(u, _, _) ==> u != v,
    ensures
        settled(h, r).0.obj(v) == h.obj(v),
{
    match r {
        ReplyView::NewList(os) => {
            lemma_new_objects_keep_old(h, os, v);
        },
        ReplyView::NewSet(os) => {
            lemma_new_objects_keep_old(h, os, v);
        },
        ReplyView::Groups(gs) => {
            lemma_new_objects_keep_old(h, group_lists(gs), v);
        },
        _ => {},
    }
}

} // verus!
