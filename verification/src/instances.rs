//! Class instances, and what a program declares about its classes.
use crate::display::find_field;
use crate::host::Host;
use crate::radix::parse_size;
use crate::reply::Reply;
use crate::search::split;
use crate::text::{chars_of_str, concat2, same};
use crate::value::{HeapObj, Value};
use vstd::prelude::*;

verus! {

use crate::display::field_named;
use crate::host::HostView;
use crate::radix::size_number;
use crate::reply::ReplyView;
use crate::search::{pieces, texts_view};
use crate::value::{fields_view, ObjView};

// ── The description of a class ──────────────────────────────────────────────

/// What a constructor call says of the class: its name, whether it is a `data`
/// class, how many properties its primary constructor declares, which of them
/// are `Long`, and the names of the properties.
#[derive(Debug, PartialEq, Eq)]
pub struct Meta {
    pub class: String,
    pub is_data: bool,
    pub data_len: usize,
    pub widths: String,
    pub names: Vec<String>,
}

/// A [`Meta`] as a mathematical value.
pub struct MetaView {
    pub class: Seq<char>,
    pub is_data: bool,
    pub data_len: int,
    pub widths: Seq<char>,
    pub names: Seq<Seq<char>>,
}

impl View for Meta {
    type V = MetaView;

    open spec fn view(&self) -> MetaView {
        MetaView {
            class: self.class@,
            is_data: self.is_data,
            data_len: self.data_len as int,
            widths: self.widths@,
            names: texts_view(self.names@),
        }
    }
}

/// Piece `i`, or nothing.
pub open spec fn piece(ps: Seq<Seq<char>>, i: int) -> Seq<char> {
    if 0 <= i < ps.len() {
        ps[i]
    } else {
        Seq::empty()
    }
}

/// The description that a text writes: five parts with a unit separator between
/// them, the last of which is a list of its own.
pub open spec fn meta_of(s: Seq<char>) -> MetaView {
    let ps = pieces(s, "\u{1f}"@);
    MetaView {
        class: piece(ps, 0),
        is_data: ps.len() > 1 && ps[1] == "d"@,
        data_len: match size_number(piece(ps, 2)) {
            Some(n) => n,
            None => 0,
        },
        widths: piece(ps, 3),
        names: if ps.len() > 4 {
            ps.skip(4)
        } else {
            Seq::empty()
        },
    }
}

fn piece_text(ps: &Vec<String>, i: usize) -> (s: String)
    ensures
        s@ == piece(texts_view(ps@), i as int),
{
    if i < ps.len() {
        ps[i].as_str().to_owned()
    } else {
        let s: String = String::new();
        assert(s@ =~= Seq::empty());
        s
    }
}

/// Read the description of a class.
pub fn read_meta(s: &str) -> (m: Meta)
    ensures
        m@ == meta_of(s@),
{
    let ps: Vec<String> = split(&chars_of_str(s), &chars_of_str("\u{1f}"));
    let mut names: Vec<String> = Vec::new();
    let ghost all = texts_view(ps@);
    let ghost want = meta_of(s@).names;
    let mut i: usize = 4;
    while i < ps.len()
        invariant
            i >= 4,
            all == texts_view(ps@),
            all.len() > 4 ==> want == all.skip(4),
            names@.len() == i - 4,
            i <= all.len() || i == 4,
            forall|k: int| 0 <= k < i - 4 ==> (#[trigger] names@[k])@ == all[k + 4],
        decreases ps.len() - i,
    {
        names.push(ps[i].as_str().to_owned());
        i = i + 1;
    }
    assert(texts_view(names@) =~= want);
    let data_len: usize = match parse_size(piece_text(&ps, 2).as_str()) {
        Some(n) => n,
        None => 0,
    };
    Meta {
        class: piece_text(&ps, 0),
        is_data: ps.len() > 1 && same(ps[1].as_str(), "d"),
        data_len,
        widths: piece_text(&ps, 3),
        names,
    }
}

// ── Construction ────────────────────────────────────────────────────────────

/// Names with their values, as far as both go.
pub open spec fn named_values(names: Seq<Seq<char>>, vals: Seq<Value>) -> Seq<(Seq<char>, Value)> {
    Seq::new(
        if names.len() < vals.len() {
            names.len()
        } else {
            vals.len()
        },
        |i: int| (names[i], vals[i]),
    )
}

/// The fields of an instance; anything else has none.
pub open spec fn fields_of(h: HostView, v: Value) -> Seq<(Seq<char>, Value)> {
    match h.obj(v) {
        Some(ObjView::Instance { fields, .. }) => fields,
        _ => Seq::empty(),
    }
}

/// The instance that a constructor makes: the fields of the superclass's
/// instance, then its own. Only its own count as primary-constructor properties.
pub open spec fn instance_of(h: HostView, base: Value, m: MetaView, vals: Seq<Value>) -> ObjView {
    ObjView::Instance {
        class: m.class,
        is_data: m.is_data,
        fields: fields_of(h, base) + named_values(m.names, vals),
        data_from: fields_of(h, base).len() as int,
        data_len: m.data_len,
    }
}

/// The state with a class's `Long` properties recorded.
pub open spec fn with_widths(h: HostView, class: Seq<char>, widths: Seq<char>) -> HostView {
    if widths.len() == 0 {
        h
    } else {
        HostView { widths: h.widths.insert(class, widths), ..h }
    }
}

fn copy_fields(fields: &Vec<(String, Value)>) -> (r: Vec<(String, Value)>)
    ensures
        fields_view(r@) == fields_view(fields@),
{
    let mut r: Vec<(String, Value)> = Vec::new();
    let mut i: usize = 0;
    while i < fields.len()
        invariant
            i <= fields@.len(),
            r@.len() == i,
            forall|k: int|
                0 <= k < i ==> (#[trigger] r@[k]).0@ == fields@[k].0@ && r@[k].1 == fields@[k].1,
        decreases fields.len() - i,
    {
        r.push((fields[i].0.as_str().to_owned(), fields[i].1));
        i = i + 1;
    }
    assert(fields_view(r@) =~= fields_view(fields@));
    r
}

/// Construct an instance on top of `base`, the instance of its superclass if it
/// has one. A class's `Long` properties are recorded on the way.
pub fn construct(h: &mut Host, base: Value, meta: &str, vals: &Vec<Value>) -> (o: HeapObj)
    ensures
        final(h)@ == with_widths(old(h)@, meta_of(meta@).class, meta_of(meta@).widths),
        o@ == instance_of(old(h)@, base, meta_of(meta@), vals@),
{
    let m: Meta = read_meta(meta);
    let mut fields: Vec<(String, Value)> = match h.obj(base) {
        Some(HeapObj::Instance { fields, .. }) => copy_fields(fields),
        _ => Vec::new(),
    };
    let data_from: usize = fields.len();
    let ghost inherited = fields_of(h@, base);
    assert(fields_view(fields@) =~= inherited);
    let ghost own = named_values(m@.names, vals@);
    let mut i: usize = 0;
    assert(inherited + own.take(0) =~= inherited);
    while i < m.names.len() && i < vals.len()
        invariant
            i <= own.len(),
            own == named_values(m@.names, vals@),
            m@.names.len() == m.names@.len(),
            forall|k: int| 0 <= k < m.names@.len() ==> m@.names[k] == (#[trigger] m.names@[k])@,
            fields_view(fields@) == inherited + own.take(i as int),
        decreases m.names.len() - i,
    {
        let ghost before = fields@;
        fields.push((m.names[i].as_str().to_owned(), vals[i]));
        assert(fields_view(fields@) =~= fields_view(before).push(own[i as int]));
        assert(inherited + own.take(i + 1) =~= (inherited + own.take(i as int)).push(
            own[i as int],
        ));
        i = i + 1;
    }
    assert(own.take(i as int) =~= own);
    h.register_widths(m.class.as_str(), m.widths.as_str());
    HeapObj::Instance {
        class: m.class,
        is_data: m.is_data,
        fields,
        data_from,
        data_len: m.data_len,
    }
}

// ── Fields ──────────────────────────────────────────────────────────────────

/// The fault of a name that an instance does not have.
pub open spec fn unknown_name(name: Seq<char>) -> Seq<char> {
    "unresolved reference: "@ + name
}

/// What a property read answers.
pub open spec fn field_reply(h: HostView, obj: Value, name: Seq<char>) -> ReplyView {
    match field_named(fields_of(h, obj), name) {
        Some(v) => ReplyView::Value(v),
        None => ReplyView::Fault(unknown_name(name)),
    }
}

/// The fields with the value of the first one called `name` changed; `None`
/// when there is none.
pub open spec fn field_set(fields: Seq<(Seq<char>, Value)>, name: Seq<char>, v: Value) -> Option<
    Seq<(Seq<char>, Value)>,
>
    decreases fields.len(),
{
    if fields.len() == 0 {
        None
    } else if fields[0].0 == name {
        Some(fields.update(0, (name, v)))
    } else {
        match field_set(fields.skip(1), name, v) {
            Some(rest) => Some(seq![fields[0]] + rest),
            None => None,
        }
    }
}

/// What a property write does.
pub open spec fn field_stored(h: HostView, obj: Value, name: Seq<char>, v: Value) -> ReplyView {
    match h.obj(obj) {
        Some(ObjView::Instance { class, is_data, fields, data_from, data_len }) => match field_set(
            fields,
            name,
            v,
        ) {
            Some(changed) => ReplyView::Update(
                obj,
                ObjView::Instance { class, is_data, fields: changed, data_from, data_len },
                Value::Undef,
            ),
            None => ReplyView::Fault(unknown_name(name)),
        },
        _ => ReplyView::Fault(unknown_name(name)),
    }
}

/// Read a property of an instance.
pub fn get_field(h: &Host, obj: Value, name: &str) -> (r: Reply)
    ensures
        r@ == field_reply(h@, obj, name@),
{
    let hit: Option<Value> = match h.obj(obj) {
        Some(HeapObj::Instance { fields, .. }) => find_field(fields, name),
        _ => None,
    };
    match hit {
        Some(v) => Reply::Value(v),
        None => Reply::Fault(concat2("unresolved reference: ", name)),
    }
}

fn set_in(fields: &Vec<(String, Value)>, name: &str, v: Value) -> (r: Option<Vec<(String, Value)>>)
    ensures
        match r {
            Some(changed) => field_set(fields_view(fields@), name@, v) == Some(
                fields_view(changed@),
            ),
            None => field_set(fields_view(fields@), name@, v) is None,
        },
{
    let ghost all = fields_view(fields@);
    let mut i: usize = 0;
    assert(all.skip(0) =~= all);
    proof {
        if let Some(rest) = field_set(all, name@, v) {
            assert(all.take(0) + rest =~= rest);
        }
    }
    while i < fields.len()
        invariant
            i <= fields@.len(),
            all == fields_view(fields@),
            match field_set(all.skip(i as int), name@, v) {
                Some(rest) => field_set(all, name@, v) == Some(all.take(i as int) + rest),
                None => field_set(all, name@, v) is None,
            },
        decreases fields.len() - i,
    {
        let ghost tail = all.skip(i as int);
        assert(tail[0] == all[i as int]);
        assert(tail.skip(1) =~= all.skip(i + 1));
        if same(fields[i].0.as_str(), name) {
            let mut changed: Vec<(String, Value)> = copy_fields(fields);
            let ghost before = fields_view(changed@);
            changed.set(i, (name.to_owned(), v));
            assert(fields_view(changed@) =~= before.update(i as int, (name@, v)));
            assert(all.take(i as int) + tail.update(0, (name@, v)) =~= fields_view(changed@));
            return Some(changed);
        }
        proof {
            if let Some(rest) = field_set(tail.skip(1), name@, v) {
                assert(all.take(i as int) + (seq![tail[0]] + rest) =~= all.take(i + 1) + rest);
            }
        }
        i = i + 1;
    }
    None
}

/// Write a property of an instance.
pub fn set_field(h: &Host, obj: Value, name: &str, v: Value) -> (r: Reply)
    ensures
        r@ == field_stored(h@, obj, name@, v),
{
    match h.obj(obj) {
        Some(HeapObj::Instance { class, is_data, fields, data_from, data_len }) => match set_in(
            fields,
            name,
            v,
        ) {
            Some(changed) => Reply::Update(
                obj,
                HeapObj::Instance {
                    class: class.as_str().to_owned(),
                    is_data: *is_data,
                    fields: changed,
                    data_from: *data_from,
                    data_len: *data_len,
                },
                Value::Undef,
            ),
            None => Reply::Fault(concat2("unresolved reference: ", name)),
        },
        _ => Reply::Fault(concat2("unresolved reference: ", name)),
    }
}

// ── Declarations ────────────────────────────────────────────────────────────

/// The names that a comma-separated text lists; an empty text lists none.
pub open spec fn listed(csv: Seq<char>) -> Seq<Seq<char>> {
    if csv.len() == 0 {
        Seq::empty()
    } else {
        pieces(csv, ","@)
    }
}

/// Declare a type with its supertypes, nearest first.
pub fn declare_type(h: &mut Host, name: &str, csv: &str)
    ensures
        final(h)@ == (HostView {
            types: old(h)@.types.insert(name@, listed(csv@)),
            ..old(h)@
        }),
{
    let supers: Vec<String> = if csv.is_empty() {
        Vec::new()
    } else {
        split(&chars_of_str(csv), &chars_of_str(","))
    };
    assert(supers.deep_view() =~= texts_view(supers@));
    assert(supers.deep_view() =~= listed(csv@));
    h.types.insert(name, supers);
}

/// Which member a class overrides.
#[derive(Clone, Copy, Debug, PartialEq, Eq, Structural)]
pub enum Override {
    Text,
    Equality,
    Hash,
}

/// The state with the subroutine of a class's override declared.
pub open spec fn with_override(h: HostView, which: Override, class: Seq<char>, sub: u16) -> HostView {
    match which {
        Override::Text => HostView { tostring_subs: h.tostring_subs.insert(class, sub), ..h },
        Override::Equality => HostView { equals_subs: h.equals_subs.insert(class, sub), ..h },
        Override::Hash => HostView { hashcode_subs: h.hashcode_subs.insert(class, sub), ..h },
    }
}

/// Declare the subroutine of a class's override.
pub fn declare_override(h: &mut Host, which: Override, class: &str, sub: u16)
    ensures
        final(h)@ == with_override(old(h)@, which, class@, sub),
{
    match which {
        Override::Text => {
            h.tostring_subs.insert(class, sub);
        },
        Override::Equality => {
            h.equals_subs.insert(class, sub);
        },
        Override::Hash => {
            h.hashcode_subs.insert(class, sub);
        },
    }
}

/// Declare that a class is an `enum` constant's.
pub fn declare_enum(h: &mut Host, class: &str)
    ensures
        final(h)@ == (HostView { enums: old(h)@.enums.insert(class@, true), ..old(h)@ }),
{
    h.enums.insert(class, true);
}

// ── Laws ────────────────────────────────────────────────────────────────────

/// What a property write stores, a read of the property gives back, and the
/// number of properties does not change.
pub proof fn law_field_store_then_read(fields: Seq<(Seq<char>, Value)>, name: Seq<char>, v: Value)
    requires
        field_named(fields, name) is Some,
    ensures
        field_set(fields, name, v) is Some,
        field_named(field_set(fields, name, v)->0, name) == Some(v),
        field_set(fields, name, v)->0.len() == fields.len(),
    decreases fields.len(),
{
    if fields.len() > 0 && fields[0].0 != name {
        law_field_store_then_read(fields.skip(1), name, v);
        let rest = field_set(fields.skip(1), name, v)->0;
        assert((seq![fields[0]] + rest).skip(1) =~= rest);
    }
}

/// A property write leaves every other property as it was.
pub proof fn law_field_store_keeps_others(
    fields: Seq<(Seq<char>, Value)>,
    name: Seq<char>,
    v: Value,
    other: Seq<char>,
)
    requires
        field_set(fields, name, v) is Some,
        other != name,
    ensures
        field_named(field_set(fields, name, v)->0, other) == field_named(fields, other),
    decreases fields.len(),
{
    if fields[0].0 != name {
        law_field_store_keeps_others(fields.skip(1), name, v, other);
        let rest = field_set(fields.skip(1), name, v)->0;
        assert((seq![fields[0]] + rest).skip(1) =~= rest);
    } else {
        assert(fields.update(0, (name, v)).skip(1) =~= fields.skip(1));
    }
}

/// A subclass's instance keeps the fields of its superclass's instance, in
/// front, and its primary-constructor properties start behind them.
pub proof fn law_fields_are_inherited(h: HostView, base: Value, m: MetaView, vals: Seq<Value>)
    ensures
        ({
            let o = instance_of(h, base, m, vals);
            let n = fields_of(h, base).len() as int;
            o->fields.take(n) == fields_of(h, base) && o->data_from == n
        }),
{
    let n = fields_of(h, base).len() as int;
    assert((fields_of(h, base) + named_values(m.names, vals)).take(n) =~= fields_of(h, base));
}

} // verus!
