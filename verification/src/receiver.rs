//! What a receiver presents to the members that many kinds share: its elements,
//! its kind, and the wording of its faults.
use crate::display::kotlin_string;
use crate::host::{Host, ListImpl};
use crate::radix::int_text;
use crate::reply::{store_objs, Reply};
use crate::search::{has_prefix, has_suffix, join};
use crate::strings::{chars_of, int_arg, number_message, sioobe_index, size_text, truthy_arg};
use crate::text::{concat2, concat3, concat5, same};
use crate::types::obj_label;
use crate::utf16::units;
use crate::value::{
    char_of,
    copy_values,
    is_char,
    values_between,
    HeapObj,
    Value,
};
use vstd::prelude::*;

verus! {

use crate::display::text_of;
use crate::host::HostView;
use crate::radix::decimal;
use crate::reply::{objs_view, with_objs, ReplyView};
use crate::search::{ends_with, joined, starts_with, texts_view};
use crate::strings::{arg_flag, arg_int, char_values, index_message, with_number};
use crate::types::label_of;
use crate::utf16::{unit_len, units_of};
use crate::value::{char_value, code_of, ObjView};

// ── Kinds ───────────────────────────────────────────────────────────────────

/// Which kind of receiver a shared member was reached through. The members are
/// the same for every kind, but the wording of their faults is not.
#[derive(Clone, Copy, Debug, PartialEq, Eq, Structural)]
pub enum SeqKind {
    List,
    Array,
    /// An `IntRange`/`IntProgression`, which is an `Iterable` only.
    Range,
    /// A `Set`, or a `Map` as its entries: membership goes by hash first.
    Hashed,
    /// A `String`/`StringBuilder` read as its characters.
    Chars,
    /// A lazy `Sequence`.
    Lazy,
}

/// The kind a receiver presents to the shared members.
pub open spec fn kind_of(h: HostView, v: Value) -> SeqKind {
    if v is Str {
        SeqKind::Chars
    } else if h.is_sequence(v) {
        SeqKind::Lazy
    } else {
        match h.obj(v) {
            Some(ObjView::SetObj(_)) => SeqKind::Hashed,
            Some(ObjView::MapObj(_)) => SeqKind::Hashed,
            Some(ObjView::Array { .. }) => SeqKind::Array,
            Some(ObjView::Range(_)) => SeqKind::Range,
            Some(ObjView::Gen { .. }) => SeqKind::Lazy,
            Some(ObjView::Builder { .. }) => SeqKind::Chars,
            _ => SeqKind::List,
        }
    }
}

/// The kind a receiver presents to the shared members.
pub fn seq_kind_of(h: &Host, v: Value) -> (k: SeqKind)
    ensures
        k == kind_of(h@, v),
{
    if let Value::Str(_) = v {
        return SeqKind::Chars;
    }
    if h.is_sequence_view(v) {
        return SeqKind::Lazy;
    }
    match h.obj(v) {
        Some(HeapObj::SetObj(_)) => SeqKind::Hashed,
        Some(HeapObj::MapObj(_)) => SeqKind::Hashed,
        Some(HeapObj::Array { .. }) => SeqKind::Array,
        Some(HeapObj::Range(_)) => SeqKind::Range,
        Some(HeapObj::Gen { .. }) => SeqKind::Lazy,
        Some(HeapObj::Builder { .. }) => SeqKind::Chars,
        _ => SeqKind::List,
    }
}

impl SeqKind {
    /// Whether membership goes by hash first.
    pub open spec fn by_hash(self) -> bool {
        self == SeqKind::Hashed
    }

    /// Whether the receiver is a `java.util.Collection`.
    pub open spec fn collects(self) -> bool {
        self == SeqKind::List || self == SeqKind::Hashed || self == SeqKind::Array || self
            == SeqKind::Chars
    }

    /// What a fault calls the receiver.
    pub open spec fn subject(self) -> Seq<char> {
        match self {
            SeqKind::List => "List"@,
            SeqKind::Array => "Array"@,
            SeqKind::Hashed => "Collection"@,
            SeqKind::Range => "Collection"@,
            SeqKind::Chars => "Char sequence"@,
            SeqKind::Lazy => "Sequence"@,
        }
    }

    /// The fault of an empty receiver.
    pub open spec fn empty_message(self) -> Seq<char> {
        "java.util.NoSuchElementException: "@ + self.subject() + " is empty."@
    }

    /// What the fault of a predicate member calls the receiver: the type that
    /// declares the member.
    pub open spec fn predicate_subject_of(self, name: Seq<char>) -> Seq<char> {
        if self == SeqKind::List && starts_with(name, "last"@) {
            "List"@
        } else if self == SeqKind::List || self == SeqKind::Hashed || self == SeqKind::Range {
            "Collection"@
        } else {
            self.subject()
        }
    }

    /// The fault of a predicate that nothing matched.
    pub open spec fn no_match_message(self, name: Seq<char>) -> Seq<char> {
        "java.util.NoSuchElementException: "@ + self.predicate_subject_of(name) + " contains no "@ + (
        if self == SeqKind::Chars {
            "character"@
        } else {
            "element"@
        }) + " matching the predicate."@
    }

    /// The fault of a `single { … }` that more than one element matched.
    pub open spec fn many_match_message(self, name: Seq<char>) -> Seq<char> {
        "java.lang.IllegalArgumentException: "@ + self.predicate_subject_of(name)
            + " contains more than one matching element."@
    }

    /// The fault of reducing an empty receiver.
    pub open spec fn reduce_message(self, name: Seq<char>) -> Seq<char> {
        "java.lang.UnsupportedOperationException: Empty "@ + (if self == SeqKind::Array {
            "array"@
        } else if self == SeqKind::Chars {
            "char sequence"@
        } else if self == SeqKind::Lazy {
            "sequence"@
        } else if self == SeqKind::List && starts_with(name, "reduceRight"@) {
            "list"@
        } else {
            "collection"@
        }) + " can't be reduced."@
    }

    /// Whether membership goes by hash first.
    pub fn hashed(self) -> (r: bool)
        ensures
            r == self.by_hash(),
    {
        self == SeqKind::Hashed
    }

    /// Whether the receiver is a `java.util.Collection`.
    pub fn is_collection(self) -> (r: bool)
        ensures
            r == self.collects(),
    {
        self == SeqKind::List || self == SeqKind::Hashed || self == SeqKind::Array || self
            == SeqKind::Chars
    }

    /// What a fault calls the receiver.
    pub fn more_than_one(self) -> (s: &'static str)
        ensures
            s@ == self.subject(),
    {
        match self {
            SeqKind::List => "List",
            SeqKind::Array => "Array",
            SeqKind::Hashed => "Collection",
            SeqKind::Range => "Collection",
            SeqKind::Chars => "Char sequence",
            SeqKind::Lazy => "Sequence",
        }
    }

    /// The fault of an empty receiver.
    pub fn empty(self) -> (s: String)
        ensures
            s@ == self.empty_message(),
    {
        concat3("java.util.NoSuchElementException: ", self.more_than_one(), " is empty.")
    }

    /// What the fault of a predicate member calls the receiver.
    pub fn predicate_subject(self, name: &str) -> (s: &'static str)
        ensures
            s@ == self.predicate_subject_of(name@),
    {
        if self == SeqKind::List && has_prefix(name, "last") {
            "List"
        } else if self == SeqKind::List || self == SeqKind::Hashed || self == SeqKind::Range {
            "Collection"
        } else {
            self.more_than_one()
        }
    }

    /// The fault of a predicate that nothing matched.
    pub fn no_match(self, name: &str) -> (s: String)
        ensures
            s@ == self.no_match_message(name@),
    {
        let noun: &str = if self == SeqKind::Chars {
            "character"
        } else {
            "element"
        };
        concat5(
            "java.util.NoSuchElementException: ",
            self.predicate_subject(name),
            " contains no ",
            noun,
            " matching the predicate.",
        )
    }

    /// The fault of a `single { … }` that more than one element matched.
    pub fn many_match(self, name: &str) -> (s: String)
        ensures
            s@ == self.many_match_message(name@),
    {
        concat3(
            "java.lang.IllegalArgumentException: ",
            self.predicate_subject(name),
            " contains more than one matching element.",
        )
    }

    /// The fault of reducing an empty receiver.
    pub fn reduce_fault(self, name: &str) -> (s: String)
        ensures
            s@ == self.reduce_message(name@),
    {
        let noun: &str = if self == SeqKind::Array {
            "array"
        } else if self == SeqKind::Chars {
            "char sequence"
        } else if self == SeqKind::Lazy {
            "sequence"
        } else if self == SeqKind::List && has_prefix(name, "reduceRight") {
            "list"
        } else {
            "collection"
        };
        concat3(
            "java.lang.UnsupportedOperationException: Empty ",
            noun,
            " can't be reduced.",
        )
    }
}

// ── Faults ──────────────────────────────────────────────────────────────────

/// `Index {i} out of bounds for length {len}` behind the class of the fault.
pub open spec fn bounds_message(class: Seq<char>, i: int, len: int) -> Seq<char> {
    class + ": Index "@ + decimal(i) + " out of bounds for length "@ + decimal(len)
}

/// The fault of an index outside a `len`-element receiver of a kind: an array
/// raises its own exception, a list that of the class it stands for, and what
/// has no positions reports having run out.
pub open spec fn index_fault_message(kind: SeqKind, class: Option<ListImpl>, i: int, len: int) -> Seq<
    char,
> {
    match kind {
        SeqKind::Array => bounds_message("java.lang.ArrayIndexOutOfBoundsException"@, i, len),
        SeqKind::List => match class {
            Some(ListImpl::Builder) => "java.lang.IndexOutOfBoundsException: index: "@ + decimal(i)
                + ", size: "@ + decimal(len),
            None => bounds_message("java.lang.IndexOutOfBoundsException"@, i, len),
            Some(t) => if len == 0 {
                with_number(
                    "java.lang.IndexOutOfBoundsException: Empty list doesn't contain element at index "@,
                    i,
                    "."@,
                )
            } else if len == 1 {
                with_number("java.lang.IndexOutOfBoundsException: Index: "@, i, ", Size: 1"@)
            } else if t == ListImpl::ReadOnly {
                bounds_message("java.lang.IndexOutOfBoundsException"@, i, len)
            } else {
                bounds_message("java.lang.ArrayIndexOutOfBoundsException"@, i, len)
            },
        },
        SeqKind::Hashed => with_number(
            "java.lang.IndexOutOfBoundsException: Collection doesn't contain element at index "@,
            i,
            "."@,
        ),
        SeqKind::Range => with_number(
            "java.lang.IndexOutOfBoundsException: Collection doesn't contain element at index "@,
            i,
            "."@,
        ),
        SeqKind::Lazy => with_number(
            "java.lang.IndexOutOfBoundsException: Sequence doesn't contain element at index "@,
            i,
            "."@,
        ),
        SeqKind::Chars => index_message(i, len),
    }
}

/// `Index {i} out of bounds for length {len}` behind the class of the fault.
pub fn bounds_fault(class: &str, i: i64, len: usize) -> (s: String)
    ensures
        s@ == bounds_message(class@, i as int, len as int),
{
    concat5(
        class,
        ": Index ",
        int_text(i).as_str(),
        " out of bounds for length ",
        size_text(len).as_str(),
    )
}

/// The fault of an index outside a `len`-element receiver; `class` is what a
/// list stands for.
pub fn index_fault(kind: SeqKind, class: Option<ListImpl>, i: i64, len: usize) -> (s: String)
    ensures
        s@ == index_fault_message(kind, class, i as int, len as int),
{
    match kind {
        SeqKind::Array => bounds_fault("java.lang.ArrayIndexOutOfBoundsException", i, len),
        SeqKind::List => match class {
            Some(ListImpl::Builder) => {
                let head: String = concat2(
                    "java.lang.IndexOutOfBoundsException: index: ",
                    int_text(i).as_str(),
                );
                concat3(head.as_str(), ", size: ", size_text(len).as_str())
            },
            None => bounds_fault("java.lang.IndexOutOfBoundsException", i, len),
            Some(t) => if len == 0 {
                number_message(
                    "java.lang.IndexOutOfBoundsException: Empty list doesn't contain element at index ",
                    i,
                    ".",
                )
            } else if len == 1 {
                number_message("java.lang.IndexOutOfBoundsException: Index: ", i, ", Size: 1")
            } else if t == ListImpl::ReadOnly {
                bounds_fault("java.lang.IndexOutOfBoundsException", i, len)
            } else {
                bounds_fault("java.lang.ArrayIndexOutOfBoundsException", i, len)
            },
        },
        SeqKind::Hashed => number_message(
            "java.lang.IndexOutOfBoundsException: Collection doesn't contain element at index ",
            i,
            ".",
        ),
        SeqKind::Range => number_message(
            "java.lang.IndexOutOfBoundsException: Collection doesn't contain element at index ",
            i,
            ".",
        ),
        SeqKind::Lazy => number_message(
            "java.lang.IndexOutOfBoundsException: Sequence doesn't contain element at index ",
            i,
            ".",
        ),
        SeqKind::Chars => sioobe_index(i, len),
    }
}

/// The fault of a member that the receiver does not have.
pub open spec fn unresolved(name: Seq<char>, label: Seq<char>) -> Seq<char> {
    "unresolved reference: "@ + name + " on "@ + label
}

/// The fault of a member that the object `recv` does not have.
pub fn unresolved_on(h: &Host, name: &str, recv: Value) -> (s: String)
    ensures
        s@ == unresolved(name@, label_of(h@, recv)),
{
    unresolved_text(name, obj_label(h, recv).as_str())
}

/// The fault of a member that a receiver does not have.
pub fn unresolved_text(name: &str, label: &str) -> (s: String)
    ensures
        s@ == unresolved(name@, label@),
{
    let head: String = concat3("unresolved reference: ", name, " on ");
    concat2(head.as_str(), label)
}

/// What a selector-driven extremum answers: nothing found is null for the
/// `…OrNull` names and a bare fault for the others.
pub open spec fn extremum_reply(best: Option<Value>, name: Seq<char>) -> ReplyView {
    match best {
        Some(v) => ReplyView::Value(v),
        None => if ends_with(name, "OrNull"@) {
            ReplyView::Value(Value::Undef)
        } else {
            ReplyView::Fault("java.util.NoSuchElementException"@)
        },
    }
}

/// What a selector-driven extremum answers.
pub fn extremum_or(best: Option<Value>, name: &str) -> (r: Reply)
    ensures
        r@ == extremum_reply(best, name@),
{
    match best {
        Some(v) => Reply::Value(v),
        None => if has_suffix(name, "OrNull") {
            Reply::Value(Value::Undef)
        } else {
            Reply::Fault("java.util.NoSuchElementException".to_owned())
        },
    }
}

/// The selector-driven extremes of nothing raise, and their `…OrNull` forms answer
/// null; otherwise they answer the same.
pub proof fn law_or_null_extremes(best: Option<Value>)
    ensures
        extremum_reply(best, "maxByOrNull"@) == extremum_reply(best, "maxBy"@).or_null(),
        extremum_reply(best, "minByOrNull"@) == extremum_reply(best, "minBy"@).or_null(),
        extremum_reply(best, "maxOfOrNull"@) == extremum_reply(best, "maxOf"@).or_null(),
        extremum_reply(best, "minOfOrNull"@) == extremum_reply(best, "minOf"@).or_null(),
        best is None ==> extremum_reply(best, "maxBy"@) is Fault,
{
    reveal_strlit("maxBy");
    reveal_strlit("minBy");
    reveal_strlit("maxOf");
    reveal_strlit("minOf");
    reveal_strlit("maxByOrNull");
    reveal_strlit("minByOrNull");
    reveal_strlit("maxOfOrNull");
    reveal_strlit("minOfOrNull");
    reveal_strlit("OrNull");
    assert("maxBy"@.len() == 5);
    assert("minBy"@.len() == 5);
    assert("maxOf"@.len() == 5);
    assert("minOf"@.len() == 5);
    assert("maxByOrNull"@.len() == 11);
    assert("minByOrNull"@.len() == 11);
    assert("maxOfOrNull"@.len() == 11);
    assert("minOfOrNull"@.len() == 11);
    assert("OrNull"@.len() == 6);
    assert("maxByOrNull"@.subrange(5, 11) =~= "OrNull"@);
    assert("minByOrNull"@.subrange(5, 11) =~= "OrNull"@);
    assert("maxOfOrNull"@.subrange(5, 11) =~= "OrNull"@);
    assert("minOfOrNull"@.subrange(5, 11) =~= "OrNull"@);
}

// ── Elements ────────────────────────────────────────────────────────────────

/// The elements of a Kotlin `Iterable`: a list, a set, an array or a range. A
/// text is none.
pub open spec fn iterable_items(h: HostView, v: Value) -> Option<Seq<Value>> {
    match h.obj(v) {
        Some(ObjView::List(items)) => Some(items),
        Some(ObjView::SetObj(items)) => Some(items),
        Some(ObjView::Array { items, .. }) => Some(items),
        Some(ObjView::Range(r)) => Some(r.elements()),
        _ => None,
    }
}

/// The elements of an iterable or the characters of a text; nothing for
/// anything else.
pub open spec fn items_of(h: HostView, v: Value) -> Seq<Value> {
    match v {
        Value::Str(id) => char_values(h.text(id)),
        _ => match iterable_items(h, v) {
            Some(items) => items,
            None => Seq::empty(),
        },
    }
}

/// The couple of a `Pair` or a `Map.Entry`.
pub open spec fn couple_of(h: HostView, v: Value) -> Option<(Value, Value)> {
    match h.obj(v) {
        Some(ObjView::Pair(a, b)) => Some((a, b)),
        Some(ObjView::Entry(a, b)) => Some((a, b)),
        _ => None,
    }
}

/// The couples of all items; `None` when an item is none.
pub open spec fn all_couples(h: HostView, items: Seq<Value>) -> Option<Seq<(Value, Value)>>
    decreases items.len(),
{
    if items.len() == 0 {
        Some(Seq::empty())
    } else {
        match (all_couples(h, items.drop_last()), couple_of(h, items.last())) {
            (Some(s), Some(c)) => Some(s.push(c)),
            _ => None,
        }
    }
}

/// The key/value couples of a `Map`, a `Pair`, a `Map.Entry` or an iterable of
/// such couples.
pub open spec fn couples(h: HostView, v: Value) -> Option<Seq<(Value, Value)>> {
    match h.obj(v) {
        Some(ObjView::MapObj(es)) => Some(es),
        Some(ObjView::Pair(a, b)) => Some(seq![(a, b)]),
        Some(ObjView::Entry(a, b)) => Some(seq![(a, b)]),
        _ => match iterable_items(h, v) {
            Some(items) => all_couples(h, items),
            None => None,
        },
    }
}

/// The elements of a Kotlin `Iterable`.
pub fn as_iterable(h: &Host, v: Value) -> (r: Option<Vec<Value>>)
    ensures
        match r {
            Some(items) => iterable_items(h@, v) == Some(items@),
            None => iterable_items(h@, v) is None,
        },
{
    match h.obj(v) {
        Some(HeapObj::List(items)) => Some(copy_values(items)),
        Some(HeapObj::SetObj(items)) => Some(copy_values(items)),
        Some(HeapObj::Array { items, .. }) => Some(copy_values(items)),
        Some(HeapObj::Range(r)) => Some(r.to_vec()),
        _ => None,
    }
}

/// The elements of an iterable or the characters of a text.
pub fn sequence_items(h: &Host, v: Value) -> (r: Vec<Value>)
    ensures
        r@ == items_of(h@, v),
{
    if let Value::Str(id) = v {
        return chars_of(h.text(id));
    }
    match as_iterable(h, v) {
        Some(items) => items,
        None => Vec::new(),
    }
}

/// The couple of a `Pair` or a `Map.Entry`.
pub fn couple(h: &Host, v: Value) -> (r: Option<(Value, Value)>)
    ensures
        r == couple_of(h@, v),
{
    match h.obj(v) {
        Some(HeapObj::Pair(a, b)) => Some((*a, *b)),
        Some(HeapObj::Entry(a, b)) => Some((*a, *b)),
        _ => None,
    }
}

proof fn lemma_couples_prefix(h: HostView, items: Seq<Value>, k: int)
    requires
        0 <= k <= items.len(),
        all_couples(h, items.take(k)) is None,
    ensures
        all_couples(h, items) is None,
    decreases items.len() - k,
{
    if k < items.len() {
        assert(items.take(k + 1).drop_last() =~= items.take(k));
        lemma_couples_prefix(h, items, k + 1);
    } else {
        assert(items.take(k) =~= items);
    }
}

fn couples_of_all(h: &Host, items: &Vec<Value>) -> (r: Option<Vec<(Value, Value)>>)
    ensures
        match r {
            Some(es) => all_couples(h@, items@) == Some(es@),
            None => all_couples(h@, items@) is None,
        },
{
    let mut out: Vec<(Value, Value)> = Vec::new();
    let mut i: usize = 0;
    assert(items@.take(0) =~= Seq::empty());
    while i < items.len()
        invariant
            i <= items@.len(),
            all_couples(h@, items@.take(i as int)) == Some(out@),
        decreases items.len() - i,
    {
        assert(items@.take(i + 1).drop_last() =~= items@.take(i as int));
        assert(items@.take(i + 1).last() == items@[i as int]);
        match couple(h, items[i]) {
            Some(c) => {
                out.push(c);
            },
            None => {
                proof {
                    lemma_couples_prefix(h@, items@, i + 1);
                }
                return None;
            },
        }
        i = i + 1;
    }
    assert(items@.take(i as int) =~= items@);
    Some(out)
}

/// A copy of entries.
pub(crate) fn copy_entries(es: &Vec<(Value, Value)>) -> (r: Vec<(Value, Value)>)
    ensures
        r@ == es@,
{
    let mut r: Vec<(Value, Value)> = Vec::new();
    let mut i: usize = 0;
    while i < es.len()
        invariant
            i <= es@.len(),
            r@ == es@.take(i as int),
        decreases es.len() - i,
    {
        r.push(es[i]);
        i = i + 1;
        assert(es@.take(i as int) =~= es@.take(i - 1).push(es@[i - 1]));
    }
    assert(es@.take(i as int) =~= es@);
    r
}

/// The key/value couples of a `Map`, a `Pair`, a `Map.Entry` or an iterable of
/// such couples.
pub fn as_couples(h: &Host, v: Value) -> (r: Option<Vec<(Value, Value)>>)
    ensures
        match r {
            Some(es) => couples(h@, v) == Some(es@),
            None => couples(h@, v) is None,
        },
{
    match h.obj(v) {
        Some(HeapObj::MapObj(es)) => {
            return Some(copy_entries(es));
        },
        Some(HeapObj::Pair(a, b)) => {
            let r: Vec<(Value, Value)> = vec![(*a, *b)];
            assert(r@ =~= seq![(*a, *b)]);
            return Some(r);
        },
        Some(HeapObj::Entry(a, b)) => {
            let r: Vec<(Value, Value)> = vec![(*a, *b)];
            assert(r@ =~= seq![(*a, *b)]);
            return Some(r);
        },
        _ => {},
    }
    match as_iterable(h, v) {
        Some(items) => couples_of_all(h, &items),
        None => None,
    }
}

/// Entries as objects.
pub open spec fn entry_objs(es: Seq<(Value, Value)>) -> Seq<ObjView> {
    es.map_values(|e: (Value, Value)| ObjView::Entry(e.0, e.1))
}

/// Entries as pair objects.
pub open spec fn pair_objs(es: Seq<(Value, Value)>) -> Seq<ObjView> {
    es.map_values(|e: (Value, Value)| ObjView::Pair(e.0, e.1))
}

/// Entries as objects: `Map.Entry`s, or pairs.
pub(crate) fn couple_objs(es: &Vec<(Value, Value)>, as_pairs: bool) -> (r: Vec<HeapObj>)
    ensures
        objs_view(r@) == (if as_pairs {
            pair_objs(es@)
        } else {
            entry_objs(es@)
        }),
{
    let mut r: Vec<HeapObj> = Vec::new();
    let ghost want = if as_pairs {
        pair_objs(es@)
    } else {
        entry_objs(es@)
    };
    let mut i: usize = 0;
    while i < es.len()
        invariant
            i <= es@.len(),
            want == (if as_pairs {
                pair_objs(es@)
            } else {
                entry_objs(es@)
            }),
            r@.len() == i,
            forall|k: int| 0 <= k < i ==> (#[trigger] r@[k])@ == want[k],
        decreases es.len() - i,
    {
        if as_pairs {
            r.push(HeapObj::Pair(es[i].0, es[i].1));
        } else {
            r.push(HeapObj::Entry(es[i].0, es[i].1));
        }
        i = i + 1;
    }
    assert(objs_view(r@) =~= want);
    r
}

/// The state and the elements that a walk over `v` sees: a `Map` iterates as new
/// `Map.Entry` objects. `None` when `v` is no iterable.
pub open spec fn snapshot(h: HostView, v: Value) -> (HostView, Option<Seq<Value>>) {
    match h.obj(v) {
        Some(ObjView::MapObj(es)) => {
            let (g, vs) = with_objs(h, entry_objs(es));
            (g, Some(vs))
        },
        _ => (h, iterable_items(h, v)),
    }
}

/// Snapshot an iterable receiver's elements.
pub fn list_snapshot(h: &mut Host, v: Value) -> (r: Option<Vec<Value>>)
    ensures
        final(h)@ == snapshot(old(h)@, v).0,
        match r {
            Some(items) => snapshot(old(h)@, v).1 == Some(items@),
            None => snapshot(old(h)@, v).1 is None,
        },
{
    let entries: Option<Vec<HeapObj>> = match h.obj(v) {
        Some(HeapObj::MapObj(es)) => Some(couple_objs(es, false)),
        _ => None,
    };
    match entries {
        Some(os) => Some(store_objs(h, os)),
        None => as_iterable(h, v),
    }
}

// ── Iteration ───────────────────────────────────────────────────────────────

/// How many elements a `for` loop over `v` sees; `None` when it cannot be
/// iterated.
pub open spec fn loop_len(h: HostView, v: Value) -> Option<int> {
    match v {
        Value::Str(id) => Some(unit_len(h.text(id))),
        _ => match h.obj(v) {
            Some(ObjView::List(items)) => Some(items.len() as int),
            Some(ObjView::SetObj(items)) => Some(items.len() as int),
            Some(ObjView::Array { items, .. }) => Some(items.len() as int),
            Some(ObjView::Range(r)) => Some(r.counted()),
            Some(ObjView::MapObj(es)) => Some(es.len() as int),
            Some(ObjView::Builder { units, .. }) => Some(units.len() as int),
            _ => None,
        },
    }
}

/// Element `i` of a sequence, or null.
pub open spec fn value_or_null(items: Seq<Value>, i: int) -> Value {
    if 0 <= i < items.len() {
        items[i]
    } else {
        Value::Undef
    }
}

/// Code unit `i` as a `Char`, or null.
pub open spec fn unit_or_null(u: Seq<u16>, i: int) -> Value {
    if 0 <= i < u.len() {
        char_value(u[i] as int)
    } else {
        Value::Undef
    }
}

/// Element `i` of an iterable; null outside it.
pub open spec fn loop_element(h: HostView, v: Value, i: int) -> ReplyView {
    match v {
        Value::Str(id) => ReplyView::Value(unit_or_null(units_of(h.text(id)), i)),
        _ => match h.obj(v) {
            Some(ObjView::MapObj(es)) => if 0 <= i < es.len() {
                ReplyView::Object(ObjView::Entry(es[i].0, es[i].1))
            } else {
                ReplyView::Value(Value::Undef)
            },
            Some(ObjView::List(items)) => ReplyView::Value(value_or_null(items, i)),
            Some(ObjView::SetObj(items)) => ReplyView::Value(value_or_null(items, i)),
            Some(ObjView::Array { items, .. }) => ReplyView::Value(value_or_null(items, i)),
            Some(ObjView::Range(r)) => ReplyView::Value(value_or_null(r.elements(), i)),
            Some(ObjView::Builder { units, .. }) => ReplyView::Value(unit_or_null(units, i)),
            _ => ReplyView::Value(Value::Undef),
        },
    }
}

/// Element count of an iterable, or `None` when the value cannot be iterated.
pub fn iter_len(h: &Host, v: Value) -> (r: Option<i64>)
    ensures
        r == (match loop_len(h@, v) {
            Some(n) => Some(n as i64),
            None => None,
        }),
{
    if let Value::Str(id) = v {
        return Some(units(h.text(id)).len() as i64);
    }
    match h.obj(v) {
        Some(HeapObj::List(items)) => Some(items.len() as i64),
        Some(HeapObj::SetObj(items)) => Some(items.len() as i64),
        Some(HeapObj::Array { items, .. }) => Some(items.len() as i64),
        Some(HeapObj::Range(r)) => Some(r.count()),
        Some(HeapObj::MapObj(es)) => Some(es.len() as i64),
        Some(HeapObj::Builder { units, .. }) => Some(units.len() as i64),
        _ => None,
    }
}

/// Element `i` of `items`, or null.
pub(crate) fn value_at(items: &Vec<Value>, i: i64) -> (v: Value)
    ensures
        v == value_or_null(items@, i as int),
{
    if 0 <= i && (i as u128) < items.len() as u128 {
        items[i as usize]
    } else {
        Value::Undef
    }
}

fn unit_at(u: &Vec<u16>, i: i64) -> (v: Value)
    ensures
        v == unit_or_null(u@, i as int),
{
    if 0 <= i && (i as u128) < u.len() as u128 {
        char_of(u[i as usize] as i64)
    } else {
        Value::Undef
    }
}

/// Element `i` of an iterable; null outside it.
pub fn iter_at(h: &Host, v: Value, i: i64) -> (r: Reply)
    ensures
        r@ == loop_element(h@, v, i as int),
{
    if let Value::Str(id) = v {
        return Reply::Value(unit_at(&units(h.text(id)), i));
    }
    match h.obj(v) {
        Some(HeapObj::MapObj(es)) => if 0 <= i && (i as u128) < es.len() as u128 {
            Reply::Object(HeapObj::Entry(es[i as usize].0, es[i as usize].1))
        } else {
            Reply::Value(Value::Undef)
        },
        Some(HeapObj::List(items)) => Reply::Value(value_at(items, i)),
        Some(HeapObj::SetObj(items)) => Reply::Value(value_at(items, i)),
        Some(HeapObj::Array { items, .. }) => Reply::Value(value_at(items, i)),
        Some(HeapObj::Range(r)) => if 0 <= i && i < r.count() {
            Reply::Value(r.value_at(i))
        } else {
            Reply::Value(Value::Undef)
        },
        Some(HeapObj::Builder { units, .. }) => Reply::Value(unit_at(units, i)),
        _ => Reply::Value(Value::Undef),
    }
}

// ── Array descriptors ───────────────────────────────────────────────────────

/// The boxed class of a value, as far as an array literal looks at it.
pub open spec fn boxed_name(v: Value) -> Seq<char> {
    match v {
        Value::Int(_) => "java.lang.Integer"@,
        Value::Float(_) => "java.lang.Double"@,
        Value::Str(_) => "java.lang.String"@,
        Value::Bool(_) => "java.lang.Boolean"@,
        _ => if code_of(v) is Some {
            "java.lang.Character"@
        } else {
            "java.lang.Object"@
        },
    }
}

/// The JVM type descriptor of `arrayOf(items…)`: that of the elements' common
/// class, `Object` for a mixed or an empty literal.
pub open spec fn array_descriptor(items: Seq<Value>) -> Seq<char> {
    if items.len() > 0 && forall|i: int|
        0 <= i < items.len() ==> boxed_name(#[trigger] items[i]) == boxed_name(items[0]) {
        "[L"@ + boxed_name(items[0]) + ";"@
    } else {
        "[Ljava.lang.Object;"@
    }
}

fn boxed(v: Value) -> (s: &'static str)
    ensures
        s@ == boxed_name(v),
{
    match v {
        Value::Int(_) => "java.lang.Integer",
        Value::Float(_) => "java.lang.Double",
        Value::Str(_) => "java.lang.String",
        Value::Bool(_) => "java.lang.Boolean",
        _ => if is_char(&v) {
            "java.lang.Character"
        } else {
            "java.lang.Object"
        },
    }
}

/// The JVM type descriptor of `arrayOf(items…)`.
pub fn array_desc(items: &Vec<Value>) -> (s: String)
    ensures
        s@ == array_descriptor(items@),
{
    if items.len() == 0 {
        return "[Ljava.lang.Object;".to_owned();
    }
    let elem: &str = boxed(items[0]);
    let mut i: usize = 0;
    while i < items.len()
        invariant
            i <= items@.len(),
            items@.len() > 0,
            elem@ == boxed_name(items@[0]),
            forall|k: int| 0 <= k < i ==> boxed_name(#[trigger] items@[k]) == boxed_name(items@[0]),
        decreases items.len() - i,
    {
        if !same(boxed(items[i]), elem) {
            return "[Ljava.lang.Object;".to_owned();
        }
        i = i + 1;
    }
    concat3("[L", elem, ";")
}

// ── Windows ─────────────────────────────────────────────────────────────────

/// The groups of `size` elements from position `at` on, advancing by `step`. A
/// shorter last group is kept when `partial`.
pub open spec fn windows(items: Seq<Value>, at: int, size: int, step: int, partial: bool) -> Seq<
    Seq<Value>,
>
    decreases
        (if at < items.len() {
            items.len() - at
        } else {
            0
        }),
{
    if at < 0 || at >= items.len() || step <= 0 || size <= 0 {
        Seq::empty()
    } else if at + size <= items.len() {
        seq![items.subrange(at, at + size)] + windows(items, at + step, size, step, partial)
    } else if partial {
        seq![items.subrange(at, items.len() as int)] + windows(
            items,
            at + step,
            size,
            step,
            partial,
        )
    } else {
        Seq::empty()
    }
}

/// The fault of a size or a step that is not positive.
pub open spec fn window_fault(size: int, step: int) -> Option<Seq<char>> {
    if size > 0 && step > 0 {
        None
    } else if size == step {
        Some(
            with_number(
                "java.lang.IllegalArgumentException: size "@,
                size,
                " must be greater than zero."@,
            ),
        )
    } else {
        Some(
            "java.lang.IllegalArgumentException: Both size "@ + decimal(size) + " and step "@
                + decimal(step) + " must be greater than zero."@,
        )
    }
}

/// The groups that `chunked` (equal steps, a shorter last group) or `windowed`
/// asks for, or the fault of its bounds.
pub open spec fn grouped(h: HostView, items: Seq<Value>, name: Seq<char>, args: Seq<Value>) -> Result<
    Seq<Seq<Value>>,
    Seq<char>,
> {
    let size = arg_int(h, args, 0, 0);
    let step = if name == "chunked"@ {
        size
    } else {
        arg_int(h, args, 1, 1)
    };
    match window_fault(size, step) {
        Some(m) => Err(m),
        None => Ok(windows(items, 0, size, step, name == "chunked"@ || arg_flag(args, 2))),
    }
}

/// Groups as mathematical values.
pub open spec fn lists_view(v: Seq<Vec<Value>>) -> Seq<Seq<Value>> {
    v.map_values(|g: Vec<Value>| g@)
}

/// Kotlin's `checkWindowSizeStep`: the bounds check of every `chunked` and
/// `windowed`.
pub fn check_window_size_step(size: i64, step: i64) -> (r: Result<(), String>)
    ensures
        match r {
            Ok(()) => window_fault(size as int, step as int) is None,
            Err(m) => window_fault(size as int, step as int) == Some(m@),
        },
{
    if size > 0 && step > 0 {
        return Ok(());
    }
    if size == step {
        Err(
            number_message(
                "java.lang.IllegalArgumentException: size ",
                size,
                " must be greater than zero.",
            ),
        )
    } else {
        let head: String = concat2(
            "java.lang.IllegalArgumentException: Both size ",
            int_text(size).as_str(),
        );
        let mid: String = concat3(head.as_str(), " and step ", int_text(step).as_str());
        Err(concat2(mid.as_str(), " must be greater than zero."))
    }
}

proof fn lemma_windows_step(items: Seq<Value>, at: int, size: int, step: int, partial: bool)
    requires
        at >= items.len() || (at + size > items.len() && !partial),
        0 <= at,
        0 < step,
        0 < size,
    ensures
        windows(items, at, size, step, partial).len() == 0,
{
}

/// The `windowed`/`chunked` walk: groups of `size`, advancing by `step`.
pub fn windows_of(items: &Vec<Value>, size: i64, step: i64, partial: bool) -> (r: Vec<Vec<Value>>)
    requires
        size > 0,
        step > 0,
    ensures
        lists_view(r@) == windows(items@, 0, size as int, step as int, partial),
{
    let n: usize = items.len();
    let mut out: Vec<Vec<Value>> = Vec::new();
    let mut at: usize = 0;
    let ghost goal = windows(items@, 0, size as int, step as int, partial);
    assert(lists_view(out@) + goal =~= goal);
    while at < n
        invariant
            n == items@.len(),
            size > 0,
            step > 0,
            at <= n,
            goal == windows(items@, 0, size as int, step as int, partial),
            goal == lists_view(out@) + windows(
                items@,
                at as int,
                size as int,
                step as int,
                partial,
            ),
        decreases n - at,
    {
        let left: usize = n - at;
        let ghost before = lists_view(out@);
        if size as u128 > left as u128 {
            if !partial {
                proof {
                    lemma_windows_step(items@, at as int, size as int, step as int, partial);
                    assert(before + Seq::<Seq<Value>>::empty() =~= before);
                    assert(windows(items@, at as int, size as int, step as int, partial) =~= Seq::<
                        Seq<Value>,
                    >::empty());
                }
                return out;
            }
            out.push(values_between(items, at, n));
        } else {
            out.push(values_between(items, at, at + size as usize));
        }
        let ghost last = lists_view(out@).last();
        assert(lists_view(out@) =~= before + seq![last]);
        let ghost rest = windows(items@, at + step, size as int, step as int, partial);
        assert(goal =~= lists_view(out@) + rest);
        if step as u128 >= left as u128 {
            proof {
                lemma_windows_step(items@, at + step, size as int, step as int, partial);
                assert(rest =~= windows(items@, n as int, size as int, step as int, partial));
            }
            at = n;
        } else {
            at = at + step as usize;
        }
    }
    assert(windows(items@, at as int, size as int, step as int, partial) =~= Seq::<
        Seq<Value>,
    >::empty());
    assert(goal =~= lists_view(out@));
    out
}

/// The groups that `chunked` or `windowed` asks for, or the fault of its
/// bounds.
pub fn groups_of(h: &Host, items: &Vec<Value>, name: &str, args: &Vec<Value>) -> (r: Result<
    Vec<Vec<Value>>,
    String,
>)
    ensures
        match r {
            Ok(gs) => grouped(h@, items@, name@, args@) == Ok::<Seq<Seq<Value>>, Seq<char>>(
                lists_view(gs@),
            ),
            Err(m) => grouped(h@, items@, name@, args@) == Err::<Seq<Seq<Value>>, Seq<char>>(m@),
        },
{
    let size: i64 = int_arg(h, args, 0, 0);
    let chunking: bool = same(name, "chunked");
    let step: i64 = if chunking {
        size
    } else {
        int_arg(h, args, 1, 1)
    };
    match check_window_size_step(size, step) {
        Err(m) => Err(m),
        Ok(()) => Ok(windows_of(items, size, step, chunking || truthy_arg(args, 2))),
    }
}

/// Concatenation of groups.
pub open spec fn concatenated(groups: Seq<Seq<Value>>) -> Seq<Value>
    decreases groups.len(),
{
    if groups.len() == 0 {
        Seq::empty()
    } else {
        groups[0] + concatenated(groups.skip(1))
    }
}

/// `chunked(size)` loses nothing: its groups, one after another, are the
/// elements in their order.
pub proof fn law_chunks_concatenate(items: Seq<Value>, at: int, size: int)
    requires
        0 <= at <= items.len(),
        size > 0,
    ensures
        concatenated(windows(items, at, size, size, true)) == items.skip(at),
    decreases items.len() - at,
{
    let ws = windows(items, at, size, size, true);
    if at < items.len() {
        let rest = windows(items, at + size, size, size, true);
        if at + size <= items.len() {
            assert(ws =~= seq![items.subrange(at, at + size)] + rest);
            assert(ws.skip(1) =~= rest);
            law_chunks_concatenate(items, at + size, size);
            assert(items.subrange(at, at + size) + items.skip(at + size) =~= items.skip(at));
        } else {
            assert(rest =~= Seq::<Seq<Value>>::empty());
            assert(ws =~= seq![items.subrange(at, items.len() as int)]);
            assert(ws.skip(1) =~= Seq::<Seq<Value>>::empty());
            assert(concatenated(ws.skip(1)) =~= Seq::<Value>::empty());
            assert(items.subrange(at, items.len() as int) + Seq::<Value>::empty() =~= items.skip(
                at,
            ));
        }
    } else {
        assert(items.skip(at) =~= Seq::<Value>::empty());
    }
}

/// Without partial groups every window has exactly the size asked for.
pub proof fn law_full_windows(items: Seq<Value>, at: int, size: int, step: int, k: int)
    requires
        0 <= at,
        size > 0,
        step > 0,
        0 <= k < windows(items, at, size, step, false).len(),
    ensures
        windows(items, at, size, step, false)[k].len() == size,
    decreases
        (if at < items.len() {
            items.len() - at
        } else {
            0
        }),
{
    if at + size <= items.len() && k > 0 {
        law_full_windows(items, at + step, size, step, k - 1);
    }
}

// ── Joining ─────────────────────────────────────────────────────────────────

/// The texts of values.
pub open spec fn value_texts(h: HostView, items: Seq<Value>) -> Seq<Seq<char>> {
    items.map_values(|v: Value| text_of(h, v))
}

/// The texts of values, one behind another.
pub open spec fn run_together(h: HostView, items: Seq<Value>) -> Seq<char> {
    joined(value_texts(h, items), Seq::empty())
}

/// Text argument `i`, or `default` when it was not given or is null.
pub open spec fn text_or(h: HostView, args: Seq<Value>, i: int, default: Seq<char>) -> Seq<char> {
    if 0 <= i < args.len() && args[i] != Value::Undef {
        text_of(h, args[i])
    } else {
        default
    }
}

/// How many of `n` elements `joinToString` renders: all, or as many as its limit
/// allows.
pub open spec fn shown_count(h: HostView, args: Seq<Value>, n: int) -> int {
    let limit = arg_int(h, args, 3, -1);
    if 0 <= limit < n {
        limit
    } else {
        n
    }
}

/// `joinToString(separator, prefix, postfix, limit, truncated)` over `n`
/// elements of which the first ones render as `bodies`.
pub open spec fn join_text(h: HostView, bodies: Seq<Seq<char>>, n: int, args: Seq<Value>) -> Seq<
    char,
> {
    let shown = shown_count(h, args, n);
    let parts = if shown < n {
        bodies.take(shown).push(text_or(h, args, 4, "..."@))
    } else {
        bodies.take(shown)
    };
    text_or(h, args, 1, ""@) + joined(parts, text_or(h, args, 0, ", "@)) + text_or(h, args, 2, ""@)
}

fn text_argument(h: &Host, args: &Vec<Value>, i: usize, default: &str) -> (s: String)
    ensures
        s@ == text_or(h@, args@, i as int, default@),
{
    if i < args.len() {
        match args[i] {
            Value::Undef => default.to_owned(),
            v => kotlin_string(h, v),
        }
    } else {
        default.to_owned()
    }
}

/// How many of `n` elements `joinToString` renders.
pub fn join_count(h: &Host, args: &Vec<Value>, n: usize) -> (k: usize)
    ensures
        k == shown_count(h@, args@, n as int),
        k <= n,
{
    let limit: i64 = int_arg(h, args, 3, -1);
    if 0 <= limit && (limit as u128) < n as u128 {
        limit as usize
    } else {
        n
    }
}

/// The texts of values.
pub(crate) fn texts_of_values(h: &Host, items: &Vec<Value>) -> (r: Vec<String>)
    ensures
        texts_view(r@) == value_texts(h@, items@),
{
    let mut r: Vec<String> = Vec::new();
    let ghost want = value_texts(h@, items@);
    let mut i: usize = 0;
    while i < items.len()
        invariant
            i <= items@.len(),
            want == value_texts(h@, items@),
            r@.len() == i,
            forall|k: int| 0 <= k < i ==> (#[trigger] r@[k])@ == want[k],
        decreases items.len() - i,
    {
        r.push(kotlin_string(h, items[i]));
        i = i + 1;
    }
    assert(texts_view(r@) =~= want);
    r
}

/// The texts of values, one behind another.
pub(crate) fn concat_values(h: &Host, items: &Vec<Value>) -> (s: String)
    ensures
        s@ == run_together(h@, items@),
{
    proof {
        reveal_strlit("");
    }
    assert(""@ =~= Seq::<char>::empty());
    join(&texts_of_values(h, items), "")
}

/// `joinToString(separator, prefix, postfix, limit, truncated)` over `n`
/// elements whose first ones render as `bodies`.
pub fn join_to_string(h: &Host, bodies: &Vec<String>, n: usize, args: &Vec<Value>) -> (s: String)
    requires
        bodies@.len() >= shown_count(h@, args@, n as int),
    ensures
        s@ == join_text(h@, texts_view(bodies@), n as int, args@),
{
    let shown: usize = join_count(h, args, n);
    let mut parts: Vec<String> = Vec::new();
    let ghost all = texts_view(bodies@);
    let mut i: usize = 0;
    while i < shown
        invariant
            i <= shown <= bodies@.len(),
            all == texts_view(bodies@),
            parts@.len() == i,
            forall|k: int| 0 <= k < i ==> (#[trigger] parts@[k])@ == all[k],
        decreases shown - i,
    {
        parts.push(bodies[i].as_str().to_owned());
        i = i + 1;
    }
    assert(texts_view(parts@) =~= all.take(shown as int));
    if shown < n {
        let cut: String = text_argument(h, args, 4, "...");
        let ghost before = texts_view(parts@);
        let ghost c = cut@;
        parts.push(cut);
        assert(texts_view(parts@) =~= before.push(c));
    }
    let sep: String = text_argument(h, args, 0, ", ");
    let body: String = join(&parts, sep.as_str());
    let prefix: String = text_argument(h, args, 1, "");
    let postfix: String = text_argument(h, args, 2, "");
    concat3(prefix.as_str(), body.as_str(), postfix.as_str())
}

// ── Names ───────────────────────────────────────────────────────────────────

/// Whether `kotlin.sequences` declares `name` to answer another `Sequence`.
pub open spec fn keeps_sequence(name: Seq<char>) -> bool {
    ||| name == "map"@
    ||| name == "mapIndexed"@
    ||| name == "mapNotNull"@
    ||| name == "filter"@
    ||| name == "filterNot"@
    ||| name == "filterNotNull"@
    ||| name == "filterIndexed"@
    ||| name == "take"@
    ||| name == "takeWhile"@
    ||| name == "drop"@
    ||| name == "dropWhile"@
    ||| name == "distinct"@
    ||| name == "distinctBy"@
    ||| name == "sorted"@
    ||| name == "sortedBy"@
    ||| name == "sortedDescending"@
    ||| name == "sortedByDescending"@
    ||| name == "sortedWith"@
    ||| name == "flatMap"@
    ||| name == "minus"@
    ||| name == "plus"@
    ||| name == "onEach"@
    ||| name == "withIndex"@
    ||| name == "asSequence"@
    ||| name == "reversed"@
    ||| name == "zip"@
    ||| name == "zipWithNext"@
}

/// Whether `kotlin.sequences` declares `name` to answer another `Sequence`.
pub fn sequence_preserving(name: &str) -> (r: bool)
    ensures
        r == keeps_sequence(name@),
{
    same(name, "map") || same(name, "mapIndexed") || same(name, "mapNotNull") || same(
        name,
        "filter",
    ) || same(name, "filterNot") || same(name, "filterNotNull") || same(name, "filterIndexed")
        || same(name, "take") || same(name, "takeWhile") || same(name, "drop") || same(
        name,
        "dropWhile",
    ) || same(name, "distinct") || same(name, "distinctBy") || same(name, "sorted") || same(
        name,
        "sortedBy",
    ) || same(name, "sortedDescending") || same(name, "sortedByDescending") || same(
        name,
        "sortedWith",
    ) || same(name, "flatMap") || same(name, "minus") || same(name, "plus") || same(name, "onEach")
        || same(name, "withIndex") || same(name, "asSequence") || same(name, "reversed") || same(
        name,
        "zip",
    ) || same(name, "zipWithNext")
}

/// Whether the overload of `name` for texts answers a text where that for
/// iterables answers a list.
pub open spec fn rebuilds_text(name: Seq<char>) -> bool {
    ||| name == "filter"@
    ||| name == "filterNot"@
    ||| name == "filterIndexed"@
    ||| name == "takeWhile"@
    ||| name == "dropWhile"@
    ||| name == "trim"@
    ||| name == "trimStart"@
    ||| name == "trimEnd"@
    ||| name == "onEach"@
}

/// Whether the overload of `name` for texts answers a text where that for
/// iterables answers a list.
pub fn charseq_returns_string(name: &str) -> (r: bool)
    ensures
        r == rebuilds_text(name@),
{
    same(name, "filter") || same(name, "filterNot") || same(name, "filterIndexed") || same(
        name,
        "takeWhile",
    ) || same(name, "dropWhile") || same(name, "trim") || same(name, "trimStart") || same(
        name,
        "trimEnd",
    ) || same(name, "onEach")
}

} // verus!
