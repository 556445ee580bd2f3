//! Heap objects: components, indexing, and the members of collections, pairs,
//! results and instances.
use crate::builder::unit_of_value;
use crate::compare::depth_budget;
use crate::display::{find_field, kotlin_string};
use crate::host::Host;
use crate::operators::{
    remain,
    key_position,
    operator_apply,
    position,
    retained,
    search_items,
    searches_by_hash,
};
use crate::order::{keys_of, natural_positions};
use crate::radix::{int_text, parse_size};
use crate::range::RangeObj;
use crate::receiver::{
    as_iterable,
    bounds_fault,
    copy_entries,
    couple_objs,
    index_fault,
    seq_kind_of,
    sequence_items,
    unresolved_on,
    value_at,
    SeqKind,
};
use crate::reply::Reply;
use crate::search::has_prefix;
use crate::sequences::sequence_member;
use crate::sorting::pick;
use crate::strings::{int_arg, sioobe_index, size_text};
use crate::text::{chars_of_str, concat2, concat3, concat4, same, string_of};
use crate::types::{enum_ordinal, obj_label};
use crate::utf16::units;
use crate::value::{char_of, copy_values, HeapObj, Value};
use crate::walk::{equal_vm, hash_vm, host_before, Log, Stop, Turn};
use vstd::prelude::*;

verus! {

use crate::builder::unit_of;
use crate::compare::{budget, data_fields, field_values};
use crate::display::{field_named, text_of};
use crate::equality::law_equality_is_reflexive;
use crate::host::HostView;
use crate::operators::{
    are_told_apart,
    is_decided,
    is_hashed,
    remaining,
    key_position_walk,
    law_missing_keys_are_new,
    law_retaining_decides_each,
    lemma_key_position,
    list_reached,
    operator_walk,
    position_walk,
    replied,
    retained_walk,
    searched,
};
use crate::order::{by_key, entry_keys};
use crate::radix::{decimal, size_number};
use crate::receiver::{
    bounds_message,
    entry_objs,
    index_fault_message,
    items_of,
    iterable_items,
    kind_of,
    pair_objs,
    unresolved,
    value_or_null,
};
use crate::reply::{law_storing_keeps_objects, settled, ReplyView};
use crate::search::starts_with;
use crate::sequences::{maybe_replied, shared_member};
use crate::sorting::{picked, sorted_positions};
use crate::strings::{arg_int, index_message};
use crate::types::{label_of, ordinal_of};
use crate::utf16::units_of;
use crate::value::{char_value, ObjView};
use crate::walk::{eq_walk, hash_eq_walk, hash_walk, host_at, reached, result_of, Answers, Outcome};

// ── Components ──────────────────────────────────────────────────────────────

/// The number that a `componentN` name asks for.
pub open spec fn component_index(name: Seq<char>) -> Option<int> {
    if starts_with(name, "component"@) {
        size_number(name.skip("component"@.len() as int))
    } else {
        None
    }
}

/// Component `n`, from 1 on: a primary-constructor property of an instance, an
/// element of a list, a part of a pair.
pub open spec fn component_of(h: HostView, recv: Value, n: int) -> Option<Value> {
    match h.obj(recv) {
        Some(ObjView::Instance { fields, data_from, data_len, .. }) => if 1 <= n <= data_len
            && data_from + n - 1 < fields.len() {
            Some(fields[data_from + n - 1].1)
        } else {
            None
        },
        Some(ObjView::List(items)) => nth(items, n),
        Some(ObjView::SetObj(items)) => nth(items, n),
        Some(ObjView::Array { items, .. }) => nth(items, n),
        Some(ObjView::Triple(a, b, c)) => nth(seq![a, b, c], n),
        Some(ObjView::Pair(a, b)) => nth(seq![a, b], n),
        Some(ObjView::Entry(a, b)) => nth(seq![a, b], n),
        _ => None,
    }
}

/// Element `n`, from 1 on.
pub open spec fn nth(items: Seq<Value>, n: int) -> Option<Value> {
    if 1 <= n <= items.len() {
        Some(items[n - 1])
    } else {
        None
    }
}

/// What `componentN` answers.
pub open spec fn component_reply(h: HostView, recv: Value, n: int) -> ReplyView {
    match component_of(h, recv, n) {
        Some(v) => ReplyView::Value(v),
        None => ReplyView::Fault("no component"@ + decimal(n) + " on "@ + label_of(h, recv)),
    }
}

fn component_number(name: &str) -> (r: Option<usize>)
    ensures
        match r {
            Some(n) => component_index(name@) == Some(n as int),
            None => component_index(name@) is None,
        },
{
    if !has_prefix(name, "component") {
        return None;
    }
    proof {
        reveal_strlit("component");
    }
    let v: Vec<char> = chars_of_str(name);
    let k: usize = chars_of_str("component").len();
    assert(v@.subrange(k as int, v@.len() as int) =~= v@.skip(k as int));
    parse_size(string_of(&v, k, v.len()).as_str())
}

fn nth_of(items: &Vec<Value>, n: usize) -> (r: Option<Value>)
    ensures
        r == nth(items@, n as int),
{
    if 1 <= n && n <= items.len() {
        Some(items[n - 1])
    } else {
        None
    }
}

/// `componentN` of the ordered kinds, from 1 on.
pub fn component(h: &Host, recv: Value, n: usize) -> (r: Reply)
    ensures
        r@ == component_reply(h@, recv, n as int),
{
    let hit: Option<Value> = match h.obj(recv) {
        Some(HeapObj::Instance { fields, data_from, data_len, .. }) => {
            if 1 <= n && n <= *data_len && (*data_from as u128 + n as u128) <= fields.len() as u128 {
                Some(fields[*data_from + n - 1].1)
            } else {
                None
            }
        },
        Some(HeapObj::List(items)) => nth_of(items, n),
        Some(HeapObj::SetObj(items)) => nth_of(items, n),
        Some(HeapObj::Array { items, .. }) => nth_of(items, n),
        Some(HeapObj::Triple(a, b, c)) => {
            let parts: Vec<Value> = vec![*a, *b, *c];
            assert(parts@ =~= seq![*a, *b, *c]);
            nth_of(&parts, n)
        },
        Some(HeapObj::Pair(a, b)) => {
            let parts: Vec<Value> = vec![*a, *b];
            assert(parts@ =~= seq![*a, *b]);
            nth_of(&parts, n)
        },
        Some(HeapObj::Entry(a, b)) => {
            let parts: Vec<Value> = vec![*a, *b];
            assert(parts@ =~= seq![*a, *b]);
            nth_of(&parts, n)
        },
        _ => None,
    };
    match hit {
        Some(v) => Reply::Value(v),
        None => {
            let head: String = concat3("no component", size_text(n).as_str(), " on ");
            Reply::Fault(concat2(head.as_str(), obj_label(h, recv).as_str()))
        },
    }
}

// ── Indexing ────────────────────────────────────────────────────────────────

/// The code unit at `i` as a `Char`, or the fault of the index.
pub open spec fn unit_reply(u: Seq<u16>, i: int) -> ReplyView {
    if 0 <= i < u.len() {
        ReplyView::Value(char_value(u[i] as int))
    } else {
        ReplyView::Fault(index_message(i, u.len() as int))
    }
}

/// The element at `i`, or the fault of the index.
pub open spec fn item_reply(h: HostView, recv: Value, kind: SeqKind, items: Seq<Value>, i: int) -> ReplyView {
    if 0 <= i < items.len() {
        ReplyView::Value(items[i])
    } else {
        ReplyView::Fault(index_fault_message(kind, h.list_tag(recv), i, items.len() as int))
    }
}

/// The value of the entry at `k`, or null when there is none.
pub open spec fn entry_value(es: Seq<(Value, Value)>, k: Option<int>) -> Value {
    match k {
        Some(i) if 0 <= i < es.len() => es[i].1,
        _ => Value::Undef,
    }
}

/// `recv[index]`: a character, an element, or the value of a key (null when it
/// is absent). The key is looked for among those that the map has when the search
/// starts, and its value is the one it has when the search is over.
pub open spec fn index_get_walk(h: HostView, recv: Value, index: Value, log: Answers) -> Result<
    ReplyView,
    Stop,
> {
    let i = h.to_int(index);
    match recv {
        Value::Str(id) => Ok(unit_reply(units_of(h.text(id)), i)),
        _ => match h.obj(recv) {
            Some(ObjView::Builder { units, .. }) => Ok(unit_reply(units, i)),
            Some(ObjView::MapObj(es)) => match key_position_walk(h, recv, index, log) {
                Err(s) => Err(s),
                Ok(k) => Ok(ReplyView::Value(entry_value(es, k))),
            },
            Some(ObjView::List(items)) => Ok(item_reply(h, recv, SeqKind::List, items, i)),
            Some(ObjView::SetObj(items)) => Ok(item_reply(h, recv, SeqKind::Array, items, i)),
            Some(ObjView::Array { items, .. }) => Ok(item_reply(h, recv, SeqKind::Array, items, i)),
            Some(_) => Ok(
                ReplyView::Fault(label_of(h, recv) + " does not support indexing"@),
            ),
            None => Ok(ReplyView::Fault("indexing a non-object value"@)),
        },
    }
}

fn unit_at(u: &Vec<u16>, i: i64) -> (r: Reply)
    ensures
        r@ == unit_reply(u@, i as int),
{
    if 0 <= i && (i as u128) < u.len() as u128 {
        Reply::Value(char_of(u[i as usize] as i64))
    } else {
        Reply::Fault(sioobe_index(i, u.len()))
    }
}

fn item_at(h: &Host, recv: Value, kind: SeqKind, items: &Vec<Value>, i: i64) -> (r: Reply)
    ensures
        r@ == item_reply(h@, recv, kind, items@, i as int),
{
    if 0 <= i && (i as u128) < items.len() as u128 {
        Reply::Value(items[i as usize])
    } else {
        Reply::Fault(index_fault(kind, h.list_tag(recv), i, items.len()))
    }
}

fn value_of_entry(es: &Vec<(Value, Value)>, k: Option<usize>) -> (v: Value)
    ensures
        v == entry_value(
            es@,
            match k {
                Some(i) => Some(i as int),
                None => None,
            },
        ),
{
    match k {
        Some(i) => if i < es.len() {
            es[i].1
        } else {
            Value::Undef
        },
        None => Value::Undef,
    }
}

/// `recv[index]`.
pub fn index_get(h: &Host, recv: Value, index: Value, answers: &Vec<Turn>) -> (r: Result<
    Reply,
    Stop,
>)
    ensures
        replied(r) == index_get_walk(h@, recv, index, answers@),
{
    let i: i64 = h.to_int(index);
    if let Value::Str(id) = recv {
        return Ok(unit_at(&units(h.text(id)), i));
    }
    match h.obj(recv) {
        Some(HeapObj::Builder { units, .. }) => Ok(unit_at(units, i)),
        Some(HeapObj::MapObj(es)) => match key_position(h, recv, index, answers) {
            Err(s) => Err(s),
            Ok(k) => Ok(Reply::Value(value_of_entry(es, k))),
        },
        Some(HeapObj::List(items)) => Ok(item_at(h, recv, SeqKind::List, items, i)),
        Some(HeapObj::SetObj(items)) => Ok(item_at(h, recv, SeqKind::Array, items, i)),
        Some(HeapObj::Array { items, .. }) => Ok(item_at(h, recv, SeqKind::Array, items, i)),
        Some(_) => Ok(
            Reply::Fault(concat2(obj_label(h, recv).as_str(), " does not support indexing")),
        ),
        None => Ok(Reply::Fault("indexing a non-object value".to_owned())),
    }
}

/// The entries with the one at `k` put to `v`, or a new one for `key` where there
/// is none.
pub open spec fn entry_put(es: Seq<(Value, Value)>, k: Option<int>, key: Value, v: Value) -> Seq<
    (Value, Value),
> {
    match k {
        Some(i) if 0 <= i < es.len() => es.update(i, (es[i].0, v)),
        _ => es.push((key, v)),
    }
}

/// `recv[index] = value`: an element or a character in place, or a map entry. A
/// store past the end of an array and one past the end of a list fault with
/// different classes.
pub open spec fn index_set_walk(
    h: HostView,
    recv: Value,
    index: Value,
    value: Value,
    log: Answers,
) -> Result<ReplyView, Stop> {
    let i = h.to_int(index);
    match h.obj(recv) {
        Some(ObjView::List(items)) => Ok(
            if 0 <= i < items.len() {
                ReplyView::Update(recv, ObjView::List(items.update(i, value)), Value::Undef)
            } else {
                ReplyView::Fault(
                    bounds_message(
                        "java.lang.IndexOutOfBoundsException"@,
                        i,
                        items.len() as int,
                    ),
                )
            },
        ),
        Some(ObjView::Array { items, desc }) => Ok(
            if 0 <= i < items.len() {
                ReplyView::Update(
                    recv,
                    ObjView::Array { items: items.update(i, value), desc },
                    Value::Undef,
                )
            } else {
                ReplyView::Fault(
                    bounds_message(
                        "java.lang.ArrayIndexOutOfBoundsException"@,
                        i,
                        items.len() as int,
                    ),
                )
            },
        ),
        Some(ObjView::MapObj(es)) => match key_position_walk(h, recv, index, log) {
            Err(s) => Err(s),
            Ok(k) => Ok(
                ReplyView::Update(
                    recv,
                    ObjView::MapObj(entry_put(es, k, index, value)),
                    Value::Undef,
                ),
            ),
        },
        Some(ObjView::Builder { units, cap }) => Ok(
            if 0 <= i < units.len() {
                ReplyView::Update(
                    recv,
                    ObjView::Builder { units: units.update(i, unit_of(h, value)), cap },
                    Value::Undef,
                )
            } else {
                ReplyView::Fault(index_message(i, units.len() as int))
            },
        ),
        Some(_) => Ok(
            ReplyView::Fault(label_of(h, recv) + " does not support indexed assignment"@),
        ),
        None => Ok(ReplyView::Fault("indexing a non-object value"@)),
    }
}

fn put_entry(es: &Vec<(Value, Value)>, k: Option<usize>, key: Value, v: Value) -> (r: Vec<
    (Value, Value),
>)
    ensures
        r@ == entry_put(
            es@,
            match k {
                Some(i) => Some(i as int),
                None => None,
            },
            key,
            v,
        ),
{
    let mut r: Vec<(Value, Value)> = copy_entries(es);
    match k {
        Some(i) => {
            if i < r.len() {
                let key: Value = r[i].0;
                r.set(i, (key, v));
            } else {
                r.push((key, v));
            }
        },
        None => {
            r.push((key, v));
        },
    }
    r
}

/// `recv[index] = value`.
pub fn index_set(
    h: &Host,
    recv: Value,
    index: Value,
    value: Value,
    answers: &Vec<Turn>,
) -> (r: Result<Reply, Stop>)
    ensures
        replied(r) == index_set_walk(h@, recv, index, value, answers@),
{
    let i: i64 = h.to_int(index);
    match h.obj(recv) {
        Some(HeapObj::List(items)) => if 0 <= i && (i as u128) < items.len() as u128 {
            let mut out: Vec<Value> = copy_values(items);
            out.set(i as usize, value);
            Ok(Reply::Update(recv, HeapObj::List(out), Value::Undef))
        } else {
            Ok(
                Reply::Fault(
                    bounds_fault("java.lang.IndexOutOfBoundsException", i, items.len()),
                ),
            )
        },
        Some(HeapObj::Array { items, desc }) => if 0 <= i && (i as u128) < items.len() as u128 {
            let mut out: Vec<Value> = copy_values(items);
            out.set(i as usize, value);
            Ok(
                Reply::Update(
                    recv,
                    HeapObj::Array { items: out, desc: desc.as_str().to_owned() },
                    Value::Undef,
                ),
            )
        } else {
            Ok(
                Reply::Fault(
                    bounds_fault("java.lang.ArrayIndexOutOfBoundsException", i, items.len()),
                ),
            )
        },
        Some(HeapObj::MapObj(es)) => match key_position(h, recv, index, answers) {
            Err(s) => Err(s),
            Ok(k) => Ok(
                Reply::Update(
                    recv,
                    HeapObj::MapObj(put_entry(es, k, index, value)),
                    Value::Undef,
                ),
            ),
        },
        Some(HeapObj::Builder { units, cap }) => if 0 <= i && (i as u128) < units.len() as u128 {
            let mut out: Vec<u16> = units.clone();
            assert(out@ =~= units@);
            out.set(i as usize, unit_of_value(h, value));
            Ok(Reply::Update(recv, HeapObj::Builder { units: out, cap: *cap }, Value::Undef))
        } else {
            Ok(Reply::Fault(sioobe_index(i, units.len())))
        },
        Some(_) => Ok(
            Reply::Fault(
                concat2(obj_label(h, recv).as_str(), " does not support indexed assignment"),
            ),
        ),
        None => Ok(Reply::Fault("indexing a non-object value".to_owned())),
    }
}

/// What a store puts at an index, a read at that index gives back: on a list and
/// on an array the value, and on a `StringBuilder` the character that it stands
/// for.
pub proof fn law_store_then_read(
    h: HostView,
    recv: Value,
    index: Value,
    value: Value,
    log: Answers,
    later: Answers,
)
    requires
        match h.obj(recv) {
            Some(ObjView::List(items)) => 0 <= h.to_int(index) < items.len(),
            Some(ObjView::Array { items, .. }) => 0 <= h.to_int(index) < items.len(),
            Some(ObjView::Builder { units, .. }) => 0 <= h.to_int(index) < units.len(),
            _ => false,
        },
    ensures
        index_set_walk(h, recv, index, value, log) is Ok,
        index_get_walk(
            settled(h, index_set_walk(h, recv, index, value, log)->Ok_0).0,
            recv,
            index,
            later,
        ) == Ok::<ReplyView, Stop>(
            ReplyView::Value(
                if h.obj(recv)->0 is Builder {
                    char_value(unit_of(h, value) as int)
                } else {
                    value
                },
            ),
        ),
{
}

/// What a store puts under a key of a map, a read of that key gives back, where
/// the read finds the entry that the store wrote: the one that the store found, or
/// the last, which it added.
pub proof fn law_map_store_then_read(
    h: HostView,
    recv: Value,
    key: Value,
    value: Value,
    log: Answers,
    later: Answers,
    es: Seq<(Value, Value)>,
    at: int,
)
    requires
        h.obj(recv) == Some(ObjView::MapObj(es)),
        match key_position_walk(h, recv, key, log) {
            Ok(Some(k)) if 0 <= k < es.len() => at == k,
            Ok(_) => at == es.len(),
            Err(_) => false,
        },
        key_position_walk(
            settled(h, index_set_walk(h, recv, key, value, log)->Ok_0).0,
            recv,
            key,
            later,
        ) == Ok::<Option<int>, Stop>(Some(at)),
    ensures
        index_get_walk(
            settled(h, index_set_walk(h, recv, key, value, log)->Ok_0).0,
            recv,
            key,
            later,
        ) == Ok::<ReplyView, Stop>(ReplyView::Value(value)),
{
}

proof fn lemma_plain_hash_eq(h: HostView, g: HostView, a: Value, b: Value, fuel: nat)
    requires
        h.obj(a) is None,
        h.obj(b) is None,
        g.obj(a) is None,
        g.obj(b) is None,
        g.texts == h.texts,
        g.doubles == h.doubles,
        fuel > 1,
    ensures
        hash_eq_walk(h, Seq::empty(), 0, a, b, fuel) == hash_eq_walk(
            g,
            Seq::empty(),
            0,
            a,
            b,
            fuel,
        ),
        hash_eq_walk(h, Seq::empty(), 0, a, b, fuel) matches Ok((_, n)) && n == 0,
{
}

proof fn lemma_plain_position(
    h: HostView,
    g: HostView,
    keys: Seq<Value>,
    more: Seq<Value>,
    v: Value,
    i: int,
    fuel: nat,
)
    requires
        0 <= i <= keys.len(),
        keys.is_prefix_of(more),
        h.obj(v) is None,
        g.obj(v) is None,
        forall|j: int|
            0 <= j < keys.len() ==> h.obj(#[trigger] keys[j]) is None && g.obj(keys[j]) is None,
        g.texts == h.texts,
        g.doubles == h.doubles,
        fuel > 1,
    ensures
        position_walk(h, Seq::empty(), 0, keys, v, i, true, fuel) matches Ok((p, n)) && n == 0 && i <= p
            <= keys.len() && position_walk(g, Seq::empty(), 0, more, v, i, true, fuel) == (if p
            < keys.len() {
            Ok::<(int, nat), Stop>((p, 0))
        } else {
            position_walk(g, Seq::empty(), 0, more, v, p, true, fuel)
        }),
    decreases keys.len() - i,
{
    if i < keys.len() {
        lemma_plain_hash_eq(h, g, keys[i], v, fuel);
        assert(more[i] == keys[i]);
        if hash_eq_walk(h, Seq::empty(), 0, keys[i], v, fuel) == Ok::<(bool, nat), Stop>(
            (false, 0),
        ) {
            lemma_plain_position(h, g, keys, more, v, i + 1, fuel);
        }
    }
}

/// A map whose keys are no heap objects (numbers, texts, characters, truth values,
/// null) gives back under a key what was stored under it, whether the key was there
/// or is new, and asks nothing for it.
pub proof fn law_map_keeps_what_is_stored(
    h: HostView,
    recv: Value,
    key: Value,
    value: Value,
    es: Seq<(Value, Value)>,
)
    requires
        h.obj(recv) == Some(ObjView::MapObj(es)),
        h.obj(key) is None,
        forall|i: int| 0 <= i < es.len() ==> h.obj((#[trigger] es[i]).0) is None,
    ensures
        index_set_walk(h, recv, key, value, Seq::empty()) is Ok,
        index_get_walk(
            settled(h, index_set_walk(h, recv, key, value, Seq::empty())->Ok_0).0,
            recv,
            key,
            Seq::empty(),
        ) == Ok::<ReplyView, Stop>(ReplyView::Value(value)),
{
    let keys = entry_keys(es);
    let fuel = budget(h);
    lemma_plain_position(h, h, keys, keys, key, 0, fuel);
    let (p, _) = position_walk(h, Seq::empty(), 0, keys, key, 0, true, fuel)->Ok_0;
    let at = if p < keys.len() {
        Some(p)
    } else {
        None
    };
    assert(key_position_walk(h, recv, key, Seq::empty()) == Ok::<Option<int>, Stop>(at));
    let out = entry_put(es, at, key, value);
    let g = settled(h, index_set_walk(h, recv, key, value, Seq::empty())->Ok_0).0;
    assert(g.obj(recv) == Some(ObjView::MapObj(out)));
    assert(keys.is_prefix_of(entry_keys(out)));
    assert forall|j: int| 0 <= j < keys.len() implies h.obj(#[trigger] keys[j]) is None && g.obj(
        keys[j],
    ) is None by {
        assert(keys[j] == es[j].0);
    }
    lemma_plain_position(h, g, keys, entry_keys(out), key, 0, fuel);
    if p == keys.len() {
        assert(entry_keys(out)[p] == key);
        law_equality_is_reflexive(g, key, (fuel - 1) as nat);
        assert(hash_eq_walk(g, Seq::empty(), 0, key, key, fuel) == Ok::<(bool, nat), Stop>(
            (true, 0),
        ));
    }
    law_map_store_then_read(h, recv, key, value, Seq::empty(), Seq::empty(), es, p);
}

// ── Members that change the receiver ────────────────────────────────────────

/// Whether the receiver holds `v`; one that cannot be searched holds nothing.
pub open spec fn held_walk(
    h: HostView,
    log: Answers,
    at: nat,
    recv: Value,
    v: Value,
    fuel: nat,
) -> Outcome<bool> {
    match searched(host_at(h, log, at), recv) {
        None => Ok((false, at)),
        Some((items, hashed)) => match position_walk(h, log, at, items, v, 0, hashed, fuel) {
            Err(s) => Err(s),
            Ok((p, n)) => Ok((p < items.len(), n)),
        },
    }
}

/// The elements of `other` from position `i` on, behind `out`, that the receiver
/// does not hold when their turn comes; for a set, only those that equal none
/// before them.
pub open spec fn fresh_walk(
    h: HostView,
    log: Answers,
    at: nat,
    recv: Value,
    set: bool,
    other: Seq<Value>,
    i: int,
    out: Seq<Value>,
    fuel: nat,
) -> Outcome<Seq<Value>>
    decreases other.len() - i,
{
    if i < 0 || i >= other.len() {
        Ok((out, at))
    } else {
        match held_walk(h, log, at, recv, other[i], fuel) {
            Err(s) => Err(s),
            Ok((true, n)) => fresh_walk(h, log, n, recv, set, other, i + 1, out, fuel),
            Ok((false, n)) => if !set {
                fresh_walk(h, log, n, recv, set, other, i + 1, out.push(other[i]), fuel)
            } else {
                match position_walk(h, log, n, other.take(i), other[i], 0, true, fuel) {
                    Err(s) => Err(s),
                    Ok((p, m)) => fresh_walk(
                        h,
                        log,
                        m,
                        recv,
                        set,
                        other,
                        i + 1,
                        if p < i {
                            out
                        } else {
                            out.push(other[i])
                        },
                        fuel,
                    ),
                }
            },
        }
    }
}

/// `add(index, element)`, which only a list has.
pub open spec fn insert_reply(h: HostView, recv: Value, index: Value, v: Value) -> ReplyView {
    match h.obj(recv) {
        Some(ObjView::List(items)) => {
            let at = h.to_int(index);
            if 0 <= at <= items.len() {
                ReplyView::Update(recv, ObjView::List(items.insert(at, v)), Value::Undef)
            } else {
                ReplyView::Fault(
                    "java.lang.IndexOutOfBoundsException: Index: "@ + decimal(at) + ", Size: "@
                        + decimal(items.len() as int),
                )
            }
        },
        _ => ReplyView::Fault(unresolved("add"@, label_of(h, recv))),
    }
}

/// `add(element)`: a list always grows; a set answers whether the element was
/// new.
pub open spec fn add_walk(h: HostView, recv: Value, v: Value, log: Answers) -> Result<
    ReplyView,
    Stop,
> {
    match key_position_walk(h, recv, v, log) {
        Err(s) => Err(s),
        Ok(k) => Ok(
            match h.obj(recv) {
                Some(ObjView::List(items)) => ReplyView::Update(
                    recv,
                    ObjView::List(items.push(v)),
                    Value::Bool(true),
                ),
                Some(ObjView::SetObj(items)) => if k is Some {
                    ReplyView::Value(Value::Bool(false))
                } else {
                    ReplyView::Update(recv, ObjView::SetObj(items.push(v)), Value::Bool(true))
                },
                _ => ReplyView::Fault(unresolved("add"@, label_of(h, recv))),
            },
        ),
    }
}

/// A list or a set, as `hashed` says.
pub open spec fn collection(hashed: bool, items: Seq<Value>) -> ObjView {
    if hashed {
        ObjView::SetObj(items)
    } else {
        ObjView::List(items)
    }
}

/// The elements of a list or a set, and whether it is a set.
pub open spec fn mutable_items(h: HostView, recv: Value) -> Option<(Seq<Value>, bool)> {
    match h.obj(recv) {
        Some(ObjView::List(items)) => Some((items, false)),
        Some(ObjView::SetObj(items)) => Some((items, true)),
        _ => None,
    }
}

/// Whether a value is a set.
pub open spec fn is_set(h: HostView, v: Value) -> bool {
    h.obj(v) matches Some(ObjView::SetObj(_))
}

/// `addAll`, `removeAll` and `retainAll`, which answer whether the receiver
/// changed. A set takes only what it does not hold yet; a list takes all. An element
/// is kept or removed by whether the argument holds it; `hashed` says whether the
/// argument is searched by hash.
pub open spec fn bulk_walk(
    h: HostView,
    recv: Value,
    name: Seq<char>,
    other: Seq<Value>,
    hashed: bool,
    log: Answers,
) -> Result<ReplyView, Stop> {
    let missing = ReplyView::Fault(unresolved(name, label_of(h, recv)));
    let g = host_at(h, log, 0);
    if name == "addAll"@ {
        match fresh_walk(h, log, 0, recv, is_set(g, recv), other, 0, Seq::empty(), budget(h)) {
            Err(s) => Err(s),
            Ok((fresh, _)) => Ok(
                match mutable_items(h, recv) {
                    None => missing,
                    Some((items, set)) => {
                        let more = if set {
                            fresh
                        } else {
                            other
                        };
                        ReplyView::Update(
                            recv,
                            collection(set, items + more),
                            Value::Bool(more.len() != 0),
                        )
                    },
                },
            ),
        }
    } else {
        match retained_walk(
            h,
            log,
            0,
            items_to_decide(g, recv),
            other,
            hashed,
            name == "retainAll"@,
            Seq::empty(),
            budget(h),
        ) {
            Err(s) => Err(s),
            Ok((stays, _)) => Ok(
                match mutable_items(h, recv) {
                    None => missing,
                    Some((items, set)) => ReplyView::Update(
                        recv,
                        collection(set, remaining(items, stays)),
                        Value::Bool(remaining(items, stays).len() != items.len()),
                    ),
                },
            ),
        }
    }
}

/// The elements that `removeAll` and `retainAll` decide on.
pub open spec fn items_to_decide(h: HostView, recv: Value) -> Seq<Value> {
    match iterable_items(h, recv) {
        Some(items) => items,
        None => Seq::empty(),
    }
}

/// `remove(element)` on a list or a set and `remove(key)` on a map: whether it was
/// there.
pub open spec fn remove_walk(h: HostView, recv: Value, v: Value, log: Answers) -> Result<
    ReplyView,
    Stop,
> {
    match key_position_walk(h, recv, v, log) {
        Err(s) => Err(s),
        Ok(k) => Ok(
            match h.obj(recv) {
                Some(ObjView::MapObj(es)) => match k {
                    Some(i) if 0 <= i < es.len() => ReplyView::Update(
                        recv,
                        ObjView::MapObj(es.remove(i)),
                        Value::Bool(true),
                    ),
                    _ => ReplyView::Value(Value::Bool(false)),
                },
                _ => match mutable_items(h, recv) {
                    None => ReplyView::Fault(unresolved("remove"@, label_of(h, recv))),
                    Some((items, hashed)) => match k {
                        Some(i) if 0 <= i < items.len() => ReplyView::Update(
                            recv,
                            collection(hashed, items.remove(i)),
                            Value::Bool(true),
                        ),
                        _ => ReplyView::Value(Value::Bool(false)),
                    },
                },
            },
        ),
    }
}

/// `removeAt(index)`, which only a list has.
pub open spec fn remove_at_reply(h: HostView, recv: Value, i: int) -> ReplyView {
    match h.obj(recv) {
        Some(ObjView::List(items)) => if 0 <= i < items.len() {
            ReplyView::Update(recv, ObjView::List(items.remove(i)), items[i])
        } else {
            ReplyView::Fault(
                bounds_message("java.lang.IndexOutOfBoundsException"@, i, items.len() as int),
            )
        },
        _ => ReplyView::Fault(unresolved("removeAt"@, label_of(h, recv))),
    }
}

/// `put(key, value)`, which answers the value that the key had, or null.
pub open spec fn put_walk(h: HostView, recv: Value, k: Value, v: Value, log: Answers) -> Result<
    ReplyView,
    Stop,
> {
    match key_position_walk(h, recv, k, log) {
        Err(s) => Err(s),
        Ok(at) => Ok(
            match h.obj(recv) {
                Some(ObjView::MapObj(es)) => ReplyView::Update(
                    recv,
                    ObjView::MapObj(entry_put(es, at, k, v)),
                    entry_value(es, at),
                ),
                _ => ReplyView::Value(Value::Undef),
            },
        ),
    }
}

fn held(log: &mut Log, h: &Host, recv: Value, v: Value, fuel: usize) -> (r: Result<bool, Stop>)
    requires
        old(log).at <= old(log).answers@.len(),
    ensures
        final(log).answers == old(log).answers,
        final(log).at <= final(log).answers@.len(),
        reached(
            r,
            final(log).at,
            held_walk(h@, old(log).answers@, old(log).at as nat, recv, v, fuel as nat),
        ),
{
    match search_items(log.now(h), recv) {
        None => Ok(false),
        Some((items, hashed)) => match position(log, h, &items, v, hashed, fuel) {
            Err(s) => Err(s),
            Ok(p) => Ok(p < items.len()),
        },
    }
}

fn fresh(
    log: &mut Log,
    h: &Host,
    recv: Value,
    set: bool,
    other: &Vec<Value>,
    fuel: usize,
) -> (r: Result<Vec<Value>, Stop>)
    requires
        old(log).at <= old(log).answers@.len(),
    ensures
        final(log).answers == old(log).answers,
        final(log).at <= final(log).answers@.len(),
        list_reached(
            r,
            final(log).at,
            fresh_walk(
                h@,
                old(log).answers@,
                old(log).at as nat,
                recv,
                set,
                other@,
                0,
                Seq::empty(),
                fuel as nat,
            ),
        ),
{
    let ghost goal = fresh_walk(
        h@,
        log.answers@,
        log.at as nat,
        recv,
        set,
        other@,
        0,
        Seq::empty(),
        fuel as nat,
    );
    let mut out: Vec<Value> = Vec::new();
    let mut seen: Vec<Value> = Vec::new();
    let mut i: usize = 0;
    assert(out@ =~= Seq::empty());
    while i < other.len()
        invariant
            i <= other@.len(),
            log.answers == old(log).answers,
            log.at <= log.answers@.len(),
            seen@ == other@.take(i as int),
            goal == fresh_walk(
                h@,
                old(log).answers@,
                old(log).at as nat,
                recv,
                set,
                other@,
                0,
                Seq::empty(),
                fuel as nat,
            ),
            goal == fresh_walk(
                h@,
                log.answers@,
                log.at as nat,
                recv,
                set,
                other@,
                i as int,
                out@,
                fuel as nat,
            ),
        decreases other.len() - i,
    {
        match held(log, h, recv, other[i], fuel) {
            Err(s) => {
                return Err(s);
            },
            Ok(true) => {},
            Ok(false) => {
                if !set {
                    out.push(other[i]);
                } else {
                    match position(log, h, &seen, other[i], true, fuel) {
                        Err(s) => {
                            return Err(s);
                        },
                        Ok(p) => {
                            if p >= seen.len() {
                                out.push(other[i]);
                            }
                        },
                    }
                }
            },
        }
        seen.push(other[i]);
        i = i + 1;
        assert(other@.take(i as int) =~= other@.take(i - 1).push(other@[i - 1]));
    }
    Ok(out)
}

fn insert_at(h: &Host, recv: Value, index: Value, v: Value) -> (r: Reply)
    ensures
        r@ == insert_reply(h@, recv, index, v),
{
    match h.obj(recv) {
        Some(HeapObj::List(items)) => {
            let at: i64 = h.to_int(index);
            if 0 <= at && at as u128 <= items.len() as u128 {
                let mut out: Vec<Value> = copy_values(items);
                out.insert(at as usize, v);
                Reply::Update(recv, HeapObj::List(out), Value::Undef)
            } else {
                Reply::Fault(
                    concat4(
                        "java.lang.IndexOutOfBoundsException: Index: ",
                        int_text(at).as_str(),
                        ", Size: ",
                        size_text(items.len()).as_str(),
                    ),
                )
            }
        },
        _ => Reply::Fault(unresolved_on(h, "add", recv)),
    }
}

fn push_to(items: &Vec<Value>, v: Value) -> (r: Vec<Value>)
    ensures
        r@ == items@.push(v),
{
    let mut r: Vec<Value> = copy_values(items);
    r.push(v);
    r
}

fn without(items: &Vec<Value>, k: usize) -> (r: Vec<Value>)
    requires
        k < items@.len(),
    ensures
        r@ == items@.remove(k as int),
{
    let mut r: Vec<Value> = copy_values(items);
    let _ = r.remove(k);
    r
}

fn add_to(h: &Host, recv: Value, v: Value, answers: &Vec<Turn>) -> (r: Result<Reply, Stop>)
    ensures
        replied(r) == add_walk(h@, recv, v, answers@),
{
    let k: Option<usize> = match key_position(h, recv, v, answers) {
        Err(s) => {
            return Err(s);
        },
        Ok(k) => k,
    };
    match h.obj(recv) {
        Some(HeapObj::List(items)) => Ok(
            Reply::Update(recv, HeapObj::List(push_to(items, v)), Value::Bool(true)),
        ),
        Some(HeapObj::SetObj(items)) => if k.is_some() {
            Ok(Reply::Value(Value::Bool(false)))
        } else {
            Ok(Reply::Update(recv, HeapObj::SetObj(push_to(items, v)), Value::Bool(true)))
        },
        _ => Ok(Reply::Fault(unresolved_on(h, "add", recv))),
    }
}

fn collect(hashed: bool, items: Vec<Value>) -> (o: HeapObj)
    ensures
        o@ == collection(hashed, items@),
{
    if hashed {
        HeapObj::SetObj(items)
    } else {
        HeapObj::List(items)
    }
}

fn items_to_change(h: &Host, recv: Value) -> (r: Option<(Vec<Value>, bool)>)
    ensures
        match r {
            Some((items, hashed)) => mutable_items(h@, recv) == Some((items@, hashed)),
            None => mutable_items(h@, recv) is None,
        },
{
    match h.obj(recv) {
        Some(HeapObj::List(items)) => Some((copy_values(items), false)),
        Some(HeapObj::SetObj(items)) => Some((copy_values(items), true)),
        _ => None,
    }
}

fn bulk(
    h: &Host,
    recv: Value,
    name: &str,
    other: Vec<Value>,
    hashed: bool,
    answers: &Vec<Turn>,
) -> (r: Result<Reply, Stop>)
    ensures
        replied(r) == bulk_walk(h@, recv, name@, other@, hashed, answers@),
{
    let g: &Host = host_before(h, answers);
    let mut log = Log::new(answers);
    let fuel: usize = depth_budget(h);
    if same(name, "addAll") {
        let set: bool = matches!(g.obj(recv), Some(HeapObj::SetObj(_)));
        match fresh(&mut log, h, recv, set, &other, fuel) {
            Err(s) => Err(s),
            Ok(new) => match items_to_change(h, recv) {
                None => Ok(Reply::Fault(unresolved_on(h, name, recv))),
                Some((items, set)) => {
                    let mut items: Vec<Value> = items;
                    let mut more: Vec<Value> = if set {
                        new
                    } else {
                        other
                    };
                    let grew: bool = more.len() != 0;
                    items.append(&mut more);
                    Ok(Reply::Update(recv, collect(set, items), Value::Bool(grew)))
                },
            },
        }
    } else {
        let decided: Vec<Value> = match as_iterable(g, recv) {
            Some(items) => items,
            None => Vec::new(),
        };
        assert(decided@ =~= items_to_decide(g@, recv));
        match retained(&mut log, h, &decided, &other, hashed, same(name, "retainAll"), fuel) {
            Err(s) => Err(s),
            Ok(stays) => match items_to_change(h, recv) {
                None => Ok(Reply::Fault(unresolved_on(h, name, recv))),
                Some((items, set)) => {
                    let left: Vec<Value> = remain(&items, &stays);
                    let shrank: bool = left.len() != items.len();
                    Ok(Reply::Update(recv, collect(set, left), Value::Bool(shrank)))
                },
            },
        }
    }
}

fn remove_from(h: &Host, recv: Value, v: Value, answers: &Vec<Turn>) -> (r: Result<
    Reply,
    Stop,
>)
    ensures
        replied(r) == remove_walk(h@, recv, v, answers@),
{
    let k: Option<usize> = match key_position(h, recv, v, answers) {
        Err(s) => {
            return Err(s);
        },
        Ok(k) => k,
    };
    if let Some(HeapObj::MapObj(es)) = h.obj(recv) {
        if let Some(i) = k {
            if i < es.len() {
                let mut out: Vec<(Value, Value)> = copy_entries(es);
                let _ = out.remove(i);
                return Ok(Reply::Update(recv, HeapObj::MapObj(out), Value::Bool(true)));
            }
        }
        return Ok(Reply::Value(Value::Bool(false)));
    }
    match items_to_change(h, recv) {
        None => Ok(Reply::Fault(unresolved_on(h, "remove", recv))),
        Some((items, hashed)) => {
            if let Some(i) = k {
                if i < items.len() {
                    return Ok(
                        Reply::Update(
                            recv,
                            collect(hashed, without(&items, i)),
                            Value::Bool(true),
                        ),
                    );
                }
            }
            Ok(Reply::Value(Value::Bool(false)))
        },
    }
}

fn remove_index(h: &Host, recv: Value, i: i64) -> (r: Reply)
    ensures
        r@ == remove_at_reply(h@, recv, i as int),
{
    match h.obj(recv) {
        Some(HeapObj::List(items)) => if 0 <= i && (i as u128) < items.len() as u128 {
            let had: Value = items[i as usize];
            Reply::Update(recv, HeapObj::List(without(items, i as usize)), had)
        } else {
            Reply::Fault(bounds_fault("java.lang.IndexOutOfBoundsException", i, items.len()))
        },
        _ => Reply::Fault(unresolved_on(h, "removeAt", recv)),
    }
}

fn put(h: &Host, recv: Value, k: Value, v: Value, answers: &Vec<Turn>) -> (r: Result<
    Reply,
    Stop,
>)
    ensures
        replied(r) == put_walk(h@, recv, k, v, answers@),
{
    let at: Option<usize> = match key_position(h, recv, k, answers) {
        Err(s) => {
            return Err(s);
        },
        Ok(at) => at,
    };
    match h.obj(recv) {
        Some(HeapObj::MapObj(es)) => {
            let had: Value = value_of_entry(es, at);
            Ok(Reply::Update(recv, HeapObj::MapObj(put_entry(es, at, k, v)), had))
        },
        _ => Ok(Reply::Value(Value::Undef)),
    }
}

// ── All members ─────────────────────────────────────────────────────────────

/// `plusElement` and `minusElement`: a new list with one element more, or
/// without the first that equals it.
pub open spec fn element_reply(
    h: HostView,
    recv: Value,
    name: Seq<char>,
    v: Value,
    log: Answers,
) -> Result<ReplyView, Stop> {
    match iterable_items(host_at(h, log, 0), recv) {
        None => Ok(ReplyView::Fault(unresolved(name, label_of(h, recv)))),
        Some(items) => if name == "plusElement"@ {
            Ok(ReplyView::Object(ObjView::List(items.push(v))))
        } else {
            match position_walk(h, log, 0, items, v, 0, false, budget(h)) {
                Err(s) => Err(s),
                Ok((p, _)) => Ok(
                    ReplyView::Object(
                        ObjView::List(
                            if p < items.len() {
                                items.remove(p)
                            } else {
                                items
                            },
                        ),
                    ),
                ),
            }
        },
    }
}

/// The members that every object has, and the operators in their method
/// spelling.
pub open spec fn common_member(
    h: HostView,
    recv: Value,
    name: Seq<char>,
    args: Seq<Value>,
    log: Answers,
) -> Result<Option<ReplyView>, Stop> {
    if name == "message"@ && h.obj(recv) is Some && h.obj(recv)->0 is Exc {
        Ok(
            Some(
                match h.obj(recv)->0->Exc_msg {
                    Some(m) => ReplyView::Text(m),
                    None => ReplyView::Value(Value::Undef),
                },
            ),
        )
    } else if name == "toString"@ {
        Ok(Some(ReplyView::Text(text_of(h, recv))))
    } else if name == "hashCode"@ {
        match result_of(hash_walk(h, log, 0, recv, false, budget(h))) {
            Err(s) => Err(s),
            Ok(n) => Ok(Some(ReplyView::Value(Value::Int(n as i64)))),
        }
    } else if name == "equals"@ {
        equals_reply(h, recv, args, log)
    } else if name == "plus"@ || name == "minus"@ || name == "plusAssign"@ || name
        == "minusAssign"@ {
        some_reply(operator_walk(h, recv, name, value_or_null(args, 0), log))
    } else if (name == "eachCount"@ || name == "eachCountTo"@) && h.obj(recv) is Some && h.obj(
        recv,
    )->0 is Grouping {
        Ok(
            Some(
                ReplyView::Count(
                    h.obj(recv)->0->Grouping_items,
                    h.obj(recv)->0->Grouping_key,
                ),
            ),
        )
    } else if name == "plusElement"@ || name == "minusElement"@ {
        some_reply(element_reply(h, recv, name, value_or_null(args, 0), log))
    } else {
        Ok(None)
    }
}

/// `equals`: what `==` with the argument answers.
pub open spec fn equals_reply(h: HostView, recv: Value, args: Seq<Value>, log: Answers) -> Result<
    Option<ReplyView>,
    Stop,
> {
    if args.len() == 0 {
        Ok(Some(ReplyView::Value(Value::Bool(false))))
    } else {
        match result_of(eq_walk(h, log, 0, recv, args[0], budget(h))) {
            Ok(b) => Ok(Some(ReplyView::Value(Value::Bool(b)))),
            Err(s) => Err(s),
        }
    }
}

/// A reply that is there.
pub open spec fn some_reply(r: Result<ReplyView, Stop>) -> Result<Option<ReplyView>, Stop> {
    match r {
        Ok(x) => Ok(Some(x)),
        Err(s) => Err(s),
    }
}

/// The members that change a collection.
pub open spec fn changing_member(
    h: HostView,
    recv: Value,
    name: Seq<char>,
    args: Seq<Value>,
    log: Answers,
) -> Result<Option<ReplyView>, Stop> {
    if name == "add"@ && args.len() == 2 {
        Ok(Some(insert_reply(h, recv, args[0], args[1])))
    } else if name == "add"@ {
        some_reply(add_walk(h, recv, value_or_null(args, 0), log))
    } else if name == "addAll"@ || name == "removeAll"@ || name == "retainAll"@ {
        some_reply(
            bulk_walk(
                h,
                recv,
                name,
                if args.len() > 0 {
                    items_of(host_at(h, log, 0), args[0])
                } else {
                    Seq::empty()
                },
                args.len() > 0 && is_hashed(host_at(h, log, 0), args[0]),
                log,
            ),
        )
    } else if name == "remove"@ {
        some_reply(remove_walk(h, recv, value_or_null(args, 0), log))
    } else if name == "removeAt"@ {
        Ok(Some(remove_at_reply(h, recv, arg_int(h, args, 0, 0))))
    } else if name == "put"@ {
        some_reply(put_walk(h, recv, value_or_null(args, 0), value_or_null(args, 1), log))
    } else {
        Ok(None)
    }
}

/// The values of entries.
pub open spec fn entry_values(es: Seq<(Value, Value)>) -> Seq<Value> {
    es.map_values(|e: (Value, Value)| e.1)
}

/// The members of a `Map`.
pub open spec fn map_member(
    h: HostView,
    recv: Value,
    es: Seq<(Value, Value)>,
    name: Seq<char>,
    args: Seq<Value>,
    log: Answers,
) -> Result<Option<ReplyView>, Stop> {
    if name == "entries"@ {
        Ok(Some(ReplyView::NewSet(entry_objs(es))))
    } else if name == "keys"@ {
        Ok(Some(ReplyView::Object(ObjView::SetObj(entry_keys(es)))))
    } else if name == "values"@ {
        Ok(Some(ReplyView::Object(ObjView::List(entry_values(es)))))
    } else if name == "toList"@ {
        Ok(Some(ReplyView::NewList(pair_objs(es))))
    } else if name == "toSortedMap"@ {
        Ok(
            Some(
                ReplyView::SortedMap(
                    picked(es, sorted_positions(es.len() as int, by_key(h, entry_keys(es)))),
                ),
            ),
        )
    } else if name == "containsKey"@ {
        match key_position_walk(h, recv, value_or_null(args, 0), log) {
            Err(s) => Err(s),
            Ok(k) => Ok(Some(ReplyView::Value(Value::Bool(k is Some)))),
        }
    } else if name == "get"@ {
        match key_position_walk(h, recv, value_or_null(args, 0), log) {
            Err(s) => Err(s),
            Ok(k) => Ok(Some(ReplyView::Value(entry_value(es, k)))),
        }
    } else if name == "size"@ {
        Ok(Some(ReplyView::Value(Value::Int(es.len() as i64))))
    } else if name == "isEmpty"@ {
        Ok(Some(ReplyView::Value(Value::Bool(es.len() == 0))))
    } else if name == "isNotEmpty"@ {
        Ok(Some(ReplyView::Value(Value::Bool(es.len() != 0))))
    } else {
        Ok(None)
    }
}

/// What an enum constant's `compareTo` answers: the difference of the ordinals.
pub open spec fn ordinal_difference(h: HostView, recv: Value, args: Seq<Value>) -> Option<Value> {
    if args.len() == 0 {
        None
    } else {
        match (ordinal_of(h, recv), ordinal_of(h, args[0])) {
            (Some(x), Some(y)) => Some(Value::Int((x as i64).wrapping_sub(y as i64))),
            _ => None,
        }
    }
}

/// The parts of a pair, a triple, an entry, a result or an instance.
pub open spec fn part_of(h: HostView, recv: Value, name: Seq<char>, args: Seq<Value>) -> Option<
    Value,
> {
    match h.obj(recv) {
        Some(ObjView::Pair(a, b)) => if name == "first"@ || name == "key"@ {
            Some(a)
        } else if name == "second"@ || name == "value"@ {
            Some(b)
        } else {
            None
        },
        Some(ObjView::Res { value, err }) => if name == "isSuccess"@ {
            Some(Value::Bool(err is None))
        } else if name == "isFailure"@ {
            Some(Value::Bool(err is Some))
        } else if name == "getOrNull"@ {
            Some(
                match err {
                    Some(_) => Value::Undef,
                    None => value,
                },
            )
        } else if name == "exceptionOrNull"@ {
            Some(
                match err {
                    Some(e) => e,
                    None => Value::Undef,
                },
            )
        } else {
            None
        },
        Some(ObjView::Triple(a, b, c)) => if name == "first"@ {
            Some(a)
        } else if name == "second"@ {
            Some(b)
        } else if name == "third"@ {
            Some(c)
        } else {
            None
        },
        Some(ObjView::Entry(k, v)) => if name == "key"@ {
            Some(k)
        } else if name == "value"@ {
            Some(v)
        } else {
            None
        },
        Some(ObjView::Instance { class, fields, .. }) => if name == "compareTo"@
            && h.class_is_enum(class) {
            ordinal_difference(h, recv, args)
        } else {
            field_named(fields, name)
        },
        _ => None,
    }
}

/// Whether only a `Map` has the member.
pub open spec fn is_map_view(name: Seq<char>) -> bool {
    name == "entries"@ || name == "keys"@ || name == "values"@
}

/// The range that a receiver is.
pub open spec fn range_of(h: HostView, recv: Value) -> Option<RangeObj> {
    match h.obj(recv) {
        Some(ObjView::Range(r)) => Some(r),
        _ => None,
    }
}

/// A member of an object that is neither a `StringBuilder` nor a lazy sequence.
pub open spec fn object_walk(
    h: HostView,
    recv: Value,
    name: Seq<char>,
    args: Seq<Value>,
    log: Answers,
) -> Result<ReplyView, Stop> {
    match component_index(name) {
        Some(n) => Ok(component_reply(h, recv, n)),
        None => match common_member(h, recv, name, args, log) {
            Err(s) => Err(s),
            Ok(Some(r)) => Ok(r),
            Ok(None) => match changing_member(h, recv, name, args, log) {
                Err(s) => Err(s),
                Ok(Some(r)) => Ok(r),
                Ok(None) => reading_walk(h, recv, name, args, log),
            },
        },
    }
}

/// A member of an object that leaves it as it is.
pub open spec fn reading_walk(
    h: HostView,
    recv: Value,
    name: Seq<char>,
    args: Seq<Value>,
    log: Answers,
) -> Result<ReplyView, Stop> {
    let missing = ReplyView::Fault(unresolved(name, label_of(h, recv)));
    match h.obj(recv) {
        Some(ObjView::MapObj(es)) => match map_member(h, recv, es, name, args, log) {
            Err(s) => Err(s),
            Ok(Some(r)) => Ok(r),
            Ok(None) => Ok(missing),
        },
        _ => if is_map_view(name) {
            Ok(missing)
        } else {
            match iterable_items(host_at(h, log, 0), recv) {
                Some(items) => match shared_member(
                    h,
                    items,
                    Some(recv),
                    kind_of(h, recv),
                    range_of(h, recv),
                    name,
                    args,
                    log,
                ) {
                    Err(s) => Err(s),
                    Ok(Some(r)) => Ok(r),
                    Ok(None) => Ok(missing),
                },
                None => match part_of(h, recv, name, args) {
                    Some(v) => Ok(ReplyView::Value(v)),
                    None => Ok(missing),
                },
            }
        },
    }
}

fn element_of(h: &Host, recv: Value, name: &str, v: Value, answers: &Vec<Turn>) -> (r: Result<
    Reply,
    Stop,
>)
    ensures
        replied(r) == element_reply(h@, recv, name@, v, answers@),
{
    match as_iterable(host_before(h, answers), recv) {
        None => Ok(Reply::Fault(unresolved_on(h, name, recv))),
        Some(items) => if same(name, "plusElement") {
            Ok(Reply::Object(HeapObj::List(push_to(&items, v))))
        } else {
            let mut log = Log::new(answers);
            let fuel: usize = depth_budget(h);
            match position(&mut log, h, &items, v, false, fuel) {
                Err(s) => Err(s),
                Ok(p) => if p < items.len() {
                    Ok(Reply::Object(HeapObj::List(without(&items, p))))
                } else {
                    Ok(Reply::Object(HeapObj::List(items)))
                },
            }
        },
    }
}

/// `equals`: what `==` with the argument answers.
pub(crate) fn equals(h: &Host, recv: Value, args: &Vec<Value>, answers: &Vec<Turn>) -> (r: Result<
    Option<Reply>,
    Stop,
>)
    ensures
        maybe_replied(r) == equals_reply(h@, recv, args@, answers@),
{
    if args.len() == 0 {
        return Ok(Some(Reply::Value(Value::Bool(false))));
    }
    match equal_vm(h, recv, args[0], answers) {
        Ok(b) => Ok(Some(Reply::Value(Value::Bool(b)))),
        Err(s) => Err(s),
    }
}

fn some(r: Result<Reply, Stop>) -> (out: Result<Option<Reply>, Stop>)
    ensures
        maybe_replied(out) == some_reply(replied(r)),
{
    match r {
        Ok(x) => Ok(Some(x)),
        Err(s) => Err(s),
    }
}

fn common(h: &Host, recv: Value, name: &str, args: &Vec<Value>, answers: &Vec<Turn>) -> (r:
    Result<Option<Reply>, Stop>)
    ensures
        maybe_replied(r) == common_member(h@, recv, name@, args@, answers@),
{
    if same(name, "message") {
        if let Some(HeapObj::Exc { msg, .. }) = h.obj(recv) {
            return match msg {
                Some(m) => Ok(Some(Reply::Text(m.as_str().to_owned()))),
                None => Ok(Some(Reply::Value(Value::Undef))),
            };
        }
    }
    if same(name, "toString") {
        return Ok(Some(Reply::Text(kotlin_string(h, recv))));
    }
    if same(name, "hashCode") {
        return match hash_vm(h, recv, false, answers) {
            Err(s) => Err(s),
            Ok(n) => Ok(Some(Reply::Value(Value::Int(n as i64)))),
        };
    }
    if same(name, "equals") {
        return equals(h, recv, args, answers);
    }
    if same(name, "plus") || same(name, "minus") || same(name, "plusAssign") || same(
        name,
        "minusAssign",
    ) {
        return some(operator_apply(h, recv, name, value_at(args, 0), answers));
    }
    if same(name, "eachCount") || same(name, "eachCountTo") {
        if let Some(HeapObj::Grouping { items, key }) = h.obj(recv) {
            return Ok(Some(Reply::Count(copy_values(items), *key)));
        }
    }
    if same(name, "plusElement") || same(name, "minusElement") {
        return some(element_of(h, recv, name, value_at(args, 0), answers));
    }
    Ok(None)
}

fn changing(h: &Host, recv: Value, name: &str, args: &Vec<Value>, answers: &Vec<Turn>) -> (r:
    Result<Option<Reply>, Stop>)
    ensures
        maybe_replied(r) == changing_member(h@, recv, name@, args@, answers@),
{
    let first: Value = value_at(args, 0);
    if same(name, "add") && args.len() == 2 {
        Ok(Some(insert_at(h, recv, args[0], args[1])))
    } else if same(name, "add") {
        some(add_to(h, recv, first, answers))
    } else if same(name, "addAll") || same(name, "removeAll") || same(name, "retainAll") {
        let other: Vec<Value> = if args.len() > 0 {
            sequence_items(host_before(h, answers), args[0])
        } else {
            Vec::new()
        };
        assert(args@.len() == 0 ==> other@ =~= Seq::empty());
        let hashed: bool = args.len() > 0 && searches_by_hash(
            host_before(h, answers),
            args[0],
        );
        some(bulk(h, recv, name, other, hashed, answers))
    } else if same(name, "remove") {
        some(remove_from(h, recv, first, answers))
    } else if same(name, "removeAt") {
        Ok(Some(remove_index(h, recv, int_arg(h, args, 0, 0))))
    } else if same(name, "put") {
        some(self::put(h, recv, first, value_at(args, 1), answers))
    } else {
        Ok(None)
    }
}

fn values_of(es: &Vec<(Value, Value)>) -> (r: Vec<Value>)
    ensures
        r@ == entry_values(es@),
{
    let mut r: Vec<Value> = Vec::new();
    let mut i: usize = 0;
    while i < es.len()
        invariant
            i <= es@.len(),
            r@ == entry_values(es@).take(i as int),
        decreases es.len() - i,
    {
        r.push(es[i].1);
        i = i + 1;
        assert(entry_values(es@).take(i as int) =~= entry_values(es@).take(i - 1).push(
            es@[i - 1].1,
        ));
    }
    assert(entry_values(es@).take(i as int) =~= entry_values(es@));
    r
}

fn of_map(
    h: &Host,
    recv: Value,
    es: &Vec<(Value, Value)>,
    name: &str,
    args: &Vec<Value>,
    answers: &Vec<Turn>,
) -> (r: Result<Option<Reply>, Stop>)
    ensures
        maybe_replied(r) == map_member(h@, recv, es@, name@, args@, answers@),
{
    if same(name, "entries") {
        Ok(Some(Reply::NewSet(couple_objs(es, false))))
    } else if same(name, "keys") {
        Ok(Some(Reply::Object(HeapObj::SetObj(keys_of(es)))))
    } else if same(name, "values") {
        Ok(Some(Reply::Object(HeapObj::List(values_of(es)))))
    } else if same(name, "toList") {
        Ok(Some(Reply::NewList(couple_objs(es, true))))
    } else if same(name, "toSortedMap") {
        let at: Vec<usize> = natural_positions(h, &keys_of(es));
        Ok(Some(Reply::SortedMap(pick(es, &at))))
    } else if same(name, "containsKey") {
        match key_position(h, recv, value_at(args, 0), answers) {
            Err(s) => Err(s),
            Ok(k) => Ok(Some(Reply::Value(Value::Bool(k.is_some())))),
        }
    } else if same(name, "get") {
        match key_position(h, recv, value_at(args, 0), answers) {
            Err(s) => Err(s),
            Ok(k) => Ok(Some(Reply::Value(value_of_entry(es, k)))),
        }
    } else if same(name, "size") {
        Ok(Some(Reply::Value(Value::Int(es.len() as i64))))
    } else if same(name, "isEmpty") {
        Ok(Some(Reply::Value(Value::Bool(es.len() == 0))))
    } else if same(name, "isNotEmpty") {
        Ok(Some(Reply::Value(Value::Bool(es.len() != 0))))
    } else {
        Ok(None)
    }
}

fn ordinals_apart(h: &Host, recv: Value, args: &Vec<Value>) -> (r: Option<Value>)
    ensures
        r == ordinal_difference(h@, recv, args@),
{
    if args.len() == 0 {
        return None;
    }
    match (enum_ordinal(h, recv), enum_ordinal(h, args[0])) {
        (Some(x), Some(y)) => Some(Value::Int(x.wrapping_sub(y))),
        _ => None,
    }
}

fn part(h: &Host, recv: Value, name: &str, args: &Vec<Value>) -> (r: Option<Value>)
    ensures
        r == part_of(h@, recv, name@, args@),
{
    match h.obj(recv) {
        Some(HeapObj::Pair(a, b)) => if same(name, "first") || same(name, "key") {
            Some(*a)
        } else if same(name, "second") || same(name, "value") {
            Some(*b)
        } else {
            None
        },
        Some(HeapObj::Res { value, err }) => if same(name, "isSuccess") {
            Some(Value::Bool(err.is_none()))
        } else if same(name, "isFailure") {
            Some(Value::Bool(err.is_some()))
        } else if same(name, "getOrNull") {
            match err {
                Some(_) => Some(Value::Undef),
                None => Some(*value),
            }
        } else if same(name, "exceptionOrNull") {
            match err {
                Some(e) => Some(*e),
                None => Some(Value::Undef),
            }
        } else {
            None
        },
        Some(HeapObj::Triple(a, b, c)) => if same(name, "first") {
            Some(*a)
        } else if same(name, "second") {
            Some(*b)
        } else if same(name, "third") {
            Some(*c)
        } else {
            None
        },
        Some(HeapObj::Entry(k, v)) => if same(name, "key") {
            Some(*k)
        } else if same(name, "value") {
            Some(*v)
        } else {
            None
        },
        Some(HeapObj::Instance { class, fields, .. }) => if same(name, "compareTo")
            && h.is_enum_class(class.as_str()) {
            ordinals_apart(h, recv, args)
        } else {
            find_field(fields, name)
        },
        _ => None,
    }
}

fn reading(h: &Host, recv: Value, name: &str, args: &Vec<Value>, answers: &Vec<Turn>) -> (r:
    Result<Reply, Stop>)
    ensures
        replied(r) == reading_walk(h@, recv, name@, args@, answers@),
{
    if let Some(HeapObj::MapObj(es)) = h.obj(recv) {
        return match of_map(h, recv, es, name, args, answers) {
            Err(s) => Err(s),
            Ok(Some(r)) => Ok(r),
            Ok(None) => Ok(Reply::Fault(unresolved_on(h, name, recv))),
        };
    }
    if same(name, "entries") || same(name, "keys") || same(name, "values") {
        return Ok(Reply::Fault(unresolved_on(h, name, recv)));
    }
    let range: Option<RangeObj> = match h.obj(recv) {
        Some(HeapObj::Range(r)) => Some(*r),
        _ => None,
    };
    match as_iterable(host_before(h, answers), recv) {
        Some(items) => match sequence_member(
            h,
            &items,
            Some(recv),
            seq_kind_of(h, recv),
            range,
            name,
            args,
            answers,
        ) {
            Err(s) => Err(s),
            Ok(Some(r)) => Ok(r),
            Ok(None) => Ok(Reply::Fault(unresolved_on(h, name, recv))),
        },
        None => match part(h, recv, name, args) {
            Some(v) => Ok(Reply::Value(v)),
            None => Ok(Reply::Fault(unresolved_on(h, name, recv))),
        },
    }
}

/// A member of an object that is neither a `StringBuilder` nor a lazy sequence.
pub fn obj_method(h: &Host, recv: Value, name: &str, args: &Vec<Value>, answers: &Vec<Turn>) -> (r:
    Result<Reply, Stop>)
    ensures
        replied(r) == object_walk(h@, recv, name@, args@, answers@),
{
    if let Some(n) = component_number(name) {
        return Ok(component(h, recv, n));
    }
    match common(h, recv, name, args, answers) {
        Err(s) => Err(s),
        Ok(Some(r)) => Ok(r),
        Ok(None) => match changing(h, recv, name, args, answers) {
            Err(s) => Err(s),
            Ok(Some(r)) => Ok(r),
            Ok(None) => reading(h, recv, name, args, answers),
        },
    }
}

// ── Laws ────────────────────────────────────────────────────────────────────

/// A member of a map that only reads leaves every object as it was.
pub proof fn law_map_reading_changes_nothing(
    h: HostView,
    recv: Value,
    name: Seq<char>,
    args: Seq<Value>,
    log: Answers,
    v: Value,
)
    requires
        h.obj(recv) matches Some(ObjView::MapObj(_)),
        reading_walk(h, recv, name, args, log) is Ok,
        h.obj(v) is Some,
    ensures
        settled(h, reading_walk(h, recv, name, args, log)->Ok_0).0.obj(v) == h.obj(v),
{
    law_storing_keeps_objects(h, reading_walk(h, recv, name, args, log)->Ok_0, v);
}

/// What `put` writes for a key that the map holds already stays in the key's
/// place: the keys, in their order, are those from before.
pub proof fn law_put_keeps_places(
    h: HostView,
    recv: Value,
    k: Value,
    v: Value,
    log: Answers,
    es: Seq<(Value, Value)>,
    at: int,
)
    requires
        h.obj(recv) == Some(ObjView::MapObj(es)),
        key_position_walk(h, recv, k, log) == Ok::<Option<int>, Stop>(Some(at)),
        0 <= at < es.len(),
    ensures
        put_walk(h, recv, k, v, log) == Ok::<ReplyView, Stop>(
            ReplyView::Update(recv, ObjView::MapObj(es.update(at, (es[at].0, v))), es[at].1),
        ),
        entry_keys(es.update(at, (es[at].0, v))) == entry_keys(es),
{
    assert(entry_keys(es.update(at, (es[at].0, v))) =~= entry_keys(es));
}

/// A set that holds an element refuses it and stays as it was.
pub proof fn law_set_add_twice(
    h: HostView,
    recv: Value,
    v: Value,
    log: Answers,
    items: Seq<Value>,
    at: int,
)
    requires
        h.obj(recv) == Some(ObjView::SetObj(items)),
        key_position_walk(h, recv, v, log) == Ok::<Option<int>, Stop>(Some(at)),
    ensures
        add_walk(h, recv, v, log) == Ok::<ReplyView, Stop>(ReplyView::Value(Value::Bool(false))),
{
}

/// A set takes in only what differs from each of its elements, and answers whether
/// it did: it never comes to hold an element twice, unless a member that the search
/// runs changes the set itself.
pub proof fn law_sets_take_in_new_elements(
    h: HostView,
    recv: Value,
    v: Value,
    log: Answers,
    items: Seq<Value>,
)
    requires
        h.obj(recv) == Some(ObjView::SetObj(items)),
        host_at(h, log, 0).obj(recv) == h.obj(recv),
    ensures
        match add_walk(h, recv, v, log) {
            Ok(ReplyView::Update(to, o, answer)) => to == recv && o == ObjView::SetObj(
                items.push(v),
            ) && answer == Value::Bool(true) && forall|k: int|
                0 <= k < items.len() ==> are_told_apart(h, log, #[trigger] items[k], v, budget(h)),
            Ok(r) => r == ReplyView::Value(Value::Bool(false)),
            Err(_) => true,
        },
{
    if key_position_walk(h, recv, v, log) == Ok::<Option<int>, Stop>(None) {
        law_missing_keys_are_new(h, recv, v, log);
    }
}

/// A map takes in a new entry only for a key that differs from each of its keys,
/// unless a member that the search runs changes the map itself.
pub proof fn law_maps_take_in_new_keys(
    h: HostView,
    recv: Value,
    k: Value,
    v: Value,
    log: Answers,
    es: Seq<(Value, Value)>,
)
    requires
        h.obj(recv) == Some(ObjView::MapObj(es)),
        host_at(h, log, 0).obj(recv) == h.obj(recv),
    ensures
        put_walk(h, recv, k, v, log) matches Ok(r) ==> (r matches ReplyView::Update(
            to,
            ObjView::MapObj(out),
            _,
        ) && to == recv && (entry_keys(out) == entry_keys(es) || (entry_keys(out) == entry_keys(
            es,
        ).push(k) && forall|i: int|
            0 <= i < es.len() ==> are_told_apart(
                h,
                log,
                #[trigger] entry_keys(es)[i],
                k,
                budget(h),
            )))),
{
    lemma_key_position(h, recv, k, log);
    match key_position_walk(h, recv, k, log) {
        Ok(Some(at)) => {
            assert(entry_keys(entry_put(es, Some(at), k, v)) =~= entry_keys(es));
        },
        Ok(None) => {
            law_missing_keys_are_new(h, recv, k, log);
            assert(entry_keys(entry_put(es, None, k, v)) =~= entry_keys(es).push(k));
        },
        Err(_) => {},
    }
}

/// The components of an instance are its primary-constructor properties, in
/// their order.
pub proof fn law_components_are_constructor_properties(
    h: HostView,
    recv: Value,
    n: int,
    class: Seq<char>,
    is_data: bool,
    fields: Seq<(Seq<char>, Value)>,
    from: int,
    len: int,
)
    requires
        h.obj(recv) == Some(
            ObjView::Instance { class, is_data, fields, data_from: from, data_len: len },
        ),
        0 <= from,
        0 <= len,
    ensures
        component_of(h, recv, n) == nth(field_values(data_fields(fields, from, len)), n),
{
}

proof fn lemma_remaining_len(items: Seq<Value>, stays: Seq<bool>)
    ensures
        remaining(items, stays).len() <= items.len(),
        remaining(items, stays).len() == items.len() ==> remaining(items, stays) == items,
    decreases items.len(),
{
    if items.len() > 0 {
        lemma_remaining_len(items.drop_last(), stays);
        assert(items.drop_last().push(items.last()) =~= items);
    } else {
        assert(items =~= Seq::empty());
    }
}

/// `addAll`, `removeAll` and `retainAll` answer whether the receiver changed.
pub proof fn law_bulk_changes_are_answered(
    h: HostView,
    recv: Value,
    name: Seq<char>,
    other: Seq<Value>,
    hashed: bool,
    log: Answers,
)
    requires
        mutable_items(h, recv) is Some,
        bulk_walk(h, recv, name, other, hashed, log) is Ok,
    ensures
        ({
            let (items, set) = mutable_items(h, recv)->0;
            bulk_walk(h, recv, name, other, hashed, log)->Ok_0 matches ReplyView::Update(
                v,
                o,
                answer,
            ) && v == recv && answer == Value::Bool(o != collection(set, items))
        }),
{
    let (items, set) = mutable_items(h, recv)->0;
    let r = bulk_walk(h, recv, name, other, hashed, log)->Ok_0;
    if name != "addAll"@ {
        let (stays, _) = retained_walk(
            h,
            log,
            0,
            items_to_decide(host_at(h, log, 0), recv),
            other,
            hashed,
            name == "retainAll"@,
            Seq::empty(),
            budget(h),
        )->Ok_0;
        lemma_remaining_len(items, stays);
    } else {
        if let ReplyView::Update(_, ObjView::List(s), _) = r {
            assert(s.len() == items.len() ==> s =~= items);
        }
        if let ReplyView::Update(_, ObjView::SetObj(s), _) = r {
            assert(s.len() == items.len() ==> s =~= items);
        }
    }
}

/// `removeAll` leaves exactly the elements that the argument does not hold, and
/// `retainAll` exactly those that it does, in their order: each is searched for in
/// the argument, as `in` does it, with the members that a program declares. It is
/// so unless such a member changes the receiver itself.
pub proof fn law_bulk_removal_goes_by_membership(
    h: HostView,
    recv: Value,
    name: Seq<char>,
    other: Seq<Value>,
    hashed: bool,
    log: Answers,
    items: Seq<Value>,
    set: bool,
)
    requires
        name == "removeAll"@ || name == "retainAll"@,
        mutable_items(h, recv) == Some((items, set)),
        host_at(h, log, 0).obj(recv) == h.obj(recv),
        bulk_walk(h, recv, name, other, hashed, log) is Ok,
    ensures
        exists|stays: Seq<bool>|
            {
                &&& stays.len() == items.len()
                &&& bulk_walk(h, recv, name, other, hashed, log)->Ok_0 matches ReplyView::Update(
                    _,
                    o,
                    _,
                ) && o == collection(set, #[trigger] remaining(items, stays))
                &&& forall|i: int|
                    0 <= i < items.len() ==> is_decided(
                        h,
                        log,
                        other,
                        items[i],
                        hashed,
                        #[trigger] stays[i] == (name == "retainAll"@),
                        budget(h),
                    )
            },
{
    reveal_strlit("addAll");
    reveal_strlit("removeAll");
    reveal_strlit("retainAll");
    assert("addAll"@.len() == 6);
    let want = name == "retainAll"@;
    let (stays, _) = retained_walk(
        h,
        log,
        0,
        items,
        other,
        hashed,
        want,
        Seq::empty(),
        budget(h),
    )->Ok_0;
    law_retaining_decides_each(
        h,
        log,
        0,
        items,
        other,
        hashed,
        want,
        Seq::empty(),
        budget(h),
    );
    let left = remaining(items, stays);
    assert(left == remaining(items, stays));
}

/// Whether `addAll` on a set adds element `k` of `other`, or passes it over: it adds
/// what the set does not hold and no element before it equals.
pub open spec fn is_added(
    h: HostView,
    log: Answers,
    recv: Value,
    other: Seq<Value>,
    k: int,
    added: bool,
    fuel: nat,
) -> bool {
    exists|at: nat|
        (#[trigger] held_walk(h, log, at, recv, other[k], fuel)) matches Ok((held, n)) && if held {
            !added
        } else {
            position_walk(h, log, n, other.take(k), other[k], 0, true, fuel) matches Ok((p, _))
                && added == (p >= k)
        }
}

proof fn lemma_remaining_by_prefix(items: Seq<Value>, stays: Seq<bool>, more: bool)
    requires
        items.len() <= stays.len(),
    ensures
        remaining(items, stays.push(more)) == remaining(items, stays),
    decreases items.len(),
{
    if items.len() > 0 {
        lemma_remaining_by_prefix(items.drop_last(), stays, more);
    }
}

proof fn lemma_fresh_are_new(
    h: HostView,
    log: Answers,
    at: nat,
    recv: Value,
    other: Seq<Value>,
    adds: Seq<bool>,
    out: Seq<Value>,
    fuel: nat,
) -> (all: Seq<bool>)
    requires
        adds.len() <= other.len(),
        out == remaining(other.take(adds.len() as int), adds),
        forall|k: int|
            0 <= k < adds.len() ==> is_added(h, log, recv, other, k, #[trigger] adds[k], fuel),
    ensures
        fresh_walk(h, log, at, recv, true, other, adds.len() as int, out, fuel) matches Ok((fresh, _))
            ==> {
            &&& all.len() == other.len()
            &&& fresh == remaining(other, all)
            &&& forall|k: int|
                0 <= k < all.len() ==> is_added(h, log, recv, other, k, #[trigger] all[k], fuel)
        },
    decreases other.len() - adds.len(),
{
    let i = adds.len() as int;
    if i >= other.len() {
        assert(other.take(i) =~= other);
        adds
    } else {
        let held = held_walk(h, log, at, recv, other[i], fuel);
        let added = match held {
            Ok((false, n)) => match position_walk(h, log, n, other.take(i), other[i], 0, true, fuel) {
                Ok((p, _)) => p >= i,
                Err(_) => false,
            },
            _ => false,
        };
        let next = match held {
            Ok((false, n)) => match position_walk(h, log, n, other.take(i), other[i], 0, true, fuel) {
                Ok((_, m)) => Some(m),
                Err(_) => None,
            },
            Ok((true, n)) => Some(n),
            Err(_) => None,
        };
        match next {
            None => adds,
            Some(n) => {
                let grown = adds.push(added);
                let longer = if added {
                    out.push(other[i])
                } else {
                    out
                };
                assert(is_added(h, log, recv, other, i, added, fuel));
                lemma_remaining_by_prefix(other.take(i), adds, added);
                assert(other.take(i + 1).drop_last() =~= other.take(i));
                assert forall|k: int| 0 <= k < grown.len() implies is_added(
                    h,
                    log,
                    recv,
                    other,
                    k,
                    #[trigger] grown[k],
                    fuel,
                ) by {
                    if k < i {
                        assert(grown[k] == adds[k]);
                    }
                }
                lemma_fresh_are_new(h, log, n, recv, other, grown, longer, fuel)
            },
        }
    }
}

/// `addAll` on a list appends every element it is given, and on a set exactly those,
/// in their order, that are new: what the set already holds and what repeats an
/// element before it are passed over, compared with the members that a program
/// declares.
pub proof fn law_add_all_takes_in_what_is_new(
    h: HostView,
    recv: Value,
    other: Seq<Value>,
    hashed: bool,
    log: Answers,
    items: Seq<Value>,
    set: bool,
)
    requires
        mutable_items(h, recv) == Some((items, set)),
        is_set(host_at(h, log, 0), recv) == set,
        bulk_walk(h, recv, "addAll"@, other, hashed, log) is Ok,
    ensures
        !set ==> (bulk_walk(h, recv, "addAll"@, other, hashed, log)->Ok_0 matches ReplyView::Update(
            _,
            o,
            _,
        ) && o == ObjView::List(items + other)),
        set ==> exists|adds: Seq<bool>|
            {
                &&& adds.len() == other.len()
                &&& bulk_walk(
                    h,
                    recv,
                    "addAll"@,
                    other,
                    hashed,
                    log,
                )->Ok_0 matches ReplyView::Update(_, o, _) && o == ObjView::SetObj(
                    items + #[trigger] remaining(other, adds),
                )
                &&& forall|k: int|
                    0 <= k < other.len() ==> is_added(
                        h,
                        log,
                        recv,
                        other,
                        k,
                        #[trigger] adds[k],
                        budget(h),
                    )
            },
{
    if set {
        assert(other.take(0) =~= Seq::empty());
        let adds = lemma_fresh_are_new(
            h,
            log,
            0,
            recv,
            other,
            Seq::empty(),
            Seq::empty(),
            budget(h),
        );
        let fresh = remaining(other, adds);
        assert(fresh == remaining(other, adds));
    }
}

} // verus!
