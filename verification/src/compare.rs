//! Structural equality and hashing of values, without user overrides.
//!
//! Objects can contain one another in a circle, and then a structural walk has
//! no end. Each walk here is given a nesting budget and answers `None` when it
//! runs out; [`depth_budget`] is enough for every heap without such a circle.
use crate::double::{double_equal, double_hash, nan, numerically_equal};
use crate::host::Host;
use crate::text::{chars_of_str, same};
use crate::utf16::units;
use crate::value::{char_code, HeapObj, Value};
use vstd::prelude::*;

verus! {

use crate::double::{boxed_eq, hash_of_bits, is_nan, numeric_eq};
use crate::host::HostView;
use crate::range::RangeObj;
use crate::utf16::units_of;
use crate::value::{code_of, fields_view, ObjView};

// ── Scalars ─────────────────────────────────────────────────────────────────

/// Equality of two values of which at most one is an object.
pub open spec fn scalar_eq(h: HostView, a: Value, b: Value) -> bool {
    match (a, b) {
        (Value::Undef, Value::Undef) => true,
        (Value::Bool(x), Value::Bool(y)) => x == y,
        (Value::Int(x), Value::Int(y)) => x == y,
        (Value::Str(x), Value::Str(y)) => h.text(x) == h.text(y),
        (Value::Float(x), Value::Float(y)) => boxed_eq(h.double(x).bits, h.double(y).bits),
        (Value::Int(_), Value::Float(_)) => numeric_eq(h.to_double(a), h.to_double(b)),
        (Value::Float(_), Value::Int(_)) => numeric_eq(h.to_double(a), h.to_double(b)),
        _ => false,
    }
}

fn scalars_equal(h: &Host, a: Value, b: Value) -> (r: bool)
    ensures
        r == scalar_eq(h@, a, b),
{
    match (a, b) {
        (Value::Undef, Value::Undef) => true,
        (Value::Bool(x), Value::Bool(y)) => x == y,
        (Value::Int(x), Value::Int(y)) => x == y,
        (Value::Str(x), Value::Str(y)) => same(h.text(x), h.text(y)),
        (Value::Float(x), Value::Float(y)) => double_equal(h.bits(x), h.bits(y)),
        (Value::Int(_), Value::Float(_)) => numerically_equal(h.to_double(a), h.to_double(b)),
        (Value::Float(_), Value::Int(_)) => numerically_equal(h.to_double(a), h.to_double(b)),
        _ => false,
    }
}

/// Referential identity: the same object, or for a value that is no object the
/// same value. A `NaN` is identical to itself.
pub open spec fn is_identical(h: HostView, a: Value, b: Value) -> bool {
    match (a, b) {
        (Value::Obj(x), Value::Obj(y)) => x == y,
        (Value::Float(x), Value::Float(y)) => numeric_eq(h.double(x).bits, h.double(y).bits) || (
        is_nan(h.double(x).bits) && is_nan(h.double(y).bits)),
        (Value::Int(_), Value::Float(_)) => false,
        (Value::Float(_), Value::Int(_)) => false,
        _ => scalar_eq(h, a, b),
    }
}

/// Referential identity, `===`, which asks whether two expressions denote the
/// same object rather than equal ones. A value that is no object is unboxed, so
/// identity there is value equality of one kind.
pub fn identical(h: &Host, a: Value, b: Value) -> (r: bool)
    ensures
        r == is_identical(h@, a, b),
{
    match (a, b) {
        (Value::Obj(x), Value::Obj(y)) => x == y,
        (Value::Float(x), Value::Float(y)) => numerically_equal(h.bits(x), h.bits(y)) || (nan(
            h.bits(x),
        ) && nan(h.bits(y))),
        (Value::Int(_), Value::Float(_)) => false,
        (Value::Float(_), Value::Int(_)) => false,
        _ => scalars_equal(h, a, b),
    }
}

// ── Equality ────────────────────────────────────────────────────────────────

/// The primary-constructor slice of an instance's fields.
pub open spec fn data_fields(fields: Seq<(Seq<char>, Value)>, from: int, len: int) -> Seq<
    (Seq<char>, Value),
> {
    let start = if from < fields.len() {
        from
    } else {
        fields.len() as int
    };
    let end = if start + len < fields.len() {
        start + len
    } else {
        fields.len() as int
    };
    fields.subrange(start, end)
}

/// The values of a field list.
pub open spec fn field_values(fields: Seq<(Seq<char>, Value)>) -> Seq<Value> {
    fields.map_values(|f: (Seq<char>, Value)| f.1)
}

/// Two ranges are equal when both are empty, or when they have the same
/// elements in the same order.
pub open spec fn range_eq(a: RangeObj, b: RangeObj) -> bool {
    if a.is_void() || b.is_void() {
        a.is_void() && b.is_void()
    } else {
        a.first == b.first && a.last_element() == b.last_element() && a.step == b.step
    }
}

/// Structural equality within a nesting budget.
pub open spec fn eq_within(h: HostView, a: Value, b: Value, fuel: nat) -> Option<bool>
    decreases fuel, 0int, 0int,
{
    match (a, b) {
        (Value::Obj(x), Value::Obj(y)) => if x == y {
            Some(true)
        } else if fuel == 0 {
            None
        } else {
            match (h.obj(a), h.obj(b)) {
                (Some(oa), Some(ob)) => obj_eq_within(h, oa, ob, (fuel - 1) as nat),
                _ => Some(false),
            }
        },
        _ => Some(scalar_eq(h, a, b)),
    }
}

/// Structural equality of two objects.
pub open spec fn obj_eq_within(h: HostView, a: ObjView, b: ObjView, fuel: nat) -> Option<bool>
    decreases fuel, 3int, 0int,
{
    match (a, b) {
        (
            ObjView::Instance { class: ca, is_data, fields: fa, data_from: da, data_len: la },
            ObjView::Instance { class: cb, fields: fb, data_from: db, data_len: lb, .. },
        ) => {
            let xa = field_values(data_fields(fa, da, la));
            let xb = field_values(data_fields(fb, db, lb));
            if !is_data || ca != cb || xa.len() != xb.len() {
                Some(false)
            } else {
                all_eq_within(h, xa, xb, 0, fuel)
            }
        },
        (ObjView::List(xa), ObjView::List(xb)) => if xa.len() != xb.len() {
            Some(false)
        } else {
            all_eq_within(h, xa, xb, 0, fuel)
        },
        (ObjView::SetObj(xa), ObjView::SetObj(xb)) => if xa.len() != xb.len() {
            Some(false)
        } else {
            each_in_within(h, xa, xb, 0, fuel)
        },
        (ObjView::Pair(a1, a2), ObjView::Pair(b1, b2)) => all_eq_within(
            h,
            seq![a1, a2],
            seq![b1, b2],
            0,
            fuel,
        ),
        (ObjView::Entry(a1, a2), ObjView::Entry(b1, b2)) => all_eq_within(
            h,
            seq![a1, a2],
            seq![b1, b2],
            0,
            fuel,
        ),
        (ObjView::Triple(a1, a2, a3), ObjView::Triple(b1, b2, b3)) => all_eq_within(
            h,
            seq![a1, a2, a3],
            seq![b1, b2, b3],
            0,
            fuel,
        ),
        (ObjView::MapObj(ea), ObjView::MapObj(eb)) => if ea.len() != eb.len() {
            Some(false)
        } else {
            entries_in_within(h, ea, eb, 0, fuel)
        },
        (ObjView::Range(ra), ObjView::Range(rb)) => Some(range_eq(ra, rb)),
        _ => Some(false),
    }
}

/// Whether the values from position `i` on are pairwise equal.
pub open spec fn all_eq_within(
    h: HostView,
    xs: Seq<Value>,
    ys: Seq<Value>,
    i: int,
    fuel: nat,
) -> Option<bool>
    decreases fuel, 1int, xs.len() - i,
{
    if i < 0 || i >= xs.len() || i >= ys.len() {
        Some(true)
    } else {
        match eq_within(h, xs[i], ys[i], fuel) {
            Some(true) => all_eq_within(h, xs, ys, i + 1, fuel),
            other => other,
        }
    }
}

/// Whether one of `ys` from position `j` on equals `x`.
pub open spec fn any_eq_within(h: HostView, x: Value, ys: Seq<Value>, j: int, fuel: nat) -> Option<
    bool,
>
    decreases fuel, 1int, ys.len() - j,
{
    if j < 0 || j >= ys.len() {
        Some(false)
    } else {
        match eq_within(h, x, ys[j], fuel) {
            Some(false) => any_eq_within(h, x, ys, j + 1, fuel),
            other => other,
        }
    }
}

/// Whether each of `xs` from position `i` on equals one of `ys`.
pub open spec fn each_in_within(
    h: HostView,
    xs: Seq<Value>,
    ys: Seq<Value>,
    i: int,
    fuel: nat,
) -> Option<bool>
    decreases fuel, 2int, xs.len() - i,
{
    if i < 0 || i >= xs.len() {
        Some(true)
    } else {
        match any_eq_within(h, xs[i], ys, 0, fuel) {
            Some(true) => each_in_within(h, xs, ys, i + 1, fuel),
            other => other,
        }
    }
}

/// Whether one of the entries `es` from position `j` on has an equal key and an
/// equal value.
pub open spec fn any_entry_within(
    h: HostView,
    e: (Value, Value),
    es: Seq<(Value, Value)>,
    j: int,
    fuel: nat,
) -> Option<bool>
    decreases fuel, 1int, es.len() - j,
{
    if j < 0 || j >= es.len() {
        Some(false)
    } else {
        match eq_within(h, e.0, es[j].0, fuel) {
            None => None,
            Some(false) => any_entry_within(h, e, es, j + 1, fuel),
            Some(true) => match eq_within(h, e.1, es[j].1, fuel) {
                Some(false) => any_entry_within(h, e, es, j + 1, fuel),
                other => other,
            },
        }
    }
}

/// Whether each of the entries `xs` from position `i` on is one of `ys`.
pub open spec fn entries_in_within(
    h: HostView,
    xs: Seq<(Value, Value)>,
    ys: Seq<(Value, Value)>,
    i: int,
    fuel: nat,
) -> Option<bool>
    decreases fuel, 2int, xs.len() - i,
{
    if i < 0 || i >= xs.len() {
        Some(true)
    } else {
        match any_entry_within(h, xs[i], ys, 0, fuel) {
            Some(true) => entries_in_within(h, xs, ys, i + 1, fuel),
            other => other,
        }
    }
}

/// The nesting budget that a heap calls for: no chain of containment without a
/// circle is longer.
pub open spec fn budget(h: HostView) -> nat {
    if h.heap.len() < usize::MAX {
        h.heap.len() + 1
    } else {
        h.heap.len()
    }
}

/// The nesting budget that a heap calls for.
pub fn depth_budget(h: &Host) -> (n: usize)
    ensures
        n == budget(h@),
{
    let n: usize = h.heap.len();
    if n < usize::MAX {
        n + 1
    } else {
        n
    }
}

/// The values of the primary-constructor slice of an instance's fields.
pub(crate) fn data_values(fields: &Vec<(String, Value)>, from: usize, len: usize) -> (r: Vec<Value>)
    ensures
        r@ == field_values(data_fields(fields_view(fields@), from as int, len as int)),
{
    let start: usize = if from < fields.len() {
        from
    } else {
        fields.len()
    };
    let end: usize = if len < fields.len() - start {
        start + len
    } else {
        fields.len()
    };
    let ghost all = fields_view(fields@);
    let mut r: Vec<Value> = Vec::new();
    let mut i: usize = start;
    while i < end
        invariant
            start <= i <= end <= fields@.len(),
            all == fields_view(fields@),
            r@ == field_values(all.subrange(start as int, i as int)),
        decreases end - i,
    {
        r.push(fields[i].1);
        i = i + 1;
        assert(field_values(all.subrange(start as int, i as int)) =~= field_values(
            all.subrange(start as int, i - 1),
        ).push(fields@[i - 1].1));
    }
    r
}

fn equal_within(h: &Host, a: Value, b: Value, fuel: usize) -> (r: Option<bool>)
    ensures
        r == eq_within(h@, a, b, fuel as nat),
    decreases fuel, 0int, 0int,
{
    match (a, b) {
        (Value::Obj(x), Value::Obj(y)) => {
            if x == y {
                return Some(true);
            }
            if fuel == 0 {
                return None;
            }
            match (h.obj(a), h.obj(b)) {
                (Some(oa), Some(ob)) => objects_equal_within(h, oa, ob, fuel - 1),
                _ => Some(false),
            }
        },
        _ => Some(scalars_equal(h, a, b)),
    }
}

fn objects_equal_within(h: &Host, a: &HeapObj, b: &HeapObj, fuel: usize) -> (r: Option<bool>)
    ensures
        r == obj_eq_within(h@, a@, b@, fuel as nat),
    decreases fuel, 3int, 0int,
{
    match (a, b) {
        (
            HeapObj::Instance { class: ca, is_data, fields: fa, data_from: da, data_len: la },
            HeapObj::Instance { class: cb, fields: fb, data_from: db, data_len: lb, .. },
        ) => {
            let xa: Vec<Value> = data_values(fa, *da, *la);
            let xb: Vec<Value> = data_values(fb, *db, *lb);
            if !*is_data || !same(ca.as_str(), cb.as_str()) || xa.len() != xb.len() {
                Some(false)
            } else {
                all_equal_within(h, &xa, &xb, fuel)
            }
        },
        (HeapObj::List(xa), HeapObj::List(xb)) => if xa.len() != xb.len() {
            Some(false)
        } else {
            all_equal_within(h, xa, xb, fuel)
        },
        (HeapObj::SetObj(xa), HeapObj::SetObj(xb)) => if xa.len() != xb.len() {
            Some(false)
        } else {
            each_member_within(h, xa, xb, fuel)
        },
        (HeapObj::Pair(a1, a2), HeapObj::Pair(b1, b2)) => {
            let xa: Vec<Value> = vec![*a1, *a2];
            let xb: Vec<Value> = vec![*b1, *b2];
            assert(xa@ =~= seq![*a1, *a2] && xb@ =~= seq![*b1, *b2]);
            all_equal_within(h, &xa, &xb, fuel)
        },
        (HeapObj::Entry(a1, a2), HeapObj::Entry(b1, b2)) => {
            let xa: Vec<Value> = vec![*a1, *a2];
            let xb: Vec<Value> = vec![*b1, *b2];
            assert(xa@ =~= seq![*a1, *a2] && xb@ =~= seq![*b1, *b2]);
            all_equal_within(h, &xa, &xb, fuel)
        },
        (HeapObj::Triple(a1, a2, a3), HeapObj::Triple(b1, b2, b3)) => {
            let xa: Vec<Value> = vec![*a1, *a2, *a3];
            let xb: Vec<Value> = vec![*b1, *b2, *b3];
            assert(xa@ =~= seq![*a1, *a2, *a3] && xb@ =~= seq![*b1, *b2, *b3]);
            all_equal_within(h, &xa, &xb, fuel)
        },
        (HeapObj::MapObj(ea), HeapObj::MapObj(eb)) => if ea.len() != eb.len() {
            Some(false)
        } else {
            each_entry_within(h, ea, eb, fuel)
        },
        (HeapObj::Range(ra), HeapObj::Range(rb)) => Some(ranges_equal(ra, rb)),
        _ => Some(false),
    }
}

fn ranges_equal(a: &RangeObj, b: &RangeObj) -> (r: bool)
    ensures
        r == range_eq(*a, *b),
{
    proof {
        if !a.is_void() {
            crate::range::law_last_is_an_element(*a);
        }
        if !b.is_void() {
            crate::range::law_last_is_an_element(*b);
        }
    }
    let ea: bool = a.count() == 0;
    let eb: bool = b.count() == 0;
    (ea && eb) || (!ea && !eb && a.first == b.first && a.last() == b.last() && a.step == b.step)
}

fn all_equal_within(h: &Host, xs: &Vec<Value>, ys: &Vec<Value>, fuel: usize) -> (r: Option<bool>)
    ensures
        r == all_eq_within(h@, xs@, ys@, 0, fuel as nat),
    decreases fuel, 1int, 0int,
{
    let mut i: usize = 0;
    while i < xs.len() && i < ys.len()
        invariant
            i <= xs@.len(),
            all_eq_within(h@, xs@, ys@, i as int, fuel as nat) == all_eq_within(
                h@,
                xs@,
                ys@,
                0,
                fuel as nat,
            ),
        decreases xs.len() - i,
    {
        match equal_within(h, xs[i], ys[i], fuel) {
            Some(true) => {},
            other => {
                return other;
            },
        }
        i = i + 1;
    }
    Some(true)
}

pub(crate) fn any_equal_within(h: &Host, x: Value, ys: &Vec<Value>, fuel: usize) -> (r: Option<bool>)
    ensures
        r == any_eq_within(h@, x, ys@, 0, fuel as nat),
    decreases fuel, 1int, 0int,
{
    let mut j: usize = 0;
    while j < ys.len()
        invariant
            j <= ys@.len(),
            any_eq_within(h@, x, ys@, j as int, fuel as nat) == any_eq_within(
                h@,
                x,
                ys@,
                0,
                fuel as nat,
            ),
        decreases ys.len() - j,
    {
        match equal_within(h, x, ys[j], fuel) {
            Some(false) => {},
            other => {
                return other;
            },
        }
        j = j + 1;
    }
    Some(false)
}

fn each_member_within(h: &Host, xs: &Vec<Value>, ys: &Vec<Value>, fuel: usize) -> (r: Option<bool>)
    ensures
        r == each_in_within(h@, xs@, ys@, 0, fuel as nat),
    decreases fuel, 2int, 0int,
{
    let mut i: usize = 0;
    while i < xs.len()
        invariant
            i <= xs@.len(),
            each_in_within(h@, xs@, ys@, i as int, fuel as nat) == each_in_within(
                h@,
                xs@,
                ys@,
                0,
                fuel as nat,
            ),
        decreases xs.len() - i,
    {
        match any_equal_within(h, xs[i], ys, fuel) {
            Some(true) => {},
            other => {
                return other;
            },
        }
        i = i + 1;
    }
    Some(true)
}

fn any_entry_equal_within(
    h: &Host,
    e: (Value, Value),
    es: &Vec<(Value, Value)>,
    fuel: usize,
) -> (r: Option<bool>)
    ensures
        r == any_entry_within(h@, e, es@, 0, fuel as nat),
    decreases fuel, 1int, 0int,
{
    let mut j: usize = 0;
    while j < es.len()
        invariant
            j <= es@.len(),
            any_entry_within(h@, e, es@, j as int, fuel as nat) == any_entry_within(
                h@,
                e,
                es@,
                0,
                fuel as nat,
            ),
        decreases es.len() - j,
    {
        match equal_within(h, e.0, es[j].0, fuel) {
            None => {
                return None;
            },
            Some(false) => {},
            Some(true) => match equal_within(h, e.1, es[j].1, fuel) {
                Some(false) => {},
                other => {
                    return other;
                },
            },
        }
        j = j + 1;
    }
    Some(false)
}

fn each_entry_within(
    h: &Host,
    xs: &Vec<(Value, Value)>,
    ys: &Vec<(Value, Value)>,
    fuel: usize,
) -> (r: Option<bool>)
    ensures
        r == entries_in_within(h@, xs@, ys@, 0, fuel as nat),
    decreases fuel, 2int, 0int,
{
    let mut i: usize = 0;
    while i < xs.len()
        invariant
            i <= xs@.len(),
            entries_in_within(h@, xs@, ys@, i as int, fuel as nat) == entries_in_within(
                h@,
                xs@,
                ys@,
                0,
                fuel as nat,
            ),
        decreases xs.len() - i,
    {
        match any_entry_equal_within(h, xs[i], ys, fuel) {
            Some(true) => {},
            other => {
                return other;
            },
        }
        i = i + 1;
    }
    Some(true)
}

/// Structural equality: `==` over heap objects (recursively) and value equality
/// over primitives. `None` when the two contain themselves and the comparison
/// has no end.
pub fn value_eq(h: &Host, a: Value, b: Value) -> (r: Option<bool>)
    ensures
        r == eq_within(h@, a, b, budget(h@)),
{
    equal_within(h, a, b, depth_budget(h))
}

pub(crate) fn value_eq_within(h: &Host, a: Value, b: Value, fuel: usize) -> (r: Option<bool>)
    ensures
        r == eq_within(h@, a, b, fuel as nat),
{
    equal_within(h, a, b, fuel)
}

// ── Hashing ─────────────────────────────────────────────────────────────────

/// Kotlin `Int.hashCode()`, the value itself, and `Long.hashCode()`, the fold of
/// the two 32-bit halves.
pub open spec fn int_hash_of(n: i64, long: bool) -> i32 {
    if long || n < i32::MIN || n > i32::MAX {
        (n ^ (((n as u64) >> 32) as i64)) as i32
    } else {
        n as i32
    }
}

/// One step of the polynomial hash: `31 * acc + e`, in 32 bits.
pub open spec fn hash_step(acc: i32, e: i32) -> i32 {
    acc.wrapping_mul(31).wrapping_add(e)
}

/// `String.hashCode()` over UTF-16 code units.
pub open spec fn units_hash(u: Seq<u16>) -> i32
    decreases u.len(),
{
    if u.len() == 0 {
        0
    } else {
        hash_step(units_hash(u.drop_last()), u.last() as i32)
    }
}

pub open spec fn text_hash(s: Seq<char>) -> i32 {
    units_hash(units_of(s))
}

/// Kotlin `Int.hashCode()` or `Long.hashCode()`. The two only disagree for a
/// negative number inside `Int` range; `long` carries the static answer.
pub fn int_hash(n: i64, long: bool) -> (r: i32)
    ensures
        r == int_hash_of(n, long),
{
    if long || n < i32::MIN as i64 || n > i32::MAX as i64 {
        (n ^ (((n as u64) >> 32) as i64)) as i32
    } else {
        n as i32
    }
}

/// `String.hashCode()`: `s[0]*31^(n-1) + s[1]*31^(n-2) + …` over UTF-16 code
/// units, in 32 bits.
pub fn string_hash(s: &str) -> (r: i32)
    ensures
        r == text_hash(s@),
{
    let u: Vec<u16> = units(s);
    let mut r: i32 = 0;
    let mut i: usize = 0;
    while i < u.len()
        invariant
            i <= u@.len(),
            r == units_hash(u@.take(i as int)),
        decreases u.len() - i,
    {
        assert(u@.take(i + 1).drop_last() =~= u@.take(i as int));
        r = r.wrapping_mul(31).wrapping_add(u[i] as i32);
        i = i + 1;
    }
    assert(u@.take(i as int) =~= u@);
    r
}

/// The hash of a value that is no heap object.
pub open spec fn scalar_hash(h: HostView, v: Value, long: bool) -> i32 {
    match code_of(v) {
        Some(c) => c as i32,
        None => match v {
            Value::Undef => 0,
            Value::Bool(b) => if b {
                1231
            } else {
                1237
            },
            Value::Int(n) => int_hash_of(n, long),
            Value::Float(id) => hash_of_bits(h.double(id).bits),
            Value::Str(id) => text_hash(h.text(id)),
            Value::Obj(id) => id as i32,
        },
    }
}

/// `hashCode()` within a nesting budget. The identity-hashed kinds answer their
/// handle.
pub open spec fn hash_within(h: HostView, v: Value, long: bool, fuel: nat) -> Option<i32>
    decreases fuel, 0int, 0int,
{
    if code_of(v) is Some {
        Some(scalar_hash(h, v, long))
    } else {
        match h.obj(v) {
            None => Some(scalar_hash(h, v, long)),
            Some(o) => if fuel == 0 {
                None
            } else {
                obj_hash_within(h, v, o, (fuel - 1) as nat)
            },
        }
    }
}

/// Whether the property number `i` of a class with the width mask `mask` is
/// declared `Long`.
pub open spec fn is_long_property(mask: Option<Seq<char>>, i: int) -> bool {
    mask matches Some(m) && 0 <= i < m.len() && m[i] == 'l'
}

/// The width mask of an instance's class.
pub open spec fn width_mask(h: HostView, class: Seq<char>) -> Option<Seq<char>> {
    if h.widths.contains_key(class) {
        Some(h.widths[class])
    } else {
        None
    }
}

/// The hash of an object.
pub open spec fn obj_hash_within(h: HostView, v: Value, o: ObjView, fuel: nat) -> Option<i32>
    decreases fuel, 2int, 0int,
{
    match o {
        ObjView::Instance { class, is_data, fields, data_from, data_len } => if is_data {
            let own = field_values(data_fields(fields, data_from, data_len));
            data_hash_within(h, own, width_mask(h, class), own.len() as int, fuel)
        } else {
            Some(scalar_hash(h, v, false))
        },
        ObjView::List(items) => fold_hash_within(h, items, items.len() as int, 1, fuel),
        ObjView::SetObj(items) => sum_hash_within(h, items, items.len() as int, fuel),
        ObjView::MapObj(entries) => entries_hash_within(h, entries, entries.len() as int, fuel),
        ObjView::Entry(k, x) => match (
            hash_within(h, k, false, fuel),
            hash_within(h, x, false, fuel),
        ) {
            (Some(a), Some(b)) => Some(a ^ b),
            _ => None,
        },
        ObjView::Pair(a, b) => data_hash_within(h, seq![a, b], None, 2, fuel),
        ObjView::Triple(a, b, c) => data_hash_within(h, seq![a, b, c], None, 3, fuel),
        ObjView::Range(r) => Some(range_hash(r)),
        _ => Some(scalar_hash(h, v, false)),
    }
}

/// The hash of a range: -1 when empty, else folded over the first element, the
/// last and, for a progression, the step.
pub open spec fn range_hash(r: RangeObj) -> i32 {
    if r.is_void() {
        -1i32 as i32
    } else {
        let base = hash_step(r.first as i32, (r.last_element() as i64) as i32);
        if r.progression {
            hash_step(base, r.step as i32)
        } else {
            base
        }
    }
}

/// The first `n` of `items` folded as a `List` is, from `seed`.
pub open spec fn fold_hash_within(
    h: HostView,
    items: Seq<Value>,
    n: int,
    seed: i32,
    fuel: nat,
) -> Option<i32>
    decreases fuel, 1int, n,
{
    if n <= 0 || n > items.len() {
        Some(seed)
    } else {
        match (
            fold_hash_within(h, items, n - 1, seed, fuel),
            hash_within(h, items[n - 1], false, fuel),
        ) {
            (Some(acc), Some(e)) => Some(hash_step(acc, e)),
            _ => None,
        }
    }
}

/// The first `n` properties of a data class, folded without a seed.
pub open spec fn data_hash_within(
    h: HostView,
    own: Seq<Value>,
    mask: Option<Seq<char>>,
    n: int,
    fuel: nat,
) -> Option<i32>
    decreases fuel, 1int, n,
{
    if n <= 0 || n > own.len() {
        Some(0)
    } else if n == 1 {
        hash_within(h, own[0], is_long_property(mask, 0), fuel)
    } else {
        match (
            data_hash_within(h, own, mask, n - 1, fuel),
            hash_within(h, own[n - 1], is_long_property(mask, n - 1), fuel),
        ) {
            (Some(acc), Some(e)) => Some(hash_step(acc, e)),
            _ => None,
        }
    }
}

/// The sum of the first `n` hashes of `items`.
pub open spec fn sum_hash_within(h: HostView, items: Seq<Value>, n: int, fuel: nat) -> Option<i32>
    decreases fuel, 1int, n,
{
    if n <= 0 || n > items.len() {
        Some(0)
    } else {
        match (
            sum_hash_within(h, items, n - 1, fuel),
            hash_within(h, items[n - 1], false, fuel),
        ) {
            (Some(acc), Some(e)) => Some(acc.wrapping_add(e)),
            _ => None,
        }
    }
}

/// The sum of the first `n` entry hashes, an entry's being `key ^ value`.
pub open spec fn entries_hash_within(
    h: HostView,
    es: Seq<(Value, Value)>,
    n: int,
    fuel: nat,
) -> Option<i32>
    decreases fuel, 1int, n,
{
    if n <= 0 || n > es.len() {
        Some(0)
    } else {
        match (
            entries_hash_within(h, es, n - 1, fuel),
            hash_within(h, es[n - 1].0, false, fuel),
            hash_within(h, es[n - 1].1, false, fuel),
        ) {
            (Some(acc), Some(k), Some(x)) => Some(acc.wrapping_add(k ^ x)),
            _ => None,
        }
    }
}

fn scalar_hashed(h: &Host, v: Value, long: bool) -> (r: i32)
    ensures
        r == scalar_hash(h@, v, long),
{
    if let Some(c) = char_code(&v) {
        return c as i32;
    }
    match v {
        Value::Undef => 0,
        Value::Bool(b) => if b {
            1231
        } else {
            1237
        },
        Value::Int(n) => int_hash(n, long),
        Value::Float(id) => double_hash(h.bits(id)),
        Value::Str(id) => string_hash(h.text(id)),
        Value::Obj(id) => id as i32,
    }
}

pub(crate) fn value_hash_within(h: &Host, v: Value, long: bool, fuel: usize) -> (r: Option<i32>)
    ensures
        r == hash_within(h@, v, long, fuel as nat),
    decreases fuel, 0int, 0int,
{
    if char_code(&v).is_some() {
        return Some(scalar_hashed(h, v, long));
    }
    match h.obj(v) {
        None => Some(scalar_hashed(h, v, long)),
        Some(o) => {
            if fuel == 0 {
                return None;
            }
            obj_hash(h, v, o, fuel - 1)
        },
    }
}

fn obj_hash(h: &Host, v: Value, o: &HeapObj, fuel: usize) -> (r: Option<i32>)
    ensures
        r == obj_hash_within(h@, v, o@, fuel as nat),
    decreases fuel, 2int, 0int,
{
    match o {
        HeapObj::Instance { class, is_data, fields, data_from, data_len } => if *is_data {
            let own: Vec<Value> = data_values(fields, *data_from, *data_len);
            let mask: Vec<char> = match h.widths.get(class.as_str()) {
                Some(m) => chars_of_str(m.as_str()),
                None => Vec::new(),
            };
            let ghost g = width_mask(h@, class@);
            assert(forall|i: int| is_long_property(g, i) == is_long_property(Some(mask@), i));
            data_hash(h, &own, &mask, Ghost(g), fuel)
        } else {
            Some(scalar_hashed(h, v, false))
        },
        HeapObj::List(items) => fold_hash(h, items, 1, fuel),
        HeapObj::SetObj(items) => sum_hash(h, items, fuel),
        HeapObj::MapObj(entries) => entries_hash(h, entries, fuel),
        HeapObj::Entry(k, x) => match (
            value_hash_within(h, *k, false, fuel),
            value_hash_within(h, *x, false, fuel),
        ) {
            (Some(a), Some(b)) => Some(a ^ b),
            _ => None,
        },
        HeapObj::Pair(a, b) => {
            let own: Vec<Value> = vec![*a, *b];
            assert(own@ =~= seq![*a, *b]);
            data_hash(h, &own, &Vec::new(), Ghost(None), fuel)
        },
        HeapObj::Triple(a, b, c) => {
            let own: Vec<Value> = vec![*a, *b, *c];
            assert(own@ =~= seq![*a, *b, *c]);
            data_hash(h, &own, &Vec::new(), Ghost(None), fuel)
        },
        HeapObj::Range(r) => {
            proof {
                if !r.is_void() {
                    crate::range::law_last_is_an_element(*r);
                }
            }
            if r.count() == 0 {
                return Some(-1);
            }
            let base: i32 = (r.first as i32).wrapping_mul(31).wrapping_add(r.last() as i32);
            if r.progression {
                Some(base.wrapping_mul(31).wrapping_add(r.step as i32))
            } else {
                Some(base)
            }
        },
        _ => Some(scalar_hashed(h, v, false)),
    }
}

fn fold_hash(h: &Host, items: &Vec<Value>, seed: i32, fuel: usize) -> (r: Option<i32>)
    ensures
        r == fold_hash_within(h@, items@, items@.len() as int, seed, fuel as nat),
    decreases fuel, 1int, 0int,
{
    let mut acc: Option<i32> = Some(seed);
    let mut i: usize = 0;
    while i < items.len()
        invariant
            i <= items@.len(),
            acc == fold_hash_within(h@, items@, i as int, seed, fuel as nat),
        decreases items.len() - i,
    {
        acc = match (acc, value_hash_within(h, items[i], false, fuel)) {
            (Some(a), Some(e)) => Some(a.wrapping_mul(31).wrapping_add(e)),
            _ => None,
        };
        i = i + 1;
    }
    acc
}

fn data_hash(
    h: &Host,
    own: &Vec<Value>,
    mask: &Vec<char>,
    Ghost(g): Ghost<Option<Seq<char>>>,
    fuel: usize,
) -> (r: Option<i32>)
    requires
        forall|i: int| is_long_property(g, i) == is_long_property(Some(mask@), i),
    ensures
        r == data_hash_within(h@, own@, g, own@.len() as int, fuel as nat),
    decreases fuel, 1int, 0int,
{
    let mut acc: Option<i32> = Some(0);
    let mut i: usize = 0;
    while i < own.len()
        invariant
            i <= own@.len(),
            forall|i: int| is_long_property(g, i) == is_long_property(Some(mask@), i),
            acc == data_hash_within(h@, own@, g, i as int, fuel as nat),
        decreases own.len() - i,
    {
        let long: bool = i < mask.len() && mask[i] == 'l';
        assert(long == is_long_property(Some(mask@), i as int));
        let e: Option<i32> = value_hash_within(h, own[i], long, fuel);
        acc = if i == 0 {
            e
        } else {
            match (acc, e) {
                (Some(a), Some(x)) => Some(a.wrapping_mul(31).wrapping_add(x)),
                _ => None,
            }
        };
        i = i + 1;
    }
    acc
}

fn sum_hash(h: &Host, items: &Vec<Value>, fuel: usize) -> (r: Option<i32>)
    ensures
        r == sum_hash_within(h@, items@, items@.len() as int, fuel as nat),
    decreases fuel, 1int, 0int,
{
    let mut acc: Option<i32> = Some(0);
    let mut i: usize = 0;
    while i < items.len()
        invariant
            i <= items@.len(),
            acc == sum_hash_within(h@, items@, i as int, fuel as nat),
        decreases items.len() - i,
    {
        acc = match (acc, value_hash_within(h, items[i], false, fuel)) {
            (Some(a), Some(e)) => Some(a.wrapping_add(e)),
            _ => None,
        };
        i = i + 1;
    }
    acc
}

fn entries_hash(h: &Host, es: &Vec<(Value, Value)>, fuel: usize) -> (r: Option<i32>)
    ensures
        r == entries_hash_within(h@, es@, es@.len() as int, fuel as nat),
    decreases fuel, 1int, 0int,
{
    let mut acc: Option<i32> = Some(0);
    let mut i: usize = 0;
    while i < es.len()
        invariant
            i <= es@.len(),
            acc == entries_hash_within(h@, es@, i as int, fuel as nat),
        decreases es.len() - i,
    {
        acc = match (
            acc,
            value_hash_within(h, es[i].0, false, fuel),
            value_hash_within(h, es[i].1, false, fuel),
        ) {
            (Some(a), Some(k), Some(x)) => Some(a.wrapping_add(k ^ x)),
            _ => None,
        };
        i = i + 1;
    }
    acc
}

/// Kotlin's `hashCode()` for any value, following the JVM contract exactly so
/// that a hash is reproducible across runs. `long` resolves the `Int`/`Long`
/// ambiguity for the receiver only. `None` when the value contains itself and
/// the fold has no end.
pub fn value_hash(h: &Host, v: Value, long: bool) -> (r: Option<i32>)
    ensures
        r == hash_within(h@, v, long, budget(h@)),
{
    value_hash_within(h, v, long, depth_budget(h))
}

} // verus!
