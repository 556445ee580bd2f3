//! Run-time types: labels, `is` and `as`, and the natural order of values.
use crate::display::find_field;
use crate::double::double_compare;
use crate::host::{Host, ListImpl};
use crate::text::{chars_of_str, concat2, concat3, concat5, same, string_of};
use crate::throwable::throwable_is_a;
use crate::value::{is_char, HeapObj, Value};
use vstd::prelude::*;

verus! {

use crate::display::field_named;
use crate::double::{sign_of_difference, total_position};
use crate::host::HostView;
use crate::throwable::is_a;
use crate::value::{code_of, ObjView};

// ── Names ───────────────────────────────────────────────────────────────────

/// The part of `s` behind its last `.`.
pub open spec fn last_segment(s: Seq<char>) -> Seq<char>
    decreases s.len(),
{
    if s.len() == 0 {
        s
    } else if s.last() == '.' {
        Seq::empty()
    } else {
        last_segment(s.drop_last()).push(s.last())
    }
}

/// The part of `s` behind its last `.`.
pub fn simple_name(s: &str) -> (r: String)
    ensures
        r@ == last_segment(s@),
{
    let v: Vec<char> = chars_of_str(s);
    let mut i: usize = v.len();
    proof {
        assert(v@.take(v@.len() as int) =~= v@);
        assert(v@.subrange(v@.len() as int, v@.len() as int) =~= Seq::empty());
        assert(last_segment(v@) + Seq::<char>::empty() =~= last_segment(v@));
    }
    while i > 0 && v[i - 1] != '.'
        invariant
            i <= v@.len(),
            last_segment(v@) == last_segment(v@.take(i as int)) + v@.subrange(
                i as int,
                v@.len() as int,
            ),
        decreases i,
    {
        proof {
            let t = v@.take(i as int);
            assert(t.drop_last() =~= v@.take(i - 1));
            assert(t.last() == v@[i - 1]);
            assert(last_segment(t) + v@.subrange(i as int, v@.len() as int) =~= last_segment(
                v@.take(i - 1),
            ) + v@.subrange(i - 1, v@.len() as int));
        }
        i = i - 1;
    }
    proof {
        let t = v@.take(i as int);
        if i > 0 {
            assert(t.last() == v@[i - 1]);
        }
        assert(last_segment(t) =~= Seq::empty());
        assert(Seq::<char>::empty() + v@.subrange(i as int, v@.len() as int) =~= v@.subrange(
            i as int,
            v@.len() as int,
        ));
    }
    string_of(&v, i, v.len())
}

/// A coarse label for a value, for diagnostics.
pub open spec fn label_of(h: HostView, v: Value) -> Seq<char> {
    if v is Str {
        "String"@
    } else if code_of(v) is Some {
        "Char"@
    } else {
        match h.obj(v) {
            None => "value"@,
            Some(o) => match o {
                ObjView::Instance { class, .. } => class,
                ObjView::List(_) => "List"@,
                ObjView::SetObj(_) => "Set"@,
                ObjView::MapObj(_) => "Map"@,
                ObjView::Pair(_, _) => "Pair"@,
                ObjView::Triple(_, _, _) => "Triple"@,
                ObjView::Lazy { .. } => "Lazy"@,
                ObjView::Res { .. } => "Result"@,
                ObjView::Entry(_, _) => "Map.Entry"@,
                ObjView::Closure { .. } => "Function"@,
                ObjView::Comparator(_) => "Comparator"@,
                ObjView::Gen { .. } => "Sequence"@,
                ObjView::Grouping { .. } => "Grouping"@,
                ObjView::Range(r) => if r.is_char {
                    if r.progression {
                        "CharProgression"@
                    } else {
                        "CharRange"@
                    }
                } else if r.progression {
                    "IntProgression"@
                } else {
                    "IntRange"@
                },
                ObjView::Array { .. } => "Array"@,
                ObjView::Builder { .. } => "StringBuilder"@,
                ObjView::Exc { class, .. } => last_segment(class),
            },
        }
    }
}

/// A coarse label for a value, for `unresolved reference` diagnostics.
pub fn obj_label(h: &Host, v: Value) -> (s: String)
    ensures
        s@ == label_of(h@, v),
{
    if let Value::Str(_) = v {
        return "String".to_owned();
    }
    if is_char(&v) {
        return "Char".to_owned();
    }
    match h.obj(v) {
        None => "value".to_owned(),
        Some(o) => match o {
            HeapObj::Instance { class, .. } => class.as_str().to_owned(),
            HeapObj::List(_) => "List".to_owned(),
            HeapObj::SetObj(_) => "Set".to_owned(),
            HeapObj::MapObj(_) => "Map".to_owned(),
            HeapObj::Pair(_, _) => "Pair".to_owned(),
            HeapObj::Triple(_, _, _) => "Triple".to_owned(),
            HeapObj::Lazy { .. } => "Lazy".to_owned(),
            HeapObj::Res { .. } => "Result".to_owned(),
            HeapObj::Entry(_, _) => "Map.Entry".to_owned(),
            HeapObj::Closure { .. } => "Function".to_owned(),
            HeapObj::Comparator(_) => "Comparator".to_owned(),
            HeapObj::Gen { .. } => "Sequence".to_owned(),
            HeapObj::Grouping { .. } => "Grouping".to_owned(),
            HeapObj::Range(r) => if r.is_char {
                if r.progression {
                    "CharProgression".to_owned()
                } else {
                    "CharRange".to_owned()
                }
            } else if r.progression {
                "IntProgression".to_owned()
            } else {
                "IntRange".to_owned()
            },
            HeapObj::Array { .. } => "Array".to_owned(),
            HeapObj::Builder { .. } => "StringBuilder".to_owned(),
            HeapObj::Exc { class, .. } => simple_name(class.as_str()),
        },
    }
}

/// A coarse type label for a receiver that is no heap object.
pub open spec fn scalar_label(v: Value) -> Seq<char> {
    match v {
        Value::Bool(_) => "Boolean"@,
        Value::Int(_) => "Int"@,
        Value::Float(_) => "Double"@,
        Value::Str(_) => "String"@,
        _ => if code_of(v) is Some {
            "Char"@
        } else {
            "value"@
        },
    }
}

/// A coarse Kotlin type label for `v`, for the `unresolved reference`
/// diagnostic.
pub fn type_label(v: Value) -> (s: &'static str)
    ensures
        s@ == scalar_label(v),
{
    match v {
        Value::Bool(_) => "Boolean",
        Value::Int(_) => "Int",
        Value::Float(_) => "Double",
        Value::Str(_) => "String",
        _ => if is_char(&v) {
            "Char"
        } else {
            "value"
        },
    }
}

// ── Throwables and enums ────────────────────────────────────────────────────

/// The simple class name used for `catch` matching.
pub open spec fn thrown_name(h: HostView, v: Value) -> Option<Seq<char>> {
    match h.obj(v) {
        Some(ObjView::Exc { class, .. }) => Some(last_segment(class)),
        Some(ObjView::Instance { class, .. }) => if h.class_is_throwable(class) {
            Some(class)
        } else {
            None
        },
        _ => None,
    }
}

/// The simple class name used for `catch` matching: a built-in throwable's last
/// path segment, or a user class's declared name when its ancestry reaches
/// `Throwable`.
pub fn thrown_class(h: &Host, v: Value) -> (r: Option<String>)
    ensures
        crate::value::opt_text(r) == thrown_name(h@, v),
{
    match h.obj(v) {
        Some(HeapObj::Exc { class, .. }) => Some(simple_name(class.as_str())),
        Some(HeapObj::Instance { class, .. }) => if h.type_is_throwable(class.as_str()) {
            Some(class.as_str().to_owned())
        } else {
            None
        },
        _ => None,
    }
}

/// Whether the throwable `v` is an instance of the caught type `want`.
pub open spec fn caught_by(h: HostView, v: Value, want: Seq<char>) -> bool {
    ||| h.class_of(v) matches Some(class) && h.class_is_throwable(class) && h.class_is(class, want)
    ||| thrown_name(h, v) matches Some(name) && is_a(name, want)
}

/// Whether the in-flight throwable `v` is an instance of the caught type `want`.
/// A built-in walks the fixed class hierarchy; a user class walks the supertypes
/// it registered.
pub fn throwable_matches(h: &Host, v: Value, want: &str) -> (r: bool)
    ensures
        r == caught_by(h@, v, want@),
{
    if let Some(HeapObj::Instance { class, .. }) = h.obj(v) {
        if h.type_is_throwable(class.as_str()) && h.type_is_a(class.as_str(), want) {
            return true;
        }
    }
    match thrown_class(h, v) {
        Some(name) => throwable_is_a(name.as_str(), want),
        None => false,
    }
}

/// The `ordinal` an enum constant carries.
pub open spec fn ordinal_of(h: HostView, v: Value) -> Option<int> {
    match h.obj(v) {
        Some(ObjView::Instance { class, fields, .. }) => if h.class_is_enum(class) {
            match field_named(fields, "ordinal"@) {
                Some(x) => Some(h.num_of(x)),
                None => None,
            }
        } else {
            None
        },
        _ => None,
    }
}

/// The `ordinal` an enum constant carries, or `None` for anything else.
pub fn enum_ordinal(h: &Host, v: Value) -> (r: Option<i64>)
    ensures
        match r {
            Some(n) => ordinal_of(h@, v) == Some(n as int),
            None => ordinal_of(h@, v) is None,
        },
{
    match h.obj(v) {
        Some(HeapObj::Instance { class, fields, .. }) => if h.is_enum_class(class.as_str()) {
            match find_field(fields, "ordinal") {
                Some(x) => Some(h.num_of(x)),
                None => None,
            }
        } else {
            None
        },
        _ => None,
    }
}

// ── Natural order ───────────────────────────────────────────────────────────

/// How two texts compare by their characters: -1, 0 or 1.
pub open spec fn text_order(a: Seq<char>, b: Seq<char>) -> int
    decreases a.len(),
{
    if a.len() == 0 || b.len() == 0 {
        sign_of_difference(a.len() as int, b.len() as int)
    } else if a[0] == b[0] {
        text_order(a.skip(1), b.skip(1))
    } else {
        sign_of_difference(a[0] as int, b[0] as int)
    }
}

/// How two texts compare by their characters: -1, 0 or 1.
pub fn compare_text(a: &str, b: &str) -> (r: i8)
    ensures
        r == text_order(a@, b@),
{
    let x: Vec<char> = chars_of_str(a);
    let y: Vec<char> = chars_of_str(b);
    let mut i: usize = 0;
    assert(x@.skip(0) =~= x@ && y@.skip(0) =~= y@);
    while i < x.len() && i < y.len()
        invariant
            i <= x@.len(),
            i <= y@.len(),
            x@ == a@,
            y@ == b@,
            text_order(x@.skip(i as int), y@.skip(i as int)) == text_order(x@, y@),
        decreases x.len() - i,
    {
        assert(x@.skip(i as int)[0] == x@[i as int] && y@.skip(i as int)[0] == y@[i as int]);
        assert(x@.skip(i as int).skip(1) =~= x@.skip(i + 1));
        assert(y@.skip(i as int).skip(1) =~= y@.skip(i + 1));
        if x[i] != y[i] {
            proof {
                crate::text::lemma_char_code(x@[i as int]);
                crate::text::lemma_char_code(y@[i as int]);
            }
            return if (x[i] as u32) < (y[i] as u32) {
                -1
            } else {
                1
            };
        }
        i = i + 1;
    }
    if x.len() < y.len() {
        -1
    } else if x.len() == y.len() {
        0
    } else {
        1
    }
}

/// How two values compare in their natural order: -1, 0 or 1. Texts compare by
/// their characters, enum constants by declaration, characters and integers as
/// numbers, and the rest as doubles.
pub open spec fn natural_order(h: HostView, a: Value, b: Value) -> int {
    match (a, b) {
        (Value::Str(x), Value::Str(y)) => text_order(h.text(x), h.text(y)),
        _ => match (ordinal_of(h, a), ordinal_of(h, b)) {
            (Some(x), Some(y)) => sign_of_difference(x, y),
            _ => scalar_order(h, a, b),
        },
    }
}

/// [`natural_order`] for everything that is neither text nor an enum constant.
pub open spec fn scalar_order(h: HostView, a: Value, b: Value) -> int {
    if code_of(a) is Some || code_of(b) is Some {
        sign_of_difference(h.num_of(a), h.num_of(b))
    } else {
        match (a, b) {
            (Value::Int(x), Value::Int(y)) => sign_of_difference(x as int, y as int),
            (Value::Bool(x), Value::Bool(y)) => if x == y {
                0
            } else if y {
                -1
            } else {
                1
            },
            _ => sign_of_difference(total_position(h.to_double(a)), total_position(h.to_double(b))),
        }
    }
}

fn sign_of(a: i64, b: i64) -> (r: i8)
    ensures
        r == sign_of_difference(a as int, b as int),
{
    if a < b {
        -1
    } else if a == b {
        0
    } else {
        1
    }
}

/// Total order over comparable values: -1, 0 or 1.
pub fn value_order(h: &Host, a: Value, b: Value) -> (r: i8)
    ensures
        r == natural_order(h@, a, b),
{
    if let Value::Str(x) = a {
        if let Value::Str(y) = b {
            return compare_text(h.text(x), h.text(y));
        }
    }
    match (enum_ordinal(h, a), enum_ordinal(h, b)) {
        (Some(x), Some(y)) => sign_of(x, y),
        _ => value_order_scalar(h, a, b),
    }
}

/// [`value_order`] for everything that is neither text nor an enum constant.
/// Integral operands compare as integers: as doubles, two `Long`s that differ
/// past the 53-bit mantissa would collapse.
pub fn value_order_scalar(h: &Host, a: Value, b: Value) -> (r: i8)
    ensures
        r == scalar_order(h@, a, b),
{
    if is_char(&a) || is_char(&b) {
        return sign_of(h.num_of(a), h.num_of(b));
    }
    match (a, b) {
        (Value::Int(x), Value::Int(y)) => sign_of(x, y),
        (Value::Bool(x), Value::Bool(y)) => if x == y {
            0
        } else if y {
            -1
        } else {
            1
        },
        _ => double_compare(h.to_double(a), h.to_double(b)),
    }
}

// ── Type tests ──────────────────────────────────────────────────────────────

/// Whether `v`'s run-time kind matches the Kotlin type name `ty`.
pub open spec fn is_type(h: HostView, v: Value, ty: Seq<char>) -> bool {
    let o = h.obj(v);
    if ty == "Char"@ {
        code_of(v) is Some
    } else if ty == "Int"@ || ty == "Long"@ || ty == "Byte"@ || ty == "Short"@ {
        v is Int
    } else if ty == "Double"@ || ty == "Float"@ {
        v is Float
    } else if ty == "Boolean"@ {
        v is Bool
    } else if ty == "String"@ {
        v is Str
    } else if ty == "CharSequence"@ {
        v is Str || (o is Some && o->0 is Builder)
    } else if ty == "StringBuilder"@ || ty == "StringBuffer"@ || ty == "Appendable"@ {
        o is Some && o->0 is Builder
    } else if ty == "Any"@ {
        !(v is Undef)
    } else if ty == "List"@ || ty == "MutableList"@ {
        o is Some && o->0 is List
    } else if ty == "Iterable"@ || ty == "Collection"@ {
        o is Some && (o->0 is List || o->0 is SetObj || o->0 is Range)
    } else if ty == "Set"@ || ty == "MutableSet"@ {
        o is Some && o->0 is SetObj
    } else if ty == "Map"@ || ty == "MutableMap"@ {
        o is Some && o->0 is MapObj
    } else if ty == "Pair"@ {
        o is Some && o->0 is Pair
    } else if ty == "Triple"@ {
        o is Some && o->0 is Triple
    } else if ty == "Array"@ || ty == "IntArray"@ || ty == "DoubleArray"@ || ty == "CharArray"@ || ty
        == "BooleanArray"@ {
        o is Some && o->0 is Array
    } else {
        match h.class_of(v) {
            Some(class) => h.class_is(class, ty),
            None => thrown_name(h, v) matches Some(name) && (ty == "Throwable"@ || is_a(name, ty)),
        }
    }
}

/// Whether `v`'s run-time kind matches the Kotlin type name `ty`; backs `is`.
/// Type arguments are erased, so only the container kind is tested. A `Set` is a
/// `Collection` but no `List`, and a `StringBuilder` a `CharSequence` but no
/// `String`.
pub fn value_is_type(h: &Host, v: Value, ty: &str) -> (r: bool)
    ensures
        r == is_type(h@, v, ty@),
{
    if same(ty, "Char") {
        is_char(&v)
    } else if same(ty, "Int") || same(ty, "Long") || same(ty, "Byte") || same(ty, "Short") {
        matches!(v, Value::Int(_))
    } else if same(ty, "Double") || same(ty, "Float") {
        matches!(v, Value::Float(_))
    } else if same(ty, "Boolean") {
        matches!(v, Value::Bool(_))
    } else if same(ty, "String") {
        matches!(v, Value::Str(_))
    } else if same(ty, "CharSequence") {
        matches!(v, Value::Str(_)) || matches!(h.obj(v), Some(HeapObj::Builder { .. }))
    } else if same(ty, "StringBuilder") || same(ty, "StringBuffer") || same(ty, "Appendable") {
        matches!(h.obj(v), Some(HeapObj::Builder { .. }))
    } else if same(ty, "Any") {
        !matches!(v, Value::Undef)
    } else if same(ty, "List") || same(ty, "MutableList") {
        matches!(h.obj(v), Some(HeapObj::List(_)))
    } else if same(ty, "Iterable") || same(ty, "Collection") {
        match h.obj(v) {
            Some(HeapObj::List(_)) => true,
            Some(HeapObj::SetObj(_)) => true,
            Some(HeapObj::Range(_)) => true,
            _ => false,
        }
    } else if same(ty, "Set") || same(ty, "MutableSet") {
        matches!(h.obj(v), Some(HeapObj::SetObj(_)))
    } else if same(ty, "Map") || same(ty, "MutableMap") {
        matches!(h.obj(v), Some(HeapObj::MapObj(_)))
    } else if same(ty, "Pair") {
        matches!(h.obj(v), Some(HeapObj::Pair(_, _)))
    } else if same(ty, "Triple") {
        matches!(h.obj(v), Some(HeapObj::Triple(_, _, _)))
    } else if same(ty, "Array") || same(ty, "IntArray") || same(ty, "DoubleArray") || same(
        ty,
        "CharArray",
    ) || same(ty, "BooleanArray") {
        matches!(h.obj(v), Some(HeapObj::Array { .. }))
    } else {
        match h.obj(v) {
            Some(HeapObj::Instance { class, .. }) => h.type_is_a(class.as_str(), ty),
            _ => match thrown_class(h, v) {
                Some(name) => same(ty, "Throwable") || throwable_is_a(name.as_str(), ty),
                None => false,
            },
        }
    }
}

// ── JVM class names ─────────────────────────────────────────────────────────

/// The JVM class that a Kotlin type name stands for, when it stands for one.
/// All of these live in `java.base`.
pub open spec fn boxed_class(ty: Seq<char>) -> Option<Seq<char>> {
    if ty == "Int"@ {
        Some("java.lang.Integer"@)
    } else if ty == "Long"@ {
        Some("java.lang.Long"@)
    } else if ty == "Short"@ {
        Some("java.lang.Short"@)
    } else if ty == "Byte"@ {
        Some("java.lang.Byte"@)
    } else if ty == "Double"@ {
        Some("java.lang.Double"@)
    } else if ty == "Float"@ {
        Some("java.lang.Float"@)
    } else if ty == "Boolean"@ {
        Some("java.lang.Boolean"@)
    } else if ty == "Char"@ {
        Some("java.lang.Character"@)
    } else if ty == "String"@ {
        Some("java.lang.String"@)
    } else if ty == "StringBuilder"@ {
        Some("java.lang.StringBuilder"@)
    } else {
        None
    }
}

/// The JVM binary name of the class `ty` names, when it names exactly one. Each
/// of them lives in `java.base`.
pub fn jvm_class(ty: &str) -> (r: Option<&'static str>)
    ensures
        match r {
            Some(n) => boxed_class(ty@) == Some(n@),
            None => boxed_class(ty@) is None,
        },
{
    if same(ty, "Int") {
        Some("java.lang.Integer")
    } else if same(ty, "Long") {
        Some("java.lang.Long")
    } else if same(ty, "Short") {
        Some("java.lang.Short")
    } else if same(ty, "Byte") {
        Some("java.lang.Byte")
    } else if same(ty, "Double") {
        Some("java.lang.Double")
    } else if same(ty, "Float") {
        Some("java.lang.Float")
    } else if same(ty, "Boolean") {
        Some("java.lang.Boolean")
    } else if same(ty, "Char") {
        Some("java.lang.Character")
    } else if same(ty, "String") {
        Some("java.lang.String")
    } else if same(ty, "StringBuilder") {
        Some("java.lang.StringBuilder")
    } else {
        None
    }
}

/// The JVM class of an object whose provenance is recorded, and whether it lives
/// in `java.base`.
pub open spec fn object_class(h: HostView, v: Value) -> Option<(Seq<char>, bool)> {
    match h.obj(v) {
        Some(ObjView::Array { desc, .. }) => Some((desc, true)),
        Some(ObjView::List(items)) => Some(
            match h.list_tag(v) {
                None => ("java.util.ArrayList"@, true),
                Some(ListImpl::Builder) => ("kotlin.collections.builders.ListBuilder"@, false),
                Some(t) => if items.len() == 0 {
                    ("kotlin.collections.EmptyList"@, false)
                } else if items.len() == 1 {
                    ("java.util.Collections$SingletonList"@, true)
                } else if t == ListImpl::ReadOnly {
                    ("java.util.ArrayList"@, true)
                } else {
                    ("java.util.Arrays$ArrayList"@, true)
                },
            },
        ),
        Some(ObjView::Pair(_, _)) => Some(("kotlin.Pair"@, false)),
        Some(ObjView::Triple(_, _, _)) => Some(("kotlin.Triple"@, false)),
        Some(ObjView::Range(r)) => Some(
            (
                if r.is_char {
                    if r.progression {
                        "kotlin.ranges.CharProgression"@
                    } else {
                        "kotlin.ranges.CharRange"@
                    }
                } else if r.progression {
                    "kotlin.ranges.IntProgression"@
                } else {
                    "kotlin.ranges.IntRange"@
                },
                false,
            ),
        ),
        _ => None,
    }
}

/// A class name and its home as mathematical values.
pub open spec fn class_view(c: Option<(String, bool)>) -> Option<(Seq<char>, bool)> {
    match c {
        Some((n, b)) => Some((n@, b)),
        None => None,
    }
}

/// The JVM binary name of the class a run-time value is, and whether it lives in
/// `java.base`. A list answers by the provenance recorded for it.
pub fn runtime_jvm_class(h: &Host, v: Value) -> (r: Option<(String, bool)>)
    ensures
        class_view(r) == object_class(h@, v),
{
    match h.obj(v) {
        Some(HeapObj::Array { desc, .. }) => Some((desc.as_str().to_owned(), true)),
        Some(HeapObj::List(items)) => match h.list_tag(v) {
            None => Some(("java.util.ArrayList".to_owned(), true)),
            Some(ListImpl::Builder) => Some(
                ("kotlin.collections.builders.ListBuilder".to_owned(), false),
            ),
            Some(t) => if items.len() == 0 {
                Some(("kotlin.collections.EmptyList".to_owned(), false))
            } else if items.len() == 1 {
                Some(("java.util.Collections$SingletonList".to_owned(), true))
            } else if t == ListImpl::ReadOnly {
                Some(("java.util.ArrayList".to_owned(), true))
            } else {
                Some(("java.util.Arrays$ArrayList".to_owned(), true))
            },
        },
        Some(HeapObj::Pair(_, _)) => Some(("kotlin.Pair".to_owned(), false)),
        Some(HeapObj::Triple(_, _, _)) => Some(("kotlin.Triple".to_owned(), false)),
        Some(HeapObj::Range(r)) => if r.is_char {
            if r.progression {
                Some(("kotlin.ranges.CharProgression".to_owned(), false))
            } else {
                Some(("kotlin.ranges.CharRange".to_owned(), false))
            }
        } else if r.progression {
            Some(("kotlin.ranges.IntProgression".to_owned(), false))
        } else {
            Some(("kotlin.ranges.IntRange".to_owned(), false))
        },
        _ => None,
    }
}

/// Where a class lives, as the JVM's `ClassCastException` spells it.
pub open spec fn home_of(java_base: bool) -> Seq<char> {
    if java_base {
        "module java.base of loader 'bootstrap'"@
    } else {
        "unnamed module of loader 'app'"@
    }
}

/// Where a class lives, as the JVM's `ClassCastException` spells it.
pub fn class_home(java_base: bool) -> (s: &'static str)
    ensures
        s@ == home_of(java_base),
{
    if java_base {
        "module java.base of loader 'bootstrap'"
    } else {
        "unnamed module of loader 'app'"
    }
}

/// Whether `ty` names a built-in container or a whole family of types, whose
/// JVM class is not fixed.
pub open spec fn is_family_name(ty: Seq<char>) -> bool {
    ||| ty == "Any"@
    ||| ty == "Unit"@
    ||| ty == "Nothing"@
    ||| ty == "Number"@
    ||| ty == "Comparable"@
    ||| ty == "CharSequence"@
    ||| ty == "StringBuffer"@
    ||| ty == "Appendable"@
    ||| ty == "List"@
    ||| ty == "MutableList"@
    ||| ty == "Iterable"@
    ||| ty == "Collection"@
    ||| ty == "Set"@
    ||| ty == "MutableSet"@
    ||| ty == "Map"@
    ||| ty == "MutableMap"@
    ||| ty == "Pair"@
    ||| ty == "Triple"@
    ||| ty == "Array"@
    ||| ty == "IntArray"@
    ||| ty == "DoubleArray"@
    ||| ty == "CharArray"@
    ||| ty == "BooleanArray"@
}

/// Whether `ty` names a built-in container or a whole family of types. Their JVM
/// class is not fixed, so a failed cast to one keeps the short Kotlin label.
pub fn is_builtin_type_name(ty: &str) -> (r: bool)
    ensures
        r == is_family_name(ty@),
{
    same(ty, "Any") || same(ty, "Unit") || same(ty, "Nothing") || same(ty, "Number") || same(
        ty,
        "Comparable",
    ) || same(ty, "CharSequence") || same(ty, "StringBuffer") || same(ty, "Appendable") || same(
        ty,
        "List",
    ) || same(ty, "MutableList") || same(ty, "Iterable") || same(ty, "Collection") || same(
        ty,
        "Set",
    ) || same(ty, "MutableSet") || same(ty, "Map") || same(ty, "MutableMap") || same(ty, "Pair")
        || same(ty, "Triple") || same(ty, "Array") || same(ty, "IntArray") || same(
        ty,
        "DoubleArray",
    ) || same(ty, "CharArray") || same(ty, "BooleanArray")
}

/// The class that a failed cast names for its operand.
pub open spec fn operand_class(h: HostView, v: Value) -> Option<(Seq<char>, bool)> {
    match boxed_class(label_of(h, v)) {
        Some(n) => Some((n, true)),
        None => match v {
            Value::Int(_) => Some(("java.lang.Integer"@, true)),
            Value::Float(_) => Some(("java.lang.Double"@, true)),
            Value::Bool(_) => Some(("java.lang.Boolean"@, true)),
            _ => match object_class(h, v) {
                Some(c) => Some(c),
                None => match h.class_of(v) {
                    Some(class) => Some((class, false)),
                    None => None,
                },
            },
        },
    }
}

/// The class that a failed cast names for its target.
pub open spec fn target_class(ty: Seq<char>) -> Option<(Seq<char>, bool)> {
    match boxed_class(ty) {
        Some(n) => Some((n, true)),
        None => if is_family_name(ty) {
            None
        } else {
            Some((ty, false))
        },
    }
}

/// The `ClassCastException` a failed `as` raises: both classes in full and where
/// each lives, merged when they agree; short labels when one is not known.
pub open spec fn cast_message(h: HostView, v: Value, ty: Seq<char>) -> Seq<char> {
    match (operand_class(h, v), target_class(ty)) {
        (Some((a, x)), Some((b, y))) => {
            let home = if x == y {
                a + " and "@ + b + " are in "@ + home_of(x)
            } else {
                a + " is in "@ + home_of(x) + "; "@ + (b + " is in "@ + home_of(y))
            };
            "java.lang.ClassCastException: class "@ + a + " cannot be cast to class "@ + b + (" ("@
                + home + ")"@)
        },
        _ => "java.lang.ClassCastException: class "@ + label_of(h, v) + " cannot be cast to class "@
            + ty,
    }
}

fn operand_class_of(h: &Host, v: Value) -> (r: Option<(String, bool)>)
    ensures
        class_view(r) == operand_class(h@, v),
{
    let label: String = obj_label(h, v);
    match jvm_class(label.as_str()) {
        Some(n) => Some((n.to_owned(), true)),
        None => match v {
            Value::Int(_) => Some(("java.lang.Integer".to_owned(), true)),
            Value::Float(_) => Some(("java.lang.Double".to_owned(), true)),
            Value::Bool(_) => Some(("java.lang.Boolean".to_owned(), true)),
            _ => match runtime_jvm_class(h, v) {
                Some(c) => Some(c),
                None => match h.obj(v) {
                    Some(HeapObj::Instance { class, .. }) => Some(
                        (class.as_str().to_owned(), false),
                    ),
                    _ => None,
                },
            },
        },
    }
}

fn target_class_of(ty: &str) -> (r: Option<(String, bool)>)
    ensures
        class_view(r) == target_class(ty@),
{
    match jvm_class(ty) {
        Some(n) => Some((n.to_owned(), true)),
        None => if is_builtin_type_name(ty) {
            None
        } else {
            Some((ty.to_owned(), false))
        },
    }
}

/// The `ClassCastException` a failed `as` raises. The JVM names both classes in
/// full and appends where each one lives, merging the two locations when they
/// agree. Falls back to the short Kotlin labels when either side is a kind that
/// cannot be named exactly.
pub fn cast_failure(h: &Host, v: Value, ty: &str) -> (s: String)
    ensures
        s@ == cast_message(h@, v, ty@),
{
    match (operand_class_of(h, v), target_class_of(ty)) {
        (Some((a, x)), Some((b, y))) => {
            let home: String = if x == y {
                concat5(a.as_str(), " and ", b.as_str(), " are in ", class_home(x))
            } else {
                let left: String = concat3(a.as_str(), " is in ", class_home(x));
                let right: String = concat3(b.as_str(), " is in ", class_home(y));
                concat3(left.as_str(), "; ", right.as_str())
            };
            let place: String = concat3(" (", home.as_str(), ")");
            let head: String = concat2("java.lang.ClassCastException: class ", a.as_str());
            let tail: String = concat3(" cannot be cast to class ", b.as_str(), place.as_str());
            let s: String = concat2(head.as_str(), tail.as_str());
            assert(s@ =~= cast_message(h@, v, ty@));
            s
        },
        _ => {
            let label: String = obj_label(h, v);
            let head: String = concat2("java.lang.ClassCastException: class ", label.as_str());
            concat3(head.as_str(), " cannot be cast to class ", ty)
        },
    }
}

// ── Laws ────────────────────────────────────────────────────────────────────

/// Enum constants are ordered as they were declared.
pub proof fn law_enums_order_by_declaration(h: HostView, a: Value, b: Value)
    requires
        ordinal_of(h, a) is Some,
        ordinal_of(h, b) is Some,
    ensures
        natural_order(h, a, b) == sign_of_difference(ordinal_of(h, a)->0, ordinal_of(h, b)->0),
{
}

/// The natural order of texts is a total order: it turns with its operands, only
/// equal texts tie, and it chains.
pub proof fn law_text_order_is_total(a: Seq<char>, b: Seq<char>, c: Seq<char>)
    ensures
        text_order(a, b) == -text_order(b, a),
        text_order(a, b) == 0 <==> a == b,
        text_order(a, b) <= 0 && text_order(b, c) <= 0 ==> text_order(a, c) <= 0,
    decreases a.len(),
{
    if a.len() > 0 && b.len() > 0 {
        if c.len() > 0 {
            law_text_order_is_total(a.skip(1), b.skip(1), c.skip(1));
        } else {
            law_text_order_is_total(a.skip(1), b.skip(1), c);
        }
        if a[0] == b[0] && a.skip(1) == b.skip(1) {
            assert(a =~= seq![a[0]] + a.skip(1));
            assert(b =~= seq![b[0]] + b.skip(1));
        }
    } else if a.len() == b.len() {
        assert(a =~= b);
    }
}

} // verus!
