//! Run-time values and the objects a handle stands for.
use crate::range::RangeObj;
use vstd::prelude::*;

verus! {

/// A run-time value, as one word that copies freely.
///
/// A text and a floating-point number are positions in the host's tables of
/// texts and numbers; an object is a handle into the host's heap. The top 64 K
/// of the handle space holds no objects: such a handle *is* a `Char`.
#[derive(Clone, Copy, Debug, PartialEq, Eq, Structural)]
pub enum Value {
    /// Kotlin `null`, and the value of a statement.
    Undef,
    Bool(bool),
    Int(i64),
    /// A number of the host's table of doubles.
    Float(usize),
    /// A text of the host's table of texts.
    Str(usize),
    /// A heap object, or a `Char`.
    Obj(u32),
}

/// A floating-point number: its IEEE 754 bits and its shortest decimal form,
/// `d.ddd × 10^exp10` with the digits `d…` written without a point. The digits
/// carry no sign; they are `0` for a number that has no decimal form.
#[derive(Debug, PartialEq, Eq)]
pub struct Double {
    pub bits: u64,
    pub digits: String,
    pub exp10: i32,
}

/// A [`Double`] as a mathematical value.
#[verifier::ext_equal]
pub struct DoubleView {
    pub bits: u64,
    pub digits: Seq<char>,
    pub exp10: int,
}

impl View for Double {
    type V = DoubleView;

    open spec fn view(&self) -> DoubleView {
        DoubleView { bits: self.bits, digits: self.digits@, exp10: self.exp10 as int }
    }
}

/// One stage of a lazy sequence's pipeline, in application order.
#[derive(Clone, Copy, Debug, PartialEq, Eq, Structural)]
pub enum Stage {
    /// `map`.
    Apply(Value),
    /// `filter` when `true`, `filterNot` when `false`.
    Filter(Value, bool),
    /// `takeWhile`: ends the sequence at the first element that fails.
    TakeWhile(Value),
    /// `dropWhile`, with the flag recording that it has stopped dropping.
    DropWhile(Value, bool),
    Take(i64),
    Drop(i64),
}

/// A heap-resident object.
#[derive(Debug, PartialEq, Eq)]
pub enum HeapObj {
    /// A class instance. Fields are kept in declaration order; the class's own
    /// primary-constructor properties are `data_len` fields from `data_from`
    /// on, and only those take part in a data class's derived members.
    Instance {
        class: String,
        is_data: bool,
        fields: Vec<(String, Value)>,
        data_from: usize,
        data_len: usize,
    },
    List(Vec<Value>),
    /// A `Set`, as its distinct elements in iteration order.
    SetObj(Vec<Value>),
    /// A `Map`, as its entries in iteration order.
    MapObj(Vec<(Value, Value)>),
    Pair(Value, Value),
    /// A `Map.Entry`: a key/value couple of another type than `Pair`.
    Entry(Value, Value),
    /// A `Result`: the success value, or the throwable that was raised.
    Res { value: Value, err: Option<Value> },
    /// A `by lazy` cell: the thunk, and the value once it has been computed.
    Lazy { thunk: Value, cached: Option<Value> },
    Triple(Value, Value, Value),
    /// A lambda: the body's name-pool index, its parameter count, and the
    /// values captured from the enclosing frame.
    Closure { name_idx: u16, params: u8, captures: Vec<Value> },
    Range(RangeObj),
    /// A built-in throwable: its fully-qualified class and its message.
    Exc { class: String, msg: Option<String> },
    /// What `groupingBy` holds until a terminal operation asks for something.
    Grouping { items: Vec<Value>, key: Value },
    /// An array; `desc` is its JVM type descriptor.
    Array { items: Vec<Value>, desc: String },
    /// A `StringBuilder`: its UTF-16 content and its capacity.
    Builder { units: Vec<u16>, cap: usize },
    /// A lazy sequence: the next element, the step that follows it, and the
    /// stages applied to each.
    Gen { seed: Option<Value>, step: Value, stages: Vec<Stage> },
    /// A `Comparator`: `(selector, descending)` keys, compared left to right.
    Comparator(Vec<(Value, bool)>),
}

/// A [`HeapObj`] as a mathematical value.
#[verifier::ext_equal]
pub enum ObjView {
    Instance {
        class: Seq<char>,
        is_data: bool,
        fields: Seq<(Seq<char>, Value)>,
        data_from: int,
        data_len: int,
    },
    List(Seq<Value>),
    SetObj(Seq<Value>),
    MapObj(Seq<(Value, Value)>),
    Pair(Value, Value),
    Entry(Value, Value),
    Res { value: Value, err: Option<Value> },
    Lazy { thunk: Value, cached: Option<Value> },
    Triple(Value, Value, Value),
    Closure { name_idx: u16, params: u8, captures: Seq<Value> },
    Range(RangeObj),
    Exc { class: Seq<char>, msg: Option<Seq<char>> },
    Grouping { items: Seq<Value>, key: Value },
    Array { items: Seq<Value>, desc: Seq<char> },
    Builder { units: Seq<u16>, cap: int },
    Gen { seed: Option<Value>, step: Value, stages: Seq<Stage> },
    Comparator(Seq<(Value, bool)>),
}

/// A field list as a mathematical sequence.
pub open spec fn fields_view(fields: Seq<(String, Value)>) -> Seq<(Seq<char>, Value)> {
    fields.map_values(|f: (String, Value)| (f.0@, f.1))
}

/// An optional text as a mathematical value.
pub open spec fn opt_text(s: Option<String>) -> Option<Seq<char>> {
    match s {
        Some(t) => Some(t@),
        None => None,
    }
}

impl View for HeapObj {
    type V = ObjView;

    open spec fn view(&self) -> ObjView {
        match self {
            HeapObj::Instance { class, is_data, fields, data_from, data_len } => ObjView::Instance {
                class: class@,
                is_data: *is_data,
                fields: fields_view(fields@),
                data_from: *data_from as int,
                data_len: *data_len as int,
            },
            HeapObj::List(v) => ObjView::List(v@),
            HeapObj::SetObj(v) => ObjView::SetObj(v@),
            HeapObj::MapObj(v) => ObjView::MapObj(v@),
            HeapObj::Pair(a, b) => ObjView::Pair(*a, *b),
            HeapObj::Entry(a, b) => ObjView::Entry(*a, *b),
            HeapObj::Res { value, err } => ObjView::Res { value: *value, err: *err },
            HeapObj::Lazy { thunk, cached } => ObjView::Lazy { thunk: *thunk, cached: *cached },
            HeapObj::Triple(a, b, c) => ObjView::Triple(*a, *b, *c),
            HeapObj::Closure { name_idx, params, captures } => ObjView::Closure {
                name_idx: *name_idx,
                params: *params,
                captures: captures@,
            },
            HeapObj::Range(r) => ObjView::Range(*r),
            HeapObj::Exc { class, msg } => ObjView::Exc { class: class@, msg: opt_text(*msg) },
            HeapObj::Grouping { items, key } => ObjView::Grouping { items: items@, key: *key },
            HeapObj::Array { items, desc } => ObjView::Array { items: items@, desc: desc@ },
            HeapObj::Builder { units, cap } => ObjView::Builder { units: units@, cap: *cap as int },
            HeapObj::Gen { seed, step, stages } => ObjView::Gen {
                seed: *seed,
                step: *step,
                stages: stages@,
            },
            HeapObj::Comparator(keys) => ObjView::Comparator(keys@),
        }
    }
}

/// The base of the handle range that carries a `Char`.
pub const CHAR_TAG: u32 = 0xffff_0000;

/// The `Char` with code unit `code`, truncated to 16 bits.
pub open spec fn char_value(code: int) -> Value {
    Value::Obj((0xffff_0000 + code % 0x10000) as u32)
}

/// The code unit of a `Char`.
pub open spec fn code_of(v: Value) -> Option<int> {
    match v {
        Value::Obj(id) => if id >= CHAR_TAG {
            Some(id - CHAR_TAG)
        } else {
            None
        },
        _ => None,
    }
}

/// The `Value` for code unit `code` (truncated to 16 bits, as the JVM does).
pub fn char_of(code: i64) -> (v: Value)
    ensures
        v == char_value(code as int),
{
    let low: i64 = code % 0x10000;
    let low: i64 = if low < 0 {
        low + 0x10000
    } else {
        low
    };
    Value::Obj(CHAR_TAG + low as u32)
}

/// `Some(code unit)` when `v` is a `Char`.
pub fn char_code(v: &Value) -> (r: Option<i64>)
    ensures
        r == (match code_of(*v) {
            Some(c) => Some(c as i64),
            None => None,
        }),
        r matches Some(c) ==> 0 <= c < 0x10000 && code_of(*v) == Some(c as int),
        r is None <==> code_of(*v) is None,
{
    match *v {
        Value::Obj(id) => if id >= CHAR_TAG {
            Some((id - CHAR_TAG) as i64)
        } else {
            None
        },
        _ => None,
    }
}

/// Whether `v` is a `Char`.
pub fn is_char(v: &Value) -> (r: bool)
    ensures
        r == (code_of(*v) is Some),
{
    char_code(v).is_some()
}

/// Whether `v` is an integer.
pub fn is_int(v: &Value) -> (r: bool)
    ensures
        r == (*v is Int),
{
    matches!(*v, Value::Int(_))
}

/// Kotlin predicate truthiness: only `true` counts.
pub open spec fn holds(v: Value) -> bool {
    v == Value::Bool(true)
}

/// Kotlin predicate truthiness: predicates return `Boolean`, so only `true`
/// counts (a `null` or other result is treated as `false`).
pub fn truthy(v: &Value) -> (r: bool)
    ensures
        r == holds(*v),
{
    matches!(*v, Value::Bool(true))
}

/// A `Char` value keeps its code unit: reading back the value made for `code`
/// gives `code` reduced to 16 bits.
pub proof fn law_char_round_trip(code: int)
    ensures
        code_of(char_value(code)) == Some(code % 0x10000),
{
}

/// Two `Char` values are equal exactly when their code units are.
pub proof fn law_char_identity(a: int, b: int)
    requires
        0 <= a < 0x10000,
        0 <= b < 0x10000,
    ensures
        char_value(a) == char_value(b) <==> a == b,
{
}

/// A copy of a value list.
pub fn copy_values(v: &Vec<Value>) -> (r: Vec<Value>)
    ensures
        r@ == v@,
{
    v.clone()
}

/// The values `from .. to` of a list.
pub fn values_between(v: &Vec<Value>, from: usize, to: usize) -> (r: Vec<Value>)
    requires
        from <= to <= v@.len(),
    ensures
        r@ == v@.subrange(from as int, to as int),
{
    let mut r: Vec<Value> = Vec::new();
    let mut i: usize = from;
    while i < to
        invariant
            from <= i <= to <= v@.len(),
            r@ == v@.subrange(from as int, i as int),
        decreases to - i,
    {
        r.push(v[i]);
        i = i + 1;
        assert(v@.subrange(from as int, i as int) =~= v@.subrange(from as int, i - 1).push(
            v@[i - 1],
        ));
    }
    r
}

} // verus!
