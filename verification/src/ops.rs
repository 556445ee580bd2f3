//! The operations that compiled code asks of the run-time library.
use crate::builder::new_builder;
use crate::compare::{depth_budget, identical, value_eq};
use crate::display::{char_string, kotlin_string_checked};
use crate::double::{
    fraction_of,
    magnitude,
    nan,
    numerically_equal,
    push_range,
    to_string,
    whole_of,
};
use crate::host::{Host, ListImpl};
use crate::instances::{
    construct,
    declare_enum,
    declare_override,
    declare_type,
    get_field,
    set_field,
    Override,
};
use crate::members::kt_method;
use crate::numbers::{int_div, int_rem, math_call};
use crate::objects::{index_get, index_set};
use crate::operators::{contains_value, distinct};
use crate::radix::int_text;
use crate::range::{RangeForm, RangeObj};
use crate::receiver::{array_desc, iter_at, iter_len, unresolved_on};
use crate::reply::{FloatOp, FloatTask, Reply};
use crate::strings::number_message;
use crate::text::{chars_of_str, concat2, concat3, same};
use crate::types::{cast_failure, obj_label, value_is_type};
use crate::value::{char_of, copy_values, is_char, values_between, Double, HeapObj, Value};
use crate::walk::{Log, Stop, Turn};
use vstd::prelude::*;

verus! {

use crate::builder::new_builder_of;
use crate::compare::{budget, eq_within, is_identical};
use crate::display::{code_text, shown};
use crate::double::{
    fraction_digits,
    is_infinite,
    is_nan,
    is_negative,
    magnitude_bits,
    numeric_eq,
    whole_digits,
};
use crate::host::HostView;
use crate::instances::{
    field_reply,
    field_stored,
    instance_of,
    listed,
    meta_of,
    with_override,
    with_widths,
};
use crate::members::method_walk;
use crate::numbers::{compute2, math_reply, quotient, remainder};
use crate::objects::{index_get_walk, index_set_walk};
use crate::operators::{contains_walk, distinct_walk};
use crate::radix::decimal;
use crate::range::range_of;
use crate::receiver::{array_descriptor, loop_element, loop_len, unresolved};
use crate::reply::ReplyView;
use crate::strings::with_number;
use crate::types::{cast_message, is_type, label_of};
use crate::value::{char_value, code_of, DoubleView, ObjView};
use crate::walk::Answers;

// ── Operation numbers ───────────────────────────────────────────────────────

/// The text of a value.
pub const KT_TO_STRING: u16 = 1;

/// Integer division that drops the fraction.
pub const KT_IDIV: u16 = 2;

/// The remainder, with the sign of the dividend.
pub const KT_IMOD: u16 = 3;

/// A line marker for the debugger.
pub const KT_DBG_LINE: u16 = 4;

/// Compile and register a foreign block.
pub const KT_FFI_COMPILE: u16 = 5;

/// Call a foreign function.
pub const KT_FFI_CALL: u16 = 6;

/// A member call: `[recv, arg0 .., name]`.
pub const KT_METHOD: u16 = 7;

/// A type test: `[value, type]`.
pub const KT_IS: u16 = 8;

/// The text of a `Char`.
pub const KT_CHR_STRING: u16 = 9;

/// Whether a value is null.
pub const KT_ISNULL: u16 = 10;

/// The not-null assertion `!!`.
pub const KT_NOTNULL: u16 = 11;

/// Construct an instance: `[meta, v0 ..]`.
pub const KT_NEW: u16 = 12;

/// Read a property: `[obj, name]`.
pub const KT_GETFIELD: u16 = 13;

/// Write a property: `[obj, value, name]`.
pub const KT_SETFIELD: u16 = 14;

/// A list of the operands.
pub const KT_LIST: u16 = 15;

/// A map of the operands, which are pairs.
pub const KT_MAP: u16 = 16;

/// A pair, or with the payload 1 a triple.
pub const KT_PAIR: u16 = 17;

/// Indexed read: `[recv, index]`.
pub const KT_INDEX_GET: u16 = 18;

/// Indexed write: `[recv, index, value]`.
pub const KT_INDEX_SET: u16 = 19;

/// An empty list.
pub const KT_NEWLIST: u16 = 20;

/// Append to a list: `[list, value]`.
pub const KT_LISTPUSH: u16 = 21;

/// Structural equality.
pub const KT_OBJEQ: u16 = 22;

/// Division of doubles.
pub const KT_DDIV: u16 = 23;

/// A range: `[start, end]`; the payload is its form.
pub const KT_RANGE: u16 = 24;

/// A range with another step: `[range, n]`.
pub const KT_RANGE_STEP: u16 = 25;

/// Membership: `[value, container]`.
pub const KT_IN: u16 = 26;

/// How many elements a loop walks.
pub const KT_ITER_SIZE: u16 = 27;

/// The element of a loop: `[iterable, i]`.
pub const KT_ITER_GET: u16 = 28;

/// An array of the operands: `[v0 .., descriptor]`.
pub const KT_ARRAY: u16 = 29;

/// A zero-filled array: `[n, descriptor]`.
pub const KT_ARRAY_NEW: u16 = 30;

/// A mathematical function: `[arg0 .., name]`.
pub const KT_MATH: u16 = 31;

/// Declare a type: `[name, supertypes]`.
pub const KT_TYPE_REG: u16 = 32;

/// Construct a subclass instance: `[base, meta, v0 ..]`.
pub const KT_EXTEND: u16 = 33;

/// The class of an instance, or an empty text.
pub const KT_CLASSOF: u16 = 34;

/// Declare a `toString` override: `[class, subroutine]`.
pub const KT_TOSTRING_REG: u16 = 35;

/// A set of the operands.
pub const KT_SET: u16 = 36;

/// Declare an `enum` constant's class.
pub const KT_ENUM_REG: u16 = 37;

/// Declare an `equals` override: `[class, subroutine]`.
pub const KT_EQUALS_REG: u16 = 38;

/// Declare a `hashCode` override: `[class, subroutine]`.
pub const KT_HASH_REG: u16 = 39;

/// A `StringBuilder`: `[]` or `[initial]`.
pub const KT_BUILDER: u16 = 40;

/// Referential identity `===`.
pub const KT_IDENTITY: u16 = 41;

/// A cast: `[value, type]`; the payload 1 is the safe form.
pub const KT_AS: u16 = 120;

/// A lazy value: `[thunk]`.
pub const KT_LAZY_NEW: u16 = 121;

/// A read-only list of the operands.
pub const KT_LIST_RO: u16 = 135;

/// Record the class that a list stands for: `[list, tag]`.
pub const KT_LIST_TAG: u16 = 136;

// ── Builtin numbers ─────────────────────────────────────────────────────────
//
// These operations run user code, which only the machine's table of builtins
// survives.

/// Build a closure: `[captures .., name, params, count]`.
pub const KT_MAKE_CLOSURE: u16 = 100;

/// Invoke a closure: `[closure, arg0 ..]`.
pub const KT_CLOSURE_CALL: u16 = 101;

/// A member that takes a lambda: `[recv, extra0 .., closure, name]`.
pub const KT_COLL_HOF: u16 = 102;

/// A scope function: `[recv, closure, name]`.
pub const KT_SCOPE_FN: u16 = 103;

/// An array whose elements a lambda gives: `[n, descriptor, closure]`.
pub const KT_ARRAY_INIT: u16 = 104;

/// Print a line, unless an exception is in flight.
pub const KT_PRINTLN: u16 = 105;

/// Print, unless an exception is in flight.
pub const KT_PRINT: u16 = 106;

/// The Kotlin text of a value, overrides honoured: `[value]`.
pub const KT_DISPLAY: u16 = 107;

/// `joinToString` with overrides honoured: `[recv]` or `[recv, sep]`.
pub const KT_JOIN: u16 = 108;

/// `==` with overrides honoured: `[a, b]`.
pub const KT_OBJEQ_VM: u16 = 109;

/// Construct a throwable: `[class, message]`.
pub const KT_EXC_NEW: u16 = 110;

/// `throw`: `[throwable]`.
pub const KT_EXC_THROW: u16 = 111;

/// Whether an exception is in flight.
pub const KT_EXC_PENDING: u16 = 112;

/// Whether a `catch` clause claims the exception in flight: `[type]`.
pub const KT_EXC_MATCH: u16 = 113;

/// Take the exception in flight.
pub const KT_EXC_TAKE: u16 = 114;

/// The depth of the operand stack.
pub const KT_EXC_DEPTH: u16 = 115;

/// Cut the operand stack back: `[depth]`.
pub const KT_EXC_CUT: u16 = 116;

/// Park the exception in flight across a `finally` body.
pub const KT_EXC_STASH: u16 = 117;

/// Put the parked exception back in flight.
pub const KT_EXC_UNSTASH: u16 = 118;

/// Report an exception that nothing caught, and stop.
pub const KT_EXC_ABORT: u16 = 119;

/// Read a lazy value: `[cell]`.
pub const KT_LAZY_GET: u16 = 122;

/// `runCatching`: `[closure]`.
pub const KT_RUN_CATCHING: u16 = 123;

/// A `Result` member that takes a lambda: `[result, closure, name]`.
pub const KT_RESULT_HOF: u16 = 124;

/// A member call with overrides honoured: `[recv, arg0 .., name]`.
pub const KT_METHOD_VM: u16 = 125;

/// A set with overrides honoured: `[v0 .., code]`.
pub const KT_SET_VM: u16 = 126;

/// `in` with overrides honoured: `[value, container]`.
pub const KT_IN_VM: u16 = 127;

/// Indexed read with overrides honoured: `[recv, index]`.
pub const KT_INDEX_GET_VM: u16 = 128;

/// Indexed write with overrides honoured: `[recv, index, value]`.
pub const KT_INDEX_SET_VM: u16 = 129;

/// A map with overrides honoured: `[pair0 .., code]`.
pub const KT_MAP_VM: u16 = 130;

/// An operator on a collection: `[lhs, rhs, name]`.
pub const KT_OPER_VM: u16 = 131;

/// A precondition: `[subject?, message?, name]`.
pub const KT_PRECOND: u16 = 132;

/// Build or extend a comparator: `[base?, selector0 .., name]`.
pub const KT_COMPARATOR: u16 = 133;

/// A lazy sequence: `[seed, step]`.
pub const KT_GENSEQ: u16 = 134;

// ── Texts of operands ───────────────────────────────────────────────────────

/// The plain decimal form of a double: no exponent, and no point behind a whole
/// number.
pub open spec fn plain_double(d: DoubleView) -> Seq<char> {
    let sign: Seq<char> = if is_negative(d.bits) {
        seq!['-']
    } else {
        Seq::empty()
    };
    let fraction = fraction_digits(d.digits, d.exp10);
    if is_nan(d.bits) {
        "NaN"@
    } else if is_infinite(d.bits) {
        sign + "inf"@
    } else if magnitude_bits(d.bits) == 0 {
        sign + seq!['0']
    } else if fraction.len() == 0 {
        sign + whole_digits(d.digits, d.exp10)
    } else {
        sign + whole_digits(d.digits, d.exp10) + seq!['.'] + fraction
    }
}

/// The text that the machine gives a value, which is not always the Kotlin one.
pub open spec fn vm_text(h: HostView, v: Value) -> Seq<char> {
    match v {
        Value::Str(id) => h.text(id),
        Value::Int(n) => decimal(n as int),
        Value::Float(id) => plain_double(h.double(id)),
        Value::Bool(b) => if b {
            "1"@
        } else {
            ""@
        },
        Value::Undef => ""@,
        Value::Obj(id) => "(obj:"@ + decimal(id as int) + ")"@,
    }
}

fn plain_text(d: &Double) -> (s: String)
    ensures
        s@ == plain_double(d@),
{
    if nan(d.bits) {
        return "NaN".to_owned();
    }
    let mut out: Vec<char> = Vec::new();
    if d.bits >= 0x8000_0000_0000_0000 {
        out.push('-');
    }
    let ghost sign = out@;
    assert(sign =~= if is_negative(d.bits) {
        seq!['-']
    } else {
        Seq::<char>::empty()
    });
    if magnitude(d.bits) == 0x7ff0_0000_0000_0000 {
        return concat2(to_string(&out).as_str(), "inf");
    }
    if magnitude(d.bits) == 0 {
        out.push('0');
        assert(out@ =~= sign + seq!['0']);
        return to_string(&out);
    }
    let digits: Vec<char> = chars_of_str(d.digits.as_str());
    let whole: Vec<char> = whole_of(&digits, d.exp10);
    let fraction: Vec<char> = fraction_of(&digits, d.exp10);
    push_range(&mut out, &whole, 0, whole.len());
    assert(whole@.subrange(0, whole@.len() as int) =~= whole@);
    assert(fraction@.subrange(0, fraction@.len() as int) =~= fraction@);
    if fraction.len() > 0 {
        out.push('.');
        push_range(&mut out, &fraction, 0, fraction.len());
        assert(out@ =~= sign + whole@ + seq!['.'] + fraction@);
    }
    to_string(&out)
}

/// The text that the machine gives a value.
pub fn vm_string(h: &Host, v: Value) -> (s: String)
    ensures
        s@ == vm_text(h@, v),
{
    match v {
        Value::Str(id) => h.text(id).to_owned(),
        Value::Int(n) => int_text(n),
        Value::Float(id) => if id < h.doubles.len() {
            plain_text(&h.doubles[id])
        } else {
            assert(magnitude_bits(0) == 0);
            assert(plain_double(h@.double(id)) =~= seq!['0']);
            proof {
                reveal_strlit("0");
            }
            assert("0"@ =~= seq!['0']);
            "0".to_owned()
        },
        Value::Bool(b) => if b {
            "1".to_owned()
        } else {
            "".to_owned()
        },
        Value::Undef => "".to_owned(),
        Value::Obj(id) => concat3("(obj:", int_text(id as i64).as_str(), ")"),
    }
}

// ── Effects ─────────────────────────────────────────────────────────────────

/// What an operation has the machine do.
#[derive(Debug, PartialEq, Eq)]
pub enum Effect {
    /// Store the reply and push what it answers; a fault pushes null.
    Push(Reply),
    /// Store the reply and push nothing.
    Quiet(Reply),
    /// Report the fault, then push the reply.
    FaultAnd(String, Reply),
    /// As `Push`, for a member call on the receiver.
    Member(Value, String, Reply),
    /// As `Quiet`; the collection then restores its order.
    Stored(Value, Reply),
    /// Push nothing.
    Nothing,
    /// Work that only the machine can do.
    Outside,
}

/// An [`Effect`] as a mathematical value.
pub enum EffectView {
    Push(ReplyView),
    Quiet(ReplyView),
    FaultAnd(Seq<char>, ReplyView),
    Member(Value, Seq<char>, ReplyView),
    Stored(Value, ReplyView),
    Nothing,
    Outside,
}

impl View for Effect {
    type V = EffectView;

    open spec fn view(&self) -> EffectView {
        match self {
            Effect::Push(r) => EffectView::Push(r@),
            Effect::Quiet(r) => EffectView::Quiet(r@),
            Effect::FaultAnd(m, r) => EffectView::FaultAnd(m@, r@),
            Effect::Member(v, n, r) => EffectView::Member(*v, n@, r@),
            Effect::Stored(v, r) => EffectView::Stored(*v, r@),
            Effect::Nothing => EffectView::Nothing,
            Effect::Outside => EffectView::Outside,
        }
    }
}

/// A truth value as what an operation pushes.
pub open spec fn push_bool(b: bool) -> EffectView {
    EffectView::Push(ReplyView::Value(Value::Bool(b)))
}

/// A value as what an operation pushes.
pub open spec fn push_value(v: Value) -> EffectView {
    EffectView::Push(ReplyView::Value(v))
}

/// A new object as what an operation pushes.
pub open spec fn push_object(o: ObjView) -> EffectView {
    EffectView::Push(ReplyView::Object(o))
}

/// How many operands an operation takes off the stack.
pub open spec fn operands_of(id: u16, arg: u8) -> int {
    if id == KT_METHOD || id == KT_EXTEND {
        arg + 2
    } else if id == KT_NEW || id == KT_ARRAY || id == KT_MATH || id == KT_FFI_CALL {
        arg + 1
    } else if id == KT_LIST || id == KT_LIST_RO || id == KT_SET || id == KT_MAP {
        arg as int
    } else if id == KT_SETFIELD || id == KT_INDEX_SET || (id == KT_PAIR && arg == 1) {
        3
    } else if id == KT_NEWLIST || id == KT_DBG_LINE || (id == KT_BUILDER && arg != 1) {
        0
    } else if id == KT_FFI_COMPILE || id == KT_CLASSOF || id == KT_ENUM_REG || id == KT_BUILDER || id
        == KT_TO_STRING || id == KT_LAZY_NEW || id == KT_CHR_STRING || id == KT_ISNULL || id
        == KT_NOTNULL || id == KT_ITER_SIZE {
        1
    } else if (id != 0 && id <= KT_IDENTITY) || id == KT_AS || id == KT_LIST_TAG {
        2
    } else {
        0
    }
}

/// How many operands an operation takes off the stack.
pub fn operand_count(id: u16, arg: u8) -> (n: usize)
    ensures
        n == operands_of(id, arg),
{
    if id == KT_METHOD || id == KT_EXTEND {
        arg as usize + 2
    } else if id == KT_NEW || id == KT_ARRAY || id == KT_MATH || id == KT_FFI_CALL {
        arg as usize + 1
    } else if id == KT_LIST || id == KT_LIST_RO || id == KT_SET || id == KT_MAP {
        arg as usize
    } else if id == KT_SETFIELD || id == KT_INDEX_SET || (id == KT_PAIR && arg == 1) {
        3
    } else if id == KT_NEWLIST || id == KT_DBG_LINE || (id == KT_BUILDER && arg != 1) {
        0
    } else if id == KT_FFI_COMPILE || id == KT_CLASSOF || id == KT_ENUM_REG || id == KT_BUILDER || id
        == KT_TO_STRING || id == KT_LAZY_NEW || id == KT_CHR_STRING || id == KT_ISNULL || id
        == KT_NOTNULL || id == KT_ITER_SIZE {
        1
    } else if (id != 0 && id <= KT_IDENTITY) || id == KT_AS || id == KT_LIST_TAG {
        2
    } else {
        0
    }
}

// ── Declarations ────────────────────────────────────────────────────────────

/// The subroutine number that an operand gives.
pub open spec fn sub_number(h: HostView, v: Value) -> u16 {
    (h.to_int(v) as i64) as u16
}

/// The state after a declaring operation; `None` when `id` is none.
pub open spec fn declared(h: HostView, id: u16, ops: Seq<Value>) -> Option<HostView> {
    if id == KT_TYPE_REG {
        Some(
            HostView {
                types: h.types.insert(vm_text(h, ops[0]), listed(vm_text(h, ops[1]))),
                ..h
            },
        )
    } else if id == KT_TOSTRING_REG {
        Some(with_override(h, Override::Text, vm_text(h, ops[0]), sub_number(h, ops[1])))
    } else if id == KT_EQUALS_REG {
        Some(with_override(h, Override::Equality, vm_text(h, ops[0]), sub_number(h, ops[1])))
    } else if id == KT_HASH_REG {
        Some(with_override(h, Override::Hash, vm_text(h, ops[0]), sub_number(h, ops[1])))
    } else if id == KT_ENUM_REG {
        Some(HostView { enums: h.enums.insert(vm_text(h, ops[0]), true), ..h })
    } else {
        None
    }
}

fn declare(h: &mut Host, id: u16, ops: &Vec<Value>) -> (done: bool)
    requires
        declared(old(h)@, id, ops@) is Some ==> ops@.len() >= 1,
        declared(old(h)@, id, ops@) is Some && id != KT_ENUM_REG ==> ops@.len() >= 2,
    ensures
        done == (declared(old(h)@, id, ops@) is Some),
        final(h)@ == (match declared(old(h)@, id, ops@) {
            Some(g) => g,
            None => old(h)@,
        }),
{
    if id == KT_TYPE_REG {
        let name: String = vm_string(h, ops[0]);
        let supers: String = vm_string(h, ops[1]);
        declare_type(h, name.as_str(), supers.as_str());
        true
    } else if id == KT_TOSTRING_REG || id == KT_EQUALS_REG || id == KT_HASH_REG {
        let class: String = vm_string(h, ops[0]);
        let sub: u16 = h.to_int(ops[1]) as u16;
        let which: Override = if id == KT_TOSTRING_REG {
            Override::Text
        } else if id == KT_EQUALS_REG {
            Override::Equality
        } else {
            Override::Hash
        };
        declare_override(h, which, class.as_str(), sub);
        true
    } else if id == KT_ENUM_REG {
        let class: String = vm_string(h, ops[0]);
        declare_enum(h, class.as_str());
        true
    } else {
        false
    }
}

// ── Building values ─────────────────────────────────────────────────────────

/// Whether the machine holds two values for the same: the same object, or equal
/// values of one kind. A `NaN` is like nothing.
pub open spec fn is_alike(h: HostView, a: Value, b: Value) -> bool {
    match (a, b) {
        (Value::Float(x), Value::Float(y)) => numeric_eq(h.double(x).bits, h.double(y).bits),
        _ => is_identical(h, a, b),
    }
}

fn alike(h: &Host, a: Value, b: Value) -> (r: bool)
    ensures
        r == is_alike(h@, a, b),
{
    match (a, b) {
        (Value::Float(x), Value::Float(y)) => numerically_equal(h.bits(x), h.bits(y)),
        _ => identical(h, a, b),
    }
}

/// The position of the first entry with that very key, or the length.
pub open spec fn same_key(h: HostView, es: Seq<(Value, Value)>, k: Value, i: int) -> int
    decreases es.len() - i,
{
    if i < 0 || i >= es.len() {
        es.len() as int
    } else if is_alike(h, es[i].0, k) {
        i
    } else {
        same_key(h, es, k, i + 1)
    }
}

/// The entries of pairs put one after another; what is no pair does not count,
/// and a repeated key keeps its place and takes the later value.
pub open spec fn paired_up(h: HostView, pairs: Seq<Value>) -> Seq<(Value, Value)>
    decreases pairs.len(),
{
    if pairs.len() == 0 {
        Seq::empty()
    } else {
        let es = paired_up(h, pairs.drop_last());
        match h.obj(pairs.last()) {
            Some(ObjView::Pair(k, v)) => {
                let i = same_key(h, es, k, 0);
                if i < es.len() {
                    es.update(i, (es[i].0, v))
                } else {
                    es.push((k, v))
                }
            },
            _ => es,
        }
    }
}

/// The fault of a negative array length.
pub open spec fn negative_size(n: int) -> Seq<char> {
    "java.lang.NegativeArraySizeException: "@ + decimal(n)
}

/// The descriptor given, or that of the elements when none is.
pub open spec fn descriptor_or(desc: Seq<char>, items: Seq<Value>) -> Seq<char> {
    if desc.len() == 0 {
        array_descriptor(items)
    } else {
        desc
    }
}

/// The double 0.
pub open spec fn zero_double() -> DoubleView {
    DoubleView { bits: 0, digits: seq!['0'], exp10: 0 }
}

/// The state and the effect of a zero-filled array.
pub open spec fn zero_array(h: HostView, n: int, desc: Seq<char>) -> (HostView, EffectView) {
    if n < 0 {
        (h, EffectView::Push(ReplyView::Fault(negative_size(n))))
    } else {
        let (g, zero) = if desc == "[D"@ {
            (h.with_double(zero_double()), Value::Float(h.doubles.len() as usize))
        } else if desc == "[Z"@ {
            (h, Value::Bool(false))
        } else if desc == "[C"@ {
            (h, char_value(0))
        } else {
            (h, Value::Int(0))
        };
        (g, push_object(ObjView::Array { items: Seq::new(n as nat, |i: int| zero), desc }))
    }
}

/// Which form the payload of a range operation names.
pub open spec fn form_of(arg: u8) -> RangeForm {
    if arg == 1 {
        RangeForm::Until
    } else if arg == 2 {
        RangeForm::DownTo
    } else {
        RangeForm::Inclusive
    }
}

/// A range with another step, in the direction it has.
pub open spec fn stepped_range(r: RangeObj, n: int) -> RangeObj {
    RangeObj {
        step: (if r.step < 0 {
            -n
        } else {
            n
        }) as i64,
        progression: true,
        ..r
    }
}

/// What `range step n` pushes.
pub open spec fn stepping(h: HostView, recv: Value, n: int) -> EffectView {
    if n <= 0 {
        EffectView::Push(
            ReplyView::Fault(
                with_number(
                    "java.lang.IllegalArgumentException: Step must be positive, was: "@,
                    n,
                    "."@,
                ),
            ),
        )
    } else {
        match h.obj(recv) {
            Some(ObjView::Range(r)) => push_object(ObjView::Range(stepped_range(r, n))),
            _ => EffectView::Push(ReplyView::Fault(unresolved("step"@, label_of(h, recv)))),
        }
    }
}

/// The class that a list tag names.
pub open spec fn tagged_class(tag: Seq<char>) -> ListImpl {
    if tag == "builder"@ {
        ListImpl::Builder
    } else {
        ListImpl::Literal
    }
}

/// The state and the effect of an operation that builds a value; `None` when
/// `id` is none.
pub open spec fn built_by(h: HostView, id: u16, arg: u8, ops: Seq<Value>) -> Option<
    (HostView, EffectView),
> {
    let n = arg as int;
    if id == KT_NEW {
        let m = meta_of(vm_text(h, ops[0]));
        Some(
            (
                with_widths(h, m.class, m.widths),
                push_object(instance_of(h, Value::Undef, m, ops.subrange(1, n + 1))),
            ),
        )
    } else if id == KT_EXTEND {
        let m = meta_of(vm_text(h, ops[1]));
        Some(
            (
                with_widths(h, m.class, m.widths),
                push_object(instance_of(h, ops[0], m, ops.subrange(2, n + 2))),
            ),
        )
    } else if id == KT_LIST {
        Some((h, push_object(ObjView::List(ops))))
    } else if id == KT_LIST_RO {
        Some((h, EffectView::Push(ReplyView::Tagged(ops, ListImpl::Literal))))
    } else if id == KT_LIST_TAG {
        Some(
            (
                if h.obj(ops[0]) matches Some(ObjView::List(_)) {
                    h.with_list_tag(ops[0], tagged_class(vm_text(h, ops[1])))
                } else {
                    h
                },
                push_value(ops[0]),
            ),
        )
    } else if id == KT_MAP {
        Some((h, push_object(ObjView::MapObj(paired_up(h, ops)))))
    } else if id == KT_PAIR {
        Some(
            (
                h,
                push_object(
                    if arg == 1 {
                        ObjView::Triple(ops[0], ops[1], ops[2])
                    } else {
                        ObjView::Pair(ops[0], ops[1])
                    },
                ),
            ),
        )
    } else if id == KT_NEWLIST {
        Some((h, push_object(ObjView::List(Seq::empty()))))
    } else if id == KT_BUILDER {
        Some(
            (
                h,
                push_object(
                    new_builder_of(
                        h,
                        if arg == 1 {
                            Some(ops[0])
                        } else {
                            None
                        },
                    ),
                ),
            ),
        )
    } else if id == KT_ARRAY {
        let items = ops.subrange(0, n);
        Some(
            (
                h,
                push_object(
                    ObjView::Array { items, desc: descriptor_or(vm_text(h, ops[n]), items) },
                ),
            ),
        )
    } else if id == KT_ARRAY_NEW {
        Some(zero_array(h, h.to_int(ops[0]), vm_text(h, ops[1])))
    } else if id == KT_RANGE {
        Some(
            (
                h,
                push_object(
                    ObjView::Range(
                        range_of(
                            h.num_of(ops[0]) as i64,
                            h.num_of(ops[1]) as i64,
                            form_of(arg),
                            code_of(ops[0]) is Some || code_of(ops[1]) is Some,
                        ),
                    ),
                ),
            ),
        )
    } else if id == KT_RANGE_STEP {
        Some((h, stepping(h, ops[0], h.to_int(ops[1]))))
    } else if id == KT_LAZY_NEW {
        Some((h, push_object(ObjView::Lazy { thunk: ops[0], cached: None })))
    } else {
        None
    }
}

fn key_at(h: &Host, es: &Vec<(Value, Value)>, k: Value) -> (r: usize)
    ensures
        r == same_key(h@, es@, k, 0),
        r <= es@.len(),
{
    let mut i: usize = 0;
    while i < es.len()
        invariant
            i <= es@.len(),
            same_key(h@, es@, k, i as int) == same_key(h@, es@, k, 0),
        decreases es.len() - i,
    {
        if alike(h, es[i].0, k) {
            return i;
        }
        i = i + 1;
    }
    i
}

fn pair_up(h: &Host, pairs: &Vec<Value>) -> (r: Vec<(Value, Value)>)
    ensures
        r@ == paired_up(h@, pairs@),
{
    let mut r: Vec<(Value, Value)> = Vec::new();
    let mut i: usize = 0;
    assert(r@ =~= Seq::empty());
    while i < pairs.len()
        invariant
            i <= pairs@.len(),
            r@ == paired_up(h@, pairs@.take(i as int)),
        decreases pairs.len() - i,
    {
        assert(pairs@.take(i + 1).drop_last() =~= pairs@.take(i as int));
        if let Some(HeapObj::Pair(k, v)) = h.obj(pairs[i]) {
            let at: usize = key_at(h, &r, *k);
            if at < r.len() {
                let key: Value = r[at].0;
                r.set(at, (key, *v));
            } else {
                r.push((*k, *v));
            }
        }
        i = i + 1;
    }
    assert(pairs@.take(i as int) =~= pairs@);
    r
}

/// The `NegativeArraySizeException` of a negative array length.
pub fn negative_array_size(n: i64) -> (s: String)
    ensures
        s@ == negative_size(n as int),
{
    concat2("java.lang.NegativeArraySizeException: ", int_text(n).as_str())
}

fn filled(v: Value, n: i64) -> (r: Vec<Value>)
    requires
        n >= 0,
    ensures
        r@ == Seq::new(n as nat, |i: int| v),
{
    let mut r: Vec<Value> = Vec::new();
    let mut i: i64 = 0;
    while i < n
        invariant
            0 <= i <= n,
            r@.len() == i,
            forall|k: int| 0 <= k < i ==> r@[k] == v,
        decreases n - i,
    {
        r.push(v);
        i = i + 1;
    }
    assert(r@ =~= Seq::new(n as nat, |k: int| v));
    r
}

fn new_zero_array(h: &mut Host, n: i64, desc: String) -> (e: Effect)
    ensures
        (final(h)@, e@) == zero_array(old(h)@, n as int, desc@),
{
    if n < 0 {
        return Effect::Push(Reply::Fault(negative_array_size(n)));
    }
    let zero: Value = if same(desc.as_str(), "[D") {
        let d = Double { bits: 0, digits: "0".to_owned(), exp10: 0 };
        proof {
            reveal_strlit("0");
        }
        assert(d@.digits =~= seq!['0']);
        h.double_value(d)
    } else if same(desc.as_str(), "[Z") {
        Value::Bool(false)
    } else if same(desc.as_str(), "[C") {
        char_of(0)
    } else {
        Value::Int(0)
    };
    Effect::Push(Reply::Object(HeapObj::Array { items: filled(zero, n), desc }))
}

fn step_range(h: &Host, recv: Value, n: i64) -> (e: Effect)
    ensures
        e@ == stepping(h@, recv, n as int),
{
    if n <= 0 {
        return Effect::Push(
            Reply::Fault(
                number_message(
                    "java.lang.IllegalArgumentException: Step must be positive, was: ",
                    n,
                    ".",
                ),
            ),
        );
    }
    match h.obj(recv) {
        Some(HeapObj::Range(r)) => Effect::Push(Reply::Object(HeapObj::Range(r.stepped(n)))),
        _ => Effect::Push(Reply::Fault(unresolved_on(h, "step", recv))),
    }
}

fn object(o: HeapObj) -> (e: Effect)
    ensures
        e@ == push_object(o@),
{
    Effect::Push(Reply::Object(o))
}

fn build(h: &mut Host, id: u16, arg: u8, ops: &Vec<Value>) -> (r: Option<Effect>)
    requires
        ops@.len() == operands_of(id, arg),
    ensures
        match r {
            Some(e) => built_by(old(h)@, id, arg, ops@) == Some((final(h)@, e@)),
            None => built_by(old(h)@, id, arg, ops@) is None && final(h)@ == old(h)@,
        },
{
    let n: usize = arg as usize;
    if id == KT_NEW {
        let meta: String = vm_string(h, ops[0]);
        let vals: Vec<Value> = values_between(ops, 1, n + 1);
        Some(object(construct(h, Value::Undef, meta.as_str(), &vals)))
    } else if id == KT_EXTEND {
        let meta: String = vm_string(h, ops[1]);
        let vals: Vec<Value> = values_between(ops, 2, n + 2);
        Some(object(construct(h, ops[0], meta.as_str(), &vals)))
    } else if id == KT_LIST {
        Some(object(HeapObj::List(copy_values(ops))))
    } else if id == KT_LIST_RO {
        Some(Effect::Push(Reply::Tagged(copy_values(ops), ListImpl::Literal)))
    } else if id == KT_LIST_TAG {
        let tag: String = vm_string(h, ops[1]);
        let is_list: bool = match h.obj(ops[0]) {
            Some(HeapObj::List(_)) => true,
            _ => false,
        };
        if is_list {
            let which: ListImpl = if same(tag.as_str(), "builder") {
                ListImpl::Builder
            } else {
                ListImpl::Literal
            };
            h.tag_list(ops[0], which);
        }
        Some(Effect::Push(Reply::Value(ops[0])))
    } else if id == KT_MAP {
        Some(object(HeapObj::MapObj(pair_up(h, ops))))
    } else if id == KT_PAIR {
        if arg == 1 {
            Some(object(HeapObj::Triple(ops[0], ops[1], ops[2])))
        } else {
            Some(object(HeapObj::Pair(ops[0], ops[1])))
        }
    } else if id == KT_NEWLIST {
        let none: Vec<Value> = Vec::new();
        assert(none@ =~= Seq::empty());
        Some(object(HeapObj::List(none)))
    } else if id == KT_BUILDER {
        let init: Option<Value> = if arg == 1 {
            Some(ops[0])
        } else {
            None
        };
        Some(object(new_builder(h, init)))
    } else if id == KT_ARRAY {
        let given: String = vm_string(h, ops[n]);
        let items: Vec<Value> = values_between(ops, 0, n);
        let desc: String = if given.as_str().is_empty() {
            array_desc(&items)
        } else {
            given
        };
        Some(object(HeapObj::Array { items, desc }))
    } else if id == KT_ARRAY_NEW {
        let desc: String = vm_string(h, ops[1]);
        let len: i64 = h.to_int(ops[0]);
        Some(new_zero_array(h, len, desc))
    } else if id == KT_RANGE {
        let form: RangeForm = if arg == 1 {
            RangeForm::Until
        } else if arg == 2 {
            RangeForm::DownTo
        } else {
            RangeForm::Inclusive
        };
        let chars: bool = is_char(&ops[0]) || is_char(&ops[1]);
        Some(
            object(
                HeapObj::Range(RangeObj::new(h.num_of(ops[0]), h.num_of(ops[1]), form, chars)),
            ),
        )
    } else if id == KT_RANGE_STEP {
        Some(step_range(h, ops[0], h.to_int(ops[1])))
    } else if id == KT_LAZY_NEW {
        Some(object(HeapObj::Lazy { thunk: ops[0], cached: None }))
    } else {
        None
    }
}

// ── Reading values ──────────────────────────────────────────────────────────

/// The fault of an integer division by zero.
pub open spec fn by_zero() -> Seq<char> {
    "java.lang.ArithmeticException: / by zero"@
}

/// Integer division or remainder, or that of doubles when an operand is none.
pub open spec fn divided(a: Value, b: Value, rest: bool) -> EffectView {
    match (a, b) {
        (Value::Int(x), Value::Int(y)) => if y == 0 {
            EffectView::Push(ReplyView::Fault(by_zero()))
        } else if rest {
            push_value(Value::Int(remainder(x as int, y as int) as i64))
        } else {
            push_value(Value::Int(quotient(x as int, y as int) as i64))
        },
        _ => EffectView::Push(
            compute2(
                if rest {
                    FloatOp::Rem
                } else {
                    FloatOp::Div
                },
                a,
                b,
            ),
        ),
    }
}

/// What a cast pushes: the value itself, or for another type null (`as?`) or a
/// fault (`as`).
pub open spec fn cast_to(h: HostView, v: Value, ty: Seq<char>, safe: bool) -> EffectView {
    if is_type(h, v, ty) {
        push_value(v)
    } else if safe {
        push_value(Value::Undef)
    } else {
        EffectView::Push(ReplyView::Fault(cast_message(h, v, ty)))
    }
}

/// What the text of a value pushes. A value that contains itself overflows the
/// stack and yields the text that there was room for.
pub open spec fn text_pushed(h: HostView, v: Value) -> EffectView {
    let (s, over) = shown(h, v);
    if over {
        EffectView::FaultAnd("java.lang.StackOverflowError"@, ReplyView::Text(s))
    } else {
        EffectView::Push(ReplyView::Text(s))
    }
}

/// What the element count of a loop pushes.
pub open spec fn length_pushed(h: HostView, recv: Value) -> EffectView {
    match loop_len(h, recv) {
        Some(n) => push_value(Value::Int(n as i64)),
        None => EffectView::FaultAnd(
            "for-in over a non-iterable value ("@ + label_of(h, recv) + ")"@,
            ReplyView::Value(Value::Int(0)),
        ),
    }
}

/// What an append does: it changes a list and nothing else.
pub open spec fn appended_to(h: HostView, recv: Value, v: Value) -> EffectView {
    match h.obj(recv) {
        Some(ObjView::List(items)) => EffectView::Quiet(
            ReplyView::Update(recv, ObjView::List(items.push(v)), Value::Undef),
        ),
        _ => EffectView::Nothing,
    }
}

/// The effect of an operation that reads values or changes one object; `None`
/// when `id` is none.
pub open spec fn read_by(h: HostView, id: u16, arg: u8, ops: Seq<Value>) -> Option<EffectView> {
    if id == KT_TO_STRING {
        Some(text_pushed(h, ops[0]))
    } else if id == KT_CLASSOF {
        Some(
            EffectView::Push(
                ReplyView::Text(
                    match h.class_of(ops[0]) {
                        Some(class) => class,
                        None => ""@,
                    },
                ),
            ),
        )
    } else if id == KT_CHR_STRING {
        Some(
            EffectView::Push(
                ReplyView::Text(
                    if ops[0] is Undef {
                        "null"@
                    } else {
                        code_text(((h.num_of(ops[0]) as i64) as u32) as int)
                    },
                ),
            ),
        )
    } else if id == KT_ISNULL {
        Some(push_bool(ops[0] is Undef))
    } else if id == KT_NOTNULL {
        Some(
            if ops[0] is Undef {
                EffectView::Push(ReplyView::Fault("java.lang.NullPointerException"@))
            } else {
                push_value(ops[0])
            },
        )
    } else if id == KT_ITER_SIZE {
        Some(length_pushed(h, ops[0]))
    } else if id == KT_ITER_GET {
        Some(EffectView::Push(loop_element(h, ops[0], h.to_int(ops[1]))))
    } else if id == KT_IS {
        Some(push_bool(is_type(h, ops[0], vm_text(h, ops[1]))))
    } else if id == KT_AS {
        Some(cast_to(h, ops[0], vm_text(h, ops[1]), arg == 1))
    } else if id == KT_IDENTITY {
        Some(push_bool(is_identical(h, ops[0], ops[1])))
    } else if id == KT_GETFIELD {
        Some(EffectView::Push(field_reply(h, ops[0], vm_text(h, ops[1]))))
    } else if id == KT_SETFIELD {
        Some(EffectView::Quiet(field_stored(h, ops[0], vm_text(h, ops[2]), ops[1])))
    } else if id == KT_LISTPUSH {
        Some(appended_to(h, ops[0], ops[1]))
    } else if id == KT_MATH {
        Some(
            EffectView::Push(
                math_reply(h, vm_text(h, ops[arg as int]), ops.subrange(0, arg as int)),
            ),
        )
    } else if id == KT_DDIV {
        Some(EffectView::Push(compute2(FloatOp::Div, ops[0], ops[1])))
    } else if id == KT_IDIV {
        Some(divided(ops[0], ops[1], false))
    } else if id == KT_IMOD {
        Some(divided(ops[0], ops[1], true))
    } else {
        None
    }
}

fn divide(a: Value, b: Value, rest: bool) -> (e: Effect)
    ensures
        e@ == divided(a, b, rest),
{
    if let (Value::Int(x), Value::Int(y)) = (a, b) {
        if y == 0 {
            return Effect::Push(
                Reply::Fault("java.lang.ArithmeticException: / by zero".to_owned()),
            );
        }
        let n: i64 = if rest {
            int_rem(x, y)
        } else {
            int_div(x, y)
        };
        return Effect::Push(Reply::Value(Value::Int(n)));
    }
    let op: FloatOp = if rest {
        FloatOp::Rem
    } else {
        FloatOp::Div
    };
    Effect::Push(Reply::Compute(FloatTask { op, a, b }))
}

fn cast(h: &Host, v: Value, ty: &str, safe: bool) -> (e: Effect)
    ensures
        e@ == cast_to(h@, v, ty@, safe),
{
    if value_is_type(h, v, ty) {
        Effect::Push(Reply::Value(v))
    } else if safe {
        Effect::Push(Reply::Value(Value::Undef))
    } else {
        Effect::Push(Reply::Fault(cast_failure(h, v, ty)))
    }
}

fn push_text(h: &Host, v: Value) -> (e: Effect)
    ensures
        e@ == text_pushed(h@, v),
{
    let (s, over): (String, bool) = kotlin_string_checked(h, v);
    if over {
        Effect::FaultAnd("java.lang.StackOverflowError".to_owned(), Reply::Text(s))
    } else {
        Effect::Push(Reply::Text(s))
    }
}

fn push_length(h: &Host, recv: Value) -> (e: Effect)
    ensures
        e@ == length_pushed(h@, recv),
{
    match iter_len(h, recv) {
        Some(n) => Effect::Push(Reply::Value(Value::Int(n))),
        None => Effect::FaultAnd(
            concat3("for-in over a non-iterable value (", obj_label(h, recv).as_str(), ")"),
            Reply::Value(Value::Int(0)),
        ),
    }
}

fn append_to(h: &Host, recv: Value, v: Value) -> (e: Effect)
    ensures
        e@ == appended_to(h@, recv, v),
{
    match h.obj(recv) {
        Some(HeapObj::List(items)) => {
            let mut out: Vec<Value> = copy_values(items);
            out.push(v);
            Effect::Quiet(Reply::Update(recv, HeapObj::List(out), Value::Undef))
        },
        _ => Effect::Nothing,
    }
}

fn class_text(h: &Host, v: Value) -> (s: String)
    ensures
        s@ == (match h@.class_of(v) {
            Some(class) => class,
            None => ""@,
        }),
{
    match h.obj(v) {
        Some(HeapObj::Instance { class, .. }) => class.as_str().to_owned(),
        _ => "".to_owned(),
    }
}

fn truth(b: bool) -> (e: Effect)
    ensures
        e@ == push_bool(b),
{
    Effect::Push(Reply::Value(Value::Bool(b)))
}

fn is_null(v: Value) -> (r: bool)
    ensures
        r == (v is Undef),
{
    match v {
        Value::Undef => true,
        _ => false,
    }
}

fn read(h: &Host, id: u16, arg: u8, ops: &Vec<Value>) -> (r: Option<Effect>)
    requires
        ops@.len() == operands_of(id, arg),
    ensures
        match r {
            Some(e) => read_by(h@, id, arg, ops@) == Some(e@),
            None => read_by(h@, id, arg, ops@) is None,
        },
{
    if id == KT_TO_STRING {
        Some(push_text(h, ops[0]))
    } else if id == KT_CLASSOF {
        Some(Effect::Push(Reply::Text(class_text(h, ops[0]))))
    } else if id == KT_CHR_STRING {
        if is_null(ops[0]) {
            Some(Effect::Push(Reply::Text("null".to_owned())))
        } else {
            Some(Effect::Push(Reply::Text(char_string(h.num_of(ops[0])))))
        }
    } else if id == KT_ISNULL {
        Some(truth(is_null(ops[0])))
    } else if id == KT_NOTNULL {
        if is_null(ops[0]) {
            Some(Effect::Push(Reply::Fault("java.lang.NullPointerException".to_owned())))
        } else {
            Some(Effect::Push(Reply::Value(ops[0])))
        }
    } else if id == KT_ITER_SIZE {
        Some(push_length(h, ops[0]))
    } else if id == KT_ITER_GET {
        Some(Effect::Push(iter_at(h, ops[0], h.to_int(ops[1]))))
    } else if id == KT_IS {
        Some(truth(value_is_type(h, ops[0], vm_string(h, ops[1]).as_str())))
    } else if id == KT_AS {
        Some(cast(h, ops[0], vm_string(h, ops[1]).as_str(), arg == 1))
    } else if id == KT_IDENTITY {
        Some(truth(identical(h, ops[0], ops[1])))
    } else if id == KT_GETFIELD {
        Some(Effect::Push(get_field(h, ops[0], vm_string(h, ops[1]).as_str())))
    } else if id == KT_SETFIELD {
        Some(Effect::Quiet(set_field(h, ops[0], vm_string(h, ops[2]).as_str(), ops[1])))
    } else if id == KT_LISTPUSH {
        Some(append_to(h, ops[0], ops[1]))
    } else if id == KT_MATH {
        let n: usize = arg as usize;
        let args: Vec<Value> = values_between(ops, 0, n);
        Some(Effect::Push(math_call(h, vm_string(h, ops[n]).as_str(), &args)))
    } else if id == KT_DDIV {
        Some(Effect::Push(Reply::Compute(FloatTask { op: FloatOp::Div, a: ops[0], b: ops[1] })))
    } else if id == KT_IDIV {
        Some(divide(ops[0], ops[1], false))
    } else if id == KT_IMOD {
        Some(divide(ops[0], ops[1], true))
    } else {
        None
    }
}

// ── Operations that compare elements ────────────────────────────────────────

/// An effect, or why there is none yet.
pub open spec fn effect_of(r: Result<ReplyView, Stop>) -> Result<EffectView, Stop> {
    match r {
        Ok(x) => Ok(EffectView::Push(x)),
        Err(s) => Err(s),
    }
}

/// A truth value to push, or why there is none yet.
pub open spec fn bool_of(r: Result<bool, Stop>) -> Result<EffectView, Stop> {
    match r {
        Ok(b) => Ok(push_bool(b)),
        Err(s) => Err(s),
    }
}

/// The effect of an operation that may have to ask a user's `equals` or
/// `hashCode`; `None` when `id` is none.
pub open spec fn asked_by(h: HostView, id: u16, arg: u8, ops: Seq<Value>, log: Answers) -> Option<
    Result<EffectView, Stop>,
> {
    let n = arg as int;
    if id == KT_METHOD {
        let name = vm_text(h, ops[n + 1]);
        Some(
            match method_walk(h, ops[0], name, ops.subrange(1, n + 1), log) {
                Ok(r) => Ok(EffectView::Member(ops[0], name, r)),
                Err(s) => Err(s),
            },
        )
    } else if id == KT_SET {
        Some(
            match distinct_walk(h, log, 0, ops, 0, Seq::empty(), budget(h)) {
                Ok((items, _)) => Ok(push_object(ObjView::SetObj(items))),
                Err(s) => Err(s),
            },
        )
    } else if id == KT_INDEX_GET {
        Some(effect_of(index_get_walk(h, ops[0], ops[1], log)))
    } else if id == KT_INDEX_SET {
        Some(
            match index_set_walk(h, ops[0], ops[1], ops[2], log) {
                Ok(r) => Ok(EffectView::Stored(ops[0], r)),
                Err(s) => Err(s),
            },
        )
    } else if id == KT_OBJEQ {
        Some(
            match eq_within(h, ops[0], ops[1], budget(h)) {
                Some(b) => Ok(push_bool(b)),
                None => Err(Stop::TooDeep),
            },
        )
    } else if id == KT_IN {
        Some(bool_of(contains_walk(h, ops[1], ops[0], log)))
    } else {
        None
    }
}

/// An effect, or why there is none yet, as a mathematical value.
pub open spec fn effected(r: Result<Effect, Stop>) -> Result<EffectView, Stop> {
    match r {
        Ok(e) => Ok(e@),
        Err(s) => Err(s),
    }
}

fn ask(h: &Host, id: u16, arg: u8, ops: &Vec<Value>, answers: &Vec<Turn>) -> (r: Option<
    Result<Effect, Stop>,
>)
    requires
        ops@.len() == operands_of(id, arg),
    ensures
        match r {
            Some(e) => asked_by(h@, id, arg, ops@, answers@) == Some(effected(e)),
            None => asked_by(h@, id, arg, ops@, answers@) is None,
        },
{
    let n: usize = arg as usize;
    if id == KT_METHOD {
        let name: String = vm_string(h, ops[n + 1]);
        let args: Vec<Value> = values_between(ops, 1, n + 1);
        match kt_method(h, ops[0], name.as_str(), &args, answers) {
            Ok(r) => Some(Ok(Effect::Member(ops[0], name, r))),
            Err(s) => Some(Err(s)),
        }
    } else if id == KT_SET {
        let mut log = Log::new(answers);
        match distinct(&mut log, h, ops, depth_budget(h)) {
            Ok(items) => Some(Ok(object(HeapObj::SetObj(items)))),
            Err(s) => Some(Err(s)),
        }
    } else if id == KT_INDEX_GET {
        match index_get(h, ops[0], ops[1], answers) {
            Ok(r) => Some(Ok(Effect::Push(r))),
            Err(s) => Some(Err(s)),
        }
    } else if id == KT_INDEX_SET {
        match index_set(h, ops[0], ops[1], ops[2], answers) {
            Ok(r) => Some(Ok(Effect::Stored(ops[0], r))),
            Err(s) => Some(Err(s)),
        }
    } else if id == KT_OBJEQ {
        match value_eq(h, ops[0], ops[1]) {
            Some(b) => Some(Ok(truth(b))),
            None => Some(Err(Stop::TooDeep)),
        }
    } else if id == KT_IN {
        match contains_value(h, ops[1], ops[0], answers) {
            Ok(b) => Some(Ok(truth(b))),
            Err(s) => Some(Err(s)),
        }
    } else {
        None
    }
}

// ── All operations ──────────────────────────────────────────────────────────

/// The state after an operation, and its effect or why there is none yet. An
/// unknown operation pushes null.
pub open spec fn coerced(h: HostView, id: u16, arg: u8, ops: Seq<Value>, log: Answers) -> (
    HostView,
    Result<EffectView, Stop>,
) {
    if id == KT_FFI_COMPILE || id == KT_FFI_CALL {
        (h, Ok(EffectView::Outside))
    } else if id == KT_DBG_LINE {
        (h, Ok(EffectView::Nothing))
    } else {
        match declared(h, id, ops) {
            Some(g) => (g, Ok(EffectView::Nothing)),
            None => match built_by(h, id, arg, ops) {
                Some((g, e)) => (g, Ok(e)),
                None => match read_by(h, id, arg, ops) {
                    Some(e) => (h, Ok(e)),
                    None => match asked_by(h, id, arg, ops, log) {
                        Some(r) => (h, r),
                        None => (h, Ok(push_value(Value::Undef))),
                    },
                },
            },
        }
    }
}

/// Carry out an operation on the operands that it took off the stack, the
/// deepest first.
pub fn handle_coercion(
    h: &mut Host,
    id: u16,
    arg: u8,
    ops: &Vec<Value>,
    answers: &Vec<Turn>,
) -> (r: Result<Effect, Stop>)
    requires
        ops@.len() == operands_of(id, arg),
    ensures
        (final(h)@, effected(r)) == coerced(old(h)@, id, arg, ops@, answers@),
{
    if id == KT_FFI_COMPILE || id == KT_FFI_CALL {
        return Ok(Effect::Outside);
    }
    if id == KT_DBG_LINE {
        return Ok(Effect::Nothing);
    }
    if declare(h, id, ops) {
        return Ok(Effect::Nothing);
    }
    if let Some(e) = build(h, id, arg, ops) {
        return Ok(e);
    }
    if let Some(e) = read(h, id, arg, ops) {
        return Ok(e);
    }
    match ask(h, id, arg, ops, answers) {
        Some(r) => r,
        None => Ok(Effect::Push(Reply::Value(Value::Undef))),
    }
}

// ── Foreign code ────────────────────────────────────────────────────────────

/// The fault of a foreign block that did not compile.
pub fn ffi_block_fault(reason: &str) -> (s: String)
    ensures
        s@ == "rust {} block: "@ + reason@,
{
    concat2("rust {} block: ", reason)
}

/// The effect of a foreign call: its result, the fault it reports, or that of a
/// name nobody exports.
pub open spec fn ffi_effect(name: Seq<char>, result: Option<Result<Value, Seq<char>>>) -> EffectView {
    match result {
        Some(Ok(v)) => push_value(v),
        Some(Err(m)) => EffectView::Push(
            ReplyView::Fault("rust FFI call "@ + name + ": "@ + m),
        ),
        None => EffectView::Push(ReplyView::Fault("unresolved reference: "@ + name)),
    }
}

/// The outcome of a foreign call as a mathematical value.
pub open spec fn ffi_view(r: Option<Result<Value, String>>) -> Option<Result<Value, Seq<char>>> {
    match r {
        Some(Ok(v)) => Some(Ok(v)),
        Some(Err(m)) => Some(Err(m@)),
        None => None,
    }
}

/// The effect of a foreign call.
pub fn ffi_called(name: &str, result: Option<Result<Value, String>>) -> (e: Effect)
    ensures
        e@ == ffi_effect(name@, ffi_view(result)),
{
    match result {
        Some(Ok(v)) => Effect::Push(Reply::Value(v)),
        Some(Err(m)) => {
            let head: String = concat3("rust FFI call ", name, ": ");
            Effect::Push(Reply::Fault(concat2(head.as_str(), m.as_str())))
        },
        None => Effect::Push(Reply::Fault(concat2("unresolved reference: ", name))),
    }
}

// ── Laws ────────────────────────────────────────────────────────────────────

/// An operation by itself changes no object: what it changes, it changes through
/// its effect.
pub proof fn law_operations_keep_the_heap(
    h: HostView,
    id: u16,
    arg: u8,
    ops: Seq<Value>,
    log: Answers,
)
    ensures
        coerced(h, id, arg, ops, log).0.heap == h.heap,
        coerced(h, id, arg, ops, log).0.pending == h.pending,
{
}

/// `as?` answers null exactly where `as` raises, and both answer the value itself
/// otherwise.
pub proof fn law_safe_casts(h: HostView, v: Value, ty: Seq<char>)
    ensures
        cast_to(h, v, ty, false) == EffectView::Push(ReplyView::Value(v)) ==> cast_to(
            h,
            v,
            ty,
            true,
        ) == EffectView::Push(ReplyView::Value(v)),
        cast_to(h, v, ty, false) != EffectView::Push(ReplyView::Value(v)) ==> cast_to(
            h,
            v,
            ty,
            false,
        ) == EffectView::Push(ReplyView::Fault(cast_message(h, v, ty))) && cast_to(h, v, ty, true)
            == EffectView::Push(ReplyView::Value(Value::Undef)),
{
}

} // verus!
