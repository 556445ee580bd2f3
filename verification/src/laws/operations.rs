//! What a program may rely on of the operations that its expressions compile to.
use crate::host::ListImpl;
use crate::ops::{
    KT_ARRAY, KT_ARRAY_NEW, KT_AS, KT_DDIV, KT_ENUM_REG, KT_EQUALS_REG, KT_EXTEND, KT_HASH_REG,
    KT_IDIV, KT_IMOD, KT_IN, KT_IS, KT_ISNULL, KT_ITER_GET, KT_ITER_SIZE, KT_LAZY_NEW, KT_LIST,
    KT_LISTPUSH, KT_LIST_RO, KT_MAP, KT_NEW, KT_NEWLIST, KT_NOTNULL, KT_PAIR, KT_RANGE,
    KT_RANGE_STEP, KT_SETFIELD, KT_TOSTRING_REG, KT_TO_STRING, KT_TYPE_REG,
};
use crate::range::{RangeForm, RangeObj};
use crate::reply::FloatOp;
use crate::value::Value;
use crate::walk::Stop;
use vstd::prelude::*;

verus! {

use crate::display::{shown, text_of};
use crate::host::HostView;
use crate::instances::{field_set, fields_of, meta_of};
use crate::numbers::{compute2, law_quotient_and_remainder, magnitude};
use crate::operators::contains_walk;
use crate::ops::{coerced, is_alike, paired_up, same_key, EffectView};
use crate::range::range_of;
use crate::reply::ReplyView;
use crate::search::pieces;
use crate::types::{cast_message, is_type};
use crate::value::ObjView;
use crate::walk::Answers;

/// What an operation pushes, when it pushes a value and stops for nothing.
pub open spec fn pushed(r: (HostView, Result<EffectView, Stop>)) -> Option<ReplyView> {
    match r.1 {
        Ok(EffectView::Push(x)) => Some(x),
        _ => None,
    }
}

// ── Division ────────────────────────────────────────────────────────────────

/// `/` and `%` on integers: the quotient is rounded toward zero, the remainder has
/// the sign of the dividend and is smaller than the divisor, and together they make
/// up the dividend.
#[verifier::rlimit(40)]
pub proof fn law_integer_division(h: HostView, x: i64, y: i64, log: Answers) -> (r: (i64, i64))
    requires
        y != 0,
        !(x == i64::MIN && y == -1),
    ensures
        pushed(coerced(h, KT_IDIV, 0, seq![Value::Int(x), Value::Int(y)], log)) == Some(
            ReplyView::Value(Value::Int(r.0)),
        ),
        pushed(coerced(h, KT_IMOD, 0, seq![Value::Int(x), Value::Int(y)], log)) == Some(
            ReplyView::Value(Value::Int(r.1)),
        ),
        x == y * r.0 + r.1,
        magnitude(r.1 as int) < magnitude(y as int),
        r.1 != 0 ==> (r.1 < 0) == (x < 0),
{
    law_quotient_and_remainder(x as int, y as int);
    let q = crate::numbers::quotient(x as int, y as int);
    let m = crate::numbers::remainder(x as int, y as int);
    assert(i64::MIN <= q <= i64::MAX) by (nonlinear_arith)
        requires
            x == y * q + m,
            magnitude(m) < magnitude(y as int),
            m != 0 ==> (m < 0) == (x < 0),
            y != 0,
            i64::MIN <= x <= i64::MAX,
            i64::MIN <= y <= i64::MAX,
            !(x == i64::MIN && y == -1),
    ;
    (q as i64, m as i64)
}

/// Division of an integer by zero throws.
#[verifier::rlimit(40)]
pub proof fn law_division_by_zero(h: HostView, x: i64, log: Answers)
    ensures
        pushed(coerced(h, KT_IDIV, 0, seq![Value::Int(x), Value::Int(0)], log)) == Some(
            ReplyView::Fault("java.lang.ArithmeticException: / by zero"@),
        ),
        pushed(coerced(h, KT_IMOD, 0, seq![Value::Int(x), Value::Int(0)], log)) == Some(
            ReplyView::Fault("java.lang.ArithmeticException: / by zero"@),
        ),
{
}

/// Division with a double is left to the arithmetic of doubles, which divides by
/// zero too.
#[verifier::rlimit(40)]
pub proof fn law_double_division(h: HostView, a: Value, b: usize, log: Answers)
    ensures
        pushed(coerced(h, KT_IDIV, 0, seq![a, Value::Float(b)], log)) == Some(
            compute2(FloatOp::Div, a, Value::Float(b)),
        ),
        pushed(coerced(h, KT_DDIV, 0, seq![a, Value::Float(b)], log)) == Some(
            compute2(FloatOp::Div, a, Value::Float(b)),
        ),
{
}

/// So is the remainder.
#[verifier::rlimit(40)]
pub proof fn law_double_remainder(h: HostView, a: Value, b: usize, log: Answers)
    ensures
        pushed(coerced(h, KT_IMOD, 0, seq![a, Value::Float(b)], log)) == Some(
            compute2(FloatOp::Rem, a, Value::Float(b)),
        ),
{
}

// ── Null and types ──────────────────────────────────────────────────────────

/// `== null` is true of null alone, and `!!` hands every other value on.
#[verifier::rlimit(40)]
pub proof fn law_null_checks(h: HostView, v: Value, log: Answers)
    ensures
        pushed(coerced(h, KT_ISNULL, 0, seq![v], log)) == Some(
            ReplyView::Value(Value::Bool(v is Undef)),
        ),
        !(v is Undef) ==> pushed(coerced(h, KT_NOTNULL, 0, seq![v], log)) == Some(
            ReplyView::Value(v),
        ),
        pushed(coerced(h, KT_NOTNULL, 0, seq![Value::Undef], log)) == Some(
            ReplyView::Fault("java.lang.NullPointerException"@),
        ),
{
}

/// A cast keeps the value where `is` holds; where it does not, `as` throws and `as?`
/// gives null.
#[verifier::rlimit(40)]
pub proof fn law_casts_follow_type_tests(h: HostView, v: Value, t: usize, log: Answers)
    ensures
        ({
            let ops = seq![v, Value::Str(t)];
            let asked = pushed(coerced(h, KT_IS, 0, ops, log));
            let hard = pushed(coerced(h, KT_AS, 0, ops, log));
            let safe = pushed(coerced(h, KT_AS, 1, ops, log));
            &&& asked == Some(ReplyView::Value(Value::Bool(is_type(h, v, h.text(t)))))
            &&& is_type(h, v, h.text(t)) ==> hard == Some(ReplyView::Value(v)) && safe == hard
            &&& !is_type(h, v, h.text(t)) ==> hard == Some(
                ReplyView::Fault(cast_message(h, v, h.text(t))),
            ) && safe == Some(ReplyView::Value(Value::Undef))
        }),
{
}

// ── Building ────────────────────────────────────────────────────────────────

/// A list holds its operands in order.
#[verifier::rlimit(40)]
pub proof fn law_list_literals(h: HostView, ops: Seq<Value>, log: Answers)
    ensures
        pushed(coerced(h, KT_LIST, 0, ops, log)) == Some(ReplyView::Object(ObjView::List(ops))),
        pushed(coerced(h, KT_LIST_RO, 0, ops, log)) == Some(
            ReplyView::Tagged(ops, ListImpl::Literal),
        ),
{
}

/// A pair holds its two operands in order.
#[verifier::rlimit(40)]
pub proof fn law_pairs(h: HostView, a: Value, b: Value, log: Answers)
    ensures
        pushed(coerced(h, KT_PAIR, 0, seq![a, b], log)) == Some(
            ReplyView::Object(ObjView::Pair(a, b)),
        ),
{
}

/// A triple holds its three operands in order.
#[verifier::rlimit(40)]
pub proof fn law_triples(h: HostView, a: Value, b: Value, c: Value, log: Answers)
    ensures
        pushed(coerced(h, KT_PAIR, 1, seq![a, b, c], log)) == Some(
            ReplyView::Object(ObjView::Triple(a, b, c)),
        ),
{
}

/// A new list is empty, and a new lazy value has its thunk and no value.
#[verifier::rlimit(40)]
pub proof fn law_new_objects(h: HostView, a: Value, log: Answers)
    ensures
        pushed(coerced(h, KT_NEWLIST, 0, Seq::empty(), log)) == Some(
            ReplyView::Object(ObjView::List(Seq::empty())),
        ),
        pushed(coerced(h, KT_LAZY_NEW, 0, seq![a], log)) == Some(
            ReplyView::Object(ObjView::Lazy { thunk: a, cached: None }),
        ),
{
}

/// An array literal holds the operands before its descriptor.
#[verifier::rlimit(40)]
pub proof fn law_array_literals(h: HostView, items: Seq<Value>, d: usize, log: Answers)
    requires
        items.len() < 256,
    ensures
        pushed(coerced(h, KT_ARRAY, items.len() as u8, items.push(Value::Str(d)), log)) matches Some(
            ReplyView::Object(ObjView::Array { items: held, desc }),
        ) && held == items && (h.text(d).len() > 0 ==> desc == h.text(d)),
{
    assert(items.push(Value::Str(d)).subrange(0, items.len() as int) =~= items);
}

/// A new array holds so many zeros of its type; a negative size throws.
#[verifier::rlimit(40)]
pub proof fn law_new_arrays(h: HostView, n: i64, d: usize, i: int, log: Answers)
    ensures
        n < 0 ==> (pushed(coerced(h, KT_ARRAY_NEW, 0, seq![Value::Int(n), Value::Str(d)], log))
            matches Some(ReplyView::Fault(_))),
        n >= 0 ==> (pushed(coerced(h, KT_ARRAY_NEW, 0, seq![Value::Int(n), Value::Str(d)], log))
            matches Some(ReplyView::Object(ObjView::Array { items, desc })) && desc == h.text(d)
            && items.len() == n && (0 <= i < n ==> {
            &&& h.text(d) == "[Z"@ ==> items[i] == Value::Bool(false)
            &&& h.text(d) == "[I"@ ==> items[i] == Value::Int(0)
            &&& h.text(d) == "[C"@ ==> crate::value::code_of(items[i]) == Some(0int)
        })),
{
    reveal_strlit("[D");
    reveal_strlit("[Z");
    reveal_strlit("[C");
    reveal_strlit("[I");
    assert("[D"@[1] == 'D' && "[Z"@[1] == 'Z' && "[C"@[1] == 'C' && "[I"@[1] == 'I');
}

proof fn lemma_same_key(h: HostView, es: Seq<(Value, Value)>, k: Value, i: int, at: int)
    requires
        0 <= i <= at < es.len(),
        is_alike(h, es[at].0, k),
        forall|j: int| i <= j < at ==> !is_alike(h, (#[trigger] es[j]).0, k),
    ensures
        same_key(h, es, k, i) == at,
    decreases at - i,
{
    if i < at {
        lemma_same_key(h, es, k, i + 1, at);
    }
}

proof fn lemma_no_key(h: HostView, es: Seq<(Value, Value)>, k: Value, i: int)
    requires
        0 <= i,
        forall|j: int| 0 <= j < es.len() ==> !is_alike(h, (#[trigger] es[j]).0, k),
    ensures
        same_key(h, es, k, i) == es.len(),
    decreases es.len() - i,
{
    if i < es.len() {
        lemma_no_key(h, es, k, i + 1);
    }
}

/// A map literal holds one entry for each key, where the key first stands and with
/// the value that it last has.
#[verifier::rlimit(40)]
pub proof fn law_map_literals(
    h: HostView,
    ops: Seq<Value>,
    p: Value,
    k: Value,
    v: Value,
    at: int,
    log: Answers,
)
    requires
        h.obj(p) == Some(ObjView::Pair(k, v)),
    ensures
        pushed(coerced(h, KT_MAP, 0, Seq::empty(), log)) == Some(
            ReplyView::Object(ObjView::MapObj(Seq::empty())),
        ),
        ({
            let es = paired_up(h, ops);
            &&& pushed(coerced(h, KT_MAP, 0, ops, log)) == Some(
                ReplyView::Object(ObjView::MapObj(es)),
            )
            &&& (forall|j: int| 0 <= j < es.len() ==> !is_alike(h, (#[trigger] es[j]).0, k))
                ==> pushed(coerced(h, KT_MAP, 0, ops.push(p), log)) == Some(
                ReplyView::Object(ObjView::MapObj(es.push((k, v)))),
            )
            &&& (0 <= at < es.len() && is_alike(h, es[at].0, k) && (forall|j: int|
                0 <= j < at ==> !is_alike(h, (#[trigger] es[j]).0, k))) ==> pushed(
                coerced(h, KT_MAP, 0, ops.push(p), log),
            ) == Some(ReplyView::Object(ObjView::MapObj(es.update(at, (es[at].0, v)))))
        }),
{
    let es = paired_up(h, ops);
    assert(ops.push(p).drop_last() =~= ops);
    assert(ops.push(p).last() == p);
    if forall|j: int| 0 <= j < es.len() ==> !is_alike(h, (#[trigger] es[j]).0, k) {
        lemma_no_key(h, es, k, 0);
    }
    if 0 <= at < es.len() && is_alike(h, es[at].0, k) && (forall|j: int|
        0 <= j < at ==> !is_alike(h, (#[trigger] es[j]).0, k)) {
        lemma_same_key(h, es, k, 0, at);
    }
}

// ── Ranges ──────────────────────────────────────────────────────────────────

/// `..`, `until` and `downTo` make the range of their bounds, of characters where a
/// bound is one.
#[verifier::rlimit(40)]
pub proof fn law_range_operators(h: HostView, a: i64, b: i64, log: Answers)
    ensures
        pushed(coerced(h, KT_RANGE, 0, seq![Value::Int(a), Value::Int(b)], log)) == Some(
            ReplyView::Object(ObjView::Range(range_of(a, b, RangeForm::Inclusive, false))),
        ),
        pushed(coerced(h, KT_RANGE, 1, seq![Value::Int(a), Value::Int(b)], log)) == Some(
            ReplyView::Object(ObjView::Range(range_of(a, b, RangeForm::Until, false))),
        ),
        pushed(coerced(h, KT_RANGE, 2, seq![Value::Int(a), Value::Int(b)], log)) == Some(
            ReplyView::Object(ObjView::Range(range_of(a, b, RangeForm::DownTo, false))),
        ),
{
}

/// `step` keeps the bounds and the direction of a range, and says how far apart its
/// elements stand; it has to be positive.
#[verifier::rlimit(40)]
pub proof fn law_steps(h: HostView, v: Value, r: RangeObj, n: i64, log: Answers)
    requires
        h.obj(v) == Some(ObjView::Range(r)),
    ensures
        n > 0 ==> (pushed(coerced(h, KT_RANGE_STEP, 0, seq![v, Value::Int(n)], log)) matches Some(
            ReplyView::Object(ObjView::Range(s)),
        ) && s.first == r.first && s.end == r.end && s.is_char == r.is_char && s.progression
            && s.step == (if r.step < 0 {
            -n
        } else {
            n as int
        })),
        n <= 0 ==> (pushed(coerced(h, KT_RANGE_STEP, 0, seq![v, Value::Int(n)], log)) matches Some(
            ReplyView::Fault(_),
        )),
{
}

// ── Iteration ───────────────────────────────────────────────────────────────

/// A loop over a list, a set or an array visits every element in order; over a map,
/// every entry.
#[verifier::rlimit(40)]
pub proof fn law_loops(h: HostView, v: Value, items: Seq<Value>, i: i64, log: Answers)
    requires
        h.obj(v) == Some(ObjView::List(items)) || h.obj(v) == Some(ObjView::SetObj(items)),
        items.len() <= i64::MAX,
        0 <= i < items.len(),
    ensures
        pushed(coerced(h, KT_ITER_SIZE, 0, seq![v], log)) == Some(
            ReplyView::Value(Value::Int(items.len() as i64)),
        ),
        pushed(coerced(h, KT_ITER_GET, 0, seq![v, Value::Int(i)], log)) == Some(
            ReplyView::Value(items[i as int]),
        ),
{
}

/// A loop over a map visits its entries in order.
#[verifier::rlimit(40)]
pub proof fn law_map_loops(h: HostView, v: Value, es: Seq<(Value, Value)>, i: i64, log: Answers)
    requires
        h.obj(v) == Some(ObjView::MapObj(es)),
        es.len() <= i64::MAX,
        0 <= i < es.len(),
    ensures
        pushed(coerced(h, KT_ITER_SIZE, 0, seq![v], log)) == Some(
            ReplyView::Value(Value::Int(es.len() as i64)),
        ),
        pushed(coerced(h, KT_ITER_GET, 0, seq![v, Value::Int(i)], log)) == Some(
            ReplyView::Object(ObjView::Entry(es[i as int].0, es[i as int].1)),
        ),
{
}

/// `x in c` asks the right operand whether it holds the left one.
#[verifier::rlimit(40)]
pub proof fn law_in(h: HostView, x: Value, c: Value, log: Answers)
    ensures
        coerced(h, KT_IN, 0, seq![x, c], log).1 == (match contains_walk(h, c, x, log) {
            Ok(b) => Ok::<EffectView, Stop>(
                EffectView::Push(ReplyView::Value(Value::Bool(b))),
            ),
            Err(s) => Err(s),
        }),
{
}

/// A list that grows takes the new element behind the others.
#[verifier::rlimit(40)]
pub proof fn law_list_pushes(h: HostView, v: Value, items: Seq<Value>, x: Value, log: Answers)
    requires
        h.obj(v) == Some(ObjView::List(items)),
    ensures
        coerced(h, KT_LISTPUSH, 0, seq![v, x], log).1 == Ok::<EffectView, Stop>(
            EffectView::Quiet(
                ReplyView::Update(v, ObjView::List(items + seq![x]), Value::Undef),
            ),
        ),
{
    assert(items.push(x) =~= items + seq![x]);
}

// ── Texts ───────────────────────────────────────────────────────────────────

/// The text of a value is its printed form.
#[verifier::rlimit(40)]
pub proof fn law_to_string(h: HostView, v: Value, log: Answers)
    requires
        !shown(h, v).1,
    ensures
        pushed(coerced(h, KT_TO_STRING, 0, seq![v], log)) == Some(ReplyView::Text(text_of(h, v))),
{
}

// ── Classes ─────────────────────────────────────────────────────────────────

/// What describes a class to its constructor, as it is written: its name, whether
/// it is a data class, how many of its properties make it up, their widths, and
/// their names.
#[verifier::rlimit(40)]
pub proof fn law_constructors(
    h: HostView,
    m: usize,
    class: Seq<char>,
    mark: Seq<char>,
    count: Seq<char>,
    widths: Seq<char>,
    name: Seq<char>,
    v: Value,
    log: Answers,
)
    requires
        pieces(h.text(m), "\u{1f}"@) == seq![class, mark, count, widths, name],
    ensures
        pushed(coerced(h, KT_NEW, 1, seq![Value::Str(m), v], log)) matches Some(
            ReplyView::Object(ObjView::Instance { class: c, is_data, fields, data_from, .. }),
        ) && c == class && is_data == (mark == "d"@) && fields == seq![(name, v)] && data_from == 0,
        widths.len() > 0 ==> coerced(h, KT_NEW, 1, seq![Value::Str(m), v], log).0.widths
            == h.widths.insert(class, widths),
{
    let ps = seq![class, mark, count, widths, name];
    assert(ps.skip(4) =~= seq![name]);
    let ops = seq![Value::Str(m), v];
    assert(ops.subrange(1, 2) =~= seq![v]);
    let none = Seq::<(Seq<char>, Value)>::empty();
    assert(none + crate::instances::named_values(seq![name], seq![v]) =~= seq![(name, v)]);
    assert(meta_of(h.text(m)).names == seq![name]);
    assert(fields_of(h, Value::Undef) == none);
}

/// A subclass has the properties of its base before its own.
#[verifier::rlimit(40)]
pub proof fn law_subclasses(
    h: HostView,
    m: usize,
    class: Seq<char>,
    name: Seq<char>,
    rest: Seq<Seq<char>>,
    base: Value,
    v: Value,
    log: Answers,
)
    requires
        rest.len() == 3,
        pieces(h.text(m), "\u{1f}"@) == seq![class] + rest + seq![name],
    ensures
        pushed(coerced(h, KT_EXTEND, 1, seq![base, Value::Str(m), v], log)) matches Some(
            ReplyView::Object(ObjView::Instance { class: c, fields, data_from, .. }),
        ) && c == class && fields == fields_of(h, base) + seq![(name, v)] && data_from
            == fields_of(h, base).len(),
{
    let ps = seq![class] + rest + seq![name];
    assert(ps.skip(4) =~= seq![name]);
    let ops = seq![base, Value::Str(m), v];
    assert(ops.subrange(2, 3) =~= seq![v]);
    assert(crate::instances::named_values(seq![name], seq![v]) =~= seq![(name, v)]);
}

/// A declared type is below the types that it lists, and below no others but
/// itself.
#[verifier::rlimit(40)]
pub proof fn law_declared_types(
    h: HostView,
    t: usize,
    s: usize,
    ty: Seq<char>,
    log: Answers,
)
    requires
        h.text(s).len() > 0,
    ensures
        coerced(h, KT_TYPE_REG, 0, seq![Value::Str(t), Value::Str(s)], log).0.class_is(h.text(t), ty)
            <==> ty == h.text(t) || pieces(h.text(s), ","@).contains(ty),
{
}

/// An override of `toString` is declared for its class.
#[verifier::rlimit(40)]
pub proof fn law_text_overrides(h: HostView, t: usize, n: i64, log: Answers)
    requires
        0 <= n <= u16::MAX,
    ensures
        coerced(h, KT_TOSTRING_REG, 0, seq![Value::Str(t), Value::Int(n)], log).0 == (HostView {
            tostring_subs: h.tostring_subs.insert(h.text(t), n as u16),
            ..h
        }),
{
}

/// An override of `equals` is declared for its class.
#[verifier::rlimit(40)]
pub proof fn law_equality_overrides(h: HostView, t: usize, n: i64, log: Answers)
    requires
        0 <= n <= u16::MAX,
    ensures
        coerced(h, KT_EQUALS_REG, 0, seq![Value::Str(t), Value::Int(n)], log).0 == (HostView {
            equals_subs: h.equals_subs.insert(h.text(t), n as u16),
            ..h
        }),
{
}

/// An override of `hashCode` is declared for its class.
#[verifier::rlimit(40)]
pub proof fn law_hash_overrides(h: HostView, t: usize, n: i64, log: Answers)
    requires
        0 <= n <= u16::MAX,
    ensures
        coerced(h, KT_HASH_REG, 0, seq![Value::Str(t), Value::Int(n)], log).0 == (HostView {
            hashcode_subs: h.hashcode_subs.insert(h.text(t), n as u16),
            ..h
        }),
{
}

/// A class declared as that of `enum` constants is one.
#[verifier::rlimit(40)]
pub proof fn law_enums(h: HostView, t: usize, log: Answers)
    ensures
        coerced(h, KT_ENUM_REG, 0, seq![Value::Str(t)], log).0.class_is_enum(h.text(t)),
{
}

proof fn lemma_field(fields: Seq<(Seq<char>, Value)>, name: Seq<char>, v: Value, i: int)
    requires
        0 <= i < fields.len(),
        fields[i].0 == name,
        forall|j: int| 0 <= j < i ==> (#[trigger] fields[j]).0 != name,
    ensures
        field_set(fields, name, v) == Some(fields.update(i, (name, v))),
    decreases i,
{
    if i > 0 {
        let rest = fields.skip(1);
        assert forall|j: int| 0 <= j < i - 1 implies (#[trigger] rest[j]).0 != name by {
            assert(rest[j] == fields[j + 1]);
        }
        lemma_field(rest, name, v, i - 1);
        assert(seq![fields[0]] + rest.update(i - 1, (name, v)) =~= fields.update(i, (name, v)));
    }
}

/// An assignment to a property changes that property and nothing else.
#[verifier::rlimit(40)]
pub proof fn law_properties_are_assigned(
    h: HostView,
    o: Value,
    class: Seq<char>,
    is_data: bool,
    fields: Seq<(Seq<char>, Value)>,
    from: int,
    len: int,
    t: usize,
    i: int,
    v: Value,
    log: Answers,
)
    requires
        h.obj(o) == Some(
            ObjView::Instance { class, is_data, fields, data_from: from, data_len: len },
        ),
        0 <= i < fields.len(),
        fields[i].0 == h.text(t),
        forall|j: int| 0 <= j < i ==> (#[trigger] fields[j]).0 != h.text(t),
    ensures
        coerced(h, KT_SETFIELD, 0, seq![o, v, Value::Str(t)], log).1 == Ok::<EffectView, Stop>(
            EffectView::Quiet(
                ReplyView::Update(
                    o,
                    ObjView::Instance {
                        class,
                        is_data,
                        fields: fields.update(i, (h.text(t), v)),
                        data_from: from,
                        data_len: len,
                    },
                    Value::Undef,
                ),
            ),
        ),
{
    lemma_field(fields, h.text(t), v, i);
}

} // verus!
