//! How maps and sets are put together with `+`, `-` and their constructors, and how
//! numbers and texts are read as one another.
use crate::hof::CallArgs;
use crate::value::Value;
use crate::walk::Stop;
use vstd::prelude::*;

verus! {

use crate::compare::budget;
use crate::hof::{hof_step, PlanView, StepView};
use crate::host::HostView;
use crate::laws::changes::{
    alike, are_plain, is_first, is_plain, lemma_plain_member, lemma_plain_position, nothing_asked,
};
use crate::laws::names::lemma_names;
use crate::lexer::digits_number;
use crate::numbers::number_member;
use crate::numtext::{digits_stop, number_of};
use crate::operators::{
    among_walk, distinct_walk, minus_keys_walk, operator_walk, pairs_in, put_all_walk,
};
use crate::order::entry_keys;
use crate::radix::lemma_nat_digits_read_back;
use crate::reply::{NumberTextView, ReplyView};
use crate::types::{label_of, object_class};
use crate::value::{code_of, ObjView};
use crate::walk::Answers;

// ── Maps ────────────────────────────────────────────────────────────────────

/// `+` gives a map one more entry, or the entry of a key that it has the new value,
/// in its old place; the assigning form changes the map itself.
pub proof fn law_map_plus(
    h: HostView,
    recv: Value,
    es: Seq<(Value, Value)>,
    pair: Value,
    k: Value,
    v: Value,
    p: int,
)
    requires
        h.obj(recv) == Some(ObjView::MapObj(es)),
        h.obj(pair) == Some(ObjView::Pair(k, v)),
        are_plain(entry_keys(es)),
        is_plain(k),
        is_first(h, entry_keys(es), k, p),
    ensures
        ({
            let more = if p < es.len() {
                es.update(p, (es[p].0, v))
            } else {
                es.push((k, v))
            };
            &&& operator_walk(h, recv, "plus"@, pair, nothing_asked()) == Ok::<ReplyView, Stop>(
                ReplyView::Object(ObjView::MapObj(more)),
            )
            &&& operator_walk(h, recv, "plusAssign"@, pair, nothing_asked()) == Ok::<
                ReplyView,
                Stop,
            >(ReplyView::Update(recv, ObjView::MapObj(more), Value::Undef))
        }),
{
    lemma_names();
    let q = lemma_plain_position(h, entry_keys(es), k, 0, true, budget(h));
    lemma_first_is_one(h, entry_keys(es), k, p, q);
    let add = seq![(k, v)];
    let more = if p < es.len() {
        es.update(p, (es[p].0, v))
    } else {
        es.push((k, v))
    };
    assert(put_all_walk(h, nothing_asked(), 0, more, add, 1, budget(h)) == Ok::<
        (Seq<(Value, Value)>, nat),
        Stop,
    >((more, 0)));
    assert(put_all_walk(h, nothing_asked(), 0, es, add, 0, budget(h)) == Ok::<
        (Seq<(Value, Value)>, nat),
        Stop,
    >((more, 0)));
}

proof fn lemma_first_is_one(h: HostView, vs: Seq<Value>, v: Value, p: int, q: int)
    requires
        is_first(h, vs, v, p),
        0 <= q <= vs.len(),
        q < vs.len() ==> alike(h, vs[q], v),
        forall|k: int| 0 <= k < q ==> !alike(h, #[trigger] vs[k], v),
    ensures
        p == q,
{
    if p < q {
        assert(!alike(h, vs[p], v));
    } else if q < p {
        assert(!alike(h, vs[q], v));
    }
}

proof fn lemma_minus_keys(
    h: HostView,
    es: Seq<(Value, Value)>,
    k: Value,
    p: int,
    i: int,
    out: Seq<(Value, Value)>,
)
    requires
        are_plain(entry_keys(es)),
        is_plain(k),
        0 <= i <= es.len(),
        0 <= p <= es.len(),
        forall|j: int| 0 <= j < es.len() ==> (alike(h, (#[trigger] es[j]).0, k) <==> j == p),
        out == (if i <= p {
            es.take(i)
        } else {
            es.take(p) + es.subrange(p + 1, i)
        }),
    ensures
        minus_keys_walk(h, nothing_asked(), 0, es, i, seq![k], out, budget(h)) == Ok::<
            (Seq<(Value, Value)>, nat),
            Stop,
        >(
            (
                if p < es.len() {
                    es.remove(p)
                } else {
                    es
                },
                0,
            ),
        ),
    decreases es.len() - i,
{
    if i < es.len() {
        let drop = seq![k];
        assert(entry_keys(es)[i] == es[i].0);
        assert(is_plain(entry_keys(es)[i]));
        lemma_plain_member(h, es[i].0, k, true, budget(h));
        lemma_plain_member(h, k, es[i].0, true, budget(h));
        let hit = alike(h, es[i].0, k);
        assert(among_walk(h, nothing_asked(), 0, es[i].0, drop, 1, true, budget(h)) == Ok::<
            (bool, nat),
            Stop,
        >((false, 0)));
        assert(among_walk(h, nothing_asked(), 0, es[i].0, drop, 0, true, budget(h)) == Ok::<
            (bool, nat),
            Stop,
        >((hit, 0)));
        let next = if hit {
            out
        } else {
            out.push(es[i])
        };
        if hit {
            assert(es.take(p) + es.subrange(p + 1, i + 1) =~= out);
        } else if i < p {
            assert(out.push(es[i]) =~= es.take(i + 1));
        } else {
            assert(out.push(es[i]) =~= es.take(p) + es.subrange(p + 1, i + 1));
        }
        lemma_minus_keys(h, es, k, p, i + 1, next);
    } else {
        if p < es.len() {
            assert(out =~= es.remove(p));
        } else {
            assert(out =~= es);
        }
    }
}

/// `-` takes the entry of a key out of a map and leaves the others.
pub proof fn law_map_minus(h: HostView, recv: Value, es: Seq<(Value, Value)>, k: Value, p: int)
    requires
        h.obj(recv) == Some(ObjView::MapObj(es)),
        are_plain(entry_keys(es)),
        is_plain(k),
        0 <= p <= es.len(),
        forall|j: int| 0 <= j < es.len() ==> (alike(h, (#[trigger] es[j]).0, k) <==> j == p),
    ensures
        operator_walk(h, recv, "minus"@, k, nothing_asked()) == Ok::<ReplyView, Stop>(
            ReplyView::Object(
                ObjView::MapObj(
                    if p < es.len() {
                        es.remove(p)
                    } else {
                        es
                    },
                ),
            ),
        ),
{
    lemma_names();
    assert(es.take(0) =~= Seq::<(Value, Value)>::empty());
    lemma_minus_keys(h, es, k, p, 0, Seq::empty());
    assert(crate::operators::dropped(h, k) == seq![k]);
}

/// The pairs among some values, in order: one value more is one pair more where it
/// is a pair.
pub proof fn law_pairs_among_values(h: HostView, vs: Seq<Value>, v: Value, a: Value, b: Value)
    ensures
        pairs_in(h, Seq::empty()).len() == 0,
        h.obj(v) == Some(ObjView::Pair(a, b)) ==> pairs_in(h, vs.push(v)) == pairs_in(h, vs).push(
            (a, b),
        ),
        !(h.obj(v) matches Some(ObjView::Pair(_, _))) ==> pairs_in(h, vs.push(v)) == pairs_in(
            h,
            vs,
        ),
{
    assert(vs.push(v).drop_last() =~= vs);
    assert(vs.push(v).last() == v);
}

// ── Sets ────────────────────────────────────────────────────────────────────

/// `+` on a set gives the distinct elements of the set and the operand.
pub proof fn law_set_plus(h: HostView, recv: Value, items: Seq<Value>, v: Value, d: Seq<Value>, n: nat)
    requires
        h.obj(recv) == Some(ObjView::SetObj(items)),
        h.obj(v) is None,
        distinct_walk(
            h,
            nothing_asked(),
            0,
            items + seq![v],
            0,
            Seq::empty(),
            budget(h),
        ) == Ok::<(Seq<Value>, nat), Stop>((d, n)),
    ensures
        operator_walk(h, recv, "plus"@, v, nothing_asked()) == Ok::<ReplyView, Stop>(
            ReplyView::Object(ObjView::SetObj(d)),
        ),
        operator_walk(h, recv, "plusAssign"@, v, nothing_asked()) == Ok::<ReplyView, Stop>(
            ReplyView::Update(recv, ObjView::SetObj(d), Value::Undef),
        ),
{
    lemma_names();
    assert(items.push(v) =~= items + seq![v]);
}

// ── Numbers and texts ───────────────────────────────────────────────────────

/// `toString` with a radix writes the digits of that base: read back they are the
/// number. A base that is none throws.
pub proof fn law_radix_texts(h: HostView, n: i64, r: i64) -> (t: Seq<char>)
    requires
        n >= 0,
    ensures
        2 <= r <= 36 ==> number_member(h, Value::Int(n), "toString"@, seq![Value::Int(r)]) == Some(
            ReplyView::Text(t),
        ) && digits_number(t, r as int) == n,
        0 <= r < 2 || 36 < r <= u32::MAX ==> (number_member(
            h,
            Value::Int(n),
            "toString"@,
            seq![Value::Int(r)],
        ) matches Some(ReplyView::Fault(_))),
{
    lemma_names();
    if 2 <= r <= 36 {
        lemma_nat_digits_read_back(n as nat, r as nat);
    }
    crate::radix::nat_digits(n as nat, r as nat)
}

/// The integer that a value is read as: a number without its fraction, a truth value
/// as 1 or 0, null as 0, and a character by its code.
pub proof fn law_values_as_integers(h: HostView, n: i64, v: Value, c: int)
    ensures
        h.to_int(Value::Int(n)) == n,
        h.to_int(Value::Bool(true)) == 1,
        h.to_int(Value::Bool(false)) == 0,
        h.to_int(Value::Undef) == 0,
        h.num_of(Value::Int(n)) == n,
        code_of(v) == Some(c) ==> h.num_of(v) == c,
{
}

/// A text that writes an integer is read as it.
pub proof fn law_texts_as_integers(h: HostView, id: usize, n: i64)
    requires
        h.text(id) == crate::radix::decimal(n as int),
    ensures
        h.to_int(Value::Str(id)) == n,
{
    crate::radix::law_radix_round_trip(n as int, 10);
}

proof fn lemma_stop(s: Seq<char>, i: int, e: int)
    requires
        0 <= i <= e <= s.len(),
        forall|k: int| i <= k < e ==> '0' <= #[trigger] s[k] <= '9',
        e < s.len() ==> !('0' <= s[e] <= '9'),
    ensures
        digits_stop(s, i) == e,
    decreases e - i,
{
    if i < e {
        lemma_stop(s, i + 1, e);
    }
}

/// A text of digits with a point among them is read as that decimal number, with
/// its sign, and without the blanks around it.
pub proof fn law_decimal_texts(w: Seq<char>, f: Seq<char>)
    requires
        w.len() > 0 && f.len() > 0,
        forall|i: int| 0 <= i < w.len() ==> '0' <= #[trigger] w[i] <= '9',
        forall|i: int| 0 <= i < f.len() ==> '0' <= #[trigger] f[i] <= '9',
    ensures
        ({
            let s = w + seq!['.'] + f;
            &&& number_of(s) == Some(NumberTextView::Decimal { negative: false, body: s })
            &&& number_of(seq!['-'] + s) == Some(
                NumberTextView::Decimal { negative: true, body: s },
            )
            &&& number_of(seq!['+'] + s) == Some(
                NumberTextView::Decimal { negative: false, body: s },
            )
            &&& number_of(seq![' '] + s) == number_of(s)
            &&& number_of(s.push(' ')) == number_of(s)
        }),
{
    let s = w + seq!['.'] + f;
    let k = w.len() as int;
    assert forall|i: int| 0 <= i < k implies '0' <= #[trigger] s[i] <= '9' by {
        assert(s[i] == w[i]);
    }
    assert forall|i: int| k + 1 <= i < s.len() implies '0' <= #[trigger] s[i] <= '9' by {
        assert(s[i] == f[i - k - 1]);
    }
    assert(s[k] == '.');
    lemma_stop(s, 0, k);
    lemma_stop(s, k + 1, s.len() as int);
    assert('0' <= s[0] <= '9');
    assert('0' <= s[s.len() - 1] <= '9');
    reveal_strlit("Infinity");
    reveal_strlit("NaN");
    assert("Infinity"@[0] == 'I' && "NaN"@[0] == 'N');
    let m = seq!['-'] + s;
    let p = seq!['+'] + s;
    assert(m.skip(1) =~= s && p.skip(1) =~= s);
    assert(m[0] == '-' && p[0] == '+' && m.last() == s.last() && p.last() == s.last());
    let b = seq![' '] + s;
    assert(b.skip(1) =~= s && b[0] == ' ');
    let e = s.push(' ');
    assert(e.drop_last() =~= s && e[0] == s[0]);
    if k >= 1 {
        assert(s[1] == '.' || '0' <= s[1] <= '9');
    }
}

/// The names of the doubles that have no digits are read too; an empty text is no
/// number.
pub proof fn law_special_texts()
    ensures
        number_of("Infinity"@) == Some(NumberTextView::Infinity { negative: false }),
        number_of("NaN"@) == Some(NumberTextView::NotANumber),
        number_of(Seq::empty()) is None,
{
    reveal_strlit("Infinity");
    reveal_strlit("NaN");
    assert("Infinity"@[0] == 'I' && "NaN"@[0] == 'N');
    assert("Infinity"@.last() == 'y' && "NaN"@.last() == 'N');
}

// ── Names of kinds ──────────────────────────────────────────────────────────

/// What a message calls a value.
pub proof fn law_labels(h: HostView, v: Value, o: ObjView, s: usize)
    requires
        code_of(v) is None,
        h.obj(v) == Some(o),
    ensures
        label_of(h, Value::Str(s)) == "String"@,
        o is List ==> label_of(h, v) == "List"@,
        o is SetObj ==> label_of(h, v) == "Set"@,
        o is MapObj ==> label_of(h, v) == "Map"@,
        o is Pair ==> label_of(h, v) == "Pair"@,
        o is Triple ==> label_of(h, v) == "Triple"@,
        o is Entry ==> label_of(h, v) == "Map.Entry"@,
        o is Array ==> label_of(h, v) == "Array"@,
        o is Builder ==> label_of(h, v) == "StringBuilder"@,
        o is Closure ==> label_of(h, v) == "Function"@,
        o is Res ==> label_of(h, v) == "Result"@,
        o is Gen ==> label_of(h, v) == "Sequence"@,
        h.class_of(v) matches Some(c) ==> label_of(h, v) == c,
{
}

/// The class that a collection has at run time.
pub proof fn law_run_time_classes(h: HostView, v: Value, items: Seq<Value>)
    ensures
        h.obj(v) == Some(ObjView::List(items)) && h.list_tag(v) is None ==> object_class(h, v)
            == Some(("java.util.ArrayList"@, true)),
        h.obj(v) == Some(ObjView::List(items)) && h.list_tag(v) == Some(
            crate::host::ListImpl::Literal,
        ) ==> object_class(h, v) == Some(
            if items.len() == 0 {
                ("kotlin.collections.EmptyList"@, false)
            } else if items.len() == 1 {
                ("java.util.Collections$SingletonList"@, true)
            } else {
                ("java.util.Arrays$ArrayList"@, true)
            },
        ),
        h.obj(v) matches Some(ObjView::Pair(_, _)) ==> object_class(h, v) == Some(
            ("kotlin.Pair"@, false),
        ),
        h.obj(v) matches Some(ObjView::Triple(_, _, _)) ==> object_class(h, v) == Some(
            ("kotlin.Triple"@, false),
        ),
        h.obj(v) matches Some(ObjView::Range(r)) && !r.is_char && !r.progression ==> object_class(
            h,
            v,
        ) == Some(("kotlin.ranges.IntRange"@, false)),
{
}

// ── Joining by a lambda ─────────────────────────────────────────────────────

/// `joinToString` with a lambda calls it on each element in turn and joins the texts
/// of what it gave.
pub proof fn law_join_by_a_lambda(h: HostView, p: PlanView, rs: Seq<Value>, log: Answers)
    requires
        p.name == "joinToString"@,
        p.extras.len() == 0,
        !p.text,
        p.notes.texts.len() == p.items.len(),
        rs.len() <= p.items.len(),
    ensures
        rs.len() < p.items.len() ==> hof_step(h, p, rs, log) == Ok::<StepView, Stop>(
            StepView::Call(p.lambda, CallArgs::One(p.items[rs.len() as int])),
        ),
        rs.len() == p.items.len() ==> hof_step(h, p, rs, log) == Ok::<StepView, Stop>(
            StepView::Done(ReplyView::Text(crate::search::joined(p.notes.texts, ", "@))),
        ),
{
    lemma_names();
    let n = p.items.len() as int;
    let ts = p.notes.texts;
    assert(ts.take(n) =~= ts);
    reveal_strlit("");
    let whole = crate::search::joined(ts, ", "@);
    assert(""@ + whole + ""@ =~= whole);
    assert(crate::receiver::shown_count(h, p.extras, n) == n);
}

// ── Trimming by a predicate ─────────────────────────────────────────────────

/// `trim` with a predicate asks from the start until one character is not accepted,
/// then from the end, and keeps what stands between.
pub proof fn law_trim_by_a_predicate(h: HostView, p: PlanView, x: Value, y: Value, log: Answers)
    requires
        p.items == seq![x, y],
        !p.text,
    ensures
        p.name == "trimStart"@ ==> {
            &&& hof_step(h, p, Seq::empty(), log) == Ok::<StepView, Stop>(
                StepView::Call(p.lambda, CallArgs::One(x)),
            )
            &&& hof_step(h, p, seq![Value::Bool(true)], log) == Ok::<StepView, Stop>(
                StepView::Call(p.lambda, CallArgs::One(y)),
            )
            &&& hof_step(h, p, seq![Value::Bool(false)], log) == Ok::<StepView, Stop>(
                StepView::Done(ReplyView::Object(ObjView::List(seq![x, y]))),
            )
            &&& hof_step(h, p, seq![Value::Bool(true), Value::Bool(false)], log) == Ok::<
                StepView,
                Stop,
            >(StepView::Done(ReplyView::Object(ObjView::List(seq![y]))))
        },
        p.name == "trimEnd"@ ==> {
            &&& hof_step(h, p, Seq::empty(), log) == Ok::<StepView, Stop>(
                StepView::Call(p.lambda, CallArgs::One(y)),
            )
            &&& hof_step(h, p, seq![Value::Bool(true), Value::Bool(false)], log) == Ok::<
                StepView,
                Stop,
            >(StepView::Done(ReplyView::Object(ObjView::List(seq![x]))))
        },
{
    lemma_names();
    reveal_with_fuel(crate::gather::first_where, 3);
    let none = Seq::<Value>::empty();
    let t = seq![Value::Bool(true)];
    let f = seq![Value::Bool(false)];
    let tf = seq![Value::Bool(true), Value::Bool(false)];
    assert(crate::gather::first_where(none, false) == 0);
    assert(t.drop_last() =~= none && f.drop_last() =~= none && tf.drop_last() =~= t);
    assert(t.skip(1) =~= none && f.skip(1) =~= none && tf.skip(1) =~= f);
    assert(crate::gather::first_where(t, false) == 1);
    assert(crate::gather::first_where(f, false) == 0);
    assert(crate::gather::first_where(tf, false) == 1);
    assert(p.items.subrange(0, 2) =~= seq![x, y]);
    assert(p.items.subrange(1, 2) =~= seq![y]);
    assert(p.items.subrange(0, 1) =~= seq![x]);
}

} // verus!
