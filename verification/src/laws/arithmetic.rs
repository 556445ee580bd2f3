//! What the members and operators of numbers answer.
use crate::numbers::NumOp;
use crate::reply::{FloatOp, FloatTask};
use crate::value::Value;
use vstd::prelude::*;

verus! {

use crate::display::text_of;
use crate::gather::all_ints;
use crate::host::HostView;
use crate::laws::names::lemma_names;
use crate::numbers::{
    int_extreme,
    law_floor_quotient_and_remainder,
    law_quotient_and_remainder,
    magnitude,
    math_reply,
    number_member,
    operator_reply,
};
use crate::reply::ReplyView;
use crate::value::{char_value, code_of};
use vstd::arithmetic::div_mod::lemma_mod_bound;

/// The member `name` of the integer `x` answers the integer `n`.
pub open spec fn counts(h: HostView, x: i64, name: Seq<char>, args: Seq<Value>, n: int) -> bool {
    i64::MIN <= n <= i64::MAX && number_member(h, Value::Int(x), name, args) == Some(
        ReplyView::Value(Value::Int(n as i64)),
    )
}

/// The member leaves a floating-point operation to do.
pub open spec fn leaves(h: HostView, v: Value, name: Seq<char>, args: Seq<Value>, t: FloatTask) -> bool {
    number_member(h, v, name, args) == Some(ReplyView::Compute(t))
}

/// The function `name` of `kotlin.math` answers the integer `n` for `x` and `y`.
pub open spec fn computes(h: HostView, name: Seq<char>, x: i64, y: i64, n: int) -> bool {
    i64::MIN <= n <= i64::MAX && math_reply(h, name, seq![Value::Int(x), Value::Int(y)])
        == ReplyView::Value(Value::Int(n as i64))
}

/// The fault of a division by zero.
pub open spec fn by_zero() -> ReplyView {
    ReplyView::Fault("java.lang.ArithmeticException: / by zero"@)
}

/// Sums, differences and products of integers are those of the numbers where they fit 64
/// bits, as members and as operators; a sum or a difference that does not fit is off by
/// the one multiple of two to the 64th that makes it fit.
pub proof fn law_integer_arithmetic(h: HostView, x: i64, y: i64)
    ensures
        i64::MIN <= x + y <= i64::MAX ==> {
            &&& counts(h, x, "plus"@, seq![Value::Int(y)], x + y)
            &&& operator_reply(h, NumOp::Add, Value::Int(x), Value::Int(y)) == ReplyView::Value(
                Value::Int((x + y) as i64),
            )
        },
        i64::MIN <= x - y <= i64::MAX ==> {
            &&& counts(h, x, "minus"@, seq![Value::Int(y)], x - y)
            &&& operator_reply(h, NumOp::Sub, Value::Int(x), Value::Int(y)) == ReplyView::Value(
                Value::Int((x - y) as i64),
            )
        },
        i64::MIN <= x * y <= i64::MAX ==> {
            &&& counts(h, x, "times"@, seq![Value::Int(y)], x * y)
            &&& operator_reply(h, NumOp::Mul, Value::Int(x), Value::Int(y)) == ReplyView::Value(
                Value::Int((x * y) as i64),
            )
        },
        x > i64::MIN ==> operator_reply(h, NumOp::Neg, Value::Int(x), Value::Int(y))
            == ReplyView::Value(Value::Int((-x) as i64)),
        x + y > i64::MAX ==> counts(
            h,
            x,
            "plus"@,
            seq![Value::Int(y)],
            x + y - 0x1_0000_0000_0000_0000,
        ),
        x + y < i64::MIN ==> counts(
            h,
            x,
            "plus"@,
            seq![Value::Int(y)],
            x + y + 0x1_0000_0000_0000_0000,
        ),
        x - y > i64::MAX ==> counts(
            h,
            x,
            "minus"@,
            seq![Value::Int(y)],
            x - y - 0x1_0000_0000_0000_0000,
        ),
        x - y < i64::MIN ==> counts(
            h,
            x,
            "minus"@,
            seq![Value::Int(y)],
            x - y + 0x1_0000_0000_0000_0000,
        ),
{
    lemma_names();
}

/// A quotient drops the fraction, and with the remainder, which has the sign of the
/// dividend, makes up the dividend. A division by zero raises.
pub proof fn law_division(h: HostView, x: i64, y: i64)
    ensures
        y == 0 ==> {
            &&& number_member(h, Value::Int(x), "div"@, seq![Value::Int(y)]) == Some(by_zero())
            &&& number_member(h, Value::Int(x), "rem"@, seq![Value::Int(y)]) == Some(by_zero())
            &&& number_member(h, Value::Int(x), "mod"@, seq![Value::Int(y)]) == Some(by_zero())
        },
        y != 0 && !(x == i64::MIN && y == -1) ==> exists|q: int, r: int|
            {
                &&& #[trigger] counts(h, x, "div"@, seq![Value::Int(y)], q)
                &&& #[trigger] counts(h, x, "rem"@, seq![Value::Int(y)], r)
                &&& x == y * q + r
                &&& -magnitude(y as int) < r < magnitude(y as int)
                &&& r != 0 ==> (r < 0 <==> x < 0)
            },
{
    lemma_names();
    if y != 0 && !(x == i64::MIN && y == -1) {
        law_quotient_and_remainder(x as int, y as int);
        let q = crate::numbers::quotient(x as int, y as int);
        let r = crate::numbers::remainder(x as int, y as int);
        lemma_quotient_fits(x as int, y as int, q, r);
        assert(counts(h, x, "div"@, seq![Value::Int(y)], q));
        assert(counts(h, x, "rem"@, seq![Value::Int(y)], r));
    }
}

proof fn lemma_quotient_fits(x: int, y: int, q: int, r: int)
    requires
        y != 0,
        x == y * q + r,
        magnitude(r) < magnitude(y),
        r != 0 ==> (r < 0) == (x < 0),
        i64::MIN <= x <= i64::MAX,
        i64::MIN <= y <= i64::MAX,
        !(x == i64::MIN && y == -1),
    ensures
        i64::MIN <= q <= i64::MAX,
        i64::MIN <= r <= i64::MAX,
{
    if y == 1 {
        assert(y * q == q);
    } else if y == -1 {
        assert(y * q == -q) by (nonlinear_arith)
            requires
                y == -1,
        ;
    } else {
        assert(2 * magnitude(q) <= magnitude(x)) by (nonlinear_arith)
            requires
                x == y * q + r,
                y >= 2 || y <= -2,
                magnitude(r) < magnitude(y),
                r != 0 ==> (r < 0) == (x < 0),
        ;
    }
}

/// A floored remainder, as `mod` and `Math.floorMod` answer it, has the sign of the
/// divisor, and with `Math.floorDiv` makes up the dividend.
pub proof fn law_floored_division(h: HostView, x: i64, y: i64)
    requires
        y != 0,
        !(x == i64::MIN && y == -1),
    ensures
        exists|q: int, r: int|
            {
                &&& #[trigger] computes(h, "floorDiv"@, x, y, q)
                &&& #[trigger] computes(h, "floorMod"@, x, y, r)
                &&& counts(h, x, "mod"@, seq![Value::Int(y)], r)
                &&& x == y * q + r
                &&& -magnitude(y as int) < r < magnitude(y as int)
                &&& r != 0 ==> (r < 0 <==> y < 0)
            },
{
    lemma_names();
    law_floor_quotient_and_remainder(x as int, y as int);
    let a: int = x as int;
    let b: int = y as int;
    let q = crate::numbers::floor_quotient(a, b);
    let r = crate::numbers::floor_remainder(a, b);
    if b > 0 {
        lemma_mod_bound(a, b);
    } else {
        lemma_mod_bound(-a, -b);
    }
    lemma_floored_fits(a, b, q, r);
    assert(computes(h, "floorDiv"@, x, y, q));
    assert(computes(h, "floorMod"@, x, y, r));
}

proof fn lemma_floored_fits(x: int, y: int, q: int, r: int)
    requires
        y != 0,
        x == y * q + r,
        y > 0 ==> 0 <= r < y,
        y < 0 ==> y < r <= 0,
        i64::MIN <= x <= i64::MAX,
        i64::MIN <= y <= i64::MAX,
        !(x == i64::MIN && y == -1),
    ensures
        i64::MIN <= q <= i64::MAX,
{
    if y == 1 {
        assert(y * q == q);
    } else if y == -1 {
        assert(y * q == -q) by (nonlinear_arith)
            requires
                y == -1,
        ;
    } else if y > 0 {
        assert(-magnitude(x) <= q <= magnitude(x) || (q == -1)) by (nonlinear_arith)
            requires
                x == y * q + r,
                y >= 2,
                0 <= r < y,
        ;
    } else {
        assert(-magnitude(x) <= q <= magnitude(x) || (q == -1)) by (nonlinear_arith)
            requires
                x == y * q + r,
                y <= -2,
                y < r <= 0,
        ;
    }
}

/// `coerceAtLeast` and `coerceAtMost` hold an integer above or below a bound, and
/// `coerceIn` between two; bounds that cross raise.
pub proof fn law_coercion(h: HostView, x: i64, lo: i64, hi: i64)
    ensures
        counts(
            h,
            x,
            "coerceAtLeast"@,
            seq![Value::Int(lo)],
            if x < lo {
                lo as int
            } else {
                x as int
            },
        ),
        counts(
            h,
            x,
            "coerceAtMost"@,
            seq![Value::Int(hi)],
            if x > hi {
                hi as int
            } else {
                x as int
            },
        ),
        lo <= hi ==> counts(
            h,
            x,
            "coerceIn"@,
            seq![Value::Int(lo), Value::Int(hi)],
            if x < lo {
                lo as int
            } else if x > hi {
                hi as int
            } else {
                x as int
            },
        ),
        lo > hi ==> number_member(
            h,
            Value::Int(x),
            "coerceIn"@,
            seq![Value::Int(lo), Value::Int(hi)],
        ) matches Some(ReplyView::Fault(_)),
{
    lemma_names();
}

/// The absolute value is the number without its sign, and the sign is -1, 0 or 1.
pub proof fn law_absolute_value_and_sign(h: HostView, x: i64)
    ensures
        x > i64::MIN ==> counts(
            h,
            x,
            "absoluteValue"@,
            Seq::empty(),
            if x < 0 {
                -x
            } else {
                x as int
            },
        ),
        x > i64::MIN ==> math_reply(h, "abs"@, seq![Value::Int(x)]) == ReplyView::Value(
            Value::Int(
                if x < 0 {
                    (-x) as i64
                } else {
                    x
                },
            ),
        ),
        counts(
            h,
            x,
            "sign"@,
            Seq::empty(),
            if x < 0 {
                -1
            } else if x > 0 {
                1
            } else {
                0
            },
        ),
{
    lemma_names();
}

/// `max` of integers is one of them that no other exceeds, and `min` one that exceeds no
/// other.
pub proof fn law_math_extremes(h: HostView, args: Seq<Value>, i: int)
    requires
        all_ints(args),
        0 <= i < args.len(),
    ensures
        math_reply(h, "max"@, args) matches ReplyView::Value(Value::Int(n)) && args.contains(
            Value::Int(n),
        ) && args[i]->Int_0 <= n,
        math_reply(h, "min"@, args) matches ReplyView::Value(Value::Int(n)) && args.contains(
            Value::Int(n),
        ) && n <= args[i]->Int_0,
{
    lemma_names();
    lemma_int_extreme(args, true, i);
    lemma_int_extreme(args, false, i);
}

proof fn lemma_int_extreme(vs: Seq<Value>, max: bool, i: int)
    requires
        all_ints(vs),
        0 <= i < vs.len(),
    ensures
        i64::MIN <= int_extreme(vs, max) <= i64::MAX,
        vs.contains(Value::Int(int_extreme(vs, max) as i64)),
        max ==> vs[i]->Int_0 <= int_extreme(vs, max),
        !max ==> int_extreme(vs, max) <= vs[i]->Int_0,
    decreases vs.len(),
{
    let less = vs.drop_last();
    let last = vs.len() - 1;
    assert(vs[last] is Int);
    assert(vs[last] == vs.last());
    if less.len() > 0 {
        assert forall|k: int| 0 <= k < less.len() implies (#[trigger] less[k]) is Int by {
            assert(less[k] == vs[k]);
        }
        let k = if i < last {
            i
        } else {
            0
        };
        lemma_int_extreme(less, max, k);
        let b = Value::Int(int_extreme(less, max) as i64);
        let j = choose|j: int| 0 <= j < less.len() && less[j] == b;
        assert(vs[j] == b);
        assert(less[k] == vs[k]);
    }
    assert(vs[last] == Value::Int(vs.last()->Int_0));
}

/// The member `name` of the integer `x` answers `r`.
pub open spec fn gives(h: HostView, x: i64, name: Seq<char>, args: Seq<Value>, r: i64) -> bool {
    number_member(h, Value::Int(x), name, args) == Some(ReplyView::Value(Value::Int(r)))
}

/// The members on bits are those of the two's complement: `and`, `or`, `xor` over 64 bits,
/// and `inv` and the shifts over as many as the type has.
pub proof fn law_bits(h: HostView, x: i64, y: i64, n: i64)
    requires
        0 <= n < 64,
    ensures
        gives(h, x, "and"@, seq![Value::Int(y)], x & y),
        gives(h, x, "or"@, seq![Value::Int(y)], x | y),
        gives(h, x, "xor"@, seq![Value::Int(y)], x ^ y),
        gives(h, x, "inv"@, seq![Value::Int(64)], !x),
        gives(h, x, "inv"@, Seq::empty(), (!(x as i32)) as i64),
        gives(h, x, "shl"@, seq![Value::Int(n), Value::Int(64)], x << (n as u32)),
        gives(h, x, "shr"@, seq![Value::Int(n), Value::Int(64)], x >> (n as u32)),
        gives(h, x, "ushr"@, seq![Value::Int(n), Value::Int(64)], ((x as u64) >> (n as u32)) as i64),
        n < 32 ==> gives(h, x, "shl"@, seq![Value::Int(n)], ((x as i32) << (n as u32)) as i64),
        n < 32 ==> gives(h, x, "shr"@, seq![Value::Int(n)], ((x as i32) >> (n as u32)) as i64),
        n < 32 ==> gives(
            h,
            x,
            "ushr"@,
            seq![Value::Int(n)],
            (((x as i32) as u32) >> (n as u32)) as i32 as i64,
        ),
{
    lemma_names();
}

/// A shift count past the width of the type starts over.
pub proof fn law_shift_counts_wrap(h: HostView, x: i64, n: i64)
    requires
        0 <= n < 64,
    ensures
        number_member(h, Value::Int(x), "shl"@, seq![Value::Int((n + 64) as i64), Value::Int(64)])
            == number_member(h, Value::Int(x), "shl"@, seq![Value::Int(n), Value::Int(64)]),
        n < 32 ==> number_member(h, Value::Int(x), "shl"@, seq![Value::Int((n + 32) as i64)])
            == number_member(h, Value::Int(x), "shl"@, seq![Value::Int(n)]),
{
    lemma_names();
}

/// An integer that fits a narrower type is converted to itself.
pub proof fn law_narrowing(h: HostView, x: i64)
    ensures
        counts(h, x, "toLong"@, Seq::empty(), x as int),
        -0x8000_0000 <= x <= 0x7fff_ffff ==> counts(h, x, "toInt"@, Seq::empty(), x as int),
        -0x8000 <= x <= 0x7fff ==> counts(h, x, "toShort"@, Seq::empty(), x as int),
        -0x80 <= x <= 0x7f ==> counts(h, x, "toByte"@, Seq::empty(), x as int),
        0 <= x <= 0xffff ==> number_member(h, Value::Int(x), "toChar"@, Seq::empty()) == Some(
            ReplyView::Value(char_value(x as int)),
        ),
{
    lemma_names();
}

/// An integer that does not fit keeps its low bits: adding to it what the narrower type
/// wraps at changes nothing.
pub proof fn law_narrowing_wraps(h: HostView, x: i64)
    requires
        x < 0x7fff_ffff_0000_0000,
    ensures
        number_member(h, Value::Int((x + 0x1_0000_0000) as i64), "toInt"@, Seq::empty())
            == number_member(h, Value::Int(x), "toInt"@, Seq::empty()),
        number_member(h, Value::Int((x + 0x1_0000) as i64), "toShort"@, Seq::empty())
            == number_member(h, Value::Int(x), "toShort"@, Seq::empty()),
        number_member(h, Value::Int((x + 0x100) as i64), "toByte"@, Seq::empty())
            == number_member(h, Value::Int(x), "toByte"@, Seq::empty()),
{
    lemma_names();
    let a = (x + 0x1_0000_0000) as i64;
    let b = (x + 0x1_0000) as i64;
    let c = (x + 0x100) as i64;
    assert(a as i32 == x as i32) by (bit_vector)
        requires
            a == x + 0x1_0000_0000,
    ;
    assert(b as i16 == x as i16) by (bit_vector)
        requires
            b == x + 0x1_0000,
    ;
    assert(c as i8 == x as i8) by (bit_vector)
        requires
            c == x + 0x100,
    ;
}

/// What arithmetic with a double is left to do: the operation of the operator, on its
/// operands in their order.
pub proof fn law_double_arithmetic(h: HostView, a: usize, b: Value)
    requires
        b is Float || b is Int,
    ensures
        ({
            let x = Value::Float(a);
            let args = seq![b];
            &&& leaves(h, x, "plus"@, args, FloatTask { op: FloatOp::Add, a: x, b })
            &&& leaves(h, x, "minus"@, args, FloatTask { op: FloatOp::Sub, a: x, b })
            &&& leaves(h, x, "times"@, args, FloatTask { op: FloatOp::Mul, a: x, b })
            &&& leaves(h, x, "div"@, args, FloatTask { op: FloatOp::Div, a: x, b })
            &&& leaves(h, x, "rem"@, args, FloatTask { op: FloatOp::Rem, a: x, b })
            &&& leaves(h, x, "pow"@, args, FloatTask { op: FloatOp::Pow, a: x, b })
        }),
        ({
            let x = Value::Float(a);
            let task = |op: NumOp, f: FloatOp|
                operator_reply(h, op, x, b) == ReplyView::Compute(FloatTask { op: f, a: x, b });
            &&& task(NumOp::Add, FloatOp::Add)
            &&& task(NumOp::Sub, FloatOp::Sub)
            &&& task(NumOp::Mul, FloatOp::Mul)
            &&& task(NumOp::Div, FloatOp::Div)
            &&& task(NumOp::Mod, FloatOp::Rem)
            &&& task(NumOp::Lt, FloatOp::Lt)
            &&& task(NumOp::Gt, FloatOp::Gt)
            &&& task(NumOp::Le, FloatOp::Le)
            &&& task(NumOp::Ge, FloatOp::Ge)
            &&& task(NumOp::Eq, FloatOp::Eq)
            &&& task(NumOp::Ne, FloatOp::Ne)
        }),
{
    lemma_names();
}

/// The functions of `kotlin.math` on a double are left to do under their own names.
pub proof fn law_math_functions(h: HostView, a: Value)
    ensures
        ({
            let task = |name: Seq<char>, op: FloatOp|
                math_reply(h, name, seq![a]) == ReplyView::Compute(FloatTask { op, a, b: a });
            &&& task("sqrt"@, FloatOp::Sqrt)
            &&& task("floor"@, FloatOp::Floor)
            &&& task("ceil"@, FloatOp::Ceil)
            &&& task("round"@, FloatOp::Round)
            &&& a is Float ==> task("abs"@, FloatOp::Abs)
        }),
{
    lemma_names();
}

/// `+` with a text on either side puts the texts of both in a row.
pub proof fn law_text_concatenation(h: HostView, s: usize, v: Value)
    ensures
        operator_reply(h, NumOp::Add, Value::Str(s), v) == ReplyView::Text(
            h.text(s) + text_of(h, v),
        ),
        operator_reply(h, NumOp::Add, v, Value::Str(s)) == ReplyView::Text(
            text_of(h, v) + h.text(s),
        ),
{
    assert(text_of(h, Value::Str(s)) == h.text(s));
}

/// Characters count by code: a number added to one or taken from it gives the character
/// so far away, the difference of two is their distance, and they compare by code.
pub proof fn law_character_arithmetic(h: HostView, c: Value, d: Value, n: i64)
    requires
        code_of(c) is Some,
        code_of(d) is Some,
    ensures
        ({
            let x = code_of(c)->0;
            let y = code_of(d)->0;
            let says = |op: NumOp, b: bool| operator_reply(h, op, c, d) == ReplyView::Value(Value::Bool(b));
            &&& 0 <= x + n <= 0xffff ==> operator_reply(h, NumOp::Add, c, Value::Int(n))
                == ReplyView::Value(char_value(x + n))
            &&& 0 <= x - n <= 0xffff ==> operator_reply(h, NumOp::Sub, c, Value::Int(n))
                == ReplyView::Value(char_value(x - n))
            &&& operator_reply(h, NumOp::Sub, c, d) == ReplyView::Value(Value::Int((x - y) as i64))
            &&& says(NumOp::Lt, x < y)
            &&& says(NumOp::Gt, x > y)
            &&& says(NumOp::Le, x <= y)
            &&& says(NumOp::Ge, x >= y)
            &&& says(NumOp::Eq, x == y)
            &&& says(NumOp::Ne, x != y)
        }),
{
}

} // verus!
