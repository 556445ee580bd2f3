//! The members of `Int`, `Long` and `Double`, `kotlin.math`, and the arithmetic
//! operators on operands of any kind.
//!
//! Floating-point arithmetic is the machine's work: where a result needs it, the
//! reply says which operation on which values.
use crate::display::kotlin_string;
use crate::double::{double_compare, double_to_int, java_fmax, java_fmin, java_math_round, nan};
use crate::gather::are_ints;
use crate::host::Host;
use crate::radix::{to_radix, unsigned_to_radix};
use crate::reply::{FloatOp, FloatTask, Reply};
use crate::strings::int_arg;
use crate::text::{concat2, concat3, concat5, same};
use crate::value::{char_of, is_char, is_int, Double, Value};
use vstd::prelude::*;

verus! {

use crate::display::text_of;
use crate::double::{
    is_nan,
    is_negative,
    larger,
    line_position,
    rounded_half_up,
    smaller,
    truncated,
};
use crate::gather::all_ints;
use crate::host::HostView;
use crate::radix::{decimal, int_digits};
use crate::reply::{reply_view, ReplyView};
use crate::strings::{arg_int, as_int};
use crate::value::{char_value, code_of, DoubleView};

// ── Integer division ────────────────────────────────────────────────────────

pub open spec fn magnitude(n: int) -> int {
    if n < 0 {
        -n
    } else {
        n
    }
}

/// Division that drops the fraction.
pub open spec fn quotient(x: int, y: int) -> int {
    if (x < 0) == (y < 0) {
        magnitude(x) / magnitude(y)
    } else {
        -(magnitude(x) / magnitude(y))
    }
}

/// The remainder of [`quotient`], which takes the sign of the dividend.
pub open spec fn remainder(x: int, y: int) -> int {
    if x < 0 {
        -(magnitude(x) % magnitude(y))
    } else {
        magnitude(x) % magnitude(y)
    }
}

/// Division that rounds toward negative infinity.
pub open spec fn floor_quotient(x: int, y: int) -> int {
    if y > 0 {
        x / y
    } else {
        (-x) / (-y)
    }
}

/// The remainder of [`floor_quotient`], which takes the sign of the divisor.
pub open spec fn floor_remainder(x: int, y: int) -> int {
    if y > 0 {
        x % y
    } else {
        -((-x) % (-y))
    }
}

fn abs_of(n: i64) -> (r: u128)
    ensures
        r == magnitude(n as int),
{
    if n < 0 {
        (-(n as i128)) as u128
    } else {
        n as u128
    }
}

/// Division that drops the fraction; the one quotient that does not fit wraps.
pub fn int_div(x: i64, y: i64) -> (r: i64)
    requires
        y != 0,
    ensures
        r == quotient(x as int, y as int) as i64,
{
    let a: u128 = abs_of(x);
    let b: u128 = abs_of(y);
    let q: u128 = a / b;
    assert(q <= a) by (nonlinear_arith)
        requires
            q == a / b,
            b >= 1,
    ;
    if (x < 0) == (y < 0) {
        q as i64
    } else {
        (-(q as i128)) as i64
    }
}

/// The remainder of division that drops the fraction.
pub fn int_rem(x: i64, y: i64) -> (r: i64)
    requires
        y != 0,
    ensures
        r == remainder(x as int, y as int) as i64,
{
    let a: u128 = abs_of(x);
    let b: u128 = abs_of(y);
    let m: u128 = a % b;
    if x < 0 {
        (-(m as i128)) as i64
    } else {
        m as i64
    }
}

/// Division that rounds toward negative infinity; the one quotient that does not
/// fit wraps.
pub fn floor_div(x: i64, y: i64) -> (r: i64)
    requires
        y != 0,
    ensures
        r == floor_quotient(x as int, y as int) as i64,
{
    let a: i128 = if y > 0 {
        x as i128
    } else {
        -(x as i128)
    };
    let b: u128 = abs_of(y);
    let q: i128 = floor_by(a, b);
    q as i64
}

/// The floor of `a / b`.
fn floor_by(a: i128, b: u128) -> (q: i128)
    requires
        -0x8000_0000_0000_0000 <= a <= 0x8000_0000_0000_0000,
        1 <= b <= 0x8000_0000_0000_0000,
    ensures
        q == a as int / b as int,
{
    if a >= 0 {
        let q: u128 = a as u128 / b;
        assert(q <= a) by (nonlinear_arith)
            requires
                q == a as u128 / b,
                b >= 1,
                a >= 0,
        ;
        q as i128
    } else {
        let m: u128 = (-a) as u128;
        let up: u128 = (m + (b - 1)) / b;
        assert(up <= m + (b - 1)) by (nonlinear_arith)
            requires
                up == (m + (b - 1)) / (b as int),
                b >= 1,
        ;
        proof {
            lemma_floor_of_negative(m as int, b as int);
        }
        -(up as i128)
    }
}

proof fn lemma_floor_of_negative(m: int, b: int)
    requires
        m >= 0,
        b >= 1,
    ensures
        (-m) / b == -((m + (b - 1)) / b),
{
    let q = (m + (b - 1)) / b;
    let r = (m + (b - 1)) % b;
    vstd::arithmetic::div_mod::lemma_fundamental_div_mod(m + (b - 1), b);
    assert(-m == b * (-q) + (b - 1 - r)) by (nonlinear_arith)
        requires
            m + (b - 1) == b * q + r,
    ;
    vstd::arithmetic::div_mod::lemma_fundamental_div_mod_converse(-m, b, -q, b - 1 - r);
}

/// The remainder of division that rounds toward negative infinity.
pub fn floor_mod(x: i64, y: i64) -> (r: i64)
    requires
        y != 0,
    ensures
        r == floor_remainder(x as int, y as int) as i64,
{
    let b: u128 = abs_of(y);
    let a: i128 = if y > 0 {
        x as i128
    } else {
        -(x as i128)
    };
    let m: u128 = if a >= 0 {
        a as u128 % b
    } else {
        let k: u128 = (-a) as u128 % b;
        proof {
            lemma_mod_of_negative((-a) as int, b as int);
        }
        if k == 0 {
            0
        } else {
            b - k
        }
    };
    if y > 0 {
        m as i64
    } else {
        (-(m as i128)) as i64
    }
}

proof fn lemma_mod_of_negative(m: int, b: int)
    requires
        m >= 0,
        b >= 1,
    ensures
        (-m) % b == if m % b == 0 {
            0
        } else {
            b - m % b
        },
{
    let q = m / b;
    let r = m % b;
    vstd::arithmetic::div_mod::lemma_fundamental_div_mod(m, b);
    if r == 0 {
        assert(-m == b * (-q) + 0) by (nonlinear_arith)
            requires
                m == b * q + r,
                r == 0,
        ;
        vstd::arithmetic::div_mod::lemma_fundamental_div_mod_converse(-m, b, -q, 0);
    } else {
        assert(-m == b * (-q - 1) + (b - r)) by (nonlinear_arith)
            requires
                m == b * q + r,
        ;
        vstd::arithmetic::div_mod::lemma_fundamental_div_mod_converse(-m, b, -q - 1, b - r);
    }
}

/// A truncated quotient and its remainder make up the dividend, and the
/// remainder has the dividend's sign.
pub proof fn law_quotient_and_remainder(x: int, y: int)
    requires
        y != 0,
    ensures
        x == y * quotient(x, y) + remainder(x, y),
        magnitude(remainder(x, y)) < magnitude(y),
        remainder(x, y) != 0 ==> (remainder(x, y) < 0) == (x < 0),
{
    let a = magnitude(x);
    let b = magnitude(y);
    vstd::arithmetic::div_mod::lemma_fundamental_div_mod(a, b);
    let q = a / b;
    let r = a % b;
    assert(x == y * quotient(x, y) + remainder(x, y)) by (nonlinear_arith)
        requires
            a == b * q + r,
            a == (if x < 0 {
                -x
            } else {
                x
            }),
            b == (if y < 0 {
                -y
            } else {
                y
            }),
            quotient(x, y) == (if (x < 0) == (y < 0) {
                q
            } else {
                -q
            }),
            remainder(x, y) == (if x < 0 {
                -r
            } else {
                r
            }),
    ;
}

/// A floored quotient and its remainder make up the dividend, and the remainder
/// has the divisor's sign.
pub proof fn law_floor_quotient_and_remainder(x: int, y: int)
    requires
        y != 0,
    ensures
        x == y * floor_quotient(x, y) + floor_remainder(x, y),
        floor_remainder(x, y) != 0 ==> (floor_remainder(x, y) < 0) == (y < 0),
{
    if y > 0 {
        vstd::arithmetic::div_mod::lemma_fundamental_div_mod(x, y);
    } else {
        vstd::arithmetic::div_mod::lemma_fundamental_div_mod(-x, -y);
        let q = (-x) / (-y);
        let r = (-x) % (-y);
        assert(x == y * q + (-r)) by (nonlinear_arith)
            requires
                -x == (-y) * q + r,
        ;
    }
}

// ── Doubles ─────────────────────────────────────────────────────────────────

/// A floating-point operation on one value.
pub open spec fn compute(op: FloatOp, a: Value) -> ReplyView {
    ReplyView::Compute(FloatTask { op, a, b: a })
}

/// A floating-point operation on two values.
pub open spec fn compute2(op: FloatOp, a: Value, b: Value) -> ReplyView {
    ReplyView::Compute(FloatTask { op, a, b })
}

/// A value as a double: itself when it is one.
pub open spec fn as_double(v: Value) -> ReplyView {
    if v is Float {
        ReplyView::Value(v)
    } else {
        compute(FloatOp::Convert, v)
    }
}

/// The double 1, or -1.
pub open spec fn unit_double(negative: bool) -> DoubleView {
    DoubleView {
        bits: if negative {
            0xbff0_0000_0000_0000
        } else {
            0x3ff0_0000_0000_0000
        },
        digits: seq!['1'],
        exp10: 0,
    }
}

/// Whether one double is less than another; NaN is neither less nor greater.
pub open spec fn less(a: u64, b: u64) -> bool {
    !is_nan(a) && !is_nan(b) && line_position(a) < line_position(b)
}

fn task(op: FloatOp, a: Value) -> (r: Reply)
    ensures
        r@ == compute(op, a),
{
    Reply::Compute(FloatTask { op, a, b: a })
}

fn task2(op: FloatOp, a: Value, b: Value) -> (r: Reply)
    ensures
        r@ == compute2(op, a, b),
{
    Reply::Compute(FloatTask { op, a, b })
}

fn to_double_reply(v: Value) -> (r: Reply)
    ensures
        r@ == as_double(v),
{
    match v {
        Value::Float(_) => Reply::Value(v),
        _ => task(FloatOp::Convert, v),
    }
}

fn unit_reply(negative: bool) -> (r: Reply)
    ensures
        r@ == ReplyView::Number(unit_double(negative)),
{
    proof {
        reveal_strlit("1");
    }
    assert("1"@ =~= seq!['1']);
    let bits: u64 = if negative {
        0xbff0_0000_0000_0000
    } else {
        0x3ff0_0000_0000_0000
    };
    Reply::Number(Double { bits, digits: "1".to_owned(), exp10: 0 })
}

fn is_zero(bits: u64) -> (r: bool)
    ensures
        r == (line_position(bits) == 0),
{
    bits == 0 || bits == 0x8000_0000_0000_0000
}

fn less_than(a: u64, b: u64) -> (r: bool)
    ensures
        r == less(a, b),
{
    if nan(a) || nan(b) {
        return false;
    }
    if is_zero(a) && is_zero(b) {
        return false;
    }
    double_compare(a, b) < 0
}

// ── kotlin.math ─────────────────────────────────────────────────────────────

/// The greatest or least of integers.
pub open spec fn int_extreme(vs: Seq<Value>, max: bool) -> int
    decreases vs.len(),
{
    if vs.len() == 0 {
        0
    } else {
        let x = match vs.last() {
            Value::Int(n) => n as int,
            _ => 0,
        };
        if vs.len() == 1 {
            x
        } else {
            let b = int_extreme(vs.drop_last(), max);
            if (x > b) == max {
                x
            } else {
                b
            }
        }
    }
}

/// The position of the greatest or least of some values, as `Math.max` and
/// `Math.min` find it: a NaN wins, and `-0.0` is below `0.0`.
pub open spec fn double_extreme(h: HostView, vs: Seq<Value>, max: bool) -> int
    decreases vs.len(),
{
    if vs.len() <= 1 {
        0
    } else {
        let w = double_extreme(h, vs.drop_last(), max);
        let a = h.to_double(vs[w]);
        let b = h.to_double(vs.last());
        let best = if max {
            larger(a, b)
        } else {
            smaller(a, b)
        };
        if best == a {
            w
        } else {
            vs.len() - 1
        }
    }
}

/// The sign of a number: a double keeps the sign of a zero and a NaN.
pub open spec fn sign_reply(h: HostView, a: Value) -> ReplyView {
    match a {
        Value::Int(n) => ReplyView::Value(as_int(crate::chars::sign_of(n as int))),
        _ => {
            let bits = h.to_double(a);
            if is_nan(bits) || line_position(bits) == 0 {
                as_double(a)
            } else {
                ReplyView::Number(unit_double(is_negative(bits)))
            }
        },
    }
}

/// The functions of `kotlin.math` and `java.lang.Math`. Overloads go by the kind
/// of the values.
pub open spec fn math_reply(h: HostView, name: Seq<char>, args: Seq<Value>) -> ReplyView {
    let a = if args.len() > 0 {
        args[0]
    } else {
        Value::Int(0)
    };
    let x = h.to_int(a);
    let y = arg_int(h, args, 1, 0);
    if name == "abs"@ {
        match a {
            Value::Int(n) => ReplyView::Value(as_int(magnitude(n as int))),
            _ => compute(FloatOp::Abs, a),
        }
    } else if name == "max"@ || name == "min"@ {
        if all_ints(args) {
            ReplyView::Value(as_int(int_extreme(args, name == "max"@)))
        } else {
            as_double(args[double_extreme(h, args, name == "max"@)])
        }
    } else if name == "floorDiv"@ || name == "floorMod"@ {
        if y == 0 {
            ReplyView::Fault("java.lang.ArithmeticException: / by zero"@)
        } else if name == "floorDiv"@ {
            ReplyView::Value(as_int(floor_quotient(x, y)))
        } else {
            ReplyView::Value(as_int(floor_remainder(x, y)))
        }
    } else if name == "sign"@ {
        sign_reply(h, a)
    } else if name == "sqrt"@ {
        compute(FloatOp::Sqrt, a)
    } else if name == "floor"@ {
        compute(FloatOp::Floor, a)
    } else if name == "ceil"@ {
        compute(FloatOp::Ceil, a)
    } else if name == "round"@ {
        compute(FloatOp::Round, a)
    } else if name == "jround"@ {
        ReplyView::Value(as_int(rounded_half_up(h.to_double(a))))
    } else {
        ReplyView::Fault("unresolved reference: "@ + name)
    }
}

fn extreme_int(vs: &Vec<Value>, max: bool) -> (r: i64)
    requires
        all_ints(vs@),
    ensures
        r == int_extreme(vs@, max),
{
    let mut r: i64 = 0;
    let mut i: usize = 0;
    assert(vs@.take(0) =~= Seq::empty());
    while i < vs.len()
        invariant
            i <= vs@.len(),
            all_ints(vs@),
            r == int_extreme(vs@.take(i as int), max),
        decreases vs.len() - i,
    {
        assert(vs@.take(i + 1).drop_last() =~= vs@.take(i as int));
        assert(vs@.take(i + 1).last() == vs@[i as int]);
        assert(vs@[i as int] is Int);
        if let Value::Int(n) = vs[i] {
            if i == 0 || (n > r) == max {
                r = n;
            }
        }
        i = i + 1;
    }
    assert(vs@.take(i as int) =~= vs@);
    r
}

fn extreme_double(h: &Host, vs: &Vec<Value>, max: bool) -> (w: usize)
    requires
        vs@.len() > 0,
    ensures
        w == double_extreme(h@, vs@, max),
        w < vs@.len(),
{
    let mut w: usize = 0;
    let mut i: usize = 1;
    while i < vs.len()
        invariant
            1 <= i <= vs@.len(),
            w < i,
            w == double_extreme(h@, vs@.take(i as int), max),
        decreases vs.len() - i,
    {
        assert(vs@.take(i + 1).drop_last() =~= vs@.take(i as int));
        assert(vs@.take(i + 1).last() == vs@[i as int]);
        let a: u64 = h.to_double(vs[w]);
        let b: u64 = h.to_double(vs[i]);
        let best: u64 = if max {
            java_fmax(a, b)
        } else {
            java_fmin(a, b)
        };
        if best != a {
            w = i;
        }
        i = i + 1;
    }
    assert(vs@.take(i as int) =~= vs@);
    w
}

fn sign(h: &Host, a: Value) -> (r: Reply)
    ensures
        r@ == sign_reply(h@, a),
{
    if let Value::Int(n) = a {
        let s: i64 = if n < 0 {
            -1
        } else if n > 0 {
            1
        } else {
            0
        };
        return Reply::Value(Value::Int(s));
    }
    let bits: u64 = h.to_double(a);
    if nan(bits) || is_zero(bits) {
        to_double_reply(a)
    } else {
        unit_reply(bits >= 0x8000_0000_0000_0000)
    }
}

/// The functions of `kotlin.math` and `java.lang.Math`.
pub fn math_call(h: &Host, name: &str, args: &Vec<Value>) -> (r: Reply)
    ensures
        r@ == math_reply(h@, name@, args@),
{
    let a: Value = if args.len() > 0 {
        args[0]
    } else {
        Value::Int(0)
    };
    if same(name, "abs") {
        match a {
            Value::Int(n) => {
                let m: u128 = abs_of(n);
                Reply::Value(Value::Int(m as i64))
            },
            _ => task(FloatOp::Abs, a),
        }
    } else if same(name, "max") || same(name, "min") {
        let max: bool = same(name, "max");
        if are_ints(args) {
            Reply::Value(Value::Int(extreme_int(args, max)))
        } else {
            let w: usize = extreme_double(h, args, max);
            to_double_reply(args[w])
        }
    } else if same(name, "floorDiv") || same(name, "floorMod") {
        let x: i64 = h.to_int(a);
        let y: i64 = int_arg(h, args, 1, 0);
        if y == 0 {
            Reply::Fault("java.lang.ArithmeticException: / by zero".to_owned())
        } else if same(name, "floorDiv") {
            Reply::Value(Value::Int(floor_div(x, y)))
        } else {
            Reply::Value(Value::Int(floor_mod(x, y)))
        }
    } else if same(name, "sign") {
        sign(h, a)
    } else if same(name, "sqrt") {
        task(FloatOp::Sqrt, a)
    } else if same(name, "floor") {
        task(FloatOp::Floor, a)
    } else if same(name, "ceil") {
        task(FloatOp::Ceil, a)
    } else if same(name, "round") {
        task(FloatOp::Round, a)
    } else if same(name, "jround") {
        Reply::Value(Value::Int(java_math_round(h.to_double(a))))
    } else {
        Reply::Fault(concat2("unresolved reference: ", name))
    }
}

// ── Members of numbers ──────────────────────────────────────────────────────

/// The receiver width that argument `i` gives: 64 when it says so, else 32.
pub open spec fn width_at(h: HostView, args: Seq<Value>, i: int) -> int {
    if arg_int(h, args, i, 32) == 64 {
        64
    } else {
        32
    }
}

/// The receiver width that argument `at` gives.
pub fn trailing_width(h: &Host, args: &Vec<Value>, at: usize) -> (w: i64)
    ensures
        w == width_at(h@, args@, at as int),
        w == 32 || w == 64,
{
    if int_arg(h, args, at, 32) == 64 {
        64
    } else {
        32
    }
}

/// A shift of `a` by `bits` places at a width: left, right with the sign, or
/// right with zeros.
pub open spec fn shifted(name: Seq<char>, a: i64, bits: u32, width: int) -> i64 {
    if width == 64 {
        if name == "shl"@ {
            a << bits
        } else if name == "shr"@ {
            a >> bits
        } else {
            ((a as u64) >> bits) as i64
        }
    } else if name == "shl"@ {
        ((a as i32) << bits) as i64
    } else if name == "shr"@ {
        ((a as i32) >> bits) as i64
    } else {
        (((a as i32) as u32) >> bits) as i32 as i64
    }
}

/// The members that work on the bits of an integer. `inv` and the shifts depend
/// on the receiver's width, which the last argument gives; a shift count is
/// taken modulo the width.
pub open spec fn bit_member(h: HostView, a: i64, name: Seq<char>, args: Seq<Value>) -> Option<i64> {
    let b = arg_int(h, args, 0, 0) as i64;
    if name == "and"@ {
        Some(a & b)
    } else if name == "or"@ {
        Some(a | b)
    } else if name == "xor"@ {
        Some(a ^ b)
    } else if name == "inv"@ {
        Some(
            if width_at(h, args, 0) == 64 {
                !a
            } else {
                (!(a as i32)) as i64
            },
        )
    } else if name == "shl"@ || name == "shr"@ || name == "ushr"@ {
        let w = width_at(h, args, 1);
        Some(shifted(name, a, (arg_int(h, args, 0, 0) % w) as u32, w))
    } else {
        None
    }
}

fn reduced(n: i64, w: i64) -> (r: u32)
    requires
        w == 32 || w == 64,
    ensures
        r == (n as int) % (w as int),
        r < w,
{
    if w == 64 {
        let low: i64 = n % 64;
        if low < 0 {
            (low + 64) as u32
        } else {
            low as u32
        }
    } else {
        let low: i64 = n % 32;
        if low < 0 {
            (low + 32) as u32
        } else {
            low as u32
        }
    }
}

fn bits_of(h: &Host, a: i64, name: &str, args: &Vec<Value>) -> (r: Option<i64>)
    ensures
        r == bit_member(h@, a, name@, args@),
{
    let b: i64 = int_arg(h, args, 0, 0);
    if same(name, "and") {
        Some(a & b)
    } else if same(name, "or") {
        Some(a | b)
    } else if same(name, "xor") {
        Some(a ^ b)
    } else if same(name, "inv") {
        if trailing_width(h, args, 0) == 64 {
            Some(!a)
        } else {
            Some((!(a as i32)) as i64)
        }
    } else if same(name, "shl") || same(name, "shr") || same(name, "ushr") {
        let w: i64 = trailing_width(h, args, 1);
        let n: u32 = reduced(b, w);
        if w == 64 {
            if same(name, "shl") {
                Some(a << n)
            } else if same(name, "shr") {
                Some(a >> n)
            } else {
                Some(((a as u64) >> n) as i64)
            }
        } else {
            let x: i32 = a as i32;
            if same(name, "shl") {
                Some((x << n) as i64)
            } else if same(name, "shr") {
                Some((x >> n) as i64)
            } else {
                Some(((x as u32) >> n) as i32 as i64)
            }
        }
    } else {
        None
    }
}

/// The bounds that a coercion names: the least and the greatest value.
pub open spec fn bounds_of(name: Seq<char>, args: Seq<Value>) -> (Option<Value>, Option<Value>) {
    let first = if args.len() > 0 {
        Some(args[0])
    } else {
        None
    };
    let second = if args.len() > 1 {
        Some(args[1])
    } else {
        None
    };
    (
        if name == "coerceAtMost"@ {
            None
        } else {
            first
        },
        if name == "coerceIn"@ {
            second
        } else if name == "coerceAtMost"@ {
            first
        } else {
            None
        },
    )
}

/// The fault of a range whose bounds cross.
pub open spec fn empty_range(h: HostView, lo: Value, hi: Value) -> Seq<char> {
    "java.lang.IllegalArgumentException: Cannot coerce value to an empty range: maximum "@
        + text_of(h, hi) + " is less than minimum "@ + text_of(h, lo) + "."@
}

/// `coerceIn`, `coerceAtLeast` and `coerceAtMost`. Integers stay integers; a
/// double is compared with `<` and `>`, so that NaN stays what it is.
pub open spec fn coerced(h: HostView, recv: Value, name: Seq<char>, args: Seq<Value>) -> ReplyView {
    let ints = recv is Int && all_ints(args);
    let (lo, hi) = bounds_of(name, args);
    let crossed = match (lo, hi) {
        (Some(l), Some(g)) => if ints {
            h.to_int(l) > h.to_int(g)
        } else {
            less(h.to_double(g), h.to_double(l))
        },
        _ => false,
    };
    if crossed {
        ReplyView::Fault(empty_range(h, lo->0, hi->0))
    } else if ints {
        let v = h.to_int(recv);
        let up = match lo {
            Some(l) => if h.to_int(l) > v {
                h.to_int(l)
            } else {
                v
            },
            None => v,
        };
        let down = match hi {
            Some(g) => if h.to_int(g) < up {
                h.to_int(g)
            } else {
                up
            },
            None => up,
        };
        ReplyView::Value(as_int(down))
    } else {
        let v = h.to_double(recv);
        match lo {
            Some(l) if less(v, h.to_double(l)) => as_double(l),
            _ => match hi {
                Some(g) if less(h.to_double(g), v) => as_double(g),
                _ => as_double(recv),
            },
        }
    }
}

fn coerce(h: &Host, recv: Value, name: &str, args: &Vec<Value>) -> (r: Reply)
    ensures
        r@ == coerced(h@, recv, name@, args@),
{
    let ints: bool = is_int(&recv) && are_ints(args);
    let first: Option<Value> = if args.len() > 0 {
        Some(args[0])
    } else {
        None
    };
    let second: Option<Value> = if args.len() > 1 {
        Some(args[1])
    } else {
        None
    };
    let at_most: bool = same(name, "coerceAtMost");
    let lo: Option<Value> = if at_most {
        None
    } else {
        first
    };
    let hi: Option<Value> = if same(name, "coerceIn") {
        second
    } else if at_most {
        first
    } else {
        None
    };
    if let (Some(l), Some(g)) = (lo, hi) {
        let crossed: bool = if ints {
            h.to_int(l) > h.to_int(g)
        } else {
            less_than(h.to_double(g), h.to_double(l))
        };
        if crossed {
            let a: String = kotlin_string(h, g);
            let b: String = kotlin_string(h, l);
            return Reply::Fault(
                concat5(
                    "java.lang.IllegalArgumentException: Cannot coerce value to an empty range: maximum ",
                    a.as_str(),
                    " is less than minimum ",
                    b.as_str(),
                    ".",
                ),
            );
        }
    }
    if ints {
        let mut v: i64 = h.to_int(recv);
        if let Some(l) = lo {
            let n: i64 = h.to_int(l);
            if n > v {
                v = n;
            }
        }
        if let Some(g) = hi {
            let n: i64 = h.to_int(g);
            if n < v {
                v = n;
            }
        }
        Reply::Value(Value::Int(v))
    } else {
        let v: u64 = h.to_double(recv);
        if let Some(l) = lo {
            if less_than(v, h.to_double(l)) {
                return to_double_reply(l);
            }
        }
        if let Some(g) = hi {
            if less_than(h.to_double(g), v) {
                return to_double_reply(g);
            }
        }
        to_double_reply(recv)
    }
}

/// `roundToInt` and `roundToLong`: NaN is refused, and an `Int` is clamped.
pub open spec fn rounded(h: HostView, recv: Value, name: Seq<char>) -> ReplyView {
    let x = h.to_double(recv);
    if is_nan(x) {
        ReplyView::Fault("java.lang.IllegalArgumentException: Cannot round NaN value."@)
    } else if name == "roundToInt"@ && less(0x41df_ffff_ffc0_0000, x) {
        ReplyView::Value(as_int(i32::MAX as int))
    } else if name == "roundToInt"@ && less(x, 0xc1e0_0000_0000_0000) {
        ReplyView::Value(as_int(i32::MIN as int))
    } else {
        ReplyView::Value(as_int(rounded_half_up(x)))
    }
}

fn round(h: &Host, recv: Value, name: &str) -> (r: Reply)
    ensures
        r@ == rounded(h@, recv, name@),
{
    let x: u64 = h.to_double(recv);
    if nan(x) {
        return Reply::Fault(
            "java.lang.IllegalArgumentException: Cannot round NaN value.".to_owned(),
        );
    }
    if same(name, "roundToInt") {
        if less_than(0x41df_ffff_ffc0_0000, x) {
            return Reply::Value(Value::Int(i32::MAX as i64));
        }
        if less_than(x, 0xc1e0_0000_0000_0000) {
            return Reply::Value(Value::Int(i32::MIN as i64));
        }
    }
    Reply::Value(Value::Int(java_math_round(x)))
}

/// The arithmetic operators in their method spelling.
pub open spec fn arithmetic(recv: Value, name: Seq<char>, b: Value) -> ReplyView {
    match (recv, b) {
        (Value::Int(x), Value::Int(y)) => if name == "plus"@ {
            ReplyView::Value(Value::Int(x.wrapping_add(y)))
        } else if name == "minus"@ {
            ReplyView::Value(Value::Int(x.wrapping_sub(y)))
        } else if name == "times"@ {
            ReplyView::Value(Value::Int(x.wrapping_mul(y)))
        } else if y == 0 {
            ReplyView::Fault("java.lang.ArithmeticException: / by zero"@)
        } else if name == "div"@ {
            ReplyView::Value(as_int(quotient(x as int, y as int)))
        } else {
            ReplyView::Value(as_int(remainder(x as int, y as int)))
        },
        _ => compute2(
            if name == "plus"@ {
                FloatOp::Add
            } else if name == "minus"@ {
                FloatOp::Sub
            } else if name == "times"@ {
                FloatOp::Mul
            } else if name == "div"@ {
                FloatOp::Div
            } else {
                FloatOp::Rem
            },
            recv,
            b,
        ),
    }
}

fn arithmetic_of(recv: Value, name: &str, b: Value) -> (r: Reply)
    ensures
        r@ == arithmetic(recv, name@, b),
{
    if let (Value::Int(x), Value::Int(y)) = (recv, b) {
        if same(name, "plus") {
            return Reply::Value(Value::Int(x.wrapping_add(y)));
        } else if same(name, "minus") {
            return Reply::Value(Value::Int(x.wrapping_sub(y)));
        } else if same(name, "times") {
            return Reply::Value(Value::Int(x.wrapping_mul(y)));
        } else if y == 0 {
            return Reply::Fault("java.lang.ArithmeticException: / by zero".to_owned());
        } else if same(name, "div") {
            return Reply::Value(Value::Int(int_div(x, y)));
        } else {
            return Reply::Value(Value::Int(int_rem(x, y)));
        }
    }
    let op: FloatOp = if same(name, "plus") {
        FloatOp::Add
    } else if same(name, "minus") {
        FloatOp::Sub
    } else if same(name, "times") {
        FloatOp::Mul
    } else if same(name, "div") {
        FloatOp::Div
    } else {
        FloatOp::Rem
    };
    task2(op, recv, b)
}

/// `n` held within an `Int`.
pub open spec fn clamped_int(n: int) -> int {
    if n < i32::MIN {
        i32::MIN as int
    } else if n > i32::MAX {
        i32::MAX as int
    } else {
        n
    }
}

/// The conversions between numbers. Between integers they truncate to the target
/// width; from a double they saturate at it.
pub open spec fn converted(h: HostView, recv: Value, name: Seq<char>) -> Option<ReplyView> {
    match recv {
        Value::Int(n) => if name == "toDouble"@ || name == "toFloat"@ {
            Some(compute(FloatOp::Convert, recv))
        } else if name == "toInt"@ {
            Some(ReplyView::Value(Value::Int((n as i32) as i64)))
        } else if name == "toShort"@ {
            Some(ReplyView::Value(Value::Int((n as i16) as i64)))
        } else if name == "toByte"@ {
            Some(ReplyView::Value(Value::Int((n as i8) as i64)))
        } else if name == "toLong"@ {
            Some(ReplyView::Value(recv))
        } else {
            None
        },
        Value::Float(id) => {
            let whole = truncated(h.double(id).bits);
            let narrow = clamped_int(whole) as i32;
            if name == "toDouble"@ || name == "toFloat"@ {
                Some(ReplyView::Value(recv))
            } else if name == "toInt"@ {
                Some(ReplyView::Value(Value::Int(narrow as i64)))
            } else if name == "toShort"@ {
                Some(ReplyView::Value(Value::Int((narrow as i16) as i64)))
            } else if name == "toByte"@ {
                Some(ReplyView::Value(Value::Int((narrow as i8) as i64)))
            } else if name == "toLong"@ {
                Some(ReplyView::Value(as_int(whole)))
            } else {
                None
            }
        },
        _ => None,
    }
}

fn convert(h: &Host, recv: Value, name: &str) -> (r: Option<Reply>)
    ensures
        reply_view(r) == converted(h@, recv, name@),
{
    match recv {
        Value::Int(n) => if same(name, "toDouble") || same(name, "toFloat") {
            Some(task(FloatOp::Convert, recv))
        } else if same(name, "toInt") {
            Some(Reply::Value(Value::Int((n as i32) as i64)))
        } else if same(name, "toShort") {
            Some(Reply::Value(Value::Int((n as i16) as i64)))
        } else if same(name, "toByte") {
            Some(Reply::Value(Value::Int((n as i8) as i64)))
        } else if same(name, "toLong") {
            Some(Reply::Value(recv))
        } else {
            None
        },
        Value::Float(id) => {
            let whole: i64 = double_to_int(h.bits(id));
            let narrow: i32 = if whole < -2147483648 {
                i32::MIN
            } else if whole > 2147483647 {
                i32::MAX
            } else {
                whole as i32
            };
            if same(name, "toDouble") || same(name, "toFloat") {
                Some(Reply::Value(recv))
            } else if same(name, "toInt") {
                Some(Reply::Value(Value::Int(narrow as i64)))
            } else if same(name, "toShort") {
                Some(Reply::Value(Value::Int((narrow as i16) as i64)))
            } else if same(name, "toByte") {
                Some(Reply::Value(Value::Int((narrow as i8) as i64)))
            } else if same(name, "toLong") {
                Some(Reply::Value(Value::Int(whole)))
            } else {
                None
            }
        },
        _ => None,
    }
}

/// An integer in the radix that an argument names, or the fault of a radix
/// outside `2..36`.
pub open spec fn radix_text(h: HostView, n: i64, arg: Value) -> ReplyView {
    let radix = (h.num_of(arg) as i64) as u32;
    if 2 <= radix <= 36 {
        ReplyView::Text(int_digits(n as int, radix as nat))
    } else {
        ReplyView::Fault(
            "java.lang.IllegalArgumentException: radix "@ + decimal(radix as int)
                + " was not in valid range 2..36"@,
        )
    }
}

fn in_radix(h: &Host, n: i64, arg: Value) -> (r: Reply)
    ensures
        r@ == radix_text(h@, n, arg),
{
    let radix: u32 = h.num_of(arg) as u32;
    if 2 <= radix && radix <= 36 {
        Reply::Text(to_radix(n, radix))
    } else {
        Reply::Fault(
            concat3(
                "java.lang.IllegalArgumentException: radix ",
                unsigned_to_radix(radix as u64, 10).as_str(),
                " was not in valid range 2..36",
            ),
        )
    }
}

/// The members of numbers that other kinds do not share.
pub open spec fn number_member(h: HostView, recv: Value, name: Seq<char>, args: Seq<Value>) -> Option<
    ReplyView,
> {
    let numeric = recv is Int || recv is Float;
    let first = if args.len() > 0 {
        args[0]
    } else {
        Value::Int(0)
    };
    if !numeric {
        None
    } else if recv is Int && name == "toChar"@ {
        Some(ReplyView::Value(char_value(recv->Int_0 as int)))
    } else if recv is Int && bit_member(h, recv->Int_0, name, args) is Some {
        Some(ReplyView::Value(Value::Int(bit_member(h, recv->Int_0, name, args)->0)))
    } else if name == "coerceIn"@ || name == "coerceAtLeast"@ || name == "coerceAtMost"@ {
        Some(coerced(h, recv, name, args))
    } else if name == "pow"@ {
        Some(compute2(FloatOp::Pow, recv, first))
    } else if name == "sign"@ {
        Some(sign_reply(h, recv))
    } else if recv is Int && name == "mod"@ {
        let y = h.to_int(first);
        Some(
            if y == 0 {
                ReplyView::Fault("java.lang.ArithmeticException: / by zero"@)
            } else {
                ReplyView::Value(as_int(floor_remainder(h.to_int(recv), y)))
            },
        )
    } else if name == "absoluteValue"@ {
        Some(
            match recv {
                Value::Int(n) => ReplyView::Value(as_int(magnitude(n as int))),
                _ => compute(FloatOp::Abs, recv),
            },
        )
    } else if name == "roundToInt"@ || name == "roundToLong"@ {
        Some(rounded(h, recv, name))
    } else if name == "plus"@ || name == "minus"@ || name == "times"@ || name == "div"@ || name
        == "rem"@ {
        Some(arithmetic(recv, name, first))
    } else if recv is Int && name == "toString"@ && args.len() > 0 {
        Some(radix_text(h, recv->Int_0, args[0]))
    } else {
        converted(h, recv, name)
    }
}

/// The members of numbers that other kinds do not share; `None` when `name` is
/// none of them or the receiver is no number.
pub fn number_method(h: &Host, recv: Value, name: &str, args: &Vec<Value>) -> (r: Option<Reply>)
    ensures
        reply_view(r) == number_member(h@, recv, name@, args@),
{
    let whole: bool = is_int(&recv);
    if !whole && !matches!(recv, Value::Float(_)) {
        return None;
    }
    let first: Value = if args.len() > 0 {
        args[0]
    } else {
        Value::Int(0)
    };
    if let Value::Int(n) = recv {
        if same(name, "toChar") {
            return Some(Reply::Value(char_of(n)));
        }
        if let Some(k) = bits_of(h, n, name, args) {
            return Some(Reply::Value(Value::Int(k)));
        }
    }
    if same(name, "coerceIn") || same(name, "coerceAtLeast") || same(name, "coerceAtMost") {
        Some(coerce(h, recv, name, args))
    } else if same(name, "pow") {
        Some(task2(FloatOp::Pow, recv, first))
    } else if same(name, "sign") {
        Some(sign(h, recv))
    } else if whole && same(name, "mod") {
        let x: i64 = h.to_int(recv);
        let y: i64 = h.to_int(first);
        if y == 0 {
            Some(Reply::Fault("java.lang.ArithmeticException: / by zero".to_owned()))
        } else {
            Some(Reply::Value(Value::Int(floor_mod(x, y))))
        }
    } else if same(name, "absoluteValue") {
        match recv {
            Value::Int(n) => {
                let m: u128 = abs_of(n);
                Some(Reply::Value(Value::Int(m as i64)))
            },
            _ => Some(task(FloatOp::Abs, recv)),
        }
    } else if same(name, "roundToInt") || same(name, "roundToLong") {
        Some(round(h, recv, name))
    } else if same(name, "plus") || same(name, "minus") || same(name, "times") || same(name, "div")
        || same(name, "rem") {
        Some(arithmetic_of(recv, name, first))
    } else {
        if let Value::Int(n) = recv {
            if same(name, "toString") && args.len() > 0 {
                return Some(in_radix(h, n, args[0]));
            }
        }
        convert(h, recv, name)
    }
}

// ── Operators on operands of any kind ───────────────────────────────────────

/// An arithmetic or comparison operator.
#[derive(Clone, Copy, Debug, PartialEq, Eq, Structural)]
pub enum NumOp {
    Add,
    Sub,
    Mul,
    Div,
    Mod,
    Pow,
    Neg,
    Lt,
    Gt,
    Le,
    Ge,
    Eq,
    Ne,
}

/// An operator with a `Char` operand: the code units count. `Char - Char` is the
/// distance, and the other sums keep the type of the `Char`.
pub open spec fn char_operator(h: HostView, op: NumOp, a: Value, b: Value) -> ReplyView {
    let x = h.num_of(a);
    let y = h.num_of(b);
    match op {
        NumOp::Add => ReplyView::Value(char_value(x + y)),
        NumOp::Sub => if code_of(a) is Some && code_of(b) is Some {
            ReplyView::Value(as_int(x - y))
        } else {
            ReplyView::Value(char_value(x - y))
        },
        NumOp::Lt => ReplyView::Value(Value::Bool(x < y)),
        NumOp::Gt => ReplyView::Value(Value::Bool(x > y)),
        NumOp::Le => ReplyView::Value(Value::Bool(x <= y)),
        NumOp::Ge => ReplyView::Value(Value::Bool(x >= y)),
        NumOp::Eq => ReplyView::Value(Value::Bool(x == y)),
        NumOp::Ne => ReplyView::Value(Value::Bool(x != y)),
        NumOp::Mul => ReplyView::Value(as_int(x * y)),
        NumOp::Div => if y == 0 {
            ReplyView::Fault("java.lang.ArithmeticException: / by zero"@)
        } else {
            ReplyView::Value(as_int(quotient(x, y)))
        },
        NumOp::Mod => if y == 0 {
            ReplyView::Fault("java.lang.ArithmeticException: / by zero"@)
        } else {
            ReplyView::Value(as_int(remainder(x, y)))
        },
        NumOp::Pow => compute2(FloatOp::Pow, as_int(x), as_int(y)),
        NumOp::Neg => ReplyView::Value(as_int(-x)),
    }
}

/// The floating-point operation of an operator.
pub open spec fn float_op(op: NumOp) -> FloatOp {
    match op {
        NumOp::Add => FloatOp::Add,
        NumOp::Sub => FloatOp::Sub,
        NumOp::Mul => FloatOp::Mul,
        NumOp::Div => FloatOp::Div,
        NumOp::Mod => FloatOp::Rem,
        NumOp::Pow => FloatOp::Pow,
        NumOp::Neg => FloatOp::Neg,
        NumOp::Lt => FloatOp::Lt,
        NumOp::Gt => FloatOp::Gt,
        NumOp::Le => FloatOp::Le,
        NumOp::Ge => FloatOp::Ge,
        NumOp::Eq => FloatOp::Eq,
        NumOp::Ne => FloatOp::Ne,
    }
}

/// An operator that the VM hands over: `+` with a text concatenates, a `Char`
/// counts by code unit, integers wrap, and everything else is a double.
pub open spec fn operator_reply(h: HostView, op: NumOp, a: Value, b: Value) -> ReplyView {
    if op == NumOp::Add && (a is Str || b is Str) {
        ReplyView::Text(text_of(h, a) + text_of(h, b))
    } else if code_of(a) is Some || code_of(b) is Some {
        char_operator(h, op, a, b)
    } else {
        match (op, a, b) {
            (NumOp::Add, Value::Int(x), Value::Int(y)) => ReplyView::Value(
                Value::Int(x.wrapping_add(y)),
            ),
            (NumOp::Sub, Value::Int(x), Value::Int(y)) => ReplyView::Value(
                Value::Int(x.wrapping_sub(y)),
            ),
            (NumOp::Mul, Value::Int(x), Value::Int(y)) => ReplyView::Value(
                Value::Int(x.wrapping_mul(y)),
            ),
            (NumOp::Neg, Value::Int(x), _) => ReplyView::Value(as_int(-x)),
            _ => compute2(float_op(op), a, b),
        }
    }
}

fn char_operate(h: &Host, op: NumOp, a: Value, b: Value) -> (r: Reply)
    requires
        code_of(a) is Some || code_of(b) is Some,
    ensures
        r@ == char_operator(h@, op, a, b),
{
    let x: i64 = h.num_of(a);
    let y: i64 = h.num_of(b);
    match op {
        NumOp::Add => {
            proof {
                lemma_char_wraps(x as int, y as int);
            }
            let n: i128 = x as i128 + y as i128;
            Reply::Value(char_of(low_bits(n)))
        },
        NumOp::Sub => if is_char(&a) && is_char(&b) {
            Reply::Value(Value::Int(x - y))
        } else {
            let n: i128 = x as i128 - y as i128;
            proof {
                lemma_char_wraps(x as int, -y as int);
            }
            Reply::Value(char_of(low_bits(n)))
        },
        NumOp::Lt => Reply::Value(Value::Bool(x < y)),
        NumOp::Gt => Reply::Value(Value::Bool(x > y)),
        NumOp::Le => Reply::Value(Value::Bool(x <= y)),
        NumOp::Ge => Reply::Value(Value::Bool(x >= y)),
        NumOp::Eq => Reply::Value(Value::Bool(x == y)),
        NumOp::Ne => Reply::Value(Value::Bool(x != y)),
        NumOp::Mul => {
            assert(-0x8000_0000_0000_0000 * 0x8000_0000_0000_0000 <= x * y
                <= 0x8000_0000_0000_0000 * 0x8000_0000_0000_0000) by (nonlinear_arith)
                requires
                    -0x8000_0000_0000_0000 <= x <= 0x8000_0000_0000_0000,
                    -0x8000_0000_0000_0000 <= y <= 0x8000_0000_0000_0000,
            ;
            let n: i128 = (x as i128) * (y as i128);
            Reply::Value(Value::Int(n as i64))
        },
        NumOp::Div => if y == 0 {
            Reply::Fault("java.lang.ArithmeticException: / by zero".to_owned())
        } else {
            Reply::Value(Value::Int(int_div(x, y)))
        },
        NumOp::Mod => if y == 0 {
            Reply::Fault("java.lang.ArithmeticException: / by zero".to_owned())
        } else {
            Reply::Value(Value::Int(int_rem(x, y)))
        },
        NumOp::Pow => task2(FloatOp::Pow, Value::Int(x), Value::Int(y)),
        NumOp::Neg => {
            let n: i128 = -(x as i128);
            Reply::Value(Value::Int(n as i64))
        },
    }
}

proof fn lemma_char_wraps(x: int, y: int)
    ensures
        char_value(x + y) == char_value((x + y) % 0x10000),
{
}

fn low_bits(n: i128) -> (r: i64)
    requires
        -0x1_0000_0000_0000_0000 <= n <= 0x1_0000_0000_0000_0000,
    ensures
        r == n as int % 0x10000,
{
    let low: i128 = n % 0x10000;
    if low < 0 {
        (low + 0x10000) as i64
    } else {
        low as i64
    }
}

fn float_op_of(op: NumOp) -> (r: FloatOp)
    ensures
        r == float_op(op),
{
    match op {
        NumOp::Add => FloatOp::Add,
        NumOp::Sub => FloatOp::Sub,
        NumOp::Mul => FloatOp::Mul,
        NumOp::Div => FloatOp::Div,
        NumOp::Mod => FloatOp::Rem,
        NumOp::Pow => FloatOp::Pow,
        NumOp::Neg => FloatOp::Neg,
        NumOp::Lt => FloatOp::Lt,
        NumOp::Gt => FloatOp::Gt,
        NumOp::Le => FloatOp::Le,
        NumOp::Ge => FloatOp::Ge,
        NumOp::Eq => FloatOp::Eq,
        NumOp::Ne => FloatOp::Ne,
    }
}

/// The Kotlin result of an arithmetic or comparison operator that the VM does
/// not compute itself.
pub fn num_hook(h: &Host, op: NumOp, a: Value, b: Value) -> (r: Reply)
    ensures
        r@ == operator_reply(h@, op, a, b),
{
    if op == NumOp::Add && (matches!(a, Value::Str(_)) || matches!(b, Value::Str(_))) {
        let x: String = kotlin_string(h, a);
        let y: String = kotlin_string(h, b);
        return Reply::Text(concat2(x.as_str(), y.as_str()));
    }
    if is_char(&a) || is_char(&b) {
        return char_operate(h, op, a, b);
    }
    match (op, a, b) {
        (NumOp::Add, Value::Int(x), Value::Int(y)) => Reply::Value(Value::Int(x.wrapping_add(y))),
        (NumOp::Sub, Value::Int(x), Value::Int(y)) => Reply::Value(Value::Int(x.wrapping_sub(y))),
        (NumOp::Mul, Value::Int(x), Value::Int(y)) => Reply::Value(Value::Int(x.wrapping_mul(y))),
        (NumOp::Neg, Value::Int(x), _) => {
            let n: i128 = -(x as i128);
            Reply::Value(Value::Int(n as i64))
        },
        _ => task2(float_op_of(op), a, b),
    }
}

/// Adding a number to a `Char` and taking it away again gives the `Char` back.
pub proof fn law_char_sum_undone(h: HostView, c: Value, n: i64)
    requires
        code_of(c) is Some,
    ensures
        char_operator(h, NumOp::Add, c, Value::Int(n)) matches ReplyView::Value(d) && char_operator(
            h,
            NumOp::Sub,
            d,
            Value::Int(n),
        ) == ReplyView::Value(c),
{
    let d = char_value(code_of(c)->0 + n);
    assert(char_operator(h, NumOp::Add, c, Value::Int(n)) == ReplyView::Value(d));
}

} // verus!
