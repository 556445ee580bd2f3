//! The natural order of values, and what sorting by it gives.
use crate::value::Value;
use vstd::prelude::*;

verus! {

use crate::gather::{best_index, best_value};
use crate::host::HostView;
use crate::order::{are_comparable, by_key, law_sorted_values_are_in_order, lemma_keys_order};
use crate::sequences::{extreme, Extreme};
use crate::sorting::{law_sort_permutes, picked, sorted_positions};
use crate::types::{law_text_order_is_total, natural_order, ordinal_of, text_order};
use crate::value::code_of;
use vstd::arithmetic::power2::{lemma_pow2_pos, lemma_pow2_strictly_increases, lemma_pow2_unfold, pow2};

/// The number that the bits of a finite double stand for, in units of the smallest
/// positive one: the fraction, with its leading one unless the exponent is the least,
/// doubled as often as the exponent says, and with its sign.
pub open spec fn number_of_bits(bits: u64) -> int {
    let fraction = bits as int % 0x10_0000_0000_0000;
    let exponent = bits as int / 0x10_0000_0000_0000 % 0x800;
    let magnitude = if exponent == 0 {
        fraction
    } else {
        (0x10_0000_0000_0000 + fraction) * pow2((exponent - 1) as nat)
    };
    if bits >= 0x8000_0000_0000_0000 {
        -magnitude
    } else {
        magnitude
    }
}

/// Whether the bits are those of a finite number.
pub open spec fn is_finite(bits: u64) -> bool {
    bits as int / 0x10_0000_0000_0000 % 0x800 != 0x7ff
}

proof fn lemma_parts(a: u64)
    ensures
        a < 0x8000_0000_0000_0000 ==> {
            let e = a as int / 0x10_0000_0000_0000;
            let f = a as int % 0x10_0000_0000_0000;
            &&& a == e * 0x10_0000_0000_0000 + f
            &&& 0 <= f < 0x10_0000_0000_0000
            &&& 0 <= e < 0x800
            &&& e % 0x800 == e
        },
        a >= 0x8000_0000_0000_0000 ==> {
            let m = a - 0x8000_0000_0000_0000;
            &&& a as int / 0x10_0000_0000_0000 % 0x800 == m / 0x10_0000_0000_0000
            &&& a as int % 0x10_0000_0000_0000 == m % 0x10_0000_0000_0000
            &&& m / 0x10_0000_0000_0000 % 0x800 == m / 0x10_0000_0000_0000
        },
{
}

proof fn lemma_numbers_grow_with_bits(a: u64, b: u64)
    requires
        a < b < 0x8000_0000_0000_0000,
    ensures
        0 <= number_of_bits(a) < number_of_bits(b),
{
    lemma_parts(a);
    lemma_parts(b);
    let one: int = 0x10_0000_0000_0000;
    let e = a as int / one;
    let f = a as int % one;
    let g = b as int / one;
    let k = b as int % one;
    assert(e <= g) by (nonlinear_arith)
        requires
            a == e * 0x10_0000_0000_0000 + f,
            b == g * 0x10_0000_0000_0000 + k,
            a < b,
            0 <= f,
            k < 0x10_0000_0000_0000,
    ;
    if e == g {
        if e > 0 {
            let p = pow2((e - 1) as nat) as int;
            lemma_pow2_pos((e - 1) as nat);
            assert((one + f) * p < (one + k) * p) by (nonlinear_arith)
                requires
                    f < k,
                    p > 0,
            ;
            assert(0 <= (one + f) * p) by (nonlinear_arith)
                requires
                    0 <= one + f,
                    p > 0,
            ;
        }
    } else {
        let q = pow2((g - 1) as nat) as int;
        lemma_pow2_pos((g - 1) as nat);
        assert(one * q <= (one + k) * q) by (nonlinear_arith)
            requires
                0 <= k,
                q > 0,
        ;
        if e == 0 {
            assert(one * 1 <= one * q) by (nonlinear_arith)
                requires
                    q >= 1,
                    one >= 0,
            ;
        } else {
            let p = pow2((e - 1) as nat) as int;
            lemma_pow2_pos((e - 1) as nat);
            lemma_pow2_unfold(e as nat);
            if e < g - 1 {
                lemma_pow2_strictly_increases(e as nat, (g - 1) as nat);
            }
            assert(2 * p <= q);
            assert((one + f) * p < one * q) by (nonlinear_arith)
                requires
                    0 <= f < one,
                    2 * p <= q,
                    p > 0,
                    one > 0,
            ;
            assert(0 <= (one + f) * p) by (nonlinear_arith)
                requires
                    0 <= one + f,
                    p > 0,
            ;
        }
    }
}

proof fn lemma_negated(a: u64)
    requires
        a >= 0x8000_0000_0000_0000,
    ensures
        number_of_bits(a) == -number_of_bits((a - 0x8000_0000_0000_0000) as u64),
        is_finite(a) == is_finite((a - 0x8000_0000_0000_0000) as u64),
{
    lemma_parts(a);
}

proof fn lemma_not_negative(a: u64)
    requires
        a < 0x8000_0000_0000_0000,
    ensures
        0 <= number_of_bits(a),
        number_of_bits(a) == 0 <==> a == 0,
        number_of_bits(0) == 0,
        is_finite(a) <==> a < 0x7ff0_0000_0000_0000,
{
    lemma_parts(a);
    lemma_parts(0);
    if a > 0 {
        lemma_numbers_grow_with_bits(0, a);
    }
}

/// Doubles are ordered as the numbers that they stand for; of the two zeros the
/// negative one comes first.
pub proof fn law_doubles_are_in_numeric_order(h: HostView, x: usize, y: usize)
    ensures
        ({
            let a = h.double(x).bits;
            let b = h.double(y).bits;
            let order = natural_order(h, Value::Float(x), Value::Float(y));
            is_finite(a) && is_finite(b) ==> {
                &&& number_of_bits(a) < number_of_bits(b) ==> order < 0
                &&& number_of_bits(a) > number_of_bits(b) ==> order > 0
                &&& number_of_bits(a) == number_of_bits(b) ==> {
                    &&& order < 0 <==> a >= 0x8000_0000_0000_0000 && b < 0x8000_0000_0000_0000
                    &&& order == 0 <==> a == b
                }
            }
        }),
{
    let a = h.double(x).bits;
    let b = h.double(y).bits;
    if is_finite(a) && is_finite(b) {
        if a >= 0x8000_0000_0000_0000 {
            lemma_negated(a);
            lemma_not_negative((a - 0x8000_0000_0000_0000) as u64);
        } else {
            lemma_not_negative(a);
        }
        if b >= 0x8000_0000_0000_0000 {
            lemma_negated(b);
            lemma_not_negative((b - 0x8000_0000_0000_0000) as u64);
        } else {
            lemma_not_negative(b);
        }
        if a < 0x8000_0000_0000_0000 && b < 0x8000_0000_0000_0000 {
            if a < b {
                lemma_numbers_grow_with_bits(a, b);
            } else if b < a {
                lemma_numbers_grow_with_bits(b, a);
            }
        } else if a >= 0x8000_0000_0000_0000 && b >= 0x8000_0000_0000_0000 {
            let m = (a - 0x8000_0000_0000_0000) as u64;
            let n = (b - 0x8000_0000_0000_0000) as u64;
            if m < n {
                lemma_numbers_grow_with_bits(m, n);
            } else if n < m {
                lemma_numbers_grow_with_bits(n, m);
            }
        }
    }
}

/// What is not finite stands at the ends of the order of doubles: the negative
/// infinity before every other, the positive one behind every number, and what is no
/// number behind that, all of a kind.
pub proof fn law_infinities_and_nan_are_at_the_ends(h: HostView, x: usize, y: usize)
    ensures
        ({
            let a = h.double(x).bits;
            let b = h.double(y).bits;
            let order = natural_order(h, Value::Float(x), Value::Float(y));
            let a_is_nan = !is_finite(a) && a as int % 0x10_0000_0000_0000 != 0;
            let b_is_nan = !is_finite(b) && b as int % 0x10_0000_0000_0000 != 0;
            &&& a_is_nan && b_is_nan ==> order == 0
            &&& a_is_nan && !b_is_nan ==> order > 0
            &&& !a_is_nan && b_is_nan ==> order < 0
            &&& a == 0x7ff0_0000_0000_0000 && is_finite(b) ==> order > 0
            &&& a == 0xfff0_0000_0000_0000 && is_finite(b) ==> order < 0
            &&& a == 0xfff0_0000_0000_0000 && b == 0x7ff0_0000_0000_0000 ==> order < 0
        }),
{
    let a = h.double(x).bits;
    let b = h.double(y).bits;
    lemma_parts(a);
    lemma_parts(b);
}

/// Integers are ordered by value, characters by code, and `false` comes before
/// `true`.
pub proof fn law_scalars_are_in_order(h: HostView, m: i64, n: i64, c: Value, d: Value)
    requires
        code_of(c) is Some,
        code_of(d) is Some,
        ordinal_of(h, c) is None,
        ordinal_of(h, d) is None,
    ensures
        natural_order(h, Value::Int(m), Value::Int(n)) < 0 <==> m < n,
        natural_order(h, Value::Int(m), Value::Int(n)) == 0 <==> m == n,
        natural_order(h, c, d) < 0 <==> code_of(c)->0 < code_of(d)->0,
        natural_order(h, c, d) == 0 <==> code_of(c)->0 == code_of(d)->0,
        natural_order(h, Value::Bool(false), Value::Bool(true)) < 0,
        natural_order(h, Value::Bool(true), Value::Bool(false)) > 0,
        natural_order(h, Value::Bool(true), Value::Bool(true)) == 0,
        natural_order(h, Value::Bool(false), Value::Bool(false)) == 0,
{
}

/// Texts are ordered as in a dictionary: the first character that differs decides,
/// and a text comes before those that go on behind it.
pub proof fn law_texts_are_in_dictionary_order(
    h: HostView,
    x: usize,
    y: usize,
    common: Seq<char>,
    a: Seq<char>,
    b: Seq<char>,
)
    requires
        h.text(x) == common + a,
        h.text(y) == common + b,
        a.len() > 0 && b.len() > 0 ==> a[0] != b[0],
    ensures
        ({
            let order = natural_order(h, Value::Str(x), Value::Str(y));
            &&& a.len() > 0 && b.len() > 0 ==> (order < 0 <==> a[0] < b[0]) && order != 0
            &&& a.len() == 0 && b.len() > 0 ==> order < 0
            &&& a.len() > 0 && b.len() == 0 ==> order > 0
            &&& a.len() == 0 && b.len() == 0 ==> order == 0
        }),
{
    lemma_common_start(common, a, b);
}

proof fn lemma_common_start(common: Seq<char>, a: Seq<char>, b: Seq<char>)
    ensures
        text_order(common + a, common + b) == text_order(a, b),
    decreases common.len(),
{
    if common.len() == 0 {
        assert(common + a =~= a);
        assert(common + b =~= b);
    } else {
        lemma_common_start(common.skip(1), a, b);
        assert((common + a).skip(1) =~= common.skip(1) + a);
        assert((common + b).skip(1) =~= common.skip(1) + b);
    }
}

/// The order of two values turns round with them.
pub proof fn law_order_turns_round(h: HostView, a: Value, b: Value)
    ensures
        natural_order(h, a, b) == -natural_order(h, b, a),
        natural_order(h, a, a) == 0,
{
    if let (Value::Str(x), Value::Str(y)) = (a, b) {
        law_text_order_is_total(h.text(x), h.text(y), h.text(y));
    }
    if let Value::Str(x) = a {
        law_text_order_is_total(h.text(x), h.text(x), h.text(x));
    }
}

/// The order of values that can be compared chains.
pub proof fn law_order_chains(h: HostView, a: Value, b: Value, c: Value)
    requires
        are_comparable(h, seq![a, b, c]),
        natural_order(h, a, b) <= 0,
        natural_order(h, b, c) <= 0,
    ensures
        natural_order(h, a, c) <= 0,
{
    let keys = seq![a, b, c];
    lemma_keys_order(h, keys);
    let le = by_key(h, keys);
    assert(le(0, 1) && le(1, 2));
    assert(le(0, 2));
}

/// Whether `out` holds exactly the elements of `items`, each as often, in another
/// order.
pub open spec fn is_rearranged(items: Seq<Value>, out: Seq<Value>) -> bool {
    &&& out.len() == items.len()
    &&& exists|at: Seq<int>| #[trigger] rearranges(at, items, out)
}

/// Whether `out` is `items` at the positions `at`, each position once.
pub open spec fn rearranges(at: Seq<int>, items: Seq<Value>, out: Seq<Value>) -> bool {
    &&& at.len() == items.len()
    &&& out.len() == items.len()
    &&& at.no_duplicates()
    &&& forall|i: int| 0 <= i < at.len() ==> 0 <= #[trigger] at[i] < items.len() && out[i] == items[at[i]]
}

/// Whether no element of `out` comes, in the natural order, behind a later one.
pub open spec fn is_ascending(h: HostView, out: Seq<Value>) -> bool {
    forall|i: int, j: int|
        0 <= i < j < out.len() ==> natural_order(h, #[trigger] out[i], #[trigger] out[j]) <= 0
}

/// Whether no element of `out` comes, in the natural order, before a later one.
pub open spec fn is_descending(h: HostView, out: Seq<Value>) -> bool {
    forall|i: int, j: int|
        0 <= i < j < out.len() ==> natural_order(h, #[trigger] out[i], #[trigger] out[j]) >= 0
}

pub proof fn lemma_sorted_by_keys(h: HostView, items: Seq<Value>, keys: Seq<Value>)
    requires
        are_comparable(h, keys),
        keys.len() == items.len(),
    ensures
        ({
            let at = sorted_positions(keys.len() as int, by_key(h, keys));
            &&& rearranges(at, items, picked(items, at))
            &&& rearranges(at, keys, picked(keys, at))
            &&& is_ascending(h, picked(keys, at))
        }),
{
    law_sorted_values_are_in_order(h, keys);
    law_sort_permutes(keys.len() as int, by_key(h, keys));
}

pub proof fn lemma_extreme(h: HostView, vs: Seq<Value>, max: bool, i: int)
    requires
        are_comparable(h, vs),
        0 <= i < vs.len(),
    ensures
        match extreme(h, vs, max) {
            Extreme::Nothing => false,
            Extreme::Nan => true,
            Extreme::Of(v) => vs.contains(v) && (if max {
                natural_order(h, vs[i], v) <= 0
            } else {
                natural_order(h, vs[i], v) >= 0
            }),
        },
    decreases vs.len(),
{
    let less = vs.drop_last();
    assert(are_comparable(h, less));
    lemma_keys_order(h, vs);
    let le = by_key(h, vs);
    let last = vs.len() - 1;
    if less.len() == 0 {
        assert(vs[last] == vs.last());
        law_order_turns_round(h, vs[0], vs[0]);
        assert(vs.contains(vs[last]));
    } else {
        let k = if i < last {
            i
        } else {
            0
        };
        lemma_extreme(h, less, max, k);
        match extreme(h, less, max) {
            Extreme::Of(a) => {
                let j = choose|j: int| 0 <= j < less.len() && less[j] == a;
                assert(vs[j] == a);
                assert(vs[last] == vs.last());
                assert(less[k] == vs[k]);
                law_order_turns_round(h, vs.last(), a);
                law_order_turns_round(h, vs[k], a);
                law_order_turns_round(h, vs[k], vs.last());
                law_order_turns_round(h, vs.last(), vs.last());
                assert(le(k, j) || le(j, k));
                assert(le(j, last) && le(k, j) ==> le(k, last));
                assert(le(last, j) && le(j, k) ==> le(last, k));
            },
            _ => {},
        }
    }
}

pub proof fn lemma_best_value(h: HostView, vs: Seq<Value>, max: bool, i: int)
    requires
        are_comparable(h, vs),
        0 <= i < vs.len(),
    ensures
        best_value(h, vs, max) matches Some(v) && vs.contains(v) && (if max {
            natural_order(h, vs[i], v) <= 0
        } else {
            natural_order(h, vs[i], v) >= 0
        }),
    decreases vs.len(),
{
    let less = vs.drop_last();
    assert(are_comparable(h, less));
    lemma_keys_order(h, vs);
    let le = by_key(h, vs);
    let last = vs.len() - 1;
    if less.len() == 0 {
        assert(vs[last] == vs.last());
        law_order_turns_round(h, vs[0], vs[0]);
        assert(vs.contains(vs[last]));
    } else {
        let k = if i < last {
            i
        } else {
            0
        };
        lemma_best_value(h, less, max, k);
        let a = best_value(h, less, max)->0;
        let j = choose|j: int| 0 <= j < less.len() && less[j] == a;
        assert(vs[j] == a);
        assert(vs[last] == vs.last());
        assert(less[k] == vs[k]);
        law_order_turns_round(h, vs.last(), a);
        law_order_turns_round(h, vs[k], a);
        law_order_turns_round(h, vs[k], vs.last());
        law_order_turns_round(h, vs.last(), vs.last());
        assert(le(k, j) || le(j, k));
        assert(le(j, last) && le(k, j) ==> le(k, last));
        assert(le(last, j) && le(j, k) ==> le(last, k));
    }
}

pub proof fn lemma_best_index(h: HostView, keys: Seq<Value>, max: bool, i: int)
    requires
        are_comparable(h, keys),
        0 <= i < keys.len(),
    ensures
        ({
            let b = best_index(h, keys, max);
            &&& 0 <= b < keys.len()
            &&& if max {
                natural_order(h, keys[i], keys[b]) <= 0
            } else {
                natural_order(h, keys[i], keys[b]) >= 0
            }
            &&& i < b ==> natural_order(h, keys[i], keys[b]) != 0
        }),
    decreases keys.len(),
{
    lemma_keys_order(h, keys);
    let le = by_key(h, keys);
    if keys.len() == 1 {
        law_order_turns_round(h, keys[0], keys[0]);
    } else {
        let less = keys.drop_last();
        assert(are_comparable(h, less));
        let last = keys.len() - 1;
        let k = if i < last {
            i
        } else {
            0
        };
        lemma_best_index(h, less, max, k);
        let b = best_index(h, less, max);
        assert(less[b] == keys[b] && less[k] == keys[k]);
        assert(keys[last] == keys.last());
        law_order_turns_round(h, keys[last], keys[b]);
        law_order_turns_round(h, keys[k], keys[b]);
        law_order_turns_round(h, keys[k], keys[last]);
        law_order_turns_round(h, keys[last], keys[last]);
        assert(le(k, b) || le(b, k));
        assert(le(b, last) && le(k, b) ==> le(k, last));
        assert(le(last, b) && le(b, k) ==> le(last, k));
        assert(le(last, k) && le(k, b) ==> le(last, b));
        assert(le(b, k) && le(k, last) ==> le(b, last));
    }
}

} // verus!
