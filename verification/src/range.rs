//! `IntRange` and `IntProgression`.
use crate::value::{char_of, Value};
use vstd::prelude::*;

verus! {

use crate::value::char_value;

use vstd::arithmetic::div_mod::{
    lemma_fundamental_div_mod,
    lemma_mod_bound,
    lemma_mod_multiples_vanish,
    lemma_small_mod,
};

/// Which syntactic form produced a range. This is not cosmetic: `a..b` and
/// `a until b` build an `IntRange`, whose `toString` is `first..last`, while
/// `a downTo b` and any `step` build an `IntProgression`, whose `toString` is
/// `first..last step n` (or `first downTo last step n`).
#[derive(Clone, Copy, Debug, PartialEq, Eq, Structural)]
pub enum RangeForm {
    /// `a..b`, an `IntRange`.
    Inclusive,
    /// `a until b`, an `IntRange` over `a..(b-1)`.
    Until,
    /// `a downTo b`, an `IntProgression` with step `-1`.
    DownTo,
}

/// A range value: `first`, the *raw* endpoint `end` the source named, and the
/// signed `step`. `progression` marks the `IntProgression` display form.
///
/// `end` is kept raw rather than normalized because the two Kotlin types differ
/// in what they print: an `IntRange` prints the endpoint it was built with,
/// while an `IntProgression` prints its last *reachable* element
/// (`1..10 step 2` prints `1..9 step 2`). [`RangeObj::last`] derives the latter.
#[derive(Clone, Copy, Debug, PartialEq, Eq, Structural)]
pub struct RangeObj {
    pub first: i64,
    pub end: i64,
    pub step: i64,
    pub progression: bool,
    /// `'a'..'z'`: elements and printed form are characters, the endpoints
    /// their code units.
    pub is_char: bool,
}

impl RangeObj {
    /// Whether `v` is an element: between the endpoints and a whole number of
    /// steps away from `first`.
    pub open spec fn has(&self, v: int) -> bool {
        &&& self.step != 0
        &&& if self.step > 0 {
            self.first <= v <= self.end
        } else {
            self.end <= v <= self.first
        }
        &&& (v - self.first) % (self.step as int) == 0
    }

    /// Whether the range yields nothing.
    pub open spec fn is_void(&self) -> bool {
        if self.step > 0 {
            self.first > self.end
        } else {
            self.step == 0 || self.first < self.end
        }
    }

    /// How far `last` falls short of `end` on a range that yields something.
    pub open spec fn shortfall(&self) -> int {
        if self.step > 0 {
            (self.end - self.first) % (self.step as int)
        } else {
            (self.first - self.end) % (-self.step as int)
        }
    }

    /// The last element the progression reaches, or the raw endpoint when it
    /// reaches none.
    pub open spec fn last_element(&self) -> int {
        if self.is_void() {
            self.end as int
        } else if self.step > 0 {
            self.end - self.shortfall()
        } else {
            self.end + self.shortfall()
        }
    }

    /// How many elements there are.
    pub open spec fn size(&self) -> int {
        if self.is_void() {
            0
        } else if self.step > 0 {
            (self.end - self.first) / (self.step as int) + 1
        } else {
            (self.first - self.end) / (-self.step as int) + 1
        }
    }

    /// How many elements an `Int` counts: all of them, or the greatest `Int`
    /// when there are more.
    pub open spec fn counted(&self) -> int {
        if self.size() <= i64::MAX {
            self.size()
        } else {
            i64::MAX as int
        }
    }

    /// Element `i`, counted from 0.
    pub open spec fn element(&self, i: int) -> int {
        self.first + i * self.step
    }

    /// A range of the given form. `until` is exclusive: it covers
    /// `first..(end-1)`; when `end` is the least integer there is no such
    /// endpoint and the range is the empty `1..0`.
    pub fn new(first: i64, end: i64, form: RangeForm, is_char: bool) -> (r: RangeObj)
        ensures
            r == range_of(first, end, form, is_char),
    {
        match form {
            RangeForm::Inclusive => RangeObj { first, end, step: 1, progression: false, is_char },
            RangeForm::Until => if end > i64::MIN {
                RangeObj { first, end: end - 1, step: 1, progression: false, is_char }
            } else {
                RangeObj { first: 1, end: 0, step: 1, progression: false, is_char }
            },
            RangeForm::DownTo => RangeObj { first, end, step: -1, progression: true, is_char },
        }
    }

    /// The last element the progression actually reaches. An empty progression
    /// reports the raw endpoint (which is what Kotlin prints for, e.g.,
    /// `1..0 step 2`).
    pub fn last(&self) -> (r: i64)
        ensures
            r == self.last_element(),
    {
        if self.step > 0 {
            if self.first > self.end {
                self.end
            } else {
                let d: i64 = difference_modulo(self.end, self.first, self.step);
                proof {
                    lemma_mod_at_most((self.end - self.first) as int, self.step as int);
                }
                self.end - d
            }
        } else if self.step == 0 || self.first < self.end {
            self.end
        } else {
            let span: i128 = self.first as i128 - self.end as i128;
            let d: i128 = span % (-(self.step as i128));
            proof {
                lemma_mod_at_most((self.first - self.end) as int, -self.step as int);
            }
            (self.end as i128 + d) as i64
        }
    }

    /// How many elements the range yields (0 when empty).
    pub fn count(&self) -> (r: i64)
        ensures
            r == self.counted(),
            r >= 0,
    {
        let n: i128 = if self.step > 0 {
            if self.first > self.end {
                0
            } else {
                proof {
                    lemma_div_nonneg((self.end - self.first) as int, self.step as int);
                }
                (self.end as i128 - self.first as i128) / (self.step as i128) + 1
            }
        } else if self.step == 0 || self.first < self.end {
            0
        } else {
            proof {
                lemma_div_nonneg((self.first - self.end) as int, -self.step as int);
            }
            (self.first as i128 - self.end as i128) / (-(self.step as i128)) + 1
        };
        if n <= i64::MAX as i128 {
            n as i64
        } else {
            i64::MAX
        }
    }

    /// Element `i` (0-based) of a range that has it.
    pub fn at(&self, i: i64) -> (r: i64)
        requires
            0 <= i < self.size(),
        ensures
            r == self.element(i as int),
            self.has(r as int),
    {
        proof {
            lemma_element_is_member(*self, i as int);
        }
        let wide: i128 = self.first as i128 + (i as i128) * (self.step as i128);
        wide as i64
    }

    /// Membership: within the bounds and on a step boundary.
    pub fn contains(&self, v: i64) -> (r: bool)
        ensures
            r == self.has(v as int),
    {
        if self.step > 0 {
            self.first <= v && v <= self.end && (v as i128 - self.first as i128)
                % (self.step as i128) == 0
        } else if self.step == 0 {
            false
        } else {
            proof {
                lemma_multiple_both_ways((v - self.first) as int, self.step as int);
            }
            self.end <= v && v <= self.first && (self.first as i128 - v as i128)
                % (-(self.step as i128)) == 0
        }
    }

    /// The same range walked with a step of `n`, in the direction it had.
    pub fn stepped(&self, n: i64) -> (r: RangeObj)
        requires
            n > 0,
        ensures
            r.first == self.first,
            r.end == self.end,
            r.step == (if self.step < 0 {
                -n
            } else {
                n as int
            }),
            r.progression,
            r.is_char == self.is_char,
    {
        RangeObj {
            first: self.first,
            end: self.end,
            step: if self.step < 0 {
                -n
            } else {
                n
            },
            progression: true,
            is_char: self.is_char,
        }
    }

    /// Element `i` as the Kotlin value it is: a `Char` for a `CharRange`.
    pub open spec fn element_value(&self, i: int) -> Value {
        if self.is_char {
            char_value(self.element(i))
        } else {
            Value::Int(self.element(i) as i64)
        }
    }

    /// All elements, in order.
    pub open spec fn elements(&self) -> Seq<Value> {
        Seq::new(self.counted() as nat, |i: int| self.element_value(i))
    }

    /// A number of this range as the Kotlin value it is.
    pub fn wrap(&self, n: i64) -> (v: Value)
        ensures
            v == (if self.is_char {
                char_value(n as int)
            } else {
                Value::Int(n)
            }),
    {
        if self.is_char {
            char_of(n)
        } else {
            Value::Int(n)
        }
    }

    /// Element `i` as the Kotlin value it is.
    pub fn value_at(&self, i: i64) -> (v: Value)
        requires
            0 <= i < self.size(),
        ensures
            v == self.element_value(i as int),
    {
        self.wrap(self.at(i))
    }

    /// All elements, in order.
    pub fn to_vec(&self) -> (r: Vec<Value>)
        ensures
            r@ == self.elements(),
    {
        let n: i64 = self.count();
        let mut r: Vec<Value> = Vec::new();
        let mut i: i64 = 0;
        while i < n
            invariant
                0 <= i <= n,
                n == self.counted(),
                r@ == self.elements().take(i as int),
            decreases n - i,
        {
            r.push(self.value_at(i));
            i = i + 1;
            assert(self.elements().take(i as int) =~= self.elements().take(i - 1).push(
                self.element_value(i - 1),
            ));
        }
        assert(self.elements().take(n as int) =~= self.elements());
        r
    }
}

/// The range that `first` and `end` build in a given form.
pub open spec fn range_of(first: i64, end: i64, form: RangeForm, is_char: bool) -> RangeObj {
    match form {
        RangeForm::Inclusive => RangeObj { first, end, step: 1, progression: false, is_char },
        RangeForm::Until => if end > i64::MIN {
            RangeObj { first, end: (end - 1) as i64, step: 1, progression: false, is_char }
        } else {
            RangeObj { first: 1, end: 0, step: 1, progression: false, is_char }
        },
        RangeForm::DownTo => RangeObj { first, end, step: -1i64 as i64, progression: true, is_char },
    }
}

/// `(a - b)` reduced into `[0, c)`. Used to snap a progression's endpoint onto a
/// step boundary.
pub fn difference_modulo(a: i64, b: i64, c: i64) -> (r: i64)
    requires
        c > 0,
    ensures
        r == (a - b) % (c as int),
        0 <= r < c,
{
    proof {
        lemma_mod_bound((a - b) as int, c as int);
        lemma_mod_bound((b - a) as int, c as int);
        lemma_mod_negated((b - a) as int, c as int);
    }
    if a >= b {
        ((a as i128 - b as i128) % (c as i128)) as i64
    } else {
        let m: i64 = ((b as i128 - a as i128) % (c as i128)) as i64;
        if m == 0 {
            0
        } else {
            c - m
        }
    }
}

proof fn lemma_mod_at_most(x: int, d: int)
    requires
        x >= 0,
        d > 0,
    ensures
        0 <= x % d <= x,
{
    lemma_mod_bound(x, d);
    lemma_fundamental_div_mod(x, d);
    assert(d * (x / d) >= 0) by (nonlinear_arith)
        requires
            x >= 0,
            d > 0,
    ;
}

proof fn lemma_div_nonneg(x: int, d: int)
    requires
        x >= 0,
        d > 0,
    ensures
        0 <= x / d <= x,
{
    assert(0 <= x / d <= x) by (nonlinear_arith)
        requires
            x >= 0,
            d > 0,
    ;
}

proof fn lemma_mod_negated(x: int, d: int)
    requires
        d > 0,
    ensures
        (-x) % d == (if x % d == 0 {
            0
        } else {
            d - x % d
        }),
{
    lemma_fundamental_div_mod(x, d);
    lemma_mod_bound(x, d);
    let q = x / d;
    let m = x % d;
    if m == 0 {
        assert((-x) == d * (-q)) by (nonlinear_arith)
            requires
                x == d * q,
        ;
        lemma_mod_multiples_vanish(-q, 0, d);
    } else {
        assert((-x) == d * (-q - 1) + (d - m)) by (nonlinear_arith)
            requires
                x == d * q + m,
        ;
        lemma_mod_multiples_vanish(-q - 1, d - m, d);
        lemma_small_mod((d - m) as nat, d as nat);
    }
}

proof fn lemma_multiple_both_ways(x: int, d: int)
    requires
        d < 0,
    ensures
        x % d == 0 <==> (-x) % (-d) == 0,
{
    assert(x % d == x % (-d)) by (nonlinear_arith)
        requires
            d != 0,
    ;
    lemma_mod_bound(x, -d);
    lemma_mod_negated(x, -d);
}

/// Elements by their number are members, and lie between the endpoints.
pub proof fn lemma_element_is_member(r: RangeObj, i: int)
    requires
        0 <= i < r.size(),
    ensures
        r.has(r.element(i)),
        -0x2_0000_0000_0000_0000 <= i * r.step <= 0x2_0000_0000_0000_0000,
{
    let step = r.step as int;
    let (k, span) = if step > 0 {
        (step, r.end - r.first)
    } else {
        (-step, r.first - r.end)
    };
    lemma_fundamental_div_mod(span, k);
    lemma_mod_bound(span, k);
    assert(0 <= i * k <= span) by (nonlinear_arith)
        requires
            0 <= i <= span / k,
            k > 0,
            span == k * (span / k) + span % k,
            0 <= span % k,
    ;
    assert(i * step == (if step > 0 {
        i * k
    } else {
        -(i * k)
    })) by (nonlinear_arith)
        requires
            k == (if step > 0 {
                step
            } else {
                -step
            }),
    ;
    assert((i * step) % step == 0) by (nonlinear_arith)
        requires
            step != 0,
    ;
}

/// The members of a range are exactly its numbered elements.
pub proof fn law_members_are_elements(r: RangeObj, v: int)
    ensures
        r.has(v) <==> exists|i: int| 0 <= i < r.size() && #[trigger] r.element(i) == v,
{
    if r.has(v) {
        let step = r.step as int;
        let (k, gone, span) = if step > 0 {
            (step, v - r.first, r.end - r.first)
        } else {
            (-step, r.first - v, r.first - r.end)
        };
        if step < 0 {
            lemma_multiple_both_ways(v - r.first, step);
        }
        let i = gone / k;
        lemma_fundamental_div_mod(gone, k);
        assert(gone == k * i);
        assert(r.element(i) == v) by {
            assert(i * step == v - r.first) by (nonlinear_arith)
                requires
                    gone == k * i,
                    step > 0 ==> k == step && gone == v - r.first,
                    step <= 0 ==> k == -step && gone == r.first - v,
            ;
        }
        assert(0 <= i <= span / k) by (nonlinear_arith)
            requires
                k > 0,
                i == gone / k,
                0 <= gone <= span,
        ;
    }
    assert forall|i: int| 0 <= i < r.size() && #[trigger] r.element(i) == v implies r.has(v) by {
        lemma_element_is_member(r, i);
    }
}

/// On a range that yields something, `last` is the last numbered element, hence
/// a member.
pub proof fn law_last_is_an_element(r: RangeObj)
    requires
        !r.is_void(),
    ensures
        r.size() > 0,
        r.last_element() == r.element(r.size() - 1),
        r.has(r.last_element()),
{
    let step = r.step as int;
    let (k, span) = if step > 0 {
        (step, r.end - r.first)
    } else {
        (-step, r.first - r.end)
    };
    lemma_div_nonneg(span, k);
    lemma_fundamental_div_mod(span, k);
    let n = span / k;
    assert(n * step == (if step > 0 {
        k * n
    } else {
        -(k * n)
    })) by (nonlinear_arith)
        requires
            k == (if step > 0 {
                step
            } else {
                -step
            }),
    ;
    lemma_element_is_member(r, n);
}

} // verus!
