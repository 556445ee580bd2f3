//! The iteration order of a `Map` or a `Set`.
//!
//! The stored sequence of a collection is its iteration sequence. A collection
//! that does not iterate in insertion order is put back into its own order after
//! each change.
use crate::compare::depth_budget;
use crate::host::{CollOrder, Host};
use crate::sorting::{pick, sort_positions};
use crate::types::value_order;
use crate::value::{copy_values, HeapObj, Value};
use crate::walk::{host_before, Log, Stop, Turn};
use vstd::prelude::*;

verus! {

use crate::compare::budget;
use crate::host::HostView;
use crate::sorting::{is_order, picked, positions_view, sorted_positions};
use crate::types::{law_text_order_is_total, natural_order, ordinal_of};
use crate::value::{code_of, ObjView};
use crate::walk::{hash_walk, host_at, Answers, Outcome};
use vstd::arithmetic::power2::{lemma_pow2_strictly_increases, lemma_pow2_unfold, pow2};

// ── The hash table ──────────────────────────────────────────────────────────

/// `java.util.HashMap`'s default table size.
pub const DEFAULT_CAPACITY: usize = 16;

/// `n`, doubled until it is `want` or more.
pub open spec fn doubled_to(n: nat, want: nat) -> nat
    decreases
        (if n < want {
            want - n
        } else {
            0
        }),
{
    if n == 0 || n >= want {
        n
    } else {
        doubled_to(2 * n, want)
    }
}

/// `n`, doubled until `size` entries stay within three quarters of it.
pub open spec fn grown(n: nat, size: nat) -> nat
    decreases
        (if n * 3 < size * 4 {
            size * 4 - n * 3
        } else {
            0
        }),
{
    if n == 0 || size * 4 <= n * 3 {
        n
    } else {
        grown(2 * n, size)
    }
}

/// The number of buckets of a table that started with room for `initial` and
/// holds `size` entries.
pub open spec fn buckets(size: nat, initial: nat) -> nat {
    grown(doubled_to(1, initial), size)
}

proof fn lemma_doubled(k: nat, want: nat) -> (j: nat)
    ensures
        doubled_to(pow2(k), want) == pow2(j),
        j >= k,
        pow2(j) >= want,
        forall|i: nat| k <= i < j ==> #[trigger] pow2(i) < want,
    decreases
        (if pow2(k) < want {
            want - pow2(k)
        } else {
            0
        }),
{
    lemma_pow2_unfold(k + 1);
    vstd::arithmetic::power2::lemma_pow2_pos(k);
    if pow2(k) >= want {
        k
    } else {
        let j = lemma_doubled(k + 1, want);
        assert forall|i: nat| k <= i < j implies #[trigger] pow2(i) < want by {
            if i > k {
                assert(k + 1 <= i);
            }
        }
        j
    }
}

proof fn lemma_grown(k: nat, size: nat) -> (j: nat)
    ensures
        grown(pow2(k), size) == pow2(j),
        j >= k,
        size * 4 <= pow2(j) * 3,
        forall|i: nat| k <= i < j ==> size * 4 > #[trigger] pow2(i) * 3,
    decreases
        (if pow2(k) * 3 < size * 4 {
            size * 4 - pow2(k) * 3
        } else {
            0
        }),
{
    lemma_pow2_unfold(k + 1);
    vstd::arithmetic::power2::lemma_pow2_pos(k);
    if size * 4 <= pow2(k) * 3 {
        k
    } else {
        let j = lemma_grown(k + 1, size);
        assert forall|i: nat| k <= i < j implies size * 4 > #[trigger] pow2(i) * 3 by {
            if i > k {
                assert(k + 1 <= i);
            }
        }
        j
    }
}

/// A table has the smallest power-of-two number of buckets that is at least the
/// initial capacity and keeps its entries within the load factor.
pub proof fn law_table_is_smallest(size: nat, initial: nat, k: nat)
    requires
        pow2(k) >= initial,
        size * 4 <= pow2(k) * 3,
    ensures
        exists|j: nat| buckets(size, initial) == #[trigger] pow2(j),
        buckets(size, initial) >= initial,
        size * 4 <= buckets(size, initial) * 3,
        buckets(size, initial) <= pow2(k),
{
    vstd::arithmetic::power2::lemma2_to64();
    let a = lemma_doubled(0, initial);
    let b = lemma_grown(a, size);
    if b > a {
        lemma_pow2_strictly_increases(a, b);
    }
    if k < b {
        if k < a {
            assert(pow2(k) < initial);
        } else {
            assert(size * 4 > pow2(k) * 3);
        }
    } else if k > b {
        lemma_pow2_strictly_increases(b, k);
    }
}

/// The number of buckets of a table that started at `initial` and holds `size`
/// entries.
pub fn table_size(size: usize, initial: usize) -> (n: u128)
    ensures
        n == buckets(size as nat, initial as nat),
        n >= 1,
{
    let mut n: u128 = 1;
    while n < initial as u128
        invariant
            1 <= n,
            n <= 2 * initial || n == 1,
            doubled_to(n as nat, initial as nat) == doubled_to(1, initial as nat),
        decreases
            (if n < initial {
                initial - n
            } else {
                0
            }),
    {
        n = n * 2;
    }
    let ghost start = n as nat;
    while size as u128 * 4 > n * 3
        invariant
            1 <= n,
            n <= 2 * initial || n == 1 || n <= 4 * size,
            grown(n as nat, size as nat) == grown(start, size as nat),
        decreases
            (if n * 3 < size * 4 {
                size * 4 - n * 3
            } else {
                0
            }),
    {
        n = n * 2;
    }
    n
}

/// Java's spread of a hash, which mixes the high bits down.
pub open spec fn spread(hash: i32) -> u32 {
    let u = hash as u32;
    u ^ (u >> 16u32)
}

/// The bucket of a hash in a table of `n` buckets.
pub open spec fn bucket(hash: i32, n: nat) -> int {
    (spread(hash) as nat % n) as int
}

/// The bucket a hash falls in, in a table of `n` buckets.
pub fn bucket_of(hash: i32, n: u128) -> (b: u32)
    requires
        n >= 1,
    ensures
        b == bucket(hash, n as nat),
{
    let u: u32 = hash as u32;
    let s: u32 = u ^ (u >> 16u32);
    let b: u128 = s as u128 % n;
    assert(b <= s) by (nonlinear_arith)
        requires
            b == s as u128 % n,
            n >= 1,
    ;
    b as u32
}

// ── The capacity a builder asks for ─────────────────────────────────────────

/// The spacing of single-precision numbers at `v / den`, in units of `2^-21`;
/// it is the first of `unit`, `2 * unit`, ... at which 24 bits are enough.
pub open spec fn spacing(v: nat, den: nat, unit: nat) -> nat
    decreases v - unit,
{
    if den == 0 || unit == 0 || v < unit * den * 0x100_0000 {
        unit
    } else {
        proof {
            assert(unit * 0x100_0000 <= unit * den * 0x100_0000) by (nonlinear_arith)
                requires
                    den > 0,
                    unit > 0,
            ;
        }
        spacing(v, den, unit * 2)
    }
}

/// `a / b` rounded to the nearest integer, to the even one half-way.
pub open spec fn nearest(a: nat, b: nat) -> nat {
    let q = a / b;
    let r = a % b;
    if 2 * r > b || (2 * r == b && q % 2 == 1) {
        q + 1
    } else {
        q
    }
}

/// `v / den` in single precision, in units of `2^-21`, for a quotient of four
/// or more or an integer.
pub open spec fn single(v: nat, den: nat) -> nat {
    nearest(v, den * spacing(v, den, 1)) * spacing(v, den, 1)
}

/// What `expected / 0.75f + 1.0f` comes to in single precision, cut to an
/// integer.
pub open spec fn load_quotient(expected: nat) -> nat {
    single(single(4 * single(expected * 0x20_0000, 1), 3) + 0x20_0000, 1) / 0x20_0000
}

/// The initial capacity that a builder asks for to hold `expected` elements.
pub open spec fn capacity(expected: nat) -> nat {
    if expected < 3 {
        expected + 1
    } else if load_quotient(expected) > usize::MAX {
        usize::MAX as nat
    } else {
        load_quotient(expected)
    }
}

fn to_single(v: u128, den: u128) -> (r: u128)
    requires
        1 <= den <= 3,
        v <= 0x100_0000_0000_0000_0000_0000,
    ensures
        r == single(v as nat, den as nat),
        r <= v + v / 0x80_0000 + 1,
{
    let mut unit: u128 = 1;
    while v >= unit * den * 0x100_0000
        invariant
            1 <= den <= 3,
            1 <= unit,
            unit == 1 || unit * 0x80_0000 <= v,
            v <= 0x100_0000_0000_0000_0000_0000,
            unit <= 0x100_0000_0000_0000_0000,
            unit * den * 0x100_0000 <= 0x300_0000_0000_0000_0000_0000_0000,
            spacing(v as nat, den as nat, unit as nat) == spacing(v as nat, den as nat, 1),
        decreases v - unit,
    {
        assert(unit * 0x100_0000 <= unit * den * 0x100_0000) by (nonlinear_arith)
            requires
                1 <= den,
                1 <= unit,
        ;
        unit = unit * 2;
        assert(unit * den * 0x100_0000 <= 0x300_0000_0000_0000_0000_0000_0000) by (nonlinear_arith)
            requires
                unit * 0x80_0000 <= 0x100_0000_0000_0000_0000_0000,
                1 <= den <= 3,
        ;
    }
    assert(den * unit <= 0x300_0000_0000_0000_0000) by (nonlinear_arith)
        requires
            unit <= 0x100_0000_0000_0000_0000,
            1 <= den <= 3,
    ;
    assert(den * unit >= 1) by (nonlinear_arith)
        requires
            unit >= 1,
            den >= 1,
    ;
    let b: u128 = den * unit;
    let q: u128 = v / b;
    let r: u128 = v % b;
    assert(r < b);
    assert(q * unit <= v) by (nonlinear_arith)
        requires
            q == v / b,
            b == den * unit,
            b >= 1,
            den >= 1,
            unit >= 1,
    ;
    assert((q + 1) * unit == q * unit + unit) by (nonlinear_arith);
    assert(q <= v) by (nonlinear_arith)
        requires
            q * unit <= v,
            unit >= 1,
    ;
    if 2 * r > b || (2 * r == b && q % 2 == 1) {
        (q + 1) * unit
    } else {
        q * unit
    }
}

/// Kotlin's `mapCapacity`: the initial capacity `hashMapOf` and `hashSetOf` ask
/// for. It is the element count divided by the load factor, worked out in single
/// precision.
pub fn map_capacity(expected: usize) -> (n: usize)
    ensures
        n == capacity(expected as nat),
{
    if expected < 3 {
        return expected + 1;
    }
    let a: u128 = to_single(expected as u128 * 0x20_0000, 1);
    let b: u128 = to_single(a * 4, 3);
    let c: u128 = to_single(b + 0x20_0000, 1);
    let q: u128 = c / 0x20_0000;
    if q > usize::MAX as u128 {
        usize::MAX
    } else {
        q as usize
    }
}

/// The spacing is at most `limit`, a later unit at which 24 bits are enough.
proof fn lemma_spacing(v: nat, den: nat, unit: nat, limit: nat)
    requires
        den > 0,
        0 < unit <= limit,
        v < limit * den * 0x100_0000,
        exists|k: nat| limit == unit * #[trigger] pow2(k),
    ensures
        0 < spacing(v, den, unit) <= limit,
    decreases limit - unit,
{
    let k = choose|k: nat| limit == unit * #[trigger] pow2(k);
    vstd::arithmetic::power2::lemma2_to64();
    if !(v < unit * den * 0x100_0000) {
        if k == 0 {
            assert(unit * pow2(0) == unit) by (nonlinear_arith)
                requires
                    pow2(0) == 1,
            ;
        } else {
            let j = (k - 1) as nat;
            lemma_pow2_unfold(k);
            vstd::arithmetic::power2::lemma_pow2_pos(j);
            assert(limit == (unit * 2) * pow2(j)) by (nonlinear_arith)
                requires
                    limit == unit * pow2(k),
                    pow2(k) == 2 * pow2(j),
            ;
            assert(unit * 2 <= (unit * 2) * pow2(j)) by (nonlinear_arith)
                requires
                    pow2(j) >= 1,
            ;
            assert(unit * 0x100_0000 <= unit * den * 0x100_0000) by (nonlinear_arith)
                requires
                    den > 0,
            ;
            lemma_spacing(v, den, unit * 2, limit);
        }
    }
}

/// Rounding to single precision moves a quotient by half a spacing at most.
proof fn lemma_single(v: nat, den: nat, limit: nat, k: nat)
    requires
        den > 0,
        limit == pow2(k),
        v < limit * den * 0x100_0000,
    ensures
        2 * (single(v, den) * den - v) <= den * limit,
        2 * (v - single(v, den) * den) <= den * limit,
{
    vstd::arithmetic::power2::lemma_pow2_pos(k);
    assert(limit == 1 * pow2(k));
    lemma_spacing(v, den, 1, limit);
    let u = spacing(v, den, 1);
    let b = den * u;
    assert(0 < b <= den * limit) by (nonlinear_arith)
        requires
            b == den * u,
            den > 0,
            0 < u <= limit,
    ;
    let q = v / b;
    let r = v % b;
    assert(v == q * b + r && 0 <= r < b) by (nonlinear_arith)
        requires
            q == v / b,
            r == v % b,
            b > 0,
    ;
    let m = nearest(v, b);
    assert((q + 1) * b == q * b + b) by (nonlinear_arith);
    assert(2 * (m * b - v) <= b && 2 * (v - m * b) <= b);
    assert((m * u) * den == m * b) by (nonlinear_arith)
        requires
            b == den * u,
    ;
}

/// The capacity that a builder asks for holds its elements: it is more than their
/// number, and the table is the smallest with that many buckets, so that filling
/// it never makes it grow.
pub proof fn law_capacity_holds(n: nat)
    requires
        n <= 1_000_000,
    ensures
        capacity(n) > n,
        buckets(n, capacity(n)) >= capacity(n),
        exists|j: nat| buckets(n, capacity(n)) == #[trigger] pow2(j),
        forall|k: nat| #[trigger] pow2(k) >= capacity(n) ==> buckets(n, capacity(n)) <= pow2(k),
{
    vstd::arithmetic::power2::lemma2_to64();
    let c = capacity(n);
    assert(c > n && c * 3 >= n * 4) by {
        if n >= 3 {
            let a = single(n * 0x20_0000, 1);
            lemma_single(n * 0x20_0000, 1, 0x2_0000, 17);
            let b = single(4 * a, 3);
            lemma_single(4 * a, 3, 0x4_0000, 18);
            let s = single(b + 0x20_0000, 1);
            lemma_single(b + 0x20_0000, 1, 0x4_0000, 18);
            assert(load_quotient(n) == s / 0x20_0000);
            assert(3 * s >= (4 * n + 3) * 0x20_0000 - 0x10_0000);
            assert(3 * s <= (4 * n + 3) * 0x20_0000 + 0x10_0000);
        }
    }
    let j = lemma_doubled(0, c);
    assert(doubled_to(1, c) == pow2(j));
    assert(buckets(n, c) == pow2(j));
    assert forall|k: nat| #[trigger] pow2(k) >= c implies buckets(n, c) <= pow2(k) by {
        if k > j {
            lemma_pow2_strictly_increases(j, k);
        }
    }
}

// ── The discipline a builder call asks for ──────────────────────────────────

/// Iteration order code of a `java.util.HashMap`/`HashSet` bucket table.
pub const COLL_HASH: u8 = 1;

/// Iteration order code of a `java.util.TreeSet`, ascending by natural order.
pub const COLL_SORTED: u8 = 2;

/// Flag of the copy form `HashSet(other)`.
pub const COLL_COPY: u8 = 0x10;

/// Flag of the no-argument constructor, which starts from the default table.
pub const COLL_DEFAULT_CAP: u8 = 0x20;

/// The collection discipline a builder call asks for: the low four bits of its
/// code name the order, and two flags the construction.
#[derive(Clone, Copy, Debug, PartialEq, Eq, Structural)]
pub struct CollSpec {
    pub order: u8,
    /// The copy form: take the single argument's elements.
    pub copy: bool,
    /// The no-argument constructor: the default table, not a sized one.
    pub default_cap: bool,
}

proof fn lemma_low_bits(code: int)
    ensures
        code % 16 == (code % 64) % 16,
        (code / 16) % 2 == ((code % 64) / 16) % 2,
        (code / 32) % 2 == ((code % 64) / 32) % 2,
{
    let k = code / 64;
    let r = code % 64;
    vstd::arithmetic::div_mod::lemma_fundamental_div_mod_converse(code, 16, 4 * k + r / 16, r % 16);
    vstd::arithmetic::div_mod::lemma_fundamental_div_mod_converse(code, 32, 2 * k + r / 32, r % 32);
    let a = r / 16;
    let b = r / 32;
    assert((4 * k + a) % 2 == a % 2);
    assert((2 * k + b) % 2 == b % 2);
}

/// The low six bits of a code.
fn low_bits(code: i64) -> (low: u8)
    ensures
        low == code % 64,
{
    let low: i64 = code % 64;
    if low < 0 {
        (low + 64) as u8
    } else {
        low as u8
    }
}

impl CollSpec {
    /// The discipline a code stands for; its low eight bits count.
    pub open spec fn decoded(code: int) -> CollSpec {
        CollSpec {
            order: (code % 16) as u8,
            copy: (code / 16) % 2 == 1,
            default_cap: (code / 32) % 2 == 1,
        }
    }

    /// The order of a collection of `size` elements; `None` is insertion order.
    pub open spec fn order_for_size(self, size: nat) -> Option<CollOrder> {
        if self.order == COLL_HASH {
            Some(
                CollOrder::Hash(
                    if self.default_cap {
                        DEFAULT_CAPACITY
                    } else {
                        capacity(size) as usize
                    },
                ),
            )
        } else if self.order == COLL_SORTED {
            Some(CollOrder::Sorted)
        } else {
            None
        }
    }

    /// The discipline a code stands for.
    pub fn decode(code: i64) -> (s: CollSpec)
        ensures
            s == CollSpec::decoded(code as int),
    {
        let low: u8 = low_bits(code);
        proof {
            lemma_low_bits(code as int);
        }
        CollSpec {
            order: low % 16,
            copy: (low / 16) % 2 == 1,
            default_cap: (low / 32) % 2 == 1,
        }
    }

    /// The order of a collection of `size` elements.
    pub fn order_for(&self, size: usize) -> (r: Option<CollOrder>)
        ensures
            r == self.order_for_size(size as nat),
    {
        if self.order == COLL_HASH {
            if self.default_cap {
                Some(CollOrder::Hash(DEFAULT_CAPACITY))
            } else {
                Some(CollOrder::Hash(map_capacity(size)))
            }
        } else if self.order == COLL_SORTED {
            Some(CollOrder::Sorted)
        } else {
            None
        }
    }
}

// ── Restoring the order ─────────────────────────────────────────────────────

/// The hashes of the keys from position `i` on, behind `done`.
pub open spec fn hashes_walk(
    h: HostView,
    log: Answers,
    at: nat,
    keys: Seq<Value>,
    done: Seq<i32>,
    fuel: nat,
) -> Outcome<Seq<i32>>
    decreases keys.len() - done.len(),
{
    if done.len() >= keys.len() {
        Ok((done, at))
    } else {
        match hash_walk(h, log, at, keys[done.len() as int], false, fuel) {
            Err(s) => Err(s),
            Ok((x, n)) => hashes_walk(h, log, n, keys, done.push(x), fuel),
        }
    }
}

/// The order of positions by bucket.
pub open spec fn by_bucket(hashes: Seq<i32>, n: nat) -> spec_fn(int, int) -> bool {
    |a: int, b: int| bucket(hashes[a], n) <= bucket(hashes[b], n)
}

/// The natural order of positions by their keys.
pub open spec fn by_key(h: HostView, keys: Seq<Value>) -> spec_fn(int, int) -> bool {
    |a: int, b: int| natural_order(h, keys[a], keys[b]) <= 0
}

/// The positions of `keys` in the iteration order `ord`.
pub open spec fn order_walk(h: HostView, log: Answers, ord: CollOrder, keys: Seq<Value>) -> Result<
    Seq<int>,
    Stop,
> {
    match ord {
        CollOrder::Sorted => Ok(sorted_positions(keys.len() as int, by_key(h, keys))),
        CollOrder::Hash(initial) => match hashes_walk(h, log, 0, keys, Seq::empty(), budget(h)) {
            Err(s) => Err(s),
            Ok((hashes, _)) => Ok(
                sorted_positions(
                    keys.len() as int,
                    by_bucket(hashes, buckets(keys.len(), initial as nat)),
                ),
            ),
        },
    }
}

/// The keys of entries.
pub open spec fn entry_keys(es: Seq<(Value, Value)>) -> Seq<Value> {
    es.map_values(|e: (Value, Value)| e.0)
}

/// What a `Map` or a `Set` orders itself by.
pub open spec fn order_keys(o: Option<ObjView>) -> Option<Seq<Value>> {
    match o {
        Some(ObjView::MapObj(es)) => Some(entry_keys(es)),
        Some(ObjView::SetObj(items)) => Some(items),
        _ => None,
    }
}

/// A `Map` or a `Set` with its elements at the positions `at`.
pub open spec fn permuted(o: ObjView, at: Seq<int>) -> ObjView {
    match o {
        ObjView::MapObj(es) => ObjView::MapObj(picked(es, at)),
        ObjView::SetObj(items) => ObjView::SetObj(picked(items, at)),
        other => other,
    }
}

/// The state with the collection `v` back in its own iteration order: that of the
/// keys it had when the walk started. A collection that a `hashCode` has shortened
/// meanwhile stays as it is.
pub open spec fn restored(h: HostView, v: Value, log: Answers) -> Result<HostView, Stop> {
    let g = host_at(h, log, 0);
    match (g.order_of(v), order_keys(g.obj(v))) {
        (Some(ord), Some(keys)) => match order_walk(h, log, ord, keys) {
            Err(s) => Err(s),
            Ok(at) => Ok(
                match order_keys(h.obj(v)) {
                    Some(now) if now.len() >= keys.len() => h.with_obj(
                        v,
                        permuted(h.obj(v)->0, at),
                    ),
                    _ => h,
                },
            ),
        },
        _ => Ok(h),
    }
}

/// The positions of `keys` in `java.util.HashMap` iteration order: by bucket,
/// and within a bucket by arrival.
pub fn hash_order(h: &Host, keys: &Vec<Value>, initial: usize, answers: &Vec<Turn>) -> (r:
    Result<Vec<usize>, Stop>)
    ensures
        match r {
            Ok(at) => order_walk(h@, answers@, CollOrder::Hash(initial), keys@) == Ok::<_, Stop>(
                positions_view(at@),
            ) && at@.len() == keys@.len() && forall|i: int|
                0 <= i < at@.len() ==> #[trigger] at@[i] < keys@.len(),
            Err(s) => order_walk(h@, answers@, CollOrder::Hash(initial), keys@) == Err::<
                Seq<int>,
                Stop,
            >(s),
        },
{
    let fuel: usize = depth_budget(h);
    let mut log = Log::new(answers);
    let mut hashes: Vec<i32> = Vec::new();
    let ghost goal = hashes_walk(h@, answers@, 0, keys@, Seq::empty(), budget(h@));
    while hashes.len() < keys.len()
        invariant
            hashes@.len() <= keys@.len(),
            fuel == budget(h@),
            log.answers@ == answers@,
            log.at <= log.answers@.len(),
            goal == hashes_walk(h@, answers@, 0, keys@, Seq::empty(), budget(h@)),
            order_walk(h@, answers@, CollOrder::Hash(initial), keys@) == (match goal {
                Err(s) => Err(s),
                Ok((hashes, _)) => Ok(
                    sorted_positions(
                        keys@.len() as int,
                        by_bucket(hashes, buckets(keys@.len(), initial as nat)),
                    ),
                ),
            }),
            hashes_walk(h@, answers@, log.at as nat, keys@, hashes@, fuel as nat) == goal,
        decreases keys.len() - hashes.len(),
    {
        let n: usize = hashes.len();
        match log.hash(h, keys[n], false, fuel) {
            Ok(x) => {
                hashes.push(x);
            },
            Err(s) => {
                return Err(s);
            },
        }
    }
    let n: u128 = table_size(keys.len(), initial);
    let mut slots: Vec<u32> = Vec::new();
    let mut i: usize = 0;
    while i < hashes.len()
        invariant
            i <= hashes@.len(),
            n >= 1,
            slots@.len() == i,
            forall|k: int| 0 <= k < i ==> #[trigger] slots@[k] == bucket(hashes@[k], n as nat),
        decreases hashes.len() - i,
    {
        slots.push(bucket_of(hashes[i], n));
        i = i + 1;
    }
    let le = |a: usize, b: usize| -> (r: bool)
        requires
            a < slots@.len(),
            b < slots@.len(),
        ensures
            r == (slots@[a as int] <= slots@[b as int]),
        { slots[a] <= slots[b] };
    let at: Vec<usize> = sort_positions(keys.len(), le, Ghost(by_bucket(hashes@, n as nat)));
    Ok(at)
}

/// The positions of `keys` in ascending natural order.
pub fn natural_positions(h: &Host, keys: &Vec<Value>) -> (at: Vec<usize>)
    ensures
        positions_view(at@) == sorted_positions(keys@.len() as int, by_key(h@, keys@)),
        at@.len() == keys@.len(),
        forall|i: int| 0 <= i < at@.len() ==> #[trigger] at@[i] < keys@.len(),
{
    let le = |a: usize, b: usize| -> (r: bool)
        requires
            a < keys@.len(),
            b < keys@.len(),
        ensures
            r == (natural_order(h@, keys@[a as int], keys@[b as int]) <= 0),
        { value_order(h, keys[a], keys[b]) <= 0 };
    sort_positions(keys.len(), le, Ghost(by_key(h@, keys@)))
}

/// The keys of entries.
pub(crate) fn keys_of(es: &Vec<(Value, Value)>) -> (r: Vec<Value>)
    ensures
        r@ == entry_keys(es@),
{
    let mut r: Vec<Value> = Vec::new();
    let mut i: usize = 0;
    while i < es.len()
        invariant
            i <= es@.len(),
            r@ == entry_keys(es@).take(i as int),
        decreases es.len() - i,
    {
        r.push(es[i].0);
        i = i + 1;
        assert(entry_keys(es@).take(i as int) =~= entry_keys(es@).take(i - 1).push(es@[i - 1].0));
    }
    assert(entry_keys(es@).take(i as int) =~= entry_keys(es@));
    r
}

/// Put a collection back into its own iteration order after a change. A
/// collection in insertion order stays as it is.
pub fn reorder(h: &mut Host, v: Value, answers: &Vec<Turn>) -> (r: Result<(), Stop>)
    ensures
        match restored(old(h)@, v, answers@) {
            Ok(g) => r is Ok && final(h)@ == g,
            Err(s) => r == Err::<(), Stop>(s) && final(h)@ == old(h)@,
        },
{
    let id: u32 = match v {
        Value::Obj(id) => id,
        _ => {
            return Ok(());
        },
    };
    let at: Vec<usize> = {
        let g: &Host = host_before(h, answers);
        let ord: CollOrder = match g.order_of(v) {
            Some(o) => o,
            None => {
                return Ok(());
            },
        };
        let keys: Vec<Value> = match g.obj(v) {
            Some(HeapObj::MapObj(es)) => keys_of(es),
            Some(HeapObj::SetObj(items)) => copy_values(items),
            _ => {
                return Ok(());
            },
        };
        match ord {
            CollOrder::Hash(initial) => match hash_order(h, &keys, initial, answers) {
                Ok(at) => at,
                Err(s) => {
                    return Err(s);
                },
            },
            CollOrder::Sorted => natural_positions(h, &keys),
        }
    };
    let o: HeapObj = match h.obj(v) {
        Some(HeapObj::MapObj(es)) => {
            if es.len() < at.len() {
                return Ok(());
            }
            HeapObj::MapObj(pick(es, &at))
        },
        Some(HeapObj::SetObj(items)) => {
            if items.len() < at.len() {
                return Ok(());
            }
            HeapObj::SetObj(pick(items, &at))
        },
        _ => {
            return Ok(());
        },
    };
    h.replace(id, o);
    Ok(())
}

/// Restoring a collection's order keeps its elements, unless a `hashCode` that it
/// runs changes the collection itself: each stands in the result as often as
/// before.
pub proof fn law_restoring_keeps_elements(h: HostView, v: Value, log: Answers, items: Seq<Value>)
    requires
        h.obj(v) == Some(ObjView::SetObj(items)),
        host_at(h, log, 0).obj(v) == h.obj(v),
        restored(h, v, log) is Ok,
    ensures
        (restored(h, v, log)->Ok_0).obj(v) matches Some(ObjView::SetObj(out)) && out.len()
            == items.len() && (forall|i: int|
            0 <= i < items.len() ==> out.contains(#[trigger] items[i])) && (forall|i: int|
            0 <= i < out.len() ==> items.contains(#[trigger] out[i])),
{
    match host_at(h, log, 0).order_of(v) {
        None => {},
        Some(ord) => {
            let at = order_walk(h, log, ord, items)->Ok_0;
            let le = match ord {
                CollOrder::Sorted => by_key(h, items),
                CollOrder::Hash(initial) => by_bucket(
                    (hashes_walk(h, log, 0, items, Seq::empty(), budget(h))->Ok_0).0,
                    buckets(items.len(), initial as nat),
                ),
            };
            crate::sorting::law_sort_permutes(items.len() as int, le);
            let out = picked(items, at);
            assert(at == sorted_positions(items.len() as int, le));
            assert forall|i: int| 0 <= i < items.len() implies out.contains(#[trigger] items[i]) by {
                assert(at.contains(i));
                let j = choose|j: int| 0 <= j < at.len() && at[j] == i;
                assert(out[j] == items[i]);
            }
            assert forall|i: int| 0 <= i < out.len() implies items.contains(#[trigger] out[i]) by {
                assert(out[i] == items[at[i]]);
            }
        },
    }
}

/// Whether the natural order tells any two of these values apart in one way:
/// texts, enum constants, characters, integers, truth values, or none of those,
/// which compare as doubles.
pub open spec fn are_comparable(h: HostView, keys: Seq<Value>) -> bool {
    ||| forall|i: int| 0 <= i < keys.len() ==> #[trigger] keys[i] is Str
    ||| forall|i: int| 0 <= i < keys.len() ==> ordinal_of(h, #[trigger] keys[i]) is Some
    ||| forall|i: int|
        0 <= i < keys.len() ==> code_of(#[trigger] keys[i]) is Some && ordinal_of(h, keys[i])
            is None
    ||| forall|i: int| 0 <= i < keys.len() ==> #[trigger] keys[i] is Int
    ||| forall|i: int| 0 <= i < keys.len() ==> #[trigger] keys[i] is Bool
    ||| forall|i: int|
        0 <= i < keys.len() ==> {
            let k = #[trigger] keys[i];
            !(k is Str || k is Int || k is Bool || code_of(k) is Some || ordinal_of(h, k) is Some)
        }
}

pub proof fn lemma_keys_order(h: HostView, keys: Seq<Value>)
    requires
        are_comparable(h, keys),
    ensures
        is_order(keys.len() as int, by_key(h, keys)),
{
    let le = by_key(h, keys);
    let n = keys.len() as int;
    if forall|i: int| 0 <= i < n ==> #[trigger] keys[i] is Str {
        assert forall|a: int, b: int| 0 <= a < n && 0 <= b < n implies #[trigger] le(a, b) || le(
            b,
            a,
        ) by {
            law_text_order_is_total(h.text(keys[a]->Str_0), h.text(keys[b]->Str_0), Seq::empty());
        }
        assert forall|a: int, b: int, c: int|
            0 <= a < n && 0 <= b < n && 0 <= c < n && #[trigger] le(a, b) && #[trigger] le(
                b,
                c,
            ) implies le(a, c) by {
            law_text_order_is_total(
                h.text(keys[a]->Str_0),
                h.text(keys[b]->Str_0),
                h.text(keys[c]->Str_0),
            );
        }
    }
}

/// Sorted values are in their natural order, and those that tie keep the order
/// they had.
pub proof fn law_sorted_values_are_in_order(h: HostView, keys: Seq<Value>)
    requires
        are_comparable(h, keys),
    ensures
        ({
            let at = sorted_positions(keys.len() as int, by_key(h, keys));
            forall|i: int, j: int|
                0 <= i < j < keys.len() ==> {
                    let d = natural_order(h, keys[#[trigger] at[i]], keys[#[trigger] at[j]]);
                    d < 0 || d == 0 && at[i] < at[j]
                }
        }),
{
    let le = by_key(h, keys);
    let n = keys.len() as int;
    lemma_keys_order(h, keys);
    crate::sorting::law_sort_orders(n, le);
    crate::sorting::law_sort_permutes(n, le);
    let at = sorted_positions(n, le);
    assert forall|i: int, j: int| 0 <= i < j < n implies {
        let d = natural_order(h, keys[#[trigger] at[i]], keys[#[trigger] at[j]]);
        d < 0 || d == 0 && at[i] < at[j]
    } by {
        assert(le(at[i], at[j]));
        if natural_order(h, keys[at[i]], keys[at[j]]) == 0 {
            lemma_ties_are_mutual(h, keys, at[i], at[j]);
            assert(le(at[j], at[i]));
        }
    }
}

proof fn lemma_ties_are_mutual(h: HostView, keys: Seq<Value>, a: int, b: int)
    requires
        are_comparable(h, keys),
        0 <= a < keys.len(),
        0 <= b < keys.len(),
        natural_order(h, keys[a], keys[b]) == 0,
    ensures
        natural_order(h, keys[b], keys[a]) == 0,
{
    if keys[a] is Str && keys[b] is Str {
        law_text_order_is_total(h.text(keys[a]->Str_0), h.text(keys[b]->Str_0), Seq::empty());
    }
}

/// A collection that is kept sorted asks nothing, and is in the natural order of
/// its keys after every change.
pub proof fn law_sorted_collections_stay_in_order(h: HostView, v: Value, log: Answers)
    requires
        log.len() == 0,
        h.order_of(v) == Some(CollOrder::Sorted),
        order_keys(h.obj(v)) matches Some(keys) && are_comparable(h, keys),
    ensures
        restored(h, v, log) matches Ok(g) && order_keys(g.obj(v)) matches Some(keys) && keys.len()
            == (order_keys(h.obj(v))->0).len() && forall|i: int, j: int|
            0 <= i < j < keys.len() ==> natural_order(h, #[trigger] keys[i], #[trigger] keys[j])
                <= 0,
{
    let keys = order_keys(h.obj(v))->0;
    law_sorted_values_are_in_order(h, keys);
    crate::sorting::law_sort_permutes(keys.len() as int, by_key(h, keys));
    let at = sorted_positions(keys.len() as int, by_key(h, keys));
    let g = restored(h, v, log)->Ok_0;
    let out = order_keys(g.obj(v))->0;
    assert(out =~= picked(keys, at));
}

/// A hash table is walked bucket by bucket, and each bucket in the order of
/// arrival.
pub proof fn law_tables_are_walked_by_bucket(
    h: HostView,
    log: Answers,
    initial: usize,
    keys: Seq<Value>,
)
    requires
        hashes_walk(h, log, 0, keys, Seq::empty(), budget(h)) is Ok,
    ensures
        order_walk(h, log, CollOrder::Hash(initial), keys) matches Ok(at) && {
            let hashes = (hashes_walk(h, log, 0, keys, Seq::empty(), budget(h))->Ok_0).0;
            let n = buckets(keys.len(), initial as nat);
            at.len() == keys.len() && forall|i: int, j: int|
                0 <= i < j < at.len() ==> {
                    let x = bucket(hashes[#[trigger] at[i]], n);
                    let y = bucket(hashes[#[trigger] at[j]], n);
                    x < y || x == y && at[i] < at[j]
                }
        },
{
    let hashes = (hashes_walk(h, log, 0, keys, Seq::empty(), budget(h))->Ok_0).0;
    let le = by_bucket(hashes, buckets(keys.len(), initial as nat));
    let n = keys.len() as int;
    crate::sorting::law_sort_orders(n, le);
    crate::sorting::law_sort_permutes(n, le);
    let at = sorted_positions(n, le);
    assert forall|i: int, j: int| 0 <= i < j < n implies {
        let x = bucket(hashes[#[trigger] at[i]], buckets(keys.len(), initial as nat));
        let y = bucket(hashes[#[trigger] at[j]], buckets(keys.len(), initial as nat));
        x < y || x == y && at[i] < at[j]
    } by {
        assert(le(at[i], at[j]));
        if bucket(hashes[at[i]], buckets(keys.len(), initial as nat)) == bucket(
            hashes[at[j]],
            buckets(keys.len(), initial as nat),
        ) {
            assert(le(at[j], at[i]));
        }
    }
}

} // verus!
