//! Stable sorting.
//!
//! What is sorted is a list of positions, by an order on positions; callers read
//! their own elements through the result.
use vstd::prelude::*;

verus! {

/// Where `x` goes in the sorted positions `s`: behind the last of those that
/// may stand before it.
pub open spec fn slot(s: Seq<int>, x: int, le: spec_fn(int, int) -> bool) -> int
    decreases s.len(),
{
    if s.len() == 0 || le(s.last(), x) {
        s.len() as int
    } else {
        slot(s.drop_last(), x, le)
    }
}

/// The positions `0 .. n` in the stable order of `le`.
pub open spec fn sorted_positions(n: int, le: spec_fn(int, int) -> bool) -> Seq<int>
    decreases n,
{
    if n <= 0 {
        Seq::empty()
    } else {
        let s = sorted_positions(n - 1, le);
        s.insert(slot(s, n - 1, le), n - 1)
    }
}

/// The elements of `items` at the positions `at`.
pub open spec fn picked<T>(items: Seq<T>, at: Seq<int>) -> Seq<T> {
    at.map_values(|p: int| items[p])
}

proof fn lemma_slot(s: Seq<int>, x: int, le: spec_fn(int, int) -> bool)
    ensures
        0 <= slot(s, x, le) <= s.len(),
        slot(s, x, le) > 0 ==> le(s[slot(s, x, le) - 1], x),
        forall|i: int| slot(s, x, le) <= i < s.len() ==> !le(#[trigger] s[i], x),
    decreases s.len(),
{
    if s.len() > 0 && !le(s.last(), x) {
        lemma_slot(s.drop_last(), x, le);
        let k = slot(s.drop_last(), x, le);
        assert forall|i: int| k <= i < s.len() implies !le(#[trigger] s[i], x) by {
            if i < s.len() - 1 {
                assert(s.drop_last()[i] == s[i]);
            }
        }
    }
}

/// Sorting moves positions about and loses none: the result holds each of
/// `0 .. n` exactly once.
pub proof fn law_sort_permutes(n: int, le: spec_fn(int, int) -> bool)
    requires
        n >= 0,
    ensures
        sorted_positions(n, le).len() == n,
        sorted_positions(n, le).no_duplicates(),
        forall|i: int| 0 <= i < n ==> 0 <= #[trigger] sorted_positions(n, le)[i] < n,
        forall|p: int| 0 <= p < n ==> sorted_positions(n, le).contains(p),
    decreases n,
{
    if n > 0 {
        law_sort_permutes(n - 1, le);
        let s = sorted_positions(n - 1, le);
        lemma_slot(s, n - 1, le);
        let k = slot(s, n - 1, le);
        let r = s.insert(k, n - 1);
        assert forall|p: int| 0 <= p < n implies r.contains(p) by {
            if p == n - 1 {
                assert(r[k] == p);
            } else {
                let j = choose|j: int| 0 <= j < s.len() && s[j] == p;
                assert(s.contains(p));
                if j < k {
                    assert(r[j] == p);
                } else {
                    assert(r[j + 1] == p);
                }
            }
        }
    }
}

/// Whether any two of the positions `0 .. n` can be compared by `le`, and
/// comparisons chain.
pub open spec fn is_order(n: int, le: spec_fn(int, int) -> bool) -> bool {
    &&& forall|a: int, b: int| 0 <= a < n && 0 <= b < n ==> #[trigger] le(a, b) || le(b, a)
    &&& forall|a: int, b: int, c: int|
        0 <= a < n && 0 <= b < n && 0 <= c < n && #[trigger] le(a, b) && #[trigger] le(b, c) ==> le(
            a,
            c,
        )
}

/// Sorting puts each position before those it may not stand behind, and keeps
/// positions that tie in their first order.
pub proof fn law_sort_orders(n: int, le: spec_fn(int, int) -> bool)
    requires
        n >= 0,
        is_order(n, le),
    ensures
        forall|i: int, j: int|
            0 <= i < j < n ==> le(
                #[trigger] sorted_positions(n, le)[i],
                #[trigger] sorted_positions(n, le)[j],
            ),
        forall|i: int, j: int|
            0 <= i < j < n && le(
                #[trigger] sorted_positions(n, le)[j],
                #[trigger] sorted_positions(n, le)[i],
            ) ==> sorted_positions(n, le)[i] < sorted_positions(n, le)[j],
    decreases n,
{
    if n > 0 {
        law_sort_orders(n - 1, le);
        law_sort_permutes(n - 1, le);
        let s = sorted_positions(n - 1, le);
        let x = n - 1;
        lemma_slot(s, x, le);
        let k = slot(s, x, le);
        let r = s.insert(k, x);
        assert forall|i: int| 0 <= i < k implies le(#[trigger] s[i], x) by {
            assert(le(s[k - 1], x));
            if i < k - 1 {
                assert(le(s[i], s[k - 1]));
            }
        }
        assert forall|i: int, j: int| 0 <= i < j < n implies le(#[trigger] r[i], #[trigger] r[j]) && (
        le(r[j], r[i]) ==> r[i] < r[j]) by {
            let a = if i < k {
                i
            } else {
                i - 1
            };
            let b = if j < k {
                j
            } else {
                j - 1
            };
            if i == k {
                assert(r[j] == s[b]);
                assert(!le(s[b], x));
                assert(le(x, s[b]) || le(s[b], x));
            } else if j == k {
                assert(r[i] == s[a]);
                assert(le(s[a], x));
            } else {
                assert(r[i] == s[a] && r[j] == s[b]);
                assert(le(s[a], s[b]));
            }
        }
    }
}

proof fn lemma_slot_take(s: Seq<int>, j: int, x: int, le: spec_fn(int, int) -> bool)
    requires
        0 < j <= s.len(),
        !le(s[j - 1], x),
    ensures
        slot(s.take(j), x, le) == slot(s.take(j - 1), x, le),
{
    assert(s.take(j).last() == s[j - 1]);
    assert(s.take(j).drop_last() =~= s.take(j - 1));
}

/// Positions as mathematical integers.
pub open spec fn positions_view(r: Seq<usize>) -> Seq<int> {
    r.map_values(|p: usize| p as int)
}

/// The positions `0 .. n` in the stable order of `le`.
pub(crate) fn sort_positions<F: Fn(usize, usize) -> bool>(
    n: usize,
    le: F,
    Ghost(ord): Ghost<spec_fn(int, int) -> bool>,
) -> (r: Vec<usize>)
    requires
        forall|a: usize, b: usize| a < n && b < n ==> call_requires(le, (a, b)),
        forall|a: usize, b: usize, out: bool|
            a < n && b < n && call_ensures(le, (a, b), out) ==> out == ord(a as int, b as int),
    ensures
        positions_view(r@) == sorted_positions(n as int, ord),
        r@.len() == n,
        forall|i: int| 0 <= i < n ==> 0 <= #[trigger] r@[i] < n,
{
    let mut r: Vec<usize> = Vec::new();
    let mut i: usize = 0;
    assert(positions_view(r@) =~= sorted_positions(0, ord));
    while i < n
        invariant
            i <= n,
            r@.len() == i,
            forall|a: usize, b: usize| a < n && b < n ==> call_requires(le, (a, b)),
            forall|a: usize, b: usize, out: bool|
                a < n && b < n && call_ensures(le, (a, b), out) ==> out == ord(a as int, b as int),
            positions_view(r@) == sorted_positions(i as int, ord),
            forall|k: int| 0 <= k < i ==> 0 <= #[trigger] r@[k] < n,
        decreases n - i,
    {
        let ghost s = positions_view(r@);
        let ghost before = r@;
        let mut j: usize = r.len();
        assert(s.take(j as int) =~= s);
        while j > 0 && !le(r[j - 1], i)
            invariant
                i < n,
                j <= r@.len(),
                r@.len() == i,
                s == positions_view(r@),
                forall|a: usize, b: usize| a < n && b < n ==> call_requires(le, (a, b)),
                forall|a: usize, b: usize, out: bool|
                    a < n && b < n && call_ensures(le, (a, b), out) ==> out == ord(
                        a as int,
                        b as int,
                    ),
                forall|k: int| 0 <= k < i ==> 0 <= #[trigger] r@[k] < n,
                slot(s.take(j as int), i as int, ord) == slot(s, i as int, ord),
            decreases j,
        {
            proof {
                lemma_slot_take(s, j as int, i as int, ord);
            }
            j = j - 1;
        }
        proof {
            if j > 0 {
                assert(s.take(j as int).last() == s[j - 1]);
            }
            assert(slot(s, i as int, ord) == j);
        }
        r.insert(j, i);
        assert(positions_view(r@) =~= s.insert(j as int, i as int));
        i = i + 1;
    }
    r
}

/// The elements of `items` at the positions `at`.
pub(crate) fn pick<T: Copy>(items: &Vec<T>, at: &Vec<usize>) -> (r: Vec<T>)
    requires
        forall|i: int| 0 <= i < at@.len() ==> #[trigger] at@[i] < items@.len(),
    ensures
        r@ == picked(items@, positions_view(at@)),
{
    let mut r: Vec<T> = Vec::new();
    let ghost want = picked(items@, positions_view(at@));
    let mut i: usize = 0;
    while i < at.len()
        invariant
            i <= at@.len(),
            forall|k: int| 0 <= k < at@.len() ==> #[trigger] at@[k] < items@.len(),
            want == picked(items@, positions_view(at@)),
            r@ == want.take(i as int),
        decreases at.len() - i,
    {
        r.push(items[at[i]]);
        i = i + 1;
        assert(want.take(i as int) =~= want.take(i - 1).push(want[i - 1]));
    }
    assert(want.take(i as int) =~= want);
    r
}

} // verus!
