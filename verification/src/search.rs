//! Searching, splitting and joining of character sequences.

use crate::text::{chars_of_str, string_of};
use vstd::prelude::*;

verus! {

/// Whether `p` stands in `s` at position `i`.
pub open spec fn occurs_at(s: Seq<char>, p: Seq<char>, i: int) -> bool {
    0 <= i && i + p.len() <= s.len() && s.subrange(i, i + p.len()) == p
}

/// The first position from `i` on at which `p` stands in `s`.
pub open spec fn find_from(s: Seq<char>, p: Seq<char>, i: int) -> Option<int>
    decreases s.len() + 1 - i,
{
    if i < 0 || i + p.len() > s.len() {
        None
    } else if occurs_at(s, p, i) {
        Some(i)
    } else {
        find_from(s, p, i + 1)
    }
}

pub proof fn lemma_find_bounds(s: Seq<char>, p: Seq<char>, i: int)
    ensures
        find_from(s, p, i) matches Some(k) ==> i <= k && occurs_at(s, p, k),
    decreases s.len() + 1 - i,
{
    if i >= 0 && i + p.len() <= s.len() && !occurs_at(s, p, i) {
        lemma_find_bounds(s, p, i + 1);
    }
}

/// The pieces of `s` from `i` on, between the occurrences of the non-empty `p`.
pub open spec fn split_from(s: Seq<char>, p: Seq<char>, i: int) -> Seq<Seq<char>>
    decreases s.len() - i,
{
    match find_from(s, p, i) {
        None => seq![s.subrange(i, s.len() as int)],
        Some(k) => if p.len() == 0 {
            seq![s.subrange(i, s.len() as int)]
        } else {
            proof {
                lemma_find_bounds(s, p, i);
            }
            seq![s.subrange(i, k)] + split_from(s, p, k + p.len())
        },
    }
}

/// The pieces of `s` between the occurrences of `p`. An empty `p` stands between
/// all characters and at both ends.
pub open spec fn pieces(s: Seq<char>, p: Seq<char>) -> Seq<Seq<char>> {
    if p.len() == 0 {
        seq![Seq::<char>::empty()] + s.map_values(|c: char| seq![c]) + seq![Seq::<char>::empty()]
    } else {
        split_from(s, p, 0)
    }
}

/// `parts` in a row, with `sep` between them.
pub open spec fn joined(parts: Seq<Seq<char>>, sep: Seq<char>) -> Seq<char>
    decreases parts.len(),
{
    if parts.len() == 0 {
        Seq::empty()
    } else if parts.len() == 1 {
        parts[0]
    } else {
        joined(parts.drop_last(), sep) + sep + parts.last()
    }
}

/// `s` with every occurrence of `p` replaced.
pub open spec fn replaced(s: Seq<char>, p: Seq<char>, with: Seq<char>) -> Seq<char> {
    joined(pieces(s, p), with)
}

/// `s` with the first occurrence of `p` replaced.
pub open spec fn replaced_first(s: Seq<char>, p: Seq<char>, with: Seq<char>) -> Seq<char> {
    match find_from(s, p, 0) {
        Some(k) => s.take(k) + with + s.skip(k + p.len()),
        None => s,
    }
}

pub open spec fn starts_with(s: Seq<char>, p: Seq<char>) -> bool {
    occurs_at(s, p, 0)
}

pub open spec fn ends_with(s: Seq<char>, p: Seq<char>) -> bool {
    occurs_at(s, p, s.len() - p.len())
}

/// A list of strings as mathematical sequences.
pub open spec fn texts_view(v: Seq<String>) -> Seq<Seq<char>> {
    v.map_values(|s: String| s@)
}

/// Whether `p` stands in `s` at position `i`.
pub fn occurs(s: &Vec<char>, p: &Vec<char>, i: usize) -> (r: bool)
    ensures
        r == occurs_at(s@, p@, i as int),
{
    if p.len() > s.len() || i > s.len() - p.len() {
        return false;
    }
    let n: usize = s.len();
    let mut j: usize = 0;
    while j < p.len()
        invariant
            n == s@.len(),
            i + p@.len() <= n,
            j <= p@.len(),
            forall|k: int| 0 <= k < j ==> s@[i + k] == p@[k],
        decreases p.len() - j,
    {
        if s[i + j] != p[j] {
            assert(s@.subrange(i as int, i + p@.len())[j as int] != p@[j as int]);
            return false;
        }
        j = j + 1;
    }
    assert(s@.subrange(i as int, i + p@.len()) =~= p@);
    true
}

/// The first position from `from` on at which `p` stands in `s`.
pub fn find(s: &Vec<char>, p: &Vec<char>, from: usize) -> (r: Option<usize>)
    ensures
        match r {
            Some(k) => find_from(s@, p@, from as int) == Some(k as int) && from <= k && k + p@.len()
                <= s@.len(),
            None => find_from(s@, p@, from as int) is None,
        },
{
    if p.len() > s.len() {
        return None;
    }
    let last: usize = s.len() - p.len();
    let mut i: usize = from;
    while i <= last
        invariant
            last + p@.len() == s@.len(),
            from <= i,
            i <= last + 1 || i == from,
            find_from(s@, p@, i as int) == find_from(s@, p@, from as int),
        decreases last + 1 - i,
    {
        if occurs(s, p, i) {
            return Some(i);
        }
        if i == last {
            assert(find_from(s@, p@, i + 1) is None);
            return None;
        }
        i = i + 1;
    }
    None
}

/// The pieces of `s` between the occurrences of `p`.
pub fn split(s: &Vec<char>, p: &Vec<char>) -> (r: Vec<String>)
    ensures
        texts_view(r@) == pieces(s@, p@),
{
    let mut r: Vec<String> = Vec::new();
    if p.len() == 0 {
        r.push(String::new());
        assert(texts_view(r@) =~= seq![Seq::<char>::empty()]);
        let mut i: usize = 0;
        while i < s.len()
            invariant
                i <= s@.len(),
                texts_view(r@) == seq![Seq::<char>::empty()] + s@.take(i as int).map_values(
                    |c: char| seq![c],
                ),
            decreases s.len() - i,
        {
            let ghost before = texts_view(r@);
            let one: String = string_of(s, i, i + 1);
            let ghost t = one@;
            assert(t =~= seq![s@[i as int]]);
            r.push(one);
            assert(texts_view(r@) =~= before.push(t));
            assert(s@.take(i + 1).map_values(|c: char| seq![c]) =~= s@.take(i as int).map_values(
                |c: char| seq![c],
            ).push(t));
            i = i + 1;
            assert(texts_view(r@) =~= seq![Seq::<char>::empty()] + s@.take(i as int).map_values(
                |c: char| seq![c],
            ));
        }
        let ghost before = texts_view(r@);
        r.push(String::new());
        assert(s@.take(i as int) =~= s@);
        assert(texts_view(r@) =~= before.push(Seq::<char>::empty()));
        assert(texts_view(r@) =~= pieces(s@, p@));
        return r;
    }
    let n: usize = s.len();
    let mut i: usize = 0;
    assert(texts_view(r@) + split_from(s@, p@, 0) =~= pieces(s@, p@));
    loop
        invariant
            n == s@.len(),
            i <= s@.len(),
            p@.len() > 0,
            texts_view(r@) + split_from(s@, p@, i as int) == pieces(s@, p@),
        decreases s@.len() - i,
    {
        let ghost before = texts_view(r@);
        match find(s, p, i) {
            None => {
                let rest: String = string_of(s, i, s.len());
                let ghost t = rest@;
                r.push(rest);
                assert(texts_view(r@) =~= before + seq![t]);
                return r;
            },
            Some(k) => {
                let part: String = string_of(s, i, k);
                let ghost t = part@;
                r.push(part);
                assert(texts_view(r@) =~= before.push(t));
                assert(before + (seq![t] + split_from(s@, p@, k + p@.len())) =~= texts_view(r@)
                    + split_from(s@, p@, k + p@.len()));
                i = k + p.len();
            },
        }
    }
}

/// `parts` in a row, with `sep` between them.
pub fn join(parts: &Vec<String>, sep: &str) -> (r: String)
    ensures
        r@ == joined(texts_view(parts@), sep@),
{
    let mut r: String = String::new();
    let ghost all = texts_view(parts@);
    let mut i: usize = 0;
    assert(all.take(0) =~= Seq::empty());
    while i < parts.len()
        invariant
            i <= parts@.len(),
            all == texts_view(parts@),
            r@ == joined(all.take(i as int), sep@),
        decreases parts.len() - i,
    {
        let ghost before = r@;
        if i > 0 {
            r.append(sep);
        }
        r.append(parts[i].as_str());
        assert(all.take(i + 1).drop_last() =~= all.take(i as int));
        assert(all.take(i + 1).last() == parts@[i as int]@);
        assert(r@ =~= joined(all.take(i + 1), sep@));
        i = i + 1;
    }
    assert(all.take(i as int) =~= all);
    r
}

/// `s` with every occurrence of `p` replaced.
pub fn replace_all(s: &str, p: &str, with: &str) -> (r: String)
    ensures
        r@ == replaced(s@, p@, with@),
{
    let parts: Vec<String> = split(&chars_of_str(s), &chars_of_str(p));
    join(&parts, with)
}

/// `s` with the first occurrence of `p` replaced.
pub fn replace_first(s: &str, p: &str, with: &str) -> (r: String)
    ensures
        r@ == replaced_first(s@, p@, with@),
{
    let v: Vec<char> = chars_of_str(s);
    let q: Vec<char> = chars_of_str(p);
    match find(&v, &q, 0) {
        None => s.to_owned(),
        Some(k) => {
            let n: usize = v.len();
            let head: String = string_of(&v, 0, k);
            let tail: String = string_of(&v, k + q.len(), n);
            assert(v@.subrange(0, k as int) =~= s@.take(k as int));
            assert(v@.subrange(k + q@.len(), v@.len() as int) =~= s@.skip(k + p@.len()));
            crate::text::concat3(head.as_str(), with, tail.as_str())
        },
    }
}

/// Whether `p` stands somewhere in `s`.
pub fn contains(s: &str, p: &str) -> (r: bool)
    ensures
        r == (find_from(s@, p@, 0) is Some),
{
    find(&chars_of_str(s), &chars_of_str(p), 0).is_some()
}

/// Whether `s` starts with `p`.
pub fn has_prefix(s: &str, p: &str) -> (r: bool)
    ensures
        r == starts_with(s@, p@),
{
    occurs(&chars_of_str(s), &chars_of_str(p), 0)
}

/// Whether `s` ends with `p`.
pub fn has_suffix(s: &str, p: &str) -> (r: bool)
    ensures
        r == ends_with(s@, p@),
{
    let v: Vec<char> = chars_of_str(s);
    let q: Vec<char> = chars_of_str(p);
    q.len() <= v.len() && occurs(&v, &q, v.len() - q.len())
}

/// What precedes the first occurrence of `p`, or all of `s`.
pub open spec fn before_first(s: Seq<char>, p: Seq<char>) -> Seq<char> {
    match find_from(s, p, 0) {
        Some(k) => s.take(k),
        None => s,
    }
}

/// What follows the first occurrence of `p`, or all of `s`.
pub open spec fn after_first(s: Seq<char>, p: Seq<char>) -> Seq<char> {
    match find_from(s, p, 0) {
        Some(k) => s.skip(k + p.len()),
        None => s,
    }
}

pub fn text_before(s: &str, p: &str) -> (r: String)
    ensures
        r@ == before_first(s@, p@),
{
    let v: Vec<char> = chars_of_str(s);
    match find(&v, &chars_of_str(p), 0) {
        Some(k) => {
            assert(v@.subrange(0, k as int) =~= s@.take(k as int));
            string_of(&v, 0, k)
        },
        None => s.to_owned(),
    }
}

pub fn text_after(s: &str, p: &str) -> (r: String)
    ensures
        r@ == after_first(s@, p@),
{
    let v: Vec<char> = chars_of_str(s);
    let q: Vec<char> = chars_of_str(p);
    match find(&v, &q, 0) {
        Some(k) => {
            let n: usize = v.len();
            assert(v@.subrange(k + q@.len(), v@.len() as int) =~= s@.skip(k + p@.len()));
            string_of(&v, k + q.len(), n)
        },
        None => s.to_owned(),
    }
}

// ── Several delimiters ──────────────────────────────────────────────────────

/// The earliest occurrence from `i` on of one of `ds`, the shortest delimiter
/// first when several stand there: the position and the delimiter's length.
/// Empty delimiters do not count.
pub open spec fn earliest(s: Seq<char>, ds: Seq<Seq<char>>, i: int) -> Option<(int, int)>
    decreases ds.len(),
{
    if ds.len() == 0 {
        None
    } else {
        let best = earliest(s, ds.drop_last(), i);
        let d = ds.last();
        if d.len() == 0 {
            best
        } else {
            match (best, find_from(s, d, i)) {
                (b, None) => b,
                (None, Some(k)) => Some((k, d.len() as int)),
                (Some((p, n)), Some(k)) => if k < p || (k == p && d.len() < n) {
                    Some((k, d.len() as int))
                } else {
                    Some((p, n))
                },
            }
        }
    }
}

pub proof fn lemma_earliest_bounds(s: Seq<char>, ds: Seq<Seq<char>>, i: int)
    ensures
        earliest(s, ds, i) matches Some((k, n)) ==> i <= k && n > 0 && k + n <= s.len(),
    decreases ds.len(),
{
    if ds.len() > 0 {
        lemma_earliest_bounds(s, ds.drop_last(), i);
        lemma_find_bounds(s, ds.last(), i);
    }
}

/// The pieces of `s` from `i` on, between the occurrences of the delimiters.
pub open spec fn split_any(s: Seq<char>, ds: Seq<Seq<char>>, i: int) -> Seq<Seq<char>>
    decreases s.len() - i,
{
    match earliest(s, ds, i) {
        None => seq![s.subrange(i, s.len() as int)],
        Some((k, n)) => {
            proof {
                lemma_earliest_bounds(s, ds, i);
            }
            seq![s.subrange(i, k)] + split_any(s, ds, k + n)
        },
    }
}

fn earliest_of(s: &Vec<char>, ds: &Vec<String>, i: usize) -> (r: Option<(usize, usize)>)
    requires
        i <= s@.len(),
    ensures
        match r {
            Some((k, n)) => earliest(s@, texts_view(ds@), i as int) == Some((k as int, n as int))
                && i <= k && n > 0 && k + n <= s@.len(),
            None => earliest(s@, texts_view(ds@), i as int) is None,
        },
{
    let ghost all = texts_view(ds@);
    let mut best: Option<(usize, usize)> = None;
    let mut j: usize = 0;
    while j < ds.len()
        invariant
            i <= s@.len(),
            j <= ds@.len(),
            all == texts_view(ds@),
            match best {
                Some((k, n)) => earliest(s@, all.take(j as int), i as int) == Some(
                    (k as int, n as int),
                ) && i <= k && n > 0 && k + n <= s@.len(),
                None => earliest(s@, all.take(j as int), i as int) is None,
            },
        decreases ds.len() - j,
    {
        assert(all.take(j + 1).drop_last() =~= all.take(j as int));
        assert(all.take(j + 1).last() == ds@[j as int]@);
        let d: Vec<char> = chars_of_str(ds[j].as_str());
        if d.len() > 0 {
            if let Some(k) = find(s, &d, i) {
                let better: bool = match best {
                    None => true,
                    Some((p, n)) => k < p || (k == p && d.len() < n),
                };
                if better {
                    best = Some((k, d.len()));
                }
            }
        }
        j = j + 1;
    }
    assert(all.take(j as int) =~= all);
    best
}

/// The pieces of `s` between the occurrences of any of the delimiters.
pub fn split_at_any(s: &Vec<char>, ds: &Vec<String>) -> (r: Vec<String>)
    ensures
        texts_view(r@) == split_any(s@, texts_view(ds@), 0),
{
    let ghost all = texts_view(ds@);
    let mut r: Vec<String> = Vec::new();
    let n: usize = s.len();
    let mut i: usize = 0;
    assert(texts_view(r@) + split_any(s@, all, 0) =~= split_any(s@, all, 0));
    loop
        invariant
            n == s@.len(),
            i <= s@.len(),
            all == texts_view(ds@),
            texts_view(r@) + split_any(s@, all, i as int) == split_any(s@, all, 0),
        decreases s@.len() - i,
    {
        let ghost before = texts_view(r@);
        match earliest_of(s, ds, i) {
            None => {
                let rest: String = string_of(s, i, s.len());
                let ghost t = rest@;
                r.push(rest);
                assert(texts_view(r@) =~= before + seq![t]);
                return r;
            },
            Some((k, w)) => {
                let part: String = string_of(s, i, k);
                let ghost t = part@;
                r.push(part);
                assert(texts_view(r@) =~= before.push(t));
                assert(before + (seq![t] + split_any(s@, all, k + w)) =~= texts_view(r@)
                    + split_any(s@, all, k + w));
                i = k + w;
            },
        }
    }
}

// ── Laws ────────────────────────────────────────────────────────────────────

/// Splitting at a non-empty delimiter and joining with it gives the text back.
pub proof fn law_split_join(s: Seq<char>, p: Seq<char>)
    requires
        p.len() > 0,
    ensures
        joined(pieces(s, p), p) == s,
{
    lemma_split_join(s, p, 0);
    assert(s.subrange(0, s.len() as int) =~= s);
}

pub proof fn lemma_joined_front(first: Seq<char>, rest: Seq<Seq<char>>, sep: Seq<char>)
    requires
        rest.len() > 0,
    ensures
        joined(seq![first] + rest, sep) == first + sep + joined(rest, sep),
    decreases rest.len(),
{
    let all = seq![first] + rest;
    assert(all.drop_last() =~= seq![first] + rest.drop_last());
    if rest.len() == 1 {
        assert(all.drop_last() =~= seq![first]);
        assert(joined(seq![first], sep) == first);
        assert(all.last() == rest[0]);
        assert(joined(rest, sep) == rest[0]);
        assert(joined(all, sep) =~= first + sep + joined(rest, sep));
    } else {
        lemma_joined_front(first, rest.drop_last(), sep);
        assert(joined(all, sep) =~= first + sep + joined(rest, sep));
    }
}

proof fn lemma_split_join(s: Seq<char>, p: Seq<char>, i: int)
    requires
        p.len() > 0,
        0 <= i <= s.len(),
    ensures
        split_from(s, p, i).len() > 0,
        joined(split_from(s, p, i), p) == s.subrange(i, s.len() as int),
    decreases s.len() - i,
{
    lemma_find_bounds(s, p, i);
    match find_from(s, p, i) {
        None => {},
        Some(k) => {
            lemma_split_join(s, p, k + p.len());
            lemma_joined_front(s.subrange(i, k), split_from(s, p, k + p.len()), p);
            assert(s.subrange(i, k) + p + s.subrange(k + p.len(), s.len() as int) =~= s.subrange(
                i,
                s.len() as int,
            )) by {
                assert(s.subrange(k, k + p.len()) == p);
                assert forall|j: int| 0 <= j < p.len() implies p[j] == s[k + j] by {
                    assert(s.subrange(k, k + p.len())[j] == s[k + j]);
                }
            }
        },
    }
}

/// A text that contains the delimiter is what precedes its first occurrence,
/// the delimiter, and what follows.
pub proof fn law_before_and_after(s: Seq<char>, p: Seq<char>)
    requires
        find_from(s, p, 0) is Some,
    ensures
        before_first(s, p) + p + after_first(s, p) == s,
{
    lemma_find_bounds(s, p, 0);
    let k = find_from(s, p, 0)->0;
    assert forall|j: int| 0 <= j < p.len() implies p[j] == s[k + j] by {
        assert(s.subrange(k, k + p.len())[j] == s[k + j]);
    }
    assert(s.take(k) + p + s.skip(k + p.len()) =~= s);
}

} // verus!
