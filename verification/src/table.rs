//! A small association list keyed by text.
use crate::text::same;
use vstd::prelude::*;

verus! {

/// A map from text to `T`.
#[derive(Clone)]
pub struct Table<T> {
    entries: Vec<(String, T)>,
}

/// The value of the first entry of `s` with key `k`.
pub open spec fn lookup<T: DeepView>(s: Seq<(String, T)>, k: Seq<char>) -> Option<T::V>
    decreases s.len(),
{
    if s.len() == 0 {
        None
    } else {
        match lookup(s.drop_last(), k) {
            Some(v) => Some(v),
            None => if s.last().0@ == k {
                Some(s.last().1.deep_view())
            } else {
                None
            },
        }
    }
}

proof fn lemma_lookup_hit<T: DeepView>(s: Seq<(String, T)>, i: int)
    requires
        0 <= i < s.len(),
        forall|j: int| 0 <= j < i ==> (#[trigger] s[j]).0@ != s[i].0@,
    ensures
        lookup(s, s[i].0@) == Some(s[i].1.deep_view()),
    decreases s.len(),
{
    if i == s.len() - 1 {
        lemma_lookup_miss(s.drop_last(), s[i].0@);
    } else {
        assert(s.drop_last()[i] == s[i]);
        assert forall|j: int| 0 <= j < i implies (#[trigger] s.drop_last()[j]).0@ != s[i].0@ by {
            assert(s.drop_last()[j] == s[j]);
        }
        lemma_lookup_hit(s.drop_last(), i);
    }
}

proof fn lemma_lookup_miss<T: DeepView>(s: Seq<(String, T)>, k: Seq<char>)
    requires
        forall|j: int| 0 <= j < s.len() ==> (#[trigger] s[j]).0@ != k,
    ensures
        lookup(s, k) is None,
    decreases s.len(),
{
    if s.len() > 0 {
        assert forall|j: int| 0 <= j < s.drop_last().len() implies (#[trigger] s.drop_last()[j]).0@
            != k by {
            assert(s.drop_last()[j] == s[j]);
        }
        assert(s[s.len() - 1] == s.last());
        lemma_lookup_miss(s.drop_last(), k);
    }
}

proof fn lemma_lookup_update<T: DeepView>(s: Seq<(String, T)>, i: int, e: (String, T), k: Seq<char>)
    requires
        0 <= i < s.len(),
        e.0@ == s[i].0@,
        k != e.0@,
    ensures
        lookup(s.update(i, e), k) == lookup(s, k),
    decreases s.len(),
{
    if i == s.len() - 1 {
        assert(s.update(i, e).drop_last() =~= s.drop_last());
    } else {
        assert(s.update(i, e).drop_last() =~= s.drop_last().update(i, e));
        lemma_lookup_update(s.drop_last(), i, e, k);
    }
}

proof fn lemma_lookup_remove<T: DeepView>(s: Seq<(String, T)>, i: int, k: Seq<char>)
    requires
        0 <= i < s.len(),
        k != s[i].0@,
    ensures
        lookup(s.remove(i), k) == lookup(s, k),
    decreases s.len(),
{
    if i == s.len() - 1 {
        assert(s.remove(i) =~= s.drop_last());
    } else {
        assert(s.remove(i).drop_last() =~= s.drop_last().remove(i));
        assert(s.remove(i).last() == s.last());
        assert(s.drop_last()[i] == s[i]);
        lemma_lookup_remove(s.drop_last(), i, k);
    }
}

impl<T: DeepView> View for Table<T> {
    type V = Map<Seq<char>, T::V>;

    closed spec fn view(&self) -> Map<Seq<char>, T::V> {
        Map::new(
            |k: Seq<char>| lookup(self.entries@, k) is Some,
            |k: Seq<char>| lookup(self.entries@, k)->0,
        )
    }
}

impl<T: DeepView> Table<T> {
    /// An empty table.
    pub fn new() -> (t: Self)
        ensures
            t@ == Map::<Seq<char>, T::V>::empty(),
    {
        let t = Table { entries: Vec::new() };
        assert(t@ =~= Map::<Seq<char>, T::V>::empty());
        t
    }

    /// Associate `value` with `key`.
    pub fn insert(&mut self, key: &str, value: T)
        ensures
            final(self)@ == old(self)@.insert(key@, value.deep_view()),
    {
        let ghost before = self.entries@;
        let mut i: usize = 0;
        while i < self.entries.len()
            invariant
                i <= self.entries@.len(),
                self.entries@ == before,
                before == old(self).entries@,
                forall|j: int| 0 <= j < i ==> (#[trigger] before[j]).0@ != key@,
            decreases self.entries.len() - i,
        {
            if same(self.entries[i].0.as_str(), key) {
                let ghost e = (before[i as int].0, value);
                let name: String = key.to_owned();
                self.entries.set(i, (name, value));
                let ghost after = self.entries@;
                let ghost e2 = after[i as int];
                proof {
                    assert(after =~= before.update(i as int, e2));
                    assert forall|k: Seq<char>| lookup(after, k) == (if k == key@ {
                        Some(value.deep_view())
                    } else {
                        lookup(before, k)
                    }) by {
                        if k == key@ {
                            lemma_lookup_hit(after, i as int);
                        } else {
                            lemma_lookup_update(before, i as int, e2, k);
                        }
                    }
                    assert(self@ =~= old(self)@.insert(key@, value.deep_view()));
                }
                return;
            }
            i = i + 1;
        }
        self.entries.push((key.to_owned(), value));
        proof {
            let after = self.entries@;
            assert(after.drop_last() =~= before);
            lemma_lookup_miss(before, key@);
            assert(self@ =~= old(self)@.insert(key@, value.deep_view()));
        }
    }

    /// The value associated with `key`.
    pub fn get(&self, key: &str) -> (r: Option<&T>)
        ensures
            match r {
                Some(v) => self@.contains_key(key@) && self@[key@] == v.deep_view(),
                None => !self@.contains_key(key@),
            },
    {
        let mut i: usize = 0;
        while i < self.entries.len()
            invariant
                i <= self.entries@.len(),
                forall|j: int| 0 <= j < i ==> (#[trigger] self.entries@[j]).0@ != key@,
            decreases self.entries.len() - i,
        {
            if same(self.entries[i].0.as_str(), key) {
                proof {
                    lemma_lookup_hit(self.entries@, i as int);
                }
                return Some(&self.entries[i].1);
            }
            i = i + 1;
        }
        proof {
            lemma_lookup_miss(self.entries@, key@);
        }
        None
    }

    /// Forget `key`.
    pub fn remove(&mut self, key: &str)
        ensures
            final(self)@ == old(self)@.remove(key@),
    {
        let ghost before = self.entries@;
        let mut i: usize = 0;
        while i < self.entries.len()
            invariant
                i <= self.entries@.len(),
                before == old(self).entries@,
                forall|j: int| 0 <= j < i ==> (#[trigger] self.entries@[j]).0@ != key@,
                forall|k: Seq<char>| k != key@ ==> lookup(self.entries@, k) == lookup(before, k),
            decreases self.entries.len() - i,
        {
            if same(self.entries[i].0.as_str(), key) {
                let ghost held = self.entries@;
                let _ = self.entries.remove(i);
                assert forall|k: Seq<char>| k != key@ implies lookup(self.entries@, k) == lookup(
                    before,
                    k,
                ) by {
                    lemma_lookup_remove(held, i as int, k);
                }
            } else {
                i = i + 1;
            }
        }
        proof {
            lemma_lookup_miss(self.entries@, key@);
            assert(self@ =~= old(self)@.remove(key@));
        }
    }
}

} // verus!
