//! Values stored by string key, each key at most once.

use vstd::prelude::*;
use crate::text::str_eq;

verus! {

/// Whether the keys of `s` are pairwise different.
pub open spec fn distinct_keys<V>(s: Seq<(String, V)>) -> bool {
    forall|i: int, j: int| 0 <= i < j < s.len() ==> s[i].0@ != s[j].0@
}

/// The map from key to value that the pairs of `s` make.
pub open spec fn pairs_map<V>(s: Seq<(String, V)>) -> Map<Seq<char>, V> {
    Map::new(
        |k: Seq<char>| exists|i: int| 0 <= i < s.len() && s[i].0@ == k,
        |k: Seq<char>| s[choose|i: int| 0 <= i < s.len() && s[i].0@ == k].1,
    )
}

/// With distinct keys, each pair is the map's entry for its key.
proof fn lemma_pairs_map_at<V>(s: Seq<(String, V)>, i: int)
    requires
        distinct_keys(s),
        0 <= i < s.len(),
    ensures
        pairs_map(s).dom().contains(s[i].0@),
        pairs_map(s)[s[i].0@] == s[i].1,
{
    let k = s[i].0@;
    assert(s[i].0@ == k);
    let j = choose|j: int| 0 <= j < s.len() && s[j].0@ == k;
    if j < i {
        assert(s[j].0@ != s[i].0@);
    } else if i < j {
        assert(s[i].0@ != s[j].0@);
    }
}

/// A map whose keys are those of `s`, each with the value paired with it, is the
/// map that `s` makes.
proof fn lemma_pairs_map_ext<V>(s: Seq<(String, V)>, m: Map<Seq<char>, V>)
    requires
        distinct_keys(s),
        forall|k: Seq<char>| #[trigger] m.dom().contains(k) <==> exists|i: int| 0 <= i < s.len() && s[i].0@ == k,
        forall|i: int| 0 <= i < s.len() ==> #[trigger] m.dom().contains(s[i].0@) && m[s[i].0@] == s[i].1,
    ensures
        pairs_map(s) == m,
{
    assert forall|k: Seq<char>| #[trigger] pairs_map(s).dom().contains(k) implies pairs_map(s)[k] == m[k] by {
        let i = choose|i: int| 0 <= i < s.len() && s[i].0@ == k;
        lemma_pairs_map_at(s, i);
        assert(m.dom().contains(s[i].0@));
    }
    assert(pairs_map(s) =~= m);
}

/// With distinct keys the map holds one key per pair.
proof fn lemma_pairs_map_len<V>(s: Seq<(String, V)>)
    requires
        distinct_keys(s),
    ensures
        pairs_map(s).dom().finite(),
        pairs_map(s).len() == s.len(),
    decreases s.len(),
{
    if s.len() == 0 {
        assert(pairs_map(s).dom() =~= Set::<Seq<char>>::empty());
    } else {
        let p = s.drop_last();
        let last = s[s.len() - 1];
        assert(distinct_keys(p));
        lemma_pairs_map_len(p);
        let m = pairs_map(p).insert(last.0@, last.1);
        assert forall|k: Seq<char>| #[trigger] m.dom().contains(k) <==> exists|i: int| 0 <= i < s.len() && s[i].0@ == k by {
            if m.dom().contains(k) && k != last.0@ {
                let i = choose|i: int| 0 <= i < p.len() && p[i].0@ == k;
                assert(s[i] == p[i]);
            }
            if exists|i: int| 0 <= i < s.len() && s[i].0@ == k {
                let i = choose|i: int| 0 <= i < s.len() && s[i].0@ == k;
                if i < s.len() - 1 {
                    assert(p[i] == s[i]);
                    assert(p[i].0@ == k);
                }
            }
        }
        assert forall|i: int| 0 <= i < s.len() implies #[trigger] m.dom().contains(s[i].0@) && m[s[i].0@] == s[i].1 by {
            if i < s.len() - 1 {
                assert(p[i] == s[i]);
                assert(s[i].0@ != last.0@);
                lemma_pairs_map_at(p, i);
            }
        }
        lemma_pairs_map_ext(s, m);
        assert(!pairs_map(p).dom().contains(last.0@)) by {
            if pairs_map(p).dom().contains(last.0@) {
                let i = choose|i: int| 0 <= i < p.len() && p[i].0@ == last.0@;
                assert(s[i] == p[i]);
            }
        }
    }
}

/// Values by string key, each key at most once, kept in the order of first insertion.
#[derive(Debug)]
pub struct Keyed<V> {
    entries: Vec<(String, V)>,
}

impl<V> Keyed<V> {
    /// The stored values, by key.
    pub closed spec fn map(self) -> Map<Seq<char>, V> {
        pairs_map(self.entries@)
    }

    /// Each key occurs once.
    pub closed spec fn wf(self) -> bool {
        distinct_keys(self.entries@)
    }

    /// An empty store.
    pub fn new() -> (r: Keyed<V>)
        ensures
            r.wf(),
            r.map() == Map::<Seq<char>, V>::empty(),
    {
        let r = Keyed { entries: Vec::new() };
        proof {
            assert(pairs_map(r.entries@) =~= Map::<Seq<char>, V>::empty());
        }
        r
    }

    fn find(&self, key: &str) -> (r: Option<usize>)
        ensures
            match r {
                Some(i) => i < self.entries@.len() && self.entries@[i as int].0@ == key@,
                None => forall|i: int| 0 <= i < self.entries@.len() ==> self.entries@[i].0@ != key@,
            },
    {
        let mut i: usize = 0;
        while i < self.entries.len()
            invariant
                i <= self.entries.len(),
                forall|j: int| 0 <= j < i ==> self.entries@[j].0@ != key@,
            decreases self.entries.len() - i,
        {
            if str_eq(self.entries[i].0.as_str(), key) {
                return Some(i);
            }
            i = i + 1;
        }
        None
    }

    /// The value stored under `key`, if any.
    pub fn get(&self, key: &str) -> (r: Option<&V>)
        requires
            self.wf(),
        ensures
            match r {
                Some(v) => self.map().dom().contains(key@) && *v == self.map()[key@],
                None => !self.map().dom().contains(key@),
            },
    {
        match self.find(key) {
            Some(i) => {
                proof {
                    lemma_pairs_map_at(self.entries@, i as int);
                }
                Some(&self.entries[i].1)
            },
            None => None,
        }
    }

    /// Stores `value` under `key`, replacing what was stored there.
    pub fn insert(&mut self, key: String, value: V)
        requires
            old(self).wf(),
        ensures
            final(self).wf(),
            final(self).map() == old(self).map().insert(key@, value),
    {
        let ghost s0 = self.entries@;
        let ghost k = key@;
        let ghost m = pairs_map(s0).insert(k, value);
        match self.find(key.as_str()) {
            Some(i) => {
                self.entries.set(i, (key, value));
                proof {
                    let s1 = self.entries@;
                    assert(s1 =~= s0.update(i as int, (s1[i as int].0, value)));
                    assert forall|k2: Seq<char>| #[trigger] m.dom().contains(k2) <==> exists|j: int| 0 <= j < s1.len() && s1[j].0@ == k2 by {
                        if m.dom().contains(k2) {
                            if k2 == k {
                                assert(s1[i as int].0@ == k2);
                            } else {
                                let j = choose|j: int| 0 <= j < s0.len() && s0[j].0@ == k2;
                                assert(s1[j] == s0[j]);
                            }
                        }
                        if exists|j: int| 0 <= j < s1.len() && s1[j].0@ == k2 {
                            let j = choose|j: int| 0 <= j < s1.len() && s1[j].0@ == k2;
                            if j != i {
                                assert(s1[j] == s0[j]);
                                assert(s0[j].0@ == k2);
                            }
                        }
                    }
                    assert forall|j: int| 0 <= j < s1.len() implies #[trigger] m.dom().contains(s1[j].0@) && m[s1[j].0@] == s1[j].1 by {
                        if j != i {
                            assert(s1[j] == s0[j]);
                            assert(s0[j].0@ != s0[i as int].0@);
                            lemma_pairs_map_at(s0, j);
                        }
                    }
                    lemma_pairs_map_ext(s1, m);
                }
            },
            None => {
                self.entries.push((key, value));
                proof {
                    let s1 = self.entries@;
                    assert(s1 =~= s0.push(s1[s0.len() as int]));
                    assert forall|k2: Seq<char>| #[trigger] m.dom().contains(k2) <==> exists|j: int| 0 <= j < s1.len() && s1[j].0@ == k2 by {
                        if m.dom().contains(k2) {
                            if k2 == k {
                                assert(s1[s0.len() as int].0@ == k2);
                            } else {
                                let j = choose|j: int| 0 <= j < s0.len() && s0[j].0@ == k2;
                                assert(s1[j] == s0[j]);
                            }
                        }
                        if exists|j: int| 0 <= j < s1.len() && s1[j].0@ == k2 {
                            let j = choose|j: int| 0 <= j < s1.len() && s1[j].0@ == k2;
                            if j < s0.len() {
                                assert(s1[j] == s0[j]);
                                assert(s0[j].0@ == k2);
                            }
                        }
                    }
                    assert forall|j: int| 0 <= j < s1.len() implies #[trigger] m.dom().contains(s1[j].0@) && m[s1[j].0@] == s1[j].1 by {
                        if j < s0.len() {
                            assert(s1[j] == s0[j]);
                            lemma_pairs_map_at(s0, j);
                        }
                    }
                    lemma_pairs_map_ext(s1, m);
                }
            },
        }
    }

    /// Removes what is stored under `key`, if anything.
    pub fn remove(&mut self, key: &str)
        requires
            old(self).wf(),
        ensures
            final(self).wf(),
            final(self).map() == old(self).map().remove(key@),
    {
        let ghost s0 = self.entries@;
        let ghost m = pairs_map(s0).remove(key@);
        match self.find(key) {
            Some(i) => {
                let _ = self.entries.remove(i);
                proof {
                    let s1 = self.entries@;
                    assert(s1 =~= s0.remove(i as int));
                    assert forall|a: int, b: int| 0 <= a < b < s1.len() implies s1[a].0@ != s1[b].0@ by {
                        let a0 = if a < i { a } else { a + 1 };
                        let b0 = if b < i { b } else { b + 1 };
                        assert(s1[a] == s0[a0]);
                        assert(s1[b] == s0[b0]);
                    }
                    assert forall|k2: Seq<char>| #[trigger] m.dom().contains(k2) <==> exists|j: int| 0 <= j < s1.len() && s1[j].0@ == k2 by {
                        if m.dom().contains(k2) {
                            let j = choose|j: int| 0 <= j < s0.len() && s0[j].0@ == k2;
                            assert(j != i);
                            if j < i {
                                assert(s1[j] == s0[j]);
                            } else {
                                assert(s1[j - 1] == s0[j]);
                            }
                        }
                        if exists|j: int| 0 <= j < s1.len() && s1[j].0@ == k2 {
                            let j = choose|j: int| 0 <= j < s1.len() && s1[j].0@ == k2;
                            let j0 = if j < i { j } else { j + 1 };
                            assert(s1[j] == s0[j0]);
                            assert(s0[j0].0@ != s0[i as int].0@);
                        }
                    }
                    assert forall|j: int| 0 <= j < s1.len() implies #[trigger] m.dom().contains(s1[j].0@) && m[s1[j].0@] == s1[j].1 by {
                        let j0 = if j < i { j } else { j + 1 };
                        assert(s1[j] == s0[j0]);
                        assert(s0[j0].0@ != s0[i as int].0@);
                        lemma_pairs_map_at(s0, j0);
                    }
                    lemma_pairs_map_ext(s1, m);
                }
            },
            None => {
                proof {
                    assert(pairs_map(s0).remove(key@) =~= pairs_map(s0));
                }
            },
        }
    }

    /// Removes everything.
    pub fn clear(&mut self)
        ensures
            final(self).wf(),
            final(self).map() == Map::<Seq<char>, V>::empty(),
    {
        self.entries.clear();
        proof {
            assert(pairs_map(self.entries@) =~= Map::<Seq<char>, V>::empty());
        }
    }

    /// The number of keys.
    pub fn len(&self) -> (r: usize)
        requires
            self.wf(),
        ensures
            self.map().dom().finite(),
            r == self.map().len(),
    {
        proof {
            lemma_pairs_map_len(self.entries@);
        }
        self.entries.len()
    }
}

} // verus!
