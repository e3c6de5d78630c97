use vstd::prelude::*;

use crate::text::{owned, str_eq};

verus! {

/// One key of a `StrMap` and the value stored under it.
pub struct StrEntry<V> {
    pub key: String,
    pub value: V,
}

/// A map from strings to values, kept as a list of entries with distinct keys.
pub struct StrMap<V> {
    entries: Vec<StrEntry<V>>,
}

/// The distinct strings of a list, as a set.
pub open spec fn string_set(s: Seq<String>) -> Set<Seq<char>> {
    Set::new(|k: Seq<char>| exists|i: int| 0 <= i < s.len() && #[trigger] s[i]@ == k)
}

/// The strings of a prefix of a list, one element longer.
pub proof fn lemma_string_set_step(s: Seq<String>, k: int)
    requires
        0 <= k < s.len(),
    ensures
        string_set(s.subrange(0, k + 1)) == string_set(s.subrange(0, k)).insert(s[k]@),
{
    let next = string_set(s.subrange(0, k)).insert(s[k]@);
    assert(s.subrange(0, k + 1)[k]@ == s[k]@);
    assert forall|x: Seq<char>| #[trigger] string_set(s.subrange(0, k)).contains(x) implies string_set(s.subrange(0, k + 1)).contains(x) by {
        let m = choose|m: int| 0 <= m < k && #[trigger] s.subrange(0, k)[m]@ == x;
        assert(s.subrange(0, k + 1)[m]@ == x);
    }
    assert forall|x: Seq<char>| #[trigger] string_set(s.subrange(0, k + 1)).contains(x) implies next.contains(x) by {
        let m = choose|m: int| 0 <= m < k + 1 && #[trigger] s.subrange(0, k + 1)[m]@ == x;
        if m < k {
            assert(s.subrange(0, k)[m]@ == x);
        }
    }
    assert(string_set(s.subrange(0, k + 1)) =~= next);
}

/// No string occurs twice in the list.
pub open spec fn distinct_strings(s: Seq<String>) -> bool {
    forall|i: int, j: int| 0 <= i < j < s.len() ==> #[trigger] s[i]@ != #[trigger] s[j]@
}

impl<V> StrMap<V> {
    /// No two entries share a key.
    pub closed spec fn wf(&self) -> bool {
        forall|i: int, j: int|
            0 <= i < j < self.entries@.len() ==> #[trigger] self.entries@[i].key@ != #[trigger] self.entries@[j].key@
    }

    closed spec fn index_of(&self, k: Seq<char>) -> int {
        choose|i: int| 0 <= i < self.entries@.len() && self.entries@[i].key@ == k
    }

    /// The entries as a map.
    pub closed spec fn view(&self) -> Map<Seq<char>, V> {
        Map::new(
            |k: Seq<char>| exists|i: int| 0 <= i < self.entries@.len() && self.entries@[i].key@ == k,
            |k: Seq<char>| self.entries@[self.index_of(k)].value,
        )
    }

    proof fn lemma_view_at(&self, i: int)
        requires
            self.wf(),
            0 <= i < self.entries@.len(),
        ensures
            self.view().contains_key(self.entries@[i].key@),
            self.view()[self.entries@[i].key@] == self.entries@[i].value,
    {
        let k = self.entries@[i].key@;
        assert(self.view().contains_key(k));
        let j = self.index_of(k);
        assert(self.entries@[j].key@ == k);
        if i < j {
            assert(self.entries@[i].key@ != self.entries@[j].key@);
        } else if j < i {
            assert(self.entries@[j].key@ != self.entries@[i].key@);
        }
    }

    /// An empty map.
    pub fn new() -> (r: StrMap<V>)
        ensures
            r.wf(),
            r.view() == Map::<Seq<char>, V>::empty(),
    {
        let r = StrMap { entries: Vec::new() };
        assert(r.view() =~= Map::<Seq<char>, V>::empty());
        r
    }

    fn position(&self, k: &str) -> (r: Option<usize>)
        requires
            self.wf(),
        ensures
            r matches Some(i) ==> i < self.entries@.len() && self.entries@[i as int].key@ == k@,
            r is None ==> !self.view().contains_key(k@),
    {
        let mut i: usize = 0;
        while i < self.entries.len()
            invariant
                i <= self.entries@.len(),
                forall|j: int| 0 <= j < i ==> #[trigger] self.entries@[j].key@ != k@,
            decreases self.entries@.len() - i,
        {
            if str_eq(self.entries[i].key.as_str(), k) {
                return Some(i);
            }
            i = i + 1;
        }
        None
    }

    /// Whether `k` has a value.
    pub fn contains(&self, k: &str) -> (r: bool)
        requires
            self.wf(),
        ensures
            r == self.view().contains_key(k@),
    {
        match self.position(k) {
            Some(i) => {
                proof {
                    self.lemma_view_at(i as int);
                }
                true
            },
            None => false,
        }
    }

    /// The value stored under `k`.
    pub fn get(&self, k: &str) -> (r: Option<&V>)
        requires
            self.wf(),
        ensures
            r matches Some(v) ==> self.view().contains_key(k@) && *v == self.view()[k@],
            r is None ==> !self.view().contains_key(k@),
    {
        match self.position(k) {
            Some(i) => {
                proof {
                    self.lemma_view_at(i as int);
                }
                Some(&self.entries[i].value)
            },
            None => None,
        }
    }

    /// Stores `v` under `k`, replacing any earlier value.
    pub fn insert(&mut self, k: &str, v: V)
        requires
            old(self).wf(),
        ensures
            final(self).wf(),
            final(self).view() == old(self).view().insert(k@, v),
    {
        let ghost before = *self;
        let ghost gv = v;
        let entry = StrEntry { key: owned(k), value: v };
        match self.position(k) {
            Some(i) => {
                self.entries.set(i, entry);
                proof {
                    assert forall|j: int| 0 <= j < self.entries@.len() && j != i implies #[trigger] self.entries@[j] == before.entries@[j] by {}
                    assert(self.view() =~= before.view().insert(k@, gv)) by {
                        assert forall|x: Seq<char>| #[trigger] self.view().contains_key(x) == before.view().insert(k@, gv).contains_key(x) by {
                            if x != k@ && before.view().contains_key(x) {
                                let j = before.index_of(x);
                                assert(self.entries@[j].key@ == x);
                            }
                            if x == k@ {
                                assert(self.entries@[i as int].key@ == x);
                            }
                            if x != k@ && self.view().contains_key(x) {
                                let j = self.index_of(x);
                                assert(before.entries@[j].key@ == x);
                            }
                        }
                        assert forall|x: Seq<char>| self.view().contains_key(x) implies #[trigger] self.view()[x] == before.view().insert(k@, gv)[x] by {
                            let j = self.index_of(x);
                            self.lemma_view_at(j);
                            if j != i {
                                before.lemma_view_at(j);
                            }
                        }
                    }
                }
            },
            None => {
                self.entries.push(entry);
                proof {
                    let n = before.entries@.len();
                    assert forall|j: int| 0 <= j < n implies #[trigger] self.entries@[j] == before.entries@[j] by {}
                    assert(self.view() =~= before.view().insert(k@, gv)) by {
                        assert forall|x: Seq<char>| #[trigger] self.view().contains_key(x) == before.view().insert(k@, gv).contains_key(x) by {
                            if x != k@ && before.view().contains_key(x) {
                                let j = before.index_of(x);
                                assert(self.entries@[j].key@ == x);
                            }
                            if x == k@ {
                                assert(self.entries@[n as int].key@ == x);
                            }
                        }
                        assert forall|x: Seq<char>| self.view().contains_key(x) implies #[trigger] self.view()[x] == before.view().insert(k@, gv)[x] by {
                            let j = self.index_of(x);
                            self.lemma_view_at(j);
                            if j != n {
                                before.lemma_view_at(j);
                            }
                        }
                    }
                }
            },
        }
    }

    /// Removes the value stored under `k`, if any, and hands it back.
    pub fn remove(&mut self, k: &str) -> (r: Option<V>)
        requires
            old(self).wf(),
        ensures
            final(self).wf(),
            final(self).view() == old(self).view().remove(k@),
            r matches Some(v) ==> old(self).view().contains_key(k@) && v == old(self).view()[k@],
            r is None ==> !old(self).view().contains_key(k@),
    {
        let ghost before = *self;
        match self.position(k) {
            Some(i) => {
                proof {
                    before.lemma_view_at(i as int);
                }
                let e = self.entries.remove(i);
                proof {
                    assert(self.view() =~= before.view().remove(k@)) by {
                        assert forall|x: Seq<char>| #[trigger] self.view().contains_key(x) == before.view().remove(k@).contains_key(x) by {
                            if self.view().contains_key(x) {
                                let j = self.index_of(x);
                                if j < i {
                                    assert(before.entries@[j].key@ == x);
                                } else {
                                    assert(before.entries@[j + 1].key@ == x);
                                }
                            }
                            if x != k@ && before.view().contains_key(x) {
                                let j = before.index_of(x);
                                if j < i {
                                    assert(self.entries@[j].key@ == x);
                                } else {
                                    assert(j != i);
                                    assert(self.entries@[j - 1].key@ == x);
                                }
                            }
                        }
                        assert forall|x: Seq<char>| self.view().contains_key(x) implies #[trigger] self.view()[x] == before.view().remove(k@)[x] by {
                            let j = self.index_of(x);
                            self.lemma_view_at(j);
                            if j < i {
                                before.lemma_view_at(j);
                            } else {
                                before.lemma_view_at(j + 1);
                            }
                        }
                    }
                }
                Some(e.value)
            },
            None => {
                assert(self.view() =~= before.view().remove(k@));
                None
            },
        }
    }

    /// Whether the map has no entries.
    pub fn is_empty(&self) -> (r: bool)
        requires
            self.wf(),
        ensures
            r == (self.view().dom() == Set::<Seq<char>>::empty()),
    {
        if self.entries.len() == 0 {
            assert(self.view().dom() =~= Set::<Seq<char>>::empty());
            true
        } else {
            proof {
                self.lemma_view_at(0);
                assert(self.view().dom().contains(self.entries@[0].key@));
            }
            false
        }
    }

    /// The keys, each once.
    pub fn keys(&self) -> (r: Vec<String>)
        requires
            self.wf(),
        ensures
            distinct_strings(r@),
            string_set(r@) == self.view().dom(),
    {
        let mut r: Vec<String> = Vec::new();
        let mut i: usize = 0;
        while i < self.entries.len()
            invariant
                self.wf(),
                i <= self.entries@.len(),
                r@.len() == i,
                forall|j: int| 0 <= j < i ==> #[trigger] r@[j]@ == self.entries@[j].key@,
            decreases self.entries@.len() - i,
        {
            r.push(owned(self.entries[i].key.as_str()));
            i = i + 1;
        }
        proof {
            assert forall|a: int, b: int| 0 <= a < b < r@.len() implies #[trigger] r@[a]@ != #[trigger] r@[b]@ by {
                assert(self.entries@[a].key@ != self.entries@[b].key@);
            }
            assert forall|x: Seq<char>| #[trigger] string_set(r@).contains(x) == self.view().dom().contains(x) by {
                if self.view().dom().contains(x) {
                    let j = self.index_of(x);
                    assert(r@[j]@ == x);
                }
            }
            assert(string_set(r@) =~= self.view().dom());
        }
        r
    }
}

/// The pairs of a list, as strings.
pub open spec fn pairs_view(s: Seq<(String, String)>) -> Seq<(Seq<char>, Seq<char>)> {
    s.map_values(|p: (String, String)| (p.0@, p.1@))
}

/// No key occurs twice among the pairs.
pub open spec fn distinct_keys(s: Seq<(Seq<char>, Seq<char>)>) -> bool {
    forall|i: int, j: int| 0 <= i < j < s.len() ==> #[trigger] s[i].0 != #[trigger] s[j].0
}

/// The pairs as a map from key to value (meant for pairs with distinct keys).
pub open spec fn pairs_map(s: Seq<(Seq<char>, Seq<char>)>) -> Map<Seq<char>, Seq<char>> {
    Map::new(
        |k: Seq<char>| exists|i: int| 0 <= i < s.len() && s[i].0 == k,
        |k: Seq<char>| s[choose|i: int| 0 <= i < s.len() && s[i].0 == k].1,
    )
}

impl StrMap<String> {
    /// The entries as (key, value) pairs, each key once.
    pub fn to_pairs(&self) -> (r: Vec<(String, String)>)
        requires
            self.wf(),
        ensures
            distinct_keys(pairs_view(r@)),
            pairs_map(pairs_view(r@)) == self.view().map_values(|v: String| v@),
    {
        let mut r: Vec<(String, String)> = Vec::new();
        let mut i: usize = 0;
        while i < self.entries.len()
            invariant
                self.wf(),
                i <= self.entries@.len(),
                r@.len() == i,
                forall|j: int| 0 <= j < i ==> (#[trigger] r@[j]).0@ == self.entries@[j].key@ && r@[j].1@ == self.entries@[j].value@,
            decreases self.entries@.len() - i,
        {
            r.push((owned(self.entries[i].key.as_str()), owned(self.entries[i].value.as_str())));
            i = i + 1;
        }
        proof {
            let pv = pairs_view(r@);
            assert forall|j: int| 0 <= j < pv.len() implies #[trigger] pv[j] == (self.entries@[j].key@, self.entries@[j].value@) by {
                assert(r@[j].0@ == self.entries@[j].key@);
            }
            assert forall|a: int, b: int| 0 <= a < b < pv.len() implies #[trigger] pv[a].0 != #[trigger] pv[b].0 by {
                assert(self.entries@[a].key@ != self.entries@[b].key@);
            }
            let target = self.view().map_values(|v: String| v@);
            assert forall|k: Seq<char>| #[trigger] pairs_map(pv).contains_key(k) == target.contains_key(k) by {
                if target.contains_key(k) {
                    let j = self.index_of(k);
                    assert(pv[j].0 == k);
                }
            }
            assert forall|k: Seq<char>| pairs_map(pv).contains_key(k) implies #[trigger] pairs_map(pv)[k] == target[k] by {
                let j = choose|j: int| 0 <= j < pv.len() && pv[j].0 == k;
                self.lemma_view_at(j);
            }
            assert(pairs_map(pv) =~= target);
        }
        r
    }
}

} // verus!
