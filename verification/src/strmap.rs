//! String-keyed association map used by the per-feed indices and the
//! snapshot: a vector of pairs with pairwise-distinct keys. Feed data is
//! small and rebuilt wholesale on refresh, so linear lookup keeps the
//! structure simple enough to carry the index invariants.

use vstd::prelude::*;

verus! {

pub struct StrMap<V> {
    pub pairs: Vec<(String, V)>,
}

impl<V> StrMap<V> {
    /// Well-formed: keys are pairwise distinct, so every key determines
    /// at most one entry.
    pub open spec fn wf(self) -> bool {
        forall|i: int, j: int|
            0 <= i < j < self.pairs.len() ==> self.pairs[i].0@ != self.pairs[j].0@
    }

    pub open spec fn contains_key(self, k: Seq<char>) -> bool {
        exists|i: int| 0 <= i < self.pairs.len() && self.pairs[i].0@ == k
    }

    /// The value bound to `k`; under `wf` the witness is unique.
    pub open spec fn spec_get(self, k: Seq<char>) -> V
        recommends
            self.contains_key(k),
    {
        self.pairs@[choose|i: int| 0 <= i < self.pairs.len() && self.pairs[i].0@ == k].1
    }

    pub open spec fn spec_len(self) -> nat {
        self.pairs@.len()
    }

    pub fn new() -> (r: Self)
        ensures
            r.pairs@ == Seq::<(String, V)>::empty(),
            r.wf(),
            forall|k: Seq<char>| !r.contains_key(k),
    {
        let r = StrMap { pairs: Vec::new() };
        assert(forall|k: Seq<char>| !r.contains_key(k));
        r
    }

    pub fn len(&self) -> (n: usize)
        ensures
            n == self.spec_len(),
    {
        self.pairs.len()
    }

    /// Index of the entry for `k`, if any.
    pub(crate) fn find(&self, k: &String) -> (r: Option<usize>)
        ensures
            match r {
                Some(i) => i < self.pairs.len() && self.pairs@[i as int].0@ == k@,
                None => !self.contains_key(k@),
            },
    {
        let mut i: usize = 0;
        while i < self.pairs.len()
            invariant
                i <= self.pairs.len(),
                forall|j: int| 0 <= j < i ==> self.pairs@[j].0@ != k@,
            decreases self.pairs.len() - i,
        {
            if self.pairs[i].0 == *k {
                return Some(i);
            }
            i = i + 1;
        }
        None
    }

    pub fn get(&self, k: &String) -> (r: Option<&V>)
        requires
            self.wf(),
        ensures
            match r {
                Some(v) => self.contains_key(k@) && *v == self.spec_get(k@),
                None => !self.contains_key(k@),
            },
    {
        match self.find(k) {
            Some(i) => {
                proof {
                    let w = choose|j: int| 0 <= j < self.pairs.len() && self.pairs[j].0@ == k@;
                    assert(self.pairs[i as int].0@ == k@);
                    assert(w == i as int);
                }
                Some(&self.pairs[i].1)
            }
            None => None,
        }
    }

    pub fn contains(&self, k: &String) -> (r: bool)
        ensures
            r == self.contains_key(k@),
    {
        match self.find(k) {
            Some(_) => true,
            None => false,
        }
    }

    /// Inserts `(k, v)` if no entry for `k` exists; an existing entry wins
    /// and the map is left unchanged.
    pub fn insert_if_absent(&mut self, k: String, v: V)
        requires
            old(self).wf(),
        ensures
            final(self).wf(),
            old(self).contains_key(k@) ==> *final(self) == *old(self),
            !old(self).contains_key(k@) ==> final(self).pairs@ == old(self).pairs@.push((k, v)),
            final(self).contains_key(k@),
            !old(self).contains_key(k@) ==> final(self).spec_get(k@) == v,
            forall|k2: Seq<char>|
                k2 != k@ ==> (final(self).contains_key(k2) <==> old(self).contains_key(k2)),
            forall|k2: Seq<char>|
                k2 != k@ && old(self).contains_key(k2) ==> final(self).spec_get(k2) == old(self).spec_get(k2),
    {
        match self.find(&k) {
            Some(_) => {},
            None => {
                let ghost old_pairs = self.pairs@;
                self.pairs.push((k, v));
                proof {
                    let n = old_pairs.len() as int;
                    assert(self.pairs@ == old_pairs.push((k, v)));
                    assert(self.pairs[n].0@ == k@);
                    assert forall|k2: Seq<char>| k2 != k@ implies (self.contains_key(k2)
                        <==> old(self).contains_key(k2)) by {
                        if self.contains_key(k2) {
                            let i = choose|i: int|
                                0 <= i < self.pairs.len() && self.pairs[i].0@ == k2;
                            assert(i < n);
                            assert(old_pairs[i].0@ == k2);
                        }
                        if old(self).contains_key(k2) {
                            let i = choose|i: int|
                                0 <= i < old_pairs.len() && old_pairs[i].0@ == k2;
                            assert(self.pairs[i].0@ == k2);
                        }
                    }
                    assert forall|k2: Seq<char>|
                        k2 != k@ && old(self).contains_key(k2) implies self.spec_get(k2) == old(self).spec_get(k2) by {
                        let i = choose|i: int|
                            0 <= i < self.pairs.len() && self.pairs[i].0@ == k2;
                        let j = choose|j: int|
                            0 <= j < old_pairs.len() && old_pairs[j].0@ == k2;
                        assert(i < n);
                        assert(old_pairs[i].0@ == k2);
                        assert(i == j);
                    }
                    assert(self.spec_get(k@) == v) by {
                        let i = choose|i: int|
                            0 <= i < self.pairs.len() && self.pairs[i].0@ == k@;
                        assert(self.pairs[n].0@ == k@);
                        assert(i == n);
                    }
                }
            }
        }
    }

    /// Replaces the value bound to `k`; the key set is unchanged.
    pub fn replace_at(&mut self, i: usize, v: V)
        requires
            old(self).wf(),
            i < old(self).pairs.len(),
        ensures
            final(self).wf(),
            final(self).pairs@ == old(self).pairs@.update(
                i as int,
                (old(self).pairs@[i as int].0, v),
            ),
            forall|k2: Seq<char>|
                final(self).contains_key(k2) <==> old(self).contains_key(k2),
            final(self).spec_get(old(self).pairs@[i as int].0@) == v,
            forall|k2: Seq<char>|
                k2 != old(self).pairs@[i as int].0@ && old(self).contains_key(k2) ==> final(self).spec_get(k2) == old(self).spec_get(k2),
    {
        let ghost old_pairs = self.pairs@;
        let ghost key = self.pairs@[i as int].0;
        let k = self.pairs[i].0.clone();
        self.pairs.set(i, (k, v));
        proof {
            assert(self.pairs@[i as int].0@ == key@);
            assert forall|j: int| 0 <= j < self.pairs.len() implies self.pairs[j].0@
                == old_pairs[j].0@ by {}
            assert forall|k2: Seq<char>| self.contains_key(k2) <==> old(self).contains_key(k2) by {
                if self.contains_key(k2) {
                    let a = choose|a: int| 0 <= a < self.pairs.len() && self.pairs[a].0@ == k2;
                    assert(old_pairs[a].0@ == k2);
                }
                if old(self).contains_key(k2) {
                    let a = choose|a: int| 0 <= a < old_pairs.len() && old_pairs[a].0@ == k2;
                    assert(self.pairs[a].0@ == k2);
                }
            }
            assert(self.spec_get(key@) == v) by {
                let a = choose|a: int| 0 <= a < self.pairs.len() && self.pairs[a].0@ == key@;
                assert(self.pairs[i as int].0@ == key@);
                if a != i {
                    assert(old_pairs[a].0@ == old_pairs[i as int].0@);
                    assert(false);
                }
            }
            assert forall|k2: Seq<char>|
                k2 != key@ && old(self).contains_key(k2) implies self.spec_get(k2) == old(self).spec_get(k2) by {
                let a = choose|a: int| 0 <= a < self.pairs.len() && self.pairs[a].0@ == k2;
                let b = choose|b: int| 0 <= b < old_pairs.len() && old_pairs[b].0@ == k2;
                assert(old_pairs[a].0@ == k2);
                assert(a == b);
                assert(a != i);
            }
        }
    }
}

/// Whether some element of `v` equals `s` as a string.
pub(crate) fn contains_string(v: &Vec<String>, s: &String) -> (r: bool)
    ensures
        r == exists|a: int| 0 <= a < v@.len() && (#[trigger] v@[a])@ == s@,
{
    let mut i: usize = 0;
    while i < v.len()
        invariant
            i <= v@.len(),
            forall|a: int| 0 <= a < i ==> (#[trigger] v@[a])@ != s@,
        decreases v@.len() - i,
    {
        if v[i] == *s {
            return true;
        }
        i = i + 1;
    }
    false
}

} // verus!
