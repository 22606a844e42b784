//! A finite map from `u64` identifiers to values.
//!
//! Entries are stored as a vector of key-value pairs with pairwise-distinct
//! keys.  The abstract view is a `Map<u64, V::V>` over the values' views; the
//! entry sequence is also exposed so callers can iterate deterministically.

use vstd::prelude::*;

verus! {

/// The map described by a sequence of key-value entries (with distinct keys
/// the entry order is irrelevant).
pub open spec fn entries_map<V: View>(s: Seq<(u64, V)>) -> Map<u64, V::V>
    decreases s.len(),
{
    if s.len() == 0 {
        Map::empty()
    } else {
        entries_map(s.drop_last()).insert(s.last().0, s.last().1@)
    }
}

/// No two entries share a key.
pub open spec fn distinct_keys<V>(s: Seq<(u64, V)>) -> bool {
    forall|i: int, j: int| 0 <= i < j < s.len() ==> s[i].0 != s[j].0
}

pub proof fn lemma_entries_map_contains<V: View>(s: Seq<(u64, V)>, k: u64)
    ensures
        entries_map(s).contains_key(k) <==> (exists|i: int| 0 <= i < s.len() && s[i].0 == k),
    decreases s.len(),
{
    if s.len() == 0 {
    } else {
        lemma_entries_map_contains(s.drop_last(), k);
        if entries_map(s).contains_key(k) {
            if s.last().0 == k {
                assert(s[s.len() - 1].0 == k);
            } else {
                let i = choose|i: int| 0 <= i < s.drop_last().len() && s.drop_last()[i].0 == k;
                assert(s[i].0 == k);
            }
        }
        if exists|i: int| 0 <= i < s.len() && s[i].0 == k {
            let i = choose|i: int| 0 <= i < s.len() && s[i].0 == k;
            if i < s.len() - 1 {
                assert(s.drop_last()[i].0 == k);
            }
        }
    }
}

pub proof fn lemma_entries_map_at<V: View>(s: Seq<(u64, V)>, i: int)
    requires
        distinct_keys(s),
        0 <= i < s.len(),
    ensures
        entries_map(s).contains_key(s[i].0),
        entries_map(s)[s[i].0] == s[i].1@,
    decreases s.len(),
{
    if i < s.len() - 1 {
        assert(distinct_keys(s.drop_last())) by {
            assert(forall|x: int, y: int|
                0 <= x < y < s.drop_last().len() ==> s.drop_last()[x] == s[x] && s.drop_last()[y]
                    == s[y]);
        }
        assert(s.drop_last()[i] == s[i]);
        lemma_entries_map_at(s.drop_last(), i);
        assert(s.last().0 != s[i].0) by {
            assert(s[s.len() - 1] == s.last());
        }
    }
}

pub proof fn lemma_entries_map_dom_len<V: View>(s: Seq<(u64, V)>)
    requires
        distinct_keys(s),
    ensures
        entries_map(s).dom().finite(),
        entries_map(s).dom().len() == s.len(),
    decreases s.len(),
{
    if s.len() == 0 {
        assert(entries_map(s).dom() =~= Set::<u64>::empty());
    } else {
        assert(distinct_keys(s.drop_last())) by {
            assert(forall|x: int, y: int|
                0 <= x < y < s.drop_last().len() ==> s.drop_last()[x] == s[x] && s.drop_last()[y]
                    == s[y]);
        }
        lemma_entries_map_dom_len(s.drop_last());
        lemma_entries_map_contains(s.drop_last(), s.last().0);
        assert(!entries_map(s.drop_last()).contains_key(s.last().0)) by {
            assert(forall|i: int|
                0 <= i < s.drop_last().len() ==> s.drop_last()[i] == s[i] && s[i].0 != s[s.len()
                    - 1].0);
            assert(s[s.len() - 1] == s.last());
        }
        assert(entries_map(s).dom() =~= entries_map(s.drop_last()).dom().insert(s.last().0));
    }
}

/// Finite map from `u64` ids to values, with deterministic entry order.
pub struct Table<V> {
    pairs: Vec<(u64, V)>,
}

impl<V: View> View for Table<V> {
    type V = Map<u64, V::V>;

    closed spec fn view(&self) -> Map<u64, V::V> {
        entries_map(self.pairs@)
    }
}

impl<V: View> Table<V> {
    /// The entries in insertion order.
    pub closed spec fn entries(&self) -> Seq<(u64, V)> {
        self.pairs@
    }

    /// Well-formed: entry keys are pairwise distinct.
    pub closed spec fn wf(&self) -> bool {
        distinct_keys(self.pairs@)
    }

    pub fn new() -> (r: Self)
        ensures
            r.wf(),
            r@ == Map::<u64, V::V>::empty(),
            r.entries() == Seq::<(u64, V)>::empty(),
    {
        Table { pairs: Vec::new() }
    }

    pub fn len(&self) -> (r: usize)
        ensures
            r == self.entries().len(),
            self.wf() ==> r == self@.dom().len(),
    {
        proof {
            if self.wf() {
                lemma_entries_map_dom_len(self.pairs@);
            }
        }
        self.pairs.len()
    }

    fn position(&self, k: u64) -> (r: Option<usize>)
        ensures
            match r {
                Some(i) => i < self.pairs@.len() && self.pairs@[i as int].0 == k,
                None => forall|i: int| 0 <= i < self.pairs@.len() ==> self.pairs@[i].0 != k,
            },
    {
        let mut i: usize = 0;
        while i < self.pairs.len()
            invariant
                0 <= i <= self.pairs@.len(),
                forall|j: int| 0 <= j < i ==> self.pairs@[j].0 != k,
            decreases self.pairs@.len() - i,
        {
            if self.pairs[i].0 == k {
                return Some(i);
            }
            i = i + 1;
        }
        None
    }

    pub fn contains_key(&self, k: u64) -> (r: bool)
        ensures
            r == self@.contains_key(k),
    {
        match self.position(k) {
            Some(i) => {
                proof {
                    lemma_entries_map_contains(self.pairs@, k);
                    assert(self.pairs@[i as int].0 == k);
                    assert(self@ == entries_map(self.pairs@));
                }
                true
            },
            None => {
                proof {
                    lemma_entries_map_contains(self.pairs@, k);
                    assert(self@ == entries_map(self.pairs@));
                }
                false
            },
        }
    }

    pub fn get(&self, k: u64) -> (r: Option<&V>)
        requires
            self.wf(),
        ensures
            match r {
                Some(v) => self@.contains_key(k) && v@ == self@[k],
                None => !self@.contains_key(k),
            },
    {
        match self.position(k) {
            Some(i) => {
                proof {
                    lemma_entries_map_at(self.pairs@, i as int);
                    assert(self@ == entries_map(self.pairs@));
                }
                Some(&self.pairs[i].1)
            },
            None => {
                proof {
                    lemma_entries_map_contains(self.pairs@, k);
                    assert(self@ == entries_map(self.pairs@));
                }
                None
            },
        }
    }

    pub fn insert(&mut self, k: u64, v: V)
        requires
            old(self).wf(),
        ensures
            final(self).wf(),
            final(self)@ == old(self)@.insert(k, v@),
    {
        proof {
            assert(old(self)@ == entries_map(old(self).pairs@));
        }
        match self.position(k) {
            Some(i) => {
                let ghost s0 = self.pairs@;
                proof {
                    lemma_entries_map_remove(s0, i as int);
                    lemma_remove_distinct(s0, i as int);
                    lemma_removed_key_absent(s0, i as int);
                }
                let _ = self.pairs.remove(i);
                let ghost s1 = self.pairs@;
                self.pairs.push((k, v));
                proof {
                    let q = self.pairs@;
                    assert(q.drop_last() =~= s1);
                    assert(q.last() == (k, v));
                    assert forall|x: int| 0 <= x < s1.len() implies #[trigger] q[x].0 != k by {
                        assert(q[x] == s1[x]);
                        assert(s1[x] == s0.remove(i as int)[x]);
                    }
                    assert forall|x: int, y: int| 0 <= x < y < q.len() implies q[x].0
                        != q[y].0 by {
                        if y < s1.len() {
                            assert(q[x] == s1[x] && q[y] == s1[y]);
                        }
                    }
                    assert(entries_map(q) == entries_map(s1).insert(k, v@));
                    assert(entries_map(s1) == entries_map(s0).remove(k)) by {
                        assert(s0[i as int].0 == k);
                    }
                    assert(entries_map(s0).remove(k).insert(k, v@) =~= entries_map(s0).insert(
                        k,
                        v@,
                    ));
                }
            },
            None => {
                let ghost s0 = self.pairs@;
                self.pairs.push((k, v));
                proof {
                    let q = self.pairs@;
                    assert(q.drop_last() =~= s0);
                    assert(q.last() == (k, v));
                    assert forall|x: int, y: int| 0 <= x < y < q.len() implies q[x].0
                        != q[y].0 by {
                        if y < s0.len() {
                            assert(q[x] == s0[x] && q[y] == s0[y]);
                        } else {
                            assert(q[x] == s0[x]);
                            assert(s0[x].0 != k);
                        }
                    }
                    assert(entries_map(q) == entries_map(s0).insert(k, v@));
                }
            },
        }
    }

    pub fn remove(&mut self, k: u64) -> (r: Option<V>)
        requires
            old(self).wf(),
        ensures
            final(self).wf(),
            final(self)@ == old(self)@.remove(k),
            match r {
                Some(v) => old(self)@.contains_key(k) && v@ == old(self)@[k],
                None => !old(self)@.contains_key(k),
            },
    {
        proof {
            assert(old(self)@ == entries_map(old(self).pairs@));
        }
        match self.position(k) {
            Some(i) => {
                let ghost s0 = self.pairs@;
                proof {
                    lemma_entries_map_at(s0, i as int);
                    lemma_entries_map_remove(s0, i as int);
                    lemma_remove_distinct(s0, i as int);
                    assert(s0[i as int].0 == k);
                }
                let (_, v) = self.pairs.remove(i);
                proof {
                    assert(entries_map(self.pairs@) == entries_map(s0).remove(k));
                }
                Some(v)
            },
            None => {
                proof {
                    lemma_entries_map_contains(self.pairs@, k);
                    assert(!entries_map(self.pairs@).contains_key(k));
                    assert(entries_map(self.pairs@).remove(k) =~= entries_map(self.pairs@));
                }
                None
            },
        }
    }

    pub fn key_at(&self, i: usize) -> (r: u64)
        requires
            i < self.entries().len(),
        ensures
            r == self.entries()[i as int].0,
    {
        self.pairs[i].0
    }

    pub fn value_at(&self, i: usize) -> (r: &V)
        requires
            i < self.entries().len(),
        ensures
            *r == self.entries()[i as int].1,
    {
        &self.pairs[i].1
    }
}

proof fn lemma_remove_distinct<V>(s: Seq<(u64, V)>, i: int)
    requires
        distinct_keys(s),
        0 <= i < s.len(),
    ensures
        distinct_keys(s.remove(i)),
{
    assert forall|x: int, y: int| 0 <= x < y < s.remove(i).len() implies s.remove(i)[x].0
        != s.remove(i)[y].0 by {
        let x0 = if x < i {
            x
        } else {
            x + 1
        };
        let y0 = if y < i {
            y
        } else {
            y + 1
        };
        assert(s.remove(i)[x] == s[x0]);
        assert(s.remove(i)[y] == s[y0]);
    }
}

proof fn lemma_removed_key_absent<V>(s: Seq<(u64, V)>, i: int)
    requires
        distinct_keys(s),
        0 <= i < s.len(),
    ensures
        forall|j: int| 0 <= j < s.remove(i).len() ==> s.remove(i)[j].0 != s[i].0,
{
    assert forall|j: int| 0 <= j < s.remove(i).len() implies s.remove(i)[j].0 != s[i].0 by {
        let j0 = if j < i {
            j
        } else {
            j + 1
        };
        assert(s.remove(i)[j] == s[j0]);
    }
}

proof fn lemma_entries_map_remove<V: View>(s: Seq<(u64, V)>, i: int)
    requires
        distinct_keys(s),
        0 <= i < s.len(),
    ensures
        entries_map(s.remove(i)) == entries_map(s).remove(s[i].0),
    decreases s.len(),
{
    if i == s.len() - 1 {
        assert(s.remove(i) =~= s.drop_last());
        lemma_entries_map_contains(s.drop_last(), s[i].0);
        assert(!entries_map(s.drop_last()).contains_key(s[i].0)) by {
            assert(forall|j: int|
                0 <= j < s.drop_last().len() ==> s.drop_last()[j] == s[j] && s[j].0 != s[i].0);
        }
        assert(entries_map(s.remove(i)) =~= entries_map(s).remove(s[i].0)) by {
            assert(s.last() == s[i]);
        }
    } else {
        assert(distinct_keys(s.drop_last())) by {
            assert(forall|x: int, y: int|
                0 <= x < y < s.drop_last().len() ==> s.drop_last()[x] == s[x] && s.drop_last()[y]
                    == s[y]);
        }
        assert(s.drop_last()[i] == s[i]);
        lemma_entries_map_remove(s.drop_last(), i);
        assert(s.remove(i).drop_last() =~= s.drop_last().remove(i));
        assert(s.remove(i).last() == s.last()) by {
            assert(s.remove(i)[s.len() - 2] == s[s.len() - 1]);
        }
        assert(s.last().0 != s[i].0) by {
            assert(s[s.len() - 1] == s.last());
        }
        assert(entries_map(s.remove(i)) =~= entries_map(s).remove(s[i].0));
    }
}

} // verus!
