//! Substitutions: finite maps from symbols to terms, in insertion order.

use vstd::prelude::*;

use crate::tir::store::{SymbolId, TermId};

verus! {

/// A substitution of terms for variables and holes.
#[derive(Debug, Clone)]
pub struct Sub {
    /// The entries, in insertion order; no symbol occurs twice.
    pub data: Vec<(SymbolId, TermId)>,
}

/// The position of the entry for `s`, if any.
pub open spec fn entry_index(d: Seq<(SymbolId, TermId)>, s: SymbolId) -> Option<int>
    decreases d.len(),
{
    if d.len() == 0 {
        None
    } else if d.last().0 == s {
        Some(d.len() - 1)
    } else {
        entry_index(d.drop_last(), s)
    }
}

pub proof fn lemma_entry_index(d: Seq<(SymbolId, TermId)>, s: SymbolId)
    ensures
        entry_index(d, s) is Some <==> (exists|i: int| 0 <= i < d.len() && d[i].0 == s),
        entry_index(d, s) matches Some(i) ==> 0 <= i < d.len() && d[i].0 == s,
    decreases d.len(),
{
    if d.len() > 0 {
        lemma_entry_index(d.drop_last(), s);
        if d.last().0 != s {
            assert forall|i: int| 0 <= i < d.len() && d[i].0 == s implies 0 <= i < d.len() - 1 && d.drop_last()[i].0 == s by {}
        }
    }
}

impl Sub {
    /// No symbol has two entries.
    pub open spec fn wf(&self) -> bool {
        forall|i: int, j: int|
            0 <= i < j < self.data@.len() ==> (#[trigger] self.data@[i]).0 != (#[trigger] self.data@[j]).0
    }

    /// Whether the substitution has an entry for `s`.
    pub open spec fn has(&self, s: SymbolId) -> bool {
        exists|i: int| 0 <= i < self.data@.len() && self.data@[i].0 == s
    }

    /// The term substituted for `s`, if any.
    pub open spec fn spec_get(&self, s: SymbolId) -> Option<TermId> {
        match entry_index(self.data@, s) {
            Some(i) => Some(self.data@[i].1),
            None => None,
        }
    }

    /// The substitution as a map.
    pub open spec fn as_map(&self) -> Map<SymbolId, TermId> {
        Map::new(|s: SymbolId| self.has(s), |s: SymbolId| self.spec_get(s).unwrap())
    }

    /// The empty substitution.
    pub fn identity() -> (r: Self)
        ensures
            r.wf(),
            r.data@.len() == 0,
    {
        Sub { data: Vec::new() }
    }

    /// The term substituted for `s`, if any.
    pub fn get_sub_for(&self, s: SymbolId) -> (r: Option<TermId>)
        ensures
            r == self.spec_get(s),
            r is Some <==> self.has(s),
    {
        proof {
            lemma_entry_index(self.data@, s);
        }
        let mut i: usize = self.data.len();
        assert(self.data@.take(i as int) =~= self.data@);
        while i > 0
            invariant
                i <= self.data@.len(),
                entry_index(self.data@, s) == entry_index(self.data@.take(i as int), s),
            decreases i,
        {
            assert(self.data@.take(i as int).drop_last() =~= self.data@.take(i - 1));
            if self.data[i - 1].0 == s {
                assert(self.data@.take(i as int).last() == self.data@[i - 1]);
                return Some(self.data[i - 1].1);
            }
            i = i - 1;
        }
        None
    }

    /// The term substituted for a variable or hole `s`, if any.
    pub fn get_sub_for_var_or_hole(&self, s: SymbolId) -> (r: Option<TermId>)
        ensures
            r == self.spec_get(s),
    {
        self.get_sub_for(s)
    }

    /// The position of the entry for `s`, if any.
    pub fn index_of(&self, s: SymbolId) -> (r: Option<usize>)
        requires
            self.wf(),
        ensures
            r is Some <==> self.has(s),
            r matches Some(i) ==> i < self.data@.len() && self.data@[i as int].0 == s,
    {
        let mut i: usize = 0;
        while i < self.data.len()
            invariant
                i <= self.data@.len(),
                forall|j: int| 0 <= j < i ==> self.data@[j].0 != s,
            decreases self.data@.len() - i,
        {
            if self.data[i].0 == s {
                return Some(i);
            }
            i = i + 1;
        }
        None
    }

    /// Substitute `value` for `s`: an existing entry keeps its place and
    /// takes the new value; otherwise the entry is added last.
    pub fn insert(&mut self, s: SymbolId, value: TermId)
        requires
            old(self).wf(),
        ensures
            final(self).wf(),
            old(self).has(s) ==> exists|i: int|
                0 <= i < old(self).data@.len() && old(self).data@[i].0 == s
                    && final(self).data@ == old(self).data@.update(i, (s, value)),
            !old(self).has(s) ==> final(self).data@ == old(self).data@.push((s, value)),
            final(self).as_map() == old(self).as_map().insert(s, value),
    {
        match self.index_of(s) {
            Some(i) => {
                self.data.set(i, (s, value));
                proof {
                    assert forall|k: SymbolId| self.has(k) == old(self).as_map().insert(s, value).dom().contains(k) by {
                        if k == s {
                            assert(self.data@[i as int].0 == s);
                        } else {
                            if old(self).has(k) {
                                let j = choose|j: int| 0 <= j < old(self).data@.len() && old(self).data@[j].0 == k;
                                assert(self.data@[j].0 == k);
                            }
                            if self.has(k) {
                                let j = choose|j: int| 0 <= j < self.data@.len() && self.data@[j].0 == k;
                                assert(j != i);
                                assert(old(self).data@[j].0 == k);
                            }
                        }
                    }
                    self.lemma_unique_get();
                    old(self).lemma_unique_get();
                }
                assert(self.as_map() =~= old(self).as_map().insert(s, value));
            },
            None => {
                self.data.push((s, value));
                proof {
                    assert forall|k: SymbolId| self.has(k) == old(self).as_map().insert(s, value).dom().contains(k) by {
                        if k == s {
                            assert(self.data@[self.data@.len() - 1].0 == s);
                        } else {
                            if old(self).has(k) {
                                let j = choose|j: int| 0 <= j < old(self).data@.len() && old(self).data@[j].0 == k;
                                assert(self.data@[j].0 == k);
                            }
                            if self.has(k) {
                                let j = choose|j: int| 0 <= j < self.data@.len() && self.data@[j].0 == k;
                                assert(j < old(self).data@.len());
                                assert(old(self).data@[j].0 == k);
                            }
                        }
                    }
                    self.lemma_unique_get();
                    old(self).lemma_unique_get();
                }
                assert(self.as_map() =~= old(self).as_map().insert(s, value));
            },
        }
    }

    /// With distinct symbols, the entry of `s` is its only one.
    pub proof fn lemma_unique_get(&self)
        requires
            self.wf(),
        ensures
            forall|i: int|
                0 <= i < self.data@.len() ==> self.spec_get(#[trigger] self.data@[i].0) == Some(self.data@[i].1),
            forall|s: SymbolId| !self.has(s) ==> self.spec_get(s) is None,
    {
        assert forall|i: int| 0 <= i < self.data@.len() implies self.spec_get(#[trigger] self.data@[i].0) == Some(
            self.data@[i].1,
        ) by {
            let s = self.data@[i].0;
            lemma_entry_index(self.data@, s);
            let j = entry_index(self.data@, s).unwrap();
            if j != i {
                if j < i {
                    assert(self.data@[j].0 != self.data@[i].0);
                } else {
                    assert(self.data@[i].0 != self.data@[j].0);
                }
            }
        }
        assert forall|s: SymbolId| !self.has(s) implies self.spec_get(s) is None by {
            lemma_entry_index(self.data@, s);
        }
    }

    /// Remove the entry for `s`, if any; the others keep their order.
    pub fn remove(&mut self, s: SymbolId)
        requires
            old(self).wf(),
        ensures
            final(self).wf(),
            final(self).as_map() == old(self).as_map().remove(s),
            old(self).has(s) ==> exists|i: int|
                0 <= i < old(self).data@.len() && old(self).data@[i].0 == s
                    && final(self).data@ == old(self).data@.remove(i),
            !old(self).has(s) ==> final(self).data@ == old(self).data@,
    {
        match self.index_of(s) {
            Some(i) => {
                let ghost d = self.data@;
                self.data.remove(i);
                proof {
                    assert(self.data@ == d.remove(i as int));
                    assert forall|a: int, b: int| 0 <= a < b < self.data@.len() implies (#[trigger] self.data@[a]).0 != (#[trigger] self.data@[b]).0 by {
                        let a2 = if a < i { a } else { a + 1 };
                        let b2 = if b < i { b } else { b + 1 };
                        assert(self.data@[a] == d[a2]);
                        assert(self.data@[b] == d[b2]);
                    }
                    assert forall|k: SymbolId| self.has(k) == old(self).as_map().remove(s).dom().contains(k) by {
                        if self.has(k) {
                            let j = choose|j: int| 0 <= j < self.data@.len() && self.data@[j].0 == k;
                            let j2 = if j < i { j } else { j + 1 };
                            assert(d[j2].0 == k);
                            assert(k != s);
                        } else if old(self).has(k) && k != s {
                            let j = choose|j: int| 0 <= j < d.len() && d[j].0 == k;
                            assert(j != i);
                            let j2 = if j < i { j } else { j - 1 };
                            assert(self.data@[j2].0 == k);
                        }
                    }
                    self.lemma_unique_get();
                    old(self).lemma_unique_get();
                    assert forall|k: SymbolId| #[trigger] self.has(k) implies self.spec_get(k) == old(self).spec_get(k) by {
                        let j = choose|j: int| 0 <= j < self.data@.len() && self.data@[j].0 == k;
                        let j2 = if j < i { j } else { j + 1 };
                        assert(self.data@[j] == d[j2]);
                    }
                }
                assert(self.as_map() =~= old(self).as_map().remove(s));
            },
            None => {
                proof {
                    old(self).lemma_unique_get();
                }
                assert(self.as_map() =~= old(self).as_map().remove(s));
            },
        }
    }

    /// The entries, in insertion order.
    pub fn iter(&self) -> (r: Vec<(SymbolId, TermId)>)
        ensures
            r@ == self.data@,
    {
        let mut out: Vec<(SymbolId, TermId)> = Vec::new();
        let mut i: usize = 0;
        while i < self.data.len()
            invariant
                i <= self.data@.len(),
                out@ == self.data@.take(i as int),
            decreases self.data@.len() - i,
        {
            out.push(self.data[i]);
            assert(self.data@.take(i + 1) =~= self.data@.take(i as int).push(self.data@[i as int]));
            i = i + 1;
        }
        assert(self.data@.take(i as int) =~= self.data@);
        out
    }

    /// A copy of the substitution.
    pub fn duplicate(&self) -> (r: Self)
        ensures
            r.data@ == self.data@,
    {
        Sub { data: self.iter() }
    }
}

} // verus!
