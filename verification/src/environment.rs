//! The environment a command is started with: which variables of the
//! parent it keeps, which it drops, and which it sets.

use vstd::prelude::*;
use crate::bytes::{bytes_eq, copy_bytes};
use crate::pathset::PathSet;

verus! {

/// A set of environment variables, each name held once.
pub struct EnvVars {
    vars: Vec<(Vec<u8>, Vec<u8>)>,
}

/// The map given by a list of variables, a later entry for a name
/// replacing an earlier one.
pub open spec fn env_map(vars: Seq<(Vec<u8>, Vec<u8>)>) -> Map<Seq<u8>, Seq<u8>>
    decreases vars.len(),
{
    if vars.len() == 0 {
        Map::empty()
    } else {
        env_map(vars.drop_last()).insert(vars.last().0@, vars.last().1@)
    }
}

impl EnvVars {
    spec fn distinct(&self) -> bool {
        forall|i: int, j: int| 0 <= i < j < self.vars@.len() ==> #[trigger] self.vars@[i].0@ != #[trigger] self.vars@[j].0@
    }

    /// Each name is held once.
    pub closed spec fn wf(&self) -> bool {
        self.distinct()
    }

    /// The variables, by name.
    pub closed spec fn view(&self) -> Map<Seq<u8>, Seq<u8>> {
        Map::new(
            |k: Seq<u8>| exists|i: int| 0 <= i < self.vars@.len() && #[trigger] self.vars@[i].0@ == k,
            |k: Seq<u8>| self.vars@[choose|i: int| 0 <= i < self.vars@.len() && #[trigger] self.vars@[i].0@ == k].1@,
        )
    }

    /// No variables.
    pub fn new() -> (e: EnvVars)
        ensures
            e.wf(),
            e@ == Map::<Seq<u8>, Seq<u8>>::empty(),
    {
        let e = EnvVars { vars: Vec::new() };
        assert(e@ =~= Map::<Seq<u8>, Seq<u8>>::empty());
        e
    }

    fn index_of(&self, k: &[u8]) -> (r: Option<usize>)
        requires
            self.wf(),
        ensures
            match r {
                Some(i) => i < self.vars@.len() && self.vars@[i as int].0@ == k@,
                None => !self@.dom().contains(k@),
            },
    {
        let mut i: usize = 0;
        while i < self.vars.len()
            invariant
                i <= self.vars@.len(),
                forall|j: int| 0 <= j < i ==> self.vars@[j].0@ != k@,
            decreases self.vars@.len() - i,
        {
            if bytes_eq(self.vars[i].0.as_slice(), k) {
                return Some(i);
            }
            i = i + 1;
        }
        None
    }

    proof fn lemma_value_at(&self, i: int)
        requires
            self.wf(),
            0 <= i < self.vars@.len(),
        ensures
            self@.dom().contains(self.vars@[i].0@),
            self@[self.vars@[i].0@] == self.vars@[i].1@,
    {
        let k = self.vars@[i].0@;
        assert(self.vars@[i].0@ == k);
        let c = choose|j: int| 0 <= j < self.vars@.len() && #[trigger] self.vars@[j].0@ == k;
        if c != i {
            if c < i {
                assert(self.vars@[c].0@ != self.vars@[i].0@);
            } else {
                assert(self.vars@[i].0@ != self.vars@[c].0@);
            }
        }
    }

    /// Sets `k` to `v`.
    pub fn insert(&mut self, k: &[u8], v: &[u8])
        requires
            old(self).wf(),
        ensures
            final(self).wf(),
            final(self)@ == old(self)@.insert(k@, v@),
    {
        let ghost old_vars = self.vars@;
        let kk = copy_bytes(k);
        let vv = copy_bytes(v);
        match self.index_of(k) {
            Some(i) => {
                self.vars.set(i, (kk, vv));
                assert forall|a: int, b: int| 0 <= a < b < self.vars@.len() implies #[trigger] self.vars@[a].0@ != #[trigger] self.vars@[b].0@ by {
                    assert(old_vars[a].0@ != old_vars[b].0@);
                }
                assert(self@ =~= old(self)@.insert(k@, v@)) by {
                    assert forall|q: Seq<u8>| #[trigger] self@.dom().contains(q) <==> old(self)@.insert(k@, v@).dom().contains(q) by {
                        if self@.dom().contains(q) {
                            let j = choose|j: int| 0 <= j < self.vars@.len() && #[trigger] self.vars@[j].0@ == q;
                            if j != i {
                                assert(old_vars[j].0@ == q);
                            }
                        }
                        if old(self)@.dom().contains(q) {
                            let j = choose|j: int| 0 <= j < old_vars.len() && #[trigger] old_vars[j].0@ == q;
                            assert(self.vars@[j].0@ == q);
                        }
                        if q == k@ {
                            assert(self.vars@[i as int].0@ == q);
                        }
                    }
                    assert forall|q: Seq<u8>| #[trigger] self@.dom().contains(q) implies self@[q] == old(self)@.insert(k@, v@)[q] by {
                        let j = choose|j: int| 0 <= j < self.vars@.len() && #[trigger] self.vars@[j].0@ == q;
                        self.lemma_value_at(j);
                        if q != k@ {
                            old(self).lemma_value_at(j);
                        }
                    }
                }
            },
            None => {
                self.vars.push((kk, vv));
                let ghost n = old_vars.len() as int;
                assert forall|a: int, b: int| 0 <= a < b < self.vars@.len() implies #[trigger] self.vars@[a].0@ != #[trigger] self.vars@[b].0@ by {
                    if b == n {
                        assert(old(self)@.dom().contains(old_vars[a].0@)) by {
                            assert(old_vars[a].0@ == old_vars[a].0@);
                        }
                    } else {
                        assert(old_vars[a].0@ != old_vars[b].0@);
                    }
                }
                assert(self@ =~= old(self)@.insert(k@, v@)) by {
                    assert forall|q: Seq<u8>| #[trigger] self@.dom().contains(q) <==> old(self)@.insert(k@, v@).dom().contains(q) by {
                        if self@.dom().contains(q) {
                            let j = choose|j: int| 0 <= j < self.vars@.len() && #[trigger] self.vars@[j].0@ == q;
                            if j != n {
                                assert(old_vars[j].0@ == q);
                            }
                        }
                        if old(self)@.dom().contains(q) {
                            let j = choose|j: int| 0 <= j < old_vars.len() && #[trigger] old_vars[j].0@ == q;
                            assert(self.vars@[j].0@ == q);
                        }
                        if q == k@ {
                            assert(self.vars@[n].0@ == q);
                        }
                    }
                    assert forall|q: Seq<u8>| #[trigger] self@.dom().contains(q) implies self@[q] == old(self)@.insert(k@, v@)[q] by {
                        let j = choose|j: int| 0 <= j < self.vars@.len() && #[trigger] self.vars@[j].0@ == q;
                        self.lemma_value_at(j);
                        if j != n {
                            old(self).lemma_value_at(j);
                        }
                    }
                }
            },
        }
    }

    /// Unsets `k`.
    pub fn remove(&mut self, k: &[u8])
        requires
            old(self).wf(),
        ensures
            final(self).wf(),
            final(self)@ == old(self)@.remove(k@),
    {
        let ghost old_vars = self.vars@;
        match self.index_of(k) {
            None => {
                assert(self@ =~= old(self)@.remove(k@));
            },
            Some(i) => {
                self.vars.remove(i);
                let ghost idx = |j: int| if j < i { j } else { j + 1 };
                assert forall|j: int| 0 <= j < self.vars@.len() implies #[trigger] self.vars@[j] == old_vars[idx(j)] by {}
                assert forall|a: int, b: int| 0 <= a < b < self.vars@.len() implies #[trigger] self.vars@[a].0@ != #[trigger] self.vars@[b].0@ by {
                    assert(self.vars@[a] == old_vars[idx(a)]);
                    assert(self.vars@[b] == old_vars[idx(b)]);
                    assert(old_vars[idx(a)].0@ != old_vars[idx(b)].0@);
                }
                assert(self@ =~= old(self)@.remove(k@)) by {
                    assert forall|q: Seq<u8>| #[trigger] self@.dom().contains(q) <==> old(self)@.remove(k@).dom().contains(q) by {
                        if self@.dom().contains(q) {
                            let j = choose|j: int| 0 <= j < self.vars@.len() && #[trigger] self.vars@[j].0@ == q;
                            assert(self.vars@[j] == old_vars[idx(j)]);
                            assert(old_vars[idx(j)].0@ == q);
                            if q == k@ {
                                if idx(j) < i {
                                    assert(old_vars[idx(j)].0@ != old_vars[i as int].0@);
                                } else {
                                    assert(old_vars[i as int].0@ != old_vars[idx(j)].0@);
                                }
                            }
                        }
                        if old(self)@.remove(k@).dom().contains(q) {
                            let j = choose|j: int| 0 <= j < old_vars.len() && #[trigger] old_vars[j].0@ == q;
                            assert(j != i);
                            let j2 = if j < i { j } else { j - 1 };
                            assert(self.vars@[j2] == old_vars[idx(j2)]);
                            assert(self.vars@[j2].0@ == q);
                        }
                    }
                    assert forall|q: Seq<u8>| #[trigger] self@.dom().contains(q) implies self@[q] == old(self)@.remove(k@)[q] by {
                        let j = choose|j: int| 0 <= j < self.vars@.len() && #[trigger] self.vars@[j].0@ == q;
                        self.lemma_value_at(j);
                        assert(self.vars@[j] == old_vars[idx(j)]);
                        old(self).lemma_value_at(idx(j));
                    }
                }
            },
        }
    }

    /// Unsets every variable.
    pub fn clear(&mut self)
        ensures
            final(self).wf(),
            final(self)@ == Map::<Seq<u8>, Seq<u8>>::empty(),
    {
        self.vars.clear();
        assert(self@ =~= Map::<Seq<u8>, Seq<u8>>::empty());
    }

    /// The variables as name and value pairs, each name once.
    pub fn to_vec(&self) -> (r: Vec<(Vec<u8>, Vec<u8>)>)
        requires
            self.wf(),
        ensures
            env_map(r@) == self@,
            forall|i: int, j: int| 0 <= i < j < r@.len() ==> #[trigger] r@[i].0@ != #[trigger] r@[j].0@,
    {
        let mut r: Vec<(Vec<u8>, Vec<u8>)> = Vec::new();
        let mut i: usize = 0;
        while i < self.vars.len()
            invariant
                self.wf(),
                i <= self.vars@.len(),
                r@.len() == i,
                forall|j: int| 0 <= j < i ==> (#[trigger] r@[j]).0@ == self.vars@[j].0@ && r@[j].1@ == self.vars@[j].1@,
                env_map(r@) == Map::new(
                    |k: Seq<u8>| exists|j: int| 0 <= j < i && #[trigger] self.vars@[j].0@ == k,
                    |k: Seq<u8>| self@[k],
                ),
            decreases self.vars@.len() - i,
        {
            let k = copy_bytes(self.vars[i].0.as_slice());
            let v = copy_bytes(self.vars[i].1.as_slice());
            let ghost r0 = r@;
            r.push((k, v));
            proof {
                assert(r@.drop_last() =~= r0);
                self.lemma_value_at(i as int);
                assert(env_map(r@) =~= Map::new(
                    |q: Seq<u8>| exists|j: int| 0 <= j < i + 1 && #[trigger] self.vars@[j].0@ == q,
                    |q: Seq<u8>| self@[q],
                )) by {
                    assert forall|q: Seq<u8>| (exists|j: int| 0 <= j < i + 1 && #[trigger] self.vars@[j].0@ == q) implies
                        env_map(r@).dom().contains(q) by {
                        let j = choose|j: int| 0 <= j < i + 1 && #[trigger] self.vars@[j].0@ == q;
                        if j < i {
                            assert(exists|j: int| 0 <= j < i && #[trigger] self.vars@[j].0@ == q);
                        }
                    }
                    assert forall|q: Seq<u8>| env_map(r@).dom().contains(q) implies
                        (exists|j: int| 0 <= j < i + 1 && #[trigger] self.vars@[j].0@ == q) by {
                        if q != self.vars@[i as int].0@ {
                            let j = choose|j: int| 0 <= j < i && #[trigger] self.vars@[j].0@ == q;
                        }
                    }
                }
            }
            i = i + 1;
        }
        assert(env_map(r@) =~= self@) by {
            assert forall|q: Seq<u8>| self@.dom().contains(q) implies env_map(r@).dom().contains(q) by {
                let j = choose|j: int| 0 <= j < self.vars@.len() && #[trigger] self.vars@[j].0@ == q;
            }
        }
        r
    }
}

/// The environment settings of a command.
pub struct EnvSettings {
    /// Start from an empty environment rather than the parent's.
    pub cleared: bool,
    /// Variables of the parent that the child does not get.
    pub removed: Set<Seq<u8>>,
    /// Variables the child gets with these values.
    pub set: Map<Seq<u8>, Seq<u8>>,
}

/// The environment the child gets from a parent with environment `parent`.
pub open spec fn child_env(e: EnvSettings, parent: Map<Seq<u8>, Seq<u8>>) -> Map<Seq<u8>, Seq<u8>> {
    let base = if e.cleared {
        Map::empty()
    } else {
        parent
    };
    base.remove_keys(e.removed).union_prefer_right(e.set)
}

/// The names among the first `j` of a list.
pub open spec fn names_upto(names: Seq<Vec<u8>>, j: int) -> Set<Seq<u8>> {
    Set::new(|k: Seq<u8>| exists|m: int| 0 <= m < j && #[trigger] names[m]@ == k)
}

/// The child environment, computed from the parent's variables in order.
pub fn apply_env(
    cleared: bool,
    removed: &PathSet,
    set: &EnvVars,
    parent: &Vec<(Vec<u8>, Vec<u8>)>,
) -> (r: EnvVars)
    requires
        set.wf(),
    ensures
        r.wf(),
        r@ == child_env(EnvSettings { cleared, removed: removed@, set: set@ }, env_map(parent@)),
{
    let mut r = EnvVars::new();
    if !cleared {
        let mut i: usize = 0;
        while i < parent.len()
            invariant
                r.wf(),
                i <= parent@.len(),
                r@ == env_map(parent@.subrange(0, i as int)),
            decreases parent@.len() - i,
        {
            r.insert(parent[i].0.as_slice(), parent[i].1.as_slice());
            assert(parent@.subrange(0, i + 1).drop_last() =~= parent@.subrange(0, i as int));
            i = i + 1;
        }
        assert(parent@.subrange(0, parent@.len() as int) =~= parent@);
    }
    let ghost base = r@;
    let gone = removed.to_vec();
    let mut j: usize = 0;
    while j < gone.len()
        invariant
            r.wf(),
            j <= gone@.len(),
            r@ == base.remove_keys(names_upto(gone@, j as int)),
        decreases gone@.len() - j,
    {
        r.remove(gone[j].as_slice());
        assert(names_upto(gone@, j + 1) =~= names_upto(gone@, j as int).insert(gone@[j as int]@)) by {
            assert forall|k: Seq<u8>| #[trigger] names_upto(gone@, j + 1).contains(k) implies
                names_upto(gone@, j as int).insert(gone@[j as int]@).contains(k) by {
                let m = choose|m: int| 0 <= m < j + 1 && #[trigger] gone@[m]@ == k;
                if m < j {
                    assert(names_upto(gone@, j as int).contains(k));
                }
            }
            assert forall|k: Seq<u8>| #[trigger] names_upto(gone@, j as int).insert(gone@[j as int]@).contains(k) implies
                names_upto(gone@, j + 1).contains(k) by {
                if k != gone@[j as int]@ {
                    let m = choose|m: int| 0 <= m < j && #[trigger] gone@[m]@ == k;
                }
            }
        }
        assert(r@ =~= base.remove_keys(names_upto(gone@, j + 1)));
        j = j + 1;
    }
    assert(names_upto(gone@, gone@.len() as int) =~= removed@);
    let ghost kept = r@;
    let pairs = set.to_vec();
    let mut m: usize = 0;
    while m < pairs.len()
        invariant
            r.wf(),
            m <= pairs@.len(),
            r@ == kept.union_prefer_right(env_map(pairs@.subrange(0, m as int))),
        decreases pairs@.len() - m,
    {
        r.insert(pairs[m].0.as_slice(), pairs[m].1.as_slice());
        assert(pairs@.subrange(0, m + 1).drop_last() =~= pairs@.subrange(0, m as int));
        assert(r@ =~= kept.union_prefer_right(env_map(pairs@.subrange(0, m + 1))));
        m = m + 1;
    }
    assert(pairs@.subrange(0, pairs@.len() as int) =~= pairs@);
    assert(r@ =~= child_env(EnvSettings { cleared, removed: removed@, set: set@ }, env_map(parent@)));
    r
}

} // verus!
