//! A set of paths, each held once, as reported for a traced command.

use vstd::prelude::*;
use crate::bytes::{bytes_eq, copy_bytes};
use crate::paths::SLASH;

verus! {

/// A finite set of paths (as byte strings) in which no path occurs twice.
#[derive(Debug)]
pub struct PathSet {
    items: Vec<Vec<u8>>,
}

impl PathSet {
    #[verifier::type_invariant]
    spec fn distinct(self) -> bool {
        forall|i: int, j: int|
            0 <= i < j < self.items@.len() ==> #[trigger] self.items@[i]@ != #[trigger] self.items@[j]@
    }

    /// The paths in the set.
    pub closed spec fn view(&self) -> Set<Seq<u8>> {
        Set::new(|p: Seq<u8>| exists|i: int| 0 <= i < self.items@.len() && #[trigger] self.items@[i]@ == p)
    }

    /// The number of paths in the set.
    pub closed spec fn spec_len(&self) -> nat {
        self.items@.len()
    }

    /// The empty set.
    pub fn new() -> (s: PathSet)
        ensures
            s@ == Set::<Seq<u8>>::empty(),
            s.spec_len() == 0,
    {
        let s = PathSet { items: Vec::new() };
        assert(s@ =~= Set::<Seq<u8>>::empty());
        s
    }

    fn index_of(&self, p: &[u8]) -> (r: Option<usize>)
        ensures
            match r {
                Some(i) => i < self.items@.len() && self.items@[i as int]@ == p@,
                None => !self@.contains(p@),
            },
    {
        let mut i: usize = 0;
        while i < self.items.len()
            invariant
                i <= self.items@.len(),
                forall|j: int| 0 <= j < i ==> self.items@[j]@ != p@,
            decreases self.items@.len() - i,
        {
            if bytes_eq(self.items[i].as_slice(), p) {
                return Some(i);
            }
            i = i + 1;
        }
        None
    }

    /// Is `p` in the set?
    pub fn contains(&self, p: &[u8]) -> (r: bool)
        ensures
            r == self@.contains(p@),
    {
        match self.index_of(p) {
            Some(i) => {
                assert(self@.contains(p@)) by {
                    assert(self.items@[i as int]@ == p@);
                }
                true
            },
            None => false,
        }
    }

    /// The number of paths in the set.
    pub fn len(&self) -> (r: usize)
        ensures
            r == self.spec_len(),
            r as int == self@.len(),
            self@.finite(),
    {
        proof {
            use_type_invariant(self);
            self.lemma_len();
        }
        self.items.len()
    }

    proof fn lemma_len(&self)
        requires
            self.distinct(),
        ensures
            self@.finite(),
            self@.len() == self.items@.len(),
        decreases self.items@.len(),
    {
        let vs = self.items@.map_values(|v: Vec<u8>| v@);
        assert(self@ =~= vs.to_set()) by {
            assert forall|p: Seq<u8>| self@.contains(p) implies vs.to_set().contains(p) by {
                let i = choose|i: int| 0 <= i < self.items@.len() && #[trigger] self.items@[i]@ == p;
                assert(vs[i] == p);
            }
            assert forall|p: Seq<u8>| vs.to_set().contains(p) implies self@.contains(p) by {
                let i = choose|i: int| 0 <= i < vs.len() && vs[i] == p;
                assert(self.items@[i]@ == p);
            }
        }
        assert(vs.no_duplicates()) by {
            assert forall|i: int, j: int| 0 <= i < vs.len() && 0 <= j < vs.len() && i != j implies vs[i] != vs[j] by {
                if i < j {
                    assert(self.items@[i]@ != self.items@[j]@);
                } else {
                    assert(self.items@[j]@ != self.items@[i]@);
                }
            }
        }
        vs.unique_seq_to_set();
    }

    /// Adds `p` to the set.
    pub fn insert(&mut self, p: &[u8])
        ensures
            final(self)@ == old(self)@.insert(p@),
    {
        proof { use_type_invariant(&*self); }
        if self.index_of(p).is_none() {
            let ghost old_items = self.items@;
            let v = copy_bytes(p);
            let mut items: Vec<Vec<u8>> = Vec::new();
            std::mem::swap(&mut items, &mut self.items);
            items.push(v);
            assert forall|i: int, j: int|
                0 <= i < j < items@.len() implies #[trigger] items@[i]@ != #[trigger] items@[j]@ by {
                if j == old_items.len() {
                    assert(items@[i] == old_items[i]);
                }
            }
            self.items = items;
            assert(self@ =~= old(self)@.insert(p@)) by {
                assert forall|q: Seq<u8>| #[trigger] old(self)@.contains(q) implies self@.contains(q) by {
                    let i = choose|i: int| 0 <= i < old_items.len() && #[trigger] old_items[i]@ == q;
                    assert(self.items@[i]@ == q);
                }
                assert(self.items@[old_items.len() as int]@ == p@);
                assert forall|q: Seq<u8>| #[trigger] self@.contains(q) implies old(self)@.insert(p@).contains(q) by {
                    let i = choose|i: int| 0 <= i < self.items@.len() && #[trigger] self.items@[i]@ == q;
                    if i < old_items.len() {
                        assert(old_items[i]@ == q);
                    }
                }
            }
        } else {
            assert(self@ =~= old(self)@.insert(p@));
        }
    }

    /// Removes `p` from the set.
    pub fn remove(&mut self, p: &[u8])
        ensures
            final(self)@ == old(self)@.remove(p@),
    {
        proof { use_type_invariant(&*self); }
        match self.index_of(p) {
            None => {
                assert(self@ =~= old(self)@.remove(p@));
            },
            Some(k) => {
                let ghost old_items = self.items@;
                let mut items: Vec<Vec<u8>> = Vec::new();
                std::mem::swap(&mut items, &mut self.items);
                items.remove(k);
                assert(items@ =~= old_items.remove(k as int));
                assert forall|i: int, j: int|
                    0 <= i < j < items@.len() implies #[trigger] items@[i]@ != #[trigger] items@[j]@ by {
                    let oi = if i < k { i } else { i + 1 };
                    let oj = if j < k { j } else { j + 1 };
                    assert(items@[i] == old_items[oi]);
                    assert(items@[j] == old_items[oj]);
                }
                self.items = items;
                assert(self@ =~= old(self)@.remove(p@)) by {
                    assert forall|q: Seq<u8>| #[trigger] self@.contains(q) implies old(self)@.remove(p@).contains(q) by {
                        let i = choose|i: int| 0 <= i < self.items@.len() && #[trigger] self.items@[i]@ == q;
                        let oi = if i < k { i } else { i + 1 };
                        assert(self.items@[i] == old_items[oi]);
                        if q == p@ {
                            if oi < k {
                                assert(old_items[oi]@ != old_items[k as int]@);
                            } else {
                                assert(old_items[k as int]@ != old_items[oi]@);
                            }
                        }
                    }
                    assert forall|q: Seq<u8>| #[trigger] old(self)@.remove(p@).contains(q) implies self@.contains(q) by {
                        let oi = choose|i: int| 0 <= i < old_items.len() && #[trigger] old_items[i]@ == q;
                        assert(oi != k);
                        let i = if oi < k { oi } else { oi - 1 };
                        assert(self.items@[i] == old_items[oi]);
                    }
                }
            },
        }
    }

    /// A set with the same paths.
    pub fn copy(&self) -> (r: PathSet)
        ensures
            r@ == self@,
            r.spec_len() == self.spec_len(),
    {
        proof { use_type_invariant(self); }
        let items = self.to_vec();
        let r = PathSet { items };
        assert(r@ =~= self@);
        r
    }

    /// The paths of the set, each once, in no particular order.
    pub fn to_vec(&self) -> (r: Vec<Vec<u8>>)
        ensures
            r@.len() == self.spec_len(),
            forall|p: Seq<u8>| self@.contains(p) <==> exists|i: int| 0 <= i < r@.len() && #[trigger] r@[i]@ == p,
            forall|i: int, j: int| 0 <= i < j < r@.len() ==> #[trigger] r@[i]@ != #[trigger] r@[j]@,
    {
        proof { use_type_invariant(self); }
        let mut r: Vec<Vec<u8>> = Vec::new();
        let mut i: usize = 0;
        while i < self.items.len()
            invariant
                i <= self.items@.len(),
                r@.len() == i,
                forall|j: int| 0 <= j < i ==> #[trigger] r@[j]@ == self.items@[j]@,
            decreases self.items@.len() - i,
        {
            let v = copy_bytes(self.items[i].as_slice());
            r.push(v);
            i = i + 1;
        }
        assert forall|p: Seq<u8>| self@.contains(p) implies exists|i: int| 0 <= i < r@.len() && #[trigger] r@[i]@ == p by {
            let k = choose|k: int| 0 <= k < self.items@.len() && #[trigger] self.items@[k]@ == p;
            assert(r@[k]@ == p);
        }
        assert forall|p: Seq<u8>| (exists|i: int| 0 <= i < r@.len() && #[trigger] r@[i]@ == p) implies self@.contains(p) by {
            let k = choose|k: int| 0 <= k < r@.len() && #[trigger] r@[k]@ == p;
            assert(self.items@[k]@ == p);
        }
        assert forall|i: int, j: int| 0 <= i < j < r@.len() implies #[trigger] r@[i]@ != #[trigger] r@[j]@ by {
            assert(r@[i]@ == self.items@[i]@);
            assert(r@[j]@ == self.items@[j]@);
        }
        r
    }
}

/// Is `p` the path `dir` itself or a path inside it?
pub open spec fn within(p: Seq<u8>, dir: Seq<u8>) -> bool {
    p == dir || (p.len() > dir.len() && p.subrange(0, dir.len() as int) == dir && p[dir.len() as int] == SLASH)
}

/// The path `p` after `from` was renamed to `to`: a path at or inside
/// `from` moves along, others stay.
pub open spec fn moved(p: Seq<u8>, from: Seq<u8>, to: Seq<u8>) -> Seq<u8> {
    if within(p, from) {
        to + p.subrange(from.len() as int, p.len() as int)
    } else {
        p
    }
}

/// Does `p` still name something after `from` was renamed to `to`?  What
/// was at or inside `to` (and is not moving) has been replaced.
pub open spec fn survives(p: Seq<u8>, from: Seq<u8>, to: Seq<u8>) -> bool {
    within(p, from) || !within(p, to)
}

/// The paths of `s` after `from` was renamed to `to`.
pub open spec fn renamed(s: Set<Seq<u8>>, from: Seq<u8>, to: Seq<u8>) -> Set<Seq<u8>> {
    Set::new(|q: Seq<u8>| exists|p: Seq<u8>| #[trigger] s.contains(p) && survives(p, from, to) && moved(p, from, to) == q)
}

/// A path moved from inside `from` lands at or inside `to`.
pub proof fn lemma_moved_within(p: Seq<u8>, from: Seq<u8>, to: Seq<u8>)
    requires
        within(p, from),
    ensures
        within(moved(p, from, to), to),
{
    let q = moved(p, from, to);
    let tail = p.subrange(from.len() as int, p.len() as int);
    if p == from {
        assert(tail =~= Seq::<u8>::empty());
        assert(q =~= to);
    } else {
        assert(q.subrange(0, to.len() as int) =~= to);
        assert(q[to.len() as int] == tail[0]);
    }
}

/// Two surviving paths that are moved to the same place were the same.
pub proof fn lemma_moved_injective(p1: Seq<u8>, p2: Seq<u8>, from: Seq<u8>, to: Seq<u8>)
    requires
        survives(p1, from, to),
        survives(p2, from, to),
        moved(p1, from, to) == moved(p2, from, to),
    ensures
        p1 == p2,
{
    if within(p1, from) && within(p2, from) {
        let t1 = p1.subrange(from.len() as int, p1.len() as int);
        let t2 = p2.subrange(from.len() as int, p2.len() as int);
        assert((to + t1).subrange(to.len() as int, (to + t1).len() as int) =~= t1);
        assert((to + t2).subrange(to.len() as int, (to + t2).len() as int) =~= t2);
        assert(t1 == t2);
        assert(p1 =~= from + t1);
        assert(p2 =~= from + t2);
    } else if within(p1, from) {
        lemma_moved_within(p1, from, to);
    } else if within(p2, from) {
        lemma_moved_within(p2, from, to);
    }
}

/// If `q` lies at or inside both `a` and `b`, one of `a` and `b` lies at
/// or inside the other.
pub proof fn lemma_within_both(q: Seq<u8>, a: Seq<u8>, b: Seq<u8>)
    requires
        within(q, a),
        within(q, b),
    ensures
        within(a, b) || within(b, a),
{
    if a.len() <= b.len() {
        if b.len() > a.len() {
            assert(b.subrange(0, a.len() as int) =~= q.subrange(0, a.len() as int));
            assert(b[a.len() as int] == q[a.len() as int]);
        } else {
            assert(a =~= q.subrange(0, a.len() as int) || a == q);
            assert(b =~= q.subrange(0, b.len() as int) || b == q);
        }
    } else {
        assert(a.subrange(0, b.len() as int) =~= q.subrange(0, b.len() as int));
        assert(a[b.len() as int] == q[b.len() as int]);
    }
}

/// Is `p` at or inside `dir`?
pub fn is_within(p: &[u8], dir: &[u8]) -> (r: bool)
    ensures
        r == within(p@, dir@),
{
    if p.len() < dir.len() {
        return false;
    }
    let mut i: usize = 0;
    while i < dir.len()
        invariant
            dir@.len() <= p@.len(),
            i <= dir@.len(),
            p@.subrange(0, i as int) =~= dir@.subrange(0, i as int),
        decreases dir@.len() - i,
    {
        if p[i] != dir[i] {
            assert(p@.subrange(0, dir@.len() as int)[i as int] != dir@[i as int]);
            return false;
        }
        i = i + 1;
        assert(p@.subrange(0, i as int) =~= dir@.subrange(0, i as int));
    }
    assert(dir@.subrange(0, dir@.len() as int) =~= dir@);
    if p.len() == dir.len() {
        assert(p@ =~= dir@);
        true
    } else {
        p[dir.len()] == SLASH
    }
}

/// `to` followed by the part of `p` after its first `n` bytes.
fn with_new_prefix(p: &[u8], n: usize, to: &[u8]) -> (r: Vec<u8>)
    requires
        n <= p@.len(),
    ensures
        r@ == to@ + p@.subrange(n as int, p@.len() as int),
{
    let mut r = copy_bytes(to);
    let mut k: usize = n;
    while k < p.len()
        invariant
            n <= k <= p@.len(),
            r@ == to@ + p@.subrange(n as int, k as int),
        decreases p@.len() - k,
    {
        r.push(p[k]);
        k = k + 1;
        assert(r@ =~= to@ + p@.subrange(n as int, k as int));
    }
    r
}

impl PathSet {
    /// The set after `from` was renamed to `to`: every path at or inside
    /// `from` now lies at or inside `to`, and what was at or inside `to`
    /// before is gone.
    pub fn rename(&self, from: &[u8], to: &[u8]) -> (r: PathSet)
        ensures
            r@ == renamed(self@, from@, to@),
    {
        let items = self.to_vec();
        let mut r = PathSet::new();
        let mut i: usize = 0;
        while i < items.len()
            invariant
                i <= items@.len(),
                forall|q: Seq<u8>| #[trigger] r@.contains(q) <==> exists|j: int| 0 <= j < i && survives(items@[j]@, from@, to@)
                    && #[trigger] moved(items@[j]@, from@, to@) == q,
            decreases items@.len() - i,
        {
            let p = items[i].as_slice();
            let ghost old_r = r@;
            if is_within(p, from) {
                let q = with_new_prefix(p, from.len(), to);
                r.insert(q.as_slice());
            } else if !is_within(p, to) {
                r.insert(p);
            }
            assert forall|q: Seq<u8>| #[trigger] r@.contains(q) <==> exists|j: int| 0 <= j < i + 1 && survives(items@[j]@, from@, to@)
                && #[trigger] moved(items@[j]@, from@, to@) == q by {
                if exists|j: int| 0 <= j < i + 1 && survives(items@[j]@, from@, to@) && #[trigger] moved(items@[j]@, from@, to@) == q {
                    let j = choose|j: int| 0 <= j < i + 1 && survives(items@[j]@, from@, to@) && #[trigger] moved(items@[j]@, from@, to@) == q;
                    if j < i {
                        assert(old_r.contains(q));
                    }
                }
                if r@.contains(q) && !old_r.contains(q) {
                    assert(survives(items@[i as int]@, from@, to@) && moved(items@[i as int]@, from@, to@) == q);
                }
                if old_r.contains(q) {
                    let j = choose|j: int| 0 <= j < i && survives(items@[j]@, from@, to@) && #[trigger] moved(items@[j]@, from@, to@) == q;
                    assert(0 <= j < i + 1);
                }
            }
            i = i + 1;
        }
        assert forall|q: Seq<u8>| r@.contains(q) <==> #[trigger] renamed(self@, from@, to@).contains(q) by {
            if r@.contains(q) {
                let j = choose|j: int| 0 <= j < items@.len() && survives(items@[j]@, from@, to@) && #[trigger] moved(items@[j]@, from@, to@) == q;
                assert(self@.contains(items@[j]@));
            }
            if renamed(self@, from@, to@).contains(q) {
                let p = choose|p: Seq<u8>| #[trigger] self@.contains(p) && survives(p, from@, to@) && moved(p, from@, to@) == q;
                let j = choose|j: int| 0 <= j < items@.len() && #[trigger] items@[j]@ == p;
                assert(moved(items@[j]@, from@, to@) == q);
            }
        }
        assert(r@ =~= renamed(self@, from@, to@));
        r
    }
}

} // verus!
