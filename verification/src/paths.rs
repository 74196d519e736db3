//! Paths as byte strings, split into their named components.
//!
//! A path is split at `/`.  Empty components and `.` components do
//! not name anything and are dropped, so `/a//b/./c` and `/a/b/c` have
//! the same components.  Whether the path is absolute is read from its
//! first byte.

use vstd::prelude::*;
use crate::bytes::append_bytes;

verus! {

/// The byte `/`.
pub const SLASH: u8 = 47;
/// The byte `.`.
pub const DOT: u8 = 46;

/// The views of a sequence of byte vectors.
pub open spec fn views(s: Seq<Vec<u8>>) -> Seq<Seq<u8>> {
    s.map_values(|v: Vec<u8>| v@)
}

/// Adds the component being read to those already complete, unless it
/// is empty or `.`.
pub open spec fn flush(done: Seq<Seq<u8>>, cur: Seq<u8>) -> Seq<Seq<u8>> {
    if cur.len() == 0 || cur == seq![DOT] {
        done
    } else {
        done.push(cur)
    }
}

/// Reading `p` from left to right: the complete components, and the
/// component that is still being read.
pub open spec fn scan(p: Seq<u8>) -> (Seq<Seq<u8>>, Seq<u8>)
    decreases p.len(),
{
    if p.len() == 0 {
        (Seq::empty(), Seq::empty())
    } else {
        let prev = scan(p.drop_last());
        if p.last() == SLASH {
            (flush(prev.0, prev.1), Seq::empty())
        } else {
            (prev.0, prev.1.push(p.last()))
        }
    }
}

/// The named components of `p`, in order.
pub open spec fn named_components(p: Seq<u8>) -> Seq<Seq<u8>> {
    flush(scan(p).0, scan(p).1)
}

/// Does `p` start at the root?
pub open spec fn is_absolute(p: Seq<u8>) -> bool {
    p.len() > 0 && p[0] == SLASH
}

/// A component that names a directory entry: not empty, not `.` or
/// `..`, and without a `/`.
pub open spec fn is_named(c: Seq<u8>) -> bool {
    &&& c.len() > 0
    &&& c != seq![DOT]
    &&& c != seq![DOT, DOT]
    &&& forall|i: int| 0 <= i < c.len() ==> c[i] != SLASH
}

/// `/` followed by each component and a `/` between them.
pub open spec fn joined(comps: Seq<Seq<u8>>) -> Seq<u8>
    decreases comps.len(),
{
    if comps.len() == 0 {
        Seq::empty()
    } else {
        joined(comps.drop_last()) + seq![SLASH] + comps.last()
    }
}

/// The absolute path whose components are `comps`.
pub open spec fn render(comps: Seq<Seq<u8>>) -> Seq<u8> {
    if comps.len() == 0 {
        seq![SLASH]
    } else {
        joined(comps)
    }
}

/// The decimal digits of `n`.
pub open spec fn nat_digits(n: nat) -> Seq<u8>
    decreases n,
{
    if n < 10 {
        seq![(48 + n) as u8]
    } else {
        nat_digits(n / 10).push((48 + n % 10) as u8)
    }
}

/// The decimal form of `n`, with a leading `-` when it is negative.
pub open spec fn decimal(n: int) -> Seq<u8> {
    if n < 0 {
        seq![45u8] + nat_digits((-n) as nat)
    } else {
        nat_digits(n as nat)
    }
}

proof fn lemma_scan_parts(p: Seq<u8>)
    ensures
        forall|i: int| 0 <= i < scan(p).0.len() ==> is_named_or_dotdot(#[trigger] scan(p).0[i]),
        forall|i: int| 0 <= i < scan(p).1.len() ==> scan(p).1[i] != SLASH,
    decreases p.len(),
{
    if p.len() > 0 {
        lemma_scan_parts(p.drop_last());
        let prev = scan(p.drop_last());
        if p.last() == SLASH {
            let d = flush(prev.0, prev.1);
            assert forall|i: int| 0 <= i < d.len() implies is_named_or_dotdot(#[trigger] d[i]) by {
                if i < prev.0.len() {
                    assert(d[i] == prev.0[i]);
                } else {
                    assert(d[i] == prev.1);
                }
            }
        } else {
            let c = prev.1.push(p.last());
            assert forall|i: int| 0 <= i < c.len() implies c[i] != SLASH by {
                if i < prev.1.len() {
                    assert(c[i] == prev.1[i]);
                }
            }
        }
    }
}

/// A component of a split path: a name or `..`.
pub open spec fn is_named_or_dotdot(c: Seq<u8>) -> bool {
    &&& c.len() > 0
    &&& c != seq![DOT]
    &&& forall|i: int| 0 <= i < c.len() ==> c[i] != SLASH
}

/// Every component of a split path is a name or `..`.
pub proof fn lemma_components_named(p: Seq<u8>)
    ensures
        forall|i: int| 0 <= i < named_components(p).len() ==> is_named_or_dotdot(#[trigger] named_components(p)[i]),
{
    lemma_scan_parts(p);
    let d = named_components(p);
    let prev = scan(p);
    assert forall|i: int| 0 <= i < d.len() implies is_named_or_dotdot(#[trigger] d[i]) by {
        if i < prev.0.len() {
            assert(d[i] == prev.0[i]);
        } else {
            assert(d[i] == prev.1);
        }
    }
}

/// The decimal digits of a number are digits.
pub proof fn lemma_digits(n: nat)
    ensures
        nat_digits(n).len() > 0,
        forall|i: int| 0 <= i < nat_digits(n).len() ==> 48 <= #[trigger] nat_digits(n)[i] <= 57,
    decreases n,
{
    if n >= 10 {
        lemma_digits(n / 10);
        let d = nat_digits(n);
        assert forall|i: int| 0 <= i < d.len() implies 48 <= #[trigger] d[i] <= 57 by {
            if i < nat_digits(n / 10).len() {
                assert(d[i] == nat_digits(n / 10)[i]);
            }
        }
    }
}

/// The decimal form of a number is a name.
pub proof fn lemma_decimal_named(n: int)
    ensures
        is_named_or_dotdot(decimal(n)),
        decimal(n) != seq![DOT, DOT],
{
    let d = decimal(n);
    if n < 0 {
        lemma_digits((-n) as nat);
        assert forall|i: int| 0 <= i < d.len() implies d[i] != SLASH by {
            if i > 0 {
                assert(d[i] == nat_digits((-n) as nat)[i - 1]);
            }
        }
        assert(d[0] == 45u8);
    } else {
        lemma_digits(n as nat);
    }
    if d == seq![DOT] {
        assert(d[0] == DOT);
    }
    if d == seq![DOT, DOT] {
        assert(d[0] == DOT);
    }
}

proof fn lemma_scan_name(x: Seq<u8>, c: Seq<u8>)
    requires
        forall|i: int| 0 <= i < c.len() ==> c[i] != SLASH,
    ensures
        scan(x + c) == (scan(x).0, scan(x).1 + c),
    decreases c.len(),
{
    if c.len() == 0 {
        assert(x + c =~= x);
        assert(scan(x).1 + c =~= scan(x).1);
    } else {
        let c0 = c.drop_last();
        lemma_scan_name(x, c0);
        assert((x + c).drop_last() =~= x + c0);
        assert((x + c).last() == c.last());
        assert(scan(x).1 + c0 + seq![c.last()] =~= scan(x).1 + c);
        assert((scan(x).1 + c0).push(c.last()) =~= scan(x).1 + c);
    }
}

proof fn lemma_scan_slash(x: Seq<u8>)
    ensures
        scan(x + seq![SLASH]) == (flush(scan(x).0, scan(x).1), Seq::<u8>::empty()),
{
    assert((x + seq![SLASH]).drop_last() =~= x);
}

proof fn lemma_scan_joined(s: Seq<Seq<u8>>)
    requires
        forall|i: int| 0 <= i < s.len() ==> is_named(#[trigger] s[i]),
    ensures
        s.len() == 0 ==> scan(joined(s)) == (Seq::<Seq<u8>>::empty(), Seq::<u8>::empty()),
        s.len() > 0 ==> scan(joined(s)) == (s.drop_last(), s.last()),
        s.len() > 0 ==> joined(s).len() > 0 && joined(s)[0] == SLASH,
    decreases s.len(),
{
    if s.len() > 0 {
        let s0 = s.drop_last();
        lemma_scan_joined(s0);
        let j0 = joined(s0);
        lemma_scan_slash(j0);
        assert(is_named(s.last()));
        lemma_scan_name(j0 + seq![SLASH], s.last());
        assert(joined(s) == j0 + seq![SLASH] + s.last());
        if s0.len() > 0 {
            assert(s0.drop_last().push(s0.last()) =~= s0);
            assert(is_named(s0.last()));
            assert(s0.last() != seq![DOT]);
        }
        assert(Seq::<u8>::empty() + s.last() =~= s.last());
        assert((j0 + seq![SLASH] + s.last())[0] == (j0 + seq![SLASH])[0]);
    }
}

/// A path built from names is absolute and splits back into the same
/// names: it is already in canonical form.
pub proof fn lemma_render_canonical(s: Seq<Seq<u8>>)
    requires
        forall|i: int| 0 <= i < s.len() ==> is_named(#[trigger] s[i]),
    ensures
        is_absolute(render(s)),
        named_components(render(s)) == s,
{
    lemma_scan_joined(s);
    if s.len() == 0 {
        lemma_scan_slash(Seq::<u8>::empty());
        assert(Seq::<u8>::empty() + seq![SLASH] =~= seq![SLASH]);
        assert(named_components(render(s)) =~= s);
    } else {
        assert(s.last() != seq![DOT]);
        assert(s.drop_last().push(s.last()) =~= s);
    }
}

/// Splits `p` into its named components (and `..`).
pub fn components(p: &[u8]) -> (r: Vec<Vec<u8>>)
    ensures
        views(r@) == named_components(p@),
{
    let mut done: Vec<Vec<u8>> = Vec::new();
    let mut cur: Vec<u8> = Vec::new();
    let mut i: usize = 0;
    while i < p.len()
        invariant
            i <= p@.len(),
            (views(done@), cur@) == scan(p@.subrange(0, i as int)),
        decreases p@.len() - i,
    {
        let ghost before = p@.subrange(0, i as int);
        assert(p@.subrange(0, i + 1).drop_last() =~= before);
        let c = p[i];
        if c == SLASH {
            if !(cur.len() == 0 || (cur.len() == 1 && cur[0] == DOT)) {
                proof {
                    assert(cur@ != seq![DOT] && cur@.len() != 0) by {
                        if cur@ == seq![DOT] {
                            assert(cur@.len() == 1 && cur@[0] == DOT);
                        }
                    }
                }
                let ghost d0 = done@;
                done.push(cur);
                assert(views(done@) =~= views(d0).push(cur@));
            } else {
                proof {
                    if cur@.len() == 1 {
                        assert(cur@ =~= seq![DOT]);
                    }
                }
            }
            cur = Vec::new();
            assert(cur@ =~= Seq::<u8>::empty());
        } else {
            cur.push(c);
        }
        i = i + 1;
    }
    assert(p@.subrange(0, p@.len() as int) =~= p@);
    if !(cur.len() == 0 || (cur.len() == 1 && cur[0] == DOT)) {
        proof {
            assert(cur@ != seq![DOT] && cur@.len() != 0) by {
                if cur@ == seq![DOT] {
                    assert(cur@.len() == 1 && cur@[0] == DOT);
                }
            }
        }
        let ghost d0 = done@;
        done.push(cur);
        assert(views(done@) =~= views(d0).push(cur@));
    } else {
        proof {
            if cur@.len() == 1 {
                assert(cur@ =~= seq![DOT]);
            }
        }
    }
    done
}

/// Does `p` start at the root?
pub fn absolute(p: &[u8]) -> (r: bool)
    ensures
        r == is_absolute(p@),
{
    p.len() > 0 && p[0] == SLASH
}

/// The absolute path with the given components.
pub fn render_path(comps: &Vec<Vec<u8>>) -> (r: Vec<u8>)
    ensures
        r@ == render(views(comps@)),
{
    if comps.len() == 0 {
        let mut r: Vec<u8> = Vec::new();
        r.push(SLASH);
        assert(r@ =~= seq![SLASH]);
        return r;
    }
    let mut r: Vec<u8> = Vec::new();
    let mut i: usize = 0;
    while i < comps.len()
        invariant
            i <= comps@.len(),
            r@ == joined(views(comps@).subrange(0, i as int)),
        decreases comps@.len() - i,
    {
        r.push(SLASH);
        append_bytes(&mut r, comps[i].as_slice());
        proof {
            let s = views(comps@).subrange(0, i + 1);
            assert(s.drop_last() =~= views(comps@).subrange(0, i as int));
            assert(s.last() == comps@[i as int]@);
            assert(r@ =~= joined(s.drop_last()) + seq![SLASH] + s.last());
        }
        i = i + 1;
    }
    assert(views(comps@).subrange(0, comps@.len() as int) =~= views(comps@));
    r
}

/// The decimal digits of `n`.
pub fn digits(n: u64) -> (r: Vec<u8>)
    ensures
        r@ == nat_digits(n as nat),
{
    let mut m: u64 = n;
    let mut acc: Vec<u8> = Vec::new();
    while m >= 10
        invariant
            nat_digits(n as nat) == nat_digits(m as nat) + acc@,
        decreases m,
    {
        let d: u8 = (48 + m % 10) as u8;
        let ghost a0 = acc@;
        acc.insert(0, d);
        assert(acc@ =~= seq![d] + a0);
        proof {
            assert(nat_digits(m as nat) == nat_digits((m / 10) as nat).push(d));
            assert(nat_digits((m / 10) as nat).push(d) + a0 =~= nat_digits((m / 10) as nat) + acc@);
        }
        m = m / 10;
    }
    let d: u8 = (48 + m) as u8;
    let ghost a0 = acc@;
    acc.insert(0, d);
    assert(acc@ =~= seq![d] + a0);
    assert(nat_digits(m as nat) =~= seq![d]);
    acc
}

/// The decimal form of `n`.
pub fn decimal_of(n: i32) -> (r: Vec<u8>)
    ensures
        r@ == decimal(n as int),
{
    if n < 0 {
        let m: u64 = (0i64 - (n as i64)) as u64;
        let ds = digits(m);
        let mut r: Vec<u8> = Vec::new();
        r.push(45u8);
        append_bytes(&mut r, ds.as_slice());
        assert(r@ =~= seq![45u8] + nat_digits((-n) as nat));
        r
    } else {
        digits(n as u64)
    }
}

} // verus!
