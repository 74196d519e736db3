//! Resolving a path in the traced process to the file it names.
//!
//! The walk starts at the root and takes the components of the path one
//! at a time: `..` goes up, a name goes down.  After each name that is
//! not the last one (or also the last one, when the last symlink is to
//! be followed) the walk asks whether the path so far is a symlink.  The
//! question goes to the file system, so the walk stops and hands the
//! path out; when the answer is a link target, its components take the
//! place of the name.

use vstd::prelude::*;
use crate::bytes::{bytes_eq, copy_bytes};
use crate::paths::{
    absolute, components, is_absolute, is_named, is_named_or_dotdot, lemma_components_named,
    lemma_render_canonical,
    named_components, render, render_path, views, DOT, SLASH,
};

verus! {

/// Whether the last component of a path is resolved when it is a symlink.
#[derive(Debug, Clone, Copy, PartialEq, Eq, Structural)]
pub enum LastSymlink {
    /// A symlink in last place is followed.
    Followed,
    /// A symlink in last place is the answer.
    Returned,
}

/// The component `..`.
pub open spec fn dotdot() -> Seq<u8> {
    seq![DOT, DOT]
}

/// The marker for the root, pushed when a link target is absolute.
pub open spec fn root_marker() -> Seq<u8> {
    seq![SLASH]
}

/// What may wait to be walked: the root, `..`, or a name.
pub open spec fn is_element(c: Seq<u8>) -> bool {
    c == root_marker() || is_named_or_dotdot(c)
}

/// The path with its last component removed (the root stays the root).
pub open spec fn parent_of(r: Seq<Seq<u8>>) -> Seq<Seq<u8>> {
    if r.len() == 0 {
        r
    } else {
        r.drop_last()
    }
}

/// Walking from `result` through `elements` (the next one last) until a
/// question must be asked or nothing is left: the new result, what is
/// still to be walked, and whether a question is asked.
pub open spec fn walk(result: Seq<Seq<u8>>, elements: Seq<Seq<u8>>, follow: bool) -> (
    Seq<Seq<u8>>,
    Seq<Seq<u8>>,
    bool,
)
    decreases elements.len(),
{
    if elements.len() == 0 {
        (result, elements, false)
    } else {
        let next = elements.last();
        let rest = elements.drop_last();
        if next == dotdot() {
            walk(parent_of(result), rest, follow)
        } else {
            let r2 = if next == root_marker() {
                Seq::empty()
            } else {
                result.push(next)
            };
            (r2, rest, rest.len() > 0 || follow)
        }
    }
}

/// Where a walk from `result` through `elements` ends when nothing on
/// the way is a symlink: `..` goes up, the root starts over, a name goes
/// down.
pub open spec fn lexical_end(result: Seq<Seq<u8>>, elements: Seq<Seq<u8>>) -> Seq<Seq<u8>>
    decreases elements.len(),
{
    if elements.len() == 0 {
        result
    } else {
        let next = elements.last();
        let rest = elements.drop_last();
        if next == dotdot() {
            lexical_end(parent_of(result), rest)
        } else if next == root_marker() {
            lexical_end(Seq::empty(), rest)
        } else {
            lexical_end(result.push(next), rest)
        }
    }
}

/// Each step of a walk keeps its lexical end: so when no question is
/// answered with a symlink, the walk ends where the path's `.` and `..`
/// components lead, with nothing left pending.
pub proof fn law_walk_keeps_lexical_end(result: Seq<Seq<u8>>, elements: Seq<Seq<u8>>, follow: bool)
    ensures
        lexical_end(walk(result, elements, follow).0, walk(result, elements, follow).1) == lexical_end(result, elements),
        walk(result, elements, follow).1.len() <= elements.len(),
        elements.len() > 0 ==> walk(result, elements, follow).1.len() < elements.len(),
        walk(result, elements, follow).1.len() == 0 ==> walk(result, elements, follow).0 == lexical_end(result, elements),
    decreases elements.len(),
{
    if elements.len() > 0 {
        let next = elements.last();
        let rest = elements.drop_last();
        if next == dotdot() {
            law_walk_keeps_lexical_end(parent_of(result), rest, follow);
        }
    }
}

/// What a link target puts in place of the name it replaces: its
/// components, the first one last, below the root when it is absolute.
pub open spec fn target_elements(target: Seq<u8>) -> Seq<Seq<u8>> {
    named_components(target).reverse() + if is_absolute(target) {
        seq![root_marker()]
    } else {
        Seq::empty()
    }
}

/// The path reached by a walk, as an absolute path.
pub open spec fn render_reached(w: RealpathWalk) -> Seq<u8> {
    render(w.reached())
}

/// Every path a walk reaches, and so every path it resolves to, is
/// absolute and in canonical form: it names no `.` or `..` component,
/// and splits back into the components reached.
pub proof fn law_walk_paths_canonical(w: RealpathWalk)
    requires
        w.wf(),
    ensures
        is_absolute(render(w.reached())),
        named_components(render(w.reached())) == w.reached(),
        forall|i: int| 0 <= i < w.reached().len() ==> #[trigger] w.reached()[i] != dotdot(),
{
    lemma_render_canonical(w.reached());
}

/// A resolution of a path that is under way.
pub struct RealpathWalk {
    result: Vec<Vec<u8>>,
    elements: Vec<Vec<u8>>,
    follow_last: bool,
}

impl RealpathWalk {
    /// The components reached so far.
    pub closed spec fn reached(&self) -> Seq<Seq<u8>> {
        views(self.result@)
    }

    /// What is still to be walked, the next one last.
    pub closed spec fn pending(&self) -> Seq<Seq<u8>> {
        views(self.elements@)
    }

    /// Is a symlink in last place followed?
    pub closed spec fn follows_last(&self) -> bool {
        self.follow_last
    }

    /// Every component reached is a name, and every pending one is a
    /// name, `..` or the root.
    pub closed spec fn wf(&self) -> bool {
        &&& forall|i: int| 0 <= i < self.reached().len() ==> is_named(#[trigger] self.reached()[i])
        &&& forall|i: int| 0 <= i < self.pending().len() ==> is_element(#[trigger] self.pending()[i])
    }

    /// Starts the walk of the path with components `comps`, from the root.
    pub fn new(comps: Vec<Vec<u8>>, lasth: LastSymlink) -> (w: RealpathWalk)
        requires
            forall|i: int| 0 <= i < comps@.len() ==> is_named_or_dotdot(#[trigger] comps@[i]@),
        ensures
            w.wf(),
            w.reached() == Seq::<Seq<u8>>::empty(),
            w.pending() == views(comps@).reverse(),
            w.follows_last() == (lasth == LastSymlink::Followed),
    {
        let mut elements: Vec<Vec<u8>> = Vec::new();
        let mut i: usize = comps.len();
        while i > 0
            invariant
                i <= comps@.len(),
                views(elements@) == views(comps@).subrange(i as int, comps@.len() as int).reverse(),
            decreases i,
        {
            i = i - 1;
            let c = copy_bytes(comps[i].as_slice());
            let ghost e0 = views(elements@);
            elements.push(c);
            assert(views(elements@) =~= views(comps@).subrange(i as int, comps@.len() as int).reverse()) by {
                assert(views(elements@) =~= e0.push(comps@[i as int]@));
            }
        }
        assert(views(comps@).subrange(0, comps@.len() as int) =~= views(comps@));
        let w = RealpathWalk {
            result: Vec::new(),
            elements,
            follow_last: lasth == LastSymlink::Followed,
        };
        assert(w.reached() =~= Seq::<Seq<u8>>::empty());
        assert forall|i: int| 0 <= i < w.pending().len() implies is_element(#[trigger] w.pending()[i]) by {
            let j = comps@.len() - 1 - i;
            assert(w.pending()[i] == comps@[j]@);
        }
        w
    }

    /// Walks on until a question must be asked or nothing is left.  The
    /// question is the path reached, to be looked up as a symlink.
    pub fn advance(&mut self) -> (q: Option<Vec<u8>>)
        requires
            old(self).wf(),
        ensures
            final(self).wf(),
            final(self).follows_last() == old(self).follows_last(),
            (final(self).reached(), final(self).pending(), q is Some) == walk(
                old(self).reached(),
                old(self).pending(),
                old(self).follows_last(),
            ),
            q matches Some(p) ==> p@ == render(final(self).reached()),
            q is None ==> final(self).pending().len() == 0,
    {
        loop
            invariant
                self.wf(),
                self.follow_last == old(self).follow_last,
                walk(self.reached(), self.pending(), self.follow_last) == walk(
                    old(self).reached(),
                    old(self).pending(),
                    old(self).follows_last(),
                ),
            decreases self.elements@.len(),
        {
            let ghost r0 = self.reached();
            let ghost e0 = self.pending();
            match self.elements.pop() {
                None => {
                    assert(e0.len() == 0);
                    return None;
                },
                Some(next) => {
                    assert(views(self.elements@) =~= e0.drop_last());
                    assert(next@ == e0.last());
                    assert(is_element(e0[e0.len() - 1]));
                    let dd: [u8; 2] = [DOT, DOT];
                    let root: [u8; 1] = [SLASH];
                    if bytes_eq(next.as_slice(), dd.as_slice()) {
                        assert(dd@ =~= dotdot());
                        self.result.pop();
                        assert(self.reached() =~= parent_of(r0));
                    } else {
                        if bytes_eq(next.as_slice(), root.as_slice()) {
                            assert(root@ =~= root_marker());
                            self.result.clear();
                            assert(self.reached() =~= Seq::<Seq<u8>>::empty());
                        } else {
                            assert(root@ =~= root_marker());
                            assert(dd@ =~= dotdot());
                            self.result.push(next);
                            assert(self.reached() =~= r0.push(e0.last()));
                            assert(is_named(e0.last()));
                        }
                        if self.elements.len() > 0 || self.follow_last {
                            return Some(render_path(&self.result));
                        } else {
                            return None;
                        }
                    }
                },
            }
        }
    }

    /// The path reached, as an absolute path.
    pub fn path(&self) -> (p: Vec<u8>)
        ensures
            p@ == render(self.reached()),
    {
        render_path(&self.result)
    }

    /// The path reached turned out to be a symlink to `target`: the walk
    /// goes back to its parent and takes the target's components next.
    /// Returns the symlink that was read.
    pub fn redirect(&mut self, target: &[u8]) -> (link: Vec<u8>)
        requires
            old(self).wf(),
        ensures
            final(self).wf(),
            final(self).follows_last() == old(self).follows_last(),
            link@ == render(old(self).reached()),
            final(self).reached() == parent_of(old(self).reached()),
            final(self).pending() == old(self).pending() + target_elements(target@),
    {
        let link = render_path(&self.result);
        let ghost r0 = self.reached();
        let ghost e0 = self.pending();
        self.result.pop();
        assert(self.reached() =~= parent_of(r0));
        let comps = components(target);
        proof { lemma_components_named(target@); }
        let mut i: usize = comps.len();
        while i > 0
            invariant
                i <= comps@.len(),
                views(comps@) == named_components(target@),
                self.reached() == parent_of(r0),
                self.follow_last == old(self).follow_last,
                self.pending() == e0 + views(comps@).subrange(i as int, comps@.len() as int).reverse(),
            decreases i,
        {
            i = i - 1;
            let c = copy_bytes(comps[i].as_slice());
            let ghost p0 = self.pending();
            self.elements.push(c);
            assert(self.pending() =~= e0 + views(comps@).subrange(i as int, comps@.len() as int).reverse()) by {
                assert(self.pending() =~= p0.push(comps@[i as int]@));
            }
        }
        assert(views(comps@).subrange(0, comps@.len() as int) =~= views(comps@));
        if absolute(target) {
            let mut root: Vec<u8> = Vec::new();
            root.push(SLASH);
            let ghost p0 = self.pending();
            self.elements.push(root);
            assert(self.pending() =~= p0.push(root_marker()));
        }
        assert(self.pending() =~= e0 + target_elements(target@));
        assert forall|i: int| 0 <= i < self.pending().len() implies is_element(#[trigger] self.pending()[i]) by {
            if i >= e0.len() {
                let k = i - e0.len();
                let n = named_components(target@);
                if k < n.len() {
                    assert(self.pending()[i] == n[n.len() - 1 - k]);
                }
            }
        }
        assert forall|i: int| 0 <= i < self.reached().len() implies is_named(#[trigger] self.reached()[i]) by {
            assert(self.reached()[i] == r0[i]);
        }
        link
    }
}

} // verus!
