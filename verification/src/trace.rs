//! What the tracer does with one traced system call: when it waits for
//! the call to return, which paths it reads from the tracee and how it
//! resolves them, which file type check it makes, and which access it
//! records at the end.

use vstd::prelude::*;
use crate::bytes::{append_bytes, bytes_eq, copy_bytes};
use crate::paths::{
    absolute, components, decimal, decimal_of, is_absolute, lemma_components_named,
    is_named_or_dotdot, lemma_decimal_named, named_components, views, DOT,
};
use crate::realpath::{LastSymlink, RealpathWalk};
use crate::status::Access;
use crate::syscall::Syscall;

verus! {

/// `AT_FDCWD`: the directory descriptor that stands for the working directory.
pub const AT_FDCWD: i32 = -100;
/// `AT_SYMLINK_FOLLOW`.
pub const AT_SYMLINK_FOLLOW: i32 = 0x400;
/// `O_WRONLY`.
pub const O_WRONLY: i32 = 1;
/// `O_RDWR`.
pub const O_RDWR: i32 = 2;

/// When the tracer waits for a traced call to return.
#[derive(Debug, Clone, Copy, PartialEq, Eq, Structural)]
pub enum ReturnWait {
    /// Before it reads the paths.
    BeforePaths,
    /// After it has resolved the paths.
    AfterPaths,
    /// Not at all.
    Never,
}

/// When the tracer waits for a traced call of family `s` to return.
pub open spec fn return_wait_of(s: Syscall) -> ReturnWait {
    match s {
        Syscall::Getdents | Syscall::Readlinkat => ReturnWait::AfterPaths,
        Syscall::Execve | Syscall::Execveat | Syscall::Chdir | Syscall::Lstat | Syscall::Stat => ReturnWait::Never,
        _ => ReturnWait::BeforePaths,
    }
}

/// Where a path comes from.
#[derive(Debug, Clone, Copy, PartialEq, Eq, Structural)]
pub enum PathSource {
    /// A string in the tracee's memory at this address.
    Tracee(usize),
    /// The path `.`.
    CurrentDir,
}

/// What a relative path is resolved against.
#[derive(Debug, Clone, Copy, PartialEq, Eq, Structural)]
pub enum Base {
    /// The directory open as this descriptor in the tracee (or its
    /// working directory, for `AT_FDCWD`).
    At(i32),
    /// The root.
    Root,
}

/// One path that the tracer reads and resolves.
#[derive(Debug, Clone, Copy, PartialEq, Eq, Structural)]
pub struct PathRequest {
    pub source: PathSource,
    pub base: Base,
    pub follow: LastSymlink,
}

/// The follow mode given by a flags argument.
pub open spec fn follow_of_flags(flags: i32) -> LastSymlink {
    if flags & AT_SYMLINK_FOLLOW != 0 {
        LastSymlink::Followed
    } else {
        LastSymlink::Returned
    }
}

/// A request for the string at `addr`.
pub open spec fn req(addr: usize, base: Base, follow: LastSymlink) -> PathRequest {
    PathRequest { source: PathSource::Tracee(addr), base, follow }
}

/// The paths the tracer reads for a call of family `s` with arguments
/// `args`; `retval` is what the call returned, when the tracer has
/// waited for it before reading paths.
pub open spec fn requests_for(s: Syscall, args: Seq<usize>, retval: Option<i32>) -> Seq<PathRequest> {
    let cwd = Base::At(AT_FDCWD);
    let ok = retval == Some(0i32);
    match s {
        Syscall::Open => seq![req(args[0], cwd, LastSymlink::Followed)],
        Syscall::OpenAt => seq![req(args[1], Base::At(args[0] as i32), LastSymlink::Followed)],
        Syscall::Mkdir => if ok { seq![req(args[0], cwd, LastSymlink::Followed)] } else { seq![] },
        Syscall::Mkdirat => if ok {
            seq![req(args[1], Base::At(args[0] as i32), LastSymlink::Followed)]
        } else {
            seq![]
        },
        Syscall::Futimesat => if ok && args[1] != 0 {
            seq![req(args[1], Base::At(args[0] as i32), LastSymlink::Followed)]
        } else {
            seq![]
        },
        Syscall::Utimensat => if ok && args[1] != 0 {
            seq![req(args[1], Base::At(args[0] as i32), follow_of_flags(args[3] as i32))]
        } else {
            seq![]
        },
        Syscall::Link => if ok {
            seq![req(args[0], cwd, LastSymlink::Returned), req(args[1], cwd, LastSymlink::Returned)]
        } else {
            seq![]
        },
        Syscall::Linkat => if ok {
            seq![
                req(args[1], Base::At(args[0] as i32), follow_of_flags(args[4] as i32)),
                req(args[3], Base::At(args[2] as i32), follow_of_flags(args[4] as i32)),
            ]
        } else {
            seq![]
        },
        Syscall::Symlink => if ok { seq![req(args[1], cwd, LastSymlink::Returned)] } else { seq![] },
        Syscall::Symlinkat => if ok {
            seq![req(args[2], Base::At(args[1] as i32), LastSymlink::Returned)]
        } else {
            seq![]
        },
        Syscall::Execve => seq![req(args[0], cwd, LastSymlink::Followed)],
        Syscall::Execveat => seq![req(args[1], Base::At(args[0] as i32), LastSymlink::Followed)],
        Syscall::Unlink => if ok { seq![req(args[0], cwd, LastSymlink::Returned)] } else { seq![] },
        Syscall::Unlinkat => if ok {
            seq![req(args[1], Base::At(args[0] as i32), LastSymlink::Returned)]
        } else {
            seq![]
        },
        Syscall::Getdents => seq![
            PathRequest {
                source: PathSource::CurrentDir,
                base: Base::At(args[0] as i32),
                follow: LastSymlink::Followed,
            },
        ],
        Syscall::Chdir => seq![req(args[0], cwd, LastSymlink::Followed)],
        Syscall::Lstat => seq![req(args[0], cwd, LastSymlink::Returned)],
        Syscall::Readlinkat => seq![req(args[1], Base::At(args[0] as i32), LastSymlink::Returned)],
        Syscall::Stat => seq![req(args[0], cwd, LastSymlink::Followed)],
        Syscall::Rmdir => if ok { seq![req(args[0], cwd, LastSymlink::Returned)] } else { seq![] },
        Syscall::Truncate => if ok { seq![req(args[0], cwd, LastSymlink::Followed)] } else { seq![] },
        Syscall::Rename => if ok {
            seq![req(args[0], cwd, LastSymlink::Returned), req(args[1], cwd, LastSymlink::Returned)]
        } else {
            seq![]
        },
        Syscall::Renameat | Syscall::Renameat2 => if ok {
            seq![
                req(args[1], Base::At(args[0] as i32), LastSymlink::Returned),
                req(args[3], Base::At(args[2] as i32), LastSymlink::Returned),
            ]
        } else {
            seq![]
        },
    }
}

/// The check on the type of the file that decides whether an access counts.
#[derive(Debug, Clone, Copy, PartialEq, Eq, Structural)]
pub enum FileCheck {
    /// None is made.
    Nothing,
    /// The path (followed) must be a regular file.
    IsFile,
    /// The path itself must be a symlink or a regular file.
    LinkOrFileHere,
    /// The path, followed, must be a symlink or a regular file.
    LinkOrFileFollowed,
}

/// The check made for a call of family `s`.
pub open spec fn file_check_of(s: Syscall) -> FileCheck {
    match s {
        Syscall::Open | Syscall::OpenAt => FileCheck::IsFile,
        Syscall::Lstat => FileCheck::LinkOrFileHere,
        Syscall::Stat => FileCheck::LinkOrFileFollowed,
        _ => FileCheck::Nothing,
    }
}

/// The flags argument of an open call.
pub open spec fn open_flags(s: Syscall, args: Seq<usize>) -> i32 {
    if s == Syscall::Open {
        args[1] as i32
    } else {
        args[2] as i32
    }
}

/// Does an open with these flags write?
pub open spec fn opens_for_writing(flags: i32) -> bool {
    flags & O_WRONLY != 0 || flags & O_RDWR != 0
}

/// The access recorded for a call of family `s` with arguments `args`
/// that returned `retval` (if the tracer waited for it), whose requested
/// paths resolved to `paths`, and whose file check came out `checked`.
pub open spec fn access_for(
    s: Syscall,
    args: Seq<usize>,
    retval: Option<i32>,
    paths: Seq<Seq<u8>>,
    checked: bool,
) -> Option<(AccessKind, Seq<Seq<u8>>)> {
    let ok = retval == Some(0i32);
    match s {
        Syscall::Open | Syscall::OpenAt => if checked && retval is Some && retval->0 >= 0 {
            if opens_for_writing(open_flags(s, args)) {
                Some((AccessKind::Write, paths))
            } else {
                Some((AccessKind::Read, paths))
            }
        } else {
            None
        },
        Syscall::Mkdir | Syscall::Mkdirat => if ok { Some((AccessKind::MakeDir, paths)) } else { None },
        Syscall::Futimesat | Syscall::Utimensat => if ok && args[1] != 0 {
            Some((AccessKind::Touch, paths))
        } else {
            None
        },
        Syscall::Link | Syscall::Linkat => if ok { Some((AccessKind::Link, paths)) } else { None },
        Syscall::Symlink | Syscall::Symlinkat => if ok { Some((AccessKind::Touch, paths)) } else { None },
        Syscall::Execve | Syscall::Execveat => if paths[0].len() != 0 {
            Some((AccessKind::Read, paths))
        } else {
            None
        },
        Syscall::Unlink | Syscall::Unlinkat => if ok { Some((AccessKind::Delete, paths)) } else { None },
        Syscall::Getdents => if ok { Some((AccessKind::ListDir, paths)) } else { None },
        Syscall::Chdir => None,
        Syscall::Lstat | Syscall::Stat => if checked { Some((AccessKind::Read, paths)) } else { None },
        Syscall::Readlinkat => if retval is Some && retval->0 >= 0 {
            Some((AccessKind::Read, paths))
        } else {
            None
        },
        Syscall::Rmdir => if ok { Some((AccessKind::Delete, paths)) } else { None },
        Syscall::Truncate => if ok { Some((AccessKind::Touch, paths)) } else { None },
        Syscall::Rename | Syscall::Renameat | Syscall::Renameat2 => if ok {
            Some((AccessKind::Rename, paths))
        } else {
            None
        },
    }
}

/// The kind of an access, apart from its paths.
#[derive(Debug, Clone, Copy, PartialEq, Eq, Structural)]
pub enum AccessKind {
    Read,
    Write,
    Touch,
    Link,
    ListDir,
    MakeDir,
    Delete,
    Rename,
}

/// The kind and paths of an access.
pub open spec fn shape_of(a: Access) -> (AccessKind, Seq<Seq<u8>>) {
    match a {
        Access::Read(p) => (AccessKind::Read, seq![p@]),
        Access::Write(p) => (AccessKind::Write, seq![p@]),
        Access::Touch(p) => (AccessKind::Touch, seq![p@]),
        Access::Link { from, to } => (AccessKind::Link, seq![from@, to@]),
        Access::ListDir(p) => (AccessKind::ListDir, seq![p@]),
        Access::MakeDir(p) => (AccessKind::MakeDir, seq![p@]),
        Access::Delete(p) => (AccessKind::Delete, seq![p@]),
        Access::Rename { from, to } => (AccessKind::Rename, seq![from@, to@]),
    }
}

/// `/proc/`.
pub open spec fn proc_prefix() -> Seq<u8> {
    seq![47u8, 112, 114, 111, 99, 47]
}

/// The link through which the tracer finds the directory that a path
/// relative to `dirfd` in process `pid` starts from.
pub open spec fn base_link(pid: i32, dirfd: i32) -> Seq<u8> {
    if dirfd == AT_FDCWD {
        proc_prefix() + decimal(pid as int) + seq![47u8, 99, 119, 100]
    } else {
        proc_prefix() + decimal(pid as int) + seq![47u8, 102, 100, 47] + decimal(dirfd as int)
    }
}

/// Does the path name something below `/proc/self`?
pub open spec fn in_proc_self(path: Seq<u8>) -> bool {
    &&& is_absolute(path)
    &&& named_components(path).len() >= 2
    &&& named_components(path)[0] == seq![112u8, 114, 111, 99]
    &&& named_components(path)[1] == seq![115u8, 101, 108, 102]
}

/// How the resolution of a path begins.
pub enum ResolveStart {
    /// It is already resolved, to this path.
    Done(Vec<u8>),
    /// It is walked from the root.
    Walk(RealpathWalk),
    /// The directory it starts from must be found by reading this link.
    ReadBase(Vec<u8>),
}

/// A walk with these components still to go.
pub open spec fn walk_of(w: RealpathWalk, comps: Seq<Seq<u8>>, follow: LastSymlink) -> bool {
    &&& w.wf()
    &&& w.reached() == Seq::<Seq<u8>>::empty()
    &&& w.pending() == comps.reverse()
    &&& w.follows_last() == (follow == LastSymlink::Followed)
}

fn proc_name() -> (r: Vec<u8>)
    ensures
        r@ == seq![112u8, 114, 111, 99],
{
    let mut r: Vec<u8> = Vec::new();
    r.push(112u8);
    r.push(114u8);
    r.push(111u8);
    r.push(99u8);
    assert(r@ =~= seq![112u8, 114, 111, 99]);
    r
}

/// Begins to resolve `path`, read from process `pid` for a request with
/// base `base`.
pub fn resolve_start(pid: i32, base: Base, path: &[u8], follow: LastSymlink) -> (r: ResolveStart)
    ensures
        match base {
            Base::Root => r matches ResolveStart::Walk(w) && walk_of(w, named_components(path@), follow),
            Base::At(dirfd) => if path@.len() == 0 {
                r matches ResolveStart::Done(p) && p@.len() == 0
            } else if in_proc_self(path@) {
                r matches ResolveStart::Walk(w) && walk_of(
                    w,
                    seq![seq![112u8, 114, 111, 99], decimal(pid as int)] + named_components(path@).skip(2),
                    follow,
                )
            } else if is_absolute(path@) {
                r matches ResolveStart::Walk(w) && walk_of(w, named_components(path@), follow)
            } else {
                r matches ResolveStart::ReadBase(l) && l@ == base_link(pid, dirfd)
            },
        },
{
    let comps = components(path);
    proof {
        lemma_components_named(path@);
        assert forall|k: int| 0 <= k < comps@.len() implies is_named_or_dotdot(#[trigger] comps@[k]@) by {
            assert(views(comps@)[k] == comps@[k]@);
        }
    }
    match base {
        Base::Root => ResolveStart::Walk(RealpathWalk::new(comps, follow)),
        Base::At(dirfd) => {
            if path.len() == 0 {
                let e: Vec<u8> = Vec::new();
                return ResolveStart::Done(e);
            }
            let is_abs = absolute(path);
            let proc: [u8; 4] = [112u8, 114, 111, 99];
            let me: [u8; 4] = [115u8, 101, 108, 102];
            if is_abs && comps.len() >= 2 && bytes_eq(comps[0].as_slice(), proc.as_slice())
                && bytes_eq(comps[1].as_slice(), me.as_slice()) {
                assert(proc@ =~= seq![112u8, 114, 111, 99]);
                assert(me@ =~= seq![115u8, 101, 108, 102]);
                let mut v: Vec<Vec<u8>> = Vec::new();
                v.push(proc_name());
                v.push(decimal_of(pid));
                let mut i: usize = 2;
                while i < comps.len()
                    invariant
                        2 <= i <= comps@.len(),
                        views(v@) == seq![seq![112u8, 114, 111, 99], decimal(pid as int)]
                            + views(comps@).subrange(2, i as int),
                    decreases comps@.len() - i,
                {
                    let ghost v0 = views(v@);
                    v.push(copy_bytes(comps[i].as_slice()));
                    assert(views(v@) =~= v0.push(comps@[i as int]@));
                    assert(views(comps@)[i as int] == comps@[i as int]@);
                    assert(views(v@) =~= seq![seq![112u8, 114, 111, 99], decimal(pid as int)]
                        + views(comps@).subrange(2, i + 1));
                    i = i + 1;
                }
                assert(views(comps@).subrange(2, comps@.len() as int) =~= views(comps@).skip(2));
                proof {
                    lemma_decimal_named(pid as int);
                    assert forall|k: int| 0 <= k < v@.len() implies is_named_or_dotdot(#[trigger] v@[k]@) by {
                        assert(views(v@)[k] == v@[k]@);
                        if k >= 2 {
                            assert(views(comps@)[k] == comps@[k]@);
                            assert(v@[k]@ == views(comps@)[k]);
                        } else if k == 0 {
                            let pn = seq![112u8, 114, 111, 99];
                            assert(v@[k]@ == pn);
                            assert(pn != seq![DOT]) by { assert(pn[0] != DOT); }
                        } else {
                            assert(v@[k]@ == decimal(pid as int));
                        }
                    }
                }
                ResolveStart::Walk(RealpathWalk::new(v, follow))
            } else if is_abs {
                proof {
                    if comps@.len() >= 2 && views(comps@)[0] == seq![112u8, 114, 111, 99]
                        && views(comps@)[1] == seq![115u8, 101, 108, 102] {
                        assert(comps@[0]@ == proc@);
                        assert(comps@[1]@ == me@);
                    }
                }
                ResolveStart::Walk(RealpathWalk::new(comps, follow))
            } else {
                let mut l: Vec<u8> = Vec::new();
                l.push(47u8);
                l.push(112u8);
                l.push(114u8);
                l.push(111u8);
                l.push(99u8);
                l.push(47u8);
                assert(l@ =~= proc_prefix());
                let dp = decimal_of(pid);
                append_bytes(&mut l, dp.as_slice());
                if dirfd == AT_FDCWD {
                    let tail: [u8; 4] = [47u8, 99, 119, 100];
                    append_bytes(&mut l, tail.as_slice());
                    assert(tail@ =~= seq![47u8, 99, 119, 100]);
                } else {
                    let tail: [u8; 4] = [47u8, 102, 100, 47];
                    append_bytes(&mut l, tail.as_slice());
                    assert(tail@ =~= seq![47u8, 102, 100, 47]);
                    let df = decimal_of(dirfd);
                    append_bytes(&mut l, df.as_slice());
                }
                ResolveStart::ReadBase(l)
            }
        },
    }
}

/// Continues a resolution that needed the directory it starts from:
/// `base` is that directory, when its link could be read.
pub fn resolve_from_base(base: Option<&[u8]>, path: &[u8], follow: LastSymlink) -> (r: ResolveStart)
    ensures
        match base {
            None => r matches ResolveStart::Done(p) && p@.len() == 0,
            Some(b) => r matches ResolveStart::Walk(w) && walk_of(
                w,
                named_components(b@) + named_components(path@),
                follow,
            ),
        },
{
    match base {
        None => {
            let e: Vec<u8> = Vec::new();
            ResolveStart::Done(e)
        },
        Some(b) => {
            let mut v = components(b);
            let mut w = components(path);
            proof {
                lemma_components_named(b@);
                lemma_components_named(path@);
            }
            let ghost v0 = views(v@);
            let ghost w0 = views(w@);
            let ghost vv = v@;
            let ghost ww = w@;
            v.append(&mut w);
            assert(v@ =~= vv + ww);
            assert(views(v@) =~= v0 + w0);
            assert forall|k: int| 0 <= k < v@.len() implies is_named_or_dotdot(#[trigger] v@[k]@) by {
                assert(views(v@)[k] == v@[k]@);
                if k < v0.len() {
                    assert(v@[k]@ == v0[k]);
                } else {
                    assert(v@[k]@ == w0[k - v0.len()]);
                }
            }
            ResolveStart::Walk(RealpathWalk::new(v, follow))
        },
    }
}

impl Syscall {
    /// When the tracer waits for a call of this family to return.
    pub fn return_wait(&self) -> (r: ReturnWait)
        ensures
            r == return_wait_of(*self),
    {
        match *self {
            Syscall::Getdents | Syscall::Readlinkat => ReturnWait::AfterPaths,
            Syscall::Execve | Syscall::Execveat | Syscall::Chdir | Syscall::Lstat | Syscall::Stat => ReturnWait::Never,
            _ => ReturnWait::BeforePaths,
        }
    }

    /// The check on the file type made for a call of this family.
    pub fn file_check(&self) -> (r: FileCheck)
        ensures
            r == file_check_of(*self),
    {
        match *self {
            Syscall::Open | Syscall::OpenAt => FileCheck::IsFile,
            Syscall::Lstat => FileCheck::LinkOrFileHere,
            Syscall::Stat => FileCheck::LinkOrFileFollowed,
            _ => FileCheck::Nothing,
        }
    }
}

fn follow_flags(flags: i32) -> (r: LastSymlink)
    ensures
        r == follow_of_flags(flags),
{
    if flags & AT_SYMLINK_FOLLOW != 0 {
        LastSymlink::Followed
    } else {
        LastSymlink::Returned
    }
}

fn one(r: PathRequest) -> (v: Vec<PathRequest>)
    ensures
        v@ == seq![r],
{
    let mut v: Vec<PathRequest> = Vec::new();
    v.push(r);
    assert(v@ =~= seq![r]);
    v
}

fn at(addr: usize, base: Base, follow: LastSymlink) -> (r: PathRequest)
    ensures
        r == req(addr, base, follow),
{
    PathRequest { source: PathSource::Tracee(addr), base, follow }
}

/// The paths the tracer reads for a call of family `s`.
#[verifier::spinoff_prover]
#[verifier::rlimit(60)]
pub fn path_requests(s: Syscall, args: &[usize; 6], retval: Option<i32>) -> (r: Vec<PathRequest>)
    ensures
        r@ == requests_for(s, args@, retval),
{
    let cwd = Base::At(AT_FDCWD);
    let ok = match retval {
        Some(v) => v == 0,
        None => false,
    };
    let none: Vec<PathRequest> = Vec::new();
    assert(none@ =~= Seq::<PathRequest>::empty());
    match s {
        Syscall::Open => one(at(args[0], cwd, LastSymlink::Followed)),
        Syscall::OpenAt => one(at(args[1], Base::At(args[0] as i32), LastSymlink::Followed)),
        Syscall::Mkdir => if ok { one(at(args[0], cwd, LastSymlink::Followed)) } else { none },
        Syscall::Mkdirat => if ok {
            one(at(args[1], Base::At(args[0] as i32), LastSymlink::Followed))
        } else {
            none
        },
        Syscall::Futimesat => if ok && args[1] != 0 {
            one(at(args[1], Base::At(args[0] as i32), LastSymlink::Followed))
        } else {
            none
        },
        Syscall::Utimensat => if ok && args[1] != 0 {
            one(at(args[1], Base::At(args[0] as i32), follow_flags(args[3] as i32)))
        } else {
            none
        },
        Syscall::Link => if ok {
            let mut v = one(at(args[0], cwd, LastSymlink::Returned));
            v.push(at(args[1], cwd, LastSymlink::Returned));
            assert(v@ =~= seq![req(args@[0], cwd, LastSymlink::Returned), req(args@[1], cwd, LastSymlink::Returned)]);
            v
        } else {
            none
        },
        Syscall::Linkat => if ok {
            let follow = follow_flags(args[4] as i32);
            let mut v = one(at(args[1], Base::At(args[0] as i32), follow));
            v.push(at(args[3], Base::At(args[2] as i32), follow));
            assert(v@ =~= seq![
                req(args@[1], Base::At(args@[0] as i32), follow_of_flags(args@[4] as i32)),
                req(args@[3], Base::At(args@[2] as i32), follow_of_flags(args@[4] as i32)),
            ]);
            v
        } else {
            none
        },
        Syscall::Symlink => if ok { one(at(args[1], cwd, LastSymlink::Returned)) } else { none },
        Syscall::Symlinkat => if ok {
            one(at(args[2], Base::At(args[1] as i32), LastSymlink::Returned))
        } else {
            none
        },
        Syscall::Execve => one(at(args[0], cwd, LastSymlink::Followed)),
        Syscall::Execveat => one(at(args[1], Base::At(args[0] as i32), LastSymlink::Followed)),
        Syscall::Unlink => if ok { one(at(args[0], cwd, LastSymlink::Returned)) } else { none },
        Syscall::Unlinkat => if ok {
            one(at(args[1], Base::At(args[0] as i32), LastSymlink::Returned))
        } else {
            none
        },
        Syscall::Getdents => one(
            PathRequest {
                source: PathSource::CurrentDir,
                base: Base::At(args[0] as i32),
                follow: LastSymlink::Followed,
            },
        ),
        Syscall::Chdir => one(at(args[0], cwd, LastSymlink::Followed)),
        Syscall::Lstat => one(at(args[0], cwd, LastSymlink::Returned)),
        Syscall::Readlinkat => one(at(args[1], Base::At(args[0] as i32), LastSymlink::Returned)),
        Syscall::Stat => one(at(args[0], cwd, LastSymlink::Followed)),
        Syscall::Rmdir => if ok { one(at(args[0], cwd, LastSymlink::Returned)) } else { none },
        Syscall::Truncate => if ok { one(at(args[0], cwd, LastSymlink::Followed)) } else { none },
        Syscall::Rename => if ok {
            let mut v = one(at(args[0], cwd, LastSymlink::Returned));
            v.push(at(args[1], cwd, LastSymlink::Returned));
            assert(v@ =~= seq![req(args@[0], cwd, LastSymlink::Returned), req(args@[1], cwd, LastSymlink::Returned)]);
            v
        } else {
            none
        },
        Syscall::Renameat | Syscall::Renameat2 => if ok {
            let mut v = one(at(args[1], Base::At(args[0] as i32), LastSymlink::Returned));
            v.push(at(args[3], Base::At(args[2] as i32), LastSymlink::Returned));
            assert(v@ =~= seq![
                req(args@[1], Base::At(args@[0] as i32), LastSymlink::Returned),
                req(args@[3], Base::At(args@[2] as i32), LastSymlink::Returned),
            ]);
            v
        } else {
            none
        },
    }
}

/// The access recorded for a traced call, if any.
pub fn access_of(
    s: Syscall,
    args: &[usize; 6],
    retval: Option<i32>,
    paths: &Vec<Vec<u8>>,
    checked: bool,
) -> (r: Option<Access>)
    requires
        paths@.len() == requests_for(s, args@, retval).len(),
    ensures
        match r {
            Some(a) => access_for(s, args@, retval, views(paths@), checked) == Some(shape_of(a)),
            None => access_for(s, args@, retval, views(paths@), checked) is None,
        },
{
    let ok = match retval {
        Some(v) => v == 0,
        None => false,
    };
    let ghost ps = views(paths@);
    match s {
        Syscall::Open | Syscall::OpenAt => {
            let succeeded = match retval {
                Some(v) => v >= 0,
                None => false,
            };
            if checked && succeeded {
                let flags: i32 = if s == Syscall::Open { args[1] as i32 } else { args[2] as i32 };
                let p = copy_bytes(paths[0].as_slice());
                assert(ps =~= seq![p@]);
                if flags & O_WRONLY != 0 || flags & O_RDWR != 0 {
                    Some(Access::Write(p))
                } else {
                    Some(Access::Read(p))
                }
            } else {
                None
            }
        },
        Syscall::Mkdir | Syscall::Mkdirat => if ok {
            let p = copy_bytes(paths[0].as_slice());
            assert(ps =~= seq![p@]);
            Some(Access::MakeDir(p))
        } else {
            None
        },
        Syscall::Futimesat | Syscall::Utimensat => if ok && args[1] != 0 {
            let p = copy_bytes(paths[0].as_slice());
            assert(ps =~= seq![p@]);
            Some(Access::Touch(p))
        } else {
            None
        },
        Syscall::Link | Syscall::Linkat => if ok {
            let from = copy_bytes(paths[0].as_slice());
            let to = copy_bytes(paths[1].as_slice());
            assert(ps =~= seq![from@, to@]);
            Some(Access::Link { from, to })
        } else {
            None
        },
        Syscall::Symlink | Syscall::Symlinkat => if ok {
            let p = copy_bytes(paths[0].as_slice());
            assert(ps =~= seq![p@]);
            Some(Access::Touch(p))
        } else {
            None
        },
        Syscall::Execve | Syscall::Execveat => if paths[0].len() != 0 {
            let p = copy_bytes(paths[0].as_slice());
            assert(ps =~= seq![p@]);
            Some(Access::Read(p))
        } else {
            None
        },
        Syscall::Unlink | Syscall::Unlinkat => if ok {
            let p = copy_bytes(paths[0].as_slice());
            assert(ps =~= seq![p@]);
            Some(Access::Delete(p))
        } else {
            None
        },
        Syscall::Getdents => if ok {
            let p = copy_bytes(paths[0].as_slice());
            assert(ps =~= seq![p@]);
            Some(Access::ListDir(p))
        } else {
            None
        },
        Syscall::Chdir => None,
        Syscall::Lstat | Syscall::Stat => if checked {
            let p = copy_bytes(paths[0].as_slice());
            assert(ps =~= seq![p@]);
            Some(Access::Read(p))
        } else {
            None
        },
        Syscall::Readlinkat => {
            let succeeded = match retval {
                Some(v) => v >= 0,
                None => false,
            };
            if succeeded {
                let p = copy_bytes(paths[0].as_slice());
                assert(ps =~= seq![p@]);
                Some(Access::Read(p))
            } else {
                None
            }
        },
        Syscall::Rmdir => if ok {
            let p = copy_bytes(paths[0].as_slice());
            assert(ps =~= seq![p@]);
            Some(Access::Delete(p))
        } else {
            None
        },
        Syscall::Truncate => if ok {
            let p = copy_bytes(paths[0].as_slice());
            assert(ps =~= seq![p@]);
            Some(Access::Touch(p))
        } else {
            None
        },
        Syscall::Rename | Syscall::Renameat | Syscall::Renameat2 => if ok {
            let from = copy_bytes(paths[0].as_slice());
            let to = copy_bytes(paths[1].as_slice());
            assert(ps =~= seq![from@, to@]);
            Some(Access::Rename { from, to })
        } else {
            None
        },
    }
}

/// Where one traced call stands.
#[derive(Debug, Clone, Copy, PartialEq, Eq, Structural)]
pub enum Phase {
    /// The tracer waits for the call to return.
    Wait,
    /// The tracer reads and resolves this path.
    Resolve(PathRequest),
    /// The tracer checks the type of the file at the first resolved path.
    Check(FileCheck),
    /// The tracer records the access, if any.
    Finish,
}

/// Where a call of family `s` with arguments `args` stands, once the
/// return value `retval` is known (if waited for), `n` paths are
/// resolved and the file check came out `checked` (if made).
pub open spec fn phase_of(s: Syscall, args: Seq<usize>, retval: Option<i32>, n: nat, checked: Option<bool>) -> Phase {
    let w = return_wait_of(s);
    if w == ReturnWait::BeforePaths && retval is None {
        Phase::Wait
    } else if n < requests_for(s, args, retval).len() {
        Phase::Resolve(requests_for(s, args, retval)[n as int])
    } else if w == ReturnWait::AfterPaths && retval is None {
        Phase::Wait
    } else if checked is None && file_check_of(s) != FileCheck::Nothing && n > 0 {
        Phase::Check(file_check_of(s))
    } else {
        Phase::Finish
    }
}

/// The outcome of the file check: false when none was made.
pub open spec fn check_outcome(checked: Option<bool>) -> bool {
    match checked {
        Some(b) => b,
        None => false,
    }
}

/// What the tracer does next for a traced call.
pub enum CallAction {
    /// Wait for the call to return, and hand in the value it returned.
    WaitForReturn,
    /// Read the path (from the tracee, or `.`), resolve it, and hand it in.
    Resolve(PathRequest),
    /// Check the type of the file at this path, and hand in the answer.
    Check(FileCheck, Vec<u8>),
    /// The call is done: record this access, if any.
    Finish(Option<Access>),
}

proof fn lemma_requests_without_gate(s: Syscall, args: Seq<usize>, a: Option<i32>, b: Option<i32>)
    requires
        return_wait_of(s) != ReturnWait::BeforePaths,
    ensures
        requests_for(s, args, a) == requests_for(s, args, b),
{
}

/// One traced call, from the stop at its entry to the access it records.
pub struct TracedCall {
    family: Syscall,
    args: [usize; 6],
    retval: Option<i32>,
    paths: Vec<Vec<u8>>,
    checked: Option<bool>,
}

impl TracedCall {
    /// The call's family.
    pub closed spec fn spec_family(&self) -> Syscall {
        self.family
    }

    /// The call's arguments.
    pub closed spec fn spec_args(&self) -> Seq<usize> {
        self.args@
    }

    /// The value the call returned, once waited for.
    pub closed spec fn spec_retval(&self) -> Option<i32> {
        self.retval
    }

    /// The paths resolved so far, in the order requested.
    pub closed spec fn spec_paths(&self) -> Seq<Seq<u8>> {
        views(self.paths@)
    }

    /// The outcome of the file check, once made.
    pub closed spec fn spec_checked(&self) -> Option<bool> {
        self.checked
    }

    /// Where the call stands.
    pub open spec fn phase(&self) -> Phase {
        phase_of(self.spec_family(), self.spec_args(), self.spec_retval(), self.spec_paths().len(), self.spec_checked())
    }

    /// Paths are resolved only once the requests are fixed, and never
    /// more than requested; the check comes after all of them.
    pub closed spec fn wf(&self) -> bool {
        let n = self.paths@.len();
        let reqs = requests_for(self.family, self.args@, self.retval);
        &&& self.args@.len() == 6
        &&& n <= reqs.len()
        &&& (return_wait_of(self.family) == ReturnWait::BeforePaths && self.retval is None) ==> n == 0
        &&& return_wait_of(self.family) == ReturnWait::Never ==> self.retval is None
        &&& self.checked is Some ==> (n == reqs.len() && n > 0 && file_check_of(self.family) != FileCheck::Nothing
            && (return_wait_of(self.family) == ReturnWait::Never || self.retval is Some))
    }

    /// A call of family `s` stopped at its entry with arguments `args`.
    pub fn new(s: Syscall, args: [usize; 6]) -> (c: TracedCall)
        ensures
            c.wf(),
            c.spec_family() == s,
            c.spec_args() == args@,
            c.spec_retval() is None,
            c.spec_paths() == Seq::<Seq<u8>>::empty(),
            c.spec_checked() is None,
    {
        let c = TracedCall { family: s, args, retval: None, paths: Vec::new(), checked: None };
        assert(c.spec_paths() =~= Seq::<Seq<u8>>::empty());
        c
    }

    /// What the tracer does next: wait for the return before the paths
    /// when the family gates its paths on it, then resolve each requested
    /// path in turn, then wait when the family waits after its paths, then
    /// check the first path's file type when the family asks for it, and
    /// at last record the access that all of these determine.
    pub fn next(&self) -> (a: CallAction)
        requires
            self.wf(),
        ensures
            match self.phase() {
                Phase::Wait => a is WaitForReturn,
                Phase::Resolve(r) => a == CallAction::Resolve(r),
                Phase::Check(k) => a matches CallAction::Check(k2, p) && k2 == k && p@ == self.spec_paths()[0],
                Phase::Finish => a matches CallAction::Finish(acc) && match acc {
                    Some(x) => access_for(
                        self.spec_family(),
                        self.spec_args(),
                        self.spec_retval(),
                        self.spec_paths(),
                        check_outcome(self.spec_checked()),
                    ) == Some(shape_of(x)),
                    None => access_for(
                        self.spec_family(),
                        self.spec_args(),
                        self.spec_retval(),
                        self.spec_paths(),
                        check_outcome(self.spec_checked()),
                    ) is None,
                },
            },
    {
        let w = self.family.return_wait();
        if w == ReturnWait::BeforePaths && self.retval.is_none() {
            return CallAction::WaitForReturn;
        }
        let reqs = path_requests(self.family, &self.args, self.retval);
        if self.paths.len() < reqs.len() {
            return CallAction::Resolve(reqs[self.paths.len()]);
        }
        if w == ReturnWait::AfterPaths && self.retval.is_none() {
            return CallAction::WaitForReturn;
        }
        let k = self.family.file_check();
        if self.checked.is_none() && k != FileCheck::Nothing && self.paths.len() > 0 {
            return CallAction::Check(k, copy_bytes(self.paths[0].as_slice()));
        }
        let ok = match self.checked {
            Some(b) => b,
            None => false,
        };
        proof {
            if return_wait_of(self.family) == ReturnWait::AfterPaths {
                assert(self.retval is Some);
            }
        }
        CallAction::Finish(access_of(self.family, &self.args, self.retval, &self.paths, ok))
    }

    /// The call returned `v`.
    pub fn returned(&mut self, v: i32)
        requires
            old(self).wf(),
            old(self).phase() == Phase::Wait,
        ensures
            final(self).wf(),
            final(self).spec_retval() == Some(v),
            final(self).spec_family() == old(self).spec_family(),
            final(self).spec_args() == old(self).spec_args(),
            final(self).spec_paths() == old(self).spec_paths(),
            final(self).spec_checked() == old(self).spec_checked(),
    {
        proof {
            if return_wait_of(self.family) != ReturnWait::BeforePaths {
                lemma_requests_without_gate(self.family, self.args@, None, Some(v));
            }
        }
        self.retval = Some(v);
    }

    /// The requested path resolved to `p`.
    pub fn resolved(&mut self, p: Vec<u8>)
        requires
            old(self).wf(),
            old(self).phase() is Resolve,
        ensures
            final(self).wf(),
            final(self).spec_paths() == old(self).spec_paths().push(p@),
            final(self).spec_retval() == old(self).spec_retval(),
            final(self).spec_family() == old(self).spec_family(),
            final(self).spec_args() == old(self).spec_args(),
            final(self).spec_checked() == old(self).spec_checked(),
    {
        let ghost p0 = views(self.paths@);
        let ghost pv = p@;
        self.paths.push(p);
        assert(views(self.paths@) =~= p0.push(pv));
    }

    /// The file check came out `ok`.
    pub fn checked_file(&mut self, ok: bool)
        requires
            old(self).wf(),
            old(self).phase() is Check,
        ensures
            final(self).wf(),
            final(self).spec_checked() == Some(ok),
            final(self).spec_retval() == old(self).spec_retval(),
            final(self).spec_family() == old(self).spec_family(),
            final(self).spec_args() == old(self).spec_args(),
            final(self).spec_paths() == old(self).spec_paths(),
    {
        self.checked = Some(ok);
    }

    /// The call's family.
    pub fn family(&self) -> (s: Syscall)
        ensures
            s == self.spec_family(),
    {
        self.family
    }
}

/// A call whose family checks the type of its file (open, openat, stat,
/// lstat) asks for that check on its first path as soon as every
/// requested path is resolved and, for a family that waits for the
/// return value, that value is known; families that are never waited
/// for (stat, lstat) are checked without one.
pub proof fn law_checked_families_check_first_path(s: Syscall, args: Seq<usize>, retval: Option<i32>)
    requires
        file_check_of(s) != FileCheck::Nothing,
        requests_for(s, args, retval).len() > 0,
        retval is Some || return_wait_of(s) == ReturnWait::Never,
    ensures
        phase_of(s, args, retval, requests_for(s, args, retval).len(), None) == Phase::Check(file_check_of(s)),
{
}

/// A stat or lstat is checked without waiting for its return value, on
/// its one path; a path that passes the check (a regular file or a
/// symlink) is reported as read, one that fails is not reported.
pub proof fn law_stat_reads_checked_file(args: Seq<usize>, p: Seq<u8>)
    ensures
        phase_of(Syscall::Stat, args, None, 0, None) is Resolve,
        phase_of(Syscall::Stat, args, None, 1, None) == Phase::Check(FileCheck::LinkOrFileFollowed),
        phase_of(Syscall::Stat, args, None, 1, Some(true)) == Phase::Finish,
        access_for(Syscall::Stat, args, None, seq![p], true) == Some((AccessKind::Read, seq![p])),
        access_for(Syscall::Stat, args, None, seq![p], false) is None,
        phase_of(Syscall::Lstat, args, None, 0, None) is Resolve,
        phase_of(Syscall::Lstat, args, None, 1, None) == Phase::Check(FileCheck::LinkOrFileHere),
        phase_of(Syscall::Lstat, args, None, 1, Some(true)) == Phase::Finish,
        access_for(Syscall::Lstat, args, None, seq![p], true) == Some((AccessKind::Read, seq![p])),
        access_for(Syscall::Lstat, args, None, seq![p], false) is None,
{
}

/// A successful, checked open or openat records a write exactly when the
/// access mode in its flags (the low two bits) is not read-only, and a
/// read otherwise; the flags are the second argument of open and the
/// third of openat, and nothing else decides.
pub proof fn law_open_writes_by_access_mode(s: Syscall, args: Seq<usize>, r: i32, paths: Seq<Seq<u8>>)
    requires
        s == Syscall::Open || s == Syscall::OpenAt,
        args.len() == 6,
        r >= 0,
    ensures
        access_for(s, args, Some(r), paths, true) == Some((
            if ((if s == Syscall::Open { args[1] } else { args[2] }) as i32) & 3 != 0 {
                AccessKind::Write
            } else {
                AccessKind::Read
            },
            paths,
        )),
        access_for(s, args, Some(r), paths, false) is None,
        access_for(s, args, Some(-1i32), paths, true) is None,
{
    let f: i32 = (if s == Syscall::Open { args[1] } else { args[2] }) as i32;
    assert((f & 1 != 0 || f & 2 != 0) <==> f & 3 != 0) by (bit_vector);
}

/// An open and an openat with the same flags record the same kind of
/// access.
pub proof fn law_open_and_openat_agree(a: Seq<usize>, b: Seq<usize>, r: i32, paths: Seq<Seq<u8>>, checked: bool)
    requires
        a.len() == 6,
        b.len() == 6,
        a[1] == b[2],
    ensures
        access_for(Syscall::Open, a, Some(r), paths, checked) == access_for(Syscall::OpenAt, b, Some(r), paths, checked),
{
}

/// The program an exec runs is found through its symlinks: execve asks
/// for its first argument against the working directory, execveat for
/// its second against the descriptor in its first, both with the last
/// symlink followed, whatever the call returned.
pub proof fn law_exec_follows_symlinks(args: Seq<usize>, r: Option<i32>)
    requires
        args.len() == 6,
    ensures
        requests_for(Syscall::Execve, args, r) == seq![
            PathRequest { source: PathSource::Tracee(args[0]), base: Base::At(AT_FDCWD), follow: LastSymlink::Followed },
        ],
        requests_for(Syscall::Execveat, args, r) == seq![
            PathRequest { source: PathSource::Tracee(args[1]), base: Base::At(args[0] as i32), follow: LastSymlink::Followed },
        ],
{
}

/// An access records the resolved paths themselves, never others.
pub proof fn law_access_names_resolved_paths(
    s: Syscall,
    args: Seq<usize>,
    retval: Option<i32>,
    paths: Seq<Seq<u8>>,
    checked: bool,
)
    requires
        args.len() == 6,
    ensures
        access_for(s, args, retval, paths, checked) matches Some((k, ps)) ==> ps == paths,
{
}

/// A call that the tracer waited for and that failed (returned a negative
/// value) records nothing.
pub proof fn law_failed_calls_record_nothing(s: Syscall, args: Seq<usize>, v: i32, paths: Seq<Seq<u8>>, checked: bool)
    requires
        args.len() == 6,
        return_wait_of(s) != ReturnWait::Never,
        v < 0,
    ensures
        access_for(s, args, Some(v), paths, checked) is None,
{
}

/// Each kind of access comes only from the calls that make it: a write
/// from an open, a created directory from a mkdir, a listing from
/// getdents, a deletion from unlink or rmdir, a link from link, a rename
/// from the rename calls.
pub proof fn law_access_kinds_come_from_their_calls(
    s: Syscall,
    args: Seq<usize>,
    retval: Option<i32>,
    paths: Seq<Seq<u8>>,
    checked: bool,
)
    requires
        args.len() == 6,
    ensures
        access_for(s, args, retval, paths, checked) matches Some((AccessKind::Write, _))
            ==> s == Syscall::Open || s == Syscall::OpenAt,
        access_for(s, args, retval, paths, checked) matches Some((AccessKind::MakeDir, _))
            ==> s == Syscall::Mkdir || s == Syscall::Mkdirat,
        access_for(s, args, retval, paths, checked) matches Some((AccessKind::ListDir, _)) ==> s == Syscall::Getdents,
        access_for(s, args, retval, paths, checked) matches Some((AccessKind::Delete, _))
            ==> s == Syscall::Unlink || s == Syscall::Unlinkat || s == Syscall::Rmdir,
        access_for(s, args, retval, paths, checked) matches Some((AccessKind::Link, _))
            ==> s == Syscall::Link || s == Syscall::Linkat,
        access_for(s, args, retval, paths, checked) matches Some((AccessKind::Rename, _))
            ==> s == Syscall::Rename || s == Syscall::Renameat || s == Syscall::Renameat2,
        s == Syscall::Chdir ==> access_for(s, args, retval, paths, checked) is None,
{
}

} // verus!
