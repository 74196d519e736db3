use bigbro::realpath::LastSymlink;
use bigbro::status::Access;
use bigbro::syscall::Syscall;
use bigbro::trace::{
    access_of, path_requests, Base, CallAction, FileCheck, PathRequest, PathSource, ReturnWait, TracedCall, AT_FDCWD,
};

fn req(addr: usize, base: Base, follow: LastSymlink) -> PathRequest {
    PathRequest { source: PathSource::Tracee(addr), base, follow }
}

#[test]
fn waits() {
    assert_eq!(Syscall::Open.return_wait(), ReturnWait::BeforePaths);
    assert_eq!(Syscall::Getdents.return_wait(), ReturnWait::AfterPaths);
    assert_eq!(Syscall::Readlinkat.return_wait(), ReturnWait::AfterPaths);
    assert_eq!(Syscall::Execve.return_wait(), ReturnWait::Never);
    assert_eq!(Syscall::Stat.return_wait(), ReturnWait::Never);
    assert_eq!(Syscall::Unlinkat.return_wait(), ReturnWait::BeforePaths);
}

#[test]
fn file_checks() {
    assert_eq!(Syscall::OpenAt.file_check(), FileCheck::IsFile);
    assert_eq!(Syscall::Lstat.file_check(), FileCheck::LinkOrFileHere);
    assert_eq!(Syscall::Stat.file_check(), FileCheck::LinkOrFileFollowed);
    assert_eq!(Syscall::Mkdir.file_check(), FileCheck::Nothing);
}

#[test]
fn open_and_openat_requests() {
    let args = [0x1000, 0x41, 0, 0, 0, 0];
    assert_eq!(path_requests(Syscall::Open, &args, Some(3)), vec![req(0x1000, Base::At(AT_FDCWD), LastSymlink::Followed)]);
    let args = [7, 0x2000, 1, 0, 0, 0];
    assert_eq!(path_requests(Syscall::OpenAt, &args, Some(-2)), vec![req(0x2000, Base::At(7), LastSymlink::Followed)]);
}

#[test]
fn failed_calls_read_no_paths() {
    let args = [0x1000, 0x2000, 0, 0, 0, 0];
    assert!(path_requests(Syscall::Mkdir, &args, Some(-17)).is_empty());
    assert!(path_requests(Syscall::Link, &args, Some(-1)).is_empty());
    assert!(path_requests(Syscall::Unlink, &args, Some(-2)).is_empty());
    let args = [3, 0, 0, 0, 0, 0];
    assert!(path_requests(Syscall::Utimensat, &args, Some(0)).is_empty());
}

#[test]
fn link_requests() {
    let args = [0x10, 0x20, 0, 0, 0, 0];
    assert_eq!(
        path_requests(Syscall::Link, &args, Some(0)),
        vec![
            req(0x10, Base::At(AT_FDCWD), LastSymlink::Returned),
            req(0x20, Base::At(AT_FDCWD), LastSymlink::Returned)
        ]
    );
    let args = [3, 0x10, 4, 0x20, 0x400, 0];
    assert_eq!(
        path_requests(Syscall::Linkat, &args, Some(0)),
        vec![req(0x10, Base::At(3), LastSymlink::Followed), req(0x20, Base::At(4), LastSymlink::Followed)]
    );
}

#[test]
fn getdents_and_lstat_requests() {
    let args = [9, 0, 0, 0, 0, 0];
    assert_eq!(
        path_requests(Syscall::Getdents, &args, None),
        vec![PathRequest { source: PathSource::CurrentDir, base: Base::At(9), follow: LastSymlink::Followed }]
    );
    let args = [0x30, 0, 0, 0, 0, 0];
    assert_eq!(path_requests(Syscall::Lstat, &args, None), vec![req(0x30, Base::At(AT_FDCWD), LastSymlink::Returned)]);
    let args = [0x10, 5, 0x30, 0, 0, 0];
    assert_eq!(path_requests(Syscall::Symlinkat, &args, Some(0)), vec![req(0x30, Base::At(5), LastSymlink::Returned)]);
}

#[test]
fn deletions_do_not_follow_the_last_symlink() {
    let args = [0x40, 0, 0, 0, 0, 0];
    let cwd = Base::At(AT_FDCWD);
    assert_eq!(path_requests(Syscall::Unlink, &args, Some(0)), vec![req(0x40, cwd, LastSymlink::Returned)]);
    assert_eq!(path_requests(Syscall::Rmdir, &args, Some(0)), vec![req(0x40, cwd, LastSymlink::Returned)]);
    assert_eq!(path_requests(Syscall::Truncate, &args, Some(0)), vec![req(0x40, cwd, LastSymlink::Followed)]);
    let args = [7, 0x50, 0, 0, 0, 0];
    assert_eq!(path_requests(Syscall::Unlinkat, &args, Some(0)), vec![req(0x50, Base::At(7), LastSymlink::Returned)]);
}

fn paths(ps: &[&str]) -> Vec<Vec<u8>> {
    ps.iter().map(|p| p.as_bytes().to_vec()).collect()
}

fn is_read(a: Option<Access>, p: &str) -> bool {
    matches!(a, Some(Access::Read(q)) if q == p.as_bytes())
}

fn is_write(a: Option<Access>, p: &str) -> bool {
    matches!(a, Some(Access::Write(q)) if q == p.as_bytes())
}

#[test]
fn open_accesses() {
    let wr = [0x1000, libc::O_WRONLY as usize, 0, 0, 0, 0];
    let rw = [0x1000, libc::O_RDWR as usize, 0, 0, 0, 0];
    let rd = [0x1000, libc::O_RDONLY as usize, 0, 0, 0, 0];
    assert!(is_write(access_of(Syscall::Open, &wr, Some(3), &paths(&["/f"]), true), "/f"));
    assert!(is_write(access_of(Syscall::Open, &rw, Some(3), &paths(&["/f"]), true), "/f"));
    assert!(is_read(access_of(Syscall::Open, &rd, Some(0), &paths(&["/f"]), true), "/f"));
    assert!(access_of(Syscall::Open, &rd, Some(-2), &paths(&["/f"]), true).is_none());
    assert!(access_of(Syscall::Open, &rd, Some(3), &paths(&["/d"]), false).is_none());
    let at = [3, 0x1000, libc::O_WRONLY as usize, 0, 0, 0];
    assert!(is_write(access_of(Syscall::OpenAt, &at, Some(4), &paths(&["/g"]), true), "/g"));
}

#[test]
fn other_accesses() {
    let args = [0x10, 0x20, 0, 0, 0, 0];
    assert!(matches!(access_of(Syscall::Mkdir, &args, Some(0), &paths(&["/d"]), false), Some(Access::MakeDir(_))));
    assert!(matches!(access_of(Syscall::Unlink, &args, Some(0), &paths(&["/d"]), false), Some(Access::Delete(_))));
    assert!(matches!(access_of(Syscall::Symlink, &args, Some(0), &paths(&["/s"]), false), Some(Access::Touch(_))));
    assert!(matches!(access_of(Syscall::Futimesat, &args, Some(0), &paths(&["/s"]), false), Some(Access::Touch(_))));
    assert!(matches!(
        access_of(Syscall::Link, &args, Some(0), &paths(&["/a", "/b"]), false),
        Some(Access::Link { .. })
    ));
    assert!(matches!(access_of(Syscall::Getdents, &args, Some(0), &paths(&["/dir"]), false), Some(Access::ListDir(_))));
    assert!(access_of(Syscall::Getdents, &args, Some(64), &paths(&["/dir"]), false).is_none());
    assert!(access_of(Syscall::Chdir, &args, None, &paths(&["/dir"]), true).is_none());
    assert!(is_read(access_of(Syscall::Execve, &args, None, &paths(&["/bin/ls"]), false), "/bin/ls"));
    assert!(access_of(Syscall::Execve, &args, None, &paths(&[""]), false).is_none());
    assert!(is_read(access_of(Syscall::Stat, &args, None, &paths(&["/f"]), true), "/f"));
    assert!(access_of(Syscall::Lstat, &args, None, &paths(&["/f"]), false).is_none());
    assert!(is_read(access_of(Syscall::Readlinkat, &args, Some(0), &paths(&["/l"]), false), "/l"));
    assert!(is_read(access_of(Syscall::Readlinkat, &args, Some(12), &paths(&["/l"]), false), "/l"));
    assert!(access_of(Syscall::Readlinkat, &args, Some(-22), &paths(&["/l"]), false).is_none());
    assert!(matches!(access_of(Syscall::Rmdir, &args, Some(0), &paths(&["/d"]), false), Some(Access::Delete(_))));
    assert!(matches!(access_of(Syscall::Truncate, &args, Some(0), &paths(&["/f"]), false), Some(Access::Touch(_))));
    assert!(matches!(
        access_of(Syscall::Renameat2, &args, Some(0), &paths(&["/a", "/b"]), false),
        Some(Access::Rename { .. })
    ));
    assert!(access_of(Syscall::Rename, &args, Some(-1), &paths(&[]), false).is_none());
}

#[test]
fn rename_requests() {
    let args = [0x10, 0x20, 0, 0, 0, 0];
    assert_eq!(
        path_requests(Syscall::Rename, &args, Some(0)),
        vec![req(0x10, Base::At(AT_FDCWD), LastSymlink::Returned), req(0x20, Base::At(AT_FDCWD), LastSymlink::Returned)]
    );
    let args = [3, 0x10, 4, 0x20, 0, 0];
    assert_eq!(
        path_requests(Syscall::Renameat, &args, Some(0)),
        vec![req(0x10, Base::At(3), LastSymlink::Returned), req(0x20, Base::At(4), LastSymlink::Returned)]
    );
    assert!(path_requests(Syscall::Renameat2, &args, Some(-2)).is_empty());
}

#[test]
fn traced_open_for_writing() {
    let mut c = TracedCall::new(Syscall::Open, [0x1000, libc::O_WRONLY as usize, 0, 0, 0, 0]);
    assert!(matches!(c.next(), CallAction::WaitForReturn));
    c.returned(3);
    match c.next() {
        CallAction::Resolve(r) => assert_eq!(r, req(0x1000, Base::At(AT_FDCWD), LastSymlink::Followed)),
        _ => panic!("the path comes next"),
    }
    c.resolved(b"/tmp/out".to_vec());
    match c.next() {
        CallAction::Check(k, p) => {
            assert_eq!(k, FileCheck::IsFile);
            assert_eq!(p, b"/tmp/out".to_vec());
        },
        _ => panic!("the check comes next"),
    }
    c.checked_file(true);
    assert!(matches!(c.next(), CallAction::Finish(Some(Access::Write(p))) if p == b"/tmp/out".to_vec()));
}

#[test]
fn traced_getdents_waits_after_path() {
    let mut c = TracedCall::new(Syscall::Getdents, [5, 0, 0, 0, 0, 0]);
    assert!(matches!(c.next(), CallAction::Resolve(_)));
    c.resolved(b"/home".to_vec());
    assert!(matches!(c.next(), CallAction::WaitForReturn));
    c.returned(0);
    assert!(matches!(c.next(), CallAction::Finish(Some(Access::ListDir(p))) if p == b"/home".to_vec()));
}

#[test]
fn traced_failed_mkdir_reads_nothing() {
    let mut c = TracedCall::new(Syscall::Mkdir, [0x10, 0o755, 0, 0, 0, 0]);
    assert!(matches!(c.next(), CallAction::WaitForReturn));
    c.returned(-17);
    assert!(matches!(c.next(), CallAction::Finish(None)));
}

#[test]
fn traced_execve_never_waits() {
    let mut c = TracedCall::new(Syscall::Execve, [0x10, 0, 0, 0, 0, 0]);
    assert!(matches!(c.next(), CallAction::Resolve(_)));
    c.resolved(b"/bin/ls".to_vec());
    assert!(matches!(c.next(), CallAction::Finish(Some(Access::Read(_)))));
}
