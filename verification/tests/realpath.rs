use std::collections::HashMap;

use bigbro::realpath::{LastSymlink, RealpathWalk};
use bigbro::trace::{resolve_from_base, resolve_start, Base, ResolveStart, AT_FDCWD};
use bigbro::Status;

/// Runs a walk to its end against a table of symlinks, as the tracer does
/// against the file system.
fn finish(mut w: RealpathWalk, links: &HashMap<Vec<u8>, Vec<u8>>, st: &mut Status) -> Vec<u8> {
    let mut steps = 0;
    while let Some(q) = w.advance() {
        steps += 1;
        assert!(steps < 1000, "symlink loop");
        if let Some(t) = links.get(&q) {
            st.follow_link(&mut w, t);
        }
    }
    w.path()
}

fn walk(path: &str, follow: LastSymlink, links: &[(&str, &str)]) -> (String, Vec<String>) {
    let table: HashMap<Vec<u8>, Vec<u8>> =
        links.iter().map(|(a, b)| (a.as_bytes().to_vec(), b.as_bytes().to_vec())).collect();
    let mut st = Status::started(None);
    let w = RealpathWalk::new(bigbro::paths::components(path.as_bytes()), follow);
    let r = finish(w, &table, &mut st);
    let mut reads: Vec<String> = st
        .read_from_files()
        .to_vec()
        .into_iter()
        .map(|p| String::from_utf8(p).unwrap())
        .collect();
    reads.sort();
    (String::from_utf8(r).unwrap(), reads)
}

#[test]
fn plain_path_is_normalised() {
    assert_eq!(walk("/a/b/../c/./d", LastSymlink::Followed, &[]), ("/a/c/d".to_string(), vec![]));
    assert_eq!(walk("/../..", LastSymlink::Followed, &[]), ("/".to_string(), vec![]));
    assert_eq!(walk("rel/x", LastSymlink::Returned, &[]), ("/rel/x".to_string(), vec![]));
}

#[test]
fn absolute_link_restarts_at_root() {
    assert_eq!(
        walk("/a/c", LastSymlink::Followed, &[("/a", "/x/y")]),
        ("/x/y/c".to_string(), vec!["/a".to_string()])
    );
}

#[test]
fn relative_link_resolves_from_its_directory() {
    assert_eq!(
        walk("/x/l/f", LastSymlink::Followed, &[("/x/l", "../z")]),
        ("/z/f".to_string(), vec!["/x/l".to_string()])
    );
}

#[test]
fn last_link_followed_or_returned() {
    assert_eq!(
        walk("/x/l", LastSymlink::Returned, &[("/x/l", "../z")]),
        ("/x/l".to_string(), vec![])
    );
    assert_eq!(
        walk("/x/l", LastSymlink::Followed, &[("/x/l", "../z")]),
        ("/z".to_string(), vec!["/x/l".to_string()])
    );
}

#[test]
fn chain_of_links() {
    assert_eq!(
        walk("/bin/sh", LastSymlink::Followed, &[("/bin", "usr/bin"), ("/usr/bin/sh", "dash")]),
        ("/usr/bin/dash".to_string(), vec!["/bin".to_string(), "/usr/bin/sh".to_string()])
    );
}

#[test]
fn start_of_empty_path() {
    match resolve_start(10, Base::At(AT_FDCWD), b"", LastSymlink::Followed) {
        ResolveStart::Done(p) => assert!(p.is_empty()),
        _ => panic!("empty path is resolved at once"),
    }
}

#[test]
fn start_of_relative_path_reads_cwd_or_fd() {
    match resolve_start(123, Base::At(AT_FDCWD), b"x", LastSymlink::Followed) {
        ResolveStart::ReadBase(l) => assert_eq!(l, b"/proc/123/cwd".to_vec()),
        _ => panic!("relative path needs its base"),
    }
    match resolve_start(123, Base::At(5), b"x", LastSymlink::Followed) {
        ResolveStart::ReadBase(l) => assert_eq!(l, b"/proc/123/fd/5".to_vec()),
        _ => panic!("relative path needs its base"),
    }
}

#[test]
fn proc_self_names_the_tracee() {
    let mut st = Status::started(None);
    match resolve_start(77, Base::At(AT_FDCWD), b"/proc/self/fd/3", LastSymlink::Returned) {
        ResolveStart::Walk(w) => {
            assert_eq!(finish(w, &HashMap::new(), &mut st), b"/proc/77/fd/3".to_vec());
        },
        _ => panic!("absolute path is walked"),
    }
    match resolve_start(77, Base::At(AT_FDCWD), b"/proc/selfish", LastSymlink::Returned) {
        ResolveStart::Walk(w) => {
            assert_eq!(finish(w, &HashMap::new(), &mut st), b"/proc/selfish".to_vec());
        },
        _ => panic!("absolute path is walked"),
    }
}

#[test]
fn lstat_path_walks_from_root() {
    let mut st = Status::started(None);
    match resolve_start(1, Base::Root, b"a/b", LastSymlink::Returned) {
        ResolveStart::Walk(w) => assert_eq!(finish(w, &HashMap::new(), &mut st), b"/a/b".to_vec()),
        _ => panic!("walked from the root"),
    }
}

#[test]
fn base_joins_relative_path() {
    let mut st = Status::started(None);
    match resolve_from_base(Some(b"/home/u"), b"src/../lib.rs", LastSymlink::Followed) {
        ResolveStart::Walk(w) => {
            assert_eq!(finish(w, &HashMap::new(), &mut st), b"/home/u/lib.rs".to_vec())
        },
        _ => panic!("walked"),
    }
    match resolve_from_base(None, b"x", LastSymlink::Followed) {
        ResolveStart::Done(p) => assert!(p.is_empty()),
        _ => panic!("no base, no path"),
    }
}
