use bigbro::command::{ChildFd, Std};
use bigbro::killer::{cvt, signal_outcome, SignalRequest};
use bigbro::{Command, Killer, Stdio};

fn env_of(c: &Command, parent: &[(&str, &str)]) -> Vec<(String, String)> {
    let parent: Vec<(Vec<u8>, Vec<u8>)> =
        parent.iter().map(|(k, v)| (k.as_bytes().to_vec(), v.as_bytes().to_vec())).collect();
    let mut r: Vec<(String, String)> = c
        .child_environment(&parent)
        .into_iter()
        .map(|(k, v)| (String::from_utf8(k).unwrap(), String::from_utf8(v).unwrap()))
        .collect();
    r.sort();
    r
}

fn pairs(p: &[(&str, &str)]) -> Vec<(String, String)> {
    p.iter().map(|(k, v)| (k.to_string(), v.to_string())).collect()
}

#[test]
fn arguments_in_order() {
    let mut c = Command::new(b"echo");
    c.arg(b"-n").arg(b"hello");
    c.args(&vec![b"a".to_vec(), b"b".to_vec()]);
    assert_eq!(c.argv(), vec![b"echo".to_vec(), b"-n".to_vec(), b"hello".to_vec(), b"a".to_vec(), b"b".to_vec()]);
}

#[test]
fn working_directory() {
    let mut c = Command::new(b"ls");
    assert_eq!(c.working_dir(), None);
    c.current_dir(b"/tmp");
    assert_eq!(c.working_dir(), Some(b"/tmp".to_vec()));
}

#[test]
fn inherited_environment() {
    let c = Command::new(b"env");
    assert_eq!(env_of(&c, &[("A", "1"), ("B", "2")]), pairs(&[("A", "1"), ("B", "2")]));
}

#[test]
fn env_sets_and_replaces() {
    let mut c = Command::new(b"sh");
    c.env(b"CFLAGS", b"--coverage");
    assert_eq!(env_of(&c, &[("CFLAGS", "-O2"), ("X", "y")]), pairs(&[("CFLAGS", "--coverage"), ("X", "y")]));
}

#[test]
fn env_remove_drops_variable() {
    let mut c = Command::new(b"sh");
    c.env(b"A", b"1").env_remove(b"A").env_remove(b"B");
    assert_eq!(env_of(&c, &[("A", "0"), ("B", "2"), ("C", "3")]), pairs(&[("C", "3")]));
    c.env(b"B", b"back");
    assert_eq!(env_of(&c, &[("A", "0"), ("B", "2"), ("C", "3")]), pairs(&[("B", "back"), ("C", "3")]));
}

#[test]
fn env_clear_then_set() {
    let mut c = Command::new(b"env");
    c.env(b"OLD", b"x").env_clear().env(b"FOO", b"foo");
    assert_eq!(env_of(&c, &[("HOME", "/root"), ("PATH", "/bin")]), pairs(&[("FOO", "foo")]));
}

#[test]
fn envs_in_order() {
    let mut c = Command::new(b"env");
    c.envs(&vec![(b"A".to_vec(), b"1".to_vec()), (b"A".to_vec(), b"2".to_vec())]);
    assert_eq!(env_of(&c, &[]), pairs(&[("A", "2")]));
}

#[test]
fn parent_duplicates_last_wins() {
    let c = Command::new(b"env");
    assert_eq!(env_of(&c, &[("A", "1"), ("A", "2")]), pairs(&[("A", "2")]));
}

#[test]
fn saved_output() {
    let mut c = Command::new(b"echo");
    c.save_stdouterr(Ok(7));
    assert!(!c.errored());
    assert_eq!(c.child_fds(), (ChildFd::Inherit, ChildFd::Use(7), ChildFd::Use(7)));
    assert_eq!(c.fds_to_close(None, Some(7), Some(7)), Vec::<i32>::new());
    assert_eq!(c.saved_stdout(Some(7)), Some(7));
}

#[test]
fn output_file_error_is_kept() {
    let mut c = Command::new(b"echo");
    c.log_stdouterr(Err(13));
    assert!(c.errored());
    c.save_stdouterr(Ok(8));
    assert_eq!(c.assert_no_error(), Err(13));
    assert_eq!(c.assert_no_error(), Ok(()));
    assert_eq!(c.saved_stdout(Some(1)), None);
}

#[test]
fn stream_plans() {
    let mut c = Command::new(b"ls");
    c.stdin(Stdio::null()).stdout(Stdio::from_descriptor(1)).stderr(Stdio::from_descriptor(9));
    assert_eq!(c.child_fds(), (ChildFd::OpenNull, ChildFd::Duplicate(1), ChildFd::Use(9)));
    assert_eq!(c.fds_to_close(Some(5), Some(6), Some(9)), vec![5, 6, 9]);
    c.stdin(Stdio::inherit());
    assert_eq!(c.fds_to_close(None, Some(6), Some(6)), vec![6]);
    let _ = Std::MakePipe;
}

#[test]
fn piped_streams_get_pipes() {
    let mut c = Command::new(b"cat");
    c.stdin(Stdio::piped());
    assert_eq!(c.child_fds(), (ChildFd::PipeReadEnd, ChildFd::Inherit, ChildFd::Inherit));
    c.stdout(Stdio::piped()).stderr(Stdio::piped());
    assert_eq!(c.child_fds(), (ChildFd::PipeReadEnd, ChildFd::PipeWriteEnd, ChildFd::PipeWriteEnd));
    // The child's ends are closed in the parent once the child has started.
    assert_eq!(c.fds_to_close(Some(3), Some(5), Some(7)), vec![3, 5, 7]);
    assert_eq!(c.saved_stdout(Some(5)), None);
}

#[test]
fn blind_flag() {
    let mut c = Command::new(b"ls");
    assert!(!c.is_blind());
    c.blind(true);
    assert!(c.is_blind());
}

#[test]
fn killer_signals() {
    let k = Killer::new(321);
    assert_eq!(k.pid(), 321);
    assert_eq!(k.kill(), SignalRequest { pid: 321, signal: libc::SIGKILL });
    assert_eq!(k.terminate(), SignalRequest { pid: 321, signal: libc::SIGTERM });
    assert_eq!(signal_outcome(0, 0), Ok(()));
    assert_eq!(signal_outcome(-1, libc::ESRCH), Err(libc::ESRCH));
    assert_eq!(cvt(-1, 12), Err(12));
    assert_eq!(cvt(5, 12), Ok(5));
}
