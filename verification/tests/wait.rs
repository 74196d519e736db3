use bigbro::wait_status::{blind_exit_code, classify_wait, first_stop, FirstStop, WaitKind, WaitStep};

fn step(kind: WaitKind, keep_going: bool, exit: Option<i32>, signal: i32) -> WaitStep {
    WaitStep { kind, keep_going, exit, signal }
}

#[test]
fn traced_command_exits() {
    assert_eq!(classify_wait(3 << 8, 42, 42), step(WaitKind::Exited, false, Some(3 << 8), 0));
    assert_eq!(classify_wait(0, 42, 42), step(WaitKind::Exited, false, Some(0), 0));
    assert_eq!(classify_wait((3 << 8) | 0x10000, 42, 42), step(WaitKind::Exited, false, Some(3 << 8), 0));
}

#[test]
fn other_process_exits() {
    assert_eq!(classify_wait(3 << 8, 43, 42), step(WaitKind::Exited, true, None, 0));
}

#[test]
fn traced_command_killed() {
    assert_eq!(classify_wait(9, 42, 42), step(WaitKind::Signaled, false, Some(9), 0));
    assert_eq!(classify_wait(0x80 | 11, 42, 42), step(WaitKind::Signaled, false, Some(11), 0));
    assert_eq!(classify_wait(15, 7, 42), step(WaitKind::Signaled, true, None, 0));
}

#[test]
fn seccomp_stop() {
    let status = ((libc::SIGTRAP | (libc::PTRACE_EVENT_SECCOMP << 8)) << 8) | 0x7f;
    assert_eq!(classify_wait(status, 50, 42), step(WaitKind::SeccompStop, true, None, 0));
}

#[test]
fn fork_events() {
    let ev = |e: i32| ((libc::SIGTRAP | (e << 8)) << 8) | 0x7f;
    assert_eq!(classify_wait(ev(libc::PTRACE_EVENT_FORK), 42, 42).kind, WaitKind::Forked);
    assert_eq!(classify_wait(ev(libc::PTRACE_EVENT_VFORK), 42, 42).kind, WaitKind::VForked);
    assert_eq!(classify_wait(ev(libc::PTRACE_EVENT_CLONE), 42, 42).kind, WaitKind::Cloned);
    assert_eq!(classify_wait(ev(libc::PTRACE_EVENT_EXEC), 42, 42).kind, WaitKind::Execed);
    assert!(classify_wait(ev(libc::PTRACE_EVENT_EXEC), 42, 42).keep_going);
}

#[test]
fn stop_signals_are_forwarded() {
    let stop = |sig: i32| (sig << 8) | 0x7f;
    assert_eq!(classify_wait(stop(libc::SIGINT), 42, 42), step(WaitKind::Stopped, true, None, libc::SIGINT));
    assert_eq!(classify_wait(stop(libc::SIGCHLD), 42, 42), step(WaitKind::Stopped, true, None, 0));
    assert_eq!(classify_wait(stop(libc::SIGTRAP), 42, 42), step(WaitKind::Stopped, true, None, 0));
    assert_eq!(classify_wait(stop(libc::SIGVTALRM), 42, 42), step(WaitKind::Stopped, true, None, 0));
}

#[test]
fn continued_is_other() {
    assert_eq!(classify_wait(0xffff, 42, 42), step(WaitKind::Other, true, None, 0));
}

#[test]
fn blind_exit_codes() {
    assert_eq!(blind_exit_code(0), 0);
    assert_eq!(blind_exit_code(1 << 8), 1 << 8);
    assert_eq!(blind_exit_code(137 << 8), 137 << 8);
    assert_eq!(blind_exit_code(9), 9);
    assert_eq!(blind_exit_code(0xffff), -1);
}

#[test]
fn first_stops() {
    assert_eq!(first_stop((libc::SIGSTOP << 8) | 0x7f), FirstStop::Stopped);
    assert_eq!(first_stop(2 << 8), FirstStop::Exited(2 << 8));
}

#[test]
fn recorded_status_reads_back() {
    let exited = classify_wait(3 << 8, 1, 1).exit.unwrap();
    assert!(libc::WIFEXITED(exited));
    assert_eq!(libc::WEXITSTATUS(exited), 3);
    let ok = classify_wait(0, 1, 1).exit.unwrap();
    assert!(libc::WIFEXITED(ok) && libc::WEXITSTATUS(ok) == 0);
    let killed = classify_wait(9, 1, 1).exit.unwrap();
    assert!(!libc::WIFEXITED(killed));
    assert!(libc::WIFSIGNALED(killed));
    assert_eq!(libc::WTERMSIG(killed), 9);
    let blind = blind_exit_code(5 << 8);
    assert!(libc::WIFEXITED(blind) && libc::WEXITSTATUS(blind) == 5);
}

#[test]
fn blind_and_traced_record_the_same_ending() {
    for status in [0, 3 << 8, 255 << 8, 9, 15, 0x80 | 11] {
        assert_eq!(classify_wait(status, 42, 42).exit, Some(blind_exit_code(status)));
    }
}
