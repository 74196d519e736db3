use bigbro::syscall::{from_index, trace_rules, Syscall, NUM_SYSCALLS};

#[test]
fn names_of_families() {
    assert_eq!(Syscall::Open.tostr(), "open");
    assert_eq!(Syscall::Lstat.tostr(), "lstat/readlink");
    assert_eq!(Syscall::Utimensat.tostr(), "utimensat");
    assert_eq!(Syscall::Getdents.tostr(), "getdents");
    assert_eq!(Syscall::Renameat2.tostr(), "renameat2");
    assert_eq!(Syscall::Rmdir.tostr(), "rmdir");
}

#[test]
fn index_lookup() {
    assert_eq!(from_index(0), Some(Syscall::Open));
    assert_eq!(from_index(2), Some(Syscall::Getdents));
    assert_eq!(from_index(10), Some(Syscall::Chdir));
    assert_eq!(from_index(18), Some(Syscall::Utimensat));
    assert_eq!(from_index(19), Some(Syscall::Rmdir));
    assert_eq!(from_index(23), Some(Syscall::Renameat2));
    assert_eq!(from_index(24), None);
    assert_eq!(from_index(usize::MAX), None);
    assert_eq!(NUM_SYSCALLS, 24);
}

#[test]
fn rules_report_their_family() {
    let rules = trace_rules();
    assert_eq!(rules.len(), 29);
    for r in &rules {
        let s = from_index(r.data as usize).unwrap();
        assert!(s.seccomp().contains(&r.name));
    }
    for i in 0..NUM_SYSCALLS {
        let s = from_index(i).unwrap();
        for name in s.seccomp() {
            assert!(rules.iter().any(|r| r.name == name && r.data as usize == i));
        }
    }
}

#[test]
fn rules_cover_32_bit_variants() {
    let rules = trace_rules();
    for (name, family) in [
        ("lstat64", Syscall::Lstat),
        ("stat64", Syscall::Stat),
        ("getdents64", Syscall::Getdents),
        ("truncate64", Syscall::Truncate),
        ("readlink", Syscall::Lstat),
    ] {
        let r = rules.iter().find(|r| r.name == name).unwrap();
        assert_eq!(from_index(r.data as usize), Some(family));
    }
}

#[test]
fn seccomp_names_of_families() {
    let expect: Vec<(Syscall, Vec<&str>)> = vec![
        (Syscall::Open, vec!["open"]),
        (Syscall::OpenAt, vec!["openat"]),
        (Syscall::Getdents, vec!["getdents", "getdents64"]),
        (Syscall::Lstat, vec!["lstat", "lstat64", "readlink"]),
        (Syscall::Stat, vec!["stat", "stat64"]),
        (Syscall::Readlinkat, vec!["readlinkat"]),
        (Syscall::Mkdir, vec!["mkdir"]),
        (Syscall::Mkdirat, vec!["mkdirat"]),
        (Syscall::Link, vec!["link"]),
        (Syscall::Linkat, vec!["linkat"]),
        (Syscall::Symlink, vec!["symlink"]),
        (Syscall::Symlinkat, vec!["symlinkat"]),
        (Syscall::Unlink, vec!["unlink"]),
        (Syscall::Unlinkat, vec!["unlinkat"]),
        (Syscall::Execve, vec!["execve"]),
        (Syscall::Execveat, vec!["execveat"]),
        (Syscall::Chdir, vec!["chdir"]),
        (Syscall::Futimesat, vec!["futimesat"]),
        (Syscall::Utimensat, vec!["utimensat"]),
        (Syscall::Rmdir, vec!["rmdir"]),
        (Syscall::Truncate, vec!["truncate", "truncate64"]),
        (Syscall::Rename, vec!["rename"]),
        (Syscall::Renameat, vec!["renameat"]),
        (Syscall::Renameat2, vec!["renameat2"]),
    ];
    for (s, names) in expect {
        assert_eq!(s.seccomp(), names, "{}", s.tostr());
    }
}

#[test]
fn constants_match_libc() {
    assert_eq!(bigbro::trace::AT_FDCWD, libc::AT_FDCWD);
    assert_eq!(bigbro::trace::AT_SYMLINK_FOLLOW, libc::AT_SYMLINK_FOLLOW);
    assert_eq!(bigbro::trace::O_WRONLY, libc::O_WRONLY);
    assert_eq!(bigbro::trace::O_RDWR, libc::O_RDWR);
    assert_eq!(bigbro::wait_status::SIGTRAP, libc::SIGTRAP);
    assert_eq!(bigbro::wait_status::SIGCHLD, libc::SIGCHLD);
    assert_eq!(bigbro::wait_status::SIGVTALRM, libc::SIGVTALRM);
    assert_eq!(bigbro::wait_status::SIGSTOP, libc::SIGSTOP);
    assert_eq!(bigbro::wait_status::PTRACE_EVENT_FORK, libc::PTRACE_EVENT_FORK);
    assert_eq!(bigbro::wait_status::PTRACE_EVENT_VFORK, libc::PTRACE_EVENT_VFORK);
    assert_eq!(bigbro::wait_status::PTRACE_EVENT_CLONE, libc::PTRACE_EVENT_CLONE);
    assert_eq!(bigbro::wait_status::PTRACE_EVENT_EXEC, libc::PTRACE_EVENT_EXEC);
    assert_eq!(bigbro::wait_status::PTRACE_EVENT_SECCOMP, libc::PTRACE_EVENT_SECCOMP);
    assert_eq!(bigbro::killer::SIGKILL, libc::SIGKILL);
    assert_eq!(bigbro::killer::SIGTERM, libc::SIGTERM);
    assert_eq!(bigbro::command::STDERR_FILENO, libc::STDERR_FILENO);
}

#[test]
fn profiling_stops_without_effect() {
    bigbro::stop_profiling();
}

#[test]
fn each_call_name_belongs_to_one_family() {
    let rules = trace_rules();
    for (k, r) in rules.iter().enumerate() {
        for other in &rules[k + 1..] {
            assert_ne!(r.name, other.name);
        }
    }
}
