//! Reading the status that `waitpid` reports for a traced process.

use vstd::prelude::*;

verus! {

/// `SIGTRAP`.
pub const SIGTRAP: i32 = 5;
/// `SIGCHLD`.
pub const SIGCHLD: i32 = 17;
/// `SIGVTALRM`.
pub const SIGVTALRM: i32 = 26;
/// `SIGSTOP`.
pub const SIGSTOP: i32 = 19;
/// The ptrace event of a `fork`.
pub const PTRACE_EVENT_FORK: i32 = 1;
/// The ptrace event of a `vfork`.
pub const PTRACE_EVENT_VFORK: i32 = 2;
/// The ptrace event of a `clone`.
pub const PTRACE_EVENT_CLONE: i32 = 3;
/// The ptrace event of an `exec`.
pub const PTRACE_EVENT_EXEC: i32 = 4;
/// The ptrace event of a seccomp trace rule.
pub const PTRACE_EVENT_SECCOMP: i32 = 7;

/// Did the process exit normally?
pub open spec fn exited(status: i32) -> bool {
    (status & 0x7f) == 0
}

/// The exit code of a process that exited normally.
pub open spec fn exit_status_of(status: i32) -> i32 {
    (status >> 8) & 0xff
}

/// Was the process killed by a signal?
pub open spec fn signaled(status: i32) -> bool {
    ((status & 0x7f) + 1) as i8 >= 2
}

/// The signal that killed the process.
pub open spec fn term_signal_of(status: i32) -> i32 {
    status & 0x7f
}

/// Is the process stopped?
pub open spec fn stopped(status: i32) -> bool {
    (status & 0xff) == 0x7f
}

/// The signal that stopped the process.
pub open spec fn stop_signal_of(status: i32) -> i32 {
    (status >> 8) & 0xff
}

/// `libc::WIFEXITED`: the low seven bits of the status are zero.
pub assume_specification[libc::WIFEXITED](status: libc::c_int) -> (r: bool)
    ensures
        r == exited(status),
;

/// `libc::WEXITSTATUS`: bits 8 to 15 of the status.
pub assume_specification[libc::WEXITSTATUS](status: libc::c_int) -> (r: libc::c_int)
    ensures
        r == exit_status_of(status),
;

/// `libc::WIFSIGNALED`: the low seven bits, plus one, are at least two
/// when read as a signed byte.
pub assume_specification[libc::WIFSIGNALED](status: libc::c_int) -> (r: bool)
    ensures
        r == signaled(status),
;

/// `libc::WTERMSIG`: the low seven bits of the status.
pub assume_specification[libc::WTERMSIG](status: libc::c_int) -> (r: libc::c_int)
    ensures
        r == term_signal_of(status),
;

/// `libc::WIFSTOPPED`: the low byte of the status is `0x7f`.
pub assume_specification[libc::WIFSTOPPED](status: libc::c_int) -> (r: bool)
    ensures
        r == stopped(status),
;

/// `libc::WSTOPSIG`: bits 8 to 15 of the status.
pub assume_specification[libc::WSTOPSIG](status: libc::c_int) -> (r: libc::c_int)
    ensures
        r == stop_signal_of(status),
;

/// What a wait for a traced process found.
#[derive(Debug, Clone, Copy, PartialEq, Eq, Structural)]
pub enum WaitKind {
    /// A seccomp trace rule stopped the process at a traced call.
    SeccompStop,
    /// The process exited.
    Exited,
    /// A signal killed the process.
    Signaled,
    /// The process forked.
    Forked,
    /// The process vforked.
    VForked,
    /// The process cloned.
    Cloned,
    /// The process called exec.
    Execed,
    /// A signal stopped the process.
    Stopped,
    /// Something else.
    Other,
}

/// What the tracer does after a wait.
#[derive(Debug, Clone, Copy, PartialEq, Eq, Structural)]
pub struct WaitStep {
    /// What the wait found.
    pub kind: WaitKind,
    /// Whether the trace goes on.
    pub keep_going: bool,
    /// The exit status to record, when the traced command ended.
    pub exit: Option<i32>,
    /// The signal to deliver when the stopped process is resumed.
    pub signal: i32,
}

/// The wait status of a process that exited with `code`, as
/// `ExitStatus::from_raw` reads it: the code in bits 8 to 15.
pub open spec fn exited_with(code: i32) -> i32 {
    (code * 256) as i32
}

/// The wait status of a process that a signal killed, as
/// `ExitStatus::from_raw` reads it: the signal number.
pub open spec fn killed_by(sig: i32) -> i32 {
    sig
}

/// Is the status the stop for the given ptrace event?
pub open spec fn event_stop(status: i32, event: i32) -> bool {
    status >> 8 == (SIGTRAP | (event << 8))
}

/// What the tracer does after a wait on process `child` returned
/// `status`, while tracing the command whose process is `pid`.
pub open spec fn wait_step(status: i32, child: i32, pid: i32) -> WaitStep {
    let go = WaitStep { kind: WaitKind::Other, keep_going: true, exit: None, signal: 0 };
    if event_stop(status, PTRACE_EVENT_SECCOMP) {
        WaitStep { kind: WaitKind::SeccompStop, ..go }
    } else if exited(status) {
        if child == pid {
            WaitStep { kind: WaitKind::Exited, keep_going: false, exit: Some(exited_with(exit_status_of(status))), signal: 0 }
        } else {
            WaitStep { kind: WaitKind::Exited, ..go }
        }
    } else if signaled(status) {
        if child == pid {
            WaitStep {
                kind: WaitKind::Signaled,
                keep_going: false,
                exit: Some(killed_by(term_signal_of(status))),
                signal: 0,
            }
        } else {
            WaitStep { kind: WaitKind::Signaled, ..go }
        }
    } else if stopped(status) && event_stop(status, PTRACE_EVENT_FORK) {
        WaitStep { kind: WaitKind::Forked, ..go }
    } else if stopped(status) && event_stop(status, PTRACE_EVENT_VFORK) {
        WaitStep { kind: WaitKind::VForked, ..go }
    } else if stopped(status) && event_stop(status, PTRACE_EVENT_CLONE) {
        WaitStep { kind: WaitKind::Cloned, ..go }
    } else if stopped(status) && event_stop(status, PTRACE_EVENT_EXEC) {
        WaitStep { kind: WaitKind::Execed, ..go }
    } else if stopped(status) {
        let sig = stop_signal_of(status);
        if sig == SIGCHLD || sig == SIGTRAP || sig == SIGVTALRM {
            WaitStep { kind: WaitKind::Stopped, ..go }
        } else {
            WaitStep { kind: WaitKind::Stopped, signal: sig, ..go }
        }
    } else {
        go
    }
}

/// What the tracer does after a wait on process `child` returned
/// `status`, while tracing the command whose process is `pid`.
pub fn classify_wait(status: i32, child: i32, pid: i32) -> (r: WaitStep)
    ensures
        r == wait_step(status, child, pid),
{
    let go = WaitStep { kind: WaitKind::Other, keep_going: true, exit: None, signal: 0 };
    if status >> 8 == (SIGTRAP | (PTRACE_EVENT_SECCOMP << 8)) {
        WaitStep { kind: WaitKind::SeccompStop, ..go }
    } else if libc::WIFEXITED(status) {
        if child == pid {
            proof { lemma_exit_code_status(status); }
            WaitStep {
                kind: WaitKind::Exited,
                keep_going: false,
                exit: Some(exit_code_status(libc::WEXITSTATUS(status))),
                signal: 0,
            }
        } else {
            WaitStep { kind: WaitKind::Exited, ..go }
        }
    } else if libc::WIFSIGNALED(status) {
        if child == pid {
            let sig = libc::WTERMSIG(status);
            WaitStep { kind: WaitKind::Signaled, keep_going: false, exit: Some(sig), signal: 0 }
        } else {
            WaitStep { kind: WaitKind::Signaled, ..go }
        }
    } else if libc::WIFSTOPPED(status) && status >> 8 == (SIGTRAP | (PTRACE_EVENT_FORK << 8)) {
        WaitStep { kind: WaitKind::Forked, ..go }
    } else if libc::WIFSTOPPED(status) && status >> 8 == (SIGTRAP | (PTRACE_EVENT_VFORK << 8)) {
        WaitStep { kind: WaitKind::VForked, ..go }
    } else if libc::WIFSTOPPED(status) && status >> 8 == (SIGTRAP | (PTRACE_EVENT_CLONE << 8)) {
        WaitStep { kind: WaitKind::Cloned, ..go }
    } else if libc::WIFSTOPPED(status) && status >> 8 == (SIGTRAP | (PTRACE_EVENT_EXEC << 8)) {
        WaitStep { kind: WaitKind::Execed, ..go }
    } else if libc::WIFSTOPPED(status) {
        let sig = libc::WSTOPSIG(status);
        if sig == SIGCHLD || sig == SIGTRAP || sig == SIGVTALRM {
            WaitStep { kind: WaitKind::Stopped, ..go }
        } else {
            WaitStep { kind: WaitKind::Stopped, signal: sig, ..go }
        }
    } else {
        go
    }
}

/// The recorded status of a traced command reads back as its end: an
/// exit with code `k` reads as exited with `k` (a success exactly when
/// `k` is zero); a death by signal `g` reads as killed by `g`, never as
/// an exit, so never as a success.
pub proof fn law_recorded_status_reads_back(status: i32, pid: i32)
    requires
        !event_stop(status, PTRACE_EVENT_SECCOMP),
    ensures
        exited(status) ==> (wait_step(status, pid, pid).exit matches Some(e) && exited(e)
            && exit_status_of(e) == exit_status_of(status) && (e == 0 <==> exit_status_of(status) == 0)),
        !exited(status) && signaled(status) ==> (wait_step(status, pid, pid).exit matches Some(e) && !exited(e)
            && signaled(e) && term_signal_of(e) == term_signal_of(status) && e != 0),
{
    lemma_exit_code_status(status);
    let t = status & 0x7f;
    assert(((status & 0x7f) + 1) as i8 >= 2 ==> (status & 0x7f) >= 1 && (status & 0x7f) <= 126) by (bit_vector);
    assert(0 <= (status & 0x7f) <= 127 ==> ((status & 0x7f) & 0x7f) == (status & 0x7f)) by (bit_vector);
    assert(1 <= t <= 126 ==> (((t & 0x7f) + 1) as i8 >= 2)) by (bit_vector);
}

proof fn lemma_exit_code_status(status: i32)
    ensures
        0 <= exit_status_of(status) <= 255,
        exited(exited_with(exit_status_of(status))),
        exit_status_of(exited_with(exit_status_of(status))) == exit_status_of(status),
        exited_with(exit_status_of(status)) == 0 <==> exit_status_of(status) == 0,
{
    let k = (status >> 8) & 0xff;
    assert(0 <= ((status >> 8) & 0xff) <= 255) by (bit_vector);
    assert(0 <= k <= 255 ==> (((k * 256) as i32) & 0x7f) == 0 && ((((k * 256) as i32) >> 8) & 0xff) == k
        && (((k * 256) as i32) == 0 <==> k == 0)) by (bit_vector);
}

/// The wait status of a process that exited with `code` (0 to 255).
pub fn exit_code_status(code: i32) -> (r: i32)
    requires
        0 <= code <= 255,
    ensures
        r == exited_with(code),
{
    code * 256
}

/// The trace ends only when the traced command itself has ended, and
/// then its exit status is recorded.
pub proof fn law_trace_ends_with_command(status: i32, child: i32, pid: i32)
    ensures
        !wait_step(status, child, pid).keep_going ==> child == pid && wait_step(status, child, pid).exit is Some,
        wait_step(status, child, pid).exit is Some ==> !wait_step(status, child, pid).keep_going,
{
}

/// How the traced command first shows up.
#[derive(Debug, Clone, Copy, PartialEq, Eq, Structural)]
pub enum FirstStop {
    /// It exited at once (it could not be traced), with this wait status.
    Exited(i32),
    /// It stopped itself, ready to be traced.
    Stopped,
}

/// Reads the first status of the traced command, which has either
/// exited or stopped itself with `SIGSTOP`.
pub fn first_stop(status: i32) -> (r: FirstStop)
    requires
        exited(status) || (stopped(status) && stop_signal_of(status) == SIGSTOP),
    ensures
        r == if exited(status) {
            FirstStop::Exited(exited_with(exit_status_of(status)))
        } else {
            FirstStop::Stopped
        },
{
    if libc::WIFEXITED(status) {
        proof { lemma_exit_code_status(status); }
        FirstStop::Exited(exit_code_status(libc::WEXITSTATUS(status)))
    } else {
        FirstStop::Stopped
    }
}

/// The status recorded for a command that was waited for without being
/// traced: how it exited or which signal killed it, and -1 for any other
/// report.
pub open spec fn ending_status(status: i32) -> i32 {
    if exited(status) {
        exited_with(exit_status_of(status))
    } else if signaled(status) {
        killed_by(term_signal_of(status))
    } else {
        -1i32
    }
}

/// Running blind changes nothing in how the end of the command is
/// reported: for the wait status with which the command ended (it exited
/// or was killed), the status recorded without tracing is the one the
/// tracer records.
pub proof fn law_blind_ending_matches_traced(status: i32, pid: i32)
    requires
        exited(status) || signaled(status),
        !event_stop(status, PTRACE_EVENT_SECCOMP),
    ensures
        wait_step(status, pid, pid).exit == Some(ending_status(status)),
{
}

/// The wait status recorded for a command run without tracing: that of
/// its exit if it exited, that of its death if a signal killed it, and
/// -1 otherwise.
pub fn blind_exit_code(status: i32) -> (r: i32)
    ensures
        r == ending_status(status),
{
    if libc::WIFEXITED(status) {
        proof { lemma_exit_code_status(status); }
        exit_code_status(libc::WEXITSTATUS(status))
    } else if libc::WIFSIGNALED(status) {
        libc::WTERMSIG(status)
    } else {
        -1
    }
}

/// A ptrace event stop (fork, vfork, clone, exec or seccomp) never hands
/// a signal to the stopped process when it is resumed, and the tracer
/// goes on; a signal is handed on only for a plain signal stop, and it
/// is then the stop signal, which is none of SIGCHLD, SIGTRAP and
/// SIGVTALRM.
pub proof fn law_event_stops_forward_no_signal(status: i32, child: i32, pid: i32, event: i32)
    requires
        event == PTRACE_EVENT_FORK || event == PTRACE_EVENT_VFORK || event == PTRACE_EVENT_CLONE
            || event == PTRACE_EVENT_EXEC || event == PTRACE_EVENT_SECCOMP,
        status >> 8 == (SIGTRAP | (event << 8)),
        (status & 0xff) == 0x7f,
    ensures
        wait_step(status, child, pid).signal == 0,
        wait_step(status, child, pid).keep_going,
        wait_step(status, child, pid).exit is None,
{
    assert((status & 0xff) == 0x7f ==> (status & 0x7f) != 0 && !(((status & 0x7f) + 1) as i8 >= 2)) by (bit_vector);
}

/// A signal handed on at resume is the one that stopped the process, in
/// a stop that is no ptrace event, and never SIGCHLD, SIGTRAP or
/// SIGVTALRM; every other plain signal stop hands its signal on.
pub proof fn law_forwarded_signal_is_the_stop_signal(status: i32, child: i32, pid: i32)
    ensures
        wait_step(status, child, pid).signal != 0 ==> {
            &&& (status & 0xff) == 0x7f
            &&& wait_step(status, child, pid).signal == (status >> 8) & 0xff
            &&& wait_step(status, child, pid).signal != SIGCHLD
            &&& wait_step(status, child, pid).signal != SIGTRAP
            &&& wait_step(status, child, pid).signal != SIGVTALRM
            &&& status >> 8 != (SIGTRAP | (PTRACE_EVENT_FORK << 8))
            &&& status >> 8 != (SIGTRAP | (PTRACE_EVENT_VFORK << 8))
            &&& status >> 8 != (SIGTRAP | (PTRACE_EVENT_CLONE << 8))
            &&& status >> 8 != (SIGTRAP | (PTRACE_EVENT_EXEC << 8))
            &&& status >> 8 != (SIGTRAP | (PTRACE_EVENT_SECCOMP << 8))
        },
        ((status & 0xff) == 0x7f
            && status >> 8 != (SIGTRAP | (PTRACE_EVENT_FORK << 8))
            && status >> 8 != (SIGTRAP | (PTRACE_EVENT_VFORK << 8))
            && status >> 8 != (SIGTRAP | (PTRACE_EVENT_CLONE << 8))
            && status >> 8 != (SIGTRAP | (PTRACE_EVENT_EXEC << 8))
            && status >> 8 != (SIGTRAP | (PTRACE_EVENT_SECCOMP << 8))
            && (status >> 8) & 0xff != SIGCHLD && (status >> 8) & 0xff != SIGTRAP && (status >> 8) & 0xff != SIGVTALRM)
            ==> wait_step(status, child, pid).signal == (status >> 8) & 0xff,
{
    assert((status & 0xff) == 0x7f ==> (status & 0x7f) != 0 && !(((status & 0x7f) + 1) as i8 >= 2)) by (bit_vector);
}

} // verus!
