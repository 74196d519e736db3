//! Signalling a running command.

use vstd::prelude::*;

verus! {

/// `SIGKILL`.
pub const SIGKILL: i32 = 9;
/// `SIGTERM`.
pub const SIGTERM: i32 = 15;

/// A signal to send to a process.
#[derive(Debug, Clone, Copy, PartialEq, Eq, Structural)]
pub struct SignalRequest {
    pub pid: i32,
    pub signal: i32,
}

/// A handle through which a running command can be stopped.
#[derive(Debug, Clone, Copy, PartialEq, Eq, Structural)]
pub struct Killer {
    pid: i32,
}

impl Killer {
    /// The process the handle stops.
    pub closed spec fn target(&self) -> i32 {
        self.pid
    }

    /// A handle for process `pid`.
    pub fn new(pid: i32) -> (k: Killer)
        ensures
            k.target() == pid,
    {
        Killer { pid }
    }

    /// The process the handle stops.
    pub fn pid(&self) -> (r: i32)
        ensures
            r == self.target(),
    {
        self.pid
    }

    /// Forcing the process to exit: `SIGKILL` to it.
    pub fn kill(&self) -> (r: SignalRequest)
        ensures
            r == (SignalRequest { pid: self.target(), signal: SIGKILL }),
    {
        SignalRequest { pid: self.pid, signal: SIGKILL }
    }

    /// Asking the process to exit: `SIGTERM` to it.
    pub fn terminate(&self) -> (r: SignalRequest)
        ensures
            r == (SignalRequest { pid: self.target(), signal: SIGTERM }),
    {
        SignalRequest { pid: self.pid, signal: SIGTERM }
    }
}

/// The outcome of sending a signal: the call's return code, and the
/// error number read right after it.
pub fn signal_outcome(code: i32, errno: i32) -> (r: Result<(), i32>)
    ensures
        r == if code < 0 {
            Err::<(), i32>(errno)
        } else {
            Ok::<(), i32>(())
        },
{
    if code < 0 {
        Err(errno)
    } else {
        Ok(())
    }
}

/// The outcome of a system call that fails with -1: its value, or the
/// error number read right after it.
pub fn cvt(t: i32, errno: i32) -> (r: Result<i32, i32>)
    ensures
        r == if t == -1 {
            Err::<i32, i32>(errno)
        } else {
            Ok::<i32, i32>(t)
        },
{
    if t == -1 {
        Err(errno)
    } else {
        Ok(t)
    }
}

} // verus!
