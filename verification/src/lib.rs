//! Tracking what a traced command reads, writes, lists and creates.
//!
//! The library holds the decisions of a ptrace based file access
//! tracker: which system calls are traced, how a wait status is read,
//! how the arguments of a stopped system call are found, how a path in
//! the tracee is resolved against its symlinks, and how each traced
//! access updates the sets of files and directories that are reported.
//! The process plumbing (fork, exec, ptrace, waitpid) lives outside.

pub mod bytes;
pub mod command;
pub mod environment;
pub mod killer;
pub mod pathset;
pub mod paths;
pub mod realpath;
pub mod registers;
pub mod status;
pub mod syscall;
pub mod trace;
pub mod wait_status;

pub use command::{Command, Stdio};
pub use killer::Killer;
pub use status::Status;
pub use syscall::Syscall;

use vstd::prelude::*;

verus! {

/// Stops a running CPU profiler before a child is started.
///
/// Profiling support is not built in, so there is nothing to stop.
pub fn stop_profiling() {
}

} // verus!
