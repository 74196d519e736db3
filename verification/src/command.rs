//! The description of a command to run: its arguments, working
//! directory, standard streams and environment, and whether its file
//! accesses are tracked.

use vstd::prelude::*;
use crate::bytes::copy_bytes;
use crate::environment::{apply_env, child_env, env_map, EnvSettings, EnvVars};
use crate::pathset::PathSet;
use crate::paths::views;

verus! {

/// `STDERR_FILENO`: the highest of the three standard descriptors.
pub const STDERR_FILENO: i32 = 2;

/// What is done with one standard stream of the child.
#[derive(Debug, Clone, Copy, PartialEq, Eq, Structural)]
pub enum Std {
    /// The child gets the parent's stream.
    Inherit,
    /// A new pipe between parent and child.
    MakePipe,
    /// The stream goes to `/dev/null`.
    Null,
    /// The stream is this open descriptor.
    Fd(i32),
}

/// A description of what you want done with one of the standard streams.
pub struct Stdio(Std);

impl Stdio {
    /// What is done with the stream.
    pub closed spec fn kind(&self) -> Std {
        self.0
    }

    /// A new pipe should be arranged to connect the parent and child processes.
    pub fn piped() -> (s: Stdio)
        ensures
            s.kind() == Std::MakePipe,
    {
        Stdio(Std::MakePipe)
    }

    /// The child inherits from the corresponding parent descriptor.
    pub fn inherit() -> (s: Stdio)
        ensures
            s.kind() == Std::Inherit,
    {
        Stdio(Std::Inherit)
    }

    /// This stream will be ignored, as if attached to `/dev/null`.
    pub fn null() -> (s: Stdio)
        ensures
            s.kind() == Std::Null,
    {
        Stdio(Std::Null)
    }

    /// The stream is the open descriptor `fd`.
    pub fn from_descriptor(fd: i32) -> (s: Stdio)
        ensures
            s.kind() == Std::Fd(fd),
    {
        Stdio(Std::Fd(fd))
    }
}

/// How the descriptor that the child gets for a stream is obtained.
#[derive(Debug, Clone, Copy, PartialEq, Eq, Structural)]
pub enum ChildFd {
    /// The child keeps the parent's descriptor.
    Inherit,
    /// `/dev/null` is opened for reading and writing.
    OpenNull,
    /// This standard descriptor is duplicated (close-on-exec).
    Duplicate(i32),
    /// This descriptor is used as it is.
    Use(i32),
    /// A new pipe is made; the child gets its read end and the parent
    /// keeps the write end.
    PipeReadEnd,
    /// A new pipe is made; the child gets its write end and the parent
    /// keeps the read end.
    PipeWriteEnd,
}

/// How the descriptor for a stream set up as `s` is obtained; `input`
/// tells whether the child reads the stream (standard input) or writes
/// it (output and error).
pub open spec fn child_fd_of(s: Std, input: bool) -> ChildFd {
    match s {
        Std::Null => ChildFd::OpenNull,
        Std::Fd(fd) => if 0 <= fd <= STDERR_FILENO {
            ChildFd::Duplicate(fd)
        } else {
            ChildFd::Use(fd)
        },
        Std::MakePipe => if input {
            ChildFd::PipeReadEnd
        } else {
            ChildFd::PipeWriteEnd
        },
        Std::Inherit => ChildFd::Inherit,
    }
}

/// The descriptor, if any, that the parent closes once the child has
/// been started, for a stream set up as `s` that got descriptor `fd`.
pub open spec fn to_close(s: Std, fd: Option<i32>) -> Option<i32> {
    match fd {
        None => None,
        Some(f) => match s {
            Std::Null | Std::Fd(_) | Std::MakePipe => Some(f),
            Std::Inherit => None,
        },
    }
}

/// The plain description of a command.
pub struct CommandView {
    pub argv: Seq<Seq<u8>>,
    pub workingdir: Option<Seq<u8>>,
    pub stdin: Std,
    pub stdout: Std,
    pub stderr: Std,
    pub can_read_stdout: bool,
    pub error: Option<i32>,
    pub env: EnvSettings,
    pub blind: bool,
}

/// Settings after `env(k, v)`.
pub open spec fn env_set_var(e: EnvSettings, k: Seq<u8>, v: Seq<u8>) -> EnvSettings {
    EnvSettings { removed: e.removed.remove(k), set: e.set.insert(k, v), ..e }
}

/// Settings after `env_remove(k)`.
pub open spec fn env_remove_var(e: EnvSettings, k: Seq<u8>) -> EnvSettings {
    EnvSettings { removed: e.removed.insert(k), set: e.set.remove(k), ..e }
}

/// Settings after `env_clear()`.
pub open spec fn env_cleared() -> EnvSettings {
    EnvSettings { cleared: true, removed: Set::empty(), set: Map::empty() }
}

/// A byte string without a zero byte, as a C string must be.
pub open spec fn no_nul(s: Seq<u8>) -> bool {
    forall|i: int| 0 <= i < s.len() ==> s[i] != 0
}

/// A process builder: what to run, and how.
pub struct Command {
    argv: Vec<Vec<u8>>,
    workingdir: Option<Vec<u8>>,
    stdin: Std,
    stdout: Std,
    stderr: Std,
    can_read_stdout: bool,
    have_error: Option<i32>,
    envs_set: EnvVars,
    envs_removed: PathSet,
    envs_cleared: bool,
    am_blind: bool,
}

impl View for Command {
    type V = CommandView;

    closed spec fn view(&self) -> CommandView {
        CommandView {
            argv: views(self.argv@),
            workingdir: match self.workingdir {
                Some(d) => Some(d@),
                None => None,
            },
            stdin: self.stdin,
            stdout: self.stdout,
            stderr: self.stderr,
            can_read_stdout: self.can_read_stdout,
            error: self.have_error,
            env: EnvSettings { cleared: self.envs_cleared, removed: self.envs_removed@, set: self.envs_set@ },
            blind: self.am_blind,
        }
    }
}

impl Command {
    /// The environment being set is held consistently.
    pub closed spec fn wf(&self) -> bool {
        self.envs_set.wf()
    }

    /// A command that runs `program` with no arguments, in the current
    /// directory, with the current environment and standard streams,
    /// tracking its accesses.
    pub fn new(program: &[u8]) -> (c: Command)
        requires
            no_nul(program@),
        ensures
            c.wf(),
            c@ == (CommandView {
                argv: seq![program@],
                workingdir: None,
                stdin: Std::Inherit,
                stdout: Std::Inherit,
                stderr: Std::Inherit,
                can_read_stdout: false,
                error: None,
                env: EnvSettings { cleared: false, removed: Set::empty(), set: Map::empty() },
                blind: false,
            }),
    {
        let mut argv: Vec<Vec<u8>> = Vec::new();
        argv.push(copy_bytes(program));
        let c = Command {
            argv,
            workingdir: None,
            stdin: Std::Inherit,
            stdout: Std::Inherit,
            stderr: Std::Inherit,
            can_read_stdout: false,
            have_error: None,
            envs_set: EnvVars::new(),
            envs_removed: PathSet::new(),
            envs_cleared: false,
            am_blind: false,
        };
        assert(c@.argv =~= seq![program@]);
        c
    }

    /// Adds an argument.
    pub fn arg(&mut self, a: &[u8]) -> (r: &mut Command)
        requires
            old(self).wf(),
            no_nul(a@),
        ensures
            r.wf(),
            r@ == (CommandView { argv: old(self)@.argv.push(a@), ..old(self)@ }),
            *final(self) == *final(r),
    {
        let ghost a0 = self.argv@;
        self.argv.push(copy_bytes(a));
        assert(views(self.argv@) =~= views(a0).push(a@));
        self
    }

    /// Adds arguments.
    pub fn args(&mut self, list: &Vec<Vec<u8>>) -> (r: &mut Command)
        requires
            old(self).wf(),
            forall|i: int| 0 <= i < list@.len() ==> no_nul(#[trigger] list@[i]@),
        ensures
            r.wf(),
            r@ == (CommandView { argv: old(self)@.argv + views(list@), ..old(self)@ }),
            *final(self) == *final(r),
    {
        let mut i: usize = 0;
        while i < list.len()
            invariant
                self.wf(),
                i <= list@.len(),
                self@ == (CommandView { argv: old(self)@.argv + views(list@).subrange(0, i as int), ..old(self)@ }),
            decreases list@.len() - i,
        {
            let ghost a0 = self.argv@;
            self.argv.push(copy_bytes(list[i].as_slice()));
            assert(views(self.argv@) =~= views(a0).push(list@[i as int]@));
            assert(old(self)@.argv + views(list@).subrange(0, i + 1) =~= views(a0).push(list@[i as int]@));
            i = i + 1;
        }
        assert(views(list@).subrange(0, list@.len() as int) =~= views(list@));
        self
    }

    /// Sets the working directory of the command.
    pub fn current_dir(&mut self, dir: &[u8]) -> (r: &mut Command)
        requires
            old(self).wf(),
        ensures
            r.wf(),
            r@ == (CommandView { workingdir: Some(dir@), ..old(self)@ }),
            *final(self) == *final(r),
    {
        self.workingdir = Some(copy_bytes(dir));
        self
    }

    /// Sets an environment variable for the command.
    pub fn env(&mut self, key: &[u8], val: &[u8]) -> (r: &mut Command)
        requires
            old(self).wf(),
        ensures
            r.wf(),
            r@ == (CommandView { env: env_set_var(old(self)@.env, key@, val@), ..old(self)@ }),
            *final(self) == *final(r),
    {
        self.envs_removed.remove(key);
        self.envs_set.insert(key, val);
        self
    }

    /// Sets several environment variables, in order.
    pub fn envs(&mut self, vars: &Vec<(Vec<u8>, Vec<u8>)>) -> (r: &mut Command)
        requires
            old(self).wf(),
        ensures
            r.wf(),
            r@ == (CommandView { env: envs_set_vars(old(self)@.env, vars@), ..old(self)@ }),
            *final(self) == *final(r),
    {
        let mut i: usize = 0;
        while i < vars.len()
            invariant
                self.wf(),
                i <= vars@.len(),
                self@ == (CommandView { env: envs_set_vars(old(self)@.env, vars@.subrange(0, i as int)), ..old(self)@ }),
            decreases vars@.len() - i,
        {
            self.env(vars[i].0.as_slice(), vars[i].1.as_slice());
            assert(vars@.subrange(0, i + 1).drop_last() =~= vars@.subrange(0, i as int));
            i = i + 1;
        }
        assert(vars@.subrange(0, vars@.len() as int) =~= vars@);
        self
    }

    /// Removes an environment variable from the command's environment.
    pub fn env_remove(&mut self, key: &[u8]) -> (r: &mut Command)
        requires
            old(self).wf(),
        ensures
            r.wf(),
            r@ == (CommandView { env: env_remove_var(old(self)@.env, key@), ..old(self)@ }),
            *final(self) == *final(r),
    {
        self.envs_set.remove(key);
        self.envs_removed.insert(key);
        self
    }

    /// Starts the command from an empty environment.
    pub fn env_clear(&mut self) -> (r: &mut Command)
        requires
            old(self).wf(),
        ensures
            r.wf(),
            r@ == (CommandView { env: env_cleared(), ..old(self)@ }),
            *final(self) == *final(r),
    {
        self.envs_cleared = true;
        self.envs_set.clear();
        self.envs_removed = PathSet::new();
        self
    }

    /// Sets the standard input of the command.
    pub fn stdin(&mut self, cfg: Stdio) -> (r: &mut Command)
        requires
            old(self).wf(),
        ensures
            r.wf(),
            r@ == (CommandView { stdin: cfg.kind(), ..old(self)@ }),
            *final(self) == *final(r),
    {
        self.stdin = cfg.0;
        self
    }

    /// Sets the standard output of the command.
    pub fn stdout(&mut self, cfg: Stdio) -> (r: &mut Command)
        requires
            old(self).wf(),
        ensures
            r.wf(),
            r@ == (CommandView { stdout: cfg.kind(), ..old(self)@ }),
            *final(self) == *final(r),
    {
        self.stdout = cfg.0;
        self
    }

    /// Sets the standard error of the command.
    pub fn stderr(&mut self, cfg: Stdio) -> (r: &mut Command)
        requires
            old(self).wf(),
        ensures
            r.wf(),
            r@ == (CommandView { stderr: cfg.kind(), ..old(self)@ }),
            *final(self) == *final(r),
    {
        self.stderr = cfg.0;
        self
    }

    /// Has setting up the command failed?
    pub fn errored(&self) -> (r: bool)
        ensures
            r == (self@.error is Some),
    {
        self.have_error.is_some()
    }

    fn send_output_to(&mut self, opened: Result<i32, i32>)
        requires
            old(self).wf(),
        ensures
            final(self).wf(),
            final(self)@ == output_file_set(old(self)@, opened),
    {
        if !self.errored() {
            match opened {
                Err(e) => {
                    self.have_error = Some(e);
                },
                Ok(fd) => {
                    self.stderr = Std::Fd(fd);
                    self.stdout = Std::Fd(fd);
                    self.can_read_stdout = true;
                },
            }
        }
    }

    /// Sends the standard output and error of the command to a
    /// temporary file (`opened` is the outcome of creating it: a
    /// descriptor or an error number), from which the output can be read
    /// after the command has run.  Nothing changes once setting up the
    /// command has failed.
    pub fn save_stdouterr(&mut self, opened: Result<i32, i32>) -> (r: &mut Command)
        requires
            old(self).wf(),
        ensures
            r.wf(),
            r@ == output_file_set(old(self)@, opened),
            *final(self) == *final(r),
    {
        self.send_output_to(opened);
        self
    }

    /// Sends the standard output and error of the command to a file
    /// (`opened` is the outcome of opening it), from which the output can
    /// be read after the command has run.
    pub fn log_stdouterr(&mut self, opened: Result<i32, i32>) -> (r: &mut Command)
        requires
            old(self).wf(),
        ensures
            r.wf(),
            r@ == output_file_set(old(self)@, opened),
            *final(self) == *final(r),
    {
        self.send_output_to(opened);
        self
    }

    /// Runs the command without tracking its accesses, or with.
    pub fn blind(&mut self, am_blind: bool) -> (r: &mut Command)
        requires
            old(self).wf(),
        ensures
            r.wf(),
            r@ == (CommandView { blind: am_blind, ..old(self)@ }),
            *final(self) == *final(r),
    {
        self.am_blind = am_blind;
        self
    }

    /// Hands out the error that setting up the command ran into, if any;
    /// the command is then free of it.
    pub fn assert_no_error(&mut self) -> (r: Result<(), i32>)
        requires
            old(self).wf(),
        ensures
            final(self).wf(),
            final(self)@ == (CommandView { error: None, ..old(self)@ }),
            match old(self)@.error {
                Some(e) => r == Err::<(), i32>(e),
                None => r is Ok,
            },
    {
        match self.have_error.take() {
            Some(e) => Err(e),
            None => Ok(()),
        }
    }

    /// The program and its arguments.
    pub fn argv(&self) -> (r: Vec<Vec<u8>>)
        ensures
            views(r@) == self@.argv,
    {
        let mut r: Vec<Vec<u8>> = Vec::new();
        let mut i: usize = 0;
        while i < self.argv.len()
            invariant
                i <= self.argv@.len(),
                views(r@) == views(self.argv@).subrange(0, i as int),
            decreases self.argv@.len() - i,
        {
            let ghost r0 = views(r@);
            r.push(copy_bytes(self.argv[i].as_slice()));
            assert(views(r@) =~= r0.push(self.argv@[i as int]@));
            assert(views(self.argv@)[i as int] == self.argv@[i as int]@);
            assert(views(r@) =~= views(self.argv@).subrange(0, i + 1));
            i = i + 1;
        }
        assert(views(self.argv@).subrange(0, self.argv@.len() as int) =~= views(self.argv@));
        r
    }

    /// The working directory to start in, if one was set.
    pub fn working_dir(&self) -> (r: Option<Vec<u8>>)
        ensures
            match r {
                Some(d) => self@.workingdir == Some(d@),
                None => self@.workingdir is None,
            },
    {
        match &self.workingdir {
            Some(d) => Some(copy_bytes(d.as_slice())),
            None => None,
        }
    }

    /// Are accesses left untracked?
    pub fn is_blind(&self) -> (r: bool)
        ensures
            r == self@.blind,
    {
        self.am_blind
    }

    /// The environment the command starts with, given the parent's.
    pub fn child_environment(&self, parent: &Vec<(Vec<u8>, Vec<u8>)>) -> (r: Vec<(Vec<u8>, Vec<u8>)>)
        requires
            self.wf(),
        ensures
            env_map(r@) == child_env(self@.env, env_map(parent@)),
            forall|i: int, j: int| 0 <= i < j < r@.len() ==> #[trigger] r@[i].0@ != #[trigger] r@[j].0@,
    {
        let e = apply_env(self.envs_cleared, &self.envs_removed, &self.envs_set, parent);
        e.to_vec()
    }

    /// How the child's standard input, output and error descriptors are
    /// obtained.  A piped stream gets a new pipe whose other end stays
    /// with the parent.
    pub fn child_fds(&self) -> (r: (ChildFd, ChildFd, ChildFd))
        ensures
            r == (child_fd_of(self@.stdin, true), child_fd_of(self@.stdout, false), child_fd_of(self@.stderr, false)),
    {
        (child_fd(self.stdin, true), child_fd(self.stdout, false), child_fd(self.stderr, false))
    }

    /// The descriptors the parent closes once the child has started,
    /// given the descriptors the child got for its three streams: the
    /// output file stays open when the output is to be read, and a
    /// descriptor shared by output and error is closed once.
    pub fn fds_to_close(&self, stdin_fd: Option<i32>, stdout_fd: Option<i32>, stderr_fd: Option<i32>) -> (r: Vec<i32>)
        ensures
            r@ == closing(self@, stdin_fd, stdout_fd, stderr_fd),
    {
        let mut r: Vec<i32> = Vec::new();
        if let Some(f) = close_for(self.stdin, stdin_fd) {
            r.push(f);
        }
        if !self.can_read_stdout {
            if let Some(f) = close_for(self.stdout, stdout_fd) {
                r.push(f);
            }
        }
        if stderr_fd != stdout_fd {
            if let Some(f) = close_for(self.stderr, stderr_fd) {
                r.push(f);
            }
        }
        assert(r@ =~= closing(self@, stdin_fd, stdout_fd, stderr_fd));
        r
    }

    /// The descriptor from which the output is read after the run: the
    /// child's output descriptor, when the output is to be read.
    pub fn saved_stdout(&self, stdout_fd: Option<i32>) -> (r: Option<i32>)
        ensures
            r == saved_output(self@, stdout_fd),
    {
        if self.can_read_stdout {
            stdout_fd
        } else {
            None
        }
    }
}

/// The settings after each pair of `vars` was set in turn.
pub open spec fn envs_set_vars(e: EnvSettings, vars: Seq<(Vec<u8>, Vec<u8>)>) -> EnvSettings
    decreases vars.len(),
{
    if vars.len() == 0 {
        e
    } else {
        env_set_var(envs_set_vars(e, vars.drop_last()), vars.last().0@, vars.last().1@)
    }
}

/// The description after the output was sent to a file opened with
/// outcome `opened`.
pub open spec fn output_file_set(c: CommandView, opened: Result<i32, i32>) -> CommandView {
    if c.error is Some {
        c
    } else {
        match opened {
            Err(e) => CommandView { error: Some(e), ..c },
            Ok(fd) => CommandView { stdout: Std::Fd(fd), stderr: Std::Fd(fd), can_read_stdout: true, ..c },
        }
    }
}

/// The descriptor from which the output of a command described by `c`
/// is read after the run, when its output descriptor was `stdout_fd`.
pub open spec fn saved_output(c: CommandView, stdout_fd: Option<i32>) -> Option<i32> {
    if c.can_read_stdout {
        stdout_fd
    } else {
        None
    }
}

/// The optional descriptor as a list.
pub open spec fn opt_seq(o: Option<i32>) -> Seq<i32> {
    match o {
        Some(f) => seq![f],
        None => Seq::empty(),
    }
}

/// The descriptors closed after the child started.
pub open spec fn closing(c: CommandView, stdin_fd: Option<i32>, stdout_fd: Option<i32>, stderr_fd: Option<i32>) -> Seq<i32> {
    opt_seq(to_close(c.stdin, stdin_fd)) + (if c.can_read_stdout {
        Seq::empty()
    } else {
        opt_seq(to_close(c.stdout, stdout_fd))
    }) + (if stderr_fd != stdout_fd {
        opt_seq(to_close(c.stderr, stderr_fd))
    } else {
        Seq::empty()
    })
}

fn child_fd(s: Std, input: bool) -> (r: ChildFd)
    ensures
        r == child_fd_of(s, input),
{
    match s {
        Std::Null => ChildFd::OpenNull,
        Std::Fd(fd) => if fd >= 0 && fd <= STDERR_FILENO {
            ChildFd::Duplicate(fd)
        } else {
            ChildFd::Use(fd)
        },
        Std::MakePipe => if input {
            ChildFd::PipeReadEnd
        } else {
            ChildFd::PipeWriteEnd
        },
        Std::Inherit => ChildFd::Inherit,
    }
}

fn close_for(s: Std, fd: Option<i32>) -> (r: Option<i32>)
    ensures
        r == to_close(s, fd),
{
    match fd {
        None => None,
        Some(f) => match s {
            Std::Null | Std::Fd(_) | Std::MakePipe => Some(f),
            Std::Inherit => None,
        },
    }
}

/// A variable set with `env` reaches the child with its value, whatever
/// the parent's environment.
pub proof fn law_env_set_reaches_child(e: EnvSettings, k: Seq<u8>, v: Seq<u8>, parent: Map<Seq<u8>, Seq<u8>>)
    ensures
        child_env(env_set_var(e, k, v), parent).dom().contains(k),
        child_env(env_set_var(e, k, v), parent)[k] == v,
{
}

/// A variable removed with `env_remove` is not in the child's
/// environment, whatever the parent's.
pub proof fn law_env_remove_keeps_from_child(e: EnvSettings, k: Seq<u8>, parent: Map<Seq<u8>, Seq<u8>>)
    ensures
        !child_env(env_remove_var(e, k), parent).dom().contains(k),
{
}

/// After `env_clear`, the child's environment is exactly what is set
/// afterwards, whatever the parent's.
pub proof fn law_env_clear_forgets_parent(k: Seq<u8>, v: Seq<u8>, parent: Map<Seq<u8>, Seq<u8>>)
    ensures
        child_env(env_cleared(), parent) == Map::<Seq<u8>, Seq<u8>>::empty(),
        child_env(env_set_var(env_cleared(), k, v), parent) == Map::<Seq<u8>, Seq<u8>>::empty().insert(k, v),
{
    assert(child_env(env_cleared(), parent) =~= Map::<Seq<u8>, Seq<u8>>::empty());
    assert(child_env(env_set_var(env_cleared(), k, v), parent) =~= Map::<Seq<u8>, Seq<u8>>::empty().insert(k, v));
}

} // verus!
