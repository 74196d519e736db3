//! What a traced command did: how it ended and which files and
//! directories it read, wrote, listed and created.

use vstd::prelude::*;
use crate::pathset::{PathSet, within, moved, renamed, survives, lemma_moved_within, lemma_moved_injective, lemma_within_both};
use crate::realpath::{RealpathWalk, render_reached};
use crate::command::{Command, saved_output};
use crate::wait_status::{blind_exit_code, ending_status};

verus! {

/// One access to the file system, as seen by the tracer once the paths
/// it names have been resolved.
pub enum Access {
    /// A file was read (opened for reading, executed, examined).
    Read(Vec<u8>),
    /// A file was opened for writing.
    Write(Vec<u8>),
    /// A file was modified without being opened (its times were set, it
    /// was truncated, or it was created as a symlink).
    Touch(Vec<u8>),
    /// A hard link `to` was made to the file `from`.
    Link { from: Vec<u8>, to: Vec<u8> },
    /// The entry `from` was renamed to `to`.
    Rename { from: Vec<u8>, to: Vec<u8> },
    /// A directory was listed.
    ListDir(Vec<u8>),
    /// A directory was created.
    MakeDir(Vec<u8>),
    /// A file or directory was deleted.
    Delete(Vec<u8>),
}

/// The four sets a trace reports: directories read, files read, files
/// written, directories created.
pub struct AccessSets {
    pub dirs_read: Set<Seq<u8>>,
    pub files_read: Set<Seq<u8>>,
    pub files_written: Set<Seq<u8>>,
    pub dirs_made: Set<Seq<u8>>,
}

/// The files read after `p` was read: a file already written stays
/// reported as written only.
pub open spec fn read_into(s: AccessSets, p: Seq<u8>) -> Set<Seq<u8>> {
    if s.files_written.contains(p) {
        s.files_read
    } else {
        s.files_read.insert(p)
    }
}

/// The sets after the access `a`.
pub open spec fn after_access(s: AccessSets, a: Access) -> AccessSets {
    match a {
        Access::Read(p) => AccessSets { files_read: read_into(s, p@), ..s },
        Access::Write(p) | Access::Touch(p) => AccessSets {
            files_read: s.files_read.remove(p@),
            files_written: s.files_written.insert(p@),
            ..s
        },
        Access::Link { from, to } => AccessSets {
            files_read: read_into(s, from@).remove(to@),
            files_written: s.files_written.insert(to@),
            ..s
        },
        Access::Rename { from, to } => AccessSets {
            dirs_read: renamed(s.dirs_read, from@, to@),
            files_read: renamed(s.files_read, from@, to@).remove(to@),
            files_written: renamed(s.files_written, from@, to@).insert(to@),
            dirs_made: renamed(s.dirs_made, from@, to@),
        },
        Access::ListDir(p) => AccessSets { dirs_read: s.dirs_read.insert(p@), ..s },
        Access::MakeDir(p) => AccessSets { dirs_made: s.dirs_made.insert(p@), ..s },
        Access::Delete(p) => AccessSets {
            dirs_read: s.dirs_read.remove(p@),
            files_read: s.files_read.remove(p@),
            files_written: s.files_written.remove(p@),
            dirs_made: s.dirs_made.remove(p@),
        },
    }
}

/// No file is reported both as read and as written.
pub open spec fn reads_and_writes_apart(s: AccessSets) -> bool {
    s.files_read.disjoint(s.files_written)
}

/// Is `p` in any reported set?
pub open spec fn reported(s: AccessSets, p: Seq<u8>) -> bool {
    s.dirs_read.contains(p) || s.files_read.contains(p) || s.files_written.contains(p) || s.dirs_made.contains(p)
}

/// The result of running a command.
#[derive(Debug)]
pub struct Status {
    status: i32,
    read_from_directories: PathSet,
    read_from_files: PathSet,
    written_to_files: PathSet,
    mkdir_directories: PathSet,
    stdout_fd: Option<i32>,
}

impl Status {
    /// The raw exit status.
    pub closed spec fn exit_code(&self) -> i32 {
        self.status
    }

    /// The four reported sets.
    pub closed spec fn sets(&self) -> AccessSets {
        AccessSets {
            dirs_read: self.read_from_directories@,
            files_read: self.read_from_files@,
            files_written: self.written_to_files@,
            dirs_made: self.mkdir_directories@,
        }
    }

    /// The descriptor of the file that holds the saved output, if any.
    pub closed spec fn saved_stdout(&self) -> Option<i32> {
        self.stdout_fd
    }

    /// The status of a traced command that has just been started: it
    /// counts as killed (137) until it ends, and nothing was accessed yet.
    pub fn started(stdout_fd: Option<i32>) -> (s: Status)
        ensures
            s.exit_code() == 137,
            s.saved_stdout() == stdout_fd,
            s.sets().dirs_read == Set::<Seq<u8>>::empty(),
            s.sets().files_read == Set::<Seq<u8>>::empty(),
            s.sets().files_written == Set::<Seq<u8>>::empty(),
            s.sets().dirs_made == Set::<Seq<u8>>::empty(),
            reads_and_writes_apart(s.sets()),
    {
        Status {
            status: 137,
            read_from_directories: PathSet::new(),
            read_from_files: PathSet::new(),
            written_to_files: PathSet::new(),
            mkdir_directories: PathSet::new(),
            stdout_fd,
        }
    }

    /// The status of a command that ran untracked to its end: the exit
    /// code is known, and no accesses are reported.
    pub fn untracked(exit: i32, stdout_fd: Option<i32>) -> (s: Status)
        ensures
            s.exit_code() == exit,
            s.saved_stdout() == stdout_fd,
            s.sets().dirs_read == Set::<Seq<u8>>::empty(),
            s.sets().files_read == Set::<Seq<u8>>::empty(),
            s.sets().files_written == Set::<Seq<u8>>::empty(),
            s.sets().dirs_made == Set::<Seq<u8>>::empty(),
            reads_and_writes_apart(s.sets()),
    {
        Status {
            status: exit,
            read_from_directories: PathSet::new(),
            read_from_files: PathSet::new(),
            written_to_files: PathSet::new(),
            mkdir_directories: PathSet::new(),
            stdout_fd,
        }
    }

    /// The status of the command `cmd`, run untracked, that ended with
    /// the wait status `wait_status` after its output went to
    /// `stdout_fd`: how it ended, its saved output, and no accesses.
    pub fn after_blind_run(cmd: &Command, wait_status: i32, stdout_fd: Option<i32>) -> (s: Status)
        ensures
            s.exit_code() == ending_status(wait_status),
            s.saved_stdout() == saved_output(cmd@, stdout_fd),
            s.sets().dirs_read == Set::<Seq<u8>>::empty(),
            s.sets().files_read == Set::<Seq<u8>>::empty(),
            s.sets().files_written == Set::<Seq<u8>>::empty(),
            s.sets().dirs_made == Set::<Seq<u8>>::empty(),
    {
        Status::untracked(blind_exit_code(wait_status), cmd.saved_stdout(stdout_fd))
    }

    /// The status of the command `cmd` when the tracer has started it with
    /// its output going to `stdout_fd`: the output is saved exactly as in
    /// a blind run.
    pub fn before_traced_run(cmd: &Command, stdout_fd: Option<i32>) -> (s: Status)
        ensures
            s.exit_code() == 137,
            s.saved_stdout() == saved_output(cmd@, stdout_fd),
            s.sets().dirs_read == Set::<Seq<u8>>::empty(),
            s.sets().files_read == Set::<Seq<u8>>::empty(),
            s.sets().files_written == Set::<Seq<u8>>::empty(),
            s.sets().dirs_made == Set::<Seq<u8>>::empty(),
    {
        Status::started(cmd.saved_stdout(stdout_fd))
    }

    /// The status of a command that ran to its end with the given exit
    /// status, having accessed the listed paths (a path listed twice is
    /// reported once, and a file listed as written is not reported as
    /// read).
    pub fn from_lists(
        exit: i32,
        read_dirs: &Vec<Vec<u8>>,
        read_files: &Vec<Vec<u8>>,
        written_files: &Vec<Vec<u8>>,
        made_dirs: &Vec<Vec<u8>>,
        stdout_fd: Option<i32>,
    ) -> (s: Status)
        ensures
            s.exit_code() == exit,
            s.saved_stdout() == stdout_fd,
            forall|p: Seq<u8>| #[trigger] s.sets().dirs_read.contains(p) <==> (exists|i: int|
                0 <= i < read_dirs@.len() && #[trigger] read_dirs@[i]@ == p),
            forall|p: Seq<u8>| #[trigger] s.sets().files_read.contains(p) <==> ((exists|i: int|
                0 <= i < read_files@.len() && #[trigger] read_files@[i]@ == p) && !(exists|i: int|
                0 <= i < written_files@.len() && #[trigger] written_files@[i]@ == p)),
            forall|p: Seq<u8>| #[trigger] s.sets().files_written.contains(p) <==> (exists|i: int|
                0 <= i < written_files@.len() && #[trigger] written_files@[i]@ == p),
            forall|p: Seq<u8>| #[trigger] s.sets().dirs_made.contains(p) <==> (exists|i: int|
                0 <= i < made_dirs@.len() && #[trigger] made_dirs@[i]@ == p),
            reads_and_writes_apart(s.sets()),
    {
        let written = set_of(written_files);
        let mut read = PathSet::new();
        let mut i: usize = 0;
        while i < read_files.len()
            invariant
                i <= read_files@.len(),
                forall|p: Seq<u8>| #[trigger] written@.contains(p) <==> (exists|j: int|
                    0 <= j < written_files@.len() && #[trigger] written_files@[j]@ == p),
                forall|p: Seq<u8>| #[trigger] read@.contains(p) <==> ((exists|j: int|
                    0 <= j < i && #[trigger] read_files@[j]@ == p) && !written@.contains(p)),
            decreases read_files@.len() - i,
        {
            if !written.contains(read_files[i].as_slice()) {
                read.insert(read_files[i].as_slice());
            }
            assert forall|p: Seq<u8>| #[trigger] read@.contains(p) <==> ((exists|j: int|
                0 <= j < i + 1 && #[trigger] read_files@[j]@ == p) && !written@.contains(p)) by {
                if exists|j: int| 0 <= j < i + 1 && #[trigger] read_files@[j]@ == p {
                    let j = choose|j: int| 0 <= j < i + 1 && #[trigger] read_files@[j]@ == p;
                    if j < i {
                        assert(exists|j: int| 0 <= j < i && #[trigger] read_files@[j]@ == p);
                    }
                }
                if read@.contains(p) && p != read_files@[i as int]@ {
                    let j = choose|j: int| 0 <= j < i && #[trigger] read_files@[j]@ == p;
                }
            }
            i = i + 1;
        }
        Status {
            status: exit,
            read_from_directories: set_of(read_dirs),
            read_from_files: read,
            written_to_files: written,
            mkdir_directories: set_of(made_dirs),
            stdout_fd,
        }
    }

    /// The raw exit status (as for `ExitStatus::from_raw`).
    pub fn status(&self) -> (r: i32)
        ensures
            r == self.exit_code(),
    {
        self.status
    }

    /// The directories that the command read from.
    pub fn read_from_directories(&self) -> (r: PathSet)
        ensures
            r@ == self.sets().dirs_read,
    {
        self.read_from_directories.copy()
    }

    /// The files that the command read.
    pub fn read_from_files(&self) -> (r: PathSet)
        ensures
            r@ == self.sets().files_read,
    {
        self.read_from_files.copy()
    }

    /// The files that the command wrote to.
    pub fn written_to_files(&self) -> (r: PathSet)
        ensures
            r@ == self.sets().files_written,
    {
        self.written_to_files.copy()
    }

    /// The directories that the command created.
    pub fn mkdir_directories(&self) -> (r: PathSet)
        ensures
            r@ == self.sets().dirs_made,
    {
        self.mkdir_directories.copy()
    }

    /// Hands out the saved output, once.
    pub fn stdout(&mut self) -> (r: Option<i32>)
        ensures
            r == old(self).saved_stdout(),
            final(self).saved_stdout() is None,
            final(self).exit_code() == old(self).exit_code(),
            final(self).sets() == old(self).sets(),
    {
        self.stdout_fd.take()
    }

    /// Records how the command ended.
    pub fn set_exit(&mut self, code: i32)
        ensures
            final(self).exit_code() == code,
            final(self).saved_stdout() == old(self).saved_stdout(),
            final(self).sets() == old(self).sets(),
    {
        self.status = code;
    }

    /// Records one access.
    pub fn record(&mut self, a: &Access)
        ensures
            final(self).sets() == after_access(old(self).sets(), *a),
            final(self).exit_code() == old(self).exit_code(),
            final(self).saved_stdout() == old(self).saved_stdout(),
            reads_and_writes_apart(old(self).sets()) ==> reads_and_writes_apart(final(self).sets()),
    {
        match a {
            Access::Read(p) => {
                if !self.written_to_files.contains(p.as_slice()) {
                    self.read_from_files.insert(p.as_slice());
                }
            },
            Access::Write(p) | Access::Touch(p) => {
                self.read_from_files.remove(p.as_slice());
                self.written_to_files.insert(p.as_slice());
            },
            Access::Link { from, to } => {
                if !self.written_to_files.contains(from.as_slice()) {
                    self.read_from_files.insert(from.as_slice());
                }
                self.read_from_files.remove(to.as_slice());
                self.written_to_files.insert(to.as_slice());
            },
            Access::Rename { from, to } => {
                self.read_from_directories = self.read_from_directories.rename(from.as_slice(), to.as_slice());
                let mut read = self.read_from_files.rename(from.as_slice(), to.as_slice());
                read.remove(to.as_slice());
                let mut written = self.written_to_files.rename(from.as_slice(), to.as_slice());
                written.insert(to.as_slice());
                self.read_from_files = read;
                self.written_to_files = written;
                self.mkdir_directories = self.mkdir_directories.rename(from.as_slice(), to.as_slice());
            },
            Access::ListDir(p) => {
                self.read_from_directories.insert(p.as_slice());
            },
            Access::MakeDir(p) => {
                self.mkdir_directories.insert(p.as_slice());
            },
            Access::Delete(p) => {
                self.read_from_directories.remove(p.as_slice());
                self.read_from_files.remove(p.as_slice());
                self.written_to_files.remove(p.as_slice());
                self.mkdir_directories.remove(p.as_slice());
            },
        }
        assert(self.sets() == after_access(old(self).sets(), *a));
        proof {
            if reads_and_writes_apart(old(self).sets()) {
                law_reads_and_writes_stay_apart(old(self).sets(), *a);
            }
        }
    }

    /// The path reached by a walk is a symlink to `target`: reading the
    /// symlink counts as reading a file (unless it is reported as
    /// written), and the walk goes on through the target.
    pub fn follow_link(&mut self, walk: &mut RealpathWalk, target: &[u8])
        requires
            old(walk).wf(),
        ensures
            final(walk).wf(),
            final(walk).follows_last() == old(walk).follows_last(),
            final(walk).reached() == crate::realpath::parent_of(old(walk).reached()),
            final(walk).pending() == old(walk).pending() + crate::realpath::target_elements(target@),
            final(self).sets() == (AccessSets {
                files_read: read_into(old(self).sets(), render_reached(*old(walk))),
                ..old(self).sets()
            }),
            final(self).exit_code() == old(self).exit_code(),
            final(self).saved_stdout() == old(self).saved_stdout(),
            reads_and_writes_apart(old(self).sets()) ==> reads_and_writes_apart(final(self).sets()),
    {
        let link = walk.redirect(target);
        if !self.written_to_files.contains(link.as_slice()) {
            self.read_from_files.insert(link.as_slice());
        }
        assert(self.sets() == AccessSets {
            files_read: read_into(old(self).sets(), render_reached(*old(walk))),
            ..old(self).sets()
        });
    }
}

/// The set of the listed paths.
fn set_of(v: &Vec<Vec<u8>>) -> (s: PathSet)
    ensures
        forall|p: Seq<u8>| #[trigger] s@.contains(p) <==> (exists|i: int| 0 <= i < v@.len() && #[trigger] v@[i]@ == p),
{
    let mut s = PathSet::new();
    let mut i: usize = 0;
    while i < v.len()
        invariant
            i <= v@.len(),
            forall|p: Seq<u8>| #[trigger] s@.contains(p) <==> exists|j: int| 0 <= j < i && #[trigger] v@[j]@ == p,
        decreases v@.len() - i,
    {
        s.insert(v[i].as_slice());
        assert forall|p: Seq<u8>| #[trigger] s@.contains(p) <==> exists|j: int| 0 <= j < i + 1 && #[trigger] v@[j]@ == p by {
            if s@.contains(p) && p != v@[i as int]@ {
                let j = choose|j: int| 0 <= j < i && #[trigger] v@[j]@ == p;
            }
            if exists|j: int| 0 <= j < i + 1 && #[trigger] v@[j]@ == p {
                let j = choose|j: int| 0 <= j < i + 1 && #[trigger] v@[j]@ == p;
                if j < i {
                    assert(exists|j: int| 0 <= j < i && #[trigger] v@[j]@ == p);
                }
            }
        }
        i = i + 1;
    }
    s
}

/// Opening a file for writing leaves it reported as written and no
/// longer as read.
pub proof fn law_write_is_not_read(s: AccessSets, p: Vec<u8>)
    ensures
        after_access(s, Access::Write(p)).files_written.contains(p@),
        !after_access(s, Access::Write(p)).files_read.contains(p@),
{
}

/// A deleted file or directory is in no reported set, and nothing else
/// changes.
pub proof fn law_deleted_is_not_reported(s: AccessSets, p: Vec<u8>, q: Seq<u8>)
    ensures
        !reported(after_access(s, Access::Delete(p)), p@),
        q != p@ ==> (reported(after_access(s, Access::Delete(p)), q) == reported(s, q)),
{
}

/// After a rename only the new names are reported: nothing at or inside
/// the old name is in any set, the new name is reported as written, and
/// every path at or inside the old name that was reported is reported at
/// its new place, in the same set (a file read stays read unless it is
/// the renamed entry itself, which counts as written).  A rename between
/// a directory and a path inside it fails, so it is left out.
pub proof fn law_rename_reports_new_name(s: AccessSets, from: Vec<u8>, to: Vec<u8>, p: Seq<u8>, q: Seq<u8>)
    requires
        !within(from@, to@),
        !within(to@, from@),
    ensures
        within(q, from@) ==> !reported(after_access(s, Access::Rename { from, to }), q),
        after_access(s, Access::Rename { from, to }).files_written.contains(to@),
        !after_access(s, Access::Rename { from, to }).files_read.contains(to@),
        within(p, from@) && s.dirs_read.contains(p)
            ==> after_access(s, Access::Rename { from, to }).dirs_read.contains(moved(p, from@, to@)),
        within(p, from@) && s.dirs_made.contains(p)
            ==> after_access(s, Access::Rename { from, to }).dirs_made.contains(moved(p, from@, to@)),
        within(p, from@) && s.files_written.contains(p)
            ==> after_access(s, Access::Rename { from, to }).files_written.contains(moved(p, from@, to@)),
        within(p, from@) && s.files_read.contains(p) && moved(p, from@, to@) != to@
            ==> after_access(s, Access::Rename { from, to }).files_read.contains(moved(p, from@, to@)),
{
    let t = after_access(s, Access::Rename { from, to });
    if within(q, from@) {
        assert forall|x: Set<Seq<u8>>| #![trigger renamed(x, from@, to@)] !renamed(x, from@, to@).contains(q) by {
            if renamed(x, from@, to@).contains(q) {
                let o = choose|o: Seq<u8>| #[trigger] x.contains(o) && survives(o, from@, to@)
                    && moved(o, from@, to@) == q;
                if within(o, from@) {
                    lemma_moved_within(o, from@, to@);
                    lemma_within_both(q, from@, to@);
                }
            }
        }
        assert(!renamed(s.dirs_read, from@, to@).contains(q));
        assert(!renamed(s.files_read, from@, to@).contains(q));
        assert(!renamed(s.files_written, from@, to@).contains(q));
        assert(!renamed(s.dirs_made, from@, to@).contains(q));
        assert(q != to@);
    }
    if within(p, from@) {
        assert(s.dirs_read.contains(p) ==> renamed(s.dirs_read, from@, to@).contains(moved(p, from@, to@)));
        assert(s.dirs_made.contains(p) ==> renamed(s.dirs_made, from@, to@).contains(moved(p, from@, to@)));
        assert(s.files_written.contains(p) ==> renamed(s.files_written, from@, to@).contains(moved(p, from@, to@)));
        assert(s.files_read.contains(p) ==> renamed(s.files_read, from@, to@).contains(moved(p, from@, to@)));
    }
}

/// Listing a directory reports it as read and changes nothing else: it
/// does not report the directory, or anything else, as created.
pub proof fn law_listing_reads_directory_only(s: AccessSets, p: Vec<u8>)
    ensures
        after_access(s, Access::ListDir(p)).dirs_read.contains(p@),
        forall|q: Seq<u8>| q != p@ ==>
            (after_access(s, Access::ListDir(p)).dirs_read.contains(q) == s.dirs_read.contains(q)),
        after_access(s, Access::ListDir(p)).dirs_made == s.dirs_made,
        after_access(s, Access::ListDir(p)).files_read == s.files_read,
        after_access(s, Access::ListDir(p)).files_written == s.files_written,
{
}

/// Reading a file changes only the files read, and adds it there unless
/// it is reported as written; creating a directory changes only the
/// directories created.
pub proof fn law_read_and_mkdir_touch_their_set_only(s: AccessSets, p: Vec<u8>)
    ensures
        after_access(s, Access::Read(p)).dirs_read == s.dirs_read,
        after_access(s, Access::Read(p)).dirs_made == s.dirs_made,
        after_access(s, Access::Read(p)).files_written == s.files_written,
        !s.files_written.contains(p@) ==> after_access(s, Access::Read(p)).files_read.contains(p@),
        s.files_written.contains(p@) ==> after_access(s, Access::Read(p)).files_read == s.files_read,
        forall|q: Seq<u8>| q != p@ ==>
            (after_access(s, Access::Read(p)).files_read.contains(q) == s.files_read.contains(q)),
        after_access(s, Access::MakeDir(p)).dirs_made.contains(p@),
        after_access(s, Access::MakeDir(p)).dirs_read == s.dirs_read,
        after_access(s, Access::MakeDir(p)).files_read == s.files_read,
        after_access(s, Access::MakeDir(p)).files_written == s.files_written,
{
}

/// Only a mkdir adds a created directory (a rename only moves those
/// already reported), and only a directory listing adds a directory read.
pub proof fn law_created_and_listed_come_from_their_calls(s: AccessSets, a: Access, q: Seq<u8>)
    requires
        !(a is Rename),
    ensures
        after_access(s, a).dirs_made.contains(q) && !s.dirs_made.contains(q)
            ==> (a matches Access::MakeDir(p) && p@ == q),
        after_access(s, a).dirs_read.contains(q) && !s.dirs_read.contains(q)
            ==> (a matches Access::ListDir(p) && p@ == q),
{
}

/// A file written to is never reported as also read from: every access
/// keeps the files read apart from the files written.
pub proof fn law_reads_and_writes_stay_apart(s: AccessSets, a: Access)
    requires
        reads_and_writes_apart(s),
    ensures
        reads_and_writes_apart(after_access(s, a)),
{
    let t = after_access(s, a);
    assert forall|p: Seq<u8>| t.files_read.contains(p) implies !t.files_written.contains(p) by {
        assert(!(s.files_read.contains(p) && s.files_written.contains(p)));
        if let Access::Rename { from, to } = a {
            if t.files_written.contains(p) {
                assert(p != to@);
                let p1 = choose|o: Seq<u8>| #[trigger] s.files_read.contains(o) && survives(o, from@, to@)
                    && moved(o, from@, to@) == p;
                let p2 = choose|o: Seq<u8>| #[trigger] s.files_written.contains(o) && survives(o, from@, to@)
                    && moved(o, from@, to@) == p;
                lemma_moved_injective(p1, p2, from@, to@);
            }
        }
    }
}

} // verus!
