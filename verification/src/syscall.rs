//! The system calls that the tracer asks seccomp to report.

use vstd::prelude::*;

verus! {

/// A traced system call family.
#[derive(Debug, Clone, Copy, PartialEq, Eq, Structural)]
pub enum Syscall {
    Open,
    OpenAt,
    Getdents,
    Lstat,
    Stat,
    Readlinkat,
    Mkdir,
    Mkdirat,
    Unlink,
    Unlinkat,
    Chdir,
    Link,
    Linkat,
    Symlink,
    Symlinkat,
    Execve,
    Execveat,
    Futimesat,
    Utimensat,
    Rmdir,
    Truncate,
    Rename,
    Renameat,
    Renameat2,
}

/// Number of traced system call families.
pub const NUM_SYSCALLS: usize = 24;

/// The table of traced families, in the order in which their index is
/// handed to seccomp as trace data.
pub open spec fn syscall_table() -> Seq<Syscall> {
    seq![
        Syscall::Open, Syscall::OpenAt, Syscall::Getdents, Syscall::Lstat, Syscall::Stat,
        Syscall::Readlinkat, Syscall::Mkdir, Syscall::Mkdirat,
        Syscall::Unlink, Syscall::Unlinkat, Syscall::Chdir, Syscall::Link, Syscall::Linkat,
        Syscall::Symlink, Syscall::Symlinkat, Syscall::Execve, Syscall::Execveat,
        Syscall::Futimesat, Syscall::Utimensat, Syscall::Rmdir, Syscall::Truncate,
        Syscall::Rename, Syscall::Renameat, Syscall::Renameat2,
    ]
}

/// The name under which a family is printed.
pub open spec fn syscall_name(s: Syscall) -> Seq<char> {
    match s {
        Syscall::Open => "open"@,
        Syscall::OpenAt => "openat"@,
        Syscall::Getdents => "getdents"@,
        Syscall::Lstat => "lstat/readlink"@,
        Syscall::Stat => "stat"@,
        Syscall::Readlinkat => "readlinkat"@,
        Syscall::Mkdir => "mkdir"@,
        Syscall::Mkdirat => "mkdirat"@,
        Syscall::Link => "link"@,
        Syscall::Linkat => "linkat"@,
        Syscall::Symlink => "symlink"@,
        Syscall::Symlinkat => "symlinkat"@,
        Syscall::Unlink => "unlink"@,
        Syscall::Unlinkat => "unlinkat"@,
        Syscall::Execve => "execve"@,
        Syscall::Execveat => "execveat"@,
        Syscall::Chdir => "chdir"@,
        Syscall::Futimesat => "futimesat"@,
        Syscall::Utimensat => "utimensat"@,
        Syscall::Rmdir => "rmdir"@,
        Syscall::Truncate => "truncate"@,
        Syscall::Rename => "rename"@,
        Syscall::Renameat => "renameat"@,
        Syscall::Renameat2 => "renameat2"@,
    }
}

/// The names of the system calls of each family, the ones a seccomp rule
/// is added for.  A name stands for the call on every architecture the
/// filter covers, so the 32-bit variants (`lstat64`, `stat64`,
/// `truncate64`) are listed beside the native ones.
pub open spec fn seccomp_names(s: Syscall) -> Seq<Seq<char>> {
    match s {
        Syscall::Open => seq!["open"@],
        Syscall::OpenAt => seq!["openat"@],
        Syscall::Getdents => seq!["getdents"@, "getdents64"@],
        Syscall::Lstat => seq!["lstat"@, "lstat64"@, "readlink"@],
        Syscall::Stat => seq!["stat"@, "stat64"@],
        Syscall::Readlinkat => seq!["readlinkat"@],
        Syscall::Mkdir => seq!["mkdir"@],
        Syscall::Mkdirat => seq!["mkdirat"@],
        Syscall::Link => seq!["link"@],
        Syscall::Linkat => seq!["linkat"@],
        Syscall::Symlink => seq!["symlink"@],
        Syscall::Symlinkat => seq!["symlinkat"@],
        Syscall::Unlink => seq!["unlink"@],
        Syscall::Unlinkat => seq!["unlinkat"@],
        Syscall::Execve => seq!["execve"@],
        Syscall::Execveat => seq!["execveat"@],
        Syscall::Chdir => seq!["chdir"@],
        Syscall::Futimesat => seq!["futimesat"@],
        Syscall::Utimensat => seq!["utimensat"@],
        Syscall::Rmdir => seq!["rmdir"@],
        Syscall::Truncate => seq!["truncate"@, "truncate64"@],
        Syscall::Rename => seq!["rename"@],
        Syscall::Renameat => seq!["renameat"@],
        Syscall::Renameat2 => seq!["renameat2"@],
    }
}

/// A seccomp rule: calls of the system call named `name` stop the tracee
/// and report `data` to the tracer.
#[derive(Debug, Clone, Copy, PartialEq, Eq)]
pub struct TraceRule {
    pub name: &'static str,
    pub data: u32,
}

/// A rule as the name it covers and the value it reports.
pub open spec fn rule_view(t: TraceRule) -> (Seq<char>, u32) {
    (t.name@, t.data)
}

/// The rules for the first `n` families of the table, in order.
pub open spec fn rules_upto(n: nat) -> Seq<(Seq<char>, u32)>
    decreases n,
{
    if n == 0 {
        Seq::empty()
    } else {
        let k = (n - 1) as nat;
        rules_upto(k) + seccomp_names(syscall_table()[k as int]).map_values(
            |nm: Seq<char>| (nm, k as u32),
        )
    }
}

/// The family that the trace data `i` reports.
pub open spec fn family_of(i: int) -> Option<Syscall> {
    if 0 <= i < syscall_table().len() {
        Some(syscall_table()[i])
    } else {
        None
    }
}

/// The family that the trace data `i` reports.
pub fn from_index(i: usize) -> (r: Option<Syscall>)
    ensures
        r == family_of(i as int),
{
    let r = if i == 0 { Some(Syscall::Open) }
    else if i == 1 { Some(Syscall::OpenAt) }
    else if i == 2 { Some(Syscall::Getdents) }
    else if i == 3 { Some(Syscall::Lstat) }
    else if i == 4 { Some(Syscall::Stat) }
    else if i == 5 { Some(Syscall::Readlinkat) }
    else if i == 6 { Some(Syscall::Mkdir) }
    else if i == 7 { Some(Syscall::Mkdirat) }
    else if i == 8 { Some(Syscall::Unlink) }
    else if i == 9 { Some(Syscall::Unlinkat) }
    else if i == 10 { Some(Syscall::Chdir) }
    else if i == 11 { Some(Syscall::Link) }
    else if i == 12 { Some(Syscall::Linkat) }
    else if i == 13 { Some(Syscall::Symlink) }
    else if i == 14 { Some(Syscall::Symlinkat) }
    else if i == 15 { Some(Syscall::Execve) }
    else if i == 16 { Some(Syscall::Execveat) }
    else if i == 17 { Some(Syscall::Futimesat) }
    else if i == 18 { Some(Syscall::Utimensat) }
    else if i == 19 { Some(Syscall::Rmdir) }
    else if i == 20 { Some(Syscall::Truncate) }
    else if i == 21 { Some(Syscall::Rename) }
    else if i == 22 { Some(Syscall::Renameat) }
    else if i == 23 { Some(Syscall::Renameat2) }
    else { None };
    r
}

/// The seccomp rules the tracer installs: one per system call name of
/// each family, reporting the family's place in the table.
pub fn trace_rules() -> (r: Vec<TraceRule>)
    ensures
        r@.map_values(|t: TraceRule| rule_view(t)) == rules_upto(NUM_SYSCALLS as nat),
{
    let mut r: Vec<TraceRule> = Vec::new();
    let mut i: usize = 0;
    while i < NUM_SYSCALLS
        invariant
            i <= NUM_SYSCALLS,
            r@.map_values(|t: TraceRule| rule_view(t)) == rules_upto(i as nat),
        decreases NUM_SYSCALLS - i,
    {
        let s = match from_index(i) {
            Some(s) => s,
            None => Syscall::Open,
        };
        let names = s.seccomp();
        let ghost r0 = r@.map_values(|t: TraceRule| rule_view(t));
        let ghost want = seccomp_names(s);
        let mut j: usize = 0;
        while j < names.len()
            invariant
                i < NUM_SYSCALLS,
                s == syscall_table()[i as int],
                want == seccomp_names(s),
                names@.map_values(|n: &'static str| n@) == want,
                j <= names@.len(),
                r@.map_values(|t: TraceRule| rule_view(t))
                    == r0 + want.take(j as int).map_values(|nm: Seq<char>| (nm, i as u32)),
            decreases names@.len() - j,
        {
            let ghost before = r@;
            let ghost jj = j as int;
            r.push(TraceRule { name: names[j], data: i as u32 });
            proof {
                assert(names@.map_values(|n: &'static str| n@)[jj] == want[jj]);
                assert(r@ == before.push(TraceRule { name: names@[jj], data: i as u32 }));
                let f = |t: TraceRule| rule_view(t);
                let g = |nm: Seq<char>| (nm, i as u32);
                assert(r@.map_values(f) =~= before.map_values(f).push(f(r@[before.len() as int])));
                assert(want.take(jj + 1).map_values(g) =~= want.take(jj).map_values(g).push(g(want[jj])));
            }
            j = j + 1;
            assert(r@.map_values(|t: TraceRule| rule_view(t))
                =~= r0 + want.take(j as int).map_values(|nm: Seq<char>| (nm, i as u32)));
        }
        assert(want.take(want.len() as int) =~= want);
        i = i + 1;
    }
    r
}

proof fn lemma_rules_sound(n: nat, k: int)
    requires
        n <= syscall_table().len(),
        0 <= k < rules_upto(n).len(),
    ensures
        (rules_upto(n)[k].1 as int) < n,
        family_of(rules_upto(n)[k].1 as int) matches Some(s) && seccomp_names(s).contains(rules_upto(n)[k].0),
    decreases n,
{
    let m = (n - 1) as nat;
    let prev = rules_upto(m);
    let names = seccomp_names(syscall_table()[m as int]);
    let added = names.map_values(|nm: Seq<char>| (nm, m as u32));
    assert(rules_upto(n) == prev + added);
    if k < prev.len() {
        lemma_rules_sound(m, k);
        assert(rules_upto(n)[k] == prev[k]);
    } else {
        let j = k - prev.len();
        assert(rules_upto(n)[k] == added[j]);
        assert(names[j] == added[j].0);
        assert(names.contains(added[j].0));
    }
}

proof fn lemma_rules_complete(n: nat, i: int, nm: Seq<char>)
    requires
        n <= syscall_table().len(),
        0 <= i < n,
        seccomp_names(syscall_table()[i]).contains(nm),
    ensures
        rules_upto(n).contains((nm, i as u32)),
    decreases n,
{
    let m = (n - 1) as nat;
    let prev = rules_upto(m);
    let names = seccomp_names(syscall_table()[m as int]);
    let added = names.map_values(|x: Seq<char>| (x, m as u32));
    assert(rules_upto(n) == prev + added);
    if i < m {
        lemma_rules_complete(m, i, nm);
        let k = choose|k: int| 0 <= k < prev.len() && prev[k] == (nm, i as u32);
        assert((prev + added)[k] == prev[k]);
    } else {
        let j = choose|j: int| 0 <= j < names.len() && names[j] == nm;
        assert((prev + added)[prev.len() + j] == added[j]);
    }
}

/// The tracer reads back what it installed: every rule reports the
/// family that owns the rule's system call name, and every name of every
/// family has a rule that reports that family.
pub proof fn law_rules_report_their_family()
    ensures
        forall|k: int| 0 <= k < rules_upto(NUM_SYSCALLS as nat).len() ==>
            (family_of(#[trigger] rules_upto(NUM_SYSCALLS as nat)[k].1 as int) matches Some(s)
                && seccomp_names(s).contains(rules_upto(NUM_SYSCALLS as nat)[k].0)),
        forall|i: int, nm: Seq<char>| 0 <= i < NUM_SYSCALLS && #[trigger] seccomp_names(syscall_table()[i]).contains(nm)
            ==> rules_upto(NUM_SYSCALLS as nat).contains((nm, i as u32)),
{
    assert forall|k: int| 0 <= k < rules_upto(NUM_SYSCALLS as nat).len() implies
        (family_of(#[trigger] rules_upto(NUM_SYSCALLS as nat)[k].1 as int) matches Some(s)
            && seccomp_names(s).contains(rules_upto(NUM_SYSCALLS as nat)[k].0)) by {
        lemma_rules_sound(NUM_SYSCALLS as nat, k);
    }
    assert forall|i: int, nm: Seq<char>| 0 <= i < NUM_SYSCALLS && #[trigger] seccomp_names(syscall_table()[i]).contains(nm)
        implies rules_upto(NUM_SYSCALLS as nat).contains((nm, i as u32)) by {
        lemma_rules_complete(NUM_SYSCALLS as nat, i, nm);
    }
}

impl Syscall {
    /// The names of the system calls of this family.
    pub fn seccomp(&self) -> (r: Vec<&'static str>)
        ensures
            r@.map_values(|n: &'static str| n@) == seccomp_names(*self),
    {
        let r = match *self {
            Syscall::Open => vec!["open"],
            Syscall::OpenAt => vec!["openat"],
            Syscall::Getdents => vec!["getdents", "getdents64"],
            Syscall::Lstat => vec!["lstat", "lstat64", "readlink"],
            Syscall::Stat => vec!["stat", "stat64"],
            Syscall::Readlinkat => vec!["readlinkat"],
            Syscall::Mkdir => vec!["mkdir"],
            Syscall::Mkdirat => vec!["mkdirat"],
            Syscall::Link => vec!["link"],
            Syscall::Linkat => vec!["linkat"],
            Syscall::Symlink => vec!["symlink"],
            Syscall::Symlinkat => vec!["symlinkat"],
            Syscall::Unlink => vec!["unlink"],
            Syscall::Unlinkat => vec!["unlinkat"],
            Syscall::Execve => vec!["execve"],
            Syscall::Execveat => vec!["execveat"],
            Syscall::Chdir => vec!["chdir"],
            Syscall::Futimesat => vec!["futimesat"],
            Syscall::Utimensat => vec!["utimensat"],
            Syscall::Rmdir => vec!["rmdir"],
            Syscall::Truncate => vec!["truncate", "truncate64"],
            Syscall::Rename => vec!["rename"],
            Syscall::Renameat => vec!["renameat"],
            Syscall::Renameat2 => vec!["renameat2"],
        };
        assert(r@.map_values(|n: &'static str| n@) =~= seccomp_names(*self));
        r
    }

    /// The name under which this family is printed.
    pub fn tostr(&self) -> (r: &'static str)
        ensures
            r@ == syscall_name(*self),
    {
        match *self {
            Syscall::Open => "open",
            Syscall::OpenAt => "openat",
            Syscall::Getdents => "getdents",
            Syscall::Lstat => "lstat/readlink",
            Syscall::Stat => "stat",
            Syscall::Readlinkat => "readlinkat",
            Syscall::Mkdir => "mkdir",
            Syscall::Mkdirat => "mkdirat",
            Syscall::Link => "link",
            Syscall::Linkat => "linkat",
            Syscall::Symlink => "symlink",
            Syscall::Symlinkat => "symlinkat",
            Syscall::Unlink => "unlink",
            Syscall::Unlinkat => "unlinkat",
            Syscall::Execve => "execve",
            Syscall::Execveat => "execveat",
            Syscall::Chdir => "chdir",
            Syscall::Futimesat => "futimesat",
            Syscall::Utimensat => "utimensat",
            Syscall::Rmdir => "rmdir",
            Syscall::Truncate => "truncate",
            Syscall::Rename => "rename",
            Syscall::Renameat => "renameat",
            Syscall::Renameat2 => "renameat2",
        }
    }
}

/// Each system call name belongs to one family only, so a rule's name
/// tells which family it reports; and every family has a name.
pub proof fn law_call_names_belong_to_one_family(a: Syscall, b: Syscall, nm: Seq<char>)
    ensures
        seccomp_names(a).len() > 0,
        seccomp_names(a).contains(nm) && seccomp_names(b).contains(nm) ==> a == b,
{
    reveal_strlit("open");
    reveal_strlit("openat");
    reveal_strlit("getdents");
    reveal_strlit("getdents64");
    reveal_strlit("lstat");
    reveal_strlit("lstat64");
    reveal_strlit("readlink");
    reveal_strlit("stat");
    reveal_strlit("stat64");
    reveal_strlit("readlinkat");
    reveal_strlit("mkdir");
    reveal_strlit("mkdirat");
    reveal_strlit("link");
    reveal_strlit("linkat");
    reveal_strlit("symlink");
    reveal_strlit("symlinkat");
    reveal_strlit("unlink");
    reveal_strlit("unlinkat");
    reveal_strlit("execve");
    reveal_strlit("execveat");
    reveal_strlit("chdir");
    reveal_strlit("futimesat");
    reveal_strlit("utimensat");
    reveal_strlit("rmdir");
    reveal_strlit("truncate");
    reveal_strlit("truncate64");
    reveal_strlit("rename");
    reveal_strlit("renameat");
    reveal_strlit("renameat2");
    // The length, the first and the last character tell the names apart.
    if seccomp_names(a).contains(nm) && seccomp_names(b).contains(nm) {
        let i = choose|i: int| 0 <= i < seccomp_names(a).len() && seccomp_names(a)[i] == nm;
        let j = choose|j: int| 0 <= j < seccomp_names(b).len() && seccomp_names(b)[j] == nm;
        assert(seccomp_names(a)[i].len() == seccomp_names(b)[j].len());
        assert(seccomp_names(a)[i][0] == seccomp_names(b)[j][0]);
        assert(seccomp_names(a)[i][nm.len() - 1] == seccomp_names(b)[j][nm.len() - 1]);
    }
}

/// Each family prints under a name of its own, and no name is empty.
pub proof fn law_family_names_distinct(a: Syscall, b: Syscall)
    ensures
        syscall_name(a).len() > 0,
        syscall_name(a) == syscall_name(b) ==> a == b,
{
    reveal_strlit("open");
    reveal_strlit("openat");
    reveal_strlit("getdents");
    reveal_strlit("lstat/readlink");
    reveal_strlit("stat");
    reveal_strlit("readlinkat");
    reveal_strlit("mkdir");
    reveal_strlit("mkdirat");
    reveal_strlit("link");
    reveal_strlit("linkat");
    reveal_strlit("symlink");
    reveal_strlit("symlinkat");
    reveal_strlit("unlink");
    reveal_strlit("unlinkat");
    reveal_strlit("execve");
    reveal_strlit("execveat");
    reveal_strlit("chdir");
    reveal_strlit("futimesat");
    reveal_strlit("utimensat");
    reveal_strlit("rmdir");
    reveal_strlit("truncate");
    reveal_strlit("rename");
    reveal_strlit("renameat");
    reveal_strlit("renameat2");
    // The length and the first character already tell the names apart.
    assert(syscall_name(a).len() > 0);
    if syscall_name(a) == syscall_name(b) {
        assert(syscall_name(a).len() == syscall_name(b).len());
        assert(syscall_name(a)[0] == syscall_name(b)[0]);
    }
}

} // verus!
