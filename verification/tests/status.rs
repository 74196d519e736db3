use bigbro::status::Access;
use bigbro::pathset::{is_within, PathSet};
use bigbro::Status;

fn b(s: &str) -> Vec<u8> {
    s.as_bytes().to_vec()
}

fn sorted(v: Vec<Vec<u8>>) -> Vec<String> {
    let mut r: Vec<String> = v.into_iter().map(|p| String::from_utf8(p).unwrap()).collect();
    r.sort();
    r
}

#[test]
fn started_status_is_empty() {
    let s = Status::started(Some(9));
    assert_eq!(s.status(), 137);
    assert_eq!(s.read_from_files().len(), 0);
    assert_eq!(s.written_to_files().len(), 0);
    assert_eq!(s.read_from_directories().len(), 0);
    assert_eq!(s.mkdir_directories().len(), 0);
}

#[test]
fn written_file_is_not_read() {
    let mut s = Status::started(None);
    s.record(&Access::Read(b("/tmp/f")));
    assert!(s.read_from_files().contains(b"/tmp/f"));
    s.record(&Access::Write(b("/tmp/f")));
    assert!(s.written_to_files().contains(b"/tmp/f"));
    assert!(!s.read_from_files().contains(b"/tmp/f"));
}

#[test]
fn deleted_file_is_not_reported() {
    let mut s = Status::started(None);
    s.record(&Access::Write(b("/tmp/a")));
    s.record(&Access::Read(b("/tmp/b")));
    s.record(&Access::Delete(b("/tmp/a")));
    s.record(&Access::Delete(b("/tmp/b")));
    assert_eq!(s.read_from_files().len(), 0);
    assert_eq!(s.written_to_files().len(), 0);
}

#[test]
fn each_path_reported_once() {
    let mut s = Status::started(None);
    s.record(&Access::Read(b("/etc/passwd")));
    s.record(&Access::Read(b("/etc/passwd")));
    s.record(&Access::ListDir(b("/tmp")));
    s.record(&Access::ListDir(b("/tmp")));
    assert_eq!(sorted(s.read_from_files().to_vec()), vec!["/etc/passwd"]);
    assert_eq!(sorted(s.read_from_directories().to_vec()), vec!["/tmp"]);
}

#[test]
fn link_reads_source_and_writes_target() {
    let mut s = Status::started(None);
    s.record(&Access::Link { from: b("/a"), to: b("/b") });
    assert_eq!(sorted(s.read_from_files().to_vec()), vec!["/a"]);
    assert_eq!(sorted(s.written_to_files().to_vec()), vec!["/b"]);
}

#[test]
fn touch_and_mkdir() {
    let mut s = Status::started(None);
    s.record(&Access::Touch(b("/t")));
    s.record(&Access::MakeDir(b("/d")));
    s.record(&Access::Read(b("/t")));
    assert_eq!(sorted(s.written_to_files().to_vec()), vec!["/t"]);
    assert_eq!(sorted(s.mkdir_directories().to_vec()), vec!["/d"]);
}

#[test]
fn read_after_write_stays_written_only() {
    let mut s = Status::started(None);
    s.record(&Access::Write(b("/x")));
    s.record(&Access::Read(b("/x")));
    assert!(!s.read_from_files().contains(b"/x"));
    assert!(s.written_to_files().contains(b"/x"));
}

#[test]
fn touch_and_link_target_leave_reads() {
    let mut s = Status::started(None);
    s.record(&Access::Read(b("/a")));
    s.record(&Access::Read(b("/b")));
    s.record(&Access::Touch(b("/a")));
    s.record(&Access::Link { from: b("/c"), to: b("/b") });
    assert_eq!(sorted(s.read_from_files().to_vec()), vec!["/c"]);
    assert_eq!(sorted(s.written_to_files().to_vec()), vec!["/a", "/b"]);
}

#[test]
fn deleted_directory_is_not_reported() {
    let mut s = Status::started(None);
    s.record(&Access::MakeDir(b("/d")));
    s.record(&Access::ListDir(b("/d")));
    s.record(&Access::MakeDir(b("/e")));
    s.record(&Access::Delete(b("/d")));
    assert_eq!(sorted(s.mkdir_directories().to_vec()), vec!["/e"]);
    assert_eq!(s.read_from_directories().len(), 0);
}

#[test]
fn rename_reports_only_new_name() {
    let mut s = Status::started(None);
    s.record(&Access::Write(b("/tmp/a")));
    s.record(&Access::Read(b("/tmp/b")));
    s.record(&Access::Rename { from: b("/tmp/a"), to: b("/tmp/b") });
    assert_eq!(sorted(s.written_to_files().to_vec()), vec!["/tmp/b"]);
    assert_eq!(s.read_from_files().len(), 0);
    s.record(&Access::MakeDir(b("/tmp/d")));
    s.record(&Access::Rename { from: b("/tmp/d"), to: b("/tmp/e") });
    assert_eq!(sorted(s.mkdir_directories().to_vec()), vec!["/tmp/e"]);
}

#[test]
fn renaming_a_directory_moves_what_is_inside() {
    let mut s = Status::started(None);
    s.record(&Access::MakeDir(b("/w/d")));
    s.record(&Access::MakeDir(b("/w/d/sub")));
    s.record(&Access::Write(b("/w/d/sub/f")));
    s.record(&Access::Read(b("/w/d/g")));
    s.record(&Access::ListDir(b("/w/d")));
    s.record(&Access::Read(b("/w/dx")));
    s.record(&Access::Write(b("/w/e/old")));
    s.record(&Access::Rename { from: b("/w/d"), to: b("/w/e") });
    assert_eq!(sorted(s.mkdir_directories().to_vec()), vec!["/w/e", "/w/e/sub"]);
    assert_eq!(sorted(s.written_to_files().to_vec()), vec!["/w/e", "/w/e/sub/f"]);
    assert_eq!(sorted(s.read_from_files().to_vec()), vec!["/w/dx", "/w/e/g"]);
    assert_eq!(sorted(s.read_from_directories().to_vec()), vec!["/w/e"]);
}

#[test]
fn from_lists_drops_duplicates() {
    let s = Status::from_lists(
        256,
        &vec![b("/d"), b("/d")],
        &vec![b("/r1"), b("/r2"), b("/r1")],
        &vec![b("/r2")],
        &vec![b("/m")],
        None,
    );
    assert_eq!(s.status(), 256);
    assert_eq!(s.read_from_directories().len(), 1);
    assert_eq!(sorted(s.read_from_files().to_vec()), vec!["/r1"]);
    assert_eq!(sorted(s.written_to_files().to_vec()), vec!["/r2"]);
    assert_eq!(s.mkdir_directories().len(), 1);
}

#[test]
fn stdout_is_handed_out_once() {
    let mut s = Status::started(Some(5));
    assert_eq!(s.stdout(), Some(5));
    assert_eq!(s.stdout(), None);
}

#[test]
fn exit_is_recorded() {
    let mut s = Status::started(None);
    s.set_exit(0);
    assert_eq!(s.status(), 0);
}

#[test]
fn pathset_basics() {
    let mut p = bigbro::pathset::PathSet::new();
    p.insert(b"/a");
    p.insert(b"/b");
    p.insert(b"/a");
    assert_eq!(p.len(), 2);
    p.remove(b"/a");
    assert!(!p.contains(b"/a"));
    assert!(p.contains(b"/b"));
    p.remove(b"/zzz");
    assert_eq!(p.copy().len(), 1);
}

#[test]
fn untracked_reports_nothing() {
    let s = Status::untracked(3, Some(4));
    assert_eq!(s.status(), 3);
    assert_eq!(s.read_from_files().len(), 0);
    assert_eq!(s.written_to_files().len(), 0);
    assert_eq!(s.read_from_directories().len(), 0);
    assert_eq!(s.mkdir_directories().len(), 0);
}

#[test]
fn blind_run_saves_output_like_a_traced_run() {
    let mut c = bigbro::Command::new(b"echo");
    c.save_stdouterr(Ok(7));
    let mut blind = Status::after_blind_run(&c, 3 << 8, Some(7));
    let mut traced = Status::before_traced_run(&c, Some(7));
    traced.set_exit(3 << 8);
    assert_eq!(blind.status(), traced.status());
    assert_eq!(blind.stdout(), Some(7));
    assert_eq!(traced.stdout(), Some(7));
    assert!(blind.read_from_files().to_vec().is_empty());
    assert!(blind.written_to_files().to_vec().is_empty());
    let plain = bigbro::Command::new(b"echo");
    let mut blind = Status::after_blind_run(&plain, 9, Some(1));
    assert_eq!(blind.status(), 9);
    assert_eq!(blind.stdout(), None);
}

#[test]
fn path_set_rename_and_within() {
    assert!(is_within(b"/a/b", b"/a/b"));
    assert!(is_within(b"/a/b/c", b"/a/b"));
    assert!(!is_within(b"/a/bc", b"/a/b"));
    assert!(!is_within(b"/a", b"/a/b"));
    let mut p = PathSet::new();
    p.insert(b"/a/b");
    p.insert(b"/a/b/c");
    p.insert(b"/a/bc");
    p.insert(b"/x/y");
    let r = p.rename(b"/a/b", b"/x");
    assert_eq!(sorted(r.to_vec()), vec!["/a/bc", "/x", "/x/c"]);
}
