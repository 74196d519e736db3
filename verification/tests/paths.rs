use bigbro::paths::{absolute, components, decimal_of, digits, render_path};

fn comps(p: &[u8]) -> Vec<Vec<u8>> {
    components(p)
}

fn v(parts: &[&str]) -> Vec<Vec<u8>> {
    parts.iter().map(|s| s.as_bytes().to_vec()).collect()
}

#[test]
fn split_drops_empty_and_dot() {
    assert_eq!(comps(b"/a//b/./c/"), v(&["a", "b", "c"]));
    assert_eq!(comps(b"./x"), v(&["x"]));
    assert_eq!(comps(b"../x/.."), v(&["..", "x", ".."]));
    assert_eq!(comps(b"/"), v(&[]));
    assert_eq!(comps(b""), v(&[]));
    assert_eq!(comps(b".hidden/..."), v(&[".hidden", "..."]));
}

#[test]
fn absolute_paths() {
    assert!(absolute(b"/tmp"));
    assert!(!absolute(b"tmp"));
    assert!(!absolute(b""));
}

#[test]
fn render_joins_under_root() {
    assert_eq!(render_path(&v(&[])), b"/".to_vec());
    assert_eq!(render_path(&v(&["usr", "lib"])), b"/usr/lib".to_vec());
}

#[test]
fn render_then_split_is_identity() {
    let c = v(&["proc", "123", "fd", "4"]);
    assert_eq!(components(&render_path(&c)), c);
}

#[test]
fn decimals() {
    assert_eq!(decimal_of(0), b"0".to_vec());
    assert_eq!(decimal_of(7), b"7".to_vec());
    assert_eq!(decimal_of(1234), b"1234".to_vec());
    assert_eq!(decimal_of(-100), b"-100".to_vec());
    assert_eq!(decimal_of(i32::MIN), b"-2147483648".to_vec());
    assert_eq!(digits(u64::MAX), b"18446744073709551615".to_vec());
}
