use bigbro::registers::{Regs, TraceeString};

fn regs(cs: u64) -> Regs {
    Regs { cs, rax: 0, rbx: 1, rcx: 2, rdx: 3, rsi: 4, rdi: 5, rbp: 6, r8: 7, r9: 8, r10: 9 }
}

#[test]
fn x86_64_argument_order() {
    assert_eq!(regs(0x33).syscall_args(), [5, 4, 3, 9, 7, 8]);
}

#[test]
fn x86_argument_order() {
    assert_eq!(regs(0x23).syscall_args(), [1, 2, 3, 4, 5, 6]);
}

#[test]
fn zeroed_registers_give_zero_arguments() {
    assert_eq!(Regs::zeroed().syscall_args(), [0; 6]);
    assert_eq!(Regs::zeroed().return_value(), 0);
}

#[test]
fn return_value_is_low_half() {
    let mut r = Regs::zeroed();
    r.rax = u64::MAX;
    assert_eq!(r.return_value(), -1);
    r.rax = 0x1_0000_0005;
    assert_eq!(r.return_value(), 5);
}

#[test]
fn null_string_is_empty() {
    let s = TraceeString::new(0);
    assert_eq!(s.next_addr(), None);
    assert!(s.text_bytes().is_empty());
}

#[test]
fn string_over_two_words() {
    let mut s = TraceeString::new(100);
    assert_eq!(s.next_addr(), Some(100));
    s.absorb(b"/usr/lib");
    assert_eq!(s.next_addr(), Some(108));
    s.absorb(b"/x\0junk!");
    assert_eq!(s.next_addr(), None);
    assert_eq!(s.text_bytes(), b"/usr/lib/x".to_vec());
}

#[test]
fn unreadable_word_ends_string() {
    let mut s = TraceeString::new(100);
    s.absorb(b"abcdefgh");
    s.stop();
    assert_eq!(s.next_addr(), None);
    assert_eq!(s.text_bytes(), b"abcdefgh".to_vec());
}

#[test]
fn address_past_the_end_ends_string() {
    let mut s = TraceeString::new(usize::MAX - 3);
    assert_eq!(s.next_addr(), Some(usize::MAX - 3));
    s.absorb(b"abcdefgh");
    assert_eq!(s.next_addr(), None);
}
