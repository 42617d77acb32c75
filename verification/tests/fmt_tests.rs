use amdgpu_top_tui::fmt::{
    dec_string, push_dec, push_dec_pad_left, push_dec_pad_right, push_hex, push_hex_prefixed,
    push_pad_left, push_pad_right, push_truncated,
};

#[test]
fn dec_string_zero() {
    assert_eq!(dec_string(0), "0");
}

#[test]
fn dec_string_digits() {
    assert_eq!(dec_string(7), "7");
    assert_eq!(dec_string(10), "10");
    assert_eq!(dec_string(12345), "12345");
    assert_eq!(dec_string(u64::MAX), "18446744073709551615");
}

#[test]
fn dec_pad_left_matches_format() {
    let mut s = String::new();
    push_dec_pad_left(&mut s, 42, 6);
    assert_eq!(s, format!("{:>6}", 42));
    let mut t = String::new();
    push_dec_pad_left(&mut t, 1234567, 3);
    assert_eq!(t, "1234567");
}

#[test]
fn dec_pad_right_matches_format() {
    let mut s = String::new();
    push_dec_pad_right(&mut s, 3, 2);
    assert_eq!(s, format!("{:<2}", 3));
}

#[test]
fn hex_uppercase() {
    let mut s = String::new();
    push_hex(&mut s, 0x73DF);
    assert_eq!(s, "73DF");
    let mut t = String::new();
    push_hex(&mut t, 0);
    assert_eq!(t, "0");
}

#[test]
fn hex_prefixed_matches_format() {
    let mut s = String::new();
    push_hex_prefixed(&mut s, 0x73DF, 4);
    assert_eq!(s, format!("{:#06X}", 0x73DF));
    let mut t = String::new();
    push_hex_prefixed(&mut t, 0xC1, 2);
    assert_eq!(t, format!("{:#04X}", 0xC1));
    let mut u = String::new();
    push_hex_prefixed(&mut u, 0x1, 2);
    assert_eq!(u, "0x01");
    let mut v = String::new();
    push_hex_prefixed(&mut v, 0x1002, 0);
    assert_eq!(v, format!("{:#X}", 0x1002));
}

#[test]
fn string_padding_matches_format() {
    let mut s = String::new();
    push_pad_left(&mut s, "ab", 5);
    assert_eq!(s, format!("{:>5}", "ab"));
    let mut t = String::new();
    push_pad_right(&mut t, "ab", 5);
    assert_eq!(t, format!("{:<5}", "ab"));
}

#[test]
fn truncation_keeps_prefix() {
    let mut s = String::new();
    push_truncated(&mut s, "abcdef", 4);
    assert_eq!(s, "abcd");
    let mut t = String::new();
    push_truncated(&mut t, "abc", 4);
    assert_eq!(t, "abc");
}

#[test]
fn push_dec_appends() {
    let mut s = String::from("x=");
    push_dec(&mut s, 99);
    assert_eq!(s, "x=99");
}
