use mouse_trail::decimal::{parse_i32, push_i32_text};
use std::str::FromStr;

fn text(v: i32) -> Vec<u8> {
    let mut out = Vec::new();
    push_i32_text(&mut out, v);
    out
}

#[test]
fn writes_like_display() {
    for v in [0, 1, 9, 10, 42, 99, 100, 1234567, -1, -7, -10, -305, i32::MAX, i32::MIN] {
        assert_eq!(text(v), format!("{}", v).into_bytes());
    }
}

#[test]
fn appends_after_what_is_there() {
    let mut out = b"x=".to_vec();
    push_i32_text(&mut out, -12);
    assert_eq!(out, b"x=-12".to_vec());
}

#[test]
fn reads_like_from_str() {
    let cases = [
        "0", "7", "+5", "-5", "007", "-0", "+0", "2147483647", "2147483648", "-2147483648",
        "-2147483649", "99999999999999999999", "", "+", "-", "+-1", "-+1", "1a", " 1", "1 ",
        "12-3", "--1", "٣",
    ];
    for c in cases {
        assert_eq!(parse_i32(c.as_bytes()), i32::from_str(c).ok(), "case {:?}", c);
    }
}

#[test]
fn reads_back_what_it_writes() {
    for v in [0, 5, -5, 1000, -1000, i32::MAX, i32::MIN] {
        assert_eq!(parse_i32(&text(v)), Some(v));
    }
}
