use std::cell::Cell;

use interakt::interact_count_lines;
use interakt::interact_identity;
use interakt::interact_on;
use interakt::interact_rev_lines;
use interakt::text::DecodeError;

#[test]
fn it_works() {
    assert_eq!(2 + 2, 4);
}

#[test]
fn identity_is_a_pass_through() {
    let input = b"hello, world\nsecond line\n".to_vec();
    let r = interact_identity(input.clone());
    assert_eq!(r, Ok(input));
}

#[test]
fn identity_keeps_multibyte_text() {
    let input = "h\u{e9}llo w\u{f6}rld \u{1f980}".as_bytes().to_vec();
    let r = interact_identity(input.clone());
    assert_eq!(r, Ok(input));
}

#[test]
fn identity_on_empty_input() {
    let r = interact_identity(Vec::new());
    assert_eq!(r, Ok(Vec::new()));
}

#[test]
fn transformation_applied_exactly_once() {
    let calls = Cell::new(0u32);
    let f = |s: String| -> String {
        calls.set(calls.get() + 1);
        s
    };
    let r = interact_on(f, b"abc".to_vec());
    assert_eq!(calls.get(), 1);
    assert_eq!(r, Ok(b"abc".to_vec()));
}

#[test]
fn invalid_utf8_is_a_decode_error() {
    let r = interact_identity(vec![0xff, 0xfe, 0xfd]);
    assert_eq!(r, Err(DecodeError));
}

#[test]
fn invalid_continuation_byte_is_a_decode_error() {
    let r = interact_identity(vec![0xc3, 0x28]);
    assert_eq!(r, Err(DecodeError));
}

#[test]
fn no_output_and_no_call_on_decode_failure() {
    let calls = Cell::new(0u32);
    let f = |s: String| -> String {
        calls.set(calls.get() + 1);
        s
    };
    let r = interact_on(f, vec![0x80]);
    assert_eq!(calls.get(), 0);
    assert_eq!(r, Err(DecodeError));
}

#[test]
fn count_lines_three_lines() {
    let r = interact_count_lines(b"a\nbb\nccc\n".to_vec());
    assert_eq!(r, Ok(b"3\n".to_vec()));
}

#[test]
fn count_lines_without_trailing_newline() {
    let r = interact_count_lines(b"x".to_vec());
    assert_eq!(r, Ok(b"1\n".to_vec()));
}

#[test]
fn rev_lines_reverses_within_each_line() {
    let r = interact_rev_lines(b"ab\ncd".to_vec());
    assert_eq!(r, Ok(b"ba\ndc".to_vec()));
}

#[test]
fn adapter_takes_any_transformation() {
    let f = |s: String| -> String { s.to_uppercase() };
    let r = interact_on(f, b"mixed Case\n".to_vec());
    assert_eq!(r, Ok(b"MIXED CASE\n".to_vec()));
}

#[test]
fn adapter_output_may_outgrow_input() {
    let f = |s: String| -> String { format!("<<{s}>>") };
    let r = interact_on(f, b"core".to_vec());
    assert_eq!(r, Ok(b"<<core>>".to_vec()));
}
