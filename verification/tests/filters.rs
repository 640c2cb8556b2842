use interakt::lines::count_lines;
use interakt::lines::line_count;
use interakt::lines::rev_lines;
use interakt::lines::split_lines;
use interakt::lines::usize_to_decimal;
use interakt::text::chars_of;
use interakt::text::string_of;

#[test]
fn split_lines_basic() {
    let ls = split_lines("a\nbb\nccc\n");
    assert_eq!(ls, vec!["a".to_string(), "bb".to_string(), "ccc".to_string()]);
}

#[test]
fn split_lines_empty_text_has_no_lines() {
    let ls = split_lines("");
    assert!(ls.is_empty());
}

#[test]
fn split_lines_final_terminator_is_optional() {
    assert_eq!(split_lines("a\nb"), split_lines("a\nb\n"));
}

#[test]
fn split_lines_strips_carriage_return_before_newline() {
    let ls = split_lines("a\r\nb");
    assert_eq!(ls, vec!["a".to_string(), "b".to_string()]);
}

#[test]
fn split_lines_keeps_lone_trailing_carriage_return() {
    let ls = split_lines("x\r");
    assert_eq!(ls, vec!["x\r".to_string()]);
}

#[test]
fn split_lines_keeps_empty_lines() {
    let ls = split_lines("\n\na\n");
    assert_eq!(ls, vec!["".to_string(), "".to_string(), "a".to_string()]);
}

#[test]
fn line_count_values() {
    assert_eq!(line_count(""), 0);
    assert_eq!(line_count("\n"), 1);
    assert_eq!(line_count("x"), 1);
    assert_eq!(line_count("a\nbb\nccc\n"), 3);
}

#[test]
fn decimal_of_zero() {
    assert_eq!(usize_to_decimal(0), "0");
}

#[test]
fn decimal_of_single_digit() {
    assert_eq!(usize_to_decimal(7), "7");
}

#[test]
fn decimal_of_round_number() {
    assert_eq!(usize_to_decimal(10), "10");
}

#[test]
fn decimal_of_larger_number() {
    assert_eq!(usize_to_decimal(987654), "987654");
}

#[test]
fn count_lines_formats_count_with_newline() {
    assert_eq!(count_lines("a\nbb\nccc\n".to_string()), "3\n");
    assert_eq!(count_lines("".to_string()), "0\n");
    assert_eq!(count_lines("x".to_string()), "1\n");
}

#[test]
fn rev_lines_reverses_each_line_in_order() {
    assert_eq!(rev_lines("ab\ncd".to_string()), "ba\ndc");
}

#[test]
fn rev_lines_drops_final_terminator() {
    assert_eq!(rev_lines("ab\n".to_string()), "ba");
}

#[test]
fn rev_lines_on_empty_text() {
    assert_eq!(rev_lines("".to_string()), "");
}

#[test]
fn rev_lines_handles_multibyte_characters() {
    assert_eq!(rev_lines("a\u{e9}\u{1f980}\nxy".to_string()), "\u{1f980}\u{e9}a\nyx");
}

#[test]
fn chars_round_trip_through_string() {
    let text = "line one\nl\u{ed}ne tw\u{f6} \u{1f680}";
    let cs = chars_of(text);
    assert_eq!(cs, text.chars().collect::<Vec<char>>());
    assert_eq!(string_of(&cs), text);
}
