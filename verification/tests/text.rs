use control_plane::text::{
    chars_of, decimal_string, find_char, hex_string, lines, replace, same_text, split_text,
};

#[test]
fn characters_come_in_order() {
    assert_eq!(chars_of("aé:b"), vec!['a', 'é', ':', 'b']);
    assert_eq!(chars_of(""), Vec::<char>::new());
}

#[test]
fn decimal_writes_as_to_string_does() {
    for n in [0i128, 7, 10, 99, 100, 6144, -1, -2048, 1234567890123456789] {
        assert_eq!(decimal_string(n), n.to_string());
    }
    assert_eq!(decimal_string(i128::MAX), i128::MAX.to_string());
    assert_eq!(decimal_string(i128::MIN), i128::MIN.to_string());
}

#[test]
fn hex_writes_two_lower_case_digits_a_byte() {
    assert_eq!(hex_string(&[]), "");
    assert_eq!(hex_string(&[0x00, 0x0f, 0xa0, 0xff, 0x3c]), "000fa0ff3c");
}

#[test]
fn same_text_compares_characters() {
    assert!(same_text("jobId", "jobId"));
    assert!(!same_text("jobId", "jobid"));
    assert!(!same_text("jobId", "jobId "));
    assert!(same_text("", ""));
    assert!(same_text("é", "é"));
}

#[test]
fn find_char_gives_the_first_index_in_range() {
    let chars = chars_of("a:b:c");
    assert_eq!(find_char(&chars, 0, 5, ':'), 1);
    assert_eq!(find_char(&chars, 2, 5, ':'), 3);
    assert_eq!(find_char(&chars, 4, 5, ':'), 5);
    assert_eq!(find_char(&chars, 0, 1, ':'), 1);
    assert_eq!(find_char(&chars, 3, 3, ':'), 3);
}

#[test]
fn split_keeps_empty_pieces() {
    assert_eq!(split_text("us-east-1,ap-south-1", ','), vec!["us-east-1", "ap-south-1"]);
    assert_eq!(split_text("a,,b,", ','), vec!["a", "", "b", ""]);
    assert_eq!(split_text("", ','), vec![""]);
    assert_eq!(split_text("plain", ','), vec!["plain"]);
}

#[test]
fn lines_drop_the_line_endings() {
    assert_eq!(lines("one\ntwo\r\nthree"), vec!["one", "two", "three"]);
    assert_eq!(lines("one\n\ntwo\n"), vec!["one", "", "two"]);
    assert_eq!(lines(""), Vec::<String>::new());
    assert_eq!(lines("\n"), vec![""]);
}

#[test]
fn replace_changes_every_occurrence() {
    assert_eq!(replace("wss://a/wss://b", "wss://", "https://"), "https://a/https://b");
    assert_eq!(replace("aaa", "aa", "b"), "ba");
    assert_eq!(replace("abc", "x", "y"), "abc");
    assert_eq!(replace("", "x", "y"), "");
    assert_eq!(replace("ab", "abc", "y"), "ab");
    assert_eq!(replace("xyx", "x", ""), "y");
}
