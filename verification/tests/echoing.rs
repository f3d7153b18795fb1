use catr::format_numbered;
use catr::join_words;
use catr::str_eq;
use catr::u64_to_dec;

#[test]
fn runs() {
    let words = vec!["hello".to_string(), "world".to_string()];
    assert_eq!(join_words(&words, false), "hello world\n");
    assert_eq!(join_words(&words, true), "hello world");
}

#[test]
fn hello1() {
    let words = vec!["Hello there".to_string()];
    assert_eq!(join_words(&words, false), "Hello there\n");
}

#[test]
fn joining_nothing_gives_newline_only() {
    let words: Vec<String> = Vec::new();
    assert_eq!(join_words(&words, false), "\n");
    assert_eq!(join_words(&words, true), "");
}

#[test]
fn decimal_rendering_is_exact() {
    assert_eq!(u64_to_dec(0), "0");
    assert_eq!(u64_to_dec(7), "7");
    assert_eq!(u64_to_dec(1234567), "1234567");
    assert_eq!(u64_to_dec(1000), "1000");
}

#[test]
fn numbered_lines_are_aligned_to_width_six() {
    assert_eq!(format_numbered(1, "x"), "     1\tx");
    assert_eq!(format_numbered(123456, "x"), "123456\tx");
    assert_eq!(format_numbered(1234567, "x"), "1234567\tx");
    assert_eq!(format_numbered(42, ""), "    42\t");
}

#[test]
fn string_equality_by_characters() {
    assert!(str_eq("abc", "abc"));
    assert!(!str_eq("abc", "abd"));
    assert!(!str_eq("abc", "ab"));
    assert!(str_eq("", ""));
}
