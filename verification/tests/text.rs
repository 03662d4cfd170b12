use mcsh::text::{base_name_of, before_end, eq_ignore_case, split_char, split_once, split_words, trim_str};

#[test]
fn trimming() {
    assert_eq!(trim_str("  a b \t\n"), "a b");
    assert_eq!(trim_str("\u{3000}x\u{a0}"), "x");
    assert_eq!(trim_str("   "), "");
}

#[test]
fn splitting() {
    assert_eq!(split_char("a|b||c|", '|'), vec!["a", "b", "", "c", ""]);
    assert_eq!(split_char("", '|'), vec![""]);
    assert_eq!(split_words("  a  b\tc \u{2003}d "), vec!["a", "b", "c", "d"]);
    assert!(split_words(" \t ").is_empty());
    assert_eq!(split_once("a b c", ' '), ("a".to_string(), Some("b c".to_string())));
    assert_eq!(split_once("abc", ' '), ("abc".to_string(), None));
    assert_eq!(split_once("a ", ' '), ("a".to_string(), Some(String::new())));
}

#[test]
fn ignoring_case() {
    assert!(eq_ignore_case("/LIST", "/list"));
    assert!(!eq_ignore_case("/lisT", "/lis"));
}

#[test]
fn base_names() {
    assert_eq!(base_name_of("/tmp/a.txt"), "a.txt");
    assert_eq!(base_name_of("a.txt"), "a.txt");
    assert_eq!(base_name_of("dir/"), "");
    assert_eq!(base_name_of(""), "");
}

#[test]
fn byte_positions_before_the_end() {
    assert!(before_end("abc", 2));
    assert!(!before_end("abc", 3));
    assert!(before_end("aé", 2));
    assert!(!before_end("aé", 3));
    assert!(before_end("€", 2));
    assert!(!before_end("€", 3));
    assert!(before_end("😀", 3));
    assert!(!before_end("😀", 4));
    assert!(!before_end("", 0));
    assert!(!before_end("x", usize::MAX));
}
