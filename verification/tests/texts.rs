use dsh_shell::text::{
    chars_of, decimal, ends_with, find, join, occurs, replace_char, replace_text, same_text,
    starts_with, text2, text3, text_of,
};

#[test]
fn characters_and_parts() {
    let chars = chars_of("a主b");
    assert_eq!(chars, vec!['a', '主', 'b']);
    assert_eq!(text_of(&chars, 1, 3), "主b");
    assert_eq!(text_of(&chars, 2, 2), "");
    assert!(same_text("主", "主"));
    assert!(!same_text("主", "主主"));
    assert!(!same_text("a", "b"));
}

#[test]
fn occurrences() {
    let text = chars_of("abcabc");
    assert_eq!(find(&text, &chars_of("bc"), 0), Some(1));
    assert_eq!(find(&text, &chars_of("bc"), 2), Some(4));
    assert_eq!(find(&text, &chars_of("x"), 0), None);
    assert_eq!(find(&text, &chars_of(""), 6), Some(6));
    assert_eq!(find(&text, &chars_of(""), 7), None);
    assert!(occurs(&text, &chars_of("ca"), 2));
    assert!(!occurs(&text, &chars_of("ca"), 5));
    assert!(starts_with(&text, &chars_of("abc")));
    assert!(!starts_with(&text, &chars_of("bc")));
    assert!(ends_with(&text, &chars_of("abc")));
    assert!(!ends_with(&text, &chars_of("abcabcabc")));
}

#[test]
fn replacements() {
    assert_eq!(replace_char("a/b/", '/', "::"), "a::b::");
    assert_eq!(replace_char("", '/', "x"), "");
    for (text, pattern, by) in [("aaa", "aa", "b"), ("xaxax", "xax", "-"), ("abc", "z", "y"), ("", "a", "b")] {
        assert_eq!(replace_text(text, pattern, by), text.replace(pattern, by));
    }
}

#[test]
fn numbers_and_lists() {
    for n in [0, 7, 10, 99, 100, 90_000, u64::MAX] {
        assert_eq!(decimal(n), n.to_string());
    }
    let parts = vec!["a".to_string(), "".to_string(), "c".to_string()];
    assert_eq!(join(&parts, ", "), parts.join(", "));
}

#[test]
fn texts_in_one() {
    assert_eq!(text2("主", "b"), "主b");
    assert_eq!(text3("a", "", "c"), "ac");
}
