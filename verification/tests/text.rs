use wiki::text::{char_count_bound, same_text, starts_with_zh};

#[test]
fn text_comparisons() {
    assert!(same_text("abc", "abc"));
    assert!(!same_text("abc", "abd"));
    assert!(!same_text("ab", "abc"));
    assert!(same_text("日本", "日本"));
    assert!(starts_with_zh("zh-cn"));
    assert!(starts_with_zh("zh"));
    assert!(!starts_with_zh("z"));
    assert!(!starts_with_zh("ja"));
    assert_eq!(char_count_bound("日本"), 6);
}
