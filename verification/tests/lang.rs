use wiki::lang::{detect_language, is_simplified_indicator, is_traditional_indicator};

#[test]
fn english_text() {
    assert_eq!(detect_language("rust"), ("en", None));
    assert_eq!(detect_language("hello world"), ("en", None));
}

#[test]
fn japanese_hiragana() {
    assert_eq!(detect_language("こんにちは"), ("ja", None));
}

#[test]
fn japanese_katakana() {
    assert_eq!(detect_language("プログラミング"), ("ja", None));
}

#[test]
fn korean() {
    assert_eq!(detect_language("한국어"), ("ko", None));
}

#[test]
fn simplified_chinese() {
    let (lang, variant) = detect_language("这个国家");
    assert_eq!(lang, "zh");
    assert_eq!(variant, Some("zh-cn"));
}

#[test]
fn traditional_chinese() {
    let (lang, variant) = detect_language("這個國家");
    assert_eq!(lang, "zh");
    assert_eq!(variant, Some("zh-tw"));
}

#[test]
fn arabic() {
    assert_eq!(detect_language("مرحبا").0, "ar");
}

#[test]
fn russian() {
    assert_eq!(detect_language("программирование").0, "ru");
}

#[test]
fn hindi() {
    assert_eq!(detect_language("नमस्ते").0, "hi");
}

#[test]
fn thai() {
    assert_eq!(detect_language("สวัสดี").0, "th");
}

#[test]
fn hebrew() {
    assert_eq!(detect_language("שלום").0, "he");
}

#[test]
fn greek() {
    assert_eq!(detect_language("ελληνικά").0, "el");
}

#[test]
fn mixed_english_stays_english() {
    assert_eq!(detect_language("Rust programming language"), ("en", None));
}

#[test]
fn empty_string() {
    assert_eq!(detect_language(""), ("en", None));
}

#[test]
fn other_scripts_are_detected() {
    assert_eq!(detect_language("தமிழ்"), ("ta", None));
    assert_eq!(detect_language("বাংলা"), ("bn", None));
    assert_eq!(detect_language("తెలుగు"), ("te", None));
    assert_eq!(detect_language("ağaç"), ("tr", None));
    assert_eq!(detect_language("đường"), ("vi", None));
}

#[test]
fn readme_examples_are_detected() {
    assert_eq!(detect_language("人工智能"), ("zh", Some("zh-cn")));
    assert_eq!(detect_language("プログラミング言語"), ("ja", None));
    assert_eq!(detect_language("인공지능"), ("ko", None));
    assert_eq!(detect_language("Искусственный интеллект"), ("ru", None));
}

#[test]
fn kana_outranks_ideographs_and_hangul() {
    assert_eq!(detect_language("日本語のテキスト"), ("ja", None));
    assert_eq!(detect_language("한국 の"), ("ja", None));
    assert_eq!(detect_language("漢字 한글"), ("ko", None));
}

#[test]
fn chinese_without_indicators_is_simplified() {
    assert_eq!(detect_language("中文"), ("zh", Some("zh-cn")));
}

#[test]
fn chinese_tie_is_simplified() {
    assert_eq!(detect_language("这這"), ("zh", Some("zh-cn")));
    assert_eq!(detect_language("这這們"), ("zh", Some("zh-tw")));
}

#[test]
fn most_frequent_script_wins() {
    assert_eq!(detect_language("мир مرحبا"), ("ar", None));
    assert_eq!(detect_language("мир ab"), ("ru", None));
}

#[test]
fn tie_goes_to_later_script() {
    assert_eq!(detect_language("мا"), ("ru", None));
    assert_eq!(detect_language("αш"), ("el", None));
}

#[test]
fn ascii_around_a_script_changes_nothing() {
    assert_eq!(detect_language("12 שלום !"), detect_language("שלום"));
    assert_eq!(detect_language("ab μ"), detect_language("μ ab"));
}

#[test]
fn indicator_tables() {
    assert!(is_simplified_indicator('国'));
    assert!(!is_simplified_indicator('國'));
    assert!(is_traditional_indicator('國'));
    assert!(!is_traditional_indicator('国'));
    assert!(!is_simplified_indicator('a'));
    assert!(!is_traditional_indicator('中'));
}

#[test]
fn same_characters_any_order_same_language() {
    assert_eq!(detect_language("мир ש ש"), detect_language("ש рим ש"));
    assert_eq!(detect_language("这國个"), detect_language("个这國"));
}

#[test]
fn ascii_inserted_in_the_middle_changes_nothing() {
    assert_eq!(detect_language("αβ"), ("el", None));
    assert_eq!(detect_language("α hello, world! β"), ("el", None));
    assert_eq!(detect_language("мир ab ש"), detect_language("мирש"));
}
