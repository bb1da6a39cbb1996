use wiki::cli::{
    choose_theme, help_text, no_article_notice, no_results_notice, page_outcome, parse_args,
    resolve_language, search_url, status_line, variant_param, version_line, Command, PageOutcome,
    HELP_BODY, MISSING_LANG_CODE,
};
use wiki::json::JsonValue;

fn args(list: &[&str]) -> Vec<String> {
    list.iter().map(|a| a.to_string()).collect()
}

fn search(list: &[&str]) -> (Option<String>, bool, String) {
    match parse_args(&args(list)) {
        Command::Search(r) => (r.forced_lang, r.json, r.query),
        _ => panic!("not a search"),
    }
}

#[test]
fn no_arguments_is_usage() {
    assert!(matches!(parse_args(&args(&[])), Command::Usage));
    assert!(matches!(parse_args(&args(&["-j"])), Command::Usage));
    assert!(matches!(parse_args(&args(&["-l", "zh"])), Command::Usage));
    assert!(matches!(parse_args(&args(&[""])), Command::Usage));
}

#[test]
fn words_join_into_the_query() {
    assert_eq!(search(&["rust"]), (None, false, "rust".to_string()));
    assert_eq!(search(&["rust lang"]), (None, false, "rust lang".to_string()));
    assert_eq!(search(&["rust", "lang"]), (None, false, "rust lang".to_string()));
    assert_eq!(search(&["", ""]), (None, false, " ".to_string()));
}

#[test]
fn options_are_read() {
    assert_eq!(search(&["--json", "rust"]), (None, true, "rust".to_string()));
    assert_eq!(search(&["-l", "zh", "rust"]), (Some("zh".to_string()), false, "rust".to_string()));
    assert_eq!(
        search(&["-l", "ja", "programming", "--lang", "ko", "-j"]),
        (Some("ko".to_string()), true, "programming".to_string())
    );
    assert_eq!(search(&["-l", "-h", "x"]), (Some("-h".to_string()), false, "x".to_string()));
}

#[test]
fn help_version_and_errors() {
    assert!(matches!(parse_args(&args(&["rust", "-h"])), Command::Help));
    assert!(matches!(parse_args(&args(&["--help", "-l"])), Command::Help));
    assert!(matches!(parse_args(&args(&["-V"])), Command::Version));
    assert!(matches!(parse_args(&args(&["--version", "x"])), Command::Version));
    assert!(matches!(parse_args(&args(&["rust", "-l"])), Command::MissingLangCode));
    assert!(matches!(parse_args(&args(&["-l"])), Command::MissingLangCode));
    assert_eq!(MISSING_LANG_CODE, "Error: -l requires a language code (e.g. zh, ja, ko, en)");
}

#[test]
fn forced_languages() {
    assert_eq!(resolve_language(Some("zh-hans"), "x"), ("zh".to_string(), Some("zh-cn")));
    assert_eq!(resolve_language(Some("zh-cn"), "x"), ("zh".to_string(), Some("zh-cn")));
    assert_eq!(resolve_language(Some("zh-hant"), "x"), ("zh".to_string(), Some("zh-tw")));
    assert_eq!(resolve_language(Some("zh-tw"), "x"), ("zh".to_string(), Some("zh-tw")));
    assert_eq!(resolve_language(Some("zh"), "x"), ("zh".to_string(), None));
    assert_eq!(resolve_language(Some("zh-yue"), "x"), ("zh".to_string(), None));
    assert_eq!(resolve_language(Some("ja"), "人工智能"), ("ja".to_string(), None));
    assert_eq!(resolve_language(None, "這個國家"), ("zh".to_string(), Some("zh-tw")));
    assert_eq!(resolve_language(None, "rust"), ("en".to_string(), None));
}

#[test]
fn variant_parameters() {
    assert_eq!(variant_param(Some("zh-cn")), "&variant=zh-cn");
    assert_eq!(variant_param(Some("zh-tw")), "&variant=zh-tw");
    assert_eq!(variant_param(Some("zh-hk")), "");
    assert_eq!(variant_param(None), "");
}

#[test]
fn search_address() {
    assert_eq!(
        search_url("en", "apple inc", None),
        "https://en.wikipedia.org/w/api.php?action=query&generator=search&gsrsearch=apple+inc&gsrlimit=1&prop=extracts|pageprops&exintro&explaintext&format=json&redirects=1"
    );
    assert_eq!(
        search_url("zh", "中", Some("zh-tw")),
        "https://zh.wikipedia.org/w/api.php?action=query&generator=search&gsrsearch=%E4%B8%AD&gsrlimit=1&prop=extracts|pageprops&exintro&explaintext&format=json&redirects=1&variant=zh-tw"
    );
}

#[test]
fn status_lines() {
    assert_eq!(status_line("en", None, false), "[wiki] language: en (auto)");
    assert_eq!(status_line("zh", Some("zh-cn"), true), "[wiki] language: zh, variant: zh-cn (manual)");
}

#[test]
fn theme_choice() {
    assert_eq!(choose_theme(false, true).title, "\x1b[1;32m");
    assert_eq!(choose_theme(false, false).title, "");
    assert_eq!(choose_theme(true, true).reset, "");
}

#[test]
fn notices() {
    let n = no_results_notice(true, "x");
    assert!(!n.to_stderr);
    assert_eq!(n.text, "{\"error\":\"No results found\"}");
    let n = no_results_notice(false, "rust");
    assert!(n.to_stderr);
    assert_eq!(n.text, "No results found for 'rust'.");
    let n = no_article_notice(true, "x");
    assert!(!n.to_stderr);
    assert_eq!(n.text, "{\"error\":\"No article found\"}");
    let n = no_article_notice(false, "rust");
    assert!(!n.to_stderr);
    assert_eq!(n.text, "No article found for 'rust'.");
}

#[test]
fn usage_text() {
    assert_eq!(version_line("1.2.3"), "wiki 1.2.3");
    let help = help_text("0.1.0");
    assert!(help.starts_with("wiki 0.1.0\nQuery Wikipedia from the command line"));
    assert!(help.ends_with("Tamil, Bengali, Telugu, Turkish, Vietnamese\n"));
    assert_eq!(help.len(), "wiki 0.1.0".len() + HELP_BODY.len());
    assert!(help.contains("    wiki \"rust lang\"             # multi-word query\n"));
}

fn text(t: &str) -> JsonValue {
    JsonValue::Str(t.to_string())
}

#[test]
fn page_outcomes() {
    let article = JsonValue::Object(vec![
        ("extract".to_string(), text("Rust is a language.")),
        ("title".to_string(), text("Rust")),
    ]);
    match page_outcome(&article) {
        PageOutcome::Article { title, extract } => {
            assert_eq!(title, "Rust");
            assert_eq!(extract, "Rust is a language.");
        }
        _ => panic!("expected an article"),
    }
    let empty = JsonValue::Object(vec![("title".to_string(), text("Rust"))]);
    assert!(matches!(page_outcome(&empty), PageOutcome::NoArticle));
    let disambig = JsonValue::Object(vec![
        ("extract".to_string(), text("Mercury may refer to:")),
        (
            "pageprops".to_string(),
            JsonValue::Object(vec![("disambiguation".to_string(), text(""))]),
        ),
        ("title".to_string(), text("Mercury")),
    ]);
    match page_outcome(&disambig) {
        PageOutcome::Disambiguation { title } => assert_eq!(title, "Mercury"),
        _ => panic!("expected a disambiguation page"),
    }
}
