use wiki::json::{get_first_page, is_disambiguation, page_extract, page_title, JsonValue};
use wiki::wiki::{failure_message, request_failure, urlencoding, RequestFailure, TIMEOUT_SECS};

fn s(text: &str) -> String {
    text.to_string()
}

fn obj(members: Vec<(&str, JsonValue)>) -> JsonValue {
    JsonValue::Object(members.into_iter().map(|(k, v)| (s(k), v)).collect())
}

#[test]
fn urlencoding_ascii() {
    assert_eq!(urlencoding("hello"), "hello");
}

#[test]
fn urlencoding_spaces() {
    assert_eq!(urlencoding("hello world"), "hello+world");
}

#[test]
fn urlencoding_special_chars() {
    assert_eq!(urlencoding("a&b=c"), "a%26b%3Dc");
}

#[test]
fn urlencoding_unreserved() {
    assert_eq!(urlencoding("a-b_c.d~e"), "a-b_c.d~e");
}

#[test]
fn urlencoding_unicode() {
    let encoded = urlencoding("日本語");
    assert!(encoded.contains('%'));
    assert!(!encoded.contains(' '));
}

#[test]
fn urlencoding_exact_bytes() {
    assert_eq!(urlencoding("日本語"), "%E6%97%A5%E6%9C%AC%E8%AA%9E");
    assert_eq!(urlencoding("é/+%"), "%C3%A9%2F%2B%25");
    assert_eq!(urlencoding(""), "");
    assert_eq!(urlencoding("\n\x7f"), "%0A%7F");
}

#[test]
fn urlencoding_output_is_url_safe() {
    let encoded = urlencoding("a b\t€ \"q\" ~~");
    assert!(encoded.chars().all(|c| c.is_ascii_alphanumeric() || "-_.~+%".contains(c)));
}

#[test]
fn get_first_page_valid() {
    let json = obj(vec![(
        "query",
        obj(vec![(
            "pages",
            obj(vec![(
                "12345",
                obj(vec![
                    ("extract", JsonValue::Str(s("Content"))),
                    ("title", JsonValue::Str(s("Test"))),
                ]),
            )]),
        )]),
    )]);
    let page = get_first_page(&json).unwrap();
    assert_eq!(page.get("title").and_then(|t| t.as_str()), Some("Test"));
}

#[test]
fn get_first_page_missing() {
    let json = obj(vec![("batchcomplete", JsonValue::Str(s("")))]);
    assert!(get_first_page(&json).is_none());
}

#[test]
fn get_first_page_takes_first_member() {
    let json = obj(vec![(
        "query",
        obj(vec![(
            "pages",
            obj(vec![
                ("1", obj(vec![("title", JsonValue::Str(s("One")))])),
                ("2", obj(vec![("title", JsonValue::Str(s("Two")))])),
            ]),
        )]),
    )]);
    assert_eq!(page_title(get_first_page(&json).unwrap()), "One");
}

#[test]
fn get_first_page_rejects_empty_and_non_objects() {
    let empty = obj(vec![("query", obj(vec![("pages", obj(vec![]))]))]);
    assert!(get_first_page(&empty).is_none());
    let array = obj(vec![("query", obj(vec![("pages", JsonValue::Array(vec![JsonValue::Null]))]))]);
    assert!(get_first_page(&array).is_none());
    assert!(get_first_page(&JsonValue::Bool(true)).is_none());
}

#[test]
fn page_fields_with_defaults() {
    let page = obj(vec![
        ("extract", JsonValue::Str(s("Text"))),
        ("pageprops", obj(vec![("disambiguation", JsonValue::Str(s("")))])),
        ("title", JsonValue::Str(s("Mercury"))),
    ]);
    assert_eq!(page_title(&page), "Mercury");
    assert_eq!(page_extract(&page), "Text");
    assert!(is_disambiguation(&page));
    let bare = obj(vec![("title", JsonValue::Number(s("7"))), ("pageprops", obj(vec![]))]);
    assert_eq!(page_title(&bare), "Unknown");
    assert_eq!(page_extract(&bare), "");
    assert!(!is_disambiguation(&bare));
}

#[test]
fn request_failures() {
    assert!(matches!(request_failure(true, true), RequestFailure::TimedOut));
    assert!(matches!(request_failure(false, true), RequestFailure::ConnectionFailed));
    assert!(matches!(request_failure(false, false), RequestFailure::Other));
    assert_eq!(TIMEOUT_SECS, 10);
    assert_eq!(
        failure_message(&RequestFailure::TimedOut).unwrap(),
        "[wiki] Error: request timed out after 10s. Please check your network and try again."
    );
    assert_eq!(
        failure_message(&RequestFailure::ConnectionFailed).unwrap(),
        "[wiki] Error: connection failed. Please check your network."
    );
    assert!(failure_message(&RequestFailure::Other).is_none());
}

#[test]
fn parsed_answer_members_follow_the_decoded_map() {
    let doc = wiki::json::parse_json(
        r#"{"query":{"pages":{"736":{"title":"Albert Einstein","pageid":736,"extract":"Physicist."}}}}"#,
    )
    .unwrap();
    let page = get_first_page(&doc).unwrap();
    assert_eq!(page_title(page), "Albert Einstein");
    assert_eq!(page_extract(page), "Physicist.");
    match page {
        JsonValue::Object(members) => {
            let keys: Vec<&str> = members.iter().map(|(k, _)| k.as_str()).collect();
            assert_eq!(keys, vec!["extract", "pageid", "title"]);
            assert!(matches!(&members[1].1, JsonValue::Number(n) if n == "736"));
        }
        _ => panic!("a page is an object"),
    }
}

#[test]
fn parsed_answer_values() {
    let doc = wiki::json::parse_json(r#"[null, true, 1.5, "x", [], {}]"#).unwrap();
    match doc {
        JsonValue::Array(items) => {
            assert_eq!(items.len(), 6);
            assert!(matches!(items[0], JsonValue::Null));
            assert!(matches!(items[1], JsonValue::Bool(true)));
            assert!(matches!(&items[2], JsonValue::Number(n) if n == "1.5"));
            assert!(matches!(&items[3], JsonValue::Str(t) if t == "x"));
            assert!(matches!(&items[4], JsonValue::Array(v) if v.is_empty()));
            assert!(matches!(&items[5], JsonValue::Object(v) if v.is_empty()));
        }
        _ => panic!("an array"),
    }
}

#[test]
fn unparsable_answer_is_none() {
    assert!(wiki::json::parse_json("<html>").is_none());
    assert!(wiki::json::parse_json("").is_none());
    assert!(wiki::json::parse_json("{\"a\":").is_none());
}

fn form_decode(s: &str) -> Vec<u8> {
    let b = s.as_bytes();
    let mut out = Vec::new();
    let mut i = 0;
    while i < b.len() {
        if b[i] == b'%' && i + 2 < b.len() {
            let hex = std::str::from_utf8(&b[i + 1..i + 3]).unwrap();
            out.push(u8::from_str_radix(hex, 16).unwrap());
            i += 3;
        } else if b[i] == b'+' {
            out.push(b' ');
            i += 1;
        } else {
            out.push(b[i]);
            i += 1;
        }
    }
    out
}

#[test]
fn urlencoding_decodes_back() {
    for s in ["hello world", "a&b=c", "日本語 + 100% ~ok", "", "%2B+"] {
        assert_eq!(form_decode(&urlencoding(s)), s.as_bytes());
    }
    assert_ne!(urlencoding("a+b"), urlencoding("a b"));
}
