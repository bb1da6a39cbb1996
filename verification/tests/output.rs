use wiki::output::{article_text, display_width, elapsed_text, footer_text, wiki_url, Theme};

#[test]
fn display_width_ascii() {
    assert_eq!(display_width("hello"), 5);
}

#[test]
fn display_width_cjk() {
    assert_eq!(display_width("日本"), 4);
}

#[test]
fn display_width_mixed() {
    assert_eq!(display_width("hello世界"), 9);
}

#[test]
fn display_width_empty() {
    assert_eq!(display_width(""), 0);
}

#[test]
fn display_width_wide_ranges() {
    assert_eq!(display_width("한"), 2);
    assert_eq!(display_width("Ａ"), 2);
    assert_eq!(display_width("ﾀ"), 1);
    assert_eq!(display_width("é"), 1);
    assert_eq!(display_width("\u{20000}"), 2);
}

#[test]
fn display_width_adds_up() {
    let a = "Rust 言語";
    let b = "プログラム";
    let ab = format!("{a}{b}");
    assert_eq!(display_width(&ab), display_width(a) + display_width(b));
}

#[test]
fn themes() {
    let c = Theme::color();
    assert_eq!(c.title, "\x1b[1;32m");
    assert_eq!(c.dim, "\x1b[2m");
    assert_eq!(c.url, "\x1b[36m");
    assert_eq!(c.reset, "\x1b[0m");
    let p = Theme::plain();
    assert_eq!((p.title, p.dim, p.url, p.reset), ("", "", "", ""));
}

#[test]
fn article_layout_plain() {
    let text = article_text(&Theme::plain(), "Apple", "An apple is a fruit.");
    assert_eq!(text, "┌─ Apple ───────\n\nAn apple is a fruit.\n");
}

#[test]
fn article_layout_wide_title_colored() {
    let text = article_text(&Theme::color(), "日本", "x");
    assert_eq!(text, "\x1b[1;32m┌─ 日本 ──────\x1b[0m\n\nx\n");
}

#[test]
fn page_address_replaces_spaces() {
    assert_eq!(wiki_url("en", "Apple Inc."), "https://en.wikipedia.org/wiki/Apple_Inc.");
    assert_eq!(wiki_url("zh", "人工 智能"), "https://zh.wikipedia.org/wiki/人工_智能");
}

#[test]
fn footer_layout() {
    let t = Theme::color();
    let text = footer_text(&t, "179ms", "en", "Apple Inc.");
    assert_eq!(
        text,
        "\n\x1b[2m└─ 179ms \x1b[0m\x1b[2m · \x1b[36mhttps://en.wikipedia.org/wiki/Apple_Inc.\x1b[0m\n"
    );
    let plain = footer_text(&Theme::plain(), "1.25s", "ja", "A B");
    assert_eq!(plain, "\n└─ 1.25s  · https://ja.wikipedia.org/wiki/A_B\n");
}

#[test]
fn elapsed_time_labels() {
    assert_eq!(elapsed_text(0, 179, "0.18s"), "179ms");
    assert_eq!(elapsed_text(0, 0, "0.00s"), "0ms");
    assert_eq!(elapsed_text(1, 1234, "1.23s"), "1.23s");
    assert_eq!(elapsed_text(12, 12000, "12.00s"), "12.00s");
}

#[test]
fn display_width_long_text() {
    let text = "日本".repeat(1000);
    assert_eq!(display_width(&text), 4000);
}
