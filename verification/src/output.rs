//! Terminal layout of an article: display widths, the header line, the footer
//! line and the article's address.
use vstd::prelude::*;

use crate::text::{char_count_bound, decimal, push_decimal};
use vstd::utf8::{char_is_scalar, encode_scalar, encode_utf8};

verus! {

/// Escape sequences that colour the output; all empty for plain output.
pub struct Theme {
    pub title: &'static str,
    pub dim: &'static str,
    pub url: &'static str,
    pub reset: &'static str,
}

impl Theme {
    /// The ANSI colours used on a terminal: bold green title, dim frame, cyan
    /// address.
    pub fn color() -> (t: Theme)
        ensures
            t.title@ == "\x1b[1;32m"@,
            t.dim@ == "\x1b[2m"@,
            t.url@ == "\x1b[36m"@,
            t.reset@ == "\x1b[0m"@,
    {
        Theme { title: "\x1b[1;32m", dim: "\x1b[2m", url: "\x1b[36m", reset: "\x1b[0m" }
    }

    /// No colours at all.
    pub fn plain() -> (t: Theme)
        ensures
            t.title@ == Seq::<char>::empty(),
            t.dim@ == Seq::<char>::empty(),
            t.url@ == Seq::<char>::empty(),
            t.reset@ == Seq::<char>::empty(),
    {
        proof {
            reveal_strlit("");
        }
        Theme { title: "", dim: "", url: "", reset: "" }
    }
}

/// Columns that `c` takes on a terminal: two for East Asian wide and
/// full-width characters, one for every other character.
pub open spec fn char_width(c: char) -> nat {
    let u = c as u32;
    if (0x1100 <= u <= 0x115F) || (0x2E80 <= u <= 0x303E) || (0x3040 <= u <= 0x33BF) || (0x3400
        <= u <= 0x4DBF) || (0x4E00 <= u <= 0x9FFF) || (0xA000 <= u <= 0xA4CF) || (0xAC00 <= u
        <= 0xD7AF) || (0xF900 <= u <= 0xFAFF) || (0xFE30 <= u <= 0xFE6F) || (0xFF01 <= u
        <= 0xFF60) || (0xFFE0 <= u <= 0xFFE6) || (0x20000 <= u <= 0x2FA1F) {
        2
    } else {
        1
    }
}

/// Columns that the characters of `s` take together.
pub open spec fn text_width(s: Seq<char>) -> nat
    decreases s.len(),
{
    if s.len() == 0 {
        0
    } else {
        text_width(s.drop_last()) + char_width(s.last())
    }
}

/// `s` repeated `n` times.
pub open spec fn repeated(s: Seq<char>, n: nat) -> Seq<char>
    decreases n,
{
    if n == 0 {
        seq![]
    } else {
        repeated(s, (n - 1) as nat) + s
    }
}

/// `s` with every space replaced by an underscore, as in page addresses.
pub open spec fn underscored(s: Seq<char>) -> Seq<char> {
    s.map_values(|c: char| if c == ' ' { '_' } else { c })
}

/// Address of the article `title` on the `lang` edition of Wikipedia.
pub open spec fn page_url(lang: Seq<char>, title: Seq<char>) -> Seq<char> {
    "https://"@ + lang + ".wikipedia.org/wiki/"@ + underscored(title)
}

/// The header line of an article: the title in a frame as wide as the title
/// plus two columns.
pub open spec fn header_line(t: Theme, title: Seq<char>) -> Seq<char> {
    t.title@ + "┌─ "@ + title + " "@ + repeated("─"@, text_width(title) + 2) + t.reset@
}

/// The whole article as printed: header line, blank line, text.
pub open spec fn article_layout(t: Theme, title: Seq<char>, extract: Seq<char>) -> Seq<char> {
    header_line(t, title) + "\n"@ + "\n"@ + extract + "\n"@
}

/// The footer as printed: elapsed time and the article's address.
pub open spec fn footer_layout(t: Theme, time: Seq<char>, lang: Seq<char>, title: Seq<char>) -> Seq<
    char,
> {
    "\n"@ + t.dim@ + "└─ "@ + time + " "@ + t.reset@ + t.dim@ + " · "@ + t.url@ + page_url(
        lang,
        title,
    ) + t.reset@ + "\n"@
}

/// Every character is one or two columns wide.
pub proof fn lemma_width_bounds(s: Seq<char>)
    ensures
        s.len() <= text_width(s) <= 2 * s.len(),
    decreases s.len(),
{
    if s.len() > 0 {
        lemma_width_bounds(s.drop_last());
    }
}

/// The East Asian wide and full-width characters: Hangul jamo, CJK radicals
/// and punctuation, hiragana, katakana and CJK compatibility, CJK ideographs
/// with extension A, Yi, Hangul syllables, CJK compatibility ideographs,
/// vertical and small forms, full-width forms and signs, and the
/// supplementary ideographic plane.
pub open spec fn east_asian_wide(c: char) -> bool {
    let u = c as u32;
    ||| 0x1100 <= u <= 0x115F
    ||| 0x2E80 <= u <= 0x303E
    ||| 0x3040 <= u <= 0x33BF
    ||| 0x3400 <= u <= 0x4DBF
    ||| 0x4E00 <= u <= 0x9FFF
    ||| 0xA000 <= u <= 0xA4CF
    ||| 0xAC00 <= u <= 0xD7AF
    ||| 0xF900 <= u <= 0xFAFF
    ||| 0xFE30 <= u <= 0xFE6F
    ||| 0xFF01 <= u <= 0xFF60
    ||| 0xFFE0 <= u <= 0xFFE6
    ||| 0x20000 <= u <= 0x2FA1F
}

/// A text of East Asian wide characters (kana, Hangul, ideographs, full-width
/// forms) takes two columns per character.
pub proof fn law_wide_text_takes_two_columns_each(s: Seq<char>)
    requires
        forall|i: int| 0 <= i < s.len() ==> east_asian_wide(#[trigger] s[i]),
    ensures
        text_width(s) == 2 * s.len(),
    decreases s.len(),
{
    if s.len() > 0 {
        assert(east_asian_wide(s.last()));
        law_wide_text_takes_two_columns_each(s.drop_last());
    }
}

/// A text without East Asian wide characters takes one column per character.
pub proof fn law_other_text_takes_one_column_each(s: Seq<char>)
    requires
        forall|i: int| 0 <= i < s.len() ==> !east_asian_wide(#[trigger] s[i]),
    ensures
        text_width(s) == s.len(),
    decreases s.len(),
{
    if s.len() > 0 {
        assert(!east_asian_wide(s.last()));
        law_other_text_takes_one_column_each(s.drop_last());
    }
}

/// The width of two texts side by side is the sum of their widths.
pub proof fn law_width_adds_up(s: Seq<char>, t: Seq<char>)
    ensures
        text_width(s + t) == text_width(s) + text_width(t),
    decreases t.len(),
{
    if t.len() == 0 {
        assert(s + t =~= s);
    } else {
        assert((s + t).drop_last() =~= s + t.drop_last());
        assert((s + t).last() == t.last());
        law_width_adds_up(s, t.drop_last());
    }
}

/// ASCII text is one column per character.
pub proof fn law_ascii_width(s: Seq<char>)
    requires
        forall|i: int| 0 <= i < s.len() ==> (#[trigger] s[i] as u32) < 0x80,
    ensures
        text_width(s) == s.len(),
    decreases s.len(),
{
    if s.len() > 0 {
        assert((s.last() as u32) < 0x80);
        law_ascii_width(s.drop_last());
    }
}

/// Spaces in a title never reach the address, and every other character of
/// the title is kept in place.
pub proof fn law_url_title_has_no_spaces(title: Seq<char>)
    ensures
        underscored(title).len() == title.len(),
        !underscored(title).contains(' '),
        forall|i: int| 0 <= i < title.len() && title[i] != ' ' ==> #[trigger] underscored(title)[i]
            == title[i],
{
    if underscored(title).contains(' ') {
        let i = choose|i: int| 0 <= i < underscored(title).len() && underscored(title)[i] == ' ';
        assert(underscored(title)[i] != ' ');
    }
}

/// A character takes no more columns than its UTF-8 encoding takes bytes:
/// the wide characters all lie above U+1100, where the encoding takes three
/// bytes or more.
proof fn lemma_char_width_le_utf8(c: char)
    ensures
        char_width(c) <= encode_scalar(c as u32).len(),
{
    char_is_scalar(c);
}

/// Text takes no more columns than its UTF-8 encoding takes bytes.
pub proof fn lemma_width_le_utf8_len(s: Seq<char>)
    ensures
        text_width(s) <= encode_utf8(s).len(),
    decreases s.len(),
{
    if s.len() > 0 {
        let one = seq![s[0]];
        assert(s =~= one + s.drop_first());
        law_width_adds_up(one, s.drop_first());
        assert(one.drop_last() =~= Seq::<char>::empty());
        assert(text_width(Seq::<char>::empty()) == 0);
        assert(text_width(one) == char_width(s[0]));
        assert(encode_utf8(s).len() == encode_scalar(s[0] as u32).len() + encode_utf8(
            s.drop_first(),
        ).len());
        lemma_char_width_le_utf8(s[0]);
        lemma_width_le_utf8_len(s.drop_first());
    }
}

/// The address of a page is the edition's address followed by the title
/// with each space written as `_` and every other character as it is.
pub proof fn law_page_url_layout(lang: Seq<char>, title: Seq<char>)
    ensures
        ({
            let base = "https://"@ + lang + ".wikipedia.org/wiki/"@;
            let url = page_url(lang, title);
            &&& url.len() == base.len() + title.len()
            &&& url.subrange(0, base.len() as int) == base
            &&& forall|i: int|
                0 <= i < title.len() ==> #[trigger] url[base.len() + i] == if title[i] == ' ' {
                    '_'
                } else {
                    title[i]
                }
            &&& !url.subrange(base.len() as int, url.len() as int).contains(' ')
        }),
{
    let base = "https://"@ + lang + ".wikipedia.org/wiki/"@;
    let url = page_url(lang, title);
    assert(url.subrange(0, base.len() as int) =~= base);
    let tail = url.subrange(base.len() as int, url.len() as int);
    if tail.contains(' ') {
        let k = choose|k: int| 0 <= k < tail.len() && tail[k] == ' ';
        assert(tail[k] == url[base.len() + k]);
    }
}

/// The footer starts on a new line with the theme's dim colour, `└─ ` and
/// the elapsed time exactly as given, and ends with the page's address, the
/// theme's reset and a line break.
pub proof fn law_footer_shows_time_and_address(
    t: Theme,
    time: Seq<char>,
    lang: Seq<char>,
    title: Seq<char>,
)
    ensures
        ({
            let f = footer_layout(t, time, lang, title);
            let d: int = t.dim@.len() as int;
            let url = page_url(lang, title);
            let tail: int = (url.len() + t.reset@.len() + 1) as int;
            &&& f[0] == '\n'
            &&& f.subrange(1, 1 + d) == t.dim@
            &&& f[1 + d] == '└' && f[2 + d] == '─' && f[3 + d] == ' '
            &&& f.subrange(4 + d, 4 + d + time.len()) == time
            &&& f[4 + d + time.len()] == ' '
            &&& f.len() >= tail
            &&& f.subrange(f.len() - tail, f.len() - tail + url.len()) == url
            &&& f.subrange(f.len() - t.reset@.len() - 1, f.len() - 1) == t.reset@
            &&& f[f.len() - 1] == '\n'
        }),
{
    reveal_strlit("\n");
    reveal_strlit("└─ ");
    reveal_strlit(" ");
    reveal_strlit(" · ");
    let f = footer_layout(t, time, lang, title);
    let d: int = t.dim@.len() as int;
    let url = page_url(lang, title);
    let tail: int = (url.len() + t.reset@.len() + 1) as int;
    assert(f.subrange(1, 1 + d) =~= t.dim@);
    assert(f.subrange(4 + d, 4 + d + time.len()) =~= time);
    assert(f.subrange(f.len() - tail, f.len() - tail + url.len()) =~= url);
    assert(f.subrange(f.len() - t.reset@.len() - 1, f.len() - 1) =~= t.reset@);
}

/// `n` copies of a one-character text are `n` times that character.
proof fn lemma_repeated_char(c: Seq<char>, n: nat)
    requires
        c.len() == 1,
    ensures
        repeated(c, n).len() == n,
        forall|j: int| 0 <= j < n ==> #[trigger] repeated(c, n)[j] == c[0],
    decreases n,
{
    if n > 0 {
        lemma_repeated_char(c, (n - 1) as nat);
    }
}

/// The header line shows the title exactly as given, after the theme's title
/// colour and `┌─ `, then a space, a bar of `─` two columns wider than the
/// title, and the theme's reset.
pub proof fn law_header_shows_title(t: Theme, title: Seq<char>)
    ensures
        ({
            let line = header_line(t, title);
            let tl: int = t.title@.len() as int;
            let start: int = tl + 3;
            let n: int = title.len() as int;
            let bar = text_width(title) + 2;
            &&& line.len() == start + title.len() + 1 + bar + t.reset@.len()
            &&& line.subrange(0, tl) == t.title@
            &&& line[tl] == '┌'
            &&& line[tl + 1] == '─'
            &&& line[tl + 2] == ' '
            &&& line.subrange(start, start + n) == title
            &&& line[start + n] == ' '
            &&& forall|j: int| 0 <= j < bar ==> #[trigger] line[start + n + 1 + j] == '─'
            &&& line.subrange(line.len() - t.reset@.len(), line.len() as int) == t.reset@
        }),
{
    reveal_strlit("┌─ ");
    reveal_strlit("─");
    reveal_strlit(" ");
    let line = header_line(t, title);
    let tl: int = t.title@.len() as int;
    let start: int = tl + 3;
    let n: int = title.len() as int;
    let bar = text_width(title) + 2;
    lemma_repeated_char("─"@, bar);
    let r = repeated("─"@, bar);
    assert(line =~= t.title@ + "┌─ "@ + title + " "@ + r + t.reset@);
    assert(line.subrange(0, tl) =~= t.title@);
    assert(line.subrange(start, start + n) =~= title);
    assert(line.subrange(line.len() - t.reset@.len(), line.len() as int) =~= t.reset@);
    assert forall|j: int| 0 <= j < bar implies #[trigger] line[start + n + 1 + j] == '─' by {
        assert(line[start + n + 1 + j] == r[j]);
    }
}

/// The article as printed is its header line, a blank line, and the text
/// exactly as given, ended by a line break.
pub proof fn law_article_shows_text(t: Theme, title: Seq<char>, extract: Seq<char>)
    ensures
        ({
            let text = article_layout(t, title, extract);
            let h: int = header_line(t, title).len() as int;
            &&& text.len() == h + 2 + extract.len() + 1
            &&& text.subrange(0, h) == header_line(t, title)
            &&& text[h] == '\n'
            &&& text[h + 1] == '\n'
            &&& text.subrange(h + 2, h + 2 + extract.len()) == extract
            &&& text[h + 2 + extract.len()] == '\n'
        }),
{
    reveal_strlit("\n");
    let text = article_layout(t, title, extract);
    let h: int = header_line(t, title).len() as int;
    assert(text.subrange(0, h) =~= header_line(t, title));
    assert(text.subrange(h + 2, h + 2 + extract.len()) =~= extract);
}

fn char_columns(c: char) -> (w: usize)
    ensures
        w == char_width(c),
{
    let u = c as u32;
    if (0x1100 <= u && u <= 0x115F) || (0x2E80 <= u && u <= 0x303E) || (0x3040 <= u && u
        <= 0x33BF) || (0x3400 <= u && u <= 0x4DBF) || (0x4E00 <= u && u <= 0x9FFF) || (0xA000
        <= u && u <= 0xA4CF) || (0xAC00 <= u && u <= 0xD7AF) || (0xF900 <= u && u <= 0xFAFF)
        || (0xFE30 <= u && u <= 0xFE6F) || (0xFF01 <= u && u <= 0xFF60) || (0xFFE0 <= u && u
        <= 0xFFE6) || (0x20000 <= u && u <= 0x2FA1F) {
        2
    } else {
        1
    }
}

/// Columns that `s` takes on a terminal, counting East Asian wide characters
/// twice.
pub fn display_width(s: &str) -> (w: usize)
    ensures
        w == text_width(s@),
{
    let ghost chars = s@;
    let mut w: usize = 0;
    let mut i: usize = 0;
    let nbytes = char_count_bound(s);
    proof {
        lemma_width_le_utf8_len(chars);
    }
    for c in it: s.chars()
        invariant
            it.seq() == chars,
            i == it.index(),
            chars == s@,
            chars.len() <= nbytes,
            text_width(chars) <= nbytes,
            w == text_width(chars.take(i as int)),
    {
        proof {
            assert(chars.take(i + 1).drop_last() =~= chars.take(i as int));
            lemma_width_prefix(chars, i + 1);
        }
        w = w + char_columns(c);
        i = i + 1;
    }
    assert(chars.take(chars.len() as int) =~= chars);
    w
}

/// A prefix is no wider than the whole.
proof fn lemma_width_prefix(s: Seq<char>, n: int)
    requires
        0 <= n <= s.len(),
    ensures
        text_width(s.take(n)) <= text_width(s),
    decreases s.len() - n,
{
    if n < s.len() {
        assert(s.take(n + 1).drop_last() =~= s.take(n));
        lemma_width_prefix(s, n + 1);
    } else {
        assert(s.take(n) =~= s);
    }
}

/// Address of the article `title` on the `lang` edition of Wikipedia, with
/// spaces in the title written as underscores.
pub fn wiki_url(lang: &str, title: &str) -> (url: String)
    ensures
        url@ == page_url(lang@, title@),
{
    let mut url = String::new();
    url.append("https://");
    url.append(lang);
    url.append(".wikipedia.org/wiki/");
    let ghost prefix = url@;
    let ghost chars = title@;
    for c in it: title.chars()
        invariant
            it.seq() == chars,
            chars == title@,
            url@ == prefix + underscored(chars.take(it.index())),
    {
        assert(underscored(chars.take(it.index() + 1)) =~= underscored(chars.take(it.index())).push(
            if c == ' ' {
                '_'
            } else {
                c
            },
        ));
        if c == ' ' {
            url.push('_');
        } else {
            url.push(c);
        }
    }
    assert(chars.take(chars.len() as int) =~= chars);
    url
}

fn push_repeated(out: &mut String, piece: &str, n: usize)
    ensures
        final(out)@ == old(out)@ + repeated(piece@, n as nat),
{
    let ghost start = out@;
    let mut k: usize = 0;
    while k < n
        invariant
            k <= n,
            out@ == start + repeated(piece@, k as nat),
        decreases n - k,
    {
        out.append(piece);
        k = k + 1;
    }
}

/// The article as printed on the terminal: the title framed in a header line,
/// a blank line, then the text and a line break.
pub fn article_text(t: &Theme, title: &str, extract: &str) -> (text: String)
    requires
        text_width(title@) + 2 <= usize::MAX,
    ensures
        text@ == article_layout(*t, title@, extract@),
{
    let width = display_width(title);
    let mut text = String::new();
    text.append(t.title);
    text.append("┌─ ");
    text.append(title);
    text.append(" ");
    push_repeated(&mut text, "─", width + 2);
    text.append(t.reset);
    text.append("\n");
    text.append("\n");
    text.append(extract);
    text.append("\n");
    text
}

/// The elapsed time as the footer shows it: from one whole second on, the
/// caller's rendering `seconds` (seconds with two decimals); below, whole
/// milliseconds followed by `ms`.
pub open spec fn elapsed_label(whole_secs: u64, millis: u128, seconds: Seq<char>) -> Seq<char> {
    if whole_secs >= 1 {
        seconds
    } else {
        decimal(millis as nat) + "ms"@
    }
}

/// Chooses and writes the elapsed time for the footer; `seconds` is the time
/// in seconds already written with two decimals, which is used from one whole
/// second on.
pub fn elapsed_text(whole_secs: u64, millis: u128, seconds: &str) -> (text: String)
    ensures
        text@ == elapsed_label(whole_secs, millis, seconds@),
{
    if whole_secs >= 1 {
        String::from_str(seconds)
    } else {
        let mut text = String::new();
        push_decimal(&mut text, millis);
        text.append("ms");
        text
    }
}

/// The footer as printed on the terminal: the elapsed time `time` as already
/// formatted, and the article's address.
pub fn footer_text(t: &Theme, time: &str, lang: &str, title: &str) -> (text: String)
    ensures
        text@ == footer_layout(*t, time@, lang@, title@),
{
    let url = wiki_url(lang, title);
    let mut text = String::new();
    text.append("\n");
    text.append(t.dim);
    text.append("└─ ");
    text.append(time);
    text.append(" ");
    text.append(t.reset);
    text.append(t.dim);
    text.append(" · ");
    text.append(t.url);
    text.append(url.as_str());
    text.append(t.reset);
    text.append("\n");
    text
}

} // verus!
