//! The command line: options, the choice of language edition, the search
//! request and the messages that the program prints.
use vstd::prelude::*;

use crate::json::{
    disambiguation, extract_of, is_disambiguation, page_extract, page_title, title_of, JsonValue,
};
use crate::lang::{detect_language, detected_language, opt_str_view};
use crate::output::Theme;
use crate::text::{same_text, starts_with_zh};
use crate::wiki::{form_encoded, urlencoding};
use vstd::utf8::encode_utf8;

verus! {

/// What the command line asks for.
pub enum Command {
    /// No query was given: print the usage text and fail.
    Usage,
    /// `-h`/`--help`: print the usage text.
    Help,
    /// `-V`/`--version`: print the version.
    Version,
    /// `-l`/`--lang` came last, without a code: report it and fail.
    MissingLangCode,
    /// Search for a query.
    Search(SearchRequest),
}

/// A search as the command line describes it.
pub struct SearchRequest {
    /// The code given with the last `-l`/`--lang`, if any.
    pub forced_lang: Option<String>,
    /// Whether `-j`/`--json` was given.
    pub json: bool,
    /// The words that are not options, joined by single spaces.
    pub query: String,
}

/// The meaning of a command line, over plain texts.
pub enum CommandView {
    Usage,
    Help,
    Version,
    MissingLangCode,
    Search { forced_lang: Option<Seq<char>>, json: bool, query: Seq<char> },
}

impl View for Command {
    type V = CommandView;

    open spec fn view(&self) -> CommandView {
        match self {
            Command::Usage => CommandView::Usage,
            Command::Help => CommandView::Help,
            Command::Version => CommandView::Version,
            Command::MissingLangCode => CommandView::MissingLangCode,
            Command::Search(r) => CommandView::Search {
                forced_lang: match r.forced_lang {
                    Some(l) => Some(l@),
                    None => None,
                },
                json: r.json,
                query: r.query@,
            },
        }
    }
}

/// The words of `parts` joined by single spaces.
pub open spec fn joined(parts: Seq<Seq<char>>) -> Seq<char>
    decreases parts.len(),
{
    if parts.len() == 0 {
        seq![]
    } else if parts.len() == 1 {
        parts[0]
    } else {
        joined(parts.drop_last()) + " "@ + parts.last()
    }
}

/// Reading the arguments from position `i` on, with the options and words
/// seen so far: `-l`/`--lang` takes the next argument as the language code
/// (a later one wins), `-j`/`--json` asks for JSON, `-h`/`--help` and
/// `-V`/`--version` answer at once, and every other argument is a word of the
/// query. An empty query asks for the usage text.
pub open spec fn scan(
    args: Seq<Seq<char>>,
    i: int,
    forced_lang: Option<Seq<char>>,
    json: bool,
    words: Seq<Seq<char>>,
) -> CommandView
    decreases args.len() - i,
{
    if i < 0 || i >= args.len() {
        if joined(words).len() == 0 {
            CommandView::Usage
        } else {
            CommandView::Search { forced_lang, json, query: joined(words) }
        }
    } else if args[i] == "-l"@ || args[i] == "--lang"@ {
        if i + 1 < args.len() {
            scan(args, i + 2, Some(args[i + 1]), json, words)
        } else {
            CommandView::MissingLangCode
        }
    } else if args[i] == "-j"@ || args[i] == "--json"@ {
        scan(args, i + 1, forced_lang, true, words)
    } else if args[i] == "-h"@ || args[i] == "--help"@ {
        CommandView::Help
    } else if args[i] == "-V"@ || args[i] == "--version"@ {
        CommandView::Version
    } else {
        scan(args, i + 1, forced_lang, json, words.push(args[i]))
    }
}

/// The meaning of the command-line arguments `args` (the program name left
/// out).
pub open spec fn parsed_command(args: Seq<Seq<char>>) -> CommandView {
    scan(args, 0, None, false, seq![])
}

/// Whether an argument is one of the options.
pub open spec fn is_option(a: Seq<char>) -> bool {
    a == "-l"@ || a == "--lang"@ || a == "-j"@ || a == "--json"@ || a == "-h"@ || a == "--help"@
        || a == "-V"@ || a == "--version"@
}

/// Words from position `i0` on are gathered one by one without changing the
/// options read so far.
proof fn lemma_skip_words(
    args: Seq<Seq<char>>,
    i0: int,
    i: int,
    n: int,
    forced_lang: Option<Seq<char>>,
    json: bool,
)
    requires
        0 <= i0 <= i <= n <= args.len(),
        forall|j: int| i0 <= j < n ==> !is_option(#[trigger] args[j]),
    ensures
        scan(args, i, forced_lang, json, args.subrange(i0, i)) == scan(
            args,
            n,
            forced_lang,
            json,
            args.subrange(i0, n),
        ),
    decreases n - i,
{
    if i < n {
        assert(!is_option(args[i]));
        assert(args.subrange(i0, i).push(args[i]) =~= args.subrange(i0, i + 1));
        lemma_skip_words(args, i0, i + 1, n, forced_lang, json);
    }
}

/// After the options, words to the end make the query.
proof fn lemma_words_to_end(
    args: Seq<Seq<char>>,
    i0: int,
    forced_lang: Option<Seq<char>>,
    json: bool,
)
    requires
        0 <= i0 <= args.len(),
        forall|j: int| i0 <= j < args.len() ==> !is_option(#[trigger] args[j]),
    ensures
        scan(args, i0, forced_lang, json, seq![]) == if joined(args.skip(i0)).len() == 0 {
            CommandView::Usage
        } else {
            CommandView::Search { forced_lang, json, query: joined(args.skip(i0)) }
        },
{
    assert(args.subrange(i0, i0) =~= Seq::<Seq<char>>::empty());
    lemma_skip_words(args, i0, i0, args.len() as int, forced_lang, json);
    assert(args.subrange(i0, args.len() as int) =~= args.skip(i0));
}

/// A command line of words alone searches, with detection and text output,
/// for the words joined by single spaces; or asks for the usage text when
/// they join to nothing.
pub proof fn law_words_are_the_query(args: Seq<Seq<char>>)
    requires
        forall|j: int| 0 <= j < args.len() ==> !is_option(#[trigger] args[j]),
    ensures
        parsed_command(args) == if joined(args).len() == 0 {
            CommandView::Usage
        } else {
            CommandView::Search { forced_lang: None, json: false, query: joined(args) }
        },
{
    lemma_words_to_end(args, 0, None, false);
    assert(args.skip(0) =~= args);
}

/// `-j` or `--json` before the words asks for JSON output of the same search.
pub proof fn law_json_option(flag: Seq<char>, words: Seq<Seq<char>>)
    requires
        flag == "-j"@ || flag == "--json"@,
        forall|j: int| 0 <= j < words.len() ==> !is_option(#[trigger] words[j]),
    ensures
        parsed_command(seq![flag] + words) == if joined(words).len() == 0 {
            CommandView::Usage
        } else {
            CommandView::Search { forced_lang: None, json: true, query: joined(words) }
        },
{
    reveal_strlit("-j");
    reveal_strlit("--json");
    reveal_strlit("-l");
    reveal_strlit("--lang");
    let args = seq![flag] + words;
    assert(args[0] == flag);
    assert(flag != "-l"@ && flag != "--lang"@) by {
        if flag == "-j"@ {
            assert(flag.len() != "--lang"@.len());
            assert(flag[1] != "-l"@[1]);
        } else {
            assert(flag.len() != "-l"@.len());
            assert(flag[2] != "--lang"@[2]);
        }
    }
    assert forall|j: int| 1 <= j < args.len() implies !is_option(#[trigger] args[j]) by {
        assert(args[j] == words[j - 1]);
    }
    lemma_words_to_end(args, 1, None, true);
    assert(args.skip(1) =~= words);
}

/// `-l CODE` or `--lang CODE` before the words searches the same query on
/// the edition `CODE` (whatever `CODE` is).
pub proof fn law_lang_option(flag: Seq<char>, code: Seq<char>, words: Seq<Seq<char>>)
    requires
        flag == "-l"@ || flag == "--lang"@,
        forall|j: int| 0 <= j < words.len() ==> !is_option(#[trigger] words[j]),
    ensures
        parsed_command(seq![flag, code] + words) == if joined(words).len() == 0 {
            CommandView::Usage
        } else {
            CommandView::Search { forced_lang: Some(code), json: false, query: joined(words) }
        },
{
    let args = seq![flag, code] + words;
    assert(args[0] == flag && args[1] == code);
    assert forall|j: int| 2 <= j < args.len() implies !is_option(#[trigger] args[j]) by {
        assert(args[j] == words[j - 2]);
    }
    lemma_words_to_end(args, 2, Some(code), false);
    assert(args.skip(2) =~= words);
}

/// `-l` or `--lang` after the words, with no code after it, is an error.
pub proof fn law_lang_without_code(words: Seq<Seq<char>>, flag: Seq<char>)
    requires
        flag == "-l"@ || flag == "--lang"@,
        forall|j: int| 0 <= j < words.len() ==> !is_option(#[trigger] words[j]),
    ensures
        parsed_command(words.push(flag)) == CommandView::MissingLangCode,
{
    let args = words.push(flag);
    let n = words.len() as int;
    assert forall|j: int| 0 <= j < n implies !is_option(#[trigger] args[j]) by {
        assert(args[j] == words[j]);
    }
    assert(args.subrange(0, 0) =~= Seq::<Seq<char>>::empty());
    lemma_skip_words(args, 0, 0, n, None, false);
    assert(args[n] == flag);
}

/// `-h`/`--help` first asks for the usage text and `-V`/`--version` first
/// for the version, whatever follows.
pub proof fn law_help_and_version_first(flag: Seq<char>, rest: Seq<Seq<char>>)
    ensures
        (flag == "-h"@ || flag == "--help"@) ==> parsed_command(seq![flag] + rest)
            == CommandView::Help,
        (flag == "-V"@ || flag == "--version"@) ==> parsed_command(seq![flag] + rest)
            == CommandView::Version,
{
    reveal_strlit("-h");
    reveal_strlit("--help");
    reveal_strlit("-V");
    reveal_strlit("--version");
    reveal_strlit("-l");
    reveal_strlit("--lang");
    reveal_strlit("-j");
    reveal_strlit("--json");
    let args = seq![flag] + rest;
    assert(args[0] == flag);
    if flag == "-h"@ || flag == "--help"@ || flag == "-V"@ || flag == "--version"@ {
        assert(flag != "-l"@ && flag != "--lang"@ && flag != "-j"@ && flag != "--json"@) by {
            if flag.len() == 2 {
                assert(flag[1] != 'l' && flag[1] != 'j');
            } else {
                assert(flag[2] != 'l' && flag[2] != 'j');
            }
        }
        if flag == "-V"@ || flag == "--version"@ {
            assert(flag != "-h"@ && flag != "--help"@) by {
                if flag.len() == 2 {
                    assert(flag[1] != 'h');
                } else {
                    assert(flag[2] != 'h');
                }
            }
        }
    }
}

/// The texts of a list of strings.
pub open spec fn texts(args: Seq<String>) -> Seq<Seq<char>> {
    args.map_values(|a: String| a@)
}

proof fn lemma_joined_push(words: Seq<Seq<char>>, w: Seq<char>)
    ensures
        joined(words.push(w)) == if words.len() == 0 {
            w
        } else {
            joined(words) + " "@ + w
        },
{
    assert(words.push(w).drop_last() =~= words);
}

/// Reads the command-line arguments (the program name left out).
pub fn parse_args(args: &Vec<String>) -> (cmd: Command)
    ensures
        cmd@ == parsed_command(texts(args@)),
{
    let ghost av = texts(args@);
    let mut forced_lang: Option<String> = None;
    let mut json = false;
    let mut query = String::new();
    let mut nwords: usize = 0;
    let ghost mut words: Seq<Seq<char>> = seq![];
    let mut i: usize = 0;
    while i < args.len()
        invariant
            av == texts(args@),
            av.len() == args@.len(),
            i <= args@.len() + 1,
            nwords <= i,
            nwords == words.len(),
            query@ == joined(words),
            scan(av, i as int, opt_string_view(forced_lang), json, words) == parsed_command(av),
        decreases args@.len() + 1 - i,
    {
        let a = args[i].as_str();
        assert(a@ == av[i as int]);
        if same_text(a, "-l") || same_text(a, "--lang") {
            if i + 1 < args.len() {
                assert(args[i + 1]@ == av[i + 1]);
                forced_lang = Some(args[i + 1].clone());
                i = i + 2;
            } else {
                return Command::MissingLangCode;
            }
        } else if same_text(a, "-j") || same_text(a, "--json") {
            json = true;
            i = i + 1;
        } else if same_text(a, "-h") || same_text(a, "--help") {
            return Command::Help;
        } else if same_text(a, "-V") || same_text(a, "--version") {
            return Command::Version;
        } else {
            proof {
                lemma_joined_push(words, a@);
            }
            if nwords > 0 {
                query.append(" ");
            }
            query.append(a);
            proof {
                words = words.push(a@);
            }
            nwords = nwords + 1;
            i = i + 1;
        }
    }
    if query.as_str().is_empty() {
        Command::Usage
    } else {
        Command::Search(SearchRequest { forced_lang, json, query })
    }
}

/// The view of an optional string.
pub open spec fn opt_string_view(o: Option<String>) -> Option<Seq<char>> {
    match o {
        Some(v) => Some(v@),
        None => None,
    }
}

/// The script variant that a forced language code names, if any.
pub open spec fn forced_variant(code: Seq<char>) -> Option<Seq<char>> {
    if code == "zh-cn"@ || code == "zh-hans"@ {
        Some("zh-cn"@)
    } else if code == "zh-tw"@ || code == "zh-hant"@ {
        Some("zh-tw"@)
    } else {
        None
    }
}

/// The language edition and variant to search: a forced code is used as given,
/// except that every code beginning with `zh` searches the `zh` edition (with
/// the variant that `zh-cn`, `zh-hans`, `zh-tw` or `zh-hant` names); without
/// one, the language is detected from the query.
pub open spec fn resolved_language(forced_lang: Option<Seq<char>>, query: Seq<char>) -> (
    Seq<char>,
    Option<Seq<char>>,
) {
    match forced_lang {
        Some(code) => (
            if code.len() >= 2 && code[0] == 'z' && code[1] == 'h' {
                "zh"@
            } else {
                code
            },
            forced_variant(code),
        ),
        None => detected_language(query),
    }
}

/// A forced code that does not begin with `zh` is searched as given, with no
/// variant, whatever the query.
pub proof fn law_forced_code_is_used(code: Seq<char>, query: Seq<char>)
    requires
        !(code.len() >= 2 && code[0] == 'z' && code[1] == 'h'),
    ensures
        resolved_language(Some(code), query) == (code, None::<Seq<char>>),
{
    reveal_strlit("zh-cn");
    reveal_strlit("zh-hans");
    reveal_strlit("zh-tw");
    reveal_strlit("zh-hant");
}

/// A forced code that begins with `zh` searches the Chinese edition; the
/// codes `zh-cn` and `zh-hans` ask for Simplified script, `zh-tw` and
/// `zh-hant` for Traditional, every other `zh` code for none; the query plays
/// no part.
pub proof fn law_forced_chinese_codes(code: Seq<char>, query: Seq<char>)
    requires
        code.len() >= 2 && code[0] == 'z' && code[1] == 'h',
    ensures
        resolved_language(Some(code), query).0 == "zh"@,
        (code == "zh-cn"@ || code == "zh-hans"@) ==> resolved_language(Some(code), query).1 == Some(
            "zh-cn"@,
        ),
        (code == "zh-tw"@ || code == "zh-hant"@) ==> resolved_language(Some(code), query).1 == Some(
            "zh-tw"@,
        ),
        !(code == "zh-cn"@ || code == "zh-hans"@ || code == "zh-tw"@ || code == "zh-hant"@)
            ==> resolved_language(Some(code), query).1 is None,
{
    reveal_strlit("zh-cn");
    reveal_strlit("zh-hans");
    reveal_strlit("zh-tw");
    reveal_strlit("zh-hant");
    if code == "zh-tw"@ || code == "zh-hant"@ {
        assert(code != "zh-cn"@ && code != "zh-hans"@) by {
            if code == "zh-tw"@ {
                assert(code[3] != "zh-cn"@[3]);
                assert(code.len() != "zh-hans"@.len());
            } else {
                assert(code.len() != "zh-cn"@.len());
                assert(code[6] != "zh-hans"@[6]);
            }
        }
    }
}

/// Without a forced code the language is the one detected from the query.
pub proof fn law_detection_without_forced_code(query: Seq<char>)
    ensures
        resolved_language(None, query) == detected_language(query),
{
}

/// Chooses the language edition and variant to search.
pub fn resolve_language(forced_lang: Option<&str>, query: &str) -> (res: (
    String,
    Option<&'static str>,
))
    ensures
        res.0@ == resolved_language(opt_str_view(forced_lang), query@).0,
        opt_str_view(res.1) == resolved_language(opt_str_view(forced_lang), query@).1,
{
    match forced_lang {
        Some(code) => {
            let variant = if same_text(code, "zh-cn") || same_text(code, "zh-hans") {
                Some("zh-cn")
            } else if same_text(code, "zh-tw") || same_text(code, "zh-hant") {
                Some("zh-tw")
            } else {
                None
            };
            if starts_with_zh(code) {
                (String::from_str("zh"), variant)
            } else {
                (String::from_str(code), variant)
            }
        },
        None => {
            let (lang, variant) = detect_language(query);
            (String::from_str(lang), variant)
        },
    }
}

/// The query parameter that asks for a Chinese script variant.
pub open spec fn variant_query(variant: Option<Seq<char>>) -> Seq<char> {
    if variant == Some("zh-cn"@) {
        "&variant=zh-cn"@
    } else if variant == Some("zh-tw"@) {
        "&variant=zh-tw"@
    } else {
        ""@
    }
}

/// The query parameter that asks for the Chinese script variant `variant`;
/// empty for any other variant and for none.
pub fn variant_param(variant: Option<&str>) -> (param: &'static str)
    ensures
        param@ == variant_query(opt_str_view(variant)),
{
    match variant {
        Some(v) => {
            if same_text(v, "zh-cn") {
                "&variant=zh-cn"
            } else if same_text(v, "zh-tw") {
                "&variant=zh-tw"
            } else {
                ""
            }
        },
        None => "",
    }
}

/// The search request for `query` on the `lang` edition: the best match, with
/// its plain-text introduction and page properties, redirects followed.
pub open spec fn search_address(lang: Seq<char>, query: Seq<char>, variant: Option<Seq<char>>) -> Seq<
    char,
> {
    "https://"@ + lang + ".wikipedia.org/w/api.php?action=query&generator=search&gsrsearch="@
        + form_encoded(encode_utf8(query))
        + "&gsrlimit=1&prop=extracts|pageprops&exintro&explaintext&format=json&redirects=1"@
        + variant_query(variant)
}

/// Builds the address of the search request.
pub fn search_url(lang: &str, query: &str, variant: Option<&str>) -> (url: String)
    ensures
        url@ == search_address(lang@, query@, opt_str_view(variant)),
{
    let encoded = urlencoding(query);
    let mut url = String::new();
    url.append("https://");
    url.append(lang);
    url.append(".wikipedia.org/w/api.php?action=query&generator=search&gsrsearch=");
    url.append(encoded.as_str());
    url.append("&gsrlimit=1&prop=extracts|pageprops&exintro&explaintext&format=json&redirects=1");
    url.append(variant_param(variant));
    url
}

/// The line that reports the chosen language on standard error.
pub open spec fn language_report(lang: Seq<char>, variant: Option<Seq<char>>, forced: bool) -> Seq<
    char,
> {
    let mode = if forced {
        "manual"@
    } else {
        "auto"@
    };
    match variant {
        Some(v) => "[wiki] language: "@ + lang + ", variant: "@ + v + " ("@ + mode + ")"@,
        None => "[wiki] language: "@ + lang + " ("@ + mode + ")"@,
    }
}

/// The line that reports the chosen language, variant and whether it was
/// given or detected.
pub fn status_line(lang: &str, variant: Option<&str>, forced: bool) -> (line: String)
    ensures
        line@ == language_report(lang@, opt_str_view(variant), forced),
{
    let mut line = String::new();
    line.append("[wiki] language: ");
    line.append(lang);
    match variant {
        Some(v) => {
            line.append(", variant: ");
            line.append(v);
        },
        None => {},
    }
    line.append(" (");
    if forced {
        line.append("manual");
    } else {
        line.append("auto");
    }
    line.append(")");
    line
}

/// The theme to print with: colours only for text output to a terminal.
pub fn choose_theme(json: bool, stdout_is_terminal: bool) -> (t: Theme)
    ensures
        (!json && stdout_is_terminal) ==> t.title@ == "\x1b[1;32m"@ && t.dim@ == "\x1b[2m"@
            && t.url@ == "\x1b[36m"@ && t.reset@ == "\x1b[0m"@,
        (json || !stdout_is_terminal) ==> t.title@.len() == 0 && t.dim@.len() == 0
            && t.url@.len() == 0 && t.reset@.len() == 0,
{
    if !json && stdout_is_terminal {
        Theme::color()
    } else {
        Theme::plain()
    }
}

/// A message for the user and where it goes.
pub struct Notice {
    /// Standard error when true, standard output otherwise.
    pub to_stderr: bool,
    pub text: String,
}

/// What is said when the search finds nothing: a JSON error object on
/// standard output in JSON mode, a sentence on standard error otherwise.
pub open spec fn no_results_text(json: bool, query: Seq<char>) -> Seq<char> {
    if json {
        "{\"error\":\"No results found\"}"@
    } else {
        "No results found for '"@ + query + "'."@
    }
}

/// What is said when the page found has no article text; always on standard
/// output.
pub open spec fn no_article_text(json: bool, query: Seq<char>) -> Seq<char> {
    if json {
        "{\"error\":\"No article found\"}"@
    } else {
        "No article found for '"@ + query + "'."@
    }
}

/// The message for a search that found nothing.
pub fn no_results_notice(json: bool, query: &str) -> (n: Notice)
    ensures
        n.text@ == no_results_text(json, query@),
        n.to_stderr == !json,
{
    if json {
        Notice { to_stderr: false, text: String::from_str("{\"error\":\"No results found\"}") }
    } else {
        let mut text = String::from_str("No results found for '");
        text.append(query);
        text.append("'.");
        Notice { to_stderr: true, text }
    }
}

/// The message for a page without article text.
pub fn no_article_notice(json: bool, query: &str) -> (n: Notice)
    ensures
        n.text@ == no_article_text(json, query@),
        !n.to_stderr,
{
    if json {
        Notice { to_stderr: false, text: String::from_str("{\"error\":\"No article found\"}") }
    } else {
        let mut text = String::from_str("No article found for '");
        text.append(query);
        text.append("'.");
        Notice { to_stderr: false, text }
    }
}

/// What to do with the page that the search found.
pub enum PageOutcome {
    /// A disambiguation page with this title: an article has to be chosen
    /// among the pages it lists.
    Disambiguation { title: String },
    /// The page has no introduction text.
    NoArticle,
    /// Show this article.
    Article { title: String, extract: String },
}

/// Decides what to show for the found page: a disambiguation page is resolved
/// first; otherwise a page with an empty introduction counts as no article.
pub fn page_outcome(page: &JsonValue) -> (o: PageOutcome)
    ensures
        match o {
            PageOutcome::Disambiguation { title } => disambiguation(*page) && title@ == title_of(
                *page,
            ),
            PageOutcome::NoArticle => !disambiguation(*page) && extract_of(*page).len() == 0,
            PageOutcome::Article { title, extract } => {
                &&& !disambiguation(*page)
                &&& extract_of(*page).len() > 0
                &&& title@ == title_of(*page)
                &&& extract@ == extract_of(*page)
            },
        },
{
    let title = page_title(page);
    if is_disambiguation(page) {
        return PageOutcome::Disambiguation { title: String::from_str(title) };
    }
    let extract = page_extract(page);
    if extract.is_empty() {
        PageOutcome::NoArticle
    } else {
        PageOutcome::Article { title: String::from_str(title), extract: String::from_str(extract) }
    }
}

/// The error reported when `-l`/`--lang` comes without a code.
pub const MISSING_LANG_CODE: &'static str = "Error: -l requires a language code (e.g. zh, ja, ko, en)";

/// The usage text after its first line.
pub const HELP_BODY: &'static str = "
Query Wikipedia from the command line with automatic language detection.

USAGE:
    wiki [OPTIONS] <query>

OPTIONS:
    -j, --json         Output as JSON (for piping to jq, scripts, etc.)
    -l, --lang <code>  Specify language (e.g. en, zh, zh-cn, zh-tw, ja, ko, ru, ...)
    -h, --help         Print help information
    -V, --version      Print version information

EXAMPLES:
    wiki rust                    # query article
    wiki \"rust lang\"             # multi-word query
    wiki --json rust             # article as JSON
    wiki -l zh rust              # query on Chinese Wikipedia
    wiki -l ja programming       # query on Japanese Wikipedia

SUPPORTED LANGUAGES:
    Auto-detected by script: English, Chinese (Simplified/Traditional),
    Japanese, Korean, Arabic, Russian, Hindi, Thai, Hebrew, Greek,
    Tamil, Bengali, Telugu, Turkish, Vietnamese
";

/// The first line of the usage text and the answer to `--version`.
pub fn version_line(version: &str) -> (line: String)
    ensures
        line@ == "wiki "@ + version@,
{
    let mut line = String::from_str("wiki ");
    line.append(version);
    line
}

/// The usage text, for the program version `version`.
pub fn help_text(version: &str) -> (text: String)
    ensures
        text@ == "wiki "@ + version@ + HELP_BODY@,
{
    let mut text = version_line(version);
    text.append(HELP_BODY);
    text
}

} // verus!
