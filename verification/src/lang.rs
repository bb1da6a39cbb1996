//! Script-based guess of the Wikipedia language edition for a query.
use vstd::prelude::*;

use crate::text::char_count_bound;

verus! {

/// The index of characters that belong to none of the counted scripts; the
/// counted scripts have the indices below it:
///
/// | index | script | index | script |
/// |-------|--------|-------|--------|
/// | 0 | Japanese kana | 7 | Hebrew |
/// | 1 | Hangul | 8 | Greek |
/// | 2 | CJK ideographs | 9 | Tamil |
/// | 3 | Arabic | 10 | Bengali |
/// | 4 | Cyrillic | 11 | Telugu |
/// | 5 | Devanagari | 12 | Turkish letters |
/// | 6 | Thai | 13 | Vietnamese letters |
pub const OTHER_SCRIPT: usize = 14;

/// Index of the script that `c` is counted for (see `OTHER_SCRIPT`).
pub open spec fn script_of(c: char) -> int {
    let u = c as u32;
    if (0x3040 <= u <= 0x309F) || (0x30A0 <= u <= 0x30FF) || (0x31F0 <= u <= 0x31FF) {
        0
    } else if (0xAC00 <= u <= 0xD7AF) || (0x1100 <= u <= 0x11FF) || (0x3130 <= u <= 0x318F) {
        1
    } else if (0x4E00 <= u <= 0x9FFF) || (0x3400 <= u <= 0x4DBF) || (0xF900 <= u <= 0xFAFF) {
        2
    } else if (0x0600 <= u <= 0x06FF) || (0x0750 <= u <= 0x077F) || (0xFB50 <= u <= 0xFDFF) {
        3
    } else if 0x0400 <= u <= 0x052F {
        4
    } else if 0x0900 <= u <= 0x097F {
        5
    } else if 0x0E00 <= u <= 0x0E7F {
        6
    } else if (0x0590 <= u <= 0x05FF) || (0xFB1D <= u <= 0xFB4F) {
        7
    } else if (0x0370 <= u <= 0x03FF) || (0x1F00 <= u <= 0x1FFF) {
        8
    } else if 0x0B80 <= u <= 0x0BFF {
        9
    } else if 0x0980 <= u <= 0x09FF {
        10
    } else if 0x0C00 <= u <= 0x0C7F {
        11
    } else if u == 0x011F || u == 0x011E || u == 0x015F || u == 0x015E || u == 0x0131
        || u == 0x0130 {
        12
    } else if u == 0x0103 || u == 0x0102 || u == 0x0111 || u == 0x0110 || u == 0x01A1
        || u == 0x01A0 || u == 0x01B0 || u == 0x01AF {
        13
    } else {
        14
    }
}

/// Ideographs that are written only in Simplified Chinese.
pub open spec fn simplified_char(c: char) -> bool {
    matches!(c,
        '么' | '个' | '们' | '这' | '国' | '对' | '说' | '时' | '会' | '学' | '将' | '从' | '还'
        | '进' | '过' | '动' | '与' | '长' | '发' | '开' | '问' | '关' | '没' | '车' | '让' | '经'
        | '头' | '点' | '运' | '实' | '东' | '业' | '变' | '节' | '万' | '达' | '岁' | '华' | '写'
        | '号' | '厂' | '币' | '飞' | '机' | '尽' | '脑' | '冲' | '齐' | '网' | '讯'
    )
}

/// Ideographs that are written only in Traditional Chinese.
pub open spec fn traditional_char(c: char) -> bool {
    matches!(c,
        '們' | '這' | '國' | '對' | '說' | '時' | '會' | '學' | '將' | '從' | '還' | '進' | '過'
        | '動' | '與' | '長' | '發' | '開' | '問' | '關' | '沒' | '車' | '讓' | '經' | '頭' | '點'
        | '運' | '實' | '東' | '業' | '變' | '節' | '萬' | '達' | '歲' | '華' | '寫' | '號' | '廠'
        | '幣' | '飛' | '機' | '盡' | '腦' | '衝' | '齊' | '網' | '訊'
    )
}

/// How many characters of `s` belong to script `k`.
pub open spec fn count_script(s: Seq<char>, k: int) -> nat
    decreases s.len(),
{
    if s.len() == 0 {
        0
    } else {
        count_script(s.drop_last(), k) + if script_of(s.last()) == k {
            1nat
        } else {
            0nat
        }
    }
}

/// How many CJK ideographs of `s` are Simplified-only.
pub open spec fn count_simplified(s: Seq<char>) -> nat
    decreases s.len(),
{
    if s.len() == 0 {
        0
    } else {
        count_simplified(s.drop_last()) + if script_of(s.last()) == 2 && simplified_char(
            s.last(),
        ) {
            1nat
        } else {
            0nat
        }
    }
}

/// How many CJK ideographs of `s` are Traditional-only.
pub open spec fn count_traditional(s: Seq<char>) -> nat
    decreases s.len(),
{
    if s.len() == 0 {
        0
    } else {
        count_traditional(s.drop_last()) + if script_of(s.last()) == 2 && !simplified_char(
            s.last(),
        ) && traditional_char(s.last()) {
            1nat
        } else {
            0nat
        }
    }
}

/// Language code of the scripts 3 to 13, which compete by count.
pub open spec fn code_of(k: int) -> Seq<char> {
    if k == 3 {
        "ar"@
    } else if k == 4 {
        "ru"@
    } else if k == 5 {
        "hi"@
    } else if k == 6 {
        "th"@
    } else if k == 7 {
        "he"@
    } else if k == 8 {
        "el"@
    } else if k == 9 {
        "ta"@
    } else if k == 10 {
        "bn"@
    } else if k == 11 {
        "te"@
    } else if k == 12 {
        "tr"@
    } else {
        "vi"@
    }
}

/// Script `k` (one of 3 to 13) wins among the competing scripts of `s`: it
/// occurs, no competitor occurs more often, and every competitor listed after
/// it occurs strictly less often (a tie goes to the later one).
pub open spec fn is_winner(s: Seq<char>, k: int) -> bool {
    &&& 3 <= k < 14
    &&& count_script(s, k) > 0
    &&& forall|j: int| 3 <= j < 14 ==> #[trigger] count_script(s, j) <= count_script(s, k)
    &&& forall|j: int| k < j < 14 ==> #[trigger] count_script(s, j) < count_script(s, k)
}

/// The language edition and script variant chosen for the text `s`:
/// kana gives Japanese, else Hangul gives Korean, else any CJK ideograph gives
/// Chinese (Traditional when Traditional-only ideographs outnumber the
/// Simplified-only ones, Simplified otherwise), else the most frequent of the
/// other scripts, else English.
pub open spec fn detected_language(s: Seq<char>) -> (Seq<char>, Option<Seq<char>>) {
    if count_script(s, 0) > 0 {
        ("ja"@, None)
    } else if count_script(s, 1) > 0 {
        ("ko"@, None)
    } else if count_script(s, 2) > 0 {
        if count_traditional(s) > count_simplified(s) {
            ("zh"@, Some("zh-tw"@))
        } else {
            ("zh"@, Some("zh-cn"@))
        }
    } else if exists|k: int| is_winner(s, k) {
        (code_of(choose|k: int| is_winner(s, k)), None)
    } else {
        ("en"@, None)
    }
}

/// The view of an optional string slice.
pub open spec fn opt_str_view(o: Option<&str>) -> Option<Seq<char>> {
    match o {
        Some(v) => Some(v@),
        None => None,
    }
}

proof fn lemma_count_step(s: Seq<char>, i: int, k: int)
    requires
        0 <= i < s.len(),
    ensures
        count_script(s.take(i + 1), k) == count_script(s.take(i), k) + if script_of(s[i]) == k {
            1nat
        } else {
            0nat
        },
        count_simplified(s.take(i + 1)) == count_simplified(s.take(i)) + if script_of(s[i]) == 2
            && simplified_char(s[i]) {
            1nat
        } else {
            0nat
        },
        count_traditional(s.take(i + 1)) == count_traditional(s.take(i)) + if script_of(s[i])
            == 2 && !simplified_char(s[i]) && traditional_char(s[i]) {
            1nat
        } else {
            0nat
        },
{
    assert(s.take(i + 1).drop_last() =~= s.take(i));
}

proof fn lemma_count_bound(s: Seq<char>, k: int)
    ensures
        count_script(s, k) <= s.len(),
        count_simplified(s) <= s.len(),
        count_traditional(s) <= s.len(),
    decreases s.len(),
{
    if s.len() > 0 {
        lemma_count_bound(s.drop_last(), k);
    }
}

/// Two winners are the same script.
proof fn lemma_winner_unique(s: Seq<char>, a: int, b: int)
    requires
        is_winner(s, a),
        is_winner(s, b),
    ensures
        a == b,
{
    if a < b {
        assert(count_script(s, b) < count_script(s, a));
        assert(count_script(s, a) <= count_script(s, b));
    } else if b < a {
        assert(count_script(s, a) < count_script(s, b));
        assert(count_script(s, b) <= count_script(s, a));
    }
}

fn script_index(c: char) -> (k: usize)
    ensures
        k == script_of(c),
{
    let u = c as u32;
    if (0x3040 <= u && u <= 0x309F) || (0x30A0 <= u && u <= 0x30FF) || (0x31F0 <= u && u
        <= 0x31FF) {
        0
    } else if (0xAC00 <= u && u <= 0xD7AF) || (0x1100 <= u && u <= 0x11FF) || (0x3130 <= u
        && u <= 0x318F) {
        1
    } else if (0x4E00 <= u && u <= 0x9FFF) || (0x3400 <= u && u <= 0x4DBF) || (0xF900 <= u
        && u <= 0xFAFF) {
        2
    } else if (0x0600 <= u && u <= 0x06FF) || (0x0750 <= u && u <= 0x077F) || (0xFB50 <= u
        && u <= 0xFDFF) {
        3
    } else if 0x0400 <= u && u <= 0x052F {
        4
    } else if 0x0900 <= u && u <= 0x097F {
        5
    } else if 0x0E00 <= u && u <= 0x0E7F {
        6
    } else if (0x0590 <= u && u <= 0x05FF) || (0xFB1D <= u && u <= 0xFB4F) {
        7
    } else if (0x0370 <= u && u <= 0x03FF) || (0x1F00 <= u && u <= 0x1FFF) {
        8
    } else if 0x0B80 <= u && u <= 0x0BFF {
        9
    } else if 0x0980 <= u && u <= 0x09FF {
        10
    } else if 0x0C00 <= u && u <= 0x0C7F {
        11
    } else if u == 0x011F || u == 0x011E || u == 0x015F || u == 0x015E || u == 0x0131 || u
        == 0x0130 {
        12
    } else if u == 0x0103 || u == 0x0102 || u == 0x0111 || u == 0x0110 || u == 0x01A1 || u
        == 0x01A0 || u == 0x01B0 || u == 0x01AF {
        13
    } else {
        OTHER_SCRIPT
    }
}

/// Whether `c` is one of the ideographs written only in Simplified Chinese.
pub fn is_simplified_indicator(c: char) -> (b: bool)
    ensures
        b == simplified_char(c),
{
    matches!(c,
        '么' | '个' | '们' | '这' | '国' | '对' | '说' | '时' | '会' | '学' | '将' | '从' | '还'
        | '进' | '过' | '动' | '与' | '长' | '发' | '开' | '问' | '关' | '没' | '车' | '让' | '经'
        | '头' | '点' | '运' | '实' | '东' | '业' | '变' | '节' | '万' | '达' | '岁' | '华' | '写'
        | '号' | '厂' | '币' | '飞' | '机' | '尽' | '脑' | '冲' | '齐' | '网' | '讯'
    )
}

/// Whether `c` is one of the ideographs written only in Traditional Chinese.
pub fn is_traditional_indicator(c: char) -> (b: bool)
    ensures
        b == traditional_char(c),
{
    matches!(c,
        '們' | '這' | '國' | '對' | '說' | '時' | '會' | '學' | '將' | '從' | '還' | '進' | '過'
        | '動' | '與' | '長' | '發' | '開' | '問' | '關' | '沒' | '車' | '讓' | '經' | '頭' | '點'
        | '運' | '實' | '東' | '業' | '變' | '節' | '萬' | '達' | '歲' | '華' | '寫' | '號' | '廠'
        | '幣' | '飛' | '機' | '盡' | '腦' | '衝' | '齊' | '網' | '訊'
    )
}

fn competing_code(k: usize) -> (code: &'static str)
    requires
        3 <= k < 14,
    ensures
        code@ == code_of(k as int),
{
    if k == 3 {
        "ar"
    } else if k == 4 {
        "ru"
    } else if k == 5 {
        "hi"
    } else if k == 6 {
        "th"
    } else if k == 7 {
        "he"
    } else if k == 8 {
        "el"
    } else if k == 9 {
        "ta"
    } else if k == 10 {
        "bn"
    } else if k == 11 {
        "te"
    } else if k == 12 {
        "tr"
    } else {
        "vi"
    }
}

/// Guesses the Wikipedia language edition of `text` from the scripts its
/// characters belong to, with the Chinese variant where the edition is `zh`.
pub fn detect_language(text: &str) -> (res: (&'static str, Option<&'static str>))
    ensures
        res.0@ == detected_language(text@).0,
        opt_str_view(res.1) == detected_language(text@).1,
{
    let ghost s = text@;
    let nbytes = char_count_bound(text);
    let mut counts: Vec<usize> = vec![0, 0, 0, 0, 0, 0, 0, 0, 0, 0, 0, 0, 0, 0];
    let mut simplified: usize = 0;
    let mut traditional: usize = 0;
    let mut i: usize = 0;
    for c in it: text.chars()
        invariant
            it.seq() == s,
            i == it.index(),
            s.len() <= nbytes,
            counts@.len() == 14,
            forall|k: int| 0 <= k < 14 ==> #[trigger] counts@[k] == count_script(s.take(i as int), k),
            simplified == count_simplified(s.take(i as int)),
            traditional == count_traditional(s.take(i as int)),
    {
        proof {
            lemma_count_step(s, i as int, script_of(c));
            assert forall|k: int| 0 <= k < 14 implies count_script(s.take(i + 1), k)
                == count_script(s.take(i as int), k) + if script_of(s[i as int]) == k {
                1nat
            } else {
                0nat
            } by {
                lemma_count_step(s, i as int, k);
            }
            lemma_count_bound(s.take(i + 1), script_of(c));
        }
        let k = script_index(c);
        if k < OTHER_SCRIPT {
            let n = counts[k];
            counts.set(k, n + 1);
        }
        if k == 2 {
            if is_simplified_indicator(c) {
                simplified = simplified + 1;
            } else if is_traditional_indicator(c) {
                traditional = traditional + 1;
            }
        }
        i = i + 1;
    }
    assert(s.take(s.len() as int) =~= s);
    if counts[0] > 0 {
        return ("ja", None);
    }
    if counts[1] > 0 {
        return ("ko", None);
    }
    if counts[2] > 0 {
        return if traditional > simplified {
            ("zh", Some("zh-tw"))
        } else {
            ("zh", Some("zh-cn"))
        };
    }
    let mut best: usize = 0;
    let mut k: usize = 3;
    while k < 14
        invariant
            3 <= k <= 14,
            counts@.len() == 14,
            forall|j: int| 0 <= j < 14 ==> #[trigger] counts@[j] == count_script(s, j),
            best == 0 ==> forall|j: int| 3 <= j < k ==> #[trigger] count_script(s, j) == 0,
            best != 0 ==> {
                &&& 3 <= best < k
                &&& count_script(s, best as int) > 0
                &&& forall|j: int| 3 <= j < k ==> #[trigger] count_script(s, j) <= count_script(
                    s,
                    best as int,
                )
                &&& forall|j: int| best < j < k ==> #[trigger] count_script(s, j) < count_script(
                    s,
                    best as int,
                )
            },
        decreases 14 - k,
    {
        if counts[k] > 0 && (best == 0 || counts[k] >= counts[best]) {
            best = k;
        }
        k = k + 1;
    }
    if best == 0 {
        assert(!exists|j: int| is_winner(s, j));
        ("en", None)
    } else {
        assert(is_winner(s, best as int));
        proof {
            let w = choose|j: int| is_winner(s, j);
            lemma_winner_unique(s, w, best as int);
        }
        (competing_code(best), None)
    }
}

/// Counts add up over a concatenation.
pub proof fn lemma_counts_concat(s: Seq<char>, t: Seq<char>)
    ensures
        forall|k: int| #[trigger] count_script(s + t, k) == count_script(s, k) + count_script(t, k),
        count_simplified(s + t) == count_simplified(s) + count_simplified(t),
        count_traditional(s + t) == count_traditional(s) + count_traditional(t),
    decreases t.len(),
{
    if t.len() == 0 {
        assert(s + t =~= s);
    } else {
        assert((s + t).drop_last() =~= s + t.drop_last());
        assert((s + t).last() == t.last());
        lemma_counts_concat(s, t.drop_last());
        assert forall|k: int| #[trigger] count_script(s + t, k) == count_script(s, k)
            + count_script(t, k) by {
            assert(count_script(s + t.drop_last(), k) == count_script(s, k) + count_script(
                t.drop_last(),
                k,
            ));
        }
    }
}

/// Text none of whose characters belongs to a counted script counts nothing.
proof fn lemma_counts_zero(t: Seq<char>)
    requires
        forall|i: int| 0 <= i < t.len() ==> script_of(#[trigger] t[i]) == 14,
    ensures
        forall|k: int| 0 <= k < 14 ==> #[trigger] count_script(t, k) == 0,
        count_simplified(t) == 0,
        count_traditional(t) == 0,
    decreases t.len(),
{
    if t.len() > 0 {
        assert(script_of(t[t.len() - 1]) == 14);
        lemma_counts_zero(t.drop_last());
        assert forall|k: int| 0 <= k < 14 implies #[trigger] count_script(t, k) == 0 by {
            assert(count_script(t.drop_last(), k) == 0);
        }
    }
}

/// A character of script `k` at position `i` is counted.
proof fn lemma_count_positive(s: Seq<char>, i: int)
    requires
        0 <= i < s.len(),
    ensures
        count_script(s, script_of(s[i])) > 0,
{
    let k = script_of(s[i]);
    let one = seq![s[i]];
    assert(s =~= s.take(i) + (one + s.skip(i + 1)));
    lemma_counts_concat(s.take(i), one + s.skip(i + 1));
    lemma_counts_concat(one, s.skip(i + 1));
    assert(one.drop_last() =~= Seq::<char>::empty());
}

proof fn lemma_winner_transfer(s: Seq<char>, t: Seq<char>, k: int)
    requires
        forall|j: int| 0 <= j < 14 ==> #[trigger] count_script(s, j) == count_script(t, j),
        is_winner(s, k),
    ensures
        is_winner(t, k),
{
    assert(count_script(s, k) == count_script(t, k));
    assert forall|j: int| 3 <= j < 14 implies #[trigger] count_script(t, j) <= count_script(t, k) by {
        assert(count_script(s, j) == count_script(t, j));
        assert(count_script(s, j) <= count_script(s, k));
    }
    assert forall|j: int| k < j < 14 implies #[trigger] count_script(t, j) < count_script(t, k) by {
        assert(count_script(s, j) == count_script(t, j));
        assert(count_script(s, j) < count_script(s, k));
    }
}

/// Texts with the same counts get the same language.
proof fn lemma_same_counts_same_language(s: Seq<char>, t: Seq<char>)
    requires
        forall|k: int| 0 <= k < 14 ==> #[trigger] count_script(s, k) == count_script(t, k),
        count_simplified(s) == count_simplified(t),
        count_traditional(s) == count_traditional(t),
    ensures
        detected_language(s) == detected_language(t),
{
    assert(count_script(s, 0) == count_script(t, 0));
    assert(count_script(s, 1) == count_script(t, 1));
    assert(count_script(s, 2) == count_script(t, 2));
    assert forall|k: int| is_winner(s, k) <==> is_winner(t, k) by {
        if is_winner(s, k) {
            lemma_winner_transfer(s, t, k);
        }
        if is_winner(t, k) {
            lemma_winner_transfer(t, s, k);
        }
    }
    if exists|k: int| is_winner(s, k) {
        let a = choose|k: int| is_winner(s, k);
        let b = choose|k: int| is_winner(t, k);
        lemma_winner_unique(t, a, b);
    }
}

/// Text whose characters belong to none of the detected scripts (such as
/// plain English) is looked up on the English edition, without a variant.
pub proof fn law_unscripted_text_is_english(s: Seq<char>)
    requires
        forall|i: int| 0 <= i < s.len() ==> script_of(#[trigger] s[i]) == 14,
    ensures
        detected_language(s) == ("en"@, None::<Seq<char>>),
{
    lemma_counts_zero(s);
    assert(!exists|k: int| is_winner(s, k));
}

/// Every ASCII character belongs to none of the detected scripts, so ASCII
/// text is looked up on the English edition.
pub proof fn law_ascii_text_is_english(s: Seq<char>)
    requires
        forall|i: int| 0 <= i < s.len() ==> (#[trigger] s[i] as u32) < 0x80,
    ensures
        detected_language(s) == ("en"@, None::<Seq<char>>),
{
    assert forall|i: int| 0 <= i < s.len() implies script_of(#[trigger] s[i]) == 14 by {
        assert((s[i] as u32) < 0x80);
    }
    law_unscripted_text_is_english(s);
}

/// Japanese kana: hiragana, katakana and the katakana phonetic extensions.
pub open spec fn kana_char(c: char) -> bool {
    let u = c as u32;
    (0x3040 <= u <= 0x309F) || (0x30A0 <= u <= 0x30FF) || (0x31F0 <= u <= 0x31FF)
}

/// Korean Hangul: syllables, jamo and compatibility jamo.
pub open spec fn hangul_char(c: char) -> bool {
    let u = c as u32;
    (0xAC00 <= u <= 0xD7AF) || (0x1100 <= u <= 0x11FF) || (0x3130 <= u <= 0x318F)
}

/// CJK ideographs: the unified block, extension A and the compatibility block.
pub open spec fn cjk_ideograph(c: char) -> bool {
    let u = c as u32;
    (0x4E00 <= u <= 0x9FFF) || (0x3400 <= u <= 0x4DBF) || (0xF900 <= u <= 0xFAFF)
}

/// Arabic, the Arabic supplement and Arabic presentation forms A.
pub open spec fn arabic_char(c: char) -> bool {
    let u = c as u32;
    (0x0600 <= u <= 0x06FF) || (0x0750 <= u <= 0x077F) || (0xFB50 <= u <= 0xFDFF)
}

/// Cyrillic and the Cyrillic supplement.
pub open spec fn cyrillic_char(c: char) -> bool {
    let u = c as u32;
    (0x0400 <= u <= 0x04FF) || (0x0500 <= u <= 0x052F)
}

/// Devanagari.
pub open spec fn devanagari_char(c: char) -> bool {
    let u = c as u32;
    0x0900 <= u <= 0x097F
}

/// Thai.
pub open spec fn thai_char(c: char) -> bool {
    let u = c as u32;
    0x0E00 <= u <= 0x0E7F
}

/// Hebrew and the Hebrew presentation forms.
pub open spec fn hebrew_char(c: char) -> bool {
    let u = c as u32;
    (0x0590 <= u <= 0x05FF) || (0xFB1D <= u <= 0xFB4F)
}

/// Greek and Coptic, and extended Greek.
pub open spec fn greek_char(c: char) -> bool {
    let u = c as u32;
    (0x0370 <= u <= 0x03FF) || (0x1F00 <= u <= 0x1FFF)
}

/// Tamil.
pub open spec fn tamil_char(c: char) -> bool {
    let u = c as u32;
    0x0B80 <= u <= 0x0BFF
}

/// Bengali.
pub open spec fn bengali_char(c: char) -> bool {
    let u = c as u32;
    0x0980 <= u <= 0x09FF
}

/// Telugu.
pub open spec fn telugu_char(c: char) -> bool {
    let u = c as u32;
    0x0C00 <= u <= 0x0C7F
}

/// The Turkish letters ğ Ğ ş Ş ı İ.
pub open spec fn turkish_letter(c: char) -> bool {
    c == 'ğ' || c == 'Ğ' || c == 'ş' || c == 'Ş' || c == 'ı' || c == 'İ'
}

/// The Vietnamese letters ă Ă đ Đ ơ Ơ ư Ư.
pub open spec fn vietnamese_letter(c: char) -> bool {
    c == 'ă' || c == 'Ă' || c == 'đ' || c == 'Đ' || c == 'ơ' || c == 'Ơ' || c == 'ư' || c == 'Ư'
}

/// No character of a text whose characters all belong to script `k` or to
/// none is counted for another script or as a Chinese indicator.
proof fn lemma_counts_only(s: Seq<char>, k: int)
    requires
        3 <= k < 14,
        forall|j: int| 0 <= j < s.len() ==> script_of(#[trigger] s[j]) == k || script_of(s[j]) == 14,
    ensures
        forall|m: int| 0 <= m < 14 && m != k ==> #[trigger] count_script(s, m) == 0,
        count_simplified(s) == 0,
        count_traditional(s) == 0,
    decreases s.len(),
{
    if s.len() > 0 {
        assert(script_of(s[s.len() - 1]) == k || script_of(s[s.len() - 1]) == 14);
        lemma_counts_only(s.drop_last(), k);
        assert forall|m: int| 0 <= m < 14 && m != k implies #[trigger] count_script(s, m) == 0 by {
            assert(count_script(s.drop_last(), m) == 0);
        }
    }
}

/// A text whose characters all belong to one competing script `k` or to no
/// script, with at least one of script `k`, is detected as that script's
/// language.
proof fn lemma_only_script(s: Seq<char>, k: int, i: int)
    requires
        3 <= k < 14,
        0 <= i < s.len(),
        script_of(s[i]) == k,
        forall|j: int| 0 <= j < s.len() ==> script_of(#[trigger] s[j]) == k || script_of(s[j]) == 14,
    ensures
        detected_language(s) == (code_of(k), None::<Seq<char>>),
{
    lemma_counts_only(s, k);
    lemma_count_positive(s, i);
    assert(count_script(s, 0) == 0);
    assert(count_script(s, 1) == 0);
    assert(count_script(s, 2) == 0);
    assert forall|j: int| 3 <= j < 14 implies #[trigger] count_script(s, j) <= count_script(s, k) by {
        if j != k {
            assert(count_script(s, j) == 0);
        }
    }
    assert forall|j: int| k < j < 14 implies #[trigger] count_script(s, j) < count_script(s, k) by {
        assert(count_script(s, j) == 0);
    }
    assert(is_winner(s, k));
    let w = choose|j: int| is_winner(s, j);
    lemma_winner_unique(s, w, k);
}

/// A text with a kana character anywhere is looked up on the Japanese
/// edition, whatever else it holds.
pub proof fn law_kana_means_japanese(s: Seq<char>, i: int)
    requires
        0 <= i < s.len(),
        kana_char(s[i]),
    ensures
        detected_language(s) == ("ja"@, None::<Seq<char>>),
{
    lemma_count_positive(s, i);
}

/// A text with Hangul and no kana is looked up on the Korean edition.
pub proof fn law_hangul_means_korean(s: Seq<char>, i: int)
    requires
        0 <= i < s.len(),
        hangul_char(s[i]),
        forall|j: int| 0 <= j < s.len() ==> !kana_char(#[trigger] s[j]),
    ensures
        detected_language(s) == ("ko"@, None::<Seq<char>>),
{
    lemma_count_positive(s, i);
    assert forall|j: int| 0 <= j < s.len() implies script_of(#[trigger] s[j]) != 0 by {
        assert(!kana_char(s[j]));
    }
    lemma_count_zero_for(s, 0);
}

/// A text with a CJK ideograph and neither kana nor Hangul is looked up on
/// the Chinese edition, with a variant.
pub proof fn law_ideographs_mean_chinese(s: Seq<char>, i: int)
    requires
        0 <= i < s.len(),
        cjk_ideograph(s[i]),
        forall|j: int| 0 <= j < s.len() ==> !kana_char(#[trigger] s[j]) && !hangul_char(s[j]),
    ensures
        detected_language(s).0 == "zh"@,
        detected_language(s).1 is Some,
{
    lemma_count_positive(s, i);
    assert forall|j: int| 0 <= j < s.len() implies script_of(#[trigger] s[j]) != 0 && script_of(
        s[j],
    ) != 1 by {
        assert(!kana_char(s[j]) && !hangul_char(s[j]));
    }
    lemma_count_zero_for(s, 0);
    lemma_count_zero_for(s, 1);
}

/// A character that belongs to no script is not counted for `k`.
proof fn lemma_count_zero_for(s: Seq<char>, k: int)
    requires
        forall|j: int| 0 <= j < s.len() ==> script_of(#[trigger] s[j]) != k,
    ensures
        count_script(s, k) == 0,
    decreases s.len(),
{
    if s.len() > 0 {
        assert(script_of(s[s.len() - 1]) != k);
        lemma_count_zero_for(s.drop_last(), k);
    }
}

/// A text in Arabic (its letters with any ASCII characters among them) is
/// looked up on the `ar` edition.
pub proof fn law_arabic_text_is_ar(s: Seq<char>, i: int)
    requires
        0 <= i < s.len(),
        arabic_char(s[i]),
        forall|j: int| 0 <= j < s.len() ==> (#[trigger] s[j] as u32) < 0x80 || arabic_char(s[j]),
    ensures
        detected_language(s) == ("ar"@, None::<Seq<char>>),
{
    assert forall|j: int| 0 <= j < s.len() implies script_of(#[trigger] s[j]) == 3 || script_of(
        s[j],
    ) == 14 by {
        assert((s[j] as u32) < 0x80 || arabic_char(s[j]));
    }
    lemma_only_script(s, 3, i);
}

/// A text in Cyrillic (its letters with any ASCII characters among them) is
/// looked up on the `ru` edition.
pub proof fn law_cyrillic_text_is_ru(s: Seq<char>, i: int)
    requires
        0 <= i < s.len(),
        cyrillic_char(s[i]),
        forall|j: int| 0 <= j < s.len() ==> (#[trigger] s[j] as u32) < 0x80 || cyrillic_char(s[j]),
    ensures
        detected_language(s) == ("ru"@, None::<Seq<char>>),
{
    assert forall|j: int| 0 <= j < s.len() implies script_of(#[trigger] s[j]) == 4 || script_of(
        s[j],
    ) == 14 by {
        assert((s[j] as u32) < 0x80 || cyrillic_char(s[j]));
    }
    lemma_only_script(s, 4, i);
}

/// A text in Devanagari (its letters with any ASCII characters among them) is
/// looked up on the `hi` edition.
pub proof fn law_devanagari_text_is_hi(s: Seq<char>, i: int)
    requires
        0 <= i < s.len(),
        devanagari_char(s[i]),
        forall|j: int| 0 <= j < s.len() ==> (#[trigger] s[j] as u32) < 0x80 || devanagari_char(s[j]),
    ensures
        detected_language(s) == ("hi"@, None::<Seq<char>>),
{
    assert forall|j: int| 0 <= j < s.len() implies script_of(#[trigger] s[j]) == 5 || script_of(
        s[j],
    ) == 14 by {
        assert((s[j] as u32) < 0x80 || devanagari_char(s[j]));
    }
    lemma_only_script(s, 5, i);
}

/// A text in Thai (its letters with any ASCII characters among them) is
/// looked up on the `th` edition.
pub proof fn law_thai_text_is_th(s: Seq<char>, i: int)
    requires
        0 <= i < s.len(),
        thai_char(s[i]),
        forall|j: int| 0 <= j < s.len() ==> (#[trigger] s[j] as u32) < 0x80 || thai_char(s[j]),
    ensures
        detected_language(s) == ("th"@, None::<Seq<char>>),
{
    assert forall|j: int| 0 <= j < s.len() implies script_of(#[trigger] s[j]) == 6 || script_of(
        s[j],
    ) == 14 by {
        assert((s[j] as u32) < 0x80 || thai_char(s[j]));
    }
    lemma_only_script(s, 6, i);
}

/// A text in Hebrew (its letters with any ASCII characters among them) is
/// looked up on the `he` edition.
pub proof fn law_hebrew_text_is_he(s: Seq<char>, i: int)
    requires
        0 <= i < s.len(),
        hebrew_char(s[i]),
        forall|j: int| 0 <= j < s.len() ==> (#[trigger] s[j] as u32) < 0x80 || hebrew_char(s[j]),
    ensures
        detected_language(s) == ("he"@, None::<Seq<char>>),
{
    assert forall|j: int| 0 <= j < s.len() implies script_of(#[trigger] s[j]) == 7 || script_of(
        s[j],
    ) == 14 by {
        assert((s[j] as u32) < 0x80 || hebrew_char(s[j]));
    }
    lemma_only_script(s, 7, i);
}

/// A text in Greek (its letters with any ASCII characters among them) is
/// looked up on the `el` edition.
pub proof fn law_greek_text_is_el(s: Seq<char>, i: int)
    requires
        0 <= i < s.len(),
        greek_char(s[i]),
        forall|j: int| 0 <= j < s.len() ==> (#[trigger] s[j] as u32) < 0x80 || greek_char(s[j]),
    ensures
        detected_language(s) == ("el"@, None::<Seq<char>>),
{
    assert forall|j: int| 0 <= j < s.len() implies script_of(#[trigger] s[j]) == 8 || script_of(
        s[j],
    ) == 14 by {
        assert((s[j] as u32) < 0x80 || greek_char(s[j]));
    }
    lemma_only_script(s, 8, i);
}

/// A text in Tamil (its letters with any ASCII characters among them) is
/// looked up on the `ta` edition.
pub proof fn law_tamil_text_is_ta(s: Seq<char>, i: int)
    requires
        0 <= i < s.len(),
        tamil_char(s[i]),
        forall|j: int| 0 <= j < s.len() ==> (#[trigger] s[j] as u32) < 0x80 || tamil_char(s[j]),
    ensures
        detected_language(s) == ("ta"@, None::<Seq<char>>),
{
    assert forall|j: int| 0 <= j < s.len() implies script_of(#[trigger] s[j]) == 9 || script_of(
        s[j],
    ) == 14 by {
        assert((s[j] as u32) < 0x80 || tamil_char(s[j]));
    }
    lemma_only_script(s, 9, i);
}

/// A text in Bengali (its letters with any ASCII characters among them) is
/// looked up on the `bn` edition.
pub proof fn law_bengali_text_is_bn(s: Seq<char>, i: int)
    requires
        0 <= i < s.len(),
        bengali_char(s[i]),
        forall|j: int| 0 <= j < s.len() ==> (#[trigger] s[j] as u32) < 0x80 || bengali_char(s[j]),
    ensures
        detected_language(s) == ("bn"@, None::<Seq<char>>),
{
    assert forall|j: int| 0 <= j < s.len() implies script_of(#[trigger] s[j]) == 10 || script_of(
        s[j],
    ) == 14 by {
        assert((s[j] as u32) < 0x80 || bengali_char(s[j]));
    }
    lemma_only_script(s, 10, i);
}

/// A text in Telugu (its letters with any ASCII characters among them) is
/// looked up on the `te` edition.
pub proof fn law_telugu_text_is_te(s: Seq<char>, i: int)
    requires
        0 <= i < s.len(),
        telugu_char(s[i]),
        forall|j: int| 0 <= j < s.len() ==> (#[trigger] s[j] as u32) < 0x80 || telugu_char(s[j]),
    ensures
        detected_language(s) == ("te"@, None::<Seq<char>>),
{
    assert forall|j: int| 0 <= j < s.len() implies script_of(#[trigger] s[j]) == 11 || script_of(
        s[j],
    ) == 14 by {
        assert((s[j] as u32) < 0x80 || telugu_char(s[j]));
    }
    lemma_only_script(s, 11, i);
}

/// A text in Turkish (its letters with any ASCII characters among them) is
/// looked up on the `tr` edition.
pub proof fn law_turkish_text_is_tr(s: Seq<char>, i: int)
    requires
        0 <= i < s.len(),
        turkish_letter(s[i]),
        forall|j: int| 0 <= j < s.len() ==> (#[trigger] s[j] as u32) < 0x80 || turkish_letter(s[j]),
    ensures
        detected_language(s) == ("tr"@, None::<Seq<char>>),
{
    assert forall|j: int| 0 <= j < s.len() implies script_of(#[trigger] s[j]) == 12 || script_of(
        s[j],
    ) == 14 by {
        assert((s[j] as u32) < 0x80 || turkish_letter(s[j]));
    }
    lemma_only_script(s, 12, i);
}

/// A text in Vietnamese (its letters with any ASCII characters among them) is
/// looked up on the `vi` edition.
pub proof fn law_vietnamese_text_is_vi(s: Seq<char>, i: int)
    requires
        0 <= i < s.len(),
        vietnamese_letter(s[i]),
        forall|j: int| 0 <= j < s.len() ==> (#[trigger] s[j] as u32) < 0x80 || vietnamese_letter(s[j]),
    ensures
        detected_language(s) == ("vi"@, None::<Seq<char>>),
{
    assert forall|j: int| 0 <= j < s.len() implies script_of(#[trigger] s[j]) == 13 || script_of(
        s[j],
    ) == 14 by {
        assert((s[j] as u32) < 0x80 || vietnamese_letter(s[j]));
    }
    lemma_only_script(s, 13, i);
}

/// The ideographs that mark Simplified Chinese.
pub open spec fn simplified_marks() -> Seq<char> {
    seq![
        '么', '个', '们', '这', '国', '对', '说', '时', '会', '学', '将', '从', '还', '进', '过', '动', '与',
        '长', '发', '开', '问', '关', '没', '车', '让', '经', '头', '点', '运', '实', '东', '业', '变', '节',
        '万', '达', '岁', '华', '写', '号', '厂', '币', '飞', '机', '尽', '脑', '冲', '齐', '网', '讯',
    ]
}

/// The ideographs that mark Traditional Chinese.
pub open spec fn traditional_marks() -> Seq<char> {
    seq![
        '們', '這', '國', '對', '說', '時', '會', '學', '將', '從', '還', '進', '過', '動', '與', '長', '發',
        '開', '問', '關', '沒', '車', '讓', '經', '頭', '點', '運', '實', '東', '業', '變', '節', '萬', '達',
        '歲', '華', '寫', '號', '廠', '幣', '飛', '機', '盡', '腦', '衝', '齊', '網', '訊',
    ]
}

/// A single ideograph is read as Traditional Chinese exactly when it is one
/// of the Traditional marks; every other ideograph alone is read as
/// Simplified Chinese.
pub proof fn law_traditional_marks(c: char)
    requires
        cjk_ideograph(c),
    ensures
        detected_language(seq![c]) == if traditional_marks().contains(c) {
            ("zh"@, Some("zh-tw"@))
        } else {
            ("zh"@, Some("zh-cn"@))
        },
{
    let s = seq![c];
    let e = Seq::<char>::empty();
    assert(s.drop_last() =~= e);
    assert(s.last() == c);
    assert(script_of(c) == 2);
    assert(count_script(e, 0) == 0 && count_script(e, 1) == 0 && count_script(e, 2) == 0);
    assert(count_simplified(e) == 0 && count_traditional(e) == 0);
    assert(count_script(s, 0) == 0);
    assert(count_script(s, 1) == 0);
    assert(count_script(s, 2) == 1);
    lemma_marks_membership(c);
    assert(count_simplified(s) == if simplified_char(c) { 1nat } else { 0nat });
    assert(count_traditional(s) == if traditional_char(c) && !simplified_char(c) { 1nat } else { 0nat });
}

/// Next to the Traditional mark 們, an ideograph tips the text back to
/// Simplified Chinese exactly when it is one of the Simplified marks.
pub proof fn law_simplified_marks(c: char)
    requires
        cjk_ideograph(c),
    ensures
        detected_language(seq![c, '們']).1 == Some("zh-cn"@) <==> simplified_marks().contains(c),
{
    reveal_strlit("zh-cn");
    reveal_strlit("zh-tw");
    assert("zh-cn"@[3] != "zh-tw"@[3]);
    let s = seq![c, '們'];
    let first = seq![c];
    assert(s.drop_last() =~= first);
    assert(first.drop_last() =~= Seq::<char>::empty());
    assert(s.last() == '們');
    assert(script_of('們') == 2 && !simplified_char('們') && traditional_char('們'));
    let e = Seq::<char>::empty();
    assert(script_of(c) == 2);
    assert(count_script(e, 0) == 0 && count_script(e, 1) == 0 && count_script(e, 2) == 0);
    assert(count_simplified(e) == 0 && count_traditional(e) == 0);
    assert(count_script(first, 0) == 0 && count_script(first, 1) == 0);
    assert(count_script(s, 0) == 0);
    assert(count_script(s, 1) == 0);
    assert(count_script(first, 2) == 1);
    assert(count_script(s, 2) == 2);
    lemma_marks_membership(c);
    assert(count_simplified(first) == if simplified_char(c) { 1nat } else { 0nat });
    assert(count_traditional(first) == if traditional_char(c) && !simplified_char(c) { 1nat } else { 0nat });
    assert(count_simplified(s) == count_simplified(first));
    assert(count_traditional(s) == count_traditional(first) + 1);
}

/// The two lists of marks are those that the detection counts.
proof fn lemma_marks_membership(c: char)
    ensures
        simplified_marks().contains(c) <==> simplified_char(c),
        traditional_marks().contains(c) <==> (traditional_char(c) && !simplified_char(c)),
{
    let sm = simplified_marks();
    let tm = traditional_marks();
    if simplified_char(c) {
        assert(exists|i: int| 0 <= i < sm.len() && sm[i] == c) by {
            assert(forall|i: int| 0 <= i < sm.len() ==> sm[i] == sm[i]);
            let i = choose|i: int| 0 <= i < 50 && #[trigger] sm[i] == c;
        }
    }
    if sm.contains(c) {
        let i = choose|i: int| 0 <= i < sm.len() && sm[i] == c;
        assert(simplified_char(sm[i]));
    }
    if traditional_char(c) {
        let i = choose|i: int| 0 <= i < 48 && #[trigger] tm[i] == c;
    }
    if tm.contains(c) {
        let i = choose|i: int| 0 <= i < tm.len() && tm[i] == c;
        assert(traditional_char(tm[i]) && !simplified_char(tm[i]));
    }
}

/// Every character of a text of script `k` is counted for `k`.
proof fn lemma_count_all(s: Seq<char>, k: int)
    requires
        forall|j: int| 0 <= j < s.len() ==> script_of(#[trigger] s[j]) == k,
    ensures
        count_script(s, k) == s.len(),
    decreases s.len(),
{
    if s.len() > 0 {
        assert(script_of(s[s.len() - 1]) == k);
        lemma_count_all(s.drop_last(), k);
    }
}

/// Between two scripts, the more frequent one wins, and a tie goes to the one
/// listed later (Cyrillic after Arabic): Arabic letters `x` with Cyrillic
/// letters `y` give Arabic only when there are more Arabic letters.
pub proof fn law_more_frequent_script_wins(x: Seq<char>, y: Seq<char>)
    requires
        x.len() + y.len() > 0,
        forall|j: int| 0 <= j < x.len() ==> arabic_char(#[trigger] x[j]),
        forall|j: int| 0 <= j < y.len() ==> cyrillic_char(#[trigger] y[j]),
    ensures
        detected_language(x + y) == (if x.len() > y.len() {
            "ar"@
        } else {
            "ru"@
        }, None::<Seq<char>>),
{
    assert forall|j: int| 0 <= j < x.len() implies script_of(#[trigger] x[j]) == 3 by {
        assert(arabic_char(x[j]));
    }
    assert forall|j: int| 0 <= j < y.len() implies script_of(#[trigger] y[j]) == 4 by {
        assert(cyrillic_char(y[j]));
    }
    lemma_count_all(x, 3);
    lemma_count_all(y, 4);
    lemma_counts_only(x, 3);
    lemma_counts_only(y, 4);
    lemma_counts_concat(x, y);
    let s = x + y;
    assert(count_script(s, 3) == x.len());
    assert(count_script(s, 4) == y.len());
    assert(count_script(s, 0) == 0 && count_script(s, 1) == 0 && count_script(s, 2) == 0);
    let w: int = if x.len() > y.len() { 3 } else { 4 };
    assert forall|j: int| 3 <= j < 14 implies #[trigger] count_script(s, j) <= count_script(s, w) by {
        if j != 3 && j != 4 {
            assert(count_script(x, j) == 0 && count_script(y, j) == 0);
        }
    }
    assert forall|j: int| w < j < 14 implies #[trigger] count_script(s, j) < count_script(s, w) by {
        if j != 4 {
            assert(count_script(x, j) == 0 && count_script(y, j) == 0);
        }
    }
    assert(is_winner(s, w));
    let v = choose|j: int| is_winner(s, j);
    lemma_winner_unique(s, v, w);
}

/// A variant is chosen exactly for the Chinese edition, and it is `zh-cn` or
/// `zh-tw`.
pub proof fn law_variant_only_for_chinese(s: Seq<char>)
    ensures
        detected_language(s).1 is Some <==> detected_language(s).0 == "zh"@,
        detected_language(s).1 is Some ==> detected_language(s).1 == Some("zh-cn"@)
            || detected_language(s).1 == Some("zh-tw"@),
{
    reveal_strlit("zh");
    reveal_strlit("ja");
    reveal_strlit("ko");
    reveal_strlit("en");
    reveal_strlit("ar");
    reveal_strlit("ru");
    reveal_strlit("hi");
    reveal_strlit("th");
    reveal_strlit("he");
    reveal_strlit("el");
    reveal_strlit("ta");
    reveal_strlit("bn");
    reveal_strlit("te");
    reveal_strlit("tr");
    reveal_strlit("vi");
    assert("ja"@[0] != "zh"@[0]);
    assert("ko"@[0] != "zh"@[0]);
    assert("en"@[0] != "zh"@[0]);
    if exists|k: int| is_winner(s, k) {
        let k = choose|k: int| is_winner(s, k);
        assert(code_of(k)[0] != "zh"@[0] || code_of(k)[1] != "zh"@[1]);
    }
}

/// Adding characters of no detected script (ASCII letters, digits, spaces,
/// punctuation) to a text does not change its language.
pub proof fn law_unscripted_text_changes_nothing(s: Seq<char>, t: Seq<char>)
    requires
        forall|i: int| 0 <= i < t.len() ==> script_of(#[trigger] t[i]) == 14,
    ensures
        detected_language(s + t) == detected_language(s),
        detected_language(t + s) == detected_language(s),
{
    lemma_counts_zero(t);
    lemma_counts_concat(s, t);
    lemma_counts_concat(t, s);
    lemma_same_counts_same_language(s + t, s);
    lemma_same_counts_same_language(t + s, s);
}

/// The language depends on which characters the text holds, not on their
/// order: two texts in either order give the same language.
pub proof fn law_order_does_not_matter(s: Seq<char>, t: Seq<char>)
    ensures
        detected_language(s + t) == detected_language(t + s),
{
    lemma_counts_concat(s, t);
    lemma_counts_concat(t, s);
    lemma_same_counts_same_language(s + t, t + s);
}

/// Texts that hold the same characters equally often have the same counts.
proof fn lemma_same_characters_same_counts(s: Seq<char>, t: Seq<char>)
    requires
        s.to_multiset() =~= t.to_multiset(),
    ensures
        forall|k: int| #[trigger] count_script(s, k) == count_script(t, k),
        count_simplified(s) == count_simplified(t),
        count_traditional(s) == count_traditional(t),
    decreases s.len(),
{
    broadcast use vstd::seq_lib::group_to_multiset_ensures;

    if s.len() == 0 {
        assert(s.to_multiset().len() == s.len());
        assert(t.to_multiset().len() == t.len());
        assert(t =~= s);
    } else {
        let x = s.last();
        let init = s.drop_last();
        assert(s =~= init.push(x));
        assert(t.to_multiset().count(x) > 0);
        assert(t.contains(x));
        let j = choose|j: int| 0 <= j < t.len() && t[j] == x;
        let rest = t.remove(j);
        assert(init.to_multiset().insert(x).remove(x) =~= init.to_multiset());
        assert(rest.to_multiset() =~= init.to_multiset());
        lemma_same_characters_same_counts(init, rest);
        let one = seq![x];
        assert(t =~= t.take(j) + (one + t.skip(j + 1)));
        assert(rest =~= t.take(j) + t.skip(j + 1));
        assert(s =~= init + one);
        lemma_counts_concat(t.take(j), one + t.skip(j + 1));
        lemma_counts_concat(one, t.skip(j + 1));
        lemma_counts_concat(t.take(j), t.skip(j + 1));
        lemma_counts_concat(init, one);
    }
}

/// Texts that hold the same characters, each equally often, in any order,
/// get the same language.
pub proof fn law_same_characters_same_language(s: Seq<char>, t: Seq<char>)
    requires
        s.to_multiset() =~= t.to_multiset(),
    ensures
        detected_language(s) == detected_language(t),
{
    lemma_same_characters_same_counts(s, t);
    lemma_same_counts_same_language(s, t);
}

/// Inserting characters of no detected script (ASCII letters, digits, spaces,
/// punctuation) anywhere in a text does not change its language.
pub proof fn law_unscripted_insertion_changes_nothing(a: Seq<char>, b: Seq<char>, t: Seq<char>)
    requires
        forall|i: int| 0 <= i < t.len() ==> script_of(#[trigger] t[i]) == 14,
    ensures
        detected_language(a + t + b) == detected_language(a + b),
{
    lemma_counts_zero(t);
    lemma_counts_concat(a, t);
    lemma_counts_concat(a + t, b);
    lemma_counts_concat(a, b);
    lemma_same_counts_same_language(a + t + b, a + b);
}

} // verus!
