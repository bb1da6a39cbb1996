//! Form encoding of search terms for the MediaWiki API.
use vstd::prelude::*;
use vstd::utf8::{
    char_is_scalar, char_u32_cast, encode_scalar, encode_utf8_decode_utf8, encode_utf8, leading_byte_width_2,
    leading_byte_width_3, leading_byte_width_4,
};

use crate::text::{decimal, push_decimal};

verus! {

/// `String::push` appends one character to the end of the string.
pub assume_specification[ String::push ](string: &mut String, ch: char)
    ensures
        final(string)@ == old(string)@.push(ch),
;

/// Bytes that stand for themselves in a form-encoded string: ASCII letters,
/// digits and `-`, `_`, `.`, `~`.
pub open spec fn is_unreserved(b: u8) -> bool {
    (0x41 <= b <= 0x5A) || (0x61 <= b <= 0x7A) || (0x30 <= b <= 0x39) || b == 0x2D || b == 0x5F
        || b == 0x2E || b == 0x7E
}

/// Upper-case hexadecimal digit of `n < 16`.
pub open spec fn hex_digit(n: u8) -> char {
    if n < 10 {
        (0x30 + n) as char
    } else {
        (0x41 + n - 10) as char
    }
}

/// Encoding of one byte: itself if unreserved, `+` for a space, `%XX` (upper-case
/// hexadecimal) otherwise.
pub open spec fn encode_byte(b: u8) -> Seq<char> {
    if is_unreserved(b) {
        seq![b as char]
    } else if b == 0x20 {
        seq!['+']
    } else {
        seq!['%', hex_digit(b / 16), hex_digit(b % 16)]
    }
}

/// Form encoding of a byte sequence, byte by byte.
pub open spec fn form_encoded(bytes: Seq<u8>) -> Seq<char>
    decreases bytes.len(),
{
    if bytes.len() == 0 {
        seq![]
    } else {
        form_encoded(bytes.drop_last()) + encode_byte(bytes.last())
    }
}

fn hex_char(n: u8) -> (c: char)
    requires
        n < 16,
    ensures
        c == hex_digit(n),
{
    if n < 10 {
        (0x30 + n) as char
    } else {
        (0x41 + n - 10) as char
    }
}

/// Encodes `s` for a query string: the UTF-8 bytes of `s` with every byte that
/// is not an ASCII letter, digit or one of `-_.~` written as `%XX`, except the
/// space, which becomes `+`.
pub fn urlencoding(s: &str) -> (res: String)
    ensures
        res@ == form_encoded(encode_utf8(s@)),
{
    let bytes = s.as_bytes();
    let mut result = String::new();
    let mut i: usize = 0;
    while i < bytes.len()
        invariant
            bytes@ == encode_utf8(s@),
            i <= bytes@.len(),
            result@ == form_encoded(bytes@.take(i as int)),
        decreases bytes@.len() - i,
    {
        let b = bytes[i];
        assert(bytes@.take(i + 1).drop_last() =~= bytes@.take(i as int));
        if (0x41 <= b && b <= 0x5A) || (0x61 <= b && b <= 0x7A) || (0x30 <= b && b <= 0x39) || b
            == 0x2D || b == 0x5F || b == 0x2E || b == 0x7E {
            result.push(b as char);
        } else if b == 0x20 {
            result.push('+');
        } else {
            result.push('%');
            result.push(hex_char(b / 16));
            result.push(hex_char(b % 16));
        }
        i = i + 1;
    }
    assert(bytes@.take(bytes@.len() as int) =~= bytes@);
    result
}

/// The characters that form encoding writes: ASCII letters and digits and
/// `-`, `_`, `.`, `~`, `+`, `%`.
pub open spec fn url_safe(c: char) -> bool {
    ('A' <= c <= 'Z') || ('a' <= c <= 'z') || ('0' <= c <= '9') || c == '-' || c == '_' || c
        == '.' || c == '~' || c == '+' || c == '%'
}

/// Encoding a concatenation encodes each part.
pub proof fn lemma_form_encoded_concat(a: Seq<u8>, b: Seq<u8>)
    ensures
        form_encoded(a + b) == form_encoded(a) + form_encoded(b),
    decreases b.len(),
{
    if b.len() == 0 {
        assert(a + b =~= a);
        assert(form_encoded(a) + form_encoded(b) =~= form_encoded(a));
    } else {
        assert((a + b).drop_last() =~= a + b.drop_last());
        lemma_form_encoded_concat(a, b.drop_last());
        assert(form_encoded(a + b) =~= form_encoded(a) + form_encoded(b));
    }
}

/// The UTF-8 encoding of a concatenation is the concatenation of the
/// encodings.
pub proof fn lemma_utf8_concat(a: Seq<char>, b: Seq<char>)
    ensures
        encode_utf8(a + b) == encode_utf8(a) + encode_utf8(b),
    decreases a.len(),
{
    if a.len() == 0 {
        assert(a + b =~= b);
        assert(encode_utf8(a) + encode_utf8(b) =~= encode_utf8(b));
    } else {
        assert((a + b).drop_first() =~= a.drop_first() + b);
        assert((a + b)[0] == a[0]);
        lemma_utf8_concat(a.drop_first(), b);
        assert(encode_utf8(a + b) =~= encode_utf8(a) + encode_utf8(b));
    }
}

/// Form-encoded text holds only URL-safe characters; in particular it holds
/// no space.
pub proof fn law_form_encoding_is_url_safe(bytes: Seq<u8>)
    ensures
        forall|i: int| 0 <= i < form_encoded(bytes).len() ==> url_safe(#[trigger] form_encoded(bytes)[i]),
        !form_encoded(bytes).contains(' '),
    decreases bytes.len(),
{
    if bytes.len() > 0 {
        law_form_encoding_is_url_safe(bytes.drop_last());
        let b = bytes.last();
        let head = form_encoded(bytes.drop_last());
        let tail = encode_byte(b);
        assert(b / 16 < 16 && b % 16 < 16);
        assert forall|i: int| 0 <= i < tail.len() implies url_safe(#[trigger] tail[i]) by {}
        assert forall|i: int| 0 <= i < form_encoded(bytes).len() implies url_safe(
            #[trigger] form_encoded(bytes)[i],
        ) by {
            if i < head.len() {
                assert(form_encoded(bytes)[i] == head[i]);
            } else {
                assert(form_encoded(bytes)[i] == tail[i - head.len()]);
            }
        }
    }
    if form_encoded(bytes).contains(' ') {
        let i = choose|i: int| 0 <= i < form_encoded(bytes).len() && form_encoded(bytes)[i] == ' ';
        assert(url_safe(form_encoded(bytes)[i]));
    }
}

/// Text made only of ASCII letters, digits and `-`, `_`, `.`, `~` is encoded
/// as itself.
pub proof fn law_unreserved_text_unchanged(s: Seq<char>)
    requires
        forall|i: int| 0 <= i < s.len() ==> ((#[trigger] s[i]) as u32) < 0x80 && is_unreserved(
            s[i] as u8,
        ),
    ensures
        form_encoded(encode_utf8(s)) == s,
    decreases s.len(),
{
    if s.len() > 0 {
        let init = s.drop_last();
        assert(s =~= init + seq![s.last()]);
        law_unreserved_text_unchanged(init);
        lemma_utf8_concat(init, seq![s.last()]);
        let last = s.last();
        assert((last as u32) < 0x80 && is_unreserved(last as u8));
        let one = seq![last];
        assert(one.drop_first() =~= Seq::<char>::empty());
        assert(encode_utf8(one.drop_first()) =~= Seq::<u8>::empty());
        let u = last as u32;
        let b = (u & 0x7F) as u8;
        assert(encode_scalar(u) =~= seq![b]);
        assert((u & 0x7F) == u) by (bit_vector)
            requires
                u < 0x80,
        ;
        let eb = encode_utf8(one);
        assert(eb =~= seq![b]);
        lemma_form_encoded_concat(encode_utf8(init), eb);
        lemma_form_encoded_one(b);
        assert(b as int == u as int);
        assert((u as char) == last) by {
            char_u32_cast(last, u);
        }
        assert((b as char) == last);
        assert(form_encoded(eb) =~= seq![last]);
        assert(form_encoded(encode_utf8(s)) =~= s);
    }
}

/// A single byte is encoded by itself.
proof fn lemma_form_encoded_one(b: u8)
    ensures
        form_encoded(seq![b]) == encode_byte(b),
{
    assert(seq![b].drop_last() =~= Seq::<u8>::empty());
    assert(form_encoded(Seq::<u8>::empty()) =~= Seq::<char>::empty());
    assert(form_encoded(seq![b]) =~= encode_byte(b));
}

/// The UTF-8 encoding of a character outside ASCII begins with a byte of at
/// least 0x80.
proof fn lemma_non_ascii_lead(c: u32)
    requires
        0x80 <= c <= 0x10FFFF,
    ensures
        encode_scalar(c).len() > 0,
        encode_scalar(c)[0] >= 0x80,
{
    if c <= 0x7FF {
        let x = ((c >> 6u32) & 0x1Fu32) as u8;
        assert((0xC0u8 | x) >= 0x80u8) by (bit_vector);
        assert(encode_scalar(c)[0] == leading_byte_width_2(c));
    } else if c <= 0xFFFF && !(0xD800 <= c <= 0xDFFF) {
        let x = ((c >> 12u32) & 0x0Fu32) as u8;
        assert((0xE0u8 | x) >= 0x80u8) by (bit_vector);
        assert(encode_scalar(c)[0] == leading_byte_width_3(c));
    } else {
        let x = ((c >> 18u32) & 0x7u32) as u8;
        assert((0xF0u8 | x) >= 0x80u8) by (bit_vector);
        assert(encode_scalar(c)[0] == leading_byte_width_4(c));
    }
}

/// Text with a character outside ASCII comes out with percent escapes.
pub proof fn law_non_ascii_is_escaped(s: Seq<char>, i: int)
    requires
        0 <= i < s.len(),
        (s[i] as u32) >= 0x80,
    ensures
        form_encoded(encode_utf8(s)).contains('%'),
{
    let c = s[i] as u32;
    let one = seq![s[i]];
    assert(s =~= s.take(i) + (one + s.skip(i + 1)));
    lemma_utf8_concat(s.take(i), one + s.skip(i + 1));
    lemma_utf8_concat(one, s.skip(i + 1));
    assert(one.drop_first() =~= Seq::<char>::empty());
    assert(one[0] == s[i]);
    assert(encode_utf8(one.drop_first()) =~= Seq::<u8>::empty());
    assert(encode_utf8(one) =~= encode_scalar(c));
    char_is_scalar(s[i]);
    lemma_non_ascii_lead(c);
    let lead = encode_scalar(c)[0];
    let pre = encode_utf8(s.take(i));
    let post = encode_scalar(c).drop_first() + encode_utf8(s.skip(i + 1));
    assert(encode_utf8(s) =~= (pre + seq![lead]) + post);
    lemma_form_encoded_concat(pre + seq![lead], post);
    lemma_form_encoded_concat(pre, seq![lead]);
    lemma_form_encoded_one(lead);
    let fe = form_encoded(encode_utf8(s));
    assert(encode_byte(lead)[0] == '%');
    assert(fe[form_encoded(pre).len() as int] == '%');
}

/// How each byte is written: ASCII letters, digits and `-`, `_`, `.`, `~`
/// as themselves, the space as `+`, and every other byte as `%` and two
/// upper-case hexadecimal digits; a byte sequence is written byte after byte
/// (see `lemma_form_encoded_concat`).
pub proof fn law_byte_encoding(b: u8)
    ensures
        form_encoded(seq![b]) == if ('A' as u8 <= b <= 'Z' as u8) || ('a' as u8 <= b <= 'z' as u8)
            || ('0' as u8 <= b <= '9' as u8) || b == '-' as u8 || b == '_' as u8 || b == '.' as u8
            || b == '~' as u8 {
            seq![b as char]
        } else if b == ' ' as u8 {
            seq!['+']
        } else {
            seq!['%', "0123456789ABCDEF"@[(b / 16) as int], "0123456789ABCDEF"@[(b % 16) as int]]
        },
{
    reveal_strlit("0123456789ABCDEF");
    lemma_form_encoded_one(b);
    let digits = "0123456789ABCDEF"@;
    assert(hex_digit(b / 16) == digits[(b / 16) as int]);
    assert(hex_digit(b % 16) == digits[(b % 16) as int]);
}

/// Value of an upper-case hexadecimal digit.
pub open spec fn hex_value(c: char) -> int {
    if '0' <= c <= '9' {
        c as int - 0x30
    } else {
        c as int - 0x41 + 10
    }
}

/// Form decoding: `+` is a space, `%XY` the byte 0xXY, every other character
/// its own byte.
pub open spec fn form_decoded(s: Seq<char>) -> Seq<u8>
    decreases s.len(),
{
    if s.len() == 0 {
        seq![]
    } else if s[0] == '%' && s.len() >= 3 {
        seq![(hex_value(s[1]) * 16 + hex_value(s[2])) as u8] + form_decoded(s.skip(3))
    } else if s[0] == '+' {
        seq![0x20u8] + form_decoded(s.skip(1))
    } else {
        seq![s[0] as u8] + form_decoded(s.skip(1))
    }
}

proof fn lemma_hex_roundtrip(n: u8)
    requires
        n < 16,
    ensures
        hex_value(hex_digit(n)) == n,
{
}

/// Decoding the encoding of one byte followed by more text gives the byte
/// followed by the decoding of the rest.
proof fn lemma_decode_byte(b: u8, rest: Seq<char>)
    ensures
        form_decoded(encode_byte(b) + rest) == seq![b] + form_decoded(rest),
{
    let e = encode_byte(b);
    let all = e + rest;
    if is_unreserved(b) {
        assert(all.skip(1) =~= rest);
        assert(all[0] == b as char);
        assert((b as char) as u8 == b);
    } else if b == 0x20 {
        assert(all.skip(1) =~= rest);
    } else {
        assert(all.skip(3) =~= rest);
        lemma_hex_roundtrip(b / 16);
        lemma_hex_roundtrip(b % 16);
        assert(all[1] == hex_digit(b / 16));
        assert(all[2] == hex_digit(b % 16));
        assert((b / 16) * 16 + b % 16 == b);
    }
}

/// Form decoding undoes form encoding: the encoded text gives back exactly
/// the bytes it was made from.
pub proof fn law_form_decoding_undoes_encoding(bytes: Seq<u8>)
    ensures
        form_decoded(form_encoded(bytes)) == bytes,
    decreases bytes.len(),
{
    if bytes.len() > 0 {
        let b = bytes[0];
        let rest = bytes.drop_first();
        assert(bytes =~= seq![b] + rest);
        lemma_form_encoded_concat(seq![b], rest);
        lemma_form_encoded_one(b);
        lemma_decode_byte(b, form_encoded(rest));
        law_form_decoding_undoes_encoding(rest);
        assert(seq![b] + rest =~= bytes);
    } else {
        assert(form_encoded(bytes) =~= Seq::<char>::empty());
    }
}

/// Different texts are encoded differently.
pub proof fn law_urlencoding_is_injective(s: Seq<char>, t: Seq<char>)
    requires
        form_encoded(encode_utf8(s)) == form_encoded(encode_utf8(t)),
    ensures
        s == t,
{
    law_form_decoding_undoes_encoding(encode_utf8(s));
    law_form_decoding_undoes_encoding(encode_utf8(t));
    encode_utf8_decode_utf8(s);
    encode_utf8_decode_utf8(t);
}

/// Seconds that a request may take.
pub const TIMEOUT_SECS: u64 = 10;

/// Why a request to the API failed.
pub enum RequestFailure {
    /// No answer within the time limit.
    TimedOut,
    /// No connection could be made.
    ConnectionFailed,
    /// Any other failure.
    Other,
}

/// Sorts a failed request: a timeout counts before a failed connection.
pub fn request_failure(is_timeout: bool, is_connect: bool) -> (f: RequestFailure)
    ensures
        is_timeout ==> f is TimedOut,
        !is_timeout && is_connect ==> f is ConnectionFailed,
        !is_timeout && !is_connect ==> f is Other,
{
    if is_timeout {
        RequestFailure::TimedOut
    } else if is_connect {
        RequestFailure::ConnectionFailed
    } else {
        RequestFailure::Other
    }
}

/// The error that ends the program for a failed request; a failure of any
/// other kind ends in "no results" instead and has none.
pub open spec fn failure_text(f: RequestFailure) -> Option<Seq<char>> {
    match f {
        RequestFailure::TimedOut => Some(
            "[wiki] Error: request timed out after "@ + decimal(TIMEOUT_SECS as nat)
                + "s. Please check your network and try again."@,
        ),
        RequestFailure::ConnectionFailed => Some(
            "[wiki] Error: connection failed. Please check your network."@,
        ),
        RequestFailure::Other => None,
    }
}

/// The error message for a failed request, if the program stops on it.
pub fn failure_message(f: &RequestFailure) -> (m: Option<String>)
    ensures
        match m {
            Some(t) => failure_text(*f) == Some(t@),
            None => failure_text(*f) is None,
        },
{
    match f {
        RequestFailure::TimedOut => {
            let mut t = String::from_str("[wiki] Error: request timed out after ");
            push_decimal(&mut t, TIMEOUT_SECS as u128);
            t.append("s. Please check your network and try again.");
            Some(t)
        },
        RequestFailure::ConnectionFailed => Some(
            String::from_str("[wiki] Error: connection failed. Please check your network."),
        ),
        RequestFailure::Other => None,
    }
}

} // verus!
