//! Facts about the characters and UTF-8 bytes of strings.
use vstd::prelude::*;
use vstd::utf8::{encode_utf8, encode_utf8_decode_utf8};

verus! {

/// Every character takes at least one byte in UTF-8.
pub proof fn lemma_chars_le_utf8_len(s: Seq<char>)
    ensures
        s.len() <= encode_utf8(s).len(),
    decreases s.len(),
{
    if s.len() > 0 {
        lemma_chars_le_utf8_len(s.drop_first());
    }
}

/// The number of characters of `text`, which is at most its byte length.
pub fn char_count_bound(text: &str) -> (n: usize)
    ensures
        text@.len() <= n,
        n == encode_utf8(text@).len(),
{
    let n = text.as_bytes().len();
    proof {
        lemma_chars_le_utf8_len(text@);
    }
    n
}

/// Whether `a` and `b` hold the same characters, compared byte by byte.
pub fn same_text(a: &str, b: &str) -> (eq: bool)
    ensures
        eq == (a@ == b@),
{
    let x = a.as_bytes();
    let y = b.as_bytes();
    proof {
        encode_utf8_decode_utf8(a@);
        encode_utf8_decode_utf8(b@);
    }
    if x.len() != y.len() {
        return false;
    }
    let mut i: usize = 0;
    while i < x.len()
        invariant
            x@ == encode_utf8(a@),
            y@ == encode_utf8(b@),
            x@.len() == y@.len(),
            i <= x@.len(),
            forall|j: int| 0 <= j < i ==> x@[j] == y@[j],
        decreases x@.len() - i,
    {
        if x[i] != y[i] {
            return false;
        }
        i = i + 1;
    }
    assert(x@ =~= y@);
    true
}

/// Whether `s` begins with the letters `zh`.
pub fn starts_with_zh(s: &str) -> (b: bool)
    ensures
        b == (s@.len() >= 2 && s@[0] == 'z' && s@[1] == 'h'),
{
    s.unicode_len() >= 2 && s.get_char(0) == 'z' && s.get_char(1) == 'h'
}

/// The decimal digits of `n`.
pub open spec fn decimal(n: nat) -> Seq<char>
    decreases n,
{
    if n < 10 {
        seq![(0x30 + n) as char]
    } else {
        decimal(n / 10).push((0x30 + n % 10) as char)
    }
}

/// Appends the decimal digits of `n`.
pub fn push_decimal(out: &mut String, n: u128)
    ensures
        final(out)@ == old(out)@ + decimal(n as nat),
    decreases n,
{
    if n >= 10 {
        push_decimal(out, n / 10);
    }
    let d = (n % 10) as u8;
    out.push((0x30 + d) as char);
}

} // verus!
