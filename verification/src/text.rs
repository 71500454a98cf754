//! Text helpers for the wire protocol: what the standard library computes on
//! strings, and comparisons proved on their bytes.

use vstd::prelude::*;
use vstd::string::StrSliceExecFns;
use vstd::utf8::encode_utf8;
use vstd::utf8::encode_utf8_decode_utf8;

verus! {

/// The text in lower case: what `str::to_lowercase` returns for it.
pub uninterp spec fn lowercase_of(text: Seq<char>) -> Seq<char>;

/// The text without its trailing whitespace: what `str::trim_end` returns.
pub uninterp spec fn trimmed_end(text: Seq<char>) -> Seq<char>;

/// The number that the text spells, if it spells one that fits in a `u64`:
/// what `str::parse::<u64>` returns, with `None` for its error.
pub uninterp spec fn parsed_u64(text: Seq<char>) -> Option<u64>;

/// `str::to_lowercase`. Trusted: the result is a function of the text alone.
#[verifier::external_body]
pub(crate) fn lowercase(text: &str) -> (lower: String)
    ensures
        lower@ == lowercase_of(text@),
{
    text.to_lowercase()
}

/// `str::trim_end`. Trusted: the result is a function of the text alone.
#[verifier::external_body]
pub(crate) fn trim_end(text: &str) -> (trimmed: &str)
    ensures
        trimmed@ == trimmed_end(text@),
{
    text.trim_end()
}

/// `str::parse::<u64>`, with its error turned into `None`. Trusted: the
/// result is a function of the text alone.
#[verifier::external_body]
pub(crate) fn parse_u64(text: &str) -> (number: Option<u64>)
    ensures
        number == parsed_u64(text@),
{
    match text.parse::<u64>() {
        Ok(n) => Some(n),
        Err(_) => None,
    }
}

/// Whether two strings hold the same text, compared byte by byte.
pub fn same_text(a: &str, b: &str) -> (same: bool)
    ensures
        same == (a@ == b@),
{
    let left = a.as_bytes();
    let right = b.as_bytes();
    proof {
        encode_utf8_decode_utf8(a@);
        encode_utf8_decode_utf8(b@);
    }
    if left.len() != right.len() {
        return false;
    }
    let mut i: usize = 0;
    while i < left.len()
        invariant
            i <= left@.len(),
            left@.len() == right@.len(),
            left@ == encode_utf8(a@),
            right@ == encode_utf8(b@),
            forall|j: int| 0 <= j < i ==> left@[j] == right@[j],
        decreases left@.len() - i,
    {
        if left[i] != right[i] {
            return false;
        }
        i = i + 1;
    }
    assert(left@ =~= right@);
    true
}

/// The text after its first character; the empty text stays empty.
pub open spec fn rest_of(text: Seq<char>) -> Seq<char> {
    if text.len() == 0 {
        text
    } else {
        text.subrange(1, text.len() as int)
    }
}

/// The first character of a text, if it has one.
pub open spec fn first_of(text: Seq<char>) -> Option<char> {
    if text.len() == 0 {
        None
    } else {
        Some(text[0])
    }
}

/// The first character of a string, if it has one.
pub fn first_char(text: &str) -> (first: Option<char>)
    ensures
        first == first_of(text@),
{
    if text.unicode_len() == 0 {
        None
    } else {
        Some(text.get_char(0))
    }
}

/// The string after its first character; the empty string stays empty.
pub fn skip_first_char(text: &str) -> (rest: &str)
    ensures
        rest@ == rest_of(text@),
{
    let n: usize = text.unicode_len();
    if n == 0 {
        text
    } else {
        text.substring_char(1, n)
    }
}

} // verus!
