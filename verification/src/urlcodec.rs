//! Percent-encoding and decoding, done by the `urlencoding` crate.
use vstd::prelude::*;
use vstd::utf8::encode_utf8;
use crate::text::hex_digit_upper;

verus! {

/// A byte that `urlencoding::encode` writes unchanged: ASCII letters and digits, `-`, `.`, `_`, `~`.
pub open spec fn url_safe_byte(b: u8) -> bool {
    (48 <= b <= 57) || (65 <= b <= 90) || (97 <= b <= 122) || b == 45 || b == 46 || b == 95 || b == 126
}

/// The percent-encoding of `bytes`: safe bytes as themselves, every other byte as `%XY`
/// with upper-case hexadecimal digits.
pub open spec fn percent_encode(bytes: Seq<u8>) -> Seq<char>
    decreases bytes.len(),
{
    if bytes.len() == 0 {
        Seq::empty()
    } else {
        let b = bytes.last();
        percent_encode(bytes.drop_last()) + if url_safe_byte(b) {
            seq![b as char]
        } else {
            seq!['%', hex_digit_upper((b / 16) as nat), hex_digit_upper((b % 16) as nat)]
        }
    }
}

/// `urlencoding::encode`: the percent-encoding of the text's UTF-8 bytes.
#[verifier::external_body]
pub(crate) fn url_encode(data: &str) -> (res: String)
    ensures
        res@ == percent_encode(encode_utf8(data@)),
{
    urlencoding::encode(data).into_owned()
}

/// What `urlencoding::decode` returns for `s`: the decoded text, or `None` when the
/// decoded bytes are not UTF-8.
pub uninterp spec fn url_decoded(s: Seq<char>) -> Option<Seq<char>>;

/// `urlencoding::decode`; the source returns the input unchanged when it holds no `%`.
#[verifier::external_body]
pub(crate) fn url_decode(data: &str) -> (res: Option<String>)
    ensures
        res is Some == url_decoded(data@) is Some,
        res matches Some(s) ==> url_decoded(data@) == Some(s@),
        res is None ==> data@.contains('%'),
        res matches Some(s) ==> (!data@.contains('%') ==> s@ == data@),
{
    match urlencoding::decode(data) {
        Ok(s) => Some(s.into_owned()),
        Err(_) => None,
    }
}

} // verus!
