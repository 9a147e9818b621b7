use vstd::prelude::*;
use base64::Engine;

verus! {

/// The standard, padded base64 text of a byte sequence.
pub uninterp spec fn base64_of(b: Seq<u8>) -> Seq<char>;

/// The bytes that a text decodes to under standard, padded base64, or
/// `None` where the text is not such an encoding.
pub uninterp spec fn base64_decoded(s: Seq<char>) -> Option<Seq<u8>>;

/// Length of the padded base64 text of `n` bytes.
pub open spec fn encoded_len(n: nat) -> nat {
    4 * ((n + 2) / 3)
}

/// Byte counts whose encoding fits the platform's size type.
pub open spec fn encodable(n: nat) -> bool {
    4 * (n / 3) + 4 <= usize::MAX
}

/// Relies on base64's `STANDARD.encode` (0.21): padded standard alphabet,
/// four characters for each started group of three bytes, and decoding the
/// text gives the bytes back. It panics only where the length overflows.
#[verifier::external_body]
pub(crate) fn to_base64(b: &[u8]) -> (r: String)
    requires
        encodable(b@.len()),
    ensures
        r@ == base64_of(b@),
        r@.len() == encoded_len(b@.len()),
        base64_decoded(r@) == Some(b@),
{
    base64::engine::general_purpose::STANDARD.encode(b)
}

/// Relies on base64's `STANDARD.decode` (0.21): the bytes of a padded
/// standard base64 text, or an error for any other text.
#[verifier::external_body]
pub(crate) fn from_base64(s: &str) -> (r: Option<Vec<u8>>)
    ensures
        match r {
            Some(v) => base64_decoded(s@) == Some(v@),
            None => base64_decoded(s@) is None,
        },
{
    base64::engine::general_purpose::STANDARD.decode(s).ok()
}

} // verus!
