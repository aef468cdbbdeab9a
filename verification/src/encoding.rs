//! Base 64, as the `base64` crate's standard engine reads and writes it.

use vstd::prelude::*;

verus! {

/// What the standard engine decodes `text` to: the bytes, or the text of its
/// complaint.
pub uninterp spec fn base64_decoding(text: Seq<char>) -> Result<Seq<u8>, Seq<char>>;

/// What the standard engine encodes `bytes` to.
pub uninterp spec fn base64_encoding(bytes: Seq<u8>) -> Seq<char>;

/// Calls `Engine::decode` of `base64` on its standard engine. What comes back
/// depends on the text alone; a complaint comes back as the text that its
/// `Display` writes.
#[verifier::external_body]
pub(crate) fn decode(text: &str) -> (r: Result<Vec<u8>, String>)
    ensures
        match r {
            Ok(bytes) => base64_decoding(text@) == Ok::<Seq<u8>, Seq<char>>(bytes@),
            Err(complaint) => base64_decoding(text@) == Err::<Seq<u8>, Seq<char>>(complaint@),
        },
{
    match base64::Engine::decode(&base64::engine::general_purpose::STANDARD, text) {
        Ok(bytes) => Ok(bytes),
        Err(complaint) => Err(complaint.to_string()),
    }
}

/// Calls `Engine::encode` of `base64` on its standard engine. What comes back
/// depends on the bytes alone. The call gives up where the length of its answer
/// does not fit `usize`; a slice is never long enough for that, since it holds
/// no more than `isize::MAX` bytes and the answer is less than three halves as
/// long.
#[verifier::external_body]
pub(crate) fn encode(bytes: &[u8]) -> (r: String)
    ensures
        r@ == base64_encoding(bytes@),
{
    base64::Engine::encode(&base64::engine::general_purpose::STANDARD, bytes)
}

} // verus!
