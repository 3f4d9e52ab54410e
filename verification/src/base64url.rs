//! Unpadded URL-safe base64, encoded and decoded by the `base64` crate.

use vstd::prelude::*;

verus! {

/// The error type of `base64` decoding, carried through unread.
#[verifier::external_type_specification]
#[verifier::external_body]
pub struct ExDecodeError(base64::DecodeError);

/// The text that the engine `URL_SAFE_NO_PAD` of `base64` encodes `bytes` to.
pub uninterp spec fn base64url_text(bytes: Seq<u8>) -> Seq<char>;

/// The bytes that the engine `URL_SAFE_NO_PAD` of `base64` decodes `text`
/// to, or `None` where it rejects `text`.
pub uninterp spec fn base64url_bytes(text: Seq<char>) -> Option<Seq<u8>>;

/// Whether `c` belongs to the URL-safe base64 alphabet.
pub open spec fn is_base64url_char(c: char) -> bool {
    ('A' <= c && c <= 'Z') || ('a' <= c && c <= 'z') || ('0' <= c && c <= '9') || c == '-' || c
        == '_'
}

/// Whether the base64 text of `len` bytes has a length that `usize` holds.
pub open spec fn is_encodable_len(len: nat) -> bool {
    len / 3 * 4 + 3 <= usize::MAX
}

/// Calls `Engine::encode` of `base64` on the engine `URL_SAFE_NO_PAD`.
///
/// Trusted: the text depends on the bytes alone, is made of characters of
/// the URL-safe alphabet only, and decodes back to the bytes it was made
/// from. The call panics where the length of the text overflows `usize`,
/// which the precondition rules out.
#[verifier::external_body]
pub(crate) fn encode_base64url(bytes: &[u8]) -> (text: String)
    requires
        is_encodable_len(bytes@.len()),
    ensures
        text@ == base64url_text(bytes@),
        base64url_bytes(text@) == Some(bytes@),
        forall|i: int| 0 <= i < text@.len() ==> is_base64url_char(#[trigger] text@[i]),
{
    base64::Engine::encode(&base64::engine::general_purpose::URL_SAFE_NO_PAD, bytes)
}

/// Calls `Engine::decode` of `base64` on the engine `URL_SAFE_NO_PAD`.
///
/// Trusted: whether the call succeeds, and with which bytes, depends on the
/// text alone.
#[verifier::external_body]
pub(crate) fn decode_base64url(text: &str) -> (decoded: Result<Vec<u8>, base64::DecodeError>)
    ensures
        match decoded {
            Ok(bytes) => base64url_bytes(text@) == Some(bytes@),
            Err(_) => base64url_bytes(text@) is None,
        },
{
    base64::Engine::decode(&base64::engine::general_purpose::URL_SAFE_NO_PAD, text)
}

} // verus!
