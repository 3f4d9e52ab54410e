//! The keyed integrity tag of a token: HMAC-SHA256, computed and compared by
//! the `jsonwebtoken` crate.

use crate::base64url::is_base64url_char;
use vstd::prelude::*;

verus! {

/// The error type of `jsonwebtoken`, carried through unread.
#[verifier::external_type_specification]
#[verifier::external_body]
pub struct ExSigningError(jsonwebtoken::errors::Error);

/// The tag that `jsonwebtoken::crypto::sign` gives `message` under `key`
/// with the algorithm HS256: the unpadded URL-safe base64 text of the
/// HMAC-SHA256 digest.
pub uninterp spec fn hs256_tag(key: Seq<u8>, message: Seq<u8>) -> Seq<char>;

/// Calls `jsonwebtoken::crypto::sign` with a secret key and HS256.
///
/// Trusted: for HS256 the call always succeeds, its result depends on the key
/// and the message alone, and it is made of characters of the URL-safe
/// base64 alphabet only.
#[verifier::external_body]
pub(crate) fn sign_hs256(key: &[u8], message: &[u8]) -> (signed: Result<String, jsonwebtoken::errors::Error>)
    ensures
        match signed {
            Ok(tag) => {
                &&& tag@ == hs256_tag(key@, message@)
                &&& forall|i: int| 0 <= i < tag@.len() ==> is_base64url_char(#[trigger] tag@[i])
            },
            Err(_) => false,
        },
{
    jsonwebtoken::crypto::sign(
        message,
        &jsonwebtoken::EncodingKey::from_secret(key),
        jsonwebtoken::Algorithm::HS256,
    )
}

/// Calls `jsonwebtoken::crypto::verify` with a secret key and HS256.
///
/// Trusted: for HS256 the call always succeeds; it signs `message` again and
/// compares the two tags in constant time, so it answers `true` exactly when
/// `tag` is the tag of `message` under `key`.
#[verifier::external_body]
pub(crate) fn verify_hs256(tag: &str, key: &[u8], message: &[u8]) -> (verified: Result<bool, jsonwebtoken::errors::Error>)
    ensures
        match verified {
            Ok(same) => same == (tag@ == hs256_tag(key@, message@)),
            Err(_) => false,
        },
{
    jsonwebtoken::crypto::verify(
        tag,
        message,
        &jsonwebtoken::DecodingKey::from_secret(key),
        jsonwebtoken::Algorithm::HS256,
    )
}

} // verus!
