//! Self-contained tokens: issuing one to a user, and reading the user back
//! out of one while it lasts.

use crate::codec::{opened, sealed, TokenCodec};
use crate::error::AuthError;
use crate::model::Subject;
use crate::time::Timestamp;
use vstd::prelude::*;

verus! {

/// What presenting `slot` at `now` leads to: the username of the token in
/// it, `InvalidToken` where the slot is empty or the codec rejects the blob,
/// `ExpiredToken` where the token's expiry is `now` or earlier.
pub open spec fn verdict(
    secret: Option<Seq<u8>>,
    slot: Option<Seq<char>>,
    now: int,
) -> Result<Seq<char>, AuthError> {
    match slot {
        Some(blob) => match opened(secret, blob) {
            Some(token) => if token.expiry <= now {
                Err(AuthError::ExpiredToken)
            } else {
                Ok(token.username)
            },
            None => Err(AuthError::InvalidToken),
        },
        None => Err(AuthError::InvalidToken),
    }
}

/// The outcome `outcome` with the username as a mathematical value.
pub open spec fn named(outcome: Result<String, AuthError>) -> Result<Seq<char>, AuthError> {
    match outcome {
        Ok(name) => Ok(name@),
        Err(e) => Err(e),
    }
}

/// Issues a token to `username` at `now`, good for the codec's
/// time-to-live.
pub fn encode(codec: &TokenCodec, username: String, now: Timestamp) -> (token: String)
    requires
        codec.spec_can_issue(username@, now),
    ensures
        token@ == sealed(codec@.secret, codec.spec_issued(username@, now)),
        opened(codec@.secret, token@) == Some(codec.spec_issued(username@, now)),
{
    codec.issue(&Subject { username }, now)
}

/// The username in `token`, or the reason why `token` does not count at
/// `now`.
pub fn extract_username(
    codec: &TokenCodec,
    token: &str,
    now: Timestamp,
) -> (username: Result<String, AuthError>)
    ensures
        named(username) == verdict(codec@.secret, Some(token@), now@),
{
    match codec.parse(token) {
        Ok(parsed) => if parsed.expiry.expired_at(now) {
            Err(AuthError::ExpiredToken)
        } else {
            Ok(parsed.subject.username)
        },
        Err(e) => Err(e),
    }
}

} // verus!
