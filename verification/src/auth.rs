//! Sessions: putting a fresh token into the client's carrier at login, and
//! judging the token that a later request brings back.

use crate::carrier::SessionCarrier;
use crate::codec::{opened, sealed, TokenCodec};
use crate::error::AuthError;
use crate::model::{Subject, TokenView};
use crate::time::Timestamp;
use crate::token::{extract_username, verdict};
use vstd::prelude::*;

verus! {

/// The key of the carrier slot that holds the token.
pub const TOKEN_KEY: &'static str = "token";

/// What a carrier answered when asked for the token slot.
#[derive(Clone, Debug, PartialEq, Eq)]
pub enum SlotRead {
    /// The slot is empty.
    Empty,
    /// The slot holds this blob.
    Filled(String),
    /// The carrier could not be read.
    Failed,
}

impl SlotRead {
    /// The blob that the read brought, if it brought one. A failed read
    /// brings none: it denies like an empty slot.
    pub open spec fn slot(self) -> Option<Seq<char>> {
        match self {
            SlotRead::Filled(blob) => Some(blob@),
            _ => None,
        }
    }
}

/// The token slot of a carrier.
pub open spec fn token_slot(carrier: Map<Seq<char>, Seq<char>>) -> Option<Seq<char>> {
    if carrier.contains_key(TOKEN_KEY@) {
        Some(carrier[TOKEN_KEY@])
    } else {
        None
    }
}

/// Whether the token slot of `carrier` holds a blob that opens to `token`
/// under `secret`.
pub open spec fn holds_token(
    carrier: Map<Seq<char>, Seq<char>>,
    secret: Option<Seq<u8>>,
    token: TokenView,
) -> bool {
    carrier.contains_key(TOKEN_KEY@) && opened(secret, carrier[TOKEN_KEY@]) == Some(token)
}

/// The outcome `outcome` with the subject as a mathematical value.
pub open spec fn judged(outcome: Result<Subject, AuthError>) -> Result<Seq<char>, AuthError> {
    match outcome {
        Ok(subject) => Ok(subject@),
        Err(e) => Err(e),
    }
}

/// Starts a session for `username` at `now`: issues a token and puts it
/// into the token slot of `carrier`, in place of what the slot held. No
/// other slot changes.
pub fn login(codec: &TokenCodec, carrier: &mut SessionCarrier, username: String, now: Timestamp)
    requires
        codec.spec_can_issue(username@, now),
    ensures
        final(carrier)@ == old(carrier)@.insert(
            TOKEN_KEY@,
            sealed(codec@.secret, codec.spec_issued(username@, now)),
        ),
        holds_token(final(carrier)@, codec@.secret, codec.spec_issued(username@, now)),
{
    let blob = codec.issue(&Subject { username }, now);
    carrier.set(TOKEN_KEY, blob);
}

/// Judges what a carrier answered at `now`: the subject of the token it
/// brought, or the reason for denial. An empty slot and a failed read deny
/// with `InvalidToken`.
pub fn verify_read(
    codec: &TokenCodec,
    read: &SlotRead,
    now: Timestamp,
) -> (outcome: Result<Subject, AuthError>)
    ensures
        judged(outcome) == verdict(codec@.secret, read.slot(), now@),
{
    match read {
        SlotRead::Filled(blob) => match extract_username(codec, blob.as_str(), now) {
            Ok(username) => Ok(Subject { username }),
            Err(e) => Err(e),
        },
        _ => Err(AuthError::InvalidToken),
    }
}

/// Judges the session in `carrier` at `now`: the subject of the token in
/// its token slot, or the reason for denial. The carrier is left as it is.
pub fn verify(
    codec: &TokenCodec,
    carrier: &SessionCarrier,
    now: Timestamp,
) -> (outcome: Result<Subject, AuthError>)
    ensures
        judged(outcome) == verdict(codec@.secret, token_slot(carrier@), now@),
{
    let read = match carrier.get(TOKEN_KEY) {
        Some(blob) => SlotRead::Filled(blob),
        None => SlotRead::Empty,
    };
    verify_read(codec, &read, now)
}

} // verus!
