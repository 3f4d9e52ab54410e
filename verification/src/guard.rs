//! The guard in front of the registry: what a login request and a protected
//! request lead to, given what the credential store and the carrier said.

use crate::auth::{holds_token, token_slot, TOKEN_KEY};
use crate::carrier::SessionCarrier;
use crate::codec::{sealed, TokenCodec};
use crate::error::AuthError;
use crate::model::{Credentials, Member, Post};
use crate::time::Timestamp;
use crate::token::verdict;
use vstd::prelude::*;

verus! {

/// Whether a form may submit `username`: it must hold no space.
pub open spec fn is_acceptable_username(username: Seq<char>) -> bool {
    forall|i: int| 0 <= i < username.len() ==> username[i] != ' '
}

/// Whether a form may submit `username`.
pub fn acceptable_username(username: &str) -> (acceptable: bool)
    ensures
        acceptable == is_acceptable_username(username@),
{
    let mut acceptable = true;
    for c in it: username.chars()
        invariant
            it.seq() == username@,
            acceptable == forall|i: int| 0 <= i < it.index() ==> username@[i] != ' ',
    {
        if c == ' ' {
            acceptable = false;
        }
    }
    acceptable
}

/// The member record that a registration with these details adds.
pub fn register(username: String, password: String) -> (member: Member)
    ensures
        member.username@ == username@,
        member.password@ == password@,
{
    Member { username, password }
}

/// Judges the answer of the credential store: a member found means the
/// credentials are good, none found means they are not.
pub fn auth_member(found: &Option<Member>) -> (outcome: Result<(), AuthError>)
    ensures
        found is Some ==> outcome == Ok::<(), AuthError>(()),
        found is None ==> outcome == Err::<(), AuthError>(AuthError::BadCredentials),
{
    match found {
        Some(_) => Ok(()),
        None => Err(AuthError::BadCredentials),
    }
}

/// Handles a login request at `now`, given what the credential store found
/// for `credentials`.
///
/// Where it found a member, a token for the username of the request goes
/// into the token slot of `carrier`. Where it found none, the request is
/// turned away with `BadCredentials` and the carrier is not written to.
pub fn login(
    codec: &TokenCodec,
    carrier: &mut SessionCarrier,
    credentials: &Credentials,
    found: &Option<Member>,
    now: Timestamp,
) -> (outcome: Result<(), AuthError>)
    requires
        found is Some ==> codec.spec_can_issue(credentials.username@, now),
    ensures
        found is None ==> outcome == Err::<(), AuthError>(AuthError::BadCredentials),
        found is None ==> final(carrier)@ == old(carrier)@,
        found is Some ==> outcome is Ok,
        found is Some ==> final(carrier)@ == old(carrier)@.insert(
            TOKEN_KEY@,
            sealed(codec@.secret, codec.spec_issued(credentials.username@, now)),
        ),
        found is Some ==> holds_token(
            final(carrier)@,
            codec@.secret,
            codec.spec_issued(credentials.username@, now),
        ),
{
    match auth_member(found) {
        Ok(()) => {
            crate::auth::login(codec, carrier, credentials.username.clone(), now);
            Ok(())
        },
        Err(e) => Err(e),
    }
}

/// Handles a request to add a post at `now`: the post to add where the
/// session in `carrier` is good, else the reason for denial and no post.
pub fn add_post(
    codec: &TokenCodec,
    carrier: &SessionCarrier,
    now: Timestamp,
    text: String,
) -> (outcome: Result<Post, AuthError>)
    ensures
        match outcome {
            Ok(post) => post.text@ == text@ && verdict(
                codec@.secret,
                token_slot(carrier@),
                now@,
            ) is Ok,
            Err(e) => Err::<Seq<char>, AuthError>(e) == verdict(
                codec@.secret,
                token_slot(carrier@),
                now@,
            ),
        },
{
    match crate::auth::verify(codec, carrier, now) {
        Ok(_) => Ok(Post { text }),
        Err(e) => Err(e),
    }
}

} // verus!
