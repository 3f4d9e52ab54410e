//! What holds of the core as a whole, proved from the contracts of its
//! parts.

use crate::auth::{holds_token, token_slot, TOKEN_KEY};
use crate::base64url::base64url_bytes;
use crate::codec::opened;
use crate::error::AuthError;
use crate::mac::hs256_tag;
use crate::model::TokenView;
use crate::payload::{lemma_parse_payload_is_canonical, payload_bytes};
use crate::scan::{first_index_of, is_first_index_of, lemma_first_index_of_join, occurs};
use crate::token::verdict;
use vstd::prelude::*;

verus! {

/// A session that began at `start` with a time-to-live of `ttl` is good at
/// every instant from `start` up to, but not including, `start + ttl`: the
/// answer is the username that logged in.
pub proof fn law_login_then_verify(
    secret: Option<Seq<u8>>,
    carrier: Map<Seq<char>, Seq<char>>,
    username: Seq<char>,
    start: int,
    ttl: int,
    now: int,
)
    requires
        holds_token(carrier, secret, (TokenView { username, expiry: start + ttl })),
        start <= now < start + ttl,
    ensures
        verdict(secret, token_slot(carrier), now) == Ok::<Seq<char>, AuthError>(username),
{
}

/// A token issued at `start` with a time-to-live of `ttl` is good at every
/// instant before `start + ttl` and expired at `start + ttl` and at every
/// instant after it.
pub proof fn law_expiry_boundary(
    secret: Option<Seq<u8>>,
    blob: Seq<char>,
    username: Seq<char>,
    start: int,
    ttl: int,
    now: int,
)
    requires
        opened(secret, blob) == Some((TokenView { username, expiry: start + ttl })),
    ensures
        now < start + ttl ==> verdict(secret, Some(blob), now) == Ok::<Seq<char>, AuthError>(
            username,
        ),
        now >= start + ttl ==> verdict(secret, Some(blob), now) == Err::<Seq<char>, AuthError>(
            AuthError::ExpiredToken,
        ),
{
}

/// Judging the same blob at two instants before its expiry gives the same
/// subject both times.
pub proof fn law_verify_is_repeatable(
    secret: Option<Seq<u8>>,
    blob: Seq<char>,
    first: int,
    second: int,
)
    requires
        verdict(secret, Some(blob), first) is Ok,
        opened(secret, blob) is Some ==> second < opened(secret, blob)->0.expiry,
    ensures
        verdict(secret, Some(blob), second) == verdict(secret, Some(blob), first),
{
}

/// An empty token slot is denied with `InvalidToken`, whatever the instant.
pub proof fn law_empty_slot_is_denied(
    secret: Option<Seq<u8>>,
    carrier: Map<Seq<char>, Seq<char>>,
    now: int,
)
    requires
        !carrier.contains_key(TOKEN_KEY@),
    ensures
        verdict(secret, token_slot(carrier), now) == Err::<Seq<char>, AuthError>(
            AuthError::InvalidToken,
        ),
{
}

/// A signed blob that opens carries the tag of the record of the token it
/// opens to: what the codec hands out was sealed under its secret.
pub proof fn law_opened_is_authentic(key: Seq<u8>, blob: Seq<char>)
    requires
        opened(Some(key), blob) is Some,
    ensures
        occurs(blob, '.'),
        base64url_bytes(blob.take(first_index_of(blob, '.'))) == Some(
            payload_bytes(opened(Some(key), blob)->0),
        ),
        blob.skip(first_index_of(blob, '.') + 1) == hs256_tag(
            key,
            payload_bytes(opened(Some(key), blob)->0),
        ),
{
    let at = first_index_of(blob, '.');
    let record = base64url_bytes(blob.take(at))->0;
    lemma_parse_payload_is_canonical(record);
}

/// Changing the tag of a signed blob that opens gives a blob that is
/// rejected.
pub proof fn law_forged_tag_is_rejected(
    key: Seq<u8>,
    body: Seq<char>,
    tag: Seq<char>,
    forged: Seq<char>,
)
    requires
        !occurs(body, '.'),
        opened(Some(key), body + seq!['.'] + tag) is Some,
        forged != tag,
    ensures
        opened(Some(key), body + seq!['.'] + forged) is None,
{
    assert forall|j: int| 0 <= j < body.len() implies #[trigger] body[j] != '.' by {
        if body[j] == '.' {
            lemma_has_first(body, '.', j);
        }
    }
    lemma_first_index_of_join(body, '.', tag);
    lemma_first_index_of_join(body, '.', forged);
}

/// Changing the body of a signed blob that opens gives a blob that is
/// rejected, or that opens to a token whose record has the very same tag
/// under the secret as the record of the token sealed at first.
pub proof fn law_forged_body_is_rejected(
    key: Seq<u8>,
    body: Seq<char>,
    tag: Seq<char>,
    forged: Seq<char>,
)
    requires
        !occurs(body, '.'),
        !occurs(forged, '.'),
        opened(Some(key), body + seq!['.'] + tag) is Some,
    ensures
        opened(Some(key), forged + seq!['.'] + tag) is Some ==> hs256_tag(
            key,
            payload_bytes(opened(Some(key), forged + seq!['.'] + tag)->0),
        ) == hs256_tag(key, payload_bytes(opened(Some(key), body + seq!['.'] + tag)->0)),
{
    let genuine = body + seq!['.'] + tag;
    let changed = forged + seq!['.'] + tag;
    law_opened_is_authentic(key, genuine);
    assert forall|j: int| 0 <= j < body.len() implies #[trigger] body[j] != '.' by {
        if body[j] == '.' {
            lemma_has_first(body, '.', j);
        }
    }
    lemma_first_index_of_join(body, '.', tag);
    if opened(Some(key), changed) is Some {
        law_opened_is_authentic(key, changed);
        assert forall|j: int| 0 <= j < forged.len() implies #[trigger] forged[j] != '.' by {
            if forged[j] == '.' {
                lemma_has_first(forged, '.', j);
            }
        }
        lemma_first_index_of_join(forged, '.', tag);
    }
}

/// An element that sits somewhere in a sequence occurs in it.
proof fn lemma_has_first<T>(s: Seq<T>, x: T, at: int)
    requires
        0 <= at < s.len(),
        s[at] == x,
    ensures
        occurs(s, x),
    decreases at,
{
    if forall|j: int| 0 <= j < at ==> #[trigger] s[j] != x {
        assert(is_first_index_of(s, x, at));
    } else {
        let j = choose|j: int| 0 <= j < at && #[trigger] s[j] == x;
        lemma_has_first(s, x, j);
    }
}

} // verus!
