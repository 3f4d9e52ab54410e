//! The token codec: seals a token into an opaque blob of text and opens a
//! blob again.
//!
//! A codec is built once, from its configuration, and never changes. With a
//! secret it signs: the blob is the base64url text of the token's record, a
//! dot, and the HMAC-SHA256 tag of the record under the secret. Without a
//! secret the blob is the base64url text alone, for carriers that protect
//! their own content. Opening checks form and tag, never the clock.

use crate::base64url::{
    base64url_bytes, base64url_text, decode_base64url, encode_base64url, is_base64url_char,
    is_encodable_len,
};
use crate::error::AuthError;
use crate::mac::{hs256_tag, sign_hs256, verify_hs256};
use crate::model::{Subject, Token, TokenView};
use crate::payload::{
    lemma_parse_payload_of_payload, parse_payload, payload_bytes, read_payload, write_payload,
};
use crate::scan::{
    first_index_of, lemma_absent, lemma_first_index_found, lemma_first_index_of_join, occurs,
};
use crate::time::{Timestamp, Ttl};
use vstd::pervasive::unreached;
use vstd::prelude::*;
use vstd::string::{is_ascii_spec_bytes, StrSliceExecFns, StringExecFns};
use vstd::utf8::is_ascii_chars;

verus! {

/// The blob that seals `token`: signed under `secret` where there is one.
pub open spec fn sealed(secret: Option<Seq<u8>>, token: TokenView) -> Seq<char> {
    let record = payload_bytes(token);
    match secret {
        Some(key) => base64url_text(record) + seq!['.'] + hs256_tag(key, record),
        None => base64url_text(record),
    }
}

/// The token that `blob` opens to, or `None` where the codec rejects it.
///
/// A signed blob is plain ASCII; what stands before its first dot decodes to
/// a record, what stands after it is the tag of that record under the
/// secret, and the record is that of a token. An unsigned blob decodes to
/// the record of a token.
pub open spec fn opened(secret: Option<Seq<u8>>, blob: Seq<char>) -> Option<TokenView> {
    match secret {
        Some(key) => if is_ascii_chars(blob) && occurs(blob, '.') {
            let at = first_index_of(blob, '.');
            match base64url_bytes(blob.take(at)) {
                Some(record) => if blob.skip(at + 1) == hs256_tag(key, record) {
                    parse_payload(record)
                } else {
                    None
                },
                None => None,
            }
        } else {
            None
        },
        None => match base64url_bytes(blob) {
            Some(record) => parse_payload(record),
            None => None,
        },
    }
}

/// Whether `token` can be sealed on this machine: its record must be short
/// enough for the length of its base64url text to fit a `usize`.
pub open spec fn is_sealable(token: TokenView) -> bool {
    is_encodable_len(payload_bytes(token).len())
}

/// The byte `.` that parts body and tag.
pub const DOT: u8 = 46;

/// Parts an ASCII blob at its first dot: what stands before the dot and
/// what stands after it, or `None` where the blob is not ASCII or holds no
/// dot.
fn split_at_first_dot<'a>(blob: &'a str) -> (parts: Option<(&'a str, &'a str)>)
    ensures
        match parts {
            Some((body, tag)) => {
                &&& is_ascii_chars(blob@)
                &&& occurs(blob@, '.')
                &&& body@ == blob@.take(first_index_of(blob@, '.'))
                &&& tag@ == blob@.skip(first_index_of(blob@, '.') + 1)
            },
            None => !is_ascii_chars(blob@) || !occurs(blob@, '.'),
        },
{
    if !blob.is_ascii() {
        return None;
    }
    proof {
        is_ascii_spec_bytes(blob);
    }
    let bytes = blob.as_bytes();
    let len = bytes.len();
    let mut at: usize = 0;
    while at < len && bytes[at] != DOT
        invariant
            at <= len,
            len == blob@.len(),
            len == bytes@.len(),
            is_ascii_chars(blob@),
            forall|j: int| 0 <= j < len ==> #[trigger] bytes@[j] == blob@[j] as u8,
            forall|j: int| 0 <= j < at ==> #[trigger] blob@[j] != '.',
        decreases len - at,
    {
        at = at + 1;
    }
    if at == len {
        proof {
            lemma_absent(blob@, '.');
        }
        return None;
    }
    proof {
        assert(blob@[at as int] == '.');
        lemma_first_index_found(blob@, '.', at as int);
        assert(blob@.subrange(0, at as int) =~= blob@.take(at as int));
        assert(blob@.subrange(at + 1, len as int) =~= blob@.skip(at + 1));
    }
    Some((blob.substring_ascii(0, at), blob.substring_ascii(at + 1, len)))
}

/// A codec's configuration as a mathematical value.
pub struct CodecView {
    /// The signing secret, if the codec signs.
    pub secret: Option<Seq<u8>>,
    /// The time-to-live of issued tokens, in nanoseconds.
    pub ttl: int,
}

/// Seals and opens tokens under a fixed secret and time-to-live.
pub struct TokenCodec {
    secret: Option<Vec<u8>>,
    ttl: Ttl,
}

impl View for TokenCodec {
    type V = CodecView;

    closed spec fn view(&self) -> CodecView {
        CodecView {
            secret: match self.secret {
                Some(key) => Some(key@),
                None => None,
            },
            ttl: self.ttl@,
        }
    }
}

impl TokenCodec {
    /// A codec that signs each blob under `secret`.
    pub fn signed(secret: Vec<u8>, ttl: Ttl) -> (codec: TokenCodec)
        ensures
            codec@ == (CodecView { secret: Some(secret@), ttl: ttl@ }),
    {
        TokenCodec { secret: Some(secret), ttl }
    }

    /// A codec that leaves the protection of its blobs to the carrier.
    pub fn unsigned(ttl: Ttl) -> (codec: TokenCodec)
        ensures
            codec@ == (CodecView { secret: None, ttl: ttl@ }),
    {
        TokenCodec { secret: None, ttl }
    }

    /// The time-to-live of the tokens this codec issues.
    pub fn ttl(&self) -> (ttl: Ttl)
        ensures
            ttl@ == self@.ttl,
    {
        self.ttl
    }

    /// Whether this codec signs its blobs.
    pub fn is_signing(&self) -> (signing: bool)
        ensures
            signing == self@.secret is Some,
    {
        self.secret.is_some()
    }

    /// The token that this codec issues to `username` at `now`.
    pub open spec fn spec_issued(&self, username: Seq<char>, now: Timestamp) -> TokenView {
        TokenView { username, expiry: now@ + self@.ttl }
    }

    /// Whether this codec can issue a token to `username` at `now` on this
    /// machine: the expiry must be an instant that a token can hold, and the
    /// token must be sealable.
    pub open spec fn spec_can_issue(&self, username: Seq<char>, now: Timestamp) -> bool {
        now@ + self@.ttl <= i128::MAX && is_sealable(self.spec_issued(username, now))
    }

    /// Whether `token` can be sealed on this machine.
    pub fn can_seal(token: &Token) -> (can: bool)
        ensures
            can == is_sealable(token@),
    {
        write_payload(token).len() / 3 <= (usize::MAX - 3) / 4
    }

    /// Whether this codec can issue a token to `subject` at `now` on this
    /// machine.
    pub fn can_issue(&self, subject: &Subject, now: Timestamp) -> (can: bool)
        ensures
            can == self.spec_can_issue(subject@, now),
    {
        match now.checked_add(self.ttl) {
            Some(expiry) => Self::can_seal(&Token { subject: subject.duplicate(), expiry }),
            None => false,
        }
    }

    /// Seals `token` into a blob. The blob opens to `token` again.
    pub fn seal(&self, token: &Token) -> (blob: String)
        requires
            is_sealable(token@),
        ensures
            blob@ == sealed(self@.secret, token@),
            opened(self@.secret, blob@) == Some(token@),
    {
        let record = write_payload(token);
        let body = encode_base64url(record.as_slice());
        proof {
            lemma_parse_payload_of_payload(token@);
        }
        match &self.secret {
            None => body,
            Some(key) => {
                let tag = match sign_hs256(key.as_slice(), record.as_slice()) {
                    Ok(tag) => tag,
                    Err(_) => unreached(),
                };
                let mut blob = body;
                let ghost head = blob@;
                blob.append(".");
                blob.append(tag.as_str());
                proof {
                    reveal_strlit(".");
                    assert("."@ =~= seq!['.']);
                    assert(blob@ =~= head + seq!['.'] + tag@);
                    lemma_first_index_of_join(head, '.', tag@);
                    assert forall|i: int| 0 <= i < blob@.len() implies '\0' <= #[trigger] blob@[i]
                        <= '\u{7f}' by {
                        if i < head.len() {
                            assert(is_base64url_char(head[i]));
                        } else if i > head.len() {
                            assert(is_base64url_char(tag@[i - head.len() - 1]));
                        }
                    }
                }
                blob
            },
        }
    }

    /// Issues a token to `subject` at `now`: the blob of the token that
    /// expires one time-to-live after `now`.
    pub fn issue(&self, subject: &Subject, now: Timestamp) -> (blob: String)
        requires
            self.spec_can_issue(subject@, now),
        ensures
            blob@ == sealed(self@.secret, self.spec_issued(subject@, now)),
            opened(self@.secret, blob@) == Some(self.spec_issued(subject@, now)),
    {
        let token = Token { subject: subject.duplicate(), expiry: now.plus(self.ttl) };
        self.seal(&token)
    }

    /// Opens `blob`: the token it seals, or `InvalidToken` where it is
    /// malformed or its tag does not match. The expiry is not looked at.
    pub fn parse(&self, blob: &str) -> (parsed: Result<Token, AuthError>)
        ensures
            match parsed {
                Ok(token) => opened(self@.secret, blob@) == Some(token@),
                Err(e) => e == AuthError::InvalidToken && opened(self@.secret, blob@) is None,
            },
    {
        let record = match &self.secret {
            None => match decode_base64url(blob) {
                Ok(record) => record,
                Err(_) => {
                    return Err(AuthError::InvalidToken);
                },
            },
            Some(key) => {
                let (body, tag) = match split_at_first_dot(blob) {
                    Some(parts) => parts,
                    None => {
                        return Err(AuthError::InvalidToken);
                    },
                };
                let record = match decode_base64url(body) {
                    Ok(record) => record,
                    Err(_) => {
                        return Err(AuthError::InvalidToken);
                    },
                };
                let authentic = match verify_hs256(tag, key.as_slice(), record.as_slice()) {
                    Ok(same) => same,
                    Err(_) => false,
                };
                if !authentic {
                    return Err(AuthError::InvalidToken);
                }
                record
            },
        };
        match read_payload(record.as_slice()) {
            Some(token) => Ok(token),
            None => Err(AuthError::InvalidToken),
        }
    }
}

} // verus!
