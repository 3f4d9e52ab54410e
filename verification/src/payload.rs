//! The serialized record inside a token: the canonical decimal text of the
//! expiry in nanoseconds, a colon, and the username in UTF-8 to the end.
//! Every token has exactly one such record.

use crate::decimal::{
    decimal, digits, is_digit, lemma_digits_spell, lemma_parse_decimal_is_canonical,
    lemma_parse_decimal_of_decimal, parse_decimal, read_decimal, write_decimal,
};
use crate::model::{Subject, Token, TokenView};
use crate::scan::{
    first_index_of, lemma_absent, lemma_first_index_found, lemma_first_index_of_join,
    lemma_split_at_first, occurs,
};
use crate::text::text_from_utf8;
use crate::time::Timestamp;
use vstd::prelude::*;
use vstd::slice::{slice_subrange, slice_to_vec};
use vstd::utf8::*;

verus! {

/// The byte `:` that ends the expiry.
pub const SEPARATOR: u8 = 58;

/// The record of `token`.
pub open spec fn payload_bytes(token: TokenView) -> Seq<u8> {
    decimal(token.expiry) + seq![58u8] + encode_utf8(token.username)
}

/// Whether an expiry of `v` nanoseconds is one that a token can hold.
pub open spec fn is_expiry(v: int) -> bool {
    i128::MIN <= v <= i128::MAX
}

/// The token that `bytes` is the record of, if there is one.
pub open spec fn parse_payload(bytes: Seq<u8>) -> Option<TokenView> {
    if occurs(bytes, 58u8) {
        let at = first_index_of(bytes, 58u8);
        let name = bytes.skip(at + 1);
        match parse_decimal(bytes.take(at)) {
            Some(expiry) => if is_expiry(expiry) && valid_utf8(name) {
                Some(TokenView { username: decode_utf8(name), expiry })
            } else {
                None
            },
            None => None,
        }
    } else {
        None
    }
}

/// Decimal text holds no colon.
proof fn lemma_decimal_has_no_separator(v: int)
    ensures
        forall|j: int| 0 <= j < decimal(v).len() ==> #[trigger] decimal(v)[j] != 58u8,
{
    let n = if v < 0 {
        (-v) as nat
    } else {
        v as nat
    };
    lemma_digits_spell(n);
    assert forall|j: int| 0 <= j < decimal(v).len() implies #[trigger] decimal(v)[j] != 58u8 by {
        if v < 0 {
            if j > 0 {
                assert(decimal(v)[j] == digits(n)[j - 1]);
                assert(is_digit(digits(n)[j - 1]));
            }
        } else {
            assert(is_digit(digits(n)[j]));
        }
    }
}

/// Reading the record of a token gives that token back.
pub proof fn lemma_parse_payload_of_payload(token: TokenView)
    requires
        is_expiry(token.expiry),
    ensures
        parse_payload(payload_bytes(token)) == Some(token),
{
    lemma_decimal_has_no_separator(token.expiry);
    lemma_first_index_of_join(decimal(token.expiry), 58u8, encode_utf8(token.username));
    lemma_parse_decimal_of_decimal(token.expiry);
    encode_utf8_valid_utf8(token.username);
    encode_utf8_decode_utf8(token.username);
}

/// Only the record of a token reads as that token.
pub proof fn lemma_parse_payload_is_canonical(bytes: Seq<u8>)
    requires
        parse_payload(bytes) is Some,
    ensures
        bytes == payload_bytes(parse_payload(bytes)->0),
{
    let at = first_index_of(bytes, 58u8);
    lemma_split_at_first(bytes, 58u8);
    lemma_parse_decimal_is_canonical(bytes.take(at));
    decode_utf8_encode_utf8(bytes.skip(at + 1));
}

/// Writes the record of `token`.
pub fn write_payload(token: &Token) -> (bytes: Vec<u8>)
    ensures
        bytes@ == payload_bytes(token@),
{
    let mut bytes = write_decimal(token.expiry.nanos);
    bytes.push(SEPARATOR);
    bytes.extend_from_slice(token.subject.username.as_str().as_bytes());
    bytes
}

/// Reads a record: the token that `bytes` is the record of, or `None` where
/// it is the record of none.
pub fn read_payload(bytes: &[u8]) -> (token: Option<Token>)
    ensures
        match token {
            Some(t) => parse_payload(bytes@) == Some(t@),
            None => parse_payload(bytes@) is None,
        },
{
    let len = bytes.len();
    let mut at: usize = 0;
    while at < len && bytes[at] != SEPARATOR
        invariant
            at <= len,
            len == bytes@.len(),
            forall|j: int| 0 <= j < at ==> #[trigger] bytes@[j] != 58u8,
        decreases len - at,
    {
        at = at + 1;
    }
    if at == len {
        proof {
            lemma_absent(bytes@, 58u8);
        }
        return None;
    }
    proof {
        lemma_first_index_found(bytes@, 58u8, at as int);
        assert(bytes@.subrange(0, at as int) =~= bytes@.take(at as int));
        assert(bytes@.subrange(at + 1, len as int) =~= bytes@.skip(at + 1));
    }
    let expiry = match read_decimal(slice_subrange(bytes, 0, at)) {
        Some(nanos) => nanos,
        None => {
            return None;
        },
    };
    let name = slice_to_vec(slice_subrange(bytes, at + 1, len));
    match text_from_utf8(name) {
        Ok(username) => Some(
            Token { subject: Subject { username }, expiry: Timestamp { nanos: expiry } },
        ),
        Err(_) => None,
    }
}

} // verus!

