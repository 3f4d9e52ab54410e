use member_auth::auth::{login, verify, verify_read, SlotRead, TOKEN_KEY};
use member_auth::carrier::SessionCarrier;
use member_auth::codec::TokenCodec;
use member_auth::error::AuthError;
use member_auth::model::{Subject, Token};
use member_auth::time::{Timestamp, Ttl};

fn signed() -> TokenCodec {
    TokenCodec::signed(b"this_is_my_secret".to_vec(), Ttl::from_secs(60))
}

fn at(secs: i64) -> Timestamp {
    Timestamp::from_secs_nanos(secs, 0)
}

fn alice() -> Subject {
    Subject::new("alice".to_string())
}

const T0: i64 = 1_700_000_000;

#[test]
fn token_key_is_token() {
    assert_eq!(TOKEN_KEY, "token");
}

#[test]
fn login_fills_the_token_slot_with_the_issued_blob() {
    let mut carrier = SessionCarrier::new();
    carrier.set("theme", "dark".to_string());
    login(&signed(), &mut carrier, "alice".to_string(), at(T0));
    assert_eq!(
        carrier.get("token"),
        Some(
            "MTcwMDAwMDA2MDAwMDAwMDAwMDphbGljZQ.8QdRMqIs_gIDyyxCDaddytS1CU_l5__zAF5x0ETIhZk"
                .to_string()
        )
    );
    assert_eq!(carrier.get("theme"), Some("dark".to_string()));
}

#[test]
fn login_replaces_an_earlier_token() {
    let mut carrier = SessionCarrier::new();
    login(&signed(), &mut carrier, "alice".to_string(), at(T0));
    login(&signed(), &mut carrier, "bob".to_string(), at(T0 + 10));
    assert_eq!(
        verify(&signed(), &carrier, at(T0 + 20)),
        Ok(Subject::new("bob".to_string()))
    );
    assert_eq!(
        verify(&signed(), &carrier, at(T0 + 69)),
        Ok(Subject::new("bob".to_string()))
    );
}

#[test]
fn issued_at_t0_for_sixty_seconds_parses_at_thirty_and_is_expired_at_sixty_one() {
    let codec = signed();
    let blob = codec.issue(&alice(), at(T0));
    assert_eq!(codec.parse(&blob), Ok(Token::new(alice(), at(T0 + 60))));
    let read = SlotRead::Filled(blob.clone());
    assert_eq!(verify_read(&codec, &read, at(T0 + 30)), Ok(alice()));
    assert_eq!(codec.parse(&blob), Ok(Token::new(alice(), at(T0 + 60))));
    assert_eq!(verify_read(&codec, &read, at(T0 + 61)), Err(AuthError::ExpiredToken));
}

#[test]
fn verify_is_good_before_the_expiry_and_expired_from_it_on() {
    let mut carrier = SessionCarrier::new();
    login(&signed(), &mut carrier, "alice".to_string(), at(T0));
    assert_eq!(verify(&signed(), &carrier, at(T0)), Ok(alice()));
    assert_eq!(
        verify(&signed(), &carrier, Timestamp::from_secs_nanos(T0 + 59, 999_999_999)),
        Ok(alice())
    );
    assert_eq!(verify(&signed(), &carrier, at(T0 + 60)), Err(AuthError::ExpiredToken));
    assert_eq!(
        verify(&signed(), &carrier, Timestamp::from_secs_nanos(T0 + 60, 1)),
        Err(AuthError::ExpiredToken)
    );
}

#[test]
fn empty_slot_is_an_invalid_token() {
    let carrier = SessionCarrier::new();
    assert_eq!(verify(&signed(), &carrier, at(T0)), Err(AuthError::InvalidToken));
    assert_eq!(verify_read(&signed(), &SlotRead::Empty, at(T0)), Err(AuthError::InvalidToken));
}

#[test]
fn failed_read_is_an_invalid_token() {
    assert_eq!(verify_read(&signed(), &SlotRead::Failed, at(T0)), Err(AuthError::InvalidToken));
}

#[test]
fn slot_with_anything_but_a_token_is_an_invalid_token() {
    let mut carrier = SessionCarrier::new();
    carrier.set("token", "garbage".to_string());
    assert_eq!(verify(&signed(), &carrier, at(T0)), Err(AuthError::InvalidToken));
    carrier.set("token", String::new());
    assert_eq!(verify(&signed(), &carrier, at(T0)), Err(AuthError::InvalidToken));
}

#[test]
fn token_in_another_slot_does_not_count() {
    let mut carrier = SessionCarrier::new();
    carrier.set("other", signed().issue(&alice(), at(T0)));
    assert_eq!(verify(&signed(), &carrier, at(T0)), Err(AuthError::InvalidToken));
}

#[test]
fn verify_twice_gives_the_same_subject_and_leaves_the_slot() {
    let mut carrier = SessionCarrier::new();
    login(&signed(), &mut carrier, "alice".to_string(), at(T0));
    let before = carrier.get("token");
    let first = verify(&signed(), &carrier, at(T0 + 1));
    let second = verify(&signed(), &carrier, at(T0 + 2));
    let third = verify(&signed(), &carrier, at(T0 + 1));
    assert_eq!(first, Ok(alice()));
    assert_eq!(second, first);
    assert_eq!(third, first);
    assert_eq!(carrier.get("token"), before);
}

#[test]
fn session_codec_without_secret_works_the_same() {
    let codec = TokenCodec::unsigned(Ttl::session_default());
    let mut carrier = SessionCarrier::new();
    login(&codec, &mut carrier, "alice".to_string(), at(T0));
    assert_eq!(carrier.get("token"), Some("MTcwMDAwMDA2MDAwMDAwMDAwMDphbGljZQ".to_string()));
    assert_eq!(verify(&codec, &carrier, at(T0 + 59)), Ok(alice()));
    assert_eq!(verify(&codec, &carrier, at(T0 + 60)), Err(AuthError::ExpiredToken));
}

#[test]
fn signed_codec_rejects_an_unsigned_session() {
    let mut carrier = SessionCarrier::new();
    login(&TokenCodec::unsigned(Ttl::from_secs(60)), &mut carrier, "alice".to_string(), at(T0));
    assert_eq!(verify(&signed(), &carrier, at(T0)), Err(AuthError::InvalidToken));
}
