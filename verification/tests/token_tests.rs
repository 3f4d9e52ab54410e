use member_auth::codec::TokenCodec;
use member_auth::error::AuthError;
use member_auth::token::{encode, extract_username};
use member_auth::time::{Timestamp, Ttl};

fn codec() -> TokenCodec {
    TokenCodec::signed(b"this_is_my_secret".to_vec(), Ttl::signed_default())
}

fn at(secs: i64) -> Timestamp {
    Timestamp::from_secs_nanos(secs, 0)
}

#[test]
fn encode_gives_the_exact_token() {
    // expires 900 s after 1_699_999_160 s
    assert_eq!(
        encode(&codec(), "alice".to_string(), at(1_699_999_160)),
        "MTcwMDAwMDA2MDAwMDAwMDAwMDphbGljZQ.8QdRMqIs_gIDyyxCDaddytS1CU_l5__zAF5x0ETIhZk"
    );
}

#[test]
fn extract_username_gives_the_user_while_the_token_lasts() {
    let token = encode(&codec(), "alice".to_string(), at(1_000));
    assert_eq!(extract_username(&codec(), &token, at(1_000)), Ok("alice".to_string()));
    assert_eq!(extract_username(&codec(), &token, at(1_899)), Ok("alice".to_string()));
    assert_eq!(
        extract_username(&codec(), &token, Timestamp::from_secs_nanos(1_899, 999_999_999)),
        Ok("alice".to_string())
    );
}

#[test]
fn extract_username_reports_expiry_from_the_expiry_instant_on() {
    let token = encode(&codec(), "alice".to_string(), at(1_000));
    assert_eq!(extract_username(&codec(), &token, at(1_900)), Err(AuthError::ExpiredToken));
    assert_eq!(
        extract_username(&codec(), &token, Timestamp::from_secs_nanos(1_900, 1)),
        Err(AuthError::ExpiredToken)
    );
    assert_eq!(extract_username(&codec(), &token, at(5_000)), Err(AuthError::ExpiredToken));
}

#[test]
fn extract_username_reports_invalid_before_expired() {
    let token = encode(&codec(), "alice".to_string(), at(1_000));
    let forged = format!("{}A", token);
    assert_eq!(extract_username(&codec(), &forged, at(1_000)), Err(AuthError::InvalidToken));
    assert_eq!(extract_username(&codec(), &forged, at(5_000)), Err(AuthError::InvalidToken));
    assert_eq!(extract_username(&codec(), "", at(0)), Err(AuthError::InvalidToken));
}

#[test]
fn token_with_no_time_to_live_is_expired_at_once() {
    let codec = TokenCodec::signed(b"k".to_vec(), Ttl::from_nanos(0));
    let token = encode(&codec, "alice".to_string(), at(1_000));
    assert_eq!(extract_username(&codec, &token, at(1_000)), Err(AuthError::ExpiredToken));
    assert_eq!(
        extract_username(&codec, &token, Timestamp::from_secs_nanos(999, 999_999_999)),
        Ok("alice".to_string())
    );
}
