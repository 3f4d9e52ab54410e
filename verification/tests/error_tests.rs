use member_auth::config::{load_secret, ConfigError};
use member_auth::error::AuthError;

#[test]
fn messages_name_each_error() {
    assert_eq!(AuthError::InvalidToken.message(), "The token is not valid.");
    assert_eq!(AuthError::ExpiredToken.message(), "The token is expired.");
    assert_eq!(AuthError::BadCredentials.message(), "Bad member credentials.");
}

#[test]
fn public_message_does_not_tell_invalid_from_expired() {
    assert_eq!(AuthError::InvalidToken.public_message(), "login required");
    assert_eq!(AuthError::ExpiredToken.public_message(), "login required");
    assert_eq!(AuthError::BadCredentials.public_message(), "Bad member credentials.");
}

#[test]
fn missing_secret_is_a_configuration_error() {
    assert_eq!(load_secret(None), Err(ConfigError::MissingSecret));
}

#[test]
fn malformed_secret_is_a_configuration_error() {
    assert_eq!(load_secret(Some("not base64!")), Err(ConfigError::MalformedSecret));
    assert_eq!(load_secret(Some("aGVsbG8")), Err(ConfigError::MalformedSecret));
    assert_eq!(load_secret(Some("aGVsbG8_")), Err(ConfigError::MalformedSecret));
}

#[test]
fn well_formed_secret_is_decoded() {
    assert_eq!(load_secret(Some("aGVsbG8=")), Ok(b"hello".to_vec()));
    assert_eq!(load_secret(Some("")), Ok(Vec::new()));
    assert_eq!(load_secret(Some("+/8=")), Ok(vec![0xfb, 0xff]));
}
