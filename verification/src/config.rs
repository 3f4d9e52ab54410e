//! Startup configuration: the secret that the server holds. It is handed
//! over as base64 text; without a well-formed one the server must not
//! start.

use vstd::prelude::*;

verus! {

/// Why the configuration is no good.
#[derive(Clone, Copy, Debug, PartialEq, Eq, Structural)]
pub enum ConfigError {
    /// No secret was provided.
    MissingSecret,
    /// The secret provided is not base64 text.
    MalformedSecret,
}

/// The bytes that the engine `STANDARD` of `base64` decodes `text` to, or
/// `None` where it rejects `text`.
pub uninterp spec fn base64_bytes(text: Seq<char>) -> Option<Seq<u8>>;

/// Calls `Engine::decode` of `base64` on the engine `STANDARD`.
///
/// Trusted: whether the call succeeds, and with which bytes, depends on the
/// text alone.
#[verifier::external_body]
pub(crate) fn decode_base64(text: &str) -> (decoded: Result<Vec<u8>, base64::DecodeError>)
    ensures
        match decoded {
            Ok(bytes) => base64_bytes(text@) == Some(bytes@),
            Err(_) => base64_bytes(text@) is None,
        },
{
    base64::Engine::decode(&base64::engine::general_purpose::STANDARD, text)
}

/// The secret that the provided text stands for, or what is wrong with it.
pub open spec fn secret_of(provided: Option<Seq<char>>) -> Result<Seq<u8>, ConfigError> {
    match provided {
        Some(text) => match base64_bytes(text) {
            Some(secret) => Ok(secret),
            None => Err(ConfigError::MalformedSecret),
        },
        None => Err(ConfigError::MissingSecret),
    }
}

/// The text `provided` as a mathematical value.
pub open spec fn provided_text(provided: Option<&str>) -> Option<Seq<char>> {
    match provided {
        Some(text) => Some(text@),
        None => None,
    }
}

/// The outcome `loaded` with the secret as a mathematical value.
pub open spec fn loaded_secret(
    loaded: Result<Vec<u8>, ConfigError>,
) -> Result<Seq<u8>, ConfigError> {
    match loaded {
        Ok(secret) => Ok(secret@),
        Err(e) => Err(e),
    }
}

/// Loads the secret from the text that the environment provided, if it
/// provided one.
pub fn load_secret(provided: Option<&str>) -> (loaded: Result<Vec<u8>, ConfigError>)
    ensures
        loaded_secret(loaded) == secret_of(provided_text(provided)),
{
    match provided {
        Some(text) => match decode_base64(text) {
            Ok(secret) => Ok(secret),
            Err(_) => Err(ConfigError::MalformedSecret),
        },
        None => Err(ConfigError::MissingSecret),
    }
}

} // verus!
