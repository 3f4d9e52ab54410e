//! Why a login or a protected request was turned away.

use vstd::prelude::*;

verus! {

/// Reasons for which a request is denied.
#[derive(Clone, Copy, Debug, PartialEq, Eq, Structural)]
pub enum AuthError {
    /// No token was presented, or the one presented is malformed or was
    /// rejected by the codec.
    InvalidToken,
    /// The token is well formed but its expiry has been reached.
    ExpiredToken,
    /// The credential store knows no member with these credentials.
    BadCredentials,
}

impl AuthError {
    /// The text that names this error in full.
    pub open spec fn spec_message(self) -> Seq<char> {
        match self {
            AuthError::InvalidToken => "The token is not valid."@,
            AuthError::ExpiredToken => "The token is expired."@,
            AuthError::BadCredentials => "Bad member credentials."@,
        }
    }

    /// The text that names this error in full.
    pub fn message(&self) -> (text: String)
        ensures
            text@ == self.spec_message(),
    {
        match self {
            AuthError::InvalidToken => "The token is not valid.".to_owned(),
            AuthError::ExpiredToken => "The token is expired.".to_owned(),
            AuthError::BadCredentials => "Bad member credentials.".to_owned(),
        }
    }

    /// The text shown to the user. A denied action reads the same whether
    /// the token was invalid or expired: the difference is of no use to the
    /// client.
    pub open spec fn spec_public_message(self) -> Seq<char> {
        match self {
            AuthError::BadCredentials => "Bad member credentials."@,
            _ => "login required"@,
        }
    }

    /// The text shown to the user.
    pub fn public_message(&self) -> (text: String)
        ensures
            text@ == self.spec_public_message(),
    {
        match self {
            AuthError::BadCredentials => "Bad member credentials.".to_owned(),
            _ => "login required".to_owned(),
        }
    }
}

} // verus!
