//! The records that pass through the authentication core.

use crate::time::Timestamp;
use vstd::prelude::*;

verus! {

/// A member of the registry, as the credential store keeps it.
#[derive(Clone, Debug, PartialEq, Eq)]
pub struct Member {
    pub username: String,
    pub password: String,
}

/// A post on the board.
#[derive(Clone, Debug, PartialEq, Eq)]
pub struct Post {
    pub text: String,
}

/// What a login attempt presents. Consumed once, never stored.
#[derive(Clone, Debug, PartialEq, Eq)]
pub struct Credentials {
    pub username: String,
    pub password: String,
}

/// An authenticated identity.
#[derive(Clone, Debug, PartialEq, Eq)]
pub struct Subject {
    pub username: String,
}

/// Proof that a subject authenticated, good until `expiry` exclusive.
#[derive(Clone, Debug, PartialEq, Eq)]
pub struct Token {
    pub subject: Subject,
    pub expiry: Timestamp,
}

/// A token as a mathematical value.
pub struct TokenView {
    pub username: Seq<char>,
    pub expiry: int,
}

impl View for Subject {
    type V = Seq<char>;

    /// The username.
    open spec fn view(&self) -> Seq<char> {
        self.username@
    }
}

impl View for Token {
    type V = TokenView;

    open spec fn view(&self) -> TokenView {
        TokenView { username: self.subject@, expiry: self.expiry@ }
    }
}

impl Subject {
    /// The identity named `username`.
    pub fn new(username: String) -> (subject: Subject)
        ensures
            subject@ == username@,
    {
        Subject { username }
    }

    /// A copy of this identity.
    pub fn duplicate(&self) -> (copy: Subject)
        ensures
            copy@ == self@,
    {
        Subject { username: self.username.clone() }
    }
}

impl Token {
    /// The token of `subject` that expires at `expiry`.
    pub fn new(subject: Subject, expiry: Timestamp) -> (token: Token)
        ensures
            token@ == (TokenView { username: subject@, expiry: expiry@ }),
    {
        Token { subject, expiry }
    }
}

} // verus!
