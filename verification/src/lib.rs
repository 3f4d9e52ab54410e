//! Authentication and session core of a member registry: time-bounded
//! tokens, their wire form, and the guard that admits or denies a request.

pub mod auth;
pub mod base64url;
pub mod carrier;
pub mod codec;
pub mod config;
pub mod decimal;
pub mod error;
pub mod guard;
pub mod laws;
pub mod mac;
pub mod model;
pub mod payload;
pub mod scan;
pub mod text;
pub mod time;
pub mod token;
