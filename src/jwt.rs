//! Signed tokens carrying a subject, an audience and an expiration time.
use crate::primitives::{jwt_sign_claims, jwt_subject, jwt_token, jwt_verified_subject};
use vstd::prelude::*;

verus! {

/// Ways in which signing or verifying a token can fail.
#[derive(Debug, Clone, Copy, PartialEq, Eq, Structural)]
pub enum JwtError {
    /// The claims could not be signed.
    SignFailed,
    /// The token does not parse or its signature does not check out.
    ParseFailed,
    /// The token carries no subject.
    MissingSubject,
}

impl JwtError {
    /// A short human-readable description of the failure.
    pub fn message(&self) -> (r: &'static str)
        ensures
            r@ == match self {
                JwtError::SignFailed => "Sign failed"@,
                JwtError::ParseFailed => "Parse failed"@,
                JwtError::MissingSubject => "Missing subject"@,
            },
    {
        match self {
            JwtError::SignFailed => "Sign failed",
            JwtError::ParseFailed => "Parse failed",
            JwtError::MissingSubject => "Missing subject",
        }
    }
}

/// Signs a token for subject `sub`, audience `aud` and expiration time
/// `exp` with the shared secret `secret`; signing these claims always works.
pub fn proceess_jwt_sign(sub: String, aud: String, exp: u64, secret: &[u8]) -> (r: Result<
    String,
    JwtError,
>)
    ensures
        r matches Ok(t) && t@ == jwt_token(sub@, aud@, exp, secret@),
{
    match jwt_sign_claims(sub, aud, exp, secret) {
        Some(t) => Ok(t),
        None => Err(JwtError::SignFailed),
    }
}

/// Accepts a token signed with `secret` that names a subject.
pub fn process_jwt_verify(token: String, secret: &[u8]) -> (r: Result<(), JwtError>)
    ensures
        r == match jwt_verified_subject(token@, secret@) {
            None => Err(JwtError::ParseFailed),
            Some(None) => Err(JwtError::MissingSubject),
            Some(Some(_)) => Ok(()),
        },
{
    match jwt_subject(token.as_str(), secret) {
        None => Err(JwtError::ParseFailed),
        Some(None) => Err(JwtError::MissingSubject),
        Some(Some(_)) => Ok(()),
    }
}

} // verus!
