use vstd::prelude::*;

verus! {

/// Ways in which a text-security operation can fail.
#[derive(Debug, Clone, Copy, PartialEq, Eq, Structural)]
pub enum TextError {
    /// An unknown algorithm name, malformed base64 text or a key or
    /// signature of the wrong shape.
    Format,
    /// Key or nonce material shorter than the algorithm requires.
    Length,
    /// A cryptographic check failed: an authentication tag mismatch or an
    /// unusable public key.
    Crypto,
}

impl TextError {
    /// A short human-readable description of the failure.
    pub fn message(&self) -> (r: &'static str)
        ensures
            r@ == match self {
                TextError::Format => "invalid format"@,
                TextError::Length => "key material is too short"@,
                TextError::Crypto => "cryptographic check failed"@,
            },
    {
        match self {
            TextError::Format => "invalid format",
            TextError::Length => "key material is too short",
            TextError::Crypto => "cryptographic check failed",
        }
    }
}

} // verus!
