//! Error type and cryptographic key container.

use vstd::prelude::*;

verus! {

/// Protocol errors.
#[derive(Debug, PartialEq, Eq, Clone, Copy, Structural)]
pub enum Error {
    /// Error to convert from/to bytes.
    ParseError,
    /// Buffer too short.
    BufferUnderflow,
    /// Buffer too large.
    BufferOverflow,
    /// Incorrect Cyclic Redundancy Check.
    IncorrectCrc,
    /// Missing cryptographic keys.
    MissingKeys,
    /// Authentication failed.
    AuthFailed,
    /// Cryptographic error.
    CryptoError,
}

/// AES-128 key.
pub type AesKey = [u8; 16];

/// HMAC-SHA256 key.
pub type HmacKey = [u8; 32];

/// Container for cryptographic keys.
pub struct CryptoKeys {
    /// AES-128 key.
    pub aes_key: AesKey,
    /// HMAC-SHA256 key.
    pub hmac_key: HmacKey,
}

impl CryptoKeys {
    /// Construct new container for cryptographic keys.
    pub fn new(aes_key: AesKey, hmac_key: HmacKey) -> (keys: Self)
        ensures
            keys.aes_key == aes_key,
            keys.hmac_key == hmac_key,
    {
        Self { aes_key, hmac_key }
    }
}

} // verus!
