//! Decryption of the encrypted values of a row.

pub mod aes_helper;
pub mod encrypted_cipher_text;
pub mod utility;

use vstd::prelude::*;

verus! {

/// Why a value could not be decrypted.
#[derive(Debug, Clone, Copy, PartialEq, Eq, Structural)]
pub enum DecryptionError {
    /// Text that should be base64 is not.
    InvalidBase64,
    /// Bytes that should be UTF-8 text are not.
    InvalidUtf8,
    /// The data key is not 32 bytes long, or the initialisation vector is not 16 bytes long.
    InvalidKeyOrIvLength,
    /// The cipher text is not a whole number of blocks, or its padding is malformed.
    InvalidPadding,
    /// The decrypted text does not end in a value that can be cut out of its quotes.
    MalformedPlainText,
}

} // verus!
