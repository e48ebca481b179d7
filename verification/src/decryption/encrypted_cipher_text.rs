//! The encrypted form of a value: twice base64-encoded JSON that names an IV and a cipher text.

use vstd::prelude::*;
use vstd::string::*;
use vstd::utf8::decode_utf8;
use vstd::utf8::valid_utf8;

use crate::datasource::utility::base64_decode;
use crate::datasource::utility::decode_base64;
use crate::datasource::utility::str_from_utf8;
use crate::decryption::DecryptionError;

verus! {

/// An encrypted value: the base64 initialisation vector and the base64 cipher text.
pub struct EncryptedCipherText {
    pub iv: String,
    pub value: String,
}

/// `encrypted` decoded from base64 twice (meaningful where both decodings succeed).
pub open spec fn twice_decoded(encrypted: Seq<u8>) -> Seq<u8> {
    base64_decode(base64_decode(encrypted).unwrap()).unwrap()
}

/// `encrypted` decodes from base64 twice.
pub open spec fn is_twice_base64(encrypted: Seq<u8>) -> bool {
    &&& base64_decode(encrypted) is Some
    &&& base64_decode(base64_decode(encrypted).unwrap()) is Some
}

/// The JSON document inside an encrypted value: its twice-decoded bytes read as UTF-8 text.
pub open spec fn cipher_text_document(encrypted: Seq<u8>) -> Result<Seq<char>, DecryptionError> {
    if valid_utf8(twice_decoded(encrypted)) {
        Ok(decode_utf8(twice_decoded(encrypted)))
    } else {
        Err(DecryptionError::InvalidUtf8)
    }
}

/// Decodes an encrypted value from base64 twice and reads the result as the UTF-8 text of a JSON
/// document, which describes an [`EncryptedCipherText`].
pub fn encrypted_cipher_text_document(encrypted_cipher_text: &[u8]) -> (r: Result<
    String,
    DecryptionError,
>)
    requires
        is_twice_base64(encrypted_cipher_text@),
    ensures
        match r {
            Ok(text) => cipher_text_document(encrypted_cipher_text@) == Ok::<
                Seq<char>,
                DecryptionError,
            >(text@),
            Err(e) => cipher_text_document(encrypted_cipher_text@) == Err::<
                Seq<char>,
                DecryptionError,
            >(e),
        },
{
    let first_base_64_decoded_value = decode_base64(encrypted_cipher_text).unwrap();
    let double_base_64_decoded_value = decode_base64(first_base_64_decoded_value.as_slice()).unwrap();
    match str_from_utf8(double_base_64_decoded_value.as_slice()) {
        Some(text) => Ok(text.to_owned()),
        None => Err(DecryptionError::InvalidUtf8),
    }
}

} // verus!
