//! Base64 and UTF-8 decoding.

use vstd::prelude::*;
use vstd::utf8::decode_utf8;
use vstd::utf8::valid_utf8;

verus! {

/// What `base64::decode` returns for `input` (the standard alphabet, padding as the crate's
/// `STANDARD` engine requires it): the decoded bytes, or `None` where the crate reports an error.
pub uninterp spec fn base64_decode(input: Seq<u8>) -> Option<Seq<u8>>;

/// Calls `base64::decode` (base64 0.21). Its result is taken as `base64_decode` of the input;
/// the crate's error becomes `None`. Nothing else is claimed of the decoding.
#[verifier::external_body]
#[allow(deprecated)]
pub(crate) fn decode_base64(input: &[u8]) -> (r: Option<Vec<u8>>)
    ensures
        match r {
            Some(v) => base64_decode(input@) == Some(v@),
            None => base64_decode(input@) is None,
        },
{
    base64::decode(input).ok()
}

/// Whether `encoded_string` is valid base64, as `base64::decode` judges it.
pub fn is_valid_base64_encoded(encoded_string: &[u8]) -> (b: bool)
    ensures
        b == (base64_decode(encoded_string@) is Some),
{
    decode_base64(encoded_string).is_some()
}

/// Calls `std::str::from_utf8`, which the standard library documents as failing exactly when
/// the bytes are not valid UTF-8 and otherwise reading them as text; the claim is stated with
/// vstd's model of UTF-8. The error becomes `None`.
#[verifier::external_body]
pub(crate) fn str_from_utf8(bytes: &[u8]) -> (r: Option<&str>)
    ensures
        r is Some <==> valid_utf8(bytes@),
        r matches Some(s) ==> s@ == decode_utf8(bytes@),
{
    std::str::from_utf8(bytes).ok()
}

} // verus!
