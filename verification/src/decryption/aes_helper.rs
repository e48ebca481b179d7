//! AES-256-CBC decryption of a value and the extraction of the text it holds.

use aes::cipher::block_padding::Pkcs7;
use aes::cipher::BlockDecryptMut;
use aes::cipher::KeyIvInit;
use vstd::prelude::*;
use vstd::string::*;
use vstd::utf8::decode_utf8;
use vstd::utf8::encode_utf8;
use vstd::utf8::valid_utf8;
use vstd::utf8::encode_utf8_decode_utf8;
use vstd::utf8::encode_utf8_valid_utf8;

use crate::datasource::utility::base64_decode;
use crate::datasource::utility::decode_base64;
use crate::datasource::utility::str_from_utf8;
use crate::decryption::encrypted_cipher_text::EncryptedCipherText;
use crate::decryption::DecryptionError;

verus! {

/// What AES-256 in CBC mode with PKCS#7 padding (the `aes` and `cbc` crates) gives for a 32-byte
/// key, a 16-byte initialisation vector and a cipher text: the plain text, or `None` where the
/// crate reports an unpadding error.
pub uninterp spec fn aes256_cbc_pkcs7_decrypt(key: Seq<u8>, iv: Seq<u8>, cipher_text: Seq<u8>) -> Option<Seq<u8>>;

/// Calls `cbc::Decryptor::<aes::Aes256>::new_from_slices` and `decrypt_padded_vec_mut::<Pkcs7>`.
/// For a 32-byte key and a 16-byte IV the first cannot fail (it only checks these lengths); the
/// result of the second is taken as `aes256_cbc_pkcs7_decrypt` of the arguments, its error as
/// `None`. Nothing else is claimed of the cipher.
#[verifier::external_body]
fn decrypt_aes256_cbc(key: &[u8], iv: &[u8], cipher_text: &[u8]) -> (r: Option<Vec<u8>>)
    requires
        key@.len() == 32,
        iv@.len() == 16,
    ensures
        match r {
            Some(p) => aes256_cbc_pkcs7_decrypt(key@, iv@, cipher_text@) == Some(p@),
            None => aes256_cbc_pkcs7_decrypt(key@, iv@, cipher_text@) is None,
        },
{
    let decryptor = match cbc::Decryptor::<aes::Aes256>::new_from_slices(key, iv) {
        Ok(d) => d,
        Err(_) => return None,
    };
    decryptor.decrypt_padded_vec_mut::<Pkcs7>(cipher_text).ok()
}

/// The position just after the last `:` of `s`, or 0 where `s` holds none.
pub open spec fn segment_start(s: Seq<u8>) -> int
    decreases s.len(),
{
    if s.len() == 0 {
        0
    } else if s.last() == 58u8 {
        s.len() as int
    } else {
        segment_start(s.drop_last())
    }
}

/// The bytes after the last `:` of `s` (all of `s` where it holds none).
pub open spec fn last_segment(s: Seq<u8>) -> Seq<u8> {
    s.subrange(segment_start(s), s.len() as int)
}

/// The last segment of `s` without its first byte and its last two (meaningful where it has at
/// least three): the `text` of a serialised string `s:N:"text";`.
pub open spec fn quoted_value(s: Seq<u8>) -> Seq<u8> {
    let seg = last_segment(s);
    seg.subrange(1, seg.len() - 2)
}

/// The text that a decrypted value holds: the plain text must be UTF-8, its part after the last
/// `:` must have at least three bytes, and that part without its first byte and last two bytes
/// must start and end on character boundaries; that inner part is the text.
pub open spec fn extracted_text(plain: Seq<u8>) -> Result<Seq<char>, DecryptionError> {
    if !valid_utf8(plain) {
        Err(DecryptionError::InvalidUtf8)
    } else if last_segment(plain).len() < 3 {
        Err(DecryptionError::MalformedPlainText)
    } else if !valid_utf8(quoted_value(plain)) {
        Err(DecryptionError::MalformedPlainText)
    } else {
        Ok(decode_utf8(quoted_value(plain)))
    }
}

/// The text of an encrypted value under a data key: the IV and the cipher text are base64, the
/// key must have 32 bytes and the IV 16, the cipher text is decrypted with AES-256-CBC and PKCS#7
/// padding, and the text is cut out of the plain text (see [`extracted_text`]).
pub open spec fn decrypted_text(key: Seq<u8>, iv_text: Seq<char>, value_text: Seq<char>) -> Result<
    Seq<char>,
    DecryptionError,
> {
    match base64_decode(encode_utf8(iv_text)) {
        None => Err(DecryptionError::InvalidBase64),
        Some(iv) => if key.len() != 32 || iv.len() != 16 {
            Err(DecryptionError::InvalidKeyOrIvLength)
        } else {
            match base64_decode(encode_utf8(value_text)) {
                None => Err(DecryptionError::InvalidBase64),
                Some(cipher_text) => match aes256_cbc_pkcs7_decrypt(key, iv, cipher_text) {
                    None => Err(DecryptionError::InvalidPadding),
                    Some(plain) => extracted_text(plain),
                },
            }
        },
    }
}

/// The view of a result that holds a string.
pub open spec fn text_result(r: Result<String, DecryptionError>) -> Result<Seq<char>, DecryptionError> {
    match r {
        Ok(s) => Ok(s@),
        Err(e) => Err(e),
    }
}

/// The position just after the last `:` of `s` (see [`segment_start`]).
fn find_segment_start(s: &[u8]) -> (k: usize)
    ensures
        k == segment_start(s@),
        k <= s@.len(),
{
    let mut i = s.len();
    assert(s@.subrange(0, i as int) =~= s@);
    loop
        invariant
            i <= s@.len(),
            segment_start(s@.subrange(0, i as int)) == segment_start(s@),
        decreases i,
    {
        if i == 0 {
            return 0;
        }
        if s[i - 1] == 58u8 {
            return i;
        }
        assert(s@.subrange(0, i as int).drop_last() =~= s@.subrange(0, i - 1));
        i = i - 1;
    }
}

/// Cuts the text out of a decrypted value (see [`extracted_text`]).
pub fn extract_text(plain: &[u8]) -> (r: Result<String, DecryptionError>)
    ensures
        text_result(r) == extracted_text(plain@),
{
    if str_from_utf8(plain).is_none() {
        return Err(DecryptionError::InvalidUtf8);
    }
    let start = find_segment_start(plain);
    let n = plain.len();
    if n - start < 3 {
        return Err(DecryptionError::MalformedPlainText);
    }
    let mut inner: Vec<u8> = Vec::new();
    let mut i = start + 1;
    while i < n - 2
        invariant
            start + 1 <= i <= n - 2,
            n == plain@.len(),
            inner@ == plain@.subrange(start + 1, i as int),
        decreases n - 2 - i,
    {
        inner.push(plain[i]);
        assert(inner@ =~= plain@.subrange(start + 1, i + 1));
        i = i + 1;
    }
    assert(inner@ =~= quoted_value(plain@));
    match str_from_utf8(inner.as_slice()) {
        Some(text) => Ok(text.to_owned()),
        None => Err(DecryptionError::MalformedPlainText),
    }
}

/// Decrypts one encrypted value with the plain-text data key (see [`decrypted_text`]).
pub fn get_decrypted_cipher_text(
    plain_text_key_bytes: &[u8],
    encrypted_cipher_text: &EncryptedCipherText,
) -> (r: Result<String, DecryptionError>)
    ensures
        text_result(r) == decrypted_text(
            plain_text_key_bytes@,
            encrypted_cipher_text.iv@,
            encrypted_cipher_text.value@,
        ),
        forall|iv: Seq<u8>, cipher_text: Seq<u8>|
            plain_text_key_bytes@.len() == 32 && iv.len() == 16 && #[trigger] base64_decode(
                encode_utf8(encrypted_cipher_text.iv@),
            ) == Some(iv) && #[trigger] base64_decode(encode_utf8(encrypted_cipher_text.value@))
                == Some(cipher_text) ==> match aes256_cbc_pkcs7_decrypt(
                plain_text_key_bytes@,
                iv,
                cipher_text,
            ) {
                None => r == Err::<String, DecryptionError>(DecryptionError::InvalidPadding),
                Some(plain) => text_result(r) == extracted_text(plain),
            },
{
    let iv = match decode_base64(encrypted_cipher_text.iv.as_str().as_bytes()) {
        Some(iv) => iv,
        None => return Err(DecryptionError::InvalidBase64),
    };
    if plain_text_key_bytes.len() != 32 || iv.len() != 16 {
        return Err(DecryptionError::InvalidKeyOrIvLength);
    }
    let cipher_text = match decode_base64(encrypted_cipher_text.value.as_str().as_bytes()) {
        Some(c) => c,
        None => return Err(DecryptionError::InvalidBase64),
    };
    let decrypted = match decrypt_aes256_cbc(
        plain_text_key_bytes,
        iv.as_slice(),
        cipher_text.as_slice(),
    ) {
        Some(p) => p,
        None => return Err(DecryptionError::InvalidPadding),
    };
    let r = extract_text(decrypted.as_slice());
    proof {
        assert forall|iv2: Seq<u8>, ct2: Seq<u8>|
            plain_text_key_bytes@.len() == 32 && iv2.len() == 16 && #[trigger] base64_decode(
                encode_utf8(encrypted_cipher_text.iv@),
            ) == Some(iv2) && #[trigger] base64_decode(encode_utf8(encrypted_cipher_text.value@))
                == Some(ct2) implies match aes256_cbc_pkcs7_decrypt(
            plain_text_key_bytes@,
            iv2,
            ct2,
        ) {
            None => r == Err::<String, DecryptionError>(DecryptionError::InvalidPadding),
            Some(plain) => text_result(r) == extracted_text(plain),
        } by {
            law_decryption_uses_the_whole_cipher_text(
                plain_text_key_bytes@,
                encrypted_cipher_text.iv@,
                encrypted_cipher_text.value@,
                iv2,
                ct2,
            );
        }
    }
    r
}

/// Decrypting a value hands the whole cipher text, as decoded from base64, to AES-256-CBC with
/// the data key and the decoded IV: the result is the text cut out of that plain text, or
/// `InvalidPadding` where the cipher reports an error.
pub proof fn law_decryption_uses_the_whole_cipher_text(
    key: Seq<u8>,
    iv_text: Seq<char>,
    value_text: Seq<char>,
    iv: Seq<u8>,
    cipher_text: Seq<u8>,
)
    requires
        key.len() == 32,
        iv.len() == 16,
        base64_decode(encode_utf8(iv_text)) == Some(iv),
        base64_decode(encode_utf8(value_text)) == Some(cipher_text),
    ensures
        aes256_cbc_pkcs7_decrypt(key, iv, cipher_text) is None ==> decrypted_text(
            key,
            iv_text,
            value_text,
        ) == Err::<Seq<char>, DecryptionError>(DecryptionError::InvalidPadding),
        aes256_cbc_pkcs7_decrypt(key, iv, cipher_text) matches Some(plain) ==> decrypted_text(
            key,
            iv_text,
            value_text,
        ) == extracted_text(plain),
{
}

proof fn lemma_segment_start_after_colon(head: Seq<u8>, tail: Seq<u8>)
    requires
        head.len() > 0,
        head.last() == 58u8,
        forall|i: int| 0 <= i < tail.len() ==> tail[i] != 58u8,
    ensures
        segment_start(head + tail) == head.len(),
    decreases tail.len(),
{
    if tail.len() == 0 {
        assert(head + tail =~= head);
    } else {
        assert((head + tail).drop_last() =~= head + tail.drop_last());
        assert((head + tail).last() == tail.last());
        lemma_segment_start_after_colon(head, tail.drop_last());
    }
}

/// The text of a serialised string `...:"text";` is `text`: for a UTF-8 plain text whose last
/// part, after its last `:`, is a quote, the UTF-8 bytes of `text`, a quote and `;`, the
/// extracted text is `text`, whatever its length.
pub proof fn law_extracted_text_of_serialised_string(prefix: Seq<u8>, text: Seq<char>)
    requires
        valid_utf8(prefix + seq![58u8, 34u8] + encode_utf8(text) + seq![34u8, 59u8]),
        !encode_utf8(text).contains(58u8),
    ensures
        extracted_text(prefix + seq![58u8, 34u8] + encode_utf8(text) + seq![34u8, 59u8])
            == Ok::<Seq<char>, DecryptionError>(text),
{
    let body = encode_utf8(text);
    let head = prefix + seq![58u8];
    let tail = seq![34u8] + body + seq![34u8, 59u8];
    let plain = prefix + seq![58u8, 34u8] + body + seq![34u8, 59u8];
    assert(plain =~= head + tail);
    assert forall|i: int| 0 <= i < tail.len() implies tail[i] != 58u8 by {
        if 1 <= i < 1 + body.len() {
            assert(tail[i] == body[i - 1]);
            assert(body.contains(body[i - 1]));
        }
    }
    lemma_segment_start_after_colon(head, tail);
    assert(last_segment(plain) =~= tail);
    assert(quoted_value(plain) =~= body);
    encode_utf8_valid_utf8(text);
    encode_utf8_decode_utf8(text);
}

} // verus!
