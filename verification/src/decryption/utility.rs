//! Decryption of a row: the request for its data key, and the decryption of its encrypted values.

use vstd::prelude::*;
use vstd::string::*;
use vstd::utf8::encode_utf8;

use crate::datasource::base::carries_decryption_key;
use crate::datasource::base::RowData;
use crate::datasource::row::Row;
use crate::datasource::utility::base64_decode;
use crate::datasource::utility::decode_base64;
use crate::datasource::utility::is_valid_base64_encoded;
use crate::datasource::ENCRYPTION_CONTEXT;
use crate::datasource::ENCRYPTION_KEY;
use crate::decryption::aes_helper::decrypted_text;
use crate::decryption::aes_helper::get_decrypted_cipher_text;
use crate::decryption::encrypted_cipher_text::cipher_text_document;
use crate::decryption::encrypted_cipher_text::encrypted_cipher_text_document;
use crate::decryption::encrypted_cipher_text::is_twice_base64;
use crate::decryption::encrypted_cipher_text::EncryptedCipherText;
use crate::decryption::DecryptionError;
use crate::key_values::as_map;
use crate::key_values::keys_distinct;
use crate::key_values::lemma_as_map_entry;
use crate::key_values::EntrySeq;
use crate::key_values::KeyValues;

verus! {

/// The data of the `Decryptable` rows, in order.
pub open spec fn decryptable_payloads(rows: Seq<RowData>) -> Seq<KeyValues>
    decreases rows.len(),
{
    if rows.len() == 0 {
        Seq::empty()
    } else {
        let previous = decryptable_payloads(rows.drop_last());
        match rows.last() {
            Row::Decryptable(m) => previous.push(m),
            _ => previous,
        }
    }
}

/// Selecting from two runs of rows one after the other gives the selection from the first run
/// followed by the selection from the second.
pub proof fn law_decryptable_payloads_concat(a: Seq<RowData>, b: Seq<RowData>)
    ensures
        decryptable_payloads(a + b) == decryptable_payloads(a) + decryptable_payloads(b),
    decreases b.len(),
{
    if b.len() == 0 {
        assert(a + b =~= a);
        assert(decryptable_payloads(a) + decryptable_payloads(b) =~= decryptable_payloads(a));
    } else {
        law_decryptable_payloads_concat(a, b.drop_last());
        assert((a + b).drop_last() =~= a + b.drop_last());
        assert((a + b).last() == b.last());
        match b.last() {
            Row::Decryptable(m) => {
                assert(decryptable_payloads(a) + decryptable_payloads(b) =~= (decryptable_payloads(a)
                    + decryptable_payloads(b.drop_last())).push(m));
            },
            _ => {},
        }
    }
}

/// A single `Decryptable` row gives its data; a single row of any other kind gives nothing.
pub proof fn law_decryptable_payloads_single(row: RowData)
    ensures
        decryptable_payloads(seq![row]) == match row {
            Row::Decryptable(m) => seq![m],
            _ => Seq::<KeyValues>::empty(),
        },
{
    assert(seq![row].drop_last() =~= Seq::<RowData>::empty());
    assert(seq![row].last() == row);
    assert(decryptable_payloads(Seq::<RowData>::empty()) == Seq::<KeyValues>::empty());
    match row {
        Row::Decryptable(m) => {
            assert(Seq::<KeyValues>::empty().push(m) =~= seq![m]);
        },
        _ => {},
    }
}

/// The data of every `Decryptable` row is kept, wherever the row stands.
pub proof fn law_every_decryptable_row_is_kept(rows: Seq<RowData>, i: int)
    requires
        0 <= i < rows.len(),
        rows[i] is Decryptable,
    ensures
        decryptable_payloads(rows).contains(rows[i].payload()),
{
    let before = rows.take(i);
    let at = seq![rows[i]];
    let after = rows.skip(i + 1);
    assert(rows =~= before + at + after);
    law_decryptable_payloads_concat(before + at, after);
    law_decryptable_payloads_concat(before, at);
    law_decryptable_payloads_single(rows[i]);
    let kept = decryptable_payloads(before);
    assert(decryptable_payloads(rows) == kept + seq![rows[i].payload()] + decryptable_payloads(
        after,
    ));
    assert(decryptable_payloads(rows)[kept.len() as int] == rows[i].payload());
}

/// Keeps the data of the rows to decrypt: those marked `Decryptable`, in order.
pub fn decryptable_rows(rows: Vec<RowData>) -> (r: Vec<KeyValues>)
    ensures
        r@ == decryptable_payloads(rows@),
        forall|i: int|
            0 <= i < rows@.len() && #[trigger] rows@[i] is Decryptable ==> r@.contains(
                rows@[i].payload(),
            ),
{
    let ghost input = rows@;
    let mut kept: Vec<KeyValues> = Vec::new();
    for row in it: rows.into_iter()
        invariant
            it.seq() == input,
            kept@ == decryptable_payloads(input.take(it.index() as int)),
    {
        let ghost i = it.index() as int;
        proof {
            assert(input.take(i + 1).drop_last() =~= input.take(i));
        }
        match row {
            Row::Decryptable(key_values) => kept.push(key_values),
            _ => {},
        }
    }
    proof {
        assert(input.take(input.len() as int) =~= input);
        assert forall|i: int|
            0 <= i < input.len() && #[trigger] input[i] is Decryptable implies kept@.contains(
                input[i].payload(),
            ) by {
            law_every_decryptable_row_is_kept(input, i);
        }
    }
    kept
}

/// The key under which the encryption context is passed to the key service.
pub const ENCRYPTION_CONTEXT_ID: &'static str = "id";

/// What to ask the key service for: the decryption of the encrypted data key, under the
/// encryption context `{encryption_context_key: encryption_context_value}`.
pub struct KmsDecryptRequest {
    pub ciphertext_blob: Vec<u8>,
    pub encryption_context_key: String,
    pub encryption_context_value: String,
}

/// The request for the data key of a row's data (see [`KmsDecryptRequest`]): the encrypted data
/// key decoded from base64, under the encryption context `{"id": <encryption context>}`.
/// There is one exactly where the row carries what its decryption needs.
pub fn kms_decrypt_request(key_values: &KeyValues) -> (r: Option<KmsDecryptRequest>)
    ensures
        r is Some <==> carries_decryption_key(key_values.map()),
        r is Some <==> {
            &&& key_values.map().contains_key(ENCRYPTION_KEY@)
            &&& key_values.map().contains_key(ENCRYPTION_CONTEXT@)
            &&& base64_decode(encode_utf8(key_values.map()[ENCRYPTION_KEY@])) is Some
        },
        r matches Some(q) ==> {
            &&& Some(q.ciphertext_blob@) == base64_decode(
                encode_utf8(key_values.map()[ENCRYPTION_KEY@]),
            )
            &&& q.encryption_context_key@ == ENCRYPTION_CONTEXT_ID@
            &&& q.encryption_context_value@ == key_values.map()[ENCRYPTION_CONTEXT@]
        },
{
    let encryption_key = match key_values.get(ENCRYPTION_KEY) {
        Some(k) => k,
        None => return None,
    };
    let encryption_context = match key_values.get(ENCRYPTION_CONTEXT) {
        Some(c) => c,
        None => return None,
    };
    match decode_base64(encryption_key.as_str().as_bytes()) {
        Some(encrypted_key) => Some(
            KmsDecryptRequest {
                ciphertext_blob: encrypted_key,
                encryption_context_key: ENCRYPTION_CONTEXT_ID.to_owned(),
                encryption_context_value: encryption_context.clone(),
            },
        ),
        None => None,
    }
}

/// A column whose value is decrypted: it is neither of the two key columns, and its value
/// decodes from base64 twice.
pub open spec fn is_encrypted_entry(key: Seq<char>, value: Seq<char>) -> bool {
    &&& key != ENCRYPTION_KEY@
    &&& key != ENCRYPTION_CONTEXT@
    &&& is_twice_base64(encode_utf8(value))
}

/// Whether the column `key` with value `value` is decrypted (see [`is_encrypted_entry`]).
pub fn is_encrypted_value(key: &String, value: &String) -> (b: bool)
    ensures
        b == is_encrypted_entry(key@, value@),
{
    let encryption_key: String = ENCRYPTION_KEY.to_owned();
    let encryption_context: String = ENCRYPTION_CONTEXT.to_owned();
    if *key == encryption_key || *key == encryption_context {
        return false;
    }
    let bytes = value.as_str().as_bytes();
    if !is_valid_base64_encoded(bytes) {
        return false;
    }
    let once = decode_base64(bytes).unwrap();
    is_valid_base64_encoded(once.as_slice())
}

/// The JSON documents of a row's encrypted values, one per entry in the order of the entries:
/// `Some` document for each encrypted entry (see [`is_encrypted_entry`]), `None` for the others.
/// It fails with `InvalidUtf8` exactly where some encrypted value does not hold UTF-8 text.
pub fn cipher_text_documents(key_values: &KeyValues) -> (r: Result<
    Vec<Option<String>>,
    DecryptionError,
>)
    ensures
        match r {
            Ok(docs) => {
                &&& docs@.len() == key_values@.len()
                &&& forall|i: int|
                    0 <= i < docs@.len() ==> (#[trigger] docs@[i] is Some <==> is_encrypted_entry(
                        key_values@[i].0,
                        key_values@[i].1,
                    ))
                &&& forall|i: int|
                    0 <= i < docs@.len() ==> (#[trigger] docs@[i] matches Some(d) ==> cipher_text_document(
                        encode_utf8(key_values@[i].1),
                    ) == Ok::<Seq<char>, DecryptionError>(d@))
            },
            Err(e) => {
                &&& e == DecryptionError::InvalidUtf8
                &&& exists|i: int|
                    0 <= i < key_values@.len() && is_encrypted_entry(
                        key_values@[i].0,
                        key_values@[i].1,
                    ) && #[trigger] cipher_text_document(encode_utf8(key_values@[i].1)) is Err
            },
        },
{
    let n = key_values.len();
    let mut docs: Vec<Option<String>> = Vec::new();
    let mut i: usize = 0;
    while i < n
        invariant
            n == key_values@.len(),
            i <= n,
            docs@.len() == i,
            forall|j: int|
                0 <= j < i ==> (#[trigger] docs@[j] is Some <==> is_encrypted_entry(
                    key_values@[j].0,
                    key_values@[j].1,
                )),
            forall|j: int|
                0 <= j < i ==> (#[trigger] docs@[j] matches Some(d) ==> cipher_text_document(
                    encode_utf8(key_values@[j].1),
                ) == Ok::<Seq<char>, DecryptionError>(d@)),
        decreases n - i,
    {
        let key = key_values.key_at(i);
        let value = key_values.value_at(i);
        if is_encrypted_value(key, value) {
            match encrypted_cipher_text_document(value.as_str().as_bytes()) {
                Ok(doc) => docs.push(Some(doc)),
                Err(e) => {
                    assert(cipher_text_document(encode_utf8(key_values@[i as int].1)) is Err);
                    return Err(e);
                },
            }
        } else {
            docs.push(None);
        }
        i = i + 1;
    }
    Ok(docs)
}

/// The view of the parsed documents of a row's values.
pub open spec fn cipher_texts_view(cipher_texts: Seq<Option<EncryptedCipherText>>) -> Seq<
    Option<(Seq<char>, Seq<char>)>,
> {
    cipher_texts.map_values(
        |c: Option<EncryptedCipherText>|
            match c {
                Some(t) => Some((t.iv@, t.value@)),
                None => None,
            },
    )
}

/// The text of entry `i`'s encrypted value, decrypted with `key` from its parsed document.
pub open spec fn entry_decryption(
    key: Seq<u8>,
    cipher_texts: Seq<Option<(Seq<char>, Seq<char>)>>,
    i: int,
) -> Result<Seq<char>, DecryptionError> {
    decrypted_text(key, cipher_texts[i].unwrap().0, cipher_texts[i].unwrap().1)
}

/// The entries with each encrypted value replaced by its decrypted text.
pub open spec fn decrypted_entries(
    entries: EntrySeq,
    key: Seq<u8>,
    cipher_texts: Seq<Option<(Seq<char>, Seq<char>)>>,
) -> EntrySeq {
    Seq::new(
        entries.len(),
        |i: int|
            if is_encrypted_entry(entries[i].0, entries[i].1) {
                (
                    entries[i].0,
                    match entry_decryption(key, cipher_texts, i) {
                        Ok(t) => t,
                        Err(_) => entries[i].1,
                    },
                )
            } else {
                entries[i]
            },
    )
}

/// The data of a decrypted row: every encrypted value replaced by its text, and the two key
/// columns removed.
pub open spec fn decrypted_row(
    entries: EntrySeq,
    key: Seq<u8>,
    cipher_texts: Seq<Option<(Seq<char>, Seq<char>)>>,
) -> Map<Seq<char>, Seq<char>> {
    as_map(decrypted_entries(entries, key, cipher_texts)).remove(ENCRYPTION_KEY@).remove(
        ENCRYPTION_CONTEXT@,
    )
}

/// Decrypts a row's data with its plain-text data key, given the parsed document of each
/// encrypted value (in the order of the entries, `None` for the other entries). It fails with
/// the error of the first encrypted value that cannot be decrypted.
pub fn decrypt_key_values(
    key_values: KeyValues,
    plain_text_key_bytes: &[u8],
    cipher_texts: Vec<Option<EncryptedCipherText>>,
) -> (r: Result<KeyValues, DecryptionError>)
    requires
        cipher_texts@.len() == key_values@.len(),
        forall|i: int|
            0 <= i < cipher_texts@.len() ==> (#[trigger] cipher_texts@[i] is Some
                <==> is_encrypted_entry(key_values@[i].0, key_values@[i].1)),
    ensures
        match r {
            Ok(decrypted) => {
                &&& forall|i: int|
                    0 <= i < key_values@.len() && #[trigger] is_encrypted_entry(
                        key_values@[i].0,
                        key_values@[i].1,
                    ) ==> entry_decryption(
                        plain_text_key_bytes@,
                        cipher_texts_view(cipher_texts@),
                        i,
                    ) is Ok
                &&& decrypted.map() == decrypted_row(
                    key_values@,
                    plain_text_key_bytes@,
                    cipher_texts_view(cipher_texts@),
                )
                &&& forall|i: int|
                    0 <= i < key_values@.len() && #[trigger] is_encrypted_entry(
                        key_values@[i].0,
                        key_values@[i].1,
                    ) ==> {
                        &&& decrypted.map().contains_key(key_values@[i].0)
                        &&& Ok::<Seq<char>, DecryptionError>(decrypted.map()[key_values@[i].0])
                            == decrypted_text(
                            plain_text_key_bytes@,
                            cipher_texts@[i].unwrap().iv@,
                            cipher_texts@[i].unwrap().value@,
                        )
                    }
            },
            Err(e) => exists|i: int|
                {
                    &&& 0 <= i < key_values@.len()
                    &&& is_encrypted_entry(key_values@[i].0, key_values@[i].1)
                    &&& #[trigger] entry_decryption(
                        plain_text_key_bytes@,
                        cipher_texts_view(cipher_texts@),
                        i,
                    ) == Err::<Seq<char>, DecryptionError>(e)
                    &&& forall|j: int|
                        0 <= j < i && is_encrypted_entry(key_values@[j].0, key_values@[j].1)
                            ==> entry_decryption(
                            plain_text_key_bytes@,
                            cipher_texts_view(cipher_texts@),
                            j,
                        ) is Ok
                },
        },
{
    let ghost original = key_values@;
    let ghost texts = cipher_texts_view(cipher_texts@);
    let ghost key = plain_text_key_bytes@;
    proof {
        use_type_invariant(&key_values);
    }
    let mut kv = key_values;
    let n = kv.len();
    let mut i: usize = 0;
    while i < n
        invariant
            n == original.len(),
            original == key_values@,
            keys_distinct(original),
            i <= n,
            kv@.len() == n,
            texts == cipher_texts_view(cipher_texts@),
            cipher_texts@.len() == n,
            key == plain_text_key_bytes@,
            forall|j: int|
                0 <= j < n ==> (#[trigger] cipher_texts@[j] is Some <==> is_encrypted_entry(
                    original[j].0,
                    original[j].1,
                )),
            forall|j: int|
                0 <= j < i && is_encrypted_entry(original[j].0, original[j].1)
                    ==> #[trigger] entry_decryption(key, texts, j) is Ok,
            forall|j: int|
                0 <= j < i ==> #[trigger] kv@[j] == decrypted_entries(original, key, texts)[j],
            forall|j: int| i <= j < n ==> #[trigger] kv@[j] == original[j],
        decreases n - i,
    {
        let is_encrypted = is_encrypted_value(kv.key_at(i), kv.value_at(i));
        if is_encrypted {
            let cipher_text = cipher_texts[i].as_ref().unwrap();
            proof {
                assert(texts[i as int] == Some((cipher_text.iv@, cipher_text.value@)));
            }
            match get_decrypted_cipher_text(plain_text_key_bytes, cipher_text) {
                Ok(text) => {
                    kv.set_value_at(i, text);
                },
                Err(e) => {
                    proof {
                        assert(entry_decryption(key, texts, i as int) == Err::<
                            Seq<char>,
                            DecryptionError,
                        >(e));
                    }
                    return Err(e);
                },
            }
        }
        i = i + 1;
    }
    assert(kv@ =~= decrypted_entries(original, key, texts));
    kv.remove(ENCRYPTION_KEY);
    kv.remove(ENCRYPTION_CONTEXT);
    proof {
        assert forall|i: int|
            0 <= i < original.len() && #[trigger] is_encrypted_entry(original[i].0, original[i].1)
            implies {
            &&& kv.map().contains_key(original[i].0)
            &&& Ok::<Seq<char>, DecryptionError>(kv.map()[original[i].0]) == decrypted_text(
                key,
                cipher_texts@[i].unwrap().iv@,
                cipher_texts@[i].unwrap().value@,
            )
        } by {
            assert(texts[i] == Some((cipher_texts@[i].unwrap().iv@, cipher_texts@[i].unwrap().value@)));
            assert(entry_decryption(key, texts, i) is Ok);
            law_every_encrypted_column_is_decrypted(original, key, texts, i);
        }
    }
    Ok(kv)
}

/// A decrypted row holds neither key column; every other column of the row stays, and keeps
/// its value unless that value was encrypted.
pub proof fn law_decrypted_row_keeps_other_columns(
    entries: EntrySeq,
    key: Seq<u8>,
    cipher_texts: Seq<Option<(Seq<char>, Seq<char>)>>,
    column: Seq<char>,
)
    requires
        keys_distinct(entries),
    ensures
        !decrypted_row(entries, key, cipher_texts).contains_key(ENCRYPTION_KEY@),
        !decrypted_row(entries, key, cipher_texts).contains_key(ENCRYPTION_CONTEXT@),
        column != ENCRYPTION_KEY@ && column != ENCRYPTION_CONTEXT@ ==> (decrypted_row(
            entries,
            key,
            cipher_texts,
        ).contains_key(column) <==> as_map(entries).contains_key(column)),
        column != ENCRYPTION_KEY@ && column != ENCRYPTION_CONTEXT@ && as_map(entries).contains_key(
            column,
        ) && !is_encrypted_entry(column, as_map(entries)[column]) ==> decrypted_row(
            entries,
            key,
            cipher_texts,
        )[column] == as_map(entries)[column],
{
    let d = decrypted_entries(entries, key, cipher_texts);
    assert(forall|i: int| 0 <= i < d.len() ==> #[trigger] d[i].0 == entries[i].0);
    assert(keys_distinct(d));
    if as_map(entries).contains_key(column) {
        let j = choose|j: int| 0 <= j < entries.len() && #[trigger] entries[j].0 == column;
        lemma_as_map_entry(entries, j);
        lemma_as_map_entry(d, j);
    }
    if as_map(d).contains_key(column) {
        let j = choose|j: int| 0 <= j < d.len() && #[trigger] d[j].0 == column;
        assert(entries[j].0 == column);
    }
}

/// In a decrypted row, every column whose value was encrypted holds the text decrypted, with the
/// row's data key, from that column's own cipher text.
pub proof fn law_every_encrypted_column_is_decrypted(
    entries: EntrySeq,
    key: Seq<u8>,
    cipher_texts: Seq<Option<(Seq<char>, Seq<char>)>>,
    i: int,
)
    requires
        keys_distinct(entries),
        0 <= i < entries.len(),
        is_encrypted_entry(entries[i].0, entries[i].1),
        decrypted_text(key, cipher_texts[i].unwrap().0, cipher_texts[i].unwrap().1) is Ok,
    ensures
        decrypted_row(entries, key, cipher_texts).contains_key(entries[i].0),
        Ok::<Seq<char>, DecryptionError>(decrypted_row(entries, key, cipher_texts)[entries[i].0])
            == decrypted_text(key, cipher_texts[i].unwrap().0, cipher_texts[i].unwrap().1),
{
    let d = decrypted_entries(entries, key, cipher_texts);
    assert(forall|j: int| 0 <= j < d.len() ==> #[trigger] d[j].0 == entries[j].0);
    assert(keys_distinct(d));
    lemma_as_map_entry(d, i);
}

} // verus!
