use aes::cipher::block_padding::Pkcs7;
use aes::cipher::BlockEncryptMut;
use aes::cipher::KeyIvInit;
use base64::Engine;

use aws_kms_decryption::datasource::base::check_row;
use aws_kms_decryption::datasource::base::check_rows;
use aws_kms_decryption::datasource::base::row_from_columns;
use aws_kms_decryption::datasource::base::RowData;
use aws_kms_decryption::datasource::builder::names_mysql;
use aws_kms_decryption::datasource::builder::DataSourceBuilder;
use aws_kms_decryption::datasource::builder::DataSourceError;
use aws_kms_decryption::datasource::mysql::mysql_connection_url;
use aws_kms_decryption::datasource::mysql::MySQLDataSource;
use aws_kms_decryption::datasource::row::Row;
use aws_kms_decryption::datasource::utility::is_valid_base64_encoded;
use aws_kms_decryption::datasource::ENCRYPTION_CONTEXT;
use aws_kms_decryption::datasource::ENCRYPTION_KEY;
use aws_kms_decryption::decryption::aes_helper::extract_text;
use aws_kms_decryption::decryption::aes_helper::get_decrypted_cipher_text;
use aws_kms_decryption::decryption::encrypted_cipher_text::encrypted_cipher_text_document;
use aws_kms_decryption::decryption::encrypted_cipher_text::EncryptedCipherText;
use aws_kms_decryption::decryption::utility::cipher_text_documents;
use aws_kms_decryption::decryption::utility::decrypt_key_values;
use aws_kms_decryption::decryption::utility::is_encrypted_value;
use aws_kms_decryption::decryption::utility::kms_decrypt_request;
use aws_kms_decryption::decryption::DecryptionError;
use aws_kms_decryption::key_values::KeyValues;

const KEY: [u8; 32] = [7u8; 32];
const IV: [u8; 16] = [3u8; 16];

fn b64(bytes: &[u8]) -> String {
    base64::engine::general_purpose::STANDARD.encode(bytes)
}

fn encrypt(key: &[u8], iv: &[u8], plain: &[u8]) -> Vec<u8> {
    cbc::Encryptor::<aes::Aes256>::new_from_slices(key, iv)
        .unwrap()
        .encrypt_padded_vec_mut::<Pkcs7>(plain)
}

fn cipher_text_for(plain: &[u8]) -> EncryptedCipherText {
    EncryptedCipherText { iv: b64(&IV), value: b64(&encrypt(&KEY, &IV, plain)) }
}

fn encrypted_column(plain: &str) -> String {
    let ct = cipher_text_for(plain.as_bytes());
    let json = format!("{{\"iv\":\"{}\",\"value\":\"{}\",\"mac\":\"00\"}}", ct.iv, ct.value);
    b64(b64(json.as_bytes()).as_bytes())
}

fn kv(pairs: &[(&str, &str)]) -> KeyValues {
    let mut m = KeyValues::new();
    for (k, v) in pairs {
        m.insert(k.to_string(), v.to_string());
    }
    m
}

fn get(m: &KeyValues, k: &str) -> Option<String> {
    m.get(k).cloned()
}

fn payload(row: &RowData) -> &KeyValues {
    match row {
        Row::Generic(m) | Row::Decryptable(m) | Row::NonDecryptable(m) => m,
    }
}

#[test]
fn key_values_insert_overwrites_and_keeps_order() {
    let mut m = KeyValues::new();
    assert_eq!(m.insert("a".to_string(), "1".to_string()), None);
    assert_eq!(m.insert("b".to_string(), "2".to_string()), None);
    assert_eq!(m.insert("a".to_string(), "3".to_string()), Some("1".to_string()));
    assert_eq!(m.len(), 2);
    assert_eq!(m.key_at(0), "a");
    assert_eq!(m.value_at(0), "3");
    assert_eq!(m.key_at(1), "b");
    assert_eq!(get(&m, "a"), Some("3".to_string()));
    assert!(m.contains_key("b"));
    assert!(!m.contains_key("c"));
    assert_eq!(m.position("b"), Some(1));
}

#[test]
fn key_values_remove() {
    let mut m = kv(&[("a", "1"), ("b", "2"), ("c", "3")]);
    assert_eq!(m.remove("b"), Some("2".to_string()));
    assert_eq!(m.remove("b"), None);
    assert_eq!(m.len(), 2);
    assert_eq!(m.key_at(0), "a");
    assert_eq!(m.key_at(1), "c");
    assert_eq!(get(&m, "b"), None);
}

#[test]
fn key_values_set_value_at_and_insert_pairs() {
    let mut m = kv(&[("a", "1")]);
    m.set_value_at(0, "9".to_string());
    assert_eq!(get(&m, "a"), Some("9".to_string()));
    m.insert_pairs(vec![
        ("x".to_string(), "1".to_string()),
        ("x".to_string(), "2".to_string()),
    ]);
    assert_eq!(get(&m, "x"), Some("2".to_string()));
    assert_eq!(m.len(), 2);
}

#[test]
fn builder_set_and_get_config() {
    let b = DataSourceBuilder::new("mysql").set_config("query", "select 1");
    assert_eq!(b.get_config("query"), Some(&"select 1".to_string()));
    assert_eq!(b.get_config("missing"), None);
    let b = b.set_config("query", "select 2");
    assert_eq!(b.get_config("query"), Some(&"select 2".to_string()));
    let d = DataSourceBuilder::default();
    assert_eq!(d.get_config("query"), None);
}

fn mysql_builder(kind: &str) -> DataSourceBuilder {
    DataSourceBuilder::new(kind)
        .set_config("MYSQL_USER", "user")
        .set_config("MYSQL_PASSWORD", "pw")
        .set_config("MYSQL_HOST_NAME", "db.example")
        .set_config("MYSQL_PORT", "3306")
        .set_config("MYSQL_DATABASE", "app")
        .set_config("query", "select * from t")
}

#[test]
fn load_mysql_in_any_case() {
    for kind in ["mysql", "MySQL", "MYSQL"] {
        let ds: MySQLDataSource = mysql_builder(kind).load().ok().unwrap();
        assert_eq!(ds.connection_url, "mysql://user:pw@db.example:3306/app");
        assert_eq!(ds.query_string, "select * from t");
    }
}

#[test]
fn load_unsupported_type() {
    let r = DataSourceBuilder::new("postgres").load();
    let e = r.err().unwrap();
    assert_eq!(e, DataSourceError::UnsupportedDataSourceType);
    assert_eq!(e.message(), "unsupported data source type!!!");
    assert!(DataSourceBuilder::new("mysqll").load().is_err());
    assert!(DataSourceBuilder::new("").load().is_err());
}

#[test]
fn names_mysql_ignores_ascii_case_only() {
    assert!(names_mysql("mYsQl"));
    assert!(!names_mysql("my sql"));
    assert!(!names_mysql("mysq"));
    assert!(!names_mysql("MYſQL"));
}

#[test]
fn load_from_env_overrides_config() {
    let b = mysql_builder("mysql").set_config("MYSQL_PORT", "1");
    let vars = vec![
        ("MYSQL_PORT".to_string(), "2".to_string()),
        ("MYSQL_PORT".to_string(), "3307".to_string()),
        ("HOME".to_string(), "/root".to_string()),
    ];
    let ds = b.load_from_env(vars).ok().unwrap();
    assert_eq!(ds.connection_url, "mysql://user:pw@db.example:3307/app");
}

#[test]
fn mysql_data_source_new_builds_url() {
    let ds = MySQLDataSource::new(mysql_builder("mysql")).ok().unwrap();
    assert_eq!(ds.connection_url, "mysql://user:pw@db.example:3306/app");
    assert_eq!(
        mysql_connection_url("a", "b@c", "h", "1", "d"),
        "mysql://a:b@c@h:1/d"
    );
}

#[test]
fn base64_validity() {
    assert!(is_valid_base64_encoded(b"aGVsbG8="));
    assert!(is_valid_base64_encoded(b""));
    assert!(!is_valid_base64_encoded(b"not base64!"));
    assert!(!is_valid_base64_encoded(b"aGVsbG8"));
}

#[test]
fn check_row_classifies_generic_rows() {
    let good = Row::Generic(kv(&[(ENCRYPTION_KEY, "aGVsbG8="), (ENCRYPTION_CONTEXT, "42"), ("x", "1")]));
    let checked = check_row(good);
    assert!(matches!(checked, Row::Decryptable(_)));
    assert_eq!(get(payload(&checked), "x"), Some("1".to_string()));

    let no_context = Row::Generic(kv(&[(ENCRYPTION_KEY, "aGVsbG8=")]));
    assert!(matches!(check_row(no_context), Row::NonDecryptable(_)));

    let bad_key = Row::Generic(kv(&[(ENCRYPTION_KEY, "??"), (ENCRYPTION_CONTEXT, "42")]));
    assert!(matches!(check_row(bad_key), Row::NonDecryptable(_)));

    let already = Row::NonDecryptable(kv(&[(ENCRYPTION_KEY, "aGVsbG8="), (ENCRYPTION_CONTEXT, "42")]));
    assert!(matches!(check_row(already), Row::NonDecryptable(_)));
}

#[test]
fn check_rows_keeps_order_and_is_idempotent() {
    let rows = vec![
        Row::Generic(kv(&[("a", "1")])),
        Row::Generic(kv(&[(ENCRYPTION_KEY, "aGVsbG8="), (ENCRYPTION_CONTEXT, "c")])),
    ];
    let checked = check_rows(rows);
    assert_eq!(checked.len(), 2);
    assert!(matches!(checked[0], Row::NonDecryptable(_)));
    assert!(matches!(checked[1], Row::Decryptable(_)));
    let again = check_rows(checked);
    assert!(matches!(again[0], Row::NonDecryptable(_)));
    assert!(matches!(again[1], Row::Decryptable(_)));
}

#[test]
fn row_from_columns_skips_nulls() {
    let row = row_from_columns(vec![
        ("a".to_string(), Some("1".to_string())),
        ("b".to_string(), None),
        ("a".to_string(), Some("2".to_string())),
    ]);
    match row {
        Row::Generic(m) => {
            assert_eq!(m.len(), 1);
            assert_eq!(get(&m, "a"), Some("2".to_string()));
            assert!(!m.contains_key("b"));
        }
        _ => panic!("not generic"),
    }
}

#[test]
fn kms_request_from_row() {
    let m = kv(&[(ENCRYPTION_KEY, "aGVsbG8="), (ENCRYPTION_CONTEXT, "ctx")]);
    let q = kms_decrypt_request(&m).unwrap();
    assert_eq!(q.ciphertext_blob, b"hello".to_vec());
    assert_eq!(q.encryption_context_key, "id");
    assert_eq!(q.encryption_context_value, "ctx");
    assert!(kms_decrypt_request(&kv(&[(ENCRYPTION_KEY, "aGVsbG8=")])).is_none());
    assert!(kms_decrypt_request(&kv(&[(ENCRYPTION_KEY, "!"), (ENCRYPTION_CONTEXT, "c")])).is_none());
}

#[test]
fn encrypted_values_are_recognised() {
    let twice = b64(b64(b"{}").as_bytes());
    assert!(is_encrypted_value(&"name".to_string(), &twice));
    assert!(!is_encrypted_value(&ENCRYPTION_KEY.to_string(), &twice));
    assert!(!is_encrypted_value(&ENCRYPTION_CONTEXT.to_string(), &twice));
    assert!(!is_encrypted_value(&"name".to_string(), &"plain text".to_string()));
    // valid base64 once, but its decoding is not base64
    assert!(!is_encrypted_value(&"name".to_string(), &b64(b"!!")));
}

#[test]
fn document_of_encrypted_value() {
    let value = b64(b64(b"{\"iv\":\"x\"}").as_bytes());
    assert_eq!(
        encrypted_cipher_text_document(value.as_bytes()),
        Ok("{\"iv\":\"x\"}".to_string())
    );
    let invalid = b64(b64(&[0xff, 0xfe]).as_bytes());
    assert_eq!(
        encrypted_cipher_text_document(invalid.as_bytes()),
        Err(DecryptionError::InvalidUtf8)
    );
}

#[test]
fn extract_text_of_serialised_string() {
    assert_eq!(extract_text(b"s:5:\"hello\";"), Ok("hello".to_string()));
    assert_eq!(extract_text(b"\"\";"), Ok(String::new()));
    assert_eq!(extract_text(b"a:b"), Err(DecryptionError::MalformedPlainText));
    assert_eq!(extract_text(b"ab"), Err(DecryptionError::MalformedPlainText));
    assert_eq!(extract_text(&[0xff, b':', b'a', b'b', b'c']), Err(DecryptionError::InvalidUtf8));
    // "éab": the cut would split the two bytes of 'é'
    assert_eq!(extract_text(&[0xc3, 0xa9, b'a', b'b']), Err(DecryptionError::MalformedPlainText));
    assert_eq!(extract_text("x:\"é\";".as_bytes()), Ok("é".to_string()));
}

#[test]
fn decrypt_one_value() {
    let ct = cipher_text_for(b"s:5:\"hello\";");
    assert_eq!(get_decrypted_cipher_text(&KEY, &ct), Ok("hello".to_string()));
}

#[test]
fn decrypt_errors() {
    let ct = cipher_text_for(b"s:5:\"hello\";");
    assert_eq!(
        get_decrypted_cipher_text(&KEY[..31], &ct),
        Err(DecryptionError::InvalidKeyOrIvLength)
    );
    let bad_iv = EncryptedCipherText { iv: "%%".to_string(), value: ct.value.clone() };
    assert_eq!(get_decrypted_cipher_text(&KEY, &bad_iv), Err(DecryptionError::InvalidBase64));
    let short_iv = EncryptedCipherText { iv: b64(&[1u8; 8]), value: ct.value.clone() };
    assert_eq!(
        get_decrypted_cipher_text(&KEY, &short_iv),
        Err(DecryptionError::InvalidKeyOrIvLength)
    );
    let bad_value = EncryptedCipherText { iv: ct.iv.clone(), value: "%%".to_string() };
    assert_eq!(get_decrypted_cipher_text(&KEY, &bad_value), Err(DecryptionError::InvalidBase64));
    let partial = EncryptedCipherText { iv: ct.iv.clone(), value: b64(&[0u8; 15]) };
    assert_eq!(get_decrypted_cipher_text(&KEY, &partial), Err(DecryptionError::InvalidPadding));
    let not_text = cipher_text_for(&[0xff, 0xff, b':', b'a', b'b', b'c']);
    assert_eq!(get_decrypted_cipher_text(&KEY, &not_text), Err(DecryptionError::InvalidUtf8));
    let no_quotes = cipher_text_for(b"s:1:x");
    assert_eq!(
        get_decrypted_cipher_text(&KEY, &no_quotes),
        Err(DecryptionError::MalformedPlainText)
    );
}

fn parse_document(doc: &str) -> EncryptedCipherText {
    let v: serde_json::Value = serde_json::from_str(doc).unwrap();
    EncryptedCipherText {
        iv: v["iv"].as_str().unwrap().to_string(),
        value: v["value"].as_str().unwrap().to_string(),
    }
}

#[test]
fn decrypt_a_row() {
    let secret = encrypted_column("s:6:\"secret\";");
    let m = kv(&[
        (ENCRYPTION_KEY, "aGVsbG8="),
        (ENCRYPTION_CONTEXT, "ctx"),
        ("id", "17"),
        ("name", secret.as_str()),
    ]);
    let docs = cipher_text_documents(&m).unwrap();
    assert_eq!(docs.len(), 4);
    assert!(docs[0].is_none() && docs[1].is_none() && docs[2].is_none());
    assert!(docs[3].is_some());
    let parsed: Vec<Option<EncryptedCipherText>> =
        docs.iter().map(|d| d.as_deref().map(parse_document)).collect();
    let out = decrypt_key_values(m, &KEY, parsed).unwrap();
    assert_eq!(out.len(), 2);
    assert_eq!(get(&out, "id"), Some("17".to_string()));
    assert_eq!(get(&out, "name"), Some("secret".to_string()));
    assert!(!out.contains_key(ENCRYPTION_KEY));
    assert!(!out.contains_key(ENCRYPTION_CONTEXT));
}

#[test]
fn decrypt_a_row_reports_the_failure() {
    let secret = encrypted_column("s:6:\"secret\";");
    let m = kv(&[(ENCRYPTION_KEY, "aGVsbG8="), ("name", secret.as_str())]);
    let docs = cipher_text_documents(&m).unwrap();
    let parsed: Vec<Option<EncryptedCipherText>> =
        docs.iter().map(|d| d.as_deref().map(parse_document)).collect();
    let wrong_key = [9u8; 32];
    let r = decrypt_key_values(m, &wrong_key, parsed);
    // a wrong key almost always leaves malformed padding or text behind
    assert!(r.is_err());
}

#[test]
fn documents_of_a_row_with_invalid_text() {
    let bad = b64(b64(&[0xff]).as_bytes());
    let m = kv(&[("a", "1"), ("b", bad.as_str())]);
    assert_eq!(cipher_text_documents(&m).err(), Some(DecryptionError::InvalidUtf8));
}
