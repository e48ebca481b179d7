# aws_kms_decryption

Reads rows from a MySQL data source, decrypts the encrypted columns of each row with a data key
obtained from AWS KMS, and writes every decrypted row as one line of JSON.

- `src/` is the verified library (Verus):
  - `key_values` — string keys to string values, each key once, with a map view;
  - `datasource` — rows and their classification, the data-source builder and the MySQL
    configuration (connection URL, query), base64 and UTF-8 decoding;
  - `decryption` — the key-service request for a row, the base64/JSON framing of encrypted
    values, AES-256-CBC decryption and the extraction of the stored text, and the decryption of
    a whole row.
- `app/` is the program around it: argument parsing, the environment, the MySQL connection,
  the AWS KMS call, JSON parsing and output, and the task orchestration.
- `tests/` exercises the library on concrete values.
