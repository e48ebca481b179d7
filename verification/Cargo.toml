[package]
name = "aws_kms_decryption"
version = "0.1.0"
edition = "2021"
publish = false

[dependencies]
aes = "0.8"
cbc = { version = "0.1", features = ["alloc"] }
base64 = "0.21"
serde = { version = "1", features = ["derive"] }
serde_json = "1"
tokio = { version = "1", features = ["full"] }
clap = { version = "4", features = ["derive"] }
tracing = "0.1"
tracing-subscriber = "0.3"
futures = "0.3"
time = "0.3"
aws-config = { version = "1", features = ["behavior-version-latest"] }
aws-sdk-kms = "1"
mysql = { version = "*", default-features = false, features = ["minimal"] }
