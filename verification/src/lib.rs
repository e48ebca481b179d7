//! Decryption of encrypted columns read from a data source.

pub mod datasource;
pub mod decryption;
pub mod key_values;
