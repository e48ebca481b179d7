//! Rows read from a data source, their classification, and the data-source configuration.

pub mod base;
pub mod builder;
pub mod mysql;
pub mod row;
pub mod utility;

use vstd::prelude::*;

verus! {

/// The column that holds the encrypted data key of a row.
pub const ENCRYPTION_KEY: &'static str = "encryption_key";

/// The column that holds the encryption context of a row.
pub const ENCRYPTION_CONTEXT: &'static str = "encryption_context";

} // verus!
