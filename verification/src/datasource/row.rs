//! A row of a data source, tagged with what is known of it.

use vstd::prelude::*;

verus! {

/// A row as read (`Generic`), or after its check: `Decryptable` when it carries what its
/// decryption needs, `NonDecryptable` when it does not.
pub enum Row<T> {
    Generic(T),
    Decryptable(T),
    NonDecryptable(T),
}

impl<T> Row<T> {
    /// The data of the row, whatever its tag.
    pub open spec fn payload(self) -> T {
        match self {
            Row::Generic(t) => t,
            Row::Decryptable(t) => t,
            Row::NonDecryptable(t) => t,
        }
    }
}

} // verus!
