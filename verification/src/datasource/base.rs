//! Reading rows from a data source and checking whether each can be decrypted.

use vstd::prelude::*;
use vstd::string::*;
use vstd::utf8::encode_utf8;

use crate::datasource::row::Row;
use crate::datasource::utility::base64_decode;
use crate::datasource::utility::is_valid_base64_encoded;
use crate::datasource::ENCRYPTION_CONTEXT;
use crate::datasource::ENCRYPTION_KEY;
use crate::key_values::KeyValues;

verus! {

/// A row whose data maps column names to values.
pub type RowData = Row<KeyValues>;

/// The data of a row names both the encrypted data key and the encryption context,
/// and the encrypted data key is valid base64.
pub open spec fn carries_decryption_key(m: Map<Seq<char>, Seq<char>>) -> bool {
    &&& m.contains_key(ENCRYPTION_KEY@)
    &&& m.contains_key(ENCRYPTION_CONTEXT@)
    &&& base64_decode(encode_utf8(m[ENCRYPTION_KEY@])) is Some
}

/// A row after its check: a `Generic` row becomes `Decryptable` when its data carries what
/// the decryption needs and `NonDecryptable` when it does not; a row already checked stays.
pub open spec fn checked_row(row: RowData) -> RowData {
    match row {
        Row::Generic(m) => if carries_decryption_key(m.map()) {
            Row::Decryptable(m)
        } else {
            Row::NonDecryptable(m)
        },
        _ => row,
    }
}

/// Checks one row (see [`checked_row`]).
pub fn check_row(row: RowData) -> (r: RowData)
    ensures
        r == checked_row(row),
        row is Generic ==> (r is Decryptable <==> {
            &&& row.payload().map().contains_key(ENCRYPTION_KEY@)
            &&& row.payload().map().contains_key(ENCRYPTION_CONTEXT@)
            &&& base64_decode(encode_utf8(row.payload().map()[ENCRYPTION_KEY@])) is Some
        }),
        r.payload() == row.payload(),
{
    match row {
        Row::Generic(row_data) => {
            let decryptable = if row_data.contains_key(ENCRYPTION_KEY) && row_data.contains_key(
                ENCRYPTION_CONTEXT,
            ) {
                let key = row_data.get(ENCRYPTION_KEY).unwrap();
                is_valid_base64_encoded(key.as_str().as_bytes())
            } else {
                false
            };
            if decryptable {
                Row::Decryptable(row_data)
            } else {
                Row::NonDecryptable(row_data)
            }
        },
        _ => row,
    }
}

/// Checks each row, keeping their order.
pub fn check_rows(rows: Vec<RowData>) -> (r: Vec<RowData>)
    ensures
        r@.len() == rows@.len(),
        forall|i: int| 0 <= i < rows@.len() ==> #[trigger] r@[i] == checked_row(rows@[i]),
{
    let ghost input = rows@;
    let mut checked: Vec<RowData> = Vec::new();
    for row in it: rows.into_iter()
        invariant
            it.seq() == input,
            checked@.len() == it.index(),
            forall|i: int| 0 <= i < it.index() ==> #[trigger] checked@[i] == checked_row(input[i]),
    {
        checked.push(check_row(row));
    }
    checked
}

/// The view of a row's columns as read: each column's name and its value, `None` for SQL NULL.
pub open spec fn columns_view(columns: Seq<(String, Option<String>)>) -> Seq<
    (Seq<char>, Option<Seq<char>>),
> {
    columns.map_values(
        |c: (String, Option<String>)|
            (
                c.0@,
                match c.1 {
                    Some(v) => Some(v@),
                    None => None,
                },
            ),
    )
}

/// The data of a row read from columns: each column with a value, under its name; a NULL column
/// is left out, and a later column of the same name wins.
pub open spec fn column_map(columns: Seq<(Seq<char>, Option<Seq<char>>)>) -> Map<
    Seq<char>,
    Seq<char>,
>
    decreases columns.len(),
{
    if columns.len() == 0 {
        Map::empty()
    } else {
        let previous = column_map(columns.drop_last());
        match columns.last().1 {
            Some(v) => previous.insert(columns.last().0, v),
            None => previous,
        }
    }
}

/// Builds an unchecked row from the columns of a query result (`None` stands for SQL NULL).
pub fn row_from_columns(columns: Vec<(String, Option<String>)>) -> (r: RowData)
    ensures
        r matches Row::Generic(m) && m.map() == column_map(columns_view(columns@)),
        r matches Row::Generic(m) && forall|i: int|
            0 <= i < columns@.len() && #[trigger] columns@[i].1 is Some && (forall|j: int|
                i < j < columns@.len() ==> columns@[j].0@ != columns@[i].0@ || columns@[j].1 is None)
                ==> m.map().contains_key(columns@[i].0@) && m.map()[columns@[i].0@]
                == columns@[i].1.unwrap()@,
{
    let ghost input = columns@;
    let mut key_values = KeyValues::new();
    for column in it: columns.into_iter()
        invariant
            it.seq() == input,
            key_values.map() == column_map(columns_view(input.take(it.index() as int))),
    {
        let ghost i = it.index() as int;
        proof {
            assert(columns_view(input.take(i + 1)).drop_last() =~= columns_view(input.take(i)));
        }
        let (name, value) = column;
        match value {
            Some(v) => {
                key_values.insert(name, v);
            },
            None => {},
        }
    }
    proof {
        assert(input.take(input.len() as int) =~= input);
        let view = columns_view(input);
        assert forall|i: int|
            0 <= i < input.len() && #[trigger] input[i].1 is Some && (forall|j: int|
                i < j < input.len() ==> input[j].0@ != input[i].0@ || input[j].1 is None)
            implies key_values.map().contains_key(input[i].0@) && key_values.map()[input[i].0@]
            == input[i].1.unwrap()@ by {
            assert(view[i] == (input[i].0@, Some(input[i].1.unwrap()@)));
            assert forall|j: int| i < j < view.len() implies view[j].0 != view[i].0
                || view[j].1 is None by {
                assert(view[j].0 == input[j].0@);
                assert(input[j].1 is None ==> view[j].1 is None);
            }
            law_every_valued_column_is_kept(view, i);
        }
    }
    Row::Generic(key_values)
}

/// A checked row is never `Generic`, and its data is the data of the row before the check.
pub proof fn law_checked_row_is_classified(row: RowData)
    ensures
        !(checked_row(row) is Generic),
        checked_row(row).payload() == row.payload(),
{
}

/// Checking a row a second time changes nothing.
pub proof fn law_check_row_idempotent(row: RowData)
    ensures
        checked_row(checked_row(row)) == checked_row(row),
{
}

/// A row as read is marked `Decryptable` exactly when its data carries what its decryption
/// needs, which is when a request for its data key can be made
/// (see `decryption::utility::kms_decrypt_request`).
pub proof fn law_checked_row_decryptable(row: RowData)
    requires
        row is Generic,
    ensures
        checked_row(row) is Decryptable <==> carries_decryption_key(row.payload().map()),
        checked_row(row) is NonDecryptable <==> !carries_decryption_key(row.payload().map()),
{
}

/// A row as read is marked `Decryptable` exactly when it has both the encrypted-key column and
/// the encryption-context column and the encrypted key decodes as base64 (any key that
/// `base64::decode` accepts, whatever characters of the standard alphabet it uses).
pub proof fn law_generic_row_with_base64_key_is_decryptable(row: RowData)
    requires
        row is Generic,
    ensures
        checked_row(row) is Decryptable <==> {
            &&& row.payload().map().contains_key(ENCRYPTION_KEY@)
            &&& row.payload().map().contains_key(ENCRYPTION_CONTEXT@)
            &&& base64_decode(encode_utf8(row.payload().map()[ENCRYPTION_KEY@])) is Some
        },
{
}

/// Every column that holds a value (`Some`, the empty string included) is in the row built from
/// the columns, with the value of the last such column of its name.
pub proof fn law_every_valued_column_is_kept(
    columns: Seq<(Seq<char>, Option<Seq<char>>)>,
    i: int,
)
    requires
        0 <= i < columns.len(),
        columns[i].1 is Some,
        forall|j: int|
            i < j < columns.len() ==> columns[j].0 != columns[i].0 || columns[j].1 is None,
    ensures
        column_map(columns).contains_key(columns[i].0),
        column_map(columns)[columns[i].0] == columns[i].1.unwrap(),
    decreases columns.len(),
{
    if i < columns.len() - 1 {
        let shorter = columns.drop_last();
        assert forall|j: int| i < j < shorter.len() implies shorter[j].0 != shorter[i].0
            || shorter[j].1 is None by {
            assert(shorter[j] == columns[j]);
        }
        law_every_valued_column_is_kept(shorter, i);
    }
}

/// Only columns that hold a value are in the row: a column name is there only if some column of
/// that name is not NULL.
pub proof fn law_only_valued_columns_are_kept(
    columns: Seq<(Seq<char>, Option<Seq<char>>)>,
    name: Seq<char>,
)
    ensures
        column_map(columns).contains_key(name) ==> exists|i: int|
            0 <= i < columns.len() && columns[i].0 == name && #[trigger] columns[i].1 is Some,
    decreases columns.len(),
{
    if columns.len() > 0 {
        let shorter = columns.drop_last();
        law_only_valued_columns_are_kept(shorter, name);
        if column_map(columns).contains_key(name) {
            if columns.last().0 == name && columns.last().1 is Some {
                assert(columns[columns.len() - 1].1 is Some);
            } else {
                let i = choose|i: int|
                    0 <= i < shorter.len() && shorter[i].0 == name && #[trigger] shorter[i].1 is Some;
                assert(columns[i] == shorter[i]);
            }
        }
    }
}

/// A source of rows.
pub trait FetchData {
    /// Reads the rows of the source, each tagged `Generic`.
    fn fetch_data(&mut self) -> Vec<RowData>;
}

/// A source of rows that checks each row it reads.
pub trait CheckData: FetchData {
    /// Reads the rows of the source and checks each (see [`check_rows`]).
    fn load_and_check_data(&mut self) -> (r: Vec<RowData>)
        ensures
            forall|i: int| 0 <= i < r@.len() ==> !(#[trigger] r@[i] is Generic),
    {
        let rows = self.fetch_data();
        let checked = check_rows(rows);
        proof {
            assert forall|i: int| 0 <= i < checked@.len() implies !(#[trigger] checked@[i] is Generic) by {
                law_checked_row_is_classified(rows@[i]);
            }
        }
        checked
    }
}

/// A data source whose rows can be read and checked.
pub trait DataSource: CheckData {

}

} // verus!
