//! Reading the rows of a batch out of comma-separated text.

use crate::transaction::texts;
use vstd::prelude::*;

verus! {

/// What a row of a batch holds once it is read: the text of each of its
/// fields, or a message where the row could not be read.
pub open spec fn row_view(row: Result<Vec<String>, String>) -> Result<Seq<Seq<char>>, Seq<char>> {
    match row {
        Ok(fields) => Ok(texts(fields@)),
        Err(message) => Err(message@),
    }
}

/// What each row of a batch holds.
pub open spec fn rows_view(rows: Seq<Result<Vec<String>, String>>) -> Seq<
    Result<Seq<Seq<char>>, Seq<char>>,
> {
    Seq::new(rows.len(), |i: int| row_view(rows[i]))
}

/// The rows that the `csv` crate reads out of `content`, after the header
/// row that it skips: for each row its fields, or the message of the error
/// that the crate gave for it.
pub uninterp spec fn csv_records(content: Seq<u8>) -> Seq<Result<Seq<Seq<char>>, Seq<char>>>;

/// Reads `content` as comma-separated text with the `csv` crate:
/// `ReaderBuilder::new`, with `flexible` and `has_headers` switched on,
/// `ReaderBuilder::from_reader` on the bytes and `Reader::into_records`.
/// Each row becomes the list of its fields, and each error its text, as
/// `csv::Error` displays it. The contract only gives a name to what the
/// crate returns for these bytes: nothing is claimed of how it splits them.
#[verifier::external_body]
pub(crate) fn read_records(content: &[u8]) -> (rows: Vec<Result<Vec<String>, String>>)
    ensures
        rows_view(rows@) == csv_records(content@),
{
    csv::ReaderBuilder::new()
        .flexible(true)
        .has_headers(true)
        .from_reader(content)
        .into_records()
        .map(|row| match row {
            Ok(record) => Ok(record.iter().map(String::from).collect()),
            Err(error) => Err(error.to_string()),
        })
        .collect()
}

} // verus!
