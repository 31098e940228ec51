//! Comma-separated text as rows of text fields, read through the csv crate.

use vstd::prelude::*;

verus! {

#[verifier::external_type_specification]
#[verifier::external_body]
pub struct ExCsvError(csv::Error);

/// The rows of fields that the csv crate reads from `input` when no row is
/// taken as a header, or `None` where it reports an error.
pub uninterp spec fn csv_records_of(input: Seq<u8>) -> Option<Seq<Seq<Seq<char>>>>;

pub open spec fn row_view(row: Vec<String>) -> Seq<Seq<char>> {
    row@.map_values(|f: String| f@)
}

pub open spec fn table_view(rows: Seq<Vec<String>>) -> Seq<Seq<Seq<char>>> {
    rows.map_values(|r: Vec<String>| row_view(r))
}

/// Relies on csv::ReaderBuilder (with has_headers(false)) and csv::Reader::records:
/// every row of `input`, the first row included, as text fields, or the first
/// error met. Read from memory, the outcome depends on the bytes alone.
#[verifier::external_body]
pub(crate) fn csv_records(input: &[u8]) -> (r: Result<Vec<Vec<String>>, csv::Error>)
    ensures
        match r {
            Ok(rows) => csv_records_of(input@) == Some(table_view(rows@)),
            Err(_) => csv_records_of(input@) is None,
        },
{
    let mut reader = csv::ReaderBuilder::new().has_headers(false).from_reader(input);
    let mut rows = Vec::new();
    for record in reader.records() {
        rows.push(record?.iter().map(String::from).collect());
    }
    Ok(rows)
}

/// Whether two texts are equal.
pub fn text_equals(a: &str, b: &str) -> (r: bool)
    ensures
        r == (a@ == b@),
{
    let n = a.unicode_len();
    if n != b.unicode_len() {
        return false;
    }
    let mut i: usize = 0;
    while i < n
        invariant
            n == a@.len() == b@.len(),
            0 <= i <= n,
            forall|k: int| 0 <= k < i ==> a@[k] == b@[k],
        decreases n - i,
    {
        if a.get_char(i) != b.get_char(i) {
            return false;
        }
        i = i + 1;
    }
    assert(a@ =~= b@);
    true
}

} // verus!
