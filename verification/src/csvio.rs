//! Trusted boundary to the CSV crate: whole-buffer encoding and decoding of
//! rows of text fields. The mapping between records and rows, and between
//! rows and creation requests, is verified elsewhere.

use vstd::prelude::*;

verus! {

/// What `csv::Writer` produces for a sequence of rows: a function of the
/// rows alone.
pub uninterp spec fn csv_bytes_of(rows: Seq<Seq<Seq<char>>>) -> Seq<u8>;

/// What `csv::Reader` parses a byte buffer into: the rows, or nothing when
/// the buffer is malformed.
pub uninterp spec fn csv_rows_of(bytes: Seq<u8>) -> Option<Seq<Seq<Seq<char>>>>;

/// Every row has exactly `w` fields.
pub open spec fn rectangular(rows: Seq<Seq<Seq<char>>>, w: int) -> bool {
    forall|i: int| 0 <= i < rows.len() ==> (#[trigger] rows[i]).len() == w
}

/// The table's very first cell does not begin with a byte-order mark. The
/// writer leaves such a cell unquoted while the reader strips a leading
/// byte-order mark from the buffer, so a table breaking this would not
/// parse back to itself.
pub open spec fn bom_safe(rows: Seq<Seq<Seq<char>>>) -> bool {
    rows.len() > 0 && rows[0].len() > 0 && rows[0][0].len() > 0 ==> rows[0][0][0] != '\u{feff}'
}

/// Relies on `csv::Writer` (`write_record`, `into_inner`): each row becomes
/// one CSV record with standard quoting, so a table whose rows all have the
/// same width of at least two, and whose first cell does not begin with a
/// byte-order mark, parses back to exactly the same rows with
/// `csv::Reader`; no rows produce no bytes.
#[verifier::external_body]
pub(crate) fn csv_encode(rows: &Vec<Vec<String>>) -> (r: Vec<u8>)
    ensures
        r@ == csv_bytes_of(rows.deep_view()),
        forall|w: int|
            w >= 2 && rectangular(rows.deep_view(), w) && bom_safe(rows.deep_view())
                ==> csv_rows_of(r@) == Some(rows.deep_view()),
        rows@.len() == 0 ==> r@.len() == 0,
{
    let mut w = csv::WriterBuilder::new().from_writer(Vec::new());
    for row in rows {
        let _ = w.write_record(row);
    }
    w.into_inner().unwrap_or_default()
}

/// Relies on `csv::Reader` with headers disabled: parses the buffer into
/// its records, or reports the first malformed record as an error.
#[verifier::external_body]
pub(crate) fn csv_decode(bytes: &[u8]) -> (r: Result<Vec<Vec<String>>, String>)
    ensures
        match r {
            Ok(rows) => csv_rows_of(bytes@) == Some(rows.deep_view()),
            Err(_) => csv_rows_of(bytes@) is None,
        },
{
    let mut rdr = csv::ReaderBuilder::new().has_headers(false).from_reader(bytes);
    let mut rows: Vec<Vec<String>> = Vec::new();
    for rec in rdr.records() {
        match rec {
            Ok(sr) => rows.push(sr.iter().map(|f| f.to_string()).collect()),
            Err(e) => {
                return Err(format!("{}", e));
            },
        }
    }
    Ok(rows)
}

} // verus!
