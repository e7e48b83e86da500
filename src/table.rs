//! Comma-separated tables, read and written by the `csv` crate.
//!
//! What the crate makes of a text (quoting, blank lines, where a record
//! ends) is given a name here rather than restated; the logic that follows
//! takes those results as plain values.
use vstd::prelude::*;

verus! {

/// The cells of a row as mathematical texts.
pub open spec fn cells_view(cells: Seq<String>) -> Seq<Seq<char>> {
    cells.map_values(|c: String| c@)
}

/// Rows as mathematical values; `None` stands for a row the reader refused.
pub open spec fn rows_view(rows: Seq<Option<Vec<String>>>) -> Seq<Option<Seq<Seq<char>>>> {
    rows.map_values(
        |r: Option<Vec<String>>|
            match r {
                Some(c) => Some(cells_view(c@)),
                None => None,
            },
    )
}

/// The header row that the default `csv` reader finds in a text, `None`
/// where it reports an error.
pub uninterp spec fn csv_header_of(text: Seq<char>) -> Option<Seq<Seq<char>>>;

/// The records after the header row that the default `csv` reader finds in
/// a text, in order; `None` for each one it reports an error on (a record
/// whose length differs from the header's among them).
pub uninterp spec fn csv_records_of(text: Seq<char>) -> Seq<Option<Seq<Seq<char>>>>;

/// The text that the default `csv` writer produces for one record.
pub uninterp spec fn csv_line_of(cells: Seq<Seq<char>>) -> Seq<char>;

/// Relies on `csv::Reader::headers` (reader built by `Reader::from_reader`,
/// which takes the first row as the header): the header's cells.
#[verifier::external_body]
pub(crate) fn read_header(text: &str) -> (r: Option<Vec<String>>)
    ensures
        match r {
            Some(h) => csv_header_of(text@) == Some(cells_view(h@)),
            None => csv_header_of(text@).is_none(),
        },
{
    let mut rdr = csv::Reader::from_reader(text.as_bytes());
    match rdr.headers() {
        Ok(h) => Some(h.iter().map(String::from).collect()),
        Err(_) => None,
    }
}

/// Relies on `csv::Reader::records` (reader built by `Reader::from_reader`):
/// every record after the header, each one's cells or `None` for an error.
#[verifier::external_body]
pub(crate) fn read_records(text: &str) -> (r: Vec<Option<Vec<String>>>)
    ensures
        rows_view(r@) == csv_records_of(text@),
{
    let mut rdr = csv::Reader::from_reader(text.as_bytes());
    let mut rows = Vec::new();
    for rec in rdr.records() {
        rows.push(rec.ok().map(|c| c.iter().map(String::from).collect()));
    }
    rows
}

/// Relies on `csv::Writer::write_record` (writer built by
/// `Writer::from_writer` over a byte vector): the text written for one
/// record. Writing into a fresh writer over a vector does not fail: the
/// only errors are a field count that differs from an earlier record's and
/// a failed flush, and the bytes are the UTF-8 cells with ASCII separators.
#[verifier::external_body]
pub(crate) fn write_line(cells: &Vec<String>) -> (r: Option<String>)
    ensures
        r is Some,
        r matches Some(line) ==> line@ == csv_line_of(cells_view(cells@)),
{
    let mut wtr = csv::Writer::from_writer(Vec::new());
    if wtr.write_record(cells).is_err() {
        return None;
    }
    let bytes = wtr.into_inner().ok()?;
    String::from_utf8(bytes).ok()
}

} // verus!
