//! The per-vessel series: which series a report belongs to, the rule by
//! which a report is kept or skipped, the text that goes into a series
//! file, and an in-memory store that follows the same rules.
use vstd::prelude::*;

use crate::decimal::{decimal_of, parse_u64, push_decimal, u64_of};
use crate::record::{
    canonical_header, field_index, record_cells, Field, VesselRecord, VesselRecordView, FIELD_COUNT,
};
use crate::table::{cells_view, csv_line_of, csv_records_of, read_records, rows_view, write_line};

verus! {

/// The identifier scheme a series is keyed by.
#[derive(Clone, Copy, PartialEq, Eq, Structural, Debug)]
pub enum KeyKind {
    Imo,
    Mmsi,
}

/// A series: the key scheme, the key and the vessel's name.
#[derive(Clone, Debug, PartialEq, Eq)]
pub struct SeriesId {
    pub kind: KeyKind,
    pub key: u64,
    pub name: String,
}

pub struct SeriesIdView {
    pub kind: KeyKind,
    pub key: u64,
    pub name: Seq<char>,
}

impl View for SeriesId {
    type V = SeriesIdView;

    open spec fn view(&self) -> SeriesIdView {
        SeriesIdView { kind: self.kind, key: self.key, name: self.name@ }
    }
}

/// The series a report goes to: by IMO number where it has one, else by
/// MMSI number where it has one, else none.
pub open spec fn series_of(v: VesselRecordView) -> Option<SeriesIdView> {
    if v.imo != 0 {
        Some(SeriesIdView { kind: KeyKind::Imo, key: v.imo, name: v.name })
    } else if v.mmsi != 0 {
        Some(SeriesIdView { kind: KeyKind::Mmsi, key: v.mmsi, name: v.name })
    } else {
        None
    }
}

/// The series a report goes to.
pub fn series_id(rec: &VesselRecord) -> (r: Option<SeriesId>)
    ensures
        match r {
            Some(id) => series_of(rec@) == Some(id@),
            None => series_of(rec@) is None,
        },
{
    if rec.imo != 0 {
        Some(SeriesId { kind: KeyKind::Imo, key: rec.imo, name: rec.name.clone() })
    } else if rec.mmsi != 0 {
        Some(SeriesId { kind: KeyKind::Mmsi, key: rec.mmsi, name: rec.name.clone() })
    } else {
        None
    }
}

pub open spec fn dir_of(kind: KeyKind) -> Seq<char> {
    match kind {
        KeyKind::Imo => "data/imo/"@,
        KeyKind::Mmsi => "data/mmsi/"@,
    }
}

/// Where a series is stored: `data/<scheme>/<name>_<key>.csv`.
pub open spec fn path_of(id: SeriesIdView) -> Seq<char> {
    dir_of(id.kind) + id.name + "_"@ + decimal_of(id.key as nat) + ".csv"@
}

/// The file path of a series.
pub fn series_path(id: &SeriesId) -> (r: String)
    ensures
        r@ == path_of(id@),
{
    let mut p = match id.kind {
        KeyKind::Imo => String::from_str("data/imo/"),
        KeyKind::Mmsi => String::from_str("data/mmsi/"),
    };
    p.append(id.name.as_str());
    p.append("_");
    push_decimal(&mut p, id.key);
    p.append(".csv");
    p
}

/// The timestamp of the last row of a series, 0 for an empty one.
pub open spec fn last_timestamp_of(rows: Seq<VesselRecordView>) -> u64 {
    if rows.len() == 0 {
        0
    } else {
        rows.last().timestamp
    }
}

/// A report is kept only when it is newer than the series' last row.
pub open spec fn accepts(last: u64, v: VesselRecordView) -> bool {
    v.timestamp > last
}

/// Whether a report is kept after a series whose last timestamp is `last`.
pub fn is_newer(last: u64, rec: &VesselRecord) -> (r: bool)
    ensures
        r == accepts(last, rec@),
{
    rec.timestamp > last
}

/// Why a series file could not be read or written.
#[derive(Clone, Copy, PartialEq, Eq, Structural, Debug)]
pub enum StoreError {
    /// The reader refused the last record of the file.
    UnreadableRecord,
    /// The last record of the file has no timestamp that reads as a number.
    BadTimestamp,
}

impl StoreError {
    pub fn message(&self) -> &'static str {
        match self {
            StoreError::UnreadableRecord => "the last record of a series file does not read",
            StoreError::BadTimestamp => "the last record of a series file has no valid timestamp",
        }
    }
}

/// The last timestamp that the records of a series file hold: 0 where there
/// is no record (an empty or header-only file), an error where the last
/// record was refused or its timestamp cell does not read.
pub open spec fn tail_timestamp_of(records: Seq<Option<Seq<Seq<char>>>>) -> Result<u64, StoreError> {
    if records.len() == 0 {
        Ok(0)
    } else {
        match records.last() {
            None => Err(StoreError::UnreadableRecord),
            Some(cells) => {
                let i = field_index(Field::Timestamp);
                if i < cells.len() && u64_of(cells[i]) is Some {
                    Ok(u64_of(cells[i]).unwrap())
                } else {
                    Err(StoreError::BadTimestamp)
                }
            },
        }
    }
}

/// The last timestamp of a series file, from its records.
pub fn tail_timestamp(records: &Vec<Option<Vec<String>>>) -> (r: Result<u64, StoreError>)
    ensures
        r == tail_timestamp_of(rows_view(records@)),
{
    let n = records.len();
    if n == 0 {
        return Ok(0);
    }
    assert(rows_view(records@).last() == rows_view(records@)[n - 1]);
    match &records[n - 1] {
        None => Err(StoreError::UnreadableRecord),
        Some(cells) => {
            let i = Field::Timestamp.index();
            if i < cells.len() {
                match parse_u64(cells[i].as_str()) {
                    Some(t) => Ok(t),
                    None => Err(StoreError::BadTimestamp),
                }
            } else {
                Err(StoreError::BadTimestamp)
            }
        },
    }
}

/// The last timestamp of a series file's text.
pub fn last_timestamp(text: &str) -> (r: Result<u64, StoreError>)
    ensures
        r == tail_timestamp_of(csv_records_of(text@)),
{
    let records = read_records(text);
    tail_timestamp(&records)
}

/// The header row of a series file, in canonical order.
pub fn series_header() -> (r: String)
    ensures
        r@ == csv_line_of(canonical_header()),
{
    let mut tags: Vec<String> = Vec::new();
    let mut k: usize = 0;
    while k < FIELD_COUNT
        invariant
            k <= FIELD_COUNT,
            cells_view(tags@) == canonical_header().subrange(0, k as int),
        decreases FIELD_COUNT - k,
    {
        let tag = String::from_str(Field::at(k).tag());
        let ghost before = tags@;
        tags.push(tag);
        assert(cells_view(tags@) =~= cells_view(before).push(tag@));
        k = k + 1;
        assert(cells_view(tags@) =~= canonical_header().subrange(0, k as int));
    }
    assert(canonical_header().subrange(0, FIELD_COUNT as int) == canonical_header());
    write_line(&tags).unwrap()
}

/// The row a report takes in a series file.
pub fn series_row(rec: &VesselRecord) -> (r: String)
    ensures
        r@ == csv_line_of(record_cells(rec@)),
{
    let cells = rec.cells();
    write_line(&cells).unwrap()
}

/// What to add to a series file for a report, given the file's text
/// (`None` where there is no file yet): a new or empty file gets the
/// header row, and the report's row follows where it is newer than the
/// file's last record (than 0 for a new, empty or header-only file).
/// `Ok(None)`: nothing to write.
pub open spec fn append_text_of(existing: Option<Seq<char>>, v: VesselRecordView) -> Result<
    Option<Seq<char>>,
    StoreError,
> {
    let row = csv_line_of(record_cells(v));
    if existing is None || existing.unwrap().len() == 0 {
        Ok(
            Some(
                csv_line_of(canonical_header()) + if accepts(0, v) {
                    row
                } else {
                    Seq::empty()
                },
            ),
        )
    } else {
        match tail_timestamp_of(csv_records_of(existing.unwrap())) {
            Err(e) => Err(e),
            Ok(last) => if accepts(last, v) {
                Ok(Some(row))
            } else {
                Ok(None)
            },
        }
    }
}

pub open spec fn text_view(t: Option<&str>) -> Option<Seq<char>> {
    match t {
        Some(s) => Some(s@),
        None => None,
    }
}

/// The text to add to a series file for a report, as `append_text_of`
/// says.
pub fn append_text(existing: Option<&str>, rec: &VesselRecord) -> (r: Result<
    Option<String>,
    StoreError,
>)
    ensures
        match r {
            Ok(Some(t)) => append_text_of(text_view(existing), rec@) == Ok::<
                Option<Seq<char>>,
                StoreError,
            >(Some(t@)),
            Ok(None) => append_text_of(text_view(existing), rec@) == Ok::<
                Option<Seq<char>>,
                StoreError,
            >(None),
            Err(e) => append_text_of(text_view(existing), rec@) == Err::<
                Option<Seq<char>>,
                StoreError,
            >(e),
        },
{
    let fresh = match existing {
        None => true,
        Some(t) => t.is_empty(),
    };
    if fresh {
        let mut text = series_header();
        if is_newer(0, rec) {
            let row = series_row(rec);
            text.append(row.as_str());
        } else {
            assert(text@ + Seq::<char>::empty() == text@);
        }
        return Ok(Some(text));
    }
    let t = existing.unwrap();
    let last = match last_timestamp(t) {
        Ok(last) => last,
        Err(e) => return Err(e),
    };
    if is_newer(last, rec) {
        Ok(Some(series_row(rec)))
    } else {
        Ok(None)
    }
}

} // verus!
