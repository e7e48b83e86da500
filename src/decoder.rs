//! Decoding a tracking service's tabular answer into reports. The columns
//! of an answer come in any order and any subset of the 22 known names;
//! the header is read once into a column mapping, which every row then
//! goes through.
use vstd::prelude::*;

use crate::decimal::{parse_tenths, parse_u64, parse_u8, tenths_of, u64_of, u8_of};
use crate::record::{
    field_at, field_index, field_of_tag, lemma_field_at, Field, VesselRecord, VesselRecordView,
    FIELD_COUNT,
};
use crate::record::{same_text, UNKNOWN_COURSE, UNKNOWN_HEADING, UNKNOWN_SPEED};
use crate::table::{cells_view, csv_header_of, csv_records_of, read_header, read_records, rows_view};

verus! {

/// The column that holds a field under a header: the last one named by the
/// field's tag, or `None` when no column is.
pub open spec fn column_of(h: Seq<Seq<char>>, f: Field) -> Option<int>
    decreases h.len(),
{
    if h.len() == 0 {
        None
    } else if field_of_tag(h.last()) == Some(f) {
        Some(h.len() - 1)
    } else {
        column_of(h.drop_last(), f)
    }
}

/// The column of each field, in canonical field order.
pub open spec fn column_table(h: Seq<Seq<char>>) -> Seq<Option<int>> {
    Seq::new(FIELD_COUNT as nat, |k: int| column_of(h, field_at(k)))
}

pub open spec fn index_view(c: Option<usize>) -> Option<int> {
    match c {
        Some(i) => Some(i as int),
        None => None,
    }
}

/// Where each field of a report stands in the rows of one answer.
pub struct ColumnMapping {
    columns: Vec<Option<usize>>,
}

impl View for ColumnMapping {
    type V = Seq<Option<int>>;

    closed spec fn view(&self) -> Seq<Option<int>> {
        self.columns@.map_values(|c: Option<usize>| index_view(c))
    }
}

impl ColumnMapping {
    pub closed spec fn wf(&self) -> bool {
        self.columns@.len() == FIELD_COUNT
    }

    /// The column of field `f`, if the answer has one.
    pub fn column(&self, f: Field) -> (r: Option<usize>)
        requires
            self.wf(),
        ensures
            index_view(r) == self@[field_index(f)],
    {
        self.columns[f.index()]
    }
}

/// Builds the column mapping of a header row. A cell that names no known
/// field is passed over.
pub fn get_header_order(headers: &Vec<String>) -> (m: ColumnMapping)
    ensures
        m.wf(),
        m@ == column_table(cells_view(headers@)),
{
    let ghost h = cells_view(headers@);
    let mut columns: Vec<Option<usize>> = Vec::new();
    let mut k: usize = 0;
    while k < FIELD_COUNT
        invariant
            k <= FIELD_COUNT,
            columns@.len() == k,
            forall|j: int| 0 <= j < k ==> columns@[j] is None,
        decreases FIELD_COUNT - k,
    {
        columns.push(None);
        k = k + 1;
    }
    let mut i: usize = 0;
    while i < headers.len()
        invariant
            i <= headers@.len(),
            h == cells_view(headers@),
            columns@.len() == FIELD_COUNT,
            forall|j: int|
                0 <= j < FIELD_COUNT ==> index_view(#[trigger] columns@[j]) == column_of(
                    h.subrange(0, i as int),
                    field_at(j),
                ),
        decreases headers@.len() - i,
    {
        let found = Field::from_tag(headers[i].as_str());
        match found {
            Some(f) => {
                columns.set(f.index(), Some(i));
            },
            None => {},
        }
        proof {
            let p = h.subrange(0, i + 1);
            assert(p.drop_last() == h.subrange(0, i as int));
            assert(p.last() == h[i as int]);
            assert(h[i as int] == headers@[i as int]@);
            assert forall|j: int| 0 <= j < FIELD_COUNT implies index_view(
                #[trigger] columns@[j],
            ) == column_of(p, field_at(j)) by {
                lemma_field_at(j);
                match found {
                    Some(f) => {
                        if j != field_index(f) {
                            assert(field_at(j) != f);
                        }
                    },
                    None => {},
                }
            }
        }
        i = i + 1;
    }
    let m = ColumnMapping { columns };
    assert(h.subrange(0, h.len() as int) == h);
    assert(m@ =~= column_table(h));
    m
}

/// A number field: the unknown value where the answer has no such column,
/// else the cell read as a `u64` (`None` when it does not read).
pub open spec fn number_cell(col: Option<int>, row: Seq<Seq<char>>, unknown: u64) -> Option<u64> {
    match col {
        None => Some(unknown),
        Some(i) => if 0 <= i < row.len() {
            u64_of(row[i])
        } else {
            None
        },
    }
}

pub open spec fn byte_cell(col: Option<int>, row: Seq<Seq<char>>, unknown: u8) -> Option<u8> {
    match col {
        None => Some(unknown),
        Some(i) => if 0 <= i < row.len() {
            u8_of(row[i])
        } else {
            None
        },
    }
}

pub open spec fn tenths_cell(col: Option<int>, row: Seq<Seq<char>>, unknown: u64) -> Option<u64> {
    match col {
        None => Some(unknown),
        Some(i) => if 0 <= i < row.len() {
            tenths_of(row[i])
        } else {
            None
        },
    }
}

/// A text field: empty where the answer has no such column, else the cell.
pub open spec fn text_cell(col: Option<int>, row: Seq<Seq<char>>) -> Option<Seq<char>> {
    match col {
        None => Some(Seq::empty()),
        Some(i) => if 0 <= i < row.len() {
            Some(row[i])
        } else {
            None
        },
    }
}

pub open spec fn col(t: Seq<Option<int>>, f: Field) -> Option<int> {
    t[field_index(f)]
}

/// The report that a row gives under a column table: each field present in
/// the table is read from its cell, each other one keeps its unknown value;
/// `None` when a cell does not read as its field's type.
pub open spec fn decoded_row(t: Seq<Option<int>>, row: Seq<Seq<char>>) -> Option<VesselRecordView> {
    let bow = number_cell(col(t, Field::Bow), row, 0);
    let stern = number_cell(col(t, Field::Stern), row, 0);
    let port = number_cell(col(t, Field::Port), row, 0);
    let callsign = text_cell(col(t, Field::Callsign), row);
    let cog = tenths_cell(col(t, Field::CourseOverGround), row, UNKNOWN_COURSE);
    let starboard = number_cell(col(t, Field::Starboard), row, 0);
    let destination = text_cell(col(t, Field::Destination), row);
    let draught = number_cell(col(t, Field::Draught), row, 0);
    let device = text_cell(col(t, Field::Device), row);
    let eta = number_cell(col(t, Field::Eta), row, 0);
    let heading = number_cell(col(t, Field::Heading), row, UNKNOWN_HEADING);
    let imo = number_cell(col(t, Field::Imo), row, 0);
    let latitude = text_cell(col(t, Field::Latitude), row);
    let longitude = text_cell(col(t, Field::Longitude), row);
    let mmsi = number_cell(col(t, Field::Mmsi), row, 0);
    let name = text_cell(col(t, Field::Name), row);
    let nav_status = text_cell(col(t, Field::NavStatus), row);
    let pac = byte_cell(col(t, Field::PositionAccuracy), row, 0);
    let rot = text_cell(col(t, Field::RateOfTurn), row);
    let sog = number_cell(col(t, Field::SpeedOverGround), row, UNKNOWN_SPEED);
    let timestamp = number_cell(col(t, Field::Timestamp), row, 0);
    let vessel_type = number_cell(col(t, Field::VesselType), row, 0);
    if bow is Some && stern is Some && port is Some && callsign is Some && cog is Some
        && starboard is Some && destination is Some && draught is Some && device is Some
        && eta is Some && heading is Some && imo is Some && latitude is Some && longitude is Some
        && mmsi is Some && name is Some && nav_status is Some && pac is Some && rot is Some
        && sog is Some && timestamp is Some && vessel_type is Some {
        Some(
            VesselRecordView {
                bow: bow.unwrap(),
                stern: stern.unwrap(),
                port: port.unwrap(),
                callsign: callsign.unwrap(),
                course_over_ground: cog.unwrap(),
                starboard: starboard.unwrap(),
                destination: destination.unwrap(),
                draught: draught.unwrap(),
                device: device.unwrap(),
                eta: eta.unwrap(),
                heading: heading.unwrap(),
                imo: imo.unwrap(),
                latitude: latitude.unwrap(),
                longitude: longitude.unwrap(),
                mmsi: mmsi.unwrap(),
                name: name.unwrap(),
                nav_status: nav_status.unwrap(),
                position_accuracy: pac.unwrap(),
                rate_of_turn: rot.unwrap(),
                speed_over_ground: sog.unwrap(),
                timestamp: timestamp.unwrap(),
                vessel_type: vessel_type.unwrap(),
            },
        )
    } else {
        None
    }
}

fn read_number(c: Option<usize>, row: &Vec<String>, unknown: u64) -> (r: Option<u64>)
    ensures
        r == number_cell(index_view(c), cells_view(row@), unknown),
{
    match c {
        None => Some(unknown),
        Some(i) => if i < row.len() {
            parse_u64(row[i].as_str())
        } else {
            None
        },
    }
}

fn read_byte(c: Option<usize>, row: &Vec<String>, unknown: u8) -> (r: Option<u8>)
    ensures
        r == byte_cell(index_view(c), cells_view(row@), unknown),
{
    match c {
        None => Some(unknown),
        Some(i) => if i < row.len() {
            parse_u8(row[i].as_str())
        } else {
            None
        },
    }
}

fn read_tenths(c: Option<usize>, row: &Vec<String>, unknown: u64) -> (r: Option<u64>)
    ensures
        r == tenths_cell(index_view(c), cells_view(row@), unknown),
{
    match c {
        None => Some(unknown),
        Some(i) => if i < row.len() {
            parse_tenths(row[i].as_str())
        } else {
            None
        },
    }
}

fn read_text(c: Option<usize>, row: &Vec<String>) -> (r: Option<String>)
    ensures
        match r {
            Some(s) => text_cell(index_view(c), cells_view(row@)) == Some(s@),
            None => text_cell(index_view(c), cells_view(row@)) is None,
        },
{
    match c {
        None => Some(String::new()),
        Some(i) => if i < row.len() {
            Some(row[i].clone())
        } else {
            None
        },
    }
}

/// Decodes one row through a column mapping; `None` when a mapped cell is
/// missing or does not read as its field's type.
pub fn decode_row(m: &ColumnMapping, row: &Vec<String>) -> (r: Option<VesselRecord>)
    requires
        m.wf(),
    ensures
        match r {
            Some(v) => decoded_row(m@, cells_view(row@)) == Some(v@),
            None => decoded_row(m@, cells_view(row@)) is None,
        },
{
    let bow = read_number(m.column(Field::Bow), row, 0)?;
    let stern = read_number(m.column(Field::Stern), row, 0)?;
    let port = read_number(m.column(Field::Port), row, 0)?;
    let callsign = read_text(m.column(Field::Callsign), row)?;
    let cog = read_tenths(m.column(Field::CourseOverGround), row, UNKNOWN_COURSE)?;
    let starboard = read_number(m.column(Field::Starboard), row, 0)?;
    let destination = read_text(m.column(Field::Destination), row)?;
    let draught = read_number(m.column(Field::Draught), row, 0)?;
    let device = read_text(m.column(Field::Device), row)?;
    let eta = read_number(m.column(Field::Eta), row, 0)?;
    let heading = read_number(m.column(Field::Heading), row, UNKNOWN_HEADING)?;
    let imo = read_number(m.column(Field::Imo), row, 0)?;
    let latitude = read_text(m.column(Field::Latitude), row)?;
    let longitude = read_text(m.column(Field::Longitude), row)?;
    let mmsi = read_number(m.column(Field::Mmsi), row, 0)?;
    let name = read_text(m.column(Field::Name), row)?;
    let nav_status = read_text(m.column(Field::NavStatus), row)?;
    let pac = read_byte(m.column(Field::PositionAccuracy), row, 0)?;
    let rot = read_text(m.column(Field::RateOfTurn), row)?;
    let sog = read_number(m.column(Field::SpeedOverGround), row, UNKNOWN_SPEED)?;
    let timestamp = read_number(m.column(Field::Timestamp), row, 0)?;
    let vessel_type = read_number(m.column(Field::VesselType), row, 0)?;
    Some(
        VesselRecord {
            bow,
            stern,
            port,
            callsign,
            course_over_ground: cog,
            starboard,
            destination,
            draught,
            device,
            eta,
            heading,
            imo,
            latitude,
            longitude,
            mmsi,
            name,
            nav_status,
            position_accuracy: pac,
            rate_of_turn: rot,
            speed_over_ground: sog,
            timestamp,
            vessel_type,
        },
    )
}

pub open spec fn records_view(v: Seq<VesselRecord>) -> Seq<VesselRecordView> {
    v.map_values(|r: VesselRecord| r@)
}

/// The reports of a table's rows under a column table, for a header of
/// `n` cells, in row order. A row the reader refused, one whose length is
/// not `n` and one that does not decode give none.
pub open spec fn decoded_rows(t: Seq<Option<int>>, n: int, rows: Seq<Option<Seq<Seq<char>>>>) -> Seq<
    VesselRecordView,
>
    decreases rows.len(),
{
    if rows.len() == 0 {
        Seq::empty()
    } else {
        let before = decoded_rows(t, n, rows.drop_last());
        match rows.last() {
            Some(row) => if row.len() == n {
                match decoded_row(t, row) {
                    Some(v) => before.push(v),
                    None => before,
                }
            } else {
                before
            },
            None => before,
        }
    }
}

/// Decodes the rows of a table under its header row.
pub fn decode_table(header: &Vec<String>, rows: &Vec<Option<Vec<String>>>) -> (r: Vec<VesselRecord>)
    ensures
        records_view(r@) == decoded_rows(
            column_table(cells_view(header@)),
            header@.len() as int,
            rows_view(rows@),
        ),
{
    let m = get_header_order(header);
    let ghost t = m@;
    let mut out: Vec<VesselRecord> = Vec::new();
    let mut i: usize = 0;
    while i < rows.len()
        invariant
            i <= rows@.len(),
            m.wf(),
            t == m@,
            records_view(out@) == decoded_rows(
                t,
                header@.len() as int,
                rows_view(rows@).subrange(0, i as int),
            ),
        decreases rows@.len() - i,
    {
        let ghost prefix = rows_view(rows@).subrange(0, i + 1);
        proof {
            assert(prefix.drop_last() == rows_view(rows@).subrange(0, i as int));
        }
        match &rows[i] {
            Some(cells) => {
                if cells.len() == header.len() {
                    match decode_row(&m, cells) {
                        Some(v) => {
                            out.push(v);
                            assert(records_view(out@) =~= decoded_rows(
                                t,
                                header@.len() as int,
                                prefix,
                            ));
                        },
                        None => {},
                    }
                }
            },
            None => {},
        }
        i = i + 1;
    }
    assert(rows_view(rows@).subrange(0, rows@.len() as int) == rows_view(rows@));
    out
}

/// The body by which the service says that requests come too often.
pub open spec fn rate_limit_sentinel() -> Seq<char> {
    "Too frequent requests!"@
}

/// What a body decodes to.
pub enum DecodeOutcome {
    /// The body is the rate-limit sentinel: no table to decode.
    RateLimited,
    /// The reader could not find a header row.
    Unreadable,
    /// The reports of the rows that decode, in row order.
    Records(Vec<VesselRecord>),
}

/// Whether a body is the rate-limit sentinel.
pub fn is_rate_limited(body: &str) -> (r: bool)
    ensures
        r == (body@ == rate_limit_sentinel()),
{
    same_text(body, "Too frequent requests!")
}

/// Decodes a body: the sentinel is reported apart, else the body is read
/// as a table whose first row names the columns.
pub fn decode(body: &str) -> (r: DecodeOutcome)
    ensures
        body@ == rate_limit_sentinel() <==> r is RateLimited,
        body@ != rate_limit_sentinel() ==> match csv_header_of(body@) {
            None => r is Unreadable,
            Some(h) => r matches DecodeOutcome::Records(v) && records_view(v@) == decoded_rows(
                column_table(h),
                h.len() as int,
                csv_records_of(body@),
            ),
        },
{
    if is_rate_limited(body) {
        return DecodeOutcome::RateLimited;
    }
    match read_header(body) {
        None => DecodeOutcome::Unreadable,
        Some(header) => {
            let rows = read_records(body);
            DecodeOutcome::Records(decode_table(&header, &rows))
        },
    }
}

pub open spec fn positions_view(v: Seq<usize>) -> Seq<int> {
    v.map_values(|i: usize| i as int)
}

/// The positions of the header cells that name none of the 22 fields, in
/// order.
pub open spec fn unknown_columns_of(h: Seq<Seq<char>>) -> Seq<int>
    decreases h.len(),
{
    if h.len() == 0 {
        Seq::empty()
    } else {
        let before = unknown_columns_of(h.drop_last());
        if field_of_tag(h.last()) is None {
            before.push(h.len() - 1)
        } else {
            before
        }
    }
}

/// The positions of the header cells that name no known field.
pub fn unknown_columns(headers: &Vec<String>) -> (r: Vec<usize>)
    ensures
        positions_view(r@) == unknown_columns_of(cells_view(headers@)),
{
    let ghost h = cells_view(headers@);
    let mut out: Vec<usize> = Vec::new();
    let mut i: usize = 0;
    while i < headers.len()
        invariant
            i <= headers@.len(),
            h == cells_view(headers@),
            positions_view(out@) == unknown_columns_of(h.subrange(0, i as int)),
        decreases headers@.len() - i,
    {
        let ghost p = h.subrange(0, i + 1);
        assert(p.drop_last() == h.subrange(0, i as int));
        assert(p.last() == headers@[i as int]@);
        if Field::from_tag(headers[i].as_str()).is_none() {
            out.push(i);
            assert(positions_view(out@) =~= unknown_columns_of(p));
        }
        i = i + 1;
    }
    assert(h.subrange(0, h.len() as int) == h);
    out
}

/// The positions of the rows, for a header of `n` cells, that give no
/// report: refused by the reader, of another length than `n`, or with a
/// cell that does not decode.
pub open spec fn skipped_rows_of(t: Seq<Option<int>>, n: int, rows: Seq<Option<Seq<Seq<char>>>>) -> Seq<
    int,
>
    decreases rows.len(),
{
    if rows.len() == 0 {
        Seq::empty()
    } else {
        let before = skipped_rows_of(t, n, rows.drop_last());
        let skipped = match rows.last() {
            Some(row) => row.len() != n || decoded_row(t, row) is None,
            None => true,
        };
        if skipped {
            before.push(rows.len() - 1)
        } else {
            before
        }
    }
}

/// The positions of the rows that give no report under a header row.
pub fn skipped_rows(header: &Vec<String>, rows: &Vec<Option<Vec<String>>>) -> (r: Vec<usize>)
    ensures
        positions_view(r@) == skipped_rows_of(
            column_table(cells_view(header@)),
            header@.len() as int,
            rows_view(rows@),
        ),
{
    let m = get_header_order(header);
    let ghost t = m@;
    let ghost n = header@.len() as int;
    let mut out: Vec<usize> = Vec::new();
    let mut i: usize = 0;
    while i < rows.len()
        invariant
            i <= rows@.len(),
            m.wf(),
            t == m@,
            n == header@.len(),
            positions_view(out@) == skipped_rows_of(t, n, rows_view(rows@).subrange(0, i as int)),
        decreases rows@.len() - i,
    {
        let ghost prefix = rows_view(rows@).subrange(0, i + 1);
        proof {
            assert(prefix.drop_last() == rows_view(rows@).subrange(0, i as int));
        }
        let skipped = match &rows[i] {
            Some(cells) => cells.len() != header.len() || decode_row(&m, cells).is_none(),
            None => true,
        };
        if skipped {
            out.push(i);
            assert(positions_view(out@) =~= skipped_rows_of(t, n, prefix));
        }
        i = i + 1;
    }
    assert(rows_view(rows@).subrange(0, rows@.len() as int) == rows_view(rows@));
    out
}

/// What decoding a body passed over: the positions of the header cells that
/// name no known field and of the data rows that give no report. Both are
/// empty for the rate-limit sentinel and for a body without a header row.
pub fn diagnose(body: &str) -> (r: (Vec<usize>, Vec<usize>))
    ensures
        body@ == rate_limit_sentinel() || csv_header_of(body@) is None ==> r.0@.len() == 0
            && r.1@.len() == 0,
        body@ != rate_limit_sentinel() ==> match csv_header_of(body@) {
            None => true,
            Some(h) => positions_view(r.0@) == unknown_columns_of(h) && positions_view(r.1@)
                == skipped_rows_of(column_table(h), h.len() as int, csv_records_of(body@)),
        },
{
    if is_rate_limited(body) {
        return (Vec::new(), Vec::new());
    }
    match read_header(body) {
        None => (Vec::new(), Vec::new()),
        Some(header) => {
            let rows = read_records(body);
            (unknown_columns(&header), skipped_rows(&header, &rows))
        },
    }
}

} // verus!
