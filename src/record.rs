//! One vessel report: its 22 fields, their column names and the values that
//! stand for "unknown".
use vstd::prelude::*;

use crate::decimal::{decimal_of, decimal_text, push_tenths, tenths_text};

verus! {

/// Number of fields in a report, and of columns in a stored series.
pub const FIELD_COUNT: usize = 22;

/// The fields of a report, in the canonical (alphabetical by column name)
/// order of a stored series.
#[derive(Clone, Copy, PartialEq, Eq, Structural, Debug)]
pub enum Field {
    Bow,
    Stern,
    Port,
    Callsign,
    CourseOverGround,
    Starboard,
    Destination,
    Draught,
    Device,
    Eta,
    Heading,
    Imo,
    Latitude,
    Longitude,
    Mmsi,
    Name,
    NavStatus,
    PositionAccuracy,
    RateOfTurn,
    SpeedOverGround,
    Timestamp,
    VesselType,
}

/// Position of a field in the canonical order.
pub open spec fn field_index(f: Field) -> int {
    match f {
        Field::Bow => 0,
        Field::Stern => 1,
        Field::Port => 2,
        Field::Callsign => 3,
        Field::CourseOverGround => 4,
        Field::Starboard => 5,
        Field::Destination => 6,
        Field::Draught => 7,
        Field::Device => 8,
        Field::Eta => 9,
        Field::Heading => 10,
        Field::Imo => 11,
        Field::Latitude => 12,
        Field::Longitude => 13,
        Field::Mmsi => 14,
        Field::Name => 15,
        Field::NavStatus => 16,
        Field::PositionAccuracy => 17,
        Field::RateOfTurn => 18,
        Field::SpeedOverGround => 19,
        Field::Timestamp => 20,
        Field::VesselType => 21,
    }
}

/// The field at a position of the canonical order.
pub open spec fn field_at(k: int) -> Field {
    if k == 0 {
        Field::Bow
    } else if k == 1 {
        Field::Stern
    } else if k == 2 {
        Field::Port
    } else if k == 3 {
        Field::Callsign
    } else if k == 4 {
        Field::CourseOverGround
    } else if k == 5 {
        Field::Starboard
    } else if k == 6 {
        Field::Destination
    } else if k == 7 {
        Field::Draught
    } else if k == 8 {
        Field::Device
    } else if k == 9 {
        Field::Eta
    } else if k == 10 {
        Field::Heading
    } else if k == 11 {
        Field::Imo
    } else if k == 12 {
        Field::Latitude
    } else if k == 13 {
        Field::Longitude
    } else if k == 14 {
        Field::Mmsi
    } else if k == 15 {
        Field::Name
    } else if k == 16 {
        Field::NavStatus
    } else if k == 17 {
        Field::PositionAccuracy
    } else if k == 18 {
        Field::RateOfTurn
    } else if k == 19 {
        Field::SpeedOverGround
    } else if k == 20 {
        Field::Timestamp
    } else {
        Field::VesselType
    }
}

/// The column name of a field. Two of them are not the field's own name:
/// the timestamp is `TSTAMP` and the vessel type is `TYPE`.
pub open spec fn field_tag(f: Field) -> Seq<char> {
    match f {
        Field::Bow => "A"@,
        Field::Stern => "B"@,
        Field::Port => "C"@,
        Field::Callsign => "CALLSIGN"@,
        Field::CourseOverGround => "COG"@,
        Field::Starboard => "D"@,
        Field::Destination => "DEST"@,
        Field::Draught => "DRAUGHT"@,
        Field::Device => "DEVICE"@,
        Field::Eta => "ETA"@,
        Field::Heading => "HEADING"@,
        Field::Imo => "IMO"@,
        Field::Latitude => "LATITUDE"@,
        Field::Longitude => "LONGITUDE"@,
        Field::Mmsi => "MMSI"@,
        Field::Name => "NAME"@,
        Field::NavStatus => "NAVSTAT"@,
        Field::PositionAccuracy => "PAC"@,
        Field::RateOfTurn => "ROT"@,
        Field::SpeedOverGround => "SOG"@,
        Field::Timestamp => "TSTAMP"@,
        Field::VesselType => "TYPE"@,
    }
}

/// The field that a column name stands for, if it is one of the 22.
pub open spec fn field_of_tag(t: Seq<char>) -> Option<Field> {
    if exists|k: int| 0 <= k < FIELD_COUNT && t == field_tag(field_at(k)) {
        Some(field_at(choose|k: int| 0 <= k < FIELD_COUNT && t == field_tag(field_at(k))))
    } else {
        None
    }
}

/// The 22 column names in canonical order.
pub open spec fn canonical_header() -> Seq<Seq<char>> {
    Seq::new(FIELD_COUNT as nat, |k: int| field_tag(field_at(k)))
}

pub proof fn lemma_field_index(f: Field)
    ensures
        0 <= field_index(f) < FIELD_COUNT,
        field_at(field_index(f)) == f,
{
}

pub proof fn lemma_field_at(k: int)
    requires
        0 <= k < FIELD_COUNT,
    ensures
        field_index(field_at(k)) == k,
{
}

/// No two fields share a column name.
pub proof fn lemma_tags_distinct(f: Field, g: Field)
    ensures
        field_tag(f) == field_tag(g) ==> f == g,
{
    reveal_strlit("A");
    reveal_strlit("B");
    reveal_strlit("C");
    reveal_strlit("CALLSIGN");
    reveal_strlit("COG");
    reveal_strlit("D");
    reveal_strlit("DEST");
    reveal_strlit("DRAUGHT");
    reveal_strlit("DEVICE");
    reveal_strlit("ETA");
    reveal_strlit("HEADING");
    reveal_strlit("IMO");
    reveal_strlit("LATITUDE");
    reveal_strlit("LONGITUDE");
    reveal_strlit("MMSI");
    reveal_strlit("NAME");
    reveal_strlit("NAVSTAT");
    reveal_strlit("PAC");
    reveal_strlit("ROT");
    reveal_strlit("SOG");
    reveal_strlit("TSTAMP");
    reveal_strlit("TYPE");
    if field_tag(f) == field_tag(g) && f != g {
        let a = field_tag(f);
        let b = field_tag(g);
        assert(a.len() == b.len());
        assert(a[0] == b[0]);
        if a.len() > 1 {
            assert(a[1] == b[1]);
        }
        if a.len() > 2 {
            assert(a[2] == b[2]);
        }
    }
}

/// Each column name leads back to its field.
pub proof fn lemma_tag_field(f: Field)
    ensures
        field_of_tag(field_tag(f)) == Some(f),
{
    lemma_field_index(f);
    let k = field_index(f);
    assert(0 <= k < FIELD_COUNT && field_tag(f) == field_tag(field_at(k)));
    let j = choose|j: int| 0 <= j < FIELD_COUNT && field_tag(f) == field_tag(field_at(j));
    lemma_tags_distinct(f, field_at(j));
}

impl Field {
    /// Position of the field in the canonical order.
    pub fn index(self) -> (r: usize)
        ensures
            r as int == field_index(self),
            r < FIELD_COUNT,
    {
        match self {
            Field::Bow => 0,
            Field::Stern => 1,
            Field::Port => 2,
            Field::Callsign => 3,
            Field::CourseOverGround => 4,
            Field::Starboard => 5,
            Field::Destination => 6,
            Field::Draught => 7,
            Field::Device => 8,
            Field::Eta => 9,
            Field::Heading => 10,
            Field::Imo => 11,
            Field::Latitude => 12,
            Field::Longitude => 13,
            Field::Mmsi => 14,
            Field::Name => 15,
            Field::NavStatus => 16,
            Field::PositionAccuracy => 17,
            Field::RateOfTurn => 18,
            Field::SpeedOverGround => 19,
            Field::Timestamp => 20,
            Field::VesselType => 21,
        }
    }

    /// The field at position `k` of the canonical order.
    pub fn at(k: usize) -> (r: Field)
        requires
            k < FIELD_COUNT,
        ensures
            r == field_at(k as int),
    {
        if k == 0 {
            Field::Bow
        } else if k == 1 {
            Field::Stern
        } else if k == 2 {
            Field::Port
        } else if k == 3 {
            Field::Callsign
        } else if k == 4 {
            Field::CourseOverGround
        } else if k == 5 {
            Field::Starboard
        } else if k == 6 {
            Field::Destination
        } else if k == 7 {
            Field::Draught
        } else if k == 8 {
            Field::Device
        } else if k == 9 {
            Field::Eta
        } else if k == 10 {
            Field::Heading
        } else if k == 11 {
            Field::Imo
        } else if k == 12 {
            Field::Latitude
        } else if k == 13 {
            Field::Longitude
        } else if k == 14 {
            Field::Mmsi
        } else if k == 15 {
            Field::Name
        } else if k == 16 {
            Field::NavStatus
        } else if k == 17 {
            Field::PositionAccuracy
        } else if k == 18 {
            Field::RateOfTurn
        } else if k == 19 {
            Field::SpeedOverGround
        } else if k == 20 {
            Field::Timestamp
        } else {
            Field::VesselType
        }
    }

    /// The column name of the field.
    pub fn tag(self) -> (r: &'static str)
        ensures
            r@ == field_tag(self),
    {
        match self {
            Field::Bow => "A",
            Field::Stern => "B",
            Field::Port => "C",
            Field::Callsign => "CALLSIGN",
            Field::CourseOverGround => "COG",
            Field::Starboard => "D",
            Field::Destination => "DEST",
            Field::Draught => "DRAUGHT",
            Field::Device => "DEVICE",
            Field::Eta => "ETA",
            Field::Heading => "HEADING",
            Field::Imo => "IMO",
            Field::Latitude => "LATITUDE",
            Field::Longitude => "LONGITUDE",
            Field::Mmsi => "MMSI",
            Field::Name => "NAME",
            Field::NavStatus => "NAVSTAT",
            Field::PositionAccuracy => "PAC",
            Field::RateOfTurn => "ROT",
            Field::SpeedOverGround => "SOG",
            Field::Timestamp => "TSTAMP",
            Field::VesselType => "TYPE",
        }
    }
}

/// Whether two texts are the same characters.
pub fn same_text(a: &str, b: &str) -> (r: bool)
    ensures
        r == (a@ == b@),
{
    let n = a.unicode_len();
    if n != b.unicode_len() {
        return false;
    }
    let mut i: usize = 0;
    while i < n
        invariant
            i <= n,
            n == a@.len(),
            n == b@.len(),
            forall|j: int| 0 <= j < i ==> a@[j] == b@[j],
        decreases n - i,
    {
        if a.get_char(i) != b.get_char(i) {
            return false;
        }
        i = i + 1;
    }
    assert(a@ == b@);
    true
}

impl Field {
    /// The field whose column name is `s`, if any.
    pub fn from_tag(s: &str) -> (r: Option<Field>)
        ensures
            r == field_of_tag(s@),
    {
        let mut k: usize = 0;
        while k < FIELD_COUNT
            invariant
                k <= FIELD_COUNT,
                forall|j: int| 0 <= j < k ==> s@ != field_tag(field_at(j)),
            decreases FIELD_COUNT - k,
        {
            let f = Field::at(k);
            if same_text(s, f.tag()) {
                proof {
                    let j = choose|j: int| 0 <= j < FIELD_COUNT && s@ == field_tag(field_at(j));
                    lemma_tags_distinct(f, field_at(j));
                }
                return Some(f);
            }
            k = k + 1;
        }
        None
    }
}

/// One observation of one vessel. Distances are in meters, the course in
/// tenths of a degree, the draught in tenths of a meter, the speed in
/// tenths of a knot and the timestamp in Unix seconds.
#[derive(Clone, Debug, PartialEq, Eq)]
pub struct VesselRecord {
    pub bow: u64,
    pub stern: u64,
    pub port: u64,
    pub callsign: String,
    pub course_over_ground: u64,
    pub starboard: u64,
    pub destination: String,
    pub draught: u64,
    pub device: String,
    pub eta: u64,
    pub heading: u64,
    pub imo: u64,
    pub latitude: String,
    pub longitude: String,
    pub mmsi: u64,
    pub name: String,
    pub nav_status: String,
    pub position_accuracy: u8,
    pub rate_of_turn: String,
    pub speed_over_ground: u64,
    pub timestamp: u64,
    pub vessel_type: u64,
}

/// A report as mathematical values.
pub struct VesselRecordView {
    pub bow: u64,
    pub stern: u64,
    pub port: u64,
    pub callsign: Seq<char>,
    pub course_over_ground: u64,
    pub starboard: u64,
    pub destination: Seq<char>,
    pub draught: u64,
    pub device: Seq<char>,
    pub eta: u64,
    pub heading: u64,
    pub imo: u64,
    pub latitude: Seq<char>,
    pub longitude: Seq<char>,
    pub mmsi: u64,
    pub name: Seq<char>,
    pub nav_status: Seq<char>,
    pub position_accuracy: u8,
    pub rate_of_turn: Seq<char>,
    pub speed_over_ground: u64,
    pub timestamp: u64,
    pub vessel_type: u64,
}

impl View for VesselRecord {
    type V = VesselRecordView;

    open spec fn view(&self) -> VesselRecordView {
        VesselRecordView {
            bow: self.bow,
            stern: self.stern,
            port: self.port,
            callsign: self.callsign@,
            course_over_ground: self.course_over_ground,
            starboard: self.starboard,
            destination: self.destination@,
            draught: self.draught,
            device: self.device@,
            eta: self.eta,
            heading: self.heading,
            imo: self.imo,
            latitude: self.latitude@,
            longitude: self.longitude@,
            mmsi: self.mmsi,
            name: self.name@,
            nav_status: self.nav_status@,
            position_accuracy: self.position_accuracy,
            rate_of_turn: self.rate_of_turn@,
            speed_over_ground: self.speed_over_ground,
            timestamp: self.timestamp,
            vessel_type: self.vessel_type,
        }
    }
}

/// "Not available" course: 360.0 degrees.
pub const UNKNOWN_COURSE: u64 = 3600;

/// "Not available" heading.
pub const UNKNOWN_HEADING: u64 = 511;

/// "Not available" speed: 102.4 knots.
pub const UNKNOWN_SPEED: u64 = 1024;

/// The report in which every field is unknown.
pub open spec fn unknown_record() -> VesselRecordView {
    VesselRecordView {
        bow: 0,
        stern: 0,
        port: 0,
        callsign: Seq::empty(),
        course_over_ground: UNKNOWN_COURSE,
        starboard: 0,
        destination: Seq::empty(),
        draught: 0,
        device: Seq::empty(),
        eta: 0,
        heading: UNKNOWN_HEADING,
        imo: 0,
        latitude: Seq::empty(),
        longitude: Seq::empty(),
        mmsi: 0,
        name: Seq::empty(),
        nav_status: Seq::empty(),
        position_accuracy: 0,
        rate_of_turn: Seq::empty(),
        speed_over_ground: UNKNOWN_SPEED,
        timestamp: 0,
        vessel_type: 0,
    }
}

/// The value of one field, numbers and texts alike.
pub enum FieldValue {
    Number(nat),
    Text(Seq<char>),
}

pub open spec fn field_value(v: VesselRecordView, f: Field) -> FieldValue {
    match f {
        Field::Bow => FieldValue::Number(v.bow as nat),
        Field::Stern => FieldValue::Number(v.stern as nat),
        Field::Port => FieldValue::Number(v.port as nat),
        Field::Callsign => FieldValue::Text(v.callsign),
        Field::CourseOverGround => FieldValue::Number(v.course_over_ground as nat),
        Field::Starboard => FieldValue::Number(v.starboard as nat),
        Field::Destination => FieldValue::Text(v.destination),
        Field::Draught => FieldValue::Number(v.draught as nat),
        Field::Device => FieldValue::Text(v.device),
        Field::Eta => FieldValue::Number(v.eta as nat),
        Field::Heading => FieldValue::Number(v.heading as nat),
        Field::Imo => FieldValue::Number(v.imo as nat),
        Field::Latitude => FieldValue::Text(v.latitude),
        Field::Longitude => FieldValue::Text(v.longitude),
        Field::Mmsi => FieldValue::Number(v.mmsi as nat),
        Field::Name => FieldValue::Text(v.name),
        Field::NavStatus => FieldValue::Text(v.nav_status),
        Field::PositionAccuracy => FieldValue::Number(v.position_accuracy as nat),
        Field::RateOfTurn => FieldValue::Text(v.rate_of_turn),
        Field::SpeedOverGround => FieldValue::Number(v.speed_over_ground as nat),
        Field::Timestamp => FieldValue::Number(v.timestamp as nat),
        Field::VesselType => FieldValue::Number(v.vessel_type as nat),
    }
}

/// The value that stands for "unknown" in a field.
pub open spec fn unknown_value(f: Field) -> FieldValue {
    field_value(unknown_record(), f)
}

impl VesselRecord {
    /// A copy of the report.
    pub fn duplicate(&self) -> (r: VesselRecord)
        ensures
            r@ == self@,
    {
        VesselRecord {
            bow: self.bow,
            stern: self.stern,
            port: self.port,
            callsign: self.callsign.clone(),
            course_over_ground: self.course_over_ground,
            starboard: self.starboard,
            destination: self.destination.clone(),
            draught: self.draught,
            device: self.device.clone(),
            eta: self.eta,
            heading: self.heading,
            imo: self.imo,
            latitude: self.latitude.clone(),
            longitude: self.longitude.clone(),
            mmsi: self.mmsi,
            name: self.name.clone(),
            nav_status: self.nav_status.clone(),
            position_accuracy: self.position_accuracy,
            rate_of_turn: self.rate_of_turn.clone(),
            speed_over_ground: self.speed_over_ground,
            timestamp: self.timestamp,
            vessel_type: self.vessel_type,
        }
    }

    /// A report with every field unknown.
    pub fn new() -> (r: VesselRecord)
        ensures
            r@ == unknown_record(),
    {
        VesselRecord {
            bow: 0,
            stern: 0,
            port: 0,
            callsign: String::new(),
            course_over_ground: UNKNOWN_COURSE,
            starboard: 0,
            destination: String::new(),
            draught: 0,
            device: String::new(),
            eta: 0,
            heading: UNKNOWN_HEADING,
            imo: 0,
            latitude: String::new(),
            longitude: String::new(),
            mmsi: 0,
            name: String::new(),
            nav_status: String::new(),
            position_accuracy: 0,
            rate_of_turn: String::new(),
            speed_over_ground: UNKNOWN_SPEED,
            timestamp: 0,
            vessel_type: 0,
        }
    }
}

/// The cells of a report in canonical order, as a stored series writes
/// them.
pub open spec fn record_cells(v: VesselRecordView) -> Seq<Seq<char>> {
    seq![
        decimal_of(v.bow as nat),
        decimal_of(v.stern as nat),
        decimal_of(v.port as nat),
        v.callsign,
        tenths_text(v.course_over_ground as nat),
        decimal_of(v.starboard as nat),
        v.destination,
        decimal_of(v.draught as nat),
        v.device,
        decimal_of(v.eta as nat),
        decimal_of(v.heading as nat),
        decimal_of(v.imo as nat),
        v.latitude,
        v.longitude,
        decimal_of(v.mmsi as nat),
        v.name,
        v.nav_status,
        decimal_of(v.position_accuracy as nat),
        v.rate_of_turn,
        decimal_of(v.speed_over_ground as nat),
        decimal_of(v.timestamp as nat),
        decimal_of(v.vessel_type as nat),
    ]
}

fn tenths_cell(n: u64) -> (r: String)
    ensures
        r@ == tenths_text(n as nat),
{
    let mut out = String::new();
    push_tenths(&mut out, n);
    assert(out@ == Seq::<char>::empty() + tenths_text(n as nat));
    out
}

impl VesselRecord {
    /// The cells of the report in canonical order.
    pub fn cells(&self) -> (r: Vec<String>)
        ensures
            r@.map_values(|c: String| c@) == record_cells(self@),
    {
        let r = vec![
            decimal_text(self.bow),
            decimal_text(self.stern),
            decimal_text(self.port),
            self.callsign.clone(),
            tenths_cell(self.course_over_ground),
            decimal_text(self.starboard),
            self.destination.clone(),
            decimal_text(self.draught),
            self.device.clone(),
            decimal_text(self.eta),
            decimal_text(self.heading),
            decimal_text(self.imo),
            self.latitude.clone(),
            self.longitude.clone(),
            decimal_text(self.mmsi),
            self.name.clone(),
            self.nav_status.clone(),
            decimal_text(self.position_accuracy as u64),
            self.rate_of_turn.clone(),
            decimal_text(self.speed_over_ground),
            decimal_text(self.timestamp),
            decimal_text(self.vessel_type),
        ];
        assert(r@.map_values(|c: String| c@) =~= record_cells(self@));
        r
    }
}

} // verus!
