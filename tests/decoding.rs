use aishub_collector::controller::{after_fetch, sleep_seconds, CycleStep};
use aishub_collector::decimal::{decimal_text, parse_tenths, parse_u64, parse_u8};
use aishub_collector::decoder::{
    decode, decode_table, diagnose, get_header_order, skipped_rows, unknown_columns, DecodeOutcome,
};
use aishub_collector::record::{Field, VesselRecord};

const CANONICAL: &str = "A,B,C,CALLSIGN,COG,D,DEST,DRAUGHT,DEVICE,ETA,HEADING,IMO,LATITUDE,LONGITUDE,MMSI,NAME,NAVSTAT,PAC,ROT,SOG,TSTAMP,TYPE";

fn records(body: &str) -> Vec<VesselRecord> {
    match decode(body) {
        DecodeOutcome::Records(v) => v,
        DecodeOutcome::RateLimited => panic!("unexpected rate limit"),
        DecodeOutcome::Unreadable => panic!("unexpected unreadable body"),
    }
}

fn strings(cells: &[&str]) -> Vec<String> {
    cells.iter().map(|c| c.to_string()).collect()
}

#[test]
fn decodes_all_columns_in_canonical_order() {
    let body = format!(
        "{}\n10,20,3,CALL1,231.5,4,ROTTERDAM,85,GPS,1700000000,230,9000001,52.1,4.3,244000000,SHIP ONE,0,1,5,123,1700000100,70\n",
        CANONICAL
    );
    let v = records(&body);
    assert_eq!(v.len(), 1);
    let r = &v[0];
    assert_eq!(r.bow, 10);
    assert_eq!(r.stern, 20);
    assert_eq!(r.port, 3);
    assert_eq!(r.callsign, "CALL1");
    assert_eq!(r.course_over_ground, 2315);
    assert_eq!(r.starboard, 4);
    assert_eq!(r.destination, "ROTTERDAM");
    assert_eq!(r.draught, 85);
    assert_eq!(r.device, "GPS");
    assert_eq!(r.eta, 1700000000);
    assert_eq!(r.heading, 230);
    assert_eq!(r.imo, 9000001);
    assert_eq!(r.latitude, "52.1");
    assert_eq!(r.longitude, "4.3");
    assert_eq!(r.mmsi, 244000000);
    assert_eq!(r.name, "SHIP ONE");
    assert_eq!(r.nav_status, "0");
    assert_eq!(r.position_accuracy, 1);
    assert_eq!(r.rate_of_turn, "5");
    assert_eq!(r.speed_over_ground, 123);
    assert_eq!(r.timestamp, 1700000100);
    assert_eq!(r.vessel_type, 70);
}

#[test]
fn column_order_does_not_change_records() {
    let canonical = format!(
        "{}\n1,2,3,C1,10.0,4,D1,5,G1,6,7,8,L1,M1,9,N1,S1,1,R1,11,12,13\n14,15,16,C2,20.5,17,D2,18,G2,19,20,21,L2,M2,22,N2,S2,0,R2,23,24,25\n",
        CANONICAL
    );
    // The same columns, reversed.
    let mut header: Vec<&str> = CANONICAL.split(',').collect();
    header.reverse();
    let mut row1: Vec<&str> = "1,2,3,C1,10.0,4,D1,5,G1,6,7,8,L1,M1,9,N1,S1,1,R1,11,12,13".split(',').collect();
    row1.reverse();
    let mut row2: Vec<&str> = "14,15,16,C2,20.5,17,D2,18,G2,19,20,21,L2,M2,22,N2,S2,0,R2,23,24,25".split(',').collect();
    row2.reverse();
    let permuted = format!("{}\n{}\n{}\n", header.join(","), row1.join(","), row2.join(","));
    let a = records(&canonical);
    let b = records(&permuted);
    assert_eq!(a.len(), 2);
    assert_eq!(a, b);
    assert_eq!(a[0].timestamp, 12);
    assert_eq!(a[1].timestamp, 24);
}

#[test]
fn unknown_column_is_ignored() {
    let plain = "MMSI,NAME,TSTAMP\n123456789,ALPHA,100\n";
    let extra = "MMSI,WIDTH,NAME,TSTAMP\n123456789,99,ALPHA,100\n";
    let a = records(plain);
    let b = records(extra);
    assert_eq!(a.len(), 1);
    assert_eq!(a, b);
    assert_eq!(b[0].mmsi, 123456789);
    assert_eq!(b[0].name, "ALPHA");
}

#[test]
fn missing_columns_keep_unknown_values() {
    let v = records("MMSI,TSTAMP\n123456789,100\n");
    assert_eq!(v.len(), 1);
    let mut expected = VesselRecord::new();
    expected.mmsi = 123456789;
    expected.timestamp = 100;
    assert_eq!(v[0], expected);
    assert_eq!(v[0].course_over_ground, 3600);
    assert_eq!(v[0].heading, 511);
    assert_eq!(v[0].speed_over_ground, 1024);
    assert_eq!(v[0].callsign, "");
    assert_eq!(v[0].imo, 0);
}

#[test]
fn unknown_record_values() {
    let r = VesselRecord::new();
    assert_eq!(r.bow, 0);
    assert_eq!(r.stern, 0);
    assert_eq!(r.port, 0);
    assert_eq!(r.starboard, 0);
    assert_eq!(r.course_over_ground, 3600);
    assert_eq!(r.heading, 511);
    assert_eq!(r.speed_over_ground, 1024);
    assert_eq!(r.draught, 0);
    assert_eq!(r.eta, 0);
    assert_eq!(r.position_accuracy, 0);
    assert_eq!(r.timestamp, 0);
    assert_eq!(r.vessel_type, 0);
    assert_eq!(r.name, "");
    assert_eq!(r.latitude, "");
}

#[test]
fn malformed_row_is_skipped() {
    let v = records("MMSI,TSTAMP\n111,100\nabc,200\n333,300\n");
    assert_eq!(v.len(), 2);
    assert_eq!(v[0].mmsi, 111);
    assert_eq!(v[1].mmsi, 333);
}

#[test]
fn row_of_wrong_length_is_skipped() {
    let v = records("MMSI,TSTAMP\n111,100\n222\n333,300\n");
    assert_eq!(v.len(), 2);
    assert_eq!(v[0].mmsi, 111);
    assert_eq!(v[1].mmsi, 333);
}

#[test]
fn duplicate_column_takes_last() {
    let v = records("MMSI,MMSI,TSTAMP\n111,222,100\n");
    assert_eq!(v.len(), 1);
    assert_eq!(v[0].mmsi, 222);
}

#[test]
fn rate_limit_sentinel_decodes_apart() {
    assert!(matches!(decode("Too frequent requests!"), DecodeOutcome::RateLimited));
    assert!(matches!(decode("Too frequent requests"), DecodeOutcome::Records(_)));
}

#[test]
fn rate_limit_raises_interval() {
    match after_fetch(5, Some("Too frequent requests!")) {
        CycleStep::RaiseInterval(n) => assert_eq!(n, 6),
        _ => panic!("expected a raised interval"),
    }
}

#[test]
fn transport_failure_retries() {
    assert!(matches!(after_fetch(5, None), CycleStep::Retry));
}

#[test]
fn fetched_table_is_persisted() {
    match after_fetch(5, Some("IMO,TSTAMP\n9000001,100\n")) {
        CycleStep::Persist(v) => {
            assert_eq!(v.len(), 1);
            assert_eq!(v[0].imo, 9000001);
            assert_eq!(v[0].timestamp, 100);
        }
        _ => panic!("expected records"),
    }
}

#[test]
fn sleep_is_in_seconds() {
    assert_eq!(sleep_seconds(5), 300);
    assert_eq!(sleep_seconds(u32::MAX), u32::MAX as u64 * 60);
}

#[test]
fn header_order_maps_known_names() {
    let m = get_header_order(&strings(&["NAME", "XYZ", "TSTAMP", "TYPE"]));
    assert_eq!(m.column(Field::Name), Some(0));
    assert_eq!(m.column(Field::Timestamp), Some(2));
    assert_eq!(m.column(Field::VesselType), Some(3));
    assert_eq!(m.column(Field::Imo), None);
}

#[test]
fn decode_table_takes_rows_in_order() {
    let header = strings(&["IMO", "TSTAMP"]);
    let rows = vec![Some(strings(&["3", "30"])), None, Some(strings(&["1", "10"]))];
    let v = decode_table(&header, &rows);
    assert_eq!(v.len(), 2);
    assert_eq!(v[0].imo, 3);
    assert_eq!(v[1].imo, 1);
}

#[test]
fn field_tags_round_trip() {
    for k in 0..22 {
        let f = Field::at(k);
        assert_eq!(f.index(), k);
        assert_eq!(Field::from_tag(f.tag()), Some(f));
    }
    assert_eq!(Field::Timestamp.tag(), "TSTAMP");
    assert_eq!(Field::VesselType.tag(), "TYPE");
    assert_eq!(Field::from_tag("tstamp"), None);
}

#[test]
fn parses_unsigned_integers() {
    assert_eq!(parse_u64("0"), Some(0));
    assert_eq!(parse_u64("+12"), Some(12));
    assert_eq!(parse_u64("007"), Some(7));
    assert_eq!(parse_u64(""), None);
    assert_eq!(parse_u64("+"), None);
    assert_eq!(parse_u64("-1"), None);
    assert_eq!(parse_u64("1.5"), None);
    assert_eq!(parse_u64("18446744073709551615"), Some(u64::MAX));
    assert_eq!(parse_u64("18446744073709551616"), None);
    assert_eq!(parse_u8("255"), Some(255));
    assert_eq!(parse_u8("256"), None);
}

#[test]
fn parses_tenths() {
    assert_eq!(parse_tenths("360.0"), Some(3600));
    assert_eq!(parse_tenths("360"), Some(3600));
    assert_eq!(parse_tenths("12.34"), Some(123));
    assert_eq!(parse_tenths(".5"), Some(5));
    assert_eq!(parse_tenths("7."), Some(70));
    assert_eq!(parse_tenths("."), None);
    assert_eq!(parse_tenths(""), None);
    assert_eq!(parse_tenths("1.a"), None);
    assert_eq!(parse_tenths("1.2.3"), None);
    assert_eq!(parse_tenths("-1.0"), None);
}

#[test]
fn writes_decimals() {
    assert_eq!(decimal_text(0), "0");
    assert_eq!(decimal_text(1234), "1234");
    assert_eq!(decimal_text(u64::MAX), "18446744073709551615");
}

#[test]
fn decode_table_skips_rows_of_other_length() {
    let header = strings(&["IMO", "TSTAMP"]);
    let rows = vec![Some(strings(&["3", "30", "extra"])), Some(strings(&["1", "10"])), Some(strings(&["2"]))];
    let v = decode_table(&header, &rows);
    assert_eq!(v.len(), 1);
    assert_eq!(v[0].imo, 1);
}

#[test]
fn reports_unknown_columns() {
    assert_eq!(unknown_columns(&strings(&["MMSI", "WIDTH", "NAME", "tstamp"])), vec![1, 3]);
    assert_eq!(unknown_columns(&strings(&["MMSI", "NAME"])), Vec::<usize>::new());
}

#[test]
fn reports_skipped_rows() {
    let header = strings(&["IMO", "TSTAMP"]);
    let rows = vec![
        Some(strings(&["3", "30"])),
        None,
        Some(strings(&["x", "10"])),
        Some(strings(&["2"])),
        Some(strings(&["4", "40"])),
    ];
    assert_eq!(skipped_rows(&header, &rows), vec![1, 2, 3]);
}

#[test]
fn diagnoses_body() {
    let (unknown, skipped) = diagnose("MMSI,WIDTH,TSTAMP\n111,9,100\nabc,9,200\n222,9\n");
    assert_eq!(unknown, vec![1]);
    assert_eq!(skipped, vec![1, 2]);
    let (unknown, skipped) = diagnose("Too frequent requests!");
    assert!(unknown.is_empty() && skipped.is_empty());
}
