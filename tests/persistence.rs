use aishub_collector::record::VesselRecord;
use aishub_collector::series_store::PersistenceStore;
use aishub_collector::store::{
    append_text, last_timestamp, series_header, series_id, series_path, series_row, tail_timestamp,
    KeyKind, SeriesId, StoreError,
};

const HEADER_LINE: &str = "A,B,C,CALLSIGN,COG,D,DEST,DRAUGHT,DEVICE,ETA,HEADING,IMO,LATITUDE,LONGITUDE,MMSI,NAME,NAVSTAT,PAC,ROT,SOG,TSTAMP,TYPE\n";

fn report(imo: u64, mmsi: u64, name: &str, timestamp: u64) -> VesselRecord {
    let mut r = VesselRecord::new();
    r.imo = imo;
    r.mmsi = mmsi;
    r.name = name.to_string();
    r.timestamp = timestamp;
    r
}

fn timestamps(store: &PersistenceStore, id: &SeriesId) -> Vec<u64> {
    store.series(id).map(|v| v.iter().map(|r| r.timestamp).collect()).unwrap_or_default()
}

#[test]
fn imo_takes_precedence() {
    let r = report(123, 456, "BOTH", 10);
    let id = series_id(&r).unwrap();
    assert_eq!(id.kind, KeyKind::Imo);
    assert_eq!(id.key, 123);
    assert_eq!(series_path(&id), "data/imo/BOTH_123.csv");
    let mut store = PersistenceStore::new();
    store.append(&vec![r]);
    let mmsi_id = SeriesId { kind: KeyKind::Mmsi, key: 456, name: "BOTH".to_string() };
    assert!(store.series(&mmsi_id).is_none());
    assert_eq!(timestamps(&store, &id), vec![10]);
}

#[test]
fn unidentified_report_is_dropped() {
    let r = report(0, 0, "NONE", 10);
    assert!(series_id(&r).is_none());
    let mut store = PersistenceStore::new();
    store.append(&vec![r]);
    let id = SeriesId { kind: KeyKind::Mmsi, key: 0, name: "NONE".to_string() };
    assert!(store.series(&id).is_none());
}

#[test]
fn appending_twice_adds_nothing() {
    let batch = vec![
        report(9000001, 0, "A", 100),
        report(9000001, 0, "A", 50),
        report(0, 123456789, "B", 7),
        report(9000001, 0, "A", 200),
    ];
    let mut store = PersistenceStore::new();
    store.append(&batch);
    let a = SeriesId { kind: KeyKind::Imo, key: 9000001, name: "A".to_string() };
    let b = SeriesId { kind: KeyKind::Mmsi, key: 123456789, name: "B".to_string() };
    assert_eq!(timestamps(&store, &a), vec![100, 200]);
    assert_eq!(timestamps(&store, &b), vec![7]);
    store.append(&batch);
    assert_eq!(timestamps(&store, &a), vec![100, 200]);
    assert_eq!(timestamps(&store, &b), vec![7]);
}

#[test]
fn series_timestamps_increase() {
    let batch = vec![
        report(1, 0, "S", 30),
        report(1, 0, "S", 10),
        report(1, 0, "S", 30),
        report(1, 0, "S", 40),
        report(1, 0, "S", 35),
        report(1, 0, "S", 41),
    ];
    let mut store = PersistenceStore::new();
    store.append(&batch);
    let id = SeriesId { kind: KeyKind::Imo, key: 1, name: "S".to_string() };
    assert_eq!(timestamps(&store, &id), vec![30, 40, 41]);
}

#[test]
fn zero_timestamp_creates_empty_series() {
    let mut store = PersistenceStore::new();
    store.append(&vec![report(0, 77, "Z", 0)]);
    let id = SeriesId { kind: KeyKind::Mmsi, key: 77, name: "Z".to_string() };
    assert_eq!(timestamps(&store, &id), Vec::<u64>::new());
    assert!(store.series(&id).is_some());
}

#[test]
fn equal_timestamps_keep_one_row() {
    let r = report(9000001, 0, "EQ", 100);
    let first = append_text(None, &r).unwrap().unwrap();
    let second = append_text(Some(&first), &r).unwrap();
    assert!(second.is_none());
    assert_eq!(last_timestamp(&first), Ok(100));
    let rows = first.lines().count() - 1;
    assert_eq!(rows, 1);
    let mut store = PersistenceStore::new();
    store.append(&vec![r.clone()]);
    store.append(&vec![r]);
    let id = SeriesId { kind: KeyKind::Imo, key: 9000001, name: "EQ".to_string() };
    assert_eq!(timestamps(&store, &id), vec![100]);
}

#[test]
fn new_mmsi_series_gets_header_and_one_row() {
    let r = report(0, 123456789, "FRESH", 1000);
    let id = series_id(&r).unwrap();
    assert_eq!(series_path(&id), "data/mmsi/FRESH_123456789.csv");
    let text = append_text(None, &r).unwrap().unwrap();
    let expected_row = "0,0,0,,360.0,0,,0,,0,511,0,,,123456789,FRESH,,0,,1024,1000,0\n";
    assert_eq!(text, format!("{}{}", HEADER_LINE, expected_row));
    assert_eq!(text.lines().count(), 2);
}

#[test]
fn newer_report_appends_its_row() {
    let r1 = report(5, 0, "N", 10);
    let r2 = report(5, 0, "N", 11);
    let mut file = append_text(None, &r1).unwrap().unwrap();
    let add = append_text(Some(&file), &r2).unwrap().unwrap();
    assert_eq!(add, series_row(&r2));
    file.push_str(&add);
    assert_eq!(last_timestamp(&file), Ok(11));
    assert_eq!(append_text(Some(&file), &r1), Ok(None));
}

#[test]
fn header_only_file_reads_as_zero() {
    assert_eq!(last_timestamp(HEADER_LINE), Ok(0));
    assert_eq!(last_timestamp(""), Ok(0));
    let r = report(5, 0, "H", 1);
    assert_eq!(append_text(Some(HEADER_LINE), &r), Ok(Some(series_row(&r))));
    let r0 = report(5, 0, "H", 0);
    assert_eq!(append_text(None, &r0), Ok(Some(HEADER_LINE.to_string())));
}

#[test]
fn bad_tail_is_an_error() {
    let bad = format!("{}0,0,0,,360.0,0,,0,,0,511,5,,,0,H,,0,,1024,soon,0\n", HEADER_LINE);
    assert_eq!(last_timestamp(&bad), Err(StoreError::BadTimestamp));
    let short = format!("{}1,2\n", HEADER_LINE);
    assert_eq!(last_timestamp(&short), Err(StoreError::UnreadableRecord));
    let r = report(5, 0, "H", 1);
    assert_eq!(append_text(Some(&bad), &r), Err(StoreError::BadTimestamp));
}

#[test]
fn tail_timestamp_of_records() {
    assert_eq!(tail_timestamp(&vec![]), Ok(0));
    assert_eq!(tail_timestamp(&vec![None]), Err(StoreError::UnreadableRecord));
    let mut cells: Vec<String> = (0..22).map(|_| "0".to_string()).collect();
    cells[20] = "42".to_string();
    assert_eq!(tail_timestamp(&vec![None, Some(cells)]), Ok(42));
    assert_eq!(tail_timestamp(&vec![Some(vec!["1".to_string()])]), Err(StoreError::BadTimestamp));
}

#[test]
fn header_line_is_canonical() {
    assert_eq!(series_header(), HEADER_LINE);
}

#[test]
fn row_quotes_cells_that_need_it() {
    let r = report(5, 0, "A, B", 3);
    let row = series_row(&r);
    assert_eq!(row, "0,0,0,,360.0,0,,0,,0,511,5,,,0,\"A, B\",,0,,1024,3,0\n");
    assert_eq!(last_timestamp(&format!("{}{}", HEADER_LINE, row)), Ok(3));
}

#[test]
fn record_cells_render_values() {
    let mut r = report(9, 8, "C", 7);
    r.course_over_ground = 2315;
    let cells = r.cells();
    assert_eq!(cells.len(), 22);
    assert_eq!(cells[4], "231.5");
    assert_eq!(cells[11], "9");
    assert_eq!(cells[14], "8");
    assert_eq!(cells[20], "7");
    let d = r.duplicate();
    assert_eq!(d, r);
}

#[test]
fn empty_file_gets_header() {
    let r = report(0, 42, "E", 5);
    let expected = format!("{}{}", HEADER_LINE, series_row(&r));
    assert_eq!(append_text(Some(""), &r), Ok(Some(expected)));
}
