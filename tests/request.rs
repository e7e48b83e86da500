use aishub_collector::request::{get_list_of_ships, make_aishub_url, split_ship_list, vec_to_comma_separated_string};

#[test]
fn joins_with_commas() {
    let v = vec!["123".to_string(), "456".to_string(), "789".to_string()];
    assert_eq!(vec_to_comma_separated_string(&v), Some("123,456,789".to_string()));
    assert_eq!(vec_to_comma_separated_string(&vec!["1".to_string()]), Some("1".to_string()));
    assert_eq!(vec_to_comma_separated_string(&Vec::new()), None);
}

#[test]
fn url_with_required_parameters_only() {
    let url = make_aishub_url("KEY", 1, "csv", 0, None, None, None, None, None, None, None);
    assert_eq!(url, "https://data.aishub.net/ws.php?username=KEY&format=1&output=csv&compress=0");
}

#[test]
fn url_with_all_parameters() {
    let url = make_aishub_url(
        "KEY",
        1,
        "csv",
        0,
        Some("50.5"),
        Some("60"),
        Some("-10"),
        Some("5"),
        Some("111,222"),
        Some("9000001"),
        Some(3600),
    );
    assert_eq!(
        url,
        "https://data.aishub.net/ws.php?username=KEY&format=1&output=csv&compress=0&latmin=50.5&latmax=60&lonmin=-10&lonmax=5&mmsi=111,222&imo=9000001&interval=3600"
    );
}

#[test]
fn ship_list_prefers_imo() {
    let text = "IMO,MMSI\n9000001,244000000\n,123456789\n,\n9000002,\n";
    let (imo, mmsi) = get_list_of_ships(text);
    assert_eq!(imo, vec!["9000001".to_string(), "9000002".to_string()]);
    assert_eq!(mmsi, vec!["123456789".to_string()]);
}

#[test]
fn ship_list_skips_refused_and_short_rows() {
    let rows = vec![None, Some(vec!["".to_string()]), Some(vec!["".to_string(), "5".to_string()])];
    let (imo, mmsi) = split_ship_list(&rows);
    assert!(imo.is_empty());
    assert_eq!(mmsi, vec!["5".to_string()]);
}
