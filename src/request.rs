//! The request to the tracking service: the list of tracked vessels and
//! the query that asks for their reports.
use vstd::prelude::*;

use crate::decimal::{decimal_of, push_decimal};
use crate::table::{cells_view, csv_records_of, read_records, rows_view};

verus! {

/// Texts joined with a comma between each two.
pub open spec fn comma_joined(s: Seq<Seq<char>>) -> Seq<char>
    decreases s.len(),
{
    if s.len() == 0 {
        Seq::empty()
    } else if s.len() == 1 {
        s[0]
    } else {
        comma_joined(s.drop_last()) + ","@ + s.last()
    }
}

/// The values joined with commas (`["123", "456"]` gives `"123,456"`);
/// `None` for no value.
pub fn vec_to_comma_separated_string(vec: &Vec<String>) -> (r: Option<String>)
    ensures
        match r {
            Some(t) => vec@.len() > 0 && t@ == comma_joined(cells_view(vec@)),
            None => vec@.len() == 0,
        },
{
    if vec.len() == 0 {
        return None;
    }
    let ghost s = cells_view(vec@);
    let mut result = String::new();
    let mut i: usize = 0;
    while i < vec.len()
        invariant
            i <= vec@.len(),
            s == cells_view(vec@),
            vec@.len() > 0,
            result@ == comma_joined(s.subrange(0, i as int)),
        decreases vec@.len() - i,
    {
        let ghost p = s.subrange(0, i + 1);
        assert(p.drop_last() == s.subrange(0, i as int));
        if i > 0 {
            result.append(",");
        }
        result.append(vec[i].as_str());
        proof {
            if i == 0 {
                assert(result@ == Seq::<char>::empty() + vec@[0]@);
                assert(result@ =~= p[0]);
            } else {
                assert(p.last() == vec@[i as int]@);
            }
        }
        i = i + 1;
    }
    assert(s.subrange(0, vec@.len() as int) == s);
    Some(result)
}

pub open spec fn opt_text(t: Option<&str>) -> Option<Seq<char>> {
    match t {
        Some(s) => Some(s@),
        None => None,
    }
}

/// An optional query parameter: `&name=value` where there is a value.
pub open spec fn param(name: Seq<char>, value: Option<Seq<char>>) -> Seq<char> {
    match value {
        Some(v) => name + v,
        None => Seq::empty(),
    }
}

pub open spec fn number_param(name: Seq<char>, value: Option<u64>) -> Seq<char> {
    match value {
        Some(v) => name + decimal_of(v as nat),
        None => Seq::empty(),
    }
}

/// The query for the service's endpoint: credentials, data and output
/// formats and compression, then each optional filter that has a value
/// (bounding box, key lists, largest age).
pub open spec fn aishub_url(
    api_key: Seq<char>,
    data_value_format: u8,
    output_format: Seq<char>,
    compression: u8,
    lat_min: Option<Seq<char>>,
    lat_max: Option<Seq<char>>,
    lon_min: Option<Seq<char>>,
    lon_max: Option<Seq<char>>,
    mmsi: Option<Seq<char>>,
    imo: Option<Seq<char>>,
    age_max: Option<u64>,
) -> Seq<char> {
    "https://data.aishub.net/ws.php?username="@ + api_key + "&format="@ + decimal_of(
        data_value_format as nat,
    ) + "&output="@ + output_format + "&compress="@ + decimal_of(compression as nat) + param(
        "&latmin="@,
        lat_min,
    ) + param("&latmax="@, lat_max) + param("&lonmin="@, lon_min) + param("&lonmax="@, lon_max)
        + param("&mmsi="@, mmsi) + param("&imo="@, imo) + number_param("&interval="@, age_max)
}

fn push_param(url: &mut String, name: &str, value: Option<&str>)
    ensures
        final(url)@ == old(url)@ + param(name@, opt_text(value)),
{
    match value {
        Some(v) => {
            url.append(name);
            url.append(v);
        },
        None => {
            assert(url@ + Seq::<char>::empty() == url@);
        },
    }
}

/// The query URL. The coordinates come as the texts to put in the query.
pub fn make_aishub_url(
    api_key: &str,
    data_value_format: u8,
    output_format: &str,
    compression: u8,
    lat_min: Option<&str>,
    lat_max: Option<&str>,
    lon_min: Option<&str>,
    lon_max: Option<&str>,
    mmsi: Option<&str>,
    imo: Option<&str>,
    age_max: Option<u64>,
) -> (r: String)
    ensures
        r@ == aishub_url(
            api_key@,
            data_value_format,
            output_format@,
            compression,
            opt_text(lat_min),
            opt_text(lat_max),
            opt_text(lon_min),
            opt_text(lon_max),
            opt_text(mmsi),
            opt_text(imo),
            age_max,
        ),
{
    let mut url = String::from_str("https://data.aishub.net/ws.php?username=");
    url.append(api_key);
    url.append("&format=");
    push_decimal(&mut url, data_value_format as u64);
    url.append("&output=");
    url.append(output_format);
    url.append("&compress=");
    push_decimal(&mut url, compression as u64);
    push_param(&mut url, "&latmin=", lat_min);
    push_param(&mut url, "&latmax=", lat_max);
    push_param(&mut url, "&lonmin=", lon_min);
    push_param(&mut url, "&lonmax=", lon_max);
    push_param(&mut url, "&mmsi=", mmsi);
    push_param(&mut url, "&imo=", imo);
    match age_max {
        Some(v) => {
            url.append("&interval=");
            push_decimal(&mut url, v);
        },
        None => {
            assert(url@ + Seq::<char>::empty() == url@);
        },
    }
    url
}

/// A cell of a row, empty where the row is shorter.
pub open spec fn cell_or_empty(cells: Seq<Seq<char>>, i: int) -> Seq<char> {
    if 0 <= i < cells.len() {
        cells[i]
    } else {
        Seq::empty()
    }
}

/// The tracked vessels of a list whose rows give an IMO number, then an
/// MMSI number: a row with an IMO number goes to the IMO keys, else one with
/// an MMSI number to the MMSI keys, else (and a row the reader refused) to
/// neither.
pub open spec fn ship_lists(rows: Seq<Option<Seq<Seq<char>>>>) -> (Seq<Seq<char>>, Seq<Seq<char>>)
    decreases rows.len(),
{
    if rows.len() == 0 {
        (Seq::empty(), Seq::empty())
    } else {
        let (imo, mmsi) = ship_lists(rows.drop_last());
        match rows.last() {
            Some(cells) => if cell_or_empty(cells, 0).len() > 0 {
                (imo.push(cell_or_empty(cells, 0)), mmsi)
            } else if cell_or_empty(cells, 1).len() > 0 {
                (imo, mmsi.push(cell_or_empty(cells, 1)))
            } else {
                (imo, mmsi)
            },
            None => (imo, mmsi),
        }
    }
}

/// The IMO keys and the MMSI keys of a list's rows.
pub fn split_ship_list(rows: &Vec<Option<Vec<String>>>) -> (r: (Vec<String>, Vec<String>))
    ensures
        (cells_view(r.0@), cells_view(r.1@)) == ship_lists(rows_view(rows@)),
{
    let mut imo: Vec<String> = Vec::new();
    let mut mmsi: Vec<String> = Vec::new();
    let mut i: usize = 0;
    while i < rows.len()
        invariant
            i <= rows@.len(),
            (cells_view(imo@), cells_view(mmsi@)) == ship_lists(
                rows_view(rows@).subrange(0, i as int),
            ),
        decreases rows@.len() - i,
    {
        let ghost p = rows_view(rows@).subrange(0, i + 1);
        assert(p.drop_last() == rows_view(rows@).subrange(0, i as int));
        let ghost imo0 = imo@;
        let ghost mmsi0 = mmsi@;
        match &rows[i] {
            Some(cells) => {
                assert(p.last() == Some(cells_view(cells@)));
                let first_empty = cells.len() == 0 || cells[0].unicode_len() == 0;
                if !first_empty {
                    imo.push(cells[0].clone());
                    assert(cells_view(imo@) =~= cells_view(imo0).push(cell_or_empty(cells_view(cells@), 0)));
                } else {
                    let second_empty = cells.len() < 2 || cells[1].unicode_len() == 0;
                    if !second_empty {
                        mmsi.push(cells[1].clone());
                        assert(cells_view(mmsi@) =~= cells_view(mmsi0).push(cell_or_empty(cells_view(cells@), 1)));
                    }
                }
            },
            None => {},
        }
        i = i + 1;
    }
    assert(rows_view(rows@).subrange(0, rows@.len() as int) == rows_view(rows@));
    (imo, mmsi)
}

/// The IMO keys and the MMSI keys of a list's text, whose first row is a
/// header.
pub fn get_list_of_ships(text: &str) -> (r: (Vec<String>, Vec<String>))
    ensures
        (cells_view(r.0@), cells_view(r.1@)) == ship_lists(csv_records_of(text@)),
{
    let rows = read_records(text);
    split_ship_list(&rows)
}

} // verus!
