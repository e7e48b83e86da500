//! What holds of decoding for every header and every row.
use vstd::prelude::*;

use crate::decoder::{
    byte_cell, col, column_of, column_table, decoded_row, decoded_rows, number_cell, tenths_cell,
    text_cell,
};
use crate::record::{
    canonical_header, field_at, field_index, field_of_tag, field_tag, field_value, lemma_field_at,
    lemma_field_index, lemma_tag_field, lemma_tags_distinct, unknown_value, Field, FIELD_COUNT,
};

verus! {

/// A column name stands for a field exactly when it is that field's tag.
pub proof fn lemma_tag_names_field(t: Seq<char>, f: Field)
    ensures
        field_of_tag(t) == Some(f) <==> t == field_tag(f),
{
    lemma_tag_field(f);
    if field_of_tag(t) == Some(f) {
        let k = choose|k: int| 0 <= k < FIELD_COUNT && t == field_tag(field_at(k));
        assert(field_at(k) == f);
    }
}

/// The column of a field is the last one that names it.
pub proof fn lemma_column_of(h: Seq<Seq<char>>, f: Field)
    ensures
        match column_of(h, f) {
            Some(i) => 0 <= i < h.len() && field_of_tag(h[i]) == Some(f) && forall|j: int|
                i < j < h.len() ==> field_of_tag(#[trigger] h[j]) != Some(f),
            None => forall|j: int| 0 <= j < h.len() ==> field_of_tag(#[trigger] h[j]) != Some(f),
        },
    decreases h.len(),
{
    if h.len() > 0 {
        let p = h.drop_last();
        lemma_column_of(p, f);
        assert forall|j: int| 0 <= j < p.len() implies #[trigger] h[j] == p[j] by {}
    }
}

/// A column that names a field, with no later one naming it, is that
/// field's column.
proof fn lemma_column_at(h: Seq<Seq<char>>, f: Field, i: int)
    requires
        0 <= i < h.len(),
        field_of_tag(h[i]) == Some(f),
        forall|j: int| i < j < h.len() ==> field_of_tag(#[trigger] h[j]) != Some(f),
    ensures
        column_of(h, f) == Some(i),
{
    lemma_column_of(h, f);
    match column_of(h, f) {
        Some(c) => {
            if c < i {
                assert(field_of_tag(h[i]) != Some(f));
            } else if c > i {
                assert(field_of_tag(h[c]) != Some(f));
            }
        },
        None => {
            assert(field_of_tag(h[i]) != Some(f));
        },
    }
}

/// A header that names every field.
pub open spec fn names_every_field(h: Seq<Seq<char>>) -> bool {
    forall|f: Field| #[trigger] h.contains(field_tag(f))
}

/// The cells of a row put in canonical field order, as the header places
/// them.
pub open spec fn canonical_cells(h: Seq<Seq<char>>, row: Seq<Seq<char>>) -> Seq<Seq<char>> {
    Seq::new(FIELD_COUNT as nat, |k: int| row[column_of(h, field_at(k)).unwrap()])
}

pub open spec fn canonical_rows(h: Seq<Seq<char>>, rows: Seq<Option<Seq<Seq<char>>>>) -> Seq<
    Option<Seq<Seq<char>>>,
> {
    rows.map_values(
        |r: Option<Seq<Seq<char>>>|
            match r {
                Some(c) => Some(canonical_cells(h, c)),
                None => None,
            },
    )
}

pub open spec fn rows_have_len(rows: Seq<Option<Seq<Seq<char>>>>, n: int) -> bool {
    forall|i: int| 0 <= i < rows.len() ==> (#[trigger] rows[i] matches Some(r) ==> r.len() == n)
}

/// In the canonical header each field's column is its own position.
pub proof fn lemma_canonical_columns(f: Field)
    ensures
        column_of(canonical_header(), f) == Some(field_index(f)),
{
    let c = canonical_header();
    lemma_field_index(f);
    let i = field_index(f);
    lemma_tag_field(f);
    assert(c[i] == field_tag(f));
    assert forall|j: int| i < j < c.len() implies field_of_tag(#[trigger] c[j]) != Some(f) by {
        lemma_field_at(j);
        lemma_tags_distinct(field_at(j), f);
        lemma_tag_names_field(c[j], f);
    }
    lemma_column_at(c, f, i);
}

proof fn lemma_field_in_canonical_order(h: Seq<Seq<char>>, row: Seq<Seq<char>>, f: Field)
    requires
        names_every_field(h),
        row.len() == h.len(),
    ensures
        forall|v: u64| #[trigger]
            number_cell(col(column_table(h), f), row, v) == number_cell(
                col(column_table(canonical_header()), f),
                canonical_cells(h, row),
                v,
            ),
        forall|v: u8| #[trigger]
            byte_cell(col(column_table(h), f), row, v) == byte_cell(
                col(column_table(canonical_header()), f),
                canonical_cells(h, row),
                v,
            ),
        forall|v: u64| #[trigger]
            tenths_cell(col(column_table(h), f), row, v) == tenths_cell(
                col(column_table(canonical_header()), f),
                canonical_cells(h, row),
                v,
            ),
        text_cell(col(column_table(h), f), row) == text_cell(
            col(column_table(canonical_header()), f),
            canonical_cells(h, row),
        ),
{
    lemma_field_index(f);
    assert(h.contains(field_tag(f)));
    let j = choose|j: int| 0 <= j < h.len() && h[j] == field_tag(f);
    lemma_tag_names_field(h[j], f);
    lemma_column_of(h, f);
    lemma_canonical_columns(f);
}

proof fn lemma_row_in_canonical_order(h: Seq<Seq<char>>, row: Seq<Seq<char>>)
    requires
        names_every_field(h),
        row.len() == h.len(),
    ensures
        decoded_row(column_table(h), row) == decoded_row(
            column_table(canonical_header()),
            canonical_cells(h, row),
        ),
{
    lemma_field_in_canonical_order(h, row, Field::Bow);
    lemma_field_in_canonical_order(h, row, Field::Stern);
    lemma_field_in_canonical_order(h, row, Field::Port);
    lemma_field_in_canonical_order(h, row, Field::Callsign);
    lemma_field_in_canonical_order(h, row, Field::CourseOverGround);
    lemma_field_in_canonical_order(h, row, Field::Starboard);
    lemma_field_in_canonical_order(h, row, Field::Destination);
    lemma_field_in_canonical_order(h, row, Field::Draught);
    lemma_field_in_canonical_order(h, row, Field::Device);
    lemma_field_in_canonical_order(h, row, Field::Eta);
    lemma_field_in_canonical_order(h, row, Field::Heading);
    lemma_field_in_canonical_order(h, row, Field::Imo);
    lemma_field_in_canonical_order(h, row, Field::Latitude);
    lemma_field_in_canonical_order(h, row, Field::Longitude);
    lemma_field_in_canonical_order(h, row, Field::Mmsi);
    lemma_field_in_canonical_order(h, row, Field::Name);
    lemma_field_in_canonical_order(h, row, Field::NavStatus);
    lemma_field_in_canonical_order(h, row, Field::PositionAccuracy);
    lemma_field_in_canonical_order(h, row, Field::RateOfTurn);
    lemma_field_in_canonical_order(h, row, Field::SpeedOverGround);
    lemma_field_in_canonical_order(h, row, Field::Timestamp);
    lemma_field_in_canonical_order(h, row, Field::VesselType);
}

/// Decoding does not depend on the order of the columns: under a header
/// that names every field (any order of the 22 names, for one), the rows
/// give, in the same order, the reports that their cells give when put in
/// canonical order under the canonical header.
pub proof fn lemma_column_order_irrelevant(
    h: Seq<Seq<char>>,
    rows: Seq<Option<Seq<Seq<char>>>>,
)
    requires
        names_every_field(h),
        rows_have_len(rows, h.len() as int),
    ensures
        decoded_rows(column_table(h), h.len() as int, rows) == decoded_rows(
            column_table(canonical_header()),
            FIELD_COUNT as int,
            canonical_rows(h, rows),
        ),
    decreases rows.len(),
{
    if rows.len() > 0 {
        let p = rows.drop_last();
        assert forall|i: int| 0 <= i < p.len() implies (#[trigger] p[i] matches Some(r) ==> r.len()
            == h.len()) by {
            assert(p[i] == rows[i]);
        }
        lemma_column_order_irrelevant(h, p);
        assert(canonical_rows(h, rows).drop_last() == canonical_rows(h, p));
        assert(rows[rows.len() - 1] == rows.last());
        match rows.last() {
            Some(r) => {
                lemma_row_in_canonical_order(h, r);
            },
            None => {},
        }
    }
}

/// Where a column is inserted, the column index of the cells after it.
pub open spec fn shifted(c: Option<int>, k: int) -> Option<int> {
    match c {
        Some(i) => Some(
            if i < k {
                i
            } else {
                i + 1
            },
        ),
        None => None,
    }
}

proof fn lemma_insert_column(h: Seq<Seq<char>>, k: int, u: Seq<char>, f: Field)
    requires
        0 <= k <= h.len(),
        field_of_tag(u) is None,
    ensures
        column_of(h.insert(k, u), f) == shifted(column_of(h, f), k),
{
    let g = h.insert(k, u);
    h.insert_ensures(k, u);
    lemma_column_of(h, f);
    lemma_column_of(g, f);
    match column_of(h, f) {
        Some(i) => {
            let i2 = if i < k {
                i
            } else {
                i + 1
            };
            assert(g[i2] == h[i]);
            assert forall|j: int| i2 < j < g.len() implies field_of_tag(#[trigger] g[j]) != Some(
                f,
            ) by {
                if j < k {
                    assert(g[j] == h[j]);
                } else if j > k {
                    assert(g[j] == h[j - 1]);
                }
            }
            lemma_column_at(g, f, i2);
        },
        None => {
            match column_of(g, f) {
                Some(c) => {
                    if c < k {
                        assert(g[c] == h[c]);
                    } else if c > k {
                        assert(g[c] == h[c - 1]);
                    }
                },
                None => {},
            }
        },
    }
}

proof fn lemma_cells_shift(c: Option<int>, row: Seq<Seq<char>>, k: int, x: Seq<char>)
    requires
        0 <= k <= row.len(),
        c matches Some(i) ==> 0 <= i,
    ensures
        forall|v: u64| #[trigger]
            number_cell(shifted(c, k), row.insert(k, x), v) == number_cell(c, row, v),
        forall|v: u8| #[trigger] byte_cell(shifted(c, k), row.insert(k, x), v) == byte_cell(c, row, v),
        forall|v: u64| #[trigger]
            tenths_cell(shifted(c, k), row.insert(k, x), v) == tenths_cell(c, row, v),
        text_cell(shifted(c, k), row.insert(k, x)) == text_cell(c, row),
{
    row.insert_ensures(k, x);
}

proof fn lemma_field_shift(
    h: Seq<Seq<char>>,
    row: Seq<Seq<char>>,
    k: int,
    u: Seq<char>,
    x: Seq<char>,
    f: Field,
)
    requires
        0 <= k <= h.len(),
        field_of_tag(u) is None,
        row.len() == h.len(),
    ensures
        col(column_table(h.insert(k, u)), f) == shifted(col(column_table(h), f), k),
        forall|v: u64| #[trigger]
            number_cell(col(column_table(h.insert(k, u)), f), row.insert(k, x), v) == number_cell(
                col(column_table(h), f),
                row,
                v,
            ),
        forall|v: u8| #[trigger]
            byte_cell(col(column_table(h.insert(k, u)), f), row.insert(k, x), v) == byte_cell(
                col(column_table(h), f),
                row,
                v,
            ),
        forall|v: u64| #[trigger]
            tenths_cell(col(column_table(h.insert(k, u)), f), row.insert(k, x), v) == tenths_cell(
                col(column_table(h), f),
                row,
                v,
            ),
        text_cell(col(column_table(h.insert(k, u)), f), row.insert(k, x)) == text_cell(
            col(column_table(h), f),
            row,
        ),
{
    lemma_field_index(f);
    lemma_insert_column(h, k, u, f);
    lemma_column_of(h, f);
    lemma_cells_shift(col(column_table(h), f), row, k, x);
}

proof fn lemma_row_with_extra_cell(
    h: Seq<Seq<char>>,
    row: Seq<Seq<char>>,
    k: int,
    u: Seq<char>,
    x: Seq<char>,
)
    requires
        0 <= k <= h.len(),
        field_of_tag(u) is None,
        row.len() == h.len(),
    ensures
        decoded_row(column_table(h.insert(k, u)), row.insert(k, x)) == decoded_row(
            column_table(h),
            row,
        ),
{
    lemma_field_shift(h, row, k, u, x, Field::Bow);
    lemma_field_shift(h, row, k, u, x, Field::Stern);
    lemma_field_shift(h, row, k, u, x, Field::Port);
    lemma_field_shift(h, row, k, u, x, Field::Callsign);
    lemma_field_shift(h, row, k, u, x, Field::CourseOverGround);
    lemma_field_shift(h, row, k, u, x, Field::Starboard);
    lemma_field_shift(h, row, k, u, x, Field::Destination);
    lemma_field_shift(h, row, k, u, x, Field::Draught);
    lemma_field_shift(h, row, k, u, x, Field::Device);
    lemma_field_shift(h, row, k, u, x, Field::Eta);
    lemma_field_shift(h, row, k, u, x, Field::Heading);
    lemma_field_shift(h, row, k, u, x, Field::Imo);
    lemma_field_shift(h, row, k, u, x, Field::Latitude);
    lemma_field_shift(h, row, k, u, x, Field::Longitude);
    lemma_field_shift(h, row, k, u, x, Field::Mmsi);
    lemma_field_shift(h, row, k, u, x, Field::Name);
    lemma_field_shift(h, row, k, u, x, Field::NavStatus);
    lemma_field_shift(h, row, k, u, x, Field::PositionAccuracy);
    lemma_field_shift(h, row, k, u, x, Field::RateOfTurn);
    lemma_field_shift(h, row, k, u, x, Field::SpeedOverGround);
    lemma_field_shift(h, row, k, u, x, Field::Timestamp);
    lemma_field_shift(h, row, k, u, x, Field::VesselType);
}

/// Each row with the cell `cells[i]` inserted at position `k`.
pub open spec fn rows_with_cell(
    rows: Seq<Option<Seq<Seq<char>>>>,
    k: int,
    cells: Seq<Seq<char>>,
) -> Seq<Option<Seq<Seq<char>>>> {
    Seq::new(
        rows.len(),
        |i: int|
            match rows[i] {
                Some(r) => Some(r.insert(k, cells[i])),
                None => None,
            },
    )
}

/// A column whose name is none of the 22 is ignored: inserting one, at any
/// position of the header and with any cells in the rows, leaves the
/// decoded reports as they were.
pub proof fn lemma_unknown_column_ignored(
    h: Seq<Seq<char>>,
    rows: Seq<Option<Seq<Seq<char>>>>,
    k: int,
    u: Seq<char>,
    cells: Seq<Seq<char>>,
)
    requires
        0 <= k <= h.len(),
        field_of_tag(u) is None,
        rows_have_len(rows, h.len() as int),
        cells.len() == rows.len(),
    ensures
        decoded_rows(
            column_table(h.insert(k, u)),
            h.len() + 1 as int,
            rows_with_cell(rows, k, cells),
        ) == decoded_rows(column_table(h), h.len() as int, rows),
    decreases rows.len(),
{
    if rows.len() > 0 {
        let p = rows.drop_last();
        let n = rows.len() - 1;
        assert forall|i: int| 0 <= i < p.len() implies (#[trigger] p[i] matches Some(r) ==> r.len()
            == h.len()) by {
            assert(p[i] == rows[i]);
        }
        lemma_unknown_column_ignored(h, p, k, u, cells.drop_last());
        assert(rows_with_cell(rows, k, cells).drop_last() == rows_with_cell(
            p,
            k,
            cells.drop_last(),
        ));
        assert(rows[n] == rows.last());
        match rows.last() {
            Some(r) => {
                lemma_row_with_extra_cell(h, r, k, u, cells[n]);
            },
            None => {},
        }
    }
}

/// A report decoded under a header that has no column for a field carries
/// that field's unknown value.
pub proof fn lemma_absent_column_unknown(h: Seq<Seq<char>>, row: Seq<Seq<char>>, f: Field)
    requires
        !h.contains(field_tag(f)),
        decoded_row(column_table(h), row) is Some,
    ensures
        field_value(decoded_row(column_table(h), row).unwrap(), f) == unknown_value(f),
{
    lemma_column_of(h, f);
    lemma_field_index(f);
    if column_of(h, f) is Some {
        let i = column_of(h, f).unwrap();
        lemma_tag_names_field(h[i], f);
        assert(h.contains(field_tag(f)));
    }
    assert(col(column_table(h), f) is None);
}

/// `pi` and `inv` are permutations of `0..n`, each undoing the other.
pub open spec fn is_permutation_pair(pi: Seq<int>, inv: Seq<int>, n: int) -> bool {
    &&& pi.len() == n
    &&& inv.len() == n
    &&& forall|j: int| 0 <= j < n ==> 0 <= #[trigger] pi[j] < n && inv[pi[j]] == j
    &&& forall|p: int| 0 <= p < n ==> 0 <= #[trigger] inv[p] < n && pi[inv[p]] == p
}

/// The cells moved so that the cell at `j` stands at `pi[j]`; `inv` is the
/// inverse of `pi`.
pub open spec fn moved<A>(s: Seq<A>, inv: Seq<int>) -> Seq<A> {
    Seq::new(s.len(), |p: int| s[inv[p]])
}

pub open spec fn moved_rows(rows: Seq<Option<Seq<Seq<char>>>>, inv: Seq<int>) -> Seq<
    Option<Seq<Seq<char>>>,
> {
    rows.map_values(
        |r: Option<Seq<Seq<char>>>|
            match r {
                Some(c) => Some(moved(c, inv)),
                None => None,
            },
    )
}

pub open spec fn moved_column(c: Option<int>, pi: Seq<int>) -> Option<int> {
    match c {
        Some(i) => Some(pi[i]),
        None => None,
    }
}

/// Where the columns of a header without repeated names are moved, each
/// field's column moves with its name.
pub proof fn lemma_column_moves(h: Seq<Seq<char>>, pi: Seq<int>, inv: Seq<int>, f: Field)
    requires
        h.no_duplicates(),
        is_permutation_pair(pi, inv, h.len() as int),
    ensures
        column_of(moved(h, inv), f) == moved_column(column_of(h, f), pi),
{
    let g = moved(h, inv);
    lemma_column_of(h, f);
    lemma_column_of(g, f);
    match column_of(h, f) {
        Some(i) => {
            let q = pi[i];
            assert(g[q] == h[i]);
            assert forall|p: int| q < p < g.len() implies field_of_tag(#[trigger] g[p]) != Some(f) by {
                if field_of_tag(g[p]) == Some(f) {
                    let j = inv[p];
                    assert(g[p] == h[j]);
                    lemma_tag_names_field(h[j], f);
                    lemma_tag_names_field(h[i], f);
                    assert(j == i);
                }
            }
            lemma_column_at(g, f, q);
        },
        None => {
            match column_of(g, f) {
                Some(p) => {
                    assert(g[p] == h[inv[p]]);
                },
                None => {},
            }
        },
    }
}

proof fn lemma_field_moves(
    h: Seq<Seq<char>>,
    row: Seq<Seq<char>>,
    pi: Seq<int>,
    inv: Seq<int>,
    f: Field,
)
    requires
        h.no_duplicates(),
        is_permutation_pair(pi, inv, h.len() as int),
        row.len() == h.len(),
    ensures
        forall|v: u64| #[trigger]
            number_cell(col(column_table(moved(h, inv)), f), moved(row, inv), v) == number_cell(
                col(column_table(h), f),
                row,
                v,
            ),
        forall|v: u8| #[trigger]
            byte_cell(col(column_table(moved(h, inv)), f), moved(row, inv), v) == byte_cell(
                col(column_table(h), f),
                row,
                v,
            ),
        forall|v: u64| #[trigger]
            tenths_cell(col(column_table(moved(h, inv)), f), moved(row, inv), v) == tenths_cell(
                col(column_table(h), f),
                row,
                v,
            ),
        text_cell(col(column_table(moved(h, inv)), f), moved(row, inv)) == text_cell(
            col(column_table(h), f),
            row,
        ),
{
    lemma_field_index(f);
    lemma_column_moves(h, pi, inv, f);
    lemma_column_of(h, f);
    if column_of(h, f) is Some {
        let i = column_of(h, f).unwrap();
        assert(moved(row, inv)[pi[i]] == row[i]);
    }
}

proof fn lemma_row_moves(h: Seq<Seq<char>>, row: Seq<Seq<char>>, pi: Seq<int>, inv: Seq<int>)
    requires
        h.no_duplicates(),
        is_permutation_pair(pi, inv, h.len() as int),
        row.len() == h.len(),
    ensures
        decoded_row(column_table(moved(h, inv)), moved(row, inv)) == decoded_row(
            column_table(h),
            row,
        ),
{
    lemma_field_moves(h, row, pi, inv, Field::Bow);
    lemma_field_moves(h, row, pi, inv, Field::Stern);
    lemma_field_moves(h, row, pi, inv, Field::Port);
    lemma_field_moves(h, row, pi, inv, Field::Callsign);
    lemma_field_moves(h, row, pi, inv, Field::CourseOverGround);
    lemma_field_moves(h, row, pi, inv, Field::Starboard);
    lemma_field_moves(h, row, pi, inv, Field::Destination);
    lemma_field_moves(h, row, pi, inv, Field::Draught);
    lemma_field_moves(h, row, pi, inv, Field::Device);
    lemma_field_moves(h, row, pi, inv, Field::Eta);
    lemma_field_moves(h, row, pi, inv, Field::Heading);
    lemma_field_moves(h, row, pi, inv, Field::Imo);
    lemma_field_moves(h, row, pi, inv, Field::Latitude);
    lemma_field_moves(h, row, pi, inv, Field::Longitude);
    lemma_field_moves(h, row, pi, inv, Field::Mmsi);
    lemma_field_moves(h, row, pi, inv, Field::Name);
    lemma_field_moves(h, row, pi, inv, Field::NavStatus);
    lemma_field_moves(h, row, pi, inv, Field::PositionAccuracy);
    lemma_field_moves(h, row, pi, inv, Field::RateOfTurn);
    lemma_field_moves(h, row, pi, inv, Field::SpeedOverGround);
    lemma_field_moves(h, row, pi, inv, Field::Timestamp);
    lemma_field_moves(h, row, pi, inv, Field::VesselType);
}

/// Moving the columns of a table (the header, none of whose names repeats,
/// and every row alike, by one permutation) leaves the decoded reports as
/// they were, row for row and field for field.
pub proof fn lemma_moved_columns_same_reports(
    h: Seq<Seq<char>>,
    rows: Seq<Option<Seq<Seq<char>>>>,
    pi: Seq<int>,
    inv: Seq<int>,
)
    requires
        h.no_duplicates(),
        is_permutation_pair(pi, inv, h.len() as int),
    ensures
        decoded_rows(column_table(moved(h, inv)), h.len() as int, moved_rows(rows, inv))
            == decoded_rows(column_table(h), h.len() as int, rows),
    decreases rows.len(),
{
    if rows.len() > 0 {
        let p = rows.drop_last();
        lemma_moved_columns_same_reports(h, p, pi, inv);
        assert(moved_rows(rows, inv).drop_last() == moved_rows(p, inv));
        assert(moved(h, inv).len() == h.len());
        match rows.last() {
            Some(r) => {
                assert(moved_rows(rows, inv).last() == Some(moved(r, inv)));
                if r.len() == h.len() {
                    lemma_row_moves(h, r, pi, inv);
                }
            },
            None => {
                assert(moved_rows(rows, inv).last() is None);
            },
        }
    }
}

/// The column mapping of a header whose columns are moved (none of its
/// names repeating) binds each field to the position its name moved to.
pub proof fn lemma_header_order_moves(h: Seq<Seq<char>>, pi: Seq<int>, inv: Seq<int>)
    requires
        h.no_duplicates(),
        is_permutation_pair(pi, inv, h.len() as int),
    ensures
        forall|k: int|
            0 <= k < FIELD_COUNT ==> #[trigger] column_table(moved(h, inv))[k] == moved_column(
                column_table(h)[k],
                pi,
            ),
{
    assert forall|k: int| 0 <= k < FIELD_COUNT implies #[trigger] column_table(moved(h, inv))[k]
        == moved_column(column_table(h)[k], pi) by {
        lemma_column_moves(h, pi, inv, field_at(k));
    }
}

} // verus!
