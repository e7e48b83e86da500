//! A store of series held in memory. It follows the rules of a series file:
//! a report goes to the series of its IMO number, else of its MMSI number;
//! a series is created on the first report routed to it; a report is kept
//! only when it is newer than the series' last row.
//!
//! The laws proved here (adding the same reports twice adds nothing, the
//! timestamps of a series strictly increase, IMO numbers take precedence)
//! hold of this in-memory store. Series files on disk are written through
//! `store::append_text`, which applies the same routing and the same
//! keep-or-skip rule to the last record it reads back from a file; that
//! reading goes through the `csv` reader, whose result is only named, so
//! these laws are not proved of the files themselves.
use vstd::prelude::*;

use crate::decoder::records_view;
use crate::record::{VesselRecord, VesselRecordView};
use crate::store::{accepts, is_newer, last_timestamp_of, series_id, series_of, KeyKind, SeriesId, SeriesIdView};

verus! {

/// The rows of a series, empty where the store has none.
pub open spec fn series_rows(
    s: Map<SeriesIdView, Seq<VesselRecordView>>,
    id: SeriesIdView,
) -> Seq<VesselRecordView> {
    if s.contains_key(id) {
        s[id]
    } else {
        Seq::empty()
    }
}

/// A store after one report: unchanged where the report has no series,
/// else its series exists and holds the report at its end where it is
/// newer than the series' last row.
pub open spec fn store_after_one(
    s: Map<SeriesIdView, Seq<VesselRecordView>>,
    v: VesselRecordView,
) -> Map<SeriesIdView, Seq<VesselRecordView>> {
    match series_of(v) {
        None => s,
        Some(id) => {
            let rows = series_rows(s, id);
            s.insert(
                id,
                if accepts(last_timestamp_of(rows), v) {
                    rows.push(v)
                } else {
                    rows
                },
            )
        },
    }
}

/// A store after a sequence of reports, taken in order.
pub open spec fn store_after(
    s: Map<SeriesIdView, Seq<VesselRecordView>>,
    recs: Seq<VesselRecordView>,
) -> Map<SeriesIdView, Seq<VesselRecordView>>
    decreases recs.len(),
{
    if recs.len() == 0 {
        s
    } else {
        store_after_one(store_after(s, recs.drop_last()), recs.last())
    }
}

pub open spec fn strictly_increasing(rows: Seq<VesselRecordView>) -> bool {
    forall|i: int, j: int| 0 <= i < j < rows.len() ==> #[trigger] rows[i].timestamp < #[trigger] rows[j].timestamp
}

/// Every series of the store has strictly increasing timestamps.
pub open spec fn all_increasing(s: Map<SeriesIdView, Seq<VesselRecordView>>) -> bool {
    forall|id: SeriesIdView| #[trigger] s.contains_key(id) ==> strictly_increasing(s[id])
}

/// A report that a store would skip: its series exists and its timestamp
/// is not above the series' last one.
pub open spec fn covered(s: Map<SeriesIdView, Seq<VesselRecordView>>, v: VesselRecordView) -> bool {
    match series_of(v) {
        None => true,
        Some(id) => s.contains_key(id) && v.timestamp <= last_timestamp_of(s[id]),
    }
}

proof fn lemma_last_is_max(rows: Seq<VesselRecordView>)
    requires
        strictly_increasing(rows),
    ensures
        forall|i: int| 0 <= i < rows.len() ==> #[trigger] rows[i].timestamp <= last_timestamp_of(rows),
{
    assert forall|i: int| 0 <= i < rows.len() implies #[trigger] rows[i].timestamp <= last_timestamp_of(
        rows,
    ) by {
        if i < rows.len() - 1 {
            assert(rows[i].timestamp < rows[rows.len() - 1].timestamp);
        }
    }
}

proof fn lemma_one_keeps_increasing(s: Map<SeriesIdView, Seq<VesselRecordView>>, v: VesselRecordView)
    requires
        all_increasing(s),
    ensures
        all_increasing(store_after_one(s, v)),
{
    match series_of(v) {
        None => {},
        Some(id) => {
            let rows = series_rows(s, id);
            let t = store_after_one(s, v);
            if accepts(last_timestamp_of(rows), v) {
                lemma_last_is_max(rows);
                let p = rows.push(v);
                assert forall|i: int, j: int| 0 <= i < j < p.len() implies #[trigger] p[i].timestamp
                    < #[trigger] p[j].timestamp by {
                    if j == rows.len() {
                        assert(p[i] == rows[i]);
                    } else {
                        assert(p[i] == rows[i] && p[j] == rows[j]);
                    }
                }
            }
            assert forall|k: SeriesIdView| #[trigger] t.contains_key(k) implies strictly_increasing(
                t[k],
            ) by {
                if k != id {
                    assert(s.contains_key(k));
                }
            }
        },
    }
}

/// The timestamps of every series stay strictly increasing, in row order,
/// whatever reports are added.
pub proof fn lemma_series_stay_increasing(
    s: Map<SeriesIdView, Seq<VesselRecordView>>,
    recs: Seq<VesselRecordView>,
)
    requires
        all_increasing(s),
    ensures
        all_increasing(store_after(s, recs)),
    decreases recs.len(),
{
    if recs.len() > 0 {
        lemma_series_stay_increasing(s, recs.drop_last());
        lemma_one_keeps_increasing(store_after(s, recs.drop_last()), recs.last());
    }
}

proof fn lemma_one_keeps_covered(
    s: Map<SeriesIdView, Seq<VesselRecordView>>,
    w: VesselRecordView,
    v: VesselRecordView,
)
    requires
        covered(s, v),
    ensures
        covered(store_after_one(s, w), v),
{
}

proof fn lemma_one_covers_itself(s: Map<SeriesIdView, Seq<VesselRecordView>>, v: VesselRecordView)
    ensures
        covered(store_after_one(s, v), v),
{
}

proof fn lemma_store_covers(s: Map<SeriesIdView, Seq<VesselRecordView>>, recs: Seq<VesselRecordView>)
    ensures
        forall|i: int| 0 <= i < recs.len() ==> covered(store_after(s, recs), #[trigger] recs[i]),
    decreases recs.len(),
{
    if recs.len() > 0 {
        let p = recs.drop_last();
        let before = store_after(s, p);
        lemma_store_covers(s, p);
        assert forall|i: int| 0 <= i < recs.len() implies covered(
            store_after(s, recs),
            #[trigger] recs[i],
        ) by {
            if i < p.len() {
                assert(recs[i] == p[i]);
                lemma_one_keeps_covered(before, recs.last(), recs[i]);
            } else {
                lemma_one_covers_itself(before, recs.last());
            }
        }
    }
}

proof fn lemma_covered_unchanged(s: Map<SeriesIdView, Seq<VesselRecordView>>, recs: Seq<VesselRecordView>)
    requires
        forall|i: int| 0 <= i < recs.len() ==> covered(s, #[trigger] recs[i]),
    ensures
        store_after(s, recs) == s,
    decreases recs.len(),
{
    if recs.len() > 0 {
        let p = recs.drop_last();
        assert forall|i: int| 0 <= i < p.len() implies covered(s, #[trigger] p[i]) by {
            assert(p[i] == recs[i]);
        }
        lemma_covered_unchanged(s, p);
        let v = recs.last();
        assert(covered(s, recs[recs.len() - 1]));
        match series_of(v) {
            None => {},
            Some(id) => {
                assert(store_after_one(s, v) =~= s);
            },
        }
    }
}

/// Adding the same reports a second time adds nothing: every one of them is
/// at most as new as the last row of its series.
pub proof fn lemma_append_idempotent(
    s: Map<SeriesIdView, Seq<VesselRecordView>>,
    recs: Seq<VesselRecordView>,
)
    ensures
        store_after(store_after(s, recs), recs) == store_after(s, recs),
{
    lemma_store_covers(s, recs);
    lemma_covered_unchanged(store_after(s, recs), recs);
}

/// A report with an IMO number goes to the series of that number and to no
/// series keyed by MMSI, whatever its MMSI number.
pub proof fn lemma_imo_precedence(s: Map<SeriesIdView, Seq<VesselRecordView>>, v: VesselRecordView)
    requires
        v.imo != 0,
    ensures
        series_of(v) == Some(SeriesIdView { kind: KeyKind::Imo, key: v.imo, name: v.name }),
        forall|id: SeriesIdView|
            id.kind == KeyKind::Mmsi ==> (#[trigger] store_after(s, seq![v]).contains_key(id)
                == s.contains_key(id) && series_rows(store_after(s, seq![v]), id) == series_rows(
                s,
                id,
            )),
{
    reveal_with_fuel(store_after, 2);
    assert(seq![v].drop_last() =~= Seq::<VesselRecordView>::empty());
    assert(seq![v].last() == v);
    assert(store_after(s, seq![v]) == store_after_one(s, v));
}

/// The series of a store.
pub struct PersistenceStore {
    ids: Vec<SeriesId>,
    rows: Vec<Vec<VesselRecord>>,
}

impl View for PersistenceStore {
    type V = Map<SeriesIdView, Seq<VesselRecordView>>;

    closed spec fn view(&self) -> Map<SeriesIdView, Seq<VesselRecordView>> {
        Map::new(
            |id: SeriesIdView| exists|i: int| 0 <= i < self.ids@.len() && self.ids@[i]@ == id,
            |id: SeriesIdView| records_view(self.rows@[self.slot(id)]@),
        )
    }
}

fn same_series(a: &SeriesId, b: &SeriesId) -> (r: bool)
    ensures
        r == (a@ == b@),
{
    a.kind == b.kind && a.key == b.key && a.name == b.name
}

impl PersistenceStore {
    closed spec fn slot(&self, id: SeriesIdView) -> int {
        choose|i: int| 0 <= i < self.ids@.len() && self.ids@[i]@ == id
    }

    /// Well-formed: one row list per series, no series twice, and the
    /// timestamps of every series strictly increasing.
    pub closed spec fn wf(&self) -> bool {
        &&& self.ids@.len() == self.rows@.len()
        &&& forall|i: int, j: int|
            0 <= i < j < self.ids@.len() ==> #[trigger] self.ids@[i]@ != #[trigger] self.ids@[j]@
        &&& all_increasing(self@)
    }

    proof fn lemma_slot(&self, i: int)
        requires
            self.ids@.len() == self.rows@.len(),
            forall|a: int, b: int|
                0 <= a < b < self.ids@.len() ==> #[trigger] self.ids@[a]@ != #[trigger] self.ids@[b]@,
            0 <= i < self.ids@.len(),
        ensures
            self.slot(self.ids@[i]@) == i,
            self@.contains_key(self.ids@[i]@),
            self@[self.ids@[i]@] == records_view(self.rows@[i]@),
    {
        let id = self.ids@[i]@;
        assert(exists|k: int| 0 <= k < self.ids@.len() && self.ids@[k]@ == id);
        let k = self.slot(id);
        if k < i {
            assert(self.ids@[k]@ != self.ids@[i]@);
        } else if k > i {
            assert(self.ids@[i]@ != self.ids@[k]@);
        }
    }

    /// A store without series.
    pub fn new() -> (r: PersistenceStore)
        ensures
            r.wf(),
            r@ == Map::<SeriesIdView, Seq<VesselRecordView>>::empty(),
    {
        let r = PersistenceStore { ids: Vec::new(), rows: Vec::new() };
        assert(r@ =~= Map::<SeriesIdView, Seq<VesselRecordView>>::empty());
        r
    }

    fn find(&self, id: &SeriesId) -> (r: Option<usize>)
        requires
            self.wf(),
        ensures
            match r {
                Some(i) => i < self.ids@.len() && self.ids@[i as int]@ == id@,
                None => !self@.contains_key(id@),
            },
    {
        let mut i: usize = 0;
        while i < self.ids.len()
            invariant
                i <= self.ids@.len(),
                forall|k: int| 0 <= k < i ==> self.ids@[k]@ != id@,
            decreases self.ids@.len() - i,
        {
            if same_series(&self.ids[i], id) {
                return Some(i);
            }
            i = i + 1;
        }
        None
    }

    /// The rows of a series, if the store has it.
    pub fn series(&self, id: &SeriesId) -> (r: Option<&Vec<VesselRecord>>)
        requires
            self.wf(),
        ensures
            match r {
                Some(v) => self@.contains_key(id@) && records_view(v@) == self@[id@],
                None => !self@.contains_key(id@),
            },
    {
        match self.find(id) {
            Some(i) => {
                proof {
                    self.lemma_slot(i as int);
                }
                Some(&self.rows[i])
            },
            None => None,
        }
    }

    /// Adds one report to its series, as `store_after_one` says.
    fn append_one(&mut self, rec: &VesselRecord)
        requires
            old(self).wf(),
        ensures
            final(self).wf(),
            final(self)@ == store_after_one(old(self)@, rec@),
    {
        let id = match series_id(rec) {
            Some(id) => id,
            None => return,
        };
        let ghost old_view = self@;
        proof {
            lemma_one_keeps_increasing(old_view, rec@);
        }
        match self.find(&id) {
            Some(i) => {
                proof {
                    self.lemma_slot(i as int);
                }
                let mut rows: Vec<VesselRecord> = Vec::new();
                self.rows.set_and_swap(i, &mut rows);
                let n = rows.len();
                let last = if n == 0 {
                    0
                } else {
                    rows[n - 1].timestamp
                };
                assert(last == last_timestamp_of(records_view(rows@)));
                if is_newer(last, rec) {
                    rows.push(rec.duplicate());
                    assert(records_view(rows@) =~= old_view[id@].push(rec@));
                }
                self.rows.set_and_swap(i, &mut rows);
                let ghost target = store_after_one(old_view, rec@);
                assert forall|k: int| 0 <= k < self.ids@.len() implies #[trigger] self.rows@[k] == (
                    if k == i {
                        self.rows@[k]
                    } else {
                        old(self).rows@[k]
                    }) by {}
                assert forall|k: int| 0 <= k < self.ids@.len() implies #[trigger] self.ids@[k]@ == old(
                    self,
                ).ids@[k]@ by {}
                assert forall|key: SeriesIdView| #[trigger]
                    self@.contains_key(key) == target.contains_key(key) by {
                    if target.contains_key(key) && key != id@ {
                        let k = old(self).slot(key);
                        assert(self.ids@[k]@ == key);
                    }
                    if self@.contains_key(key) {
                        let k = self.slot(key);
                        assert(old(self).ids@[k]@ == key);
                    }
                }
                assert forall|key: SeriesIdView| #[trigger]
                    self@.contains_key(key) implies self@[key] == target[key] by {
                    let k = old(self).slot(key);
                    old(self).lemma_slot(k);
                    self.lemma_slot(k);
                }
                assert(self@ =~= target);
            },
            None => {
                let mut rows: Vec<VesselRecord> = Vec::new();
                if is_newer(0, rec) {
                    rows.push(rec.duplicate());
                }
                assert(records_view(rows@) =~= (if accepts(0, rec@) {
                    Seq::<VesselRecordView>::empty().push(rec@)
                } else {
                    Seq::<VesselRecordView>::empty()
                }));
                let ghost idv = id@;
                self.ids.push(id);
                self.rows.push(rows);
                let ghost target = store_after_one(old_view, rec@);
                let ghost n = old(self).ids@.len();
                assert forall|a: int, b: int|
                    0 <= a < b < self.ids@.len() implies #[trigger] self.ids@[a]@ != #[trigger] self.ids@[b]@ by {
                    if b == n {
                        assert(self.ids@[a] == old(self).ids@[a]);
                    }
                }
                assert forall|key: SeriesIdView| #[trigger]
                    self@.contains_key(key) == target.contains_key(key) by {
                    if target.contains_key(key) && key != idv {
                        let k = old(self).slot(key);
                        assert(self.ids@[k]@ == key);
                    }
                    if self@.contains_key(key) && key != idv {
                        let k = self.slot(key);
                        assert(old(self).ids@[k]@ == key);
                    }
                    if key == idv {
                        assert(self.ids@[n as int]@ == key);
                    }
                }
                assert forall|key: SeriesIdView| #[trigger]
                    self@.contains_key(key) implies self@[key] == target[key] by {
                    let k = self.slot(key);
                    self.lemma_slot(k);
                    if k < n {
                        old(self).lemma_slot(k);
                    }
                }
                assert(self@ =~= target);
            },
        }
    }

    /// Adds reports in order, each one to its series, as `store_after`
    /// says.
    pub fn append(&mut self, records: &Vec<VesselRecord>)
        requires
            old(self).wf(),
        ensures
            final(self).wf(),
            final(self)@ == store_after(old(self)@, records_view(records@)),
    {
        let ghost start = self@;
        let mut i: usize = 0;
        while i < records.len()
            invariant
                i <= records@.len(),
                self.wf(),
                self@ == store_after(start, records_view(records@).subrange(0, i as int)),
            decreases records@.len() - i,
        {
            self.append_one(&records[i]);
            proof {
                let p = records_view(records@).subrange(0, i + 1);
                assert(p.drop_last() == records_view(records@).subrange(0, i as int));
                assert(p.last() == records@[i as int]@);
            }
            i = i + 1;
        }
        assert(records_view(records@).subrange(0, records@.len() as int) == records_view(records@));
    }
}

} // verus!
