//! The in-memory record store.
//!
//! Owns the growing record list, the filtered-and-sorted projection into
//! it, and the selection. The projection holds positions into
//! `all_records`; the selection holds a position into the projection.
//! Appending past the capacity evicts the oldest records and invalidates
//! the projection and the selection, which cannot be remapped across an
//! eviction.

use vstd::prelude::*;
use crate::filter::FilterState;
use crate::filter::spec_matches;
use crate::order::SortColumn;
use crate::order::indices_in_range;
use crate::order::proj_sorted;
use crate::order::sort_proj_indices;
use crate::record::EventRecord;
use crate::record::same_record;

verus! {

/// The record list, its filtered/sorted projection, and the selection.
pub struct RecordStore {
    /// Every record loaded so far, oldest first within what is retained.
    pub all_records: Vec<EventRecord>,
    /// Positions of the records that match the active criteria, in
    /// display order.
    pub filtered_indices: Vec<usize>,
    /// Position into `filtered_indices` of the selected row.
    pub selected_index: Option<usize>,
    /// Active sort column.
    pub sort_column: SortColumn,
    /// Sort direction; `false` shows newest first.
    pub sort_ascending: bool,
    /// Capacity: appending past it drops the oldest records.
    pub max_records: usize,
}

/// The store's invariant: projection entries point into the record list
/// and the selection points into the projection.
pub open spec fn store_inv(s: RecordStore) -> bool {
    &&& indices_in_range(s.filtered_indices@, s.all_records@.len() as int)
    &&& match s.selected_index {
        Some(v) => v < s.filtered_indices@.len(),
        None => true,
    }
    &&& s.max_records >= 1
}

/// The positions (in ascending order) of the records among the first `n`
/// that match the criteria.
pub open spec fn matching_indices_upto(records: Seq<EventRecord>, f: FilterState, n: int) -> Seq<
    usize,
>
    decreases n,
{
    if n <= 0 {
        Seq::empty()
    } else {
        let rest = matching_indices_upto(records, f, n - 1);
        if spec_matches(f, records[n - 1]) {
            rest.push((n - 1) as usize)
        } else {
            rest
        }
    }
}

/// The positions of all matching records, in ascending order.
pub open spec fn matching_indices(records: Seq<EventRecord>, f: FilterState) -> Seq<usize> {
    matching_indices_upto(records, f, records.len() as int)
}

/// The record the selection pointed at, as its underlying position.
pub open spec fn selected_underlying(s: RecordStore) -> Option<usize> {
    match s.selected_index {
        Some(v) => if v < s.filtered_indices@.len() {
            Some(s.filtered_indices@[v as int])
        } else {
            None
        },
        None => None,
    }
}

/// First position of `x` in `v`.
fn position_of(v: &Vec<usize>, x: usize) -> (r: Option<usize>)
    ensures
        match r {
            Some(k) => k < v@.len() && v@[k as int] == x && forall|q: int|
                0 <= q < k ==> v@[q] != x,
            None => forall|q: int| 0 <= q < v@.len() ==> v@[q] != x,
        },
{
    let mut i: usize = 0;
    while i < v.len()
        invariant
            i <= v@.len(),
            forall|q: int| 0 <= q < i ==> v@[q] != x,
        decreases v@.len() - i,
    {
        if v[i] == x {
            return Some(i);
        }
        i = i + 1;
    }
    None
}

impl RecordStore {
    /// An empty store with the given eviction capacity.
    pub fn new(max_records: usize, sort_column: SortColumn, sort_ascending: bool) -> (r: Self)
        requires
            max_records >= 1,
        ensures
            store_inv(r),
            r.all_records@.len() == 0,
            r.filtered_indices@.len() == 0,
            r.selected_index is None,
            r.max_records == max_records,
            r.sort_column == sort_column,
            r.sort_ascending == sort_ascending,
    {
        RecordStore {
            all_records: Vec::new(),
            filtered_indices: Vec::new(),
            selected_index: None,
            sort_column,
            sort_ascending,
            max_records,
        }
    }

    /// Append a batch. Past the capacity, the oldest excess records are
    /// dropped from the front and the projection and selection are
    /// invalidated: after any append the store holds at most
    /// `max_records` records, and an eviction always clears the
    /// selection.
    pub fn append(&mut self, batch: Vec<EventRecord>)
        requires
            store_inv(*old(self)),
        ensures
            store_inv(*final (self)),
            final (self).sort_column == old(self).sort_column,
            final (self).sort_ascending == old(self).sort_ascending,
            final (self).max_records == old(self).max_records,
            final (self).all_records@.len() <= old(self).max_records,
            ({
                let total = old(self).all_records@ + batch@;
                if total.len() <= old(self).max_records {
                    &&& final (self).all_records@ == total
                    &&& final (self).filtered_indices == old(self).filtered_indices
                    &&& final (self).selected_index == old(self).selected_index
                } else {
                    &&& final (self).all_records@ == total.skip(
                        total.len() - old(self).max_records,
                    )
                    &&& final (self).filtered_indices@.len() == 0
                    &&& final (self).selected_index is None
                }
            }),
    {
        let mut incoming = batch;
        self.all_records.append(&mut incoming);
        if self.all_records.len() > self.max_records {
            let evict = self.all_records.len() - self.max_records;
            let kept = self.all_records.split_off(evict);
            self.all_records = kept;
            self.filtered_indices = Vec::new();
            self.selected_index = None;
            proof {
                let total = old(self).all_records@ + batch@;
                assert(total.subrange(evict as int, total.len() as int) =~= total.skip(
                    evict as int,
                ));
            }
        }
    }

    /// Recompute the projection from the criteria, sort it, and restore
    /// the selection by record identity: a still-visible selected record
    /// stays selected at its new position; a vanished one leaves the
    /// selection empty. The selection never ends up out of bounds.
    pub fn refilter(&mut self, filter: &FilterState)
        requires
            store_inv(*old(self)),
        ensures
            store_inv(*final (self)),
            final (self).all_records == old(self).all_records,
            final (self).sort_column == old(self).sort_column,
            final (self).sort_ascending == old(self).sort_ascending,
            final (self).max_records == old(self).max_records,
            final (self).filtered_indices@.to_multiset() == matching_indices(
                old(self).all_records@,
                *filter,
            ).to_multiset(),
            proj_sorted(
                old(self).all_records@,
                old(self).sort_column,
                old(self).sort_ascending,
                final (self).filtered_indices@,
            ),
            ({
                let fi = final (self).filtered_indices@;
                let sel = final (self).selected_index;
                match selected_underlying(*old(self)) {
                    Some(u) => {
                        &&& ((exists|k: int| 0 <= k < fi.len() && fi[k] == u) ==> (sel matches Some(
                            v,
                        ) && v < fi.len() && fi[v as int] == u))
                        &&& ((forall|k: int| 0 <= k < fi.len() ==> fi[k] != u) ==> sel is None)
                    },
                    None => sel is None,
                }
            }),
    {
        let prev: Option<usize> = match self.selected_index {
            Some(v) => {
                if v < self.filtered_indices.len() {
                    Some(self.filtered_indices[v])
                } else {
                    None
                }
            },
            None => None,
        };
        let mut keep: Vec<usize> = Vec::new();
        let mut i: usize = 0;
        while i < self.all_records.len()
            invariant
                i <= self.all_records@.len(),
                keep@ == matching_indices_upto(self.all_records@, *filter, i as int),
                indices_in_range(keep@, self.all_records@.len() as int),
                self == old(self),
            decreases self.all_records@.len() - i,
        {
            let record = &self.all_records[i];
            if filter.matches(record) {
                keep.push(i);
            }
            i = i + 1;
        }
        sort_proj_indices(&self.all_records, &mut keep, self.sort_column, self.sort_ascending);
        self.filtered_indices = keep;
        self.selected_index = match prev {
            Some(u) => position_of(&self.filtered_indices, u),
            None => None,
        };
    }

    /// Re-sort the projection by the active column and direction.
    pub fn sort_events(&mut self)
        requires
            store_inv(*old(self)),
        ensures
            store_inv(*final (self)),
            final (self).all_records == old(self).all_records,
            final (self).sort_column == old(self).sort_column,
            final (self).sort_ascending == old(self).sort_ascending,
            final (self).max_records == old(self).max_records,
            final (self).selected_index == old(self).selected_index,
            final (self).filtered_indices@.to_multiset() == old(
                self,
            ).filtered_indices@.to_multiset(),
            proj_sorted(
                old(self).all_records@,
                old(self).sort_column,
                old(self).sort_ascending,
                final (self).filtered_indices@,
            ),
    {
        let mut idxs = Vec::new();
        core::mem::swap(&mut idxs, &mut self.filtered_indices);
        sort_proj_indices(&self.all_records, &mut idxs, self.sort_column, self.sort_ascending);
        self.filtered_indices = idxs;
        proof {
            self.filtered_indices@.to_multiset_ensures();
            old(self).filtered_indices@.to_multiset_ensures();
            assert(self.filtered_indices@.len() == old(self).filtered_indices@.len());
        }
    }

    /// Set the selection to a visible row, refusing an out-of-bounds one.
    pub fn select(&mut self, visible_index: usize)
        requires
            store_inv(*old(self)),
        ensures
            store_inv(*final (self)),
            final (self).all_records == old(self).all_records,
            final (self).filtered_indices == old(self).filtered_indices,
            final (self).sort_column == old(self).sort_column,
            final (self).sort_ascending == old(self).sort_ascending,
            final (self).max_records == old(self).max_records,
            visible_index < old(self).filtered_indices@.len() ==> final (self).selected_index
                == Some(visible_index),
            visible_index >= old(self).filtered_indices@.len() ==> final (self).selected_index
                == old(self).selected_index,
    {
        if visible_index < self.filtered_indices.len() {
            self.selected_index = Some(visible_index);
        }
    }

    /// The selected record, if any.
    pub fn selected_event(&self) -> (r: Option<&EventRecord>)
        requires
            store_inv(*self),
        ensures
            match r {
                Some(rec) => selected_underlying(*self) matches Some(u) && *rec
                    == self.all_records@[u as int],
                None => selected_underlying(*self) is None,
            },
    {
        match self.selected_index {
            Some(v) => {
                if v < self.filtered_indices.len() {
                    let u = self.filtered_indices[v];
                    if u < self.all_records.len() {
                        Some(&self.all_records[u])
                    } else {
                        None
                    }
                } else {
                    None
                }
            },
            None => None,
        }
    }

    /// Clone the projected records, in display order, for export.
    pub fn filtered_event_list(&self) -> (r: Vec<EventRecord>)
        requires
            store_inv(*self),
        ensures
            r@.len() == self.filtered_indices@.len(),
            forall|k: int|
                0 <= k < r@.len() ==> same_record(
                    #[trigger] r@[k],
                    self.all_records@[self.filtered_indices@[k] as int],
                ),
    {
        let mut r: Vec<EventRecord> = Vec::new();
        let mut i: usize = 0;
        while i < self.filtered_indices.len()
            invariant
                store_inv(*self),
                i <= self.filtered_indices@.len(),
                r@.len() == i,
                forall|k: int|
                    0 <= k < i ==> same_record(
                        #[trigger] r@[k],
                        self.all_records@[self.filtered_indices@[k] as int],
                    ),
            decreases self.filtered_indices@.len() - i,
        {
            let u = self.filtered_indices[i];
            r.push(self.all_records[u].clone());
            i = i + 1;
        }
        r
    }

    /// Drop every record, the projection and the selection.
    pub fn clear(&mut self)
        requires
            store_inv(*old(self)),
        ensures
            store_inv(*final (self)),
            final (self).all_records@.len() == 0,
            final (self).filtered_indices@.len() == 0,
            (final (self).selected_index) is None,
            final (self).sort_column == old(self).sort_column,
            final (self).sort_ascending == old(self).sort_ascending,
            final (self).max_records == old(self).max_records,
    {
        self.all_records.clear();
        self.filtered_indices.clear();
        self.selected_index = None;
    }
}

/// The consumer's error list: per-channel failures accumulate here, and
/// past the cap the oldest entry is dropped, so the newest failures are
/// always retained.
pub struct ErrorLog {
    /// `(channel, message)` entries, oldest first.
    pub entries: Vec<(String, String)>,
    /// Most entries retained.
    pub cap: usize,
}

/// The error list never outgrows its cap.
pub open spec fn error_log_inv(log: ErrorLog) -> bool {
    log.entries@.len() <= log.cap && log.cap >= 1
}

impl ErrorLog {
    /// An empty log with the given cap.
    pub fn new(cap: usize) -> (r: Self)
        requires
            cap >= 1,
        ensures
            error_log_inv(r),
            r.entries@.len() == 0,
            r.cap == cap,
    {
        ErrorLog { entries: Vec::new(), cap }
    }

    /// Record one failure: appended at the end; at capacity, the oldest
    /// entry is dropped to make room.
    pub fn push(&mut self, channel: String, error: String)
        requires
            error_log_inv(*old(self)),
        ensures
            error_log_inv(*final (self)),
            final (self).cap == old(self).cap,
            old(self).entries@.len() < old(self).cap ==> final (self).entries@ == old(
                self,
            ).entries@.push((channel, error)),
            old(self).entries@.len() >= old(self).cap ==> final (self).entries@ == old(
                self,
            ).entries@.drop_first().push((channel, error)),
    {
        if self.entries.len() >= self.cap {
            let _dropped = self.entries.remove(0);
            proof {
                assert(self.entries@ =~= old(self).entries@.drop_first());
            }
        }
        self.entries.push((channel, error));
    }
}

} // verus!
