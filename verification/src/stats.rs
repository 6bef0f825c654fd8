//! Summary statistics over the filtered projection.

use vstd::prelude::*;
use crate::record::EventRecord;
use crate::record::clamped_level;
use crate::record::clamp_level;
use crate::order::indices_in_range;
use crate::text::eq_chars;
use crate::text::chars_of;

verus! {

/// Cap on listed top providers.
pub const MAX_TOP_PROVIDERS: usize = 10;

/// Cap on histogram buckets: the most recent day of hours.
pub const MAX_HISTOGRAM_BUCKETS: usize = 24;

/// A statistics snapshot of the projected records.
pub struct EventStats {
    /// Records in the projection.
    pub total: usize,
    /// Counts per clamped severity level.
    pub level_counts: [usize; 6],
    /// Most frequent providers, count-descending: `(provider, count)`.
    pub top_providers: Vec<(String, usize)>,
    /// Hourly counts, oldest first: `(hour_label, count)`.
    pub hourly_histogram: Vec<(String, usize)>,
}

impl Default for EventStats {
    /// The empty snapshot.
    fn default() -> (r: Self)
        ensures
            r.total == 0,
            r.level_counts@ =~= seq![0usize, 0usize, 0usize, 0usize, 0usize, 0usize],
            r.top_providers@.len() == 0,
            r.hourly_histogram@.len() == 0,
    {
        EventStats {
            total: 0,
            level_counts: [0, 0, 0, 0, 0, 0],
            top_providers: Vec::new(),
            hourly_histogram: Vec::new(),
        }
    }
}

/// How many of the first `n` projected records have clamped level `lv`.
pub open spec fn level_count_upto(
    records: Seq<EventRecord>,
    idxs: Seq<usize>,
    lv: int,
    n: int,
) -> int
    decreases n,
{
    if n <= 0 {
        0
    } else {
        level_count_upto(records, idxs, lv, n - 1) + (if clamped_level(
            records[idxs[n - 1] as int].level,
        ) == lv {
            1int
        } else {
            0
        })
    }
}

/// How many of the first `n` projected records name this provider.
pub open spec fn provider_count_upto(
    records: Seq<EventRecord>,
    idxs: Seq<usize>,
    name: Seq<char>,
    n: int,
) -> int
    decreases n,
{
    if n <= 0 {
        0
    } else {
        provider_count_upto(records, idxs, name, n - 1) + (if records[idxs[n - 1] as int].provider_name@
            == name {
            1int
        } else {
            0
        })
    }
}

/// Every one of the first `n` projected records has its provider listed.
pub open spec fn covers_all_providers(
    records: Seq<EventRecord>,
    idxs: Seq<usize>,
    out: Seq<String>,
    n: int,
) -> bool {
    forall|k: int|
        0 <= k < n ==> exists|p: int|
            0 <= p < out.len() && #[trigger] out[p]@ == records[
                #[trigger] idxs[k] as int
            ].provider_name@
}

/// A provider occurs among the first `n` projected records.
pub open spec fn provider_present(
    records: Seq<EventRecord>,
    idxs: Seq<usize>,
    name: Seq<char>,
    n: int,
) -> bool {
    exists|k: int| 0 <= k < n && records[#[trigger] idxs[k] as int].provider_name@ == name
}

/// Count the levels of the projected records.
#[verifier::loop_isolation(false)]
pub fn count_levels(records: &Vec<EventRecord>, idxs: &Vec<usize>) -> (r: [usize; 6])
    requires
        indices_in_range(idxs@, records@.len() as int),
    ensures
        forall|lv: int|
            0 <= lv < 6 ==> r@[lv] == level_count_upto(
                records@,
                idxs@,
                lv,
                idxs@.len() as int,
            ),
{
    let mut counts: [usize; 6] = [0, 0, 0, 0, 0, 0];
    let mut i: usize = 0;
    while i < idxs.len()
        invariant
            i <= idxs@.len(),
            indices_in_range(idxs@, records@.len() as int),
            forall|lv: int|
                0 <= lv < 6 ==> counts@[lv] == level_count_upto(records@, idxs@, lv, i as int),
            forall|lv: int| 0 <= lv < 6 ==> counts@[lv] <= i,
        decreases idxs@.len() - i,
    {
        let u = idxs[i];
        let lv = clamp_level(records[u].level);
        let c = counts[lv];
        counts[lv] = c + 1;
        i = i + 1;
    }
    counts
}

/// Count the projected records naming one provider.
#[verifier::loop_isolation(false)]
fn count_provider(records: &Vec<EventRecord>, idxs: &Vec<usize>, name: &String) -> (r: usize)
    requires
        indices_in_range(idxs@, records@.len() as int),
    ensures
        r == provider_count_upto(records@, idxs@, name@, idxs@.len() as int),
{
    let n = chars_of(name.as_str());
    let mut count: usize = 0;
    let mut i: usize = 0;
    while i < idxs.len()
        invariant
            i <= idxs@.len(),
            count == provider_count_upto(records@, idxs@, name@, i as int),
            count <= i,
        decreases idxs@.len() - i,
    {
        let u = idxs[i];
        if eq_chars(&chars_of(records[u].provider_name.as_str()), &n) {
            count = count + 1;
        }
        i = i + 1;
    }
    count
}

/// The distinct providers of the projection, in first-appearance order.
#[verifier::loop_isolation(false)]
fn distinct_providers(records: &Vec<EventRecord>, idxs: &Vec<usize>) -> (r: Vec<String>)
    requires
        indices_in_range(idxs@, records@.len() as int),
    ensures
        forall|p: int, q: int| 0 <= p < q < r@.len() ==> #[trigger] r@[p]@ != #[trigger] r@[q]@,
        forall|p: int|
            0 <= p < r@.len() ==> provider_present(
                records@,
                idxs@,
                #[trigger] r@[p]@,
                idxs@.len() as int,
            ),
        covers_all_providers(records@, idxs@, r@, idxs@.len() as int),
{
    let mut out: Vec<String> = Vec::new();
    let mut i: usize = 0;
    while i < idxs.len()
        invariant
            i <= idxs@.len(),
            indices_in_range(idxs@, records@.len() as int),
            forall|p: int, q: int| 0 <= p < q < out@.len() ==> #[trigger] out@[p]@ != #[trigger] out@[q]@,
            forall|p: int|
                0 <= p < out@.len() ==> provider_present(records@, idxs@, #[trigger] out@[p]@, i as int),
            covers_all_providers(records@, idxs@, out@, i as int),
        decreases idxs@.len() - i,
    {
        let u = idxs[i];
        let name = &records[u].provider_name;
        let nc = chars_of(name.as_str());
        let mut found: bool = false;
        let mut p: usize = 0;
        while p < out.len()
            invariant
                p <= out@.len(),
                found ==> exists|q: int| 0 <= q < out@.len() && #[trigger] out@[q]@ == name@,
                !found ==> forall|q: int| 0 <= q < p ==> out@[q]@ != name@,
            decreases out@.len() - p,
        {
            if eq_chars(&chars_of(out[p].as_str()), &nc) {
                found = true;
                proof {
                    assert(out@[p as int]@ == name@);
                }
                break ;
            }
            p = p + 1;
        }
        let ghost out_before = out@;
        if !found {
            out.push(name.clone());
        }
        proof {
            assert(records@[idxs@[i as int] as int].provider_name@ == name@);
            if !found {
                assert(out@[out@.len() - 1]@ == name@);
            }
            assert forall|k: int| 0 <= k < i + 1 implies exists|p2: int|
                0 <= p2 < out@.len() && #[trigger] out@[p2]@ == records@[
                    #[trigger] idxs@[k] as int
                ].provider_name@ by {
                if k < i {
                    assert(covers_all_providers(records@, idxs@, out_before, i as int));
                    let w = choose|p2: int|
                        0 <= p2 < out_before.len() && #[trigger] out_before[p2]@ == records@[idxs@[k] as int].provider_name@;
                    assert(out@[w]@ == records@[idxs@[k] as int].provider_name@);
                } else {
                    if found {
                        let q = choose|q: int|
                            0 <= q < out_before.len() && #[trigger] out_before[q]@ == name@;
                        assert(out@[q]@ == name@);
                    } else {
                        assert(out@[out@.len() - 1]@ == name@);
                    }
                }
            }
            assert(covers_all_providers(records@, idxs@, out@, i as int + 1));
        }
        i = i + 1;
    }
    out
}

/// Compute a statistics snapshot: the projection size, exact per-level
/// counts, the most frequent providers (count-descending, each with its
/// exact count, no provider listed twice, none listed that the projection
/// does not hold), and the hourly histogram.
#[verifier::loop_isolation(false)]
pub fn compute_stats(records: &Vec<EventRecord>, idxs: &Vec<usize>) -> (r: EventStats)
    requires
        indices_in_range(idxs@, records@.len() as int),
    ensures
        r.total == idxs@.len(),
        forall|lv: int|
            0 <= lv < 6 ==> r.level_counts@[lv] == level_count_upto(
                records@,
                idxs@,
                lv,
                idxs@.len() as int,
            ),
        r.top_providers@.len() <= MAX_TOP_PROVIDERS,
        forall|p: int|
            0 <= p < r.top_providers@.len() ==> (#[trigger] r.top_providers@[p]).1
                == provider_count_upto(
                records@,
                idxs@,
                r.top_providers@[p].0@,
                idxs@.len() as int,
            ),
        forall|p: int|
            0 <= p < r.top_providers@.len() ==> provider_present(
                records@,
                idxs@,
                (#[trigger] r.top_providers@[p]).0@,
                idxs@.len() as int,
            ),
        forall|p: int, q: int|
            0 <= p < q < r.top_providers@.len() ==> (#[trigger] r.top_providers@[p]).0@ != (
            #[trigger] r.top_providers@[q]).0@,
        forall|p: int, q: int|
            0 <= p < q < r.top_providers@.len() ==> (#[trigger] r.top_providers@[p]).1 >= (
            #[trigger] r.top_providers@[q]).1,
        r.hourly_histogram@.len() == histogram_len(records@, idxs@),
        forall|b: int|
            0 <= b < r.hourly_histogram@.len() ==> (#[trigger] r.hourly_histogram@[b]).1
                == hour_count_upto(
                records@,
                idxs@,
                histogram_start(records@, idxs@) + b * 3_600_000,
                idxs@.len() as int,
            ),
{
    if idxs.len() == 0 {
        return EventStats::default();
    }
    let level_counts = count_levels(records, idxs);
    // Count each distinct provider.
    let names = distinct_providers(records, idxs);
    let mut counted: Vec<(String, usize)> = Vec::new();
    let mut i: usize = 0;
    while i < names.len()
        invariant
            i <= names@.len(),
            counted@.len() == i,
            forall|p: int|
                0 <= p < i ==> (#[trigger] counted@[p]).0@ == names@[p]@ && counted@[p].1
                    == provider_count_upto(records@, idxs@, names@[p]@, idxs@.len() as int),
        decreases names@.len() - i,
    {
        let c = count_provider(records, idxs, &names[i]);
        counted.push((names[i].clone(), c));
        i = i + 1;
    }
    // Select the most frequent, largest first.
    let mut top: Vec<(String, usize)> = Vec::new();
    while top.len() < MAX_TOP_PROVIDERS && counted.len() > 0
        invariant
            forall|p: int|
                0 <= p < top@.len() ==> (#[trigger] top@[p]).1 == provider_count_upto(
                    records@,
                    idxs@,
                    top@[p].0@,
                    idxs@.len() as int,
                ) && provider_present(records@, idxs@, top@[p].0@, idxs@.len() as int),
            forall|p: int|
                0 <= p < counted@.len() ==> (#[trigger] counted@[p]).1 == provider_count_upto(
                    records@,
                    idxs@,
                    counted@[p].0@,
                    idxs@.len() as int,
                ) && provider_present(records@, idxs@, counted@[p].0@, idxs@.len() as int),
            forall|p: int, q: int|
                0 <= p < q < top@.len() ==> (#[trigger] top@[p]).0@ != (#[trigger] top@[q]).0@,
            forall|p: int, q: int|
                0 <= p < counted@.len() && 0 <= q < top@.len() ==> (#[trigger] counted@[p]).0@
                    != (#[trigger] top@[q]).0@,
            forall|p: int, q: int|
                0 <= p < q < top@.len() ==> (#[trigger] top@[p]).1 >= (#[trigger] top@[q]).1,
            forall|p: int, q: int|
                0 <= p < counted@.len() && 0 <= q < top@.len() ==> (#[trigger] counted@[p]).1
                    <= (#[trigger] top@[q]).1,
            forall|p: int, q: int|
                0 <= p < q < counted@.len() ==> (#[trigger] counted@[p]).0@ != (
                #[trigger] counted@[q]).0@,
            top@.len() <= MAX_TOP_PROVIDERS,
        decreases counted@.len(),
    {
        let mut best: usize = 0;
        let mut b: usize = 1;
        while b < counted.len()
            invariant
                best < counted@.len(),
                b <= counted@.len(),
                forall|q: int| 0 <= q < b ==> (#[trigger] counted@[q]).1 <= counted@[best as int].1,
            decreases counted@.len() - b,
        {
            if counted[b].1 > counted[best].1 {
                best = b;
            }
            b = b + 1;
        }
        let ghost counted_before = counted@;
        let ghost best0 = best as int;
        let picked = counted.remove(best);
        proof {
            assert(picked == counted_before[best0]);
            assert forall|p: int| 0 <= p < counted@.len() implies (#[trigger] counted@[p])
                == (if p < best0 {
                counted_before[p]
            } else {
                counted_before[p + 1]
            }) by {
                assert(counted@ == counted_before.subrange(0, best0) + counted_before.subrange(
                    best0 + 1,
                    counted_before.len() as int,
                ));
            }
        }
        top.push(picked);
        proof {
            assert(top@.last() == picked);
            assert forall|p: int| 0 <= p < counted@.len() implies (#[trigger] counted@[p]).1
                <= top@.last().1 by {}
            assert forall|p: int| 0 <= p < counted@.len() implies (#[trigger] counted@[p]).0@
                != top@.last().0@ by {}
        }
    }
    EventStats {
        total: idxs.len(),
        level_counts,
        top_providers: top,
        hourly_histogram: build_histogram(records, idxs),
    }
}

/// The start of the hour containing `ms` (clamped at the representable
/// bottom).
pub open spec fn hour_floor(ms: i64) -> i64 {
    if ms >= i64::MIN + 3_600_000 {
        (ms - (ms % 3_600_000 + 3_600_000) % 3_600_000) as i64
    } else {
        ms
    }
}

fn hour_floor_exec(ms: i64) -> (r: i64)
    ensures
        r == hour_floor(ms),
{
    if ms >= i64::MIN + 3_600_000 {
        let m = (ms % 3_600_000 + 3_600_000) % 3_600_000;
        ms - m
    } else {
        ms
    }
}

/// How many of the first `n` projected records fall in the hour starting
/// at `h0`.
pub open spec fn hour_count_upto(
    records: Seq<EventRecord>,
    idxs: Seq<usize>,
    h0: int,
    n: int,
) -> int
    decreases n,
{
    if n <= 0 {
        0
    } else {
        hour_count_upto(records, idxs, h0, n - 1) + (if h0 <= records[idxs[n - 1] as int].timestamp
            < h0 + 3_600_000 {
            1int
        } else {
            0
        })
    }
}

#[verifier::loop_isolation(false)]
fn count_hour(records: &Vec<EventRecord>, idxs: &Vec<usize>, h0: i64) -> (r: usize)
    requires
        indices_in_range(idxs@, records@.len() as int),
        h0 <= i64::MAX - 3_600_000,
    ensures
        r == hour_count_upto(records@, idxs@, h0 as int, idxs@.len() as int),
{
    let mut count: usize = 0;
    let mut i: usize = 0;
    while i < idxs.len()
        invariant
            i <= idxs@.len(),
            count == hour_count_upto(records@, idxs@, h0 as int, i as int),
            count <= i,
        decreases idxs@.len() - i,
    {
        let u = idxs[i];
        let ts = records[u].timestamp;
        if h0 <= ts && ts < h0 + 3_600_000 {
            count = count + 1;
        }
        i = i + 1;
    }
    count
}


/// Smallest timestamp among the first `n` projected records.
pub open spec fn min_ts_upto(records: Seq<EventRecord>, idxs: Seq<usize>, n: int) -> int
    decreases n,
{
    if n <= 1 {
        records[idxs[0] as int].timestamp as int
    } else {
        let rest = min_ts_upto(records, idxs, n - 1);
        let t = records[idxs[n - 1] as int].timestamp as int;
        if t < rest {
            t
        } else {
            rest
        }
    }
}

/// Largest timestamp among the first `n` projected records.
pub open spec fn max_ts_upto(records: Seq<EventRecord>, idxs: Seq<usize>, n: int) -> int
    decreases n,
{
    if n <= 1 {
        records[idxs[0] as int].timestamp as int
    } else {
        let rest = max_ts_upto(records, idxs, n - 1);
        let t = records[idxs[n - 1] as int].timestamp as int;
        if t > rest {
            t
        } else {
            rest
        }
    }
}

/// How many hour buckets the histogram shows: the projection's span in
/// hours, capped at a day; zero when the span degenerates at the edges of
/// the representable range.
pub open spec fn histogram_len(records: Seq<EventRecord>, idxs: Seq<usize>) -> int {
    if idxs.len() == 0 {
        0
    } else {
        let start_hour = hour_floor(min_ts_upto(records, idxs, idxs.len() as int) as i64);
        let end_hour = hour_floor(max_ts_upto(records, idxs, idxs.len() as int) as i64);
        if end_hour > i64::MAX - 3_600_000 || start_hour > end_hour || end_hour < i64::MIN
            + 90_000_000 {
            0
        } else {
            let span = (end_hour - start_hour) / 3_600_000 + 1;
            if span > MAX_HISTOGRAM_BUCKETS {
                MAX_HISTOGRAM_BUCKETS as int
            } else {
                span
            }
        }
    }
}

/// The instant the first histogram bucket starts at.
pub open spec fn histogram_start(records: Seq<EventRecord>, idxs: Seq<usize>) -> int {
    hour_floor(max_ts_upto(records, idxs, idxs.len() as int) as i64) - (histogram_len(
        records,
        idxs,
    ) - 1) * 3_600_000
}

/// The hourly histogram of the projection: up to a day of hour buckets
/// ending at the newest record's hour, oldest first, each bucket counting
/// the projected records of that hour exactly; labels are the local-time
/// hour rendering.
#[verifier::loop_isolation(false)]
pub fn build_histogram(records: &Vec<EventRecord>, idxs: &Vec<usize>) -> (r: Vec<(String, usize)>)
    requires
        indices_in_range(idxs@, records@.len() as int),
    ensures
        r@.len() == histogram_len(records@, idxs@),
        forall|b: int|
            0 <= b < r@.len() ==> (#[trigger] r@[b]).1 == hour_count_upto(
                records@,
                idxs@,
                histogram_start(records@, idxs@) + b * 3_600_000,
                idxs@.len() as int,
            ),
{
    if idxs.len() == 0 {
        return Vec::new();
    }
    // The newest and oldest projected timestamps.
    let mut min_ts: i64 = records[idxs[0]].timestamp;
    let mut max_ts: i64 = min_ts;
    let mut i: usize = 1;
    while i < idxs.len()
        invariant
            1 <= i <= idxs@.len(),
            indices_in_range(idxs@, records@.len() as int),
            min_ts <= max_ts,
            min_ts == min_ts_upto(records@, idxs@, i as int),
            max_ts == max_ts_upto(records@, idxs@, i as int),
        decreases idxs@.len() - i,
    {
        let ts = records[idxs[i]].timestamp;
        if ts < min_ts {
            min_ts = ts;
        }
        if ts > max_ts {
            max_ts = ts;
        }
        i = i + 1;
    }
    let start_hour = hour_floor_exec(min_ts);
    let end_hour = hour_floor_exec(max_ts);
    if end_hour > i64::MAX - 3_600_000 || start_hour > end_hour || end_hour < i64::MIN
        + 90_000_000 {
        return Vec::new();
    }
    let span_hours_wide: i128 = ((end_hour as i128) - (start_hour as i128)) / 3_600_000 + 1;
    let display: i64 = if span_hours_wide > MAX_HISTOGRAM_BUCKETS as i128 {
        MAX_HISTOGRAM_BUCKETS as i64
    } else {
        span_hours_wide as i64
    };
    proof {
        assert(display == histogram_len(records@, idxs@));
    }
    let bucket_start: i64 = end_hour - (display - 1) * 3_600_000;
    let mut out: Vec<(String, usize)> = Vec::new();
    let mut b: i64 = 0;
    while b < display
        invariant
            0 <= b <= display <= 24,
            display == histogram_len(records@, idxs@),
            out@.len() == b,
            bucket_start <= end_hour <= i64::MAX - 3_600_000,
            bucket_start == histogram_start(records@, idxs@),
            bucket_start == end_hour - (display - 1) * 3_600_000,
            indices_in_range(idxs@, records@.len() as int),
            forall|q: int|
                0 <= q < b ==> (#[trigger] out@[q]).1 == hour_count_upto(
                    records@,
                    idxs@,
                    bucket_start + q * 3_600_000,
                    idxs@.len() as int,
                ),
        decreases display - b,
    {
        let h0: i64 = bucket_start + b * 3_600_000;
        let label = crate::timefmt::local_hour_label(h0);
        let c = count_hour(records, idxs, h0);
        out.push((label, c));
        b = b + 1;
    }
    out
}

} // verus!
