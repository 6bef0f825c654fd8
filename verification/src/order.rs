//! Sort orders over records and the verified index sort.
//!
//! The projection is sorted by one key column, ascending or descending,
//! with ties broken by the underlying index so the sort is stable.

use vstd::prelude::*;
use crate::record::EventRecord;
use crate::text::chars_of;

verus! {

/// Which column the projection is sorted by.
#[derive(Clone, Copy, Debug, PartialEq, Eq, Structural)]
pub enum SortColumn {
    Timestamp,
    Level,
    EventId,
    Provider,
    Message,
}

/// Lexicographic order on character sequences by code point, the natural
/// total order of strings.
pub open spec fn seq_le(a: Seq<char>, b: Seq<char>) -> bool
    decreases a.len(),
{
    if a.len() == 0 {
        true
    } else if b.len() == 0 {
        false
    } else if a[0] != b[0] {
        (a[0] as u32) < (b[0] as u32)
    } else {
        seq_le(a.drop_first(), b.drop_first())
    }
}

pub proof fn lemma_seq_le_total(a: Seq<char>, b: Seq<char>)
    ensures
        seq_le(a, b) || seq_le(b, a),
    decreases a.len(),
{
    if a.len() > 0 && b.len() > 0 {
        if a[0] == b[0] {
            lemma_seq_le_total(a.drop_first(), b.drop_first());
        } else {
            vstd::utf8::char_u32_cast(a[0], a[0] as u32);
            vstd::utf8::char_u32_cast(b[0], b[0] as u32);
        }
    }
}

pub proof fn lemma_seq_le_trans(a: Seq<char>, b: Seq<char>, c: Seq<char>)
    requires
        seq_le(a, b),
        seq_le(b, c),
    ensures
        seq_le(a, c),
    decreases a.len(),
{
    if a.len() > 0 && b.len() > 0 && c.len() > 0 && a[0] == b[0] && b[0] == c[0] {
        lemma_seq_le_trans(a.drop_first(), b.drop_first(), c.drop_first());
    }
}

/// Executable lexicographic comparison.
pub fn str_le(x: &str, y: &str) -> (r: bool)
    ensures
        r == seq_le(x@, y@),
{
    let a = chars_of(x);
    let b = chars_of(y);
    let mut i: usize = 0;
    proof {
        assert(a@.skip(0) =~= a@);
        assert(b@.skip(0) =~= b@);
    }
    while i < a.len() && i < b.len() && a[i] == b[i]
        invariant
            i <= a@.len(),
            i <= b@.len(),
            a@ == x@,
            b@ == y@,
            seq_le(x@, y@) == seq_le(a@.skip(i as int), b@.skip(i as int)),
        decreases a@.len() - i,
    {
        proof {
            assert(a@.skip(i as int).drop_first() =~= a@.skip(i as int + 1));
            assert(b@.skip(i as int).drop_first() =~= b@.skip(i as int + 1));
        }
        i = i + 1;
    }
    if i == a.len() {
        proof {
            assert(a@.skip(i as int).len() == 0);
        }
        true
    } else if i == b.len() {
        proof {
            assert(b@.skip(i as int).len() == 0);
            assert(a@.skip(i as int).len() > 0);
        }
        false
    } else {
        proof {
            assert(a@.skip(i as int)[0] == a@[i as int]);
            assert(b@.skip(i as int)[0] == b@[i as int]);
        }
        (a[i] as u32) < (b[i] as u32)
    }
}

/// The key order of one column on two records.
pub open spec fn key_le(col: SortColumn, a: EventRecord, b: EventRecord) -> bool {
    match col {
        SortColumn::Timestamp => a.timestamp <= b.timestamp,
        SortColumn::Level => a.level <= b.level,
        SortColumn::EventId => a.event_id <= b.event_id,
        SortColumn::Provider => seq_le(a.provider_name@, b.provider_name@),
        SortColumn::Message => seq_le(a.message@, b.message@),
    }
}

pub proof fn lemma_key_le_total(col: SortColumn, a: EventRecord, b: EventRecord)
    ensures
        key_le(col, a, b) || key_le(col, b, a),
{
    match col {
        SortColumn::Provider => lemma_seq_le_total(a.provider_name@, b.provider_name@),
        SortColumn::Message => lemma_seq_le_total(a.message@, b.message@),
        _ => {},
    }
}

pub proof fn lemma_key_le_trans(col: SortColumn, a: EventRecord, b: EventRecord, c: EventRecord)
    requires
        key_le(col, a, b),
        key_le(col, b, c),
    ensures
        key_le(col, a, c),
{
    match col {
        SortColumn::Provider => lemma_seq_le_trans(a.provider_name@, b.provider_name@, c.provider_name@),
        SortColumn::Message => lemma_seq_le_trans(a.message@, b.message@, c.message@),
        _ => {},
    }
}

/// Executable key comparison.
pub fn key_le_exec(col: SortColumn, a: &EventRecord, b: &EventRecord) -> (r: bool)
    ensures
        r == key_le(col, *a, *b),
{
    match col {
        SortColumn::Timestamp => a.timestamp <= b.timestamp,
        SortColumn::Level => a.level <= b.level,
        SortColumn::EventId => a.event_id <= b.event_id,
        SortColumn::Provider => str_le(a.provider_name.as_str(), b.provider_name.as_str()),
        SortColumn::Message => str_le(a.message.as_str(), b.message.as_str()),
    }
}

/// The projection order: index `i` comes before index `j` when its record
/// is strictly smaller under the active key and direction, with key ties
/// broken by the index itself (stability).
pub open spec fn proj_le(
    records: Seq<EventRecord>,
    col: SortColumn,
    asc: bool,
    i: usize,
    j: usize,
) -> bool {
    let a = records[i as int];
    let b = records[j as int];
    let le_ab = if asc {
        key_le(col, a, b)
    } else {
        key_le(col, b, a)
    };
    let le_ba = if asc {
        key_le(col, b, a)
    } else {
        key_le(col, a, b)
    };
    (le_ab && !le_ba) || (le_ab && le_ba && i <= j)
}

pub proof fn lemma_proj_le_total(
    records: Seq<EventRecord>,
    col: SortColumn,
    asc: bool,
    i: usize,
    j: usize,
)
    ensures
        proj_le(records, col, asc, i, j) || proj_le(records, col, asc, j, i),
{
    lemma_key_le_total(col, records[i as int], records[j as int]);
}

pub proof fn lemma_proj_le_trans(
    records: Seq<EventRecord>,
    col: SortColumn,
    asc: bool,
    i: usize,
    j: usize,
    k: usize,
)
    requires
        proj_le(records, col, asc, i, j),
        proj_le(records, col, asc, j, k),
    ensures
        proj_le(records, col, asc, i, k),
{
    let a = records[i as int];
    let b = records[j as int];
    let c = records[k as int];
    if asc {
        lemma_key_le_trans(col, a, b, c);
        if key_le(col, c, a) {
            lemma_key_le_trans(col, c, a, b);
            lemma_key_le_trans(col, b, c, a);
        }
    } else {
        lemma_key_le_trans(col, c, b, a);
        if key_le(col, a, c) {
            lemma_key_le_trans(col, b, a, c);
            lemma_key_le_trans(col, a, c, b);
        }
    }
}

/// Executable projection-order comparison.
fn proj_le_exec(
    records: &Vec<EventRecord>,
    col: SortColumn,
    asc: bool,
    i: usize,
    j: usize,
) -> (r: bool)
    requires
        i < records@.len(),
        j < records@.len(),
    ensures
        r == proj_le(records@, col, asc, i, j),
{
    let a = &records[i];
    let b = &records[j];
    let le_ab = if asc {
        key_le_exec(col, a, b)
    } else {
        key_le_exec(col, b, a)
    };
    let le_ba = if asc {
        key_le_exec(col, b, a)
    } else {
        key_le_exec(col, a, b)
    };
    (le_ab && !le_ba) || (le_ab && le_ba && i <= j)
}

/// Every index of `v` is a valid position in `records`.
pub open spec fn indices_in_range(v: Seq<usize>, n: int) -> bool {
    forall|k: int| 0 <= k < v.len() ==> v[k] < n
}

/// `v` is sorted under the projection order.
pub open spec fn proj_sorted(
    records: Seq<EventRecord>,
    col: SortColumn,
    asc: bool,
    v: Seq<usize>,
) -> bool {
    forall|p: int, q: int|
        0 <= p < q < v.len() ==> proj_le(records, col, asc, #[trigger] v[p], #[trigger] v[q])
}

/// Stable insertion sort of the projection indices.
#[verifier::loop_isolation(false)]
pub fn sort_proj_indices(
    records: &Vec<EventRecord>,
    idxs: &mut Vec<usize>,
    col: SortColumn,
    asc: bool,
)
    requires
        indices_in_range(old(idxs)@, records@.len() as int),
    ensures
        final (idxs)@.to_multiset() == old(idxs)@.to_multiset(),
        indices_in_range(final (idxs)@, records@.len() as int),
        proj_sorted(records@, col, asc, final (idxs)@),
{
    broadcast use vstd::seq_lib::group_to_multiset_ensures;

    let n = idxs.len();
    let mut i: usize = 1;
    if n <= 1 {
        return ;
    }
    while i < n
        invariant
            1 <= i <= n,
            n == idxs@.len(),
            idxs@.to_multiset() == old(idxs)@.to_multiset(),
            indices_in_range(idxs@, records@.len() as int),
            proj_sorted(records@, col, asc, idxs@.take(i as int)),
        decreases n - i,
    {
        let mut j: usize = i;
        proof {
            assert forall|p: int, q: int| 0 <= p < q <= i && q != i implies proj_le(
                records@,
                col,
                asc,
                idxs@[p],
                idxs@[q],
            ) by {
                assert(idxs@.take(i as int)[p] == idxs@[p]);
                assert(idxs@.take(i as int)[q] == idxs@[q]);
            }
        }
        while j > 0 && !proj_le_exec(records, col, asc, idxs[j - 1], idxs[j])
            invariant
                0 <= j <= i < n,
                n == idxs@.len(),
                idxs@.to_multiset() == old(idxs)@.to_multiset(),
                indices_in_range(idxs@, records@.len() as int),
                forall|p: int, q: int|
                    0 <= p < q <= i && p != j && q != j ==> proj_le(records@, col, asc,
                        #[trigger] idxs@[p], #[trigger] idxs@[q]),
                forall|q: int|
                    j < q <= i ==> proj_le(records@, col, asc, idxs@[j as int],
                        #[trigger] idxs@[q]),
            decreases j,
        {
            let ghost before = idxs@;
            let x = idxs[j];
            let y = idxs[j - 1];
            proof {
                lemma_proj_le_total(records@, col, asc, y, x);
            }
            idxs.set(j, y);
            idxs.set(j - 1, x);
            proof {
                lemma_swap_multiset(before, j as int, j as int - 1);
                assert(idxs@ == before.update(j as int, before[j as int - 1]).update(
                    j as int - 1,
                    before[j as int],
                ));
            }
            j = j - 1;
        }
        proof {
            assert forall|p: int, q: int| 0 <= p < q <= i implies proj_le(records@, col, asc,
                #[trigger] idxs@[p], #[trigger] idxs@[q]) by {
                if q == j {
                    if p < j {
                        if p == j - 1 {
                        } else {
                            lemma_proj_le_trans(records@, col, asc, idxs@[p] as usize,
                                idxs@[j - 1] as usize, idxs@[j as int] as usize);
                        }
                    }
                }
            }
            assert(proj_sorted(records@, col, asc, idxs@.take(i as int + 1))) by {
                assert forall|p: int, q: int|
                    0 <= p < q < i + 1 implies proj_le(records@, col, asc,
                        #[trigger] idxs@.take(i as int + 1)[p],
                        #[trigger] idxs@.take(i as int + 1)[q]) by {
                    assert(idxs@.take(i as int + 1)[p] == idxs@[p]);
                    assert(idxs@.take(i as int + 1)[q] == idxs@[q]);
                }
            }
        }
        i = i + 1;
    }
    proof {
        assert(idxs@.take(n as int) =~= idxs@);
    }
}

proof fn lemma_swap_multiset(a: Seq<usize>, i: int, j: int)
    requires
        0 <= i < a.len(),
        0 <= j < a.len(),
        i != j,
    ensures
        a.update(i, a[j]).update(j, a[i]).to_multiset() == a.to_multiset(),
{
    broadcast use vstd::seq_lib::group_to_multiset_ensures;
    broadcast use vstd::multiset::group_multiset_axioms;

    let a1 = a.update(i, a[j]);
    assert(a1.to_multiset() == a.to_multiset().insert(a[j]).remove(a[i]));
    assert(a1[j] == a[j]);
    assert(a1.update(j, a[i]).to_multiset() == a1.to_multiset().insert(a[i]).remove(a1[j]));
    assert(a.to_multiset().contains(a[i])) by {
        assert(a.contains(a[i]));
    }
    assert(a.update(i, a[j]).update(j, a[i]).to_multiset() =~= a.to_multiset());
}

} // verus!
