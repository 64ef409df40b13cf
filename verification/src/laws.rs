//! What holds of every merge: the history stays ordered and free of duplicates,
//! and a batch merged twice is written once.

use crate::merge::{
    entirely_newer, entirely_older, is_pivot, lemma_pivot_is, pivot_index, sorted_by_timestamp,
    spec_plan_merge, MergeError, MergePlanView,
};
use crate::record::Log;
use crate::store::{
    is_latest, is_only_match, latest, latest_index, lemma_latest_is, lemma_latest_of_sorted,
    spec_merge, spec_replace,
};
use vstd::prelude::*;

verus! {

/// Every record of `logs` meets the record's own invariant.
pub open spec fn all_wf(logs: Seq<Log>) -> bool {
    forall|i: int| 0 <= i < logs.len() ==> (#[trigger] logs[i]).wf()
}

/// No two records of `logs` are the same logical entry.
pub open spec fn distinct_identities(logs: Seq<Log>) -> bool {
    forall|i: int, j: int|
        0 <= i < j < logs.len() ==> logs[i].spec_identity() != logs[j].spec_identity()
}

/// No record of `logs` is the logical entry of a record of `rows`.
pub open spec fn disjoint_identities(rows: Seq<Log>, logs: Seq<Log>) -> bool {
    forall|i: int, j: int|
        0 <= i < rows.len() && 0 <= j < logs.len() ==> rows[i].spec_identity()
            != logs[j].spec_identity()
}

/// The records that a merge of `batch` appends to `rows`; none where the batch is
/// refused.
pub open spec fn appended(rows: Seq<Log>, batch: Seq<Log>) -> Seq<Log> {
    match spec_plan_merge(latest(rows), batch) {
        Ok(plan) => batch.subrange(plan.append_from, batch.len() as int),
        Err(_) => Seq::empty(),
    }
}

/// What a merge of `batch` appends is new to `rows`: logical entries that the
/// history does not hold yet, each of them once.
pub open spec fn appends_new_entries(rows: Seq<Log>, batch: Seq<Log>) -> bool {
    distinct_identities(appended(rows, batch)) && disjoint_identities(rows, appended(rows, batch))
}

/// Where a merge of `batch` overwrites the latest row of `rows`, the record that
/// it writes is not older than the row before.
pub open spec fn replaces_in_order(rows: Seq<Log>, batch: Seq<Log>) -> bool {
    spec_plan_merge(latest(rows), batch) matches Ok(plan) ==> (plan.replace matches Some(i)
        ==> rows.len() >= 2 ==> rows[rows.len() - 2].timestamp <= batch[i].timestamp)
}

/// Where a merge of `batch` appends anything, the batch lists its newest entry
/// once.
pub open spec fn lists_newest_once(rows: Seq<Log>, batch: Seq<Log>) -> bool {
    appended(rows, batch).len() > 0 ==> forall|j: int|
        0 <= j < batch.len() - 1 ==> (#[trigger] batch[j]).spec_identity()
            != batch.last().spec_identity()
}

/// The history after `batches` have been merged into `rows` one after the other.
/// A batch that is refused leaves the history as it was.
pub open spec fn merge_all(rows: Seq<Log>, batches: Seq<Seq<Log>>) -> Seq<Log>
    decreases batches.len(),
{
    if batches.len() == 0 {
        rows
    } else {
        let before = merge_all(rows, batches.drop_last());
        match spec_merge(before, batches.last()) {
            Ok((merged, _)) => merged,
            Err(_) => before,
        }
    }
}

/// Each of `batches`, merged in turn into `rows`, holds well-formed records,
/// appends new entries only and replaces in order.
pub open spec fn all_merges_valid(rows: Seq<Log>, batches: Seq<Seq<Log>>) -> bool
    decreases batches.len(),
{
    batches.len() > 0 ==> {
        let before = merge_all(rows, batches.drop_last());
        &&& all_merges_valid(rows, batches.drop_last())
        &&& all_wf(batches.last())
        &&& appends_new_entries(before, batches.last())
        &&& replaces_in_order(before, batches.last())
    }
}

/// Where replacing the latest row succeeds, it is the latest row that is
/// overwritten.
proof fn lemma_replace_latest(rows: Seq<Log>, fresh: Log)
    requires
        rows.len() > 0,
        0 <= latest_index(rows) < rows.len(),
    ensures
        spec_replace(rows, rows[latest_index(rows)], fresh) matches Ok(replaced) ==> replaced
            == rows.update(latest_index(rows), fresh),
{
    let at = latest_index(rows);
    let key = rows[at].spec_identity();
    if exists|i: int| is_only_match(rows, key, i) {
        let i = choose|i: int| is_only_match(rows, key, i);
        assert(i == at);
    }
}

/// A history that is not empty has a latest row.
pub proof fn lemma_latest_exists(rows: Seq<Log>)
    requires
        rows.len() > 0,
    ensures
        is_latest(rows, latest_index(rows)),
    decreases rows.len(),
{
    if rows.len() == 1 {
        assert(is_latest(rows, 0));
    } else {
        let shorter = rows.drop_last();
        lemma_latest_exists(shorter);
        let best = latest_index(shorter);
        let last = rows.len() - 1;
        if rows[last].timestamp >= shorter[best].timestamp {
            assert forall|j: int| 0 <= j < rows.len() implies rows[j].timestamp
                <= rows[last].timestamp by {
                if j < last {
                    assert(shorter[j].timestamp <= shorter[best].timestamp);
                }
            }
            assert(is_latest(rows, last));
        } else {
            assert forall|j: int| 0 <= j < rows.len() implies rows[j].timestamp
                <= rows[best].timestamp by {
                if j < last {
                    assert(shorter[j].timestamp <= shorter[best].timestamp);
                }
            }
            assert forall|j: int| best < j < rows.len() implies rows[j].timestamp
                < rows[best].timestamp by {
                if j < last {
                    assert(shorter[j].timestamp < shorter[best].timestamp);
                }
            }
            assert(is_latest(rows, best));
        }
    }
}

/// An entry that only moves forward in time replaces in order: where no record
/// of the batch that is the logical entry of the history's last row is older
/// than that row, the merge replaces in order.
pub proof fn law_advancing_entry_replaces_in_order(rows: Seq<Log>, batch: Seq<Log>)
    requires
        sorted_by_timestamp(rows),
        rows.len() > 0 ==> forall|i: int|
            0 <= i < batch.len() && (#[trigger] batch[i]).spec_identity()
                == rows.last().spec_identity() ==> rows.last().timestamp <= batch[i].timestamp,
    ensures
        replaces_in_order(rows, batch),
{
    if rows.len() >= 2 {
        lemma_latest_of_sorted(rows);
        let plan = spec_plan_merge(latest(rows), batch);
        if plan is Ok && plan.unwrap().replace is Some {
            crate::merge::lemma_plan_in_bounds(latest(rows), batch);
            let at = pivot_index(batch, rows.last());
            assert(is_pivot(batch, rows.last(), at));
            assert(rows[rows.len() - 2].timestamp <= rows.last().timestamp);
        }
    }
}

/// Order preservation: a merge into a history that is ordered by timestamp
/// leaves it ordered, provided that the batch's records are well formed and that
/// a record which overwrites the latest row is not older than the row before.
pub proof fn law_merge_keeps_order(rows: Seq<Log>, batch: Seq<Log>)
    requires
        sorted_by_timestamp(rows),
        all_wf(batch),
        replaces_in_order(rows, batch),
    ensures
        spec_merge(rows, batch) matches Ok((merged, _)) ==> sorted_by_timestamp(merged),
{
    if spec_merge(rows, batch) is Ok {
        let plan = spec_plan_merge(latest(rows), batch).unwrap();
        let merged = spec_merge(rows, batch).unwrap().0;
        let tail = batch.subrange(plan.append_from, batch.len() as int);
        crate::merge::lemma_plan_in_bounds(latest(rows), batch);
        if rows.len() == 0 {
            assert(merged =~= batch);
        } else {
            lemma_latest_of_sorted(rows);
            let last = rows.len() - 1;
            let newest = rows[last];
            assert(batch.len() > 0 ==> batch[0].wf());
            match plan.replace {
                None => {
                    assert(merged == rows + tail);
                    assert forall|a: int, b: int|
                        0 <= a <= b < merged.len() implies merged[a].timestamp
                        <= merged[b].timestamp by {
                        if b >= rows.len() {
                            let y = plan.append_from + (b - rows.len());
                            assert(merged[b] == batch[y]);
                            if a >= rows.len() {
                                let x = plan.append_from + (a - rows.len());
                                assert(merged[a] == batch[x]);
                            } else {
                                assert(rows[a].timestamp <= newest.timestamp);
                                if entirely_newer(batch, newest) {
                                    assert(batch[0].timestamp <= batch[y].timestamp);
                                } else {
                                    let i = pivot_index(batch, newest);
                                    assert(batch[i].timestamp <= batch[y].timestamp);
                                }
                            }
                        }
                    }
                },
                Some(i) => {
                    lemma_replace_latest(rows, batch[i]);
                    let replaced = rows.update(last, batch[i]);
                    assert(merged == replaced + tail);
                    assert forall|a: int, b: int|
                        0 <= a <= b < merged.len() implies merged[a].timestamp
                        <= merged[b].timestamp by {
                        if a < last {
                            assert(rows[a].timestamp <= rows[last - 1].timestamp);
                        }
                        if b >= rows.len() {
                            let y = plan.append_from + (b - rows.len());
                            assert(merged[b] == batch[y]);
                            assert(batch[i].timestamp <= batch[y].timestamp);
                            if a >= rows.len() {
                                let x = plan.append_from + (a - rows.len());
                                assert(merged[a] == batch[x]);
                            }
                        }
                    }
                },
            }
        }
    }
}

/// No duplication: a merge into a history that holds every logical entry once
/// leaves it so, provided that what the merge appends is new to the history.
pub proof fn law_merge_keeps_identities_distinct(rows: Seq<Log>, batch: Seq<Log>)
    requires
        distinct_identities(rows),
        appends_new_entries(rows, batch),
    ensures
        spec_merge(rows, batch) matches Ok((merged, _)) ==> distinct_identities(merged),
{
    if spec_merge(rows, batch) is Ok {
        let plan = spec_plan_merge(latest(rows), batch).unwrap();
        let merged = spec_merge(rows, batch).unwrap().0;
        let tail = appended(rows, batch);
        crate::merge::lemma_plan_in_bounds(latest(rows), batch);
        let kept = match plan.replace {
            None => rows,
            Some(i) => {
                lemma_latest_exists(rows);
                lemma_replace_latest(rows, batch[i]);
                lemma_pivot_is(batch, rows[latest_index(rows)], i);
                rows.update(latest_index(rows), batch[i])
            },
        };
        assert(merged == kept + tail);
        assert(kept.len() == rows.len());
        assert forall|a: int| 0 <= a < kept.len() implies kept[a].spec_identity()
            == rows[a].spec_identity() by {}
        assert forall|a: int, b: int| 0 <= a < b < merged.len() implies merged[a].spec_identity()
            != merged[b].spec_identity() by {
            if b < kept.len() {
                assert(rows[a].spec_identity() != rows[b].spec_identity());
            } else if a < kept.len() {
                assert(rows[a].spec_identity() != tail[b - kept.len()].spec_identity());
            } else {
                assert(tail[a - kept.len()].spec_identity() != tail[b
                    - kept.len()].spec_identity());
            }
        }
    }
}

/// Idempotence: a batch that has just been merged changes nothing when it is
/// merged again, and nothing of it counts as incorporated, provided that its
/// records are well formed and that it lists its newest entry once.
pub proof fn law_merge_idempotent(rows: Seq<Log>, batch: Seq<Log>)
    requires
        all_wf(batch),
        lists_newest_once(rows, batch),
    ensures
        spec_merge(rows, batch) matches Ok((merged, _)) ==> spec_merge(merged, batch) == Ok::<
            (Seq<Log>, Seq<Log>),
            MergeError,
        >((merged, Seq::empty())),
{
    if spec_merge(rows, batch) is Ok {
        let plan = spec_plan_merge(latest(rows), batch).unwrap();
        let merged = spec_merge(rows, batch).unwrap().0;
        let tail = batch.subrange(plan.append_from, batch.len() as int);
        let n = batch.len() as int;
        crate::merge::lemma_plan_in_bounds(latest(rows), batch);
        assert(tail == appended(rows, batch));
        if n == 0 {
            assert(rows.len() == 0);
            assert(merged =~= rows);
            assert(batch.subrange(0, 0) =~= Seq::<Log>::empty());
        } else {
            assert(batch[0].wf());
            assert(batch[n - 1].wf());
            if rows.len() > 0 {
                lemma_latest_exists(rows);
            }
            let kept = match plan.replace {
                None => rows,
                Some(i) => {
                    lemma_replace_latest(rows, batch[i]);
                    rows.update(latest_index(rows), batch[i])
                },
            };
            assert(merged == kept + tail);
            if tail.len() > 0 {
                // The batch's newest record is now the history's latest row.
                let end = merged.len() - 1;
                assert(merged[end] == batch[n - 1]);
                assert forall|j: int| 0 <= j < merged.len() implies merged[j].timestamp
                    <= merged[end].timestamp by {
                    if j < kept.len() {
                        let at = latest_index(rows);
                        assert(rows[j].timestamp <= rows[at].timestamp);
                        if j == at && plan.replace is Some {
                            assert(kept[j] == batch[plan.replace.unwrap()]);
                        }
                    } else {
                        assert(merged[j] == batch[plan.append_from + (j - kept.len())]);
                    }
                }
                lemma_latest_is(merged, end);
                assert(is_pivot(batch, batch[n - 1], n - 1));
                lemma_pivot_is(batch, batch[n - 1], n - 1);
                assert(!entirely_newer(batch, batch[n - 1]));
                assert(!entirely_older(batch, batch[n - 1]));
                let again = spec_plan_merge(latest(merged), batch).unwrap();
                assert(again == MergePlanView { replace: None, append_from: n });
                assert(merged + batch.subrange(n, n) =~= merged);
                assert(batch.subrange(n, n) =~= Seq::<Log>::empty());
            } else {
                assert(tail =~= Seq::<Log>::empty());
                assert(kept + tail =~= kept);
                match plan.replace {
                    None => {
                        // Nothing was written: the second merge is the first one.
                        assert(merged == rows);
                        assert(plan.append_from == n);
                        assert(batch.subrange(n, n) =~= Seq::<Log>::empty());
                    },
                    Some(i) => {
                        // Only the latest row was overwritten, by the batch's last record.
                        assert(i == n - 1);
                        let at = latest_index(rows);
                        let newest = rows[at];
                        assert(is_pivot(batch, newest, i));
                        assert forall|j: int| 0 <= j < merged.len() implies merged[j].timestamp
                            <= merged[at].timestamp by {
                            assert(rows[j].timestamp <= newest.timestamp);
                        }
                        assert forall|j: int| at < j < merged.len() implies merged[j].timestamp
                            < merged[at].timestamp by {
                            assert(rows[j].timestamp < newest.timestamp);
                        }
                        lemma_latest_is(merged, at);
                        assert(is_pivot(batch, batch[i], i));
                        lemma_pivot_is(batch, batch[i], i);
                        assert(!entirely_newer(batch, batch[i]));
                        assert(!entirely_older(batch, batch[i]));
                        let again = spec_plan_merge(latest(merged), batch).unwrap();
                        assert(again == MergePlanView { replace: None, append_from: n });
                        assert(merged + batch.subrange(n, n) =~= merged);
                        assert(batch.subrange(n, n) =~= Seq::<Log>::empty());
                    },
                }
            }
        }
    }
}

/// Where a batch holds the logical entry of `latest` at `at`, it has a pivot, at
/// `at` or before.
pub proof fn lemma_pivot_exists(batch: Seq<Log>, latest: Log, at: int)
    requires
        0 <= at < batch.len(),
        batch[at].spec_identity() == latest.spec_identity(),
    ensures
        is_pivot(batch, latest, pivot_index(batch, latest)),
        pivot_index(batch, latest) <= at,
    decreases at,
{
    if exists|j: int| 0 <= j < at && batch[j].spec_identity() == latest.spec_identity() {
        let j = choose|j: int| 0 <= j < at && batch[j].spec_identity() == latest.spec_identity();
        lemma_pivot_exists(batch, latest, j);
    } else {
        assert(is_pivot(batch, latest, at));
        lemma_pivot_is(batch, latest, at);
    }
}

/// Order is kept in no other case: where the record that overwrites the latest
/// row is older than the row before, the history is out of order afterwards.
pub proof fn law_merge_loses_order_otherwise(rows: Seq<Log>, batch: Seq<Log>)
    requires
        sorted_by_timestamp(rows),
        !replaces_in_order(rows, batch),
    ensures
        spec_merge(rows, batch) matches Ok((merged, _)) ==> !sorted_by_timestamp(merged),
{
    if spec_merge(rows, batch) is Ok {
        let plan = spec_plan_merge(latest(rows), batch).unwrap();
        let merged = spec_merge(rows, batch).unwrap().0;
        let i = plan.replace.unwrap();
        let last = rows.len() - 1;
        lemma_latest_of_sorted(rows);
        lemma_replace_latest(rows, batch[i]);
        assert(merged[last - 1] == rows[last - 1]);
        assert(merged[last] == batch[i]);
        assert(merged[last - 1].timestamp > merged[last].timestamp);
    }
}

/// Duplicates are kept out in no other case: where a merge appends a logical
/// entry twice, or one that the history holds, the history holds an entry twice
/// afterwards.
pub proof fn law_merge_duplicates_otherwise(rows: Seq<Log>, batch: Seq<Log>)
    requires
        !appends_new_entries(rows, batch),
    ensures
        spec_merge(rows, batch) matches Ok((merged, _)) ==> !distinct_identities(merged),
{
    if spec_merge(rows, batch) is Ok {
        let plan = spec_plan_merge(latest(rows), batch).unwrap();
        let merged = spec_merge(rows, batch).unwrap().0;
        let tail = appended(rows, batch);
        crate::merge::lemma_plan_in_bounds(latest(rows), batch);
        let kept = match plan.replace {
            None => rows,
            Some(i) => {
                lemma_latest_exists(rows);
                lemma_replace_latest(rows, batch[i]);
                lemma_pivot_is(batch, rows[latest_index(rows)], i);
                rows.update(latest_index(rows), batch[i])
            },
        };
        assert(merged == kept + tail);
        assert(kept.len() == rows.len());
        assert forall|a: int| 0 <= a < kept.len() implies kept[a].spec_identity()
            == rows[a].spec_identity() by {}
        if !distinct_identities(tail) {
            let (a, b) = choose|a: int, b: int|
                0 <= a < b < tail.len() && tail[a].spec_identity() == tail[b].spec_identity();
            assert(merged[kept.len() + a] == tail[a]);
            assert(merged[kept.len() + b] == tail[b]);
        } else {
            let (a, b) = choose|a: int, b: int|
                0 <= a < rows.len() && 0 <= b < tail.len() && rows[a].spec_identity()
                    == tail[b].spec_identity();
            assert(merged[a] == kept[a]);
            assert(merged[kept.len() + b] == tail[b]);
        }
    }
}

/// A batch is written once in no other case: where a merge appends records of a
/// batch that lists its newest entry twice, merging the batch again writes again.
pub proof fn law_merge_repeats_otherwise(rows: Seq<Log>, batch: Seq<Log>)
    requires
        all_wf(batch),
        !lists_newest_once(rows, batch),
    ensures
        spec_merge(rows, batch) matches Ok((merged, _)) ==> spec_merge(merged, batch) != Ok::<
            (Seq<Log>, Seq<Log>),
            MergeError,
        >((merged, Seq::empty())),
{
    if spec_merge(rows, batch) is Ok {
        let plan = spec_plan_merge(latest(rows), batch).unwrap();
        let merged = spec_merge(rows, batch).unwrap().0;
        let tail = batch.subrange(plan.append_from, batch.len() as int);
        let n = batch.len() as int;
        crate::merge::lemma_plan_in_bounds(latest(rows), batch);
        assert(tail == appended(rows, batch));
        let twin = choose|j: int|
            0 <= j < batch.len() - 1 && (#[trigger] batch[j]).spec_identity()
                == batch.last().spec_identity();
        assert(batch[0].wf());
        if rows.len() > 0 {
            lemma_latest_exists(rows);
        }
        let kept = match plan.replace {
            None => rows,
            Some(i) => {
                lemma_replace_latest(rows, batch[i]);
                rows.update(latest_index(rows), batch[i])
            },
        };
        assert(merged == kept + tail);
        // The batch's newest record is now the history's latest row.
        let end = merged.len() - 1;
        assert(merged[end] == batch[n - 1]);
        assert forall|j: int| 0 <= j < merged.len() implies merged[j].timestamp
            <= merged[end].timestamp by {
            if j < kept.len() {
                let at = latest_index(rows);
                assert(rows[j].timestamp <= rows[at].timestamp);
                if j == at && plan.replace is Some {
                    assert(kept[j] == batch[plan.replace.unwrap()]);
                }
            } else {
                assert(merged[j] == batch[plan.append_from + (j - kept.len())]);
            }
        }
        lemma_latest_is(merged, end);
        // Its logical entry stands earlier in the batch too, so the batch is
        // written again from there.
        lemma_pivot_exists(batch, batch[n - 1], twin);
        assert(!entirely_newer(batch, batch[n - 1]));
        assert(!entirely_older(batch, batch[n - 1]));
        let again = spec_plan_merge(latest(merged), batch).unwrap();
        assert(again.append_from <= twin + 1);
        if spec_merge(merged, batch) is Ok {
            let written = spec_merge(merged, batch).unwrap().1;
            assert(written.len() > 0);
        }
    }
}

/// The history's invariant, after any sequence of merges that began with an
/// empty history: the rows are ordered by timestamp, and no two of them are the
/// same logical entry.
pub proof fn law_history_invariant(batches: Seq<Seq<Log>>)
    requires
        all_merges_valid(Seq::empty(), batches),
    ensures
        sorted_by_timestamp(merge_all(Seq::empty(), batches)),
        distinct_identities(merge_all(Seq::empty(), batches)),
    decreases batches.len(),
{
    if batches.len() > 0 {
        let earlier = batches.drop_last();
        law_history_invariant(earlier);
        let before = merge_all(Seq::empty(), earlier);
        law_merge_keeps_order(before, batches.last());
        law_merge_keeps_identities_distinct(before, batches.last());
    }
}

} // verus!
