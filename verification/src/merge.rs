//! The merge engine: what one freshly fetched batch changes in a history whose
//! most recent record is known.
//!
//! The engine decides and touches no store. Its caller reads the store's latest
//! record, asks [`plan_merge`] for a plan and carries the plan out: first the
//! replacement, if there is one, then the appends, in the batch's order.

use crate::record::Log;
use vstd::prelude::*;

verus! {

/// Why a store could not replace a row.
#[derive(Debug, PartialEq, Eq, Structural, Clone, Copy, Hash)]
pub enum StoreError {
    /// No row has the identity of the record to replace.
    NoSuchRow,
    /// More than one row has the identity of the record to replace.
    AmbiguousRow,
}

/// Why a batch was not merged.
#[derive(Debug, PartialEq, Eq, Structural, Clone, Copy, Hash)]
pub enum MergeError {
    /// The batch is not ordered from old to new. Nothing was written.
    UnsortedBatch,
    /// The batch overlaps the history but does not hold the history's latest
    /// entry: the device's log has moved on further than any poll has seen.
    /// Nothing was written.
    OverlapNotFound,
    /// The store failed while the plan was carried out.
    Store(StoreError),
}

/// The store operations that bring a history up to date with a batch.
#[derive(Debug, PartialEq, Eq, Structural, Clone, Copy, Hash)]
pub struct MergePlan {
    /// The index of the batch record that overwrites the history's latest
    /// record, if that record has changed.
    pub replace: Option<usize>,
    /// The index of the first batch record to append; every later one follows.
    pub append_from: usize,
}

/// A [`MergePlan`] over mathematical integers.
pub struct MergePlanView {
    pub replace: Option<int>,
    pub append_from: int,
}

impl View for MergePlan {
    type V = MergePlanView;

    open spec fn view(&self) -> MergePlanView {
        MergePlanView {
            replace: match self.replace {
                Some(i) => Some(i as int),
                None => None,
            },
            append_from: self.append_from as int,
        }
    }
}

impl MergePlanView {
    /// The index from which the batch counts as incorporated: the replacing
    /// record, if there is one, and everything appended.
    pub open spec fn incorporated_from(self) -> int {
        match self.replace {
            Some(i) => i,
            None => self.append_from,
        }
    }
}

impl MergePlan {
    /// The index from which the batch counts as incorporated.
    pub fn incorporated_from(&self) -> (from: usize)
        ensures
            from == self@.incorporated_from(),
    {
        match self.replace {
            Some(i) => i,
            None => self.append_from,
        }
    }
}

/// No record of `logs` is older than one before it.
pub open spec fn sorted_by_timestamp(logs: Seq<Log>) -> bool {
    forall|i: int, j: int| 0 <= i <= j < logs.len() ==> logs[i].timestamp <= logs[j].timestamp
}

/// The batch begins after everything the history has seen.
pub open spec fn entirely_newer(batch: Seq<Log>, latest: Log) -> bool {
    batch.len() > 0 && batch[0].spec_earliest_timestamp() > latest.timestamp
}

/// The batch ends before the history's latest record.
pub open spec fn entirely_older(batch: Seq<Log>, latest: Log) -> bool {
    batch.len() > 0 && batch[batch.len() - 1].timestamp < latest.timestamp
}

/// `i` is the first index at which `batch` holds the logical entry of `latest`.
pub open spec fn is_pivot(batch: Seq<Log>, latest: Log, i: int) -> bool {
    &&& 0 <= i < batch.len()
    &&& batch[i].spec_identity() == latest.spec_identity()
    &&& forall|j: int| 0 <= j < i ==> batch[j].spec_identity() != latest.spec_identity()
}

/// `batch` holds the logical entry of `latest`.
pub open spec fn has_pivot(batch: Seq<Log>, latest: Log) -> bool {
    exists|i: int| is_pivot(batch, latest, i)
}

/// The first index at which `batch` holds the logical entry of `latest`.
pub open spec fn pivot_index(batch: Seq<Log>, latest: Log) -> int {
    choose|i: int| is_pivot(batch, latest, i)
}

/// The plan for `batch` against a history whose most recent record is `latest`.
pub open spec fn spec_plan_merge(latest: Option<Log>, batch: Seq<Log>) -> Result<
    MergePlanView,
    MergeError,
> {
    if !sorted_by_timestamp(batch) {
        Err(MergeError::UnsortedBatch)
    } else {
        match latest {
            None => Ok(MergePlanView { replace: None, append_from: 0 }),
            Some(latest) => {
                if entirely_newer(batch, latest) {
                    Ok(MergePlanView { replace: None, append_from: 0 })
                } else if entirely_older(batch, latest) {
                    Ok(MergePlanView { replace: None, append_from: batch.len() as int })
                } else if has_pivot(batch, latest) {
                    let i = pivot_index(batch, latest);
                    Ok(
                        MergePlanView {
                            replace: if batch[i].same_state(latest) {
                                None
                            } else {
                                Some(i)
                            },
                            append_from: i + 1,
                        },
                    )
                } else {
                    Err(MergeError::OverlapNotFound)
                }
            },
        }
    }
}

/// At most one index is the pivot.
pub proof fn lemma_pivot_unique(batch: Seq<Log>, latest: Log, i: int, j: int)
    requires
        is_pivot(batch, latest, i),
        is_pivot(batch, latest, j),
    ensures
        i == j,
{
}

/// An index that is the pivot is the one the plan speaks of.
pub proof fn lemma_pivot_is(batch: Seq<Log>, latest: Log, i: int)
    requires
        is_pivot(batch, latest, i),
    ensures
        has_pivot(batch, latest),
        pivot_index(batch, latest) == i,
{
    lemma_pivot_unique(batch, latest, i, pivot_index(batch, latest));
}

/// Every plan stays inside the batch, and replaces just before it appends.
pub proof fn lemma_plan_in_bounds(latest: Option<Log>, batch: Seq<Log>)
    ensures
        spec_plan_merge(latest, batch) matches Ok(plan) ==> {
            &&& 0 <= plan.append_from <= batch.len()
            &&& plan.replace matches Some(i) ==> 0 <= i < batch.len() && plan.append_from == i + 1
            &&& 0 <= plan.incorporated_from() <= plan.append_from
        },
{
}

/// Whether no record of `logs` is older than one before it.
pub fn is_sorted_by_timestamp(logs: &[Log]) -> (sorted: bool)
    ensures
        sorted == sorted_by_timestamp(logs@),
{
    if logs.len() < 2 {
        return true;
    }
    let mut i: usize = 1;
    while i < logs.len()
        invariant
            1 <= i <= logs.len(),
            sorted_by_timestamp(logs@.subrange(0, i as int)),
        decreases logs.len() - i,
    {
        if logs[i - 1].timestamp > logs[i].timestamp {
            return false;
        }
        proof {
            let shorter = logs@.subrange(0, i as int);
            let longer = logs@.subrange(0, i + 1);
            assert forall|a: int, b: int| 0 <= a <= b < longer.len() implies longer[a].timestamp
                <= longer[b].timestamp by {
                if b < i {
                    assert(shorter[a].timestamp <= shorter[b].timestamp);
                } else if a < i {
                    assert(shorter[a].timestamp <= shorter[i - 1].timestamp);
                }
            }
        }
        i += 1;
    }
    assert(logs@.subrange(0, i as int) == logs@);
    true
}

/// The first index at which `batch` holds the logical entry of `latest`.
pub fn find_pivot(batch: &[Log], latest: &Log) -> (found: Option<usize>)
    ensures
        match found {
            Some(i) => is_pivot(batch@, *latest, i as int),
            None => !has_pivot(batch@, *latest),
        },
{
    let key = latest.identity();
    let mut i: usize = 0;
    while i < batch.len()
        invariant
            i <= batch.len(),
            key == latest.spec_identity(),
            forall|j: int| 0 <= j < i ==> batch@[j].spec_identity() != latest.spec_identity(),
        decreases batch.len() - i,
    {
        if batch[i].identity() == key {
            return Some(i);
        }
        i += 1;
    }
    None
}

/// Decides what `batch`, ordered from old to new, changes in a history whose most
/// recent record is `latest` (`None`: the history is empty).
///
/// - An unsorted batch is refused.
/// - Against an empty history, or where the batch begins after `latest`, the whole
///   batch is appended.
/// - Where the batch ends before `latest`, nothing is written.
/// - Otherwise the batch must hold the logical entry of `latest`. The first record
///   that does replaces `latest` if its timestamp or repetition differs, and the
///   records after it are appended. A batch without it is refused.
pub fn plan_merge(latest: Option<&Log>, batch: &[Log]) -> (plan: Result<MergePlan, MergeError>)
    ensures
        match plan {
            Ok(p) => spec_plan_merge(latest_of(latest), batch@) == Ok::<MergePlanView, MergeError>(
                p@,
            ),
            Err(e) => spec_plan_merge(latest_of(latest), batch@) == Err::<
                MergePlanView,
                MergeError,
            >(e),
        },
{
    if !is_sorted_by_timestamp(batch) {
        return Err(MergeError::UnsortedBatch);
    }
    let latest = match latest {
        None => {
            return Ok(MergePlan { replace: None, append_from: 0 });
        },
        Some(latest) => latest,
    };
    if batch.len() > 0 && batch[0].earliest_timestamp() > latest.timestamp {
        return Ok(MergePlan { replace: None, append_from: 0 });
    }
    if batch.len() > 0 && batch[batch.len() - 1].timestamp < latest.timestamp {
        return Ok(MergePlan { replace: None, append_from: batch.len() });
    }
    match find_pivot(batch, latest) {
        None => Err(MergeError::OverlapNotFound),
        Some(i) => {
            proof {
                lemma_pivot_is(batch@, *latest, i as int);
            }
            let pivot = &batch[i];
            let unchanged = pivot.timestamp == latest.timestamp && pivot.repetition
                == latest.repetition;
            Ok(MergePlan { replace: if unchanged { None } else { Some(i) }, append_from: i + 1 })
        },
    }
}

/// The record behind an optional reference.
pub open spec fn latest_of(latest: Option<&Log>) -> Option<Log> {
    match latest {
        Some(log) => Some(*log),
        None => None,
    }
}

} // verus!
