//! An ordered log history in memory: the store that the merge engine writes to,
//! with the three primitives that any store has to offer, and the merge itself.
//!
//! The history keeps its rows in the order in which they were appended. Read
//! back, the newest row comes first.

use crate::merge::{
    plan_merge, sorted_by_timestamp, spec_plan_merge, MergeError, MergePlanView, StoreError,
};
use crate::record::{IdentityKey, Log};
use vstd::prelude::*;

verus! {

/// `i` is the row that a reader asking for the latest record gets: none is more
/// recent by timestamp, and of those that are as recent it was appended last.
pub open spec fn is_latest(rows: Seq<Log>, i: int) -> bool {
    &&& 0 <= i < rows.len()
    &&& forall|j: int| 0 <= j < rows.len() ==> rows[j].timestamp <= rows[i].timestamp
    &&& forall|j: int| i < j < rows.len() ==> rows[j].timestamp < rows[i].timestamp
}

/// The index of the latest row of a history that is not empty.
pub open spec fn latest_index(rows: Seq<Log>) -> int {
    choose|i: int| is_latest(rows, i)
}

/// The latest row, if there is any row.
pub open spec fn latest(rows: Seq<Log>) -> Option<Log> {
    if rows.len() == 0 {
        None
    } else {
        Some(rows[latest_index(rows)])
    }
}

/// The rows as a reader gets them: the newest first.
pub open spec fn newest_first(rows: Seq<Log>) -> Seq<Log> {
    rows.reverse()
}

/// The part of `logs` that begins after the first `offset` records and holds
/// `limit` records, or fewer where `logs` ends before.
pub open spec fn page(logs: Seq<Log>, offset: int, limit: int) -> Seq<Log> {
    let from = if offset < logs.len() {
        offset
    } else {
        logs.len() as int
    };
    let to = if limit < logs.len() - from {
        from + limit
    } else {
        logs.len() as int
    };
    logs.subrange(from, to)
}

/// `i` is the one and only row with the identity `key`.
pub open spec fn is_only_match(rows: Seq<Log>, key: IdentityKey, i: int) -> bool {
    &&& 0 <= i < rows.len()
    &&& rows[i].spec_identity() == key
    &&& forall|j: int| 0 <= j < rows.len() && j != i ==> rows[j].spec_identity() != key
}

/// No row has the identity `key`.
pub open spec fn no_match(rows: Seq<Log>, key: IdentityKey) -> bool {
    forall|j: int| 0 <= j < rows.len() ==> rows[j].spec_identity() != key
}

/// What replacing the row of `stale`'s identity by `fresh` makes of `rows`: the
/// row is overwritten where it stands, provided that it is the only one.
pub open spec fn spec_replace(rows: Seq<Log>, stale: Log, fresh: Log) -> Result<
    Seq<Log>,
    StoreError,
> {
    if exists|i: int| is_only_match(rows, stale.spec_identity(), i) {
        Ok(rows.update(choose|i: int| is_only_match(rows, stale.spec_identity(), i), fresh))
    } else if no_match(rows, stale.spec_identity()) {
        Err(StoreError::NoSuchRow)
    } else {
        Err(StoreError::AmbiguousRow)
    }
}

/// What carrying out `plan` for `batch` makes of `rows`.
pub open spec fn spec_apply(rows: Seq<Log>, plan: MergePlanView, batch: Seq<Log>) -> Result<
    Seq<Log>,
    StoreError,
> {
    let appended = batch.subrange(plan.append_from, batch.len() as int);
    match plan.replace {
        None => Ok(rows + appended),
        Some(i) => match spec_replace(rows, rows[latest_index(rows)], batch[i]) {
            Ok(replaced) => Ok(replaced + appended),
            Err(e) => Err(e),
        },
    }
}

/// What merging `batch` makes of `rows`, and which records of the batch it
/// incorporates. An error leaves the rows as they are.
pub open spec fn spec_merge(rows: Seq<Log>, batch: Seq<Log>) -> Result<
    (Seq<Log>, Seq<Log>),
    MergeError,
> {
    match spec_plan_merge(latest(rows), batch) {
        Err(e) => Err(e),
        Ok(plan) => match spec_apply(rows, plan, batch) {
            Err(e) => Err(MergeError::Store(e)),
            Ok(merged) => Ok(
                (merged, batch.subrange(plan.incorporated_from(), batch.len() as int)),
            ),
        },
    }
}

/// At most one row is the latest.
pub proof fn lemma_latest_unique(rows: Seq<Log>, i: int, j: int)
    requires
        is_latest(rows, i),
        is_latest(rows, j),
    ensures
        i == j,
{
}

/// A row that is the latest is the one that `latest` speaks of.
pub proof fn lemma_latest_is(rows: Seq<Log>, i: int)
    requires
        is_latest(rows, i),
    ensures
        latest_index(rows) == i,
        latest(rows) == Some(rows[i]),
{
    lemma_latest_unique(rows, i, latest_index(rows));
}

/// In a history ordered by timestamp the latest row is the last one.
pub proof fn lemma_latest_of_sorted(rows: Seq<Log>)
    requires
        sorted_by_timestamp(rows),
        rows.len() > 0,
    ensures
        latest_index(rows) == rows.len() - 1,
        latest(rows) == Some(rows[rows.len() - 1]),
{
    lemma_latest_is(rows, rows.len() - 1);
}

/// At most one row is the only match of a key.
pub proof fn lemma_only_match_is(rows: Seq<Log>, key: IdentityKey, i: int)
    requires
        is_only_match(rows, key, i),
    ensures
        (choose|k: int| is_only_match(rows, key, k)) == i,
{
}

/// An ordered log history in memory.
#[derive(Debug)]
pub struct LogStore {
    rows: Vec<Log>,
}

impl View for LogStore {
    type V = Seq<Log>;

    /// The rows in the order in which they were appended.
    closed spec fn view(&self) -> Seq<Log> {
        self.rows@
    }
}

impl LogStore {
    /// An empty history.
    pub fn new() -> (store: LogStore)
        ensures
            store@ == Seq::<Log>::empty(),
    {
        LogStore { rows: Vec::new() }
    }

    /// Removes every row.
    pub fn clear_logs(&mut self)
        ensures
            final(self)@ == Seq::<Log>::empty(),
    {
        self.rows.clear();
    }

    /// How many rows the history holds.
    pub fn logs_count(&self) -> (count: usize)
        ensures
            count == self@.len(),
    {
        self.rows.len()
    }

    /// Whether the history holds no row.
    pub fn is_empty(&self) -> (empty: bool)
        ensures
            empty == (self@.len() == 0),
    {
        self.rows.len() == 0
    }

    /// Appends one record without looking at what the history holds.
    pub fn append_log(&mut self, log: &Log)
        ensures
            final(self)@ == old(self)@.push(*log),
    {
        self.rows.push(log.clone());
    }

    /// Appends the records in the given order, without reordering or
    /// deduplicating them.
    pub fn append_logs(&mut self, logs: &[Log])
        ensures
            final(self)@ == old(self)@ + logs@,
    {
        let mut i: usize = 0;
        while i < logs.len()
            invariant
                i <= logs.len(),
                self@ == old(self)@ + logs@.subrange(0, i as int),
            decreases logs.len() - i,
        {
            self.rows.push(logs[i].clone());
            i += 1;
        }
        assert(logs@.subrange(0, i as int) == logs@);
    }

    /// The position of the latest row.
    fn latest_position(&self) -> (found: Option<usize>)
        ensures
            match found {
                Some(i) => is_latest(self@, i as int),
                None => self@.len() == 0,
            },
    {
        if self.rows.len() == 0 {
            return None;
        }
        let mut best: usize = 0;
        let mut i: usize = 1;
        while i < self.rows.len()
            invariant
                1 <= i <= self.rows.len(),
                is_latest(self.rows@.subrange(0, i as int), best as int),
            decreases self.rows.len() - i,
        {
            let ghost before = self.rows@.subrange(0, i as int);
            let ghost after = self.rows@.subrange(0, i + 1);
            if self.rows[i].timestamp >= self.rows[best].timestamp {
                proof {
                    assert forall|j: int| 0 <= j < after.len() implies after[j].timestamp
                        <= after[i as int].timestamp by {
                        if j < i {
                            assert(before[j].timestamp <= before[best as int].timestamp);
                        }
                    }
                }
                best = i;
            } else {
                proof {
                    assert forall|j: int| 0 <= j < after.len() implies after[j].timestamp
                        <= after[best as int].timestamp by {
                        if j < i {
                            assert(before[j].timestamp <= before[best as int].timestamp);
                        }
                    }
                    assert forall|j: int| best < j < after.len() implies after[j].timestamp
                        < after[best as int].timestamp by {
                        if j < i {
                            assert(before[j].timestamp < before[best as int].timestamp);
                        }
                    }
                }
            }
            i += 1;
        }
        assert(self.rows@.subrange(0, i as int) == self.rows@);
        Some(best)
    }

    /// The most recent row by timestamp; of several that are as recent, the one
    /// appended last. `None` if the history is empty.
    pub fn select_latest_log(&self) -> (found: Option<&Log>)
        ensures
            match found {
                Some(log) => latest(self@) == Some(*log),
                None => latest(self@).is_none(),
            },
    {
        match self.latest_position() {
            None => None,
            Some(i) => {
                proof {
                    lemma_latest_is(self@, i as int);
                }
                Some(&self.rows[i])
            },
        }
    }

    /// The rows from the newest on, leaving out the first `offset` of them and
    /// giving `limit` of them at most.
    pub fn select_latest_logs(&self, offset: usize, limit: usize) -> (logs: Vec<Log>)
        ensures
            logs@ == page(newest_first(self@), offset as int, limit as int),
    {
        let len = self.rows.len();
        let mut logs: Vec<Log> = Vec::new();
        if offset >= len {
            return logs;
        }
        let available = len - offset;
        let count = if limit < available {
            limit
        } else {
            available
        };
        let mut k: usize = 0;
        while k < count
            invariant
                k <= count <= available,
                available == len - offset,
                len == self.rows.len(),
                offset < len,
                logs@.len() == k,
                forall|j: int| 0 <= j < k ==> logs@[j] == self.rows@[len - 1 - offset - j],
            decreases count - k,
        {
            logs.push(self.rows[len - 1 - offset - k].clone());
            k += 1;
        }
        logs
    }

    /// Overwrites the one row that has the identity of `stale` with `fresh`, where it
    /// stands. Where no row or more than one has that identity, nothing is
    /// changed.
    pub fn replace_log(&mut self, stale: &Log, fresh: &Log) -> (done: Result<(), StoreError>)
        ensures
            match spec_replace(old(self)@, *stale, *fresh) {
                Ok(rows) => done.is_ok() && final(self)@ == rows,
                Err(e) => done == Err::<(), StoreError>(e) && final(self)@ == old(self)@,
            },
    {
        let key = stale.identity();
        let mut found: Option<usize> = None;
        let mut i: usize = 0;
        while i < self.rows.len()
            invariant
                i <= self.rows.len(),
                self@ == old(self)@,
                key == stale.spec_identity(),
                match found {
                    Some(k) => k < i && self@[k as int].spec_identity() == key && forall|j: int|
                        0 <= j < i && j != k ==> self@[j].spec_identity() != key,
                    None => forall|j: int| 0 <= j < i ==> self@[j].spec_identity() != key,
                },
            decreases self.rows.len() - i,
        {
            if self.rows[i].identity() == key {
                match found {
                    Some(k) => {
                        proof {
                            let rows = self@;
                            assert(!no_match(rows, key));
                            assert forall|m: int| !is_only_match(rows, key, m) by {
                                if is_only_match(rows, key, m) {
                                    if m == k as int {
                                        assert(rows[i as int].spec_identity() != key);
                                    } else {
                                        assert(rows[k as int].spec_identity() != key);
                                    }
                                }
                            }
                        }
                        return Err(StoreError::AmbiguousRow);
                    },
                    None => {
                        found = Some(i);
                    },
                }
            }
            i += 1;
        }
        match found {
            None => {
                proof {
                    assert(no_match(self@, key));
                    assert forall|m: int| !is_only_match(self@, key, m) by {}
                }
                Err(StoreError::NoSuchRow)
            },
            Some(k) => {
                proof {
                    assert(is_only_match(self@, key, k as int));
                    lemma_only_match_is(self@, key, k as int);
                }
                self.rows[k] = fresh.clone();
                Ok(())
            },
        }
    }

    /// Merges `batch`, ordered from old to new, into the history, and returns the
    /// records of the batch that it wrote: the one that replaced the latest row,
    /// if any, and the appended ones, in the batch's order.
    ///
    /// A batch that is refused changes nothing.
    pub fn append_new_logs(&mut self, batch: &[Log]) -> (incorporated: Result<
        Vec<Log>,
        MergeError,
    >)
        ensures
            match spec_merge(old(self)@, batch@) {
                Ok((rows, written)) => {
                    &&& final(self)@ == rows
                    &&& incorporated matches Ok(logs)
                    &&& logs@ == written
                },
                Err(e) => {
                    &&& final(self)@ == old(self)@
                    &&& incorporated matches Err(err)
                    &&& err == e
                },
            },
    {
        let latest: Option<Log> = match self.select_latest_log() {
            Some(log) => Some(log.clone()),
            None => None,
        };
        let plan = match plan_merge(latest.as_ref(), batch) {
            Ok(plan) => plan,
            Err(e) => {
                return Err(e);
            },
        };
        proof {
            crate::merge::lemma_plan_in_bounds(latest, batch@);
        }
        if let (Some(i), Some(current)) = (plan.replace, &latest) {
            match self.replace_log(current, &batch[i]) {
                Ok(()) => {},
                Err(e) => {
                    return Err(MergeError::Store(e));
                },
            }
        }
        let ghost replaced = self@;
        let mut k: usize = plan.append_from;
        while k < batch.len()
            invariant
                plan.append_from <= k <= batch.len(),
                self@ == replaced + batch@.subrange(plan.append_from as int, k as int),
            decreases batch.len() - k,
        {
            self.rows.push(batch[k].clone());
            k += 1;
        }
        let from = plan.incorporated_from();
        let mut logs: Vec<Log> = Vec::new();
        let mut k: usize = from;
        while k < batch.len()
            invariant
                from <= k <= batch.len(),
                logs@ == batch@.subrange(from as int, k as int),
            decreases batch.len() - k,
        {
            logs.push(batch[k].clone());
            k += 1;
        }
        Ok(logs)
    }
}

} // verus!
