//! The canonical log record: one observed event of the device's log, with its
//! timestamps as milliseconds since the Unix epoch (UTC).

use vstd::prelude::*;

verus! {

/// How often, and since when, the device has reported one and the same message.
#[derive(Debug, PartialEq, Eq, Structural, Clone, Copy, Hash)]
pub struct Repetition {
    /// When the message was reported for the first time.
    pub first_seen: i64,
    /// How many times the message has been reported.
    pub count: i64,
}

/// What makes two records the same logical entry, whatever their repetition
/// counters say.
#[derive(Debug, PartialEq, Eq, Structural, Clone, Copy, Hash)]
pub struct IdentityKey {
    pub earliest_timestamp: i64,
    pub message_id: i64,
    pub category_id: i64,
}

/// One event of the device's log.
#[derive(Debug, PartialEq, Eq, Hash)]
pub struct Log {
    /// When the device last reported the event.
    pub timestamp: i64,
    /// The message, without any repetition annotation.
    pub message: String,
    pub message_id: i64,
    pub category_id: i64,
    pub repetition: Option<Repetition>,
}

/// A log record with its message as a sequence of characters.
pub struct LogView {
    pub timestamp: i64,
    pub message: Seq<char>,
    pub message_id: i64,
    pub category_id: i64,
    pub repetition: Option<Repetition>,
}

impl View for Log {
    type V = LogView;

    open spec fn view(&self) -> LogView {
        LogView {
            timestamp: self.timestamp,
            message: self.message@,
            message_id: self.message_id,
            category_id: self.category_id,
            repetition: self.repetition,
        }
    }
}

/// A row of the persisted log table, as the storage engine holds it.
#[derive(Debug, PartialEq, Eq, Hash)]
pub struct LogRow {
    pub id: Option<i64>,
    pub datetime: i64,
    pub message: String,
    pub message_id: i64,
    pub category_id: i64,
    pub repetition_datetime: Option<i64>,
    pub repetition_count: Option<i64>,
}

/// A row holds one half of a repetition without the other.
#[derive(Debug, PartialEq, Eq, Structural, Clone, Copy, Hash)]
pub struct InvalidRepetition {
    pub datetime: Option<i64>,
    pub count: Option<i64>,
}

impl Repetition {
    /// A repetition stands for at least two reports, the first of them not
    /// after `timestamp`, the last one.
    pub open spec fn wf(self, timestamp: i64) -> bool {
        self.first_seen <= timestamp && self.count >= 2
    }
}

impl Log {
    /// The record's own invariant: a repetition, if there is one, began no
    /// later than the record's timestamp and counts two reports or more.
    pub open spec fn wf(&self) -> bool {
        self.repetition matches Some(rep) ==> rep.wf(self.timestamp)
    }

    pub open spec fn spec_earliest_timestamp(&self) -> i64 {
        match self.repetition {
            Some(rep) => rep.first_seen,
            None => self.timestamp,
        }
    }

    pub open spec fn spec_identity(&self) -> IdentityKey {
        IdentityKey {
            earliest_timestamp: self.spec_earliest_timestamp(),
            message_id: self.message_id,
            category_id: self.category_id,
        }
    }

    /// Whether `self` and `other` show one logical entry at the same point of its
    /// repetition history.
    pub open spec fn same_state(&self, other: Log) -> bool {
        self.timestamp == other.timestamp && self.repetition == other.repetition
    }

    /// When the event was first reported.
    #[verifier::when_used_as_spec(spec_earliest_timestamp)]
    pub fn earliest_timestamp(&self) -> (t: i64)
        ensures
            t == self.spec_earliest_timestamp(),
    {
        match self.repetition {
            Some(rep) => rep.first_seen,
            None => self.timestamp,
        }
    }

    /// When the event was last reported.
    pub fn latest_timestamp(&self) -> (t: i64)
        ensures
            t == self.timestamp,
    {
        self.timestamp
    }

    /// The key by which the record is recognised across polls.
    #[verifier::when_used_as_spec(spec_identity)]
    pub fn identity(&self) -> (key: IdentityKey)
        ensures
            key == self.spec_identity(),
    {
        IdentityKey {
            earliest_timestamp: self.earliest_timestamp(),
            message_id: self.message_id,
            category_id: self.category_id,
        }
    }

    /// Whether the record's own invariant holds.
    pub fn is_wf(&self) -> (b: bool)
        ensures
            b == self.wf(),
    {
        match self.repetition {
            Some(rep) => rep.first_seen <= self.timestamp && rep.count >= 2,
            None => true,
        }
    }

    /// The table row that stands for the record, before the table gave it an id.
    pub open spec fn spec_to_row(&self) -> LogRow {
        LogRow {
            id: None,
            datetime: self.timestamp,
            message: self.message,
            message_id: self.message_id,
            category_id: self.category_id,
            repetition_datetime: match self.repetition {
                Some(rep) => Some(rep.first_seen),
                None => None,
            },
            repetition_count: match self.repetition {
                Some(rep) => Some(rep.count),
                None => None,
            },
        }
    }

    /// The record that a table row stands for, if its repetition columns agree.
    pub open spec fn spec_from_row(row: LogRow) -> Result<Log, InvalidRepetition> {
        match spec_parse_repetition(row.repetition_datetime, row.repetition_count) {
            Ok(repetition) => Ok(
                Log {
                    timestamp: row.datetime,
                    message: row.message,
                    message_id: row.message_id,
                    category_id: row.category_id,
                    repetition,
                },
            ),
            Err(e) => Err(e),
        }
    }

    /// The record as a table row that has no id yet.
    pub fn to_row(&self) -> (row: LogRow)
        ensures
            row == self.spec_to_row(),
    {
        let (repetition_datetime, repetition_count) = match self.repetition {
            Some(rep) => (Some(rep.first_seen), Some(rep.count)),
            None => (None, None),
        };
        LogRow {
            id: None,
            datetime: self.timestamp,
            message: self.message.clone(),
            message_id: self.message_id,
            category_id: self.category_id,
            repetition_datetime,
            repetition_count,
        }
    }

    /// The record that a table row holds; a row with half a repetition holds none.
    pub fn from_row(row: LogRow) -> (r: Result<Log, InvalidRepetition>)
        ensures
            r == Log::spec_from_row(row),
    {
        match parse_repetition(row.repetition_datetime, row.repetition_count) {
            Ok(repetition) => Ok(
                Log {
                    timestamp: row.datetime,
                    message: row.message,
                    message_id: row.message_id,
                    category_id: row.category_id,
                    repetition,
                },
            ),
            Err(e) => Err(e),
        }
    }
}

impl Clone for Log {
    fn clone(&self) -> (copy: Log)
        ensures
            copy == *self,
    {
        Log {
            timestamp: self.timestamp,
            message: self.message.clone(),
            message_id: self.message_id,
            category_id: self.category_id,
            repetition: self.repetition,
        }
    }
}

pub open spec fn spec_parse_repetition(datetime: Option<i64>, count: Option<i64>) -> Result<
    Option<Repetition>,
    InvalidRepetition,
> {
    match (datetime, count) {
        (Some(first_seen), Some(count)) => Ok(Some(Repetition { first_seen, count })),
        (None, None) => Ok(None),
        _ => Err(InvalidRepetition { datetime, count }),
    }
}

/// The repetition that the two nullable columns of a row stand for: both are set,
/// or neither is.
pub fn parse_repetition(datetime: Option<i64>, count: Option<i64>) -> (r: Result<
    Option<Repetition>,
    InvalidRepetition,
>)
    ensures
        r == spec_parse_repetition(datetime, count),
{
    match (datetime, count) {
        (Some(first_seen), Some(count)) => Ok(Some(Repetition { first_seen, count })),
        (None, None) => Ok(None),
        _ => Err(InvalidRepetition { datetime, count }),
    }
}

/// Converting a record to a row and back gives the record again.
pub proof fn law_row_round_trip(log: Log)
    ensures
        Log::spec_from_row(log.spec_to_row()) == Ok::<Log, InvalidRepetition>(log),
{
}

} // verus!
