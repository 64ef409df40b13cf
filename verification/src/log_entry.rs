//! A log entry with its message read by category.

use crate::log_msg::{
    spec_log_msg, spec_log_msg_of_entry, FromLogEntry, LogMsg, ParseLogMsgError,
};
use crate::normalize::{is_datetime_of, parse_datetime, ParseLogError, RawLogEntry};
use crate::text::{parse_i64, spec_parse_i64};
use vstd::prelude::*;

verus! {

/// One entry of the device's log.
#[derive(Debug, PartialEq, Eq, Clone, Hash)]
pub struct LogEntry {
    /// When the device reported the entry, in milliseconds since the Unix epoch.
    pub time: i64,
    /// What the message says.
    pub msg: LogMsg,
    /// The message as the device sent it.
    pub raw_msg: String,
    pub msg_id: i64,
}

/// A log entry with its raw message as a sequence of characters.
pub struct LogEntryView {
    pub time: i64,
    pub msg: LogMsg,
    pub raw_msg: Seq<char>,
    pub msg_id: i64,
}

impl View for LogEntry {
    type V = LogEntryView;

    open spec fn view(&self) -> LogEntryView {
        LogEntryView { time: self.time, msg: self.msg, raw_msg: self.raw_msg@, msg_id: self.msg_id }
    }
}

/// Why a raw entry is no log entry.
#[derive(Debug, PartialEq, Eq, Structural, Clone, Copy, Hash)]
pub enum ParseEntryError {
    /// The date and time are no point in time.
    Time(ParseLogError),
    /// The message id is no integer.
    MessageId,
    /// The message is none of its category.
    Message(ParseLogMsgError),
}

/// The entry that a raw entry is, given the point in time `time` that its date
/// and time were found to be. The first fault decides: the time, the message id,
/// the message.
pub open spec fn spec_entry(entry: RawLogEntry, time: Result<i64, ParseLogError>) -> Result<
    LogEntryView,
    ParseEntryError,
> {
    if time is Err {
        Err(ParseEntryError::Time(time->Err_0))
    } else if spec_parse_i64(entry.msg_id@) is None {
        Err(ParseEntryError::MessageId)
    } else if spec_log_msg_of_entry(entry) is Err {
        Err(ParseEntryError::Message(spec_log_msg_of_entry(entry)->Err_0))
    } else {
        Ok(
            LogEntryView {
                time: time->Ok_0,
                msg: spec_log_msg_of_entry(entry)->Ok_0,
                raw_msg: entry.msg@,
                msg_id: spec_parse_i64(entry.msg_id@)->Some_0,
            },
        )
    }
}

/// `result` is what `outcome` asks for: the entry with that view, or that error.
pub open spec fn is_entry(
    result: Result<LogEntry, ParseEntryError>,
    outcome: Result<LogEntryView, ParseEntryError>,
) -> bool {
    match outcome {
        Ok(view) => result matches Ok(entry) && entry@ == view,
        Err(e) => result matches Err(err) && err == e,
    }
}

/// `result` is what the six strings `fields` are as a log entry, for some answer
/// of the machine's time zone.
pub open spec fn is_entry_of(
    fields: [String; 6],
    result: Result<LogEntry, ParseEntryError>,
) -> bool {
    exists|entry: RawLogEntry, time: Result<i64, ParseLogError>|
        {
            &&& RawLogEntry::spec_of(fields, entry)
            &&& is_datetime_of(fields[0]@, fields[1]@, time)
            &&& #[trigger] is_entry(result, spec_entry(entry, time))
        }
}

/// The six strings `fields` are a log entry, for some answer of the machine's
/// time zone.
pub open spec fn is_some_entry(fields: [String; 6]) -> bool {
    exists|entry: LogEntry| is_entry_of(fields, Ok(entry))
}

/// The entry `k` of `feed` is none, for the reason `e`, and every entry before it
/// is one.
pub open spec fn is_first_fault(feed: Seq<[String; 6]>, k: int, e: ParseEntryError) -> bool {
    &&& 0 <= k < feed.len()
    &&& is_entry_of(feed[k], Err(e))
    &&& forall|i: int| 0 <= i < k ==> is_some_entry(#[trigger] feed[i])
}

/// The entries in the opposite order.
fn reversed(entries: Vec<LogEntry>) -> (turned: Vec<LogEntry>)
    ensures
        turned@.len() == entries@.len(),
        forall|k: int| 0 <= k < turned@.len() ==> turned@[k] == entries@[entries@.len() - 1 - k],
{
    let mut rest = entries;
    let mut turned: Vec<LogEntry> = Vec::new();
    while rest.len() > 0
        invariant
            rest@.len() + turned@.len() == entries@.len(),
            forall|k: int| 0 <= k < rest@.len() ==> rest@[k] == entries@[k],
            forall|k: int|
                0 <= k < turned@.len() ==> turned@[k] == entries@[entries@.len() - 1 - k],
        decreases rest.len(),
    {
        match rest.pop() {
            Some(entry) => {
                turned.push(entry);
            },
            None => {},
        }
    }
    turned
}

impl LogEntry {
    /// The entry with the message `raw_msg` of the category `category`, reported
    /// `time` seconds after the Unix epoch.
    pub fn new(raw_msg: String, msg_id: i64, category: i64, time: i64) -> (entry: LogEntry)
        requires
            spec_log_msg(category, raw_msg@) is Ok,
            i64::MIN <= time * 1000 <= i64::MAX,
        ensures
            entry@ == (LogEntryView {
                time: (time * 1000) as i64,
                msg: spec_log_msg(category, raw_msg@)->Ok_0,
                raw_msg: raw_msg@,
                msg_id,
            }),
    {
        let msg = LogMsg::from_category_and_msg(category, raw_msg.as_str()).unwrap();
        LogEntry { time: time * 1000, msg, raw_msg, msg_id }
    }

    /// The entry with the message `raw_msg` of the category `category`, reported
    /// `time` seconds after the Unix epoch; `None` where the message is none of
    /// that category or the time is out of range.
    pub fn try_new(raw_msg: String, msg_id: i64, category: i64, time: i64) -> (entry: Option<
        LogEntry,
    >)
        ensures
            match entry {
                Some(e) => {
                    &&& spec_log_msg(category, raw_msg@) is Ok
                    &&& i64::MIN <= time * 1000 <= i64::MAX
                    &&& e@ == (LogEntryView {
                        time: (time * 1000) as i64,
                        msg: spec_log_msg(category, raw_msg@)->Ok_0,
                        raw_msg: raw_msg@,
                        msg_id,
                    })
                },
                None => spec_log_msg(category, raw_msg@) is Err || !(i64::MIN <= time * 1000
                    <= i64::MAX),
            },
    {
        if time < i64::MIN / 1000 || time > i64::MAX / 1000 {
            return None;
        }
        if LogMsg::from_category_and_msg(category, raw_msg.as_str()).is_err() {
            return None;
        }
        Some(LogEntry::new(raw_msg, msg_id, category, time))
    }

    /// Builds the entry of a raw entry from what the raw entry holds and from
    /// the point in time `time` that its date and time were found to be.
    pub fn from_raw(entry: RawLogEntry, time: Result<i64, ParseLogError>) -> (result: Result<
        LogEntry,
        ParseEntryError,
    >)
        ensures
            is_entry(result, spec_entry(entry, time)),
    {
        let time = match time {
            Ok(millis) => millis,
            Err(e) => {
                return Err(ParseEntryError::Time(e));
            },
        };
        let msg_id = match parse_i64(entry.msg_id.as_str()) {
            Some(id) => id,
            None => {
                return Err(ParseEntryError::MessageId);
            },
        };
        let msg = match LogMsg::from_log_entry(&entry) {
            Ok(msg) => msg,
            Err(e) => {
                return Err(ParseEntryError::Message(e));
            },
        };
        Ok(LogEntry { time, msg, raw_msg: entry.msg, msg_id })
    }

    /// The point in time at which the local clock showed the entry's date and
    /// time.
    pub fn parse_time(entry: &RawLogEntry) -> (time: Result<i64, ParseLogError>)
        ensures
            is_datetime_of(entry.date@, entry.time@, time),
    {
        parse_datetime(entry.date.as_str(), entry.time.as_str())
    }

    /// The entry that six strings of the feed are: date, time, message, message
    /// id, category, help link.
    pub fn parse_entry(fields: &[String; 6]) -> (result: Result<LogEntry, ParseEntryError>)
        ensures
            is_entry_of(*fields, result),
    {
        let entry = RawLogEntry::from_fields(fields);
        let time = LogEntry::parse_time(&entry);
        let ghost raw = entry;
        let result = LogEntry::from_raw(entry, time);
        assert(is_entry(result, spec_entry(raw, time)));
        result
    }

    /// The entries of a feed, which lists the newest first, from the oldest to
    /// the newest. The first entry of the feed that is none decides.
    pub fn from_entries(feed: &Vec<[String; 6]>) -> (result: Result<Vec<LogEntry>, ParseEntryError>)
        ensures
            match result {
                Ok(entries) => {
                    &&& entries@.len() == feed@.len()
                    &&& forall|i: int|
                        0 <= i < feed@.len() ==> is_entry_of(
                            #[trigger] feed@[i],
                            Ok(entries@[feed@.len() - 1 - i]),
                        )
                },
                Err(e) => exists|k: int| is_first_fault(feed@, k, e),
            },
    {
        let mut parsed: Vec<LogEntry> = Vec::new();
        let mut i: usize = 0;
        while i < feed.len()
            invariant
                i <= feed.len(),
                parsed@.len() == i,
                forall|k: int| 0 <= k < i ==> is_entry_of(#[trigger] feed@[k], Ok(parsed@[k])),
            decreases feed.len() - i,
        {
            match LogEntry::parse_entry(&feed[i]) {
                Ok(entry) => {
                    parsed.push(entry);
                },
                Err(e) => {
                    proof {
                        assert forall|k: int| 0 <= k < i implies is_some_entry(
                            #[trigger] feed@[k],
                        ) by {
                            assert(is_entry_of(feed@[k], Ok(parsed@[k])));
                        }
                        assert(is_first_fault(feed@, i as int, e));
                    }
                    return Err(e);
                },
            }
            i += 1;
        }
        let entries = reversed(parsed);
        Ok(entries)
    }

    /// How many milliseconds before `now` the entry was reported.
    pub fn age(&self, now: i64) -> (age: i64)
        requires
            i64::MIN <= now - self.time <= i64::MAX,
        ensures
            age == now - self.time,
    {
        now - self.time
    }
}

} // verus!
