//! The normaliser: from one raw entry of the device's feed, six strings, to a
//! canonical log record.
//!
//! The device reports local civil time. What a date and a time of day spell is
//! `chrono`'s to say, and which instant they are in the machine's time zone is
//! the machine's; the rest is decided here.

use crate::annotation::{find_annotation, has_annotation, Annotation};
use crate::record::{Log, LogView, Repetition};
use crate::text::{parse_i64, parse_i64_in, spec_parse_i64, to_chars};
use chrono::{Datelike, Local, NaiveDate, NaiveDateTime, NaiveTime, Timelike};
use vstd::prelude::*;
use vstd::string::StrSliceExecFns;

verus! {

/// One entry of the device's feed, as the device sends it.
#[derive(Debug, PartialEq, Eq, Hash)]
pub struct RawLogEntry {
    /// The date, such as `31.12.23`.
    pub date: String,
    /// The time of day, such as `23:59:59`.
    pub time: String,
    /// The message, with a repetition annotation behind it or without.
    pub msg: String,
    /// The number of the message's template.
    pub msg_id: String,
    /// The number of the subsystem.
    pub category: String,
    /// A link to the help page.
    pub help: String,
}

/// Why a date and a time of day are no point in time.
#[derive(Debug, PartialEq, Eq, Structural, Clone, Copy, Hash)]
pub enum ParseLogError {
    /// The date is not of the form day.month.year, or there is no such day.
    Date,
    /// The time is not of the form hour:minute:second, or there is no such time.
    Time,
    /// The local clock never showed that time, or showed it twice.
    Single,
}

/// One of the two numeric fields of a raw entry.
#[derive(Debug, PartialEq, Eq, Structural, Clone, Copy, Hash)]
pub enum NumericField {
    MessageId,
    CategoryId,
}

/// What is wrong with a repetition annotation.
#[derive(Debug, PartialEq, Eq, Structural, Clone, Copy, Hash)]
pub enum RepetitionFault {
    /// Its date and time are no point in time.
    FirstSeen(ParseLogError),
    /// Its count is larger than any count can be.
    Count,
}

/// Why a raw entry is no log record.
#[derive(Debug, PartialEq, Eq, Structural, Clone, Copy, Hash)]
pub enum NormalizeError {
    /// The entry's date and time are no point in time.
    MalformedTimestamp(ParseLogError),
    /// The field is no integer.
    MalformedField(NumericField),
    /// The message ends with a repetition annotation that cannot be read.
    MalformedRepetition(RepetitionFault),
}

/// The form of the device's dates: day, month and year of the century, with dots
/// between them.
pub open spec fn date_format() -> Seq<char> {
    seq!['%', 'd', '.', '%', 'm', '.', '%', 'y']
}

/// The form of the device's times: hour, minute and second, with colons between
/// them.
pub open spec fn time_format() -> Seq<char> {
    seq!['%', 'H', ':', '%', 'M', ':', '%', 'S']
}

/// The day that `chrono` reads from `s` in the format `fmt`, as its number in the
/// proleptic Gregorian calendar (1 January of the year 1 is day 1); `None` where
/// `chrono` refuses `s`.
pub uninterp spec fn naive_date_parse(s: Seq<char>, fmt: Seq<char>) -> Option<i32>;

/// The time of day that `chrono` reads from `s` in the format `fmt`, as the
/// seconds since midnight and the nanoseconds since the last full second; `None`
/// where `chrono` refuses `s`.
pub uninterp spec fn naive_time_parse(s: Seq<char>, fmt: Seq<char>) -> Option<(u32, u32)>;

/// Calls `chrono::NaiveDate::parse_from_str` and hands the date out as
/// `Datelike::num_days_from_ce` counts it. The result is a function of the two
/// strings alone; the contract gives it its name and claims no more.
#[verifier::external_body]
fn naive_date_parse_from_str(s: &str, fmt: &str) -> (days: Option<i32>)
    ensures
        days == naive_date_parse(s@, fmt@),
{
    NaiveDate::parse_from_str(s, fmt).ok().map(|date| date.num_days_from_ce())
}

/// Calls `chrono::NaiveTime::parse_from_str` and hands the time out as
/// `Timelike::num_seconds_from_midnight` and `Timelike::nanosecond` give it. The
/// result is a function of the two strings alone; the contract gives it its name
/// and claims no more.
#[verifier::external_body]
fn naive_time_parse_from_str(s: &str, fmt: &str) -> (time: Option<(u32, u32)>)
    ensures
        time == naive_time_parse(s@, fmt@),
{
    NaiveTime::parse_from_str(s, fmt).ok().map(
        |time| (time.num_seconds_from_midnight(), time.nanosecond()),
    )
}

/// Rebuilds the date and the time of day with
/// `chrono::NaiveDate::from_num_days_from_ce_opt` and
/// `chrono::NaiveTime::from_num_seconds_from_midnight_opt`, reads them as local
/// time with `chrono::NaiveDateTime::and_local_timezone` and gives the one
/// instant that they are, in milliseconds since the Unix epoch. `None` where the
/// numbers are no date or no time, or where the local clock skipped that time or
/// showed it twice. The answer depends on the machine's time zone, so nothing is
/// claimed of it.
#[verifier::external_body]
fn local_timestamp_millis(days: i32, seconds: u32, nanoseconds: u32) -> (millis: Option<i64>) {
    let date = NaiveDate::from_num_days_from_ce_opt(days)?;
    let time = NaiveTime::from_num_seconds_from_midnight_opt(seconds, nanoseconds)?;
    NaiveDateTime::new(date, time).and_local_timezone(Local).single().map(
        |instant| instant.timestamp_millis(),
    )
}

/// The point in time that a date and a time of day are, given what `chrono` read
/// from them and which instant the machine's time zone made of that.
pub open spec fn spec_datetime(
    date: Option<i32>,
    time: Option<(u32, u32)>,
    instant: Option<i64>,
) -> Result<i64, ParseLogError> {
    if date is None {
        Err(ParseLogError::Date)
    } else if time is None {
        Err(ParseLogError::Time)
    } else {
        match instant {
            Some(millis) => Ok(millis),
            None => Err(ParseLogError::Single),
        }
    }
}

/// Some answer of the machine's time zone makes `result` of the date and the time.
pub open spec fn is_datetime_of(
    date: Seq<char>,
    time: Seq<char>,
    result: Result<i64, ParseLogError>,
) -> bool {
    exists|instant: Option<i64>|
        result == #[trigger] spec_datetime(
            naive_date_parse(date, date_format()),
            naive_time_parse(time, time_format()),
            instant,
        )
}

/// The point in time that a date and a time of day are, given the day and the
/// time of day that were read from them and the instant that the local clock
/// showed them, if it showed them once.
pub fn resolve_datetime(
    date: Option<i32>,
    time: Option<(u32, u32)>,
    instant: Option<i64>,
) -> (result: Result<i64, ParseLogError>)
    ensures
        result == spec_datetime(date, time, instant),
{
    if date.is_none() {
        Err(ParseLogError::Date)
    } else if time.is_none() {
        Err(ParseLogError::Time)
    } else {
        match instant {
            Some(millis) => Ok(millis),
            None => Err(ParseLogError::Single),
        }
    }
}

/// The point in time, in milliseconds since the Unix epoch, at which the local
/// clock showed `date` (day.month.year) and `time` (hour:minute:second).
///
/// The date is read first. A date and a time that `chrono` accepts are a point in
/// time unless the local clock skipped them or showed them twice.
pub fn parse_datetime(date: &str, time: &str) -> (result: Result<i64, ParseLogError>)
    ensures
        is_datetime_of(date@, time@, result),
{
    proof {
        reveal_strlit("%d.%m.%y");
        reveal_strlit("%H:%M:%S");
        assert("%d.%m.%y"@ =~= date_format());
        assert("%H:%M:%S"@ =~= time_format());
    }
    let day = naive_date_parse_from_str(date, "%d.%m.%y");
    let time_of_day = naive_time_parse_from_str(time, "%H:%M:%S");
    let instant = match (day, time_of_day) {
        (Some(day), Some((seconds, nanoseconds))) => local_timestamp_millis(
            day,
            seconds,
            nanoseconds,
        ),
        _ => None,
    };
    let result = resolve_datetime(day, time_of_day, instant);
    assert(result == spec_datetime(
        naive_date_parse(date@, date_format()),
        naive_time_parse(time@, time_format()),
        instant,
    ));
    result
}

/// The record that a raw entry is, given the point in time `timestamp` that its
/// date and time are and the point in time `first_seen` that the date and time of
/// its annotation are. Where the message has no annotation, `first_seen` is not
/// looked at.
///
/// The first fault decides: the timestamp, the message id, the category id, the
/// annotation's point in time, its count.
pub open spec fn spec_normalize(
    entry: RawLogEntry,
    timestamp: Result<i64, ParseLogError>,
    first_seen: Result<i64, ParseLogError>,
) -> Result<LogView, NormalizeError> {
    if timestamp is Err {
        Err(NormalizeError::MalformedTimestamp(timestamp->Err_0))
    } else if spec_parse_i64(entry.msg_id@) is None {
        Err(NormalizeError::MalformedField(NumericField::MessageId))
    } else if spec_parse_i64(entry.category@) is None {
        Err(NormalizeError::MalformedField(NumericField::CategoryId))
    } else if has_annotation(entry.msg@) {
        let annotation = choose|a: Annotation| a.is_in(entry.msg@);
        if first_seen is Err {
            Err(NormalizeError::MalformedRepetition(RepetitionFault::FirstSeen(first_seen->Err_0)))
        } else if spec_parse_i64(annotation.count_of(entry.msg@)) is None {
            Err(NormalizeError::MalformedRepetition(RepetitionFault::Count))
        } else {
            Ok(
                LogView {
                    timestamp: timestamp->Ok_0,
                    message: annotation.message_of(entry.msg@),
                    message_id: spec_parse_i64(entry.msg_id@)->Some_0,
                    category_id: spec_parse_i64(entry.category@)->Some_0,
                    repetition: Some(
                        Repetition {
                            first_seen: first_seen->Ok_0,
                            count: spec_parse_i64(annotation.count_of(entry.msg@))->Some_0,
                        },
                    ),
                },
            )
        }
    } else {
        Ok(
            LogView {
                timestamp: timestamp->Ok_0,
                message: entry.msg@,
                message_id: spec_parse_i64(entry.msg_id@)->Some_0,
                category_id: spec_parse_i64(entry.category@)->Some_0,
                repetition: None,
            },
        )
    }
}

/// `result` is what `outcome` asks for: the record with that view, or that error.
pub open spec fn is_normalized(
    result: Result<Log, NormalizeError>,
    outcome: Result<LogView, NormalizeError>,
) -> bool {
    match outcome {
        Ok(view) => result matches Ok(log) && log@ == view,
        Err(e) => result matches Err(err) && err == e,
    }
}

/// A message has one annotation at most, so to choose one is to find it.
pub proof fn lemma_annotation_is(s: Seq<char>, annotation: Annotation)
    requires
        annotation.is_in(s),
    ensures
        has_annotation(s),
        (choose|a: Annotation| a.is_in(s)) == annotation,
{
    let chosen = choose|a: Annotation| a.is_in(s);
    crate::annotation::lemma_annotation_unique(
        s,
        annotation.start as int,
        annotation.count_end as int,
        annotation.date_end as int,
        chosen.start as int,
        chosen.count_end as int,
        chosen.date_end as int,
    );
}

/// Repetition round trip: a message with an annotation behind it is normalised
/// to the message without the annotation and to the repetition that the
/// annotation spells, provided that the rest of the entry can be read.
pub proof fn law_repetition_round_trip(
    entry: RawLogEntry,
    message: Seq<char>,
    count: Seq<char>,
    date: Seq<char>,
    time: Seq<char>,
    timestamp: i64,
    first_seen: i64,
)
    requires
        entry.msg@ == message + crate::annotation::annotation_text(count, date, time),
        crate::text::is_number(count),
        crate::annotation::is_triple_text(date, '.'),
        crate::annotation::is_triple_text(time, ':'),
        entry.msg@.len() <= usize::MAX,
        spec_parse_i64(entry.msg_id@) is Some,
        spec_parse_i64(entry.category@) is Some,
        spec_parse_i64(count) is Some,
    ensures
        spec_normalize(entry, Ok(timestamp), Ok(first_seen)) == Ok::<LogView, NormalizeError>(
            LogView {
                timestamp,
                message,
                message_id: spec_parse_i64(entry.msg_id@)->Some_0,
                category_id: spec_parse_i64(entry.category@)->Some_0,
                repetition: Some(
                    Repetition { first_seen, count: spec_parse_i64(count)->Some_0 },
                ),
            },
        ),
{
    let s = entry.msg@;
    crate::annotation::law_annotated_message(message, count, date, time);
    let start = message.len();
    let count_end = start + 2 + count.len();
    let date_end = count_end + 16 + date.len();
    let found = Annotation {
        start: start as usize,
        count_end: count_end as usize,
        date_end: date_end as usize,
    };
    assert(found.is_in(s));
    lemma_annotation_is(s, found);
}

/// A message without an annotation is normalised to itself, and to no
/// repetition.
pub proof fn law_plain_message(
    entry: RawLogEntry,
    timestamp: Result<i64, ParseLogError>,
    first_seen: Result<i64, ParseLogError>,
)
    requires
        !has_annotation(entry.msg@),
    ensures
        spec_normalize(entry, timestamp, first_seen) matches Ok(log) ==> log.message == entry.msg@
            && log.repetition is None,
{
}

impl RawLogEntry {
    /// The entry that six strings are, in the order in which the device sends
    /// them: date, time, message, message id, category, help link.
    pub open spec fn spec_of(fields: [String; 6], entry: RawLogEntry) -> bool {
        &&& entry.date@ == fields[0]@
        &&& entry.time@ == fields[1]@
        &&& entry.msg@ == fields[2]@
        &&& entry.msg_id@ == fields[3]@
        &&& entry.category@ == fields[4]@
        &&& entry.help@ == fields[5]@
    }

    /// The entry that six strings are, in the order in which the device sends
    /// them.
    pub fn from(fields: [String; 6]) -> (entry: RawLogEntry)
        ensures
            RawLogEntry::spec_of(fields, entry),
    {
        RawLogEntry::from_fields(&fields)
    }

    /// The entry that six strings are, in the order in which the device sends
    /// them.
    pub fn from_fields(fields: &[String; 6]) -> (entry: RawLogEntry)
        ensures
            RawLogEntry::spec_of(*fields, entry),
    {
        RawLogEntry {
            date: fields[0].clone(),
            time: fields[1].clone(),
            msg: fields[2].clone(),
            msg_id: fields[3].clone(),
            category: fields[4].clone(),
            help: fields[5].clone(),
        }
    }
}

/// Builds the record of a raw entry from what the entry holds and from the two
/// points in time that its dates and times were found to be: `timestamp` for the
/// entry's own, `first_seen` for those of its annotation.
pub fn normalize(
    entry: RawLogEntry,
    timestamp: Result<i64, ParseLogError>,
    first_seen: Result<i64, ParseLogError>,
) -> (result: Result<Log, NormalizeError>)
    ensures
        is_normalized(result, spec_normalize(entry, timestamp, first_seen)),
{
    let timestamp = match timestamp {
        Ok(millis) => millis,
        Err(e) => {
            return Err(NormalizeError::MalformedTimestamp(e));
        },
    };
    let message_id = match parse_i64(entry.msg_id.as_str()) {
        Some(id) => id,
        None => {
            return Err(NormalizeError::MalformedField(NumericField::MessageId));
        },
    };
    let category_id = match parse_i64(entry.category.as_str()) {
        Some(id) => id,
        None => {
            return Err(NormalizeError::MalformedField(NumericField::CategoryId));
        },
    };
    let chars = to_chars(entry.msg.as_str());
    match find_annotation(chars.as_slice()) {
        None => Ok(
            Log { timestamp, message: entry.msg, message_id, category_id, repetition: None },
        ),
        Some(annotation) => {
            proof {
                lemma_annotation_is(entry.msg@, annotation);
            }
            let first_seen = match first_seen {
                Ok(millis) => millis,
                Err(e) => {
                    return Err(
                        NormalizeError::MalformedRepetition(RepetitionFault::FirstSeen(e)),
                    );
                },
            };
            let count = match parse_i64_in(
                chars.as_slice(),
                annotation.start + 2,
                annotation.count_end,
            ) {
                Some(count) => count,
                None => {
                    return Err(NormalizeError::MalformedRepetition(RepetitionFault::Count));
                },
            };
            let message = entry.msg.as_str().substring_char(0, annotation.start).to_owned();
            Ok(
                Log {
                    timestamp,
                    message,
                    message_id,
                    category_id,
                    repetition: Some(Repetition { first_seen, count }),
                },
            )
        },
    }
}

impl Log {
    /// The canonical record of one raw entry of the device's feed.
    ///
    /// The entry's date and time, and those of a repetition annotation behind its
    /// message, are read as local time. The record is what [`normalize`] makes of
    /// the entry and of those two readings, whatever the machine's time zone
    /// answered.
    pub fn try_from(entry: RawLogEntry) -> (result: Result<Log, NormalizeError>)
        ensures
            exists|timestamp: Result<i64, ParseLogError>, first_seen: Result<i64, ParseLogError>|
                {
                    &&& is_datetime_of(entry.date@, entry.time@, timestamp)
                    &&& forall|a: Annotation|
                        a.is_in(entry.msg@) ==> is_datetime_of(
                            a.date_of(entry.msg@),
                            a.time_of(entry.msg@),
                            first_seen,
                        )
                    &&& #[trigger] is_normalized(
                        result,
                        spec_normalize(entry, timestamp, first_seen),
                    )
                },
    {
        let timestamp = parse_datetime(entry.date.as_str(), entry.time.as_str());
        let chars = to_chars(entry.msg.as_str());
        let first_seen = match find_annotation(chars.as_slice()) {
            Some(annotation) => {
                let date = entry.msg.as_str().substring_char(
                    annotation.count_end + 16,
                    annotation.date_end,
                );
                let time = entry.msg.as_str().substring_char(
                    annotation.date_end + 1,
                    chars.len() - 1,
                );
                proof {
                    lemma_annotation_is(entry.msg@, annotation);
                    assert forall|a: Annotation| a.is_in(entry.msg@) implies a == annotation by {
                        lemma_annotation_is(entry.msg@, a);
                    }
                }
                parse_datetime(date, time)
            },
            None => Err(ParseLogError::Single),
        };
        let ghost witness_entry = entry;
        let result = normalize(entry, timestamp, first_seen);
        assert(is_normalized(result, spec_normalize(witness_entry, timestamp, first_seen)));
        result
    }
}

} // verus!
