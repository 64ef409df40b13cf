use chrono::{Local, TimeZone};
use fritz_log_parser::annotation::{find_annotation, Annotation};
use fritz_log_parser::text::to_chars;
use fritz_log_parser::{
    normalize, parse_datetime, resolve_datetime, Log, NormalizeError, NumericField,
    ParseLogError, RawLogEntry, Repetition, RepetitionFault,
};

fn local_millis(year: i32, month: u32, day: u32, hour: u32, minute: u32, second: u32) -> i64 {
    Local
        .with_ymd_and_hms(year, month, day, hour, minute, second)
        .single()
        .unwrap()
        .timestamp_millis()
}

fn raw(date: &str, time: &str, msg: &str, msg_id: &str, category: &str) -> RawLogEntry {
    RawLogEntry::from([
        date.to_string(),
        time.to_string(),
        msg.to_string(),
        msg_id.to_string(),
        category.to_string(),
        "/help".to_string(),
    ])
}

#[test]
fn raw_entry_takes_its_fields_in_the_feeds_order() {
    let entry = raw("31.12.23", "23:59:59", "text", "12", "3");
    assert_eq!(entry.date, "31.12.23");
    assert_eq!(entry.time, "23:59:59");
    assert_eq!(entry.msg, "text");
    assert_eq!(entry.msg_id, "12");
    assert_eq!(entry.category, "3");
    assert_eq!(entry.help, "/help");
}

#[test]
fn repetition_round_trip() {
    let entry = raw(
        "02.01.23",
        "03:04:05",
        "X [3 Meldungen seit 01.01.23 01:01:01]",
        "17",
        "2",
    );
    let log = Log::try_from(entry).unwrap();
    assert_eq!(
        log,
        Log {
            timestamp: local_millis(2023, 1, 2, 3, 4, 5),
            message: "X".to_string(),
            message_id: 17,
            category_id: 2,
            repetition: Some(Repetition {
                first_seen: local_millis(2023, 1, 1, 1, 1, 1),
                count: 3,
            }),
        }
    );
}

#[test]
fn message_without_annotation_has_no_repetition() {
    let entry = raw("31.12.23", "23:59:59", "Internetverbindung wurde getrennt.", "23", "2");
    let log = Log::try_from(entry).unwrap();
    assert_eq!(
        log,
        Log {
            timestamp: local_millis(2023, 12, 31, 23, 59, 59),
            message: "Internetverbindung wurde getrennt.".to_string(),
            message_id: 23,
            category_id: 2,
            repetition: None,
        }
    );
}

#[test]
fn the_annotation_is_cut_off_a_message_with_umlauts() {
    let entry = raw(
        "05.03.24",
        "10:00:00",
        "Zeitüberschreitung bei der PPP-Aushandlung. [12 Meldungen seit 04.03.24 09:30:00]",
        "24",
        "2",
    );
    let log = Log::try_from(entry).unwrap();
    assert_eq!(log.message, "Zeitüberschreitung bei der PPP-Aushandlung.");
    assert_eq!(
        log.repetition,
        Some(Repetition {
            first_seen: local_millis(2024, 3, 4, 9, 30, 0),
            count: 12,
        })
    );
}

#[test]
fn only_an_annotation_at_the_end_counts() {
    for msg in [
        "X [3 Meldungen seit 01.01.23 01:01:01] ",
        "X [3 Meldungen seit 01.01.23 01:01:01].",
        "X[3 Meldungen seit 01.01.23 01:01:01]",
        "X [ Meldungen seit 01.01.23 01:01:01]",
        "X [3 Meldungen seit 01.01 01:01:01]",
        "X [3 Meldungen seit 01.01.23 01:01]",
        "X [3 Meldungen seit 01.01.23  01:01:01]",
        "X [3 meldungen seit 01.01.23 01:01:01]",
        "X [-3 Meldungen seit 01.01.23 01:01:01]",
        "X [3 Meldungen seit 01.01.23 01:01:01",
        "[3 Meldungen seit 01.01.23 01:01:01]",
        "",
    ] {
        let log = Log::try_from(raw("01.01.23", "01:01:01", msg, "1", "1")).unwrap();
        assert_eq!(log.message, msg);
        assert_eq!(log.repetition, None);
    }
}

#[test]
fn an_annotation_alone_leaves_an_empty_message() {
    let log = Log::try_from(raw(
        "01.01.23",
        "01:01:01",
        " [2 Meldungen seit 01.01.23 01:01:00]",
        "1",
        "1",
    ))
    .unwrap();
    assert_eq!(log.message, "");
    assert_eq!(log.repetition.unwrap().count, 2);
}

#[test]
fn only_the_last_annotation_is_cut_off() {
    let log = Log::try_from(raw(
        "01.01.23",
        "01:01:01",
        "X [2 Meldungen seit 01.01.23 01:01:00] [4 Meldungen seit 01.01.23 01:00:00]",
        "1",
        "1",
    ))
    .unwrap();
    assert_eq!(log.message, "X [2 Meldungen seit 01.01.23 01:01:00]");
    assert_eq!(log.repetition.unwrap().count, 4);
}

#[test]
fn malformed_timestamp_is_reported() {
    assert_eq!(
        Log::try_from(raw("2023-01-01", "01:01:01", "X", "1", "1")),
        Err(NormalizeError::MalformedTimestamp(ParseLogError::Date))
    );
    assert_eq!(
        Log::try_from(raw("31.02.23", "01:01:01", "X", "1", "1")),
        Err(NormalizeError::MalformedTimestamp(ParseLogError::Date))
    );
    assert_eq!(
        Log::try_from(raw("01.01.23", "25:01:01", "X", "1", "1")),
        Err(NormalizeError::MalformedTimestamp(ParseLogError::Time))
    );
    assert_eq!(
        Log::try_from(raw("01.01.23", "", "X", "1", "1")),
        Err(NormalizeError::MalformedTimestamp(ParseLogError::Time))
    );
    // the date is read before the time
    assert_eq!(
        Log::try_from(raw("", "", "X", "1", "1")),
        Err(NormalizeError::MalformedTimestamp(ParseLogError::Date))
    );
}

#[test]
fn malformed_field_is_reported() {
    assert_eq!(
        Log::try_from(raw("01.01.23", "01:01:01", "X", "one", "1")),
        Err(NormalizeError::MalformedField(NumericField::MessageId))
    );
    assert_eq!(
        Log::try_from(raw("01.01.23", "01:01:01", "X", "1", "")),
        Err(NormalizeError::MalformedField(NumericField::CategoryId))
    );
    assert_eq!(
        Log::try_from(raw("01.01.23", "01:01:01", "X", "1", "9223372036854775808")),
        Err(NormalizeError::MalformedField(NumericField::CategoryId))
    );
    // the timestamp is read before the fields
    assert_eq!(
        Log::try_from(raw("01.01", "01:01:01", "X", "one", "1")),
        Err(NormalizeError::MalformedTimestamp(ParseLogError::Date))
    );
}

#[test]
fn malformed_repetition_is_reported() {
    assert_eq!(
        Log::try_from(raw(
            "01.01.23",
            "01:01:01",
            "X [3 Meldungen seit 31.02.23 01:01:01]",
            "1",
            "1"
        )),
        Err(NormalizeError::MalformedRepetition(RepetitionFault::FirstSeen(
            ParseLogError::Date
        )))
    );
    assert_eq!(
        Log::try_from(raw(
            "01.01.23",
            "01:01:01",
            "X [3 Meldungen seit 01.01.23 24:00:00]",
            "1",
            "1"
        )),
        Err(NormalizeError::MalformedRepetition(RepetitionFault::FirstSeen(
            ParseLogError::Time
        )))
    );
    assert_eq!(
        Log::try_from(raw(
            "01.01.23",
            "01:01:01",
            "X [99999999999999999999 Meldungen seit 01.01.23 01:01:01]",
            "1",
            "1"
        )),
        Err(NormalizeError::MalformedRepetition(RepetitionFault::Count))
    );
    // the fields are read before the annotation
    assert_eq!(
        Log::try_from(raw(
            "01.01.23",
            "01:01:01",
            "X [3 Meldungen seit 31.02.23 01:01:01]",
            "1",
            "x"
        )),
        Err(NormalizeError::MalformedField(NumericField::CategoryId))
    );
}

#[test]
fn numbers_may_carry_a_sign() {
    let log = Log::try_from(raw("01.01.23", "01:01:01", "X", "-5", "+7")).unwrap();
    assert_eq!(log.message_id, -5);
    assert_eq!(log.category_id, 7);
}

#[test]
fn datetime_is_read_as_local_time() {
    assert_eq!(
        parse_datetime("31.12.23", "23:59:59"),
        Ok(local_millis(2023, 12, 31, 23, 59, 59))
    );
    assert_eq!(
        parse_datetime("01.01.70", "12:00:00"),
        Ok(local_millis(1970, 1, 1, 12, 0, 0))
    );
    assert_eq!(parse_datetime("32.12.23", "23:59:59"), Err(ParseLogError::Date));
    assert_eq!(parse_datetime("31.12.23", "23:59"), Err(ParseLogError::Time));
}

#[test]
fn normalize_builds_the_record_from_the_given_instants() {
    let entry = raw("ignored", "ignored", "X [3 Meldungen seit a b]", "4", "5");
    // no annotation: the second instant is not looked at
    assert_eq!(
        normalize(entry, Ok(100), Err(ParseLogError::Single)),
        Ok(Log {
            timestamp: 100,
            message: "X [3 Meldungen seit a b]".to_string(),
            message_id: 4,
            category_id: 5,
            repetition: None,
        })
    );
    let entry = raw("", "", "X [3 Meldungen seit 1.1.1 1:1:1]", "4", "5");
    assert_eq!(
        normalize(entry, Ok(100), Ok(50)),
        Ok(Log {
            timestamp: 100,
            message: "X".to_string(),
            message_id: 4,
            category_id: 5,
            repetition: Some(Repetition { first_seen: 50, count: 3 }),
        })
    );
    let entry = raw("", "", "X [3 Meldungen seit 1.1.1 1:1:1]", "4", "5");
    assert_eq!(
        normalize(entry, Ok(100), Err(ParseLogError::Single)),
        Err(NormalizeError::MalformedRepetition(RepetitionFault::FirstSeen(
            ParseLogError::Single
        )))
    );
    let entry = raw("", "", "X", "4", "5");
    assert_eq!(
        normalize(entry, Err(ParseLogError::Single), Ok(50)),
        Err(NormalizeError::MalformedTimestamp(ParseLogError::Single))
    );
}

#[test]
fn annotation_is_found_where_it_stands() {
    let chars = to_chars("ab [12 Meldungen seit 1.2.3 4:5:6]");
    assert_eq!(
        find_annotation(&chars),
        Some(Annotation { start: 2, count_end: 6, date_end: 27 })
    );
    assert_eq!(find_annotation(&to_chars("ab [12 Meldungen seit 1.2.3 4:5:6")), None);
    assert_eq!(find_annotation(&to_chars("]")), None);
    assert_eq!(find_annotation(&[]), None);
    // digits of other scripts are none
    assert_eq!(
        find_annotation(&to_chars("ab [١٢ Meldungen seit 1.2.3 4:5:6]")),
        None
    );
}

#[test]
fn a_datetime_is_resolved_from_what_was_read() {
    assert_eq!(resolve_datetime(Some(738_000), Some((60, 0)), Some(5)), Ok(5));
    assert_eq!(
        resolve_datetime(Some(738_000), Some((60, 0)), None),
        Err(ParseLogError::Single)
    );
    assert_eq!(
        resolve_datetime(Some(738_000), None, Some(5)),
        Err(ParseLogError::Time)
    );
    assert_eq!(
        resolve_datetime(None, Some((60, 0)), Some(5)),
        Err(ParseLogError::Date)
    );
    assert_eq!(resolve_datetime(None, None, None), Err(ParseLogError::Date));
}
