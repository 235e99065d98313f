use web_ical::datetime::{convert_datetime, DateTimeUtc};
use web_ical::model::{Calendar, Events};
use web_ical::parse::ParseError;

fn sample_event(n: u32) -> Events {
    Events {
        dtstart: DateTimeUtc { year: 2023, month: 6, day: 15, hour: 12, minute: 0, second: 0 },
        dtend: DateTimeUtc::sentinel(),
        dtstamp: DateTimeUtc { year: 2023, month: 6, day: 1, hour: 8, minute: 30, second: 9 },
        uid: format!("uid-{}@example.org", n),
        created: DateTimeUtc { year: 2022, month: 12, day: 31, hour: 23, minute: 59, second: 58 },
        description: "A description".to_string(),
        last_modified: DateTimeUtc { year: 2023, month: 1, day: 2, hour: 3, minute: 4, second: 5 },
        location: "Somewhere".to_string(),
        sequence: n,
        status: "CONFIRMED".to_string(),
        summary: "A summary".to_string(),
        transp: "OPAQUE".to_string(),
    }
}

#[test]
fn parse_basic_document() {
    let input = "PRODID:-//Test//EN\nVERSION:2.0\nBEGIN:VEVENT\nUID:abc123\nSUMMARY:Lunch\nEND:VEVENT\n";
    let cal = Calendar::new_from_data(input).unwrap();
    assert_eq!(cal.prodid, "-//Test//EN");
    assert_eq!(cal.version, "2.0");
    assert_eq!(cal.events.len(), 1);
    assert_eq!(cal.events[0].uid, "abc123");
    assert_eq!(cal.events[0].summary, "Lunch");
    let sentinel = DateTimeUtc::sentinel();
    assert_eq!(sentinel, DateTimeUtc { year: 2019, month: 6, day: 30, hour: 13, minute: 0, second: 0 });
    assert_eq!(cal.events[0].dtstart, sentinel);
    assert_eq!(cal.events[0].dtend, sentinel);
    assert_eq!(cal.events[0].dtstamp, sentinel);
    assert_eq!(cal.events[0].created, sentinel);
    assert_eq!(cal.events[0].last_modified, sentinel);
    assert_eq!(cal.events[0].sequence, 0);
    assert_eq!(cal.events[0].description, "NULL");
    assert_eq!(cal.events[0].location, "NULL");
}

#[test]
fn create_yields_empty_event_list() {
    let cal = Calendar::create("p", "2.0", "GREGORIAN", "PUBLISH", "name", "UTC");
    assert_eq!(cal.events.len(), 0);
    assert_eq!(cal.prodid, "p");
    assert_eq!(cal.version, "2.0");
    assert_eq!(cal.calscale, "GREGORIAN");
    assert_eq!(cal.method, "PUBLISH");
    assert_eq!(cal.x_wr_calname, "name");
    assert_eq!(cal.x_wr_timezone, "UTC");
}

#[test]
fn export_one_event_block_in_order() {
    let mut cal = Calendar::create("p", "2.0", "GREGORIAN", "PUBLISH", "name", "UTC");
    let mut e = sample_event(3);
    e.dtend = DateTimeUtc { year: 2023, month: 6, day: 16, hour: 12, minute: 0, second: 0 };
    cal.add_event(e);
    let text = cal.ics_text();
    let expected = "BEGIN:VCALENDAR\r\nPRODID:p\r\nCALSCALE:GREGORIAN\r\nVERSION:2.0\r\n\
        METHOD:PUBLISH\r\nX-WR-CALNAME:name\r\nX-WR-TIMEZONE:UTC\r\n\
        BEGIN:VEVENT\r\n\
        DTSTART:20230615T120000Z\r\n\
        DTEND:20230616T120000Z\r\n\
        DTSTAMP:20230601T083009Z\r\n\
        UID:uid-3@example.org\r\n\
        CREATED:20221231T235958Z\r\n\
        DESCRIPTION:A description\r\n\
        LAST-MODIFIED:20230102T030405Z\r\n\
        LOCATION:Somewhere\r\n\
        SEQUENCE:3\r\n\
        STATUS:CONFIRMED\r\n\
        SUMMARY:A summary\r\n\
        TRANSP:OPAQUE\r\n\
        END:VEVENT\r\nEND:VCALENDAR";
    assert_eq!(text, expected);
}

#[test]
fn export_empty_calendar() {
    let cal = Calendar::create("", "", "", "", "", "");
    assert_eq!(
        cal.ics_text(),
        "BEGIN:VCALENDAR\r\nPRODID:\r\nCALSCALE:\r\nVERSION:\r\nMETHOD:\r\nX-WR-CALNAME:\r\nX-WR-TIMEZONE:\r\nEND:VCALENDAR"
    );
}

#[test]
fn date_only_start_is_midnight() {
    let input = "BEGIN:VEVENT\nDTSTART;VALUE=DATE:20230615\nEND:VEVENT\n";
    let cal = Calendar::new_from_data(input).unwrap();
    let expected = convert_datetime("20230615T000000Z").unwrap();
    assert_eq!(cal.events[0].dtstart, expected);
    assert_eq!(
        cal.events[0].dtstart,
        DateTimeUtc { year: 2023, month: 6, day: 15, hour: 0, minute: 0, second: 0 }
    );
}

#[test]
fn date_only_end_uses_fixed_suffix() {
    let input = "BEGIN:VEVENT\nDTEND;VALUE=DATE:20230615\nEND:VEVENT\n";
    let cal = Calendar::new_from_data(input).unwrap();
    let expected = convert_datetime("20230615T002611Z").unwrap();
    assert_eq!(cal.events[0].dtend, expected);
}

#[test]
fn round_trip_parse_of_export() {
    let mut cal = Calendar::create("-//X//EN", "2.0", "GREGORIAN", "PUBLISH", "cal", "UTC");
    cal.add_event(sample_event(1));
    cal.add_event(sample_event(2));
    let text = cal.ics_text();
    let back = Calendar::new_from_data(&text).unwrap();
    assert_eq!(back.prodid, cal.prodid);
    assert_eq!(back.version, cal.version);
    assert_eq!(back.calscale, cal.calscale);
    assert_eq!(back.method, cal.method);
    assert_eq!(back.x_wr_calname, cal.x_wr_calname);
    assert_eq!(back.x_wr_timezone, cal.x_wr_timezone);
    assert_eq!(back.events.len(), 2);
    for (a, b) in back.events.iter().zip(cal.events.iter()) {
        assert_eq!(a.dtstart, b.dtstart);
        assert_eq!(a.dtend, b.dtend);
        assert_eq!(a.dtstamp, b.dtstamp);
        assert_eq!(a.uid, b.uid);
        assert_eq!(a.created, b.created);
        assert_eq!(a.description, b.description);
        assert_eq!(a.last_modified, b.last_modified);
        assert_eq!(a.location, b.location);
        assert_eq!(a.sequence, b.sequence);
        assert_eq!(a.status, b.status);
        assert_eq!(a.summary, b.summary);
        assert_eq!(a.transp, b.transp);
    }
    assert_eq!(back.ics_text(), text);
}

#[test]
fn line_without_colon_is_skipped() {
    let with_junk = "PRODID:x\nJUNK LINE WITHOUT SEPARATOR\nVERSION:2.0\n";
    let without = "PRODID:x\nVERSION:2.0\n";
    let a = Calendar::new_from_data(with_junk).unwrap();
    let b = Calendar::new_from_data(without).unwrap();
    assert_eq!(a.prodid, b.prodid);
    assert_eq!(a.version, b.version);
    assert_eq!(a.events.len(), b.events.len());
}

#[test]
fn unrecognized_key_is_ignored() {
    let input = "PRODID:x\nX-CUSTOM-FIELD:foo\nBEGIN:VEVENT\nUID:u\nEND:VEVENT\n";
    let cal = Calendar::new_from_data(input).unwrap();
    assert_eq!(cal.prodid, "x");
    assert_eq!(cal.events.len(), 1);
    assert_eq!(cal.events[0].uid, "u");
    assert_eq!(cal.events[0].summary, "NULL");
}

#[test]
fn malformed_sequence_is_fatal() {
    let cal = Calendar::new_from_data("SEQUENCE:abc\n");
    assert!(matches!(cal, Err(ParseError::InvalidSequence)));
    let cal = Calendar::new_from_data("SEQUENCE:\n");
    assert!(matches!(cal, Err(ParseError::InvalidSequence)));
    let cal = Calendar::new_from_data("SEQUENCE:99999999999999\n");
    assert!(matches!(cal, Err(ParseError::InvalidSequence)));
}

#[test]
fn sequence_accepts_plain_numerals() {
    let cal = Calendar::new_from_data("SEQUENCE:007\nEND:VEVENT\n").unwrap();
    assert_eq!(cal.events[0].sequence, 7);
    let cal = Calendar::new_from_data("SEQUENCE:+12\nEND:VEVENT\n").unwrap();
    assert_eq!(cal.events[0].sequence, 12);
    let cal = Calendar::new_from_data("SEQUENCE:4294967295\nEND:VEVENT\n").unwrap();
    assert_eq!(cal.events[0].sequence, u32::MAX);
}

#[test]
fn malformed_date_keeps_prior_value() {
    let input = "BEGIN:VEVENT\nDTSTART:banana\nEND:VEVENT\n";
    let cal = Calendar::new_from_data(input).unwrap();
    assert_eq!(cal.events[0].dtstart, DateTimeUtc::sentinel());
    let input = "BEGIN:VEVENT\nDTSTART:20230615T101112Z\nDTSTART:nonsense\nEND:VEVENT\n";
    let cal = Calendar::new_from_data(input).unwrap();
    assert_eq!(
        cal.events[0].dtstart,
        DateTimeUtc { year: 2023, month: 6, day: 15, hour: 10, minute: 11, second: 12 }
    );
}

#[test]
fn crlf_and_lf_parse_alike() {
    let lf = "PRODID:x\nBEGIN:VEVENT\nSUMMARY:s\nEND:VEVENT\n";
    let crlf = "PRODID:x\r\nBEGIN:VEVENT\r\nSUMMARY:s\r\nEND:VEVENT\r\n";
    let a = Calendar::new_from_data(lf).unwrap();
    let b = Calendar::new_from_data(crlf).unwrap();
    assert_eq!(a.prodid, b.prodid);
    assert_eq!(a.events.len(), b.events.len());
    assert_eq!(a.events[0].summary, b.events[0].summary);
}

#[test]
fn last_occurrence_wins() {
    let cal = Calendar::new_from_data("PRODID:first\nPRODID:second\n").unwrap();
    assert_eq!(cal.prodid, "second");
}

#[test]
fn value_may_contain_colons() {
    let cal = Calendar::new_from_data("PRODID:-//a:b//c\n").unwrap();
    assert_eq!(cal.prodid, "-//a:b//c");
}

#[test]
fn convert_datetime_parses_the_fixed_pattern() {
    let dt = convert_datetime("20190522T232701Z").unwrap();
    assert_eq!(dt, DateTimeUtc { year: 2019, month: 5, day: 22, hour: 23, minute: 27, second: 1 });
    assert_eq!(convert_datetime(""), None);
    assert_eq!(convert_datetime("not a date"), None);
    assert_eq!(convert_datetime("20231301T000000Z"), None);
    assert_eq!(convert_datetime("20230229T000000Z"), None);
    let leap = convert_datetime("20240229T120000Z").unwrap();
    assert_eq!(leap, DateTimeUtc { year: 2024, month: 2, day: 29, hour: 12, minute: 0, second: 0 });
    assert_eq!(convert_datetime("20230615T101112Z trailing"), None);
}

#[test]
fn formats_match_canonical_pattern() {
    let dt = DateTimeUtc { year: 987, month: 1, day: 9, hour: 0, minute: 5, second: 59 };
    assert_eq!(dt.canonical_string(), "09870109T000559Z");
    assert_eq!(convert_datetime(&dt.canonical_string()), Some(dt));
}

#[test]
fn all_day_classification() {
    let mut e = sample_event(0);
    e.dtstart = DateTimeUtc { year: 2023, month: 6, day: 15, hour: 6, minute: 0, second: 0 };
    e.dtend = DateTimeUtc { year: 2023, month: 6, day: 16, hour: 6, minute: 0, second: 0 };
    assert!(e.is_all_day());
    e.dtend = DateTimeUtc { year: 2023, month: 6, day: 16, hour: 5, minute: 59, second: 59 };
    assert!(!e.is_all_day());
    e.dtend = DateTimeUtc { year: 2023, month: 6, day: 14, hour: 6, minute: 0, second: 0 };
    assert!(!e.is_all_day());
    e.dtend = DateTimeUtc { year: 2023, month: 6, day: 17, hour: 0, minute: 0, second: 0 };
    assert!(e.is_all_day());
    // a span across a leap day
    e.dtstart = DateTimeUtc { year: 2024, month: 2, day: 28, hour: 12, minute: 0, second: 0 };
    e.dtend = DateTimeUtc { year: 2024, month: 3, day: 1, hour: 0, minute: 0, second: 0 };
    assert!(e.is_all_day());
}

#[test]
fn empty_event_has_sentinel_defaults() {
    let e = Events::empty();
    assert_eq!(e.dtstart, DateTimeUtc::sentinel());
    assert_eq!(e.uid, "NULL");
    assert_eq!(e.description, "NULL");
    assert_eq!(e.location, "NULL");
    assert_eq!(e.status, "NULL");
    assert_eq!(e.summary, "NULL");
    assert_eq!(e.transp, "NULL");
    assert_eq!(e.sequence, 0);
}

#[test]
fn accumulator_resets_between_events() {
    let input = "BEGIN:VEVENT\nSUMMARY:first\nEND:VEVENT\nBEGIN:VEVENT\nUID:second\nEND:VEVENT\n";
    let cal = Calendar::new_from_data(input).unwrap();
    assert_eq!(cal.events.len(), 2);
    assert_eq!(cal.events[0].summary, "first");
    assert_eq!(cal.events[1].summary, "NULL");
    assert_eq!(cal.events[1].uid, "second");
}
