use mg_calr::domain::{EventFrequency, EventTime};
use mg_calr::ics::{IcsError, read};
use mg_calr::time::{CivilDate, Weekday};

fn date(y: i32, m: u32, d: u32) -> CivilDate {
    CivilDate::from_ymd(y, m, d).unwrap()
}

#[test]
fn folded_lines_and_escaped_text_are_restored() {
    let document = "BEGIN:VCALENDAR\r\nBEGIN:VEVENT\r\nUID:folded-1\r\n\
        SUMMARY:Long title that keeps\r\n  going\r\n\
        DESCRIPTION:First\\nSecond\\, third\r\n\
        DTSTART;VALUE=DATE:20260907\r\nEND:VEVENT\r\nEND:VCALENDAR\r\n";
    let events = read(document).unwrap();
    assert_eq!(events.len(), 1);
    assert_eq!(events[0].title, "Long title that keeps going");
    assert_eq!(events[0].description.as_deref(), Some("First\nSecond, third"));
    // An all-day event with no DTEND covers exactly one day
    assert_eq!(events[0].time, EventTime::all_day(date(2026, 9, 7), date(2026, 9, 8)).unwrap());
}

fn one_event(body: &str) -> String {
    format!("BEGIN:VCALENDAR\nBEGIN:VEVENT\n{body}\nEND:VEVENT\nEND:VCALENDAR\n")
}

#[test]
fn rrule_parts_this_application_cannot_represent_are_named() {
    let cases = [
        ("BYMONTH=3", "BYMONTH"),
        ("BYSETPOS=-1", "BYSETPOS"),
        ("BYMONTHDAY=15", "BYMONTHDAY"),
        ("WKST=SU", "WKST"),
    ];
    for (part, named) in cases {
        let document = one_event(&format!(
            "SUMMARY:Nope\nDTSTART;TZID=America/Los_Angeles:20260907T080000\n\
             DTEND;TZID=America/Los_Angeles:20260907T081500\nRRULE:FREQ=WEEKLY;COUNT=5;{part}"
        ));
        assert_eq!(
            read(&document),
            Err(IcsError::UnsupportedRulePart { part: named.to_owned() }),
            "{part} should be refused by name"
        );
    }

    // The ordinal BYDAY form picks the nth weekday of a period, which this cannot do
    let ordinal = one_event(
        "SUMMARY:Nope\nDTSTART;TZID=America/Los_Angeles:20260907T080000\n\
         DTEND;TZID=America/Los_Angeles:20260907T081500\nRRULE:FREQ=MONTHLY;COUNT=5;BYDAY=1SU",
    );
    assert_eq!(read(&ordinal), Err(IcsError::UnsupportedRulePart { part: "BYDAY=1SU".to_owned() }));

    let yearly = one_event(
        "SUMMARY:Nope\nDTSTART;TZID=America/Los_Angeles:20260907T080000\n\
         DTEND;TZID=America/Los_Angeles:20260907T081500\nRRULE:FREQ=YEARLY;COUNT=5",
    );
    assert_eq!(read(&yearly), Err(IcsError::UnsupportedRulePart { part: "FREQ=YEARLY".to_owned() }));
}

#[test]
fn incomplete_and_malformed_documents_fail_closed() {
    let no_title = one_event("DTSTART;VALUE=DATE:20260907");
    assert_eq!(read(&no_title), Err(IcsError::MissingProperty { field: "SUMMARY" }));

    let no_start = one_event("SUMMARY:Nope");
    assert_eq!(read(&no_start), Err(IcsError::MissingProperty { field: "DTSTART" }));

    // A timed start with no end would otherwise become a zero-length event
    let no_end = one_event("SUMMARY:Nope\nDTSTART;TZID=America/Los_Angeles:20260907T080000");
    assert_eq!(read(&no_end), Err(IcsError::MissingEnd));

    let no_zone = one_event("SUMMARY:Nope\nDTSTART:20260907T080000");
    assert_eq!(read(&no_zone), Err(IcsError::MissingProperty { field: "TZID" }));

    let bad_zone = one_event(
        "SUMMARY:Nope\nDTSTART;TZID=Mars/Olympus:20260907T080000\n\
         DTEND;TZID=Mars/Olympus:20260907T081500",
    );
    assert_eq!(read(&bad_zone), Err(IcsError::UnknownTimezone { timezone: "Mars/Olympus".to_owned() }));

    assert_eq!(
        read("BEGIN:VCALENDAR\nBEGIN:VEVENT\nEND:VCALENDAR\n"),
        Err(IcsError::UnbalancedBlock { line: 3, name: "VCALENDAR".to_owned() })
    );
    assert_eq!(read("BEGIN:VCALENDAR\n"), Err(IcsError::UnclosedBlock));
    assert_eq!(read("not a property\n"), Err(IcsError::Malformed { line: 1 }));
}

#[test]
fn a_document_with_no_events_reads_as_empty_rather_than_failing() {
    let only_zone = "BEGIN:VCALENDAR\nBEGIN:VTIMEZONE\nTZID:America/Los_Angeles\n\
        BEGIN:DAYLIGHT\nDTSTART:19700308T020000\nRRULE:FREQ=YEARLY;BYMONTH=3;BYDAY=2SU\n\
        END:DAYLIGHT\nEND:VTIMEZONE\nEND:VCALENDAR\n";
    assert_eq!(read(only_zone), Ok(Vec::new()));
}

#[test]
fn a_timed_weekly_event_keeps_its_zone_span_and_rule() {
    let document = one_event(
        "UID:wake-1\nSUMMARY:Wake\nDESCRIPTION:  \n\
         DTSTART;TZID=America/Los_Angeles:20260907T080000\n\
         DTEND;TZID=America/Los_Angeles:20260907T081500\n\
         RRULE:FREQ=weekly;INTERVAL=+1;COUNT=78;BYDAY=MO,TU,we,TH,FR,SA",
    );
    let events = read(&document).unwrap();
    assert_eq!(events.len(), 1);
    let wake = &events[0];
    assert_eq!(wake.uid.as_deref(), Some("wake-1"));
    // A blank description is left out
    assert_eq!(wake.description, None);
    let EventTime::Timed { start, end, timezone } = &wake.time else {
        panic!("expected a timed event");
    };
    assert_eq!(timezone, "America/Los_Angeles");
    // 2026-09-07T08:00:00-07:00 is 15:00 UTC
    assert_eq!(start.seconds, 1_788_793_200);
    assert_eq!(start.offset, -7 * 3600);
    assert_eq!(end.seconds - start.seconds, 15 * 60);
    let rule = wake.recurrence.as_ref().unwrap();
    assert_eq!(rule.frequency, EventFrequency::Weekly);
    assert_eq!(rule.interval, 1);
    assert_eq!(rule.count, Some(78));
    assert_eq!(
        rule.by_weekday,
        vec![Weekday::Mon, Weekday::Tue, Weekday::Wed, Weekday::Thu, Weekday::Fri, Weekday::Sat]
    );
}

#[test]
fn utc_stamps_and_date_only_times_are_read() {
    let document = one_event("SUMMARY:Call\nDTSTART:20260907T150000Z\nDTEND;TZID=UTC:20260908");
    let events = read(&document).unwrap();
    let EventTime::Timed { start, end, timezone } = &events[0].time else {
        panic!("expected a timed event");
    };
    assert_eq!(timezone, "UTC");
    assert_eq!(start.seconds, 1_788_793_200);
    // A date without a time is read at midnight
    assert_eq!(end.seconds, 1_788_825_600);
}

#[test]
fn unreadable_values_are_named_with_what_was_written() {
    let bad_date = one_event("SUMMARY:Nope\nDTSTART;VALUE=DATE:2026-09-07");
    assert_eq!(
        read(&bad_date),
        Err(IcsError::UnreadableValue { kind: "date", value: "2026-09-07".to_owned() })
    );
    let bad_interval = one_event(
        "SUMMARY:Nope\nDTSTART;VALUE=DATE:20260907\nRRULE:FREQ=DAILY;COUNT=3;INTERVAL=-2",
    );
    assert_eq!(
        read(&bad_interval),
        Err(IcsError::UnreadableValue { kind: "RRULE INTERVAL", value: "-2".to_owned() })
    );
    let no_frequency = one_event("SUMMARY:Nope\nDTSTART;VALUE=DATE:20260907\nRRULE:COUNT=3");
    assert_eq!(read(&no_frequency), Err(IcsError::MissingProperty { field: "FREQ" }));
    let mixed = one_event("SUMMARY:Nope\nDTSTART;VALUE=DATE:20260907\nDTEND:20260908T100000Z");
    assert_eq!(
        read(&mixed),
        Err(IcsError::UnreadableValue {
            kind: "date range",
            value: "DTSTART and DTEND disagree about being all-day".to_owned()
        })
    );
    let backwards = one_event("SUMMARY:Nope\nDTSTART;VALUE=DATE:20260907\nDTEND;VALUE=DATE:20260907");
    assert_eq!(read(&backwards), Err(IcsError::Domain(mg_calr::domain::DomainError::InvalidAllDayRange)));
}

#[test]
fn an_oversized_document_is_refused_before_it_is_read() {
    let big = "x".repeat(4 * 1024 * 1024 + 1);
    assert_eq!(read(&big), Err(IcsError::TooLarge));
}

#[test]
fn a_gap_in_the_local_clock_is_refused() {
    // 02:30 on 2026-03-08 does not exist in Los Angeles
    let document = one_event(
        "SUMMARY:Nope\nDTSTART;TZID=America/Los_Angeles:20260308T023000\n\
         DTEND;TZID=America/Los_Angeles:20260308T033000",
    );
    assert_eq!(
        read(&document),
        Err(IcsError::UnrepresentableLocalTime { timezone: "America/Los_Angeles".to_owned() })
    );
}

#[test]
fn read_events_land_in_one_calendar_under_the_files_own_uid() {
    let document = one_event(
        "UID:file-uid-1\nSUMMARY:Run\nDESCRIPTION:Easy pace\nDTSTART;VALUE=DATE:20260907\n\
         RRULE:FREQ=DAILY;COUNT=3",
    );
    let calendar = mg_calr::ids::CalendarId::new().unwrap();
    let events = mg_calr::ics::into_events(calendar, read(&document).unwrap()).unwrap();
    assert_eq!(events.len(), 1);
    assert_eq!(events[0].calendar_id, calendar);
    assert_eq!(events[0].rfc_uid.as_str(), "file-uid-1");
    assert_eq!(events[0].title, "Run");
    assert_eq!(events[0].metadata.description.as_deref(), Some("Easy pace"));
    assert_eq!(events[0].metadata.recurrence_rule.as_ref().unwrap().count, Some(3));

    let spaced = one_event("UID:two words\nSUMMARY:Run\nDTSTART;VALUE=DATE:20260907");
    assert_eq!(
        mg_calr::ics::into_events(calendar, read(&spaced).unwrap()).unwrap_err(),
        mg_calr::domain::DomainError::InvalidRfcUid
    );
}

#[test]
fn imported_events_are_live_and_an_empty_import_lands_nothing() {
    let calendar = mg_calr::ids::CalendarId::new().unwrap();
    assert_eq!(mg_calr::ics::into_events(calendar, Vec::new()).unwrap(), Vec::new());

    let document = one_event("SUMMARY:Swim\nDTSTART;VALUE=DATE:20260908");
    let events = mg_calr::ics::into_events(calendar, read(&document).unwrap()).unwrap();
    assert_eq!(events.len(), 1);
    assert!(events[0].deleted_at.is_none() && events[0].remote_tombstoned_at.is_none());
    assert_eq!(events[0].created_at, events[0].updated_at);
    assert_eq!(events[0].rfc_uid.as_str(), format!("{}@mg-calr.local", events[0].id.to_text()));
    assert!(events[0].metadata.busy && events[0].metadata.location.is_none() && events[0].metadata.url.is_none());
}
