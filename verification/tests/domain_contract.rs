use mg_calr::domain::{Calendar, Event, EventMetadata, EventTime, RfcUid};
use mg_calr::time::{CivilDate, Timestamp};
use mg_calr::domain::{
    DomainError, MAX_DESCRIPTION_CHARS, MAX_LOCATION_CHARS, MAX_URL_CHARS, validate_description, validate_location,
    validate_url,
};
use mg_calr::ids::{CalendarId, EventId, ProjectId, TagId, TodoId};

#[test]
fn identifiers_round_trip_without_losing_their_type() {
    let calendar = CalendarId::new().unwrap();
    let event = EventId::new().unwrap();
    let todo = TodoId::new().unwrap();

    assert_eq!(CalendarId::parse(&calendar.to_text()).unwrap(), calendar);
    assert_eq!(EventId::parse(&event.to_text()).unwrap(), event);
    assert_eq!(TodoId::parse(&todo.to_text()).unwrap(), todo);
}

#[test]
fn malformed_identifier_returns_typed_error() {
    let error = EventId::parse("not-a-uuid").expect_err("must reject malformed UUID");
    assert!(matches!(error, DomainError::InvalidIdentifier { kind: "event", .. }));
}

#[test]
fn todo_ids_round_trip_and_reject_invalid_serialized_values() {
    for text in [TodoId::new().unwrap().to_text(), ProjectId::new().unwrap().to_text(), TagId::new().unwrap().to_text()] {
        assert_eq!(text.parse::<uuid::Uuid>().unwrap().to_string(), text);
    }
    let todo = TodoId::new().unwrap();
    assert_eq!(TodoId::parse(&todo.to_text()).unwrap(), todo);
    assert!(TodoId::parse("not-a-uuid").is_err());
}

#[test]
fn an_identifier_text_is_the_hyphenated_uuid() {
    let id = CalendarId::from_uuid(0x0123_4567_89ab_cdef_0123_4567_89ab_cdef);
    assert_eq!(id.to_text(), "01234567-89ab-cdef-0123-456789abcdef");
    assert_eq!(CalendarId::parse("01234567-89ab-cdef-0123-456789abcdef").unwrap(), id);
}

#[test]
fn event_text_fields_are_bounded_and_refuse_stray_control_characters() {
    // a description is multi-line, so newlines and tabs are the only controls it keeps
    assert_eq!(validate_description("Two\nlines\tapart".to_owned()).unwrap(), "Two\nlines\tapart");
    assert!(matches!(validate_description("bell\u{7}".to_owned()), Err(DomainError::ControlCharacter { .. })));
    assert!(matches!(validate_description("   ".to_owned()), Err(DomainError::EmptyField { .. })));
    assert!(matches!(
        validate_description("x".repeat(MAX_DESCRIPTION_CHARS + 1)),
        Err(DomainError::TooLong { max: MAX_DESCRIPTION_CHARS, .. })
    ));

    // a location is one line
    assert_eq!(validate_location("Room 4".to_owned()).unwrap(), "Room 4");
    assert!(matches!(validate_location("Room\n4".to_owned()), Err(DomainError::ControlCharacter { .. })));
    assert!(matches!(
        validate_location("x".repeat(MAX_LOCATION_CHARS + 1)),
        Err(DomainError::TooLong { max: MAX_LOCATION_CHARS, .. })
    ));

    // a link is one a desktop can open, and nothing else
    for url in ["https://example.test/a", "http://example.test", "mailto:someone@example.test", "HTTPS://EXAMPLE.TEST"] {
        assert_eq!(validate_url(url.to_owned()).unwrap(), url);
    }
    for url in ["ftp://example.test", "javascript:alert(1)", "https://", "https://example.test/a b", ""] {
        assert!(matches!(validate_url(url.to_owned()), Err(DomainError::InvalidUrl)), "{url} should be refused");
    }
    assert!(matches!(
        validate_url(format!("https://{}", "x".repeat(MAX_URL_CHARS))),
        Err(DomainError::TooLong { .. })
    ));
}

#[test]
fn a_fresh_identifier_is_a_version_seven_uuid() {
    for text in [CalendarId::new().unwrap().to_text(), EventId::new().unwrap().to_text(), TodoId::new().unwrap().to_text(), TagId::new().unwrap().to_text()] {
        let chars: Vec<char> = text.chars().collect();
        assert_eq!(chars[14], '7', "{text}");
        assert!(matches!(chars[19], '8' | '9' | 'a' | 'b'), "{text}");
    }
}

#[test]
fn a_new_event_starts_with_default_metadata_and_an_accepted_uid() {
    let calendar = Calendar::new("Home".to_owned()).unwrap();
    let time =
        EventTime::all_day(CivilDate::from_ymd(2026, 8, 24).unwrap(), CivilDate::from_ymd(2026, 8, 25).unwrap()).unwrap();
    let event = Event::new(calendar.id, "Dentist".to_owned(), time).unwrap();
    assert_eq!(event.metadata, EventMetadata::default());
    assert!(event.metadata.status.is_none() && event.metadata.categories.is_empty());
    assert!(event.metadata.alarms.is_empty() && event.metadata.attendees.is_empty());
    assert!(event.metadata.organizer.is_none() && event.metadata.busy);
    assert_eq!(RfcUid::new(event.rfc_uid.as_str().to_owned()).unwrap(), event.rfc_uid);
    assert_eq!(event.rfc_uid, RfcUid::for_event(event.id));
}

#[test]
fn an_identifier_for_an_instant_carries_its_millisecond() {
    // 2026-08-24T12:00:00.5Z is Unix millisecond 1787572800500, 0x01a033a44bf4
    let id = CalendarId::at(Timestamp::from_parts(1_787_572_800, 500_000_000).unwrap());
    let text = id.to_text();
    assert_eq!(&text[..8], "01a033a4");
    assert_eq!(&text[9..13], "4bf4");
    assert_eq!(&text[14..15], "7");
    assert!(Timestamp::now().unwrap().seconds > 1_700_000_000);
}
