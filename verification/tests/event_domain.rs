use mg_calr::application::{Change, EventDetails, EventEdit};
use mg_calr::domain::{Calendar, DomainError, Event, EventFrequency, EventRecurrence, EventTime};
use mg_calr::ids::CalendarId;
use mg_calr::time::{CivilDate, OffsetDateTime, Weekday};

fn instant(value: &str) -> OffsetDateTime {
    OffsetDateTime::parse_rfc3339(value).expect("valid RFC3339 fixture")
}

fn date(y: i32, m: u32, d: u32) -> CivilDate {
    CivilDate::from_ymd(y, m, d).unwrap()
}

#[test]
fn timed_events_require_iana_timezone_and_end_after_start() {
    let start = instant("2026-08-23T09:00:00-07:00");
    let end = instant("2026-08-23T10:00:00-07:00");

    assert!(matches!(EventTime::timed(start, end, String::new()), Err(DomainError::MissingTimezone)));
    assert!(matches!(
        EventTime::timed(start, end, "Mars/Olympus".to_owned()),
        Err(DomainError::InvalidTimezone { .. })
    ));
    assert_eq!(
        EventTime::timed(start, start, "America/Los_Angeles".to_owned()),
        Err(DomainError::EndNotAfterStart)
    );
    assert_eq!(
        EventTime::timed(end, start, "America/Los_Angeles".to_owned()),
        Err(DomainError::EndNotAfterStart)
    );
    assert!(EventTime::timed(start, end, "America/Los_Angeles".to_owned()).is_ok());
}

#[test]
fn timed_event_offsets_must_match_the_iana_zone_at_each_instant() {
    let error = EventTime::timed(
        instant("2026-08-24T09:00:00+00:00"),
        instant("2026-08-24T10:00:00+00:00"),
        "America/Los_Angeles".to_owned(),
    )
    .unwrap_err();
    assert!(matches!(error, DomainError::OffsetTimezoneMismatch { boundary: "start", .. }));

    let crossing = EventTime::timed(
        instant("2026-11-01T01:30:00-07:00"),
        instant("2026-11-01T01:30:00-08:00"),
        "US/Pacific".to_owned(),
    )
    .expect("each side of a DST transition may have its own valid offset");
    assert!(matches!(crossing, EventTime::Timed { .. }));
}

#[test]
fn all_day_events_use_an_exclusive_end_date() {
    let start = date(2026, 8, 23);
    let next_day = date(2026, 8, 24);

    assert!(EventTime::all_day(start, next_day).is_ok());
    assert_eq!(EventTime::all_day(start, start), Err(DomainError::InvalidAllDayRange));
    assert_eq!(EventTime::all_day(next_day, start), Err(DomainError::InvalidAllDayRange));
}

#[test]
fn constructors_supply_standard_metadata_and_stable_rfc_uid() {
    let calendar = Calendar::new("Personal".to_owned()).unwrap();
    let event = Event::new(
        calendar.id,
        "Dentist".to_owned(),
        EventTime::timed(
            instant("2026-08-23T09:00:00-07:00"),
            instant("2026-08-23T10:00:00-07:00"),
            "America/Los_Angeles".to_owned(),
        )
        .unwrap(),
    )
    .unwrap();

    assert!(event.rfc_uid.as_str().ends_with("@mg-calr.local"));
    assert_eq!(event.rfc_uid.as_str(), format!("{}@mg-calr.local", event.id.to_text()));
    assert!(event.metadata.busy);
    assert!(event.metadata.alarms.is_empty());
    assert!(event.metadata.categories.is_empty());
    assert_eq!(event.created_at, event.updated_at);
    assert_eq!(event.version, 1);
}

#[test]
fn an_event_title_must_be_present_and_printable() {
    let result = Event::new(CalendarId::new().unwrap(), "   ".to_owned(), EventTime::all_day(date(2026, 8, 23), date(2026, 8, 24)).unwrap());
    assert_eq!(result.unwrap_err(), DomainError::EmptyField { field: "event title" });
    let result = Event::new(CalendarId::new().unwrap(), "tab\u{7}".to_owned(), EventTime::all_day(date(2026, 8, 23), date(2026, 8, 24)).unwrap());
    assert_eq!(result.unwrap_err(), DomainError::ControlCharacter { field: "event title" });
}

fn sample_event() -> Event {
    Event::new(
        CalendarId::new().unwrap(),
        "Standup".to_owned(),
        EventTime::timed(
            instant("2026-09-07T09:00:00-07:00"),
            instant("2026-09-07T09:15:00-07:00"),
            "America/Los_Angeles".to_owned(),
        )
        .unwrap(),
    )
    .unwrap()
}

#[test]
fn an_edit_applies_each_named_field_and_rechecks_the_repeat_rule() {
    let mut event = sample_event();
    EventDetails {
        description: Some("notes".to_owned()),
        location: Some("Room 4".to_owned()),
        url: None,
        busy: true,
        recurrence: Some(
            EventRecurrence::new(EventFrequency::Weekly, 1, None, Some(date(2026, 9, 30)), vec![Weekday::Mon]).unwrap(),
        ),
    }
    .apply_to(&mut event)
    .unwrap();

    let edit = EventEdit {
        title: Some("Daily standup".to_owned()),
        description: Change::Clear,
        location: Change::Replace("Room 5".to_owned()),
        busy: Some(false),
        ..EventEdit::default()
    };
    let next = edit.apply_to(&event).unwrap();
    assert_eq!(next.id, event.id);
    assert_eq!(next.title, "Daily standup");
    assert_eq!(next.metadata.description, None);
    assert_eq!(next.metadata.location.as_deref(), Some("Room 5"));
    assert_eq!(next.metadata.url, None);
    assert!(!next.metadata.busy);
    assert_eq!(next.time, event.time);
    assert_eq!(next.version, event.version);

    // Moving the event past its rule's last date leaves a rule that cannot produce it
    let moved = EventEdit {
        time: Some(
            EventTime::timed(
                instant("2026-10-05T09:00:00-07:00"),
                instant("2026-10-05T09:15:00-07:00"),
                "America/Los_Angeles".to_owned(),
            )
            .unwrap(),
        ),
        ..EventEdit::default()
    };
    assert_eq!(moved.apply_to(&event).unwrap_err(), DomainError::RecurrenceUntilNotAfterStart);

    let blank = EventEdit { title: Some(" ".to_owned()), ..EventEdit::default() };
    assert_eq!(blank.validate(), Err(DomainError::EmptyField { field: "event title" }));
    assert!(EventEdit::default().is_empty());
    assert!(!edit.is_empty());
}

#[test]
fn a_change_resolves_against_the_current_value() {
    let current = Some("old".to_owned());
    assert_eq!(Change::<String>::Keep.resolve(current.as_ref()), Some("old".to_owned()));
    assert_eq!(Change::Replace("new".to_owned()).resolve(current.as_ref()), Some("new".to_owned()));
    assert_eq!(Change::<String>::Clear.resolve(current.as_ref()), None);
    assert!(Change::<String>::Keep.is_keep());
    assert!(!Change::<String>::Clear.is_keep());
}

#[test]
fn details_are_checked_before_they_land_on_an_event() {
    let mut event = sample_event();
    let refused = EventDetails { url: Some("ftp://example.com".to_owned()), ..EventDetails::default() }.apply_to(&mut event);
    assert_eq!(refused, Err(DomainError::InvalidUrl));
    let defaults = EventDetails::default();
    assert!(defaults.busy);
    assert!(defaults.recurrence.is_none());
}

// Recurrence

fn weekly(count: Option<u32>, until: Option<CivilDate>, days: Vec<Weekday>) -> EventRecurrence {
    EventRecurrence::new(EventFrequency::Weekly, 1, count, until, days).expect("valid rule")
}

fn morning() -> EventTime {
    EventTime::timed(
        instant("2026-09-07T08:00:00-07:00"),
        instant("2026-09-07T08:15:00-07:00"),
        "America/Los_Angeles".to_owned(),
    )
    .unwrap()
}

fn start_date(time: &EventTime) -> CivilDate {
    match time {
        EventTime::Timed { start, .. } => start.local_date(),
        EventTime::AllDay { start, .. } => *start,
    }
}

#[test]
fn a_weekday_set_lands_on_every_named_day_and_stops_at_its_count() {
    let rule = weekly(
        Some(78),
        None,
        vec![Weekday::Mon, Weekday::Tue, Weekday::Wed, Weekday::Thu, Weekday::Fri, Weekday::Sat],
    );
    let all = rule.expand(&morning(), date(2026, 9, 7), date(2027, 12, 31)).unwrap();
    // Six days a week for thirteen weeks, and Sundays are never among them
    assert_eq!(all.len(), 78);
    assert_eq!(all.first().unwrap().0, 0);
    assert_eq!(all.last().unwrap().0, 77);
    for (_, time) in &all {
        assert!(matches!(time, EventTime::Timed { .. }));
        assert_ne!(start_date(time).weekday(), Weekday::Sun);
    }
    assert_eq!(start_date(&all.last().unwrap().1), date(2026, 12, 5));
}

#[test]
fn expansion_is_clipped_to_the_window_without_renumbering_occurrences() {
    let rule = weekly(Some(13), None, vec![Weekday::Mon]);
    let week = rule.expand(&morning(), date(2026, 9, 21), date(2026, 9, 27)).unwrap();
    assert_eq!(week.len(), 1);
    // The index is the occurrence's place in the series, not in the window
    assert_eq!(week[0].0, 2);
}

#[test]
fn an_until_bound_stops_the_series_and_may_not_precede_the_start() {
    let rule = weekly(None, Some(date(2026, 9, 28)), vec![Weekday::Mon]);
    let found = rule.expand(&morning(), date(2026, 9, 1), date(2027, 1, 1)).unwrap();
    assert_eq!(found.len(), 4);

    let backwards = weekly(None, Some(date(2026, 9, 1)), vec![Weekday::Mon]);
    assert_eq!(
        backwards.expand(&morning(), date(2026, 9, 1), date(2027, 1, 1)),
        Err(DomainError::RecurrenceUntilNotAfterStart)
    );
}

#[test]
fn an_occurrence_keeps_its_wall_time_across_a_daylight_saving_transition() {
    let rule = weekly(Some(20), None, vec![Weekday::Mon]);
    let found = rule.expand(&morning(), date(2026, 9, 7), date(2027, 2, 1)).unwrap();
    let stamps: Vec<(i64, i32)> = found
        .iter()
        .map(|(_, time)| match time {
            EventTime::Timed { start, .. } => (start.seconds, start.offset),
            EventTime::AllDay { .. } => panic!("expected timed occurrences"),
        })
        .collect();
    // Pacific leaves daylight time on 1 November 2026; 08:00 stays 08:00
    assert!(stamps.contains(&(1_793_026_800, -7 * 3600)));
    assert!(stamps.contains(&(1_793_635_200, -8 * 3600)));
}

#[test]
fn every_occurrence_keeps_the_base_duration() {
    let rule = weekly(Some(5), None, vec![Weekday::Mon, Weekday::Thu]);
    for (_, time) in rule.expand(&morning(), date(2026, 9, 7), date(2026, 12, 31)).unwrap() {
        let EventTime::Timed { start, end, .. } = time else {
            panic!("expected timed occurrences");
        };
        assert_eq!(end.seconds - start.seconds, 15 * 60);
    }
}

#[test]
fn all_day_occurrences_keep_their_span() {
    let base = EventTime::all_day(date(2026, 9, 7), date(2026, 9, 9)).unwrap();
    let rule = weekly(Some(3), None, vec![Weekday::Mon]);
    let found = rule.expand(&base, date(2026, 9, 7), date(2026, 12, 31)).unwrap();
    assert_eq!(found.len(), 3);
    for (_, time) in found {
        let EventTime::AllDay { start, end_exclusive } = time else {
            panic!("expected all-day occurrences");
        };
        assert_eq!(end_exclusive.days - start.days, 2);
    }
}

#[test]
fn daily_and_monthly_rules_step_by_their_interval() {
    let daily = EventRecurrence::new(EventFrequency::Daily, 3, Some(4), None, Vec::new()).unwrap();
    let dates: Vec<CivilDate> =
        daily.expand(&morning(), date(2026, 9, 1), date(2026, 12, 31)).unwrap().iter().map(|(_, t)| start_date(t)).collect();
    assert_eq!(dates, vec![date(2026, 9, 7), date(2026, 9, 10), date(2026, 9, 13), date(2026, 9, 16)]);

    let monthly = EventRecurrence::new(EventFrequency::Monthly, 1, Some(3), None, Vec::new()).unwrap();
    let months: Vec<CivilDate> =
        monthly.expand(&morning(), date(2026, 9, 1), date(2027, 12, 31)).unwrap().iter().map(|(_, t)| start_date(t)).collect();
    assert_eq!(months, vec![date(2026, 9, 7), date(2026, 10, 7), date(2026, 11, 7)]);
}

#[test]
fn unrepresentable_rules_are_refused_on_construction() {
    let cases = [
        (EventRecurrence::new(EventFrequency::Weekly, 0, Some(5), None, Vec::new()), DomainError::InvalidRecurrenceInterval),
        (
            EventRecurrence::new(EventFrequency::Weekly, 1, Some(0), None, Vec::new()),
            DomainError::InvalidRecurrenceCount { max: 1000 },
        ),
        (EventRecurrence::new(EventFrequency::Weekly, 1, None, None, Vec::new()), DomainError::UnboundedRecurrence),
        (
            EventRecurrence::new(EventFrequency::Daily, 1, Some(5), None, vec![Weekday::Mon]),
            DomainError::WeekdaySetWithoutWeekly,
        ),
        (
            EventRecurrence::new(EventFrequency::Weekly, 1, Some(5), None, vec![Weekday::Mon, Weekday::Mon]),
            DomainError::InvalidWeekdaySet,
        ),
    ];
    for (result, expected) in cases {
        assert_eq!(result.unwrap_err(), expected);
    }
}

#[test]
fn a_backwards_window_is_refused() {
    assert_eq!(
        weekly(Some(3), None, Vec::new()).expand(&morning(), date(2026, 9, 30), date(2026, 9, 1)),
        Err(DomainError::InvalidRecurrenceRange)
    );
}
