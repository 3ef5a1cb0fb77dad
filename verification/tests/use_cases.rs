use std::cell::RefCell;

use mg_calr::application::{ApplicationError, CalendarEventRepository, Change, EventDetails, EventEdit, EventUseCases};
use mg_calr::storage::{StorageError, check_lifecycle_write, lifecycle_next, next_version};
use mg_calr::domain::{Calendar, DomainError, Event, EventFrequency, EventRecurrence, EventTime};
use mg_calr::ids::{CalendarId, EventId};
use mg_calr::time::{CivilDate, OffsetDateTime, Timestamp, Weekday};

/// A repository that keeps what it is handed in memory, and, as the store
/// does, takes an event only for a calendar it holds and writes lifecycle
/// changes and edits through the library's checks.
#[derive(Default)]
struct MemoryRepository {
    calendars: RefCell<Vec<Calendar>>,
    events: RefCell<Vec<Event>>,
}

impl MemoryRepository {
    fn current(&self, id: EventId) -> Option<(i64, bool)> {
        self.events.borrow().iter().find(|e| e.id == id).map(|e| (e.version, e.deleted_at.is_some()))
    }

    fn replace(&self, next: Event) -> Event {
        let mut events = self.events.borrow_mut();
        if let Some(slot) = events.iter_mut().find(|e| e.id == next.id) {
            *slot = next.clone();
        }
        next
    }

    fn stored(&self, id: EventId) -> Event {
        self.events.borrow().iter().find(|e| e.id == id).cloned().expect("a checked event is present")
    }

    fn set_cancelled(&self, id: EventId, expected_version: i64, cancelling: bool) -> Result<Event, StorageError> {
        check_lifecycle_write(id, expected_version, self.current(id), !cancelling)?;
        let next = lifecycle_next(self.stored(id), cancelling, Timestamp::now().unwrap());
        Ok(self.replace(next))
    }
}

impl CalendarEventRepository for MemoryRepository {
    type Error = StorageError;

    fn save_calendar(&self, calendar: &Calendar) -> Result<(), StorageError> {
        self.calendars.borrow_mut().push(calendar.clone());
        Ok(())
    }

    fn save_event(&self, event: &Event) -> Result<(), StorageError> {
        if !self.calendars.borrow().iter().any(|c| c.id == event.calendar_id) {
            return Err(StorageError::CalendarNotLive { calendar_id: event.calendar_id });
        }
        self.events.borrow_mut().push(event.clone());
        Ok(())
    }

    fn list_calendars(&self) -> Result<Vec<Calendar>, StorageError> {
        Ok(self.calendars.borrow().clone())
    }

    fn find_event(&self, id: EventId) -> Result<Option<Event>, StorageError> {
        Ok(self.events.borrow().iter().find(|e| e.id == id && e.deleted_at.is_none()).cloned())
    }

    fn list_events(&self, calendar_id: Option<CalendarId>) -> Result<Vec<Event>, StorageError> {
        Ok(self
            .events
            .borrow()
            .iter()
            .filter(|e| e.deleted_at.is_none() && calendar_id.map_or(true, |c| e.calendar_id == c))
            .cloned()
            .collect())
    }

    fn cancel_event(&self, id: EventId, expected_version: i64) -> Result<Event, StorageError> {
        self.set_cancelled(id, expected_version, true)
    }

    fn restore_event(&self, id: EventId, expected_version: i64) -> Result<Event, StorageError> {
        self.set_cancelled(id, expected_version, false)
    }

    fn edit_event(&self, id: EventId, expected_version: i64, edit: &EventEdit) -> Result<Event, StorageError> {
        check_lifecycle_write(id, expected_version, self.current(id), false)?;
        let stored = self.stored(id);
        let edited = edit.apply_to(&stored).map_err(|reason| StorageError::InvalidEdit { reason })?;
        Ok(self.replace(next_version(edited, stored.version, Timestamp::now().unwrap())))
    }

    fn day_agenda(
        &self,
        _date: CivilDate,
        _timezone: &str,
        _starts_at: OffsetDateTime,
        _ends_at: OffsetDateTime,
    ) -> Result<Vec<Event>, StorageError> {
        Ok(Vec::new())
    }
}

fn instant(value: &str) -> OffsetDateTime {
    OffsetDateTime::parse_rfc3339(value).expect("valid RFC3339 fixture")
}

#[test]
fn application_boundary_constructs_then_persists() {
    let app = EventUseCases::new(MemoryRepository::default());
    let calendar = app.create_calendar("Work".to_owned()).unwrap();
    let event = app
        .create_event(
            calendar.id,
            "Standup".to_owned(),
            EventTime::timed(
                instant("2026-08-23T09:00:00-07:00"),
                instant("2026-08-23T09:15:00-07:00"),
                "America/Los_Angeles".to_owned(),
            )
            .unwrap(),
        )
        .unwrap();

    let store = app.into_repository();
    let calendars = store.list_calendars().unwrap();
    assert_eq!(calendars.len(), 1);
    assert_eq!((calendars[0].id, &calendars[0].name), (calendar.id, &calendar.name));
    let events = store.list_events(None).unwrap();
    assert_eq!(events.len(), 1);
    assert_eq!((events[0].id, &events[0].title), (event.id, &event.title));
}

#[test]
fn invalid_event_title_is_rejected_before_repository_write() {
    let app = EventUseCases::new(MemoryRepository::default());
    let calendar = app.create_calendar("Work".to_owned()).unwrap();
    let result = app.create_event(
        CalendarId::new().unwrap(),
        "bad\n".to_owned(),
        EventTime::all_day(CivilDate::from_ymd(2026, 8, 23).unwrap(), CivilDate::from_ymd(2026, 8, 24).unwrap())
            .unwrap(),
    );
    assert!(matches!(
        result,
        Err(ApplicationError::Domain(DomainError::ControlCharacter { field: "event title" }))
    ));
    let store = app.into_repository();
    assert_eq!(store.list_calendars().unwrap().len(), 1, "the calendar is there");
    assert_eq!(store.list_calendars().unwrap()[0].id, calendar.id);
    assert!(store.list_events(None).unwrap().is_empty());
}

#[test]
fn a_repeating_event_is_created_with_its_rule_and_an_unusable_rule_is_refused() {
    let app = EventUseCases::new(MemoryRepository::default());
    let calendar = app.create_calendar("Study".to_owned()).unwrap();

    let time = EventTime::timed(
        instant("2026-09-07T07:00:00-07:00"),
        instant("2026-09-07T07:30:00-07:00"),
        "America/Los_Angeles".to_owned(),
    )
    .unwrap();
    let rule = EventRecurrence::new(
        EventFrequency::Weekly,
        1,
        Some(6),
        None,
        vec![Weekday::Mon, Weekday::Wed, Weekday::Fri],
    )
    .unwrap();

    let event = app
        .create_repeating_event(calendar.id, "Wake".to_owned(), time.clone(), Some(rule.clone()))
        .unwrap();
    assert_eq!(event.metadata.recurrence_rule, Some(rule));

    // An event created without a rule keeps carrying none
    let plain = app.create_repeating_event(calendar.id, "One off".to_owned(), time.clone(), None).unwrap();
    assert_eq!(plain.metadata.recurrence_rule, None);

    // A rule whose bound falls before the event's own first day is refused
    let too_early =
        EventRecurrence::new(EventFrequency::Daily, 1, None, Some(CivilDate::from_ymd(2026, 9, 6).unwrap()), vec![])
            .unwrap();
    assert!(matches!(
        app.create_repeating_event(calendar.id, "Late".to_owned(), time, Some(too_early)),
        Err(ApplicationError::Domain(DomainError::RecurrenceUntilNotAfterStart))
    ));
    assert_eq!(app.into_repository().list_events(None).unwrap().len(), 2);
}

#[test]
fn an_edit_keeps_sets_and_clears_each_field_and_rechecks_the_repeat_rule() {
    let app = EventUseCases::new(MemoryRepository::default());
    let calendar = app.create_calendar("Work".to_owned()).unwrap();
    let time = EventTime::timed(
        instant("2026-09-07T07:00:00-07:00"),
        instant("2026-09-07T07:30:00-07:00"),
        "America/Los_Angeles".to_owned(),
    )
    .unwrap();
    let event = app
        .create_detailed_event(
            calendar.id,
            "Standup".to_owned(),
            time.clone(),
            EventDetails {
                description: Some("First line\nsecond line".to_owned()),
                location: Some("Room 4".to_owned()),
                url: Some("https://example.test/standup".to_owned()),
                busy: true,
                recurrence: None,
            },
        )
        .unwrap();
    assert_eq!(event.metadata.location.as_deref(), Some("Room 4"));
    let store = app.into_repository();

    // an untouched field stays as it was; only what the edit names changes
    let edited = store
        .edit_event(
            event.id,
            event.version,
            &EventEdit { location: Change::Replace("Room 9".to_owned()), busy: Some(false), ..EventEdit::default() },
        )
        .unwrap();
    assert_eq!(edited.metadata.location.as_deref(), Some("Room 9"));
    assert_eq!(edited.metadata.description.as_deref(), Some("First line\nsecond line"));
    assert!(!edited.metadata.busy);
    assert_eq!(edited.title, "Standup");

    // clearing is its own intention, distinct from leaving a field alone
    let cleared =
        store.edit_event(event.id, edited.version, &EventEdit { url: Change::Clear, ..EventEdit::default() }).unwrap();
    assert_eq!(cleared.metadata.url, None);
    assert_eq!(cleared.metadata.location.as_deref(), Some("Room 9"));

    // an invalid value is refused and the stored event is untouched
    assert!(matches!(
        store.edit_event(
            event.id,
            cleared.version,
            &EventEdit { url: Change::Replace("ftp://example.test".to_owned()), ..EventEdit::default() },
        ),
        Err(StorageError::InvalidEdit { .. })
    ));
    assert_eq!(store.find_event(event.id).unwrap().unwrap().version, cleared.version, "a refused edit does not spend the version");
}

#[test]
fn cancel_and_restore_move_one_version_at_a_time_and_refuse_a_stale_one() {
    let app = EventUseCases::new(MemoryRepository::default());
    let calendar = app.create_calendar("Work".to_owned()).unwrap();
    let event = app
        .create_event(
            calendar.id,
            "Standup".to_owned(),
            EventTime::all_day(CivilDate::from_ymd(2026, 8, 24).unwrap(), CivilDate::from_ymd(2026, 8, 25).unwrap())
                .unwrap(),
        )
        .unwrap();
    assert!(event.deleted_at.is_none() && event.version == 1);

    let cancelled = app.cancel_event(event.id, 1).unwrap();
    assert!(cancelled.cancelled);
    assert_eq!(cancelled.version, 2);
    assert!(app.show_event(event.id).is_err(), "a cancelled event is not found");
    assert!(app.cancel_event(event.id, 2).is_err(), "an event is not cancelled twice");

    assert!(app.restore_event(event.id, 1).is_err(), "a stale version is refused");
    let restored = app.restore_event(event.id, 2).unwrap();
    assert!(!restored.cancelled);
    assert_eq!(restored.version, 3);
}
