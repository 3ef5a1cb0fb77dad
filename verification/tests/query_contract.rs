use std::convert::Infallible;

use mg_calr::agenda::QueryError;
use mg_calr::application::{CalendarEventRepository, EventEdit, EventUseCases, EventProjection};
use mg_calr::domain::{Calendar, Event, EventTime};
use mg_calr::ids::{CalendarId, EventId};
use mg_calr::time::{CivilDate, OffsetDateTime};

fn instant(value: &str) -> OffsetDateTime {
    OffsetDateTime::parse_rfc3339(value).expect("valid RFC3339 fixture")
}

fn date(y: i32, m: u32, d: u32) -> CivilDate {
    CivilDate::from_ymd(y, m, d).unwrap()
}

#[derive(Default)]
struct QueryRepository {
    calendars: Vec<Calendar>,
    events: Vec<Event>,
}

impl QueryRepository {
    fn find(&self, id: EventId) -> Option<Event> {
        self.events.iter().find(|event| event.id == id).cloned()
    }
}

impl CalendarEventRepository for QueryRepository {
    type Error = Infallible;

    fn save_calendar(&self, _calendar: &Calendar) -> Result<(), Self::Error> {
        Ok(())
    }

    fn save_event(&self, _event: &Event) -> Result<(), Self::Error> {
        Ok(())
    }

    fn list_calendars(&self) -> Result<Vec<Calendar>, Self::Error> {
        Ok(self.calendars.clone())
    }

    fn find_event(&self, id: EventId) -> Result<Option<Event>, Self::Error> {
        Ok(self.find(id))
    }

    fn list_events(&self, calendar_id: Option<CalendarId>) -> Result<Vec<Event>, Self::Error> {
        let mut events = self.events.clone();
        events.retain(|event| calendar_id.is_none_or(|id| event.calendar_id == id));
        Ok(events)
    }

    fn cancel_event(&self, id: EventId, _expected_version: i64) -> Result<Event, Self::Error> {
        Ok(self.find(id).unwrap())
    }

    fn restore_event(&self, id: EventId, _expected_version: i64) -> Result<Event, Self::Error> {
        Ok(self.find(id).unwrap())
    }

    fn edit_event(&self, id: EventId, _expected_version: i64, _edit: &EventEdit) -> Result<Event, Self::Error> {
        Ok(self.find(id).unwrap())
    }

    fn day_agenda(
        &self,
        date: CivilDate,
        _timezone: &str,
        _starts_at: OffsetDateTime,
        _ends_at: OffsetDateTime,
    ) -> Result<Vec<Event>, Self::Error> {
        Ok(self
            .events
            .iter()
            .filter(|event| match event.time {
                EventTime::AllDay { start, end_exclusive } => start <= date && end_exclusive > date,
                EventTime::Timed { .. } => true,
            })
            .cloned()
            .collect())
    }
}

#[test]
fn application_queries_return_shared_serializable_projections() {
    let calendar = Calendar::new("Work".to_owned()).unwrap();
    let event = Event::new(
        calendar.id,
        "Standup".to_owned(),
        EventTime::timed(
            instant("2026-08-24T09:00:00-07:00"),
            instant("2026-08-24T09:15:00-07:00"),
            "America/Los_Angeles".to_owned(),
        )
        .unwrap(),
    )
    .unwrap();
    let event_id = event.id;
    let repository = QueryRepository { calendars: vec![calendar], events: vec![event] };
    let app = EventUseCases::new(repository);

    let listed = app.list_events(None).unwrap();
    let shown = app.show_event(event_id).unwrap();
    let agenda = app.day_agenda(date(2026, 8, 24), "America/Los_Angeles").unwrap();

    assert_eq!(listed, vec![shown.clone()]);
    assert_eq!(agenda, vec![shown.clone()]);
    assert_eq!(shown.title, "Standup");
    assert!(!shown.cancelled);
}

#[test]
fn missing_event_is_a_typed_query_error() {
    let app = EventUseCases::new(QueryRepository::default());
    let id = EventId::new().unwrap();

    let error = app.show_event(id).unwrap_err();

    assert!(matches!(error, QueryError::EventNotFound { event_id } if event_id == id));
}

#[test]
fn day_agenda_rejects_unknown_iana_timezone_before_repository_access() {
    let app = EventUseCases::new(QueryRepository::default());

    let error = app.day_agenda(date(2026, 8, 24), "Mars/Olympus").unwrap_err();

    assert!(matches!(error, QueryError::InvalidTimezone { ref timezone } if timezone == "Mars/Olympus"));
}

#[test]
fn application_enforces_total_order_on_unordered_repository_results() {
    let zeta = Calendar::new("zeta".to_owned()).unwrap();
    let alpha = Calendar::new("Alpha".to_owned()).unwrap();
    let timed_late = Event::new(
        alpha.id,
        "Late".to_owned(),
        EventTime::timed(
            instant("2026-08-24T10:00:00-07:00"),
            instant("2026-08-24T11:00:00-07:00"),
            "US/Pacific".to_owned(),
        )
        .unwrap(),
    )
    .unwrap();
    let timed_early = Event::new(
        alpha.id,
        "Early".to_owned(),
        EventTime::timed(
            instant("2026-08-24T08:00:00-07:00"),
            instant("2026-08-24T09:00:00-07:00"),
            "US/Pacific".to_owned(),
        )
        .unwrap(),
    )
    .unwrap();
    let all_day = Event::new(alpha.id, "All day".to_owned(), EventTime::all_day(date(2026, 8, 24), date(2026, 8, 25)).unwrap())
        .unwrap();
    let expected_event_ids = vec![all_day.id, timed_early.id, timed_late.id];
    let app = EventUseCases::new(QueryRepository {
        calendars: vec![zeta, alpha],
        events: vec![timed_late, timed_early, all_day],
    });

    let calendars = app.list_calendars().unwrap();
    assert_eq!(calendars.iter().map(|calendar| calendar.name.as_str()).collect::<Vec<_>>(), ["Alpha", "zeta"]);
    let events = app.list_events(None).unwrap();
    assert_eq!(events.iter().map(|event| event.id).collect::<Vec<_>>(), expected_event_ids);
    let agenda = app.day_agenda(date(2026, 8, 24), "US/Pacific").unwrap();
    assert_eq!(agenda.iter().map(|event| event.id).collect::<Vec<_>>(), expected_event_ids);
}

#[test]
fn creation_refuses_bad_input_before_the_repository_and_returns_what_was_saved() {
    let app = EventUseCases::new(QueryRepository::default());
    assert!(app.create_calendar("  ".to_owned()).is_err());
    let calendar = app.create_calendar("Home".to_owned()).unwrap();
    assert_eq!(calendar.name, "Home");
    let event = app
        .create_event(calendar.id, "Dinner".to_owned(), EventTime::all_day(date(2026, 8, 24), date(2026, 8, 25)).unwrap())
        .unwrap();
    assert_eq!(event.calendar_id, calendar.id);
    assert_eq!(event.version, 1);
    let projection = EventProjection::from(event.clone());
    assert_eq!(projection.id, event.id);

    let stale = app.edit_event(event.id, 0, &EventEdit { title: Some("x".to_owned()), ..EventEdit::default() });
    assert!(stale.is_err());
    let empty = app.edit_event(event.id, 1, &EventEdit::default());
    assert!(empty.is_err());
}
