use mg_calr::storage::next_version;
use mg_calr::time::Timestamp;
use mg_calr::config::ConfigError;
use mg_calr::domain::{Calendar, DomainError, Event, EventStatus, EventTime};
use mg_calr::ids::{CalendarId, EventId};
use mg_calr::storage::{
    EventExport, Store, StorageError, check_lifecycle_write, default_path, event_status, migration_checksum,
    event_time_columns, event_time_from_columns, migration_states, migrations, pending_migrations,
    parse_event_status,
};
use mg_calr::time::{CivilDate, OffsetDateTime};
use mg_calr::AppError;

fn date(y: i32, m: u32, d: u32) -> CivilDate {
    CivilDate::from_ymd(y, m, d).unwrap()
}

#[test]
fn a_lifecycle_write_answers_the_lifecycle_before_the_version() {
    let id = EventId::new().unwrap();
    // A cancelled row is not found by an edit, whatever version the caller holds
    assert_eq!(check_lifecycle_write(id, 7, Some((3, true)), false), Err(StorageError::EventNotFound { event_id: id }));
    assert_eq!(check_lifecycle_write(id, 7, None, false), Err(StorageError::EventNotFound { event_id: id }));
    assert_eq!(
        check_lifecycle_write(id, 7, Some((3, false)), false),
        Err(StorageError::EventVersionConflict { event_id: id, expected_version: 7, actual_version: 3 })
    );
    assert_eq!(check_lifecycle_write(id, 3, Some((3, false)), false), Ok(()));
    // A restore wants a cancelled row
    assert_eq!(check_lifecycle_write(id, 3, Some((3, true)), true), Ok(()));
    assert_eq!(check_lifecycle_write(id, 3, Some((3, false)), true), Err(StorageError::EventNotFound { event_id: id }));
}

#[test]
fn an_empty_store_path_is_refused() {
    assert!(matches!(Store::new(String::new()), Err(StorageError::InvalidConfiguration(_))));
    let store = Store::new("/tmp/calr.sqlite".to_owned()).unwrap();
    assert_eq!(store.path(), "/tmp/calr.sqlite");
}

#[test]
fn status_words_round_trip() {
    for status in [EventStatus::Tentative, EventStatus::Confirmed, EventStatus::Cancelled] {
        assert_eq!(parse_event_status(Some(event_status(status).to_owned())), Ok(Some(status)));
    }
    assert_eq!(parse_event_status(None), Ok(None));
    assert!(parse_event_status(Some("maybe".to_owned())).is_err());
}

#[test]
fn migration_status_reports_what_the_ledger_recorded() {
    let before = migration_states(false, &Vec::new());
    assert_eq!(before.iter().map(|m| m.applied).collect::<Vec<_>>(), vec![false, false]);
    let after = migration_states(true, &vec![(1, None)]);
    assert_eq!(after.iter().map(|m| (m.version, m.applied)).collect::<Vec<_>>(), vec![(1, true), (2, false)]);
    let store = Store::new("/tmp/calr.sqlite".to_owned()).unwrap();
    let unknown = store.migration_status(true, &vec![(9, None)], &Vec::new());
    assert!(matches!(unknown, Err(StorageError::MigrationDrift { version: 9, .. })));
}

#[test]
fn an_export_refuses_duplicates_and_orphans() {
    let calendar = Calendar::new("Home".to_owned()).unwrap();
    let event = Event::new(calendar.id, "Dinner".to_owned(), EventTime::all_day(date(2026, 8, 24), date(2026, 8, 25)).unwrap()).unwrap();
    let good = EventExport { schema_version: 1, calendars: vec![calendar.clone()], events: vec![event.clone()] };
    assert!(good.validate().is_ok());
    let wrong_schema = EventExport { schema_version: 2, ..good.clone() };
    assert!(matches!(wrong_schema.validate(), Err(StorageError::ImportInvalid { .. })));
    let orphan = EventExport { schema_version: 1, calendars: Vec::new(), events: vec![event.clone()] };
    assert!(matches!(orphan.validate(), Err(StorageError::ImportInvalid { .. })));
    let twice = EventExport { schema_version: 1, calendars: vec![calendar.clone(), calendar], events: Vec::new() };
    assert!(matches!(twice.validate(), Err(StorageError::ImportInvalid { .. })));
}

#[test]
fn every_failure_has_a_stable_code_and_exit_status() {
    let cases = [
        (AppError::Config(ConfigError::InvalidToml { message: "x".to_owned() }), "config_invalid", 78),
        (AppError::Config(ConfigError::MissingHome), "config_unavailable", 78),
        (AppError::Domain(DomainError::InvalidUrl), "invalid_input", 65),
        (AppError::RequiredInput { field: "title" }, "required_input_missing", 64),
        (AppError::EventNotFound { event_id: EventId::new().unwrap() }, "event_not_found", 66),
        (AppError::Storage(StorageError::EventNotFound { event_id: EventId::new().unwrap() }), "event_not_found", 69),
        (
            AppError::Storage(StorageError::EventVersionConflict { event_id: EventId::new().unwrap(), expected_version: 1, actual_version: 2 }),
            "event_version_conflict",
            75,
        ),
        (AppError::Storage(StorageError::CalendarNotLive { calendar_id: CalendarId::new().unwrap() }), "calendar_not_live", 69),
        (AppError::Storage(StorageError::ImportInvalid { reason: "x".to_owned() }), "import_invalid", 65),
    ];
    for (error, code, exit) in cases {
        assert_eq!(error.code(), code);
        assert_eq!(error.exit_code(), exit);
    }
}

#[test]
fn the_file_lands_where_the_environment_says() {
    assert_eq!(default_path(None, "/xdg/data/mg-calr"), "/xdg/data/mg-calr/calr.sqlite");
    assert_eq!(default_path(Some("/elsewhere/cal.db".to_owned()), "/xdg/data/mg-calr"), "/elsewhere/cal.db");
    assert!(Store::new(String::new()).is_err(), "an empty path is not a store");
}

/// The ledger rows and tables a fully migrated store holds.
fn migrated_ledger() -> (Vec<(i64, Option<String>)>, Vec<String>) {
    let all = migrations();
    let recorded = all.iter().map(|m| (m.version, Some(migration_checksum(m.sql)))).collect();
    let tables = all.iter().flat_map(|m| m.tables.iter().map(|t| (*t).to_owned())).collect();
    (recorded, tables)
}

#[test]
fn a_fully_migrated_ledger_reports_every_migration_applied() {
    let store = Store::new("/tmp/calr.sqlite".to_owned()).unwrap();
    let (recorded, tables) = migrated_ledger();
    let states = store.migration_status(true, &recorded, &tables).unwrap();
    assert_eq!(
        states.iter().map(|m| (m.version, m.name.as_str(), m.applied)).collect::<Vec<_>>(),
        vec![(1, "foundation", true), (2, "projects_and_tags", true)]
    );
}

#[test]
fn a_rewritten_migration_is_refused_rather_than_skipped() {
    let store = Store::new("/tmp/calr.sqlite".to_owned()).unwrap();
    let (mut recorded, tables) = migrated_ledger();
    recorded[0].1 = Some("rewritten".to_owned());

    let error = store.migration_status(true, &recorded, &tables).unwrap_err();
    assert!(matches!(error, StorageError::MigrationDrift { version: 1, .. }));
}

#[test]
fn a_ledger_row_whose_tables_are_gone_is_refused() {
    let store = Store::new("/tmp/calr.sqlite".to_owned()).unwrap();
    let (recorded, tables) = migrated_ledger();
    let remaining: Vec<String> = tables.into_iter().filter(|t| t != "events").collect();

    assert!(matches!(
        store.migration_status(true, &recorded, &remaining).unwrap_err(),
        StorageError::MigrationDrift { .. }
    ));
}

#[test]
fn migrating_again_leaves_nothing_pending() {
    let fresh = pending_migrations(&Vec::new());
    assert_eq!(fresh.iter().map(|m| m.version).collect::<Vec<_>>(), vec![1, 2]);
    let half = pending_migrations(&vec![(1, None)]);
    assert_eq!(half.iter().map(|m| m.name).collect::<Vec<_>>(), vec!["projects_and_tags"]);
    let (recorded, _) = migrated_ledger();
    assert!(pending_migrations(&recorded).is_empty());
}

#[test]
fn an_event_time_reads_back_from_its_columns() {
    let timed = EventTime::timed(
        OffsetDateTime::parse_rfc3339("2026-08-24T09:00:00-07:00").unwrap(),
        OffsetDateTime::parse_rfc3339("2026-08-24T09:15:00-07:00").unwrap(),
        "America/Los_Angeles".to_owned(),
    )
    .unwrap();
    let (zone, starts, ends, first, last) = event_time_columns(&timed);
    assert_eq!(zone.as_deref(), Some("America/Los_Angeles"));
    assert_eq!(starts.unwrap().seconds, 1_787_587_200);
    assert!(first.is_none() && last.is_none());
    assert_eq!(event_time_from_columns(zone, starts, ends, first, last), Ok(timed));

    let all_day = EventTime::all_day(date(2026, 8, 24), date(2026, 8, 26)).unwrap();
    let (zone, starts, ends, first, last) = event_time_columns(&all_day);
    assert_eq!((first, last), (Some(date(2026, 8, 24)), Some(date(2026, 8, 26))));
    assert_eq!(event_time_from_columns(zone, starts, ends, first, last), Ok(all_day));
}

#[test]
fn a_row_with_mixed_or_refused_temporal_columns_is_invalid_data() {
    let (zone, starts, ends, _, _) = event_time_columns(
        &EventTime::timed(
            OffsetDateTime::parse_rfc3339("2026-08-24T09:00:00-07:00").unwrap(),
            OffsetDateTime::parse_rfc3339("2026-08-24T09:15:00-07:00").unwrap(),
            "America/Los_Angeles".to_owned(),
        )
        .unwrap(),
    );
    assert_eq!(
        event_time_from_columns(zone.clone(), starts, ends, Some(date(2026, 8, 24)), None),
        Err(StorageError::InvalidStoredData("event has mixed or incomplete temporal columns".to_owned()))
    );
    assert_eq!(
        event_time_from_columns(Some("Mars/Olympus".to_owned()), starts, ends, None, None),
        Err(StorageError::InvalidStoredData("invalid IANA timezone 'Mars/Olympus'".to_owned()))
    );
    assert_eq!(
        event_time_from_columns(zone, ends, starts, None, None),
        Err(StorageError::InvalidStoredData("timed event end must be after start".to_owned()))
    );
    assert!(matches!(
        event_time_from_columns(None, None, None, Some(date(2026, 8, 24)), Some(date(2026, 8, 24))),
        Err(StorageError::InvalidStoredData(_))
    ));
}

#[test]
fn an_accepted_edit_writes_the_next_version() {
    let calendar = Calendar::new("Home".to_owned()).unwrap();
    let event = Event::new(calendar.id, "Dentist".to_owned(), EventTime::all_day(date(2026, 8, 24), date(2026, 8, 25)).unwrap())
        .unwrap();
    let later = Timestamp::from_parts(1_900_000_000, 0).unwrap();
    let next = next_version(event.clone(), 4, later);
    assert_eq!(next.version, 5);
    assert_eq!(next.updated_at, later);
    assert_eq!((next.id, &next.title, next.created_at), (event.id, &event.title, event.created_at));
}
