use mg_calr::application::TodoQueryProjection;
use mg_calr::time::{CivilDate, OffsetDateTime, Timestamp};
use mg_calr::todo::{Priority, Todo, TodoDue, TodoError, TodoReminder};

fn instant(value: &str) -> OffsetDateTime {
    OffsetDateTime::parse_rfc3339(value).expect("valid RFC3339 fixture")
}

#[test]
fn priority_parsing_is_locked_and_canonical() {
    for value in ["none", "low", "medium", "high", "urgent"] {
        let priority = Priority::parse(value).expect("locked value parses");
        assert_eq!(priority.as_str(), value);
    }
    for value in ["NONE", "normal", "", " urgent"] {
        assert!(matches!(Priority::parse(value), Err(TodoError::InvalidPriority { .. })));
    }
}

#[test]
fn due_values_validate_zone_offsets_and_preserve_all_day_semantics() {
    let date = CivilDate::from_ymd(2026, 8, 24).unwrap();
    let all_day = TodoDue::date(date, "America/Los_Angeles".to_owned()).unwrap();
    assert!(all_day.is_all_day());
    assert_eq!(all_day.due_date(), date);
    assert_eq!(
        TodoDue::date(date, "Mars/Olympus".to_owned()),
        Err(TodoError::InvalidTimezone { timezone: "Mars/Olympus".into() })
    );

    let timed = TodoDue::timed(instant("2026-08-24T09:00:00-07:00"), "America/Los_Angeles".to_owned()).unwrap();
    assert!(!timed.is_all_day());
    assert!(matches!(
        TodoDue::timed(instant("2026-08-24T09:00:00+00:00"), "America/Los_Angeles".to_owned()),
        Err(TodoError::OffsetTimezoneMismatch { .. })
    ));
}

#[test]
fn todo_validation_and_projection_are_serializable() {
    assert!(matches!(Todo::new(String::new()), Err(TodoError::EmptyField { field: "todo title" })));
    let todo = Todo::new("Write tests".to_owned()).unwrap();
    let projection = todo.projection(true, 2);
    assert_eq!(projection.todo.title, "Write tests");
    assert!(projection.blocked);
    assert_eq!(projection.unmet_prerequisite_count, 2);
}

#[test]
fn reminders_validate_due_offsets_and_deduplicate() {
    assert!(matches!(TodoReminder::new(0, false), Err(TodoError::InvalidReminderOffset)));
    let mut todo = Todo::new("Remind me".to_owned()).unwrap();
    todo.reminders = vec![TodoReminder::new(5, false).unwrap()];
    assert!(matches!(todo.clone().rehydrate(), Err(TodoError::ReminderWithoutDue)));
    todo.due = Some(TodoDue::date(CivilDate::from_ymd(2026, 8, 24).unwrap(), "UTC".to_owned()).unwrap());
    todo.reminders.push(TodoReminder::new(5, false).unwrap());
    assert!(matches!(todo.rehydrate(), Err(TodoError::InvalidStoredReminder { .. })));
}

#[test]
fn completed_projection_preserves_completed_state_and_version() {
    let mut todo = Todo::new("Done".to_owned()).unwrap();
    todo.completed_at = Some(Timestamp::now().unwrap());
    todo.version = 2;
    let projection = TodoQueryProjection::from_todo(todo);
    assert!(projection.completed_at.is_some());
    assert_eq!(projection.version, 2);
}

#[test]
fn trash_behavior_preserves_completion_and_advances_version() {
    let mut todo = Todo::new("Completed but recoverable".to_owned()).unwrap();
    todo.completed_at = Some(Timestamp::now().unwrap());
    let original_version = todo.version;
    todo.trashed_at = Some(Timestamp::now().unwrap());
    todo.version += 1;

    let projection = TodoQueryProjection::from_todo(todo);
    assert!(projection.completed_at.is_some());
    assert!(projection.trashed_at.is_some());
    assert_eq!(projection.version, original_version + 1);
}

#[test]
fn reminders_are_listed_by_lead_time_with_one_offs_first() {
    let mut todo = Todo::new("Listed".to_owned()).unwrap();
    todo.due = Some(TodoDue::date(CivilDate::from_ymd(2026, 8, 24).unwrap(), "UTC".to_owned()).unwrap());
    todo.reminders = vec![
        TodoReminder::new(30, true).unwrap(),
        TodoReminder::new(5, false).unwrap(),
        TodoReminder::new(30, false).unwrap(),
    ];
    let projection = TodoQueryProjection::from_todo(todo);
    let order: Vec<(u32, bool)> = projection.reminders.iter().map(|r| (r.minutes_before, r.repeatable)).collect();
    assert_eq!(order, vec![(5, false), (30, false), (30, true)]);
}
