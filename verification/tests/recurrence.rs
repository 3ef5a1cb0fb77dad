use mg_calr::time::CivilDate;
use mg_calr::todo::{RecurrenceFrequency, RecurrenceRule, Todo, TodoDue, TodoError};

fn date(y: i32, m: u32, d: u32) -> CivilDate {
    CivilDate::from_ymd(y, m, d).unwrap()
}

#[test]
fn recurrence_expands_deterministically_without_mutating_base() {
    let mut todo = Todo::new("weekly review".to_owned()).unwrap();
    todo.due = Some(TodoDue::date(date(2026, 8, 24), "UTC".to_owned()).unwrap());
    todo.recurrence = Some(RecurrenceRule::new(RecurrenceFrequency::Weekly, 1, Some(3), None).unwrap());
    let original = todo.clone();
    let instances = todo.expand_due_instances(date(2026, 8, 1), date(2026, 9, 30)).unwrap();
    assert_eq!(instances.len(), 3);
    assert_eq!(instances[1], TodoDue::date(date(2026, 8, 31), "UTC".to_owned()).unwrap());
    assert_eq!(todo, original);
    let again = todo.expand_due_instances(date(2026, 8, 1), date(2026, 9, 30)).unwrap();
    assert_eq!(instances, again);
}

#[test]
fn recurrence_rejects_unbounded_and_contradictory_rules() {
    assert_eq!(
        RecurrenceRule::new(RecurrenceFrequency::Daily, 0, Some(2), None),
        Err(TodoError::InvalidRecurrenceInterval)
    );
    assert_eq!(
        RecurrenceRule::new(RecurrenceFrequency::Daily, 1, None, None),
        Err(TodoError::InvalidRecurrenceCount)
    );
    let mut todo = Todo::new("bad recurrence".to_owned()).unwrap();
    todo.recurrence = Some(RecurrenceRule { frequency: RecurrenceFrequency::Daily, interval: 1, count: Some(2), until: None });
    assert_eq!(todo.rehydrate(), Err(TodoError::RecurrenceWithoutDue));
}

#[test]
fn monthly_recurrence_is_local_and_stable_at_month_end() {
    let mut todo = Todo::new("month end".to_owned()).unwrap();
    todo.due = Some(TodoDue::date(date(2026, 1, 31), "UTC".to_owned()).unwrap());
    todo.recurrence = Some(RecurrenceRule::new(RecurrenceFrequency::Monthly, 1, Some(3), None).unwrap());
    let instances = todo.expand_due_instances(date(2026, 1, 1), date(2026, 5, 1)).unwrap();
    assert_eq!(
        instances.iter().map(|due| due.due_date()).collect::<Vec<_>>(),
        vec![date(2026, 1, 31), date(2026, 2, 28), date(2026, 3, 28)]
    );
}

#[test]
fn a_backwards_todo_window_is_refused() {
    let mut todo = Todo::new("window".to_owned()).unwrap();
    todo.due = Some(TodoDue::date(date(2026, 1, 31), "UTC".to_owned()).unwrap());
    assert_eq!(
        todo.expand_due_instances(date(2026, 2, 1), date(2026, 1, 1)),
        Err(TodoError::InvalidRecurrenceRange)
    );
}
