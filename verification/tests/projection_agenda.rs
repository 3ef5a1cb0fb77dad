use std::convert::Infallible;

use mg_calr::agenda::{AgendaOutput, AgendaQuery};
use mg_calr::application::AgendaKind;
use mg_calr::domain::{Calendar, Event, EventTime};
use mg_calr::interop::{
    Lifecycle, Link, Origin, Payload, PayloadReading, Producer, ProjectionError, Record, Snapshot, SnapshotCompleteness,
    TodoProjectionSnapshot,
};
use mg_calr::time::{CivilDate, Timestamp};
use mg_calr::todo::{Todo, TodoDue};

fn date(y: i32, m: u32, d: u32) -> CivilDate {
    CivilDate::from_ymd(y, m, d).unwrap()
}

// 2026-08-24T10:00:00Z
const MORNING: i64 = 1_787_565_600;

fn at(minutes: i64) -> Timestamp {
    Timestamp::from_parts(MORNING + minutes * 60, 0).unwrap()
}

fn global_id(todo: &Todo) -> String {
    format!("mg-remindr:todo:{}", todo.id.to_text())
}

fn snapshot_with(todos: &[Todo], links: Vec<Link>, created_at: Timestamp) -> Snapshot {
    Snapshot {
        interop_schema: "mg.interop/1".to_owned(),
        kind: "snapshot".to_owned(),
        producer: Producer { app: "mg-remindr".to_owned(), app_version: "0.1.0".to_owned() },
        export_id: "mg-remindr:snapshot:agenda-fixture".to_owned(),
        created_at,
        source_revision: "agenda-revision-1".to_owned(),
        producer_revision: 1,
        completeness: SnapshotCompleteness { complete: true, expected_records: todos.len(), expected_links: links.len() },
        records: todos
            .iter()
            .map(|todo| Record {
                global_id: global_id(todo),
                origin: Origin { app: "mg-remindr".to_owned(), kind: "todo".to_owned(), local_id: todo.id.to_text() },
                revision: todo.version,
                observed_at: todo.updated_at,
                lifecycle: Lifecycle {
                    state: if todo.trashed_at.is_some() { "trashed".to_owned() } else { "active".to_owned() },
                    deleted_at: None,
                    tombstoned_at: None,
                    trashed_at: todo.trashed_at,
                    archived_at: None,
                    purged: false,
                },
                payload: Payload { json: "{}".to_owned(), reading: PayloadReading::Todo(todo.clone()) },
            })
            .collect(),
        links,
        provenance: Vec::new(),
        diagnostics: Vec::new(),
    }
}

fn dependency_link(dependent: &Todo, prerequisite: &Todo) -> Link {
    let source = global_id(dependent);
    let target = global_id(prerequisite);
    Link {
        link_id: format!("{source}--todo_depends_on--{target}"),
        source_global_id: source,
        target_global_id: target,
        relation: "todo_depends_on".to_owned(),
        created_by: "mg-remindr".to_owned(),
        created_at: None,
        provenance: "fixture".to_owned(),
    }
}

fn todo(title: &str, updated_minutes: i64) -> Todo {
    let mut todo = Todo::new(title.to_owned()).unwrap();
    todo.updated_at = at(updated_minutes);
    todo.created_at = at(updated_minutes);
    todo
}

#[test]
fn agenda_todos_are_rehydrated_only_from_the_validated_projection() {
    let prerequisite = todo("Prerequisite", 60);
    let mut dependent = todo("Projected agenda item", 90);
    dependent.due = Some(TodoDue::date(date(2026, 8, 24), "UTC".to_owned()).unwrap());
    dependent.dependency_ids = vec![prerequisite.id];

    let projection = TodoProjectionSnapshot::validate(snapshot_with(
        &[prerequisite.clone(), dependent.clone()],
        vec![dependency_link(&dependent, &prerequisite)],
        at(120),
    ))
    .unwrap();
    let loaded = projection.agenda_todos_at(at(180), "rev".to_owned()).unwrap();

    assert_eq!(loaded.todos, vec![prerequisite, dependent]);
    assert_eq!(loaded.metadata.producer, "mg-remindr");
    assert_eq!(loaded.metadata.content_revision, "rev");
    assert_eq!(loaded.metadata.completeness.todo_count, 2);
    assert_eq!(loaded.metadata.completeness.link_count, 1);
}

#[test]
fn current_projection_composes_with_events_in_stable_json_order() {
    let calendar = Calendar::new("Work".to_owned()).unwrap();
    let event =
        Event::new(calendar.id, "Meeting".to_owned(), EventTime::all_day(date(2026, 8, 24), date(2026, 8, 25)).unwrap()).unwrap();
    let mut zulu = todo("Zulu", 0);
    zulu.due = Some(TodoDue::date(date(2026, 8, 24), "UTC".to_owned()).unwrap());
    let mut alpha = todo("alpha", 60);
    alpha.due = Some(TodoDue::date(date(2026, 8, 24), "UTC".to_owned()).unwrap());
    let projection = TodoProjectionSnapshot::validate(snapshot_with(&[zulu, alpha], Vec::new(), at(120))).unwrap();
    let query = AgendaQuery::new(date(2026, 8, 24), date(2026, 8, 25));

    let first = AgendaOutput::from_projection::<Infallible>(
        query.clone(),
        vec![event.clone()],
        projection.agenda_todos_at(at(180), "rev".to_owned()).unwrap(),
    )
    .unwrap();
    let second = AgendaOutput::from_projection::<Infallible>(
        query,
        vec![event],
        projection.agenda_todos_at(at(180), "rev".to_owned()).unwrap(),
    )
    .unwrap();

    assert_eq!(
        first.items.iter().map(|item| (item.kind, item.title.as_str())).collect::<Vec<_>>(),
        [(AgendaKind::Event, "Meeting"), (AgendaKind::Todo, "alpha"), (AgendaKind::Todo, "Zulu")]
    );
    assert_eq!(first, second);
}

#[test]
fn a_projection_from_the_future_or_past_its_day_is_refused() {
    let projection = TodoProjectionSnapshot::validate(snapshot_with(&[todo("Soon", 0)], Vec::new(), at(120))).unwrap();
    assert!(matches!(projection.agenda_todos_at(at(60), "rev".to_owned()), Err(ProjectionError::Invalid(_))));
    assert!(matches!(
        projection.agenda_todos_at(at(120 + 25 * 60), "rev".to_owned()),
        Err(ProjectionError::Stale(_))
    ));
}

#[test]
fn a_foreign_producer_is_refused() {
    let mut snapshot = snapshot_with(&[], Vec::new(), at(0));
    snapshot.producer.app = "mg-todo".to_owned();
    assert!(TodoProjectionSnapshot::validate(snapshot).is_err());
}

#[test]
fn self_links_and_dependency_cycles_are_refused() {
    let mut first = todo("First", 0);
    let mut second = todo("Second", 10);
    first.dependency_ids = vec![second.id];
    second.dependency_ids = vec![first.id];
    let links = vec![dependency_link(&first, &second), dependency_link(&second, &first)];
    assert!(TodoProjectionSnapshot::validate(snapshot_with(&[first.clone(), second], links, at(60))).is_err());

    let self_link = vec![dependency_link(&first, &first)];
    assert!(TodoProjectionSnapshot::validate(snapshot_with(&[first], self_link, at(60))).is_err());
}

#[test]
fn projection_lifecycle_and_agenda_flags_filter_truthfully() {
    let mut active = todo("Active", 0);
    active.due = Some(TodoDue::date(date(2026, 8, 24), "UTC".to_owned()).unwrap());
    let mut trashed = todo("Trashed", 30);
    trashed.trashed_at = Some(at(15));
    trashed.due = Some(TodoDue::date(date(2026, 8, 24), "UTC".to_owned()).unwrap());
    let mut deleted = todo("Deleted", 60);
    deleted.due = Some(TodoDue::date(date(2026, 8, 24), "UTC".to_owned()).unwrap());

    let mut raw = snapshot_with(&[active, trashed], Vec::new(), at(120));
    let mut deleted_record = snapshot_with(&[deleted], Vec::new(), at(120)).records.remove(0);
    deleted_record.lifecycle.state = "deleted".to_owned();
    deleted_record.lifecycle.deleted_at = Some(at(45));
    raw.records.push(deleted_record);
    raw.completeness.expected_records = raw.records.len();
    let projection = TodoProjectionSnapshot::validate(raw).unwrap();
    let projected = projection.agenda_todos_at(at(180), "rev".to_owned()).unwrap();
    assert_eq!(projected.todos.iter().map(|todo| todo.title.as_str()).collect::<Vec<_>>(), ["Active", "Trashed"]);

    let default = AgendaOutput::from_projection::<Infallible>(
        AgendaQuery::new(date(2026, 8, 24), date(2026, 8, 25)),
        Vec::new(),
        projected.clone(),
    )
    .unwrap();
    assert_eq!(default.items.len(), 1);
    assert_eq!(default.items[0].title, "Active");

    let mut include_trashed = AgendaQuery::new(date(2026, 8, 24), date(2026, 8, 25));
    include_trashed.include_trashed = true;
    let inclusive = AgendaOutput::from_projection::<Infallible>(include_trashed, Vec::new(), projected).unwrap();
    assert_eq!(inclusive.items.iter().map(|item| item.title.as_str()).collect::<Vec<_>>(), ["Active", "Trashed"]);
}

#[test]
fn empty_current_projection_preserves_calendar_only_agenda() {
    let calendar = Calendar::new("Work".to_owned()).unwrap();
    let event = Event::new(
        calendar.id,
        "Calendar only".to_owned(),
        EventTime::all_day(date(2026, 8, 24), date(2026, 8, 25)).unwrap(),
    )
    .unwrap();
    let projection = TodoProjectionSnapshot::validate(snapshot_with(&[], Vec::new(), at(120))).unwrap();

    let output = AgendaOutput::from_projection::<Infallible>(
        AgendaQuery::new(date(2026, 8, 24), date(2026, 8, 25)),
        vec![event],
        projection.agenda_todos_at(at(180), "rev".to_owned()).unwrap(),
    )
    .unwrap();

    assert_eq!(output.items.len(), 1);
    assert_eq!(output.items[0].kind, AgendaKind::Event);
    assert_eq!(output.items[0].title, "Calendar only");
}

#[test]
fn agenda_projection_reports_missing_stale_and_conflicting_state_explicitly() {
    let mut stale_todo = todo("Stale", 60);
    let mut raw = snapshot_with(&[stale_todo.clone()], Vec::new(), at(120));
    raw.records[0].revision += 1;
    let stale = TodoProjectionSnapshot::validate(raw).unwrap();
    assert!(matches!(
        stale.agenda_todos_at(at(180), "rev".to_owned()),
        Err(ProjectionError::Stale(message)) if message.contains("revision")
    ));

    let prerequisite = todo("Prerequisite", 90);
    stale_todo.dependency_ids = vec![prerequisite.id];
    let conflicting =
        TodoProjectionSnapshot::validate(snapshot_with(&[stale_todo, prerequisite], Vec::new(), at(120))).unwrap();
    assert!(matches!(
        conflicting.agenda_todos_at(at(180), "rev".to_owned()),
        Err(ProjectionError::Conflict(message)) if message.contains("relationship")
    ));
}
