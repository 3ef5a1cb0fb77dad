use mg_calr::interop::{MAX_PROJECTION_BYTES, check_projection_size};
use mg_calr::interop::{
    Diagnostic, Lifecycle, Link, Origin, Payload, PayloadReading, Producer, ProjectionError, Provenance, Record,
    Snapshot, SnapshotCompleteness, TodoProjectionSnapshot,
};
use mg_calr::time::Timestamp;

// 2026-08-24T12:00:00Z
const OBSERVED: i64 = 1_787_572_800;

const PAYLOAD: &str = r#"{"id":"todo-1","version":7,"parent_id":"todo-parent","recurrence":{"frequency":"DAILY","interval":1,"count":3},"reminders":[{"minutes_before":30,"repeatable":true}],"delivery_identity":"delivery-1"}"#;

fn instant(seconds: i64) -> Timestamp {
    Timestamp::from_parts(seconds, 0).unwrap()
}

fn snapshot() -> Snapshot {
    let observed_at = instant(OBSERVED);
    Snapshot {
        interop_schema: "mg.interop/1".to_owned(),
        kind: "snapshot".to_owned(),
        producer: Producer { app: "mg-remindr".to_owned(), app_version: "0.1.0".to_owned() },
        export_id: "mg-remindr:snapshot:fixture".to_owned(),
        created_at: observed_at,
        source_revision: "authoritative-revision-7".to_owned(),
        producer_revision: 7,
        completeness: SnapshotCompleteness { complete: true, expected_records: 1, expected_links: 0 },
        records: vec![Record {
            global_id: "mg-remindr:todo:todo-1".to_owned(),
            origin: Origin { app: "mg-remindr".to_owned(), kind: "todo".to_owned(), local_id: "todo-1".to_owned() },
            revision: 7,
            observed_at,
            lifecycle: Lifecycle {
                state: "active".to_owned(),
                deleted_at: None,
                tombstoned_at: None,
                trashed_at: None,
                archived_at: None,
                purged: false,
            },
            payload: Payload {
                json: PAYLOAD.to_owned(),
                reading: PayloadReading::Unreadable("missing field `title`".to_owned()),
            },
        }],
        links: vec![],
        provenance: vec![Provenance { source: "mg-remindr".to_owned(), boundary: "mg-remindr export".to_owned() }],
        diagnostics: vec![Diagnostic { severity: "info".to_owned(), code: "fresh".to_owned(), message: "fixture".to_owned() }],
    }
}

fn link(source: &str, relation: &str, target: &str, created_by: &str) -> Link {
    Link {
        link_id: format!("{source}--{relation}--{target}"),
        source_global_id: source.to_owned(),
        target_global_id: target.to_owned(),
        relation: relation.to_owned(),
        created_by: created_by.to_owned(),
        created_at: None,
        provenance: "fixture".to_owned(),
    }
}

fn invalid_mentioning(result: Result<TodoProjectionSnapshot, ProjectionError>, word: &str) -> bool {
    matches!(result, Err(ProjectionError::Invalid(message)) if message.contains(word))
}

#[test]
fn validates_mg_todo_only_and_preserves_lossless_payload_metadata() {
    let projection = TodoProjectionSnapshot::validate(snapshot()).unwrap();
    let record = &projection.snapshot().records[0];
    assert_eq!(record.global_id, "mg-remindr:todo:todo-1");
    assert_eq!(record.revision, 7);
    assert_eq!(record.payload.json, PAYLOAD);
    assert_eq!(projection.snapshot().diagnostics[0].code, "fresh");
}

#[test]
fn rejects_non_todo_producer_and_does_not_replace_existing_store() {
    let mut invalid = snapshot();
    invalid.producer.app = "mg-calr".to_owned();
    assert!(matches!(TodoProjectionSnapshot::validate(invalid), Err(ProjectionError::Invalid(_))));
}

#[test]
fn rejects_relationships_with_missing_endpoints() {
    let mut value = snapshot();
    value.links.push(link("mg-remindr:todo:todo-1", "todo_parent", "mg-remindr:todo:missing", "mg-remindr"));
    value.completeness.expected_links = value.links.len();
    assert!(invalid_mentioning(TodoProjectionSnapshot::validate(value), "endpoint"));
}

#[test]
fn rejects_noncanonical_identity_and_relationship_metadata() {
    let mut value = snapshot();
    value.records[0].global_id = "mg-remindr:project:todo-1".to_owned();
    assert!(invalid_mentioning(TodoProjectionSnapshot::validate(value), "global_id"));

    let mut value = snapshot();
    value.links.push(link("mg-remindr:todo:todo-1", "todo_tagged", "mg-remindr:todo:todo-1", "other"));
    value.completeness.expected_links = value.links.len();
    assert!(invalid_mentioning(TodoProjectionSnapshot::validate(value), "created_by"));
}

#[test]
fn rejects_stale_and_conflicting_replacements() {
    let stored = TodoProjectionSnapshot::validate(snapshot()).unwrap();
    let stored_revision = TodoProjectionSnapshot::revision_of(PAYLOAD.as_bytes());

    let mut stale = snapshot();
    stale.producer_revision = 6;
    stale.created_at = instant(OBSERVED - 86_400);
    stale.records[0].observed_at = stale.created_at;
    let stale = TodoProjectionSnapshot::validate(stale).unwrap();
    let stale_revision = TodoProjectionSnapshot::revision_of(b"stale");
    assert!(matches!(
        stale.check_replacement(&stored, &stale_revision, &stored_revision),
        Err(ProjectionError::Stale(message)) if message.contains("stale")
    ));

    let changed = PAYLOAD.replace("todo-parent", "changed");
    let mut conflict = snapshot();
    conflict.records[0].payload.json = changed.clone();
    let conflict = TodoProjectionSnapshot::validate(conflict).unwrap();
    let conflict_revision = TodoProjectionSnapshot::revision_of(changed.as_bytes());
    assert!(matches!(
        conflict.check_replacement(&stored, &conflict_revision, &stored_revision),
        Err(ProjectionError::Conflict(message)) if message.contains("conflicting")
    ));
}

#[test]
fn storing_the_same_projection_again_is_accepted() {
    let stored = TodoProjectionSnapshot::validate(snapshot()).unwrap();
    let again = TodoProjectionSnapshot::validate(snapshot()).unwrap();
    let revision = TodoProjectionSnapshot::revision_of(PAYLOAD.as_bytes());
    assert_eq!(again.check_replacement(&stored, &revision, &revision), Ok(()));
}

#[test]
fn a_newer_projection_must_keep_every_stored_record_and_move_none_back() {
    let stored = TodoProjectionSnapshot::validate(snapshot()).unwrap();
    let stored_revision = TodoProjectionSnapshot::revision_of(PAYLOAD.as_bytes());
    let newer_revision = TodoProjectionSnapshot::revision_of(b"newer");

    let mut emptied = snapshot();
    emptied.producer_revision = 8;
    emptied.records.clear();
    emptied.completeness.expected_records = 0;
    let emptied = TodoProjectionSnapshot::validate(emptied).unwrap();
    assert!(matches!(
        emptied.check_replacement(&stored, &newer_revision, &stored_revision),
        Err(ProjectionError::Incomplete(message)) if message.contains("mg-remindr:todo:todo-1")
    ));

    let mut rolled_back = snapshot();
    rolled_back.producer_revision = 8;
    rolled_back.records[0].revision = 6;
    let rolled_back = TodoProjectionSnapshot::validate(rolled_back).unwrap();
    assert!(matches!(
        rolled_back.check_replacement(&stored, &newer_revision, &stored_revision),
        Err(ProjectionError::Stale(message)) if message == "stale record revision for mg-remindr:todo:todo-1"
    ));

    let mut advanced = snapshot();
    advanced.producer_revision = 8;
    advanced.records[0].revision = 8;
    let advanced = TodoProjectionSnapshot::validate(advanced).unwrap();
    assert_eq!(advanced.check_replacement(&stored, &newer_revision, &stored_revision), Ok(()));
}

#[test]
fn rejects_invalid_lifecycle_combinations() {
    let mut value = snapshot();
    value.records[0].lifecycle.state = "trashed".to_owned();
    assert!(invalid_mentioning(TodoProjectionSnapshot::validate(value), "lifecycle"));
}

#[test]
fn rejects_purged_present_records() {
    let mut value = snapshot();
    value.records[0].lifecycle.purged = true;
    assert!(invalid_mentioning(TodoProjectionSnapshot::validate(value), "purged"));
}

#[test]
fn rejects_self_links_and_cycles_in_todo_graphs() {
    let mut self_link = snapshot();
    self_link.links.push(link("mg-remindr:todo:todo-1", "todo_parent", "mg-remindr:todo:todo-1", "mg-remindr"));
    self_link.completeness.expected_links = self_link.links.len();
    assert!(invalid_mentioning(TodoProjectionSnapshot::validate(self_link), "itself"));

    let mut cycle = snapshot();
    let mut second = cycle.records[0].clone();
    second.global_id = "mg-remindr:todo:todo-2".to_owned();
    second.origin.local_id = "todo-2".to_owned();
    cycle.records.push(second);
    for (source, target) in [("todo-1", "todo-2"), ("todo-2", "todo-1")] {
        cycle.links.push(link(
            &format!("mg-remindr:todo:{source}"),
            "todo_depends_on",
            &format!("mg-remindr:todo:{target}"),
            "mg-remindr",
        ));
    }
    cycle.completeness.expected_records = cycle.records.len();
    cycle.completeness.expected_links = cycle.links.len();
    assert!(invalid_mentioning(TodoProjectionSnapshot::validate(cycle), "cycle"));
}

#[test]
fn rejects_records_observed_after_snapshot_creation() {
    let mut value = snapshot();
    value.created_at = instant(OBSERVED - 1);
    assert!(invalid_mentioning(TodoProjectionSnapshot::validate(value), "observed_at"));
}

#[test]
fn a_projection_document_above_the_byte_limit_is_refused_before_parsing() {
    assert_eq!(check_projection_size(MAX_PROJECTION_BYTES), Ok(()));
    assert!(matches!(
        check_projection_size(MAX_PROJECTION_BYTES + 1),
        Err(ProjectionError::Invalid(message)) if message.contains("byte limit")
    ));
}
