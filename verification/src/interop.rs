//! The imported todo projection: its envelope, the checks it must pass, and
//! the agenda rows it yields.
use vstd::prelude::*;

use crate::graph::{has_cycle, spec_acyclic};
use crate::text::{chars_eq, chars_of, join, join3, owned, push_str_chars, starts_with, string_of};
use crate::application::{AgendaTodoSnapshot, ProjectionCompleteness, ProjectionDiagnostic, TodoProjectionMetadata};
use crate::time::Timestamp;
use crate::ids::{ProjectId, TagId, TodoId, spec_uuid_parse, spec_uuid_text, uuid_parse};
use crate::todo::{
    DUPLICATE_REMINDER, Todo, TodoDue, TodoError, TodoReminder, spec_reminder_fault, spec_reminders_ok,
    spec_reminders_refusal, spec_todo_error_message, spec_todo_precheck,
};

verus! {

pub const INTEROP_SCHEMA: &'static str = "mg.interop/1";
pub const TODO_PRODUCER_APP: &'static str = "mg-remindr";
pub const SNAPSHOT_KIND: &'static str = "snapshot";
/// Largest projection file, in bytes.
pub const MAX_PROJECTION_BYTES: u64 = 16_777_216;
pub const MAX_PROJECTION_RECORDS: usize = 100_000;
pub const MAX_PROJECTION_LINKS: usize = 500_000;
/// How old, in seconds, a projection may be and still feed an agenda.
pub const MAX_AGENDA_PROJECTION_AGE_SECONDS: i64 = 86_400;
/// How far, in seconds, a projection's creation may lie ahead of the clock on import.
pub const MAX_IMPORT_CLOCK_SKEW_SECONDS: i64 = 300;

pub const RELATION_PARENT: &'static str = "todo_parent";
pub const RELATION_DEPENDS_ON: &'static str = "todo_depends_on";
pub const RELATION_PROJECT: &'static str = "project_contains_todo";
pub const RELATION_TAGGED: &'static str = "todo_tagged";
pub const RELATION_REMINDER: &'static str = "todo_has_reminder";
pub const RELATION_DELIVERY: &'static str = "todo_has_delivery";

/// Why a projection was refused.
#[derive(Debug, Clone, PartialEq, Eq)]
pub enum ProjectionError {
    Missing,
    Stale(String),
    Conflict(String),
    Incomplete(String),
    Read(String),
    Write(String),
    Json(String),
    Invalid(String),
}

/// The kind of a projection refusal.
#[derive(Debug, Clone, Copy, PartialEq, Eq, Structural)]
pub enum ProjectionErrorKind {
    Missing,
    Stale,
    Conflict,
    Incomplete,
    Read,
    Write,
    Json,
    Invalid,
}

impl View for ProjectionError {
    type V = (ProjectionErrorKind, Seq<char>);

    open spec fn view(&self) -> (ProjectionErrorKind, Seq<char>) {
        match self {
            ProjectionError::Missing => (ProjectionErrorKind::Missing, Seq::empty()),
            ProjectionError::Stale(m) => (ProjectionErrorKind::Stale, m@),
            ProjectionError::Conflict(m) => (ProjectionErrorKind::Conflict, m@),
            ProjectionError::Incomplete(m) => (ProjectionErrorKind::Incomplete, m@),
            ProjectionError::Read(m) => (ProjectionErrorKind::Read, m@),
            ProjectionError::Write(m) => (ProjectionErrorKind::Write, m@),
            ProjectionError::Json(m) => (ProjectionErrorKind::Json, m@),
            ProjectionError::Invalid(m) => (ProjectionErrorKind::Invalid, m@),
        }
    }
}

/// The producer of a snapshot.
#[derive(Debug, Clone, PartialEq, Eq)]
pub struct Producer {
    pub app: String,
    pub app_version: String,
}

/// The producer's evidence that a snapshot is whole.
#[derive(Debug, Clone, Copy, PartialEq, Eq, Structural)]
pub struct SnapshotCompleteness {
    pub complete: bool,
    pub expected_records: usize,
    pub expected_links: usize,
}

/// Where a record comes from.
#[derive(Debug, Clone, PartialEq, Eq)]
pub struct Origin {
    pub app: String,
    pub kind: String,
    pub local_id: String,
}

/// A record's lifecycle state and the times it changed.
#[derive(Debug, Clone, PartialEq, Eq)]
pub struct Lifecycle {
    pub state: String,
    pub deleted_at: Option<Timestamp>,
    pub tombstoned_at: Option<Timestamp>,
    pub trashed_at: Option<Timestamp>,
    pub archived_at: Option<Timestamp>,
    pub purged: bool,
}

/// What a record's payload reads as: a todo, a todo payload that does not
/// read (with the reader's message), or a payload of another kind.
#[derive(Debug, Clone, PartialEq, Eq)]
pub enum PayloadReading {
    Todo(Todo),
    Unreadable(String),
    Other,
}

/// A record's payload: its JSON text, and what it reads as.
#[derive(Debug, Clone, PartialEq, Eq)]
pub struct Payload {
    pub json: String,
    pub reading: PayloadReading,
}

/// One record of the projection.
#[derive(Debug, Clone, PartialEq, Eq)]
pub struct Record {
    pub global_id: String,
    pub origin: Origin,
    pub revision: i64,
    pub observed_at: Timestamp,
    pub lifecycle: Lifecycle,
    pub payload: Payload,
}

/// One relationship between two records.
#[derive(Debug, Clone, PartialEq, Eq)]
pub struct Link {
    pub link_id: String,
    pub source_global_id: String,
    pub target_global_id: String,
    pub relation: String,
    pub created_by: String,
    pub created_at: Option<Timestamp>,
    pub provenance: String,
}

#[derive(Debug, Clone, PartialEq, Eq)]
pub struct Provenance {
    pub source: String,
    pub boundary: String,
}

/// A producer diagnostic.
#[derive(Debug, Clone, PartialEq, Eq)]
pub struct Diagnostic {
    pub severity: String,
    pub code: String,
    pub message: String,
}

/// The envelope a producer exports.
#[derive(Debug, Clone, PartialEq, Eq)]
pub struct Snapshot {
    pub interop_schema: String,
    pub kind: String,
    pub producer: Producer,
    pub export_id: String,
    pub created_at: Timestamp,
    pub source_revision: String,
    pub producer_revision: u64,
    pub completeness: SnapshotCompleteness,
    pub records: Vec<Record>,
    pub links: Vec<Link>,
    pub provenance: Vec<Provenance>,
    pub diagnostics: Vec<Diagnostic>,
}

// ── Lifecycles ──

pub const MSG_PURGED: &'static str = "purged records are not valid in a present-row snapshot";
pub const MSG_LIFECYCLE_NEWER: &'static str = "lifecycle timestamp is newer than observed_at";

/// A lifecycle time after the observation.
pub open spec fn spec_after(t: Option<Timestamp>, observed: Timestamp) -> bool {
    t matches Some(x) && observed.spec_lt(x)
}

/// The state names a lifecycle and exactly the times that state carries.
pub open spec fn spec_lifecycle_consistent(l: Lifecycle) -> bool {
    if l.state@ == "active"@ {
        l.deleted_at is None && l.tombstoned_at is None && l.trashed_at is None && l.archived_at is None && !l.purged
    } else if l.state@ == "trashed"@ {
        l.trashed_at is Some && l.deleted_at is None && l.tombstoned_at is None && l.archived_at is None && !l.purged
    } else if l.state@ == "deleted"@ {
        l.deleted_at is Some && l.tombstoned_at is None && l.trashed_at is None && l.archived_at is None
    } else if l.state@ == "tombstoned"@ {
        l.tombstoned_at is Some && l.deleted_at is None && l.trashed_at is None && l.archived_at is None && !l.purged
    } else if l.state@ == "archived"@ {
        l.archived_at is Some && l.deleted_at is None && l.tombstoned_at is None && l.trashed_at is None && !l.purged
    } else {
        false
    }
}

/// Why a lifecycle is refused, if it is.
pub open spec fn spec_lifecycle_problem(l: Lifecycle, observed: Timestamp) -> Option<Seq<char>> {
    if l.purged {
        Some(MSG_PURGED@)
    } else if spec_after(l.deleted_at, observed) || spec_after(l.tombstoned_at, observed)
        || spec_after(l.trashed_at, observed) || spec_after(l.archived_at, observed) {
        Some(MSG_LIFECYCLE_NEWER@)
    } else if !spec_lifecycle_consistent(l) {
        Some("invalid lifecycle state '"@ + l.state@ + "' and timestamps"@)
    } else {
        None
    }
}

fn after(t: Option<Timestamp>, observed: Timestamp) -> (r: bool)
    ensures
        r == spec_after(t, observed),
{
    match t {
        Some(x) => observed.is_before(&x),
        None => false,
    }
}

fn text_is(s: &String, word: &str) -> (r: bool)
    ensures
        r == (s@ == word@),
{
    let a = chars_of(s.as_str());
    let b = chars_of(word);
    chars_eq(a.as_slice(), b.as_slice())
}

fn validate_lifecycle(lifecycle: &Lifecycle, observed_at: Timestamp) -> (r: Result<(), ProjectionError>)
    ensures
        match spec_lifecycle_problem(*lifecycle, observed_at) {
            Some(m) => r matches Err(e) && e@ == (ProjectionErrorKind::Invalid, m),
            None => r is Ok,
        },
{
    if lifecycle.purged {
        return Err(ProjectionError::Invalid(owned(MSG_PURGED)));
    }
    if after(lifecycle.deleted_at, observed_at) || after(lifecycle.tombstoned_at, observed_at)
        || after(lifecycle.trashed_at, observed_at) || after(lifecycle.archived_at, observed_at) {
        return Err(ProjectionError::Invalid(owned(MSG_LIFECYCLE_NEWER)));
    }
    let l = lifecycle;
    let expected = if text_is(&l.state, "active") {
        l.deleted_at.is_none() && l.tombstoned_at.is_none() && l.trashed_at.is_none() && l.archived_at.is_none() && !l.purged
    } else if text_is(&l.state, "trashed") {
        l.trashed_at.is_some() && l.deleted_at.is_none() && l.tombstoned_at.is_none() && l.archived_at.is_none() && !l.purged
    } else if text_is(&l.state, "deleted") {
        l.deleted_at.is_some() && l.tombstoned_at.is_none() && l.trashed_at.is_none() && l.archived_at.is_none()
    } else if text_is(&l.state, "tombstoned") {
        l.tombstoned_at.is_some() && l.deleted_at.is_none() && l.trashed_at.is_none() && l.archived_at.is_none() && !l.purged
    } else if text_is(&l.state, "archived") {
        l.archived_at.is_some() && l.deleted_at.is_none() && l.tombstoned_at.is_none() && l.trashed_at.is_none() && !l.purged
    } else {
        false
    };
    if !expected {
        return Err(ProjectionError::Invalid(join3("invalid lifecycle state '", l.state.as_str(), "' and timestamps")));
    }
    Ok(())
}

// ── Record identities ──

/// The index of the first `:` at or after `from`, or the length when there is none.
pub open spec fn spec_colon_at(s: Seq<char>, from: int) -> int
    decreases s.len() - from,
{
    if from >= s.len() {
        s.len() as int
    } else if s[from] == ':' {
        from
    } else {
        spec_colon_at(s, from + 1)
    }
}

proof fn lemma_colon_at(s: Seq<char>, from: int)
    requires
        0 <= from <= s.len(),
    ensures
        from <= spec_colon_at(s, from) <= s.len(),
        forall|i: int| from <= i < spec_colon_at(s, from) ==> s[i] != ':',
        spec_colon_at(s, from) < s.len() ==> s[spec_colon_at(s, from)] == ':',
    decreases s.len() - from,
{
    if from < s.len() && s[from] != ':' {
        lemma_colon_at(s, from + 1);
    }
}

fn colon_at(s: &Vec<char>, from: usize) -> (r: usize)
    requires
        from <= s@.len(),
    ensures
        r == spec_colon_at(s@, from as int),
{
    let mut i = from;
    while i < s.len() && s[i] != ':'
        invariant
            from <= i <= s@.len(),
            spec_colon_at(s@, from as int) == spec_colon_at(s@, i as int),
        decreases s.len() - i,
    {
        i += 1;
    }
    i
}

/// The kind a global identity names: the second `:`-separated field of an
/// identity whose first field is the producer.
pub open spec fn spec_record_kind(g: Seq<char>) -> Option<Seq<char>> {
    let p = spec_colon_at(g, 0);
    if p >= g.len() || g.subrange(0, p) != TODO_PRODUCER_APP@ {
        None
    } else {
        let q = spec_colon_at(g, p + 1);
        Some(g.subrange(p + 1, q))
    }
}

fn record_kind(g: &Vec<char>) -> (r: Option<Vec<char>>)
    ensures
        match spec_record_kind(g@) {
            Some(k) => r matches Some(v) && v@ == k,
            None => r is None,
        },
{
    proof {
        lemma_colon_at(g@, 0);
    }
    let p = colon_at(g, 0);
    if p >= g.len() {
        return None;
    }
    let producer = chars_of(TODO_PRODUCER_APP);
    let mut head: Vec<char> = Vec::new();
    let mut i: usize = 0;
    while i < p
        invariant
            i <= p < g@.len(),
            head@ == g@.subrange(0, i as int),
        decreases p - i,
    {
        head.push(g[i]);
        assert(g@.subrange(0, i + 1) =~= g@.subrange(0, i as int).push(g@[i as int]));
        i += 1;
    }
    if !chars_eq(head.as_slice(), producer.as_slice()) {
        return None;
    }
    proof {
        lemma_colon_at(g@, p + 1);
    }
    let q = colon_at(g, p + 1);
    let mut kind: Vec<char> = Vec::new();
    let mut j: usize = p + 1;
    while j < q
        invariant
            p + 1 <= j <= q <= g@.len(),
            kind@ == g@.subrange(p + 1, j as int),
        decreases q - j,
    {
        kind.push(g[j]);
        assert(g@.subrange(p + 1, j + 1) =~= g@.subrange(p + 1, j as int).push(g@[j as int]));
        j += 1;
    }
    Some(kind)
}

/// The relationships the projection allows, by kind of source and target.
pub open spec fn spec_relationship_allowed(relation: Seq<char>, source: Option<Seq<char>>, target: Option<Seq<char>>) -> bool {
    match (source, target) {
        (Some(s), Some(t)) => {
            ||| relation == RELATION_PROJECT@ && s == "project"@ && t == "todo"@
            ||| relation == RELATION_PARENT@ && s == "todo"@ && t == "todo"@
            ||| relation == RELATION_DEPENDS_ON@ && s == "todo"@ && t == "todo"@
            ||| relation == RELATION_TAGGED@ && s == "todo"@ && t == "tag"@
            ||| relation == RELATION_REMINDER@ && s == "todo"@ && t == "reminder"@
            ||| relation == RELATION_DELIVERY@ && s == "todo"@ && t == "delivery"@
        },
        _ => false,
    }
}

fn seq_is(s: &Vec<char>, word: &str) -> (r: bool)
    ensures
        r == (s@ == word@),
{
    let w = chars_of(word);
    chars_eq(s.as_slice(), w.as_slice())
}

fn relationship_allowed(relation: &String, source: &Option<Vec<char>>, target: &Option<Vec<char>>) -> (r: bool)
    ensures
        r == spec_relationship_allowed(
            relation@,
            match source { Some(v) => Some(v@), None => None },
            match target { Some(v) => Some(v@), None => None },
        ),
{
    match (source, target) {
        (Some(s), Some(t)) => {
            (text_is(relation, RELATION_PROJECT) && seq_is(s, "project") && seq_is(t, "todo"))
                || (text_is(relation, RELATION_PARENT) && seq_is(s, "todo") && seq_is(t, "todo"))
                || (text_is(relation, RELATION_DEPENDS_ON) && seq_is(s, "todo") && seq_is(t, "todo"))
                || (text_is(relation, RELATION_TAGGED) && seq_is(s, "todo") && seq_is(t, "tag"))
                || (text_is(relation, RELATION_REMINDER) && seq_is(s, "todo") && seq_is(t, "reminder"))
                || (text_is(relation, RELATION_DELIVERY) && seq_is(s, "todo") && seq_is(t, "delivery"))
        },
        _ => false,
    }
}

// ── The envelope check ──

pub const MSG_EXPECTED_PRODUCER: &'static str = "expected an mg-remindr snapshot producer";
pub const MSG_REVISION_POSITIVE: &'static str = "producer_revision must be positive";
pub const MSG_INCOMPLETE: &'static str = "complete-snapshot marker and expected counts must match the envelope";
pub const MSG_LIMIT: &'static str = "projection record or relationship limit exceeded";
pub const MSG_ORIGIN: &'static str = "record origin must identify mg-remindr and a local ID";
pub const MSG_UNIQUE: &'static str = "record IDs must be unique and revisions positive";
pub const MSG_OBSERVED: &'static str = "record observed_at is newer than snapshot created_at";
pub const MSG_ENDPOINT: &'static str = "relationship endpoint is not present in the snapshot";
pub const MSG_LINK_ID: &'static str = "relationship IDs must be deterministic and unique";
pub const MSG_CREATED_BY: &'static str = "relationship created_by must be mg-remindr";

pub open spec fn spec_kind_known(k: Seq<char>) -> bool {
    k == "project"@ || k == "tag"@ || k == "todo"@ || k == "reminder"@ || k == "delivery"@
}

/// The identity a record's origin gives it.
pub open spec fn spec_canonical_id(r: Record) -> Seq<char> {
    TODO_PRODUCER_APP@ + ":"@ + r.origin.kind@ + ":"@ + r.origin.local_id@
}

/// An earlier record has the same identity.
pub open spec fn spec_id_seen(recs: Seq<Record>, i: int) -> bool {
    exists|j: int| 0 <= j < i && #[trigger] recs[j].global_id@ == recs[i].global_id@
}

/// Why the record at `i` is refused, if it is.
pub open spec fn spec_record_problem(recs: Seq<Record>, i: int, created_at: Timestamp) -> Option<(ProjectionErrorKind, Seq<char>)> {
    let r = recs[i];
    if !spec_kind_known(r.origin.kind@) {
        Some((ProjectionErrorKind::Invalid, "record kind '"@ + r.origin.kind@ + "' is outside the todo projection"@))
    } else if r.origin.app@ != TODO_PRODUCER_APP@ || r.origin.local_id@.len() == 0 {
        Some((ProjectionErrorKind::Invalid, MSG_ORIGIN@))
    } else if r.global_id@ != spec_canonical_id(r) {
        Some((ProjectionErrorKind::Invalid, "global_id '"@ + r.global_id@ + "' does not match canonical origin '"@
            + r.origin.app@ + "', '"@ + r.origin.kind@ + "', '"@ + r.origin.local_id@ + "'"@))
    } else if r.revision < 1 || spec_id_seen(recs, i) {
        Some((ProjectionErrorKind::Invalid, MSG_UNIQUE@))
    } else if created_at.spec_lt(r.observed_at) {
        Some((ProjectionErrorKind::Invalid, MSG_OBSERVED@))
    } else {
        match spec_lifecycle_problem(r.lifecycle, r.observed_at) {
            Some(m) => Some((ProjectionErrorKind::Invalid, m)),
            None => None,
        }
    }
}

/// The first refused record among the first `k`.
pub open spec fn spec_records_problem(recs: Seq<Record>, created_at: Timestamp, k: int) -> Option<(ProjectionErrorKind, Seq<char>)>
    decreases k,
{
    if k <= 0 {
        None
    } else {
        match spec_records_problem(recs, created_at, k - 1) {
            Some(p) => Some(p),
            None => spec_record_problem(recs, k - 1, created_at),
        }
    }
}

proof fn lemma_records_problem_stays(recs: Seq<Record>, created_at: Timestamp, k: int, m: int)
    requires
        0 <= k <= m,
        spec_records_problem(recs, created_at, k) is Some,
    ensures
        spec_records_problem(recs, created_at, m) == spec_records_problem(recs, created_at, k),
    decreases m - k,
{
    if m > k {
        lemma_records_problem_stays(recs, created_at, k, m - 1);
    }
}

fn is_known_kind(k: &String) -> (r: bool)
    ensures
        r == spec_kind_known(k@),
{
    text_is(k, "project") || text_is(k, "tag") || text_is(k, "todo") || text_is(k, "reminder") || text_is(k, "delivery")
}

fn canonical_id(r: &Record) -> (c: Vec<char>)
    ensures
        c@ == spec_canonical_id(*r),
{
    let mut out: Vec<char> = Vec::new();
    push_str_chars(&mut out, TODO_PRODUCER_APP);
    push_str_chars(&mut out, ":");
    push_str_chars(&mut out, r.origin.kind.as_str());
    push_str_chars(&mut out, ":");
    push_str_chars(&mut out, r.origin.local_id.as_str());
    out
}

fn id_mismatch_message(r: &Record) -> (m: String)
    ensures
        m@ == "global_id '"@ + r.global_id@ + "' does not match canonical origin '"@ + r.origin.app@ + "', '"@
            + r.origin.kind@ + "', '"@ + r.origin.local_id@ + "'"@,
{
    let mut out: Vec<char> = Vec::new();
    push_str_chars(&mut out, "global_id '");
    push_str_chars(&mut out, r.global_id.as_str());
    push_str_chars(&mut out, "' does not match canonical origin '");
    push_str_chars(&mut out, r.origin.app.as_str());
    push_str_chars(&mut out, "', '");
    push_str_chars(&mut out, r.origin.kind.as_str());
    push_str_chars(&mut out, "', '");
    push_str_chars(&mut out, r.origin.local_id.as_str());
    push_str_chars(&mut out, "'");
    string_of(out.as_slice())
}

/// The characters of every record identity, in order.
fn record_ids(recs: &Vec<Record>) -> (ids: Vec<Vec<char>>)
    ensures
        ids@.len() == recs@.len(),
        forall|i: int| 0 <= i < recs@.len() ==> (#[trigger] ids@[i])@ == recs@[i].global_id@,
{
    let mut ids: Vec<Vec<char>> = Vec::new();
    let mut i: usize = 0;
    while i < recs.len()
        invariant
            i <= recs.len(),
            ids@.len() == i,
            forall|j: int| 0 <= j < i ==> (#[trigger] ids@[j])@ == recs@[j].global_id@,
        decreases recs.len() - i,
    {
        ids.push(chars_of(recs[i].global_id.as_str()));
        i += 1;
    }
    ids
}

fn check_record(recs: &Vec<Record>, ids: &Vec<Vec<char>>, i: usize, created_at: Timestamp) -> (r: Result<(), ProjectionError>)
    requires
        i < recs@.len(),
        ids@.len() == recs@.len(),
        forall|j: int| 0 <= j < recs@.len() ==> (#[trigger] ids@[j])@ == recs@[j].global_id@,
    ensures
        match spec_record_problem(recs@, i as int, created_at) {
            Some(p) => r matches Err(e) && e@ == p,
            None => r is Ok,
        },
{
    let record = &recs[i];
    if !is_known_kind(&record.origin.kind) {
        return Err(ProjectionError::Invalid(join3("record kind '", record.origin.kind.as_str(), "' is outside the todo projection")));
    }
    if !text_is(&record.origin.app, TODO_PRODUCER_APP) || record.origin.local_id.as_str().unicode_len() == 0 {
        return Err(ProjectionError::Invalid(owned(MSG_ORIGIN)));
    }
    let canonical = canonical_id(record);
    if !chars_eq(ids[i].as_slice(), canonical.as_slice()) {
        return Err(ProjectionError::Invalid(id_mismatch_message(record)));
    }
    let mut seen = false;
    let mut j: usize = 0;
    while j < i
        invariant
            i < recs@.len(),
            ids@.len() == recs@.len(),
            forall|x: int| 0 <= x < recs@.len() ==> (#[trigger] ids@[x])@ == recs@[x].global_id@,
            j <= i,
            seen == exists|x: int| 0 <= x < j && #[trigger] recs@[x].global_id@ == recs@[i as int].global_id@,
        decreases i - j,
    {
        if chars_eq(ids[j].as_slice(), ids[i].as_slice()) {
            seen = true;
        }
        proof {
            if seen && !(recs@[j as int].global_id@ == recs@[i as int].global_id@) {
                let x = choose|x: int| 0 <= x < j && #[trigger] recs@[x].global_id@ == recs@[i as int].global_id@;
                assert(0 <= x < j + 1);
            }
        }
        j += 1;
    }
    if record.revision < 1 || seen {
        return Err(ProjectionError::Invalid(owned(MSG_UNIQUE)));
    }
    if created_at.is_before(&record.observed_at) {
        return Err(ProjectionError::Invalid(owned(MSG_OBSERVED)));
    }
    validate_lifecycle(&record.lifecycle, record.observed_at)
}

fn check_records(recs: &Vec<Record>, ids: &Vec<Vec<char>>, created_at: Timestamp) -> (r: Result<(), ProjectionError>)
    requires
        ids@.len() == recs@.len(),
        forall|j: int| 0 <= j < recs@.len() ==> (#[trigger] ids@[j])@ == recs@[j].global_id@,
    ensures
        match spec_records_problem(recs@, created_at, recs@.len() as int) {
            Some(p) => r matches Err(e) && e@ == p,
            None => r is Ok,
        },
{
    let mut i: usize = 0;
    while i < recs.len()
        invariant
            i <= recs.len(),
            ids@.len() == recs@.len(),
            forall|j: int| 0 <= j < recs@.len() ==> (#[trigger] ids@[j])@ == recs@[j].global_id@,
            spec_records_problem(recs@, created_at, i as int) is None,
        decreases recs.len() - i,
    {
        match check_record(recs, ids, i, created_at) {
            Ok(()) => {},
            Err(e) => {
                proof {
                    lemma_records_problem_stays(recs@, created_at, i as int + 1, recs@.len() as int);
                }
                return Err(e);
            },
        }
        i += 1;
    }
    Ok(())
}

// ── Relationships ──

/// The index of the first of the first `k` records with this identity, or -1.
pub open spec fn spec_id_index(recs: Seq<Record>, g: Seq<char>, k: int) -> int
    decreases k,
{
    if k <= 0 {
        -1
    } else {
        let p = spec_id_index(recs, g, k - 1);
        if p >= 0 {
            p
        } else if recs[k - 1].global_id@ == g {
            k - 1
        } else {
            -1
        }
    }
}

proof fn lemma_id_index(recs: Seq<Record>, g: Seq<char>, k: int)
    requires
        0 <= k <= recs.len(),
    ensures
        -1 <= spec_id_index(recs, g, k) < k,
        spec_id_index(recs, g, k) >= 0 ==> recs[spec_id_index(recs, g, k)].global_id@ == g,
        spec_id_index(recs, g, k) < 0 <==> !(exists|i: int| 0 <= i < k && #[trigger] recs[i].global_id@ == g),
    decreases k,
{
    if k > 0 {
        lemma_id_index(recs, g, k - 1);
        if spec_id_index(recs, g, k - 1) < 0 && recs[k - 1].global_id@ != g {
            assert forall|i: int| 0 <= i < k implies #[trigger] recs[i].global_id@ != g by {
                if i < k - 1 {
                }
            }
        }
    }
}

/// Some record has this identity.
pub open spec fn spec_has_id(recs: Seq<Record>, g: Seq<char>) -> bool {
    exists|i: int| 0 <= i < recs.len() && #[trigger] recs[i].global_id@ == g
}

/// The identity a link's parts give it.
pub open spec fn spec_link_canonical(l: Link) -> Seq<char> {
    l.source_global_id@ + "--"@ + l.relation@ + "--"@ + l.target_global_id@
}

/// An earlier link has the same identity.
pub open spec fn spec_link_seen(links: Seq<Link>, j: int) -> bool {
    exists|x: int| 0 <= x < j && #[trigger] links[x].link_id@ == links[j].link_id@
}

/// A relation that must not link a todo to itself or form a cycle.
pub open spec fn spec_graph_relation(rel: Seq<char>) -> bool {
    rel == RELATION_PARENT@ || rel == RELATION_DEPENDS_ON@
}

/// Why the link at `j` is refused, if it is.
pub open spec fn spec_link_problem(recs: Seq<Record>, links: Seq<Link>, j: int) -> Option<(ProjectionErrorKind, Seq<char>)> {
    let l = links[j];
    if !spec_has_id(recs, l.source_global_id@) || !spec_has_id(recs, l.target_global_id@) {
        Some((ProjectionErrorKind::Invalid, MSG_ENDPOINT@))
    } else if l.link_id@ != spec_link_canonical(l) || spec_link_seen(links, j) {
        Some((ProjectionErrorKind::Invalid, MSG_LINK_ID@))
    } else if l.created_by@ != TODO_PRODUCER_APP@ {
        Some((ProjectionErrorKind::Invalid, MSG_CREATED_BY@))
    } else if !spec_relationship_allowed(l.relation@, spec_record_kind(l.source_global_id@), spec_record_kind(l.target_global_id@)) {
        Some((ProjectionErrorKind::Invalid, "relationship '"@ + l.relation@ + "' has invalid endpoint kinds or direction"@))
    } else if spec_graph_relation(l.relation@) && l.source_global_id@ == l.target_global_id@ {
        Some((ProjectionErrorKind::Invalid, l.relation@ + " relationship cannot link a todo to itself"@))
    } else {
        None
    }
}

/// The first refused link among the first `k`.
pub open spec fn spec_links_problem(recs: Seq<Record>, links: Seq<Link>, k: int) -> Option<(ProjectionErrorKind, Seq<char>)>
    decreases k,
{
    if k <= 0 {
        None
    } else {
        match spec_links_problem(recs, links, k - 1) {
            Some(p) => Some(p),
            None => spec_link_problem(recs, links, k - 1),
        }
    }
}

proof fn lemma_links_problem_stays(recs: Seq<Record>, links: Seq<Link>, k: int, m: int)
    requires
        0 <= k <= m,
        spec_links_problem(recs, links, k) is Some,
    ensures
        spec_links_problem(recs, links, m) == spec_links_problem(recs, links, k),
    decreases m - k,
{
    if m > k {
        lemma_links_problem_stays(recs, links, k, m - 1);
    }
}

/// The edges of one relation among the first `k` links, as record indices.
pub open spec fn spec_edges(recs: Seq<Record>, links: Seq<Link>, rel: Seq<char>, k: int) -> Seq<(usize, usize)>
    decreases k,
{
    if k <= 0 {
        Seq::empty()
    } else {
        let rest = spec_edges(recs, links, rel, k - 1);
        let l = links[k - 1];
        if l.relation@ == rel {
            rest.push((
                spec_id_index(recs, l.source_global_id@, recs.len() as int) as usize,
                spec_id_index(recs, l.target_global_id@, recs.len() as int) as usize,
            ))
        } else {
            rest
        }
    }
}

fn find_id(ids: &Vec<Vec<char>>, g: &Vec<char>, Ghost(recs): Ghost<Seq<Record>>) -> (r: Option<usize>)
    requires
        ids@.len() == recs.len(),
        forall|j: int| 0 <= j < recs.len() ==> (#[trigger] ids@[j])@ == recs[j].global_id@,
    ensures
        match r {
            Some(i) => i as int == spec_id_index(recs, g@, recs.len() as int) && i < recs.len(),
            None => spec_id_index(recs, g@, recs.len() as int) == -1,
        },
        r is Some <==> spec_has_id(recs, g@),
{
    proof {
        lemma_id_index(recs, g@, recs.len() as int);
    }
    let mut i: usize = 0;
    while i < ids.len()
        invariant
            i <= ids@.len(),
            ids@.len() == recs.len(),
            forall|j: int| 0 <= j < recs.len() ==> (#[trigger] ids@[j])@ == recs[j].global_id@,
            spec_id_index(recs, g@, i as int) == -1,
        decreases ids.len() - i,
    {
        if chars_eq(ids[i].as_slice(), g.as_slice()) {
            proof {
                lemma_id_index_prefix(recs, g@, i as int + 1, recs.len() as int);
            }
            return Some(i);
        }
        i += 1;
    }
    None
}

proof fn lemma_id_index_prefix(recs: Seq<Record>, g: Seq<char>, k: int, m: int)
    requires
        0 <= k <= m,
        spec_id_index(recs, g, k) >= 0,
    ensures
        spec_id_index(recs, g, m) == spec_id_index(recs, g, k),
    decreases m - k,
{
    if m > k {
        lemma_id_index_prefix(recs, g, k, m - 1);
    }
}

fn is_graph_relation(rel: &String) -> (r: bool)
    ensures
        r == spec_graph_relation(rel@),
{
    text_is(rel, RELATION_PARENT) || text_is(rel, RELATION_DEPENDS_ON)
}

fn check_link(recs: &Vec<Record>, ids: &Vec<Vec<char>>, links: &Vec<Link>, j: usize) -> (r: Result<(), ProjectionError>)
    requires
        j < links@.len(),
        ids@.len() == recs@.len(),
        forall|x: int| 0 <= x < recs@.len() ==> (#[trigger] ids@[x])@ == recs@[x].global_id@,
    ensures
        match spec_link_problem(recs@, links@, j as int) {
            Some(p) => r matches Err(e) && e@ == p,
            None => r is Ok,
        },
{
    let link = &links[j];
    let source = chars_of(link.source_global_id.as_str());
    let target = chars_of(link.target_global_id.as_str());
    if find_id(ids, &source, Ghost(recs@)).is_none() || find_id(ids, &target, Ghost(recs@)).is_none() {
        return Err(ProjectionError::Invalid(owned(MSG_ENDPOINT)));
    }
    let mut expected: Vec<char> = Vec::new();
    push_str_chars(&mut expected, link.source_global_id.as_str());
    push_str_chars(&mut expected, "--");
    push_str_chars(&mut expected, link.relation.as_str());
    push_str_chars(&mut expected, "--");
    push_str_chars(&mut expected, link.target_global_id.as_str());
    let own = chars_of(link.link_id.as_str());
    let mut seen = false;
    let mut x: usize = 0;
    while x < j
        invariant
            j < links@.len(),
            x <= j,
            own@ == links@[j as int].link_id@,
            seen == exists|y: int| 0 <= y < x && #[trigger] links@[y].link_id@ == links@[j as int].link_id@,
        decreases j - x,
    {
        let other = chars_of(links[x].link_id.as_str());
        if chars_eq(other.as_slice(), own.as_slice()) {
            seen = true;
        }
        proof {
            if seen && !(links@[x as int].link_id@ == links@[j as int].link_id@) {
                let y = choose|y: int| 0 <= y < x && #[trigger] links@[y].link_id@ == links@[j as int].link_id@;
                assert(0 <= y < x + 1);
            }
        }
        x += 1;
    }
    if !chars_eq(own.as_slice(), expected.as_slice()) || seen {
        return Err(ProjectionError::Invalid(owned(MSG_LINK_ID)));
    }
    if !text_is(&link.created_by, TODO_PRODUCER_APP) {
        return Err(ProjectionError::Invalid(owned(MSG_CREATED_BY)));
    }
    let source_kind = record_kind(&source);
    let target_kind = record_kind(&target);
    if !relationship_allowed(&link.relation, &source_kind, &target_kind) {
        return Err(ProjectionError::Invalid(join3("relationship '", link.relation.as_str(), "' has invalid endpoint kinds or direction")));
    }
    if is_graph_relation(&link.relation) && chars_eq(source.as_slice(), target.as_slice()) {
        return Err(ProjectionError::Invalid(join(link.relation.as_str(), " relationship cannot link a todo to itself")));
    }
    Ok(())
}

fn check_links(recs: &Vec<Record>, ids: &Vec<Vec<char>>, links: &Vec<Link>) -> (r: Result<(), ProjectionError>)
    requires
        ids@.len() == recs@.len(),
        forall|x: int| 0 <= x < recs@.len() ==> (#[trigger] ids@[x])@ == recs@[x].global_id@,
    ensures
        match spec_links_problem(recs@, links@, links@.len() as int) {
            Some(p) => r matches Err(e) && e@ == p,
            None => r is Ok,
        },
{
    let mut j: usize = 0;
    while j < links.len()
        invariant
            j <= links.len(),
            ids@.len() == recs@.len(),
            forall|x: int| 0 <= x < recs@.len() ==> (#[trigger] ids@[x])@ == recs@[x].global_id@,
            spec_links_problem(recs@, links@, j as int) is None,
        decreases links.len() - j,
    {
        match check_link(recs, ids, links, j) {
            Ok(()) => {},
            Err(e) => {
                proof {
                    lemma_links_problem_stays(recs@, links@, j as int + 1, links@.len() as int);
                }
                return Err(e);
            },
        }
        j += 1;
    }
    Ok(())
}

/// The edges of one relation, once every link endpoint is known to exist.
fn relation_edges(recs: &Vec<Record>, ids: &Vec<Vec<char>>, links: &Vec<Link>, rel: &str) -> (edges: Vec<(usize, usize)>)
    requires
        ids@.len() == recs@.len(),
        forall|x: int| 0 <= x < recs@.len() ==> (#[trigger] ids@[x])@ == recs@[x].global_id@,
        forall|j: int| 0 <= j < links@.len() ==> spec_has_id(recs@, (#[trigger] links@[j]).source_global_id@)
            && spec_has_id(recs@, links@[j].target_global_id@),
    ensures
        edges@ == spec_edges(recs@, links@, rel@, links@.len() as int),
        forall|i: int| 0 <= i < edges@.len() ==> (#[trigger] edges@[i]).0 < recs@.len() && edges@[i].1 < recs@.len(),
{
    let mut edges: Vec<(usize, usize)> = Vec::new();
    let mut j: usize = 0;
    while j < links.len()
        invariant
            j <= links.len(),
            ids@.len() == recs@.len(),
            forall|x: int| 0 <= x < recs@.len() ==> (#[trigger] ids@[x])@ == recs@[x].global_id@,
            forall|y: int| 0 <= y < links@.len() ==> spec_has_id(recs@, (#[trigger] links@[y]).source_global_id@)
                && spec_has_id(recs@, links@[y].target_global_id@),
            edges@ == spec_edges(recs@, links@, rel@, j as int),
            forall|i: int| 0 <= i < edges@.len() ==> (#[trigger] edges@[i]).0 < recs@.len() && edges@[i].1 < recs@.len(),
        decreases links.len() - j,
    {
        let link = &links[j];
        if text_is(&link.relation, rel) {
            let source = chars_of(link.source_global_id.as_str());
            let target = chars_of(link.target_global_id.as_str());
            let a = find_id(ids, &source, Ghost(recs@));
            let b = find_id(ids, &target, Ghost(recs@));
            match (a, b) {
                (Some(a), Some(b)) => {
                    edges.push((a, b));
                },
                _ => {
                    assert(false);
                },
            }
        }
        j += 1;
    }
    edges
}

/// Why a snapshot is refused, if it is: the envelope, then each record, then
/// each link, then cycles among parents, then among dependencies.
pub open spec fn spec_snapshot_problem(s: Snapshot) -> Option<(ProjectionErrorKind, Seq<char>)> {
    let recs = s.records@;
    let links = s.links@;
    if s.interop_schema@ != INTEROP_SCHEMA@ {
        Some((ProjectionErrorKind::Invalid, "unsupported schema '"@ + s.interop_schema@ + "'"@))
    } else if s.kind@ != SNAPSHOT_KIND@ || s.producer.app@ != TODO_PRODUCER_APP@ {
        Some((ProjectionErrorKind::Invalid, MSG_EXPECTED_PRODUCER@))
    } else if s.producer_revision == 0 {
        Some((ProjectionErrorKind::Invalid, MSG_REVISION_POSITIVE@))
    } else if !s.completeness.complete || s.completeness.expected_records != recs.len()
        || s.completeness.expected_links != links.len() {
        Some((ProjectionErrorKind::Incomplete, MSG_INCOMPLETE@))
    } else if recs.len() > MAX_PROJECTION_RECORDS || links.len() > MAX_PROJECTION_LINKS {
        Some((ProjectionErrorKind::Invalid, MSG_LIMIT@))
    } else if spec_records_problem(recs, s.created_at, recs.len() as int) is Some {
        spec_records_problem(recs, s.created_at, recs.len() as int)
    } else if spec_links_problem(recs, links, links.len() as int) is Some {
        spec_links_problem(recs, links, links.len() as int)
    } else if !spec_acyclic(spec_edges(recs, links, RELATION_PARENT@, links.len() as int)) {
        Some((ProjectionErrorKind::Invalid, RELATION_PARENT@ + " relationships contain a cycle"@))
    } else if !spec_acyclic(spec_edges(recs, links, RELATION_DEPENDS_ON@, links.len() as int)) {
        Some((ProjectionErrorKind::Invalid, RELATION_DEPENDS_ON@ + " relationships contain a cycle"@))
    } else {
        None
    }
}

proof fn lemma_no_link_problem(recs: Seq<Record>, links: Seq<Link>, k: int, j: int)
    requires
        0 <= j < k,
        spec_links_problem(recs, links, k) is None,
    ensures
        spec_link_problem(recs, links, j) is None,
    decreases k,
{
    if k - 1 > j {
        lemma_no_link_problem(recs, links, k - 1, j);
    }
}

/// Check a snapshot against every rule of the projection boundary.
pub fn check_snapshot(snapshot: &Snapshot) -> (r: Result<(), ProjectionError>)
    ensures
        match spec_snapshot_problem(*snapshot) {
            Some(p) => r matches Err(e) && e@ == p,
            None => r is Ok,
        },
{
    if !text_is(&snapshot.interop_schema, INTEROP_SCHEMA) {
        return Err(ProjectionError::Invalid(join3("unsupported schema '", snapshot.interop_schema.as_str(), "'")));
    }
    if !text_is(&snapshot.kind, SNAPSHOT_KIND) || !text_is(&snapshot.producer.app, TODO_PRODUCER_APP) {
        return Err(ProjectionError::Invalid(owned(MSG_EXPECTED_PRODUCER)));
    }
    if snapshot.producer_revision == 0 {
        return Err(ProjectionError::Invalid(owned(MSG_REVISION_POSITIVE)));
    }
    if !snapshot.completeness.complete || snapshot.completeness.expected_records != snapshot.records.len()
        || snapshot.completeness.expected_links != snapshot.links.len() {
        return Err(ProjectionError::Incomplete(owned(MSG_INCOMPLETE)));
    }
    if snapshot.records.len() > MAX_PROJECTION_RECORDS || snapshot.links.len() > MAX_PROJECTION_LINKS {
        return Err(ProjectionError::Invalid(owned(MSG_LIMIT)));
    }
    let ids = record_ids(&snapshot.records);
    check_records(&snapshot.records, &ids, snapshot.created_at)?;
    check_links(&snapshot.records, &ids, &snapshot.links)?;
    proof {
        assert forall|j: int| 0 <= j < snapshot.links@.len() implies spec_has_id(snapshot.records@, (#[trigger] snapshot.links@[j]).source_global_id@)
            && spec_has_id(snapshot.records@, snapshot.links@[j].target_global_id@) by {
            lemma_no_link_problem(snapshot.records@, snapshot.links@, snapshot.links@.len() as int, j);
        }
    }
    let parents = relation_edges(&snapshot.records, &ids, &snapshot.links, RELATION_PARENT);
    if has_cycle(snapshot.records.len(), &parents) {
        return Err(ProjectionError::Invalid(join(RELATION_PARENT, " relationships contain a cycle")));
    }
    let dependencies = relation_edges(&snapshot.records, &ids, &snapshot.links, RELATION_DEPENDS_ON);
    if has_cycle(snapshot.records.len(), &dependencies) {
        return Err(ProjectionError::Invalid(join(RELATION_DEPENDS_ON, " relationships contain a cycle")));
    }
    Ok(())
}

// ── Content revision ──

/// The SHA-256 digest of some bytes.
pub uninterp spec fn spec_sha256(bytes: Seq<u8>) -> Seq<u8>;

/// Calls `sha2::Sha256::digest`: the named digest, which is 32 bytes long.
#[verifier::external_body]
pub(crate) fn sha256(bytes: &[u8]) -> (r: Vec<u8>)
    ensures
        r@ == spec_sha256(bytes@),
        r@.len() == 32,
{
    <sha2::Sha256 as sha2::Digest>::digest(bytes).to_vec()
}

/// The lower-case hexadecimal digit of a value below 16.
pub open spec fn spec_hex_digit(n: int) -> char {
    if n < 10 {
        (48 + n) as char
    } else {
        (87 + n) as char
    }
}

/// Two lower-case hexadecimal digits per byte.
pub open spec fn spec_hex(bytes: Seq<u8>) -> Seq<char>
    decreases bytes.len(),
{
    if bytes.len() == 0 {
        Seq::empty()
    } else {
        spec_hex(bytes.drop_last()) + seq![spec_hex_digit(bytes.last() as int / 16), spec_hex_digit(bytes.last() as int % 16)]
    }
}

fn hex_digit(n: u8) -> (c: char)
    requires
        n < 16,
    ensures
        c == spec_hex_digit(n as int),
{
    if n < 10 {
        crate::text::char_from_ascii(48 + n as u32)
    } else {
        crate::text::char_from_ascii(87 + n as u32)
    }
}

/// The lower-case hexadecimal text of some bytes.
pub fn hex_digest(bytes: &[u8]) -> (r: String)
    ensures
        r@ == spec_hex(bytes@),
{
    let mut out: Vec<char> = Vec::new();
    let mut i: usize = 0;
    while i < bytes.len()
        invariant
            i <= bytes.len(),
            out@ == spec_hex(bytes@.subrange(0, i as int)),
        decreases bytes.len() - i,
    {
        let b = bytes[i];
        out.push(hex_digit(b / 16));
        out.push(hex_digit(b % 16));
        assert(bytes@.subrange(0, i + 1).drop_last() =~= bytes@.subrange(0, i as int));
        i += 1;
    }
    assert(bytes@.subrange(0, bytes@.len() as int) =~= bytes@);
    string_of(out.as_slice())
}

// ── Todo payloads ──

pub const MSG_NOT_A_TODO: &'static str = "the payload is not a todo";
pub const MSG_TOO_LARGE: &'static str = "projection exceeds the 16777216-byte limit";

/// Refuse a projection document longer than the limit, before it is parsed.
pub fn check_projection_size(len: u64) -> (r: Result<(), ProjectionError>)
    ensures
        len <= MAX_PROJECTION_BYTES ==> r is Ok,
        len > MAX_PROJECTION_BYTES ==> (r matches Err(ProjectionError::Invalid(m)) && m@ == MSG_TOO_LARGE@),
{
    if len > MAX_PROJECTION_BYTES {
        return Err(ProjectionError::Invalid(owned(MSG_TOO_LARGE)));
    }
    Ok(())
}

pub const MSG_CLOCK: &'static str = "the system clock reads an instant before 1970 or beyond the supported range";
pub const MSG_OUT_OF_RANGE: &'static str = "a date or time lies outside the supported range";
pub const MSG_IN_FUTURE: &'static str = "projection created_at is in the future";
pub const MSG_TOO_OLD: &'static str = "projection is older than the 24-hour agenda freshness limit";
pub const MSG_SKEW: &'static str = "projection created_at exceeds the five-minute import clock-skew limit";

/// The text a refused reminder list is shown with.
pub open spec fn spec_reminder_refusal_message(has_due: bool, s: Seq<TodoReminder>) -> Seq<char> {
    if s.len() > 0 && !has_due {
        "reminders require a due value"@
    } else if spec_reminder_fault(s, s.len() as int) == Some(true) {
        "reminder offset must be between 1 and 10080 minutes"@
    } else {
        "stored reminder data is invalid: "@ + DUPLICATE_REMINDER@
    }
}

/// A lifecycle an agenda knows how to show.
pub open spec fn spec_agenda_state_known(state: Seq<char>) -> bool {
    state == "active"@ || state == "trashed"@ || state == "deleted"@ || state == "tombstoned"@
}

/// A lifecycle an agenda shows.
pub open spec fn spec_agenda_state_visible(state: Seq<char>) -> bool {
    state == "active"@ || state == "trashed"@
}

/// Every field of `a` is that of `b`, lists compared by their items, but the version.
pub open spec fn spec_todo_like(a: Todo, b: Todo) -> bool {
    &&& a.id == b.id
    &&& a.title == b.title
    &&& a.due == b.due
    &&& a.recurrence == b.recurrence
    &&& a.reminders@ == b.reminders@
    &&& a.priority == b.priority
    &&& a.project_id == b.project_id
    &&& a.tag_ids@ == b.tag_ids@
    &&& a.dependency_ids@ == b.dependency_ids@
    &&& a.notes == b.notes
    &&& a.parent_id == b.parent_id
    &&& a.completed_at == b.completed_at
    &&& a.trashed_at == b.trashed_at
    &&& a.created_at == b.created_at
    &&& a.updated_at == b.updated_at
}

/// What a todo record gives: its payload todo checked against the record
/// and against the todo rules, and whether the agenda shows it.
pub open spec fn spec_payload_problem(r: Record) -> Option<(ProjectionErrorKind, Seq<char>)> {
    let g = r.global_id@;
    match r.payload.reading {
        PayloadReading::Unreadable(m) => Some((ProjectionErrorKind::Invalid, "todo payload for "@ + g + " is invalid: "@ + m@)),
        PayloadReading::Other => Some((ProjectionErrorKind::Invalid, "todo payload for "@ + g + " is invalid: "@ + MSG_NOT_A_TODO@)),
        PayloadReading::Todo(t) => if !t.wf() {
            Some((ProjectionErrorKind::Invalid, "todo payload for "@ + g + " is invalid: "@ + MSG_OUT_OF_RANGE@))
        } else if r.origin.local_id@ != spec_uuid_text(t.id.value) {
            Some((ProjectionErrorKind::Conflict, "todo payload identity disagrees with "@ + g))
        } else if r.revision != t.version {
            Some((ProjectionErrorKind::Stale, "record and payload revision disagree for "@ + g))
        } else if r.observed_at != t.updated_at {
            Some((ProjectionErrorKind::Stale, "record observation and payload update disagree for "@ + g))
        } else if r.lifecycle.trashed_at != t.trashed_at {
            Some((ProjectionErrorKind::Conflict, "record lifecycle and payload disagree for "@ + g))
        } else if !spec_agenda_state_known(r.lifecycle.state@) {
            Some((ProjectionErrorKind::Conflict, "todo "@ + g + " has unsupported agenda lifecycle "@ + r.lifecycle.state@))
        } else {
            match spec_todo_precheck(t) {
                Some(e) => Some((ProjectionErrorKind::Invalid, "todo payload for "@ + g + " failed domain validation: "@ + spec_todo_error_message(e))),
                None => if !spec_reminders_ok(t.due is Some, t.reminders@) {
                    Some((ProjectionErrorKind::Invalid, "todo payload for "@ + g + " failed domain validation: "@
                        + spec_reminder_refusal_message(t.due is Some, t.reminders@)))
                } else {
                    None
                },
            }
        },
    }
}

proof fn lemma_refusal_message(has_due: bool, s: Seq<TodoReminder>, e: TodoError)
    requires
        !spec_reminders_ok(has_due, s),
        spec_reminders_refusal(has_due, s, e),
    ensures
        spec_todo_error_message(e) == spec_reminder_refusal_message(has_due, s),
{
}

fn message2(a: &str, b: &str, c: &str, d: &str) -> (m: String)
    ensures
        m@ == a@ + b@ + c@ + d@,
{
    let mut out: Vec<char> = Vec::new();
    push_str_chars(&mut out, a);
    push_str_chars(&mut out, b);
    push_str_chars(&mut out, c);
    push_str_chars(&mut out, d);
    string_of(out.as_slice())
}

/// Check one todo record's payload; the checked todo and whether it shows.
fn read_todo_record(r: &Record) -> (out: Result<(Todo, bool), ProjectionError>)
    ensures
        match spec_payload_problem(*r) {
            Some(p) => out matches Err(e) && e@ == p,
            None => out matches Ok((t, visible)) && r.payload.reading matches PayloadReading::Todo(base)
                && spec_todo_like(t, base) && t.version == (if base.version < 1 { 1 } else { base.version })
                && visible == spec_agenda_state_visible(r.lifecycle.state@),
        },
{
    let g = r.global_id.as_str();
    let base = match &r.payload.reading {
        PayloadReading::Unreadable(m) => return Err(ProjectionError::Invalid(message2("todo payload for ", g, " is invalid: ", m.as_str()))),
        PayloadReading::Other => return Err(ProjectionError::Invalid(message2("todo payload for ", g, " is invalid: ", MSG_NOT_A_TODO))),
        PayloadReading::Todo(t) => t,
    };
    if !todo_in_range(base) {
        return Err(ProjectionError::Invalid(message2("todo payload for ", g, " is invalid: ", MSG_OUT_OF_RANGE)));
    }
    let id_text = base.id.to_text();
    if !text_is(&r.origin.local_id, id_text.as_str()) {
        return Err(ProjectionError::Conflict(join("todo payload identity disagrees with ", g)));
    }
    if r.revision != base.version {
        return Err(ProjectionError::Stale(join("record and payload revision disagree for ", g)));
    }
    if !r.observed_at.same_instant(&base.updated_at) {
        return Err(ProjectionError::Stale(join("record observation and payload update disagree for ", g)));
    }
    let trashed_same = match (r.lifecycle.trashed_at, base.trashed_at) {
        (Some(a), Some(b)) => a.same_instant(&b),
        (None, None) => true,
        _ => false,
    };
    if !trashed_same {
        return Err(ProjectionError::Conflict(join("record lifecycle and payload disagree for ", g)));
    }
    let state = &r.lifecycle.state;
    let visible = if text_is(state, "active") || text_is(state, "trashed") {
        true
    } else if text_is(state, "deleted") || text_is(state, "tombstoned") {
        false
    } else {
        return Err(ProjectionError::Conflict(message2("todo ", g, " has unsupported agenda lifecycle ", state.as_str())));
    };
    let copy = base.copy();
    match copy.rehydrate() {
        Ok(t) => Ok((t, visible)),
        Err(e) => {
            proof {
                if spec_todo_precheck(*base) is None {
                    lemma_refusal_message(base.due is Some, base.reminders@, e);
                }
            }
            Err(ProjectionError::Invalid(message2("todo payload for ", g, " failed domain validation: ", e.message().as_str())))
        },
    }
}

fn todo_in_range(t: &Todo) -> (r: bool)
    ensures
        r == t.wf(),
{
    let due_ok = match &t.due {
        Some(TodoDue::Date { date, .. }) => date.is_in_range(),
        Some(TodoDue::Timed { at, .. }) => at.is_well_formed(),
        None => true,
    };
    due_ok && t.created_at.is_in_range() && t.updated_at.is_in_range()
}

// ── Todo records in order ──

/// The todo records among the first `k` records, in order.
pub open spec fn spec_todo_records(recs: Seq<Record>, k: int) -> Seq<Record>
    decreases k,
{
    if k <= 0 {
        Seq::empty()
    } else if recs[k - 1].origin.kind@ == "todo"@ {
        spec_todo_records(recs, k - 1).push(recs[k - 1])
    } else {
        spec_todo_records(recs, k - 1)
    }
}

/// The first refused todo payload among the first `k` records.
pub open spec fn spec_payloads_problem(recs: Seq<Record>, k: int) -> Option<(ProjectionErrorKind, Seq<char>)>
    decreases k,
{
    if k <= 0 {
        None
    } else {
        match spec_payloads_problem(recs, k - 1) {
            Some(p) => Some(p),
            None => if recs[k - 1].origin.kind@ == "todo"@ {
                spec_payload_problem(recs[k - 1])
            } else {
                None
            },
        }
    }
}

proof fn lemma_payloads_problem_stays(recs: Seq<Record>, k: int, m: int)
    requires
        0 <= k <= m,
        spec_payloads_problem(recs, k) is Some,
    ensures
        spec_payloads_problem(recs, m) == spec_payloads_problem(recs, k),
    decreases m - k,
{
    if m > k {
        lemma_payloads_problem_stays(recs, k, m - 1);
    }
}

/// The checked todos of the todo records, whether each shows, and their identities.
pub open spec fn spec_read_todos(recs: Seq<Record>, todos: Seq<Todo>, visible: Seq<bool>, gids: Seq<Vec<char>>) -> bool {
    let tr = spec_todo_records(recs, recs.len() as int);
    &&& todos.len() == tr.len()
    &&& visible.len() == tr.len()
    &&& gids.len() == tr.len()
    &&& forall|m: int| 0 <= m < tr.len() ==> spec_todo_entry(#[trigger] tr[m], todos[m], visible[m], gids[m]@)
}

/// A todo record and what reading it gave.
pub open spec fn spec_todo_entry(r: Record, t: Todo, visible: bool, gid: Seq<char>) -> bool {
    &&& r.payload.reading matches PayloadReading::Todo(base) && spec_todo_like(t, base)
        && t.version == (if base.version < 1 { 1 } else { base.version })
    &&& visible == spec_agenda_state_visible(r.lifecycle.state@)
    &&& gid == r.global_id@
    &&& t.wf()
}

fn read_todos(recs: &Vec<Record>) -> (out: Result<(Vec<Todo>, Vec<bool>, Vec<Vec<char>>), ProjectionError>)
    ensures
        match spec_payloads_problem(recs@, recs@.len() as int) {
            Some(p) => out matches Err(e) && e@ == p,
            None => out matches Ok((todos, visible, gids)) && spec_read_todos(recs@, todos@, visible@, gids@),
        },
{
    let mut todos: Vec<Todo> = Vec::new();
    let mut visible: Vec<bool> = Vec::new();
    let mut gids: Vec<Vec<char>> = Vec::new();
    let mut i: usize = 0;
    while i < recs.len()
        invariant
            i <= recs.len(),
            spec_payloads_problem(recs@, i as int) is None,
            ({
                let tr = spec_todo_records(recs@, i as int);
                &&& todos@.len() == tr.len()
                &&& visible@.len() == tr.len()
                &&& gids@.len() == tr.len()
                &&& forall|m: int| 0 <= m < tr.len() ==> spec_todo_entry(#[trigger] tr[m], todos@[m], visible@[m], gids@[m]@)
            }),
        decreases recs.len() - i,
    {
        let record = &recs[i];
        if text_is(&record.origin.kind, "todo") {
            match read_todo_record(record) {
                Ok((t, v)) => {
                    todos.push(t);
                    visible.push(v);
                    gids.push(chars_of(record.global_id.as_str()));
                },
                Err(e) => {
                    proof {
                        lemma_payloads_problem_stays(recs@, i as int + 1, recs@.len() as int);
                    }
                    return Err(e);
                },
            }
        }
        i += 1;
    }
    Ok((todos, visible, gids))
}

// ── Relationships onto todos ──

pub const TODO_GLOBAL_PREFIX: &'static str = "mg-remindr:todo:";
pub const PROJECT_GLOBAL_PREFIX: &'static str = "mg-remindr:project:";
pub const TAG_GLOBAL_PREFIX: &'static str = "mg-remindr:tag:";

/// Parents, projects, dependencies and tags the links give each todo, by position.
pub type RelationView = (Seq<Option<TodoId>>, Seq<Option<ProjectId>>, Seq<Seq<TodoId>>, Seq<Seq<TagId>>);

/// The position of the first todo with this identity, or -1.
pub open spec fn spec_todo_pos(gids: Seq<Seq<char>>, g: Seq<char>, k: int) -> int
    decreases k,
{
    if k <= 0 {
        -1
    } else {
        let p = spec_todo_pos(gids, g, k - 1);
        if p >= 0 {
            p
        } else if gids[k - 1] == g {
            k - 1
        } else {
            -1
        }
    }
}

proof fn lemma_todo_pos(gids: Seq<Seq<char>>, g: Seq<char>, k: int)
    requires
        0 <= k <= gids.len(),
    ensures
        -1 <= spec_todo_pos(gids, g, k) < k,
    decreases k,
{
    if k > 0 {
        lemma_todo_pos(gids, g, k - 1);
    }
}

proof fn lemma_todo_pos_prefix(gids: Seq<Seq<char>>, g: Seq<char>, k: int, m: int)
    requires
        0 <= k <= m,
        spec_todo_pos(gids, g, k) >= 0,
    ensures
        spec_todo_pos(gids, g, m) == spec_todo_pos(gids, g, k),
    decreases m - k,
{
    if m > k {
        lemma_todo_pos_prefix(gids, g, k, m - 1);
    }
}

/// The text after a prefix, when the text starts with it.
pub open spec fn spec_strip(g: Seq<char>, prefix: Seq<char>) -> Option<Seq<char>> {
    if prefix.len() <= g.len() && g.subrange(0, prefix.len() as int) == prefix {
        Some(g.subrange(prefix.len() as int, g.len() as int))
    } else {
        None
    }
}

/// The todo a global identity names, or why it names none.
pub open spec fn spec_todo_from_global(g: Seq<char>) -> Result<TodoId, Seq<char>> {
    match spec_strip(g, TODO_GLOBAL_PREFIX@) {
        None => Err("relationship endpoint is not an mg-remindr todo: "@ + g),
        Some(rest) => match spec_uuid_parse(rest) {
            Some(v) => Ok(TodoId { value: v }),
            None => Err("relationship endpoint has an invalid todo identity: "@ + g),
        },
    }
}

/// The value a prefixed global identity names.
pub open spec fn spec_value_from_global(g: Seq<char>, prefix: Seq<char>) -> Option<u128> {
    match spec_strip(g, prefix) {
        None => None,
        Some(rest) => spec_uuid_parse(rest),
    }
}

pub open spec fn spec_unavailable(g: Seq<char>) -> (ProjectionErrorKind, Seq<char>) {
    (ProjectionErrorKind::Conflict, "relationship references unavailable agenda todo "@ + g)
}

pub open spec fn spec_identity_conflict(l: Link) -> (ProjectionErrorKind, Seq<char>) {
    (ProjectionErrorKind::Conflict, "relationship "@ + l.link_id@ + " has an invalid agenda identity"@)
}

/// What one link adds to the relations of the todos.
pub open spec fn spec_link_step(gids: Seq<Seq<char>>, st: RelationView, l: Link) -> Result<RelationView, (ProjectionErrorKind, Seq<char>)> {
    let n = gids.len() as int;
    let src = l.source_global_id@;
    let tgt = l.target_global_id@;
    if l.relation@ == RELATION_PARENT@ {
        let child = spec_todo_pos(gids, tgt, n);
        if child < 0 {
            Err(spec_unavailable(tgt))
        } else {
            match spec_todo_from_global(src) {
                Err(m) => Err((ProjectionErrorKind::Conflict, m)),
                Ok(parent) => if st.0[child] is Some {
                    Err((ProjectionErrorKind::Conflict, "multiple parent relationships target "@ + tgt))
                } else {
                    Ok((st.0.update(child, Some(parent)), st.1, st.2, st.3))
                },
            }
        }
    } else if l.relation@ == RELATION_DEPENDS_ON@ {
        let dependent = spec_todo_pos(gids, src, n);
        if dependent < 0 {
            Err(spec_unavailable(src))
        } else {
            match spec_todo_from_global(tgt) {
                Err(m) => Err((ProjectionErrorKind::Conflict, m)),
                Ok(id) => Ok((st.0, st.1, st.2.update(dependent, st.2[dependent].push(id)), st.3)),
            }
        }
    } else if l.relation@ == RELATION_PROJECT@ {
        let todo = spec_todo_pos(gids, tgt, n);
        if todo < 0 {
            Err(spec_unavailable(tgt))
        } else {
            match spec_value_from_global(src, PROJECT_GLOBAL_PREFIX@) {
                None => Err(spec_identity_conflict(l)),
                Some(v) => if st.1[todo] is Some {
                    Err((ProjectionErrorKind::Conflict, "multiple project relationships target "@ + tgt))
                } else {
                    Ok((st.0, st.1.update(todo, Some(ProjectId { value: v })), st.2, st.3))
                },
            }
        }
    } else if l.relation@ == RELATION_TAGGED@ {
        let todo = spec_todo_pos(gids, src, n);
        if todo < 0 {
            Err(spec_unavailable(src))
        } else {
            match spec_value_from_global(tgt, TAG_GLOBAL_PREFIX@) {
                None => Err(spec_identity_conflict(l)),
                Some(v) => Ok((st.0, st.1, st.2, st.3.update(todo, st.3[todo].push(TagId { value: v })))),
            }
        }
    } else {
        Ok(st)
    }
}

/// The relations before any link: nothing for each of `n` todos.
pub open spec fn spec_no_relations(n: int) -> RelationView {
    (
        Seq::new(n as nat, |i: int| None),
        Seq::new(n as nat, |i: int| None),
        Seq::new(n as nat, |i: int| Seq::empty()),
        Seq::new(n as nat, |i: int| Seq::empty()),
    )
}

/// The relations the first `k` links give.
pub open spec fn spec_relations(gids: Seq<Seq<char>>, links: Seq<Link>, k: int) -> Result<RelationView, (ProjectionErrorKind, Seq<char>)>
    decreases k,
{
    if k <= 0 {
        Ok(spec_no_relations(gids.len() as int))
    } else {
        match spec_relations(gids, links, k - 1) {
            Err(p) => Err(p),
            Ok(st) => spec_link_step(gids, st, links[k - 1]),
        }
    }
}

proof fn lemma_relations_err_stays(gids: Seq<Seq<char>>, links: Seq<Link>, k: int, m: int)
    requires
        0 <= k <= m,
        spec_relations(gids, links, k) is Err,
    ensures
        spec_relations(gids, links, m) == spec_relations(gids, links, k),
    decreases m - k,
{
    if m > k {
        lemma_relations_err_stays(gids, links, k, m - 1);
    }
}

fn strip_chars(g: &Vec<char>, prefix: &str) -> (r: Option<String>)
    ensures
        match spec_strip(g@, prefix@) {
            Some(rest) => r matches Some(s) && s@ == rest,
            None => r is None,
        },
{
    let p = chars_of(prefix);
    if !starts_with(g.as_slice(), p.as_slice()) {
        return None;
    }
    let mut rest: Vec<char> = Vec::new();
    let mut i: usize = p.len();
    while i < g.len()
        invariant
            p@.len() <= i <= g@.len(),
            rest@ == g@.subrange(p@.len() as int, i as int),
        decreases g.len() - i,
    {
        rest.push(g[i]);
        assert(g@.subrange(p@.len() as int, i + 1) =~= g@.subrange(p@.len() as int, i as int).push(g@[i as int]));
        i += 1;
    }
    Some(string_of(rest.as_slice()))
}

fn todo_from_global(g: &Vec<char>) -> (r: Result<TodoId, ProjectionError>)
    ensures
        match spec_todo_from_global(g@) {
            Ok(id) => r == Ok::<TodoId, ProjectionError>(id),
            Err(m) => r matches Err(e) && e@ == (ProjectionErrorKind::Conflict, m),
        },
{
    let text = string_of(g.as_slice());
    match strip_chars(g, TODO_GLOBAL_PREFIX) {
        None => Err(ProjectionError::Conflict(join("relationship endpoint is not an mg-remindr todo: ", text.as_str()))),
        Some(rest) => match uuid_parse(rest.as_str()) {
            Ok(v) => Ok(TodoId { value: v }),
            Err(_) => Err(ProjectionError::Conflict(join("relationship endpoint has an invalid todo identity: ", text.as_str()))),
        },
    }
}

fn value_from_global(g: &Vec<char>, prefix: &str) -> (r: Option<u128>)
    ensures
        r == spec_value_from_global(g@, prefix@),
{
    match strip_chars(g, prefix) {
        None => None,
        Some(rest) => match uuid_parse(rest.as_str()) {
            Ok(v) => Some(v),
            Err(_) => None,
        },
    }
}

fn todo_pos(gids: &Vec<Vec<char>>, g: &Vec<char>) -> (r: Option<usize>)
    ensures
        match r {
            Some(i) => i as int == spec_todo_pos(gids@.map_values(|v: Vec<char>| v@), g@, gids@.len() as int) && i < gids@.len(),
            None => spec_todo_pos(gids@.map_values(|v: Vec<char>| v@), g@, gids@.len() as int) == -1,
        },
{
    let ghost views = gids@.map_values(|v: Vec<char>| v@);
    let mut i: usize = 0;
    while i < gids.len()
        invariant
            i <= gids@.len(),
            views == gids@.map_values(|v: Vec<char>| v@),
            spec_todo_pos(views, g@, i as int) == -1,
        decreases gids.len() - i,
    {
        if chars_eq(gids[i].as_slice(), g.as_slice()) {
            proof {
                assert(views[i as int] == g@);
                lemma_todo_pos_prefix(views, g@, i as int + 1, gids@.len() as int);
            }
            return Some(i);
        }
        i += 1;
    }
    None
}

fn unavailable(g: &Vec<char>) -> (e: ProjectionError)
    ensures
        e@ == spec_unavailable(g@),
{
    let text = string_of(g.as_slice());
    ProjectionError::Conflict(join("relationship references unavailable agenda todo ", text.as_str()))
}

fn identity_conflict(l: &Link) -> (e: ProjectionError)
    ensures
        e@ == spec_identity_conflict(*l),
{
    ProjectionError::Conflict(join3("relationship ", l.link_id.as_str(), " has an invalid agenda identity"))
}

/// The relations as their parts hold them.
pub open spec fn spec_relation_parts(
    parents: Seq<Option<TodoId>>,
    projects: Seq<Option<ProjectId>>,
    deps: Seq<Vec<TodoId>>,
    tags: Seq<Vec<TagId>>,
) -> RelationView {
    (parents, projects, deps.map_values(|v: Vec<TodoId>| v@), tags.map_values(|v: Vec<TagId>| v@))
}

fn gather_relations(gids: &Vec<Vec<char>>, links: &Vec<Link>) -> (r: Result<(Vec<Option<TodoId>>, Vec<Option<ProjectId>>, Vec<Vec<TodoId>>, Vec<Vec<TagId>>), ProjectionError>)
    ensures
        match spec_relations(gids@.map_values(|v: Vec<char>| v@), links@, links@.len() as int) {
            Err(p) => r matches Err(e) && e@ == p,
            Ok(st) => r matches Ok((a, b, c, d)) && spec_relation_parts(a@, b@, c@, d@) == st
                && a@.len() == gids@.len() && b@.len() == gids@.len() && c@.len() == gids@.len() && d@.len() == gids@.len(),
        },
{
    let ghost views = gids@.map_values(|v: Vec<char>| v@);
    let n = gids.len();
    let mut parents: Vec<Option<TodoId>> = Vec::new();
    let mut projects: Vec<Option<ProjectId>> = Vec::new();
    let mut deps: Vec<Vec<TodoId>> = Vec::new();
    let mut tags: Vec<Vec<TagId>> = Vec::new();
    let mut k: usize = 0;
    while k < n
        invariant
            k <= n,
            n == gids@.len(),
            parents@.len() == k,
            projects@.len() == k,
            deps@.len() == k,
            tags@.len() == k,
            forall|i: int| 0 <= i < k ==> (#[trigger] parents@[i]) is None,
            forall|i: int| 0 <= i < k ==> (#[trigger] projects@[i]) is None,
            forall|i: int| 0 <= i < k ==> (#[trigger] deps@[i])@.len() == 0,
            forall|i: int| 0 <= i < k ==> (#[trigger] tags@[i])@.len() == 0,
        decreases n - k,
    {
        parents.push(None);
        projects.push(None);
        deps.push(Vec::new());
        tags.push(Vec::new());
        k += 1;
    }
    proof {
        let none = spec_no_relations(views.len() as int);
        assert(parents@ =~= none.0);
        assert(projects@ =~= none.1);
        assert(deps@.map_values(|v: Vec<TodoId>| v@) =~= none.2) by {
            assert forall|i: int| 0 <= i < n implies deps@.map_values(|v: Vec<TodoId>| v@)[i] =~= none.2[i] by {
                assert(deps@[i]@.len() == 0);
            }
        }
        assert(tags@.map_values(|v: Vec<TagId>| v@) =~= none.3) by {
            assert forall|i: int| 0 <= i < n implies tags@.map_values(|v: Vec<TagId>| v@)[i] =~= none.3[i] by {
                assert(tags@[i]@.len() == 0);
            }
        }
    }
    let mut j: usize = 0;
    while j < links.len()
        invariant
            j <= links.len(),
            n == gids@.len(),
            views == gids@.map_values(|v: Vec<char>| v@),
            parents@.len() == n,
            projects@.len() == n,
            deps@.len() == n,
            tags@.len() == n,
            spec_relations(views, links@, j as int) == Ok::<RelationView, (ProjectionErrorKind, Seq<char>)>(
                spec_relation_parts(parents@, projects@, deps@, tags@),
            ),
        decreases links.len() - j,
    {
        let link = &links[j];
        let ghost st = spec_relation_parts(parents@, projects@, deps@, tags@);
        let src = chars_of(link.source_global_id.as_str());
        let tgt = chars_of(link.target_global_id.as_str());
        proof {
            lemma_todo_pos(views, src@, n as int);
            lemma_todo_pos(views, tgt@, n as int);
        }
        if text_is(&link.relation, RELATION_PARENT) {
            let child = match todo_pos(gids, &tgt) {
                Some(c) => c,
                None => {
                    proof { lemma_relations_err_stays(views, links@, j as int + 1, links@.len() as int); }
                    return Err(unavailable(&tgt));
                },
            };
            let parent = match todo_from_global(&src) {
                Ok(p) => p,
                Err(e) => {
                    proof { lemma_relations_err_stays(views, links@, j as int + 1, links@.len() as int); }
                    return Err(e);
                },
            };
            if parents[child].is_some() {
                proof { lemma_relations_err_stays(views, links@, j as int + 1, links@.len() as int); }
                let text = string_of(tgt.as_slice());
                return Err(ProjectionError::Conflict(join("multiple parent relationships target ", text.as_str())));
            }
            parents.set(child, Some(parent));
        } else if text_is(&link.relation, RELATION_DEPENDS_ON) {
            let dependent = match todo_pos(gids, &src) {
                Some(c) => c,
                None => {
                    proof { lemma_relations_err_stays(views, links@, j as int + 1, links@.len() as int); }
                    return Err(unavailable(&src));
                },
            };
            let id = match todo_from_global(&tgt) {
                Ok(p) => p,
                Err(e) => {
                    proof { lemma_relations_err_stays(views, links@, j as int + 1, links@.len() as int); }
                    return Err(e);
                },
            };
            let mut list = crate::todo::copy_vec(&deps[dependent]);
            list.push(id);
            deps.set(dependent, list);
        } else if text_is(&link.relation, RELATION_PROJECT) {
            let todo = match todo_pos(gids, &tgt) {
                Some(c) => c,
                None => {
                    proof { lemma_relations_err_stays(views, links@, j as int + 1, links@.len() as int); }
                    return Err(unavailable(&tgt));
                },
            };
            let value = match value_from_global(&src, PROJECT_GLOBAL_PREFIX) {
                Some(v) => v,
                None => {
                    proof { lemma_relations_err_stays(views, links@, j as int + 1, links@.len() as int); }
                    return Err(identity_conflict(link));
                },
            };
            if projects[todo].is_some() {
                proof { lemma_relations_err_stays(views, links@, j as int + 1, links@.len() as int); }
                let text = string_of(tgt.as_slice());
                return Err(ProjectionError::Conflict(join("multiple project relationships target ", text.as_str())));
            }
            projects.set(todo, Some(ProjectId { value }));
        } else if text_is(&link.relation, RELATION_TAGGED) {
            let todo = match todo_pos(gids, &src) {
                Some(c) => c,
                None => {
                    proof { lemma_relations_err_stays(views, links@, j as int + 1, links@.len() as int); }
                    return Err(unavailable(&src));
                },
            };
            let value = match value_from_global(&tgt, TAG_GLOBAL_PREFIX) {
                Some(v) => v,
                None => {
                    proof { lemma_relations_err_stays(views, links@, j as int + 1, links@.len() as int); }
                    return Err(identity_conflict(link));
                },
            };
            let mut list = crate::todo::copy_vec(&tags[todo]);
            list.push(TagId { value });
            tags.set(todo, list);
        }
        assert(spec_relation_parts(parents@, projects@, deps@, tags@) =~~= spec_link_step(views, st, links@[j as int])->Ok_0);
        j += 1;
    }
    Ok((parents, projects, deps, tags))
}

// ── Payload against relationships ──

pub open spec fn spec_todo_values(s: Seq<TodoId>) -> Seq<u128> {
    s.map_values(|x: TodoId| x.value)
}

pub open spec fn spec_tag_values(s: Seq<TagId>) -> Seq<u128> {
    s.map_values(|x: TagId| x.value)
}

pub open spec fn spec_ascending(s: Seq<u128>) -> bool {
    forall|i: int, j: int| 0 <= i < j < s.len() ==> #[trigger] s[i] <= #[trigger] s[j]
}

/// The payload todo a todo record carries.
pub open spec fn spec_base_todo(r: Record) -> Todo {
    r.payload.reading->Todo_0
}

/// A todo's own relations agree with what the links give it.
pub open spec fn spec_consistent(t: Todo, st: RelationView, i: int) -> bool {
    &&& t.parent_id == st.0[i]
    &&& t.project_id == st.1[i]
    &&& spec_todo_values(t.dependency_ids@).to_multiset() == spec_todo_values(st.2[i]).to_multiset()
    &&& spec_tag_values(t.tag_ids@).to_multiset() == spec_tag_values(st.3[i]).to_multiset()
}

/// The first todo among the first `k` whose relations disagree with the links.
pub open spec fn spec_first_inconsistent(tr: Seq<Record>, st: RelationView, k: int) -> Option<int>
    decreases k,
{
    if k <= 0 {
        None
    } else {
        match spec_first_inconsistent(tr, st, k - 1) {
            Some(i) => Some(i),
            None => if spec_consistent(spec_base_todo(tr[k - 1]), st, k - 1) {
                None
            } else {
                Some(k - 1)
            },
        }
    }
}

proof fn lemma_first_inconsistent_stays(tr: Seq<Record>, st: RelationView, k: int, m: int)
    requires
        0 <= k <= m,
        spec_first_inconsistent(tr, st, k) is Some,
    ensures
        spec_first_inconsistent(tr, st, m) == spec_first_inconsistent(tr, st, k),
    decreases m - k,
{
    if m > k {
        lemma_first_inconsistent_stays(tr, st, k, m - 1);
    }
}

proof fn lemma_all_consistent(tr: Seq<Record>, st: RelationView, k: int, i: int)
    requires
        0 <= i < k,
        spec_first_inconsistent(tr, st, k) is None,
    ensures
        spec_consistent(spec_base_todo(tr[i]), st, i),
    decreases k,
{
    if k - 1 > i {
        lemma_all_consistent(tr, st, k - 1, i);
    }
}

fn sort_values(v: &Vec<u128>) -> (r: Vec<u128>)
    ensures
        spec_ascending(r@),
        r@.to_multiset() == v@.to_multiset(),
{
    broadcast use vstd::seq_lib::group_to_multiset_ensures;

    let mut out: Vec<u128> = Vec::new();
    let mut i: usize = 0;
    while i < v.len()
        invariant
            i <= v.len(),
            spec_ascending(out@),
            out@.to_multiset() == v@.subrange(0, i as int).to_multiset(),
        decreases v.len() - i,
    {
        let x = v[i];
        let mut p: usize = 0;
        while p < out.len() && out[p] <= x
            invariant
                p <= out.len(),
                forall|q: int| 0 <= q < p ==> #[trigger] out@[q] <= x,
            decreases out.len() - p,
        {
            p += 1;
        }
        let ghost before = out@;
        out.insert(p, x);
        proof {
            assert forall|a: int, b: int| 0 <= a < b < out@.len() implies #[trigger] out@[a] <= #[trigger] out@[b] by {
                if b < p {
                } else if a < p && b == p {
                } else if a < p {
                    assert(out@[b] == before[b - 1]);
                    assert(before[a] <= before[b - 1]);
                } else if a == p {
                    assert(out@[b] == before[b - 1]);
                    assert(x < before[p as int]);
                    assert(before[p as int] <= before[b - 1]);
                } else {
                    assert(out@[a] == before[a - 1]);
                    assert(out@[b] == before[b - 1]);
                    assert(before[a - 1] <= before[b - 1]);
                }
            }
            assert(out@ == before.insert(p as int, x));
            vstd::seq_lib::to_multiset_insert(before, p as int, x);
            assert(v@.subrange(0, i + 1) =~= v@.subrange(0, i as int).push(x));
            vstd::seq_lib::to_multiset_build(v@.subrange(0, i as int), x);
        }
        i += 1;
    }
    assert(v@.subrange(0, v@.len() as int) =~= v@);
    out
}

proof fn lemma_ascending_unique(x: Seq<u128>, y: Seq<u128>)
    requires
        spec_ascending(x),
        spec_ascending(y),
        x.to_multiset() == y.to_multiset(),
    ensures
        x == y,
{
    let leq = |a: u128, b: u128| a <= b;
    assert(vstd::relations::sorted_by(x, leq));
    assert(vstd::relations::sorted_by(y, leq));
    assert(vstd::relations::total_ordering(leq));
    vstd::seq_lib::lemma_sorted_unique(x, y, leq);
}

fn same_values(a: &Vec<u128>, b: &Vec<u128>) -> (r: bool)
    ensures
        r == (a@ == b@),
{
    if a.len() != b.len() {
        return false;
    }
    let mut i: usize = 0;
    while i < a.len()
        invariant
            a@.len() == b@.len(),
            i <= a@.len(),
            forall|j: int| 0 <= j < i ==> a@[j] == b@[j],
        decreases a.len() - i,
    {
        if a[i] != b[i] {
            return false;
        }
        i += 1;
    }
    assert(a@ =~= b@);
    true
}

fn todo_values(s: &Vec<TodoId>) -> (r: Vec<u128>)
    ensures
        r@ == spec_todo_values(s@),
{
    let mut out: Vec<u128> = Vec::new();
    let mut i: usize = 0;
    while i < s.len()
        invariant
            i <= s.len(),
            out@ == spec_todo_values(s@.subrange(0, i as int)),
        decreases s.len() - i,
    {
        out.push(s[i].value);
        assert(spec_todo_values(s@.subrange(0, i + 1)) =~= spec_todo_values(s@.subrange(0, i as int)).push(s@[i as int].value));
        i += 1;
    }
    assert(s@.subrange(0, s@.len() as int) =~= s@);
    out
}

fn tag_values(s: &Vec<TagId>) -> (r: Vec<u128>)
    ensures
        r@ == spec_tag_values(s@),
{
    let mut out: Vec<u128> = Vec::new();
    let mut i: usize = 0;
    while i < s.len()
        invariant
            i <= s.len(),
            out@ == spec_tag_values(s@.subrange(0, i as int)),
        decreases s.len() - i,
    {
        out.push(s[i].value);
        assert(spec_tag_values(s@.subrange(0, i + 1)) =~= spec_tag_values(s@.subrange(0, i as int)).push(s@[i as int].value));
        i += 1;
    }
    assert(s@.subrange(0, s@.len() as int) =~= s@);
    out
}

fn todo_ids_of(v: &Vec<u128>) -> (r: Vec<TodoId>)
    ensures
        spec_todo_values(r@) == v@,
{
    let mut out: Vec<TodoId> = Vec::new();
    let mut i: usize = 0;
    while i < v.len()
        invariant
            i <= v.len(),
            spec_todo_values(out@) == v@.subrange(0, i as int),
        decreases v.len() - i,
    {
        let ghost before = out@;
        out.push(TodoId { value: v[i] });
        assert(spec_todo_values(out@) =~= spec_todo_values(before).push(v@[i as int]));
        assert(v@.subrange(0, i + 1) =~= v@.subrange(0, i as int).push(v@[i as int]));
        i += 1;
    }
    assert(v@.subrange(0, v@.len() as int) =~= v@);
    out
}

fn tag_ids_of(v: &Vec<u128>) -> (r: Vec<TagId>)
    ensures
        spec_tag_values(r@) == v@,
{
    let mut out: Vec<TagId> = Vec::new();
    let mut i: usize = 0;
    while i < v.len()
        invariant
            i <= v.len(),
            spec_tag_values(out@) == v@.subrange(0, i as int),
        decreases v.len() - i,
    {
        let ghost before = out@;
        out.push(TagId { value: v[i] });
        assert(spec_tag_values(out@) =~= spec_tag_values(before).push(v@[i as int]));
        assert(v@.subrange(0, i + 1) =~= v@.subrange(0, i as int).push(v@[i as int]));
        i += 1;
    }
    assert(v@.subrange(0, v@.len() as int) =~= v@);
    out
}

/// Whether two id lists hold the same ids, and the link list in ascending order.
fn same_multiset(own: &Vec<u128>, linked: &Vec<u128>) -> (r: (bool, Vec<u128>))
    ensures
        r.0 == (own@.to_multiset() == linked@.to_multiset()),
        spec_ascending(r.1@),
        r.1@.to_multiset() == linked@.to_multiset(),
{
    let a = sort_values(own);
    let b = sort_values(linked);
    let same = same_values(&a, &b);
    proof {
        if own@.to_multiset() == linked@.to_multiset() {
            lemma_ascending_unique(a@, b@);
        }
    }
    (same, b)
}

/// An agenda row: the record's payload todo, checked, with its dependencies
/// and tags as the links give them, in ascending order of identity.
pub open spec fn spec_output_todo(out: Todo, base: Todo, deps: Seq<TodoId>, tags: Seq<TagId>) -> bool {
    &&& out.id == base.id
    &&& out.title == base.title
    &&& out.due == base.due
    &&& out.recurrence == base.recurrence
    &&& out.reminders@ == base.reminders@
    &&& out.priority == base.priority
    &&& out.project_id == base.project_id
    &&& out.notes == base.notes
    &&& out.parent_id == base.parent_id
    &&& out.completed_at == base.completed_at
    &&& out.trashed_at == base.trashed_at
    &&& out.version == (if base.version < 1 { 1 } else { base.version })
    &&& out.created_at == base.created_at
    &&& out.updated_at == base.updated_at
    &&& spec_ascending(spec_todo_values(out.dependency_ids@))
    &&& spec_todo_values(out.dependency_ids@).to_multiset() == spec_todo_values(deps).to_multiset()
    &&& spec_ascending(spec_tag_values(out.tag_ids@))
    &&& spec_tag_values(out.tag_ids@).to_multiset() == spec_tag_values(tags).to_multiset()
}

/// The positions, among the first `k` todo records, of those the agenda shows.
pub open spec fn spec_shown(tr: Seq<Record>, k: int) -> Seq<int>
    decreases k,
{
    if k <= 0 {
        Seq::empty()
    } else if spec_agenda_state_visible(tr[k - 1].lifecycle.state@) {
        spec_shown(tr, k - 1).push(k - 1)
    } else {
        spec_shown(tr, k - 1)
    }
}

/// The agenda rows the shown todo records give, in record order.
pub open spec fn spec_agenda_rows(out: Seq<Todo>, tr: Seq<Record>, st: RelationView, k: int) -> bool {
    let shown = spec_shown(tr, k);
    &&& out.len() == shown.len()
    &&& forall|j: int| 0 <= j < shown.len() ==> spec_output_todo(#[trigger] out[j], spec_base_todo(tr[shown[j]]), st.2[shown[j]], st.3[shown[j]])
}

proof fn lemma_shown_bounds(tr: Seq<Record>, k: int)
    requires
        0 <= k,
    ensures
        forall|j: int| 0 <= j < spec_shown(tr, k).len() ==> 0 <= #[trigger] spec_shown(tr, k)[j] < k,
    decreases k,
{
    if k > 0 {
        lemma_shown_bounds(tr, k - 1);
        assert forall|j: int| 0 <= j < spec_shown(tr, k).len() implies 0 <= #[trigger] spec_shown(tr, k)[j] < k by {
            if j < spec_shown(tr, k - 1).len() {
                assert(spec_shown(tr, k)[j] == spec_shown(tr, k - 1)[j]);
            }
        }
    }
}

fn conflict_for(t: &Todo) -> (e: ProjectionError)
    ensures
        e@ == (ProjectionErrorKind::Conflict, "payload and relationship projection disagree for "@ + TODO_GLOBAL_PREFIX@ + spec_uuid_text(t.id.value)),
{
    let text = t.id.to_text();
    ProjectionError::Conflict(join3("payload and relationship projection disagree for ", TODO_GLOBAL_PREFIX, text.as_str()))
}

/// Hold each todo against its links and build the rows the agenda shows.
fn reconcile(
    Ghost(tr): Ghost<Seq<Record>>,
    todos: &Vec<Todo>,
    visible: &Vec<bool>,
    parents: &Vec<Option<TodoId>>,
    projects: &Vec<Option<ProjectId>>,
    deps: &Vec<Vec<TodoId>>,
    tags: &Vec<Vec<TagId>>,
) -> (r: Result<Vec<Todo>, ProjectionError>)
    requires
        todos@.len() == tr.len(),
        visible@.len() == tr.len(),
        parents@.len() == tr.len(),
        projects@.len() == tr.len(),
        deps@.len() == tr.len(),
        tags@.len() == tr.len(),
        forall|m: int| 0 <= m < tr.len() ==> (#[trigger] tr[m]).payload.reading is Todo
            && spec_todo_like(todos@[m], spec_base_todo(tr[m]))
            && todos@[m].version == (if spec_base_todo(tr[m]).version < 1 { 1 } else { spec_base_todo(tr[m]).version })
            && visible@[m] == spec_agenda_state_visible(tr[m].lifecycle.state@),
    ensures
        ({
            let st = spec_relation_parts(parents@, projects@, deps@, tags@);
            match spec_first_inconsistent(tr, st, tr.len() as int) {
                Some(i) => r matches Err(e) && e@ == (ProjectionErrorKind::Conflict,
                    "payload and relationship projection disagree for "@ + TODO_GLOBAL_PREFIX@ + spec_uuid_text(spec_base_todo(tr[i]).id.value)),
                None => r matches Ok(out) && spec_agenda_rows(out@, tr, st, tr.len() as int),
            }
        }),
{
    let ghost st = spec_relation_parts(parents@, projects@, deps@, tags@);
    let mut out: Vec<Todo> = Vec::new();
    let mut i: usize = 0;
    while i < todos.len()
        invariant
            i <= todos@.len(),
            todos@.len() == tr.len(),
            visible@.len() == tr.len(),
            parents@.len() == tr.len(),
            projects@.len() == tr.len(),
            deps@.len() == tr.len(),
            tags@.len() == tr.len(),
            st == spec_relation_parts(parents@, projects@, deps@, tags@),
            forall|m: int| 0 <= m < tr.len() ==> (#[trigger] tr[m]).payload.reading is Todo
                && spec_todo_like(todos@[m], spec_base_todo(tr[m]))
                && todos@[m].version == (if spec_base_todo(tr[m]).version < 1 { 1 } else { spec_base_todo(tr[m]).version })
                && visible@[m] == spec_agenda_state_visible(tr[m].lifecycle.state@),
            spec_first_inconsistent(tr, st, i as int) is None,
            spec_agenda_rows(out@, tr, st, i as int),
        decreases todos.len() - i,
    {
        let t = &todos[i];
        let own_deps = todo_values(&t.dependency_ids);
        let own_tags = tag_values(&t.tag_ids);
        let linked_deps = todo_values(&deps[i]);
        let linked_tags = tag_values(&tags[i]);
        let (deps_same, sorted_deps) = same_multiset(&own_deps, &linked_deps);
        let (tags_same, sorted_tags) = same_multiset(&own_tags, &linked_tags);
        let parent_same = match (t.parent_id, parents[i]) {
            (Some(a), Some(b)) => a.value == b.value,
            (None, None) => true,
            _ => false,
        };
        let project_same = match (t.project_id, projects[i]) {
            (Some(a), Some(b)) => a.value == b.value,
            (None, None) => true,
            _ => false,
        };
        if !(parent_same && project_same && deps_same && tags_same) {
            proof {
                assert(!spec_consistent(spec_base_todo(tr[i as int]), st, i as int));
                lemma_first_inconsistent_stays(tr, st, i as int + 1, tr.len() as int);
            }
            return Err(conflict_for(t));
        }
        if visible[i] {
            let mut row = t.copy();
            row.dependency_ids = todo_ids_of(&sorted_deps);
            row.tag_ids = tag_ids_of(&sorted_tags);
            out.push(row);
        }
        proof {
            lemma_shown_bounds(tr, i as int);
            assert forall|j: int| 0 <= j < spec_shown(tr, i + 1).len() implies spec_output_todo(#[trigger] out@[j],
                spec_base_todo(tr[spec_shown(tr, i + 1)[j]]), st.2[spec_shown(tr, i + 1)[j]], st.3[spec_shown(tr, i + 1)[j]]) by {
                if j < spec_shown(tr, i as int).len() {
                    assert(spec_shown(tr, i + 1)[j] == spec_shown(tr, i as int)[j]);
                } else {
                    assert(spec_shown(tr, i + 1)[j] == i);
                }
            }
        }
        i += 1;
    }
    Ok(out)
}

// ── The held projection ──

/// A validated projection held by this application.
#[derive(Debug, Clone, PartialEq, Eq)]
pub struct TodoProjectionSnapshot {
    snapshot: Snapshot,
    /// When this copy was last written; not part of the projection itself.
    imported_at: Option<Timestamp>,
}

/// The projection is older than the agenda accepts: more than a day has passed
/// since `taken`.
pub open spec fn spec_too_old(now: Timestamp, taken: Timestamp) -> bool {
    (now.seconds - taken.seconds) * 1_000_000_000 + (now.nanos - taken.nanos) > MAX_AGENDA_PROJECTION_AGE_SECONDS * 1_000_000_000
}

/// The first producer diagnostic that reports less than full coverage.
pub open spec fn spec_degraded(diags: Seq<Diagnostic>, k: int) -> Option<int>
    decreases k,
{
    if k <= 0 {
        None
    } else {
        match spec_degraded(diags, k - 1) {
            Some(i) => Some(i),
            None => if diags[k - 1].severity@ != "info"@ { Some(k - 1) } else { None },
        }
    }
}

/// Why a held projection yields no agenda rows at `now`, if it does not.
pub open spec fn spec_agenda_problem(s: Snapshot, imported_at: Option<Timestamp>, now: Timestamp) -> Option<(ProjectionErrorKind, Seq<char>)> {
    let recs = s.records@;
    let tr = spec_todo_records(recs, recs.len() as int);
    let gids = tr.map_values(|r: Record| r.global_id@);
    let taken = match imported_at {
        Some(t) => t,
        None => s.created_at,
    };
    if spec_snapshot_problem(s) is Some {
        spec_snapshot_problem(s)
    } else if now.spec_lt(s.created_at) {
        Some((ProjectionErrorKind::Invalid, MSG_IN_FUTURE@))
    } else if spec_too_old(now, taken) {
        Some((ProjectionErrorKind::Stale, MSG_TOO_OLD@))
    } else if spec_degraded(s.diagnostics@, s.diagnostics@.len() as int) is Some {
        let d = s.diagnostics@[spec_degraded(s.diagnostics@, s.diagnostics@.len() as int)->Some_0];
        Some((ProjectionErrorKind::Incomplete, "producer diagnostic "@ + d.code@ + " reports "@ + d.severity@ + " coverage"@))
    } else if spec_payloads_problem(recs, recs.len() as int) is Some {
        spec_payloads_problem(recs, recs.len() as int)
    } else {
        match spec_relations(gids, s.links@, s.links@.len() as int) {
            Err(p) => Some(p),
            Ok(st) => match spec_first_inconsistent(tr, st, tr.len() as int) {
                Some(i) => Some((ProjectionErrorKind::Conflict, "payload and relationship projection disagree for "@
                    + TODO_GLOBAL_PREFIX@ + spec_uuid_text(spec_base_todo(tr[i]).id.value))),
                None => None,
            },
        }
    }
}

/// The rows a held projection yields, when it yields any.
pub open spec fn spec_agenda_todos(s: Snapshot, out: Seq<Todo>) -> bool {
    let recs = s.records@;
    let tr = spec_todo_records(recs, recs.len() as int);
    let gids = tr.map_values(|r: Record| r.global_id@);
    spec_relations(gids, s.links@, s.links@.len() as int) matches Ok(st) && spec_agenda_rows(out, tr, st, tr.len() as int)
}

/// The metadata agenda output carries for a projection.
pub open spec fn spec_metadata(s: Snapshot, content_revision: Seq<char>, m: TodoProjectionMetadata) -> bool {
    &&& m.producer@ == s.producer.app@
    &&& m.producer_version@ == s.producer.app_version@
    &&& m.producer_revision == s.producer_revision
    &&& m.source_revision@ == s.source_revision@
    &&& m.content_revision@ == content_revision
    &&& m.created_at == s.created_at
    &&& m.completeness.complete == s.completeness.complete
    &&& m.completeness.record_count == s.records@.len()
    &&& m.completeness.todo_count == spec_todo_records(s.records@, s.records@.len() as int).len()
    &&& m.completeness.link_count == s.links@.len()
    &&& m.completeness.diagnostics@.len() == s.diagnostics@.len()
    &&& forall|i: int| 0 <= i < s.diagnostics@.len() ==> (#[trigger] m.completeness.diagnostics@[i]).severity@ == s.diagnostics@[i].severity@
        && m.completeness.diagnostics@[i].code@ == s.diagnostics@[i].code@
        && m.completeness.diagnostics@[i].message@ == s.diagnostics@[i].message@
}

fn degraded(diags: &Vec<Diagnostic>) -> (r: Option<usize>)
    ensures
        r is Some <==> spec_degraded(diags@, diags@.len() as int) is Some,
        r matches Some(i) ==> spec_degraded(diags@, diags@.len() as int) == Some(i as int) && i < diags@.len(),
{
    let mut i: usize = 0;
    while i < diags.len()
        invariant
            i <= diags.len(),
            spec_degraded(diags@, i as int) is None,
        decreases diags.len() - i,
    {
        if !text_is(&diags[i].severity, "info") {
            proof {
                lemma_degraded_stays(diags@, i as int + 1, diags@.len() as int);
            }
            return Some(i);
        }
        i += 1;
    }
    None
}

proof fn lemma_degraded_stays(diags: Seq<Diagnostic>, k: int, m: int)
    requires
        0 <= k <= m,
        spec_degraded(diags, k) is Some,
    ensures
        spec_degraded(diags, m) == spec_degraded(diags, k),
    decreases m - k,
{
    if m > k {
        lemma_degraded_stays(diags, k, m - 1);
    }
}

fn too_old(now: Timestamp, taken: Timestamp) -> (r: bool)
    ensures
        r == spec_too_old(now, taken),
{
    let seconds: i128 = now.seconds as i128 - taken.seconds as i128;
    let nanos: i128 = now.nanos as i128 - taken.nanos as i128;
    seconds * 1_000_000_000 + nanos > MAX_AGENDA_PROJECTION_AGE_SECONDS as i128 * 1_000_000_000
}

fn count_todo_records(recs: &Vec<Record>) -> (n: usize)
    ensures
        n == spec_todo_records(recs@, recs@.len() as int).len(),
{
    let mut n: usize = 0;
    let mut i: usize = 0;
    while i < recs.len()
        invariant
            i <= recs.len(),
            n == spec_todo_records(recs@, i as int).len(),
            n <= i,
        decreases recs.len() - i,
    {
        if text_is(&recs[i].origin.kind, "todo") {
            n += 1;
        }
        i += 1;
    }
    n
}

proof fn lemma_todo_records_views(recs: Seq<Record>, k: int)
    requires
        0 <= k <= recs.len(),
    ensures
        forall|m: int| 0 <= m < spec_todo_records(recs, k).len() ==> spec_todo_records(recs, k)[m].origin.kind@ == "todo"@,
    decreases k,
{
    if k > 0 {
        lemma_todo_records_views(recs, k - 1);
    }
}

impl TodoProjectionSnapshot {
    pub closed spec fn spec_snapshot(self) -> Snapshot {
        self.snapshot
    }

    pub closed spec fn spec_imported_at(self) -> Option<Timestamp> {
        self.imported_at
    }

    /// Accept a snapshot that passes every check of the projection boundary.
    pub fn validate(snapshot: Snapshot) -> (r: Result<TodoProjectionSnapshot, ProjectionError>)
        ensures
            match spec_snapshot_problem(snapshot) {
                Some(p) => r matches Err(e) && e@ == p,
                None => r matches Ok(t) && t.spec_snapshot() == snapshot && t.spec_imported_at() is None,
            },
    {
        check_snapshot(&snapshot)?;
        Ok(TodoProjectionSnapshot { snapshot, imported_at: None })
    }

    /// The validated envelope.
    pub fn snapshot(&self) -> (r: &Snapshot)
        ensures
            *r == self.spec_snapshot(),
    {
        &self.snapshot
    }

    pub fn imported_at(&self) -> (r: Option<Timestamp>)
        ensures
            r == self.spec_imported_at(),
    {
        self.imported_at
    }

    /// The same projection, with the time its stored copy was written.
    pub fn with_imported_at(self, imported_at: Option<Timestamp>) -> (r: TodoProjectionSnapshot)
        ensures
            r.spec_snapshot() == self.spec_snapshot(),
            r.spec_imported_at() == imported_at,
    {
        TodoProjectionSnapshot { snapshot: self.snapshot, imported_at }
    }

    /// The content revision of a projection: the hexadecimal SHA-256 of its serialized form.
    pub fn revision_of(serialized: &[u8]) -> (r: String)
        ensures
            r@ == spec_hex(spec_sha256(serialized@)),
    {
        let digest = sha256(serialized);
        hex_digest(digest.as_slice())
    }

    /// The metadata agenda output carries for this projection.
    pub fn metadata(&self, content_revision: String) -> (m: TodoProjectionMetadata)
        ensures
            spec_metadata(self.spec_snapshot(), content_revision@, m),
    {
        let s = &self.snapshot;
        let mut diagnostics: Vec<ProjectionDiagnostic> = Vec::new();
        let mut i: usize = 0;
        while i < s.diagnostics.len()
            invariant
                i <= s.diagnostics@.len(),
                diagnostics@.len() == i,
                forall|j: int| 0 <= j < i ==> (#[trigger] diagnostics@[j]).severity@ == s.diagnostics@[j].severity@
                    && diagnostics@[j].code@ == s.diagnostics@[j].code@
                    && diagnostics@[j].message@ == s.diagnostics@[j].message@,
            decreases s.diagnostics.len() - i,
        {
            let d = &s.diagnostics[i];
            diagnostics.push(ProjectionDiagnostic {
                severity: d.severity.clone(),
                code: d.code.clone(),
                message: d.message.clone(),
            });
            i += 1;
        }
        TodoProjectionMetadata {
            producer: s.producer.app.clone(),
            producer_version: s.producer.app_version.clone(),
            producer_revision: s.producer_revision,
            source_revision: s.source_revision.clone(),
            content_revision,
            created_at: s.created_at,
            completeness: ProjectionCompleteness {
                complete: s.completeness.complete,
                record_count: s.records.len(),
                todo_count: count_todo_records(&s.records),
                link_count: s.links.len(),
                diagnostics,
            },
        }
    }

    /// The todo rows this projection yields now: what `agenda_todos_at` yields
    /// at the instant the clock reads.
    pub fn agenda_todos(&self, content_revision: String) -> (r: Result<AgendaTodoSnapshot, ProjectionError>)
        ensures
            (r matches Err(ProjectionError::Invalid(m)) && m@ == MSG_CLOCK@) || exists|now: Timestamp| #![auto] now.wf() && match spec_agenda_problem(self.spec_snapshot(), self.spec_imported_at(), now) {
                Some(p) => r matches Err(e) && e@ == p,
                None => r matches Ok(a) && spec_agenda_todos(self.spec_snapshot(), a.todos@)
                    && spec_metadata(self.spec_snapshot(), content_revision@, a.metadata),
            },
    {
        match Timestamp::now() {
            Some(now) => self.agenda_todos_at(now, content_revision),
            None => Err(ProjectionError::Invalid(owned(MSG_CLOCK))),
        }
    }

    /// The todo rows this projection yields at `now`, checked for freshness,
    /// producer coverage, payload identity and relationships.
    pub fn agenda_todos_at(&self, now: Timestamp, content_revision: String) -> (r: Result<AgendaTodoSnapshot, ProjectionError>)
        ensures
            match spec_agenda_problem(self.spec_snapshot(), self.spec_imported_at(), now) {
                Some(p) => r matches Err(e) && e@ == p,
                None => r matches Ok(a) && spec_agenda_todos(self.spec_snapshot(), a.todos@)
                    && spec_metadata(self.spec_snapshot(), content_revision@, a.metadata),
            },
    {
        let s = &self.snapshot;
        check_snapshot(s)?;
        if now.is_before(&s.created_at) {
            return Err(ProjectionError::Invalid(owned(MSG_IN_FUTURE)));
        }
        let taken = match self.imported_at {
            Some(t) => t,
            None => s.created_at,
        };
        if too_old(now, taken) {
            return Err(ProjectionError::Stale(owned(MSG_TOO_OLD)));
        }
        if let Some(i) = degraded(&s.diagnostics) {
            let d = &s.diagnostics[i];
            return Err(ProjectionError::Incomplete(message2("producer diagnostic ", d.code.as_str(), " reports ", join(d.severity.as_str(), " coverage").as_str())));
        }
        let (todos, visible, gids) = read_todos(&s.records)?;
        let ghost recs = s.records@;
        let ghost tr = spec_todo_records(recs, recs.len() as int);
        proof {
            let gv = gids@.map_values(|v: Vec<char>| v@);
            let tv = tr.map_values(|r: Record| r.global_id@);
            assert forall|m: int| 0 <= m < tr.len() implies #[trigger] gv[m] == tv[m] by {
                assert(spec_todo_entry(tr[m], todos@[m], visible@[m], gids@[m]@));
            }
            assert(gv =~= tv);
            assert forall|m: int| 0 <= m < tr.len() implies (#[trigger] tr[m]).payload.reading is Todo
                && spec_todo_like(todos@[m], spec_base_todo(tr[m]))
                && todos@[m].version == (if spec_base_todo(tr[m]).version < 1 { 1 } else { spec_base_todo(tr[m]).version })
                && visible@[m] == spec_agenda_state_visible(tr[m].lifecycle.state@) by {
                assert(spec_todo_entry(tr[m], todos@[m], visible@[m], gids@[m]@));
            }
        }
        let (parents, projects, deps, tags) = gather_relations(&gids, &s.links)?;
        let rows = reconcile(Ghost(tr), &todos, &visible, &parents, &projects, &deps, &tags)?;
        Ok(AgendaTodoSnapshot { todos: rows, metadata: self.metadata(content_revision) })
    }

    /// Refuse an import whose creation lies more than five minutes past `now`.
    pub fn check_import_clock(&self, now: Timestamp) -> (r: Result<(), ProjectionError>)
        ensures
            r is Ok <==> !(self.spec_snapshot().created_at.seconds as int * 1_000_000_000 + self.spec_snapshot().created_at.nanos
                > (now.seconds as int + MAX_IMPORT_CLOCK_SKEW_SECONDS) * 1_000_000_000 + now.nanos),
            r matches Err(e) ==> e@ == (ProjectionErrorKind::Invalid, MSG_SKEW@),
    {
        let c = &self.snapshot.created_at;
        let created: i128 = c.seconds as i128 * 1_000_000_000 + c.nanos as i128;
        let limit: i128 = (now.seconds as i128 + MAX_IMPORT_CLOCK_SKEW_SECONDS as i128) * 1_000_000_000 + now.nanos as i128;
        if created > limit {
            return Err(ProjectionError::Invalid(owned(MSG_SKEW)));
        }
        Ok(())
    }
}

// ── Replacing a stored projection ──

pub const MSG_ROLLBACK: &'static str = "stale projection snapshot would roll back producer_revision";
pub const MSG_REVISION_CONFLICT: &'static str = "conflicting projection revisions at the same created_at";

/// Two records that serialize alike: every field, and the payload's JSON text.
pub open spec fn spec_record_same(a: Record, b: Record) -> bool {
    &&& a.global_id@ == b.global_id@
    &&& a.origin.app@ == b.origin.app@
    &&& a.origin.kind@ == b.origin.kind@
    &&& a.origin.local_id@ == b.origin.local_id@
    &&& a.revision == b.revision
    &&& a.observed_at == b.observed_at
    &&& a.lifecycle.state@ == b.lifecycle.state@
    &&& a.lifecycle.deleted_at == b.lifecycle.deleted_at
    &&& a.lifecycle.tombstoned_at == b.lifecycle.tombstoned_at
    &&& a.lifecycle.trashed_at == b.lifecycle.trashed_at
    &&& a.lifecycle.archived_at == b.lifecycle.archived_at
    &&& a.lifecycle.purged == b.lifecycle.purged
    &&& a.payload.json@ == b.payload.json@
}

/// The index of the last of the first `k` records with this identity, or -1.
pub open spec fn spec_last_id_index(recs: Seq<Record>, g: Seq<char>, k: int) -> int
    decreases k,
{
    if k <= 0 {
        -1
    } else if recs[k - 1].global_id@ == g {
        k - 1
    } else {
        spec_last_id_index(recs, g, k - 1)
    }
}

/// The first of the first `k` old records whose identity the new records lack.
pub open spec fn spec_first_missing(old: Seq<Record>, new: Seq<Record>, k: int) -> Option<int>
    decreases k,
{
    if k <= 0 {
        None
    } else {
        match spec_first_missing(old, new, k - 1) {
            Some(i) => Some(i),
            None => if !spec_has_id(new, old[k - 1].global_id@) { Some(k - 1) } else { None },
        }
    }
}

/// Why the first of the first `k` new records cannot replace its stored one, if one cannot.
pub open spec fn spec_first_regression(new: Seq<Record>, old: Seq<Record>, k: int) -> Option<(ProjectionErrorKind, Seq<char>)>
    decreases k,
{
    if k <= 0 {
        None
    } else {
        match spec_first_regression(new, old, k - 1) {
            Some(p) => Some(p),
            None => {
                let r = new[k - 1];
                let j = spec_last_id_index(old, r.global_id@, old.len() as int);
                if j < 0 {
                    None
                } else if r.revision < old[j].revision {
                    Some((ProjectionErrorKind::Stale, "stale record revision for "@ + r.global_id@))
                } else if r.revision == old[j].revision && !spec_record_same(r, old[j]) {
                    Some((ProjectionErrorKind::Conflict, "conflicting record revision for "@ + r.global_id@))
                } else {
                    None
                }
            },
        }
    }
}

/// Why a projection cannot replace the stored one, if it cannot.
pub open spec fn spec_replacement_problem(new: Snapshot, old: Snapshot, own_revision: Seq<char>, old_revision: Seq<char>) -> Option<(ProjectionErrorKind, Seq<char>)> {
    if new.producer_revision < old.producer_revision {
        Some((ProjectionErrorKind::Stale, MSG_ROLLBACK@))
    } else if new.producer_revision == old.producer_revision && own_revision != old_revision {
        Some((ProjectionErrorKind::Conflict, MSG_REVISION_CONFLICT@))
    } else {
        match spec_first_missing(old.records@, new.records@, old.records@.len() as int) {
            Some(i) => Some((ProjectionErrorKind::Incomplete, "record "@ + old.records@[i].global_id@ + " disappeared without a retained tombstone"@)),
            None => spec_first_regression(new.records@, old.records@, new.records@.len() as int),
        }
    }
}

fn same_time(a: Option<Timestamp>, b: Option<Timestamp>) -> (r: bool)
    ensures
        r == (a == b),
{
    match (a, b) {
        (Some(x), Some(y)) => x.same_instant(&y),
        (None, None) => true,
        _ => false,
    }
}

fn texts_equal(a: &String, b: &String) -> (r: bool)
    ensures
        r == (a@ == b@),
{
    let x = chars_of(a.as_str());
    let y = chars_of(b.as_str());
    chars_eq(x.as_slice(), y.as_slice())
}

fn record_same(a: &Record, b: &Record) -> (r: bool)
    ensures
        r == spec_record_same(*a, *b),
{
    texts_equal(&a.global_id, &b.global_id) && texts_equal(&a.origin.app, &b.origin.app)
        && texts_equal(&a.origin.kind, &b.origin.kind) && texts_equal(&a.origin.local_id, &b.origin.local_id)
        && a.revision == b.revision && a.observed_at.same_instant(&b.observed_at)
        && texts_equal(&a.lifecycle.state, &b.lifecycle.state)
        && same_time(a.lifecycle.deleted_at, b.lifecycle.deleted_at)
        && same_time(a.lifecycle.tombstoned_at, b.lifecycle.tombstoned_at)
        && same_time(a.lifecycle.trashed_at, b.lifecycle.trashed_at)
        && same_time(a.lifecycle.archived_at, b.lifecycle.archived_at)
        && a.lifecycle.purged == b.lifecycle.purged && texts_equal(&a.payload.json, &b.payload.json)
}

fn last_id_index(ids: &Vec<Vec<char>>, g: &Vec<char>, Ghost(recs): Ghost<Seq<Record>>) -> (r: Option<usize>)
    requires
        ids@.len() == recs.len(),
        forall|j: int| 0 <= j < recs.len() ==> (#[trigger] ids@[j])@ == recs[j].global_id@,
    ensures
        match r {
            Some(i) => i as int == spec_last_id_index(recs, g@, recs.len() as int) && i < recs.len(),
            None => spec_last_id_index(recs, g@, recs.len() as int) < 0,
        },
{
    let mut k: usize = ids.len();
    while k > 0
        invariant
            k <= ids@.len(),
            ids@.len() == recs.len(),
            forall|j: int| 0 <= j < recs.len() ==> (#[trigger] ids@[j])@ == recs[j].global_id@,
            spec_last_id_index(recs, g@, recs.len() as int) == spec_last_id_index(recs, g@, k as int),
        decreases k,
    {
        if chars_eq(ids[k - 1].as_slice(), g.as_slice()) {
            return Some(k - 1);
        }
        k -= 1;
    }
    None
}

proof fn lemma_missing_stays(old: Seq<Record>, new: Seq<Record>, k: int, m: int)
    requires
        0 <= k <= m,
        spec_first_missing(old, new, k) is Some,
    ensures
        spec_first_missing(old, new, m) == spec_first_missing(old, new, k),
    decreases m - k,
{
    if m > k {
        lemma_missing_stays(old, new, k, m - 1);
    }
}

proof fn lemma_regression_stays(new: Seq<Record>, old: Seq<Record>, k: int, m: int)
    requires
        0 <= k <= m,
        spec_first_regression(new, old, k) is Some,
    ensures
        spec_first_regression(new, old, m) == spec_first_regression(new, old, k),
    decreases m - k,
{
    if m > k {
        lemma_regression_stays(new, old, k, m - 1);
    }
}

proof fn lemma_none_missing_from_itself(recs: Seq<Record>, k: int)
    requires
        0 <= k <= recs.len(),
    ensures
        spec_first_missing(recs, recs, k) is None,
    decreases k,
{
    if k > 0 {
        lemma_none_missing_from_itself(recs, k - 1);
        assert(recs[k - 1].global_id@ == recs[k - 1].global_id@);
    }
}

proof fn lemma_last_id_index_unique(recs: Seq<Record>, i: int, k: int)
    requires
        0 <= i < k <= recs.len(),
        forall|a: int, b: int| 0 <= a < b < recs.len() ==> (#[trigger] recs[a]).global_id@ != (#[trigger] recs[b]).global_id@,
    ensures
        spec_last_id_index(recs, recs[i].global_id@, k) == i,
    decreases k,
{
    if k - 1 > i {
        lemma_last_id_index_unique(recs, i, k - 1);
    }
}

proof fn lemma_no_regression_from_itself(recs: Seq<Record>, k: int)
    requires
        0 <= k <= recs.len(),
        forall|a: int, b: int| 0 <= a < b < recs.len() ==> (#[trigger] recs[a]).global_id@ != (#[trigger] recs[b]).global_id@,
    ensures
        spec_first_regression(recs, recs, k) is None,
    decreases k,
{
    if k > 0 {
        lemma_no_regression_from_itself(recs, k - 1);
        lemma_last_id_index_unique(recs, k - 1, recs.len() as int);
    }
}

proof fn lemma_no_record_problem(recs: Seq<Record>, created_at: Timestamp, k: int, i: int)
    requires
        0 <= i < k,
        spec_records_problem(recs, created_at, k) is None,
    ensures
        spec_record_problem(recs, i, created_at) is None,
    decreases k,
{
    if k - 1 > i {
        lemma_no_record_problem(recs, created_at, k - 1, i);
    }
}

/// The records of a valid snapshot have distinct identities.
pub proof fn lemma_valid_snapshot_ids_distinct(s: Snapshot)
    requires
        spec_snapshot_problem(s) is None,
    ensures
        forall|a: int, b: int| 0 <= a < b < s.records@.len() ==> (#[trigger] s.records@[a]).global_id@
            != (#[trigger] s.records@[b]).global_id@,
{
    let recs = s.records@;
    assert forall|a: int, b: int| 0 <= a < b < recs.len() implies (#[trigger] recs[a]).global_id@ != (#[trigger] recs[b]).global_id@ by {
        lemma_no_record_problem(recs, s.created_at, recs.len() as int, b);
        if recs[a].global_id@ == recs[b].global_id@ {
            assert(spec_id_seen(recs, b));
        }
    }
}

/// Storing a projection again over itself is accepted: a snapshot whose
/// records have distinct identities, with the same content revision, may
/// always replace its own stored copy.
pub proof fn lemma_replacing_with_itself_is_accepted(s: Snapshot, revision: Seq<char>)
    requires
        forall|a: int, b: int| 0 <= a < b < s.records@.len() ==> (#[trigger] s.records@[a]).global_id@
            != (#[trigger] s.records@[b]).global_id@,
    ensures
        spec_replacement_problem(s, s, revision, revision) is None,
{
    lemma_none_missing_from_itself(s.records@, s.records@.len() as int);
    lemma_no_regression_from_itself(s.records@, s.records@.len() as int);
}

impl TodoProjectionSnapshot {
    /// Whether this projection may replace the stored one: it must not roll
    /// back the producer revision, must agree with a stored copy of the same
    /// revision, must keep every stored record, and must not move a record
    /// back or change it without a new revision.
    pub fn check_replacement(&self, existing: &TodoProjectionSnapshot, own_revision: &str, existing_revision: &str) -> (r: Result<(), ProjectionError>)
        ensures
            match spec_replacement_problem(self.spec_snapshot(), existing.spec_snapshot(), own_revision@, existing_revision@) {
                Some(p) => r matches Err(e) && e@ == p,
                None => r is Ok,
            },
    {
        let new = &self.snapshot;
        let old = &existing.snapshot;
        if new.producer_revision < old.producer_revision {
            return Err(ProjectionError::Stale(owned(MSG_ROLLBACK)));
        }
        let own = chars_of(own_revision);
        let theirs = chars_of(existing_revision);
        if new.producer_revision == old.producer_revision && !chars_eq(own.as_slice(), theirs.as_slice()) {
            return Err(ProjectionError::Conflict(owned(MSG_REVISION_CONFLICT)));
        }
        let new_ids = record_ids(&new.records);
        let old_ids = record_ids(&old.records);
        let mut i: usize = 0;
        while i < old.records.len()
            invariant
                i <= old.records@.len(),
                new_ids@.len() == new.records@.len(),
                forall|j: int| 0 <= j < new.records@.len() ==> (#[trigger] new_ids@[j])@ == new.records@[j].global_id@,
                old_ids@.len() == old.records@.len(),
                forall|j: int| 0 <= j < old.records@.len() ==> (#[trigger] old_ids@[j])@ == old.records@[j].global_id@,
                spec_first_missing(old.records@, new.records@, i as int) is None,
                new == self.spec_snapshot(),
                old == existing.spec_snapshot(),
                !(new.producer_revision < old.producer_revision),
                !(new.producer_revision == old.producer_revision && own_revision@ != existing_revision@),
            decreases old.records.len() - i,
        {
            if find_id(&new_ids, &old_ids[i], Ghost(new.records@)).is_none() {
                proof {
                    lemma_missing_stays(old.records@, new.records@, i as int + 1, old.records@.len() as int);
                }
                return Err(ProjectionError::Incomplete(join3("record ", old.records[i].global_id.as_str(), " disappeared without a retained tombstone")));
            }
            i += 1;
        }
        let mut k: usize = 0;
        while k < new.records.len()
            invariant
                k <= new.records@.len(),
                new_ids@.len() == new.records@.len(),
                forall|j: int| 0 <= j < new.records@.len() ==> (#[trigger] new_ids@[j])@ == new.records@[j].global_id@,
                old_ids@.len() == old.records@.len(),
                forall|j: int| 0 <= j < old.records@.len() ==> (#[trigger] old_ids@[j])@ == old.records@[j].global_id@,
                spec_first_regression(new.records@, old.records@, k as int) is None,
                spec_first_missing(old.records@, new.records@, old.records@.len() as int) is None,
                new == self.spec_snapshot(),
                old == existing.spec_snapshot(),
                !(new.producer_revision < old.producer_revision),
                !(new.producer_revision == old.producer_revision && own_revision@ != existing_revision@),
            decreases new.records.len() - k,
        {
            let record = &new.records[k];
            match last_id_index(&old_ids, &new_ids[k], Ghost(old.records@)) {
                Some(j) => {
                    let stored = &old.records[j];
                    if record.revision < stored.revision {
                        proof { lemma_regression_stays(new.records@, old.records@, k as int + 1, new.records@.len() as int); }
                        return Err(ProjectionError::Stale(join("stale record revision for ", record.global_id.as_str())));
                    }
                    if record.revision == stored.revision && !record_same(record, stored) {
                        proof { lemma_regression_stays(new.records@, old.records@, k as int + 1, new.records@.len() as int); }
                        return Err(ProjectionError::Conflict(join("conflicting record revision for ", record.global_id.as_str())));
                    }
                },
                None => {},
            }
            k += 1;
        }
        Ok(())
    }
}

} // verus!

verus! {

// ── Freshness is counted from the import ──

proof fn lemma_relations_conflict_only(gids: Seq<Seq<char>>, links: Seq<Link>, k: int)
    ensures
        spec_relations(gids, links, k) matches Err(p) ==> p.0 == ProjectionErrorKind::Conflict,
    decreases k,
{
    if k > 0 {
        lemma_relations_conflict_only(gids, links, k - 1);
    }
}

proof fn lemma_payload_stale_messages(recs: Seq<Record>, k: int)
    ensures
        spec_payloads_problem(recs, k) matches Some(p) ==> (p.0 == ProjectionErrorKind::Stale ==> p.1.len() > 0
            && p.1[0] == 'r'),
    decreases k,
{
    reveal_strlit("record and payload revision disagree for ");
    reveal_strlit("record observation and payload update disagree for ");
    if k > 0 {
        lemma_payload_stale_messages(recs, k - 1);
        if spec_payloads_problem(recs, k - 1) is None && recs[k - 1].origin.kind@ == "todo"@ {
            let r = recs[k - 1];
            let g = r.global_id@;
            assert(("record and payload revision disagree for "@ + g)[0] == 'r');
            assert(("record observation and payload update disagree for "@ + g)[0] == 'r');
        }
    }
}

/// A held projection is refused as too old exactly when more than 24 hours
/// separate `now` from the moment it was taken: its import time when one is
/// held, its own creation time only when none is.
pub proof fn lemma_freshness_counts_from_the_import(s: Snapshot, imported_at: Option<Timestamp>, now: Timestamp)
    requires
        spec_snapshot_problem(s) is None,
        !now.spec_lt(s.created_at),
    ensures
        ({
            let taken = match imported_at {
                Some(t) => t,
                None => s.created_at,
            };
            spec_agenda_problem(s, imported_at, now) == Some((ProjectionErrorKind::Stale, MSG_TOO_OLD@)) <==> (
            now.seconds - taken.seconds) * 1_000_000_000 + (now.nanos - taken.nanos) > 86_400 * 1_000_000_000
        }),
{
    reveal_strlit("projection is older than the 24-hour agenda freshness limit");
    let recs = s.records@;
    let tr = spec_todo_records(recs, recs.len() as int);
    let gids = tr.map_values(|r: Record| r.global_id@);
    lemma_relations_conflict_only(gids, s.links@, s.links@.len() as int);
    lemma_payload_stale_messages(recs, recs.len() as int);
    assert(MSG_TOO_OLD@[0] == 'p');
}

} // verus!
