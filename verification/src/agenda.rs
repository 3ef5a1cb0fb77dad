//! The combined agenda: events and todo due values in one half-open window,
//! filtered by lifecycle and ordered the way a day is lived.
use vstd::prelude::*;

use crate::application::{AgendaKind, TodoProjectionMetadata};
use crate::domain::{DomainError, Event, EventTime};
use crate::ids::{EventId, ProjectId, TodoId, spec_uuid_text};
use crate::recurrence::{spec_expand, spec_time_wf};
use crate::text::{
    char_from_ascii, chars_of, lemma_chars_lt_irreflexive, lemma_chars_lt_total, lemma_chars_lt_transitive, push_str_chars,
    spec_chars_lt, spec_to_lowercase, string_of,
};
use crate::time::{
    CivilDate, DATE_MAX_DAYS, LocalMapping, MAX_INSTANT_SECONDS, OffsetDateTime, SECONDS_PER_DAY, Timestamp, UNIX_EPOCH_DAYS,
    spec_day_in_range, spec_tz_from_local, spec_tz_known, spec_tz_offset_at, tz_from_local, tz_known, tz_offset_at,
};
use crate::todo::{Priority, Todo, TodoDue, TodoError, spec_todo_expand};

verus! {

/// Why a query was refused. `E` is the repository's own error.
#[derive(Debug, Clone, PartialEq, Eq)]
pub enum QueryError<E> {
    EventNotFound { event_id: EventId },
    TodoNotFound { todo_id: TodoId },
    ProjectNotFound { project_id: ProjectId },
    InvalidTimezone { timezone: String },
    InvalidDayBoundary { date: CivilDate, timezone: String },
    Repository(E),
    Domain(TodoError),
    EventDomain(DomainError),
}

/// A half-open civil-date window, the zone it is read in, and lifecycle filters.
#[derive(Debug, Clone, PartialEq, Eq)]
pub struct AgendaQuery {
    pub start: CivilDate,
    pub end_exclusive: CivilDate,
    pub timezone: String,
    pub include_completed: bool,
    pub include_trashed: bool,
    pub include_blocked: bool,
}

pub const DEFAULT_AGENDA_ZONE: &'static str = "UTC";

impl AgendaQuery {
    /// The window in UTC, open todos only, blocked ones included.
    pub fn new(start: CivilDate, end_exclusive: CivilDate) -> (q: AgendaQuery)
        ensures
            q.start == start && q.end_exclusive == end_exclusive && q.timezone@ == DEFAULT_AGENDA_ZONE@
                && !q.include_completed && !q.include_trashed && q.include_blocked,
    {
        AgendaQuery {
            start,
            end_exclusive,
            timezone: crate::text::owned(DEFAULT_AGENDA_ZONE),
            include_completed: false,
            include_trashed: false,
            include_blocked: true,
        }
    }

    /// The same query read in a named zone.
    pub fn with_timezone(self, timezone: String) -> (r: Result<AgendaQuery, TodoError>)
        ensures
            spec_tz_known(timezone@) ==> r == Ok::<AgendaQuery, TodoError>(AgendaQuery { timezone, ..self }),
            !spec_tz_known(timezone@) ==> r == Err::<AgendaQuery, TodoError>(TodoError::InvalidTimezone { timezone }),
    {
        if !tz_known(timezone.as_str()) {
            return Err(TodoError::InvalidTimezone { timezone });
        }
        Ok(AgendaQuery { timezone, ..self })
    }

    pub fn try_new(start: CivilDate, end_exclusive: CivilDate, timezone: String) -> (r: Result<AgendaQuery, TodoError>)
        ensures
            spec_tz_known(timezone@) ==> (r matches Ok(q) && q.start == start && q.end_exclusive == end_exclusive
                && q.timezone == timezone && !q.include_completed && !q.include_trashed && q.include_blocked),
            !spec_tz_known(timezone@) ==> r == Err::<AgendaQuery, TodoError>(TodoError::InvalidTimezone { timezone }),
    {
        AgendaQuery::new(start, end_exclusive).with_timezone(timezone)
    }
}

// ── Instants and local dates in a zone ──

/// Local wall-clock seconds from the epoch at the start of a civil date.
pub open spec fn spec_midnight_local(date: CivilDate) -> int {
    (date.days - UNIX_EPOCH_DAYS) * SECONDS_PER_DAY
}

/// The instant a civil date starts in a zone, when its midnight exists there once.
pub open spec fn spec_day_boundary(zone: Seq<char>, date: CivilDate) -> Option<int> {
    match spec_tz_from_local(zone, spec_midnight_local(date)) {
        LocalMapping::Single(o) => Some(spec_midnight_local(date) - o),
        _ => None,
    }
}

/// The civil date an instant falls on in a zone.
pub open spec fn spec_local_day(zone: Seq<char>, seconds: int) -> int {
    (seconds + spec_tz_offset_at(zone, seconds)) / SECONDS_PER_DAY as int + UNIX_EPOCH_DAYS
}

/// The minute of the local day an instant falls in, in a zone.
pub open spec fn spec_local_minute(zone: Seq<char>, seconds: int) -> int {
    ((seconds + spec_tz_offset_at(zone, seconds)) % SECONDS_PER_DAY as int) / 60
}

pub(crate) fn local_day_boundary<E>(timezone: &String, date: CivilDate) -> (r: Result<i64, QueryError<E>>)
    requires
        date.wf(),
    ensures
        match spec_day_boundary(timezone@, date) {
            Some(s) => r == Ok::<i64, QueryError<E>>(s as i64),
            None => r == Err::<i64, QueryError<E>>(QueryError::InvalidDayBoundary { date, timezone: *timezone }),
        },
        r matches Ok(s) ==> -9_000_000_000_000 < s < 9_000_000_000_000,
{
    let local: i64 = (date.days as i64 - UNIX_EPOCH_DAYS) * SECONDS_PER_DAY;
    match tz_from_local(timezone.as_str(), local, 0) {
        LocalMapping::Single(o) => Ok(local - o as i64),
        _ => Err(QueryError::InvalidDayBoundary { date, timezone: timezone.clone() }),
    }
}

/// The local date and minute of an instant in a known zone.
fn local_day_minute(timezone: &String, seconds: i64) -> (r: (i64, i64))
    requires
        spec_tz_known(timezone@),
        -MAX_INSTANT_SECONDS <= seconds <= MAX_INSTANT_SECONDS,
    ensures
        r.0 == spec_local_day(timezone@, seconds as int),
        r.1 == spec_local_minute(timezone@, seconds as int),
        -110_000_000 < r.0 < 110_000_000,
        0 <= r.1 < 1440,
{
    let offset = match tz_offset_at(timezone.as_str(), seconds) {
        Some(o) => o,
        None => {
            assert(false);
            0
        },
    };
    let local: i64 = seconds + offset as i64;
    let shifted: i64 = local + 8_640_000_000_000;
    proof {
        let l = local as int;
        assert(8_640_000_000_000int == 86400 * 100_000_000);
        vstd::arithmetic::div_mod::lemma_hoist_over_denominator(l, 100_000_000, 86400);
        vstd::arithmetic::div_mod::lemma_mod_multiples_vanish(100_000_000, l, 86400);
    }
    let day: i64 = shifted / 86400 - 100_000_000 + UNIX_EPOCH_DAYS;
    let minute: i64 = (shifted % 86400) / 60;
    (day, minute)
}

// ── Rows ──

/// One row of the combined agenda.
#[derive(Debug, Clone, PartialEq, Eq)]
pub struct AgendaItem {
    pub kind: AgendaKind,
    pub id: String,
    pub title: String,
    pub due: Option<TodoDue>,
    pub event_time: Option<EventTime>,
    pub priority: Option<Priority>,
    pub occurrence_index: Option<u32>,
    pub completed: bool,
    pub trashed: bool,
    pub blocked: bool,
}

/// A row, its texts taken by their characters.
pub struct AgendaItemView {
    pub kind: AgendaKind,
    pub id: Seq<char>,
    pub title: Seq<char>,
    pub due: Option<TodoDue>,
    pub event_time: Option<EventTime>,
    pub priority: Option<Priority>,
    pub occurrence_index: Option<u32>,
    pub completed: bool,
    pub trashed: bool,
    pub blocked: bool,
}

impl View for AgendaItem {
    type V = AgendaItemView;

    open spec fn view(&self) -> AgendaItemView {
        AgendaItemView {
            kind: self.kind,
            id: self.id@,
            title: self.title@,
            due: self.due,
            event_time: self.event_time,
            priority: self.priority,
            occurrence_index: self.occurrence_index,
            completed: self.completed,
            trashed: self.trashed,
            blocked: self.blocked,
        }
    }
}

/// The times a row holds are ones this library holds.
pub open spec fn spec_item_wf(v: AgendaItem) -> bool {
    &&& (v.due matches Some(d) ==> d.wf())
    &&& (v.event_time matches Some(t) ==> spec_time_wf(t))
}

pub open spec fn spec_items_wf(s: Seq<AgendaItem>) -> bool {
    forall|i: int| 0 <= i < s.len() ==> spec_item_wf(#[trigger] s[i])
}

pub open spec fn spec_item_views(s: Seq<AgendaItem>) -> Seq<AgendaItemView> {
    s.map_values(|i: AgendaItem| i@)
}

/// The row an event occurrence gives.
pub open spec fn spec_event_row(e: Event, index: Option<u32>, time: EventTime) -> AgendaItemView {
    AgendaItemView {
        kind: AgendaKind::Event,
        id: spec_uuid_text(e.id.value),
        title: e.title@,
        due: None,
        event_time: Some(time),
        priority: None,
        occurrence_index: index,
        completed: false,
        trashed: false,
        blocked: false,
    }
}

/// The row a todo due value gives.
pub open spec fn spec_todo_row(t: Todo, index: u32, due: TodoDue, blocked: bool) -> AgendaItemView {
    AgendaItemView {
        kind: AgendaKind::Todo,
        id: spec_uuid_text(t.id.value),
        title: t.title@,
        due: Some(due),
        event_time: None,
        priority: Some(t.priority),
        occurrence_index: Some(index),
        completed: t.completed_at is Some,
        trashed: t.trashed_at is Some,
        blocked,
    }
}

/// Whether an event's own time overlaps the window: all-day spans by date,
/// timed spans by instant.
pub open spec fn spec_overlaps(time: EventTime, q: AgendaQuery, ws: int, we: int) -> bool {
    match time {
        EventTime::AllDay { start, end_exclusive } => start.days < q.end_exclusive.days && end_exclusive.days > q.start.days,
        EventTime::Timed { start, end, .. } => start.seconds < we && (end.seconds > ws || (end.seconds == ws && end.nanos > 0)),
    }
}

/// The rows of the first `k` occurrences of an expansion.
pub open spec fn spec_occurrence_rows(e: Event, occ: Seq<(u32, EventTime)>, k: int) -> Seq<AgendaItemView>
    decreases k,
{
    if k <= 0 {
        Seq::empty()
    } else {
        spec_occurrence_rows(e, occ, k - 1).push(spec_event_row(e, Some(occ[k - 1].0), occ[k - 1].1))
    }
}

/// The rows one event gives in the window.
pub open spec fn spec_event_rows<E>(e: Event, q: AgendaQuery, ws: int, we: int, through: CivilDate) -> Result<Seq<AgendaItemView>, QueryError<E>> {
    if e.deleted_at is Some {
        Ok(Seq::empty())
    } else {
        match e.metadata.recurrence_rule {
            None => if spec_overlaps(e.time, q, ws, we) {
                Ok(seq![spec_event_row(e, None, e.time)])
            } else {
                Ok(Seq::empty())
            },
            Some(rule) => match spec_expand(rule, e.time, q.start.days as int, through.days as int) {
                Err(d) => Err(QueryError::EventDomain(d)),
                Ok(occ) => Ok(spec_occurrence_rows(e, occ, occ.len() as int)),
            },
        }
    }
}

fn occurrence_rows(e: &Event, occ: &Vec<(u32, EventTime)>, out: &mut Vec<AgendaItem>)
    requires
        spec_items_wf(old(out)@),
        forall|i: int| 0 <= i < occ@.len() ==> spec_time_wf(#[trigger] occ@[i].1),
    ensures
        spec_item_views(final(out)@) == spec_item_views(old(out)@) + spec_occurrence_rows(*e, occ@, occ@.len() as int),
        spec_items_wf(final(out)@),
{
    let id = e.id.to_text();
    let mut k: usize = 0;
    while k < occ.len()
        invariant
            k <= occ@.len(),
            id@ == spec_uuid_text(e.id.value),
            spec_item_views(out@) == spec_item_views(old(out)@) + spec_occurrence_rows(*e, occ@, k as int),
            spec_items_wf(out@),
            forall|i: int| 0 <= i < occ@.len() ==> spec_time_wf(#[trigger] occ@[i].1),
        decreases occ.len() - k,
    {
        let ghost before = out@;
        let (index, time) = &occ[k];
        out.push(AgendaItem {
            kind: AgendaKind::Event,
            id: id.clone(),
            title: e.title.clone(),
            due: None,
            event_time: Some(time.copy()),
            priority: None,
            occurrence_index: Some(*index),
            completed: false,
            trashed: false,
            blocked: false,
        });
        assert(spec_item_views(out@) =~= spec_item_views(before).push(spec_event_row(*e, Some(occ@[k as int].0), occ@[k as int].1)));
        k += 1;
    }
}

fn overlaps(time: &EventTime, q: &AgendaQuery, ws: i64, we: i64) -> (r: bool)
    ensures
        r == spec_overlaps(*time, *q, ws as int, we as int),
{
    match time {
        EventTime::AllDay { start, end_exclusive } => start.days < q.end_exclusive.days && end_exclusive.days > q.start.days,
        EventTime::Timed { start, end, .. } => start.seconds < we && (end.seconds > ws || (end.seconds == ws && end.nanos > 0)),
    }
}

fn event_rows<E>(e: &Event, q: &AgendaQuery, ws: i64, we: i64, through: CivilDate, out: &mut Vec<AgendaItem>) -> (r: Result<(), QueryError<E>>)
    requires
        spec_time_wf(e.time),
        spec_items_wf(old(out)@),
    ensures
        spec_items_wf(final(out)@),
        match spec_event_rows::<E>(*e, *q, ws as int, we as int, through) {
            Ok(rows) => r is Ok && spec_item_views(final(out)@) == spec_item_views(old(out)@) + rows,
            Err(x) => r == Err::<(), QueryError<E>>(x),
        },
{
    if e.deleted_at.is_some() {
        assert(spec_item_views(out@) =~= spec_item_views(out@) + Seq::<AgendaItemView>::empty());
        return Ok(());
    }
    match &e.metadata.recurrence_rule {
        None => {
            if overlaps(&e.time, q, ws, we) {
                let ghost before = out@;
                out.push(AgendaItem {
                    kind: AgendaKind::Event,
                    id: e.id.to_text(),
                    title: e.title.clone(),
                    due: None,
                    event_time: Some(e.time.copy()),
                    priority: None,
                    occurrence_index: None,
                    completed: false,
                    trashed: false,
                    blocked: false,
                });
                assert(spec_item_views(out@) =~= spec_item_views(before) + seq![spec_event_row(*e, None, e.time)]);
            } else {
                assert(spec_item_views(out@) =~= spec_item_views(out@) + Seq::<AgendaItemView>::empty());
            }
            Ok(())
        },
        Some(rule) => match rule.expand(&e.time, q.start, through) {
            Ok(occ) => {
                occurrence_rows(e, &occ, out);
                Ok(())
            },
            Err(d) => Err(QueryError::EventDomain(d)),
        },
    }
}

// ── Todo rows ──

/// The civil dates a todo is expanded over: the query's own for a date due
/// value; for a timed one, the window's dates in the due value's zone, two
/// days wider on each side.
pub open spec fn spec_due_window(due: TodoDue, from: int, through: int, ws: int, we: int) -> Result<(int, int), TodoError> {
    match due {
        TodoDue::Date { .. } => Ok((from, through)),
        TodoDue::Timed { timezone, .. } => if !spec_tz_known(timezone@) {
            Err(TodoError::InvalidTimezone { timezone })
        } else if !spec_seconds_ok(ws) || !spec_seconds_ok(we) {
            Err(TodoError::InvalidRecurrenceRange)
        } else {
            let a = spec_local_day(timezone@, ws) - 2;
            let b = spec_local_day(timezone@, we) + 2;
            if !spec_day_in_range(a) || !spec_day_in_range(b) {
                Err(TodoError::InvalidRecurrenceRange)
            } else {
                Ok((a, b))
            }
        },
    }
}

pub open spec fn spec_seconds_ok(s: int) -> bool {
    -MAX_INSTANT_SECONDS <= s <= MAX_INSTANT_SECONDS
}

/// A due value falls in the query: by date for a date, by instant for a timed one.
pub open spec fn spec_in_window(due: TodoDue, from: int, through: int, ws: int, we: int) -> bool {
    match due {
        TodoDue::Date { date, .. } => from <= date.days <= through,
        TodoDue::Timed { at, .. } => ws <= at.seconds && at.seconds < we,
    }
}

/// The first `k` due values, those in the query kept.
pub open spec fn spec_keep_in_window(s: Seq<(u32, TodoDue)>, from: int, through: int, ws: int, we: int, k: int) -> Seq<(u32, TodoDue)>
    decreases k,
{
    if k <= 0 {
        Seq::empty()
    } else if spec_in_window(s[k - 1].1, from, through, ws, we) {
        spec_keep_in_window(s, from, through, ws, we, k - 1).push(s[k - 1])
    } else {
        spec_keep_in_window(s, from, through, ws, we, k - 1)
    }
}

/// A todo's due values in the query, each with its index in its series.
pub open spec fn spec_agenda_due_instances(t: Todo, from: int, through: int, ws: int, we: int) -> Result<Seq<(u32, TodoDue)>, TodoError> {
    match t.due {
        None => Ok(Seq::empty()),
        Some(due) => match spec_due_window(due, from, through, ws, we) {
            Err(e) => Err(e),
            Ok(w) => match spec_todo_expand(t, w.0, w.1) {
                Err(e) => Err(e),
                Ok(s) => Ok(spec_keep_in_window(s, from, through, ws, we, s.len() as int)),
            },
        },
    }
}

fn in_window(due: &TodoDue, from: CivilDate, through: CivilDate, ws: i64, we: i64) -> (r: bool)
    ensures
        r == spec_in_window(*due, from.days as int, through.days as int, ws as int, we as int),
{
    match due {
        TodoDue::Date { date, .. } => from.days <= date.days && date.days <= through.days,
        TodoDue::Timed { at, .. } => ws <= at.seconds && at.seconds < we,
    }
}

fn agenda_due_instances(t: &Todo, from: CivilDate, through: CivilDate, ws: i64, we: i64) -> (r: Result<Vec<(u32, TodoDue)>, TodoError>)
    requires
        t.due matches Some(d) ==> d.wf(),
    ensures
        match spec_agenda_due_instances(*t, from.days as int, through.days as int, ws as int, we as int) {
            Ok(s) => r matches Ok(v) && v@ == s,
            Err(e) => r == Err::<Vec<(u32, TodoDue)>, TodoError>(e),
        },
        r matches Ok(v) ==> forall|i: int| 0 <= i < v@.len() ==> (#[trigger] v@[i]).1.wf(),
{
    let due = match &t.due {
        None => return Ok(Vec::new()),
        Some(d) => d,
    };
    let (a, b) = match due {
        TodoDue::Date { .. } => (from, through),
        TodoDue::Timed { timezone, .. } => {
            if !tz_known(timezone.as_str()) {
                return Err(TodoError::InvalidTimezone { timezone: timezone.clone() });
            }
            if !(-MAX_INSTANT_SECONDS <= ws && ws <= MAX_INSTANT_SECONDS && -MAX_INSTANT_SECONDS <= we && we <= MAX_INSTANT_SECONDS) {
                return Err(TodoError::InvalidRecurrenceRange);
            }
            let (start_day, _) = local_day_minute(timezone, ws);
            let (end_day, _) = local_day_minute(timezone, we);
            let a = start_day - 2;
            let b = end_day + 2;
            if !(crate::time::DATE_MIN_DAYS as i64 <= a && a <= DATE_MAX_DAYS as i64 && crate::time::DATE_MIN_DAYS as i64 <= b && b <= DATE_MAX_DAYS as i64) {
                return Err(TodoError::InvalidRecurrenceRange);
            }
            (CivilDate { days: a as i32 }, CivilDate { days: b as i32 })
        },
    };
    let instances = t.expand_due_instances_indexed(a, b)?;
    let mut kept: Vec<(u32, TodoDue)> = Vec::new();
    let mut i: usize = 0;
    while i < instances.len()
        invariant
            i <= instances@.len(),
            kept@ == spec_keep_in_window(instances@, from.days as int, through.days as int, ws as int, we as int, i as int),
            forall|x: int| 0 <= x < instances@.len() ==> (#[trigger] instances@[x]).1.wf(),
            forall|x: int| 0 <= x < kept@.len() ==> (#[trigger] kept@[x]).1.wf(),
        decreases instances.len() - i,
    {
        let (index, d) = &instances[i];
        if in_window(d, from, through, ws, we) {
            kept.push((*index, d.copy()));
        }
        i += 1;
    }
    Ok(kept)
}

/// Whether some todo with this identity is still open.
pub open spec fn spec_live(todos: Seq<Todo>, id: TodoId) -> bool {
    exists|i: int| 0 <= i < todos.len() && #[trigger] todos[i].id == id && todos[i].trashed_at is None && todos[i].completed_at is None
}

/// A todo waits on an open todo.
pub open spec fn spec_blocked(todos: Seq<Todo>, t: Todo) -> bool {
    exists|j: int| 0 <= j < t.dependency_ids@.len() && spec_live(todos, #[trigger] t.dependency_ids@[j])
}

/// The query leaves this todo out.
pub open spec fn spec_filtered(q: AgendaQuery, t: Todo, blocked: bool) -> bool {
    (!q.include_completed && t.completed_at is Some) || (!q.include_trashed && t.trashed_at is Some)
        || (!q.include_blocked && blocked)
}

/// The rows of the first `k` due values of a todo.
pub open spec fn spec_due_rows(t: Todo, ds: Seq<(u32, TodoDue)>, blocked: bool, k: int) -> Seq<AgendaItemView>
    decreases k,
{
    if k <= 0 {
        Seq::empty()
    } else {
        spec_due_rows(t, ds, blocked, k - 1).push(spec_todo_row(t, ds[k - 1].0, ds[k - 1].1, blocked))
    }
}

/// The rows one todo gives.
pub open spec fn spec_todo_rows<E>(t: Todo, todos: Seq<Todo>, q: AgendaQuery, ws: int, we: int, through: CivilDate) -> Result<Seq<AgendaItemView>, QueryError<E>> {
    let blocked = spec_blocked(todos, t);
    if spec_filtered(q, t, blocked) {
        Ok(Seq::empty())
    } else {
        match spec_agenda_due_instances(t, q.start.days as int, through.days as int, ws, we) {
            Err(e) => Err(QueryError::Domain(e)),
            Ok(ds) => Ok(spec_due_rows(t, ds, blocked, ds.len() as int)),
        }
    }
}

fn is_open_id(todos: &Vec<Todo>, d: TodoId) -> (r: bool)
    ensures
        r == spec_live(todos@, d),
{
    let mut i: usize = 0;
    while i < todos.len()
        invariant
            i <= todos@.len(),
            forall|x: int| 0 <= x < i ==> !(#[trigger] todos@[x].id == d && todos@[x].trashed_at is None && todos@[x].completed_at is None),
        decreases todos.len() - i,
    {
        let t = &todos[i];
        if t.id.value == d.value && t.trashed_at.is_none() && t.completed_at.is_none() {
            return true;
        }
        i += 1;
    }
    false
}

fn is_blocked(t: &Todo, todos: &Vec<Todo>) -> (r: bool)
    ensures
        r == spec_blocked(todos@, *t),
{
    let mut j: usize = 0;
    while j < t.dependency_ids.len()
        invariant
            j <= t.dependency_ids@.len(),
            forall|x: int| 0 <= x < j ==> !spec_live(todos@, #[trigger] t.dependency_ids@[x]),
        decreases t.dependency_ids.len() - j,
    {
        if is_open_id(todos, t.dependency_ids[j]) {
            return true;
        }
        j += 1;
    }
    false
}

fn todo_rows<E>(t: &Todo, todos: &Vec<Todo>, q: &AgendaQuery, ws: i64, we: i64, through: CivilDate, out: &mut Vec<AgendaItem>) -> (r: Result<(), QueryError<E>>)
    requires
        t.due matches Some(d) ==> d.wf(),
        spec_items_wf(old(out)@),
    ensures
        spec_items_wf(final(out)@),
        match spec_todo_rows::<E>(*t, todos@, *q, ws as int, we as int, through) {
            Ok(rows) => r is Ok && spec_item_views(final(out)@) == spec_item_views(old(out)@) + rows,
            Err(x) => r == Err::<(), QueryError<E>>(x),
        },
{
    let blocked = is_blocked(t, todos);
    let completed = t.completed_at.is_some();
    let trashed = t.trashed_at.is_some();
    if (!q.include_completed && completed) || (!q.include_trashed && trashed) || (!q.include_blocked && blocked) {
        assert(spec_item_views(out@) =~= spec_item_views(out@) + Seq::<AgendaItemView>::empty());
        return Ok(());
    }
    let ds = match agenda_due_instances(t, q.start, through, ws, we) {
        Ok(ds) => ds,
        Err(e) => return Err(QueryError::Domain(e)),
    };
    let id = t.id.to_text();
    let ghost start = out@;
    let mut k: usize = 0;
    while k < ds.len()
        invariant
            k <= ds@.len(),
            id@ == spec_uuid_text(t.id.value),
            completed == (t.completed_at is Some),
            trashed == (t.trashed_at is Some),
            spec_item_views(out@) == spec_item_views(start) + spec_due_rows(*t, ds@, blocked, k as int),
            spec_items_wf(out@),
            forall|x: int| 0 <= x < ds@.len() ==> (#[trigger] ds@[x]).1.wf(),
        decreases ds.len() - k,
    {
        let ghost before = out@;
        let (index, due) = &ds[k];
        out.push(AgendaItem {
            kind: AgendaKind::Todo,
            id: id.clone(),
            title: t.title.clone(),
            due: Some(due.copy()),
            event_time: None,
            priority: Some(t.priority),
            occurrence_index: Some(*index),
            completed,
            trashed,
            blocked,
        });
        assert(spec_item_views(out@) =~= spec_item_views(before).push(spec_todo_row(*t, ds@[k as int].0, ds@[k as int].1, blocked)));
        k += 1;
    }
    Ok(())
}

// ── The order of a day ──

/// A row's place in the day: date, timed or not, minute, events before todos,
/// title lower-cased, identity, then occurrence.
pub type AgendaKeyView = (int, int, int, int, Seq<char>, Seq<char>, int);

pub open spec fn spec_item_key(v: AgendaItemView, zone: Seq<char>) -> AgendaKeyView {
    let date = match v.due {
        Some(TodoDue::Date { date, .. }) => date.days as int,
        Some(TodoDue::Timed { at, .. }) => spec_local_day(zone, at.seconds as int),
        None => match v.event_time {
            Some(EventTime::AllDay { start, .. }) => start.days as int,
            Some(EventTime::Timed { start, .. }) => spec_local_day(zone, start.seconds as int),
            None => DATE_MAX_DAYS as int,
        },
    };
    let timed_minute: (int, int) = match v.due {
        Some(TodoDue::Timed { at, .. }) => (1, spec_local_minute(zone, at.seconds as int)),
        Some(TodoDue::Date { .. }) => (0, 0),
        None => match v.event_time {
            Some(EventTime::Timed { start, .. }) => (1, spec_local_minute(zone, start.seconds as int)),
            _ => (0, 0),
        },
    };
    (
        date,
        timed_minute.0,
        timed_minute.1,
        if v.kind == AgendaKind::Event { 0int } else { 1int },
        spec_to_lowercase(v.title),
        v.id,
        match v.occurrence_index { Some(i) => i as int, None => 0int },
    )
}

/// Strict lexicographic order of row keys.
pub open spec fn spec_agenda_key_lt(a: AgendaKeyView, b: AgendaKeyView) -> bool {
    ||| a.0 < b.0
    ||| a.0 == b.0 && a.1 < b.1
    ||| a.0 == b.0 && a.1 == b.1 && a.2 < b.2
    ||| a.0 == b.0 && a.1 == b.1 && a.2 == b.2 && a.3 < b.3
    ||| a.0 == b.0 && a.1 == b.1 && a.2 == b.2 && a.3 == b.3 && spec_chars_lt(a.4, b.4)
    ||| a.0 == b.0 && a.1 == b.1 && a.2 == b.2 && a.3 == b.3 && a.4 == b.4 && spec_chars_lt(a.5, b.5)
    ||| a.0 == b.0 && a.1 == b.1 && a.2 == b.2 && a.3 == b.3 && a.4 == b.4 && a.5 == b.5 && a.6 < b.6
}

/// Where a stable insertion puts `x` among the sorted rows from `p` on: before
/// the first row whose key is greater.
pub open spec fn spec_insert_pos(sorted: Seq<AgendaItemView>, x: AgendaItemView, zone: Seq<char>, p: int) -> int
    decreases sorted.len() - p,
{
    if p >= sorted.len() {
        sorted.len() as int
    } else if spec_agenda_key_lt(spec_item_key(x, zone), spec_item_key(sorted[p], zone)) {
        p
    } else {
        spec_insert_pos(sorted, x, zone, p + 1)
    }
}

/// The rows in day order, rows of equal key keeping their order: each row in
/// turn inserted after every row whose key is not greater.
pub open spec fn spec_day_order(items: Seq<AgendaItemView>, zone: Seq<char>) -> Seq<AgendaItemView>
    decreases items.len(),
{
    if items.len() == 0 {
        Seq::empty()
    } else {
        let sorted = spec_day_order(items.drop_last(), zone);
        sorted.insert(spec_insert_pos(sorted, items.last(), zone, 0), items.last())
    }
}

proof fn lemma_day_order_len(items: Seq<AgendaItemView>, zone: Seq<char>)
    ensures
        spec_day_order(items, zone).len() == items.len(),
    decreases items.len(),
{
    if items.len() > 0 {
        lemma_day_order_len(items.drop_last(), zone);
        lemma_insert_pos_bounds(spec_day_order(items.drop_last(), zone), items.last(), zone, 0);
    }
}

proof fn lemma_insert_pos_bounds(sorted: Seq<AgendaItemView>, x: AgendaItemView, zone: Seq<char>, p: int)
    requires
        0 <= p,
    ensures
        p <= spec_insert_pos(sorted, x, zone, p) || spec_insert_pos(sorted, x, zone, p) == sorted.len(),
        0 <= spec_insert_pos(sorted, x, zone, p) <= sorted.len() || p > sorted.len(),
    decreases sorted.len() - p,
{
    if p < sorted.len() && !spec_agenda_key_lt(spec_item_key(x, zone), spec_item_key(sorted[p], zone)) {
        lemma_insert_pos_bounds(sorted, x, zone, p + 1);
    }
}

struct AgendaKey {
    date: i64,
    timed: u8,
    minute: i64,
    kind: u8,
    title: Vec<char>,
    id: Vec<char>,
    occurrence: u32,
}

impl AgendaKey {
    spec fn view(&self) -> AgendaKeyView {
        (self.date as int, self.timed as int, self.minute as int, self.kind as int, self.title@, self.id@, self.occurrence as int)
    }
}

fn item_key(item: &AgendaItem, zone: &String) -> (k: AgendaKey)
    requires
        spec_tz_known(zone@),
        spec_item_wf(*item),
    ensures
        k.view() == spec_item_key(item@, zone@),
{
    let (date, timed, minute): (i64, u8, i64) = match &item.due {
        Some(TodoDue::Date { date, .. }) => (date.days as i64, 0, 0),
        Some(TodoDue::Timed { at, .. }) => {
            let (d, m) = local_day_minute(zone, at.seconds);
            (d, 1, m)
        },
        None => match &item.event_time {
            Some(EventTime::AllDay { start, .. }) => (start.days as i64, 0, 0),
            Some(EventTime::Timed { start, .. }) => {
                let (d, m) = local_day_minute(zone, start.seconds);
                (d, 1, m)
            },
            None => (DATE_MAX_DAYS as i64, 0, 0),
        },
    };
    let lowered = crate::text::to_lowercase(item.title.as_str());
    AgendaKey {
        date,
        timed,
        minute,
        kind: if item.kind == AgendaKind::Event { 0 } else { 1 },
        title: crate::text::chars_of(lowered.as_str()),
        id: crate::text::chars_of(item.id.as_str()),
        occurrence: match item.occurrence_index {
            Some(i) => i,
            None => 0,
        },
    }
}

fn key_less(a: &AgendaKey, b: &AgendaKey) -> (r: bool)
    ensures
        r == spec_agenda_key_lt(a.view(), b.view()),
{
    if a.date != b.date {
        return a.date < b.date;
    }
    if a.timed != b.timed {
        return a.timed < b.timed;
    }
    if a.minute != b.minute {
        return a.minute < b.minute;
    }
    if a.kind != b.kind {
        return a.kind < b.kind;
    }
    if crate::text::chars_less(a.title.as_slice(), b.title.as_slice()) {
        return true;
    }
    if !crate::text::chars_eq(a.title.as_slice(), b.title.as_slice()) {
        return false;
    }
    if crate::text::chars_less(a.id.as_slice(), b.id.as_slice()) {
        return true;
    }
    if !crate::text::chars_eq(a.id.as_slice(), b.id.as_slice()) {
        return false;
    }
    a.occurrence < b.occurrence
}


/// Two decimal digits of a number below one hundred.
pub open spec fn spec_two_digits(n: int) -> Seq<char> {
    seq![(48 + n / 10) as char, (48 + n % 10) as char]
}

/// A minute of the day as `HH:MM`.
pub open spec fn spec_hhmm(m: int) -> Seq<char> {
    spec_two_digits(m / 60) + seq![':'] + spec_two_digits(m % 60)
}

/// When a row falls, in a zone: `all-day`, a start time, a span of two times,
/// or `unscheduled`.
pub open spec fn spec_when(item: AgendaItem, zone: Seq<char>) -> Seq<char> {
    match item.due {
        Some(TodoDue::Date { .. }) => "all-day"@,
        Some(TodoDue::Timed { at, .. }) => spec_hhmm(spec_local_minute(zone, at.seconds as int)),
        None => match item.event_time {
            None => "unscheduled"@,
            Some(EventTime::AllDay { .. }) => "all-day"@,
            Some(EventTime::Timed { start, end, .. }) => spec_hhmm(spec_local_minute(zone, start.seconds as int)) + "-"@
                + spec_hhmm(spec_local_minute(zone, end.seconds as int)),
        },
    }
}

/// The civil date a row belongs to in a zone, if it has one.
pub open spec fn spec_on(item: AgendaItem, zone: Seq<char>) -> Option<int> {
    match item.due {
        Some(TodoDue::Date { date, .. }) => Some(date.days as int),
        Some(TodoDue::Timed { at, .. }) => Some(spec_local_day(zone, at.seconds as int)),
        None => match item.event_time {
            None => None,
            Some(EventTime::AllDay { start, .. }) => Some(start.days as int),
            Some(EventTime::Timed { start, .. }) => Some(spec_local_day(zone, start.seconds as int)),
        },
    }
}

/// The lifecycle notes shown beside a title: the states that hold, joined by
/// commas in brackets after two spaces, or nothing.
pub open spec fn spec_notes(completed: bool, trashed: bool, blocked: bool) -> Seq<char> {
    let words = (if completed { seq!["done"@] } else { Seq::<Seq<char>>::empty() })
        + (if trashed { seq!["trashed"@] } else { Seq::<Seq<char>>::empty() })
        + (if blocked { seq!["blocked"@] } else { Seq::<Seq<char>>::empty() });
    if words.len() == 0 {
        Seq::empty()
    } else {
        "  ("@ + spec_join_words(words) + ")"@
    }
}

/// Words joined by `, `.
pub open spec fn spec_join_words(words: Seq<Seq<char>>) -> Seq<char>
    decreases words.len(),
{
    if words.len() == 0 {
        Seq::empty()
    } else if words.len() == 1 {
        words[0]
    } else {
        spec_join_words(words.drop_last()) + ", "@ + words.last()
    }
}

fn push_two_digits(out: &mut Vec<char>, n: i64)
    requires
        0 <= n < 100,
    ensures
        final(out)@ == old(out)@ + spec_two_digits(n as int),
{
    out.push(char_from_ascii((48 + n / 10) as u32));
    out.push(char_from_ascii((48 + n % 10) as u32));
}

fn push_hhmm(out: &mut Vec<char>, m: i64)
    requires
        0 <= m < 1440,
    ensures
        final(out)@ == old(out)@ + spec_hhmm(m as int),
{
    push_two_digits(out, m / 60);
    out.push(':');
    push_two_digits(out, m % 60);
}

impl AgendaItem {
    /// When this item falls, expressed in a zone: `HH:MM` for a timed todo,
    /// `HH:MM-HH:MM` for a timed event, `all-day`, or `unscheduled`.
    pub fn when(&self, zone: &String) -> (r: Result<String, TodoError>)
        requires
            spec_item_wf(*self),
        ensures
            !spec_tz_known(zone@) ==> r == Err::<String, TodoError>(TodoError::InvalidTimezone { timezone: *zone }),
            spec_tz_known(zone@) ==> (r matches Ok(s) && s@ == spec_when(*self, zone@)),
    {
        if !tz_known(zone.as_str()) {
            return Err(TodoError::InvalidTimezone { timezone: zone.clone() });
        }
        let mut out: Vec<char> = Vec::new();
        match &self.due {
            Some(TodoDue::Date { .. }) => {
                out = chars_of("all-day");
            },
            Some(TodoDue::Timed { at, .. }) => {
                let (_, m) = local_day_minute(zone, at.seconds);
                push_hhmm(&mut out, m);
            },
            None => match &self.event_time {
                None => {
                    out = chars_of("unscheduled");
                },
                Some(EventTime::AllDay { .. }) => {
                    out = chars_of("all-day");
                },
                Some(EventTime::Timed { start, end, .. }) => {
                    let (_, a) = local_day_minute(zone, start.seconds);
                    let (_, b) = local_day_minute(zone, end.seconds);
                    push_hhmm(&mut out, a);
                    out.push('-');
                    proof {
                        reveal_strlit("-");
                    }
                    push_hhmm(&mut out, b);
                    assert(out@ =~= spec_hhmm(a as int) + "-"@ + spec_hhmm(b as int));
                },
            },
        }
        Ok(string_of(out.as_slice()))
    }

    /// The civil date this item belongs to in a zone.
    pub fn on(&self, zone: &String) -> (r: Result<Option<CivilDate>, TodoError>)
        requires
            spec_item_wf(*self),
        ensures
            !spec_tz_known(zone@) ==> r == Err::<Option<CivilDate>, TodoError>(TodoError::InvalidTimezone { timezone: *zone }),
            spec_tz_known(zone@) ==> (r matches Ok(d) && match spec_on(*self, zone@) {
                Some(days) => d matches Some(x) && x.days == days,
                None => d is None,
            }),
    {
        if !tz_known(zone.as_str()) {
            return Err(TodoError::InvalidTimezone { timezone: zone.clone() });
        }
        let day: Option<i64> = match &self.due {
            Some(TodoDue::Date { date, .. }) => Some(date.days as i64),
            Some(TodoDue::Timed { at, .. }) => Some(local_day_minute(zone, at.seconds).0),
            None => match &self.event_time {
                None => None,
                Some(EventTime::AllDay { start, .. }) => Some(start.days as i64),
                Some(EventTime::Timed { start, .. }) => Some(local_day_minute(zone, start.seconds).0),
            },
        };
        match day {
            Some(d) => Ok(Some(CivilDate { days: d as i32 })),
            None => Ok(None),
        }
    }

    /// Lifecycle notes worth showing beside the title.
    pub fn notes(&self) -> (r: String)
        ensures
            r@ == spec_notes(self.completed, self.trashed, self.blocked),
    {
        let ghost words = (if self.completed { seq!["done"@] } else { Seq::<Seq<char>>::empty() })
            + (if self.trashed { seq!["trashed"@] } else { Seq::<Seq<char>>::empty() })
            + (if self.blocked { seq!["blocked"@] } else { Seq::<Seq<char>>::empty() });
        let mut parts: Vec<&str> = Vec::new();
        if self.completed {
            parts.push("done");
        }
        if self.trashed {
            parts.push("trashed");
        }
        if self.blocked {
            parts.push("blocked");
        }
        assert(parts@.map_values(|w: &str| w@) =~= words);
        if parts.len() == 0 {
            return string_of(Vec::<char>::new().as_slice());
        }
        let mut out = chars_of("  (");
        let ghost head = out@;
        let mut i: usize = 0;
        while i < parts.len()
            invariant
                i <= parts@.len(),
                parts@.len() > 0,
                parts@.map_values(|w: &str| w@) == words,
                i == 0 ==> out@ == head,
                i > 0 ==> out@ == head + spec_join_words(words.subrange(0, i as int)),
            decreases parts.len() - i,
        {
            if i > 0 {
                push_str_chars(&mut out, ", ");
            }
            push_str_chars(&mut out, parts[i]);
            proof {
                let w = words.subrange(0, i + 1);
                assert(w.drop_last() =~= words.subrange(0, i as int));
                assert(words[i as int] == parts@[i as int]@);
                if i == 0 {
                    assert(spec_join_words(w) == w[0]);
                }
            }
            i += 1;
        }
        assert(words.subrange(0, words.len() as int) =~= words);
        push_str_chars(&mut out, ")");
        string_of(out.as_slice())
    }

    /// A copy of this row.
    pub fn copy(&self) -> (r: AgendaItem)
        ensures
            r == *self,
    {
        AgendaItem {
            kind: self.kind,
            id: self.id.clone(),
            title: self.title.clone(),
            due: match &self.due {
                Some(d) => Some(d.copy()),
                None => None,
            },
            event_time: match &self.event_time {
                Some(t) => Some(t.copy()),
                None => None,
            },
            priority: self.priority,
            occurrence_index: self.occurrence_index,
            completed: self.completed,
            trashed: self.trashed,
            blocked: self.blocked,
        }
    }
}

/// Put rows in day order.
fn day_order(items: &Vec<AgendaItem>, zone: &String) -> (r: Vec<AgendaItem>)
    requires
        spec_tz_known(zone@),
        spec_items_wf(items@),
    ensures
        spec_item_views(r@) == spec_day_order(spec_item_views(items@), zone@),
{
    let ghost all = spec_item_views(items@);
    let mut out: Vec<AgendaItem> = Vec::new();
    let mut keys: Vec<AgendaKey> = Vec::new();
    let n = items.len();
    let mut i: usize = 0;
    while i < n
        invariant
            i <= n,
            n == items@.len(),
            all == spec_item_views(items@),
            spec_items_wf(items@),
            keys@.len() == out@.len(),
            forall|j: int| 0 <= j < keys@.len() ==> (#[trigger] keys@[j]).view() == spec_item_key(out@[j]@, zone@),
            spec_item_views(out@) == spec_day_order(all.subrange(0, i as int), zone@),
            spec_tz_known(zone@),
        decreases n - i,
    {
        let item = items[i].copy();
        let k = item_key(&item, zone);
        let mut p: usize = 0;
        while p < out.len() && !key_less(&k, &keys[p])
            invariant
                p <= out@.len(),
                keys@.len() == out@.len(),
                forall|j: int| 0 <= j < keys@.len() ==> (#[trigger] keys@[j]).view() == spec_item_key(out@[j]@, zone@),
                spec_insert_pos(spec_item_views(out@), item@, zone@, 0) == spec_insert_pos(spec_item_views(out@), item@, zone@, p as int),
                k.view() == spec_item_key(item@, zone@),
            decreases out.len() - p,
        {
            p += 1;
        }
        let ghost before = out@;
        let ghost before_keys = keys@;
        proof {
            assert(all.subrange(0, i + 1).drop_last() =~= all.subrange(0, i as int));
            assert(all.subrange(0, i + 1).last() == item@);
        }
        out.insert(p, item);
        keys.insert(p, k);
        proof {
            assert(spec_item_views(out@) =~= spec_item_views(before).insert(p as int, item@));
            assert forall|j: int| 0 <= j < keys@.len() implies (#[trigger] keys@[j]).view() == spec_item_key(out@[j]@, zone@) by {
                if j < p {
                    assert(keys@[j] == before_keys[j]);
                    assert(out@[j] == before[j]);
                } else if j == p {
                } else {
                    assert(keys@[j] == before_keys[j - 1]);
                    assert(out@[j] == before[j - 1]);
                }
            }
        }
        i += 1;
    }
    proof {
        assert(all.subrange(0, n as int) =~= all);
    }
    out
}

// ── The agenda ──

/// The rows the first `k` events give, the first refusal winning.
pub open spec fn spec_events_rows<E>(events: Seq<Event>, q: AgendaQuery, ws: int, we: int, through: CivilDate, k: int) -> Result<Seq<AgendaItemView>, QueryError<E>>
    decreases k,
{
    if k <= 0 {
        Ok(Seq::empty())
    } else {
        match spec_events_rows::<E>(events, q, ws, we, through, k - 1) {
            Err(x) => Err(x),
            Ok(rows) => match spec_event_rows::<E>(events[k - 1], q, ws, we, through) {
                Err(x) => Err(x),
                Ok(more) => Ok(rows + more),
            },
        }
    }
}

/// The rows the first `k` todos give, the first refusal winning.
pub open spec fn spec_todos_rows<E>(todos: Seq<Todo>, q: AgendaQuery, ws: int, we: int, through: CivilDate, k: int) -> Result<Seq<AgendaItemView>, QueryError<E>>
    decreases k,
{
    if k <= 0 {
        Ok(Seq::empty())
    } else {
        match spec_todos_rows::<E>(todos, q, ws, we, through, k - 1) {
            Err(x) => Err(x),
            Ok(rows) => match spec_todo_rows::<E>(todos[k - 1], todos, q, ws, we, through) {
                Err(x) => Err(x),
                Ok(more) => Ok(rows + more),
            },
        }
    }
}

/// The agenda a query gives over events and todos: every row in day order,
/// or the first refusal.
pub open spec fn spec_agenda<E>(q: AgendaQuery, events: Seq<Event>, todos: Seq<Todo>) -> Result<Seq<AgendaItemView>, QueryError<E>> {
    if q.start.days >= q.end_exclusive.days {
        Err(QueryError::Domain(TodoError::InvalidRecurrenceRange))
    } else if !spec_tz_known(q.timezone@) {
        Err(QueryError::InvalidTimezone { timezone: q.timezone })
    } else {
        match spec_day_boundary(q.timezone@, q.start) {
            None => Err(QueryError::InvalidDayBoundary { date: q.start, timezone: q.timezone }),
            Some(ws) => match spec_day_boundary(q.timezone@, q.end_exclusive) {
                None => Err(QueryError::InvalidDayBoundary { date: q.end_exclusive, timezone: q.timezone }),
                Some(we) => if !spec_day_in_range(q.end_exclusive.days - 1) {
                    Err(QueryError::Domain(TodoError::InvalidRecurrenceRange))
                } else {
                    let through = CivilDate { days: (q.end_exclusive.days - 1) as i32 };
                    match spec_events_rows::<E>(events, q, ws, we, through, events.len() as int) {
                        Err(x) => Err(x),
                        Ok(ev) => match spec_todos_rows::<E>(todos, q, ws, we, through, todos.len() as int) {
                            Err(x) => Err(x),
                            Ok(td) => Ok(spec_day_order(ev + td, q.timezone@)),
                        },
                    }
                },
            },
        }
    }
}

/// The combined agenda for one window.
#[derive(Debug, Clone, PartialEq, Eq)]
pub struct AgendaOutput {
    pub start: CivilDate,
    pub end_exclusive: CivilDate,
    /// The zone the window and every time is read in.
    pub timezone: String,
    pub todo_projection: Option<TodoProjectionMetadata>,
    pub items: Vec<AgendaItem>,
}

/// The query's dates and the inputs' times are ones this library holds.
pub open spec fn spec_agenda_inputs_wf(q: AgendaQuery, events: Seq<Event>, todos: Seq<Todo>) -> bool {
    &&& q.start.wf()
    &&& q.end_exclusive.wf()
    &&& forall|i: int| 0 <= i < events.len() ==> spec_time_wf(#[trigger] events[i].time)
    &&& forall|i: int| 0 <= i < todos.len() ==> ((#[trigger] todos[i]).due matches Some(d) ==> d.wf())
}

fn event_time_wf(time: &EventTime) -> (r: bool)
    ensures
        r == spec_time_wf(*time),
{
    match time {
        EventTime::Timed { start, end, .. } => start.is_well_formed() && end.is_well_formed(),
        EventTime::AllDay { start, end_exclusive } => start.is_in_range() && end_exclusive.is_in_range(),
    }
}

/// Whether every date and instant of an agenda's inputs is one this library holds.
pub fn agenda_inputs_wf(query: &AgendaQuery, events: &Vec<Event>, todos: &Vec<Todo>) -> (r: bool)
    ensures
        r == spec_agenda_inputs_wf(*query, events@, todos@),
{
    if !(query.start.is_in_range() && query.end_exclusive.is_in_range()) {
        return false;
    }
    let mut i: usize = 0;
    while i < events.len()
        invariant
            i <= events@.len(),
            forall|j: int| 0 <= j < i ==> spec_time_wf(#[trigger] events@[j].time),
        decreases events.len() - i,
    {
        if !event_time_wf(&events[i].time) {
            return false;
        }
        i += 1;
    }
    let mut i: usize = 0;
    while i < todos.len()
        invariant
            i <= todos@.len(),
            forall|j: int| 0 <= j < i ==> ((#[trigger] todos@[j]).due matches Some(d) ==> d.wf()),
        decreases todos.len() - i,
    {
        let ok = match &todos[i].due {
            Some(TodoDue::Date { date, .. }) => date.is_in_range(),
            Some(TodoDue::Timed { at, .. }) => at.is_well_formed(),
            None => true,
        };
        if !ok {
            return false;
        }
        i += 1;
    }
    true
}

impl AgendaOutput {
    /// The agenda of events and todos, with no projection identity.
    pub fn from_snapshot<E>(query: AgendaQuery, events: Vec<Event>, todos: Vec<Todo>) -> (r: Result<AgendaOutput, QueryError<E>>)
        requires
            spec_agenda_inputs_wf(query, events@, todos@),
        ensures
            match spec_agenda::<E>(query, events@, todos@) {
                Err(x) => r == Err::<AgendaOutput, QueryError<E>>(x),
                Ok(rows) => r matches Ok(out) && spec_item_views(out.items@) == rows && out.start == query.start
                    && out.end_exclusive == query.end_exclusive && out.timezone == query.timezone
                    && out.todo_projection is None,
            },
    {
        AgendaOutput::from_sources(&query, &events, &todos, None)
    }

    /// The agenda of events and projection todos, keeping the projection's identity.
    pub fn from_projection<E>(query: AgendaQuery, events: Vec<Event>, todos: crate::application::AgendaTodoSnapshot) -> (r: Result<AgendaOutput, QueryError<E>>)
        requires
            spec_agenda_inputs_wf(query, events@, todos.todos@),
        ensures
            match spec_agenda::<E>(query, events@, todos.todos@) {
                Err(x) => r == Err::<AgendaOutput, QueryError<E>>(x),
                Ok(rows) => r matches Ok(out) && spec_item_views(out.items@) == rows && out.start == query.start
                    && out.end_exclusive == query.end_exclusive && out.timezone == query.timezone
                    && out.todo_projection == Some(todos.metadata),
            },
    {
        AgendaOutput::from_sources(&query, &events, &todos.todos, Some(todos.metadata))
    }

    /// Build the agenda: check the window and zone, expand each live event and
    /// each todo the filters keep into the window, and put the rows in day order.
    pub fn from_sources<E>(
        query: &AgendaQuery,
        events: &Vec<Event>,
        todos: &Vec<Todo>,
        todo_projection: Option<TodoProjectionMetadata>,
    ) -> (r: Result<AgendaOutput, QueryError<E>>)
        requires
            spec_agenda_inputs_wf(*query, events@, todos@),
        ensures
            match spec_agenda::<E>(*query, events@, todos@) {
                Err(x) => r == Err::<AgendaOutput, QueryError<E>>(x),
                Ok(rows) => r matches Ok(out) && spec_item_views(out.items@) == rows && out.start == query.start
                    && out.end_exclusive == query.end_exclusive && out.timezone == query.timezone
                    && out.todo_projection == todo_projection,
            },
    {
        if query.start.days >= query.end_exclusive.days {
            return Err(QueryError::Domain(TodoError::InvalidRecurrenceRange));
        }
        if !tz_known(query.timezone.as_str()) {
            return Err(QueryError::InvalidTimezone { timezone: query.timezone.clone() });
        }
        let ws = local_day_boundary(&query.timezone, query.start)?;
        let we = local_day_boundary(&query.timezone, query.end_exclusive)?;
        let through = match query.end_exclusive.pred() {
            Some(d) => d,
            None => return Err(QueryError::Domain(TodoError::InvalidRecurrenceRange)),
        };
        let mut rows: Vec<AgendaItem> = Vec::new();
        assert(spec_item_views(rows@) =~= Seq::<AgendaItemView>::empty());
        let mut i: usize = 0;
        while i < events.len()
            invariant
                i <= events@.len(),
                spec_agenda_inputs_wf(*query, events@, todos@),
                spec_items_wf(rows@),
                query.start.days < query.end_exclusive.days,
                spec_tz_known(query.timezone@),
                spec_day_boundary(query.timezone@, query.start) == Some(ws as int),
                spec_day_boundary(query.timezone@, query.end_exclusive) == Some(we as int),
                spec_day_in_range(query.end_exclusive.days - 1),
                through.days == query.end_exclusive.days - 1,
                spec_events_rows::<E>(events@, *query, ws as int, we as int, through, i as int) == Ok::<Seq<AgendaItemView>, QueryError<E>>(spec_item_views(rows@)),
            decreases events.len() - i,
        {
            let ghost before = rows@;
            match event_rows::<E>(&events[i], query, ws, we, through, &mut rows) {
                Ok(()) => {},
                Err(x) => {
                    proof {
                        lemma_events_err_stays::<E>(events@, *query, ws as int, we as int, through, i as int + 1, events@.len() as int);
                    }
                    return Err(x);
                },
            }
            i += 1;
        }
        let ghost event_rows_view = spec_item_views(rows@);
        let mut k: usize = 0;
        while k < todos.len()
            invariant
                k <= todos@.len(),
                spec_agenda_inputs_wf(*query, events@, todos@),
                spec_items_wf(rows@),
                query.start.days < query.end_exclusive.days,
                spec_tz_known(query.timezone@),
                spec_day_boundary(query.timezone@, query.start) == Some(ws as int),
                spec_day_boundary(query.timezone@, query.end_exclusive) == Some(we as int),
                spec_day_in_range(query.end_exclusive.days - 1),
                through.days == query.end_exclusive.days - 1,
                spec_events_rows::<E>(events@, *query, ws as int, we as int, through, events@.len() as int) == Ok::<Seq<AgendaItemView>, QueryError<E>>(event_rows_view),
                spec_todos_rows::<E>(todos@, *query, ws as int, we as int, through, k as int) matches Ok(td)
                    && spec_item_views(rows@) == event_rows_view + td,
            decreases todos.len() - k,
        {
            let ghost before = spec_item_views(rows@);
            match todo_rows::<E>(&todos[k], todos, query, ws, we, through, &mut rows) {
                Ok(()) => {
                    proof {
                        let td = spec_todos_rows::<E>(todos@, *query, ws as int, we as int, through, k as int)->Ok_0;
                        let more = spec_todo_rows::<E>(todos@[k as int], todos@, *query, ws as int, we as int, through)->Ok_0;
                        assert(event_rows_view + td + more =~= event_rows_view + (td + more));
                    }
                },
                Err(x) => {
                    proof {
                        lemma_todos_err_stays::<E>(todos@, *query, ws as int, we as int, through, k as int + 1, todos@.len() as int);
                    }
                    return Err(x);
                },
            }
            k += 1;
        }
        let items = day_order(&rows, &query.timezone);
        Ok(AgendaOutput {
            start: query.start,
            end_exclusive: query.end_exclusive,
            timezone: query.timezone.clone(),
            todo_projection,
            items,
        })
    }
}

proof fn lemma_events_err_stays<E>(events: Seq<Event>, q: AgendaQuery, ws: int, we: int, through: CivilDate, k: int, m: int)
    requires
        0 <= k <= m,
        spec_events_rows::<E>(events, q, ws, we, through, k) is Err,
    ensures
        spec_events_rows::<E>(events, q, ws, we, through, m) == spec_events_rows::<E>(events, q, ws, we, through, k),
    decreases m - k,
{
    if m > k {
        lemma_events_err_stays::<E>(events, q, ws, we, through, k, m - 1);
    }
}

proof fn lemma_todos_err_stays<E>(todos: Seq<Todo>, q: AgendaQuery, ws: int, we: int, through: CivilDate, k: int, m: int)
    requires
        0 <= k <= m,
        spec_todos_rows::<E>(todos, q, ws, we, through, k) is Err,
    ensures
        spec_todos_rows::<E>(todos, q, ws, we, through, m) == spec_todos_rows::<E>(todos, q, ws, we, through, k),
    decreases m - k,
{
    if m > k {
        lemma_todos_err_stays::<E>(todos, q, ws, we, through, k, m - 1);
    }
}

// ── The order is a sort ──

proof fn lemma_agenda_key_lt_asymmetric(a: AgendaKeyView, b: AgendaKeyView)
    ensures
        !(spec_agenda_key_lt(a, b) && spec_agenda_key_lt(b, a)),
        !spec_agenda_key_lt(a, a),
{
    lemma_chars_lt_total(a.4, b.4);
    lemma_chars_lt_total(a.5, b.5);
    lemma_chars_lt_irreflexive(a.4);
    lemma_chars_lt_irreflexive(a.5);
}

proof fn lemma_agenda_key_lt_transitive(a: AgendaKeyView, b: AgendaKeyView, c: AgendaKeyView)
    requires
        spec_agenda_key_lt(a, b),
        spec_agenda_key_lt(b, c),
    ensures
        spec_agenda_key_lt(a, c),
{
    if a.0 == b.0 && b.0 == c.0 && a.1 == b.1 && b.1 == c.1 && a.2 == b.2 && b.2 == c.2 && a.3 == b.3 && b.3 == c.3 {
        if spec_chars_lt(a.4, b.4) && spec_chars_lt(b.4, c.4) {
            lemma_chars_lt_transitive(a.4, b.4, c.4);
        }
        if a.4 == b.4 && b.4 == c.4 && spec_chars_lt(a.5, b.5) && spec_chars_lt(b.5, c.5) {
            lemma_chars_lt_transitive(a.5, b.5, c.5);
        }
    }
}

/// Rows whose keys never decrease.
pub open spec fn spec_in_day_order(s: Seq<AgendaItemView>, zone: Seq<char>) -> bool {
    forall|i: int, j: int| 0 <= i < j < s.len() ==> !spec_agenda_key_lt(spec_item_key(#[trigger] s[j], zone), spec_item_key(#[trigger] s[i], zone))
}

proof fn lemma_insert_pos_before(sorted: Seq<AgendaItemView>, x: AgendaItemView, zone: Seq<char>, p: int)
    requires
        0 <= p <= sorted.len(),
    ensures
        p <= spec_insert_pos(sorted, x, zone, p) <= sorted.len(),
        forall|q: int| p <= q < spec_insert_pos(sorted, x, zone, p) ==> !spec_agenda_key_lt(spec_item_key(x, zone), spec_item_key(#[trigger] sorted[q], zone)),
        spec_insert_pos(sorted, x, zone, p) < sorted.len() ==> spec_agenda_key_lt(spec_item_key(x, zone), spec_item_key(sorted[spec_insert_pos(sorted, x, zone, p)], zone)),
    decreases sorted.len() - p,
{
    if p < sorted.len() && !spec_agenda_key_lt(spec_item_key(x, zone), spec_item_key(sorted[p], zone)) {
        lemma_insert_pos_before(sorted, x, zone, p + 1);
    }
}

/// The day order is a sort: its rows are the given rows, each as often, and
/// no row comes after one whose key is greater.
pub proof fn lemma_day_order_sorts(items: Seq<AgendaItemView>, zone: Seq<char>)
    ensures
        spec_in_day_order(spec_day_order(items, zone), zone),
        spec_day_order(items, zone).to_multiset() == items.to_multiset(),
    decreases items.len(),
{
    broadcast use vstd::seq_lib::group_to_multiset_ensures;

    if items.len() > 0 {
        let rest = items.drop_last();
        let x = items.last();
        lemma_day_order_sorts(rest, zone);
        let sorted = spec_day_order(rest, zone);
        lemma_insert_pos_before(sorted, x, zone, 0);
        let p = spec_insert_pos(sorted, x, zone, 0);
        let n = sorted.insert(p, x);
        let kx = spec_item_key(x, zone);
        assert forall|i: int, j: int| 0 <= i < j < n.len() implies !spec_agenda_key_lt(spec_item_key(#[trigger] n[j], zone), spec_item_key(#[trigger] n[i], zone)) by {
            if j < p {
                assert(n[i] == sorted[i] && n[j] == sorted[j]);
            } else if i < p && j == p {
                assert(n[i] == sorted[i]);
                assert(!spec_agenda_key_lt(kx, spec_item_key(sorted[i], zone)));
            } else if i < p {
                assert(n[i] == sorted[i] && n[j] == sorted[j - 1]);
            } else if i == p {
                assert(n[j] == sorted[j - 1]);
                let kp = spec_item_key(sorted[p], zone);
                let kj = spec_item_key(sorted[j - 1], zone);
                assert(spec_agenda_key_lt(kx, kp));
                if spec_agenda_key_lt(kj, kx) {
                    lemma_agenda_key_lt_transitive(kj, kx, kp);
                    if j - 1 == p {
                        lemma_agenda_key_lt_asymmetric(kj, kj);
                    } else {
                        assert(!spec_agenda_key_lt(kj, kp));
                    }
                }
            } else {
                assert(n[i] == sorted[i - 1] && n[j] == sorted[j - 1]);
            }
        }
        assert(items =~= rest.push(x));
        vstd::seq_lib::to_multiset_insert(sorted, p, x);
    }
}

} // verus!

verus! {

// ── What an agenda lets through ──

/// A row the query's filters let through: a todo row carries a due value and
/// is completed, trashed or blocked only when the query asks for such todos;
/// an event row carries a time.
pub open spec fn spec_row_admitted(q: AgendaQuery, v: AgendaItemView) -> bool {
    match v.kind {
        AgendaKind::Todo => v.due is Some && v.event_time is None && (v.completed ==> q.include_completed) && (
        v.trashed ==> q.include_trashed) && (v.blocked ==> q.include_blocked),
        AgendaKind::Event => v.event_time is Some && v.due is None,
    }
}

proof fn lemma_due_rows_admitted(q: AgendaQuery, t: Todo, ds: Seq<(u32, TodoDue)>, blocked: bool, k: int)
    requires
        !spec_filtered(q, t, blocked),
    ensures
        forall|i: int| 0 <= i < spec_due_rows(t, ds, blocked, k).len() ==> spec_row_admitted(q, #[trigger] spec_due_rows(t, ds, blocked, k)[i]),
    decreases k,
{
    if k > 0 {
        lemma_due_rows_admitted(q, t, ds, blocked, k - 1);
        let prev = spec_due_rows(t, ds, blocked, k - 1);
        let cur = spec_due_rows(t, ds, blocked, k);
        assert forall|i: int| 0 <= i < cur.len() implies spec_row_admitted(q, #[trigger] cur[i]) by {
            if i < prev.len() {
                assert(cur[i] == prev[i]);
            }
        }
    }
}

proof fn lemma_todos_rows_admitted<E>(todos: Seq<Todo>, q: AgendaQuery, ws: int, we: int, through: CivilDate, k: int)
    requires
        spec_todos_rows::<E>(todos, q, ws, we, through, k) is Ok,
    ensures
        forall|i: int| 0 <= i < spec_todos_rows::<E>(todos, q, ws, we, through, k)->Ok_0.len() ==> spec_row_admitted(
            q,
            #[trigger] spec_todos_rows::<E>(todos, q, ws, we, through, k)->Ok_0[i],
        ),
    decreases k,
{
    if k > 0 {
        lemma_todos_rows_admitted::<E>(todos, q, ws, we, through, k - 1);
        let t = todos[k - 1];
        let blocked = spec_blocked(todos, t);
        if !spec_filtered(q, t, blocked) {
            let ds = spec_agenda_due_instances(t, q.start.days as int, through.days as int, ws, we)->Ok_0;
            lemma_due_rows_admitted(q, t, ds, blocked, ds.len() as int);
        }
        let rows = spec_todos_rows::<E>(todos, q, ws, we, through, k - 1)->Ok_0;
        let more = spec_todo_rows::<E>(t, todos, q, ws, we, through)->Ok_0;
        assert forall|i: int| 0 <= i < (rows + more).len() implies spec_row_admitted(q, #[trigger] (rows + more)[i]) by {
            if i >= rows.len() {
                assert((rows + more)[i] == more[i - rows.len()]);
            }
        }
    }
}

proof fn lemma_occurrence_rows_admitted(q: AgendaQuery, e: Event, occ: Seq<(u32, EventTime)>, k: int)
    ensures
        forall|i: int| 0 <= i < spec_occurrence_rows(e, occ, k).len() ==> spec_row_admitted(q, #[trigger] spec_occurrence_rows(e, occ, k)[i]),
    decreases k,
{
    if k > 0 {
        lemma_occurrence_rows_admitted(q, e, occ, k - 1);
        let prev = spec_occurrence_rows(e, occ, k - 1);
        let cur = spec_occurrence_rows(e, occ, k);
        assert forall|i: int| 0 <= i < cur.len() implies spec_row_admitted(q, #[trigger] cur[i]) by {
            if i < prev.len() {
                assert(cur[i] == prev[i]);
            }
        }
    }
}

proof fn lemma_events_rows_admitted<E>(events: Seq<Event>, q: AgendaQuery, ws: int, we: int, through: CivilDate, k: int)
    requires
        spec_events_rows::<E>(events, q, ws, we, through, k) is Ok,
    ensures
        forall|i: int| 0 <= i < spec_events_rows::<E>(events, q, ws, we, through, k)->Ok_0.len() ==> spec_row_admitted(
            q,
            #[trigger] spec_events_rows::<E>(events, q, ws, we, through, k)->Ok_0[i],
        ),
    decreases k,
{
    if k > 0 {
        lemma_events_rows_admitted::<E>(events, q, ws, we, through, k - 1);
        let e = events[k - 1];
        if let Some(rule) = e.metadata.recurrence_rule {
            let occ = spec_expand(rule, e.time, q.start.days as int, through.days as int)->Ok_0;
            lemma_occurrence_rows_admitted(q, e, occ, occ.len() as int);
        }
        let rows = spec_events_rows::<E>(events, q, ws, we, through, k - 1)->Ok_0;
        let more = spec_event_rows::<E>(e, q, ws, we, through)->Ok_0;
        assert forall|i: int| 0 <= i < (rows + more).len() implies spec_row_admitted(q, #[trigger] (rows + more)[i]) by {
            if i >= rows.len() {
                assert((rows + more)[i] == more[i - rows.len()]);
            }
        }
    }
}

/// Only todos carrying a due value appear on an agenda, and completed, trashed
/// or blocked ones only when the query asks for them; every event row carries
/// the time of its occurrence.
pub proof fn lemma_agenda_rows_are_admitted<E>(q: AgendaQuery, events: Seq<Event>, todos: Seq<Todo>)
    requires
        spec_agenda::<E>(q, events, todos) is Ok,
    ensures
        forall|i: int| 0 <= i < spec_agenda::<E>(q, events, todos)->Ok_0.len() ==> spec_row_admitted(
            q,
            #[trigger] spec_agenda::<E>(q, events, todos)->Ok_0[i],
        ),
{
    broadcast use vstd::seq_lib::group_to_multiset_ensures;

    let ws = spec_day_boundary(q.timezone@, q.start)->Some_0;
    let we = spec_day_boundary(q.timezone@, q.end_exclusive)->Some_0;
    let through = CivilDate { days: (q.end_exclusive.days - 1) as i32 };
    lemma_events_rows_admitted::<E>(events, q, ws, we, through, events.len() as int);
    lemma_todos_rows_admitted::<E>(todos, q, ws, we, through, todos.len() as int);
    let ev = spec_events_rows::<E>(events, q, ws, we, through, events.len() as int)->Ok_0;
    let td = spec_todos_rows::<E>(todos, q, ws, we, through, todos.len() as int)->Ok_0;
    let all = ev + td;
    let out = spec_day_order(all, q.timezone@);
    lemma_day_order_sorts(all, q.timezone@);
    assert forall|i: int| 0 <= i < out.len() implies spec_row_admitted(q, #[trigger] out[i]) by {
        assert(out.contains(out[i]));
        assert(out.to_multiset().count(out[i]) > 0);
        assert(all.contains(out[i]));
        let j = choose|j: int| 0 <= j < all.len() && all[j] == out[i];
        if j >= ev.len() {
            assert(all[j] == td[j - ev.len()]);
        }
    }
}

} // verus!

verus! {

// ── What makes a todo row blocked ──

/// A todo row stands for a todo of the input, and is blocked exactly when
/// that todo names a dependency whose todo is in the input and is neither
/// completed nor trashed.
pub open spec fn spec_row_true_to(todos: Seq<Todo>, v: AgendaItemView) -> bool {
    v.kind == AgendaKind::Todo ==> exists|t: int|
        0 <= t < todos.len() && v.id == spec_uuid_text(#[trigger] todos[t].id.value) && v.title == todos[t].title@
            && (v.blocked <==> exists|j: int, m: int|
            0 <= j < todos[t].dependency_ids@.len() && 0 <= m < todos.len() && #[trigger] todos[m].id
                == #[trigger] todos[t].dependency_ids@[j] && todos[m].trashed_at is None && todos[m].completed_at is None)
}

proof fn lemma_blocked_means_open_dependency(todos: Seq<Todo>, t: Todo)
    ensures
        spec_blocked(todos, t) <==> exists|j: int, m: int|
            0 <= j < t.dependency_ids@.len() && 0 <= m < todos.len() && #[trigger] todos[m].id
                == #[trigger] t.dependency_ids@[j] && todos[m].trashed_at is None && todos[m].completed_at is None,
{
    if spec_blocked(todos, t) {
        let j = choose|j: int| 0 <= j < t.dependency_ids@.len() && spec_live(todos, #[trigger] t.dependency_ids@[j]);
        let m = choose|m: int| 0 <= m < todos.len() && #[trigger] todos[m].id == t.dependency_ids@[j]
            && todos[m].trashed_at is None && todos[m].completed_at is None;
        assert(todos[m].id == t.dependency_ids@[j]);
    }
    if exists|j: int, m: int|
        0 <= j < t.dependency_ids@.len() && 0 <= m < todos.len() && #[trigger] todos[m].id
            == #[trigger] t.dependency_ids@[j] && todos[m].trashed_at is None && todos[m].completed_at is None {
        let (j, m) = choose|j: int, m: int|
            0 <= j < t.dependency_ids@.len() && 0 <= m < todos.len() && #[trigger] todos[m].id
                == #[trigger] t.dependency_ids@[j] && todos[m].trashed_at is None && todos[m].completed_at is None;
        assert(spec_live(todos, t.dependency_ids@[j]));
    }
}

proof fn lemma_due_rows_true(todos: Seq<Todo>, ti: int, ds: Seq<(u32, TodoDue)>, k: int)
    requires
        0 <= ti < todos.len(),
    ensures
        forall|i: int| 0 <= i < spec_due_rows(todos[ti], ds, spec_blocked(todos, todos[ti]), k).len() ==> spec_row_true_to(
            todos,
            #[trigger] spec_due_rows(todos[ti], ds, spec_blocked(todos, todos[ti]), k)[i],
        ),
    decreases k,
{
    let blocked = spec_blocked(todos, todos[ti]);
    if k > 0 {
        lemma_due_rows_true(todos, ti, ds, k - 1);
        lemma_blocked_means_open_dependency(todos, todos[ti]);
        let prev = spec_due_rows(todos[ti], ds, blocked, k - 1);
        let cur = spec_due_rows(todos[ti], ds, blocked, k);
        assert forall|i: int| 0 <= i < cur.len() implies spec_row_true_to(todos, #[trigger] cur[i]) by {
            if i < prev.len() {
                assert(cur[i] == prev[i]);
            } else {
                assert(cur[i] == spec_todo_row(todos[ti], ds[k - 1].0, ds[k - 1].1, blocked));
                assert(cur[i].id == spec_uuid_text(todos[ti].id.value));
            }
        }
    }
}

proof fn lemma_todos_rows_true<E>(todos: Seq<Todo>, q: AgendaQuery, ws: int, we: int, through: CivilDate, k: int)
    requires
        0 <= k <= todos.len(),
        spec_todos_rows::<E>(todos, q, ws, we, through, k) is Ok,
    ensures
        forall|i: int| 0 <= i < spec_todos_rows::<E>(todos, q, ws, we, through, k)->Ok_0.len() ==> spec_row_true_to(
            todos,
            #[trigger] spec_todos_rows::<E>(todos, q, ws, we, through, k)->Ok_0[i],
        ),
    decreases k,
{
    if k > 0 {
        lemma_todos_rows_true::<E>(todos, q, ws, we, through, k - 1);
        let t = todos[k - 1];
        let blocked = spec_blocked(todos, t);
        if !spec_filtered(q, t, blocked) {
            let ds = spec_agenda_due_instances(t, q.start.days as int, through.days as int, ws, we)->Ok_0;
            lemma_due_rows_true(todos, k - 1, ds, ds.len() as int);
        }
        let rows = spec_todos_rows::<E>(todos, q, ws, we, through, k - 1)->Ok_0;
        let more = spec_todo_rows::<E>(t, todos, q, ws, we, through)->Ok_0;
        assert forall|i: int| 0 <= i < (rows + more).len() implies spec_row_true_to(todos, #[trigger] (rows + more)[i]) by {
            if i >= rows.len() {
                assert((rows + more)[i] == more[i - rows.len()]);
            }
        }
    }
}

proof fn lemma_occurrence_rows_are_events(e: Event, occ: Seq<(u32, EventTime)>, k: int)
    ensures
        forall|i: int| 0 <= i < spec_occurrence_rows(e, occ, k).len() ==> (#[trigger] spec_occurrence_rows(e, occ, k)[i]).kind
            == AgendaKind::Event,
    decreases k,
{
    if k > 0 {
        lemma_occurrence_rows_are_events(e, occ, k - 1);
        let prev = spec_occurrence_rows(e, occ, k - 1);
        let cur = spec_occurrence_rows(e, occ, k);
        assert forall|i: int| 0 <= i < cur.len() implies (#[trigger] cur[i]).kind == AgendaKind::Event by {
            if i < prev.len() {
                assert(cur[i] == prev[i]);
            }
        }
    }
}

proof fn lemma_events_rows_are_events<E>(events: Seq<Event>, q: AgendaQuery, ws: int, we: int, through: CivilDate, k: int)
    requires
        spec_events_rows::<E>(events, q, ws, we, through, k) is Ok,
    ensures
        forall|i: int| 0 <= i < spec_events_rows::<E>(events, q, ws, we, through, k)->Ok_0.len() ==> (
        #[trigger] spec_events_rows::<E>(events, q, ws, we, through, k)->Ok_0[i]).kind == AgendaKind::Event,
    decreases k,
{
    if k > 0 {
        lemma_events_rows_are_events::<E>(events, q, ws, we, through, k - 1);
        let e = events[k - 1];
        if let Some(rule) = e.metadata.recurrence_rule {
            let occ = spec_expand(rule, e.time, q.start.days as int, through.days as int)->Ok_0;
            lemma_occurrence_rows_are_events(e, occ, occ.len() as int);
        }
        let rows = spec_events_rows::<E>(events, q, ws, we, through, k - 1)->Ok_0;
        let more = spec_event_rows::<E>(e, q, ws, we, through)->Ok_0;
        assert forall|i: int| 0 <= i < (rows + more).len() implies (#[trigger] (rows + more)[i]).kind == AgendaKind::Event by {
            if i >= rows.len() {
                assert((rows + more)[i] == more[i - rows.len()]);
            }
        }
    }
}

/// Every todo row of an agenda stands for a todo of the input, with its
/// identity and title, and is marked blocked exactly when that todo depends
/// on a todo of the input that is neither completed nor trashed: a completed
/// or trashed prerequisite blocks nothing.
pub proof fn lemma_blocked_rows_wait_on_open_todos<E>(q: AgendaQuery, events: Seq<Event>, todos: Seq<Todo>)
    requires
        spec_agenda::<E>(q, events, todos) is Ok,
    ensures
        forall|i: int| 0 <= i < spec_agenda::<E>(q, events, todos)->Ok_0.len() ==> {
            let v = #[trigger] spec_agenda::<E>(q, events, todos)->Ok_0[i];
            v.kind == AgendaKind::Todo ==> exists|t: int|
                0 <= t < todos.len() && v.id == spec_uuid_text(#[trigger] todos[t].id.value) && v.title
                    == todos[t].title@ && (v.blocked <==> exists|j: int, m: int|
                    0 <= j < todos[t].dependency_ids@.len() && 0 <= m < todos.len() && #[trigger] todos[m].id
                        == #[trigger] todos[t].dependency_ids@[j] && todos[m].trashed_at is None
                        && todos[m].completed_at is None)
        },
{
    broadcast use vstd::seq_lib::group_to_multiset_ensures;

    let ws = spec_day_boundary(q.timezone@, q.start)->Some_0;
    let we = spec_day_boundary(q.timezone@, q.end_exclusive)->Some_0;
    let through = CivilDate { days: (q.end_exclusive.days - 1) as i32 };
    lemma_events_rows_are_events::<E>(events, q, ws, we, through, events.len() as int);
    lemma_todos_rows_true::<E>(todos, q, ws, we, through, todos.len() as int);
    let ev = spec_events_rows::<E>(events, q, ws, we, through, events.len() as int)->Ok_0;
    let td = spec_todos_rows::<E>(todos, q, ws, we, through, todos.len() as int)->Ok_0;
    let all = ev + td;
    let out = spec_day_order(all, q.timezone@);
    lemma_day_order_sorts(all, q.timezone@);
    assert forall|i: int| 0 <= i < out.len() implies spec_row_true_to(todos, #[trigger] out[i]) by {
        assert(out.contains(out[i]));
        assert(out.to_multiset().count(out[i]) > 0);
        assert(all.contains(out[i]));
        let j = choose|j: int| 0 <= j < all.len() && all[j] == out[i];
        if j >= ev.len() {
            assert(all[j] == td[j - ev.len()]);
        } else {
            assert(all[j] == ev[j]);
        }
    }
}

} // verus!
