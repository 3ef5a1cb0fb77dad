//! The application boundary: edits, query projections and their orders.
use vstd::prelude::*;

use crate::agenda::{
    AgendaOutput, AgendaQuery, QueryError, agenda_inputs_wf, local_day_boundary, spec_agenda, spec_agenda_inputs_wf,
    spec_day_boundary, spec_item_views,
};
use crate::domain::{
    Alarm, Calendar, EventStatus, DomainError, Event, EventMetadata, EventRecurrence, EventTime, RfcUid, spec_description_error,
    spec_fresh_event, spec_location_error, spec_text_error, spec_timed_error, spec_url_error, validate_description,
    validate_location, validate_text, validate_url,
};
use crate::ids::{CalendarId, EventId, ProjectId, TagId, TodoId};
use crate::recurrence::{spec_expand, spec_time_wf};
use crate::text::{chars_eq, chars_less, chars_of, lemma_chars_lt_irreflexive, lemma_chars_lt_total, lemma_chars_lt_transitive, spec_chars_lt, spec_to_lowercase, to_lowercase};
use crate::time::{CivilDate, LocalMapping, MAX_INSTANT_SECONDS, OffsetDateTime, SECONDS_PER_DAY, Timestamp, UNIX_EPOCH_DAYS, spec_seconds_in_range, spec_tz_from_local, spec_tz_known, tz_from_local, tz_known};
use crate::todo::{Priority, Project, RecurrenceRule, Tag, Todo, TodoDue, TodoError, TodoReminder, spec_todo_text_error};

verus! {

broadcast use vstd::seq_lib::group_to_multiset_ensures;

// ── Edits ──

/// One optional field in an edit: leave it, set it, or clear it.
///
/// Clearing is a distinct intention from leaving a field alone, which is why
/// this is not an `Option`.
#[derive(Debug, Clone, PartialEq, Eq, Default)]
pub enum Change<T> {
    #[default]
    Keep,
    Replace(T),
    Clear,
}

impl<T: Clone> Change<T> {
    pub fn is_keep(&self) -> (r: bool)
        ensures
            r == (*self is Keep),
    {
        match self {
            Change::Keep => true,
            _ => false,
        }
    }

    /// The value a field holds after this change is applied to `current`.
    pub fn resolve(&self, current: Option<&T>) -> (r: Option<T>)
        ensures
            match *self {
                Change::Keep => match current {
                    Some(c) => r matches Some(v) && cloned::<T>(*c, v),
                    None => r is None,
                },
                Change::Replace(x) => r matches Some(v) && cloned::<T>(x, v),
                Change::Clear => r is None,
            },
    {
        match self {
            Change::Keep => match current {
                Some(c) => Some(c.clone()),
                None => None,
            },
            Change::Replace(value) => Some(value.clone()),
            Change::Clear => None,
        }
    }
}

/// Explicitly supplied fields for one optimistic event edit.
#[derive(Debug, Clone, PartialEq, Eq, Default)]
pub struct EventEdit {
    pub title: Option<String>,
    pub time: Option<EventTime>,
    /// Move the event to another live calendar, keeping its identity and history.
    pub calendar_id: Option<CalendarId>,
    pub description: Change<String>,
    pub location: Change<String>,
    pub url: Change<String>,
    pub busy: Option<bool>,
}

/// Why a time is refused when its constructor's checks are run again. A time
/// whose instants lie outside what this library holds is not one a
/// constructor can be asked about, and is passed over.
pub open spec fn spec_time_error(t: EventTime) -> Option<DomainError> {
    match t {
        EventTime::Timed { start, end, timezone } => if start.wf() && end.wf() {
            spec_timed_error(start, end, timezone)
        } else {
            None
        },
        EventTime::AllDay { start, end_exclusive } => if start.days < end_exclusive.days {
            None
        } else {
            Some(DomainError::InvalidAllDayRange)
        },
    }
}

/// The first supplied value of an edit that fails its own check.
pub open spec fn spec_edit_error(e: EventEdit) -> Option<DomainError> {
    if e.title matches Some(t) && spec_text_error("event title", t@) is Some {
        spec_text_error("event title", e.title->0@)
    } else if e.time matches Some(t) && spec_time_error(t) is Some {
        spec_time_error(e.time->0)
    } else if e.description matches Change::Replace(v) && spec_description_error(v@) is Some {
        spec_description_error(e.description->Replace_0@)
    } else if e.location matches Change::Replace(v) && spec_location_error(v@) is Some {
        spec_location_error(e.location->Replace_0@)
    } else if e.url matches Change::Replace(v) && spec_url_error(v@) is Some {
        spec_url_error(e.url->Replace_0@)
    } else {
        None
    }
}

/// Why a repeat rule cannot stand on a time: it is invalid on its own, or it
/// cannot produce the time's own first occurrence.
pub open spec fn spec_rule_check(rule: EventRecurrence, time: EventTime) -> Option<DomainError> {
    if rule.spec_error() is Some {
        rule.spec_error()
    } else if !spec_time_wf(time) {
        Some(DomainError::InvalidRecurrenceRange)
    } else {
        let first = time.spec_start_date().days as int;
        match spec_expand(rule, time, first, first) {
            Err(e) => Some(e),
            Ok(_) => None,
        }
    }
}

/// What a change leaves in a text field.
pub open spec fn spec_resolved(c: Change<String>, current: Option<String>) -> Option<String> {
    match c {
        Change::Keep => current,
        Change::Replace(v) => Some(v),
        Change::Clear => None,
    }
}

fn resolve_text(c: &Change<String>, current: &Option<String>) -> (r: Option<String>)
    ensures
        r == spec_resolved(*c, *current),
{
    let r = c.resolve(current.as_ref());
    proof {
        if *c is Keep && *current is Some {
            assert(r->0 == current->0);
        }
    }
    r
}

fn copy_text(s: &Option<String>) -> (r: Option<String>)
    ensures
        r == *s,
{
    match s {
        Some(t) => Some(t.clone()),
        None => None,
    }
}

fn copy_rule(rule: &EventRecurrence) -> (r: EventRecurrence)
    ensures
        r@ == rule@,
{
    EventRecurrence {
        frequency: rule.frequency,
        interval: rule.interval,
        count: rule.count,
        until: rule.until,
        by_weekday: rule.by_weekday.clone(),
    }
}

fn time_wf(time: &EventTime) -> (r: bool)
    ensures
        r == spec_time_wf(*time),
{
    match time {
        EventTime::Timed { start, end, .. } => start.is_well_formed() && end.is_well_formed(),
        EventTime::AllDay { start, end_exclusive } => start.is_in_range() && end_exclusive.is_in_range(),
    }
}

/// Refuse a rule that cannot produce its own first occurrence, before it is stored.
fn check_rule(rule: &EventRecurrence, time: &EventTime) -> (r: Result<(), DomainError>)
    ensures
        match spec_rule_check(*rule, *time) {
            Some(e) => r == Err::<(), DomainError>(e),
            None => r is Ok,
        },
{
    rule.validate()?;
    if !time_wf(time) {
        return Err(DomainError::InvalidRecurrenceRange);
    }
    let first = match time {
        EventTime::Timed { start, .. } => start.local_date(),
        EventTime::AllDay { start, .. } => *start,
    };
    assert(first == time.spec_start_date());
    match rule.expand(time, first, first) {
        Ok(_) => Ok(()),
        Err(e) => Err(e),
    }
}

fn validated_rule(rule: EventRecurrence, time: &EventTime) -> (r: Result<EventRecurrence, DomainError>)
    ensures
        match spec_rule_check(rule, *time) {
            Some(e) => r == Err::<EventRecurrence, DomainError>(e),
            None => r == Ok::<EventRecurrence, DomainError>(rule),
        },
{
    check_rule(&rule, time)?;
    Ok(rule)
}

/// Run the same title check event creation runs.
fn validate_title(title: &String) -> (r: Result<(), DomainError>)
    ensures
        match spec_text_error("event title", title@) {
            Some(e) => r == Err::<(), DomainError>(e),
            None => r is Ok,
        },
{
    match validate_text("event title", title.clone()) {
        Ok(_) => Ok(()),
        Err(e) => Err(e),
    }
}

/// Re-run the constructor checks on a time that may have been deserialized.
fn revalidate_time(time: &EventTime) -> (r: Result<(), DomainError>)
    ensures
        match spec_time_error(*time) {
            Some(e) => r == Err::<(), DomainError>(e),
            None => r is Ok,
        },
{
    time.revalidate()
}

impl EventEdit {
    pub fn is_empty(&self) -> (r: bool)
        ensures
            r == (self.title is None && self.time is None && self.calendar_id is None
                && self.description is Keep && self.location is Keep && self.url is Keep
                && self.busy is None),
    {
        self.title.is_none() && self.time.is_none() && self.calendar_id.is_none()
            && self.description.is_keep() && self.location.is_keep() && self.url.is_keep()
            && self.busy.is_none()
    }

    /// Check every supplied value on its own, before any stored event is read.
    pub fn validate(&self) -> (r: Result<(), DomainError>)
        ensures
            match spec_edit_error(*self) {
                Some(e) => r == Err::<(), DomainError>(e),
                None => r is Ok,
            },
    {
        if let Some(title) = &self.title {
            validate_title(title)?;
        }
        if let Some(time) = &self.time {
            revalidate_time(time)?;
        }
        if let Change::Replace(value) = &self.description {
            validate_description(value.clone())?;
        }
        if let Change::Replace(value) = &self.location {
            validate_location(value.clone())?;
        }
        if let Change::Replace(value) = &self.url {
            validate_url(value.clone())?;
        }
        Ok(())
    }

    /// The event this edit produces from `current`, fully validated.
    ///
    /// A repeat rule is re-checked against the resulting time, so changing an
    /// event's start cannot leave a rule that no longer produces its first
    /// occurrence. Identity, history and every field the edit does not name
    /// are kept.
    pub fn apply_to(&self, current: &Event) -> (r: Result<Event, DomainError>)
        ensures
            match spec_edit_error(*self) {
                Some(e) => r == Err::<Event, DomainError>(e),
                None => {
                    let time = match self.time {
                        Some(t) => t,
                        None => current.time,
                    };
                    match current.metadata.recurrence_rule {
                        Some(rule) if spec_rule_check(rule, time) is Some => r == Err::<Event, DomainError>(
                            spec_rule_check(rule, time)->0,
                        ),
                        _ => r matches Ok(next) && next.id == current.id && next.rfc_uid == current.rfc_uid
                            && next.title == (match self.title {
                                Some(t) => t,
                                None => current.title,
                            }) && next.time == time && next.calendar_id == (match self.calendar_id {
                                Some(c) => c,
                                None => current.calendar_id,
                            }) && next.metadata.description == spec_resolved(
                                self.description,
                                current.metadata.description,
                            ) && next.metadata.location == spec_resolved(self.location, current.metadata.location)
                            && next.metadata.url == spec_resolved(self.url, current.metadata.url)
                            && next.metadata.busy == (match self.busy {
                                Some(b) => b,
                                None => current.metadata.busy,
                            }) && next.metadata.status == current.metadata.status
                            && next.metadata.categories@ == current.metadata.categories@
                            && next.metadata.alarms@ == current.metadata.alarms@
                            && next.metadata.organizer == current.metadata.organizer
                            && next.metadata.attendees@ == current.metadata.attendees@
                            && (match current.metadata.recurrence_rule {
                                Some(rule) => next.metadata.recurrence_rule matches Some(x) && x@ == rule@,
                                None => next.metadata.recurrence_rule is None,
                            }) && next.created_at == current.created_at && next.updated_at == current.updated_at
                            && next.deleted_at == current.deleted_at
                            && next.remote_tombstoned_at == current.remote_tombstoned_at
                            && next.version == current.version,
                    }
                },
            },
    {
        self.validate()?;
        let title = match &self.title {
            Some(t) => t.clone(),
            None => current.title.clone(),
        };
        let time = match &self.time {
            Some(t) => t.copy(),
            None => current.time.copy(),
        };
        let calendar_id = match self.calendar_id {
            Some(c) => c,
            None => current.calendar_id,
        };
        let busy = match self.busy {
            Some(b) => b,
            None => current.metadata.busy,
        };
        let recurrence_rule = match &current.metadata.recurrence_rule {
            Some(rule) => {
                check_rule(rule, &time)?;
                Some(copy_rule(rule))
            },
            None => None,
        };
        let metadata = EventMetadata {
            description: resolve_text(&self.description, &current.metadata.description),
            location: resolve_text(&self.location, &current.metadata.location),
            url: resolve_text(&self.url, &current.metadata.url),
            status: current.metadata.status,
            busy,
            categories: current.metadata.categories.clone(),
            recurrence_rule,
            alarms: current.metadata.alarms.clone(),
            organizer: copy_text(&current.metadata.organizer),
            attendees: current.metadata.attendees.clone(),
        };
        Ok(Event {
            id: current.id,
            calendar_id,
            rfc_uid: RfcUid(current.rfc_uid.0.clone()),
            title,
            time,
            metadata,
            created_at: current.created_at,
            updated_at: current.updated_at,
            deleted_at: current.deleted_at,
            remote_tombstoned_at: current.remote_tombstoned_at,
            version: current.version,
        })
    }
}

/// Optional detail supplied when an event is created.
#[derive(Debug, Clone, PartialEq, Eq)]
pub struct EventDetails {
    pub description: Option<String>,
    pub location: Option<String>,
    pub url: Option<String>,
    pub busy: bool,
    pub recurrence: Option<EventRecurrence>,
}

impl Default for EventDetails {
    fn default() -> (r: EventDetails)
        ensures
            r.description is None && r.location is None && r.url is None && r.busy && r.recurrence is None,
    {
        EventDetails { description: None, location: None, url: None, busy: true, recurrence: None }
    }
}

pub open spec fn spec_text_view(o: Option<String>) -> Option<Seq<char>> {
    match o {
        Some(s) => Some(s@),
        None => None,
    }
}

/// The first refusal detail meets, in the order it is applied.
pub open spec fn spec_details_error(d: EventDetails, time: EventTime) -> Option<DomainError> {
    if d.description matches Some(v) && spec_description_error(v@) is Some {
        spec_description_error(d.description->0@)
    } else if d.location matches Some(v) && spec_location_error(v@) is Some {
        spec_location_error(d.location->0@)
    } else if d.url matches Some(v) && spec_url_error(v@) is Some {
        spec_url_error(d.url->0@)
    } else if d.recurrence matches Some(rule) && spec_rule_check(rule, time) is Some {
        spec_rule_check(d.recurrence->0, time)
    } else {
        None
    }
}

impl EventDetails {
    /// Write validated detail onto a freshly created event.
    pub fn apply_to(self, event: &mut Event) -> (r: Result<(), DomainError>)
        ensures
            match spec_details_error(self, old(event).time) {
                Some(e) => r == Err::<(), DomainError>(e),
                None => r is Ok && spec_text_view(final(event).metadata.description) == spec_text_view(self.description)
                    && spec_text_view(final(event).metadata.location) == spec_text_view(self.location)
                    && spec_text_view(final(event).metadata.url) == spec_text_view(self.url)
                    && final(event).metadata.busy == self.busy
                    && (match self.recurrence {
                        Some(rule) => final(event).metadata.recurrence_rule == Some(rule),
                        None => final(event).metadata.recurrence_rule == old(event).metadata.recurrence_rule,
                    }) && final(event).id == old(event).id && final(event).title == old(event).title
                    && final(event).time == old(event).time && final(event).calendar_id == old(event).calendar_id
                    && final(event).version == old(event).version && final(event).rfc_uid == old(event).rfc_uid
                    && final(event).created_at == old(event).created_at
                    && final(event).updated_at == old(event).updated_at
                    && final(event).deleted_at == old(event).deleted_at
                    && final(event).remote_tombstoned_at == old(event).remote_tombstoned_at
                    && final(event).metadata.status == old(event).metadata.status
                    && final(event).metadata.categories == old(event).metadata.categories
                    && final(event).metadata.alarms == old(event).metadata.alarms
                    && final(event).metadata.organizer == old(event).metadata.organizer
                    && final(event).metadata.attendees == old(event).metadata.attendees,
            },
    {
        let description = match self.description {
            Some(v) => Some(validate_description(v)?),
            None => None,
        };
        let location = match self.location {
            Some(v) => Some(validate_location(v)?),
            None => None,
        };
        let url = match self.url {
            Some(v) => Some(validate_url(v)?),
            None => None,
        };
        let rule = match self.recurrence {
            Some(rule) => Some(validated_rule(rule, &event.time)?),
            None => None,
        };
        event.metadata.description = description;
        event.metadata.location = location;
        event.metadata.url = url;
        event.metadata.busy = self.busy;
        if let Some(rule) = rule {
            event.metadata.recurrence_rule = Some(rule);
        }
        Ok(())
    }
}

// ── Errors and ports ──

/// Why an application write was refused. `E` is the repository's own error.
#[derive(Debug)]
pub enum ApplicationError<E> {
    Domain(DomainError),
    Todo(TodoError),
    Repository(E),
}

/// Why an optimistic lifecycle change was refused.
#[derive(Debug, Clone, PartialEq, Eq)]
pub enum EventLifecycleError<E> {
    NotFound { event_id: EventId },
    VersionConflict { event_id: EventId, expected_version: i64, actual_version: i64 },
    Repository(E),
}

/// Map repository lifecycle failures to stable application outcomes.
pub trait EventLifecycleErrorMapping: Sized {
    /// The lifecycle outcome this failure stands for.
    spec fn spec_lifecycle_error(self, event_id: EventId, expected_version: i64) -> EventLifecycleError<Self>;

    fn map_event_lifecycle_error(self, event_id: EventId, expected_version: i64) -> (r: EventLifecycleError<Self>)
        ensures
            r == self.spec_lifecycle_error(event_id, expected_version),
    ;
}

/// What a lifecycle change answers for the repository's result: the changed
/// event's projection, or the failure's lifecycle outcome.
pub open spec fn spec_lifecycle_outcome<E: EventLifecycleErrorMapping>(
    result: Result<Event, E>,
    event_id: EventId,
    expected_version: i64,
) -> Result<EventProjection, EventLifecycleError<E>> {
    match result {
        Ok(e) => Ok(spec_event_projection(e)),
        Err(x) => Err(x.spec_lifecycle_error(event_id, expected_version)),
    }
}

/// The answer to a lifecycle change, from what the repository returned.
pub fn lifecycle_outcome<E: EventLifecycleErrorMapping>(
    result: Result<Event, E>,
    event_id: EventId,
    expected_version: i64,
) -> (r: Result<EventProjection, EventLifecycleError<E>>)
    ensures
        r == spec_lifecycle_outcome(result, event_id, expected_version),
{
    match result {
        Ok(e) => Ok(EventProjection::from(e)),
        Err(error) => Err(error.map_event_lifecycle_error(event_id, expected_version)),
    }
}

/// What showing one project answers for the repository's lookup: the found
/// project's projection, that none was found under the asked identity, or the
/// repository's failure.
pub open spec fn spec_project_lookup<E>(found: Result<Option<Project>, E>, project_id: ProjectId) -> Result<ProjectProjection, QueryError<E>> {
    match found {
        Ok(Some(p)) => Ok(spec_project_projection(p)),
        Ok(None) => Err(QueryError::ProjectNotFound { project_id }),
        Err(e) => Err(QueryError::Repository(e)),
    }
}

/// The answer to showing one project, from the repository's lookup.
pub fn project_lookup<E>(found: Result<Option<Project>, E>, project_id: ProjectId) -> (r: Result<ProjectProjection, QueryError<E>>)
    ensures
        r == spec_project_lookup(found, project_id),
{
    match found {
        Ok(Some(p)) => Ok(ProjectProjection::from(p)),
        Ok(None) => Err(QueryError::ProjectNotFound { project_id }),
        Err(e) => Err(QueryError::Repository(e)),
    }
}

/// What showing one event answers for the repository's lookup: the found
/// event's projection, that none was found under the asked identity, or the
/// repository's failure.
pub open spec fn spec_event_lookup<E>(found: Result<Option<Event>, E>, event_id: EventId) -> Result<EventProjection, QueryError<E>> {
    match found {
        Ok(Some(e)) => Ok(spec_event_projection(e)),
        Ok(None) => Err(QueryError::EventNotFound { event_id }),
        Err(e) => Err(QueryError::Repository(e)),
    }
}

/// The answer to showing one event, from the repository's lookup.
pub fn event_lookup<E>(found: Result<Option<Event>, E>, event_id: EventId) -> (r: Result<EventProjection, QueryError<E>>)
    ensures
        r == spec_event_lookup(found, event_id),
{
    match found {
        Ok(Some(e)) => Ok(EventProjection::from(e)),
        Ok(None) => Err(QueryError::EventNotFound { event_id }),
        Err(e) => Err(QueryError::Repository(e)),
    }
}

/// What an edit answers for the repository's result: the edited event's
/// projection, or the repository's failure.
pub open spec fn spec_edit_answer<E>(stored: Result<Event, E>) -> Result<EventProjection, ApplicationError<E>> {
    match stored {
        Ok(e) => Ok(spec_event_projection(e)),
        Err(e) => Err(ApplicationError::Repository(e)),
    }
}

/// The answer to an edit, from what the repository returned.
pub fn edit_answer<E>(stored: Result<Event, E>) -> (r: Result<EventProjection, ApplicationError<E>>)
    ensures
        r == spec_edit_answer(stored),
{
    match stored {
        Ok(e) => Ok(EventProjection::from(e)),
        Err(e) => Err(ApplicationError::Repository(e)),
    }
}

/// Persistence and query boundary for calendars and events, served by the store.
pub trait CalendarEventRepository {
    type Error;

    fn save_calendar(&self, calendar: &Calendar) -> Result<(), Self::Error>;

    fn save_event(&self, event: &Event) -> Result<(), Self::Error>;

    fn list_calendars(&self) -> Result<Vec<Calendar>, Self::Error>;

    fn find_event(&self, id: EventId) -> Result<Option<Event>, Self::Error>;

    fn list_events(&self, calendar_id: Option<CalendarId>) -> Result<Vec<Event>, Self::Error>;

    fn cancel_event(&self, id: EventId, expected_version: i64) -> Result<Event, Self::Error>;

    fn restore_event(&self, id: EventId, expected_version: i64) -> Result<Event, Self::Error>;

    fn edit_event(&self, id: EventId, expected_version: i64, edit: &EventEdit) -> Result<Event, Self::Error>;

    fn day_agenda(
        &self,
        date: CivilDate,
        timezone: &str,
        starts_at: OffsetDateTime,
        ends_at: OffsetDateTime,
    ) -> Result<Vec<Event>, Self::Error>;
}

/// Read-only persistence boundary for one combined agenda snapshot.
pub trait AgendaRepository {
    type Error;

    fn agenda_events(&self, include_trashed: bool) -> Result<Vec<Event>, Self::Error>;

    fn agenda_todos(&self, include_trashed: bool) -> Result<AgendaTodoSnapshot, Self::Error>;
}

/// Persistence boundary for tag metadata.
pub trait TagRepository {
    type Error;

    fn save_tag(&self, tag: &Tag) -> Result<(), Self::Error>;

    fn list_tags(&self) -> Result<Vec<Tag>, Self::Error>;
}

/// Persistence boundary for project metadata.
pub trait ProjectRepository {
    type Error;

    fn save_project(&self, project: &Project) -> Result<(), Self::Error>;

    fn find_project(&self, id: ProjectId) -> Result<Option<Project>, Self::Error>;

    fn list_projects(&self) -> Result<Vec<Project>, Self::Error>;
}

// ── Projections ──

/// A calendar as queries show it.
#[derive(Debug, Clone, PartialEq, Eq)]
pub struct CalendarProjection {
    pub id: CalendarId,
    pub name: String,
    pub color: Option<String>,
    pub is_default: bool,
}

impl From<Calendar> for CalendarProjection {
    fn from(calendar: Calendar) -> (r: CalendarProjection) {
        CalendarProjection { id: calendar.id, name: calendar.name, color: calendar.color, is_default: calendar.is_default }
    }
}

impl vstd::std_specs::convert::FromSpecImpl<Calendar> for CalendarProjection {
    open spec fn obeys_from_spec() -> bool {
        true
    }

    open spec fn from_spec(v: Calendar) -> CalendarProjection {
        CalendarProjection { id: v.id, name: v.name, color: v.color, is_default: v.is_default }
    }
}

/// An event as queries show it: every field an editing surface needs.
#[derive(Debug, Clone, PartialEq, Eq)]
pub struct EventProjection {
    pub id: EventId,
    pub calendar_id: CalendarId,
    pub title: String,
    pub time: EventTime,
    pub version: i64,
    pub cancelled: bool,
    pub description: Option<String>,
    pub location: Option<String>,
    pub url: Option<String>,
    pub status: Option<EventStatus>,
    pub busy: bool,
    pub recurrence: Option<EventRecurrence>,
    pub alarms: Vec<Alarm>,
    pub categories: Vec<String>,
    pub created_at: Timestamp,
    pub updated_at: Timestamp,
}

impl From<Event> for EventProjection {
    fn from(event: Event) -> (r: EventProjection) {
        EventProjection {
            id: event.id,
            calendar_id: event.calendar_id,
            title: event.title,
            time: event.time,
            version: event.version,
            cancelled: event.deleted_at.is_some(),
            description: event.metadata.description,
            location: event.metadata.location,
            url: event.metadata.url,
            status: event.metadata.status,
            busy: event.metadata.busy,
            recurrence: event.metadata.recurrence_rule,
            alarms: event.metadata.alarms,
            categories: event.metadata.categories,
            created_at: event.created_at,
            updated_at: event.updated_at,
        }
    }
}

impl vstd::std_specs::convert::FromSpecImpl<Event> for EventProjection {
    open spec fn obeys_from_spec() -> bool {
        true
    }

    open spec fn from_spec(v: Event) -> EventProjection {
        spec_event_projection(v)
    }
}

/// A tag as queries show it.
#[derive(Debug, Clone, PartialEq, Eq)]
pub struct TagProjection {
    pub id: TagId,
    pub name: String,
    pub created_at: Timestamp,
    pub updated_at: Timestamp,
}

impl From<Tag> for TagProjection {
    fn from(tag: Tag) -> (r: TagProjection) {
        TagProjection { id: tag.id, name: tag.name, created_at: tag.created_at, updated_at: tag.updated_at }
    }
}

impl vstd::std_specs::convert::FromSpecImpl<Tag> for TagProjection {
    open spec fn obeys_from_spec() -> bool {
        true
    }

    open spec fn from_spec(v: Tag) -> TagProjection {
        TagProjection { id: v.id, name: v.name, created_at: v.created_at, updated_at: v.updated_at }
    }
}

/// A project as queries show it.
#[derive(Debug, Clone, PartialEq, Eq)]
pub struct ProjectProjection {
    pub id: ProjectId,
    pub name: String,
    pub archived_at: Option<Timestamp>,
    pub version: i64,
    pub created_at: Timestamp,
    pub updated_at: Timestamp,
}

impl From<Project> for ProjectProjection {
    fn from(project: Project) -> (r: ProjectProjection) {
        ProjectProjection {
            id: project.id,
            name: project.name,
            archived_at: project.archived_at,
            version: project.version,
            created_at: project.created_at,
            updated_at: project.updated_at,
        }
    }
}

impl vstd::std_specs::convert::FromSpecImpl<Project> for ProjectProjection {
    open spec fn obeys_from_spec() -> bool {
        true
    }

    open spec fn from_spec(v: Project) -> ProjectProjection {
        ProjectProjection {
            id: v.id,
            name: v.name,
            archived_at: v.archived_at,
            version: v.version,
            created_at: v.created_at,
            updated_at: v.updated_at,
        }
    }
}

// ── Listing order ──

/// A listing key: a class, two numbers within it, a text and an identity,
/// compared in that order.
pub struct OrderKey {
    pub class: u8,
    pub major: i64,
    pub minor: u32,
    pub text: Vec<char>,
    pub id: u128,
}

impl View for OrderKey {
    type V = (int, int, int, Seq<char>, int);

    open spec fn view(&self) -> (int, int, int, Seq<char>, int) {
        (self.class as int, self.major as int, self.minor as int, self.text@, self.id as int)
    }
}

/// Strictly before, key by key.
pub open spec fn spec_order_lt(a: (int, int, int, Seq<char>, int), b: (int, int, int, Seq<char>, int)) -> bool {
    a.0 < b.0 || (a.0 == b.0 && (a.1 < b.1 || (a.1 == b.1 && (a.2 < b.2 || (a.2 == b.2 && (spec_chars_lt(a.3, b.3)
        || (a.3 == b.3 && a.4 < b.4)))))))
}

pub proof fn lemma_order_lt_strict(a: (int, int, int, Seq<char>, int), b: (int, int, int, Seq<char>, int), c: (int, int, int, Seq<char>, int))
    ensures
        !spec_order_lt(a, a),
        spec_order_lt(a, b) && spec_order_lt(b, c) ==> spec_order_lt(a, c),
        !(spec_order_lt(a, b) && spec_order_lt(b, a)),
{
    lemma_chars_lt_irreflexive(a.3);
    lemma_chars_lt_total(a.3, b.3);
    if spec_chars_lt(a.3, b.3) && spec_chars_lt(b.3, c.3) {
        lemma_chars_lt_transitive(a.3, b.3, c.3);
    }
}

fn order_lt(a: &OrderKey, b: &OrderKey) -> (r: bool)
    ensures
        r == spec_order_lt(a@, b@),
{
    if a.class != b.class {
        return a.class < b.class;
    }
    if a.major != b.major {
        return a.major < b.major;
    }
    if a.minor != b.minor {
        return a.minor < b.minor;
    }
    if chars_less(a.text.as_slice(), b.text.as_slice()) {
        return true;
    }
    chars_eq(a.text.as_slice(), b.text.as_slice()) && a.id < b.id
}

/// A value listings put in a stable order.
pub trait Ordered: Sized {
    spec fn spec_order_key(&self) -> (int, int, int, Seq<char>, int);

    fn order_key(&self) -> (r: OrderKey)
        ensures
            r@ == self.spec_order_key(),
    ;
}

/// Tags by their normalized name, then identity.
impl Ordered for Tag {
    open spec fn spec_order_key(&self) -> (int, int, int, Seq<char>, int) {
        (0, 0, 0, self.normalized_name@, self.id.value as int)
    }

    fn order_key(&self) -> (r: OrderKey) {
        OrderKey { class: 0, major: 0, minor: 0, text: chars_of(self.normalized_name.as_str()), id: self.id.value }
    }
}

/// Projects by their normalized name, then identity.
impl Ordered for Project {
    open spec fn spec_order_key(&self) -> (int, int, int, Seq<char>, int) {
        (0, 0, 0, self.normalized_name@, self.id.value as int)
    }

    fn order_key(&self) -> (r: OrderKey) {
        OrderKey { class: 0, major: 0, minor: 0, text: chars_of(self.normalized_name.as_str()), id: self.id.value }
    }
}

/// Calendars by their lower-cased name, then identity.
impl Ordered for Calendar {
    open spec fn spec_order_key(&self) -> (int, int, int, Seq<char>, int) {
        (0, 0, 0, spec_to_lowercase(self.name@), self.id.value as int)
    }

    fn order_key(&self) -> (r: OrderKey) {
        let lowered = to_lowercase(self.name.as_str());
        OrderKey { class: 0, major: 0, minor: 0, text: chars_of(lowered.as_str()), id: self.id.value }
    }
}

/// Events all-day first by start date, then timed by start instant, then by
/// lower-cased title and identity.
impl Ordered for Event {
    open spec fn spec_order_key(&self) -> (int, int, int, Seq<char>, int) {
        match self.time {
            EventTime::AllDay { start, .. } => (0, start.days as int, 0, spec_to_lowercase(self.title@), self.id.value as int),
            EventTime::Timed { start, .. } => (
                1,
                start.seconds as int,
                start.nanos as int,
                spec_to_lowercase(self.title@),
                self.id.value as int,
            ),
        }
    }

    fn order_key(&self) -> (r: OrderKey) {
        let lowered = to_lowercase(self.title.as_str());
        let text = chars_of(lowered.as_str());
        match &self.time {
            EventTime::AllDay { start, .. } => OrderKey { class: 0, major: start.days as i64, minor: 0, text, id: self.id.value },
            EventTime::Timed { start, .. } => OrderKey {
                class: 1,
                major: start.seconds,
                minor: start.nanos,
                text,
                id: self.id.value,
            },
        }
    }
}

/// No value is listed after one that orders before it.
pub open spec fn spec_listed_in_order<T: Ordered>(s: Seq<T>) -> bool {
    forall|i: int, j: int| 0 <= i < j < s.len() ==> !spec_order_lt(#[trigger] s[j].spec_order_key(), #[trigger] s[i].spec_order_key())
}

/// The values in listing order, each kept as often as it occurs; values with
/// equal keys keep the order they came in.
pub fn sort_ordered<T: Ordered>(items: Vec<T>) -> (r: Vec<T>)
    ensures
        spec_listed_in_order(r@),
        r@.to_multiset() == items@.to_multiset(),
{
    let ghost all = items@;
    let mut rest = items;
    let mut out: Vec<T> = Vec::new();
    while rest.len() > 0
        invariant
            spec_listed_in_order(out@),
            out@.to_multiset().add(rest@.to_multiset()) == all.to_multiset(),
        decreases rest.len(),
    {
        let ghost rest_before = rest@;
        let x = rest.remove(0);
        assert(rest_before =~= seq![x] + rest@);
        proof {
            vstd::seq_lib::lemma_multiset_commutative(seq![x], rest@);
        }
        let kx = x.order_key();
        let mut p: usize = 0;
        while p < out.len() && !order_lt(&kx, &out[p].order_key())
            invariant
                p <= out.len(),
                kx@ == x.spec_order_key(),
                forall|q: int| 0 <= q < p ==> !spec_order_lt(kx@, #[trigger] out@[q].spec_order_key()),
            decreases out.len() - p,
        {
            p += 1;
        }
        let ghost before = out@;
        out.insert(p, x);
        proof {
            assert forall|a: int, b: int| 0 <= a < b < out@.len() implies !spec_order_lt(
                #[trigger] out@[b].spec_order_key(),
                #[trigger] out@[a].spec_order_key(),
            ) by {
                if b < p {
                    assert(out@[a] == before[a] && out@[b] == before[b]);
                } else if b == p {
                    assert(out@[a] == before[a]);
                } else if a < p {
                    assert(out@[a] == before[a] && out@[b] == before[b - 1]);
                    assert(spec_order_lt(kx@, before[p as int].spec_order_key()));
                    lemma_order_lt_strict(before[b - 1].spec_order_key(), kx@, before[p as int].spec_order_key());
                    lemma_order_lt_strict(before[b - 1].spec_order_key(), before[a].spec_order_key(), before[p as int].spec_order_key());
                    if b - 1 > p {
                    }
                    lemma_order_lt_strict(before[b - 1].spec_order_key(), before[p as int].spec_order_key(), kx@);
                } else if a == p {
                    assert(out@[b] == before[b - 1]);
                    assert(spec_order_lt(kx@, before[p as int].spec_order_key()));
                    lemma_order_lt_strict(before[b - 1].spec_order_key(), kx@, before[p as int].spec_order_key());
                    lemma_order_lt_strict(kx@, before[p as int].spec_order_key(), kx@);
                } else {
                    assert(out@[a] == before[a - 1] && out@[b] == before[b - 1]);
                }
            }
            assert(out@.to_multiset() == before.to_multiset().insert(x));
        }
    }
    assert(rest@.to_multiset() =~= vstd::multiset::Multiset::<T>::empty());
    out
}

proof fn lemma_order_lt_total(a: (int, int, int, Seq<char>, int), b: (int, int, int, Seq<char>, int))
    ensures
        a != b ==> spec_order_lt(a, b) || spec_order_lt(b, a),
{
    lemma_chars_lt_total(a.3, b.3);
}

/// Listing order does not depend on the order values came in: two listings
/// of the same values, no two of which share a key, are the same listing.
pub proof fn lemma_listing_is_unique<T: Ordered>(a: Seq<T>, b: Seq<T>)
    requires
        spec_listed_in_order(a),
        spec_listed_in_order(b),
        a.to_multiset() == b.to_multiset(),
        forall|i: int, j: int| 0 <= i < j < a.len() ==> (#[trigger] a[i]).spec_order_key() != (#[trigger] a[j]).spec_order_key(),
    ensures
        a == b,
    decreases a.len(),
{
    assert(a.to_multiset().len() == a.len());
    assert(b.to_multiset().len() == b.len());
    if a.len() == 0 {
        assert(a =~= b);
    } else {
        assert(a.to_multiset().count(a[0]) > 0);
        assert(b.contains(a[0]));
        let k = choose|k: int| 0 <= k < b.len() && b[k] == a[0];
        assert(b.to_multiset().count(b[0]) > 0);
        assert(a.contains(b[0]));
        let m = choose|m: int| 0 <= m < a.len() && a[m] == b[0];
        if k != 0 {
            assert(!spec_order_lt(b[k].spec_order_key(), b[0].spec_order_key()));
        }
        if m != 0 {
            assert(!spec_order_lt(a[m].spec_order_key(), a[0].spec_order_key()));
        }
        lemma_order_lt_total(a[0].spec_order_key(), b[0].spec_order_key());
        if m != 0 {
            assert(a[0].spec_order_key() != a[m].spec_order_key());
        }
        assert(a[0] == b[0]);
        assert(a.remove(0) =~= a.drop_first());
        assert(b.remove(0) =~= b.drop_first());
        assert(a.drop_first().to_multiset() == a.to_multiset().remove(a[0]));
        assert(b.drop_first().to_multiset() == b.to_multiset().remove(b[0]));
        let a1 = a.drop_first();
        let b1 = b.drop_first();
        assert forall|i: int, j: int| 0 <= i < j < a1.len() implies !spec_order_lt(
            #[trigger] a1[j].spec_order_key(),
            #[trigger] a1[i].spec_order_key(),
        ) by {
            assert(a1[i] == a[i + 1] && a1[j] == a[j + 1]);
        }
        assert forall|i: int, j: int| 0 <= i < j < b1.len() implies !spec_order_lt(
            #[trigger] b1[j].spec_order_key(),
            #[trigger] b1[i].spec_order_key(),
        ) by {
            assert(b1[i] == b[i + 1] && b1[j] == b[j + 1]);
        }
        assert forall|i: int, j: int| 0 <= i < j < a1.len() implies (#[trigger] a1[i]).spec_order_key()
            != (#[trigger] a1[j]).spec_order_key() by {
            assert(a1[i] == a[i + 1] && a1[j] == a[j + 1]);
        }
        lemma_listing_is_unique(a1, b1);
        assert forall|i: int| 0 <= i < a.len() implies a[i] == b[i] by {
            if i > 0 {
                assert(a[i] == a1[i - 1] && b[i] == b1[i - 1]);
            }
        }
        assert(a =~= b);
    }
}

// ── Use cases ──

pub open spec fn spec_tag_projection(t: Tag) -> TagProjection {
    TagProjection { id: t.id, name: t.name, created_at: t.created_at, updated_at: t.updated_at }
}

pub open spec fn spec_project_projection(p: Project) -> ProjectProjection {
    ProjectProjection {
        id: p.id,
        name: p.name,
        archived_at: p.archived_at,
        version: p.version,
        created_at: p.created_at,
        updated_at: p.updated_at,
    }
}

pub open spec fn spec_calendar_projection(c: Calendar) -> CalendarProjection {
    CalendarProjection { id: c.id, name: c.name, color: c.color, is_default: c.is_default }
}

pub open spec fn spec_event_projection(v: Event) -> EventProjection {
    EventProjection {
        id: v.id,
        calendar_id: v.calendar_id,
        title: v.title,
        time: v.time,
        version: v.version,
        cancelled: v.deleted_at is Some,
        description: v.metadata.description,
        location: v.metadata.location,
        url: v.metadata.url,
        status: v.metadata.status,
        busy: v.metadata.busy,
        recurrence: v.metadata.recurrence_rule,
        alarms: v.metadata.alarms,
        categories: v.metadata.categories,
        created_at: v.created_at,
        updated_at: v.updated_at,
    }
}

/// Tags in listing order, as projections.
pub fn list_tag_projections(tags: Vec<Tag>) -> (r: Vec<TagProjection>)
    ensures
        exists|s: Seq<Tag>| #![auto] spec_listed_in_order(s) && s.to_multiset() == tags@.to_multiset()
            && r@ == s.map_values(|t: Tag| spec_tag_projection(t)),
{
    let mut sorted = sort_ordered(tags);
    let ghost s = sorted@;
    let mut out: Vec<TagProjection> = Vec::new();
    while sorted.len() > 0
        invariant
            out@.len() + sorted@.len() == s.len(),
            sorted@ == s.subrange(out@.len() as int, s.len() as int),
            forall|i: int| 0 <= i < out@.len() ==> out@[i] == spec_tag_projection(#[trigger] s[i]),
        decreases sorted.len(),
    {
        let t = sorted.remove(0);
        out.push(TagProjection::from(t));
    }
    assert(out@ =~= s.map_values(|t: Tag| spec_tag_projection(t)));
    out
}

/// Projects in listing order, as projections.
pub fn list_project_projections(projects: Vec<Project>) -> (r: Vec<ProjectProjection>)
    ensures
        exists|s: Seq<Project>| #![auto] spec_listed_in_order(s) && s.to_multiset() == projects@.to_multiset()
            && r@ == s.map_values(|p: Project| spec_project_projection(p)),
{
    let mut sorted = sort_ordered(projects);
    let ghost s = sorted@;
    let mut out: Vec<ProjectProjection> = Vec::new();
    while sorted.len() > 0
        invariant
            out@.len() + sorted@.len() == s.len(),
            sorted@ == s.subrange(out@.len() as int, s.len() as int),
            forall|i: int| 0 <= i < out@.len() ==> out@[i] == spec_project_projection(#[trigger] s[i]),
        decreases sorted.len(),
    {
        let p = sorted.remove(0);
        out.push(ProjectProjection::from(p));
    }
    assert(out@ =~= s.map_values(|p: Project| spec_project_projection(p)));
    out
}

/// Calendars in listing order, as projections.
pub fn list_calendar_projections(calendars: Vec<Calendar>) -> (r: Vec<CalendarProjection>)
    ensures
        exists|s: Seq<Calendar>| #![auto] spec_listed_in_order(s) && s.to_multiset() == calendars@.to_multiset()
            && r@ == s.map_values(|c: Calendar| spec_calendar_projection(c)),
{
    let mut sorted = sort_ordered(calendars);
    let ghost s = sorted@;
    let mut out: Vec<CalendarProjection> = Vec::new();
    while sorted.len() > 0
        invariant
            out@.len() + sorted@.len() == s.len(),
            sorted@ == s.subrange(out@.len() as int, s.len() as int),
            forall|i: int| 0 <= i < out@.len() ==> out@[i] == spec_calendar_projection(#[trigger] s[i]),
        decreases sorted.len(),
    {
        let c = sorted.remove(0);
        out.push(CalendarProjection::from(c));
    }
    assert(out@ =~= s.map_values(|c: Calendar| spec_calendar_projection(c)));
    out
}

/// Events in listing order, as projections.
pub fn list_event_projections(events: Vec<Event>) -> (r: Vec<EventProjection>)
    ensures
        exists|s: Seq<Event>| #![auto] spec_listed_in_order(s) && s.to_multiset() == events@.to_multiset()
            && r@ == s.map_values(|e: Event| spec_event_projection(e)),
{
    let mut sorted = sort_ordered(events);
    let ghost s = sorted@;
    let mut out: Vec<EventProjection> = Vec::new();
    while sorted.len() > 0
        invariant
            out@.len() + sorted@.len() == s.len(),
            sorted@ == s.subrange(out@.len() as int, s.len() as int),
            forall|i: int| 0 <= i < out@.len() ==> out@[i] == spec_event_projection(#[trigger] s[i]),
        decreases sorted.len(),
    {
        let e = sorted.remove(0);
        out.push(EventProjection::from(e));
    }
    assert(out@ =~= s.map_values(|e: Event| spec_event_projection(e)));
    out
}

/// Application boundary for tag creation and listing.
pub struct TagUseCases<R> {
    repository: R,
}

impl<R> TagUseCases<R> {
    pub closed spec fn spec_repository(self) -> R {
        self.repository
    }

    pub fn new(repository: R) -> (r: TagUseCases<R>)
        ensures
            r.spec_repository() == repository,
    {
        TagUseCases { repository }
    }
}

impl<R: TagRepository> TagUseCases<R> {
    /// A checked tag, saved; a refused name never reaches the repository.
    pub fn create_tag(&self, name: String) -> (r: Result<TagProjection, ApplicationError<R::Error>>)
        ensures
            match spec_todo_text_error("tag name", name@) {
                Some(e) => r matches Err(ApplicationError::Todo(x)) && x == e,
                None => (r matches Ok(p) ==> p.name == name) && (r matches Err(x) ==> x is Repository || x == (
                ApplicationError::<R::Error>::Todo(TodoError::ClockUnavailable))),
            },
    {
        let tag = match Tag::new(name) {
            Ok(t) => t,
            Err(e) => return Err(ApplicationError::Todo(e)),
        };
        match self.repository.save_tag(&tag) {
            Ok(()) => Ok(TagProjection::from(tag)),
            Err(e) => Err(ApplicationError::Repository(e)),
        }
    }

    /// Every tag, by normalized name and then identity.
    pub fn list_tags(&self) -> (r: Result<Vec<TagProjection>, QueryError<R::Error>>)
        ensures
            r matches Err(x) ==> x is Repository,
            r matches Ok(v) ==> exists|s: Seq<Tag>| #![auto] spec_listed_in_order(s)
                && v@ == s.map_values(|t: Tag| spec_tag_projection(t)),
    {
        match self.repository.list_tags() {
            Ok(tags) => Ok(list_tag_projections(tags)),
            Err(e) => Err(QueryError::Repository(e)),
        }
    }
}

/// Application boundary for project creation and listing.
pub struct ProjectUseCases<R> {
    repository: R,
}

impl<R> ProjectUseCases<R> {
    pub closed spec fn spec_repository(self) -> R {
        self.repository
    }

    pub fn new(repository: R) -> (r: ProjectUseCases<R>)
        ensures
            r.spec_repository() == repository,
    {
        ProjectUseCases { repository }
    }
}

impl<R: ProjectRepository> ProjectUseCases<R> {
    /// A checked project, saved; a refused name never reaches the repository.
    pub fn create_project(&self, name: String) -> (r: Result<ProjectProjection, ApplicationError<R::Error>>)
        ensures
            match spec_todo_text_error("project name", name@) {
                Some(e) => r matches Err(ApplicationError::Todo(x)) && x == e,
                None => (r matches Ok(p) ==> p.name == name && p.version == 1 && p.archived_at is None)
                    && (r matches Err(x) ==> x is Repository || x == (ApplicationError::<R::Error>::Todo(
                    TodoError::ClockUnavailable))),
            },
    {
        let project = match Project::new(name) {
            Ok(p) => p,
            Err(e) => return Err(ApplicationError::Todo(e)),
        };
        match self.repository.save_project(&project) {
            Ok(()) => Ok(ProjectProjection::from(project)),
            Err(e) => Err(ApplicationError::Repository(e)),
        }
    }

    /// Every project, by normalized name and then identity.
    pub fn list_projects(&self) -> (r: Result<Vec<ProjectProjection>, QueryError<R::Error>>)
        ensures
            r matches Err(x) ==> x is Repository,
            r matches Ok(v) ==> exists|s: Seq<Project>| #![auto] spec_listed_in_order(s)
                && v@ == s.map_values(|p: Project| spec_project_projection(p)),
    {
        match self.repository.list_projects() {
            Ok(projects) => Ok(list_project_projections(projects)),
            Err(e) => Err(QueryError::Repository(e)),
        }
    }

    /// One project, or that it was not found.
    pub fn show_project(&self, project_id: ProjectId) -> (r: Result<ProjectProjection, QueryError<R::Error>>)
        ensures
            r matches Err(x) ==> x is Repository || x == (QueryError::<R::Error>::ProjectNotFound { project_id }),
            exists|found: Result<Option<Project>, R::Error>| r == spec_project_lookup(found, project_id),
    {
        let found = self.repository.find_project(project_id);
        project_lookup(found, project_id)
    }
}

/// Whether `r` is what an agenda query answers once the repository has given
/// these todos and events: a repository failure as such, inputs outside the
/// dates and instants this library holds as an invalid range, else the agenda
/// of what was given, in the query's window, carrying the projection's identity.
pub open spec fn spec_query_answer<E>(
    query: AgendaQuery,
    todos: Result<AgendaTodoSnapshot, E>,
    events: Result<Vec<Event>, E>,
    r: Result<AgendaOutput, QueryError<E>>,
) -> bool {
    match todos {
        Err(e) => r == Err::<AgendaOutput, QueryError<E>>(QueryError::Repository(e)),
        Ok(td) => match events {
            Err(e) => r == Err::<AgendaOutput, QueryError<E>>(QueryError::Repository(e)),
            Ok(ev) => if !spec_agenda_inputs_wf(query, ev@, td.todos@) {
                r == Err::<AgendaOutput, QueryError<E>>(QueryError::Domain(TodoError::InvalidRecurrenceRange))
            } else {
                match spec_agenda::<E>(query, ev@, td.todos@) {
                    Err(x) => r == Err::<AgendaOutput, QueryError<E>>(x),
                    Ok(rows) => r matches Ok(out) && spec_item_views(out.items@) == rows && out.start == query.start
                        && out.end_exclusive == query.end_exclusive && out.timezone == query.timezone
                        && out.todo_projection == Some(td.metadata),
                }
            },
        },
    }
}

/// Application boundary for one combined, read-only agenda query.
pub struct AgendaUseCases<R> {
    repository: R,
}

impl<R> AgendaUseCases<R> {
    pub closed spec fn spec_repository(self) -> R {
        self.repository
    }

    pub fn new(repository: R) -> (r: AgendaUseCases<R>)
        ensures
            r.spec_repository() == repository,
    {
        AgendaUseCases { repository }
    }
}

impl<R: AgendaRepository> AgendaUseCases<R> {
    /// Query events and todo recurrence instances, then apply lifecycle filters
    /// and the agenda's order to the shared snapshot. The zone and both day
    /// boundaries are checked before the repository is asked for anything.
    pub fn query(&self, query: AgendaQuery) -> (r: Result<AgendaOutput, QueryError<R::Error>>)
        ensures
            !spec_tz_known(query.timezone@) ==> r == Err::<AgendaOutput, QueryError<R::Error>>(
                QueryError::InvalidTimezone { timezone: query.timezone },
            ),
            spec_tz_known(query.timezone@) && query.start.wf() && query.end_exclusive.wf() ==> (
            if spec_day_boundary(query.timezone@, query.start) is None {
                r == Err::<AgendaOutput, QueryError<R::Error>>(
                    QueryError::InvalidDayBoundary { date: query.start, timezone: query.timezone },
                )
            } else if spec_day_boundary(query.timezone@, query.end_exclusive) is None {
                r == Err::<AgendaOutput, QueryError<R::Error>>(
                    QueryError::InvalidDayBoundary { date: query.end_exclusive, timezone: query.timezone },
                )
            } else {
                exists|todos: Result<AgendaTodoSnapshot, R::Error>, events: Result<Vec<Event>, R::Error>| #[trigger]
                    spec_query_answer(query, todos, events, r)
            }),
    {
        if !tz_known(query.timezone.as_str()) {
            return Err(QueryError::InvalidTimezone { timezone: query.timezone });
        }
        if !(query.start.is_in_range() && query.end_exclusive.is_in_range()) {
            return Err(QueryError::Domain(TodoError::InvalidRecurrenceRange));
        }
        local_day_boundary::<R::Error>(&query.timezone, query.start)?;
        local_day_boundary::<R::Error>(&query.timezone, query.end_exclusive)?;
        let todos = match self.repository.agenda_todos(query.include_trashed) {
            Ok(t) => t,
            Err(e) => {
                let r = Err(QueryError::Repository(e));
                assert(spec_query_answer(query, Err(e), Err(e), r));
                return r;
            },
        };
        let events = match self.repository.agenda_events(query.include_trashed) {
            Ok(e) => e,
            Err(e) => {
                let r = Err(QueryError::Repository(e));
                assert(spec_query_answer(query, Ok(todos), Err(e), r));
                return r;
            },
        };
        let ghost answered_todos = todos;
        let ghost answered_events = events;
        if !agenda_inputs_wf(&query, &events, &todos.todos) {
            let r = Err(QueryError::Domain(TodoError::InvalidRecurrenceRange));
            assert(spec_query_answer(query, Ok(answered_todos), Ok(answered_events), r));
            return r;
        }
        let r = AgendaOutput::from_projection(query, events, todos);
        assert(spec_query_answer(query, Ok(answered_todos), Ok(answered_events), r));
        r
    }
}

/// Application boundary for calendars and events.
pub struct EventUseCases<R> {
    repository: R,
}

impl<R> EventUseCases<R> {
    pub closed spec fn spec_repository(self) -> R {
        self.repository
    }

    pub fn new(repository: R) -> (r: EventUseCases<R>)
        ensures
            r.spec_repository() == repository,
    {
        EventUseCases { repository }
    }

    pub fn into_repository(self) -> (r: R)
        ensures
            r == self.spec_repository(),
    {
        self.repository
    }
}

/// The instant a civil date starts in a zone: where midnight happens twice,
/// the first; where it does not happen, none.
pub open spec fn spec_local_midnight(zone: Seq<char>, date: CivilDate) -> Option<OffsetDateTime> {
    let local = (date.days - UNIX_EPOCH_DAYS) * SECONDS_PER_DAY;
    match spec_tz_from_local(zone, local) {
        LocalMapping::Single(o) => if spec_seconds_in_range(local - o) {
            Some(OffsetDateTime { seconds: (local - o) as i64, nanos: 0, offset: o })
        } else {
            None
        },
        LocalMapping::Fold(o, _) => if spec_seconds_in_range(local - o) {
            Some(OffsetDateTime { seconds: (local - o) as i64, nanos: 0, offset: o })
        } else {
            None
        },
        LocalMapping::Gap => None,
    }
}

fn local_midnight<E>(timezone: &str, date: CivilDate) -> (r: Result<OffsetDateTime, QueryError<E>>)
    requires
        date.wf(),
    ensures
        match spec_local_midnight(timezone@, date) {
            Some(t) => r == Ok::<OffsetDateTime, QueryError<E>>(t) && t.wf(),
            None => r matches Err(QueryError::InvalidDayBoundary { date: d, timezone: z }) && d == date && z@ == timezone@,
        },
{
    let local: i64 = (date.days as i64 - UNIX_EPOCH_DAYS) * SECONDS_PER_DAY;
    let offset = match tz_from_local(timezone, local, 0) {
        LocalMapping::Single(o) => o,
        LocalMapping::Fold(o, _) => o,
        LocalMapping::Gap => {
            return Err(QueryError::InvalidDayBoundary { date, timezone: text_of(timezone) });
        },
    };
    let seconds = local - offset as i64;
    if seconds > MAX_INSTANT_SECONDS || seconds < -MAX_INSTANT_SECONDS {
        return Err(QueryError::InvalidDayBoundary { date, timezone: text_of(timezone) });
    }
    Ok(OffsetDateTime { seconds, nanos: 0, offset })
}

fn text_of(s: &str) -> (r: String)
    ensures
        r@ == s@,
{
    crate::text::owned(s)
}

impl<R: CalendarEventRepository> EventUseCases<R> {
    /// A checked calendar, saved; a refused name never reaches the repository.
    pub fn create_calendar(&self, name: String) -> (r: Result<Calendar, ApplicationError<R::Error>>)
        ensures
            match spec_text_error("calendar name", name@) {
                Some(e) => r matches Err(ApplicationError::Domain(x)) && x == e,
                None => (r matches Ok(c) ==> c.name@ == name@ && !c.is_default && c.deleted_at is None)
                    && (r matches Err(x) ==> x is Repository || x == (ApplicationError::<R::Error>::Domain(
                    DomainError::ClockUnavailable))),
            },
    {
        let calendar = match Calendar::new(name) {
            Ok(c) => c,
            Err(e) => return Err(ApplicationError::Domain(e)),
        };
        match self.repository.save_calendar(&calendar) {
            Ok(()) => Ok(calendar),
            Err(e) => Err(ApplicationError::Repository(e)),
        }
    }

    /// A single event.
    pub fn create_event(&self, calendar_id: CalendarId, title: String, time: EventTime) -> (r: Result<Event, ApplicationError<R::Error>>)
        ensures
            match spec_text_error("event title", title@) {
                Some(e) => r matches Err(ApplicationError::Domain(x)) && x == e,
                None => r == Err::<Event, ApplicationError<R::Error>>(ApplicationError::Domain(DomainError::ClockUnavailable)) || ((r matches Ok(ev) ==> ev.calendar_id == calendar_id && ev.title@ == title@
                    && ev.time == time && ev.version == 1 && ev.metadata.recurrence_rule is None && ev.metadata.busy
                    && ev.metadata.description is None && ev.metadata.location is None && ev.metadata.url is None
                    && spec_fresh_event(ev))
                    && (r matches Err(x) ==> x is Repository)),
            },
    {
        self.create_repeating_event(calendar_id, title, time, None)
    }

    /// An event that may repeat; a rule that cannot produce the event's own
    /// first occurrence is refused before anything is written.
    pub fn create_repeating_event(
        &self,
        calendar_id: CalendarId,
        title: String,
        time: EventTime,
        recurrence: Option<EventRecurrence>,
    ) -> (r: Result<Event, ApplicationError<R::Error>>)
        ensures
            match spec_text_error("event title", title@) {
                Some(e) => r matches Err(ApplicationError::Domain(x)) && x == e,
                None => r == Err::<Event, ApplicationError<R::Error>>(ApplicationError::Domain(DomainError::ClockUnavailable)) || match recurrence {
                    Some(rule) if spec_rule_check(rule, time) is Some => r matches Err(ApplicationError::Domain(x))
                        && x == spec_rule_check(rule, time)->0,
                    _ => (r matches Ok(ev) ==> ev.calendar_id == calendar_id && ev.title@ == title@ && ev.time == time
                        && ev.version == 1 && ev.metadata.recurrence_rule == recurrence && ev.metadata.busy
                        && ev.metadata.description is None && ev.metadata.location is None && ev.metadata.url is None
                        && spec_fresh_event(ev))
                        && (r matches Err(x) ==> x is Repository),
                },
            },
    {
        let details = EventDetails { description: None, location: None, url: None, busy: true, recurrence };
        self.create_detailed_event(calendar_id, title, time, details)
    }

    /// An event with any of its optional detail, every value checked before
    /// anything is written.
    pub fn create_detailed_event(
        &self,
        calendar_id: CalendarId,
        title: String,
        time: EventTime,
        details: EventDetails,
    ) -> (r: Result<Event, ApplicationError<R::Error>>)
        ensures
            match spec_text_error("event title", title@) {
                Some(e) => r matches Err(ApplicationError::Domain(x)) && x == e,
                None => r == Err::<Event, ApplicationError<R::Error>>(ApplicationError::Domain(DomainError::ClockUnavailable)) || match spec_details_error(details, time) {
                    Some(e) => r matches Err(ApplicationError::Domain(x)) && x == e,
                    None => (r matches Ok(ev) ==> ev.calendar_id == calendar_id && ev.title@ == title@ && ev.time == time
                        && ev.version == 1 && ev.metadata.busy == details.busy
                        && spec_text_view(ev.metadata.description) == spec_text_view(details.description)
                        && spec_text_view(ev.metadata.location) == spec_text_view(details.location)
                        && spec_text_view(ev.metadata.url) == spec_text_view(details.url)
                        && ev.metadata.recurrence_rule == details.recurrence && spec_fresh_event(ev))
                        && (r matches Err(x) ==> x is Repository),
                },
            },
    {
        let mut event = match Event::new(calendar_id, title, time) {
            Ok(e) => e,
            Err(e) => return Err(ApplicationError::Domain(e)),
        };
        match details.apply_to(&mut event) {
            Ok(()) => {},
            Err(e) => return Err(ApplicationError::Domain(e)),
        }
        match self.repository.save_event(&event) {
            Ok(()) => Ok(event),
            Err(e) => Err(ApplicationError::Repository(e)),
        }
    }

    /// Every calendar, by lower-cased name and then identity.
    pub fn list_calendars(&self) -> (r: Result<Vec<CalendarProjection>, QueryError<R::Error>>)
        ensures
            r matches Err(x) ==> x is Repository,
            r matches Ok(v) ==> exists|s: Seq<Calendar>| #![auto] spec_listed_in_order(s)
                && v@ == s.map_values(|c: Calendar| spec_calendar_projection(c)),
    {
        match self.repository.list_calendars() {
            Ok(items) => Ok(list_calendar_projections(items)),
            Err(e) => Err(QueryError::Repository(e)),
        }
    }

    /// One event, or that it was not found.
    pub fn show_event(&self, event_id: EventId) -> (r: Result<EventProjection, QueryError<R::Error>>)
        ensures
            r matches Err(x) ==> x is Repository || x == (QueryError::<R::Error>::EventNotFound { event_id }),
            exists|found: Result<Option<Event>, R::Error>| r == spec_event_lookup(found, event_id),
    {
        let found = self.repository.find_event(event_id);
        event_lookup(found, event_id)
    }

    /// Events, optionally of one calendar, all-day first and then by start.
    pub fn list_events(&self, calendar_id: Option<CalendarId>) -> (r: Result<Vec<EventProjection>, QueryError<R::Error>>)
        ensures
            r matches Err(x) ==> x is Repository,
            r matches Ok(v) ==> exists|s: Seq<Event>| #![auto] spec_listed_in_order(s)
                && v@ == s.map_values(|e: Event| spec_event_projection(e)),
    {
        match self.repository.list_events(calendar_id) {
            Ok(items) => Ok(list_event_projections(items)),
            Err(e) => Err(QueryError::Repository(e)),
        }
    }

    /// Cancel one version of an event; a repository refusal is mapped to its
    /// lifecycle outcome.
    pub fn cancel_event(&self, event_id: EventId, expected_version: i64) -> (r: Result<EventProjection, EventLifecycleError<R::Error>>)
        where R::Error: EventLifecycleErrorMapping,
        ensures
            exists|result: Result<Event, R::Error>| r == spec_lifecycle_outcome(result, event_id, expected_version),
    {
        let result = self.repository.cancel_event(event_id, expected_version);
        lifecycle_outcome(result, event_id, expected_version)
    }

    /// Restore one version of a cancelled event.
    pub fn restore_event(&self, event_id: EventId, expected_version: i64) -> (r: Result<EventProjection, EventLifecycleError<R::Error>>)
        where R::Error: EventLifecycleErrorMapping,
        ensures
            exists|result: Result<Event, R::Error>| r == spec_lifecycle_outcome(result, event_id, expected_version),
    {
        let result = self.repository.restore_event(event_id, expected_version);
        lifecycle_outcome(result, event_id, expected_version)
    }

    /// Edit an event at the version the caller read; a version below one, an
    /// empty edit, a refused title or a refused time never reach the repository.
    pub fn edit_event(&self, event_id: EventId, expected_version: i64, edit: &EventEdit) -> (r: Result<EventProjection, ApplicationError<R::Error>>)
        ensures
            if expected_version < 1 {
                r matches Err(ApplicationError::Domain(x)) && x == DomainError::InvalidEventVersion
            } else if edit.title is None && edit.time is None && edit.calendar_id is None
                && edit.description is Keep && edit.location is Keep && edit.url is Keep && edit.busy is None {
                r matches Err(ApplicationError::Domain(x)) && x == (DomainError::EmptyField { field: "editable field" })
            } else if edit.title matches Some(t) && spec_text_error("event title", t@) is Some {
                r matches Err(ApplicationError::Domain(x)) && x == spec_text_error("event title", edit.title->0@)->0
            } else if edit.time matches Some(t) && spec_time_error(t) is Some {
                r matches Err(ApplicationError::Domain(x)) && x == spec_time_error(edit.time->0)->0
            } else {
                exists|stored: Result<Event, R::Error>| #[trigger] spec_edit_answer(stored) == r
            },
    {
        if expected_version < 1 {
            return Err(ApplicationError::Domain(DomainError::InvalidEventVersion));
        }
        if edit.is_empty() {
            return Err(ApplicationError::Domain(DomainError::EmptyField { field: "editable field" }));
        }
        if let Some(title) = &edit.title {
            if let Err(e) = validate_title(title) {
                return Err(ApplicationError::Domain(e));
            }
        }
        if let Some(time) = &edit.time {
            if let Err(e) = revalidate_time(time) {
                return Err(ApplicationError::Domain(e));
            }
        }
        let stored = self.repository.edit_event(event_id, expected_version, edit);
        let r = edit_answer(stored);
        assert(spec_edit_answer(stored) == r);
        r
    }

    /// The events of one local day, all-day first and then by start. The
    /// zone and both midnights are checked before the repository is asked.
    pub fn day_agenda(&self, date: CivilDate, timezone: &str) -> (r: Result<Vec<EventProjection>, QueryError<R::Error>>)
        ensures
            !spec_tz_known(timezone@) ==> (r matches Err(QueryError::InvalidTimezone { timezone: z }) && z@ == timezone@),
            spec_tz_known(timezone@) && date.wf() ==> (
            if !(date.days + 1 <= crate::time::DATE_MAX_DAYS) || spec_local_midnight(timezone@, date) is None
                || spec_local_midnight(timezone@, CivilDate { days: (date.days + 1) as i32 }) is None {
                r matches Err(QueryError::InvalidDayBoundary { .. })
            } else {
                (r matches Err(x) ==> x is Repository) && (r matches Ok(v) ==> exists|s: Seq<Event>| #![auto]
                    spec_listed_in_order(s) && v@ == s.map_values(|e: Event| spec_event_projection(e)))
            }),
    {
        if !tz_known(timezone) {
            return Err(QueryError::InvalidTimezone { timezone: text_of(timezone) });
        }
        if !date.is_in_range() {
            return Err(QueryError::InvalidDayBoundary { date, timezone: text_of(timezone) });
        }
        let next_date = match date.succ() {
            Some(d) => d,
            None => {
                return Err(QueryError::InvalidDayBoundary { date, timezone: text_of(timezone) });
            },
        };
        let starts_at = local_midnight::<R::Error>(timezone, date)?;
        let ends_at = local_midnight::<R::Error>(timezone, next_date)?;
        match self.repository.day_agenda(date, timezone, starts_at, ends_at) {
            Ok(items) => Ok(list_event_projections(items)),
            Err(e) => Err(QueryError::Repository(e)),
        }
    }
}

// ── Todo query projection ──

/// The order reminders are listed in: by lead time, a one-off before a repeating one.
pub open spec fn spec_reminder_rank(r: TodoReminder) -> int {
    r.minutes_before * 2 + if r.repeatable { 1int } else { 0int }
}

pub open spec fn spec_reminders_sorted(s: Seq<TodoReminder>) -> bool {
    forall|i: int, j: int| 0 <= i < j < s.len() ==> spec_reminder_rank(#[trigger] s[i]) <= spec_reminder_rank(#[trigger] s[j])
}

fn reminder_rank(r: TodoReminder) -> (k: u64)
    ensures
        k == spec_reminder_rank(r),
{
    r.minutes_before as u64 * 2 + if r.repeatable { 1 } else { 0 }
}

/// The reminders in listing order, each kept as often as it occurs.
pub fn sort_reminders(reminders: &Vec<TodoReminder>) -> (r: Vec<TodoReminder>)
    ensures
        spec_reminders_sorted(r@),
        r@.to_multiset() == reminders@.to_multiset(),
{
    let mut out: Vec<TodoReminder> = Vec::new();
    let mut i: usize = 0;
    while i < reminders.len()
        invariant
            i <= reminders.len(),
            spec_reminders_sorted(out@),
            out@.to_multiset() == reminders@.subrange(0, i as int).to_multiset(),
        decreases reminders.len() - i,
    {
        let x = reminders[i];
        let kx = reminder_rank(x);
        let mut p: usize = 0;
        while p < out.len() && reminder_rank(out[p]) <= kx
            invariant
                p <= out.len(),
                kx == spec_reminder_rank(x),
                forall|q: int| 0 <= q < p ==> spec_reminder_rank(#[trigger] out@[q]) <= kx,
            decreases out.len() - p,
        {
            p += 1;
        }
        let ghost before = out@;
        out.insert(p, x);
        proof {
            assert(forall|q: int| p <= q < before.len() ==> kx < spec_reminder_rank(#[trigger] before[q])) by {
                assert forall|q: int| p <= q < before.len() implies kx < spec_reminder_rank(#[trigger] before[q]) by {
                    assert(spec_reminder_rank(before[p as int]) <= spec_reminder_rank(before[q]));
                }
            }
            assert forall|a: int, b: int| 0 <= a < b < out@.len() implies spec_reminder_rank(#[trigger] out@[a]) <= spec_reminder_rank(#[trigger] out@[b]) by {
                if b < p {
                } else if a < p && b == p {
                } else if a < p {
                    assert(out@[b] == before[b - 1]);
                } else if a == p {
                    assert(out@[b] == before[b - 1]);
                } else {
                    assert(out@[a] == before[a - 1]);
                    assert(out@[b] == before[b - 1]);
                }
            }
            assert(reminders@.subrange(0, i + 1) =~= reminders@.subrange(0, i as int).push(x));
        }
        i += 1;
    }
    assert(reminders@.subrange(0, reminders@.len() as int) =~= reminders@);
    out
}

/// A todo's reminder at the instant it fires.
#[derive(Debug, Clone, PartialEq, Eq)]
pub struct Reminder {
    pub todo_id: TodoId,
    pub title: String,
    pub trigger_at: Timestamp,
    pub minutes_before: u32,
    pub repeatable: bool,
}

/// One deterministic result from legacy reminder materialization.
#[derive(Debug, Clone, PartialEq, Eq)]
pub struct ReminderDelivery {
    pub todo_id: TodoId,
    pub title: String,
    pub minutes_before: u32,
    pub repeatable: bool,
    pub scheduled_for: Timestamp,
    pub status: String,
    pub channel: &'static str,
}

/// A todo as queries show it, its reminders in listing order.
#[derive(Debug, Clone, PartialEq, Eq)]
pub struct TodoQueryProjection {
    pub id: TodoId,
    pub title: String,
    pub due: Option<TodoDue>,
    pub recurrence: Option<RecurrenceRule>,
    pub reminders: Vec<TodoReminder>,
    pub priority: Priority,
    pub project_id: Option<ProjectId>,
    pub tag_ids: Vec<TagId>,
    pub dependency_ids: Vec<TodoId>,
    pub notes: Option<String>,
    pub parent_id: Option<TodoId>,
    pub completed_at: Option<Timestamp>,
    pub trashed_at: Option<Timestamp>,
    pub version: i64,
    pub created_at: Timestamp,
    pub updated_at: Timestamp,
}

impl TodoQueryProjection {
    /// The projection of a todo: every field kept, reminders sorted.
    pub fn from_todo(todo: Todo) -> (r: TodoQueryProjection)
        ensures
            r.id == todo.id && r.title == todo.title && r.due == todo.due && r.recurrence
                == todo.recurrence && r.priority == todo.priority && r.project_id == todo.project_id
                && r.tag_ids == todo.tag_ids && r.dependency_ids == todo.dependency_ids && r.notes
                == todo.notes && r.parent_id == todo.parent_id && r.completed_at == todo.completed_at
                && r.trashed_at == todo.trashed_at && r.version == todo.version && r.created_at
                == todo.created_at && r.updated_at == todo.updated_at,
            spec_reminders_sorted(r.reminders@),
            r.reminders@.to_multiset() == todo.reminders@.to_multiset(),
    {
        let reminders = sort_reminders(&todo.reminders);
        TodoQueryProjection {
            id: todo.id,
            title: todo.title,
            due: todo.due,
            recurrence: todo.recurrence,
            reminders,
            priority: todo.priority,
            project_id: todo.project_id,
            tag_ids: todo.tag_ids,
            dependency_ids: todo.dependency_ids,
            notes: todo.notes,
            parent_id: todo.parent_id,
            completed_at: todo.completed_at,
            trashed_at: todo.trashed_at,
            version: todo.version,
            created_at: todo.created_at,
            updated_at: todo.updated_at,
        }
    }
}

// ── Projection metadata on agenda output ──

/// Where an agenda row comes from.
#[derive(Debug, Clone, Copy, PartialEq, Eq, Structural)]
pub enum AgendaKind {
    Event,
    Todo,
}

/// A producer diagnostic kept on projection-backed output.
#[derive(Debug, Clone, PartialEq, Eq)]
pub struct ProjectionDiagnostic {
    pub severity: String,
    pub code: String,
    pub message: String,
}

/// What the validated projection covers.
#[derive(Debug, Clone, PartialEq, Eq)]
pub struct ProjectionCompleteness {
    pub complete: bool,
    pub record_count: usize,
    pub todo_count: usize,
    pub link_count: usize,
    pub diagnostics: Vec<ProjectionDiagnostic>,
}

/// The identity of the projection an agenda was built from.
#[derive(Debug, Clone, PartialEq, Eq)]
pub struct TodoProjectionMetadata {
    pub producer: String,
    pub producer_version: String,
    pub producer_revision: u64,
    pub source_revision: String,
    pub content_revision: String,
    pub created_at: Timestamp,
    pub completeness: ProjectionCompleteness,
}

/// Projection-backed todo rows and the envelope that authorized them.
#[derive(Debug, Clone, PartialEq, Eq)]
pub struct AgendaTodoSnapshot {
    pub todos: Vec<Todo>,
    pub metadata: TodoProjectionMetadata,
}

} // verus!
