//! What the store decides without touching its file: the interchange
//! document's checks and order, status words, and migration bookkeeping.
use vstd::prelude::*;

use crate::application::{EventLifecycleError, EventLifecycleErrorMapping};
use crate::config::{DEFAULT_DB_FILE, join_path, spec_join_path};
use crate::domain::{
    Calendar, DomainError, Event, EventStatus, EventTime, spec_domain_error_message, spec_text_error,
    spec_timed_error,
};
use crate::ids::{CalendarId, EventId, ProjectId, TagId, spec_uuid_text};
use crate::time::{CivilDate, OffsetDateTime, Timestamp, spec_tz_known, spec_tz_offset_at, tz_known, tz_offset_at};
use crate::text::{chars_eq, chars_less, chars_of, decimal, join, owned, spec_chars_lt, spec_decimal, spec_to_lowercase, to_lowercase};
use vstd::string::StringSliceAdditionalSpecFns;

verus! {

broadcast use vstd::seq_lib::group_to_multiset_ensures;

/// Why a store operation was refused.
#[derive(Debug, Clone, PartialEq, Eq)]
pub enum StorageError {
    InvalidConfiguration(String),
    Open(String),
    Query(String),
    CalendarNotLive { calendar_id: CalendarId },
    EventNotFound { event_id: EventId },
    EventVersionConflict { event_id: EventId, expected_version: i64, actual_version: i64 },
    ProjectNotFound { project_id: ProjectId },
    TagAlreadyExists { normalized_name: String },
    TagNotFound { tag_id: TagId },
    ImportInvalid { reason: String },
    ImportConflict { kind: &'static str, id: String },
    InvalidStoredData(String),
    MigrationDrift { version: i64, actual: String, expected: &'static str },
    InvalidEdit { reason: DomainError },
}

impl EventLifecycleErrorMapping for StorageError {
    /// A missing event and a stale version become their lifecycle outcomes;
    /// any other failure stays the store's.
    open spec fn spec_lifecycle_error(self, event_id: EventId, expected_version: i64) -> EventLifecycleError<StorageError> {
        match self {
            StorageError::EventNotFound { .. } => EventLifecycleError::NotFound { event_id },
            StorageError::EventVersionConflict { actual_version, .. } => EventLifecycleError::VersionConflict {
                event_id,
                expected_version,
                actual_version,
            },
            _ => EventLifecycleError::Repository(self),
        }
    }

    fn map_event_lifecycle_error(self, event_id: EventId, expected_version: i64) -> (r: EventLifecycleError<StorageError>) {
        match self {
            StorageError::EventNotFound { .. } => EventLifecycleError::NotFound { event_id },
            StorageError::EventVersionConflict { actual_version, .. } => EventLifecycleError::VersionConflict {
                event_id,
                expected_version,
                actual_version,
            },
            error => EventLifecycleError::Repository(error),
        }
    }
}

/// Why the combined agenda's sources could not be read.
#[derive(Debug)]
pub enum AgendaRepositoryError {
    Calendar(StorageError),
    TodoProjection(crate::interop::ProjectionError),
}

// ── Temporal columns ──

pub const MSG_MIXED_TIME_COLUMNS: &'static str = "event has mixed or incomplete temporal columns";

/// The columns an event's time is stored in: a timed span keeps its zone and
/// its two instants in UTC, an all-day span its two dates.
pub open spec fn spec_time_columns(time: EventTime) -> (
    Option<String>,
    Option<Timestamp>,
    Option<Timestamp>,
    Option<CivilDate>,
    Option<CivilDate>,
) {
    match time {
        EventTime::Timed { start, end, timezone } => (
            Some(timezone),
            Some(Timestamp { seconds: start.seconds, nanos: start.nanos }),
            Some(Timestamp { seconds: end.seconds, nanos: end.nanos }),
            None,
            None,
        ),
        EventTime::AllDay { start, end_exclusive } => (None, None, None, Some(start), Some(end_exclusive)),
    }
}

/// A stored instant, written at its zone's offset there.
pub open spec fn spec_zoned(zone: Seq<char>, at: Timestamp) -> OffsetDateTime {
    OffsetDateTime { seconds: at.seconds, nanos: at.nanos, offset: spec_tz_offset_at(zone, at.seconds as int) as i32 }
}

/// The time an event's stored columns hold: a zone and two instants and no
/// dates, or two dates and nothing else; either is checked as it was built.
pub open spec fn spec_time_from_columns(
    timezone: Option<String>,
    starts_at: Option<Timestamp>,
    ends_at: Option<Timestamp>,
    all_day_start: Option<CivilDate>,
    all_day_end: Option<CivilDate>,
) -> Result<EventTime, Seq<char>> {
    match (timezone, starts_at, ends_at, all_day_start, all_day_end) {
        (Some(zone), Some(s), Some(e), None, None) => if !spec_tz_known(zone@) {
            Err("invalid IANA timezone '"@ + zone@ + "'"@)
        } else {
            let start = spec_zoned(zone@, s);
            let end = spec_zoned(zone@, e);
            match spec_timed_error(start, end, zone) {
                Some(x) => Err(spec_domain_error_message(x)),
                None => Ok(EventTime::Timed { start, end, timezone: zone }),
            }
        },
        (None, None, None, Some(s), Some(e)) => if s.days < e.days {
            Ok(EventTime::AllDay { start: s, end_exclusive: e })
        } else {
            Err(spec_domain_error_message(DomainError::InvalidAllDayRange))
        },
        _ => Err(MSG_MIXED_TIME_COLUMNS@),
    }
}

/// The columns an event's time is stored in.
pub fn event_time_columns(time: &EventTime) -> (r: (
    Option<String>,
    Option<Timestamp>,
    Option<Timestamp>,
    Option<CivilDate>,
    Option<CivilDate>,
))
    ensures
        r == spec_time_columns(*time),
{
    match time {
        EventTime::Timed { start, end, timezone } => (
            Some(timezone.clone()),
            Some(start.to_utc()),
            Some(end.to_utc()),
            None,
            None,
        ),
        EventTime::AllDay { start, end_exclusive } => (None, None, None, Some(*start), Some(*end_exclusive)),
    }
}

fn zoned(zone: &str, at: Timestamp) -> (r: OffsetDateTime)
    requires
        spec_tz_known(zone@),
        at.wf(),
    ensures
        r == spec_zoned(zone@, at),
        r.wf(),
{
    match tz_offset_at(zone, at.seconds) {
        Some(offset) => OffsetDateTime { seconds: at.seconds, nanos: at.nanos, offset },
        None => {
            assert(false);
            OffsetDateTime { seconds: at.seconds, nanos: at.nanos, offset: 0 }
        },
    }
}

/// An event's time read back from its stored columns; a row that holds no
/// one temporal form, or a form its constructor refuses, is invalid data.
pub fn event_time_from_columns(
    timezone: Option<String>,
    starts_at: Option<Timestamp>,
    ends_at: Option<Timestamp>,
    all_day_start: Option<CivilDate>,
    all_day_end: Option<CivilDate>,
) -> (r: Result<EventTime, StorageError>)
    requires
        starts_at matches Some(t) ==> t.wf(),
        ends_at matches Some(t) ==> t.wf(),
    ensures
        match spec_time_from_columns(timezone, starts_at, ends_at, all_day_start, all_day_end) {
            Ok(t) => r == Ok::<EventTime, StorageError>(t),
            Err(m) => r matches Err(StorageError::InvalidStoredData(x)) && x@ == m,
        },
{
    match (timezone, starts_at, ends_at, all_day_start, all_day_end) {
        (Some(zone), Some(s), Some(e), None, None) => {
            if !tz_known(zone.as_str()) {
                return Err(StorageError::InvalidStoredData(crate::text::join3("invalid IANA timezone '", zone.as_str(), "'")));
            }
            let start = zoned(zone.as_str(), s);
            let end = zoned(zone.as_str(), e);
            match EventTime::timed(start, end, zone) {
                Ok(t) => Ok(t),
                Err(x) => Err(StorageError::InvalidStoredData(x.message())),
            }
        },
        (None, None, None, Some(s), Some(e)) => match EventTime::all_day(s, e) {
            Ok(t) => Ok(t),
            Err(x) => Err(StorageError::InvalidStoredData(x.message())),
        },
        _ => Err(StorageError::InvalidStoredData(owned(MSG_MIXED_TIME_COLUMNS))),
    }
}

/// What the store reads back of an event's time is what it wrote: the
/// columns of a time its constructors accept give that same time.
pub proof fn lemma_time_columns_round_trip(time: EventTime)
    requires
        match time {
            EventTime::Timed { start, end, timezone } => spec_timed_error(start, end, timezone) is None,
            EventTime::AllDay { start, end_exclusive } => start.days < end_exclusive.days,
        },
    ensures
        ({
            let (z, s, e, ds, de) = spec_time_columns(time);
            spec_time_from_columns(z, s, e, ds, de) == Ok::<EventTime, Seq<char>>(time)
        }),
{
    if let EventTime::Timed { start, end, timezone } = time {
        assert(spec_zoned(timezone@, Timestamp { seconds: start.seconds, nanos: start.nanos }) == start);
        assert(spec_zoned(timezone@, Timestamp { seconds: end.seconds, nanos: end.nanos }) == end);
    }
}

// ── Writing an edit ──

/// The row an accepted edit writes: the edited event one version past the
/// stored one, updated at `now`, every other field as the edit left it.
pub fn next_version(edited: Event, stored_version: i64, now: Timestamp) -> (r: Event)
    requires
        stored_version < i64::MAX,
    ensures
        r == (Event { version: (stored_version + 1) as i64, updated_at: now, ..edited }),
{
    let mut next = edited;
    next.version = stored_version + 1;
    next.updated_at = now;
    next
}

/// The row a lifecycle change writes: one version on, updated at `now`, and
/// cancelled at `now` by a cancel or live again by a restore; every other
/// field as stored.
pub fn lifecycle_next(current: Event, cancelling: bool, now: Timestamp) -> (r: Event)
    requires
        current.version < i64::MAX,
    ensures
        r == (Event {
            version: (current.version + 1) as i64,
            updated_at: now,
            deleted_at: if cancelling { Some(now) } else { None },
            ..current
        }),
{
    let mut next = current;
    next.version = next.version + 1;
    next.updated_at = now;
    next.deleted_at = if cancelling { Some(now) } else { None };
    next
}

// ── Status words ──

pub open spec fn spec_status_word(s: EventStatus) -> Seq<char> {
    match s {
        EventStatus::Tentative => "tentative"@,
        EventStatus::Confirmed => "confirmed"@,
        EventStatus::Cancelled => "cancelled"@,
    }
}

/// The word a status is stored as.
pub fn event_status(status: EventStatus) -> (r: &'static str)
    ensures
        r@ == spec_status_word(status),
{
    match status {
        EventStatus::Tentative => "tentative",
        EventStatus::Confirmed => "confirmed",
        EventStatus::Cancelled => "cancelled",
    }
}

/// The status a stored word names.
pub open spec fn spec_status_of(word: Seq<char>) -> Option<EventStatus> {
    if word == "tentative"@ {
        Some(EventStatus::Tentative)
    } else if word == "confirmed"@ {
        Some(EventStatus::Confirmed)
    } else if word == "cancelled"@ {
        Some(EventStatus::Cancelled)
    } else {
        None
    }
}

/// Read a stored status; a word that names none is refused.
pub fn parse_event_status(value: Option<String>) -> (r: Result<Option<EventStatus>, StorageError>)
    ensures
        match value {
            None => r == Ok::<Option<EventStatus>, StorageError>(None),
            Some(v) => match spec_status_of(v@) {
                Some(s) => r == Ok::<Option<EventStatus>, StorageError>(Some(s)),
                None => r matches Err(StorageError::InvalidStoredData(m)) && m@ == "unknown event status '"@ + v@ + "'"@,
            },
        },
{
    match value {
        None => Ok(None),
        Some(v) => {
            if crate::text::str_eq(v.as_str(), "tentative") {
                Ok(Some(EventStatus::Tentative))
            } else if crate::text::str_eq(v.as_str(), "confirmed") {
                Ok(Some(EventStatus::Confirmed))
            } else if crate::text::str_eq(v.as_str(), "cancelled") {
                Ok(Some(EventStatus::Cancelled))
            } else {
                Err(StorageError::InvalidStoredData(crate::text::join3("unknown event status '", v.as_str(), "'")))
            }
        },
    }
}

/// Reading the word a status is stored as gives that status back.
pub proof fn lemma_status_round_trip(s: EventStatus)
    ensures
        spec_status_of(spec_status_word(s)) == Some(s),
{
    reveal_strlit("tentative");
    reveal_strlit("confirmed");
    reveal_strlit("cancelled");
    assert("tentative"@[0] != "confirmed"@[0]);
    assert("tentative"@[0] != "cancelled"@[0]);
    assert("confirmed"@[1] != "cancelled"@[1]);
}

// ── Interchange document ──

/// The interchange document's schema version.
pub const EXPORT_SCHEMA_VERSION: u8 = 1;

/// A lossless document of local calendars and events.
#[derive(Debug, Clone, PartialEq, Eq)]
pub struct EventExport {
    pub schema_version: u8,
    pub calendars: Vec<Calendar>,
    pub events: Vec<Event>,
}

/// Why the calendar at `i` is refused: its name, or an identity used before it.
pub open spec fn spec_calendar_problem(cals: Seq<Calendar>, i: int) -> Option<Seq<char>> {
    match spec_text_error("calendar name", cals[i].name@) {
        Some(e) => Some(spec_domain_error_message(e)),
        None => if exists|j: int| 0 <= j < i && #[trigger] cals[j].id == cals[i].id {
            Some("duplicate calendar "@ + spec_uuid_text(cals[i].id.value))
        } else {
            None
        },
    }
}

/// The first refused calendar among the first `k`.
pub open spec fn spec_calendars_problem(cals: Seq<Calendar>, k: int) -> Option<Seq<char>>
    decreases k,
{
    if k <= 0 {
        None
    } else {
        match spec_calendars_problem(cals, k - 1) {
            Some(m) => Some(m),
            None => spec_calendar_problem(cals, k - 1),
        }
    }
}

/// How many of the first `k` calendars are live defaults.
pub open spec fn spec_live_defaults(cals: Seq<Calendar>, k: int) -> int
    decreases k,
{
    if k <= 0 {
        0
    } else {
        spec_live_defaults(cals, k - 1) + if cals[k - 1].deleted_at is None && cals[k - 1].is_default { 1int } else { 0int }
    }
}

/// Why the event at `i` is refused, if it is.
pub open spec fn spec_event_problem(cals: Seq<Calendar>, evs: Seq<Event>, i: int) -> Option<Seq<char>> {
    let e = evs[i];
    let id = spec_uuid_text(e.id.value);
    if !(exists|c: int| 0 <= c < cals.len() && #[trigger] cals[c].id == e.calendar_id) {
        Some("event "@ + id + " references missing calendar"@)
    } else if exists|j: int| 0 <= j < i && #[trigger] evs[j].id == e.id {
        Some("duplicate event "@ + id)
    } else if exists|j: int| 0 <= j < i && (#[trigger] evs[j].rfc_uid).0@ == e.rfc_uid.0@ {
        Some("duplicate RFC UID for event "@ + id)
    } else {
        match e.time {
            EventTime::Timed { start, end, timezone } => match spec_timed_error(start, end, timezone) {
                Some(d) => Some(spec_domain_error_message(d)),
                None => spec_rehydrate_problem(e),
            },
            EventTime::AllDay { start, end_exclusive } => if start.days >= end_exclusive.days {
                Some(spec_domain_error_message(DomainError::InvalidAllDayRange))
            } else {
                spec_rehydrate_problem(e)
            },
        }
    }
}

/// Why a stored event's version or title is refused, if it is.
pub open spec fn spec_rehydrate_problem(e: Event) -> Option<Seq<char>> {
    if e.version < 1 {
        Some(spec_domain_error_message(DomainError::InvalidEventVersion))
    } else {
        match spec_text_error("event title", e.title@) {
            Some(d) => Some(spec_domain_error_message(d)),
            None => None,
        }
    }
}

/// The first refused event among the first `k`.
pub open spec fn spec_events_problem(cals: Seq<Calendar>, evs: Seq<Event>, k: int) -> Option<Seq<char>>
    decreases k,
{
    if k <= 0 {
        None
    } else {
        match spec_events_problem(cals, evs, k - 1) {
            Some(m) => Some(m),
            None => spec_event_problem(cals, evs, k - 1),
        }
    }
}

/// Why a document is refused, if it is.
pub open spec fn spec_export_problem(x: EventExport) -> Option<Seq<char>> {
    let cals = x.calendars@;
    let evs = x.events@;
    if x.schema_version != EXPORT_SCHEMA_VERSION {
        Some("unsupported schema_version "@ + spec_decimal(x.schema_version as nat))
    } else if spec_calendars_problem(cals, cals.len() as int) is Some {
        spec_calendars_problem(cals, cals.len() as int)
    } else if spec_live_defaults(cals, cals.len() as int) > 1 {
        Some("multiple live default calendars"@)
    } else {
        spec_events_problem(cals, evs, evs.len() as int)
    }
}

proof fn lemma_calendars_problem_stays(cals: Seq<Calendar>, k: int, m: int)
    requires
        0 <= k <= m,
        spec_calendars_problem(cals, k) is Some,
    ensures
        spec_calendars_problem(cals, m) == spec_calendars_problem(cals, k),
    decreases m - k,
{
    if m > k {
        lemma_calendars_problem_stays(cals, k, m - 1);
    }
}

proof fn lemma_events_problem_stays(cals: Seq<Calendar>, evs: Seq<Event>, k: int, m: int)
    requires
        0 <= k <= m,
        spec_events_problem(cals, evs, k) is Some,
    ensures
        spec_events_problem(cals, evs, m) == spec_events_problem(cals, evs, k),
    decreases m - k,
{
    if m > k {
        lemma_events_problem_stays(cals, evs, k, m - 1);
    }
}

fn import_invalid(reason: String) -> (e: StorageError)
    ensures
        e == (StorageError::ImportInvalid { reason }),
{
    StorageError::ImportInvalid { reason }
}

fn check_calendar(cals: &Vec<Calendar>, i: usize) -> (r: Result<(), StorageError>)
    requires
        i < cals@.len(),
    ensures
        match spec_calendar_problem(cals@, i as int) {
            Some(m) => r matches Err(StorageError::ImportInvalid { reason }) && reason@ == m,
            None => r is Ok,
        },
{
    let c = &cals[i];
    match crate::domain::validate_text("calendar name", c.name.clone()) {
        Ok(_) => {},
        Err(e) => return Err(import_invalid(e.message())),
    }
    let mut j: usize = 0;
    while j < i
        invariant
            i < cals@.len(),
            j <= i,
            *c == cals@[i as int],
            spec_text_error("calendar name", cals@[i as int].name@) is None,
            forall|x: int| 0 <= x < j ==> #[trigger] cals@[x].id != cals@[i as int].id,
        decreases i - j,
    {
        if cals[j].id.value == c.id.value {
            return Err(import_invalid(join("duplicate calendar ", c.id.to_text().as_str())));
        }
        j += 1;
    }
    Ok(())
}

fn check_event(cals: &Vec<Calendar>, evs: &Vec<Event>, i: usize) -> (r: Result<(), StorageError>)
    requires
        i < evs@.len(),
        evs@[i as int].time matches EventTime::Timed { start, end, .. } ==> start.wf() && end.wf(),
    ensures
        match spec_event_problem(cals@, evs@, i as int) {
            Some(m) => r matches Err(StorageError::ImportInvalid { reason }) && reason@ == m,
            None => r is Ok,
        },
{
    let e = &evs[i];
    let id = e.id.to_text();
    let mut found = false;
    let mut c: usize = 0;
    while c < cals.len()
        invariant
            c <= cals@.len(),
            found == exists|x: int| 0 <= x < c && #[trigger] cals@[x].id == e.calendar_id,
        decreases cals.len() - c,
    {
        if cals[c].id.value == e.calendar_id.value {
            found = true;
        }
        proof {
            if found && cals@[c as int].id != e.calendar_id {
                let x = choose|x: int| 0 <= x < c && #[trigger] cals@[x].id == e.calendar_id;
                assert(0 <= x < c + 1);
            }
        }
        c += 1;
    }
    if !found {
        return Err(import_invalid(crate::text::join3("event ", id.as_str(), " references missing calendar")));
    }
    let own_uid = chars_of(e.rfc_uid.as_str());
    let mut j: usize = 0;
    while j < i
        invariant
            i < evs@.len(),
            j <= i,
            e == evs@[i as int],
            own_uid@ == e.rfc_uid.0@,
            id@ == spec_uuid_text(e.id.value),
            exists|x: int| 0 <= x < cals@.len() && #[trigger] cals@[x].id == e.calendar_id,
            forall|x: int| 0 <= x < j ==> #[trigger] evs@[x].id != e.id,
        decreases i - j,
    {
        if evs[j].id.value == e.id.value {
            return Err(import_invalid(join("duplicate event ", id.as_str())));
        }
        j += 1;
    }
    let mut j: usize = 0;
    while j < i
        invariant
            i < evs@.len(),
            j <= i,
            e == evs@[i as int],
            own_uid@ == e.rfc_uid.0@,
            id@ == spec_uuid_text(e.id.value),
            exists|x: int| 0 <= x < cals@.len() && #[trigger] cals@[x].id == e.calendar_id,
            forall|x: int| 0 <= x < i ==> #[trigger] evs@[x].id != e.id,
            forall|x: int| 0 <= x < j ==> (#[trigger] evs@[x].rfc_uid).0@ != e.rfc_uid.0@,
        decreases i - j,
    {
        let other = chars_of(evs[j].rfc_uid.as_str());
        if chars_eq(other.as_slice(), own_uid.as_slice()) {
            return Err(import_invalid(join("duplicate RFC UID for event ", id.as_str())));
        }
        j += 1;
    }
    let checked = match &e.time {
        EventTime::Timed { start, end, timezone } => EventTime::timed(*start, *end, timezone.clone()),
        EventTime::AllDay { start, end_exclusive } => EventTime::all_day(*start, *end_exclusive),
    };
    if let Err(d) = checked {
        return Err(import_invalid(d.message()));
    }
    if e.version < 1 {
        return Err(import_invalid(DomainError::InvalidEventVersion.message()));
    }
    match crate::domain::validate_text("event title", e.title.clone()) {
        Ok(_) => Ok(()),
        Err(d) => Err(import_invalid(d.message())),
    }
}

impl EventExport {
    /// Refuse a document that would not survive its own round trip: a foreign
    /// schema, an invalid or repeated calendar, more than one live default, an
    /// event of a missing calendar, a repeated event or UID, or an invalid event.
    pub fn validate(&self) -> (r: Result<(), StorageError>)
        requires
            forall|i: int| 0 <= i < self.events@.len() ==> ((#[trigger] self.events@[i]).time matches EventTime::Timed { start, end, .. } ==> start.wf() && end.wf()),
        ensures
            match spec_export_problem(*self) {
                Some(m) => r matches Err(StorageError::ImportInvalid { reason }) && reason@ == m,
                None => r is Ok,
            },
    {
        if self.schema_version != EXPORT_SCHEMA_VERSION {
            return Err(import_invalid(join("unsupported schema_version ", decimal(self.schema_version as u64).as_str())));
        }
        let mut defaults: usize = 0;
        let mut i: usize = 0;
        while i < self.calendars.len()
            invariant
                i <= self.calendars@.len(),
                self.schema_version == EXPORT_SCHEMA_VERSION,
                spec_calendars_problem(self.calendars@, i as int) is None,
                defaults == spec_live_defaults(self.calendars@, i as int),
                defaults <= i,
            decreases self.calendars.len() - i,
        {
            match check_calendar(&self.calendars, i) {
                Ok(()) => {},
                Err(e) => {
                    proof { lemma_calendars_problem_stays(self.calendars@, i as int + 1, self.calendars@.len() as int); }
                    return Err(e);
                },
            }
            let c = &self.calendars[i];
            if c.deleted_at.is_none() && c.is_default {
                defaults += 1;
            }
            i += 1;
        }
        if defaults > 1 {
            return Err(import_invalid(owned("multiple live default calendars")));
        }
        let mut k: usize = 0;
        while k < self.events.len()
            invariant
                k <= self.events@.len(),
                self.schema_version == EXPORT_SCHEMA_VERSION,
                spec_calendars_problem(self.calendars@, self.calendars@.len() as int) is None,
                spec_live_defaults(self.calendars@, self.calendars@.len() as int) <= 1,
                spec_events_problem(self.calendars@, self.events@, k as int) is None,
                forall|i: int| 0 <= i < self.events@.len() ==> ((#[trigger] self.events@[i]).time matches EventTime::Timed { start, end, .. } ==> start.wf() && end.wf()),
            decreases self.events.len() - k,
        {
            match check_event(&self.calendars, &self.events, k) {
                Ok(()) => {},
                Err(e) => {
                    proof { lemma_events_problem_stays(self.calendars@, self.events@, k as int + 1, self.events@.len() as int); }
                    return Err(e);
                },
            }
            k += 1;
        }
        Ok(())
    }
}

// ── The document's order ──

/// Calendars by lower-cased name, then identity.
pub open spec fn spec_calendar_before(a: Calendar, b: Calendar) -> bool {
    spec_chars_lt(spec_to_lowercase(a.name@), spec_to_lowercase(b.name@))
        || (spec_to_lowercase(a.name@) == spec_to_lowercase(b.name@) && a.id.value < b.id.value)
}

/// Events by calendar identity, then their own.
pub open spec fn spec_event_before(a: Event, b: Event) -> bool {
    a.calendar_id.value < b.calendar_id.value || (a.calendar_id.value == b.calendar_id.value && a.id.value < b.id.value)
}

pub open spec fn spec_calendars_ordered(s: Seq<Calendar>) -> bool {
    forall|i: int, j: int| 0 <= i < j < s.len() ==> !spec_calendar_before(#[trigger] s[j], #[trigger] s[i])
}

pub open spec fn spec_events_ordered(s: Seq<Event>) -> bool {
    forall|i: int, j: int| 0 <= i < j < s.len() ==> !spec_event_before(#[trigger] s[j], #[trigger] s[i])
}

proof fn lemma_calendar_before_order(a: Calendar, b: Calendar, c: Calendar)
    ensures
        !(spec_calendar_before(a, b) && spec_calendar_before(b, a)),
        spec_calendar_before(a, b) && spec_calendar_before(b, c) ==> spec_calendar_before(a, c),
{
    let (x, y, z) = (spec_to_lowercase(a.name@), spec_to_lowercase(b.name@), spec_to_lowercase(c.name@));
    crate::text::lemma_chars_lt_total(x, y);
    crate::text::lemma_chars_lt_irreflexive(x);
    crate::text::lemma_chars_lt_irreflexive(y);
    if spec_chars_lt(x, y) && spec_chars_lt(y, z) {
        crate::text::lemma_chars_lt_transitive(x, y, z);
    }
}

fn calendar_before(a: &Calendar, b: &Calendar) -> (r: bool)
    ensures
        r == spec_calendar_before(*a, *b),
{
    let x = chars_of(to_lowercase(a.name.as_str()).as_str());
    let y = chars_of(to_lowercase(b.name.as_str()).as_str());
    chars_less(x.as_slice(), y.as_slice()) || (chars_eq(x.as_slice(), y.as_slice()) && a.id.value < b.id.value)
}

fn order_calendars(cals: Vec<Calendar>) -> (r: Vec<Calendar>)
    ensures
        spec_calendars_ordered(r@),
        r@.to_multiset() == cals@.to_multiset(),
{
    let mut out: Vec<Calendar> = Vec::new();
    let mut rest = cals;
    let ghost all = rest@;
    while rest.len() > 0
        invariant
            spec_calendars_ordered(out@),
            out@.to_multiset().add(rest@.to_multiset()) == all.to_multiset(),
        decreases rest.len(),
    {
        let ghost before_rest = rest@;
        let x = rest.remove(0);
        proof {
            vstd::seq_lib::to_multiset_remove(before_rest, 0);
        }
        let mut p: usize = 0;
        while p < out.len() && !calendar_before(&x, &out[p])
            invariant
                p <= out@.len(),
                forall|q: int| 0 <= q < p ==> !spec_calendar_before(x, #[trigger] out@[q]),
            decreases out.len() - p,
        {
            p += 1;
        }
        let ghost before = out@;
        out.insert(p, x);
        proof {
            vstd::seq_lib::to_multiset_insert(before, p as int, x);
            assert forall|i: int, j: int| 0 <= i < j < out@.len() implies !spec_calendar_before(#[trigger] out@[j], #[trigger] out@[i]) by {
                if j < p {
                    assert(out@[i] == before[i] && out@[j] == before[j]);
                } else if i < p && j == p {
                    assert(out@[i] == before[i]);
                    lemma_calendar_before_order(x, before[i], x);
                } else if i < p {
                    assert(out@[i] == before[i] && out@[j] == before[j - 1]);
                } else if i == p {
                    assert(out@[j] == before[j - 1]);
                    assert(spec_calendar_before(x, before[p as int]));
                    lemma_calendar_before_order(before[j - 1], x, before[p as int]);
                    lemma_calendar_before_order(before[p as int], before[j - 1], x);
                    if j - 1 > p {
                        assert(!spec_calendar_before(before[j - 1], before[p as int]));
                    }
                } else {
                    assert(out@[i] == before[i - 1] && out@[j] == before[j - 1]);
                }
            }
            assert(out@.to_multiset().add(rest@.to_multiset()) =~= all.to_multiset());
        }
    }
    assert(rest@.to_multiset() =~= vstd::multiset::Multiset::empty());
    assert(out@.to_multiset().add(rest@.to_multiset()) =~= out@.to_multiset());
    out
}

fn order_events(evs: Vec<Event>) -> (r: Vec<Event>)
    ensures
        spec_events_ordered(r@),
        r@.to_multiset() == evs@.to_multiset(),
{
    let mut out: Vec<Event> = Vec::new();
    let mut rest = evs;
    let ghost all = rest@;
    while rest.len() > 0
        invariant
            spec_events_ordered(out@),
            out@.to_multiset().add(rest@.to_multiset()) == all.to_multiset(),
        decreases rest.len(),
    {
        let ghost before_rest = rest@;
        let x = rest.remove(0);
        proof {
            vstd::seq_lib::to_multiset_remove(before_rest, 0);
        }
        let mut p: usize = 0;
        while p < out.len() && !(x.calendar_id.value < out[p].calendar_id.value || (x.calendar_id.value == out[p].calendar_id.value && x.id.value < out[p].id.value))
            invariant
                p <= out@.len(),
                forall|q: int| 0 <= q < p ==> !spec_event_before(x, #[trigger] out@[q]),
            decreases out.len() - p,
        {
            p += 1;
        }
        let ghost before = out@;
        out.insert(p, x);
        proof {
            vstd::seq_lib::to_multiset_insert(before, p as int, x);
            assert forall|i: int, j: int| 0 <= i < j < out@.len() implies !spec_event_before(#[trigger] out@[j], #[trigger] out@[i]) by {
                if j < p {
                    assert(out@[i] == before[i] && out@[j] == before[j]);
                } else if i < p && j == p {
                    assert(out@[i] == before[i]);
                } else if i < p {
                    assert(out@[i] == before[i] && out@[j] == before[j - 1]);
                } else if i == p {
                    assert(out@[j] == before[j - 1]);
                    if j - 1 > p {
                        assert(!spec_event_before(before[j - 1], before[p as int]));
                    }
                } else {
                    assert(out@[i] == before[i - 1] && out@[j] == before[j - 1]);
                }
            }
            assert(out@.to_multiset().add(rest@.to_multiset()) =~= all.to_multiset());
        }
    }
    assert(rest@.to_multiset() =~= vstd::multiset::Multiset::empty());
    assert(out@.to_multiset().add(rest@.to_multiset()) =~= out@.to_multiset());
    out
}

impl EventExport {
    /// A checked document, its calendars and events in their stable order.
    pub fn checked(self) -> (r: Result<EventExport, StorageError>)
        requires
            forall|i: int| 0 <= i < self.events@.len() ==> ((#[trigger] self.events@[i]).time matches EventTime::Timed { start, end, .. } ==> start.wf() && end.wf()),
        ensures
            match spec_export_problem(self) {
                Some(m) => r matches Err(StorageError::ImportInvalid { reason }) && reason@ == m,
                None => r matches Ok(x) && x.schema_version == self.schema_version
                    && spec_calendars_ordered(x.calendars@) && x.calendars@.to_multiset() == self.calendars@.to_multiset()
                    && spec_events_ordered(x.events@) && x.events@.to_multiset() == self.events@.to_multiset(),
            },
    {
        self.validate()?;
        let EventExport { schema_version, calendars, events } = self;
        Ok(EventExport { schema_version, calendars: order_calendars(calendars), events: order_events(events) })
    }
}

// ── Migrations ──

// Calendars and events, the authority this application owns. The CHECK pair keeps a
// row either wholly timed or wholly all-day, which is what an event time is.
pub const FOUNDATION_SQL: &'static str = "\
CREATE TABLE calendars (
    id TEXT PRIMARY KEY,
    name TEXT NOT NULL,
    color TEXT,
    is_default INTEGER NOT NULL DEFAULT 0,
    created_at TEXT NOT NULL,
    updated_at TEXT NOT NULL,
    deleted_at TEXT
);
CREATE UNIQUE INDEX calendars_one_default ON calendars (is_default)
    WHERE is_default = 1 AND deleted_at IS NULL;
CREATE TABLE events (
    id TEXT PRIMARY KEY,
    calendar_id TEXT NOT NULL REFERENCES calendars(id),
    rfc_uid TEXT NOT NULL UNIQUE,
    title TEXT NOT NULL,
    description TEXT,
    location TEXT,
    url TEXT,
    status TEXT,
    busy INTEGER NOT NULL DEFAULT 1,
    timezone TEXT,
    starts_at TEXT,
    ends_at TEXT,
    all_day_start TEXT,
    all_day_end TEXT,
    recurrence_rule TEXT,
    extension_properties TEXT NOT NULL DEFAULT '{}',
    created_at TEXT NOT NULL,
    updated_at TEXT NOT NULL,
    deleted_at TEXT,
    remote_tombstoned_at TEXT,
    version INTEGER NOT NULL DEFAULT 1 CHECK (version >= 1),
    CHECK ((timezone IS NOT NULL AND starts_at IS NOT NULL AND ends_at IS NOT NULL
            AND all_day_start IS NULL AND all_day_end IS NULL)
        OR (timezone IS NULL AND starts_at IS NULL AND ends_at IS NULL
            AND all_day_start IS NOT NULL AND all_day_end IS NOT NULL)),
    CHECK (ends_at IS NULL OR ends_at > starts_at),
    CHECK (all_day_end IS NULL OR all_day_end > all_day_start),
    CHECK (recurrence_rule IS NULL OR json_valid(recurrence_rule)),
    CHECK (json_valid(extension_properties))
);
CREATE INDEX events_calendar_idx ON events (calendar_id);
CREATE INDEX events_recurrence_idx ON events (starts_at, all_day_start)
    WHERE recurrence_rule IS NOT NULL AND deleted_at IS NULL;";

// Project and tag metadata. Both are keyed by a normalized name so two spellings of
// one name cannot become two records; an archived project releases its name again.
pub const PROJECTS_AND_TAGS_SQL: &'static str = "\
CREATE TABLE projects (
    id TEXT PRIMARY KEY,
    name TEXT NOT NULL,
    normalized_name TEXT NOT NULL,
    archived_at TEXT,
    version INTEGER NOT NULL DEFAULT 1 CHECK (version > 0),
    created_at TEXT NOT NULL,
    updated_at TEXT NOT NULL
);
CREATE UNIQUE INDEX projects_normalized_name_unique ON projects (normalized_name)
    WHERE archived_at IS NULL;
CREATE TABLE tags (
    id TEXT PRIMARY KEY,
    name TEXT NOT NULL,
    normalized_name TEXT NOT NULL,
    created_at TEXT NOT NULL,
    updated_at TEXT NOT NULL
);
CREATE UNIQUE INDEX tags_normalized_name_unique ON tags (normalized_name);";

/// One embedded schema migration, and the tables it creates.
#[derive(Debug, Clone)]
pub struct Migration {
    pub version: i64,
    pub name: &'static str,
    pub sql: &'static str,
    pub tables: Vec<&'static str>,
}

/// A migration's state against a live store.
#[derive(Debug, Clone, PartialEq, Eq)]
pub struct MigrationState {
    pub version: i64,
    pub name: String,
    pub applied: bool,
}

/// Migration versions are strictly increasing, so no two share a version and
/// the ledger's order is the order they apply in.
pub proof fn lemma_migration_versions_increase()
    ensures
        forall|i: int, j: int| 0 <= i < j < spec_migrations().len() ==> spec_migrations()[i].0 < spec_migrations()[j].0,
{
}

/// The embedded migrations: version, name, statements, tables.
pub open spec fn spec_migrations() -> Seq<(i64, Seq<char>, &'static str, Seq<Seq<char>>)> {
    seq![
        (1i64, "foundation"@, FOUNDATION_SQL, seq!["calendars"@, "events"@]),
        (2i64, "projects_and_tags"@, PROJECTS_AND_TAGS_SQL, seq!["projects"@, "tags"@]),
    ]
}

pub open spec fn spec_migration_view(m: Migration) -> (i64, Seq<char>, &'static str, Seq<Seq<char>>) {
    (m.version, m.name@, m.sql, m.tables@.map_values(|t: &'static str| t@))
}

/// The embedded migrations, in version order.
pub fn migrations() -> (r: Vec<Migration>)
    ensures
        r@.map_values(|m: Migration| spec_migration_view(m)) == spec_migrations(),
        r@.len() == 2,
{
    let mut first: Vec<&'static str> = Vec::new();
    first.push("calendars");
    first.push("events");
    let mut second: Vec<&'static str> = Vec::new();
    second.push("projects");
    second.push("tags");
    let mut r: Vec<Migration> = Vec::new();
    r.push(Migration { version: 1, name: "foundation", sql: FOUNDATION_SQL, tables: first });
    r.push(Migration { version: 2, name: "projects_and_tags", sql: PROJECTS_AND_TAGS_SQL, tables: second });
    proof {
        assert(r@[0].tables@.map_values(|t: &'static str| t@) =~= seq!["calendars"@, "events"@]);
        assert(r@[1].tables@.map_values(|t: &'static str| t@) =~= seq!["projects"@, "tags"@]);
        assert(r@.map_values(|m: Migration| spec_migration_view(m)) =~= spec_migrations());
    }
    r
}

/// The checksum a migration is recorded with: the hexadecimal SHA-256 of its statements.
pub fn migration_checksum(sql: &str) -> (r: String)
    ensures
        r@ == crate::interop::spec_hex(crate::interop::spec_sha256(sql.spec_bytes())),
{
    let digest = crate::interop::sha256(sql.as_bytes());
    crate::interop::hex_digest(digest.as_slice())
}

/// The index of the embedded migration with this version, or -1.
pub open spec fn spec_migration_index(version: i64) -> int {
    if version == 1 {
        0
    } else if version == 2 {
        1
    } else {
        -1
    }
}

pub const UNKNOWN_MIGRATION: &'static str = "unknown migration";
pub const EXPECTED_EMBEDDED: &'static str = "an embedded migration";

/// Why a recorded migration no longer matches the embedded one, if it does not.
pub open spec fn spec_recorded_problem(version: i64, checksum: Option<Seq<char>>, present: Seq<Seq<char>>) -> Option<(i64, Seq<char>, Seq<char>)> {
    let i = spec_migration_index(version);
    if i < 0 {
        Some((version, UNKNOWN_MIGRATION@, EXPECTED_EMBEDDED@))
    } else {
        let m = spec_migrations()[i];
        let expected = crate::interop::spec_hex(crate::interop::spec_sha256(m.2.spec_bytes()));
        if checksum matches Some(c) && c != expected {
            Some((version, checksum->Some_0, m.1))
        } else {
            match spec_first_absent(m.3, present, 0) {
                Some(t) => Some((version, "missing live table "@ + t, m.1)),
                None => None,
            }
        }
    }
}

/// The first of the tables from `k` on that is not present.
pub open spec fn spec_first_absent(tables: Seq<Seq<char>>, present: Seq<Seq<char>>, k: int) -> Option<Seq<char>>
    decreases tables.len() - k,
{
    if k < 0 || k >= tables.len() {
        None
    } else if !present.contains(tables[k]) {
        Some(tables[k])
    } else {
        spec_first_absent(tables, present, k + 1)
    }
}

/// The first recorded migration among the first `k` that no longer matches.
pub open spec fn spec_ledger_problem(recorded: Seq<(i64, Option<Seq<char>>)>, present: Seq<Seq<char>>, k: int) -> Option<(i64, Seq<char>, Seq<char>)>
    decreases k,
{
    if k <= 0 {
        None
    } else {
        match spec_ledger_problem(recorded, present, k - 1) {
            Some(p) => Some(p),
            None => spec_recorded_problem(recorded[k - 1].0, recorded[k - 1].1, present),
        }
    }
}

pub open spec fn spec_ledger_view(recorded: Seq<(i64, Option<String>)>) -> Seq<(i64, Option<Seq<char>>)> {
    recorded.map_values(|e: (i64, Option<String>)| (e.0, match e.1 { Some(s) => Some(s@), None => None }))
}

proof fn lemma_ledger_problem_stays(recorded: Seq<(i64, Option<Seq<char>>)>, present: Seq<Seq<char>>, k: int, m: int)
    requires
        0 <= k <= m,
        spec_ledger_problem(recorded, present, k) is Some,
    ensures
        spec_ledger_problem(recorded, present, m) == spec_ledger_problem(recorded, present, k),
    decreases m - k,
{
    if m > k {
        lemma_ledger_problem_stays(recorded, present, k, m - 1);
    }
}

fn is_present(present: &Vec<String>, table: &str) -> (r: bool)
    ensures
        r == present@.map_values(|s: String| s@).contains(table@),
{
    let ghost views = present@.map_values(|s: String| s@);
    let mut i: usize = 0;
    while i < present.len()
        invariant
            i <= present@.len(),
            views == present@.map_values(|s: String| s@),
            forall|j: int| 0 <= j < i ==> #[trigger] views[j] != table@,
        decreases present.len() - i,
    {
        if crate::text::str_eq(present[i].as_str(), table) {
            assert(views[i as int] == table@);
            return true;
        }
        i += 1;
    }
    false
}

/// Refuse a store whose recorded migrations no longer match the embedded ones:
/// an unknown version, a changed checksum, or a table that is gone.
pub fn check_recorded_migrations(recorded: &Vec<(i64, Option<String>)>, present: &Vec<String>) -> (r: Result<(), StorageError>)
    ensures
        match spec_ledger_problem(spec_ledger_view(recorded@), present@.map_values(|s: String| s@), recorded@.len() as int) {
            Some(p) => r matches Err(StorageError::MigrationDrift { version, actual, expected }) && version == p.0
                && actual@ == p.1 && expected@ == p.2,
            None => r is Ok,
        },
{
    let ghost ledger = spec_ledger_view(recorded@);
    let ghost views = present@.map_values(|s: String| s@);
    let embedded = migrations();
    let mut k: usize = 0;
    while k < recorded.len()
        invariant
            k <= recorded@.len(),
            ledger == spec_ledger_view(recorded@),
            views == present@.map_values(|s: String| s@),
            embedded@.map_values(|m: Migration| spec_migration_view(m)) == spec_migrations(),
            embedded@.len() == 2,
            spec_ledger_problem(ledger, views, k as int) is None,
        decreases recorded.len() - k,
    {
        let (version, checksum) = &recorded[k];
        let version = *version;
        let index: usize = if version == 1 {
            0
        } else if version == 2 {
            1
        } else {
            proof { lemma_ledger_problem_stays(ledger, views, k as int + 1, recorded@.len() as int); }
            return Err(StorageError::MigrationDrift { version, actual: owned(UNKNOWN_MIGRATION), expected: EXPECTED_EMBEDDED });
        };
        let m = &embedded[index];
        assert(embedded@.map_values(|m: Migration| spec_migration_view(m))[index as int] == spec_migration_view(embedded@[index as int]));
        assert(spec_migration_view(*m) == spec_migrations()[index as int]);
        let expected = migration_checksum(m.sql);
        if let Some(actual) = checksum {
            if !crate::text::str_eq(actual.as_str(), expected.as_str()) {
                proof { lemma_ledger_problem_stays(ledger, views, k as int + 1, recorded@.len() as int); }
                return Err(StorageError::MigrationDrift { version, actual: actual.clone(), expected: m.name });
            }
        }
        let mut t: usize = 0;
        while t < m.tables.len()
            invariant
                t <= m.tables@.len(),
                k < recorded@.len(),
                ledger == spec_ledger_view(recorded@),
                ledger[k as int].0 == version,
                index as int == spec_migration_index(version),
                0 <= index < 2,
                expected@ == crate::interop::spec_hex(crate::interop::spec_sha256(spec_migrations()[index as int].2.spec_bytes())),
                !(ledger[k as int].1 matches Some(c) && c != expected@),
                spec_ledger_problem(ledger, views, k as int) is None,
                views == present@.map_values(|s: String| s@),
                spec_first_absent(spec_migrations()[index as int].3, views, 0) == spec_first_absent(spec_migrations()[index as int].3, views, t as int),
                spec_migration_view(*m) == spec_migrations()[index as int],
            decreases m.tables.len() - t,
        {
            let table = m.tables[t];
            assert(spec_migrations()[index as int].3[t as int] == table@);
            if !is_present(present, table) {
                proof { lemma_ledger_problem_stays(ledger, views, k as int + 1, recorded@.len() as int); }
                return Err(StorageError::MigrationDrift { version, actual: join("missing live table ", table), expected: m.name });
            }
            t += 1;
        }
        k += 1;
    }
    Ok(())
}

/// Whether a version is in the ledger.
pub open spec fn spec_recorded(recorded: Seq<(i64, Option<String>)>, version: i64) -> bool {
    exists|i: int| 0 <= i < recorded.len() && #[trigger] recorded[i].0 == version
}

fn is_recorded(recorded: &Vec<(i64, Option<String>)>, version: i64) -> (r: bool)
    ensures
        r == spec_recorded(recorded@, version),
{
    let mut i: usize = 0;
    while i < recorded.len()
        invariant
            i <= recorded@.len(),
            forall|j: int| 0 <= j < i ==> #[trigger] recorded@[j].0 != version,
        decreases recorded.len() - i,
    {
        if recorded[i].0 == version {
            return true;
        }
        i += 1;
    }
    false
}

/// Each embedded migration and whether the ledger records it; with no ledger, none is.
pub fn migration_states(ledger_exists: bool, recorded: &Vec<(i64, Option<String>)>) -> (r: Vec<MigrationState>)
    ensures
        r@.len() == spec_migrations().len(),
        forall|i: int| 0 <= i < r@.len() ==> (#[trigger] r@[i]).version == spec_migrations()[i].0
            && r@[i].name@ == spec_migrations()[i].1
            && r@[i].applied == (ledger_exists && spec_recorded(recorded@, spec_migrations()[i].0)),
{
    let embedded = migrations();
    let mut out: Vec<MigrationState> = Vec::new();
    let mut i: usize = 0;
    while i < embedded.len()
        invariant
            i <= embedded@.len(),
            embedded@.len() == 2,
            embedded@.map_values(|m: Migration| spec_migration_view(m)) == spec_migrations(),
            out@.len() == i,
            forall|j: int| 0 <= j < i ==> (#[trigger] out@[j]).version == spec_migrations()[j].0
                && out@[j].name@ == spec_migrations()[j].1
                && out@[j].applied == (ledger_exists && spec_recorded(recorded@, spec_migrations()[j].0)),
        decreases embedded.len() - i,
    {
        let m = &embedded[i];
        assert(embedded@.map_values(|m: Migration| spec_migration_view(m))[i as int] == spec_migration_view(embedded@[i as int]));
        let applied = ledger_exists && is_recorded(recorded, m.version);
        out.push(MigrationState { version: m.version, name: owned(m.name), applied });
        i += 1;
    }
    out
}

/// The first `k` embedded migrations the ledger does not record.
pub open spec fn spec_pending(recorded: Seq<(i64, Option<String>)>, k: int) -> Seq<(i64, Seq<char>, &'static str, Seq<Seq<char>>)>
    decreases k,
{
    if k <= 0 {
        Seq::empty()
    } else if spec_recorded(recorded, spec_migrations()[k - 1].0) {
        spec_pending(recorded, k - 1)
    } else {
        spec_pending(recorded, k - 1).push(spec_migrations()[k - 1])
    }
}

/// The embedded migrations the ledger does not record, in version order.
pub fn pending_migrations(recorded: &Vec<(i64, Option<String>)>) -> (r: Vec<Migration>)
    ensures
        r@.map_values(|m: Migration| spec_migration_view(m)) == spec_pending(recorded@, spec_migrations().len() as int),
{
    let embedded = migrations();
    let mut out: Vec<Migration> = Vec::new();
    let mut i: usize = 0;
    while i < embedded.len()
        invariant
            i <= embedded@.len(),
            embedded@.len() == 2,
            embedded@.map_values(|m: Migration| spec_migration_view(m)) == spec_migrations(),
            out@.map_values(|m: Migration| spec_migration_view(m)) == spec_pending(recorded@, i as int),
        decreases embedded.len() - i,
    {
        let m = &embedded[i];
        assert(embedded@.map_values(|m: Migration| spec_migration_view(m))[i as int] == spec_migration_view(embedded@[i as int]));
        if !is_recorded(recorded, m.version) {
            let ghost before = out@;
            out.push(m.clone_migration());
            assert(out@.map_values(|m: Migration| spec_migration_view(m)) =~= before.map_values(|m: Migration| spec_migration_view(m)).push(spec_migration_view(*m)));
        }
        i += 1;
    }
    out
}

/// What is pending is exactly the embedded migrations the ledger lacks.
proof fn lemma_pending_members(recorded: Seq<(i64, Option<String>)>, k: int)
    requires
        0 <= k <= spec_migrations().len(),
    ensures
        forall|j: int| 0 <= j < k ==> (spec_pending(recorded, k).contains(#[trigger] spec_migrations()[j])
            <==> !spec_recorded(recorded, spec_migrations()[j].0)),
        forall|i: int| 0 <= i < spec_pending(recorded, k).len() ==> exists|j: int| 0 <= j < k
            && #[trigger] spec_pending(recorded, k)[i] == spec_migrations()[j],
    decreases k,
{
    if k > 0 {
        lemma_pending_members(recorded, k - 1);
        let prev = spec_pending(recorded, k - 1);
        let cur = spec_pending(recorded, k);
        assert forall|j: int| 0 <= j < k implies (cur.contains(#[trigger] spec_migrations()[j])
            <==> !spec_recorded(recorded, spec_migrations()[j].0)) by {
            if j < k - 1 {
                if cur.contains(spec_migrations()[j]) && !prev.contains(spec_migrations()[j]) {
                    let i = choose|i: int| 0 <= i < cur.len() && cur[i] == spec_migrations()[j];
                    assert(i == prev.len());
                }
                if prev.contains(spec_migrations()[j]) && !spec_recorded(recorded, spec_migrations()[k - 1].0) {
                    let i = choose|i: int| 0 <= i < prev.len() && prev[i] == spec_migrations()[j];
                    assert(cur[i] == spec_migrations()[j]);
                }
            } else {
                if cur.contains(spec_migrations()[j]) && spec_recorded(recorded, spec_migrations()[j].0) {
                    let i = choose|i: int| 0 <= i < cur.len() && cur[i] == spec_migrations()[j];
                    let m = choose|m: int| 0 <= m < k - 1 && prev[i] == spec_migrations()[m];
                    lemma_migration_versions_increase();
                }
                if !spec_recorded(recorded, spec_migrations()[j].0) {
                    assert(cur[prev.len() as int] == spec_migrations()[j]);
                }
            }
        }
        assert forall|i: int| 0 <= i < cur.len() implies exists|j: int| 0 <= j < k && #[trigger] cur[i] == spec_migrations()[j] by {
            if i < prev.len() {
                assert(cur[i] == prev[i]);
            } else {
                assert(cur[i] == spec_migrations()[k - 1]);
            }
        }
    }
}

/// Migrating again changes nothing: once the ledger keeps what it recorded
/// and records each migration that was pending, no migration is pending.
pub proof fn lemma_migrating_again_changes_nothing(before: Seq<(i64, Option<String>)>, after: Seq<(i64, Option<String>)>)
    requires
        forall|v: i64| spec_recorded(before, v) ==> #[trigger] spec_recorded(after, v),
        forall|i: int| 0 <= i < spec_pending(before, spec_migrations().len() as int).len() ==> spec_recorded(
            after,
            (#[trigger] spec_pending(before, spec_migrations().len() as int)[i]).0,
        ),
    ensures
        spec_pending(after, spec_migrations().len() as int).len() == 0,
{
    let n = spec_migrations().len() as int;
    lemma_pending_members(before, n);
    lemma_pending_members(after, n);
    let pending_after = spec_pending(after, n);
    if pending_after.len() > 0 {
        let j = choose|j: int| 0 <= j < n && #[trigger] pending_after[0] == spec_migrations()[j];
        assert(pending_after.contains(spec_migrations()[j]));
        let v = spec_migrations()[j].0;
        assert(!spec_recorded(after, v));
        assert(!spec_recorded(before, v));
        let pending_before = spec_pending(before, n);
        assert(pending_before.contains(spec_migrations()[j]));
        let i = choose|i: int| 0 <= i < pending_before.len() && pending_before[i] == spec_migrations()[j];
        assert(spec_recorded(after, pending_before[i].0));
    }
}

impl Migration {
    fn clone_migration(&self) -> (r: Migration)
        ensures
            spec_migration_view(r) == spec_migration_view(*self),
    {
        let mut tables: Vec<&'static str> = Vec::new();
        let mut i: usize = 0;
        while i < self.tables.len()
            invariant
                i <= self.tables@.len(),
                tables@ == self.tables@.subrange(0, i as int),
            decreases self.tables.len() - i,
        {
            tables.push(self.tables[i]);
            assert(self.tables@.subrange(0, i + 1) =~= self.tables@.subrange(0, i as int).push(self.tables@[i as int]));
            i += 1;
        }
        assert(self.tables@.subrange(0, self.tables@.len() as int) =~= self.tables@);
        Migration { version: self.version, name: self.name, sql: self.sql, tables }
    }
}


// ── Lifecycle writes ──

/// What a write to one event's lifecycle meets: the stored version and whether
/// the row is cancelled, or no row. A write wants a live row, or (a restore)
/// a cancelled one; the lifecycle is answered before the version, so a caller
/// holding a stale version is told what is actually wrong.
pub open spec fn spec_lifecycle_refusal(
    event_id: EventId,
    expected_version: i64,
    current: Option<(i64, bool)>,
    wants_cancelled: bool,
) -> Option<StorageError> {
    match current {
        None => Some(StorageError::EventNotFound { event_id }),
        Some((actual_version, cancelled)) => if cancelled != wants_cancelled {
            Some(StorageError::EventNotFound { event_id })
        } else if actual_version != expected_version {
            Some(StorageError::EventVersionConflict { event_id, expected_version, actual_version })
        } else {
            None
        },
    }
}

pub fn check_lifecycle_write(
    event_id: EventId,
    expected_version: i64,
    current: Option<(i64, bool)>,
    wants_cancelled: bool,
) -> (r: Result<(), StorageError>)
    ensures
        match spec_lifecycle_refusal(event_id, expected_version, current, wants_cancelled) {
            Some(e) => r == Err::<(), StorageError>(e),
            None => r is Ok,
        },
{
    match current {
        None => Err(StorageError::EventNotFound { event_id }),
        Some((actual_version, cancelled)) => {
            if cancelled != wants_cancelled {
                Err(StorageError::EventNotFound { event_id })
            } else if actual_version != expected_version {
                Err(StorageError::EventVersionConflict { event_id, expected_version, actual_version })
            } else {
                Ok(())
            }
        },
    }
}

/// A write that passes the check is one at the version the caller saw, on a
/// row in the state the write wants.
pub proof fn lemma_lifecycle_write_is_current(
    event_id: EventId,
    expected_version: i64,
    current: Option<(i64, bool)>,
    wants_cancelled: bool,
)
    ensures
        spec_lifecycle_refusal(event_id, expected_version, current, wants_cancelled) is None
            <==> current == Some((expected_version, wants_cancelled)),
{
}

// ── The store ──

/// The one SQLite file the application keeps its calendars and events in.
#[derive(Debug, Clone)]
pub struct Store {
    path: String,
}

impl Store {
    pub closed spec fn spec_path(&self) -> Seq<char> {
        self.path@
    }

    /// A store at a path; an empty path is refused. Creating the directory and
    /// opening a connection are the caller's.
    pub fn new(path: String) -> (r: Result<Store, StorageError>)
        ensures
            path@.len() == 0 <==> r is Err,
            r matches Err(e) ==> (e matches StorageError::InvalidConfiguration(m) && m@ == "the database path is empty"@),
            r matches Ok(s) ==> s.spec_path() == path@,
    {
        if path.as_str().is_empty() {
            return Err(StorageError::InvalidConfiguration(owned("the database path is empty")));
        }
        Ok(Store { path })
    }

    pub fn path(&self) -> (r: &str)
        ensures
            r@ == self.spec_path(),
    {
        self.path.as_str()
    }

    /// Each embedded migration and whether it is applied, from what the file
    /// holds: whether its ledger exists, the ledger's rows, and the tables
    /// present. A ledger that disagrees with the embedded migrations is refused.
    pub fn migration_status(
        &self,
        ledger_exists: bool,
        recorded: &Vec<(i64, Option<String>)>,
        present_tables: &Vec<String>,
    ) -> (r: Result<Vec<MigrationState>, StorageError>)
        ensures
            ledger_exists ==> match spec_ledger_problem(
                spec_ledger_view(recorded@),
                present_tables@.map_values(|s: String| s@),
                recorded@.len() as int,
            ) {
                Some(p) => r matches Err(StorageError::MigrationDrift { version, actual, expected }) && version == p.0
                    && actual@ == p.1 && expected@ == p.2,
                None => r is Ok,
            },
            !ledger_exists ==> r is Ok,
            r matches Ok(v) ==> v@.len() == spec_migrations().len() && forall|i: int| 0 <= i < v@.len() ==> (
            #[trigger] v@[i]).version == spec_migrations()[i].0 && v@[i].name@ == spec_migrations()[i].1
                && v@[i].applied == (ledger_exists && spec_recorded(recorded@, spec_migrations()[i].0)),
    {
        if ledger_exists {
            check_recorded_migrations(recorded, present_tables)?;
        }
        Ok(migration_states(ledger_exists, recorded))
    }
}

/// Where the store file lives: the path named by the `DB_PATH_ENV` variable,
/// whose value the caller reads, else the default file in the data directory.
pub fn default_path(configured: Option<String>, data_dir: &str) -> (r: String)
    ensures
        match configured {
            Some(p) => r@ == p@,
            None => r@ == spec_join_path(data_dir@, DEFAULT_DB_FILE@),
        },
{
    match configured {
        Some(p) => p,
        None => join_path(data_dir, DEFAULT_DB_FILE),
    }
}

/// Where the combined agenda reads from: the store's file and the imported
/// todo projection.
#[derive(Debug, Clone)]
pub struct ProjectionAgendaRepository {
    events: String,
    todo_projection: String,
}

impl ProjectionAgendaRepository {
    pub closed spec fn spec_events(&self) -> Seq<char> {
        self.events@
    }

    pub closed spec fn spec_todo_projection(&self) -> Seq<char> {
        self.todo_projection@
    }

    pub fn new(events: String, todo_projection: String) -> (r: ProjectionAgendaRepository)
        ensures
            r.spec_events() == events@,
            r.spec_todo_projection() == todo_projection@,
    {
        ProjectionAgendaRepository { events, todo_projection }
    }

    /// The store's path.
    pub fn events_path(&self) -> (r: &str)
        ensures
            r@ == self.spec_events(),
    {
        self.events.as_str()
    }

    /// The projection file's path.
    pub fn todo_projection_path(&self) -> (r: &str)
        ensures
            r@ == self.spec_todo_projection(),
    {
        self.todo_projection.as_str()
    }
}

} // verus!
