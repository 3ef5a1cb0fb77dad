//! Calendars, events, their times and their repeat rules.
use vstd::prelude::*;

use crate::ids::{CalendarId, EventId, lemma_uuid_text_chars, spec_is_v7, spec_millis_of, spec_uuid_text, spec_v7_millis};
use crate::text::{
    ascii_lower_chars, chars_eq, chars_of, has_control, has_whitespace, is_blank, is_control,
    spec_ascii_lower_seq, spec_blank, spec_has_control, spec_has_whitespace, spec_is_control, spec_is_whitespace,
    spec_trim, starts_with, string_of, trim, push_str_chars, decimal, spec_decimal,
};
use crate::time::{
    CivilDate, MAX_INSTANT_SECONDS, NANOS_PER_SECOND, OffsetDateTime, Timestamp, Weekday,
    spec_tz_known, spec_tz_offset_at, tz_known, tz_offset_at,
};

verus! {

/// Why a calendar value was refused.
#[derive(Debug, Clone, PartialEq, Eq)]
pub enum DomainError {
    InvalidIdentifier { kind: &'static str, value: String, reason: String },
    EmptyField { field: &'static str },
    ControlCharacter { field: &'static str },
    MissingTimezone,
    InvalidTimezone { timezone: String },
    OffsetTimezoneMismatch { boundary: &'static str, timezone: String },
    EndNotAfterStart,
    InvalidAllDayRange,
    InvalidRfcUid,
    InvalidEventVersion,
    InvalidRecurrenceInterval,
    InvalidRecurrenceCount { max: u32 },
    UnboundedRecurrence,
    RecurrenceUntilNotAfterStart,
    WeekdaySetWithoutWeekly,
    InvalidWeekdaySet,
    InvalidRecurrenceRange,
    UnrepresentableOccurrence { timezone: String },
    UnknownFrequency { value: String },
    TooLong { field: &'static str, max: usize },
    InvalidUrl,
    ClockUnavailable,
}

/// A refusal with its texts taken by their characters.
pub enum DomainErrorView {
    InvalidIdentifier { kind: &'static str, value: Seq<char>, reason: Seq<char> },
    EmptyField { field: &'static str },
    ControlCharacter { field: &'static str },
    MissingTimezone,
    InvalidTimezone { timezone: Seq<char> },
    OffsetTimezoneMismatch { boundary: &'static str, timezone: Seq<char> },
    EndNotAfterStart,
    InvalidAllDayRange,
    InvalidRfcUid,
    InvalidEventVersion,
    InvalidRecurrenceInterval,
    InvalidRecurrenceCount { max: u32 },
    UnboundedRecurrence,
    RecurrenceUntilNotAfterStart,
    WeekdaySetWithoutWeekly,
    InvalidWeekdaySet,
    InvalidRecurrenceRange,
    UnrepresentableOccurrence { timezone: Seq<char> },
    UnknownFrequency { value: Seq<char> },
    TooLong { field: &'static str, max: usize },
    InvalidUrl,
    ClockUnavailable,
}

impl View for DomainError {
    type V = DomainErrorView;

    open spec fn view(&self) -> DomainErrorView {
        match *self {
            DomainError::InvalidIdentifier { kind, value, reason } => DomainErrorView::InvalidIdentifier {
                kind,
                value: value@,
                reason: reason@,
            },
            DomainError::EmptyField { field } => DomainErrorView::EmptyField { field },
            DomainError::ControlCharacter { field } => DomainErrorView::ControlCharacter { field },
            DomainError::MissingTimezone => DomainErrorView::MissingTimezone,
            DomainError::InvalidTimezone { timezone } => DomainErrorView::InvalidTimezone { timezone: timezone@ },
            DomainError::OffsetTimezoneMismatch { boundary, timezone } => DomainErrorView::OffsetTimezoneMismatch {
                boundary,
                timezone: timezone@,
            },
            DomainError::EndNotAfterStart => DomainErrorView::EndNotAfterStart,
            DomainError::InvalidAllDayRange => DomainErrorView::InvalidAllDayRange,
            DomainError::InvalidRfcUid => DomainErrorView::InvalidRfcUid,
            DomainError::InvalidEventVersion => DomainErrorView::InvalidEventVersion,
            DomainError::InvalidRecurrenceInterval => DomainErrorView::InvalidRecurrenceInterval,
            DomainError::InvalidRecurrenceCount { max } => DomainErrorView::InvalidRecurrenceCount { max },
            DomainError::UnboundedRecurrence => DomainErrorView::UnboundedRecurrence,
            DomainError::RecurrenceUntilNotAfterStart => DomainErrorView::RecurrenceUntilNotAfterStart,
            DomainError::WeekdaySetWithoutWeekly => DomainErrorView::WeekdaySetWithoutWeekly,
            DomainError::InvalidWeekdaySet => DomainErrorView::InvalidWeekdaySet,
            DomainError::InvalidRecurrenceRange => DomainErrorView::InvalidRecurrenceRange,
            DomainError::UnrepresentableOccurrence { timezone } => DomainErrorView::UnrepresentableOccurrence {
                timezone: timezone@,
            },
            DomainError::UnknownFrequency { value } => DomainErrorView::UnknownFrequency { value: value@ },
            DomainError::TooLong { field, max } => DomainErrorView::TooLong { field, max },
            DomainError::InvalidUrl => DomainErrorView::InvalidUrl,
            DomainError::ClockUnavailable => DomainErrorView::ClockUnavailable,
        }
    }
}

/// The UID an event is given is fixed by its identity and is one
/// `RfcUid::new` accepts: it is not blank and holds no whitespace.
pub proof fn lemma_event_uid_is_accepted(id: EventId)
    ensures
        !spec_blank(spec_uuid_text(id.value) + RFC_UID_SUFFIX@),
        !spec_has_whitespace(spec_uuid_text(id.value) + RFC_UID_SUFFIX@),
{
    reveal_strlit("@mg-calr.local");
    lemma_uuid_text_chars(id.value);
    let text = spec_uuid_text(id.value);
    let uid = text + RFC_UID_SUFFIX@;
    assert(RFC_UID_SUFFIX@.len() == 14);
    assert forall|i: int| 0 <= i < uid.len() implies !spec_is_whitespace(#[trigger] uid[i]) by {
        if i < 36 {
            assert(uid[i] == text[i]);
        } else {
            assert(uid[i] == RFC_UID_SUFFIX@[i - 36]);
        }
    }
    assert(!spec_is_whitespace(uid[0]));
}

/// A stable RFC 5545 UID: non-blank and without whitespace.
#[derive(Debug, Clone, PartialEq, Eq, Hash)]
pub struct RfcUid(pub String);

pub const RFC_UID_SUFFIX: &'static str = "@mg-calr.local";

impl RfcUid {
    pub open spec fn view(self) -> Seq<char> {
        self.0@
    }

    /// The UID an event with this identity is given once, at creation; it is
    /// one `RfcUid::new` accepts.
    pub fn for_event(id: EventId) -> (r: RfcUid)
        ensures
            r.0@ == spec_uuid_text(id.value) + RFC_UID_SUFFIX@,
            !spec_blank(r.0@) && !spec_has_whitespace(r.0@),
    {
        proof {
            lemma_event_uid_is_accepted(id);
        }
        let text = id.to_text();
        let mut chars = chars_of(text.as_str());
        let suffix = chars_of(RFC_UID_SUFFIX);
        let ghost head = chars@;
        let mut i: usize = 0;
        while i < suffix.len()
            invariant
                i <= suffix.len(),
                chars@ == head + suffix@.subrange(0, i as int),
            decreases suffix.len() - i,
        {
            chars.push(suffix[i]);
            assert(suffix@.subrange(0, i + 1) =~= suffix@.subrange(0, i as int).push(suffix@[i as int]));
            i += 1;
        }
        assert(suffix@.subrange(0, suffix@.len() as int) =~= suffix@);
        RfcUid(string_of(chars.as_slice()))
    }

    /// A UID taken from elsewhere, refused when blank or holding whitespace.
    pub fn new(value: String) -> (r: Result<RfcUid, DomainError>)
        ensures
            r is Ok <==> !spec_blank(value@) && !spec_has_whitespace(value@),
            r matches Ok(u) ==> u.0@ == value@,
            r matches Err(e) ==> e == DomainError::InvalidRfcUid,
    {
        if is_blank(value.as_str()) || has_whitespace(value.as_str()) {
            return Err(DomainError::InvalidRfcUid);
        }
        Ok(RfcUid(value))
    }

    pub fn as_str(&self) -> (r: &str)
        ensures
            r@ == self.0@,
    {
        self.0.as_str()
    }
}

/// A calendar and its lifecycle.
#[derive(Debug, Clone, PartialEq, Eq)]
pub struct Calendar {
    pub id: CalendarId,
    pub name: String,
    pub color: Option<String>,
    pub is_default: bool,
    pub created_at: Timestamp,
    pub updated_at: Timestamp,
    pub deleted_at: Option<Timestamp>,
}

/// The single-line text check: not blank and no control character.
pub open spec fn spec_text_error(field: &'static str, value: Seq<char>) -> Option<DomainError> {
    if spec_blank(value) {
        Some(DomainError::EmptyField { field })
    } else if spec_has_control(value) {
        Some(DomainError::ControlCharacter { field })
    } else {
        None
    }
}

pub fn validate_text(field: &'static str, value: String) -> (r: Result<String, DomainError>)
    ensures
        match spec_text_error(field, value@) {
            Some(e) => r == Err::<String, DomainError>(e),
            None => r matches Ok(v) && v@ == value@,
        },
{
    if is_blank(value.as_str()) {
        return Err(DomainError::EmptyField { field });
    }
    if has_control(value.as_str()) {
        return Err(DomainError::ControlCharacter { field });
    }
    Ok(value)
}

impl Calendar {
    /// A live calendar created now.
    pub fn new(name: String) -> (r: Result<Calendar, DomainError>)
        ensures
            match spec_text_error("calendar name", name@) {
                Some(e) => r == Err::<Calendar, DomainError>(e),
                None => r == Err::<Calendar, DomainError>(DomainError::ClockUnavailable) || (r matches Ok(c)
                    && c.name@ == name@ && c.color is None && !c.is_default && c.deleted_at is None
                    && c.created_at == c.updated_at && c.created_at.wf()
                    && spec_v7_millis(c.id.value) == spec_millis_of(c.created_at) && spec_is_v7(c.id.value)),
            },
    {
        let name = validate_text("calendar name", name)?;
        let now = match Timestamp::now() {
            Some(t) => t,
            None => return Err(DomainError::ClockUnavailable),
        };
        Ok(Calendar {
            id: CalendarId::at(now),
            name,
            color: None,
            is_default: false,
            created_at: now,
            updated_at: now,
            deleted_at: None,
        })
    }

    /// A stored calendar, its name checked again.
    pub fn rehydrate(
        id: CalendarId,
        name: String,
        color: Option<String>,
        is_default: bool,
        created_at: Timestamp,
        updated_at: Timestamp,
        deleted_at: Option<Timestamp>,
    ) -> (r: Result<Calendar, DomainError>)
        ensures
            match spec_text_error("calendar name", name@) {
                Some(e) => r == Err::<Calendar, DomainError>(e),
                None => r matches Ok(c) && c.id == id && c.name@ == name@ && c.color == color
                    && c.is_default == is_default && c.created_at == created_at && c.updated_at
                    == updated_at && c.deleted_at == deleted_at,
            },
    {
        Ok(Calendar {
            id,
            name: validate_text("calendar name", name)?,
            color,
            is_default,
            created_at,
            updated_at,
            deleted_at,
        })
    }
}

/// When an event happens: a zoned span, or whole days with an exclusive end.
#[derive(Debug, Clone, PartialEq, Eq)]
pub enum EventTime {
    Timed { start: OffsetDateTime, end: OffsetDateTime, timezone: String },
    AllDay { start: CivilDate, end_exclusive: CivilDate },
}

/// A time with its zone's name taken by its characters.
pub enum EventTimeView {
    Timed { start: OffsetDateTime, end: OffsetDateTime, timezone: Seq<char> },
    AllDay { start: CivilDate, end_exclusive: CivilDate },
}

impl View for EventTime {
    type V = EventTimeView;

    open spec fn view(&self) -> EventTimeView {
        match *self {
            EventTime::Timed { start, end, timezone } => EventTimeView::Timed { start, end, timezone: timezone@ },
            EventTime::AllDay { start, end_exclusive } => EventTimeView::AllDay { start, end_exclusive },
        }
    }
}

/// A written offset agrees with the zone's own offset at that instant.
pub open spec fn spec_offset_matches(zone: Seq<char>, t: OffsetDateTime) -> bool {
    spec_tz_offset_at(zone, t.seconds as int) == t.offset
}

/// Why a timed span is refused, if it is.
pub open spec fn spec_timed_error(
    start: OffsetDateTime,
    end: OffsetDateTime,
    timezone: String,
) -> Option<DomainError> {
    if !start.spec_lt(end) {
        Some(DomainError::EndNotAfterStart)
    } else if spec_blank(timezone@) {
        Some(DomainError::MissingTimezone)
    } else if !spec_tz_known(timezone@) {
        Some(DomainError::InvalidTimezone { timezone })
    } else if !spec_offset_matches(timezone@, start) {
        Some(DomainError::OffsetTimezoneMismatch { boundary: "start", timezone })
    } else if !spec_offset_matches(timezone@, end) {
        Some(DomainError::OffsetTimezoneMismatch { boundary: "end", timezone })
    } else {
        None
    }
}

impl EventTime {
    /// A time this library accepts: a span the constructors build.
    pub open spec fn spec_valid(self) -> bool {
        match self {
            EventTime::Timed { start, end, timezone } => start.wf() && end.wf()
                && spec_timed_error(start, end, timezone) is None,
            EventTime::AllDay { start, end_exclusive } => start.days < end_exclusive.days,
        }
    }

    /// A zoned span: it must end after it starts, name a known IANA zone, and
    /// write each boundary in that zone's offset at that instant.
    pub fn timed(start: OffsetDateTime, end: OffsetDateTime, timezone: String) -> (r: Result<EventTime, DomainError>)
        requires
            start.wf(),
            end.wf(),
        ensures
            match spec_timed_error(start, end, timezone) {
                Some(e) => r == Err::<EventTime, DomainError>(e),
                None => r == Ok::<EventTime, DomainError>(EventTime::Timed { start, end, timezone }),
            },
    {
        if !start.is_before(&end) {
            return Err(DomainError::EndNotAfterStart);
        }
        if is_blank(timezone.as_str()) {
            return Err(DomainError::MissingTimezone);
        }
        if !tz_known(timezone.as_str()) {
            return Err(DomainError::InvalidTimezone { timezone });
        }
        let start_offset = tz_offset_at(timezone.as_str(), start.seconds);
        if start_offset != Some(start.offset) {
            return Err(DomainError::OffsetTimezoneMismatch { boundary: "start", timezone });
        }
        let end_offset = tz_offset_at(timezone.as_str(), end.seconds);
        if end_offset != Some(end.offset) {
            return Err(DomainError::OffsetTimezoneMismatch { boundary: "end", timezone });
        }
        Ok(EventTime::Timed { start, end, timezone })
    }

    /// Whole days from `start` up to, not including, `end_exclusive`.
    pub fn all_day(start: CivilDate, end_exclusive: CivilDate) -> (r: Result<EventTime, DomainError>)
        ensures
            start.days < end_exclusive.days ==> r == Ok::<EventTime, DomainError>(EventTime::AllDay { start, end_exclusive }),
            start.days >= end_exclusive.days ==> r == Err::<EventTime, DomainError>(DomainError::InvalidAllDayRange),
    {
        if end_exclusive.days <= start.days {
            return Err(DomainError::InvalidAllDayRange);
        }
        Ok(EventTime::AllDay { start, end_exclusive })
    }

    /// Check a time that may not have come through a constructor.
    pub fn revalidate(&self) -> (r: Result<(), DomainError>)
        ensures
            r is Ok <==> (match *self {
                EventTime::Timed { start, end, timezone } => start.wf() && end.wf() ==> spec_timed_error(start, end, timezone) is None,
                EventTime::AllDay { start, end_exclusive } => start.days < end_exclusive.days,
            }),
            match *self {
                EventTime::Timed { start, end, timezone } => start.wf() && end.wf() ==> match spec_timed_error(start, end, timezone) {
                    Some(e) => r == Err::<(), DomainError>(e),
                    None => true,
                },
                EventTime::AllDay { start, end_exclusive } => start.days >= end_exclusive.days ==> r == Err::<(), DomainError>(DomainError::InvalidAllDayRange),
            },
    {
        match self {
            EventTime::Timed { start, end, timezone } => {
                if !(start.is_well_formed() && end.is_well_formed()) {
                    return Ok(());
                }
                match EventTime::timed(*start, *end, timezone.clone()) {
                    Ok(_) => Ok(()),
                    Err(e) => Err(e),
                }
            },
            EventTime::AllDay { start, end_exclusive } => match EventTime::all_day(*start, *end_exclusive) {
                Ok(_) => Ok(()),
                Err(e) => Err(e),
            },
        }
    }

    /// The civil date the event's own time starts on.
    pub fn start_date(&self) -> (r: CivilDate)
        requires
            self.spec_valid(),
        ensures
            r == self.spec_start_date(),
    {
        match self {
            EventTime::Timed { start, .. } => start.local_date(),
            EventTime::AllDay { start, .. } => *start,
        }
    }

    /// A copy of this time.
    pub fn copy(&self) -> (r: EventTime)
        ensures
            r == *self,
    {
        match self {
            EventTime::Timed { start, end, timezone } => EventTime::Timed { start: *start, end: *end, timezone: timezone.clone() },
            EventTime::AllDay { start, end_exclusive } => EventTime::AllDay { start: *start, end_exclusive: *end_exclusive },
        }
    }

    pub open spec fn spec_start_date(self) -> CivilDate {
        match self {
            EventTime::Timed { start, .. } => CivilDate { days: start.spec_local_days() as i32 },
            EventTime::AllDay { start, .. } => start,
        }
    }
}

impl OffsetDateTime {
    pub fn is_well_formed(&self) -> (r: bool)
        ensures
            r == self.wf(),
    {
        -MAX_INSTANT_SECONDS <= self.seconds && self.seconds <= MAX_INSTANT_SECONDS && self.nanos
            < NANOS_PER_SECOND && -86400 < self.offset && self.offset < 86400
    }
}

/// How often an event repeats.
#[derive(Debug, Clone, Copy, PartialEq, Eq, Hash, Structural)]
pub enum EventFrequency {
    Daily,
    Weekly,
    Monthly,
}

/// The frequency a word names, as `daily`/`day`, `weekly`/`week`, `monthly`/`month`
/// in any ASCII case.
pub open spec fn spec_frequency_word(word: Seq<char>) -> Option<EventFrequency> {
    if word == "daily"@ || word == "day"@ {
        Some(EventFrequency::Daily)
    } else if word == "weekly"@ || word == "week"@ {
        Some(EventFrequency::Weekly)
    } else if word == "monthly"@ || word == "month"@ {
        Some(EventFrequency::Monthly)
    } else {
        None
    }
}

impl EventFrequency {
    /// Read a repeat frequency, ignoring surrounding whitespace and ASCII case.
    pub fn parse(value: &str) -> (r: Result<EventFrequency, DomainError>)
        ensures
            match spec_frequency_word(spec_ascii_lower_seq(spec_trim(value@))) {
                Some(f) => r == Ok::<EventFrequency, DomainError>(f),
                None => r matches Err(DomainError::UnknownFrequency { value: v }) && v@ == value@,
            },
    {
        let trimmed = trim(value);
        let lowered = ascii_lower_chars(trimmed.as_slice());
        let w = lowered.as_slice();
        let daily = chars_of("daily");
        let day = chars_of("day");
        let weekly = chars_of("weekly");
        let week = chars_of("week");
        let monthly = chars_of("monthly");
        let month = chars_of("month");
        if chars_eq(w, daily.as_slice()) || chars_eq(w, day.as_slice()) {
            Ok(EventFrequency::Daily)
        } else if chars_eq(w, weekly.as_slice()) || chars_eq(w, week.as_slice()) {
            Ok(EventFrequency::Weekly)
        } else if chars_eq(w, monthly.as_slice()) || chars_eq(w, month.as_slice()) {
            Ok(EventFrequency::Monthly)
        } else {
            Err(DomainError::UnknownFrequency { value: string_of(chars_of(value).as_slice()) })
        }
    }

    pub fn same(self, other: EventFrequency) -> (r: bool)
        ensures
            r == (self == other),
    {
        match (self, other) {
            (EventFrequency::Daily, EventFrequency::Daily) => true,
            (EventFrequency::Weekly, EventFrequency::Weekly) => true,
            (EventFrequency::Monthly, EventFrequency::Monthly) => true,
            _ => false,
        }
    }
}

pub const MAX_RECURRENCE_INTERVAL: u32 = 366;
pub const MAX_RECURRENCE_COUNT: u32 = 1000;
/// Occurrences examined before a rule is treated as runaway, independent of
/// the window asked for, so a far-future query cannot walk forever.
pub const MAX_RECURRENCE_STEPS: u32 = 4000;

/// A bounded repeat rule.
#[derive(Debug, Clone, PartialEq, Eq)]
pub struct EventRecurrence {
    pub frequency: EventFrequency,
    pub interval: u32,
    pub count: Option<u32>,
    pub until: Option<CivilDate>,
    /// Weekdays a weekly rule lands on; empty means the day the event starts on.
    pub by_weekday: Vec<Weekday>,
}

/// A repeat rule with its weekdays taken as a sequence.
pub struct EventRecurrenceView {
    pub frequency: EventFrequency,
    pub interval: u32,
    pub count: Option<u32>,
    pub until: Option<CivilDate>,
    pub by_weekday: Seq<Weekday>,
}

impl View for EventRecurrence {
    type V = EventRecurrenceView;

    open spec fn view(&self) -> EventRecurrenceView {
        EventRecurrenceView {
            frequency: self.frequency,
            interval: self.interval,
            count: self.count,
            until: self.until,
            by_weekday: self.by_weekday@,
        }
    }
}

/// Two positions of a sequence hold the same value.
pub open spec fn spec_has_repeat<T>(s: Seq<T>) -> bool {
    exists|i: int, j: int| 0 <= i < j < s.len() && s[i] == s[j]
}

/// Why a repeat rule is refused, if it is.
pub open spec fn spec_rule_error(
    frequency: EventFrequency,
    interval: u32,
    count: Option<u32>,
    until: Option<CivilDate>,
    by_weekday: Seq<Weekday>,
) -> Option<DomainError> {
    if !(1 <= interval <= MAX_RECURRENCE_INTERVAL) {
        Some(DomainError::InvalidRecurrenceInterval)
    } else if count matches Some(c) && !(1 <= c <= MAX_RECURRENCE_COUNT) {
        Some(DomainError::InvalidRecurrenceCount { max: MAX_RECURRENCE_COUNT })
    } else if count is None && until is None {
        Some(DomainError::UnboundedRecurrence)
    } else if by_weekday.len() > 0 && frequency != EventFrequency::Weekly {
        Some(DomainError::WeekdaySetWithoutWeekly)
    } else if by_weekday.len() > 0 && spec_has_repeat(by_weekday) {
        Some(DomainError::InvalidWeekdaySet)
    } else {
        None
    }
}

impl EventRecurrence {
    pub open spec fn spec_error(self) -> Option<DomainError> {
        spec_rule_error(self.frequency, self.interval, self.count, self.until, self.by_weekday@)
    }

    /// A validated rule.
    pub fn new(
        frequency: EventFrequency,
        interval: u32,
        count: Option<u32>,
        until: Option<CivilDate>,
        by_weekday: Vec<Weekday>,
    ) -> (r: Result<EventRecurrence, DomainError>)
        ensures
            match spec_rule_error(frequency, interval, count, until, by_weekday@) {
                Some(e) => r == Err::<EventRecurrence, DomainError>(e),
                None => r matches Ok(rule) && rule.frequency == frequency && rule.interval == interval
                    && rule.count == count && rule.until == until && rule.by_weekday@ == by_weekday@,
            },
    {
        let rule = EventRecurrence { frequency, interval, count, until, by_weekday };
        rule.validate()?;
        Ok(rule)
    }

    /// Refuse an interval or count outside its bound, a rule with neither a
    /// count nor an until date, and a weekday set that repeats a day or is
    /// attached to a frequency other than weekly.
    pub fn validate(&self) -> (r: Result<(), DomainError>)
        ensures
            match self.spec_error() {
                Some(e) => r == Err::<(), DomainError>(e),
                None => r == Ok::<(), DomainError>(()),
            },
    {
        if !(1 <= self.interval && self.interval <= MAX_RECURRENCE_INTERVAL) {
            return Err(DomainError::InvalidRecurrenceInterval);
        }
        if let Some(count) = self.count {
            if !(1 <= count && count <= MAX_RECURRENCE_COUNT) {
                return Err(DomainError::InvalidRecurrenceCount { max: MAX_RECURRENCE_COUNT });
            }
        }
        if self.count.is_none() && self.until.is_none() {
            return Err(DomainError::UnboundedRecurrence);
        }
        if self.by_weekday.len() > 0 {
            if !self.frequency.same(EventFrequency::Weekly) {
                return Err(DomainError::WeekdaySetWithoutWeekly);
            }
            if has_repeated_weekday(&self.by_weekday) {
                return Err(DomainError::InvalidWeekdaySet);
            }
        }
        Ok(())
    }
}

/// Whether any weekday appears twice.
fn has_repeated_weekday(days: &Vec<Weekday>) -> (r: bool)
    ensures
        r == spec_has_repeat(days@),
{
    let mut i: usize = 0;
    while i < days.len()
        invariant
            i <= days.len(),
            forall|a: int, b: int| 0 <= a < b < days@.len() && a < i ==> days@[a] != days@[b],
        decreases days.len() - i,
    {
        let mut j: usize = i + 1;
        while j < days.len()
            invariant
                i < days.len(),
                i + 1 <= j <= days.len(),
                forall|a: int, b: int| 0 <= a < b < days@.len() && a < i ==> days@[a] != days@[b],
                forall|b: int| i < b < j ==> days@[i as int] != days@[b],
            decreases days.len() - j,
        {
            if days[i].same(days[j]) {
                return true;
            }
            j += 1;
        }
        i += 1;
    }
    false
}

/// An event's status as RFC 5545 states it.
#[derive(Debug, Clone, Copy, PartialEq, Eq, Hash, Structural)]
pub enum EventStatus {
    Tentative,
    Confirmed,
    Cancelled,
}

/// An alarm: an offset from the start, or a fixed instant.
#[derive(Debug, Clone, Copy, PartialEq, Eq)]
pub struct Alarm {
    pub offset_seconds: Option<i64>,
    pub absolute_at: Option<OffsetDateTime>,
}

/// Everything about an event besides its identity, title and time.
#[derive(Debug, Clone, PartialEq, Eq)]
pub struct EventMetadata {
    pub description: Option<String>,
    pub location: Option<String>,
    pub url: Option<String>,
    pub status: Option<EventStatus>,
    pub busy: bool,
    pub categories: Vec<String>,
    /// The validated repeat rule the agenda expands, if this event repeats.
    pub recurrence_rule: Option<EventRecurrence>,
    pub alarms: Vec<Alarm>,
    pub organizer: Option<String>,
    pub attendees: Vec<String>,
}

/// The detail a new event starts with: none, busy, not repeating.
pub open spec fn spec_is_default_metadata(m: EventMetadata) -> bool {
    &&& m.description is None
    &&& m.location is None
    &&& m.url is None
    &&& m.status is None
    &&& m.busy
    &&& m.categories@.len() == 0
    &&& m.recurrence_rule is None
    &&& m.alarms@.len() == 0
    &&& m.organizer is None
    &&& m.attendees@.len() == 0
}

impl Default for EventMetadata {
    fn default() -> (r: EventMetadata)
        ensures
            spec_is_default_metadata(r),
    {
        EventMetadata::default_metadata()
    }
}

impl EventMetadata {
    /// No detail, busy, not repeating.
    pub fn default_metadata() -> (r: EventMetadata)
        ensures
            spec_is_default_metadata(r),
    {
        EventMetadata {
            description: None,
            location: None,
            url: None,
            status: None,
            busy: true,
            categories: Vec::new(),
            recurrence_rule: None,
            alarms: Vec::new(),
            organizer: None,
            attendees: Vec::new(),
        }
    }
}

/// An event.
#[derive(Debug, Clone, PartialEq, Eq)]
pub struct Event {
    pub id: EventId,
    pub calendar_id: CalendarId,
    pub rfc_uid: RfcUid,
    pub title: String,
    pub time: EventTime,
    pub metadata: EventMetadata,
    pub created_at: Timestamp,
    pub updated_at: Timestamp,
    pub deleted_at: Option<Timestamp>,
    pub remote_tombstoned_at: Option<Timestamp>,
    pub version: i64,
}

/// What a newly created event is, besides what it was given: live, at
/// version 1, created and updated at one instant its version-7 identity
/// carries, with the UID derived from that identity, and no status,
/// categories, alarms, organizer or attendees.
pub open spec fn spec_fresh_event(ev: Event) -> bool {
    &&& ev.version == 1
    &&& ev.deleted_at is None
    &&& ev.remote_tombstoned_at is None
    &&& ev.created_at == ev.updated_at
    &&& ev.created_at.wf()
    &&& spec_is_v7(ev.id.value)
    &&& spec_v7_millis(ev.id.value) == spec_millis_of(ev.created_at)
    &&& ev.rfc_uid.0@ == spec_uuid_text(ev.id.value) + RFC_UID_SUFFIX@
    &&& ev.metadata.status is None
    &&& ev.metadata.categories@.len() == 0
    &&& ev.metadata.alarms@.len() == 0
    &&& ev.metadata.organizer is None
    &&& ev.metadata.attendees@.len() == 0
}

impl Event {
    /// A new event at version 1, its UID derived once from its identity.
    pub fn new(calendar_id: CalendarId, title: String, time: EventTime) -> (r: Result<Event, DomainError>)
        ensures
            match spec_text_error("event title", title@) {
                Some(e) => r == Err::<Event, DomainError>(e),
                None => r == Err::<Event, DomainError>(DomainError::ClockUnavailable) || (r matches Ok(ev)
                    && ev.calendar_id == calendar_id && ev.title@ == title@ && ev.time == time && ev.version == 1
                    && ev.deleted_at is None && ev.remote_tombstoned_at is None && ev.created_at == ev.updated_at
                    && ev.created_at.wf() && spec_is_v7(ev.id.value)
                    && spec_v7_millis(ev.id.value) == spec_millis_of(ev.created_at)
                    && ev.rfc_uid.0@ == spec_uuid_text(ev.id.value) + RFC_UID_SUFFIX@
                    && spec_is_default_metadata(ev.metadata)),
            },
    {
        let title = validate_text("event title", title)?;
        let now = match Timestamp::now() {
            Some(t) => t,
            None => return Err(DomainError::ClockUnavailable),
        };
        let id = EventId::at(now);
        Ok(Event {
            id,
            calendar_id,
            rfc_uid: RfcUid::for_event(id),
            title,
            time,
            metadata: EventMetadata::default_metadata(),
            created_at: now,
            updated_at: now,
            deleted_at: None,
            remote_tombstoned_at: None,
            version: 1,
        })
    }

    /// A stored event, its version and title checked again.
    pub fn rehydrate(
        id: EventId,
        calendar_id: CalendarId,
        rfc_uid: RfcUid,
        title: String,
        time: EventTime,
        metadata: EventMetadata,
        created_at: Timestamp,
        updated_at: Timestamp,
        deleted_at: Option<Timestamp>,
        remote_tombstoned_at: Option<Timestamp>,
        version: i64,
    ) -> (r: Result<Event, DomainError>)
        ensures
            version < 1 ==> r == Err::<Event, DomainError>(DomainError::InvalidEventVersion),
            version >= 1 ==> match spec_text_error("event title", title@) {
                Some(e) => r == Err::<Event, DomainError>(e),
                None => r matches Ok(ev) && ev.id == id && ev.calendar_id == calendar_id
                    && ev.rfc_uid == rfc_uid && ev.title@ == title@ && ev.time == time
                    && ev.metadata == metadata && ev.created_at == created_at && ev.updated_at
                    == updated_at && ev.deleted_at == deleted_at && ev.remote_tombstoned_at
                    == remote_tombstoned_at && ev.version == version,
            },
    {
        if version < 1 {
            return Err(DomainError::InvalidEventVersion);
        }
        Ok(Event {
            id,
            calendar_id,
            rfc_uid,
            title: validate_text("event title", title)?,
            time,
            metadata,
            created_at,
            updated_at,
            deleted_at,
            remote_tombstoned_at,
            version,
        })
    }
}

/// Longest event description, in characters.
pub const MAX_DESCRIPTION_CHARS: usize = 10_000;
/// Longest event location, in characters.
pub const MAX_LOCATION_CHARS: usize = 500;
/// Longest event URL, in characters.
pub const MAX_URL_CHARS: usize = 2048;

pub const DESCRIPTION_FIELD: &'static str = "event description";
pub const LOCATION_FIELD: &'static str = "event location";
pub const URL_FIELD: &'static str = "event URL";

/// A control character other than newline and tab.
pub open spec fn spec_stray_control(c: char) -> bool {
    spec_is_control(c) && c != '\n' && c != '\t'
}

/// Why a description is refused, if it is.
pub open spec fn spec_description_error(value: Seq<char>) -> Option<DomainError> {
    if spec_blank(value) {
        Some(DomainError::EmptyField { field: DESCRIPTION_FIELD })
    } else if value.len() > MAX_DESCRIPTION_CHARS {
        Some(DomainError::TooLong { field: DESCRIPTION_FIELD, max: MAX_DESCRIPTION_CHARS })
    } else if exists|i: int| 0 <= i < value.len() && spec_stray_control(#[trigger] value[i]) {
        Some(DomainError::ControlCharacter { field: DESCRIPTION_FIELD })
    } else {
        None
    }
}

/// Validate a multi-line description: newlines and tabs are the only control
/// characters it may hold.
pub fn validate_description(value: String) -> (r: Result<String, DomainError>)
    ensures
        match spec_description_error(value@) {
            Some(e) => r == Err::<String, DomainError>(e),
            None => r matches Ok(v) && v@ == value@,
        },
{
    if is_blank(value.as_str()) {
        return Err(DomainError::EmptyField { field: DESCRIPTION_FIELD });
    }
    let cs = chars_of(value.as_str());
    if cs.len() > MAX_DESCRIPTION_CHARS {
        return Err(DomainError::TooLong { field: DESCRIPTION_FIELD, max: MAX_DESCRIPTION_CHARS });
    }
    let mut i: usize = 0;
    while i < cs.len()
        invariant
            cs@ == value@,
            !spec_blank(value@),
            value@.len() <= MAX_DESCRIPTION_CHARS,
            i <= cs.len(),
            forall|j: int| 0 <= j < i ==> !spec_stray_control(#[trigger] cs@[j]),
        decreases cs.len() - i,
    {
        let c = cs[i];
        if is_control(c) && c != '\n' && c != '\t' {
            assert(spec_stray_control(value@[i as int]));
            return Err(DomainError::ControlCharacter { field: DESCRIPTION_FIELD });
        }
        i += 1;
    }
    Ok(value)
}

/// Why a location is refused, if it is.
pub open spec fn spec_location_error(value: Seq<char>) -> Option<DomainError> {
    match spec_text_error(LOCATION_FIELD, value) {
        Some(e) => Some(e),
        None => if value.len() > MAX_LOCATION_CHARS {
            Some(DomainError::TooLong { field: LOCATION_FIELD, max: MAX_LOCATION_CHARS })
        } else {
            None
        },
    }
}

/// Validate a single-line location.
pub fn validate_location(value: String) -> (r: Result<String, DomainError>)
    ensures
        match spec_location_error(value@) {
            Some(e) => r == Err::<String, DomainError>(e),
            None => r matches Ok(v) && v@ == value@,
        },
{
    let value = validate_text(LOCATION_FIELD, value)?;
    let n = chars_of(value.as_str()).len();
    if n > MAX_LOCATION_CHARS {
        return Err(DomainError::TooLong { field: LOCATION_FIELD, max: MAX_LOCATION_CHARS });
    }
    Ok(value)
}

/// A scheme a link may use, followed by at least one character.
pub open spec fn spec_scheme_ok(lowered: Seq<char>) -> bool {
    ||| (lowered.len() > 7 && lowered.subrange(0, 7) == "http://"@)
    ||| (lowered.len() > 8 && lowered.subrange(0, 8) == "https://"@)
    ||| (lowered.len() > 7 && lowered.subrange(0, 7) == "mailto:"@)
}

/// Why a link is refused, if it is.
pub open spec fn spec_url_error(value: Seq<char>) -> Option<DomainError> {
    if value.len() > MAX_URL_CHARS {
        Some(DomainError::TooLong { field: URL_FIELD, max: MAX_URL_CHARS })
    } else if !spec_scheme_ok(spec_ascii_lower_seq(value)) || spec_has_whitespace(value)
        || spec_has_control(value) {
        Some(DomainError::InvalidUrl)
    } else {
        None
    }
}

/// Validate an event link: http, https, or mailto only.
pub fn validate_url(value: String) -> (r: Result<String, DomainError>)
    ensures
        match spec_url_error(value@) {
            Some(e) => r == Err::<String, DomainError>(e),
            None => r matches Ok(v) && v@ == value@,
        },
{
    let cs = chars_of(value.as_str());
    if cs.len() > MAX_URL_CHARS {
        return Err(DomainError::TooLong { field: URL_FIELD, max: MAX_URL_CHARS });
    }
    let lowered = ascii_lower_chars(cs.as_slice());
    let http = chars_of("http://");
    let https = chars_of("https://");
    let mailto = chars_of("mailto:");
    proof {
        reveal_strlit("http://");
        reveal_strlit("https://");
        reveal_strlit("mailto:");
    }
    assert(http@.len() == 7 && https@.len() == 8 && mailto@.len() == 7);
    let scheme_ok = (starts_with(lowered.as_slice(), http.as_slice()) && lowered.len() > http.len())
        || (starts_with(lowered.as_slice(), https.as_slice()) && lowered.len() > https.len())
        || (starts_with(lowered.as_slice(), mailto.as_slice()) && lowered.len() > mailto.len());
    if !scheme_ok || has_whitespace(value.as_str()) || has_control(value.as_str()) {
        return Err(DomainError::InvalidUrl);
    }
    Ok(value)
}

// ── Messages ──

/// The text a calendar refusal is shown with.
pub open spec fn spec_domain_error_message(e: DomainError) -> Seq<char> {
    match e {
        DomainError::InvalidIdentifier { kind, value, reason } => "invalid "@ + kind@ + " identifier '"@ + value@ + "': "@ + reason@,
        DomainError::EmptyField { field } => field@ + " must not be empty"@,
        DomainError::ControlCharacter { field } => field@ + " must not contain control characters"@,
        DomainError::MissingTimezone => "timed events require an IANA timezone"@,
        DomainError::InvalidTimezone { timezone } => "'"@ + timezone@ + "' is not a valid IANA timezone"@,
        DomainError::OffsetTimezoneMismatch { boundary, timezone } => "timed event "@ + boundary@ + " offset does not match IANA timezone '"@ + timezone@ + "' at that instant"@,
        DomainError::EndNotAfterStart => "timed event end must be after start"@,
        DomainError::InvalidAllDayRange => "all-day event end must be after start and is exclusive"@,
        DomainError::InvalidRfcUid => "RFC UID must be stable and contain no whitespace"@,
        DomainError::InvalidEventVersion => "event version must be at least 1"@,
        DomainError::InvalidRecurrenceInterval => "recurrence interval must be between 1 and 366"@,
        DomainError::InvalidRecurrenceCount { max } => "recurrence count must be between 1 and "@ + spec_decimal(max as nat),
        DomainError::UnboundedRecurrence => "a recurrence rule must state a count or an until date"@,
        DomainError::RecurrenceUntilNotAfterStart => "recurrence until must be after the event start"@,
        DomainError::WeekdaySetWithoutWeekly => "a weekday set is only meaningful for a weekly recurrence"@,
        DomainError::InvalidWeekdaySet => "a weekday set must not be empty or repeat a day"@,
        DomainError::InvalidRecurrenceRange => "recurrence range start must not be after its end"@,
        DomainError::UnrepresentableOccurrence { timezone } => "a recurring occurrence has no valid local time in '"@ + timezone@ + "'"@,
        DomainError::UnknownFrequency { value } => "'"@ + value@ + "' is not a repeat frequency; use daily, weekly, or monthly"@,
        DomainError::TooLong { field, max } => field@ + " must be at most "@ + spec_decimal(max as nat) + " characters"@,
        DomainError::InvalidUrl => "event URL must start with http://, https://, or mailto: and contain no whitespace"@,
        DomainError::ClockUnavailable => "the system clock reads an instant before 1970 or beyond the supported range"@,
    }
}

impl DomainError {
    /// The text this refusal is shown with.
    pub fn message(&self) -> (r: String)
        ensures
            r@ == spec_domain_error_message(*self),
    {
        let mut out: Vec<char> = Vec::new();
        match self {
            DomainError::InvalidIdentifier { kind, value, reason } => {
                push_str_chars(&mut out, "invalid ");
                push_str_chars(&mut out, kind);
                push_str_chars(&mut out, " identifier '");
                push_str_chars(&mut out, value.as_str());
                push_str_chars(&mut out, "': ");
                push_str_chars(&mut out, reason.as_str());
            },
            DomainError::EmptyField { field } => {
                push_str_chars(&mut out, field);
                push_str_chars(&mut out, " must not be empty");
            },
            DomainError::ControlCharacter { field } => {
                push_str_chars(&mut out, field);
                push_str_chars(&mut out, " must not contain control characters");
            },
            DomainError::MissingTimezone => {
                push_str_chars(&mut out, "timed events require an IANA timezone");
            },
            DomainError::InvalidTimezone { timezone } => {
                push_str_chars(&mut out, "'");
                push_str_chars(&mut out, timezone.as_str());
                push_str_chars(&mut out, "' is not a valid IANA timezone");
            },
            DomainError::OffsetTimezoneMismatch { boundary, timezone } => {
                push_str_chars(&mut out, "timed event ");
                push_str_chars(&mut out, boundary);
                push_str_chars(&mut out, " offset does not match IANA timezone '");
                push_str_chars(&mut out, timezone.as_str());
                push_str_chars(&mut out, "' at that instant");
            },
            DomainError::EndNotAfterStart => {
                push_str_chars(&mut out, "timed event end must be after start");
            },
            DomainError::InvalidAllDayRange => {
                push_str_chars(&mut out, "all-day event end must be after start and is exclusive");
            },
            DomainError::InvalidRfcUid => {
                push_str_chars(&mut out, "RFC UID must be stable and contain no whitespace");
            },
            DomainError::InvalidEventVersion => {
                push_str_chars(&mut out, "event version must be at least 1");
            },
            DomainError::InvalidRecurrenceInterval => {
                push_str_chars(&mut out, "recurrence interval must be between 1 and 366");
            },
            DomainError::InvalidRecurrenceCount { max } => {
                push_str_chars(&mut out, "recurrence count must be between 1 and ");
                push_str_chars(&mut out, decimal(*max as u64).as_str());
            },
            DomainError::UnboundedRecurrence => {
                push_str_chars(&mut out, "a recurrence rule must state a count or an until date");
            },
            DomainError::RecurrenceUntilNotAfterStart => {
                push_str_chars(&mut out, "recurrence until must be after the event start");
            },
            DomainError::WeekdaySetWithoutWeekly => {
                push_str_chars(&mut out, "a weekday set is only meaningful for a weekly recurrence");
            },
            DomainError::InvalidWeekdaySet => {
                push_str_chars(&mut out, "a weekday set must not be empty or repeat a day");
            },
            DomainError::InvalidRecurrenceRange => {
                push_str_chars(&mut out, "recurrence range start must not be after its end");
            },
            DomainError::UnrepresentableOccurrence { timezone } => {
                push_str_chars(&mut out, "a recurring occurrence has no valid local time in '");
                push_str_chars(&mut out, timezone.as_str());
                push_str_chars(&mut out, "'");
            },
            DomainError::UnknownFrequency { value } => {
                push_str_chars(&mut out, "'");
                push_str_chars(&mut out, value.as_str());
                push_str_chars(&mut out, "' is not a repeat frequency; use daily, weekly, or monthly");
            },
            DomainError::TooLong { field, max } => {
                push_str_chars(&mut out, field);
                push_str_chars(&mut out, " must be at most ");
                push_str_chars(&mut out, decimal(*max as u64).as_str());
                push_str_chars(&mut out, " characters");
            },
            DomainError::InvalidUrl => {
                push_str_chars(&mut out, "event URL must start with http://, https://, or mailto: and contain no whitespace");
            },
            DomainError::ClockUnavailable => {
                push_str_chars(&mut out, "the system clock reads an instant before 1970 or beyond the supported range");
            },
        }
        assert(out@ =~= spec_domain_error_message(*self));
        string_of(out.as_slice())
    }
}

} // verus!
