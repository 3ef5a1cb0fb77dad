//! Todos as the projection carries them: due values, repeat rules, reminders.
use vstd::prelude::*;

use crate::ids::{ProjectId, TagId, TodoId, spec_is_v7, spec_millis_of, spec_v7_millis};
use crate::text::{
    has_control, is_blank, push_str_chars, spec_blank, spec_has_control, spec_to_lowercase, str_eq,
    string_of, to_lowercase,
};
use crate::time::{
    CivilDate, MAX_INSTANT_SECONDS, NANOS_PER_SECOND, OffsetDateTime, SECONDS_PER_DAY, Timestamp,
    spec_add_months, spec_day_in_range, spec_seconds_in_range, spec_tz_add_months, spec_tz_known,
    spec_tz_offset_at, tz_add_months, tz_known, tz_offset_at,
};

verus! {

/// Why a todo value was refused.
#[derive(Debug, Clone, PartialEq, Eq)]
pub enum TodoError {
    InvalidIdentifier { kind: &'static str, value: String, reason: String },
    EmptyField { field: &'static str },
    ControlCharacter { field: &'static str },
    InvalidStoredProject { reason: String },
    InvalidStoredTag { reason: String },
    InvalidPriority { value: String },
    MissingTimezone,
    InvalidTimezone { timezone: String },
    OffsetTimezoneMismatch { timezone: String },
    InvalidRecurrenceInterval,
    InvalidRecurrenceCount,
    RecurrenceUntilNotAfterDue,
    RecurrenceWithoutDue,
    InvalidRecurrenceRange,
    InvalidStoredRecurrence { reason: String },
    InvalidReminderOffset,
    ReminderWithoutDue,
    InvalidStoredReminder { reason: String },
    ClockUnavailable,
}

/// Largest repeat interval.
pub const TODO_MAX_INTERVAL: u32 = 366;
/// Largest repeat count.
pub const TODO_MAX_COUNT: u32 = 1000;
/// Longest reminder lead time, in minutes (one week).
pub const MAX_REMINDER_MINUTES: u32 = 10_080;
/// The last occurrence index an expansion looks at.
pub const LAST_TODO_OCCURRENCE: u32 = 1000;

pub const DUPLICATE_REMINDER: &'static str = "duplicate reminder";
pub const TAG_NAME_MISMATCH: &'static str = "tag normalized name does not match name";
pub const PROJECT_NAME_MISMATCH: &'static str = "normalized name does not match name";
pub const PROJECT_VERSION_TOO_LOW: &'static str = "version must be at least 1";

/// The single-line text check: not blank and no control character.
pub open spec fn spec_todo_text_error(field: &'static str, value: Seq<char>) -> Option<TodoError> {
    if spec_blank(value) {
        Some(TodoError::EmptyField { field })
    } else if spec_has_control(value) {
        Some(TodoError::ControlCharacter { field })
    } else {
        None
    }
}

fn valid_text(field: &'static str, value: String) -> (r: Result<String, TodoError>)
    ensures
        match spec_todo_text_error(field, value@) {
            Some(e) => r == Err::<String, TodoError>(e),
            None => r == Ok::<String, TodoError>(value),
        },
{
    if is_blank(value.as_str()) {
        return Err(TodoError::EmptyField { field });
    }
    if has_control(value.as_str()) {
        return Err(TodoError::ControlCharacter { field });
    }
    Ok(value)
}

/// Why a zone name is refused: blank, or unknown to the zone database.
pub open spec fn spec_timezone_error(timezone: String) -> Option<TodoError> {
    if spec_blank(timezone@) {
        Some(TodoError::MissingTimezone)
    } else if !spec_tz_known(timezone@) {
        Some(TodoError::InvalidTimezone { timezone })
    } else {
        None
    }
}

fn valid_timezone(timezone: String) -> (r: Result<String, TodoError>)
    ensures
        match spec_timezone_error(timezone) {
            Some(e) => r == Err::<String, TodoError>(e),
            None => r == Ok::<String, TodoError>(timezone),
        },
{
    if is_blank(timezone.as_str()) {
        return Err(TodoError::MissingTimezone);
    }
    if !tz_known(timezone.as_str()) {
        return Err(TodoError::InvalidTimezone { timezone });
    }
    Ok(timezone)
}

// ── Priority ──

/// How urgent a todo is.
#[derive(Debug, Clone, Copy, PartialEq, Eq, Hash, Structural)]
pub enum Priority {
    Unset,
    Low,
    Medium,
    High,
    Urgent,
}

/// The priority a lower-case word names.
pub open spec fn spec_priority_word(word: Seq<char>) -> Option<Priority> {
    if word == "none"@ {
        Some(Priority::Unset)
    } else if word == "low"@ {
        Some(Priority::Low)
    } else if word == "medium"@ {
        Some(Priority::Medium)
    } else if word == "high"@ {
        Some(Priority::High)
    } else if word == "urgent"@ {
        Some(Priority::Urgent)
    } else {
        Option::None
    }
}

impl Priority {
    /// Read `none`, `low`, `medium`, `high` or `urgent`.
    pub fn parse(value: &str) -> (r: Result<Priority, TodoError>)
        ensures
            match spec_priority_word(value@) {
                Some(p) => r == Ok::<Priority, TodoError>(p),
                None => r matches Err(TodoError::InvalidPriority { value: v }) && v@ == value@,
            },
    {
        proof {
            reveal_strlit("none");
            reveal_strlit("low");
            reveal_strlit("medium");
            reveal_strlit("high");
            reveal_strlit("urgent");
        }
        if str_eq(value, "none") {
            Ok(Priority::Unset)
        } else if str_eq(value, "low") {
            Ok(Priority::Low)
        } else if str_eq(value, "medium") {
            Ok(Priority::Medium)
        } else if str_eq(value, "high") {
            Ok(Priority::High)
        } else if str_eq(value, "urgent") {
            Ok(Priority::Urgent)
        } else {
            Err(TodoError::InvalidPriority { value: crate::text::string_of(crate::text::chars_of(value).as_slice()) })
        }
    }

    /// The word this priority is written as.
    pub fn as_str(self) -> (r: &'static str)
        ensures
            r@ == spec_priority_name(self),
    {
        match self {
            Priority::Unset => "none",
            Priority::Low => "low",
            Priority::Medium => "medium",
            Priority::High => "high",
            Priority::Urgent => "urgent",
        }
    }
}

/// The word a priority is written as.
pub open spec fn spec_priority_name(p: Priority) -> Seq<char> {
    match p {
        Priority::Unset => "none"@,
        Priority::Low => "low"@,
        Priority::Medium => "medium"@,
        Priority::High => "high"@,
        Priority::Urgent => "urgent"@,
    }
}

/// Reading the word a priority is written as gives that priority back.
pub proof fn lemma_priority_round_trip(p: Priority)
    ensures
        spec_priority_word(spec_priority_name(p)) == Some(p),
{
    reveal_strlit("none");
    reveal_strlit("low");
    reveal_strlit("medium");
    reveal_strlit("high");
    reveal_strlit("urgent");
    assert("none"@.len() == 4 && "low"@.len() == 3 && "medium"@.len() == 6 && "high"@.len() == 4
        && "urgent"@.len() == 6);
    assert("none"@[0] != "high"@[0]);
    assert("medium"@[0] != "urgent"@[0]);
}

// ── Due values ──

/// When a todo is due: a civil date in a zone, or an instant in a zone.
#[derive(Debug, Clone, PartialEq, Eq)]
pub enum TodoDue {
    Date { date: CivilDate, timezone: String },
    Timed { at: OffsetDateTime, timezone: String },
}

impl TodoDue {
    /// The dates and instants this library holds.
    pub open spec fn wf(self) -> bool {
        match self {
            TodoDue::Date { date, .. } => date.wf(),
            TodoDue::Timed { at, .. } => at.wf(),
        }
    }

    /// The civil date a due value falls on; a timed one at its own offset.
    pub open spec fn spec_date(self) -> int {
        match self {
            TodoDue::Date { date, .. } => date.days as int,
            TodoDue::Timed { at, .. } => at.spec_local_days(),
        }
    }

    /// A civil-date due value in a named zone.
    pub fn date(date: CivilDate, timezone: String) -> (r: Result<TodoDue, TodoError>)
        ensures
            r == spec_due_date_value(date, timezone),
    {
        let timezone = valid_timezone(timezone)?;
        Ok(TodoDue::Date { date, timezone })
    }

    /// An instant in a named zone, whose written offset must be the zone's own
    /// offset at that instant.
    pub fn timed(at: OffsetDateTime, timezone: String) -> (r: Result<TodoDue, TodoError>)
        requires
            at.wf(),
        ensures
            r == spec_due_timed_value(at, timezone),
    {
        let timezone = valid_timezone(timezone)?;
        match tz_offset_at(timezone.as_str(), at.seconds) {
            Some(offset) => {
                if offset != at.offset {
                    return Err(TodoError::OffsetTimezoneMismatch { timezone });
                }
            },
            None => return Err(TodoError::InvalidTimezone { timezone }),
        }
        Ok(TodoDue::Timed { at, timezone })
    }

    pub fn is_all_day(&self) -> (r: bool)
        ensures
            r == (*self is Date),
    {
        match self {
            TodoDue::Date { .. } => true,
            TodoDue::Timed { .. } => false,
        }
    }

    /// The civil date this value falls on.
    pub fn due_date(&self) -> (r: CivilDate)
        requires
            self.wf(),
        ensures
            r.days == self.spec_date(),
            r.wf(),
    {
        match self {
            TodoDue::Date { date, .. } => *date,
            TodoDue::Timed { at, .. } => at.local_date(),
        }
    }

    /// A copy of this value.
    pub fn copy(&self) -> (r: TodoDue)
        ensures
            r == *self,
    {
        match self {
            TodoDue::Date { date, timezone } => TodoDue::Date { date: *date, timezone: timezone.clone() },
            TodoDue::Timed { at, timezone } => TodoDue::Timed { at: *at, timezone: timezone.clone() },
        }
    }
}

/// What building a civil-date due value gives.
pub open spec fn spec_due_date_value(date: CivilDate, timezone: String) -> Result<TodoDue, TodoError> {
    match spec_timezone_error(timezone) {
        Some(e) => Err(e),
        None => Ok(TodoDue::Date { date, timezone }),
    }
}

/// What building a timed due value gives.
pub open spec fn spec_due_timed_value(at: OffsetDateTime, timezone: String) -> Result<TodoDue, TodoError> {
    match spec_timezone_error(timezone) {
        Some(e) => Err(e),
        None => if spec_tz_offset_at(timezone@, at.seconds as int) != at.offset {
            Err(TodoError::OffsetTimezoneMismatch { timezone })
        } else {
            Ok(TodoDue::Timed { at, timezone })
        },
    }
}

// ── Repeat rules ──

#[derive(Debug, Clone, Copy, PartialEq, Eq, Hash, Structural)]
pub enum RecurrenceFrequency {
    Daily,
    Weekly,
    Monthly,
}

/// How a todo repeats: every `interval` days, weeks or months, for `count`
/// occurrences or until a date.
#[derive(Debug, Clone, Copy, PartialEq, Eq, Structural)]
pub struct RecurrenceRule {
    pub frequency: RecurrenceFrequency,
    pub interval: u32,
    pub count: Option<u32>,
    pub until: Option<CivilDate>,
}

/// Why a repeat rule is refused, if it is.
pub open spec fn spec_todo_rule_error(rule: RecurrenceRule) -> Option<TodoError> {
    if !(1 <= rule.interval <= TODO_MAX_INTERVAL) {
        Some(TodoError::InvalidRecurrenceInterval)
    } else if rule.count matches Some(c) && !(1 <= c <= TODO_MAX_COUNT) {
        Some(TodoError::InvalidRecurrenceCount)
    } else if rule.count is None && rule.until is None {
        Some(TodoError::InvalidRecurrenceCount)
    } else {
        None
    }
}

impl RecurrenceRule {
    pub fn new(
        frequency: RecurrenceFrequency,
        interval: u32,
        count: Option<u32>,
        until: Option<CivilDate>,
    ) -> (r: Result<RecurrenceRule, TodoError>)
        ensures
            ({
                let rule = RecurrenceRule { frequency, interval, count, until };
                match spec_todo_rule_error(rule) {
                    Some(e) => r == Err::<RecurrenceRule, TodoError>(e),
                    None => r == Ok::<RecurrenceRule, TodoError>(rule),
                }
            }),
    {
        let rule = RecurrenceRule { frequency, interval, count, until };
        rule.validate()?;
        Ok(rule)
    }

    /// The interval lies in 1..=366, a count in 1..=1000, and the rule is bounded.
    pub fn validate(&self) -> (r: Result<(), TodoError>)
        ensures
            match spec_todo_rule_error(*self) {
                Some(e) => r == Err::<(), TodoError>(e),
                None => r is Ok,
            },
    {
        if !(1 <= self.interval && self.interval <= TODO_MAX_INTERVAL) {
            return Err(TodoError::InvalidRecurrenceInterval);
        }
        if let Some(count) = self.count {
            if !(1 <= count && count <= TODO_MAX_COUNT) {
                return Err(TodoError::InvalidRecurrenceCount);
            }
        }
        if self.count.is_none() && self.until.is_none() {
            return Err(TodoError::InvalidRecurrenceCount);
        }
        Ok(())
    }
}

/// Days one step of a daily or weekly rule moves.
pub open spec fn spec_step_days(rule: RecurrenceRule) -> int {
    match rule.frequency {
        RecurrenceFrequency::Weekly => 7 * rule.interval,
        _ => rule.interval as int,
    }
}

/// One step of a repeat rule from a due value: a civil date moves by days or
/// months; an instant moves by exact days of seconds, or by months on its
/// wall clock in its zone.
pub open spec fn spec_step(due: TodoDue, rule: RecurrenceRule) -> Result<TodoDue, TodoError> {
    match due {
        TodoDue::Date { date, timezone } => {
            let next = match rule.frequency {
                RecurrenceFrequency::Monthly => spec_add_months(date.days as int, rule.interval as int),
                _ => {
                    let d = date.days + spec_step_days(rule);
                    if spec_day_in_range(d) { Some(d) } else { None }
                },
            };
            match next {
                None => Err(TodoError::InvalidRecurrenceRange),
                Some(d) => spec_due_date_value(CivilDate { days: d as i32 }, timezone),
            }
        },
        TodoDue::Timed { at, timezone } => {
            if !spec_tz_known(timezone@) {
                Err(TodoError::InvalidTimezone { timezone })
            } else {
                let next = match rule.frequency {
                    RecurrenceFrequency::Monthly => spec_tz_add_months(
                        timezone@,
                        at.seconds as int,
                        at.nanos as int,
                        rule.interval as int,
                    ),
                    _ => {
                        let s = at.seconds + spec_step_days(rule) * SECONDS_PER_DAY;
                        Some((s, at.nanos as int, spec_tz_offset_at(timezone@, s)))
                    },
                };
                match next {
                    Some(p) => if spec_seconds_in_range(p.0) && 0 <= p.1 < NANOS_PER_SECOND {
                        spec_due_timed_value(
                            OffsetDateTime { seconds: p.0 as i64, nanos: p.1 as u32, offset: p.2 as i32 },
                            timezone,
                        )
                    } else {
                        Err(TodoError::InvalidRecurrenceRange)
                    },
                    None => Err(TodoError::InvalidRecurrenceRange),
                }
            }
        },
    }
}

/// One step of a daily rule moves a due value by exactly its interval in
/// days, and of a weekly rule by seven times that: a date by that many days,
/// an instant by that many days of seconds, keeping its fraction; either
/// keeps its zone.
pub proof fn lemma_step_moves_by_interval(due: TodoDue, rule: RecurrenceRule)
    requires
        rule.frequency != RecurrenceFrequency::Monthly,
    ensures
        spec_step(due, rule) matches Ok(next) ==> {
            let days = if rule.frequency == RecurrenceFrequency::Weekly {
                7 * rule.interval
            } else {
                rule.interval as int
            };
            match (due, next) {
                (TodoDue::Date { date, timezone }, TodoDue::Date { date: d, timezone: z }) => d.days == date.days + days
                    && z == timezone,
                (TodoDue::Timed { at, timezone }, TodoDue::Timed { at: a, timezone: z }) => a.seconds == at.seconds + days
                    * 86400 && a.nanos == at.nanos && z == timezone,
                _ => false,
            }
        },
{
}

/// Take one step of a repeat rule.
pub fn add_recurrence_step(due: &TodoDue, rule: &RecurrenceRule) -> (r: Result<TodoDue, TodoError>)
    requires
        due.wf(),
        1 <= rule.interval <= TODO_MAX_INTERVAL,
    ensures
        r == spec_step(*due, *rule),
        r matches Ok(next) ==> next.wf(),
{
    let amount = rule.interval;
    match due {
        TodoDue::Date { date, timezone } => {
            let next = match rule.frequency {
                RecurrenceFrequency::Daily => date.checked_add_days(amount as u64),
                RecurrenceFrequency::Weekly => date.checked_add_days(7 * amount as u64),
                RecurrenceFrequency::Monthly => date.checked_add_months(amount),
            };
            match next {
                Some(next) => TodoDue::date(next, timezone.clone()),
                None => Err(TodoError::InvalidRecurrenceRange),
            }
        },
        TodoDue::Timed { at, timezone } => {
            if !tz_known(timezone.as_str()) {
                return Err(TodoError::InvalidTimezone { timezone: timezone.clone() });
            }
            let next: Option<(i64, u32, i32)> = match rule.frequency {
                RecurrenceFrequency::Monthly => tz_add_months(timezone.as_str(), at.seconds, at.nanos, amount),
                _ => {
                    let days: i64 = if rule.frequency == RecurrenceFrequency::Weekly { 7 * amount as i64 } else { amount as i64 };
                    let s: i64 = at.seconds + days * SECONDS_PER_DAY;
                    if -MAX_INSTANT_SECONDS <= s && s <= MAX_INSTANT_SECONDS {
                        match tz_offset_at(timezone.as_str(), s) {
                            Some(o) => Some((s, at.nanos, o)),
                            None => None,
                        }
                    } else {
                        return Err(TodoError::InvalidRecurrenceRange);
                    }
                },
            };
            match next {
                Some((s, n, o)) => {
                    if -MAX_INSTANT_SECONDS <= s && s <= MAX_INSTANT_SECONDS && n < NANOS_PER_SECOND {
                        TodoDue::timed(OffsetDateTime { seconds: s, nanos: n, offset: o }, timezone.clone())
                    } else {
                        Err(TodoError::InvalidRecurrenceRange)
                    }
                },
                None => Err(TodoError::InvalidRecurrenceRange),
            }
        },
    }
}

// ── Reminders ──

/// A reminder some minutes before a due value.
#[derive(Debug, Clone, Copy, PartialEq, Eq, Hash, Structural)]
pub struct TodoReminder {
    pub minutes_before: u32,
    pub repeatable: bool,
}

impl TodoReminder {
    /// A reminder 1 to 10 080 minutes (one week) ahead.
    pub fn new(minutes_before: u32, repeatable: bool) -> (r: Result<TodoReminder, TodoError>)
        ensures
            1 <= minutes_before <= MAX_REMINDER_MINUTES ==> r == Ok::<TodoReminder, TodoError>(
                TodoReminder { minutes_before, repeatable },
            ),
            !(1 <= minutes_before <= MAX_REMINDER_MINUTES) ==> r == Err::<TodoReminder, TodoError>(
                TodoError::InvalidReminderOffset,
            ),
    {
        if !(1 <= minutes_before && minutes_before <= MAX_REMINDER_MINUTES) {
            return Err(TodoError::InvalidReminderOffset);
        }
        Ok(TodoReminder { minutes_before, repeatable })
    }
}

/// The first fault among the first `k` reminders: `Some(true)` for a lead time
/// out of range, `Some(false)` for a repeat of an earlier reminder.
pub open spec fn spec_reminder_fault(s: Seq<TodoReminder>, k: int) -> Option<bool>
    decreases k,
{
    if k <= 0 {
        None
    } else {
        match spec_reminder_fault(s, k - 1) {
            Some(f) => Some(f),
            None => if !(1 <= s[k - 1].minutes_before <= MAX_REMINDER_MINUTES) {
                Some(true)
            } else if s.subrange(0, k - 1).contains(s[k - 1]) {
                Some(false)
            } else {
                None
            },
        }
    }
}

/// Reminders need a due value, a lead time in range, and no repeats.
pub open spec fn spec_reminders_ok(has_due: bool, s: Seq<TodoReminder>) -> bool {
    (s.len() == 0 || has_due) && spec_reminder_fault(s, s.len() as int) is None
}

/// The error a reminder list is refused with, once it is refused.
pub open spec fn spec_reminders_refusal(has_due: bool, s: Seq<TodoReminder>, e: TodoError) -> bool {
    if s.len() > 0 && !has_due {
        e == TodoError::ReminderWithoutDue
    } else {
        match spec_reminder_fault(s, s.len() as int) {
            Some(true) => e == TodoError::InvalidReminderOffset,
            Some(false) => e matches TodoError::InvalidStoredReminder { reason } && reason@ == DUPLICATE_REMINDER@,
            None => false,
        }
    }
}

fn validate_reminders(has_due: bool, reminders: &Vec<TodoReminder>) -> (r: Result<(), TodoError>)
    ensures
        r is Ok <==> spec_reminders_ok(has_due, reminders@),
        r matches Err(e) ==> spec_reminders_refusal(has_due, reminders@, e),
{
    if reminders.len() > 0 && !has_due {
        return Err(TodoError::ReminderWithoutDue);
    }
    let mut i: usize = 0;
    while i < reminders.len()
        invariant
            i <= reminders.len(),
            reminders.len() == 0 || has_due,
            spec_reminder_fault(reminders@, i as int) is None,
        decreases reminders.len() - i,
    {
        let reminder = reminders[i];
        if TodoReminder::new(reminder.minutes_before, reminder.repeatable).is_err() {
            assert(spec_reminder_fault(reminders@, i as int + 1) == Some(true));
            proof { lemma_fault_stays(reminders@, i as int + 1, reminders@.len() as int); }
            return Err(TodoError::InvalidReminderOffset);
        }
        let mut j: usize = 0;
        while j < i
            invariant
                i < reminders.len(),
                j <= i,
                reminder == reminders@[i as int],
                forall|k: int| 0 <= k < j ==> reminders@[k] != reminder,
                spec_reminder_fault(reminders@, i as int) is None,
                1 <= reminder.minutes_before <= MAX_REMINDER_MINUTES,
                reminders.len() == 0 || has_due,
            decreases i - j,
        {
            let other = reminders[j];
            if other.minutes_before == reminder.minutes_before && other.repeatable == reminder.repeatable {
                proof {
                    assert(reminders@.subrange(0, i as int)[j as int] == reminder);
                    assert(spec_reminder_fault(reminders@, i as int + 1) == Some(false));
                    lemma_fault_stays(reminders@, i as int + 1, reminders@.len() as int);
                }
                return Err(TodoError::InvalidStoredReminder { reason: crate::text::string_of(crate::text::chars_of(DUPLICATE_REMINDER).as_slice()) });
            }
            j += 1;
        }
        assert(!reminders@.subrange(0, i as int).contains(reminder)) by {
            if reminders@.subrange(0, i as int).contains(reminder) {
                let k = choose|k: int| 0 <= k < i && reminders@.subrange(0, i as int)[k] == reminder;
                assert(reminders@[k] == reminder);
            }
        }
        i += 1;
    }
    Ok(())
}

proof fn lemma_fault_stays(s: Seq<TodoReminder>, k: int, m: int)
    requires
        0 <= k <= m,
        spec_reminder_fault(s, k) is Some,
    ensures
        spec_reminder_fault(s, m) == spec_reminder_fault(s, k),
    decreases m - k,
{
    if m > k {
        lemma_fault_stays(s, k, m - 1);
    }
}

// ── Todos ──

/// A todo as the projection carries it.
#[derive(Debug, Clone, PartialEq, Eq)]
pub struct Todo {
    pub id: TodoId,
    pub title: String,
    pub due: Option<TodoDue>,
    pub recurrence: Option<RecurrenceRule>,
    pub reminders: Vec<TodoReminder>,
    pub priority: Priority,
    pub project_id: Option<ProjectId>,
    pub tag_ids: Vec<TagId>,
    pub dependency_ids: Vec<TodoId>,
    pub notes: Option<String>,
    pub parent_id: Option<TodoId>,
    pub completed_at: Option<Timestamp>,
    pub trashed_at: Option<Timestamp>,
    pub version: i64,
    pub created_at: Timestamp,
    pub updated_at: Timestamp,
}

/// Why a repeat rule does not fit a todo's due value, if it does not.
pub open spec fn spec_recurrence_due_error(due: Option<TodoDue>, rule: RecurrenceRule) -> Option<TodoError> {
    match due {
        None => Some(TodoError::RecurrenceWithoutDue),
        Some(d) => if rule.until matches Some(u) && u.days <= d.spec_date() {
            Some(TodoError::RecurrenceUntilNotAfterDue)
        } else {
            None
        },
    }
}

fn validate_recurrence_due(due: &Option<TodoDue>, rule: &RecurrenceRule) -> (r: Result<(), TodoError>)
    requires
        due matches Some(d) ==> d.wf(),
    ensures
        match spec_recurrence_due_error(*due, *rule) {
            Some(e) => r == Err::<(), TodoError>(e),
            None => r is Ok,
        },
{
    match due {
        None => Err(TodoError::RecurrenceWithoutDue),
        Some(d) => {
            let date = d.due_date();
            if let Some(until) = rule.until {
                if until.days <= date.days {
                    return Err(TodoError::RecurrenceUntilNotAfterDue);
                }
            }
            Ok(())
        },
    }
}

/// The checks a stored todo passes before its reminders: its title, its rule,
/// and the rule against its due value.
pub open spec fn spec_todo_precheck(t: Todo) -> Option<TodoError> {
    match spec_todo_text_error("todo title", t.title@) {
        Some(e) => Some(e),
        None => match t.recurrence {
            None => None,
            Some(rule) => match spec_todo_rule_error(rule) {
                Some(e) => Some(e),
                None => spec_recurrence_due_error(t.due, rule),
            },
        },
    }
}

/// The occurrences from index `occ` on of a series that starts at `cur`,
/// kept when they fall in `from..=through`; the first refused step wins.
pub open spec fn spec_due_expand_from(
    rule: RecurrenceRule,
    cur: TodoDue,
    from: int,
    through: int,
    occ: int,
) -> Result<Seq<(u32, TodoDue)>, TodoError>
    decreases LAST_TODO_OCCURRENCE + 1 - occ,
{
    if occ < 0 || occ > LAST_TODO_OCCURRENCE {
        Ok(Seq::empty())
    } else {
        let d = cur.spec_date();
        if d > through || (rule.until matches Some(u) && d > u.days) {
            Ok(Seq::empty())
        } else {
            let head = if d >= from { seq![(occ as u32, cur)] } else { Seq::empty() };
            if rule.count matches Some(c) && occ + 1 >= c {
                Ok(head)
            } else {
                match spec_step(cur, rule) {
                    Err(e) => Err(e),
                    Ok(next) => match spec_due_expand_from(rule, next, from, through, occ + 1) {
                        Ok(rest) => Ok(head + rest),
                        Err(e) => Err(e),
                    },
                }
            }
        }
    }
}

/// The indexed due values of a todo in the inclusive window `from..=through`.
pub open spec fn spec_todo_expand(t: Todo, from: int, through: int) -> Result<Seq<(u32, TodoDue)>, TodoError> {
    if from > through {
        Err(TodoError::InvalidRecurrenceRange)
    } else {
        match t.due {
            None => Ok(Seq::empty()),
            Some(due) => match t.recurrence {
                None => if from <= due.spec_date() <= through {
                    Ok(seq![(0u32, due)])
                } else {
                    Ok(Seq::empty())
                },
                Some(rule) => match spec_todo_rule_error(rule) {
                    Some(e) => Err(e),
                    None => match spec_recurrence_due_error(t.due, rule) {
                        Some(e) => Err(e),
                        None => spec_due_expand_from(rule, due, from, through, 0),
                    },
                },
            },
        }
    }
}

/// Glue a found prefix to what the rest of a series gives.
pub open spec fn spec_prefixed(
    found: Seq<(u32, TodoDue)>,
    rest: Result<Seq<(u32, TodoDue)>, TodoError>,
) -> Result<Seq<(u32, TodoDue)>, TodoError> {
    match rest {
        Ok(more) => Ok(found + more),
        Err(e) => Err(e),
    }
}

pub open spec fn spec_todo_result_vec<T>(r: Result<Vec<T>, TodoError>) -> Result<Seq<T>, TodoError> {
    match r {
        Ok(v) => Ok(v@),
        Err(e) => Err(e),
    }
}

impl Todo {
    /// The dates and instants the todo holds are ones this library holds.
    pub open spec fn wf(self) -> bool {
        &&& (self.due matches Some(d) ==> d.wf())
        &&& self.created_at.wf()
        &&& self.updated_at.wf()
    }

    /// A new open todo with no due value or relationships.
    pub fn new(title: String) -> (r: Result<Todo, TodoError>)
        ensures
            match spec_todo_text_error("todo title", title@) {
                Some(e) => r == Err::<Todo, TodoError>(e),
                None => r == Err::<Todo, TodoError>(TodoError::ClockUnavailable) || (r matches Ok(t)
                    && t.title == title && t.due is None && t.recurrence is None
                    && t.reminders@.len() == 0 && t.priority == Priority::Unset && t.project_id is None
                    && t.tag_ids@.len() == 0 && t.dependency_ids@.len() == 0 && t.notes is None
                    && t.parent_id is None && t.completed_at is None && t.trashed_at is None
                    && t.version == 1 && t.created_at == t.updated_at && t.wf() && spec_is_v7(t.id.value)
                    && spec_v7_millis(t.id.value) == spec_millis_of(t.created_at)),
            },
    {
        let title = valid_text("todo title", title)?;
        let now = match Timestamp::now() {
            Some(t) => t,
            None => return Err(TodoError::ClockUnavailable),
        };
        Ok(Todo {
            id: TodoId::at(now),
            title,
            due: None,
            recurrence: None,
            reminders: Vec::new(),
            priority: Priority::Unset,
            project_id: None,
            tag_ids: Vec::new(),
            dependency_ids: Vec::new(),
            notes: None,
            parent_id: None,
            completed_at: None,
            trashed_at: None,
            version: 1,
            created_at: now,
            updated_at: now,
        })
    }

    /// Check a stored todo again: its title, its rule against its due value,
    /// and its reminders. A version below 1 reads as 1.
    pub fn rehydrate(self) -> (r: Result<Todo, TodoError>)
        requires
            self.due matches Some(d) ==> d.wf(),
        ensures
            match spec_todo_precheck(self) {
                Some(e) => r == Err::<Todo, TodoError>(e),
                None => if spec_reminders_ok(self.due is Some, self.reminders@) {
                    r matches Ok(t) && t == (Todo { version: if self.version < 1 { 1 } else { self.version }, ..self })
                } else {
                    r matches Err(e) && spec_reminders_refusal(self.due is Some, self.reminders@, e)
                },
            },
    {
        let mut todo = self;
        let title = valid_text("todo title", todo.title)?;
        todo.title = title;
        if let Some(rule) = todo.recurrence {
            rule.validate()?;
            validate_recurrence_due(&todo.due, &rule)?;
        }
        validate_reminders(todo.due.is_some(), &todo.reminders)?;
        if todo.version < 1 {
            todo.version = 1;
        }
        Ok(todo)
    }

    /// The due values of this todo in the inclusive window, each with its index
    /// in the series. A todo that does not repeat has one, at index 0.
    pub fn expand_due_instances_indexed(&self, from: CivilDate, through: CivilDate) -> (r: Result<Vec<(u32, TodoDue)>, TodoError>)
        requires
            self.due matches Some(d) ==> d.wf(),
        ensures
            spec_todo_result_vec(r) == spec_todo_expand(*self, from.days as int, through.days as int),
            r matches Ok(v) ==> forall|i: int| 0 <= i < v@.len() ==> (#[trigger] v@[i]).1.wf(),
    {
        if from.days > through.days {
            return Err(TodoError::InvalidRecurrenceRange);
        }
        let due = match &self.due {
            None => return Ok(Vec::new()),
            Some(due) => due,
        };
        let rule = match self.recurrence {
            None => {
                let date = due.due_date();
                if from.days <= date.days && date.days <= through.days {
                    let mut one: Vec<(u32, TodoDue)> = Vec::new();
                    one.push((0u32, due.copy()));
                    assert(one@ =~= seq![(0u32, *due)]);
                    return Ok(one);
                }
                return Ok(Vec::new());
            },
            Some(rule) => rule,
        };
        rule.validate()?;
        validate_recurrence_due(&self.due, &rule)?;
        let ghost want = spec_todo_expand(*self, from.days as int, through.days as int);
        let mut result: Vec<(u32, TodoDue)> = Vec::new();
        let mut current = due.copy();
        let mut occurrence: u32 = 0;
        assert(result@ + Seq::<(u32, TodoDue)>::empty() =~= Seq::<(u32, TodoDue)>::empty());
        while occurrence <= LAST_TODO_OCCURRENCE
            invariant
                current.wf(),
                forall|i: int| 0 <= i < result@.len() ==> (#[trigger] result@[i]).1.wf(),
                spec_todo_rule_error(rule) is None,
                want == spec_todo_expand(*self, from.days as int, through.days as int),
                want == spec_prefixed(result@, spec_due_expand_from(rule, current, from.days as int, through.days as int, occurrence as int)),
            decreases LAST_TODO_OCCURRENCE + 1 - occurrence,
        {
            let ghost before = result@;
            let date = current.due_date();
            let past_until = match rule.until {
                Some(until) => date.days > until.days,
                None => false,
            };
            if date.days > through.days || past_until {
                assert(result@ + Seq::<(u32, TodoDue)>::empty() =~= result@);
                return Ok(result);
            }
            if date.days >= from.days {
                result.push((occurrence, current.copy()));
            }
            let ghost head = if date.days >= from.days { seq![(occurrence, current)] } else { Seq::<(u32, TodoDue)>::empty() };
            assert(result@ =~= before + head);
            let last = match rule.count {
                Some(count) => occurrence as u64 + 1 >= count as u64,
                None => false,
            };
            if last {
                return Ok(result);
            }
            let next = add_recurrence_step(&current, &rule)?;
            proof {
                match spec_due_expand_from(rule, next, from.days as int, through.days as int, occurrence as int + 1) {
                    Ok(rest) => {
                        assert(before + (head + rest) =~= result@ + rest);
                    },
                    Err(e) => {},
                }
            }
            current = next;
            occurrence += 1;
        }
        assert(result@ + Seq::<(u32, TodoDue)>::empty() =~= result@);
        Ok(result)
    }

    /// The due values of this todo in the inclusive window.
    pub fn expand_due_instances(&self, from: CivilDate, through: CivilDate) -> (r: Result<Vec<TodoDue>, TodoError>)
        requires
            self.due matches Some(d) ==> d.wf(),
        ensures
            match spec_todo_expand(*self, from.days as int, through.days as int) {
                Ok(s) => r matches Ok(v) && v@ == s.map_values(|p: (u32, TodoDue)| p.1),
                Err(e) => r == Err::<Vec<TodoDue>, TodoError>(e),
            },
    {
        let indexed = self.expand_due_instances_indexed(from, through)?;
        let mut out: Vec<TodoDue> = Vec::new();
        let mut i: usize = 0;
        while i < indexed.len()
            invariant
                i <= indexed.len(),
                out@ == indexed@.subrange(0, i as int).map_values(|p: (u32, TodoDue)| p.1),
            decreases indexed.len() - i,
        {
            out.push(indexed[i].1.copy());
            assert(indexed@.subrange(0, i + 1) =~= indexed@.subrange(0, i as int).push(indexed@[i as int]));
            assert(out@ =~= indexed@.subrange(0, i + 1).map_values(|p: (u32, TodoDue)| p.1));
            i += 1;
        }
        assert(indexed@.subrange(0, indexed@.len() as int) =~= indexed@);
        Ok(out)
    }
}

// ── Copies ──

pub(crate) fn copy_vec<T: Copy>(v: &Vec<T>) -> (r: Vec<T>)
    ensures
        r@ == v@,
{
    let mut out: Vec<T> = Vec::new();
    let mut i: usize = 0;
    while i < v.len()
        invariant
            i <= v.len(),
            out@ == v@.subrange(0, i as int),
        decreases v.len() - i,
    {
        out.push(v[i]);
        assert(v@.subrange(0, i + 1) =~= v@.subrange(0, i as int).push(v@[i as int]));
        i += 1;
    }
    assert(v@.subrange(0, v@.len() as int) =~= v@);
    out
}

fn copy_text(s: &Option<String>) -> (r: Option<String>)
    ensures
        r == *s,
{
    match s {
        Some(v) => Some(v.clone()),
        None => None,
    }
}

impl Todo {
    /// A copy of this todo, field by field.
    pub fn copy(&self) -> (r: Todo)
        ensures
            r.id == self.id && r.title == self.title && r.due == self.due && r.recurrence
                == self.recurrence && r.reminders@ == self.reminders@ && r.priority == self.priority
                && r.project_id == self.project_id && r.tag_ids@ == self.tag_ids@
                && r.dependency_ids@ == self.dependency_ids@ && r.notes == self.notes
                && r.parent_id == self.parent_id && r.completed_at == self.completed_at
                && r.trashed_at == self.trashed_at && r.version == self.version
                && r.created_at == self.created_at && r.updated_at == self.updated_at,
    {
        Todo {
            id: self.id,
            title: self.title.clone(),
            due: match &self.due {
                Some(d) => Some(d.copy()),
                None => None,
            },
            recurrence: self.recurrence,
            reminders: copy_vec(&self.reminders),
            priority: self.priority,
            project_id: self.project_id,
            tag_ids: copy_vec(&self.tag_ids),
            dependency_ids: copy_vec(&self.dependency_ids),
            notes: copy_text(&self.notes),
            parent_id: self.parent_id,
            completed_at: self.completed_at,
            trashed_at: self.trashed_at,
            version: self.version,
            created_at: self.created_at,
            updated_at: self.updated_at,
        }
    }

    /// This todo with its dependency state, as a query shows it.
    pub fn projection(&self, blocked: bool, unmet_prerequisite_count: usize) -> (r: TodoProjection)
        ensures
            r.todo.id == self.id && r.todo.title == self.title && r.todo.due == self.due
                && r.todo.recurrence == self.recurrence && r.todo.reminders@ == self.reminders@
                && r.todo.priority == self.priority && r.todo.project_id == self.project_id
                && r.todo.tag_ids@ == self.tag_ids@ && r.todo.dependency_ids@ == self.dependency_ids@
                && r.todo.notes == self.notes && r.todo.parent_id == self.parent_id
                && r.todo.completed_at == self.completed_at && r.todo.trashed_at == self.trashed_at
                && r.todo.version == self.version && r.todo.created_at == self.created_at
                && r.todo.updated_at == self.updated_at,
            r.blocked == blocked,
            r.unmet_prerequisite_count == unmet_prerequisite_count,
    {
        TodoProjection { todo: self.copy(), blocked, unmet_prerequisite_count }
    }
}

/// A todo with its dependency state.
#[derive(Debug, Clone, PartialEq, Eq)]
pub struct TodoProjection {
    pub todo: Todo,
    pub blocked: bool,
    pub unmet_prerequisite_count: usize,
}

/// One todo waiting on another.
#[derive(Debug, Clone, Copy, PartialEq, Eq, Hash, Structural)]
pub struct TodoDependency {
    pub dependent_id: TodoId,
    pub prerequisite_id: TodoId,
}

// ── Tags and projects ──

/// A tag, with the lower-cased name it is found by.
#[derive(Debug, Clone, PartialEq, Eq)]
pub struct Tag {
    pub id: TagId,
    pub name: String,
    pub normalized_name: String,
    pub created_at: Timestamp,
    pub updated_at: Timestamp,
}

impl Tag {
    pub fn new(name: String) -> (r: Result<Tag, TodoError>)
        ensures
            match spec_todo_text_error("tag name", name@) {
                Some(e) => r == Err::<Tag, TodoError>(e),
                None => r == Err::<Tag, TodoError>(TodoError::ClockUnavailable) || (r matches Ok(t)
                    && t.name == name && t.normalized_name@ == spec_to_lowercase(name@)
                    && t.created_at == t.updated_at && t.created_at.wf() && spec_is_v7(t.id.value)
                    && spec_v7_millis(t.id.value) == spec_millis_of(t.created_at)),
            },
    {
        let name = valid_text("tag name", name)?;
        let now = match Timestamp::now() {
            Some(t) => t,
            None => return Err(TodoError::ClockUnavailable),
        };
        let normalized_name = to_lowercase(name.as_str());
        Ok(Tag { id: TagId::at(now), name, normalized_name, created_at: now, updated_at: now })
    }

    /// Check a stored tag again: its name, and that its key is its name lower-cased.
    pub fn rehydrate(self) -> (r: Result<Tag, TodoError>)
        ensures
            match spec_todo_text_error("tag name", self.name@) {
                Some(e) => r == Err::<Tag, TodoError>(e),
                None => if self.normalized_name@ == spec_to_lowercase(self.name@) {
                    r == Ok::<Tag, TodoError>(self)
                } else {
                    r matches Err(TodoError::InvalidStoredTag { reason }) && reason@ == TAG_NAME_MISMATCH@
                },
            },
    {
        let mut tag = self;
        tag.name = valid_text("tag name", tag.name)?;
        let lowered = to_lowercase(tag.name.as_str());
        if !str_eq(tag.normalized_name.as_str(), lowered.as_str()) {
            return Err(TodoError::InvalidStoredTag { reason: crate::text::string_of(crate::text::chars_of(TAG_NAME_MISMATCH).as_slice()) });
        }
        Ok(tag)
    }
}

/// A project, with the lower-cased name it is found by.
#[derive(Debug, Clone, PartialEq, Eq)]
pub struct Project {
    pub id: ProjectId,
    pub name: String,
    pub normalized_name: String,
    pub archived_at: Option<Timestamp>,
    pub version: i64,
    pub created_at: Timestamp,
    pub updated_at: Timestamp,
}

impl Project {
    /// A live project at version 1.
    pub fn new(name: String) -> (r: Result<Project, TodoError>)
        ensures
            match spec_todo_text_error("project name", name@) {
                Some(e) => r == Err::<Project, TodoError>(e),
                None => r == Err::<Project, TodoError>(TodoError::ClockUnavailable) || (r matches Ok(p)
                    && p.name == name && p.normalized_name@ == spec_to_lowercase(name@)
                    && p.archived_at is None && p.version == 1 && p.created_at == p.updated_at
                    && p.created_at.wf() && spec_is_v7(p.id.value)
                    && spec_v7_millis(p.id.value) == spec_millis_of(p.created_at)),
            },
    {
        let name = valid_text("project name", name)?;
        let now = match Timestamp::now() {
            Some(t) => t,
            None => return Err(TodoError::ClockUnavailable),
        };
        let normalized_name = to_lowercase(name.as_str());
        Ok(Project {
            id: ProjectId::at(now),
            name,
            normalized_name,
            archived_at: None,
            version: 1,
            created_at: now,
            updated_at: now,
        })
    }

    /// Check a stored project again: its name, its key, and a version of at least 1.
    pub fn rehydrate(self) -> (r: Result<Project, TodoError>)
        ensures
            match spec_todo_text_error("project name", self.name@) {
                Some(e) => r == Err::<Project, TodoError>(e),
                None => if self.normalized_name@ != spec_to_lowercase(self.name@) {
                    r matches Err(TodoError::InvalidStoredProject { reason }) && reason@ == PROJECT_NAME_MISMATCH@
                } else if self.version < 1 {
                    r matches Err(TodoError::InvalidStoredProject { reason }) && reason@ == PROJECT_VERSION_TOO_LOW@
                } else {
                    r == Ok::<Project, TodoError>(self)
                },
            },
    {
        let mut project = self;
        project.name = valid_text("project name", project.name)?;
        let lowered = to_lowercase(project.name.as_str());
        if !str_eq(project.normalized_name.as_str(), lowered.as_str()) {
            return Err(TodoError::InvalidStoredProject { reason: crate::text::string_of(crate::text::chars_of(PROJECT_NAME_MISMATCH).as_slice()) });
        }
        if project.version < 1 {
            return Err(TodoError::InvalidStoredProject { reason: crate::text::string_of(crate::text::chars_of(PROJECT_VERSION_TOO_LOW).as_slice()) });
        }
        Ok(project)
    }
}

// ── Messages ──

/// The text a todo refusal is shown with.
pub open spec fn spec_todo_error_message(e: TodoError) -> Seq<char> {
    match e {
        TodoError::InvalidIdentifier { kind, value, reason } => "invalid "@ + kind@ + " identifier '"@ + value@ + "': "@ + reason@,
        TodoError::EmptyField { field } => field@ + " must not be empty"@,
        TodoError::ControlCharacter { field } => field@ + " must not contain control characters"@,
        TodoError::InvalidStoredProject { reason } => "invalid persisted project data: "@ + reason@,
        TodoError::InvalidStoredTag { reason } => "invalid persisted tag data: "@ + reason@,
        TodoError::InvalidPriority { value } => "invalid priority '"@ + value@ + "'; expected none, low, medium, high, or urgent"@,
        TodoError::MissingTimezone => "due value requires an IANA timezone"@,
        TodoError::InvalidTimezone { timezone } => "'"@ + timezone@ + "' is not a valid IANA timezone"@,
        TodoError::OffsetTimezoneMismatch { timezone } => "due value offset does not match IANA timezone '"@ + timezone@ + "' at that instant"@,
        TodoError::InvalidRecurrenceInterval => "recurrence interval must be between 1 and 366"@,
        TodoError::InvalidRecurrenceCount => "recurrence count must be between 1 and 1000"@,
        TodoError::RecurrenceUntilNotAfterDue => "recurrence until must be after the todo due value"@,
        TodoError::RecurrenceWithoutDue => "recurrence rule requires a due value"@,
        TodoError::InvalidRecurrenceRange => "recurrence expansion range is invalid"@,
        TodoError::InvalidStoredRecurrence { reason } => "stored recurrence rule is invalid: "@ + reason@,
        TodoError::InvalidReminderOffset => "reminder offset must be between 1 and 10080 minutes"@,
        TodoError::ReminderWithoutDue => "reminders require a due value"@,
        TodoError::InvalidStoredReminder { reason } => "stored reminder data is invalid: "@ + reason@,
        TodoError::ClockUnavailable => "the system clock reads an instant before 1970 or beyond the supported range"@,
    }
}

impl TodoError {
    /// The text this refusal is shown with.
    pub fn message(&self) -> (r: String)
        ensures
            r@ == spec_todo_error_message(*self),
    {
        let mut out: Vec<char> = Vec::new();
        match self {
            TodoError::InvalidIdentifier { kind, value, reason } => {
                push_str_chars(&mut out, "invalid ");
                push_str_chars(&mut out, kind);
                push_str_chars(&mut out, " identifier '");
                push_str_chars(&mut out, value.as_str());
                push_str_chars(&mut out, "': ");
                push_str_chars(&mut out, reason.as_str());
            },
            TodoError::EmptyField { field } => {
                push_str_chars(&mut out, field);
                push_str_chars(&mut out, " must not be empty");
            },
            TodoError::ControlCharacter { field } => {
                push_str_chars(&mut out, field);
                push_str_chars(&mut out, " must not contain control characters");
            },
            TodoError::InvalidStoredProject { reason } => {
                push_str_chars(&mut out, "invalid persisted project data: ");
                push_str_chars(&mut out, reason.as_str());
            },
            TodoError::InvalidStoredTag { reason } => {
                push_str_chars(&mut out, "invalid persisted tag data: ");
                push_str_chars(&mut out, reason.as_str());
            },
            TodoError::InvalidPriority { value } => {
                push_str_chars(&mut out, "invalid priority '");
                push_str_chars(&mut out, value.as_str());
                push_str_chars(&mut out, "'; expected none, low, medium, high, or urgent");
            },
            TodoError::MissingTimezone => push_str_chars(&mut out, "due value requires an IANA timezone"),
            TodoError::InvalidTimezone { timezone } => {
                push_str_chars(&mut out, "'");
                push_str_chars(&mut out, timezone.as_str());
                push_str_chars(&mut out, "' is not a valid IANA timezone");
            },
            TodoError::OffsetTimezoneMismatch { timezone } => {
                push_str_chars(&mut out, "due value offset does not match IANA timezone '");
                push_str_chars(&mut out, timezone.as_str());
                push_str_chars(&mut out, "' at that instant");
            },
            TodoError::InvalidRecurrenceInterval => push_str_chars(&mut out, "recurrence interval must be between 1 and 366"),
            TodoError::InvalidRecurrenceCount => push_str_chars(&mut out, "recurrence count must be between 1 and 1000"),
            TodoError::RecurrenceUntilNotAfterDue => push_str_chars(&mut out, "recurrence until must be after the todo due value"),
            TodoError::RecurrenceWithoutDue => push_str_chars(&mut out, "recurrence rule requires a due value"),
            TodoError::InvalidRecurrenceRange => push_str_chars(&mut out, "recurrence expansion range is invalid"),
            TodoError::InvalidStoredRecurrence { reason } => {
                push_str_chars(&mut out, "stored recurrence rule is invalid: ");
                push_str_chars(&mut out, reason.as_str());
            },
            TodoError::InvalidReminderOffset => push_str_chars(&mut out, "reminder offset must be between 1 and 10080 minutes"),
            TodoError::ReminderWithoutDue => push_str_chars(&mut out, "reminders require a due value"),
            TodoError::InvalidStoredReminder { reason } => {
                push_str_chars(&mut out, "stored reminder data is invalid: ");
                push_str_chars(&mut out, reason.as_str());
            },
            TodoError::ClockUnavailable => push_str_chars(&mut out, "the system clock reads an instant before 1970 or beyond the supported range"),
        }
        assert(out@ =~= spec_todo_error_message(*self));
        string_of(out.as_slice())
    }
}

} // verus!
