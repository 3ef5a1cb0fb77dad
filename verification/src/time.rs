//! Civil dates, instants and IANA zones.
//!
//! A date is its day number from the Common Era, an instant its seconds from the
//! Unix epoch with the offset it was written in. Calendar arithmetic the
//! calendar crates own (month steps, zone rules) is called through the
//! functions at the end of this file, each stating what it returns.
use vstd::prelude::*;

use chrono::{Datelike, Offset, TimeZone};

verus! {

/// Day number of 1970-01-01 counted from the Common Era (0001-01-01 is day 1).
pub const UNIX_EPOCH_DAYS: i64 = 719163;
pub const SECONDS_PER_DAY: i64 = 86400;
pub const NANOS_PER_SECOND: u32 = 1_000_000_000;
/// The instants this library holds: the calendar crate's own latest second
/// (the end of its last day) less one day, so adding a zone's offset never
/// leaves the range it can represent, and the same distance before the epoch.
pub const MAX_INSTANT_SECONDS: i64 = 8_210_266_790_399;

/// Day number of the earliest date the calendar crate represents (262144 BCE, January 1).
pub const DATE_MIN_DAYS: i32 = -95_746_129;
/// Day number of the latest date the calendar crate represents (262142 CE, December 31).
pub const DATE_MAX_DAYS: i32 = 95_745_399;

pub open spec fn spec_day_in_range(days: int) -> bool {
    DATE_MIN_DAYS <= days <= DATE_MAX_DAYS
}

/// A civil date in the proleptic Gregorian calendar.
#[derive(Clone, Copy, Debug, PartialEq, Eq, Hash, PartialOrd, Ord, Structural)]
pub struct CivilDate {
    /// Day number from the Common Era: 0001-01-01 is day 1.
    pub days: i32,
}

/// A day of the week.
#[derive(Clone, Copy, Debug, PartialEq, Eq, Hash, Structural)]
pub enum Weekday {
    Mon,
    Tue,
    Wed,
    Thu,
    Fri,
    Sat,
    Sun,
}

/// Days after Monday, as `Weekday::num_days_from_monday` numbers them.
pub open spec fn spec_weekday_index(w: Weekday) -> int {
    match w {
        Weekday::Mon => 0,
        Weekday::Tue => 1,
        Weekday::Wed => 2,
        Weekday::Thu => 3,
        Weekday::Fri => 4,
        Weekday::Sat => 5,
        Weekday::Sun => 6,
    }
}

impl Weekday {
    pub fn num_days_from_monday(self) -> (r: u32)
        ensures
            r == spec_weekday_index(self),
            r < 7,
    {
        match self {
            Weekday::Mon => 0,
            Weekday::Tue => 1,
            Weekday::Wed => 2,
            Weekday::Thu => 3,
            Weekday::Fri => 4,
            Weekday::Sat => 5,
            Weekday::Sun => 6,
        }
    }

    pub fn same(self, other: Weekday) -> (r: bool)
        ensures
            r == (self == other),
    {
        self.num_days_from_monday() == other.num_days_from_monday()
    }
}

/// The weekday of a day number: 0001-01-01 was a Monday.
pub open spec fn spec_weekday_of(days: int) -> int {
    (days - 1) % 7
}

impl CivilDate {
    /// A date the calendar can represent.
    pub open spec fn wf(self) -> bool {
        spec_day_in_range(self.days as int)
    }

    /// The UTC date of the current time, when the clock reads an instant this
    /// library holds.
    pub fn today_utc() -> (r: Option<CivilDate>)
        ensures
            r matches Some(d) ==> d.wf(),
    {
        match Timestamp::now() {
            Some(now) => Some(now.at_utc().local_date()),
            None => None,
        }
    }

    /// A date written `YYYY-MM-DD`, as the calendar crate reads that format.
    pub fn parse_iso(text: &str) -> (r: Option<CivilDate>)
        ensures
            r is None <==> crate::ics::spec_parse_date(text@, "%Y-%m-%d"@) is None,
            r matches Some(d) ==> crate::ics::spec_parse_date(text@, "%Y-%m-%d"@) == Some(d.days as int) && d.wf(),
    {
        crate::ics::parse_date(text, "%Y-%m-%d")
    }

    /// Whether this date is one the calendar holds.
    pub fn is_in_range(self) -> (r: bool)
        ensures
            r == self.wf(),
    {
        DATE_MIN_DAYS <= self.days && self.days <= DATE_MAX_DAYS
    }

    pub fn weekday_index(self) -> (r: u32)
        ensures
            r == spec_weekday_of(self.days as int),
            r < 7,
    {
        let shifted: i64 = self.days as i64 - 1 + 2_170_000_000;
        let u: u64 = shifted as u64;
        let r: u64 = u % 7;
        proof {
            let d = self.days as int - 1;
            assert(2_170_000_000int == 7 * 310_000_000);
            vstd::arithmetic::div_mod::lemma_mod_multiples_vanish(310_000_000, d, 7);
        }
        r as u32
    }

    /// This date's weekday.
    pub fn weekday(self) -> (r: Weekday)
        ensures
            spec_weekday_index(r) == spec_weekday_of(self.days as int),
    {
        let i = self.weekday_index();
        if i == 0 {
            Weekday::Mon
        } else if i == 1 {
            Weekday::Tue
        } else if i == 2 {
            Weekday::Wed
        } else if i == 3 {
            Weekday::Thu
        } else if i == 4 {
            Weekday::Fri
        } else if i == 5 {
            Weekday::Sat
        } else {
            Weekday::Sun
        }
    }

    pub fn is_before(self, other: CivilDate) -> (r: bool)
        ensures
            r == (self.days < other.days),
    {
        self.days < other.days
    }

    pub fn same_day(self, other: CivilDate) -> (r: bool)
        ensures
            r == (self.days == other.days),
    {
        self.days == other.days
    }

    /// The date `n` days later, when the calendar can represent it.
    pub fn checked_add_days(self, n: u64) -> (r: Option<CivilDate>)
        ensures
            r matches Some(d) ==> d.days == self.days + n && d.wf(),
            self.wf() ==> (r is Some <==> spec_day_in_range(self.days + n)),
    {
        civil_add_days(self, n)
    }

    /// The date `n` days earlier, when the calendar can represent it.
    pub fn checked_sub_days(self, n: u64) -> (r: Option<CivilDate>)
        ensures
            r matches Some(d) ==> d.days == self.days - n && d.wf(),
            self.wf() ==> (r is Some <==> spec_day_in_range(self.days - n)),
    {
        civil_sub_days(self, n)
    }

    /// The next day.
    pub fn succ(self) -> (r: Option<CivilDate>)
        ensures
            r matches Some(d) ==> d.days == self.days + 1 && d.wf(),
            self.wf() ==> (r is Some <==> spec_day_in_range(self.days + 1)),
    {
        civil_add_days(self, 1)
    }

    /// The previous day.
    pub fn pred(self) -> (r: Option<CivilDate>)
        ensures
            r matches Some(d) ==> d.days == self.days - 1 && d.wf(),
            self.wf() ==> (r is Some <==> spec_day_in_range(self.days - 1)),
    {
        civil_sub_days(self, 1)
    }

    /// The same day of the month `n` months later, clamped to the month's end.
    pub fn checked_add_months(self, n: u32) -> (r: Option<CivilDate>)
        ensures
            r is None <==> spec_add_months(self.days as int, n as int) is None,
            r matches Some(d) ==> spec_add_months(self.days as int, n as int) == Some(d.days as int) && d.wf(),
    {
        civil_add_months(self, n)
    }

    /// The date with a year, month and day, when it exists.
    pub fn from_ymd(year: i32, month: u32, day: u32) -> (r: Option<CivilDate>)
        ensures
            r is None <==> spec_ymd_days(year as int, month as int, day as int) is None,
            r matches Some(d) ==> spec_ymd_days(year as int, month as int, day as int) == Some(d.days as int) && d.wf(),
    {
        civil_from_ymd(year, month, day)
    }
}

/// An instant in UTC.
#[derive(Clone, Copy, Debug, PartialEq, Eq, Hash, PartialOrd, Ord, Structural)]
pub struct Timestamp {
    /// Seconds from 1970-01-01T00:00:00Z.
    pub seconds: i64,
    /// The fraction of the second, in nanoseconds.
    pub nanos: u32,
}

/// An instant together with the UTC offset it is written in.
#[derive(Clone, Copy, Debug, PartialEq, Eq, Hash, Structural)]
pub struct OffsetDateTime {
    /// Seconds from 1970-01-01T00:00:00Z.
    pub seconds: i64,
    /// The fraction of the second, in nanoseconds.
    pub nanos: u32,
    /// Local time minus UTC, in seconds.
    pub offset: i32,
}

pub open spec fn spec_seconds_in_range(s: int) -> bool {
    -MAX_INSTANT_SECONDS <= s <= MAX_INSTANT_SECONDS
}

pub open spec fn spec_offset_in_range(o: int) -> bool {
    -86400 < o < 86400
}

/// Strict order of two instants given as seconds and nanoseconds.
pub open spec fn spec_instant_lt(s1: int, n1: int, s2: int, n2: int) -> bool {
    s1 < s2 || (s1 == s2 && n1 < n2)
}

impl Timestamp {
    pub open spec fn wf(self) -> bool {
        spec_seconds_in_range(self.seconds as int) && self.nanos < NANOS_PER_SECOND
    }

    pub open spec fn spec_lt(self, other: Timestamp) -> bool {
        spec_instant_lt(self.seconds as int, self.nanos as int, other.seconds as int, other.nanos as int)
    }

    /// Whether this instant is one this library holds.
    pub fn is_in_range(&self) -> (r: bool)
        ensures
            r == self.wf(),
    {
        -MAX_INSTANT_SECONDS <= self.seconds && self.seconds <= MAX_INSTANT_SECONDS && self.nanos < NANOS_PER_SECOND
    }

    pub fn is_before(&self, other: &Timestamp) -> (r: bool)
        ensures
            r == self.spec_lt(*other),
    {
        self.seconds < other.seconds || (self.seconds == other.seconds && self.nanos < other.nanos)
    }

    pub fn same_instant(&self, other: &Timestamp) -> (r: bool)
        ensures
            r == (*self == *other),
    {
        self.seconds == other.seconds && self.nanos == other.nanos
    }

    /// The current time, when the system clock reads an instant from the
    /// Unix epoch on that this library holds.
    pub fn now() -> (r: Option<Timestamp>)
        ensures
            r matches Some(t) ==> t.wf() && t.seconds >= 0,
    {
        let reading = system_time_now();
        match since_unix_epoch(&reading) {
            Some((seconds, nanos)) => if seconds <= MAX_INSTANT_SECONDS as u64 {
                Some(Timestamp { seconds: seconds as i64, nanos })
            } else {
                None
            },
            None => None,
        }
    }

    /// An instant from its seconds and nanoseconds, when this library can hold it.
    pub fn from_parts(seconds: i64, nanos: u32) -> (r: Option<Timestamp>)
        ensures
            r is Some <==> (spec_seconds_in_range(seconds as int) && nanos < NANOS_PER_SECOND),
            r matches Some(t) ==> t.seconds == seconds && t.nanos == nanos,
    {
        if -MAX_INSTANT_SECONDS <= seconds && seconds <= MAX_INSTANT_SECONDS && nanos < NANOS_PER_SECOND {
            Some(Timestamp { seconds, nanos })
        } else {
            None
        }
    }

    /// This instant written at offset zero.
    pub fn at_utc(&self) -> (r: OffsetDateTime)
        ensures
            r.seconds == self.seconds && r.nanos == self.nanos && r.offset == 0,
    {
        OffsetDateTime { seconds: self.seconds, nanos: self.nanos, offset: 0 }
    }
}

impl OffsetDateTime {
    pub open spec fn wf(self) -> bool {
        &&& spec_seconds_in_range(self.seconds as int)
        &&& self.nanos < NANOS_PER_SECOND
        &&& spec_offset_in_range(self.offset as int)
    }

    pub open spec fn spec_lt(self, other: OffsetDateTime) -> bool {
        spec_instant_lt(self.seconds as int, self.nanos as int, other.seconds as int, other.nanos as int)
    }

    /// Local wall-clock seconds from the epoch.
    pub open spec fn spec_local_seconds(self) -> int {
        self.seconds + self.offset
    }

    /// The civil date of the local wall clock.
    pub open spec fn spec_local_days(self) -> int {
        self.spec_local_seconds() / SECONDS_PER_DAY as int + UNIX_EPOCH_DAYS
    }

    /// Seconds since the local midnight.
    pub open spec fn spec_local_second_of_day(self) -> int {
        self.spec_local_seconds() % SECONDS_PER_DAY as int
    }

    pub fn is_before(&self, other: &OffsetDateTime) -> (r: bool)
        ensures
            r == self.spec_lt(*other),
    {
        self.seconds < other.seconds || (self.seconds == other.seconds && self.nanos < other.nanos)
    }

    /// The same instant, whatever the offsets it is written in.
    pub fn same_instant(&self, other: &OffsetDateTime) -> (r: bool)
        ensures
            r == (self.seconds == other.seconds && self.nanos == other.nanos),
    {
        self.seconds == other.seconds && self.nanos == other.nanos
    }

    /// An instant from its parts, when this library can hold it.
    pub fn from_parts(seconds: i64, nanos: u32, offset: i32) -> (r: Option<OffsetDateTime>)
        ensures
            r is Some <==> (spec_seconds_in_range(seconds as int) && nanos < NANOS_PER_SECOND
                && spec_offset_in_range(offset as int)),
            r matches Some(t) ==> t.seconds == seconds && t.nanos == nanos && t.offset == offset,
    {
        if -MAX_INSTANT_SECONDS <= seconds && seconds <= MAX_INSTANT_SECONDS && nanos
            < NANOS_PER_SECOND && -86400 < offset && offset < 86400 {
            Some(OffsetDateTime { seconds, nanos, offset })
        } else {
            None
        }
    }

    /// Read an RFC 3339 timestamp such as `2026-08-24T09:00:00-07:00`.
    pub fn parse_rfc3339(text: &str) -> (r: Option<OffsetDateTime>)
        ensures
            r is Some <==> (spec_parse_rfc3339(text@) matches Some(p) && spec_seconds_in_range(p.0)
                && p.1 < NANOS_PER_SECOND),
            r matches Some(t) ==> spec_parse_rfc3339(text@) == Some(
                (t.seconds as int, t.nanos as int, t.offset as int),
            ) && t.wf(),
    {
        match parse_rfc3339_parts(text) {
            Some((seconds, nanos, offset)) => {
                if -MAX_INSTANT_SECONDS <= seconds && seconds <= MAX_INSTANT_SECONDS && nanos
                    < NANOS_PER_SECOND {
                    Some(OffsetDateTime { seconds, nanos, offset })
                } else {
                    None
                }
            },
            None => None,
        }
    }

    /// The instant in UTC.
    pub fn to_utc(&self) -> (r: Timestamp)
        ensures
            r.seconds == self.seconds && r.nanos == self.nanos,
    {
        Timestamp { seconds: self.seconds, nanos: self.nanos }
    }

    /// The civil date the local wall clock shows.
    pub fn local_date(&self) -> (r: CivilDate)
        requires
            self.wf(),
        ensures
            r.days == self.spec_local_days(),
            r.wf(),
    {
        let local: i64 = self.seconds + self.offset as i64;
        let shifted: u64 = (local + 8_640_000_000_000) as u64;
        let q: u64 = shifted / 86400;
        proof {
            let l = local as int;
            assert(8_640_000_000_000int == 86400 * 100_000_000);
            vstd::arithmetic::div_mod::lemma_hoist_over_denominator(l, 100_000_000, 86400);
        }
        let days: i64 = q as i64 - 100_000_000 + UNIX_EPOCH_DAYS;
        CivilDate { days: days as i32 }
    }

    /// Seconds since local midnight on the wall clock.
    pub fn local_second_of_day(&self) -> (r: u32)
        requires
            self.wf(),
        ensures
            r == self.spec_local_second_of_day(),
            r < 86400,
    {
        let local: i64 = self.seconds + self.offset as i64;
        let shifted: u64 = (local + 8_640_000_000_000) as u64;
        let m: u64 = shifted % 86400;
        proof {
            let l = local as int;
            assert(8_640_000_000_000int == 86400 * 100_000_000);
            vstd::arithmetic::div_mod::lemma_mod_multiples_vanish(100_000_000, l, 86400);
        }
        m as u32
    }
}


/// What a local wall-clock time maps to in a zone.
#[derive(Clone, Copy, Debug, PartialEq, Eq)]
pub enum LocalMapping {
    /// The local time does not exist there, or could not be resolved.
    Gap,
    /// One instant, at this offset.
    Single(i32),
    /// Two instants, at these offsets (earlier first).
    Fold(i32, i32),
}

// ── The calendar crates ──

/// The day number `chrono::NaiveDate::from_ymd_opt` gives a year, month and day.
pub uninterp spec fn spec_ymd_days(year: int, month: int, day: int) -> Option<int>;

/// The day number `chrono::NaiveDate::checked_add_months` gives.
pub uninterp spec fn spec_add_months(days: int, months: int) -> Option<int>;



/// Whether `chrono_tz` knows a zone by this name.
pub uninterp spec fn spec_tz_known(name: Seq<char>) -> bool;

/// The offset, in seconds east of UTC, a zone has at an instant.
pub uninterp spec fn spec_tz_offset_at(name: Seq<char>, seconds: int) -> int;

/// How a zone maps a local wall-clock second.
pub uninterp spec fn spec_tz_from_local(name: Seq<char>, local_seconds: int) -> LocalMapping;

/// Adding months to an instant in a zone: seconds, nanoseconds and offset of the result.
pub uninterp spec fn spec_tz_add_months(
    name: Seq<char>,
    seconds: int,
    nanos: int,
    months: int,
) -> Option<(int, int, int)>;

/// Seconds, nanoseconds and offset of an RFC 3339 text.
pub uninterp spec fn spec_parse_rfc3339(text: Seq<char>) -> Option<(int, int, int)>;

/// Calls `chrono::NaiveDate::from_ymd_opt`; the result's day number is the
/// named one, `None` when no such date exists.
#[verifier::external_body]
fn civil_from_ymd(year: i32, month: u32, day: u32) -> (r: Option<CivilDate>)
    ensures
        r is None <==> spec_ymd_days(year as int, month as int, day as int) is None,
        r matches Some(d) ==> spec_ymd_days(year as int, month as int, day as int) == Some(d.days as int) && d.wf(),
{
    match chrono::NaiveDate::from_ymd_opt(year, month, day) {
        Some(d) => Some(CivilDate { days: d.num_days_from_ce() }),
        None => None,
    }
}

/// Calls `chrono::NaiveDate::checked_add_days`: a result is the date `n` days
/// later, and there is one exactly when that date is within the calendar's range.
#[verifier::external_body]
fn civil_add_days(date: CivilDate, n: u64) -> (r: Option<CivilDate>)
    ensures
        r matches Some(d) ==> d.days == date.days + n && d.wf(),
        date.wf() ==> (r is Some <==> spec_day_in_range(date.days + n)),
{
    let start = chrono::NaiveDate::from_num_days_from_ce_opt(date.days)?;
    match start.checked_add_days(chrono::Days::new(n)) {
        Some(d) => Some(CivilDate { days: d.num_days_from_ce() }),
        None => None,
    }
}

/// Calls `chrono::NaiveDate::checked_sub_days`: a result is the date `n` days
/// earlier, and there is one exactly when that date is within the calendar's range.
#[verifier::external_body]
fn civil_sub_days(date: CivilDate, n: u64) -> (r: Option<CivilDate>)
    ensures
        r matches Some(d) ==> d.days == date.days - n && d.wf(),
        date.wf() ==> (r is Some <==> spec_day_in_range(date.days - n)),
{
    let start = chrono::NaiveDate::from_num_days_from_ce_opt(date.days)?;
    match start.checked_sub_days(chrono::Days::new(n)) {
        Some(d) => Some(CivilDate { days: d.num_days_from_ce() }),
        None => None,
    }
}

/// Calls `chrono::NaiveDate::checked_add_months`; the result is the named one.
#[verifier::external_body]
fn civil_add_months(date: CivilDate, n: u32) -> (r: Option<CivilDate>)
    ensures
        r is None <==> spec_add_months(date.days as int, n as int) is None,
        r matches Some(d) ==> spec_add_months(date.days as int, n as int) == Some(d.days as int) && d.wf(),
{
    let start = chrono::NaiveDate::from_num_days_from_ce_opt(date.days)?;
    match start.checked_add_months(chrono::Months::new(n)) {
        Some(d) => Some(CivilDate { days: d.num_days_from_ce() }),
        None => None,
    }
}

#[verifier::external_type_specification]
#[verifier::external_body]
pub struct ExSystemTime(std::time::SystemTime);

/// Calls `std::time::SystemTime::now`: the system clock's reading. Nothing is
/// stated of it; it depends on the time.
#[verifier::external_body]
fn system_time_now() -> std::time::SystemTime {
    std::time::SystemTime::now()
}

/// Calls `std::time::SystemTime::duration_since` with the Unix epoch: the
/// whole seconds and the nanoseconds of the fraction after the epoch, or none
/// for a reading before it. The fraction is always under one second.
#[verifier::external_body]
fn since_unix_epoch(reading: &std::time::SystemTime) -> (r: Option<(u64, u32)>)
    ensures
        r matches Some(p) ==> p.1 < NANOS_PER_SECOND,
{
    match reading.duration_since(std::time::UNIX_EPOCH) {
        Ok(elapsed) => Some((elapsed.as_secs(), elapsed.subsec_nanos())),
        Err(_) => None,
    }
}

/// Calls `chrono::DateTime::parse_from_rfc3339`: the named seconds, nanoseconds
/// and offset; an offset chrono accepted lies strictly within one day.
#[verifier::external_body]
fn parse_rfc3339_parts(text: &str) -> (r: Option<(i64, u32, i32)>)
    ensures
        r matches Some(p) ==> spec_parse_rfc3339(text@) == Some((p.0 as int, p.1 as int, p.2 as int))
            && spec_offset_in_range(p.2 as int),
        r is None ==> spec_parse_rfc3339(text@) is None,
{
    match chrono::DateTime::parse_from_rfc3339(text) {
        Ok(d) => Some((d.timestamp(), d.timestamp_subsec_nanos(), d.offset().local_minus_utc())),
        Err(_) => None,
    }
}

/// Calls `str::parse::<chrono_tz::Tz>`: whether the zone is known.
#[verifier::external_body]
pub(crate) fn tz_known(name: &str) -> (r: bool)
    ensures
        r == spec_tz_known(name@),
{
    name.parse::<chrono_tz::Tz>().is_ok()
}

/// Calls `chrono_tz::Tz::offset_from_utc_datetime`: the zone's offset at an
/// instant, `None` for an unknown zone. Every offset a zone reports lies
/// strictly within one day, and an instant this library holds is one the
/// calendar crate can convert.
#[verifier::external_body]
pub(crate) fn tz_offset_at(name: &str, seconds: i64) -> (r: Option<i32>)
    ensures
        r matches Some(o) ==> spec_tz_known(name@) && o == spec_tz_offset_at(name@, seconds as int)
            && spec_offset_in_range(o as int),
        spec_tz_known(name@) && spec_seconds_in_range(seconds as int) ==> r is Some,
{
    let zone = match name.parse::<chrono_tz::Tz>() {
        Ok(zone) => zone,
        Err(_) => return None,
    };
    let instant = chrono::DateTime::from_timestamp(seconds, 0)?;
    Some(zone.offset_from_utc_datetime(&instant.naive_utc()).fix().local_minus_utc())
}

/// Calls `chrono_tz::Tz::from_local_datetime` on a local wall-clock second.
/// The mapping is the named one; an unknown zone maps nothing, and each
/// offset found is the zone's own offset at the instant it names.
#[verifier::external_body]
pub(crate) fn tz_from_local(name: &str, local_seconds: i64, nanos: u32) -> (r: LocalMapping)
    requires
        nanos < NANOS_PER_SECOND,
    ensures
        r == spec_tz_from_local(name@, local_seconds as int),
        !spec_tz_known(name@) ==> r == LocalMapping::Gap,
        r matches LocalMapping::Single(o) ==> spec_offset_in_range(o as int)
            && spec_tz_offset_at(name@, local_seconds - o) == o,
        r matches LocalMapping::Fold(a, b) ==> spec_offset_in_range(a as int)
            && spec_offset_in_range(b as int)
            && spec_tz_offset_at(name@, local_seconds - a) == a
            && spec_tz_offset_at(name@, local_seconds - b) == b,
{
    let (Ok(zone), Some(at)) = (name.parse::<chrono_tz::Tz>(), chrono::DateTime::from_timestamp(local_seconds, nanos)) else {
        return LocalMapping::Gap;
    };
    match zone.from_local_datetime(&at.naive_utc()) {
        chrono::LocalResult::Single(value) => LocalMapping::Single(value.offset().fix().local_minus_utc()),
        chrono::LocalResult::Ambiguous(first, second) => LocalMapping::Fold(
            first.offset().fix().local_minus_utc(),
            second.offset().fix().local_minus_utc(),
        ),
        chrono::LocalResult::None => LocalMapping::Gap,
    }
}

/// Calls `chrono::DateTime::<chrono_tz::Tz>::checked_add_months` on an instant
/// in a zone; the seconds, nanoseconds and offset of the result are the named
/// ones, and a result's offset lies strictly within one day.
#[verifier::external_body]
pub(crate) fn tz_add_months(name: &str, seconds: i64, nanos: u32, months: u32) -> (r: Option<(i64, u32, i32)>)
    ensures
        r matches Some(p) ==> spec_tz_add_months(name@, seconds as int, nanos as int, months as int)
            == Some((p.0 as int, p.1 as int, p.2 as int)) && spec_offset_in_range(p.2 as int),
        r is None ==> spec_tz_add_months(name@, seconds as int, nanos as int, months as int) is None,
{
    let zone = name.parse::<chrono_tz::Tz>().ok()?;
    let instant = chrono::DateTime::from_timestamp(seconds, nanos)?.with_timezone(&zone);
    match instant.checked_add_months(chrono::Months::new(months)) {
        Some(d) => Some((d.timestamp(), d.timestamp_subsec_nanos(), d.offset().fix().local_minus_utc())),
        None => None,
    }
}

} // verus!
