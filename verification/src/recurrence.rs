//! Expanding an event's repeat rule into the occurrences a window holds.
use vstd::prelude::*;

use crate::domain::{
    DomainError, EventFrequency, EventRecurrence, EventTime, MAX_RECURRENCE_STEPS, spec_timed_error,
};
use crate::time::{
    CivilDate, DATE_MAX_DAYS, DATE_MIN_DAYS, LocalMapping, MAX_INSTANT_SECONDS, OffsetDateTime,
    SECONDS_PER_DAY, UNIX_EPOCH_DAYS, Weekday, spec_add_months, spec_day_in_range,
    spec_seconds_in_range, spec_tz_from_local, spec_tz_known, spec_tz_offset_at,
    spec_weekday_index, spec_weekday_of, tz_from_local, tz_known, tz_offset_at,
};

verus! {

// ── Which days a weekly rule names ──

/// Whether a weekday set names the day `d` days after Monday.
pub open spec fn spec_set_has(days: Seq<Weekday>, d: int) -> bool {
    exists|i: int| 0 <= i < days.len() && spec_weekday_index(#[trigger] days[i]) == d
}

/// The named days below `d`, as days after Monday, in ascending order.
pub open spec fn spec_offsets_below(days: Seq<Weekday>, d: int) -> Seq<int>
    decreases d,
{
    if d <= 0 {
        Seq::empty()
    } else if spec_set_has(days, d - 1) {
        spec_offsets_below(days, d - 1).push(d - 1)
    } else {
        spec_offsets_below(days, d - 1)
    }
}

/// The days after Monday a weekly rule lands on: those it names, or the
/// weekday the event starts on when it names none.
pub open spec fn spec_rule_offsets(rule: EventRecurrence, start: int) -> Seq<int> {
    if rule.by_weekday@.len() == 0 {
        seq![spec_weekday_of(start)]
    } else {
        spec_offsets_below(rule.by_weekday@, 7)
    }
}

pub open spec fn spec_ascending(s: Seq<int>) -> bool {
    forall|i: int, j: int| 0 <= i < j < s.len() ==> s[i] < s[j]
}

proof fn lemma_offsets_below(days: Seq<Weekday>, d: int)
    requires
        0 <= d <= 7,
    ensures
        spec_ascending(spec_offsets_below(days, d)),
        forall|i: int| 0 <= i < spec_offsets_below(days, d).len() ==> 0 <= #[trigger] spec_offsets_below(days, d)[i] < d,
        forall|x: int| 0 <= x < d && spec_set_has(days, x) ==> spec_offsets_below(days, d).contains(x),
        days.len() > 0 && d == 7 ==> spec_offsets_below(days, d).len() > 0,
    decreases d,
{
    if d > 0 {
        lemma_offsets_below(days, d - 1);
        let prev = spec_offsets_below(days, d - 1);
        if spec_set_has(days, d - 1) {
            assert(spec_offsets_below(days, d) == prev.push(d - 1));
            assert forall|x: int| 0 <= x < d && spec_set_has(days, x) implies spec_offsets_below(days, d).contains(x) by {
                if x < d - 1 {
                    let k = choose|k: int| 0 <= k < prev.len() && prev[k] == x;
                    assert(prev.push(d - 1)[k] == x);
                } else {
                    assert(prev.push(d - 1)[prev.len() as int] == x);
                }
            }
        } else {
            assert forall|x: int| 0 <= x < d && spec_set_has(days, x) implies spec_offsets_below(days, d).contains(x) by {
                assert(x != d - 1);
            }
        }
        if days.len() > 0 && d == 7 {
            let w = days[0];
            assert(spec_set_has(days, spec_weekday_index(w)));
            assert(spec_offsets_below(days, d).contains(spec_weekday_index(w)));
        }
    }
}

proof fn lemma_rule_offsets(rule: EventRecurrence, start: int)
    ensures
        spec_ascending(spec_rule_offsets(rule, start)),
        spec_rule_offsets(rule, start).len() > 0,
        forall|i: int| 0 <= i < spec_rule_offsets(rule, start).len() ==> 0 <= #[trigger] spec_rule_offsets(rule, start)[i] < 7,
{
    if rule.by_weekday@.len() > 0 {
        lemma_offsets_below(rule.by_weekday@, 7);
    }
}

impl EventRecurrence {
    /// The days after Monday this rule lands on, ascending.
    fn weekday_offsets(&self, start: CivilDate) -> (r: Vec<u32>)
        ensures
            r@.map_values(|o: u32| o as int) == spec_rule_offsets(*self, start.days as int),
    {
        let mut out: Vec<u32> = Vec::new();
        if self.by_weekday.len() == 0 {
            out.push(start.weekday_index());
            assert(out@.map_values(|o: u32| o as int) =~= seq![spec_weekday_of(start.days as int)]);
            return out;
        }
        let ghost days = self.by_weekday@;
        let mut d: u32 = 0;
        while d < 7
            invariant
                d <= 7,
                days == self.by_weekday@,
                out@.map_values(|o: u32| o as int) == spec_offsets_below(days, d as int),
            decreases 7 - d,
        {
            let mut found = false;
            let mut i: usize = 0;
            while i < self.by_weekday.len()
                invariant
                    days == self.by_weekday@,
                    i <= self.by_weekday.len(),
                    found == exists|k: int| 0 <= k < i && spec_weekday_index(#[trigger] days[k]) == d,
                decreases self.by_weekday.len() - i,
            {
                if self.by_weekday[i].num_days_from_monday() == d {
                    found = true;
                }
                i += 1;
            }
            assert(found == spec_set_has(days, d as int));
            if found {
                out.push(d);
                assert(out@.map_values(|o: u32| o as int) =~= spec_offsets_below(days, d as int).push(d as int));
            }
            d += 1;
        }
        out
    }
}

// ── Every date a rule lands on ──

/// Days a daily rule produces before it stops: the runaway bound, or the
/// calendar's last representable day.
pub open spec fn spec_daily_len(start: int, interval: int) -> int {
    let within = (DATE_MAX_DAYS - start) / interval + 1;
    if within < MAX_RECURRENCE_STEPS {
        within
    } else {
        MAX_RECURRENCE_STEPS as int
    }
}

/// How many month steps succeed from step `k` on, up to the runaway bound.
pub open spec fn spec_monthly_len(start: int, interval: int, k: int) -> int
    decreases MAX_RECURRENCE_STEPS - k,
{
    if k >= MAX_RECURRENCE_STEPS || spec_add_months(start, interval * k) is None {
        k
    } else {
        spec_monthly_len(start, interval, k + 1)
    }
}

/// The dates of one week that a weekly rule keeps: on or after the start, and
/// within the calendar's range, for the first `j` offsets.
pub open spec fn spec_week_dates(week: int, offsets: Seq<int>, start: int, j: int) -> Seq<int>
    decreases j,
{
    if j <= 0 {
        Seq::empty()
    } else {
        let prev = spec_week_dates(week, offsets, start, j - 1);
        let d = week + offsets[j - 1];
        if start <= d && d <= DATE_MAX_DAYS {
            prev.push(d)
        } else {
            prev
        }
    }
}

/// A weekly series week by week from `week`, after the dates `sofar`: a week
/// is taken whole, the series stops at the runaway bound, and at the
/// calendar's range.
pub open spec fn spec_weekly_from(
    offsets: Seq<int>,
    start: int,
    step: int,
    week: int,
    sofar: Seq<int>,
    fuel: nat,
) -> Seq<int>
    decreases fuel,
{
    if fuel == 0 || sofar.len() >= MAX_RECURRENCE_STEPS {
        sofar
    } else {
        let taken = sofar + spec_week_dates(week, offsets, start, offsets.len() as int);
        if week + offsets.last() > DATE_MAX_DAYS || week + step > DATE_MAX_DAYS {
            taken
        } else {
            spec_weekly_from(offsets, start, step, week + step, taken, (fuel - 1) as nat)
        }
    }
}

/// Every date a rule lands on from its start date, as day numbers, in order.
pub open spec fn spec_occurrences(rule: EventRecurrence, start: int) -> Seq<int> {
    let i = rule.interval as int;
    match rule.frequency {
        EventFrequency::Daily => Seq::new(spec_daily_len(start, i) as nat, |k: int| start + k * i),
        EventFrequency::Monthly => Seq::new(
            spec_monthly_len(start, i, 0) as nat,
            |k: int| spec_add_months(start, i * k)->0,
        ),
        EventFrequency::Weekly => {
            let week = start - spec_weekday_of(start);
            if week < DATE_MIN_DAYS {
                Seq::empty()
            } else {
                spec_weekly_from(
                    spec_rule_offsets(rule, start),
                    start,
                    7 * i,
                    week,
                    Seq::empty(),
                    (MAX_RECURRENCE_STEPS + 1) as nat,
                )
            }
        },
    }
}

pub open spec fn spec_days_of(dates: Seq<CivilDate>) -> Seq<int> {
    dates.map_values(|d: CivilDate| d.days as int)
}

proof fn lemma_push_days(dates: Seq<CivilDate>, d: CivilDate)
    ensures
        spec_days_of(dates.push(d)) == spec_days_of(dates).push(d.days as int),
{
    assert(spec_days_of(dates.push(d)) =~= spec_days_of(dates).push(d.days as int));
}

impl EventRecurrence {
    /// Every date this rule lands on, in order, starting at the base date.
    fn occurrence_dates(&self, start: CivilDate) -> (r: Vec<CivilDate>)
        requires
            self.spec_error() is None,
            start.wf(),
        ensures
            spec_days_of(r@) == spec_occurrences(*self, start.days as int),
            forall|k: int| 0 <= k < r@.len() ==> (#[trigger] r@[k]).wf(),
    {
        match self.frequency {
            EventFrequency::Daily => self.daily_dates(start),
            EventFrequency::Monthly => self.monthly_dates(start),
            EventFrequency::Weekly => self.weekly_dates(start),
        }
    }

    fn daily_dates(&self, start: CivilDate) -> (r: Vec<CivilDate>)
        requires
            self.spec_error() is None,
            self.frequency == EventFrequency::Daily,
            start.wf(),
        ensures
            spec_days_of(r@) == spec_occurrences(*self, start.days as int),
            forall|k: int| 0 <= k < r@.len() ==> (#[trigger] r@[k]).wf(),
    {
        let i = self.interval;
        let ghost gi = i as int;
        let ghost s = start.days as int;
        let mut dates: Vec<CivilDate> = Vec::new();
        let mut date = start;
        while dates.len() < MAX_RECURRENCE_STEPS as usize
            invariant
                1 <= gi <= 366,
                gi == i,
                self.interval == i,
                self.frequency == EventFrequency::Daily,
                s == start.days,
                spec_day_in_range(s),
                dates@.len() <= MAX_RECURRENCE_STEPS,
                date.days == s + dates@.len() * gi,
                date.wf(),
                forall|k: int| 0 <= k < dates@.len() ==> (#[trigger] dates@[k]).days == s + k * gi,
                forall|k: int| 0 <= k < dates@.len() ==> (#[trigger] dates@[k]).wf(),
            decreases MAX_RECURRENCE_STEPS - dates@.len(),
        {
            dates.push(date);
            match date.checked_add_days(i as u64) {
                Some(next) => {
                    proof {
                        let n = dates@.len() as int;
                        assert(next.days == s + n * gi) by (nonlinear_arith)
                            requires next.days == date.days + gi, date.days == s + (n - 1) * gi;
                    }
                    date = next;
                },
                None => {
                    proof {
                        let n = dates@.len() as int;
                        assert(s + n * gi > DATE_MAX_DAYS) by (nonlinear_arith)
                            requires
                                date.days == s + (n - 1) * gi,
                                !spec_day_in_range(date.days + gi),
                                date.days >= DATE_MIN_DAYS,
                                gi >= 1;
                        assert(s + (n - 1) * gi <= DATE_MAX_DAYS);
                        lemma_daily_len(s, gi, n);
                        assert(spec_days_of(dates@) =~= spec_occurrences(*self, s));
                    }
                    return dates;
                },
            }
        }
        proof {
            let n = dates@.len() as int;
            assert(n == MAX_RECURRENCE_STEPS);
            assert(s + (n - 1) * gi <= DATE_MAX_DAYS) by (nonlinear_arith)
                requires dates@[n - 1].days == s + (n - 1) * gi, dates@[n - 1].wf(), n >= 1;
            lemma_daily_len_full(s, gi);
            assert(spec_days_of(dates@) =~= spec_occurrences(*self, s));
        }
        dates
    }

    fn weekly_dates(&self, start: CivilDate) -> (r: Vec<CivilDate>)
        requires
            self.spec_error() is None,
            self.frequency == EventFrequency::Weekly,
            start.wf(),
        ensures
            spec_days_of(r@) == spec_occurrences(*self, start.days as int),
            forall|k: int| 0 <= k < r@.len() ==> (#[trigger] r@[k]).wf(),
    {
        let ghost s = start.days as int;
        let offsets = self.weekday_offsets(start);
        let ghost offs = spec_rule_offsets(*self, s);
        proof {
            lemma_rule_offsets(*self, s);
        }
        let mut dates: Vec<CivilDate> = Vec::new();
        let wd = start.weekday_index();
        let week0 = match start.checked_sub_days(wd as u64) {
            Some(w) => w,
            None => {
                assert(spec_days_of(dates@) =~= Seq::<int>::empty());
                return dates;
            },
        };
        let step: u64 = self.interval as u64 * 7;
        let ghost gstep = step as int;
        let ghost total = spec_weekly_from(offs, s, gstep, week0.days as int, Seq::empty(), (MAX_RECURRENCE_STEPS + 1) as nat);
        assert(total == spec_occurrences(*self, s));
        assert(spec_days_of(dates@) =~= Seq::<int>::empty());
        let mut week = week0;
        let ghost mut fuel: nat = (MAX_RECURRENCE_STEPS + 1) as nat;
        while dates.len() < MAX_RECURRENCE_STEPS as usize
            invariant
                s == start.days,
                offs == spec_rule_offsets(*self, s),
                offsets@.map_values(|o: u32| o as int) == offs,
                spec_ascending(offs),
                offs.len() > 0,
                forall|i: int| 0 <= i < offs.len() ==> 0 <= #[trigger] offs[i] < 7,
                7 <= gstep <= 7 * 366,
                gstep == step,
                week0.days as int == s - spec_weekday_of(s),
                week.wf(),
                week0.days <= week.days,
                fuel <= MAX_RECURRENCE_STEPS + 1,
                fuel < MAX_RECURRENCE_STEPS + 1 ==> week.days >= week0.days + 7,
                dates@.len() + 1 >= MAX_RECURRENCE_STEPS + 1 - fuel,
                total == spec_weekly_from(offs, s, gstep, week.days as int, spec_days_of(dates@), fuel),
                total == spec_occurrences(*self, s),
                forall|k: int| 0 <= k < dates@.len() ==> (#[trigger] dates@[k]).wf(),
            decreases fuel,
        {
            assert(fuel > 0);
            let before = dates.len();
            let ghost sofar = spec_days_of(dates@);
            let mut j: usize = 0;
            while j < offsets.len()
                invariant
                    s == start.days,
                    offsets@.map_values(|o: u32| o as int) == offs,
                    spec_ascending(offs),
                    forall|i: int| 0 <= i < offs.len() ==> 0 <= #[trigger] offs[i] < 7,
                    week.wf(),
                    j <= offsets@.len(),
                    before == sofar.len(),
                    before < MAX_RECURRENCE_STEPS,
                    fuel > 0,
                    offs.len() > 0,
                    total == spec_weekly_from(offs, s, gstep, week.days as int, sofar, fuel),
                    total == spec_occurrences(*self, s),
                    spec_days_of(dates@) == sofar + spec_week_dates(week.days as int, offs, s, j as int),
                    forall|k: int| 0 <= k < j ==> week.days + #[trigger] offs[k] <= DATE_MAX_DAYS,
                    week.days > s && j >= 1 ==> dates@.len() >= before + 1,
                    forall|k: int| 0 <= k < dates@.len() ==> (#[trigger] dates@[k]).wf(),
                decreases offsets@.len() - j,
            {
                assert(offs[j as int] == offsets@[j as int] as int);
                let date = match week.checked_add_days(offsets[j] as u64) {
                    Some(d) => d,
                    None => {
                        proof {
                            lemma_week_dates_stop(week.days as int, offs, s, j as int, offs.len() as int);
                            if j + 1 < offs.len() {
                                assert(offs[j as int] < offs.last());
                            }
                            assert(week.days + offs.last() > DATE_MAX_DAYS);
                            assert(spec_weekly_from(offs, s, gstep, week.days as int, sofar, fuel)
                                == sofar + spec_week_dates(week.days as int, offs, s, offs.len() as int));
                        }
                        return dates;
                    },
                };
                let ghost prev = dates@;
                if date.days >= start.days {
                    dates.push(date);
                    proof {
                        lemma_push_days(prev, date);
                    }
                }
                assert(spec_week_dates(week.days as int, offs, s, j + 1) == if s <= week.days + offs[j as int]
                    && week.days + offs[j as int] <= DATE_MAX_DAYS {
                    spec_week_dates(week.days as int, offs, s, j as int).push(week.days + offs[j as int])
                } else {
                    spec_week_dates(week.days as int, offs, s, j as int)
                });
                assert(sofar + spec_week_dates(week.days as int, offs, s, j as int).push(date.days as int)
                    =~= (sofar + spec_week_dates(week.days as int, offs, s, j as int)).push(date.days as int));
                j += 1;
            }
            assert(week.days + offs.last() <= DATE_MAX_DAYS);
            let next = match week.checked_add_days(step) {
                Some(n) => n,
                None => {
                    assert(spec_weekly_from(offs, s, gstep, week.days as int, sofar, fuel)
                        == sofar + spec_week_dates(week.days as int, offs, s, offs.len() as int));
                    return dates;
                },
            };
            if next.days <= week.days && before == dates.len() {
                return dates;
            }
            week = next;
            proof {
                fuel = (fuel - 1) as nat;
            }
        }
        dates
    }

    fn monthly_dates(&self, start: CivilDate) -> (r: Vec<CivilDate>)
        requires
            self.spec_error() is None,
            self.frequency == EventFrequency::Monthly,
            start.wf(),
        ensures
            spec_days_of(r@) == spec_occurrences(*self, start.days as int),
            forall|k: int| 0 <= k < r@.len() ==> (#[trigger] r@[k]).wf(),
    {
        let i = self.interval;
        let ghost gi = i as int;
        let ghost s = start.days as int;
        let mut dates: Vec<CivilDate> = Vec::new();
        let mut step: u32 = 0;
        while dates.len() < MAX_RECURRENCE_STEPS as usize
            invariant
                1 <= gi <= 366,
                gi == i,
                self.interval == i,
                self.frequency == EventFrequency::Monthly,
                s == start.days,
                step == dates@.len(),
                dates@.len() <= MAX_RECURRENCE_STEPS,
                spec_monthly_len(s, gi, 0) == spec_monthly_len(s, gi, step as int),
                forall|k: int| 0 <= k < dates@.len() ==> spec_add_months(s, gi * k) == Some((#[trigger] dates@[k]).days as int),
                forall|k: int| 0 <= k < dates@.len() ==> (#[trigger] dates@[k]).wf(),
            decreases MAX_RECURRENCE_STEPS - dates@.len(),
        {
            assert(i * step <= 366 * 4000) by (nonlinear_arith)
                requires i <= 366, step < 4000;
            let date = match start.checked_add_months(i * step) {
                Some(date) => date,
                None => {
                    proof {
                        assert(spec_monthly_len(s, gi, step as int) == step);
                        assert(spec_days_of(dates@) =~= spec_occurrences(*self, s));
                    }
                    return dates;
                },
            };
            proof {
                assert(spec_add_months(s, gi * step) == Some(date.days as int));
                assert(spec_monthly_len(s, gi, step as int) == spec_monthly_len(s, gi, step + 1));
            }
            dates.push(date);
            step = step + 1;
        }
        proof {
            assert(spec_monthly_len(s, gi, step as int) == step);
            assert(spec_days_of(dates@) =~= spec_occurrences(*self, s));
        }
        dates
    }
}

proof fn lemma_week_dates_stop(week: int, offs: Seq<int>, s: int, j: int, n: int)
    requires
        spec_ascending(offs),
        0 <= j <= n <= offs.len(),
        j < offs.len(),
        week + offs[j] > DATE_MAX_DAYS,
    ensures
        spec_week_dates(week, offs, s, n) == spec_week_dates(week, offs, s, j),
    decreases n - j,
{
    if n > j {
        lemma_week_dates_stop(week, offs, s, j, n - 1);
        if n - 1 > j {
            assert(offs[j] < offs[n - 1]);
        }
    }
}

proof fn lemma_daily_len(s: int, i: int, n: int)
    requires
        i >= 1,
        1 <= n <= MAX_RECURRENCE_STEPS,
        s + (n - 1) * i <= DATE_MAX_DAYS,
        s + n * i > DATE_MAX_DAYS,
    ensures
        spec_daily_len(s, i) == n,
{
    assert((DATE_MAX_DAYS - s) / i == n - 1) by (nonlinear_arith)
        requires
            i >= 1,
            (n - 1) * i <= DATE_MAX_DAYS - s,
            DATE_MAX_DAYS - s < n * i,
    {
        let q = (DATE_MAX_DAYS - s) / i;
        let m = DATE_MAX_DAYS - s;
        assert(m == i * q + m % i);
        assert(0 <= m % i < i);
    }
}

proof fn lemma_daily_len_full(s: int, i: int)
    requires
        i >= 1,
        s + (MAX_RECURRENCE_STEPS - 1) * i <= DATE_MAX_DAYS,
    ensures
        spec_daily_len(s, i) == MAX_RECURRENCE_STEPS,
{
    assert((DATE_MAX_DAYS - s) / i >= MAX_RECURRENCE_STEPS - 1) by (nonlinear_arith)
        requires
            i >= 1,
            (MAX_RECURRENCE_STEPS - 1) * i <= DATE_MAX_DAYS - s,
    {
        let q = (DATE_MAX_DAYS - s) / i;
        let m = DATE_MAX_DAYS - s;
        assert(m == i * q + m % i);
        assert(0 <= m % i < i);
    }
}

} // verus!

verus! {

// ── One occurrence ──

/// An all-day span moved to start on `date`, keeping its length (at least a day).
pub open spec fn spec_all_day_span(start: CivilDate, end_exclusive: CivilDate) -> int {
    let span = end_exclusive.days - start.days;
    if span < 1 {
        1
    } else {
        span
    }
}

/// The local wall-clock second a timed start shows in its zone.
pub open spec fn spec_wall_second_of_day(start: OffsetDateTime, zone: Seq<char>) -> int {
    (start.seconds + spec_tz_offset_at(zone, start.seconds as int)) % SECONDS_PER_DAY as int
}

/// One event time moved onto another date, keeping its duration, and for a
/// timed span the wall-clock time it shows in its own zone.
pub open spec fn spec_shift(base: EventTime, date: int) -> Result<EventTime, DomainError> {
    match base {
        EventTime::AllDay { start, end_exclusive } => {
            let end = date + spec_all_day_span(start, end_exclusive);
            if spec_day_in_range(date) && spec_day_in_range(end) {
                Ok(EventTime::AllDay { start: CivilDate { days: date as i32 }, end_exclusive: CivilDate { days: end as i32 } })
            } else {
                Err(DomainError::InvalidAllDayRange)
            }
        },
        EventTime::Timed { start, end, timezone } => {
            if !spec_tz_known(timezone@) {
                Err(DomainError::InvalidTimezone { timezone })
            } else {
                let local = (date - UNIX_EPOCH_DAYS) * SECONDS_PER_DAY + spec_wall_second_of_day(start, timezone@);
                match spec_tz_from_local(timezone@, local) {
                    LocalMapping::Single(o) => {
                        let s1 = local - o;
                        let s2 = s1 + end.seconds - start.seconds;
                        if !spec_seconds_in_range(s1) || !spec_seconds_in_range(s2) {
                            Err(DomainError::UnrepresentableOccurrence { timezone })
                        } else {
                            let first = OffsetDateTime { seconds: s1 as i64, nanos: start.nanos, offset: o };
                            let last = OffsetDateTime {
                                seconds: s2 as i64,
                                nanos: end.nanos,
                                offset: spec_tz_offset_at(timezone@, s2) as i32,
                            };
                            match spec_timed_error(first, last, timezone) {
                                Some(e) => Err(e),
                                None => Ok(EventTime::Timed { start: first, end: last, timezone }),
                            }
                        }
                    },
                    _ => Err(DomainError::UnrepresentableOccurrence { timezone }),
                }
            }
        },
    }
}

/// The times an event's own fields are written in fit this library.
pub open spec fn spec_time_wf(time: EventTime) -> bool {
    match time {
        EventTime::Timed { start, end, .. } => start.wf() && end.wf(),
        EventTime::AllDay { start, end_exclusive } => start.wf() && end_exclusive.wf(),
    }
}

/// Move one event time onto another date, keeping its duration and wall time.
pub fn shift_event_time(base: &EventTime, date: CivilDate) -> (r: Result<EventTime, DomainError>)
    requires
        spec_time_wf(*base),
        date.wf(),
    ensures
        r == spec_shift(*base, date.days as int),
        r matches Ok(t) ==> spec_time_wf(t),
{
    match base {
        EventTime::AllDay { start, end_exclusive } => {
            let span: i64 = end_exclusive.days as i64 - start.days as i64;
            let span: i64 = if span < 1 { 1 } else { span };
            let end = match date.checked_add_days(span as u64) {
                Some(end) => end,
                None => return Err(DomainError::InvalidAllDayRange),
            };
            EventTime::all_day(date, end)
        },
        EventTime::Timed { start, end, timezone } => {
            if !tz_known(timezone.as_str()) {
                return Err(DomainError::InvalidTimezone { timezone: timezone.clone() });
            }
            let wall_offset = match tz_offset_at(timezone.as_str(), start.seconds) {
                Some(o) => o,
                None => return Err(DomainError::InvalidTimezone { timezone: timezone.clone() }),
            };
            let wall = OffsetDateTime { seconds: start.seconds, nanos: start.nanos, offset: wall_offset };
            let second_of_day = wall.local_second_of_day();
            let local: i64 = (date.days as i64 - crate::time::UNIX_EPOCH_DAYS) * SECONDS_PER_DAY + second_of_day as i64;
            let offset = match tz_from_local(timezone.as_str(), local, start.nanos) {
                LocalMapping::Single(o) => o,
                _ => return Err(DomainError::UnrepresentableOccurrence { timezone: timezone.clone() }),
            };
            let s1: i64 = local - offset as i64;
            if !(-MAX_INSTANT_SECONDS <= s1 && s1 <= MAX_INSTANT_SECONDS) {
                return Err(DomainError::UnrepresentableOccurrence { timezone: timezone.clone() });
            }
            let s2: i64 = s1 + (end.seconds - start.seconds);
            if !(-MAX_INSTANT_SECONDS <= s2 && s2 <= MAX_INSTANT_SECONDS) {
                return Err(DomainError::UnrepresentableOccurrence { timezone: timezone.clone() });
            }
            let end_offset = match tz_offset_at(timezone.as_str(), s2) {
                Some(o) => o,
                None => return Err(DomainError::UnrepresentableOccurrence { timezone: timezone.clone() }),
            };
            let first = OffsetDateTime { seconds: s1, nanos: start.nanos, offset };
            let last = OffsetDateTime { seconds: s2, nanos: end.nanos, offset: end_offset };
            EventTime::timed(first, last, timezone.clone())
        },
    }
}

} // verus!

verus! {

// ── The occurrences a window holds ──

/// How many leading dates of a series a rule keeps: it stops at the runaway
/// bound, at the first date past `through` or past its until date, and after
/// its count.
pub open spec fn spec_series_len(rule: EventRecurrence, dates: Seq<int>, through: int, k: int) -> int
    decreases dates.len() - k,
{
    if k < 0 || k >= dates.len() || k >= MAX_RECURRENCE_STEPS || dates[k] > through || (rule.until matches Some(u) && dates[k] > u.days) {
        k
    } else if rule.count matches Some(c) && k + 1 >= c {
        k + 1
    } else {
        spec_series_len(rule, dates, through, k + 1)
    }
}

/// The first `n` dates of a series that fall on or after `from`, each paired
/// with its index and moved there from the base time; the first refusal wins.
pub open spec fn spec_expansion(base: EventTime, dates: Seq<int>, from: int, n: int) -> Result<Seq<(u32, EventTime)>, DomainError>
    decreases n,
{
    if n <= 0 {
        Ok(Seq::empty())
    } else {
        match spec_expansion(base, dates, from, n - 1) {
            Err(e) => Err(e),
            Ok(found) => if dates[n - 1] >= from {
                match spec_shift(base, dates[n - 1]) {
                    Ok(t) => Ok(found.push(((n - 1) as u32, t))),
                    Err(e) => Err(e),
                }
            } else {
                Ok(found)
            },
        }
    }
}

/// What expanding a rule over a base time and a civil-date window gives.
pub open spec fn spec_expand(rule: EventRecurrence, base: EventTime, from: int, through: int) -> Result<Seq<(u32, EventTime)>, DomainError> {
    if from > through {
        Err(DomainError::InvalidRecurrenceRange)
    } else if rule.spec_error() is Some {
        Err(rule.spec_error()->0)
    } else {
        let start = base.spec_start_date().days as int;
        if rule.until matches Some(u) && u.days < start {
            Err(DomainError::RecurrenceUntilNotAfterStart)
        } else {
            let dates = spec_occurrences(rule, start);
            spec_expansion(base, dates, from, spec_series_len(rule, dates, through, 0))
        }
    }
}

proof fn lemma_series_len_ge(rule: EventRecurrence, dates: Seq<int>, through: int, k: int)
    requires
        0 <= k,
    ensures
        spec_series_len(rule, dates, through, k) >= k,
    decreases dates.len() - k,
{
    if !(k >= dates.len() || k >= MAX_RECURRENCE_STEPS || dates[k] > through || (rule.until matches Some(u) && dates[k] > u.days)) {
        if !(rule.count matches Some(c) && k + 1 >= c) {
            lemma_series_len_ge(rule, dates, through, k + 1);
        }
    }
}

proof fn lemma_expansion_err_stays(base: EventTime, dates: Seq<int>, from: int, n: int, m: int)
    requires
        0 <= n <= m,
        spec_expansion(base, dates, from, n) is Err,
    ensures
        spec_expansion(base, dates, from, m) == spec_expansion(base, dates, from, n),
    decreases m - n,
{
    if m > n {
        lemma_expansion_err_stays(base, dates, from, n, m - 1);
    }
}

pub open spec fn spec_result_vec<T>(r: Result<Vec<T>, DomainError>) -> Result<Seq<T>, DomainError> {
    match r {
        Ok(v) => Ok(v@),
        Err(e) => Err(e),
    }
}

impl EventRecurrence {
    /// Expand a base time into the occurrences overlapping one civil-date window,
    /// each with its index in the whole series.
    pub fn expand(&self, base: &EventTime, from: CivilDate, through: CivilDate) -> (r: Result<Vec<(u32, EventTime)>, DomainError>)
        requires
            spec_time_wf(*base),
        ensures
            spec_result_vec(r) == spec_expand(*self, *base, from.days as int, through.days as int),
            r matches Ok(v) ==> forall|i: int| 0 <= i < v@.len() ==> spec_time_wf(#[trigger] v@[i].1),
    {
        if from.days > through.days {
            return Err(DomainError::InvalidRecurrenceRange);
        }
        self.validate()?;
        let start = match base {
            EventTime::Timed { start, .. } => start.local_date(),
            EventTime::AllDay { start, .. } => *start,
        };
        assert(start == base.spec_start_date());
        if let Some(until) = self.until {
            if until.days < start.days {
                return Err(DomainError::RecurrenceUntilNotAfterStart);
            }
        }
        let dates = self.occurrence_dates(start);
        let ghost days = spec_days_of(dates@);
        let ghost total = spec_series_len(*self, days, through.days as int, 0);
        let ghost want = spec_expand(*self, *base, from.days as int, through.days as int);
        assert(want == spec_expansion(*base, days, from.days as int, total));
        let mut found: Vec<(u32, EventTime)> = Vec::new();
        let mut index: usize = 0;
        while index < dates.len()
            invariant
                want == spec_expansion(*base, days, from.days as int, total),
                want == spec_expand(*self, *base, from.days as int, through.days as int),
                days == spec_days_of(dates@),
                days == spec_occurrences(*self, start.days as int),
                forall|k: int| 0 <= k < dates@.len() ==> (#[trigger] dates@[k]).wf(),
                spec_time_wf(*base),
                index <= dates.len(),
                index <= MAX_RECURRENCE_STEPS,
                total == spec_series_len(*self, days, through.days as int, index as int),
                from.days <= through.days,
                self.spec_error() is None,
                start == base.spec_start_date(),
                !(self.until matches Some(u) && u.days < start.days),
                spec_expansion(*base, days, from.days as int, index as int) == Ok::<Seq<(u32, EventTime)>, DomainError>(found@),
                forall|i: int| 0 <= i < found@.len() ==> spec_time_wf(#[trigger] found@[i].1),
            decreases dates.len() - index,
        {
            if index >= MAX_RECURRENCE_STEPS as usize {
                assert(total == index);
                return Ok(found);
            }
            let date = dates[index];
            assert(days[index as int] == date.days);
            let past_until = match self.until {
                Some(until) => date.days > until.days,
                None => false,
            };
            if date.days > through.days || past_until {
                assert(total == index);
                return Ok(found);
            }
            assert(spec_series_len(*self, days, through.days as int, index as int) >= index + 1) by {
                lemma_series_len_ge(*self, days, through.days as int, index as int + 1);
            }
            if date.days >= from.days {
                match shift_event_time(base, date) {
                    Ok(time) => {
                        found.push((index as u32, time));
                    },
                    Err(e) => {
                        proof {
                            assert(spec_shift(*base, days[index as int]) == Err::<EventTime, DomainError>(e));
                            assert(spec_expansion(*base, days, from.days as int, index as int + 1) == Err::<Seq<(u32, EventTime)>, DomainError>(e));
                            lemma_expansion_err_stays(*base, days, from.days as int, index as int + 1, total);
                        }
                        return Err(e);
                    },
                }
            }
            assert(spec_expansion(*base, days, from.days as int, index as int + 1) == Ok::<Seq<(u32, EventTime)>, DomainError>(found@));
            let last = match self.count {
                Some(count) => index as u64 + 1 >= count as u64,
                None => false,
            };
            index += 1;
            if last {
                assert(total == index);
                return Ok(found);
            }
            assert(spec_series_len(*self, days, through.days as int, index as int - 1) == spec_series_len(*self, days, through.days as int, index as int));
        }
        assert(total == index);
        Ok(found)
    }
}

} // verus!

verus! {

// ── Laws of expansion ──

/// An occurrence is the base time moved onto a series date: an all-day span
/// starts on that date and keeps its length; a timed span keeps its zone, its
/// duration and the wall-clock time it shows, on that date.
pub open spec fn spec_occurrence_of(base: EventTime, t: EventTime, date: int) -> bool {
    match (base, t) {
        (EventTime::AllDay { start, end_exclusive }, EventTime::AllDay { start: s, end_exclusive: e }) => s.days
            == date as i32 && e.days - s.days == spec_all_day_span(start, end_exclusive),
        (EventTime::Timed { start, end, timezone }, EventTime::Timed { start: s, end: e, timezone: z }) => z == timezone
            && e.seconds - s.seconds == end.seconds - start.seconds && s.nanos == start.nanos && e.nanos == end.nanos
            && s.seconds + s.offset == (date - UNIX_EPOCH_DAYS) * SECONDS_PER_DAY + spec_wall_second_of_day(
            start,
            timezone@,
        ),
        _ => false,
    }
}

/// The entries of an expansion whose series date is on or after `later`.
pub open spec fn spec_on_or_after(dates: Seq<int>, later: int) -> spec_fn((u32, EventTime)) -> bool {
    |e: (u32, EventTime)| dates[e.0 as int] >= later
}

proof fn lemma_shift_is_occurrence(base: EventTime, date: int)
    requires
        spec_shift(base, date) is Ok,
    ensures
        spec_occurrence_of(base, spec_shift(base, date)->Ok_0, date),
{
}

proof fn lemma_series_len_bounds(rule: EventRecurrence, dates: Seq<int>, through: int, k: int)
    requires
        0 <= k <= dates.len(),
        k <= MAX_RECURRENCE_STEPS,
    ensures
        spec_series_len(rule, dates, through, k) <= dates.len(),
        spec_series_len(rule, dates, through, k) <= MAX_RECURRENCE_STEPS,
        forall|j: int| k <= j < spec_series_len(rule, dates, through, k) ==> #[trigger] dates[j] <= through,
    decreases dates.len() - k,
{
    if !(k >= dates.len() || k >= MAX_RECURRENCE_STEPS || dates[k] > through || (rule.until matches Some(u) && dates[k]
        > u.days)) {
        if !(rule.count matches Some(c) && k + 1 >= c) {
            lemma_series_len_bounds(rule, dates, through, k + 1);
        }
    }
}

proof fn lemma_expansion_entries(base: EventTime, dates: Seq<int>, from: int, n: int)
    requires
        0 <= n <= dates.len(),
        n <= MAX_RECURRENCE_STEPS,
        spec_expansion(base, dates, from, n) is Ok,
    ensures
        forall|i: int| 0 <= i < spec_expansion(base, dates, from, n)->Ok_0.len() ==> {
            let e = #[trigger] spec_expansion(base, dates, from, n)->Ok_0[i];
            &&& e.0 < n
            &&& dates[e.0 as int] >= from
            &&& spec_occurrence_of(base, e.1, dates[e.0 as int])
        },
    decreases n,
{
    if n > 0 {
        lemma_expansion_entries(base, dates, from, n - 1);
        if dates[n - 1] >= from {
            lemma_shift_is_occurrence(base, dates[n - 1]);
        }
    }
}

proof fn lemma_expansion_clip(base: EventTime, dates: Seq<int>, from: int, later: int, n: int)
    requires
        from <= later,
        0 <= n <= dates.len(),
        n <= MAX_RECURRENCE_STEPS,
        spec_expansion(base, dates, from, n) is Ok,
    ensures
        spec_expansion(base, dates, later, n) == Ok::<Seq<(u32, EventTime)>, DomainError>(
            spec_expansion(base, dates, from, n)->Ok_0.filter(spec_on_or_after(dates, later)),
        ),
    decreases n,
{
    reveal(Seq::filter);
    let keep = spec_on_or_after(dates, later);
    if n == 0 {
        assert(Seq::<(u32, EventTime)>::empty().filter(keep) =~= Seq::<(u32, EventTime)>::empty());
    } else {
        lemma_expansion_clip(base, dates, from, later, n - 1);
        let g = spec_expansion(base, dates, from, n - 1)->Ok_0;
        if dates[n - 1] >= from {
            let t = spec_shift(base, dates[n - 1])->Ok_0;
            let last = ((n - 1) as u32, t);
            let f = g.push(last);
            assert(f.drop_last() =~= g);
            assert(f.last() == last);
            assert(((n - 1) as u32) as int == n - 1);
        }
    }
}

/// Every occurrence an expansion gives is the event's time moved onto the
/// series date its index names, a date inside the window: it keeps the
/// event's zone, duration and wall-clock time, and an all-day span its length.
pub proof fn lemma_occurrences_keep_the_event_shape(rule: EventRecurrence, base: EventTime, from: int, through: int)
    requires
        spec_expand(rule, base, from, through) is Ok,
    ensures
        ({
            let found = spec_expand(rule, base, from, through)->Ok_0;
            let dates = spec_occurrences(rule, base.spec_start_date().days as int);
            forall|i: int| 0 <= i < found.len() ==> {
                let e = #[trigger] found[i];
                &&& e.0 < dates.len()
                &&& from <= dates[e.0 as int] <= through
                &&& spec_occurrence_of(base, e.1, dates[e.0 as int])
            }
        }),
{
    let start = base.spec_start_date().days as int;
    let dates = spec_occurrences(rule, start);
    let n = spec_series_len(rule, dates, through, 0);
    lemma_series_len_ge(rule, dates, through, 0);
    lemma_series_len_bounds(rule, dates, through, 0);
    lemma_expansion_entries(base, dates, from, n);
}

/// Clipping the window does not renumber the series: expanding from a later
/// first day gives exactly the occurrences of the wider expansion whose series
/// date falls on or after that day, with the same indices and times.
pub proof fn lemma_clipping_keeps_numbering(rule: EventRecurrence, base: EventTime, from: int, later: int, through: int)
    requires
        from <= later <= through,
        spec_expand(rule, base, from, through) is Ok,
    ensures
        spec_expand(rule, base, later, through) == Ok::<Seq<(u32, EventTime)>, DomainError>(
            spec_expand(rule, base, from, through)->Ok_0.filter(
                spec_on_or_after(spec_occurrences(rule, base.spec_start_date().days as int), later),
            ),
        ),
{
    let start = base.spec_start_date().days as int;
    let dates = spec_occurrences(rule, start);
    let n = spec_series_len(rule, dates, through, 0);
    lemma_series_len_ge(rule, dates, through, 0);
    lemma_series_len_bounds(rule, dates, through, 0);
    lemma_expansion_clip(base, dates, from, later, n);
}

} // verus!

verus! {

// ── Weekly rules on the start's own weekday ──

proof fn lemma_offsets_single(days: Seq<Weekday>, wd: int, d: int)
    requires
        0 <= wd < 7,
        0 <= d <= 7,
        days.len() > 0,
        forall|i: int| 0 <= i < days.len() ==> spec_weekday_index(#[trigger] days[i]) == wd,
    ensures
        spec_offsets_below(days, d) == (if d > wd { seq![wd] } else { Seq::<int>::empty() }),
    decreases d,
{
    if d > 0 {
        lemma_offsets_single(days, wd, d - 1);
        assert(spec_weekday_index(days[0]) == wd);
        if d - 1 == wd {
            assert(spec_set_has(days, d - 1));
            assert(Seq::<int>::empty().push(wd) =~= seq![wd]);
        } else {
            assert(!spec_set_has(days, d - 1));
        }
    }
}

proof fn lemma_weekly_from_single(o: int, start: int, step: int, week: int, sofar: Seq<int>, fuel: nat)
    requires
        step >= 0,
        week + o == start + step * sofar.len(),
        forall|k: int| 0 <= k < sofar.len() ==> #[trigger] sofar[k] == start + step * k,
    ensures
        ({
            let r = spec_weekly_from(seq![o], start, step, week, sofar, fuel);
            forall|k: int| 0 <= k < r.len() ==> #[trigger] r[k] == start + step * k
        }),
    decreases fuel,
{
    if !(fuel == 0 || sofar.len() >= MAX_RECURRENCE_STEPS) {
        let offs = seq![o];
        let d = week + o;
        assert(offs.len() == 1 && offs.last() == o && offs[0] == o);
        let wk = spec_week_dates(week, offs, start, offs.len() as int);
        assert(spec_week_dates(week, offs, start, 0) == Seq::<int>::empty());
        assert(start <= d) by (nonlinear_arith)
            requires
                d == start + step * sofar.len(),
                step >= 0,
        ;
        let taken = sofar + wk;
        if d <= DATE_MAX_DAYS {
            assert(wk == Seq::<int>::empty().push(d));
            assert forall|k: int| 0 <= k < taken.len() implies #[trigger] taken[k] == start + step * k by {
                if k < sofar.len() {
                    assert(taken[k] == sofar[k]);
                } else {
                    assert(taken[k] == d);
                }
            }
            assert(week + step + o == start + step * taken.len()) by (nonlinear_arith)
                requires
                    week + o == start + step * sofar.len(),
                    taken.len() == sofar.len() + 1,
            ;
            if !(week + offs.last() > DATE_MAX_DAYS || week + step > DATE_MAX_DAYS) {
                lemma_weekly_from_single(o, start, step, week + step, taken, (fuel - 1) as nat);
                assert(spec_weekly_from(offs, start, step, week, sofar, fuel) == spec_weekly_from(
                    offs,
                    start,
                    step,
                    week + step,
                    taken,
                    (fuel - 1) as nat,
                ));
            } else {
                assert(spec_weekly_from(offs, start, step, week, sofar, fuel) == taken);
            }
        } else {
            assert(wk == Seq::<int>::empty());
            assert(taken =~= sofar);
            assert(spec_weekly_from(offs, start, step, week, sofar, fuel) == taken);
        }
    }
}

/// A weekly rule that names no weekday, or names only the day its event
/// starts on, lands every `interval` weeks from the start: its `k`-th date is
/// the start plus `7 * interval * k` days.
pub proof fn lemma_weekly_steps_by_its_interval(rule: EventRecurrence, start: int)
    requires
        rule.frequency == EventFrequency::Weekly,
        forall|i: int| 0 <= i < rule.by_weekday@.len() ==> spec_weekday_index(#[trigger] rule.by_weekday@[i])
            == spec_weekday_of(start),
    ensures
        forall|k: int| 0 <= k < spec_occurrences(rule, start).len() ==> #[trigger] spec_occurrences(rule, start)[k]
            == start + 7 * rule.interval * k,
{
    let wd = spec_weekday_of(start);
    let week = start - wd;
    if week >= DATE_MIN_DAYS {
        if rule.by_weekday@.len() > 0 {
            lemma_offsets_single(rule.by_weekday@, wd, 7);
        }
        assert(spec_rule_offsets(rule, start) == seq![wd]);
        let step = 7 * rule.interval;
        lemma_weekly_from_single(wd, start, step, week, Seq::empty(), (MAX_RECURRENCE_STEPS + 1) as nat);
        let r = spec_occurrences(rule, start);
        assert forall|k: int| 0 <= k < r.len() implies #[trigger] r[k] == start + 7 * rule.interval * k by {
            assert(r[k] == start + step * k);
            assert(step * k == 7 * rule.interval * k) by (nonlinear_arith)
                requires
                    step == 7 * rule.interval,
            ;
        }
    }
}

} // verus!
