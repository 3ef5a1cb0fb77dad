//! Reminder deliveries: their identities and the plan that orders them.
use vstd::prelude::*;

use crate::text::{
    chars_eq, chars_less, chars_of, has_whitespace, lemma_chars_lt_irreflexive,
    lemma_chars_lt_total, lemma_chars_lt_transitive, spec_chars_lt, spec_has_whitespace,
    starts_with, string_of,
};
use crate::time::Timestamp;

verus! {

/// Why a reminder identity was refused.
#[derive(Debug, Clone, Copy, PartialEq, Eq, Hash, Structural)]
pub enum ReminderDomainError {
    InvalidScheduleRef,
    InvalidOccurrenceKey,
}

pub const CALR_REMINDER_PREFIX: &'static str = "mg-calr:reminder:";
pub const TODO_REMINDER_PREFIX: &'static str = "mg-todo:reminder:";
pub const REMINDR_REMINDER_PREFIX: &'static str = "mg-remindr:reminder:";
pub const SINGLETON_OCCURRENCE: &'static str = "singleton";

/// Whether `s` starts with `prefix`.
pub open spec fn spec_has_prefix(s: Seq<char>, prefix: Seq<char>) -> bool {
    prefix.len() <= s.len() && s.subrange(0, prefix.len() as int) == prefix
}

/// A schedule reference in a reminder namespace, with no trailing separator
/// and no whitespace.
pub open spec fn spec_schedule_ref_ok(s: Seq<char>) -> bool {
    &&& (spec_has_prefix(s, CALR_REMINDER_PREFIX@) || spec_has_prefix(s, TODO_REMINDER_PREFIX@)
        || spec_has_prefix(s, REMINDR_REMINDER_PREFIX@))
    &&& !(s.len() > 0 && s.last() == ':')
    &&& !spec_has_whitespace(s)
}

/// Which reminder schedule a delivery comes from.
#[derive(Debug, Clone, PartialEq, Eq, PartialOrd, Ord, Hash)]
pub struct ScheduleRef(String);

impl View for ScheduleRef {
    type V = Seq<char>;

    closed spec fn view(&self) -> Seq<char> {
        self.0@
    }
}

impl ScheduleRef {
    pub fn new(value: String) -> (r: Result<ScheduleRef, ReminderDomainError>)
        ensures
            spec_schedule_ref_ok(value@) ==> (r matches Ok(s) && s@ == value@),
            !spec_schedule_ref_ok(value@) ==> r == Err::<ScheduleRef, ReminderDomainError>(
                ReminderDomainError::InvalidScheduleRef,
            ),
    {
        let chars = chars_of(value.as_str());
        let calr = chars_of(CALR_REMINDER_PREFIX);
        let todo = chars_of(TODO_REMINDER_PREFIX);
        let remindr = chars_of(REMINDR_REMINDER_PREFIX);
        let valid_prefix = starts_with(chars.as_slice(), calr.as_slice()) || starts_with(
            chars.as_slice(),
            todo.as_slice(),
        ) || starts_with(chars.as_slice(), remindr.as_slice());
        let trailing = chars.len() > 0 && chars[chars.len() - 1] == ':';
        if !valid_prefix || trailing || has_whitespace(value.as_str()) {
            return Err(ReminderDomainError::InvalidScheduleRef);
        }
        Ok(ScheduleRef(value))
    }

    pub fn as_str(&self) -> (r: &str)
        ensures
            r@ == self@,
    {
        self.0.as_str()
    }

    pub fn copy(&self) -> (r: ScheduleRef)
        ensures
            r@ == self@,
    {
        ScheduleRef(self.0.clone())
    }
}

/// Which occurrence of a schedule a delivery is for.
#[derive(Debug, Clone, PartialEq, Eq, PartialOrd, Ord, Hash)]
pub struct OccurrenceKey(String);

impl View for OccurrenceKey {
    type V = Seq<char>;

    closed spec fn view(&self) -> Seq<char> {
        self.0@
    }
}

impl OccurrenceKey {
    /// A non-empty key without whitespace.
    pub fn new(value: String) -> (r: Result<OccurrenceKey, ReminderDomainError>)
        ensures
            (value@.len() > 0 && !spec_has_whitespace(value@)) ==> (r matches Ok(k) && k@ == value@),
            !(value@.len() > 0 && !spec_has_whitespace(value@)) ==> r == Err::<OccurrenceKey, ReminderDomainError>(
                ReminderDomainError::InvalidOccurrenceKey,
            ),
    {
        let empty = value.as_str().unicode_len() == 0;
        if empty || has_whitespace(value.as_str()) {
            return Err(ReminderDomainError::InvalidOccurrenceKey);
        }
        Ok(OccurrenceKey(value))
    }

    /// The key of a schedule that fires once.
    pub fn singleton() -> (r: OccurrenceKey)
        ensures
            r@ == SINGLETON_OCCURRENCE@,
    {
        OccurrenceKey(string_of(chars_of(SINGLETON_OCCURRENCE).as_slice()))
    }

    pub fn as_str(&self) -> (r: &str)
        ensures
            r@ == self@,
    {
        self.0.as_str()
    }

    pub fn copy(&self) -> (r: OccurrenceKey)
        ensures
            r@ == self@,
    {
        OccurrenceKey(self.0.clone())
    }
}

/// Where a delivery is presented.
#[derive(Debug, Clone, Copy, PartialEq, Eq, PartialOrd, Ord, Hash, Structural)]
pub enum DeliveryChannel {
    Freedesktop,
    Log,
    Null,
}

pub open spec fn spec_channel_rank(c: DeliveryChannel) -> int {
    match c {
        DeliveryChannel::Freedesktop => 0,
        DeliveryChannel::Log => 1,
        DeliveryChannel::Null => 2,
    }
}

impl DeliveryChannel {
    pub fn as_str(self) -> (r: &'static str)
        ensures
            r@ == spec_channel_name(self),
    {
        match self {
            DeliveryChannel::Freedesktop => "freedesktop",
            DeliveryChannel::Log => "log",
            DeliveryChannel::Null => "null",
        }
    }

    fn rank(self) -> (r: u8)
        ensures
            r == spec_channel_rank(self),
    {
        match self {
            DeliveryChannel::Freedesktop => 0,
            DeliveryChannel::Log => 1,
            DeliveryChannel::Null => 2,
        }
    }
}

pub open spec fn spec_channel_name(c: DeliveryChannel) -> Seq<char> {
    match c {
        DeliveryChannel::Freedesktop => "freedesktop"@,
        DeliveryChannel::Log => "log"@,
        DeliveryChannel::Null => "null"@,
    }
}

/// Where a delivery stands in its lifecycle.
#[derive(Debug, Clone, Copy, PartialEq, Eq, Hash, Structural)]
pub enum DeliveryState {
    Pending,
    Claimed,
    Presented,
    Deferred,
    Snoozed,
    Dismissed,
    Folded,
    Expired,
    Failed,
    Revoked,
    UnconfirmedLost,
}

/// The complete identity of one presentation intent.
#[derive(Debug, Clone, PartialEq, Eq, PartialOrd, Ord, Hash)]
pub struct DeliveryKey {
    pub schedule_ref: ScheduleRef,
    pub occurrence_key: OccurrenceKey,
    pub scheduled_for: Timestamp,
    pub channel: DeliveryChannel,
}

impl View for DeliveryKey {
    type V = (Seq<char>, Seq<char>, Timestamp, DeliveryChannel);

    open spec fn view(&self) -> (Seq<char>, Seq<char>, Timestamp, DeliveryChannel) {
        (self.schedule_ref@, self.occurrence_key@, self.scheduled_for, self.channel)
    }
}

impl DeliveryKey {
    pub fn new(
        schedule_ref: ScheduleRef,
        occurrence_key: OccurrenceKey,
        scheduled_for: Timestamp,
        channel: DeliveryChannel,
    ) -> (r: DeliveryKey)
        ensures
            r@ == (schedule_ref@, occurrence_key@, scheduled_for, channel),
    {
        DeliveryKey { schedule_ref, occurrence_key, scheduled_for, channel }
    }

    pub fn copy(&self) -> (r: DeliveryKey)
        ensures
            r@ == self@,
    {
        DeliveryKey {
            schedule_ref: self.schedule_ref.copy(),
            occurrence_key: self.occurrence_key.copy(),
            scheduled_for: self.scheduled_for,
            channel: self.channel,
        }
    }
}

/// One schedule's delivery, and whether it is suppressed.
#[derive(Debug, Clone, PartialEq, Eq)]
pub struct ScheduledReminder {
    pub key: DeliveryKey,
    pub suppressed: bool,
}

/// The order of delivery keys: by schedule, occurrence, instant, then channel.
pub open spec fn spec_key_lt(
    a: (Seq<char>, Seq<char>, Timestamp, DeliveryChannel),
    b: (Seq<char>, Seq<char>, Timestamp, DeliveryChannel),
) -> bool {
    ||| spec_chars_lt(a.0, b.0)
    ||| a.0 == b.0 && spec_chars_lt(a.1, b.1)
    ||| a.0 == b.0 && a.1 == b.1 && a.2.spec_lt(b.2)
    ||| a.0 == b.0 && a.1 == b.1 && a.2 == b.2 && spec_channel_rank(a.3) < spec_channel_rank(b.3)
}

/// The key order is a strict total order.
pub proof fn lemma_key_lt_total(
    a: (Seq<char>, Seq<char>, Timestamp, DeliveryChannel),
    b: (Seq<char>, Seq<char>, Timestamp, DeliveryChannel),
)
    ensures
        a != b ==> spec_key_lt(a, b) || spec_key_lt(b, a),
        !(spec_key_lt(a, b) && spec_key_lt(b, a)),
        !spec_key_lt(a, a),
{
    lemma_chars_lt_total(a.0, b.0);
    lemma_chars_lt_total(a.1, b.1);
    lemma_chars_lt_irreflexive(a.0);
    lemma_chars_lt_irreflexive(a.1);
    lemma_chars_lt_irreflexive(b.0);
    lemma_chars_lt_irreflexive(b.1);
    if a != b && a.0 == b.0 && a.1 == b.1 && a.2 == b.2 {
        assert(a.3 != b.3);
    }
}

pub proof fn lemma_key_lt_transitive(
    a: (Seq<char>, Seq<char>, Timestamp, DeliveryChannel),
    b: (Seq<char>, Seq<char>, Timestamp, DeliveryChannel),
    c: (Seq<char>, Seq<char>, Timestamp, DeliveryChannel),
)
    requires
        spec_key_lt(a, b),
        spec_key_lt(b, c),
    ensures
        spec_key_lt(a, c),
{
    if spec_chars_lt(a.0, b.0) && spec_chars_lt(b.0, c.0) {
        lemma_chars_lt_transitive(a.0, b.0, c.0);
    }
    if a.0 == b.0 && b.0 == c.0 && spec_chars_lt(a.1, b.1) && spec_chars_lt(b.1, c.1) {
        lemma_chars_lt_transitive(a.1, b.1, c.1);
    }
}

/// Keys in strictly increasing order.
pub open spec fn spec_strictly_sorted(s: Seq<DeliveryKey>) -> bool {
    forall|i: int, j: int| 0 <= i < j < s.len() ==> spec_key_lt(#[trigger] s[i]@, #[trigger] s[j]@)
}

/// Some unsuppressed schedule among the first `n` has this key.
pub open spec fn spec_planned(s: Seq<ScheduledReminder>, n: int, k: (Seq<char>, Seq<char>, Timestamp, DeliveryChannel)) -> bool {
    exists|i: int| 0 <= i < n && !s[i].suppressed && #[trigger] s[i].key@ == k
}

/// The output holds this key.
pub open spec fn spec_holds(s: Seq<DeliveryKey>, k: (Seq<char>, Seq<char>, Timestamp, DeliveryChannel)) -> bool {
    exists|i: int| 0 <= i < s.len() && #[trigger] s[i]@ == k
}

fn key_less(a: &DeliveryKey, b: &DeliveryKey) -> (r: bool)
    ensures
        r == spec_key_lt(a@, b@),
{
    let a0 = chars_of(a.schedule_ref.as_str());
    let b0 = chars_of(b.schedule_ref.as_str());
    if chars_less(a0.as_slice(), b0.as_slice()) {
        return true;
    }
    if !chars_eq(a0.as_slice(), b0.as_slice()) {
        return false;
    }
    let a1 = chars_of(a.occurrence_key.as_str());
    let b1 = chars_of(b.occurrence_key.as_str());
    if chars_less(a1.as_slice(), b1.as_slice()) {
        return true;
    }
    if !chars_eq(a1.as_slice(), b1.as_slice()) {
        return false;
    }
    if a.scheduled_for.is_before(&b.scheduled_for) {
        return true;
    }
    if !a.scheduled_for.same_instant(&b.scheduled_for) {
        return false;
    }
    a.channel.rank() < b.channel.rank()
}

fn key_same(a: &DeliveryKey, b: &DeliveryKey) -> (r: bool)
    ensures
        r == (a@ == b@),
{
    let a0 = chars_of(a.schedule_ref.as_str());
    let b0 = chars_of(b.schedule_ref.as_str());
    let a1 = chars_of(a.occurrence_key.as_str());
    let b1 = chars_of(b.occurrence_key.as_str());
    chars_eq(a0.as_slice(), b0.as_slice()) && chars_eq(a1.as_slice(), b1.as_slice())
        && a.scheduled_for.same_instant(&b.scheduled_for) && a.channel == b.channel
}

/// The delivery plan: the keys of the unsuppressed schedules, each once, in
/// key order. The same schedules give the same plan, whatever their order
/// and however often a key repeats.
pub fn plan_deliveries(schedules: Vec<ScheduledReminder>) -> (r: Vec<DeliveryKey>)
    ensures
        spec_strictly_sorted(r@),
        forall|k: (Seq<char>, Seq<char>, Timestamp, DeliveryChannel)|
            spec_holds(r@, k) <==> spec_planned(schedules@, schedules@.len() as int, k),
{
    let mut out: Vec<DeliveryKey> = Vec::new();
    let mut i: usize = 0;
    while i < schedules.len()
        invariant
            i <= schedules.len(),
            spec_strictly_sorted(out@),
            forall|k: (Seq<char>, Seq<char>, Timestamp, DeliveryChannel)|
                spec_holds(out@, k) <==> spec_planned(schedules@, i as int, k),
        decreases schedules.len() - i,
    {
        let schedule = &schedules[i];
        if !schedule.suppressed {
            let key = &schedule.key;
            let mut p: usize = 0;
            while p < out.len() && key_less(&out[p], key)
                invariant
                    p <= out.len(),
                    forall|q: int| 0 <= q < p ==> spec_key_lt(#[trigger] out@[q]@, key@),
                decreases out.len() - p,
            {
                p += 1;
            }
            if p < out.len() && key_same(&out[p], key) {
                assert(forall|k| spec_holds(out@, k) <==> spec_planned(schedules@, i + 1, k)) by {
                    assert forall|k| spec_planned(schedules@, i + 1, k) implies spec_holds(out@, k) by {
                        let w = choose|w: int| 0 <= w < i + 1 && !schedules@[w].suppressed && #[trigger] schedules@[w].key@ == k;
                        if w == i {
                            assert(out@[p as int]@ == k);
                        } else {
                            assert(spec_planned(schedules@, i as int, k));
                        }
                    }
                    assert forall|k| spec_holds(out@, k) implies spec_planned(schedules@, i + 1, k) by {
                        assert(spec_planned(schedules@, i as int, k));
                        let w = choose|w: int| 0 <= w < i && !schedules@[w].suppressed && #[trigger] schedules@[w].key@ == k;
                        assert(0 <= w < i + 1 && !schedules@[w].suppressed && schedules@[w].key@ == k);
                    }
                }
            } else {
                let ghost old_out = out@;
                let copy = key.copy();
                out.insert(p, copy);
                proof {
                    assert(out@ == old_out.insert(p as int, copy));
                    if p < old_out.len() {
                        lemma_key_lt_total(old_out[p as int]@, key@);
                    }
                    assert forall|a: int, b: int| 0 <= a < b < out@.len() implies spec_key_lt(#[trigger] out@[a]@, #[trigger] out@[b]@) by {
                        if b < p {
                        } else if a < p && b == p {
                        } else if a < p && b > p {
                            assert(out@[b] == old_out[b - 1]);
                            assert(spec_key_lt(old_out[a]@, old_out[b - 1]@));
                        } else if a == p {
                            assert(out@[b] == old_out[b - 1]);
                            assert(spec_key_lt(key@, old_out[p as int]@));
                            if b - 1 > p {
                                assert(spec_key_lt(old_out[p as int]@, old_out[b - 1]@));
                                lemma_key_lt_transitive(key@, old_out[p as int]@, old_out[b - 1]@);
                            }
                        } else {
                            assert(out@[a] == old_out[a - 1]);
                            assert(out@[b] == old_out[b - 1]);
                            assert(spec_key_lt(old_out[a - 1]@, old_out[b - 1]@));
                        }
                    }
                    assert forall|k| spec_holds(out@, k) <==> spec_planned(schedules@, i + 1, k) by {
                        if spec_holds(out@, k) {
                            let w = choose|w: int| 0 <= w < out@.len() && #[trigger] out@[w]@ == k;
                            if w == p {
                                assert(0 <= i < i + 1 && !schedules@[i as int].suppressed && schedules@[i as int].key@ == k);
                            } else {
                                let v = if w < p { w } else { w - 1 };
                                assert(old_out[v]@ == k);
                                assert(spec_holds(old_out, k));
                                assert(spec_planned(schedules@, i as int, k));
                                let z = choose|z: int| 0 <= z < i && !schedules@[z].suppressed && #[trigger] schedules@[z].key@ == k;
                                assert(0 <= z < i + 1 && !schedules@[z].suppressed && schedules@[z].key@ == k);
                            }
                        }
                        if spec_planned(schedules@, i + 1, k) {
                            let w = choose|w: int| 0 <= w < i + 1 && !schedules@[w].suppressed && #[trigger] schedules@[w].key@ == k;
                            if w == i {
                                assert(out@[p as int]@ == k);
                            } else {
                                assert(spec_planned(schedules@, i as int, k));
                                assert(spec_holds(old_out, k));
                                let v = choose|v: int| 0 <= v < old_out.len() && #[trigger] old_out[v]@ == k;
                                if v < p {
                                    assert(out@[v]@ == k);
                                } else {
                                    assert(out@[v + 1]@ == k);
                                }
                            }
                        }
                    }
                }
            }
        } else {
            assert forall|k| spec_holds(out@, k) <==> spec_planned(schedules@, i + 1, k) by {
                if spec_planned(schedules@, i + 1, k) {
                    let w = choose|w: int| 0 <= w < i + 1 && !schedules@[w].suppressed && #[trigger] schedules@[w].key@ == k;
                    assert(w != i);
                    assert(spec_planned(schedules@, i as int, k));
                }
                if spec_planned(schedules@, i as int, k) {
                    let w = choose|w: int| 0 <= w < i && !schedules@[w].suppressed && #[trigger] schedules@[w].key@ == k;
                    assert(0 <= w < i + 1 && !schedules@[w].suppressed && schedules@[w].key@ == k);
                }
            }
        }
        i += 1;
    }
    out
}

/// The views of a sequence of keys.
pub open spec fn spec_key_views(s: Seq<DeliveryKey>) -> Seq<(Seq<char>, Seq<char>, Timestamp, DeliveryChannel)> {
    s.map_values(|k: DeliveryKey| k@)
}

/// A plan is fixed by the keys it holds: two strictly ordered key sequences
/// that hold the same keys are the same sequence. So planning the same
/// schedules again, in any order and with any repeats, gives the same plan.
pub proof fn lemma_plan_is_repeatable(a: Seq<DeliveryKey>, b: Seq<DeliveryKey>)
    requires
        spec_strictly_sorted(a),
        spec_strictly_sorted(b),
        forall|k: (Seq<char>, Seq<char>, Timestamp, DeliveryChannel)| spec_holds(a, k) <==> spec_holds(b, k),
    ensures
        spec_key_views(a) == spec_key_views(b),
    decreases a.len(),
{
    if a.len() == 0 {
        if b.len() > 0 {
            assert(spec_holds(b, b[0]@));
        }
        assert(spec_key_views(a) =~= spec_key_views(b));
    } else {
        assert(spec_holds(a, a[0]@));
        assert(b.len() > 0);
        assert(spec_holds(b, b[0]@));
        if a[0]@ != b[0]@ {
            lemma_key_lt_total(a[0]@, b[0]@);
            let j = choose|j: int| 0 <= j < b.len() && #[trigger] b[j]@ == a[0]@;
            let i = choose|i: int| 0 <= i < a.len() && #[trigger] a[i]@ == b[0]@;
            assert(j > 0);
            assert(i > 0);
            assert(spec_key_lt(b[0]@, b[j]@));
            assert(spec_key_lt(a[0]@, a[i]@));
        }
        let a1 = a.drop_first();
        let b1 = b.drop_first();
        assert forall|k: (Seq<char>, Seq<char>, Timestamp, DeliveryChannel)| spec_holds(a1, k) <==> spec_holds(b1, k) by {
            if spec_holds(a1, k) {
                let i = choose|i: int| 0 <= i < a1.len() && #[trigger] a1[i]@ == k;
                assert(a[i + 1]@ == k);
                assert(spec_key_lt(a[0]@, a[i + 1]@));
                lemma_key_lt_total(a[0]@, k);
                assert(spec_holds(b, k));
                let j = choose|j: int| 0 <= j < b.len() && #[trigger] b[j]@ == k;
                assert(j != 0);
                assert(b1[j - 1]@ == k);
            }
            if spec_holds(b1, k) {
                let j = choose|j: int| 0 <= j < b1.len() && #[trigger] b1[j]@ == k;
                assert(b[j + 1]@ == k);
                assert(spec_key_lt(b[0]@, b[j + 1]@));
                lemma_key_lt_total(b[0]@, k);
                assert(spec_holds(a, k));
                let i = choose|i: int| 0 <= i < a.len() && #[trigger] a[i]@ == k;
                assert(i != 0);
                assert(a1[i - 1]@ == k);
            }
        }
        assert(spec_strictly_sorted(a1)) by {
            assert forall|x: int, y: int| 0 <= x < y < a1.len() implies spec_key_lt(#[trigger] a1[x]@, #[trigger] a1[y]@) by {
                assert(spec_key_lt(a[x + 1]@, a[y + 1]@));
            }
        }
        assert(spec_strictly_sorted(b1)) by {
            assert forall|x: int, y: int| 0 <= x < y < b1.len() implies spec_key_lt(#[trigger] b1[x]@, #[trigger] b1[y]@) by {
                assert(spec_key_lt(b[x + 1]@, b[y + 1]@));
            }
        }
        lemma_plan_is_repeatable(a1, b1);
        assert(spec_key_views(a) =~= seq![a[0]@] + spec_key_views(a1));
        assert(spec_key_views(b) =~= seq![b[0]@] + spec_key_views(b1));
    }
}

} // verus!
