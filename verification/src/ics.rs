//! Reading `VEVENT` records from an iCalendar document into events and rules.
//!
//! Deliberately narrow: anything this application cannot represent is named
//! and refused, so an import never lands a weaker schedule than the file states.
use vstd::prelude::*;

use chrono::Datelike;

use crate::domain::{
    Event, RfcUid, spec_text_error, DomainError, DomainErrorView, EventFrequency, EventRecurrence, EventRecurrenceView, EventTime, EventTimeView,
    RFC_UID_SUFFIX, spec_offset_matches, spec_rule_error,
};
use crate::ids::{CalendarId, spec_is_v7, spec_millis_of, spec_uuid_text, spec_v7_millis};
use crate::text::{
    spec_has_whitespace, ascii_upper_chars, chars_eq, chars_of, is_blank, spec_ascii_upper_seq, spec_blank, spec_trim, string_of,
    trim_chars,
};
use crate::time::{
    CivilDate, LocalMapping, MAX_INSTANT_SECONDS, NANOS_PER_SECOND, OffsetDateTime, SECONDS_PER_DAY, UNIX_EPOCH_DAYS,
    Weekday, spec_day_in_range, spec_seconds_in_range, spec_tz_from_local, spec_tz_known, tz_from_local, tz_known,
};

verus! {

pub const DATE_FORMAT: &'static str = "%Y%m%d";
pub const DATETIME_FORMAT: &'static str = "%Y%m%dT%H%M%S";
/// The largest document this reader accepts, in bytes.
pub const MAX_BYTES: usize = 4194304;
/// The most events one document may hold.
pub const MAX_EVENTS: usize = 5000;

/// Why a document was refused.
#[derive(Debug, Clone, PartialEq, Eq)]
pub enum IcsError {
    TooLarge,
    TooManyEvents,
    Malformed { line: usize },
    UnbalancedBlock { line: usize, name: String },
    UnclosedBlock,
    MissingProperty { field: &'static str },
    UnreadableValue { kind: &'static str, value: String },
    UnknownTimezone { timezone: String },
    MissingEnd,
    UnsupportedRulePart { part: String },
    UnrepresentableLocalTime { timezone: String },
    Domain(DomainError),
}

/// A refusal with its texts taken by their characters.
pub enum IcsErrorView {
    TooLarge,
    TooManyEvents,
    Malformed { line: int },
    UnbalancedBlock { line: int, name: Seq<char> },
    UnclosedBlock,
    MissingProperty { field: &'static str },
    UnreadableValue { kind: &'static str, value: Seq<char> },
    UnknownTimezone { timezone: Seq<char> },
    MissingEnd,
    UnsupportedRulePart { part: Seq<char> },
    UnrepresentableLocalTime { timezone: Seq<char> },
    Domain(DomainErrorView),
}

impl View for IcsError {
    type V = IcsErrorView;

    open spec fn view(&self) -> IcsErrorView {
        match *self {
            IcsError::TooLarge => IcsErrorView::TooLarge,
            IcsError::TooManyEvents => IcsErrorView::TooManyEvents,
            IcsError::Malformed { line } => IcsErrorView::Malformed { line: line as int },
            IcsError::UnbalancedBlock { line, name } => IcsErrorView::UnbalancedBlock { line: line as int, name: name@ },
            IcsError::UnclosedBlock => IcsErrorView::UnclosedBlock,
            IcsError::MissingProperty { field } => IcsErrorView::MissingProperty { field },
            IcsError::UnreadableValue { kind, value } => IcsErrorView::UnreadableValue { kind, value: value@ },
            IcsError::UnknownTimezone { timezone } => IcsErrorView::UnknownTimezone { timezone: timezone@ },
            IcsError::MissingEnd => IcsErrorView::MissingEnd,
            IcsError::UnsupportedRulePart { part } => IcsErrorView::UnsupportedRulePart { part: part@ },
            IcsError::UnrepresentableLocalTime { timezone } => IcsErrorView::UnrepresentableLocalTime { timezone: timezone@ },
            IcsError::Domain(e) => IcsErrorView::Domain(e@),
        }
    }
}

/// A text made of a literal and some characters after it.
fn text_after(prefix: &str, rest: &Vec<char>) -> (r: String)
    ensures
        r@ == prefix@ + rest@,
{
    let mut out = chars_of(prefix);
    let mut i: usize = 0;
    while i < rest.len()
        invariant
            i <= rest@.len(),
            out@ == prefix@ + rest@.subrange(0, i as int),
        decreases rest.len() - i,
    {
        out.push(rest[i]);
        assert(rest@.subrange(0, i + 1) =~= rest@.subrange(0, i as int).push(rest@[i as int]));
        i += 1;
    }
    assert(rest@.subrange(0, rest@.len() as int) =~= rest@);
    string_of(out.as_slice())
}

// ── Lines ──

/// The document cut at each line feed: the pieces that ended with one, and
/// what follows the last.
pub open spec fn spec_cut(t: Seq<char>, k: int) -> (Seq<Seq<char>>, Seq<char>)
    decreases k,
{
    if k <= 0 {
        (Seq::empty(), Seq::empty())
    } else {
        let (done, cur) = spec_cut(t, k - 1);
        if t[k - 1] == '\n' {
            (done.push(cur), Seq::empty())
        } else {
            (done, cur.push(t[k - 1]))
        }
    }
}

/// A line without its ending: a line feed takes one carriage return before it
/// with it, and one more trailing carriage return is dropped.
pub open spec fn spec_clean_line(s: Seq<char>, had_feed: bool) -> Seq<char> {
    let s1 = if had_feed && s.len() > 0 && s.last() == '\r' { s.drop_last() } else { s };
    if s1.len() > 0 && s1.last() == '\r' { s1.drop_last() } else { s1 }
}

/// The document's lines, as `str::lines` gives them, each cleaned of a
/// trailing carriage return.
pub open spec fn spec_lines(t: Seq<char>) -> Seq<Seq<char>> {
    let (done, cur) = spec_cut(t, t.len() as int);
    done.map_values(|s: Seq<char>| spec_clean_line(s, true)) + if cur.len() > 0 {
        seq![spec_clean_line(cur, false)]
    } else {
        Seq::empty()
    }
}

/// Join one line onto the properties so far: a blank line is skipped, a line
/// starting with a space or tab continues the last property, any other line
/// starts a property at its one-based line number.
pub open spec fn spec_unfold_step(props: Seq<(int, Seq<char>)>, number: int, line: Seq<char>) -> Seq<(int, Seq<char>)> {
    if line.len() == 0 {
        props
    } else if (line[0] == ' ' || line[0] == '\t') && props.len() > 0 {
        props.update(props.len() - 1, (props.last().0, props.last().1 + line.drop_first()))
    } else {
        props.push((number, line))
    }
}

/// The properties of the first `k` lines.
pub open spec fn spec_unfold_lines(lines: Seq<Seq<char>>, k: int) -> Seq<(int, Seq<char>)>
    decreases k,
{
    if k <= 0 {
        Seq::empty()
    } else {
        spec_unfold_step(spec_unfold_lines(lines, k - 1), k, lines[k - 1])
    }
}

/// The document's properties with their line numbers, continuation lines joined.
pub open spec fn spec_unfold(t: Seq<char>) -> Seq<(int, Seq<char>)> {
    spec_unfold_lines(spec_lines(t), spec_lines(t).len() as int)
}

fn clean_line(s: Vec<char>, had_feed: bool) -> (r: Vec<char>)
    ensures
        r@ == spec_clean_line(s@, had_feed),
{
    let mut s = s;
    if had_feed && s.len() > 0 && s[s.len() - 1] == '\r' {
        s.pop();
    }
    if s.len() > 0 && s[s.len() - 1] == '\r' {
        s.pop();
    }
    s
}

fn lines_of(text: &Vec<char>) -> (r: Vec<Vec<char>>)
    ensures
        r@.map_values(|l: Vec<char>| l@) == spec_lines(text@),
{
    let mut done: Vec<Vec<char>> = Vec::new();
    let mut cur: Vec<char> = Vec::new();
    let mut k: usize = 0;
    while k < text.len()
        invariant
            k <= text@.len(),
            done@.map_values(|l: Vec<char>| l@) == spec_cut(text@, k as int).0.map_values(|s: Seq<char>| spec_clean_line(s, true)),
            cur@ == spec_cut(text@, k as int).1,
        decreases text.len() - k,
    {
        let c = text[k];
        let ghost before = done@;
        if c == '\n' {
            let ghost u = cur@;
            let line = clean_line(cur, true);
            let ghost lv = line@;
            done.push(line);
            cur = Vec::new();
            proof {
                let d = spec_cut(text@, k as int).0;
                assert(lv == spec_clean_line(u, true));
                assert(done@.map_values(|l: Vec<char>| l@) =~= before.map_values(|l: Vec<char>| l@).push(lv));
                assert(d.push(u).map_values(|s: Seq<char>| spec_clean_line(s, true)) =~= d.map_values(|s: Seq<char>| spec_clean_line(s, true)).push(spec_clean_line(u, true)));
            }
        } else {
            cur.push(c);
        }
        k += 1;
    }
    let ghost full = spec_cut(text@, text@.len() as int);
    if cur.len() > 0 {
        let ghost before = done@;
        let line = clean_line(cur, false);
        done.push(line);
        assert(done@.map_values(|l: Vec<char>| l@) =~= full.0.map_values(|s: Seq<char>| spec_clean_line(s, true)) + seq![spec_clean_line(full.1, false)]);
    } else {
        assert(done@.map_values(|l: Vec<char>| l@) =~= full.0.map_values(|s: Seq<char>| spec_clean_line(s, true)) + Seq::<Seq<char>>::empty());
    }
    done
}

pub open spec fn spec_props_view(props: Seq<(usize, Vec<char>)>) -> Seq<(int, Seq<char>)> {
    props.map_values(|p: (usize, Vec<char>)| (p.0 as int, p.1@))
}

/// Join continuation lines, which RFC 5545 marks with a leading space or tab.
fn unfold(text: &Vec<char>) -> (r: Vec<(usize, Vec<char>)>)
    ensures
        spec_props_view(r@) == spec_unfold(text@),
{
    let lines = lines_of(text);
    let ghost ls = spec_lines(text@);
    let mut props: Vec<(usize, Vec<char>)> = Vec::new();
    let mut k: usize = 0;
    while k < lines.len()
        invariant
            k <= lines@.len(),
            lines@.map_values(|l: Vec<char>| l@) == ls,
            spec_props_view(props@) == spec_unfold_lines(ls, k as int),
            forall|i: int| 0 <= i < props@.len() ==> (#[trigger] props@[i]).0 <= k,
        decreases lines.len() - k,
    {
        let line = &lines[k];
        assert(ls[k as int] == line@);
        let ghost before = props@;
        if line.len() == 0 {
        } else if (line[0] == ' ' || line[0] == '\t') && props.len() > 0 {
            let last = props.len() - 1;
            let (number, mut joined) = props.remove(last);
            let mut i: usize = 1;
            while i < line.len()
                invariant
                    1 <= i <= line@.len(),
                    joined@ == before[last as int].1@ + line@.subrange(1, i as int),
                decreases line.len() - i,
            {
                joined.push(line[i]);
                assert(line@.subrange(1, i + 1) =~= line@.subrange(1, i as int).push(line@[i as int]));
                i += 1;
            }
            props.push((number, joined));
            proof {
                assert(line@.subrange(1, line@.len() as int) =~= line@.drop_first());
                assert(spec_props_view(props@) =~= spec_props_view(before).update(last as int, (before[last as int].0 as int, before[last as int].1@ + line@.drop_first())));
            }
        } else {
            props.push((k + 1, line.clone()));
            assert(spec_props_view(props@) =~= spec_props_view(before).push(((k + 1) as int, line@)));
        }
        k += 1;
    }
    props
}

// ── Properties ──

/// The colon that ends a property's head, at or after `i`: the first one not
/// inside a double-quoted parameter value, or -1.
pub open spec fn spec_value_colon(p: Seq<char>, i: int, quoted: bool) -> int
    decreases p.len() - i,
{
    if i < 0 || i >= p.len() {
        -1
    } else if p[i] == '"' {
        spec_value_colon(p, i + 1, !quoted)
    } else if p[i] == ':' && !quoted {
        i
    } else {
        spec_value_colon(p, i + 1, quoted)
    }
}

proof fn lemma_value_colon(p: Seq<char>, i: int, quoted: bool)
    requires
        0 <= i,
    ensures
        spec_value_colon(p, i, quoted) == -1 || (i <= spec_value_colon(p, i, quoted) < p.len()),
    decreases p.len() - i,
{
    if i < p.len() {
        if p[i] == '"' {
            lemma_value_colon(p, i + 1, !quoted);
        } else if !(p[i] == ':' && !quoted) {
            lemma_value_colon(p, i + 1, quoted);
        }
    }
}

/// Text cut at each separator, as `str::split` cuts it: the pieces before each
/// separator and the piece after the last.
pub open spec fn spec_split_at(t: Seq<char>, sep: char, k: int) -> (Seq<Seq<char>>, Seq<char>)
    decreases k,
{
    if k <= 0 {
        (Seq::empty(), Seq::empty())
    } else {
        let (done, cur) = spec_split_at(t, sep, k - 1);
        if t[k - 1] == sep {
            (done.push(cur), Seq::empty())
        } else {
            (done, cur.push(t[k - 1]))
        }
    }
}

pub open spec fn spec_pieces(t: Seq<char>, sep: char) -> Seq<Seq<char>> {
    let (done, cur) = spec_split_at(t, sep, t.len() as int);
    done.push(cur)
}

fn pieces(t: &Vec<char>, sep: char) -> (r: Vec<Vec<char>>)
    ensures
        r@.map_values(|v: Vec<char>| v@) == spec_pieces(t@, sep),
        r@.len() >= 1,
{
    let mut done: Vec<Vec<char>> = Vec::new();
    let mut cur: Vec<char> = Vec::new();
    let mut k: usize = 0;
    while k < t.len()
        invariant
            k <= t@.len(),
            done@.map_values(|v: Vec<char>| v@) == spec_split_at(t@, sep, k as int).0,
            cur@ == spec_split_at(t@, sep, k as int).1,
        decreases t.len() - k,
    {
        let ghost before = done@;
        if t[k] == sep {
            let ghost u = cur@;
            done.push(cur);
            cur = Vec::new();
            assert(done@.map_values(|v: Vec<char>| v@) =~= before.map_values(|v: Vec<char>| v@).push(u));
        } else {
            cur.push(t[k]);
        }
        k += 1;
    }
    let ghost before = done@;
    let ghost u = cur@;
    done.push(cur);
    assert(done@.map_values(|v: Vec<char>| v@) =~= before.map_values(|v: Vec<char>| v@).push(u));
    done
}

/// Text split at its first `=`, if it has one.
pub open spec fn spec_split_eq(t: Seq<char>) -> Option<(Seq<char>, Seq<char>)> {
    if exists|i: int| 0 <= i < t.len() && t[i] == '=' {
        let i = choose|i: int| 0 <= i < t.len() && t[i] == '=' && forall|j: int| 0 <= j < i ==> t[j] != '=';
        Some((t.subrange(0, i), t.subrange(i + 1, t.len() as int)))
    } else {
        None
    }
}

fn split_eq(t: &Vec<char>) -> (r: Option<(Vec<char>, Vec<char>)>)
    ensures
        match spec_split_eq(t@) {
            Some(kv) => r matches Some(p) && p.0@ == kv.0 && p.1@ == kv.1,
            None => r is None,
        },
{
    let mut i: usize = 0;
    while i < t.len()
        invariant
            i <= t@.len(),
            forall|j: int| 0 <= j < i ==> t@[j] != '=',
        decreases t.len() - i,
    {
        if t[i] == '=' {
            proof {
                let w = choose|w: int| 0 <= w < t@.len() && t@[w] == '=' && forall|j: int| 0 <= j < w ==> t@[j] != '=';
                if w < i {
                } else if w > i {
                    assert(t@[i as int] != '=');
                }
                assert(w == i);
            }
            let mut key: Vec<char> = Vec::new();
            let mut j: usize = 0;
            while j < i
                invariant
                    j <= i < t@.len(),
                    key@ == t@.subrange(0, j as int),
                decreases i - j,
            {
                key.push(t[j]);
                assert(t@.subrange(0, j + 1) =~= t@.subrange(0, j as int).push(t@[j as int]));
                j += 1;
            }
            let mut value: Vec<char> = Vec::new();
            let mut j: usize = i + 1;
            while j < t.len()
                invariant
                    i + 1 <= j <= t@.len(),
                    value@ == t@.subrange(i + 1, j as int),
                decreases t.len() - j,
            {
                value.push(t[j]);
                assert(t@.subrange(i + 1, j + 1) =~= t@.subrange(i + 1, j as int).push(t@[j as int]));
                j += 1;
            }
            return Some((key, value));
        }
        i += 1;
    }
    None
}

/// The parameters among the pieces after the name: each piece with an `=`,
/// its key trimmed and upper-cased, its value trimmed.
pub open spec fn spec_params(ps: Seq<Seq<char>>, k: int) -> Seq<(Seq<char>, Seq<char>)>
    decreases k,
{
    if k <= 1 {
        Seq::empty()
    } else {
        let rest = spec_params(ps, k - 1);
        match spec_split_eq(ps[k - 1]) {
            Some(kv) => rest.push((spec_ascii_upper_seq(spec_trim(kv.0)), spec_trim(kv.1))),
            None => rest,
        }
    }
}

/// `NAME;PARAM=VALUE:VALUE` split into the upper-cased name, the parameters
/// and the value, when the head has a colon after it and a name.
pub open spec fn spec_split_property(p: Seq<char>) -> Option<(Seq<char>, Seq<(Seq<char>, Seq<char>)>, Seq<char>)> {
    let c = spec_value_colon(p, 0, false);
    if c < 0 {
        None
    } else {
        let ps = spec_pieces(p.subrange(0, c), ';');
        let name = spec_ascii_upper_seq(spec_trim(ps[0]));
        if name.len() == 0 {
            None
        } else {
            Some((name, spec_params(ps, ps.len() as int), p.subrange(c + 1, p.len() as int)))
        }
    }
}

pub open spec fn spec_param_views(ps: Seq<(Vec<char>, Vec<char>)>) -> Seq<(Seq<char>, Seq<char>)> {
    ps.map_values(|p: (Vec<char>, Vec<char>)| (p.0@, p.1@))
}

/// The colon that ends the property head, ignoring colons inside a quoted parameter.
fn find_value_colon(p: &Vec<char>) -> (r: Option<usize>)
    ensures
        match r {
            Some(c) => c < p@.len() && spec_value_colon(p@, 0, false) == c,
            None => spec_value_colon(p@, 0, false) == -1,
        },
{
    let mut quoted = false;
    let mut i: usize = 0;
    while i < p.len()
        invariant
            i <= p@.len(),
            spec_value_colon(p@, 0, false) == spec_value_colon(p@, i as int, quoted),
        decreases p.len() - i,
    {
        let c = p[i];
        if c == '"' {
            quoted = !quoted;
        } else if c == ':' && !quoted {
            return Some(i);
        }
        i += 1;
    }
    None
}

fn split_property(p: &Vec<char>) -> (r: Option<(Vec<char>, Vec<(Vec<char>, Vec<char>)>, Vec<char>)>)
    ensures
        match spec_split_property(p@) {
            Some(x) => r matches Some(y) && y.0@ == x.0 && spec_param_views(y.1@) == x.1 && y.2@ == x.2,
            None => r is None,
        },
{
    let c = match find_value_colon(p) {
        Some(c) => c,
        None => return None,
    };
    let mut head: Vec<char> = Vec::new();
    let mut j: usize = 0;
    while j < c
        invariant
            j <= c < p@.len(),
            head@ == p@.subrange(0, j as int),
        decreases c - j,
    {
        head.push(p[j]);
        assert(p@.subrange(0, j + 1) =~= p@.subrange(0, j as int).push(p@[j as int]));
        j += 1;
    }
    let mut value: Vec<char> = Vec::new();
    assert(c < p.len());
    let mut j: usize = c + 1;
    while j < p.len()
        invariant
            c + 1 <= j <= p@.len(),
            value@ == p@.subrange(c + 1, j as int),
        decreases p.len() - j,
    {
        value.push(p[j]);
        assert(p@.subrange(c + 1, j + 1) =~= p@.subrange(c + 1, j as int).push(p@[j as int]));
        j += 1;
    }
    let ps = pieces(&head, ';');
    let ghost pv = ps@.map_values(|v: Vec<char>| v@);
    assert(pv[0] == ps@[0]@);
    let name = ascii_upper_chars(trim_chars(ps[0].as_slice()).as_slice());
    if name.len() == 0 {
        return None;
    }
    let mut params: Vec<(Vec<char>, Vec<char>)> = Vec::new();
    let mut k: usize = 1;
    while k < ps.len()
        invariant
            1 <= k <= ps@.len(),
            pv == ps@.map_values(|v: Vec<char>| v@),
            spec_param_views(params@) == spec_params(pv, k as int),
        decreases ps.len() - k,
    {
        assert(pv[k as int] == ps@[k as int]@);
        let ghost before = params@;
        match split_eq(&ps[k]) {
            Some((key, val)) => {
                let key = ascii_upper_chars(trim_chars(key.as_slice()).as_slice());
                let val = trim_chars(val.as_slice());
                params.push((key, val));
                assert(spec_param_views(params@) =~= spec_param_views(before).push((key@, val@)));
            },
            None => {},
        }
        k += 1;
    }
    Some((name, params, value))
}

// ── Text values ──

/// RFC 5545 text with its escapes undone: `\n` or `\N` is a line feed, a
/// backslash before any other character is that character, and a trailing
/// backslash stays.
pub open spec fn spec_unescape(s: Seq<char>) -> Seq<char>
    decreases s.len(),
{
    if s.len() == 0 {
        Seq::empty()
    } else if s[0] != '\\' {
        seq![s[0]] + spec_unescape(s.drop_first())
    } else if s.len() == 1 {
        seq!['\\']
    } else if s[1] == 'n' || s[1] == 'N' {
        seq!['\n'] + spec_unescape(s.subrange(2, s.len() as int))
    } else {
        seq![s[1]] + spec_unescape(s.subrange(2, s.len() as int))
    }
}

fn unescape(value: &Vec<char>) -> (r: Vec<char>)
    ensures
        r@ == spec_unescape(value@),
{
    let mut out: Vec<char> = Vec::new();
    let mut i: usize = 0;
    assert(value@.subrange(0, value@.len() as int) =~= value@);
    while i < value.len()
        invariant
            i <= value@.len(),
            out@ + spec_unescape(value@.subrange(i as int, value@.len() as int)) == spec_unescape(value@),
        decreases value.len() - i,
    {
        let ghost rest = value@.subrange(i as int, value@.len() as int);
        let c = value[i];
        if c != '\\' {
            out.push(c);
            assert(rest.drop_first() =~= value@.subrange(i + 1, value@.len() as int));
            assert(out@ + spec_unescape(value@.subrange(i + 1, value@.len() as int)) =~= spec_unescape(value@));
            i += 1;
        } else if i + 1 == value.len() {
            out.push('\\');
            assert(value@.subrange(i + 1, value@.len() as int) =~= Seq::<char>::empty());
            assert(out@ + spec_unescape(value@.subrange(i + 1, value@.len() as int)) =~= spec_unescape(value@));
            i += 1;
        } else {
            let d = value[i + 1];
            if d == 'n' || d == 'N' {
                out.push('\n');
            } else {
                out.push(d);
            }
            assert(rest.subrange(2, rest.len() as int) =~= value@.subrange(i + 2, value@.len() as int));
            assert(out@ + spec_unescape(value@.subrange(i + 2, value@.len() as int)) =~= spec_unescape(value@));
            i += 2;
        }
    }
    assert(out@ =~= spec_unescape(value@));
    out
}

// ── Numbers ──

pub open spec fn spec_is_digit(c: char) -> bool {
    '0' <= c <= '9'
}

/// The number a run of decimal digits writes.
pub open spec fn spec_digits_value(s: Seq<char>) -> int
    decreases s.len(),
{
    if s.len() == 0 {
        0
    } else {
        spec_digits_value(s.drop_last()) * 10 + (s.last() as int - 48)
    }
}

/// What `str::parse::<u32>` reads: an optional `+`, then one or more decimal
/// digits whose value fits in 32 bits.
pub open spec fn spec_strip_plus(s: Seq<char>) -> Seq<char> {
    if s.len() > 0 && s[0] == '+' { s.drop_first() } else { s }
}

pub open spec fn spec_parse_u32(s: Seq<char>) -> Option<u32> {
    let d = spec_strip_plus(s);
    if d.len() == 0 || exists|i: int| 0 <= i < d.len() && !spec_is_digit(#[trigger] d[i]) {
        None
    } else if spec_digits_value(d) > u32::MAX {
        None
    } else {
        Some(spec_digits_value(d) as u32)
    }
}

proof fn lemma_digits_grow(s: Seq<char>, k: int)
    requires
        0 <= k <= s.len(),
        forall|i: int| 0 <= i < s.len() ==> spec_is_digit(#[trigger] s[i]),
    ensures
        0 <= spec_digits_value(s.subrange(0, k)) <= spec_digits_value(s),
    decreases s.len(),
{
    if s.len() > 0 {
        if k == s.len() {
            assert(s.subrange(0, k) =~= s);
            lemma_digits_grow(s.drop_last(), k - 1);
            assert(s.drop_last().subrange(0, k - 1) =~= s.drop_last());
        } else {
            lemma_digits_grow(s.drop_last(), k);
            assert(s.drop_last().subrange(0, k) =~= s.subrange(0, k));
            lemma_digits_grow(s.drop_last(), s.len() - 1);
            assert(s.drop_last().subrange(0, s.len() - 1) =~= s.drop_last());
        }
    }
}

fn parse_u32(s: &Vec<char>) -> (r: Option<u32>)
    ensures
        r == spec_parse_u32(s@),
{
    let start: usize = if s.len() > 0 && s[0] == '+' { 1 } else { 0 };
    let ghost d = spec_strip_plus(s@);
    assert(d =~= s@.subrange(start as int, s@.len() as int));
    if start == s.len() {
        return None;
    }
    let mut v: u64 = 0;
    let mut i: usize = start;
    while i < s.len()
        invariant
            start <= i <= s@.len(),
            d == spec_strip_plus(s@),
            d =~= s@.subrange(start as int, s@.len() as int),
            forall|j: int| 0 <= j < i - start ==> spec_is_digit(#[trigger] d[j]),
            v == spec_digits_value(d.subrange(0, i - start)),
            v <= u32::MAX,
        decreases s.len() - i,
    {
        let c = s[i];
        assert(c == d[i - start]);
        if !('0' <= c && c <= '9') {
            assert(!spec_is_digit(d[i - start]));
            return None;
        }
        let digit = (c as u32 - 48) as u64;
        assert(d.subrange(0, i + 1 - start).drop_last() =~= d.subrange(0, i - start));
        assert(d.subrange(0, i + 1 - start).last() == c);
        assert(spec_digits_value(d.subrange(0, i + 1 - start)) == v * 10 + digit);
        v = v * 10 + digit;
        if v > 4294967295 {
            proof {
                if forall|j: int| 0 <= j < d.len() ==> spec_is_digit(#[trigger] d[j]) {
                    lemma_digits_grow(d, i + 1 - start);
                }
            }
            return None;
        }
        i += 1;
    }
    assert(d.subrange(0, d.len() as int) =~= d);
    Some(v as u32)
}

// ── Repeat rules ──

/// The weekday a two-letter code names, in upper case.
pub open spec fn spec_weekday_code(u: Seq<char>) -> Option<Weekday> {
    if u == "MO"@ {
        Some(Weekday::Mon)
    } else if u == "TU"@ {
        Some(Weekday::Tue)
    } else if u == "WE"@ {
        Some(Weekday::Wed)
    } else if u == "TH"@ {
        Some(Weekday::Thu)
    } else if u == "FR"@ {
        Some(Weekday::Fri)
    } else if u == "SA"@ {
        Some(Weekday::Sat)
    } else if u == "SU"@ {
        Some(Weekday::Sun)
    } else {
        None
    }
}

/// A BYDAY value; the ordinal form such as `1SU` is refused.
pub open spec fn spec_read_weekday(value: Seq<char>) -> Result<Weekday, IcsErrorView> {
    match spec_weekday_code(spec_ascii_upper_seq(value)) {
        Some(w) => Ok(w),
        None => Err(IcsErrorView::UnsupportedRulePart { part: "BYDAY="@ + value }),
    }
}

fn read_weekday(value: &Vec<char>) -> (r: Result<Weekday, IcsError>)
    ensures
        match spec_read_weekday(value@) {
            Ok(w) => r == Ok::<Weekday, IcsError>(w),
            Err(e) => r matches Err(x) && x@ == e,
        },
{
    let u = ascii_upper_chars(value.as_slice());
    let u = u.as_slice();
    if chars_eq(u, chars_of("MO").as_slice()) {
        Ok(Weekday::Mon)
    } else if chars_eq(u, chars_of("TU").as_slice()) {
        Ok(Weekday::Tue)
    } else if chars_eq(u, chars_of("WE").as_slice()) {
        Ok(Weekday::Wed)
    } else if chars_eq(u, chars_of("TH").as_slice()) {
        Ok(Weekday::Thu)
    } else if chars_eq(u, chars_of("FR").as_slice()) {
        Ok(Weekday::Fri)
    } else if chars_eq(u, chars_of("SA").as_slice()) {
        Ok(Weekday::Sat)
    } else if chars_eq(u, chars_of("SU").as_slice()) {
        Ok(Weekday::Sun)
    } else {
        Err(IcsError::UnsupportedRulePart { part: text_after("BYDAY=", value) })
    }
}

/// The weekdays of a BYDAY value's non-blank pieces, after those read so far.
pub open spec fn spec_read_days(days: Seq<Weekday>, ps: Seq<Seq<char>>, k: int) -> Result<Seq<Weekday>, IcsErrorView>
    decreases k,
{
    if k <= 0 {
        Ok(days)
    } else {
        match spec_read_days(days, ps, k - 1) {
            Err(e) => Err(e),
            Ok(so_far) => if spec_blank(ps[k - 1]) {
                Ok(so_far)
            } else {
                match spec_read_weekday(spec_trim(ps[k - 1])) {
                    Ok(w) => Ok(so_far.push(w)),
                    Err(e) => Err(e),
                }
            },
        }
    }
}

/// The parts of a repeat rule read so far.
pub struct RuleState {
    pub frequency: Option<EventFrequency>,
    pub interval: u32,
    pub count: Option<u32>,
    pub until: Option<CivilDate>,
    pub days: Seq<Weekday>,
}

/// The frequency a FREQ value names, in upper case.
pub open spec fn spec_frequency_code(u: Seq<char>) -> Option<EventFrequency> {
    if u == "DAILY"@ {
        Some(EventFrequency::Daily)
    } else if u == "WEEKLY"@ {
        Some(EventFrequency::Weekly)
    } else if u == "MONTHLY"@ {
        Some(EventFrequency::Monthly)
    } else {
        None
    }
}

/// One `KEY=VALUE` part of a rule applied to what was read before it.
pub open spec fn spec_rule_part(st: RuleState, part: Seq<char>) -> Result<RuleState, IcsErrorView> {
    if spec_blank(part) {
        Ok(st)
    } else {
        match spec_split_eq(part) {
            None => Err(IcsErrorView::UnreadableValue { kind: "RRULE part", value: part }),
            Some(kv) => {
                let key = spec_ascii_upper_seq(spec_trim(kv.0));
                let raw = spec_trim(kv.1);
                if key == "FREQ"@ {
                    match spec_frequency_code(spec_ascii_upper_seq(raw)) {
                        Some(f) => Ok(RuleState { frequency: Some(f), ..st }),
                        None => Err(IcsErrorView::UnsupportedRulePart { part: "FREQ="@ + spec_ascii_upper_seq(raw) }),
                    }
                } else if key == "INTERVAL"@ {
                    match spec_parse_u32(raw) {
                        Some(n) => Ok(RuleState { interval: n, ..st }),
                        None => Err(IcsErrorView::UnreadableValue { kind: "RRULE INTERVAL", value: raw }),
                    }
                } else if key == "COUNT"@ {
                    match spec_parse_u32(raw) {
                        Some(n) => Ok(RuleState { count: Some(n), ..st }),
                        None => Err(IcsErrorView::UnreadableValue { kind: "RRULE COUNT", value: raw }),
                    }
                } else if key == "UNTIL"@ {
                    match spec_parse_date(spec_pieces(raw, 'T')[0], DATE_FORMAT@) {
                        Some(d) => Ok(RuleState { until: Some(CivilDate { days: d as i32 }), ..st }),
                        None => Err(IcsErrorView::UnreadableValue { kind: "RRULE UNTIL", value: raw }),
                    }
                } else if key == "BYDAY"@ {
                    let ps = spec_pieces(raw, ',');
                    match spec_read_days(st.days, ps, ps.len() as int) {
                        Ok(days) => Ok(RuleState { days, ..st }),
                        Err(e) => Err(e),
                    }
                } else {
                    Err(IcsErrorView::UnsupportedRulePart { part: key })
                }
            },
        }
    }
}

/// The state after the first `k` parts.
pub open spec fn spec_rule_parts(ps: Seq<Seq<char>>, k: int) -> Result<RuleState, IcsErrorView>
    decreases k,
{
    if k <= 0 {
        Ok(RuleState { frequency: None, interval: 1, count: None, until: None, days: Seq::empty() })
    } else {
        match spec_rule_parts(ps, k - 1) {
            Err(e) => Err(e),
            Ok(st) => spec_rule_part(st, ps[k - 1]),
        }
    }
}

/// An RRULE value read into a rule, or the first part that cannot be represented.
pub open spec fn spec_read_rule(value: Seq<char>) -> Result<EventRecurrenceView, IcsErrorView> {
    let ps = spec_pieces(value, ';');
    match spec_rule_parts(ps, ps.len() as int) {
        Err(e) => Err(e),
        Ok(st) => match st.frequency {
            None => Err(IcsErrorView::MissingProperty { field: "FREQ" }),
            Some(f) => match spec_rule_error(f, st.interval, st.count, st.until, st.days) {
                Some(e) => Err(IcsErrorView::Domain(e@)),
                None => Ok(EventRecurrenceView {
                    frequency: f,
                    interval: st.interval,
                    count: st.count,
                    until: st.until,
                    by_weekday: st.days,
                }),
            },
        },
    }
}

fn read_days(days: &mut Vec<Weekday>, raw: &Vec<char>) -> (r: Result<(), IcsError>)
    ensures
        ({
            let ps = spec_pieces(raw@, ',');
            match spec_read_days(old(days)@, ps, ps.len() as int) {
                Ok(d) => r is Ok && final(days)@ == d,
                Err(e) => r matches Err(x) && x@ == e,
            }
        }),
{
    let ps = pieces(raw, ',');
    let ghost pv = ps@.map_values(|v: Vec<char>| v@);
    let ghost start = days@;
    let mut k: usize = 0;
    while k < ps.len()
        invariant
            k <= ps@.len(),
            pv == ps@.map_values(|v: Vec<char>| v@),
            pv == spec_pieces(raw@, ','),
            start == old(days)@,
            spec_read_days(start, pv, k as int) == Ok::<Seq<Weekday>, IcsErrorView>(days@),
        decreases ps.len() - k,
    {
        assert(pv[k as int] == ps@[k as int]@);
        let piece = ps[k].as_slice();
        if !is_blank_chars(piece) {
            let day = trim_chars(piece);
            match read_weekday(&day) {
                Ok(w) => days.push(w),
                Err(e) => {
                    proof {
                        lemma_read_days_fails(start, pv, k as int + 1, pv.len() as int);
                    }
                    return Err(e);
                },
            }
        }
        k += 1;
    }
    Ok(())
}

proof fn lemma_read_days_fails(days: Seq<Weekday>, ps: Seq<Seq<char>>, k: int, n: int)
    requires
        0 < k <= n,
        spec_read_days(days, ps, k) is Err,
    ensures
        spec_read_days(days, ps, n) == spec_read_days(days, ps, k),
    decreases n - k,
{
    if n > k {
        lemma_read_days_fails(days, ps, k, n - 1);
    }
}

proof fn lemma_rule_parts_fail(ps: Seq<Seq<char>>, k: int, n: int)
    requires
        0 < k <= n,
        spec_rule_parts(ps, k) is Err,
    ensures
        spec_rule_parts(ps, n) == spec_rule_parts(ps, k),
    decreases n - k,
{
    if n > k {
        lemma_rule_parts_fail(ps, k, n - 1);
    }
}

fn is_blank_chars(s: &[char]) -> (r: bool)
    ensures
        r == spec_blank(s@),
{
    let t = string_of(s);
    is_blank(t.as_str())
}

/// Read an RRULE, naming any part this application cannot represent.
fn read_rule(value: &Vec<char>) -> (r: Result<EventRecurrence, IcsError>)
    ensures
        match spec_read_rule(value@) {
            Ok(v) => r matches Ok(rule) && rule@ == v,
            Err(e) => r matches Err(x) && x@ == e,
        },
{
    let ps = pieces(value, ';');
    let ghost pv = ps@.map_values(|v: Vec<char>| v@);
    let mut frequency: Option<EventFrequency> = None;
    let mut interval: u32 = 1;
    let mut count: Option<u32> = None;
    let mut until: Option<CivilDate> = None;
    let mut days: Vec<Weekday> = Vec::new();
    let mut k: usize = 0;
    while k < ps.len()
        invariant
            k <= ps@.len(),
            pv == ps@.map_values(|v: Vec<char>| v@),
            pv == spec_pieces(value@, ';'),
            spec_rule_parts(pv, k as int) == Ok::<RuleState, IcsErrorView>(
                RuleState { frequency, interval, count, until, days: days@ },
            ),
        decreases ps.len() - k,
    {
        assert(pv[k as int] == ps@[k as int]@);
        let part = &ps[k];
        let ghost st = RuleState { frequency, interval, count, until, days: days@ };
        if !is_blank_chars(part.as_slice()) {
            let (raw_key, raw_value) = match split_eq(part) {
                Some(kv) => kv,
                None => {
                    proof { lemma_rule_parts_fail(pv, k as int + 1, pv.len() as int); }
                    return Err(IcsError::UnreadableValue { kind: "RRULE part", value: string_of(part.as_slice()) });
                },
            };
            let key = ascii_upper_chars(trim_chars(raw_key.as_slice()).as_slice());
            let raw = trim_chars(raw_value.as_slice());
            let key_s = key.as_slice();
            if chars_eq(key_s, chars_of("FREQ").as_slice()) {
                let up = ascii_upper_chars(raw.as_slice());
                let upper = up.as_slice();
                if chars_eq(upper, chars_of("DAILY").as_slice()) {
                    frequency = Some(EventFrequency::Daily);
                } else if chars_eq(upper, chars_of("WEEKLY").as_slice()) {
                    frequency = Some(EventFrequency::Weekly);
                } else if chars_eq(upper, chars_of("MONTHLY").as_slice()) {
                    frequency = Some(EventFrequency::Monthly);
                } else {
                    proof { lemma_rule_parts_fail(pv, k as int + 1, pv.len() as int); }
                    return Err(IcsError::UnsupportedRulePart { part: text_after("FREQ=", &up) });
                }
            } else if chars_eq(key_s, chars_of("INTERVAL").as_slice()) {
                match parse_u32(&raw) {
                    Some(n) => interval = n,
                    None => {
                        proof { lemma_rule_parts_fail(pv, k as int + 1, pv.len() as int); }
                        return Err(IcsError::UnreadableValue { kind: "RRULE INTERVAL", value: string_of(raw.as_slice()) });
                    },
                }
            } else if chars_eq(key_s, chars_of("COUNT").as_slice()) {
                match parse_u32(&raw) {
                    Some(n) => count = Some(n),
                    None => {
                        proof { lemma_rule_parts_fail(pv, k as int + 1, pv.len() as int); }
                        return Err(IcsError::UnreadableValue { kind: "RRULE COUNT", value: string_of(raw.as_slice()) });
                    },
                }
            } else if chars_eq(key_s, chars_of("UNTIL").as_slice()) {
                let date_pieces = pieces(&raw, 'T');
                assert(date_pieces@.map_values(|v: Vec<char>| v@)[0] == date_pieces@[0]@);
                let date_text = string_of(date_pieces[0].as_slice());
                match parse_date(date_text.as_str(), DATE_FORMAT) {
                    Some(d) => until = Some(d),
                    None => {
                        proof { lemma_rule_parts_fail(pv, k as int + 1, pv.len() as int); }
                        return Err(IcsError::UnreadableValue { kind: "RRULE UNTIL", value: string_of(raw.as_slice()) });
                    },
                }
            } else if chars_eq(key_s, chars_of("BYDAY").as_slice()) {
                match read_days(&mut days, &raw) {
                    Ok(()) => {},
                    Err(e) => {
                        proof { lemma_rule_parts_fail(pv, k as int + 1, pv.len() as int); }
                        return Err(e);
                    },
                }
            } else {
                proof { lemma_rule_parts_fail(pv, k as int + 1, pv.len() as int); }
                return Err(IcsError::UnsupportedRulePart { part: string_of(key_s) });
            }
        }
        k += 1;
    }
    let frequency = match frequency {
        Some(f) => f,
        None => return Err(IcsError::MissingProperty { field: "FREQ" }),
    };
    match EventRecurrence::new(frequency, interval, count, until, days) {
        Ok(rule) => Ok(rule),
        Err(e) => Err(IcsError::Domain(e)),
    }
}

// ── Dates and times ──

/// A DTSTART or DTEND value, before the pair is resolved into an event time.
pub enum Stamp {
    Date(CivilDate),
    /// A wall-clock time: seconds from the epoch read as if at UTC, and the zone it is in.
    Local { local: i64, nanos: u32, timezone: Vec<char> },
}

pub enum StampView {
    Date(CivilDate),
    Local { local: int, nanos: int, timezone: Seq<char> },
}

impl View for Stamp {
    type V = StampView;

    open spec fn view(&self) -> StampView {
        match *self {
            Stamp::Date(d) => StampView::Date(d),
            Stamp::Local { local, nanos, timezone } => StampView::Local {
                local: local as int,
                nanos: nanos as int,
                timezone: timezone@,
            },
        }
    }
}

/// A date stamp holds a date the calendar represents.
pub open spec fn spec_stamp_ok(s: StampView) -> bool {
    s matches StampView::Date(d) ==> d.wf()
}

/// The value of the first parameter with this key.
pub open spec fn spec_param(ps: Seq<(Seq<char>, Seq<char>)>, key: Seq<char>) -> Option<Seq<char>>
    decreases ps.len(),
{
    if ps.len() == 0 {
        None
    } else if ps[0].0 == key {
        Some(ps[0].1)
    } else {
        spec_param(ps.drop_first(), key)
    }
}

fn param(ps: &Vec<(Vec<char>, Vec<char>)>, key: &str) -> (r: Option<Vec<char>>)
    ensures
        match spec_param(spec_param_views(ps@), key@) {
            Some(v) => r matches Some(x) && x@ == v,
            None => r is None,
        },
{
    let want = chars_of(key);
    let ghost all = spec_param_views(ps@);
    let mut i: usize = 0;
    assert(all.subrange(0, all.len() as int) =~= all);
    while i < ps.len()
        invariant
            i <= ps@.len(),
            all == spec_param_views(ps@),
            want@ == key@,
            spec_param(all, key@) == spec_param(all.subrange(i as int, all.len() as int), key@),
        decreases ps.len() - i,
    {
        let ghost rest = all.subrange(i as int, all.len() as int);
        assert(rest[0] == (ps@[i as int].0@, ps@[i as int].1@));
        if chars_eq(ps[i].0.as_slice(), want.as_slice()) {
            return Some(ps[i].1.clone());
        }
        assert(rest.drop_first() =~= all.subrange(i + 1, all.len() as int));
        i += 1;
    }
    None
}

/// Seconds from the epoch to the start of a day, read as if at UTC.
pub open spec fn spec_midnight(days: int) -> int {
    (days - UNIX_EPOCH_DAYS) * SECONDS_PER_DAY
}

/// A DTSTART or DTEND value with its parameters: a `VALUE=DATE` date, or a
/// wall-clock time in UTC (a trailing `Z`) or in the zone `TZID` names; a date
/// without a time is taken at midnight.
pub open spec fn spec_read_stamp(params: Seq<(Seq<char>, Seq<char>)>, value: Seq<char>) -> Result<StampView, IcsErrorView> {
    let v = spec_trim(value);
    if spec_param(params, "VALUE"@) == Some("DATE"@) {
        match spec_parse_date(v, DATE_FORMAT@) {
            Some(d) => Ok(StampView::Date(CivilDate { days: d as i32 })),
            None => Err(IcsErrorView::UnreadableValue { kind: "date", value: v }),
        }
    } else {
        let z = v.len() > 0 && v.last() == 'Z';
        let naive = if z { v.drop_last() } else { v };
        let zone = if z { Some("UTC"@) } else { spec_param(params, "TZID"@) };
        match zone {
            None => Err(IcsErrorView::MissingProperty { field: "TZID" }),
            Some(tz) => match spec_parse_datetime(naive, DATETIME_FORMAT@) {
                Some(at) => Ok(StampView::Local { local: at.0, nanos: at.1, timezone: tz }),
                None => match spec_parse_date(naive, DATE_FORMAT@) {
                    Some(d) => Ok(StampView::Local { local: spec_midnight(d), nanos: 0, timezone: tz }),
                    None => Err(IcsErrorView::UnreadableValue { kind: "date-time", value: naive }),
                },
            },
        }
    }
}

fn read_stamp(params: &Vec<(Vec<char>, Vec<char>)>, value: &Vec<char>) -> (r: Result<Stamp, IcsError>)
    ensures
        match spec_read_stamp(spec_param_views(params@), value@) {
            Ok(v) => r matches Ok(x) && x@ == v && spec_stamp_ok(v),
            Err(e) => r matches Err(x) && x@ == e,
        },
{
    let v = trim_chars(value.as_slice());
    let is_date = match param(params, "VALUE") {
        Some(x) => chars_eq(x.as_slice(), chars_of("DATE").as_slice()),
        None => false,
    };
    if is_date {
        let text = string_of(v.as_slice());
        return match parse_date(text.as_str(), DATE_FORMAT) {
            Some(d) => Ok(Stamp::Date(d)),
            None => Err(IcsError::UnreadableValue { kind: "date", value: text }),
        };
    }
    let z = v.len() > 0 && v[v.len() - 1] == 'Z';
    let mut naive = v;
    let zone = if z {
        naive.pop();
        Some(chars_of("UTC"))
    } else {
        param(params, "TZID")
    };
    let timezone = match zone {
        Some(tz) => tz,
        None => return Err(IcsError::MissingProperty { field: "TZID" }),
    };
    let text = string_of(naive.as_slice());
    match parse_datetime(text.as_str(), DATETIME_FORMAT) {
        Some((local, nanos)) => Ok(Stamp::Local { local, nanos, timezone }),
        None => match parse_date(text.as_str(), DATE_FORMAT) {
            Some(d) => {
                let local: i64 = (d.days as i64 - UNIX_EPOCH_DAYS) * SECONDS_PER_DAY;
                Ok(Stamp::Local { local, nanos: 0, timezone })
            },
            None => Err(IcsError::UnreadableValue { kind: "date-time", value: text }),
        },
    }
}

/// Anchor a wall-clock time in its zone: the zone must be known, the time
/// must exist there exactly once, and the instant must be one this library holds.
pub open spec fn spec_zoned(local: int, nanos: int, tz: Seq<char>) -> Result<OffsetDateTime, IcsErrorView> {
    if !spec_tz_known(tz) {
        Err(IcsErrorView::UnknownTimezone { timezone: tz })
    } else if nanos >= NANOS_PER_SECOND {
        Err(IcsErrorView::UnrepresentableLocalTime { timezone: tz })
    } else {
        match spec_tz_from_local(tz, local) {
            LocalMapping::Single(o) => if spec_seconds_in_range(local - o) {
                Ok(OffsetDateTime { seconds: (local - o) as i64, nanos: nanos as u32, offset: o })
            } else {
                Err(IcsErrorView::UnrepresentableLocalTime { timezone: tz })
            },
            _ => Err(IcsErrorView::UnrepresentableLocalTime { timezone: tz }),
        }
    }
}

fn zoned(local: i64, nanos: u32, tz: &Vec<char>) -> (r: Result<OffsetDateTime, IcsError>)
    ensures
        match spec_zoned(local as int, nanos as int, tz@) {
            Ok(t) => r == Ok::<OffsetDateTime, IcsError>(t) && t.wf(),
            Err(e) => r matches Err(x) && x@ == e,
        },
{
    let name = string_of(tz.as_slice());
    if !tz_known(name.as_str()) {
        return Err(IcsError::UnknownTimezone { timezone: name });
    }
    if nanos >= NANOS_PER_SECOND {
        return Err(IcsError::UnrepresentableLocalTime { timezone: name });
    }
    match tz_from_local(name.as_str(), local, nanos) {
        LocalMapping::Single(o) => {
            if local > MAX_INSTANT_SECONDS + 86400 || local < -MAX_INSTANT_SECONDS - 86400 {
                return Err(IcsError::UnrepresentableLocalTime { timezone: name });
            }
            let seconds = local - o as i64;
            if seconds > MAX_INSTANT_SECONDS || seconds < -MAX_INSTANT_SECONDS {
                return Err(IcsError::UnrepresentableLocalTime { timezone: name });
            }
            Ok(OffsetDateTime { seconds, nanos, offset: o })
        },
        _ => Err(IcsError::UnrepresentableLocalTime { timezone: name }),
    }
}

/// Why a zoned span is refused, with the zone's name taken by its characters.
pub open spec fn spec_timed_error_view(start: OffsetDateTime, end: OffsetDateTime, tz: Seq<char>) -> Option<DomainErrorView> {
    if !start.spec_lt(end) {
        Some(DomainErrorView::EndNotAfterStart)
    } else if spec_blank(tz) {
        Some(DomainErrorView::MissingTimezone)
    } else if !spec_tz_known(tz) {
        Some(DomainErrorView::InvalidTimezone { timezone: tz })
    } else if !spec_offset_matches(tz, start) {
        Some(DomainErrorView::OffsetTimezoneMismatch { boundary: "start", timezone: tz })
    } else if !spec_offset_matches(tz, end) {
        Some(DomainErrorView::OffsetTimezoneMismatch { boundary: "end", timezone: tz })
    } else {
        None
    }
}

/// The event time a start and an optional end resolve into: an all-day start
/// without an end covers exactly one day; a timed start needs a timed end.
pub open spec fn spec_finish_time(start: StampView, end: Option<StampView>) -> Result<EventTimeView, IcsErrorView> {
    match start {
        StampView::Date(s) => match end {
            None => if spec_day_in_range(s.days + 1) {
                Ok(EventTimeView::AllDay { start: s, end_exclusive: CivilDate { days: (s.days + 1) as i32 } })
            } else {
                Err(IcsErrorView::Domain(DomainErrorView::InvalidAllDayRange))
            },
            Some(StampView::Date(e)) => if s.days < e.days {
                Ok(EventTimeView::AllDay { start: s, end_exclusive: e })
            } else {
                Err(IcsErrorView::Domain(DomainErrorView::InvalidAllDayRange))
            },
            Some(StampView::Local { .. }) => Err(IcsErrorView::UnreadableValue {
                kind: "date range",
                value: "DTSTART and DTEND disagree about being all-day"@,
            }),
        },
        StampView::Local { local: a, nanos: an, timezone: tz } => match end {
            None => Err(IcsErrorView::MissingEnd),
            Some(StampView::Date(_)) => Err(IcsErrorView::UnreadableValue {
                kind: "date range",
                value: "DTSTART and DTEND disagree about being all-day"@,
            }),
            Some(StampView::Local { local: b, nanos: bn, timezone: tz2 }) => match spec_zoned(a, an, tz) {
                Err(e) => Err(e),
                Ok(s) => match spec_zoned(b, bn, tz2) {
                    Err(e) => Err(e),
                    Ok(e) => match spec_timed_error_view(s, e, tz) {
                        Some(err) => Err(IcsErrorView::Domain(err)),
                        None => Ok(EventTimeView::Timed { start: s, end: e, timezone: tz }),
                    },
                },
            },
        },
    }
}

fn disagreeing_range() -> (r: IcsError)
    ensures
        r@ == (IcsErrorView::UnreadableValue {
            kind: "date range",
            value: "DTSTART and DTEND disagree about being all-day"@,
        }),
{
    IcsError::UnreadableValue {
        kind: "date range",
        value: string_of(chars_of("DTSTART and DTEND disagree about being all-day").as_slice()),
    }
}

fn finish_time(start: &Stamp, end: &Option<Stamp>) -> (r: Result<EventTime, IcsError>)
    requires
        spec_stamp_ok(start@),
        end matches Some(e) ==> spec_stamp_ok(e@),
    ensures
        match spec_finish_time(start@, spec_opt_stamp(*end)) {
            Ok(t) => r matches Ok(x) && x@ == t,
            Err(e) => r matches Err(x) && x@ == e,
        },
{
    match start {
        Stamp::Date(s) => match end {
            None => match s.succ() {
                Some(next) => match EventTime::all_day(*s, next) {
                    Ok(t) => Ok(t),
                    Err(e) => Err(IcsError::Domain(e)),
                },
                None => Err(IcsError::Domain(DomainError::InvalidAllDayRange)),
            },
            Some(Stamp::Date(e)) => match EventTime::all_day(*s, *e) {
                Ok(t) => Ok(t),
                Err(e) => Err(IcsError::Domain(e)),
            },
            Some(Stamp::Local { .. }) => Err(disagreeing_range()),
        },
        Stamp::Local { local: a, nanos: an, timezone: tz } => match end {
            None => Err(IcsError::MissingEnd),
            Some(Stamp::Date(_)) => Err(disagreeing_range()),
            Some(Stamp::Local { local: b, nanos: bn, timezone: tz2 }) => {
                let s = zoned(*a, *an, tz)?;
                let e = zoned(*b, *bn, tz2)?;
                match EventTime::timed(s, e, string_of(tz.as_slice())) {
                    Ok(t) => Ok(t),
                    Err(err) => Err(IcsError::Domain(err)),
                }
            },
        },
    }
}

pub open spec fn spec_opt_stamp(o: Option<Stamp>) -> Option<StampView> {
    match o {
        Some(s) => Some(s@),
        None => None,
    }
}

// ── Events ──

/// One `VEVENT` read from a file, before it is given an identity.
#[derive(Debug, Clone, PartialEq, Eq)]
pub struct IcsEvent {
    pub uid: Option<String>,
    pub title: String,
    pub description: Option<String>,
    pub time: EventTime,
    pub recurrence: Option<EventRecurrence>,
}

pub struct IcsEventView {
    pub uid: Option<Seq<char>>,
    pub title: Seq<char>,
    pub description: Option<Seq<char>>,
    pub time: EventTimeView,
    pub recurrence: Option<EventRecurrenceView>,
}

pub open spec fn spec_opt_text(o: Option<String>) -> Option<Seq<char>> {
    match o {
        Some(s) => Some(s@),
        None => None,
    }
}

pub open spec fn spec_opt_chars(o: Option<Vec<char>>) -> Option<Seq<char>> {
    match o {
        Some(s) => Some(s@),
        None => None,
    }
}

pub open spec fn spec_opt_rule(o: Option<EventRecurrence>) -> Option<EventRecurrenceView> {
    match o {
        Some(r) => Some(r@),
        None => None,
    }
}

impl View for IcsEvent {
    type V = IcsEventView;

    open spec fn view(&self) -> IcsEventView {
        IcsEventView {
            uid: spec_opt_text(self.uid),
            title: self.title@,
            description: spec_opt_text(self.description),
            time: self.time@,
            recurrence: spec_opt_rule(self.recurrence),
        }
    }
}

/// What an open `VEVENT` has said so far.
pub struct Draft {
    uid: Option<Vec<char>>,
    title: Option<Vec<char>>,
    description: Option<Vec<char>>,
    start: Option<Stamp>,
    end: Option<Stamp>,
    rule: Option<EventRecurrence>,
}

pub struct DraftView {
    pub uid: Option<Seq<char>>,
    pub title: Option<Seq<char>>,
    pub description: Option<Seq<char>>,
    pub start: Option<StampView>,
    pub end: Option<StampView>,
    pub rule: Option<EventRecurrenceView>,
}

impl View for Draft {
    type V = DraftView;

    closed spec fn view(&self) -> DraftView {
        DraftView {
            uid: spec_opt_chars(self.uid),
            title: spec_opt_chars(self.title),
            description: spec_opt_chars(self.description),
            start: spec_opt_stamp(self.start),
            end: spec_opt_stamp(self.end),
            rule: spec_opt_rule(self.rule),
        }
    }
}

pub open spec fn spec_empty_draft() -> DraftView {
    DraftView { uid: None, title: None, description: None, start: None, end: None, rule: None }
}

/// The stamps a draft holds are ones a reading gives.
pub open spec fn spec_draft_ok(d: DraftView) -> bool {
    &&& (d.start matches Some(s) ==> spec_stamp_ok(s))
    &&& (d.end matches Some(s) ==> spec_stamp_ok(s))
}

/// One property of an open event applied to what it said before.
pub open spec fn spec_apply(
    d: DraftView,
    name: Seq<char>,
    params: Seq<(Seq<char>, Seq<char>)>,
    value: Seq<char>,
) -> Result<DraftView, IcsErrorView> {
    if name == "UID"@ {
        Ok(DraftView { uid: Some(spec_trim(value)), ..d })
    } else if name == "SUMMARY"@ {
        Ok(DraftView { title: Some(spec_unescape(value)), ..d })
    } else if name == "DESCRIPTION"@ {
        Ok(DraftView { description: Some(spec_unescape(value)), ..d })
    } else if name == "DTSTART"@ {
        match spec_read_stamp(params, value) {
            Ok(st) => Ok(DraftView { start: Some(st), ..d }),
            Err(e) => Err(e),
        }
    } else if name == "DTEND"@ {
        match spec_read_stamp(params, value) {
            Ok(st) => Ok(DraftView { end: Some(st), ..d }),
            Err(e) => Err(e),
        }
    } else if name == "RRULE"@ {
        match spec_read_rule(value) {
            Ok(rule) => Ok(DraftView { rule: Some(rule), ..d }),
            Err(e) => Err(e),
        }
    } else {
        Ok(d)
    }
}

/// A closed event: it needs a non-blank SUMMARY and a DTSTART; an empty UID
/// and a blank DESCRIPTION are left out.
pub open spec fn spec_finish(d: DraftView) -> Result<IcsEventView, IcsErrorView> {
    match d.title {
        None => Err(IcsErrorView::MissingProperty { field: "SUMMARY" }),
        Some(title) => if spec_blank(title) {
            Err(IcsErrorView::MissingProperty { field: "SUMMARY" })
        } else {
            match d.start {
                None => Err(IcsErrorView::MissingProperty { field: "DTSTART" }),
                Some(start) => match spec_finish_time(start, d.end) {
                    Err(e) => Err(e),
                    Ok(time) => Ok(IcsEventView {
                        uid: match d.uid {
                            Some(u) => if u.len() > 0 { Some(u) } else { None },
                            None => None,
                        },
                        title,
                        description: match d.description {
                            Some(t) => if spec_blank(t) { None } else { Some(t) },
                            None => None,
                        },
                        time,
                        recurrence: d.rule,
                    }),
                },
            }
        },
    }
}

impl Draft {
    fn new() -> (r: Draft)
        ensures
            r@ == spec_empty_draft(),
    {
        Draft { uid: None, title: None, description: None, start: None, end: None, rule: None }
    }

    fn apply(&mut self, name: &Vec<char>, params: &Vec<(Vec<char>, Vec<char>)>, value: &Vec<char>) -> (r: Result<(), IcsError>)
        requires
            spec_draft_ok(old(self)@),
        ensures
            match spec_apply(old(self)@, name@, spec_param_views(params@), value@) {
                Ok(d) => r is Ok && final(self)@ == d && spec_draft_ok(d),
                Err(e) => r matches Err(x) && x@ == e,
            },
    {
        let n = name.as_slice();
        if chars_eq(n, chars_of("UID").as_slice()) {
            self.uid = Some(trim_chars(value.as_slice()));
        } else if chars_eq(n, chars_of("SUMMARY").as_slice()) {
            self.title = Some(unescape(value));
        } else if chars_eq(n, chars_of("DESCRIPTION").as_slice()) {
            self.description = Some(unescape(value));
        } else if chars_eq(n, chars_of("DTSTART").as_slice()) {
            self.start = Some(read_stamp(params, value)?);
        } else if chars_eq(n, chars_of("DTEND").as_slice()) {
            self.end = Some(read_stamp(params, value)?);
        } else if chars_eq(n, chars_of("RRULE").as_slice()) {
            self.rule = Some(read_rule(value)?);
        }
        Ok(())
    }

    fn finish(self) -> (r: Result<IcsEvent, IcsError>)
        requires
            spec_draft_ok(self@),
        ensures
            match spec_finish(self@) {
                Ok(v) => r matches Ok(x) && x@ == v,
                Err(e) => r matches Err(x) && x@ == e,
            },
    {
        let title = match self.title {
            Some(t) => t,
            None => return Err(IcsError::MissingProperty { field: "SUMMARY" }),
        };
        if is_blank_chars(title.as_slice()) {
            return Err(IcsError::MissingProperty { field: "SUMMARY" });
        }
        let start = match self.start {
            Some(s) => s,
            None => return Err(IcsError::MissingProperty { field: "DTSTART" }),
        };
        let time = finish_time(&start, &self.end)?;
        let uid = match self.uid {
            Some(u) => if u.len() > 0 { Some(string_of(u.as_slice())) } else { None },
            None => None,
        };
        let description = match self.description {
            Some(t) => if is_blank_chars(t.as_slice()) { None } else { Some(string_of(t.as_slice())) },
            None => None,
        };
        Ok(IcsEvent { uid, title: string_of(title.as_slice()), description, time, recurrence: self.rule })
    }
}

// ── The document ──

/// Where a reading stands: the events closed so far, the open blocks, and the
/// event being read, if any.
pub struct ReadState {
    pub events: Seq<IcsEventView>,
    pub blocks: Seq<Seq<char>>,
    pub current: Option<DraftView>,
}

/// A `VTIMEZONE` block is open.
pub open spec fn spec_inside_timezone(blocks: Seq<Seq<char>>) -> bool {
    exists|i: int| 0 <= i < blocks.len() && blocks[i] == "VTIMEZONE"@
}

/// One property of the document applied to where the reading stands.
/// `VTIMEZONE` blocks are skipped: their rules are a zone's history, not an
/// event's repeats.
pub open spec fn spec_read_step(st: ReadState, line: int, property: Seq<char>) -> Result<ReadState, IcsErrorView> {
    match spec_split_property(property) {
        None => Err(IcsErrorView::Malformed { line }),
        Some(p) => {
            let (name, params, value) = p;
            if name == "BEGIN"@ {
                let blocks = st.blocks.push(value);
                Ok(ReadState {
                    blocks,
                    current: if value == "VEVENT"@ && !spec_inside_timezone(blocks) {
                        Some(spec_empty_draft())
                    } else {
                        st.current
                    },
                    ..st
                })
            } else if name == "END"@ {
                if st.blocks.len() == 0 || st.blocks.last() != value {
                    Err(IcsErrorView::UnbalancedBlock { line, name: value })
                } else if value == "VEVENT"@ && st.current is Some {
                    if st.events.len() >= MAX_EVENTS {
                        Err(IcsErrorView::TooManyEvents)
                    } else {
                        match spec_finish(st.current->0) {
                            Err(e) => Err(e),
                            Ok(ev) => Ok(ReadState { events: st.events.push(ev), blocks: st.blocks.drop_last(), current: None }),
                        }
                    }
                } else {
                    Ok(ReadState { blocks: st.blocks.drop_last(), ..st })
                }
            } else if spec_inside_timezone(st.blocks) {
                Ok(st)
            } else {
                match st.current {
                    None => Ok(st),
                    Some(d) => match spec_apply(d, name, params, value) {
                        Ok(d2) => Ok(ReadState { current: Some(d2), ..st }),
                        Err(e) => Err(e),
                    },
                }
            }
        },
    }
}

/// Where the reading stands after the first `k` properties.
pub open spec fn spec_read_props(props: Seq<(int, Seq<char>)>, k: int) -> Result<ReadState, IcsErrorView>
    decreases k,
{
    if k <= 0 {
        Ok(ReadState { events: Seq::empty(), blocks: Seq::empty(), current: None })
    } else {
        match spec_read_props(props, k - 1) {
            Err(e) => Err(e),
            Ok(st) => spec_read_step(st, props[k - 1].0, props[k - 1].1),
        }
    }
}

/// Every `VEVENT` of a document, or why the document is refused.
pub open spec fn spec_read(text: &str) -> Result<Seq<IcsEventView>, IcsErrorView> {
    if text.len() > MAX_BYTES {
        Err(IcsErrorView::TooLarge)
    } else {
        let props = spec_unfold(text@);
        match spec_read_props(props, props.len() as int) {
            Err(e) => Err(e),
            Ok(st) => if st.blocks.len() > 0 {
                Err(IcsErrorView::UnclosedBlock)
            } else {
                Ok(st.events)
            },
        }
    }
}

pub open spec fn spec_events_view(v: Seq<IcsEvent>) -> Seq<IcsEventView> {
    v.map_values(|e: IcsEvent| e@)
}

pub open spec fn spec_blocks_view(v: Seq<Vec<char>>) -> Seq<Seq<char>> {
    v.map_values(|b: Vec<char>| b@)
}

pub open spec fn spec_opt_draft(o: Option<Draft>) -> Option<DraftView> {
    match o {
        Some(d) => Some(d@),
        None => None,
    }
}

pub open spec fn spec_state(events: Seq<IcsEvent>, blocks: Seq<Vec<char>>, current: Option<Draft>) -> ReadState {
    ReadState { events: spec_events_view(events), blocks: spec_blocks_view(blocks), current: spec_opt_draft(current) }
}

fn inside_timezone(blocks: &Vec<Vec<char>>) -> (r: bool)
    ensures
        r == spec_inside_timezone(spec_blocks_view(blocks@)),
{
    let tz = chars_of("VTIMEZONE");
    let ghost bv = spec_blocks_view(blocks@);
    let mut i: usize = 0;
    while i < blocks.len()
        invariant
            i <= blocks@.len(),
            bv == spec_blocks_view(blocks@),
            tz@ == "VTIMEZONE"@,
            forall|j: int| 0 <= j < i ==> bv[j] != "VTIMEZONE"@,
        decreases blocks.len() - i,
    {
        assert(bv[i as int] == blocks@[i as int]@);
        if chars_eq(blocks[i].as_slice(), tz.as_slice()) {
            return true;
        }
        i += 1;
    }
    false
}

fn read_step(
    events: &mut Vec<IcsEvent>,
    blocks: &mut Vec<Vec<char>>,
    current: &mut Option<Draft>,
    line: usize,
    property: &Vec<char>,
) -> (r: Result<(), IcsError>)
    requires
        *old(current) matches Some(d) ==> spec_draft_ok(d@),
    ensures
        match spec_read_step(spec_state(old(events)@, old(blocks)@, *old(current)), line as int, property@) {
            Ok(st) => r is Ok && spec_state(final(events)@, final(blocks)@, *final(current)) == st
                && (*final(current) matches Some(d) ==> spec_draft_ok(d@)),
            Err(e) => r matches Err(x) && x@ == e,
        },
{
    let ghost st = spec_state(events@, blocks@, *current);
    let (name, params, value) = match split_property(property) {
        Some(p) => p,
        None => return Err(IcsError::Malformed { line }),
    };
    let n = name.as_slice();
    if chars_eq(n, chars_of("BEGIN").as_slice()) {
        let is_event = chars_eq(value.as_slice(), chars_of("VEVENT").as_slice());
        let ghost before = blocks@;
        blocks.push(value);
        assert(spec_blocks_view(blocks@) =~= spec_blocks_view(before).push(value@));
        if is_event && !inside_timezone(blocks) {
            *current = Some(Draft::new());
        }
        assert(spec_events_view(events@) == st.events);
        Ok(())
    } else if chars_eq(n, chars_of("END").as_slice()) {
        let ghost before = blocks@;
        let matches_open = blocks.len() > 0 && chars_eq(blocks[blocks.len() - 1].as_slice(), value.as_slice());
        proof {
            if before.len() > 0 {
                assert(spec_blocks_view(before).last() == before.last()@);
            }
        }
        if !matches_open {
            return Err(IcsError::UnbalancedBlock { line, name: string_of(value.as_slice()) });
        }
        blocks.pop();
        assert(spec_blocks_view(blocks@) =~= spec_blocks_view(before).drop_last());
        if chars_eq(value.as_slice(), chars_of("VEVENT").as_slice()) && current.is_some() {
            if events.len() >= MAX_EVENTS {
                return Err(IcsError::TooManyEvents);
            }
            let draft = match current.take() {
                Some(d) => d,
                None => return Ok(()),
            };
            let event = draft.finish()?;
            let ghost evs = events@;
            events.push(event);
            assert(spec_events_view(events@) =~= spec_events_view(evs).push(event@));
        }
        Ok(())
    } else if inside_timezone(blocks) {
        Ok(())
    } else {
        match current {
            None => Ok(()),
            Some(d) => d.apply(&name, &params, &value),
        }
    }
}

proof fn lemma_read_props_fail(props: Seq<(int, Seq<char>)>, k: int, n: int)
    requires
        0 < k <= n,
        spec_read_props(props, k) is Err,
    ensures
        spec_read_props(props, n) == spec_read_props(props, k),
    decreases n - k,
{
    if n > k {
        lemma_read_props_fail(props, k, n - 1);
    }
}

/// Read every `VEVENT` in one iCalendar document.
///
/// `VTIMEZONE` blocks are skipped: their rules describe a zone's daylight-saving
/// history, which the zone database already knows, and are not event recurrences.
/// An oversized or malformed document, a value this reader cannot read, and an
/// RRULE part this application cannot represent are refused.
pub fn read(text: &str) -> (r: Result<Vec<IcsEvent>, IcsError>)
    ensures
        match spec_read(text) {
            Ok(evs) => r matches Ok(v) && spec_events_view(v@) == evs,
            Err(e) => r matches Err(x) && x@ == e,
        },
{
    if text.len() > MAX_BYTES {
        return Err(IcsError::TooLarge);
    }
    let chars = chars_of(text);
    let props = unfold(&chars);
    let ghost pv = spec_props_view(props@);
    let mut events: Vec<IcsEvent> = Vec::new();
    let mut blocks: Vec<Vec<char>> = Vec::new();
    let mut current: Option<Draft> = None;
    assert(spec_events_view(events@) =~= Seq::<IcsEventView>::empty());
    assert(spec_blocks_view(blocks@) =~= Seq::<Seq<char>>::empty());
    let mut k: usize = 0;
    while k < props.len()
        invariant
            k <= props@.len(),
            pv == spec_props_view(props@),
            pv == spec_unfold(text@),
            text.len() <= MAX_BYTES,
            spec_read_props(pv, k as int) == Ok::<ReadState, IcsErrorView>(spec_state(events@, blocks@, current)),
            current matches Some(d) ==> spec_draft_ok(d@),
        decreases props.len() - k,
    {
        let (line, property) = (props[k].0, &props[k].1);
        assert(pv[k as int] == (line as int, property@));
        let ghost before = spec_state(events@, blocks@, current);
        assert(spec_read_props(pv, k + 1) == spec_read_step(before, line as int, property@));
        match read_step(&mut events, &mut blocks, &mut current, line, property) {
            Ok(()) => {},
            Err(e) => {
                proof { lemma_read_props_fail(pv, k as int + 1, pv.len() as int); }
                return Err(e);
            },
        }
        k += 1;
    }
    if blocks.len() > 0 {
        return Err(IcsError::UnclosedBlock);
    }
    Ok(events)
}

// ── Into a calendar ──

/// Why a read event cannot become an event of the calendar: its title, or
/// its file's UID.
pub open spec fn spec_landing_error(e: IcsEvent) -> Option<DomainError> {
    if spec_text_error("event title", e.title@) is Some {
        spec_text_error("event title", e.title@)
    } else if e.uid matches Some(u) && (spec_blank(u@) || spec_has_whitespace(u@)) {
        Some(DomainError::InvalidRfcUid)
    } else {
        None
    }
}

/// The first refusal among the first `k` read events.
pub open spec fn spec_first_landing_error(events: Seq<IcsEvent>, k: int) -> Option<DomainError>
    decreases k,
{
    if k <= 0 {
        None
    } else {
        match spec_first_landing_error(events, k - 1) {
            Some(e) => Some(e),
            None => spec_landing_error(events[k - 1]),
        }
    }
}

/// An event landed from a read one: its title, time, description and rule,
/// in the calendar, identified by the file's UID where the file gives one.
pub open spec fn spec_landed(ev: Event, source: IcsEvent, calendar: CalendarId) -> bool {
    &&& ev.calendar_id == calendar
    &&& ev.title@ == source.title@
    &&& ev.time == source.time
    &&& ev.metadata.description == source.description
    &&& ev.metadata.recurrence_rule == source.recurrence
    &&& ev.version == 1
    &&& (source.uid matches Some(u) ==> ev.rfc_uid.0@ == u@)
    &&& (source.uid is None ==> ev.rfc_uid.0@ == spec_uuid_text(ev.id.value) + RFC_UID_SUFFIX@)
    &&& ev.deleted_at is None
    &&& ev.remote_tombstoned_at is None
    &&& ev.created_at == ev.updated_at
    &&& ev.created_at.wf()
    &&& spec_is_v7(ev.id.value)
    &&& spec_v7_millis(ev.id.value) == spec_millis_of(ev.created_at)
    &&& ev.metadata.busy
    &&& ev.metadata.location is None
    &&& ev.metadata.url is None
    &&& ev.metadata.status is None
    &&& ev.metadata.categories@.len() == 0
    &&& ev.metadata.alarms@.len() == 0
    &&& ev.metadata.organizer is None
    &&& ev.metadata.attendees@.len() == 0
}

/// The clock can fail only where an event is about to be created: at one
/// whose title is accepted and before which every read event landed.
pub open spec fn spec_clock_may_fail_at(events: Seq<IcsEvent>, k: int) -> bool {
    &&& 0 <= k < events.len()
    &&& spec_first_landing_error(events, k) is None
    &&& spec_text_error("event title", events[k].title@) is None
}

/// Read events as new events of one calendar; the file's own UID is what
/// makes a second import of the same file a conflict.
pub fn into_events(calendar: CalendarId, parsed: Vec<IcsEvent>) -> (r: Result<Vec<Event>, DomainError>)
    ensures
        (r == Err::<Vec<Event>, DomainError>(DomainError::ClockUnavailable) && exists|k: int| #[trigger]
            spec_clock_may_fail_at(parsed@, k)) || match spec_first_landing_error(parsed@, parsed@.len() as int) {
            Some(e) => r == Err::<Vec<Event>, DomainError>(e),
            None => r matches Ok(v) && v@.len() == parsed@.len() && forall|i: int| 0 <= i < v@.len() ==> spec_landed(
                #[trigger] v@[i],
                parsed@[i],
                calendar,
            ),
        },
{
    let ghost all = parsed@;
    let mut rest = parsed;
    let mut out: Vec<Event> = Vec::new();
    while rest.len() > 0
        invariant
            all == parsed@,
            out@.len() + rest@.len() == all.len(),
            rest@ == all.subrange(out@.len() as int, all.len() as int),
            spec_first_landing_error(all, out@.len() as int) is None,
            forall|i: int| 0 <= i < out@.len() ==> spec_landed(#[trigger] out@[i], all[i], calendar),
        decreases rest.len(),
    {
        let k = out.len();
        let source = rest.remove(0);
        assert(source == all[k as int]);
        let mut event = match Event::new(calendar, source.title, source.time) {
            Ok(e) => e,
            Err(e) => {
                proof {
                    if e != DomainError::ClockUnavailable {
                        lemma_first_landing_error_stays(all, k as int + 1, all.len() as int);
                    } else {
                        assert(spec_clock_may_fail_at(all, k as int));
                    }
                }
                return Err(e);
            },
        };
        if let Some(uid) = source.uid {
            match RfcUid::new(uid) {
                Ok(u) => event.rfc_uid = u,
                Err(e) => {
                    proof { lemma_first_landing_error_stays(all, k as int + 1, all.len() as int); }
                    return Err(e);
                },
            }
        }
        event.metadata.description = source.description;
        event.metadata.recurrence_rule = source.recurrence;
        out.push(event);
        proof {
            assert(all.subrange(k + 1, all.len() as int) =~= all.subrange(k as int, all.len() as int).drop_first());
        }
    }
    Ok(out)
}

proof fn lemma_first_landing_error_stays(events: Seq<IcsEvent>, k: int, n: int)
    requires
        0 < k <= n,
        spec_first_landing_error(events, k) is Some,
    ensures
        spec_first_landing_error(events, n) == spec_first_landing_error(events, k),
    decreases n - k,
{
    if n > k {
        lemma_first_landing_error_stays(events, k, n - 1);
    }
}

// ── What a reading promises ──

/// An event this reader hands out: a title with something in it, and a span
/// that ends after it starts.
pub open spec fn spec_event_sound(e: IcsEventView) -> bool {
    &&& !spec_blank(e.title)
    &&& match e.time {
        EventTimeView::AllDay { start, end_exclusive } => start.days < end_exclusive.days,
        EventTimeView::Timed { start, end, .. } => start.spec_lt(end),
    }
}

proof fn lemma_finish_sound(d: DraftView)
    ensures
        spec_finish(d) matches Ok(e) ==> spec_event_sound(e),
{
}

proof fn lemma_props_sound(props: Seq<(int, Seq<char>)>, k: int)
    ensures
        spec_read_props(props, k) matches Ok(st) ==> forall|i: int| 0 <= i < st.events.len() ==> spec_event_sound(#[trigger] st.events[i]),
    decreases k,
{
    if k > 0 {
        lemma_props_sound(props, k - 1);
        if let Ok(st) = spec_read_props(props, k - 1) {
            if let Ok(st2) = spec_read_step(st, props[k - 1].0, props[k - 1].1) {
                if let Some(d) = st.current {
                    lemma_finish_sound(d);
                }
                assert forall|i: int| 0 <= i < st2.events.len() implies spec_event_sound(#[trigger] st2.events[i]) by {
                    if i < st.events.len() {
                        assert(st2.events[i] == st.events[i]);
                    }
                }
            }
        }
    }
}

/// Every event a successful reading returns has a non-blank title and a span
/// that ends after it starts: a document cannot land an event weaker than
/// one the application could have created itself.
pub proof fn lemma_read_is_sound(text: &str)
    ensures
        spec_read(text) matches Ok(evs) ==> forall|i: int| 0 <= i < evs.len() ==> spec_event_sound(#[trigger] evs[i]),
{
    let props = spec_unfold(text@);
    lemma_props_sound(props, props.len() as int);
}

// ── The calendar crate ──

/// The day number `chrono::NaiveDate::parse_from_str` reads from a text in a format.
pub uninterp spec fn spec_parse_date(text: Seq<char>, format: Seq<char>) -> Option<int>;

/// The local seconds from the epoch and the nanoseconds
/// `chrono::NaiveDateTime::parse_from_str` reads from a text in a format.
pub uninterp spec fn spec_parse_datetime(text: Seq<char>, format: Seq<char>) -> Option<(int, int)>;

/// Calls `chrono::NaiveDate::parse_from_str`; the result's day number is the
/// named one, and a date chrono holds lies within its calendar's range.
#[verifier::external_body]
pub(crate) fn parse_date(text: &str, format: &str) -> (r: Option<CivilDate>)
    ensures
        r is None <==> spec_parse_date(text@, format@) is None,
        r matches Some(d) ==> spec_parse_date(text@, format@) == Some(d.days as int) && d.wf(),
{
    match chrono::NaiveDate::parse_from_str(text, format) {
        Ok(d) => Some(CivilDate { days: d.num_days_from_ce() }),
        Err(_) => None,
    }
}

/// Calls `chrono::NaiveDateTime::parse_from_str`; the seconds and nanoseconds
/// of the wall-clock time, read as if at UTC, are the named ones. A leap
/// second carries its extra second in the nanoseconds, which stay under two seconds.
#[verifier::external_body]
fn parse_datetime(text: &str, format: &str) -> (r: Option<(i64, u32)>)
    ensures
        r is None <==> spec_parse_datetime(text@, format@) is None,
        r matches Some(p) ==> spec_parse_datetime(text@, format@) == Some((p.0 as int, p.1 as int))
            && p.1 < 2 * NANOS_PER_SECOND,
{
    match chrono::NaiveDateTime::parse_from_str(text, format) {
        Ok(d) => Some((d.and_utc().timestamp(), d.and_utc().timestamp_subsec_nanos())),
        Err(_) => None,
    }
}

} // verus!

verus! {

// ── Weekday codes ──

/// The two-letter code RFC 5545 gives each weekday in `BYDAY`.
pub open spec fn spec_rfc5545_day(w: Weekday) -> Seq<char> {
    match w {
        Weekday::Mon => "MO"@,
        Weekday::Tue => "TU"@,
        Weekday::Wed => "WE"@,
        Weekday::Thu => "TH"@,
        Weekday::Fri => "FR"@,
        Weekday::Sat => "SA"@,
        Weekday::Sun => "SU"@,
    }
}

/// Reading a weekday's own RFC 5545 code gives back that weekday, so two
/// different codes never read as one day.
pub proof fn lemma_weekday_codes_read_back(w: Weekday)
    ensures
        spec_read_weekday(spec_rfc5545_day(w)) == Ok::<Weekday, IcsErrorView>(w),
{
    reveal_strlit("MO");
    reveal_strlit("TU");
    reveal_strlit("WE");
    reveal_strlit("TH");
    reveal_strlit("FR");
    reveal_strlit("SA");
    reveal_strlit("SU");
    let code = spec_rfc5545_day(w);
    assert(spec_ascii_upper_seq(code) =~= code);
    let codes = seq!["MO"@, "TU"@, "WE"@, "TH"@, "FR"@, "SA"@, "SU"@];
    assert forall|i: int, j: int| 0 <= i < 7 && 0 <= j < 7 && i != j implies #[trigger] codes[i] != #[trigger] codes[j] by {
        assert(codes[i][0] != codes[j][0] || codes[i][1] != codes[j][1]);
    }
    assert(codes[0] == "MO"@ && codes[1] == "TU"@ && codes[2] == "WE"@ && codes[3] == "TH"@);
    assert(codes[4] == "FR"@ && codes[5] == "SA"@ && codes[6] == "SU"@);
}

} // verus!
