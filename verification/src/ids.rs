//! Identifiers: each is a UUID, held as its 128-bit value.
use vstd::prelude::*;

use crate::domain::DomainError;
use crate::interop::spec_hex_digit;
use crate::todo::TodoError;
use crate::time::{MAX_INSTANT_SECONDS, NANOS_PER_SECOND, Timestamp};

verus! {

/// Which hexadecimal digit of a UUID (0 the most significant) stands at a
/// position of its hyphenated text that is not a hyphen.
pub open spec fn spec_uuid_digit_index(i: int) -> int {
    if i < 8 {
        i
    } else if i < 13 {
        i - 1
    } else if i < 18 {
        i - 2
    } else if i < 23 {
        i - 3
    } else {
        i - 4
    }
}

/// The canonical text of a UUID value: its 32 lower-case hexadecimal digits,
/// most significant first, in groups of 8, 4, 4, 4 and 12 joined by hyphens.
pub open spec fn spec_uuid_text(value: u128) -> Seq<char> {
    Seq::new(
        36,
        |i: int|
            if i == 8 || i == 13 || i == 18 || i == 23 {
                '-'
            } else {
                spec_hex_digit(((value >> ((124 - 4 * spec_uuid_digit_index(i)) as u128)) & 0xfu128) as int)
            },
    )
}

proof fn lemma_nibble_bound(value: u128, shift: u128)
    by (bit_vector)
    ensures
        (value >> shift) & 0xfu128 <= 0xfu128,
{
}

/// Every character of a UUID's text is a hyphen or a lower-case hexadecimal digit.
pub proof fn lemma_uuid_text_chars(value: u128)
    ensures
        spec_uuid_text(value).len() == 36,
        forall|i: int| 0 <= i < 36 ==> {
            let c = #[trigger] spec_uuid_text(value)[i];
            c == '-' || ('0' <= c <= '9') || ('a' <= c <= 'f')
        },
{
    assert forall|i: int| 0 <= i < 36 implies {
        let c = #[trigger] spec_uuid_text(value)[i];
        c == '-' || ('0' <= c <= '9') || ('a' <= c <= 'f')
    } by {
        if !(i == 8 || i == 13 || i == 18 || i == 23) {
            lemma_nibble_bound(value, (124 - 4 * spec_uuid_digit_index(i)) as u128);
        }
    }
}

/// The UUID value a text names, when it names one.
pub uninterp spec fn spec_uuid_parse(text: Seq<char>) -> Option<u128>;

/// A version-7 UUID: its version nibble is 7 and its variant bits are the
/// RFC 4122 pattern `10`.
pub open spec fn spec_is_v7(value: u128) -> bool {
    (value >> 76u128) & 0xfu128 == 7u128 && (value >> 62u128) & 0x3u128 == 2u128
}

/// The Unix millisecond a version-7 UUID carries in its top 48 bits.
pub open spec fn spec_v7_millis(value: u128) -> int {
    (value >> 80u128) as int
}

/// The Unix millisecond of an instant from the epoch on, as a version-7 UUID
/// keeps it: modulo 2^48.
pub open spec fn spec_millis_of(now: Timestamp) -> int {
    ((now.seconds as int) * 1000 + (now.nanos as int) / 1_000_000) % 0x1_0000_0000_0000
}

/// Calls `uuid::Uuid::new_v7` on `uuid::Timestamp::from_unix` with no counter
/// context: a version-7 UUID whose top 48 bits are the Unix millisecond of the
/// given instant (modulo 2^48), with version 7 and the RFC 4122 variant. Its
/// remaining 74 bits are random and are not stated. The random bits come from
/// the operating system's source, and the call does not return if that
/// source fails.
#[verifier::external_body]
fn uuid_v7_at(seconds: u64, nanos: u32) -> (r: u128)
    requires
        seconds <= MAX_INSTANT_SECONDS,
        nanos < NANOS_PER_SECOND,
    ensures
        spec_is_v7(r),
        spec_v7_millis(r) == ((seconds as int) * 1000 + (nanos as int) / 1_000_000) % 0x1_0000_0000_0000,
{
    uuid::Uuid::new_v7(uuid::Timestamp::from_unix(uuid::NoContext, seconds, nanos)).as_u128()
}

/// Calls `Display` of `uuid::Uuid`: the lower-case hyphenated text, which
/// `uuid::Uuid::parse_str` reads back as the same value.
#[verifier::external_body]
pub(crate) fn uuid_text(value: u128) -> (r: String)
    ensures
        r@ == spec_uuid_text(value),
        spec_uuid_parse(r@) == Some(value),
{
    uuid::Uuid::from_u128(value).to_string()
}

/// Calls `uuid::Uuid::parse_str`: the named value, or the parser's message.
#[verifier::external_body]
pub(crate) fn uuid_parse(text: &str) -> (r: Result<u128, String>)
    ensures
        r matches Ok(v) ==> spec_uuid_parse(text@) == Some(v),
        r is Err ==> spec_uuid_parse(text@) is None,
{
    match uuid::Uuid::parse_str(text) {
        Ok(value) => Ok(value.as_u128()),
        Err(error) => Err(error.to_string()),
    }
}

/// A calendar's identity.
#[derive(Clone, Copy, Debug, PartialEq, Eq, Hash, Structural)]
pub struct CalendarId {
    pub value: u128,
}

impl CalendarId {
    /// A fresh version-7 identifier, when the clock reads an instant this
    /// library holds.
    pub fn new() -> (r: Option<CalendarId>)
        ensures
            r matches Some(id) ==> spec_is_v7(id.value),
    {
        match Timestamp::now() {
            Some(now) => Some(CalendarId::at(now)),
            None => None,
        }
    }

    /// A version-7 identifier for an instant from the Unix epoch on: it
    /// carries that instant's millisecond.
    pub fn at(now: Timestamp) -> (r: CalendarId)
        requires
            now.wf(),
            now.seconds >= 0,
        ensures
            spec_is_v7(r.value),
            spec_v7_millis(r.value) == spec_millis_of(now),
    {
        CalendarId { value: uuid_v7_at(now.seconds as u64, now.nanos) }
    }

    pub fn from_uuid(value: u128) -> (r: CalendarId)
        ensures
            r.value == value,
    {
        CalendarId { value }
    }

    pub fn as_uuid(self) -> (r: u128)
        ensures
            r == self.value,
    {
        self.value
    }

    pub fn same(self, other: CalendarId) -> (r: bool)
        ensures
            r == (self == other),
    {
        self.value == other.value
    }

    /// The identifier's text, which `parse` reads back as this identifier.
    pub fn to_text(&self) -> (r: String)
        ensures
            r@ == spec_uuid_text(self.value),
            spec_uuid_parse(r@) == Some(self.value),
    {
        uuid_text(self.value)
    }

    /// Read an identifier from its text.
    pub fn parse(text: &str) -> (r: Result<CalendarId, DomainError>)
        ensures
            r matches Ok(id) ==> spec_uuid_parse(text@) == Some(id.value),
            r matches Err(e) ==> spec_uuid_parse(text@) is None && (e matches DomainError::InvalidIdentifier {
                kind,
                value,
                ..
            } && kind@ == "calendar"@ && value@ == text@),
    {
        match uuid_parse(text) {
            Ok(value) => Ok(CalendarId { value }),
            Err(reason) => Err(
                DomainError::InvalidIdentifier { kind: "calendar", value: crate::text::string_of(crate::text::chars_of(text).as_slice()), reason },
            ),
        }
    }
}

/// An event's identity.
#[derive(Clone, Copy, Debug, PartialEq, Eq, Hash, Structural)]
pub struct EventId {
    pub value: u128,
}

impl EventId {
    /// A fresh version-7 identifier, when the clock reads an instant this
    /// library holds.
    pub fn new() -> (r: Option<EventId>)
        ensures
            r matches Some(id) ==> spec_is_v7(id.value),
    {
        match Timestamp::now() {
            Some(now) => Some(EventId::at(now)),
            None => None,
        }
    }

    /// A version-7 identifier for an instant from the Unix epoch on: it
    /// carries that instant's millisecond.
    pub fn at(now: Timestamp) -> (r: EventId)
        requires
            now.wf(),
            now.seconds >= 0,
        ensures
            spec_is_v7(r.value),
            spec_v7_millis(r.value) == spec_millis_of(now),
    {
        EventId { value: uuid_v7_at(now.seconds as u64, now.nanos) }
    }

    pub fn from_uuid(value: u128) -> (r: EventId)
        ensures
            r.value == value,
    {
        EventId { value }
    }

    pub fn as_uuid(self) -> (r: u128)
        ensures
            r == self.value,
    {
        self.value
    }

    pub fn same(self, other: EventId) -> (r: bool)
        ensures
            r == (self == other),
    {
        self.value == other.value
    }

    /// The identifier's text, which `parse` reads back as this identifier.
    pub fn to_text(&self) -> (r: String)
        ensures
            r@ == spec_uuid_text(self.value),
            spec_uuid_parse(r@) == Some(self.value),
    {
        uuid_text(self.value)
    }

    /// Read an identifier from its text.
    pub fn parse(text: &str) -> (r: Result<EventId, DomainError>)
        ensures
            r matches Ok(id) ==> spec_uuid_parse(text@) == Some(id.value),
            r matches Err(e) ==> spec_uuid_parse(text@) is None && (e matches DomainError::InvalidIdentifier {
                kind,
                value,
                ..
            } && kind@ == "event"@ && value@ == text@),
    {
        match uuid_parse(text) {
            Ok(value) => Ok(EventId { value }),
            Err(reason) => Err(
                DomainError::InvalidIdentifier { kind: "event", value: crate::text::string_of(crate::text::chars_of(text).as_slice()), reason },
            ),
        }
    }
}

/// A reminder's identity.
#[derive(Clone, Copy, Debug, PartialEq, Eq, Hash, Structural)]
pub struct ReminderId {
    pub value: u128,
}

impl ReminderId {
    /// A fresh version-7 identifier, when the clock reads an instant this
    /// library holds.
    pub fn new() -> (r: Option<ReminderId>)
        ensures
            r matches Some(id) ==> spec_is_v7(id.value),
    {
        match Timestamp::now() {
            Some(now) => Some(ReminderId::at(now)),
            None => None,
        }
    }

    /// A version-7 identifier for an instant from the Unix epoch on: it
    /// carries that instant's millisecond.
    pub fn at(now: Timestamp) -> (r: ReminderId)
        requires
            now.wf(),
            now.seconds >= 0,
        ensures
            spec_is_v7(r.value),
            spec_v7_millis(r.value) == spec_millis_of(now),
    {
        ReminderId { value: uuid_v7_at(now.seconds as u64, now.nanos) }
    }

    pub fn from_uuid(value: u128) -> (r: ReminderId)
        ensures
            r.value == value,
    {
        ReminderId { value }
    }

    pub fn as_uuid(self) -> (r: u128)
        ensures
            r == self.value,
    {
        self.value
    }

    pub fn same(self, other: ReminderId) -> (r: bool)
        ensures
            r == (self == other),
    {
        self.value == other.value
    }

    /// The identifier's text, which `parse` reads back as this identifier.
    pub fn to_text(&self) -> (r: String)
        ensures
            r@ == spec_uuid_text(self.value),
            spec_uuid_parse(r@) == Some(self.value),
    {
        uuid_text(self.value)
    }

    /// Read an identifier from its text.
    pub fn parse(text: &str) -> (r: Result<ReminderId, DomainError>)
        ensures
            r matches Ok(id) ==> spec_uuid_parse(text@) == Some(id.value),
            r matches Err(e) ==> spec_uuid_parse(text@) is None && (e matches DomainError::InvalidIdentifier {
                kind,
                value,
                ..
            } && kind@ == "reminder"@ && value@ == text@),
    {
        match uuid_parse(text) {
            Ok(value) => Ok(ReminderId { value }),
            Err(reason) => Err(
                DomainError::InvalidIdentifier { kind: "reminder", value: crate::text::string_of(crate::text::chars_of(text).as_slice()), reason },
            ),
        }
    }
}

/// A reminder delivery's identity.
#[derive(Clone, Copy, Debug, PartialEq, Eq, Hash, Structural)]
pub struct DeliveryId {
    pub value: u128,
}

impl DeliveryId {
    /// A fresh version-7 identifier, when the clock reads an instant this
    /// library holds.
    pub fn new() -> (r: Option<DeliveryId>)
        ensures
            r matches Some(id) ==> spec_is_v7(id.value),
    {
        match Timestamp::now() {
            Some(now) => Some(DeliveryId::at(now)),
            None => None,
        }
    }

    /// A version-7 identifier for an instant from the Unix epoch on: it
    /// carries that instant's millisecond.
    pub fn at(now: Timestamp) -> (r: DeliveryId)
        requires
            now.wf(),
            now.seconds >= 0,
        ensures
            spec_is_v7(r.value),
            spec_v7_millis(r.value) == spec_millis_of(now),
    {
        DeliveryId { value: uuid_v7_at(now.seconds as u64, now.nanos) }
    }

    pub fn from_uuid(value: u128) -> (r: DeliveryId)
        ensures
            r.value == value,
    {
        DeliveryId { value }
    }

    pub fn as_uuid(self) -> (r: u128)
        ensures
            r == self.value,
    {
        self.value
    }

    pub fn same(self, other: DeliveryId) -> (r: bool)
        ensures
            r == (self == other),
    {
        self.value == other.value
    }

    /// The identifier's text, which `parse` reads back as this identifier.
    pub fn to_text(&self) -> (r: String)
        ensures
            r@ == spec_uuid_text(self.value),
            spec_uuid_parse(r@) == Some(self.value),
    {
        uuid_text(self.value)
    }

    /// Read an identifier from its text.
    pub fn parse(text: &str) -> (r: Result<DeliveryId, DomainError>)
        ensures
            r matches Ok(id) ==> spec_uuid_parse(text@) == Some(id.value),
            r matches Err(e) ==> spec_uuid_parse(text@) is None && (e matches DomainError::InvalidIdentifier {
                kind,
                value,
                ..
            } && kind@ == "reminder delivery"@ && value@ == text@),
    {
        match uuid_parse(text) {
            Ok(value) => Ok(DeliveryId { value }),
            Err(reason) => Err(
                DomainError::InvalidIdentifier { kind: "reminder delivery", value: crate::text::string_of(crate::text::chars_of(text).as_slice()), reason },
            ),
        }
    }
}

/// An audit record's identity.
#[derive(Clone, Copy, Debug, PartialEq, Eq, Hash, Structural)]
pub struct AuditId {
    pub value: u128,
}

impl AuditId {
    /// A fresh version-7 identifier, when the clock reads an instant this
    /// library holds.
    pub fn new() -> (r: Option<AuditId>)
        ensures
            r matches Some(id) ==> spec_is_v7(id.value),
    {
        match Timestamp::now() {
            Some(now) => Some(AuditId::at(now)),
            None => None,
        }
    }

    /// A version-7 identifier for an instant from the Unix epoch on: it
    /// carries that instant's millisecond.
    pub fn at(now: Timestamp) -> (r: AuditId)
        requires
            now.wf(),
            now.seconds >= 0,
        ensures
            spec_is_v7(r.value),
            spec_v7_millis(r.value) == spec_millis_of(now),
    {
        AuditId { value: uuid_v7_at(now.seconds as u64, now.nanos) }
    }

    pub fn from_uuid(value: u128) -> (r: AuditId)
        ensures
            r.value == value,
    {
        AuditId { value }
    }

    pub fn as_uuid(self) -> (r: u128)
        ensures
            r == self.value,
    {
        self.value
    }

    pub fn same(self, other: AuditId) -> (r: bool)
        ensures
            r == (self == other),
    {
        self.value == other.value
    }

    /// The identifier's text, which `parse` reads back as this identifier.
    pub fn to_text(&self) -> (r: String)
        ensures
            r@ == spec_uuid_text(self.value),
            spec_uuid_parse(r@) == Some(self.value),
    {
        uuid_text(self.value)
    }

    /// Read an identifier from its text.
    pub fn parse(text: &str) -> (r: Result<AuditId, DomainError>)
        ensures
            r matches Ok(id) ==> spec_uuid_parse(text@) == Some(id.value),
            r matches Err(e) ==> spec_uuid_parse(text@) is None && (e matches DomainError::InvalidIdentifier {
                kind,
                value,
                ..
            } && kind@ == "audit record"@ && value@ == text@),
    {
        match uuid_parse(text) {
            Ok(value) => Ok(AuditId { value }),
            Err(reason) => Err(
                DomainError::InvalidIdentifier { kind: "audit record", value: crate::text::string_of(crate::text::chars_of(text).as_slice()), reason },
            ),
        }
    }
}

/// A todo's identity.
#[derive(Clone, Copy, Debug, PartialEq, Eq, Hash, Structural)]
pub struct TodoId {
    pub value: u128,
}

impl TodoId {
    /// A fresh version-7 identifier, when the clock reads an instant this
    /// library holds.
    pub fn new() -> (r: Option<TodoId>)
        ensures
            r matches Some(id) ==> spec_is_v7(id.value),
    {
        match Timestamp::now() {
            Some(now) => Some(TodoId::at(now)),
            None => None,
        }
    }

    /// A version-7 identifier for an instant from the Unix epoch on: it
    /// carries that instant's millisecond.
    pub fn at(now: Timestamp) -> (r: TodoId)
        requires
            now.wf(),
            now.seconds >= 0,
        ensures
            spec_is_v7(r.value),
            spec_v7_millis(r.value) == spec_millis_of(now),
    {
        TodoId { value: uuid_v7_at(now.seconds as u64, now.nanos) }
    }

    pub fn from_uuid(value: u128) -> (r: TodoId)
        ensures
            r.value == value,
    {
        TodoId { value }
    }

    pub fn as_uuid(self) -> (r: u128)
        ensures
            r == self.value,
    {
        self.value
    }

    pub fn same(self, other: TodoId) -> (r: bool)
        ensures
            r == (self == other),
    {
        self.value == other.value
    }

    /// The identifier's text, which `parse` reads back as this identifier.
    pub fn to_text(&self) -> (r: String)
        ensures
            r@ == spec_uuid_text(self.value),
            spec_uuid_parse(r@) == Some(self.value),
    {
        uuid_text(self.value)
    }

    /// Read an identifier from its text.
    pub fn parse(text: &str) -> (r: Result<TodoId, TodoError>)
        ensures
            r matches Ok(id) ==> spec_uuid_parse(text@) == Some(id.value),
            r matches Err(e) ==> spec_uuid_parse(text@) is None && (e matches TodoError::InvalidIdentifier {
                kind,
                value,
                ..
            } && kind@ == "todo"@ && value@ == text@),
    {
        match uuid_parse(text) {
            Ok(value) => Ok(TodoId { value }),
            Err(reason) => Err(
                TodoError::InvalidIdentifier { kind: "todo", value: crate::text::string_of(crate::text::chars_of(text).as_slice()), reason },
            ),
        }
    }
}

/// A project's identity.
#[derive(Clone, Copy, Debug, PartialEq, Eq, Hash, Structural)]
pub struct ProjectId {
    pub value: u128,
}

impl ProjectId {
    /// A fresh version-7 identifier, when the clock reads an instant this
    /// library holds.
    pub fn new() -> (r: Option<ProjectId>)
        ensures
            r matches Some(id) ==> spec_is_v7(id.value),
    {
        match Timestamp::now() {
            Some(now) => Some(ProjectId::at(now)),
            None => None,
        }
    }

    /// A version-7 identifier for an instant from the Unix epoch on: it
    /// carries that instant's millisecond.
    pub fn at(now: Timestamp) -> (r: ProjectId)
        requires
            now.wf(),
            now.seconds >= 0,
        ensures
            spec_is_v7(r.value),
            spec_v7_millis(r.value) == spec_millis_of(now),
    {
        ProjectId { value: uuid_v7_at(now.seconds as u64, now.nanos) }
    }

    pub fn from_uuid(value: u128) -> (r: ProjectId)
        ensures
            r.value == value,
    {
        ProjectId { value }
    }

    pub fn as_uuid(self) -> (r: u128)
        ensures
            r == self.value,
    {
        self.value
    }

    pub fn same(self, other: ProjectId) -> (r: bool)
        ensures
            r == (self == other),
    {
        self.value == other.value
    }

    /// The identifier's text, which `parse` reads back as this identifier.
    pub fn to_text(&self) -> (r: String)
        ensures
            r@ == spec_uuid_text(self.value),
            spec_uuid_parse(r@) == Some(self.value),
    {
        uuid_text(self.value)
    }

    /// Read an identifier from its text.
    pub fn parse(text: &str) -> (r: Result<ProjectId, TodoError>)
        ensures
            r matches Ok(id) ==> spec_uuid_parse(text@) == Some(id.value),
            r matches Err(e) ==> spec_uuid_parse(text@) is None && (e matches TodoError::InvalidIdentifier {
                kind,
                value,
                ..
            } && kind@ == "project"@ && value@ == text@),
    {
        match uuid_parse(text) {
            Ok(value) => Ok(ProjectId { value }),
            Err(reason) => Err(
                TodoError::InvalidIdentifier { kind: "project", value: crate::text::string_of(crate::text::chars_of(text).as_slice()), reason },
            ),
        }
    }
}

/// A tag's identity.
#[derive(Clone, Copy, Debug, PartialEq, Eq, Hash, Structural)]
pub struct TagId {
    pub value: u128,
}

impl TagId {
    /// A fresh version-7 identifier, when the clock reads an instant this
    /// library holds.
    pub fn new() -> (r: Option<TagId>)
        ensures
            r matches Some(id) ==> spec_is_v7(id.value),
    {
        match Timestamp::now() {
            Some(now) => Some(TagId::at(now)),
            None => None,
        }
    }

    /// A version-7 identifier for an instant from the Unix epoch on: it
    /// carries that instant's millisecond.
    pub fn at(now: Timestamp) -> (r: TagId)
        requires
            now.wf(),
            now.seconds >= 0,
        ensures
            spec_is_v7(r.value),
            spec_v7_millis(r.value) == spec_millis_of(now),
    {
        TagId { value: uuid_v7_at(now.seconds as u64, now.nanos) }
    }

    pub fn from_uuid(value: u128) -> (r: TagId)
        ensures
            r.value == value,
    {
        TagId { value }
    }

    pub fn as_uuid(self) -> (r: u128)
        ensures
            r == self.value,
    {
        self.value
    }

    pub fn same(self, other: TagId) -> (r: bool)
        ensures
            r == (self == other),
    {
        self.value == other.value
    }

    /// The identifier's text, which `parse` reads back as this identifier.
    pub fn to_text(&self) -> (r: String)
        ensures
            r@ == spec_uuid_text(self.value),
            spec_uuid_parse(r@) == Some(self.value),
    {
        uuid_text(self.value)
    }

    /// Read an identifier from its text.
    pub fn parse(text: &str) -> (r: Result<TagId, TodoError>)
        ensures
            r matches Ok(id) ==> spec_uuid_parse(text@) == Some(id.value),
            r matches Err(e) ==> spec_uuid_parse(text@) is None && (e matches TodoError::InvalidIdentifier {
                kind,
                value,
                ..
            } && kind@ == "tag"@ && value@ == text@),
    {
        match uuid_parse(text) {
            Ok(value) => Ok(TagId { value }),
            Err(reason) => Err(
                TodoError::InvalidIdentifier { kind: "tag", value: crate::text::string_of(crate::text::chars_of(text).as_slice()), reason },
            ),
        }
    }
}

} // verus!
