//! Presenting reminders on a desktop, through a backend the application can swap.
use vstd::prelude::*;

use crate::text::push_str_chars;

pub mod null;

verus! {

/// What a backend is asked to show.
#[derive(Debug, Clone, PartialEq, Eq)]
pub struct PresentationRequest {
    pub summary: String,
    pub body: String,
    pub actions: Vec<String>,
    pub urgency: Urgency,
    pub category: String,
    pub expire_timeout_ms: i32,
    pub replaces: Option<BackendHandle>,
    pub stack_tag: String,
}

/// A request with its texts taken by their characters.
pub struct PresentationRequestView {
    pub summary: Seq<char>,
    pub body: Seq<char>,
    pub actions: Seq<Seq<char>>,
    pub urgency: Urgency,
    pub category: Seq<char>,
    pub expire_timeout_ms: i32,
    pub replaces: Option<BackendHandle>,
    pub stack_tag: Seq<char>,
}

impl View for PresentationRequest {
    type V = PresentationRequestView;

    open spec fn view(&self) -> PresentationRequestView {
        PresentationRequestView {
            summary: self.summary@,
            body: self.body@,
            actions: self.actions@.map_values(|a: String| a@),
            urgency: self.urgency,
            category: self.category@,
            expire_timeout_ms: self.expire_timeout_ms,
            replaces: self.replaces,
            stack_tag: self.stack_tag@,
        }
    }
}

impl PresentationRequest {
    /// A copy of this request.
    pub fn copy(&self) -> (r: PresentationRequest)
        ensures
            r@ == self@,
    {
        let actions = self.actions.clone();
        assert(actions@.map_values(|a: String| a@) =~= self.actions@.map_values(|a: String| a@));
        PresentationRequest {
            summary: self.summary.clone(),
            body: self.body.clone(),
            actions,
            urgency: self.urgency,
            category: self.category.clone(),
            expire_timeout_ms: self.expire_timeout_ms,
            replaces: self.replaces,
            stack_tag: self.stack_tag.clone(),
        }
    }
}

/// How urgently a notification asks for attention.
#[derive(Debug, Clone, Copy, PartialEq, Eq, Structural)]
pub enum Urgency {
    Low,
    Normal,
    Critical,
}

/// The backend's own name for a notification it showed.
#[derive(Debug, Clone, Copy, PartialEq, Eq, Hash, Structural)]
pub struct BackendHandle(pub u32);

/// A desktop notification service.
pub trait NotificationBackend {
    fn name(&self) -> &'static str;

    fn present(&mut self, request: PresentationRequest) -> Result<BackendHandle, BackendError>;

    fn close(&mut self, handle: BackendHandle) -> Result<(), BackendError>;
}

/// Retry safety is encoded in the outer variant. Unknown outcomes must never
/// be converted into a retryable error by callers.
#[derive(Debug, Clone, Copy, PartialEq, Eq, Structural)]
pub enum BackendError {
    NotSent(NotSentCause),
    UnknownOutcome(UnknownOutcomeCause),
}

/// Why a notification was provably not sent.
#[derive(Debug, Clone, Copy, PartialEq, Eq, Structural)]
pub enum NotSentCause {
    Unavailable,
    RefusedBeforeWrite,
}

/// Why a notification's outcome is unknown.
#[derive(Debug, Clone, Copy, PartialEq, Eq, Structural)]
pub enum UnknownOutcomeCause {
    ReplyLost,
    CancelledAfterWrite,
}

pub open spec fn spec_not_sent_message(c: NotSentCause) -> Seq<char> {
    match c {
        NotSentCause::Unavailable => "no notification backend is available"@,
        NotSentCause::RefusedBeforeWrite => "the backend refused the request before writing it"@,
    }
}

pub open spec fn spec_unknown_message(c: UnknownOutcomeCause) -> Seq<char> {
    match c {
        UnknownOutcomeCause::ReplyLost => "the backend reply was lost"@,
        UnknownOutcomeCause::CancelledAfterWrite => "the request was cancelled after it was written"@,
    }
}

pub open spec fn spec_backend_message(e: BackendError) -> Seq<char> {
    match e {
        BackendError::NotSent(c) => "notification was provably not sent: "@ + spec_not_sent_message(c),
        BackendError::UnknownOutcome(c) => "notification outcome is unknown: "@ + spec_unknown_message(c),
    }
}

impl NotSentCause {
    pub fn message(&self) -> (r: &'static str)
        ensures
            r@ == spec_not_sent_message(*self),
    {
        match self {
            NotSentCause::Unavailable => "no notification backend is available",
            NotSentCause::RefusedBeforeWrite => "the backend refused the request before writing it",
        }
    }
}

impl UnknownOutcomeCause {
    pub fn message(&self) -> (r: &'static str)
        ensures
            r@ == spec_unknown_message(*self),
    {
        match self {
            UnknownOutcomeCause::ReplyLost => "the backend reply was lost",
            UnknownOutcomeCause::CancelledAfterWrite => "the request was cancelled after it was written",
        }
    }
}

impl BackendError {
    /// The sentence this error reads as.
    pub fn message(&self) -> (r: String)
        ensures
            r@ == spec_backend_message(*self),
    {
        let mut out: Vec<char> = Vec::new();
        match self {
            BackendError::NotSent(c) => {
                push_str_chars(&mut out, "notification was provably not sent: ");
                push_str_chars(&mut out, c.message());
            },
            BackendError::UnknownOutcome(c) => {
                push_str_chars(&mut out, "notification outcome is unknown: ");
                push_str_chars(&mut out, c.message());
            },
        }
        crate::text::string_of(out.as_slice())
    }

    /// Whether the request may be sent again: only when it provably was not sent.
    pub fn is_retryable(&self) -> (r: bool)
        ensures
            r == (*self is NotSent),
    {
        match self {
            BackendError::NotSent(_) => true,
            BackendError::UnknownOutcome(_) => false,
        }
    }
}

} // verus!
