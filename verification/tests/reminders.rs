use mg_calr::notify::null::NullBackend;
use mg_calr::notify::{BackendError, BackendHandle, NotSentCause, NotificationBackend, PresentationRequest, UnknownOutcomeCause, Urgency};
use mg_calr::reminder::{DeliveryChannel, DeliveryKey, OccurrenceKey, ScheduleRef, ScheduledReminder, plan_deliveries};
use mg_calr::time::Timestamp;

// 2026-08-31T12:00:00Z
const NOON: i64 = 1_788_177_600;

fn key(second: i64) -> DeliveryKey {
    DeliveryKey::new(
        ScheduleRef::new("mg-remindr:reminder:fixture".to_owned()).unwrap(),
        OccurrenceKey::singleton(),
        Timestamp::from_parts(NOON + second, 0).unwrap(),
        DeliveryChannel::Null,
    )
}

fn request(summary: &str) -> PresentationRequest {
    PresentationRequest {
        summary: summary.to_owned(),
        body: "Synthetic reminder".to_owned(),
        actions: vec!["dismiss".to_owned()],
        urgency: Urgency::Normal,
        category: "x-mg-calr.reminder".to_owned(),
        expire_timeout_ms: -1,
        replaces: None,
        stack_tag: "fixture".to_owned(),
    }
}

#[test]
fn delivery_key_is_total_ordered_and_namespaced() {
    assert!(ScheduleRef::new("reminder:fixture".to_owned()).is_err());
    assert!(OccurrenceKey::new(String::new()).is_err());
    assert_eq!(key(1).channel.as_str(), "null");
    assert!(key(1) < key(2));
    assert_eq!(key(1).schedule_ref.as_str(), "mg-remindr:reminder:fixture");
}

#[test]
fn planner_is_repeatable_deduplicated_and_omits_suppressed_schedules() {
    let input = || {
        vec![
            ScheduledReminder { key: key(2), suppressed: false },
            ScheduledReminder { key: key(1), suppressed: false },
            ScheduledReminder { key: key(1), suppressed: false },
            ScheduledReminder { key: key(0), suppressed: true },
        ]
    };
    let expected = vec![key(1), key(2)];
    assert_eq!(plan_deliveries(input()), expected);
    for _ in 0..1_000 {
        assert_eq!(plan_deliveries(input()), expected);
    }
}

#[test]
fn null_backend_records_calls_renders_and_closes_in_order() {
    let mut backend = NullBackend::with_outcomes(vec![Err(BackendError::NotSent(NotSentCause::Unavailable)), Ok(())]);

    assert!(backend.present(request("first")).is_err());
    let handle = backend.present(request("second")).unwrap();
    assert_eq!(handle, BackendHandle(1));
    backend.close(handle).unwrap();
    let third = backend.present(request("third")).unwrap();
    assert_eq!(third, BackendHandle(2));

    assert_eq!(backend.calls().len(), 3);
    assert_eq!(backend.rendered(), vec![request("second"), request("third")]);
    assert_eq!(backend.closed(), vec![handle]);
    assert_eq!(backend.name(), "null");
}

#[test]
fn only_a_request_that_was_provably_not_sent_may_be_retried() {
    let not_sent = BackendError::NotSent(NotSentCause::RefusedBeforeWrite);
    let unknown = BackendError::UnknownOutcome(UnknownOutcomeCause::ReplyLost);
    assert!(not_sent.is_retryable());
    assert!(!unknown.is_retryable());
    assert_eq!(
        not_sent.message(),
        "notification was provably not sent: the backend refused the request before writing it"
    );
    assert_eq!(unknown.message(), "notification outcome is unknown: the backend reply was lost");
}

#[test]
fn null_backend_distinguishes_calls_from_rendered_presentations() {
    let mut backend = NullBackend::with_outcomes(vec![Err(BackendError::NotSent(NotSentCause::Unavailable)), Ok(())]);

    assert!(backend.present(request("first")).is_err());
    let handle = backend.present(request("second")).unwrap();
    backend.close(handle).unwrap();

    assert_eq!(backend.calls().len(), 2);
    assert_eq!(backend.rendered(), vec![request("second")]);
    assert_eq!(backend.closed(), vec![handle]);
}
