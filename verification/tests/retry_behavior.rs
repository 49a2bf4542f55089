//! The retry state machine: timing hints are obeyed without touching
//! the fallback backoff, and hintless throttling backs off
//! exponentially until the ceiling.

use bitbar_version::retry::{HeaderError, ResponseAction, RetryState, ThrottleHeaders};

fn headers(
    retry_after: Option<&str>,
    remaining: Option<&str>,
    reset: Option<&str>,
) -> ThrottleHeaders {
    ThrottleHeaders {
        retry_after: retry_after.map(|s| s.to_string()),
        ratelimit_remaining: remaining.map(|s| s.to_string()),
        ratelimit_reset: reset.map(|s| s.to_string()),
    }
}

#[test]
fn success_proceeds() {
    let mut st = RetryState::new();
    let a = st.on_response(200, &ThrottleHeaders::none(), 1_000);
    assert_eq!(a, ResponseAction::Proceed);
    assert_eq!(st.backoff_secs, 60);
}

#[test]
fn non_throttle_failure_fails_immediately() {
    let mut st = RetryState::new();
    let a = st.on_response(500, &ThrottleHeaders::none(), 1_000);
    assert_eq!(a, ResponseAction::Fail);
    assert_eq!(st.backoff_secs, 60);
}

#[test]
fn retry_after_is_obeyed_and_does_not_advance_backoff() {
    let mut st = RetryState::new();
    let a = st.on_response(403, &headers(Some("5"), None, None), 1_000);
    assert_eq!(a, ResponseAction::Wait { seconds: 5 });
    assert_eq!(st.backoff_secs, 60);
    // A later throttle without any hint still starts at the first
    // fallback wait.
    let b = st.on_response(403, &ThrottleHeaders::none(), 1_000);
    assert_eq!(b, ResponseAction::Wait { seconds: 60 });
    assert_eq!(st.backoff_secs, 120);
}

#[test]
fn malformed_retry_after_aborts() {
    let mut st = RetryState::new();
    let a = st.on_response(429, &headers(Some("soon"), None, None), 1_000);
    assert_eq!(a, ResponseAction::Abort(HeaderError::HeaderParse));
}

#[test]
fn exhausted_count_waits_until_reset() {
    let mut st = RetryState::new();
    let a = st.on_response(403, &headers(None, Some("0"), Some("1030")), 1_000);
    assert_eq!(a, ResponseAction::Wait { seconds: 30 });
    assert_eq!(st.backoff_secs, 60);
}

#[test]
fn reset_in_the_past_waits_zero() {
    let mut st = RetryState::new();
    let a = st.on_response(403, &headers(None, Some("0"), Some("900")), 1_000);
    assert_eq!(a, ResponseAction::Wait { seconds: 0 });
}

#[test]
fn exhausted_count_without_reset_aborts() {
    let mut st = RetryState::new();
    let a = st.on_response(403, &headers(None, Some("0"), None), 1_000);
    assert_eq!(a, ResponseAction::Abort(HeaderError::MissingResetHeader));
}

#[test]
fn malformed_reset_aborts() {
    let mut st = RetryState::new();
    let a = st.on_response(403, &headers(None, Some("0"), Some("later")), 1_000);
    assert_eq!(a, ResponseAction::Abort(HeaderError::HeaderParse));
}

#[test]
fn nonzero_remaining_count_takes_the_fallback_path() {
    let mut st = RetryState::new();
    let a = st.on_response(403, &headers(None, Some("7"), Some("1030")), 1_000);
    assert_eq!(a, ResponseAction::Wait { seconds: 60 });
    assert_eq!(st.backoff_secs, 120);
}

#[test]
fn hintless_throttling_backs_off_exponentially_then_fails() {
    let mut st = RetryState::new();
    let mut waits = Vec::new();
    loop {
        match st.on_response(429, &ThrottleHeaders::none(), 1_000) {
            ResponseAction::Wait { seconds } => {
                assert!(seconds < 3600, "slept {seconds} seconds");
                waits.push(seconds);
                assert!(waits.len() <= 10, "never gives up");
            }
            ResponseAction::Fail => break,
            other => panic!("unexpected action {other:?}"),
        }
    }
    assert_eq!(waits, vec![60, 120, 240, 480, 960, 1920]);
}
