use bilibili_webhook::models::rss::{RetryAction, RetryState, RETRY_WAIT_SECS};

#[test]
fn success_is_delivered() {
    let mut s = RetryState::new();
    assert_eq!(s.on_response(true), RetryAction::Deliver);
}

#[test]
fn five_retries_then_give_up() {
    let mut s = RetryState::new();
    for attempt in 1..=5i8 {
        assert_eq!(s.on_response(false), RetryAction::RetryAfter { wait_secs: RETRY_WAIT_SECS, attempt });
    }
    assert_eq!(s.on_response(false), RetryAction::GiveUp);
    assert_eq!(s.on_response(false), RetryAction::GiveUp);
}

#[test]
fn success_after_failures_is_delivered() {
    let mut s = RetryState::new();
    assert_eq!(s.on_response(false), RetryAction::RetryAfter { wait_secs: 15, attempt: 1 });
    assert_eq!(s.on_response(true), RetryAction::Deliver);
    assert_eq!(s.on_response(false), RetryAction::RetryAfter { wait_secs: 15, attempt: 2 });
}

#[test]
fn budget_of_two_gives_two_retries() {
    let mut s = RetryState::with_budget(2);
    assert_eq!(s.left(), 2);
    assert_eq!(s.on_response(false), RetryAction::RetryAfter { wait_secs: 15, attempt: 4 });
    assert_eq!(s.on_response(false), RetryAction::RetryAfter { wait_secs: 15, attempt: 5 });
    assert_eq!(s.left(), 0);
    assert_eq!(s.on_response(false), RetryAction::GiveUp);
}

#[test]
fn zero_budget_gives_up_at_once() {
    let mut s = RetryState::with_budget(0);
    assert_eq!(s.on_response(false), RetryAction::GiveUp);
}
