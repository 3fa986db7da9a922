use fe_monitor::model::{PollOutcome, TransportErrorKind};
use fe_monitor::retry::{RetryController, RetryDecision};

fn error_outcome() -> PollOutcome {
    PollOutcome::TransportError(TransportErrorKind::Timeout)
}

/// A fetch stub that always fails makes exactly `max_attempts` attempts,
/// and the sleeps it is told to take before attempts 2..=n are
/// 1, 2, 4, ... seconds.
#[test]
fn always_failing_stub_exhausts_exactly_four_attempts() {
    let mut ctrl = RetryController::new(4);
    let mut attempts = 0u32;
    let mut sleeps: Vec<u64> = Vec::new();
    loop {
        attempts += 1;
        match ctrl.record(error_outcome()) {
            RetryDecision::Done(outcome) => {
                assert!(matches!(
                    outcome,
                    PollOutcome::TransportError(TransportErrorKind::Timeout)
                ));
                break;
            }
            RetryDecision::RetryAfterSecs(s) => sleeps.push(s),
        }
    }
    assert_eq!(attempts, 4);
    assert_eq!(sleeps, vec![1, 2, 4]);
    let total: u64 = sleeps.iter().sum();
    assert_eq!(total, (1u64 << 3) - 1);
}

#[test]
fn two_attempts_sleep_one_second_in_total() {
    let mut ctrl = RetryController::new(2);
    let first = ctrl.record(error_outcome());
    assert!(matches!(first, RetryDecision::RetryAfterSecs(1)));
    let second = ctrl.record(error_outcome());
    assert!(matches!(second, RetryDecision::Done(_)));
}

#[test]
fn success_is_terminal_on_the_first_attempt() {
    let mut ctrl = RetryController::new(5);
    let snap = fe_monitor::model::FeInventoryResponse { success: true, list_map: Vec::new() };
    match ctrl.record(PollOutcome::Success(snap)) {
        RetryDecision::Done(PollOutcome::Success(s)) => assert!(s.success),
        _ => panic!("expected an immediate terminal decision"),
    }
}

#[test]
fn server_reported_failure_is_terminal() {
    let mut ctrl = RetryController::new(5);
    match ctrl.record(PollOutcome::Unsuccessful) {
        RetryDecision::Done(PollOutcome::Unsuccessful) => {}
        _ => panic!("expected an immediate terminal decision"),
    }
}

#[test]
fn configured_backoff_base_shapes_the_sleeps() {
    let mut ctrl = RetryController::new_with_base(4, 3).unwrap();
    let mut sleeps: Vec<u64> = Vec::new();
    loop {
        match ctrl.record(error_outcome()) {
            RetryDecision::Done(_) => break,
            RetryDecision::RetryAfterSecs(s) => sleeps.push(s),
        }
    }
    assert_eq!(sleeps, vec![1, 3, 9]);
}

#[test]
fn uncarryable_retry_configurations_are_rejected() {
    assert!(RetryController::new_with_base(0, 2).is_none());
    assert!(RetryController::new_with_base(3, 1).is_none());
    assert!(RetryController::new_with_base(63, 3).is_none());
    assert!(RetryController::new_with_base(63, 2).is_some());
    assert!(RetryController::new_with_base(65, 2).is_none());
}

#[test]
fn single_attempt_budget_never_sleeps() {
    let mut ctrl = RetryController::new(1);
    match ctrl.record(error_outcome()) {
        RetryDecision::Done(PollOutcome::TransportError(k)) => {
            assert_eq!(k, TransportErrorKind::Timeout)
        }
        _ => panic!("expected the last error back"),
    }
}
