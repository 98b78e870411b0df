use dataset_engine::retry::{advance, RetryAction, RetryEvent, RetryState};

fn run(events: &[RetryEvent], max_retries: usize) -> (RetryState, usize, usize) {
    let mut state = RetryState::Pending;
    let mut attempts: usize = 0;
    let mut sleeps: usize = 0;
    for event in events {
        let (next, action) = advance(state, *event, max_retries);
        if action == RetryAction::RunAttempt {
            attempts += 1;
        }
        if action == RetryAction::Sleep {
            sleeps += 1;
        }
        state = next;
    }
    (state, attempts, sleeps)
}

#[test]
fn success_at_first_attempt_has_no_retries() {
    let events = [RetryEvent::Admitted, RetryEvent::AttemptSucceeded];
    assert_eq!(run(&events, 3), (RetryState::Succeeded { retry_count: 0 }, 1, 0));
}

#[test]
fn two_failures_then_success_counts_two_retries() {
    let events = [
        RetryEvent::Admitted,
        RetryEvent::AttemptFailed,
        RetryEvent::DelayElapsed,
        RetryEvent::AttemptFailed,
        RetryEvent::DelayElapsed,
        RetryEvent::AttemptSucceeded,
    ];
    assert_eq!(run(&events, 3), (RetryState::Succeeded { retry_count: 2 }, 3, 2));
}

#[test]
fn as_many_failures_as_retries_still_succeeds() {
    let events = [
        RetryEvent::Admitted,
        RetryEvent::AttemptFailed,
        RetryEvent::DelayElapsed,
        RetryEvent::AttemptFailed,
        RetryEvent::DelayElapsed,
        RetryEvent::AttemptSucceeded,
    ];
    assert_eq!(run(&events, 2), (RetryState::Succeeded { retry_count: 2 }, 3, 2));
}

#[test]
fn backend_that_always_fails_is_attempted_once_more_than_retries() {
    let events = [
        RetryEvent::Admitted,
        RetryEvent::AttemptFailed,
        RetryEvent::DelayElapsed,
        RetryEvent::AttemptFailed,
        RetryEvent::DelayElapsed,
        RetryEvent::AttemptFailed,
        RetryEvent::DelayElapsed,
        RetryEvent::AttemptFailed,
        RetryEvent::DelayElapsed,
        RetryEvent::AttemptFailed,
    ];
    assert_eq!(run(&events, 3), (RetryState::Failed { retry_count: 3 }, 4, 3));
}

#[test]
fn no_retries_allowed_fails_at_the_first_failure() {
    let events = [RetryEvent::Admitted, RetryEvent::AttemptFailed];
    assert_eq!(run(&events, 0), (RetryState::Failed { retry_count: 0 }, 1, 0));
}

#[test]
fn each_transition_has_its_action() {
    assert_eq!(
        advance(RetryState::Pending, RetryEvent::Admitted, 3),
        (RetryState::Attempting { attempt: 0 }, RetryAction::RunAttempt)
    );
    assert_eq!(
        advance(RetryState::Attempting { attempt: 1 }, RetryEvent::AttemptFailed, 3),
        (RetryState::Retrying { attempt: 1 }, RetryAction::Sleep)
    );
    assert_eq!(
        advance(RetryState::Retrying { attempt: 1 }, RetryEvent::DelayElapsed, 3),
        (RetryState::Attempting { attempt: 2 }, RetryAction::RunAttempt)
    );
    assert_eq!(
        advance(RetryState::Attempting { attempt: 3 }, RetryEvent::AttemptFailed, 3),
        (RetryState::Failed { retry_count: 3 }, RetryAction::Finish)
    );
    assert_eq!(
        advance(RetryState::Attempting { attempt: 2 }, RetryEvent::AttemptSucceeded, 3),
        (RetryState::Succeeded { retry_count: 2 }, RetryAction::Finish)
    );
}

#[test]
fn cancellation_ends_a_task_wherever_it_stands() {
    assert_eq!(
        advance(RetryState::Pending, RetryEvent::CancelObserved, 3),
        (RetryState::Cancelled { retry_count: 0 }, RetryAction::Finish)
    );
    assert_eq!(
        advance(RetryState::Attempting { attempt: 2 }, RetryEvent::CancelObserved, 3),
        (RetryState::Cancelled { retry_count: 2 }, RetryAction::Finish)
    );
    assert_eq!(
        advance(RetryState::Retrying { attempt: 1 }, RetryEvent::CancelObserved, 3),
        (RetryState::Cancelled { retry_count: 1 }, RetryAction::Finish)
    );
}

#[test]
fn outcome_is_final() {
    let outcomes = [
        RetryState::Succeeded { retry_count: 1 },
        RetryState::Failed { retry_count: 3 },
        RetryState::Cancelled { retry_count: 0 },
    ];
    let events = [
        RetryEvent::Admitted,
        RetryEvent::AttemptSucceeded,
        RetryEvent::AttemptFailed,
        RetryEvent::DelayElapsed,
        RetryEvent::CancelObserved,
    ];
    for outcome in outcomes {
        assert!(outcome.is_terminal());
        for event in events {
            assert_eq!(advance(outcome, event, 3), (outcome, RetryAction::Nothing));
        }
    }
}

#[test]
fn events_out_of_place_change_nothing() {
    assert_eq!(
        advance(RetryState::Pending, RetryEvent::AttemptFailed, 3),
        (RetryState::Pending, RetryAction::Nothing)
    );
    assert_eq!(
        advance(RetryState::Attempting { attempt: 0 }, RetryEvent::DelayElapsed, 3),
        (RetryState::Attempting { attempt: 0 }, RetryAction::Nothing)
    );
    assert_eq!(
        advance(RetryState::Retrying { attempt: 0 }, RetryEvent::AttemptSucceeded, 3),
        (RetryState::Retrying { attempt: 0 }, RetryAction::Nothing)
    );
}

#[test]
fn permits_are_held_while_attempting_or_pausing() {
    assert!(!RetryState::Pending.has_permit());
    assert!(RetryState::Attempting { attempt: 0 }.has_permit());
    assert!(RetryState::Retrying { attempt: 0 }.has_permit());
    assert!(!RetryState::Succeeded { retry_count: 0 }.has_permit());
    assert!(!RetryState::Failed { retry_count: 0 }.has_permit());
    assert!(!RetryState::Cancelled { retry_count: 0 }.has_permit());
    assert_eq!(RetryState::Retrying { attempt: 2 }.retry_count(), 2);
    assert_eq!(RetryState::Pending.retry_count(), 0);
}
