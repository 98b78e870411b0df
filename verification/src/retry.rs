//! The life of one task: bounded retries with a fixed pause, and
//! cancellation at every point where a new attempt could start.

use vstd::prelude::*;

verus! {

/// Where a task stands. `attempt` counts from zero, so it is also the
/// number of attempts that failed before it.
#[derive(Debug, Clone, Copy, PartialEq, Eq, Structural)]
pub enum RetryState {
    /// Not admitted yet.
    Pending,
    /// Attempt number `attempt` is running.
    Attempting { attempt: usize },
    /// Attempt number `attempt` failed; the pause before the next one runs.
    Retrying { attempt: usize },
    /// An attempt succeeded after `retry_count` failed ones.
    Succeeded { retry_count: usize },
    /// The last allowed attempt failed too, after `retry_count` retries.
    Failed { retry_count: usize },
    /// Cancellation was observed after `retry_count` retries.
    Cancelled { retry_count: usize },
}

/// What can happen to a task.
#[derive(Debug, Clone, Copy, PartialEq, Eq, Structural)]
pub enum RetryEvent {
    /// The task was given a permit to run.
    Admitted,
    /// Every request of the running attempt succeeded.
    AttemptSucceeded,
    /// A request of the running attempt failed.
    AttemptFailed,
    /// The pause before the next attempt is over.
    DelayElapsed,
    /// The cancellation signal was observed.
    CancelObserved,
}

/// What the driver of a task does after an event.
#[derive(Debug, Clone, Copy, PartialEq, Eq, Structural)]
pub enum RetryAction {
    /// The event does not concern the task in its state.
    Nothing,
    /// Start the requests of an attempt.
    RunAttempt,
    /// Sleep for the retry delay, and report `DelayElapsed` afterwards.
    Sleep,
    /// The task has reached its outcome.
    Finish,
}

impl RetryState {
    /// The task has reached its outcome.
    pub open spec fn terminal(&self) -> bool {
        *self is Succeeded || *self is Failed || *self is Cancelled
    }

    /// The task holds one of the run's permits.
    pub open spec fn holds_permit(&self) -> bool {
        *self is Attempting || *self is Retrying
    }

    /// The failed attempts so far.
    pub open spec fn retries(&self) -> usize {
        match *self {
            RetryState::Pending => 0,
            RetryState::Attempting { attempt } => attempt,
            RetryState::Retrying { attempt } => attempt,
            RetryState::Succeeded { retry_count } => retry_count,
            RetryState::Failed { retry_count } => retry_count,
            RetryState::Cancelled { retry_count } => retry_count,
        }
    }

    /// The state respects the bound on retries: no task is ever attempted
    /// more than `max_retries + 1` times, none pauses after its last
    /// attempt, and none fails before it.
    pub open spec fn within(&self, max_retries: usize) -> bool {
        match *self {
            RetryState::Pending => true,
            RetryState::Attempting { attempt } => attempt <= max_retries,
            RetryState::Retrying { attempt } => attempt < max_retries,
            RetryState::Succeeded { retry_count } => retry_count <= max_retries,
            RetryState::Failed { retry_count } => retry_count == max_retries,
            RetryState::Cancelled { retry_count } => retry_count <= max_retries,
        }
    }

    /// Whether the task has reached its outcome.
    pub fn is_terminal(&self) -> (b: bool)
        ensures
            b == self.terminal(),
    {
        match self {
            RetryState::Succeeded { .. } => true,
            RetryState::Failed { .. } => true,
            RetryState::Cancelled { .. } => true,
            _ => false,
        }
    }

    /// Whether the task holds one of the permits of the run.
    pub fn has_permit(&self) -> (b: bool)
        ensures
            b == self.holds_permit(),
    {
        match self {
            RetryState::Attempting { .. } => true,
            RetryState::Retrying { .. } => true,
            _ => false,
        }
    }

    /// The failed attempts so far.
    pub fn retry_count(&self) -> (n: usize)
        ensures
            n == self.retries(),
    {
        match self {
            RetryState::Pending => 0,
            RetryState::Attempting { attempt } => *attempt,
            RetryState::Retrying { attempt } => *attempt,
            RetryState::Succeeded { retry_count } => *retry_count,
            RetryState::Failed { retry_count } => *retry_count,
            RetryState::Cancelled { retry_count } => *retry_count,
        }
    }
}

/// The state that follows `state` on `event`.
pub open spec fn next_state(state: RetryState, event: RetryEvent, max_retries: usize)
    -> RetryState {
    match (state, event) {
        (RetryState::Pending, RetryEvent::Admitted) => RetryState::Attempting { attempt: 0 },
        (RetryState::Pending, RetryEvent::CancelObserved) => RetryState::Cancelled {
            retry_count: 0,
        },
        (RetryState::Attempting { attempt }, RetryEvent::AttemptSucceeded) => RetryState::Succeeded {
            retry_count: attempt,
        },
        (RetryState::Attempting { attempt }, RetryEvent::AttemptFailed) => if attempt
            < max_retries {
            RetryState::Retrying { attempt }
        } else {
            RetryState::Failed { retry_count: attempt }
        },
        (RetryState::Attempting { attempt }, RetryEvent::CancelObserved) => RetryState::Cancelled {
            retry_count: attempt,
        },
        (RetryState::Retrying { attempt }, RetryEvent::DelayElapsed) => if attempt < max_retries {
            RetryState::Attempting { attempt: (attempt + 1) as usize }
        } else {
            state
        },
        (RetryState::Retrying { attempt }, RetryEvent::CancelObserved) => RetryState::Cancelled {
            retry_count: attempt,
        },
        _ => state,
    }
}

/// What the driver does when `event` reaches a task in `state`.
pub open spec fn action_on(state: RetryState, event: RetryEvent, max_retries: usize)
    -> RetryAction {
    let next = next_state(state, event, max_retries);
    if next == state {
        RetryAction::Nothing
    } else if next is Attempting {
        RetryAction::RunAttempt
    } else if next is Retrying {
        RetryAction::Sleep
    } else {
        RetryAction::Finish
    }
}

/// One transition of a task.
pub fn advance(state: RetryState, event: RetryEvent, max_retries: usize) -> (r: (
    RetryState,
    RetryAction,
))
    ensures
        r.0 == next_state(state, event, max_retries),
        r.1 == action_on(state, event, max_retries),
        state.within(max_retries) ==> r.0.within(max_retries),
{
    match state {
        RetryState::Pending => match event {
            RetryEvent::Admitted => (RetryState::Attempting { attempt: 0 }, RetryAction::RunAttempt),
            RetryEvent::CancelObserved => (
                RetryState::Cancelled { retry_count: 0 },
                RetryAction::Finish,
            ),
            _ => (state, RetryAction::Nothing),
        },
        RetryState::Attempting { attempt } => match event {
            RetryEvent::AttemptSucceeded => (
                RetryState::Succeeded { retry_count: attempt },
                RetryAction::Finish,
            ),
            RetryEvent::AttemptFailed => if attempt < max_retries {
                (RetryState::Retrying { attempt }, RetryAction::Sleep)
            } else {
                (RetryState::Failed { retry_count: attempt }, RetryAction::Finish)
            },
            RetryEvent::CancelObserved => (
                RetryState::Cancelled { retry_count: attempt },
                RetryAction::Finish,
            ),
            _ => (state, RetryAction::Nothing),
        },
        RetryState::Retrying { attempt } => match event {
            RetryEvent::DelayElapsed => if attempt < max_retries {
                (RetryState::Attempting { attempt: attempt + 1 }, RetryAction::RunAttempt)
            } else {
                (state, RetryAction::Nothing)
            },
            RetryEvent::CancelObserved => (
                RetryState::Cancelled { retry_count: attempt },
                RetryAction::Finish,
            ),
            _ => (state, RetryAction::Nothing),
        },
        _ => (state, RetryAction::Nothing),
    }
}

/// The state of a task that started in `state` and saw `events` in order.
pub open spec fn run_events(state: RetryState, events: Seq<RetryEvent>, max_retries: usize)
    -> RetryState
    decreases events.len(),
{
    if events.len() == 0 {
        state
    } else {
        run_events(next_state(state, events[0], max_retries), events.drop_first(), max_retries)
    }
}

/// How often the driver was told `action` while a task that started in
/// `state` saw `events` in order.
pub open spec fn count_actions(
    state: RetryState,
    events: Seq<RetryEvent>,
    max_retries: usize,
    action: RetryAction,
) -> nat
    decreases events.len(),
{
    if events.len() == 0 {
        0
    } else {
        let here: nat = if action_on(state, events[0], max_retries) == action {
            1
        } else {
            0
        };
        here + count_actions(
            next_state(state, events[0], max_retries),
            events.drop_first(),
            max_retries,
            action,
        )
    }
}

/// `failures` attempts that fail, each followed by the end of its pause.
pub open spec fn failed_rounds(failures: nat) -> Seq<RetryEvent>
    decreases failures,
{
    if failures == 0 {
        Seq::empty()
    } else {
        seq![RetryEvent::AttemptFailed, RetryEvent::DelayElapsed] + failed_rounds(
            (failures - 1) as nat,
        )
    }
}

/// What a backend that fails `failures` times and succeeds after that
/// shows to an admitted task.
pub open spec fn fails_then_succeeds(failures: nat) -> Seq<RetryEvent> {
    seq![RetryEvent::Admitted] + failed_rounds(failures) + seq![RetryEvent::AttemptSucceeded]
}

/// What a backend that always fails shows to an admitted task with
/// `max_retries` retries: one failure more than there are pauses.
pub open spec fn always_fails(max_retries: usize) -> Seq<RetryEvent> {
    seq![RetryEvent::Admitted] + failed_rounds(max_retries as nat) + seq![
        RetryEvent::AttemptFailed,
    ]
}

/// No transition leaves the bound on retries.
pub proof fn lemma_step_within(state: RetryState, event: RetryEvent, max_retries: usize)
    requires
        state.within(max_retries),
    ensures
        next_state(state, event, max_retries).within(max_retries),
        next_state(state, event, max_retries).retries() <= max_retries,
{
}

/// An outcome is final: no event changes a terminal state.
pub proof fn lemma_terminal_is_final(state: RetryState, event: RetryEvent, max_retries: usize)
    requires
        state.terminal(),
    ensures
        next_state(state, event, max_retries) == state,
        action_on(state, event, max_retries) == RetryAction::Nothing,
{
}

/// The retry count never exceeds `max_retries`, whatever the events.
pub proof fn lemma_run_within(state: RetryState, events: Seq<RetryEvent>, max_retries: usize)
    requires
        state.within(max_retries),
    ensures
        run_events(state, events, max_retries).within(max_retries),
        run_events(state, events, max_retries).retries() <= max_retries,
    decreases events.len(),
{
    if events.len() > 0 {
        lemma_step_within(state, events[0], max_retries);
        lemma_run_within(
            next_state(state, events[0], max_retries),
            events.drop_first(),
            max_retries,
        );
    }
}

proof fn lemma_run_concat(
    state: RetryState,
    first: Seq<RetryEvent>,
    second: Seq<RetryEvent>,
    max_retries: usize,
    action: RetryAction,
)
    ensures
        run_events(state, first + second, max_retries) == run_events(
            run_events(state, first, max_retries),
            second,
            max_retries,
        ),
        count_actions(state, first + second, max_retries, action) == count_actions(
            state,
            first,
            max_retries,
            action,
        ) + count_actions(run_events(state, first, max_retries), second, max_retries, action),
    decreases first.len(),
{
    if first.len() == 0 {
        assert(first + second =~= second);
    } else {
        assert((first + second).drop_first() =~= first.drop_first() + second);
        lemma_run_concat(
            next_state(state, first[0], max_retries),
            first.drop_first(),
            second,
            max_retries,
            action,
        );
    }
}

proof fn lemma_failed_rounds(attempt: usize, failures: nat, max_retries: usize)
    requires
        attempt + failures <= max_retries,
    ensures
        run_events(RetryState::Attempting { attempt }, failed_rounds(failures), max_retries)
            == (RetryState::Attempting { attempt: (attempt + failures) as usize }),
        count_actions(
            RetryState::Attempting { attempt },
            failed_rounds(failures),
            max_retries,
            RetryAction::Sleep,
        ) == failures,
        count_actions(
            RetryState::Attempting { attempt },
            failed_rounds(failures),
            max_retries,
            RetryAction::RunAttempt,
        ) == failures,
    decreases failures,
{
    let start = RetryState::Attempting { attempt };
    if failures > 0 {
        let round = seq![RetryEvent::AttemptFailed, RetryEvent::DelayElapsed];
        let rest = failed_rounds((failures - 1) as nat);
        let paused = RetryState::Retrying { attempt };
        let again = RetryState::Attempting { attempt: (attempt + 1) as usize };
        assert(round.drop_first() =~= seq![RetryEvent::DelayElapsed]);
        assert(round.drop_first().drop_first() =~= Seq::<RetryEvent>::empty());
        assert(next_state(start, round[0], max_retries) == paused);
        assert(next_state(paused, round.drop_first()[0], max_retries) == again);
        reveal_with_fuel(run_events, 3);
        reveal_with_fuel(count_actions, 3);
        assert(run_events(start, round, max_retries) == again);
        assert(count_actions(start, round, max_retries, RetryAction::Sleep) == 1);
        assert(count_actions(start, round, max_retries, RetryAction::RunAttempt) == 1);
        lemma_run_concat(start, round, rest, max_retries, RetryAction::Sleep);
        lemma_run_concat(start, round, rest, max_retries, RetryAction::RunAttempt);
        lemma_failed_rounds((attempt + 1) as usize, (failures - 1) as nat, max_retries);
    }
}

/// A backend that fails `failures` times, with `failures <= max_retries`,
/// and succeeds after that leaves the task succeeded with a retry count of
/// `failures`, after as many pauses and one attempt more.
pub proof fn lemma_fails_then_succeeds(failures: nat, max_retries: usize)
    requires
        failures <= max_retries,
    ensures
        run_events(RetryState::Pending, fails_then_succeeds(failures), max_retries) == (
        RetryState::Succeeded { retry_count: failures as usize }),
        count_actions(
            RetryState::Pending,
            fails_then_succeeds(failures),
            max_retries,
            RetryAction::Sleep,
        ) == failures,
        count_actions(
            RetryState::Pending,
            fails_then_succeeds(failures),
            max_retries,
            RetryAction::RunAttempt,
        ) == failures + 1,
{
    let first = RetryState::Attempting { attempt: 0 };
    let last = RetryState::Attempting { attempt: failures as usize };
    let head = seq![RetryEvent::Admitted];
    let tail = seq![RetryEvent::AttemptSucceeded];
    lemma_failed_rounds(0, failures, max_retries);
    lemma_closing_event(head, failures, tail, max_retries, RetryAction::Sleep);
    lemma_closing_event(head, failures, tail, max_retries, RetryAction::RunAttempt);
    reveal_with_fuel(run_events, 2);
    reveal_with_fuel(count_actions, 2);
    assert(head.drop_first() =~= Seq::<RetryEvent>::empty());
    assert(tail.drop_first() =~= Seq::<RetryEvent>::empty());
    assert(run_events(RetryState::Pending, head, max_retries) == first);
    assert(run_events(last, tail, max_retries) == (RetryState::Succeeded {
        retry_count: failures as usize,
    }));
}

/// A backend that always fails leaves the task failed after exactly
/// `max_retries + 1` attempts and `max_retries` pauses, with a retry count
/// of `max_retries`.
pub proof fn lemma_always_fails(max_retries: usize)
    ensures
        run_events(RetryState::Pending, always_fails(max_retries), max_retries) == (
        RetryState::Failed { retry_count: max_retries }),
        count_actions(
            RetryState::Pending,
            always_fails(max_retries),
            max_retries,
            RetryAction::Sleep,
        ) == max_retries,
        count_actions(
            RetryState::Pending,
            always_fails(max_retries),
            max_retries,
            RetryAction::RunAttempt,
        ) == max_retries + 1,
{
    let first = RetryState::Attempting { attempt: 0 };
    let last = RetryState::Attempting { attempt: max_retries };
    let head = seq![RetryEvent::Admitted];
    let tail = seq![RetryEvent::AttemptFailed];
    lemma_failed_rounds(0, max_retries as nat, max_retries);
    lemma_closing_event(head, max_retries as nat, tail, max_retries, RetryAction::Sleep);
    lemma_closing_event(head, max_retries as nat, tail, max_retries, RetryAction::RunAttempt);
    reveal_with_fuel(run_events, 2);
    reveal_with_fuel(count_actions, 2);
    assert(head.drop_first() =~= Seq::<RetryEvent>::empty());
    assert(tail.drop_first() =~= Seq::<RetryEvent>::empty());
    assert(run_events(RetryState::Pending, head, max_retries) == first);
    assert(run_events(last, tail, max_retries) == (RetryState::Failed {
        retry_count: max_retries,
    }));
}

proof fn lemma_closing_event(
    head: Seq<RetryEvent>,
    failures: nat,
    tail: Seq<RetryEvent>,
    max_retries: usize,
    action: RetryAction,
)
    ensures
        run_events(RetryState::Pending, head + failed_rounds(failures) + tail, max_retries)
            == run_events(
            run_events(
                run_events(RetryState::Pending, head, max_retries),
                failed_rounds(failures),
                max_retries,
            ),
            tail,
            max_retries,
        ),
        count_actions(
            RetryState::Pending,
            head + failed_rounds(failures) + tail,
            max_retries,
            action,
        ) == count_actions(RetryState::Pending, head, max_retries, action) + count_actions(
            run_events(RetryState::Pending, head, max_retries),
            failed_rounds(failures),
            max_retries,
            action,
        ) + count_actions(
            run_events(
                run_events(RetryState::Pending, head, max_retries),
                failed_rounds(failures),
                max_retries,
            ),
            tail,
            max_retries,
            action,
        ),
{
    let middle = failed_rounds(failures);
    lemma_run_concat(RetryState::Pending, head + middle, tail, max_retries, action);
    lemma_run_concat(RetryState::Pending, head, middle, max_retries, action);
}

} // verus!
