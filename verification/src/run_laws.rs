//! What holds of every run: the invariant is kept by everything that can
//! happen, the cap on running batches is never exceeded, rate limits are
//! respected, and a cancelled run starts nothing.

use crate::collector::assembled;
use crate::config::ConcurrentGenerationConfig;
use crate::progress::ProgressAggregator;
use crate::rate_limiter::{elapsed_between, SimpleRateLimiter};
use crate::retry::{next_state, RetryEvent, RetryState};
use crate::run_model::{all_done, count_holding, count_slots, count_terminal, count_unsuccessful, dense_ids, is_first_pending, is_first_unfinished, is_waiting, sizes_of, waiting_subs, ReactionKind, RunEvent, RunModel, Step, SubState, TaskSlotView};
use crate::splitter::split_sizes;
use crate::json::Json;
use crate::types::{GenerationTask, ModelProvider};
use vstd::prelude::*;

verus! {

/// `1` if `b` holds and `0` if not.
pub open spec fn unit(b: bool) -> int {
    if b {
        1
    } else {
        0
    }
}

/// A count never exceeds the number of tasks.
pub proof fn lemma_count_bound(slots: Seq<TaskSlotView>, wanted: spec_fn(RetryState) -> bool)
    ensures
        count_slots(slots, wanted) <= slots.len(),
    decreases slots.len(),
{
    if slots.len() > 0 {
        lemma_count_bound(slots.drop_last(), wanted);
    }
}

/// Replacing one slot changes a count by what the old slot gave to it
/// and what the new one gives.
pub proof fn lemma_count_update(
    slots: Seq<TaskSlotView>,
    i: int,
    slot: TaskSlotView,
    wanted: spec_fn(RetryState) -> bool,
)
    requires
        0 <= i < slots.len(),
    ensures
        count_slots(slots.update(i, slot), wanted) == count_slots(slots, wanted) - unit(
            wanted(slots[i].retry),
        ) + unit(wanted(slot.retry)),
    decreases slots.len(),
{
    let updated = slots.update(i, slot);
    if i == slots.len() - 1 {
        assert(updated.drop_last() =~= slots.drop_last());
    } else {
        assert(updated.drop_last() =~= slots.drop_last().update(i, slot));
        lemma_count_update(slots.drop_last(), i, slot, wanted);
    }
}

/// A count is zero exactly if no slot is counted, and full exactly if
/// every slot is.
pub proof fn lemma_count_extremes(slots: Seq<TaskSlotView>, wanted: spec_fn(RetryState) -> bool)
    ensures
        count_slots(slots, wanted) == 0 <==> forall|i: int|
            0 <= i < slots.len() ==> !wanted((#[trigger] slots[i]).retry),
        count_slots(slots, wanted) == slots.len() <==> forall|i: int|
            0 <= i < slots.len() ==> wanted((#[trigger] slots[i]).retry),
    decreases slots.len(),
{
    if slots.len() > 0 {
        let front = slots.drop_last();
        lemma_count_extremes(front, wanted);
        lemma_count_bound(front, wanted);
        assert forall|i: int| 0 <= i < front.len() implies front[i] == slots[i] by {}
        if forall|i: int| 0 <= i < slots.len() ==> !wanted((#[trigger] slots[i]).retry) {
            assert forall|i: int| 0 <= i < front.len() implies !wanted(
                (#[trigger] front[i]).retry,
            ) by {
                assert(front[i] == slots[i]);
            }
            assert(!wanted(slots[slots.len() - 1].retry));
        }
        if forall|i: int| 0 <= i < slots.len() ==> wanted((#[trigger] slots[i]).retry) {
            assert forall|i: int| 0 <= i < front.len() implies wanted((#[trigger] front[i]).retry) by {
                assert(front[i] == slots[i]);
            }
            assert(wanted(slots[slots.len() - 1].retry));
        }
        if count_slots(slots, wanted) == 0 {
            assert forall|i: int| 0 <= i < slots.len() implies !wanted(
                (#[trigger] slots[i]).retry,
            ) by {
                if i < front.len() {
                    assert(front[i] == slots[i]);
                }
            }
        }
        if count_slots(slots, wanted) == slots.len() {
            assert forall|i: int| 0 <= i < slots.len() implies wanted((#[trigger] slots[i]).retry) by {
                if i < front.len() {
                    assert(front[i] == slots[i]);
                }
            }
        }
    }
}

/// A run is finished exactly if every one of its batches has been
/// recorded.
pub proof fn lemma_finished_by_count(run: RunModel)
    requires
        run.wf(),
    ensures
        run.finished() <==> run.progress.completed() == run.tasks.len(),
{
    lemma_count_extremes(run.slots, |r: RetryState| r.terminal());
}

/// Nothing that was collected yields no entries.
pub proof fn lemma_nothing_assembled(batches: nat)
    ensures
        assembled(Map::<usize, Seq<Json>>::empty(), batches) == Seq::<Json>::empty(),
    decreases batches,
{
    if batches > 0 {
        lemma_nothing_assembled((batches - 1) as nat);
    }
}

/// A run that has not started keeps the invariant.
pub proof fn lemma_initial_wf(config: ConcurrentGenerationConfig, tasks: Seq<GenerationTask>)
    requires
        config.valid(),
        dense_ids(tasks),
        tasks.len() <= usize::MAX,
    ensures
        RunModel::initial(config, tasks).wf(),
        !RunModel::initial(config, tasks).cancelled,
        RunModel::initial(config, tasks).result() == Seq::<Json>::empty(),
{
    broadcast use {SimpleRateLimiter::lemma_unused, ProgressAggregator::lemma_fresh};

    let run = RunModel::initial(config, tasks);
    lemma_count_extremes(run.slots, |r: RetryState| r.holds_permit());
    lemma_count_extremes(run.slots, |r: RetryState| r.terminal());
    lemma_nothing_assembled(tasks.len());
}

proof fn lemma_replace_slot(run: RunModel, i: int, slot: TaskSlotView)
    requires
        run.wf(),
        0 <= i < run.slots.len(),
        slot.wf(run.tasks[i], run.config),
    ensures
        count_holding(run.slots.update(i, slot)) == count_holding(run.slots) - unit(
            run.slots[i].retry.holds_permit(),
        ) + unit(slot.retry.holds_permit()),
        count_terminal(run.slots.update(i, slot)) == count_terminal(run.slots) - unit(
            run.slots[i].retry.terminal(),
        ) + unit(slot.retry.terminal()),
        count_terminal(run.slots.update(i, slot)) <= run.slots.len(),
        count_holding(run.slots) <= run.slots.len(),
        forall|k: int|
            0 <= k < run.slots.len() ==> (#[trigger] run.slots.update(i, slot)[k]).wf(
                run.tasks[k],
                run.config,
            ),
{
    lemma_count_update(run.slots, i, slot, |r: RetryState| r.holds_permit());
    lemma_count_update(run.slots, i, slot, |r: RetryState| r.terminal());
    lemma_count_bound(run.slots.update(i, slot), |r: RetryState| r.terminal());
    lemma_count_bound(run.slots, |r: RetryState| r.holds_permit());
    assert forall|k: int| 0 <= k < run.slots.len() implies (#[trigger] run.slots.update(
        i,
        slot,
    )[k]).wf(run.tasks[k], run.config) by {
        if k != i {
            assert(run.slots.update(i, slot)[k] == run.slots[k]);
        }
    }
}

/// The requests of a fresh attempt are those of the split.
pub proof fn lemma_waiting_subs(sizes: Seq<usize>)
    ensures
        sizes_of(waiting_subs(sizes)) == sizes,
        waiting_subs(sizes).len() == sizes.len(),
{
    assert(sizes_of(waiting_subs(sizes)) =~= sizes);
}

proof fn lemma_with_sub(slot: TaskSlotView, j: int, state: SubState, entries: Seq<Json>)
    requires
        0 <= j < slot.subs.len(),
    ensures
        sizes_of(slot.with_sub(j, state, entries).subs) == sizes_of(slot.subs),
        slot.with_sub(j, state, entries).retry == slot.retry,
{
    assert(sizes_of(slot.with_sub(j, state, entries).subs) =~= sizes_of(slot.subs));
}

/// Giving up a task of a cancelled run keeps the invariant.
pub proof fn lemma_give_up_wf(run: RunModel, i: int, now_ms: u64)
    requires
        run.wf(),
        0 <= i < run.slots.len(),
        !run.slots[i].retry.terminal(),
    ensures
        run.give_up(i, now_ms).0.wf(),
        run.progress.completed() < run.progress.total_batches(),
        run.slots[i].retry.holds_permit() ==> run.held > 0,
{
    broadcast use ProgressAggregator::lemma_recorded;

    let slot = run.slots[i];
    let retry = next_state(slot.retry, RetryEvent::CancelObserved, run.config.max_retries);
    lemma_replace_slot(run, i, slot.closed_as(retry));
}

/// Admitting a waiting task while a permit is free keeps the invariant.
pub proof fn lemma_let_in_wf(run: RunModel, i: int, now_ms: u64)
    requires
        run.wf(),
        0 <= i < run.slots.len(),
        run.slots[i].retry is Pending,
        run.held < run.config.max_concurrent_batches,
    ensures
        run.let_in(i, now_ms).0.wf(),
{
    let sizes = split_sizes(
        run.tasks[i].entries_to_generate,
        run.config.max_concurrent_requests_per_batch,
    );
    lemma_waiting_subs(sizes);
    lemma_replace_slot(run, i, run.let_in(i, now_ms).0.slots[i]);
}

/// Sending a request that waits keeps the invariant.
pub proof fn lemma_dispatch_wf(run: RunModel, i: int, j: int, now_ms: u64)
    requires
        run.wf(),
        is_waiting(run.slots, i, j),
    ensures
        run.dispatch(i, j, now_ms).0.wf(),
{
    broadcast use SimpleRateLimiter::lemma_granted_at;

    let slot = run.slots[i].with_sub(j, SubState::InFlight, Seq::empty());
    lemma_with_sub(run.slots[i], j, SubState::InFlight, Seq::empty());
    lemma_replace_slot(run, i, slot);
}

/// Whatever the driver is told, the invariant is kept.
pub proof fn lemma_step_wf(run: RunModel, now_ms: u64)
    requires
        run.wf(),
    ensures
        run.step(now_ms).0.wf(),
{
    if run.cancelled {
        if exists|i: int| is_first_unfinished(run.slots, i) {
            let i = choose|i: int| is_first_unfinished(run.slots, i);
            lemma_give_up_wf(run, i, now_ms);
        }
    } else if run.held < run.config.max_concurrent_batches && exists|i: int|
        is_first_pending(run.slots, i) {
        let i = choose|i: int| is_first_pending(run.slots, i);
        lemma_let_in_wf(run, i, now_ms);
    } else if exists|i: int, j: int| run.is_first_ready(now_ms, i, j) {
        let (i, j) = choose|i: int, j: int| run.is_first_ready(now_ms, i, j);
        lemma_dispatch_wf(run, i, j, now_ms);
    }
}

/// An answer, awaited or not, keeps the invariant.
pub proof fn lemma_reply_wf(
    run: RunModel,
    task: usize,
    attempt: usize,
    sub: usize,
    decoded: Option<Seq<Json>>,
    now_ms: u64,
)
    requires
        run.wf(),
    ensures
        run.reply(task, attempt, sub, decoded, now_ms).0.wf(),
        run.awaits(task, attempt, sub) ==> run.held > 0 && run.progress.completed()
            < run.progress.total_batches() && attempt <= run.config.max_retries,
{
    broadcast use ProgressAggregator::lemma_recorded;

    if run.awaits(task, attempt, sub) {
        let i = task as int;
        let old_slot = run.slots[i];
        assert(old_slot.wf(run.tasks[i], run.config));
        lemma_replace_slot(
            run,
            i,
            old_slot.closed_as(RetryState::Cancelled { retry_count: attempt }),
        );
        match decoded {
            Some(entries) => {
                let slot = old_slot.with_sub(sub as int, SubState::Done, entries);
                lemma_with_sub(old_slot, sub as int, SubState::Done, entries);
                if all_done(slot.subs) {
                    let retry = next_state(
                        slot.retry,
                        RetryEvent::AttemptSucceeded,
                        run.config.max_retries,
                    );
                    lemma_replace_slot(run, i, slot.closed_as(retry));
                } else {
                    lemma_replace_slot(run, i, slot);
                }
            },
            None => {
                let retry = next_state(
                    old_slot.retry,
                    RetryEvent::AttemptFailed,
                    run.config.max_retries,
                );
                lemma_replace_slot(run, i, old_slot.closed_as(retry));
            },
        }
    }
}

/// The end of a pause, awaited or not, keeps the invariant.
pub proof fn lemma_retry_due_wf(run: RunModel, task: usize, attempt: usize)
    requires
        run.wf(),
    ensures
        run.retry_due(task, attempt).0.wf(),
{
    if run.pauses(task, attempt) {
        let i = task as int;
        let sizes = split_sizes(
            run.tasks[i].entries_to_generate,
            run.config.max_concurrent_requests_per_batch,
        );
        lemma_waiting_subs(sizes);
        lemma_replace_slot(run, i, run.retry_due(task, attempt).0.slots[i]);
    }
}

/// Nothing that can happen breaks the invariant, changes the tasks or the
/// configuration, or takes the cancellation signal back.
pub proof fn lemma_apply_wf(run: RunModel, event: RunEvent)
    requires
        run.wf(),
    ensures
        run.apply(event).wf(),
        run.apply(event).config == run.config,
        run.apply(event).tasks == run.tasks,
        run.cancelled ==> run.apply(event).cancelled,
{
    match event {
        RunEvent::Step { now_ms } => {
            lemma_step_wf(run, now_ms);
        },
        RunEvent::Reply { task, attempt, sub, decoded, now_ms } => {
            lemma_reply_wf(run, task, attempt, sub, decoded, now_ms);
        },
        RunEvent::RetryDue { task, attempt } => {
            lemma_retry_due_wf(run, task, attempt);
        },
        RunEvent::Cancel => {},
    }
}

/// The invariant holds after any sequence of events.
pub proof fn lemma_after_wf(run: RunModel, events: Seq<RunEvent>)
    requires
        run.wf(),
    ensures
        run.after(events).wf(),
        run.after(events).config == run.config,
        run.after(events).tasks == run.tasks,
        run.cancelled ==> run.after(events).cancelled,
    decreases events.len(),
{
    if events.len() > 0 {
        lemma_after_wf(run, events.drop_last());
        lemma_apply_wf(run.after(events.drop_last()), events.last());
    }
}

/// Whatever happens to a run and in whatever order, the tasks that hold a
/// permit are never more than `max_concurrent_batches`.
pub proof fn lemma_bounded_concurrency(
    config: ConcurrentGenerationConfig,
    tasks: Seq<GenerationTask>,
    events: Seq<RunEvent>,
)
    requires
        config.valid(),
        dense_ids(tasks),
        tasks.len() <= usize::MAX,
    ensures
        count_holding(RunModel::initial(config, tasks).after(events).slots)
            <= config.max_concurrent_batches,
        RunModel::initial(config, tasks).after(events).held == count_holding(
            RunModel::initial(config, tasks).after(events).slots,
        ),
{
    lemma_initial_wf(config, tasks);
    lemma_after_wf(RunModel::initial(config, tasks), events);
}

/// No task is ever beyond its last retry.
pub proof fn lemma_retries_bounded(
    config: ConcurrentGenerationConfig,
    tasks: Seq<GenerationTask>,
    events: Seq<RunEvent>,
    i: int,
)
    requires
        config.valid(),
        dense_ids(tasks),
        tasks.len() <= usize::MAX,
        0 <= i < tasks.len(),
    ensures
        RunModel::initial(config, tasks).after(events).slots[i].retry.retries()
            <= config.max_retries,
{
    lemma_initial_wf(config, tasks);
    lemma_after_wf(RunModel::initial(config, tasks), events);
    let run = RunModel::initial(config, tasks).after(events);
    assert(run.slots[i].wf(run.tasks[i], run.config));
}

/// A request is only ever sent when the rate limiter of its backend grants
/// it, and the limiter records the grant.
pub proof fn lemma_dispatch_is_granted(run: RunModel, now_ms: u64)
    requires
        run.wf(),
        run.step(now_ms).1 is Dispatch,
    ensures
        ({
            let task = run.step(now_ms).1->Dispatch_task;
            let provider = run.tasks[task as int].provider;
            &&& task < run.tasks.len()
            &&& run.limiter(provider).ready(now_ms)
            &&& run.step(now_ms).0.limiter(provider) == run.limiter(provider).granted_at(now_ms)
        }),
{
    if exists|i: int| is_first_unfinished(run.slots, i) {
    }
    if exists|i: int| is_first_pending(run.slots, i) {
    }
    let (i, j) = choose|i: int, j: int| run.is_first_ready(now_ms, i, j);
    assert(run.is_first_ready(now_ms, i, j));
}

/// A cancelled run starts nothing: no step admits a task or sends a
/// request, and no event adds to what was collected.
pub proof fn lemma_cancelled_event(run: RunModel, event: RunEvent)
    requires
        run.cancelled,
    ensures
        !run.starts_work(event),
        run.apply(event).results == run.results,
        run.apply(event).cancelled,
{
}

/// Once the signal is set, whatever happens, nothing is started and the
/// result stays what it was.
pub proof fn lemma_cancelled_run_starts_nothing(run: RunModel, events: Seq<RunEvent>, k: int)
    requires
        run.cancelled,
        0 <= k < events.len(),
    ensures
        !run.after(events.take(k)).starts_work(events[k]),
        run.after(events).results == run.results,
        run.after(events).cancelled,
    decreases events.len(),
{
    lemma_cancelled_prefix(run, events);
    lemma_cancelled_prefix(run, events.take(k));
    lemma_cancelled_event(run.after(events.take(k)), events[k]);
}

proof fn lemma_cancelled_prefix(run: RunModel, events: Seq<RunEvent>)
    requires
        run.cancelled,
    ensures
        run.after(events).results == run.results,
        run.after(events).cancelled,
    decreases events.len(),
{
    if events.len() > 0 {
        lemma_cancelled_prefix(run, events.drop_last());
        lemma_cancelled_event(run.after(events.drop_last()), events.last());
    }
}

/// A run whose signal is set before any task was admitted ends with an
/// empty result, whatever happens after.
pub proof fn lemma_cancelled_before_start(
    config: ConcurrentGenerationConfig,
    tasks: Seq<GenerationTask>,
    events: Seq<RunEvent>,
)
    ensures
        RunModel::initial(config, tasks).cancel().after(events).result() == Seq::<Json>::empty(),
        forall|k: int|
            0 <= k < events.len() ==> !(#[trigger] RunModel::initial(config, tasks).cancel().after(
                events.take(k),
            )).starts_work(events[k]),
{
    let run = RunModel::initial(config, tasks).cancel();
    lemma_cancelled_prefix(run, events);
    assert(run.after(events).tasks.len() == tasks.len()) by {
        lemma_tasks_kept(run, events);
    }
    lemma_nothing_assembled(tasks.len());
    assert forall|k: int| 0 <= k < events.len() implies !(#[trigger] run.after(
        events.take(k),
    )).starts_work(events[k]) by {
        lemma_cancelled_run_starts_nothing(run, events, k);
    }
}

/// No event changes the tasks of a run.
pub proof fn lemma_tasks_kept(run: RunModel, events: Seq<RunEvent>)
    ensures
        run.after(events).tasks == run.tasks,
        run.after(events).config == run.config,
    decreases events.len(),
{
    if events.len() > 0 {
        lemma_tasks_kept(run, events.drop_last());
    }
}


proof fn lemma_first_unfinished_from(slots: Seq<TaskSlotView>, k: int)
    requires
        0 <= k <= slots.len(),
        forall|j: int| 0 <= j < k ==> (#[trigger] slots[j]).retry.terminal(),
        exists|i: int| k <= i < slots.len() && !(#[trigger] slots[i]).retry.terminal(),
    ensures
        exists|i: int| is_first_unfinished(slots, i),
    decreases slots.len() - k,
{
    if !slots[k].retry.terminal() {
        assert(is_first_unfinished(slots, k));
    } else {
        lemma_first_unfinished_from(slots, k + 1);
    }
}

/// A cancelled run comes to its end without delay: each step gives up one
/// of the tasks that are left, and a run with none left is finished.
pub proof fn lemma_cancelled_run_winds_down(run: RunModel, now_ms: u64)
    requires
        run.wf(),
        run.cancelled,
    ensures
        run.finished() ==> run.step(now_ms).1 is Idle && run.step(now_ms).0 == run,
        !run.finished() ==> run.step(now_ms).1 is Finalized && count_terminal(
            run.step(now_ms).0.slots,
        ) == count_terminal(run.slots) + 1,
{
    if run.finished() {
        assert forall|i: int| !is_first_unfinished(run.slots, i) by {
            if 0 <= i < run.slots.len() {
                assert(run.slots[i].retry.terminal());
            }
        }
    } else {
        lemma_first_unfinished_from(run.slots, 0);
        let i = choose|i: int| is_first_unfinished(run.slots, i);
        let retry = next_state(
            run.slots[i].retry,
            RetryEvent::CancelObserved,
            run.config.max_retries,
        );
        lemma_replace_slot(run, i, run.slots[i].closed_as(retry));
    }
}

/// Each task has one outcome: nothing that can happen changes a task that
/// has reached its own.
pub proof fn lemma_outcome_is_final(run: RunModel, event: RunEvent, i: int)
    requires
        0 <= i < run.slots.len(),
        run.slots[i].retry.terminal(),
    ensures
        run.apply(event).slots[i] == run.slots[i],
{
    match event {
        RunEvent::Step { now_ms } => {
            if exists|k: int| is_first_unfinished(run.slots, k) {
                let k = choose|k: int| is_first_unfinished(run.slots, k);
                assert(k != i);
            }
            if exists|k: int| is_first_pending(run.slots, k) {
                let k = choose|k: int| is_first_pending(run.slots, k);
                assert(k != i);
            }
            if exists|k: int, l: int| run.is_first_ready(now_ms, k, l) {
                let (k, l) = choose|k: int, l: int| run.is_first_ready(now_ms, k, l);
                assert(run.is_first_ready(now_ms, k, l));
                assert(k != i);
            }
        },
        _ => {},
    }
}

/// What was collected stays what succeeded, whatever happens.
pub proof fn lemma_apply_results_match(run: RunModel, event: RunEvent)
    requires
        run.wf(),
        run.results_match(),
    ensures
        run.apply(event).results_match(),
{
    let next = run.apply(event);
    lemma_apply_wf(run, event);
    match event {
        RunEvent::Step { now_ms } => {
            if run.cancelled {
                if exists|k: int| is_first_unfinished(run.slots, k) {
                    let k = choose|k: int| is_first_unfinished(run.slots, k);
                    assert forall|i: int| 0 <= i < next.slots.len() implies ((
                    #[trigger] next.slots[i]).retry is Succeeded <==> next.results.contains_key(
                        next.tasks[i].batch_id,
                    )) by {
                        if i != k {
                            assert(next.slots[i] == run.slots[i]);
                        } else {
                            assert(!(run.slots[k].retry is Succeeded));
                        }
                    }
                }
            } else if run.held < run.config.max_concurrent_batches && exists|k: int|
                is_first_pending(run.slots, k) {
                let k = choose|k: int| is_first_pending(run.slots, k);
                assert forall|i: int| 0 <= i < next.slots.len() implies ((
                #[trigger] next.slots[i]).retry is Succeeded <==> next.results.contains_key(
                    next.tasks[i].batch_id,
                )) by {
                    if i != k {
                        assert(next.slots[i] == run.slots[i]);
                    } else {
                        assert(!(run.slots[k].retry is Succeeded));
                    }
                }
            } else if exists|k: int, l: int| run.is_first_ready(now_ms, k, l) {
                let (k, l) = choose|k: int, l: int| run.is_first_ready(now_ms, k, l);
                assert(run.is_first_ready(now_ms, k, l));
                assert forall|i: int| 0 <= i < next.slots.len() implies ((
                #[trigger] next.slots[i]).retry is Succeeded <==> next.results.contains_key(
                    next.tasks[i].batch_id,
                )) by {
                    if i != k {
                        assert(next.slots[i] == run.slots[i]);
                    } else {
                        assert(!(run.slots[k].retry is Succeeded));
                    }
                }
            }
        },
        RunEvent::Reply { task, attempt, sub, decoded, now_ms } => {
            if run.awaits(task, attempt, sub) {
                let k = task as int;
                assert(!(run.slots[k].retry is Succeeded));
                assert forall|i: int| 0 <= i < next.slots.len() implies ((
                #[trigger] next.slots[i]).retry is Succeeded <==> next.results.contains_key(
                    next.tasks[i].batch_id,
                )) by {
                    if i != k {
                        assert(next.slots[i] == run.slots[i]);
                        if i < k {
                            assert(run.tasks[i].batch_id != run.tasks[k].batch_id);
                        } else {
                            assert(run.tasks[k].batch_id != run.tasks[i].batch_id);
                        }
                    }
                }
                assert forall|b: usize| #[trigger]
                    next.results.contains_key(b) implies b < next.tasks.len() by {
                    if b == run.tasks[k].batch_id {
                    } else {
                        assert(run.results.contains_key(b));
                    }
                }
            }
        },
        RunEvent::RetryDue { task, attempt } => {
            if run.pauses(task, attempt) {
                let k = task as int;
                assert forall|i: int| 0 <= i < next.slots.len() implies ((
                #[trigger] next.slots[i]).retry is Succeeded <==> next.results.contains_key(
                    next.tasks[i].batch_id,
                )) by {
                    if i != k {
                        assert(next.slots[i] == run.slots[i]);
                    } else {
                        assert(!(run.slots[k].retry is Succeeded));
                    }
                }
            }
        },
        RunEvent::Cancel => {},
    }
}

/// One outcome for each batch: at every moment of a run, the entries of a
/// batch are held exactly if its task has succeeded, and the result is
/// what is held, in ascending order of batch.
pub proof fn lemma_results_are_the_successes(
    config: ConcurrentGenerationConfig,
    tasks: Seq<GenerationTask>,
    events: Seq<RunEvent>,
)
    requires
        config.valid(),
        dense_ids(tasks),
        tasks.len() <= usize::MAX,
    ensures
        RunModel::initial(config, tasks).after(events).results_match(),
        RunModel::initial(config, tasks).after(events).result() == assembled(
            RunModel::initial(config, tasks).after(events).results,
            tasks.len(),
        ),
    decreases events.len(),
{
    let start = RunModel::initial(config, tasks);
    lemma_initial_wf(config, tasks);
    lemma_tasks_kept(start, events);
    if events.len() > 0 {
        lemma_results_are_the_successes(config, tasks, events.drop_last());
        lemma_after_wf(start, events.drop_last());
        lemma_apply_results_match(start.after(events.drop_last()), events.last());
    }
}


/// The minimum interval of the rate limiter of `provider` under `config`.
pub open spec fn interval_of(config: ConcurrentGenerationConfig, provider: ModelProvider) -> int {
    1000int / (config.spec_requests_per_second(provider) as int)
}

proof fn lemma_limiter_after_event(run: RunModel, event: RunEvent, provider: ModelProvider)
    requires
        run.wf(),
    ensures
        run.sends_to(event, provider) ==> run.limiter(provider).ready(event->Step_now_ms)
            && run.apply(event).limiter(provider).last_request_ms() == Some(event->Step_now_ms),
        !run.sends_to(event, provider) ==> run.apply(event).limiter(provider) == run.limiter(
            provider,
        ),
        run.limiter(provider).min_interval_ms() == interval_of(run.config, provider),
{
    broadcast use SimpleRateLimiter::lemma_granted_at;

    match event {
        RunEvent::Step { now_ms } => {
            if !run.cancelled && !(run.held < run.config.max_concurrent_batches && exists|i: int|
                is_first_pending(run.slots, i)) {
                if exists|i: int, j: int| run.is_first_ready(now_ms, i, j) {
                    let (i, j) = choose|i: int, j: int| run.is_first_ready(now_ms, i, j);
                    assert(run.is_first_ready(now_ms, i, j));
                }
            }
        },
        _ => {},
    }
}

proof fn lemma_last_dispatch(run: RunModel, events: Seq<RunEvent>, provider: ModelProvider)
    requires
        run.wf(),
    ensures
        run.dispatch_times(events, provider).len() > 0 ==> run.after(events).limiter(
            provider,
        ).last_request_ms() == Some(run.dispatch_times(events, provider).last()),
        run.dispatch_times(events, provider).len() == 0 ==> run.after(events).limiter(provider)
            == run.limiter(provider),
    decreases events.len(),
{
    if events.len() > 0 {
        lemma_last_dispatch(run, events.drop_last(), provider);
        lemma_after_wf(run, events.drop_last());
        lemma_limiter_after_event(run.after(events.drop_last()), events.last(), provider);
    }
}

/// Whatever happens, two requests that go out to one backend one after the
/// other are at least the minimum interval of that backend apart.
pub proof fn lemma_dispatches_are_spaced(
    run: RunModel,
    events: Seq<RunEvent>,
    provider: ModelProvider,
    k: int,
)
    requires
        run.wf(),
        0 < k < run.dispatch_times(events, provider).len(),
    ensures
        elapsed_between(
            run.dispatch_times(events, provider)[k - 1],
            run.dispatch_times(events, provider)[k],
        ) >= interval_of(run.config, provider),
    decreases events.len(),
{
    let front = events.drop_last();
    let earlier = run.dispatch_times(front, provider);
    let before = run.after(front);
    lemma_after_wf(run, front);
    if before.sends_to(events.last(), provider) && k == earlier.len() {
        lemma_last_dispatch(run, front, provider);
        lemma_limiter_after_event(before, events.last(), provider);
    } else {
        lemma_dispatches_are_spaced(run, front, provider, k);
    }
}


proof fn lemma_unsuccessful_update(run: RunModel, i: int, slot: TaskSlotView)
    requires
        0 <= i < run.slots.len(),
    ensures
        count_unsuccessful(run.slots.update(i, slot)) == count_unsuccessful(run.slots) - unit(
            run.slots[i].retry is Failed || run.slots[i].retry is Cancelled,
        ) + unit(slot.retry is Failed || slot.retry is Cancelled),
{
    lemma_count_update(run.slots, i, slot, |r: RetryState| r is Failed || r is Cancelled);
}

/// The count of errors stays the count of the tasks that have ended
/// without success, whatever happens.
pub proof fn lemma_apply_errors_match(run: RunModel, event: RunEvent)
    requires
        run.wf(),
        run.errors_match(),
    ensures
        run.apply(event).errors_match(),
{
    broadcast use ProgressAggregator::lemma_recorded;

    let next = run.apply(event);
    match event {
        RunEvent::Step { now_ms } => {
            if run.cancelled {
                if exists|k: int| is_first_unfinished(run.slots, k) {
                    let k = choose|k: int| is_first_unfinished(run.slots, k);
                    lemma_give_up_wf(run, k, now_ms);
                    lemma_unsuccessful_update(run, k, next.slots[k]);
                }
            } else if run.held < run.config.max_concurrent_batches && exists|k: int|
                is_first_pending(run.slots, k) {
                let k = choose|k: int| is_first_pending(run.slots, k);
                lemma_unsuccessful_update(run, k, next.slots[k]);
            } else if exists|k: int, l: int| run.is_first_ready(now_ms, k, l) {
                let (k, l) = choose|k: int, l: int| run.is_first_ready(now_ms, k, l);
                assert(run.is_first_ready(now_ms, k, l));
                lemma_unsuccessful_update(run, k, next.slots[k]);
            }
        },
        RunEvent::Reply { task, attempt, sub, decoded, now_ms } => {
            if run.awaits(task, attempt, sub) {
                lemma_reply_wf(run, task, attempt, sub, decoded, now_ms);
                lemma_unsuccessful_update(run, task as int, next.slots[task as int]);
            }
        },
        RunEvent::RetryDue { task, attempt } => {
            if run.pauses(task, attempt) {
                lemma_unsuccessful_update(run, task as int, next.slots[task as int]);
            }
        },
        RunEvent::Cancel => {},
    }
}

/// A run that has not started is sound.
pub proof fn lemma_initial_sound(config: ConcurrentGenerationConfig, tasks: Seq<GenerationTask>)
    requires
        config.valid(),
        dense_ids(tasks),
        tasks.len() <= usize::MAX,
    ensures
        RunModel::initial(config, tasks).sound(),
{
    broadcast use ProgressAggregator::lemma_fresh;

    lemma_initial_wf(config, tasks);
    lemma_count_extremes(
        RunModel::initial(config, tasks).slots,
        |r: RetryState| r is Failed || r is Cancelled,
    );
}

/// Nothing that can happen to a run breaks what holds of it at every
/// moment.
pub proof fn lemma_apply_sound(run: RunModel, event: RunEvent)
    requires
        run.sound(),
    ensures
        run.apply(event).sound(),
{
    lemma_apply_wf(run, event);
    lemma_apply_results_match(run, event);
    lemma_apply_errors_match(run, event);
}

/// Partial failure shows in the count of errors: at every moment of a
/// run it is the number of tasks that failed or were given up.
pub proof fn lemma_errors_are_the_failures(
    config: ConcurrentGenerationConfig,
    tasks: Seq<GenerationTask>,
    events: Seq<RunEvent>,
)
    requires
        config.valid(),
        dense_ids(tasks),
        tasks.len() <= usize::MAX,
    ensures
        RunModel::initial(config, tasks).after(events).sound(),
        RunModel::initial(config, tasks).after(events).progress.errors_count()
            == count_unsuccessful(RunModel::initial(config, tasks).after(events).slots),
    decreases events.len(),
{
    let start = RunModel::initial(config, tasks);
    lemma_initial_sound(config, tasks);
    if events.len() > 0 {
        lemma_errors_are_the_failures(config, tasks, events.drop_last());
        lemma_apply_sound(start.after(events.drop_last()), events.last());
    }
}


/// What `event` means to task `i` of `run`, if it concerns the task at
/// all: its admission, the end of its attempt or of its pause, or
/// cancellation.
pub open spec fn event_for_task(run: RunModel, event: RunEvent, i: int) -> Option<RetryEvent> {
    match event {
        RunEvent::Step { now_ms } => match run.step(now_ms).1 {
            Step::Finalized { task, .. } => if task == i {
                Some(RetryEvent::CancelObserved)
            } else {
                None
            },
            Step::Admitted { task } => if task == i {
                Some(RetryEvent::Admitted)
            } else {
                None
            },
            _ => None,
        },
        RunEvent::Reply { task, attempt, sub, decoded, now_ms } => match run.reply(
            task,
            attempt,
            sub,
            decoded,
            now_ms,
        ).1 {
            ReactionKind::Succeeded { .. } => if task == i {
                Some(RetryEvent::AttemptSucceeded)
            } else {
                None
            },
            ReactionKind::RetryAfter { .. } => if task == i {
                Some(RetryEvent::AttemptFailed)
            } else {
                None
            },
            ReactionKind::Failed { .. } => if task == i {
                Some(RetryEvent::AttemptFailed)
            } else {
                None
            },
            _ => None,
        },
        RunEvent::RetryDue { task, attempt } => if run.retry_due(task, attempt).1 && task == i {
            Some(RetryEvent::DelayElapsed)
        } else {
            None
        },
        RunEvent::Cancel => None,
    }
}

/// A task changes its state by the transitions of the retry machine and in
/// no other way.
pub proof fn lemma_task_follows_retry_machine(run: RunModel, event: RunEvent, i: int)
    requires
        run.wf(),
        0 <= i < run.slots.len(),
    ensures
        run.apply(event).slots[i].retry == match event_for_task(run, event, i) {
            Some(e) => next_state(run.slots[i].retry, e, run.config.max_retries),
            None => run.slots[i].retry,
        },
{
    match event {
        RunEvent::Step { now_ms } => {
            if run.cancelled {
                if exists|k: int| is_first_unfinished(run.slots, k) {
                    let k = choose|k: int| is_first_unfinished(run.slots, k);
                    assert(0 <= k < run.slots.len() <= usize::MAX);
                }
            } else if run.held < run.config.max_concurrent_batches && exists|k: int|
                is_first_pending(run.slots, k) {
                let k = choose|k: int| is_first_pending(run.slots, k);
                assert(0 <= k < run.slots.len() <= usize::MAX);
            } else if exists|k: int, l: int| run.is_first_ready(now_ms, k, l) {
                let (k, l) = choose|k: int, l: int| run.is_first_ready(now_ms, k, l);
                assert(run.is_first_ready(now_ms, k, l));
            }
        },
        RunEvent::Reply { task, attempt, sub, decoded, now_ms } => {
            if run.awaits(task, attempt, sub) {
                assert(run.slots[task as int].wf(run.tasks[task as int], run.config));
            }
        },
        RunEvent::RetryDue { task, attempt } => {},
        RunEvent::Cancel => {},
    }
}

} // verus!
