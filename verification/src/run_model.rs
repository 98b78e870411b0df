//! The model of a run: what the engine knows at any moment, and how each
//! thing that can happen changes it. The running engine is proved to follow
//! this model step by step. In the model an entry is what it holds.

use crate::collector::assembled;
use crate::config::ConcurrentGenerationConfig;
use crate::progress::{ProgressAggregator, ProgressUpdate};
use crate::rate_limiter::{elapsed_between, SimpleRateLimiter, POLL_INTERVAL_MS};
use crate::retry::{next_state, RetryEvent, RetryState};
use crate::splitter::split_sizes;
use crate::json::Json;
use crate::types::{GenerationTask, ModelProvider};
use vstd::prelude::*;

verus! {

/// Where one request of a batch stands.
#[derive(Debug, Clone, Copy, PartialEq, Eq, Structural)]
pub enum SubState {
    /// Not sent yet: it waits for the rate limiter of its backend.
    Waiting,
    /// Sent, and not answered yet.
    InFlight,
    /// Answered, with entries.
    Done,
}

/// One request of a batch.
pub struct SubBatchView {
    /// How many entries it asks for.
    pub size: usize,
    pub state: SubState,
    /// What the entries hold that it was answered with; empty until it is
    /// done.
    pub entries: Seq<Json>,
}

/// One task of the run.
pub struct TaskSlotView {
    pub retry: RetryState,
    /// When the task was admitted.
    pub started_ms: u64,
    /// The requests of the running attempt, in the order of the split;
    /// empty unless an attempt is running.
    pub subs: Seq<SubBatchView>,
}

/// What the driver of a run is told to do next.
#[derive(Debug, Clone, Copy)]
pub enum Step {
    /// The run is cancelled, and task `task` was given up: send `update`.
    Finalized { task: usize, update: ProgressUpdate },
    /// Task `task` now holds a permit. Nothing to do but to ask again.
    Admitted { task: usize },
    /// Send request `sub` of attempt `attempt` of task `task`, for `size`
    /// entries, and report its answer.
    Dispatch { task: usize, attempt: usize, sub: usize, size: usize },
    /// A request waits for its rate limiter: ask again in `ms`
    /// milliseconds.
    Wait { ms: u64 },
    /// Nothing can be done until something is reported.
    Idle,
}

/// What the answer to a request led to.
#[derive(Debug, Clone, Copy)]
pub enum ReactionKind {
    /// The answer belongs to no request that is awaited: it is dropped.
    Stale,
    /// The entries are kept; other requests of the batch are awaited.
    Recorded,
    /// The batch has succeeded: send `update`.
    Succeeded { update: ProgressUpdate, generation_time_ms: u64, retry_count: usize },
    /// The attempt has failed: report `retry_due` in `delay_ms`
    /// milliseconds.
    RetryAfter { delay_ms: u64 },
    /// The batch has failed for good: send `update`.
    Failed { update: ProgressUpdate },
}

/// What can happen to a run.
pub enum RunEvent {
    /// The driver asks what to do at `now_ms`.
    Step { now_ms: u64 },
    /// Request `sub` of attempt `attempt` of task `task` was answered at
    /// `now_ms`: with `decoded` entries, or with a failure.
    Reply { task: usize, attempt: usize, sub: usize, decoded: Option<Seq<Json>>, now_ms: u64 },
    /// The pause after attempt `attempt` of task `task` is over.
    RetryDue { task: usize, attempt: usize },
    /// The cancellation signal was set.
    Cancel,
}

/// The batch identifiers of `tasks` are `0 .. tasks.len()`, each once.
pub open spec fn dense_ids(tasks: Seq<GenerationTask>) -> bool {
    &&& forall|i: int| 0 <= i < tasks.len() ==> (#[trigger] tasks[i]).batch_id < tasks.len()
    &&& forall|i: int, j: int|
        0 <= i < j < tasks.len() ==> (#[trigger] tasks[i]).batch_id != (#[trigger] tasks[j]).batch_id
}

/// Requests of the sizes `sizes`, none of them sent.
pub open spec fn waiting_subs(sizes: Seq<usize>) -> Seq<SubBatchView> {
    Seq::new(
        sizes.len(),
        |j: int| SubBatchView { size: sizes[j], state: SubState::Waiting, entries: Seq::empty() },
    )
}

/// The sizes of `subs`.
pub open spec fn sizes_of(subs: Seq<SubBatchView>) -> Seq<usize> {
    Seq::new(subs.len(), |j: int| subs[j].size)
}

/// The entries of the first `n` of `subs`, in the order of the split.
pub open spec fn gathered(subs: Seq<SubBatchView>, n: int) -> Seq<Json>
    decreases n,
{
    if n <= 0 {
        Seq::empty()
    } else {
        gathered(subs, n - 1) + subs[n - 1].entries
    }
}

/// Every one of `subs` is answered.
pub open spec fn all_done(subs: Seq<SubBatchView>) -> bool {
    forall|j: int| 0 <= j < subs.len() ==> (#[trigger] subs[j]).state is Done
}

/// How many of `slots` are in a state that `wanted` holds of.
pub open spec fn count_slots(slots: Seq<TaskSlotView>, wanted: spec_fn(RetryState) -> bool) -> nat
    decreases slots.len(),
{
    if slots.len() == 0 {
        0
    } else {
        count_slots(slots.drop_last(), wanted) + if wanted(slots.last().retry) {
            1nat
        } else {
            0nat
        }
    }
}

/// How many tasks hold a permit.
pub open spec fn count_holding(slots: Seq<TaskSlotView>) -> nat {
    count_slots(slots, |r: RetryState| r.holds_permit())
}

/// How many tasks have reached their outcome.
pub open spec fn count_terminal(slots: Seq<TaskSlotView>) -> nat {
    count_slots(slots, |r: RetryState| r.terminal())
}

/// How many tasks have ended without success: failed, or given up.
pub open spec fn count_unsuccessful(slots: Seq<TaskSlotView>) -> nat {
    count_slots(slots, |r: RetryState| r is Failed || r is Cancelled)
}

/// Task `i` is the first that has not reached its outcome.
pub open spec fn is_first_unfinished(slots: Seq<TaskSlotView>, i: int) -> bool {
    &&& 0 <= i < slots.len()
    &&& !slots[i].retry.terminal()
    &&& forall|k: int| 0 <= k < i ==> (#[trigger] slots[k]).retry.terminal()
}

/// Task `i` is the first that waits for a permit.
pub open spec fn is_first_pending(slots: Seq<TaskSlotView>, i: int) -> bool {
    &&& 0 <= i < slots.len()
    &&& slots[i].retry is Pending
    &&& forall|k: int| 0 <= k < i ==> !((#[trigger] slots[k]).retry is Pending)
}

/// Some request of a running attempt has not been sent.
pub open spec fn has_waiting(slots: Seq<TaskSlotView>) -> bool {
    exists|i: int, j: int| is_waiting(slots, i, j)
}

/// Request `j` of task `i` belongs to a running attempt and has not been
/// sent.
pub open spec fn is_waiting(slots: Seq<TaskSlotView>, i: int, j: int) -> bool {
    &&& 0 <= i < slots.len()
    &&& slots[i].retry is Attempting
    &&& 0 <= j < slots[i].subs.len()
    &&& slots[i].subs[j].state is Waiting
}

/// `(i, j)` comes before `(k, l)`: an earlier task, or an earlier request
/// of the same task.
pub open spec fn comes_before(i: int, j: int, k: int, l: int) -> bool {
    i < k || (i == k && j < l)
}

/// What the engine knows of a run.
pub struct RunModel {
    pub config: ConcurrentGenerationConfig,
    pub tasks: Seq<GenerationTask>,
    pub slots: Seq<TaskSlotView>,
    /// The permits that tasks hold.
    pub held: nat,
    pub cancelled: bool,
    pub ollama: SimpleRateLimiter,
    pub openai: SimpleRateLimiter,
    pub progress: ProgressAggregator,
    /// The entries of the batches that succeeded, by batch.
    pub results: Map<usize, Seq<Json>>,
}

impl TaskSlotView {
    /// A task that has not been admitted.
    pub open spec fn pending() -> Self {
        TaskSlotView { retry: RetryState::Pending, started_ms: 0, subs: Seq::empty() }
    }

    /// The same slot in the state `retry`, with no request of its own.
    pub open spec fn closed_as(self, retry: RetryState) -> Self {
        TaskSlotView { retry, started_ms: self.started_ms, subs: Seq::empty() }
    }

    /// The same slot with request `j` in the state `state`, holding `entries`.
    pub open spec fn with_sub(self, j: int, state: SubState, entries: Seq<Json>) -> Self {
        TaskSlotView {
            retry: self.retry,
            started_ms: self.started_ms,
            subs: self.subs.update(j, SubBatchView { size: self.subs[j].size, state, entries }),
        }
    }

    /// The slot of `task` keeps to the rules: its retries are bounded, a
    /// running attempt has the requests of the split, and no other state
    /// has any.
    pub open spec fn wf(self, task: GenerationTask, config: ConcurrentGenerationConfig) -> bool {
        &&& self.retry.within(config.max_retries)
        &&& self.retry is Attempting ==> sizes_of(self.subs) == split_sizes(
            task.entries_to_generate,
            config.max_concurrent_requests_per_batch,
        )
        &&& !(self.retry is Attempting) ==> self.subs.len() == 0
    }
}

impl RunModel {
    /// The run of `tasks` under `config` before anything has happened.
    pub open spec fn initial(config: ConcurrentGenerationConfig, tasks: Seq<GenerationTask>)
        -> RunModel {
        RunModel {
            config,
            tasks,
            slots: Seq::new(tasks.len(), |i: int| TaskSlotView::pending()),
            held: 0,
            cancelled: false,
            ollama: SimpleRateLimiter::unused(config.ollama_requests_per_second),
            openai: SimpleRateLimiter::unused(config.openai_requests_per_second),
            progress: ProgressAggregator::fresh(tasks.len() as usize),
            results: Map::empty(),
        }
    }

    /// The rate limiter of the backend family `provider`.
    pub open spec fn limiter(self, provider: ModelProvider) -> SimpleRateLimiter {
        match provider {
            ModelProvider::Ollama => self.ollama,
            ModelProvider::OpenAI => self.openai,
        }
    }

    /// The invariant of a run.
    pub open spec fn wf(self) -> bool {
        &&& self.config.valid()
        &&& self.tasks.len() <= usize::MAX
        &&& self.slots.len() == self.tasks.len()
        &&& dense_ids(self.tasks)
        &&& self.held == count_holding(self.slots)
        &&& self.held <= self.config.max_concurrent_batches
        &&& self.progress.total_batches() == self.tasks.len()
        &&& self.progress.completed() == count_terminal(self.slots)
        &&& self.progress.errors_count() <= self.progress.completed()
        &&& self.ollama.min_interval_ms() == 1000int / (self.config.ollama_requests_per_second
            as int)
        &&& self.openai.min_interval_ms() == 1000int / (self.config.openai_requests_per_second
            as int)
        &&& forall|i: int|
            0 <= i < self.slots.len() ==> (#[trigger] self.slots[i]).wf(self.tasks[i], self.config)
    }

    /// What was collected is what succeeded: the entries of a batch are
    /// held exactly if its task has succeeded, and nothing is held for a
    /// batch that is none of the run.
    pub open spec fn results_match(self) -> bool {
        &&& forall|i: int|
            0 <= i < self.slots.len() ==> ((#[trigger] self.slots[i]).retry is Succeeded
                <==> self.results.contains_key(self.tasks[i].batch_id))
        &&& forall|b: usize| #[trigger] self.results.contains_key(b) ==> b < self.tasks.len()
    }

    /// The count of errors is the count of the tasks that have ended
    /// without success.
    pub open spec fn errors_match(self) -> bool {
        self.progress.errors_count() == count_unsuccessful(self.slots)
    }

    /// Everything that holds of a run at every moment.
    pub open spec fn sound(self) -> bool {
        self.wf() && self.results_match() && self.errors_match()
    }

    /// Every task has reached its outcome.
    pub open spec fn finished(self) -> bool {
        forall|i: int| 0 <= i < self.slots.len() ==> (#[trigger] self.slots[i]).retry.terminal()
    }

    /// The result of the run as it stands: the entries of the batches that
    /// succeeded, in ascending order of batch.
    pub open spec fn result(self) -> Seq<Json> {
        assembled(self.results, self.tasks.len())
    }

    /// Request `j` of task `i` could be sent at `now_ms`: it waits, and the
    /// rate limiter of its backend would grant it.
    pub open spec fn is_ready(self, now_ms: u64, i: int, j: int) -> bool {
        &&& is_waiting(self.slots, i, j)
        &&& self.limiter(self.tasks[i].provider).ready(now_ms)
    }

    /// Request `j` of task `i` is the first that could be sent at `now_ms`.
    pub open spec fn is_first_ready(self, now_ms: u64, i: int, j: int) -> bool {
        &&& self.is_ready(now_ms, i, j)
        &&& forall|k: int, l: int|
            comes_before(k, l, i, j) ==> !#[trigger] self.is_ready(now_ms, k, l)
    }

    /// This run with the slot of task `i` replaced.
    pub open spec fn with_slot(self, i: int, slot: TaskSlotView) -> RunModel {
        RunModel { slots: self.slots.update(i, slot), ..self }
    }

    /// The run once it was cancelled and task `i` was given up at `now_ms`.
    pub open spec fn give_up(self, i: int, now_ms: u64) -> (RunModel, Step) {
        let slot = self.slots[i];
        let retry = next_state(slot.retry, RetryEvent::CancelObserved, self.config.max_retries);
        let progress = self.progress.recorded(false, 0, retry.retries());
        (
            RunModel {
                slots: self.slots.update(i, slot.closed_as(retry)),
                held: if slot.retry.holds_permit() {
                    (self.held - 1) as nat
                } else {
                    self.held
                },
                progress,
                ..self
            },
            Step::Finalized { task: i as usize, update: progress.snapshot(None, now_ms) },
        )
    }

    /// The run once task `i` was admitted at `now_ms`: it holds a permit,
    /// and its first attempt has the requests of the split, none sent.
    pub open spec fn let_in(self, i: int, now_ms: u64) -> (RunModel, Step) {
        let slot = TaskSlotView {
            retry: next_state(self.slots[i].retry, RetryEvent::Admitted, self.config.max_retries),
            started_ms: now_ms,
            subs: waiting_subs(
                split_sizes(
                    self.tasks[i].entries_to_generate,
                    self.config.max_concurrent_requests_per_batch,
                ),
            ),
        };
        (
            RunModel { slots: self.slots.update(i, slot), held: self.held + 1, ..self },
            Step::Admitted { task: i as usize },
        )
    }

    /// The run once request `j` of task `i` was sent at `now_ms`: the
    /// request is in flight, and the rate limiter of its backend has
    /// granted at `now_ms`.
    pub open spec fn dispatch(self, i: int, j: int, now_ms: u64) -> (RunModel, Step) {
        let slot = self.slots[i];
        let slots = self.slots.update(i, slot.with_sub(j, SubState::InFlight, Seq::empty()));
        let step = Step::Dispatch {
            task: i as usize,
            attempt: slot.retry.retries(),
            sub: j as usize,
            size: slot.subs[j].size,
        };
        match self.tasks[i].provider {
            ModelProvider::Ollama => (
                RunModel { slots, ollama: self.ollama.granted_at(now_ms), ..self },
                step,
            ),
            ModelProvider::OpenAI => (
                RunModel { slots, openai: self.openai.granted_at(now_ms), ..self },
                step,
            ),
        }
    }

    /// What the driver is told at `now_ms`, and the run after it. A
    /// cancelled run gives up its tasks one by one and starts nothing.
    /// Otherwise the first waiting task is admitted while a permit is
    /// free; after that the first request that its rate limiter grants is
    /// sent.
    pub open spec fn step(self, now_ms: u64) -> (RunModel, Step) {
        if self.cancelled {
            if exists|i: int| is_first_unfinished(self.slots, i) {
                self.give_up(choose|i: int| is_first_unfinished(self.slots, i), now_ms)
            } else {
                (self, Step::Idle)
            }
        } else if self.held < self.config.max_concurrent_batches && exists|i: int|
            is_first_pending(self.slots, i) {
            self.let_in(choose|i: int| is_first_pending(self.slots, i), now_ms)
        } else if exists|i: int, j: int| self.is_first_ready(now_ms, i, j) {
            let (i, j) = choose|i: int, j: int| self.is_first_ready(now_ms, i, j);
            self.dispatch(i, j, now_ms)
        } else if has_waiting(self.slots) {
            (self, Step::Wait { ms: POLL_INTERVAL_MS })
        } else {
            (self, Step::Idle)
        }
    }

    /// Request `sub` of attempt `attempt` of task `task` is awaited.
    pub open spec fn awaits(self, task: usize, attempt: usize, sub: usize) -> bool {
        &&& !self.cancelled
        &&& task < self.slots.len()
        &&& self.slots[task as int].retry == (RetryState::Attempting { attempt })
        &&& sub < self.slots[task as int].subs.len()
        &&& self.slots[task as int].subs[sub as int].state is InFlight
    }

    /// The run once an awaited request was answered with `entries`. The
    /// last answer of an attempt makes the batch succeed with the entries
    /// of its requests in the order of the split.
    pub open spec fn keep_entries(
        self,
        task: usize,
        attempt: usize,
        sub: usize,
        entries: Seq<Json>,
        now_ms: u64,
    ) -> (RunModel, ReactionKind) {
        let slot = self.slots[task as int].with_sub(sub as int, SubState::Done, entries);
        if all_done(slot.subs) {
            let batch = gathered(slot.subs, slot.subs.len() as int);
            let retry = next_state(slot.retry, RetryEvent::AttemptSucceeded, self.config.max_retries);
            let progress = self.progress.recorded(true, batch.len(), attempt);
            let batch_id = self.tasks[task as int].batch_id;
            (
                RunModel {
                    slots: self.slots.update(task as int, slot.closed_as(retry)),
                    held: (self.held - 1) as nat,
                    progress,
                    results: self.results.insert(batch_id, batch),
                    ..self
                },
                ReactionKind::Succeeded {
                    update: progress.snapshot(Some(batch_id), now_ms),
                    generation_time_ms: elapsed_between(slot.started_ms, now_ms) as u64,
                    retry_count: attempt,
                },
            )
        } else {
            (self.with_slot(task as int, slot), ReactionKind::Recorded)
        }
    }

    /// The run once an awaited request failed. What the other requests of
    /// the attempt brought is dropped. While retries are left the task
    /// pauses; after the last one it has failed.
    pub open spec fn fail_attempt(self, task: usize, attempt: usize, now_ms: u64) -> (
        RunModel,
        ReactionKind,
    ) {
        let slot = self.slots[task as int];
        let retry = next_state(slot.retry, RetryEvent::AttemptFailed, self.config.max_retries);
        if retry is Retrying {
            (
                self.with_slot(task as int, slot.closed_as(retry)),
                ReactionKind::RetryAfter { delay_ms: self.config.retry_delay_ms },
            )
        } else {
            let progress = self.progress.recorded(false, 0, attempt);
            (
                RunModel {
                    slots: self.slots.update(task as int, slot.closed_as(retry)),
                    held: (self.held - 1) as nat,
                    progress,
                    ..self
                },
                ReactionKind::Failed { update: progress.snapshot(None, now_ms) },
            )
        }
    }

    /// The run once an answer came in at `now_ms`: `decoded` entries, or a
    /// failure. An answer that is not awaited changes nothing.
    pub open spec fn reply(
        self,
        task: usize,
        attempt: usize,
        sub: usize,
        decoded: Option<Seq<Json>>,
        now_ms: u64,
    ) -> (RunModel, ReactionKind) {
        if !self.awaits(task, attempt, sub) {
            (self, ReactionKind::Stale)
        } else {
            match decoded {
                Some(entries) => self.keep_entries(task, attempt, sub, entries, now_ms),
                None => self.fail_attempt(task, attempt, now_ms),
            }
        }
    }

    /// The pause after attempt `attempt` of task `task` runs, and the run
    /// is not cancelled.
    pub open spec fn pauses(self, task: usize, attempt: usize) -> bool {
        &&& !self.cancelled
        &&& task < self.slots.len()
        &&& self.slots[task as int].retry == (RetryState::Retrying { attempt })
        &&& attempt < self.config.max_retries
    }

    /// The run once the pause after attempt `attempt` of task `task` was
    /// over: the next attempt runs, with the requests of the split, none
    /// sent. Anything else changes nothing.
    pub open spec fn retry_due(self, task: usize, attempt: usize) -> (RunModel, bool) {
        if self.pauses(task, attempt) {
            let slot = TaskSlotView {
                retry: next_state(
                    self.slots[task as int].retry,
                    RetryEvent::DelayElapsed,
                    self.config.max_retries,
                ),
                started_ms: self.slots[task as int].started_ms,
                subs: waiting_subs(
                    split_sizes(
                        self.tasks[task as int].entries_to_generate,
                        self.config.max_concurrent_requests_per_batch,
                    ),
                ),
            };
            (self.with_slot(task as int, slot), true)
        } else {
            (self, false)
        }
    }

    /// The run once the cancellation signal was set. The signal is never
    /// taken back.
    pub open spec fn cancel(self) -> RunModel {
        RunModel { cancelled: true, ..self }
    }

    /// The run once the driver has looked at the cancellation signal and
    /// found it set, or not: a signal that is set cancels the run, and one
    /// that is not leaves the run as it is.
    pub open spec fn signalled(self, set: bool) -> RunModel {
        if set {
            self.cancel()
        } else {
            self
        }
    }

    /// The run once `event` happened.
    pub open spec fn apply(self, event: RunEvent) -> RunModel {
        match event {
            RunEvent::Step { now_ms } => self.step(now_ms).0,
            RunEvent::Reply { task, attempt, sub, decoded, now_ms } => self.reply(
                task,
                attempt,
                sub,
                decoded,
                now_ms,
            ).0,
            RunEvent::RetryDue { task, attempt } => self.retry_due(task, attempt).0,
            RunEvent::Cancel => self.cancel(),
        }
    }

    /// The run once `events` happened in order.
    pub open spec fn after(self, events: Seq<RunEvent>) -> RunModel
        decreases events.len(),
    {
        if events.len() == 0 {
            self
        } else {
            self.after(events.drop_last()).apply(events.last())
        }
    }

    /// The times at which requests went out to `provider` while `events`
    /// happened to this run, in order.
    pub open spec fn dispatch_times(self, events: Seq<RunEvent>, provider: ModelProvider) -> Seq<
        u64,
    >
        decreases events.len(),
    {
        if events.len() == 0 {
            Seq::empty()
        } else {
            let earlier = self.dispatch_times(events.drop_last(), provider);
            if self.after(events.drop_last()).sends_to(events.last(), provider) {
                earlier.push(events.last()->Step_now_ms)
            } else {
                earlier
            }
        }
    }

    /// Whether `event` makes this run send a request to `provider`.
    pub open spec fn sends_to(self, event: RunEvent, provider: ModelProvider) -> bool {
        match event {
            RunEvent::Step { now_ms } => self.step(now_ms).1 is Dispatch
                && self.tasks[self.step(now_ms).1->Dispatch_task as int].provider == provider,
            _ => false,
        }
    }

    /// Whether `event` makes this run start something: admit a task or
    /// send a request.
    pub open spec fn starts_work(self, event: RunEvent) -> bool {
        match event {
            RunEvent::Step { now_ms } => self.step(now_ms).1 is Admitted || self.step(now_ms).1
                is Dispatch,
            _ => false,
        }
    }
}

} // verus!
