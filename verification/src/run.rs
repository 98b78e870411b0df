//! A run of the engine: the state behind `GenerationRun`, which follows
//! the model of `run_model` with every call.
//!
//! The run does no input or output and keeps no clock. Its driver sends
//! the requests, waits, and reports what came back; the run decides.

use crate::admission::ConcurrencyController;
use crate::collector::ResultCollector;
use crate::config::{ConcurrentGenerationConfig, ConfigError};
use crate::progress::{ProgressAggregator, ProgressUpdate};
use crate::rate_limiter::{SimpleRateLimiter, POLL_INTERVAL_MS};
use crate::response::{body_entries, entries_from_body};
use crate::retry::{advance, RetryEvent, RetryState};
use crate::run_laws::{lemma_apply_sound, lemma_dispatch_wf, lemma_finished_by_count, lemma_give_up_wf, lemma_initial_sound, lemma_let_in_wf, lemma_reply_wf, lemma_retry_due_wf};
use crate::run_model::{all_done, comes_before, dense_ids, gathered, has_waiting, is_first_pending, is_first_unfinished, is_waiting, waiting_subs, ReactionKind, RunEvent, RunModel, Step, SubBatchView, SubState, TaskSlotView};
use crate::splitter::split_batch;
use crate::json::Json;
use crate::types::{lemma_models_of_both, lemma_models_of_none, models, BatchOutcome, BatchResult, DatasetEntry, GenerationError, GenerationTask, ModelProvider};
use vstd::prelude::*;
use vstd::string::*;
use vstd::utf8::*;

verus! {

/// What a backend answered to one request.
#[derive(Debug)]
pub enum BackendReply {
    /// The body of an answer with a status of success.
    Body(String),
    /// Why there is no such answer: the message of a transport failure,
    /// or of a status that is no success.
    Failure(String),
}

/// What the answer to a request led to, with the error where there is
/// one.
#[derive(Debug)]
pub enum Reaction {
    /// The answer belongs to no request that is awaited: it is dropped.
    Stale,
    /// The entries are kept; other requests of the batch are awaited.
    Recorded,
    /// The batch has succeeded: send `update`.
    Succeeded { update: ProgressUpdate, generation_time_ms: u64, retry_count: usize },
    /// The attempt has failed with `error`: report `retry_due` in
    /// `delay_ms` milliseconds.
    RetryAfter { delay_ms: u64, error: GenerationError },
    /// The batch has failed for good with `error`: send `update`.
    Failed { update: ProgressUpdate, error: GenerationError },
}

impl Reaction {
    /// This reaction without its error.
    pub open spec fn kind(&self) -> ReactionKind {
        match *self {
            Reaction::Stale => ReactionKind::Stale,
            Reaction::Recorded => ReactionKind::Recorded,
            Reaction::Succeeded { update, generation_time_ms, retry_count } => ReactionKind::Succeeded {
                update,
                generation_time_ms,
                retry_count,
            },
            Reaction::RetryAfter { delay_ms, .. } => ReactionKind::RetryAfter { delay_ms },
            Reaction::Failed { update, .. } => ReactionKind::Failed { update },
        }
    }

    /// The error of this reaction is the one that `message` calls for: a
    /// failure of the backend while retries are left, and exhausted
    /// retries, with the retries made, after the last one.
    pub open spec fn reports(&self, message: Seq<char>, attempt: usize) -> bool {
        match *self {
            Reaction::RetryAfter { error, .. } => error is Backend && error->Backend_0@ == message,
            Reaction::Failed { error, .. } => error is RetriesExhausted
                && error->RetriesExhausted_last@ == message && error->RetriesExhausted_retry_count
                == attempt,
            _ => true,
        }
    }
}

impl BackendReply {
    /// The entries that this answer stands for, as the answer to a
    /// request for `size` entries: those of its body, or none if it is a
    /// failure or its body is no JSON document.
    pub open spec fn decoded(
        &self,
        provider: ModelProvider,
        size: usize,
        config: ConcurrentGenerationConfig,
    ) -> Option<Seq<Json>> {
        match *self {
            BackendReply::Body(text) => body_entries(
                provider,
                encode_utf8(text@),
                size as nat,
                config.dataset_format,
            ),
            BackendReply::Failure(_) => None,
        }
    }

    /// The message of the failure that this answer is, where it is one.
    pub open spec fn failure_message(&self) -> Seq<char> {
        match *self {
            BackendReply::Body(_) => crate::response::UNDECODABLE_BODY@,
            BackendReply::Failure(message) => message@,
        }
    }
}

/// The entries that `reply` stands for as the answer to request `sub` of
/// task `task` of `run`.
pub open spec fn answer_to(run: RunModel, task: usize, sub: usize, reply: BackendReply) -> Option<
    Seq<Json>,
> {
    reply.decoded(
        run.tasks[task as int].provider,
        run.slots[task as int].subs[sub as int].size,
        run.config,
    )
}

/// Why a run could not start.
#[derive(Debug, Clone, Copy, PartialEq, Eq, Structural)]
pub enum RunError {
    /// The configuration cannot be run.
    InvalidConfiguration(ConfigError),
    /// The batch identifiers of the tasks are not `0 .. n`, each once.
    InvalidTasks,
}

/// The error with which a run of `tasks` under `config` is refused, if it
/// is refused.
pub open spec fn start_error(config: ConcurrentGenerationConfig, tasks: Seq<GenerationTask>)
    -> Option<RunError> {
    match config.first_error() {
        Some(e) => Some(RunError::InvalidConfiguration(e)),
        None => if dense_ids(tasks) {
            None
        } else {
            Some(RunError::InvalidTasks)
        },
    }
}

/// One request of a batch, with the entries that it was answered with.
struct SubBatch {
    size: usize,
    state: SubState,
    entries: Vec<DatasetEntry>,
}

impl View for SubBatch {
    type V = SubBatchView;

    closed spec fn view(&self) -> SubBatchView {
        SubBatchView { size: self.size, state: self.state, entries: models(self.entries@) }
    }
}

/// One task of the run, with the requests of its running attempt.
struct TaskSlot {
    retry: RetryState,
    started_ms: u64,
    subs: Vec<SubBatch>,
}

impl View for TaskSlot {
    type V = TaskSlotView;

    closed spec fn view(&self) -> TaskSlotView {
        TaskSlotView {
            retry: self.retry,
            started_ms: self.started_ms,
            subs: Seq::new(self.subs.len() as nat, |j: int| self.subs[j]@),
        }
    }
}

/// The slots as the model sees them.
spec fn slot_views(slots: Seq<TaskSlot>) -> Seq<TaskSlotView> {
    Seq::new(slots.len(), |i: int| slots[i]@)
}

/// The requests of a new attempt: one of each size, none of them sent.
fn fresh_subs(sizes: &Vec<usize>) -> (subs: Vec<SubBatch>)
    ensures
        Seq::new(subs.len() as nat, |j: int| subs[j]@) == waiting_subs(sizes@),
{
    let mut subs: Vec<SubBatch> = Vec::new();
    let mut j: usize = 0;
    while j < sizes.len()
        invariant
            j <= sizes.len(),
            subs.len() == j,
            forall|k: int|
                0 <= k < j ==> (#[trigger] subs[k])@ == (SubBatchView {
                    size: sizes[k],
                    state: SubState::Waiting,
                    entries: Seq::empty(),
                }),
        decreases sizes.len() - j,
    {
        proof {
            lemma_models_of_none();
        }
        subs.push(SubBatch { size: sizes[j], state: SubState::Waiting, entries: Vec::new() });
        j = j + 1;
    }
    assert(Seq::new(subs.len() as nat, |j: int| subs[j]@) =~= waiting_subs(sizes@));
    subs
}

/// Whether the batch identifiers of `tasks` are `0 .. n`, each once.
fn ids_are_dense(tasks: &Vec<GenerationTask>) -> (ok: bool)
    ensures
        ok == dense_ids(tasks@),
{
    let n: usize = tasks.len();
    let mut seen: Vec<bool> = Vec::new();
    let mut k: usize = 0;
    while k < n
        invariant
            k <= n,
            seen.len() == k,
            forall|b: int| 0 <= b < k ==> !seen[b],
        decreases n - k,
    {
        seen.push(false);
        k = k + 1;
    }
    let mut i: usize = 0;
    while i < n
        invariant
            i <= n,
            n == tasks.len(),
            seen.len() == n,
            forall|a: int| 0 <= a < i ==> (#[trigger] tasks[a]).batch_id < n,
            forall|a: int, b: int|
                0 <= a < b < i ==> (#[trigger] tasks[a]).batch_id != (#[trigger] tasks[b]).batch_id,
            forall|b: int|
                0 <= b < n ==> (#[trigger] seen[b] <==> exists|a: int|
                    0 <= a < i && (#[trigger] tasks[a]).batch_id == b),
        decreases n - i,
    {
        let id: usize = tasks[i].batch_id;
        if id >= n {
            assert(!dense_ids(tasks@)) by {
                assert(tasks@[i as int].batch_id >= tasks@.len());
            }
            return false;
        }
        if seen[id] {
            assert(!dense_ids(tasks@)) by {
                let a = choose|a: int| 0 <= a < i && (#[trigger] tasks[a]).batch_id == id;
                assert(tasks@[a].batch_id == tasks@[i as int].batch_id);
            }
            return false;
        }
        let ghost before = seen@;
        seen.set(id, true);
        assert forall|b: int| 0 <= b < n implies (#[trigger] seen[b] <==> exists|a: int|
            0 <= a < i + 1 && (#[trigger] tasks[a]).batch_id == b) by {
            if b == id {
                assert(tasks[i as int].batch_id == b);
            } else {
                assert(seen[b] == before[b]);
                if before[b] {
                    let a = choose|a: int| 0 <= a < i && (#[trigger] tasks[a]).batch_id == b;
                    assert(0 <= a < i + 1 && tasks[a].batch_id == b);
                }
                if exists|a: int| 0 <= a < i + 1 && (#[trigger] tasks[a]).batch_id == b {
                    let a = choose|a: int| 0 <= a < i + 1 && (#[trigger] tasks[a]).batch_id == b;
                    assert(a != i);
                    assert(0 <= a < i && tasks[a].batch_id == b);
                }
            }
        }
        assert forall|a: int, b: int| 0 <= a < b < i + 1 implies (#[trigger] tasks[a]).batch_id != (
        #[trigger] tasks[b]).batch_id by {
            if b == i {
                if tasks[a].batch_id == id {
                    assert(before[id as int]);
                }
            }
        }
        i = i + 1;
    }
    true
}

/// The state of a run. Every function keeps the invariant of the model,
/// and says so.
pub(crate) struct RunCore {
    config: ConcurrentGenerationConfig,
    tasks: Vec<GenerationTask>,
    slots: Vec<TaskSlot>,
    controller: ConcurrencyController,
    ollama: SimpleRateLimiter,
    openai: SimpleRateLimiter,
    aggregator: ProgressAggregator,
    collector: ResultCollector,
    cancelled: bool,
}

impl View for RunCore {
    type V = RunModel;

    closed spec fn view(&self) -> RunModel {
        RunModel {
            config: self.config,
            tasks: self.tasks@,
            slots: slot_views(self.slots@),
            held: self.controller.active(),
            cancelled: self.cancelled,
            ollama: self.ollama,
            openai: self.openai,
            progress: self.aggregator,
            results: self.collector@,
        }
    }
}

impl RunCore {
    /// The invariant of the model, and what ties the state to it.
    pub(crate) closed spec fn wf(&self) -> bool {
        &&& self@.wf()
        &&& self.controller.limit() == self.config.max_concurrent_batches
    }

    pub(crate) fn start(config: ConcurrentGenerationConfig, tasks: Vec<GenerationTask>) -> (r:
        Result<RunCore, RunError>)
        ensures
            r is Ok <==> start_error(config, tasks@) is None,
            r is Err ==> start_error(config, tasks@) == Some(r->Err_0),
            r is Ok ==> r->Ok_0.wf() && r->Ok_0@ == RunModel::initial(config, tasks@)
                && r->Ok_0@.sound(),
    {
        match config.validate() {
            Err(e) => {
                return Err(RunError::InvalidConfiguration(e));
            },
            Ok(_) => {},
        }
        if !ids_are_dense(&tasks) {
            return Err(RunError::InvalidTasks);
        }
        let n: usize = tasks.len();
        let mut slots: Vec<TaskSlot> = Vec::new();
        let mut i: usize = 0;
        while i < n
            invariant
                i <= n,
                slots.len() == i,
                forall|k: int| 0 <= k < i ==> (#[trigger] slots[k])@ == TaskSlotView::pending(),
            decreases n - i,
        {
            slots.push(TaskSlot { retry: RetryState::Pending, started_ms: 0, subs: Vec::new() });
            assert(slots[i as int]@.subs =~= Seq::<SubBatchView>::empty());
            i = i + 1;
        }
        let core = RunCore {
            config,
            tasks,
            slots,
            controller: ConcurrencyController::new(config.max_concurrent_batches),
            ollama: SimpleRateLimiter::new(config.ollama_requests_per_second),
            openai: SimpleRateLimiter::new(config.openai_requests_per_second),
            aggregator: ProgressAggregator::new(n),
            collector: ResultCollector::new(),
            cancelled: false,
        };
        proof {
            lemma_initial_sound(config, core.tasks@);
            assert(core@.slots =~= RunModel::initial(config, core.tasks@).slots);
            assert(core@ == RunModel::initial(config, core.tasks@));
        }
        Ok(core)
    }

    /// A run without tasks, to stand in for one that is being worked on.
    pub(crate) fn vacant(config: ConcurrentGenerationConfig) -> (core: RunCore)
        requires
            config.valid(),
        ensures
            core.wf(),
            core@ == RunModel::initial(config, Seq::empty()),
            core@.sound(),
    {
        let core = RunCore {
            config,
            tasks: Vec::new(),
            slots: Vec::new(),
            controller: ConcurrencyController::new(config.max_concurrent_batches),
            ollama: SimpleRateLimiter::new(config.ollama_requests_per_second),
            openai: SimpleRateLimiter::new(config.openai_requests_per_second),
            aggregator: ProgressAggregator::new(0),
            collector: ResultCollector::new(),
            cancelled: false,
        };
        proof {
            lemma_initial_sound(config, core.tasks@);
            assert(core@.slots =~= RunModel::initial(config, core.tasks@).slots);
            assert(core@ == RunModel::initial(config, core.tasks@));
        }
        core
    }

    pub(crate) fn config(&self) -> (config: ConcurrentGenerationConfig)
        ensures
            config == self@.config,
    {
        self.config
    }

    pub(crate) fn tasks(&self) -> (tasks: &Vec<GenerationTask>)
        ensures
            tasks@ == self@.tasks,
    {
        &self.tasks
    }

    pub(crate) fn permits_held(&self) -> (held: usize)
        ensures
            held == self@.held,
    {
        self.controller.permits_held()
    }

    pub(crate) fn progress(&self) -> (progress: ProgressAggregator)
        ensures
            progress == self@.progress,
    {
        self.aggregator
    }

    pub(crate) fn is_cancelled(&self) -> (cancelled: bool)
        ensures
            cancelled == self@.cancelled,
    {
        self.cancelled
    }

    pub(crate) fn state_of(&self, task: usize) -> (state: Option<RetryState>)
        requires
            self.wf(),
        ensures
            state is Some <==> task < self@.slots.len(),
            state is Some ==> state->Some_0 == self@.slots[task as int].retry,
    {
        if task < self.slots.len() {
            Some(self.slots[task].retry)
        } else {
            None
        }
    }

    pub(crate) fn is_finished(&self) -> (finished: bool)
        requires
            self.wf(),
        ensures
            finished == self@.finished(),
    {
        proof {
            lemma_finished_by_count(self@);
        }
        self.aggregator.batches_completed() == self.tasks.len()
    }

    pub(crate) fn into_entries(self) -> (entries: Vec<DatasetEntry>)
        ensures
            models(entries@) == self@.result(),
    {
        let total: usize = self.tasks.len();
        self.collector.assemble(total)
    }

    pub(crate) fn cancel(&mut self)
        requires
            old(self).wf(),
        ensures
            final(self).wf(),
            final(self)@ == old(self)@.cancel(),
    {
        self.cancelled = true;
    }

    fn find_unfinished(&self) -> (found: Option<usize>)
        requires
            self.wf(),
        ensures
            found is Some ==> is_first_unfinished(self@.slots, found->Some_0 as int),
            found is None ==> !exists|i: int| is_first_unfinished(self@.slots, i),
    {
        let mut i: usize = 0;
        while i < self.slots.len()
            invariant
                i <= self.slots.len(),
                forall|k: int| 0 <= k < i ==> (#[trigger] self@.slots[k]).retry.terminal(),
            decreases self.slots.len() - i,
        {
            if !self.slots[i].retry.is_terminal() {
                return Some(i);
            }
            i = i + 1;
        }
        assert forall|k: int| !is_first_unfinished(self@.slots, k) by {
            if 0 <= k < self@.slots.len() {
                assert(self@.slots[k].retry.terminal());
            }
        }
        None
    }

    fn find_pending(&self) -> (found: Option<usize>)
        requires
            self.wf(),
        ensures
            found is Some ==> is_first_pending(self@.slots, found->Some_0 as int),
            found is None ==> !exists|i: int| is_first_pending(self@.slots, i),
    {
        let mut i: usize = 0;
        while i < self.slots.len()
            invariant
                i <= self.slots.len(),
                forall|k: int| 0 <= k < i ==> !((#[trigger] self@.slots[k]).retry is Pending),
            decreases self.slots.len() - i,
        {
            match self.slots[i].retry {
                RetryState::Pending => {
                    return Some(i);
                },
                _ => {},
            }
            i = i + 1;
        }
        assert forall|k: int| !is_first_pending(self@.slots, k) by {
            if 0 <= k < self@.slots.len() {
                assert(!(self@.slots[k].retry is Pending));
            }
        }
        None
    }

    fn limiter_ready(&self, provider: ModelProvider, now_ms: u64) -> (ready: bool)
        ensures
            ready == self@.limiter(provider).ready(now_ms),
    {
        match provider {
            ModelProvider::Ollama => self.ollama.is_ready(now_ms),
            ModelProvider::OpenAI => self.openai.is_ready(now_ms),
        }
    }

    fn find_ready(&self, now_ms: u64) -> (found: Option<(usize, usize)>)
        requires
            self.wf(),
        ensures
            found is Some ==> self@.is_first_ready(
                now_ms,
                found->Some_0.0 as int,
                found->Some_0.1 as int,
            ),
            found is None ==> !exists|i: int, j: int| self@.is_first_ready(now_ms, i, j),
    {
        let mut i: usize = 0;
        while i < self.slots.len()
            invariant
                self.wf(),
                i <= self.slots.len(),
                forall|k: int, l: int| k < i ==> !#[trigger] self@.is_ready(now_ms, k, l),
            decreases self.slots.len() - i,
        {
            let attempting: bool = match self.slots[i].retry {
                RetryState::Attempting { .. } => true,
                _ => false,
            };
            if attempting && self.limiter_ready(self.tasks[i].provider, now_ms) {
                let mut j: usize = 0;
                while j < self.slots[i as usize].subs.len()
                    invariant
                        self.wf(),
                        i < self.slots.len(),
                        j <= self.slots[i as int].subs.len(),
                        self@.slots[i as int].retry is Attempting,
                        self@.limiter(self@.tasks[i as int].provider).ready(now_ms),
                        forall|k: int, l: int| k < i ==> !#[trigger] self@.is_ready(now_ms, k, l),
                        forall|l: int| l < j ==> !#[trigger] self@.is_ready(now_ms, i as int, l),
                    decreases self.slots[i as int].subs.len() - j,
                {
                    match self.slots[i].subs[j].state {
                        SubState::Waiting => {
                            assert(self@.is_ready(now_ms, i as int, j as int));
                            assert forall|k: int, l: int|
                                comes_before(k, l, i as int, j as int) implies !#[trigger] self@.is_ready(
                                now_ms,
                                k,
                                l,
                            ) by {}
                            return Some((i, j));
                        },
                        _ => {},
                    }
                    j = j + 1;
                }
            }
            assert forall|l: int| !#[trigger] self@.is_ready(now_ms, i as int, l) by {}
            i = i + 1;
        }
        assert forall|k: int, l: int| !self@.is_first_ready(now_ms, k, l) by {
            assert(!self@.is_ready(now_ms, k, l));
        }
        None
    }

    fn any_waiting(&self) -> (found: bool)
        requires
            self.wf(),
        ensures
            found == has_waiting(self@.slots),
    {
        let mut i: usize = 0;
        while i < self.slots.len()
            invariant
                self.wf(),
                i <= self.slots.len(),
                forall|k: int, l: int| k < i ==> !#[trigger] is_waiting(self@.slots, k, l),
            decreases self.slots.len() - i,
        {
            let attempting: bool = match self.slots[i].retry {
                RetryState::Attempting { .. } => true,
                _ => false,
            };
            if attempting {
                let mut j: usize = 0;
                while j < self.slots[i as usize].subs.len()
                    invariant
                        self.wf(),
                        i < self.slots.len(),
                        j <= self.slots[i as int].subs.len(),
                        self@.slots[i as int].retry is Attempting,
                        forall|l: int| l < j ==> !#[trigger] is_waiting(self@.slots, i as int, l),
                    decreases self.slots[i as int].subs.len() - j,
                {
                    match self.slots[i].subs[j].state {
                        SubState::Waiting => {
                            assert(is_waiting(self@.slots, i as int, j as int));
                            return true;
                        },
                        _ => {},
                    }
                    j = j + 1;
                }
            }
            assert forall|l: int| !#[trigger] is_waiting(self@.slots, i as int, l) by {}
            i = i + 1;
        }
        assert forall|k: int, l: int| !is_waiting(self@.slots, k, l) by {}
        false
    }
}


proof fn lemma_slots_updated(before: Seq<TaskSlot>, after: Seq<TaskSlot>, i: int, slot: TaskSlotView)
    requires
        after.len() == before.len(),
        0 <= i < before.len(),
        forall|k: int| 0 <= k < before.len() && k != i ==> after[k] == before[k],
        after[i]@.retry == slot.retry,
        after[i]@.started_ms == slot.started_ms,
        after[i]@.subs =~= slot.subs,
    ensures
        slot_views(after) == slot_views(before).update(i, slot),
{
    assert(after[i]@ == slot);
    assert(slot_views(after) =~= slot_views(before).update(i, slot));
}

proof fn lemma_sub_updated(before: TaskSlot, after: TaskSlot, j: int, state: SubState, entries: Seq<Json>)
    requires
        after.retry == before.retry,
        after.started_ms == before.started_ms,
        after.subs.len() == before.subs.len(),
        0 <= j < before.subs.len(),
        forall|l: int| 0 <= l < before.subs.len() && l != j ==> after.subs[l] == before.subs[l],
        after.subs[j].size == before.subs[j].size,
        after.subs[j].state == state,
        models(after.subs[j].entries@) == entries,
    ensures
        after@.retry == before@.retry,
        after@.started_ms == before@.started_ms,
        after@.subs == before@.with_sub(j, state, entries).subs,
{
    assert(after@.subs =~= before@.with_sub(j, state, entries).subs);
}

/// The entries of the requests of an attempt, in the order of the split.
fn gather(subs: Vec<SubBatch>) -> (batch: Vec<DatasetEntry>)
    ensures
        models(batch@) == gathered(
            Seq::new(subs.len() as nat, |j: int| subs[j]@),
            subs.len() as int,
        ),
{
    let ghost views = Seq::new(subs.len() as nat, |j: int| subs[j]@);
    let mut subs = subs;
    let mut batch: Vec<DatasetEntry> = Vec::new();
    let mut j: usize = 0;
    while j < subs.len()
        invariant
            j <= subs.len(),
            subs.len() == views.len(),
            models(batch@) == gathered(views, j as int),
            forall|l: int| j <= l < subs.len() ==> (#[trigger] subs[l])@ == views[l],
        decreases subs.len() - j,
    {
        let mut part: Vec<DatasetEntry> = Vec::new();
        core::mem::swap(&mut part, &mut subs[j].entries);
        assert(models(part@) == views[j as int].entries);
        proof {
            lemma_models_of_both(batch@, part@);
        }
        batch.append(&mut part);
        j = j + 1;
    }
    batch
}

impl RunCore {
    fn give_up(&mut self, i: usize, now_ms: u64) -> (step: Step)
        requires
            old(self).wf(),
            i < old(self)@.slots.len(),
            !old(self)@.slots[i as int].retry.terminal(),
        ensures
            final(self).wf(),
            final(self)@ == old(self)@.give_up(i as int, now_ms).0,
            step == old(self)@.give_up(i as int, now_ms).1,
    {
        proof {
            lemma_give_up_wf(self@, i as int, now_ms);
        }
        let before: RetryState = self.slots[i].retry;
        let (retry, _) = advance(before, RetryEvent::CancelObserved, self.config.max_retries);
        self.slots[i].retry = retry;
        self.slots[i].subs = Vec::new();
        if before.has_permit() {
            self.controller.release();
        }
        let outcome = BatchOutcome::Failed {
            batch_id: self.tasks[i].batch_id,
            error: GenerationError::Cancelled,
            retry_count: retry.retry_count(),
        };
        let update: ProgressUpdate = self.aggregator.record(&outcome, now_ms);
        proof {
            lemma_slots_updated(
                old(self).slots@,
                self.slots@,
                i as int,
                old(self)@.slots[i as int].closed_as(retry),
            );
            assert(self@ == old(self)@.give_up(i as int, now_ms).0);
        }
        Step::Finalized { task: i, update }
    }

    fn let_in(&mut self, i: usize, now_ms: u64) -> (step: Step)
        requires
            old(self).wf(),
            i < old(self)@.slots.len(),
            old(self)@.slots[i as int].retry is Pending,
            old(self)@.held < old(self)@.config.max_concurrent_batches,
        ensures
            final(self).wf(),
            final(self)@ == old(self)@.let_in(i as int, now_ms).0,
            step == old(self)@.let_in(i as int, now_ms).1,
    {
        proof {
            lemma_let_in_wf(self@, i as int, now_ms);
        }
        let sizes: Vec<usize> = split_batch(
            self.tasks[i].entries_to_generate,
            self.config.max_concurrent_requests_per_batch,
        );
        let subs: Vec<SubBatch> = fresh_subs(&sizes);
        let (retry, _) = advance(self.slots[i].retry, RetryEvent::Admitted, self.config.max_retries);
        self.slots[i].retry = retry;
        self.slots[i].started_ms = now_ms;
        self.slots[i].subs = subs;
        let _ = self.controller.try_admit(false);
        proof {
            lemma_slots_updated(
                old(self).slots@,
                self.slots@,
                i as int,
                old(self)@.let_in(i as int, now_ms).0.slots[i as int],
            );
            assert(self@ == old(self)@.let_in(i as int, now_ms).0);
        }
        Step::Admitted { task: i }
    }

    fn dispatch(&mut self, i: usize, j: usize, now_ms: u64) -> (step: Step)
        requires
            old(self).wf(),
            old(self)@.is_ready(now_ms, i as int, j as int),
        ensures
            final(self).wf(),
            final(self)@ == old(self)@.dispatch(i as int, j as int, now_ms).0,
            step == old(self)@.dispatch(i as int, j as int, now_ms).1,
    {
        proof {
            lemma_dispatch_wf(self@, i as int, j as int, now_ms);
        }
        let size: usize = self.slots[i].subs[j].size;
        let attempt: usize = self.slots[i].retry.retry_count();
        self.slots[i].subs[j].state = SubState::InFlight;
        self.slots[i].subs[j].entries = Vec::new();
        proof {
            lemma_models_of_none();
        }
        match self.tasks[i].provider {
            ModelProvider::Ollama => {
                let _ = self.ollama.try_acquire(now_ms);
            },
            ModelProvider::OpenAI => {
                let _ = self.openai.try_acquire(now_ms);
            },
        }
        proof {
            lemma_sub_updated(
                old(self).slots@[i as int],
                self.slots@[i as int],
                j as int,
                SubState::InFlight,
                Seq::empty(),
            );
            lemma_slots_updated(
                old(self).slots@,
                self.slots@,
                i as int,
                old(self)@.slots[i as int].with_sub(j as int, SubState::InFlight, Seq::empty()),
            );
            assert(self@ == old(self)@.dispatch(i as int, j as int, now_ms).0);
        }
        Step::Dispatch { task: i, attempt, sub: j, size }
    }

    pub(crate) fn step(&mut self, now_ms: u64) -> (step: Step)
        requires
            old(self).wf(),
        ensures
            final(self).wf(),
            final(self)@ == old(self)@.step(now_ms).0,
            step == old(self)@.step(now_ms).1,
    {
        if self.cancelled {
            match self.find_unfinished() {
                Some(i) => {
                    assert(i as int == choose|k: int| is_first_unfinished(self@.slots, k));
                    self.give_up(i, now_ms)
                },
                None => Step::Idle,
            }
        } else {
            if self.controller.permits_held() < self.controller.max_permits() {
                match self.find_pending() {
                    Some(i) => {
                        assert(i as int == choose|k: int| is_first_pending(self@.slots, k));
                        return self.let_in(i, now_ms);
                    },
                    None => {},
                }
            }
            match self.find_ready(now_ms) {
                Some((i, j)) => {
                    proof {
                        let (k, l) = choose|k: int, l: int| self@.is_first_ready(now_ms, k, l);
                        assert(self@.is_first_ready(now_ms, k, l));
                        assert(!comes_before(k, l, i as int, j as int));
                        assert(!comes_before(i as int, j as int, k, l));
                        assert(k == i && l == j);
                    }
                    self.dispatch(i, j, now_ms)
                },
                None => if self.any_waiting() {
                    Step::Wait { ms: POLL_INTERVAL_MS }
                } else {
                    Step::Idle
                },
            }
        }
    }
}


impl RunCore {
    fn is_awaited(&self, task: usize, attempt: usize, sub: usize) -> (awaited: bool)
        requires
            self.wf(),
        ensures
            awaited == self@.awaits(task, attempt, sub),
    {
        if self.cancelled || task >= self.slots.len() {
            return false;
        }
        let running: bool = match self.slots[task].retry {
            RetryState::Attempting { attempt: current } => current == attempt,
            _ => false,
        };
        if !running || sub >= self.slots[task].subs.len() {
            return false;
        }
        match self.slots[task].subs[sub].state {
            SubState::InFlight => true,
            _ => false,
        }
    }

    fn all_subs_done(&self, task: usize) -> (done: bool)
        requires
            task < self@.slots.len(),
        ensures
            done == all_done(self@.slots[task as int].subs),
    {
        let mut j: usize = 0;
        while j < self.slots[task].subs.len()
            invariant
                task < self.slots.len(),
                j <= self.slots[task as int].subs.len(),
                forall|l: int| 0 <= l < j ==> (#[trigger] self@.slots[task as int].subs[l]).state is Done,
            decreases self.slots[task as int].subs.len() - j,
        {
            match self.slots[task].subs[j].state {
                SubState::Done => {},
                _ => {
                    assert(!(self@.slots[task as int].subs[j as int].state is Done));
                    return false;
                },
            }
            j = j + 1;
        }
        true
    }

    fn keep_entries(
        &mut self,
        task: usize,
        attempt: usize,
        sub: usize,
        entries: Vec<DatasetEntry>,
        now_ms: u64,
    ) -> (reaction: Reaction)
        requires
            old(self).wf(),
            old(self)@.awaits(task, attempt, sub),
        ensures
            final(self).wf(),
            final(self)@ == old(self)@.keep_entries(
                task,
                attempt,
                sub,
                models(entries@),
                now_ms,
            ).0,
            reaction.kind() == old(self)@.keep_entries(
                task,
                attempt,
                sub,
                models(entries@),
                now_ms,
            ).1,
            reaction is Recorded || reaction is Succeeded,
    {
        proof {
            lemma_reply_wf(self@, task, attempt, sub, Some(models(entries@)), now_ms);
        }
        let ghost answered = old(self)@.slots[task as int].with_sub(
            sub as int,
            SubState::Done,
            models(entries@),
        );
        self.slots[task].subs[sub].state = SubState::Done;
        self.slots[task].subs[sub].entries = entries;
        proof {
            lemma_sub_updated(
                old(self).slots@[task as int],
                self.slots@[task as int],
                sub as int,
                SubState::Done,
                models(entries@),
            );
            lemma_slots_updated(old(self).slots@, self.slots@, task as int, answered);
            assert(self@ == old(self)@.with_slot(task as int, answered));
        }
        if !self.all_subs_done(task) {
            return Reaction::Recorded;
        }
        let ghost kept = self.slots@;
        let mut subs: Vec<SubBatch> = Vec::new();
        core::mem::swap(&mut subs, &mut self.slots[task].subs);
        assert(Seq::new(subs.len() as nat, |j: int| subs[j]@) =~= answered.subs);
        let batch: Vec<DatasetEntry> = gather(subs);
        let (retry, _) = advance(
            self.slots[task].retry,
            RetryEvent::AttemptSucceeded,
            self.config.max_retries,
        );
        self.slots[task].retry = retry;
        self.controller.release();
        let started: u64 = self.slots[task].started_ms;
        let generation_time_ms: u64 = if now_ms >= started {
            now_ms - started
        } else {
            0
        };
        let outcome = BatchOutcome::Succeeded(
            BatchResult {
                batch_id: self.tasks[task].batch_id,
                entries: batch,
                generation_time_ms,
                retry_count: attempt,
            },
        );
        let update: ProgressUpdate = self.aggregator.record(&outcome, now_ms);
        self.collector.accept(outcome);
        proof {
            lemma_slots_updated(old(self).slots@, self.slots@, task as int, answered.closed_as(retry));
            assert(self@ == old(self)@.keep_entries(
                task,
                attempt,
                sub,
                models(entries@),
                now_ms,
            ).0);
        }
        Reaction::Succeeded { update, generation_time_ms, retry_count: attempt }
    }

    fn fail_attempt(&mut self, task: usize, attempt: usize, sub: usize, message: String, now_ms: u64) -> (reaction:
        Reaction)
        requires
            old(self).wf(),
            old(self)@.awaits(task, attempt, sub),
        ensures
            final(self).wf(),
            final(self)@ == old(self)@.fail_attempt(task, attempt, now_ms).0,
            reaction.kind() == old(self)@.fail_attempt(task, attempt, now_ms).1,
            reaction is RetryAfter || reaction is Failed,
            reaction.reports(message@, attempt),
    {
        proof {
            lemma_reply_wf(self@, task, attempt, sub, None, now_ms);
        }
        let (retry, _) = advance(
            self.slots[task].retry,
            RetryEvent::AttemptFailed,
            self.config.max_retries,
        );
        self.slots[task].retry = retry;
        self.slots[task].subs = Vec::new();
        proof {
            lemma_slots_updated(
                old(self).slots@,
                self.slots@,
                task as int,
                old(self)@.slots[task as int].closed_as(retry),
            );
        }
        match retry {
            RetryState::Retrying { .. } => {
                assert(self@ == old(self)@.fail_attempt(task, attempt, now_ms).0);
                Reaction::RetryAfter {
                    delay_ms: self.config.retry_delay_ms,
                    error: GenerationError::Backend(message),
                }
            },
            _ => {
                self.controller.release();
                let outcome = BatchOutcome::Failed {
                    batch_id: self.tasks[task].batch_id,
                    error: GenerationError::RetriesExhausted { last: message, retry_count: attempt },
                    retry_count: attempt,
                };
                let update: ProgressUpdate = self.aggregator.record(&outcome, now_ms);
                assert(self@ == old(self)@.fail_attempt(task, attempt, now_ms).0);
                match outcome {
                    BatchOutcome::Failed { error, .. } => Reaction::Failed { update, error },
                    BatchOutcome::Succeeded(_) => unreached(),
                }
            },
        }
    }

    pub(crate) fn on_reply(
        &mut self,
        task: usize,
        attempt: usize,
        sub: usize,
        reply: BackendReply,
        now_ms: u64,
    ) -> (reaction: Reaction)
        requires
            old(self).wf(),
        ensures
            final(self).wf(),
            final(self)@ == old(self)@.reply(
                task,
                attempt,
                sub,
                answer_to(old(self)@, task, sub, reply),
                now_ms,
            ).0,
            reaction.kind() == old(self)@.reply(
                task,
                attempt,
                sub,
                answer_to(old(self)@, task, sub, reply),
                now_ms,
            ).1,
            reaction.reports(reply.failure_message(), attempt),
    {
        if !self.is_awaited(task, attempt, sub) {
            return Reaction::Stale;
        }
        let provider: ModelProvider = self.tasks[task].provider;
        let size: usize = self.slots[task].subs[sub].size;
        match reply {
            BackendReply::Body(text) => {
                match entries_from_body(
                    provider,
                    text.as_str().as_bytes(),
                    size,
                    self.config.dataset_format,
                ) {
                    Ok(entries) => self.keep_entries(task, attempt, sub, entries, now_ms),
                    Err(error) => match error {
                        GenerationError::Backend(message) => self.fail_attempt(
                            task,
                            attempt,
                            sub,
                            message,
                            now_ms,
                        ),
                        _ => unreached(),
                    },
                }
            },
            BackendReply::Failure(message) => self.fail_attempt(task, attempt, sub, message, now_ms),
        }
    }

    pub(crate) fn retry_due(&mut self, task: usize, attempt: usize) -> (started: bool)
        requires
            old(self).wf(),
        ensures
            final(self).wf(),
            final(self)@ == old(self)@.retry_due(task, attempt).0,
            started == old(self)@.retry_due(task, attempt).1,
    {
        if self.cancelled || task >= self.slots.len() {
            return false;
        }
        let pausing: bool = match self.slots[task].retry {
            RetryState::Retrying { attempt: current } => current == attempt,
            _ => false,
        };
        if !pausing || attempt >= self.config.max_retries {
            return false;
        }
        proof {
            lemma_retry_due_wf(self@, task, attempt);
        }
        let sizes: Vec<usize> = split_batch(
            self.tasks[task].entries_to_generate,
            self.config.max_concurrent_requests_per_batch,
        );
        let subs: Vec<SubBatch> = fresh_subs(&sizes);
        let (retry, _) = advance(
            self.slots[task].retry,
            RetryEvent::DelayElapsed,
            self.config.max_retries,
        );
        self.slots[task].retry = retry;
        self.slots[task].subs = subs;
        proof {
            lemma_slots_updated(
                old(self).slots@,
                self.slots@,
                task as int,
                old(self)@.retry_due(task, attempt).0.slots[task as int],
            );
            assert(self@ == old(self)@.retry_due(task, attempt).0);
        }
        true
    }
}


/// One run of the engine over a list of tasks.
///
/// The driver of a run asks `step` what to do until it answers `Wait` or
/// `Idle`, sends the requests it is told to send, and reports each answer
/// with `on_reply` and the end of each pause with `retry_due`. When the
/// run `is_finished`, `into_entries` gives the result. All times are in
/// milliseconds since the start of the run, on the driver's clock.
pub struct GenerationRun {
    core: RunCore,
}

impl View for GenerationRun {
    type V = RunModel;

    closed spec fn view(&self) -> RunModel {
        self.core@
    }
}

impl GenerationRun {
    #[verifier::type_invariant]
    spec fn sound(self) -> bool {
        self.core.wf() && self.core@.sound()
    }

    /// Starts a run of `tasks` under `config`. The run is refused if the
    /// configuration cannot be run, or if the batch identifiers of the
    /// tasks are not `0 .. n`, each once; nothing else refuses it.
    pub fn start(config: ConcurrentGenerationConfig, tasks: Vec<GenerationTask>) -> (r: Result<
        GenerationRun,
        RunError,
    >)
        ensures
            r is Ok <==> start_error(config, tasks@) is None,
            r is Err ==> start_error(config, tasks@) == Some(r->Err_0),
            r is Ok ==> r->Ok_0@ == RunModel::initial(config, tasks@) && r->Ok_0@.sound(),
    {
        match RunCore::start(config, tasks) {
            Ok(core) => Ok(GenerationRun { core }),
            Err(e) => Err(e),
        }
    }

    /// The configuration of the run.
    pub fn config(&self) -> (config: ConcurrentGenerationConfig)
        ensures
            config == self@.config,
            self@.sound(),
    {
        proof {
            use_type_invariant(self);
        }
        self.core.config()
    }

    /// The tasks of the run, in the order in which they were given.
    pub fn tasks(&self) -> (tasks: &Vec<GenerationTask>)
        ensures
            tasks@ == self@.tasks,
    {
        self.core.tasks()
    }

    /// How many tasks hold a permit: never more than the cap.
    pub fn permits_held(&self) -> (held: usize)
        ensures
            held == self@.held,
            held <= self@.config.max_concurrent_batches,
            self@.sound(),
    {
        proof {
            use_type_invariant(self);
        }
        self.core.permits_held()
    }

    /// The totals of the run so far.
    pub fn progress(&self) -> (progress: ProgressAggregator)
        ensures
            progress == self@.progress,
    {
        self.core.progress()
    }

    /// Whether the cancellation signal was set.
    pub fn is_cancelled(&self) -> (cancelled: bool)
        ensures
            cancelled == self@.cancelled,
    {
        self.core.is_cancelled()
    }

    /// Where task `task` stands, if there is such a task.
    pub fn state_of(&self, task: usize) -> (state: Option<RetryState>)
        ensures
            state is Some <==> task < self@.slots.len(),
            state is Some ==> state->Some_0 == self@.slots[task as int].retry,
            state is Some ==> state->Some_0.retries() <= self@.config.max_retries,
    {
        proof {
            use_type_invariant(self);
            if task < self@.slots.len() {
                assert(self@.slots[task as int].wf(self@.tasks[task as int], self@.config));
            }
        }
        self.core.state_of(task)
    }

    /// Whether every task has reached its outcome.
    pub fn is_finished(&self) -> (finished: bool)
        ensures
            finished == self@.finished(),
            self@.sound(),
    {
        proof {
            use_type_invariant(self);
        }
        self.core.is_finished()
    }

    /// Sets the cancellation signal. From now on nothing is started, no
    /// answer is taken in, and `step` gives up the tasks that are left.
    pub fn cancel(&mut self)
        ensures
            final(self)@ == old(self)@.cancel(),
            final(self)@.sound(),
    {
        proof {
            use_type_invariant(&*self);
            lemma_apply_sound(self@, RunEvent::Cancel);
        }
        let mut core: RunCore = RunCore::vacant(self.core.config());
        core::mem::swap(&mut core, &mut self.core);
        core.cancel();
        self.core = core;
    }

    /// Takes in what the driver saw of the cancellation signal: cancels
    /// the run if the signal was set, and leaves it alone if not. Says
    /// whether the signal was set.
    pub fn on_signal(&mut self, set: bool) -> (seen: bool)
        ensures
            seen == set,
            final(self)@ == old(self)@.signalled(set),
            final(self)@.sound(),
    {
        proof {
            use_type_invariant(&*self);
        }
        if set {
            self.cancel();
        }
        set
    }

    /// Decides what the driver does at `now_ms`.
    pub fn step(&mut self, now_ms: u64) -> (step: Step)
        ensures
            final(self)@ == old(self)@.step(now_ms).0,
            step == old(self)@.step(now_ms).1,
            final(self)@.sound(),
    {
        proof {
            use_type_invariant(&*self);
            lemma_apply_sound(self@, RunEvent::Step { now_ms });
        }
        let mut core: RunCore = RunCore::vacant(self.core.config());
        core::mem::swap(&mut core, &mut self.core);
        let step: Step = core.step(now_ms);
        self.core = core;
        step
    }

    /// Takes in the answer to request `sub` of attempt `attempt` of task
    /// `task`, which came at `now_ms`. The body of a successful answer is
    /// decoded; a body that is no JSON document counts as a failure.
    pub fn on_reply(
        &mut self,
        task: usize,
        attempt: usize,
        sub: usize,
        reply: BackendReply,
        now_ms: u64,
    ) -> (reaction: Reaction)
        ensures
            final(self)@ == old(self)@.reply(
                task,
                attempt,
                sub,
                answer_to(old(self)@, task, sub, reply),
                now_ms,
            ).0,
            reaction.kind() == old(self)@.reply(
                task,
                attempt,
                sub,
                answer_to(old(self)@, task, sub, reply),
                now_ms,
            ).1,
            reaction.reports(reply.failure_message(), attempt),
            final(self)@.sound(),
    {
        proof {
            use_type_invariant(&*self);
            lemma_apply_sound(
                self@,
                RunEvent::Reply {
                    task,
                    attempt,
                    sub,
                    decoded: answer_to(self@, task, sub, reply),
                    now_ms,
                },
            );
        }
        let mut core: RunCore = RunCore::vacant(self.core.config());
        core::mem::swap(&mut core, &mut self.core);
        let reaction: Reaction = core.on_reply(task, attempt, sub, reply, now_ms);
        self.core = core;
        reaction
    }

    /// Reports that the pause after attempt `attempt` of task `task` is
    /// over. Says whether the next attempt has started.
    pub fn retry_due(&mut self, task: usize, attempt: usize) -> (started: bool)
        ensures
            final(self)@ == old(self)@.retry_due(task, attempt).0,
            started == old(self)@.retry_due(task, attempt).1,
            final(self)@.sound(),
    {
        proof {
            use_type_invariant(&*self);
            lemma_apply_sound(self@, RunEvent::RetryDue { task, attempt });
        }
        let mut core: RunCore = RunCore::vacant(self.core.config());
        core::mem::swap(&mut core, &mut self.core);
        let started: bool = core.retry_due(task, attempt);
        self.core = core;
        started
    }

    /// The result of the run: the entries of the batches that succeeded,
    /// in ascending order of batch, whatever the order in which they
    /// finished. Batches without a success add nothing.
    pub fn into_entries(self) -> (entries: Vec<DatasetEntry>)
        ensures
            models(entries@) == self@.result(),
    {
        self.core.into_entries()
    }
}

} // verus!
