//! Cumulative progress of a run, folded from the outcomes of its batches.

use crate::types::BatchOutcome;
use vstd::prelude::*;

verus! {

/// A snapshot of the run, sent once for each batch that reached its outcome.
///
/// The rate of the run is `entries_generated` over `elapsed_ms`; the
/// quotient is left to the receiver.
#[derive(Debug, Clone, Copy)]
pub struct ProgressUpdate {
    /// The batch that succeeded, if the outcome was a success.
    pub batch_completed: Option<usize>,
    pub entries_generated: usize,
    pub errors_count: usize,
    pub retries_count: usize,
    /// The batches that have not reached their outcome yet.
    pub concurrent_batches: usize,
    /// Milliseconds since the run started.
    pub elapsed_ms: u64,
}

impl ProgressUpdate {
    /// The rate of the run in thousandths of an entry per second, rounded
    /// down: the entries so far over the time so far, and zero at the
    /// very start.
    pub open spec fn rate_thousandths(&self) -> int {
        if self.elapsed_ms == 0 {
            0
        } else {
            (self.entries_generated * 1_000_000) / (self.elapsed_ms as int)
        }
    }

    /// The rate of the run in thousandths of an entry per second.
    pub fn entries_per_second_thousandths(&self) -> (rate: u128)
        ensures
            rate == self.rate_thousandths(),
    {
        if self.elapsed_ms == 0 {
            0
        } else {
            let entries: u128 = self.entries_generated as u128;
            let elapsed: u128 = self.elapsed_ms as u128;
            assert(entries * 1_000_000 <= u128::MAX) by (nonlinear_arith)
                requires
                    entries <= u64::MAX,
            ;
            (entries * 1_000_000) / elapsed
        }
    }
}

/// `n` as a count that stops at the largest `usize`.
pub open spec fn capped(n: int) -> usize {
    if n > usize::MAX {
        usize::MAX
    } else if n < 0 {
        0
    } else {
        n as usize
    }
}

/// The single consumer of the outcomes of a run.
#[derive(Debug, Clone, Copy)]
pub struct ProgressAggregator {
    total_batches: usize,
    completed: usize,
    entries_generated: usize,
    errors_count: usize,
    retries_count: usize,
}

impl ProgressAggregator {
    #[verifier::type_invariant]
    spec fn consistent(self) -> bool {
        &&& self.completed <= self.total_batches
        &&& self.errors_count <= self.completed
    }

    /// The batches of the run.
    pub closed spec fn total_batches(&self) -> usize {
        self.total_batches
    }

    /// The outcomes recorded so far.
    pub closed spec fn completed(&self) -> usize {
        self.completed
    }

    /// The entries of the batches that succeeded so far.
    pub closed spec fn entries_generated(&self) -> usize {
        self.entries_generated
    }

    /// The batches that ended without success so far.
    pub closed spec fn errors_count(&self) -> usize {
        self.errors_count
    }

    /// The retries of the batches that reached their outcome so far.
    pub closed spec fn retries_count(&self) -> usize {
        self.retries_count
    }

    /// The snapshot of this aggregator for an outcome on `batch_completed`
    /// at `elapsed_ms`.
    pub open spec fn snapshot(&self, batch_completed: Option<usize>, elapsed_ms: u64)
        -> ProgressUpdate {
        ProgressUpdate {
            batch_completed,
            entries_generated: self.entries_generated(),
            errors_count: self.errors_count(),
            retries_count: self.retries_count(),
            concurrent_batches: (self.total_batches() - self.completed()) as usize,
            elapsed_ms,
        }
    }

    /// The aggregator of a run of `total_batches` batches with nothing
    /// recorded.
    pub closed spec fn fresh(total_batches: usize) -> Self {
        ProgressAggregator {
            total_batches,
            completed: 0,
            entries_generated: 0,
            errors_count: 0,
            retries_count: 0,
        }
    }

    /// What `fresh` stands for.
    pub broadcast proof fn lemma_fresh(total_batches: usize)
        ensures
            (#[trigger] Self::fresh(total_batches)).total_batches() == total_batches,
            Self::fresh(total_batches).completed() == 0,
            Self::fresh(total_batches).entries_generated() == 0,
            Self::fresh(total_batches).errors_count() == 0,
            Self::fresh(total_batches).retries_count() == 0,
    {
    }

    /// This aggregator once the outcome of one more batch was folded in: a
    /// success with `entries` entries, or a failure, after `retries`
    /// retries. The counts of entries and of retries stop at the largest
    /// `usize`.
    pub closed spec fn recorded(self, succeeded: bool, entries: nat, retries: usize) -> Self {
        ProgressAggregator {
            total_batches: self.total_batches,
            completed: (self.completed + 1) as usize,
            entries_generated: capped(self.entries_generated + entries),
            errors_count: if succeeded {
                self.errors_count
            } else {
                (self.errors_count + 1) as usize
            },
            retries_count: capped(self.retries_count + retries),
        }
    }

    /// This aggregator once `outcome` was folded in.
    pub open spec fn with_outcome(self, outcome: BatchOutcome) -> Self {
        self.recorded(outcome is Succeeded, outcome.spec_entries().len(), outcome.spec_retry_count())
    }

    /// The totals after one more outcome, as long as not every batch has
    /// one yet.
    pub broadcast proof fn lemma_recorded(self, succeeded: bool, entries: nat, retries: usize)
        requires
            self.completed() < self.total_batches(),
            self.errors_count() <= self.completed(),
        ensures
            (#[trigger] self.recorded(succeeded, entries, retries)).total_batches()
                == self.total_batches(),
            self.recorded(succeeded, entries, retries).completed() == self.completed() + 1,
            self.recorded(succeeded, entries, retries).entries_generated() == capped(
                self.entries_generated() + entries,
            ),
            self.recorded(succeeded, entries, retries).errors_count() == self.errors_count()
                + if succeeded {
                0int
            } else {
                1int
            },
            self.recorded(succeeded, entries, retries).retries_count() == capped(
                self.retries_count() + retries,
            ),
    {
    }

    /// An aggregator for a run of `total_batches` batches, with nothing
    /// recorded.
    pub fn new(total_batches: usize) -> (aggregator: Self)
        ensures
            aggregator == Self::fresh(total_batches),
            aggregator.total_batches() == total_batches,
            aggregator.completed() == 0,
            aggregator.entries_generated() == 0,
            aggregator.errors_count() == 0,
            aggregator.retries_count() == 0,
    {
        ProgressAggregator {
            total_batches,
            completed: 0,
            entries_generated: 0,
            errors_count: 0,
            retries_count: 0,
        }
    }

    /// The batches of the run.
    pub fn batches_total(&self) -> (n: usize)
        ensures
            n == self.total_batches(),
    {
        self.total_batches
    }

    /// The outcomes recorded so far: never more than there are batches.
    pub fn batches_completed(&self) -> (n: usize)
        ensures
            n == self.completed(),
            n <= self.total_batches(),
    {
        proof {
            use_type_invariant(self);
        }
        self.completed
    }

    /// The entries of the batches that succeeded so far.
    pub fn entries(&self) -> (n: usize)
        ensures
            n == self.entries_generated(),
    {
        self.entries_generated
    }

    /// The batches that ended without success so far.
    pub fn errors(&self) -> (n: usize)
        ensures
            n == self.errors_count(),
            n <= self.completed(),
    {
        proof {
            use_type_invariant(self);
        }
        self.errors_count
    }

    /// The retries of the batches that reached their outcome so far.
    pub fn retries(&self) -> (n: usize)
        ensures
            n == self.retries_count(),
    {
        self.retries_count
    }

    /// Folds the outcome of one batch into the totals and returns the
    /// snapshot to send. Each batch has one outcome, so at most
    /// `total_batches` outcomes are ever recorded. The counts of entries
    /// and of retries stop at the largest `usize`.
    pub fn record(&mut self, outcome: &BatchOutcome, elapsed_ms: u64) -> (update: ProgressUpdate)
        requires
            old(self).completed() < old(self).total_batches(),
        ensures
            *final(self) == old(self).with_outcome(*outcome),
            update == final(self).snapshot(
                if *outcome is Succeeded {
                    Some(outcome.spec_batch_id())
                } else {
                    None
                },
                elapsed_ms,
            ),
    {
        proof {
            use_type_invariant(&*self);
        }
        let batch_completed: Option<usize> = if outcome.is_success() {
            Some(outcome.batch_id())
        } else {
            None
        };
        self.completed = self.completed + 1;
        self.entries_generated = self.entries_generated.saturating_add(outcome.entry_count());
        if !outcome.is_success() {
            self.errors_count = self.errors_count + 1;
        }
        self.retries_count = self.retries_count.saturating_add(outcome.retry_count());
        ProgressUpdate {
            batch_completed,
            entries_generated: self.entries_generated,
            errors_count: self.errors_count,
            retries_count: self.retries_count,
            concurrent_batches: self.total_batches - self.completed,
            elapsed_ms,
        }
    }
}


/// The entries of the successes among `outcomes`.
pub open spec fn total_entries(outcomes: Seq<BatchOutcome>) -> nat
    decreases outcomes.len(),
{
    if outcomes.len() == 0 {
        0
    } else {
        total_entries(outcomes.drop_last()) + outcomes.last().spec_entries().len()
    }
}

/// The retries of `outcomes`.
pub open spec fn total_retries(outcomes: Seq<BatchOutcome>) -> nat
    decreases outcomes.len(),
{
    if outcomes.len() == 0 {
        0
    } else {
        total_retries(outcomes.drop_last()) + outcomes.last().spec_retry_count() as nat
    }
}

/// The failures among `outcomes`.
pub open spec fn total_failures(outcomes: Seq<BatchOutcome>) -> nat
    decreases outcomes.len(),
{
    if outcomes.len() == 0 {
        0
    } else {
        total_failures(outcomes.drop_last()) + if outcomes.last() is Failed {
            1nat
        } else {
            0nat
        }
    }
}

/// The aggregator once `outcomes` were folded into `aggregator` in order.
pub open spec fn with_outcomes(aggregator: ProgressAggregator, outcomes: Seq<BatchOutcome>)
    -> ProgressAggregator
    decreases outcomes.len(),
{
    if outcomes.len() == 0 {
        aggregator
    } else {
        with_outcomes(aggregator, outcomes.drop_last()).with_outcome(outcomes.last())
    }
}

/// The totals of a run are the sums over its outcomes: every outcome is
/// counted once, every failure is an error, and entries and retries add
/// up, as far as the largest `usize`.
pub proof fn lemma_totals_are_sums(total_batches: usize, outcomes: Seq<BatchOutcome>)
    requires
        outcomes.len() <= total_batches,
    ensures
        with_outcomes(ProgressAggregator::fresh(total_batches), outcomes).total_batches()
            == total_batches,
        with_outcomes(ProgressAggregator::fresh(total_batches), outcomes).completed()
            == outcomes.len(),
        with_outcomes(ProgressAggregator::fresh(total_batches), outcomes).errors_count()
            == total_failures(outcomes),
        with_outcomes(ProgressAggregator::fresh(total_batches), outcomes).entries_generated()
            == capped(total_entries(outcomes) as int),
        with_outcomes(ProgressAggregator::fresh(total_batches), outcomes).retries_count()
            == capped(total_retries(outcomes) as int),
        total_failures(outcomes) <= outcomes.len(),
    decreases outcomes.len(),
{
    broadcast use {ProgressAggregator::lemma_fresh, ProgressAggregator::lemma_recorded};

    if outcomes.len() > 0 {
        lemma_totals_are_sums(total_batches, outcomes.drop_last());
    }
}

} // verus!
