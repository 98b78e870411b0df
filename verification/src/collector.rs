//! The entries of the batches that succeeded, and their assembly in the
//! order of the batches.

use crate::json::Json;
use crate::types::{lemma_models_of_both, models, BatchOutcome, DatasetEntry};
use std::collections::HashMap;
use vstd::prelude::*;
use vstd::std_specs::hash::*;

verus! {

broadcast use group_hash_axioms;

/// The entries of the batches `0 .. batches` that `results` holds, batch
/// after batch in ascending order; a batch that is absent adds nothing.
pub open spec fn assembled(results: Map<usize, Seq<Json>>, batches: nat) -> Seq<Json>
    decreases batches,
{
    if batches == 0 {
        Seq::empty()
    } else {
        let id = (batches - 1) as usize;
        assembled(results, (batches - 1) as nat) + if results.contains_key(id) {
            results[id]
        } else {
            Seq::empty()
        }
    }
}

/// What a collector holds once `outcome` reached it: the entries of a
/// success under its batch, and nothing of a failure.
pub open spec fn with_outcome(results: Map<usize, Seq<Json>>, outcome: BatchOutcome)
    -> Map<usize, Seq<Json>> {
    match outcome {
        BatchOutcome::Succeeded(r) => results.insert(r.batch_id, models(r.entries@)),
        BatchOutcome::Failed { .. } => results,
    }
}

/// What a collector that starts with `results` holds once `outcomes`
/// reached it in order.
pub open spec fn collected(results: Map<usize, Seq<Json>>, outcomes: Seq<BatchOutcome>)
    -> Map<usize, Seq<Json>>
    decreases outcomes.len(),
{
    if outcomes.len() == 0 {
        results
    } else {
        with_outcome(collected(results, outcomes.drop_last()), outcomes.last())
    }
}

/// Each batch has at most one outcome among `outcomes`.
pub open spec fn one_outcome_per_batch(outcomes: Seq<BatchOutcome>) -> bool {
    forall|i: int, j: int|
        0 <= i < j < outcomes.len() ==> (#[trigger] outcomes[i]).spec_batch_id() != (
        #[trigger] outcomes[j]).spec_batch_id()
}

/// The successes among `outcomes` decide what is collected: a batch is
/// present exactly if one of the outcomes is its success, and it holds the
/// entries of that outcome.
pub proof fn lemma_collected_by_batch(outcomes: Seq<BatchOutcome>, id: usize)
    requires
        one_outcome_per_batch(outcomes),
    ensures
        collected(Map::empty(), outcomes).contains_key(id) <==> exists|i: int|
            0 <= i < outcomes.len() && #[trigger] outcomes[i].spec_batch_id() == id
                && outcomes[i] is Succeeded,
        forall|i: int|
            0 <= i < outcomes.len() && #[trigger] outcomes[i].spec_batch_id() == id
                && outcomes[i] is Succeeded ==> collected(Map::empty(), outcomes)[id]
                == outcomes[i].spec_entries(),
    decreases outcomes.len(),
{
    if outcomes.len() > 0 {
        let front = outcomes.drop_last();
        let last = outcomes.last();
        assert(one_outcome_per_batch(front)) by {
            assert forall|i: int, j: int| 0 <= i < j < front.len() implies (
            #[trigger] front[i]).spec_batch_id() != (#[trigger] front[j]).spec_batch_id() by {
                assert(front[i] == outcomes[i] && front[j] == outcomes[j]);
            }
        }
        lemma_collected_by_batch(front, id);
        let all = collected(Map::empty(), outcomes);
        let before = collected(Map::empty(), front);
        assert(all == with_outcome(before, last));
        if all.contains_key(id) {
            if last is Succeeded && last.spec_batch_id() == id {
                assert(outcomes[outcomes.len() - 1].spec_batch_id() == id);
            } else {
                assert(before.contains_key(id));
                let i = choose|i: int|
                    0 <= i < front.len() && #[trigger] front[i].spec_batch_id() == id
                        && front[i] is Succeeded;
                assert(outcomes[i] == front[i]);
            }
        }
        assert forall|i: int|
            0 <= i < outcomes.len() && #[trigger] outcomes[i].spec_batch_id() == id
                && outcomes[i] is Succeeded implies all.contains_key(id) && all[id]
            == outcomes[i].spec_entries() by {
            if i < front.len() {
                assert(front[i] == outcomes[i]);
                assert(outcomes[i].spec_batch_id() != outcomes[outcomes.len() - 1].spec_batch_id());
            }
        }
    }
}

/// Two runs whose batches reached the same outcomes, in whatever order
/// each, assemble the same result.
pub proof fn lemma_order_of_completion_is_irrelevant(
    first: Seq<BatchOutcome>,
    second: Seq<BatchOutcome>,
    batches: nat,
)
    requires
        one_outcome_per_batch(first),
        one_outcome_per_batch(second),
        first.to_multiset() == second.to_multiset(),
    ensures
        collected(Map::empty(), first) == collected(Map::empty(), second),
        assembled(collected(Map::empty(), first), batches) == assembled(
            collected(Map::empty(), second),
            batches,
        ),
{
    let a = collected(Map::empty(), first);
    let b = collected(Map::empty(), second);
    first.to_multiset_ensures();
    second.to_multiset_ensures();
    assert forall|id: usize| #[trigger] a.dom().contains(id) implies b.dom().contains(id) && a[id]
        == b[id] by {
        lemma_same_entry(first, second, id);
    }
    assert forall|id: usize| #[trigger] b.dom().contains(id) implies a.dom().contains(id) by {
        lemma_same_entry(second, first, id);
    }
    assert(a.dom() =~= b.dom());
    assert(a =~= b);
}

proof fn lemma_same_entry(first: Seq<BatchOutcome>, second: Seq<BatchOutcome>, id: usize)
    requires
        one_outcome_per_batch(first),
        one_outcome_per_batch(second),
        first.to_multiset() == second.to_multiset(),
        collected(Map::empty(), first).contains_key(id),
    ensures
        collected(Map::empty(), second).contains_key(id),
        collected(Map::empty(), first)[id] == collected(Map::empty(), second)[id],
{
    first.to_multiset_ensures();
    second.to_multiset_ensures();
    lemma_collected_by_batch(first, id);
    lemma_collected_by_batch(second, id);
    let i = choose|i: int|
        0 <= i < first.len() && #[trigger] first[i].spec_batch_id() == id && first[i] is Succeeded;
    assert(first.contains(first[i]));
    assert(second.to_multiset().count(first[i]) > 0);
    assert(second.contains(first[i]));
    let j = choose|j: int| 0 <= j < second.len() && second[j] == first[i];
    assert(second[j].spec_batch_id() == id && second[j] is Succeeded);
}

/// Gathers the entries of the batches that succeeded, under their batch.
pub struct ResultCollector {
    results: HashMap<usize, Vec<DatasetEntry>>,
}

impl View for ResultCollector {
    type V = Map<usize, Seq<Json>>;

    closed spec fn view(&self) -> Map<usize, Seq<Json>> {
        Map::new(
            |id: usize| self.results@.contains_key(id),
            |id: usize| models(self.results@[id]@),
        )
    }
}

impl ResultCollector {
    /// A collector that holds nothing.
    pub fn new() -> (collector: Self)
        ensures
            collector@ == Map::<usize, Seq<Json>>::empty(),
    {
        let collector = ResultCollector { results: HashMap::new() };
        assert(collector@ =~= Map::<usize, Seq<Json>>::empty());
        collector
    }

    /// Whether the entries of batch `batch_id` are held.
    pub fn contains(&self, batch_id: usize) -> (present: bool)
        ensures
            present == self@.contains_key(batch_id),
    {
        self.results.contains_key(&batch_id)
    }

    /// The number of entries held for batch `batch_id`, if it is present.
    pub fn entry_count(&self, batch_id: usize) -> (count: Option<usize>)
        ensures
            count is Some <==> self@.contains_key(batch_id),
            count is Some ==> count->Some_0 == self@[batch_id].len(),
    {
        match self.results.get(&batch_id) {
            Some(entries) => Some(entries.len()),
            None => None,
        }
    }

    /// Stores `entries` as what batch `batch_id` produced. The map holds
    /// one value for each batch: what it held for this batch before is
    /// replaced.
    pub fn insert(&mut self, batch_id: usize, entries: Vec<DatasetEntry>)
        ensures
            final(self)@ == old(self)@.insert(batch_id, models(entries@)),
    {
        self.results.insert(batch_id, entries);
        assert(self@ =~= old(self)@.insert(batch_id, models(entries@)));
    }

    /// Takes in the outcome of a batch: the entries of a success are
    /// stored, a failure adds nothing.
    pub fn accept(&mut self, outcome: BatchOutcome)
        ensures
            final(self)@ == with_outcome(old(self)@, outcome),
    {
        match outcome {
            BatchOutcome::Succeeded(result) => {
                self.insert(result.batch_id, result.entries);
            },
            BatchOutcome::Failed { .. } => {},
        }
    }

    /// The result of the run: the entries of the batches `0 ..
    /// total_batches` in ascending order of batch, whatever the order in
    /// which they arrived. A batch that is absent is passed over.
    pub fn assemble(self, total_batches: usize) -> (entries: Vec<DatasetEntry>)
        ensures
            models(entries@) == assembled(self@, total_batches as nat),
    {
        let ghost all = self@;
        let mut results = self.results;
        let mut entries: Vec<DatasetEntry> = Vec::new();
        let mut id: usize = 0;
        while id < total_batches
            invariant
                id <= total_batches,
                models(entries@) == assembled(all, id as nat),
                forall|k: usize|
                    k >= id ==> (results@.contains_key(k) <==> #[trigger] all.contains_key(k)),
                forall|k: usize|
                    k >= id && all.contains_key(k) ==> models((#[trigger] results@[k])@) == all[k],
            decreases total_batches - id,
        {
            let ghost before = results@;
            match results.remove(&id) {
                Some(mut batch) => {
                    assert(before.contains_key(id) && before[id] == batch);
                    assert(models(batch@) == all[id]);
                    proof {
                        lemma_models_of_both(entries@, batch@);
                    }
                    entries.append(&mut batch);
                },
                None => {
                    assert(!all.contains_key(id));
                },
            }
            assert(results@ == before.remove(id));
            id = id + 1;
        }
        entries
    }
}

} // verus!
