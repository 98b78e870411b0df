//! The data model of a run: backends, formats, tasks and what a batch yields.

use crate::json::{json_model, Json};
use vstd::prelude::*;

verus! {

/// The backend family that answers a request; each family has its own
/// rate-limiting domain.
#[derive(Debug, Clone, Copy, PartialEq, Eq, Structural)]
pub enum ModelProvider {
    Ollama,
    OpenAI,
}

/// The schema that the entries of a dataset follow.
#[derive(Debug, Clone, Copy, Hash, PartialEq, Eq, Structural)]
pub enum DatasetFormat {
    Alpaca,
    Conversation,
    ChainOfThought,
    PreferenceRanking,
    FunctionCall,
    MultiRoundDialogue,
    CodeTask,
    Reflection,
    RetrievalEmbedding,
    Reranking,
}

/// A model that a backend offers.
#[derive(Debug, Clone)]
pub struct Model {
    pub id: String,
    pub name: String,
    pub size: String,
    pub modified: String,
    pub provider: ModelProvider,
    pub capabilities: Vec<String>,
}

/// One training example. The engine counts and concatenates entries and
/// never looks inside one.
#[derive(Debug, Clone)]
pub struct DatasetEntry {
    pub data: serde_json::Value,
}

impl View for DatasetEntry {
    type V = Json;

    /// What the entry holds, as plain data.
    open spec fn view(&self) -> Json {
        json_model(self.data)
    }
}

/// What each of `entries` holds.
pub open spec fn models(entries: Seq<DatasetEntry>) -> Seq<Json> {
    Seq::new(entries.len(), |i: int| entries[i]@)
}

/// No entries hold nothing.
pub proof fn lemma_models_of_none()
    ensures
        models(Seq::<DatasetEntry>::empty()) == Seq::<Json>::empty(),
{
    assert(models(Seq::<DatasetEntry>::empty()) =~= Seq::<Json>::empty());
}

/// What entries hold one after the other is what the first ones hold and
/// what the others hold.
pub proof fn lemma_models_of_both(first: Seq<DatasetEntry>, second: Seq<DatasetEntry>)
    ensures
        models(first + second) == models(first) + models(second),
{
    assert(models(first + second) =~= models(first) + models(second));
}

/// What the caller asks of a whole run.
#[derive(Debug, Clone)]
pub struct GenerationConfig {
    pub target_entries: usize,
    pub batch_size: usize,
    pub selected_model: String,
    pub fine_tuning_goal: String,
    pub domain_context: String,
    pub format: DatasetFormat,
}

/// One batch of work, fixed before the run starts.
#[derive(Debug, Clone)]
pub struct GenerationTask {
    pub id: String,
    pub batch_id: usize,
    pub entries_to_generate: usize,
    pub model_id: String,
    pub provider: ModelProvider,
    pub goal: String,
    pub context: String,
}

/// What a batch that succeeded yields.
#[derive(Debug, Clone)]
pub struct BatchResult {
    pub batch_id: usize,
    pub entries: Vec<DatasetEntry>,
    /// Milliseconds from the batch's admission to its success.
    pub generation_time_ms: u64,
    pub retry_count: usize,
}

/// Why a batch, or a request of it, did not succeed.
#[derive(Debug, Clone)]
pub enum GenerationError {
    /// The cancellation signal was observed.
    Cancelled,
    /// The backend answered with a failure, or could not be reached.
    Backend(String),
    /// Every attempt failed: the first one and `retry_count` more. `last`
    /// is the message of the last one.
    RetriesExhausted { last: String, retry_count: usize },
}

/// The one outcome that each task ends with.
#[derive(Debug, Clone)]
pub enum BatchOutcome {
    Succeeded(BatchResult),
    Failed { batch_id: usize, error: GenerationError, retry_count: usize },
}

impl BatchOutcome {
    /// The batch that this outcome belongs to.
    pub open spec fn spec_batch_id(&self) -> usize {
        match *self {
            BatchOutcome::Succeeded(r) => r.batch_id,
            BatchOutcome::Failed { batch_id, .. } => batch_id,
        }
    }

    /// The failed attempts that went before this outcome.
    pub open spec fn spec_retry_count(&self) -> usize {
        match *self {
            BatchOutcome::Succeeded(r) => r.retry_count,
            BatchOutcome::Failed { retry_count, .. } => retry_count,
        }
    }

    /// What the entries that this outcome contributes hold: nothing unless
    /// it succeeded.
    pub open spec fn spec_entries(&self) -> Seq<Json> {
        match *self {
            BatchOutcome::Succeeded(r) => models(r.entries@),
            BatchOutcome::Failed { .. } => Seq::empty(),
        }
    }

    /// The batch that the outcome belongs to.
    #[verifier::when_used_as_spec(spec_batch_id)]
    pub fn batch_id(&self) -> (id: usize)
        ensures
            id == self.spec_batch_id(),
    {
        match self {
            BatchOutcome::Succeeded(r) => r.batch_id,
            BatchOutcome::Failed { batch_id, .. } => *batch_id,
        }
    }

    /// The failed attempts that went before the outcome.
    #[verifier::when_used_as_spec(spec_retry_count)]
    pub fn retry_count(&self) -> (n: usize)
        ensures
            n == self.spec_retry_count(),
    {
        match self {
            BatchOutcome::Succeeded(r) => r.retry_count,
            BatchOutcome::Failed { retry_count, .. } => *retry_count,
        }
    }

    /// How many entries this outcome contributes.
    pub fn entry_count(&self) -> (n: usize)
        ensures
            n == self.spec_entries().len(),
    {
        match self {
            BatchOutcome::Succeeded(r) => r.entries.len(),
            BatchOutcome::Failed { .. } => 0,
        }
    }

    /// Whether the batch succeeded.
    pub fn is_success(&self) -> (b: bool)
        ensures
            b == (*self is Succeeded),
    {
        match self {
            BatchOutcome::Succeeded(_) => true,
            BatchOutcome::Failed { .. } => false,
        }
    }
}

} // verus!
