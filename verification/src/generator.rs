//! The generator: a configuration, the feedback it has been given, and
//! the runs that it starts.

use crate::config::ConcurrentGenerationConfig;
use crate::feedback::{most_recent, FeedbackHistory, ValidationFeedback, FEEDBACK_HISTORY_LIMIT};
use crate::parser::reply_entries;
use crate::placeholder::sample_models;
use crate::run::{start_error, GenerationRun, RunError};
use crate::run_model::RunModel;
use crate::types::{models, DatasetEntry, GenerationTask};
use vstd::prelude::*;
use vstd::string::*;

verus! {

/// Generates the entries of a dataset batch by batch, many batches at
/// once.
pub struct ConcurrentDatasetGenerator {
    config: ConcurrentGenerationConfig,
    history: FeedbackHistory,
}

impl ConcurrentDatasetGenerator {
    /// The configuration of the generator.
    pub closed spec fn config(&self) -> ConcurrentGenerationConfig {
        self.config
    }

    /// The rounds of feedback that are kept, oldest first.
    pub closed spec fn feedback(&self) -> Seq<ValidationFeedback> {
        self.history@
    }

    /// A generator for `config` that has been given no feedback.
    pub fn new(config: ConcurrentGenerationConfig) -> (generator: Self)
        ensures
            generator.config() == config,
            generator.feedback() == Seq::<ValidationFeedback>::empty(),
    {
        ConcurrentDatasetGenerator { config, history: FeedbackHistory::new() }
    }

    /// The configuration of the generator.
    pub fn configuration(&self) -> (config: ConcurrentGenerationConfig)
        ensures
            config == self.config(),
    {
        self.config
    }

    /// The number of rounds of feedback that are kept.
    pub fn feedback_rounds(&self) -> (n: usize)
        ensures
            n == self.feedback().len(),
            n <= FEEDBACK_HISTORY_LIMIT,
    {
        self.history.len()
    }

    /// Takes in the feedback on one batch. The latest rounds are kept, up
    /// to the limit.
    pub fn update_with_feedback(&mut self, feedback: ValidationFeedback)
        ensures
            final(self).config() == old(self).config(),
            final(self).feedback() == most_recent(
                old(self).feedback().push(feedback),
                FEEDBACK_HISTORY_LIMIT as nat,
            ),
    {
        self.history.record(feedback);
    }

    /// Starts a run of `tasks` under the configuration of this generator.
    pub fn start_run(&self, tasks: Vec<GenerationTask>) -> (r: Result<GenerationRun, RunError>)
        ensures
            r is Ok <==> start_error(self.config(), tasks@) is None,
            r is Err ==> start_error(self.config(), tasks@) == Some(r->Err_0),
            r is Ok ==> r->Ok_0@ == RunModel::initial(self.config(), tasks@) && r->Ok_0@.sound(),
    {
        GenerationRun::start(self.config, tasks)
    }

    /// The entries of a reply, in the format of this generator.
    pub fn parse_generated_entries(&self, text: &str, expected_count: usize) -> (entries: Vec<
        DatasetEntry,
    >)
        ensures
            models(entries@) == reply_entries(
                text.spec_bytes(),
                expected_count as nat,
                self.config().dataset_format,
            ),
    {
        crate::parser::parse_generated_entries(text, expected_count, self.config.dataset_format)
    }

    /// `count` numbered samples in the format of this generator.
    pub fn generate_fallback_entries(&self, count: usize) -> (entries: Vec<DatasetEntry>)
        ensures
            models(entries@) == sample_models(self.config().dataset_format, count as nat),
    {
        crate::placeholder::generate_fallback_entries(self.config.dataset_format, count)
    }
}

} // verus!
