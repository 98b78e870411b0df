//! The configuration of a run, and the check that a run can proceed on it.

use crate::types::{DatasetFormat, ModelProvider};
use vstd::prelude::*;

verus! {

/// The limits of one run. Durations are in milliseconds.
#[derive(Debug, Clone, Copy)]
pub struct ConcurrentGenerationConfig {
    /// How many batches may be in flight at once, over the whole run.
    pub max_concurrent_batches: usize,
    /// Into how many requests one batch may be divided.
    pub max_concurrent_requests_per_batch: usize,
    pub ollama_requests_per_second: u32,
    pub openai_requests_per_second: u32,
    /// How many times a failed batch is attempted again.
    pub max_retries: usize,
    /// The fixed pause before each further attempt.
    pub retry_delay_ms: u64,
    pub request_timeout_ms: u64,
    pub dataset_format: DatasetFormat,
}

/// The first reason for which a configuration cannot be run.
#[derive(Debug, Clone, Copy, PartialEq, Eq, Structural)]
pub enum ConfigError {
    /// `max_concurrent_batches` is zero: no batch could ever be admitted.
    NoConcurrentBatches,
    /// `max_concurrent_requests_per_batch` is zero: no batch could be divided.
    NoRequestsPerBatch,
    /// `ollama_requests_per_second` is zero: no spacing can be derived.
    NoOllamaRate,
    /// `openai_requests_per_second` is zero: no spacing can be derived.
    NoOpenAiRate,
}

impl ConcurrentGenerationConfig {
    /// A run can proceed on this configuration.
    pub open spec fn valid(&self) -> bool {
        &&& self.max_concurrent_batches > 0
        &&& self.max_concurrent_requests_per_batch > 0
        &&& self.ollama_requests_per_second > 0
        &&& self.openai_requests_per_second > 0
    }

    /// What `validate` reports: the first failing field, in declaration order.
    pub open spec fn first_error(&self) -> Option<ConfigError> {
        if self.max_concurrent_batches == 0 {
            Some(ConfigError::NoConcurrentBatches)
        } else if self.max_concurrent_requests_per_batch == 0 {
            Some(ConfigError::NoRequestsPerBatch)
        } else if self.ollama_requests_per_second == 0 {
            Some(ConfigError::NoOllamaRate)
        } else if self.openai_requests_per_second == 0 {
            Some(ConfigError::NoOpenAiRate)
        } else {
            None
        }
    }

    /// The rate limit of the backend family `provider`.
    pub open spec fn spec_requests_per_second(&self, provider: ModelProvider) -> u32 {
        match provider {
            ModelProvider::Ollama => self.ollama_requests_per_second,
            ModelProvider::OpenAI => self.openai_requests_per_second,
        }
    }

    /// Accepts exactly the valid configurations, and names the first fault
    /// of any other.
    pub fn validate(&self) -> (r: Result<(), ConfigError>)
        ensures
            r is Ok <==> self.valid(),
            r is Err ==> self.first_error() == Some(r->Err_0),
    {
        if self.max_concurrent_batches == 0 {
            Err(ConfigError::NoConcurrentBatches)
        } else if self.max_concurrent_requests_per_batch == 0 {
            Err(ConfigError::NoRequestsPerBatch)
        } else if self.ollama_requests_per_second == 0 {
            Err(ConfigError::NoOllamaRate)
        } else if self.openai_requests_per_second == 0 {
            Err(ConfigError::NoOpenAiRate)
        } else {
            Ok(())
        }
    }

    /// The rate limit of the backend family `provider`.
    #[verifier::when_used_as_spec(spec_requests_per_second)]
    pub fn requests_per_second(&self, provider: ModelProvider) -> (r: u32)
        ensures
            r == self.spec_requests_per_second(provider),
    {
        match provider {
            ModelProvider::Ollama => self.ollama_requests_per_second,
            ModelProvider::OpenAI => self.openai_requests_per_second,
        }
    }
}

impl Default for ConcurrentGenerationConfig {
    fn default() -> (c: Self)
        ensures
            c.max_concurrent_batches == 4,
            c.max_concurrent_requests_per_batch == 3,
            c.ollama_requests_per_second == 10,
            c.openai_requests_per_second == 60,
            c.max_retries == 3,
            c.retry_delay_ms == 1000,
            c.request_timeout_ms == 30_000,
            c.dataset_format == DatasetFormat::Alpaca,
            c.valid(),
    {
        ConcurrentGenerationConfig {
            max_concurrent_batches: 4,
            max_concurrent_requests_per_batch: 3,
            ollama_requests_per_second: 10,
            openai_requests_per_second: 60,
            max_retries: 3,
            retry_delay_ms: 1000,
            request_timeout_ms: 30_000,
            dataset_format: DatasetFormat::Alpaca,
        }
    }
}

} // verus!
