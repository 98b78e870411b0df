//! Batch-execution engine for dataset generation: the decisions of a run
//! (splitting, rate limiting, retrying, admission, progress and result
//! assembly), stated over mathematical models and proved.

pub mod admission;
pub mod cancellation;
pub mod collector;
pub mod config;
pub mod dataset;
pub mod feedback;
pub mod generator;
pub mod json;
pub mod models;
pub mod parser;
pub mod placeholder;
pub mod planner;
pub mod progress;
pub mod prompt;
pub mod rate_limiter;
pub mod response;
pub mod retry;
pub mod run;
pub mod run_laws;
pub mod run_model;
pub mod splitter;
pub mod text;
pub mod types;
