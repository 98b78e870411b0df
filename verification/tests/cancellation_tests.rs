use dataset_engine::cancellation::observe_cancellation;
use dataset_engine::config::ConcurrentGenerationConfig;
use dataset_engine::run::GenerationRun;
use dataset_engine::run_model::Step;
use dataset_engine::types::{GenerationTask, ModelProvider};
use tokio_util::sync::CancellationToken;

fn one_task() -> Vec<GenerationTask> {
    vec![GenerationTask {
        id: String::from("only"),
        batch_id: 0,
        entries_to_generate: 2,
        model_id: String::from("model"),
        provider: ModelProvider::OpenAI,
        goal: String::from("goal"),
        context: String::from("context"),
    }]
}

#[test]
fn signal_that_is_not_set_leaves_the_run_alone() {
    let token = CancellationToken::new();
    let mut run = GenerationRun::start(ConcurrentGenerationConfig::default(), one_task()).unwrap();
    assert!(!observe_cancellation(&mut run, &token));
    assert!(!run.is_cancelled());
    assert!(matches!(run.step(0), Step::Admitted { task: 0 }));
}

#[test]
fn signal_that_is_set_cancels_the_run() {
    let token = CancellationToken::new();
    let mut run = GenerationRun::start(ConcurrentGenerationConfig::default(), one_task()).unwrap();
    let shared = token.clone();
    shared.cancel();
    assert!(observe_cancellation(&mut run, &token));
    assert!(run.is_cancelled());
    assert!(matches!(run.step(0), Step::Finalized { task: 0, .. }));
    assert!(matches!(run.step(0), Step::Idle));
    assert!(run.is_finished());
    assert!(run.into_entries().is_empty());
}

#[test]
fn signal_is_never_taken_back() {
    let token = CancellationToken::new();
    token.cancel();
    let mut run = GenerationRun::start(ConcurrentGenerationConfig::default(), one_task()).unwrap();
    assert!(observe_cancellation(&mut run, &token));
    let other = CancellationToken::new();
    assert!(!observe_cancellation(&mut run, &other));
    assert!(run.is_cancelled());
}

#[test]
fn signal_that_was_seen_set_cancels_and_one_that_was_not_does_nothing() {
    let mut run = GenerationRun::start(ConcurrentGenerationConfig::default(), one_task()).unwrap();
    assert!(!run.on_signal(false));
    assert!(!run.is_cancelled());
    assert!(matches!(run.step(0), Step::Admitted { task: 0 }));
    assert_eq!(run.permits_held(), 1);
    assert!(run.on_signal(true));
    assert!(run.is_cancelled());
    assert!(!run.on_signal(false));
    assert!(run.is_cancelled());
    assert!(matches!(run.step(1), Step::Finalized { task: 0, .. }));
    assert_eq!(run.permits_held(), 0);
    assert!(run.is_finished());
}
