use dataset_engine::config::ConcurrentGenerationConfig;
use dataset_engine::feedback::{FeedbackHistory, ValidationFeedback, FEEDBACK_HISTORY_LIMIT};
use dataset_engine::generator::ConcurrentDatasetGenerator;

fn feedback(summary: &str) -> ValidationFeedback {
    ValidationFeedback {
        common_issues: vec![String::from("too short")],
        improvement_suggestions: vec![String::from("add detail")],
        quality_patterns: Vec::new(),
        avoid_patterns: vec![String::from("repetition")],
        batch_summary: String::from(summary),
    }
}

#[test]
fn rounds_are_kept_in_order() {
    let mut history = FeedbackHistory::new();
    assert_eq!(history.len(), 0);
    assert!(history.get(0).is_none());
    history.record(feedback("first"));
    history.record(feedback("second"));
    assert_eq!(history.len(), 2);
    assert_eq!(history.get(0).unwrap().batch_summary, "first");
    assert_eq!(history.get(1).unwrap().batch_summary, "second");
    assert!(history.get(2).is_none());
}

#[test]
fn only_the_latest_fifty_rounds_are_kept() {
    assert_eq!(FEEDBACK_HISTORY_LIMIT, 50);
    let mut history = FeedbackHistory::new();
    for i in 0..50 {
        history.record(feedback(&format!("round {}", i)));
    }
    assert_eq!(history.len(), 50);
    assert_eq!(history.get(0).unwrap().batch_summary, "round 0");
    history.record(feedback("round 50"));
    assert_eq!(history.len(), 50);
    assert_eq!(history.get(0).unwrap().batch_summary, "round 1");
    assert_eq!(history.get(49).unwrap().batch_summary, "round 50");
    for i in 51..120 {
        history.record(feedback(&format!("round {}", i)));
    }
    assert_eq!(history.len(), 50);
    assert_eq!(history.get(0).unwrap().batch_summary, "round 70");
    assert_eq!(history.get(49).unwrap().batch_summary, "round 119");
}

#[test]
fn generator_keeps_its_configuration_and_its_feedback() {
    let config = ConcurrentGenerationConfig::default();
    let mut generator = ConcurrentDatasetGenerator::new(config);
    assert_eq!(generator.feedback_rounds(), 0);
    assert_eq!(generator.configuration().max_concurrent_batches, 4);
    for i in 0..60 {
        generator.update_with_feedback(feedback(&format!("round {}", i)));
    }
    assert_eq!(generator.feedback_rounds(), 50);
    assert_eq!(generator.configuration().max_retries, 3);
}

#[test]
fn generator_parses_in_its_own_format() {
    let mut config = ConcurrentGenerationConfig::default();
    config.dataset_format = dataset_engine::types::DatasetFormat::RetrievalEmbedding;
    let generator = ConcurrentDatasetGenerator::new(config);
    let entries = generator.parse_generated_entries("nothing to decode", 2);
    assert_eq!(entries.len(), 2);
    assert_eq!(entries[0].data.get("query").unwrap().as_str(), Some("Sample query 1"));
    let entries = generator.generate_fallback_entries(1);
    assert_eq!(
        entries[0].data.get("positive_passage").unwrap().as_str(),
        Some("Relevant passage 1")
    );
}
