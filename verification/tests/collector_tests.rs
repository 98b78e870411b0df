use dataset_engine::collector::ResultCollector;
use dataset_engine::types::{BatchOutcome, BatchResult, DatasetEntry, GenerationError};

fn entry(text: &str) -> DatasetEntry {
    DatasetEntry { data: serde_json::Value::from(text) }
}

fn texts(entries: &[DatasetEntry]) -> Vec<String> {
    entries.iter().map(|e| e.data.as_str().unwrap().to_string()).collect()
}

#[test]
fn result_is_in_order_of_batch_whatever_the_order_of_arrival() {
    let mut collector = ResultCollector::new();
    collector.insert(2, vec![entry("c1"), entry("c2")]);
    collector.insert(0, vec![entry("a1")]);
    collector.insert(1, vec![entry("b1"), entry("b2"), entry("b3")]);
    let all = collector.assemble(3);
    assert_eq!(texts(&all), vec!["a1", "b1", "b2", "b3", "c1", "c2"]);
}

#[test]
fn every_order_of_arrival_gives_the_same_result() {
    let orders: [[usize; 3]; 6] =
        [[0, 1, 2], [0, 2, 1], [1, 0, 2], [1, 2, 0], [2, 0, 1], [2, 1, 0]];
    for order in orders {
        let mut collector = ResultCollector::new();
        for id in order {
            collector.insert(id, vec![entry(&format!("e{}", id)), entry(&format!("f{}", id))]);
        }
        let all = collector.assemble(3);
        assert_eq!(texts(&all), vec!["e0", "f0", "e1", "f1", "e2", "f2"]);
    }
}

#[test]
fn missing_batches_are_passed_over() {
    let mut collector = ResultCollector::new();
    collector.insert(3, vec![entry("d")]);
    collector.insert(1, vec![entry("b")]);
    assert!(collector.contains(1));
    assert!(!collector.contains(0));
    assert_eq!(collector.entry_count(3), Some(1));
    assert_eq!(collector.entry_count(2), None);
    let all = collector.assemble(5);
    assert_eq!(texts(&all), vec!["b", "d"]);
}

#[test]
fn batches_beyond_the_total_are_left_out() {
    let mut collector = ResultCollector::new();
    collector.insert(0, vec![entry("a")]);
    collector.insert(7, vec![entry("h")]);
    let all = collector.assemble(2);
    assert_eq!(texts(&all), vec!["a"]);
}

#[test]
fn empty_collector_gives_an_empty_result() {
    let collector = ResultCollector::new();
    assert!(collector.assemble(4).is_empty());
    let other = ResultCollector::new();
    assert!(other.assemble(0).is_empty());
}

#[test]
fn map_holds_one_value_for_each_batch() {
    let mut collector = ResultCollector::new();
    collector.insert(0, vec![entry("old")]);
    collector.insert(0, vec![entry("new1"), entry("new2")]);
    assert_eq!(collector.entry_count(0), Some(2));
    let all = collector.assemble(1);
    assert_eq!(texts(&all), vec!["new1", "new2"]);
}

#[test]
fn failures_add_nothing() {
    let mut collector = ResultCollector::new();
    collector.accept(BatchOutcome::Failed {
        batch_id: 0,
        error: GenerationError::Cancelled,
        retry_count: 0,
    });
    collector.accept(BatchOutcome::Succeeded(BatchResult {
        batch_id: 1,
        entries: vec![entry("x"), entry("y")],
        generation_time_ms: 3,
        retry_count: 0,
    }));
    assert!(!collector.contains(0));
    assert!(collector.contains(1));
    let all = collector.assemble(2);
    assert_eq!(texts(&all), vec!["x", "y"]);
}
