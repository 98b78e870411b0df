use dataset_engine::config::{ConcurrentGenerationConfig, ConfigError};
use dataset_engine::progress::ProgressUpdate;
use dataset_engine::response::UNDECODABLE_BODY;
use dataset_engine::retry::RetryState;
use dataset_engine::run::{BackendReply, GenerationRun, Reaction, RunError};
use dataset_engine::run_model::Step;
use dataset_engine::types::{DatasetEntry, DatasetFormat, GenerationError, GenerationTask, ModelProvider};

fn config(batches: usize, requests: usize, max_retries: usize, retry_delay_ms: u64) -> ConcurrentGenerationConfig {
    ConcurrentGenerationConfig {
        max_concurrent_batches: batches,
        max_concurrent_requests_per_batch: requests,
        ollama_requests_per_second: 10,
        openai_requests_per_second: 5000,
        max_retries,
        retry_delay_ms,
        request_timeout_ms: 30_000,
        dataset_format: DatasetFormat::Alpaca,
    }
}

fn task(batch_id: usize, entries_to_generate: usize, provider: ModelProvider) -> GenerationTask {
    GenerationTask {
        id: format!("task-{}", batch_id),
        batch_id,
        entries_to_generate,
        model_id: String::from("model"),
        provider,
        goal: String::from("goal"),
        context: String::from("context"),
    }
}

fn tasks(count: usize, entries: usize, provider: ModelProvider) -> Vec<GenerationTask> {
    (0..count).map(|id| task(id, entries, provider)).collect()
}

// The body of a hosted answer whose text is an array of `count` entries,
// each tagged with `tag` and its position.
fn body(tag: &str, count: usize) -> BackendReply {
    let mut array = Vec::new();
    for k in 0..count {
        let mut entry = serde_json::Map::new();
        entry.insert(String::from("instruction"), serde_json::Value::from(format!("{}-{}", tag, k)));
        array.push(serde_json::Value::Object(entry));
    }
    let text = serde_json::Value::Array(array).to_string();
    let mut message = serde_json::Map::new();
    message.insert(String::from("content"), serde_json::Value::from(text));
    let mut choice = serde_json::Map::new();
    choice.insert(String::from("message"), serde_json::Value::Object(message));
    let mut document = serde_json::Map::new();
    document.insert(
        String::from("choices"),
        serde_json::Value::Array(vec![serde_json::Value::Object(choice)]),
    );
    let mut local = serde_json::Value::Object(document);
    local
        .as_object_mut()
        .unwrap()
        .insert(String::from("response"), serde_json::Value::from(local_text(tag, count)));
    BackendReply::Body(local.to_string())
}

fn local_text(tag: &str, count: usize) -> String {
    let mut array = Vec::new();
    for k in 0..count {
        let mut entry = serde_json::Map::new();
        entry.insert(String::from("instruction"), serde_json::Value::from(format!("{}-{}", tag, k)));
        array.push(serde_json::Value::Object(entry));
    }
    serde_json::Value::Array(array).to_string()
}

fn instructions(entries: &[DatasetEntry]) -> Vec<String> {
    entries
        .iter()
        .map(|e| e.data.get("instruction").unwrap().as_str().unwrap().to_string())
        .collect()
}

struct Dispatched {
    task: usize,
    attempt: usize,
    sub: usize,
    size: usize,
    at_ms: u64,
}

enum Pending {
    Reply { due_ms: u64, task: usize, attempt: usize, sub: usize, size: usize },
    Retry { due_ms: u64, task: usize, attempt: usize },
}

impl Pending {
    fn due_ms(&self) -> u64 {
        match self {
            Pending::Reply { due_ms, .. } => *due_ms,
            Pending::Retry { due_ms, .. } => *due_ms,
        }
    }
}

struct Trace {
    now_ms: u64,
    dispatched: Vec<Dispatched>,
    admitted: Vec<usize>,
    updates: Vec<ProgressUpdate>,
    retry_delays: Vec<u64>,
    errors: Vec<GenerationError>,
    most_permits: usize,
    waits: usize,
}

// Drives a run to its end against a backend that answers every request
// after `latency_ms`, with what `answer` says for the request.
fn drive(
    run: &mut GenerationRun,
    latency_ms: u64,
    answer: &mut dyn FnMut(usize, usize, usize, usize) -> BackendReply,
) -> Trace {
    let mut trace = Trace {
        now_ms: 0,
        dispatched: Vec::new(),
        admitted: Vec::new(),
        updates: Vec::new(),
        retry_delays: Vec::new(),
        errors: Vec::new(),
        most_permits: 0,
        waits: 0,
    };
    let mut pending: Vec<Pending> = Vec::new();
    let mut rounds: usize = 0;
    loop {
        rounds += 1;
        assert!(rounds < 100_000);
        let mut wake_ms: Option<u64> = None;
        loop {
            let step = run.step(trace.now_ms);
            trace.most_permits = trace.most_permits.max(run.permits_held());
            match step {
                Step::Finalized { update, .. } => trace.updates.push(update),
                Step::Admitted { task } => trace.admitted.push(task),
                Step::Dispatch { task, attempt, sub, size } => {
                    trace.dispatched.push(Dispatched { task, attempt, sub, size, at_ms: trace.now_ms });
                    pending.push(Pending::Reply {
                        due_ms: trace.now_ms + latency_ms,
                        task,
                        attempt,
                        sub,
                        size,
                    });
                }
                Step::Wait { ms } => {
                    trace.waits += 1;
                    wake_ms = Some(trace.now_ms + ms);
                    break;
                }
                Step::Idle => break,
            }
        }
        if run.is_finished() {
            break;
        }
        let mut next_ms = wake_ms;
        for event in pending.iter() {
            next_ms = Some(next_ms.map_or(event.due_ms(), |t| t.min(event.due_ms())));
        }
        trace.now_ms = next_ms.expect("a run that is not finished waits for something");
        let mut k: usize = 0;
        while k < pending.len() {
            if pending[k].due_ms() > trace.now_ms {
                k += 1;
                continue;
            }
            match pending.remove(k) {
                Pending::Reply { task, attempt, sub, size, .. } => {
                    let reply = answer(task, attempt, sub, size);
                    match run.on_reply(task, attempt, sub, reply, trace.now_ms) {
                        Reaction::Succeeded { update, .. } => trace.updates.push(update),
                        Reaction::Failed { update, error } => {
                            trace.updates.push(update);
                            trace.errors.push(error);
                        }
                        Reaction::RetryAfter { delay_ms, error } => {
                            trace.retry_delays.push(delay_ms);
                            trace.errors.push(error);
                            pending.push(Pending::Retry {
                                due_ms: trace.now_ms + delay_ms,
                                task,
                                attempt,
                            });
                        }
                        Reaction::Recorded | Reaction::Stale => {}
                    }
                }
                Pending::Retry { task, attempt, .. } => {
                    assert!(run.retry_due(task, attempt));
                }
            }
            trace.most_permits = trace.most_permits.max(run.permits_held());
        }
    }
    trace
}

fn run_with_two_failures(failing_task: usize) {
    let mut run =
        GenerationRun::start(config(2, 1, 3, 100), tasks(3, 10, ModelProvider::OpenAI)).unwrap();
    let mut answer = |task: usize, attempt: usize, _sub: usize, size: usize| {
        if task == failing_task && attempt < 2 {
            BackendReply::Failure(String::from("503 Service Unavailable"))
        } else {
            body(&format!("b{}", task), size)
        }
    };
    let trace = drive(&mut run, 5, &mut answer);
    assert!(run.is_finished());
    assert!(trace.most_permits <= 2);
    assert_eq!(trace.retry_delays, vec![100, 100]);
    assert!(trace.now_ms >= 200);
    let last = trace.updates.last().unwrap();
    assert_eq!(trace.updates.len(), 3);
    assert_eq!(last.entries_generated, 30);
    assert!(last.retries_count >= 2);
    assert_eq!(last.retries_count, 2);
    assert_eq!(last.errors_count, 0);
    assert_eq!(last.concurrent_batches, 0);
    assert_eq!(run.state_of(failing_task), Some(RetryState::Succeeded { retry_count: 2 }));
    let dispatches_of_failing =
        trace.dispatched.iter().filter(|d| d.task == failing_task).count();
    assert_eq!(dispatches_of_failing, 3);
    assert_eq!(trace.dispatched.len(), 5);
    let entries = run.into_entries();
    assert_eq!(entries.len(), 30);
    let names = instructions(&entries);
    assert_eq!(names[0], "b0-0");
    assert_eq!(names[9], "b0-9");
    assert_eq!(names[10], "b1-0");
    assert_eq!(names[20], "b2-0");
    assert_eq!(names[29], "b2-9");
}

#[test]
fn three_tasks_two_at_once_and_one_backend_that_fails_twice() {
    run_with_two_failures(1);
}

#[test]
fn two_failures_are_retried_whichever_task_has_them() {
    run_with_two_failures(0);
    run_with_two_failures(2);
}

#[test]
fn run_cancelled_before_any_task_is_admitted_sends_nothing() {
    let mut run =
        GenerationRun::start(config(2, 1, 3, 100), tasks(3, 10, ModelProvider::OpenAI)).unwrap();
    run.cancel();
    assert!(run.is_cancelled());
    let mut calls: usize = 0;
    let mut answer = |task: usize, _attempt: usize, _sub: usize, size: usize| {
        calls += 1;
        body(&format!("b{}", task), size)
    };
    let trace = drive(&mut run, 5, &mut answer);
    assert!(run.is_finished());
    assert_eq!(calls, 0);
    assert!(trace.dispatched.is_empty());
    assert!(trace.admitted.is_empty());
    assert_eq!(trace.most_permits, 0);
    assert_eq!(trace.now_ms, 0);
    assert_eq!(trace.updates.len(), 3);
    assert_eq!(trace.updates[2].errors_count, 3);
    assert_eq!(trace.updates[2].entries_generated, 0);
    assert_eq!(trace.updates[2].concurrent_batches, 0);
    assert_eq!(trace.updates[0].batch_completed, None);
    for id in 0..3 {
        assert_eq!(run.state_of(id), Some(RetryState::Cancelled { retry_count: 0 }));
    }
    assert!(matches!(run.step(10), Step::Idle));
    assert!(run.into_entries().is_empty());
}

#[test]
fn run_cancelled_on_the_way_keeps_what_had_succeeded() {
    let mut run =
        GenerationRun::start(config(2, 1, 3, 100), tasks(3, 4, ModelProvider::OpenAI)).unwrap();
    assert!(matches!(run.step(0), Step::Admitted { task: 0 }));
    assert!(matches!(run.step(0), Step::Admitted { task: 1 }));
    assert!(matches!(run.step(0), Step::Dispatch { task: 0, attempt: 0, sub: 0, size: 4 }));
    assert!(matches!(run.step(0), Step::Dispatch { task: 1, attempt: 0, sub: 0, size: 4 }));
    assert!(matches!(run.step(0), Step::Idle));
    assert_eq!(run.permits_held(), 2);
    assert!(matches!(run.on_reply(0, 0, 0, body("b0", 4), 7), Reaction::Succeeded { .. }));
    assert_eq!(run.permits_held(), 1);
    run.cancel();
    assert!(matches!(run.on_reply(1, 0, 0, body("b1", 4), 9), Reaction::Stale));
    assert!(!run.retry_due(1, 0));
    match run.step(10) {
        Step::Finalized { task, update } => {
            assert_eq!(task, 1);
            assert_eq!(update.batch_completed, None);
            assert_eq!(update.entries_generated, 4);
            assert_eq!(update.errors_count, 1);
            assert_eq!(update.concurrent_batches, 1);
            assert_eq!(update.elapsed_ms, 10);
        }
        _ => panic!("a cancelled run gives up its tasks"),
    }
    assert_eq!(run.permits_held(), 0);
    assert!(matches!(run.step(10), Step::Finalized { task: 2, .. }));
    assert!(matches!(run.step(10), Step::Idle));
    assert!(run.is_finished());
    assert_eq!(run.state_of(0), Some(RetryState::Succeeded { retry_count: 0 }));
    assert_eq!(run.state_of(1), Some(RetryState::Cancelled { retry_count: 0 }));
    assert_eq!(run.state_of(2), Some(RetryState::Cancelled { retry_count: 0 }));
    assert_eq!(instructions(&run.into_entries()), vec!["b0-0", "b0-1", "b0-2", "b0-3"]);
}

#[test]
fn never_more_batches_at_once_than_the_cap() {
    for cap in 1..5 {
        let mut run =
            GenerationRun::start(config(cap, 2, 2, 30), tasks(9, 5, ModelProvider::OpenAI)).unwrap();
        let mut answer = |task: usize, attempt: usize, _sub: usize, size: usize| {
            if (task + attempt) % 3 == 0 {
                BackendReply::Failure(String::from("timeout"))
            } else {
                body(&format!("b{}", task), size)
            }
        };
        let trace = drive(&mut run, 11, &mut answer);
        assert!(run.is_finished());
        assert!(trace.most_permits <= cap);
        assert_eq!(trace.most_permits, cap);
        assert_eq!(trace.updates.len(), 9);
        assert_eq!(run.permits_held(), 0);
    }
}

#[test]
fn result_is_in_order_of_batch_though_batches_finish_in_reverse() {
    let mut run =
        GenerationRun::start(config(4, 1, 0, 10), tasks(4, 2, ModelProvider::OpenAI)).unwrap();
    for id in 0..4 {
        assert!(matches!(run.step(0), Step::Admitted { task } if task == id));
    }
    for id in 0..4 {
        assert!(matches!(run.step(0), Step::Dispatch { task, .. } if task == id));
    }
    let mut completed = Vec::new();
    for id in [3usize, 1, 2, 0] {
        match run.on_reply(id, 0, 0, body(&format!("b{}", id), 2), 5) {
            Reaction::Succeeded { update, generation_time_ms, retry_count } => {
                completed.push(update.batch_completed);
                assert_eq!(generation_time_ms, 5);
                assert_eq!(retry_count, 0);
            }
            _ => panic!("the batch has one request"),
        }
    }
    assert_eq!(completed, vec![Some(3), Some(1), Some(2), Some(0)]);
    assert!(run.is_finished());
    assert_eq!(
        instructions(&run.into_entries()),
        vec!["b0-0", "b0-1", "b1-0", "b1-1", "b2-0", "b2-1", "b3-0", "b3-1"]
    );
}

#[test]
fn batch_identifiers_order_the_result_not_the_order_of_the_tasks() {
    let list = vec![
        task(2, 1, ModelProvider::OpenAI),
        task(0, 1, ModelProvider::OpenAI),
        task(1, 1, ModelProvider::OpenAI),
    ];
    let mut run = GenerationRun::start(config(3, 1, 0, 10), list).unwrap();
    let mut answer = |task: usize, _attempt: usize, _sub: usize, size: usize| {
        body(&format!("t{}", task), size)
    };
    let trace = drive(&mut run, 1, &mut answer);
    assert_eq!(trace.updates[0].batch_completed, Some(2));
    assert_eq!(instructions(&run.into_entries()), vec!["t1-0", "t2-0", "t0-0"]);
}

#[test]
fn backend_that_always_fails_is_given_up_after_the_last_retry() {
    let mut run =
        GenerationRun::start(config(2, 1, 3, 50), tasks(2, 3, ModelProvider::OpenAI)).unwrap();
    let mut answer = |task: usize, attempt: usize, _sub: usize, size: usize| {
        if task == 0 {
            BackendReply::Failure(format!("failure {}", attempt))
        } else {
            body("ok", size)
        }
    };
    let trace = drive(&mut run, 2, &mut answer);
    assert!(run.is_finished());
    let attempts: Vec<usize> =
        trace.dispatched.iter().filter(|d| d.task == 0).map(|d| d.attempt).collect();
    assert_eq!(attempts, vec![0, 1, 2, 3]);
    assert_eq!(trace.retry_delays, vec![50, 50, 50]);
    assert_eq!(run.state_of(0), Some(RetryState::Failed { retry_count: 3 }));
    assert_eq!(run.state_of(1), Some(RetryState::Succeeded { retry_count: 0 }));
    assert_eq!(trace.errors.len(), 4);
    assert!(matches!(&trace.errors[0], GenerationError::Backend(m) if m == "failure 0"));
    assert!(matches!(&trace.errors[2], GenerationError::Backend(m) if m == "failure 2"));
    assert!(matches!(
        &trace.errors[3],
        GenerationError::RetriesExhausted { last, retry_count: 3 } if last == "failure 3"
    ));
    let last = trace.updates.last().unwrap();
    assert_eq!(last.errors_count, 1);
    assert_eq!(last.retries_count, 3);
    assert_eq!(last.entries_generated, 3);
    assert_eq!(last.batch_completed, None);
    assert!(trace.now_ms >= 150);
    assert_eq!(run.progress().errors(), 1);
    assert_eq!(run.progress().batches_completed(), 2);
    assert_eq!(instructions(&run.into_entries()), vec!["ok-0", "ok-1", "ok-2"]);
}

#[test]
fn without_retries_the_first_failure_is_the_last() {
    let mut run =
        GenerationRun::start(config(1, 1, 0, 50), tasks(1, 3, ModelProvider::OpenAI)).unwrap();
    assert!(matches!(run.step(0), Step::Admitted { task: 0 }));
    assert!(matches!(run.step(0), Step::Dispatch { .. }));
    match run.on_reply(0, 0, 0, BackendReply::Failure(String::from("down")), 4) {
        Reaction::Failed { update, error } => {
            assert_eq!(update.errors_count, 1);
            assert_eq!(update.retries_count, 0);
            assert!(matches!(
                error,
                GenerationError::RetriesExhausted { ref last, retry_count: 0 } if last == "down"
            ));
        }
        _ => panic!("no retries are allowed"),
    }
    assert!(run.is_finished());
    assert_eq!(run.permits_held(), 0);
}

#[test]
fn requests_to_one_backend_keep_their_distance() {
    let mut run =
        GenerationRun::start(config(4, 3, 0, 10), tasks(2, 9, ModelProvider::Ollama)).unwrap();
    let mut answer =
        |task: usize, _attempt: usize, sub: usize, size: usize| body(&format!("b{}s{}", task, sub), size);
    let trace = drive(&mut run, 3, &mut answer);
    assert!(run.is_finished());
    assert_eq!(trace.dispatched.len(), 6);
    assert!(trace.waits > 0);
    for pair in trace.dispatched.windows(2) {
        assert!(pair[1].at_ms - pair[0].at_ms >= 100);
    }
    assert_eq!(trace.dispatched[0].at_ms, 0);
    assert!(trace.now_ms >= 500);
    assert_eq!(run.into_entries().len(), 18);
}

#[test]
fn each_backend_has_a_rate_limit_of_its_own() {
    let list = vec![task(0, 4, ModelProvider::Ollama), task(1, 4, ModelProvider::OpenAI)];
    let mut run = GenerationRun::start(config(2, 2, 0, 10), list).unwrap();
    assert!(matches!(run.step(0), Step::Admitted { task: 0 }));
    assert!(matches!(run.step(0), Step::Admitted { task: 1 }));
    assert!(matches!(run.step(0), Step::Dispatch { task: 0, sub: 0, size: 2, .. }));
    assert!(matches!(run.step(0), Step::Dispatch { task: 1, sub: 0, size: 2, .. }));
    assert!(matches!(run.step(0), Step::Dispatch { task: 1, sub: 1, size: 2, .. }));
    assert!(matches!(run.step(0), Step::Wait { ms: 10 }));
    assert!(matches!(run.step(99), Step::Wait { ms: 10 }));
    assert!(matches!(run.step(100), Step::Dispatch { task: 0, sub: 1, size: 2, .. }));
    assert!(matches!(run.step(100), Step::Idle));
}

#[test]
fn batch_is_divided_and_put_together_in_the_order_of_the_split() {
    let mut run =
        GenerationRun::start(config(1, 3, 1, 10), tasks(1, 10, ModelProvider::OpenAI)).unwrap();
    assert!(matches!(run.step(0), Step::Admitted { task: 0 }));
    assert!(matches!(run.step(0), Step::Dispatch { task: 0, attempt: 0, sub: 0, size: 3 }));
    assert!(matches!(run.step(0), Step::Dispatch { task: 0, attempt: 0, sub: 1, size: 3 }));
    assert!(matches!(run.step(0), Step::Dispatch { task: 0, attempt: 0, sub: 2, size: 4 }));
    assert!(matches!(run.step(0), Step::Idle));
    assert!(matches!(run.on_reply(0, 0, 2, body("last", 4), 8), Reaction::Recorded));
    assert!(matches!(run.on_reply(0, 0, 0, body("first", 3), 9), Reaction::Recorded));
    assert!(matches!(run.on_reply(0, 0, 0, body("again", 3), 9), Reaction::Stale));
    match run.on_reply(0, 0, 1, body("middle", 3), 12) {
        Reaction::Succeeded { update, generation_time_ms, retry_count } => {
            assert_eq!(update.batch_completed, Some(0));
            assert_eq!(update.entries_generated, 10);
            assert_eq!(update.elapsed_ms, 12);
            assert_eq!(generation_time_ms, 12);
            assert_eq!(retry_count, 0);
        }
        _ => panic!("every request is answered"),
    }
    assert_eq!(
        instructions(&run.into_entries()),
        vec![
            "first-0", "first-1", "first-2", "middle-0", "middle-1", "middle-2", "last-0",
            "last-1", "last-2", "last-3"
        ]
    );
}

#[test]
fn failed_request_drops_what_the_others_of_its_attempt_brought() {
    let mut run =
        GenerationRun::start(config(1, 2, 1, 20), tasks(1, 4, ModelProvider::OpenAI)).unwrap();
    assert!(matches!(run.step(0), Step::Admitted { task: 0 }));
    assert!(matches!(run.step(0), Step::Dispatch { sub: 0, .. }));
    assert!(matches!(run.step(0), Step::Dispatch { sub: 1, .. }));
    assert!(matches!(run.on_reply(0, 0, 0, body("lost", 2), 5), Reaction::Recorded));
    match run.on_reply(0, 0, 1, BackendReply::Failure(String::from("reset")), 6) {
        Reaction::RetryAfter { delay_ms, error } => {
            assert_eq!(delay_ms, 20);
            assert!(matches!(error, GenerationError::Backend(ref m) if m == "reset"));
        }
        _ => panic!("a retry is left"),
    }
    assert_eq!(run.state_of(0), Some(RetryState::Retrying { attempt: 0 }));
    assert_eq!(run.permits_held(), 1);
    assert!(matches!(run.step(10), Step::Idle));
    assert!(!run.retry_due(0, 1));
    assert!(!run.retry_due(5, 0));
    assert!(run.retry_due(0, 0));
    assert!(!run.retry_due(0, 0));
    assert_eq!(run.state_of(0), Some(RetryState::Attempting { attempt: 1 }));
    assert!(matches!(run.step(26), Step::Dispatch { attempt: 1, sub: 0, size: 2, .. }));
    assert!(matches!(run.step(26), Step::Dispatch { attempt: 1, sub: 1, size: 2, .. }));
    assert!(matches!(run.on_reply(0, 0, 0, body("stale", 2), 27), Reaction::Stale));
    assert!(matches!(run.on_reply(0, 1, 0, body("new", 2), 30), Reaction::Recorded));
    match run.on_reply(0, 1, 1, body("newer", 2), 31) {
        Reaction::Succeeded { update, retry_count, generation_time_ms } => {
            assert_eq!(retry_count, 1);
            assert_eq!(update.retries_count, 1);
            assert_eq!(update.entries_generated, 4);
            assert_eq!(generation_time_ms, 31);
        }
        _ => panic!("the second attempt succeeds"),
    }
    assert_eq!(
        instructions(&run.into_entries()),
        vec!["new-0", "new-1", "newer-0", "newer-1"]
    );
}

#[test]
fn body_that_is_no_json_counts_as_a_failure() {
    let mut run =
        GenerationRun::start(config(1, 1, 1, 20), tasks(1, 2, ModelProvider::OpenAI)).unwrap();
    assert!(matches!(run.step(0), Step::Admitted { .. }));
    assert!(matches!(run.step(0), Step::Dispatch { .. }));
    let reply = BackendReply::Body(String::from("<html>502</html>"));
    match run.on_reply(0, 0, 0, reply, 3) {
        Reaction::RetryAfter { delay_ms, error } => {
            assert_eq!(delay_ms, 20);
            assert!(matches!(error, GenerationError::Backend(ref m) if m == UNDECODABLE_BODY));
        }
        _ => panic!("the body cannot be decoded"),
    }
}

#[test]
fn text_that_cannot_be_decoded_is_replaced_and_never_fails_the_request() {
    let mut run =
        GenerationRun::start(config(1, 2, 1, 20), tasks(1, 5, ModelProvider::Ollama)).unwrap();
    assert!(matches!(run.step(0), Step::Admitted { .. }));
    assert!(matches!(run.step(0), Step::Dispatch { sub: 0, size: 2, .. }));
    assert!(matches!(run.step(100), Step::Dispatch { sub: 1, size: 3, .. }));
    let mut document = serde_json::Map::new();
    document.insert(String::from("response"), serde_json::Value::from("I would rather not."));
    let text = serde_json::Value::Object(document).to_string();
    assert!(matches!(run.on_reply(0, 0, 0, BackendReply::Body(text.clone()), 120), Reaction::Recorded));
    assert!(matches!(
        run.on_reply(0, 0, 1, BackendReply::Body(text), 130),
        Reaction::Succeeded { .. }
    ));
    assert_eq!(
        instructions(&run.into_entries()),
        vec![
            "Sample instruction 1",
            "Sample instruction 2",
            "Sample instruction 1",
            "Sample instruction 2",
            "Sample instruction 3"
        ]
    );
}

#[test]
fn answers_that_nobody_awaits_change_nothing() {
    let mut run =
        GenerationRun::start(config(1, 1, 1, 20), tasks(2, 2, ModelProvider::OpenAI)).unwrap();
    assert!(matches!(run.on_reply(0, 0, 0, body("early", 2), 0), Reaction::Stale));
    assert!(matches!(run.step(0), Step::Admitted { task: 0 }));
    assert!(matches!(run.on_reply(0, 0, 0, body("not sent", 2), 0), Reaction::Stale));
    assert!(matches!(run.step(0), Step::Dispatch { task: 0, .. }));
    assert!(matches!(run.on_reply(0, 1, 0, body("wrong attempt", 2), 1), Reaction::Stale));
    assert!(matches!(run.on_reply(0, 0, 4, body("wrong request", 2), 1), Reaction::Stale));
    assert!(matches!(run.on_reply(1, 0, 0, body("not admitted", 2), 1), Reaction::Stale));
    assert!(matches!(run.on_reply(9, 0, 0, body("no such task", 2), 1), Reaction::Stale));
    assert_eq!(run.state_of(0), Some(RetryState::Attempting { attempt: 0 }));
    assert_eq!(run.state_of(1), Some(RetryState::Pending));
    assert_eq!(run.state_of(2), None);
    assert_eq!(run.progress().batches_completed(), 0);
    assert!(!run.is_finished());
}

#[test]
fn configuration_that_cannot_be_run_is_refused() {
    let mut bad = config(2, 1, 3, 100);
    bad.max_concurrent_batches = 0;
    let refused = GenerationRun::start(bad, tasks(1, 1, ModelProvider::OpenAI));
    assert!(matches!(
        refused,
        Err(RunError::InvalidConfiguration(ConfigError::NoConcurrentBatches))
    ));
    let mut bad = config(2, 1, 3, 100);
    bad.max_concurrent_requests_per_batch = 0;
    assert!(matches!(
        GenerationRun::start(bad, Vec::new()),
        Err(RunError::InvalidConfiguration(ConfigError::NoRequestsPerBatch))
    ));
    let mut bad = config(2, 1, 3, 100);
    bad.ollama_requests_per_second = 0;
    assert!(matches!(
        GenerationRun::start(bad, Vec::new()),
        Err(RunError::InvalidConfiguration(ConfigError::NoOllamaRate))
    ));
    let mut bad = config(2, 1, 3, 100);
    bad.openai_requests_per_second = 0;
    assert!(matches!(
        GenerationRun::start(bad, Vec::new()),
        Err(RunError::InvalidConfiguration(ConfigError::NoOpenAiRate))
    ));
}

#[test]
fn tasks_whose_identifiers_are_not_dense_are_refused() {
    let twice = vec![task(0, 1, ModelProvider::OpenAI), task(0, 1, ModelProvider::OpenAI)];
    assert!(matches!(
        GenerationRun::start(config(2, 1, 3, 100), twice),
        Err(RunError::InvalidTasks)
    ));
    let gap = vec![task(0, 1, ModelProvider::OpenAI), task(2, 1, ModelProvider::OpenAI)];
    assert!(matches!(
        GenerationRun::start(config(2, 1, 3, 100), gap),
        Err(RunError::InvalidTasks)
    ));
    let shuffled = vec![
        task(1, 1, ModelProvider::OpenAI),
        task(2, 1, ModelProvider::OpenAI),
        task(0, 1, ModelProvider::OpenAI),
    ];
    assert!(GenerationRun::start(config(2, 1, 3, 100), shuffled).is_ok());
}

#[test]
fn run_without_tasks_is_finished_at_once() {
    let mut run = GenerationRun::start(config(2, 1, 3, 100), Vec::new()).unwrap();
    assert!(run.is_finished());
    assert!(matches!(run.step(0), Step::Idle));
    assert_eq!(run.tasks().len(), 0);
    assert!(run.into_entries().is_empty());
}

#[test]
fn fresh_run_reports_its_configuration_and_tasks() {
    let run = GenerationRun::start(config(2, 1, 3, 100), tasks(3, 10, ModelProvider::Ollama)).unwrap();
    assert_eq!(run.config().max_concurrent_batches, 2);
    assert_eq!(run.config().retry_delay_ms, 100);
    assert_eq!(run.tasks().len(), 3);
    assert_eq!(run.tasks()[2].batch_id, 2);
    assert_eq!(run.permits_held(), 0);
    assert!(!run.is_cancelled());
    assert!(!run.is_finished());
    assert_eq!(run.progress().batches_total(), 3);
    assert_eq!(run.progress().entries(), 0);
}

#[test]
fn tasks_wait_for_a_permit_in_their_order() {
    let mut run =
        GenerationRun::start(config(1, 1, 0, 10), tasks(3, 1, ModelProvider::OpenAI)).unwrap();
    assert!(matches!(run.step(0), Step::Admitted { task: 0 }));
    assert!(matches!(run.step(0), Step::Dispatch { task: 0, .. }));
    assert!(matches!(run.step(0), Step::Idle));
    assert_eq!(run.state_of(1), Some(RetryState::Pending));
    assert!(matches!(run.on_reply(0, 0, 0, body("a", 1), 2), Reaction::Succeeded { .. }));
    assert!(matches!(run.step(2), Step::Admitted { task: 1 }));
    assert!(matches!(run.step(2), Step::Dispatch { task: 1, .. }));
    assert!(matches!(run.step(2), Step::Idle));
    assert_eq!(run.permits_held(), 1);
}
