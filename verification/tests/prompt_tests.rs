use dataset_engine::prompt::{create_optimized_prompt, schema_of};
use dataset_engine::types::DatasetFormat;

#[test]
fn prompt_names_the_count_the_goal_the_context_and_the_schema() {
    let prompt = create_optimized_prompt(DatasetFormat::Alpaca, "teach sums", 12, "first batch");
    assert_eq!(
        prompt,
        "Generate 12 training examples for fine-tuning goal: teach sums. Context: first batch.\n\nReturn only a JSON array of objects matching this exact schema: {\"instruction\": \"...\", \"input\": \"...\", \"output\": \"...\"}.\nDo not use any other format.\nGoal: teach sums"
    );
}

#[test]
fn retrieval_prompt_shows_a_query_with_its_passages() {
    let prompt = create_optimized_prompt(DatasetFormat::RetrievalEmbedding, "g", 1, "c");
    assert_eq!(
        prompt,
        "Generate 1 training examples for fine-tuning goal: g. Context: c.\n\nReturn only a JSON array of objects matching this exact schema: {\"query\": \"...\", \"positive_passage\": \"...\", \"negative_passages\": [\"...\", \"...\"]}.\nDo not use any other format.\nGoal: g"
    );
}

#[test]
fn other_formats_leave_the_schema_open() {
    assert_eq!(schema_of(DatasetFormat::Conversation), "{...}");
    assert_eq!(schema_of(DatasetFormat::Reranking), "{...}");
    let prompt = create_optimized_prompt(DatasetFormat::CodeTask, "", 0, "");
    assert_eq!(
        prompt,
        "Generate 0 training examples for fine-tuning goal: . Context: .\n\nReturn only a JSON array of objects matching this exact schema: {...}.\nDo not use any other format.\nGoal: "
    );
}
