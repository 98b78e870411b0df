//! The prompt of one request.

use crate::text::{decimal, decimal_string};
use crate::types::DatasetFormat;
use vstd::prelude::*;
use vstd::string::*;

verus! {

/// The shape of an entry as the prompt shows it: spelled out for the two
/// formats that have sample entries of their own, and left open for the
/// others.
pub open spec fn format_schema(format: DatasetFormat) -> Seq<char> {
    match format {
        DatasetFormat::RetrievalEmbedding => "{\"query\": \"...\", \"positive_passage\": \"...\", \"negative_passages\": [\"...\", \"...\"]}"@,
        DatasetFormat::Alpaca => "{\"instruction\": \"...\", \"input\": \"...\", \"output\": \"...\"}"@,
        _ => "{...}"@,
    }
}

/// The prompt that asks for `count` entries towards `goal`.
pub open spec fn prompt_text(format: DatasetFormat, goal: Seq<char>, count: nat, context: Seq<char>)
    -> Seq<char> {
    "Generate "@ + decimal(count) + " training examples for fine-tuning goal: "@ + goal
        + ". Context: "@ + context
        + ".\n\nReturn only a JSON array of objects matching this exact schema: "@ + format_schema(
        format,
    ) + ".\nDo not use any other format.\nGoal: "@ + goal
}

/// The shape of an entry as the prompt shows it.
pub fn schema_of(format: DatasetFormat) -> (schema: &'static str)
    ensures
        schema@ == format_schema(format),
{
    match format {
        DatasetFormat::RetrievalEmbedding => "{\"query\": \"...\", \"positive_passage\": \"...\", \"negative_passages\": [\"...\", \"...\"]}",
        DatasetFormat::Alpaca => "{\"instruction\": \"...\", \"input\": \"...\", \"output\": \"...\"}",
        _ => "{...}",
    }
}

/// Writes the prompt of a request for `count` entries.
pub fn create_optimized_prompt(format: DatasetFormat, goal: &str, count: usize, context: &str) -> (prompt:
    String)
    ensures
        prompt@ == prompt_text(format, goal@, count as nat, context@),
{
    let mut prompt: String = String::from_str("Generate ");
    let number: String = decimal_string(count);
    prompt.append(number.as_str());
    prompt.append(" training examples for fine-tuning goal: ");
    prompt.append(goal);
    prompt.append(". Context: ");
    prompt.append(context);
    prompt.append(".\n\nReturn only a JSON array of objects matching this exact schema: ");
    prompt.append(schema_of(format));
    prompt.append(".\nDo not use any other format.\nGoal: ");
    prompt.append(goal);
    prompt
}

} // verus!
