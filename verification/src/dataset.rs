//! What a backend is told about the shape of the entries of each format.

use crate::types::DatasetFormat;
use vstd::prelude::*;

verus! {

/// The generator that asks for one batch after the other.
pub struct DatasetGenerator;

/// The sentence that describes the fields of an entry in `format`.
pub open spec fn format_prompt(format: DatasetFormat) -> Seq<char> {
    match format {
        DatasetFormat::Alpaca => "Format each as JSON with fields: instruction, input, output."@,
        DatasetFormat::Conversation => "Format each as JSON with a 'messages' array containing objects with 'role' (user/assistant) and 'content' fields."@,
        DatasetFormat::ChainOfThought => "Format each as JSON with fields: question, answer (including step-by-step reasoning)."@,
        DatasetFormat::PreferenceRanking => "Format each as JSON with fields: prompt, chosen, rejected."@,
        DatasetFormat::FunctionCall => "Format each as JSON with fields: messages (conversation), function (name and arguments)."@,
        DatasetFormat::MultiRoundDialogue => "Format each as JSON with fields: instruction, conversation (array of role/content objects)."@,
        DatasetFormat::CodeTask => "Format each as JSON with fields: prompt, code, output."@,
        DatasetFormat::Reflection => "Format each as JSON with fields: instruction, output, reflection, corrected."@,
        DatasetFormat::RetrievalEmbedding => "Format each as JSON with fields: query, positive_passage, negative_passages (array)."@,
        DatasetFormat::Reranking => "Format each as JSON with fields: query, documents (array of text), relevance_scores (array of floats)."@,
    }
}

impl DatasetGenerator {
    /// The sentence of the prompt that fixes the fields of an entry.
    pub fn get_format_prompt(format: &DatasetFormat) -> (prompt: &'static str)
        ensures
            prompt@ == format_prompt(*format),
    {
        match format {
            DatasetFormat::Alpaca => "Format each as JSON with fields: instruction, input, output.",
            DatasetFormat::Conversation => "Format each as JSON with a 'messages' array containing objects with 'role' (user/assistant) and 'content' fields.",
            DatasetFormat::ChainOfThought => "Format each as JSON with fields: question, answer (including step-by-step reasoning).",
            DatasetFormat::PreferenceRanking => "Format each as JSON with fields: prompt, chosen, rejected.",
            DatasetFormat::FunctionCall => "Format each as JSON with fields: messages (conversation), function (name and arguments).",
            DatasetFormat::MultiRoundDialogue => "Format each as JSON with fields: instruction, conversation (array of role/content objects).",
            DatasetFormat::CodeTask => "Format each as JSON with fields: prompt, code, output.",
            DatasetFormat::Reflection => "Format each as JSON with fields: instruction, output, reflection, corrected.",
            DatasetFormat::RetrievalEmbedding => "Format each as JSON with fields: query, positive_passage, negative_passages (array).",
            DatasetFormat::Reranking => "Format each as JSON with fields: query, documents (array of text), relevance_scores (array of floats).",
        }
    }
}

} // verus!
