//! The numbered sample entries that stand in for a reply that could not
//! be decoded.

use crate::json::{array_value, distinct_names, field_views, json_model, members_of, models_of, object_value, string_value, Json};
use crate::text::{numbered, numbered_string};
use crate::types::{models, DatasetEntry, DatasetFormat};
use vstd::prelude::*;
use vstd::string::*;

verus! {

/// A string that is `label`, a space and `number`.
pub open spec fn sample_string(label: &str, number: nat) -> Json {
    Json::String(numbered(label@, number))
}

/// What the sample entry with the number `number` in `format` holds: a
/// query with its passages for retrieval, and an instruction with input
/// and output for every other format.
pub open spec fn sample_model(format: DatasetFormat, number: nat) -> Json {
    if format == DatasetFormat::RetrievalEmbedding {
        Json::Object(
            map![
                "query"@ => sample_string("Sample query", number),
                "positive_passage"@ => sample_string("Relevant passage", number),
                "negative_passages"@ => Json::Array(
                    seq![
                        sample_string("Irrelevant passage", number),
                        sample_string("Another irrelevant passage", number),
                    ],
                ),
            ],
        )
    } else {
        Json::Object(
            map![
                "instruction"@ => sample_string("Sample instruction", number),
                "input"@ => sample_string("Sample input context", number),
                "output"@ => sample_string("Sample response output", number),
            ],
        )
    }
}

/// What `count` sample entries in `format` hold, numbered from one.
pub open spec fn sample_models(format: DatasetFormat, count: nat) -> Seq<Json> {
    Seq::new(count, |i: int| sample_model(format, (i + 1) as nat))
}

fn sample_text(label: &str, number: usize) -> (value: serde_json::Value)
    ensures
        json_model(value) == sample_string(label, number as nat),
{
    string_value(numbered_string(label, number))
}

fn make_field(name: &str, label: &str, number: usize) -> (field: (String, serde_json::Value))
    ensures
        field.0@ == name@,
        json_model(field.1) == sample_string(label, number as nat),
{
    (String::from_str(name), sample_text(label, number))
}

/// The sample entry with the number `number` in `format`.
pub fn sample_entry(format: DatasetFormat, number: usize) -> (entry: DatasetEntry)
    ensures
        entry@ == sample_model(format, number as nat),
{
    proof {
        reveal_strlit("query");
        reveal_strlit("positive_passage");
        reveal_strlit("negative_passages");
        reveal_strlit("instruction");
        reveal_strlit("input");
        reveal_strlit("output");
        reveal_with_fuel(members_of, 4);
    }
    let mut fields: Vec<(String, serde_json::Value)> = Vec::new();
    match format {
        DatasetFormat::RetrievalEmbedding => {
            fields.push(make_field("query", "Sample query", number));
            fields.push(make_field("positive_passage", "Relevant passage", number));
            let mut passages: Vec<serde_json::Value> = Vec::new();
            passages.push(sample_text("Irrelevant passage", number));
            passages.push(sample_text("Another irrelevant passage", number));
            assert(models_of(passages@) =~= seq![
                sample_string("Irrelevant passage", number as nat),
                sample_string("Another irrelevant passage", number as nat),
            ]);
            fields.push((String::from_str("negative_passages"), array_value(passages)));
            assert(members_of(field_views(fields@), 3) =~= map![
                "query"@ => sample_string("Sample query", number as nat),
                "positive_passage"@ => sample_string("Relevant passage", number as nat),
                "negative_passages"@ => Json::Array(
                    seq![
                        sample_string("Irrelevant passage", number as nat),
                        sample_string("Another irrelevant passage", number as nat),
                    ],
                ),
            ]);
            assert("query"@.len() == 5 && "positive_passage"@.len() == 16
                && "negative_passages"@.len() == 17);
            assert(distinct_names(field_views(fields@)));
        },
        _ => {
            fields.push(make_field("instruction", "Sample instruction", number));
            fields.push(make_field("input", "Sample input context", number));
            fields.push(make_field("output", "Sample response output", number));
            assert(members_of(field_views(fields@), 3) =~= map![
                "instruction"@ => sample_string("Sample instruction", number as nat),
                "input"@ => sample_string("Sample input context", number as nat),
                "output"@ => sample_string("Sample response output", number as nat),
            ]);
            assert("instruction"@.len() == 11 && "input"@.len() == 5 && "output"@.len() == 6);
            assert(distinct_names(field_views(fields@)));
        },
    }
    DatasetEntry { data: object_value(fields) }
}

/// `count` sample entries in `format`, numbered from one: what a reply
/// that cannot be decoded is replaced with.
pub fn generate_fallback_entries(format: DatasetFormat, count: usize) -> (entries: Vec<
    DatasetEntry,
>)
    ensures
        models(entries@) == sample_models(format, count as nat),
        entries.len() == count,
{
    let mut entries: Vec<DatasetEntry> = Vec::new();
    let mut i: usize = 0;
    while i < count
        invariant
            i <= count,
            entries.len() == i,
            forall|k: int|
                0 <= k < i ==> (#[trigger] entries[k])@ == sample_model(format, (k + 1) as nat),
        decreases count - i,
    {
        entries.push(sample_entry(format, i + 1));
        i = i + 1;
    }
    assert(models(entries@) =~= sample_models(format, count as nat));
    entries
}

} // verus!
