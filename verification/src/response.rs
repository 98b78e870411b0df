//! From the body of a backend's answer to the text that the model wrote.
//!
//! Both backend families answer with a JSON document; they differ in where
//! the text stands in it.

use crate::json::{element, element_of, json_model, json_parse, member, member_of, parse_document, text_in, text_of, Json};
use crate::parser::{parse_generated_entries, reply_entries};
use crate::types::{models, DatasetEntry, DatasetFormat, GenerationError, ModelProvider};
use vstd::prelude::*;
use vstd::string::*;
use vstd::utf8::*;

verus! {

/// What is reported of an answer whose body is no JSON document.
pub const UNDECODABLE_BODY: &'static str = "response body is not a JSON document";

/// The string member `name` of `json`, if there is one.
pub open spec fn text_member(json: Json, name: Seq<char>) -> Option<Seq<char>> {
    match member_of(json, name) {
        Some(inner) => text_in(inner),
        None => None,
    }
}

/// Where a local model server puts the text: the member `response`.
pub open spec fn ollama_text(document: Json) -> Option<Seq<char>> {
    text_member(document, "response"@)
}

/// Where a hosted chat service puts the text: `content` of `message` of
/// the first of `choices`.
pub open spec fn openai_text(document: Json) -> Option<Seq<char>> {
    match member_of(document, "choices"@) {
        Some(choices) => match element_of(choices, 0) {
            Some(choice) => match member_of(choice, "message"@) {
                Some(message) => text_member(message, "content"@),
                None => None,
            },
            None => None,
        },
        None => None,
    }
}

/// The text that the document of a backend of `provider` carries, and the
/// empty array `[]` where it carries none.
pub open spec fn document_text(provider: ModelProvider, document: Json) -> Seq<char> {
    let found = match provider {
        ModelProvider::Ollama => ollama_text(document),
        ModelProvider::OpenAI => openai_text(document),
    };
    match found {
        Some(text) => text,
        None => "[]"@,
    }
}

/// The text that the body `body` of a backend of `provider` carries, if
/// the body is a JSON document at all.
pub open spec fn generated_text(provider: ModelProvider, body: Seq<u8>) -> Option<Seq<char>> {
    match json_parse(body) {
        Some(document) => Some(document_text(provider, document)),
        None => None,
    }
}

fn member_text<'a>(value: &'a serde_json::Value, name: &str) -> (r: Option<&'a str>)
    ensures
        r is Some <==> text_member(json_model(*value), name@) is Some,
        r is Some ==> text_member(json_model(*value), name@) == Some(r->Some_0@),
{
    match member(value, name) {
        Some(inner) => text_of(inner),
        None => None,
    }
}

fn find_openai_text<'a>(document: &'a serde_json::Value) -> (r: Option<&'a str>)
    ensures
        r is Some <==> openai_text(json_model(*document)) is Some,
        r is Some ==> openai_text(json_model(*document)) == Some(r->Some_0@),
{
    match member(document, "choices") {
        Some(choices) => match element(choices, 0) {
            Some(choice) => match member(choice, "message") {
                Some(message) => member_text(message, "content"),
                None => None,
            },
            None => None,
        },
        None => None,
    }
}

/// The text that a decoded answer carries.
pub fn text_of_document(provider: ModelProvider, document: &serde_json::Value) -> (text: String)
    ensures
        text@ == document_text(provider, json_model(*document)),
{
    let found: Option<&str> = match provider {
        ModelProvider::Ollama => member_text(document, "response"),
        ModelProvider::OpenAI => find_openai_text(document),
    };
    match found {
        Some(text) => String::from_str(text),
        None => String::from_str("[]"),
    }
}

/// The text that the model wrote, out of the body of a successful answer.
/// A body that is no JSON document is a failure of the backend.
pub fn extract_generated_text(provider: ModelProvider, body: &[u8]) -> (r: Result<
    String,
    GenerationError,
>)
    ensures
        r is Ok <==> generated_text(provider, body@) is Some,
        r is Ok ==> Some(r->Ok_0@) == generated_text(provider, body@),
        r is Err ==> r->Err_0 is Backend && r->Err_0->Backend_0@ == UNDECODABLE_BODY@,
{
    match parse_document(body) {
        Ok(document) => Ok(text_of_document(provider, &document)),
        Err(_) => Err(GenerationError::Backend(String::from_str(UNDECODABLE_BODY))),
    }
}

/// What the entries hold that the body of a successful answer stands
/// for: those of the text it carries. Only a body that is no JSON document
/// fails.
pub open spec fn body_entries(
    provider: ModelProvider,
    body: Seq<u8>,
    expected_count: nat,
    format: DatasetFormat,
) -> Option<Seq<Json>> {
    match generated_text(provider, body) {
        Some(text) => Some(reply_entries(encode_utf8(text), expected_count, format)),
        None => None,
    }
}

/// The entries of one answered request.
pub fn entries_from_body(
    provider: ModelProvider,
    body: &[u8],
    expected_count: usize,
    format: DatasetFormat,
) -> (r: Result<Vec<DatasetEntry>, GenerationError>)
    ensures
        r is Ok <==> body_entries(provider, body@, expected_count as nat, format) is Some,
        r is Ok ==> Some(models(r->Ok_0@)) == body_entries(
            provider,
            body@,
            expected_count as nat,
            format,
        ),
        r is Err ==> r->Err_0 is Backend && r->Err_0->Backend_0@ == UNDECODABLE_BODY@,
{
    match extract_generated_text(provider, body) {
        Ok(text) => Ok(parse_generated_entries(text.as_str(), expected_count, format)),
        Err(error) => Err(error),
    }
}

} // verus!
