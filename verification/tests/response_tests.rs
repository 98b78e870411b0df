use dataset_engine::response::{entries_from_body, extract_generated_text, text_of_document, UNDECODABLE_BODY};
use dataset_engine::types::{DatasetFormat, GenerationError, ModelProvider};

fn object(fields: Vec<(&str, serde_json::Value)>) -> serde_json::Value {
    let mut map = serde_json::Map::new();
    for (name, value) in fields {
        map.insert(name.to_string(), value);
    }
    serde_json::Value::Object(map)
}

fn openai_body(content: serde_json::Value) -> String {
    let message = object(vec![("role", serde_json::Value::from("assistant")), ("content", content)]);
    let choice = object(vec![("index", serde_json::Value::from(0)), ("message", message)]);
    object(vec![("choices", serde_json::Value::Array(vec![choice]))]).to_string()
}

#[test]
fn local_server_puts_the_text_in_response() {
    let body = object(vec![
        ("model", serde_json::Value::from("llama3")),
        ("response", serde_json::Value::from("[{\"a\": 1}]")),
    ])
    .to_string();
    let text = extract_generated_text(ModelProvider::Ollama, body.as_bytes());
    assert_eq!(text.unwrap(), "[{\"a\": 1}]");
}

#[test]
fn hosted_service_puts_the_text_in_the_first_choice() {
    let body = openai_body(serde_json::Value::from("the text"));
    let text = extract_generated_text(ModelProvider::OpenAI, body.as_bytes());
    assert_eq!(text.unwrap(), "the text");
}

#[test]
fn each_backend_is_read_in_its_own_place() {
    let body = openai_body(serde_json::Value::from("the text"));
    let text = extract_generated_text(ModelProvider::Ollama, body.as_bytes());
    assert_eq!(text.unwrap(), "[]");
    let body = object(vec![("response", serde_json::Value::from("local"))]).to_string();
    let text = extract_generated_text(ModelProvider::OpenAI, body.as_bytes());
    assert_eq!(text.unwrap(), "[]");
}

#[test]
fn document_without_text_stands_for_an_empty_array() {
    let body = object(vec![("response", serde_json::Value::from(17))]).to_string();
    assert_eq!(extract_generated_text(ModelProvider::Ollama, body.as_bytes()).unwrap(), "[]");
    let body = openai_body(serde_json::Value::Null);
    assert_eq!(extract_generated_text(ModelProvider::OpenAI, body.as_bytes()).unwrap(), "[]");
    let body = object(vec![("choices", serde_json::Value::Array(Vec::new()))]).to_string();
    assert_eq!(extract_generated_text(ModelProvider::OpenAI, body.as_bytes()).unwrap(), "[]");
    assert_eq!(extract_generated_text(ModelProvider::OpenAI, b"[1, 2]").unwrap(), "[]");
    let document = serde_json::Value::from("just a string");
    assert_eq!(text_of_document(ModelProvider::Ollama, &document), "[]");
}

#[test]
fn body_that_is_no_json_is_a_backend_failure() {
    let result = extract_generated_text(ModelProvider::Ollama, b"<html>Bad Gateway</html>");
    assert!(matches!(result, Err(GenerationError::Backend(ref m)) if m == UNDECODABLE_BODY));
    let result = extract_generated_text(ModelProvider::OpenAI, b"");
    assert!(matches!(result, Err(GenerationError::Backend(ref m)) if m == UNDECODABLE_BODY));
    assert_eq!(UNDECODABLE_BODY, "response body is not a JSON document");
}

#[test]
fn entries_come_from_the_text_of_the_body() {
    let body = object(vec![(
        "response",
        serde_json::Value::from("Sure! [{\"instruction\": \"x\"}, {\"instruction\": \"y\"}]"),
    )])
    .to_string();
    let entries =
        entries_from_body(ModelProvider::Ollama, body.as_bytes(), 5, DatasetFormat::Alpaca).unwrap();
    assert_eq!(entries.len(), 2);
    assert_eq!(entries[1].data.get("instruction").unwrap().as_str(), Some("y"));
}

#[test]
fn body_without_usable_text_yields_samples() {
    let body = object(vec![("response", serde_json::Value::from("no array here"))]).to_string();
    let entries =
        entries_from_body(ModelProvider::Ollama, body.as_bytes(), 4, DatasetFormat::Alpaca).unwrap();
    assert_eq!(entries.len(), 4);
    assert_eq!(
        entries[3].data.get("instruction").unwrap().as_str(),
        Some("Sample instruction 4")
    );
    let body = object(vec![("done", serde_json::Value::from(true))]).to_string();
    let entries =
        entries_from_body(ModelProvider::Ollama, body.as_bytes(), 2, DatasetFormat::Alpaca).unwrap();
    assert_eq!(entries.len(), 2);
}

#[test]
fn undecodable_body_yields_no_entries_but_an_error() {
    let result = entries_from_body(ModelProvider::OpenAI, b"{oops", 4, DatasetFormat::Alpaca);
    assert!(matches!(result, Err(GenerationError::Backend(_))));
}
