use dataset_engine::dataset::DatasetGenerator;
use dataset_engine::models::ModelManager;
use dataset_engine::types::{DatasetFormat, ModelProvider};

#[test]
fn hosted_catalogue_has_four_models() {
    let models = ModelManager::get_openai_models();
    assert_eq!(models.len(), 4);
    let ids: Vec<&str> = models.iter().map(|m| m.id.as_str()).collect();
    assert_eq!(ids, vec!["gpt-4.1-nano", "gpt-4o", "gpt-4o-mini", "gpt-4.1-mini"]);
    let names: Vec<&str> = models.iter().map(|m| m.name.as_str()).collect();
    assert_eq!(names, vec!["GPT-4.1-nano", "GPT-4o", "GPT-4o-mini", "GPT-4.1-mini"]);
    let sizes: Vec<&str> = models.iter().map(|m| m.size.as_str()).collect();
    assert_eq!(sizes, vec!["nano", "multimodal", "efficient", "mini"]);
    let years: Vec<&str> = models.iter().map(|m| m.modified.as_str()).collect();
    assert_eq!(years, vec!["2025", "2024", "2024", "2025"]);
    assert!(models.iter().all(|m| m.provider == ModelProvider::OpenAI));
    assert_eq!(
        models[0].capabilities,
        vec!["text-generation", "instruction-following", "fast-inference"]
    );
    assert_eq!(
        models[1].capabilities,
        vec!["text-generation", "instruction-following", "multimodal"]
    );
    assert_eq!(
        models[3].capabilities,
        vec!["text-generation", "instruction-following", "enhanced-reasoning"]
    );
}

#[test]
fn model_is_found_by_its_identifier() {
    let models = ModelManager::get_openai_models();
    assert_eq!(ModelManager::find_model(&models, "gpt-4o-mini").unwrap().size, "efficient");
    assert_eq!(ModelManager::find_model(&models, "gpt-4o").unwrap().name, "GPT-4o");
    assert!(ModelManager::find_model(&models, "llama3").is_none());
    assert!(ModelManager::find_model(&Vec::new(), "gpt-4o").is_none());
}

#[test]
fn each_format_has_its_sentence() {
    assert_eq!(
        DatasetGenerator::get_format_prompt(&DatasetFormat::Alpaca),
        "Format each as JSON with fields: instruction, input, output."
    );
    assert_eq!(
        DatasetGenerator::get_format_prompt(&DatasetFormat::PreferenceRanking),
        "Format each as JSON with fields: prompt, chosen, rejected."
    );
    assert_eq!(
        DatasetGenerator::get_format_prompt(&DatasetFormat::RetrievalEmbedding),
        "Format each as JSON with fields: query, positive_passage, negative_passages (array)."
    );
    assert_eq!(
        DatasetGenerator::get_format_prompt(&DatasetFormat::Reranking),
        "Format each as JSON with fields: query, documents (array of text), relevance_scores (array of floats)."
    );
    assert_eq!(
        DatasetGenerator::get_format_prompt(&DatasetFormat::CodeTask),
        "Format each as JSON with fields: prompt, code, output."
    );
}
