//! The models that the hosted backend is known to offer.

use crate::types::{Model, ModelProvider};
use vstd::prelude::*;
use vstd::string::*;

verus! {

/// The catalogue of models.
pub struct ModelManager;

/// `model` is the hosted model with these texts, and with the abilities
/// `text-generation`, `instruction-following` and `extra`.
pub open spec fn hosted_model(model: Model, id: &str, name: &str, size: &str, modified: &str, extra: &str)
    -> bool {
    &&& model.id@ == id@
    &&& model.name@ == name@
    &&& model.size@ == size@
    &&& model.modified@ == modified@
    &&& model.provider == ModelProvider::OpenAI
    &&& model.capabilities@.len() == 3
    &&& model.capabilities@[0]@ == "text-generation"@
    &&& model.capabilities@[1]@ == "instruction-following"@
    &&& model.capabilities@[2]@ == extra@
}

fn make_hosted_model(id: &str, name: &str, size: &str, modified: &str, extra: &str) -> (model:
    Model)
    ensures
        hosted_model(model, id, name, size, modified, extra),
{
    let mut capabilities: Vec<String> = Vec::new();
    capabilities.push(String::from_str("text-generation"));
    capabilities.push(String::from_str("instruction-following"));
    capabilities.push(String::from_str(extra));
    Model {
        id: String::from_str(id),
        name: String::from_str(name),
        size: String::from_str(size),
        modified: String::from_str(modified),
        provider: ModelProvider::OpenAI,
        capabilities,
    }
}

impl ModelManager {
    /// The four hosted models, in a fixed order.
    pub fn get_openai_models() -> (models: Vec<Model>)
        ensures
            models.len() == 4,
            hosted_model(models[0], "gpt-4.1-nano", "GPT-4.1-nano", "nano", "2025", "fast-inference"),
            hosted_model(models[1], "gpt-4o", "GPT-4o", "multimodal", "2024", "multimodal"),
            hosted_model(
                models[2],
                "gpt-4o-mini",
                "GPT-4o-mini",
                "efficient",
                "2024",
                "fast-inference",
            ),
            hosted_model(
                models[3],
                "gpt-4.1-mini",
                "GPT-4.1-mini",
                "mini",
                "2025",
                "enhanced-reasoning",
            ),
    {
        let mut models: Vec<Model> = Vec::new();
        models.push(
            make_hosted_model("gpt-4.1-nano", "GPT-4.1-nano", "nano", "2025", "fast-inference"),
        );
        models.push(make_hosted_model("gpt-4o", "GPT-4o", "multimodal", "2024", "multimodal"));
        models.push(
            make_hosted_model("gpt-4o-mini", "GPT-4o-mini", "efficient", "2024", "fast-inference"),
        );
        models.push(
            make_hosted_model("gpt-4.1-mini", "GPT-4.1-mini", "mini", "2025", "enhanced-reasoning"),
        );
        models
    }

    /// The model with the identifier `id` among `models`, the first one
    /// if several have it.
    pub fn find_model<'a>(models: &'a Vec<Model>, id: &str) -> (found: Option<&'a Model>)
        ensures
            found is Some <==> exists|i: int| 0 <= i < models.len() && #[trigger] models[i].id@ == id@,
            found is Some ==> exists|i: int|
                0 <= i < models.len() && *found->Some_0 == #[trigger] models[i] && models[i].id@
                    == id@ && forall|j: int| 0 <= j < i ==> (#[trigger] models[j]).id@ != id@,
    {
        let wanted: String = String::from_str(id);
        let mut i: usize = 0;
        while i < models.len()
            invariant
                i <= models.len(),
                wanted@ == id@,
                forall|j: int| 0 <= j < i ==> (#[trigger] models[j]).id@ != id@,
            decreases models.len() - i,
        {
            if models[i].id == wanted {
                return Some(&models[i]);
            }
            i = i + 1;
        }
        None
    }
}

} // verus!
