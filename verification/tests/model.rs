use openrouter_api::model::{
    Architecture, Capabilities, Model, OpenAIModel, OpenAIModelList, OpenAIPricing, Pricing,
    TopProvider,
};

fn model(id: &str) -> Model {
    Model {
        id: id.to_string(),
        name: "Plain".to_string(),
        created: 0,
        description: None,
        context_length: None,
        pricing: None,
        architecture: None,
        top_provider: None,
        supported_parameters: None,
    }
}

fn priced(id: &str, prompt: Option<&str>, completion: Option<&str>) -> Model {
    let mut m = model(id);
    m.pricing = Some(Pricing {
        prompt: prompt.map(|s| s.to_string()),
        completion: completion.map(|s| s.to_string()),
        request: None,
        image: None,
    });
    m
}

fn with_params(id: &str, params: &[&str]) -> Model {
    let mut m = model(id);
    m.supported_parameters = Some(params.iter().map(|s| s.to_string()).collect());
    m
}

fn with_modality(id: &str, modality: Option<&str>) -> Model {
    let mut m = model(id);
    m.architecture = Some(Architecture { modality: modality.map(|s| s.to_string()), tokenizer: None, instruct_type: None });
    m
}

#[test]
fn free_is_by_suffix_or_by_zero_prices() {
    assert!(model("vendor/a:free").is_free());
    assert!(!model("vendor/a").is_free());
    assert!(!model("vendor/a:free:beta").is_free());
    assert!(priced("vendor/a", Some("0"), Some("0")).is_free());
    assert!(!priced("vendor/a", Some("0"), Some("0.1")).is_free());
    assert!(!priced("vendor/a", Some("0"), None).is_free());
    assert!(!priced("vendor/a", Some("0.0"), Some("0")).is_free());
    assert!(priced("vendor/a:free", Some("1"), Some("1")).is_free());
}

#[test]
fn stealth_is_by_keyword_in_any_case_or_by_prefix() {
    let mut m = model("vendor/a");
    assert!(!m.is_stealth());
    m.name = "A STEALTH model".to_string();
    assert!(m.is_stealth());
    m.name = "Plain".to_string();
    m.description = Some("This is a Cloaked model".to_string());
    assert!(m.is_stealth());
    m.description = Some("nothing to see".to_string());
    assert!(!m.is_stealth());
    assert!(model("stealth/x").is_stealth());
    assert!(!model("vendor/stealth/x").is_stealth());
    assert!(!model("Stealth/x").is_stealth());
}

#[test]
fn router_is_by_identifier_or_by_negative_price() {
    for id in ["openrouter/auto", "openrouter/free", "openrouter/bodybuilder", "switchpoint/router"] {
        assert!(model(id).is_meta_router());
    }
    assert!(!model("openrouter/auto:free").is_meta_router());
    assert!(!model("vendor/a").is_meta_router());
    assert!(priced("vendor/a", Some("-1"), Some("0")).is_meta_router());
    assert!(priced("vendor/a", None, Some("-1")).is_meta_router());
    assert!(!priced("vendor/a", Some("1"), Some("0")).is_meta_router());
}

#[test]
fn parameters_are_looked_up_by_name() {
    let m = with_params("vendor/a", &["tools", "stream"]);
    assert!(m.has_param("tools"));
    assert!(m.has_param("stream"));
    assert!(!m.has_param("tool"));
    assert!(!m.has_param("tool_choice"));
    assert!(!model("vendor/a").has_param("tools"));
    assert!(!with_params("vendor/a", &[]).has_param("tools"));
}

#[test]
fn vision_is_by_modality() {
    assert!(with_modality("a", Some("text+image->text")).supports_vision());
    assert!(!with_modality("a", Some("text->text")).supports_vision());
    assert!(!with_modality("a", Some("Image")).supports_vision());
    assert!(!with_modality("a", None).supports_vision());
    assert!(!model("a").supports_vision());
}

#[test]
fn capabilities_follow_parameters_and_modality() {
    let mut m = with_params("a", &["tools", "response_format", "parallel_tool_calls"]);
    m.architecture = Some(Architecture { modality: Some("image".to_string()), tokenizer: None, instruct_type: None });
    assert_eq!(
        m.capabilities(),
        Capabilities { tools: true, tool_choice: false, parallel_tool_calls: true, json_mode: true, streaming: false, vision: true }
    );
    assert_eq!(
        model("a").capabilities(),
        Capabilities { tools: false, tool_choice: false, parallel_tool_calls: false, json_mode: false, streaming: false, vision: false }
    );
}

#[test]
fn display_id_drops_suffix_and_provider() {
    assert_eq!(model("vendor/model-x:free").display_id(), "model-x");
    assert_eq!(model("vendor/model-x").display_id(), "model-x");
    assert_eq!(model("model-x").display_id(), "model-x");
    assert_eq!(model("a/b/c:free").display_id(), "c");
    assert_eq!(model("vendor/").display_id(), "");
    assert_eq!(model(":free").display_id(), "");
    assert_eq!(model("vendor/x:free:free").display_id(), "x:free");
    assert_eq!(model("").display_id(), "");
}

#[test]
fn model_is_named_by_either_identifier() {
    let m = model("vendor/model-x:free");
    assert!(m.matches_display_id("vendor/model-x:free"));
    assert!(m.matches_display_id("model-x"));
    assert!(!m.matches_display_id("vendor/model-x"));
    assert!(!m.matches_display_id("model-x:free"));
    assert!(!m.matches_display_id(""));
}

#[test]
fn provider_stands_before_the_first_slash() {
    assert_eq!(model("vendor/model").provider(), "vendor");
    assert_eq!(model("a/b/c").provider(), "a");
    assert_eq!(model("model").provider(), "model");
    assert_eq!(model("/model").provider(), "");
    assert_eq!(model("").provider(), "");
}

#[test]
fn shown_model_carries_what_clients_see() {
    let mut m = priced("vendor/model-x:free", Some("0"), None);
    m.created = 1700000000;
    m.context_length = Some(8192);
    m.top_provider = Some(TopProvider { context_length: Some(4096), max_completion_tokens: Some(1024), is_moderated: Some(true) });
    m.supported_parameters = Some(vec!["tools".to_string()]);
    assert_eq!(
        m.to_openai(),
        OpenAIModel {
            id: "model-x".to_string(),
            object: "model".to_string(),
            created: 1700000000,
            owned_by: "vendor".to_string(),
            context_length: Some(8192),
            max_completion_tokens: Some(1024),
            capabilities: Capabilities { tools: true, tool_choice: false, parallel_tool_calls: false, json_mode: false, streaming: false, vision: false },
            pricing: Some(OpenAIPricing { prompt: "0".to_string(), completion: String::new() }),
        }
    );
    let bare = model("x").to_openai();
    assert_eq!(bare.pricing, None);
    assert_eq!(bare.max_completion_tokens, None);
    assert_eq!(bare.owned_by, "x");
}

#[test]
fn classify_sorts_usable_models_into_tiers() {
    let mut both = model("vendor/both:free");
    both.name = "Stealth thing".to_string();
    let all = vec![
        model("vendor/paid"),
        model("vendor/a:free"),
        model("stealth/b"),
        model("openrouter/free"),
        priced("vendor/router:free", Some("-1"), Some("-1")),
        both,
        priced("vendor/zero", Some("0"), Some("0")),
    ];
    let (free, stealth) = Model::classify(&all);
    assert_eq!(free.iter().map(|m| m.id.as_str()).collect::<Vec<&str>>(), vec!["vendor/a:free", "vendor/both:free", "vendor/zero"]);
    assert_eq!(stealth.iter().map(|m| m.id.as_str()).collect::<Vec<&str>>(), vec!["stealth/b", "vendor/both:free"]);
    assert_eq!(free[2], all[6]);
    let (free, stealth) = Model::classify(&[]);
    assert!(free.is_empty() && stealth.is_empty());
}

#[test]
fn list_shows_the_models_in_order() {
    let list = OpenAIModelList::from_models(&[model("a/x:free"), model("b/y")]);
    assert_eq!(list.object, "list");
    assert_eq!(list.data.iter().map(|m| m.id.as_str()).collect::<Vec<&str>>(), vec!["x", "y"]);
    assert_eq!(list.data[1], model("b/y").to_openai());
    let empty = OpenAIModelList::from_models(&[]);
    assert_eq!(empty.object, "list");
    assert!(empty.data.is_empty());
}

#[test]
fn copy_of_a_model_is_equal() {
    let mut m = priced("vendor/a", Some("1"), None);
    m.description = Some("d".to_string());
    m.supported_parameters = Some(vec!["tools".to_string(), "stream".to_string()]);
    m.architecture = Some(Architecture { modality: Some("text".to_string()), tokenizer: Some("t".to_string()), instruct_type: None });
    assert_eq!(m.deep_clone(), m);
}
