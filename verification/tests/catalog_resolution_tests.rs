use unified_llm_adapter::catalog::{ModelCatalog, ModelInfo};
use unified_llm_adapter::json::Json;
use unified_llm_adapter::resolution::{
    is_display_model_placeholder, resolve_effective_llm_model, resolve_effective_llm_provider,
    resolve_effective_reasoning_effort, resolve_high_level_provider_and_model, ActiveLlmProfile,
    HighLevelLlmResolutionInputs, LlmResolutionInputs, ModelCapabilities,
};
use unified_llm_adapter::errors::SDKErrorKind;
use unified_llm_adapter::textmap::TextMap;

fn model(id: &str, provider: &str, tools: bool, vision: bool) -> ModelInfo {
    ModelInfo {
        id: id.to_string(),
        provider: provider.to_string(),
        display_name: id.to_string(),
        context_window: None,
        supports_tools: tools,
        supports_vision: vision,
        supports_reasoning: false,
        max_output: None,
        aliases: vec![format!("{id}-alias")],
    }
}

fn catalog() -> ModelCatalog {
    ModelCatalog::new(vec![
        model("gpt-small", "openai", false, false),
        model("gpt-big", "OpenAI", true, true),
        model("atlas", "anthropic", true, false),
    ])
}

fn inputs() -> HighLevelLlmResolutionInputs {
    HighLevelLlmResolutionInputs {
        provider: None,
        model: None,
        active_profile: None,
        client_default_provider: None,
        required_capabilities: ModelCapabilities::default(),
    }
}

#[test]
fn catalog_lists_and_finds_models() {
    let c = catalog();
    assert_eq!(c.list_models(Some(" openai ")).len(), 2);
    assert_eq!(c.list_models(None).len(), 3);
    assert_eq!(c.get_model_info("GPT-BIG-alias").map(|m| m.id), Some("gpt-big".to_string()));
    assert_eq!(c.get_latest_model("openai", Some("supports_vision")).map(|m| m.id), Some("gpt-big".to_string()));
    assert!(c.get_latest_model("openrouter", None).is_none());
}

#[test]
fn explicit_provider_and_model_win() {
    let mut i = inputs();
    i.provider = Some(" OpenAI ".to_string());
    i.model = Some(" gpt-x ".to_string());
    let r = resolve_high_level_provider_and_model(&i, &catalog()).ok().expect("resolved");
    assert_eq!((r.provider.as_str(), r.model.as_str()), ("openai", "gpt-x"));
}

#[test]
fn profile_default_model_and_catalog_fallback() {
    let mut i = inputs();
    i.active_profile = Some(ActiveLlmProfile::new("Anthropic".to_string(), Some("atlas-x".to_string())));
    let r = resolve_high_level_provider_and_model(&i, &catalog()).ok().expect("resolved");
    assert_eq!((r.provider.as_str(), r.model.as_str()), ("anthropic", "atlas-x"));

    let mut j = inputs();
    j.client_default_provider = Some("openai".to_string());
    j.required_capabilities = ModelCapabilities::tools().union(ModelCapabilities::vision());
    let r = resolve_high_level_provider_and_model(&j, &catalog()).ok().expect("resolved");
    assert_eq!(r.model, "gpt-big");
}

#[test]
fn resolution_errors() {
    let e = resolve_high_level_provider_and_model(&inputs(), &catalog()).err().expect("no provider");
    assert_eq!(e.kind, SDKErrorKind::Configuration);
    assert_eq!(e.message, "No provider configured; set request.provider, active profile, or Client.default_provider");

    let mut i = inputs();
    i.provider = Some("openrouter".to_string());
    i.required_capabilities = ModelCapabilities::reasoning();
    let e = resolve_high_level_provider_and_model(&i, &catalog()).err().expect("no model");
    assert_eq!(
        e.message,
        "No model configured for provider \"openrouter\" with the requested capabilities; set request.model or an active profile default_model"
    );
}

#[test]
fn placeholder_is_ignored_as_a_model() {
    assert!(is_display_model_placeholder("  CODEX default (config/profile) "));
    let mut i = inputs();
    i.provider = Some("anthropic".to_string());
    i.model = Some("codex default (config/profile)".to_string());
    let r = resolve_high_level_provider_and_model(&i, &catalog()).ok().expect("resolved");
    assert_eq!(r.model, "atlas");
}

#[test]
fn effective_resolution_uses_launch_context() {
    let base = LlmResolutionInputs {
        node_model: None,
        node_provider: None,
        node_profile: None,
        node_reasoning_effort: Some("HIGH".to_string()),
        node_reasoning_is_default_placeholder: true,
        fallback_model: Some("fallback".to_string()),
        fallback_provider: None,
        fallback_profile: None,
        fallback_reasoning_effort: Some("Low".to_string()),
    };
    let mut ctx = TextMap::new();
    ctx.insert("_attractor.runtime.launch_model".to_string(), Json::Str(" launch ".to_string()));
    ctx.insert("_attractor.runtime.launch_provider".to_string(), Json::Bool(true));
    assert_eq!(resolve_effective_llm_model(&base, &ctx), Some("launch".to_string()));
    assert_eq!(resolve_effective_llm_provider(&base, &ctx), "true");
    assert_eq!(resolve_effective_llm_provider(&base, &TextMap::new()), "codex");
    assert_eq!(resolve_effective_reasoning_effort(&base, &TextMap::new()), Some("low".to_string()));
}

#[test]
fn capability_union_laws_on_values() {
    let a = ModelCapabilities::tools();
    let b = ModelCapabilities::structured_output();
    assert!(a.union(b) == b.union(a));
    assert!(a.union(a) == a);
    assert!(a.union(ModelCapabilities::default()) == a);
}
