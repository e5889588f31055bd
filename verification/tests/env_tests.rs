use unified_llm_adapter::env::ProviderEnvironment;
use unified_llm_adapter::textmap::TextMap;

fn env_of(pairs: &[(&str, &str)]) -> TextMap<String> {
    let mut m = TextMap::new();
    for (k, v) in pairs {
        m.insert(k.to_string(), v.to_string());
    }
    m
}

#[test]
fn from_env_map_configures_openai_with_defaults() {
    let env = env_of(&[("OPENAI_API_KEY", " sk-1 "), ("OPENAI_ORG_ID", "org")]);
    let e = ProviderEnvironment::from_env_map(&env, None);
    let openai = e.providers.get("openai").expect("openai configured");
    assert_eq!(openai.api_key.as_deref(), Some("sk-1"));
    assert_eq!(openai.base_url.as_deref(), Some("https://api.openai.com/v1"));
    assert_eq!(openai.options.get("organization").map(|s| s.as_str()), Some("org"));
    assert_eq!(e.default_provider.as_deref(), Some("openai"));
}

#[test]
fn from_env_map_prefers_explicit_default_and_gemini_fallback_key() {
    let env = env_of(&[("GOOGLE_API_KEY", "g"), ("ANTHROPIC_API_KEY", "a"), ("ANTHROPIC_BASE_URL", "https://proxy.test/messages")]);
    let e = ProviderEnvironment::from_env_map(&env, Some(" Gemini "));
    assert_eq!(e.default_provider.as_deref(), Some("gemini"));
    let gemini = e.providers.get("gemini").expect("gemini configured");
    assert_eq!(gemini.base_url.as_deref(), Some("https://generativelanguage.googleapis.com/v1beta"));
    let anthropic = e.providers.get("anthropic").expect("anthropic configured");
    assert_eq!(anthropic.base_url.as_deref(), Some("https://proxy.test/v1"));
}

#[test]
fn from_env_map_with_nothing_configured() {
    let e = ProviderEnvironment::from_env_map(&TextMap::new(), None);
    assert_eq!(e.providers.len(), 0);
    assert_eq!(e.default_provider, None);
}

#[test]
fn blank_keys_do_not_configure_a_provider() {
    let env = env_of(&[("OPENAI_API_KEY", "   "), ("OPENAI_COMPATIBLE_BASE_URL", "http://localhost:8000/chat/completions")]);
    let e = ProviderEnvironment::from_env_map(&env, None);
    assert!(e.providers.get("openai").is_none());
    let c = e.providers.get("openai_compatible").expect("compatible configured");
    assert_eq!(c.base_url.as_deref(), Some("http://localhost:8000/v1"));
    assert_eq!(c.options.get("require_api_key").map(|s| s.as_str()), Some("false"));
    assert_eq!(e.default_provider.as_deref(), Some("openai_compatible"));
}
