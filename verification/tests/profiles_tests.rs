use unified_llm_adapter::profiles::{
    get_llm_profile, llm_profiles_path, load_llm_profiles_from_text, require_profile_id, LlmProfile, LlmProfileConfigRoot,
};
use unified_llm_adapter::textmap::TextMap;

const CONFIG: &str = r#"
[profiles.local]
provider = "OpenAI_Compatible"
base_url = " http://localhost:1234/v1 "
models = ["llama", " qwen "]
default_model = "qwen"
api_key_env = "LOCAL_KEY"
"#;

#[test]
fn profiles_load_from_toml_text() {
    let profiles = load_llm_profiles_from_text(CONFIG).ok().expect("valid config");
    let p = profiles.get("local").expect("local profile");
    assert_eq!(p.provider, "openai_compatible");
    assert_eq!(p.base_url, "http://localhost:1234/v1");
    assert_eq!(p.models, vec!["llama".to_string(), "qwen".to_string()]);
    assert_eq!(p.default_model.as_deref(), Some("qwen"));
    assert_eq!(p.label, None);
}

#[test]
fn profile_errors_name_the_problem() {
    let bad = "[profiles.x]\nprovider = \"openai\"\nbase_url = \"u\"\nmodels = [\"m\"]\n";
    let e = load_llm_profiles_from_text(bad).err().expect("unsupported provider");
    assert_eq!(e.message(), "LLM profile 'x' has unsupported provider 'openai'; supported providers: openai_compatible.");
    let bad = "[profiles.x]\nprovider = \"openai_compatible\"\nbase_url = \"u\"\nmodels = [\"m\"]\ndefault_model = \"n\"\n";
    let e = load_llm_profiles_from_text(bad).err().expect("unknown default");
    assert_eq!(e.message(), "LLM profile 'x' default_model 'n' is not listed in models.");
    let e = load_llm_profiles_from_text("profiles = 3").err().expect("not a table");
    assert_eq!(e.message(), "LLM profile config must contain a [profiles] table.");
    let e = load_llm_profiles_from_text("[profiles").err().expect("bad toml");
    assert!(e.message().starts_with("Invalid LLM profile config: "));
    assert_eq!(load_llm_profiles_from_text("").ok().map(|m| m.len()), Some(0));
}

#[test]
fn profile_lookup_and_configuration() {
    let mut profiles = load_llm_profiles_from_text(CONFIG).ok().expect("valid config");
    assert_eq!(require_profile_id("  ").err().map(|e| e.message().to_string()), Some("LLM profile id is required.".to_string()));
    let missing = get_llm_profile(&mut profiles, "other").err().expect("missing");
    assert_eq!(missing.message(), "LLM profile 'other' was not found.");
    let p: LlmProfile = get_llm_profile(&mut profiles, " local ").ok().expect("found");
    let mut env = TextMap::new();
    assert!(!p.configured(&env));
    env.insert("LOCAL_KEY".to_string(), "secret".to_string());
    assert!(p.configured(&env));
    assert!(p.configured_given(Some("k")));
    assert!(!p.configured_given(Some("  ")));
}

#[test]
fn profile_paths() {
    assert_eq!(llm_profiles_path("/etc/spark"), "/etc/spark/llm-profiles.toml");
    assert_eq!(llm_profiles_path("/etc/spark/"), "/etc/spark/llm-profiles.toml");
    assert_eq!(llm_profiles_path(""), "llm-profiles.toml");
    assert_eq!(LlmProfileConfigRoot::new("/x".to_string()).config_dir(), "/x");
}
