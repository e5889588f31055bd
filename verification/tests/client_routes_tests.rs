use unified_llm_adapter::client_routes::{provider_table, ClientRoutes, CloseTarget, ResolvedRoute};
use unified_llm_adapter::errors::SDKErrorKind;

fn names(v: &[&str]) -> Vec<String> {
    v.iter().map(|s| s.to_string()).collect()
}

#[test]
fn client_routes_normalize_and_refuse_provider_names() {
    let table = provider_table(&names(&[" OpenAI ", "anthropic"])).expect("table");
    assert_eq!(table, vec!["openai".to_string(), "anthropic".to_string()]);
    let e = provider_table(&names(&["openai", "OPENAI"])).unwrap_err();
    assert_eq!(e.kind, SDKErrorKind::Configuration);
    assert_eq!(e.message, "Duplicate provider \"openai\"");
    let e = provider_table(&names(&["openai", "  "])).unwrap_err();
    assert_eq!(e.message, "Provider name must not be empty");
}

#[test]
fn client_routes_default_provider_must_be_known() {
    let t = ClientRoutes::from_provider_names(&names(&["openai"]), Some(" OpenAI")).expect("routes");
    assert_eq!(t.default_provider(), Some("openai"));
    let e = ClientRoutes::from_provider_names(&names(&["openai"]), Some("gemini")).err().expect("refused");
    assert_eq!(e.message, "Unknown default provider \"gemini\"");
}

#[test]
fn client_routes_profiles_route_requests() {
    let mut t = ClientRoutes::from_provider_names(&names(&["openai", "anthropic"]), None).expect("routes");
    t.insert_llm_profile_route(" Fast ", "OpenAI_Compatible", Some("m-1".to_string()), true).expect("added");
    t.insert_llm_profile_route("broken", "openai_compatible", None, false).expect("added");

    match t.resolve_provider(Some("FAST")).expect("resolved") {
        ResolvedRoute::Profile { key, provider_name } => {
            assert_eq!(key, "fast");
            assert_eq!(provider_name, "openai_compatible");
        },
        other => panic!("unexpected {:?}", other),
    }
    assert!(matches!(t.resolve_provider(Some("broken")).expect("resolved"), ResolvedRoute::Unavailable { .. }));
    assert!(matches!(t.resolve_provider(Some("anthropic")).expect("resolved"), ResolvedRoute::Provider { .. }));
    assert_eq!(t.resolve_provider(Some("gemini")).unwrap_err().message, "Unknown provider \"gemini\"");
    assert_eq!(
        t.resolve_provider(None).unwrap_err().message,
        "No provider configured; set request.provider or Client.default_provider"
    );

    assert_eq!(t.routed_provider_for_selector("fast").as_deref(), Some("openai_compatible"));
    assert_eq!(t.routed_provider_for_selector(" Gemini ").as_deref(), Some("gemini"));
    assert_eq!(t.routed_provider_for_selector("  "), None);

    let route = t.require_llm_profile(" fast ").expect("route");
    assert_eq!(route.id, "Fast");
    assert_eq!(route.default_model.as_deref(), Some("m-1"));
    assert_eq!(t.require_llm_profile("slow").unwrap_err().message, "LLM profile 'slow' was not found.");
    assert_eq!(t.require_llm_profile(" ").unwrap_err().message, "LLM profile id is required.");
}

#[test]
fn client_routes_refuse_conflicting_profiles() {
    let mut t = ClientRoutes::from_provider_names(&names(&["openai"]), None).expect("routes");
    let e = t.insert_llm_profile_route("OpenAI", "openai_compatible", None, true).unwrap_err();
    assert_eq!(e.message, "LLM profile 'OpenAI' conflicts with a configured provider");
    t.insert_llm_profile_route("fast", "openai_compatible", None, true).expect("added");
    let e = t.insert_llm_profile_route("FAST", "openai_compatible", None, true).unwrap_err();
    assert_eq!(e.message, "Duplicate LLM profile \"FAST\"");
    let e = t.insert_llm_profile_route("slow", " ", None, true).unwrap_err();
    assert_eq!(e.message, "LLM profile 'slow' provider must not be empty");
    let e = t.insert_llm_profile_route("  ", "x", None, true).unwrap_err();
    assert_eq!(e.message, "LLM profile id is required.");
}

#[test]
fn client_routes_close_in_reverse_order() {
    let mut t = ClientRoutes::from_provider_names(&names(&["openai", "anthropic"]), None).expect("routes");
    t.insert_llm_profile_route("a", "openai_compatible", None, true).expect("added");
    t.insert_llm_profile_route("b", "openai_compatible", None, false).expect("added");
    t.insert_llm_profile_route("c", "openai_compatible", None, true).expect("added");
    let order: Vec<String> = t
        .close_order()
        .into_iter()
        .map(|c| match c {
            CloseTarget::Provider(n) => format!("provider:{}", n),
            CloseTarget::Profile(k) => format!("profile:{}", k),
        })
        .collect();
    assert_eq!(order, vec!["provider:anthropic", "provider:openai", "profile:c", "profile:a"]);
}
