use unified_llm_adapter::catalog::{ModelCatalog, ModelInfo};
use unified_llm_adapter::errors::SDKErrorKind;
use unified_llm_adapter::generation::{
    build_generate_request, capabilities_from_request_parts, normalize_messages, prepare_generate_request,
    selected_profile_for_high_level_request, GenerateRequest,
};
use unified_llm_adapter::json::Json;
use unified_llm_adapter::profiles::LlmProfileRoute;
use unified_llm_adapter::request::{ContentPart, ImageData, Message, MessageRole, ResponseFormat};
use unified_llm_adapter::resolution::ModelCapabilities;
use unified_llm_adapter::textmap::TextMap;
use unified_llm_adapter::timeouts::AbortController;
use unified_llm_adapter::tools::Tool;

fn model(id: &str, provider: &str, tools: bool, vision: bool) -> ModelInfo {
    ModelInfo {
        id: id.to_string(),
        provider: provider.to_string(),
        display_name: id.to_string(),
        context_window: None,
        supports_tools: tools,
        supports_vision: vision,
        supports_reasoning: false,
        max_output: None,
        aliases: Vec::new(),
    }
}

fn catalog() -> ModelCatalog {
    ModelCatalog::new(vec![model("small", "openai", false, false), model("big", "openai", true, true)])
}

fn routes() -> TextMap<LlmProfileRoute> {
    let mut m = TextMap::new();
    m.insert(
        "work".to_string(),
        LlmProfileRoute { id: "work".to_string(), provider: "openai".to_string(), default_model: Some("work-model".to_string()) },
    );
    m
}

fn input() -> GenerateRequest {
    GenerateRequest {
        prompt: Some("hello".to_string()),
        messages: None,
        system: Some("  ".to_string()),
        model: None,
        provider: None,
        active_profile: None,
        required_capabilities: ModelCapabilities::default(),
        tools: Vec::new(),
        tool_choice: None,
        response_format: None,
        temperature: None,
        top_p: None,
        max_tokens: Some(10),
        stop_sequences: Vec::new(),
        reasoning_effort: None,
        metadata: TextMap::new(),
        provider_options: TextMap::new(),
        max_tool_rounds: 3,
        abort_signal: None,
    }
}

#[test]
fn messages_from_prompt_or_conversation() {
    let m = normalize_messages(Some("hi".to_string()), None, Some("sys".to_string())).ok().expect("ok");
    assert_eq!(m.len(), 2);
    assert_eq!(m[0].role, MessageRole::System);
    assert_eq!(m[1].text(), "hi");
    let m = normalize_messages(None, Some(vec![Message::assistant("a".to_string())]), Some(" ".to_string())).ok().expect("ok");
    assert_eq!(m.len(), 1);
    assert_eq!(m[0].role, MessageRole::Assistant);
    let e = normalize_messages(Some("x".to_string()), Some(Vec::new()), None).err().expect("both");
    assert_eq!(e.message, "generate and stream accept either prompt or messages, not both");
    let e = normalize_messages(None, None, None).err().expect("neither");
    assert_eq!(e.kind, SDKErrorKind::InvalidRequest);
    assert_eq!(e.message, "either prompt or messages must be provided");
}

#[test]
fn capabilities_of_parts() {
    let image = ImageData { url: Some("https://x/a.png".to_string()), data: None, media_type: None, detail: None };
    let msgs = vec![Message {
        role: MessageRole::User,
        content: vec![ContentPart::Image { image }],
        name: None,
        tool_call_id: None,
        provider_metadata: TextMap::new(),
    }];
    let tools = vec![Tool { name: "t".to_string(), description: None, parameters: None, provider_metadata: TextMap::new() }];
    let c = capabilities_from_request_parts(&msgs, &tools, Some(&ResponseFormat::JsonObject), Some(" high "));
    assert!(c.tools && c.vision && c.reasoning && c.structured_output);
    let c = capabilities_from_request_parts(&Vec::new(), &Vec::new(), None, Some("  "));
    assert!(!c.tools && !c.vision && !c.reasoning && !c.structured_output);
}

#[test]
fn profiles_are_selected() {
    let r = routes();
    assert_eq!(selected_profile_for_high_level_request(None, &r, Some(" WORK "), false).map(|p| p.id), Some("work".to_string()));
    assert!(selected_profile_for_high_level_request(Some("work"), &r, None, true).is_none());
    assert_eq!(selected_profile_for_high_level_request(Some("work"), &r, None, false).map(|p| p.id), Some("work".to_string()));
    assert!(selected_profile_for_high_level_request(Some("openai"), &r, Some("  "), false).is_none());
}

#[test]
fn requests_are_prepared() {
    let mut i = input();
    i.provider = Some("openai".to_string());
    i.tools = vec![Tool { name: "t".to_string(), description: None, parameters: None, provider_metadata: TextMap::new() }];
    let p = prepare_generate_request(None, &routes(), i, &catalog()).ok().expect("prepared");
    assert_eq!(p.request.model, "big");
    assert_eq!(p.request.provider.as_deref(), Some("openai"));
    assert_eq!(p.request.messages.len(), 1);
    assert_eq!(p.request.tool_choice.as_ref().map(|c| c.mode.as_str()), Some("auto"));
    assert_eq!(p.request.max_tokens, Some(10));
    assert_eq!(p.max_tool_rounds, 3);
    assert_eq!(p.request.metadata.len(), 0);

    let p = prepare_generate_request(Some("work"), &routes(), input(), &catalog()).ok().expect("profile");
    assert_eq!(p.request.model, "work-model");
    assert_eq!(p.request.provider.as_deref(), Some("work"));
    assert_eq!(p.request.metadata.get("spark.runtime.llm_profile").map(|v| matches!(v, Json::Str(s) if s == "work")), Some(true));
    assert_eq!(p.request.metadata.get("spark.runtime.model").map(|v| matches!(v, Json::Str(s) if s == "work-model")), Some(true));
    assert!(p.request.tool_choice.is_none());

    let e = prepare_generate_request(None, &routes(), input(), &catalog()).err().expect("no provider");
    assert_eq!(e.kind, SDKErrorKind::Configuration);
}

#[test]
fn aborted_calls_stop() {
    let controller = AbortController::new();
    controller.abort("stop now");
    let mut i = input();
    i.provider = Some("openai".to_string());
    i.abort_signal = Some(controller.signal());
    let e = build_generate_request(None, &routes(), i, &catalog()).err().expect("aborted");
    assert_eq!(e.kind, SDKErrorKind::Abort);
    assert_eq!(e.message, "stop now");
    let mut i = input();
    i.provider = Some("openai".to_string());
    i.abort_signal = Some(AbortController::new().signal());
    assert!(build_generate_request(None, &routes(), i, &catalog()).is_ok());
}
