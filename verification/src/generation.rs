//! Preparing a high-level generation call: the messages from a prompt or a
//! conversation, the capabilities the call needs, the LLM profile it runs
//! under, the provider and model it resolves to, and the request sent.
use vstd::prelude::*;
use crate::catalog::ModelCatalog;
use crate::errors::{SDKError, SDKErrorKind, SDKErrorView, default_retryable_spec};
use crate::json::{Json, JsonView, jv};
use crate::native::{default_tool_choice, non_empty_opt, non_empty_opt_str, normalize_provider_name, opt_str_view};
use crate::profiles::LlmProfileRoute;
use crate::request::{ContentPart, Message, MessageRole, Request, ResponseFormat};
use crate::resolution::{
    ActiveLlmProfile, ActiveProfileView, HighLevelLlmResolutionInputs, HighLevelView, ModelCapabilities, ResolvedView,
    caps_union, resolve_high_level_provider_and_model, resolve_spec,
};
use crate::catalog::ModelInfoView;
use crate::text::{ascii_lower, opt_seq, owned, trim, trim_seq};
use crate::textmap::TextMap;
use crate::timeouts::{AbortSignal, abort_error, is_abort_error};
use crate::tools::{Tool, ToolChoice};

verus! {

// ----- messages -----
/// The error of a call that is refused before anything is sent.
pub open spec fn invalid_call_spec(message: Seq<char>) -> SDKErrorView {
    SDKErrorView {
        kind: SDKErrorKind::InvalidRequest,
        message,
        provider: None,
        status_code: None,
        error_code: None,
        retryable: default_retryable_spec(SDKErrorKind::InvalidRequest),
        raw: None,
    }
}

/// Why a call's prompt and messages cannot be used: both given, or neither.
pub open spec fn normalize_error(prompt: Option<String>, messages: Option<Vec<Message>>) -> Option<SDKErrorView> {
    if prompt is Some && messages is Some {
        Some(invalid_call_spec("generate and stream accept either prompt or messages, not both"@))
    } else if prompt is None && messages is None {
        Some(invalid_call_spec("either prompt or messages must be provided"@))
    } else {
        None
    }
}

/// Whether a message is a plain message of one text part.
pub open spec fn is_text_message(m: Message, role: MessageRole, text: Seq<char>) -> bool {
    &&& m.role == role
    &&& m.content@.len() == 1
    &&& m.content@[0] matches ContentPart::Text { text: t } && t@ == text
    &&& m.name is None
    &&& m.tool_call_id is None
    &&& m.provider_metadata.as_map() == Map::<Seq<char>, Json>::empty()
}

/// Whether the system text is kept: it must not be blank; it is kept as
/// given.
pub open spec fn kept_system(system: Option<String>) -> Option<Seq<char>> {
    match system {
        Some(s) => if trim_seq(s@).len() > 0 {
            Some(s@)
        } else {
            None
        },
        None => None,
    }
}

/// The messages of a call: the system text first when it is not blank,
/// then the prompt as a user message or the conversation as given.
pub open spec fn normalized_messages_ok(
    prompt: Option<String>,
    messages: Option<Vec<Message>>,
    system: Option<String>,
    out: Seq<Message>,
) -> bool {
    let k: int = if kept_system(system) is Some { 1 } else { 0 };
    &&& kept_system(system) matches Some(s) ==> is_text_message(out[0], MessageRole::System, s)
    &&& match (prompt, messages) {
        (Some(p), None) => out.len() == k + 1 && is_text_message(out[k], MessageRole::User, p@),
        (None, Some(ms)) => out.len() == k + ms@.len() && out.subrange(k, out.len() as int) == ms@,
        _ => false,
    }
}

/// The messages of a call, or why its prompt and messages cannot be used.
pub fn normalize_messages(
    prompt: Option<String>,
    messages: Option<Vec<Message>>,
    system: Option<String>,
) -> (r: Result<Vec<Message>, SDKError>)
    ensures
        match r {
            Err(e) => normalize_error(prompt, messages) == Some(e@),
            Ok(v) => normalize_error(prompt, messages) is None && normalized_messages_ok(prompt, messages, system, v@),
        },
{
    if prompt.is_some() && messages.is_some() {
        return Err(
            SDKError::new(
                SDKErrorKind::InvalidRequest,
                owned("generate and stream accept either prompt or messages, not both"),
            ),
        );
    }
    if prompt.is_none() && messages.is_none() {
        return Err(SDKError::new(SDKErrorKind::InvalidRequest, owned("either prompt or messages must be provided")));
    }
    let ghost gp = prompt;
    let ghost gm = messages;
    let ghost gs = system;
    let mut normalized: Vec<Message> = Vec::new();
    let keep = match &system {
        Some(s) => trim(s.as_str()).unicode_len() > 0,
        None => false,
    };
    if keep {
        match system {
            Some(s) => normalized.push(Message::system(s)),
            None => {},
        }
    }
    let k: usize = normalized.len();
    match prompt {
        Some(p) => {
            normalized.push(Message::user(p));
        },
        None => match messages {
            Some(ms) => {
                let ghost before = normalized@;
                let mut ms = ms;
                normalized.append(&mut ms);
                assert(normalized@.subrange(k as int, normalized@.len() as int) =~= gm->0@);
            },
            None => {},
        },
    }
    Ok(normalized)
}

// ----- capabilities -----
/// Whether some message holds an image.
pub open spec fn has_vision(messages: Seq<Message>) -> bool {
    exists|i: int, j: int|
        0 <= i < messages.len() && 0 <= j < messages[i].content@.len() && (#[trigger] messages[i].content@[j]) is Image
}

/// The capabilities a request's own parts need: tools when it offers any,
/// vision when a message holds an image, reasoning when an effort is asked
/// for, structured output when a response format is.
pub open spec fn request_capabilities_spec(
    messages: Seq<Message>,
    has_tools: bool,
    has_format: bool,
    reasoning_effort: Option<Seq<char>>,
) -> ModelCapabilities {
    ModelCapabilities {
        tools: has_tools,
        vision: has_vision(messages),
        reasoning: non_empty_opt(reasoning_effort) is Some,
        structured_output: has_format,
    }
}

/// Whether a message holds an image.
pub fn message_has_vision_content(message: &Message) -> (r: bool)
    ensures
        r == exists|j: int| 0 <= j < message.content@.len() && (#[trigger] message.content@[j]) is Image,
{
    let mut j: usize = 0;
    while j < message.content.len()
        invariant
            j <= message.content@.len(),
            forall|x: int| 0 <= x < j ==> !((#[trigger] message.content@[x]) is Image),
        decreases message.content@.len() - j,
    {
        match &message.content[j] {
            ContentPart::Image { .. } => return true,
            _ => {},
        }
        j = j + 1;
    }
    false
}

fn any_vision(messages: &Vec<Message>) -> (r: bool)
    ensures
        r == has_vision(messages@),
{
    let mut i: usize = 0;
    while i < messages.len()
        invariant
            i <= messages@.len(),
            forall|x: int, y: int|
                0 <= x < i && 0 <= y < messages@[x].content@.len() ==> !((#[trigger] messages@[x].content@[y]) is Image),
        decreases messages@.len() - i,
    {
        if message_has_vision_content(&messages[i]) {
            return true;
        }
        i = i + 1;
    }
    false
}

/// The capabilities a request's own parts need.
pub fn capabilities_from_request_parts(
    messages: &Vec<Message>,
    tools: &Vec<Tool>,
    response_format: Option<&ResponseFormat>,
    reasoning_effort: Option<&str>,
) -> (r: ModelCapabilities)
    ensures
        r == request_capabilities_spec(messages@, tools@.len() > 0, response_format is Some, opt_str_view(reasoning_effort)),
{
    let mut capabilities = ModelCapabilities::default();
    if tools.len() > 0 {
        capabilities = capabilities.union(ModelCapabilities::tools());
    }
    if response_format.is_some() {
        capabilities = capabilities.union(ModelCapabilities::structured_output());
    }
    if any_vision(messages) {
        capabilities = capabilities.union(ModelCapabilities::vision());
    }
    if non_empty_opt_str(reasoning_effort).is_some() {
        capabilities = capabilities.union(ModelCapabilities::reasoning());
    }
    capabilities
}

// ----- the profile a call runs under -----
/// The route kept for a profile id: ids are looked up trimmed and
/// ASCII-lowercased.
pub open spec fn route_for(routes: TextMap<LlmProfileRoute>, id: Seq<char>) -> Option<LlmProfileRoute> {
    routes.lookup(ascii_lower(trim_seq(id)))
}

/// The profile a high-level call runs under: the one the explicit provider
/// names; else, unless the call brings its own active profile, the one the
/// client's default provider names.
pub open spec fn selected_profile_spec(
    routes: TextMap<LlmProfileRoute>,
    default_provider: Option<Seq<char>>,
    provider: Option<Seq<char>>,
    has_active_profile: bool,
) -> Option<LlmProfileRoute> {
    match non_empty_opt(provider) {
        Some(p) => route_for(routes, p),
        None => if has_active_profile {
            None
        } else {
            match default_provider {
                Some(d) => route_for(routes, d),
                None => None,
            }
        },
    }
}

fn copy_route(route: &LlmProfileRoute) -> (r: LlmProfileRoute)
    ensures
        r == *route,
{
    LlmProfileRoute {
        id: route.id.clone(),
        provider: route.provider.clone(),
        default_model: match &route.default_model {
            Some(m) => Some(m.clone()),
            None => None,
        },
    }
}

fn llm_profile(routes: &TextMap<LlmProfileRoute>, profile_id: &str) -> (r: Option<LlmProfileRoute>)
    ensures
        r == route_for(*routes, profile_id@),
{
    let key = normalize_provider_name(profile_id);
    match routes.get(key.as_str()) {
        Some(route) => Some(copy_route(route)),
        None => None,
    }
}

/// The profile a high-level call runs under.
pub fn selected_profile_for_high_level_request(
    default_provider: Option<&str>,
    routes: &TextMap<LlmProfileRoute>,
    provider: Option<&str>,
    has_active_profile: bool,
) -> (r: Option<LlmProfileRoute>)
    ensures
        r == selected_profile_spec(*routes, opt_str_view(default_provider), opt_str_view(provider), has_active_profile),
{
    match non_empty_opt_str(provider) {
        Some(p) => return llm_profile(routes, p.as_str()),
        None => {},
    }
    if has_active_profile {
        return None;
    }
    match default_provider {
        Some(d) => llm_profile(routes, d),
        None => None,
    }
}

// ----- preparing the request -----
/// A high-level generation call. Sampling settings that are fractional
/// numbers are held as the JSON numbers sent for them.
pub struct GenerateRequest {
    pub prompt: Option<String>,
    pub messages: Option<Vec<Message>>,
    pub system: Option<String>,
    pub model: Option<String>,
    pub provider: Option<String>,
    pub active_profile: Option<ActiveLlmProfile>,
    pub required_capabilities: ModelCapabilities,
    pub tools: Vec<Tool>,
    pub tool_choice: Option<ToolChoice>,
    pub response_format: Option<ResponseFormat>,
    pub temperature: Option<Json>,
    pub top_p: Option<Json>,
    pub max_tokens: Option<u64>,
    pub stop_sequences: Vec<String>,
    pub reasoning_effort: Option<String>,
    pub metadata: TextMap<Json>,
    pub provider_options: TextMap<Json>,
    pub max_tool_rounds: usize,
    pub abort_signal: Option<AbortSignal>,
}

/// A call made ready: the request to send and how many tool rounds it may
/// take.
#[derive(Debug)]
pub struct PreparedGenerateRequest {
    pub request: Request,
    pub max_tool_rounds: usize,
}

/// The JSON values of a map, by key.
pub open spec fn json_map_view(m: TextMap<Json>) -> Map<Seq<char>, JsonView> {
    m.as_map().map_values(|v: Json| jv(v))
}

/// What the call asks the resolver: the selected profile's provider and
/// profile, or the call's own; the client's default provider only when no
/// profile was selected; the capabilities the call and its parts need.
pub open spec fn resolution_inputs_spec(
    input: GenerateRequest,
    selected: Option<LlmProfileRoute>,
    default_provider: Option<Seq<char>>,
    messages: Seq<Message>,
) -> HighLevelView {
    HighLevelView {
        provider: match selected {
            Some(r) => Some(r.provider@),
            None => opt_seq(input.provider),
        },
        model: opt_seq(input.model),
        active_profile: match selected {
            Some(r) => Some(ActiveProfileView { provider: r.provider@, default_model: opt_seq(r.default_model) }),
            None => match input.active_profile {
                Some(a) => Some(a@),
                None => None,
            },
        },
        client_default_provider: if selected is Some {
            None
        } else {
            default_provider
        },
        required_capabilities: caps_union(
            input.required_capabilities,
            request_capabilities_spec(
                messages,
                input.tools@.len() > 0,
                input.response_format is Some,
                opt_seq(input.reasoning_effort),
            ),
        ),
    }
}

/// The request a prepared call sends: the resolved model, the messages, the
/// profile id (or resolved provider) as provider, `auto` tool choice when
/// tools are offered without one, the call's other settings as given, and,
/// under a profile, the runtime provider, model and profile in the
/// metadata.
pub open spec fn prepared_ok(
    p: PreparedGenerateRequest,
    input: GenerateRequest,
    messages: Seq<Message>,
    selected: Option<LlmProfileRoute>,
    resolved: ResolvedView,
) -> bool {
    let req = p.request;
    &&& req.model@ == resolved.model
    &&& req.messages@ == messages
    &&& opt_seq(req.provider) == Some(
        match selected {
            Some(r) => r.id@,
            None => resolved.provider,
        },
    )
    &&& req.tools == input.tools
    &&& match input.tool_choice {
        Some(c) => req.tool_choice == Some(c),
        None => if input.tools@.len() > 0 {
            req.tool_choice matches Some(c) && c.mode@ == "auto"@ && c.tool_name is None
        } else {
            req.tool_choice is None
        },
    }
    &&& req.response_format == input.response_format
    &&& req.temperature == input.temperature
    &&& req.top_p == input.top_p
    &&& req.max_tokens == input.max_tokens
    &&& req.stop_sequences == input.stop_sequences
    &&& req.reasoning_effort == input.reasoning_effort
    &&& req.provider_options == input.provider_options
    &&& json_map_view(req.metadata) == match selected {
        Some(r) => json_map_view(input.metadata).insert("spark.runtime.provider"@, JsonView::Str(resolved.provider)).insert(
            "spark.runtime.model"@,
            JsonView::Str(resolved.model),
        ).insert("spark.runtime.llm_profile"@, JsonView::Str(r.id@)),
        None => json_map_view(input.metadata),
    }
    &&& p.max_tool_rounds == input.max_tool_rounds
}

/// The outcome of preparing a call: the error of its prompt and messages,
/// else the resolver's error, else the prepared request.
pub open spec fn prepare_spec(
    r: Result<PreparedGenerateRequest, SDKError>,
    default_provider: Option<Seq<char>>,
    routes: TextMap<LlmProfileRoute>,
    input: GenerateRequest,
    catalog: Seq<ModelInfoView>,
) -> bool {
    let selected = selected_profile_spec(routes, default_provider, opt_seq(input.provider), input.active_profile is Some);
    match normalize_error(input.prompt, input.messages) {
        Some(e) => r matches Err(x) && x@ == e,
        None => match r {
            Err(x) => exists|ms: Seq<Message>|
                normalized_messages_ok(input.prompt, input.messages, input.system, ms) && #[trigger] resolve_spec(
                    resolution_inputs_spec(input, selected, default_provider, ms),
                    catalog,
                ) == Err::<ResolvedView, SDKErrorView>(x@),
            Ok(p) => {
                &&& normalized_messages_ok(input.prompt, input.messages, input.system, p.request.messages@)
                &&& resolve_spec(resolution_inputs_spec(input, selected, default_provider, p.request.messages@), catalog) matches Ok(
                    rv,
                ) && prepared_ok(p, input, p.request.messages@, selected, rv)
            },
        },
    }
}

/// Prepares a call whose signal, if any, has been checked: its messages,
/// the profile and model it runs on, and the request to send.
pub fn prepare_generate_request(
    default_provider: Option<&str>,
    routes: &TextMap<LlmProfileRoute>,
    input: GenerateRequest,
    catalog: &ModelCatalog,
) -> (r: Result<PreparedGenerateRequest, SDKError>)
    ensures
        prepare_spec(r, opt_str_view(default_provider), *routes, input, catalog.models()),
{
    let ghost g = input;
    let GenerateRequest {
        prompt,
        messages,
        system,
        model,
        provider,
        active_profile,
        required_capabilities,
        tools,
        tool_choice,
        response_format,
        temperature,
        top_p,
        max_tokens,
        stop_sequences,
        reasoning_effort,
        metadata,
        provider_options,
        max_tool_rounds,
        abort_signal: _,
    } = input;
    let messages = match normalize_messages(prompt, messages, system) {
        Ok(m) => m,
        Err(e) => return Err(e),
    };
    let effort = match &reasoning_effort {
        Some(s) => Some(s.as_str()),
        None => None,
    };
    let format = match &response_format {
        Some(f) => Some(f),
        None => None,
    };
    let parts = capabilities_from_request_parts(&messages, &tools, format, effort);
    let required = required_capabilities.union(parts);
    let provider_text = match &provider {
        Some(p) => Some(p.as_str()),
        None => None,
    };
    let selected = selected_profile_for_high_level_request(default_provider, routes, provider_text, active_profile.is_some());
    let chosen_profile = match &selected {
        Some(route) => Some(route.active_profile()),
        None => active_profile,
    };
    let chosen_provider = match &selected {
        Some(route) => Some(route.provider.clone()),
        None => provider,
    };
    let client_default = match &selected {
        Some(_) => None,
        None => match default_provider {
            Some(d) => Some(owned(d)),
            None => None,
        },
    };
    let inputs = HighLevelLlmResolutionInputs {
        provider: chosen_provider,
        model,
        active_profile: chosen_profile,
        client_default_provider: client_default,
        required_capabilities: required,
    };
    assert(inputs@ == resolution_inputs_spec(g, selected, opt_str_view(default_provider), messages@));
    let resolved = match resolve_high_level_provider_and_model(&inputs, catalog) {
        Ok(x) => x,
        Err(e) => {
            assert(resolve_spec(resolution_inputs_spec(g, selected, opt_str_view(default_provider), messages@), catalog.models())
                == Err::<ResolvedView, SDKErrorView>(e@));
            return Err(e);
        },
    };
    let has_tools = tools.len() > 0;
    let request_provider = match &selected {
        Some(route) => route.id.clone(),
        None => resolved.provider.clone(),
    };
    let mut metadata = metadata;
    let ghost m0 = json_map_view(metadata);
    match &selected {
        Some(route) => {
            metadata.insert(owned("spark.runtime.provider"), Json::Str(resolved.provider.clone()));
            metadata.insert(owned("spark.runtime.model"), Json::Str(resolved.model.clone()));
            metadata.insert(owned("spark.runtime.llm_profile"), Json::Str(route.id.clone()));
            assert(json_map_view(metadata) =~= m0.insert("spark.runtime.provider"@, JsonView::Str(resolved.provider@)).insert(
                "spark.runtime.model"@,
                JsonView::Str(resolved.model@),
            ).insert("spark.runtime.llm_profile"@, JsonView::Str(route.id@)));
        },
        None => {},
    }
    let request = Request {
        model: resolved.model,
        messages,
        provider: Some(request_provider),
        tools,
        tool_choice: default_tool_choice(tool_choice, has_tools),
        response_format,
        temperature,
        top_p,
        max_tokens,
        stop_sequences,
        reasoning_effort,
        metadata,
        provider_options,
    };
    Ok(PreparedGenerateRequest { request, max_tool_rounds })
}

/// The outcome of a call stopped by its signal: the abort error of the
/// generation, with some reason read from the signal.
pub open spec fn aborted_outcome(r: Result<PreparedGenerateRequest, SDKError>, input: GenerateRequest) -> bool {
    &&& input.abort_signal is Some
    &&& r matches Err(e) && exists|reason: Option<Seq<char>>| #[trigger] is_abort_error(e, "generation"@, reason)
}

/// Prepares a call: a call whose signal has been aborted fails with the
/// abort error of the generation, whose reason is read from the signal;
/// any other is prepared as `prepare_generate_request` says. Whether the
/// signal has been aborted is decided by its holders.
pub fn build_generate_request(
    default_provider: Option<&str>,
    routes: &TextMap<LlmProfileRoute>,
    input: GenerateRequest,
    catalog: &ModelCatalog,
) -> (r: Result<PreparedGenerateRequest, SDKError>)
    ensures
        prepare_spec(r, opt_str_view(default_provider), *routes, input, catalog.models()) || aborted_outcome(r, input),
{
    let aborted = match &input.abort_signal {
        Some(signal) => {
            if signal.aborted() {
                let reason = signal.reason();
                let ghost rv = opt_seq(reason);
                let e = abort_error(owned("generation"), reason);
                assert(is_abort_error(e, "generation"@, rv));
                Some(e)
            } else {
                None
            }
        },
        None => None,
    };
    match aborted {
        Some(e) => Err(e),
        None => prepare_generate_request(default_provider, routes, input, catalog),
    }
}

} // verus!
