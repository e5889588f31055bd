//! Which provider and model a request runs on: explicit settings first, then
//! the active profile, the launch context and the client's defaults.
use vstd::prelude::*;
use crate::catalog::{ModelCatalog, ModelInfoView, models_view, provider_models};
use crate::errors::{SDKError, SDKErrorKind, SDKErrorView, default_retryable_spec};
use crate::json::{Json, json_text, json_to_text};
use crate::text::{
    ascii_lower, concat3, debug_quoted, debug_text, eq_ignore_ascii_case, eq_ignore_case, opt_seq,
    owned, str_eq, to_ascii_lowercase, to_lowercase, trim, trim_seq, unicode_lowercase,
};
use crate::textmap::TextMap;

verus! {

pub const RUNTIME_LAUNCH_MODEL_KEY: &'static str = "_attractor.runtime.launch_model";

pub const RUNTIME_LAUNCH_PROVIDER_KEY: &'static str = "_attractor.runtime.launch_provider";

pub const RUNTIME_LAUNCH_PROFILE_KEY: &'static str = "_attractor.runtime.launch_profile";

pub const RUNTIME_LAUNCH_REASONING_EFFORT_KEY: &'static str = "_attractor.runtime.launch_reasoning_effort";

/// The model name shown when the model comes from the tool's own configuration.
pub const DISPLAY_MODEL_PLACEHOLDER: &'static str = "codex default (config/profile)";

// ----- picking the first usable text -----
pub open spec fn opt_str_view(o: Option<&str>) -> Option<Seq<char>> {
    match o {
        Some(s) => Some(s@),
        None => None,
    }
}

pub open spec fn opt_strs_view(v: Seq<Option<&str>>) -> Seq<Option<Seq<char>>> {
    v.map_values(|o: Option<&str>| opt_str_view(o))
}

/// The first value that is not blank, trimmed.
pub open spec fn first_text_spec(values: Seq<Option<Seq<char>>>) -> Option<Seq<char>>
    decreases values.len(),
{
    if values.len() == 0 {
        None
    } else {
        match values[0] {
            Some(v) => if trim_seq(v).len() > 0 {
                Some(trim_seq(v))
            } else {
                first_text_spec(values.drop_first())
            },
            None => first_text_spec(values.drop_first()),
        }
    }
}

/// Whether a text is the display placeholder, ignoring ASCII case and
/// surrounding whitespace.
pub open spec fn is_placeholder_spec(v: Seq<char>) -> bool {
    eq_ignore_case(trim_seq(v), DISPLAY_MODEL_PLACEHOLDER@)
}

/// The first value that is neither blank nor the display placeholder, trimmed.
pub open spec fn first_model_text_spec(values: Seq<Option<Seq<char>>>) -> Option<Seq<char>>
    decreases values.len(),
{
    if values.len() == 0 {
        None
    } else {
        match values[0] {
            Some(v) => if trim_seq(v).len() > 0 && !is_placeholder_spec(trim_seq(v)) {
                Some(trim_seq(v))
            } else {
                first_model_text_spec(values.drop_first())
            },
            None => first_model_text_spec(values.drop_first()),
        }
    }
}

/// Whether a model name is the display placeholder.
pub fn is_display_model_placeholder(value: &str) -> (r: bool)
    ensures
        r == is_placeholder_spec(value@),
{
    let t = trim(value);
    eq_ignore_ascii_case(t.as_str(), DISPLAY_MODEL_PLACEHOLDER)
}

/// The first value that is not blank, trimmed.
pub fn first_text(values: &Vec<Option<&str>>) -> (r: Option<String>)
    ensures
        opt_seq(r) == first_text_spec(opt_strs_view(values@)),
{
    let ghost vs = opt_strs_view(values@);
    let mut i: usize = 0;
    assert(vs.subrange(0, vs.len() as int) =~= vs);
    while i < values.len()
        invariant
            i <= values@.len(),
            vs == opt_strs_view(values@),
            first_text_spec(vs) == first_text_spec(vs.subrange(i as int, vs.len() as int)),
        decreases values@.len() - i,
    {
        let ghost rest = vs.subrange(i as int, vs.len() as int);
        assert(rest[0] == opt_str_view(values@[i as int]));
        assert(rest.drop_first() =~= vs.subrange(i + 1, vs.len() as int));
        match values[i] {
            Some(v) => {
                let t = trim(v);
                if t.unicode_len() > 0 {
                    return Some(t);
                }
            },
            None => {},
        }
        i = i + 1;
    }
    None
}

/// The first value that is neither blank nor the display placeholder, trimmed.
pub fn first_model_text(values: &Vec<Option<&str>>) -> (r: Option<String>)
    ensures
        opt_seq(r) == first_model_text_spec(opt_strs_view(values@)),
{
    let ghost vs = opt_strs_view(values@);
    let mut i: usize = 0;
    assert(vs.subrange(0, vs.len() as int) =~= vs);
    while i < values.len()
        invariant
            i <= values@.len(),
            vs == opt_strs_view(values@),
            first_model_text_spec(vs) == first_model_text_spec(vs.subrange(i as int, vs.len() as int)),
        decreases values@.len() - i,
    {
        let ghost rest = vs.subrange(i as int, vs.len() as int);
        assert(rest[0] == opt_str_view(values@[i as int]));
        assert(rest.drop_first() =~= vs.subrange(i + 1, vs.len() as int));
        match values[i] {
            Some(v) => {
                let t = trim(v);
                if t.unicode_len() > 0 && !is_display_model_placeholder(t.as_str()) {
                    return Some(t);
                }
            },
            None => {},
        }
        i = i + 1;
    }
    None
}

// ----- profiles and capabilities -----
/// The profile a client runs under: its provider and, optionally, its default model.
#[derive(Debug)]
pub struct ActiveLlmProfile {
    pub provider: String,
    pub default_model: Option<String>,
}

pub struct ActiveProfileView {
    pub provider: Seq<char>,
    pub default_model: Option<Seq<char>>,
}

impl View for ActiveLlmProfile {
    type V = ActiveProfileView;

    open spec fn view(&self) -> ActiveProfileView {
        ActiveProfileView { provider: self.provider@, default_model: opt_seq(self.default_model) }
    }
}

impl ActiveLlmProfile {
    pub fn new(provider: String, default_model: Option<String>) -> (r: Self)
        ensures
            r@ == (ActiveProfileView { provider: provider@, default_model: opt_seq(default_model) }),
    {
        ActiveLlmProfile { provider, default_model }
    }
}

/// What a request needs of a model.
#[derive(Debug, Clone, Copy, PartialEq, Eq, Structural)]
pub struct ModelCapabilities {
    pub tools: bool,
    pub vision: bool,
    pub reasoning: bool,
    pub structured_output: bool,
}

/// No capability asked for.
pub open spec fn no_capabilities() -> ModelCapabilities {
    ModelCapabilities { tools: false, vision: false, reasoning: false, structured_output: false }
}

/// The capabilities that either asks for.
pub open spec fn caps_union(a: ModelCapabilities, b: ModelCapabilities) -> ModelCapabilities {
    ModelCapabilities {
        tools: a.tools || b.tools,
        vision: a.vision || b.vision,
        reasoning: a.reasoning || b.reasoning,
        structured_output: a.structured_output || b.structured_output,
    }
}

pub open spec fn any_capability(c: ModelCapabilities) -> bool {
    c.tools || c.vision || c.reasoning || c.structured_output
}

impl Default for ModelCapabilities {
    fn default() -> (r: Self)
        ensures
            r == no_capabilities(),
    {
        ModelCapabilities { tools: false, vision: false, reasoning: false, structured_output: false }
    }
}

impl ModelCapabilities {
    pub fn tools() -> (r: Self)
        ensures
            r == (ModelCapabilities { tools: true, ..no_capabilities() }),
    {
        ModelCapabilities { tools: true, vision: false, reasoning: false, structured_output: false }
    }

    pub fn vision() -> (r: Self)
        ensures
            r == (ModelCapabilities { vision: true, ..no_capabilities() }),
    {
        ModelCapabilities { tools: false, vision: true, reasoning: false, structured_output: false }
    }

    pub fn reasoning() -> (r: Self)
        ensures
            r == (ModelCapabilities { reasoning: true, ..no_capabilities() }),
    {
        ModelCapabilities { tools: false, vision: false, reasoning: true, structured_output: false }
    }

    pub fn structured_output() -> (r: Self)
        ensures
            r == (ModelCapabilities { structured_output: true, ..no_capabilities() }),
    {
        ModelCapabilities { tools: false, vision: false, reasoning: false, structured_output: true }
    }

    /// The capabilities that either asks for.
    pub fn union(self, other: Self) -> (r: Self)
        ensures
            r == caps_union(self, other),
    {
        ModelCapabilities {
            tools: self.tools || other.tools,
            vision: self.vision || other.vision,
            reasoning: self.reasoning || other.reasoning,
            structured_output: self.structured_output || other.structured_output,
        }
    }
}

/// Combining capability requests is commutative, associative and idempotent,
/// and asking for nothing adds nothing.
pub proof fn lemma_caps_union_laws(a: ModelCapabilities, b: ModelCapabilities, c: ModelCapabilities)
    ensures
        caps_union(a, b) == caps_union(b, a),
        caps_union(caps_union(a, b), c) == caps_union(a, caps_union(b, c)),
        caps_union(a, a) == a,
        caps_union(a, no_capabilities()) == a,
{
}

// ----- high-level resolution -----
/// What a high-level call says about provider and model.
#[derive(Debug)]
pub struct HighLevelLlmResolutionInputs {
    pub provider: Option<String>,
    pub model: Option<String>,
    pub active_profile: Option<ActiveLlmProfile>,
    pub client_default_provider: Option<String>,
    pub required_capabilities: ModelCapabilities,
}

pub struct HighLevelView {
    pub provider: Option<Seq<char>>,
    pub model: Option<Seq<char>>,
    pub active_profile: Option<ActiveProfileView>,
    pub client_default_provider: Option<Seq<char>>,
    pub required_capabilities: ModelCapabilities,
}

impl View for HighLevelLlmResolutionInputs {
    type V = HighLevelView;

    open spec fn view(&self) -> HighLevelView {
        HighLevelView {
            provider: opt_seq(self.provider),
            model: opt_seq(self.model),
            active_profile: match self.active_profile {
                Some(p) => Some(p@),
                None => None,
            },
            client_default_provider: opt_seq(self.client_default_provider),
            required_capabilities: self.required_capabilities,
        }
    }
}

/// The provider and model a call resolved to.
#[derive(Debug)]
pub struct ResolvedLlmModel {
    pub provider: String,
    pub model: String,
}

/// The provider of a high-level call: the explicit one, the active
/// profile's, or the client's default, ASCII-lowercased.
pub open spec fn resolved_provider_spec(inputs: HighLevelView) -> Option<Seq<char>> {
    let explicit = first_text_spec(seq![inputs.provider]);
    let from_profile = match inputs.active_profile {
        Some(p) => first_text_spec(seq![Some(p.provider)]),
        None => None,
    };
    match first_text_spec(seq![explicit, from_profile, inputs.client_default_provider]) {
        Some(p) => Some(ascii_lower(p)),
        None => None,
    }
}

/// The active profile's default model, when the profile is for `provider`.
pub open spec fn profile_default_model_spec(profile: Option<ActiveProfileView>, provider: Seq<char>) -> Option<Seq<char>> {
    match profile {
        None => None,
        Some(p) => match first_text_spec(seq![Some(p.provider)]) {
            None => None,
            Some(pp) => if ascii_lower(pp) != provider {
                None
            } else {
                first_text_spec(seq![p.default_model])
            },
        },
    }
}

/// Whether a model has every capability asked for; structured output rides
/// on tool support.
pub open spec fn model_satisfies_spec(m: ModelInfoView, c: ModelCapabilities) -> bool {
    &&& (c.tools ==> m.supports_tools)
    &&& (c.vision ==> m.supports_vision)
    &&& (c.reasoning ==> m.supports_reasoning)
    &&& (c.structured_output ==> m.supports_tools)
}

/// The first model that has every capability asked for.
pub open spec fn first_satisfying(models: Seq<ModelInfoView>, c: ModelCapabilities) -> Option<ModelInfoView>
    decreases models.len(),
{
    if models.len() == 0 {
        None
    } else if model_satisfies_spec(models[0], c) {
        Some(models[0])
    } else {
        first_satisfying(models.drop_first(), c)
    }
}

/// The providers whose catalog models can stand in for an omitted model.
pub open spec fn is_native_spec(provider: Seq<char>) -> bool {
    let k = ascii_lower(trim_seq(provider));
    k == "openai"@ || k == "anthropic"@ || k == "gemini"@
}

/// The catalog's first model for a native provider with the capabilities.
pub open spec fn latest_native_model_spec(
    catalog: Seq<ModelInfoView>,
    provider: Seq<char>,
    c: ModelCapabilities,
) -> Option<ModelInfoView> {
    if !is_native_spec(provider) {
        None
    } else {
        first_satisfying(provider_models(catalog, provider), c)
    }
}

pub open spec fn configuration_error_spec(message: Seq<char>) -> SDKErrorView {
    SDKErrorView {
        kind: SDKErrorKind::Configuration,
        message,
        provider: None,
        status_code: None,
        error_code: None,
        retryable: default_retryable_spec(SDKErrorKind::Configuration),
        raw: None,
    }
}

pub open spec fn no_provider_message() -> Seq<char> {
    "No provider configured; set request.provider, active profile, or Client.default_provider"@
}

/// The message when no model can be found for a provider.
pub open spec fn omitted_model_message(provider: Seq<char>, c: ModelCapabilities) -> Seq<char> {
    "No model configured for provider "@ + debug_text(provider) + (if any_capability(c) {
        " with the requested capabilities"@
    } else {
        ""@
    }) + "; set request.model or an active profile default_model"@
}

pub struct ResolvedView {
    pub provider: Seq<char>,
    pub model: Seq<char>,
}

/// The outcome of resolving a high-level call against a catalog.
pub open spec fn resolve_spec(inputs: HighLevelView, catalog: Seq<ModelInfoView>) -> Result<ResolvedView, SDKErrorView> {
    match resolved_provider_spec(inputs) {
        None => Err(configuration_error_spec(no_provider_message())),
        Some(provider) => {
            let profile_model = profile_default_model_spec(inputs.active_profile, provider);
            match first_model_text_spec(seq![inputs.model, profile_model]) {
                Some(model) => Ok(ResolvedView { provider, model }),
                None => match latest_native_model_spec(catalog, provider, inputs.required_capabilities) {
                    Some(m) => Ok(ResolvedView { provider, model: m.id }),
                    None => Err(
                        configuration_error_spec(omitted_model_message(provider, inputs.required_capabilities)),
                    ),
                },
            }
        },
    }
}

pub open spec fn resolve_view(r: Result<ResolvedLlmModel, SDKError>) -> Result<ResolvedView, SDKErrorView> {
    match r {
        Ok(m) => Ok(ResolvedView { provider: m.provider@, model: m.model@ }),
        Err(e) => Err(e@),
    }
}

fn as_opt_str(o: &Option<String>) -> (r: Option<&str>)
    ensures
        opt_str_view(r) == opt_seq(*o),
{
    match o {
        Some(s) => Some(s.as_str()),
        None => None,
    }
}

/// The active profile's default model, when the profile is for `provider`.
pub fn active_profile_default_model_for_provider(
    active_profile: Option<&ActiveLlmProfile>,
    provider: &str,
) -> (r: Option<String>)
    ensures
        opt_seq(r) == profile_default_model_spec(
            match active_profile {
                Some(p) => Some(p@),
                None => None,
            },
            provider@,
        ),
{
    let profile = match active_profile {
        Some(p) => p,
        None => return None,
    };
    let values = vec![Some(profile.provider.as_str())];
    assert(opt_strs_view(values@) =~= seq![Some(profile@.provider)]);
    let profile_provider = match first_text(&values) {
        Some(p) => p,
        None => return None,
    };
    let lowered = to_ascii_lowercase(profile_provider.as_str());
    if !str_eq(lowered.as_str(), provider) {
        return None;
    }
    let models = vec![as_opt_str(&profile.default_model)];
    assert(opt_strs_view(models@) =~= seq![profile@.default_model]);
    first_text(&models)
}

/// Whether a provider's catalog models can stand in for an omitted model.
pub fn is_native_default_provider(provider: &str) -> (r: bool)
    ensures
        r == is_native_spec(provider@),
{
    let t = trim(provider);
    let k = to_ascii_lowercase(t.as_str());
    str_eq(k.as_str(), "openai") || str_eq(k.as_str(), "anthropic") || str_eq(k.as_str(), "gemini")
}

/// Whether a catalog model has every capability asked for.
pub fn model_satisfies(model: &crate::catalog::ModelInfo, capabilities: ModelCapabilities) -> (r: bool)
    ensures
        r == model_satisfies_spec(model@, capabilities),
{
    if capabilities.tools && !model.supports_tools {
        return false;
    }
    if capabilities.vision && !model.supports_vision {
        return false;
    }
    if capabilities.reasoning && !model.supports_reasoning {
        return false;
    }
    if capabilities.structured_output && !model.supports_tools {
        return false;
    }
    true
}

/// The id of the catalog's first model for a native provider that has the
/// capabilities.
pub fn latest_native_model(catalog: &ModelCatalog, provider: &str, capabilities: ModelCapabilities) -> (r: Option<String>)
    ensures
        match r {
            Some(id) => latest_native_model_spec(catalog.models(), provider@, capabilities) matches Some(m)
                && m.id == id@,
            None => latest_native_model_spec(catalog.models(), provider@, capabilities) is None,
        },
{
    if !is_native_default_provider(provider) {
        return None;
    }
    let models = catalog.list_models(Some(provider));
    let ghost mv = models_view(models@);
    assert(mv.subrange(0, mv.len() as int) =~= mv);
    let mut i: usize = 0;
    while i < models.len()
        invariant
            i <= models@.len(),
            mv == models_view(models@),
            mv == provider_models(catalog.models(), provider@),
            is_native_spec(provider@),
            first_satisfying(mv, capabilities) == first_satisfying(mv.subrange(i as int, mv.len() as int), capabilities),
        decreases models@.len() - i,
    {
        let ghost rest = mv.subrange(i as int, mv.len() as int);
        assert(rest[0] == models@[i as int]@);
        assert(rest.drop_first() =~= mv.subrange(i + 1, mv.len() as int));
        if model_satisfies(&models[i], capabilities) {
            return Some(models[i].id.clone());
        }
        i = i + 1;
    }
    None
}

pub(crate) fn configuration_error(message: String) -> (r: SDKError)
    ensures
        r@ == configuration_error_spec(message@),
{
    SDKError::new(SDKErrorKind::Configuration, message)
}

/// The error for a call whose model could not be found.
pub fn omitted_model_error(provider: &str, capabilities: ModelCapabilities) -> (r: SDKError)
    ensures
        r@ == configuration_error_spec(omitted_model_message(provider@, capabilities)),
{
    let detail = if capabilities.tools || capabilities.vision || capabilities.reasoning
        || capabilities.structured_output {
        " with the requested capabilities"
    } else {
        ""
    };
    let quoted = debug_quoted(provider);
    let head = concat3("No model configured for provider ", quoted.as_str(), detail);
    let message = crate::text::concat2(head.as_str(), "; set request.model or an active profile default_model");
    configuration_error(message)
}

/// Resolves the provider and model of a high-level call: the explicit
/// provider, the active profile's or the client's default; the explicit
/// model, the profile's default model for that provider, or the first model
/// of the catalog with the capabilities asked for.
pub fn resolve_high_level_provider_and_model(
    inputs: &HighLevelLlmResolutionInputs,
    catalog: &ModelCatalog,
) -> (r: Result<ResolvedLlmModel, SDKError>)
    ensures
        resolve_view(r) == resolve_spec(inputs@, catalog.models()),
{
    let pv = vec![as_opt_str(&inputs.provider)];
    assert(opt_strs_view(pv@) =~= seq![inputs@.provider]);
    let explicit_provider = first_text(&pv);
    let active_profile_provider = match &inputs.active_profile {
        Some(profile) => {
            let v = vec![Some(profile.provider.as_str())];
            assert(opt_strs_view(v@) =~= seq![Some(profile@.provider)]);
            first_text(&v)
        },
        None => None,
    };
    let candidates = vec![
        as_opt_str(&explicit_provider),
        as_opt_str(&active_profile_provider),
        as_opt_str(&inputs.client_default_provider),
    ];
    assert(opt_strs_view(candidates@) =~= seq![
        opt_seq(explicit_provider),
        opt_seq(active_profile_provider),
        inputs@.client_default_provider,
    ]);
    let provider = match first_text(&candidates) {
        Some(p) => to_ascii_lowercase(p.as_str()),
        None => {
            return Err(configuration_error(owned(
                "No provider configured; set request.provider, active profile, or Client.default_provider",
            )));
        },
    };
    let profile_model = active_profile_default_model_for_provider(
        match &inputs.active_profile {
            Some(p) => Some(p),
            None => None,
        },
        provider.as_str(),
    );
    let mv = vec![as_opt_str(&inputs.model), as_opt_str(&profile_model)];
    assert(opt_strs_view(mv@) =~= seq![inputs@.model, opt_seq(profile_model)]);
    match first_model_text(&mv) {
        Some(model) => Ok(ResolvedLlmModel { provider, model }),
        None => match latest_native_model(catalog, provider.as_str(), inputs.required_capabilities) {
            Some(model) => Ok(ResolvedLlmModel { provider, model }),
            None => Err(omitted_model_error(provider.as_str(), inputs.required_capabilities)),
        },
    }
}

// ----- resolution for a pipeline node -----
/// What a pipeline node and its fallbacks say about the model to run.
#[derive(Debug)]
pub struct LlmResolutionInputs {
    pub node_model: Option<String>,
    pub node_provider: Option<String>,
    pub node_profile: Option<String>,
    pub node_reasoning_effort: Option<String>,
    /// The node's reasoning effort is the editor's placeholder, not a choice.
    pub node_reasoning_is_default_placeholder: bool,
    pub fallback_model: Option<String>,
    pub fallback_provider: Option<String>,
    pub fallback_profile: Option<String>,
    pub fallback_reasoning_effort: Option<String>,
}

pub struct LlmResolutionView {
    pub node_model: Option<Seq<char>>,
    pub node_provider: Option<Seq<char>>,
    pub node_profile: Option<Seq<char>>,
    pub node_reasoning_effort: Option<Seq<char>>,
    pub node_reasoning_is_default_placeholder: bool,
    pub fallback_model: Option<Seq<char>>,
    pub fallback_provider: Option<Seq<char>>,
    pub fallback_profile: Option<Seq<char>>,
    pub fallback_reasoning_effort: Option<Seq<char>>,
}

impl View for LlmResolutionInputs {
    type V = LlmResolutionView;

    open spec fn view(&self) -> LlmResolutionView {
        LlmResolutionView {
            node_model: opt_seq(self.node_model),
            node_provider: opt_seq(self.node_provider),
            node_profile: opt_seq(self.node_profile),
            node_reasoning_effort: opt_seq(self.node_reasoning_effort),
            node_reasoning_is_default_placeholder: self.node_reasoning_is_default_placeholder,
            fallback_model: opt_seq(self.fallback_model),
            fallback_provider: opt_seq(self.fallback_provider),
            fallback_profile: opt_seq(self.fallback_profile),
            fallback_reasoning_effort: opt_seq(self.fallback_reasoning_effort),
        }
    }
}

/// The text of a launch-context value: empty for `null`, the string itself,
/// `true` / `false`, the number as written, or the compact JSON of an array
/// or object.
pub open spec fn context_value_text(v: Json) -> Seq<char> {
    match v {
        Json::Null => Seq::empty(),
        Json::Str(s) => s@,
        Json::Bool(b) => if b {
            "true"@
        } else {
            "false"@
        },
        Json::Number(t) => t@,
        _ => json_text(v@),
    }
}

/// The text of the launch-context entry `key`, if there is one.
pub open spec fn context_text_spec(context: TextMap<Json>, key: Seq<char>) -> Option<Seq<char>> {
    match context.lookup(key) {
        Some(v) => Some(context_value_text(v)),
        None => None,
    }
}

/// The text of the launch-context entry `key`, if there is one.
pub fn context_text(context: &TextMap<Json>, key: &str) -> (r: Option<String>)
    ensures
        opt_seq(r) == context_text_spec(*context, key@),
{
    let value = match context.get(key) {
        Some(v) => v,
        None => return None,
    };
    Some(
        match value {
            Json::Null => String::new(),
            Json::Str(text) => text.clone(),
            Json::Bool(b) => if *b {
                owned("true")
            } else {
                owned("false")
            },
            Json::Number(n) => n.clone(),
            _ => json_to_text(value),
        },
    )
}

pub open spec fn effective_model_spec(inputs: LlmResolutionView, context: TextMap<Json>) -> Option<Seq<char>> {
    first_model_text_spec(
        seq![inputs.node_model, context_text_spec(context, RUNTIME_LAUNCH_MODEL_KEY@), inputs.fallback_model],
    )
}

pub open spec fn effective_provider_spec(inputs: LlmResolutionView, context: TextMap<Json>) -> Seq<char> {
    match first_text_spec(
        seq![inputs.node_provider, context_text_spec(context, RUNTIME_LAUNCH_PROVIDER_KEY@), inputs.fallback_provider],
    ) {
        Some(p) => unicode_lowercase(p),
        None => "codex"@,
    }
}

pub open spec fn effective_profile_spec(inputs: LlmResolutionView, context: TextMap<Json>) -> Option<Seq<char>> {
    first_text_spec(
        seq![inputs.node_profile, context_text_spec(context, RUNTIME_LAUNCH_PROFILE_KEY@), inputs.fallback_profile],
    )
}

pub open spec fn effective_reasoning_spec(inputs: LlmResolutionView, context: TextMap<Json>) -> Option<Seq<char>> {
    let authored = if inputs.node_reasoning_is_default_placeholder {
        None
    } else {
        inputs.node_reasoning_effort
    };
    match first_text_spec(
        seq![authored, context_text_spec(context, RUNTIME_LAUNCH_REASONING_EFFORT_KEY@), inputs.fallback_reasoning_effort],
    ) {
        Some(e) => Some(unicode_lowercase(e)),
        None => None,
    }
}

/// The node's model, the launch model, or the fallback: the first that is
/// neither blank nor the display placeholder.
pub fn resolve_effective_llm_model(inputs: &LlmResolutionInputs, context: &TextMap<Json>) -> (r: Option<String>)
    ensures
        opt_seq(r) == effective_model_spec(inputs@, *context),
{
    let launch_model = context_text(context, RUNTIME_LAUNCH_MODEL_KEY);
    let v = vec![as_opt_str(&inputs.node_model), as_opt_str(&launch_model), as_opt_str(&inputs.fallback_model)];
    assert(opt_strs_view(v@) =~= seq![
        inputs@.node_model,
        context_text_spec(*context, RUNTIME_LAUNCH_MODEL_KEY@),
        inputs@.fallback_model,
    ]);
    first_model_text(&v)
}

/// The node's provider, the launch provider, or the fallback, lowercased;
/// `codex` when none is set.
pub fn resolve_effective_llm_provider(inputs: &LlmResolutionInputs, context: &TextMap<Json>) -> (r: String)
    ensures
        r@ == effective_provider_spec(inputs@, *context),
{
    let launch_provider = context_text(context, RUNTIME_LAUNCH_PROVIDER_KEY);
    let v = vec![
        as_opt_str(&inputs.node_provider),
        as_opt_str(&launch_provider),
        as_opt_str(&inputs.fallback_provider),
    ];
    assert(opt_strs_view(v@) =~= seq![
        inputs@.node_provider,
        context_text_spec(*context, RUNTIME_LAUNCH_PROVIDER_KEY@),
        inputs@.fallback_provider,
    ]);
    match first_text(&v) {
        Some(p) => to_lowercase(p.as_str()),
        None => owned("codex"),
    }
}

/// The node's profile, the launch profile, or the fallback.
pub fn resolve_effective_llm_profile(inputs: &LlmResolutionInputs, context: &TextMap<Json>) -> (r: Option<String>)
    ensures
        opt_seq(r) == effective_profile_spec(inputs@, *context),
{
    let launch_profile = context_text(context, RUNTIME_LAUNCH_PROFILE_KEY);
    let v = vec![
        as_opt_str(&inputs.node_profile),
        as_opt_str(&launch_profile),
        as_opt_str(&inputs.fallback_profile),
    ];
    assert(opt_strs_view(v@) =~= seq![
        inputs@.node_profile,
        context_text_spec(*context, RUNTIME_LAUNCH_PROFILE_KEY@),
        inputs@.fallback_profile,
    ]);
    first_text(&v)
}

/// The node's reasoning effort unless it is the placeholder, the launch
/// effort, or the fallback, lowercased.
pub fn resolve_effective_reasoning_effort(inputs: &LlmResolutionInputs, context: &TextMap<Json>) -> (r: Option<String>)
    ensures
        opt_seq(r) == effective_reasoning_spec(inputs@, *context),
{
    let launch_reasoning = context_text(context, RUNTIME_LAUNCH_REASONING_EFFORT_KEY);
    let authored = if inputs.node_reasoning_is_default_placeholder {
        None
    } else {
        as_opt_str(&inputs.node_reasoning_effort)
    };
    let v = vec![authored, as_opt_str(&launch_reasoning), as_opt_str(&inputs.fallback_reasoning_effort)];
    assert(opt_strs_view(v@) =~= seq![
        if inputs@.node_reasoning_is_default_placeholder {
            None
        } else {
            inputs@.node_reasoning_effort
        },
        context_text_spec(*context, RUNTIME_LAUNCH_REASONING_EFFORT_KEY@),
        inputs@.fallback_reasoning_effort,
    ]);
    match first_text(&v) {
        Some(e) => Some(to_lowercase(e.as_str())),
        None => None,
    }
}

} // verus!
