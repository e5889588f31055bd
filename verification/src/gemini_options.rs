//! Gemini request settings: the tool config a tool choice asks for, and the
//! provider options split into body fields, generation config and tools.
use vstd::prelude::*;
use crate::anthropic_options::{has_name, opt_json_result_view};
use crate::errors::{SDKError, SDKErrorKind, SDKErrorView};
use crate::json::{Json, JsonView, copy_json, get, json_get, jv, jv_items, jv_members};
use crate::native::{provider_error_spec, tool_choice_kind};
use crate::payload::{invalid_request_error, invalid_request_spec, json_str, obj1, obj2, object1, object2};
use crate::text::{concat3, debug_quoted, debug_text, owned, str_eq};
use crate::tool_merge::{insert_member, members_insert};
use crate::tools::{ToolChoice, ToolChoiceKind, ToolChoiceKindView, parse_error_to_adapter_spec, tool_choice_kind_spec};
use crate::url::texts_view;

verus! {

// ----- tool config -----
/// The kind a tool choice asks for, or the error Gemini reports for it.
pub open spec fn gemini_choice_kind(value: Option<ToolChoice>) -> Option<Result<ToolChoiceKindView, SDKErrorView>> {
    match value {
        None => None,
        Some(c) => Some(
            match tool_choice_kind_spec(c.mode@, c.tool_name) {
                Ok(k) => Ok(k),
                Err(pe) => Err(parse_error_to_adapter_spec(pe, "gemini"@)),
            },
        ),
    }
}

/// A function-calling config in one mode.
pub open spec fn calling_mode(mode: Seq<char>) -> JsonView {
    obj1("functionCallingConfig"@, obj1("mode"@, JsonView::Str(mode)))
}

/// The `toolConfig` of a Gemini request: none without a choice and without
/// tools, `AUTO` by default, `NONE` when tools are disabled, `ANY` for a
/// required choice (which needs tools), and `ANY` limited to one function
/// for a named choice (which needs that tool).
pub open spec fn gemini_tool_config_spec(value: Option<ToolChoice>, names: Seq<String>) -> Result<Option<JsonView>, SDKErrorView> {
    match gemini_choice_kind(value) {
        Some(Err(e)) => Err(e),
        None => if names.len() == 0 {
            Ok(None)
        } else {
            Ok(Some(calling_mode("AUTO"@)))
        },
        Some(Ok(k)) => match k {
            ToolChoiceKindView::Auto => Ok(Some(calling_mode("AUTO"@))),
            ToolChoiceKindView::Disabled => Ok(Some(calling_mode("NONE"@))),
            ToolChoiceKindView::Required => if names.len() == 0 {
                Err(
                    provider_error_spec(
                        SDKErrorKind::UnsupportedToolChoice,
                        "gemini"@,
                        "Gemini required tool_choice requires at least one tool"@,
                    ),
                )
            } else {
                Ok(Some(calling_mode("ANY"@)))
            },
            ToolChoiceKindView::Named(name) => if !has_name(names, name) {
                Err(
                    provider_error_spec(
                        SDKErrorKind::UnsupportedToolChoice,
                        "gemini"@,
                        "Gemini named tool_choice "@ + debug_text(name) + " requires a matching tool"@,
                    ),
                )
            } else {
                Ok(
                    Some(
                        obj1(
                            "functionCallingConfig"@,
                            obj2(
                                "allowedFunctionNames"@,
                                JsonView::Array(seq![JsonView::Str(name)]),
                                "mode"@,
                                JsonView::Str("ANY"@),
                            ),
                        ),
                    ),
                )
            },
        },
    }
}

fn calling_mode_json(mode: &str) -> (r: Json)
    ensures
        jv(r) == calling_mode(mode@),
{
    object1("functionCallingConfig", object1("mode", json_str(mode)))
}

fn names_contain(names: &Vec<String>, name: &str) -> (r: bool)
    ensures
        r == has_name(names@, name@),
{
    let mut i: usize = 0;
    while i < names.len()
        invariant
            i <= names@.len(),
            forall|j: int| 0 <= j < i ==> names@[j]@ != name@,
        decreases names@.len() - i,
    {
        if str_eq(names[i].as_str(), name) {
            return true;
        }
        i = i + 1;
    }
    false
}

/// The `toolConfig` of a Gemini request with these tools.
pub fn gemini_tool_config(value: Option<&ToolChoice>, tool_names: &Vec<String>) -> (r: Result<Option<Json>, SDKError>)
    ensures
        opt_json_result_view(r) == gemini_tool_config_spec(
            match value {
                Some(c) => Some(*c),
                None => None,
            },
            tool_names@,
        ),
{
    let choice = match value {
        Some(c) => match tool_choice_kind(c, "gemini") {
            Ok(k) => k,
            Err(e) => return Err(e),
        },
        None => {
            if tool_names.len() == 0 {
                return Ok(None);
            }
            ToolChoiceKind::Auto
        },
    };
    match choice {
        ToolChoiceKind::Auto => Ok(Some(calling_mode_json("AUTO"))),
        ToolChoiceKind::Disabled => Ok(Some(calling_mode_json("NONE"))),
        ToolChoiceKind::Required => {
            if tool_names.len() == 0 {
                return Err(
                    SDKError::provider(
                        SDKErrorKind::UnsupportedToolChoice,
                        owned("Gemini required tool_choice requires at least one tool"),
                        Some(owned("gemini")),
                    ),
                );
            }
            Ok(Some(calling_mode_json("ANY")))
        },
        ToolChoiceKind::Named(name) => {
            if !names_contain(tool_names, name.as_str()) {
                let quoted = debug_quoted(name.as_str());
                return Err(
                    SDKError::provider(
                        SDKErrorKind::UnsupportedToolChoice,
                        concat3("Gemini named tool_choice ", quoted.as_str(), " requires a matching tool"),
                        Some(owned("gemini")),
                    ),
                );
            }
            let ghost nv = name@;
            let mut allowed: Vec<Json> = Vec::new();
            allowed.push(Json::Str(name));
            proof {
                crate::json::lemma_jv_items_index(allowed@);
                assert(jv_items(allowed@) =~= seq![JsonView::Str(nv)]);
            }
            Ok(
                Some(
                    object1(
                        "functionCallingConfig",
                        object2("allowedFunctionNames", Json::Array(allowed), "mode", json_str("ANY")),
                    ),
                ),
            )
        },
    }
}

// ----- provider options -----
/// The option keys that go to the body as they are.
pub open spec fn gemini_body_option_keys() -> Seq<Seq<char>> {
    seq!["cachedContent"@, "groundingConfig"@, "labels"@, "safetySettings"@, "systemInstruction"@, "toolConfig"@]
}

/// The option keys that go into the generation config.
pub open spec fn gemini_generation_option_keys() -> Seq<Seq<char>> {
    seq![
        "candidateCount"@,
        "frequencyPenalty"@,
        "logprobs"@,
        "maxOutputTokens"@,
        "mediaResolution"@,
        "presencePenalty"@,
        "responseLogprobs"@,
        "responseMimeType"@,
        "responseSchema"@,
        "seed"@,
        "stopSequences"@,
        "temperature"@,
        "thinkingConfig"@,
        "topK"@,
        "topP"@,
    ]
}

fn body_option_keys() -> (r: Vec<&'static str>)
    ensures
        texts_view(r@) == gemini_body_option_keys(),
{
    let mut v: Vec<&'static str> = Vec::new();
    v.push("cachedContent");
    v.push("groundingConfig");
    v.push("labels");
    v.push("safetySettings");
    v.push("systemInstruction");
    v.push("toolConfig");
    assert(texts_view(v@) =~= gemini_body_option_keys());
    v
}

fn generation_option_keys() -> (r: Vec<&'static str>)
    ensures
        texts_view(r@) == gemini_generation_option_keys(),
{
    let mut v: Vec<&'static str> = Vec::new();
    v.push("candidateCount");
    v.push("frequencyPenalty");
    v.push("logprobs");
    v.push("maxOutputTokens");
    v.push("mediaResolution");
    v.push("presencePenalty");
    v.push("responseLogprobs");
    v.push("responseMimeType");
    v.push("responseSchema");
    v.push("seed");
    v.push("stopSequences");
    v.push("temperature");
    v.push("thinkingConfig");
    v.push("topK");
    v.push("topP");
    assert(texts_view(v@) =~= gemini_generation_option_keys());
    v
}

/// The options named by `keys`, in the order of the keys.
pub open spec fn selected_fields(options: Json, keys: Seq<Seq<char>>) -> Seq<(Seq<char>, JsonView)>
    decreases keys.len(),
{
    if keys.len() == 0 {
        Seq::empty()
    } else {
        let r = selected_fields(options, keys.drop_last());
        match json_get(options, keys.last()) {
            Some(v) => members_insert(r, keys.last(), jv(v)),
            None => r,
        }
    }
}

/// The options named by `keys`.
pub fn select_json_fields(options: &Json, allowed_keys: &Vec<&str>) -> (r: Vec<(String, Json)>)
    ensures
        jv_members(r@) == selected_fields(*options, texts_view(allowed_keys@)),
{
    let ghost kv = texts_view(allowed_keys@);
    let mut selected: Vec<(String, Json)> = Vec::new();
    let mut i: usize = 0;
    assert(kv.subrange(0, 0) =~= Seq::<Seq<char>>::empty());
    assert(jv_members(selected@) =~= Seq::<(Seq<char>, JsonView)>::empty());
    while i < allowed_keys.len()
        invariant
            i <= allowed_keys@.len(),
            kv == texts_view(allowed_keys@),
            kv.len() == allowed_keys@.len(),
            jv_members(selected@) == selected_fields(*options, kv.subrange(0, i as int)),
        decreases allowed_keys@.len() - i,
    {
        proof {
            let t = kv.subrange(0, i + 1);
            assert(t.drop_last() =~= kv.subrange(0, i as int));
            assert(t.last() == allowed_keys@[i as int]@);
        }
        let key = allowed_keys[i];
        match get(options, key) {
            Some(v) => insert_member(&mut selected, owned(key), copy_json(v)),
            None => {},
        }
        i = i + 1;
    }
    assert(kv.subrange(0, kv.len() as int) =~= kv);
    selected
}

/// A generation config whose `thinkingConfig`, if given, is an object.
pub open spec fn thinking_config_check(config: Json) -> Result<(), SDKErrorView> {
    match json_get(config, "thinkingConfig"@) {
        Some(t) => if t is Object {
            Ok(())
        } else {
            Err(invalid_request_spec("gemini"@, "Gemini provider_options.generationConfig.thinkingConfig must be an object"@))
        },
        None => Ok(()),
    }
}

/// Checks that a generation config's `thinkingConfig`, if given, is an object.
pub fn validate_gemini_thinking_config(config: &Json) -> (r: Result<(), SDKError>)
    ensures
        crate::gemini_request::unit_result_view(r) == thinking_config_check(*config),
{
    match get(config, "thinkingConfig") {
        Some(t) => match t {
            Json::Object(_) => Ok(()),
            _ => Err(
                invalid_request_error(
                    "gemini",
                    owned("Gemini provider_options.generationConfig.thinkingConfig must be an object"),
                ),
            ),
        },
        None => Ok(()),
    }
}

/// The generation config with the generation options among `keys` put in
/// (a `thinkingConfig` must be an object).
pub open spec fn generation_fold(options: Json, config: Option<Seq<(Seq<char>, JsonView)>>, keys: Seq<Seq<char>>) -> Result<Option<Seq<(Seq<char>, JsonView)>>, SDKErrorView>
    decreases keys.len(),
{
    if keys.len() == 0 {
        Ok(config)
    } else {
        match generation_fold(options, config, keys.drop_last()) {
            Err(e) => Err(e),
            Ok(c) => match json_get(options, keys.last()) {
                None => Ok(c),
                Some(v) => if keys.last() == "thinkingConfig"@ && !(v is Object) {
                    Err(invalid_request_spec("gemini"@, "Gemini provider_options.thinkingConfig must be an object"@))
                } else {
                    Ok(
                        Some(
                            members_insert(
                                match c {
                                    Some(m) => m,
                                    None => Seq::empty(),
                                },
                                keys.last(),
                                jv(v),
                            ),
                        ),
                    )
                },
            },
        }
    }
}

/// The Gemini provider options split up: the body fields, the generation
/// config (the given `generationConfig` object with the generation options
/// put in), and the native tools (which must be an array).
pub open spec fn split_options_spec(options: Json) -> Result<(Seq<(Seq<char>, JsonView)>, Option<JsonView>, Option<Seq<JsonView>>), SDKErrorView> {
    let native = selected_fields(options, gemini_body_option_keys());
    let tools: Result<Option<Seq<JsonView>>, SDKErrorView> = match json_get(options, "tools"@) {
        Some(Json::Array(items)) => Ok(Some(jv_items(items@))),
        Some(_) => Err(invalid_request_spec("gemini"@, "Gemini provider_options.tools must be an array"@)),
        None => Ok(None),
    };
    let config: Result<Option<Seq<(Seq<char>, JsonView)>>, SDKErrorView> = match json_get(options, "generationConfig"@) {
        Some(v) => match v {
            Json::Object(ms) => match thinking_config_check(v) {
                Ok(_) => Ok(Some(jv_members(ms@))),
                Err(e) => Err(e),
            },
            _ => Err(invalid_request_spec("gemini"@, "Gemini provider_options.generationConfig must be an object"@)),
        },
        None => Ok(None),
    };
    match tools {
        Err(e) => Err(e),
        Ok(t) => match config {
            Err(e) => Err(e),
            Ok(c) => match generation_fold(options, c, gemini_generation_option_keys()) {
                Err(e) => Err(e),
                Ok(g) => Ok(
                    (
                        native,
                        match g {
                            Some(m) => Some(JsonView::Object(m)),
                            None => None,
                        },
                        t,
                    ),
                ),
            },
        },
    }
}

proof fn lemma_fold_error_stays(options: Json, config: Option<Seq<(Seq<char>, JsonView)>>, keys: Seq<Seq<char>>, k: int)
    requires
        0 <= k <= keys.len(),
        generation_fold(options, config, keys.subrange(0, k)) is Err,
    ensures
        generation_fold(options, config, keys) == generation_fold(options, config, keys.subrange(0, k)),
    decreases keys.len(),
{
    if k == keys.len() {
        assert(keys.subrange(0, k) =~= keys);
    } else {
        assert(keys.drop_last().subrange(0, k) =~= keys.subrange(0, k));
        lemma_fold_error_stays(options, config, keys.drop_last(), k);
    }
}

pub open spec fn opt_members_view(o: Option<Vec<(String, Json)>>) -> Option<Seq<(Seq<char>, JsonView)>> {
    match o {
        Some(m) => Some(jv_members(m@)),
        None => None,
    }
}

pub open spec fn split_result_view(r: Result<(Vec<(String, Json)>, Option<Json>, Option<Vec<Json>>), SDKError>) -> Result<(Seq<(Seq<char>, JsonView)>, Option<JsonView>, Option<Seq<JsonView>>), SDKErrorView> {
    match r {
        Ok((n, g, t)) => Ok(
            (
                jv_members(n@),
                match g {
                    Some(v) => Some(jv(v)),
                    None => None,
                },
                match t {
                    Some(items) => Some(jv_items(items@)),
                    None => None,
                },
            ),
        ),
        Err(e) => Err(e@),
    }
}

/// Splits the Gemini provider options into body fields, generation config
/// and native tools.
pub fn split_gemini_provider_options(options: &Json) -> (r: Result<(Vec<(String, Json)>, Option<Json>, Option<Vec<Json>>), SDKError>)
    ensures
        split_result_view(r) == split_options_spec(*options),
{
    let body_keys = body_option_keys();
    let native = select_json_fields(options, &body_keys);
    let tools = match get(options, "tools") {
        Some(Json::Array(items)) => Some(crate::anthropic_messages::copy_items(items)),
        Some(_) => return Err(invalid_request_error("gemini", owned("Gemini provider_options.tools must be an array"))),
        None => None,
    };
    let mut config: Option<Vec<(String, Json)>> = match get(options, "generationConfig") {
        Some(v) => match v {
            Json::Object(_) => {
                match validate_gemini_thinking_config(v) {
                    Ok(()) => {},
                    Err(e) => return Err(e),
                }
                match copy_json(v) {
                    Json::Object(ms) => Some(ms),
                    _ => None,
                }
            },
            _ => return Err(
                invalid_request_error("gemini", owned("Gemini provider_options.generationConfig must be an object")),
            ),
        },
        None => None,
    };
    let ghost c0 = opt_members_view(config);
    let keys = generation_option_keys();
    let ghost kv = texts_view(keys@);
    let mut i: usize = 0;
    assert(kv.subrange(0, 0) =~= Seq::<Seq<char>>::empty());
    while i < keys.len()
        invariant
            i <= keys@.len(),
            kv == texts_view(keys@),
            kv.len() == keys@.len(),
            kv == gemini_generation_option_keys(),
            match json_get(*options, "tools"@) {
                Some(Json::Array(_)) => true,
                Some(_) => false,
                None => true,
            },
            match json_get(*options, "generationConfig"@) {
                Some(v) => match v {
                    Json::Object(ms) => thinking_config_check(v) is Ok && c0 == Some(jv_members(ms@)),
                    _ => false,
                },
                None => c0 is None,
            },
            generation_fold(*options, c0, kv.subrange(0, i as int)) == Ok::<
                Option<Seq<(Seq<char>, JsonView)>>,
                SDKErrorView,
            >(opt_members_view(config)),
        decreases keys@.len() - i,
    {
        proof {
            let t = kv.subrange(0, i + 1);
            assert(t.drop_last() =~= kv.subrange(0, i as int));
            assert(t.last() == keys@[i as int]@);
        }
        let key = keys[i];
        match get(options, key) {
            None => {},
            Some(value) => {
                let is_object = match value {
                    Json::Object(_) => true,
                    _ => false,
                };
                if str_eq(key, "thinkingConfig") && !is_object {
                    proof {
                        lemma_fold_error_stays(*options, c0, kv, i + 1);
                    }
                    return Err(invalid_request_error("gemini", owned("Gemini provider_options.thinkingConfig must be an object")));
                }
                let mut members = match config {
                    Some(m) => m,
                    None => {
                        let e: Vec<(String, Json)> = Vec::new();
                        assert(jv_members(e@) =~= Seq::<(Seq<char>, JsonView)>::empty());
                        e
                    },
                };
                insert_member(&mut members, owned(key), copy_json(value));
                config = Some(members);
            },
        }
        i = i + 1;
    }
    assert(kv.subrange(0, kv.len() as int) =~= kv);
    let generation = match config {
        Some(m) => Some(Json::Object(m)),
        None => None,
    };
    Ok((native, generation, tools))
}

} // verus!
