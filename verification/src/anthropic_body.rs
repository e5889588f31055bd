//! The body of an Anthropic Messages request: the messages and system
//! blocks, sampling settings, provider options, tools and tool choice
//! (with the structured-output tool when a response format asks for one),
//! and prompt caching.
use vstd::prelude::*;
use crate::anthropic_messages::{
    anthropic_message_payloads, anthropic_system_payload, append_anthropic_system_text, append_system_text_spec, copy_items,
    message_payloads_spec, opt_json_view, system_payload_spec,
};
use crate::anthropic_options::{
    STRUCTURED_OUTPUT_TOOL_NAME, anthropic_cache_control, anthropic_structured_output_instruction, anthropic_structured_output_tool,
    anthropic_system_instruction, anthropic_tool_choice_payload, anthropic_tool_choice_spec, apply_anthropic_cache_control,
    body_cache_spec, cache_control_spec, count_view, lemma_count_view, opt_ref,
    structured_instruction_spec, structured_tool_choice_spec, system_instruction_spec,
};
use crate::errors::{SDKError, SDKErrorView};
use crate::gemini::decimal_text;
use crate::gemini_body::{request_images_loaded, string_items, strings_view, tool_names, tool_names_spec, u64_text};
use crate::gemini_request::json_result_view;
use crate::json::{Json, JsonView, copy_json, get, json_get, jv, jv_items, jv_members, lemma_jv_items_push, view_member_get};
use crate::native::tool_choice_kind;
use crate::payload::{invalid_request_error, invalid_request_spec, json_str, obj2, object2};
use crate::request::Request;
use crate::text::owned;
use crate::textmap::TextMap;
use crate::tool_merge::{find_member, insert_member, lemma_member_value_at, members_insert};
use crate::tools::{
    Tool, ToolChoice, ToolChoiceKind, ToolChoiceKindView, kind_view, parse_error_to_adapter_spec, tool_check,
    tool_choice_kind_spec,
};

verus! {

// ----- tools -----
/// The input schema of a tool without parameters: an object with no
/// properties.
pub open spec fn default_input_schema() -> JsonView {
    obj2("properties"@, JsonView::Object(Seq::empty()), "type"@, JsonView::Str("object"@))
}

/// The Anthropic definition of a tool: name, description (empty when it has
/// none), input schema, and the cache control its metadata asks for, which
/// must be an object; a tool that fails its checks is refused.
pub open spec fn tool_definition_spec(tool: Tool) -> Result<JsonView, SDKErrorView> {
    match tool_check(tool) {
        Err(m) => Err(invalid_request_spec("anthropic"@, m)),
        Ok(_) => {
            let m1 = members_insert(Seq::empty(), "name"@, JsonView::Str(tool.name@));
            let m2 = members_insert(
                m1,
                "description"@,
                JsonView::Str(
                    match tool.description {
                        Some(d) => d@,
                        None => Seq::empty(),
                    },
                ),
            );
            let m3 = members_insert(
                m2,
                "input_schema"@,
                match tool.parameters {
                    Some(p) => jv(p),
                    None => default_input_schema(),
                },
            );
            match tool.provider_metadata.lookup("cache_control"@) {
                None => Ok(JsonView::Object(m3)),
                Some(v) => if v is Object {
                    Ok(JsonView::Object(members_insert(m3, "cache_control"@, jv(v))))
                } else {
                    Err(invalid_request_spec("anthropic"@, "Anthropic tool cache_control must be an object"@))
                },
            }
        },
    }
}

/// The Anthropic definition of a tool.
pub fn anthropic_tool_definition(tool: &Tool) -> (r: Result<Json, SDKError>)
    ensures
        json_result_view(r) == tool_definition_spec(*tool),
{
    match tool.validate() {
        Ok(()) => {},
        Err(m) => return Err(invalid_request_error("anthropic", m)),
    }
    let mut members: Vec<(String, Json)> = Vec::new();
    assert(jv_members(members@) =~= Seq::<(Seq<char>, JsonView)>::empty());
    insert_member(&mut members, owned("name"), Json::Str(tool.name.clone()));
    let description = match &tool.description {
        Some(d) => d.clone(),
        None => String::new(),
    };
    assert(description@ == match tool.description {
        Some(d) => d@,
        None => Seq::<char>::empty(),
    });
    insert_member(&mut members, owned("description"), Json::Str(description));
    let schema = match &tool.parameters {
        Some(p) => copy_json(p),
        None => {
            let empty: Vec<(String, Json)> = Vec::new();
            assert(jv_members(empty@) =~= Seq::<(Seq<char>, JsonView)>::empty());
            object2("properties", Json::Object(empty), "type", json_str("object"))
        },
    };
    insert_member(&mut members, owned("input_schema"), schema);
    match tool.provider_metadata.get("cache_control") {
        None => {},
        Some(v) => match v {
            Json::Object(_) => insert_member(&mut members, owned("cache_control"), copy_json(v)),
            _ => return Err(invalid_request_error("anthropic", owned("Anthropic tool cache_control must be an object"))),
        },
    }
    Ok(Json::Object(members))
}

/// The definitions of the tools in order; the first tool refused stops it.
pub open spec fn tool_definitions_spec(tools: Seq<Tool>) -> Result<Seq<JsonView>, SDKErrorView>
    decreases tools.len(),
{
    if tools.len() == 0 {
        Ok(Seq::empty())
    } else {
        match tool_definitions_spec(tools.drop_last()) {
            Err(e) => Err(e),
            Ok(done) => match tool_definition_spec(tools.last()) {
                Err(e) => Err(e),
                Ok(x) => Ok(done.push(x)),
            },
        }
    }
}

proof fn lemma_definitions_error_stays(tools: Seq<Tool>, k: int)
    requires
        0 <= k <= tools.len(),
        tool_definitions_spec(tools.subrange(0, k)) is Err,
    ensures
        tool_definitions_spec(tools) == tool_definitions_spec(tools.subrange(0, k)),
    decreases tools.len(),
{
    if k == tools.len() {
        assert(tools.subrange(0, k) =~= tools);
    } else {
        assert(tools.drop_last().subrange(0, k) =~= tools.subrange(0, k));
        lemma_definitions_error_stays(tools.drop_last(), k);
    }
}

fn tool_definitions(tools: &Vec<Tool>) -> (r: Result<Vec<Json>, SDKError>)
    ensures
        match r {
            Ok(v) => tool_definitions_spec(tools@) == Ok::<Seq<JsonView>, SDKErrorView>(jv_items(v@)),
            Err(e) => tool_definitions_spec(tools@) == Err::<Seq<JsonView>, SDKErrorView>(e@),
        },
{
    let mut out: Vec<Json> = Vec::new();
    let mut i: usize = 0;
    assert(tools@.subrange(0, 0) =~= Seq::<Tool>::empty());
    while i < tools.len()
        invariant
            i <= tools@.len(),
            tool_definitions_spec(tools@.subrange(0, i as int)) == Ok::<Seq<JsonView>, SDKErrorView>(jv_items(out@)),
        decreases tools@.len() - i,
    {
        assert(tools@.subrange(0, i + 1).drop_last() =~= tools@.subrange(0, i as int));
        let x = match anthropic_tool_definition(&tools[i]) {
            Ok(x) => x,
            Err(e) => {
                proof {
                    lemma_definitions_error_stays(tools@, i + 1);
                }
                return Err(e);
            },
        };
        let ghost before = out@;
        out.push(x);
        proof {
            lemma_jv_items_push(before, x);
        }
        i = i + 1;
    }
    assert(tools@.subrange(0, i as int) =~= tools@);
    Ok(out)
}

/// Every tool passes its checks; the first that does not is reported for
/// the provider.
pub open spec fn tools_check_spec(tools: Seq<Tool>, provider: Seq<char>) -> Result<(), SDKErrorView>
    decreases tools.len(),
{
    if tools.len() == 0 {
        Ok(())
    } else {
        match tools_check_spec(tools.drop_last(), provider) {
            Err(e) => Err(e),
            Ok(_) => match tool_check(tools.last()) {
                Err(m) => Err(invalid_request_spec(provider, m)),
                Ok(_) => Ok(()),
            },
        }
    }
}

proof fn lemma_check_error_stays(tools: Seq<Tool>, k: int, provider: Seq<char>)
    requires
        0 <= k <= tools.len(),
        tools_check_spec(tools.subrange(0, k), provider) is Err,
    ensures
        tools_check_spec(tools, provider) == tools_check_spec(tools.subrange(0, k), provider),
    decreases tools.len(),
{
    if k == tools.len() {
        assert(tools.subrange(0, k) =~= tools);
    } else {
        assert(tools.drop_last().subrange(0, k) =~= tools.subrange(0, k));
        lemma_check_error_stays(tools.drop_last(), k, provider);
    }
}

/// Checks every tool definition.
pub fn validate_tool_definitions(tools: &Vec<Tool>, provider: &str) -> (r: Result<(), SDKError>)
    ensures
        match r {
            Ok(()) => tools_check_spec(tools@, provider@) is Ok,
            Err(e) => tools_check_spec(tools@, provider@) == Err::<(), SDKErrorView>(e@),
        },
{
    let mut i: usize = 0;
    assert(tools@.subrange(0, 0) =~= Seq::<Tool>::empty());
    while i < tools.len()
        invariant
            i <= tools@.len(),
            tools_check_spec(tools@.subrange(0, i as int), provider@) is Ok,
        decreases tools@.len() - i,
    {
        assert(tools@.subrange(0, i + 1).drop_last() =~= tools@.subrange(0, i as int));
        match tools[i].validate() {
            Ok(()) => {},
            Err(m) => {
                proof {
                    lemma_check_error_stays(tools@, i + 1, provider@);
                }
                return Err(invalid_request_error(provider, m));
            },
        }
        i = i + 1;
    }
    assert(tools@.subrange(0, i as int) =~= tools@);
    Ok(())
}

// ----- the body -----
/// The request metadata as an object, in key order.
pub open spec fn metadata_view(m: TextMap<Json>) -> Seq<(Seq<char>, JsonView)> {
    Seq::new(m.key_seq().len(), |i: int| (m.key_seq()[i], jv(m.value_seq()[i])))
}

fn metadata_members(m: &TextMap<Json>) -> (r: Vec<(String, Json)>)
    ensures
        jv_members(r@) == metadata_view(*m),
{
    let mut out: Vec<(String, Json)> = Vec::new();
    let mut i: usize = 0;
    while i < m.len()
        invariant
            i <= m.key_seq().len(),
            out@.len() == i,
            forall|j: int| 0 <= j < i ==> (#[trigger] out@[j]).0@ == m.key_seq()[j] && jv(out@[j].1) == jv(m.value_seq()[j]),
        decreases m.key_seq().len() - i,
    {
        let k = m.key_at(i).clone();
        let v = copy_json(m.value_at(i));
        out.push((k, v));
        i = i + 1;
    }
    proof {
        crate::json::lemma_jv_members_index(out@);
        assert(jv_members(out@) =~= metadata_view(*m));
    }
    out
}

/// The members a request gives itself: model, messages, the token limit
/// (4096 unless set), sampling settings, stop sequences and metadata.
pub open spec fn base_members_spec(request: Request, messages: Seq<JsonView>) -> Seq<(Seq<char>, JsonView)> {
    let m1 = members_insert(Seq::empty(), "model"@, JsonView::Str(request.model@));
    let m2 = members_insert(m1, "messages"@, JsonView::Array(messages));
    let m3 = members_insert(
        m2,
        "max_tokens"@,
        JsonView::Number(
            decimal_text(
                match request.max_tokens {
                    Some(n) => n as nat,
                    None => 4096,
                },
            ),
        ),
    );
    let m4 = match request.temperature {
        Some(t) => members_insert(m3, "temperature"@, jv(t)),
        None => m3,
    };
    let m5 = match request.top_p {
        Some(t) => members_insert(m4, "top_p"@, jv(t)),
        None => m4,
    };
    let m6 = if request.stop_sequences@.len() > 0 {
        members_insert(m5, "stop_sequences"@, JsonView::Array(strings_view(request.stop_sequences@)))
    } else {
        m5
    };
    if request.metadata.key_seq().len() > 0 {
        members_insert(m6, "metadata"@, JsonView::Object(metadata_view(request.metadata)))
    } else {
        m6
    }
}

/// The `thinking` and `output_config` options, each of which must be an
/// object.
pub open spec fn option_fields_spec(body: Seq<(Seq<char>, JsonView)>, options: Option<Json>) -> Result<Seq<(Seq<char>, JsonView)>, SDKErrorView> {
    match options {
        None => Ok(body),
        Some(o) => {
            let with_thinking = match json_get(o, "thinking"@) {
                None => Ok(body),
                Some(v) => if v is Object {
                    Ok(members_insert(body, "thinking"@, jv(v)))
                } else {
                    Err(invalid_request_spec("anthropic"@, "Anthropic provider_options.thinking must be an object"@))
                },
            };
            match with_thinking {
                Err(e) => Err(e),
                Ok(b1) => match json_get(o, "output_config"@) {
                    None => Ok(b1),
                    Some(v) => if v is Object {
                        Ok(members_insert(b1, "output_config"@, jv(v)))
                    } else {
                        Err(invalid_request_spec("anthropic"@, "Anthropic provider_options.output_config must be an object"@))
                    },
                },
            }
        },
    }
}

/// The kind of the tool choice, if one is given.
pub open spec fn choice_kind_spec(choice: Option<ToolChoice>, provider: Seq<char>) -> Result<Option<ToolChoiceKindView>, SDKErrorView> {
    match choice {
        None => Ok(None),
        Some(c) => match tool_choice_kind_spec(c.mode@, c.tool_name) {
            Err(pe) => Err(parse_error_to_adapter_spec(pe, provider)),
            Ok(k) => Ok(Some(k)),
        },
    }
}

/// The tools with the structured-output tool appended, the tools array
/// being made when there is none.
pub open spec fn with_structured_tool(body: Seq<(Seq<char>, JsonView)>, tool: JsonView) -> Seq<(Seq<char>, JsonView)> {
    match view_member_get(body, "tools"@) {
        Some(JsonView::Array(a)) => members_insert(body, "tools"@, JsonView::Array(a.push(tool))),
        Some(_) => body,
        None => members_insert(body, "tools"@, JsonView::Array(seq![tool])),
    }
}

/// The tool choice that forces the structured-output tool.
pub open spec fn structured_choice() -> JsonView {
    obj2("name"@, JsonView::Str(STRUCTURED_OUTPUT_TOOL_NAME@), "type"@, JsonView::Str("tool"@))
}

/// The body from the tools on: the tool definitions unless tools are
/// disabled, the structured-output tool and its forced choice or else the
/// tool choice asked for, and the cache control of the options.
pub open spec fn body_tail_spec(
    request: Request,
    options: Option<Json>,
    b3: Seq<(Seq<char>, JsonView)>,
    stool: Option<JsonView>,
) -> Result<JsonView, SDKErrorView> {
    match choice_kind_spec(request.tool_choice, "anthropic"@) {
        Err(e) => Err(e),
        Ok(kind) => match tools_check_spec(request.tools@, "native"@) {
            Err(e) => Err(e),
            Ok(_) => {
                let want = request.tools@.len() > 0 && kind != Some(ToolChoiceKindView::Disabled);
                let defs = if want {
                    match tool_definitions_spec(request.tools@) {
                        Err(e) => Err(e),
                        Ok(d) => Ok(Some(d)),
                    }
                } else {
                    Ok(None)
                };
                match defs {
                    Err(e) => Err(e),
                    Ok(d) => {
                        let b4 = match d {
                            Some(ds) => members_insert(b3, "tools"@, JsonView::Array(ds)),
                            None => b3,
                        };
                        let b5 = match stool {
                            Some(t) => Ok(members_insert(with_structured_tool(b4, t), "tool_choice"@, structured_choice())),
                            None => match anthropic_tool_choice_spec(kind, tool_names_spec(request.tools@)) {
                                Err(e) => Err(e),
                                Ok(Some(c)) => Ok(members_insert(b4, "tool_choice"@, c)),
                                Ok(None) => Ok(b4),
                            },
                        };
                        match b5 {
                            Err(e) => Err(e),
                            Ok(b6) => match cache_control_spec(options) {
                                Err(e) => Err(e),
                                Ok(None) => Ok(JsonView::Object(b6)),
                                Ok(Some(c)) => Ok(
                                    JsonView::Object(body_cache_spec(b6, count_view(JsonView::Object(b6)) as int, c)),
                                ),
                            },
                        }
                    },
                }
            },
        },
    }
}

/// The body of an Anthropic Messages request for the active provider
/// options.
pub open spec fn anthropic_messages_body_spec(request: Request, options: Option<Json>) -> Result<JsonView, SDKErrorView> {
    match message_payloads_spec(request.messages@) {
        Err(e) => Err(e),
        Ok((messages, sys0)) => {
            let sys1 = match system_instruction_spec(options) {
                Some(i) => append_system_text_spec(sys0, i),
                None => sys0,
            };
            match structured_tool_choice_spec(request.response_format, tool_names_spec(request.tools@), request.tool_choice) {
                Err(e) => Err(e),
                Ok(stool) => {
                    let sys2 = if stool is None {
                        match structured_instruction_spec(request.response_format) {
                            Some(i) => append_system_text_spec(sys1, i),
                            None => sys1,
                        }
                    } else {
                        sys1
                    };
                    match option_fields_spec(base_members_spec(request, messages), options) {
                        Err(e) => Err(e),
                        Ok(b2) => {
                            let b3 = match system_payload_spec(sys2) {
                                Some(s) => members_insert(b2, "system"@, s),
                                None => b2,
                            };
                            body_tail_spec(request, options, b3, stool)
                        },
                    }
                },
            }
        },
    }
}

fn insert_option_object(body: &mut Vec<(String, Json)>, options: Option<&Json>, key: &str, message: &str) -> (r: Result<(), SDKError>)
    ensures
        match options {
            None => r is Ok && final(body)@ == old(body)@,
            Some(o) => match json_get(*o, key@) {
                None => r is Ok && final(body)@ == old(body)@,
                Some(v) => if v is Object {
                    r is Ok && jv_members(final(body)@) == members_insert(jv_members(old(body)@), key@, jv(v))
                } else {
                    r matches Err(e) && e@ == invalid_request_spec("anthropic"@, message@)
                },
            },
        },
{
    let o = match options {
        Some(o) => o,
        None => return Ok(()),
    };
    match get(o, key) {
        None => Ok(()),
        Some(v) => match v {
            Json::Object(_) => {
                insert_member(body, owned(key), copy_json(v));
                Ok(())
            },
            _ => Err(invalid_request_error("anthropic", owned(message))),
        },
    }
}

fn push_structured_tool(body: &mut Vec<(String, Json)>, tool: Json)
    ensures
        jv_members(final(body)@) == with_structured_tool(jv_members(old(body)@), jv(tool)),
{
    let ghost b0 = jv_members(body@);
    proof {
        lemma_member_value_at(b0, "tools"@);
        crate::json::lemma_jv_members_index(body@);
    }
    match find_member(body, "tools") {
        Some(at) => {
            let items = match &body[at].1 {
                Json::Array(items) => Some(copy_items(items)),
                _ => None,
            };
            match items {
                Some(items) => {
                    let mut items = items;
                    let ghost before = items@;
                    items.push(tool);
                    proof {
                        lemma_jv_items_push(before, tool);
                    }
                    insert_member(body, owned("tools"), Json::Array(items));
                },
                None => {},
            }
        },
        None => {
            let mut items: Vec<Json> = Vec::new();
            items.push(tool);
            proof {
                lemma_jv_items_push(Seq::empty(), tool);
                assert(Seq::<Json>::empty().push(tool) =~= items@);
                assert(jv_items(Seq::<Json>::empty()) =~= Seq::<JsonView>::empty());
            }
            insert_member(body, owned("tools"), Json::Array(items));
        },
    }
}

fn body_tail(
    request: &Request,
    options: Option<&Json>,
    body: Vec<(String, Json)>,
    structured_tool: Option<Json>,
) -> (r: Result<Json, SDKError>)
    ensures
        json_result_view(r) == body_tail_spec(*request, opt_ref(options), jv_members(body@), opt_json_view(structured_tool)),
{
    let mut body = body;
    let kind = match &request.tool_choice {
        None => None,
        Some(c) => match tool_choice_kind(c, "anthropic") {
            Ok(k) => Some(k),
            Err(e) => return Err(e),
        },
    };
    let ghost kv = match &kind {
        Some(k) => Some(kind_view(*k)),
        None => None,
    };
    assert(choice_kind_spec(request.tool_choice, "anthropic"@) == Ok::<Option<ToolChoiceKindView>, SDKErrorView>(kv));
    match validate_tool_definitions(&request.tools, "native") {
        Ok(()) => {},
        Err(e) => return Err(e),
    }
    let disabled = match &kind {
        Some(ToolChoiceKind::Disabled) => true,
        _ => false,
    };
    assert(disabled == (kv == Some(ToolChoiceKindView::Disabled)));
    if request.tools.len() > 0 && !disabled {
        let defs = match tool_definitions(&request.tools) {
            Ok(d) => d,
            Err(e) => return Err(e),
        };
        insert_member(&mut body, owned("tools"), Json::Array(defs));
    }
    match structured_tool {
        Some(t) => {
            push_structured_tool(&mut body, t);
            insert_member(
                &mut body,
                owned("tool_choice"),
                object2("name", json_str(STRUCTURED_OUTPUT_TOOL_NAME), "type", json_str("tool")),
            );
        },
        None => {
            let names = tool_names(&request.tools);
            let choice = match &kind {
                Some(k) => Some(k),
                None => None,
            };
            match anthropic_tool_choice_payload(choice, &names) {
                Err(e) => return Err(e),
                Ok(Some(c)) => insert_member(&mut body, owned("tool_choice"), c),
                Ok(None) => {},
            }
        },
    }
    let cache_control = match anthropic_cache_control(options) {
        Ok(c) => c,
        Err(e) => return Err(e),
    };
    match &cache_control {
        Some(c) => {
            proof {
                lemma_count_view(Json::Object(body));
            }
            apply_anthropic_cache_control(&mut body, Some(c));
        },
        None => {},
    }
    Ok(Json::Object(body))
}

fn base_members(request: &Request, messages: Vec<Json>) -> (r: Vec<(String, Json)>)
    ensures
        jv_members(r@) == base_members_spec(*request, jv_items(messages@)),
{
    let mut body: Vec<(String, Json)> = Vec::new();
    assert(jv_members(body@) =~= Seq::<(Seq<char>, JsonView)>::empty());
    insert_member(&mut body, owned("model"), Json::Str(request.model.clone()));
    insert_member(&mut body, owned("messages"), Json::Array(messages));
    let max_tokens: u64 = match request.max_tokens {
        Some(n) => n,
        None => 4096,
    };
    insert_member(&mut body, owned("max_tokens"), Json::Number(u64_text(max_tokens)));
    match &request.temperature {
        Some(t) => insert_member(&mut body, owned("temperature"), copy_json(t)),
        None => {},
    }
    match &request.top_p {
        Some(t) => insert_member(&mut body, owned("top_p"), copy_json(t)),
        None => {},
    }
    if request.stop_sequences.len() > 0 {
        insert_member(&mut body, owned("stop_sequences"), Json::Array(string_items(&request.stop_sequences)));
    }
    if request.metadata.len() > 0 {
        insert_member(&mut body, owned("metadata"), Json::Object(metadata_members(&request.metadata)));
    }
    body
}

/// The body of an Anthropic Messages request for the active provider
/// options, for a request whose images' local files, if any, have been read.
pub fn anthropic_messages_body(request: &Request, active_options: Option<&Json>) -> (r: Result<Json, SDKError>)
    requires
        request_images_loaded(*request),
    ensures
        json_result_view(r) == anthropic_messages_body_spec(*request, opt_ref(active_options)),
{
    let (messages, system_blocks) = match anthropic_message_payloads(&request.messages) {
        Ok(p) => p,
        Err(e) => return Err(e),
    };
    let mut system_blocks = system_blocks;
    match anthropic_system_instruction(active_options) {
        Some(i) => append_anthropic_system_text(&mut system_blocks, i),
        None => {},
    }
    let names = tool_names(&request.tools);
    let format = match &request.response_format {
        Some(f) => Some(f),
        None => None,
    };
    let choice = match &request.tool_choice {
        Some(c) => Some(c),
        None => None,
    };
    let structured_tool = match anthropic_structured_output_tool(format, &names, choice) {
        Ok(t) => t,
        Err(e) => return Err(e),
    };
    if structured_tool.is_none() {
        match anthropic_structured_output_instruction(format) {
            Ok(Some(i)) => append_anthropic_system_text(&mut system_blocks, i),
            Ok(None) => {},
            Err(e) => return Err(e),
        }
    }
    let mut body = base_members(request, messages);
    match insert_option_object(&mut body, active_options, "thinking", "Anthropic provider_options.thinking must be an object") {
        Ok(()) => {},
        Err(e) => return Err(e),
    }
    match insert_option_object(
        &mut body,
        active_options,
        "output_config",
        "Anthropic provider_options.output_config must be an object",
    ) {
        Ok(()) => {},
        Err(e) => return Err(e),
    }
    match anthropic_system_payload(system_blocks) {
        Some(s) => insert_member(&mut body, owned("system"), s),
        None => {},
    }
    body_tail(request, active_options, body, structured_tool)
}

} // verus!
