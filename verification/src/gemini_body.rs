//! The body of a Gemini generateContent request: the system instruction,
//! tool declarations and tool config, the contents, the generation config,
//! and the provider options merged around the fields the adapter protects.
use vstd::prelude::*;
use crate::errors::{SDKError, SDKErrorView};
use crate::gemini::{decimal_text, decimal_digit};
use crate::gemini_options::{gemini_tool_config, gemini_tool_config_spec, split_gemini_provider_options, split_options_spec};
use crate::gemini_request::{gemini_message_payload, gemini_message_payload_spec, json_result_view, message_images_loaded, names_view};
use crate::json::{Json, JsonView, copy_json, jv, jv_items, jv_members, lemma_jv_items_push};
use crate::json_merge::{
    append_array_field, append_array_field_spec, deep_insert, deep_insert_spec, deep_merge, deep_merge_view, lemma_deep_merge_view,
};
use crate::payload::{instruction_text, instruction_text_spec, invalid_request_error, invalid_request_spec, json_str, obj1, object1};
use crate::request::{Message, MessageRole, Request, ResponseFormat};
use crate::text::{concat3, owned, push_char};
use crate::textmap::TextMap;
use crate::tool_merge::{insert_member, members_insert};
use crate::tools::{Tool, tool_check};

verus! {

/// Whether every image of every message has had its local file, if any, read.
pub open spec fn request_images_loaded(request: Request) -> bool {
    forall|i: int| 0 <= i < request.messages@.len() ==> message_images_loaded(#[trigger] request.messages@[i])
}

// ----- tools -----
/// The function declaration of a tool: its name, description and parameter
/// schema; a tool that fails its checks is refused.
pub open spec fn tool_declaration_spec(tool: Tool) -> Result<JsonView, SDKErrorView> {
    match tool_check(tool) {
        Err(m) => Err(invalid_request_spec("gemini"@, m)),
        Ok(_) => {
            let m1 = members_insert(Seq::empty(), "name"@, JsonView::Str(tool.name@));
            let m2 = match tool.description {
                Some(d) => members_insert(m1, "description"@, JsonView::Str(d@)),
                None => m1,
            };
            let m3 = match tool.parameters {
                Some(p) => members_insert(m2, "parametersJsonSchema"@, jv(p)),
                None => m2,
            };
            Ok(JsonView::Object(m3))
        },
    }
}

/// The function declaration of a tool.
pub fn gemini_tool_declaration(tool: &Tool) -> (r: Result<Json, SDKError>)
    ensures
        json_result_view(r) == tool_declaration_spec(*tool),
{
    match tool.validate() {
        Ok(()) => {},
        Err(m) => return Err(invalid_request_error("gemini", m)),
    }
    let mut members: Vec<(String, Json)> = Vec::new();
    assert(jv_members(members@) =~= Seq::<(Seq<char>, JsonView)>::empty());
    insert_member(&mut members, owned("name"), Json::Str(tool.name.clone()));
    match &tool.description {
        Some(d) => insert_member(&mut members, owned("description"), Json::Str(d.clone())),
        None => {},
    }
    match &tool.parameters {
        Some(p) => insert_member(&mut members, owned("parametersJsonSchema"), copy_json(p)),
        None => {},
    }
    Ok(Json::Object(members))
}

/// The declarations of the tools in order; the first tool refused stops it.
pub open spec fn tool_declarations_spec(tools: Seq<Tool>) -> Result<Seq<JsonView>, SDKErrorView>
    decreases tools.len(),
{
    if tools.len() == 0 {
        Ok(Seq::empty())
    } else {
        match tool_declarations_spec(tools.drop_last()) {
            Err(e) => Err(e),
            Ok(done) => match tool_declaration_spec(tools.last()) {
                Err(e) => Err(e),
                Ok(x) => Ok(done.push(x)),
            },
        }
    }
}

proof fn lemma_declarations_error_stays(tools: Seq<Tool>, k: int)
    requires
        0 <= k <= tools.len(),
        tool_declarations_spec(tools.subrange(0, k)) is Err,
    ensures
        tool_declarations_spec(tools) == tool_declarations_spec(tools.subrange(0, k)),
    decreases tools.len(),
{
    if k == tools.len() {
        assert(tools.subrange(0, k) =~= tools);
    } else {
        assert(tools.drop_last().subrange(0, k) =~= tools.subrange(0, k));
        lemma_declarations_error_stays(tools.drop_last(), k);
    }
}

fn tool_declarations(tools: &Vec<Tool>) -> (r: Result<Vec<Json>, SDKError>)
    ensures
        match r {
            Ok(v) => tool_declarations_spec(tools@) == Ok::<Seq<JsonView>, SDKErrorView>(jv_items(v@)),
            Err(e) => tool_declarations_spec(tools@) == Err::<Seq<JsonView>, SDKErrorView>(e@),
        },
{
    let mut out: Vec<Json> = Vec::new();
    let mut i: usize = 0;
    assert(tools@.subrange(0, 0) =~= Seq::<Tool>::empty());
    while i < tools.len()
        invariant
            i <= tools@.len(),
            tool_declarations_spec(tools@.subrange(0, i as int)) == Ok::<Seq<JsonView>, SDKErrorView>(jv_items(out@)),
        decreases tools@.len() - i,
    {
        assert(tools@.subrange(0, i + 1).drop_last() =~= tools@.subrange(0, i as int));
        let x = match gemini_tool_declaration(&tools[i]) {
            Ok(x) => x,
            Err(e) => {
                proof {
                    lemma_declarations_error_stays(tools@, i + 1);
                }
                return Err(e);
            },
        };
        let ghost before = out@;
        out.push(x);
        proof {
            lemma_jv_items_push(before, x);
        }
        i = i + 1;
    }
    assert(tools@.subrange(0, i as int) =~= tools@);
    Ok(out)
}

/// The names of the tools.
pub open spec fn tool_names_spec(tools: Seq<Tool>) -> Seq<String> {
    tools.map_values(|t: Tool| t.name)
}

pub fn tool_names(tools: &Vec<Tool>) -> (r: Vec<String>)
    ensures
        r@ == tool_names_spec(tools@),
{
    let mut out: Vec<String> = Vec::new();
    let mut i: usize = 0;
    while i < tools.len()
        invariant
            i <= tools@.len(),
            out@ == tool_names_spec(tools@).subrange(0, i as int),
        decreases tools@.len() - i,
    {
        out.push(tools[i].name.clone());
        assert(out@ =~= tool_names_spec(tools@).subrange(0, i + 1));
        i = i + 1;
    }
    assert(tool_names_spec(tools@).subrange(0, i as int) =~= tool_names_spec(tools@));
    out
}

// ----- contents -----
/// The contents entries of the messages in order, leaving out system and
/// developer messages, and the tool-call names remembered after them; the
/// first error stops it.
pub open spec fn gemini_contents_spec(messages: Seq<Message>, names: Map<Seq<char>, Seq<char>>) -> (Result<Seq<JsonView>, SDKErrorView>, Map<Seq<char>, Seq<char>>)
    decreases messages.len(),
{
    if messages.len() == 0 {
        (Ok(Seq::empty()), names)
    } else {
        let (prev, n1) = gemini_contents_spec(messages.drop_last(), names);
        match prev {
            Err(e) => (Err(e), n1),
            Ok(done) => {
                let m = messages.last();
                if m.role == MessageRole::System || m.role == MessageRole::Developer {
                    (Ok(done), n1)
                } else {
                    let (x, n2) = gemini_message_payload_spec(m, n1);
                    match x {
                        Err(e) => (Err(e), n2),
                        Ok(v) => (Ok(done.push(v)), n2),
                    }
                }
            },
        }
    }
}

proof fn lemma_contents_error_stays(messages: Seq<Message>, k: int, names: Map<Seq<char>, Seq<char>>)
    requires
        0 <= k <= messages.len(),
        gemini_contents_spec(messages.subrange(0, k), names).0 is Err,
    ensures
        gemini_contents_spec(messages, names).0 == gemini_contents_spec(messages.subrange(0, k), names).0,
    decreases messages.len(),
{
    if k == messages.len() {
        assert(messages.subrange(0, k) =~= messages);
    } else {
        assert(messages.drop_last().subrange(0, k) =~= messages.subrange(0, k));
        lemma_contents_error_stays(messages.drop_last(), k, names);
    }
}

fn gemini_contents(messages: &Vec<Message>) -> (r: Result<Vec<Json>, SDKError>)
    requires
        forall|i: int| 0 <= i < messages@.len() ==> message_images_loaded(#[trigger] messages@[i]),
    ensures
        match r {
            Ok(v) => gemini_contents_spec(messages@, Map::empty()).0 == Ok::<Seq<JsonView>, SDKErrorView>(jv_items(v@)),
            Err(e) => gemini_contents_spec(messages@, Map::empty()).0 == Err::<Seq<JsonView>, SDKErrorView>(e@),
        },
{
    let mut names: TextMap<String> = TextMap::new();
    assert(names_view(names) =~= Map::<Seq<char>, Seq<char>>::empty());
    let mut out: Vec<Json> = Vec::new();
    let mut i: usize = 0;
    assert(messages@.subrange(0, 0) =~= Seq::<Message>::empty());
    while i < messages.len()
        invariant
            i <= messages@.len(),
            forall|j: int| 0 <= j < messages@.len() ==> message_images_loaded(#[trigger] messages@[j]),
            gemini_contents_spec(messages@.subrange(0, i as int), Map::empty()) == (
                Ok::<Seq<JsonView>, SDKErrorView>(jv_items(out@)),
                names_view(names),
            ),
        decreases messages@.len() - i,
    {
        assert(messages@.subrange(0, i + 1).drop_last() =~= messages@.subrange(0, i as int));
        let m = &messages[i];
        match m.role {
            MessageRole::System => {},
            MessageRole::Developer => {},
            _ => {
                assert(message_images_loaded(messages@[i as int]));
                let x = match gemini_message_payload(m, &mut names) {
                    Ok(x) => x,
                    Err(e) => {
                        proof {
                            lemma_contents_error_stays(messages@, i + 1, Map::empty());
                        }
                        return Err(e);
                    },
                };
                let ghost before = out@;
                out.push(x);
                proof {
                    lemma_jv_items_push(before, x);
                }
            },
        }
        i = i + 1;
    }
    assert(messages@.subrange(0, i as int) =~= messages@);
    Ok(out)
}

// ----- generation config -----
/// The texts as JSON strings.
pub open spec fn strings_view(s: Seq<String>) -> Seq<JsonView> {
    s.map_values(|t: String| JsonView::Str(t@))
}

/// The generation config a request asks for itself: sampling settings,
/// the token limit, stop sequences and the response format.
pub open spec fn generation_config_spec(request: Request) -> Seq<(Seq<char>, JsonView)> {
    let m0 = Seq::<(Seq<char>, JsonView)>::empty();
    let m1 = match request.temperature {
        Some(t) => members_insert(m0, "temperature"@, jv(t)),
        None => m0,
    };
    let m2 = match request.top_p {
        Some(t) => members_insert(m1, "topP"@, jv(t)),
        None => m1,
    };
    let m3 = match request.max_tokens {
        Some(n) => members_insert(m2, "maxOutputTokens"@, JsonView::Number(decimal_text(n as nat))),
        None => m2,
    };
    let m4 = if request.stop_sequences@.len() > 0 {
        members_insert(m3, "stopSequences"@, JsonView::Array(strings_view(request.stop_sequences@)))
    } else {
        m3
    };
    match request.response_format {
        Some(ResponseFormat::Text) => members_insert(m4, "responseMimeType"@, JsonView::Str("text/plain"@)),
        Some(ResponseFormat::JsonObject) => members_insert(m4, "responseMimeType"@, JsonView::Str("application/json"@)),
        Some(ResponseFormat::JsonSchema { json_schema, .. }) => members_insert(
            members_insert(m4, "responseMimeType"@, JsonView::Str("application/json"@)),
            "responseSchema"@,
            jv(json_schema),
        ),
        None => m4,
    }
}

/// The decimal text of a count.
pub fn u64_text(n: u64) -> (r: String)
    ensures
        r@ == decimal_text(n as nat),
    decreases n,
{
    let d = n % 10;
    let c = ((d + 48) as u8) as char;
    let mut s = if n < 10 {
        String::new()
    } else {
        u64_text(n / 10)
    };
    push_char(&mut s, c);
    proof {
        if n < 10 {
            assert(s@ =~= seq![decimal_digit(n as nat)]);
        }
    }
    s
}

pub fn string_items(texts: &Vec<String>) -> (r: Vec<Json>)
    ensures
        jv_items(r@) == strings_view(texts@),
{
    let mut out: Vec<Json> = Vec::new();
    let mut i: usize = 0;
    while i < texts.len()
        invariant
            i <= texts@.len(),
            out@.len() == i,
            forall|j: int| 0 <= j < i ==> jv(#[trigger] out@[j]) == JsonView::Str(texts@[j]@),
        decreases texts@.len() - i,
    {
        out.push(Json::Str(texts[i].clone()));
        i = i + 1;
    }
    proof {
        crate::json::lemma_jv_items_index(out@);
        assert(jv_items(out@) =~= strings_view(texts@));
    }
    out
}

/// The generation config a request asks for itself.
pub fn gemini_generation_config_from_request(request: &Request) -> (r: Vec<(String, Json)>)
    ensures
        jv_members(r@) == generation_config_spec(*request),
{
    let mut m: Vec<(String, Json)> = Vec::new();
    assert(jv_members(m@) =~= Seq::<(Seq<char>, JsonView)>::empty());
    match &request.temperature {
        Some(t) => insert_member(&mut m, owned("temperature"), copy_json(t)),
        None => {},
    }
    match &request.top_p {
        Some(t) => insert_member(&mut m, owned("topP"), copy_json(t)),
        None => {},
    }
    match request.max_tokens {
        Some(n) => insert_member(&mut m, owned("maxOutputTokens"), Json::Number(u64_text(n))),
        None => {},
    }
    if request.stop_sequences.len() > 0 {
        insert_member(&mut m, owned("stopSequences"), Json::Array(string_items(&request.stop_sequences)));
    }
    match &request.response_format {
        Some(ResponseFormat::Text) => insert_member(&mut m, owned("responseMimeType"), json_str("text/plain")),
        Some(ResponseFormat::JsonObject) => insert_member(&mut m, owned("responseMimeType"), json_str("application/json")),
        Some(ResponseFormat::JsonSchema { json_schema, .. }) => {
            insert_member(&mut m, owned("responseMimeType"), json_str("application/json"));
            insert_member(&mut m, owned("responseSchema"), copy_json(json_schema));
        },
        None => {},
    }
    m
}

// ----- provider options -----
/// The options a request gives for a provider: none, or an object; any
/// other value is refused.
pub open spec fn provider_options_spec(request: Request, provider: Seq<char>) -> Result<Option<Json>, SDKErrorView> {
    match request.provider_options.lookup(provider) {
        None => Ok(None),
        Some(v) => if v is Object {
            Ok(Some(v))
        } else {
            Err(invalid_request_spec(provider, "provider_options."@ + provider + " must be a JSON object"@))
        },
    }
}

/// The options a request gives for a provider.
pub fn provider_options_object<'a>(request: &'a Request, provider: &str) -> (r: Result<Option<&'a Json>, SDKError>)
    ensures
        match r {
            Ok(Some(v)) => provider_options_spec(*request, provider@) == Ok::<Option<Json>, SDKErrorView>(Some(*v)),
            Ok(None) => provider_options_spec(*request, provider@) == Ok::<Option<Json>, SDKErrorView>(None),
            Err(e) => provider_options_spec(*request, provider@) == Err::<Option<Json>, SDKErrorView>(e@),
        },
{
    match request.provider_options.get(provider) {
        None => Ok(None),
        Some(v) => match v {
            Json::Object(_) => Ok(Some(v)),
            _ => Err(invalid_request_error(provider, concat3("provider_options.", provider, " must be a JSON object"))),
        },
    }
}

// ----- the body -----
/// An array of one item.
fn single(x: Json) -> (r: Json)
    ensures
        jv(r) == JsonView::Array(seq![jv(x)]),
{
    let mut v: Vec<Json> = Vec::new();
    v.push(x);
    proof {
        lemma_jv_items_push(Seq::empty(), x);
        assert(Seq::<Json>::empty().push(x) =~= v@);
        assert(jv_items(Seq::<Json>::empty()) =~= Seq::<JsonView>::empty());
        assert(jv_items(v@) =~= seq![jv(x)]);
    }
    Json::Array(v)
}

/// The system instruction part of a body.
pub open spec fn system_instruction_view(s: Seq<char>) -> JsonView {
    obj1("parts"@, JsonView::Array(seq![obj1("text"@, JsonView::Str(s))]))
}

/// The end of building a body: a non-empty generation config goes in with
/// the request's own settings protected, the fields the adapter wrote are
/// protected from the options, and option tools are appended.
pub open spec fn gemini_body_finish(
    body: Seq<(Seq<char>, JsonView)>,
    portable_body: Seq<(Seq<char>, JsonView)>,
    gc: JsonView,
    portable_gc: Seq<(Seq<char>, JsonView)>,
    native_tools: Option<Seq<JsonView>>,
) -> JsonView {
    let body2 = match gc {
        JsonView::Object(g) => if g.len() > 0 {
            members_insert(body, "generationConfig"@, deep_insert_spec(gc, JsonView::Object(portable_gc)))
        } else {
            body
        },
        _ => body,
    };
    let merged = deep_insert_spec(JsonView::Object(body2), JsonView::Object(portable_body));
    match native_tools {
        Some(t) => append_array_field_spec(merged, "tools"@, t),
        None => merged,
    }
}

/// The body of a Gemini generateContent request.
pub open spec fn gemini_body_spec(request: Request) -> Result<JsonView, SDKErrorView> {
    match instruction_text_spec(request.messages@, "gemini"@) {
        Err(e) => Err(e),
        Ok(system) => {
            let b0 = match system {
                Some(s) => members_insert(Seq::empty(), "systemInstruction"@, system_instruction_view(s)),
                None => Seq::empty(),
            };
            let decls = if request.tools@.len() == 0 {
                Ok(Seq::empty())
            } else {
                tool_declarations_spec(request.tools@)
            };
            match decls {
                Err(e) => Err(e),
                Ok(ds) => {
                    let b1 = if request.tools@.len() == 0 {
                        b0
                    } else {
                        members_insert(b0, "tools"@, JsonView::Array(seq![obj1("functionDeclarations"@, JsonView::Array(ds))]))
                    };
                    match gemini_tool_config_spec(request.tool_choice, tool_names_spec(request.tools@)) {
                        Err(e) => Err(e),
                        Ok(tc) => {
                            let b2 = match tc {
                                Some(c) => members_insert(b1, "toolConfig"@, c),
                                None => b1,
                            };
                            match gemini_contents_spec(request.messages@, Map::empty()).0 {
                                Err(e) => Err(e),
                                Ok(contents) => {
                                    let b3 = members_insert(b2, "contents"@, JsonView::Array(contents));
                                    let pgc = generation_config_spec(request);
                                    match provider_options_spec(request, "gemini"@) {
                                        Err(e) => Err(e),
                                        Ok(None) => Ok(gemini_body_finish(b3, b3, JsonView::Object(pgc), pgc, None)),
                                        Ok(Some(o)) => match split_options_spec(o) {
                                            Err(e) => Err(e),
                                            Ok((native, g, nt)) => {
                                                let gc = match g {
                                                    Some(gv) => deep_insert_spec(JsonView::Object(pgc), gv),
                                                    None => JsonView::Object(pgc),
                                                };
                                                let body = if native.len() > 0 {
                                                    match deep_merge_view(JsonView::Object(b3), JsonView::Object(native)) {
                                                        JsonView::Object(m) => m,
                                                        _ => Seq::empty(),
                                                    }
                                                } else {
                                                    b3
                                                };
                                                Ok(gemini_body_finish(body, b3, gc, pgc, nt))
                                            },
                                        },
                                    }
                                },
                            }
                        },
                    }
                },
            }
        },
    }
}

fn finish_body(
    body: Vec<(String, Json)>,
    portable_body: &Json,
    gc: Json,
    portable_gc: &Json,
    native_tools: Option<Vec<Json>>,
) -> (r: Json)
    requires
        portable_body is Object,
        portable_gc is Object,
    ensures
        jv(r) == gemini_body_finish(
            jv_members(body@),
            jv(*portable_body)->Object_0,
            jv(gc),
            jv(*portable_gc)->Object_0,
            match native_tools {
                Some(t) => Some(jv_items(t@)),
                None => None,
            },
        ),
{
    let mut body2 = body;
    let non_empty = match &gc {
        Json::Object(g) => g.len() > 0,
        _ => false,
    };
    if non_empty {
        proof {
            crate::json::lemma_jv_members_index(gc->Object_0@);
        }
        let mut g2 = gc;
        deep_insert(&mut g2, portable_gc);
        insert_member(&mut body2, owned("generationConfig"), g2);
    } else {
        proof {
            if let Json::Object(g) = gc {
                crate::json::lemma_jv_members_index(g@);
            }
        }
    }
    let mut merged = Json::Object(body2);
    deep_insert(&mut merged, portable_body);
    match native_tools {
        Some(t) => append_array_field(&mut merged, "tools", t),
        None => {},
    }
    merged
}

/// The body of a Gemini generateContent request, for a request whose
/// images' local files, if any, have been read.
pub fn gemini_generate_content_body(request: &Request) -> (r: Result<Json, SDKError>)
    requires
        request_images_loaded(*request),
    ensures
        json_result_view(r) == gemini_body_spec(*request),
{
    let system = match instruction_text(&request.messages, "gemini") {
        Ok(s) => s,
        Err(e) => return Err(e),
    };
    let mut body: Vec<(String, Json)> = Vec::new();
    assert(jv_members(body@) =~= Seq::<(Seq<char>, JsonView)>::empty());
    match system {
        Some(s) => insert_member(&mut body, owned("systemInstruction"), object1("parts", single(object1("text", Json::Str(s))))),
        None => {},
    }
    if request.tools.len() > 0 {
        let declarations = match tool_declarations(&request.tools) {
            Ok(d) => d,
            Err(e) => return Err(e),
        };
        insert_member(
            &mut body,
            owned("tools"),
            single(object1("functionDeclarations", Json::Array(declarations))),
        );
    }
    let names = tool_names(&request.tools);
    let choice = match &request.tool_choice {
        Some(c) => Some(c),
        None => None,
    };
    match gemini_tool_config(choice, &names) {
        Ok(Some(c)) => insert_member(&mut body, owned("toolConfig"), c),
        Ok(None) => {},
        Err(e) => return Err(e),
    }
    let contents = match gemini_contents(&request.messages) {
        Ok(c) => c,
        Err(e) => return Err(e),
    };
    insert_member(&mut body, owned("contents"), Json::Array(contents));
    let portable_gc = Json::Object(gemini_generation_config_from_request(request));
    let body_json = Json::Object(body);
    let portable_body = copy_json(&body_json);
    let body = match body_json {
        Json::Object(m) => m,
        _ => Vec::new(),
    };
    let options = match provider_options_object(request, "gemini") {
        Ok(o) => o,
        Err(e) => return Err(e),
    };
    match options {
        None => {
            let gc = copy_json(&portable_gc);
            Ok(finish_body(body, &portable_body, gc, &portable_gc, None))
        },
        Some(o) => {
            let (native, generation, native_tools) = match split_gemini_provider_options(o) {
                Ok(t) => t,
                Err(e) => return Err(e),
            };
            let mut gc = copy_json(&portable_gc);
            match generation {
                Some(g) => deep_insert(&mut gc, &g),
                None => {},
            }
            let merged_body = if native.len() > 0 {
                let overlay = Json::Object(native);
                let merged = deep_merge(copy_json(&portable_body), &overlay);
                proof {
                    lemma_deep_merge_view(jv(portable_body), overlay);
                }
                match merged {
                    Json::Object(m) => m,
                    _ => Vec::new(),
                }
            } else {
                body
            };
            Ok(finish_body(merged_body, &portable_body, gc, &portable_gc, native_tools))
        },
    }
}

/// The sampling settings a request asks for reach the Gemini generation
/// config: `temperature` under "temperature", `top_p` under "topP" and
/// `max_tokens` under "maxOutputTokens", each present exactly when the
/// request sets it.
pub proof fn lemma_generation_config_keeps_sampling(request: Request)
    ensures
        crate::json::view_member_get(generation_config_spec(request), "temperature"@) == match request.temperature {
            Some(t) => Some(jv(t)),
            None => None,
        },
        crate::json::view_member_get(generation_config_spec(request), "topP"@) == match request.top_p {
            Some(t) => Some(jv(t)),
            None => None,
        },
        crate::json::view_member_get(generation_config_spec(request), "maxOutputTokens"@) == match request.max_tokens {
            Some(n) => Some(JsonView::Number(decimal_text(n as nat))),
            None => None,
        },
{
    reveal_strlit("temperature");
    reveal_strlit("topP");
    reveal_strlit("maxOutputTokens");
    reveal_strlit("stopSequences");
    reveal_strlit("responseMimeType");
    reveal_strlit("responseSchema");
    let keys = seq!["temperature"@, "topP"@, "maxOutputTokens"@];
    assert(("temperature"@).len() != ("topP"@).len());
    assert(("temperature"@).len() != ("maxOutputTokens"@).len());
    assert(("topP"@).len() != ("maxOutputTokens"@).len());
    assert(("temperature"@).len() != ("stopSequences"@).len());
    assert(("topP"@).len() != ("stopSequences"@).len());
    assert(("maxOutputTokens"@)[0] != ("stopSequences"@)[0]);
    assert(("temperature"@).len() != ("responseMimeType"@).len());
    assert(("topP"@).len() != ("responseMimeType"@).len());
    assert(("maxOutputTokens"@).len() != ("responseMimeType"@).len());
    assert(("temperature"@).len() != ("responseSchema"@).len());
    assert(("topP"@).len() != ("responseSchema"@).len());
    assert(("maxOutputTokens"@).len() != ("responseSchema"@).len());
    let m0 = Seq::<(Seq<char>, JsonView)>::empty();
    let m1 = match request.temperature {
        Some(t) => members_insert(m0, "temperature"@, jv(t)),
        None => m0,
    };
    let m2 = match request.top_p {
        Some(t) => members_insert(m1, "topP"@, jv(t)),
        None => m1,
    };
    let m3 = match request.max_tokens {
        Some(n) => members_insert(m2, "maxOutputTokens"@, JsonView::Number(decimal_text(n as nat))),
        None => m2,
    };
    let m4 = if request.stop_sequences@.len() > 0 {
        members_insert(m3, "stopSequences"@, JsonView::Array(strings_view(request.stop_sequences@)))
    } else {
        m3
    };
    assert forall|k: Seq<char>| #[trigger] keys.contains(k) implies crate::json::view_member_get(
        generation_config_spec(request),
        k,
    ) == crate::json::view_member_get(m4, k) by {
        match request.response_format {
            Some(ResponseFormat::JsonSchema { json_schema, .. }) => {
                let a = members_insert(m4, "responseMimeType"@, JsonView::Str("application/json"@));
                crate::tool_merge::lemma_member_value_insert(a, "responseSchema"@, jv(json_schema), k);
                crate::tool_merge::lemma_member_value_insert(m4, "responseMimeType"@, JsonView::Str("application/json"@), k);
            },
            Some(ResponseFormat::Text) => {
                crate::tool_merge::lemma_member_value_insert(m4, "responseMimeType"@, JsonView::Str("text/plain"@), k);
            },
            Some(ResponseFormat::JsonObject) => {
                crate::tool_merge::lemma_member_value_insert(m4, "responseMimeType"@, JsonView::Str("application/json"@), k);
            },
            None => {},
        }
    }
    assert forall|k: Seq<char>| #[trigger] keys.contains(k) implies crate::json::view_member_get(m4, k)
        == crate::json::view_member_get(m3, k) by {
        if request.stop_sequences@.len() > 0 {
            crate::tool_merge::lemma_member_value_insert(
                m3,
                "stopSequences"@,
                JsonView::Array(strings_view(request.stop_sequences@)),
                k,
            );
        }
    }
    assert(keys.contains("temperature"@)) by { assert(keys[0] == "temperature"@); }
    assert(keys.contains("topP"@)) by { assert(keys[1] == "topP"@); }
    assert(keys.contains("maxOutputTokens"@)) by { assert(keys[2] == "maxOutputTokens"@); }
    match request.max_tokens {
        Some(n) => {
            crate::tool_merge::lemma_member_value_insert(m2, "maxOutputTokens"@, JsonView::Number(decimal_text(n as nat)), "temperature"@);
            crate::tool_merge::lemma_member_value_insert(m2, "maxOutputTokens"@, JsonView::Number(decimal_text(n as nat)), "topP"@);
            crate::tool_merge::lemma_member_value_insert(m2, "maxOutputTokens"@, JsonView::Number(decimal_text(n as nat)), "maxOutputTokens"@);
        },
        None => {},
    }
    match request.top_p {
        Some(t) => {
            crate::tool_merge::lemma_member_value_insert(m1, "topP"@, jv(t), "temperature"@);
            crate::tool_merge::lemma_member_value_insert(m1, "topP"@, jv(t), "topP"@);
            crate::tool_merge::lemma_member_value_insert(m1, "topP"@, jv(t), "maxOutputTokens"@);
        },
        None => {},
    }
    match request.temperature {
        Some(t) => {
            crate::tool_merge::lemma_member_value_insert(m0, "temperature"@, jv(t), "temperature"@);
            crate::tool_merge::lemma_member_value_insert(m0, "temperature"@, jv(t), "topP"@);
            crate::tool_merge::lemma_member_value_insert(m0, "temperature"@, jv(t), "maxOutputTokens"@);
        },
        None => {},
    }
}

/// Stop sequences reach the Gemini generation config under
/// "stopSequences" exactly when the request has some, and a JSON response
/// format asks for the "application/json" MIME type.
pub proof fn lemma_generation_config_stops_and_format(request: Request)
    ensures
        crate::json::view_member_get(generation_config_spec(request), "stopSequences"@) == if request.stop_sequences@.len()
            > 0 {
            Some(JsonView::Array(strings_view(request.stop_sequences@)))
        } else {
            None
        },
        request.response_format matches Some(ResponseFormat::JsonObject) ==> crate::json::view_member_get(
            generation_config_spec(request),
            "responseMimeType"@,
        ) == Some(JsonView::Str("application/json"@)),
{
    reveal_strlit("temperature");
    reveal_strlit("topP");
    reveal_strlit("maxOutputTokens");
    reveal_strlit("stopSequences");
    reveal_strlit("responseMimeType");
    reveal_strlit("responseSchema");
    assert(("temperature"@).len() != ("stopSequences"@).len());
    assert(("topP"@).len() != ("stopSequences"@).len());
    assert(("maxOutputTokens"@)[0] != ("stopSequences"@)[0]);
    assert(("stopSequences"@).len() != ("responseMimeType"@).len());
    assert(("stopSequences"@).len() != ("responseSchema"@).len());
    assert(("temperature"@).len() != ("responseMimeType"@).len());
    assert(("topP"@).len() != ("responseMimeType"@).len());
    assert(("maxOutputTokens"@).len() != ("responseMimeType"@).len());
    let m0 = Seq::<(Seq<char>, JsonView)>::empty();
    let m1 = match request.temperature {
        Some(t) => members_insert(m0, "temperature"@, jv(t)),
        None => m0,
    };
    let m2 = match request.top_p {
        Some(t) => members_insert(m1, "topP"@, jv(t)),
        None => m1,
    };
    let m3 = match request.max_tokens {
        Some(n) => members_insert(m2, "maxOutputTokens"@, JsonView::Number(decimal_text(n as nat))),
        None => m2,
    };
    let m4 = if request.stop_sequences@.len() > 0 {
        members_insert(m3, "stopSequences"@, JsonView::Array(strings_view(request.stop_sequences@)))
    } else {
        m3
    };
    let k = "stopSequences"@;
    match request.temperature {
        Some(t) => crate::tool_merge::lemma_member_value_insert(m0, "temperature"@, jv(t), k),
        None => {},
    }
    match request.top_p {
        Some(t) => crate::tool_merge::lemma_member_value_insert(m1, "topP"@, jv(t), k),
        None => {},
    }
    match request.max_tokens {
        Some(n) => crate::tool_merge::lemma_member_value_insert(m2, "maxOutputTokens"@, JsonView::Number(decimal_text(n as nat)), k),
        None => {},
    }
    if request.stop_sequences@.len() > 0 {
        crate::tool_merge::lemma_member_value_insert(m3, "stopSequences"@, JsonView::Array(strings_view(request.stop_sequences@)), k);
    }
    match request.response_format {
        Some(ResponseFormat::JsonSchema { json_schema, .. }) => {
            let a = members_insert(m4, "responseMimeType"@, JsonView::Str("application/json"@));
            crate::tool_merge::lemma_member_value_insert(a, "responseSchema"@, jv(json_schema), k);
            crate::tool_merge::lemma_member_value_insert(m4, "responseMimeType"@, JsonView::Str("application/json"@), k);
        },
        Some(ResponseFormat::Text) => {
            crate::tool_merge::lemma_member_value_insert(m4, "responseMimeType"@, JsonView::Str("text/plain"@), k);
        },
        Some(ResponseFormat::JsonObject) => {
            crate::tool_merge::lemma_member_value_insert(m4, "responseMimeType"@, JsonView::Str("application/json"@), k);
            crate::tool_merge::lemma_member_value_insert(
                m4,
                "responseMimeType"@,
                JsonView::Str("application/json"@),
                "responseMimeType"@,
            );
        },
        None => {},
    }
}

} // verus!
