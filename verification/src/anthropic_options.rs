//! Anthropic request settings read from the provider options and the tool
//! setup: tool choice, schemas that can be tool input, the structured-output
//! tool and instruction, the system instruction, prompt caching and beta
//! headers.
use vstd::prelude::*;
use crate::errors::{SDKError, SDKErrorKind, SDKErrorView};
use crate::json::{
    Json, JsonView, copy_json, get, json_get, json_text, json_to_text, jv, jv_items, jv_members, member_get, view_get, view_member_get,
};
use crate::tool_merge::{insert_member, members_insert};
use crate::native::{non_empty_opt, non_empty_opt_str, provider_error_spec, tool_choice_kind};
use crate::payload::{
    invalid_request_error, invalid_request_spec, json_str, obj1, obj2, obj3, object1, object2, object3,
};
use crate::request::ResponseFormat;
use crate::text::{concat3, debug_quoted, debug_text, opt_seq, owned, str_eq, trim, trim_seq};
use crate::tools::{
    ToolChoice, ToolChoiceKind, ToolChoiceKindView, kind_view, parse_error_to_adapter_spec, tool_choice_kind_spec,
};

verus! {

/// The beta header that turns prompt caching on.
pub const ANTHROPIC_PROMPT_CACHING_BETA: &'static str = "prompt-caching-2024-07-31";

/// The most cache breakpoints a request may carry.
pub const ANTHROPIC_MAX_CACHE_BREAKPOINTS: usize = 4;

// ----- tool choice -----
/// Whether a name is among the tool names.
pub open spec fn has_name(names: Seq<String>, name: Seq<char>) -> bool {
    exists|i: int| 0 <= i < names.len() && #[trigger] names[i]@ == name
}

/// The `tool_choice` of an Anthropic request: none when no choice is made,
/// when tools are disabled, or for `auto` without tools; `any` for a
/// required choice and a named tool, which need tools.
pub open spec fn anthropic_tool_choice_spec(value: Option<ToolChoiceKindView>, names: Seq<String>) -> Result<Option<JsonView>, SDKErrorView> {
    match value {
        None => Ok(None),
        Some(ToolChoiceKindView::Disabled) => Ok(None),
        Some(ToolChoiceKindView::Auto) => if names.len() == 0 {
            Ok(None)
        } else {
            Ok(Some(obj1("type"@, JsonView::Str("auto"@))))
        },
        Some(ToolChoiceKindView::Required) => if names.len() == 0 {
            Err(
                provider_error_spec(
                    SDKErrorKind::UnsupportedToolChoice,
                    "anthropic"@,
                    "Anthropic required tool_choice requires at least one tool"@,
                ),
            )
        } else {
            Ok(Some(obj1("type"@, JsonView::Str("any"@))))
        },
        Some(ToolChoiceKindView::Named(name)) => if !has_name(names, name) {
            Err(
                provider_error_spec(
                    SDKErrorKind::UnsupportedToolChoice,
                    "anthropic"@,
                    "Anthropic named tool_choice "@ + debug_text(name) + " requires a matching tool"@,
                ),
            )
        } else {
            Ok(Some(obj2("name"@, JsonView::Str(name), "type"@, JsonView::Str("tool"@))))
        },
    }
}

pub open spec fn opt_json_result_view(r: Result<Option<Json>, SDKError>) -> Result<Option<JsonView>, SDKErrorView> {
    match r {
        Ok(Some(v)) => Ok(Some(jv(v))),
        Ok(None) => Ok(None),
        Err(e) => Err(e@),
    }
}

fn contains_name(names: &Vec<String>, name: &str) -> (r: bool)
    ensures
        r == has_name(names@, name@),
{
    let mut i: usize = 0;
    while i < names.len()
        invariant
            i <= names@.len(),
            forall|j: int| 0 <= j < i ==> names@[j]@ != name@,
        decreases names@.len() - i,
    {
        if str_eq(names[i].as_str(), name) {
            return true;
        }
        i = i + 1;
    }
    false
}

/// The `tool_choice` of an Anthropic request with these tools.
pub fn anthropic_tool_choice_payload(value: Option<&ToolChoiceKind>, tool_names: &Vec<String>) -> (r: Result<Option<Json>, SDKError>)
    ensures
        opt_json_result_view(r) == anthropic_tool_choice_spec(
            match value {
                Some(k) => Some(kind_view(*k)),
                None => None,
            },
            tool_names@,
        ),
{
    let value = match value {
        Some(v) => v,
        None => return Ok(None),
    };
    match value {
        ToolChoiceKind::Disabled => Ok(None),
        ToolChoiceKind::Auto => {
            if tool_names.len() == 0 {
                Ok(None)
            } else {
                Ok(Some(object1("type", json_str("auto"))))
            }
        },
        ToolChoiceKind::Required => {
            if tool_names.len() == 0 {
                return Err(
                    SDKError::provider(
                        SDKErrorKind::UnsupportedToolChoice,
                        owned("Anthropic required tool_choice requires at least one tool"),
                        Some(owned("anthropic")),
                    ),
                );
            }
            Ok(Some(object1("type", json_str("any"))))
        },
        ToolChoiceKind::Named(name) => {
            if !contains_name(tool_names, name.as_str()) {
                let quoted = debug_quoted(name.as_str());
                return Err(
                    SDKError::provider(
                        SDKErrorKind::UnsupportedToolChoice,
                        concat3("Anthropic named tool_choice ", quoted.as_str(), " requires a matching tool"),
                        Some(owned("anthropic")),
                    ),
                );
            }
            Ok(Some(object2("name", Json::Str(name.clone()), "type", json_str("tool"))))
        },
    }
}

// ----- schemas as tool input -----
/// Whether a value is the string `object`.
pub open spec fn names_object(v: Json) -> bool {
    v matches Json::Str(t) && t@ == "object"@
}

/// Whether some item is the string `object`.
pub open spec fn some_names_object(items: Seq<Json>) -> bool {
    exists|i: int| 0 <= i < items.len() && names_object(#[trigger] items[i])
}

/// Whether a schema can be the input of a tool: an object schema whose
/// `type`, if given, is `object` or a list naming `object`.
pub open spec fn schema_supports_tool_input_spec(schema: Json) -> bool {
    schema is Object && match json_get(schema, "type"@) {
        None => true,
        Some(Json::Str(t)) => t@ == "object"@,
        Some(Json::Array(items)) => some_names_object(items@),
        Some(_) => false,
    }
}

/// Whether a schema can be the input of a tool.
pub fn schema_supports_anthropic_tool_input(schema: &Json) -> (r: bool)
    ensures
        r == schema_supports_tool_input_spec(*schema),
{
    match schema {
        Json::Object(_) => {},
        _ => return false,
    }
    match get(schema, "type") {
        None => true,
        Some(Json::Str(t)) => str_eq(t.as_str(), "object"),
        Some(Json::Array(items)) => {
            let mut i: usize = 0;
            while i < items.len()
                invariant
                    i <= items@.len(),
                    *schema is Object,
                    json_get(*schema, "type"@) == Some(Json::Array(*items)),
                    forall|j: int| 0 <= j < i ==> !names_object(#[trigger] items@[j]),
                decreases items@.len() - i,
            {
                if let Json::Str(t) = &items[i] {
                    if str_eq(t.as_str(), "object") {
                        assert(names_object(items@[i as int]));
                        assert(some_names_object(items@));
                        return true;
                    }
                }
                i = i + 1;
            }
            false
        },
        Some(_) => false,
    }
}

// ----- structured output -----
/// The name of the tool through which a structured response is returned.
pub const STRUCTURED_OUTPUT_TOOL_NAME: &'static str = "structured_output";

/// The value an optional reference points to.
pub open spec fn opt_deref<T>(o: Option<&T>) -> Option<T> {
    match o {
        Some(v) => Some(*v),
        None => None,
    }
}

/// The input schema of the structured-output tool: any object for a JSON
/// object format, the schema itself for a schema format when it can be tool
/// input, none otherwise.
pub open spec fn structured_tool_schema_spec(response_format: Option<ResponseFormat>) -> Option<JsonView> {
    match response_format {
        Some(ResponseFormat::JsonObject) => Some(obj1("type"@, JsonView::Str("object"@))),
        Some(ResponseFormat::JsonSchema { json_schema, .. }) => if schema_supports_tool_input_spec(json_schema) {
            Some(jv(json_schema))
        } else {
            None
        },
        _ => None,
    }
}

/// The input schema of the structured-output tool, if the format has one.
pub fn anthropic_structured_output_tool_schema(response_format: Option<&ResponseFormat>) -> (r: Option<Json>)
    ensures
        match r {
            Some(v) => structured_tool_schema_spec(opt_deref(response_format)) == Some(jv(v)),
            None => structured_tool_schema_spec(opt_deref(response_format)) is None,
        },
{
    match response_format {
        Some(ResponseFormat::JsonObject) => Some(object1("type", json_str("object"))),
        Some(ResponseFormat::JsonSchema { json_schema, .. }) => if schema_supports_anthropic_tool_input(json_schema) {
            Some(copy_json(json_schema))
        } else {
            None
        },
        _ => None,
    }
}

/// The structured-output tool for an input schema.
pub open spec fn structured_tool_spec(schema: JsonView) -> JsonView {
    obj3(
        "description"@,
        JsonView::Str("Return the final structured response."@),
        "input_schema"@,
        schema,
        "name"@,
        JsonView::Str(STRUCTURED_OUTPUT_TOOL_NAME@),
    )
}

/// The structured-output tool a request adds: only when the format gives an
/// input schema, no tool of that name is offered, and the tool choice, if
/// any, is `auto`; a tool choice that cannot be used is refused.
pub open spec fn structured_tool_choice_spec(
    response_format: Option<ResponseFormat>,
    tool_names: Seq<String>,
    tool_choice: Option<ToolChoice>,
) -> Result<Option<JsonView>, SDKErrorView> {
    match structured_tool_schema_spec(response_format) {
        None => Ok(None),
        Some(schema) => if has_name(tool_names, STRUCTURED_OUTPUT_TOOL_NAME@) {
            Ok(None)
        } else {
            match tool_choice {
                None => Ok(Some(structured_tool_spec(schema))),
                Some(c) => match tool_choice_kind_spec(c.mode@, c.tool_name) {
                    Err(pe) => Err(parse_error_to_adapter_spec(pe, "anthropic"@)),
                    Ok(ToolChoiceKindView::Auto) => Ok(Some(structured_tool_spec(schema))),
                    Ok(_) => Ok(None),
                },
            }
        },
    }
}

/// The structured-output tool a request adds, if any.
pub fn anthropic_structured_output_tool(
    response_format: Option<&ResponseFormat>,
    tool_names: &Vec<String>,
    tool_choice: Option<&ToolChoice>,
) -> (r: Result<Option<Json>, SDKError>)
    ensures
        opt_json_result_view(r) == structured_tool_choice_spec(opt_deref(response_format), tool_names@, opt_deref(tool_choice)),
{
    let schema = match anthropic_structured_output_tool_schema(response_format) {
        Some(s) => s,
        None => return Ok(None),
    };
    if contains_name(tool_names, STRUCTURED_OUTPUT_TOOL_NAME) {
        return Ok(None);
    }
    match tool_choice {
        None => {},
        Some(c) => match tool_choice_kind(c, "anthropic") {
            Err(e) => return Err(e),
            Ok(ToolChoiceKind::Auto) => {},
            Ok(_) => return Ok(None),
        },
    }
    Ok(
        Some(
            object3(
                "description",
                json_str("Return the final structured response."),
                "input_schema",
                schema,
                "name",
                json_str(STRUCTURED_OUTPUT_TOOL_NAME),
            ),
        ),
    )
}

/// The instruction that asks for a structured response: valid JSON
/// matching the schema, shown as its compact JSON text, or just valid JSON;
/// none for text.
pub open spec fn structured_instruction_spec(response_format: Option<ResponseFormat>) -> Option<Seq<char>> {
    match response_format {
        Some(ResponseFormat::JsonSchema { json_schema, .. }) => Some(
            "Return only valid JSON that matches the provided schema.\n\nJSON Schema:\n```json\n"@ + json_text(jv(json_schema))
                + "\n```"@,
        ),
        Some(ResponseFormat::JsonObject) => Some("Return only valid JSON."@),
        _ => None,
    }
}

/// The instruction that asks for a structured response. Printing a JSON
/// value cannot fail, so this always succeeds.
pub fn anthropic_structured_output_instruction(response_format: Option<&ResponseFormat>) -> (r: Result<Option<String>, SDKError>)
    ensures
        r matches Ok(o) && opt_seq(o) == structured_instruction_spec(opt_deref(response_format)),
{
    match response_format {
        Some(ResponseFormat::JsonSchema { json_schema, .. }) => {
            let schema = json_to_text(json_schema);
            let text = concat3(
                "Return only valid JSON that matches the provided schema.\n\nJSON Schema:\n```json\n",
                schema.as_str(),
                "\n```",
            );
            Ok(Some(text))
        },
        Some(ResponseFormat::JsonObject) => Ok(Some(owned("Return only valid JSON."))),
        _ => Ok(None),
    }
}

// ----- options -----
/// The member of the provider options named `key`.
pub open spec fn option_get(options: Option<Json>, key: Seq<char>) -> Option<Json> {
    match options {
        Some(o) => json_get(o, key),
        None => None,
    }
}

pub open spec fn opt_ref(o: Option<&Json>) -> Option<Json> {
    match o {
        Some(v) => Some(*v),
        None => None,
    }
}

fn option_member<'a>(options: Option<&'a Json>, key: &str) -> (r: Option<&'a Json>)
    ensures
        match r {
            Some(v) => option_get(opt_ref(options), key@) == Some(*v),
            None => option_get(opt_ref(options), key@) is None,
        },
{
    match options {
        Some(o) => get(o, key),
        None => None,
    }
}

/// The system instruction given in the options: the trimmed text of a
/// non-blank `system_instruction` string.
pub open spec fn system_instruction_spec(options: Option<Json>) -> Option<Seq<char>> {
    match option_get(options, "system_instruction"@) {
        Some(Json::Str(s)) => non_empty_opt(Some(s@)),
        _ => None,
    }
}

/// The system instruction given in the options.
pub fn anthropic_system_instruction(options: Option<&Json>) -> (r: Option<String>)
    ensures
        opt_seq(r) == system_instruction_spec(opt_ref(options)),
{
    match option_member(options, "system_instruction") {
        Some(Json::Str(s)) => non_empty_opt_str(Some(s.as_str())),
        _ => None,
    }
}

/// The ephemeral cache control.
pub open spec fn ephemeral() -> JsonView {
    obj1("type"@, JsonView::Str("ephemeral"@))
}

/// The request's cache control: the options' `cache_control`, which must be
/// an object; else ephemeral caching unless `auto_cache`, which must be a
/// boolean, turns it off.
pub open spec fn cache_control_spec(options: Option<Json>) -> Result<Option<JsonView>, SDKErrorView> {
    match option_get(options, "cache_control"@) {
        Some(v) => if v is Object {
            Ok(Some(jv(v)))
        } else {
            Err(invalid_request_spec("anthropic"@, "Anthropic cache_control must be an object"@))
        },
        None => match option_get(options, "auto_cache"@) {
            None => Ok(Some(ephemeral())),
            Some(Json::Bool(b)) => if b {
                Ok(Some(ephemeral()))
            } else {
                Ok(None)
            },
            Some(_) => Err(invalid_request_spec("anthropic"@, "Anthropic auto_cache must be a boolean"@)),
        },
    }
}

/// Whether automatic caching is on: yes unless `auto_cache` says no; it
/// must be a boolean.
pub fn anthropic_auto_cache_enabled(options: Option<&Json>) -> (r: Result<bool, SDKError>)
    ensures
        match r {
            Ok(b) => match option_get(opt_ref(options), "auto_cache"@) {
                None => b,
                Some(Json::Bool(x)) => b == x,
                Some(_) => false,
            },
            Err(e) => (option_get(opt_ref(options), "auto_cache"@) matches Some(v) && !(v is Bool)) && e@ == invalid_request_spec(
                "anthropic"@,
                "Anthropic auto_cache must be a boolean"@,
            ),
        },
{
    match option_member(options, "auto_cache") {
        None => Ok(true),
        Some(Json::Bool(b)) => Ok(*b),
        Some(_) => Err(invalid_request_error("anthropic", owned("Anthropic auto_cache must be a boolean"))),
    }
}

/// The request's cache control.
pub fn anthropic_cache_control(options: Option<&Json>) -> (r: Result<Option<Json>, SDKError>)
    ensures
        opt_json_result_view(r) == cache_control_spec(opt_ref(options)),
{
    if let Some(value) = option_member(options, "cache_control") {
        return match value {
            Json::Object(_) => Ok(Some(copy_json(value))),
            _ => Err(invalid_request_error("anthropic", owned("Anthropic cache_control must be an object"))),
        };
    }
    match anthropic_auto_cache_enabled(options) {
        Err(e) => Err(e),
        Ok(true) => Ok(Some(object1("type", json_str("ephemeral")))),
        Ok(false) => Ok(None),
    }
}

// ----- beta headers -----
/// `str::split` with a character: the pieces between the separators, at
/// least one.
pub open spec fn split_pieces(s: Seq<char>, c: char) -> Seq<Seq<char>>
    decreases s.len(),
{
    if s.len() == 0 {
        seq![Seq::empty()]
    } else {
        let p = split_pieces(s.drop_last(), c);
        if s.last() == c {
            p.push(Seq::empty())
        } else {
            p.update(p.len() - 1, p.last().push(s.last()))
        }
    }
}

proof fn lemma_split_pieces_len(s: Seq<char>, c: char)
    ensures
        split_pieces(s, c).len() >= 1,
    decreases s.len(),
{
    if s.len() > 0 {
        lemma_split_pieces_len(s.drop_last(), c);
    }
}

/// The trimmed pieces that are not blank, in order.
pub open spec fn trimmed_values(pieces: Seq<Seq<char>>) -> Seq<Seq<char>>
    decreases pieces.len(),
{
    if pieces.len() == 0 {
        Seq::empty()
    } else {
        let r = trimmed_values(pieces.drop_last());
        if trim_seq(pieces.last()).len() > 0 {
            r.push(trim_seq(pieces.last()))
        } else {
            r
        }
    }
}

/// The trimmed texts of a list whose items must all be non-blank strings.
pub open spec fn array_values(items: Seq<Json>) -> Option<Seq<Seq<char>>>
    decreases items.len(),
{
    if items.len() == 0 {
        Some(Seq::empty())
    } else {
        match array_values(items.drop_last()) {
            None => None,
            Some(r) => match items.last() {
                Json::Str(s) => match non_empty_opt(Some(s@)) {
                    Some(t) => Some(r.push(t)),
                    None => None,
                },
                _ => None,
            },
        }
    }
}

/// The values with later repeats left out.
pub open spec fn dedup_values(s: Seq<Seq<char>>) -> Seq<Seq<char>>
    decreases s.len(),
{
    if s.len() == 0 {
        s
    } else {
        let r = dedup_values(s.drop_last());
        if r.contains(s.last()) {
            r
        } else {
            r.push(s.last())
        }
    }
}

/// Deduplicated values, with the prompt-caching beta added when caching
/// needs it; none when nothing is left.
pub open spec fn finish_beta_values(values: Seq<Seq<char>>, prompt_caching_required: bool) -> Option<Seq<Seq<char>>> {
    let d = dedup_values(values);
    let e = if prompt_caching_required && !d.contains(ANTHROPIC_PROMPT_CACHING_BETA@) {
        d.push(ANTHROPIC_PROMPT_CACHING_BETA@)
    } else {
        d
    };
    if e.len() == 0 {
        None
    } else {
        Some(e)
    }
}

/// The beta headers of a request: the options' `beta_headers`, a
/// comma-separated string or a list of non-blank strings, trimmed and
/// deduplicated; the prompt-caching beta when caching needs it.
pub open spec fn beta_headers_spec(options: Option<Json>, prompt_caching_required: bool) -> Result<Option<Seq<Seq<char>>>, SDKErrorView> {
    match option_get(options, "beta_headers"@) {
        None => Ok(
            if prompt_caching_required {
                Some(seq![ANTHROPIC_PROMPT_CACHING_BETA@])
            } else {
                None
            },
        ),
        Some(Json::Str(t)) => Ok(finish_beta_values(trimmed_values(split_pieces(t@, ',')), prompt_caching_required)),
        Some(Json::Array(items)) => match array_values(items@) {
            None => Err(invalid_request_spec("anthropic"@, "Anthropic beta_headers array must contain strings"@)),
            Some(vs) => Ok(finish_beta_values(vs, prompt_caching_required)),
        },
        Some(_) => Err(invalid_request_spec("anthropic"@, "Anthropic beta_headers must be a string or array of strings"@)),
    }
}

pub open spec fn strings_view(v: Seq<String>) -> Seq<Seq<char>> {
    v.map_values(|t: String| t@)
}

fn split_trimmed(text: &str) -> (r: Vec<String>)
    ensures
        strings_view(r@) == trimmed_values(split_pieces(text@, ',')),
{
    let chars = crate::text::chars_of(text);
    let mut pieces: Vec<Vec<char>> = Vec::new();
    pieces.push(Vec::new());
    let mut i: usize = 0;
    assert(chars@.subrange(0, 0) =~= Seq::<char>::empty());
    assert(pieces@.map_values(|p: Vec<char>| p@) =~= split_pieces(Seq::<char>::empty(), ','));
    while i < chars.len()
        invariant
            i <= chars@.len(),
            chars@ == text@,
            pieces@.len() >= 1,
            pieces@.map_values(|p: Vec<char>| p@) == split_pieces(chars@.subrange(0, i as int), ','),
        decreases chars@.len() - i,
    {
        let ghost before = pieces@.map_values(|p: Vec<char>| p@);
        proof {
            let t = chars@.subrange(0, i + 1);
            assert(t.drop_last() =~= chars@.subrange(0, i as int));
            assert(t.last() == chars@[i as int]);
        }
        if chars[i] == ',' {
            pieces.push(Vec::new());
            assert(pieces@.map_values(|p: Vec<char>| p@) =~= before.push(Seq::<char>::empty()));
        } else {
            let n = pieces.len();
            let mut last = pieces.pop().unwrap();
            let ghost lv = last@;
            last.push(chars[i]);
            pieces.push(last);
            assert(pieces@.map_values(|p: Vec<char>| p@) =~= before.update(n - 1, lv.push(chars@[i as int])));
        }
        i = i + 1;
    }
    assert(chars@.subrange(0, chars@.len() as int) =~= chars@);
    let ghost pv = pieces@.map_values(|p: Vec<char>| p@);
    let mut out: Vec<String> = Vec::new();
    let mut k: usize = 0;
    assert(strings_view(out@) =~= trimmed_values(pv.subrange(0, 0)));
    while k < pieces.len()
        invariant
            k <= pieces@.len(),
            pv == pieces@.map_values(|p: Vec<char>| p@),
            strings_view(out@) == trimmed_values(pv.subrange(0, k as int)),
        decreases pieces@.len() - k,
    {
        proof {
            let t = pv.subrange(0, k + 1);
            assert(t.drop_last() =~= pv.subrange(0, k as int));
            assert(t.last() == pieces@[k as int]@);
        }
        let piece = crate::text::string_from_chars(&pieces[k]);
        let t = trim(piece.as_str());
        if t.unicode_len() > 0 {
            let ghost before = out@;
            out.push(t);
            assert(strings_view(out@) =~= strings_view(before).push(trim_seq(pieces@[k as int]@)));
        }
        k = k + 1;
    }
    assert(pv.subrange(0, pv.len() as int) =~= pv);
    out
}

fn array_strings(items: &Vec<Json>) -> (r: Option<Vec<String>>)
    ensures
        match r {
            Some(v) => array_values(items@) == Some(strings_view(v@)),
            None => array_values(items@) is None,
        },
{
    let mut out: Vec<String> = Vec::new();
    let mut i: usize = 0;
    assert(strings_view(out@) =~= Seq::<Seq<char>>::empty());
    assert(items@.subrange(0, 0) =~= Seq::<Json>::empty());
    while i < items.len()
        invariant
            i <= items@.len(),
            array_values(items@.subrange(0, i as int)) == Some(strings_view(out@)),
        decreases items@.len() - i,
    {
        proof {
            let t = items@.subrange(0, i + 1);
            assert(t.drop_last() =~= items@.subrange(0, i as int));
            assert(t.last() == items@[i as int]);
        }
        let text = match &items[i] {
            Json::Str(s) => non_empty_opt_str(Some(s.as_str())),
            _ => None,
        };
        match text {
            Some(t) => {
                let ghost before = out@;
                out.push(t);
                assert(strings_view(out@) =~= strings_view(before).push(out@.last()@));
            },
            None => {
                proof {
                    lemma_array_values_none_stays(items@, i + 1);
                }
                return None;
            },
        }
        i = i + 1;
    }
    assert(items@.subrange(0, items@.len() as int) =~= items@);
    Some(out)
}

proof fn lemma_array_values_none_stays(items: Seq<Json>, k: int)
    requires
        0 <= k <= items.len(),
        array_values(items.subrange(0, k)) is None,
    ensures
        array_values(items) is None,
    decreases items.len(),
{
    if k == items.len() {
        assert(items.subrange(0, k) =~= items);
    } else {
        assert(items.drop_last().subrange(0, k) =~= items.subrange(0, k));
        lemma_array_values_none_stays(items.drop_last(), k);
    }
}

fn contains_text(values: &Vec<String>, value: &str) -> (r: bool)
    ensures
        r == strings_view(values@).contains(value@),
{
    let r = contains_name(values, value);
    proof {
        if r {
            let j = choose|j: int| 0 <= j < values@.len() && #[trigger] values@[j]@ == value@;
            assert(strings_view(values@)[j] == value@);
        } else {
            assert forall|j: int| 0 <= j < strings_view(values@).len() implies strings_view(values@)[j] != value@ by {
                assert(values@[j]@ != value@);
            }
        }
    }
    r
}

fn finish_beta(values: Vec<String>, prompt_caching_required: bool) -> (r: Option<Vec<String>>)
    ensures
        match r {
            Some(v) => finish_beta_values(strings_view(values@), prompt_caching_required) == Some(strings_view(v@)),
            None => finish_beta_values(strings_view(values@), prompt_caching_required) is None,
        },
{
    let ghost vv = strings_view(values@);
    let mut out: Vec<String> = Vec::new();
    let mut i: usize = 0;
    assert(strings_view(out@) =~= dedup_values(vv.subrange(0, 0)));
    while i < values.len()
        invariant
            i <= values@.len(),
            vv == strings_view(values@),
            strings_view(out@) == dedup_values(vv.subrange(0, i as int)),
        decreases values@.len() - i,
    {
        proof {
            let t = vv.subrange(0, i + 1);
            assert(t.drop_last() =~= vv.subrange(0, i as int));
            assert(t.last() == values@[i as int]@);
        }
        if !contains_text(&out, values[i].as_str()) {
            let ghost before = out@;
            out.push(values[i].clone());
            assert(strings_view(out@) =~= strings_view(before).push(values@[i as int]@));
        }
        i = i + 1;
    }
    assert(vv.subrange(0, vv.len() as int) =~= vv);
    if prompt_caching_required && !contains_text(&out, ANTHROPIC_PROMPT_CACHING_BETA) {
        let ghost before = out@;
        out.push(owned(ANTHROPIC_PROMPT_CACHING_BETA));
        assert(strings_view(out@) =~= strings_view(before).push(ANTHROPIC_PROMPT_CACHING_BETA@));
    }
    if out.len() == 0 {
        None
    } else {
        Some(out)
    }
}

pub open spec fn opt_strings_result_view(r: Result<Option<Vec<String>>, SDKError>) -> Result<Option<Seq<Seq<char>>>, SDKErrorView> {
    match r {
        Ok(Some(v)) => Ok(Some(strings_view(v@))),
        Ok(None) => Ok(None),
        Err(e) => Err(e@),
    }
}

/// The beta headers of a request.
pub fn anthropic_beta_headers(options: Option<&Json>, prompt_caching_required: bool) -> (r: Result<Option<Vec<String>>, SDKError>)
    ensures
        opt_strings_result_view(r) == beta_headers_spec(opt_ref(options), prompt_caching_required),
{
    let values = match option_member(options, "beta_headers") {
        None => {
            if prompt_caching_required {
                let mut v: Vec<String> = Vec::new();
                v.push(owned(ANTHROPIC_PROMPT_CACHING_BETA));
                assert(strings_view(v@) =~= seq![ANTHROPIC_PROMPT_CACHING_BETA@]);
                return Ok(Some(v));
            }
            return Ok(None);
        },
        Some(Json::Str(t)) => split_trimmed(t.as_str()),
        Some(Json::Array(items)) => match array_strings(items) {
            Some(v) => v,
            None => return Err(
                invalid_request_error("anthropic", owned("Anthropic beta_headers array must contain strings")),
            ),
        },
        Some(_) => return Err(
            invalid_request_error("anthropic", owned("Anthropic beta_headers must be a string or array of strings")),
        ),
    };
    Ok(finish_beta(values, prompt_caching_required))
}

/// Each beta header is sent once, and every header asked for is sent.
pub proof fn lemma_dedup_values(s: Seq<Seq<char>>)
    ensures
        dedup_values(s).no_duplicates(),
        forall|x: Seq<char>| #[trigger] s.contains(x) <==> dedup_values(s).contains(x),
    decreases s.len(),
{
    if s.len() > 0 {
        let t = s.drop_last();
        let d = dedup_values(t);
        let last = s.last();
        lemma_dedup_values(t);
        assert forall|x: Seq<char>| #[trigger] s.contains(x) <==> (t.contains(x) || x == last) by {
            if s.contains(x) {
                let i = choose|i: int| 0 <= i < s.len() && s[i] == x;
                if i < s.len() - 1 {
                    assert(t[i] == x);
                }
            }
            if t.contains(x) {
                let i = choose|i: int| 0 <= i < t.len() && t[i] == x;
                assert(s[i] == x);
            }
            if x == last {
                assert(s[s.len() - 1] == x);
            }
        }
        if !d.contains(last) {
            let e = d.push(last);
            assert forall|x: Seq<char>| #[trigger] e.contains(x) <==> (d.contains(x) || x == last) by {
                if e.contains(x) {
                    let i = choose|i: int| 0 <= i < e.len() && e[i] == x;
                    if i < d.len() {
                        assert(d[i] == x);
                    }
                }
                if d.contains(x) {
                    let i = choose|i: int| 0 <= i < d.len() && d[i] == x;
                    assert(e[i] == x);
                }
                if x == last {
                    assert(e[d.len() as int] == x);
                }
            }
            assert forall|i: int, j: int| 0 <= i < e.len() && 0 <= j < e.len() && i != j implies e[i] != e[j] by {
                if i < d.len() && j < d.len() {
                    assert(e[i] == d[i] && e[j] == d[j]);
                } else if i < d.len() {
                    assert(e[i] == d[i]);
                    assert(d.contains(d[i]));
                } else {
                    assert(e[j] == d[j]);
                    assert(d.contains(d[j]));
                }
            }
        }
    }
}

// ----- cache breakpoints -----
pub open spec fn sat_add_usize(a: usize, b: usize) -> usize {
    if a + b > usize::MAX {
        usize::MAX
    } else {
        (a + b) as usize
    }
}

/// How many objects in a value carry a `cache_control` member (the count
/// stops growing at `usize::MAX`).
pub open spec fn cache_control_count_spec(j: Json) -> usize
    decreases j, 1int,
{
    match j {
        Json::Object(ms) => sat_add_usize(
            if member_get(ms@, "cache_control"@) is Some {
                1
            } else {
                0
            },
            count_members(ms@),
        ),
        Json::Array(items) => count_items(items@),
        _ => 0,
    }
}

pub open spec fn count_items(s: Seq<Json>) -> usize
    decreases s, 0int,
{
    if s.len() == 0 {
        0
    } else {
        sat_add_usize(count_items(s.drop_last()), cache_control_count_spec(s.last()))
    }
}

pub open spec fn count_members(s: Seq<(String, Json)>) -> usize
    decreases s, 0int,
{
    if s.len() == 0 {
        0
    } else {
        sat_add_usize(count_members(s.drop_last()), cache_control_count_spec(s.last().1))
    }
}

/// How many objects in a value's view carry a `cache_control` member.
pub open spec fn count_view(j: JsonView) -> usize
    decreases j, 1int,
{
    match j {
        JsonView::Object(ms) => sat_add_usize(
            if view_member_get(ms, "cache_control"@) is Some {
                1
            } else {
                0
            },
            count_members_view(ms),
        ),
        JsonView::Array(items) => count_items_view(items),
        _ => 0,
    }
}

pub open spec fn count_items_view(s: Seq<JsonView>) -> usize
    decreases s, 0int,
{
    if s.len() == 0 {
        0
    } else {
        sat_add_usize(count_items_view(s.drop_last()), count_view(s.last()))
    }
}

pub open spec fn count_members_view(s: Seq<(Seq<char>, JsonView)>) -> usize
    decreases s, 0int,
{
    if s.len() == 0 {
        0
    } else {
        sat_add_usize(count_members_view(s.drop_last()), count_view(s.last().1))
    }
}

/// The count depends on the view alone.
pub proof fn lemma_count_view(j: Json)
    ensures
        cache_control_count_spec(j) == count_view(jv(j)),
    decreases j, 1int,
{
    match j {
        Json::Object(ms) => {
            crate::json::lemma_member_get_view(ms@, "cache_control"@);
            assert(decreases_to!(j => ms));
            lemma_count_members_view(ms@);
        },
        Json::Array(items) => {
            assert(decreases_to!(j => items));
            lemma_count_items_view(items@);
        },
        _ => {},
    }
}

proof fn lemma_count_items_view(s: Seq<Json>)
    ensures
        count_items(s) == count_items_view(jv_items(s)),
    decreases s, 0int,
{
    if s.len() > 0 {
        assert(jv_items(s).drop_last() == jv_items(s.drop_last()));
        lemma_count_items_view(s.drop_last());
        assert(decreases_to!(s => s[s.len() - 1]));
        lemma_count_view(s.last());
    }
}

proof fn lemma_count_members_view(s: Seq<(String, Json)>)
    ensures
        count_members(s) == count_members_view(jv_members(s)),
    decreases s, 0int,
{
    if s.len() > 0 {
        assert(jv_members(s).drop_last() == jv_members(s.drop_last()));
        lemma_count_members_view(s.drop_last());
        assert(decreases_to!(s => s[s.len() - 1]));
        assert(decreases_to!(s[s.len() - 1] => s[s.len() - 1].1));
        lemma_count_view(s.last().1);
    }
}

/// How many objects in a value carry a `cache_control` member.
pub fn cache_control_count(v: &Json) -> (r: usize)
    ensures
        r == cache_control_count_spec(*v),
    decreases *v,
{
    match v {
        Json::Object(members) => {
            let own: usize = if crate::json::members_get(members, "cache_control").is_some() {
                1
            } else {
                0
            };
            let mut total: usize = 0;
            let mut i: usize = 0;
            assert(members@.subrange(0, 0) =~= Seq::<(String, Json)>::empty());
            while i < members.len()
                invariant
                    i <= members@.len(),
                    *v == Json::Object(*members),
                    total == count_members(members@.subrange(0, i as int)),
                decreases members@.len() - i,
            {
                assert(decreases_to!(*v => (*v)->Object_0));
                assert(decreases_to!(*members => members[i as int]));
                assert(decreases_to!(members[i as int] => members[i as int].1));
                proof {
                    let t = members@.subrange(0, i + 1);
                    assert(t.drop_last() =~= members@.subrange(0, i as int));
                    assert(t.last() == members@[i as int]);
                }
                let c = cache_control_count(&members[i].1);
                total = total.saturating_add(c);
                i = i + 1;
            }
            assert(members@.subrange(0, members@.len() as int) =~= members@);
            own.saturating_add(total)
        },
        Json::Array(items) => {
            let mut total: usize = 0;
            let mut i: usize = 0;
            assert(items@.subrange(0, 0) =~= Seq::<Json>::empty());
            while i < items.len()
                invariant
                    i <= items@.len(),
                    *v == Json::Array(*items),
                    total == count_items(items@.subrange(0, i as int)),
                decreases items@.len() - i,
            {
                assert(decreases_to!(*v => (*v)->Array_0));
                assert(decreases_to!(*items => items[i as int]));
                proof {
                    let t = items@.subrange(0, i + 1);
                    assert(t.drop_last() =~= items@.subrange(0, i as int));
                    assert(t.last() == items@[i as int]);
                }
                let c = cache_control_count(&items[i]);
                total = total.saturating_add(c);
                i = i + 1;
            }
            assert(items@.subrange(0, items@.len() as int) =~= items@);
            total
        },
        _ => 0,
    }
}

/// Content with a cache control: a non-empty text becomes one text block
/// carrying it; a non-empty block list gets it on its last block; tells
/// whether a breakpoint was added.
pub open spec fn cached_content_spec(v: JsonView, cache_control: JsonView) -> (JsonView, bool) {
    match v {
        JsonView::Str(t) => if t.len() > 0 {
            (
                JsonView::Array(
                    seq![
                        crate::payload::obj3(
                            "cache_control"@,
                            cache_control,
                            "text"@,
                            JsonView::Str(t),
                            "type"@,
                            JsonView::Str("text"@),
                        ),
                    ],
                ),
                true,
            )
        } else {
            (v, false)
        },
        JsonView::Array(blocks) => if blocks.len() > 0 {
            (
                JsonView::Array(crate::anthropic_request::with_cache_control_on_last(blocks, cache_control)),
                crate::anthropic_request::last_block_takes_cache_control(blocks),
            )
        } else {
            (v, false)
        },
        _ => (v, false),
    }
}

/// Puts the cache control on the system prompt.
pub fn apply_cache_control_to_system(system: &mut Json, cache_control: &Json) -> (applied: bool)
    ensures
        (jv(*final(system)), applied) == cached_content_spec(jv(*old(system)), jv(*cache_control)),
{
    let ghost before = jv(*system);
    let (next, applied) = match &*system {
        Json::Str(t) => {
            if t.unicode_len() > 0 {
                let block = crate::payload::object3(
                    "cache_control",
                    copy_json(cache_control),
                    "text",
                    Json::Str(t.clone()),
                    "type",
                    json_str("text"),
                );
                let ghost gb = block;
                let mut v: Vec<Json> = Vec::new();
                v.push(block);
                proof {
                    crate::json::lemma_jv_items_index(v@);
                    assert(crate::json::jv_items(v@) =~= seq![jv(gb)]);
                }
                (Json::Array(v), true)
            } else {
                (copy_json(&*system), false)
            }
        },
        Json::Array(blocks) => {
            if blocks.len() > 0 {
                let mut copied = crate::anthropic_messages::copy_items(blocks);
                let applied = crate::anthropic_request::apply_cache_control_to_last_block(&mut copied, cache_control);
                (Json::Array(copied), applied)
            } else {
                (copy_json(&*system), false)
            }
        },
        _ => (copy_json(&*system), false),
    };
    *system = next;
    applied
}

/// Puts the cache control on a value that is an object without one.
pub open spec fn insert_if_absent_spec(v: JsonView, cache_control: JsonView) -> (JsonView, bool) {
    match v {
        JsonView::Object(ms) => if view_get(v, "cache_control"@) is Some {
            (v, false)
        } else {
            (JsonView::Object(members_insert(ms, "cache_control"@, cache_control)), true)
        },
        _ => (v, false),
    }
}

/// Puts the cache control on a value that is an object without one; tells
/// whether it did.
pub fn insert_cache_control_if_absent(value: &mut Json, cache_control: &Json) -> (applied: bool)
    ensures
        (jv(*final(value)), applied) == insert_if_absent_spec(jv(*old(value)), jv(*cache_control)),
{
    proof {
        crate::json::lemma_view_get(*value, "cache_control"@);
    }
    let next = match &*value {
        Json::Object(members) => {
            if crate::json::members_get(members, "cache_control").is_some() {
                return false;
            }
            let mut copied = copy_json(&*value);
            let mut ms = match copied {
                Json::Object(ms) => ms,
                _ => Vec::new(),
            };
            insert_member(&mut ms, owned("cache_control"), copy_json(cache_control));
            Json::Object(ms)
        },
        _ => return false,
    };
    *value = next;
    true
}

/// A conversation entry with the cache control on its content.
pub open spec fn message_cache_spec(v: JsonView, cache_control: JsonView) -> (JsonView, bool) {
    match v {
        JsonView::Object(ms) => match view_get(v, "content"@) {
            Some(c) => {
                let (c2, applied) = cached_content_spec(c, cache_control);
                (JsonView::Object(members_insert(ms, "content"@, c2)), applied)
            },
            None => (v, false),
        },
        _ => (v, false),
    }
}

/// Puts the cache control on a conversation entry's content.
pub fn apply_cache_control_to_message(message: &mut Json, cache_control: &Json) -> (applied: bool)
    ensures
        (jv(*final(message)), applied) == message_cache_spec(jv(*old(message)), jv(*cache_control)),
{
    proof {
        crate::json::lemma_view_get(*message, "content"@);
    }
    let mut content = match get(&*message, "content") {
        Some(c) => copy_json(c),
        None => return false,
    };
    let applied = apply_cache_control_to_system(&mut content, cache_control);
    let copied = copy_json(&*message);
    let mut ms = match copied {
        Json::Object(ms) => ms,
        _ => Vec::new(),
    };
    insert_member(&mut ms, owned("content"), content);
    *message = Json::Object(ms);
    applied
}

/// The entry that ends the cached conversation prefix: the one before a
/// final user turn, else the last one.
pub open spec fn prefix_target_spec(messages: Seq<JsonView>) -> Option<int> {
    if messages.len() == 0 {
        None
    } else {
        let last = messages.len() - 1;
        if view_get(messages[last], "role"@) == Some(JsonView::Str("user"@)) {
            if last > 0 {
                Some(last - 1)
            } else {
                None
            }
        } else {
            Some(last)
        }
    }
}

/// The entry that ends the cached conversation prefix.
pub fn anthropic_conversation_prefix_cache_target_index(messages: &Vec<Json>) -> (r: Option<usize>)
    ensures
        match r {
            Some(i) => prefix_target_spec(crate::json::jv_items(messages@)) == Some(i as int),
            None => prefix_target_spec(crate::json::jv_items(messages@)) is None,
        },
{
    proof {
        crate::json::lemma_jv_items_index(messages@);
    }
    if messages.len() == 0 {
        return None;
    }
    let last_index = messages.len() - 1;
    proof {
        crate::json::lemma_view_get(messages@[last_index as int], "role"@);
    }
    let last_is_user = match get(&messages[last_index], "role") {
        Some(Json::Str(r)) => str_eq(r.as_str(), "user"),
        _ => false,
    };
    if last_is_user {
        if last_index > 0 {
            Some(last_index - 1)
        } else {
            None
        }
    } else {
        Some(last_index)
    }
}

/// The request body with cache breakpoints added, while fewer than the
/// most allowed are set: on the system prompt, on the last tool, and on the
/// entry that ends the conversation prefix.
pub open spec fn body_cache_spec(body: Seq<(Seq<char>, JsonView)>, count: int, cache_control: JsonView) -> Seq<(Seq<char>, JsonView)> {
    if count >= ANTHROPIC_MAX_CACHE_BREAKPOINTS {
        body
    } else {
        let (b1, n1) = match view_member_get(body, "system"@) {
            Some(sys) => {
                let (s2, applied) = cached_content_spec(sys, cache_control);
                (
                    members_insert(body, "system"@, s2),
                    if applied {
                        count + 1
                    } else {
                        count
                    },
                )
            },
            None => (body, count),
        };
        if n1 >= ANTHROPIC_MAX_CACHE_BREAKPOINTS {
            b1
        } else {
            let (b2, n2) = match view_member_get(b1, "tools"@) {
                Some(JsonView::Array(tools)) => if tools.len() > 0 {
                    let (t2, applied) = insert_if_absent_spec(tools.last(), cache_control);
                    (
                        members_insert(b1, "tools"@, JsonView::Array(tools.drop_last().push(t2))),
                        if applied {
                            n1 + 1
                        } else {
                            n1
                        },
                    )
                } else {
                    (b1, n1)
                },
                _ => (b1, n1),
            };
            if n2 >= ANTHROPIC_MAX_CACHE_BREAKPOINTS {
                b2
            } else {
                match view_member_get(b2, "messages"@) {
                    Some(JsonView::Array(ms)) => match prefix_target_spec(ms) {
                        Some(t) => members_insert(b2, "messages"@, JsonView::Array(ms.update(t, message_cache_spec(ms[t], cache_control).0))),
                        None => b2,
                    },
                    _ => b2,
                }
            }
        }
    }
}

fn set_member(members: &mut Vec<(String, Json)>, at: usize, key: &str, value: Json)
    requires
        crate::tool_merge::key_index(jv_members(old(members)@), key@) == Some(at as int),
    ensures
        jv_members(final(members)@) == members_insert(jv_members(old(members)@), key@, jv(value)),
{
    let ghost old_m = members@;
    let ghost vv = jv(value);
    proof {
        crate::tool_merge::lemma_key_index(jv_members(old_m), key@);
        crate::json::lemma_jv_members_index(old_m);
    }
    members.set(at, (owned(key), value));
    proof {
        crate::json::lemma_jv_members_index(members@);
        assert(jv_members(members@) =~= jv_members(old_m).update(at as int, (key@, vv)));
    }
}

fn member_at(members: &Vec<(String, Json)>, key: &str) -> (r: Option<usize>)
    ensures
        match r {
            Some(at) => at < members@.len() && crate::tool_merge::key_index(jv_members(members@), key@) == Some(at as int)
                && view_member_get(jv_members(members@), key@) == Some(jv(members@[at as int].1)),
            None => view_member_get(jv_members(members@), key@) is None,
        },
{
    let r = crate::tool_merge::find_member(members, key);
    proof {
        crate::tool_merge::lemma_member_value_at(jv_members(members@), key@);
        crate::json::lemma_jv_members_index(members@);
    }
    r
}

/// Adds cache breakpoints to a request body, given as its members.
pub fn apply_anthropic_cache_control(body: &mut Vec<(String, Json)>, cache_control: Option<&Json>)
    ensures
        jv_members(final(body)@) == match cache_control {
            Some(c) => body_cache_spec(
                jv_members(old(body)@),
                cache_control_count_spec(Json::Object(*old(body))) as int,
                jv(*c),
            ),
            None => jv_members(old(body)@),
        },
{
    let cache_control = match cache_control {
        Some(c) => c,
        None => return,
    };
    let mut taken: Vec<(String, Json)> = Vec::new();
    std::mem::swap(&mut taken, body);
    let whole = Json::Object(taken);
    let mut count = cache_control_count(&whole);
    let mut members = match whole {
        Json::Object(ms) => ms,
        _ => Vec::new(),
    };
    let ghost b0 = jv_members(members@);
    let ghost cc = jv(*cache_control);
    if count >= ANTHROPIC_MAX_CACHE_BREAKPOINTS {
        *body = members;
        return;
    }
    match member_at(&members, "system") {
        Some(at) => {
            let mut system = copy_json(&members[at].1);
            let applied = apply_cache_control_to_system(&mut system, cache_control);
            set_member(&mut members, at, "system", system);
            if applied {
                count = count + 1;
            }
        },
        None => {},
    }
    let ghost b1 = jv_members(members@);
    if count >= ANTHROPIC_MAX_CACHE_BREAKPOINTS {
        *body = members;
        return;
    }
    match member_at(&members, "tools") {
        Some(at) => {
            let updated: Option<(Vec<Json>, bool)> = match &members[at].1 {
                Json::Array(tools) => {
                    if tools.len() > 0 {
                        let mut copied = crate::anthropic_messages::copy_items(tools);
                        let ghost cv = crate::json::jv_items(copied@);
                        proof {
                            crate::json::lemma_jv_items_index(tools@);
                            crate::json::lemma_jv_items_index(copied@);
                        }
                        assert(copied@.len() > 0);
                        let mut last = copied.pop().unwrap();
                        assert(crate::json::jv_items(copied@) =~= cv.drop_last());
                        let applied = insert_cache_control_if_absent(&mut last, cache_control);
                        let ghost gl = last;
                        let ghost mid = copied@;
                        copied.push(last);
                        assert(copied@.drop_last() =~= mid);
                        Some((copied, applied))
                    } else {
                        None
                    }
                },
                _ => None,
            };
            match updated {
                Some((tools, applied)) => {
                    set_member(&mut members, at, "tools", Json::Array(tools));
                    if applied {
                        count = count + 1;
                    }
                },
                None => {},
            }
        },
        None => {},
    }
    if count >= ANTHROPIC_MAX_CACHE_BREAKPOINTS {
        *body = members;
        return;
    }
    match member_at(&members, "messages") {
        Some(at) => {
            let updated: Option<Vec<Json>> = match &members[at].1 {
                Json::Array(entries) => match anthropic_conversation_prefix_cache_target_index(entries) {
                    Some(target) => {
                        let ghost ms = crate::json::jv_items(entries@);
                        let mut copied = crate::anthropic_messages::copy_items(entries);
                        proof {
                            crate::json::lemma_jv_items_index(entries@);
                            crate::json::lemma_jv_items_index(copied@);
                        }
                        let mut entry = copy_json(&copied[target]);
                        assert(jv(entry) == ms[target as int]);
                        apply_cache_control_to_message(&mut entry, cache_control);
                        let ghost ge = jv(entry);
                        assert(ge == message_cache_spec(ms[target as int], cc).0);
                        let ghost before = copied@;
                        copied.set(target, entry);
                        proof {
                            crate::json::lemma_jv_items_index(copied@);
                            crate::json::lemma_jv_items_index(before);
                            assert(crate::json::jv_items(copied@) =~= ms.update(target as int, ge));
                        }
                        Some(copied)
                    },
                    None => None,
                },
                _ => None,
            };
            match updated {
                Some(entries) => set_member(&mut members, at, "messages", Json::Array(entries)),
                None => {},
            }
            assert(jv_members(members@) == body_cache_spec(b0, cache_control_count_spec(Json::Object(*old(body))) as int, cc));
        },
        None => {},
    }
    *body = members;
}

/// Whether some object in a value has a member named `key`.
pub open spec fn contains_key_spec(j: Json, key: Seq<char>) -> bool
    decreases j, 1int,
{
    match j {
        Json::Object(ms) => member_get(ms@, key) is Some || members_contain_key(ms@, key),
        Json::Array(items) => items_contain_key(items@, key),
        _ => false,
    }
}

pub open spec fn items_contain_key(s: Seq<Json>, key: Seq<char>) -> bool
    decreases s, 0int,
{
    if s.len() == 0 {
        false
    } else {
        items_contain_key(s.drop_last(), key) || contains_key_spec(s.last(), key)
    }
}

pub open spec fn members_contain_key(s: Seq<(String, Json)>, key: Seq<char>) -> bool
    decreases s, 0int,
{
    if s.len() == 0 {
        false
    } else {
        members_contain_key(s.drop_last(), key) || contains_key_spec(s.last().1, key)
    }
}

/// Whether some object in a value has a member named `key`.
pub fn value_contains_key(v: &Json, key: &str) -> (r: bool)
    ensures
        r == contains_key_spec(*v, key@),
    decreases *v,
{
    match v {
        Json::Object(members) => {
            if crate::json::members_get(members, key).is_some() {
                return true;
            }
            let mut found = false;
            let mut i: usize = 0;
            assert(members@.subrange(0, 0) =~= Seq::<(String, Json)>::empty());
            while i < members.len()
                invariant
                    i <= members@.len(),
                    *v == Json::Object(*members),
                    found == members_contain_key(members@.subrange(0, i as int), key@),
                decreases members@.len() - i,
            {
                assert(decreases_to!(*v => (*v)->Object_0));
                assert(decreases_to!(*members => members[i as int]));
                assert(decreases_to!(members[i as int] => members[i as int].1));
                proof {
                    let t = members@.subrange(0, i + 1);
                    assert(t.drop_last() =~= members@.subrange(0, i as int));
                    assert(t.last() == members@[i as int]);
                }
                let inner = value_contains_key(&members[i].1, key);
                found = found || inner;
                i = i + 1;
            }
            assert(members@.subrange(0, members@.len() as int) =~= members@);
            found
        },
        Json::Array(items) => {
            let mut found = false;
            let mut i: usize = 0;
            assert(items@.subrange(0, 0) =~= Seq::<Json>::empty());
            while i < items.len()
                invariant
                    i <= items@.len(),
                    *v == Json::Array(*items),
                    found == items_contain_key(items@.subrange(0, i as int), key@),
                decreases items@.len() - i,
            {
                assert(decreases_to!(*v => (*v)->Array_0));
                assert(decreases_to!(*items => items[i as int]));
                proof {
                    let t = items@.subrange(0, i + 1);
                    assert(t.drop_last() =~= items@.subrange(0, i as int));
                    assert(t.last() == items@[i as int]);
                }
                let inner = value_contains_key(&items[i], key);
                found = found || inner;
                i = i + 1;
            }
            assert(items@.subrange(0, items@.len() as int) =~= items@);
            found
        },
        _ => false,
    }
}

} // verus!
