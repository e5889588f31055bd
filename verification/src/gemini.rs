//! Reading a Gemini generateContent response: the first candidate's parts,
//! the usage metadata and the finish reason, into the library's response.
use vstd::prelude::*;
use crate::anthropic::{has_tool_call_part, normalized_view, or_empty, or_zero, str_member, string_field, token_at, token_at_spec};
use crate::canonical::{stable_json, stable_text};
use crate::errors::{SDKError, SDKErrorKind, SDKErrorView};
use crate::json::{Json, JsonView, copy_json, get, json_get, json_parse_outcome, jv, parse_json};
use crate::native::{
    escape_value, fnv1a, gemini_finish_reason, gemini_kind, hex_digits, hex_value, is_hex_byte, is_hex_char, last_index_of, non_empty_opt,
    percent_decode_bytes, provider_error_spec, rsplit_once_spec, source_model, stable_digest, synthetic_encoded_name,
};
use crate::request::{
    ContentPart, ContentPartView, FinishReason, FinishReasonKind, Message, MessageRole, RateLimitInfo, Response, ThinkingData,
    ThinkingView, ToolCall, ToolCallView, parts_view, parts_view_text, lemma_parts_text_view,
};
use crate::text::{ascii_upper, concat2, concat3, is_blank, is_blank_seq, opt_seq, owned, push_char, trim_seq};
use crate::textmap::TextMap;
use crate::url::{hex_digit_upper, is_unreserved_byte, percent_encode_byte, percent_encode_bytes, percent_encode_path_segment};
use vstd::utf8::{encode_utf8, valid_utf8};
use crate::usage::{Usage, UsageView};

verus! {

// ----- synthetic call ids -----
/// A decimal digit.
pub open spec fn decimal_digit(d: nat) -> char {
    ((d + 48) as u8) as char
}

/// The decimal text of a number, as `format!("{}")` writes it.
pub open spec fn decimal_text(n: nat) -> Seq<char>
    decreases n,
{
    if n < 10 {
        seq![decimal_digit(n)]
    } else {
        decimal_text(n / 10).push(decimal_digit(n % 10))
    }
}

/// The decimal text of `n`.
pub fn usize_text(n: usize) -> (r: String)
    ensures
        r@ == decimal_text(n as nat),
    decreases n,
{
    let d = n % 10;
    let c = ((d + 48) as u8) as char;
    let mut s = if n < 10 {
        String::new()
    } else {
        usize_text(n / 10)
    };
    let ghost before = s@;
    push_char(&mut s, c);
    proof {
        if n < 10 {
            assert(s@ =~= seq![decimal_digit(n as nat)]);
        }
    }
    s
}

/// The id given to a Gemini function call that came without one: the
/// percent-encoded name, the candidate and part positions, and a digest of
/// the canonical text of the arguments.
pub open spec fn synthetic_id_spec(name: Seq<char>, candidate_index: nat, part_index: nat, arguments_text: Seq<char>) -> Seq<char> {
    "gemini_call_"@ + percent_encode_bytes(vstd::utf8::encode_utf8(name), false) + "_c"@ + decimal_text(candidate_index)
        + "_p"@ + decimal_text(part_index) + "_"@ + hex_digits(fnv1a(vstd::utf8::encode_utf8(arguments_text)), 16)
}

/// The id given to a Gemini function call that came without one.
pub fn gemini_synthetic_tool_call_id(name: &str, candidate_index: usize, part_index: usize, arguments: &Json) -> (r: String)
    ensures
        r@ == synthetic_id_spec(name@, candidate_index as nat, part_index as nat, stable_text(*arguments)),
{
    let encoded = percent_encode_path_segment(name);
    let c = usize_text(candidate_index);
    let p = usize_text(part_index);
    let canonical = stable_json(arguments);
    let digest = stable_digest(canonical.as_str());
    let a = concat3("gemini_call_", encoded.as_str(), "_c");
    let b = concat3(a.as_str(), c.as_str(), "_p");
    let d = concat3(b.as_str(), p.as_str(), "_");
    concat2(d.as_str(), digest.as_str())
}

// ----- function call arguments -----
/// The value a function call's arguments are read from: `args`, else
/// `arguments`, else `null`.
pub open spec fn gemini_args_source(function_call: Json) -> Json {
    match json_get(function_call, "args"@) {
        Some(x) => x,
        None => match json_get(function_call, "arguments"@) {
            Some(x) => x,
            None => Json::Null,
        },
    }
}

/// The error for arguments text that does not parse.
pub open spec fn gemini_args_error(message: Seq<char>) -> SDKErrorView {
    provider_error_spec(
        SDKErrorKind::InvalidToolCall,
        "gemini"@,
        "Gemini functionCall arguments must be valid JSON: "@ + message,
    )
}

/// The arguments of a function call: their value, their raw text and the
/// canonical text of the value. Missing arguments, and blank text, are an
/// empty object; other text must parse as JSON; a value other than text
/// is taken as it is, with its canonical text as the raw text.
pub open spec fn gemini_args_spec(function_call: Json) -> Result<(JsonView, Seq<char>, Seq<char>), SDKErrorView> {
    match gemini_args_source(function_call) {
        Json::Null => Ok((JsonView::Object(Seq::empty()), "{}"@, "{"@ + "}"@)),
        Json::Str(t) => if is_blank_seq(t@) {
            Ok((JsonView::Object(Seq::empty()), t@, "{"@ + "}"@))
        } else {
            match json_parse_outcome(t@) {
                Ok(p) => Ok((jv(p), t@, stable_text(p))),
                Err(m) => Err(gemini_args_error(m)),
            }
        },
        other => Ok((jv(other), stable_text(other), stable_text(other))),
    }
}

fn empty_object() -> (r: Json)
    ensures
        jv(r) == JsonView::Object(Seq::empty()),
        stable_text(r) == "{"@ + "}"@,
{
    let e: Vec<(String, Json)> = Vec::new();
    let r = Json::Object(e);
    assert(crate::json::jv_members(e@) =~= Seq::<(Seq<char>, JsonView)>::empty());
    assert(crate::canonical::member_entries(e@) =~= Seq::<(Seq<char>, Seq<char>)>::empty());
    assert(crate::canonical::sort_entries(Seq::<(Seq<char>, Seq<char>)>::empty()) =~= Seq::<(Seq<char>, Seq<char>)>::empty());
    assert(Seq::<(Seq<char>, Seq<char>)>::empty().map_values(|e: (Seq<char>, Seq<char>)| e.1) =~= Seq::<Seq<char>>::empty());
    assert(crate::canonical::join_commas(Seq::<Seq<char>>::empty()) =~= Seq::<char>::empty());
    assert("{"@ + Seq::<char>::empty() + "}"@ =~= "{"@ + "}"@);
    r
}

/// The arguments of a Gemini function call: their value and their raw text.
pub fn gemini_function_call_arguments(function_call: &Json) -> (r: Result<(Json, String), SDKError>)
    ensures
        match r {
            Ok((args, raw)) => gemini_args_spec(*function_call) == Ok::<(JsonView, Seq<char>, Seq<char>), SDKErrorView>(
                (jv(args), raw@, stable_text(args)),
            ),
            Err(e) => gemini_args_spec(*function_call) == Err::<(JsonView, Seq<char>, Seq<char>), SDKErrorView>(e@),
        },
{
    let source = match get(function_call, "args") {
        Some(x) => Some(x),
        None => get(function_call, "arguments"),
    };
    match source {
        None => Ok((empty_object(), owned("{}"))),
        Some(Json::Null) => Ok((empty_object(), owned("{}"))),
        Some(Json::Str(text)) => {
            if is_blank(text.as_str()) {
                Ok((empty_object(), text.clone()))
            } else {
                match parse_json(text.as_str()) {
                    Ok(parsed) => Ok((parsed, text.clone())),
                    Err(message) => Err(
                        SDKError::provider(
                            SDKErrorKind::InvalidToolCall,
                            concat2("Gemini functionCall arguments must be valid JSON: ", message.as_str()),
                            Some(owned("gemini")),
                        ),
                    ),
                }
            }
        },
        Some(other) => {
            let raw = stable_json(other);
            let args = copy_json(other);
            proof {
                crate::canonical::lemma_stable_text_view(args, *other);
            }
            Ok((args, raw))
        },
    }
}

// ----- usage -----
/// The usage a Gemini `usageMetadata` object reports.
pub open spec fn gemini_usage_spec(value: Option<Json>) -> UsageView {
    UsageView {
        input_tokens: or_zero(token_at_spec(value, "promptTokenCount"@)),
        output_tokens: or_zero(token_at_spec(value, "candidatesTokenCount"@)),
        total_tokens: or_zero(token_at_spec(value, "totalTokenCount"@)),
        reasoning_tokens: token_at_spec(value, "thoughtsTokenCount"@),
        cache_read_tokens: token_at_spec(value, "cachedContentTokenCount"@),
        cache_write_tokens: None,
        raw: match value {
            Some(v) => Some(jv(v)),
            None => None,
        },
    }
}

/// The usage a Gemini `usageMetadata` object reports.
pub fn usage_from_gemini(value: Option<&Json>) -> (r: Usage)
    ensures
        r@ == gemini_usage_spec(match value {
            Some(v) => Some(*v),
            None => None,
        }),
{
    let in_t = token_at(value, "promptTokenCount");
    let out_t = token_at(value, "candidatesTokenCount");
    let total_t = token_at(value, "totalTokenCount");
    Usage {
        input_tokens: match in_t {
            Some(n) => n,
            None => 0,
        },
        output_tokens: match out_t {
            Some(n) => n,
            None => 0,
        },
        total_tokens: match total_t {
            Some(n) => n,
            None => 0,
        },
        reasoning_tokens: token_at(value, "thoughtsTokenCount"),
        cache_read_tokens: token_at(value, "cachedContentTokenCount"),
        cache_write_tokens: None,
        raw: match value {
            Some(v) => Some(copy_json(v)),
            None => None,
        },
    }
}

// ----- parts -----
/// The thinking of a part read from a Gemini response of `model`.
pub open spec fn gemini_thinking(text: Seq<char>, signature: Option<Seq<char>>, model: Seq<char>) -> ThinkingView {
    ThinkingView {
        text,
        signature,
        redacted: false,
        source_provider: Some("gemini"@),
        source_model: non_empty_opt(Some(model)),
    }
}

/// The id of a function call: its `id`, else its `functionCallId`, else a
/// synthetic one.
pub open spec fn gemini_call_id(function_call: Json, name: Seq<char>, candidate_index: nat, part_index: nat, arguments_text: Seq<char>) -> Seq<char> {
    match str_member(function_call, "id"@) {
        Some(i) => i,
        None => match str_member(function_call, "functionCallId"@) {
            Some(i) => i,
            None => synthetic_id_spec(name, candidate_index, part_index, arguments_text),
        },
    }
}

/// What a part of a Gemini candidate becomes: text (reasoning when marked
/// `thought`), a function call (which needs a name), or the part itself
/// passed on. A part that is not an object, or a call without a name, is
/// dropped; arguments text that does not parse is an error.
pub open spec fn gemini_part_spec(part: Json, model: Seq<char>, candidate_index: nat, part_index: nat) -> Result<Option<ContentPartView>, SDKErrorView> {
    match part {
        Json::Object(_) => match str_member(part, "text"@) {
            Some(text) => Ok(
                Some(
                    if json_get(part, "thought"@) == Some(Json::Bool(true)) {
                        ContentPartView::Thinking {
                            thinking: gemini_thinking(text, str_member(part, "thoughtSignature"@), model),
                        }
                    } else {
                        ContentPartView::Text { text }
                    },
                ),
            ),
            None => match json_get(part, "functionCall"@) {
                Some(Json::Object(fields)) => {
                    let fc = Json::Object(fields);
                    match str_member(fc, "name"@) {
                        None => Ok(None),
                        Some(name) => match gemini_args_spec(fc) {
                            Err(e) => Err(e),
                            Ok(a) => Ok(
                                Some(
                                    ContentPartView::ToolCall {
                                        tool_call: ToolCallView {
                                            id: gemini_call_id(fc, name, candidate_index, part_index, a.2),
                                            name,
                                            arguments: a.0,
                                            raw_arguments: Some(a.1),
                                            call_type: "function"@,
                                        },
                                    },
                                ),
                            ),
                        },
                    }
                },
                _ => Ok(Some(ContentPartView::Provider { raw: jv(part) })),
            },
        },
        _ => Ok(None),
    }
}

/// The content of a list of parts, in order; the first error stops it.
pub open spec fn gemini_parts_spec(parts: Seq<Json>, model: Seq<char>, candidate_index: nat) -> Result<Seq<ContentPartView>, SDKErrorView>
    decreases parts.len(),
{
    if parts.len() == 0 {
        Ok(Seq::empty())
    } else {
        match gemini_parts_spec(parts.drop_last(), model, candidate_index) {
            Err(e) => Err(e),
            Ok(rest) => match gemini_part_spec(parts.last(), model, candidate_index, (parts.len() - 1) as nat) {
                Err(e) => Err(e),
                Ok(None) => Ok(rest),
                Ok(Some(p)) => Ok(rest.push(p)),
            },
        }
    }
}

/// The content of a candidate's `content` value: nothing unless its
/// `parts` is an array.
pub open spec fn gemini_content_spec(value: Json, model: Seq<char>, candidate_index: nat) -> Result<Seq<ContentPartView>, SDKErrorView> {
    match json_get(value, "parts"@) {
        Some(Json::Array(items)) => gemini_parts_spec(items@, model, candidate_index),
        _ => Ok(Seq::empty()),
    }
}

proof fn lemma_parts_error_stays(parts: Seq<Json>, k: int, model: Seq<char>, candidate_index: nat)
    requires
        0 <= k <= parts.len(),
        gemini_parts_spec(parts.subrange(0, k), model, candidate_index) is Err,
    ensures
        gemini_parts_spec(parts, model, candidate_index) == gemini_parts_spec(parts.subrange(0, k), model, candidate_index),
    decreases parts.len(),
{
    if k == parts.len() {
        assert(parts.subrange(0, k) =~= parts);
    } else {
        assert(parts.drop_last().subrange(0, k) =~= parts.subrange(0, k));
        lemma_parts_error_stays(parts.drop_last(), k, model, candidate_index);
    }
}

fn gemini_part(part: &Json, model: &str, candidate_index: usize, part_index: usize) -> (r: Result<Option<ContentPart>, SDKError>)
    ensures
        match r {
            Ok(Some(p)) => gemini_part_spec(*part, model@, candidate_index as nat, part_index as nat) == Ok::<Option<ContentPartView>, SDKErrorView>(Some(p@)),
            Ok(None) => gemini_part_spec(*part, model@, candidate_index as nat, part_index as nat) == Ok::<Option<ContentPartView>, SDKErrorView>(None),
            Err(e) => gemini_part_spec(*part, model@, candidate_index as nat, part_index as nat) == Err::<Option<ContentPartView>, SDKErrorView>(e@),
        },
{
    match part {
        Json::Object(_) => {},
        _ => return Ok(None),
    }
    if let Some(text) = string_field(part, "text") {
        let thought = match get(part, "thought") {
            Some(Json::Bool(b)) => *b,
            _ => false,
        };
        if thought {
            return Ok(
                Some(
                    ContentPart::Thinking {
                        thinking: ThinkingData {
                            text,
                            signature: string_field(part, "thoughtSignature"),
                            redacted: false,
                            source_provider: Some(owned("gemini")),
                            source_model: source_model(model),
                        },
                    },
                ),
            );
        } else {
            return Ok(Some(ContentPart::Text { text }));
        }
    }
    let function_call = match get(part, "functionCall") {
        Some(fc) => match fc {
            Json::Object(_) => fc,
            _ => return Ok(Some(ContentPart::Provider { raw: copy_json(part) })),
        },
        None => return Ok(Some(ContentPart::Provider { raw: copy_json(part) })),
    };
    let name = match string_field(function_call, "name") {
        Some(n) => n,
        None => return Ok(None),
    };
    let (arguments, raw_arguments) = match gemini_function_call_arguments(function_call) {
        Ok(a) => a,
        Err(e) => return Err(e),
    };
    let id = match string_field(function_call, "id") {
        Some(i) => i,
        None => match string_field(function_call, "functionCallId") {
            Some(i) => i,
            None => gemini_synthetic_tool_call_id(name.as_str(), candidate_index, part_index, &arguments),
        },
    };
    Ok(
        Some(
            ContentPart::ToolCall {
                tool_call: ToolCall { id, name, arguments, raw_arguments: Some(raw_arguments), call_type: owned("function") },
            },
        ),
    )
}

/// The content of a Gemini candidate's `content` value, in order.
pub fn gemini_response_content(value: &Json, model: &str, candidate_index: usize) -> (r: Result<Vec<ContentPart>, SDKError>)
    ensures
        match r {
            Ok(v) => gemini_content_spec(*value, model@, candidate_index as nat) == Ok::<Seq<ContentPartView>, SDKErrorView>(parts_view(v@)),
            Err(e) => gemini_content_spec(*value, model@, candidate_index as nat) == Err::<Seq<ContentPartView>, SDKErrorView>(e@),
        },
{
    let items = match get(value, "parts") {
        Some(Json::Array(items)) => items,
        _ => {
            let v: Vec<ContentPart> = Vec::new();
            assert(parts_view(v@) =~= Seq::<ContentPartView>::empty());
            return Ok(v);
        },
    };
    let mut content: Vec<ContentPart> = Vec::new();
    let mut i: usize = 0;
    assert(parts_view(content@) =~= Seq::<ContentPartView>::empty());
    while i < items.len()
        invariant
            i <= items@.len(),
            json_get(*value, "parts"@) == Some(Json::Array(*items)),
            gemini_parts_spec(items@.subrange(0, i as int), model@, candidate_index as nat) == Ok::<Seq<ContentPartView>, SDKErrorView>(parts_view(content@)),
        decreases items@.len() - i,
    {
        proof {
            let t = items@.subrange(0, i + 1);
            assert(t.drop_last() =~= items@.subrange(0, i as int));
            assert(t.last() == items@[i as int]);
        }
        let ghost before = parts_view(content@);
        match gemini_part(&items[i], model, candidate_index, i) {
            Ok(Some(p)) => {
                content.push(p);
                assert(parts_view(content@) =~= before.push(p@));
            },
            Ok(None) => {},
            Err(e) => {
                proof {
                    lemma_parts_error_stays(items@, i + 1, model@, candidate_index as nat);
                }
                return Err(e);
            },
        }
        i = i + 1;
    }
    assert(items@.subrange(0, items@.len() as int) =~= items@);
    Ok(content)
}

// ----- responses -----
/// The first candidate of a Gemini response, when it is an object.
pub open spec fn gemini_candidate(payload: Json) -> Option<Json> {
    match json_get(payload, "candidates"@) {
        Some(Json::Array(cs)) => if cs@.len() > 0 && cs@[0] is Object {
            Some(cs@[0])
        } else {
            None
        },
        _ => None,
    }
}

/// The model a Gemini response names: `modelVersion`, else `model`, else
/// the first candidate's `modelVersion`, else nothing.
pub open spec fn gemini_model(payload: Json) -> Seq<char> {
    match str_member(payload, "modelVersion"@) {
        Some(m) => m,
        None => match str_member(payload, "model"@) {
            Some(m) => m,
            None => match gemini_candidate(payload) {
                Some(c) => or_empty(str_member(c, "modelVersion"@)),
                None => Seq::empty(),
            },
        },
    }
}

/// The content of a Gemini response: the first candidate's.
pub open spec fn gemini_parts(payload: Json) -> Result<Seq<ContentPartView>, SDKErrorView> {
    match gemini_candidate(payload) {
        Some(c) => match json_get(c, "content"@) {
            Some(content) => gemini_content_spec(content, gemini_model(payload), 0),
            None => Ok(Seq::empty()),
        },
        None => Ok(Seq::empty()),
    }
}

/// The finish reason the first candidate reports.
pub open spec fn gemini_finish_raw(payload: Json) -> Option<Seq<char>> {
    match gemini_candidate(payload) {
        Some(c) => str_member(c, "finishReason"@),
        None => None,
    }
}

/// Whether the counts of a response's usage can be added up.
pub open spec fn gemini_usage_fits(payload: Json) -> bool {
    let u = gemini_usage_spec(json_get(payload, "usageMetadata"@));
    u.total_tokens == 0 ==> u.input_tokens + u.output_tokens <= u64::MAX
}

/// What a response read from a Gemini payload with content `parts` holds.
pub open spec fn gemini_response_spec(r: Response, payload: Json, rate_limit: Option<RateLimitInfo>, parts: Seq<ContentPartView>) -> bool {
    let has_tools = has_tool_call_part(parts);
    &&& r.id@ == or_empty(str_member(payload, "responseId"@))
    &&& r.model@ == gemini_model(payload)
    &&& r.provider@ == "gemini"@
    &&& r.message.role == MessageRole::Assistant
    &&& parts_view(r.message.content@) == parts
    &&& r.message.name is None
    &&& r.message.tool_call_id is None
    &&& r.message.provider_metadata.as_map() == Map::<Seq<char>, Json>::empty()
    &&& r.finish_reason.reason == match gemini_finish_raw(payload) {
        Some(raw) => gemini_kind(ascii_upper(trim_seq(raw)), has_tools),
        None => FinishReasonKind::Other,
    }
    &&& opt_seq(r.finish_reason.raw) == gemini_finish_raw(payload)
    &&& r.usage@ == normalized_view(gemini_usage_spec(json_get(payload, "usageMetadata"@)))
    &&& r.raw matches Some(raw) && raw@ == payload@
    &&& r.rate_limit == rate_limit
    &&& r.text@ == parts_view_text(parts)
    &&& r.warnings@.len() == 0
    &&& r.tool_calls@.len() == 0
    &&& r.raw_provider_events@.len() == 0
}

/// Reads a Gemini generateContent response. The payload must be a JSON
/// object, and the arguments text of its function calls must parse.
pub fn translate_gemini_generate_content_response(
    payload: Json,
    rate_limit: Option<RateLimitInfo>,
) -> (r: Result<Response, SDKError>)
    requires
        gemini_usage_fits(payload),
    ensures
        match r {
            Ok(resp) => payload is Object && (gemini_parts(payload) matches Ok(parts) && gemini_response_spec(
                resp,
                payload,
                rate_limit,
                parts,
            )),
            Err(e) => if payload is Object {
                gemini_parts(payload) == Err::<Seq<ContentPartView>, SDKErrorView>(e@)
            } else {
                e@ == provider_error_spec(
                    SDKErrorKind::Provider,
                    "gemini"@,
                    "Gemini generateContent response must be a JSON object"@,
                )
            },
        },
{
    match &payload {
        Json::Object(_) => {},
        _ => {
            return Err(
                SDKError::provider(
                    SDKErrorKind::Provider,
                    owned("Gemini generateContent response must be a JSON object"),
                    Some(owned("gemini")),
                ),
            );
        },
    }
    let candidate: Option<&Json> = match get(&payload, "candidates") {
        Some(Json::Array(cs)) => {
            if cs.len() > 0 {
                match &cs[0] {
                    Json::Object(_) => Some(&cs[0]),
                    _ => None,
                }
            } else {
                None
            }
        },
        _ => None,
    };
    let model = match string_field(&payload, "modelVersion") {
        Some(m) => m,
        None => match string_field(&payload, "model") {
            Some(m) => m,
            None => match candidate {
                Some(c) => match string_field(c, "modelVersion") {
                    Some(m) => m,
                    None => String::new(),
                },
                None => String::new(),
            },
        },
    };
    let content = match candidate {
        Some(c) => match get(c, "content") {
            Some(value) => match gemini_response_content(value, model.as_str(), 0) {
                Ok(v) => v,
                Err(e) => return Err(e),
            },
            None => {
                let v: Vec<ContentPart> = Vec::new();
                assert(parts_view(v@) =~= Seq::<ContentPartView>::empty());
                v
            },
        },
        None => {
            let v: Vec<ContentPart> = Vec::new();
            assert(parts_view(v@) =~= Seq::<ContentPartView>::empty());
            v
        },
    };
    let ghost parts = parts_view(content@);
    let mut has_tool_calls = false;
    let mut i: usize = 0;
    while i < content.len()
        invariant
            i <= content@.len(),
            parts == parts_view(content@),
            has_tool_calls == exists|j: int| 0 <= j < i && parts[j] is ToolCall,
        decreases content@.len() - i,
    {
        assert(parts[i as int] == content@[i as int]@);
        if let ContentPart::ToolCall { .. } = &content[i] {
            has_tool_calls = true;
        }
        i = i + 1;
    }
    let message = Message { role: MessageRole::Assistant, content, name: None, tool_call_id: None, provider_metadata: TextMap::new() };
    let text = message.text();
    proof {
        lemma_parts_text_view(message.content@);
    }
    let finish_reason = match candidate {
        Some(c) => match string_field(c, "finishReason") {
            Some(raw) => gemini_finish_reason(raw.as_str(), has_tool_calls),
            None => FinishReason::of_kind(FinishReasonKind::Other),
        },
        None => FinishReason::of_kind(FinishReasonKind::Other),
    };
    let usage = usage_from_gemini(get(&payload, "usageMetadata")).normalized();
    let id = match string_field(&payload, "responseId") {
        Some(i) => i,
        None => String::new(),
    };
    let raw = copy_json(&payload);
    Ok(
        Response {
            id,
            model,
            provider: owned("gemini"),
            message,
            finish_reason,
            usage,
            raw: Some(raw),
            warnings: Vec::new(),
            rate_limit,
            text,
            tool_calls: Vec::new(),
            raw_provider_events: Vec::new(),
        },
    )
}

// ----- reading a name back from a synthetic id -----
proof fn lemma_encode_utf8_append(a: Seq<char>, b: Seq<char>)
    ensures
        encode_utf8(a + b) == encode_utf8(a) + encode_utf8(b),
    decreases a.len(),
{
    if a.len() == 0 {
        assert(a + b =~= b);
        assert(encode_utf8(a) =~= Seq::<u8>::empty());
        assert(encode_utf8(a) + encode_utf8(b) =~= encode_utf8(b));
    } else {
        lemma_encode_utf8_append(a.drop_first(), b);
        assert((a + b).drop_first() =~= a.drop_first() + b);
        assert((a + b)[0] == a[0]);
        assert(encode_utf8(a + b) =~= encode_utf8(a) + encode_utf8(b));
    }
}

proof fn lemma_encode_ascii_char(c: char)
    requires
        (c as u32) < 128,
    ensures
        encode_utf8(seq![c]) == seq![(c as u32) as u8],
{
    let v = c as u32;
    assert((v & 0x7Fu32) == v) by (bit_vector)
        requires
            v < 128u32,
    ;
    assert(seq![c][0] == c);
    assert(seq![c].drop_first() =~= Seq::<char>::empty());
    assert(encode_utf8(seq![c].drop_first()) =~= Seq::<u8>::empty());
    assert(encode_utf8(seq![c]) =~= seq![(c as u32) as u8]);
}

/// The byte of an upper-case hexadecimal digit for a value below 16.
pub open spec fn hex_upper_byte(n: u8) -> u8 {
    if n < 10 {
        (48 + n) as u8
    } else {
        (55 + n) as u8
    }
}

/// The UTF-8 bytes of the percent-encoding of one byte.
pub open spec fn encoded_byte_bytes(b: u8) -> Seq<u8> {
    if is_unreserved_byte(b) {
        seq![b]
    } else {
        seq![37u8, hex_upper_byte(b / 16), hex_upper_byte(b % 16)]
    }
}

/// The UTF-8 bytes of the percent-encoding of a byte string.
pub open spec fn encoded_bytes(bs: Seq<u8>) -> Seq<u8>
    decreases bs.len(),
{
    if bs.len() == 0 {
        Seq::empty()
    } else {
        encoded_byte_bytes(bs[0]) + encoded_bytes(bs.drop_first())
    }
}

proof fn lemma_encode_one_byte(b: u8)
    ensures
        encode_utf8(percent_encode_byte(b, false)) == encoded_byte_bytes(b),
{
    if is_unreserved_byte(b) {
        lemma_encode_ascii_char(b as char);
    } else {
        let h1 = hex_digit_upper(b / 16);
        let h2 = hex_digit_upper(b % 16);
        assert(percent_encode_byte(b, false) =~= seq!['%'] + seq![h1] + seq![h2]);
        lemma_encode_utf8_append(seq!['%'] + seq![h1], seq![h2]);
        lemma_encode_utf8_append(seq!['%'], seq![h1]);
        lemma_encode_ascii_char('%');
        lemma_encode_ascii_char(h1);
        lemma_encode_ascii_char(h2);
        assert(encode_utf8(percent_encode_byte(b, false)) =~= encoded_byte_bytes(b));
    }
}

proof fn lemma_percent_encode_front(bs: Seq<u8>)
    requires
        bs.len() > 0,
    ensures
        percent_encode_bytes(bs, false) == percent_encode_byte(bs[0], false) + percent_encode_bytes(bs.drop_first(), false),
    decreases bs.len(),
{
    if bs.len() == 1 {
        assert(bs.drop_last() =~= Seq::<u8>::empty());
        assert(bs.drop_first() =~= Seq::<u8>::empty());
        assert(percent_encode_bytes(bs, false) =~= percent_encode_byte(bs[0], false) + percent_encode_bytes(
            bs.drop_first(),
            false,
        ));
    } else {
        lemma_percent_encode_front(bs.drop_last());
        assert(bs.drop_last().drop_first() =~= bs.drop_first().drop_last());
        assert(bs.drop_first().last() == bs.last());
        assert(bs.drop_last()[0] == bs[0]);
        assert(percent_encode_bytes(bs, false) =~= percent_encode_byte(bs[0], false) + percent_encode_bytes(
            bs.drop_first(),
            false,
        ));
    }
}

proof fn lemma_encoded_text_bytes(bs: Seq<u8>)
    ensures
        encode_utf8(percent_encode_bytes(bs, false)) == encoded_bytes(bs),
    decreases bs.len(),
{
    if bs.len() == 0 {
        assert(encode_utf8(percent_encode_bytes(bs, false)) =~= Seq::<u8>::empty());
    } else {
        lemma_percent_encode_front(bs);
        lemma_encode_utf8_append(percent_encode_byte(bs[0], false), percent_encode_bytes(bs.drop_first(), false));
        lemma_encode_one_byte(bs[0]);
        lemma_encoded_text_bytes(bs.drop_first());
    }
}

proof fn lemma_hex_upper_byte(n: u8)
    requires
        n < 16,
    ensures
        is_hex_byte(hex_upper_byte(n)),
        hex_value(hex_upper_byte(n)) == n,
        hex_digit_upper(n) as u32 == hex_upper_byte(n) as u32,
        (hex_digit_upper(n) as u32) < 128,
{
}

proof fn lemma_decode_encoded(bs: Seq<u8>)
    ensures
        percent_decode_bytes(encoded_bytes(bs)) == Some(bs),
    decreases bs.len(),
{
    if bs.len() == 0 {
        assert(encoded_bytes(bs) =~= Seq::<u8>::empty());
        assert(bs =~= Seq::<u8>::empty());
    } else {
        let b = bs[0];
        let rest = encoded_bytes(bs.drop_first());
        let x = encoded_bytes(bs);
        lemma_decode_encoded(bs.drop_first());
        assert(seq![b] + bs.drop_first() =~= bs);
        if is_unreserved_byte(b) {
            assert(x[0] == b);
            assert(x.drop_first() =~= rest);
        } else {
            lemma_hex_upper_byte(b / 16);
            lemma_hex_upper_byte(b % 16);
            assert(x[0] == 37u8);
            assert(x[1] == hex_upper_byte(b / 16));
            assert(x[2] == hex_upper_byte(b % 16));
            assert(x.subrange(3, x.len() as int) =~= rest);
            assert(escape_value(x[1], x[2]) == Some(b));
        }
    }
}

proof fn lemma_last_index_after(a: Seq<char>, c: char, b: Seq<char>)
    requires
        forall|i: int| 0 <= i < b.len() ==> b[i] != c,
    ensures
        last_index_of(a + seq![c] + b, c) == Some(a.len() as int),
    decreases b.len(),
{
    let s = a + seq![c] + b;
    if b.len() == 0 {
        assert(s.last() == c);
    } else {
        lemma_last_index_after(a, c, b.drop_last());
        assert(s.drop_last() =~= a + seq![c] + b.drop_last());
        assert(s.last() == b.last());
    }
}

proof fn lemma_rsplit_at(a: Seq<char>, c: char, b: Seq<char>)
    requires
        forall|i: int| 0 <= i < b.len() ==> b[i] != c,
    ensures
        rsplit_once_spec(a + seq![c] + b, c) == Some((a, b)),
{
    lemma_last_index_after(a, c, b);
    let s = a + seq![c] + b;
    assert(s.subrange(0, a.len() as int) =~= a);
    assert(s.subrange(a.len() as int + 1, s.len() as int) =~= b);
}

proof fn lemma_decimal_digits(n: nat)
    ensures
        decimal_text(n).len() >= 1,
        forall|i: int| 0 <= i < decimal_text(n).len() ==> crate::sse::is_digit(#[trigger] decimal_text(n)[i]),
    decreases n,
{
    if n >= 10 {
        lemma_decimal_digits(n / 10);
    }
}

proof fn lemma_hex_digits(h: u64, n: nat)
    ensures
        hex_digits(h, n).len() == n,
        forall|i: int| 0 <= i < n ==> is_hex_char(#[trigger] hex_digits(h, n)[i]),
    decreases n,
{
    if n > 0 {
        lemma_hex_digits(h / 16, (n - 1) as nat);
    }
}

/// A synthetic call id gives back the name it was made from: the name part
/// of the id is the percent-encoded name, which decodes to the name's UTF-8
/// bytes, and only that name has those bytes. So, by its contract,
/// `gemini_synthetic_tool_call_name` returns every non-empty name that
/// `gemini_synthetic_tool_call_id` was given.
pub proof fn lemma_synthetic_id_name_round_trip(name: Seq<char>, candidate_index: nat, part_index: nat, arguments_text: Seq<char>)
    requires
        name.len() > 0,
    ensures
        synthetic_encoded_name(synthetic_id_spec(name, candidate_index, part_index, arguments_text)) == Some(
            percent_encode_bytes(encode_utf8(name), false),
        ),
        percent_decode_bytes(encode_utf8(percent_encode_bytes(encode_utf8(name), false))) == Some(encode_utf8(name)),
        valid_utf8(encode_utf8(name)),
        encode_utf8(name).len() > 0,
        forall|other: Seq<char>| #[trigger] encode_utf8(other) == encode_utf8(name) ==> other == name,
{
    reveal_strlit("_c");
    reveal_strlit("_p");
    reveal_strlit("_");
    let e = percent_encode_bytes(encode_utf8(name), false);
    let dc = decimal_text(candidate_index);
    let dp = decimal_text(part_index);
    let h = hex_digits(fnv1a(encode_utf8(arguments_text)), 16);
    let g = "gemini_call_"@;
    let id = synthetic_id_spec(name, candidate_index, part_index, arguments_text);
    lemma_decimal_digits(candidate_index);
    lemma_decimal_digits(part_index);
    lemma_hex_digits(fnv1a(encode_utf8(arguments_text)), 16);
    let a1 = e + seq!['_', 'c'] + dc + seq!['_', 'p'] + dp;
    assert(id =~= g + (a1 + seq!['_'] + h));
    assert(id.subrange(0, g.len() as int) =~= g);
    let suffix = id.subrange(g.len() as int, id.len() as int);
    assert(suffix =~= a1 + seq!['_'] + h);
    lemma_rsplit_at(a1, '_', h);
    let b2 = seq!['p'] + dp;
    let a2 = e + seq!['_', 'c'] + dc;
    assert(a1 =~= a2 + seq!['_'] + b2);
    assert forall|i: int| 0 <= i < b2.len() implies b2[i] != '_' by {
        if i > 0 {
            assert(b2[i] == dp[i - 1]);
        }
    }
    lemma_rsplit_at(a2, '_', b2);
    assert(b2.drop_first() =~= dp);
    let b3 = seq!['c'] + dc;
    assert(a2 =~= e + seq!['_'] + b3);
    assert forall|i: int| 0 <= i < b3.len() implies b3[i] != '_' by {
        if i > 0 {
            assert(b3[i] == dc[i - 1]);
        }
    }
    lemma_rsplit_at(e, '_', b3);
    assert(b3.drop_first() =~= dc);
    lemma_encoded_text_bytes(encode_utf8(name));
    lemma_decode_encoded(encode_utf8(name));
    vstd::utf8::encode_utf8_valid_utf8(name);
    vstd::utf8::encode_utf8_first_scalar(name);
    assert forall|other: Seq<char>| #[trigger] encode_utf8(other) == encode_utf8(name) implies other == name by {
        vstd::utf8::encode_utf8_decode_utf8(other);
        vstd::utf8::encode_utf8_decode_utf8(name);
    }
}

} // verus!
