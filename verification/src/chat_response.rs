//! Reading an OpenAI-compatible Chat Completions response: the first
//! choice's message becomes the response's content and tool calls.
use vstd::prelude::*;
use crate::anthropic_stream::text_or_empty;
use crate::anthropic::{normalized_view, or_empty, or_zero, str_member, string_field, token_at, token_at_spec};
use crate::compatible::{WarningView, dedup_spec, deduplicate_warnings, unsupported_warning, warnings_view};
use crate::errors::{SDKError, SDKErrorKind, SDKErrorView};
use crate::json::{Json, JsonView, copy_json, get, json_debug, json_debug_text, json_get, json_text, json_to_text, jv};
use crate::native::{compatible_provider_check, provider_error, provider_error_spec, unit_error_view, validate_compatible_provider};
use crate::openai_response::{first_some, sub_member, sub_value};
use crate::openai_stream::{stream_arguments, stream_arguments_spec};
use crate::request::{
    ContentPart, ContentPartView, FinishReason, FinishReasonKind, Message, MessageRole, RateLimitInfo, Response, ToolCall,
    ToolCallView, parts_text, parts_view, tool_calls_view,
};
use crate::stream_actions::{either_text, first_text, value_string, value_string_spec};
use crate::text::{ascii_lower, concat2, opt_seq, owned, str_eq, trim, trim_lower, trim_seq};
use crate::usage::{Usage, UsageView};

verus! {

// ----- content -----
/// The text of a content part: its `text`, else its `content`.
pub open spec fn chat_text_part_spec(v: Json) -> Option<Seq<char>> {
    first_text(value_string_spec(v, "text"@), value_string_spec(v, "content"@))
}

/// A part of an array content: text, else the part as a provider part.
pub open spec fn chat_part_view(v: Json) -> ContentPartView {
    match chat_text_part_spec(v) {
        Some(t) => ContentPartView::Text { text: t },
        None => ContentPartView::Provider { raw: jv(v) },
    }
}

/// An error of a response the adapter cannot read.
pub open spec fn chat_error(provider: Seq<char>, message: Seq<char>) -> SDKErrorView {
    provider_error_spec(SDKErrorKind::Provider, provider, message)
}

/// The content of a message: a non-empty string as one text part, an
/// array part by part, nothing for null or no content; any other value is
/// refused.
pub open spec fn chat_content_spec(provider: Seq<char>, message: Json) -> Result<Seq<ContentPartView>, SDKErrorView> {
    match json_get(message, "content"@) {
        None => Ok(Seq::empty()),
        Some(Json::Null) => Ok(Seq::empty()),
        Some(Json::Str(t)) => Ok(
            if t@.len() == 0 {
                Seq::empty()
            } else {
                seq![ContentPartView::Text { text: t@ }]
            },
        ),
        Some(Json::Array(parts)) => Ok(parts@.map_values(|p: Json| chat_part_view(p))),
        Some(other) => Err(
            chat_error(
                provider,
                "OpenAI-compatible message content must be string, array, or null; got "@ + json_debug_text(jv(other)),
            ),
        ),
    }
}

// ----- tool calls -----
/// The arguments text of a function: its string, else its compact JSON
/// text, else `{}`.
pub open spec fn chat_arguments_text(f: Json) -> Seq<char> {
    match json_get(f, "arguments"@) {
        Some(Json::Str(s)) => s@,
        Some(other) => json_text(jv(other)),
        None => "{}"@,
    }
}

/// A tool call of a message.
pub open spec fn chat_tool_call_spec(provider: Seq<char>, item: Json) -> Result<ToolCallView, SDKErrorView> {
    if !(item is Object) {
        Err(chat_error(provider, "OpenAI-compatible message tool_calls entries must be objects"@))
    } else {
        match json_get(item, "function"@) {
            Some(f) => if f is Object {
                let name = or_empty(value_string_spec(f, "name"@));
                let raw = chat_arguments_text(f);
                Ok(
                    ToolCallView {
                        id: match value_string_spec(item, "id"@) {
                            Some(i) => i,
                            None => name,
                        },
                        name,
                        arguments: stream_arguments_spec(raw),
                        raw_arguments: Some(raw),
                        call_type: match value_string_spec(item, "type"@) {
                            Some(t) => t,
                            None => "function"@,
                        },
                    },
                )
            } else {
                Err(chat_error(provider, "OpenAI-compatible tool_calls entries require function objects"@))
            },
            None => Err(chat_error(provider, "OpenAI-compatible tool_calls entries require function objects"@)),
        }
    }
}

/// The tool calls of some entries, in order, or the error of the first
/// entry that is refused.
pub open spec fn chat_tool_calls_fold(provider: Seq<char>, items: Seq<Json>) -> Result<Seq<ToolCallView>, SDKErrorView>
    decreases items.len(),
{
    if items.len() == 0 {
        Ok(Seq::empty())
    } else {
        match chat_tool_calls_fold(provider, items.drop_last()) {
            Err(e) => Err(e),
            Ok(acc) => match chat_tool_call_spec(provider, items.last()) {
                Err(e) => Err(e),
                Ok(c) => Ok(acc.push(c)),
            },
        }
    }
}

/// The tool calls of a message's `tool_calls`, which must be an array.
pub open spec fn chat_tool_calls_spec(provider: Seq<char>, v: Option<Json>) -> Result<Seq<ToolCallView>, SDKErrorView> {
    match v {
        None => Ok(Seq::empty()),
        Some(Json::Array(items)) => chat_tool_calls_fold(provider, items@),
        Some(_) => Err(chat_error(provider, "OpenAI-compatible message tool_calls must be an array"@)),
    }
}

// ----- usage and finish reason -----
/// The usage a Chat Completions `usage` object reports, under either naming.
pub open spec fn chat_usage_spec(value: Option<Json>) -> UsageView {
    UsageView {
        input_tokens: or_zero(first_some(token_at_spec(value, "prompt_tokens"@), token_at_spec(value, "input_tokens"@))),
        output_tokens: or_zero(
            first_some(token_at_spec(value, "completion_tokens"@), token_at_spec(value, "output_tokens"@)),
        ),
        total_tokens: or_zero(token_at_spec(value, "total_tokens"@)),
        reasoning_tokens: None,
        cache_read_tokens: first_some(
            token_at_spec(sub_value(value, "prompt_tokens_details"@), "cached_tokens"@),
            token_at_spec(sub_value(value, "input_tokens_details"@), "cached_tokens"@),
        ),
        cache_write_tokens: None,
        raw: match value {
            Some(v) => Some(jv(v)),
            None => None,
        },
    }
}

/// Whether the usage reports reasoning tokens, which the adapter does not expose.
pub open spec fn chat_reasoning_reported(value: Option<Json>) -> bool {
    first_some(
        token_at_spec(sub_value(value, "completion_tokens_details"@), "reasoning_tokens"@),
        token_at_spec(sub_value(value, "output_tokens_details"@), "reasoning_tokens"@),
    ) is Some
}

pub open spec fn reasoning_warning() -> WarningView {
    WarningView {
        message: "OpenAI-compatible Chat Completions does not expose reasoning token visibility through the unified compatible adapter"@,
        code: Some("unsupported_reasoning_token_visibility"@),
    }
}

/// Whether the counts of a response's usage can be added up.
pub open spec fn chat_usage_fits(payload: Json) -> bool {
    let u = chat_usage_spec(json_get(payload, "usage"@));
    u.total_tokens == 0 ==> u.input_tokens + u.output_tokens <= u64::MAX
}

/// The kind of a Chat Completions finish reason, in lower case and trimmed.
pub open spec fn chat_kind(s: Seq<char>, has_tool_calls: bool) -> FinishReasonKind {
    if s == "stop"@ {
        if has_tool_calls {
            FinishReasonKind::ToolCalls
        } else {
            FinishReasonKind::Stop
        }
    } else if s == "length"@ || s == "max_tokens"@ || s == "max_completion_tokens"@ {
        FinishReasonKind::Length
    } else if s == "tool_calls"@ || s == "function_call"@ {
        FinishReasonKind::ToolCalls
    } else if s == "content_filter"@ || s == "safety"@ || s == "refusal"@ {
        FinishReasonKind::ContentFilter
    } else if s == "error"@ || s == "failed"@ || s == "cancelled"@ || s == "canceled"@ {
        FinishReasonKind::Error
    } else if has_tool_calls {
        FinishReasonKind::ToolCalls
    } else {
        FinishReasonKind::Other
    }
}

/// The finish reason of a choice, with the provider's word.
pub open spec fn chat_finish_spec(raw: Option<Seq<char>>, has_tool_calls: bool) -> (FinishReasonKind, Option<Seq<char>>) {
    match raw {
        None => (
            if has_tool_calls {
                FinishReasonKind::ToolCalls
            } else {
                FinishReasonKind::Other
            },
            None,
        ),
        Some(r) => (chat_kind(ascii_lower(trim_seq(r)), has_tool_calls), Some(r)),
    }
}

fn chat_finish_reason(raw: Option<String>, has_tool_calls: bool) -> (r: FinishReason)
    ensures
        (r.reason, opt_seq(r.raw)) == chat_finish_spec(opt_seq(raw), has_tool_calls),
{
    match raw {
        None => FinishReason::of_kind(
            if has_tool_calls {
                FinishReasonKind::ToolCalls
            } else {
                FinishReasonKind::Other
            },
        ),
        Some(r) => {
            let k = trim_lower(r.as_str());
            let s = k.as_str();
            let kind = if str_eq(s, "stop") {
                if has_tool_calls {
                    FinishReasonKind::ToolCalls
                } else {
                    FinishReasonKind::Stop
                }
            } else if str_eq(s, "length") || str_eq(s, "max_tokens") || str_eq(s, "max_completion_tokens") {
                FinishReasonKind::Length
            } else if str_eq(s, "tool_calls") || str_eq(s, "function_call") {
                FinishReasonKind::ToolCalls
            } else if str_eq(s, "content_filter") || str_eq(s, "safety") || str_eq(s, "refusal") {
                FinishReasonKind::ContentFilter
            } else if str_eq(s, "error") || str_eq(s, "failed") || str_eq(s, "cancelled") || str_eq(s, "canceled") {
                FinishReasonKind::Error
            } else if has_tool_calls {
                FinishReasonKind::ToolCalls
            } else {
                FinishReasonKind::Other
            };
            FinishReason::from_provider(kind, r)
        },
    }
}

// ----- the response -----
/// The first choice, when it is an object.
pub open spec fn first_choice(payload: Json) -> Option<Json> {
    match json_get(payload, "choices"@) {
        Some(Json::Array(cs)) => if cs@.len() > 0 && cs@[0] is Object {
            Some(cs@[0])
        } else {
            None
        },
        _ => None,
    }
}

/// What a response is read from: the first choice's message, its content
/// and its tool calls; or why it cannot be read.
pub open spec fn chat_read_spec(provider: Seq<char>, payload: Json) -> Result<(Json, Seq<ContentPartView>, Seq<ToolCallView>), SDKErrorView> {
    if compatible_provider_check(provider) is Err {
        Err(compatible_provider_check(provider)->Err_0)
    } else if !(payload is Object) {
        Err(chat_error(provider, "OpenAI-compatible Chat Completions response must be a JSON object"@))
    } else {
        match first_choice(payload) {
            None => Err(chat_error(provider, "OpenAI-compatible Chat Completions response requires choices[0]"@)),
            Some(choice) => match json_get(choice, "message"@) {
                Some(message) => if message is Object {
                    match chat_content_spec(provider, message) {
                        Err(e) => Err(e),
                        Ok(content) => match chat_tool_calls_spec(provider, json_get(message, "tool_calls"@)) {
                            Err(e) => Err(e),
                            Ok(calls) => Ok((choice, content, calls)),
                        },
                    }
                } else {
                    Err(chat_error(provider, "OpenAI-compatible Chat Completions response requires choices[0].message"@))
                },
                None => Err(chat_error(provider, "OpenAI-compatible Chat Completions response requires choices[0].message"@)),
            },
        }
    }
}

pub open spec fn call_parts(calls: Seq<ToolCallView>) -> Seq<ContentPartView> {
    calls.map_values(|c: ToolCallView| ContentPartView::ToolCall { tool_call: c })
}

/// What a response read from a Chat Completions payload holds.
pub open spec fn chat_response_spec(
    r: Response,
    provider: Seq<char>,
    payload: Json,
    rate_limit: Option<RateLimitInfo>,
    choice: Json,
    content: Seq<ContentPartView>,
    calls: Seq<ToolCallView>,
) -> bool {
    let usage = json_get(payload, "usage"@);
    let finish = chat_finish_spec(value_string_spec(choice, "finish_reason"@), calls.len() > 0);
    &&& r.id@ == or_empty(str_member(payload, "id"@))
    &&& r.model@ == or_empty(str_member(payload, "model"@))
    &&& r.provider@ == provider
    &&& r.message.role == MessageRole::Assistant
    &&& parts_view(r.message.content@) == content + call_parts(calls)
    &&& r.message.name is None
    &&& r.message.tool_call_id is None
    &&& r.message.provider_metadata.as_map() == Map::<Seq<char>, Json>::empty()
    &&& r.finish_reason.reason == finish.0
    &&& opt_seq(r.finish_reason.raw) == finish.1
    &&& r.usage@ == normalized_view(chat_usage_spec(usage))
    &&& r.raw matches Some(raw) && raw@ == payload@
    &&& warnings_view(r.warnings@) == dedup_spec(
        if chat_reasoning_reported(usage) {
            seq![reasoning_warning()]
        } else {
            Seq::empty()
        },
    )
    &&& r.rate_limit == rate_limit
    &&& r.text@ == parts_text(r.message.content@)
    &&& tool_calls_view(r.tool_calls@) == calls
    &&& r.raw_provider_events@.len() == 0
}

// ----- reading, executably -----
fn chat_err(provider: &str, message: &str) -> (r: SDKError)
    ensures
        r@ == chat_error(provider@, message@),
{
    provider_error(SDKErrorKind::Provider, provider, owned(message))
}

fn chat_part(v: &Json) -> (r: ContentPart)
    ensures
        r@ == chat_part_view(*v),
{
    match either_text(value_string(v, "text"), value_string(v, "content")) {
        Some(t) => ContentPart::Text { text: t },
        None => ContentPart::Provider { raw: copy_json(v) },
    }
}

fn chat_content(provider: &str, message: &Json) -> (r: Result<Vec<ContentPart>, SDKError>)
    ensures
        match r {
            Ok(v) => chat_content_spec(provider@, *message) == Ok::<Seq<ContentPartView>, SDKErrorView>(parts_view(v@)),
            Err(e) => chat_content_spec(provider@, *message) == Err::<Seq<ContentPartView>, SDKErrorView>(e@),
        },
{
    let mut out: Vec<ContentPart> = Vec::new();
    assert(parts_view(out@) =~= Seq::<ContentPartView>::empty());
    match get(message, "content") {
        None => Ok(out),
        Some(Json::Null) => Ok(out),
        Some(Json::Str(t)) => {
            if t.unicode_len() > 0 {
                out.push(ContentPart::Text { text: t.clone() });
                assert(parts_view(out@) =~= seq![ContentPartView::Text { text: t@ }]);
            }
            Ok(out)
        },
        Some(Json::Array(parts)) => {
            let mut i: usize = 0;
            while i < parts.len()
                invariant
                    i <= parts@.len(),
                    parts_view(out@) == parts@.subrange(0, i as int).map_values(|p: Json| chat_part_view(p)),
                decreases parts@.len() - i,
            {
                let ghost before = parts_view(out@);
                out.push(chat_part(&parts[i]));
                proof {
                    assert(parts_view(out@) =~= before.push(chat_part_view(parts@[i as int])));
                    assert(parts@.subrange(0, i as int + 1).map_values(|p: Json| chat_part_view(p)) =~= before.push(
                        chat_part_view(parts@[i as int]),
                    ));
                }
                i = i + 1;
            }
            assert(parts@.subrange(0, parts@.len() as int) =~= parts@);
            Ok(out)
        },
        Some(other) => {
            let d = json_debug(other);
            Err(
                provider_error(
                    SDKErrorKind::Provider,
                    provider,
                    concat2("OpenAI-compatible message content must be string, array, or null; got ", d.as_str()),
                ),
            )
        },
    }
}

fn chat_arguments(f: &Json) -> (r: String)
    ensures
        r@ == chat_arguments_text(*f),
{
    match get(f, "arguments") {
        Some(Json::Str(s)) => s.clone(),
        Some(other) => json_to_text(other),
        None => owned("{}"),
    }
}

fn chat_tool_call(provider: &str, item: &Json) -> (r: Result<ToolCall, SDKError>)
    ensures
        match r {
            Ok(c) => chat_tool_call_spec(provider@, *item) == Ok::<ToolCallView, SDKErrorView>(c@),
            Err(e) => chat_tool_call_spec(provider@, *item) == Err::<ToolCallView, SDKErrorView>(e@),
        },
{
    match item {
        Json::Object(_) => {},
        _ => return Err(chat_err(provider, "OpenAI-compatible message tool_calls entries must be objects")),
    }
    let f = match get(item, "function") {
        Some(f) => f,
        None => return Err(chat_err(provider, "OpenAI-compatible tool_calls entries require function objects")),
    };
    match f {
        Json::Object(_) => {},
        _ => return Err(chat_err(provider, "OpenAI-compatible tool_calls entries require function objects")),
    }
    let name = text_or_empty(value_string(f, "name"));
    let raw = chat_arguments(f);
    let arguments = stream_arguments(&raw);
    let id = match value_string(item, "id") {
        Some(i) => i,
        None => name.clone(),
    };
    let call_type = match value_string(item, "type") {
        Some(t) => t,
        None => owned("function"),
    };
    Ok(ToolCall { id, name, arguments, raw_arguments: Some(raw), call_type })
}

proof fn lemma_calls_error_stays(provider: Seq<char>, items: Seq<Json>, i: int)
    requires
        0 <= i <= items.len(),
        chat_tool_calls_fold(provider, items.subrange(0, i)) is Err,
    ensures
        chat_tool_calls_fold(provider, items) == chat_tool_calls_fold(provider, items.subrange(0, i)),
    decreases items.len() - i,
{
    if items.len() == i {
        assert(items.subrange(0, i) =~= items);
    } else {
        assert(items.drop_last().subrange(0, i) =~= items.subrange(0, i));
        lemma_calls_error_stays(provider, items.drop_last(), i);
    }
}

fn chat_tool_calls(provider: &str, v: Option<&Json>) -> (r: Result<Vec<ToolCall>, SDKError>)
    ensures
        match r {
            Ok(c) => chat_tool_calls_spec(
                provider@,
                match v {
                    Some(x) => Some(*x),
                    None => None,
                },
            ) == Ok::<Seq<ToolCallView>, SDKErrorView>(tool_calls_view(c@)),
            Err(e) => chat_tool_calls_spec(
                provider@,
                match v {
                    Some(x) => Some(*x),
                    None => None,
                },
            ) == Err::<Seq<ToolCallView>, SDKErrorView>(e@),
        },
{
    let mut out: Vec<ToolCall> = Vec::new();
    assert(tool_calls_view(out@) =~= Seq::<ToolCallView>::empty());
    let items = match v {
        None => return Ok(out),
        Some(Json::Array(items)) => items,
        Some(_) => return Err(chat_err(provider, "OpenAI-compatible message tool_calls must be an array")),
    };
    let mut i: usize = 0;
    assert(items@.subrange(0, 0) =~= Seq::<Json>::empty());
    while i < items.len()
        invariant
            i <= items@.len(),
            (match v {
                Some(x) => Some(*x),
                None => None,
            }) == Some(Json::Array(*items)),
            chat_tool_calls_fold(provider@, items@.subrange(0, i as int)) == Ok::<Seq<ToolCallView>, SDKErrorView>(
                tool_calls_view(out@),
            ),
        decreases items@.len() - i,
    {
        proof {
            let s = items@.subrange(0, i as int + 1);
            assert(s.drop_last() =~= items@.subrange(0, i as int));
            assert(s.last() == items@[i as int]);
        }
        match chat_tool_call(provider, &items[i]) {
            Ok(c) => {
                let ghost before = tool_calls_view(out@);
                out.push(c);
                assert(tool_calls_view(out@) =~= before.push(out@[out@.len() - 1]@));
            },
            Err(e) => {
                proof {
                    lemma_calls_error_stays(provider@, items@, i as int + 1);
                }
                return Err(e);
            },
        }
        i = i + 1;
    }
    assert(items@.subrange(0, items@.len() as int) =~= items@);
    Ok(out)
}

fn first_of(a: Option<u64>, b: Option<u64>) -> (r: Option<u64>)
    ensures
        r == first_some(a, b),
{
    match a {
        Some(n) => Some(n),
        None => b,
    }
}

fn chat_usage(value: Option<&Json>) -> (r: (Usage, bool))
    ensures
        ({
            let v = match value {
                Some(x) => Some(*x),
                None => None,
            };
            r.0@ == chat_usage_spec(v) && r.1 == chat_reasoning_reported(v)
        }),
{
    let input = first_of(token_at(value, "prompt_tokens"), token_at(value, "input_tokens"));
    let output = first_of(token_at(value, "completion_tokens"), token_at(value, "output_tokens"));
    let total = token_at(value, "total_tokens");
    let cached = first_of(
        token_at(sub_member(value, "prompt_tokens_details"), "cached_tokens"),
        token_at(sub_member(value, "input_tokens_details"), "cached_tokens"),
    );
    let reasoning = first_of(
        token_at(sub_member(value, "completion_tokens_details"), "reasoning_tokens"),
        token_at(sub_member(value, "output_tokens_details"), "reasoning_tokens"),
    );
    let usage = Usage {
        input_tokens: match input {
            Some(n) => n,
            None => 0,
        },
        output_tokens: match output {
            Some(n) => n,
            None => 0,
        },
        total_tokens: match total {
            Some(n) => n,
            None => 0,
        },
        reasoning_tokens: None,
        cache_read_tokens: cached,
        cache_write_tokens: None,
        raw: match value {
            Some(x) => Some(copy_json(x)),
            None => None,
        },
    };
    (usage, reasoning.is_some())
}

/// Whether the counts of a response's usage can be added up, as reading it
/// asks.
pub fn usage_adds_up(payload: &Json) -> (r: bool)
    ensures
        r == chat_usage_fits(*payload),
{
    let (u, _) = chat_usage(get(payload, "usage"));
    u.total_tokens != 0 || u.input_tokens <= u64::MAX - u.output_tokens
}

/// Reads an OpenAI-compatible Chat Completions response, for responses
/// whose headers gave these rate limits.
pub fn translate_chat_completions_response_with_rate_limit(
    provider: &str,
    payload: Json,
    rate_limit: Option<RateLimitInfo>,
) -> (r: Result<Response, SDKError>)
    requires
        chat_usage_fits(payload),
    ensures
        match r {
            Ok(resp) => chat_read_spec(ascii_lower(trim_seq(provider@)), payload) matches Ok((choice, content, calls))
                && chat_response_spec(resp, ascii_lower(trim_seq(provider@)), payload, rate_limit, choice, content, calls),
            Err(e) => chat_read_spec(ascii_lower(trim_seq(provider@)), payload) == Err::<
                (Json, Seq<ContentPartView>, Seq<ToolCallView>),
                SDKErrorView,
            >(e@),
        },
{
    let provider = trim_lower(provider);
    match validate_compatible_provider(provider.as_str()) {
        Ok(()) => {},
        Err(e) => return Err(e),
    }
    match &payload {
        Json::Object(_) => {},
        _ => return Err(chat_err(provider.as_str(), "OpenAI-compatible Chat Completions response must be a JSON object")),
    }
    let choice = match get(&payload, "choices") {
        Some(Json::Array(cs)) => {
            if cs.len() == 0 {
                return Err(chat_err(provider.as_str(), "OpenAI-compatible Chat Completions response requires choices[0]"));
            }
            match &cs[0] {
                Json::Object(_) => &cs[0],
                _ => return Err(chat_err(provider.as_str(), "OpenAI-compatible Chat Completions response requires choices[0]")),
            }
        },
        _ => return Err(chat_err(provider.as_str(), "OpenAI-compatible Chat Completions response requires choices[0]")),
    };
    let message = match get(choice, "message") {
        Some(m) => match m {
            Json::Object(_) => m,
            _ => return Err(
                chat_err(provider.as_str(), "OpenAI-compatible Chat Completions response requires choices[0].message"),
            ),
        },
        None => return Err(
            chat_err(provider.as_str(), "OpenAI-compatible Chat Completions response requires choices[0].message"),
        ),
    };
    let mut content = chat_content(provider.as_str(), message)?;
    let calls = chat_tool_calls(provider.as_str(), get(message, "tool_calls"))?;
    let ghost base = parts_view(content@);
    let mut i: usize = 0;
    while i < calls.len()
        invariant
            i <= calls@.len(),
            parts_view(content@) == base + call_parts(tool_calls_view(calls@).subrange(0, i as int)),
        decreases calls@.len() - i,
    {
        let ghost before = parts_view(content@);
        content.push(ContentPart::ToolCall { tool_call: calls[i].copy() });
        proof {
            assert(parts_view(content@) =~= before.push(ContentPartView::ToolCall { tool_call: calls@[i as int]@ }));
            assert(call_parts(tool_calls_view(calls@).subrange(0, i as int + 1)) =~= call_parts(
                tool_calls_view(calls@).subrange(0, i as int),
            ).push(ContentPartView::ToolCall { tool_call: calls@[i as int]@ }));
        }
        i = i + 1;
    }
    assert(tool_calls_view(calls@).subrange(0, calls@.len() as int) =~= tool_calls_view(calls@));
    let message_out = Message {
        role: MessageRole::Assistant,
        content,
        name: None,
        tool_call_id: None,
        provider_metadata: crate::textmap::TextMap::new(),
    };
    let text = message_out.text();
    let finish_reason = chat_finish_reason(value_string(choice, "finish_reason"), calls.len() > 0);
    let (usage, reported) = chat_usage(get(&payload, "usage"));
    let usage = usage.normalized();
    let mut ws: Vec<crate::request::Warning> = Vec::new();
    if reported {
        ws.push(
            unsupported_warning(
                owned("unsupported_reasoning_token_visibility"),
                owned(
                    "OpenAI-compatible Chat Completions does not expose reasoning token visibility through the unified compatible adapter",
                ),
            ),
        );
        assert(warnings_view(ws@) =~= seq![reasoning_warning()]);
    } else {
        assert(warnings_view(ws@) =~= Seq::<WarningView>::empty());
    }
    let warnings = deduplicate_warnings(ws);
    let id = match string_field(&payload, "id") {
        Some(x) => x,
        None => String::new(),
    };
    let model = match string_field(&payload, "model") {
        Some(x) => x,
        None => String::new(),
    };
    Ok(
        Response {
            id,
            model,
            provider,
            message: message_out,
            finish_reason,
            usage,
            raw: Some(payload),
            warnings,
            rate_limit,
            text,
            tool_calls: calls,
            raw_provider_events: Vec::new(),
        },
    )
}

/// Reads an OpenAI-compatible Chat Completions response.
pub fn translate_chat_completions_response(provider: &str, payload: Json) -> (r: Result<Response, SDKError>)
    requires
        chat_usage_fits(payload),
    ensures
        match r {
            Ok(resp) => chat_read_spec(ascii_lower(trim_seq(provider@)), payload) matches Ok((choice, content, calls))
                && chat_response_spec(resp, ascii_lower(trim_seq(provider@)), payload, None, choice, content, calls),
            Err(e) => chat_read_spec(ascii_lower(trim_seq(provider@)), payload) == Err::<
                (Json, Seq<ContentPartView>, Seq<ToolCallView>),
                SDKErrorView,
            >(e@),
        },
{
    translate_chat_completions_response_with_rate_limit(provider, payload, None)
}

} // verus!
