//! Reading an OpenAI Responses payload: its output items (text, messages
//! and their parts, reasoning, function calls), usage and finish reason,
//! into the library's response.
use vstd::prelude::*;
use crate::anthropic::{normalized_view, or_empty, or_zero, str_member, string_field, token_at, token_at_spec};
use crate::errors::{SDKError, SDKErrorKind, SDKErrorView};
use crate::json::{Json, JsonView, copy_json, get, json_get, json_parse_outcome, json_text, json_to_text, jv, lemma_member_get_decreases, parse_json};
use crate::native::{non_empty_opt, openai_finish_reason_kind, openai_kind, provider_error_spec, source_model};
use crate::request::{
    ContentPart, ContentPartView, FinishReason, FinishReasonKind, Message, MessageRole, RateLimitInfo, Response, ThinkingData,
    ThinkingView, ToolCall, ToolCallView, parts_view,
};
use crate::text::{ascii_lower, concat2, eq_ignore_ascii_case, eq_ignore_case, is_blank, is_blank_seq, opt_seq, owned, str_eq, trim, trim_seq};
use crate::textmap::TextMap;
use crate::usage::{Usage, UsageView};

verus! {

// ----- text inside values -----
/// The text a value holds: a string; the texts of a list run together
/// (none when that is empty); an object's `text`, else its `content`.
pub open spec fn text_from_value_spec(v: Json) -> Option<Seq<char>>
    decreases v, 1int,
{
    match v {
        Json::Str(t) => Some(t@),
        Json::Array(items) => {
            let t = concat_item_texts(items@);
            if t.len() > 0 {
                Some(t)
            } else {
                None
            }
        },
        Json::Object(_) => {
            proof {
                lemma_member_get_decreases(v, "text"@);
                lemma_member_get_decreases(v, "content"@);
            }
            let from_text = match json_get(v, "text"@) {
                Some(x) => text_from_value_spec(x),
                None => None,
            };
            match from_text {
                Some(t) => Some(t),
                None => match json_get(v, "content"@) {
                    Some(y) => text_from_value_spec(y),
                    None => None,
                },
            }
        },
        _ => None,
    }
}

/// The texts of a list's items, run together.
pub open spec fn concat_item_texts(items: Seq<Json>) -> Seq<char>
    decreases items, 0int,
{
    if items.len() == 0 {
        Seq::empty()
    } else {
        concat_item_texts(items.drop_last()) + match text_from_value_spec(items.last()) {
            Some(t) => t,
            None => Seq::empty(),
        }
    }
}

/// The text a value holds.
pub fn text_from_value(v: &Json) -> (r: Option<String>)
    ensures
        opt_seq(r) == text_from_value_spec(*v),
    decreases *v,
{
    match v {
        Json::Str(t) => Some(t.clone()),
        Json::Array(items) => {
            let mut acc = String::new();
            let mut i: usize = 0;
            assert(items@.subrange(0, 0) =~= Seq::<Json>::empty());
            while i < items.len()
                invariant
                    i <= items@.len(),
                    *v == Json::Array(*items),
                    acc@ == concat_item_texts(items@.subrange(0, i as int)),
                decreases items@.len() - i,
            {
                assert(decreases_to!(*v => (*v)->Array_0));
                assert(decreases_to!(*items => items[i as int]));
                proof {
                    let t = items@.subrange(0, i + 1);
                    assert(t.drop_last() =~= items@.subrange(0, i as int));
                    assert(t.last() == items@[i as int]);
                }
                match text_from_value(&items[i]) {
                    Some(t) => {
                        acc = concat2(acc.as_str(), t.as_str());
                    },
                    None => {
                        assert(acc@ + Seq::<char>::empty() =~= acc@);
                    },
                }
                i = i + 1;
            }
            assert(items@.subrange(0, items@.len() as int) =~= items@);
            if acc.unicode_len() > 0 {
                Some(acc)
            } else {
                None
            }
        },
        Json::Object(_) => {
            proof {
                lemma_member_get_decreases(*v, "text"@);
                lemma_member_get_decreases(*v, "content"@);
            }
            let from_text = match get(v, "text") {
                Some(x) => text_from_value(x),
                None => None,
            };
            match from_text {
                Some(t) => Some(t),
                None => match get(v, "content") {
                    Some(y) => text_from_value(y),
                    None => None,
                },
            }
        },
        _ => None,
    }
}

/// The text of a reasoning item: from its `text`, else `summary`, else
/// `content`, else `output_text`.
pub open spec fn item_text_spec(item: Json) -> Option<Seq<char>> {
    let of = |k: Seq<char>|
        match json_get(item, k) {
            Some(x) => text_from_value_spec(x),
            None => None,
        };
    match of("text"@) {
        Some(t) => Some(t),
        None => match of("summary"@) {
            Some(t) => Some(t),
            None => match of("content"@) {
                Some(t) => Some(t),
                None => of("output_text"@),
            },
        },
    }
}

fn member_text(item: &Json, key: &str) -> (r: Option<String>)
    ensures
        opt_seq(r) == match json_get(*item, key@) {
            Some(x) => text_from_value_spec(x),
            None => None,
        },
{
    match get(item, key) {
        Some(x) => text_from_value(x),
        None => None,
    }
}

/// The text of a reasoning item.
pub fn openai_response_item_text(item: &Json) -> (r: Option<String>)
    ensures
        opt_seq(r) == item_text_spec(*item),
{
    match member_text(item, "text") {
        Some(t) => Some(t),
        None => match member_text(item, "summary") {
            Some(t) => Some(t),
            None => match member_text(item, "content") {
                Some(t) => Some(t),
                None => member_text(item, "output_text"),
            },
        },
    }
}

// ----- function-call arguments -----
/// The arguments of a function call: text must parse as JSON (blank text is
/// an empty object) and is its own raw text; any other value is taken as
/// it is, with its compact JSON text as the raw text.
pub open spec fn openai_arguments_spec(value: Json) -> Result<(JsonView, Seq<char>), SDKErrorView> {
    match value {
        Json::Str(t) => if is_blank_seq(t@) {
            Ok((JsonView::Object(Seq::empty()), t@))
        } else {
            match json_parse_outcome(t@) {
                Ok(p) => Ok((jv(p), t@)),
                Err(m) => Err(
                    provider_error_spec(
                        SDKErrorKind::InvalidToolCall,
                        "openai"@,
                        "OpenAI function_call arguments must be valid JSON: "@ + m,
                    ),
                ),
            }
        },
        _ => Ok((jv(value), json_text(jv(value)))),
    }
}

fn empty_object() -> (r: Json)
    ensures
        jv(r) == JsonView::Object(Seq::empty()),
{
    let e: Vec<(String, Json)> = Vec::new();
    assert(crate::json::jv_members(e@) =~= Seq::<(Seq<char>, JsonView)>::empty());
    Json::Object(e)
}

/// The arguments of a function call and their raw text.
pub fn openai_response_arguments(value: &Json) -> (r: Result<(Json, String), SDKError>)
    ensures
        match r {
            Ok((a, raw)) => openai_arguments_spec(*value) == Ok::<(JsonView, Seq<char>), SDKErrorView>((jv(a), raw@)),
            Err(e) => openai_arguments_spec(*value) == Err::<(JsonView, Seq<char>), SDKErrorView>(e@),
        },
{
    match value {
        Json::Str(text) => {
            if is_blank(text.as_str()) {
                Ok((empty_object(), text.clone()))
            } else {
                match parse_json(text.as_str()) {
                    Ok(parsed) => Ok((parsed, text.clone())),
                    Err(m) => Err(
                        SDKError::provider(
                            SDKErrorKind::InvalidToolCall,
                            concat2("OpenAI function_call arguments must be valid JSON: ", m.as_str()),
                            Some(owned("openai")),
                        ),
                    ),
                }
            }
        },
        _ => Ok((copy_json(value), json_to_text(value))),
    }
}

// ----- usage -----
pub open spec fn first_some(a: Option<u64>, b: Option<u64>) -> Option<u64> {
    match a {
        Some(x) => Some(x),
        None => b,
    }
}

/// A member of an optional value.
pub open spec fn sub_value(value: Option<Json>, key: Seq<char>) -> Option<Json> {
    match value {
        Some(v) => json_get(v, key),
        None => None,
    }
}

/// The usage an OpenAI `usage` object reports, under either naming.
pub open spec fn openai_usage_spec(value: Option<Json>) -> UsageView {
    UsageView {
        input_tokens: or_zero(first_some(token_at_spec(value, "input_tokens"@), token_at_spec(value, "prompt_tokens"@))),
        output_tokens: or_zero(
            first_some(token_at_spec(value, "output_tokens"@), token_at_spec(value, "completion_tokens"@)),
        ),
        total_tokens: or_zero(token_at_spec(value, "total_tokens"@)),
        reasoning_tokens: first_some(
            token_at_spec(sub_value(value, "output_tokens_details"@), "reasoning_tokens"@),
            token_at_spec(sub_value(value, "output_tokens_details"@), "reasoningTokens"@),
        ),
        cache_read_tokens: first_some(
            token_at_spec(sub_value(value, "input_tokens_details"@), "cached_tokens"@),
            token_at_spec(sub_value(value, "input_tokens_details"@), "cachedTokens"@),
        ),
        cache_write_tokens: None,
        raw: match value {
            Some(v) => Some(jv(v)),
            None => None,
        },
    }
}

pub(crate) fn sub_member<'a>(value: Option<&'a Json>, key: &str) -> (r: Option<&'a Json>)
    ensures
        match r {
            Some(x) => sub_value(
                match value {
                    Some(v) => Some(*v),
                    None => None,
                },
                key@,
            ) == Some(*x),
            None => sub_value(
                match value {
                    Some(v) => Some(*v),
                    None => None,
                },
                key@,
            ) is None,
        },
{
    match value {
        Some(v) => get(v, key),
        None => None,
    }
}

/// The usage an OpenAI `usage` object reports.
pub fn usage_from_openai(value: Option<&Json>) -> (r: Usage)
    ensures
        r@ == openai_usage_spec(
            match value {
                Some(v) => Some(*v),
                None => None,
            },
        ),
{
    let input = match token_at(value, "input_tokens") {
        Some(n) => Some(n),
        None => token_at(value, "prompt_tokens"),
    };
    let output = match token_at(value, "output_tokens") {
        Some(n) => Some(n),
        None => token_at(value, "completion_tokens"),
    };
    let total = token_at(value, "total_tokens");
    let out_details = sub_member(value, "output_tokens_details");
    let in_details = sub_member(value, "input_tokens_details");
    let reasoning = match token_at(out_details, "reasoning_tokens") {
        Some(n) => Some(n),
        None => token_at(out_details, "reasoningTokens"),
    };
    let cached = match token_at(in_details, "cached_tokens") {
        Some(n) => Some(n),
        None => token_at(in_details, "cachedTokens"),
    };
    Usage {
        input_tokens: match input {
            Some(n) => n,
            None => 0,
        },
        output_tokens: match output {
            Some(n) => n,
            None => 0,
        },
        total_tokens: match total {
            Some(n) => n,
            None => 0,
        },
        reasoning_tokens: reasoning,
        cache_read_tokens: cached,
        cache_write_tokens: None,
        raw: match value {
            Some(v) => Some(copy_json(v)),
            None => None,
        },
    }
}

// ----- finish reason -----
/// A reason made to say tool calls when the response has tool calls,
/// unless it is a length, content-filter or error stop.
pub open spec fn with_tool_calls(reason: FinishReasonKind, has_tool_calls: bool) -> FinishReasonKind {
    if has_tool_calls && !(reason == FinishReasonKind::Length || reason == FinishReasonKind::ContentFilter || reason
        == FinishReasonKind::Error) {
        FinishReasonKind::ToolCalls
    } else {
        reason
    }
}

/// The status a response reports: `finish_reason`, `finishReason` or `status`.
pub open spec fn openai_status(payload: Json) -> Option<Seq<char>> {
    match str_member(payload, "finish_reason"@) {
        Some(s) => Some(s),
        None => match str_member(payload, "finishReason"@) {
            Some(s) => Some(s),
            None => str_member(payload, "status"@),
        },
    }
}

/// The reason an incomplete response gives in its incomplete details.
pub open spec fn openai_incomplete_reason(payload: Json) -> Option<Seq<char>> {
    let details = match json_get(payload, "incomplete_details"@) {
        Some(d) => Some(d),
        None => json_get(payload, "incompleteDetails"@),
    };
    match details {
        Some(d) => if d is Object {
            str_member(d, "reason"@)
        } else {
            None
        },
        None => None,
    }
}

/// The finish reason of an OpenAI response and the provider word for it:
/// an incomplete status gives the incomplete reason's kind; otherwise the
/// status, else the incomplete reason, decides; without either, tool calls
/// or nothing.
pub open spec fn openai_finish_spec(payload: Json, has_tool_calls: bool) -> (FinishReasonKind, Option<Seq<char>>) {
    let kind = |raw: Seq<char>| openai_kind(ascii_lower(trim_seq(raw)));
    match openai_status(payload) {
        Some(status) => match openai_incomplete_reason(payload) {
            Some(ir) => if eq_ignore_case(trim_seq(status), "incomplete"@) {
                (with_tool_calls(kind(ir), has_tool_calls), Some(status))
            } else {
                (with_tool_calls(kind(status), has_tool_calls), Some(status))
            },
            None => (with_tool_calls(kind(status), has_tool_calls), Some(status)),
        },
        None => match openai_incomplete_reason(payload) {
            Some(ir) => (with_tool_calls(kind(ir), has_tool_calls), Some(ir)),
            None => (
                if has_tool_calls {
                    FinishReasonKind::ToolCalls
                } else {
                    FinishReasonKind::Other
                },
                None,
            ),
        },
    }
}

fn adjust_for_tool_calls(reason: FinishReasonKind, has_tool_calls: bool) -> (r: FinishReasonKind)
    ensures
        r == with_tool_calls(reason, has_tool_calls),
{
    let keep = match reason {
        FinishReasonKind::Length => true,
        FinishReasonKind::ContentFilter => true,
        FinishReasonKind::Error => true,
        _ => false,
    };
    if has_tool_calls && !keep {
        FinishReasonKind::ToolCalls
    } else {
        reason
    }
}

/// The finish reason of an OpenAI response.
pub fn openai_finish_reason(payload: &Json, has_tool_calls: bool) -> (r: FinishReason)
    ensures
        (r.reason, opt_seq(r.raw)) == openai_finish_spec(*payload, has_tool_calls),
{
    let status = match string_field(payload, "finish_reason") {
        Some(s) => Some(s),
        None => match string_field(payload, "finishReason") {
            Some(s) => Some(s),
            None => string_field(payload, "status"),
        },
    };
    let details = match get(payload, "incomplete_details") {
        Some(d) => Some(d),
        None => get(payload, "incompleteDetails"),
    };
    let incomplete = match details {
        Some(d) => match d {
            Json::Object(_) => string_field(d, "reason"),
            _ => None,
        },
        None => None,
    };
    match status {
        Some(status) => {
            let use_incomplete = match &incomplete {
                Some(_) => {
                    let t = trim(status.as_str());
                    eq_ignore_ascii_case(t.as_str(), "incomplete")
                },
                None => false,
            };
            let basis = if use_incomplete {
                match incomplete {
                    Some(ir) => ir,
                    None => status.clone(),
                }
            } else {
                status.clone()
            };
            let reason = adjust_for_tool_calls(openai_finish_reason_kind(basis.as_str()), has_tool_calls);
            FinishReason::from_provider(reason, status)
        },
        None => match incomplete {
            Some(ir) => {
                let reason = adjust_for_tool_calls(openai_finish_reason_kind(ir.as_str()), has_tool_calls);
                FinishReason::from_provider(reason, ir)
            },
            None => FinishReason::of_kind(
                if has_tool_calls {
                    FinishReasonKind::ToolCalls
                } else {
                    FinishReasonKind::Other
                },
            ),
        },
    }
}

// ----- output items -----
/// What the output read so far holds: content parts, text, tool calls.
pub struct OutputView {
    pub content: Seq<ContentPartView>,
    pub text: Seq<char>,
    pub tool_calls: Seq<ToolCallView>,
}

/// Nothing read yet.
pub open spec fn empty_output() -> OutputView {
    OutputView { content: Seq::empty(), text: Seq::empty(), tool_calls: Seq::empty() }
}

pub open spec fn tool_calls_view(v: Seq<ToolCall>) -> Seq<ToolCallView> {
    v.map_values(|t: ToolCall| t@)
}

/// What one output item adds: text items their text; messages their parts,
/// one by one; reasoning items (which need text) a reasoning part; function
/// calls (which need a non-blank name) a tool call, whose arguments must
/// parse when given as text. Anything else adds nothing.
pub open spec fn item_spec(item: Json, model: Seq<char>, st: OutputView) -> Result<OutputView, SDKErrorView>
    decreases item, 1int,
{
    match item {
        Json::Object(_) => {
            let ty = or_empty(str_member(item, "type"@));
            if ty == "output_text"@ || ty == "text"@ {
                match str_member(item, "text"@) {
                    Some(t) => Ok(
                        OutputView { content: st.content.push(ContentPartView::Text { text: t }), text: st.text + t, ..st },
                    ),
                    None => Ok(st),
                }
            } else if ty == "message"@ {
                match json_get(item, "content"@) {
                    Some(x) => match x {
                        Json::Array(parts) => {
                            proof {
                                lemma_member_get_decreases(item, "content"@);
                                assert(decreases_to!(x => parts));
                            }
                            items_spec(parts@, model, st)
                        },
                        _ => Ok(st),
                    },
                    None => Ok(st),
                }
            } else if ty == "reasoning"@ || ty == "thinking"@ || ty == "redacted_thinking"@ {
                match item_text_spec(item) {
                    Some(t) => {
                        let redacted = ty == "redacted_thinking"@;
                        let thinking = ThinkingView {
                            text: t,
                            signature: str_member(item, "signature"@),
                            redacted,
                            source_provider: Some("openai"@),
                            source_model: non_empty_opt(Some(model)),
                        };
                        Ok(
                            OutputView {
                                content: st.content.push(
                                    if redacted {
                                        ContentPartView::RedactedThinking { thinking }
                                    } else {
                                        ContentPartView::Thinking { thinking }
                                    },
                                ),
                                ..st
                            },
                        )
                    },
                    None => Ok(st),
                }
            } else if ty == "function_call"@ {
                match str_member(item, "name"@) {
                    Some(name) => if is_blank_seq(name) {
                        Ok(st)
                    } else {
                        let id = match str_member(item, "id"@) {
                            Some(i) => i,
                            None => match str_member(item, "call_id"@) {
                                Some(i) => i,
                                None => name,
                            },
                        };
                        let args: Result<(JsonView, Seq<char>), SDKErrorView> = match json_get(item, "arguments"@) {
                            Some(a) => openai_arguments_spec(a),
                            None => Ok((JsonView::Object(Seq::empty()), "{}"@)),
                        };
                        match args {
                            Err(e) => Err(e),
                            Ok(a) => {
                                let call = ToolCallView {
                                    id,
                                    name,
                                    arguments: a.0,
                                    raw_arguments: Some(a.1),
                                    call_type: "function"@,
                                };
                                Ok(
                                    OutputView {
                                        content: st.content.push(ContentPartView::ToolCall { tool_call: call }),
                                        tool_calls: st.tool_calls.push(call),
                                        ..st
                                    },
                                )
                            },
                        }
                    },
                    None => Ok(st),
                }
            } else {
                Ok(st)
            }
        },
        _ => Ok(st),
    }
}

/// What a list of items adds, item by item; the first error stops it.
pub open spec fn items_spec(items: Seq<Json>, model: Seq<char>, st: OutputView) -> Result<OutputView, SDKErrorView>
    decreases items, 0int,
{
    if items.len() == 0 {
        Ok(st)
    } else {
        match items_spec(items.drop_last(), model, st) {
            Err(e) => Err(e),
            Ok(s1) => item_spec(items.last(), model, s1),
        }
    }
}

proof fn lemma_items_error_stays(items: Seq<Json>, k: int, model: Seq<char>, st: OutputView)
    requires
        0 <= k <= items.len(),
        items_spec(items.subrange(0, k), model, st) is Err,
    ensures
        items_spec(items, model, st) == items_spec(items.subrange(0, k), model, st),
    decreases items.len(),
{
    if k == items.len() {
        assert(items.subrange(0, k) =~= items);
    } else {
        assert(items.drop_last().subrange(0, k) =~= items.subrange(0, k));
        lemma_items_error_stays(items.drop_last(), k, model, st);
    }
}

pub open spec fn output_of(content: Seq<ContentPart>, text: Seq<char>, tool_calls: Seq<ToolCall>) -> OutputView {
    OutputView { content: parts_view(content), text, tool_calls: tool_calls_view(tool_calls) }
}

fn function_call_item(item: &Json, model: &str, content: &mut Vec<ContentPart>, text: &String, tool_calls: &mut Vec<ToolCall>) -> (r: Result<(), SDKError>)
    requires
        *item is Object,
        or_empty(str_member(*item, "type"@)) == "function_call"@,
        !(or_empty(str_member(*item, "type"@)) == "output_text"@ || or_empty(str_member(*item, "type"@)) == "text"@),
        or_empty(str_member(*item, "type"@)) != "message"@,
        !(or_empty(str_member(*item, "type"@)) == "reasoning"@ || or_empty(str_member(*item, "type"@)) == "thinking"@
            || or_empty(str_member(*item, "type"@)) == "redacted_thinking"@),
    ensures
        match r {
            Ok(()) => item_spec(*item, model@, output_of(old(content)@, text@, old(tool_calls)@)) == Ok::<
                OutputView,
                SDKErrorView,
            >(output_of(final(content)@, text@, final(tool_calls)@)),
            Err(e) => item_spec(*item, model@, output_of(old(content)@, text@, old(tool_calls)@)) == Err::<
                OutputView,
                SDKErrorView,
            >(e@),
        },
{
    let name = match string_field(item, "name") {
        Some(n) => n,
        None => return Ok(()),
    };
    if is_blank(name.as_str()) {
        return Ok(());
    }
    let id = match string_field(item, "id") {
        Some(i) => i,
        None => match string_field(item, "call_id") {
            Some(i) => i,
            None => name.clone(),
        },
    };
    let (arguments, raw) = match get(item, "arguments") {
        Some(a) => match openai_response_arguments(a) {
            Ok(x) => x,
            Err(e) => return Err(e),
        },
        None => (empty_object(), owned("{}")),
    };
    let call = ToolCall { id, name, arguments, raw_arguments: Some(raw), call_type: owned("function") };
    let copy = call.copy();
    let ghost before_c = content@;
    let ghost before_t = tool_calls@;
    content.push(ContentPart::ToolCall { tool_call: call });
    tool_calls.push(copy);
    proof {
        assert(parts_view(content@) =~= parts_view(before_c).push(content@.last()@)) by {
            assert(content@.drop_last() =~= before_c);
        }
        assert(tool_calls_view(tool_calls@) =~= tool_calls_view(before_t).push(tool_calls@.last()@));
    }
    Ok(())
}

/// Adds one output item to the content, text and tool calls read so far.
pub fn append_openai_response_item(
    item: &Json,
    model: &str,
    content: &mut Vec<ContentPart>,
    text: &mut String,
    tool_calls: &mut Vec<ToolCall>,
) -> (r: Result<(), SDKError>)
    ensures
        match r {
            Ok(()) => item_spec(*item, model@, output_of(old(content)@, old(text)@, old(tool_calls)@)) == Ok::<
                OutputView,
                SDKErrorView,
            >(output_of(final(content)@, final(text)@, final(tool_calls)@)),
            Err(e) => item_spec(*item, model@, output_of(old(content)@, old(text)@, old(tool_calls)@)) == Err::<
                OutputView,
                SDKErrorView,
            >(e@),
        },
    decreases *item,
{
    match item {
        Json::Object(_) => {},
        _ => return Ok(()),
    }
    let ty = match string_field(item, "type") {
        Some(t) => t,
        None => String::new(),
    };
    let t = ty.as_str();
    if str_eq(t, "output_text") || str_eq(t, "text") {
        match string_field(item, "text") {
            Some(value) => {
                let ghost before_c = content@;
                *text = concat2(text.as_str(), value.as_str());
                content.push(ContentPart::Text { text: value });
                assert(content@.drop_last() =~= before_c);
                assert(parts_view(content@) =~= parts_view(before_c).push(content@.last()@));
            },
            None => {},
        }
        Ok(())
    } else if str_eq(t, "message") {
        match get(item, "content") {
            Some(x) => match x {
                Json::Array(parts) => {
                    proof {
                        lemma_member_get_decreases(*item, "content"@);
                    }
                    let ghost st0 = output_of(content@, text@, tool_calls@);
                    let mut i: usize = 0;
                    assert(parts@.subrange(0, 0) =~= Seq::<Json>::empty());
                    while i < parts.len()
                        invariant
                            i <= parts@.len(),
                            *x == Json::Array(*parts),
                            decreases_to!(*item => *x),
                            *item is Object,
                            json_get(*item, "content"@) == Some(*x),
                            ty@ == or_empty(str_member(*item, "type"@)),
                            ty@ == "message"@,
                            !(ty@ == "output_text"@ || ty@ == "text"@),
                            st0 == output_of(old(content)@, old(text)@, old(tool_calls)@),
                            items_spec(parts@.subrange(0, i as int), model@, st0) == Ok::<OutputView, SDKErrorView>(
                                output_of(content@, text@, tool_calls@),
                            ),
                        decreases parts@.len() - i,
                    {
                        assert(decreases_to!(*x => (*x)->Array_0));
                        assert(decreases_to!(*parts => parts[i as int]));
                        proof {
                            let s = parts@.subrange(0, i + 1);
                            assert(s.drop_last() =~= parts@.subrange(0, i as int));
                            assert(s.last() == parts@[i as int]);
                        }
                        match append_openai_response_item(&parts[i], model, content, text, tool_calls) {
                            Ok(()) => {},
                            Err(e) => {
                                proof {
                                    lemma_items_error_stays(parts@, i + 1, model@, st0);
                                }
                                return Err(e);
                            },
                        }
                        i = i + 1;
                    }
                    assert(parts@.subrange(0, parts@.len() as int) =~= parts@);
                    assert(item_spec(*item, model@, st0) == items_spec(parts@, model@, st0));
                    Ok(())
                },
                _ => Ok(()),
            },
            None => Ok(()),
        }
    } else if str_eq(t, "reasoning") || str_eq(t, "thinking") || str_eq(t, "redacted_thinking") {
        match openai_response_item_text(item) {
            Some(value) => {
                let redacted = str_eq(t, "redacted_thinking");
                let thinking = ThinkingData {
                    text: value,
                    signature: string_field(item, "signature"),
                    redacted,
                    source_provider: Some(owned("openai")),
                    source_model: source_model(model),
                };
                let ghost before_c = content@;
                if redacted {
                    content.push(ContentPart::RedactedThinking { thinking });
                } else {
                    content.push(ContentPart::Thinking { thinking });
                }
                assert(content@.drop_last() =~= before_c);
                assert(parts_view(content@) =~= parts_view(before_c).push(content@.last()@));
            },
            None => {},
        }
        Ok(())
    } else if str_eq(t, "function_call") {
        function_call_item(item, model, content, &*text, tool_calls)
    } else {
        Ok(())
    }
}

// ----- responses -----
/// The output a response's `output` items add up to.
pub open spec fn openai_output_spec(payload: Json) -> Result<OutputView, SDKErrorView> {
    match json_get(payload, "output"@) {
        Some(Json::Array(items)) => items_spec(items@, or_empty(str_member(payload, "model"@)), empty_output()),
        _ => Ok(empty_output()),
    }
}

/// Whether the counts of a response's usage can be added up.
pub open spec fn openai_usage_fits(payload: Json) -> bool {
    let u = openai_usage_spec(json_get(payload, "usage"@));
    u.total_tokens == 0 ==> u.input_tokens + u.output_tokens <= u64::MAX
}

/// What a response read from an OpenAI Responses payload with output `out` holds.
pub open spec fn openai_response_spec(r: Response, payload: Json, rate_limit: Option<RateLimitInfo>, out: OutputView) -> bool {
    let finish = openai_finish_spec(payload, out.tool_calls.len() > 0);
    &&& r.id@ == or_empty(str_member(payload, "id"@))
    &&& r.model@ == or_empty(str_member(payload, "model"@))
    &&& r.provider@ == "openai"@
    &&& r.message.role == MessageRole::Assistant
    &&& parts_view(r.message.content@) == out.content
    &&& r.message.name is None
    &&& r.message.tool_call_id is None
    &&& r.message.provider_metadata.as_map() == Map::<Seq<char>, Json>::empty()
    &&& r.finish_reason.reason == finish.0
    &&& opt_seq(r.finish_reason.raw) == finish.1
    &&& r.usage@ == normalized_view(openai_usage_spec(json_get(payload, "usage"@)))
    &&& r.raw matches Some(raw) && raw@ == payload@
    &&& r.rate_limit == rate_limit
    &&& r.text@ == out.text
    &&& tool_calls_view(r.tool_calls@) == out.tool_calls
    &&& r.warnings@.len() == 0
    &&& r.raw_provider_events@.len() == 0
}

/// Reads an OpenAI Responses response. The payload must be a JSON object,
/// and the arguments text of its function calls must parse.
pub fn translate_openai_responses_response(payload: Json, rate_limit: Option<RateLimitInfo>) -> (r: Result<Response, SDKError>)
    requires
        openai_usage_fits(payload),
    ensures
        match r {
            Ok(resp) => payload is Object && (openai_output_spec(payload) matches Ok(out) && openai_response_spec(
                resp,
                payload,
                rate_limit,
                out,
            )),
            Err(e) => if payload is Object {
                openai_output_spec(payload) == Err::<OutputView, SDKErrorView>(e@)
            } else {
                e@ == provider_error_spec(SDKErrorKind::Provider, "openai"@, "OpenAI Responses response must be a JSON object"@)
            },
        },
{
    match &payload {
        Json::Object(_) => {},
        _ => {
            return Err(
                SDKError::provider(
                    SDKErrorKind::Provider,
                    owned("OpenAI Responses response must be a JSON object"),
                    Some(owned("openai")),
                ),
            );
        },
    }
    let model = match string_field(&payload, "model") {
        Some(m) => m,
        None => String::new(),
    };
    let mut content: Vec<ContentPart> = Vec::new();
    let mut text = String::new();
    let mut tool_calls: Vec<ToolCall> = Vec::new();
    assert(output_of(content@, text@, tool_calls@) == empty_output()) by {
        assert(parts_view(content@) =~= Seq::<ContentPartView>::empty());
        assert(tool_calls_view(tool_calls@) =~= Seq::<ToolCallView>::empty());
    }
    match get(&payload, "output") {
        Some(Json::Array(items)) => {
            let mut i: usize = 0;
            assert(items@.subrange(0, 0) =~= Seq::<Json>::empty());
            while i < items.len()
                invariant
                    i <= items@.len(),
                    payload is Object,
                    json_get(payload, "output"@) == Some(Json::Array(*items)),
                    model@ == or_empty(str_member(payload, "model"@)),
                    items_spec(items@.subrange(0, i as int), model@, empty_output()) == Ok::<OutputView, SDKErrorView>(
                        output_of(content@, text@, tool_calls@),
                    ),
                decreases items@.len() - i,
            {
                proof {
                    let s = items@.subrange(0, i + 1);
                    assert(s.drop_last() =~= items@.subrange(0, i as int));
                    assert(s.last() == items@[i as int]);
                }
                match append_openai_response_item(&items[i], model.as_str(), &mut content, &mut text, &mut tool_calls) {
                    Ok(()) => {},
                    Err(e) => {
                        proof {
                            lemma_items_error_stays(items@, i + 1, model@, empty_output());
                        }
                        return Err(e);
                    },
                }
                i = i + 1;
            }
            assert(items@.subrange(0, items@.len() as int) =~= items@);
        },
        _ => {},
    }
    let has_tool_calls = tool_calls.len() > 0;
    let finish_reason = openai_finish_reason(&payload, has_tool_calls);
    let usage = usage_from_openai(get(&payload, "usage")).normalized();
    let id = match string_field(&payload, "id") {
        Some(i) => i,
        None => String::new(),
    };
    let raw = copy_json(&payload);
    let message = Message { role: MessageRole::Assistant, content, name: None, tool_call_id: None, provider_metadata: TextMap::new() };
    Ok(
        Response {
            id,
            model,
            provider: owned("openai"),
            message,
            finish_reason,
            usage,
            raw: Some(raw),
            warnings: Vec::new(),
            rate_limit,
            text,
            tool_calls,
            raw_provider_events: Vec::new(),
        },
    )
}

} // verus!
