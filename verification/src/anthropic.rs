//! Reading an Anthropic Messages response: its content blocks, usage and
//! finish reason, into the library's response.
use vstd::prelude::*;
use crate::errors::{SDKError, SDKErrorKind};
use crate::json::{Json, JsonView, copy_json, get, json_get, json_text, json_to_text, jv};
use crate::native::{anthropic_finish_reason, anthropic_kind, non_empty_opt, provider_error_spec, source_model};
use crate::request::{
    ContentPart, ContentPartView, FinishReasonKind, Message, MessageRole, RateLimitInfo, Response, ThinkingData, ThinkingView, ToolCall, ToolCallView, parts_view, parts_view_text, lemma_parts_text_view,
};
use crate::sse::parse_u64_spec;
use crate::text::{ascii_lower, opt_seq, owned, trim_seq};
use crate::textmap::TextMap;
use crate::usage::{Usage, UsageView};

verus! {

// ----- reading members -----
/// The string a member holds, if it holds one.
pub open spec fn str_member(v: Json, key: Seq<char>) -> Option<Seq<char>> {
    match json_get(v, key) {
        Some(Json::Str(s)) => Some(s@),
        _ => None,
    }
}

/// The string a member holds, if it holds one.
pub fn string_field(v: &Json, key: &str) -> (r: Option<String>)
    ensures
        opt_seq(r) == str_member(*v, key@),
{
    match get(v, key) {
        Some(Json::Str(s)) => Some(s.clone()),
        _ => None,
    }
}

/// An unsigned count written as a JSON number: decimal digits that fit.
pub open spec fn number_count(t: Seq<char>) -> Option<u64> {
    if t.len() > 0 && t[0] != '+' {
        parse_u64_spec(t)
    } else {
        None
    }
}

/// A token count stored under `key`: an unsigned integer, or a string of one.
pub open spec fn token_at_spec(source: Option<Json>, key: Seq<char>) -> Option<u64> {
    match source {
        Some(v) => match json_get(v, key) {
            Some(Json::Number(t)) => number_count(t@),
            Some(Json::Str(s)) => parse_u64_spec(s@),
            _ => None,
        },
        None => None,
    }
}

/// A token count stored under `key`.
pub fn token_at(source: Option<&Json>, key: &str) -> (r: Option<u64>)
    ensures
        r == token_at_spec(match source {
            Some(v) => Some(*v),
            None => None,
        }, key@),
{
    let v = match source {
        Some(v) => v,
        None => return None,
    };
    match get(v, key) {
        Some(Json::Number(t)) => {
            let c = crate::text::chars_of(t.as_str());
            if c.len() > 0 && c[0] != '+' {
                crate::sse::parse_u64(&c)
            } else {
                None
            }
        },
        Some(Json::Str(s)) => crate::sse::parse_u64(&crate::text::chars_of(s.as_str())),
        _ => None,
    }
}

// ----- usage -----
pub open spec fn or_zero(o: Option<u64>) -> u64 {
    match o {
        Some(n) => n,
        None => 0,
    }
}

/// The usage an Anthropic `usage` object reports.
pub open spec fn anthropic_usage_spec(value: Option<Json>) -> UsageView {
    UsageView {
        input_tokens: or_zero(token_at_spec(value, "input_tokens"@)),
        output_tokens: or_zero(token_at_spec(value, "output_tokens"@)),
        total_tokens: or_zero(token_at_spec(value, "total_tokens"@)),
        reasoning_tokens: token_at_spec(value, "reasoning_tokens"@),
        cache_read_tokens: token_at_spec(value, "cache_read_input_tokens"@),
        cache_write_tokens: match token_at_spec(value, "cache_creation_input_tokens"@) {
            Some(n) => Some(n),
            None => match token_at_spec(value, "cache_write_tokens"@) {
                Some(n) => Some(n),
                None => token_at_spec(value, "cacheWriteTokens"@),
            },
        },
        raw: match value {
            Some(v) => Some(jv(v)),
            None => None,
        },
    }
}

/// The usage an Anthropic `usage` object reports.
pub fn usage_from_anthropic(value: Option<&Json>) -> (r: Usage)
    ensures
        r@ == anthropic_usage_spec(match value {
            Some(v) => Some(*v),
            None => None,
        }),
{
    let cache_write = match token_at(value, "cache_creation_input_tokens") {
        Some(n) => Some(n),
        None => match token_at(value, "cache_write_tokens") {
            Some(n) => Some(n),
            None => token_at(value, "cacheWriteTokens"),
        },
    };
    let in_t = token_at(value, "input_tokens");
    let out_t = token_at(value, "output_tokens");
    let total_t = token_at(value, "total_tokens");
    Usage {
        input_tokens: match in_t {
            Some(n) => n,
            None => 0,
        },
        output_tokens: match out_t {
            Some(n) => n,
            None => 0,
        },
        total_tokens: match total_t {
            Some(n) => n,
            None => 0,
        },
        reasoning_tokens: token_at(value, "reasoning_tokens"),
        cache_read_tokens: token_at(value, "cache_read_input_tokens"),
        cache_write_tokens: cache_write,
        raw: match value {
            Some(v) => Some(copy_json(v)),
            None => None,
        },
    }
}

// ----- reasoning estimates -----
pub open spec fn sat_add(a: u64, b: u64) -> u64 {
    if a + b > u64::MAX {
        u64::MAX
    } else {
        (a + b) as u64
    }
}

/// The estimated tokens of a reasoning text of `count` characters: about
/// four characters a token, at least one.
pub open spec fn reasoning_estimate(count: u64) -> u64 {
    let e = sat_add(count, 3) / 4;
    if e >= 1 {
        e
    } else {
        1
    }
}

/// Whether there is a reasoning part, and the estimated tokens of the
/// non-empty ones.
pub open spec fn estimate_spec(parts: Seq<ContentPartView>) -> (bool, u64)
    decreases parts.len(),
{
    if parts.len() == 0 {
        (false, 0)
    } else {
        let rest = estimate_spec(parts.drop_last());
        match parts.last() {
            ContentPartView::Thinking { thinking } => (
                true,
                if thinking.text.len() == 0 {
                    rest.1
                } else {
                    sat_add(rest.1, reasoning_estimate(thinking.text.len() as u64))
                },
            ),
            ContentPartView::RedactedThinking { thinking } => (
                true,
                if thinking.text.len() == 0 {
                    rest.1
                } else {
                    sat_add(rest.1, reasoning_estimate(thinking.text.len() as u64))
                },
            ),
            _ => rest,
        }
    }
}

fn estimate_one(text: &String) -> (r: Option<u64>)
    ensures
        text@.len() == 0 ==> r is None,
        text@.len() > 0 ==> r == Some(reasoning_estimate(text@.len() as u64)),
{
    let n = text.unicode_len();
    if n == 0 {
        return None;
    }
    let count: u64 = n as u64;
    let e = count.saturating_add(3) / 4;
    Some(if e >= 1 {
        e
    } else {
        1
    })
}

/// The estimated reasoning tokens of some content: `None` when there is no
/// reasoning part.
pub fn estimate_reasoning_tokens(parts: &Vec<ContentPart>) -> (r: Option<u64>)
    ensures
        r == if estimate_spec(parts_view(parts@)).0 {
            Some(estimate_spec(parts_view(parts@)).1)
        } else {
            None::<u64>
        },
{
    let ghost pv = parts_view(parts@);
    let mut total: u64 = 0;
    let mut saw = false;
    let mut i: usize = 0;
    while i < parts.len()
        invariant
            i <= parts@.len(),
            pv == parts_view(parts@),
            estimate_spec(pv.subrange(0, i as int)) == (saw, total),
        decreases parts@.len() - i,
    {
        proof {
            let t = pv.subrange(0, i + 1);
            assert(t.drop_last() =~= pv.subrange(0, i as int));
            assert(t.last() == parts@[i as int]@);
        }
        match &parts[i] {
            ContentPart::Thinking { thinking } => {
                saw = true;
                if let Some(e) = estimate_one(&thinking.text) {
                    total = total.saturating_add(e);
                }
            },
            ContentPart::RedactedThinking { thinking } => {
                saw = true;
                if let Some(e) = estimate_one(&thinking.text) {
                    total = total.saturating_add(e);
                }
            },
            _ => {},
        }
        i = i + 1;
    }
    assert(pv.subrange(0, pv.len() as int) =~= pv);
    if saw {
        Some(total)
    } else {
        None
    }
}

// ----- content blocks -----
/// The thinking of a block read from an Anthropic response of `model`.
pub open spec fn anthropic_thinking(text: Seq<char>, signature: Option<Seq<char>>, redacted: bool, model: Seq<char>) -> ThinkingView {
    ThinkingView {
        text,
        signature,
        redacted,
        source_provider: Some("anthropic"@),
        source_model: non_empty_opt(Some(model)),
    }
}

/// The part a content block becomes: text, thinking, redacted thinking, a
/// tool call (which needs an id and a name), or the block itself passed on;
/// a block that is not an object, or lacks what its type needs, is dropped.
pub open spec fn anthropic_block_spec(block: Json, model: Seq<char>) -> Option<ContentPartView> {
    match block {
        Json::Object(_) => {
            let ty = match str_member(block, "type"@) {
                Some(t) => t,
                None => Seq::empty(),
            };
            if ty == "text"@ {
                match str_member(block, "text"@) {
                    Some(t) => Some(ContentPartView::Text { text: t }),
                    None => None,
                }
            } else if ty == "thinking"@ {
                match str_member(block, "thinking"@) {
                    Some(t) => Some(
                        ContentPartView::Thinking {
                            thinking: anthropic_thinking(t, str_member(block, "signature"@), false, model),
                        },
                    ),
                    None => None,
                }
            } else if ty == "redacted_thinking"@ {
                match str_member(block, "data"@) {
                    Some(t) => Some(
                        ContentPartView::RedactedThinking { thinking: anthropic_thinking(t, None, true, model) },
                    ),
                    None => None,
                }
            } else if ty == "tool_use"@ {
                match (str_member(block, "id"@), str_member(block, "name"@)) {
                    (Some(id), Some(name)) => Some(
                        ContentPartView::ToolCall {
                            tool_call: ToolCallView {
                                id,
                                name,
                                arguments: match json_get(block, "input"@) {
                                    Some(x) => jv(x),
                                    None => JsonView::Object(Seq::empty()),
                                },
                                raw_arguments: match json_get(block, "input"@) {
                                    Some(x) => Some(json_text(jv(x))),
                                    None => None,
                                },
                                call_type: "function"@,
                            },
                        },
                    ),
                    _ => None,
                }
            } else {
                Some(ContentPartView::Provider { raw: jv(block) })
            }
        },
        _ => None,
    }
}

/// The parts of a list of content blocks, in order.
pub open spec fn anthropic_blocks_spec(blocks: Seq<Json>, model: Seq<char>) -> Seq<ContentPartView>
    decreases blocks.len(),
{
    if blocks.len() == 0 {
        Seq::empty()
    } else {
        let rest = anthropic_blocks_spec(blocks.drop_last(), model);
        match anthropic_block_spec(blocks.last(), model) {
            Some(p) => rest.push(p),
            None => rest,
        }
    }
}

/// The parts of a `content` value: nothing unless it is an array.
pub open spec fn anthropic_content_spec(value: Json, model: Seq<char>) -> Seq<ContentPartView> {
    match value {
        Json::Array(items) => anthropic_blocks_spec(items@, model),
        _ => Seq::empty(),
    }
}

fn anthropic_block(block: &Json, model: &str) -> (r: Option<ContentPart>)
    ensures
        match r {
            Some(p) => anthropic_block_spec(*block, model@) == Some(p@),
            None => anthropic_block_spec(*block, model@) is None,
        },
{
    match block {
        Json::Object(_) => {},
        _ => return None,
    }
    let ty = match string_field(block, "type") {
        Some(t) => t,
        None => String::new(),
    };
    let t = ty.as_str();
    if crate::text::str_eq(t, "text") {
        match string_field(block, "text") {
            Some(text) => Some(ContentPart::Text { text }),
            None => None,
        }
    } else if crate::text::str_eq(t, "thinking") {
        match string_field(block, "thinking") {
            Some(text) => Some(
                ContentPart::Thinking {
                    thinking: ThinkingData {
                        text,
                        signature: string_field(block, "signature"),
                        redacted: false,
                        source_provider: Some(owned("anthropic")),
                        source_model: source_model(model),
                    },
                },
            ),
            None => None,
        }
    } else if crate::text::str_eq(t, "redacted_thinking") {
        match string_field(block, "data") {
            Some(text) => Some(
                ContentPart::RedactedThinking {
                    thinking: ThinkingData {
                        text,
                        signature: None,
                        redacted: true,
                        source_provider: Some(owned("anthropic")),
                        source_model: source_model(model),
                    },
                },
            ),
            None => None,
        }
    } else if crate::text::str_eq(t, "tool_use") {
        let id = match string_field(block, "id") {
            Some(i) => i,
            None => return None,
        };
        let name = match string_field(block, "name") {
            Some(n) => n,
            None => return None,
        };
        let (arguments, raw_arguments) = match get(block, "input") {
            Some(x) => (copy_json(x), Some(json_to_text(x))),
            None => {
                let e: Vec<(String, Json)> = Vec::new();
                assert(crate::json::jv_members(e@) =~= Seq::<(Seq<char>, JsonView)>::empty());
                (Json::Object(e), None)
            },
        };
        Some(
            ContentPart::ToolCall {
                tool_call: ToolCall { id, name, arguments, raw_arguments, call_type: owned("function") },
            },
        )
    } else {
        Some(ContentPart::Provider { raw: copy_json(block) })
    }
}

/// The parts of a `content` value, in order.
pub fn anthropic_response_content(value: &Json, model: &str) -> (r: Vec<ContentPart>)
    ensures
        parts_view(r@) == anthropic_content_spec(*value, model@),
{
    let blocks = match value {
        Json::Array(items) => items,
        _ => {
            let v: Vec<ContentPart> = Vec::new();
            assert(parts_view(v@) =~= Seq::<ContentPartView>::empty());
            return v;
        },
    };
    let mut content: Vec<ContentPart> = Vec::new();
    let mut i: usize = 0;
    assert(parts_view(content@) =~= Seq::<ContentPartView>::empty());
    while i < blocks.len()
        invariant
            i <= blocks@.len(),
            *value == Json::Array(*blocks),
            parts_view(content@) == anthropic_blocks_spec(blocks@.subrange(0, i as int), model@),
        decreases blocks@.len() - i,
    {
        proof {
            let t = blocks@.subrange(0, i + 1);
            assert(t.drop_last() =~= blocks@.subrange(0, i as int));
            assert(t.last() == blocks@[i as int]);
        }
        let ghost before = parts_view(content@);
        match anthropic_block(&blocks[i], model) {
            Some(p) => {
                content.push(p);
                assert(parts_view(content@) =~= before.push(p@));
            },
            None => {},
        }
        i = i + 1;
    }
    assert(blocks@.subrange(0, blocks@.len() as int) =~= blocks@);
    content
}

// ----- responses -----
/// A usage view with a missing total filled in.
pub open spec fn normalized_view(u: UsageView) -> UsageView {
    if u.total_tokens == 0 {
        UsageView { total_tokens: (u.input_tokens + u.output_tokens) as u64, ..u }
    } else {
        u
    }
}

/// Whether some part is a tool call.
pub open spec fn has_tool_call_part(parts: Seq<ContentPartView>) -> bool {
    exists|i: int| 0 <= i < parts.len() && parts[i] is ToolCall
}

pub open spec fn or_empty(o: Option<Seq<char>>) -> Seq<char> {
    match o {
        Some(s) => s,
        None => Seq::empty(),
    }
}

/// The model an Anthropic response names.
pub open spec fn anthropic_model(payload: Json) -> Seq<char> {
    or_empty(str_member(payload, "model"@))
}

/// The content of an Anthropic response.
pub open spec fn anthropic_parts(payload: Json) -> Seq<ContentPartView> {
    match json_get(payload, "content"@) {
        Some(c) => anthropic_content_spec(c, anthropic_model(payload)),
        None => Seq::empty(),
    }
}

/// The usage of an Anthropic response: the reported counts with the total
/// filled in, and reasoning tokens estimated from the reasoning text when
/// the report gives none.
pub open spec fn anthropic_response_usage(payload: Json) -> UsageView {
    let u = normalized_view(anthropic_usage_spec(json_get(payload, "usage"@)));
    let est = estimate_spec(anthropic_parts(payload));
    if u.reasoning_tokens is None && est.0 {
        UsageView { reasoning_tokens: Some(est.1), ..u }
    } else {
        u
    }
}

/// Whether the counts of a response's usage can be added up.
pub open spec fn anthropic_usage_fits(payload: Json) -> bool {
    let u = anthropic_usage_spec(json_get(payload, "usage"@));
    u.total_tokens == 0 ==> u.input_tokens + u.output_tokens <= u64::MAX
}

/// What a response read from an Anthropic payload holds.
pub open spec fn anthropic_response_spec(r: Response, payload: Json, rate_limit: Option<RateLimitInfo>) -> bool {
    let parts = anthropic_parts(payload);
    let stop = str_member(payload, "stop_reason"@);
    let has_tools = has_tool_call_part(parts);
    &&& r.id@ == or_empty(str_member(payload, "id"@))
    &&& r.model@ == anthropic_model(payload)
    &&& r.provider@ == "anthropic"@
    &&& r.message.role == MessageRole::Assistant
    &&& parts_view(r.message.content@) == parts
    &&& r.message.name is None
    &&& r.message.tool_call_id is None
    &&& r.message.provider_metadata.as_map() == Map::<Seq<char>, Json>::empty()
    &&& r.finish_reason.reason == match stop {
        Some(raw) => anthropic_kind(ascii_lower(trim_seq(raw)), has_tools),
        None => if has_tools {
            FinishReasonKind::ToolCalls
        } else {
            FinishReasonKind::Other
        },
    }
    &&& opt_seq(r.finish_reason.raw) == stop
    &&& r.usage@ == anthropic_response_usage(payload)
    &&& r.raw matches Some(raw) && raw@ == payload@
    &&& r.rate_limit == rate_limit
    &&& r.text@ == parts_view_text(parts)
    &&& r.warnings@.len() == 0
    &&& r.tool_calls@.len() == 0
    &&& r.raw_provider_events@.len() == 0
}

/// Reads an Anthropic Messages response. The payload must be a JSON object.
pub fn translate_anthropic_messages_response(
    payload: Json,
    rate_limit: Option<RateLimitInfo>,
) -> (r: Result<Response, SDKError>)
    requires
        anthropic_usage_fits(payload),
    ensures
        match r {
            Ok(resp) => payload is Object && anthropic_response_spec(resp, payload, rate_limit),
            Err(e) => !(payload is Object) && e@ == provider_error_spec(
                SDKErrorKind::Provider,
                "anthropic"@,
                "Anthropic Messages response must be a JSON object"@,
            ),
        },
{
    match &payload {
        Json::Object(_) => {},
        _ => {
            return Err(
                SDKError::provider(
                    SDKErrorKind::Provider,
                    owned("Anthropic Messages response must be a JSON object"),
                    Some(owned("anthropic")),
                ),
            );
        },
    }
    let model = match string_field(&payload, "model") {
        Some(m) => m,
        None => String::new(),
    };
    let content = match get(&payload, "content") {
        Some(c) => anthropic_response_content(c, model.as_str()),
        None => {
            let v: Vec<ContentPart> = Vec::new();
            assert(parts_view(v@) =~= Seq::<ContentPartView>::empty());
            v
        },
    };
    let ghost parts = parts_view(content@);
    let mut has_tool_calls = false;
    let mut i: usize = 0;
    while i < content.len()
        invariant
            i <= content@.len(),
            parts == parts_view(content@),
            has_tool_calls == exists|j: int| 0 <= j < i && parts[j] is ToolCall,
        decreases content@.len() - i,
    {
        assert(parts[i as int] == content@[i as int]@);
        if let ContentPart::ToolCall { .. } = &content[i] {
            has_tool_calls = true;
        }
        i = i + 1;
    }
    let message = Message { role: MessageRole::Assistant, content, name: None, tool_call_id: None, provider_metadata: TextMap::new() };
    let text = message.text();
    proof {
        lemma_parts_text_view(message.content@);
    }
    let usage0 = usage_from_anthropic(get(&payload, "usage")).normalized();
    let mut usage = usage0;
    if usage.reasoning_tokens.is_none() {
        if let Some(estimated) = estimate_reasoning_tokens(&message.content) {
            usage.reasoning_tokens = Some(estimated);
        }
    }
    let finish_reason = anthropic_finish_reason(string_field(&payload, "stop_reason"), has_tool_calls);
    let id = match string_field(&payload, "id") {
        Some(i) => i,
        None => String::new(),
    };
    let raw = copy_json(&payload);
    Ok(
        Response {
            id,
            model,
            provider: owned("anthropic"),
            message,
            finish_reason,
            usage,
            raw: Some(raw),
            warnings: Vec::new(),
            rate_limit,
            text,
            tool_calls: Vec::new(),
            raw_provider_events: Vec::new(),
        },
    )
}

} // verus!
