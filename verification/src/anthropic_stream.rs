//! Reading an Anthropic Messages stream: what each server-sent event asks
//! of the stream it feeds, keeping track of the content blocks that are
//! open by their index.
use vstd::prelude::*;
use crate::anthropic::{anthropic_response_spec, anthropic_usage_fits, anthropic_usage_spec, translate_anthropic_messages_response, usage_from_anthropic};
use crate::errors::{SDKError, SDKErrorKind, SDKErrorView, default_retryable_spec};
use crate::json::{Json, JsonView, copy_json, get, json_get, json_text, json_to_text, jv, jv_items};
use crate::native::{
    anthropic_finish_reason, anthropic_kind, non_empty_opt, payload_error_message, provider_payload_error, source_model,
    stream_raw_payload, stream_raw_spec,
};
use crate::request::{ThinkingData, ThinkingView, ToolCall, ToolCallView};
use crate::sse::{ProviderStreamRecord, RecordView};
use crate::stream_actions::{
    ErrorView, StreamAction, StreamActionView, StreamContext, actions_view, copy_rate_limit, err_view, opt_jv,
    record_payload_spec, record_raw_spec, stream_record_payload, value_identifier, value_identifier_spec, value_string,
    value_string_spec,
};
use crate::text::{ascii_lower, concat2, opt_seq, owned, str_eq, trim_seq};
use crate::textmap::TextMap;

verus! {

// ----- open blocks -----
/// A content block that is open, by what it streams into.
#[derive(Debug)]
pub enum ActiveStreamBlock {
    Text(String),
    Reasoning,
    ToolCall(String),
}

pub enum BlockView {
    Text(Seq<char>),
    Reasoning,
    ToolCall(Seq<char>),
}

impl View for ActiveStreamBlock {
    type V = BlockView;

    open spec fn view(&self) -> BlockView {
        match self {
            ActiveStreamBlock::Text(id) => BlockView::Text(id@),
            ActiveStreamBlock::Reasoning => BlockView::Reasoning,
            ActiveStreamBlock::ToolCall(id) => BlockView::ToolCall(id@),
        }
    }
}

/// The reading of an Anthropic stream: the open blocks by index, and
/// whether the stream has ended.
pub struct AnthropicStreamTranslator {
    pub active_blocks: TextMap<ActiveStreamBlock>,
    pub finished: bool,
}

pub struct AnthropicStreamView {
    pub blocks: Map<Seq<char>, BlockView>,
    pub finished: bool,
}

pub open spec fn blocks_view(m: TextMap<ActiveStreamBlock>) -> Map<Seq<char>, BlockView> {
    m.as_map().map_values(|b: ActiveStreamBlock| b@)
}

impl View for AnthropicStreamTranslator {
    type V = AnthropicStreamView;

    open spec fn view(&self) -> AnthropicStreamView {
        AnthropicStreamView { blocks: blocks_view(self.active_blocks), finished: self.finished }
    }
}

// ----- the step -----
/// The event type of a record: its event name, else the payload's `type`.
pub open spec fn anthropic_event_type(rec: RecordView, p: Json) -> Seq<char> {
    let e = match rec.event {
        Some(e) => e,
        None => Seq::empty(),
    };
    if e.len() == 0 {
        match value_string_spec(p, "type"@) {
            Some(t) => t,
            None => Seq::empty(),
        }
    } else {
        e
    }
}

/// The index a payload names, `0` when it names none.
pub open spec fn block_index(p: Json) -> Seq<char> {
    match value_identifier_spec(p, "index"@) {
        Some(i) => i,
        None => "0"@,
    }
}

pub open spec fn or_empty_text(o: Option<Seq<char>>) -> Seq<char> {
    match o {
        Some(t) => t,
        None => Seq::empty(),
    }
}

/// The metadata of a reasoning block: its signature unless redacted, and
/// the model of the last response as its source.
pub open spec fn thinking_metadata_spec(block: Json, redacted: bool, last_model: Option<Seq<char>>) -> ThinkingView {
    ThinkingView {
        text: Seq::empty(),
        signature: if redacted {
            None
        } else {
            value_string_spec(block, "signature"@)
        },
        redacted,
        source_provider: Some("anthropic"@),
        source_model: non_empty_opt(last_model),
    }
}

/// The arguments text a tool-use block starts with: none for an empty
/// object, the compact JSON text of its input otherwise.
pub open spec fn start_arguments_text(input: JsonView) -> Seq<char> {
    if input matches JsonView::Object(ms) && ms.len() == 0 {
        Seq::empty()
    } else {
        json_text(input)
    }
}

/// The input of a tool-use block: its `input`, an empty object when it has none.
pub open spec fn block_input(block: Json) -> JsonView {
    match json_get(block, "input"@) {
        Some(i) => jv(i),
        None => JsonView::Object(Seq::empty()),
    }
}

/// A `content_block_start` payload with its block.
pub open spec fn block_start_spec(
    blocks: Map<Seq<char>, BlockView>,
    last_model: Option<Seq<char>>,
    p: Json,
    block: Json,
) -> (Map<Seq<char>, BlockView>, Seq<StreamActionView>) {
    let raw = Some(jv(p));
    let index = block_index(p);
    let block_type = or_empty_text(value_string_spec(block, "type"@));
    if block_type == "text"@ {
        let text_id = "text_"@ + index;
        (
            blocks.insert(index, BlockView::Text(text_id)),
            seq![
                match value_string_spec(block, "text"@) {
                    Some(t) => StreamActionView::TextDelta { text_id, delta: t, raw },
                    None => StreamActionView::TextStart { text_id, raw },
                },
            ],
        )
    } else if block_type == "thinking"@ || block_type == "redacted_thinking"@ {
        let meta = thinking_metadata_spec(block, block_type == "redacted_thinking"@, last_model);
        let text = match value_string_spec(block, "thinking"@) {
            Some(t) => Some(t),
            None => match value_string_spec(block, "text"@) {
                Some(t) => Some(t),
                None => value_string_spec(block, "data"@),
            },
        };
        (
            blocks.insert(index, BlockView::Reasoning),
            seq![
                match text {
                    Some(t) => StreamActionView::ReasoningDelta { delta: t, thinking: Some(meta), raw },
                    None => StreamActionView::ReasoningStart { thinking: Some(meta), raw },
                },
            ],
        )
    } else if block_type == "tool_use"@ {
        let id = match value_string_spec(block, "id"@) {
            Some(i) => i,
            None => "toolu_"@ + index,
        };
        let input = block_input(block);
        (
            blocks.insert(index, BlockView::ToolCall(id)),
            seq![
                StreamActionView::ToolCallStart {
                    tool_call: ToolCallView {
                        id,
                        name: or_empty_text(value_string_spec(block, "name"@)),
                        arguments: input,
                        raw_arguments: Some(start_arguments_text(input)),
                        call_type: "function"@,
                    },
                    raw,
                },
            ],
        )
    } else {
        (blocks, seq![StreamActionView::ProviderEvent(jv(p))])
    }
}

/// A `content_block_delta` payload with its delta.
pub open spec fn block_delta_spec(
    blocks: Map<Seq<char>, BlockView>,
    last_model: Option<Seq<char>>,
    p: Json,
    delta: Json,
) -> Seq<StreamActionView> {
    let raw = Some(jv(p));
    let index = block_index(p);
    match value_string_spec(delta, "type"@) {
        Some(t) => if t == "text_delta"@ {
            match value_string_spec(delta, "text"@) {
                Some(text) => seq![
                    StreamActionView::TextDelta {
                        text_id: match blocks.get(index) {
                            Some(BlockView::Text(id)) => id,
                            _ => "text_"@ + index,
                        },
                        delta: text,
                        raw,
                    },
                ],
                None => Seq::empty(),
            }
        } else if t == "thinking_delta"@ {
            match value_string_spec(delta, "thinking"@) {
                Some(text) => seq![StreamActionView::ReasoningDelta { delta: text, thinking: None, raw }],
                None => Seq::empty(),
            }
        } else if t == "signature_delta"@ {
            match value_string_spec(delta, "signature"@) {
                Some(sig) => seq![
                    StreamActionView::ReasoningDelta {
                        delta: Seq::empty(),
                        thinking: Some(
                            ThinkingView {
                                text: Seq::empty(),
                                signature: Some(sig),
                                redacted: false,
                                source_provider: Some("anthropic"@),
                                source_model: non_empty_opt(last_model),
                            },
                        ),
                        raw,
                    },
                ],
                None => Seq::empty(),
            }
        } else if t == "input_json_delta"@ {
            let partial = or_empty_text(value_string_spec(delta, "partial_json"@));
            seq![
                StreamActionView::ToolCallDelta {
                    tool_call: ToolCallView {
                        id: match blocks.get(index) {
                            Some(BlockView::ToolCall(id)) => id,
                            _ => "toolu_"@ + index,
                        },
                        name: Seq::empty(),
                        arguments: JsonView::Str(partial),
                        raw_arguments: Some(partial),
                        call_type: "function"@,
                    },
                    raw,
                },
            ]
        } else {
            seq![StreamActionView::ProviderEvent(jv(p))]
        },
        None => seq![StreamActionView::ProviderEvent(jv(p))],
    }
}

/// A `content_block_stop` payload: the block of its index closes; with no
/// such block, everything open closes.
pub open spec fn block_stop_spec(blocks: Map<Seq<char>, BlockView>, p: Json) -> (Map<Seq<char>, BlockView>, Seq<StreamActionView>) {
    let raw = Some(jv(p));
    let index = block_index(p);
    (
        blocks.remove(index),
        match blocks.get(index) {
            Some(BlockView::Text(id)) => seq![StreamActionView::TextEnd { text_id: id, raw }],
            Some(BlockView::Reasoning) => seq![StreamActionView::CloseReasoning { raw }],
            Some(BlockView::ToolCall(id)) => seq![StreamActionView::ToolCallEndById { tool_call_id: id, raw }],
            None => seq![
                StreamActionView::CloseAllText { raw },
                StreamActionView::CloseReasoning { raw },
                StreamActionView::CloseAllToolCalls { raw },
            ],
        },
    )
}

/// A `message_delta` payload: the stop reason sets the finish reason, and
/// the usage is recorded.
pub open spec fn message_delta_spec(p: Json, has_tool_calls: bool) -> Seq<StreamActionView> {
    let reason = match json_get(p, "delta"@) {
        Some(d) => match value_string_spec(d, "stop_reason"@) {
            Some(sr) => seq![
                StreamActionView::SetFinishReason(anthropic_kind(ascii_lower(trim_seq(sr)), has_tool_calls), Some(sr)),
            ],
            None => Seq::empty(),
        },
        None => Seq::empty(),
    };
    let usage = match json_get(p, "usage"@) {
        Some(u) => seq![StreamActionView::RecordUsage(anthropic_usage_spec(Some(u)))],
        None => Seq::empty(),
    };
    reason + usage
}

/// The error event an `error` payload stands for.
pub open spec fn payload_error_view(p: Json) -> ErrorView {
    ErrorView {
        fields: SDKErrorView {
            kind: SDKErrorKind::Stream,
            message: payload_error_message(p),
            provider: Some("anthropic"@),
            status_code: None,
            error_code: None,
            retryable: default_retryable_spec(SDKErrorKind::Stream),
            raw: None,
        },
        raw: Some(jv(p)),
    }
}

/// What a payload asks of the stream, after it is kept: the blocks after
/// it, whether the stream has ended, and the actions.
pub open spec fn anthropic_payload_step(
    blocks: Map<Seq<char>, BlockView>,
    ctx: StreamContext,
    rec: RecordView,
    p: Json,
) -> (Map<Seq<char>, BlockView>, bool, Seq<StreamActionView>) {
    let raw = Some(jv(p));
    let et = anthropic_event_type(rec, p);
    let last_model = opt_seq(ctx.last_model);
    if et == "message_start"@ {
        (
            blocks,
            false,
            seq![
                StreamActionView::EnsureStarted {
                    raw,
                    has_response: json_get(p, "message"@) matches Some(m) && m is Object,
                },
            ],
        )
    } else {
        anthropic_payload_other(blocks, ctx, et, p)
    }
}

/// What a payload of any other event type asks of the stream.
pub open spec fn anthropic_payload_other(
    blocks: Map<Seq<char>, BlockView>,
    ctx: StreamContext,
    et: Seq<char>,
    p: Json,
) -> (Map<Seq<char>, BlockView>, bool, Seq<StreamActionView>) {
    let raw = Some(jv(p));
    let last_model = opt_seq(ctx.last_model);
    if et == "content_block_start"@ {
        match json_get(p, "content_block"@) {
            None => (blocks, false, seq![StreamActionView::ProviderEvent(jv(p))]),
            Some(block) => {
                let (b, acts) = block_start_spec(blocks, last_model, p, block);
                (b, false, acts)
            },
        }
    } else if et == "content_block_delta"@ {
        match json_get(p, "delta"@) {
            None => (blocks, false, seq![StreamActionView::ProviderEvent(jv(p))]),
            Some(delta) => (blocks, false, block_delta_spec(blocks, last_model, p, delta)),
        }
    } else if et == "content_block_stop"@ {
        let (b, acts) = block_stop_spec(blocks, p);
        (b, false, acts)
    } else if et == "message_delta"@ {
        (blocks, false, message_delta_spec(p, ctx.has_tool_calls))
    } else if et == "message_stop"@ {
        (blocks, true, seq![StreamActionView::Finish { raw }])
    } else if et == "error"@ {
        (blocks, true, seq![StreamActionView::PushError { error: payload_error_view(p), raw }])
    } else {
        (blocks, false, seq![StreamActionView::ProviderEvent(jv(p))])
    }
}

/// The error of a failed record: handed out as it is before the stream has
/// started, after its events once it has.
pub open spec fn failure_view(started: bool, e: ErrorView) -> StreamActionView {
    if started {
        StreamActionView::IteratorError(e)
    } else {
        StreamActionView::ReturnError(e)
    }
}

/// What one item of an Anthropic stream asks of the stream it feeds: nothing
/// once the stream has ended; a failed item or record ends it with its
/// error; the end marker finishes it with the payloads kept so far; any
/// other record's payload is kept and then read by its event type.
pub open spec fn anthropic_stream_step(
    st: AnthropicStreamView,
    ctx: StreamContext,
    item: Result<ProviderStreamRecord, SDKError>,
) -> (AnthropicStreamView, Seq<StreamActionView>) {
    if st.finished {
        (st, Seq::empty())
    } else {
        match item {
            Err(e) => (AnthropicStreamView { finished: true, ..st }, seq![failure_view(ctx.started, err_view(e))]),
            Ok(rec) => if rec.done {
                (
                    AnthropicStreamView { finished: true, ..st },
                    seq![StreamActionView::Finish { raw: stream_raw_spec(jv_items(ctx.raw_payloads@)) }],
                )
            } else {
                match rec.payload {
                    None => (
                        AnthropicStreamView { finished: true, ..st },
                        seq![
                            failure_view(
                                ctx.started,
                                ErrorView {
                                    fields: record_payload_spec("anthropic"@, rec@)->Err_0,
                                    raw: Some(record_raw_spec(rec@)),
                                },
                            ),
                        ],
                    ),
                    Some(p) => {
                        let (blocks, finished, acts) = anthropic_payload_step(st.blocks, ctx, rec@, p);
                        (
                            AnthropicStreamView { blocks, finished },
                            seq![StreamActionView::RecordPayload(jv(p))] + acts,
                        )
                    },
                }
            },
        }
    }
}

/// What the translation of a `message_start` message needs: its usage
/// counts must add up within range.
pub open spec fn anthropic_item_fits(item: Result<ProviderStreamRecord, SDKError>) -> bool {
    item matches Ok(rec) && rec.payload matches Some(p) && json_get(p, "message"@) matches Some(m)
        ==> anthropic_usage_fits(m)
}

/// Every response a stream is started with is the translation of the
/// payload's message.
pub open spec fn started_responses_ok(
    actions: Seq<StreamAction>,
    item: Result<ProviderStreamRecord, SDKError>,
    ctx: StreamContext,
) -> bool {
    forall|i: int|
        0 <= i < actions.len() ==> (#[trigger] actions[i] matches StreamAction::EnsureStarted { response: Some(r), .. }
            ==> item matches Ok(rec) && rec.payload matches Some(p) && json_get(p, "message"@) matches Some(m)
            && anthropic_response_spec(r, m, ctx.rate_limit))
}

// ----- the translator -----
proof fn lemma_blocks_insert(before: TextMap<ActiveStreamBlock>, after: TextMap<ActiveStreamBlock>, k: Seq<char>, v: ActiveStreamBlock)
    requires
        after.as_map() == before.as_map().insert(k, v),
    ensures
        blocks_view(after) == blocks_view(before).insert(k, v@),
{
    assert(blocks_view(after) =~= blocks_view(before).insert(k, v@));
}

proof fn lemma_blocks_remove(before: TextMap<ActiveStreamBlock>, after: TextMap<ActiveStreamBlock>, k: Seq<char>)
    requires
        after.as_map() == before.as_map().remove(k),
    ensures
        blocks_view(after) == blocks_view(before).remove(k),
{
    assert(blocks_view(after) =~= blocks_view(before).remove(k));
}

pub(crate) fn one(a: StreamAction) -> (r: Vec<StreamAction>)
    ensures
        actions_view(r@) == seq![a@],
        r@ == seq![a],
{
    let r = vec![a];
    assert(r@ =~= seq![a]);
    assert(actions_view(r@) =~= seq![a@]);
    r
}

fn index_of(p: &Json) -> (r: String)
    ensures
        r@ == block_index(*p),
{
    match value_identifier(p, "index") {
        Some(i) => i,
        None => owned("0"),
    }
}

pub(crate) fn text_or_empty(o: Option<String>) -> (r: String)
    ensures
        r@ == or_empty_text(opt_seq(o)),
{
    match o {
        Some(t) => t,
        None => String::new(),
    }
}

fn last_source_model(last_model: &Option<String>) -> (r: Option<String>)
    ensures
        opt_seq(r) == non_empty_opt(opt_seq(*last_model)),
{
    match last_model {
        Some(m) => source_model(m.as_str()),
        None => None,
    }
}

pub(crate) fn raw_of(p: &Json) -> (r: Option<Json>)
    ensures
        opt_jv(r) == Some(jv(*p)),
{
    Some(copy_json(p))
}

fn block_start(blocks: &mut TextMap<ActiveStreamBlock>, last_model: &Option<String>, p: &Json, block: &Json) -> (acts: Vec<StreamAction>)
    ensures
        (blocks_view(*final(blocks)), actions_view(acts@)) == block_start_spec(
            blocks_view(*old(blocks)),
            opt_seq(*last_model),
            *p,
            *block,
        ),
        no_start(acts@),
{
    let ghost b0 = *blocks;
    let index = index_of(p);
    let block_type = text_or_empty(value_string(block, "type"));
    if str_eq(block_type.as_str(), "text") {
        let text_id = concat2("text_", index.as_str());
        let ghost tid = text_id@;
        blocks.insert(index, ActiveStreamBlock::Text(text_id.clone()));
        proof {
            lemma_blocks_insert(b0, *blocks, block_index(*p), ActiveStreamBlock::Text(text_id));
        }
        match value_string(block, "text") {
            Some(t) => one(StreamAction::TextDelta { text_id, delta: t, raw: raw_of(p) }),
            None => one(StreamAction::TextStart { text_id, raw: raw_of(p) }),
        }
    } else if str_eq(block_type.as_str(), "thinking") || str_eq(block_type.as_str(), "redacted_thinking") {
        let redacted = str_eq(block_type.as_str(), "redacted_thinking");
        let meta = ThinkingData {
            text: String::new(),
            signature: if redacted {
                None
            } else {
                value_string(block, "signature")
            },
            redacted,
            source_provider: Some(owned("anthropic")),
            source_model: last_source_model(last_model),
        };
        assert(meta@ == thinking_metadata_spec(*block, redacted, opt_seq(*last_model)));
        blocks.insert(index, ActiveStreamBlock::Reasoning);
        proof {
            lemma_blocks_insert(b0, *blocks, block_index(*p), ActiveStreamBlock::Reasoning);
        }
        let text = match value_string(block, "thinking") {
            Some(t) => Some(t),
            None => match value_string(block, "text") {
                Some(t) => Some(t),
                None => value_string(block, "data"),
            },
        };
        match text {
            Some(t) => one(StreamAction::ReasoningDelta { delta: t, thinking: Some(meta), raw: raw_of(p) }),
            None => one(StreamAction::ReasoningStart { thinking: Some(meta), raw: raw_of(p) }),
        }
    } else if str_eq(block_type.as_str(), "tool_use") {
        let id = match value_string(block, "id") {
            Some(i) => i,
            None => concat2("toolu_", index.as_str()),
        };
        blocks.insert(index, ActiveStreamBlock::ToolCall(id.clone()));
        proof {
            lemma_blocks_insert(b0, *blocks, block_index(*p), ActiveStreamBlock::ToolCall(id));
        }
        let name = text_or_empty(value_string(block, "name"));
        let input = match get(block, "input") {
            Some(i) => copy_json(i),
            None => {
                let e: Vec<(String, Json)> = Vec::new();
                assert(crate::json::jv_members(e@) =~= Seq::<(Seq<char>, JsonView)>::empty());
                Json::Object(e)
            },
        };
        let empty_object = match &input {
            Json::Object(ms) => ms.len() == 0,
            _ => false,
        };
        proof {
            if input is Object {
                crate::json::lemma_jv_members_index(input->Object_0@);
            }
        }
        let raw_arguments = if empty_object {
            String::new()
        } else {
            json_to_text(&input)
        };
        assert(raw_arguments@ == start_arguments_text(jv(input)));
        let call = ToolCall { id, name, arguments: input, raw_arguments: Some(raw_arguments), call_type: owned("function") };
        one(StreamAction::ToolCallStart { tool_call: call, raw: raw_of(p) })
    } else {
        one(StreamAction::ProviderEvent(copy_json(p)))
    }
}

fn block_delta(blocks: &TextMap<ActiveStreamBlock>, last_model: &Option<String>, p: &Json, delta: &Json) -> (acts: Vec<StreamAction>)
    ensures
        actions_view(acts@) == block_delta_spec(blocks_view(*blocks), opt_seq(*last_model), *p, *delta),
        no_start(acts@),
{
    let index = index_of(p);
    let t = match value_string(delta, "type") {
        Some(t) => t,
        None => return one(StreamAction::ProviderEvent(copy_json(p))),
    };
    if str_eq(t.as_str(), "text_delta") {
        match value_string(delta, "text") {
            Some(text) => {
                let text_id = match blocks.get(index.as_str()) {
                    Some(ActiveStreamBlock::Text(id)) => id.clone(),
                    _ => concat2("text_", index.as_str()),
                };
                one(StreamAction::TextDelta { text_id, delta: text, raw: raw_of(p) })
            },
            None => {
                let v: Vec<StreamAction> = Vec::new();
                assert(actions_view(v@) =~= Seq::<StreamActionView>::empty());
                v
            },
        }
    } else if str_eq(t.as_str(), "thinking_delta") {
        match value_string(delta, "thinking") {
            Some(text) => one(StreamAction::ReasoningDelta { delta: text, thinking: None, raw: raw_of(p) }),
            None => {
                let v: Vec<StreamAction> = Vec::new();
                assert(actions_view(v@) =~= Seq::<StreamActionView>::empty());
                v
            },
        }
    } else if str_eq(t.as_str(), "signature_delta") {
        match value_string(delta, "signature") {
            Some(sig) => {
                let meta = ThinkingData {
                    text: String::new(),
                    signature: Some(sig),
                    redacted: false,
                    source_provider: Some(owned("anthropic")),
                    source_model: last_source_model(last_model),
                };
                one(StreamAction::ReasoningDelta { delta: String::new(), thinking: Some(meta), raw: raw_of(p) })
            },
            None => {
                let v: Vec<StreamAction> = Vec::new();
                assert(actions_view(v@) =~= Seq::<StreamActionView>::empty());
                v
            },
        }
    } else if str_eq(t.as_str(), "input_json_delta") {
        let partial = text_or_empty(value_string(delta, "partial_json"));
        let id = match blocks.get(index.as_str()) {
            Some(ActiveStreamBlock::ToolCall(id)) => id.clone(),
            _ => concat2("toolu_", index.as_str()),
        };
        let call = ToolCall {
            id,
            name: String::new(),
            arguments: Json::Str(partial.clone()),
            raw_arguments: Some(partial),
            call_type: owned("function"),
        };
        one(StreamAction::ToolCallDelta { tool_call: call, raw: raw_of(p) })
    } else {
        one(StreamAction::ProviderEvent(copy_json(p)))
    }
}

fn block_stop(blocks: &mut TextMap<ActiveStreamBlock>, p: &Json) -> (acts: Vec<StreamAction>)
    ensures
        (blocks_view(*final(blocks)), actions_view(acts@)) == block_stop_spec(blocks_view(*old(blocks)), *p),
        no_start(acts@),
{
    let ghost b0 = *blocks;
    let index = index_of(p);
    let removed = blocks.remove(index.as_str());
    proof {
        lemma_blocks_remove(b0, *blocks, block_index(*p));
    }
    match removed {
        Some(ActiveStreamBlock::Text(id)) => one(StreamAction::TextEnd { text_id: id, raw: raw_of(p) }),
        Some(ActiveStreamBlock::Reasoning) => one(StreamAction::CloseReasoning { raw: raw_of(p) }),
        Some(ActiveStreamBlock::ToolCall(id)) => one(StreamAction::ToolCallEndById { tool_call_id: id, raw: raw_of(p) }),
        None => {
            let v = vec![
                StreamAction::CloseAllText { raw: raw_of(p) },
                StreamAction::CloseReasoning { raw: raw_of(p) },
                StreamAction::CloseAllToolCalls { raw: raw_of(p) },
            ];
            assert(actions_view(v@) =~= seq![v@[0]@, v@[1]@, v@[2]@]);
            v
        },
    }
}

fn message_delta(p: &Json, has_tool_calls: bool) -> (acts: Vec<StreamAction>)
    ensures
        actions_view(acts@) == message_delta_spec(*p, has_tool_calls),
        no_start(acts@),
{
    let mut acts: Vec<StreamAction> = Vec::new();
    assert(actions_view(acts@) =~= Seq::<StreamActionView>::empty());
    match get(p, "delta") {
        Some(d) => match value_string(d, "stop_reason") {
            Some(sr) => {
                let reason = anthropic_finish_reason(Some(sr), has_tool_calls);
                acts.push(StreamAction::SetFinishReason(reason));
            },
            None => {},
        },
        None => {},
    }
    let ghost first = actions_view(acts@);
    match get(p, "usage") {
        Some(u) => {
            let ghost before = acts@;
            acts.push(StreamAction::RecordUsage(usage_from_anthropic(Some(u))));
            assert(actions_view(acts@) =~= actions_view(before).push(acts@[acts@.len() - 1]@));
        },
        None => {},
    }
    assert(actions_view(acts@) =~= message_delta_spec(*p, has_tool_calls));
    acts
}

proof fn lemma_member_get_at(ms: Seq<(String, Json)>, key: Seq<char>, i: int)
    requires
        0 <= i <= ms.len(),
        forall|j: int| 0 <= j < i ==> (#[trigger] ms[j]).0@ != key,
        i < ms.len() ==> ms[i].0@ == key,
    ensures
        crate::json::member_get(ms, key) == if i < ms.len() {
            Some(ms[i].1)
        } else {
            None::<Json>
        },
    decreases i,
{
    if ms.len() > 0 && i > 0 {
        assert forall|j: int| 0 <= j < i - 1 implies (#[trigger] ms.drop_first()[j]).0@ != key by {
            assert(ms.drop_first()[j] == ms[j + 1]);
        }
        lemma_member_get_at(ms.drop_first(), key, i - 1);
        assert(ms[0].0@ != key);
        if i < ms.len() {
            assert(ms.drop_first()[i - 1] == ms[i]);
        }
    }
}

/// Takes the value of the first member named `key` out of an object.
pub(crate) fn take_member(v: Json, key: &str) -> (r: Option<Json>)
    ensures
        r == json_get(v, key@),
{
    match v {
        Json::Object(ms) => take_from_members(ms, key),
        _ => None,
    }
}

fn take_from_members(members: Vec<(String, Json)>, key: &str) -> (r: Option<Json>)
    ensures
        r == crate::json::member_get(members@, key@),
{
    let ghost m0 = members@;
    let mut ms = members;
    let mut i: usize = 0;
    while i < ms.len()
        invariant
            i <= ms@.len(),
            ms@ == m0,
            m0 == members@,
            forall|j: int| 0 <= j < i ==> (#[trigger] m0[j]).0@ != key@,
        decreases ms@.len() - i,
    {
        if str_eq(ms[i].0.as_str(), key) {
            proof {
                lemma_member_get_at(m0, key@, i as int);
            }
            let pair = ms.remove(i);
            return Some(pair.1);
        }
        i = i + 1;
    }
    proof {
        lemma_member_get_at(m0, key@, i as int);
    }
    None
}

pub(crate) fn failure(started: bool, e: SDKError) -> (r: StreamAction)
    ensures
        r@ == failure_view(started, err_view(e)),
{
    if started {
        StreamAction::IteratorError(e)
    } else {
        StreamAction::ReturnError(e)
    }
}

pub(crate) fn append_actions(a: Vec<StreamAction>, b: Vec<StreamAction>) -> (r: Vec<StreamAction>)
    ensures
        actions_view(r@) == actions_view(a@) + actions_view(b@),
        r@ == a@ + b@,
{
    let mut a = a;
    let mut b = b;
    let ghost av = a@;
    let ghost bv = b@;
    a.append(&mut b);
    assert(a@ =~= av + bv);
    assert(actions_view(a@) =~= actions_view(av) + actions_view(bv));
    a
}

/// None of the actions hands on a started response.
pub open spec fn no_start(acts: Seq<StreamAction>) -> bool {
    forall|i: int| 0 <= i < acts.len() ==> !(#[trigger] acts[i] is EnsureStarted)
}

fn payload_actions(
    blocks: &mut TextMap<ActiveStreamBlock>,
    ctx: &StreamContext,
    record_view: Ghost<RecordView>,
    event: String,
    payload: Json,
) -> (r: (bool, Vec<StreamAction>))
    requires
        event@ == or_empty_text(record_view@.event),
        json_get(payload, "message"@) matches Some(m) ==> anthropic_usage_fits(m),
    ensures
        (blocks_view(*final(blocks)), r.0, actions_view(r.1@)) == anthropic_payload_step(
            blocks_view(*old(blocks)),
            *ctx,
            record_view@,
            payload,
        ),
        forall|i: int|
            0 <= i < r.1@.len() ==> (#[trigger] r.1@[i] matches StreamAction::EnsureStarted { response: Some(resp), .. }
                ==> json_get(payload, "message"@) matches Some(m) && anthropic_response_spec(resp, m, ctx.rate_limit)),
{
    let event_type = if event.unicode_len() == 0 {
        text_or_empty(value_string(&payload, "type"))
    } else {
        event
    };
    assert(event_type@ == anthropic_event_type(record_view@, payload));
    let et = event_type.as_str();
    if str_eq(et, "message_start") {
        let raw = raw_of(&payload);
        let response = match take_member(payload, "message") {
            Some(m) => match translate_anthropic_messages_response(m, copy_rate_limit(&ctx.rate_limit)) {
                Ok(resp) => Some(resp),
                Err(_) => None,
            },
            None => None,
        };
        let acts = one(StreamAction::EnsureStarted { raw, response });
        (false, acts)
    } else {
        other_payload_actions(blocks, ctx, et, payload)
    }
}

fn other_payload_actions(blocks: &mut TextMap<ActiveStreamBlock>, ctx: &StreamContext, et: &str, payload: Json) -> (r: (bool, Vec<StreamAction>))
    requires
        et@ != "message_start"@,
    ensures
        (blocks_view(*final(blocks)), r.0, actions_view(r.1@)) == anthropic_payload_other(blocks_view(*old(blocks)), *ctx, et@, payload),
        no_start(r.1@),
{
    if str_eq(et, "content_block_start") {
        match get(&payload, "content_block") {
            None => (false, one(StreamAction::ProviderEvent(copy_json(&payload)))),
            Some(block) => {
                let last = &ctx.last_model;
                (false, block_start(blocks, last, &payload, block))
            },
        }
    } else if str_eq(et, "content_block_delta") {
        match get(&payload, "delta") {
            None => (false, one(StreamAction::ProviderEvent(copy_json(&payload)))),
            Some(delta) => (false, block_delta(blocks, &ctx.last_model, &payload, delta)),
        }
    } else if str_eq(et, "content_block_stop") {
        (false, block_stop(blocks, &payload))
    } else if str_eq(et, "message_delta") {
        (false, message_delta(&payload, ctx.has_tool_calls))
    } else if str_eq(et, "message_stop") {
        (true, one(StreamAction::Finish { raw: raw_of(&payload) }))
    } else if str_eq(et, "error") {
        let error = provider_payload_error("anthropic", &payload);
        assert(err_view(error) == payload_error_view(payload));
        (true, one(StreamAction::PushError { error, raw: raw_of(&payload) }))
    } else {
        (false, one(StreamAction::ProviderEvent(copy_json(&payload))))
    }
}

impl AnthropicStreamTranslator {
    /// What the end of the input asks of the stream: nothing once it has
    /// ended; else it finishes with the payloads kept so far.
    pub fn finish_eof(&mut self, ctx: &StreamContext) -> (actions: Vec<StreamAction>)
        ensures
            final(self).finished,
            actions_view(actions@) == if old(self).finished {
                Seq::<StreamActionView>::empty()
            } else {
                seq![StreamActionView::Finish { raw: stream_raw_spec(jv_items(ctx.raw_payloads@)) }]
            },
            final(self).active_blocks.as_map() == old(self).active_blocks.as_map(),
    {
        if self.finished {
            let v: Vec<StreamAction> = Vec::new();
            assert(actions_view(v@) =~= Seq::<StreamActionView>::empty());
            return v;
        }
        self.finished = true;
        one(StreamAction::Finish { raw: stream_raw_payload(&ctx.raw_payloads) })
    }

    /// A reading of a stream that has just begun.
    pub fn new() -> (r: Self)
        ensures
            r@.blocks == Map::<Seq<char>, BlockView>::empty(),
            !r@.finished,
    {
        let t = AnthropicStreamTranslator { active_blocks: TextMap::new(), finished: false };
        assert(blocks_view(t.active_blocks) =~= Map::<Seq<char>, BlockView>::empty());
        t
    }

    /// What one item of the stream asks of the stream it feeds.
    pub fn apply(&mut self, ctx: &StreamContext, item: Result<ProviderStreamRecord, SDKError>) -> (actions: Vec<StreamAction>)
        requires
            anthropic_item_fits(item),
        ensures
            (final(self)@, actions_view(actions@)) == anthropic_stream_step(old(self)@, *ctx, item),
            started_responses_ok(actions@, item, *ctx),
    {
        if self.finished {
            let v: Vec<StreamAction> = Vec::new();
            assert(actions_view(v@) =~= Seq::<StreamActionView>::empty());
            return v;
        }
        let record = match item {
            Ok(r) => r,
            Err(e) => {
                self.finished = true;
                return one(failure(ctx.started, e));
            },
        };
        if record.done {
            self.finished = true;
            return one(StreamAction::Finish { raw: stream_raw_payload(&ctx.raw_payloads) });
        }
        let ghost rv = record@;
        let ghost rec = record;
        let event = match &record.event {
            Some(e) => e.clone(),
            None => String::new(),
        };
        let payload = match stream_record_payload("anthropic", record) {
            Ok(p) => p,
            Err(e) => {
                self.finished = true;
                return one(failure(ctx.started, e));
            },
        };
        let first = one(StreamAction::RecordPayload(copy_json(&payload)));
        let (finished, rest) = payload_actions(&mut self.active_blocks, ctx, Ghost(rv), event, payload);
        self.finished = finished;
        let acts = append_actions(first, rest);
        proof {
            assert forall|i: int| 0 <= i < acts@.len() implies (#[trigger] acts@[i] matches StreamAction::EnsureStarted {
                response: Some(r),
                ..
            } ==> item matches Ok(rec) && rec.payload matches Some(p) && json_get(p, "message"@) matches Some(m)
                && anthropic_response_spec(r, m, ctx.rate_limit)) by {
                if i > 0 {
                    assert(acts@[i] == rest@[i - 1]);
                } else {
                    assert(acts@[0] == first@[0]);
                }
            }
        }
        acts
    }
}

// ----- laws -----
/// Once a stream has ended, its reader asks nothing more and stays as it is.
pub proof fn lemma_anthropic_finished_stays(st: AnthropicStreamView, ctx: StreamContext, item: Result<ProviderStreamRecord, SDKError>)
    requires
        st.finished,
    ensures
        anthropic_stream_step(st, ctx, item) == (st, Seq::<StreamActionView>::empty()),
{
}

/// A block that starts under an index is the block that a stop of that
/// index closes: a text block ends its text, a tool-use block ends its call.
pub proof fn lemma_started_block_is_stopped(blocks: Map<Seq<char>, BlockView>, last_model: Option<Seq<char>>, p: Json, block: Json, q: Json)
    requires
        block_index(p) == block_index(q),
    ensures
        ({
            let b = block_start_spec(blocks, last_model, p, block).0;
            let block_type = or_empty_text(value_string_spec(block, "type"@));
            let closing = block_stop_spec(b, q).1;
            &&& block_type == "text"@ ==> closing == seq![
                StreamActionView::TextEnd { text_id: "text_"@ + block_index(p), raw: Some(jv(q)) },
            ]
            &&& block_type == "tool_use"@ ==> closing == seq![
                StreamActionView::ToolCallEndById {
                    tool_call_id: match value_string_spec(block, "id"@) {
                        Some(i) => i,
                        None => "toolu_"@ + block_index(p),
                    },
                    raw: Some(jv(q)),
                },
            ]
            &&& block_stop_spec(b, q).0 == b.remove(block_index(q))
        }),
{
    reveal_strlit("text");
    reveal_strlit("tool_use");
    reveal_strlit("thinking");
    reveal_strlit("redacted_thinking");
    let k = block_index(p);
    let b = block_start_spec(blocks, last_model, p, block).0;
    let bt = or_empty_text(value_string_spec(block, "type"@));
    if bt == "text"@ {
        assert(b == blocks.insert(k, BlockView::Text("text_"@ + k)));
        assert(b.dom().contains(k) && b[k] == BlockView::Text("text_"@ + k));
        assert(b.get(k) == Some(BlockView::Text("text_"@ + k)));
    } else if bt == "tool_use"@ {
        assert(("tool_use"@)[1] != ("thinking"@)[1]);
        assert(("tool_use"@).len() != ("redacted_thinking"@).len());
        assert(("tool_use"@).len() != ("text"@).len());
        assert(bt != "thinking"@ && bt != "redacted_thinking"@ && bt != "text"@);
        let id = match value_string_spec(block, "id"@) {
            Some(i) => i,
            None => "toolu_"@ + k,
        };
        assert(b == blocks.insert(k, BlockView::ToolCall(id)));
        assert(b.get(k) == Some(BlockView::ToolCall(id)));
    }
}

/// A thinking delta streams its `thinking` text: an Anthropic
/// `content_block_delta` whose delta has type `thinking_delta` and a string
/// `thinking` member asks, after keeping the payload, for exactly one
/// reasoning delta carrying that text, whatever blocks are open.
pub proof fn lemma_thinking_delta_streams_thinking_text(
    st: AnthropicStreamView,
    ctx: StreamContext,
    rec: ProviderStreamRecord,
    p: Json,
    d: Json,
    t: Seq<char>,
)
    requires
        !st.finished,
        !rec.done,
        rec.payload == Some(p),
        anthropic_event_type(rec@, p) == "content_block_delta"@,
        json_get(p, "delta"@) == Some(d),
        value_string_spec(d, "type"@) == Some("thinking_delta"@),
        value_string_spec(d, "thinking"@) == Some(t),
    ensures
        anthropic_stream_step(st, ctx, Ok(rec)) == (
            st,
            seq![
                StreamActionView::RecordPayload(jv(p)),
                StreamActionView::ReasoningDelta { delta: t, thinking: None, raw: Some(jv(p)) },
            ],
        ),
{
    reveal_strlit("content_block_delta");
    reveal_strlit("content_block_start");
    reveal_strlit("content_block_stop");
    reveal_strlit("message_start");
    reveal_strlit("thinking_delta");
    reveal_strlit("text_delta");
    assert(("content_block_delta"@)[14] != ("content_block_start"@)[14]);
    assert(("content_block_delta"@).len() != ("content_block_stop"@).len());
    assert(("content_block_delta"@).len() != ("message_start"@).len());
    assert(("thinking_delta"@).len() != ("text_delta"@).len());
    let acts = seq![StreamActionView::ReasoningDelta { delta: t, thinking: None, raw: Some(jv(p)) }];
    assert(block_delta_spec(st.blocks, opt_seq(ctx.last_model), p, d) == acts);
    assert(seq![StreamActionView::RecordPayload(jv(p))] + acts =~= seq![
        StreamActionView::RecordPayload(jv(p)),
        StreamActionView::ReasoningDelta { delta: t, thinking: None, raw: Some(jv(p)) },
    ]);
}

/// A text delta streams its `text` into the text block of its index (or
/// the block `text_<index>` when none is open there), and an input-JSON
/// delta streams its `partial_json` as arguments text of the tool call of
/// its index (or `toolu_<index>`).
pub proof fn lemma_text_and_argument_deltas(
    blocks: Map<Seq<char>, BlockView>,
    last_model: Option<Seq<char>>,
    p: Json,
    d: Json,
    t: Seq<char>,
)
    ensures
        value_string_spec(d, "type"@) == Some("text_delta"@) && value_string_spec(d, "text"@) == Some(t) ==> block_delta_spec(
            blocks,
            last_model,
            p,
            d,
        ) == seq![
            StreamActionView::TextDelta {
                text_id: match blocks.get(block_index(p)) {
                    Some(BlockView::Text(id)) => id,
                    _ => "text_"@ + block_index(p),
                },
                delta: t,
                raw: Some(jv(p)),
            },
        ],
        value_string_spec(d, "type"@) == Some("input_json_delta"@) && value_string_spec(d, "partial_json"@) == Some(t)
            ==> block_delta_spec(blocks, last_model, p, d) == seq![
            StreamActionView::ToolCallDelta {
                tool_call: ToolCallView {
                    id: match blocks.get(block_index(p)) {
                        Some(BlockView::ToolCall(id)) => id,
                        _ => "toolu_"@ + block_index(p),
                    },
                    name: Seq::empty(),
                    arguments: JsonView::Str(t),
                    raw_arguments: Some(t),
                    call_type: "function"@,
                },
                raw: Some(jv(p)),
            },
        ],
{
    reveal_strlit("text_delta");
    reveal_strlit("thinking_delta");
    reveal_strlit("signature_delta");
    reveal_strlit("input_json_delta");
    assert(("text_delta"@).len() != ("thinking_delta"@).len());
    assert(("text_delta"@).len() != ("signature_delta"@).len());
    assert(("text_delta"@).len() != ("input_json_delta"@).len());
    assert(("input_json_delta"@).len() != ("thinking_delta"@).len());
    assert(("input_json_delta"@).len() != ("signature_delta"@).len());
}

} // verus!
