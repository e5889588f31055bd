//! What a provider stream translator asks of the stream it feeds: the
//! actions it takes on one record (open, extend and close text, reasoning
//! and tool-call blocks; record usage and the finish reason; finish or
//! fail), and the record readings the translators share.
use vstd::prelude::*;
use crate::errors::{SDKError, SDKErrorKind, SDKErrorView, default_retryable_spec};
use crate::gemini::decimal_text;
use crate::gemini_body::u64_text;
use crate::json::{Json, JsonView, get, json_get, jv, jv_members};
use crate::request::{FinishReason, FinishReasonKind, RateLimitInfo, ThinkingData, ThinkingView, ToolCall, ToolCallView};
use crate::sse::{ProviderStreamRecord, RecordView};
use crate::text::{concat2, opt_seq, owned};
use crate::tool_merge::{insert_member, members_insert};
use crate::usage::{Usage, UsageView};

verus! {

// ----- actions -----
/// One thing a translator does with the stream it feeds, in the order it
/// does them.
#[derive(Debug)]
pub enum StreamAction {
    /// The stream failed before it started: the error is handed out as it is.
    ReturnError(SDKError),
    /// The stream failed after it started: the error follows its events.
    IteratorError(SDKError),
    /// The stream ends, with the raw payload of its end.
    Finish { raw: Option<Json> },
    /// A payload is kept among the stream's raw payloads.
    RecordPayload(Json),
    /// The stream starts, if it has not, with the response known so far.
    EnsureStarted { raw: Option<Json>, response: Option<crate::request::Response> },
    /// A payload passed through as a provider event.
    ProviderEvent(Json),
    TextStart { text_id: String, raw: Option<Json> },
    TextDelta { text_id: String, delta: String, raw: Option<Json> },
    TextEnd { text_id: String, raw: Option<Json> },
    ReasoningStart { thinking: Option<ThinkingData>, raw: Option<Json> },
    ReasoningDelta { delta: String, thinking: Option<ThinkingData>, raw: Option<Json> },
    ToolCallStart { tool_call: ToolCall, raw: Option<Json> },
    ToolCallDelta { tool_call: ToolCall, raw: Option<Json> },
    ToolCallEnd { final_call: Option<ToolCall>, raw: Option<Json> },
    ToolCallEndById { tool_call_id: String, raw: Option<Json> },
    CloseReasoning { raw: Option<Json> },
    CloseAllText { raw: Option<Json> },
    CloseAllToolCalls { raw: Option<Json> },
    SetFinishReason(FinishReason),
    RecordUsage(Usage),
    /// The stream fails with an error event.
    PushError { error: SDKError, raw: Option<Json> },
    /// Text arrives for the block of this id, or for the one text block open.
    TextDeltaFor { text_id: Option<String>, delta: String, raw: Option<Json> },
    /// The text block of this id, or the one open, closes with its whole text.
    TextEndWith { text_id: Option<String>, text: Option<String>, raw: Option<Json> },
    /// The stream completes with the provider's final response: its finish
    /// reason and usage are recorded, and the stream finishes.
    Complete { response: crate::request::Response, raw: Option<Json> },
    /// A response so far: its finish reason and usage are recorded, it is
    /// kept as the last response, and the stream starts with it if it has not.
    Progress { response: crate::request::Response, raw: Option<Json> },
    /// The text block of this id closes, if it is open.
    TextEndIfOpen { text_id: String, raw: Option<Json> },
}

/// An action as values. Of a response an action carries, the view keeps
/// only whether it is there; the readers' contracts say separately which
/// translation it is.
pub enum StreamActionView {
    ReturnError(ErrorView),
    IteratorError(ErrorView),
    Finish { raw: Option<JsonView> },
    RecordPayload(JsonView),
    EnsureStarted { raw: Option<JsonView>, has_response: bool },
    ProviderEvent(JsonView),
    TextStart { text_id: Seq<char>, raw: Option<JsonView> },
    TextDelta { text_id: Seq<char>, delta: Seq<char>, raw: Option<JsonView> },
    TextEnd { text_id: Seq<char>, raw: Option<JsonView> },
    ReasoningStart { thinking: Option<ThinkingView>, raw: Option<JsonView> },
    ReasoningDelta { delta: Seq<char>, thinking: Option<ThinkingView>, raw: Option<JsonView> },
    ToolCallStart { tool_call: ToolCallView, raw: Option<JsonView> },
    ToolCallDelta { tool_call: ToolCallView, raw: Option<JsonView> },
    ToolCallEnd { final_call: Option<ToolCallView>, raw: Option<JsonView> },
    ToolCallEndById { tool_call_id: Seq<char>, raw: Option<JsonView> },
    CloseReasoning { raw: Option<JsonView> },
    CloseAllText { raw: Option<JsonView> },
    CloseAllToolCalls { raw: Option<JsonView> },
    SetFinishReason(FinishReasonKind, Option<Seq<char>>),
    RecordUsage(UsageView),
    PushError { error: ErrorView, raw: Option<JsonView> },
    TextDeltaFor { text_id: Option<Seq<char>>, delta: Seq<char>, raw: Option<JsonView> },
    TextEndWith { text_id: Option<Seq<char>>, text: Option<Seq<char>>, raw: Option<JsonView> },
    Complete { raw: Option<JsonView> },
    Progress { raw: Option<JsonView> },
    TextEndIfOpen { text_id: Seq<char>, raw: Option<JsonView> },
}

/// An error as values: its fields, and its raw details as a value.
pub struct ErrorView {
    pub fields: SDKErrorView,
    pub raw: Option<JsonView>,
}

pub open spec fn err_view(e: SDKError) -> ErrorView {
    ErrorView { fields: SDKErrorView { raw: None, ..e@ }, raw: opt_jv(e.raw) }
}

/// An error's values as the error an action carries.
pub open spec fn error_view_of(e: SDKErrorView) -> ErrorView {
    ErrorView { fields: SDKErrorView { raw: None, ..e }, raw: opt_jv(e.raw) }
}

/// The first of two texts that is there.
pub open spec fn first_text(a: Option<Seq<char>>, b: Option<Seq<char>>) -> Option<Seq<char>> {
    match a {
        Some(t) => Some(t),
        None => b,
    }
}

/// The first of two texts that is there.
pub fn either_text(a: Option<String>, b: Option<String>) -> (r: Option<String>)
    ensures
        opt_seq(r) == first_text(opt_seq(a), opt_seq(b)),
{
    match a {
        Some(t) => Some(t),
        None => b,
    }
}

pub open spec fn opt_jv(o: Option<Json>) -> Option<JsonView> {
    match o {
        Some(v) => Some(jv(v)),
        None => None,
    }
}

pub open spec fn opt_thinking_view(o: Option<ThinkingData>) -> Option<ThinkingView> {
    match o {
        Some(t) => Some(t@),
        None => None,
    }
}

impl View for StreamAction {
    type V = StreamActionView;

    open spec fn view(&self) -> StreamActionView {
        match self {
            StreamAction::ReturnError(e) => StreamActionView::ReturnError(err_view(*e)),
            StreamAction::IteratorError(e) => StreamActionView::IteratorError(err_view(*e)),
            StreamAction::Finish { raw } => StreamActionView::Finish { raw: opt_jv(*raw) },
            StreamAction::RecordPayload(p) => StreamActionView::RecordPayload(jv(*p)),
            StreamAction::EnsureStarted { raw, response } => StreamActionView::EnsureStarted {
                raw: opt_jv(*raw),
                has_response: response is Some,
            },
            StreamAction::ProviderEvent(p) => StreamActionView::ProviderEvent(jv(*p)),
            StreamAction::TextStart { text_id, raw } => StreamActionView::TextStart { text_id: text_id@, raw: opt_jv(*raw) },
            StreamAction::TextDelta { text_id, delta, raw } => StreamActionView::TextDelta {
                text_id: text_id@,
                delta: delta@,
                raw: opt_jv(*raw),
            },
            StreamAction::TextEnd { text_id, raw } => StreamActionView::TextEnd { text_id: text_id@, raw: opt_jv(*raw) },
            StreamAction::ReasoningStart { thinking, raw } => StreamActionView::ReasoningStart {
                thinking: opt_thinking_view(*thinking),
                raw: opt_jv(*raw),
            },
            StreamAction::ReasoningDelta { delta, thinking, raw } => StreamActionView::ReasoningDelta {
                delta: delta@,
                thinking: opt_thinking_view(*thinking),
                raw: opt_jv(*raw),
            },
            StreamAction::ToolCallStart { tool_call, raw } => StreamActionView::ToolCallStart {
                tool_call: tool_call@,
                raw: opt_jv(*raw),
            },
            StreamAction::ToolCallDelta { tool_call, raw } => StreamActionView::ToolCallDelta {
                tool_call: tool_call@,
                raw: opt_jv(*raw),
            },
            StreamAction::ToolCallEnd { final_call, raw } => StreamActionView::ToolCallEnd {
                final_call: match final_call {
                    Some(c) => Some(c@),
                    None => None,
                },
                raw: opt_jv(*raw),
            },
            StreamAction::ToolCallEndById { tool_call_id, raw } => StreamActionView::ToolCallEndById {
                tool_call_id: tool_call_id@,
                raw: opt_jv(*raw),
            },
            StreamAction::CloseReasoning { raw } => StreamActionView::CloseReasoning { raw: opt_jv(*raw) },
            StreamAction::CloseAllText { raw } => StreamActionView::CloseAllText { raw: opt_jv(*raw) },
            StreamAction::CloseAllToolCalls { raw } => StreamActionView::CloseAllToolCalls { raw: opt_jv(*raw) },
            StreamAction::SetFinishReason(r) => StreamActionView::SetFinishReason(r.reason, opt_seq(r.raw)),
            StreamAction::RecordUsage(u) => StreamActionView::RecordUsage(u@),
            StreamAction::PushError { error, raw } => StreamActionView::PushError { error: err_view(*error), raw: opt_jv(*raw) },
            StreamAction::TextDeltaFor { text_id, delta, raw } => StreamActionView::TextDeltaFor {
                text_id: opt_seq(*text_id),
                delta: delta@,
                raw: opt_jv(*raw),
            },
            StreamAction::TextEndWith { text_id, text, raw } => StreamActionView::TextEndWith {
                text_id: opt_seq(*text_id),
                text: opt_seq(*text),
                raw: opt_jv(*raw),
            },
            StreamAction::Complete { raw, .. } => StreamActionView::Complete { raw: opt_jv(*raw) },
            StreamAction::Progress { raw, .. } => StreamActionView::Progress { raw: opt_jv(*raw) },
            StreamAction::TextEndIfOpen { text_id, raw } => StreamActionView::TextEndIfOpen { text_id: text_id@, raw: opt_jv(*raw) },
        }
    }
}

pub open spec fn actions_view(s: Seq<StreamAction>) -> Seq<StreamActionView> {
    s.map_values(|a: StreamAction| a@)
}

// ----- what the stream reports to its translator -----
/// What a translator reads of the stream it feeds: whether it has started,
/// the payloads kept so far, the rate limits of the response headers, the
/// model of the last response, and whether any tool call has been seen.
#[derive(Debug)]
pub struct StreamContext {
    pub started: bool,
    pub raw_payloads: Vec<Json>,
    pub rate_limit: Option<RateLimitInfo>,
    pub last_model: Option<String>,
    pub has_tool_calls: bool,
}

// ----- reading records -----
/// The text a member holds, if it holds a string (`value_string`).
pub open spec fn value_string_spec(v: Json, key: Seq<char>) -> Option<Seq<char>> {
    match json_get(v, key) {
        Some(Json::Str(s)) => Some(s@),
        _ => None,
    }
}

/// The text a member holds, if it holds a string.
pub fn value_string(v: &Json, key: &str) -> (r: Option<String>)
    ensures
        opt_seq(r) == value_string_spec(*v, key@),
{
    match get(v, key) {
        Some(Json::Str(s)) => Some(s.clone()),
        _ => None,
    }
}

/// Whether a number's text is an integer: digits, after an optional minus.
pub open spec fn is_integer_text(t: Seq<char>) -> bool {
    let digits = integer_digits(t);
    digits.len() > 0 && forall|i: int| 0 <= i < digits.len() ==> is_decimal_digit(#[trigger] digits[i])
}

/// The text after an optional leading minus.
pub open spec fn integer_digits(t: Seq<char>) -> Seq<char> {
    if t.len() > 0 && t[0] == '-' {
        t.drop_first()
    } else {
        t
    }
}

pub open spec fn is_decimal_digit(c: char) -> bool {
    '0' <= c && c <= '9'
}

/// An identifier a member holds: a string, or an integer written as its
/// digits (`value_identifier`).
pub open spec fn value_identifier_spec(v: Json, key: Seq<char>) -> Option<Seq<char>> {
    match json_get(v, key) {
        Some(Json::Str(s)) => Some(s@),
        Some(Json::Number(t)) => if is_integer_text(t@) {
            Some(t@)
        } else {
            None
        },
        _ => None,
    }
}

fn integer_text(t: &String) -> (r: bool)
    ensures
        r == is_integer_text(t@),
{
    let cs = crate::text::chars_of(t.as_str());
    let start: usize = if cs.len() > 0 && cs[0] == '-' { 1 } else { 0 };
    let ghost digits = integer_digits(t@);
    assert(cs@ == t@);
    assert(digits =~= cs@.subrange(start as int, cs@.len() as int));
    if start >= cs.len() {
        assert(digits.len() == 0);
        return false;
    }
    let mut i: usize = start;
    while i < cs.len()
        invariant
            start <= i <= cs@.len(),
            cs@ == t@,
            start == (if t@.len() > 0 && t@[0] == '-' { 1usize } else { 0usize }),
            digits == cs@.subrange(start as int, cs@.len() as int),
            forall|j: int| start <= j < i ==> is_decimal_digit(#[trigger] cs@[j]),
        decreases cs@.len() - i,
    {
        if !('0' <= cs[i] && cs[i] <= '9') {
            assert(digits[i - start] == cs@[i as int]);
            assert(!is_decimal_digit(digits[i - start]));
            assert(!is_integer_text(t@));
            return false;
        }
        i = i + 1;
    }
    assert forall|j: int| 0 <= j < digits.len() implies is_decimal_digit(#[trigger] digits[j]) by {
        assert(digits[j] == cs@[j + start]);
    }
    true
}

/// An identifier a member holds.
pub fn value_identifier(v: &Json, key: &str) -> (r: Option<String>)
    ensures
        opt_seq(r) == value_identifier_spec(*v, key@),
{
    match get(v, key) {
        Some(Json::Str(s)) => Some(s.clone()),
        Some(Json::Number(t)) => if integer_text(t) {
            Some(t.clone())
        } else {
            None
        },
        _ => None,
    }
}

/// The raw form of a record that holds no payload, as the record serializes.
pub open spec fn record_raw_spec(r: RecordView) -> JsonView {
    let m1 = members_insert(Seq::empty(), "data"@, JsonView::Str(r.data));
    let m2 = members_insert(m1, "done"@, JsonView::Bool(r.done));
    let m3 = match r.event {
        Some(e) => members_insert(m2, "event"@, JsonView::Str(e)),
        None => m2,
    };
    let m4 = match r.json_event {
        Some(e) => members_insert(m3, "json_event"@, JsonView::Str(e)),
        None => m3,
    };
    let m5 = match r.payload_error {
        Some((message, raw)) => members_insert(
            m4,
            "payload_error"@,
            JsonView::Object(
                members_insert(
                    members_insert(Seq::empty(), "message"@, JsonView::Str(message)),
                    "raw"@,
                    JsonView::Str(raw),
                ),
            ),
        ),
        None => m4,
    };
    let m6 = match r.retry {
        Some(n) => members_insert(m5, "retry"@, JsonView::Number(decimal_text(n as nat))),
        None => m5,
    };
    let m7 = match r.sse_event {
        Some(e) => members_insert(m6, "sse_event"@, JsonView::Str(e)),
        None => m6,
    };
    JsonView::Object(m7)
}

/// The error of a record without a payload: the parser's message when the
/// data was malformed, a fixed text otherwise, carrying the record.
pub open spec fn record_payload_error_message(r: RecordView) -> Seq<char> {
    match r.payload_error {
        Some((message, _)) => "Malformed provider stream payload: "@ + message,
        None => "Provider stream event did not contain a JSON payload"@,
    }
}

/// The payload of a record, or the stream error of a record without one.
pub open spec fn record_payload_spec(provider: Seq<char>, r: RecordView) -> Result<JsonView, SDKErrorView> {
    match r.payload {
        Some(p) => Ok(jv(p)),
        None => Err(
            SDKErrorView {
                kind: SDKErrorKind::Stream,
                message: record_payload_error_message(r),
                provider: Some(provider),
                status_code: None,
                error_code: None,
                retryable: default_retryable_spec(SDKErrorKind::Stream),
                raw: None,
            },
        ),
    }
}

fn string_member(members: &mut Vec<(String, Json)>, key: &str, value: &Option<String>)
    ensures
        jv_members(final(members)@) == match opt_seq(*value) {
            Some(s) => members_insert(jv_members(old(members)@), key@, JsonView::Str(s)),
            None => jv_members(old(members)@),
        },
{
    match value {
        Some(s) => insert_member(members, owned(key), Json::Str(s.clone())),
        None => {},
    }
}

fn record_raw(record: &ProviderStreamRecord) -> (r: Json)
    ensures
        jv(r) == record_raw_spec(record@),
{
    let mut m: Vec<(String, Json)> = Vec::new();
    assert(jv_members(m@) =~= Seq::<(Seq<char>, JsonView)>::empty());
    insert_member(&mut m, owned("data"), Json::Str(record.data.clone()));
    insert_member(&mut m, owned("done"), Json::Bool(record.done));
    string_member(&mut m, "event", &record.event);
    string_member(&mut m, "json_event", &record.json_event);
    match &record.payload_error {
        Some(e) => {
            let mut pe: Vec<(String, Json)> = Vec::new();
            assert(jv_members(pe@) =~= Seq::<(Seq<char>, JsonView)>::empty());
            insert_member(&mut pe, owned("message"), Json::Str(e.message.clone()));
            insert_member(&mut pe, owned("raw"), Json::Str(e.raw.clone()));
            insert_member(&mut m, owned("payload_error"), Json::Object(pe));
        },
        None => {},
    }
    match record.retry {
        Some(n) => insert_member(&mut m, owned("retry"), Json::Number(u64_text(n))),
        None => {},
    }
    string_member(&mut m, "sse_event", &record.sse_event);
    Json::Object(m)
}

/// The payload of a record, or the stream error of a record without one,
/// carrying the record as it serializes.
pub fn stream_record_payload(provider: &str, record: ProviderStreamRecord) -> (r: Result<Json, SDKError>)
    ensures
        match r {
            Ok(p) => record_payload_spec(provider@, record@) == Ok::<JsonView, SDKErrorView>(jv(p)) && record.payload == Some(p),
            Err(e) => record_payload_spec(provider@, record@) == Err::<JsonView, SDKErrorView>(
                SDKErrorView { raw: None, ..e@ },
            ) && (e.raw matches Some(raw) && jv(raw) == record_raw_spec(record@)),
        },
{
    let raw = record_raw(&record);
    match record.payload {
        Some(p) => Ok(p),
        None => {
            let message = match &record.payload_error {
                Some(e) => concat2("Malformed provider stream payload: ", e.message.as_str()),
                None => owned("Provider stream event did not contain a JSON payload"),
            };
            let mut error = SDKError::provider(SDKErrorKind::Stream, message, Some(owned(provider)));
            error.raw = Some(raw);
            Err(error)
        },
    }
}

/// A copy of rate-limit figures.
pub fn copy_rate_limit(r: &Option<RateLimitInfo>) -> (c: Option<RateLimitInfo>)
    ensures
        c == *r,
{
    match r {
        Some(x) => Some(
            RateLimitInfo {
                requests_remaining: x.requests_remaining,
                requests_limit: x.requests_limit,
                tokens_remaining: x.tokens_remaining,
                tokens_limit: x.tokens_limit,
                reset_at: match &x.reset_at {
                    Some(s) => Some(s.clone()),
                    None => None,
                },
            },
        ),
        None => None,
    }
}

} // verus!
