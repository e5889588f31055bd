//! Stream events: what a streaming generation reports, one event at a time.
use vstd::prelude::*;
use crate::errors::SDKError;
use crate::json::Json;
use crate::request::{FinishReason, Response, ThinkingData, ToolCall};
use crate::text::{owned, str_eq};
use crate::usage::Usage;

verus! {

/// The type of a stream event; other types keep their name.
#[derive(Debug)]
pub enum StreamEventType {
    StreamStart,
    TextStart,
    TextDelta,
    TextEnd,
    ReasoningStart,
    ReasoningDelta,
    ReasoningEnd,
    ToolCallStart,
    ToolCallDelta,
    ToolCallEnd,
    Finish,
    Error,
    ProviderEvent,
    Custom(String),
}

/// The name of an event type.
pub open spec fn event_type_name(t: StreamEventType) -> Seq<char> {
    match t {
        StreamEventType::StreamStart => "stream_start"@,
        StreamEventType::TextStart => "text_start"@,
        StreamEventType::TextDelta => "text_delta"@,
        StreamEventType::TextEnd => "text_end"@,
        StreamEventType::ReasoningStart => "reasoning_start"@,
        StreamEventType::ReasoningDelta => "reasoning_delta"@,
        StreamEventType::ReasoningEnd => "reasoning_end"@,
        StreamEventType::ToolCallStart => "tool_call_start"@,
        StreamEventType::ToolCallDelta => "tool_call_delta"@,
        StreamEventType::ToolCallEnd => "tool_call_end"@,
        StreamEventType::Finish => "finish"@,
        StreamEventType::Error => "error"@,
        StreamEventType::ProviderEvent => "provider_event"@,
        StreamEventType::Custom(s) => s@,
    }
}

/// The event type a name reads as: a built-in type, or a custom one.
pub open spec fn event_type_from(s: Seq<char>, t: StreamEventType) -> bool {
    if s == "stream_start"@ {
        t is StreamStart
    } else if s == "text_start"@ {
        t is TextStart
    } else if s == "text_delta"@ {
        t is TextDelta
    } else if s == "text_end"@ {
        t is TextEnd
    } else if s == "reasoning_start"@ {
        t is ReasoningStart
    } else if s == "reasoning_delta"@ {
        t is ReasoningDelta
    } else if s == "reasoning_end"@ {
        t is ReasoningEnd
    } else if s == "tool_call_start"@ {
        t is ToolCallStart
    } else if s == "tool_call_delta"@ {
        t is ToolCallDelta
    } else if s == "tool_call_end"@ {
        t is ToolCallEnd
    } else if s == "finish"@ {
        t is Finish
    } else if s == "error"@ {
        t is Error
    } else if s == "provider_event"@ {
        t is ProviderEvent
    } else {
        t matches StreamEventType::Custom(c) && c@ == s
    }
}

impl StreamEventType {
    /// The event type's name.
    pub fn as_str(&self) -> (r: &str)
        ensures
            r@ == event_type_name(*self),
    {
        match self {
            StreamEventType::StreamStart => "stream_start",
            StreamEventType::TextStart => "text_start",
            StreamEventType::TextDelta => "text_delta",
            StreamEventType::TextEnd => "text_end",
            StreamEventType::ReasoningStart => "reasoning_start",
            StreamEventType::ReasoningDelta => "reasoning_delta",
            StreamEventType::ReasoningEnd => "reasoning_end",
            StreamEventType::ToolCallStart => "tool_call_start",
            StreamEventType::ToolCallDelta => "tool_call_delta",
            StreamEventType::ToolCallEnd => "tool_call_end",
            StreamEventType::Finish => "finish",
            StreamEventType::Error => "error",
            StreamEventType::ProviderEvent => "provider_event",
            StreamEventType::Custom(t) => t.as_str(),
        }
    }

    /// The event type a name reads as.
    pub fn from_type(event_type: &str) -> (r: Self)
        ensures
            event_type_from(event_type@, r),
    {
        if str_eq(event_type, "stream_start") {
            StreamEventType::StreamStart
        } else if str_eq(event_type, "text_start") {
            StreamEventType::TextStart
        } else if str_eq(event_type, "text_delta") {
            StreamEventType::TextDelta
        } else if str_eq(event_type, "text_end") {
            StreamEventType::TextEnd
        } else if str_eq(event_type, "reasoning_start") {
            StreamEventType::ReasoningStart
        } else if str_eq(event_type, "reasoning_delta") {
            StreamEventType::ReasoningDelta
        } else if str_eq(event_type, "reasoning_end") {
            StreamEventType::ReasoningEnd
        } else if str_eq(event_type, "tool_call_start") {
            StreamEventType::ToolCallStart
        } else if str_eq(event_type, "tool_call_delta") {
            StreamEventType::ToolCallDelta
        } else if str_eq(event_type, "tool_call_end") {
            StreamEventType::ToolCallEnd
        } else if str_eq(event_type, "finish") {
            StreamEventType::Finish
        } else if str_eq(event_type, "error") {
            StreamEventType::Error
        } else if str_eq(event_type, "provider_event") {
            StreamEventType::ProviderEvent
        } else {
            StreamEventType::Custom(owned(event_type))
        }
    }
}

/// Any name reads as an event type whose name it is: a type read from a
/// name writes that name back.
pub proof fn lemma_event_type_name_round_trip(s: Seq<char>, t: StreamEventType)
    requires
        event_type_from(s, t),
    ensures
        event_type_name(t) == s,
{
}

/// One event of a stream.
#[derive(Debug)]
pub struct StreamEvent {
    pub event_type: StreamEventType,
    pub delta: Option<String>,
    pub text_id: Option<String>,
    pub reasoning_delta: Option<String>,
    pub thinking: Option<ThinkingData>,
    pub tool_call: Option<ToolCall>,
    pub finish_reason: Option<FinishReason>,
    pub usage: Option<Usage>,
    pub response: Option<Response>,
    pub error: Option<SDKError>,
    pub raw: Option<Json>,
}

/// An event of a type with nothing else set.
pub open spec fn bare_event(e: StreamEvent) -> bool {
    &&& e.delta is None
    &&& e.text_id is None
    &&& e.reasoning_delta is None
    &&& e.thinking is None
    &&& e.tool_call is None
    &&& e.finish_reason is None
    &&& e.usage is None
    &&& e.response is None
    &&& e.error is None
    &&& e.raw is None
}

impl StreamEvent {
    /// An event of a type with nothing else set.
    pub fn new(event_type: StreamEventType) -> (r: Self)
        ensures
            r.event_type == event_type,
            bare_event(r),
    {
        StreamEvent {
            event_type,
            delta: None,
            text_id: None,
            reasoning_delta: None,
            thinking: None,
            tool_call: None,
            finish_reason: None,
            usage: None,
            response: None,
            error: None,
            raw: None,
        }
    }

    /// A text delta.
    pub fn text_delta(text: String) -> (r: Self)
        ensures
            r.event_type is TextDelta,
            r.delta == Some(text),
            bare_event(StreamEvent { delta: None, ..r }),
    {
        let mut e = StreamEvent::new(StreamEventType::TextDelta);
        e.delta = Some(text);
        e
    }

    /// The end of a generation.
    pub fn finish(reason: FinishReason, usage: Option<Usage>) -> (r: Self)
        ensures
            r.event_type is Finish,
            r.finish_reason == Some(reason),
            r.usage == usage,
            bare_event(StreamEvent { finish_reason: None, usage: None, ..r }),
    {
        let mut e = StreamEvent::new(StreamEventType::Finish);
        e.finish_reason = Some(reason);
        e.usage = usage;
        e
    }

    /// A reasoning delta.
    pub fn reasoning_delta(text: String) -> (r: Self)
        ensures
            r.event_type is ReasoningDelta,
            r.reasoning_delta == Some(text),
            bare_event(StreamEvent { reasoning_delta: None, ..r }),
    {
        let mut e = StreamEvent::new(StreamEventType::ReasoningDelta);
        e.reasoning_delta = Some(text);
        e
    }

    /// A provider's own event, passed through.
    pub fn provider_event(raw: Json) -> (r: Self)
        ensures
            r.event_type is ProviderEvent,
            r.raw == Some(raw),
            bare_event(StreamEvent { raw: None, ..r }),
    {
        let mut e = StreamEvent::new(StreamEventType::ProviderEvent);
        e.raw = Some(raw);
        e
    }
}

} // verus!
