//! The parts of reading a Gemini stream that decide on their own: how a
//! stream record splits into payloads, which payloads are responses, what
//! a response adds to the text already streamed, and the reasoning
//! metadata a response carries.
use vstd::prelude::*;
use crate::json::{Json, get, json_get};
use crate::request::{ContentPart, Response, ThinkingData};
use crate::text::{chars_of, starts_with, str_eq, str_starts_with, string_from_chars};
use crate::url::subvec;

verus! {

// ----- payloads -----
/// The payloads of a stream record: the items of an array of objects, or
/// the record's payload itself.
pub open spec fn stream_payloads_spec(payload: Json) -> Seq<Json> {
    match payload {
        Json::Array(values) => if forall|i: int| 0 <= i < values@.len() ==> (#[trigger] values@[i]) is Object {
            values@
        } else {
            seq![payload]
        },
        _ => seq![payload],
    }
}

/// The payloads of a stream record.
pub fn gemini_stream_payloads(payload: Json) -> (r: Vec<Json>)
    ensures
        r@ == stream_payloads_spec(payload),
{
    let all_objects = match &payload {
        Json::Array(values) => {
            let mut i: usize = 0;
            let mut ok = true;
            while i < values.len()
                invariant
                    i <= values@.len(),
                    ok == forall|j: int| 0 <= j < i ==> (#[trigger] values@[j]) is Object,
                decreases values@.len() - i,
            {
                match &values[i] {
                    Json::Object(_) => {},
                    _ => {
                        ok = false;
                    },
                }
                i = i + 1;
            }
            ok
        },
        _ => false,
    };
    if all_objects {
        match payload {
            Json::Array(values) => values,
            other => vec![other],
        }
    } else {
        vec![payload]
    }
}

/// Whether a payload is a generateContent response: it has candidates,
/// usage metadata, a response id, a model version or a model.
pub open spec fn is_stream_response_spec(payload: Json) -> bool {
    ||| json_get(payload, "candidates"@) is Some
    ||| json_get(payload, "usageMetadata"@) is Some
    ||| json_get(payload, "responseId"@) is Some
    ||| json_get(payload, "modelVersion"@) is Some
    ||| json_get(payload, "model"@) is Some
}

/// Whether a payload is a generateContent response.
pub fn is_gemini_stream_payload(payload: &Json) -> (r: bool)
    ensures
        r == is_stream_response_spec(*payload),
{
    get(payload, "candidates").is_some() || get(payload, "usageMetadata").is_some() || get(payload, "responseId").is_some()
        || get(payload, "modelVersion").is_some() || get(payload, "model").is_some()
}

// ----- what a response adds -----
/// What a response's full text adds to the text already streamed: nothing
/// when it is the same or already covered, the rest when it continues the
/// streamed text, the whole text otherwise.
pub open spec fn stream_delta_spec(active: Seq<char>, text: Seq<char>) -> Seq<char> {
    if text == active || starts_with(active, text) {
        Seq::empty()
    } else if starts_with(text, active) {
        text.subrange(active.len() as int, text.len() as int)
    } else {
        text
    }
}

/// The streamed text after a response: its text when it continues what was
/// streamed, else what was streamed with the text appended.
pub open spec fn stream_active_spec(active: Seq<char>, text: Seq<char>) -> Seq<char> {
    if starts_with(text, active) {
        text
    } else {
        active + text
    }
}

/// What a response's full text adds to the text already streamed.
pub fn stream_text_delta(active: &str, text: &str) -> (r: String)
    ensures
        r@ == stream_delta_spec(active@, text@),
{
    if str_eq(text, active) || str_starts_with(active, text) {
        return String::new();
    }
    if str_starts_with(text, active) {
        let t = chars_of(text);
        let n = active.unicode_len();
        let rest = subvec(&t, n, t.len());
        return string_from_chars(&rest);
    }
    let t = chars_of(text);
    string_from_chars(&t)
}

/// Streaming a response that continues the streamed text emits exactly what
/// is missing: the streamed text and the delta make the response's text,
/// which becomes the streamed text.
pub proof fn lemma_stream_delta_completes(active: Seq<char>, text: Seq<char>)
    requires
        starts_with(text, active),
    ensures
        active + stream_delta_spec(active, text) == text,
        stream_active_spec(active, text) == text,
{
    if text == active || starts_with(active, text) {
        assert(active.len() == text.len());
        assert(active =~= text);
        assert(active + Seq::<char>::empty() =~= text);
    } else {
        assert(active + text.subrange(active.len() as int, text.len() as int) =~= text);
    }
}

// ----- response parts -----
/// The reasoning data a part carries, if it is a reasoning part.
pub open spec fn reasoning_data(p: ContentPart) -> Option<ThinkingData> {
    match p {
        ContentPart::Thinking { thinking } => Some(thinking),
        ContentPart::RedactedThinking { thinking } => Some(thinking),
        _ => None,
    }
}

/// The first reasoning part among the parts.
pub open spec fn first_reasoning_index(parts: Seq<ContentPart>) -> Option<int>
    decreases parts.len(),
{
    if parts.len() == 0 {
        None
    } else if reasoning_data(parts[0]) is Some {
        Some(0)
    } else {
        match first_reasoning_index(parts.drop_first()) {
            Some(i) => Some(i + 1),
            None => None,
        }
    }
}

/// Whether `m` is the metadata of `t`: the same but for an empty text.
pub open spec fn is_metadata_of(m: ThinkingData, t: ThinkingData) -> bool {
    &&& m.text@ == Seq::<char>::empty()
    &&& m.signature == t.signature
    &&& m.redacted == t.redacted
    &&& m.source_provider == t.source_provider
    &&& m.source_model == t.source_model
}

proof fn lemma_first_reasoning_index(parts: Seq<ContentPart>)
    ensures
        match first_reasoning_index(parts) {
            Some(i) => 0 <= i < parts.len() && reasoning_data(parts[i]) is Some && forall|j: int|
                0 <= j < i ==> reasoning_data(#[trigger] parts[j]) is None,
            None => forall|j: int| 0 <= j < parts.len() ==> reasoning_data(#[trigger] parts[j]) is None,
        },
    decreases parts.len(),
{
    if parts.len() > 0 && reasoning_data(parts[0]) is None {
        lemma_first_reasoning_index(parts.drop_first());
        assert forall|j: int| 1 <= j < parts.len() implies parts[j] == parts.drop_first()[j - 1] by {}
    }
}

fn copy_option(o: &Option<String>) -> (r: Option<String>)
    ensures
        r == *o,
{
    match o {
        Some(s) => Some(s.clone()),
        None => None,
    }
}

/// The reasoning metadata of a response: its first reasoning part with the
/// text left out.
pub fn gemini_reasoning_metadata(response: &Response) -> (r: Option<ThinkingData>)
    ensures
        match r {
            None => first_reasoning_index(response.message.content@) is None,
            Some(m) => first_reasoning_index(response.message.content@) matches Some(i) && is_metadata_of(
                m,
                reasoning_data(response.message.content@[i])->0,
            ),
        },
{
    let parts = &response.message.content;
    proof {
        lemma_first_reasoning_index(parts@);
    }
    let mut i: usize = 0;
    while i < parts.len()
        invariant
            i <= parts@.len(),
            parts@ == response.message.content@,
            forall|j: int| 0 <= j < i ==> reasoning_data(#[trigger] parts@[j]) is None,
            match first_reasoning_index(parts@) {
                Some(w) => 0 <= w < parts@.len() && reasoning_data(parts@[w]) is Some && forall|j: int|
                    0 <= j < w ==> reasoning_data(#[trigger] parts@[j]) is None,
                None => forall|j: int| 0 <= j < parts@.len() ==> reasoning_data(#[trigger] parts@[j]) is None,
            },
        decreases parts@.len() - i,
    {
        let found = match &parts[i] {
            ContentPart::Thinking { thinking } => Some(thinking),
            ContentPart::RedactedThinking { thinking } => Some(thinking),
            _ => None,
        };
        match found {
            Some(t) => {
                proof {
                    match first_reasoning_index(parts@) {
                        Some(w) => {
                            if w < i {
                                assert(reasoning_data(parts@[w]) is None);
                            }
                            if w > i {
                                assert(reasoning_data(parts@[i as int]) is None);
                            }
                        },
                        None => {
                            assert(reasoning_data(parts@[i as int]) is None);
                        },
                    }
                }
                return Some(
                    ThinkingData {
                        text: String::new(),
                        signature: copy_option(&t.signature),
                        redacted: t.redacted,
                        source_provider: copy_option(&t.source_provider),
                        source_model: copy_option(&t.source_model),
                    },
                );
            },
            None => {},
        }
        i = i + 1;
    }
    proof {
        if let Some(w) = first_reasoning_index(parts@) {
            assert(reasoning_data(parts@[w]) is None);
        }
    }
    None
}

/// Whether a response holds a provider part.
pub open spec fn has_provider_content(parts: Seq<ContentPart>) -> bool {
    exists|i: int| 0 <= i < parts.len() && (#[trigger] parts[i]) is Provider
}

/// Whether a response holds a provider part.
pub fn response_has_provider_content(response: &Response) -> (r: bool)
    ensures
        r == has_provider_content(response.message.content@),
{
    let parts = &response.message.content;
    let mut i: usize = 0;
    while i < parts.len()
        invariant
            i <= parts@.len(),
            parts@ == response.message.content@,
            forall|j: int| 0 <= j < i ==> !((#[trigger] parts@[j]) is Provider),
        decreases parts@.len() - i,
    {
        match &parts[i] {
            ContentPart::Provider { .. } => return true,
            _ => {},
        }
        i = i + 1;
    }
    false
}

} // verus!
