//! Writing the library's messages as Gemini `contents` entries.
use vstd::prelude::*;
use crate::errors::{SDKError, SDKErrorView};
use crate::gemini::{lemma_synthetic_id_name_round_trip, synthetic_id_spec};
use crate::json::{Json, JsonView, copy_json, jv, jv_items};
use crate::native::{
    gemini_synthetic_tool_call_name, non_empty_opt, non_empty_opt_str, percent_decode_bytes, synthetic_encoded_name,
    thinking_source_check, validate_provider_thinking_source,
};
use crate::payload::{
    ImageSourceView, NormalizedImageSource, arguments_object_spec, base64_text, encode_base64, image_is_loaded, image_source_spec,
    invalid_request_error, invalid_request_spec, json_str, normalize_image_source, obj1, obj2, obj3, object1, object2, object3,
    tool_call_arguments_object,
};
use crate::request::{ContentPart, ImageData, Message, MessageRole, ThinkingData, ToolCall, content_kind_name, part_kind};
use crate::text::{concat2, concat3, debug_quoted, debug_text, opt_seq, owned};
use crate::textmap::TextMap;
use vstd::utf8::{decode_utf8, encode_utf8, valid_utf8};

verus! {

// ----- images and tool results -----
/// A Gemini part for an image: `fileData` for a URL, `inlineData` with
/// base64 bytes otherwise.
pub open spec fn gemini_image_part_spec(image: ImageData) -> Result<JsonView, SDKErrorView> {
    match image_source_spec(image, "gemini"@) {
        Err(e) => Err(e),
        Ok(ImageSourceView::Url { url, media_type }) => Ok(
            obj1("fileData"@, obj2("fileUri"@, JsonView::Str(url), "mimeType"@, JsonView::Str(media_type))),
        ),
        Ok(ImageSourceView::Data { data, media_type }) => Ok(
            obj1(
                "inlineData"@,
                obj2("data"@, JsonView::Str(base64_text(data)), "mimeType"@, JsonView::Str(media_type)),
            ),
        ),
    }
}

/// A Gemini part for an image whose local file, if any, has been read.
pub fn gemini_image_part(image: &ImageData) -> (r: Result<Json, SDKError>)
    requires
        image_is_loaded(*image),
    ensures
        json_result_view(r) == gemini_image_part_spec(*image),
{
    match normalize_image_source(image, "gemini") {
        Err(e) => Err(e),
        Ok(NormalizedImageSource::Url { url, media_type }) => Ok(
            object1(
                "fileData",
                object2("fileUri", Json::Str(url), "mimeType", Json::Str(media_type)),
            ),
        ),
        Ok(NormalizedImageSource::Data { data, media_type }) => {
            let encoded = encode_base64(&data);
            Ok(object1("inlineData", object2("data", Json::Str(encoded), "mimeType", Json::Str(media_type))))
        },
    }
}

/// The `response` of a Gemini function response: an object result as it
/// is, any other result under `result`.
pub open spec fn tool_result_response_spec(content: Json) -> JsonView {
    match content {
        Json::Object(_) => jv(content),
        _ => obj1("result"@, jv(content)),
    }
}

/// The `response` of a Gemini function response.
pub fn gemini_tool_result_response(content: &Json) -> (r: Json)
    ensures
        jv(r) == tool_result_response_spec(*content),
{
    match content {
        Json::Object(_) => copy_json(content),
        _ => object1("result", copy_json(content)),
    }
}

// ----- tool-call names -----
/// The names remembered for tool-call ids, as texts.
pub open spec fn names_view(m: TextMap<String>) -> Map<Seq<char>, Seq<char>> {
    m.as_map().map_values(|s: String| s@)
}

/// Remembers the name of a tool call's id; an id met before with another
/// name is refused.
pub open spec fn remember_spec(names: Map<Seq<char>, Seq<char>>, id: Seq<char>, name: Seq<char>) -> (Result<(), SDKErrorView>, Map<Seq<char>, Seq<char>>) {
    if names.contains_key(id) {
        if names[id] != name {
            (
                Err(
                    invalid_request_spec(
                        "gemini"@,
                        "Gemini tool_call id "@ + debug_text(id) + " is associated with both "@ + debug_text(names[id])
                            + " and "@ + debug_text(name),
                    ),
                ),
                names,
            )
        } else {
            (Ok(()), names)
        }
    } else {
        (Ok(()), names.insert(id, name))
    }
}

/// Remembers the name of a tool call's id.
pub fn remember_gemini_tool_call_name(tool_call_names: &mut TextMap<String>, tool_call: &ToolCall) -> (r: Result<(), SDKError>)
    ensures
        (unit_result_view(r), names_view(*final(tool_call_names))) == remember_spec(
            names_view(*old(tool_call_names)),
            tool_call.id@,
            tool_call.name@,
        ),
{
    let existing = match tool_call_names.get(tool_call.id.as_str()) {
        Some(e) => Some(e.clone()),
        None => None,
    };
    match existing {
        Some(existing) => {
            if !crate::text::str_eq(existing.as_str(), tool_call.name.as_str()) {
                let id_text = debug_quoted(tool_call.id.as_str());
                let existing_text = debug_quoted(existing.as_str());
                let name_text = debug_quoted(tool_call.name.as_str());
                let a = concat3("Gemini tool_call id ", id_text.as_str(), " is associated with both ");
                let b = concat3(a.as_str(), existing_text.as_str(), " and ");
                let message = concat2(b.as_str(), name_text.as_str());
                Err(invalid_request_error("gemini", message))
            } else {
                Ok(())
            }
        },
        None => {
            tool_call_names.insert(tool_call.id.clone(), tool_call.name.clone());
            proof {
                assert(names_view(*tool_call_names) =~= names_view(*old(tool_call_names)).insert(
                    tool_call.id@,
                    tool_call.name@,
                ));
            }
            Ok(())
        },
    }
}

/// The tool name read from a synthetic Gemini call id, when it has one.
pub open spec fn synthetic_name_spec(id: Seq<char>) -> Option<Seq<char>> {
    match synthetic_encoded_name(id) {
        None => None,
        Some(enc) => match percent_decode_bytes(encode_utf8(enc)) {
            Some(b) => if valid_utf8(b) && b.len() > 0 {
                Some(decode_utf8(b))
            } else {
                None
            },
            None => None,
        },
    }
}

fn synthetic_name(id: &str) -> (r: Option<String>)
    ensures
        opt_seq(r) == synthetic_name_spec(id@),
{
    let r = gemini_synthetic_tool_call_name(id);
    proof {
        if r is Some {
            let n = r->Some_0;
            vstd::utf8::encode_utf8_decode_utf8(n@);
            vstd::utf8::encode_utf8_valid_utf8(n@);
            vstd::utf8::encode_utf8_first_scalar(n@);
        }
    }
    r
}

/// The function name a tool result answers: the message's name, else the
/// name remembered for its call id, else the one inside a synthetic id.
pub open spec fn result_name_spec(message_name: Option<Seq<char>>, names: Map<Seq<char>, Seq<char>>, id: Seq<char>) -> Option<Seq<char>> {
    match message_name {
        Some(n) => Some(n),
        None => if names.contains_key(id) {
            Some(names[id])
        } else {
            synthetic_name_spec(id)
        },
    }
}

/// A tool result answering a call that came with a synthetic id is sent
/// back under the call's name, even when no name was remembered for the id
/// and the message names none.
pub proof fn lemma_synthetic_id_names_tool_result(
    name: Seq<char>,
    candidate_index: nat,
    part_index: nat,
    arguments_text: Seq<char>,
    names: Map<Seq<char>, Seq<char>>,
)
    requires
        name.len() > 0,
        !names.contains_key(synthetic_id_spec(name, candidate_index, part_index, arguments_text)),
    ensures
        result_name_spec(None, names, synthetic_id_spec(name, candidate_index, part_index, arguments_text)) == Some(name),
{
    lemma_synthetic_id_name_round_trip(name, candidate_index, part_index, arguments_text);
    vstd::utf8::encode_utf8_decode_utf8(name);
}

// ----- messages -----
/// The Gemini role of a message role; system and developer messages are
/// not contents.
pub open spec fn gemini_role_spec(role: MessageRole) -> Option<Seq<char>> {
    match role {
        MessageRole::User => Some("user"@),
        MessageRole::Tool => Some("user"@),
        MessageRole::Assistant => Some("model"@),
        _ => None,
    }
}

/// A role as `{:?}` writes it.
pub open spec fn role_debug_name(role: MessageRole) -> Seq<char> {
    match role {
        MessageRole::System => "System"@,
        MessageRole::User => "User"@,
        MessageRole::Assistant => "Assistant"@,
        MessageRole::Tool => "Tool"@,
        MessageRole::Developer => "Developer"@,
    }
}

pub fn role_debug(role: MessageRole) -> (r: &'static str)
    ensures
        r@ == role_debug_name(role),
{
    match role {
        MessageRole::System => "System",
        MessageRole::User => "User",
        MessageRole::Assistant => "Assistant",
        MessageRole::Tool => "Tool",
        MessageRole::Developer => "Developer",
    }
}

/// A reasoning part sent back to Gemini: its text marked as thought, with
/// its signature when it has one.
pub open spec fn gemini_thinking_part(thinking: ThinkingData) -> JsonView {
    match non_empty_opt(opt_seq(thinking.signature)) {
        Some(sig) => obj3(
            "text"@,
            JsonView::Str(thinking.text@),
            "thought"@,
            JsonView::Bool(true),
            "thoughtSignature"@,
            JsonView::Str(sig),
        ),
        None => obj2("text"@, JsonView::Str(thinking.text@), "thought"@, JsonView::Bool(true)),
    }
}

/// What one content part of a message becomes, and the remembered names
/// after it.
pub open spec fn gemini_part_payload_spec(message: Message, part: ContentPart, names: Map<Seq<char>, Seq<char>>) -> (Result<JsonView, SDKErrorView>, Map<Seq<char>, Seq<char>>) {
    match part {
        ContentPart::Text { text } => (Ok(obj1("text"@, JsonView::Str(text@))), names),
        ContentPart::Image { image } => (gemini_image_part_spec(image), names),
        ContentPart::Thinking { thinking } => (
            match thinking_source_check(
                "gemini"@,
                opt_seq(thinking.source_provider),
                opt_seq(thinking.signature),
                thinking.redacted,
                "thinking"@,
            ) {
                Err(e) => Err(e),
                Ok(_) => Ok(gemini_thinking_part(thinking)),
            },
            names,
        ),
        ContentPart::RedactedThinking { .. } => (
            Err(
                invalid_request_spec(
                    "gemini"@,
                    "Gemini generateContent request history does not support redacted_thinking content parts"@,
                ),
            ),
            names,
        ),
        ContentPart::ToolCall { tool_call } => if message.role != MessageRole::Assistant {
            (Err(invalid_request_spec("gemini"@, "Gemini functionCall parts are only valid in assistant messages"@)), names)
        } else {
            let (remembered, names2) = remember_spec(names, tool_call.id@, tool_call.name@);
            match remembered {
                Err(e) => (Err(e), names2),
                Ok(_) => match arguments_object_spec(tool_call.arguments, "gemini"@) {
                    Err(e) => (Err(e), names2),
                    Ok(args) => (
                        Ok(obj1("functionCall"@, obj2("args"@, args, "name"@, JsonView::Str(tool_call.name@)))),
                        names2,
                    ),
                },
            }
        },
        ContentPart::ToolResult { tool_result } => if message.role != MessageRole::Tool {
            (Err(invalid_request_spec("gemini"@, "Gemini functionResponse parts are only valid in tool messages"@)), names)
        } else {
            match result_name_spec(opt_seq(message.name), names, tool_result.tool_call_id@) {
                None => (
                    Err(
                        invalid_request_spec(
                            "gemini"@,
                            "Gemini tool_result content requires a known function name for tool_call_id "@ + debug_text(
                                tool_result.tool_call_id@,
                            ),
                        ),
                    ),
                    names,
                ),
                Some(name) => (
                    Ok(
                        obj1(
                            "functionResponse"@,
                            obj3(
                                "id"@,
                                JsonView::Str(tool_result.tool_call_id@),
                                "name"@,
                                JsonView::Str(name),
                                "response"@,
                                tool_result_response_spec(tool_result.content),
                            ),
                        ),
                    ),
                    names,
                ),
            }
        },
        _ => (
            Err(
                invalid_request_spec(
                    "gemini"@,
                    "Gemini generateContent request does not support "@ + content_kind_name(part_kind(part))
                        + " content parts"@,
                ),
            ),
            names,
        ),
    }
}

/// The parts of a message, in order, and the remembered names after them;
/// the first error stops it, keeping the names remembered so far.
pub open spec fn gemini_parts_payload_spec(message: Message, parts: Seq<ContentPart>, names: Map<Seq<char>, Seq<char>>) -> (Result<Seq<JsonView>, SDKErrorView>, Map<Seq<char>, Seq<char>>)
    decreases parts.len(),
{
    if parts.len() == 0 {
        (Ok(Seq::empty()), names)
    } else {
        let (prev, names1) = gemini_parts_payload_spec(message, parts.drop_last(), names);
        match prev {
            Err(e) => (Err(e), names1),
            Ok(done) => {
                let (item, names2) = gemini_part_payload_spec(message, parts.last(), names1);
                match item {
                    Err(e) => (Err(e), names2),
                    Ok(x) => (Ok(done.push(x)), names2),
                }
            },
        }
    }
}

/// A message as a Gemini `contents` entry, and the remembered names after it.
pub open spec fn gemini_message_payload_spec(message: Message, names: Map<Seq<char>, Seq<char>>) -> (Result<JsonView, SDKErrorView>, Map<Seq<char>, Seq<char>>) {
    match gemini_role_spec(message.role) {
        None => (
            Err(
                invalid_request_spec(
                    "gemini"@,
                    "Gemini generateContent request does not support role "@ + role_debug_name(message.role) + " here"@,
                ),
            ),
            names,
        ),
        Some(role) => {
            let (r, names1) = gemini_parts_payload_spec(message, message.content@, names);
            match r {
                Err(e) => (Err(e), names1),
                Ok(parts) => (Ok(obj2("parts"@, JsonView::Array(parts), "role"@, JsonView::Str(role))), names1),
            }
        },
    }
}

/// Whether every image of a message has had its local file, if any, read.
pub open spec fn message_images_loaded(message: Message) -> bool {
    forall|i: int| 0 <= i < message.content@.len() ==> (#[trigger] message.content@[i] matches ContentPart::Image { image }
        ==> image_is_loaded(image))
}

pub open spec fn json_result_view(r: Result<Json, SDKError>) -> Result<JsonView, SDKErrorView> {
    match r {
        Ok(v) => Ok(jv(v)),
        Err(e) => Err(e@),
    }
}

pub open spec fn unit_result_view(r: Result<(), SDKError>) -> Result<(), SDKErrorView> {
    match r {
        Ok(_) => Ok(()),
        Err(e) => Err(e@),
    }
}

proof fn lemma_parts_error_stays(message: Message, parts: Seq<ContentPart>, k: int, names: Map<Seq<char>, Seq<char>>)
    requires
        0 <= k <= parts.len(),
        gemini_parts_payload_spec(message, parts.subrange(0, k), names).0 is Err,
    ensures
        gemini_parts_payload_spec(message, parts, names) == gemini_parts_payload_spec(message, parts.subrange(0, k), names),
    decreases parts.len(),
{
    if k == parts.len() {
        assert(parts.subrange(0, k) =~= parts);
    } else {
        assert(parts.drop_last().subrange(0, k) =~= parts.subrange(0, k));
        lemma_parts_error_stays(message, parts.drop_last(), k, names);
    }
}

fn gemini_part_payload(message: &Message, part: &ContentPart, tool_call_names: &mut TextMap<String>) -> (r: Result<Json, SDKError>)
    requires
        *part matches ContentPart::Image { image } ==> image_is_loaded(image),
    ensures
        (json_result_view(r), names_view(*final(tool_call_names))) == gemini_part_payload_spec(
            *message,
            *part,
            names_view(*old(tool_call_names)),
        ),
{
    match part {
        ContentPart::Text { text } => Ok(object1("text", Json::Str(text.clone()))),
        ContentPart::Image { image } => gemini_image_part(image),
        ContentPart::Thinking { thinking } => {
            match validate_provider_thinking_source("gemini", thinking, "thinking") {
                Ok(()) => {},
                Err(e) => return Err(e),
            }
            let signature = match &thinking.signature {
                Some(s) => non_empty_opt_str(Some(s.as_str())),
                None => non_empty_opt_str(None),
            };
            match signature {
                Some(sig) => Ok(
                    object3("text", Json::Str(thinking.text.clone()), "thought", Json::Bool(true), "thoughtSignature", Json::Str(sig)),
                ),
                None => Ok(object2("text", Json::Str(thinking.text.clone()), "thought", Json::Bool(true))),
            }
        },
        ContentPart::RedactedThinking { .. } => Err(
            invalid_request_error(
                "gemini",
                owned("Gemini generateContent request history does not support redacted_thinking content parts"),
            ),
        ),
        ContentPart::ToolCall { tool_call } => {
            match message.role {
                MessageRole::Assistant => {},
                _ => return Err(
                    invalid_request_error("gemini", owned("Gemini functionCall parts are only valid in assistant messages")),
                ),
            }
            match remember_gemini_tool_call_name(tool_call_names, tool_call) {
                Ok(()) => {},
                Err(e) => return Err(e),
            }
            let args = match tool_call_arguments_object(tool_call, "gemini") {
                Ok(a) => a,
                Err(e) => return Err(e),
            };
            Ok(object1("functionCall", object2("args", args, "name", Json::Str(tool_call.name.clone()))))
        },
        ContentPart::ToolResult { tool_result } => {
            match message.role {
                MessageRole::Tool => {},
                _ => return Err(
                    invalid_request_error("gemini", owned("Gemini functionResponse parts are only valid in tool messages")),
                ),
            }
            let id = tool_result.tool_call_id.as_str();
            let name = match &message.name {
                Some(n) => Some(n.clone()),
                None => match tool_call_names.get(id) {
                    Some(n) => Some(n.clone()),
                    None => synthetic_name(id),
                },
            };
            match name {
                Some(name) => Ok(
                    object1(
                        "functionResponse",
                        object3(
                            "id",
                            Json::Str(tool_result.tool_call_id.clone()),
                            "name",
                            Json::Str(name),
                            "response",
                            gemini_tool_result_response(&tool_result.content),
                        ),
                    ),
                ),
                None => {
                    let id_text = debug_quoted(id);
                    Err(
                        invalid_request_error(
                            "gemini",
                            concat2("Gemini tool_result content requires a known function name for tool_call_id ", id_text.as_str()),
                        ),
                    )
                },
            }
        },
        _ => {
            let kind = part.kind();
            Err(
                invalid_request_error(
                    "gemini",
                    concat3("Gemini generateContent request does not support ", kind.as_str(), " content parts"),
                ),
            )
        },
    }
}

/// A message as a Gemini `contents` entry, remembering the names of the
/// tool calls it makes so that later tool results can be named. Images with
/// a local file must have been read into their data.
pub fn gemini_message_payload(message: &Message, tool_call_names: &mut TextMap<String>) -> (r: Result<Json, SDKError>)
    requires
        message_images_loaded(*message),
    ensures
        (json_result_view(r), names_view(*final(tool_call_names))) == gemini_message_payload_spec(
            *message,
            names_view(*old(tool_call_names)),
        ),
{
    let role = match message.role {
        MessageRole::User => "user",
        MessageRole::Tool => "user",
        MessageRole::Assistant => "model",
        other => {
            let message_text = concat3("Gemini generateContent request does not support role ", role_debug(other), " here");
            return Err(invalid_request_error("gemini", message_text));
        },
    };
    let ghost names0 = names_view(*tool_call_names);
    let mut parts: Vec<Json> = Vec::new();
    let mut i: usize = 0;
    assert(message.content@.subrange(0, 0) =~= Seq::<ContentPart>::empty());
    assert(jv_items(parts@) =~= Seq::<JsonView>::empty());
    while i < message.content.len()
        invariant
            i <= message.content@.len(),
            message_images_loaded(*message),
            gemini_role_spec(message.role) is Some,
            names0 == names_view(*old(tool_call_names)),
            gemini_parts_payload_spec(*message, message.content@.subrange(0, i as int), names0) == (
                Ok::<Seq<JsonView>, SDKErrorView>(jv_items(parts@)),
                names_view(*tool_call_names),
            ),
        decreases message.content@.len() - i,
    {
        proof {
            let t = message.content@.subrange(0, i + 1);
            assert(t.drop_last() =~= message.content@.subrange(0, i as int));
            assert(t.last() == message.content@[i as int]);
        }
        match gemini_part_payload(message, &message.content[i], tool_call_names) {
            Ok(item) => {
                let ghost before = parts@;
                parts.push(item);
                assert(parts@.drop_last() =~= before);
            },
            Err(e) => {
                proof {
                    let t = message.content@.subrange(0, i + 1);
                    assert(gemini_parts_payload_spec(*message, t, names0) == (
                        Err::<Seq<JsonView>, SDKErrorView>(e@),
                        names_view(*tool_call_names),
                    ));
                    lemma_parts_error_stays(*message, message.content@, i + 1, names0);
                    assert(gemini_parts_payload_spec(*message, message.content@, names0) == (
                        Err::<Seq<JsonView>, SDKErrorView>(e@),
                        names_view(*tool_call_names),
                    ));
                }
                return Err(e);
            },
        }
        i = i + 1;
    }
    assert(message.content@.subrange(0, message.content@.len() as int) =~= message.content@);
    Ok(object2("parts", Json::Array(parts), "role", json_str(role)))
}

} // verus!
