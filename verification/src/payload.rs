//! Pieces that provider request payloads share: small JSON objects, image
//! sources, tool-call arguments as objects, and base64 text.
use vstd::prelude::*;
use base64::Engine;
use crate::errors::{SDKError, SDKErrorKind, SDKErrorView};
use crate::json::{Json, JsonView, copy_json, json_parse_outcome, jv, parse_json};
use crate::native::{
    before_char, infer_image_media_type_from_value, is_local_media_path_spec, path_media_type, provider_error_spec,
};
use crate::request::{ContentPart, ImageData, Message, MessageRole, ToolCall, one_source_check};
use crate::canonical::{join_strings, join_texts};
use crate::text::{concat2, opt_seq, owned};

verus! {

// ----- small objects -----
/// An object with one member.
pub open spec fn obj1(k: Seq<char>, v: JsonView) -> JsonView {
    JsonView::Object(seq![(k, v)])
}

/// An object with two members, in this order.
pub open spec fn obj2(k1: Seq<char>, v1: JsonView, k2: Seq<char>, v2: JsonView) -> JsonView {
    JsonView::Object(seq![(k1, v1), (k2, v2)])
}

/// An object with three members, in this order.
pub open spec fn obj3(k1: Seq<char>, v1: JsonView, k2: Seq<char>, v2: JsonView, k3: Seq<char>, v3: JsonView) -> JsonView {
    JsonView::Object(seq![(k1, v1), (k2, v2), (k3, v3)])
}

/// An object with four members, in this order.
pub open spec fn obj4(
    k1: Seq<char>,
    v1: JsonView,
    k2: Seq<char>,
    v2: JsonView,
    k3: Seq<char>,
    v3: JsonView,
    k4: Seq<char>,
    v4: JsonView,
) -> JsonView {
    JsonView::Object(seq![(k1, v1), (k2, v2), (k3, v3), (k4, v4)])
}

/// The string value of a text.
pub fn json_str(s: &str) -> (r: Json)
    ensures
        jv(r) == JsonView::Str(s@),
{
    Json::Str(owned(s))
}

/// An object with one member.
pub fn object1(k: &str, v: Json) -> (r: Json)
    ensures
        jv(r) == obj1(k@, jv(v)),
{
    let ghost gv = v;
    let mut members: Vec<(String, Json)> = Vec::new();
    members.push((owned(k), v));
    proof {
        crate::json::lemma_jv_members_index(members@);
        assert(crate::json::jv_members(members@) =~= seq![(k@, jv(gv))]);
    }
    Json::Object(members)
}

/// An object with two members, in this order.
pub fn object2(k1: &str, v1: Json, k2: &str, v2: Json) -> (r: Json)
    ensures
        jv(r) == obj2(k1@, jv(v1), k2@, jv(v2)),
{
    let ghost g1 = v1;
    let ghost g2 = v2;
    let mut members: Vec<(String, Json)> = Vec::new();
    members.push((owned(k1), v1));
    members.push((owned(k2), v2));
    proof {
        crate::json::lemma_jv_members_index(members@);
        assert(crate::json::jv_members(members@) =~= seq![(k1@, jv(g1)), (k2@, jv(g2))]);
    }
    Json::Object(members)
}

/// An object with three members, in this order.
pub fn object3(k1: &str, v1: Json, k2: &str, v2: Json, k3: &str, v3: Json) -> (r: Json)
    ensures
        jv(r) == obj3(k1@, jv(v1), k2@, jv(v2), k3@, jv(v3)),
{
    let ghost g1 = v1;
    let ghost g2 = v2;
    let ghost g3 = v3;
    let mut members: Vec<(String, Json)> = Vec::new();
    members.push((owned(k1), v1));
    members.push((owned(k2), v2));
    members.push((owned(k3), v3));
    proof {
        crate::json::lemma_jv_members_index(members@);
        assert(crate::json::jv_members(members@) =~= seq![(k1@, jv(g1)), (k2@, jv(g2)), (k3@, jv(g3))]);
    }
    Json::Object(members)
}

/// An object with four members, in this order.
pub fn object4(k1: &str, v1: Json, k2: &str, v2: Json, k3: &str, v3: Json, k4: &str, v4: Json) -> (r: Json)
    ensures
        jv(r) == obj4(k1@, jv(v1), k2@, jv(v2), k3@, jv(v3), k4@, jv(v4)),
{
    let ghost g1 = v1;
    let ghost g2 = v2;
    let ghost g3 = v3;
    let ghost g4 = v4;
    let mut members: Vec<(String, Json)> = Vec::new();
    members.push((owned(k1), v1));
    members.push((owned(k2), v2));
    members.push((owned(k3), v3));
    members.push((owned(k4), v4));
    proof {
        crate::json::lemma_jv_members_index(members@);
        assert(crate::json::jv_members(members@) =~= seq![(k1@, jv(g1)), (k2@, jv(g2)), (k3@, jv(g3)), (k4@, jv(g4))]);
    }
    Json::Object(members)
}

/// An error about a request that a provider cannot take.
pub open spec fn invalid_request_spec(provider: Seq<char>, message: Seq<char>) -> SDKErrorView {
    provider_error_spec(SDKErrorKind::InvalidRequest, provider, message)
}

/// An error about a request that a provider cannot take.
pub fn invalid_request_error(provider: &str, message: String) -> (r: SDKError)
    ensures
        r@ == invalid_request_spec(provider@, message@),
{
    SDKError::provider(SDKErrorKind::InvalidRequest, message, Some(owned(provider)))
}

// ----- base64 -----
/// The character of a six-bit value in the standard base64 alphabet:
/// `A`-`Z`, `a`-`z`, `0`-`9`, `+`, `/`.
pub open spec fn base64_char(i: int) -> char {
    if i < 26 {
        ('A' as int + i) as char
    } else if i < 52 {
        ('a' as int + (i - 26)) as char
    } else if i < 62 {
        ('0' as int + (i - 52)) as char
    } else if i == 62 {
        '+'
    } else {
        '/'
    }
}

/// The standard padded base64 text of some bytes: each three bytes become
/// four characters of six bits each; a last group of one or two bytes is
/// padded with `=` to four characters.
pub open spec fn base64_text(bytes: Seq<u8>) -> Seq<char>
    decreases bytes.len(),
{
    if bytes.len() == 0 {
        Seq::empty()
    } else if bytes.len() == 1 {
        let b0 = bytes[0] as int;
        seq![base64_char(b0 / 4), base64_char((b0 % 4) * 16), '=', '=']
    } else if bytes.len() == 2 {
        let b0 = bytes[0] as int;
        let b1 = bytes[1] as int;
        seq![base64_char(b0 / 4), base64_char((b0 % 4) * 16 + b1 / 16), base64_char((b1 % 16) * 4), '=']
    } else {
        let b0 = bytes[0] as int;
        let b1 = bytes[1] as int;
        let b2 = bytes[2] as int;
        seq![
            base64_char(b0 / 4),
            base64_char((b0 % 4) * 16 + b1 / 16),
            base64_char((b1 % 16) * 4 + b2 / 64),
            base64_char(b2 % 64),
        ] + base64_text(bytes.subrange(3, bytes.len() as int))
    }
}

/// Wraps `Engine::encode` of `base64::engine::general_purpose::STANDARD`:
/// the standard-alphabet, padded base64 text of the bytes, as
/// `base64_text` states it.
#[verifier::external_body]
pub fn encode_base64(data: &Vec<u8>) -> (r: String)
    ensures
        r@ == base64_text(data@),
{
    base64::engine::general_purpose::STANDARD.encode(data)
}

// ----- image sources -----
/// Where an image's bytes come from once normalized.
pub enum NormalizedImageSource {
    Url { url: String, media_type: String },
    Data { data: Vec<u8>, media_type: String },
}

pub enum ImageSourceView {
    Url { url: Seq<char>, media_type: Seq<char> },
    Data { data: Seq<u8>, media_type: Seq<char> },
}

impl View for NormalizedImageSource {
    type V = ImageSourceView;

    open spec fn view(&self) -> ImageSourceView {
        match self {
            NormalizedImageSource::Url { url, media_type } => ImageSourceView::Url { url: url@, media_type: media_type@ },
            NormalizedImageSource::Data { data, media_type } => ImageSourceView::Data {
                data: data@,
                media_type: media_type@,
            },
        }
    }
}

/// Whether an image's local file, if it names one, has been read into its
/// data: reading files is the caller's part.
pub open spec fn image_is_loaded(image: ImageData) -> bool {
    image.url matches Some(u) ==> !is_local_media_path_spec(u@) || image.data is Some
}

/// The media type of an image at a URL: the one given, else the one its
/// path's extension names.
pub open spec fn url_media_type(image: ImageData, url: Seq<char>) -> Seq<char> {
    match image.media_type {
        Some(m) => m@,
        None => path_media_type(before_char(before_char(url, '?'), '#')),
    }
}

/// The source of an image: its URL, or its bytes (PNG unless a media type
/// is given); an image without exactly one of the two is refused.
pub open spec fn image_source_spec(image: ImageData, provider: Seq<char>) -> Result<ImageSourceView, SDKErrorView> {
    match one_source_check(image.url is Some, image.data is Some, "image"@) {
        Err(m) => Err(invalid_request_spec(provider, m)),
        Ok(_) => match image.url {
            Some(u) => Ok(ImageSourceView::Url { url: u@, media_type: url_media_type(image, u@) }),
            None => Ok(
                ImageSourceView::Data {
                    data: image.data->0@,
                    media_type: match image.media_type {
                        Some(m) => m@,
                        None => "image/png"@,
                    },
                },
            ),
        },
    }
}

/// The source of an image whose local file, if any, has been read.
pub fn normalize_image_source(image: &ImageData, provider: &str) -> (r: Result<NormalizedImageSource, SDKError>)
    requires
        image_is_loaded(*image),
    ensures
        match r {
            Ok(s) => image_source_spec(*image, provider@) == Ok::<ImageSourceView, SDKErrorView>(s@),
            Err(e) => image_source_spec(*image, provider@) == Err::<ImageSourceView, SDKErrorView>(e@),
        },
{
    match image.validate() {
        Ok(()) => {},
        Err(m) => return Err(invalid_request_error(provider, m)),
    }
    match &image.url {
        Some(url) => {
            let media_type = match &image.media_type {
                Some(m) => m.clone(),
                None => infer_image_media_type_from_value(url.as_str()),
            };
            Ok(NormalizedImageSource::Url { url: url.clone(), media_type })
        },
        None => {
            let data = match &image.data {
                Some(d) => d.clone(),
                None => return Err(
                    invalid_request_error(provider, owned("exactly one of url or data must be provided for image")),
                ),
            };
            let media_type = match &image.media_type {
                Some(m) => m.clone(),
                None => owned("image/png"),
            };
            Ok(NormalizedImageSource::Data { data, media_type })
        },
    }
}

// ----- tool-call arguments -----
/// The error for tool-call arguments that are not an object.
pub open spec fn arguments_object_error(provider: Seq<char>) -> SDKErrorView {
    invalid_request_spec(provider, provider + " tool_call arguments must be a JSON object"@)
}

/// A tool call's arguments as an object: an object as it is, text that
/// parses to an object, or an empty object for `null`.
pub open spec fn arguments_object_spec(arguments: Json, provider: Seq<char>) -> Result<JsonView, SDKErrorView> {
    match arguments {
        Json::Object(_) => Ok(jv(arguments)),
        Json::Str(t) => match json_parse_outcome(t@) {
            Ok(p) => if p is Object {
                Ok(jv(p))
            } else {
                Err(arguments_object_error(provider))
            },
            Err(_) => Err(arguments_object_error(provider)),
        },
        Json::Null => Ok(JsonView::Object(Seq::empty())),
        _ => Err(arguments_object_error(provider)),
    }
}

/// A tool call's arguments as an object.
pub fn tool_call_arguments_object(tool_call: &ToolCall, provider: &str) -> (r: Result<Json, SDKError>)
    ensures
        match r {
            Ok(v) => arguments_object_spec(tool_call.arguments, provider@) == Ok::<JsonView, SDKErrorView>(jv(v)),
            Err(e) => arguments_object_spec(tool_call.arguments, provider@) == Err::<JsonView, SDKErrorView>(e@),
        },
{
    match &tool_call.arguments {
        Json::Object(_) => Ok(copy_json(&tool_call.arguments)),
        Json::Str(text) => match parse_json(text.as_str()) {
            Ok(parsed) => match parsed {
                Json::Object(_) => Ok(parsed),
                _ => Err(invalid_request_error(provider, concat2(provider, " tool_call arguments must be a JSON object"))),
            },
            Err(_) => Err(invalid_request_error(provider, concat2(provider, " tool_call arguments must be a JSON object"))),
        },
        Json::Null => {
            let e: Vec<(String, Json)> = Vec::new();
            assert(crate::json::jv_members(e@) =~= Seq::<(Seq<char>, JsonView)>::empty());
            Ok(Json::Object(e))
        },
        _ => Err(invalid_request_error(provider, concat2(provider, " tool_call arguments must be a JSON object"))),
    }
}

// ----- system instructions -----
/// The texts of parts that are all text; `None` when one is not.
pub open spec fn all_text_parts(parts: Seq<ContentPart>) -> Option<Seq<Seq<char>>>
    decreases parts.len(),
{
    if parts.len() == 0 {
        Some(Seq::empty())
    } else {
        match all_text_parts(parts.drop_last()) {
            None => None,
            Some(r) => match parts.last() {
                ContentPart::Text { text } => Some(r.push(text@)),
                _ => None,
            },
        }
    }
}

/// A system or developer message as text: its texts joined by blank lines,
/// none without parts; any other part is refused.
pub open spec fn text_only_spec(message: Message, provider: Seq<char>) -> Result<Option<Seq<char>>, SDKErrorView> {
    match all_text_parts(message.content@) {
        None => Err(invalid_request_spec(provider, provider + " system and developer messages must be text only"@)),
        Some(texts) => Ok(
            if texts.len() == 0 {
                None
            } else {
                Some(join_texts(texts, "\n\n"@))
            },
        ),
    }
}

proof fn lemma_text_parts_none_stays(parts: Seq<ContentPart>, k: int)
    requires
        0 <= k <= parts.len(),
        all_text_parts(parts.subrange(0, k)) is None,
    ensures
        all_text_parts(parts) is None,
    decreases parts.len(),
{
    if k == parts.len() {
        assert(parts.subrange(0, k) =~= parts);
    } else {
        assert(parts.drop_last().subrange(0, k) =~= parts.subrange(0, k));
        lemma_text_parts_none_stays(parts.drop_last(), k);
    }
}

/// A system or developer message as text.
pub fn text_only_message(message: &Message, provider: &str) -> (r: Result<Option<String>, SDKError>)
    ensures
        match r {
            Ok(t) => text_only_spec(*message, provider@) == Ok::<Option<Seq<char>>, SDKErrorView>(opt_seq(t)),
            Err(e) => text_only_spec(*message, provider@) == Err::<Option<Seq<char>>, SDKErrorView>(e@),
        },
{
    let mut fragments: Vec<String> = Vec::new();
    let mut i: usize = 0;
    assert(message.content@.subrange(0, 0) =~= Seq::<ContentPart>::empty());
    assert(fragments@.map_values(|t: String| t@) =~= Seq::<Seq<char>>::empty());
    while i < message.content.len()
        invariant
            i <= message.content@.len(),
            all_text_parts(message.content@.subrange(0, i as int)) == Some(fragments@.map_values(|t: String| t@)),
        decreases message.content@.len() - i,
    {
        proof {
            let t = message.content@.subrange(0, i + 1);
            assert(t.drop_last() =~= message.content@.subrange(0, i as int));
            assert(t.last() == message.content@[i as int]);
        }
        match &message.content[i] {
            ContentPart::Text { text } => {
                let ghost before = fragments@;
                fragments.push(text.clone());
                assert(fragments@.map_values(|t: String| t@) =~= before.map_values(|t: String| t@).push(text@));
            },
            _ => {
                proof {
                    lemma_text_parts_none_stays(message.content@, i + 1);
                }
                return Err(
                    invalid_request_error(provider, concat2(provider, " system and developer messages must be text only")),
                );
            },
        }
        i = i + 1;
    }
    assert(message.content@.subrange(0, message.content@.len() as int) =~= message.content@);
    if fragments.len() == 0 {
        Ok(None)
    } else {
        Ok(Some(join_strings(&fragments, "\n\n")))
    }
}

/// The texts of the system and developer messages, in order.
pub open spec fn instruction_fragments(messages: Seq<Message>, provider: Seq<char>) -> Result<Seq<Seq<char>>, SDKErrorView>
    decreases messages.len(),
{
    if messages.len() == 0 {
        Ok(Seq::empty())
    } else {
        match instruction_fragments(messages.drop_last(), provider) {
            Err(e) => Err(e),
            Ok(r) => {
                let m = messages.last();
                if m.role == MessageRole::System || m.role == MessageRole::Developer {
                    match text_only_spec(m, provider) {
                        Err(e) => Err(e),
                        Ok(None) => Ok(r),
                        Ok(Some(t)) => Ok(r.push(t)),
                    }
                } else {
                    Ok(r)
                }
            },
        }
    }
}

/// The system instruction of a conversation: the texts of its system and
/// developer messages joined by blank lines, none when there are none.
pub open spec fn instruction_text_spec(messages: Seq<Message>, provider: Seq<char>) -> Result<Option<Seq<char>>, SDKErrorView> {
    match instruction_fragments(messages, provider) {
        Err(e) => Err(e),
        Ok(f) => Ok(
            if f.len() == 0 {
                None
            } else {
                Some(join_texts(f, "\n\n"@))
            },
        ),
    }
}

proof fn lemma_fragments_error_stays(messages: Seq<Message>, k: int, provider: Seq<char>)
    requires
        0 <= k <= messages.len(),
        instruction_fragments(messages.subrange(0, k), provider) is Err,
    ensures
        instruction_fragments(messages, provider) == instruction_fragments(messages.subrange(0, k), provider),
    decreases messages.len(),
{
    if k == messages.len() {
        assert(messages.subrange(0, k) =~= messages);
    } else {
        assert(messages.drop_last().subrange(0, k) =~= messages.subrange(0, k));
        lemma_fragments_error_stays(messages.drop_last(), k, provider);
    }
}

/// The system instruction of a conversation.
pub fn instruction_text(messages: &Vec<Message>, provider: &str) -> (r: Result<Option<String>, SDKError>)
    ensures
        match r {
            Ok(t) => instruction_text_spec(messages@, provider@) == Ok::<Option<Seq<char>>, SDKErrorView>(opt_seq(t)),
            Err(e) => instruction_text_spec(messages@, provider@) == Err::<Option<Seq<char>>, SDKErrorView>(e@),
        },
{
    let mut fragments: Vec<String> = Vec::new();
    let mut i: usize = 0;
    assert(messages@.subrange(0, 0) =~= Seq::<Message>::empty());
    assert(fragments@.map_values(|t: String| t@) =~= Seq::<Seq<char>>::empty());
    while i < messages.len()
        invariant
            i <= messages@.len(),
            instruction_fragments(messages@.subrange(0, i as int), provider@) == Ok::<Seq<Seq<char>>, SDKErrorView>(
                fragments@.map_values(|t: String| t@),
            ),
        decreases messages@.len() - i,
    {
        proof {
            let t = messages@.subrange(0, i + 1);
            assert(t.drop_last() =~= messages@.subrange(0, i as int));
            assert(t.last() == messages@[i as int]);
        }
        let system = match messages[i].role {
            MessageRole::System => true,
            MessageRole::Developer => true,
            _ => false,
        };
        if system {
            match text_only_message(&messages[i], provider) {
                Ok(Some(text)) => {
                    let ghost before = fragments@;
                    let ghost tv = text@;
                    fragments.push(text);
                    assert(fragments@.map_values(|t: String| t@) =~= before.map_values(|t: String| t@).push(tv));
                },
                Ok(None) => {},
                Err(e) => {
                    proof {
                        lemma_fragments_error_stays(messages@, i + 1, provider@);
                    }
                    return Err(e);
                },
            }
        }
        i = i + 1;
    }
    assert(messages@.subrange(0, messages@.len() as int) =~= messages@);
    if fragments.len() == 0 {
        Ok(None)
    } else {
        Ok(Some(join_strings(&fragments, "\n\n")))
    }
}

} // verus!
