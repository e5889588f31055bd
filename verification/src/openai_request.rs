//! Writing the library's messages as OpenAI Responses `input` items: message
//! items with their content, function calls and function call outputs.
use vstd::prelude::*;
use crate::errors::{SDKError, SDKErrorView};
use crate::gemini_request::{json_result_view, message_images_loaded};
use crate::json::{Json, JsonView, copy_json, json_text, json_to_text, jv, jv_items, lemma_jv_items_index, lemma_jv_items_push};
use crate::native::{non_empty_opt, non_empty_opt_str, role_wire_value, tool_choice_kind};
use crate::payload::{
    ImageSourceView, NormalizedImageSource, base64_text, encode_base64, image_is_loaded, image_source_spec, invalid_request_error, invalid_request_spec, json_str, normalize_image_source, obj1, obj2, obj3, obj4, object1, object2, object3, object4,
};
use crate::request::{
    ContentPart, ImageData, Message, MessageRole, ResponseFormat, ToolCall, ToolResultData, content_kind_name, part_kind, role_name, tool_call_check,
};
use crate::text::{concat2, concat3, opt_seq, owned, str_eq};
use crate::tools::{ToolChoice, ToolChoiceKind, ToolChoiceKindView, parse_error_to_adapter_spec, tool_choice_kind_spec};

verus! {

// ----- tool outputs and function calls -----
/// The `output` of a function call output: an array or a string as it is,
/// anything else as its compact JSON text.
pub open spec fn tool_output_value_spec(value: JsonView) -> JsonView {
    match value {
        JsonView::Array(_) => value,
        JsonView::Str(_) => value,
        _ => JsonView::Str(json_text(value)),
    }
}

/// The `output` of a function call output.
pub fn openai_tool_output_value(value: Json) -> (r: Json)
    ensures
        jv(r) == tool_output_value_spec(jv(value)),
{
    match value {
        Json::Array(_) => value,
        Json::Str(_) => value,
        other => Json::Str(json_to_text(&other)),
    }
}

/// A function call output item for a call id and a result.
pub open spec fn function_call_output_spec(call_id: Seq<char>, output: JsonView) -> JsonView {
    obj3("call_id"@, JsonView::Str(call_id), "output"@, output, "type"@, JsonView::Str("function_call_output"@))
}

/// The function call output item of a tool result.
pub fn openai_tool_output_from_result(result: &ToolResultData) -> (r: Result<Json, SDKError>)
    ensures
        json_result_view(r) == Ok::<JsonView, SDKErrorView>(
            function_call_output_spec(result.tool_call_id@, tool_output_value_spec(jv(result.content))),
        ),
{
    let output = openai_tool_output_value(copy_json(&result.content));
    Ok(object3("call_id", Json::Str(result.tool_call_id.clone()), "output", output, "type", json_str("function_call_output")))
}

/// The `arguments` text of a function call: the raw text the call came
/// with, else the compact JSON text of its arguments.
pub open spec fn call_arguments_text(tool_call: ToolCall) -> Seq<char> {
    match tool_call.raw_arguments {
        Some(raw) => raw@,
        None => json_text(jv(tool_call.arguments)),
    }
}

/// A function call item; a call with a blank id, name or type is refused.
pub open spec fn function_call_item_spec(tool_call: ToolCall) -> Result<JsonView, SDKErrorView> {
    match tool_call_check(tool_call@) {
        Err(m) => Err(invalid_request_spec("openai"@, m)),
        Ok(_) => Ok(
            obj4(
                "arguments"@,
                JsonView::Str(call_arguments_text(tool_call)),
                "id"@,
                JsonView::Str(tool_call.id@),
                "name"@,
                JsonView::Str(tool_call.name@),
                "type"@,
                JsonView::Str("function_call"@),
            ),
        ),
    }
}

/// The function call item of a tool call.
pub fn openai_function_call_item(tool_call: &ToolCall) -> (r: Result<Json, SDKError>)
    ensures
        json_result_view(r) == function_call_item_spec(*tool_call),
{
    match tool_call.validate() {
        Ok(()) => {},
        Err(m) => return Err(invalid_request_error("openai", m)),
    }
    let arguments = match &tool_call.raw_arguments {
        Some(raw) => raw.clone(),
        None => json_to_text(&tool_call.arguments),
    };
    Ok(
        object4(
            "arguments",
            Json::Str(arguments),
            "id",
            Json::Str(tool_call.id.clone()),
            "name",
            Json::Str(tool_call.name.clone()),
            "type",
            json_str("function_call"),
        ),
    )
}

// ----- images -----
/// The `image_url` of an image: its URL, or a `data:` URL with its base64
/// bytes.
pub open spec fn image_url_spec(source: ImageSourceView) -> Seq<char> {
    match source {
        ImageSourceView::Url { url, .. } => url,
        ImageSourceView::Data { data, media_type } => "data:"@ + media_type + ";base64,"@ + base64_text(data),
    }
}

/// The `image_url` of a normalized image.
pub fn openai_image_url(image: &NormalizedImageSource) -> (r: String)
    ensures
        r@ == image_url_spec(image@),
{
    match image {
        NormalizedImageSource::Url { url, .. } => url.clone(),
        NormalizedImageSource::Data { data, media_type } => {
            let encoded = encode_base64(data);
            let head = concat3("data:", media_type.as_str(), ";base64,");
            concat2(head.as_str(), encoded.as_str())
        },
    }
}

/// An input image part, with the image's detail when it is not blank.
pub open spec fn image_part_spec(image: ImageData) -> Result<JsonView, SDKErrorView> {
    match image_source_spec(image, "openai"@) {
        Err(e) => Err(e),
        Ok(source) => match non_empty_opt(opt_seq(image.detail)) {
            Some(d) => Ok(
                obj3(
                    "detail"@,
                    JsonView::Str(d),
                    "image_url"@,
                    JsonView::Str(image_url_spec(source)),
                    "type"@,
                    JsonView::Str("input_image"@),
                ),
            ),
            None => Ok(obj2("image_url"@, JsonView::Str(image_url_spec(source)), "type"@, JsonView::Str("input_image"@))),
        },
    }
}

/// An input image part, for an image whose local file, if any, has been read.
pub fn openai_image_part(image: &ImageData) -> (r: Result<Json, SDKError>)
    requires
        image_is_loaded(*image),
    ensures
        json_result_view(r) == image_part_spec(*image),
{
    let source = match normalize_image_source(image, "openai") {
        Ok(s) => s,
        Err(e) => return Err(e),
    };
    let url = openai_image_url(&source);
    let detail = match &image.detail {
        Some(d) => non_empty_opt_str(Some(d.as_str())),
        None => non_empty_opt_str(None),
    };
    match detail {
        Some(d) => Ok(object3("detail", Json::Str(d), "image_url", Json::Str(url), "type", json_str("input_image"))),
        None => Ok(object2("image_url", Json::Str(url), "type", json_str("input_image"))),
    }
}

// ----- tool choice -----
/// The `tool_choice` value for a kind of tool choice.
pub open spec fn tool_choice_value_spec(kind: ToolChoiceKindView) -> JsonView {
    match kind {
        ToolChoiceKindView::Named(name) => obj2(
            "function"@,
            obj1("name"@, JsonView::Str(name)),
            "type"@,
            JsonView::Str("function"@),
        ),
        ToolChoiceKindView::Required => JsonView::Str("required"@),
        ToolChoiceKindView::Auto => JsonView::Str("auto"@),
        ToolChoiceKindView::Disabled => JsonView::Str("none"@),
    }
}

/// The `tool_choice` value of a tool choice; one that cannot be used is
/// refused as the tool choice reports it.
pub fn openai_tool_choice_value(value: &ToolChoice) -> (r: Result<Json, SDKError>)
    ensures
        match r {
            Ok(v) => tool_choice_kind_spec(value.mode@, value.tool_name) matches Ok(k) && jv(v) == tool_choice_value_spec(k),
            Err(e) => tool_choice_kind_spec(value.mode@, value.tool_name) matches Err(pe)
                && e@ == parse_error_to_adapter_spec(pe, "openai"@),
        },
{
    let kind = match tool_choice_kind(value, "openai") {
        Ok(k) => k,
        Err(e) => return Err(e),
    };
    match kind {
        ToolChoiceKind::Named(name) => Ok(object2("function", object1("name", Json::Str(name)), "type", json_str("function"))),
        ToolChoiceKind::Required => Ok(json_str("required")),
        ToolChoiceKind::Auto => Ok(json_str("auto")),
        ToolChoiceKind::Disabled => Ok(json_str("none")),
    }
}

// ----- tool messages -----
/// What reading a tool message's parts has gathered: the call id, the one
/// tool result's content, the texts run together, and whether any text
/// part was met.
pub struct ToolOutputState {
    pub call_id: Option<Seq<char>>,
    pub result: Option<JsonView>,
    pub text: Seq<char>,
    pub has_text: bool,
}

/// Reading one part of a tool message: text is gathered, one tool result
/// with the message's call id is taken, anything else is refused.
pub open spec fn tool_output_step(part: ContentPart, st: ToolOutputState) -> Result<ToolOutputState, SDKErrorView> {
    match part {
        ContentPart::Text { text } => Ok(ToolOutputState { text: st.text + text@, has_text: true, ..st }),
        ContentPart::ToolResult { tool_result } => if st.call_id matches Some(existing) && existing != tool_result.tool_call_id@ {
            Err(invalid_request_spec("openai"@, "OpenAI tool messages must use a single tool_call_id"@))
        } else if st.result is Some {
            Err(invalid_request_spec("openai"@, "OpenAI tool messages support only one tool_result payload"@))
        } else {
            Ok(
                ToolOutputState {
                    call_id: Some(tool_result.tool_call_id@),
                    result: Some(jv(tool_result.content)),
                    ..st
                },
            )
        },
        _ => Err(invalid_request_spec("openai"@, "OpenAI tool messages support only text or tool_result content"@)),
    }
}

/// Reading the parts of a tool message in order; the first error stops it.
pub open spec fn tool_output_fold(parts: Seq<ContentPart>, init: ToolOutputState) -> Result<ToolOutputState, SDKErrorView>
    decreases parts.len(),
{
    if parts.len() == 0 {
        Ok(init)
    } else {
        match tool_output_fold(parts.drop_last(), init) {
            Err(e) => Err(e),
            Ok(st) => tool_output_step(parts.last(), st),
        }
    }
}

/// The function call output item of a tool message: it needs a call id
/// and either text or one tool result, not both.
pub open spec fn tool_output_from_message_spec(message: Message) -> Result<JsonView, SDKErrorView> {
    let init = ToolOutputState { call_id: opt_seq(message.tool_call_id), result: None, text: Seq::empty(), has_text: false };
    match tool_output_fold(message.content@, init) {
        Err(e) => Err(e),
        Ok(st) => match st.call_id {
            None => Err(invalid_request_spec("openai"@, "OpenAI tool messages require a tool_call_id"@)),
            Some(id) => match st.result {
                Some(v) => if st.has_text {
                    Err(invalid_request_spec("openai"@, "OpenAI tool messages cannot mix text and tool_result content"@))
                } else {
                    Ok(function_call_output_spec(id, tool_output_value_spec(v)))
                },
                None => if st.has_text {
                    Ok(function_call_output_spec(id, JsonView::Str(st.text)))
                } else {
                    Err(invalid_request_spec("openai"@, "OpenAI tool messages require text or tool_result content"@))
                },
            },
        },
    }
}

proof fn lemma_tool_output_error_stays(parts: Seq<ContentPart>, k: int, init: ToolOutputState)
    requires
        0 <= k <= parts.len(),
        tool_output_fold(parts.subrange(0, k), init) is Err,
    ensures
        tool_output_fold(parts, init) == tool_output_fold(parts.subrange(0, k), init),
    decreases parts.len(),
{
    if k == parts.len() {
        assert(parts.subrange(0, k) =~= parts);
    } else {
        assert(parts.drop_last().subrange(0, k) =~= parts.subrange(0, k));
        lemma_tool_output_error_stays(parts.drop_last(), k, init);
    }
}

/// The function call output item of a tool message.
pub fn openai_tool_output_from_message(message: &Message) -> (r: Result<Json, SDKError>)
    ensures
        json_result_view(r) == tool_output_from_message_spec(*message),
{
    let ghost init = ToolOutputState {
        call_id: opt_seq(message.tool_call_id),
        result: None,
        text: Seq::empty(),
        has_text: false,
    };
    let mut call_id: Option<String> = match &message.tool_call_id {
        Some(id) => Some(id.clone()),
        None => None,
    };
    let mut result: Option<Json> = None;
    let mut text = String::new();
    let mut has_text = false;
    let parts = &message.content;
    let mut i: usize = 0;
    proof {
        assert(parts@.subrange(0, 0) =~= Seq::<ContentPart>::empty());
        assert(text@ =~= Seq::<char>::empty());
    }
    while i < parts.len()
        invariant
            i <= parts.len(),
            parts@ == message.content@,
            init == (ToolOutputState {
                call_id: opt_seq(message.tool_call_id),
                result: None,
                text: Seq::empty(),
                has_text: false,
            }),
            tool_output_fold(parts@.subrange(0, i as int), init) == Ok::<ToolOutputState, SDKErrorView>(
                ToolOutputState {
                    call_id: opt_seq(call_id),
                    result: match result {
                        Some(v) => Some(jv(v)),
                        None => None,
                    },
                    text: text@,
                    has_text,
                },
            ),
        decreases parts.len() - i,
    {
        proof {
            assert(parts@.subrange(0, i + 1).drop_last() =~= parts@.subrange(0, i as int));
        }
        match &parts[i] {
            ContentPart::Text { text: value } => {
                text = concat2(text.as_str(), value.as_str());
                has_text = true;
            },
            ContentPart::ToolResult { tool_result } => {
                let mismatch = match &call_id {
                    Some(existing) => !str_eq(existing.as_str(), tool_result.tool_call_id.as_str()),
                    None => false,
                };
                if mismatch {
                    proof {
                        lemma_tool_output_error_stays(parts@, i + 1, init);
                    }
                    return Err(invalid_request_error("openai", owned("OpenAI tool messages must use a single tool_call_id")));
                }
                if result.is_some() {
                    proof {
                        lemma_tool_output_error_stays(parts@, i + 1, init);
                    }
                    return Err(
                        invalid_request_error("openai", owned("OpenAI tool messages support only one tool_result payload")),
                    );
                }
                call_id = Some(tool_result.tool_call_id.clone());
                result = Some(copy_json(&tool_result.content));
            },
            _ => {
                proof {
                    lemma_tool_output_error_stays(parts@, i + 1, init);
                }
                return Err(
                    invalid_request_error("openai", owned("OpenAI tool messages support only text or tool_result content")),
                );
            },
        }
        i = i + 1;
    }
    proof {
        assert(parts@.subrange(0, i as int) =~= parts@);
    }
    let id = match call_id {
        Some(id) => id,
        None => return Err(invalid_request_error("openai", owned("OpenAI tool messages require a tool_call_id"))),
    };
    match result {
        Some(v) => {
            if has_text {
                return Err(
                    invalid_request_error("openai", owned("OpenAI tool messages cannot mix text and tool_result content")),
                );
            }
            let output = openai_tool_output_value(v);
            Ok(object3("call_id", Json::Str(id), "output", output, "type", json_str("function_call_output")))
        },
        None => {
            if !has_text {
                return Err(
                    invalid_request_error("openai", owned("OpenAI tool messages require text or tool_result content")),
                );
            }
            Ok(object3("call_id", Json::Str(id), "output", Json::Str(text), "type", json_str("function_call_output")))
        },
    }
}

// ----- message input items -----
/// A message item holding gathered content, with the message's name when
/// it is not blank.
pub open spec fn message_item_spec(message: Message, content: Seq<JsonView>) -> JsonView {
    match non_empty_opt(opt_seq(message.name)) {
        Some(name) => obj4(
            "content"@,
            JsonView::Array(content),
            "name"@,
            JsonView::Str(name),
            "role"@,
            JsonView::Str(role_name(message.role)),
            "type"@,
            JsonView::Str("message"@),
        ),
        None => obj3(
            "content"@,
            JsonView::Array(content),
            "role"@,
            JsonView::Str(role_name(message.role)),
            "type"@,
            JsonView::Str("message"@),
        ),
    }
}

/// The items after gathered content is closed into a message item; no
/// item is made of no content.
pub open spec fn flush_items(message: Message, items: Seq<JsonView>, content: Seq<JsonView>) -> Seq<JsonView> {
    if content.len() == 0 {
        items
    } else {
        items.push(message_item_spec(message, content))
    }
}

/// A text content part: output text in an assistant message, input text
/// in any other.
pub open spec fn text_content_spec(message: Message, text: Seq<char>) -> JsonView {
    obj2(
        "text"@,
        JsonView::Str(text),
        "type"@,
        JsonView::Str(if message.role == MessageRole::Assistant { "output_text"@ } else { "input_text"@ }),
    )
}

/// Reading one part of a message: text and images are gathered as content,
/// a tool call or a tool result closes the content and becomes an item of
/// its own, and reasoning or any other part is refused.
pub open spec fn input_step(message: Message, part: ContentPart, items: Seq<JsonView>, content: Seq<JsonView>) -> Result<(Seq<JsonView>, Seq<JsonView>), SDKErrorView> {
    match part {
        ContentPart::Text { text } => Ok((items, content.push(text_content_spec(message, text@)))),
        ContentPart::Image { image } => match image_part_spec(image) {
            Err(e) => Err(e),
            Ok(p) => Ok((items, content.push(p))),
        },
        ContentPart::ToolCall { tool_call } => match function_call_item_spec(tool_call) {
            Err(e) => Err(e),
            Ok(x) => Ok((flush_items(message, items, content).push(x), Seq::empty())),
        },
        ContentPart::ToolResult { tool_result } => Ok(
            (
                flush_items(message, items, content).push(
                    function_call_output_spec(tool_result.tool_call_id@, tool_output_value_spec(jv(tool_result.content))),
                ),
                Seq::empty(),
            ),
        ),
        ContentPart::Thinking { .. } => Err(
            invalid_request_spec("openai"@, "OpenAI Responses request history does not support reasoning content parts"@),
        ),
        ContentPart::RedactedThinking { .. } => Err(
            invalid_request_spec("openai"@, "OpenAI Responses request history does not support reasoning content parts"@),
        ),
        _ => Err(
            invalid_request_spec(
                "openai"@,
                "OpenAI Responses request history does not support "@ + content_kind_name(part_kind(part)) + " content parts"@,
            ),
        ),
    }
}

/// Reading the parts of a message in order; the first error stops it.
pub open spec fn input_fold(message: Message, parts: Seq<ContentPart>) -> Result<(Seq<JsonView>, Seq<JsonView>), SDKErrorView>
    decreases parts.len(),
{
    if parts.len() == 0 {
        Ok((Seq::empty(), Seq::empty()))
    } else {
        match input_fold(message, parts.drop_last()) {
            Err(e) => Err(e),
            Ok((items, content)) => input_step(message, parts.last(), items, content),
        }
    }
}

/// The `input` items of a message: a tool message is one function call
/// output; any other message is its parts in order, consecutive text and
/// images joined into message items.
pub open spec fn message_input_items_spec(message: Message) -> Result<Seq<JsonView>, SDKErrorView> {
    if message.role == MessageRole::Tool {
        match tool_output_from_message_spec(message) {
            Err(e) => Err(e),
            Ok(x) => Ok(seq![x]),
        }
    } else {
        match input_fold(message, message.content@) {
            Err(e) => Err(e),
            Ok((items, content)) => Ok(flush_items(message, items, content)),
        }
    }
}

proof fn lemma_input_error_stays(message: Message, parts: Seq<ContentPart>, k: int)
    requires
        0 <= k <= parts.len(),
        input_fold(message, parts.subrange(0, k)) is Err,
    ensures
        input_fold(message, parts) == input_fold(message, parts.subrange(0, k)),
    decreases parts.len(),
{
    if k == parts.len() {
        assert(parts.subrange(0, k) =~= parts);
    } else {
        assert(parts.drop_last().subrange(0, k) =~= parts.subrange(0, k));
        lemma_input_error_stays(message, parts.drop_last(), k);
    }
}

/// Closes gathered content into a message item at the end of the items.
fn flush_content(message: &Message, items: Vec<Json>, content: Vec<Json>) -> (r: Vec<Json>)
    ensures
        jv_items(r@) == flush_items(*message, jv_items(items@), jv_items(content@)),
{
    proof {
        lemma_jv_items_index(content@);
    }
    if content.len() == 0 {
        return items;
    }
    let ghost c = content@;
    let role = json_str(role_wire_value(message.role));
    let name = match &message.name {
        Some(n) => non_empty_opt_str(Some(n.as_str())),
        None => non_empty_opt_str(None),
    };
    let item = match name {
        Some(n) => object4("content", Json::Array(content), "name", Json::Str(n), "role", role, "type", json_str("message")),
        None => object3("content", Json::Array(content), "role", role, "type", json_str("message")),
    };
    let mut items = items;
    let ghost before = items@;
    items.push(item);
    proof {
        lemma_jv_items_push(before, item);
    }
    items
}

/// The `input` items of a message whose images' local files, if any, have
/// been read.
pub fn openai_message_input_items(message: &Message) -> (r: Result<Vec<Json>, SDKError>)
    requires
        message_images_loaded(*message),
    ensures
        match r {
            Ok(v) => message_input_items_spec(*message) == Ok::<Seq<JsonView>, SDKErrorView>(jv_items(v@)),
            Err(e) => message_input_items_spec(*message) == Err::<Seq<JsonView>, SDKErrorView>(e@),
        },
{
    match message.role {
        MessageRole::Tool => {
            let x = match openai_tool_output_from_message(message) {
                Ok(x) => x,
                Err(e) => return Err(e),
            };
            let mut v: Vec<Json> = Vec::new();
            v.push(x);
            proof {
                lemma_jv_items_push(Seq::empty(), x);
                assert(Seq::<Json>::empty().push(x) =~= v@);
                assert(jv_items(Seq::<Json>::empty()) =~= Seq::<JsonView>::empty());
            }
            return Ok(v);
        },
        _ => {},
    }
    let mut items: Vec<Json> = Vec::new();
    let mut content: Vec<Json> = Vec::new();
    let parts = &message.content;
    let mut i: usize = 0;
    proof {
        assert(parts@.subrange(0, 0) =~= Seq::<ContentPart>::empty());
    }
    while i < parts.len()
        invariant
            i <= parts.len(),
            parts@ == message.content@,
            message.role != MessageRole::Tool,
            message_images_loaded(*message),
            input_fold(*message, parts@.subrange(0, i as int)) == Ok::<(Seq<JsonView>, Seq<JsonView>), SDKErrorView>(
                (jv_items(items@), jv_items(content@)),
            ),
        decreases parts.len() - i,
    {
        proof {
            assert(parts@.subrange(0, i + 1).drop_last() =~= parts@.subrange(0, i as int));
        }
        match &parts[i] {
            ContentPart::Text { text } => {
                let kind = match message.role {
                    MessageRole::Assistant => "output_text",
                    _ => "input_text",
                };
                let x = object2("text", Json::Str(text.clone()), "type", json_str(kind));
                let ghost before = content@;
                content.push(x);
                proof {
                    lemma_jv_items_push(before, x);
                }
            },
            ContentPart::Image { image } => {
                proof {
                    assert(message.content@[i as int] matches ContentPart::Image { image } ==> image_is_loaded(image));
                }
                let x = match openai_image_part(image) {
                    Ok(x) => x,
                    Err(e) => {
                        proof {
                            lemma_input_error_stays(*message, parts@, i + 1);
                        }
                        return Err(e);
                    },
                };
                let ghost before = content@;
                content.push(x);
                proof {
                    lemma_jv_items_push(before, x);
                }
            },
            ContentPart::ToolCall { tool_call } => {
                let x = match openai_function_call_item(tool_call) {
                    Ok(x) => x,
                    Err(e) => {
                        proof {
                            lemma_input_error_stays(*message, parts@, i + 1);
                        }
                        return Err(e);
                    },
                };
                let flushed = flush_content(message, items, content);
                items = flushed;
                let ghost before = items@;
                items.push(x);
                content = Vec::new();
                proof {
                    lemma_jv_items_push(before, x);
                    assert(jv_items(content@) =~= Seq::<JsonView>::empty());
                }
            },
            ContentPart::ToolResult { tool_result } => {
                let x = match openai_tool_output_from_result(tool_result) {
                    Ok(x) => x,
                    Err(e) => return Err(e),
                };
                let flushed = flush_content(message, items, content);
                items = flushed;
                let ghost before = items@;
                items.push(x);
                content = Vec::new();
                proof {
                    lemma_jv_items_push(before, x);
                    assert(jv_items(content@) =~= Seq::<JsonView>::empty());
                }
            },
            ContentPart::Thinking { .. } => {
                proof {
                    lemma_input_error_stays(*message, parts@, i + 1);
                }
                return Err(
                    invalid_request_error(
                        "openai",
                        owned("OpenAI Responses request history does not support reasoning content parts"),
                    ),
                );
            },
            ContentPart::RedactedThinking { .. } => {
                proof {
                    lemma_input_error_stays(*message, parts@, i + 1);
                }
                return Err(
                    invalid_request_error(
                        "openai",
                        owned("OpenAI Responses request history does not support reasoning content parts"),
                    ),
                );
            },
            _ => {
                proof {
                    lemma_input_error_stays(*message, parts@, i + 1);
                }
                let kind = parts[i].kind();
                return Err(
                    invalid_request_error(
                        "openai",
                        concat3("OpenAI Responses request history does not support ", kind.as_str(), " content parts"),
                    ),
                );
            },
        }
        i = i + 1;
    }
    proof {
        assert(parts@.subrange(0, i as int) =~= parts@);
    }
    Ok(flush_content(message, items, content))
}

// ----- response format -----
/// The `response_format` value of a response format.
pub open spec fn response_format_spec(format: ResponseFormat) -> JsonView {
    match format {
        ResponseFormat::Text => obj1("type"@, JsonView::Str("text"@)),
        ResponseFormat::JsonObject => obj1("type"@, JsonView::Str("json_object"@)),
        ResponseFormat::JsonSchema { json_schema, strict } => obj3(
            "json_schema"@,
            jv(json_schema),
            "strict"@,
            JsonView::Bool(strict),
            "type"@,
            JsonView::Str("json_schema"@),
        ),
    }
}

/// The `response_format` value of a response format.
pub fn openai_response_format(response_format: &ResponseFormat) -> (r: Json)
    ensures
        jv(r) == response_format_spec(*response_format),
{
    match response_format {
        ResponseFormat::Text => object1("type", json_str("text")),
        ResponseFormat::JsonObject => object1("type", json_str("json_object")),
        ResponseFormat::JsonSchema { json_schema, strict } => object3(
            "json_schema",
            copy_json(json_schema),
            "strict",
            Json::Bool(*strict),
            "type",
            json_str("json_schema"),
        ),
    }
}

} // verus!
