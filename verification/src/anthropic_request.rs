//! Writing the library's messages as Anthropic Messages entries: content
//! blocks, tool results first in user turns, and a message's cache control
//! on its last block.
use vstd::prelude::*;
use crate::errors::{SDKError, SDKErrorView, opt_str_view};
use crate::gemini_request::{json_result_view, role_debug_name};
use crate::json::{Json, JsonView, copy_json, get, json_get, json_text, json_to_text, jv, jv_items, jv_members, view_get};
use crate::native::{non_empty_opt, non_empty_opt_str, thinking_source_check, validate_provider_thinking_source};
use crate::payload::{
    ImageSourceView, NormalizedImageSource, arguments_object_spec, base64_text, encode_base64, image_is_loaded, image_source_spec,
    invalid_request_error, invalid_request_spec, json_str, normalize_image_source, obj2, obj3, obj4, object2, object3, object4,
    tool_call_arguments_object,
};
use crate::request::{ContentPart, ImageData, Message, MessageRole, ThinkingData, ToolResultData, content_kind_name, part_kind};
use crate::text::{concat3, opt_seq, owned, str_eq};

verus! {

// ----- blocks -----
/// A text block.
pub open spec fn text_block(text: Seq<char>) -> JsonView {
    obj2("text"@, JsonView::Str(text), "type"@, JsonView::Str("text"@))
}

/// A raw block passed through: it must be an object, and one without a
/// `type` takes the (trimmed, non-blank) fallback kind as its type.
pub open spec fn raw_block_spec(raw: Json, fallback_type: Option<Seq<char>>) -> Result<JsonView, SDKErrorView> {
    match raw {
        Json::Object(members) => if json_get(raw, "type"@) is Some {
            Ok(jv(raw))
        } else {
            match non_empty_opt(fallback_type) {
                Some(kind) => Ok(JsonView::Object(jv_members(members@).push(("type"@, JsonView::Str(kind))))),
                None => Err(invalid_request_spec("anthropic"@, "Anthropic raw provider content blocks require a type"@)),
            }
        },
        _ => Err(invalid_request_spec("anthropic"@, "Anthropic raw provider content blocks must be objects"@)),
    }
}

/// A raw block passed through.
pub fn anthropic_raw_content_block(raw: &Json, fallback_type: Option<&str>) -> (r: Result<Json, SDKError>)
    ensures
        json_result_view(r) == raw_block_spec(*raw, opt_str_view(fallback_type)),
{
    let members = match raw {
        Json::Object(members) => members,
        _ => return Err(
            invalid_request_error("anthropic", owned("Anthropic raw provider content blocks must be objects")),
        ),
    };
    if get(raw, "type").is_some() {
        return Ok(copy_json(raw));
    }
    let kind = match non_empty_opt_str(fallback_type) {
        Some(k) => k,
        None => return Err(
            invalid_request_error("anthropic", owned("Anthropic raw provider content blocks require a type")),
        ),
    };
    let copied = copy_json(raw);
    let mut out = match copied {
        Json::Object(ms) => ms,
        _ => Vec::new(),
    };
    let ghost before = out@;
    assert(jv_members(before) == jv_members(members@));
    let ghost k = kind@;
    let tkey = owned("type");
    let entry = (tkey, Json::Str(kind));
    assert(entry.0@ == "type"@ && jv(entry.1) == JsonView::Str(k));
    out.push(entry);
    assert(out@.drop_last() =~= before);
    assert(out@.last() == entry);
    assert(jv_members(out@) == jv_members(members@).push(("type"@, JsonView::Str(k))));
    assert(non_empty_opt(opt_str_view(fallback_type)) == Some(k));
    assert(json_get(*raw, "type"@) is None);
    Ok(Json::Object(out))
}

/// An image block with the source of an image given by URL or by bytes.
pub open spec fn image_block_of(source: JsonView) -> JsonView {
    obj2("source"@, source, "type"@, JsonView::Str("image"@))
}

/// The source of an image given by bytes.
pub open spec fn base64_source(data: Seq<u8>, media_type: Seq<char>) -> JsonView {
    obj3(
        "data"@,
        JsonView::Str(base64_text(data)),
        "media_type"@,
        JsonView::Str(media_type),
        "type"@,
        JsonView::Str("base64"@),
    )
}

/// An image block: by URL, or with base64 bytes.
pub open spec fn anthropic_image_block_spec(image: ImageData) -> Result<JsonView, SDKErrorView> {
    match image_source_spec(image, "anthropic"@) {
        Err(e) => Err(e),
        Ok(ImageSourceView::Url { url, .. }) => Ok(
            image_block_of(obj2("type"@, JsonView::Str("url"@), "url"@, JsonView::Str(url))),
        ),
        Ok(ImageSourceView::Data { data, media_type }) => Ok(image_block_of(base64_source(data, media_type))),
    }
}

fn base64_image_block(data: &Vec<u8>, media_type: String) -> (r: Json)
    ensures
        jv(r) == image_block_of(base64_source(data@, media_type@)),
{
    let encoded = encode_base64(data);
    object2(
        "source",
        object3("data", Json::Str(encoded), "media_type", Json::Str(media_type), "type", json_str("base64")),
        "type",
        json_str("image"),
    )
}

/// An image block, for an image whose local file, if any, has been read.
pub fn anthropic_image_block(image: &ImageData) -> (r: Result<Json, SDKError>)
    requires
        image_is_loaded(*image),
    ensures
        json_result_view(r) == anthropic_image_block_spec(*image),
{
    match normalize_image_source(image, "anthropic") {
        Err(e) => Err(e),
        Ok(NormalizedImageSource::Url { url, .. }) => Ok(
            object2("source", object2("type", json_str("url"), "url", Json::Str(url)), "type", json_str("image")),
        ),
        Ok(NormalizedImageSource::Data { data, media_type }) => Ok(base64_image_block(&data, media_type)),
    }
}

/// A tool result's content as text: a string as it is, `null` as nothing,
/// anything else as its compact JSON text.
pub open spec fn result_text(content: Json) -> Seq<char> {
    match content {
        Json::Str(s) => s@,
        Json::Null => Seq::empty(),
        _ => json_text(jv(content)),
    }
}

/// The content of a tool result block: its text, or, when the result
/// carries an image, the text (unless empty) and the image as blocks.
pub open spec fn tool_result_content_spec(result: ToolResultData) -> JsonView {
    match result.image_data {
        Some(bytes) => {
            let text = result_text(result.content);
            let image = image_block_of(
                base64_source(
                    bytes@,
                    match result.image_media_type {
                        Some(m) => m@,
                        None => "image/png"@,
                    },
                ),
            );
            JsonView::Array(
                if text.len() > 0 {
                    seq![text_block(text), image]
                } else {
                    seq![image]
                },
            )
        },
        None => JsonView::Str(result_text(result.content)),
    }
}

fn result_text_of(content: &Json) -> (r: String)
    ensures
        r@ == result_text(*content),
{
    match content {
        Json::Str(s) => s.clone(),
        Json::Null => String::new(),
        _ => json_to_text(content),
    }
}

/// The content of a tool result block.
pub fn anthropic_tool_result_content(result: &ToolResultData) -> (r: Json)
    ensures
        jv(r) == tool_result_content_spec(*result),
{
    match &result.image_data {
        Some(bytes) => {
            let text = result_text_of(&result.content);
            let media_type = match &result.image_media_type {
                Some(m) => m.clone(),
                None => owned("image/png"),
            };
            let image = base64_image_block(bytes, media_type);
            let ghost gi = image;
            let mut blocks: Vec<Json> = Vec::new();
            if text.unicode_len() > 0 {
                let ghost t = text@;
                blocks.push(object2("text", Json::Str(text), "type", json_str("text")));
                blocks.push(image);
                proof {
                    crate::json::lemma_jv_items_index(blocks@);
                    assert(jv_items(blocks@) =~= seq![text_block(t), jv(gi)]);
                }
            } else {
                blocks.push(image);
                proof {
                    crate::json::lemma_jv_items_index(blocks@);
                    assert(jv_items(blocks@) =~= seq![jv(gi)]);
                }
            }
            Json::Array(blocks)
        },
        None => Json::Str(result_text_of(&result.content)),
    }
}

/// A reasoning block sent back: its text, with its signature when it has one.
pub open spec fn thinking_block(thinking: ThinkingData) -> JsonView {
    match non_empty_opt(opt_seq(thinking.signature)) {
        Some(sig) => obj3(
            "signature"@,
            JsonView::Str(sig),
            "thinking"@,
            JsonView::Str(thinking.text@),
            "type"@,
            JsonView::Str("thinking"@),
        ),
        None => obj2("thinking"@, JsonView::Str(thinking.text@), "type"@, JsonView::Str("thinking"@)),
    }
}

/// The block one content part of a message becomes.
pub open spec fn anthropic_block_spec(message: Message, part: ContentPart) -> Result<JsonView, SDKErrorView> {
    match part {
        ContentPart::Text { text } => Ok(text_block(text@)),
        ContentPart::Custom { kind, raw } => raw_block_spec(raw, Some(kind@)),
        ContentPart::Raw { kind, raw } => raw_block_spec(raw, Some(kind@)),
        ContentPart::Provider { raw } => raw_block_spec(raw, None),
        ContentPart::Image { image } => anthropic_image_block_spec(image),
        ContentPart::Thinking { thinking } => match thinking_source_check(
            "anthropic"@,
            opt_seq(thinking.source_provider),
            opt_seq(thinking.signature),
            thinking.redacted,
            "thinking"@,
        ) {
            Err(e) => Err(e),
            Ok(_) => Ok(thinking_block(thinking)),
        },
        ContentPart::RedactedThinking { thinking } => match thinking_source_check(
            "anthropic"@,
            opt_seq(thinking.source_provider),
            opt_seq(thinking.signature),
            thinking.redacted,
            "redacted_thinking"@,
        ) {
            Err(e) => Err(e),
            Ok(_) => Ok(
                obj2("data"@, JsonView::Str(thinking.text@), "type"@, JsonView::Str("redacted_thinking"@)),
            ),
        },
        ContentPart::ToolCall { tool_call } => if message.role != MessageRole::Assistant {
            Err(invalid_request_spec("anthropic"@, "Anthropic tool_use blocks are only valid in assistant messages"@))
        } else {
            match arguments_object_spec(tool_call.arguments, "anthropic"@) {
                Err(e) => Err(e),
                Ok(input) => Ok(
                    obj4(
                        "id"@,
                        JsonView::Str(tool_call.id@),
                        "input"@,
                        input,
                        "name"@,
                        JsonView::Str(tool_call.name@),
                        "type"@,
                        JsonView::Str("tool_use"@),
                    ),
                ),
            }
        },
        ContentPart::ToolResult { tool_result } => if message.role != MessageRole::Tool {
            Err(invalid_request_spec("anthropic"@, "Anthropic tool_result blocks are only valid in tool messages"@))
        } else if tool_result.is_error {
            Ok(
                obj4(
                    "content"@,
                    tool_result_content_spec(tool_result),
                    "is_error"@,
                    JsonView::Bool(true),
                    "tool_use_id"@,
                    JsonView::Str(tool_result.tool_call_id@),
                    "type"@,
                    JsonView::Str("tool_result"@),
                ),
            )
        } else {
            Ok(
                obj3(
                    "content"@,
                    tool_result_content_spec(tool_result),
                    "tool_use_id"@,
                    JsonView::Str(tool_result.tool_call_id@),
                    "type"@,
                    JsonView::Str("tool_result"@),
                ),
            )
        },
        _ => Err(
            invalid_request_spec(
                "anthropic"@,
                "Anthropic messages request does not support "@ + content_kind_name(part_kind(part))
                    + " content parts"@,
            ),
        ),
    }
}

fn anthropic_block(message: &Message, part: &ContentPart) -> (r: Result<Json, SDKError>)
    requires
        *part matches ContentPart::Image { image } ==> image_is_loaded(image),
    ensures
        json_result_view(r) == anthropic_block_spec(*message, *part),
{
    match part {
        ContentPart::Text { text } => Ok(object2("text", Json::Str(text.clone()), "type", json_str("text"))),
        ContentPart::Custom { kind, raw } => anthropic_raw_content_block(raw, Some(kind.as_str())),
        ContentPart::Raw { kind, raw } => anthropic_raw_content_block(raw, Some(kind.as_str())),
        ContentPart::Provider { raw } => anthropic_raw_content_block(raw, None),
        ContentPart::Image { image } => anthropic_image_block(image),
        ContentPart::Thinking { thinking } => {
            match validate_provider_thinking_source("anthropic", thinking, "thinking") {
                Ok(()) => {},
                Err(e) => return Err(e),
            }
            let signature = match &thinking.signature {
                Some(s) => non_empty_opt_str(Some(s.as_str())),
                None => non_empty_opt_str(None),
            };
            match signature {
                Some(sig) => Ok(
                    object3(
                        "signature",
                        Json::Str(sig),
                        "thinking",
                        Json::Str(thinking.text.clone()),
                        "type",
                        json_str("thinking"),
                    ),
                ),
                None => Ok(object2("thinking", Json::Str(thinking.text.clone()), "type", json_str("thinking"))),
            }
        },
        ContentPart::RedactedThinking { thinking } => {
            match validate_provider_thinking_source("anthropic", thinking, "redacted_thinking") {
                Ok(()) => {},
                Err(e) => return Err(e),
            }
            Ok(object2("data", Json::Str(thinking.text.clone()), "type", json_str("redacted_thinking")))
        },
        ContentPart::ToolCall { tool_call } => {
            match message.role {
                MessageRole::Assistant => {},
                _ => return Err(
                    invalid_request_error("anthropic", owned("Anthropic tool_use blocks are only valid in assistant messages")),
                ),
            }
            let input = match tool_call_arguments_object(tool_call, "anthropic") {
                Ok(a) => a,
                Err(e) => return Err(e),
            };
            Ok(
                object4(
                    "id",
                    Json::Str(tool_call.id.clone()),
                    "input",
                    input,
                    "name",
                    Json::Str(tool_call.name.clone()),
                    "type",
                    json_str("tool_use"),
                ),
            )
        },
        ContentPart::ToolResult { tool_result } => {
            match message.role {
                MessageRole::Tool => {},
                _ => return Err(
                    invalid_request_error("anthropic", owned("Anthropic tool_result blocks are only valid in tool messages")),
                ),
            }
            let content = anthropic_tool_result_content(tool_result);
            let id = Json::Str(tool_result.tool_call_id.clone());
            if tool_result.is_error {
                Ok(object4("content", content, "is_error", Json::Bool(true), "tool_use_id", id, "type", json_str("tool_result")))
            } else {
                Ok(object3("content", content, "tool_use_id", id, "type", json_str("tool_result")))
            }
        },
        _ => {
            let kind = part.kind();
            Err(
                invalid_request_error(
                    "anthropic",
                    concat3("Anthropic messages request does not support ", kind.as_str(), " content parts"),
                ),
            )
        },
    }
}

// ----- tool results first -----
/// Whether a block is a tool result.
pub open spec fn is_tool_result_block(block: JsonView) -> bool {
    view_get(block, "type"@) == Some(JsonView::Str("tool_result"@))
}

/// The tool-result blocks, in order.
pub open spec fn tool_result_blocks(s: Seq<JsonView>) -> Seq<JsonView>
    decreases s.len(),
{
    if s.len() == 0 {
        s
    } else if is_tool_result_block(s.last()) {
        tool_result_blocks(s.drop_last()).push(s.last())
    } else {
        tool_result_blocks(s.drop_last())
    }
}

/// The other blocks, in order.
pub open spec fn other_blocks(s: Seq<JsonView>) -> Seq<JsonView>
    decreases s.len(),
{
    if s.len() == 0 {
        s
    } else if is_tool_result_block(s.last()) {
        other_blocks(s.drop_last())
    } else {
        other_blocks(s.drop_last()).push(s.last())
    }
}

/// Blocks with the tool results moved to the front; both groups keep their
/// order.
pub open spec fn prioritized_blocks(s: Seq<JsonView>) -> Seq<JsonView> {
    tool_result_blocks(s) + other_blocks(s)
}

fn is_tool_result(block: &Json) -> (r: bool)
    ensures
        r == is_tool_result_block(jv(*block)),
{
    proof {
        crate::json::lemma_view_get(*block, "type"@);
    }
    match get(block, "type") {
        Some(Json::Str(s)) => str_eq(s.as_str(), "tool_result"),
        _ => false,
    }
}

/// Moves the tool-result blocks to the front, keeping the order of both groups.
pub fn prioritize_anthropic_tool_results(blocks: &Vec<Json>) -> (r: Vec<Json>)
    ensures
        jv_items(r@) == prioritized_blocks(jv_items(blocks@)),
{
    let mut results: Vec<Json> = Vec::new();
    let mut others: Vec<Json> = Vec::new();
    assert(jv_items(results@) =~= Seq::<JsonView>::empty());
    assert(jv_items(blocks@.subrange(0, 0)) =~= Seq::<JsonView>::empty());
    let mut i: usize = 0;
    while i < blocks.len()
        invariant
            i <= blocks@.len(),
            jv_items(results@) == tool_result_blocks(jv_items(blocks@.subrange(0, i as int))),
            jv_items(others@) == other_blocks(jv_items(blocks@.subrange(0, i as int))),
        decreases blocks@.len() - i,
    {
        proof {
            let t = blocks@.subrange(0, i + 1);
            assert(t.drop_last() =~= blocks@.subrange(0, i as int));
            assert(t.last() == blocks@[i as int]);
            let tv = jv_items(t);
            assert(tv.drop_last() =~= jv_items(blocks@.subrange(0, i as int)));
            assert(tv.last() == jv(blocks@[i as int]));
        }
        let block = copy_json(&blocks[i]);
        let ghost before_r = results@;
        let ghost before_o = others@;
        if is_tool_result(&block) {
            results.push(block);
            assert(results@.drop_last() =~= before_r);
        } else {
            others.push(block);
            assert(others@.drop_last() =~= before_o);
        }
        i = i + 1;
    }
    assert(blocks@.subrange(0, blocks@.len() as int) =~= blocks@);
    let ghost trs = jv_items(results@);
    let ghost ots = jv_items(others@);
    let mut k: usize = 0;
    proof {
        crate::json::lemma_jv_items_index(others@);
    }
    assert(trs + ots.subrange(0, 0) =~= trs);
    while k < others.len()
        invariant
            k <= others@.len(),
            ots == jv_items(others@),
            ots.len() == others@.len(),
            jv_items(results@) == trs + ots.subrange(0, k as int),
        decreases others@.len() - k,
    {
        proof {
            crate::json::lemma_jv_items_index(others@);
        }
        let item = copy_json(&others[k]);
        let ghost before = results@;
        results.push(item);
        proof {
            assert(results@.drop_last() =~= before);
            assert(trs + ots.subrange(0, k + 1) =~= (trs + ots.subrange(0, k as int)).push(ots[k as int]));
        }
        k = k + 1;
    }
    proof {
        crate::json::lemma_jv_items_index(others@);
    }
    assert(ots.subrange(0, ots.len() as int) =~= ots);
    results
}

proof fn lemma_partition_parts(s: Seq<JsonView>)
    ensures
        tool_result_blocks(s).to_multiset().add(other_blocks(s).to_multiset()) == s.to_multiset(),
        forall|k: int| 0 <= k < tool_result_blocks(s).len() ==> is_tool_result_block(#[trigger] tool_result_blocks(s)[k]),
        forall|k: int| 0 <= k < other_blocks(s).len() ==> !is_tool_result_block(#[trigger] other_blocks(s)[k]),
    decreases s.len(),
{
    broadcast use vstd::multiset::group_multiset_axioms, vstd::seq_lib::to_multiset_build, vstd::seq_lib::to_multiset_len;

    if s.len() == 0 {
        assert(s.to_multiset().len() == 0);
        assert(s.to_multiset() =~= vstd::multiset::Multiset::empty());
    } else {
        let t = s.drop_last();
        let x = s.last();
        lemma_partition_parts(t);
        assert(s =~= t.push(x));
        if is_tool_result_block(x) {
            assert(tool_result_blocks(s).to_multiset().add(other_blocks(s).to_multiset()) =~= s.to_multiset());
            assert forall|k: int| 0 <= k < tool_result_blocks(s).len() implies is_tool_result_block(
                #[trigger] tool_result_blocks(s)[k],
            ) by {
                if k < tool_result_blocks(t).len() {
                    assert(tool_result_blocks(s)[k] == tool_result_blocks(t)[k]);
                }
            }
        } else {
            assert(tool_result_blocks(s).to_multiset().add(other_blocks(s).to_multiset()) =~= s.to_multiset());
            assert forall|k: int| 0 <= k < other_blocks(s).len() implies !is_tool_result_block(
                #[trigger] other_blocks(s)[k],
            ) by {
                if k < other_blocks(t).len() {
                    assert(other_blocks(s)[k] == other_blocks(t)[k]);
                }
            }
        }
    }
}

/// Moving tool results to the front keeps every block, with repetition,
/// and puts every tool result before every other block.
pub proof fn lemma_prioritized_blocks_permutation(s: Seq<JsonView>)
    ensures
        prioritized_blocks(s).to_multiset() == s.to_multiset(),
        forall|i: int, j: int|
            0 <= i < j < prioritized_blocks(s).len() && is_tool_result_block(#[trigger] prioritized_blocks(s)[j])
                ==> is_tool_result_block(#[trigger] prioritized_blocks(s)[i]),
{
    lemma_partition_parts(s);
    vstd::seq_lib::lemma_multiset_commutative(tool_result_blocks(s), other_blocks(s));
    let p = prioritized_blocks(s);
    let n = tool_result_blocks(s).len();
    assert forall|i: int, j: int| 0 <= i < j < p.len() && is_tool_result_block(#[trigger] p[j]) implies is_tool_result_block(
        #[trigger] p[i],
    ) by {
        if j >= n {
            assert(p[j] == other_blocks(s)[j - n]);
        }
        assert(p[i] == tool_result_blocks(s)[i]);
    }
}

// ----- cache control -----
/// The cache control a message asks for in its `anthropic` metadata: it
/// must be an object.
pub open spec fn message_cache_control_spec(message: Message) -> Result<Option<JsonView>, SDKErrorView> {
    match message.provider_metadata.lookup("anthropic"@) {
        Some(options) => if options is Object {
            match json_get(options, "cache_control"@) {
                Some(v) => if v is Object {
                    Ok(Some(jv(v)))
                } else {
                    Err(invalid_request_spec("anthropic"@, "Anthropic message cache_control must be an object"@))
                },
                None => Ok(None),
            }
        } else {
            Ok(None)
        },
        None => Ok(None),
    }
}

/// The cache control a message asks for.
pub fn anthropic_message_cache_control(message: &Message) -> (r: Result<Option<Json>, SDKError>)
    ensures
        match r {
            Ok(Some(v)) => message_cache_control_spec(*message) == Ok::<Option<JsonView>, SDKErrorView>(Some(jv(v))),
            Ok(None) => message_cache_control_spec(*message) == Ok::<Option<JsonView>, SDKErrorView>(None),
            Err(e) => message_cache_control_spec(*message) == Err::<Option<JsonView>, SDKErrorView>(e@),
        },
{
    let options = match message.provider_metadata.get("anthropic") {
        Some(o) => o,
        None => return Ok(None),
    };
    match options {
        Json::Object(_) => {},
        _ => return Ok(None),
    }
    let value = match get(options, "cache_control") {
        Some(v) => v,
        None => return Ok(None),
    };
    match value {
        Json::Object(_) => Ok(Some(copy_json(value))),
        _ => Err(invalid_request_error("anthropic", owned("Anthropic message cache_control must be an object"))),
    }
}

/// Whether the last block is an object without a cache control.
pub open spec fn last_block_takes_cache_control(blocks: Seq<JsonView>) -> bool {
    blocks.len() > 0 && blocks.last() is Object && view_get(blocks.last(), "cache_control"@) is None
}

/// The blocks with a cache control added to the last one, when it is an
/// object that has none yet.
pub open spec fn with_cache_control_on_last(blocks: Seq<JsonView>, cache_control: JsonView) -> Seq<JsonView> {
    if last_block_takes_cache_control(blocks) {
        blocks.drop_last().push(JsonView::Object(blocks.last()->Object_0.push(("cache_control"@, cache_control))))
    } else {
        blocks
    }
}

/// Adds a cache control to the last block, when it is an object that has
/// none yet; tells whether it did.
pub fn apply_cache_control_to_last_block(blocks: &mut Vec<Json>, cache_control: &Json) -> (applied: bool)
    ensures
        applied == last_block_takes_cache_control(jv_items(old(blocks)@)),
        jv_items(final(blocks)@) == with_cache_control_on_last(jv_items(old(blocks)@), jv(*cache_control)),
{
    if blocks.len() == 0 {
        return false;
    }
    let ghost old_v = blocks@;
    let last = blocks.pop().unwrap();
    assert(blocks@ =~= old_v.drop_last());
    assert(last == old_v.last());
    assert(jv_items(old_v).last() == jv(last));
    assert(jv_items(old_v).drop_last() =~= jv_items(blocks@));
    proof {
        crate::json::lemma_view_get(last, "cache_control"@);
    }
    match last {
        Json::Object(mut members) => {
            if crate::json::members_get(&members, "cache_control").is_some() {
                let ghost before = blocks@;
                blocks.push(Json::Object(members));
                assert(blocks@ =~= old_v);
                false
            } else {
                let ghost before_members = members@;
                let key = owned("cache_control");
                let entry = (key, copy_json(cache_control));
                assert(entry.0@ == "cache_control"@ && jv(entry.1) == jv(*cache_control));
                members.push(entry);
                assert(members@.drop_last() =~= before_members);
                assert(members@.last() == entry);
                let updated = Json::Object(members);
                let ghost g = updated;
                assert(jv(g) == JsonView::Object(jv_members(before_members).push(("cache_control"@, jv(*cache_control)))));
                let ghost before = blocks@;
                blocks.push(updated);
                assert(blocks@.drop_last() =~= before);
                assert(blocks@.last() == g);
                true
            }
        },
        other => {
            let ghost o = other;
            blocks.push(other);
            assert(blocks@ =~= old_v);
            false
        },
    }
}

// ----- messages -----
/// The Anthropic role of a message role; system and developer messages go
/// to the system prompt instead.
pub open spec fn anthropic_role_spec(role: MessageRole) -> Option<Seq<char>> {
    match role {
        MessageRole::User => Some("user"@),
        MessageRole::Assistant => Some("assistant"@),
        MessageRole::Tool => Some("user"@),
        _ => None,
    }
}

/// The blocks of a list of parts, in order; the first error stops it.
pub open spec fn anthropic_blocks_spec(message: Message, parts: Seq<ContentPart>) -> Result<Seq<JsonView>, SDKErrorView>
    decreases parts.len(),
{
    if parts.len() == 0 {
        Ok(Seq::empty())
    } else {
        match anthropic_blocks_spec(message, parts.drop_last()) {
            Err(e) => Err(e),
            Ok(done) => match anthropic_block_spec(message, parts.last()) {
                Err(e) => Err(e),
                Ok(b) => Ok(done.push(b)),
            },
        }
    }
}

/// A message as an Anthropic Messages entry: its blocks (tool results first
/// in user turns, the message's cache control on the last block), its role,
/// and its name when it has one.
pub open spec fn anthropic_message_payload_spec(message: Message) -> Result<JsonView, SDKErrorView> {
    match anthropic_role_spec(message.role) {
        None => Err(
            invalid_request_spec(
                "anthropic"@,
                "Anthropic messages request does not support role "@ + role_debug_name(message.role) + " here"@,
            ),
        ),
        Some(role) => match anthropic_blocks_spec(message, message.content@) {
            Err(e) => Err(e),
            Ok(blocks) => {
                let ordered = if message.role == MessageRole::Assistant {
                    blocks
                } else {
                    prioritized_blocks(blocks)
                };
                match message_cache_control_spec(message) {
                    Err(e) => Err(e),
                    Ok(cache_control) => {
                        let content = match cache_control {
                            Some(c) => with_cache_control_on_last(ordered, c),
                            None => ordered,
                        };
                        Ok(
                            match non_empty_opt(opt_seq(message.name)) {
                                Some(n) => obj3(
                                    "content"@,
                                    JsonView::Array(content),
                                    "name"@,
                                    JsonView::Str(n),
                                    "role"@,
                                    JsonView::Str(role),
                                ),
                                None => obj2("content"@, JsonView::Array(content), "role"@, JsonView::Str(role)),
                            },
                        )
                    },
                }
            },
        },
    }
}

proof fn lemma_blocks_error_stays(message: Message, parts: Seq<ContentPart>, k: int)
    requires
        0 <= k <= parts.len(),
        anthropic_blocks_spec(message, parts.subrange(0, k)) is Err,
    ensures
        anthropic_blocks_spec(message, parts) == anthropic_blocks_spec(message, parts.subrange(0, k)),
    decreases parts.len(),
{
    if k == parts.len() {
        assert(parts.subrange(0, k) =~= parts);
    } else {
        assert(parts.drop_last().subrange(0, k) =~= parts.subrange(0, k));
        lemma_blocks_error_stays(message, parts.drop_last(), k);
    }
}

/// A message as an Anthropic Messages entry. Images with a local file must
/// have been read into their data.
pub fn anthropic_message_payload(message: &Message) -> (r: Result<Json, SDKError>)
    requires
        crate::gemini_request::message_images_loaded(*message),
    ensures
        json_result_view(r) == anthropic_message_payload_spec(*message),
{
    let role = match message.role {
        MessageRole::User => "user",
        MessageRole::Assistant => "assistant",
        MessageRole::Tool => "user",
        other => {
            let text = concat3("Anthropic messages request does not support role ", crate::gemini_request::role_debug(other), " here");
            return Err(invalid_request_error("anthropic", text));
        },
    };
    let mut content: Vec<Json> = Vec::new();
    let mut i: usize = 0;
    assert(message.content@.subrange(0, 0) =~= Seq::<ContentPart>::empty());
    assert(jv_items(content@) =~= Seq::<JsonView>::empty());
    while i < message.content.len()
        invariant
            i <= message.content@.len(),
            crate::gemini_request::message_images_loaded(*message),
            anthropic_role_spec(message.role) is Some,
            anthropic_blocks_spec(*message, message.content@.subrange(0, i as int)) == Ok::<Seq<JsonView>, SDKErrorView>(
                jv_items(content@),
            ),
        decreases message.content@.len() - i,
    {
        proof {
            let t = message.content@.subrange(0, i + 1);
            assert(t.drop_last() =~= message.content@.subrange(0, i as int));
            assert(t.last() == message.content@[i as int]);
        }
        match anthropic_block(message, &message.content[i]) {
            Ok(block) => {
                let ghost before = content@;
                content.push(block);
                assert(content@.drop_last() =~= before);
            },
            Err(e) => {
                proof {
                    lemma_blocks_error_stays(*message, message.content@, i + 1);
                }
                return Err(e);
            },
        }
        i = i + 1;
    }
    assert(message.content@.subrange(0, message.content@.len() as int) =~= message.content@);
    let mut ordered = match message.role {
        MessageRole::Assistant => content,
        _ => prioritize_anthropic_tool_results(&content),
    };
    match anthropic_message_cache_control(message) {
        Err(e) => return Err(e),
        Ok(Some(cache_control)) => {
            apply_cache_control_to_last_block(&mut ordered, &cache_control);
        },
        Ok(None) => {},
    }
    let name = match &message.name {
        Some(n) => non_empty_opt_str(Some(n.as_str())),
        None => non_empty_opt_str(None),
    };
    match name {
        Some(n) => Ok(object3("content", Json::Array(ordered), "name", Json::Str(n), "role", json_str(role))),
        None => Ok(object2("content", Json::Array(ordered), "role", json_str(role))),
    }
}

} // verus!
