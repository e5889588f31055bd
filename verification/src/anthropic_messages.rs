//! A conversation in Anthropic Messages form: system and developer messages
//! become system blocks, the other messages become entries, and consecutive
//! entries of one role are merged into one.
use vstd::prelude::*;
use crate::anthropic_request::{
    anthropic_message_payload, anthropic_message_payload_spec, anthropic_raw_content_block, prioritize_anthropic_tool_results, prioritized_blocks, raw_block_spec, text_block,
};
use crate::canonical::{join_strings, join_texts};
use crate::errors::{SDKError, SDKErrorView};
use crate::gemini_request::{message_images_loaded, unit_result_view};
use crate::json::{Json, JsonView, copy_json, get, jv, jv_items, jv_members, lemma_view_get, view_get};
use crate::payload::{invalid_request_error, invalid_request_spec, json_str, obj2, object2};
use crate::request::{ContentPart, Message, MessageRole};
use crate::text::{concat3, owned, str_eq};
use crate::tool_merge::{insert_member, members_insert};

verus! {

// ----- system text -----
/// Whether a block is of type `text`.
pub open spec fn is_text_type(v: JsonView) -> bool {
    view_get(v, "type"@) == Some(JsonView::Str("text"@))
}

/// Whether a block can take more system text: an object of type `text`
/// without a cache control.
pub open spec fn mergeable_text_block(v: JsonView) -> bool {
    v is Object && is_text_type(v) && view_get(v, "cache_control"@) is None
}

/// The text of a string value, empty otherwise.
pub open spec fn str_or_empty(o: Option<JsonView>) -> Seq<char> {
    match o {
        Some(JsonView::Str(t)) => t,
        _ => Seq::empty(),
    }
}

/// System text appended to the system blocks: merged into a trailing
/// mergeable text block after a blank line, or added as a new text block;
/// empty text adds nothing.
pub open spec fn append_system_text_spec(blocks: Seq<JsonView>, text: Seq<char>) -> Seq<JsonView> {
    if text.len() == 0 {
        blocks
    } else if blocks.len() > 0 && mergeable_text_block(blocks.last()) {
        let last_text = str_or_empty(view_get(blocks.last(), "text"@));
        let merged = if last_text.len() == 0 {
            text
        } else {
            last_text + "\n\n"@ + text
        };
        blocks.drop_last().push(JsonView::Object(members_insert(blocks.last()->Object_0, "text"@, JsonView::Str(merged))))
    } else {
        blocks.push(text_block(text))
    }
}

fn is_text_type_block(v: &Json) -> (r: bool)
    ensures
        r == is_text_type(jv(*v)),
{
    proof {
        lemma_view_get(*v, "type"@);
    }
    match get(v, "type") {
        Some(Json::Str(t)) => str_eq(t.as_str(), "text"),
        _ => false,
    }
}

/// Appends system text to the system blocks.
pub fn append_anthropic_system_text(blocks: &mut Vec<Json>, text: String)
    ensures
        jv_items(final(blocks)@) == append_system_text_spec(jv_items(old(blocks)@), text@),
{
    if text.unicode_len() == 0 {
        return;
    }
    let ghost old_v = blocks@;
    if blocks.len() > 0 {
        let last = blocks.pop().unwrap();
        assert(blocks@ =~= old_v.drop_last());
        assert(jv_items(old_v).last() == jv(last));
        assert(jv_items(old_v).drop_last() =~= jv_items(blocks@));
        proof {
            lemma_view_get(last, "cache_control"@);
            lemma_view_get(last, "text"@);
        }
        let mergeable = match &last {
            Json::Object(_) => is_text_type_block(&last) && get(&last, "cache_control").is_none(),
            _ => false,
        };
        let ghost lm = jv(last);
        if mergeable {
            assert(mergeable_text_block(lm));
            let last_text = match get(&last, "text") {
                Some(Json::Str(t)) => t.clone(),
                _ => String::new(),
            };
            let merged = if last_text.unicode_len() == 0 {
                text
            } else {
                concat3(last_text.as_str(), "\n\n", text.as_str())
            };
            let mut members = match last {
                Json::Object(ms) => ms,
                _ => Vec::new(),
            };
            let ghost mv = merged@;
            assert(mv == (if str_or_empty(view_get(lm, "text"@)).len() == 0 {
                text@
            } else {
                str_or_empty(view_get(lm, "text"@)) + "\n\n"@ + text@
            }));
            assert(lm->Object_0 == jv_members(members@));
            insert_member(&mut members, owned("text"), Json::Str(merged));
            let updated = Json::Object(members);
            let ghost g = updated;
            assert(jv(g) == JsonView::Object(members_insert(lm->Object_0, "text"@, JsonView::Str(mv))));
            let ghost before = blocks@;
            blocks.push(updated);
            assert(blocks@.drop_last() =~= before);
            assert(blocks@.last() == g);
            return;
        }
        let ghost g = last;
        blocks.push(last);
        assert(blocks@ =~= old_v);
    }
    let ghost before = blocks@;
    let ghost tv = text@;
    blocks.push(object2("text", Json::Str(text), "type", json_str("text")));
    assert(blocks@.drop_last() =~= before);
}

/// Pending system text written out as one block part.
pub open spec fn flush_spec(blocks: Seq<JsonView>, fragments: Seq<Seq<char>>) -> Seq<JsonView> {
    if fragments.len() == 0 {
        blocks
    } else {
        append_system_text_spec(blocks, join_texts(fragments, "\n\n"@))
    }
}

pub open spec fn texts_of(v: Seq<String>) -> Seq<Seq<char>> {
    v.map_values(|t: String| t@)
}

/// Writes pending system text out, joined by blank lines.
pub fn flush_anthropic_system_text(blocks: &mut Vec<Json>, fragments: &mut Vec<String>)
    ensures
        jv_items(final(blocks)@) == flush_spec(jv_items(old(blocks)@), texts_of(old(fragments)@)),
        final(fragments)@.len() == 0,
{
    if fragments.len() == 0 {
        return;
    }
    let joined = join_strings(fragments, "\n\n");
    append_anthropic_system_text(blocks, joined);
    fragments.clear();
}

// ----- system and developer messages -----
/// One part of a system message: text waits to be joined; a raw block is
/// added after the waiting text; any other part is refused.
pub open spec fn system_part_step(blocks: Seq<JsonView>, fragments: Seq<Seq<char>>, part: ContentPart) -> (Result<(), SDKErrorView>, Seq<JsonView>, Seq<Seq<char>>) {
    match part {
        ContentPart::Text { text } => (Ok(()), blocks, fragments.push(text@)),
        ContentPart::Custom { kind, raw } => raw_step(flush_spec(blocks, fragments), raw_block_spec(raw, Some(kind@))),
        ContentPart::Raw { kind, raw } => raw_step(flush_spec(blocks, fragments), raw_block_spec(raw, Some(kind@))),
        ContentPart::Provider { raw } => raw_step(flush_spec(blocks, fragments), raw_block_spec(raw, None)),
        _ => (
            Err(
                invalid_request_spec(
                    "anthropic"@,
                    "Anthropic system and developer messages must be text or raw provider blocks"@,
                ),
            ),
            blocks,
            fragments,
        ),
    }
}

/// A raw block added after the pending text was written out.
pub open spec fn raw_step(flushed: Seq<JsonView>, block: Result<JsonView, SDKErrorView>) -> (Result<(), SDKErrorView>, Seq<JsonView>, Seq<Seq<char>>) {
    match block {
        Ok(b) => (Ok(()), flushed.push(b), Seq::empty()),
        Err(e) => (Err(e), flushed, Seq::empty()),
    }
}

/// The parts of a system message, in order; the first error stops it.
pub open spec fn system_parts_spec(parts: Seq<ContentPart>, blocks: Seq<JsonView>) -> (Result<(), SDKErrorView>, Seq<JsonView>, Seq<Seq<char>>)
    decreases parts.len(),
{
    if parts.len() == 0 {
        (Ok(()), blocks, Seq::empty())
    } else {
        let prev = system_parts_spec(parts.drop_last(), blocks);
        if prev.0 is Err {
            prev
        } else {
            system_part_step(prev.1, prev.2, parts.last())
        }
    }
}

/// The system blocks after a system or developer message, and whether it
/// was accepted.
pub open spec fn system_message_blocks_spec(blocks: Seq<JsonView>, message: Message) -> (Result<(), SDKErrorView>, Seq<JsonView>) {
    let r = system_parts_spec(message.content@, blocks);
    if r.0 is Err {
        (r.0, r.1)
    } else {
        (Ok(()), flush_spec(r.1, r.2))
    }
}

proof fn lemma_system_error_stays(parts: Seq<ContentPart>, k: int, blocks: Seq<JsonView>)
    requires
        0 <= k <= parts.len(),
        system_parts_spec(parts.subrange(0, k), blocks).0 is Err,
    ensures
        system_parts_spec(parts, blocks) == system_parts_spec(parts.subrange(0, k), blocks),
    decreases parts.len(),
{
    if k == parts.len() {
        assert(parts.subrange(0, k) =~= parts);
    } else {
        assert(parts.drop_last().subrange(0, k) =~= parts.subrange(0, k));
        lemma_system_error_stays(parts.drop_last(), k, blocks);
    }
}

fn push_raw_block(blocks: &mut Vec<Json>, fragments: &mut Vec<String>, raw: &Json, fallback_type: Option<&str>) -> (r: Result<(), SDKError>)
    ensures
        (unit_result_view(r), jv_items(final(blocks)@), texts_of(final(fragments)@)) == raw_step(
            flush_spec(jv_items(old(blocks)@), texts_of(old(fragments)@)),
            raw_block_spec(*raw, crate::errors::opt_str_view(fallback_type)),
        ),
{
    flush_anthropic_system_text(blocks, fragments);
    assert(texts_of(fragments@) =~= Seq::<Seq<char>>::empty());
    match anthropic_raw_content_block(raw, fallback_type) {
        Ok(block) => {
            let ghost before = blocks@;
            blocks.push(block);
            assert(blocks@.drop_last() =~= before);
            Ok(())
        },
        Err(e) => Err(e),
    }
}

/// Adds a system or developer message to the system blocks: its text parts
/// joined by blank lines, its raw blocks as they are.
pub fn append_anthropic_system_message_blocks(blocks: &mut Vec<Json>, message: &Message) -> (r: Result<(), SDKError>)
    ensures
        (unit_result_view(r), jv_items(final(blocks)@)) == system_message_blocks_spec(jv_items(old(blocks)@), *message),
{
    let ghost b0 = jv_items(blocks@);
    let mut fragments: Vec<String> = Vec::new();
    let mut i: usize = 0;
    assert(message.content@.subrange(0, 0) =~= Seq::<ContentPart>::empty());
    assert(texts_of(fragments@) =~= Seq::<Seq<char>>::empty());
    while i < message.content.len()
        invariant
            i <= message.content@.len(),
            b0 == jv_items(old(blocks)@),
            system_parts_spec(message.content@.subrange(0, i as int), b0) == (
                Ok::<(), SDKErrorView>(()),
                jv_items(blocks@),
                texts_of(fragments@),
            ),
        decreases message.content@.len() - i,
    {
        proof {
            let t = message.content@.subrange(0, i + 1);
            assert(t.drop_last() =~= message.content@.subrange(0, i as int));
            assert(t.last() == message.content@[i as int]);
        }
        let step = match &message.content[i] {
            ContentPart::Text { text } => {
                let ghost before = fragments@;
                fragments.push(text.clone());
                assert(texts_of(fragments@) =~= texts_of(before).push(text@));
                Ok(())
            },
            ContentPart::Custom { kind, raw } => push_raw_block(blocks, &mut fragments, raw, Some(kind.as_str())),
            ContentPart::Raw { kind, raw } => push_raw_block(blocks, &mut fragments, raw, Some(kind.as_str())),
            ContentPart::Provider { raw } => push_raw_block(blocks, &mut fragments, raw, None),
            _ => Err(
                invalid_request_error(
                    "anthropic",
                    owned("Anthropic system and developer messages must be text or raw provider blocks"),
                ),
            ),
        };
        match step {
            Ok(()) => {},
            Err(e) => {
                proof {
                    lemma_system_error_stays(message.content@, i + 1, b0);
                }
                return Err(e);
            },
        }
        i = i + 1;
    }
    assert(message.content@.subrange(0, message.content@.len() as int) =~= message.content@);
    flush_anthropic_system_text(blocks, &mut fragments);
    Ok(())
}

// ----- the system prompt -----
/// Whether a block is plain text: an object of just a `type` of `text` and
/// a string `text`.
pub open spec fn is_plain_text_block(v: JsonView) -> bool {
    v is Object && v->Object_0.len() == 2 && is_text_type(v) && view_get(v, "text"@) matches Some(JsonView::Str(_))
}

/// The non-empty texts of blocks, in order.
pub open spec fn block_texts(blocks: Seq<JsonView>) -> Seq<Seq<char>>
    decreases blocks.len(),
{
    if blocks.len() == 0 {
        Seq::empty()
    } else {
        let rest = block_texts(blocks.drop_last());
        match view_get(blocks.last(), "text"@) {
            Some(JsonView::Str(t)) => if t.len() > 0 {
                rest.push(t)
            } else {
                rest
            },
            _ => rest,
        }
    }
}

/// The system prompt: none without blocks; plain text blocks as one text
/// joined by blank lines (none when empty); other blocks as they are.
pub open spec fn system_payload_spec(blocks: Seq<JsonView>) -> Option<JsonView> {
    if blocks.len() == 0 {
        None
    } else if forall|i: int| 0 <= i < blocks.len() ==> is_plain_text_block(#[trigger] blocks[i]) {
        let t = join_texts(block_texts(blocks), "\n\n"@);
        if t.len() > 0 {
            Some(JsonView::Str(t))
        } else {
            None
        }
    } else {
        Some(JsonView::Array(blocks))
    }
}

pub open spec fn opt_json_view(o: Option<Json>) -> Option<JsonView> {
    match o {
        Some(v) => Some(jv(v)),
        None => None,
    }
}

fn is_plain_text(v: &Json) -> (r: bool)
    ensures
        r == is_plain_text_block(jv(*v)),
{
    proof {
        lemma_view_get(*v, "text"@);
    }
    match v {
        Json::Object(members) => {
            proof {
                crate::json::lemma_jv_members_index(members@);
            }
            members.len() == 2 && is_text_type_block(v) && match get(v, "text") {
                Some(Json::Str(_)) => true,
                _ => false,
            }
        },
        _ => false,
    }
}

/// The system prompt made of the system blocks.
pub fn anthropic_system_payload(blocks: Vec<Json>) -> (r: Option<Json>)
    ensures
        opt_json_view(r) == system_payload_spec(jv_items(blocks@)),
{
    let ghost bv = jv_items(blocks@);
    proof {
        crate::json::lemma_jv_items_index(blocks@);
    }
    if blocks.len() == 0 {
        return None;
    }
    let mut all_plain = true;
    let mut texts: Vec<String> = Vec::new();
    let mut i: usize = 0;
    assert(bv.subrange(0, 0) =~= Seq::<JsonView>::empty());
    while i < blocks.len()
        invariant
            i <= blocks@.len(),
            bv == jv_items(blocks@),
            bv.len() == blocks@.len(),
            forall|j: int| 0 <= j < blocks@.len() ==> #[trigger] bv[j] == jv(blocks@[j]),
            all_plain == forall|j: int| 0 <= j < i ==> is_plain_text_block(#[trigger] bv[j]),
            texts_of(texts@) == block_texts(bv.subrange(0, i as int)),
        decreases blocks@.len() - i,
    {
        proof {
            let t = bv.subrange(0, i + 1);
            assert(t.drop_last() =~= bv.subrange(0, i as int));
            assert(t.last() == jv(blocks@[i as int]));
            lemma_view_get(blocks@[i as int], "text"@);
        }
        if !is_plain_text(&blocks[i]) {
            all_plain = false;
        }
        match get(&blocks[i], "text") {
            Some(Json::Str(t)) => {
                if t.unicode_len() > 0 {
                    let ghost before = texts@;
                    texts.push(t.clone());
                    assert(texts_of(texts@) =~= texts_of(before).push(t@));
                }
            },
            _ => {},
        }
        i = i + 1;
    }
    assert(bv.subrange(0, bv.len() as int) =~= bv);
    if all_plain {
        let joined = join_strings(&texts, "\n\n");
        if joined.unicode_len() > 0 {
            Some(Json::Str(joined))
        } else {
            None
        }
    } else {
        Some(Json::Array(blocks))
    }
}

// ----- merging entries -----
/// The blocks of an entry's existing content: an array's items, anything
/// else as one text block, nothing when there is none.
pub open spec fn content_blocks_of(content: Option<JsonView>) -> Seq<JsonView> {
    match content {
        None => Seq::empty(),
        Some(JsonView::Array(items)) => items,
        Some(other) => seq![obj2("text"@, other, "type"@, JsonView::Str("text"@))],
    }
}

/// An entry with more content appended: blocks as they are, text as a text
/// block, anything else as one block; tool results go first in user turns.
pub open spec fn merge_content_spec(existing: JsonView, next: JsonView, role: Seq<char>) -> JsonView {
    match existing {
        JsonView::Object(members) => {
            let current = content_blocks_of(view_get(existing, "content"@));
            let appended = match next {
                JsonView::Array(items) => current + items,
                JsonView::Str(t) => current.push(text_block(t)),
                other => current.push(other),
            };
            let blocks = if role == "user"@ {
                prioritized_blocks(appended)
            } else {
                appended
            };
            JsonView::Object(members_insert(members, "content"@, JsonView::Array(blocks)))
        },
        _ => existing,
    }
}

pub fn copy_items(items: &Vec<Json>) -> (r: Vec<Json>)
    ensures
        jv_items(r@) == jv_items(items@),
{
    let mut out: Vec<Json> = Vec::new();
    let mut i: usize = 0;
    assert(jv_items(out@) =~= jv_items(items@.subrange(0, 0)));
    while i < items.len()
        invariant
            i <= items@.len(),
            jv_items(out@) == jv_items(items@.subrange(0, i as int)),
        decreases items@.len() - i,
    {
        let c = copy_json(&items[i]);
        let ghost before = out@;
        out.push(c);
        proof {
            assert(out@.drop_last() =~= before);
            let t = items@.subrange(0, i + 1);
            assert(t.drop_last() =~= items@.subrange(0, i as int));
        }
        i = i + 1;
    }
    assert(items@.subrange(0, items@.len() as int) =~= items@);
    out
}

/// Appends more content to an entry.
pub fn merge_anthropic_content(existing_message: Json, next_content: Json, role: &str) -> (r: Json)
    ensures
        jv(r) == merge_content_spec(jv(existing_message), jv(next_content), role@),
{
    proof {
        lemma_view_get(existing_message, "content"@);
    }
    let mut current: Vec<Json> = match get(&existing_message, "content") {
        None => Vec::new(),
        Some(Json::Array(items)) => copy_items(items),
        Some(other) => {
            let ghost go = *other;
            let block = object2("text", copy_json(other), "type", json_str("text"));
            let mut v: Vec<Json> = Vec::new();
            v.push(block);
            proof {
                crate::json::lemma_jv_items_index(v@);
                assert(jv_items(v@) =~= seq![obj2("text"@, jv(go), "type"@, JsonView::Str("text"@))]);
            }
            v
        },
    };
    assert(jv_items(current@) == content_blocks_of(view_get(jv(existing_message), "content"@)));
    let ghost cur0 = current@;
    match next_content {
        Json::Array(mut items) => {
            let ghost iv = items@;
            current.append(&mut items);
            proof {
                crate::json::lemma_jv_items_append(cur0, iv);
            }
        },
        Json::Str(t) => {
            let ghost tv = t@;
            current.push(object2("text", Json::Str(t), "type", json_str("text")));
            assert(current@.drop_last() =~= cur0);
        },
        other => {
            let ghost g = other;
            current.push(other);
            assert(current@.drop_last() =~= cur0);
        },
    }
    let blocks = if str_eq(role, "user") {
        prioritize_anthropic_tool_results(&current)
    } else {
        current
    };
    match existing_message {
        Json::Object(mut members) => {
            insert_member(&mut members, owned("content"), Json::Array(blocks));
            Json::Object(members)
        },
        other => other,
    }
}

/// An entry added to the conversation: merged into the last entry when both
/// have the same role, added after it otherwise.
pub open spec fn append_message_spec(messages: Seq<JsonView>, payload: JsonView) -> Seq<JsonView> {
    match view_get(payload, "role"@) {
        Some(JsonView::Str(role)) => if messages.len() > 0 && view_get(messages.last(), "role"@) == Some(
            JsonView::Str(role),
        ) {
            messages.drop_last().push(
                merge_content_spec(
                    messages.last(),
                    match view_get(payload, "content"@) {
                        Some(c) => c,
                        None => JsonView::Array(Seq::empty()),
                    },
                    role,
                ),
            )
        } else {
            messages.push(payload)
        },
        _ => messages.push(payload),
    }
}

/// Adds an entry to the conversation, merging it into the last entry when
/// both have the same role.
pub fn append_anthropic_message(messages: &mut Vec<Json>, payload: Json)
    ensures
        jv_items(final(messages)@) == append_message_spec(jv_items(old(messages)@), jv(payload)),
{
    let ghost old_v = messages@;
    proof {
        lemma_view_get(payload, "role"@);
        lemma_view_get(payload, "content"@);
    }
    let role = match get(&payload, "role") {
        Some(Json::Str(r)) => r.clone(),
        _ => {
            messages.push(payload);
            assert(messages@.drop_last() =~= old_v);
            return;
        },
    };
    if messages.len() > 0 {
        let n = messages.len();
        proof {
            lemma_view_get(messages@[n - 1], "role"@);
            crate::json::lemma_jv_items_index(messages@);
        }
        let same = match get(&messages[n - 1], "role") {
            Some(Json::Str(r)) => str_eq(r.as_str(), role.as_str()),
            _ => false,
        };
        if same {
            let next = match get(&payload, "content") {
                Some(c) => copy_json(c),
                None => {
                    let empty: Vec<Json> = Vec::new();
                    assert(jv_items(empty@) =~= Seq::<JsonView>::empty());
                    Json::Array(empty)
                },
            };
            let last = messages.pop().unwrap();
            assert(messages@ =~= old_v.drop_last());
            assert(jv_items(old_v).drop_last() =~= jv_items(messages@));
            let merged = merge_anthropic_content(last, next, role.as_str());
            let ghost g = merged;
            let ghost before = messages@;
            messages.push(merged);
            assert(messages@.drop_last() =~= before);
            return;
        }
    }
    messages.push(payload);
    assert(messages@.drop_last() =~= old_v);
}

// ----- conversations -----
/// Whether a message goes to the system prompt.
pub open spec fn is_system_role(role: MessageRole) -> bool {
    role == MessageRole::System || role == MessageRole::Developer
}

/// A conversation's entries and system blocks, message by message; the
/// first error stops it.
pub open spec fn message_payloads_spec(messages: Seq<Message>) -> Result<(Seq<JsonView>, Seq<JsonView>), SDKErrorView>
    decreases messages.len(),
{
    if messages.len() == 0 {
        Ok((Seq::empty(), Seq::empty()))
    } else {
        match message_payloads_spec(messages.drop_last()) {
            Err(e) => Err(e),
            Ok(acc) => {
                let m = messages.last();
                if is_system_role(m.role) {
                    let (r, system) = system_message_blocks_spec(acc.1, m);
                    match r {
                        Err(e) => Err(e),
                        Ok(_) => Ok((acc.0, system)),
                    }
                } else {
                    match anthropic_message_payload_spec(m) {
                        Err(e) => Err(e),
                        Ok(p) => Ok((append_message_spec(acc.0, p), acc.1)),
                    }
                }
            },
        }
    }
}

proof fn lemma_payloads_error_stays(messages: Seq<Message>, k: int)
    requires
        0 <= k <= messages.len(),
        message_payloads_spec(messages.subrange(0, k)) is Err,
    ensures
        message_payloads_spec(messages) == message_payloads_spec(messages.subrange(0, k)),
    decreases messages.len(),
{
    if k == messages.len() {
        assert(messages.subrange(0, k) =~= messages);
    } else {
        assert(messages.drop_last().subrange(0, k) =~= messages.subrange(0, k));
        lemma_payloads_error_stays(messages.drop_last(), k);
    }
}

/// A conversation's Anthropic entries and system blocks. Images with a
/// local file must have been read into their data.
pub fn anthropic_message_payloads(messages: &Vec<Message>) -> (r: Result<(Vec<Json>, Vec<Json>), SDKError>)
    requires
        forall|i: int| 0 <= i < messages@.len() ==> message_images_loaded(#[trigger] messages@[i]),
    ensures
        match r {
            Ok((payloads, system)) => message_payloads_spec(messages@) == Ok::<
                (Seq<JsonView>, Seq<JsonView>),
                SDKErrorView,
            >((jv_items(payloads@), jv_items(system@))),
            Err(e) => message_payloads_spec(messages@) == Err::<(Seq<JsonView>, Seq<JsonView>), SDKErrorView>(e@),
        },
{
    let mut payloads: Vec<Json> = Vec::new();
    let mut system: Vec<Json> = Vec::new();
    let mut i: usize = 0;
    assert(messages@.subrange(0, 0) =~= Seq::<Message>::empty());
    assert(jv_items(payloads@) =~= Seq::<JsonView>::empty());
    assert(jv_items(system@) =~= Seq::<JsonView>::empty());
    while i < messages.len()
        invariant
            i <= messages@.len(),
            forall|j: int| 0 <= j < messages@.len() ==> message_images_loaded(#[trigger] messages@[j]),
            message_payloads_spec(messages@.subrange(0, i as int)) == Ok::<(Seq<JsonView>, Seq<JsonView>), SDKErrorView>(
                (jv_items(payloads@), jv_items(system@)),
            ),
        decreases messages@.len() - i,
    {
        proof {
            let t = messages@.subrange(0, i + 1);
            assert(t.drop_last() =~= messages@.subrange(0, i as int));
            assert(t.last() == messages@[i as int]);
        }
        let message = &messages[i];
        let system_role = match message.role {
            MessageRole::System => true,
            MessageRole::Developer => true,
            _ => false,
        };
        if system_role {
            match append_anthropic_system_message_blocks(&mut system, message) {
                Ok(()) => {},
                Err(e) => {
                    proof {
                        lemma_payloads_error_stays(messages@, i + 1);
                    }
                    return Err(e);
                },
            }
        } else {
            match anthropic_message_payload(message) {
                Ok(p) => append_anthropic_message(&mut payloads, p),
                Err(e) => {
                    proof {
                        lemma_payloads_error_stays(messages@, i + 1);
                    }
                    return Err(e);
                },
            }
        }
        i = i + 1;
    }
    assert(messages@.subrange(0, messages@.len() as int) =~= messages@);
    Ok((payloads, system))
}

} // verus!
