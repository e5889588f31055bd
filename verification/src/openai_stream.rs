//! Reading an OpenAI Responses stream: what each server-sent event asks of
//! the stream it feeds, remembering under which item ids and output
//! indexes each tool call was announced.
use vstd::prelude::*;
use crate::anthropic_stream::{
    anthropic_event_type, append_actions, failure, failure_view, one, or_empty_text, raw_of, take_member,
    text_or_empty,
};
use crate::errors::{SDKError, SDKErrorKind, SDKErrorView, default_retryable_spec};
use crate::json::{Json, JsonView, copy_json, get, json_get, json_parse_outcome, jv, jv_items, parse_json};
use crate::native::{payload_error_message, provider_error_spec, provider_payload_error, stream_raw_payload, stream_raw_spec};
use crate::openai_response::{openai_output_spec, openai_response_spec, openai_usage_fits, translate_openai_responses_response};
use crate::request::{ToolCall, ToolCallView};
use crate::sse::ProviderStreamRecord;
use crate::stream_actions::{
    ErrorView, StreamAction, StreamActionView, StreamContext, actions_view, copy_rate_limit, either_text, err_view,
    error_view_of, first_text, record_payload_spec, record_raw_spec, stream_record_payload, value_identifier,
    value_identifier_spec, value_string, value_string_spec,
};
use crate::text::{concat2, concat3, contains_seq, ends_with, opt_seq, owned, str_contains, str_ends_with, str_eq, trim, trim_seq};
use crate::textmap::TextMap;

verus! {

// ----- the translator's state -----
/// An OpenAI Responses stream being read: the tool-call ids remembered
/// under their alias keys, and whether the stream has ended.
pub struct OpenAiStreamTranslator {
    pub tool_call_aliases: TextMap<String>,
    pub finished: bool,
}

pub struct OpenAiStreamView {
    pub aliases: Map<Seq<char>, Seq<char>>,
    pub finished: bool,
}

pub open spec fn aliases_view(m: TextMap<String>) -> Map<Seq<char>, Seq<char>> {
    m.as_map().map_values(|s: String| s@)
}

impl View for OpenAiStreamTranslator {
    type V = OpenAiStreamView;

    open spec fn view(&self) -> OpenAiStreamView {
        OpenAiStreamView { aliases: aliases_view(self.tool_call_aliases), finished: self.finished }
    }
}

// ----- reading payloads -----
/// The item a text event is about: its item id, else its id, else the
/// prefix and its output index.
pub open spec fn stream_item_id_spec(p: Json, prefix: Seq<char>) -> Option<Seq<char>> {
    first_text(
        value_identifier_spec(p, "item_id"@),
        first_text(
            value_identifier_spec(p, "id"@),
            match value_identifier_spec(p, "output_index"@) {
                Some(i) => Some(prefix + "_"@ + i),
                None => None,
            },
        ),
    )
}

/// A finished text item: its id and its text, for items of the text types.
pub open spec fn stream_text_item_spec(item: Json) -> Option<(Option<Seq<char>>, Option<Seq<char>>)> {
    let t = or_empty_text(value_string_spec(item, "type"@));
    if t == "output_text"@ || t == "message"@ || t == "text"@ || t == "refusal"@ {
        Some(
            (
                first_text(
                    value_string_spec(item, "item_id"@),
                    first_text(
                        value_string_spec(item, "id"@),
                        match value_string_spec(item, "output_index"@) {
                            Some(i) => Some("text_"@ + i),
                            None => None,
                        },
                    ),
                ),
                first_text(
                    value_string_spec(item, "text"@),
                    first_text(value_string_spec(item, "content"@), value_string_spec(item, "refusal"@)),
                ),
            ),
        )
    } else {
        None
    }
}

/// The arguments a streamed tool call carries: an empty object for blank
/// text, the parsed value, or the text itself when it does not parse.
pub open spec fn stream_arguments_spec(raw: Seq<char>) -> JsonView {
    if trim_seq(raw).len() == 0 {
        JsonView::Object(Seq::empty())
    } else {
        match json_parse_outcome(raw) {
            Ok(v) => jv(v),
            Err(_) => JsonView::Str(raw),
        }
    }
}

/// The tool call a `function_call` item announces.
pub open spec fn stream_tool_call_spec(item: Json) -> Option<ToolCallView> {
    if or_empty_text(value_string_spec(item, "type"@)) == "function_call"@ {
        let name = or_empty_text(value_string_spec(item, "name"@));
        let raw = or_empty_text(value_string_spec(item, "arguments"@));
        Some(
            ToolCallView {
                id: match first_text(
                    value_string_spec(item, "call_id"@),
                    first_text(value_string_spec(item, "id"@), value_string_spec(item, "item_id"@)),
                ) {
                    Some(i) => i,
                    None => name,
                },
                name,
                arguments: stream_arguments_spec(raw),
                raw_arguments: Some(raw),
                call_type: "function"@,
            },
        )
    } else {
        None
    }
}

/// The alias keys of an item id: by item id and by id.
pub open spec fn item_alias_keys(v: Option<Seq<char>>) -> Seq<Seq<char>> {
    match v {
        Some(s) => if trim_seq(s).len() == 0 {
            Seq::empty()
        } else {
            seq!["item_id:"@ + trim_seq(s), "id:"@ + trim_seq(s)]
        },
        None => Seq::empty(),
    }
}

/// The alias key of an output index.
pub open spec fn index_alias_keys(v: Option<Seq<char>>) -> Seq<Seq<char>> {
    match v {
        Some(s) => if trim_seq(s).len() == 0 {
            Seq::empty()
        } else {
            seq!["output_index:"@ + trim_seq(s)]
        },
        None => Seq::empty(),
    }
}

/// The keys under which a tool call of this payload (and item) is known,
/// in the order they are tried.
pub open spec fn alias_keys_spec(p: Json, item: Option<Json>) -> Seq<Seq<char>> {
    let from_item = match item {
        Some(i) => item_alias_keys(value_identifier_spec(i, "id"@)) + item_alias_keys(value_identifier_spec(i, "item_id"@))
            + index_alias_keys(value_identifier_spec(i, "output_index"@)),
        None => Seq::empty(),
    };
    from_item + item_alias_keys(value_identifier_spec(p, "item_id"@)) + index_alias_keys(
        value_identifier_spec(p, "output_index"@),
    )
}

/// The aliases after a tool call id is remembered under these keys; a blank
/// id is not remembered.
pub open spec fn remember_spec(aliases: Map<Seq<char>, Seq<char>>, keys: Seq<Seq<char>>, id: Seq<char>) -> Map<
    Seq<char>,
    Seq<char>,
> {
    if trim_seq(id).len() == 0 {
        aliases
    } else {
        added_under(aliases, keys, trim_seq(id))
    }
}

/// The map with `id` stored under each of the keys.
pub open spec fn added_under(aliases: Map<Seq<char>, Seq<char>>, keys: Seq<Seq<char>>, id: Seq<char>) -> Map<
    Seq<char>,
    Seq<char>,
> {
    Map::new(
        |k: Seq<char>| aliases.contains_key(k) || keys.contains(k),
        |k: Seq<char>|
            if keys.contains(k) {
                id
            } else {
                aliases[k]
            },
    )
}

/// The id remembered under the first of the keys that has one.
pub open spec fn first_alias(aliases: Map<Seq<char>, Seq<char>>, keys: Seq<Seq<char>>) -> Option<Seq<char>>
    decreases keys.len(),
{
    if keys.len() == 0 {
        None
    } else if aliases.contains_key(keys[0]) {
        Some(aliases[keys[0]])
    } else {
        first_alias(aliases, keys.drop_first())
    }
}

/// The tool call an arguments delta belongs to.
pub open spec fn delta_id_spec(p: Json, aliases: Map<Seq<char>, Seq<char>>) -> Seq<char> {
    match first_text(
        value_identifier_spec(p, "call_id"@),
        first_text(
            first_alias(aliases, alias_keys_spec(p, None)),
            first_text(value_identifier_spec(p, "item_id"@), value_identifier_spec(p, "output_index"@)),
        ),
    ) {
        Some(i) => i,
        None => "function_call"@,
    }
}

/// Whether the payload's response translates.
pub open spec fn response_translates(r: Json) -> bool {
    r is Object && openai_output_spec(r) is Ok
}

/// The error of a final response that does not translate.
pub open spec fn completion_error(r: Json) -> ErrorView {
    error_view_of(
        if r is Object {
            openai_output_spec(r)->Err_0
        } else {
            provider_error_spec(SDKErrorKind::Provider, "openai"@, "OpenAI Responses response must be a JSON object"@)
        },
    )
}

/// The error event an `error` or `response.failed` payload stands for.
pub open spec fn openai_payload_error_view(p: Json) -> ErrorView {
    ErrorView {
        fields: SDKErrorView {
            kind: SDKErrorKind::Stream,
            message: payload_error_message(p),
            provider: Some("openai"@),
            status_code: None,
            error_code: None,
            retryable: default_retryable_spec(SDKErrorKind::Stream),
            raw: None,
        },
        raw: Some(jv(p)),
    }
}

pub open spec fn is_text_delta_event(et: Seq<char>) -> bool {
    et == "response.output_text.delta"@ || et == "response.text.delta"@ || et == "response.refusal.delta"@
}

pub open spec fn is_text_done_event(et: Seq<char>) -> bool {
    et == "response.output_text.done"@ || et == "response.text.done"@ || et == "response.refusal.done"@
}

// ----- the step -----
/// What a payload asks of the stream, by its event type.
pub open spec fn openai_payload_step(
    aliases: Map<Seq<char>, Seq<char>>,
    et: Seq<char>,
    p: Json,
) -> (Map<Seq<char>, Seq<char>>, bool, Seq<StreamActionView>) {
    let raw = Some(jv(p));
    if et == "response.created"@ || et == "response.in_progress"@ {
        (
            aliases,
            false,
            seq![
                StreamActionView::EnsureStarted {
                    raw,
                    has_response: json_get(p, "response"@) matches Some(r) && response_translates(r),
                },
            ],
        )
    } else if is_text_delta_event(et) {
        (
            aliases,
            false,
            match value_string_spec(p, "delta"@) {
                Some(d) => seq![StreamActionView::TextDeltaFor { text_id: stream_item_id_spec(p, "text"@), delta: d, raw }],
                None => Seq::empty(),
            },
        )
    } else if is_text_done_event(et) {
        (
            aliases,
            false,
            seq![
                StreamActionView::TextEndWith {
                    text_id: stream_item_id_spec(p, "text"@),
                    text: first_text(value_string_spec(p, "text"@), value_string_spec(p, "delta"@)),
                    raw,
                },
            ],
        )
    } else if contains_seq(et, "reasoning"@) && ends_with(et, ".delta"@) {
        (
            aliases,
            false,
            match first_text(
                value_string_spec(p, "delta"@),
                first_text(value_string_spec(p, "text"@), value_string_spec(p, "summary"@)),
            ) {
                Some(d) => seq![StreamActionView::ReasoningDelta { delta: d, thinking: None, raw }],
                None => Seq::empty(),
            },
        )
    } else {
        openai_payload_other(aliases, et, p)
    }
}

/// What a payload about tool calls, the end of the response or an error
/// asks of the stream.
pub open spec fn openai_payload_other(
    aliases: Map<Seq<char>, Seq<char>>,
    et: Seq<char>,
    p: Json,
) -> (Map<Seq<char>, Seq<char>>, bool, Seq<StreamActionView>) {
    let raw = Some(jv(p));
    if et == "response.output_item.added"@ {
        match json_get(p, "item"@) {
            Some(item) => match stream_tool_call_spec(item) {
                Some(tc) => (
                    remember_spec(aliases, alias_keys_spec(p, Some(item)), tc.id),
                    false,
                    seq![StreamActionView::ToolCallStart { tool_call: tc, raw }],
                ),
                None => (aliases, false, seq![StreamActionView::ProviderEvent(jv(p))]),
            },
            None => (aliases, false, seq![StreamActionView::ProviderEvent(jv(p))]),
        }
    } else if et == "response.function_call_arguments.delta"@ {
        let delta = or_empty_text(value_string_spec(p, "delta"@));
        (
            aliases,
            false,
            seq![
                StreamActionView::ToolCallDelta {
                    tool_call: ToolCallView {
                        id: delta_id_spec(p, aliases),
                        name: or_empty_text(value_string_spec(p, "name"@)),
                        arguments: JsonView::Str(delta),
                        raw_arguments: Some(delta),
                        call_type: "function"@,
                    },
                    raw,
                },
            ],
        )
    } else if et == "response.output_item.done"@ {
        match json_get(p, "item"@) {
            Some(item) => match stream_tool_call_spec(item) {
                Some(tc) => {
                    let keys = alias_keys_spec(p, Some(item));
                    let id = match first_alias(aliases, keys) {
                        Some(a) => a,
                        None => tc.id,
                    };
                    (
                        remember_spec(aliases, keys, id),
                        false,
                        seq![StreamActionView::ToolCallEnd { final_call: Some(ToolCallView { id, ..tc }), raw }],
                    )
                },
                None => match stream_text_item_spec(item) {
                    Some((text_id, text)) => (aliases, false, seq![StreamActionView::TextEndWith { text_id, text, raw }]),
                    None => (aliases, false, seq![StreamActionView::ProviderEvent(jv(p))]),
                },
            },
            None => (aliases, false, seq![StreamActionView::ProviderEvent(jv(p))]),
        }
    } else if et == "response.completed"@ || et == "response.done"@ {
        match json_get(p, "response"@) {
            Some(r) => if response_translates(r) {
                (aliases, true, seq![StreamActionView::Complete { raw }])
            } else {
                (aliases, true, seq![StreamActionView::PushError { error: completion_error(r), raw }])
            },
            None => (aliases, true, seq![StreamActionView::Finish { raw }]),
        }
    } else if et == "response.failed"@ || et == "error"@ {
        (aliases, true, seq![StreamActionView::PushError { error: openai_payload_error_view(p), raw }])
    } else {
        (aliases, false, seq![StreamActionView::ProviderEvent(jv(p))])
    }
}

/// What one item of an OpenAI Responses stream asks of the stream it
/// feeds: nothing once the stream has ended; a failed item or record ends
/// it with its error; the end marker finishes it with the payloads kept so
/// far; any other record's payload is kept and then read by its event type.
pub open spec fn openai_stream_step(
    st: OpenAiStreamView,
    ctx: StreamContext,
    item: Result<ProviderStreamRecord, SDKError>,
) -> (OpenAiStreamView, Seq<StreamActionView>) {
    if st.finished {
        (st, Seq::empty())
    } else {
        match item {
            Err(e) => (OpenAiStreamView { finished: true, ..st }, seq![failure_view(ctx.started, err_view(e))]),
            Ok(rec) => if rec.done {
                (
                    OpenAiStreamView { finished: true, ..st },
                    seq![StreamActionView::Finish { raw: stream_raw_spec(jv_items(ctx.raw_payloads@)) }],
                )
            } else {
                match rec.payload {
                    None => (
                        OpenAiStreamView { finished: true, ..st },
                        seq![
                            failure_view(
                                ctx.started,
                                ErrorView {
                                    fields: record_payload_spec("openai"@, rec@)->Err_0,
                                    raw: Some(record_raw_spec(rec@)),
                                },
                            ),
                        ],
                    ),
                    Some(p) => {
                        let (aliases, finished, acts) = openai_payload_step(st.aliases, anthropic_event_type(rec@, p), p);
                        (
                            OpenAiStreamView { aliases, finished },
                            seq![StreamActionView::RecordPayload(jv(p))] + acts,
                        )
                    },
                }
            },
        }
    }
}

/// What the translation of a response in the stream needs: its usage
/// counts must add up within range.
pub open spec fn openai_item_fits(item: Result<ProviderStreamRecord, SDKError>) -> bool {
    item matches Ok(rec) && rec.payload matches Some(p) && json_get(p, "response"@) matches Some(r)
        ==> openai_usage_fits(r)
}

/// The response an action carries, if any.
pub open spec fn carried_response(a: StreamAction) -> Option<crate::request::Response> {
    match a {
        StreamAction::EnsureStarted { response: Some(r), .. } => Some(r),
        StreamAction::Complete { response, .. } => Some(response),
        _ => None,
    }
}

/// Every response a stream starts or completes with is the translation of
/// the payload's response.
pub open spec fn openai_responses_ok(
    actions: Seq<StreamAction>,
    item: Result<ProviderStreamRecord, SDKError>,
    ctx: StreamContext,
) -> bool {
    forall|i: int|
        0 <= i < actions.len() ==> (carried_response(#[trigger] actions[i]) matches Some(resp)
            ==> item matches Ok(rec) && rec.payload matches Some(p) && json_get(p, "response"@) matches Some(r)
            && openai_output_spec(r) matches Ok(out) && openai_response_spec(resp, r, ctx.rate_limit, out))
}

// ----- reading payloads, executably -----
fn stream_item_id(p: &Json, prefix: &str) -> (r: Option<String>)
    ensures
        opt_seq(r) == stream_item_id_spec(*p, prefix@),
{
    let by_index = match value_identifier(p, "output_index") {
        Some(i) => Some(concat3(prefix, "_", i.as_str())),
        None => None,
    };
    either_text(value_identifier(p, "item_id"), either_text(value_identifier(p, "id"), by_index))
}

fn stream_text_item(item: &Json) -> (r: Option<(Option<String>, Option<String>)>)
    ensures
        match r {
            Some((a, b)) => stream_text_item_spec(*item) == Some((opt_seq(a), opt_seq(b))),
            None => stream_text_item_spec(*item) is None,
        },
{
    let t = text_or_empty(value_string(item, "type"));
    let ts = t.as_str();
    if str_eq(ts, "output_text") || str_eq(ts, "message") || str_eq(ts, "text") || str_eq(ts, "refusal") {
        let by_index = match value_string(item, "output_index") {
            Some(i) => Some(concat2("text_", i.as_str())),
            None => None,
        };
        let id = either_text(value_string(item, "item_id"), either_text(value_string(item, "id"), by_index));
        let text = either_text(value_string(item, "text"), either_text(value_string(item, "content"), value_string(item, "refusal")));
        Some((id, text))
    } else {
        None
    }
}

pub(crate) fn stream_arguments(raw: &String) -> (r: Json)
    ensures
        jv(r) == stream_arguments_spec(raw@),
{
    let t = trim(raw.as_str());
    if t.unicode_len() == 0 {
        let e: Vec<(String, Json)> = Vec::new();
        assert(crate::json::jv_members(e@) =~= Seq::<(Seq<char>, JsonView)>::empty());
        Json::Object(e)
    } else {
        match parse_json(raw.as_str()) {
            Ok(v) => v,
            Err(_) => Json::Str(raw.clone()),
        }
    }
}

fn stream_tool_call(item: &Json) -> (r: Option<ToolCall>)
    ensures
        match r {
            Some(tc) => stream_tool_call_spec(*item) == Some(tc@),
            None => stream_tool_call_spec(*item) is None,
        },
{
    let t = text_or_empty(value_string(item, "type"));
    if !str_eq(t.as_str(), "function_call") {
        return None;
    }
    let name = text_or_empty(value_string(item, "name"));
    let id = match either_text(value_string(item, "call_id"), either_text(value_string(item, "id"), value_string(item, "item_id"))) {
        Some(i) => i,
        None => name.clone(),
    };
    let raw = text_or_empty(value_string(item, "arguments"));
    let arguments = stream_arguments(&raw);
    Some(ToolCall { id, name, arguments, raw_arguments: Some(raw), call_type: owned("function") })
}

pub open spec fn keys_view(v: Seq<String>) -> Seq<Seq<char>> {
    v.map_values(|s: String| s@)
}

fn push_item_keys(keys: &mut Vec<String>, v: Option<String>)
    ensures
        keys_view(final(keys)@) == keys_view(old(keys)@) + item_alias_keys(opt_seq(v)),
{
    match v {
        Some(s) => {
            let t = trim(s.as_str());
            if t.unicode_len() == 0 {
                assert(keys_view(keys@) =~= keys_view(keys@) + Seq::<Seq<char>>::empty());
            } else {
                let ghost before = keys_view(keys@);
                keys.push(concat2("item_id:", t.as_str()));
                keys.push(concat2("id:", t.as_str()));
                assert(keys_view(keys@) =~= before + item_alias_keys(opt_seq(v)));
            }
        },
        None => {
            assert(keys_view(keys@) =~= keys_view(keys@) + Seq::<Seq<char>>::empty());
        },
    }
}

fn push_index_key(keys: &mut Vec<String>, v: Option<String>)
    ensures
        keys_view(final(keys)@) == keys_view(old(keys)@) + index_alias_keys(opt_seq(v)),
{
    match v {
        Some(s) => {
            let t = trim(s.as_str());
            if t.unicode_len() == 0 {
                assert(keys_view(keys@) =~= keys_view(keys@) + Seq::<Seq<char>>::empty());
            } else {
                let ghost before = keys_view(keys@);
                keys.push(concat2("output_index:", t.as_str()));
                assert(keys_view(keys@) =~= before + index_alias_keys(opt_seq(v)));
            }
        },
        None => {
            assert(keys_view(keys@) =~= keys_view(keys@) + Seq::<Seq<char>>::empty());
        },
    }
}

fn alias_keys(p: &Json, item: Option<&Json>) -> (r: Vec<String>)
    ensures
        keys_view(r@) == alias_keys_spec(
            *p,
            match item {
                Some(i) => Some(*i),
                None => None,
            },
        ),
{
    let mut keys: Vec<String> = Vec::new();
    assert(keys_view(keys@) =~= Seq::<Seq<char>>::empty());
    match item {
        Some(i) => {
            push_item_keys(&mut keys, value_identifier(i, "id"));
            push_item_keys(&mut keys, value_identifier(i, "item_id"));
            push_index_key(&mut keys, value_identifier(i, "output_index"));
        },
        None => {},
    }
    let ghost from_item = keys_view(keys@);
    push_item_keys(&mut keys, value_identifier(p, "item_id"));
    push_index_key(&mut keys, value_identifier(p, "output_index"));
    proof {
        let it = match item {
            Some(i) => Some(*i),
            None => None::<Json>,
        };
        assert(keys_view(keys@) =~= alias_keys_spec(*p, it));
    }
    keys
}

fn remember_aliases(aliases: &mut TextMap<String>, keys: &Vec<String>, id: &str)
    ensures
        aliases_view(*final(aliases)) == remember_spec(aliases_view(*old(aliases)), keys_view(keys@), id@),
{
    let t = trim(id);
    if t.unicode_len() == 0 {
        return;
    }
    let ghost a0 = aliases_view(*aliases);
    let ghost ks = keys_view(keys@);
    let mut i: usize = 0;
    while i < keys.len()
        invariant
            i <= keys@.len(),
            ks == keys_view(keys@),
            t@ == trim_seq(id@),
            aliases_view(*aliases) == added_under(a0, ks.subrange(0, i as int), t@),
        decreases keys@.len() - i,
    {
        let ghost before = aliases_view(*aliases);
        aliases.insert(keys[i].clone(), t.clone());
        proof {
            let sub = ks.subrange(0, i as int);
            let sub1 = ks.subrange(0, i as int + 1);
            assert(sub1 =~= sub.push(ks[i as int]));
            assert(ks[i as int] == keys@[i as int]@);
            assert forall|k: Seq<char>| #[trigger] sub1.contains(k) == (sub.contains(k) || k == ks[i as int]) by {
                if sub1.contains(k) {
                    let j = choose|j: int| 0 <= j < sub1.len() && sub1[j] == k;
                    if j < i {
                        assert(sub[j] == k);
                    }
                }
                if sub.contains(k) {
                    let j = choose|j: int| 0 <= j < sub.len() && sub[j] == k;
                    assert(sub1[j] == k);
                }
                if k == ks[i as int] {
                    assert(sub1[i as int] == k);
                }
            }
            assert(aliases_view(*aliases) =~= before.insert(ks[i as int], t@));
            assert(added_under(a0, sub1, t@) =~= before.insert(ks[i as int], t@));
        }
        i = i + 1;
    }
    proof {
        assert(ks.subrange(0, ks.len() as int) =~= ks);
    }
}

fn alias_id(aliases: &TextMap<String>, keys: &Vec<String>) -> (r: Option<String>)
    ensures
        opt_seq(r) == first_alias(aliases_view(*aliases), keys_view(keys@)),
{
    let ghost a = aliases_view(*aliases);
    let ghost ks = keys_view(keys@);
    let mut i: usize = 0;
    proof {
        assert(ks.subrange(0, ks.len() as int) =~= ks);
    }
    while i < keys.len()
        invariant
            i <= keys@.len(),
            ks == keys_view(keys@),
            a == aliases_view(*aliases),
            first_alias(a, ks) == first_alias(a, ks.subrange(i as int, ks.len() as int)),
        decreases keys@.len() - i,
    {
        proof {
            let rest = ks.subrange(i as int, ks.len() as int);
            assert(rest[0] == keys@[i as int]@);
            assert(rest.drop_first() =~= ks.subrange(i as int + 1, ks.len() as int));
        }
        match aliases.get(keys[i].as_str()) {
            Some(v) => return Some(v.clone()),
            None => {},
        }
        i = i + 1;
    }
    None
}

fn delta_id(p: &Json, aliases: &TextMap<String>) -> (r: String)
    ensures
        r@ == delta_id_spec(*p, aliases_view(*aliases)),
{
    let keys = alias_keys(p, None);
    let found = either_text(
        value_identifier(p, "call_id"),
        either_text(alias_id(aliases, &keys), either_text(value_identifier(p, "item_id"), value_identifier(p, "output_index"))),
    );
    match found {
        Some(i) => i,
        None => owned("function_call"),
    }
}

// ----- the translator -----
/// The responses carried by the actions come from the payload's response.
pub open spec fn responses_from(acts: Seq<StreamAction>, p: Json, ctx: StreamContext) -> bool {
    forall|i: int|
        0 <= i < acts.len() ==> (carried_response(#[trigger] acts[i]) matches Some(resp) ==> json_get(p, "response"@) matches Some(r)
            && openai_output_spec(r) matches Ok(out) && openai_response_spec(resp, r, ctx.rate_limit, out))
}

fn provider_event(p: &Json) -> (r: Vec<StreamAction>)
    ensures
        actions_view(r@) == seq![StreamActionView::ProviderEvent(jv(*p))],
        r@.len() == 1 && r@[0] is ProviderEvent,
{
    one(StreamAction::ProviderEvent(copy_json(p)))
}

fn translated_response(payload: Json, ctx: &StreamContext) -> (r: Option<crate::request::Response>)
    requires
        json_get(payload, "response"@) matches Some(m) ==> openai_usage_fits(m),
    ensures
        (r is Some) == (json_get(payload, "response"@) matches Some(m) && response_translates(m)),
        r matches Some(resp) ==> json_get(payload, "response"@) matches Some(m) && openai_output_spec(m) matches Ok(out)
            && openai_response_spec(resp, m, ctx.rate_limit, out),
{
    match take_member(payload, "response") {
        Some(m) => match translate_openai_responses_response(m, copy_rate_limit(&ctx.rate_limit)) {
            Ok(resp) => Some(resp),
            Err(_) => None,
        },
        None => None,
    }
}

fn payload_actions(aliases: &mut TextMap<String>, ctx: &StreamContext, et: &str, payload: Json) -> (r: (bool, Vec<StreamAction>))
    requires
        json_get(payload, "response"@) matches Some(m) ==> openai_usage_fits(m),
    ensures
        (aliases_view(*final(aliases)), r.0, actions_view(r.1@)) == openai_payload_step(aliases_view(*old(aliases)), et@, payload),
        responses_from(r.1@, payload, *ctx),
{
    let raw = raw_of(&payload);
    if str_eq(et, "response.created") || str_eq(et, "response.in_progress") {
        let response = translated_response(payload, ctx);
        let acts = one(StreamAction::EnsureStarted { raw, response });
        return (false, acts);
    }
    if str_eq(et, "response.output_text.delta") || str_eq(et, "response.text.delta") || str_eq(et, "response.refusal.delta") {
        let acts = match value_string(&payload, "delta") {
            Some(d) => one(StreamAction::TextDeltaFor { text_id: stream_item_id(&payload, "text"), delta: d, raw }),
            None => {
                let v: Vec<StreamAction> = Vec::new();
                assert(actions_view(v@) =~= Seq::<StreamActionView>::empty());
                v
            },
        };
        return (false, acts);
    }
    if str_eq(et, "response.output_text.done") || str_eq(et, "response.text.done") || str_eq(et, "response.refusal.done") {
        let text = either_text(value_string(&payload, "text"), value_string(&payload, "delta"));
        return (false, one(StreamAction::TextEndWith { text_id: stream_item_id(&payload, "text"), text, raw }));
    }
    if str_contains(et, "reasoning") && str_ends_with(et, ".delta") {
        let found = either_text(
            value_string(&payload, "delta"),
            either_text(value_string(&payload, "text"), value_string(&payload, "summary")),
        );
        let acts = match found {
            Some(d) => one(StreamAction::ReasoningDelta { delta: d, thinking: None, raw }),
            None => {
                let v: Vec<StreamAction> = Vec::new();
                assert(actions_view(v@) =~= Seq::<StreamActionView>::empty());
                v
            },
        };
        return (false, acts);
    }
    other_payload_actions(aliases, ctx, et, payload)
}

fn other_payload_actions(aliases: &mut TextMap<String>, ctx: &StreamContext, et: &str, payload: Json) -> (r: (bool, Vec<StreamAction>))
    requires
        json_get(payload, "response"@) matches Some(m) ==> openai_usage_fits(m),
    ensures
        (aliases_view(*final(aliases)), r.0, actions_view(r.1@)) == openai_payload_other(aliases_view(*old(aliases)), et@, payload),
        responses_from(r.1@, payload, *ctx),
{
    let raw = raw_of(&payload);
    if str_eq(et, "response.output_item.added") {
        let acts = match get(&payload, "item") {
            Some(item) => match stream_tool_call(item) {
                Some(tc) => {
                    let keys = alias_keys(&payload, Some(item));
                    remember_aliases(aliases, &keys, tc.id.as_str());
                    one(StreamAction::ToolCallStart { tool_call: tc, raw })
                },
                None => provider_event(&payload),
            },
            None => provider_event(&payload),
        };
        (false, acts)
    } else if str_eq(et, "response.function_call_arguments.delta") {
        let id = delta_id(&payload, aliases);
        let name = text_or_empty(value_string(&payload, "name"));
        let delta = text_or_empty(value_string(&payload, "delta"));
        let call = ToolCall {
            id,
            name,
            arguments: Json::Str(delta.clone()),
            raw_arguments: Some(delta),
            call_type: owned("function"),
        };
        (false, one(StreamAction::ToolCallDelta { tool_call: call, raw }))
    } else if str_eq(et, "response.output_item.done") {
        let acts = match get(&payload, "item") {
            Some(item) => match stream_tool_call(item) {
                Some(tc) => {
                    let keys = alias_keys(&payload, Some(item));
                    let id = match alias_id(aliases, &keys) {
                        Some(a) => a,
                        None => tc.id.clone(),
                    };
                    remember_aliases(aliases, &keys, id.as_str());
                    let call = ToolCall {
                        id,
                        name: tc.name,
                        arguments: tc.arguments,
                        raw_arguments: tc.raw_arguments,
                        call_type: tc.call_type,
                    };
                    one(StreamAction::ToolCallEnd { final_call: Some(call), raw })
                },
                None => match stream_text_item(item) {
                    Some((text_id, text)) => one(StreamAction::TextEndWith { text_id, text, raw }),
                    None => provider_event(&payload),
                },
            },
            None => provider_event(&payload),
        };
        (false, acts)
    } else if str_eq(et, "response.completed") || str_eq(et, "response.done") {
        match take_member(payload, "response") {
            Some(m) => match translate_openai_responses_response(m, copy_rate_limit(&ctx.rate_limit)) {
                Ok(resp) => (true, one(StreamAction::Complete { response: resp, raw })),
                Err(e) => {
                    assert(err_view(e) == error_view_of(e@));
                    (true, one(StreamAction::PushError { error: e, raw }))
                },
            },
            None => (true, one(StreamAction::Finish { raw })),
        }
    } else if str_eq(et, "response.failed") || str_eq(et, "error") {
        let error = provider_payload_error("openai", &payload);
        assert(err_view(error) == openai_payload_error_view(payload));
        (true, one(StreamAction::PushError { error, raw }))
    } else {
        (false, provider_event(&payload))
    }
}

impl OpenAiStreamTranslator {
    /// What the end of the input asks of the stream: nothing once it has
    /// ended; else it finishes with the payloads kept so far.
    pub fn finish_eof(&mut self, ctx: &StreamContext) -> (actions: Vec<StreamAction>)
        ensures
            final(self).finished,
            actions_view(actions@) == if old(self).finished {
                Seq::<StreamActionView>::empty()
            } else {
                seq![StreamActionView::Finish { raw: stream_raw_spec(jv_items(ctx.raw_payloads@)) }]
            },
            final(self).tool_call_aliases.as_map() == old(self).tool_call_aliases.as_map(),
    {
        if self.finished {
            let v: Vec<StreamAction> = Vec::new();
            assert(actions_view(v@) =~= Seq::<StreamActionView>::empty());
            return v;
        }
        self.finished = true;
        one(StreamAction::Finish { raw: stream_raw_payload(&ctx.raw_payloads) })
    }

    /// A reading of a stream that has just begun.
    pub fn new() -> (r: Self)
        ensures
            r@.aliases == Map::<Seq<char>, Seq<char>>::empty(),
            !r@.finished,
    {
        let t = OpenAiStreamTranslator { tool_call_aliases: TextMap::new(), finished: false };
        assert(aliases_view(t.tool_call_aliases) =~= Map::<Seq<char>, Seq<char>>::empty());
        t
    }

    /// What one item of the stream asks of the stream it feeds.
    pub fn apply(&mut self, ctx: &StreamContext, item: Result<ProviderStreamRecord, SDKError>) -> (actions: Vec<StreamAction>)
        requires
            openai_item_fits(item),
        ensures
            (final(self)@, actions_view(actions@)) == openai_stream_step(old(self)@, *ctx, item),
            openai_responses_ok(actions@, item, *ctx),
    {
        if self.finished {
            let v: Vec<StreamAction> = Vec::new();
            assert(actions_view(v@) =~= Seq::<StreamActionView>::empty());
            return v;
        }
        let record = match item {
            Ok(r) => r,
            Err(e) => {
                self.finished = true;
                return one(failure(ctx.started, e));
            },
        };
        if record.done {
            self.finished = true;
            return one(StreamAction::Finish { raw: stream_raw_payload(&ctx.raw_payloads) });
        }
        let ghost rec = record;
        let event = match &record.event {
            Some(e) => e.clone(),
            None => String::new(),
        };
        let payload = match stream_record_payload("openai", record) {
            Ok(p) => p,
            Err(e) => {
                self.finished = true;
                return one(failure(ctx.started, e));
            },
        };
        let event_type = if event.unicode_len() == 0 {
            text_or_empty(value_string(&payload, "type"))
        } else {
            event
        };
        assert(event_type@ == anthropic_event_type(rec@, payload));
        let first = one(StreamAction::RecordPayload(copy_json(&payload)));
        let (finished, rest) = payload_actions(&mut self.tool_call_aliases, ctx, event_type.as_str(), payload);
        self.finished = finished;
        let acts = append_actions(first, rest);
        proof {
            assert forall|i: int| 0 <= i < acts@.len() implies (carried_response(#[trigger] acts@[i]) matches Some(resp)
                ==> item matches Ok(rec) && rec.payload matches Some(p) && json_get(p, "response"@) matches Some(r)
                && openai_output_spec(r) matches Ok(out) && openai_response_spec(resp, r, ctx.rate_limit, out)) by {
                if i > 0 {
                    assert(acts@[i] == rest@[i - 1]);
                } else {
                    assert(acts@[0] == first@[0]);
                }
            }
        }
        acts
    }
}

// ----- laws -----
/// A tool call remembered under some keys is found again under those keys:
/// the first of them gives the call's trimmed id.
pub proof fn lemma_remembered_alias_is_found(aliases: Map<Seq<char>, Seq<char>>, keys: Seq<Seq<char>>, id: Seq<char>)
    requires
        keys.len() > 0,
        trim_seq(id).len() > 0,
    ensures
        first_alias(remember_spec(aliases, keys, id), keys) == Some(trim_seq(id)),
{
    let m = remember_spec(aliases, keys, id);
    assert(keys.contains(keys[0]));
    assert(m.contains_key(keys[0]));
}

/// Once a stream has ended, its reader asks nothing more and stays as it is.
pub proof fn lemma_openai_finished_stays(st: OpenAiStreamView, ctx: StreamContext, item: Result<ProviderStreamRecord, SDKError>)
    requires
        st.finished,
    ensures
        openai_stream_step(st, ctx, item) == (st, Seq::<StreamActionView>::empty()),
{
}

} // verus!
