//! Reading a Gemini streamGenerateContent stream: each payload is a whole
//! response so far, so the reader keeps the text and reasoning already
//! streamed, emits what each response adds, and emits each tool call once.
use vstd::prelude::*;
use crate::anthropic_stream::{append_actions, failure, failure_view, one, raw_of};
use crate::errors::{SDKError, SDKErrorKind, SDKErrorView, default_retryable_spec};
use crate::gemini::{gemini_parts, gemini_response_spec, gemini_usage_fits, translate_gemini_generate_content_response};
use crate::gemini_stream::{
    first_reasoning_index, gemini_reasoning_metadata, gemini_stream_payloads, has_provider_content, is_gemini_stream_payload,
    is_stream_response_spec, reasoning_data, response_has_provider_content, stream_active_spec, stream_delta_spec,
    stream_payloads_spec, stream_text_delta,
};
use crate::json::{Json, JsonView, copy_json, get, json_get, json_text, json_to_text, jv, jv_items};
use crate::native::{payload_error_message, provider_payload_error, stream_raw_payload, stream_raw_spec};
use crate::request::{ContentPart, Response, ThinkingView, ToolCall, ToolCallView, parts_reasoning, parts_text, parts_tool_calls, tool_calls_view};
use crate::sse::ProviderStreamRecord;
use crate::stream_actions::{
    ErrorView, StreamAction, StreamActionView, StreamContext, actions_view, copy_rate_limit, err_view, opt_thinking_view,
    record_payload_spec, record_raw_spec, stream_record_payload,
};
use crate::text::{concat2, concat3, owned, str_eq};

verus! {

// ----- the reader's state -----
/// A Gemini stream being read: the text and reasoning streamed so far, the
/// signatures of the tool calls already emitted, and whether it has ended.
pub struct GeminiStreamTranslator {
    pub active_text: String,
    pub active_reasoning: String,
    pub emitted_tool_calls: Vec<String>,
    pub finished: bool,
}

pub struct GeminiStreamView {
    pub active_text: Seq<char>,
    pub active_reasoning: Seq<char>,
    pub emitted: Seq<Seq<char>>,
    pub finished: bool,
}

pub open spec fn strings_view(v: Seq<String>) -> Seq<Seq<char>> {
    v.map_values(|s: String| s@)
}

impl View for GeminiStreamTranslator {
    type V = GeminiStreamView;

    open spec fn view(&self) -> GeminiStreamView {
        GeminiStreamView {
            active_text: self.active_text@,
            active_reasoning: self.active_reasoning@,
            emitted: strings_view(self.emitted_tool_calls@),
            finished: self.finished,
        }
    }
}

// ----- one response -----
/// The reasoning metadata of a response's parts, as values.
pub open spec fn metadata_view(parts: Seq<ContentPart>) -> Option<ThinkingView> {
    match first_reasoning_index(parts) {
        Some(i) => Some(ThinkingView { text: Seq::empty(), ..reasoning_data(parts[i])->0@ }),
        None => None,
    }
}

/// The tool calls of a response: those of its message, else those it
/// reports on its own.
pub open spec fn response_tool_calls(r: Response) -> Seq<ToolCallView> {
    if parts_tool_calls(r.message.content@).len() == 0 {
        tool_calls_view(r.tool_calls@)
    } else {
        parts_tool_calls(r.message.content@)
    }
}

/// The text a tool call is known by: its id, name and arguments.
pub open spec fn call_signature(c: ToolCallView) -> Seq<char> {
    c.id + ":"@ + c.name + ":"@ + json_text(c.arguments)
}

/// The tool calls not emitted yet, each emitted once as a start and an end.
pub open spec fn tool_calls_step(emitted: Seq<Seq<char>>, calls: Seq<ToolCallView>, raw: Option<JsonView>) -> (
    Seq<Seq<char>>,
    Seq<StreamActionView>,
)
    decreases calls.len(),
{
    if calls.len() == 0 {
        (emitted, Seq::empty())
    } else {
        let (e, acts) = tool_calls_step(emitted, calls.drop_last(), raw);
        let c = calls.last();
        if e.contains(call_signature(c)) {
            (e, acts)
        } else {
            (
                e.push(call_signature(c)),
                acts + seq![
                    StreamActionView::ToolCallStart { tool_call: c, raw },
                    StreamActionView::ToolCallEnd { final_call: Some(c), raw },
                ],
            )
        }
    }
}

/// What a response asks of the stream: it is recorded as the response so
/// far; the text and reasoning it adds to what was streamed are streamed;
/// with tool calls the text block closes and each new call is emitted; a
/// response with provider parts is passed through.
pub open spec fn gemini_response_step(st: GeminiStreamView, p: Json, r: Response) -> (GeminiStreamView, Seq<StreamActionView>) {
    let raw = Some(jv(p));
    let parts = r.message.content@;
    let text = parts_text(parts);
    let (active_text, text_acts) = if text.len() == 0 {
        (st.active_text, Seq::empty())
    } else {
        let d = stream_delta_spec(st.active_text, text);
        (
            stream_active_spec(st.active_text, text),
            if d.len() == 0 {
                Seq::empty()
            } else {
                seq![StreamActionView::TextDeltaFor { text_id: Some("text_0"@), delta: d, raw }]
            },
        )
    };
    let reasoning = match parts_reasoning(parts) {
        Some(t) => t,
        None => Seq::empty(),
    };
    let (active_reasoning, reasoning_acts) = if reasoning.len() == 0 {
        (st.active_reasoning, Seq::empty())
    } else {
        let d = stream_delta_spec(st.active_reasoning, reasoning);
        (
            stream_active_spec(st.active_reasoning, reasoning),
            if d.len() == 0 {
                Seq::empty()
            } else {
                seq![StreamActionView::ReasoningDelta { delta: d, thinking: metadata_view(parts), raw }]
            },
        )
    };
    let calls = response_tool_calls(r);
    let close = if calls.len() > 0 {
        seq![StreamActionView::TextEndIfOpen { text_id: "text_0"@, raw }]
    } else {
        Seq::empty()
    };
    let (emitted, call_acts) = tool_calls_step(st.emitted, calls, raw);
    let passed = if has_provider_content(parts) {
        seq![StreamActionView::ProviderEvent(jv(p))]
    } else {
        Seq::empty()
    };
    (
        GeminiStreamView { active_text, active_reasoning, emitted, finished: st.finished },
        seq![StreamActionView::Progress { raw }] + text_acts + reasoning_acts + close + call_acts + passed,
    )
}

/// The error event a payload with an `error` member stands for.
pub open spec fn gemini_payload_error_view(p: Json) -> ErrorView {
    ErrorView {
        fields: SDKErrorView {
            kind: SDKErrorKind::Stream,
            message: payload_error_message(p),
            provider: Some("gemini"@),
            status_code: None,
            error_code: None,
            retryable: default_retryable_spec(SDKErrorKind::Stream),
            raw: None,
        },
        raw: Some(jv(p)),
    }
}

/// What one payload asks of the stream, given its translation `t`: it is
/// kept; an error payload fails the stream; a payload that is no response
/// passes through; a response that does not translate fails the stream.
pub open spec fn gemini_payload_step(st: GeminiStreamView, p: Json, t: Result<Response, SDKError>) -> (
    GeminiStreamView,
    Seq<StreamActionView>,
) {
    let raw = Some(jv(p));
    let kept = seq![StreamActionView::RecordPayload(jv(p))];
    if json_get(p, "error"@) is Some {
        (GeminiStreamView { finished: true, ..st }, kept + seq![StreamActionView::PushError { error: gemini_payload_error_view(p), raw }])
    } else if !is_stream_response_spec(p) {
        (st, kept + seq![StreamActionView::ProviderEvent(jv(p))])
    } else {
        match t {
            Err(e) => (GeminiStreamView { finished: true, ..st }, kept + seq![StreamActionView::PushError { error: err_view(e), raw }]),
            Ok(r) => {
                let (s, acts) = gemini_response_step(st, p, r);
                (s, kept + acts)
            },
        }
    }
}

/// The payloads one after another, until one ends the stream.
pub open spec fn gemini_payloads_step(st: GeminiStreamView, ps: Seq<Json>, ts: Seq<Result<Response, SDKError>>) -> (
    GeminiStreamView,
    Seq<StreamActionView>,
)
    decreases ps.len(),
{
    if ps.len() == 0 {
        (st, Seq::empty())
    } else {
        let (s, acts) = gemini_payloads_step(st, ps.drop_last(), ts.drop_last());
        if s.finished {
            (s, acts)
        } else {
            let (s2, more) = gemini_payload_step(s, ps.last(), ts.last());
            (s2, acts + more)
        }
    }
}

/// `t` is what the translation of payload `p` gives, where it is asked for.
pub open spec fn is_translation(p: Json, rate_limit: Option<crate::request::RateLimitInfo>, t: Result<Response, SDKError>) -> bool {
    match t {
        Ok(r) => p is Object && (gemini_parts(p) matches Ok(parts) && gemini_response_spec(r, p, rate_limit, parts)),
        Err(e) => if p is Object {
            gemini_parts(p) == Err::<Seq<crate::request::ContentPartView>, SDKErrorView>(e@)
        } else {
            e@ == crate::native::provider_error_spec(
                SDKErrorKind::Provider,
                "gemini"@,
                "Gemini generateContent response must be a JSON object"@,
            )
        },
    }
}

/// What one item of a Gemini stream asks of the stream it feeds, given the
/// translations of its payloads.
pub open spec fn gemini_stream_step(
    st: GeminiStreamView,
    ctx: StreamContext,
    item: Result<ProviderStreamRecord, SDKError>,
    ts: Seq<Result<Response, SDKError>>,
) -> (GeminiStreamView, Seq<StreamActionView>) {
    if st.finished {
        (st, Seq::empty())
    } else {
        match item {
            Err(e) => (GeminiStreamView { finished: true, ..st }, seq![failure_view(ctx.started, err_view(e))]),
            Ok(rec) => if rec.done {
                (
                    GeminiStreamView { finished: true, ..st },
                    seq![StreamActionView::Finish { raw: stream_raw_spec(jv_items(ctx.raw_payloads@)) }],
                )
            } else {
                match rec.payload {
                    None => (
                        GeminiStreamView { finished: true, ..st },
                        seq![
                            failure_view(
                                ctx.started,
                                ErrorView {
                                    fields: record_payload_spec("gemini"@, rec@)->Err_0,
                                    raw: Some(record_raw_spec(rec@)),
                                },
                            ),
                        ],
                    ),
                    Some(p) => gemini_payloads_step(st, stream_payloads_spec(p), ts),
                }
            },
        }
    }
}

/// What the translation of the payloads needs: their usage counts must add
/// up within range.
pub open spec fn gemini_item_fits(item: Result<ProviderStreamRecord, SDKError>) -> bool {
    item matches Ok(rec) && rec.payload matches Some(p) ==> forall|i: int|
        0 <= i < stream_payloads_spec(p).len() ==> gemini_usage_fits(#[trigger] stream_payloads_spec(p)[i])
}

/// Whether a payload's translation is asked for: it holds no error and is
/// a response.
pub open spec fn asked(p: Json) -> bool {
    json_get(p, "error"@) is None && is_stream_response_spec(p)
}

/// Each payload the stream reaches, and whose translation is asked for,
/// has its translation in `ts`.
pub open spec fn translations_ok(
    st: GeminiStreamView,
    ps: Seq<Json>,
    ts: Seq<Result<Response, SDKError>>,
    rate_limit: Option<crate::request::RateLimitInfo>,
) -> bool
    decreases ps.len(),
{
    if ps.len() == 0 {
        true
    } else {
        &&& translations_ok(st, ps.drop_last(), ts.drop_last(), rate_limit)
        &&& (gemini_payloads_step(st, ps.drop_last(), ts.drop_last()).0.finished || !asked(ps.last())
            || is_translation(ps.last(), rate_limit, ts.last()))
    }
}

/// The responses so far that the actions carry are translations in `ts`
/// without their raw payload.
pub open spec fn progress_from(acts: Seq<StreamAction>, ts: Seq<Result<Response, SDKError>>) -> bool {
    forall|i: int|
        0 <= i < acts.len() ==> (#[trigger] acts[i] matches StreamAction::Progress { response, .. } ==> exists|j: int|
            0 <= j < ts.len() && ((#[trigger] ts[j]) matches Ok(t) && response == (Response { raw: None, ..t })))
}

/// The payloads of an item.
pub open spec fn item_payloads(item: Result<ProviderStreamRecord, SDKError>) -> Seq<Json> {
    match item {
        Ok(rec) => if rec.done {
            Seq::empty()
        } else {
            match rec.payload {
                Some(p) => stream_payloads_spec(p),
                None => Seq::empty(),
            }
        },
        Err(_) => Seq::empty(),
    }
}

/// The reader went from `st0` to `st1` with these actions, for the
/// translations `ts` of the item's payloads.
pub open spec fn gemini_apply_spec(
    st0: GeminiStreamView,
    st1: GeminiStreamView,
    ctx: StreamContext,
    item: Result<ProviderStreamRecord, SDKError>,
    ts: Seq<Result<Response, SDKError>>,
    actions: Seq<StreamAction>,
) -> bool {
    gemini_translations_fit(st0, item, ctx, ts, actions) && (st1, actions_view(actions)) == gemini_stream_step(st0, ctx, item, ts)
}

/// The translations fit the item's payloads, and the responses the actions
/// carry are those translations without their raw payload.
pub open spec fn gemini_translations_fit(
    st: GeminiStreamView,
    item: Result<ProviderStreamRecord, SDKError>,
    ctx: StreamContext,
    ts: Seq<Result<Response, SDKError>>,
    actions: Seq<StreamAction>,
) -> bool {
    &&& ts.len() == item_payloads(item).len()
    &&& translations_ok(st, item_payloads(item), ts, ctx.rate_limit)
    &&& progress_from(actions, ts)
}

// ----- one response, executably -----
/// None of the actions is a response so far.
pub open spec fn no_progress(acts: Seq<StreamAction>) -> bool {
    forall|i: int| 0 <= i < acts.len() ==> !(#[trigger] acts[i] is Progress)
}

fn contains_text(v: &Vec<String>, s: &str) -> (r: bool)
    ensures
        r == strings_view(v@).contains(s@),
{
    let mut i: usize = 0;
    while i < v.len()
        invariant
            i <= v@.len(),
            forall|j: int| 0 <= j < i ==> v@[j]@ != s@,
        decreases v@.len() - i,
    {
        if str_eq(v[i].as_str(), s) {
            assert(strings_view(v@)[i as int] == s@);
            return true;
        }
        i = i + 1;
    }
    assert forall|j: int| 0 <= j < strings_view(v@).len() implies strings_view(v@)[j] != s@ by {
        assert(strings_view(v@)[j] == v@[j]@);
    }
    false
}

fn signature_of(c: &ToolCall) -> (r: String)
    ensures
        r@ == call_signature(c@),
{
    let head = concat3(c.id.as_str(), ":", c.name.as_str());
    let args = json_to_text(&c.arguments);
    concat3(head.as_str(), ":", args.as_str())
}

fn emit_tool_calls(emitted: &mut Vec<String>, calls: Vec<ToolCall>, p: &Json) -> (acts: Vec<StreamAction>)
    ensures
        (strings_view(final(emitted)@), actions_view(acts@)) == tool_calls_step(
            strings_view(old(emitted)@),
            tool_calls_view(calls@),
            Some(jv(*p)),
        ),
        no_progress(acts@),
{
    let ghost e0 = strings_view(emitted@);
    let ghost cs = tool_calls_view(calls@);
    let mut acts: Vec<StreamAction> = Vec::new();
    let mut i: usize = 0;
    proof {
        assert(cs.subrange(0, 0) =~= Seq::<ToolCallView>::empty());
        assert(actions_view(acts@) =~= Seq::<StreamActionView>::empty());
    }
    while i < calls.len()
        invariant
            i <= calls@.len(),
            cs == tool_calls_view(calls@),
            (strings_view(emitted@), actions_view(acts@)) == tool_calls_step(e0, cs.subrange(0, i as int), Some(jv(*p))),
            no_progress(acts@),
        decreases calls@.len() - i,
    {
        let c = &calls[i];
        let sig = signature_of(c);
        proof {
            let sub1 = cs.subrange(0, i as int + 1);
            assert(sub1.drop_last() =~= cs.subrange(0, i as int));
            assert(sub1.last() == c@);
        }
        if !contains_text(emitted, sig.as_str()) {
            let ghost ev = strings_view(emitted@);
            let ghost av = acts@;
            emitted.push(sig);
            assert(strings_view(emitted@) =~= ev.push(call_signature(c@)));
            acts.push(StreamAction::ToolCallStart { tool_call: c.copy(), raw: raw_of(p) });
            acts.push(StreamAction::ToolCallEnd { final_call: Some(c.copy()), raw: raw_of(p) });
            proof {
                assert(actions_view(acts@) =~= actions_view(av) + seq![
                    StreamActionView::ToolCallStart { tool_call: c@, raw: Some(jv(*p)) },
                    StreamActionView::ToolCallEnd { final_call: Some(c@), raw: Some(jv(*p)) },
                ]);
            }
        }
        i = i + 1;
    }
    proof {
        assert(cs.subrange(0, cs.len() as int) =~= cs);
    }
    acts
}

fn text_acts(active: &mut String, text: String, p: &Json, reasoning: bool, thinking: Option<crate::request::ThinkingData>) -> (acts: Vec<StreamAction>)
    ensures
        final(active)@ == if text@.len() == 0 { old(active)@ } else { stream_active_spec(old(active)@, text@) },
        actions_view(acts@) == if text@.len() == 0 || stream_delta_spec(old(active)@, text@).len() == 0 {
            Seq::<StreamActionView>::empty()
        } else if reasoning {
            seq![
                StreamActionView::ReasoningDelta {
                    delta: stream_delta_spec(old(active)@, text@),
                    thinking: opt_thinking_view(thinking),
                    raw: Some(jv(*p)),
                },
            ]
        } else {
            seq![
                StreamActionView::TextDeltaFor {
                    text_id: Some("text_0"@),
                    delta: stream_delta_spec(old(active)@, text@),
                    raw: Some(jv(*p)),
                },
            ]
        },
        no_progress(acts@),
{
    let mut acts: Vec<StreamAction> = Vec::new();
    assert(actions_view(acts@) =~= Seq::<StreamActionView>::empty());
    if text.unicode_len() == 0 {
        return acts;
    }
    let d = stream_text_delta(active.as_str(), text.as_str());
    if d.unicode_len() > 0 {
        if reasoning {
            acts = one(StreamAction::ReasoningDelta { delta: d, thinking, raw: raw_of(p) });
        } else {
            acts = one(StreamAction::TextDeltaFor { text_id: Some(owned("text_0")), delta: d, raw: raw_of(p) });
        }
    }
    if crate::text::str_starts_with(text.as_str(), active.as_str()) {
        *active = text;
    } else {
        *active = concat2(active.as_str(), text.as_str());
    }
    acts
}

fn response_actions(st: &mut GeminiStreamTranslator, p: &Json, r: Response) -> (acts: Vec<StreamAction>)
    ensures
        (final(st)@, actions_view(acts@)) == gemini_response_step(old(st)@, *p, r),
        forall|i: int| 0 <= i < acts@.len() ==> (#[trigger] acts@[i] matches StreamAction::Progress { response, .. } ==> response
            == (Response { raw: None, ..r })),
{
    let ghost parts = r.message.content@;
    let text = r.message.text();
    let t_acts = text_acts(&mut st.active_text, text, p, false, None);
    let reasoning = match r.reasoning() {
        Some(t) => t,
        None => String::new(),
    };
    let meta = gemini_reasoning_metadata(&r);
    assert(opt_thinking_view(meta) == metadata_view(parts));
    let r_acts = text_acts(&mut st.active_reasoning, reasoning, p, true, meta);
    let calls = r.tool_calls();
    let close = if calls.len() > 0 {
        one(StreamAction::TextEndIfOpen { text_id: owned("text_0"), raw: raw_of(p) })
    } else {
        let v: Vec<StreamAction> = Vec::new();
        assert(actions_view(v@) =~= Seq::<StreamActionView>::empty());
        v
    };
    let c_acts = emit_tool_calls(&mut st.emitted_tool_calls, calls, p);
    let passed = if response_has_provider_content(&r) {
        one(StreamAction::ProviderEvent(copy_json(p)))
    } else {
        let v: Vec<StreamAction> = Vec::new();
        assert(actions_view(v@) =~= Seq::<StreamActionView>::empty());
        v
    };
    let mut resp = r;
    resp.raw = None;
    let first = one(StreamAction::Progress { response: resp, raw: raw_of(p) });
    let a1 = append_actions(first, t_acts);
    let a2 = append_actions(a1, r_acts);
    let a3 = append_actions(a2, close);
    let a4 = append_actions(a3, c_acts);
    let acts = append_actions(a4, passed);
    proof {
        assert forall|i: int| 0 <= i < acts@.len() implies (#[trigger] acts@[i] matches StreamAction::Progress { response, .. }
            ==> response == (Response { raw: None, ..r })) by {
            if i > 0 {
                assert(!(acts@[i] is Progress)) by {
                    assert(acts@[i]@ == actions_view(acts@)[i]);
                }
            }
        }
    }
    acts
}

// ----- payloads -----
fn payload_actions(st: &mut GeminiStreamTranslator, ctx: &StreamContext, p: Json) -> (r: (
    Vec<StreamAction>,
    Ghost<Result<Response, SDKError>>,
))
    requires
        gemini_usage_fits(p),
    ensures
        asked(p) ==> is_translation(p, ctx.rate_limit, r.1@),
        (final(st)@, actions_view(r.0@)) == gemini_payload_step(old(st)@, p, r.1@),
        forall|i: int| 0 <= i < r.0@.len() ==> (#[trigger] r.0@[i] matches StreamAction::Progress { response, .. } ==> (
        r.1@ matches Ok(t) && response == (Response { raw: None, ..t }))),
{
    let kept = one(StreamAction::RecordPayload(copy_json(&p)));
    if get(&p, "error").is_some() {
        st.finished = true;
        let error = provider_payload_error("gemini", &p);
        assert(err_view(error) == gemini_payload_error_view(p));
        let more = one(StreamAction::PushError { error, raw: raw_of(&p) });
        return (append_actions(kept, more), Ghost(vstd::pervasive::arbitrary()));
    }
    if !is_gemini_stream_payload(&p) {
        let more = one(StreamAction::ProviderEvent(copy_json(&p)));
        return (append_actions(kept, more), Ghost(vstd::pervasive::arbitrary()));
    }
    let raw = raw_of(&p);
    let pc = copy_json(&p);
    let ghost p0 = p;
    match translate_gemini_generate_content_response(p, copy_rate_limit(&ctx.rate_limit)) {
        Err(e) => {
            st.finished = true;
            let ghost t = Err::<Response, SDKError>(e);
            let more = one(StreamAction::PushError { error: e, raw });
            (append_actions(kept, more), Ghost(t))
        },
        Ok(resp) => {
            let ghost t = Ok::<Response, SDKError>(resp);
            let more = response_actions(st, &pc, resp);
            assert(gemini_response_step(old(st)@, pc, resp) == gemini_response_step(old(st)@, p0, resp));
            let acts = append_actions(kept, more);
            proof {
                assert forall|i: int| 0 <= i < acts@.len() implies (#[trigger] acts@[i] matches StreamAction::Progress {
                    response,
                    ..
                } ==> (t matches Ok(tt) && response == (Response { raw: None, ..tt }))) by {
                    if i > 0 {
                        assert(acts@[i] == more@[i - 1]);
                    } else {
                        assert(acts@[0] == kept@[0]);
                    }
                }
            }
            (acts, Ghost(t))
        },
    }
}

proof fn lemma_finished_prefix(
    st: GeminiStreamView,
    ps: Seq<Json>,
    ts: Seq<Result<Response, SDKError>>,
    i: int,
    rate_limit: Option<crate::request::RateLimitInfo>,
)
    requires
        ts.len() == ps.len(),
        0 <= i <= ps.len(),
        gemini_payloads_step(st, ps.subrange(0, i), ts.subrange(0, i)).0.finished,
        translations_ok(st, ps.subrange(0, i), ts.subrange(0, i), rate_limit),
    ensures
        gemini_payloads_step(st, ps, ts) == gemini_payloads_step(st, ps.subrange(0, i), ts.subrange(0, i)),
        translations_ok(st, ps, ts, rate_limit),
    decreases ps.len() - i,
{
    if ps.len() == i {
        assert(ps.subrange(0, i) =~= ps);
        assert(ts.subrange(0, i) =~= ts);
    } else {
        assert(ps.drop_last().subrange(0, i) =~= ps.subrange(0, i));
        assert(ts.drop_last().subrange(0, i) =~= ts.subrange(0, i));
        lemma_finished_prefix(st, ps.drop_last(), ts.drop_last(), i, rate_limit);
    }
}

impl GeminiStreamTranslator {
    /// What the end of the input asks of the stream: nothing once it has
    /// ended; else it finishes with the payloads kept so far.
    pub fn finish_eof(&mut self, ctx: &StreamContext) -> (actions: Vec<StreamAction>)
        ensures
            final(self).finished,
            actions_view(actions@) == if old(self).finished {
                Seq::<StreamActionView>::empty()
            } else {
                seq![StreamActionView::Finish { raw: stream_raw_spec(jv_items(ctx.raw_payloads@)) }]
            },
            final(self).active_text == old(self).active_text && final(self).active_reasoning == old(self).active_reasoning && final(self).emitted_tool_calls == old(self).emitted_tool_calls,
    {
        if self.finished {
            let v: Vec<StreamAction> = Vec::new();
            assert(actions_view(v@) =~= Seq::<StreamActionView>::empty());
            return v;
        }
        self.finished = true;
        one(StreamAction::Finish { raw: stream_raw_payload(&ctx.raw_payloads) })
    }

    /// A reading of a stream that has just begun.
    pub fn new() -> (r: Self)
        ensures
            r@.active_text == Seq::<char>::empty(),
            r@.active_reasoning == Seq::<char>::empty(),
            r@.emitted == Seq::<Seq<char>>::empty(),
            !r@.finished,
    {
        let t = GeminiStreamTranslator {
            active_text: String::new(),
            active_reasoning: String::new(),
            emitted_tool_calls: Vec::new(),
            finished: false,
        };
        assert(strings_view(t.emitted_tool_calls@) =~= Seq::<Seq<char>>::empty());
        t
    }

    /// What one item of the stream asks of the stream it feeds, for the
    /// translations of the payloads it reads.
    pub fn apply(&mut self, ctx: &StreamContext, item: Result<ProviderStreamRecord, SDKError>) -> (actions: Vec<StreamAction>)
        requires
            gemini_item_fits(item),
        ensures
            exists|ts: Seq<Result<Response, SDKError>>| #[trigger] gemini_apply_spec(old(self)@, final(self)@, *ctx, item, ts, actions@),
    {
        let ghost no_ts = Seq::<Result<Response, SDKError>>::empty();
        if self.finished {
            let v: Vec<StreamAction> = Vec::new();
            assert(actions_view(v@) =~= Seq::<StreamActionView>::empty());
            proof {
                lemma_translations_for(old(self)@, item, *ctx, v@);
            }
            return v;
        }
        let record = match item {
            Ok(r) => r,
            Err(e) => {
                self.finished = true;
                let acts = one(failure(ctx.started, e));
                assert(gemini_apply_spec(old(self)@, self@, *ctx, item, no_ts, acts@));
                return acts;
            },
        };
        if record.done {
            self.finished = true;
            let acts = one(StreamAction::Finish { raw: stream_raw_payload(&ctx.raw_payloads) });
            assert(gemini_apply_spec(old(self)@, self@, *ctx, item, no_ts, acts@));
            return acts;
        }
        let payload = match stream_record_payload("gemini", record) {
            Ok(p) => p,
            Err(e) => {
                self.finished = true;
                let acts = one(failure(ctx.started, e));
                assert(gemini_apply_spec(old(self)@, self@, *ctx, item, no_ts, acts@));
                return acts;
            },
        };
        let mut payloads = gemini_stream_payloads(payload);
        let ghost ps = payloads@;
        let ghost st0 = self@;
        let ghost mut ts = Seq::<Result<Response, SDKError>>::empty();
        let mut acts: Vec<StreamAction> = Vec::new();
        let n = payloads.len();
        let mut i: usize = 0;
        proof {
            assert(ps.subrange(0, 0) =~= Seq::<Json>::empty());
            assert(payloads@ =~= ps.subrange(0, n as int));
            assert(actions_view(acts@) =~= Seq::<StreamActionView>::empty());
        }
        while i < n && !self.finished
            invariant
                n == ps.len(),
                i <= n,
                payloads@ == ps.subrange(i as int, n as int),
                ts.len() == i,
                !st0.finished,
                ps == item_payloads(item),
                forall|j: int| 0 <= j < n ==> gemini_usage_fits(#[trigger] ps[j]),
                (self@, actions_view(acts@)) == gemini_payloads_step(st0, ps.subrange(0, i as int), ts),
                translations_ok(st0, ps.subrange(0, i as int), ts, ctx.rate_limit),
                progress_from(acts@, ts),
            decreases n - i,
        {
            let p = payloads.remove(0);
            assert(p == ps[i as int]);
            let (more, Ghost(t)) = payload_actions(self, ctx, p);
            let ghost ts0 = ts;
            let ghost a0 = acts@;
            proof {
                let sub1 = ps.subrange(0, i as int + 1);
                assert(sub1.drop_last() =~= ps.subrange(0, i as int));
                assert(sub1.last() == ps[i as int]);
                ts = ts.push(t);
                assert(ts.drop_last() =~= ts0);
                assert(ts.last() == t);
            }
            acts = append_actions(acts, more);
            proof {
                assert(payloads@ =~= ps.subrange(i as int + 1, n as int));
                assert forall|k: int| 0 <= k < acts@.len() implies (#[trigger] acts@[k] matches StreamAction::Progress {
                    response,
                    ..
                } ==> exists|j: int|
                    0 <= j < ts.len() && ((#[trigger] ts[j]) matches Ok(tt) && response == (Response { raw: None, ..tt }))) by {
                    if k < a0.len() {
                        assert(acts@[k] == a0[k]);
                        if acts@[k] is Progress {
                            let j = choose|j: int|
                                0 <= j < ts0.len() && ((#[trigger] ts0[j]) matches Ok(tt) && acts@[k]->Progress_response == (
                                Response { raw: None, ..tt }));
                            assert(ts[j] == ts0[j]);
                        }
                    } else {
                        assert(acts@[k] == more@[k - a0.len()]);
                        assert(ts[i as int] == t);
                    }
                }
            }
            i = i + 1;
        }
        proof {
            if i < n {
                let pad = Seq::new((n - i) as nat, |k: int| vstd::pervasive::arbitrary::<Result<Response, SDKError>>());
                let full = ts + pad;
                assert(full.subrange(0, i as int) =~= ts);
                lemma_finished_prefix(st0, ps, full, i as int, ctx.rate_limit);
                assert forall|k: int| 0 <= k < acts@.len() implies (#[trigger] acts@[k] matches StreamAction::Progress {
                    response,
                    ..
                } ==> exists|j: int|
                    0 <= j < full.len() && ((#[trigger] full[j]) matches Ok(tt) && response == (Response { raw: None, ..tt }))) by {
                    if acts@[k] is Progress {
                        let j = choose|j: int|
                            0 <= j < ts.len() && ((#[trigger] ts[j]) matches Ok(tt) && acts@[k]->Progress_response == (Response {
                                raw: None,
                                ..tt
                            }));
                        assert(full[j] == ts[j]);
                    }
                }
                assert(gemini_apply_spec(old(self)@, self@, *ctx, item, full, acts@));
            } else {
                assert(ps.subrange(0, n as int) =~= ps);
                assert(gemini_apply_spec(old(self)@, self@, *ctx, item, ts, acts@));
            }
        }
        acts
    }
}

proof fn lemma_translations_for(
    st: GeminiStreamView,
    item: Result<ProviderStreamRecord, SDKError>,
    ctx: StreamContext,
    acts: Seq<StreamAction>,
)
    requires
        st.finished,
        acts.len() == 0,
    ensures
        exists|ts: Seq<Result<Response, SDKError>>| #[trigger] gemini_apply_spec(st, st, ctx, item, ts, acts),
{
    let n = item_payloads(item).len();
    let ts = Seq::new(n, |k: int| vstd::pervasive::arbitrary::<Result<Response, SDKError>>());
    lemma_all_finished(st, item_payloads(item), ts, ctx.rate_limit);
    assert(actions_view(acts) =~= Seq::<StreamActionView>::empty());
    assert(gemini_apply_spec(st, st, ctx, item, ts, acts));
}

proof fn lemma_all_finished(
    st: GeminiStreamView,
    ps: Seq<Json>,
    ts: Seq<Result<Response, SDKError>>,
    rate_limit: Option<crate::request::RateLimitInfo>,
)
    requires
        st.finished,
        ts.len() == ps.len(),
    ensures
        gemini_payloads_step(st, ps, ts).0 == st,
        translations_ok(st, ps, ts, rate_limit),
    decreases ps.len(),
{
    if ps.len() > 0 {
        lemma_all_finished(st, ps.drop_last(), ts.drop_last(), rate_limit);
    }
}

// ----- laws -----
proof fn lemma_tool_calls_step_covers(emitted: Seq<Seq<char>>, calls: Seq<ToolCallView>, raw: Option<JsonView>)
    ensures
        forall|k: Seq<char>| emitted.contains(k) ==> #[trigger] tool_calls_step(emitted, calls, raw).0.contains(k),
        forall|i: int| 0 <= i < calls.len() ==> tool_calls_step(emitted, calls, raw).0.contains(call_signature(#[trigger] calls[i])),
    decreases calls.len(),
{
    if calls.len() > 0 {
        lemma_tool_calls_step_covers(emitted, calls.drop_last(), raw);
        let (e, acts) = tool_calls_step(emitted, calls.drop_last(), raw);
        let c = calls.last();
        let e2 = tool_calls_step(emitted, calls, raw).0;
        assert forall|k: Seq<char>| e.contains(k) implies e2.contains(k) by {
            if !e.contains(call_signature(c)) {
                let j = choose|j: int| 0 <= j < e.len() && e[j] == k;
                assert(e.push(call_signature(c))[j] == k);
            }
        }
        assert forall|i: int| 0 <= i < calls.len() implies e2.contains(call_signature(#[trigger] calls[i])) by {
            if i < calls.len() - 1 {
                assert(calls[i] == calls.drop_last()[i]);
                assert(e.contains(call_signature(calls.drop_last()[i])));
            } else if !e.contains(call_signature(c)) {
                assert(e.push(call_signature(c))[e.len() as int] == call_signature(c));
            }
        }
    }
}

proof fn lemma_tool_calls_step_known(emitted: Seq<Seq<char>>, calls: Seq<ToolCallView>, raw: Option<JsonView>)
    requires
        forall|i: int| 0 <= i < calls.len() ==> emitted.contains(call_signature(#[trigger] calls[i])),
    ensures
        tool_calls_step(emitted, calls, raw) == (emitted, Seq::<StreamActionView>::empty()),
    decreases calls.len(),
{
    if calls.len() > 0 {
        assert forall|i: int| 0 <= i < calls.drop_last().len() implies emitted.contains(
            call_signature(#[trigger] calls.drop_last()[i]),
        ) by {
            assert(calls.drop_last()[i] == calls[i]);
        }
        lemma_tool_calls_step_known(emitted, calls.drop_last(), raw);
        assert(emitted.contains(call_signature(calls[calls.len() - 1])));
    }
}

/// Each tool call is emitted once: the same calls again emit nothing and
/// leave the emitted signatures as they are.
pub proof fn lemma_tool_calls_emitted_once(emitted: Seq<Seq<char>>, calls: Seq<ToolCallView>, raw: Option<JsonView>)
    ensures
        ({
            let e = tool_calls_step(emitted, calls, raw).0;
            tool_calls_step(e, calls, raw) == (e, Seq::<StreamActionView>::empty())
        }),
{
    lemma_tool_calls_step_covers(emitted, calls, raw);
    lemma_tool_calls_step_known(tool_calls_step(emitted, calls, raw).0, calls, raw);
}

/// Once a stream has ended, its reader asks nothing more and stays as it
/// is, whatever the translations.
pub proof fn lemma_gemini_finished_stays(
    st: GeminiStreamView,
    ctx: StreamContext,
    item: Result<ProviderStreamRecord, SDKError>,
    ts: Seq<Result<Response, SDKError>>,
)
    requires
        st.finished,
    ensures
        gemini_stream_step(st, ctx, item, ts) == (st, Seq::<StreamActionView>::empty()),
{
}

} // verus!
