//! What the native provider adapters (OpenAI Responses, Anthropic Messages,
//! Gemini) and the OpenAI-compatible adapter decide on their own: endpoint
//! URLs, finish reasons, provider checks and small wire details.
use vstd::prelude::*;
use vstd::string::StringSliceAdditionalSpecFns;
use crate::errors::{SDKError, SDKErrorKind, SDKErrorView, default_retryable_spec};
use crate::json::{Json, JsonView, copy_json, get, json_get, jv, jv_items, lemma_jv_items_index};
use crate::request::{FinishReason, FinishReasonKind, MessageRole, RateLimitInfo, role_name};
use crate::text::{
    ascii_lower, ascii_upper, chars_of, concat2, concat3, debug_quoted, debug_text, is_ws, opt_seq, owned, starts_with, str_eq, str_starts_with, to_ascii_lowercase, to_ascii_uppercase, trim, trim_lower, trim_seq, trim_start_seq,
};
use crate::url::{
    append_path_segment, append_path_segment_spec, percent_encode_bytes, percent_encode_path_segment, texts_view,
};

verus! {

pub const OPENAI_DEFAULT_BASE_URL: &'static str = "https://api.openai.com";

pub const ANTHROPIC_DEFAULT_BASE_URL: &'static str = "https://api.anthropic.com";

pub const GEMINI_DEFAULT_BASE_URL: &'static str = "https://generativelanguage.googleapis.com";

pub const DEFAULT_COMPATIBLE_BASE_URL: &'static str = "https://api.openai.com";

// ----- small text helpers -----
pub open spec fn opt_str_view(o: Option<&str>) -> Option<Seq<char>> {
    match o {
        Some(s) => Some(s@),
        None => None,
    }
}

/// The trimmed text, when there is a text and it is not blank.
pub open spec fn non_empty_opt(o: Option<Seq<char>>) -> Option<Seq<char>> {
    match o {
        Some(s) => if trim_seq(s).len() > 0 {
            Some(trim_seq(s))
        } else {
            None
        },
        None => None,
    }
}

/// The trimmed text, when there is a text and it is not blank.
pub fn non_empty_opt_str(value: Option<&str>) -> (r: Option<String>)
    ensures
        opt_seq(r) == non_empty_opt(opt_str_view(value)),
{
    match value {
        Some(v) => {
            let t = trim(v);
            if t.unicode_len() > 0 {
                Some(t)
            } else {
                None
            }
        },
        None => None,
    }
}

/// The model a thinking part came from: the model's name, trimmed, unless blank.
pub fn source_model(model: &str) -> (r: Option<String>)
    ensures
        opt_seq(r) == non_empty_opt(Some(model@)),
{
    non_empty_opt_str(Some(model))
}

/// How providers are named internally: trimmed and ASCII-lowercased.
pub fn normalize_provider_name(provider: &str) -> (r: String)
    ensures
        r@ == ascii_lower(trim_seq(provider@)),
{
    trim_lower(provider)
}

/// The wire name of a role.
pub fn role_wire_value(role: MessageRole) -> (r: &'static str)
    ensures
        r@ == role_name(role),
{
    role.as_str()
}

/// Whether a stream chunk starts a JSON document (after leading whitespace).
pub open spec fn looks_like_json_spec(chunk: Seq<char>) -> bool {
    let t = trim_start_seq(chunk);
    t.len() > 0 && (t[0] == '{' || t[0] == '[')
}

/// Whether a stream chunk starts a JSON document rather than server-sent events.
pub fn looks_like_json_stream(chunk: &str) -> (r: bool)
    ensures
        r == looks_like_json_spec(chunk@),
{
    let v = chars_of(chunk);
    let mut i: usize = 0;
    while i < v.len() && crate::text::char_is_ws(v[i])
        invariant
            i <= v@.len(),
            forall|k: int| 0 <= k < i ==> is_ws(#[trigger] v@[k]),
        decreases v@.len() - i,
    {
        i = i + 1;
    }
    proof {
        crate::text::lemma_leading_ws(v@, i as int);
        if i < v@.len() {
            assert(trim_start_seq(v@)[0] == v@[i as int]);
        }
    }
    i < v.len() && (v[i] == '{' || v[i] == '[')
}

// ----- finish reasons -----
/// The kind an Anthropic stop reason (trimmed, lowercased) stands for.
pub open spec fn anthropic_kind(reason: Seq<char>, has_tool_calls: bool) -> FinishReasonKind {
    if reason == "end_turn"@ || reason == "stop_sequence"@ {
        FinishReasonKind::Stop
    } else if reason == "max_tokens"@ {
        FinishReasonKind::Length
    } else if reason == "tool_use"@ {
        FinishReasonKind::ToolCalls
    } else if reason == "content_filter"@ || reason == "safety"@ || reason == "refusal"@ {
        FinishReasonKind::ContentFilter
    } else if reason == "error"@ || reason == "failed"@ || reason == "cancelled"@ || reason == "canceled"@ {
        FinishReasonKind::Error
    } else if has_tool_calls {
        FinishReasonKind::ToolCalls
    } else {
        FinishReasonKind::Other
    }
}

/// The finish reason of an Anthropic message.
pub fn anthropic_finish_reason(stop_reason: Option<String>, has_tool_calls: bool) -> (r: FinishReason)
    ensures
        match stop_reason {
            None => r.reason == (if has_tool_calls {
                FinishReasonKind::ToolCalls
            } else {
                FinishReasonKind::Other
            }) && r.raw is None,
            Some(raw) => r.reason == anthropic_kind(ascii_lower(trim_seq(raw@)), has_tool_calls) && opt_seq(
                r.raw,
            ) == Some(raw@),
        },
{
    let raw = match stop_reason {
        None => {
            return if has_tool_calls {
                FinishReason::of_kind(FinishReasonKind::ToolCalls)
            } else {
                FinishReason::of_kind(FinishReasonKind::Other)
            };
        },
        Some(raw) => raw,
    };
    let k = trim_lower(raw.as_str());
    let s = k.as_str();
    let reason = if str_eq(s, "end_turn") || str_eq(s, "stop_sequence") {
        FinishReasonKind::Stop
    } else if str_eq(s, "max_tokens") {
        FinishReasonKind::Length
    } else if str_eq(s, "tool_use") {
        FinishReasonKind::ToolCalls
    } else if str_eq(s, "content_filter") || str_eq(s, "safety") || str_eq(s, "refusal") {
        FinishReasonKind::ContentFilter
    } else if str_eq(s, "error") || str_eq(s, "failed") || str_eq(s, "cancelled") || str_eq(s, "canceled") {
        FinishReasonKind::Error
    } else if has_tool_calls {
        FinishReasonKind::ToolCalls
    } else {
        FinishReasonKind::Other
    };
    FinishReason::from_provider(reason, raw)
}

/// The kind a Gemini finish reason (trimmed, uppercased) stands for.
pub open spec fn gemini_kind(reason: Seq<char>, has_tool_calls: bool) -> FinishReasonKind {
    if reason == "STOP"@ {
        if has_tool_calls {
            FinishReasonKind::ToolCalls
        } else {
            FinishReasonKind::Stop
        }
    } else if reason == "MAX_TOKENS"@ {
        FinishReasonKind::Length
    } else if reason == "SAFETY"@ || reason == "RECITATION"@ || reason == "BLOCKLIST"@ || reason
        == "PROHIBITED_CONTENT"@ || reason == "SPII"@ {
        FinishReasonKind::ContentFilter
    } else if reason == "MALFORMED_FUNCTION_CALL"@ {
        FinishReasonKind::Error
    } else if has_tool_calls {
        FinishReasonKind::ToolCalls
    } else {
        FinishReasonKind::Other
    }
}

/// The finish reason of a Gemini candidate.
pub fn gemini_finish_reason(raw: &str, has_tool_calls: bool) -> (r: FinishReason)
    ensures
        r.reason == gemini_kind(ascii_upper(trim_seq(raw@)), has_tool_calls),
        opt_seq(r.raw) == Some(raw@),
{
    let t = trim(raw);
    let k = to_ascii_uppercase(t.as_str());
    let s = k.as_str();
    let reason = if str_eq(s, "STOP") {
        if has_tool_calls {
            FinishReasonKind::ToolCalls
        } else {
            FinishReasonKind::Stop
        }
    } else if str_eq(s, "MAX_TOKENS") {
        FinishReasonKind::Length
    } else if str_eq(s, "SAFETY") || str_eq(s, "RECITATION") || str_eq(s, "BLOCKLIST") || str_eq(
        s,
        "PROHIBITED_CONTENT",
    ) || str_eq(s, "SPII") {
        FinishReasonKind::ContentFilter
    } else if str_eq(s, "MALFORMED_FUNCTION_CALL") {
        FinishReasonKind::Error
    } else if has_tool_calls {
        FinishReasonKind::ToolCalls
    } else {
        FinishReasonKind::Other
    };
    FinishReason::from_provider(reason, owned(raw))
}

/// The kind an OpenAI Responses status or finish reason (trimmed,
/// lowercased) stands for.
pub open spec fn openai_kind(reason: Seq<char>) -> FinishReasonKind {
    if reason == "completed"@ || reason == "complete"@ || reason == "done"@ || reason == "success"@
        || reason == "succeeded"@ {
        FinishReasonKind::Stop
    } else if reason == "incomplete"@ || reason == "length"@ || reason == "max_tokens"@ || reason
        == "max_output_tokens"@ {
        FinishReasonKind::Length
    } else if reason == "tool_calls"@ || reason == "tool_use"@ {
        FinishReasonKind::ToolCalls
    } else if reason == "content_filter"@ || reason == "safety"@ || reason == "refusal"@ {
        FinishReasonKind::ContentFilter
    } else if reason == "error"@ || reason == "failed"@ || reason == "cancelled"@ || reason == "canceled"@ {
        FinishReasonKind::Error
    } else {
        FinishReasonKind::Other
    }
}

/// The kind of an OpenAI Responses status or finish reason.
pub fn openai_finish_reason_kind(raw: &str) -> (r: FinishReasonKind)
    ensures
        r == openai_kind(ascii_lower(trim_seq(raw@))),
{
    let k = trim_lower(raw);
    let s = k.as_str();
    if str_eq(s, "completed") || str_eq(s, "complete") || str_eq(s, "done") || str_eq(s, "success")
        || str_eq(s, "succeeded") {
        FinishReasonKind::Stop
    } else if str_eq(s, "incomplete") || str_eq(s, "length") || str_eq(s, "max_tokens") || str_eq(
        s,
        "max_output_tokens",
    ) {
        FinishReasonKind::Length
    } else if str_eq(s, "tool_calls") || str_eq(s, "tool_use") {
        FinishReasonKind::ToolCalls
    } else if str_eq(s, "content_filter") || str_eq(s, "safety") || str_eq(s, "refusal") {
        FinishReasonKind::ContentFilter
    } else if str_eq(s, "error") || str_eq(s, "failed") || str_eq(s, "cancelled") || str_eq(s, "canceled") {
        FinishReasonKind::Error
    } else {
        FinishReasonKind::Other
    }
}

// ----- endpoints -----
/// The base URL given, trimmed, or the default when none is given or it is blank.
pub open spec fn or_default(base_url: Option<Seq<char>>, default: Seq<char>) -> Seq<char> {
    match non_empty_opt(base_url) {
        Some(b) => b,
        None => default,
    }
}

fn base_or_default(base_url: Option<&str>, default: &str) -> (r: String)
    ensures
        r@ == or_default(opt_str_view(base_url), default@),
{
    match non_empty_opt_str(base_url) {
        Some(b) => b,
        None => owned(default),
    }
}

/// The OpenAI Responses base URL.
pub open spec fn openai_base_spec(base_url: Option<Seq<char>>) -> Seq<char> {
    crate::env::normalize_openai_base_url_spec(Some(or_default(base_url, OPENAI_DEFAULT_BASE_URL@)))
}

/// The Anthropic Messages base URL.
pub open spec fn anthropic_base_spec(base_url: Option<Seq<char>>) -> Seq<char> {
    crate::env::normalize_anthropic_base_url_spec(or_default(base_url, ANTHROPIC_DEFAULT_BASE_URL@))
}

/// The Gemini base URL.
pub open spec fn gemini_base_spec(base_url: Option<Seq<char>>) -> Seq<char> {
    crate::env::normalize_gemini_base_url_spec(Some(or_default(base_url, GEMINI_DEFAULT_BASE_URL@)))
}

/// The base URL of an OpenAI-compatible provider.
pub open spec fn compatible_base_spec(base_url: Option<Seq<char>>) -> Seq<char> {
    crate::env::normalize_openai_compatible_base_url_spec(
        Some(or_default(base_url, DEFAULT_COMPATIBLE_BASE_URL@)),
        DEFAULT_COMPATIBLE_BASE_URL@,
    )
}

/// The OpenAI base URL: the given one (or the default), ending in `/v1`
/// unless it ends in `/v1` or `/responses` already.
pub fn normalize_openai_base_url(base_url: Option<&str>) -> (r: String)
    ensures
        r@ == openai_base_spec(opt_str_view(base_url)),
{
    crate::env::normalize_openai_base_url(Some(base_or_default(base_url, OPENAI_DEFAULT_BASE_URL)))
}

/// The Anthropic base URL: without a `/messages` suffix, ending in `/v1`.
pub fn normalize_anthropic_base_url(base_url: Option<&str>) -> (r: String)
    ensures
        r@ == anthropic_base_spec(opt_str_view(base_url)),
{
    crate::env::normalize_anthropic_base_url(base_or_default(base_url, ANTHROPIC_DEFAULT_BASE_URL))
}

/// The Gemini base URL: without a generate-content suffix or model path,
/// ending in `/v1beta`.
pub fn normalize_gemini_base_url(base_url: Option<&str>) -> (r: String)
    ensures
        r@ == gemini_base_spec(opt_str_view(base_url)),
{
    crate::env::normalize_gemini_base_url(Some(base_or_default(base_url, GEMINI_DEFAULT_BASE_URL)))
}

/// The base URL of an OpenAI-compatible provider: without a chat-completions
/// or responses suffix, ending in `/v1`.
pub fn normalize_compatible_base_url(base_url: Option<&str>) -> (r: String)
    ensures
        r@ == compatible_base_spec(opt_str_view(base_url)),
{
    crate::env::normalize_openai_compatible_base_url(
        Some(base_or_default(base_url, DEFAULT_COMPATIBLE_BASE_URL)),
        DEFAULT_COMPATIBLE_BASE_URL,
    )
}

/// The OpenAI Responses endpoint.
pub fn openai_responses_url(base_url: Option<&str>) -> (r: String)
    ensures
        r@ == append_path_segment_spec(openai_base_spec(opt_str_view(base_url)), "responses"@, seq!["/responses"@]),
{
    let base = normalize_openai_base_url(base_url);
    let t = ["/responses"];
    assert(texts_view(t@) =~= seq!["/responses"@]);
    append_path_segment(base.as_str(), "responses", &t)
}

/// The Anthropic Messages endpoint.
pub fn anthropic_messages_url(base_url: Option<&str>) -> (r: String)
    ensures
        r@ == append_path_segment_spec(anthropic_base_spec(opt_str_view(base_url)), "messages"@, seq!["/messages"@]),
{
    let base = normalize_anthropic_base_url(base_url);
    let t = ["/messages"];
    assert(texts_view(t@) =~= seq!["/messages"@]);
    append_path_segment(base.as_str(), "messages", &t)
}

/// The chat-completions endpoint of an OpenAI-compatible provider.
pub fn chat_completions_url(base_url: Option<&str>) -> (r: String)
    ensures
        r@ == append_path_segment_spec(
            compatible_base_spec(opt_str_view(base_url)),
            "chat/completions"@,
            seq!["/chat/completions"@],
        ),
{
    let base = normalize_compatible_base_url(base_url);
    let t = ["/chat/completions"];
    assert(texts_view(t@) =~= seq!["/chat/completions"@]);
    append_path_segment(base.as_str(), "chat/completions", &t)
}

/// A Gemini model name without a leading `models/`, after trimming.
pub open spec fn gemini_model_name(model: Seq<char>) -> Seq<char> {
    let t = trim_seq(model);
    if starts_with(t, "models/"@) {
        t.subrange("models/"@.len() as int, t.len() as int)
    } else {
        t
    }
}

/// The path of a Gemini model method: `models/<model>:<method>`, the model
/// name percent-encoded.
pub open spec fn gemini_method_segment(model: Seq<char>, method: Seq<char>) -> Seq<char> {
    "models/"@ + percent_encode_bytes(vstd::utf8::encode_utf8(gemini_model_name(model)), false) + ":"@ + method
}

fn gemini_model(model: &str) -> (r: String)
    ensures
        r@ == gemini_model_name(model@),
{
    let t = trim(model);
    if str_starts_with(t.as_str(), "models/") {
        let v = chars_of(t.as_str());
        let p = chars_of("models/");
        crate::text::string_from_range(&v, p.len(), v.len())
    } else {
        t
    }
}

fn gemini_method_url(base_url: Option<&str>, model: &str, method: &str) -> (r: String)
    ensures
        r@ == append_path_segment_spec(
            gemini_base_spec(opt_str_view(base_url)),
            gemini_method_segment(model@, method@),
            Seq::<Seq<char>>::empty(),
        ),
{
    let normalized = normalize_gemini_base_url(base_url);
    let name = gemini_model(model);
    let encoded = percent_encode_path_segment(name.as_str());
    let head = concat3("models/", encoded.as_str(), ":");
    let segment = concat2(head.as_str(), method);
    let none: [&str; 0] = [];
    assert(texts_view(none@) =~= Seq::<Seq<char>>::empty());
    append_path_segment(normalized.as_str(), segment.as_str(), &none)
}

/// The Gemini `generateContent` endpoint of a model.
pub fn gemini_generate_content_url(base_url: Option<&str>, model: &str) -> (r: String)
    ensures
        r@ == append_path_segment_spec(
            gemini_base_spec(opt_str_view(base_url)),
            gemini_method_segment(model@, "generateContent"@),
            Seq::<Seq<char>>::empty(),
        ),
{
    gemini_method_url(base_url, model, "generateContent")
}

/// The Gemini `streamGenerateContent` endpoint of a model.
pub fn gemini_stream_generate_content_url(base_url: Option<&str>, model: &str) -> (r: String)
    ensures
        r@ == append_path_segment_spec(
            gemini_base_spec(opt_str_view(base_url)),
            gemini_method_segment(model@, "streamGenerateContent"@),
            Seq::<Seq<char>>::empty(),
        ),
{
    gemini_method_url(base_url, model, "streamGenerateContent")
}

// ----- provider checks -----
/// A configuration error of a provider.
pub open spec fn provider_error_spec(kind: SDKErrorKind, provider: Seq<char>, message: Seq<char>) -> SDKErrorView {
    SDKErrorView {
        kind,
        message,
        provider: Some(provider),
        status_code: None,
        error_code: None,
        retryable: default_retryable_spec(kind),
        raw: None,
    }
}

pub open spec fn unit_error_view(r: Result<(), SDKError>) -> Result<(), SDKErrorView> {
    match r {
        Ok(()) => Ok(()),
        Err(e) => Err(e@),
    }
}

pub(crate) fn provider_error(kind: SDKErrorKind, provider: &str, message: String) -> (r: SDKError)
    ensures
        r@ == provider_error_spec(kind, provider@, message@),
{
    SDKError::provider(kind, message, Some(owned(provider)))
}

/// The providers with a native adapter.
pub open spec fn native_provider_check(provider: Seq<char>) -> Result<(), SDKErrorView> {
    if provider == "openai"@ || provider == "anthropic"@ || provider == "gemini"@ {
        Ok(())
    } else {
        Err(provider_error_spec(
            SDKErrorKind::Configuration,
            provider,
            "Unsupported native provider "@ + debug_text(provider),
        ))
    }
}

/// Only `openai`, `anthropic` and `gemini` have native adapters.
pub fn validate_native_provider(provider: &str) -> (r: Result<(), SDKError>)
    ensures
        unit_error_view(r) == native_provider_check(provider@),
{
    if str_eq(provider, "openai") || str_eq(provider, "anthropic") || str_eq(provider, "gemini") {
        return Ok(());
    }
    let quoted = debug_quoted(provider);
    Err(provider_error(SDKErrorKind::Configuration, provider, concat2("Unsupported native provider ", quoted.as_str())))
}

/// The providers the OpenAI-compatible adapter serves.
pub open spec fn compatible_provider_check(provider: Seq<char>) -> Result<(), SDKErrorView> {
    if provider == "openai_compatible"@ || provider == "openrouter"@ || provider == "litellm"@ {
        Ok(())
    } else {
        Err(provider_error_spec(
            SDKErrorKind::Configuration,
            provider,
            "Unsupported OpenAI-compatible provider "@ + debug_text(provider),
        ))
    }
}

/// Only `openai_compatible`, `openrouter` and `litellm` use the
/// OpenAI-compatible adapter.
pub fn validate_compatible_provider(provider: &str) -> (r: Result<(), SDKError>)
    ensures
        unit_error_view(r) == compatible_provider_check(provider@),
{
    if str_eq(provider, "openai_compatible") || str_eq(provider, "openrouter") || str_eq(provider, "litellm") {
        return Ok(());
    }
    let quoted = debug_quoted(provider);
    Err(provider_error(
        SDKErrorKind::Configuration,
        provider,
        concat2("Unsupported OpenAI-compatible provider ", quoted.as_str()),
    ))
}

// ----- digests -----
/// The 64-bit FNV-1a hash of some bytes.
pub open spec fn fnv1a(bytes: Seq<u8>) -> u64
    decreases bytes.len(),
{
    if bytes.len() == 0 {
        0xcbf29ce484222325u64
    } else {
        (fnv1a(bytes.drop_last()) ^ (bytes.last() as u64)).wrapping_mul(0x100000001b3u64)
    }
}

/// A lowercase hexadecimal digit.
pub open spec fn hex_lower(d: u64) -> char {
    if d < 10 {
        ((d + 48) as u8) as char
    } else {
        ((d + 87) as u8) as char
    }
}

/// The last `n` hexadecimal digits of `h`, most significant first.
pub open spec fn hex_digits(h: u64, n: nat) -> Seq<char>
    decreases n,
{
    if n == 0 {
        Seq::empty()
    } else {
        hex_digits(h / 16, (n - 1) as nat).push(hex_lower(h % 16))
    }
}

fn hex_digits_of(h: u64, n: usize) -> (r: Vec<char>)
    ensures
        r@ == hex_digits(h, n as nat),
    decreases n,
{
    if n == 0 {
        Vec::new()
    } else {
        let mut v = hex_digits_of(h / 16, n - 1);
        let d = h % 16;
        let c = if d < 10 {
            ((d + 48) as u8) as char
        } else {
            ((d + 87) as u8) as char
        };
        v.push(c);
        v
    }
}

/// A short stable digest of a text: its FNV-1a hash as 16 lowercase hex digits.
pub fn stable_digest(value: &str) -> (r: String)
    ensures
        r@ == hex_digits(fnv1a(value.spec_bytes()), 16),
{
    let bytes = value.as_bytes();
    let mut hash: u64 = 0xcbf29ce484222325;
    let mut i: usize = 0;
    while i < bytes.len()
        invariant
            i <= bytes@.len(),
            bytes@ == value.spec_bytes(),
            hash == fnv1a(bytes@.subrange(0, i as int)),
        decreases bytes@.len() - i,
    {
        proof {
            let t = bytes@.subrange(0, i + 1);
            assert(t.drop_last() =~= bytes@.subrange(0, i as int));
            assert(t.last() == bytes@[i as int]);
        }
        hash = hash ^ (bytes[i] as u64);
        hash = hash.wrapping_mul(0x100000001b3);
        i = i + 1;
    }
    assert(bytes@.subrange(0, bytes@.len() as int) =~= bytes@);
    let digits = hex_digits_of(hash, 16);
    crate::text::string_from_chars(&digits)
}

// ----- percent-decoding -----
pub open spec fn is_hex_byte(b: u8) -> bool {
    (48 <= b && b <= 57) || (65 <= b && b <= 70) || (97 <= b && b <= 102)
}

pub open spec fn hex_value(b: u8) -> int {
    if b <= 57 {
        b - 48
    } else if b <= 70 {
        b - 55
    } else {
        b - 87
    }
}

/// The byte a `%` escape stands for: two hex digits, or `+` and one (as
/// `u8::from_str_radix` reads them).
pub open spec fn escape_value(b1: u8, b2: u8) -> Option<u8> {
    if is_hex_byte(b1) && is_hex_byte(b2) {
        Some((hex_value(b1) * 16 + hex_value(b2)) as u8)
    } else if b1 == 43 && is_hex_byte(b2) {
        Some(hex_value(b2) as u8)
    } else {
        None
    }
}

/// The bytes a percent-encoded byte string stands for.
pub open spec fn percent_decode_bytes(b: Seq<u8>) -> Option<Seq<u8>>
    decreases b.len(),
{
    if b.len() == 0 {
        Some(Seq::empty())
    } else if b[0] == 37 {
        if b.len() < 3 {
            None
        } else {
            match escape_value(b[1], b[2]) {
                None => None,
                Some(v) => match percent_decode_bytes(b.subrange(3, b.len() as int)) {
                    None => None,
                    Some(rest) => Some(seq![v] + rest),
                },
            }
        }
    } else {
        match percent_decode_bytes(b.drop_first()) {
            None => None,
            Some(rest) => Some(seq![b[0]] + rest),
        }
    }
}

pub open spec fn prepend_bytes(acc: Seq<u8>, r: Option<Seq<u8>>) -> Option<Seq<u8>> {
    match r {
        None => None,
        Some(rest) => Some(acc + rest),
    }
}

/// Wraps `String::from_utf8`: the string whose bytes these are, when they
/// are valid UTF-8.
#[verifier::external_body]
fn string_from_utf8(bytes: Vec<u8>) -> (r: Option<String>)
    ensures
        r is Some <==> vstd::utf8::valid_utf8(bytes@),
        r matches Some(s) ==> vstd::utf8::encode_utf8(s@) == bytes@,
{
    String::from_utf8(bytes).ok()
}

fn hex_val_exec(b: u8) -> (r: u8)
    requires
        is_hex_byte(b),
    ensures
        r == hex_value(b),
{
    if b <= 57 {
        b - 48
    } else if b <= 70 {
        b - 55
    } else {
        b - 87
    }
}

fn escape_value_exec(b1: u8, b2: u8) -> (r: Option<u8>)
    ensures
        r == escape_value(b1, b2),
{
    let h1 = (48 <= b1 && b1 <= 57) || (65 <= b1 && b1 <= 70) || (97 <= b1 && b1 <= 102);
    let h2 = (48 <= b2 && b2 <= 57) || (65 <= b2 && b2 <= 70) || (97 <= b2 && b2 <= 102);
    if h1 && h2 {
        Some(hex_val_exec(b1) * 16 + hex_val_exec(b2))
    } else if b1 == 43 && h2 {
        Some(hex_val_exec(b2))
    } else {
        None
    }
}

/// Decodes `%XX` escapes: `None` when an escape is cut short or not hex, or
/// the bytes are not UTF-8.
pub fn percent_decode(value: &str) -> (r: Option<String>)
    ensures
        match r {
            Some(s) => percent_decode_bytes(value.spec_bytes()) == Some(vstd::utf8::encode_utf8(s@)),
            None => match percent_decode_bytes(value.spec_bytes()) {
                None => true,
                Some(b) => !vstd::utf8::valid_utf8(b),
            },
        },
{
    let bytes = value.as_bytes();
    let mut decoded: Vec<u8> = Vec::new();
    let mut index: usize = 0;
    assert(bytes@.subrange(0, bytes@.len() as int) =~= bytes@);
    while index < bytes.len()
        invariant
            index <= bytes@.len(),
            bytes@ == value.spec_bytes(),
            percent_decode_bytes(bytes@) == prepend_bytes(
                decoded@,
                percent_decode_bytes(bytes@.subrange(index as int, bytes@.len() as int)),
            ),
        decreases bytes@.len() - index,
    {
        let ghost rest = bytes@.subrange(index as int, bytes@.len() as int);
        let ghost before = decoded@;
        if bytes[index] == 37 {
            if bytes.len() - index <= 2 {
                return None;
            }
            match escape_value_exec(bytes[index + 1], bytes[index + 2]) {
                Some(v) => {
                    decoded.push(v);
                    proof {
                        assert(rest[1] == bytes@[index + 1] && rest[2] == bytes@[index + 2]);
                        assert(rest.subrange(3, rest.len() as int) =~= bytes@.subrange(index + 3, bytes@.len() as int));
                        match percent_decode_bytes(rest.subrange(3, rest.len() as int)) {
                            Some(t) => {
                                assert(before + (seq![v] + t) =~= decoded@ + t);
                            },
                            None => {},
                        }
                    }
                    index = index + 3;
                },
                None => {
                    assert(rest[1] == bytes@[index + 1] && rest[2] == bytes@[index + 2]);
                    return None;
                },
            }
        } else {
            decoded.push(bytes[index]);
            proof {
                assert(rest.drop_first() =~= bytes@.subrange(index + 1, bytes@.len() as int));
                match percent_decode_bytes(rest.drop_first()) {
                    Some(t) => {
                        assert(before + (seq![rest[0]] + t) =~= decoded@ + t);
                    },
                    None => {},
                }
            }
            index = index + 1;
        }
    }
    assert(decoded@ + Seq::<u8>::empty() =~= decoded@);
    string_from_utf8(decoded)
}

// ----- synthetic Gemini tool-call ids -----
/// The index of the last `c` in `s`.
pub open spec fn last_index_of(s: Seq<char>, c: char) -> Option<int>
    decreases s.len(),
{
    if s.len() == 0 {
        None
    } else if s.last() == c {
        Some(s.len() - 1)
    } else {
        last_index_of(s.drop_last(), c)
    }
}

/// `str::rsplit_once` with a character: the parts before and after the last `c`.
pub open spec fn rsplit_once_spec(s: Seq<char>, c: char) -> Option<(Seq<char>, Seq<char>)> {
    match last_index_of(s, c) {
        Some(i) => Some((s.subrange(0, i), s.subrange(i + 1, s.len() as int))),
        None => None,
    }
}

pub open spec fn is_hex_char(c: char) -> bool {
    ('0' <= c && c <= '9') || ('a' <= c && c <= 'f') || ('A' <= c && c <= 'F')
}

pub open spec fn all_hex(s: Seq<char>) -> bool {
    forall|i: int| 0 <= i < s.len() ==> is_hex_char(#[trigger] s[i])
}

/// A marker letter followed by at least one decimal digit (`p0`, `c12`).
pub open spec fn is_index_tag(s: Seq<char>, tag: char) -> bool {
    s.len() > 1 && s[0] == tag && crate::sse::all_digits(s.drop_first())
}

/// The encoded tool name inside a synthetic Gemini call id
/// `gemini_call_<name>_c<candidate>_p<part>_<hex digest>`.
pub open spec fn synthetic_encoded_name(id: Seq<char>) -> Option<Seq<char>> {
    if !starts_with(id, "gemini_call_"@) {
        None
    } else {
        let suffix = id.subrange("gemini_call_"@.len() as int, id.len() as int);
        match rsplit_once_spec(suffix, '_') {
            None => None,
            Some(a) => if a.1.len() == 0 || !all_hex(a.1) {
                None
            } else {
                match rsplit_once_spec(a.0, '_') {
                    None => None,
                    Some(b) => if !is_index_tag(b.1, 'p') {
                        None
                    } else {
                        match rsplit_once_spec(b.0, '_') {
                            None => None,
                            Some(c) => if !is_index_tag(c.1, 'c') {
                                None
                            } else {
                                Some(c.0)
                            },
                        }
                    },
                }
            },
        }
    }
}

fn rsplit_once_vec(v: &Vec<char>, c: char) -> (r: Option<(Vec<char>, Vec<char>)>)
    ensures
        match r {
            Some(p) => rsplit_once_spec(v@, c) == Some((p.0@, p.1@)),
            None => rsplit_once_spec(v@, c) is None,
        },
{
    let mut i: usize = v.len();
    assert(v@.subrange(0, v@.len() as int) =~= v@);
    while i > 0 && v[i - 1] != c
        invariant
            i <= v@.len(),
            last_index_of(v@, c) == last_index_of(v@.subrange(0, i as int), c),
        decreases i,
    {
        proof {
            let t = v@.subrange(0, i as int);
            assert(t.drop_last() =~= v@.subrange(0, i - 1));
        }
        i = i - 1;
    }
    assert(v@.subrange(0, v@.len() as int) =~= v@);
    if i == 0 {
        assert(v@.subrange(0, 0) =~= Seq::<char>::empty());
        return None;
    }
    proof {
        let t = v@.subrange(0, i as int);
        assert(t.last() == v@[i - 1]);
    }
    let n = v.len();
    Some((crate::url::subvec(v, 0, i - 1), crate::url::subvec(v, i, n)))
}

fn all_hex_vec(v: &Vec<char>) -> (r: bool)
    ensures
        r == all_hex(v@),
{
    let mut i: usize = 0;
    while i < v.len()
        invariant
            i <= v@.len(),
            forall|k: int| 0 <= k < i ==> is_hex_char(#[trigger] v@[k]),
        decreases v@.len() - i,
    {
        let c = v[i];
        if !(('0' <= c && c <= '9') || ('a' <= c && c <= 'f') || ('A' <= c && c <= 'F')) {
            assert(!is_hex_char(v@[i as int]));
            return false;
        }
        i = i + 1;
    }
    true
}

fn is_index_tag_vec(v: &Vec<char>, tag: char) -> (r: bool)
    ensures
        r == is_index_tag(v@, tag),
{
    if v.len() <= 1 || v[0] != tag {
        return false;
    }
    let mut i: usize = 1;
    while i < v.len()
        invariant
            1 <= i <= v@.len(),
            forall|k: int| 1 <= k < i ==> crate::sse::is_digit(#[trigger] v@[k]),
        decreases v@.len() - i,
    {
        let c = v[i];
        if !('0' <= c && c <= '9') {
            assert(!crate::sse::is_digit(v@.drop_first()[i - 1]));
            return false;
        }
        i = i + 1;
    }
    assert forall|k: int| 0 <= k < v@.drop_first().len() implies crate::sse::is_digit(#[trigger] v@.drop_first()[k]) by {
        assert(v@.drop_first()[k] == v@[k + 1]);
    }
    true
}

/// The tool name inside a synthetic Gemini call id, percent-decoded; `None`
/// when the id does not have that shape or the name is empty.
pub fn gemini_synthetic_tool_call_name(tool_call_id: &str) -> (r: Option<String>)
    ensures
        match r {
            Some(name) => synthetic_encoded_name(tool_call_id@) matches Some(enc) && name@.len() > 0
                && percent_decode_bytes(vstd::utf8::encode_utf8(enc)) == Some(vstd::utf8::encode_utf8(name@)),
            None => match synthetic_encoded_name(tool_call_id@) {
                None => true,
                Some(enc) => match percent_decode_bytes(vstd::utf8::encode_utf8(enc)) {
                    None => true,
                    Some(b) => !vstd::utf8::valid_utf8(b) || b.len() == 0,
                },
            },
        },
{
    if !str_starts_with(tool_call_id, "gemini_call_") {
        return None;
    }
    let v = chars_of(tool_call_id);
    let p = chars_of("gemini_call_");
    let suffix = crate::url::subvec(&v, p.len(), v.len());
    let (without_digest, digest) = match rsplit_once_vec(&suffix, '_') {
        Some(x) => x,
        None => return None,
    };
    if digest.len() == 0 || !all_hex_vec(&digest) {
        return None;
    }
    let (without_part, part) = match rsplit_once_vec(&without_digest, '_') {
        Some(x) => x,
        None => return None,
    };
    if !is_index_tag_vec(&part, 'p') {
        return None;
    }
    let (encoded_name, candidate) = match rsplit_once_vec(&without_part, '_') {
        Some(x) => x,
        None => return None,
    };
    if !is_index_tag_vec(&candidate, 'c') {
        return None;
    }
    let enc = crate::text::string_from_chars(&encoded_name);
    match percent_decode(enc.as_str()) {
        Some(name) => {
            if name.unicode_len() == 0 {
                proof {
                    assert(name@ =~= Seq::<char>::empty());
                    assert(vstd::utf8::encode_utf8(name@).len() == 0) by {
                        reveal_with_fuel(vstd::utf8::encode_utf8, 1);
                    }
                }
                None
            } else {
                Some(name)
            }
        },
        None => None,
    }
}

// ----- media types -----
/// Whether an image reference is a local path rather than a URL.
pub open spec fn is_local_media_path_spec(v: Seq<char>) -> bool {
    starts_with(v, "/"@) || starts_with(v, "./"@) || starts_with(v, "~"@)
}

/// Whether an image reference is a local path rather than a URL.
pub fn is_local_media_path(value: &str) -> (r: bool)
    ensures
        r == is_local_media_path_spec(value@),
{
    str_starts_with(value, "/") || str_starts_with(value, "./") || str_starts_with(value, "~")
}

/// The image media type of a file extension, ignoring ASCII case.
pub open spec fn media_type_of_extension(ext: Seq<char>) -> Option<Seq<char>> {
    let e = ascii_lower(ext);
    if e == "avif"@ {
        Some("image/avif"@)
    } else if e == "bmp"@ {
        Some("image/bmp"@)
    } else if e == "gif"@ {
        Some("image/gif"@)
    } else if e == "heic"@ {
        Some("image/heic"@)
    } else if e == "heif"@ {
        Some("image/heif"@)
    } else if e == "ico"@ {
        Some("image/x-icon"@)
    } else if e == "jpeg"@ || e == "jpg"@ {
        Some("image/jpeg"@)
    } else if e == "png"@ {
        Some("image/png"@)
    } else if e == "svg"@ {
        Some("image/svg+xml"@)
    } else if e == "tif"@ || e == "tiff"@ {
        Some("image/tiff"@)
    } else if e == "webp"@ {
        Some("image/webp"@)
    } else {
        None
    }
}

/// The image media type of a file extension, ignoring ASCII case.
pub fn image_media_type_from_extension(extension: &str) -> (r: Option<&'static str>)
    ensures
        opt_str_view(r) == media_type_of_extension(extension@),
{
    let lowered = to_ascii_lowercase(extension);
    let e = lowered.as_str();
    if str_eq(e, "avif") {
        Some("image/avif")
    } else if str_eq(e, "bmp") {
        Some("image/bmp")
    } else if str_eq(e, "gif") {
        Some("image/gif")
    } else if str_eq(e, "heic") {
        Some("image/heic")
    } else if str_eq(e, "heif") {
        Some("image/heif")
    } else if str_eq(e, "ico") {
        Some("image/x-icon")
    } else if str_eq(e, "jpeg") || str_eq(e, "jpg") {
        Some("image/jpeg")
    } else if str_eq(e, "png") {
        Some("image/png")
    } else if str_eq(e, "svg") {
        Some("image/svg+xml")
    } else if str_eq(e, "tif") || str_eq(e, "tiff") {
        Some("image/tiff")
    } else if str_eq(e, "webp") {
        Some("image/webp")
    } else {
        None
    }
}

/// The last component of a `/`-separated path (`Path::file_name`): empty
/// and `.` components do not count, and `..` or nothing at all has none.
pub open spec fn file_name_of(path: Seq<char>) -> Option<Seq<char>>
    decreases path.len(),
{
    match last_index_of(path, '/') {
        Some(i) => if 0 <= i < path.len() {
            let last = path.subrange(i + 1, path.len() as int);
            if last.len() == 0 || last == "."@ {
                file_name_of(path.subrange(0, i))
            } else if last == ".."@ {
                None
            } else {
                Some(last)
            }
        } else {
            None
        },
        None => if path.len() == 0 || path == "."@ || path == ".."@ {
            None
        } else {
            Some(path)
        },
    }
}

/// The extension of a file name (`Path::extension`): after the last `.`,
/// unless that `.` starts the name.
pub open spec fn extension_of(name: Seq<char>) -> Option<Seq<char>> {
    match last_index_of(name, '.') {
        Some(i) => if i == 0 {
            None
        } else {
            Some(name.subrange(i + 1, name.len() as int))
        },
        None => None,
    }
}

/// The media type an image path suggests: by its extension, PNG otherwise.
pub open spec fn path_media_type(path: Seq<char>) -> Seq<char> {
    match file_name_of(path) {
        Some(name) => match extension_of(name) {
            Some(ext) => match media_type_of_extension(ext) {
                Some(m) => m,
                None => "image/png"@,
            },
            None => "image/png"@,
        },
        None => "image/png"@,
    }
}

proof fn lemma_last_index_bound(s: Seq<char>, c: char)
    ensures
        last_index_of(s, c) matches Some(i) ==> 0 <= i < s.len() && s[i] == c,
    decreases s.len(),
{
    if s.len() > 0 && s.last() != c {
        lemma_last_index_bound(s.drop_last(), c);
    }
}

fn file_name_vec(path: &Vec<char>) -> (r: Option<Vec<char>>)
    ensures
        match r {
            Some(n) => file_name_of(path@) == Some(n@),
            None => file_name_of(path@) is None,
        },
    decreases path@.len(),
{
    let dot = chars_of(".");
    let dotdot = chars_of("..");
    match rsplit_once_vec(path, '/') {
        Some((head, last)) => {
            proof {
                lemma_last_index_bound(path@, '/');
            }
            if last.len() == 0 || crate::text::seq_eq(&last, &dot) {
                file_name_vec(&head)
            } else if crate::text::seq_eq(&last, &dotdot) {
                None
            } else {
                Some(last)
            }
        },
        None => {
            if path.len() == 0 || crate::text::seq_eq(path, &dot) || crate::text::seq_eq(path, &dotdot) {
                None
            } else {
                Some(crate::url::subvec(path, 0, path.len()))
            }
        },
    }
}

/// The media type an image path suggests: by its extension, PNG otherwise.
pub fn infer_image_media_type(path: &str) -> (r: String)
    ensures
        r@ == path_media_type(path@),
{
    let v = chars_of(path);
    proof {
        assert(v@.subrange(0, v@.len() as int) =~= v@);
    }
    let name = match file_name_vec(&v) {
        Some(n) => n,
        None => return owned("image/png"),
    };
    proof {
        lemma_last_index_bound(name@, '.');
    }
    let ext = match rsplit_once_vec(&name, '.') {
        Some((head, ext)) => {
            if head.len() == 0 {
                return owned("image/png");
            }
            ext
        },
        None => return owned("image/png"),
    };
    let ext_text = crate::text::string_from_chars(&ext);
    match image_media_type_from_extension(ext_text.as_str()) {
        Some(m) => owned(m),
        None => owned("image/png"),
    }
}

/// The text before the first `c` (all of it when there is none).
pub open spec fn before_char(s: Seq<char>, c: char) -> Seq<char> {
    match crate::text::find_char_spec(s, c) {
        Some(i) => s.subrange(0, i),
        None => s,
    }
}

/// The media type an image reference suggests, ignoring its query and fragment.
pub fn infer_image_media_type_from_value(value: &str) -> (r: String)
    ensures
        r@ == path_media_type(before_char(before_char(value@, '?'), '#')),
{
    let v = chars_of(value);
    proof {
        crate::text::lemma_find_char(v@, '?');
    }
    let q = match crate::text::find_char_vec(&v, '?') {
        Some(i) => crate::url::subvec(&v, 0, i),
        None => crate::url::subvec(&v, 0, v.len()),
    };
    assert(v@.subrange(0, v@.len() as int) =~= v@);
    proof {
        crate::text::lemma_find_char(q@, '#');
    }
    let f = match crate::text::find_char_vec(&q, '#') {
        Some(j) => crate::url::subvec(&q, 0, j),
        None => crate::url::subvec(&q, 0, q.len()),
    };
    assert(q@.subrange(0, q@.len() as int) =~= q@);
    let t = crate::text::string_from_chars(&f);
    infer_image_media_type(t.as_str())
}

// ----- headers -----
/// The first key equal to `name` ignoring ASCII case.
pub open spec fn first_key_match(keys: Seq<Seq<char>>, name: Seq<char>) -> Option<int>
    decreases keys.len(),
{
    if keys.len() == 0 {
        None
    } else if crate::text::eq_ignore_case(keys[0], name) {
        Some(0)
    } else {
        match first_key_match(keys.drop_first(), name) {
            Some(i) => Some(i + 1),
            None => None,
        }
    }
}

/// The value of the first of `names` that some header has (ignoring ASCII
/// case, headers in key order), trimmed; `None` when that value is blank.
pub open spec fn header_value_spec(keys: Seq<Seq<char>>, values: Seq<String>, names: Seq<Seq<char>>) -> Option<Seq<char>>
    decreases names.len(),
{
    if names.len() == 0 {
        None
    } else {
        match first_key_match(keys, names[0]) {
            Some(i) => non_empty_opt(Some(values[i]@)),
            None => header_value_spec(keys, values, names.drop_first()),
        }
    }
}

proof fn lemma_first_key_match(keys: Seq<Seq<char>>, name: Seq<char>)
    ensures
        match first_key_match(keys, name) {
            Some(i) => 0 <= i < keys.len() && crate::text::eq_ignore_case(keys[i], name) && forall|j: int|
                0 <= j < i ==> !crate::text::eq_ignore_case(#[trigger] keys[j], name),
            None => forall|j: int| 0 <= j < keys.len() ==> !crate::text::eq_ignore_case(#[trigger] keys[j], name),
        },
    decreases keys.len(),
{
    if keys.len() > 0 && !crate::text::eq_ignore_case(keys[0], name) {
        lemma_first_key_match(keys.drop_first(), name);
        assert forall|j: int| 1 <= j < keys.len() implies keys[j] == keys.drop_first()[j - 1] by {}
    }
}

fn first_key_match_exec(headers: &crate::textmap::TextMap<String>, name: &str) -> (r: Option<usize>)
    ensures
        match r {
            Some(i) => first_key_match(headers.key_seq(), name@) == Some(i as int) && i < headers.key_seq().len(),
            None => first_key_match(headers.key_seq(), name@) is None,
        },
{
    proof {
        lemma_first_key_match(headers.key_seq(), name@);
    }
    let n = headers.len();
    let mut i: usize = 0;
    while i < n
        invariant
            i <= n == headers.key_seq().len(),
            forall|j: int| 0 <= j < i ==> !crate::text::eq_ignore_case(#[trigger] headers.key_seq()[j], name@),
            match first_key_match(headers.key_seq(), name@) {
                Some(w) => 0 <= w < n && crate::text::eq_ignore_case(headers.key_seq()[w], name@) && forall|j: int|
                    0 <= j < w ==> !crate::text::eq_ignore_case(#[trigger] headers.key_seq()[j], name@),
                None => forall|j: int| 0 <= j < n ==> !crate::text::eq_ignore_case(#[trigger] headers.key_seq()[j], name@),
            },
        decreases n - i,
    {
        if crate::text::eq_ignore_ascii_case(headers.key_at(i).as_str(), name) {
            proof {
                match first_key_match(headers.key_seq(), name@) {
                    Some(w) => {
                        if w > i {
                            assert(!crate::text::eq_ignore_case(headers.key_seq()[i as int], name@));
                        }
                    },
                    None => {
                        assert(!crate::text::eq_ignore_case(headers.key_seq()[i as int], name@));
                    },
                }
            }
            return Some(i);
        }
        i = i + 1;
    }
    proof {
        match first_key_match(headers.key_seq(), name@) {
            Some(w) => {
                assert(!crate::text::eq_ignore_case(headers.key_seq()[w], name@));
            },
            None => {},
        }
    }
    None
}

/// The value of the first of `names` that some header has, trimmed; `None`
/// when that value is blank or no header has any of the names.
pub fn header_value(headers: &crate::textmap::TextMap<String>, names: &[&str]) -> (r: Option<String>)
    ensures
        opt_seq(r) == header_value_spec(headers.key_seq(), headers.value_seq(), texts_view(names@)),
{
    let ghost ns = texts_view(names@);
    let mut i: usize = 0;
    assert(ns.subrange(0, ns.len() as int) =~= ns);
    while i < names.len()
        invariant
            i <= names@.len(),
            ns == texts_view(names@),
            header_value_spec(headers.key_seq(), headers.value_seq(), ns) == header_value_spec(
                headers.key_seq(),
                headers.value_seq(),
                ns.subrange(i as int, ns.len() as int),
            ),
        decreases names@.len() - i,
    {
        let ghost rest = ns.subrange(i as int, ns.len() as int);
        assert(rest[0] == names@[i as int]@);
        assert(rest.drop_first() =~= ns.subrange(i + 1, ns.len() as int));
        match first_key_match_exec(headers, names[i]) {
            Some(k) => {
                let v = headers.value_at(k);
                return non_empty_opt_str(Some(v.as_str()));
            },
            None => {},
        }
        i = i + 1;
    }
    None
}

/// `header_value`, as an owned string.
pub fn header_string(headers: &crate::textmap::TextMap<String>, names: &[&str]) -> (r: Option<String>)
    ensures
        opt_seq(r) == header_value_spec(headers.key_seq(), headers.value_seq(), texts_view(names@)),
{
    header_value(headers, names)
}

/// Removes every header named `header`, ignoring ASCII case.
pub fn remove_header_case_insensitive(headers: &mut crate::textmap::TextMap<String>, header: &str)
    ensures
        forall|k: Seq<char>| #[trigger] final(headers).lookup(k) == if crate::text::eq_ignore_case(k, header@) {
            None
        } else {
            old(headers).lookup(k)
        },
{
    let n = headers.len();
    let mut matching: Vec<String> = Vec::new();
    let mut i: usize = 0;
    while i < n
        invariant
            i <= n == headers.key_seq().len(),
            forall|j: int| 0 <= j < matching@.len() ==> crate::text::eq_ignore_case(#[trigger] matching@[j]@, header@),
            forall|j: int| 0 <= j < i && crate::text::eq_ignore_case(headers.key_seq()[j], header@) ==> exists|m: int|
                0 <= m < matching@.len() && #[trigger] matching@[m]@ == headers.key_seq()[j],
        decreases n - i,
    {
        let k = headers.key_at(i);
        if crate::text::eq_ignore_ascii_case(k.as_str(), header) {
            let ghost before = matching@;
            matching.push(k.clone());
            assert(matching@[before.len() as int]@ == headers.key_seq()[i as int]);
            assert forall|j: int| 0 <= j < i && crate::text::eq_ignore_case(headers.key_seq()[j], header@) implies exists|m: int|
                0 <= m < matching@.len() && #[trigger] matching@[m]@ == headers.key_seq()[j] by {
                let m = choose|m: int| 0 <= m < before.len() && #[trigger] before[m]@ == headers.key_seq()[j];
                assert(matching@[m] == before[m]);
            }
        }
        i = i + 1;
    }
    let ghost old_headers = *headers;
    proof {
        assert forall|k: Seq<char>| crate::text::eq_ignore_case(k, header@) && old_headers.lookup(k) is Some implies exists|m: int|
            0 <= m < matching@.len() && #[trigger] matching@[m]@ == k by {
            old_headers.lemma_lookup_some_key(k);
        }
    }
    let mut j: usize = 0;
    while j < matching.len()
        invariant
            j <= matching@.len(),
            forall|m: int| 0 <= m < matching@.len() ==> crate::text::eq_ignore_case(#[trigger] matching@[m]@, header@),
            forall|k: Seq<char>| crate::text::eq_ignore_case(k, header@) && old_headers.lookup(k) is Some ==> exists|m: int|
                0 <= m < matching@.len() && #[trigger] matching@[m]@ == k,
            forall|k: Seq<char>| #[trigger] headers.lookup(k) == if exists|m: int| 0 <= m < j && #[trigger] matching@[m]@ == k {
                None
            } else {
                old_headers.lookup(k)
            },
        decreases matching@.len() - j,
    {
        let ghost before = *headers;
        headers.remove(matching[j].as_str());
        proof {
            assert forall|k: Seq<char>| #[trigger] headers.lookup(k) == if exists|m: int| 0 <= m < j + 1 && #[trigger] matching@[m]@ == k {
                None
            } else {
                old_headers.lookup(k)
            } by {
                if k == matching@[j as int]@ {
                    assert(exists|m: int| 0 <= m < j + 1 && #[trigger] matching@[m]@ == k);
                } else if exists|m: int| 0 <= m < j && #[trigger] matching@[m]@ == k {
                    let m = choose|m: int| 0 <= m < j && #[trigger] matching@[m]@ == k;
                    assert(0 <= m < j + 1 && matching@[m]@ == k);
                } else {
                    assert forall|m: int| 0 <= m < j + 1 implies #[trigger] matching@[m]@ != k by {
                        if m < j {
                        } else {
                        }
                    }
                }
            }
        }
        j = j + 1;
    }
    proof {
        assert forall|k: Seq<char>| #[trigger] headers.lookup(k) == if crate::text::eq_ignore_case(k, header@) {
            None
        } else {
            old_headers.lookup(k)
        } by {
            if crate::text::eq_ignore_case(k, header@) {
                if old_headers.lookup(k) is Some {
                    let m = choose|m: int| 0 <= m < matching@.len() && #[trigger] matching@[m]@ == k;
                    assert(exists|m: int| 0 <= m < matching@.len() && #[trigger] matching@[m]@ == k);
                }
            } else {
                if exists|m: int| 0 <= m < matching@.len() && #[trigger] matching@[m]@ == k {
                    let m = choose|m: int| 0 <= m < matching@.len() && #[trigger] matching@[m]@ == k;
                    assert(crate::text::eq_ignore_case(matching@[m]@, header@));
                }
            }
        }
    }
}

/// Replaces any authorization header with a bearer token, when a non-blank
/// key is given; with no key, only removes it.
pub fn apply_bearer_auth(headers: &mut crate::textmap::TextMap<String>, api_key: Option<&str>)
    ensures
        forall|k: Seq<char>| #[trigger] opt_seq(final(headers).lookup(k)) == if k == "Authorization"@
            && non_empty_opt(opt_str_view(api_key)) is Some {
            Some("Bearer "@ + non_empty_opt(opt_str_view(api_key))->0)
        } else if crate::text::eq_ignore_case(k, "authorization"@) {
            None
        } else {
            opt_seq(old(headers).lookup(k))
        },
{
    remove_header_case_insensitive(headers, "authorization");
    if let Some(key) = non_empty_opt_str(api_key) {
        headers.insert(owned("Authorization"), concat2("Bearer ", key.as_str()));
    }
}

// ----- request checks shared by the native adapters -----
/// Whether thinking content may be sent back to `provider`: content that
/// names its source must come from `provider`; content without a source may
/// carry neither a signature nor a redacted payload.
pub open spec fn thinking_source_check(
    provider: Seq<char>,
    source_provider: Option<Seq<char>>,
    signature: Option<Seq<char>>,
    redacted: bool,
    content_kind: Seq<char>,
) -> Result<(), SDKErrorView> {
    match non_empty_opt(source_provider) {
        Some(source) => if ascii_lower(trim_seq(source)) != provider {
            Err(provider_error_spec(
                SDKErrorKind::InvalidRequest,
                provider,
                provider + " request history cannot include "@ + content_kind + " content from "@ + source
                    + "; provider thinking content is only valid for same-provider continuation"@,
            ))
        } else {
            Ok(())
        },
        None => if non_empty_opt(signature) is Some || redacted {
            Err(provider_error_spec(
                SDKErrorKind::InvalidRequest,
                provider,
                provider + " "@ + content_kind
                    + " content with a signature or redacted payload requires source_provider provenance for same-provider continuation"@,
            ))
        } else {
            Ok(())
        },
    }
}

fn as_opt_str(o: &Option<String>) -> (r: Option<&str>)
    ensures
        opt_str_view(r) == opt_seq(*o),
{
    match o {
        Some(s) => Some(s.as_str()),
        None => None,
    }
}

/// Checks that thinking content can be continued on `provider`.
pub fn validate_provider_thinking_source(
    provider: &str,
    thinking: &crate::request::ThinkingData,
    content_kind: &str,
) -> (r: Result<(), SDKError>)
    ensures
        unit_error_view(r) == thinking_source_check(
            provider@,
            opt_seq(thinking.source_provider),
            opt_seq(thinking.signature),
            thinking.redacted,
            content_kind@,
        ),
{
    if let Some(source) = non_empty_opt_str(as_opt_str(&thinking.source_provider)) {
        let normalized = normalize_provider_name(source.as_str());
        if !str_eq(normalized.as_str(), provider) {
            let a = concat3(provider, " request history cannot include ", content_kind);
            let b = concat3(a.as_str(), " content from ", source.as_str());
            let message = concat2(b.as_str(), "; provider thinking content is only valid for same-provider continuation");
            return Err(provider_error(SDKErrorKind::InvalidRequest, provider, message));
        }
        return Ok(());
    }
    let has_signature = non_empty_opt_str(as_opt_str(&thinking.signature)).is_some();
    if has_signature || thinking.redacted {
        let a = concat3(provider, " ", content_kind);
        let message = concat2(
            a.as_str(),
            " content with a signature or redacted payload requires source_provider provenance for same-provider continuation",
        );
        return Err(provider_error(SDKErrorKind::InvalidRequest, provider, message));
    }
    Ok(())
}

/// The kind of a tool choice, or the error a provider reports for it.
pub fn tool_choice_kind(
    value: &crate::tools::ToolChoice,
    provider: &str,
) -> (r: Result<crate::tools::ToolChoiceKind, SDKError>)
    ensures
        match r {
            Ok(k) => crate::tools::tool_choice_kind_spec(value.mode@, value.tool_name) == Ok::<
                crate::tools::ToolChoiceKindView,
                crate::tools::ParseErrorView,
            >(crate::tools::kind_view(k)),
            Err(e) => crate::tools::tool_choice_kind_spec(value.mode@, value.tool_name) matches Err(pe)
                && e@ == crate::tools::parse_error_to_adapter_spec(pe, provider@),
        },
{
    match value.kind() {
        Ok(k) => Ok(k),
        Err(e) => Err(e.into_adapter_error(provider)),
    }
}

/// The tool choice a request runs with: the one given, or `auto` when tools
/// are offered.
pub fn default_tool_choice(
    tool_choice: Option<crate::tools::ToolChoice>,
    has_tools: bool,
) -> (r: Option<crate::tools::ToolChoice>)
    ensures
        match tool_choice {
            Some(c) => r == Some(c),
            None => if has_tools {
                r matches Some(c) && c.mode@ == "auto"@ && c.tool_name is None
            } else {
                r is None
            },
        },
{
    match tool_choice {
        Some(c) => Some(c),
        None => if has_tools {
            Some(crate::tools::ToolChoice::auto())
        } else {
            None
        },
    }
}

/// A text kept as it is unless it is blank.
pub fn non_empty_owned(value: String) -> (r: Option<String>)
    ensures
        match r {
            Some(v) => v@ == value@ && trim_seq(value@).len() > 0,
            None => trim_seq(value@).len() == 0,
        },
{
    let t = trim(value.as_str());
    if t.unicode_len() == 0 {
        None
    } else {
        Some(value)
    }
}

/// The alias keys of a streamed OpenAI output item id: `item_id:<id>` and
/// `id:<id>`, the id trimmed; nothing for a blank id.
pub fn push_openai_stream_item_alias_keys(keys: &mut Vec<String>, value: Option<String>)
    ensures
        match non_empty_opt(opt_seq(value)) {
            Some(v) => crate::catalog::strings_view(final(keys)@) == crate::catalog::strings_view(old(keys)@).push(
                "item_id:"@ + v,
            ).push("id:"@ + v),
            None => final(keys)@ == old(keys)@,
        },
{
    let v = match &value {
        Some(v) => non_empty_opt_str(Some(v.as_str())),
        None => None,
    };
    if let Some(v) = v {
        let ghost before = keys@;
        keys.push(concat2("item_id:", v.as_str()));
        keys.push(concat2("id:", v.as_str()));
        assert(crate::catalog::strings_view(keys@) =~= crate::catalog::strings_view(before).push("item_id:"@ + v@).push(
            "id:"@ + v@,
        ));
    }
}

/// The alias key of a streamed OpenAI output index: `output_index:<index>`,
/// trimmed; nothing for a blank index.
pub fn push_openai_stream_output_index_alias_key(keys: &mut Vec<String>, value: Option<String>)
    ensures
        match non_empty_opt(opt_seq(value)) {
            Some(v) => crate::catalog::strings_view(final(keys)@) == crate::catalog::strings_view(old(keys)@).push(
                "output_index:"@ + v,
            ),
            None => final(keys)@ == old(keys)@,
        },
{
    let v = match &value {
        Some(v) => non_empty_opt_str(Some(v.as_str())),
        None => None,
    };
    if let Some(v) = v {
        let ghost before = keys@;
        keys.push(concat2("output_index:", v.as_str()));
        assert(crate::catalog::strings_view(keys@) =~= crate::catalog::strings_view(before).push("output_index:"@ + v@));
    }
}

// ----- stream payloads -----
/// What a stream's raw payloads amount to: nothing, the one payload, or all
/// of them as an array.
pub open spec fn stream_raw_spec(payloads: Seq<JsonView>) -> Option<JsonView> {
    if payloads.len() == 0 {
        None
    } else if payloads.len() == 1 {
        Some(payloads[0])
    } else {
        Some(JsonView::Array(payloads))
    }
}

/// What a stream's raw payloads amount to.
pub fn stream_raw_payload(payloads: &Vec<Json>) -> (r: Option<Json>)
    ensures
        match r {
            Some(v) => stream_raw_spec(jv_items(payloads@)) == Some(jv(v)),
            None => stream_raw_spec(jv_items(payloads@)) is None,
        },
{
    proof {
        lemma_jv_items_index(payloads@);
    }
    if payloads.len() == 0 {
        return None;
    }
    if payloads.len() == 1 {
        return Some(copy_json(&payloads[0]));
    }
    let mut items: Vec<Json> = Vec::new();
    let mut i: usize = 0;
    while i < payloads.len()
        invariant
            i <= payloads.len(),
            items@.len() == i,
            forall|j: int| 0 <= j < i ==> jv(#[trigger] items@[j]) == jv(payloads@[j]),
        decreases payloads.len() - i,
    {
        items.push(copy_json(&payloads[i]));
        i = i + 1;
    }
    proof {
        lemma_jv_items_index(items@);
        assert(jv_items(items@) =~= jv_items(payloads@));
    }
    Some(Json::Array(items))
}

/// The message of a stream error payload: the `message` text of its
/// `error` member (of the payload itself when it has none), else the
/// payload's own `message` text, else a fixed text.
pub open spec fn payload_error_message(payload: Json) -> Seq<char> {
    let error = match json_get(payload, "error"@) {
        Some(e) => e,
        None => payload,
    };
    match json_get(error, "message"@) {
        Some(Json::Str(m)) => m@,
        _ => match json_get(payload, "message"@) {
            Some(Json::Str(m)) => m@,
            _ => "provider stream error"@,
        },
    }
}

/// The stream error a provider's error payload stands for, carrying the
/// payload.
pub fn provider_payload_error(provider: &str, payload: &Json) -> (r: SDKError)
    ensures
        r@.kind == SDKErrorKind::Stream,
        r@.message == payload_error_message(*payload),
        r@.provider == Some(provider@),
        r@.status_code is None,
        r@.error_code is None,
        r@.retryable == default_retryable_spec(SDKErrorKind::Stream),
        r@.raw matches Some(x) && jv(x) == jv(*payload),
{
    let error = match get(payload, "error") {
        Some(e) => e,
        None => payload,
    };
    let own = match get(error, "message") {
        Some(Json::Str(m)) => Some(m.clone()),
        _ => None,
    };
    let message = match own {
        Some(m) => m,
        None => match get(payload, "message") {
            Some(Json::Str(m)) => m.clone(),
            _ => owned("provider stream error"),
        },
    };
    let mut e = SDKError::provider(SDKErrorKind::Stream, message, Some(owned(provider)));
    e.raw = Some(copy_json(payload));
    e
}

// ----- rate limits -----
/// The headers that report the requests left, in the order they are read.
pub const REQUESTS_REMAINING_HEADERS: [&'static str; 2] = ["x-ratelimit-remaining-requests", "anthropic-ratelimit-requests-remaining"];

/// The headers that report the request limit.
pub const REQUESTS_LIMIT_HEADERS: [&'static str; 2] = ["x-ratelimit-limit-requests", "anthropic-ratelimit-requests-limit"];

/// The headers that report the tokens left.
pub const TOKENS_REMAINING_HEADERS: [&'static str; 2] = ["x-ratelimit-remaining-tokens", "anthropic-ratelimit-tokens-remaining"];

/// The headers that report the token limit.
pub const TOKENS_LIMIT_HEADERS: [&'static str; 2] = ["x-ratelimit-limit-tokens", "anthropic-ratelimit-tokens-limit"];

/// The headers that report when the limits reset.
pub const RESET_HEADERS: [&'static str; 6] = [
    "x-ratelimit-reset",
    "x-ratelimit-reset-requests",
    "x-ratelimit-reset-tokens",
    "ratelimit-reset",
    "anthropic-ratelimit-requests-reset",
    "anthropic-ratelimit-tokens-reset",
];

/// The rate-limit figures a response reports: none when no figure is
/// known, else all of them as read.
pub fn rate_limit_info(
    requests_remaining: Option<u64>,
    requests_limit: Option<u64>,
    tokens_remaining: Option<u64>,
    tokens_limit: Option<u64>,
    reset_at: Option<String>,
) -> (r: Option<RateLimitInfo>)
    ensures
        (requests_remaining is None && requests_limit is None && tokens_remaining is None && tokens_limit is None
            && reset_at is None) ==> r is None,
        !(requests_remaining is None && requests_limit is None && tokens_remaining is None && tokens_limit is None
            && reset_at is None) ==> r == Some(
            RateLimitInfo { requests_remaining, requests_limit, tokens_remaining, tokens_limit, reset_at },
        ),
{
    if requests_remaining.is_none() && requests_limit.is_none() && tokens_remaining.is_none() && tokens_limit.is_none()
        && reset_at.is_none() {
        None
    } else {
        Some(RateLimitInfo { requests_remaining, requests_limit, tokens_remaining, tokens_limit, reset_at })
    }
}

/// Anthropic stop reasons, read after trimming and lower-casing, whatever
/// tool calls the message holds: `end_turn` and `stop_sequence` stop,
/// `max_tokens` is the length limit, `tool_use` is a tool-call finish.
pub proof fn lemma_anthropic_stop_reasons(raw: Seq<char>, has_tool_calls: bool)
    ensures
        ascii_lower(trim_seq(raw)) == "max_tokens"@ ==> anthropic_kind(ascii_lower(trim_seq(raw)), has_tool_calls)
            == FinishReasonKind::Length,
        ascii_lower(trim_seq(raw)) == "end_turn"@ ==> anthropic_kind(ascii_lower(trim_seq(raw)), has_tool_calls)
            == FinishReasonKind::Stop,
        ascii_lower(trim_seq(raw)) == "stop_sequence"@ ==> anthropic_kind(ascii_lower(trim_seq(raw)), has_tool_calls)
            == FinishReasonKind::Stop,
        ascii_lower(trim_seq(raw)) == "tool_use"@ ==> anthropic_kind(ascii_lower(trim_seq(raw)), has_tool_calls)
            == FinishReasonKind::ToolCalls,
{
    reveal_strlit("max_tokens");
    reveal_strlit("end_turn");
    reveal_strlit("stop_sequence");
    reveal_strlit("tool_use");
    assert(("max_tokens"@).len() != ("end_turn"@).len());
    assert(("max_tokens"@).len() != ("stop_sequence"@).len());
    assert(("tool_use"@)[0] != ("end_turn"@)[0]);
    assert(("tool_use"@).len() != ("stop_sequence"@).len());
    assert(("tool_use"@).len() != ("max_tokens"@).len());
}

/// Gemini finish reasons, read after trimming and upper-casing: `MAX_TOKENS`
/// is the length limit whatever tool calls the candidate holds, `SAFETY` a
/// content filter, and `STOP` a stop, or a tool-call finish when the
/// candidate calls tools.
pub proof fn lemma_gemini_finish_reasons(raw: Seq<char>, has_tool_calls: bool)
    ensures
        ascii_upper(trim_seq(raw)) == "MAX_TOKENS"@ ==> gemini_kind(ascii_upper(trim_seq(raw)), has_tool_calls)
            == FinishReasonKind::Length,
        ascii_upper(trim_seq(raw)) == "SAFETY"@ ==> gemini_kind(ascii_upper(trim_seq(raw)), has_tool_calls)
            == FinishReasonKind::ContentFilter,
        ascii_upper(trim_seq(raw)) == "STOP"@ ==> gemini_kind(ascii_upper(trim_seq(raw)), has_tool_calls) == (
        if has_tool_calls {
            FinishReasonKind::ToolCalls
        } else {
            FinishReasonKind::Stop
        }),
{
    reveal_strlit("MAX_TOKENS");
    reveal_strlit("SAFETY");
    reveal_strlit("STOP");
    assert(("MAX_TOKENS"@).len() != ("STOP"@).len());
    assert(("SAFETY"@).len() != ("STOP"@).len());
    assert(("SAFETY"@).len() != ("MAX_TOKENS"@).len());
}

/// OpenAI Responses statuses and reasons, read after trimming and
/// lower-casing: `completed` stops, `incomplete` and `max_output_tokens`
/// are the length limit, `failed` is an error.
pub proof fn lemma_openai_finish_words(raw: Seq<char>)
    ensures
        ascii_lower(trim_seq(raw)) == "completed"@ ==> openai_kind(ascii_lower(trim_seq(raw))) == FinishReasonKind::Stop,
        ascii_lower(trim_seq(raw)) == "incomplete"@ ==> openai_kind(ascii_lower(trim_seq(raw)))
            == FinishReasonKind::Length,
        ascii_lower(trim_seq(raw)) == "max_output_tokens"@ ==> openai_kind(ascii_lower(trim_seq(raw)))
            == FinishReasonKind::Length,
        ascii_lower(trim_seq(raw)) == "failed"@ ==> openai_kind(ascii_lower(trim_seq(raw))) == FinishReasonKind::Error,
{
    reveal_strlit("completed");
    reveal_strlit("complete");
    reveal_strlit("done");
    reveal_strlit("success");
    reveal_strlit("succeeded");
    reveal_strlit("incomplete");
    reveal_strlit("length");
    reveal_strlit("max_tokens");
    reveal_strlit("max_output_tokens");
    reveal_strlit("tool_calls");
    reveal_strlit("tool_use");
    reveal_strlit("content_filter");
    reveal_strlit("safety");
    reveal_strlit("refusal");
    reveal_strlit("failed");
    assert(("incomplete"@)[0] != ("completed"@)[0]);
    assert(("incomplete"@).len() != ("complete"@).len());
    assert(("incomplete"@)[0] != ("succeeded"@)[0]);
    assert(("max_output_tokens"@).len() != ("completed"@).len());
    assert(("max_output_tokens"@).len() != ("complete"@).len());
    assert(("max_output_tokens"@).len() != ("succeeded"@).len());
    assert(("max_output_tokens"@).len() != ("success"@).len());
    assert(("max_output_tokens"@).len() != ("done"@).len());
    assert(("failed"@).len() != ("completed"@).len());
    assert(("failed"@).len() != ("complete"@).len());
    assert(("failed"@).len() != ("succeeded"@).len());
    assert(("failed"@)[0] != ("safety"@)[0]);
    assert(("failed"@)[0] != ("length"@)[0]);
    assert(("failed"@)[0] != ("refusal"@)[0]);
    assert(("failed"@).len() != ("success"@).len());
    assert(("failed"@).len() != ("done"@).len());
    assert(("failed"@).len() != ("incomplete"@).len());
    assert(("failed"@).len() != ("max_tokens"@).len());
    assert(("failed"@).len() != ("tool_calls"@).len());
    assert(("failed"@).len() != ("tool_use"@).len());
    assert(("failed"@).len() != ("content_filter"@).len());
}

} // verus!
