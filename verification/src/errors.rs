//! The adapter's error kinds and the rules that classify provider failures
//! from HTTP status codes, gRPC codes and error messages.
use vstd::prelude::*;
use crate::json::{Json, member_get, members_get};
use crate::text::{
    ascii_upper, after_last, after_last_char, chars_of, contains_seq, contains_vec, is_ascii_alnum, lower_char, non_empty, non_empty_text, opt_seq, owned, str_eq, string_from_chars, to_ascii_uppercase, char_lower,
};

verus! {

/// The kinds of adapter error.
#[derive(Debug, Clone, Copy, PartialEq, Eq, Structural)]
pub enum SDKErrorKind {
    Provider,
    Authentication,
    AccessDenied,
    NotFound,
    InvalidRequest,
    RateLimit,
    Server,
    ContentFilter,
    ContextLength,
    QuotaExceeded,
    RequestTimeout,
    Abort,
    Network,
    Stream,
    InvalidToolCall,
    UnsupportedToolChoice,
    NoObjectGenerated,
    Configuration,
}

/// Kinds that are worth retrying by default.
pub open spec fn default_retryable_spec(kind: SDKErrorKind) -> bool {
    kind == SDKErrorKind::Provider || kind == SDKErrorKind::RateLimit || kind == SDKErrorKind::Server
        || kind == SDKErrorKind::Network || kind == SDKErrorKind::Stream
}

/// Kinds that describe a failure reported by a provider.
pub open spec fn is_provider_kind_spec(kind: SDKErrorKind) -> bool {
    match kind {
        SDKErrorKind::Provider | SDKErrorKind::Authentication | SDKErrorKind::AccessDenied
        | SDKErrorKind::NotFound | SDKErrorKind::InvalidRequest | SDKErrorKind::RateLimit
        | SDKErrorKind::Server | SDKErrorKind::ContentFilter | SDKErrorKind::ContextLength
        | SDKErrorKind::QuotaExceeded | SDKErrorKind::RequestTimeout => true,
        _ => false,
    }
}

impl SDKErrorKind {
    pub fn default_retryable(self) -> (r: bool)
        ensures
            r == default_retryable_spec(self),
    {
        match self {
            SDKErrorKind::Provider | SDKErrorKind::RateLimit | SDKErrorKind::Server
            | SDKErrorKind::Network | SDKErrorKind::Stream => true,
            _ => false,
        }
    }

    /// The error's name in the unified LLM specification.
    pub fn spec_error_name(self) -> (r: &'static str)
        ensures
            r@ == match self {
                SDKErrorKind::Provider => "ProviderError"@,
                SDKErrorKind::Authentication => "AuthenticationError"@,
                SDKErrorKind::AccessDenied => "AccessDeniedError"@,
                SDKErrorKind::NotFound => "NotFoundError"@,
                SDKErrorKind::InvalidRequest => "InvalidRequestError"@,
                SDKErrorKind::RateLimit => "RateLimitError"@,
                SDKErrorKind::Server => "ServerError"@,
                SDKErrorKind::ContentFilter => "ContentFilterError"@,
                SDKErrorKind::ContextLength => "ContextLengthError"@,
                SDKErrorKind::QuotaExceeded => "QuotaExceededError"@,
                SDKErrorKind::RequestTimeout => "RequestTimeoutError"@,
                SDKErrorKind::Abort => "AbortError"@,
                SDKErrorKind::Network => "NetworkError"@,
                SDKErrorKind::Stream => "StreamError"@,
                SDKErrorKind::InvalidToolCall => "InvalidToolCallError"@,
                SDKErrorKind::UnsupportedToolChoice => "UnsupportedToolChoiceError"@,
                SDKErrorKind::NoObjectGenerated => "NoObjectGeneratedError"@,
                SDKErrorKind::Configuration => "ConfigurationError"@,
            },
    {
        match self {
            SDKErrorKind::Provider => "ProviderError",
            SDKErrorKind::Authentication => "AuthenticationError",
            SDKErrorKind::AccessDenied => "AccessDeniedError",
            SDKErrorKind::NotFound => "NotFoundError",
            SDKErrorKind::InvalidRequest => "InvalidRequestError",
            SDKErrorKind::RateLimit => "RateLimitError",
            SDKErrorKind::Server => "ServerError",
            SDKErrorKind::ContentFilter => "ContentFilterError",
            SDKErrorKind::ContextLength => "ContextLengthError",
            SDKErrorKind::QuotaExceeded => "QuotaExceededError",
            SDKErrorKind::RequestTimeout => "RequestTimeoutError",
            SDKErrorKind::Abort => "AbortError",
            SDKErrorKind::Network => "NetworkError",
            SDKErrorKind::Stream => "StreamError",
            SDKErrorKind::InvalidToolCall => "InvalidToolCallError",
            SDKErrorKind::UnsupportedToolChoice => "UnsupportedToolChoiceError",
            SDKErrorKind::NoObjectGenerated => "NoObjectGeneratedError",
            SDKErrorKind::Configuration => "ConfigurationError",
        }
    }
}

pub fn is_provider_kind(kind: SDKErrorKind) -> (r: bool)
    ensures
        r == is_provider_kind_spec(kind),
{
    match kind {
        SDKErrorKind::Provider | SDKErrorKind::Authentication | SDKErrorKind::AccessDenied
        | SDKErrorKind::NotFound | SDKErrorKind::InvalidRequest | SDKErrorKind::RateLimit
        | SDKErrorKind::Server | SDKErrorKind::ContentFilter | SDKErrorKind::ContextLength
        | SDKErrorKind::QuotaExceeded | SDKErrorKind::RequestTimeout => true,
        _ => false,
    }
}

/// An adapter error. The number of seconds after which a retry may succeed,
/// when the provider says so, travels beside it in the application layer.
#[derive(Debug)]
pub struct SDKError {
    pub kind: SDKErrorKind,
    pub message: String,
    pub provider: Option<String>,
    pub status_code: Option<u16>,
    pub error_code: Option<String>,
    pub retryable: bool,
    pub raw: Option<Json>,
}

/// The texts of an error.
pub struct SDKErrorView {
    pub kind: SDKErrorKind,
    pub message: Seq<char>,
    pub provider: Option<Seq<char>>,
    pub status_code: Option<u16>,
    pub error_code: Option<Seq<char>>,
    pub retryable: bool,
    pub raw: Option<Json>,
}

impl View for SDKError {
    type V = SDKErrorView;

    open spec fn view(&self) -> SDKErrorView {
        SDKErrorView {
            kind: self.kind,
            message: self.message@,
            provider: opt_seq(self.provider),
            status_code: self.status_code,
            error_code: opt_seq(self.error_code),
            retryable: self.retryable,
            raw: self.raw,
        }
    }
}

impl SDKError {
    pub fn new(kind: SDKErrorKind, message: String) -> (r: Self)
        ensures
            r@ == (SDKErrorView {
                kind,
                message: message@,
                provider: None,
                status_code: None,
                error_code: None,
                retryable: default_retryable_spec(kind),
                raw: None,
            }),
    {
        SDKError {
            kind,
            message,
            provider: None,
            status_code: None,
            error_code: None,
            retryable: kind.default_retryable(),
            raw: None,
        }
    }

    pub fn provider(kind: SDKErrorKind, message: String, provider: Option<String>) -> (r: Self)
        ensures
            r@ == (SDKErrorView {
                kind,
                message: message@,
                provider: opt_seq(provider),
                status_code: None,
                error_code: None,
                retryable: default_retryable_spec(kind),
                raw: None,
            }),
    {
        SDKError {
            kind,
            message,
            provider,
            status_code: None,
            error_code: None,
            retryable: kind.default_retryable(),
            raw: None,
        }
    }
}

/// How an HTTP status or gRPC code classifies an error, and whether the
/// message may refine that kind.
#[derive(Debug)]
pub struct Classification {
    pub kind: SDKErrorKind,
    pub overrideable_by_message: bool,
}

impl Classification {
    pub fn new(kind: SDKErrorKind, overrideable_by_message: bool) -> (r: Self)
        ensures
            r.kind == kind,
            r.overrideable_by_message == overrideable_by_message,
    {
        Classification { kind, overrideable_by_message }
    }
}

/// The classification of an HTTP status code.
pub open spec fn http_status_spec(status_code: Option<u16>) -> (SDKErrorKind, bool) {
    match status_code {
        Some(code) => if code == 400 || code == 422 {
            (SDKErrorKind::InvalidRequest, true)
        } else if code == 401 {
            (SDKErrorKind::Authentication, false)
        } else if code == 403 {
            (SDKErrorKind::AccessDenied, false)
        } else if code == 404 {
            (SDKErrorKind::NotFound, false)
        } else if code == 408 {
            (SDKErrorKind::RequestTimeout, false)
        } else if code == 413 {
            (SDKErrorKind::ContextLength, false)
        } else if code == 429 {
            (SDKErrorKind::RateLimit, true)
        } else if 500 <= code <= 599 {
            (SDKErrorKind::Server, true)
        } else {
            (SDKErrorKind::Provider, true)
        },
        None => (SDKErrorKind::Provider, true),
    }
}

pub fn http_status_classification(status_code: Option<u16>) -> (r: Classification)
    ensures
        (r.kind, r.overrideable_by_message) == http_status_spec(status_code),
{
    match status_code {
        Some(code) => if code == 400 || code == 422 {
            Classification::new(SDKErrorKind::InvalidRequest, true)
        } else if code == 401 {
            Classification::new(SDKErrorKind::Authentication, false)
        } else if code == 403 {
            Classification::new(SDKErrorKind::AccessDenied, false)
        } else if code == 404 {
            Classification::new(SDKErrorKind::NotFound, false)
        } else if code == 408 {
            Classification::new(SDKErrorKind::RequestTimeout, false)
        } else if code == 413 {
            Classification::new(SDKErrorKind::ContextLength, false)
        } else if code == 429 {
            Classification::new(SDKErrorKind::RateLimit, true)
        } else if 500 <= code && code <= 599 {
            Classification::new(SDKErrorKind::Server, true)
        } else {
            Classification::new(SDKErrorKind::Provider, true)
        },
        None => Classification::new(SDKErrorKind::Provider, true),
    }
}

pub fn classify_http_status_code(status_code: Option<u16>) -> (r: SDKErrorKind)
    ensures
        r == http_status_spec(status_code).0,
{
    http_status_classification(status_code).kind
}

/// A gRPC status name: the part after the last `.`, upper-cased, of the
/// trimmed code, when the code is not blank.
pub open spec fn grpc_normalized_code(code: Option<Seq<char>>) -> Option<Seq<char>> {
    match code {
        Some(c) => match non_empty_text(c) {
            Some(t) => Some(ascii_upper(after_last(t, '.'))),
            None => None,
        },
        None => None,
    }
}

/// The classification of a normalised gRPC status name.
pub open spec fn grpc_kind_spec(normalized: Option<Seq<char>>) -> (SDKErrorKind, bool) {
    match normalized {
        Some(n) => if n == "NOT_FOUND"@ {
            (SDKErrorKind::NotFound, false)
        } else if n == "INVALID_ARGUMENT"@ {
            (SDKErrorKind::InvalidRequest, true)
        } else if n == "UNAUTHENTICATED"@ {
            (SDKErrorKind::Authentication, false)
        } else if n == "PERMISSION_DENIED"@ {
            (SDKErrorKind::AccessDenied, false)
        } else if n == "RESOURCE_EXHAUSTED"@ {
            (SDKErrorKind::RateLimit, true)
        } else if n == "UNAVAILABLE"@ {
            (SDKErrorKind::Server, true)
        } else if n == "DEADLINE_EXCEEDED"@ {
            (SDKErrorKind::RequestTimeout, false)
        } else if n == "INTERNAL"@ {
            (SDKErrorKind::Server, true)
        } else {
            (SDKErrorKind::Provider, true)
        },
        None => (SDKErrorKind::Provider, true),
    }
}

/// How a gRPC code classifies an error, with the code's normalised name.
#[derive(Debug)]
pub struct GrpcClassification {
    pub kind: SDKErrorKind,
    pub overrideable_by_message: bool,
    pub normalized_code: Option<String>,
}

pub fn grpc_code_classification(grpc_code: Option<&str>) -> (r: GrpcClassification)
    ensures
        opt_seq(r.normalized_code) == grpc_normalized_code(opt_str_view(grpc_code)),
        (r.kind, r.overrideable_by_message) == grpc_kind_spec(opt_seq(r.normalized_code)),
{
    let normalized_code = match grpc_code {
        Some(code) => match non_empty(code) {
            Some(t) => {
                let last = after_last_char(t.as_str(), '.');
                Some(to_ascii_uppercase(last.as_str()))
            },
            None => None,
        },
        None => None,
    };
    let (kind, overrideable_by_message) = match &normalized_code {
        Some(n) => {
            let n = n.as_str();
            if str_eq(n, "NOT_FOUND") {
                (SDKErrorKind::NotFound, false)
            } else if str_eq(n, "INVALID_ARGUMENT") {
                (SDKErrorKind::InvalidRequest, true)
            } else if str_eq(n, "UNAUTHENTICATED") {
                (SDKErrorKind::Authentication, false)
            } else if str_eq(n, "PERMISSION_DENIED") {
                (SDKErrorKind::AccessDenied, false)
            } else if str_eq(n, "RESOURCE_EXHAUSTED") {
                (SDKErrorKind::RateLimit, true)
            } else if str_eq(n, "UNAVAILABLE") {
                (SDKErrorKind::Server, true)
            } else if str_eq(n, "DEADLINE_EXCEEDED") {
                (SDKErrorKind::RequestTimeout, false)
            } else if str_eq(n, "INTERNAL") {
                (SDKErrorKind::Server, true)
            } else {
                (SDKErrorKind::Provider, true)
            }
        },
        None => (SDKErrorKind::Provider, true),
    };
    GrpcClassification { kind, overrideable_by_message, normalized_code }
}

pub fn classify_grpc_code(grpc_code: Option<&str>) -> (r: SDKErrorKind)
    ensures
        r == grpc_kind_spec(grpc_normalized_code(opt_str_view(grpc_code))).0,
{
    grpc_code_classification(grpc_code).kind
}

/// The text of an optional string slice.
pub open spec fn opt_str_view(o: Option<&str>) -> Option<Seq<char>> {
    match o {
        Some(s) => Some(s@),
        None => None,
    }
}

/// The message and the code joined by a space (only when the message is not
/// empty), as the signal that messages are classified by.
pub open spec fn raw_signal(message: Option<Seq<char>>, error_code: Option<Seq<char>>) -> Seq<char> {
    match (message, error_code) {
        (Some(m), Some(c)) => if m.len() > 0 { m + seq![' '] + c } else { c },
        (Some(m), None) => m,
        (None, Some(c)) => c,
        (None, None) => Seq::empty(),
    }
}

/// ASCII letters and digits lower-cased, anything else a space.
pub open spec fn signal_char(c: char) -> char {
    if is_ascii_alnum(c) {
        lower_char(c)
    } else {
        ' '
    }
}

/// The words of `s` (separated by runs of spaces) joined by single spaces.
pub open spec fn join_words(s: Seq<char>) -> Seq<char>
    decreases s.len(),
{
    if s.len() == 0 {
        Seq::empty()
    } else {
        let r = join_words(s.drop_last());
        let c = s.last();
        if c == ' ' {
            r
        } else if s.len() >= 2 && s[s.len() - 2] == ' ' && r.len() > 0 {
            r.push(' ').push(c)
        } else {
            r.push(c)
        }
    }
}

/// The normalised signal: lower-case ASCII words of message and code.
pub open spec fn normalized_signal_spec(message: Option<Seq<char>>, error_code: Option<Seq<char>>) -> Option<Seq<char>> {
    let raw = raw_signal(message, error_code);
    let words = join_words(Seq::new(raw.len(), |i: int| signal_char(raw[i])));
    if words.len() == 0 {
        None
    } else {
        Some(words)
    }
}

fn signal_char_exec(c: char) -> (r: char)
    ensures
        r == signal_char(c),
{
    if ('a' <= c && c <= 'z') || ('A' <= c && c <= 'Z') || ('0' <= c && c <= '9') {
        char_lower(c)
    } else {
        ' '
    }
}

pub fn normalized_error_signal(message: Option<&str>, error_code: Option<&str>) -> (r: Option<String>)
    ensures
        opt_seq(r) == normalized_signal_spec(opt_str_view(message), opt_str_view(error_code)),
{
    let mut raw: Vec<char> = Vec::new();
    if let Some(m) = message {
        raw = chars_of(m);
    }
    if let Some(c) = error_code {
        if raw.len() > 0 {
            raw.push(' ');
        }
        let cv = chars_of(c);
        crate::url::extend_chars(&mut raw, &cv);
    }
    assert(raw@ =~= raw_signal(opt_str_view(message), opt_str_view(error_code)));
    let ghost mapped = Seq::new(raw@.len(), |i: int| signal_char(raw@[i]));
    let mut out: Vec<char> = Vec::new();
    let mut i: usize = 0;
    while i < raw.len()
        invariant
            i <= raw@.len(),
            mapped.len() == raw@.len(),
            forall|k: int| 0 <= k < raw@.len() ==> #[trigger] mapped[k] == signal_char(raw@[k]),
            out@ == join_words(mapped.subrange(0, i as int)),
        decreases raw@.len() - i,
    {
        let c = signal_char_exec(raw[i]);
        let ghost pre = mapped.subrange(0, i + 1);
        assert(pre.drop_last() =~= mapped.subrange(0, i as int));
        assert(pre.last() == c);
        if c != ' ' {
            if i >= 1 && out.len() > 0 {
                let p = signal_char_exec(raw[i - 1]);
                assert(pre[pre.len() - 2] == p);
                if p == ' ' {
                    out.push(' ');
                }
            }
            out.push(c);
        }
        i = i + 1;
        assert(out@ =~= join_words(mapped.subrange(0, i as int)));
    }
    assert(mapped.subrange(0, raw@.len() as int) =~= mapped);
    if out.len() == 0 {
        None
    } else {
        Some(string_from_chars(&out))
    }
}

/// The kind that an error message's wording suggests, if any.
pub open spec fn classify_signal_spec(h: Seq<char>) -> Option<SDKErrorKind> {
    if contains_seq(h, "not found"@) || contains_seq(h, "does not exist"@) {
        Some(SDKErrorKind::NotFound)
    } else if contains_seq(h, "invalid key"@) || contains_seq(h, "authentication"@) || contains_seq(
        h,
        "unauthorized"@,
    ) || contains_seq(h, "unauthenticated"@) {
        Some(SDKErrorKind::Authentication)
    } else if contains_seq(h, "permission"@) || contains_seq(h, "forbidden"@) || contains_seq(
        h,
        "access denied"@,
    ) || contains_seq(h, "denied"@) {
        Some(SDKErrorKind::AccessDenied)
    } else if contains_seq(h, "too many tokens"@) || contains_seq(h, "context length"@)
        || contains_seq(h, "input too large"@) || contains_seq(h, "maximum context"@) {
        Some(SDKErrorKind::ContextLength)
    } else if contains_seq(h, "content filter"@) || contains_seq(h, "safety"@) {
        Some(SDKErrorKind::ContentFilter)
    } else if contains_seq(h, "quota"@) || contains_seq(h, "insufficient quota"@) {
        Some(SDKErrorKind::QuotaExceeded)
    } else {
        None
    }
}

pub open spec fn classify_message_spec(message: Option<Seq<char>>, error_code: Option<Seq<char>>) -> Option<SDKErrorKind> {
    match normalized_signal_spec(message, error_code) {
        Some(h) => classify_signal_spec(h),
        None => None,
    }
}

fn has(h: &Vec<char>, needle: &str) -> (r: bool)
    ensures
        r == contains_seq(h@, needle@),
{
    let n = chars_of(needle);
    contains_vec(h, &n)
}

/// The kind that the wording of a message and code points to, if any.
pub fn classify_provider_error_message(message: Option<&str>, error_code: Option<&str>) -> (r: Option<SDKErrorKind>)
    ensures
        r == classify_message_spec(opt_str_view(message), opt_str_view(error_code)),
{
    let haystack = match normalized_error_signal(message, error_code) {
        Some(h) => h,
        None => return None,
    };
    let h = chars_of(haystack.as_str());
    if has(&h, "not found") || has(&h, "does not exist") {
        return Some(SDKErrorKind::NotFound);
    }
    if has(&h, "invalid key") || has(&h, "authentication") || has(&h, "unauthorized") || has(
        &h,
        "unauthenticated",
    ) {
        return Some(SDKErrorKind::Authentication);
    }
    if has(&h, "permission") || has(&h, "forbidden") || has(&h, "access denied") || has(&h, "denied") {
        return Some(SDKErrorKind::AccessDenied);
    }
    if has(&h, "too many tokens") || has(&h, "context length") || has(&h, "input too large") || has(
        &h,
        "maximum context",
    ) {
        return Some(SDKErrorKind::ContextLength);
    }
    if has(&h, "content filter") || has(&h, "safety") {
        return Some(SDKErrorKind::ContentFilter);
    }
    if has(&h, "quota") || has(&h, "insufficient quota") {
        return Some(SDKErrorKind::QuotaExceeded);
    }
    None
}

/// Whether two texts read the same once letters are lower-cased and every
/// other character that is not a letter or digit counts as a space.
pub open spec fn same_signal(a: Seq<char>, b: Seq<char>) -> bool {
    a.len() == b.len() && forall|i: int| 0 <= i < a.len() ==> signal_char(#[trigger] a[i]) == signal_char(b[i])
}

/// Classifying an error message does not depend on the letter case or the
/// punctuation of the message: two messages that read the same once letters
/// are lower-cased and punctuation counts as space are classified alike,
/// with any error code.
pub proof fn lemma_classification_ignores_case_and_punctuation(
    m1: Seq<char>,
    m2: Seq<char>,
    error_code: Option<Seq<char>>,
)
    requires
        same_signal(m1, m2),
    ensures
        classify_message_spec(Some(m1), error_code) == classify_message_spec(Some(m2), error_code),
{
    let r1 = raw_signal(Some(m1), error_code);
    let r2 = raw_signal(Some(m2), error_code);
    assert(r1.len() == r2.len());
    assert forall|i: int| 0 <= i < r1.len() implies signal_char(#[trigger] r1[i]) == signal_char(r2[i]) by {
        if i < m1.len() {
            assert(r1[i] == m1[i] && r2[i] == m2[i]);
        } else {
            assert(r1[i] == r2[i]);
        }
    }
    assert(Seq::new(r1.len(), |i: int| signal_char(r1[i])) =~= Seq::new(r2.len(), |i: int| signal_char(r2[i])));
}

/// The text of a string or number value.
pub open spec fn value_text(v: Json) -> Option<Seq<char>> {
    match v {
        Json::Str(s) => Some(s@),
        Json::Number(n) => Some(n@),
        _ => None,
    }
}

/// The first of `fields` whose value is a non-blank string or number, trimmed.
pub open spec fn first_text_field_spec(members: Seq<(String, Json)>, fields: Seq<Seq<char>>) -> Option<Seq<char>>
    decreases fields.len(),
{
    if fields.len() == 0 {
        None
    } else {
        let here = match member_get(members, fields[0]) {
            Some(v) => match value_text(v) {
                Some(t) => non_empty_text(t),
                None => None,
            },
            None => None,
        };
        match here {
            Some(t) => Some(t),
            None => first_text_field_spec(members, fields.drop_first()),
        }
    }
}

pub open spec fn error_message_fields() -> Seq<Seq<char>> {
    seq!["message"@, "detail"@, "description"@]
}

pub open spec fn error_code_fields() -> Seq<Seq<char>> {
    seq!["status"@, "code"@, "type"@, "error_code"@]
}

pub open spec fn top_message_fields() -> Seq<Seq<char>> {
    seq!["message"@, "detail"@, "description"@, "error_description"@]
}

pub open spec fn top_code_fields() -> Seq<Seq<char>> {
    seq!["status"@, "error_code"@, "code"@, "type"@]
}

/// The message and the code that a raw provider error payload carries.
pub open spec fn raw_error_details(raw: Json) -> (Option<Seq<char>>, Option<Seq<char>>) {
    match raw {
        Json::Str(m) => (non_empty_text(m@), None),
        Json::Object(members) => match member_get(members@, "error"@) {
            Some(Json::Object(e)) => (
                first_text_field_spec(e@, error_message_fields()),
                first_text_field_spec(e@, error_code_fields()),
            ),
            Some(Json::Str(m)) => (non_empty_text(m@), None),
            _ => (
                first_text_field_spec(members@, top_message_fields()),
                first_text_field_spec(members@, top_code_fields()),
            ),
        },
        _ => (None, None),
    }
}

fn value_to_string(value: &Json) -> (r: Option<String>)
    ensures
        opt_seq(r) == value_text(*value),
{
    match value {
        Json::Str(text) => Some(text.clone()),
        Json::Number(number) => Some(number.clone()),
        _ => None,
    }
}

fn first_text_field(members: &Vec<(String, Json)>, fields: &[&str]) -> (r: Option<String>)
    ensures
        opt_seq(r) == first_text_field_spec(members@, crate::url::texts_view(fields@)),
{
    let ghost fs = crate::url::texts_view(fields@);
    assert(fs.subrange(0, fs.len() as int) =~= fs);
    let mut i: usize = 0;
    while i < fields.len()
        invariant
            i <= fields@.len(),
            fs == crate::url::texts_view(fields@),
            first_text_field_spec(members@, fs) == first_text_field_spec(members@, fs.subrange(i as int, fs.len() as int)),
        decreases fields@.len() - i,
    {
        let ghost rest = fs.subrange(i as int, fs.len() as int);
        assert(rest[0] == fields@[i as int]@);
        assert(rest.drop_first() =~= fs.subrange(i + 1, fs.len() as int));
        if let Some(value) = members_get(members, fields[i]) {
            if let Some(text) = value_to_string(value) {
                if let Some(t) = non_empty(text.as_str()) {
                    return Some(t);
                }
            }
        }
        i = i + 1;
    }
    None
}

/// The message and the code that a raw provider error payload carries.
pub fn extract_error_details_from_raw(raw: &Json) -> (r: (Option<String>, Option<String>))
    ensures
        (opt_seq(r.0), opt_seq(r.1)) == raw_error_details(*raw),
{
    match raw {
        Json::Str(message) => (non_empty(message.as_str()), None),
        Json::Object(members) => {
            match members_get(members, "error") {
                Some(Json::Object(error)) => {
                    let mf: [&str; 3] = ["message", "detail", "description"];
                    let cf: [&str; 4] = ["status", "code", "type", "error_code"];
                    assert(crate::url::texts_view(mf@) =~= error_message_fields());
                    assert(crate::url::texts_view(cf@) =~= error_code_fields());
                    (first_text_field(error, &mf), first_text_field(error, &cf))
                },
                Some(Json::Str(message)) => (non_empty(message.as_str()), None),
                _ => {
                    let mf: [&str; 4] = ["message", "detail", "description", "error_description"];
                    let cf: [&str; 4] = ["status", "error_code", "code", "type"];
                    assert(crate::url::texts_view(mf@) =~= top_message_fields());
                    assert(crate::url::texts_view(cf@) =~= top_code_fields());
                    (first_text_field(members, &mf), first_text_field(members, &cf))
                },
            }
        },
        _ => (None, None),
    }
}

/// The message and the code an error reports: the given ones when they are
/// not blank, else those of the raw payload; the message falls back to the
/// code and then to "provider error".
pub open spec fn resolve_details_spec(
    message: Seq<char>,
    error_code: Option<Seq<char>>,
    raw: Option<Json>,
) -> (Seq<char>, Option<Seq<char>>) {
    let m = non_empty_text(message);
    let c = match error_code {
        Some(x) => non_empty_text(x),
        None => None,
    };
    let (rm, rc) = match raw {
        Some(r) => raw_error_details(r),
        None => (None, None),
    };
    let msg = match m {
        Some(x) => x,
        None => match rm {
            Some(x) => x,
            None => match c {
                Some(x) => x,
                None => match rc {
                    Some(x) => x,
                    None => "provider error"@,
                },
            },
        },
    };
    let code = match c {
        Some(x) => Some(x),
        None => rc,
    };
    (msg, code)
}

pub fn resolve_error_details(message: String, error_code: Option<&str>, raw: Option<&Json>) -> (r: (String, Option<String>))
    ensures
        (r.0@, opt_seq(r.1)) == resolve_details_spec(message@, opt_str_view(error_code), match raw {
            Some(j) => Some(*j),
            None => None,
        }),
{
    let m = non_empty(message.as_str());
    let c = match error_code {
        Some(x) => non_empty(x),
        None => None,
    };
    let (rm, rc) = match raw {
        Some(j) => extract_error_details_from_raw(j),
        None => (None, None),
    };
    let msg = match m {
        Some(x) => x,
        None => match rm {
            Some(x) => x,
            None => match &c {
                Some(x) => x.clone(),
                None => match &rc {
                    Some(x) => x.clone(),
                    None => owned("provider error"),
                },
            },
        },
    };
    let code = match c {
        Some(x) => Some(x),
        None => rc,
    };
    (msg, code)
}

/// The error that a gRPC status code, message and raw payload describe.
pub open spec fn grpc_error_spec(
    grpc_code: Seq<char>,
    message: Seq<char>,
    provider: Option<Seq<char>>,
    error_code: Option<Seq<char>>,
    raw: Option<Json>,
) -> SDKErrorView {
    let normalized = grpc_normalized_code(Some(grpc_code));
    let (gkind, overrideable) = grpc_kind_spec(normalized);
    let code_for_details = match error_code {
        Some(c) => Some(c),
        None => normalized,
    };
    let (msg, resolved) = resolve_details_spec(message, code_for_details, raw);
    let kind = match classify_message_spec(Some(msg), resolved) {
        Some(k) => if overrideable { k } else { gkind },
        None => gkind,
    };
    SDKErrorView {
        kind,
        message: msg,
        provider,
        status_code: None,
        error_code: match resolved {
            Some(x) => Some(x),
            None => normalized,
        },
        retryable: default_retryable_spec(kind),
        raw,
    }
}

fn opt_owned(o: Option<&str>) -> (r: Option<String>)
    ensures
        opt_seq(r) == opt_str_view(o),
{
    match o {
        Some(s) => Some(owned(s)),
        None => None,
    }
}

fn error_from_grpc_code_parts(
    grpc_code: &str,
    message: String,
    provider: Option<&str>,
    error_code: Option<&str>,
    raw: Option<Json>,
) -> (r: SDKError)
    ensures
        r@ == grpc_error_spec(grpc_code@, message@, opt_str_view(provider), opt_str_view(error_code), raw),
{
    let classification = grpc_code_classification(Some(grpc_code));
    let normalized_code = classification.normalized_code;
    let (message, resolved_error_code) = match error_code {
        Some(c) => resolve_error_details(message, Some(c), raw.as_ref()),
        None => match &normalized_code {
            Some(n) => resolve_error_details(message, Some(n.as_str()), raw.as_ref()),
            None => resolve_error_details(message, None, raw.as_ref()),
        },
    };
    let kind = match resolved_error_code.as_ref() {
        Some(rc) => classify_provider_error_message(Some(message.as_str()), Some(rc.as_str())),
        None => classify_provider_error_message(Some(message.as_str()), None),
    };
    let kind = match kind {
        Some(k) => if classification.overrideable_by_message { k } else { classification.kind },
        None => classification.kind,
    };
    let error_code = match resolved_error_code {
        Some(x) => Some(x),
        None => normalized_code,
    };
    SDKError {
        kind,
        message,
        provider: opt_owned(provider),
        status_code: None,
        error_code,
        retryable: kind.default_retryable(),
        raw,
    }
}

/// The error that a gRPC status code describes.
pub fn error_from_grpc_code(grpc_code: &str, message: String, provider: Option<&str>, raw: Option<Json>) -> (r: SDKError)
    ensures
        r@ == grpc_error_spec(grpc_code@, message@, opt_str_view(provider), None, raw),
{
    error_from_grpc_code_parts(grpc_code, message, provider, None, raw)
}

/// The error that an HTTP status, message, error code and raw payload describe.
pub open spec fn status_error_spec(
    status_code: Option<u16>,
    message: Seq<char>,
    provider: Option<Seq<char>>,
    error_code: Option<Seq<char>>,
    raw: Option<Json>,
) -> SDKErrorView {
    let (msg, code) = resolve_details_spec(message, error_code, raw);
    if code is Some && grpc_kind_spec(grpc_normalized_code(code)).0 != SDKErrorKind::Provider {
        let e = grpc_error_spec(code->0, msg, provider, code, raw);
        SDKErrorView { status_code, ..e }
    } else {
        let (hkind, overrideable) = http_status_spec(status_code);
        let kind = match classify_message_spec(Some(msg), code) {
            Some(k) => if overrideable { k } else { hkind },
            None => hkind,
        };
        SDKErrorView {
            kind,
            message: msg,
            provider,
            status_code,
            error_code: code,
            retryable: default_retryable_spec(kind),
            raw,
        }
    }
}

/// The error that an HTTP status, message, error code and raw payload
/// describe; a recognised gRPC code takes precedence over the status.
pub fn error_from_status_code(
    status_code: Option<u16>,
    message: String,
    provider: Option<&str>,
    error_code: Option<&str>,
    raw: Option<Json>,
) -> (r: SDKError)
    ensures
        r@ == status_error_spec(status_code, message@, opt_str_view(provider), opt_str_view(error_code), raw),
{
    let (message, error_code) = resolve_error_details(message, error_code, raw.as_ref());
    if let Some(grpc_code) = error_code.as_ref() {
        let grpc_classification = grpc_code_classification(Some(grpc_code.as_str()));
        if grpc_classification.kind != SDKErrorKind::Provider {
            let mut error = error_from_grpc_code_parts(
                grpc_code.as_str(),
                message,
                provider,
                Some(grpc_code.as_str()),
                raw,
            );
            error.status_code = status_code;
            return error;
        }
    }
    let classification = http_status_classification(status_code);
    let kind = match error_code.as_ref() {
        Some(c) => classify_provider_error_message(Some(message.as_str()), Some(c.as_str())),
        None => classify_provider_error_message(Some(message.as_str()), None),
    };
    let kind = match kind {
        Some(k) => if classification.overrideable_by_message { k } else { classification.kind },
        None => classification.kind,
    };
    SDKError {
        kind,
        message,
        provider: opt_owned(provider),
        status_code,
        error_code,
        retryable: kind.default_retryable(),
        raw,
    }
}

/// The HTTP statuses with a fixed meaning classify by that meaning, and no
/// message can change it: 401 is an authentication failure, 403 a denied
/// access, 404 a missing resource, 408 a timeout, 413 a request too long
/// for the context; 429 is a rate limit and 5xx a server failure, which a
/// message may refine.
pub proof fn lemma_fixed_http_statuses()
    ensures
        http_status_spec(Some(401u16)) == (SDKErrorKind::Authentication, false),
        http_status_spec(Some(403u16)) == (SDKErrorKind::AccessDenied, false),
        http_status_spec(Some(404u16)) == (SDKErrorKind::NotFound, false),
        http_status_spec(Some(408u16)) == (SDKErrorKind::RequestTimeout, false),
        http_status_spec(Some(413u16)) == (SDKErrorKind::ContextLength, false),
        http_status_spec(Some(429u16)) == (SDKErrorKind::RateLimit, true),
        forall|c: u16| 500 <= c <= 599 ==> #[trigger] http_status_spec(Some(c)) == (SDKErrorKind::Server, true),
{
}

/// An error reported with status 404 and no recognised gRPC code is a
/// not-found error that is not retried, whatever its message, provider or
/// payload say, and it keeps its status.
pub proof fn lemma_not_found_status_error(
    message: Seq<char>,
    provider: Option<Seq<char>>,
    error_code: Option<Seq<char>>,
    raw: Option<Json>,
)
    requires
        !(resolve_details_spec(message, error_code, raw).1 is Some && grpc_kind_spec(
            grpc_normalized_code(resolve_details_spec(message, error_code, raw).1),
        ).0 != SDKErrorKind::Provider),
    ensures
        status_error_spec(Some(404u16), message, provider, error_code, raw).kind == SDKErrorKind::NotFound,
        !status_error_spec(Some(404u16), message, provider, error_code, raw).retryable,
        status_error_spec(Some(404u16), message, provider, error_code, raw).status_code == Some(404u16),
{
}

/// The gRPC status names with a fixed meaning classify by it, and no
/// message can change those that name a client-side fault.
pub proof fn lemma_fixed_grpc_codes()
    ensures
        grpc_kind_spec(Some("NOT_FOUND"@)) == (SDKErrorKind::NotFound, false),
        grpc_kind_spec(Some("UNAUTHENTICATED"@)) == (SDKErrorKind::Authentication, false),
        grpc_kind_spec(Some("PERMISSION_DENIED"@)) == (SDKErrorKind::AccessDenied, false),
        grpc_kind_spec(Some("DEADLINE_EXCEEDED"@)) == (SDKErrorKind::RequestTimeout, false),
        grpc_kind_spec(Some("RESOURCE_EXHAUSTED"@)) == (SDKErrorKind::RateLimit, true),
        grpc_kind_spec(Some("UNAVAILABLE"@)) == (SDKErrorKind::Server, true),
{
    reveal_strlit("NOT_FOUND");
    reveal_strlit("INVALID_ARGUMENT");
    reveal_strlit("UNAUTHENTICATED");
    reveal_strlit("PERMISSION_DENIED");
    reveal_strlit("RESOURCE_EXHAUSTED");
    reveal_strlit("UNAVAILABLE");
    reveal_strlit("DEADLINE_EXCEEDED");
    assert(("UNAUTHENTICATED"@).len() != ("NOT_FOUND"@).len());
    assert(("UNAUTHENTICATED"@).len() != ("INVALID_ARGUMENT"@).len());
    assert(("PERMISSION_DENIED"@)[0] != ("NOT_FOUND"@)[0]);
    assert(("PERMISSION_DENIED"@)[0] != ("INVALID_ARGUMENT"@)[0]);
    assert(("PERMISSION_DENIED"@).len() != ("UNAUTHENTICATED"@).len());
    assert(("DEADLINE_EXCEEDED"@)[0] != ("NOT_FOUND"@)[0]);
    assert(("DEADLINE_EXCEEDED"@)[0] != ("INVALID_ARGUMENT"@)[0]);
    assert(("DEADLINE_EXCEEDED"@)[0] != ("UNAUTHENTICATED"@)[0]);
    assert(("DEADLINE_EXCEEDED"@)[0] != ("PERMISSION_DENIED"@)[0]);
    assert(("DEADLINE_EXCEEDED"@)[0] != ("RESOURCE_EXHAUSTED"@)[0]);
    assert(("DEADLINE_EXCEEDED"@)[0] != ("UNAVAILABLE"@)[0]);
    assert(("RESOURCE_EXHAUSTED"@)[0] != ("NOT_FOUND"@)[0]);
    assert(("RESOURCE_EXHAUSTED"@)[0] != ("INVALID_ARGUMENT"@)[0]);
    assert(("RESOURCE_EXHAUSTED"@)[0] != ("UNAUTHENTICATED"@)[0]);
    assert(("RESOURCE_EXHAUSTED"@)[0] != ("PERMISSION_DENIED"@)[0]);
    assert(("UNAVAILABLE"@).len() != ("NOT_FOUND"@).len());
    assert(("UNAVAILABLE"@)[0] != ("INVALID_ARGUMENT"@)[0]);
    assert(("UNAVAILABLE"@).len() != ("UNAUTHENTICATED"@).len());
    assert(("UNAVAILABLE"@)[0] != ("PERMISSION_DENIED"@)[0]);
    assert(("UNAVAILABLE"@)[0] != ("RESOURCE_EXHAUSTED"@)[0]);
}

} // verus!
