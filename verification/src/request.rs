//! The request and response model: roles, content parts and their payloads,
//! finish reasons, and the checks a request must pass before it is sent.
use vstd::prelude::*;
use crate::json::{Json, JsonView, copy_json};
use crate::text::{chars_of, concat2, concat3, opt_seq, owned, str_eq, string_from_chars, trim, trim_seq};
use crate::textmap::TextMap;
use crate::usage::Usage;
use crate::url::extend_chars;

verus! {

// ----- checks -----
/// The view of a unit result.
pub open spec fn check_view(r: Result<(), String>) -> Result<(), Seq<char>> {
    match r {
        Ok(()) => Ok(()),
        Err(e) => Err(e@),
    }
}

/// A field must hold more than whitespace.
pub open spec fn non_empty_check(field: Seq<char>, value: Seq<char>) -> Result<(), Seq<char>> {
    if trim_seq(value).len() == 0 {
        Err(field + " must not be empty"@)
    } else {
        Ok(())
    }
}

/// A media payload comes from a URL or from inline data, never both.
pub open spec fn one_source_check(has_url: bool, has_data: bool, kind: Seq<char>) -> Result<(), Seq<char>> {
    if has_url == has_data {
        Err("exactly one of url or data must be provided for "@ + kind)
    } else {
        Ok(())
    }
}

/// Fails when the value is blank.
pub fn validate_non_empty(field: &str, value: &str) -> (r: Result<(), String>)
    ensures
        check_view(r) == non_empty_check(field@, value@),
{
    let t = trim(value);
    if t.unicode_len() == 0 {
        return Err(concat2(field, " must not be empty"));
    }
    Ok(())
}

/// Fails unless exactly one of `url` and `data` is given.
pub fn validate_exactly_one_source<T>(url: Option<&str>, data: Option<&T>, kind: &str) -> (r: Result<(), String>)
    ensures
        check_view(r) == one_source_check(url is Some, data is Some, kind@),
{
    if url.is_some() == data.is_some() {
        return Err(concat2("exactly one of url or data must be provided for ", kind));
    }
    Ok(())
}

// ----- roles and kinds -----
/// Who speaks a message.
#[derive(Debug, Clone, Copy, PartialEq, Eq, Structural)]
pub enum MessageRole {
    System,
    User,
    Assistant,
    Tool,
    Developer,
}

pub open spec fn role_name(r: MessageRole) -> Seq<char> {
    match r {
        MessageRole::System => "system"@,
        MessageRole::User => "user"@,
        MessageRole::Assistant => "assistant"@,
        MessageRole::Tool => "tool"@,
        MessageRole::Developer => "developer"@,
    }
}

impl MessageRole {
    /// The role's wire name.
    pub fn as_str(self) -> (r: &'static str)
        ensures
            r@ == role_name(self),
    {
        match self {
            MessageRole::System => "system",
            MessageRole::User => "user",
            MessageRole::Assistant => "assistant",
            MessageRole::Tool => "tool",
            MessageRole::Developer => "developer",
        }
    }
}

/// The kind of a content part; other kinds keep their name.
#[derive(Debug)]
pub enum ContentKind {
    Text,
    Image,
    Audio,
    Document,
    ToolCall,
    ToolResult,
    Thinking,
    RedactedThinking,
    Custom(String),
}

pub enum ContentKindView {
    Text,
    Image,
    Audio,
    Document,
    ToolCall,
    ToolResult,
    Thinking,
    RedactedThinking,
    Custom(Seq<char>),
}

impl View for ContentKind {
    type V = ContentKindView;

    open spec fn view(&self) -> ContentKindView {
        match self {
            ContentKind::Text => ContentKindView::Text,
            ContentKind::Image => ContentKindView::Image,
            ContentKind::Audio => ContentKindView::Audio,
            ContentKind::Document => ContentKindView::Document,
            ContentKind::ToolCall => ContentKindView::ToolCall,
            ContentKind::ToolResult => ContentKindView::ToolResult,
            ContentKind::Thinking => ContentKindView::Thinking,
            ContentKind::RedactedThinking => ContentKindView::RedactedThinking,
            ContentKind::Custom(k) => ContentKindView::Custom(k@),
        }
    }
}

pub open spec fn content_kind_name(k: ContentKindView) -> Seq<char> {
    match k {
        ContentKindView::Text => "text"@,
        ContentKindView::Image => "image"@,
        ContentKindView::Audio => "audio"@,
        ContentKindView::Document => "document"@,
        ContentKindView::ToolCall => "tool_call"@,
        ContentKindView::ToolResult => "tool_result"@,
        ContentKindView::Thinking => "thinking"@,
        ContentKindView::RedactedThinking => "redacted_thinking"@,
        ContentKindView::Custom(s) => s,
    }
}

pub open spec fn content_kind_from(s: Seq<char>) -> ContentKindView {
    if s == "text"@ {
        ContentKindView::Text
    } else if s == "image"@ {
        ContentKindView::Image
    } else if s == "audio"@ {
        ContentKindView::Audio
    } else if s == "document"@ {
        ContentKindView::Document
    } else if s == "tool_call"@ {
        ContentKindView::ToolCall
    } else if s == "tool_result"@ {
        ContentKindView::ToolResult
    } else if s == "thinking"@ {
        ContentKindView::Thinking
    } else if s == "redacted_thinking"@ {
        ContentKindView::RedactedThinking
    } else {
        ContentKindView::Custom(s)
    }
}

impl ContentKind {
    /// The kind's name.
    pub fn as_str(&self) -> (r: &str)
        ensures
            r@ == content_kind_name(self@),
    {
        match self {
            ContentKind::Text => "text",
            ContentKind::Image => "image",
            ContentKind::Audio => "audio",
            ContentKind::Document => "document",
            ContentKind::ToolCall => "tool_call",
            ContentKind::ToolResult => "tool_result",
            ContentKind::Thinking => "thinking",
            ContentKind::RedactedThinking => "redacted_thinking",
            ContentKind::Custom(kind) => kind.as_str(),
        }
    }

    /// The kind with a given name.
    pub fn from_kind(kind: &str) -> (r: Self)
        ensures
            r@ == content_kind_from(kind@),
    {
        if str_eq(kind, "text") {
            ContentKind::Text
        } else if str_eq(kind, "image") {
            ContentKind::Image
        } else if str_eq(kind, "audio") {
            ContentKind::Audio
        } else if str_eq(kind, "document") {
            ContentKind::Document
        } else if str_eq(kind, "tool_call") {
            ContentKind::ToolCall
        } else if str_eq(kind, "tool_result") {
            ContentKind::ToolResult
        } else if str_eq(kind, "thinking") {
            ContentKind::Thinking
        } else if str_eq(kind, "redacted_thinking") {
            ContentKind::RedactedThinking
        } else {
            ContentKind::Custom(owned(kind))
        }
    }
}

/// A kind's name reads back as that name: writing a kind read from any name
/// gives the name again.
pub proof fn lemma_content_kind_name_round_trip(s: Seq<char>)
    ensures
        content_kind_name(content_kind_from(s)) == s,
{
}

/// Reading the name of a kind gives the kind back, for every kind but a
/// custom one that borrows a built-in name.
pub proof fn lemma_content_kind_round_trip(k: ContentKindView)
    requires
        k matches ContentKindView::Custom(s) ==> content_kind_from(s) is Custom,
    ensures
        content_kind_from(content_kind_name(k)) == k,
{
    reveal_strlit("text");
    reveal_strlit("image");
    reveal_strlit("audio");
    reveal_strlit("document");
    reveal_strlit("tool_call");
    reveal_strlit("tool_result");
    reveal_strlit("thinking");
    reveal_strlit("redacted_thinking");
    assert("text"@.len() == 4 && "image"@.len() == 5 && "audio"@.len() == 5 && "document"@.len() == 8);
    assert("tool_call"@.len() == 9 && "tool_result"@.len() == 11 && "thinking"@.len() == 8);
    assert("redacted_thinking"@.len() == 17);
    assert("image"@[0] != "audio"@[0]);
    assert("document"@[0] != "thinking"@[0]);
}

// ----- payloads -----
/// An image, by URL or inline bytes.
#[derive(Debug)]
pub struct ImageData {
    pub url: Option<String>,
    pub data: Option<Vec<u8>>,
    pub media_type: Option<String>,
    pub detail: Option<String>,
}

pub open spec fn opt_bytes(o: Option<Vec<u8>>) -> Option<Seq<u8>> {
    match o {
        Some(b) => Some(b@),
        None => None,
    }
}

pub open spec fn opt_str_view(o: Option<&str>) -> Option<Seq<char>> {
    match o {
        Some(s) => Some(s@),
        None => None,
    }
}

impl ImageData {
    /// An image at a URL.
    pub fn url(url: String) -> (r: Self)
        ensures
            opt_seq(r.url) == Some(url@),
            r.data is None,
            r.media_type is None,
            r.detail is None,
    {
        ImageData { url: Some(url), data: None, media_type: None, detail: None }
    }

    /// An inline image; its media type defaults to PNG.
    pub fn data(data: Vec<u8>, media_type: Option<String>) -> (r: Self)
        ensures
            r.url is None,
            opt_bytes(r.data) == Some(data@),
            opt_seq(r.media_type) == Some(
                match media_type {
                    Some(m) => m@,
                    None => "image/png"@,
                },
            ),
            r.detail is None,
    {
        let mt = match media_type {
            Some(m) => m,
            None => owned("image/png"),
        };
        ImageData { url: None, data: Some(data), media_type: Some(mt), detail: None }
    }

    /// The media type, or PNG for inline data that names none.
    pub fn effective_media_type(&self) -> (r: Option<&str>)
        ensures
            opt_str_view(r) == match self.media_type {
                Some(m) => Some(m@),
                None => if self.data is Some {
                    Some("image/png"@)
                } else {
                    None
                },
            },
    {
        match &self.media_type {
            Some(m) => Some(m.as_str()),
            None => if self.data.is_some() {
                Some("image/png")
            } else {
                None
            },
        }
    }

    /// An image needs exactly one of a URL and inline data.
    pub fn validate(&self) -> (r: Result<(), String>)
        ensures
            check_view(r) == one_source_check(self.url is Some, self.data is Some, "image"@),
    {
        let url = match &self.url {
            Some(u) => Some(u.as_str()),
            None => None,
        };
        validate_exactly_one_source(url, self.data.as_ref(), "image")
    }
}

/// Audio, by URL or inline bytes.
#[derive(Debug)]
pub struct AudioData {
    pub url: Option<String>,
    pub data: Option<Vec<u8>>,
    pub media_type: Option<String>,
}

impl AudioData {
    /// Audio needs exactly one of a URL and inline data.
    pub fn validate(&self) -> (r: Result<(), String>)
        ensures
            check_view(r) == one_source_check(self.url is Some, self.data is Some, "audio"@),
    {
        let url = match &self.url {
            Some(u) => Some(u.as_str()),
            None => None,
        };
        validate_exactly_one_source(url, self.data.as_ref(), "audio")
    }
}

/// A document, by URL or inline bytes.
#[derive(Debug)]
pub struct DocumentData {
    pub url: Option<String>,
    pub data: Option<Vec<u8>>,
    pub media_type: Option<String>,
    pub file_name: Option<String>,
}

impl DocumentData {
    /// A document needs exactly one of a URL and inline data.
    pub fn validate(&self) -> (r: Result<(), String>)
        ensures
            check_view(r) == one_source_check(self.url is Some, self.data is Some, "document"@),
    {
        let url = match &self.url {
            Some(u) => Some(u.as_str()),
            None => None,
        };
        validate_exactly_one_source(url, self.data.as_ref(), "document")
    }
}

/// Reasoning text a model produced, with the signature that lets it be sent back.
#[derive(Debug)]
pub struct ThinkingData {
    pub text: String,
    pub signature: Option<String>,
    pub redacted: bool,
    pub source_provider: Option<String>,
    pub source_model: Option<String>,
}

pub open spec fn thinking_check(t: ThinkingData) -> Result<(), Seq<char>> {
    match t.source_provider {
        Some(p) if non_empty_check("thinking source_provider"@, p@) is Err => non_empty_check(
            "thinking source_provider"@,
            p@,
        ),
        _ => match t.source_model {
            Some(m) => non_empty_check("thinking source_model"@, m@),
            None => Ok(()),
        },
    }
}

impl ThinkingData {
    /// A source provider or model, when named, must not be blank.
    pub fn validate(&self) -> (r: Result<(), String>)
        ensures
            check_view(r) == thinking_check(*self),
    {
        if let Some(provider) = &self.source_provider {
            match validate_non_empty("thinking source_provider", provider.as_str()) {
                Ok(()) => {},
                Err(e) => return Err(e),
            }
        }
        if let Some(model) = &self.source_model {
            match validate_non_empty("thinking source_model", model.as_str()) {
                Ok(()) => {},
                Err(e) => return Err(e),
            }
        }
        Ok(())
    }
}

/// A tool call a model asked for.
#[derive(Debug)]
pub struct ToolCall {
    pub id: String,
    pub name: String,
    pub arguments: Json,
    pub raw_arguments: Option<String>,
    /// The call's type, `function` unless a provider says otherwise.
    pub call_type: String,
}

pub struct ToolCallView {
    pub id: Seq<char>,
    pub name: Seq<char>,
    pub arguments: JsonView,
    pub raw_arguments: Option<Seq<char>>,
    pub call_type: Seq<char>,
}

impl View for ToolCall {
    type V = ToolCallView;

    open spec fn view(&self) -> ToolCallView {
        ToolCallView {
            id: self.id@,
            name: self.name@,
            arguments: self.arguments@,
            raw_arguments: opt_seq(self.raw_arguments),
            call_type: self.call_type@,
        }
    }
}

pub open spec fn tool_call_check(c: ToolCallView) -> Result<(), Seq<char>> {
    if non_empty_check("tool call id"@, c.id) is Err {
        non_empty_check("tool call id"@, c.id)
    } else if non_empty_check("tool call name"@, c.name) is Err {
        non_empty_check("tool call name"@, c.name)
    } else {
        non_empty_check("tool call type"@, c.call_type)
    }
}

/// The type a tool call has unless a provider says otherwise.
pub fn default_function_type() -> (r: String)
    ensures
        r@ == "function"@,
{
    owned("function")
}

impl ToolCall {
    /// Id, name and type must not be blank.
    pub fn validate(&self) -> (r: Result<(), String>)
        ensures
            check_view(r) == tool_call_check(self@),
    {
        match validate_non_empty("tool call id", self.id.as_str()) {
            Ok(()) => {},
            Err(e) => return Err(e),
        }
        match validate_non_empty("tool call name", self.name.as_str()) {
            Ok(()) => {},
            Err(e) => return Err(e),
        }
        validate_non_empty("tool call type", self.call_type.as_str())
    }

    /// A copy of the call.
    pub fn copy(&self) -> (r: Self)
        ensures
            r@ == self@,
    {
        ToolCall {
            id: self.id.clone(),
            name: self.name.clone(),
            arguments: copy_json(&self.arguments),
            raw_arguments: match &self.raw_arguments {
                Some(s) => Some(s.clone()),
                None => None,
            },
            call_type: self.call_type.clone(),
        }
    }
}

/// The result of running a tool.
#[derive(Debug)]
pub struct ToolResult {
    pub tool_call_id: String,
    pub content: Json,
    pub is_error: bool,
}

impl ToolResult {
    pub fn success(tool_call_id: String, content: Json) -> (r: Self)
        ensures
            r.tool_call_id == tool_call_id,
            r.content == content,
            !r.is_error,
    {
        ToolResult { tool_call_id, content, is_error: false }
    }

    pub fn error(tool_call_id: String, content: Json) -> (r: Self)
        ensures
            r.tool_call_id == tool_call_id,
            r.content == content,
            r.is_error,
    {
        ToolResult { tool_call_id, content, is_error: true }
    }
}

/// A tool result as a message carries it, possibly with an image.
#[derive(Debug)]
pub struct ToolResultData {
    pub tool_call_id: String,
    pub content: Json,
    pub is_error: bool,
    pub image_data: Option<Vec<u8>>,
    pub image_media_type: Option<String>,
}

impl ToolResultData {
    /// The call id must not be blank.
    pub fn validate(&self) -> (r: Result<(), String>)
        ensures
            check_view(r) == non_empty_check("tool result tool_call_id"@, self.tool_call_id@),
    {
        validate_non_empty("tool result tool_call_id", self.tool_call_id.as_str())
    }

    /// The message form of a tool result, without an image.
    pub fn from_result(result: ToolResult) -> (r: Self)
        ensures
            r.tool_call_id == result.tool_call_id,
            r.content == result.content,
            r.is_error == result.is_error,
            r.image_data is None,
            r.image_media_type is None,
    {
        ToolResultData {
            tool_call_id: result.tool_call_id,
            content: result.content,
            is_error: result.is_error,
            image_data: None,
            image_media_type: None,
        }
    }

    /// The plain tool result, dropping an image.
    pub fn into_result(self) -> (r: ToolResult)
        ensures
            r.tool_call_id == self.tool_call_id,
            r.content == self.content,
            r.is_error == self.is_error,
    {
        ToolResult { tool_call_id: self.tool_call_id, content: self.content, is_error: self.is_error }
    }
}

// ----- content parts and messages -----
/// One part of a message's content.
#[derive(Debug)]
pub enum ContentPart {
    Text { text: String },
    Image { image: ImageData },
    Audio { audio: AudioData },
    Document { document: DocumentData },
    ToolCall { tool_call: ToolCall },
    ToolResult { tool_result: ToolResultData },
    Thinking { thinking: ThinkingData },
    RedactedThinking { thinking: ThinkingData },
    Custom { kind: String, raw: Json },
    Raw { kind: String, raw: Json },
    Provider { raw: Json },
}

pub open spec fn part_kind(p: ContentPart) -> ContentKindView {
    match p {
        ContentPart::Text { .. } => ContentKindView::Text,
        ContentPart::Image { .. } => ContentKindView::Image,
        ContentPart::Audio { .. } => ContentKindView::Audio,
        ContentPart::Document { .. } => ContentKindView::Document,
        ContentPart::ToolCall { .. } => ContentKindView::ToolCall,
        ContentPart::ToolResult { .. } => ContentKindView::ToolResult,
        ContentPart::Thinking { .. } => ContentKindView::Thinking,
        ContentPart::RedactedThinking { .. } => ContentKindView::RedactedThinking,
        ContentPart::Custom { kind, .. } => ContentKindView::Custom(kind@),
        ContentPart::Raw { kind, .. } => ContentKindView::Custom(kind@),
        ContentPart::Provider { .. } => ContentKindView::Custom("provider"@),
    }
}

/// What a part's own payload must satisfy.
pub open spec fn payload_check(p: ContentPart) -> Result<(), Seq<char>> {
    match p {
        ContentPart::Image { image } => one_source_check(image.url is Some, image.data is Some, "image"@),
        ContentPart::Audio { audio } => one_source_check(audio.url is Some, audio.data is Some, "audio"@),
        ContentPart::Document { document } => one_source_check(
            document.url is Some,
            document.data is Some,
            "document"@,
        ),
        ContentPart::ToolCall { tool_call } => tool_call_check(tool_call@),
        ContentPart::ToolResult { tool_result } => non_empty_check(
            "tool result tool_call_id"@,
            tool_result.tool_call_id@,
        ),
        ContentPart::Thinking { thinking } => if thinking_check(thinking) is Err {
            thinking_check(thinking)
        } else if thinking.redacted {
            Err("thinking content requires redacted to be false"@)
        } else {
            Ok(())
        },
        ContentPart::RedactedThinking { thinking } => if thinking_check(thinking) is Err {
            thinking_check(thinking)
        } else if !thinking.redacted {
            Err("redacted_thinking content requires redacted to be true"@)
        } else {
            Ok(())
        },
        ContentPart::Custom { kind, .. } => non_empty_check("content kind"@, kind@),
        ContentPart::Raw { kind, .. } => non_empty_check("content kind"@, kind@),
        _ => Ok(()),
    }
}

/// Which roles may carry a part: text anywhere, images from users and the
/// assistant, audio and documents from users, tool calls and reasoning from
/// the assistant, tool results in tool messages, other parts anywhere.
pub open spec fn allowed_for_role(p: ContentPart, role: MessageRole) -> bool {
    match p {
        ContentPart::Text { .. } => true,
        ContentPart::Image { .. } => role == MessageRole::User || role == MessageRole::Assistant,
        ContentPart::Audio { .. } => role == MessageRole::User,
        ContentPart::Document { .. } => role == MessageRole::User,
        ContentPart::ToolCall { .. } => role == MessageRole::Assistant,
        ContentPart::ToolResult { .. } => role == MessageRole::Tool,
        ContentPart::Thinking { .. } => role == MessageRole::Assistant,
        ContentPart::RedactedThinking { .. } => role == MessageRole::Assistant,
        _ => true,
    }
}

/// The check of a part in a message with a role.
pub open spec fn part_check(p: ContentPart, role: MessageRole) -> Result<(), Seq<char>> {
    if payload_check(p) is Err {
        payload_check(p)
    } else if allowed_for_role(p, role) {
        Ok(())
    } else {
        Err(content_kind_name(part_kind(p)) + " content is not allowed for "@ + role_name(role) + " messages"@)
    }
}

/// The first failing check among a message's parts.
pub open spec fn parts_check(parts: Seq<ContentPart>, role: MessageRole) -> Result<(), Seq<char>>
    decreases parts.len(),
{
    if parts.len() == 0 {
        Ok(())
    } else if part_check(parts[0], role) is Err {
        part_check(parts[0], role)
    } else {
        parts_check(parts.drop_first(), role)
    }
}

/// The text of a part, empty for other parts.
pub open spec fn part_text(p: ContentPart) -> Seq<char> {
    match p {
        ContentPart::Text { text } => text@,
        _ => Seq::empty(),
    }
}

/// The text parts of a message, concatenated.
pub open spec fn parts_text(parts: Seq<ContentPart>) -> Seq<char>
    decreases parts.len(),
{
    if parts.len() == 0 {
        Seq::empty()
    } else {
        parts_text(parts.drop_last()) + part_text(parts.last())
    }
}

impl ContentPart {
    /// The kind of the part.
    pub fn kind(&self) -> (r: ContentKind)
        ensures
            r@ == part_kind(*self),
    {
        match self {
            ContentPart::Text { .. } => ContentKind::Text,
            ContentPart::Image { .. } => ContentKind::Image,
            ContentPart::Audio { .. } => ContentKind::Audio,
            ContentPart::Document { .. } => ContentKind::Document,
            ContentPart::ToolCall { .. } => ContentKind::ToolCall,
            ContentPart::ToolResult { .. } => ContentKind::ToolResult,
            ContentPart::Thinking { .. } => ContentKind::Thinking,
            ContentPart::RedactedThinking { .. } => ContentKind::RedactedThinking,
            ContentPart::Custom { kind, .. } => ContentKind::Custom(kind.clone()),
            ContentPart::Raw { kind, .. } => ContentKind::Custom(kind.clone()),
            ContentPart::Provider { .. } => ContentKind::Custom(owned("provider")),
        }
    }

    /// A text part.
    pub fn text(text: String) -> (r: Self)
        ensures
            r == (ContentPart::Text { text }),
    {
        ContentPart::Text { text }
    }

    /// A part of another kind, with its raw payload.
    pub fn custom(kind: String, raw: Json) -> (r: Self)
        ensures
            r == (ContentPart::Custom { kind, raw }),
    {
        ContentPart::Custom { kind, raw }
    }

    /// A raw part of a named kind.
    pub fn raw(kind: String, raw: Json) -> (r: Self)
        ensures
            r == (ContentPart::Raw { kind, raw }),
    {
        ContentPart::Raw { kind, raw }
    }

    /// The text of a text part.
    pub fn text_content(&self) -> (r: Option<&str>)
        ensures
            match *self {
                ContentPart::Text { text } => r matches Some(t) && t@ == text@,
                _ => r is None,
            },
    {
        match self {
            ContentPart::Text { text } => Some(text.as_str()),
            _ => None,
        }
    }

    fn validate_payload(&self) -> (r: Result<(), String>)
        ensures
            check_view(r) == payload_check(*self),
    {
        match self {
            ContentPart::Image { image } => image.validate(),
            ContentPart::Audio { audio } => audio.validate(),
            ContentPart::Document { document } => document.validate(),
            ContentPart::ToolCall { tool_call } => tool_call.validate(),
            ContentPart::ToolResult { tool_result } => tool_result.validate(),
            ContentPart::Thinking { thinking } => {
                match thinking.validate() {
                    Ok(()) => {},
                    Err(e) => return Err(e),
                }
                if thinking.redacted {
                    return Err(owned("thinking content requires redacted to be false"));
                }
                Ok(())
            },
            ContentPart::RedactedThinking { thinking } => {
                match thinking.validate() {
                    Ok(()) => {},
                    Err(e) => return Err(e),
                }
                if !thinking.redacted {
                    return Err(owned("redacted_thinking content requires redacted to be true"));
                }
                Ok(())
            },
            ContentPart::Custom { kind, .. } => validate_non_empty("content kind", kind.as_str()),
            ContentPart::Raw { kind, .. } => validate_non_empty("content kind", kind.as_str()),
            _ => Ok(()),
        }
    }

    fn is_allowed_for_role(&self, role: MessageRole) -> (r: bool)
        ensures
            r == allowed_for_role(*self, role),
    {
        match self {
            ContentPart::Text { .. } => true,
            ContentPart::Image { .. } => role == MessageRole::User || role == MessageRole::Assistant,
            ContentPart::Audio { .. } => role == MessageRole::User,
            ContentPart::Document { .. } => role == MessageRole::User,
            ContentPart::ToolCall { .. } => role == MessageRole::Assistant,
            ContentPart::ToolResult { .. } => role == MessageRole::Tool,
            ContentPart::Thinking { .. } => role == MessageRole::Assistant,
            ContentPart::RedactedThinking { .. } => role == MessageRole::Assistant,
            _ => true,
        }
    }

    /// Checks the part's payload, then that a message of `role` may carry it.
    pub fn validate_for_role(&self, role: MessageRole) -> (r: Result<(), String>)
        ensures
            check_view(r) == part_check(*self, role),
    {
        match self.validate_payload() {
            Ok(()) => {},
            Err(e) => return Err(e),
        }
        if self.is_allowed_for_role(role) {
            return Ok(());
        }
        let kind = self.kind();
        let head = concat3(kind.as_str(), " content is not allowed for ", role.as_str());
        Err(concat2(head.as_str(), " messages"))
    }
}

/// A message of a conversation.
#[derive(Debug)]
pub struct Message {
    pub role: MessageRole,
    pub content: Vec<ContentPart>,
    pub name: Option<String>,
    pub tool_call_id: Option<String>,
    pub provider_metadata: TextMap<Json>,
}

impl Message {
    /// A message of one text part.
    pub fn from_text(role: MessageRole, text: String) -> (r: Self)
        ensures
            r.role == role,
            r.content@ == seq![ContentPart::Text { text }],
            r.name is None,
            r.tool_call_id is None,
            r.provider_metadata.as_map() == Map::<Seq<char>, Json>::empty(),
    {
        Message {
            role,
            content: vec![ContentPart::Text { text }],
            name: None,
            tool_call_id: None,
            provider_metadata: TextMap::new(),
        }
    }

    pub fn user(text: String) -> (r: Self)
        ensures
            r.role == MessageRole::User,
            r.content@ == seq![ContentPart::Text { text }],
            r.name is None,
            r.tool_call_id is None,
            r.provider_metadata.as_map() == Map::<Seq<char>, Json>::empty(),
    {
        Message::from_text(MessageRole::User, text)
    }

    pub fn system(text: String) -> (r: Self)
        ensures
            r.role == MessageRole::System,
            r.content@ == seq![ContentPart::Text { text }],
            r.name is None,
            r.tool_call_id is None,
            r.provider_metadata.as_map() == Map::<Seq<char>, Json>::empty(),
    {
        Message::from_text(MessageRole::System, text)
    }

    pub fn assistant(text: String) -> (r: Self)
        ensures
            r.role == MessageRole::Assistant,
            r.content@ == seq![ContentPart::Text { text }],
            r.name is None,
            r.tool_call_id is None,
            r.provider_metadata.as_map() == Map::<Seq<char>, Json>::empty(),
    {
        Message::from_text(MessageRole::Assistant, text)
    }

    pub fn developer(text: String) -> (r: Self)
        ensures
            r.role == MessageRole::Developer,
            r.content@ == seq![ContentPart::Text { text }],
            r.name is None,
            r.tool_call_id is None,
            r.provider_metadata.as_map() == Map::<Seq<char>, Json>::empty(),
    {
        Message::from_text(MessageRole::Developer, text)
    }

    /// A tool message carrying one tool result.
    pub fn tool_result(tool_call_id: String, content: Json, is_error: bool) -> (r: Self)
        ensures
            r.role == MessageRole::Tool,
            r.content@.len() == 1,
            r.content@[0] matches ContentPart::ToolResult { tool_result } && tool_result.tool_call_id@
                == tool_call_id@ && tool_result.content == content && tool_result.is_error == is_error
                && tool_result.image_data is None && tool_result.image_media_type is None,
            r.name is None,
            opt_seq(r.tool_call_id) == Some(tool_call_id@),
            r.provider_metadata.as_map() == Map::<Seq<char>, Json>::empty(),
    {
        let id = tool_call_id.clone();
        Message {
            role: MessageRole::Tool,
            content: vec![
                ContentPart::ToolResult {
                    tool_result: ToolResultData {
                        tool_call_id: id,
                        content,
                        is_error,
                        image_data: None,
                        image_media_type: None,
                    },
                },
            ],
            name: None,
            tool_call_id: Some(tool_call_id),
            provider_metadata: TextMap::new(),
        }
    }

    /// The text parts, concatenated.
    pub fn text(&self) -> (r: String)
        ensures
            r@ == parts_text(self.content@),
    {
        let mut acc: Vec<char> = Vec::new();
        let mut i: usize = 0;
        while i < self.content.len()
            invariant
                i <= self.content@.len(),
                acc@ == parts_text(self.content@.subrange(0, i as int)),
            decreases self.content@.len() - i,
        {
            if let Some(t) = self.content[i].text_content() {
                extend_chars(&mut acc, &chars_of(t));
            }
            proof {
                let s = self.content@.subrange(0, i + 1);
                assert(s.drop_last() =~= self.content@.subrange(0, i as int));
                assert(s.last() == self.content@[i as int]);
            }
            i = i + 1;
            assert(acc@ =~= parts_text(self.content@.subrange(0, i as int)));
        }
        assert(self.content@.subrange(0, self.content@.len() as int) =~= self.content@);
        string_from_chars(&acc)
    }

    /// Every part must pass its check for the message's role.
    pub fn validate(&self) -> (r: Result<(), String>)
        ensures
            check_view(r) == parts_check(self.content@, self.role),
    {
        let mut i: usize = 0;
        assert(self.content@.subrange(0, self.content@.len() as int) =~= self.content@);
        while i < self.content.len()
            invariant
                i <= self.content@.len(),
                parts_check(self.content@, self.role) == parts_check(
                    self.content@.subrange(i as int, self.content@.len() as int),
                    self.role,
                ),
            decreases self.content@.len() - i,
        {
            let ghost rest = self.content@.subrange(i as int, self.content@.len() as int);
            assert(rest[0] == self.content@[i as int]);
            assert(rest.drop_first() =~= self.content@.subrange(i + 1, self.content@.len() as int));
            match self.content[i].validate_for_role(self.role) {
                Ok(()) => {},
                Err(e) => return Err(e),
            }
            i = i + 1;
        }
        Ok(())
    }
}

// ----- response formats -----
/// The form a response must take: free text, any JSON object, or JSON
/// matching a schema.
#[derive(Debug)]
pub enum ResponseFormat {
    Text,
    JsonObject,
    JsonSchema { json_schema: Json, strict: bool },
}

// ----- requests -----
/// A generation request. Sampling settings that are fractional numbers
/// (`temperature`, `top_p`) are held as the JSON numbers sent for them.
#[derive(Debug)]
pub struct Request {
    pub model: String,
    pub messages: Vec<Message>,
    pub provider: Option<String>,
    pub tools: Vec<crate::tools::Tool>,
    pub tool_choice: Option<crate::tools::ToolChoice>,
    pub response_format: Option<ResponseFormat>,
    pub temperature: Option<Json>,
    pub top_p: Option<Json>,
    pub max_tokens: Option<u64>,
    pub stop_sequences: Vec<String>,
    pub reasoning_effort: Option<String>,
    pub metadata: TextMap<Json>,
    pub provider_options: TextMap<Json>,
}

// ----- finish reasons, warnings, rate limits -----
/// Why a generation stopped.
#[derive(Debug, Clone, Copy, PartialEq, Eq, Structural)]
pub enum FinishReasonKind {
    Stop,
    Length,
    ToolCalls,
    ContentFilter,
    Error,
    Other,
}

pub open spec fn finish_kind_name(k: FinishReasonKind) -> Seq<char> {
    match k {
        FinishReasonKind::Stop => "stop"@,
        FinishReasonKind::Length => "length"@,
        FinishReasonKind::ToolCalls => "tool_calls"@,
        FinishReasonKind::ContentFilter => "content_filter"@,
        FinishReasonKind::Error => "error"@,
        FinishReasonKind::Other => "other"@,
    }
}

pub open spec fn finish_kind_from(s: Seq<char>) -> FinishReasonKind {
    if s == "stop"@ {
        FinishReasonKind::Stop
    } else if s == "length"@ {
        FinishReasonKind::Length
    } else if s == "tool_calls"@ {
        FinishReasonKind::ToolCalls
    } else if s == "content_filter"@ {
        FinishReasonKind::ContentFilter
    } else if s == "error"@ {
        FinishReasonKind::Error
    } else {
        FinishReasonKind::Other
    }
}

impl FinishReasonKind {
    pub fn as_str(self) -> (r: &'static str)
        ensures
            r@ == finish_kind_name(self),
    {
        match self {
            FinishReasonKind::Stop => "stop",
            FinishReasonKind::Length => "length",
            FinishReasonKind::ToolCalls => "tool_calls",
            FinishReasonKind::ContentFilter => "content_filter",
            FinishReasonKind::Error => "error",
            FinishReasonKind::Other => "other",
        }
    }

    /// The kind a reason name stands for; unknown names are `Other`.
    pub fn from_reason(reason: &str) -> (r: Self)
        ensures
            r == finish_kind_from(reason@),
    {
        if str_eq(reason, "stop") {
            FinishReasonKind::Stop
        } else if str_eq(reason, "length") {
            FinishReasonKind::Length
        } else if str_eq(reason, "tool_calls") {
            FinishReasonKind::ToolCalls
        } else if str_eq(reason, "content_filter") {
            FinishReasonKind::ContentFilter
        } else if str_eq(reason, "error") {
            FinishReasonKind::Error
        } else {
            FinishReasonKind::Other
        }
    }
}

/// A finish reason reads back from its name: `from_reason(as_str(k)) == k`
/// for every kind.
pub proof fn lemma_finish_kind_round_trip(k: FinishReasonKind)
    ensures
        finish_kind_from(finish_kind_name(k)) == k,
{
    reveal_strlit("stop");
    reveal_strlit("length");
    reveal_strlit("tool_calls");
    reveal_strlit("content_filter");
    reveal_strlit("error");
    reveal_strlit("other");
    assert("stop"@.len() == 4 && "length"@.len() == 6 && "tool_calls"@.len() == 10);
    assert("content_filter"@.len() == 14 && "error"@.len() == 5 && "other"@.len() == 5);
    assert("error"@[0] != "other"@[0]);
}

/// A finish reason with the provider's own word for it.
#[derive(Debug)]
pub struct FinishReason {
    pub reason: FinishReasonKind,
    pub raw: Option<String>,
}

impl FinishReason {
    pub fn new(reason: FinishReasonKind, raw: Option<String>) -> (r: Self)
        ensures
            r.reason == reason,
            opt_seq(r.raw) == opt_seq(raw),
    {
        FinishReason { reason, raw }
    }

    pub fn from_provider(reason: FinishReasonKind, raw: String) -> (r: Self)
        ensures
            r.reason == reason,
            opt_seq(r.raw) == Some(raw@),
    {
        FinishReason { reason, raw: Some(raw) }
    }

    /// A reason without a provider word (the named constants of the kind).
    pub fn of_kind(reason: FinishReasonKind) -> (r: Self)
        ensures
            r.reason == reason,
            r.raw is None,
    {
        FinishReason { reason, raw: None }
    }
}

impl Default for FinishReason {
    fn default() -> (r: Self)
        ensures
            r.reason == FinishReasonKind::Other,
            r.raw is None,
    {
        FinishReason { reason: FinishReasonKind::Other, raw: None }
    }
}

/// A warning about part of a request a provider ignored.
#[derive(Debug)]
pub struct Warning {
    pub message: String,
    pub code: Option<String>,
}

/// Rate-limit figures a provider reported.
#[derive(Debug)]
pub struct RateLimitInfo {
    pub requests_remaining: Option<u64>,
    pub requests_limit: Option<u64>,
    pub tokens_remaining: Option<u64>,
    pub tokens_limit: Option<u64>,
    pub reset_at: Option<String>,
}

// ----- responses -----
/// A provider's answer.
#[derive(Debug)]
pub struct Response {
    pub id: String,
    pub model: String,
    pub provider: String,
    pub message: Message,
    pub finish_reason: FinishReason,
    pub usage: Usage,
    pub raw: Option<Json>,
    pub warnings: Vec<Warning>,
    pub rate_limit: Option<RateLimitInfo>,
    /// Text reported outside the message, used when the message has none.
    pub text: String,
    /// Tool calls reported outside the message, used when the message has none.
    pub tool_calls: Vec<ToolCall>,
    pub raw_provider_events: Vec<Json>,
}

pub open spec fn tool_calls_view(s: Seq<ToolCall>) -> Seq<ToolCallView> {
    s.map_values(|c: ToolCall| c@)
}

/// The tool calls among a message's parts, in order.
pub open spec fn parts_tool_calls(parts: Seq<ContentPart>) -> Seq<ToolCallView>
    decreases parts.len(),
{
    if parts.len() == 0 {
        Seq::empty()
    } else {
        let rest = parts_tool_calls(parts.drop_last());
        match parts.last() {
            ContentPart::ToolCall { tool_call } => rest.push(tool_call@),
            _ => rest,
        }
    }
}

/// The reasoning text of a part, if it is a reasoning part.
pub open spec fn part_reasoning(p: ContentPart) -> Option<Seq<char>> {
    match p {
        ContentPart::Thinking { thinking } => Some(thinking.text@),
        ContentPart::RedactedThinking { thinking } => Some(thinking.text@),
        _ => None,
    }
}

/// The reasoning texts of a message, concatenated, when it has any
/// reasoning part.
pub open spec fn parts_reasoning(parts: Seq<ContentPart>) -> Option<Seq<char>>
    decreases parts.len(),
{
    if parts.len() == 0 {
        None
    } else {
        let rest = parts_reasoning(parts.drop_last());
        match part_reasoning(parts.last()) {
            Some(t) => Some(
                match rest {
                    Some(r) => r,
                    None => Seq::empty(),
                } + t,
            ),
            None => rest,
        }
    }
}

impl Response {
    /// The message's text, or the separately reported text when the message has none.
    pub fn text(&self) -> (r: String)
        ensures
            r@ == if parts_text(self.message.content@).len() == 0 {
                self.text@
            } else {
                parts_text(self.message.content@)
            },
    {
        let message_text = self.message.text();
        if message_text.unicode_len() == 0 {
            self.text.clone()
        } else {
            message_text
        }
    }

    /// The message's tool calls, or the separately reported ones when the
    /// message has none.
    pub fn tool_calls(&self) -> (r: Vec<ToolCall>)
        ensures
            tool_calls_view(r@) == if parts_tool_calls(self.message.content@).len() == 0 {
                tool_calls_view(self.tool_calls@)
            } else {
                parts_tool_calls(self.message.content@)
            },
    {
        let parts = &self.message.content;
        let mut extracted: Vec<ToolCall> = Vec::new();
        let mut i: usize = 0;
        while i < parts.len()
            invariant
                i <= parts@.len(),
                tool_calls_view(extracted@) == parts_tool_calls(parts@.subrange(0, i as int)),
            decreases parts@.len() - i,
        {
            let ghost before = extracted@;
            if let ContentPart::ToolCall { tool_call } = &parts[i] {
                extracted.push(tool_call.copy());
                assert(tool_calls_view(extracted@) =~= tool_calls_view(before).push(tool_call@));
            }
            proof {
                let s = parts@.subrange(0, i + 1);
                assert(s.drop_last() =~= parts@.subrange(0, i as int));
                assert(s.last() == parts@[i as int]);
            }
            i = i + 1;
        }
        assert(parts@.subrange(0, parts@.len() as int) =~= parts@);
        if extracted.len() == 0 {
            let mut copies: Vec<ToolCall> = Vec::new();
            let mut j: usize = 0;
            while j < self.tool_calls.len()
                invariant
                    j <= self.tool_calls@.len(),
                    tool_calls_view(copies@) == tool_calls_view(self.tool_calls@).subrange(0, j as int),
                decreases self.tool_calls@.len() - j,
            {
                let ghost before = copies@;
                copies.push(self.tool_calls[j].copy());
                assert(tool_calls_view(copies@) =~= tool_calls_view(before).push(self.tool_calls@[j as int]@));
                j = j + 1;
                assert(tool_calls_view(copies@) =~= tool_calls_view(self.tool_calls@).subrange(0, j as int));
            }
            assert(tool_calls_view(self.tool_calls@).subrange(0, self.tool_calls@.len() as int)
                =~= tool_calls_view(self.tool_calls@));
            copies
        } else {
            extracted
        }
    }

    /// The reasoning texts of the message, concatenated; `None` when it has
    /// no reasoning part.
    pub fn reasoning(&self) -> (r: Option<String>)
        ensures
            opt_seq(r) == parts_reasoning(self.message.content@),
    {
        let parts = &self.message.content;
        let mut saw = false;
        let mut acc: Vec<char> = Vec::new();
        let mut i: usize = 0;
        while i < parts.len()
            invariant
                i <= parts@.len(),
                saw ==> parts_reasoning(parts@.subrange(0, i as int)) == Some(acc@),
                !saw ==> parts_reasoning(parts@.subrange(0, i as int)) is None && acc@.len() == 0,
            decreases parts@.len() - i,
        {
            match &parts[i] {
                ContentPart::Thinking { thinking } => {
                    extend_chars(&mut acc, &chars_of(thinking.text.as_str()));
                    saw = true;
                },
                ContentPart::RedactedThinking { thinking } => {
                    extend_chars(&mut acc, &chars_of(thinking.text.as_str()));
                    saw = true;
                },
                _ => {},
            }
            proof {
                let s = parts@.subrange(0, i + 1);
                assert(s.drop_last() =~= parts@.subrange(0, i as int));
                assert(s.last() == parts@[i as int]);
                assert(Seq::<char>::empty() + acc@ =~= acc@);
            }
            i = i + 1;
        }
        assert(parts@.subrange(0, parts@.len() as int) =~= parts@);
        if saw {
            Some(string_from_chars(&acc))
        } else {
            None
        }
    }
}

// ----- views of content -----
pub struct ThinkingView {
    pub text: Seq<char>,
    pub signature: Option<Seq<char>>,
    pub redacted: bool,
    pub source_provider: Option<Seq<char>>,
    pub source_model: Option<Seq<char>>,
}

impl View for ThinkingData {
    type V = ThinkingView;

    open spec fn view(&self) -> ThinkingView {
        ThinkingView {
            text: self.text@,
            signature: opt_seq(self.signature),
            redacted: self.redacted,
            source_provider: opt_seq(self.source_provider),
            source_model: opt_seq(self.source_model),
        }
    }
}

pub struct ToolResultView {
    pub tool_call_id: Seq<char>,
    pub content: JsonView,
    pub is_error: bool,
    pub image_data: Option<Seq<u8>>,
    pub image_media_type: Option<Seq<char>>,
}

impl View for ToolResultData {
    type V = ToolResultView;

    open spec fn view(&self) -> ToolResultView {
        ToolResultView {
            tool_call_id: self.tool_call_id@,
            content: self.content@,
            is_error: self.is_error,
            image_data: opt_bytes(self.image_data),
            image_media_type: opt_seq(self.image_media_type),
        }
    }
}

/// A content part as values; media payloads keep their own form.
pub enum ContentPartView {
    Text { text: Seq<char> },
    Image { image: ImageData },
    Audio { audio: AudioData },
    Document { document: DocumentData },
    ToolCall { tool_call: ToolCallView },
    ToolResult { tool_result: ToolResultView },
    Thinking { thinking: ThinkingView },
    RedactedThinking { thinking: ThinkingView },
    Custom { kind: Seq<char>, raw: JsonView },
    Raw { kind: Seq<char>, raw: JsonView },
    Provider { raw: JsonView },
}

impl View for ContentPart {
    type V = ContentPartView;

    open spec fn view(&self) -> ContentPartView {
        match self {
            ContentPart::Text { text } => ContentPartView::Text { text: text@ },
            ContentPart::Image { image } => ContentPartView::Image { image: *image },
            ContentPart::Audio { audio } => ContentPartView::Audio { audio: *audio },
            ContentPart::Document { document } => ContentPartView::Document { document: *document },
            ContentPart::ToolCall { tool_call } => ContentPartView::ToolCall { tool_call: tool_call@ },
            ContentPart::ToolResult { tool_result } => ContentPartView::ToolResult { tool_result: tool_result@ },
            ContentPart::Thinking { thinking } => ContentPartView::Thinking { thinking: thinking@ },
            ContentPart::RedactedThinking { thinking } => ContentPartView::RedactedThinking { thinking: thinking@ },
            ContentPart::Custom { kind, raw } => ContentPartView::Custom { kind: kind@, raw: raw@ },
            ContentPart::Raw { kind, raw } => ContentPartView::Raw { kind: kind@, raw: raw@ },
            ContentPart::Provider { raw } => ContentPartView::Provider { raw: raw@ },
        }
    }
}

pub open spec fn parts_view(s: Seq<ContentPart>) -> Seq<ContentPartView> {
    s.map_values(|p: ContentPart| p@)
}

/// The text of a part view, empty for other parts.
pub open spec fn part_view_text(p: ContentPartView) -> Seq<char> {
    match p {
        ContentPartView::Text { text } => text,
        _ => Seq::empty(),
    }
}

/// The text parts of a sequence of part views, concatenated.
pub open spec fn parts_view_text(parts: Seq<ContentPartView>) -> Seq<char>
    decreases parts.len(),
{
    if parts.len() == 0 {
        Seq::empty()
    } else {
        parts_view_text(parts.drop_last()) + part_view_text(parts.last())
    }
}

/// The text of parts equals the text of their views.
pub proof fn lemma_parts_text_view(parts: Seq<ContentPart>)
    ensures
        parts_text(parts) == parts_view_text(parts_view(parts)),
    decreases parts.len(),
{
    if parts.len() > 0 {
        lemma_parts_text_view(parts.drop_last());
        assert(parts_view(parts).drop_last() =~= parts_view(parts.drop_last()));
    }
}

} // verus!
