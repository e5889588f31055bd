//! Tool names and the tool-choice setting of a request.
use vstd::prelude::*;
use vstd::utf8::encode_utf8;
use crate::errors::{SDKError, SDKErrorKind, SDKErrorView, default_retryable_spec};
use crate::json::{Json, get, json_get};
use crate::request::check_view;
use crate::text::{
    ascii_lower, chars_of, concat2, concat3, debug_quoted, debug_text, is_ascii_alnum, is_ascii_alpha, owned, str_eq, trim_lower, trim_seq,
};

verus! {

/// Message for a tool name that breaks the character rules.
pub open spec fn tool_name_charset_message(field_name: Seq<char>) -> Seq<char> {
    field_name
        + " must start with an ASCII letter and contain only ASCII letters, numbers, and underscores"@
}

/// Why a tool name is refused, if it is: empty, longer than 64 bytes, not
/// starting with an ASCII letter, or holding anything but ASCII letters,
/// digits and underscores.
pub open spec fn tool_name_error(v: Seq<char>, field_name: Seq<char>) -> Option<Seq<char>> {
    if v.len() == 0 {
        Some(field_name + " must not be empty"@)
    } else if encode_utf8(v).len() > 64 {
        Some(field_name + " must be 64 characters or fewer"@)
    } else if !is_ascii_alpha(v[0]) {
        Some(tool_name_charset_message(field_name))
    } else if exists|i: int| 1 <= i < v.len() && !(is_ascii_alnum(#[trigger] v[i]) || v[i] == '_') {
        Some(tool_name_charset_message(field_name))
    } else {
        None
    }
}

/// Checks a tool name.
pub fn validate_tool_name(value: &str, field_name: &str) -> (r: Result<(), String>)
    ensures
        match r {
            Ok(()) => tool_name_error(value@, field_name@) is None,
            Err(m) => tool_name_error(value@, field_name@) == Some(m@),
        },
{
    let v = chars_of(value);
    if v.len() == 0 {
        return Err(concat2(field_name, " must not be empty"));
    }
    if value.as_bytes().len() > 64 {
        return Err(concat2(field_name, " must be 64 characters or fewer"));
    }
    let first = v[0];
    if !(('a' <= first && first <= 'z') || ('A' <= first && first <= 'Z')) {
        return Err(concat2(
            field_name,
            " must start with an ASCII letter and contain only ASCII letters, numbers, and underscores",
        ));
    }
    let mut i: usize = 1;
    while i < v.len()
        invariant
            v@ == value@,
            1 <= i <= v@.len(),
            encode_utf8(value@).len() <= 64,
            is_ascii_alpha(value@[0]),
            forall|k: int| 1 <= k < i ==> (is_ascii_alnum(#[trigger] v@[k]) || v@[k] == '_'),
        decreases v@.len() - i,
    {
        let c = v[i];
        if !(('a' <= c && c <= 'z') || ('A' <= c && c <= 'Z') || ('0' <= c && c <= '9') || c == '_') {
            assert(!(is_ascii_alnum(v@[i as int]) || v@[i as int] == '_'));
            return Err(concat2(
                field_name,
                " must start with an ASCII letter and contain only ASCII letters, numbers, and underscores",
            ));
        }
        i = i + 1;
    }
    Ok(())
}

/// The tool-choice setting: a mode and, for the named mode, a tool.
#[derive(Debug)]
pub struct ToolChoice {
    pub mode: String,
    pub tool_name: Option<String>,
}

/// What a tool choice asks for.
#[derive(Debug)]
pub enum ToolChoiceKind {
    Auto,
    Disabled,
    Required,
    Named(String),
}

/// Why a tool choice cannot be used.
#[derive(Debug)]
pub enum ToolChoiceParseError {
    /// The setting is malformed.
    Invalid(String),
    /// The mode is not one this adapter knows.
    Unsupported(String),
}

/// The texts of a `ToolChoiceKind`.
pub enum ToolChoiceKindView {
    Auto,
    Disabled,
    Required,
    Named(Seq<char>),
}

pub enum ParseErrorView {
    Invalid(Seq<char>),
    Unsupported(Seq<char>),
}

pub open spec fn kind_view(k: ToolChoiceKind) -> ToolChoiceKindView {
    match k {
        ToolChoiceKind::Auto => ToolChoiceKindView::Auto,
        ToolChoiceKind::Disabled => ToolChoiceKindView::Disabled,
        ToolChoiceKind::Required => ToolChoiceKindView::Required,
        ToolChoiceKind::Named(n) => ToolChoiceKindView::Named(n@),
    }
}

pub open spec fn parse_error_view(e: ToolChoiceParseError) -> ParseErrorView {
    match e {
        ToolChoiceParseError::Invalid(m) => ParseErrorView::Invalid(m@),
        ToolChoiceParseError::Unsupported(m) => ParseErrorView::Unsupported(m@),
    }
}

pub open spec fn tool_name_only_for_named() -> Seq<char> {
    "tool_name is only valid for named tool_choice"@
}

/// What a mode and tool name ask for, or why they cannot be used.
pub open spec fn tool_choice_kind_spec(mode: Seq<char>, tool_name: Option<String>) -> Result<ToolChoiceKindView, ParseErrorView> {
    let m = ascii_lower(trim_seq(mode));
    if m == "auto"@ || m == "none"@ || m == "required"@ || m == "any"@ {
        if tool_name is Some {
            Err(ParseErrorView::Invalid(tool_name_only_for_named()))
        } else if m == "auto"@ {
            Ok(ToolChoiceKindView::Auto)
        } else if m == "none"@ {
            Ok(ToolChoiceKindView::Disabled)
        } else {
            Ok(ToolChoiceKindView::Required)
        }
    } else if m == "named"@ || m == "function"@ || m == "tool"@ {
        match tool_name {
            None => Err(ParseErrorView::Invalid("named tool_choice requires tool_name"@)),
            Some(name) => match tool_name_error(name@, "tool_name"@) {
                Some(msg) => Err(ParseErrorView::Invalid(msg)),
                None => Ok(ToolChoiceKindView::Named(name@)),
            },
        }
    } else {
        Err(ParseErrorView::Unsupported("tool_choice mode "@ + debug_text(m) + " is not supported"@))
    }
}

/// The mode as stored: trimmed, lower-case, with `any` read as `required`
/// and `function` or `tool` as `named`.
pub open spec fn canonical_mode(mode: Seq<char>) -> Seq<char> {
    let m = ascii_lower(trim_seq(mode));
    if m == "any"@ {
        "required"@
    } else if m == "function"@ || m == "tool"@ {
        "named"@
    } else {
        m
    }
}

/// The message of a parse error.
pub open spec fn parse_error_message(e: ParseErrorView) -> Seq<char> {
    match e {
        ParseErrorView::Invalid(m) => m,
        ParseErrorView::Unsupported(m) => m,
    }
}

impl ToolChoice {
    /// What this choice asks for, or why it cannot be used.
    pub fn kind(&self) -> (r: Result<ToolChoiceKind, ToolChoiceParseError>)
        ensures
            match r {
                Ok(k) => tool_choice_kind_spec(self.mode@, self.tool_name) == Ok::<ToolChoiceKindView, ParseErrorView>(kind_view(k)),
                Err(e) => tool_choice_kind_spec(self.mode@, self.tool_name) == Err::<ToolChoiceKindView, ParseErrorView>(parse_error_view(e)),
            },
    {
        let mode = trim_lower(self.mode.as_str());
        let m = mode.as_str();
        if str_eq(m, "auto") || str_eq(m, "none") || str_eq(m, "required") || str_eq(m, "any") {
            match self.reject_tool_name_for_non_named() {
                Ok(()) => {},
                Err(e) => return Err(e),
            }
            if str_eq(m, "auto") {
                Ok(ToolChoiceKind::Auto)
            } else if str_eq(m, "none") {
                Ok(ToolChoiceKind::Disabled)
            } else {
                Ok(ToolChoiceKind::Required)
            }
        } else if str_eq(m, "named") || str_eq(m, "function") || str_eq(m, "tool") {
            match &self.tool_name {
                None => Err(ToolChoiceParseError::Invalid(owned("named tool_choice requires tool_name"))),
                Some(name) => match validate_tool_name(name.as_str(), "tool_name") {
                    Err(message) => Err(ToolChoiceParseError::Invalid(message)),
                    Ok(()) => Ok(ToolChoiceKind::Named(name.clone())),
                },
            }
        } else {
            let quoted = debug_quoted(m);
            Err(ToolChoiceParseError::Unsupported(concat3("tool_choice mode ", quoted.as_str(), " is not supported")))
        }
    }

    fn from_parts(mode: String, tool_name: Option<String>) -> (r: Self)
        ensures
            r.mode@ == canonical_mode(mode@),
            r.tool_name == tool_name,
    {
        let m = trim_lower(mode.as_str());
        let mode = if str_eq(m.as_str(), "any") {
            owned("required")
        } else if str_eq(m.as_str(), "function") || str_eq(m.as_str(), "tool") {
            owned("named")
        } else {
            m
        };
        ToolChoice { mode, tool_name }
    }

    fn validate_supported(&self) -> (r: Result<(), String>)
        ensures
            match tool_choice_kind_spec(self.mode@, self.tool_name) {
                Ok(_) => r is Ok,
                Err(e) => r matches Err(m) && m@ == parse_error_message(e),
            },
    {
        match self.kind() {
            Ok(_) => Ok(()),
            Err(ToolChoiceParseError::Invalid(message)) => Err(message),
            Err(ToolChoiceParseError::Unsupported(message)) => Err(message),
        }
    }

    /// A checked tool choice.
    pub fn new(mode: String, tool_name: Option<String>) -> (r: Result<Self, String>)
        ensures
            match tool_choice_kind_spec(canonical_mode(mode@), tool_name) {
                Ok(_) => r matches Ok(c) && c.mode@ == canonical_mode(mode@) && c.tool_name == tool_name,
                Err(e) => r matches Err(m) && m@ == parse_error_message(e),
            },
    {
        let choice = Self::from_parts(mode, tool_name);
        match choice.validate_supported() {
            Ok(()) => Ok(choice),
            Err(message) => Err(message),
        }
    }

    pub fn auto() -> (r: Self)
        ensures
            r.mode@ == "auto"@,
            r.tool_name is None,
    {
        ToolChoice { mode: owned("auto"), tool_name: None }
    }

    pub fn none() -> (r: Self)
        ensures
            r.mode@ == "none"@,
            r.tool_name is None,
    {
        ToolChoice { mode: owned("none"), tool_name: None }
    }

    pub fn required() -> (r: Self)
        ensures
            r.mode@ == "required"@,
            r.tool_name is None,
    {
        ToolChoice { mode: owned("required"), tool_name: None }
    }

    /// A choice of one named tool.
    pub fn named(tool_name: String) -> (r: Result<Self, String>)
        ensures
            match tool_choice_kind_spec(canonical_mode("named"@), Some(tool_name)) {
                Ok(_) => r matches Ok(c) && c.mode@ == canonical_mode("named"@) && c.tool_name == Some(tool_name),
                Err(e) => r matches Err(m) && m@ == parse_error_message(e),
            },
    {
        Self::new(owned("named"), Some(tool_name))
    }

    /// Same as `named`.
    pub fn for_tool(tool_name: String) -> (r: Result<Self, String>)
        ensures
            match tool_choice_kind_spec(canonical_mode("named"@), Some(tool_name)) {
                Ok(_) => r matches Ok(c) && c.mode@ == canonical_mode("named"@) && c.tool_name == Some(tool_name),
                Err(e) => r matches Err(m) && m@ == parse_error_message(e),
            },
    {
        Self::named(tool_name)
    }

    pub fn is_auto(&self) -> (r: bool)
        ensures
            r == (tool_choice_kind_spec(self.mode@, self.tool_name) == Ok::<ToolChoiceKindView, ParseErrorView>(ToolChoiceKindView::Auto)),
    {
        match self.kind() {
            Ok(ToolChoiceKind::Auto) => true,
            _ => false,
        }
    }

    pub fn is_none(&self) -> (r: bool)
        ensures
            r == (tool_choice_kind_spec(self.mode@, self.tool_name) == Ok::<ToolChoiceKindView, ParseErrorView>(ToolChoiceKindView::Disabled)),
    {
        match self.kind() {
            Ok(ToolChoiceKind::Disabled) => true,
            _ => false,
        }
    }

    pub fn is_required(&self) -> (r: bool)
        ensures
            r == (tool_choice_kind_spec(self.mode@, self.tool_name) == Ok::<ToolChoiceKindView, ParseErrorView>(ToolChoiceKindView::Required)),
    {
        match self.kind() {
            Ok(ToolChoiceKind::Required) => true,
            _ => false,
        }
    }

    pub fn is_named(&self) -> (r: bool)
        ensures
            r == (tool_choice_kind_spec(self.mode@, self.tool_name) matches Ok(ToolChoiceKindView::Named(_))),
    {
        match self.kind() {
            Ok(ToolChoiceKind::Named(_)) => true,
            _ => false,
        }
    }

    /// The named tool, if any.
    pub fn tool(&self) -> (r: Option<&str>)
        ensures
            match r {
                Some(t) => self.tool_name matches Some(n) && t@ == n@,
                None => self.tool_name is None,
            },
    {
        match &self.tool_name {
            Some(n) => Some(n.as_str()),
            None => None,
        }
    }

    /// Checks the shape of the setting only: an unsupported mode passes.
    pub fn validate_request_shape(&self) -> (r: Result<(), String>)
        ensures
            match tool_choice_kind_spec(self.mode@, self.tool_name) {
                Err(ParseErrorView::Invalid(m)) => r matches Err(e) && e@ == m,
                _ => r is Ok,
            },
    {
        match self.kind() {
            Ok(_) => Ok(()),
            Err(ToolChoiceParseError::Unsupported(_)) => Ok(()),
            Err(ToolChoiceParseError::Invalid(message)) => Err(message),
        }
    }

    fn reject_tool_name_for_non_named(&self) -> (r: Result<(), ToolChoiceParseError>)
        ensures
            match r {
                Ok(()) => self.tool_name is None,
                Err(e) => self.tool_name is Some && parse_error_view(e) == ParseErrorView::Invalid(tool_name_only_for_named()),
            },
    {
        if self.tool_name.is_some() {
            return Err(ToolChoiceParseError::Invalid(owned("tool_name is only valid for named tool_choice")));
        }
        Ok(())
    }
}

/// The error that reports a refused tool choice for a provider.
pub open spec fn parse_error_to_adapter_spec(e: ParseErrorView, provider: Seq<char>) -> SDKErrorView {
    let (kind, message) = match e {
        ParseErrorView::Invalid(m) => (SDKErrorKind::InvalidRequest, m),
        ParseErrorView::Unsupported(m) => (SDKErrorKind::UnsupportedToolChoice, m),
    };
    SDKErrorView {
        kind,
        message,
        provider: Some(provider),
        status_code: None,
        error_code: None,
        retryable: default_retryable_spec(kind),
        raw: None,
    }
}

impl ToolChoiceParseError {
    pub fn into_adapter_error(self, provider: &str) -> (r: SDKError)
        ensures
            r@ == parse_error_to_adapter_spec(parse_error_view(self), provider@),
    {
        match self {
            ToolChoiceParseError::Invalid(message) => SDKError::provider(
                SDKErrorKind::InvalidRequest,
                message,
                Some(owned(provider)),
            ),
            ToolChoiceParseError::Unsupported(message) => SDKError::provider(
                SDKErrorKind::UnsupportedToolChoice,
                message,
                Some(owned(provider)),
            ),
        }
    }
}

// ----- tool definitions -----
/// A tool offered to the model: its name, what it does, and the JSON Schema
/// of its parameters. Running the tool is the caller's affair.
#[derive(Debug)]
pub struct Tool {
    pub name: String,
    pub description: Option<String>,
    pub parameters: Option<Json>,
    /// Provider settings carried with the tool, such as Anthropic's
    /// `cache_control`.
    pub provider_metadata: crate::textmap::TextMap<Json>,
}

/// A parameter schema must be an object whose `type` is `object`.
pub open spec fn parameter_schema_check(schema: Json) -> Result<(), Seq<char>> {
    match schema {
        Json::Object(_) => match json_get(schema, "type"@) {
            Some(Json::Str(t)) => if t@ == "object"@ {
                Ok(())
            } else {
                Err("tool parameters root type must be object"@)
            },
            _ => Err("tool parameters root type must be object"@),
        },
        _ => Err("tool parameters must be a JSON Schema object"@),
    }
}

/// Checks a parameter schema.
pub fn validate_parameter_schema(schema: &Json) -> (r: Result<(), String>)
    ensures
        check_view(r) == parameter_schema_check(*schema),
{
    match schema {
        Json::Object(_) => {},
        _ => return Err(owned("tool parameters must be a JSON Schema object")),
    }
    match get(schema, "type") {
        Some(Json::Str(t)) => if str_eq(t.as_str(), "object") {
            Ok(())
        } else {
            Err(owned("tool parameters root type must be object"))
        },
        _ => Err(owned("tool parameters root type must be object")),
    }
}

/// A tool needs a valid name and, if it has parameters, a valid schema.
pub open spec fn tool_check(tool: Tool) -> Result<(), Seq<char>> {
    match tool_name_error(tool.name@, "tool name"@) {
        Some(m) => Err(m),
        None => match tool.parameters {
            Some(p) => parameter_schema_check(p),
            None => Ok(()),
        },
    }
}

impl Tool {
    /// Checks the name and the parameter schema.
    pub fn validate(&self) -> (r: Result<(), String>)
        ensures
            check_view(r) == tool_check(*self),
    {
        match validate_tool_name(self.name.as_str(), "tool name") {
            Ok(()) => {},
            Err(m) => return Err(m),
        }
        match &self.parameters {
            Some(p) => validate_parameter_schema(p),
            None => Ok(()),
        }
    }
}

} // verus!
