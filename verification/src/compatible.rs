//! The OpenAI-compatible adapter's configuration and the warnings it
//! reports about request features a provider ignores.
use vstd::prelude::*;
use crate::env::ProviderConfig;
use crate::errors::{SDKError, SDKErrorKind, SDKErrorView};
use crate::native::{non_empty_opt, non_empty_opt_str, opt_str_view, provider_error_spec, unit_error_view};
use crate::json::{Json, jv};
use crate::openai_request::{openai_response_format, response_format_spec};
use crate::request::{ResponseFormat, Warning};
use crate::text::{opt_seq, owned, str_eq};
use crate::textmap::TextMap;

verus! {

/// How to reach an OpenAI-compatible provider.
#[derive(Debug)]
pub struct OpenAICompatibleRequestConfig {
    pub api_key: Option<String>,
    pub base_url: Option<String>,
    pub default_headers: TextMap<String>,
    pub require_api_key: bool,
}

impl OpenAICompatibleRequestConfig {
    /// A configuration that requires the given API key.
    pub fn new(api_key: String) -> (r: Self)
        ensures
            opt_seq(r.api_key) == Some(api_key@),
            r.base_url is None,
            r.default_headers.as_map() == Map::<Seq<char>, String>::empty(),
            r.require_api_key,
    {
        OpenAICompatibleRequestConfig {
            api_key: Some(api_key),
            base_url: None,
            default_headers: TextMap::new(),
            require_api_key: true,
        }
    }

    /// The configuration an environment gives a provider: its key and base
    /// URL, the `HTTP-Referer` and `X-Title` options as headers, and a key
    /// required unless the `require_api_key` option is `false` (by default
    /// only OpenRouter requires one).
    pub fn from_provider_config(config: &ProviderConfig) -> (r: Self)
        ensures
            opt_seq(r.api_key) == opt_seq(config.api_key),
            opt_seq(r.base_url) == opt_seq(config.base_url),
            forall|k: Seq<char>| #[trigger] opt_seq(r.default_headers.lookup(k)) == if k == "HTTP-Referer"@ || k
                == "X-Title"@ {
                opt_seq(config.options.lookup(k))
            } else {
                None
            },
            r.require_api_key == match config.options.lookup("require_api_key"@) {
                Some(v) => v@ != "false"@,
                None => config.provider@ == "openrouter"@,
            },
    {
        let mut default_headers: TextMap<String> = TextMap::new();
        if let Some(v) = config.options.get("HTTP-Referer") {
            default_headers.insert(owned("HTTP-Referer"), v.clone());
        }
        if let Some(v) = config.options.get("X-Title") {
            default_headers.insert(owned("X-Title"), v.clone());
        }
        let require_api_key = match config.options.get("require_api_key") {
            Some(v) => !str_eq(v.as_str(), "false"),
            None => str_eq(config.provider.as_str(), "openrouter"),
        };
        OpenAICompatibleRequestConfig {
            api_key: match &config.api_key {
                Some(k) => Some(k.clone()),
                None => None,
            },
            base_url: match &config.base_url {
                Some(b) => Some(b.clone()),
                None => None,
            },
            default_headers,
            require_api_key,
        }
    }
}

impl Default for OpenAICompatibleRequestConfig {
    fn default() -> (r: Self)
        ensures
            r.api_key is None,
            r.base_url is None,
            r.default_headers.as_map() == Map::<Seq<char>, String>::empty(),
            !r.require_api_key,
    {
        OpenAICompatibleRequestConfig {
            api_key: None,
            base_url: None,
            default_headers: TextMap::new(),
            require_api_key: false,
        }
    }
}

/// What a provider needs before a request is sent: LiteLLM needs a base URL,
/// and a provider that requires a key needs a non-blank one.
pub open spec fn config_check(
    provider: Seq<char>,
    base_url: Option<Seq<char>>,
    api_key: Option<Seq<char>>,
    require_api_key: bool,
) -> Result<(), SDKErrorView> {
    if provider == "litellm"@ && non_empty_opt(base_url) is None {
        Err(provider_error_spec(
            SDKErrorKind::Configuration,
            provider,
            "LiteLLM requires LITELLM_BASE_URL or an explicit base_url"@,
        ))
    } else if require_api_key && non_empty_opt(api_key) is None {
        Err(provider_error_spec(
            SDKErrorKind::Configuration,
            provider,
            if provider == "openrouter"@ {
                "OpenRouter requires OPENROUTER_API_KEY unless require_api_key is explicitly disabled"@
            } else {
                "OpenAI-compatible provider requires an API key"@
            },
        ))
    } else {
        Ok(())
    }
}

fn as_opt_str(o: &Option<String>) -> (r: Option<&str>)
    ensures
        opt_str_view(r) == opt_seq(*o),
{
    match o {
        Some(s) => Some(s.as_str()),
        None => None,
    }
}

/// Checks a configuration before a request is sent.
pub fn validate_config(provider: &str, config: &OpenAICompatibleRequestConfig) -> (r: Result<(), SDKError>)
    ensures
        unit_error_view(r) == config_check(
            provider@,
            opt_seq(config.base_url),
            opt_seq(config.api_key),
            config.require_api_key,
        ),
{
    if str_eq(provider, "litellm") && non_empty_opt_str(as_opt_str(&config.base_url)).is_none() {
        return Err(SDKError::provider(
            SDKErrorKind::Configuration,
            owned("LiteLLM requires LITELLM_BASE_URL or an explicit base_url"),
            Some(owned(provider)),
        ));
    }
    if config.require_api_key && non_empty_opt_str(as_opt_str(&config.api_key)).is_none() {
        let message = if str_eq(provider, "openrouter") {
            "OpenRouter requires OPENROUTER_API_KEY unless require_api_key is explicitly disabled"
        } else {
            "OpenAI-compatible provider requires an API key"
        };
        return Err(SDKError::provider(SDKErrorKind::Configuration, owned(message), Some(owned(provider))));
    }
    Ok(())
}

// ----- warnings -----
pub struct WarningView {
    pub message: Seq<char>,
    pub code: Option<Seq<char>>,
}

impl View for Warning {
    type V = WarningView;

    open spec fn view(&self) -> WarningView {
        WarningView { message: self.message@, code: opt_seq(self.code) }
    }
}

pub open spec fn warnings_view(s: Seq<Warning>) -> Seq<WarningView> {
    s.map_values(|w: Warning| w@)
}

/// A warning about an ignored request feature, with its code.
pub fn unsupported_warning(code: String, message: String) -> (r: Warning)
    ensures
        r@ == (WarningView { message: message@, code: Some(code@) }),
{
    Warning { message, code: Some(code) }
}

/// What makes two warnings the same: the code (empty when absent) and the message.
pub open spec fn warning_key(w: WarningView) -> (Seq<char>, Seq<char>) {
    (
        match w.code {
            Some(c) => c,
            None => Seq::empty(),
        },
        w.message,
    )
}

/// Whether a warning with the same key comes before position `i`.
pub open spec fn seen_before(s: Seq<WarningView>, i: int) -> bool {
    exists|j: int| 0 <= j < i && #[trigger] warning_key(s[j]) == warning_key(s[i])
}

/// The warnings without repeats: each kept where it first occurs.
pub open spec fn dedup_spec(s: Seq<WarningView>) -> Seq<WarningView>
    decreases s.len(),
{
    if s.len() == 0 {
        Seq::empty()
    } else if seen_before(s, s.len() - 1) {
        dedup_spec(s.drop_last())
    } else {
        dedup_spec(s.drop_last()).push(s.last())
    }
}

fn same_key(a: &Warning, b: &Warning) -> (r: bool)
    ensures
        r == (warning_key(a@) == warning_key(b@)),
{
    let ca = match &a.code {
        Some(c) => c.as_str(),
        None => "",
    };
    let cb = match &b.code {
        Some(c) => c.as_str(),
        None => "",
    };
    proof {
        reveal_strlit("");
        assert(""@ =~= Seq::<char>::empty());
        assert(ca@ == warning_key(a@).0);
        assert(cb@ == warning_key(b@).0);
    }
    str_eq(ca, cb) && str_eq(a.message.as_str(), b.message.as_str())
}

/// The warnings without repeats of the same code and message, in order.
pub fn deduplicate_warnings(warnings: Vec<Warning>) -> (r: Vec<Warning>)
    ensures
        warnings_view(r@) == dedup_spec(warnings_view(warnings@)),
{
    let ghost ws = warnings_view(warnings@);
    let mut out: Vec<Warning> = Vec::new();
    let mut i: usize = 0;
    while i < warnings.len()
        invariant
            i <= warnings@.len(),
            ws == warnings_view(warnings@),
            warnings_view(out@) == dedup_spec(ws.subrange(0, i as int)),
        decreases warnings@.len() - i,
    {
        let mut seen = false;
        let mut j: usize = 0;
        while j < i
            invariant
                j <= i < warnings@.len(),
                ws == warnings_view(warnings@),
                seen == exists|m: int| 0 <= m < j && #[trigger] warning_key(ws[m]) == warning_key(ws[i as int]),
            decreases i - j,
        {
            if same_key(&warnings[j], &warnings[i]) {
                seen = true;
            }
            proof {
                if seen {
                    if warning_key(ws[j as int]) == warning_key(ws[i as int]) {
                        assert(0 <= j < j + 1);
                    }
                }
            }
            j = j + 1;
        }
        let ghost before = out@;
        proof {
            let t = ws.subrange(0, i + 1);
            assert(t.drop_last() =~= ws.subrange(0, i as int));
            assert(t.last() == ws[i as int]);
            assert(seen_before(t, i as int) == seen) by {
                if seen {
                    let m = choose|m: int| 0 <= m < i && #[trigger] warning_key(ws[m]) == warning_key(ws[i as int]);
                    assert(t[m] == ws[m]);
                }
                if seen_before(t, i as int) {
                    let m = choose|m: int| 0 <= m < i && #[trigger] warning_key(t[m]) == warning_key(t[i as int]);
                    assert(t[m] == ws[m]);
                }
            }
        }
        if !seen {
            let w = Warning {
                message: warnings[i].message.clone(),
                code: match &warnings[i].code {
                    Some(c) => Some(c.clone()),
                    None => None,
                },
            };
            out.push(w);
            assert(warnings_view(out@) =~= warnings_view(before).push(ws[i as int]));
        }
        i = i + 1;
    }
    assert(ws.subrange(0, ws.len() as int) =~= ws);
    out
}

/// After removing repeats no two warnings share a code and message, every
/// warning given is still represented, and nothing new appears.
pub proof fn lemma_dedup_warnings(s: Seq<WarningView>)
    ensures
        forall|i: int, j: int|
            0 <= i < j < dedup_spec(s).len() ==> warning_key(#[trigger] dedup_spec(s)[i]) != warning_key(
                #[trigger] dedup_spec(s)[j],
            ),
        forall|i: int|
            0 <= i < s.len() ==> exists|j: int|
                0 <= j < dedup_spec(s).len() && #[trigger] warning_key(dedup_spec(s)[j]) == warning_key(
                    #[trigger] s[i],
                ),
        forall|j: int| 0 <= j < dedup_spec(s).len() ==> exists|i: int| 0 <= i < s.len() && s[i] == #[trigger] dedup_spec(s)[j],
    decreases s.len(),
{
    if s.len() > 0 {
        let t = s.drop_last();
        lemma_dedup_warnings(t);
        let d = dedup_spec(t);
        if seen_before(s, s.len() - 1) {
            assert forall|i: int| 0 <= i < s.len() implies exists|j: int|
                0 <= j < dedup_spec(s).len() && #[trigger] warning_key(dedup_spec(s)[j]) == warning_key(#[trigger] s[i]) by {
                if i < s.len() - 1 {
                    assert(s[i] == t[i]);
                } else {
                    let m = choose|m: int| 0 <= m < s.len() - 1 && #[trigger] warning_key(s[m]) == warning_key(s[s.len() - 1]);
                    assert(s[m] == t[m]);
                    let j = choose|j: int| 0 <= j < d.len() && #[trigger] warning_key(d[j]) == warning_key(#[trigger] t[m]);
                    assert(0 <= j < dedup_spec(s).len() && warning_key(dedup_spec(s)[j]) == warning_key(s[i]));
                }
            }
            assert forall|j: int| 0 <= j < dedup_spec(s).len() implies exists|i: int| 0 <= i < s.len() && s[i] == #[trigger] dedup_spec(s)[j] by {
                let i = choose|i: int| 0 <= i < t.len() && t[i] == #[trigger] d[j];
                assert(s[i] == t[i]);
            }
        } else {
            let e = s.last();
            assert(dedup_spec(s) == d.push(e));
            assert forall|j: int| 0 <= j < d.len() implies warning_key(#[trigger] d[j]) != warning_key(e) by {
                let i = choose|i: int| 0 <= i < t.len() && t[i] == #[trigger] d[j];
                assert(s[i] == t[i]);
                if warning_key(d[j]) == warning_key(e) {
                    assert(warning_key(s[i]) == warning_key(s[s.len() - 1]));
                    assert(seen_before(s, s.len() - 1));
                }
            }
            assert forall|i: int, j: int|
                0 <= i < j < dedup_spec(s).len() implies warning_key(#[trigger] dedup_spec(s)[i]) != warning_key(
                #[trigger] dedup_spec(s)[j],
            ) by {
                if j < d.len() {
                    assert(dedup_spec(s)[i] == d[i] && dedup_spec(s)[j] == d[j]);
                } else {
                    assert(dedup_spec(s)[i] == d[i]);
                }
            }
            assert forall|i: int| 0 <= i < s.len() implies exists|j: int|
                0 <= j < dedup_spec(s).len() && #[trigger] warning_key(dedup_spec(s)[j]) == warning_key(#[trigger] s[i]) by {
                if i < s.len() - 1 {
                    assert(s[i] == t[i]);
                    let j = choose|j: int| 0 <= j < d.len() && #[trigger] warning_key(d[j]) == warning_key(#[trigger] t[i]);
                    assert(dedup_spec(s)[j] == d[j]);
                } else {
                    assert(dedup_spec(s)[d.len() as int] == e);
                }
            }
            assert forall|j: int| 0 <= j < dedup_spec(s).len() implies exists|i: int| 0 <= i < s.len() && s[i] == #[trigger] dedup_spec(s)[j] by {
                if j < d.len() {
                    let i = choose|i: int| 0 <= i < t.len() && t[i] == #[trigger] d[j];
                    assert(s[i] == t[i] && dedup_spec(s)[j] == d[j]);
                } else {
                    assert(s[s.len() - 1] == dedup_spec(s)[j]);
                }
            }
        }
    }
}

/// The `response_format` of a Chat Completions request: the same value the
/// Responses API takes.
pub fn chat_response_format(response_format: &ResponseFormat) -> (r: Json)
    ensures
        jv(r) == response_format_spec(*response_format),
{
    openai_response_format(response_format)
}

} // verus!
