//! Provider configuration discovered from environment variables.
use vstd::prelude::*;
use crate::text::{
    ends_with, find_seq_spec, find_vec, chars_of, is_blank_seq, owned, str_ends_with, string_from_chars, trim, trim_end_char, trim_end_char_bound, trim_seq, to_lowercase, unicode_lowercase, non_empty_trimmed,
};
use crate::textmap::{TextMap, text_map_view, opt_text};
use crate::url::{
    append_path_segment_spec, append_url_path_segment, subvec, texts_view, trim_url_path_suffix, trim_url_path_suffix_spec, extend_chars,
};

verus! {

/// Configuration of one provider.
#[derive(Debug)]
pub struct ProviderConfig {
    pub provider: String,
    pub api_key: Option<String>,
    pub base_url: Option<String>,
    pub options: TextMap<String>,
}

/// The texts of a `ProviderConfig`.
pub struct ProviderConfigView {
    pub provider: Seq<char>,
    pub api_key: Option<Seq<char>>,
    pub base_url: Option<Seq<char>>,
    pub options: Map<Seq<char>, Seq<char>>,
}

impl View for ProviderConfig {
    type V = ProviderConfigView;

    open spec fn view(&self) -> ProviderConfigView {
        ProviderConfigView {
            provider: self.provider@,
            api_key: opt_text(self.api_key),
            base_url: opt_text(self.base_url),
            options: text_map_view(self.options),
        }
    }
}

/// The providers found in an environment and the default among them.
#[derive(Debug)]
pub struct ProviderEnvironment {
    pub providers: TextMap<ProviderConfig>,
    pub default_provider: Option<String>,
}

/// The provider map as texts.
pub open spec fn providers_view(m: TextMap<ProviderConfig>) -> Map<Seq<char>, ProviderConfigView> {
    m.as_map().map_values(|c: ProviderConfig| c@)
}

/// An environment variable's trimmed value, when it is not blank.
pub open spec fn env_value_spec(env: TextMap<String>, key: Seq<char>) -> Option<Seq<char>> {
    match env.lookup(key) {
        Some(v) => if is_blank_seq(v@) { None } else { Some(trim_seq(v@)) },
        None => None,
    }
}

/// `options` with `option_key` set to the environment value of `key`, when present.
pub open spec fn option_if_present(
    options: Map<Seq<char>, Seq<char>>,
    env: TextMap<String>,
    key: Seq<char>,
    option_key: Seq<char>,
) -> Map<Seq<char>, Seq<char>> {
    match env_value_spec(env, key) {
        Some(v) => options.insert(option_key, v),
        None => options,
    }
}

/// `provider.trim().to_lowercase()`.
pub open spec fn normalize_provider_spec(p: Seq<char>) -> Seq<char> {
    unicode_lowercase(trim_seq(p))
}

pub open spec fn no_suffixes() -> Seq<Seq<char>> {
    Seq::empty()
}

/// The OpenAI base URL: trimmed, and ending in `/v1` unless it already ends
/// in `/v1` or `/responses`.
pub open spec fn normalize_openai_base_url_spec(base_url: Option<Seq<char>>) -> Seq<char> {
    let base = match base_url {
        Some(b) => b,
        None => "https://api.openai.com"@,
    };
    let n = trim_url_path_suffix_spec(base, no_suffixes());
    if !ends_with(n, "/v1"@) && !ends_with(n, "/responses"@) {
        append_path_segment_spec(n, "v1"@, no_suffixes())
    } else {
        n
    }
}

/// The Anthropic base URL: without a `/messages` suffix and ending in `/v1`.
pub open spec fn normalize_anthropic_base_url_spec(base_url: Seq<char>) -> Seq<char> {
    let n = trim_url_path_suffix_spec(base_url, seq!["/messages"@]);
    if !ends_with(n, "/v1"@) {
        append_path_segment_spec(n, "v1"@, no_suffixes())
    } else {
        n
    }
}

/// `str::trim_end_matches` with a non-empty text pattern.
pub open spec fn trim_end_pattern(s: Seq<char>, p: Seq<char>) -> Seq<char>
    decreases s.len(),
{
    if p.len() > 0 && ends_with(s, p) {
        trim_end_pattern(s.subrange(0, s.len() - p.len()), p)
    } else {
        s
    }
}

/// The Gemini base URL: without a generate-content suffix or a `/models/…`
/// tail, and ending in `/v1beta` (a `/v1` ending is turned into `/v1beta`).
pub open spec fn normalize_gemini_base_url_spec(base_url: Option<Seq<char>>) -> Seq<char> {
    let base = match base_url {
        Some(b) => b,
        None => "https://generativelanguage.googleapis.com"@,
    };
    let n1 = trim_url_path_suffix_spec(base, seq!["/generateContent"@, "/streamGenerateContent"@]);
    let n2 = match find_seq_spec(n1, "/models/"@) {
        Some(i) => trim_end_char(n1.subrange(0, i), '/'),
        None => n1,
    };
    if ends_with(n2, "/v1beta"@) {
        n2
    } else if ends_with(n2, "/v1"@) {
        trim_end_pattern(n2, "v1"@) + "v1beta"@
    } else {
        append_path_segment_spec(n2, "v1beta"@, no_suffixes())
    }
}

/// An OpenAI-compatible base URL: without a chat-completions or responses
/// suffix and ending in `/v1`.
pub open spec fn normalize_openai_compatible_base_url_spec(
    base_url: Option<Seq<char>>,
    default_base_url: Seq<char>,
) -> Seq<char> {
    let base = match base_url {
        Some(b) => b,
        None => default_base_url,
    };
    let n = trim_url_path_suffix_spec(base, seq!["/chat/completions"@, "/responses"@]);
    if !ends_with(n, "/v1"@) {
        append_path_segment_spec(n, "v1"@, no_suffixes())
    } else {
        n
    }
}

/// The providers that an environment configures, by provider name.
pub open spec fn expected_providers(env: TextMap<String>) -> Map<Seq<char>, ProviderConfigView> {
    let m0 = Map::<Seq<char>, ProviderConfigView>::empty();
    let m1 = match env_value_spec(env, "OPENAI_API_KEY"@) {
        Some(key) => m0.insert(
            "openai"@,
            ProviderConfigView {
                provider: "openai"@,
                api_key: Some(key),
                base_url: Some(normalize_openai_base_url_spec(env_value_spec(env, "OPENAI_BASE_URL"@))),
                options: option_if_present(
                    option_if_present(Map::empty(), env, "OPENAI_ORG_ID"@, "organization"@),
                    env,
                    "OPENAI_PROJECT_ID"@,
                    "project"@,
                ),
            },
        ),
        None => m0,
    };
    let m2 = match env_value_spec(env, "ANTHROPIC_API_KEY"@) {
        Some(key) => m1.insert(
            "anthropic"@,
            ProviderConfigView {
                provider: "anthropic"@,
                api_key: Some(key),
                base_url: match env_value_spec(env, "ANTHROPIC_BASE_URL"@) {
                    Some(b) => Some(normalize_anthropic_base_url_spec(b)),
                    None => None,
                },
                options: Map::empty(),
            },
        ),
        None => m1,
    };
    let gemini_key = match env_value_spec(env, "GEMINI_API_KEY"@) {
        Some(k) => Some(k),
        None => env_value_spec(env, "GOOGLE_API_KEY"@),
    };
    let m3 = match gemini_key {
        Some(key) => m2.insert(
            "gemini"@,
            ProviderConfigView {
                provider: "gemini"@,
                api_key: Some(key),
                base_url: Some(normalize_gemini_base_url_spec(env_value_spec(env, "GEMINI_BASE_URL"@))),
                options: Map::empty(),
            },
        ),
        None => m2,
    };
    let m4 = match env_value_spec(env, "OPENROUTER_API_KEY"@) {
        Some(key) => m3.insert(
            "openrouter"@,
            ProviderConfigView {
                provider: "openrouter"@,
                api_key: Some(key),
                base_url: Some(
                    normalize_openai_compatible_base_url_spec(
                        env_value_spec(env, "OPENROUTER_BASE_URL"@),
                        "https://openrouter.ai/api/v1"@,
                    ),
                ),
                options: option_if_present(
                    option_if_present(Map::empty(), env, "OPENROUTER_HTTP_REFERER"@, "HTTP-Referer"@),
                    env,
                    "OPENROUTER_TITLE"@,
                    "X-Title"@,
                ),
            },
        ),
        None => m3,
    };
    let m5 = match env_value_spec(env, "LITELLM_BASE_URL"@) {
        Some(base) => m4.insert(
            "litellm"@,
            ProviderConfigView {
                provider: "litellm"@,
                api_key: env_value_spec(env, "LITELLM_API_KEY"@),
                base_url: Some(
                    normalize_openai_compatible_base_url_spec(Some(base), "https://api.openai.com"@),
                ),
                options: Map::empty(),
            },
        ),
        None => m4,
    };
    match env_value_spec(env, "OPENAI_COMPATIBLE_BASE_URL"@) {
        Some(base) => m5.insert(
            "openai_compatible"@,
            ProviderConfigView {
                provider: "openai_compatible"@,
                api_key: env_value_spec(env, "OPENAI_COMPATIBLE_API_KEY"@),
                base_url: Some(
                    normalize_openai_compatible_base_url_spec(Some(base), "https://api.openai.com"@),
                ),
                options: Map::empty().insert("require_api_key"@, "false"@),
            },
        ),
        None => m5,
    }
}

/// The first provider, in registration order, that the map holds.
pub open spec fn first_registered(m: Map<Seq<char>, ProviderConfigView>) -> Option<Seq<char>> {
    if m.contains_key("openai"@) {
        Some("openai"@)
    } else if m.contains_key("anthropic"@) {
        Some("anthropic"@)
    } else if m.contains_key("gemini"@) {
        Some("gemini"@)
    } else if m.contains_key("openrouter"@) {
        Some("openrouter"@)
    } else if m.contains_key("litellm"@) {
        Some("litellm"@)
    } else if m.contains_key("openai_compatible"@) {
        Some("openai_compatible"@)
    } else {
        None
    }
}

/// The default provider: the explicit one, normalised, or else the first
/// registered provider.
pub open spec fn expected_default_provider(
    env: TextMap<String>,
    explicit_default: Option<Seq<char>>,
) -> Option<Seq<char>> {
    match explicit_default {
        Some(d) => Some(normalize_provider_spec(d)),
        None => first_registered(expected_providers(env)),
    }
}

/// The trimmed value of an environment variable, when it is not blank.
pub fn env_value(env: &TextMap<String>, key: &str) -> (r: Option<String>)
    ensures
        opt_text(r) == env_value_spec(*env, key@),
{
    match env.get(key) {
        Some(value) => non_empty_trimmed(value.as_str()),
        None => None,
    }
}

/// Sets `option_key` in `options` to the value of `key`, when present.
pub fn insert_if_present(options: &mut TextMap<String>, env: &TextMap<String>, key: &str, option_key: &str)
    ensures
        text_map_view(*final(options)) == option_if_present(text_map_view(*old(options)), *env, key@, option_key@),
{
    if let Some(value) = env_value(env, key) {
        let k = owned(option_key);
        let ghost vv = value@;
        options.insert(k, value);
        proof {
            assert(text_map_view(*options) =~= text_map_view(*old(options)).insert(option_key@, vv));
        }
    } else {
        assert(text_map_view(*options) =~= text_map_view(*old(options)));
    }
}

/// `provider.trim().to_lowercase()`.
pub fn normalize_provider(provider: &str) -> (r: String)
    ensures
        r@ == normalize_provider_spec(provider@),
{
    let t = trim(provider);
    to_lowercase(t.as_str())
}

pub fn normalize_openai_base_url(base_url: Option<String>) -> (r: String)
    ensures
        r@ == normalize_openai_base_url_spec(opt_text(base_url)),
{
    let base = match base_url {
        Some(b) => b,
        None => owned("https://api.openai.com"),
    };
    let none: [&str; 0] = [];
    let normalized = trim_url_path_suffix(base.as_str(), &none);
    assert(texts_view(none@) =~= no_suffixes());
    if !str_ends_with(normalized.as_str(), "/v1") && !str_ends_with(normalized.as_str(), "/responses") {
        append_url_path_segment(normalized.as_str(), "v1")
    } else {
        normalized
    }
}

pub fn normalize_anthropic_base_url(base_url: String) -> (r: String)
    ensures
        r@ == normalize_anthropic_base_url_spec(base_url@),
{
    let suffixes: [&str; 1] = ["/messages"];
    let normalized = trim_url_path_suffix(base_url.as_str(), &suffixes);
    assert(texts_view(suffixes@) =~= seq!["/messages"@]);
    if !str_ends_with(normalized.as_str(), "/v1") {
        append_url_path_segment(normalized.as_str(), "v1")
    } else {
        normalized
    }
}

/// `s.trim_end_matches(p)` for a non-empty pattern `p`.
pub fn trim_end_str(s: &str, p: &str) -> (r: String)
    ensures
        r@ == trim_end_pattern(s@, p@),
{
    let v = chars_of(s);
    let pv = chars_of(p);
    let mut end: usize = v.len();
    if pv.len() == 0 {
        return string_from_chars(&v);
    }
    assert(v@.subrange(0, end as int) =~= v@);
    while end >= pv.len() && crate::text::occurs_at_vec(&v, &pv, end - pv.len())
        invariant
            end <= v@.len(),
            pv@ == p@,
            pv@.len() > 0,
            trim_end_pattern(s@, p@) == trim_end_pattern(v@.subrange(0, end as int), p@),
        decreases end,
    {
        proof {
            let w = v@.subrange(0, end as int);
            assert(w.subrange(w.len() - pv@.len(), w.len() as int) =~= v@.subrange(end - pv@.len(), end as int));
            assert(w.subrange(0, w.len() - pv@.len()) =~= v@.subrange(0, end - pv@.len()));
        }
        end = end - pv.len();
    }
    proof {
        let w = v@.subrange(0, end as int);
        if end >= pv@.len() {
            assert(w.subrange(w.len() - pv@.len(), w.len() as int) =~= v@.subrange(end - pv@.len(), end as int));
        }
    }
    let out = subvec(&v, 0, end);
    string_from_chars(&out)
}

pub fn normalize_gemini_base_url(base_url: Option<String>) -> (r: String)
    ensures
        r@ == normalize_gemini_base_url_spec(opt_text(base_url)),
{
    let base = match base_url {
        Some(b) => b,
        None => owned("https://generativelanguage.googleapis.com"),
    };
    let suffixes: [&str; 2] = ["/generateContent", "/streamGenerateContent"];
    let n1 = trim_url_path_suffix(base.as_str(), &suffixes);
    assert(texts_view(suffixes@) =~= seq!["/generateContent"@, "/streamGenerateContent"@]);
    let v1 = chars_of(n1.as_str());
    let marker = chars_of("/models/");
    let n2 = match find_vec(&v1, &marker) {
        Some(index) => {
            proof { crate::text::lemma_find_seq_bounds(v1@, marker@); }
            let end = trim_end_char_bound(&v1, index, '/');
            let cut = subvec(&v1, 0, end);
            string_from_chars(&cut)
        },
        None => n1,
    };
    if str_ends_with(n2.as_str(), "/v1beta") {
        n2
    } else if str_ends_with(n2.as_str(), "/v1") {
        let head = trim_end_str(n2.as_str(), "v1");
        let mut out = chars_of(head.as_str());
        let tail = chars_of("v1beta");
        extend_chars(&mut out, &tail);
        string_from_chars(&out)
    } else {
        append_url_path_segment(n2.as_str(), "v1beta")
    }
}

pub fn normalize_openai_compatible_base_url(base_url: Option<String>, default_base_url: &str) -> (r: String)
    ensures
        r@ == normalize_openai_compatible_base_url_spec(opt_text(base_url), default_base_url@),
{
    let base = match base_url {
        Some(b) => b,
        None => owned(default_base_url),
    };
    let suffixes: [&str; 2] = ["/chat/completions", "/responses"];
    let normalized = trim_url_path_suffix(base.as_str(), &suffixes);
    assert(texts_view(suffixes@) =~= seq!["/chat/completions"@, "/responses"@]);
    if !str_ends_with(normalized.as_str(), "/v1") {
        append_url_path_segment(normalized.as_str(), "v1")
    } else {
        normalized
    }
}

/// The text of an optional string slice.
pub open spec fn opt_str(o: Option<&str>) -> Option<Seq<char>> {
    match o {
        Some(s) => Some(s@),
        None => None,
    }
}

fn new_options() -> (m: TextMap<String>)
    ensures
        text_map_view(m) == Map::<Seq<char>, Seq<char>>::empty(),
{
    let m = TextMap::new();
    assert(text_map_view(m) =~= Map::<Seq<char>, Seq<char>>::empty());
    m
}

fn insert_provider(
    providers: &mut TextMap<ProviderConfig>,
    name: &str,
    config: ProviderConfig,
)
    ensures
        providers_view(*final(providers)) == providers_view(*old(providers)).insert(name@, config@),
{
    let ghost cv = config@;
    providers.insert(owned(name), config);
    assert(providers_view(*providers) =~= providers_view(*old(providers)).insert(name@, cv));
}

impl ProviderEnvironment {
    /// Reads the provider configuration out of an environment map.
    pub fn from_env_map(env: &TextMap<String>, explicit_default: Option<&str>) -> (r: Self)
        ensures
            providers_view(r.providers) == expected_providers(*env),
            opt_text(r.default_provider) == expected_default_provider(*env, opt_str(explicit_default)),
    {
        let mut providers: TextMap<ProviderConfig> = TextMap::new();
        assert(providers_view(providers) =~= Map::<Seq<char>, ProviderConfigView>::empty());
        let ghost m0 = providers_view(providers);

        if let Some(api_key) = env_value(env, "OPENAI_API_KEY") {
            let mut options = new_options();
            insert_if_present(&mut options, env, "OPENAI_ORG_ID", "organization");
            insert_if_present(&mut options, env, "OPENAI_PROJECT_ID", "project");
            let base = normalize_openai_base_url(env_value(env, "OPENAI_BASE_URL"));
            let config = ProviderConfig {
                provider: owned("openai"),
                api_key: Some(api_key),
                base_url: Some(base),
                options,
            };
            insert_provider(&mut providers, "openai", config);
        }
        let ghost m1 = providers_view(providers);

        if let Some(api_key) = env_value(env, "ANTHROPIC_API_KEY") {
            let base_url = match env_value(env, "ANTHROPIC_BASE_URL") {
                Some(b) => Some(normalize_anthropic_base_url(b)),
                None => None,
            };
            let config = ProviderConfig {
                provider: owned("anthropic"),
                api_key: Some(api_key),
                base_url,
                options: new_options(),
            };
            insert_provider(&mut providers, "anthropic", config);
        }
        let ghost m2 = providers_view(providers);

        let gemini_api_key = match env_value(env, "GEMINI_API_KEY") {
            Some(k) => Some(k),
            None => env_value(env, "GOOGLE_API_KEY"),
        };
        if let Some(api_key) = gemini_api_key {
            let base = normalize_gemini_base_url(env_value(env, "GEMINI_BASE_URL"));
            let config = ProviderConfig {
                provider: owned("gemini"),
                api_key: Some(api_key),
                base_url: Some(base),
                options: new_options(),
            };
            insert_provider(&mut providers, "gemini", config);
        }
        let ghost m3 = providers_view(providers);

        if let Some(api_key) = env_value(env, "OPENROUTER_API_KEY") {
            let mut options = new_options();
            insert_if_present(&mut options, env, "OPENROUTER_HTTP_REFERER", "HTTP-Referer");
            insert_if_present(&mut options, env, "OPENROUTER_TITLE", "X-Title");
            let base = normalize_openai_compatible_base_url(
                env_value(env, "OPENROUTER_BASE_URL"),
                "https://openrouter.ai/api/v1",
            );
            let config = ProviderConfig {
                provider: owned("openrouter"),
                api_key: Some(api_key),
                base_url: Some(base),
                options,
            };
            insert_provider(&mut providers, "openrouter", config);
        }
        let ghost m4 = providers_view(providers);

        if let Some(base_url) = env_value(env, "LITELLM_BASE_URL") {
            let base = normalize_openai_compatible_base_url(Some(base_url), "https://api.openai.com");
            let config = ProviderConfig {
                provider: owned("litellm"),
                api_key: env_value(env, "LITELLM_API_KEY"),
                base_url: Some(base),
                options: new_options(),
            };
            insert_provider(&mut providers, "litellm", config);
        }
        let ghost m5 = providers_view(providers);

        if let Some(base_url) = env_value(env, "OPENAI_COMPATIBLE_BASE_URL") {
            let mut options = new_options();
            options.insert(owned("require_api_key"), owned("false"));
            assert(text_map_view(options) =~= Map::<Seq<char>, Seq<char>>::empty().insert(
                "require_api_key"@,
                "false"@,
            ));
            let base = normalize_openai_compatible_base_url(Some(base_url), "https://api.openai.com");
            let config = ProviderConfig {
                provider: owned("openai_compatible"),
                api_key: env_value(env, "OPENAI_COMPATIBLE_API_KEY"),
                base_url: Some(base),
                options,
            };
            insert_provider(&mut providers, "openai_compatible", config);
        }
        assert(providers_view(providers) =~= expected_providers(*env));

        let default_provider = match explicit_default {
            Some(d) => Some(normalize_provider(d)),
            None => {
                proof {
                    let pv = providers_view(providers);
                    assert(forall|k: Seq<char>| pv.contains_key(k) <==> providers.as_map().contains_key(k));
                }
                if providers.contains_key("openai") {
                    Some(owned("openai"))
                } else if providers.contains_key("anthropic") {
                    Some(owned("anthropic"))
                } else if providers.contains_key("gemini") {
                    Some(owned("gemini"))
                } else if providers.contains_key("openrouter") {
                    Some(owned("openrouter"))
                } else if providers.contains_key("litellm") {
                    Some(owned("litellm"))
                } else if providers.contains_key("openai_compatible") {
                    Some(owned("openai_compatible"))
                } else {
                    None
                }
            },
        };
        ProviderEnvironment { providers, default_provider }
    }
}

} // verus!
