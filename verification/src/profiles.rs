//! LLM profiles: named OpenAI-compatible endpoints declared in
//! `llm-profiles.toml`, their validation, and lookup by id.
use vstd::prelude::*;

use crate::text::{
    chars_of, concat2, concat3, debug_quoted, debug_text, opt_seq, owned, str_eq, to_lowercase, trim, trim_seq, unicode_lowercase,
};
use crate::textmap::TextMap;

verus! {

pub const PROFILE_CONFIG_FILE: &'static str = "llm-profiles.toml";

/// A configuration problem, with its message.
#[derive(Debug)]
pub struct LlmProfileConfigurationError {
    message: String,
}

impl LlmProfileConfigurationError {
    pub closed spec fn text(&self) -> Seq<char> {
        self.message@
    }

    pub fn new(message: String) -> (r: Self)
        ensures
            r.text() == message@,
    {
        LlmProfileConfigurationError { message }
    }

    /// The message (what the error displays).
    pub fn message(&self) -> (r: &str)
        ensures
            r@ == self.text(),
    {
        self.message.as_str()
    }
}

/// A configured profile.
#[derive(Debug)]
pub struct LlmProfile {
    pub id: String,
    pub provider: String,
    pub base_url: String,
    pub models: Vec<String>,
    pub label: Option<String>,
    pub api_key_env: Option<String>,
    pub default_model: Option<String>,
}

pub struct LlmProfileView {
    pub id: Seq<char>,
    pub provider: Seq<char>,
    pub base_url: Seq<char>,
    pub models: Seq<Seq<char>>,
    pub label: Option<Seq<char>>,
    pub api_key_env: Option<Seq<char>>,
    pub default_model: Option<Seq<char>>,
}

pub open spec fn strings_view(v: Seq<String>) -> Seq<Seq<char>> {
    v.map_values(|s: String| s@)
}

impl View for LlmProfile {
    type V = LlmProfileView;

    open spec fn view(&self) -> LlmProfileView {
        LlmProfileView {
            id: self.id@,
            provider: self.provider@,
            base_url: self.base_url@,
            models: strings_view(self.models@),
            label: opt_seq(self.label),
            api_key_env: opt_seq(self.api_key_env),
            default_model: opt_seq(self.default_model),
        }
    }
}

/// Where the process environment is read: implemented over a map of
/// variables here, and over the real environment by the application.
pub trait LlmProfileEnvironment {
    fn get_env(&self, key: &str) -> Option<String>;
}

impl LlmProfileEnvironment for TextMap<String> {
    fn get_env(&self, key: &str) -> (r: Option<String>)
        ensures
            opt_seq(r) == match self.lookup(key@) {
                Some(v) => Some(v@),
                None => None,
            },
    {
        match self.get(key) {
            Some(v) => Some(v.clone()),
            None => None,
        }
    }
}

/// Whether a profile can be used, given the value of its API key variable.
pub open spec fn configured_spec(api_key_env: Option<Seq<char>>, key_value: Option<Seq<char>>) -> bool {
    match api_key_env {
        None => true,
        Some(_) => match key_value {
            Some(v) => trim_seq(v).len() > 0,
            None => false,
        },
    }
}

impl LlmProfile {
    /// Whether the profile can be used, given the value its API key variable
    /// has (`None` when unset): a profile without a key variable always can.
    pub fn configured_given(&self, key_value: Option<&str>) -> (r: bool)
        ensures
            r == configured_spec(opt_seq(self.api_key_env), match key_value {
                Some(v) => Some(v@),
                None => None,
            }),
    {
        match &self.api_key_env {
            None => true,
            Some(_) => match key_value {
                Some(v) => {
                    let t = trim(v);
                    t.unicode_len() > 0
                },
                None => false,
            },
        }
    }

    /// Whether the profile can be used: its API key variable, if it names
    /// one, is set in `env` to a non-blank value. What `env` holds is its own
    /// affair; a profile without a key variable is configured whatever it holds.
    pub fn configured<E: LlmProfileEnvironment>(&self, env: &E) -> (r: bool)
        ensures
            self.api_key_env is None ==> r,
    {
        match &self.api_key_env {
            None => true,
            Some(key) => {
                let value = env.get_env(key.as_str());
                match &value {
                    Some(v) => self.configured_given(Some(v.as_str())),
                    None => self.configured_given(None),
                }
            },
        }
    }
}

/// The route a client keeps for a profile.
#[derive(Debug)]
pub struct LlmProfileRoute {
    pub id: String,
    pub provider: String,
    pub default_model: Option<String>,
}

impl LlmProfileRoute {
    /// The route as the active profile of a call.
    pub fn active_profile(&self) -> (r: crate::resolution::ActiveLlmProfile)
        ensures
            r@.provider == self.provider@,
            r@.default_model == opt_seq(self.default_model),
    {
        let dm = match &self.default_model {
            Some(m) => Some(m.clone()),
            None => None,
        };
        crate::resolution::ActiveLlmProfile::new(self.provider.clone(), dm)
    }
}

// ----- where the file is -----
/// The directory profiles are read from.
#[derive(Debug)]
pub struct LlmProfileConfigRoot {
    config_dir: String,
}

impl LlmProfileConfigRoot {
    pub closed spec fn dir(&self) -> Seq<char> {
        self.config_dir@
    }

    pub fn new(config_dir: String) -> (r: Self)
        ensures
            r.dir() == config_dir@,
    {
        LlmProfileConfigRoot { config_dir }
    }

    pub fn config_dir(&self) -> (r: &str)
        ensures
            r@ == self.dir(),
    {
        self.config_dir.as_str()
    }
}

/// `Path::join` of a relative file name onto a directory, with `/` as the
/// separator: none is added after an empty directory or one ending in `/`.
pub open spec fn path_join(dir: Seq<char>, file: Seq<char>) -> Seq<char> {
    if dir.len() == 0 || dir.last() == '/' {
        dir + file
    } else {
        dir + seq!['/'] + file
    }
}

/// The path of the profile file in a configuration directory.
pub fn llm_profiles_path(config_dir: &str) -> (r: String)
    ensures
        r@ == path_join(config_dir@, PROFILE_CONFIG_FILE@),
{
    let d = chars_of(config_dir);
    if d.len() == 0 || d[d.len() - 1] == '/' {
        concat2(config_dir, PROFILE_CONFIG_FILE)
    } else {
        proof {
            reveal_strlit("/");
        }
        concat3(config_dir, "/", PROFILE_CONFIG_FILE)
    }
}

// ----- reading the configuration -----
/// A value of the profile file, as far as profiles read it: strings, arrays
/// and tables; numbers, booleans and dates are all `Other`.
#[derive(Debug)]
pub enum ConfigValue {
    Text(String),
    Array(Vec<ConfigValue>),
    Table(Vec<(String, ConfigValue)>),
    Other,
}

/// The outcome of parsing a TOML document with `str::parse::<toml::Table>`:
/// the top-level table, keys in order, or the parser's message.
pub uninterp spec fn toml_parse_outcome(text: Seq<char>) -> Result<Seq<(String, ConfigValue)>, Seq<char>>;

/// `toml::map::Map` (a TOML table is a `Map<String, toml::Value>`), which
/// Verus sees as opaque.
#[verifier::external_type_specification]
#[verifier::external_body]
#[verifier::reject_recursive_types(K)]
#[verifier::reject_recursive_types(V)]
pub struct ExTomlMap<K, V>(toml::map::Map<K, V>);

/// `toml::Value`, which Verus sees as opaque.
#[verifier::external_type_specification]
#[verifier::external_body]
pub struct ExTomlValue(toml::Value);

/// Converts a parsed TOML value into the library's model, one node for one
/// node.
#[verifier::external_body]
fn config_value_from_toml(v: &toml::Value) -> ConfigValue {
    match v {
        toml::Value::String(s) => ConfigValue::Text(s.clone()),
        toml::Value::Array(items) => ConfigValue::Array(items.iter().map(config_value_from_toml).collect()),
        toml::Value::Table(t) => ConfigValue::Table(config_members_from_toml(t)),
        _ => ConfigValue::Other,
    }
}

/// Converts the members of a parsed TOML table, in the table's order.
#[verifier::external_body]
fn config_members_from_toml(t: &toml::value::Table) -> Vec<(String, ConfigValue)> {
    t.iter().map(|(k, v)| (k.clone(), config_value_from_toml(v))).collect()
}

/// Wraps `str::parse::<toml::Table>`, which reads a TOML document. The
/// outcome depends on the text alone and is named `toml_parse_outcome`; the
/// grammar and the wording of errors are the `toml` crate's.
#[verifier::external_body]
pub fn parse_config_document(text: &str) -> (r: Result<Vec<(String, ConfigValue)>, String>)
    ensures
        match r {
            Ok(m) => toml_parse_outcome(text@) == Ok::<Seq<(String, ConfigValue)>, Seq<char>>(m@),
            Err(e) => toml_parse_outcome(text@) == Err::<Seq<(String, ConfigValue)>, Seq<char>>(e@),
        },
{
    match text.parse::<toml::value::Table>() {
        Ok(t) => Ok(config_members_from_toml(&t)),
        Err(e) => Err(e.to_string()),
    }
}

/// The value of the first member named `key`.
pub open spec fn config_get(members: Seq<(String, ConfigValue)>, key: Seq<char>) -> Option<ConfigValue>
    decreases members.len(),
{
    if members.len() == 0 {
        None
    } else if members[0].0@ == key {
        Some(members[0].1)
    } else {
        config_get(members.drop_first(), key)
    }
}

fn config_lookup<'a>(members: &'a Vec<(String, ConfigValue)>, key: &str) -> (r: Option<&'a ConfigValue>)
    ensures
        match r {
            Some(v) => config_get(members@, key@) == Some(*v),
            None => config_get(members@, key@) is None,
        },
{
    let mut i: usize = 0;
    assert(members@.subrange(0, members@.len() as int) =~= members@);
    while i < members.len()
        invariant
            i <= members@.len(),
            config_get(members@, key@) == config_get(members@.subrange(i as int, members@.len() as int), key@),
        decreases members@.len() - i,
    {
        let ghost rest = members@.subrange(i as int, members@.len() as int);
        assert(rest[0] == members@[i as int]);
        assert(rest.drop_first() =~= members@.subrange(i + 1, members@.len() as int));
        if str_eq(members[i].0.as_str(), key) {
            return Some(&members[i].1);
        }
        i = i + 1;
    }
    None
}

/// A required text: trimmed, and not blank.
pub open spec fn require_text_spec(value: Seq<char>, label: Seq<char>) -> Result<Seq<char>, Seq<char>> {
    if trim_seq(value).len() == 0 {
        Err(label + " is required."@)
    } else {
        Ok(trim_seq(value))
    }
}

/// A required text value: a string, trimmed, and not blank.
pub open spec fn require_value_spec(v: Option<ConfigValue>, label: Seq<char>) -> Result<Seq<char>, Seq<char>> {
    match v {
        Some(ConfigValue::Text(s)) => require_text_spec(s@, label),
        _ => Err(label + " is required."@),
    }
}

/// An optional text value: absent or blank is `None`; a value that is not a
/// string is an error.
pub open spec fn optional_text_spec(v: Option<ConfigValue>) -> Result<Option<Seq<char>>, Seq<char>> {
    match v {
        None => Ok(None),
        Some(ConfigValue::Text(s)) => if trim_seq(s@).len() == 0 {
            Ok(None)
        } else {
            Ok(Some(trim_seq(s@)))
        },
        Some(_) => Err("LLM profile text values must be strings."@),
    }
}

pub open spec fn text_result_view(r: Result<String, LlmProfileConfigurationError>) -> Result<Seq<char>, Seq<char>> {
    match r {
        Ok(s) => Ok(s@),
        Err(e) => Err(e.text()),
    }
}

fn config_error(message: String) -> (r: LlmProfileConfigurationError)
    ensures
        r.text() == message@,
{
    LlmProfileConfigurationError::new(message)
}

/// A required text: trimmed, and not blank.
pub fn require_non_empty_text(value: &str, label: &str) -> (r: Result<String, LlmProfileConfigurationError>)
    ensures
        text_result_view(r) == require_text_spec(value@, label@),
{
    let t = trim(value);
    if t.unicode_len() == 0 {
        Err(config_error(concat2(label, " is required.")))
    } else {
        Ok(t)
    }
}

/// A required text value: a string, trimmed, and not blank.
pub fn require_non_empty_value(value: Option<&ConfigValue>, label: &str) -> (r: Result<String, LlmProfileConfigurationError>)
    ensures
        text_result_view(r) == require_value_spec(match value {
            Some(v) => Some(*v),
            None => None,
        }, label@),
{
    match value {
        Some(ConfigValue::Text(s)) => require_non_empty_text(s.as_str(), label),
        _ => Err(config_error(concat2(label, " is required."))),
    }
}

pub open spec fn opt_text_result_view(r: Result<Option<String>, LlmProfileConfigurationError>) -> Result<Option<Seq<char>>, Seq<char>> {
    match r {
        Ok(o) => Ok(opt_seq(o)),
        Err(e) => Err(e.text()),
    }
}

/// An optional text value: absent or blank is `None`.
pub fn optional_text(value: Option<&ConfigValue>) -> (r: Result<Option<String>, LlmProfileConfigurationError>)
    ensures
        opt_text_result_view(r) == optional_text_spec(match value {
            Some(v) => Some(*v),
            None => None,
        }),
{
    match value {
        None => Ok(None),
        Some(ConfigValue::Text(s)) => {
            let t = trim(s.as_str());
            if t.unicode_len() == 0 {
                Ok(None)
            } else {
                Ok(Some(t))
            }
        },
        Some(_) => Err(config_error(owned("LLM profile text values must be strings."))),
    }
}

/// The label of a profile's field in messages: `LLM profile '<id>' <field>`.
pub open spec fn field_label(id: Seq<char>, field: Seq<char>) -> Seq<char> {
    "LLM profile '"@ + id + "' "@ + field
}

/// The models of a profile, each a required text, first error first.
pub open spec fn models_spec(items: Seq<ConfigValue>, id: Seq<char>) -> Result<Seq<Seq<char>>, Seq<char>>
    decreases items.len(),
{
    if items.len() == 0 {
        Ok(Seq::empty())
    } else {
        match require_value_spec(Some(items[0]), field_label(id, "model"@)) {
            Err(e) => Err(e),
            Ok(m) => match models_spec(items.drop_first(), id) {
                Err(e) => Err(e),
                Ok(ms) => Ok(seq![m] + ms),
            },
        }
    }
}

pub open spec fn prepend_models(acc: Seq<Seq<char>>, r: Result<Seq<Seq<char>>, Seq<char>>) -> Result<Seq<Seq<char>>, Seq<char>> {
    match r {
        Err(e) => Err(e),
        Ok(ms) => Ok(acc + ms),
    }
}

/// The profile declared by the table `raw` under the id `id`.
pub open spec fn parse_profile_spec(id: Seq<char>, raw: Seq<(String, ConfigValue)>) -> Result<LlmProfileView, Seq<char>> {
    match require_value_spec(config_get(raw, "provider"@), field_label(id, "provider"@)) {
        Err(e) => Err(e),
        Ok(p0) => {
            let provider = unicode_lowercase(p0);
            if provider != "openai_compatible"@ {
                Err(field_label(id, "has unsupported provider '"@) + provider
                    + "'; supported providers: openai_compatible."@)
            } else {
                match require_value_spec(config_get(raw, "base_url"@), field_label(id, "base_url"@)) {
                    Err(e) => Err(e),
                    Ok(base_url) => match config_get(raw, "models"@) {
                        Some(ConfigValue::Array(items)) => match models_spec(items@, id) {
                            Err(e) => Err(e),
                            Ok(models) => if models.len() == 0 {
                                Err(field_label(id, "must declare at least one model."@))
                            } else {
                                match optional_text_spec(config_get(raw, "default_model"@)) {
                                    Err(e) => Err(e),
                                    Ok(default_model) => if default_model matches Some(d) && !models.contains(d) {
                                        Err(field_label(id, "default_model '"@) + default_model->0
                                            + "' is not listed in models."@)
                                    } else {
                                        match optional_text_spec(config_get(raw, "label"@)) {
                                            Err(e) => Err(e),
                                            Ok(label) => match optional_text_spec(config_get(raw, "api_key_env"@)) {
                                                Err(e) => Err(e),
                                                Ok(api_key_env) => Ok(
                                                    LlmProfileView {
                                                        id,
                                                        provider,
                                                        base_url,
                                                        models,
                                                        label,
                                                        api_key_env,
                                                        default_model,
                                                    },
                                                ),
                                            },
                                        }
                                    },
                                }
                            },
                        },
                        _ => Err(field_label(id, "models must be a non-empty list."@)),
                    },
                }
            }
        },
    }
}

pub open spec fn profile_result_view(r: Result<LlmProfile, LlmProfileConfigurationError>) -> Result<LlmProfileView, Seq<char>> {
    match r {
        Ok(p) => Ok(p@),
        Err(e) => Err(e.text()),
    }
}

fn label_for(id: &str, field: &str) -> (r: String)
    ensures
        r@ == field_label(id@, field@),
{
    let head = concat3("LLM profile '", id, "' ");
    concat2(head.as_str(), field)
}

fn parse_models(items: &Vec<ConfigValue>, id: &str) -> (r: Result<Vec<String>, LlmProfileConfigurationError>)
    ensures
        match r {
            Ok(ms) => models_spec(items@, id@) == Ok::<Seq<Seq<char>>, Seq<char>>(strings_view(ms@)),
            Err(e) => models_spec(items@, id@) == Err::<Seq<Seq<char>>, Seq<char>>(e.text()),
        },
{
    let label = label_for(id, "model");
    let mut models: Vec<String> = Vec::new();
    let mut i: usize = 0;
    assert(items@.subrange(0, items@.len() as int) =~= items@);
    assert(strings_view(models@) =~= Seq::<Seq<char>>::empty());
    while i < items.len()
        invariant
            i <= items@.len(),
            label@ == field_label(id@, "model"@),
            models_spec(items@, id@) == prepend_models(
                strings_view(models@),
                models_spec(items@.subrange(i as int, items@.len() as int), id@),
            ),
        decreases items@.len() - i,
    {
        let ghost rest = items@.subrange(i as int, items@.len() as int);
        assert(rest[0] == items@[i as int]);
        assert(rest.drop_first() =~= items@.subrange(i + 1, items@.len() as int));
        match require_non_empty_value(Some(&items[i]), label.as_str()) {
            Ok(m) => {
                let ghost before = strings_view(models@);
                models.push(m);
                proof {
                    assert(strings_view(models@) =~= before.push(m@));
                    match models_spec(rest.drop_first(), id@) {
                        Ok(ms) => {
                            assert(before + (seq![m@] + ms) =~= before.push(m@) + ms);
                        },
                        Err(_) => {},
                    }
                }
            },
            Err(e) => {
                return Err(e);
            },
        }
        i = i + 1;
    }
    assert(strings_view(models@) + Seq::<Seq<char>>::empty() =~= strings_view(models@));
    Ok(models)
}

fn contains_text(v: &Vec<String>, s: &str) -> (r: bool)
    ensures
        r == strings_view(v@).contains(s@),
{
    let mut i: usize = 0;
    while i < v.len()
        invariant
            i <= v@.len(),
            forall|k: int| 0 <= k < i ==> strings_view(v@)[k] != s@,
        decreases v@.len() - i,
    {
        if str_eq(v[i].as_str(), s) {
            assert(strings_view(v@)[i as int] == s@);
            return true;
        }
        i = i + 1;
    }
    false
}

/// Reads and checks one profile: the provider must be `openai_compatible`,
/// the base URL and at least one model must be given, and a default model
/// must be one of the models.
pub fn parse_profile(profile_id: &str, raw: &Vec<(String, ConfigValue)>) -> (r: Result<LlmProfile, LlmProfileConfigurationError>)
    ensures
        profile_result_view(r) == parse_profile_spec(profile_id@, raw@),
{
    let provider = match require_non_empty_value(config_lookup(raw, "provider"), label_for(profile_id, "provider").as_str()) {
        Ok(p) => to_lowercase(p.as_str()),
        Err(e) => return Err(e),
    };
    if !str_eq(provider.as_str(), "openai_compatible") {
        let head = concat2(label_for(profile_id, "has unsupported provider '").as_str(), provider.as_str());
        return Err(config_error(concat2(head.as_str(), "'; supported providers: openai_compatible.")));
    }
    let base_url = match require_non_empty_value(config_lookup(raw, "base_url"), label_for(profile_id, "base_url").as_str()) {
        Ok(b) => b,
        Err(e) => return Err(e),
    };
    let models = match config_lookup(raw, "models") {
        Some(ConfigValue::Array(items)) => match parse_models(items, profile_id) {
            Ok(ms) => ms,
            Err(e) => return Err(e),
        },
        _ => return Err(config_error(label_for(profile_id, "models must be a non-empty list."))),
    };
    if models.len() == 0 {
        return Err(config_error(label_for(profile_id, "must declare at least one model.")));
    }
    let default_model = match optional_text(config_lookup(raw, "default_model")) {
        Ok(d) => d,
        Err(e) => return Err(e),
    };
    if let Some(d) = &default_model {
        if !contains_text(&models, d.as_str()) {
            let head = concat2(label_for(profile_id, "default_model '").as_str(), d.as_str());
            return Err(config_error(concat2(head.as_str(), "' is not listed in models.")));
        }
    }
    let label = match optional_text(config_lookup(raw, "label")) {
        Ok(l) => l,
        Err(e) => return Err(e),
    };
    let api_key_env = match optional_text(config_lookup(raw, "api_key_env")) {
        Ok(k) => k,
        Err(e) => return Err(e),
    };
    Ok(LlmProfile { id: owned(profile_id), provider, base_url, models, label, api_key_env, default_model })
}

/// The profiles of a map, by id.
pub open spec fn profiles_map(m: TextMap<LlmProfile>) -> Map<Seq<char>, LlmProfileView> {
    m.as_map().map_values(|p: LlmProfile| p@)
}

/// One entry of the `[profiles]` table: its id, trimmed and not blank, and
/// its profile, which must be a table.
pub open spec fn profile_entry_spec(pid: Seq<char>, raw: ConfigValue) -> Result<(Seq<char>, LlmProfileView), Seq<char>> {
    match require_text_spec(pid, "profile id "@ + debug_text(pid)) {
        Err(e) => Err(e),
        Ok(nid) => match raw {
            ConfigValue::Table(members) => match parse_profile_spec(nid, members@) {
                Err(e) => Err(e),
                Ok(p) => Ok((nid, p)),
            },
            _ => Err("LLM profile '"@ + nid + "' must be a table."@),
        },
    }
}

/// The entries read in order into `acc`; the first bad entry is the error.
pub open spec fn profiles_fold(
    entries: Seq<(String, ConfigValue)>,
    acc: Map<Seq<char>, LlmProfileView>,
) -> Result<Map<Seq<char>, LlmProfileView>, Seq<char>>
    decreases entries.len(),
{
    if entries.len() == 0 {
        Ok(acc)
    } else {
        match profile_entry_spec(entries[0].0@, entries[0].1) {
            Err(e) => Err(e),
            Ok(entry) => profiles_fold(entries.drop_first(), acc.insert(entry.0, entry.1)),
        }
    }
}

/// The profiles a parsed document declares under `[profiles]`.
pub open spec fn profiles_from_document_spec(top: Seq<(String, ConfigValue)>) -> Result<Map<Seq<char>, LlmProfileView>, Seq<char>> {
    match config_get(top, "profiles"@) {
        None => Ok(Map::empty()),
        Some(ConfigValue::Table(entries)) => profiles_fold(entries@, Map::empty()),
        Some(_) => Err("LLM profile config must contain a [profiles] table."@),
    }
}

/// The profiles a profile file's text declares.
pub open spec fn profiles_from_text_spec(text: Seq<char>) -> Result<Map<Seq<char>, LlmProfileView>, Seq<char>> {
    match toml_parse_outcome(text) {
        Err(m) => Err("Invalid LLM profile config: "@ + m),
        Ok(top) => profiles_from_document_spec(top),
    }
}

pub open spec fn profiles_result_view(r: Result<TextMap<LlmProfile>, LlmProfileConfigurationError>) -> Result<Map<Seq<char>, LlmProfileView>, Seq<char>> {
    match r {
        Ok(m) => Ok(profiles_map(m)),
        Err(e) => Err(e.text()),
    }
}

/// The profiles a parsed document declares under `[profiles]`; later
/// entries with the same trimmed id replace earlier ones.
pub fn profiles_from_document(top: &Vec<(String, ConfigValue)>) -> (r: Result<TextMap<LlmProfile>, LlmProfileConfigurationError>)
    ensures
        profiles_result_view(r) == profiles_from_document_spec(top@),
{
    let mut profiles: TextMap<LlmProfile> = TextMap::new();
    assert(profiles_map(profiles) =~= Map::<Seq<char>, LlmProfileView>::empty());
    let entries = match config_lookup(top, "profiles") {
        None => return Ok(profiles),
        Some(ConfigValue::Table(entries)) => entries,
        Some(_) => return Err(config_error(owned("LLM profile config must contain a [profiles] table."))),
    };
    let mut i: usize = 0;
    assert(entries@.subrange(0, entries@.len() as int) =~= entries@);
    while i < entries.len()
        invariant
            i <= entries@.len(),
            config_get(top@, "profiles"@) == Some(ConfigValue::Table(*entries)),
            profiles_fold(entries@, Map::empty()) == profiles_fold(
                entries@.subrange(i as int, entries@.len() as int),
                profiles_map(profiles),
            ),
        decreases entries@.len() - i,
    {
        let ghost rest = entries@.subrange(i as int, entries@.len() as int);
        assert(rest[0] == entries@[i as int]);
        assert(rest.drop_first() =~= entries@.subrange(i + 1, entries@.len() as int));
        let profile_id = &entries[i].0;
        let quoted = debug_quoted(profile_id.as_str());
        let id_label = concat2("profile id ", quoted.as_str());
        let normalized_id = match require_non_empty_text(profile_id.as_str(), id_label.as_str()) {
            Ok(n) => n,
            Err(e) => return Err(e),
        };
        let members = match &entries[i].1 {
            ConfigValue::Table(members) => members,
            _ => return Err(config_error(concat3("LLM profile '", normalized_id.as_str(), "' must be a table."))),
        };
        let profile = match parse_profile(normalized_id.as_str(), members) {
            Ok(p) => p,
            Err(e) => return Err(e),
        };
        let ghost before = profiles_map(profiles);
        let ghost pv = profile@;
        profiles.insert(normalized_id, profile);
        assert(profiles_map(profiles) =~= before.insert(normalized_id@, pv));
        i = i + 1;
    }
    Ok(profiles)
}

/// The profiles a profile file's text declares (`load_llm_profiles` once the
/// file has been read).
pub fn load_llm_profiles_from_text(text: &str) -> (r: Result<TextMap<LlmProfile>, LlmProfileConfigurationError>)
    ensures
        profiles_result_view(r) == profiles_from_text_spec(text@),
{
    match parse_config_document(text) {
        Err(m) => Err(config_error(concat2("Invalid LLM profile config: ", m.as_str()))),
        Ok(top) => profiles_from_document(&top),
    }
}

/// The profile id a lookup asks for: trimmed, and not blank.
pub open spec fn profile_id_spec(profile_id: Seq<char>) -> Result<Seq<char>, Seq<char>> {
    if trim_seq(profile_id).len() == 0 {
        Err("LLM profile id is required."@)
    } else {
        Ok(trim_seq(profile_id))
    }
}

/// The profile id a lookup asks for: trimmed, and not blank.
pub fn require_profile_id(profile_id: &str) -> (r: Result<String, LlmProfileConfigurationError>)
    ensures
        text_result_view(r) == profile_id_spec(profile_id@),
{
    let t = trim(profile_id);
    if t.unicode_len() == 0 {
        return Err(config_error(owned("LLM profile id is required.")));
    }
    Ok(t)
}

/// The outcome of looking a profile up among loaded profiles.
pub open spec fn get_profile_spec(profiles: Map<Seq<char>, LlmProfileView>, profile_id: Seq<char>) -> Result<LlmProfileView, Seq<char>> {
    match profile_id_spec(profile_id) {
        Err(e) => Err(e),
        Ok(id) => if profiles.contains_key(id) {
            Ok(profiles[id])
        } else {
            Err("LLM profile '"@ + id + "' was not found."@)
        },
    }
}

/// Takes the profile with the (trimmed) id out of the loaded profiles.
pub fn get_llm_profile(profiles: &mut TextMap<LlmProfile>, profile_id: &str) -> (r: Result<LlmProfile, LlmProfileConfigurationError>)
    ensures
        profile_result_view(r) == get_profile_spec(profiles_map(*old(profiles)), profile_id@),
        r is Ok ==> profiles_map(*final(profiles)) == profiles_map(*old(profiles)).remove(trim_seq(profile_id@)),
{
    let id = match require_profile_id(profile_id) {
        Ok(i) => i,
        Err(e) => return Err(e),
    };
    let ghost before = profiles_map(*profiles);
    match profiles.remove(id.as_str()) {
        Some(p) => {
            assert(profiles_map(*profiles) =~= before.remove(id@));
            Ok(p)
        },
        None => Err(config_error(concat3("LLM profile '", id.as_str(), "' was not found."))),
    }
}

/// `get_llm_profile`; the environment plays no part in the lookup.
pub fn get_llm_profile_with_env<E: LlmProfileEnvironment>(
    profiles: &mut TextMap<LlmProfile>,
    profile_id: &str,
    env: &E,
) -> (r: Result<LlmProfile, LlmProfileConfigurationError>)
    ensures
        profile_result_view(r) == get_profile_spec(profiles_map(*old(profiles)), profile_id@),
        r is Ok ==> profiles_map(*final(profiles)) == profiles_map(*old(profiles)).remove(trim_seq(profile_id@)),
{
    get_llm_profile(profiles, profile_id)
}

} // verus!
