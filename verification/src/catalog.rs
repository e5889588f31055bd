//! The model catalog: the models each provider offers and what they support.
//! Names are compared after trimming and Unicode lowercasing.
use vstd::prelude::*;
use crate::text::{
    chars_of, seq_eq, str_eq, to_lowercase, trim, trim_seq, unicode_lowercase,
};

verus! {

/// A model of the catalog. Prices, which the catalog file also lists, are
/// kept by the application layer.
#[derive(Debug)]
pub struct ModelInfo {
    pub id: String,
    pub provider: String,
    pub display_name: String,
    pub context_window: Option<i64>,
    pub supports_tools: bool,
    pub supports_vision: bool,
    pub supports_reasoning: bool,
    pub max_output: Option<i64>,
    pub aliases: Vec<String>,
}

pub struct ModelInfoView {
    pub id: Seq<char>,
    pub provider: Seq<char>,
    pub display_name: Seq<char>,
    pub context_window: Option<i64>,
    pub supports_tools: bool,
    pub supports_vision: bool,
    pub supports_reasoning: bool,
    pub max_output: Option<i64>,
    pub aliases: Seq<Seq<char>>,
}

pub open spec fn strings_view(v: Seq<String>) -> Seq<Seq<char>> {
    v.map_values(|s: String| s@)
}

impl View for ModelInfo {
    type V = ModelInfoView;

    open spec fn view(&self) -> ModelInfoView {
        ModelInfoView {
            id: self.id@,
            provider: self.provider@,
            display_name: self.display_name@,
            context_window: self.context_window,
            supports_tools: self.supports_tools,
            supports_vision: self.supports_vision,
            supports_reasoning: self.supports_reasoning,
            max_output: self.max_output,
            aliases: strings_view(self.aliases@),
        }
    }
}

pub open spec fn models_view(s: Seq<ModelInfo>) -> Seq<ModelInfoView> {
    s.map_values(|m: ModelInfo| m@)
}

/// How the catalog compares names: trimmed, then Unicode lowercased.
pub open spec fn catalog_key(s: Seq<char>) -> Seq<char> {
    unicode_lowercase(trim_seq(s))
}

/// The catalog's name normalisation.
pub fn normalize(value: &str) -> (r: String)
    ensures
        r@ == catalog_key(value@),
{
    let t = trim(value);
    to_lowercase(t.as_str())
}

/// A copy of a list of strings.
pub fn copy_strings(v: &Vec<String>) -> (r: Vec<String>)
    ensures
        strings_view(r@) == strings_view(v@),
{
    let mut r: Vec<String> = Vec::new();
    let mut i: usize = 0;
    while i < v.len()
        invariant
            i <= v@.len(),
            strings_view(r@) == strings_view(v@).subrange(0, i as int),
        decreases v@.len() - i,
    {
        let ghost before = r@;
        r.push(v[i].clone());
        assert(strings_view(r@) =~= strings_view(before).push(v@[i as int]@));
        i = i + 1;
        assert(strings_view(r@) =~= strings_view(v@).subrange(0, i as int));
    }
    assert(strings_view(v@).subrange(0, v@.len() as int) =~= strings_view(v@));
    r
}

/// A copy of a model.
pub fn copy_model(m: &ModelInfo) -> (r: ModelInfo)
    ensures
        r@ == m@,
{
    ModelInfo {
        id: m.id.clone(),
        provider: m.provider.clone(),
        display_name: m.display_name.clone(),
        context_window: m.context_window,
        supports_tools: m.supports_tools,
        supports_vision: m.supports_vision,
        supports_reasoning: m.supports_reasoning,
        max_output: m.max_output,
        aliases: copy_strings(&m.aliases),
    }
}

/// The models of one provider, in catalog order.
pub open spec fn provider_models(models: Seq<ModelInfoView>, provider: Seq<char>) -> Seq<ModelInfoView>
    decreases models.len(),
{
    if models.len() == 0 {
        Seq::empty()
    } else {
        let rest = provider_models(models.drop_last(), provider);
        if catalog_key(models.last().provider) == catalog_key(provider) {
            rest.push(models.last())
        } else {
            rest
        }
    }
}

/// Whether a model answers to a name, by its id or one of its aliases.
pub open spec fn answers_to(m: ModelInfoView, key: Seq<char>) -> bool {
    catalog_key(m.id) == key || exists|j: int| 0 <= j < m.aliases.len() && catalog_key(#[trigger] m.aliases[j]) == key
}

/// The first model that answers to a normalised name.
pub open spec fn find_model(models: Seq<ModelInfoView>, key: Seq<char>) -> Option<ModelInfoView>
    decreases models.len(),
{
    if models.len() == 0 {
        None
    } else if answers_to(models[0], key) {
        Some(models[0])
    } else {
        find_model(models.drop_first(), key)
    }
}

/// `trim_start_matches` with a text pattern: every leading repetition removed.
pub open spec fn strip_all_prefix(s: Seq<char>, p: Seq<char>) -> Seq<char>
    decreases s.len(),
{
    if p.len() > 0 && p.len() <= s.len() && s.subrange(0, p.len() as int) == p {
        strip_all_prefix(s.subrange(p.len() as int, s.len() as int), p)
    } else {
        s
    }
}

/// Whether a model has a capability named like `tools`, `vision`,
/// `reasoning`, `structured` or `structured_output`, with or without a
/// `supports_` prefix; every model matches when no capability is asked for.
pub open spec fn model_supports_spec(m: ModelInfoView, capability: Option<Seq<char>>) -> bool {
    match capability {
        None => true,
        Some(c) => {
            let name = strip_all_prefix(catalog_key(c), "supports_"@);
            if name == "tools"@ {
                m.supports_tools
            } else if name == "vision"@ {
                m.supports_vision
            } else if name == "reasoning"@ {
                m.supports_reasoning
            } else if name == "structured"@ || name == "structured_output"@ {
                m.supports_tools
            } else {
                false
            }
        },
    }
}

/// The first model that supports a capability.
pub open spec fn first_supporting(models: Seq<ModelInfoView>, capability: Option<Seq<char>>) -> Option<ModelInfoView>
    decreases models.len(),
{
    if models.len() == 0 {
        None
    } else if model_supports_spec(models[0], capability) {
        Some(models[0])
    } else {
        first_supporting(models.drop_first(), capability)
    }
}

/// The providers whose default models the catalog lists.
pub open spec fn is_catalog_native_provider(provider: Seq<char>) -> bool {
    let k = catalog_key(provider);
    k == "openai"@ || k == "anthropic"@ || k == "gemini"@
}

/// `trim_start_matches(p)` on a character sequence.
pub fn strip_all_prefix_vec(s: &Vec<char>, p: &Vec<char>) -> (r: Vec<char>)
    ensures
        r@ == strip_all_prefix(s@, p@),
{
    let mut cur: Vec<char> = crate::url::subvec(s, 0, s.len());
    assert(s@.subrange(0, s@.len() as int) =~= s@);
    if p.len() == 0 {
        return cur;
    }
    loop
        invariant
            p@.len() > 0,
            strip_all_prefix(cur@, p@) == strip_all_prefix(s@, p@),
        ensures
            strip_all_prefix(cur@, p@) == cur@,
        decreases cur@.len(),
    {
        if p.len() <= cur.len() {
            let head = crate::url::subvec(&cur, 0, p.len());
            if seq_eq(&head, p) {
                let n = cur.len();
                cur = crate::url::subvec(&cur, p.len(), n);
                continue;
            }
        }
        break;
    }
    cur
}

/// Whether a model has the capability asked for.
pub fn model_supports(model: &ModelInfo, capability: Option<&str>) -> (r: bool)
    ensures
        r == model_supports_spec(model@, match capability {
            Some(c) => Some(c@),
            None => None,
        }),
{
    match capability {
        None => true,
        Some(c) => {
            let key = normalize(c);
            let name = strip_all_prefix_vec(&chars_of(key.as_str()), &chars_of("supports_"));
            if seq_eq(&name, &chars_of("tools")) {
                model.supports_tools
            } else if seq_eq(&name, &chars_of("vision")) {
                model.supports_vision
            } else if seq_eq(&name, &chars_of("reasoning")) {
                model.supports_reasoning
            } else if seq_eq(&name, &chars_of("structured")) || seq_eq(&name, &chars_of("structured_output")) {
                model.supports_tools
            } else {
                false
            }
        },
    }
}

/// Whether the catalog lists default models for a provider.
pub fn is_native_default_provider(provider: &str) -> (r: bool)
    ensures
        r == is_catalog_native_provider(provider@),
{
    let k = normalize(provider);
    str_eq(k.as_str(), "openai") || str_eq(k.as_str(), "anthropic") || str_eq(k.as_str(), "gemini")
}

/// A catalog of models, in the order of the catalog file.
#[derive(Debug)]
pub struct ModelCatalog {
    models: Vec<ModelInfo>,
}

impl ModelCatalog {
    /// The models, in catalog order.
    pub closed spec fn models(&self) -> Seq<ModelInfoView> {
        models_view(self.models@)
    }

    /// A catalog of the given models.
    pub fn new(models: Vec<ModelInfo>) -> (r: Self)
        ensures
            r.models() == models_view(models@),
    {
        ModelCatalog { models }
    }

    /// All models, or those of one provider.
    pub fn list_models(&self, provider: Option<&str>) -> (r: Vec<ModelInfo>)
        ensures
            models_view(r@) == match provider {
                None => self.models(),
                Some(p) => provider_models(self.models(), p@),
            },
    {
        let ghost mv = self.models();
        let key = match provider {
            None => None,
            Some(p) => Some(normalize(p)),
        };
        let mut r: Vec<ModelInfo> = Vec::new();
        let mut i: usize = 0;
        while i < self.models.len()
            invariant
                i <= self.models@.len(),
                mv == models_view(self.models@),
                match provider {
                    None => key is None,
                    Some(p) => key matches Some(k) && k@ == catalog_key(p@),
                },
                models_view(r@) == match provider {
                    None => mv.subrange(0, i as int),
                    Some(p) => provider_models(mv.subrange(0, i as int), p@),
                },
            decreases self.models@.len() - i,
        {
            let m = &self.models[i];
            let keep = match &key {
                None => true,
                Some(k) => {
                    let mk = normalize(m.provider.as_str());
                    str_eq(mk.as_str(), k.as_str())
                },
            };
            let ghost before = r@;
            if keep {
                r.push(copy_model(m));
                assert(models_view(r@) =~= models_view(before).push(m@));
            }
            proof {
                let t = mv.subrange(0, i + 1);
                assert(t.drop_last() =~= mv.subrange(0, i as int));
                assert(t.last() == m@);
            }
            i = i + 1;
            assert(models_view(r@) =~= match provider {
                None => mv.subrange(0, i as int),
                Some(p) => provider_models(mv.subrange(0, i as int), p@),
            });
        }
        assert(mv.subrange(0, mv.len() as int) =~= mv);
        r
    }

    /// The first model whose id or alias matches.
    pub fn get_model_info(&self, model_id: &str) -> (r: Option<ModelInfo>)
        ensures
            match r {
                Some(m) => find_model(self.models(), catalog_key(model_id@)) == Some(m@),
                None => find_model(self.models(), catalog_key(model_id@)) is None,
            },
    {
        let ghost mv = self.models();
        let key = normalize(model_id);
        let mut i: usize = 0;
        assert(mv.subrange(0, mv.len() as int) =~= mv);
        while i < self.models.len()
            invariant
                i <= self.models@.len(),
                mv == models_view(self.models@),
                mv == self.models(),
                key@ == catalog_key(model_id@),
                find_model(mv, key@) == find_model(mv.subrange(i as int, mv.len() as int), key@),
            decreases self.models@.len() - i,
        {
            let m = &self.models[i];
            let ghost rest = mv.subrange(i as int, mv.len() as int);
            assert(rest[0] == m@);
            assert(rest.drop_first() =~= mv.subrange(i + 1, mv.len() as int));
            let mk = normalize(m.id.as_str());
            let mut hit = str_eq(mk.as_str(), key.as_str());
            let mut j: usize = 0;
            while !hit && j < m.aliases.len()
                invariant
                    j <= m.aliases@.len(),
                    hit ==> answers_to(m@, key@),
                    !hit ==> catalog_key(m@.id) != key@,
                    !hit ==> forall|k: int| 0 <= k < j ==> catalog_key(#[trigger] m@.aliases[k]) != key@,
                decreases m.aliases@.len() - j,
            {
                let ak = normalize(m.aliases[j].as_str());
                assert(m@.aliases[j as int] == m.aliases@[j as int]@);
                hit = str_eq(ak.as_str(), key.as_str());
                j = j + 1;
            }
            if hit {
                return Some(copy_model(m));
            }
            i = i + 1;
        }
        None
    }

    /// The first model of a provider whose default models the catalog lists
    /// that supports the capability.
    pub fn get_latest_model(&self, provider: &str, capability: Option<&str>) -> (r: Option<ModelInfo>)
        ensures
            match r {
                Some(m) => is_catalog_native_provider(provider@) && first_supporting(
                    provider_models(self.models(), provider@),
                    match capability {
                        Some(c) => Some(c@),
                        None => None,
                    },
                ) == Some(m@),
                None => !is_catalog_native_provider(provider@) || first_supporting(
                    provider_models(self.models(), provider@),
                    match capability {
                        Some(c) => Some(c@),
                        None => None,
                    },
                ) is None,
            },
    {
        if !is_native_default_provider(provider) {
            return None;
        }
        let ghost cap = match capability {
            Some(c) => Some(c@),
            None => None,
        };
        let models = self.list_models(Some(provider));
        let ghost mv = models_view(models@);
        let mut i: usize = 0;
        assert(mv.subrange(0, mv.len() as int) =~= mv);
        while i < models.len()
            invariant
                i <= models@.len(),
                mv == models_view(models@),
                mv == provider_models(self.models(), provider@),
                is_catalog_native_provider(provider@),
                cap == match capability {
                    Some(c) => Some(c@),
                    None => None,
                },
                first_supporting(mv, cap) == first_supporting(mv.subrange(i as int, mv.len() as int), cap),
            decreases models@.len() - i,
        {
            let ghost rest = mv.subrange(i as int, mv.len() as int);
            assert(rest[0] == models@[i as int]@);
            assert(rest.drop_first() =~= mv.subrange(i + 1, mv.len() as int));
            if model_supports(&models[i], capability) {
                return Some(copy_model(&models[i]));
            }
            i = i + 1;
        }
        None
    }
}

} // verus!
