//! The routing table of a client: the providers it was configured with,
//! in order, the routes of its LLM profiles, and its default provider. It
//! decides which provider or profile route serves a request, which names
//! are refused, and in which order adapters close; the adapters themselves
//! stay with the caller, found again by these names.
use vstd::prelude::*;
use crate::errors::{SDKError, SDKErrorView};
use crate::profiles::LlmProfileRoute;
use crate::resolution::{configuration_error, configuration_error_spec};
use crate::text::{ascii_lower, concat2, concat3, debug_quoted, debug_text, opt_seq, owned, str_eq, trim, trim_lower, trim_seq};
use crate::textmap::TextMap;

verus! {

/// A provider name as the client keys it: trimmed and in lower case.
pub open spec fn route_name(s: Seq<char>) -> Seq<char> {
    ascii_lower(trim_seq(s))
}

/// A profile's route, and whether its adapter could be configured.
#[derive(Debug)]
pub struct ProfileRouteEntry {
    pub profile: LlmProfileRoute,
    pub adapter_ready: bool,
}

/// The routing table of a client.
pub struct ClientRoutes {
    pub providers: Vec<String>,
    pub profile_routes: TextMap<ProfileRouteEntry>,
    pub profile_order: Vec<String>,
    pub default_provider: Option<String>,
}

pub open spec fn names_view(v: Seq<String>) -> Seq<Seq<char>> {
    v.map_values(|s: String| s@)
}

/// Where a request goes.
#[derive(Debug)]
pub enum ResolvedRoute {
    /// The route of a profile, under its key, naming its provider.
    Profile { key: String, provider_name: String },
    /// The route of a profile whose adapter could not be configured: the
    /// request fails with that adapter's error.
    Unavailable { key: String },
    /// A configured provider.
    Provider { name: String },
}

/// What the client closes, in order.
#[derive(Debug)]
pub enum CloseTarget {
    Provider(String),
    Profile(String),
}

// ----- provider names -----
/// The configured provider names, normalized and in order; an empty or
/// repeated name is refused.
pub open spec fn provider_table_spec(names: Seq<Seq<char>>) -> Result<Seq<Seq<char>>, SDKErrorView>
    decreases names.len(),
{
    if names.len() == 0 {
        Ok(Seq::empty())
    } else {
        match provider_table_spec(names.drop_last()) {
            Err(e) => Err(e),
            Ok(acc) => {
                let n = route_name(names.last());
                if n.len() == 0 {
                    Err(configuration_error_spec("Provider name must not be empty"@))
                } else if acc.contains(n) {
                    Err(configuration_error_spec("Duplicate provider "@ + debug_text(n)))
                } else {
                    Ok(acc.push(n))
                }
            },
        }
    }
}

fn contains_name(v: &Vec<String>, s: &str) -> (r: bool)
    ensures
        r == names_view(v@).contains(s@),
{
    let mut i: usize = 0;
    while i < v.len()
        invariant
            i <= v@.len(),
            forall|j: int| 0 <= j < i ==> v@[j]@ != s@,
        decreases v@.len() - i,
    {
        if str_eq(v[i].as_str(), s) {
            assert(names_view(v@)[i as int] == s@);
            return true;
        }
        i = i + 1;
    }
    assert forall|j: int| 0 <= j < names_view(v@).len() implies names_view(v@)[j] != s@ by {
        assert(names_view(v@)[j] == v@[j]@);
    }
    false
}

proof fn lemma_table_error_stays(ns: Seq<Seq<char>>, i: int)
    requires
        0 <= i <= ns.len(),
        provider_table_spec(ns.subrange(0, i)) is Err,
    ensures
        provider_table_spec(ns) == provider_table_spec(ns.subrange(0, i)),
    decreases ns.len() - i,
{
    if ns.len() == i {
        assert(ns.subrange(0, i) =~= ns);
    } else {
        assert(ns.drop_last().subrange(0, i) =~= ns.subrange(0, i));
        lemma_table_error_stays(ns.drop_last(), i);
    }
}

/// The configured provider names, normalized and in order.
pub fn provider_table(names: &Vec<String>) -> (r: Result<Vec<String>, SDKError>)
    ensures
        match r {
            Ok(v) => provider_table_spec(names_view(names@)) == Ok::<Seq<Seq<char>>, SDKErrorView>(names_view(v@)),
            Err(e) => provider_table_spec(names_view(names@)) == Err::<Seq<Seq<char>>, SDKErrorView>(e@),
        },
{
    let ghost ns = names_view(names@);
    let mut acc: Vec<String> = Vec::new();
    let mut i: usize = 0;
    proof {
        assert(ns.subrange(0, 0) =~= Seq::<Seq<char>>::empty());
        assert(names_view(acc@) =~= Seq::<Seq<char>>::empty());
    }
    while i < names.len()
        invariant
            i <= names@.len(),
            ns == names_view(names@),
            provider_table_spec(ns.subrange(0, i as int)) == Ok::<Seq<Seq<char>>, SDKErrorView>(names_view(acc@)),
        decreases names@.len() - i,
    {
        let n = trim_lower(names[i].as_str());
        proof {
            let sub1 = ns.subrange(0, i as int + 1);
            assert(sub1.drop_last() =~= ns.subrange(0, i as int));
            assert(sub1.last() == names@[i as int]@);
        }
        if n.unicode_len() == 0 {
            proof {
                lemma_table_error_stays(ns, i as int + 1);
            }
            return Err(configuration_error(owned("Provider name must not be empty")));
        }
        if contains_name(&acc, n.as_str()) {
            let q = debug_quoted(n.as_str());
            proof {
                lemma_table_error_stays(ns, i as int + 1);
            }
            return Err(configuration_error(concat2("Duplicate provider ", q.as_str())));
        }
        let ghost before = names_view(acc@);
        acc.push(n);
        assert(names_view(acc@) =~= before.push(n@));
        i = i + 1;
    }
    assert(ns.subrange(0, ns.len() as int) =~= ns);
    Ok(acc)
}

// ----- the table -----
/// The default provider after asking for `d`: a named default must be a
/// configured provider or a profile route.
pub open spec fn default_provider_spec(providers: Seq<Seq<char>>, routes: Set<Seq<char>>, d: Option<Seq<char>>) -> Result<
    Option<Seq<char>>,
    SDKErrorView,
> {
    match d {
        None => Ok(None),
        Some(raw) => {
            let p = route_name(raw);
            if !providers.contains(p) && !routes.contains(p) {
                Err(configuration_error_spec("Unknown default provider "@ + debug_text(p)))
            } else {
                Ok(Some(p))
            }
        },
    }
}

/// What a new profile route is keyed by and names as its provider, or why
/// it is refused.
pub open spec fn route_check_spec(providers: Seq<Seq<char>>, routes: Set<Seq<char>>, profile_id: Seq<char>, provider: Seq<char>) -> Result<
    (Seq<char>, Seq<char>),
    SDKErrorView,
> {
    let id = trim_seq(profile_id);
    let key = route_name(id);
    let p = route_name(provider);
    if id.len() == 0 {
        Err(configuration_error_spec("LLM profile id is required."@))
    } else if providers.contains(key) {
        Err(configuration_error_spec("LLM profile '"@ + id + "' conflicts with a configured provider"@))
    } else if routes.contains(key) {
        Err(configuration_error_spec("Duplicate LLM profile "@ + debug_text(id)))
    } else if p.len() == 0 {
        Err(configuration_error_spec("LLM profile '"@ + id + "' provider must not be empty"@))
    } else {
        Ok((key, p))
    }
}

/// A resolved route as values: its kind (a profile route, a profile route
/// without an adapter, a provider), its key, and the provider it names.
pub open spec fn resolved_view(r: ResolvedRoute) -> (int, Seq<char>, Seq<char>) {
    match r {
        ResolvedRoute::Profile { key, provider_name } => (0, key@, provider_name@),
        ResolvedRoute::Unavailable { key } => (1, key@, Seq::empty()),
        ResolvedRoute::Provider { name } => (2, name@, Seq::empty()),
    }
}

/// Where the requests stand in a table: its provider names in order, its
/// profile routes by key (their provider and whether their adapter is
/// there), its profile keys in order, and its default provider.
pub struct RoutesView {
    pub providers: Seq<Seq<char>>,
    pub routes: Map<Seq<char>, (Seq<char>, bool)>,
    pub profile_order: Seq<Seq<char>>,
    pub default_provider: Option<Seq<char>>,
}

/// The route a request for `provider` (else for the default) goes to.
pub open spec fn resolve_spec(t: RoutesView, request_provider: Option<Seq<char>>) -> Result<(int, Seq<char>, Seq<char>), SDKErrorView> {
    let chosen = match request_provider {
        Some(p) => Some(route_name(p)),
        None => t.default_provider,
    };
    match chosen {
        None => Err(configuration_error_spec("No provider configured; set request.provider or Client.default_provider"@)),
        Some(p) => if t.routes.contains_key(p) {
            if t.routes[p].1 {
                Ok((0, p, t.routes[p].0))
            } else {
                Ok((1, p, Seq::empty()))
            }
        } else if t.providers.contains(p) {
            Ok((2, p, Seq::empty()))
        } else {
            Err(configuration_error_spec("Unknown provider "@ + debug_text(p)))
        },
    }
}

/// The provider a selector routes to: a profile route's provider, else the
/// selector itself, normalized; nothing for a blank selector.
pub open spec fn routed_provider_spec(t: RoutesView, selector: Seq<char>) -> Option<Seq<char>> {
    let n = route_name(selector);
    if n.len() == 0 {
        None
    } else if t.routes.contains_key(n) {
        Some(t.routes[n].0)
    } else {
        Some(n)
    }
}

/// The providers to close, last configured first.
pub open spec fn providers_closing(p: Seq<Seq<char>>) -> Seq<(bool, Seq<char>)>
    decreases p.len(),
{
    if p.len() == 0 {
        Seq::empty()
    } else {
        seq![(true, p.last())] + providers_closing(p.drop_last())
    }
}

/// The profile routes to close, last added first, those with an adapter.
pub open spec fn profiles_closing(t: RoutesView, k: Seq<Seq<char>>) -> Seq<(bool, Seq<char>)>
    decreases k.len(),
{
    if k.len() == 0 {
        Seq::empty()
    } else if t.routes.contains_key(k.last()) && t.routes[k.last()].1 {
        seq![(false, k.last())] + profiles_closing(t, k.drop_last())
    } else {
        profiles_closing(t, k.drop_last())
    }
}

pub open spec fn close_view(v: Seq<CloseTarget>) -> Seq<(bool, Seq<char>)> {
    v.map_values(
        |c: CloseTarget|
            match c {
                CloseTarget::Provider(n) => (true, n@),
                CloseTarget::Profile(k) => (false, k@),
            },
    )
}

impl View for ClientRoutes {
    type V = RoutesView;

    open spec fn view(&self) -> RoutesView {
        RoutesView {
            providers: names_view(self.providers@),
            routes: self.profile_routes.as_map().map_values(|e: ProfileRouteEntry| (e.profile.provider@, e.adapter_ready)),
            profile_order: names_view(self.profile_order@),
            default_provider: opt_seq(self.default_provider),
        }
    }
}

pub open spec fn opt_text(o: Option<&str>) -> Option<Seq<char>> {
    match o {
        Some(s) => Some(s@),
        None => None,
    }
}

impl ClientRoutes {
    /// A table of the configured providers, with no profile routes yet and
    /// the default provider asked for.
    pub fn from_provider_names(names: &Vec<String>, default_provider: Option<&str>) -> (r: Result<Self, SDKError>)
        ensures
            match r {
                Ok(t) => provider_table_spec(names_view(names@)) == Ok::<Seq<Seq<char>>, SDKErrorView>(t@.providers)
                    && t@.routes.is_empty() && t@.profile_order.len() == 0 && default_provider_spec(
                    t@.providers,
                    Set::empty(),
                    opt_text(default_provider),
                ) == Ok::<Option<Seq<char>>, SDKErrorView>(t@.default_provider),
                Err(e) => provider_table_spec(names_view(names@)) == Err::<Seq<Seq<char>>, SDKErrorView>(e@) || (
                provider_table_spec(names_view(names@)) matches Ok(ps) && default_provider_spec(
                    ps,
                    Set::empty(),
                    opt_text(default_provider),
                ) == Err::<Option<Seq<char>>, SDKErrorView>(e@)),
            },
    {
        let providers = provider_table(names)?;
        let mut t = ClientRoutes { providers, profile_routes: TextMap::new(), profile_order: Vec::new(), default_provider: None };
        assert(t@.routes =~= Map::<Seq<char>, (Seq<char>, bool)>::empty());
        assert(t@.routes.dom() =~= Set::<Seq<char>>::empty());
        t.set_default_provider_name(default_provider)?;
        Ok(t)
    }

    /// Sets the default provider; a name that is neither a configured
    /// provider nor a profile route is refused, and the table stays as it was.
    pub fn set_default_provider_name(&mut self, default_provider: Option<&str>) -> (r: Result<(), SDKError>)
        ensures
            match default_provider_spec(old(self)@.providers, old(self)@.routes.dom(), opt_text(default_provider)) {
                Ok(d) => r is Ok && final(self)@ == (RoutesView { default_provider: d, ..old(self)@ }),
                Err(e) => r matches Err(x) && x@ == e && final(self)@ == old(self)@,
            },
    {
        match default_provider {
            None => {
                self.default_provider = None;
                Ok(())
            },
            Some(raw) => {
                let p = trim_lower(raw);
                if !contains_name(&self.providers, p.as_str()) && !self.profile_routes.contains_key(p.as_str()) {
                    let q = debug_quoted(p.as_str());
                    return Err(configuration_error(concat2("Unknown default provider ", q.as_str())));
                }
                self.default_provider = Some(p);
                Ok(())
            },
        }
    }

    /// The default provider.
    pub fn default_provider(&self) -> (r: Option<&str>)
        ensures
            opt_text(r) == self@.default_provider,
    {
        match &self.default_provider {
            Some(p) => Some(p.as_str()),
            None => None,
        }
    }

    /// The route of a profile, by its id.
    pub fn llm_profile(&self, profile_id: &str) -> (r: Option<&LlmProfileRoute>)
        ensures
            match r {
                Some(route) => self.profile_routes.as_map().contains_key(route_name(profile_id@))
                    && *route == self.profile_routes.as_map()[route_name(profile_id@)].profile,
                None => !self.profile_routes.as_map().contains_key(route_name(profile_id@)),
            },
    {
        let key = trim_lower(profile_id);
        match self.profile_routes.get(key.as_str()) {
            Some(e) => Some(&e.profile),
            None => None,
        }
    }

    /// The route of a profile, by its id; a blank id, or one with no route,
    /// is refused.
    pub fn require_llm_profile(&self, profile_id: &str) -> (r: Result<&LlmProfileRoute, SDKError>)
        ensures
            ({
                let id = trim_seq(profile_id@);
                match r {
                    Ok(route) => id.len() > 0 && self.profile_routes.as_map().contains_key(route_name(id))
                        && *route == self.profile_routes.as_map()[route_name(id)].profile,
                    Err(e) => if id.len() == 0 {
                        e@ == configuration_error_spec("LLM profile id is required."@)
                    } else {
                        !self.profile_routes.as_map().contains_key(route_name(id)) && e@ == configuration_error_spec(
                            "LLM profile '"@ + id + "' was not found."@,
                        )
                    },
                }
            }),
    {
        let id = trim(profile_id);
        if id.unicode_len() == 0 {
            return Err(configuration_error(owned("LLM profile id is required.")));
        }
        match self.llm_profile(id.as_str()) {
            Some(route) => Ok(route),
            None => Err(configuration_error(concat3("LLM profile '", id.as_str(), "' was not found."))),
        }
    }

    /// Checks a new profile route: what it is keyed by and names as its
    /// provider, or why it is refused.
    pub fn check_llm_profile_route(&self, profile_id: &str, provider: &str) -> (r: Result<(String, String), SDKError>)
        ensures
            match r {
                Ok((k, p)) => route_check_spec(self@.providers, self@.routes.dom(), profile_id@, provider@) == Ok::<
                    (Seq<char>, Seq<char>),
                    SDKErrorView,
                >((k@, p@)),
                Err(e) => route_check_spec(self@.providers, self@.routes.dom(), profile_id@, provider@) == Err::<
                    (Seq<char>, Seq<char>),
                    SDKErrorView,
                >(e@),
            },
    {
        let id = trim(profile_id);
        if id.unicode_len() == 0 {
            return Err(configuration_error(owned("LLM profile id is required.")));
        }
        let key = trim_lower(id.as_str());
        assert(key@ == route_name(trim_seq(profile_id@)));
        if contains_name(&self.providers, key.as_str()) {
            return Err(configuration_error(concat3("LLM profile '", id.as_str(), "' conflicts with a configured provider")));
        }
        if self.profile_routes.contains_key(key.as_str()) {
            let q = debug_quoted(id.as_str());
            return Err(configuration_error(concat2("Duplicate LLM profile ", q.as_str())));
        }
        let p = trim_lower(provider);
        if p.unicode_len() == 0 {
            return Err(configuration_error(concat3("LLM profile '", id.as_str(), "' provider must not be empty")));
        }
        Ok((key, p))
    }

    /// Adds a profile route: checked as `check_llm_profile_route` does,
    /// then kept under its key, last in the order of profiles.
    pub fn insert_llm_profile_route(
        &mut self,
        profile_id: &str,
        provider: &str,
        default_model: Option<String>,
        adapter_ready: bool,
    ) -> (r: Result<(), SDKError>)
        ensures
            match route_check_spec(old(self)@.providers, old(self)@.routes.dom(), profile_id@, provider@) {
                Ok((k, p)) => r is Ok && final(self)@ == (RoutesView {
                    routes: old(self)@.routes.insert(k, (p, adapter_ready)),
                    profile_order: old(self)@.profile_order.push(k),
                    ..old(self)@
                }) && final(self).profile_routes.as_map()[k].profile == (LlmProfileRoute {
                    id: final(self).profile_routes.as_map()[k].profile.id,
                    provider: final(self).profile_routes.as_map()[k].profile.provider,
                    default_model,
                }) && final(self).profile_routes.as_map()[k].profile.id@ == trim_seq(profile_id@),
                Err(e) => r matches Err(x) && x@ == e && final(self)@ == old(self)@,
            },
    {
        let (key, p) = self.check_llm_profile_route(profile_id, provider)?;
        let id = trim(profile_id);
        let ghost before = self@;
        let ghost k = key@;
        self.profile_order.push(key.clone());
        assert(names_view(self.profile_order@) =~= before.profile_order.push(k));
        let entry = ProfileRouteEntry { profile: LlmProfileRoute { id, provider: p, default_model }, adapter_ready };
        self.profile_routes.insert(key, entry);
        assert(self@.routes =~= before.routes.insert(k, (self.profile_routes.as_map()[k].profile.provider@, adapter_ready)));
        Ok(())
    }

    /// The route a request for `provider` (else for the default) goes to.
    pub fn resolve_provider(&self, request_provider: Option<&str>) -> (r: Result<ResolvedRoute, SDKError>)
        ensures
            match r {
                Ok(x) => resolve_spec(self@, opt_text(request_provider)) == Ok::<(int, Seq<char>, Seq<char>), SDKErrorView>(
                    resolved_view(x),
                ),
                Err(e) => resolve_spec(self@, opt_text(request_provider)) == Err::<(int, Seq<char>, Seq<char>), SDKErrorView>(e@),
            },
    {
        let chosen = match request_provider {
            Some(p) => trim_lower(p),
            None => match &self.default_provider {
                Some(d) => d.clone(),
                None => {
                    return Err(
                        configuration_error(owned("No provider configured; set request.provider or Client.default_provider")),
                    );
                },
            },
        };
        match self.profile_routes.get(chosen.as_str()) {
            Some(e) => {
                if e.adapter_ready {
                    Ok(ResolvedRoute::Profile { key: chosen, provider_name: e.profile.provider.clone() })
                } else {
                    Ok(ResolvedRoute::Unavailable { key: chosen })
                }
            },
            None => {
                if contains_name(&self.providers, chosen.as_str()) {
                    Ok(ResolvedRoute::Provider { name: chosen })
                } else {
                    let q = debug_quoted(chosen.as_str());
                    Err(configuration_error(concat2("Unknown provider ", q.as_str())))
                }
            },
        }
    }

    /// The provider a selector routes to.
    pub fn routed_provider_for_selector(&self, provider: &str) -> (r: Option<String>)
        ensures
            opt_seq(r) == routed_provider_spec(self@, provider@),
    {
        let n = trim_lower(provider);
        if n.unicode_len() == 0 {
            return None;
        }
        match self.profile_routes.get(n.as_str()) {
            Some(e) => Some(e.profile.provider.clone()),
            None => Some(n),
        }
    }

    /// What the client closes, in order: its providers, last configured
    /// first, then its profile routes with an adapter, last added first.
    pub fn close_order(&self) -> (r: Vec<CloseTarget>)
        ensures
            close_view(r@) == providers_closing(self@.providers) + profiles_closing(self@, self@.profile_order),
    {
        let ghost ps = self@.providers;
        let ghost ks = self@.profile_order;
        let mut out: Vec<CloseTarget> = Vec::new();
        let mut i: usize = self.providers.len();
        proof {
            assert(ps.subrange(0, i as int) =~= ps);
            assert(close_view(out@) =~= Seq::<(bool, Seq<char>)>::empty());
        }
        while i > 0
            invariant
                i <= ps.len(),
                ps == names_view(self.providers@),
                close_view(out@) + providers_closing(ps.subrange(0, i as int)) == providers_closing(ps),
            decreases i,
        {
            let ghost before = close_view(out@);
            let ghost sub = ps.subrange(0, i as int);
            proof {
                assert(sub.drop_last() =~= ps.subrange(0, i as int - 1));
                assert(sub.last() == self.providers@[i as int - 1]@);
            }
            out.push(CloseTarget::Provider(self.providers[i - 1].clone()));
            proof {
                assert(close_view(out@) =~= before.push((true, sub.last())));
                assert(close_view(out@) + providers_closing(ps.subrange(0, i as int - 1)) =~= before + providers_closing(sub));
            }
            i = i - 1;
        }
        proof {
            assert(ps.subrange(0, 0) =~= Seq::<Seq<char>>::empty());
            assert(close_view(out@) =~= providers_closing(ps));
        }
        let ghost head = close_view(out@);
        let mut j: usize = self.profile_order.len();
        proof {
            assert(ks.subrange(0, j as int) =~= ks);
        }
        while j > 0
            invariant
                j <= ks.len(),
                ks == names_view(self.profile_order@),
                close_view(out@) + profiles_closing(self@, ks.subrange(0, j as int)) == head + profiles_closing(self@, ks),
            decreases j,
        {
            let ghost before = close_view(out@);
            let ghost sub = ks.subrange(0, j as int);
            proof {
                assert(sub.drop_last() =~= ks.subrange(0, j as int - 1));
                assert(sub.last() == self.profile_order@[j as int - 1]@);
            }
            let key = &self.profile_order[j - 1];
            match self.profile_routes.get(key.as_str()) {
                Some(e) => {
                    if e.adapter_ready {
                        out.push(CloseTarget::Profile(key.clone()));
                        proof {
                            assert(close_view(out@) =~= before.push((false, sub.last())));
                            assert(close_view(out@) + profiles_closing(self@, ks.subrange(0, j as int - 1)) =~= before
                                + profiles_closing(self@, sub));
                        }
                    }
                },
                None => {},
            }
            j = j - 1;
        }
        proof {
            assert(ks.subrange(0, 0) =~= Seq::<Seq<char>>::empty());
            assert(close_view(out@) =~= head + profiles_closing(self@, ks));
        }
        out
    }
}

// ----- laws -----
/// A profile route that was added is where a request naming it goes: to the
/// route's provider when its adapter is there, else to its adapter's error.
pub proof fn lemma_added_route_resolves(
    t: RoutesView,
    profile_id: Seq<char>,
    provider: Seq<char>,
    ready: bool,
    selector: Seq<char>,
)
    requires
        route_check_spec(t.providers, t.routes.dom(), profile_id, provider) is Ok,
        route_name(selector) == route_check_spec(t.providers, t.routes.dom(), profile_id, provider)->Ok_0.0,
    ensures
        ({
            let (k, p) = route_check_spec(t.providers, t.routes.dom(), profile_id, provider)->Ok_0;
            let t2 = RoutesView { routes: t.routes.insert(k, (p, ready)), profile_order: t.profile_order.push(k), ..t };
            resolve_spec(t2, Some(selector)) == Ok::<(int, Seq<char>, Seq<char>), SDKErrorView>(
                if ready {
                    (0, k, p)
                } else {
                    (1, k, Seq::empty())
                },
            )
        }),
{
}

/// A name that is a configured provider never becomes a profile route: the
/// route is refused.
pub proof fn lemma_provider_names_are_not_routes(t: RoutesView, profile_id: Seq<char>, provider: Seq<char>)
    requires
        trim_seq(profile_id).len() > 0,
        t.providers.contains(route_name(trim_seq(profile_id))),
    ensures
        route_check_spec(t.providers, t.routes.dom(), profile_id, provider) == Err::<(Seq<char>, Seq<char>), SDKErrorView>(
            configuration_error_spec("LLM profile '"@ + trim_seq(profile_id) + "' conflicts with a configured provider"@),
        ),
{
}

} // verus!
