//! Which model provider a configuration asks for, where its API key comes
//! from, how a fallback chain is assembled, and the provider registry.
//!
//! Reading the environment and building the HTTP clients is the caller's
//! part; it reads the variable named here and hands in its value.
use vstd::prelude::*;
use crate::fallback::distinct;
use crate::text::{owned, push_all, str_eq, trim, trim_str};

verus! {

/// A provider's configuration.
#[derive(Debug, Clone)]
pub struct ProviderConfig {
    pub provider_type: String,
    pub base_url: Option<String>,
    pub api_key: Option<String>,
    pub api_key_env: Option<String>,
    pub default_model: Option<String>,
    pub headers: Vec<(String, String)>,
    pub timeout_secs: u64,
    pub max_retries: u32,
    pub fallback_chain: Option<Vec<String>>,
    pub health_check_interval_secs: u64,
    pub circuit_breaker_threshold: u32,
}

/// The environment variable to read for the key: the trimmed name, when
/// there is no direct key and the name is not blank.
pub open spec fn key_env_name(direct: Option<Seq<char>>, env_var: Option<Seq<char>>) -> Option<Seq<char>> {
    if direct matches Some(k) && k.len() > 0 {
        None
    } else {
        match env_var {
            Some(v) => if trim(v).len() > 0 {
                Some(trim(v))
            } else {
                None
            },
            None => None,
        }
    }
}

/// The API key: a non-empty direct key, else the non-empty value of the
/// environment variable, else none.
pub open spec fn key_of(
    direct: Option<Seq<char>>,
    env_var: Option<Seq<char>>,
    env_value: Option<Seq<char>>,
) -> Option<Seq<char>> {
    if direct matches Some(k) && k.len() > 0 {
        direct
    } else if key_env_name(direct, env_var) is Some && (env_value matches Some(v) && v.len() > 0) {
        env_value
    } else {
        None
    }
}

/// The characters of an optional string.
pub open spec fn opt_chars(o: Option<String>) -> Option<Seq<char>> {
    match o {
        Some(s) => Some(s@),
        None => None,
    }
}

/// The environment variable whose value may hold the API key.
pub fn api_key_env_name(direct: &Option<String>, env_var: &Option<String>) -> (r: Option<String>)
    ensures
        opt_chars(r) == key_env_name(opt_chars(*direct), opt_chars(*env_var)),
{
    if let Some(k) = direct {
        if !k.as_str().is_empty() {
            return None;
        }
    }
    match env_var {
        Some(v) => {
            let t = trim_str(v.as_str());
            if t.as_str().is_empty() {
                None
            } else {
                Some(t)
            }
        },
        None => None,
    }
}

/// Resolves the API key from the direct value, or from `env_value`, the
/// value of the variable [`api_key_env_name`] names (`None` when it is
/// unset or not Unicode).
pub fn resolve_api_key(direct: &Option<String>, env_var: &Option<String>, env_value: Option<String>) -> (r:
    Option<String>)
    ensures
        opt_chars(r) == key_of(opt_chars(*direct), opt_chars(*env_var), opt_chars(env_value)),
{
    if let Some(k) = direct {
        if !k.as_str().is_empty() {
            return Some(k.clone());
        }
    }
    if api_key_env_name(direct, env_var).is_none() {
        return None;
    }
    match env_value {
        Some(v) => if v.as_str().is_empty() {
            None
        } else {
            Some(v)
        },
        None => None,
    }
}

/// The provider a configuration builds.
#[derive(Debug, Clone, PartialEq, Eq)]
#[allow(inconsistent_fields)]
pub enum ProviderPlan {
    /// An OpenAI-compatible provider named `openai`.
    OpenAiCompat { base_url: String, api_key: Option<String>, timeout_secs: u64 },
    Anthropic { api_key: String },
    Local { base_url: String },
}

/// The provider a configuration asks for, given the resolved API key.
pub open spec fn plan_of(provider_type: Seq<char>, base_url: Option<Seq<char>>, key: Option<Seq<char>>) -> Result<
    ProviderPlanModel,
    Seq<char>,
> {
    if provider_type == "openai_compat"@ {
        Ok(
            ProviderPlanModel::OpenAiCompat(
                match base_url {
                    Some(u) => u,
                    None => "https://api.openai.com/v1"@,
                },
                key,
            ),
        )
    } else if provider_type == "anthropic"@ {
        match key {
            Some(k) => Ok(ProviderPlanModel::Anthropic(k)),
            None => Err("Anthropic API key required"@),
        }
    } else if provider_type == "local"@ || provider_type == "ollama"@ {
        Ok(
            ProviderPlanModel::Local(
                match base_url {
                    Some(u) => u,
                    None => "http://localhost:11434/v1"@,
                },
            ),
        )
    } else {
        Err("Unknown provider type: "@ + provider_type)
    }
}

/// Model of a [`ProviderPlan`], leaving out the timeout.
pub enum ProviderPlanModel {
    OpenAiCompat(Seq<char>, Option<Seq<char>>),
    Anthropic(Seq<char>),
    Local(Seq<char>),
}

/// The model of a plan.
pub open spec fn plan_view(p: ProviderPlan) -> ProviderPlanModel {
    match p {
        ProviderPlan::OpenAiCompat { base_url, api_key, .. } => ProviderPlanModel::OpenAiCompat(
            base_url@,
            opt_chars(api_key),
        ),
        ProviderPlan::Anthropic { api_key } => ProviderPlanModel::Anthropic(api_key@),
        ProviderPlan::Local { base_url } => ProviderPlanModel::Local(base_url@),
    }
}

/// What building the provider of `cfg` gives: the plan, or the error's text.
pub fn create_provider(cfg: &ProviderConfig, env_value: Option<String>) -> (r: Result<ProviderPlan, String>)
    ensures
        match r {
            Ok(p) => plan_of(cfg.provider_type@, opt_chars(cfg.base_url), key_of(
                opt_chars(cfg.api_key),
                opt_chars(cfg.api_key_env),
                opt_chars(env_value),
            )) == Ok::<ProviderPlanModel, Seq<char>>(plan_view(p)),
            Err(e) => plan_of(cfg.provider_type@, opt_chars(cfg.base_url), key_of(
                opt_chars(cfg.api_key),
                opt_chars(cfg.api_key_env),
                opt_chars(env_value),
            )) == Err::<ProviderPlanModel, Seq<char>>(e@),
        },
        r matches Ok(ProviderPlan::OpenAiCompat { timeout_secs, .. }) ==> timeout_secs == cfg.timeout_secs,
{
    let t = cfg.provider_type.as_str();
    if str_eq(t, "openai_compat") {
        let api_key = resolve_api_key(&cfg.api_key, &cfg.api_key_env, env_value);
        let base_url = match &cfg.base_url {
            Some(u) => u.clone(),
            None => owned("https://api.openai.com/v1"),
        };
        Ok(ProviderPlan::OpenAiCompat { base_url, api_key, timeout_secs: cfg.timeout_secs })
    } else if str_eq(t, "anthropic") {
        match resolve_api_key(&cfg.api_key, &cfg.api_key_env, env_value) {
            Some(k) => Ok(ProviderPlan::Anthropic { api_key: k }),
            None => Err(owned("Anthropic API key required")),
        }
    } else if str_eq(t, "local") || str_eq(t, "ollama") {
        let base_url = match &cfg.base_url {
            Some(u) => u.clone(),
            None => owned("http://localhost:11434/v1"),
        };
        Ok(ProviderPlan::Local { base_url })
    } else {
        let mut m = owned("Unknown provider type: ");
        push_all(&mut m, t);
        Err(m)
    }
}

/// The provider name a plan reports.
pub fn plan_name(p: &ProviderPlan) -> (r: &'static str)
    ensures
        r@ == match *p {
            ProviderPlan::OpenAiCompat { .. } => "openai"@,
            ProviderPlan::Anthropic { .. } => "anthropic"@,
            ProviderPlan::Local { .. } => "local"@,
        },
{
    match p {
        ProviderPlan::OpenAiCompat { .. } => "openai",
        ProviderPlan::Anthropic { .. } => "anthropic",
        ProviderPlan::Local { .. } => "local",
    }
}

/// How a provider configuration with a fallback chain is assembled.
#[derive(Debug, Clone, PartialEq, Eq)]
pub enum ChainPlan {
    /// No fallbacks: the provider alone.
    Single,
    /// A fallback chain: its name, the primary's name, and the fallbacks'
    /// names, each found among the configurations.
    Chain { name: String, primary_name: String, fallbacks: Vec<String> },
}

/// The position of the configuration named `n`, if any.
pub open spec fn config_index(all: Seq<(String, ProviderConfig)>, n: Seq<char>) -> Option<int> {
    if exists|i: int| 0 <= i < all.len() && all[i].0@ == n {
        Some(choose|i: int| 0 <= i < all.len() && all[i].0@ == n)
    } else {
        None
    }
}

/// The text of the error for a fallback missing from the configurations.
pub open spec fn missing_fallback_msg(n: Seq<char>) -> Seq<char> {
    "Fallback provider '"@ + n + "' not found in config providers map"@
}

/// Decides how `cfg` is assembled: alone when it has no fallbacks;
/// otherwise a chain named after the first fallback, whose primary is
/// named by the default model (or `primary`). Fails on the first fallback
/// that `all` does not configure.
pub fn plan_chain(cfg: &ProviderConfig, all: &Vec<(String, ProviderConfig)>) -> (r: Result<ChainPlan, String>)
    ensures
        match cfg.fallback_chain {
            None => r == Ok::<ChainPlan, String>(ChainPlan::Single),
            Some(names) => if names@.len() == 0 {
                r == Ok::<ChainPlan, String>(ChainPlan::Single)
            } else {
                match r {
                    Ok(ChainPlan::Chain { name, primary_name, fallbacks }) => {
                        &&& name@ == names@[0]@ + "_chain"@
                        &&& primary_name@ == match cfg.default_model {
                            Some(m) => m@,
                            None => "primary"@,
                        }
                        &&& fallbacks@ == names@
                        &&& forall|k: int| 0 <= k < names@.len() ==> config_index(all@, #[trigger] names@[k]@) is Some
                    },
                    Ok(ChainPlan::Single) => false,
                    Err(e) => exists|k: int|
                        0 <= k < names@.len() && config_index(all@, #[trigger] names@[k]@) is None && e@
                            == missing_fallback_msg(names@[k]@) && forall|j: int|
                            0 <= j < k ==> config_index(all@, names@[j]@) is Some,
                }
            },
        },
{
    let names = match &cfg.fallback_chain {
        None => return Ok(ChainPlan::Single),
        Some(n) => n,
    };
    if names.len() == 0 {
        return Ok(ChainPlan::Single);
    }
    let mut k: usize = 0;
    while k < names.len()
        invariant
            k <= names@.len(),
            names@.len() > 0,
            cfg.fallback_chain == Some(*names),
            forall|j: int| 0 <= j < k ==> config_index(all@, #[trigger] names@[j]@) is Some,
        decreases names@.len() - k,
    {
        if config_position(all, names[k].as_str()).is_none() {
            let mut m = owned("Fallback provider '");
            push_all(&mut m, names[k].as_str());
            push_all(&mut m, "' not found in config providers map");
            assert(config_index(all@, names@[k as int]@) is None);
            assert(m@ == missing_fallback_msg(names@[k as int]@));
            return Err(m);
        }
        k = k + 1;
    }
    let mut name = names[0].clone();
    push_all(&mut name, "_chain");
    let primary_name = match &cfg.default_model {
        Some(m) => m.clone(),
        None => owned("primary"),
    };
    Ok(ChainPlan::Chain { name, primary_name, fallbacks: names.clone() })
}

/// The position of the configuration named `n`.
pub fn config_position(all: &Vec<(String, ProviderConfig)>, n: &str) -> (r: Option<usize>)
    ensures
        match r {
            Some(i) => i < all@.len() && all@[i as int].0@ == n@,
            None => config_index(all@, n@) is None,
        },
{
    let mut i: usize = 0;
    while i < all.len()
        invariant
            i <= all@.len(),
            forall|k: int| 0 <= k < i ==> all@[k].0@ != n@,
        decreases all@.len() - i,
    {
        if str_eq(all[i].0.as_str(), n) {
            return Some(i);
        }
        i = i + 1;
    }
    None
}

// ── the registry ─────────────────────────────────────────────────────

/// The names of registered providers.
pub open spec fn provider_names<P>(ps: Seq<(String, P)>) -> Seq<Seq<char>> {
    ps.map_values(|e: (String, P)| e.0@)
}

/// The provider registered under `n`.
pub open spec fn provider_index<P>(ps: Seq<(String, P)>, n: Seq<char>) -> Option<int> {
    if exists|i: int| 0 <= i < ps.len() && ps[i].0@ == n {
        Some(choose|i: int| 0 <= i < ps.len() && ps[i].0@ == n)
    } else {
        None
    }
}

/// `after` is `before` with `p` registered under `name`: in the place of
/// an earlier provider of that name, else at the end.
pub open spec fn registered<P>(before: Seq<(String, P)>, after: Seq<(String, P)>, name: Seq<char>, p: P) -> bool {
    match provider_index(before, name) {
        Some(i) => after == before.update(i, (after[i].0, p)) && after[i].0@ == name,
        None => after.len() == before.len() + 1 && after.drop_last() == before && after.last().0@ == name
            && after.last().1 == p,
    }
}

/// Looking a name up right after registering a provider under it finds
/// that provider.
pub proof fn law_register_then_get<P>(before: Seq<(String, P)>, after: Seq<(String, P)>, name: Seq<char>, p: P)
    requires
        distinct(provider_names(before)),
        registered(before, after, name, p),
    ensures
        provider_index(after, name) matches Some(j) && after[j].1 == p,
{
    let w: int = match provider_index(before, name) {
        Some(i) => i,
        None => before.len() as int,
    };
    assert(0 <= w < after.len() && after[w].0@ == name && after[w].1 == p);
    assert forall|k: int| 0 <= k < after.len() && after[k].0@ == name implies k == w by {
        if k != w {
            assert(k < before.len());
            assert(after[k] == before[k]);
            match provider_index(before, name) {
                Some(i) => {
                    assert(provider_names(before)[k] != provider_names(before)[i]);
                },
                None => {
                    assert(before[k].0@ == name);
                },
            }
        }
    }
    let j = provider_index(after, name)->0;
    assert(0 <= j < after.len() && after[j].0@ == name);
}

/// Providers by name, each name once, in the order first registered.
#[derive(Debug)]
pub struct ProviderRegistry<P> {
    providers: Vec<(String, P)>,
}

impl<P> ProviderRegistry<P> {
    /// The registered providers.
    pub closed spec fn entries(&self) -> Seq<(String, P)> {
        self.providers@
    }

    /// Each name is registered once.
    pub closed spec fn wf(&self) -> bool {
        distinct(provider_names(self.providers@))
    }

    /// An empty registry.
    pub fn new() -> (r: ProviderRegistry<P>)
        ensures
            r.wf(),
            r.entries().len() == 0,
    {
        ProviderRegistry { providers: Vec::new() }
    }

    fn index_of(&self, name: &str) -> (r: Option<usize>)
        requires
            self.wf(),
        ensures
            match r {
                Some(i) => provider_index(self.entries(), name@) == Some(i as int) && i < self.entries().len(),
                None => provider_index(self.entries(), name@) is None,
            },
    {
        let mut i: usize = 0;
        while i < self.providers.len()
            invariant
                i <= self.providers@.len(),
                distinct(provider_names(self.providers@)),
                forall|k: int| 0 <= k < i ==> self.providers@[k].0@ != name@,
            decreases self.providers@.len() - i,
        {
            if str_eq(self.providers[i].0.as_str(), name) {
                proof {
                    let es = self.providers@;
                    let c = choose|k: int| 0 <= k < es.len() && es[k].0@ == name@;
                    if c != i as int {
                        assert(provider_names(es)[c] != provider_names(es)[i as int]);
                    }
                }
                return Some(i);
            }
            i = i + 1;
        }
        None
    }

    /// Registers `provider` under `name`, replacing an earlier one of that
    /// name in its place.
    pub fn register(&mut self, name: &str, provider: P)
        requires
            old(self).wf(),
        ensures
            final(self).wf(),
            registered(old(self).entries(), final(self).entries(), name@, provider),
    {
        let ghost before = self.providers@;
        match self.index_of(name) {
            Some(i) => {
                let (n, _) = self.providers.remove(i);
                self.providers.insert(i, (n, provider));
                proof {
                    let now = self.providers@;
                    assert(now =~= before.update(i as int, now[i as int]));
                    assert(provider_names(now) =~= provider_names(before));
                }
            },
            None => {
                self.providers.push((owned(name), provider));
                proof {
                    let now = self.providers@;
                    let pn = provider_names(now);
                    let pb = provider_names(before);
                    assert(pn =~= pb.push(name@));
                    assert(now.drop_last() =~= before);
                    assert forall|a: int, b: int| 0 <= a < pn.len() && 0 <= b < pn.len() && a != b implies pn[a] != pn[b] by {
                        if a < pb.len() && b < pb.len() {
                            assert(pb[a] != pb[b]);
                        } else if a < pb.len() {
                            assert(before[a].0@ != name@);
                        } else {
                            assert(before[b].0@ != name@);
                        }
                    }
                }
            },
        }
    }

    /// The provider registered under `name`.
    pub fn get(&self, name: &str) -> (r: Option<&P>)
        requires
            self.wf(),
        ensures
            match provider_index(self.entries(), name@) {
                Some(i) => r == Some(&self.entries()[i].1),
                None => r is None,
            },
    {
        match self.index_of(name) {
            Some(i) => Some(&self.providers[i].1),
            None => None,
        }
    }

    /// Removes the provider registered under `name`.
    pub fn remove(&mut self, name: &str) -> (r: Option<P>)
        requires
            old(self).wf(),
        ensures
            final(self).wf(),
            match provider_index(old(self).entries(), name@) {
                Some(i) => r == Some(old(self).entries()[i].1) && final(self).entries() == old(self).entries().remove(i),
                None => r is None && final(self).entries() == old(self).entries(),
            },
    {
        let ghost before = self.providers@;
        match self.index_of(name) {
            Some(i) => {
                let (_, p) = self.providers.remove(i);
                proof {
                    let now = provider_names(self.providers@);
                    let bn = provider_names(before);
                    assert forall|a: int, b: int| 0 <= a < now.len() && 0 <= b < now.len() && a != b implies now[a] != now[b] by {
                        let a2 = if a < i { a } else { a + 1 };
                        let b2 = if b < i { b } else { b + 1 };
                        assert(now[a] == bn[a2] && now[b] == bn[b2]);
                    }
                }
                Some(p)
            },
            None => None,
        }
    }

    /// The registered names, in order.
    pub fn list_names(&self) -> (r: Vec<String>)
        ensures
            r@.len() == self.entries().len(),
            forall|i: int| 0 <= i < r@.len() ==> (#[trigger] r@[i])@ == self.entries()[i].0@,
    {
        let mut out: Vec<String> = Vec::new();
        let mut i: usize = 0;
        while i < self.providers.len()
            invariant
                i <= self.providers@.len(),
                out@.len() == i,
                forall|k: int| 0 <= k < i ==> (#[trigger] out@[k])@ == self.providers@[k].0@,
            decreases self.providers@.len() - i,
        {
            out.push(self.providers[i].0.clone());
            i = i + 1;
        }
        out
    }

    /// The provider named `default`, else the first registered; an error
    /// when none is registered.
    pub fn default(&self) -> (r: Result<&P, String>)
        requires
            self.wf(),
        ensures
            match provider_index(self.entries(), "default"@) {
                Some(i) => r == Ok::<&P, String>(&self.entries()[i].1),
                None => if self.entries().len() > 0 {
                    r == Ok::<&P, String>(&self.entries()[0].1)
                } else {
                    r matches Err(e) && e@ == "No providers registered"@
                },
            },
    {
        if let Some(p) = self.get("default") {
            return Ok(p);
        }
        if self.providers.len() > 0 {
            Ok(&self.providers[0].1)
        } else {
            Err(owned("No providers registered"))
        }
    }

    /// The provider a delegating provider uses: the one named
    /// `default_provider`, else the registry's default; an error when
    /// there is none.
    pub fn resolve(&self, default_provider: &str) -> (r: Result<&P, String>)
        requires
            self.wf(),
        ensures
            match provider_index(self.entries(), default_provider@) {
                Some(i) => r == Ok::<&P, String>(&self.entries()[i].1),
                None => match provider_index(self.entries(), "default"@) {
                    Some(i) => r == Ok::<&P, String>(&self.entries()[i].1),
                    None => if self.entries().len() > 0 {
                        r == Ok::<&P, String>(&self.entries()[0].1)
                    } else {
                        r matches Err(e) && e@ == "No provider available"@
                    },
                },
            },
    {
        if let Some(p) = self.get(default_provider) {
            return Ok(p);
        }
        match self.default() {
            Ok(p) => Ok(p),
            Err(_) => Err(owned("No provider available")),
        }
    }
}

} // verus!
