//! Router configuration: defaults, providers, validation, readiness.

use vstd::prelude::*;
use crate::projects::strs;
use crate::rules::DynamicRoutingRule;
use crate::text::{same_str, push_char, starts_with, chars_of, starts_with_chars, contains_seq, contains_str};

verus! {

/// How the router process is run.
pub struct RouterConfig {
    pub enabled: bool,
    pub port: u16,
    pub timeout_ms: u64,
    pub max_retries: u8,
    pub auto_start: bool,
    pub cost_optimization: bool,
    pub fallback_enabled: bool,
}

/// The router settings a fresh install starts with: off, on port 3456,
/// 30 s timeout, 3 retries, started automatically.
pub fn get_default_router_config() -> (r: RouterConfig)
    ensures
        r == (RouterConfig {
            enabled: false,
            port: 3456,
            timeout_ms: 30000,
            max_retries: 3,
            auto_start: true,
            cost_optimization: true,
            fallback_enabled: true,
        }),
{
    RouterConfig {
        enabled: false,
        port: 3456,
        timeout_ms: 30000,
        max_retries: 3,
        auto_start: true,
        cost_optimization: true,
        fallback_enabled: true,
    }
}

/// Which path requests take.
#[derive(PartialEq, Eq, Structural, Clone, Copy, Debug)]
pub enum RoutingMode {
    /// The agent CLI alone.
    Native,
    /// The router alone.
    RouterOnly,
    /// Chosen per request.
    SmartRouting,
    /// Chosen by the user.
    Manual,
}

impl RoutingMode {
    /// The default mode: smart routing.
    pub fn default_mode() -> (r: Self)
        ensures
            r == RoutingMode::SmartRouting,
    {
        RoutingMode::SmartRouting
    }
}

/// A model provider as the router sees it.
pub struct RouterProvider {
    pub name: String,
    pub api_base_url: String,
    pub api_key: String,
    pub models: Vec<String>,
    /// 1 to 10, 10 highest.
    pub priority: u8,
    pub enabled: bool,
}

/// The static route roles, each a `provider,model` string, and the dynamic rules.
pub struct RoutingRules {
    pub default: String,
    pub background: Option<String>,
    pub think: Option<String>,
    pub long_context: Option<String>,
    pub coding: Option<String>,
    pub analysis: Option<String>,
    pub dynamic_rules: Vec<DynamicRoutingRule>,
}

fn some_owned(s: &str) -> (r: Option<String>)
    ensures
        r matches Some(t) && t@ == s@,
{
    Some(s.to_owned())
}

impl RoutingRules {
    /// The routes a fresh install starts with, and no dynamic rules: the
    /// primary route serves the default and analysis roles, the reasoning
    /// route the think role.
    pub fn default_rules(primary: &str, reasoning: &str) -> (r: Self)
        ensures
            r.default@ == primary@,
            r.background matches Some(s) && s@ == "deepseek,deepseek-chat"@,
            r.think matches Some(s) && s@ == reasoning@,
            r.long_context matches Some(s) && s@ == "google,gemini-pro"@,
            r.coding matches Some(s) && s@ == "openai,gpt-4-turbo"@,
            r.analysis matches Some(s) && s@ == primary@,
            r.dynamic_rules@.len() == 0,
    {
        RoutingRules {
            default: primary.to_owned(),
            background: some_owned("deepseek,deepseek-chat"),
            think: some_owned(reasoning),
            long_context: some_owned("google,gemini-pro"),
            coding: some_owned("openai,gpt-4-turbo"),
            analysis: some_owned(primary),
            dynamic_rules: Vec::new(),
        }
    }
}

/// Settings shared by all providers.
pub struct GlobalSettings {
    pub api_key: Option<String>,
    pub host: String,
    pub api_timeout_ms: u64,
    pub non_interactive_mode: bool,
    pub log_level: String,
}

impl GlobalSettings {
    /// Bound to 127.0.0.1, 30 s timeout, interactive, `info` logging.
    pub fn default_settings() -> (r: Self)
        ensures
            r.api_key is None,
            r.host@ == "127.0.0.1"@,
            r.api_timeout_ms == 30000,
            !r.non_interactive_mode,
            r.log_level@ == "info"@,
    {
        GlobalSettings {
            api_key: None,
            host: "127.0.0.1".to_owned(),
            api_timeout_ms: 30000,
            non_interactive_mode: false,
            log_level: "info".to_owned(),
        }
    }
}

/// How the workbench works with the router.
pub struct IntegrationSettings {
    pub auto_sync_config: bool,
    pub fallback_to_native: bool,
    pub routing_mode: RoutingMode,
    pub cost_optimization: bool,
    /// Seconds between health checks.
    pub health_check_interval: u64,
}

impl IntegrationSettings {
    /// Synced, falling back to the CLI, smart routing, checks every 30 s.
    pub fn default_settings() -> (r: Self)
        ensures
            r == (IntegrationSettings {
                auto_sync_config: true,
                fallback_to_native: true,
                routing_mode: RoutingMode::SmartRouting,
                cost_optimization: true,
                health_check_interval: 30,
            }),
    {
        IntegrationSettings {
            auto_sync_config: true,
            fallback_to_native: true,
            routing_mode: RoutingMode::SmartRouting,
            cost_optimization: true,
            health_check_interval: 30,
        }
    }
}

/// A provider preset of the workbench.
pub struct ProviderConfig {
    pub id: String,
    pub name: String,
    pub description: String,
    pub base_url: String,
    pub auth_token: Option<String>,
    pub api_key: Option<String>,
    pub model: Option<String>,
}

/// The provider settings currently in effect.
pub struct CurrentConfig {
    pub anthropic_base_url: Option<String>,
    pub anthropic_auth_token: Option<String>,
    pub anthropic_api_key: Option<String>,
    pub anthropic_model: Option<String>,
}

/// The router priority of the workbench provider at position `i`: 10 for the
/// first, one less for each next, and 1 from the tenth on.
pub open spec fn sync_priority(i: int) -> u8 {
    (10 - if i < 9 { i } else { 9 }) as u8
}

/// The router providers made from the workbench's, in order: same name and
/// address, the auth token as key, no models yet, enabled.
pub fn router_providers_from(providers: &Vec<ProviderConfig>) -> (r: Vec<RouterProvider>)
    ensures
        r@.len() == providers@.len(),
        forall|i: int| 0 <= i < r@.len() ==> {
            let p = #[trigger] r@[i];
            let w = providers@[i];
            &&& p.name == w.name
            &&& p.api_base_url == w.base_url
            &&& p.api_key@ == match w.auth_token { Some(t) => t@, None => Seq::<char>::empty() }
            &&& p.models@.len() == 0
            &&& p.priority == sync_priority(i)
            &&& p.enabled
        },
{
    let mut out: Vec<RouterProvider> = Vec::new();
    let mut i: usize = 0;
    while i < providers.len()
        invariant
            i <= providers.len(),
            out@.len() == i,
            forall|k: int| 0 <= k < i ==> {
                let p = #[trigger] out@[k];
                let w = providers@[k];
                &&& p.name == w.name
                &&& p.api_base_url == w.base_url
                &&& p.api_key@ == match w.auth_token { Some(t) => t@, None => Seq::<char>::empty() }
                &&& p.models@.len() == 0
                &&& p.priority == sync_priority(k)
                &&& p.enabled
            },
        decreases providers.len() - i,
    {
        let w = &providers[i];
        let key = match &w.auth_token {
            Some(t) => t.clone(),
            None => String::new(),
        };
        let step: usize = if i < 9 { i } else { 9 };
        out.push(RouterProvider {
            name: w.name.clone(),
            api_base_url: w.base_url.clone(),
            api_key: key,
            models: Vec::new(),
            priority: (10 - step) as u8,
            enabled: true,
        });
        i = i + 1;
    }
    out
}

/// Why a provider edit was refused.
#[derive(PartialEq, Eq, Structural, Clone, Copy, Debug)]
pub enum ProviderError {
    /// No provider has that name.
    UnknownProvider,
}

/// The first provider named `name`, or -1.
pub open spec fn provider_index(ps: Seq<RouterProvider>, name: Seq<char>) -> int
    decreases ps.len(),
{
    if ps.len() == 0 {
        -1
    } else if ps[0].name@ == name {
        0
    } else {
        let r = provider_index(ps.drop_first(), name);
        if r < 0 { -1 } else { r + 1 }
    }
}

proof fn lemma_provider_index(ps: Seq<RouterProvider>, name: Seq<char>)
    ensures
        -1 <= provider_index(ps, name) < ps.len(),
        forall|m: int| 0 <= m < ps.len() && (provider_index(ps, name) < 0 || m < provider_index(ps, name))
            ==> (#[trigger] ps[m]).name@ != name,
        provider_index(ps, name) >= 0 ==> ps[provider_index(ps, name)].name@ == name,
    decreases ps.len(),
{
    if ps.len() > 0 && ps[0].name@ != name {
        lemma_provider_index(ps.drop_first(), name);
        assert forall|m: int| 0 <= m < ps.len() && (provider_index(ps, name) < 0 || m < provider_index(ps, name))
            implies (#[trigger] ps[m]).name@ != name by {
            if m > 0 {
                assert(ps[m] == ps.drop_first()[m - 1]);
            }
        }
    }
}

/// Replaces the model list of the first provider named `name`.
pub fn update_provider_models(providers: &mut Vec<RouterProvider>, name: &str, models: Vec<String>) -> (r: Result<(), ProviderError>)
    ensures
        (r is Err) <==> provider_index(old(providers)@, name@) < 0,
        r is Err ==> final(providers)@ == old(providers)@,
        r is Ok ==> {
            let k = provider_index(old(providers)@, name@);
            &&& final(providers)@.len() == old(providers)@.len()
            &&& final(providers)@[k].models@ == models@
            &&& final(providers)@[k].name == old(providers)@[k].name
            &&& final(providers)@[k].priority == old(providers)@[k].priority
            &&& forall|i: int| 0 <= i < final(providers)@.len() && i != k ==> #[trigger] final(providers)@[i]
                == old(providers)@[i]
        },
{
    proof {
        lemma_provider_index(providers@, name@);
    }
    let mut i: usize = 0;
    while i < providers.len()
        invariant
            i <= providers.len(),
            providers@ == old(providers)@,
            forall|m: int| 0 <= m < i ==> (#[trigger] providers@[m]).name@ != name@,
            -1 <= provider_index(providers@, name@) < providers@.len(),
            forall|m: int| 0 <= m < providers@.len() && (provider_index(providers@, name@) < 0 || m < provider_index(providers@, name@))
                ==> (#[trigger] providers@[m]).name@ != name@,
            provider_index(providers@, name@) >= 0 ==> providers@[provider_index(providers@, name@)].name@ == name@,
        decreases providers.len() - i,
    {
        if same_str(providers[i].name.as_str(), name) {
            proof {
                let k = provider_index(providers@, name@);
                if 0 <= k < i {
                    assert(providers@[k].name@ != name@);
                }
            }
            let mut p = RouterProvider {
                name: String::new(),
                api_base_url: String::new(),
                api_key: String::new(),
                models: Vec::new(),
                priority: 0,
                enabled: false,
            };
            providers.set_and_swap(i, &mut p);
            p.models = models;
            providers.set(i, p);
            return Ok(());
        }
        i = i + 1;
    }
    Err(ProviderError::UnknownProvider)
}

/// The `env` keys of the settings file that a provider switch manages.
pub fn managed_env_keys() -> (r: Vec<String>)
    ensures
        strs(r@) == seq!["ANTHROPIC_API_KEY"@, "ANTHROPIC_AUTH_TOKEN"@, "ANTHROPIC_BASE_URL"@, "ANTHROPIC_MODEL"@],
{
    let mut v: Vec<String> = Vec::new();
    v.push("ANTHROPIC_API_KEY".to_owned());
    v.push("ANTHROPIC_AUTH_TOKEN".to_owned());
    v.push("ANTHROPIC_BASE_URL".to_owned());
    v.push("ANTHROPIC_MODEL".to_owned());
    assert(strs(v@) =~= seq!["ANTHROPIC_API_KEY"@, "ANTHROPIC_AUTH_TOKEN"@, "ANTHROPIC_BASE_URL"@, "ANTHROPIC_MODEL"@]);
    v
}

/// A setting that is present and not empty.
pub open spec fn set_value(o: Option<String>) -> Option<Seq<char>> {
    match o {
        Some(v) => if v@.len() > 0 { Some(v@) } else { None },
        None => None,
    }
}

/// One `env` entry, when the value is there.
pub open spec fn entry_if(key: Seq<char>, value: Option<Seq<char>>) -> Seq<(Seq<char>, Seq<char>)> {
    match value {
        Some(v) => seq![(key, v)],
        None => Seq::empty(),
    }
}

/// The `env` entries a provider sets: its address always; its token, key
/// and model when given and not empty.
pub open spec fn provider_env_spec(c: ProviderConfig) -> Seq<(Seq<char>, Seq<char>)> {
    seq![("ANTHROPIC_BASE_URL"@, c.base_url@)]
        + entry_if("ANTHROPIC_AUTH_TOKEN"@, set_value(c.auth_token))
        + entry_if("ANTHROPIC_API_KEY"@, set_value(c.api_key))
        + entry_if("ANTHROPIC_MODEL"@, set_value(c.model))
}

pub open spec fn pair_views(v: Seq<(String, String)>) -> Seq<(Seq<char>, Seq<char>)> {
    v.map_values(|p: (String, String)| (p.0@, p.1@))
}

fn push_entry(v: &mut Vec<(String, String)>, key: &str, value: &Option<String>)
    ensures
        pair_views(final(v)@) == pair_views(old(v)@) + entry_if(key@, set_value(*value)),
{
    let ghost o = v@;
    match value {
        Some(x) => {
            if !x.as_str().is_empty() {
                v.push((key.to_owned(), x.clone()));
                assert(pair_views(v@) =~= pair_views(o) + entry_if(key@, set_value(*value)));
            } else {
                assert(pair_views(v@) =~= pair_views(o) + entry_if(key@, set_value(*value)));
            }
        },
        None => {
            assert(pair_views(v@) =~= pair_views(o) + entry_if(key@, set_value(*value)));
        },
    }
}

/// The `env` entries to write for provider `config`, after the managed keys
/// are removed.
pub fn provider_env(config: &ProviderConfig) -> (r: Vec<(String, String)>)
    ensures
        pair_views(r@) == provider_env_spec(*config),
{
    let mut v: Vec<(String, String)> = Vec::new();
    v.push(("ANTHROPIC_BASE_URL".to_owned(), config.base_url.clone()));
    assert(pair_views(v@) =~= seq![("ANTHROPIC_BASE_URL"@, config.base_url@)]);
    push_entry(&mut v, "ANTHROPIC_AUTH_TOKEN", &config.auth_token);
    push_entry(&mut v, "ANTHROPIC_API_KEY", &config.api_key);
    push_entry(&mut v, "ANTHROPIC_MODEL", &config.model);
    v
}

/// A model the router offers, named `provider,model`.
pub struct CCRModel {
    pub provider: String,
    pub model: String,
    pub full_name: String,
}

/// The models of `ps`, provider by provider: provider, model and full name.
pub open spec fn models_spec(ps: Seq<RouterProvider>) -> Seq<(Seq<char>, Seq<char>, Seq<char>)>
    decreases ps.len(),
{
    if ps.len() == 0 {
        Seq::empty()
    } else {
        let p = ps.last();
        models_spec(ps.drop_last()) + Seq::new(
            p.models@.len(),
            |j: int| (p.name@, p.models@[j]@, p.name@ + seq![','] + p.models@[j]@),
        )
    }
}

pub open spec fn model_views(m: Seq<CCRModel>) -> Seq<(Seq<char>, Seq<char>, Seq<char>)> {
    m.map_values(|x: CCRModel| (x.provider@, x.model@, x.full_name@))
}

/// Every model of every provider, as `provider,model`.
pub fn models_from_providers(providers: &Vec<RouterProvider>) -> (r: Vec<CCRModel>)
    ensures
        model_views(r@) == models_spec(providers@),
{
    let mut out: Vec<CCRModel> = Vec::new();
    let mut i: usize = 0;
    assert(model_views(out@) =~= models_spec(providers@.subrange(0, 0)));
    while i < providers.len()
        invariant
            i <= providers.len(),
            model_views(out@) == models_spec(providers@.subrange(0, i as int)),
        decreases providers.len() - i,
    {
        let p = &providers[i];
        let ghost base = model_views(out@);
        let mut j: usize = 0;
        while j < p.models.len()
            invariant
                j <= p.models.len(),
                model_views(out@) == base + Seq::new(
                    j as nat,
                    |m: int| (p.name@, p.models@[m]@, p.name@ + seq![','] + p.models@[m]@),
                ),
            decreases p.models.len() - j,
        {
            let mut full = p.name.clone();
            push_char(&mut full, ',');
            full.append(p.models[j].as_str());
            let ghost o = out@;
            let item = CCRModel { provider: p.name.clone(), model: p.models[j].clone(), full_name: full };
            assert(item.model@ == p.models@[j as int]@);
            assert(item.full_name@ == p.name@ + seq![','] + p.models@[j as int]@);
            out.push(item);
            assert(model_views(out@) =~= model_views(o).push(
                (p.name@, p.models@[j as int]@, p.name@ + seq![','] + p.models@[j as int]@),
            ));
            assert(model_views(out@) =~= base + Seq::new(
                (j + 1) as nat,
                |m: int| (p.name@, p.models@[m]@, p.name@ + seq![','] + p.models@[m]@),
            ));
            j = j + 1;
        }
        assert(providers@.subrange(0, i + 1).drop_last() =~= providers@.subrange(0, i as int));
        assert(providers@.subrange(0, i + 1).last() == *p);
        i = i + 1;
    }
    assert(providers@.subrange(0, providers.len() as int) =~= providers@);
    out
}

/// Something in the router configuration that deserves attention.
pub enum ConfigWarning {
    /// The router is on but has no provider.
    EnabledWithoutProviders,
    /// The port is below 1024 and may need privileges.
    PrivilegedPort,
    /// An enabled provider has no API key.
    MissingApiKey { provider: String },
    /// An enabled provider's address does not start with `http`.
    SuspiciousUrl { provider: String },
}

/// The warnings about one provider.
pub open spec fn provider_warnings(p: RouterProvider) -> Seq<ConfigWarning> {
    (if p.enabled && p.api_key@.len() == 0 {
        seq![ConfigWarning::MissingApiKey { provider: p.name }]
    } else {
        Seq::empty()
    }) + (if p.enabled && !starts_with(p.api_base_url@, "http"@) {
        seq![ConfigWarning::SuspiciousUrl { provider: p.name }]
    } else {
        Seq::empty()
    })
}

/// The warnings about the providers, in order.
pub open spec fn providers_warnings(ps: Seq<RouterProvider>) -> Seq<ConfigWarning>
    decreases ps.len(),
{
    if ps.len() == 0 {
        Seq::empty()
    } else {
        providers_warnings(ps.drop_last()) + provider_warnings(ps.last())
    }
}

/// Checks a router configuration and returns its warnings.
pub fn validate_router_config(config: &RouterConfig, providers: &Vec<RouterProvider>) -> (r: Vec<ConfigWarning>)
    ensures
        r@ == (if config.enabled && providers@.len() == 0 {
            seq![ConfigWarning::EnabledWithoutProviders]
        } else {
            Seq::empty()
        }) + (if config.port < 1024 { seq![ConfigWarning::PrivilegedPort] } else { Seq::empty() })
            + providers_warnings(providers@),
{
    let mut out: Vec<ConfigWarning> = Vec::new();
    if config.enabled && providers.len() == 0 {
        out.push(ConfigWarning::EnabledWithoutProviders);
    }
    if config.port < 1024 {
        out.push(ConfigWarning::PrivilegedPort);
    }
    let ghost head = out@;
    let mut http: Vec<char> = Vec::new();
    http.push('h');
    http.push('t');
    http.push('t');
    http.push('p');
    proof {
        reveal_strlit("http");
    }
    assert(http@ =~= "http"@);
    let mut i: usize = 0;
    assert(providers@.subrange(0, 0) =~= Seq::<RouterProvider>::empty());
    while i < providers.len()
        invariant
            i <= providers.len(),
            http@ == "http"@,
            out@ == head + providers_warnings(providers@.subrange(0, i as int)),
        decreases providers.len() - i,
    {
        let p = &providers[i];
        let ghost o = out@;
        if p.enabled && p.api_key.as_str().is_empty() {
            out.push(ConfigWarning::MissingApiKey { provider: p.name.clone() });
        }
        let url = chars_of(p.api_base_url.as_str());
        if p.enabled && !starts_with_chars(&url, &http) {
            out.push(ConfigWarning::SuspiciousUrl { provider: p.name.clone() });
        }
        assert(out@ =~= o + provider_warnings(*p));
        assert(providers@.subrange(0, i + 1).drop_last() =~= providers@.subrange(0, i as int));
        assert(providers@.subrange(0, i + 1).last() == *p);
        i = i + 1;
    }
    assert(providers@.subrange(0, providers.len() as int) =~= providers@);
    out
}

/// A provider as the settings screen shows it.
pub struct CCRProvider {
    pub name: String,
    pub api_base_url: String,
    pub models: Vec<String>,
}

/// The routes as the settings screen shows them; a missing route is empty.
pub struct CCRRouterRules {
    pub default: String,
    pub background: String,
    pub think: String,
    pub long_context: String,
    pub web_search: String,
    pub long_context_threshold: u64,
}

/// The router configuration as the settings screen shows it.
pub struct CCRConfigInfo {
    pub providers: Vec<CCRProvider>,
    pub router_rules: CCRRouterRules,
    pub host: String,
    pub port: u16,
    pub api_timeout_ms: u64,
    pub log_enabled: bool,
}

/// Tokens above which a request counts as long-context.
pub const LONG_CONTEXT_THRESHOLD: u64 = 60000;

/// A route's text, empty when it is not set.
pub open spec fn route_text(r: Option<String>) -> Seq<char> {
    match r {
        Some(s) => s@,
        None => Seq::empty(),
    }
}

fn route_or_empty(r: &Option<String>) -> (t: String)
    ensures
        t@ == route_text(*r),
{
    match r {
        Some(s) => s.clone(),
        None => String::new(),
    }
}

/// The settings screen's view of the router configuration: providers with
/// their models, the routes (the analysis route is shown as web search), the
/// host and the logging switch.
pub fn ccr_config_info(
    config: &RouterConfig,
    providers: &Vec<RouterProvider>,
    rules: &RoutingRules,
    settings: &GlobalSettings,
) -> (r: CCRConfigInfo)
    ensures
        r.providers@.len() == providers@.len(),
        forall|i: int| 0 <= i < r.providers@.len() ==> {
            &&& (#[trigger] r.providers@[i]).name == providers@[i].name
            &&& r.providers@[i].api_base_url == providers@[i].api_base_url
            &&& r.providers@[i].models@ == providers@[i].models@
        },
        r.router_rules.default == rules.default,
        r.router_rules.background@ == route_text(rules.background),
        r.router_rules.think@ == route_text(rules.think),
        r.router_rules.long_context@ == route_text(rules.long_context),
        r.router_rules.web_search@ == route_text(rules.analysis),
        r.router_rules.long_context_threshold == LONG_CONTEXT_THRESHOLD,
        r.host == settings.host,
        r.port == config.port,
        r.api_timeout_ms == settings.api_timeout_ms,
        r.log_enabled == (settings.log_level@ != "none"@),
{
    let mut ps: Vec<CCRProvider> = Vec::new();
    let mut i: usize = 0;
    while i < providers.len()
        invariant
            i <= providers.len(),
            ps@.len() == i,
            forall|k: int| 0 <= k < i ==> {
                &&& (#[trigger] ps@[k]).name == providers@[k].name
                &&& ps@[k].api_base_url == providers@[k].api_base_url
                &&& ps@[k].models@ == providers@[k].models@
            },
        decreases providers.len() - i,
    {
        let p = &providers[i];
        let mut models: Vec<String> = Vec::new();
        let mut j: usize = 0;
        while j < p.models.len()
            invariant
                j <= p.models.len(),
                models@ == p.models@.subrange(0, j as int),
            decreases p.models.len() - j,
        {
            models.push(p.models[j].clone());
            assert(models@ =~= p.models@.subrange(0, j + 1));
            j = j + 1;
        }
        assert(models@ =~= p.models@);
        ps.push(CCRProvider { name: p.name.clone(), api_base_url: p.api_base_url.clone(), models });
        i = i + 1;
    }
    CCRConfigInfo {
        providers: ps,
        router_rules: CCRRouterRules {
            default: rules.default.clone(),
            background: route_or_empty(&rules.background),
            think: route_or_empty(&rules.think),
            long_context: route_or_empty(&rules.long_context),
            web_search: route_or_empty(&rules.analysis),
            long_context_threshold: LONG_CONTEXT_THRESHOLD,
        },
        host: settings.host.clone(),
        port: config.port,
        api_timeout_ms: settings.api_timeout_ms,
        log_enabled: !same_str(settings.log_level.as_str(), "none"),
    }
}

/// Whether the router wrapper's `status` output says it runs.
pub fn router_status_running(stdout: &str) -> (r: bool)
    ensures
        r == (contains_seq(stdout@, "Running"@) || contains_seq(stdout@, "running"@)),
{
    contains_str(stdout, "Running") || contains_str(stdout, "running")
}

/// Status polls after a start before giving up.
pub const READY_ATTEMPTS: u32 = 30;

/// Milliseconds between status polls.
pub const READY_POLL_MS: u64 = 1000;

/// What to do after status poll `attempt` (from 1) of a starting router.
#[derive(PartialEq, Eq, Structural, Clone, Copy, Debug)]
pub enum ReadinessStep {
    Ready,
    /// Poll again after this many milliseconds.
    Wait { millis: u64 },
    TimedOut,
}

/// Ready as soon as a poll says it runs; otherwise poll every second, up to
/// thirty times.
pub fn readiness_step(attempt: u32, running: bool) -> (r: ReadinessStep)
    ensures
        running ==> r == ReadinessStep::Ready,
        !running && attempt < READY_ATTEMPTS ==> r == (ReadinessStep::Wait { millis: READY_POLL_MS }),
        !running && attempt >= READY_ATTEMPTS ==> r == ReadinessStep::TimedOut,
{
    if running {
        ReadinessStep::Ready
    } else if attempt < READY_ATTEMPTS {
        ReadinessStep::Wait { millis: READY_POLL_MS }
    } else {
        ReadinessStep::TimedOut
    }
}

/// A request the router routes to a model.
pub struct ClaudeRequest {
    pub prompt: String,
    pub session_id: Option<String>,
    pub project_path: Option<String>,
    pub model_preference: Option<String>,
    pub max_tokens: Option<u32>,
}

/// The failures of the router subsystem.
pub enum RouterError {
    ConfigError(String),
    NetworkError(String),
    ProcessError(String),
    ParseError(String),
    IoError(String),
    TimeoutError(String),
    HealthError(String),
    RoutingError(String),
    Unknown(String),
}

/// The label that introduces an error of each kind.
pub open spec fn error_label(e: RouterError) -> Seq<char> {
    match e {
        RouterError::ConfigError(_) => "配置错误: "@,
        RouterError::NetworkError(_) => "网络错误: "@,
        RouterError::ProcessError(_) => "进程错误: "@,
        RouterError::ParseError(_) => "解析错误: "@,
        RouterError::IoError(_) => "IO错误: "@,
        RouterError::TimeoutError(_) => "超时错误: "@,
        RouterError::HealthError(_) => "健康检查错误: "@,
        RouterError::RoutingError(_) => "路由错误: "@,
        RouterError::Unknown(_) => "未知错误: "@,
    }
}

/// The detail an error carries.
pub open spec fn error_detail(e: RouterError) -> Seq<char> {
    match e {
        RouterError::ConfigError(m) => m@,
        RouterError::NetworkError(m) => m@,
        RouterError::ProcessError(m) => m@,
        RouterError::ParseError(m) => m@,
        RouterError::IoError(m) => m@,
        RouterError::TimeoutError(m) => m@,
        RouterError::HealthError(m) => m@,
        RouterError::RoutingError(m) => m@,
        RouterError::Unknown(m) => m@,
    }
}

impl RouterError {
    /// The printable message: the kind's label, then the detail.
    pub fn message(&self) -> (r: String)
        ensures
            r@ == error_label(*self) + error_detail(*self),
    {
        let (label, detail) = match self {
            RouterError::ConfigError(m) => ("配置错误: ", m),
            RouterError::NetworkError(m) => ("网络错误: ", m),
            RouterError::ProcessError(m) => ("进程错误: ", m),
            RouterError::ParseError(m) => ("解析错误: ", m),
            RouterError::IoError(m) => ("IO错误: ", m),
            RouterError::TimeoutError(m) => ("超时错误: ", m),
            RouterError::HealthError(m) => ("健康检查错误: ", m),
            RouterError::RoutingError(m) => ("路由错误: ", m),
            RouterError::Unknown(m) => ("未知错误: ", m),
        };
        let mut out = label.to_owned();
        out.append(detail.as_str());
        out
    }
}

} // verus!
