//! The agent's configuration and what it turns into: the address the
//! desktop app talks to, the secret it sends, and the environment the agent
//! process is started with.
use vstd::prelude::*;
use crate::text::{
    chars_eq_str, chars_of, decimal, decimal_chars, is_blank, is_blank_str, lower, lower_chars,
    push_str, string_of, trim, trimmed,
};

verus! {

/// The contents of `goose.config.json`; every field may be absent.
/// `env` holds the extra variables in the order the loader yields them, each
/// name at most once.
#[derive(Clone, Debug)]
pub struct GooseConfig {
    pub provider: Option<String>,
    pub provider_type: Option<String>,
    pub model: Option<String>,
    pub api_key: Option<String>,
    pub base_url: Option<String>,
    pub host: Option<String>,
    pub port: Option<u16>,
    pub tls: Option<bool>,
    pub secret_key: Option<String>,
    pub env: Option<Vec<(String, String)>>,
}

impl GooseConfig {
    /// The configuration with no field set.
    pub open spec fn spec_empty() -> GooseConfig {
        GooseConfig {
            provider: None,
            provider_type: None,
            model: None,
            api_key: None,
            base_url: None,
            host: None,
            port: None,
            tls: None,
            secret_key: None,
            env: None,
        }
    }
}

impl Default for GooseConfig {
    fn default() -> (r: GooseConfig)
        ensures
            r == GooseConfig::spec_empty(),
    {
        GooseConfig {
            provider: None,
            provider_type: None,
            model: None,
            api_key: None,
            base_url: None,
            host: None,
            port: None,
            tls: None,
            secret_key: None,
            env: None,
        }
    }
}

/// The overrides that the process environment gives for the agent's
/// address (`NEXTCHAT_GOOSE_AGENT_HOST`, `NEXTCHAT_GOOSE_AGENT_PORT`).
#[derive(Clone, Debug)]
pub struct AgentEnv {
    pub host: Option<String>,
    pub port: Option<String>,
}

/// An optional text as a value.
pub open spec fn opt_view(o: Option<String>) -> Option<Seq<char>> {
    match o {
        Some(s) => Some(s@),
        None => None,
    }
}

/// An optional text, kept only when it is not blank.
pub open spec fn non_blank(o: Option<String>) -> Option<Seq<char>> {
    match o {
        Some(s) => if is_blank(s@) {
            None
        } else {
            Some(s@)
        },
        None => None,
    }
}

/// Name/value pairs as values.
pub open spec fn pairs_view(v: Seq<(String, String)>) -> Seq<(Seq<char>, Seq<char>)> {
    v.map_values(|p: (String, String)| (p.0@, p.1@))
}

/// `non_blank(o)`, and a copy of the text when it is kept.
fn non_blank_exec(o: &Option<String>) -> (r: Option<String>)
    ensures
        opt_view(r) == non_blank(*o),
{
    match o {
        Some(s) => {
            if is_blank_str(s.as_str()) {
                None
            } else {
                Some(s.clone())
            }
        },
        None => None,
    }
}

// ---------------------------------------------------------------------------
// Address and secret
// ---------------------------------------------------------------------------

/// The host: the environment's override, else the configured one, else
/// `127.0.0.1`.
pub open spec fn spec_agent_host(config: GooseConfig, env: AgentEnv) -> Seq<char> {
    match env.host {
        Some(h) => h@,
        None => match config.host {
            Some(h) => h@,
            None => "127.0.0.1"@,
        },
    }
}

/// The port text: the environment's override, else the configured port in
/// decimal, else `32123`.
pub open spec fn spec_agent_port(config: GooseConfig, env: AgentEnv) -> Seq<char> {
    match env.port {
        Some(p) => p@,
        None => match config.port {
            Some(p) => decimal(p as nat),
            None => "32123"@,
        },
    }
}

/// Whether the agent is reached over TLS: as configured, else not.
pub open spec fn spec_agent_tls(config: GooseConfig) -> bool {
    match config.tls {
        Some(b) => b,
        None => false,
    }
}

/// The shared secret: the configured one unless blank, else the built-in one.
pub open spec fn spec_agent_secret(config: GooseConfig) -> Seq<char> {
    match non_blank(config.secret_key) {
        Some(s) => s,
        None => "nextchat-local-goose-agent"@,
    }
}

/// `scheme://host:port`, the scheme `https` under TLS and `http` otherwise.
pub open spec fn spec_agent_base_url(config: GooseConfig, env: AgentEnv) -> Seq<char> {
    (if spec_agent_tls(config) {
        "https"@
    } else {
        "http"@
    }) + "://"@ + spec_agent_host(config, env) + ":"@ + spec_agent_port(config, env)
}

pub fn goose_agent_host(config: &GooseConfig, env: &AgentEnv) -> (r: String)
    ensures
        r@ == spec_agent_host(*config, *env),
{
    match &env.host {
        Some(h) => h.clone(),
        None => match &config.host {
            Some(h) => h.clone(),
            None => "127.0.0.1".to_owned(),
        },
    }
}

pub fn goose_agent_port(config: &GooseConfig, env: &AgentEnv) -> (r: String)
    ensures
        r@ == spec_agent_port(*config, *env),
{
    match &env.port {
        Some(p) => p.clone(),
        None => match config.port {
            Some(p) => {
                let d = decimal_chars(p as u64);
                string_of(d.as_slice())
            },
            None => "32123".to_owned(),
        },
    }
}

pub fn goose_agent_tls(config: &GooseConfig) -> (r: bool)
    ensures
        r == spec_agent_tls(*config),
{
    match config.tls {
        Some(b) => b,
        None => false,
    }
}

/// The secret sent with every request; never blank.
pub fn goose_agent_secret(config: &GooseConfig) -> (r: String)
    ensures
        r@ == spec_agent_secret(*config),
        !is_blank(r@),
{
    match non_blank_exec(&config.secret_key) {
        Some(s) => s,
        None => {
            let r = "nextchat-local-goose-agent".to_owned();
            proof {
                reveal_strlit("nextchat-local-goose-agent");
                lemma_not_blank_when_ends_solid(r@);
            }
            r
        },
    }
}

/// A text whose first and last characters are not whitespace is not blank.
proof fn lemma_not_blank_when_ends_solid(s: Seq<char>)
    requires
        s.len() > 0,
        !crate::text::is_white(s[0]),
        !crate::text::is_white(s.last()),
    ensures
        !is_blank(s),
{
    assert(crate::text::trim_start(s) == s);
    assert(crate::text::trim_end(s) == s);
}

pub fn goose_agent_base_url(config: &GooseConfig, env: &AgentEnv) -> (r: String)
    ensures
        r@ == spec_agent_base_url(*config, *env),
{
    let mut out: Vec<char> = Vec::new();
    if goose_agent_tls(config) {
        push_str(&mut out, "https");
    } else {
        push_str(&mut out, "http");
    }
    push_str(&mut out, "://");
    let host = goose_agent_host(config, env);
    push_str(&mut out, host.as_str());
    push_str(&mut out, ":");
    let port = goose_agent_port(config, env);
    push_str(&mut out, port.as_str());
    assert(out@ =~= spec_agent_base_url(*config, *env));
    string_of(out.as_slice())
}


// ---------------------------------------------------------------------------
// Providers
// ---------------------------------------------------------------------------

/// The variable that carries a provider's API key, by its lowercased name.
pub open spec fn spec_api_key_env(provider: Seq<char>) -> Option<Seq<char>> {
    let l = lower(provider);
    if l == "anthropic"@ {
        Some("ANTHROPIC_API_KEY"@)
    } else if l == "azure"@ {
        Some("AZURE_OPENAI_API_KEY"@)
    } else if l == "deepseek"@ {
        Some("DEEPSEEK_API_KEY"@)
    } else if l == "gemini"@ || l == "google"@ {
        Some("GOOGLE_API_KEY"@)
    } else if l == "groq"@ {
        Some("GROQ_API_KEY"@)
    } else if l == "mistral"@ {
        Some("MISTRAL_API_KEY"@)
    } else if l == "openai"@ {
        Some("OPENAI_API_KEY"@)
    } else if l == "openrouter"@ {
        Some("OPENROUTER_API_KEY"@)
    } else if l == "xai"@ {
        Some("XAI_API_KEY"@)
    } else {
        None
    }
}

/// The provider type Goose knows a provider by, by its lowercased name.
pub open spec fn spec_known_provider_type(provider: Seq<char>) -> Option<Seq<char>> {
    let l = lower(provider);
    if l == "anthropic"@ {
        Some("anthropic"@)
    } else if l == "azure"@ {
        Some("azure"@)
    } else if l == "bedrock"@ || l == "amazon-bedrock"@ {
        Some("bedrock"@)
    } else if l == "databricks"@ {
        Some("databricks"@)
    } else if l == "deepseek"@ {
        Some("openai"@)
    } else if l == "gemini"@ || l == "google"@ {
        Some("google"@)
    } else if l == "groq"@ {
        Some("groq"@)
    } else if l == "litellm"@ {
        Some("litellm"@)
    } else if l == "mistral"@ {
        Some("mistral"@)
    } else if l == "ollama"@ {
        Some("ollama"@)
    } else if l == "openai"@ {
        Some("openai"@)
    } else if l == "openrouter"@ {
        Some("openrouter"@)
    } else if l == "xai"@ {
        Some("xai"@)
    } else {
        None
    }
}

/// The environment variable for a provider's API key, if it has a known one.
pub fn provider_api_key_env(provider: &str) -> (r: Option<&'static str>)
    ensures
        r matches Some(s) ==> spec_api_key_env(provider@) == Some(s@),
        r is None ==> spec_api_key_env(provider@) is None,
{
    let c = chars_of(provider);
    let l = lower_chars(c.as_slice());
    let l = l.as_slice();
    if chars_eq_str(l, "anthropic") {
        Some("ANTHROPIC_API_KEY")
    } else if chars_eq_str(l, "azure") {
        Some("AZURE_OPENAI_API_KEY")
    } else if chars_eq_str(l, "deepseek") {
        Some("DEEPSEEK_API_KEY")
    } else if chars_eq_str(l, "gemini") || chars_eq_str(l, "google") {
        Some("GOOGLE_API_KEY")
    } else if chars_eq_str(l, "groq") {
        Some("GROQ_API_KEY")
    } else if chars_eq_str(l, "mistral") {
        Some("MISTRAL_API_KEY")
    } else if chars_eq_str(l, "openai") {
        Some("OPENAI_API_KEY")
    } else if chars_eq_str(l, "openrouter") {
        Some("OPENROUTER_API_KEY")
    } else if chars_eq_str(l, "xai") {
        Some("XAI_API_KEY")
    } else {
        None
    }
}

/// The provider type Goose knows a provider by, if it is a known provider.
pub fn known_provider_type(provider: &str) -> (r: Option<&'static str>)
    ensures
        r matches Some(s) ==> spec_known_provider_type(provider@) == Some(s@),
        r is None ==> spec_known_provider_type(provider@) is None,
{
    let c = chars_of(provider);
    let l = lower_chars(c.as_slice());
    let l = l.as_slice();
    if chars_eq_str(l, "anthropic") {
        Some("anthropic")
    } else if chars_eq_str(l, "azure") {
        Some("azure")
    } else if chars_eq_str(l, "bedrock") || chars_eq_str(l, "amazon-bedrock") {
        Some("bedrock")
    } else if chars_eq_str(l, "databricks") {
        Some("databricks")
    } else if chars_eq_str(l, "deepseek") {
        Some("openai")
    } else if chars_eq_str(l, "gemini") || chars_eq_str(l, "google") {
        Some("google")
    } else if chars_eq_str(l, "groq") {
        Some("groq")
    } else if chars_eq_str(l, "litellm") {
        Some("litellm")
    } else if chars_eq_str(l, "mistral") {
        Some("mistral")
    } else if chars_eq_str(l, "ollama") {
        Some("ollama")
    } else if chars_eq_str(l, "openai") {
        Some("openai")
    } else if chars_eq_str(l, "openrouter") {
        Some("openrouter")
    } else if chars_eq_str(l, "xai") {
        Some("xai")
    } else {
        None
    }
}

/// Whether the configured provider type is `openai`, once trimmed and
/// lowercased.
pub open spec fn declares_openai(config: GooseConfig) -> bool {
    match config.provider_type {
        Some(t) => lower(trim(t@)) == "openai"@,
        None => false,
    }
}

/// The provider name passed to Goose: none when the provider is absent or
/// blank; `openai` when the provider type says so; else the provider,
/// trimmed and lowercased.
pub open spec fn spec_provider_name(config: GooseConfig) -> Option<Seq<char>> {
    match config.provider {
        None => None,
        Some(p) => if trim(p@).len() == 0 {
            None
        } else if declares_openai(config) {
            Some("openai"@)
        } else {
            Some(lower(trim(p@)))
        },
    }
}

pub fn goose_provider_name(config: &GooseConfig) -> (r: Option<String>)
    ensures
        opt_view(r) == spec_provider_name(*config),
{
    let provider = match &config.provider {
        Some(p) => trimmed(p.as_str()),
        None => {
            return None;
        },
    };
    if provider.len() == 0 {
        return None;
    }
    let openai = match &config.provider_type {
        Some(t) => {
            let tt = trimmed(t.as_str());
            let tl = lower_chars(tt.as_slice());
            chars_eq_str(tl.as_slice(), "openai")
        },
        None => false,
    };
    if openai {
        Some("openai".to_owned())
    } else {
        let l = lower_chars(provider.as_slice());
        Some(string_of(l.as_slice()))
    }
}


// ---------------------------------------------------------------------------
// The agent process's environment
// ---------------------------------------------------------------------------

/// The provider type passed to Goose for provider `p`: the configured type
/// unless blank, else the type Goose knows `p` by, else `openai` when a base
/// URL is configured.
pub open spec fn provider_type_choice(config: GooseConfig, p: Seq<char>) -> Option<Seq<char>> {
    match non_blank(config.provider_type) {
        Some(t) => Some(t),
        None => match spec_known_provider_type(p) {
            Some(k) => Some(k),
            None => match non_blank(config.base_url) {
                Some(_) => Some("openai"@),
                None => None,
            },
        },
    }
}

/// The variables that carry the API key for provider `p`.
pub open spec fn api_key_vars(config: GooseConfig, p: Seq<char>) -> Seq<(Seq<char>, Seq<char>)> {
    match non_blank(config.api_key) {
        None => seq![],
        Some(k) => seq![("GOOSE_PROVIDER__API_KEY"@, k)] + match spec_api_key_env(p) {
            Some(e) => seq![(e, k)],
            None => seq![],
        } + if p == "openai"@ {
            seq![("OPENAI_API_KEY"@, k)]
        } else {
            seq![]
        },
    }
}

/// The variables that name the provider, its type and its key.
pub open spec fn provider_vars(config: GooseConfig) -> Seq<(Seq<char>, Seq<char>)> {
    match spec_provider_name(config) {
        None => seq![],
        Some(p) => seq![("GOOSE_PROVIDER"@, p)] + match provider_type_choice(config, p) {
            Some(t) => seq![("GOOSE_PROVIDER__TYPE"@, t)],
            None => seq![],
        } + api_key_vars(config, p),
    }
}

/// The variables that name the model.
pub open spec fn model_vars(config: GooseConfig) -> Seq<(Seq<char>, Seq<char>)> {
    match non_blank(config.model) {
        Some(m) => seq![("GOOSE_MODEL"@, m), ("GOOSE_PROVIDER__MODEL"@, m)],
        None => seq![],
    }
}

/// The variables that carry the provider's base URL.
pub open spec fn base_url_vars(config: GooseConfig) -> Seq<(Seq<char>, Seq<char>)> {
    match non_blank(config.base_url) {
        Some(b) => seq![("GOOSE_PROVIDER__HOST"@, b)] + if spec_provider_name(config) == Some(
            "openai"@,
        ) {
            seq![("OPENAI_BASE_URL"@, b)]
        } else {
            seq![]
        },
        None => seq![],
    }
}

/// The configured extra variables whose name and value are both not blank,
/// in order.
pub open spec fn extra_vars(es: Seq<(String, String)>) -> Seq<(Seq<char>, Seq<char>)>
    decreases es.len(),
{
    if es.len() == 0 {
        seq![]
    } else {
        let rest = extra_vars(es.drop_last());
        let e = es.last();
        if !is_blank(e.0@) && !is_blank(e.1@) {
            rest.push((e.0@, e.1@))
        } else {
            rest
        }
    }
}

/// All provider settings, in the order they are applied: provider, model,
/// base URL, then the extra variables, so that later ones override.
pub open spec fn spec_provider_env(config: GooseConfig) -> Seq<(Seq<char>, Seq<char>)> {
    provider_vars(config) + model_vars(config) + base_url_vars(config) + match config.env {
        Some(es) => extra_vars(es@),
        None => seq![],
    }
}

/// The whole environment the agent is started with: its address, TLS
/// switch and secret, then the provider settings.
pub open spec fn spec_launch_env(config: GooseConfig, env: AgentEnv) -> Seq<(Seq<char>, Seq<char>)> {
    seq![
        ("GOOSE_HOST"@, spec_agent_host(config, env)),
        ("GOOSE_PORT"@, spec_agent_port(config, env)),
        ("GOOSE_TLS"@, if spec_agent_tls(config) {
            "true"@
        } else {
            "false"@
        }),
        ("GOOSE_SERVER__SECRET_KEY"@, spec_agent_secret(config)),
    ] + spec_provider_env(config)
}

/// Appends the pair `(name, value)`.
fn push_var(out: &mut Vec<(String, String)>, name: &str, value: String)
    ensures
        pairs_view(final(out)@) == pairs_view(old(out)@).push((name@, value@)),
{
    let ghost before = out@;
    out.push((name.to_owned(), value));
    assert(pairs_view(out@) =~= pairs_view(before).push((name@, value@)));
}

/// Appends all of `more`.
fn append_vars(out: &mut Vec<(String, String)>, more: Vec<(String, String)>)
    ensures
        pairs_view(final(out)@) == pairs_view(old(out)@) + pairs_view(more@),
{
    let ghost before = out@;
    let ghost m = more@;
    let mut more = more;
    out.append(&mut more);
    assert(pairs_view(out@) =~= pairs_view(before) + pairs_view(m));
}

fn provider_vars_exec(config: &GooseConfig) -> (r: Vec<(String, String)>)
    ensures
        pairs_view(r@) == provider_vars(*config),
{
    let mut out: Vec<(String, String)> = Vec::new();
    let p = match goose_provider_name(config) {
        Some(p) => p,
        None => {
            assert(pairs_view(out@) =~= provider_vars(*config));
            return out;
        },
    };
    push_var(&mut out, "GOOSE_PROVIDER", p.clone());
    let ghost after_name = pairs_view(out@);
    let ty: Option<String> = match non_blank_exec(&config.provider_type) {
        Some(t) => Some(t),
        None => match known_provider_type(p.as_str()) {
            Some(k) => Some(k.to_owned()),
            None => match non_blank_exec(&config.base_url) {
                Some(_) => Some("openai".to_owned()),
                None => None,
            },
        },
    };
    assert(opt_view(ty) == provider_type_choice(*config, p@));
    match ty {
        Some(t) => push_var(&mut out, "GOOSE_PROVIDER__TYPE", t),
        None => {},
    }
    let ghost after_type = pairs_view(out@);
    match non_blank_exec(&config.api_key) {
        Some(k) => {
            push_var(&mut out, "GOOSE_PROVIDER__API_KEY", k.clone());
            match provider_api_key_env(p.as_str()) {
                Some(e) => push_var(&mut out, e, k.clone()),
                None => {},
            }
            let c = chars_of(p.as_str());
            if chars_eq_str(c.as_slice(), "openai") {
                push_var(&mut out, "OPENAI_API_KEY", k.clone());
            }
        },
        None => {},
    }
    assert(pairs_view(out@) =~= after_type + api_key_vars(*config, p@));
    assert(pairs_view(out@) =~= provider_vars(*config));
    out
}

fn model_vars_exec(config: &GooseConfig) -> (r: Vec<(String, String)>)
    ensures
        pairs_view(r@) == model_vars(*config),
{
    let mut out: Vec<(String, String)> = Vec::new();
    match non_blank_exec(&config.model) {
        Some(m) => {
            push_var(&mut out, "GOOSE_MODEL", m.clone());
            push_var(&mut out, "GOOSE_PROVIDER__MODEL", m);
        },
        None => {},
    }
    assert(pairs_view(out@) =~= model_vars(*config));
    out
}

fn base_url_vars_exec(config: &GooseConfig) -> (r: Vec<(String, String)>)
    ensures
        pairs_view(r@) == base_url_vars(*config),
{
    let mut out: Vec<(String, String)> = Vec::new();
    match non_blank_exec(&config.base_url) {
        Some(b) => {
            push_var(&mut out, "GOOSE_PROVIDER__HOST", b.clone());
            let is_openai = match goose_provider_name(config) {
                Some(p) => {
                    let c = chars_of(p.as_str());
                    chars_eq_str(c.as_slice(), "openai")
                },
                None => false,
            };
            if is_openai {
                push_var(&mut out, "OPENAI_BASE_URL", b);
            }
        },
        None => {},
    }
    assert(pairs_view(out@) =~= base_url_vars(*config));
    out
}

fn extra_vars_exec(es: &Vec<(String, String)>) -> (r: Vec<(String, String)>)
    ensures
        pairs_view(r@) == extra_vars(es@),
{
    let mut out: Vec<(String, String)> = Vec::new();
    let mut i: usize = 0;
    while i < es.len()
        invariant
            0 <= i <= es.len(),
            pairs_view(out@) == extra_vars(es@.take(i as int)),
        decreases es.len() - i,
    {
        assert(es@.take(i + 1).drop_last() =~= es@.take(i as int));
        assert(es@.take(i + 1).last() == es@[i as int]);
        let (k, v) = &es[i];
        if !is_blank_str(k.as_str()) && !is_blank_str(v.as_str()) {
            push_var(&mut out, k.as_str(), v.clone());
        }
        i = i + 1;
    }
    assert(es@.take(es.len() as int) =~= es@);
    out
}

/// The provider settings as environment variables, in the order they are
/// applied (see `spec_provider_env`).
pub fn goose_provider_env(config: &GooseConfig) -> (r: Vec<(String, String)>)
    ensures
        pairs_view(r@) == spec_provider_env(*config),
{
    let mut out = provider_vars_exec(config);
    append_vars(&mut out, model_vars_exec(config));
    append_vars(&mut out, base_url_vars_exec(config));
    match &config.env {
        Some(es) => append_vars(&mut out, extra_vars_exec(es)),
        None => {
            assert(pairs_view(out@) =~= pairs_view(out@) + Seq::<(Seq<char>, Seq<char>)>::empty());
        },
    }
    out
}

/// The environment the agent process is started with (see `spec_launch_env`).
pub fn goose_launch_env(config: &GooseConfig, env: &AgentEnv) -> (r: Vec<(String, String)>)
    ensures
        pairs_view(r@) == spec_launch_env(*config, *env),
{
    let mut out: Vec<(String, String)> = Vec::new();
    push_var(&mut out, "GOOSE_HOST", goose_agent_host(config, env));
    push_var(&mut out, "GOOSE_PORT", goose_agent_port(config, env));
    let tls = if goose_agent_tls(config) {
        "true".to_owned()
    } else {
        "false".to_owned()
    };
    push_var(&mut out, "GOOSE_TLS", tls);
    push_var(&mut out, "GOOSE_SERVER__SECRET_KEY", goose_agent_secret(config));
    append_vars(&mut out, goose_provider_env(config));
    assert(pairs_view(out@) =~= spec_launch_env(*config, *env));
    out
}


// ---------------------------------------------------------------------------
// What the agent process sees
// ---------------------------------------------------------------------------

/// The value each variable ends up with when the pairs are applied in
/// order: a later assignment replaces an earlier one.
pub open spec fn effective_env(pairs: Seq<(Seq<char>, Seq<char>)>) -> Map<Seq<char>, Seq<char>>
    decreases pairs.len(),
{
    if pairs.len() == 0 {
        Map::empty()
    } else {
        effective_env(pairs.drop_last()).insert(pairs.last().0, pairs.last().1)
    }
}

/// No variable name occurs twice, as in the object of `goose.config.json`.
pub open spec fn env_names_distinct(es: Seq<(String, String)>) -> bool {
    forall|i: int, j: int| 0 <= i < j < es.len() ==> es[i].0@ != es[j].0@
}

proof fn lemma_effective_suffix(
    p: Seq<(Seq<char>, Seq<char>)>,
    q: Seq<(Seq<char>, Seq<char>)>,
    k: Seq<char>,
)
    requires
        effective_env(q).contains_key(k),
    ensures
        effective_env(p + q).contains_key(k),
        effective_env(p + q)[k] == effective_env(q)[k],
    decreases q.len(),
{
    assert((p + q).drop_last() =~= p + q.drop_last());
    assert((p + q).last() == q.last());
    if q.last().0 != k {
        lemma_effective_suffix(p, q.drop_last(), k);
    }
}

proof fn lemma_extra_vars_effective(es: Seq<(String, String)>, i: int)
    requires
        env_names_distinct(es),
        0 <= i < es.len(),
        !is_blank(es[i].0@),
        !is_blank(es[i].1@),
    ensures
        effective_env(extra_vars(es)).contains_key(es[i].0@),
        effective_env(extra_vars(es))[es[i].0@] == es[i].1@,
    decreases es.len(),
{
    let rest = es.drop_last();
    if i == es.len() - 1 {
        assert(extra_vars(es) == extra_vars(rest).push((es[i].0@, es[i].1@)));
        assert(extra_vars(es).drop_last() =~= extra_vars(rest));
    } else {
        assert(rest[i] == es[i]);
        lemma_extra_vars_effective(rest, i);
        let e = es.last();
        assert(e.0@ != es[i].0@);
        if !is_blank(e.0@) && !is_blank(e.1@) {
            assert(extra_vars(es).drop_last() =~= extra_vars(rest));
        }
    }
}

/// The extra variables of `goose.config.json` win: each one whose name and
/// value are not blank is what the agent process sees under that name,
/// whatever the settings generated before it.
pub proof fn law_extra_env_overrides(config: GooseConfig, env: AgentEnv, i: int)
    requires
        config.env is Some,
        env_names_distinct(config.env->0@),
        0 <= i < config.env->0@.len(),
        !is_blank(config.env->0@[i].0@),
        !is_blank(config.env->0@[i].1@),
    ensures
        effective_env(spec_launch_env(config, env)).contains_key(config.env->0@[i].0@),
        effective_env(spec_launch_env(config, env))[config.env->0@[i].0@] == config.env->0@[i].1@,
{
    let es = config.env->0@;
    lemma_extra_vars_effective(es, i);
    let head = seq![
        ("GOOSE_HOST"@, spec_agent_host(config, env)),
        ("GOOSE_PORT"@, spec_agent_port(config, env)),
        ("GOOSE_TLS"@, if spec_agent_tls(config) {
            "true"@
        } else {
            "false"@
        }),
        ("GOOSE_SERVER__SECRET_KEY"@, spec_agent_secret(config)),
    ];
    let mid = provider_vars(config) + model_vars(config) + base_url_vars(config);
    assert(spec_launch_env(config, env) =~= (head + mid) + extra_vars(es));
    lemma_effective_suffix(head + mid, extra_vars(es), es[i].0@);
}

/// An OpenAI-compatible endpoint: when the provider is set and its type is
/// `openai`, Goose is told the provider is `openai`, and a configured base
/// URL is passed as `OPENAI_BASE_URL`.
pub proof fn law_openai_compatible_provider(config: GooseConfig)
    requires
        config.provider is Some,
        trim(config.provider->0@).len() != 0,
        declares_openai(config),
        non_blank(config.base_url) is Some,
    ensures
        spec_provider_name(config) == Some("openai"@),
        spec_provider_env(config).contains(("GOOSE_PROVIDER"@, "openai"@)),
        spec_provider_env(config).contains(("OPENAI_BASE_URL"@, non_blank(config.base_url)->0)),
{
    let pv = provider_vars(config);
    let bv = base_url_vars(config);
    let all = spec_provider_env(config);
    assert(pv[0] == ("GOOSE_PROVIDER"@, "openai"@));
    assert(all[0] == pv[0]);
    let at = (pv.len() + model_vars(config).len() + 1) as int;
    assert(bv[1] == ("OPENAI_BASE_URL"@, non_blank(config.base_url)->0));
    assert(all[at] == bv[1]);
}


/// The provider name passed to Goose is already in lowercase.
pub proof fn law_provider_name_is_lowercase(config: GooseConfig)
    ensures
        spec_provider_name(config) matches Some(p) ==> lower(p) == p,
{
    match config.provider {
        Some(p) => {
            crate::text::lemma_lower_idempotent(trim(p@));
            reveal_strlit("openai");
            assert(lower("openai"@) =~= "openai"@);
        },
        None => {},
    }
}


/// The names the provider settings may set: the fixed Goose and OpenAI
/// names, the provider's own API-key variable, and the names of the extra
/// variables of the configuration.
pub open spec fn is_provider_var_name(config: GooseConfig, n: Seq<char>) -> bool {
    ||| n == "GOOSE_PROVIDER"@
    ||| n == "GOOSE_PROVIDER__TYPE"@
    ||| n == "GOOSE_PROVIDER__API_KEY"@
    ||| n == "GOOSE_MODEL"@
    ||| n == "GOOSE_PROVIDER__MODEL"@
    ||| n == "GOOSE_PROVIDER__HOST"@
    ||| n == "OPENAI_BASE_URL"@
    ||| n == "OPENAI_API_KEY"@
    ||| (spec_provider_name(config) matches Some(p) && spec_api_key_env(p) == Some(n))
    ||| (config.env matches Some(es) && exists|j: int| 0 <= j < es@.len() && es@[j].0@ == n)
}

proof fn lemma_extra_vars_names(es: Seq<(String, String)>)
    ensures
        forall|k: int|
            0 <= k < extra_vars(es).len() ==> exists|j: int|
                0 <= j < es.len() && es[j].0@ == (#[trigger] extra_vars(es)[k]).0,
    decreases es.len(),
{
    if es.len() > 0 {
        let rest = es.drop_last();
        lemma_extra_vars_names(rest);
        assert forall|k: int| 0 <= k < extra_vars(es).len() implies exists|j: int|
            0 <= j < es.len() && es[j].0@ == (#[trigger] extra_vars(es)[k]).0 by {
            if k < extra_vars(rest).len() {
                assert(extra_vars(es)[k] == extra_vars(rest)[k]);
                let j = choose|j: int| 0 <= j < rest.len() && rest[j].0@ == extra_vars(rest)[k].0;
                assert(es[j] == rest[j]);
            } else {
                assert(es[es.len() - 1].0@ == extra_vars(es)[k].0);
            }
        }
    }
}

/// The provider settings set only the names of `is_provider_var_name`, and
/// an empty configuration sets none.
pub proof fn law_provider_env_names(config: GooseConfig)
    ensures
        forall|k: int|
            0 <= k < spec_provider_env(config).len() ==> is_provider_var_name(
                config,
                (#[trigger] spec_provider_env(config)[k]).0,
            ),
        config == GooseConfig::spec_empty() ==> spec_provider_env(config).len() == 0,
{
    let pv = provider_vars(config);
    let mv = model_vars(config);
    let bv = base_url_vars(config);
    let ev = match config.env {
        Some(es) => extra_vars(es@),
        None => seq![],
    };
    let all = spec_provider_env(config);
    assert(all =~= pv + mv + bv + ev);
    match config.env {
        Some(es) => lemma_extra_vars_names(es@),
        None => {},
    }
    assert forall|k: int| 0 <= k < all.len() implies is_provider_var_name(
        config,
        (#[trigger] all[k]).0,
    ) by {
        if k < pv.len() {
            assert(all[k] == pv[k]);
        } else if k < pv.len() + mv.len() {
            assert(all[k] == mv[k - pv.len()]);
        } else if k < pv.len() + mv.len() + bv.len() {
            assert(all[k] == bv[k - pv.len() - mv.len()]);
        } else {
            let m = k - pv.len() - mv.len() - bv.len();
            assert(all[k] == ev[m]);
            let es = config.env->0;
            assert(ev[m] == extra_vars(es@)[m]);
        }
    }
}

} // verus!
