use nextchat::config::{
    goose_agent_base_url, goose_agent_host, goose_agent_port, goose_agent_secret,
    goose_agent_tls, goose_launch_env, goose_provider_env, goose_provider_name,
    known_provider_type, provider_api_key_env, AgentEnv, GooseConfig,
};

fn no_env() -> AgentEnv {
    AgentEnv { host: None, port: None }
}

fn pairs(v: &[(&str, &str)]) -> Vec<(String, String)> {
    v.iter().map(|(a, b)| (a.to_string(), b.to_string())).collect()
}

fn some(s: &str) -> Option<String> {
    Some(s.to_string())
}

#[test]
fn default_address_is_local_port_32123_over_http() {
    let c = GooseConfig::default();
    assert_eq!(goose_agent_host(&c, &no_env()), "127.0.0.1");
    assert_eq!(goose_agent_port(&c, &no_env()), "32123");
    assert!(!goose_agent_tls(&c));
    assert_eq!(goose_agent_base_url(&c, &no_env()), "http://127.0.0.1:32123");
}

#[test]
fn configured_address_and_tls() {
    let mut c = GooseConfig::default();
    c.host = some("example.com");
    c.port = Some(8443);
    c.tls = Some(true);
    assert_eq!(goose_agent_base_url(&c, &no_env()), "https://example.com:8443");
}

#[test]
fn environment_overrides_address() {
    let mut c = GooseConfig::default();
    c.host = some("example.com");
    c.port = Some(8443);
    let env = AgentEnv { host: some("10.0.0.2"), port: some("9000") };
    assert_eq!(goose_agent_base_url(&c, &env), "http://10.0.0.2:9000");
    let env_empty = AgentEnv { host: some(""), port: None };
    assert_eq!(goose_agent_host(&c, &env_empty), "");
}

#[test]
fn secret_defaults_when_absent_or_blank() {
    let mut c = GooseConfig::default();
    assert_eq!(goose_agent_secret(&c), "nextchat-local-goose-agent");
    c.secret_key = some("  \t");
    assert_eq!(goose_agent_secret(&c), "nextchat-local-goose-agent");
    c.secret_key = some(" mine ");
    assert_eq!(goose_agent_secret(&c), " mine ");
}

#[test]
fn api_key_variables_follow_the_documented_table() {
    let table = [
        ("openai", Some("OPENAI_API_KEY")),
        ("anthropic", Some("ANTHROPIC_API_KEY")),
        ("deepseek", Some("DEEPSEEK_API_KEY")),
        ("google", Some("GOOGLE_API_KEY")),
        ("Gemini", Some("GOOGLE_API_KEY")),
        ("openrouter", Some("OPENROUTER_API_KEY")),
        ("XAI", Some("XAI_API_KEY")),
        ("azure", Some("AZURE_OPENAI_API_KEY")),
        ("groq", Some("GROQ_API_KEY")),
        ("mistral", Some("MISTRAL_API_KEY")),
        ("ollama", None),
        ("minimax", None),
        (" openai", None),
    ];
    for (p, want) in table {
        assert_eq!(provider_api_key_env(p), want, "provider {}", p);
    }
}

#[test]
fn known_provider_types() {
    assert_eq!(known_provider_type("DeepSeek"), Some("openai"));
    assert_eq!(known_provider_type("amazon-bedrock"), Some("bedrock"));
    assert_eq!(known_provider_type("bedrock"), Some("bedrock"));
    assert_eq!(known_provider_type("google"), Some("google"));
    assert_eq!(known_provider_type("ollama"), Some("ollama"));
    assert_eq!(known_provider_type("litellm"), Some("litellm"));
    assert_eq!(known_provider_type("databricks"), Some("databricks"));
    assert_eq!(known_provider_type("MiniMax"), None);
}

#[test]
fn provider_name_rules() {
    let mut c = GooseConfig::default();
    assert_eq!(goose_provider_name(&c), None);
    c.provider = some("   ");
    assert_eq!(goose_provider_name(&c), None);
    c.provider = some(" MiniMax ");
    assert_eq!(goose_provider_name(&c), some("minimax"));
    c.provider_type = some(" OpenAI ");
    assert_eq!(goose_provider_name(&c), some("openai"));
    c.provider_type = some("anthropic");
    assert_eq!(goose_provider_name(&c), some("minimax"));
}

#[test]
fn openai_compatible_endpoint_as_documented() {
    let mut c = GooseConfig::default();
    c.provider = some("MiniMax");
    c.provider_type = some("openai");
    c.model = some("abab");
    c.api_key = some("key");
    c.base_url = some("https://api.minimaxi.com/v1");
    let got = goose_provider_env(&c);
    let want = pairs(&[
        ("GOOSE_PROVIDER", "openai"),
        ("GOOSE_PROVIDER__TYPE", "openai"),
        ("GOOSE_PROVIDER__API_KEY", "key"),
        ("OPENAI_API_KEY", "key"),
        ("OPENAI_API_KEY", "key"),
        ("GOOSE_MODEL", "abab"),
        ("GOOSE_PROVIDER__MODEL", "abab"),
        ("GOOSE_PROVIDER__HOST", "https://api.minimaxi.com/v1"),
        ("OPENAI_BASE_URL", "https://api.minimaxi.com/v1"),
    ]);
    assert_eq!(got, want);
}

#[test]
fn provider_type_falls_back_to_known_type_then_base_url() {
    let mut c = GooseConfig::default();
    c.provider = some("DeepSeek");
    let got = goose_provider_env(&c);
    assert_eq!(got, pairs(&[("GOOSE_PROVIDER", "deepseek"), ("GOOSE_PROVIDER__TYPE", "openai")]));
    c.provider = some("custom");
    assert_eq!(goose_provider_env(&c), pairs(&[("GOOSE_PROVIDER", "custom")]));
    c.base_url = some("http://h");
    assert_eq!(
        goose_provider_env(&c),
        pairs(&[
            ("GOOSE_PROVIDER", "custom"),
            ("GOOSE_PROVIDER__TYPE", "openai"),
            ("GOOSE_PROVIDER__HOST", "http://h"),
        ])
    );
    c.provider_type = some("   ");
    c.api_key = some("k");
    assert_eq!(
        goose_provider_env(&c),
        pairs(&[
            ("GOOSE_PROVIDER", "custom"),
            ("GOOSE_PROVIDER__TYPE", "openai"),
            ("GOOSE_PROVIDER__API_KEY", "k"),
            ("GOOSE_PROVIDER__HOST", "http://h"),
        ])
    );
}

#[test]
fn model_without_provider_and_blank_values() {
    let mut c = GooseConfig::default();
    c.model = some("gpt-4o-mini");
    c.api_key = some("unused-without-provider");
    c.env = Some(pairs(&[("", "x"), ("A", " "), ("B", "2")]));
    assert_eq!(
        goose_provider_env(&c),
        pairs(&[("GOOSE_MODEL", "gpt-4o-mini"), ("GOOSE_PROVIDER__MODEL", "gpt-4o-mini"), ("B", "2")])
    );
}

#[test]
fn launch_env_starts_with_address_and_secret_and_extra_env_wins() {
    let mut c = GooseConfig::default();
    c.provider = some("openai");
    c.api_key = some("sk-1");
    c.tls = Some(false);
    c.env = Some(pairs(&[("OPENAI_API_KEY", "sk-override"), ("GOOSE_HOST", "0.0.0.0")]));
    let got = goose_launch_env(&c, &no_env());
    assert_eq!(
        &got[..4],
        &pairs(&[
            ("GOOSE_HOST", "127.0.0.1"),
            ("GOOSE_PORT", "32123"),
            ("GOOSE_TLS", "false"),
            ("GOOSE_SERVER__SECRET_KEY", "nextchat-local-goose-agent"),
        ])[..]
    );
    let mut effective = std::collections::HashMap::new();
    for (k, v) in &got {
        effective.insert(k.clone(), v.clone());
    }
    assert_eq!(effective["OPENAI_API_KEY"], "sk-override");
    assert_eq!(effective["GOOSE_HOST"], "0.0.0.0");
    assert_eq!(effective["GOOSE_PROVIDER__API_KEY"], "sk-1");
}

#[test]
fn provider_name_is_lowercase() {
    let mut c = GooseConfig::default();
    c.provider = some("OpenRouter");
    let p = goose_provider_name(&c).unwrap();
    assert_eq!(p, p.to_ascii_lowercase());
}

#[test]
fn provider_env_sets_only_known_names() {
    assert!(goose_provider_env(&GooseConfig::default()).is_empty());
    let mut c = GooseConfig::default();
    c.provider = some("groq");
    c.api_key = some("k");
    c.model = some("m");
    c.base_url = some("u");
    c.env = Some(pairs(&[("EXTRA", "1")]));
    let allowed = [
        "GOOSE_PROVIDER", "GOOSE_PROVIDER__TYPE", "GOOSE_PROVIDER__API_KEY", "GOOSE_MODEL",
        "GOOSE_PROVIDER__MODEL", "GOOSE_PROVIDER__HOST", "OPENAI_BASE_URL", "OPENAI_API_KEY",
        "GROQ_API_KEY", "EXTRA",
    ];
    for (k, _) in goose_provider_env(&c) {
        assert!(allowed.contains(&k.as_str()), "{}", k);
    }
}
