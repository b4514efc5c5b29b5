use clawhive::access_gate::AccessLevel;
use clawhive::config::{ExecAskMode, ExecSecurityConfig, ExecSecurityMode, SandboxPolicyConfig};

#[test]
fn access_level_satisfies() {
    assert!(AccessLevel::Rw.satisfies(AccessLevel::Ro));
    assert!(AccessLevel::Rw.satisfies(AccessLevel::Rw));
    assert!(AccessLevel::Ro.satisfies(AccessLevel::Ro));
    assert!(!AccessLevel::Ro.satisfies(AccessLevel::Rw));
}

#[test]
fn exec_security_default_values() {
    let cfg = ExecSecurityConfig::default();
    assert_eq!(cfg.security, ExecSecurityMode::Allowlist);
    assert_eq!(cfg.ask, ExecAskMode::OnMiss);
    assert!(cfg.allowlist.iter().any(|p| p == "git *"));
    assert!(cfg.safe_bins.iter().any(|b| b == "jq"));
}

#[test]
fn sandbox_policy_default_values() {
    let cfg = SandboxPolicyConfig::default();
    assert_eq!(cfg.network, None);
    assert_eq!(cfg.timeout_secs, 30);
    assert_eq!(cfg.max_memory_mb, 512);
    assert_eq!(cfg.env_inherit, vec!["PATH", "HOME", "TMPDIR"]);
    assert_eq!(cfg.exec_allow, vec!["sh"]);
}

use clawhive::config::{
    validate_config, AppConfig, ChannelsConfig, ClawhiveConfig, EmbeddingConfig, FeaturesConfig,
    FullAgentConfig, MainConfig, MatchRule, ModelPolicy, ProviderConfig, RoutingBinding,
    RoutingConfig, RuntimeConfig, ToolsConfig,
};

fn agent(id: &str, primary: &str) -> FullAgentConfig {
    FullAgentConfig {
        agent_id: id.into(),
        enabled: true,
        workspace: None,
        identity: None,
        model_policy: ModelPolicy { primary: primary.into(), fallbacks: vec![] },
        tool_policy: None,
        memory_policy: None,
        sub_agent: None,
        heartbeat: None,
        exec_security: None,
        sandbox: None,
    }
}

/// The configuration of the minimal fixture documents.
fn fixture_config() -> ClawhiveConfig {
    ClawhiveConfig {
        main: MainConfig {
            app: AppConfig { name: "clawhive".into() },
            runtime: RuntimeConfig { max_concurrent: 4 },
            features: FeaturesConfig { multi_agent: true, sub_agent: false, tui: false, cli: true },
            channels: ChannelsConfig { telegram: None, discord: None },
            embedding: EmbeddingConfig::default(),
            tools: ToolsConfig::default(),
        },
        routing: RoutingConfig {
            default_agent_id: "main-agent".into(),
            bindings: vec![RoutingBinding {
                channel_type: "telegram".into(),
                connector_id: "tg".into(),
                match_rule: MatchRule { kind: "dm".into(), pattern: None },
                agent_id: "main-agent".into(),
            }],
        },
        providers: vec![ProviderConfig {
            provider_id: "openai".into(),
            enabled: true,
            api_base: "https://api.openai.com/v1".into(),
            api_key: Some("sk-test".into()),
            auth_profile: None,
            models: vec!["gpt-4o".into()],
        }],
        agents: vec![agent("main-agent", "gpt-4o")],
    }
}

#[test]
fn validate_config_detects_unknown_agent_id_in_routing() {
    let mut config = fixture_config();
    assert!(validate_config(&config).is_ok());
    config.routing.bindings[0].agent_id = "agent-does-not-exist".to_string();
    let err = validate_config(&config).unwrap_err();
    assert!(err.message().contains("unknown agent_id"));
}

#[test]
fn validate_config_detects_duplicate_agent_id() {
    let mut config = fixture_config();
    config.agents.push(agent("main-agent", "gpt-4o"));
    let err = validate_config(&config).unwrap_err();
    assert!(err.message().contains("duplicate agent_id"));
}

#[test]
fn validate_config_missing_default_agent() {
    let mut config = fixture_config();
    config.routing.default_agent_id = "nonexistent".into();
    config.routing.bindings.clear();
    config.agents = vec![agent("agent-a", "m")];
    let err = validate_config(&config).unwrap_err();
    assert!(err.message().contains("default_agent_id does not exist"));
}
