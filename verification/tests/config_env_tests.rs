use clawhive::config::{FullAgentConfig, ModelPolicy, ProviderConfig, RoutingBinding, RoutingConfig, MatchRule};
use clawhive::config_env::{resolve_agents_env, resolve_env_var, resolve_providers_env, resolve_routing_env};

fn env() -> Vec<(String, String)> {
    vec![
        ("HOME".to_string(), "/home/me".to_string()),
        ("USER".to_string(), "me".to_string()),
        ("TOKEN".to_string(), "secret".to_string()),
    ]
}

#[test]
fn resolve_env_var_replaces_env_placeholder() {
    assert_eq!(resolve_env_var("${HOME}", &env()), "/home/me");
}

#[test]
fn resolve_env_var_returns_raw_when_not_placeholder() {
    assert_eq!(resolve_env_var("plain-value", &env()), "plain-value");
}

#[test]
fn resolve_env_var_multiple_placeholders() {
    assert_eq!(resolve_env_var("home=${HOME},user=${USER}", &env()), "home=/home/me,user=me");
}

#[test]
fn resolve_env_var_unclosed_bracket() {
    assert_eq!(resolve_env_var("prefix_${UNCLOSED", &env()), "prefix_${UNCLOSED");
}

#[test]
fn resolve_env_var_missing_env_returns_empty() {
    assert_eq!(resolve_env_var("val=${CLAWHIVE_NONEXISTENT_VAR_XYZ}", &env()), "val=");
}

#[test]
fn resolve_env_var_empty_string() {
    assert_eq!(resolve_env_var("", &env()), "");
}

#[test]
fn documents_are_resolved_field_by_field() {
    let agents = vec![FullAgentConfig {
        agent_id: "${USER}-agent".into(),
        enabled: true,
        workspace: Some("${HOME}".into()),
        identity: None,
        model_policy: ModelPolicy { primary: "openai/${USER}".into(), fallbacks: vec!["${TOKEN}".into()] },
        tool_policy: None,
        memory_policy: None,
        sub_agent: None,
        heartbeat: None,
        exec_security: None,
        sandbox: None,
    }];
    let agents = resolve_agents_env(agents, &env());
    assert_eq!(agents[0].agent_id, "me-agent");
    assert_eq!(agents[0].workspace, Some("${HOME}".to_string()));
    assert_eq!(agents[0].model_policy.primary, "openai/me");
    assert_eq!(agents[0].model_policy.fallbacks, vec!["secret".to_string()]);

    let providers = resolve_providers_env(
        vec![ProviderConfig {
            provider_id: "p".into(),
            enabled: true,
            api_base: "https://${USER}.example".into(),
            api_key: Some("${TOKEN}".into()),
            auth_profile: Some("${USER}".into()),
            models: vec!["m-${USER}".into()],
        }],
        &env(),
    );
    assert_eq!(providers[0].api_base, "https://me.example");
    assert_eq!(providers[0].api_key, Some("${TOKEN}".to_string()));
    assert_eq!(providers[0].auth_profile, Some("me".to_string()));
    assert_eq!(providers[0].models, vec!["m-me".to_string()]);

    let routing = resolve_routing_env(
        RoutingConfig {
            default_agent_id: "${USER}".into(),
            bindings: vec![RoutingBinding {
                channel_type: "telegram".into(),
                connector_id: "${TOKEN}".into(),
                match_rule: MatchRule { kind: "dm".into(), pattern: None },
                agent_id: "${USER}".into(),
            }],
        },
        &env(),
    );
    assert_eq!(routing.default_agent_id, "me");
    assert_eq!(routing.bindings[0].connector_id, "secret");
}
