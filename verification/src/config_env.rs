//! `${NAME}` placeholders in configuration values, replaced by environment
//! variables. The environment is handed in as a list of (name, value) pairs.
use vstd::prelude::*;
use crate::config::{
    ClawhiveConfig, ConfigError, accepts, rejects, validate_config,
    AppConfig, ChannelsConfig, DiscordChannelConfig, DiscordConnectorConfig, EmbeddingConfig,
    ExecSecurityConfig, FullAgentConfig, IdentityConfig, MainConfig, MatchRule, MemoryPolicyConfig,
    ModelPolicy, ProviderConfig, RoutingBinding, RoutingConfig, SandboxPolicyConfig,
    TelegramChannelConfig, TelegramConnectorConfig, ToolPolicyConfig,
};
use crate::text::{chars_of, push_str, push_char, str_eq, string_from_chars, slice_chars, views};

verus! {

/// The value of an environment variable: the first pair with that name; empty
/// when it is not set.
pub open spec fn env_lookup(env: Seq<(String, String)>, key: Seq<char>) -> Seq<char>
    decreases env.len(),
{
    if env.len() == 0 {
        Seq::empty()
    } else if env[0].0@ == key {
        env[0].1@
    } else {
        env_lookup(env.drop_first(), key)
    }
}

/// Where `c` first occurs in `s`.
pub open spec fn first_index_of(s: Seq<char>, c: char) -> Option<int>
    decreases s.len(),
{
    if s.len() == 0 {
        None
    } else if s[0] == c {
        Some(0)
    } else {
        match first_index_of(s.drop_first(), c) {
            Some(i) => Some(i + 1),
            None => None,
        }
    }
}

/// `s` with every `${NAME}` replaced by the variable's value (empty when it is
/// not set); from a `${` with no closing `}` on, the text is kept as it is.
pub open spec fn expand_env(s: Seq<char>, env: Seq<(String, String)>) -> Seq<char>
    decreases s.len(),
{
    if s.len() == 0 {
        Seq::empty()
    } else if s.len() >= 2 && s[0] == '$' && s[1] == '{' {
        match first_index_of(s.skip(2), '}') {
            None => s,
            Some(e) => {
                proof {
                    lemma_first_index_bounds(s.skip(2), '}');
                }
                env_lookup(env, s.skip(2).take(e)) + expand_env(s.skip(2).skip(e + 1), env)
            },
        }
    } else {
        seq![s[0]] + expand_env(s.drop_first(), env)
    }
}

/// Where `c` first occurs, it occurs, and not before.
pub proof fn lemma_first_index_bounds(s: Seq<char>, c: char)
    ensures
        match first_index_of(s, c) {
            Some(i) => 0 <= i < s.len() && s[i] == c && forall|j: int| 0 <= j < i ==> s[j] != c,
            None => forall|j: int| 0 <= j < s.len() ==> s[j] != c,
        },
    decreases s.len(),
{
    if s.len() > 0 {
        lemma_first_index_bounds(s.drop_first(), c);
        if s[0] != c {
            match first_index_of(s.drop_first(), c) {
                Some(i) => {
                    assert forall|j: int| 0 <= j < i + 1 implies s[j] != c by {
                        if j > 0 {
                            assert(s[j] == s.drop_first()[j - 1]);
                        }
                    }
                },
                None => {
                    assert forall|j: int| 0 <= j < s.len() implies s[j] != c by {
                        if j > 0 {
                            assert(s[j] == s.drop_first()[j - 1]);
                        }
                    }
                },
            }
        }
    }
}

fn lookup_env(env: &Vec<(String, String)>, key: &str) -> (r: String)
    ensures
        r@ == env_lookup(env@, key@),
{
    let n = env.len();
    assert(env@.skip(0) =~= env@);
    for i in 0..n
        invariant
            n == env@.len(),
            env_lookup(env@, key@) == env_lookup(env@.skip(i as int), key@),
    {
        let ghost rest = env@.skip(i as int);
        assert(rest[0] == env@[i as int]);
        assert(rest.drop_first() =~= env@.skip(i + 1));
        if str_eq(env[i].0.as_str(), key) {
            return env[i].1.clone();
        }
    }
    assert(env@.skip(n as int) =~= Seq::<(String, String)>::empty());
    String::new()
}

/// Replaces the `${NAME}` placeholders of `raw` by the values in `env`.
pub fn resolve_env_var(raw: &str, env: &Vec<(String, String)>) -> (r: String)
    ensures
        r@ == expand_env(raw@, env@),
{
    let v = chars_of(raw);
    let n = v.len();
    let mut out = String::new();
    let mut i: usize = 0;
    assert(v@.skip(0) =~= v@);
    while i < n
        invariant
            n == v@.len(),
            i <= n,
            v@ == raw@,
            out@ + expand_env(v@.skip(i as int), env@) == expand_env(raw@, env@),
        decreases n - i,
    {
        let ghost s = v@.skip(i as int);
        if i + 1 < n && v[i] == '$' && v[i + 1] == '{' {
            assert(s[0] == '$' && s[1] == '{');
            let ghost t = s.skip(2);
            assert(t =~= v@.skip(i + 2));
            proof {
                lemma_first_index_bounds(t, '}');
            }
            let mut e = i + 2;
            while e < n && v[e] != '}'
                invariant
                    i + 2 <= e <= n,
                    n == v@.len(),
                    t == v@.skip(i + 2),
                    forall|j: int| i + 2 <= j < e ==> v@[j] != '}',
                decreases n - e,
            {
                e = e + 1;
            }
            if e == n {
                proof {
                    if first_index_of(t, '}') is Some {
                        let k = first_index_of(t, '}').unwrap();
                        assert(t[k] == v@[i + 2 + k]);
                    }
                }
                let rest = string_from_chars(slice_chars(v.as_slice(), i, n).as_slice());
                assert(rest@ =~= s);
                push_str(&mut out, rest.as_str());
                assert(v@.skip(n as int) =~= Seq::<char>::empty());
                i = n;
            } else {
                let ghost k = (e - (i + 2)) as int;
                proof {
                    assert(t[k] == '}');
                    assert forall|j: int| 0 <= j < k implies t[j] != '}' by {
                        assert(t[j] == v@[i + 2 + j]);
                    }
                    let f = first_index_of(t, '}');
                    if f is None {
                        assert(t[k] != '}');
                    } else {
                        let fi = f.unwrap();
                        if fi < k {
                            assert(t[fi] == '}');
                        } else if fi > k {
                            assert(t[k] != '}');
                        }
                    }
                }
                let key = string_from_chars(slice_chars(v.as_slice(), i + 2, e).as_slice());
                assert(key@ =~= t.take(k));
                let value = lookup_env(env, key.as_str());
                push_str(&mut out, value.as_str());
                assert(t.skip(k + 1) =~= v@.skip(e + 1));
                i = e + 1;
            }
        } else {
            assert(!(s.len() >= 2 && s[0] == '$' && s[1] == '{'));
            assert(s.drop_first() =~= v@.skip(i + 1));
            let ghost before = out@;
            push_char(&mut out, v[i]);
            assert(out@ + expand_env(v@.skip(i + 1), env@) =~= before + (seq![s[0]] + expand_env(s.drop_first(), env@)));
            i = i + 1;
        }
    }
    assert(v@.skip(n as int) =~= Seq::<char>::empty());
    out
}

/// Every string of a list expanded.
pub open spec fn expand_all(vs: Seq<Seq<char>>, env: Seq<(String, String)>) -> Seq<Seq<char>> {
    Seq::new(vs.len(), |i: int| expand_env(vs[i], env))
}

/// An optional string expanded.
pub open spec fn expand_opt(o: Option<String>, r: Option<String>, env: Seq<(String, String)>) -> bool {
    match (o, r) {
        (None, None) => true,
        (Some(a), Some(b)) => b@ == expand_env(a@, env),
        _ => false,
    }
}

fn resolve_all(v: Vec<String>, env: &Vec<(String, String)>) -> (r: Vec<String>)
    ensures
        views(r@) == expand_all(views(v@), env@),
{
    let mut out: Vec<String> = Vec::new();
    let n = v.len();
    for i in 0..n
        invariant
            n == v@.len(),
            out@.len() == i,
            forall|k: int| 0 <= k < i ==> (#[trigger] out@[k])@ == expand_env(v@[k]@, env@),
    {
        out.push(resolve_env_var(v[i].as_str(), env));
    }
    assert(views(out@) =~= expand_all(views(v@), env@));
    out
}

fn resolve_opt(o: Option<String>, env: &Vec<(String, String)>) -> (r: Option<String>)
    ensures
        expand_opt(o, r, env@),
{
    match o {
        Some(s) => Some(resolve_env_var(s.as_str(), env)),
        None => None,
    }
}

/// `b` is `a` with its placeholder-bearing values expanded: the app name,
/// the connector ids and tokens, and the embedding settings.
pub open spec fn main_resolved(a: MainConfig, b: MainConfig, env: Seq<(String, String)>) -> bool {
    &&& b.app.name@ == expand_env(a.app.name@, env)
    &&& b.runtime == a.runtime
    &&& b.features == a.features
    &&& b.tools == a.tools
    &&& b.embedding.enabled == a.embedding.enabled
    &&& b.embedding.dimensions == a.embedding.dimensions
    &&& b.embedding.api_key@ == expand_env(a.embedding.api_key@, env)
    &&& b.embedding.base_url@ == expand_env(a.embedding.base_url@, env)
    &&& b.embedding.model@ == expand_env(a.embedding.model@, env)
    &&& b.embedding.provider@ == expand_env(a.embedding.provider@, env)
    &&& match (a.channels.telegram, b.channels.telegram) {
        (None, None) => true,
        (Some(x), Some(y)) => y.enabled == x.enabled && y.connectors@.len() == x.connectors@.len()
            && forall|i: int| 0 <= i < x.connectors@.len() ==> {
                &&& (#[trigger] y.connectors@[i]).connector_id@ == expand_env(x.connectors@[i].connector_id@, env)
                &&& y.connectors@[i].token@ == expand_env(x.connectors@[i].token@, env)
            },
        _ => false,
    }
    &&& match (a.channels.discord, b.channels.discord) {
        (None, None) => true,
        (Some(x), Some(y)) => y.enabled == x.enabled && y.connectors@.len() == x.connectors@.len()
            && forall|i: int| 0 <= i < x.connectors@.len() ==> {
                &&& (#[trigger] y.connectors@[i]).connector_id@ == expand_env(x.connectors@[i].connector_id@, env)
                &&& y.connectors@[i].token@ == expand_env(x.connectors@[i].token@, env)
                &&& y.connectors@[i].groups == x.connectors@[i].groups
                &&& y.connectors@[i].require_mention == x.connectors@[i].require_mention
            },
        _ => false,
    }
}

/// Expands the placeholders of the main document.
pub fn resolve_main_env(main: MainConfig, env: &Vec<(String, String)>) -> (r: MainConfig)
    ensures
        main_resolved(main, r, env@),
{
    let MainConfig { app, runtime, features, channels, embedding, tools } = main;
    let ghost (tg0, dc0) = (channels.telegram, channels.discord);
    let telegram = match channels.telegram {
        Some(t) => {
            let TelegramChannelConfig { enabled, connectors } = t;
            let ghost old_c = connectors@;
            let mut out: Vec<TelegramConnectorConfig> = Vec::new();
            let n = connectors.len();
            for i in 0..n
                invariant
                    n == connectors@.len(),
                    out@.len() == i,
                    forall|k: int| 0 <= k < i ==> {
                        &&& (#[trigger] out@[k]).connector_id@ == expand_env(connectors@[k].connector_id@, env@)
                        &&& out@[k].token@ == expand_env(connectors@[k].token@, env@)
                    },
            {
                out.push(TelegramConnectorConfig {
                    connector_id: resolve_env_var(connectors[i].connector_id.as_str(), env),
                    token: resolve_env_var(connectors[i].token.as_str(), env),
                });
            }
            Some(TelegramChannelConfig { enabled, connectors: out })
        },
        None => None,
    };
    let discord = match channels.discord {
        Some(d) => {
            let DiscordChannelConfig { enabled, connectors } = d;
            let mut out: Vec<DiscordConnectorConfig> = Vec::new();
            let mut rest = connectors;
            let ghost orig = rest@;
            let n = rest.len();
            let mut i: usize = 0;
            while i < n
                invariant
                    n == orig.len(),
                    i <= n,
                    rest@ == orig.skip(i as int),
                    out@.len() == i,
                    forall|k: int| 0 <= k < i ==> {
                        &&& (#[trigger] out@[k]).connector_id@ == expand_env(orig[k].connector_id@, env@)
                        &&& out@[k].token@ == expand_env(orig[k].token@, env@)
                        &&& out@[k].groups == orig[k].groups
                        &&& out@[k].require_mention == orig[k].require_mention
                    },
                decreases n - i,
            {
                let c = rest.remove(0);
                assert(c == orig[i as int]);
                assert(rest@ =~= orig.skip(i + 1));
                let DiscordConnectorConfig { connector_id, token, groups, require_mention } = c;
                out.push(DiscordConnectorConfig {
                    connector_id: resolve_env_var(connector_id.as_str(), env),
                    token: resolve_env_var(token.as_str(), env),
                    groups,
                    require_mention,
                });
                i = i + 1;
            }
            Some(DiscordChannelConfig { enabled, connectors: out })
        },
        None => None,
    };
    let EmbeddingConfig { enabled, provider, api_key, model, dimensions, base_url } = embedding;
    MainConfig {
        app: AppConfig { name: resolve_env_var(app.name.as_str(), env) },
        runtime,
        features,
        channels: ChannelsConfig { telegram, discord },
        embedding: EmbeddingConfig {
            enabled,
            provider: resolve_env_var(provider.as_str(), env),
            api_key: resolve_env_var(api_key.as_str(), env),
            model: resolve_env_var(model.as_str(), env),
            dimensions,
            base_url: resolve_env_var(base_url.as_str(), env),
        },
        tools,
    }
}

/// `b` is the routing document `a` with every binding's values expanded.
pub open spec fn routing_resolved(a: RoutingConfig, b: RoutingConfig, env: Seq<(String, String)>) -> bool {
    &&& b.default_agent_id@ == expand_env(a.default_agent_id@, env)
    &&& b.bindings@.len() == a.bindings@.len()
    &&& forall|i: int| 0 <= i < a.bindings@.len() ==> {
        let x = a.bindings@[i];
        let y = #[trigger] b.bindings@[i];
        &&& y.channel_type@ == expand_env(x.channel_type@, env)
        &&& y.connector_id@ == expand_env(x.connector_id@, env)
        &&& y.match_rule.kind@ == expand_env(x.match_rule.kind@, env)
        &&& expand_opt(x.match_rule.pattern, y.match_rule.pattern, env)
        &&& y.agent_id@ == expand_env(x.agent_id@, env)
    }
}

/// Expands the placeholders of the routing document.
pub fn resolve_routing_env(routing: RoutingConfig, env: &Vec<(String, String)>) -> (r: RoutingConfig)
    ensures
        routing_resolved(routing, r, env@),
{
    let RoutingConfig { default_agent_id, bindings } = routing;
    let mut out: Vec<RoutingBinding> = Vec::new();
    let mut rest = bindings;
    let ghost orig = rest@;
    let n = rest.len();
    let mut i: usize = 0;
    while i < n
        invariant
            n == orig.len(),
            i <= n,
            rest@ == orig.skip(i as int),
            out@.len() == i,
            forall|k: int| 0 <= k < i ==> {
                let x = orig[k];
                let y = #[trigger] out@[k];
                &&& y.channel_type@ == expand_env(x.channel_type@, env@)
                &&& y.connector_id@ == expand_env(x.connector_id@, env@)
                &&& y.match_rule.kind@ == expand_env(x.match_rule.kind@, env@)
                &&& expand_opt(x.match_rule.pattern, y.match_rule.pattern, env@)
                &&& y.agent_id@ == expand_env(x.agent_id@, env@)
            },
        decreases n - i,
    {
        let b = rest.remove(0);
        assert(b == orig[i as int]);
        assert(rest@ =~= orig.skip(i + 1));
        let RoutingBinding { channel_type, connector_id, match_rule, agent_id } = b;
        let MatchRule { kind, pattern } = match_rule;
        out.push(RoutingBinding {
            channel_type: resolve_env_var(channel_type.as_str(), env),
            connector_id: resolve_env_var(connector_id.as_str(), env),
            match_rule: MatchRule { kind: resolve_env_var(kind.as_str(), env), pattern: resolve_opt(pattern, env) },
            agent_id: resolve_env_var(agent_id.as_str(), env),
        });
        i = i + 1;
    }
    RoutingConfig { default_agent_id: resolve_env_var(default_agent_id.as_str(), env), bindings: out }
}

/// `b` is provider `a` with its id, API base, auth profile and model names
/// expanded.
pub open spec fn provider_resolved(a: ProviderConfig, b: ProviderConfig, env: Seq<(String, String)>) -> bool {
    &&& b.provider_id@ == expand_env(a.provider_id@, env)
    &&& b.enabled == a.enabled
    &&& b.api_base@ == expand_env(a.api_base@, env)
    &&& b.api_key == a.api_key
    &&& expand_opt(a.auth_profile, b.auth_profile, env)
    &&& views(b.models@) == expand_all(views(a.models@), env)
}

/// Expands the placeholders of the provider documents.
pub fn resolve_providers_env(providers: Vec<ProviderConfig>, env: &Vec<(String, String)>) -> (r: Vec<ProviderConfig>)
    ensures
        r@.len() == providers@.len(),
        forall|i: int| 0 <= i < providers@.len() ==> provider_resolved(providers@[i], #[trigger] r@[i], env@),
{
    let mut out: Vec<ProviderConfig> = Vec::new();
    let mut rest = providers;
    let ghost orig = rest@;
    let n = rest.len();
    let mut i: usize = 0;
    while i < n
        invariant
            n == orig.len(),
            i <= n,
            rest@ == orig.skip(i as int),
            out@.len() == i,
            forall|k: int| 0 <= k < i ==> provider_resolved(orig[k], #[trigger] out@[k], env@),
        decreases n - i,
    {
        let p = rest.remove(0);
        assert(p == orig[i as int]);
        assert(rest@ =~= orig.skip(i + 1));
        let ProviderConfig { provider_id, enabled, api_base, api_key, auth_profile, models } = p;
        out.push(ProviderConfig {
            provider_id: resolve_env_var(provider_id.as_str(), env),
            enabled,
            api_base: resolve_env_var(api_base.as_str(), env),
            api_key,
            auth_profile: resolve_opt(auth_profile, env),
            models: resolve_all(models, env),
        });
        i = i + 1;
    }
    out
}

/// `b` is agent `a` with its id, models, identity, tool allow list, memory
/// policy, exec allow lists and sandbox lists expanded; everything else is
/// kept.
pub open spec fn agent_resolved(a: FullAgentConfig, b: FullAgentConfig, env: Seq<(String, String)>) -> bool {
    &&& b.agent_id@ == expand_env(a.agent_id@, env)
    &&& b.enabled == a.enabled
    &&& b.workspace == a.workspace
    &&& b.model_policy.primary@ == expand_env(a.model_policy.primary@, env)
    &&& views(b.model_policy.fallbacks@) == expand_all(views(a.model_policy.fallbacks@), env)
    &&& match (a.identity, b.identity) {
        (None, None) => true,
        (Some(x), Some(y)) => y.name@ == expand_env(x.name@, env) && expand_opt(x.emoji, y.emoji, env),
        _ => false,
    }
    &&& match (a.tool_policy, b.tool_policy) {
        (None, None) => true,
        (Some(x), Some(y)) => views(y.allow@) == expand_all(views(x.allow@), env),
        _ => false,
    }
    &&& match (a.memory_policy, b.memory_policy) {
        (None, None) => true,
        (Some(x), Some(y)) => y.mode@ == expand_env(x.mode@, env) && y.write_scope@ == expand_env(x.write_scope@, env),
        _ => false,
    }
    &&& b.sub_agent == a.sub_agent
    &&& b.heartbeat == a.heartbeat
    &&& match (a.exec_security, b.exec_security) {
        (None, None) => true,
        (Some(x), Some(y)) => y.security == x.security && y.ask == x.ask && views(y.allowlist@) == expand_all(
            views(x.allowlist@),
            env,
        ) && views(y.safe_bins@) == expand_all(views(x.safe_bins@), env),
        _ => false,
    }
    &&& match (a.sandbox, b.sandbox) {
        (None, None) => true,
        (Some(x), Some(y)) => y.network == x.network && y.timeout_secs == x.timeout_secs && y.max_memory_mb
            == x.max_memory_mb && views(y.env_inherit@) == expand_all(views(x.env_inherit@), env) && views(
            y.exec_allow@,
        ) == expand_all(views(x.exec_allow@), env),
        _ => false,
    }
}

fn resolve_agent(a: FullAgentConfig, env: &Vec<(String, String)>) -> (r: FullAgentConfig)
    ensures
        agent_resolved(a, r, env@),
{
    let FullAgentConfig {
        agent_id,
        enabled,
        workspace,
        identity,
        model_policy,
        tool_policy,
        memory_policy,
        sub_agent,
        heartbeat,
        exec_security,
        sandbox,
    } = a;
    let ModelPolicy { primary, fallbacks } = model_policy;
    let identity = match identity {
        Some(IdentityConfig { name, emoji }) => Some(
            IdentityConfig { name: resolve_env_var(name.as_str(), env), emoji: resolve_opt(emoji, env) },
        ),
        None => None,
    };
    let tool_policy = match tool_policy {
        Some(ToolPolicyConfig { allow }) => Some(ToolPolicyConfig { allow: resolve_all(allow, env) }),
        None => None,
    };
    let memory_policy = match memory_policy {
        Some(MemoryPolicyConfig { mode, write_scope }) => Some(
            MemoryPolicyConfig {
                mode: resolve_env_var(mode.as_str(), env),
                write_scope: resolve_env_var(write_scope.as_str(), env),
            },
        ),
        None => None,
    };
    let exec_security = match exec_security {
        Some(ExecSecurityConfig { security, ask, allowlist, safe_bins }) => Some(
            ExecSecurityConfig {
                security,
                ask,
                allowlist: resolve_all(allowlist, env),
                safe_bins: resolve_all(safe_bins, env),
            },
        ),
        None => None,
    };
    let sandbox = match sandbox {
        Some(SandboxPolicyConfig { network, timeout_secs, max_memory_mb, env_inherit, exec_allow }) => Some(
            SandboxPolicyConfig {
                network,
                timeout_secs,
                max_memory_mb,
                env_inherit: resolve_all(env_inherit, env),
                exec_allow: resolve_all(exec_allow, env),
            },
        ),
        None => None,
    };
    FullAgentConfig {
        agent_id: resolve_env_var(agent_id.as_str(), env),
        enabled,
        workspace,
        identity,
        model_policy: ModelPolicy {
            primary: resolve_env_var(primary.as_str(), env),
            fallbacks: resolve_all(fallbacks, env),
        },
        tool_policy,
        memory_policy,
        sub_agent,
        heartbeat,
        exec_security,
        sandbox,
    }
}

/// Expands the placeholders of the agent documents.
pub fn resolve_agents_env(agents: Vec<FullAgentConfig>, env: &Vec<(String, String)>) -> (r: Vec<FullAgentConfig>)
    ensures
        r@.len() == agents@.len(),
        forall|i: int| 0 <= i < agents@.len() ==> agent_resolved(agents@[i], #[trigger] r@[i], env@),
{
    let mut out: Vec<FullAgentConfig> = Vec::new();
    let mut rest = agents;
    let ghost orig = rest@;
    let n = rest.len();
    let mut i: usize = 0;
    while i < n
        invariant
            n == orig.len(),
            i <= n,
            rest@ == orig.skip(i as int),
            out@.len() == i,
            forall|k: int| 0 <= k < i ==> agent_resolved(orig[k], #[trigger] out@[k], env@),
        decreases n - i,
    {
        let a = rest.remove(0);
        assert(a == orig[i as int]);
        assert(rest@ =~= orig.skip(i + 1));
        out.push(resolve_agent(a, env));
        i = i + 1;
    }
    out
}

/// `b` is the configuration `a` with every document's placeholders expanded.
pub open spec fn config_resolved(a: ClawhiveConfig, b: ClawhiveConfig, env: Seq<(String, String)>) -> bool {
    &&& main_resolved(a.main, b.main, env)
    &&& routing_resolved(a.routing, b.routing, env)
    &&& b.providers@.len() == a.providers@.len()
    &&& forall|i: int| 0 <= i < a.providers@.len() ==> provider_resolved(a.providers@[i], #[trigger] b.providers@[i], env)
    &&& b.agents@.len() == a.agents@.len()
    &&& forall|i: int| 0 <= i < a.agents@.len() ==> agent_resolved(a.agents@[i], #[trigger] b.agents@[i], env)
}

/// The configuration from its parsed documents: placeholders expanded from
/// `env`, then checked for consistency.
pub fn load_config(documents: ClawhiveConfig, env: &Vec<(String, String)>) -> (r: Result<ClawhiveConfig, ConfigError>)
    ensures
        match r {
            Ok(c) => config_resolved(documents, c, env@) && accepts(c),
            Err(e) => exists|c: ClawhiveConfig| #[trigger] config_resolved(documents, c, env@) && rejects(c, e),
        },
{
    let ghost docs = documents;
    let ClawhiveConfig { main, routing, providers, agents } = documents;
    let config = ClawhiveConfig {
        main: resolve_main_env(main, env),
        routing: resolve_routing_env(routing, env),
        providers: resolve_providers_env(providers, env),
        agents: resolve_agents_env(agents, env),
    };
    assert(config_resolved(docs, config, env@));
    match validate_config(&config) {
        Ok(()) => Ok(config),
        Err(e) => Err(e),
    }
}

/// `s` holds no `${`.
pub open spec fn no_placeholder(s: Seq<char>) -> bool {
    forall|i: int| 0 <= i < s.len() - 1 ==> !(s[i] == '$' && #[trigger] s[i + 1] == '{')
}

/// A value without `${` comes through unchanged, whatever the environment.
pub proof fn law_plain_value_unchanged(s: Seq<char>, env: Seq<(String, String)>)
    requires
        no_placeholder(s),
    ensures
        expand_env(s, env) == s,
    decreases s.len(),
{
    if s.len() > 0 {
        if s.len() >= 2 {
            assert(!(s[0] == '$' && s[0int + 1] == '{'));
        }
        let t = s.drop_first();
        assert forall|i: int| 0 <= i < t.len() - 1 implies !(t[i] == '$' && #[trigger] t[i + 1] == '{') by {
            assert(t[i] == s[i + 1] && t[i + 1] == s[i + 2]);
        }
        law_plain_value_unchanged(t, env);
        assert(s =~= seq![s[0]] + t);
    }
}

} // verus!
