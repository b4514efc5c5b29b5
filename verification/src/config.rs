//! Configuration model: the documents under the config root, their defaults,
//! and the cross-document validation.
use vstd::prelude::*;

use crate::text::{owned, str_eq, views, concat2, has_suffix, chars_of, ends_with_chars};
use crate::sorted::{insert_sorted, strictly_sorted};

verus! {

#[derive(Debug, Clone)]
pub struct AppConfig {
    pub name: String,
}

#[derive(Debug, Clone)]
pub struct RuntimeConfig {
    pub max_concurrent: usize,
}

#[derive(Debug, Clone)]
pub struct FeaturesConfig {
    pub multi_agent: bool,
    pub sub_agent: bool,
    pub tui: bool,
    pub cli: bool,
}

/// Model used for embeddings when the document names none.
pub fn default_embedding_model() -> (r: String)
    ensures
        r@ == "text-embedding-3-small"@,
{
    owned("text-embedding-3-small")
}

/// Embedding dimensions when the document names none.
pub fn default_embedding_dimensions() -> (r: usize)
    ensures
        r == 1536,
{
    1536
}

/// Embedding API base URL when the document names none.
pub fn default_embedding_base_url() -> (r: String)
    ensures
        r@ == "https://api.openai.com/v1"@,
{
    owned("https://api.openai.com/v1")
}

#[derive(Debug, Clone)]
pub struct EmbeddingConfig {
    pub enabled: bool,
    pub provider: String,
    pub api_key: String,
    pub model: String,
    pub dimensions: usize,
    pub base_url: String,
}

impl Default for EmbeddingConfig {
    fn default() -> (r: Self)
        ensures
            r.enabled,
            r.provider@ == "auto"@,
            r.api_key@.len() == 0,
            r.model@ == "text-embedding-3-small"@,
            r.dimensions == 1536,
            r.base_url@ == "https://api.openai.com/v1"@,
    {
        EmbeddingConfig {
            enabled: true,
            provider: owned("auto"),
            api_key: String::new(),
            model: default_embedding_model(),
            dimensions: default_embedding_dimensions(),
            base_url: default_embedding_base_url(),
        }
    }
}

#[derive(Debug, Clone)]
pub struct TelegramConnectorConfig {
    pub connector_id: String,
    pub token: String,
}

#[derive(Debug, Clone)]
pub struct TelegramChannelConfig {
    pub enabled: bool,
    pub connectors: Vec<TelegramConnectorConfig>,
}

/// Default of boolean fields that are on unless stated otherwise.
pub fn default_true() -> (r: bool)
    ensures
        r,
{
    true
}

#[derive(Debug, Clone)]
pub struct DiscordConnectorConfig {
    pub connector_id: String,
    pub token: String,
    pub groups: Vec<String>,
    pub require_mention: bool,
}

#[derive(Debug, Clone)]
pub struct DiscordChannelConfig {
    pub enabled: bool,
    pub connectors: Vec<DiscordConnectorConfig>,
}

#[derive(Debug, Clone)]
pub struct ChannelsConfig {
    pub telegram: Option<TelegramChannelConfig>,
    pub discord: Option<DiscordChannelConfig>,
}

#[derive(Debug, Clone)]
pub struct WebSearchConfig {
    pub enabled: bool,
    pub provider: Option<String>,
    pub api_key: Option<String>,
}

impl Default for WebSearchConfig {
    fn default() -> (r: Self)
        ensures
            !r.enabled,
            r.provider is None,
            r.api_key is None,
    {
        WebSearchConfig { enabled: false, provider: None, api_key: None }
    }
}

#[derive(Debug, Clone)]
pub struct ToolsConfig {
    pub web_search: Option<WebSearchConfig>,
}

impl Default for ToolsConfig {
    fn default() -> (r: Self)
        ensures
            r.web_search is None,
    {
        ToolsConfig { web_search: None }
    }
}

#[derive(Debug, Clone)]
pub struct MainConfig {
    pub app: AppConfig,
    pub runtime: RuntimeConfig,
    pub features: FeaturesConfig,
    pub channels: ChannelsConfig,
    pub embedding: EmbeddingConfig,
    pub tools: ToolsConfig,
}

#[derive(Debug, Clone)]
pub struct MatchRule {
    pub kind: String,
    pub pattern: Option<String>,
}

#[derive(Debug, Clone)]
pub struct RoutingBinding {
    pub channel_type: String,
    pub connector_id: String,
    pub match_rule: MatchRule,
    pub agent_id: String,
}

#[derive(Debug, Clone)]
pub struct RoutingConfig {
    pub default_agent_id: String,
    pub bindings: Vec<RoutingBinding>,
}

#[derive(Debug, Clone)]
pub struct ProviderConfig {
    pub provider_id: String,
    pub enabled: bool,
    pub api_base: String,
    pub api_key: Option<String>,
    pub auth_profile: Option<String>,
    pub models: Vec<String>,
}

#[derive(Debug, Clone)]
pub struct IdentityConfig {
    pub name: String,
    pub emoji: Option<String>,
}

#[derive(Debug, Clone)]
pub struct ToolPolicyConfig {
    pub allow: Vec<String>,
}

/// Master security switch of the tool policy.
#[derive(Debug, Clone, Copy, PartialEq, Eq, Structural)]
pub enum SecurityMode {
    /// Hard baseline and origin checks apply.
    Standard,
    /// Every check is bypassed.
    Off,
}

impl Default for SecurityMode {
    fn default() -> (r: Self)
        ensures
            r == SecurityMode::Standard,
    {
        SecurityMode::Standard
    }
}

/// How exec command security is enforced.
#[derive(Debug, Clone, Copy, PartialEq, Eq, Structural)]
pub enum ExecSecurityMode {
    /// Block all host exec requests.
    Deny,
    /// Allow only allowlisted command patterns (default).
    Allowlist,
    /// Allow everything.
    Full,
}

impl Default for ExecSecurityMode {
    fn default() -> (r: Self)
        ensures
            r == ExecSecurityMode::Allowlist,
    {
        ExecSecurityMode::Allowlist
    }
}

/// Exec approval behaviour when a command is not in the allowlist.
#[derive(Debug, Clone, Copy, PartialEq, Eq, Structural)]
pub enum ExecAskMode {
    /// Never prompt the user.
    Off,
    /// Prompt only when the allowlist does not match (default).
    OnMiss,
    /// Prompt on every command.
    Always,
}

impl Default for ExecAskMode {
    fn default() -> (r: Self)
        ensures
            r == ExecAskMode::OnMiss,
    {
        ExecAskMode::OnMiss
    }
}

/// Exec security configuration for an agent.
#[derive(Debug, Clone)]
pub struct ExecSecurityConfig {
    pub security: ExecSecurityMode,
    pub ask: ExecAskMode,
    pub allowlist: Vec<String>,
    pub safe_bins: Vec<String>,
}

pub open spec fn default_allowlist() -> Seq<Seq<char>> {
    seq![
        "git *"@, "cargo *"@, "npm *"@, "ls *"@, "cat *"@, "echo *"@, "grep *"@, "find *"@,
        "which *"@, "pwd"@, "whoami"@, "date"@, "mkdir *"@, "cp *"@, "mv *"@, "touch *"@,
        "head *"@, "tail *"@, "wc *"@, "sort *"@, "uniq *"@,
    ]
}

pub open spec fn default_safe_bins() -> Seq<Seq<char>> {
    seq!["jq"@, "cut"@, "uniq"@, "head"@, "tail"@, "tr"@, "wc"@]
}

/// Strings of the given literals.
fn strings_of_strs(items: &[&str]) -> (r: Vec<String>)
    ensures
        r@.len() == items@.len(),
        forall|i: int| 0 <= i < items@.len() ==> r@[i]@ == items@[i]@,
{
    let mut r: Vec<String> = Vec::new();
    for i in 0..items.len()
        invariant
            r@.len() == i,
            forall|j: int| 0 <= j < i ==> r@[j]@ == items@[j]@,
    {
        r.push(owned(items[i]));
    }
    r
}

impl Default for ExecSecurityConfig {
    fn default() -> (r: Self)
        ensures
            r.security == ExecSecurityMode::Allowlist,
            r.ask == ExecAskMode::OnMiss,
            views(r.allowlist@) == default_allowlist(),
            views(r.safe_bins@) == default_safe_bins(),
    {
        let allow = [
            "git *", "cargo *", "npm *", "ls *", "cat *", "echo *", "grep *", "find *", "which *",
            "pwd", "whoami", "date", "mkdir *", "cp *", "mv *", "touch *", "head *", "tail *",
            "wc *", "sort *", "uniq *",
        ];
        let bins = ["jq", "cut", "uniq", "head", "tail", "tr", "wc"];
        let allowlist = strings_of_strs(&allow);
        let safe_bins = strings_of_strs(&bins);
        assert(views(allowlist@) =~= default_allowlist());
        assert(views(safe_bins@) =~= default_safe_bins());
        ExecSecurityConfig {
            security: ExecSecurityMode::Allowlist,
            ask: ExecAskMode::OnMiss,
            allowlist,
            safe_bins,
        }
    }
}

/// Sandbox environment configuration for an agent.
#[derive(Debug, Clone)]
pub struct SandboxPolicyConfig {
    /// Allow network access in the sandbox (unset: platform default).
    pub network: Option<bool>,
    /// Command timeout in seconds.
    pub timeout_secs: u64,
    /// Maximum memory in MB.
    pub max_memory_mb: u64,
    /// Environment variables inherited into the sandbox.
    pub env_inherit: Vec<String>,
    /// Executables allowed in the sandbox.
    pub exec_allow: Vec<String>,
}

/// Sandbox command timeout when none is configured, in seconds.
pub fn default_sandbox_timeout() -> (r: u64)
    ensures
        r == 30,
{
    30
}

/// Sandbox memory limit when none is configured, in MB.
pub fn default_sandbox_memory() -> (r: u64)
    ensures
        r == 512,
{
    512
}

/// Environment variables inherited when none are configured.
pub fn default_sandbox_env() -> (r: Vec<String>)
    ensures
        views(r@) == seq!["PATH"@, "HOME"@, "TMPDIR"@],
{
    let r = strings_of_strs(&["PATH", "HOME", "TMPDIR"]);
    assert(views(r@) =~= seq!["PATH"@, "HOME"@, "TMPDIR"@]);
    r
}

/// Executables allowed when none are configured.
pub fn default_sandbox_exec() -> (r: Vec<String>)
    ensures
        views(r@) == seq!["sh"@],
{
    let r = strings_of_strs(&["sh"]);
    assert(views(r@) =~= seq!["sh"@]);
    r
}

impl Default for SandboxPolicyConfig {
    fn default() -> (r: Self)
        ensures
            r.network is None,
            r.timeout_secs == 30,
            r.max_memory_mb == 512,
            views(r.env_inherit@) == seq!["PATH"@, "HOME"@, "TMPDIR"@],
            views(r.exec_allow@) == seq!["sh"@],
    {
        SandboxPolicyConfig {
            network: None,
            timeout_secs: default_sandbox_timeout(),
            max_memory_mb: default_sandbox_memory(),
            env_inherit: default_sandbox_env(),
            exec_allow: default_sandbox_exec(),
        }
    }
}

#[derive(Debug, Clone)]
pub struct MemoryPolicyConfig {
    pub mode: String,
    pub write_scope: String,
}

#[derive(Debug, Clone)]
pub struct SubAgentPolicyConfig {
    pub allow_spawn: bool,
}

/// Heartbeat interval when none is configured, in minutes.
pub fn default_heartbeat_interval_minutes() -> (r: u64)
    ensures
        r == 30,
{
    30
}

#[derive(Debug, Clone)]
pub struct HeartbeatPolicyConfig {
    pub enabled: bool,
    pub interval_minutes: u64,
    pub prompt: Option<String>,
}

impl Default for HeartbeatPolicyConfig {
    fn default() -> (r: Self)
        ensures
            !r.enabled,
            r.interval_minutes == 30,
            r.prompt is None,
    {
        HeartbeatPolicyConfig { enabled: false, interval_minutes: 30, prompt: None }
    }
}

/// Primary model and its fallbacks.
#[derive(Debug, Clone)]
pub struct ModelPolicy {
    pub primary: String,
    pub fallbacks: Vec<String>,
}

/// The parts of an agent's configuration that routing needs.
#[derive(Debug, Clone)]
pub struct AgentConfig {
    pub agent_id: String,
    pub enabled: bool,
    pub model_policy: ModelPolicy,
}

#[derive(Debug, Clone)]
pub struct FullAgentConfig {
    pub agent_id: String,
    pub enabled: bool,
    pub workspace: Option<String>,
    pub identity: Option<IdentityConfig>,
    pub model_policy: ModelPolicy,
    pub tool_policy: Option<ToolPolicyConfig>,
    pub memory_policy: Option<MemoryPolicyConfig>,
    pub sub_agent: Option<SubAgentPolicyConfig>,
    pub heartbeat: Option<HeartbeatPolicyConfig>,
    pub exec_security: Option<ExecSecurityConfig>,
    pub sandbox: Option<SandboxPolicyConfig>,
}

#[derive(Debug, Clone)]
pub struct ClawhiveConfig {
    pub main: MainConfig,
    pub routing: RoutingConfig,
    pub providers: Vec<ProviderConfig>,
    pub agents: Vec<FullAgentConfig>,
}

// ───────────────────────────── Validation ─────────────────────────────

/// Why a configuration is rejected.
#[derive(Debug, PartialEq, Eq)]
pub enum ConfigError {
    DuplicateAgentId(String),
    UnknownDefaultAgent(String),
    UnknownRoutingAgent(String),
}

impl ConfigError {
    /// Human-readable message of the error.
    pub fn message(&self) -> (r: String)
        ensures
            match self {
                ConfigError::DuplicateAgentId(a) => r@ == "duplicate agent_id: "@ + a@,
                ConfigError::UnknownDefaultAgent(a) => r@ == "default_agent_id does not exist in agents: "@ + a@,
                ConfigError::UnknownRoutingAgent(a) => r@ == "unknown agent_id in routing: "@ + a@,
            },
    {
        match self {
            ConfigError::DuplicateAgentId(a) => concat2("duplicate agent_id: ", a.as_str()),
            ConfigError::UnknownDefaultAgent(a) => concat2(
                "default_agent_id does not exist in agents: ",
                a.as_str(),
            ),
            ConfigError::UnknownRoutingAgent(a) => concat2("unknown agent_id in routing: ", a.as_str()),
        }
    }
}

/// Agent ids of the agents, in order.
pub open spec fn agent_ids(agents: Seq<FullAgentConfig>) -> Seq<Seq<char>> {
    Seq::new(agents.len(), |i: int| agents[i].agent_id@)
}

/// Index `i` holds the first id that repeats an earlier one.
pub open spec fn first_duplicate(ids: Seq<Seq<char>>, i: int) -> bool {
    &&& 0 <= i < ids.len()
    &&& ids.take(i).contains(ids[i])
    &&& forall|j: int| 0 <= j < i ==> !ids.take(j).contains(#[trigger] ids[j])
}

pub open spec fn has_duplicate(ids: Seq<Seq<char>>) -> bool {
    exists|i: int| 0 <= i < ids.len() && ids.take(i).contains(ids[i])
}

/// Index `i` holds the first binding whose agent is not defined.
pub open spec fn first_unknown_binding(bindings: Seq<RoutingBinding>, ids: Seq<Seq<char>>, i: int) -> bool {
    &&& 0 <= i < bindings.len()
    &&& !ids.contains(bindings[i].agent_id@)
    &&& forall|j: int| 0 <= j < i ==> ids.contains(#[trigger] bindings[j].agent_id@)
}

fn ids_contain(agents: &Vec<FullAgentConfig>, upto: usize, id: &str) -> (r: bool)
    requires
        upto <= agents@.len(),
    ensures
        r == agent_ids(agents@).take(upto as int).contains(id@),
{
    for j in 0..upto
        invariant
            upto <= agents@.len(),
            forall|k: int| 0 <= k < j ==> agents@[k].agent_id@ != id@,
    {
        if str_eq(agents[j].agent_id.as_str(), id) {
            assert(agent_ids(agents@).take(upto as int)[j as int] == id@);
            return true;
        }
    }
    assert forall|k: int| 0 <= k < agent_ids(agents@).take(upto as int).len() implies agent_ids(
        agents@,
    ).take(upto as int)[k] != id@ by {}
    false
}

/// The configuration is consistent: agent ids are unique, the default agent
/// exists, and every routing binding names an existing agent.
pub open spec fn accepts(config: ClawhiveConfig) -> bool {
    let ids = agent_ids(config.agents@);
    !has_duplicate(ids) && ids.contains(config.routing.default_agent_id@) && forall|j: int|
        0 <= j < config.routing.bindings@.len() ==> ids.contains(#[trigger] config.routing.bindings@[j].agent_id@)
}

/// The error a configuration is rejected with: the first duplicate agent id;
/// else a missing default agent; else the first binding to an unknown agent.
pub open spec fn rejects(config: ClawhiveConfig, e: ConfigError) -> bool {
    let ids = agent_ids(config.agents@);
    match e {
        ConfigError::DuplicateAgentId(a) => exists|i: int| first_duplicate(ids, i) && a@ == ids[i],
        ConfigError::UnknownDefaultAgent(a) => !has_duplicate(ids) && !ids.contains(config.routing.default_agent_id@)
            && a@ == config.routing.default_agent_id@,
        ConfigError::UnknownRoutingAgent(a) => !has_duplicate(ids) && ids.contains(config.routing.default_agent_id@)
            && exists|i: int| first_unknown_binding(config.routing.bindings@, ids, i) && a@ == config.routing.bindings@[i].agent_id@,
    }
}

/// Check cross-document consistency: agent ids are unique, the default agent
/// exists, and every routing binding names an existing agent.
pub fn validate_config(config: &ClawhiveConfig) -> (r: Result<(), ConfigError>)
    ensures
        match r {
            Ok(()) => accepts(*config),
            Err(e) => rejects(*config, e),
        },
{
    let ghost ids = agent_ids(config.agents@);
    let n = config.agents.len();
    for i in 0..n
        invariant
            n == config.agents@.len(),
            ids == agent_ids(config.agents@),
            forall|j: int| 0 <= j < i ==> !ids.take(j).contains(#[trigger] ids[j]),
    {
        if ids_contain(&config.agents, i, config.agents[i].agent_id.as_str()) {
            assert(first_duplicate(ids, i as int));
            return Err(ConfigError::DuplicateAgentId(config.agents[i].agent_id.clone()));
        }
    }
    assert(!has_duplicate(ids)) by {
        if has_duplicate(ids) {
            let i = choose|i: int| 0 <= i < ids.len() && ids.take(i).contains(ids[i]);
            assert(!ids.take(i).contains(ids[i]));
        }
    }
    assert(agent_ids(config.agents@).take(n as int) =~= ids);
    if !ids_contain(&config.agents, n, config.routing.default_agent_id.as_str()) {
        return Err(ConfigError::UnknownDefaultAgent(config.routing.default_agent_id.clone()));
    }
    let m = config.routing.bindings.len();
    for i in 0..m
        invariant
            n == config.agents@.len(),
            m == config.routing.bindings@.len(),
            ids == agent_ids(config.agents@),
            agent_ids(config.agents@).take(n as int) == ids,
            !has_duplicate(ids),
            ids.contains(config.routing.default_agent_id@),
            forall|j: int| 0 <= j < i ==> ids.contains(#[trigger] config.routing.bindings@[j].agent_id@),
    {
        if !ids_contain(&config.agents, n, config.routing.bindings[i].agent_id.as_str()) {
            assert(first_unknown_binding(config.routing.bindings@, ids, i as int));
            return Err(ConfigError::UnknownRoutingAgent(config.routing.bindings[i].agent_id.clone()));
        }
    }
    Ok(())
}

// ───────────────────────────── Document directories ─────────────────────────────

/// A file name with the extension `yaml` (a name that is only `.yaml` has
/// none).
pub open spec fn is_yaml_name(name: Seq<char>) -> bool {
    has_suffix(name, ".yaml"@) && name.len() > ".yaml"@.len()
}

/// The YAML documents of a configuration directory, by file name, in
/// ascending order (as they are read).
pub fn yaml_documents(names: &Vec<String>) -> (r: Vec<String>)
    ensures
        strictly_sorted(views(r@)),
        forall|y: Seq<char>| #[trigger] views(r@).contains(y) <==> (views(names@).contains(y) && is_yaml_name(y)),
{
    let mut out: Vec<String> = Vec::new();
    let ext = chars_of(".yaml");
    let n = names.len();
    for i in 0..n
        invariant
            n == names@.len(),
            ext@ == ".yaml"@,
            strictly_sorted(views(out@)),
            forall|y: Seq<char>| #[trigger] views(out@).contains(y) <==> (views(names@).take(i as int).contains(y)
                && is_yaml_name(y)),
    {
        let cs = chars_of(names[i].as_str());
        let yaml = ends_with_chars(cs.as_slice(), ext.as_slice()) && cs.len() > ext.len();
        let ghost before = views(out@);
        let ghost x = names@[i as int]@;
        if yaml {
            insert_sorted(&mut out, names[i].clone());
        }
        assert(views(names@).take(i + 1) =~= views(names@).take(i as int).push(x));
        assert forall|y: Seq<char>| #[trigger] views(out@).contains(y) <==> (views(names@).take(i + 1).contains(y)
            && is_yaml_name(y)) by {
            let pre = views(names@).take(i as int);
            let post = views(names@).take(i + 1);
            if post.contains(y) {
                let m = choose|m: int| 0 <= m < post.len() && post[m] == y;
                if m < i {
                    assert(pre[m] == y);
                }
            }
            if pre.contains(y) {
                let m = choose|m: int| 0 <= m < pre.len() && pre[m] == y;
                assert(post[m] == y);
            }
            if y == x {
                assert(post[i as int] == y);
            }
        }
    }
    assert(views(names@).take(n as int) =~= views(names@));
    out
}

} // verus!
