use clawhive::access_gate::AccessLevel;
use clawhive::config::{ExecAskMode, ExecSecurityConfig, ExecSecurityMode, SandboxPolicyConfig};
use clawhive::shell::{
    augment_path_like_host, base_permissions, command_preview, domain_matches,
    exec_approval_outcome, extract_network_targets, format_command_output,
    network_approval_outcome, network_target_step, package_manager_domains,
    path_candidates_for_home, ApprovalDecision, ApprovalOutcome, ExecAction, ExecEvent, ExecGate,
    ExecPhase, ExecRun, ExecuteCommandTool, NetworkStep,
};
use clawhive::policy::{FsPermissions, NetworkPermissions, Permissions};
use clawhive::tool::ToolContext;

fn tool(cfg: ExecSecurityConfig) -> ExecuteCommandTool {
    ExecuteCommandTool::new("/ws".into(), 10, cfg, SandboxPolicyConfig::default(), "test-agent".into())
}

#[test]
fn domain_matches_exact() {
    assert!(domain_matches("github.com", "github.com"));
    assert!(!domain_matches("github.com", "api.github.com"));
}

#[test]
fn domain_matches_wildcard() {
    assert!(domain_matches("*.github.com", "api.github.com"));
    assert!(domain_matches("*.github.com", "raw.githubusercontent.github.com"));
    assert!(!domain_matches("*.github.com", "github.com"));
}

#[test]
fn is_command_allowed_matches_allowlist_patterns() {
    let t = tool(ExecSecurityConfig {
        security: ExecSecurityMode::Allowlist,
        allowlist: vec!["git *".into(), "pwd".into()],
        safe_bins: vec![],
        ..ExecSecurityConfig::default()
    });
    assert!(t.is_command_allowed("git status"));
    assert!(t.is_command_allowed("git"));
    assert!(t.is_command_allowed("pwd"));
    assert!(!t.is_command_allowed("ls -la"));
}

#[test]
fn is_command_allowed_accepts_safe_bins() {
    let t = tool(ExecSecurityConfig {
        security: ExecSecurityMode::Allowlist,
        allowlist: vec![],
        safe_bins: vec!["jq".into()],
        ..ExecSecurityConfig::default()
    });
    assert!(t.is_command_allowed("jq --version"));
    assert!(t.is_command_allowed("/usr/bin/jq .foo data.json"));
    assert!(!t.is_command_allowed("cat data.json"));
}

#[test]
fn augment_path_like_host_preserves_existing_order_and_dedups() {
    let merged = augment_path_like_host(
        "/usr/bin:/bin:/opt/homebrew/bin",
        &vec!["/opt/homebrew/bin".into(), "/usr/local/bin".into()],
    );
    assert_eq!(merged, "/usr/bin:/bin:/opt/homebrew/bin:/usr/local/bin".to_string());
}

#[test]
fn augment_path_like_host_adds_missing_candidates() {
    let merged = augment_path_like_host("/usr/bin:/bin", &vec!["/opt/homebrew/bin".into(), "/usr/local/bin".into()]);
    assert!(merged.contains("/opt/homebrew/bin"));
    assert!(merged.contains("/usr/local/bin"));
    assert_eq!(augment_path_like_host("/a", &vec!["  ".into(), "/x:y".into()]), "/a");
}

#[test]
fn path_candidates_include_home_dirs() {
    let c = path_candidates_for_home(Some("/home/u"));
    assert_eq!(c.len(), 13);
    assert_eq!(c[8], "/home/u/.clawhive/bin");
    assert_eq!(path_candidates_for_home(None).len(), 8);
}

#[test]
fn base_permissions_apply_exec_network_and_env_config() {
    let perms = base_permissions(
        "/ws",
        &vec![("/data".to_string(), AccessLevel::Ro), ("/out".to_string(), AccessLevel::Rw)],
        &vec!["sh".into(), "jq".into()],
        true,
        &vec!["PATH".into(), "HOME".into()],
    );
    assert_eq!(perms.exec_commands, vec!["sh".to_string(), "jq".to_string()]);
    assert_eq!(perms.network.allow, vec!["*:*".to_string()]);
    assert_eq!(perms.env, vec!["PATH".to_string(), "HOME".to_string()]);
    assert_eq!(perms.fs.read, vec!["/ws", "/ws/**", "/data", "/data/**", "/out", "/out/**"]);
    assert_eq!(perms.fs.write, vec!["/ws", "/ws/**", "/out", "/out/**"]);
    let closed = base_permissions("/ws", &vec![], &vec![], false, &vec![]);
    assert!(closed.network.allow.is_empty());
}

#[test]
fn extract_network_targets_finds_urls() {
    let targets = extract_network_targets("git clone https://github.com/user/repo.git");
    assert_eq!(targets.len(), 1);
    assert_eq!(targets[0].0, "github.com");
    assert_eq!(targets[0].1, 443);
    let t2 = extract_network_targets("curl http://example.com:8080/api");
    assert_eq!(t2, vec![("example.com".to_string(), 8080)]);
    let t3 = extract_network_targets("curl http://example.com/");
    assert_eq!(t3[0].1, 80);
    assert!(extract_network_targets("ls -la /tmp").is_empty());
}

#[test]
fn package_manager_domains_by_command() {
    assert!(package_manager_domains("npm install express").iter().any(|d| d.contains("npmjs.org")));
    assert!(package_manager_domains("/usr/bin/pip install requests").iter().any(|d| d.contains("pypi.org")));
    assert!(package_manager_domains("echo hello").is_empty());
}

#[test]
fn exec_gate_decisions() {
    let deny = tool(ExecSecurityConfig { security: ExecSecurityMode::Deny, ..ExecSecurityConfig::default() });
    match deny.exec_gate("ls", false) {
        ExecGate::Refuse(m) => assert_eq!(m, "Command denied: exec is disabled for this agent"),
        _ => panic!(),
    }
    let off = tool(ExecSecurityConfig { ask: ExecAskMode::Off, ..ExecSecurityConfig::default() });
    match off.exec_gate("rmdir x", false) {
        ExecGate::Refuse(m) => assert!(m.ends_with("Command: rmdir x")),
        _ => panic!(),
    }
    assert!(matches!(off.exec_gate("git status", false), ExecGate::Proceed));
    assert!(matches!(off.exec_gate("rmdir x", true), ExecGate::Proceed));
    let onmiss = tool(ExecSecurityConfig::default());
    assert!(matches!(onmiss.exec_gate("rmdir x", false), ExecGate::AskApproval { listed: false }));
    let always = tool(ExecSecurityConfig { security: ExecSecurityMode::Full, ask: ExecAskMode::Always, ..ExecSecurityConfig::default() });
    assert!(matches!(always.exec_gate("anything", false), ExecGate::AskApproval { listed: true }));
}

#[test]
fn approval_outcomes() {
    match exec_approval_outcome(None, "rm x", false) {
        ApprovalOutcome::Refused(m) => assert_eq!(m, "Command not in allowlist and no approval UI available: rm x"),
        _ => panic!(),
    }
    match exec_approval_outcome(Some(Some(ApprovalDecision::AlwaysAllow)), "  make build", false) {
        ApprovalOutcome::AllowedFromNowOn { pattern } => assert_eq!(pattern, "make *"),
        _ => panic!(),
    }
    match exec_approval_outcome(Some(None), "x", true) {
        ApprovalOutcome::Refused(m) => assert_eq!(m, "Command denied by user"),
        _ => panic!(),
    }
    match network_approval_outcome(Some(Some(ApprovalDecision::Deny)), "example.com", 443) {
        ApprovalOutcome::Refused(m) => assert_eq!(m, "Network access to example.com:443 denied by user"),
        _ => panic!(),
    }
}

#[test]
fn network_steps() {
    let wl = vec!["*.example.com".to_string()];
    match network_target_step("127.0.0.1", 80, &wl, &vec![], true) {
        NetworkStep::Blocked(m) => assert!(m.starts_with("Network access denied: 127.0.0.1:80 is a private")),
        _ => panic!(),
    }
    assert!(matches!(network_target_step("api.example.com", 443, &wl, &vec![], false), NetworkStep::Allowed));
    assert!(matches!(network_target_step("pypi.org", 443, &wl, &vec!["pypi.org".into()], false), NetworkStep::Allowed));
    assert!(matches!(network_target_step("other.org", 443, &wl, &vec![], false), NetworkStep::NeedsApproval));
}

#[test]
fn command_output_formatting() {
    let ok = format_command_output("hello\n", "", 0, false);
    assert_eq!(ok.content, "hello\n");
    assert!(!ok.is_error);
    let err = format_command_output("", "boom", 2, false);
    assert_eq!(err.content, "[stderr]\nboom\n[exit code: 2]");
    assert!(err.is_error);
    let killed = format_command_output("partial", "", 0, true);
    assert_eq!(killed.content, "partial\n[killed: timeout exceeded]");
    assert!(killed.is_error);
    let empty = format_command_output("", "", 0, false);
    assert_eq!(empty.content, "[exit code: 0]");
    let neg = format_command_output("", "", -1, false);
    assert_eq!(neg.content, "\n[exit code: -1]");
    let big = format_command_output(&"z".repeat(60_000), "", 0, false);
    assert_eq!(big.content.len(), 50_000 + "\n...(output truncated)".len());
    assert_eq!(command_preview(&"c".repeat(300)).len(), 203);
}

#[test]
fn extract_network_targets_finds_http_urls() {
    let targets = extract_network_targets("curl http://example.com:8080/api");
    assert_eq!(targets.len(), 1);
    assert_eq!(targets[0].0, "example.com");
    assert_eq!(targets[0].1, 8080);
}

#[test]
fn extract_network_targets_no_urls() {
    let targets = extract_network_targets("ls -la /tmp");
    assert!(targets.is_empty());
}

#[test]
fn package_manager_domains_npm() {
    let domains = package_manager_domains("npm install express");
    assert!(domains.iter().any(|d| d.contains("npmjs.org")));
}

#[test]
fn package_manager_domains_pip() {
    let domains = package_manager_domains("pip install requests");
    assert!(domains.iter().any(|d| d.contains("pypi.org")));
}

#[test]
fn package_manager_domains_unknown() {
    let domains = package_manager_domains("echo hello");
    assert!(domains.is_empty());
}

fn begin(run: &mut ExecRun) -> ExecAction {
    run.step(ExecEvent::Begin { runtime_allowed: false })
}

fn refusal(a: ExecAction) -> (String, Option<String>) {
    match a {
        ExecAction::Refuse { content, audit_reason } => (content, audit_reason),
        _ => panic!("expected a refusal"),
    }
}

#[test]
fn hard_baseline_blocks_dangerous_command() {
    let t = tool(ExecSecurityConfig { security: ExecSecurityMode::Full, ..ExecSecurityConfig::default() });
    let ctx = ToolContext::builtin();
    let mut run = ExecRun::new(&t, &ctx, "rm -rf /".into(), vec![], vec![], vec![]);
    let (content, audit) = refusal(begin(&mut run));
    assert!(content.contains("denied"));
    assert_eq!(audit.as_deref(), Some("command blocked by hard baseline"));
    assert!(run.phase == ExecPhase::Finished);
    assert!(matches!(run.step(ExecEvent::Begin { runtime_allowed: true }), ExecAction::Nothing));
}

#[test]
fn exec_security_deny_blocks_all_commands() {
    let t = tool(ExecSecurityConfig { security: ExecSecurityMode::Deny, ..ExecSecurityConfig::default() });
    let ctx = ToolContext::builtin();
    let mut run = ExecRun::new(&t, &ctx, "echo denied".into(), vec![], vec![], vec![]);
    let (content, audit) = refusal(begin(&mut run));
    assert!(content.contains("exec is disabled"));
    assert_eq!(audit, None);
}

#[test]
fn exec_security_allowlist_blocks_unlisted_commands() {
    let t = tool(ExecSecurityConfig {
        security: ExecSecurityMode::Allowlist,
        allowlist: vec!["git *".into()],
        safe_bins: vec![],
        ..ExecSecurityConfig::default()
    });
    let ctx = ToolContext::builtin();
    let mut run = ExecRun::new(&t, &ctx, "python --version".into(), vec![], vec![], vec![]);
    let listed = match begin(&mut run) {
        ExecAction::AskApproval { listed } => listed,
        _ => panic!("expected an approval request"),
    };
    // Nobody can be asked.
    let refused = match exec_approval_outcome(None, "python --version", listed) {
        ApprovalOutcome::Refused(m) => m,
        _ => panic!(),
    };
    let (content, _) = refusal(run.step(ExecEvent::Answered { refusal: Some(refused) }));
    assert!(content.contains("not in allowlist"));
}

#[test]
fn exec_security_full_allows_non_baseline_command() {
    let t = tool(ExecSecurityConfig {
        security: ExecSecurityMode::Full,
        allowlist: vec![],
        safe_bins: vec![],
        ..ExecSecurityConfig::default()
    });
    let ctx = ToolContext::builtin();
    let mut run = ExecRun::new(&t, &ctx, "echo allowed".into(), vec![], vec![], vec![]);
    assert!(matches!(begin(&mut run), ExecAction::Run));
}

#[test]
fn external_context_denies_unlisted_command() {
    let t = tool(ExecSecurityConfig { security: ExecSecurityMode::Full, ..ExecSecurityConfig::default() });
    let perms = Permissions {
        fs: FsPermissions { read: vec![], write: vec![] },
        network: NetworkPermissions { allow: vec![] },
        exec_commands: vec!["echo".into()],
        env: vec![],
        services: vec![],
    };
    let ctx = ToolContext::external(perms);
    let mut run = ExecRun::new(&t, &ctx, "ls".into(), vec![], vec![], vec![]);
    let (content, audit) = refusal(begin(&mut run));
    assert!(content.contains("denied"));
    assert_eq!(audit.as_deref(), Some("command not in allowed exec list"));
}

#[test]
fn command_run_checks_each_network_target() {
    let t = tool(ExecSecurityConfig { security: ExecSecurityMode::Full, ..ExecSecurityConfig::default() });
    let ctx = ToolContext::builtin();
    let targets = vec![("api.example.com".to_string(), 443), ("other.org".to_string(), 443), ("10.0.0.1".to_string(), 80)];
    let mut run = ExecRun::new(&t, &ctx, "curl https://other.org".into(), targets, vec!["*.example.com".into()], vec![]);
    match begin(&mut run) {
        ExecAction::CheckTarget { host, port } => assert_eq!((host.as_str(), port), ("other.org", 443)),
        _ => panic!("expected a target check"),
    }
    assert!(run.phase == ExecPhase::CheckingTarget { index: 1 });
    match run.step(ExecEvent::TargetChecked { runtime_allowed: false }) {
        ExecAction::AskTargetApproval { host, port } => assert_eq!((host.as_str(), port), ("other.org", 443)),
        _ => panic!("expected an approval request"),
    }
    // Approved, but the next target is a private address: the baseline refuses.
    let (content, audit) = refusal(run.step(ExecEvent::Answered { refusal: None }));
    assert_eq!(content, "Network access denied: 10.0.0.1:80 is a private/loopback address blocked by hard baseline. ");
    assert_eq!(audit, None);
}

#[test]
fn command_run_after_approvals() {
    let t = tool(ExecSecurityConfig { security: ExecSecurityMode::Full, ask: ExecAskMode::Always, ..ExecSecurityConfig::default() });
    let ctx = ToolContext::builtin();
    let mut run = ExecRun::new(&t, &ctx, "curl https://other.org".into(), vec![("other.org".to_string(), 443)], vec![], vec![]);
    assert!(matches!(begin(&mut run), ExecAction::AskApproval { listed: true }));
    assert!(matches!(run.step(ExecEvent::Answered { refusal: None }), ExecAction::CheckTarget { .. }));
    assert!(matches!(run.step(ExecEvent::TargetChecked { runtime_allowed: true }), ExecAction::Run));
    assert!(run.phase == ExecPhase::Finished);
}
