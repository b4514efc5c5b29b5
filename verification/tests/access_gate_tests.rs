use clawhive::access_gate::{
    path_candidate, resolve_path, AccessGate, AccessLevel, AccessPolicy, AccessResult, AllowEntry, GrantAccessTool, ListAccessTool,
    PathFacts, RevokeAccessTool,
};

fn setup() -> AccessGate {
    AccessGate::in_memory("/tmp/ws".to_string())
}

/// A check on a path that does not exist on disk.
fn check(gate: &AccessGate, path: &str, need: AccessLevel) -> AccessResult {
    let facts = PathFacts {
        workspace_canonical: Some(gate.workspace.clone()),
        path_canonical: None,
        nearest_dir: "/".to_string(),
    };
    gate.check_with(path, need, &facts)
}

fn grant(gate: &mut AccessGate, dir: &str, level: AccessLevel) -> Result<(), String> {
    gate.grant_entry(dir, dir, level)
}

fn resolve(workspace: &str, requested: &str, home: Option<&str>) -> Result<String, String> {
    path_candidate(workspace, requested, home).map(|c| resolve_path(&c, None))
}

#[test]
fn workspace_path_always_allowed() {
    let gate = setup();
    let facts = PathFacts {
        workspace_canonical: Some("/tmp/ws".to_string()),
        path_canonical: Some("/tmp/ws/file.txt".to_string()),
        nearest_dir: "/tmp/ws".to_string(),
    };
    assert_eq!(gate.check_with("/tmp/ws/file.txt", AccessLevel::Rw, &facts), AccessResult::Allowed);
}

#[test]
fn hard_baseline_read_denied() {
    let gate = setup();
    assert!(matches!(check(&gate, "/home/user/.ssh/id_rsa", AccessLevel::Ro), AccessResult::Denied(_)));
}

#[test]
fn hard_baseline_write_denied() {
    let gate = setup();
    assert!(matches!(check(&gate, "/etc/passwd", AccessLevel::Rw), AccessResult::Denied(_)));
}

#[test]
fn unknown_path_needs_grant() {
    let gate = setup();
    assert!(matches!(check(&gate, "/some/other/project/file.rs", AccessLevel::Ro), AccessResult::NeedGrant { .. }));
}

#[test]
fn grant_then_check_allowed() {
    let mut gate = setup();
    grant(&mut gate, "/some/other/project", AccessLevel::Rw).unwrap();
    assert_eq!(check(&gate, "/some/other/project/file.rs", AccessLevel::Rw), AccessResult::Allowed);
}

#[test]
fn grant_ro_check_rw_needs_upgrade() {
    let mut gate = setup();
    grant(&mut gate, "/some/other/project", AccessLevel::Ro).unwrap();
    assert!(matches!(
        check(&gate, "/some/other/project/file.rs", AccessLevel::Rw),
        AccessResult::NeedGrant { need: AccessLevel::Rw, .. }
    ));
}

#[test]
fn grant_ro_check_ro_allowed() {
    let mut gate = setup();
    grant(&mut gate, "/some/other/project", AccessLevel::Ro).unwrap();
    assert_eq!(check(&gate, "/some/other/project/file.rs", AccessLevel::Ro), AccessResult::Allowed);
}

#[test]
fn revoke_then_need_grant() {
    let mut gate = setup();
    grant(&mut gate, "/some/other/project", AccessLevel::Rw).unwrap();
    gate.revoke_entry("/some/other/project", "/some/other/project").unwrap();
    assert!(matches!(check(&gate, "/some/other/project/file.rs", AccessLevel::Ro), AccessResult::NeedGrant { .. }));
}

#[test]
fn list_returns_entries() {
    let mut gate = setup();
    grant(&mut gate, "/a", AccessLevel::Ro).unwrap();
    grant(&mut gate, "/b", AccessLevel::Rw).unwrap();
    assert_eq!(gate.list().len(), 2);
}

#[test]
fn grant_sensitive_path_blocked() {
    let mut gate = setup();
    assert!(grant(&mut gate, "/etc/something", AccessLevel::Ro).is_err());
}

#[test]
fn try_auto_grant_safe_path_allowed() {
    let mut gate = setup();
    assert!(gate.try_auto_grant("/some/other/project", "/some/other/project", AccessLevel::Ro).is_ok());
    assert_eq!(check(&gate, "/some/other/project/file.rs", AccessLevel::Ro), AccessResult::Allowed);
}

#[test]
fn try_auto_grant_sensitive_path_blocked() {
    let mut gate = setup();
    assert!(gate.try_auto_grant("/etc/something", "/etc/something", AccessLevel::Ro).is_err());
}

#[test]
fn grant_upgrade_ro_to_rw() {
    let mut gate = setup();
    grant(&mut gate, "/some/project", AccessLevel::Ro).unwrap();
    grant(&mut gate, "/some/project", AccessLevel::Rw).unwrap();
    let entries = gate.list();
    assert_eq!(entries.len(), 1);
    assert_eq!(entries[0].level, AccessLevel::Rw);
}

#[test]
fn resolve_path_relative() {
    let resolved = resolve("/tmp/ws", "test.txt", None).unwrap();
    assert!(resolved.starts_with('/'));
    assert!(resolved.ends_with("test.txt"));
}

#[test]
fn resolve_path_absolute() {
    assert_eq!(resolve("/tmp", "/usr/local/bin", None).unwrap(), "/usr/local/bin");
}

#[test]
fn resolve_path_empty_rejected() {
    assert!(resolve("/tmp", "", None).is_err());
}

#[test]
fn resolve_path_tilde_expands_to_home() {
    let home = "/home/tester";
    let resolved = resolve("/tmp", "~/.zshrc", Some(home)).unwrap();
    assert!(resolved.starts_with('/'));
    assert!(resolved.starts_with(home));
    assert!(resolved.ends_with(".zshrc"));
    assert!(!resolved.contains("/tmp/~"));
}

#[test]
fn resolve_path_tilde_alone() {
    assert_eq!(resolve("/tmp", "~", Some("/home/tester")).unwrap(), "/home/tester");
}

#[test]
fn grant_access_tool_works() {
    let mut gate = setup();
    let result = GrantAccessTool.execute(&mut gate, Some("/some/dir"), Some("rw"), "/some/dir").unwrap();
    assert!(!result.is_error);
    assert!(result.content.contains("Granted rw access"));
}

#[test]
fn grant_access_tool_rejects_sensitive() {
    let mut gate = setup();
    let result = GrantAccessTool.execute(&mut gate, Some("/etc/passwd"), Some("ro"), "/etc/passwd").unwrap();
    assert!(result.is_error);
}

#[test]
fn grant_access_tool_rejects_relative() {
    let mut gate = setup();
    let result = GrantAccessTool.execute(&mut gate, Some("relative/path"), Some("ro"), "relative/path").unwrap();
    assert!(result.is_error);
    assert!(result.content.contains("absolute"));
}

#[test]
fn list_access_tool_works() {
    let mut gate = setup();
    grant(&mut gate, "/foo", AccessLevel::Ro).unwrap();
    let result = ListAccessTool.execute(&gate);
    assert!(!result.is_error);
    assert!(result.content.contains("/foo"));
}

#[test]
fn revoke_access_tool_works() {
    let mut gate = setup();
    grant(&mut gate, "/foo", AccessLevel::Ro).unwrap();
    let result = RevokeAccessTool.execute(&mut gate, Some("/foo"), "/foo").unwrap();
    assert!(!result.is_error);
    assert!(result.content.contains("Revoked"));
    assert!(gate.list().is_empty());
}

#[test]
fn opening_keeps_the_first_entry_of_each_path() {
    let policy = AccessPolicy {
        allowed: vec![
            AllowEntry { path: "/a".to_string(), level: AccessLevel::Ro },
            AllowEntry { path: "/b".to_string(), level: AccessLevel::Rw },
            AllowEntry { path: "/a".to_string(), level: AccessLevel::Rw },
        ],
    };
    let gate = AccessGate::new("/ws".to_string(), policy, "/ws/p.json".to_string());
    let listed: Vec<(String, AccessLevel)> = gate.list().iter().map(|e| (e.path.clone(), e.level)).collect();
    assert_eq!(listed, vec![("/a".to_string(), AccessLevel::Ro), ("/b".to_string(), AccessLevel::Rw)]);
}
