use clawhive::access_gate::{
    join_path, path_candidate, resolve_path, AccessGate, AccessLevel, AccessResult, GrantAccessTool,
    ListAccessTool, PathFacts, RevokeAccessTool,
};

fn facts(ws: &str, canonical: Option<&str>, nearest: &str) -> PathFacts {
    PathFacts {
        workspace_canonical: Some(ws.to_string()),
        path_canonical: canonical.map(|c| c.to_string()),
        nearest_dir: nearest.to_string(),
    }
}

#[test]
fn workspace_path_is_allowed_and_baseline_denies() {
    let gate = AccessGate::in_memory("/ws".to_string());
    let f = facts("/ws", Some("/ws/file.txt"), "/ws");
    assert_eq!(gate.check_with("/ws/file.txt", AccessLevel::Rw, &f), AccessResult::Allowed);
    let f = facts("/ws", None, "/home/user/.ssh");
    assert!(matches!(
        gate.check_with("/home/user/.ssh/id_rsa", AccessLevel::Ro, &f),
        AccessResult::Denied(_)
    ));
    let f = facts("/ws", Some("/etc/passwd"), "/etc");
    assert!(matches!(gate.check_with("/etc/passwd", AccessLevel::Rw, &f), AccessResult::Denied(_)));
}

#[test]
fn grant_check_revoke_cycle() {
    let mut gate = AccessGate::in_memory("/ws".to_string());
    let f = facts("/ws", None, "/some/other/project");
    assert_eq!(
        gate.check_with("/some/other/project/file.rs", AccessLevel::Ro, &f),
        AccessResult::NeedGrant { dir: "/some/other/project".to_string(), need: AccessLevel::Ro }
    );
    gate.grant_entry("/some/other", "/some/other", AccessLevel::Ro).unwrap();
    assert_eq!(gate.check_with("/some/other/project/file.rs", AccessLevel::Ro, &f), AccessResult::Allowed);
    assert_eq!(
        gate.check_with("/some/other/project/file.rs", AccessLevel::Rw, &f),
        AccessResult::NeedGrant { dir: "/some/other".to_string(), need: AccessLevel::Rw }
    );
    assert!(gate.try_auto_grant("/some/other", "/some/other", AccessLevel::Rw).is_ok());
    assert_eq!(gate.check_with("/some/other/project/file.rs", AccessLevel::Rw, &f), AccessResult::Allowed);
    assert_eq!(gate.allowed_dirs(), vec![("/some/other".to_string(), AccessLevel::Rw)]);
    assert!(gate.try_auto_grant("/etc/something", "/etc/something", AccessLevel::Rw).is_err());
    gate.revoke_entry("/some/other", "/some/other").unwrap();
    assert!(matches!(
        gate.check_with("/some/other/project/file.rs", AccessLevel::Ro, &f),
        AccessResult::NeedGrant { .. }
    ));
    assert_eq!(
        gate.revoke_entry("/some/other", "/some/other"),
        Err("Path not in allow-list: /some/other".to_string())
    );
}

#[test]
fn access_tools() {
    let mut gate = AccessGate::in_memory("/ws".to_string());
    let out = GrantAccessTool.execute(&mut gate, Some("/data"), Some("ro"), "/data").unwrap();
    assert!(!out.is_error);
    assert_eq!(out.content, "Granted ro access to /data");
    let out = GrantAccessTool.execute(&mut gate, Some("/etc/passwd"), Some("rw"), "/etc/passwd").unwrap();
    assert!(out.is_error);
    assert_eq!(out.content, "Failed to grant access: Cannot grant access to sensitive path: /etc/passwd");
    let out = GrantAccessTool.execute(&mut gate, Some("relative/dir"), Some("ro"), "relative/dir").unwrap();
    assert_eq!(out.content, "Path must be absolute.");
    let out = GrantAccessTool.execute(&mut gate, Some("/data"), Some("rx"), "/data").unwrap();
    assert_eq!(out.content, "Invalid access level: rx. Use 'ro' or 'rw'.");
    assert_eq!(GrantAccessTool.execute(&mut gate, None, Some("ro"), "").err(), Some("missing 'path' field".to_string()));
    assert_eq!(GrantAccessTool.execute(&mut gate, Some("/x"), None, "/x").err(), Some("missing 'level' field".to_string()));

    let listed = ListAccessTool.execute(&gate);
    assert_eq!(listed.content, "Authorized directories:\n  /data (ro)\n");
    let out = RevokeAccessTool.execute(&mut gate, Some("/data"), "/data").unwrap();
    assert_eq!(out.content, "Revoked access to /data");
    let out = RevokeAccessTool.execute(&mut gate, Some("/data"), "/data").unwrap();
    assert!(out.is_error);
    assert_eq!(out.content, "Failed to revoke access: Path not in allow-list: /data");
    assert_eq!(ListAccessTool.execute(&gate).content, "No external directories are currently authorized.");
}

#[test]
fn resolve_paths() {
    assert_eq!(path_candidate("/ws", "", None), Err("path must not be empty".to_string()));
    assert_eq!(path_candidate("/ws", "src/main.rs", None), Ok("/ws/src/main.rs".to_string()));
    assert_eq!(path_candidate("/ws", "/abs/file", None), Ok("/abs/file".to_string()));
    assert_eq!(path_candidate("/ws", "~/notes", Some("/home/me")), Ok("/home/me/notes".to_string()));
    assert_eq!(path_candidate("/ws", "~", Some("/home/me")), Ok("/home/me".to_string()));
    assert_eq!(path_candidate("/ws", "~/x", None), Ok("/ws/~/x".to_string()));
    assert_eq!(resolve_path("/ws/a/../b", None), "/ws/b");
    assert_eq!(resolve_path("/ws/a/../b", Some("/real/b".to_string())), "/real/b");
    assert_eq!(join_path("/ws/", "a"), "/ws/a");
    assert_eq!(join_path("", "a"), "a");
}
