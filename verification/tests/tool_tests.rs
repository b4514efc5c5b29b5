use clawhive::policy::{FsPermissions, NetworkPermissions, Permissions, ToolOrigin};
use clawhive::session::{last_messages, SessionMessage, SessionReader, SessionWriter};
use clawhive::tool::{tool_error, tool_ok, ConversationMessage, ToolContext};

#[test]
fn builtin_context_allows_reads() {
    let ctx = ToolContext::builtin();
    assert!(ctx.check_read("/workspace/file.txt"));
    assert!(ctx.check_read("/etc/hosts"));
    assert!(!ctx.check_read("/home/user/.ssh/id_rsa"));
}

#[test]
fn builtin_context_blocks_hard_baseline() {
    let ctx = ToolContext::builtin();
    assert!(!ctx.check_write("/etc/passwd"));
    assert!(!ctx.check_write("/home/user/.ssh/authorized_keys"));
    assert!(!ctx.check_network("192.168.1.1", 80));
    assert!(!ctx.check_exec("rm -rf /"));
}

#[test]
fn tool_external_context_requires_permissions() {
    let perms = Permissions {
        fs: FsPermissions { read: vec!["/workspace/**".into()], write: vec![] },
        network: NetworkPermissions { allow: vec![] },
        exec_commands: vec![],
        env: vec![],
        services: vec![],
    };
    let ctx = ToolContext::external(perms);
    assert!(ctx.check_read("/workspace/data.txt"));
    assert!(!ctx.check_read("/other/file.txt"));
    assert!(!ctx.check_write("/workspace/output.txt"));
    assert!(!ctx.check_exec("ls"));
    assert_eq!(ctx.origin(), ToolOrigin::External);
}

#[test]
fn context_with_source_info() {
    let ctx = ToolContext::builtin().with_source(
        "telegram".to_string(),
        "tg_main".to_string(),
        "chat:12345".to_string(),
    );
    assert_eq!(ctx.source_channel_type(), Some("telegram"));
    assert_eq!(ctx.source_connector_id(), Some("tg_main"));
    assert_eq!(ctx.source_conversation_scope(), Some("chat:12345"));
    assert_eq!(ctx.origin(), ToolOrigin::Builtin);
    let ctx = ctx.with_session_key("s:1".to_string());
    assert_eq!(ctx.session_key(), "s:1");
}

#[test]
fn recent_messages_takes_the_tail() {
    let msgs: Vec<ConversationMessage> = (0..5)
        .map(|i| ConversationMessage { role: "user".into(), content: format!("m{i}") })
        .collect();
    let ctx = ToolContext::builtin().with_recent_messages(msgs);
    let last2 = ctx.recent_messages(2);
    assert_eq!(last2.len(), 2);
    assert_eq!(last2[0].content, "m3");
    assert_eq!(ctx.recent_messages(0).len(), 0);
    assert_eq!(ctx.recent_messages(10).len(), 5);
}

#[test]
fn tool_outputs() {
    assert!(tool_error("x".into()).is_error);
    assert!(!tool_ok("y".into()).is_error);
}

#[test]
fn session_helpers() {
    let w = SessionWriter::new("/ws");
    assert_eq!(w.session_path("s1"), "/ws/sessions/s1.jsonl");
    let r = SessionReader::new("/ws");
    assert_eq!(r.sessions_dir, "/ws/sessions");
    let ms: Vec<SessionMessage> = (1..=3)
        .map(|i| SessionMessage { role: "user".into(), content: format!("m{i}"), timestamp_ms: None })
        .collect();
    let last = last_messages(ms, 2);
    assert_eq!(last.len(), 2);
    assert_eq!(last[0].content, "m2");
    assert_eq!(last[1].content, "m3");
}

#[test]
fn context_origin() {
    let builtin_ctx = ToolContext::builtin();
    assert_eq!(builtin_ctx.origin(), ToolOrigin::Builtin);
    let perms = Permissions {
        fs: FsPermissions { read: vec![], write: vec![] },
        network: NetworkPermissions { allow: vec![] },
        exec_commands: vec![],
        env: vec![],
        services: vec![],
    };
    let external_ctx = ToolContext::external(perms);
    assert_eq!(external_ctx.origin(), ToolOrigin::External);
}

#[test]
fn workspace_defaults_are_builtin() {
    let a = ToolContext::default_for_workspace("/ws");
    let b = ToolContext::default_policy("/ws");
    assert_eq!(a.origin(), ToolOrigin::Builtin);
    assert_eq!(b.origin(), ToolOrigin::Builtin);
    assert!(b.check_read("/ws/file.txt"));
    assert!(!b.check_read("/home/user/.ssh/id_rsa"));
}
