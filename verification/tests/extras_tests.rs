use clawhive::config::yaml_documents;
use clawhive::gateway::{ChannelTarget, LastActiveChannels};
use clawhive::language::ResponseLanguage;
use clawhive::orchestrator::{tool_dispatch, StreamGuard, ToolDispatch};
use clawhive::reminders::{reminders_call, remindctl_failure, ReminderCheck, ReminderParams};
use clawhive::session::{
    message_entry, recent_messages_of, session_header, session_ids_newest_first, SessionEntry,
    SessionMessage,
};

fn params() -> ReminderParams {
    ReminderParams { list: None, title: None, id: None, due_date: None, clear_due: None, notes: None, priority: None }
}

#[test]
fn reminder_requests_become_commands() {
    let call = reminders_call("list", &ReminderParams { list: Some("Work".into()), ..params() }).ok().unwrap();
    assert_eq!(call.args, vec!["list", "Work", "--json", "--no-input"]);
    assert!(matches!(call.checks[0], ReminderCheck::Scope(ref l) if l == "Work"));
    assert!(matches!(call.checks[1], ReminderCheck::Service));

    let call = reminders_call(
        "add",
        &ReminderParams {
            list: Some("Home".into()),
            title: Some("Milk".into()),
            due_date: Some("tomorrow".into()),
            ..params()
        },
    )
    .ok()
    .unwrap();
    assert_eq!(call.args, vec!["add", "--title", "Milk", "--list", "Home", "--json", "--no-input", "--due", "tomorrow"]);
    assert!(matches!(call.checks[0], ReminderCheck::Service));

    assert_eq!(
        reminders_call("add", &ReminderParams { list: Some("Home".into()), ..params() }).err(),
        Some("reminders.add requires 'title'".to_string())
    );
    let call = reminders_call("update", &ReminderParams { id: Some("42".into()), clear_due: Some(true), ..params() })
        .ok()
        .unwrap();
    assert_eq!(call.args, vec!["edit", "42", "--json", "--no-input", "--clear-due"]);
    let call = reminders_call("delete", &ReminderParams { id: Some("7".into()), ..params() }).ok().unwrap();
    assert_eq!(call.args, vec!["delete", "7", "--force", "--json", "--no-input"]);
    assert_eq!(reminders_call("complete", &params()).err(), Some("reminders.complete requires 'id'".to_string()));
    assert_eq!(reminders_call("snooze", &params()).err(), Some("Unknown reminders method: snooze".to_string()));
    assert_eq!(remindctl_failure("add", "boom"), "remindctl add failed: boom");
}

#[test]
fn session_entries_and_recent_messages() {
    match session_header("s1", "main") {
        SessionEntry::Session { version, id, agent_id, .. } => {
            assert_eq!(version, 1);
            assert_eq!(id, "s1");
            assert_eq!(agent_id, "main");
        }
        _ => panic!("expected a header"),
    }
    let entries = vec![
        session_header("s1", "main"),
        SessionEntry::Message {
            id: "a".into(),
            timestamp_ms: 10,
            message: SessionMessage { role: "user".into(), content: "one".into(), timestamp_ms: None },
        },
        SessionEntry::ModelChange { id: "b".into(), timestamp_ms: 11, model: "m".into() },
        SessionEntry::Message {
            id: "c".into(),
            timestamp_ms: 12,
            message: SessionMessage { role: "assistant".into(), content: "two".into(), timestamp_ms: None },
        },
        message_entry("user", "three"),
    ];
    let recent = recent_messages_of(entries, 2);
    assert_eq!(recent.len(), 2);
    assert_eq!(recent[0].content, "two");
    assert_eq!(recent[0].timestamp_ms, Some(12));
    assert_eq!(recent[1].content, "three");
    assert!(recent_messages_of(vec![message_entry("user", "x")], 0).is_empty());
}

#[test]
fn session_listing_newest_first() {
    let items = vec![
        ("old.jsonl".to_string(), 100i128),
        ("notes.txt".to_string(), 500),
        ("new.jsonl".to_string(), 300),
        (".jsonl".to_string(), 400),
        ("mid.jsonl".to_string(), 200),
    ];
    assert_eq!(session_ids_newest_first(&items), vec!["new".to_string(), "mid".to_string(), "old".to_string()]);
}

#[test]
fn yaml_documents_sorted() {
    let names = vec!["b.yaml".to_string(), "README.md".to_string(), "a.yaml".to_string(), ".yaml".to_string()];
    assert_eq!(yaml_documents(&names), vec!["a.yaml".to_string(), "b.yaml".to_string()]);
}

#[test]
fn stream_guard_checks_final_chunk() {
    let mut g = StreamGuard::new("你好，请介绍一下".into(), Some(ResponseLanguage::Chinese));
    assert_eq!(g.on_chunk("This reply ", false), None);
    assert_eq!(g.on_chunk("is in English entirely", true), Some(ResponseLanguage::English));
    assert_eq!(g.accumulated, "This reply is in English entirely");
    let mut t = StreamGuard::new("please translate this".into(), Some(ResponseLanguage::Chinese));
    assert_eq!(t.on_chunk("Hello there my friend", true), None);
}

#[test]
fn tools_dispatch_by_name() {
    assert!(matches!(tool_dispatch("read"), ToolDispatch::ReadFile));
    assert!(matches!(tool_dispatch("write_file"), ToolDispatch::WriteFile));
    assert!(matches!(tool_dispatch("exec"), ToolDispatch::ExecuteCommand));
    assert!(matches!(tool_dispatch("revoke_access"), ToolDispatch::RevokeAccess));
    assert!(matches!(tool_dispatch("web_search"), ToolDispatch::Registry));
}

#[test]
fn last_active_channel_read_after_write() {
    let mut channels = LastActiveChannels::new();
    let target = |c: &str| ChannelTarget {
        channel_type: c.into(),
        connector_id: "conn".into(),
        conversation_scope: "chat:1".into(),
    };
    assert!(channels.get("main").is_none());
    channels.record("main", target("telegram"));
    channels.record("other", target("discord"));
    channels.record("main", target("heartbeat"));
    let got = channels.get("main").unwrap();
    assert_eq!(got.channel_type, "telegram");
    channels.record("main", target("discord"));
    assert_eq!(channels.get("main").unwrap().channel_type, "discord");
    assert_eq!(channels.get("other").unwrap().channel_type, "discord");
}
