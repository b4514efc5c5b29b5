use clawhive::context::{ContentBlock, LlmMessage};
use clawhive::orchestrator::{
    build_messages_from_history, build_runtime_system_prompt, collect_recent_messages,
    compose_system_prompt, compute_merged_permissions, detect_skill_install_intent,
    filter_no_reply, forced_allowed_tools, forced_skill_names, forced_skill_section,
    format_group_context_md, format_time_gap, has_install_skill_intent_prefix, installed_reply,
    is_explicit_web_search_request, is_skill_install_intent_without_source, is_slow_latency_ms,
    memory_context_from_hits, merge_permissions, route_inbound, should_inject_web_search_reminder,
    skill_usage_hint, user_turn_message, fallback_summary_input, approval_allows_install,
    Attachment, AttachmentKind, GroupContext, GroupMember, InboundAction, MemoryHit, PromptParts,
    SKILL_INSTALL_USAGE_HINT, WEB_SEARCH_REQUIREMENT,
};
use clawhive::language::ResponseLanguage;
use clawhive::persona::Persona;
use clawhive::policy::{FsPermissions, NetworkPermissions, Permissions};
use clawhive::session::SessionMessage;
use clawhive::shell::ApprovalDecision;

const MINUTE: i64 = 60_000;
const HOUR: i64 = 60 * MINUTE;

fn perms(read: &[&str], allow: &[&str], exec: &[&str]) -> Permissions {
    Permissions {
        fs: FsPermissions { read: read.iter().map(|s| s.to_string()).collect(), write: vec![] },
        network: NetworkPermissions { allow: allow.iter().map(|s| s.to_string()).collect() },
        exec_commands: exec.iter().map(|s| s.to_string()).collect(),
        env: vec![],
        services: vec![],
    }
}

fn persona(id: &str, name: &str, emoji: Option<&str>) -> Persona {
    Persona {
        agent_id: id.into(),
        name: name.into(),
        emoji: emoji.map(|e| e.to_string()),
        agents_md: String::new(),
        soul_md: String::new(),
        user_md: String::new(),
        identity_md: String::new(),
        tools_md: String::new(),
        heartbeat_md: String::new(),
        bootstrap_md: String::new(),
        memory_md: String::new(),
        peers_context: String::new(),
        group_members_context: String::new(),
    }
}

fn text_of(m: &LlmMessage) -> String {
    match &m.content[0] {
        ContentBlock::Text { text } => text.clone(),
        _ => panic!("not a text block"),
    }
}

#[test]
fn format_time_gap_prefers_days_hours_minutes() {
    assert_eq!(format_time_gap(45 * MINUTE), "45 minute(s)");
    assert_eq!(format_time_gap(3 * HOUR), "3 hour(s)");
    assert_eq!(format_time_gap(49 * HOUR), "2 day(s)");
}

#[test]
fn build_history_messages_inserts_inactivity_markers() {
    // 2026-01-01 10:00:00 UTC
    let t0: i64 = 1_767_261_600_000;
    let history = vec![
        SessionMessage { role: "user".to_string(), content: "first".to_string(), timestamp_ms: Some(t0) },
        SessionMessage {
            role: "assistant".to_string(),
            content: "second".to_string(),
            timestamp_ms: Some(t0 + 40 * MINUTE),
        },
        SessionMessage {
            role: "user".to_string(),
            content: "third".to_string(),
            timestamp_ms: Some(t0 + 50 * MINUTE),
        },
    ];

    let messages = build_messages_from_history(&history);

    assert_eq!(messages.len(), 4);
    assert_eq!(messages[0].role, "user");
    assert_eq!(messages[1].role, "user");
    assert_eq!(text_of(&messages[1]), "[40 minute(s) of inactivity has passed since the last message]");
    assert_eq!(messages[2].role, "assistant");
    assert_eq!(messages[3].role, "user");
}

#[test]
fn history_without_times_has_no_markers() {
    let history = vec![
        SessionMessage { role: "user".into(), content: "a".into(), timestamp_ms: None },
        SessionMessage { role: "assistant".into(), content: "b".into(), timestamp_ms: Some(10 * HOUR) },
    ];
    let messages = build_messages_from_history(&history);
    assert_eq!(messages.len(), 2);
    assert_eq!(text_of(&messages[1]), "b");
}

#[test]
fn slow_latency_threshold_detects_warn_boundary() {
    assert!(!is_slow_latency_ms(9_999, 10_000));
    assert!(is_slow_latency_ms(10_000, 10_000));
    assert!(is_slow_latency_ms(25_000, 10_000));
}

#[test]
fn explicit_web_search_request_detection() {
    assert!(is_explicit_web_search_request("请使用 web_search 工具搜索 OpenAI 最新新闻"));
    assert!(is_explicit_web_search_request("please use web search tool for this"));
    assert!(!is_explicit_web_search_request("你觉得这个功能怎么样"));
    assert!(is_explicit_web_search_request("Please use WEB SEARCH"));
    assert!(!is_explicit_web_search_request("   "));
}

#[test]
fn web_search_reminder_injection_predicate() {
    assert!(should_inject_web_search_reminder(true, false, false, 0));
    assert!(!should_inject_web_search_reminder(true, true, false, 0));
    assert!(!should_inject_web_search_reminder(false, false, false, 0));
    assert!(!should_inject_web_search_reminder(true, false, true, 0));
    assert!(!should_inject_web_search_reminder(true, false, false, 1));
}

#[test]
fn filter_no_reply_suppresses_and_strips() {
    assert_eq!(filter_no_reply("  NO_REPLY  "), "");
    assert_eq!(filter_no_reply("HEARTBEAT_OK"), "");
    assert_eq!(filter_no_reply("NO_REPLY hello"), "hello");
    assert_eq!(filter_no_reply("hello NO_REPLY"), "hello");
    assert_eq!(filter_no_reply("HEARTBEAT_OK all good"), "all good");
    assert_eq!(filter_no_reply(" plain answer "), "plain answer");
}

#[test]
fn skill_install_intent_detection() {
    assert_eq!(
        detect_skill_install_intent("install skill from https://example.com/a.zip"),
        Some("https://example.com/a.zip".to_string())
    );
    assert_eq!(
        detect_skill_install_intent("Install Skill: ./local/skill"),
        Some("./local/skill".to_string())
    );
    assert_eq!(detect_skill_install_intent("安装技能：https://x.y/s.tar.gz"), Some("https://x.y/s.tar.gz".to_string()));
    assert_eq!(detect_skill_install_intent("安装这个 skill: /tmp/s"), Some("/tmp/s".to_string()));
    assert_eq!(detect_skill_install_intent("install skill"), None);
    assert_eq!(detect_skill_install_intent("please install skill x"), None);
    assert!(has_install_skill_intent_prefix("install this skill"));
    assert!(!has_install_skill_intent_prefix("hello"));
    assert!(is_skill_install_intent_without_source("install skill :"));
    assert!(!is_skill_install_intent_without_source("install skill foo"));
}

#[test]
fn forced_skill_names_parsing() {
    assert_eq!(forced_skill_names("/skill a,b do it"), Some(vec!["a".to_string(), "b".to_string()]));
    assert_eq!(forced_skill_names("  /skill weather  "), Some(vec!["weather".to_string()]));
    assert_eq!(forced_skill_names("/skill ,,"), None);
    assert_eq!(forced_skill_names("/skill "), None);
    assert_eq!(forced_skill_names("/skills a"), None);
    assert_eq!(forced_skill_names("hello"), None);
}

#[test]
fn forced_allowed_tools_cases() {
    let forced = vec!["a".to_string()];
    assert_eq!(forced_allowed_tools(Some(&forced), None), Some(vec!["execute_command".to_string()]));
    assert_eq!(
        forced_allowed_tools(Some(&forced), Some(vec!["read".to_string(), "execute_command".to_string()])),
        Some(vec!["execute_command".to_string()])
    );
    assert_eq!(forced_allowed_tools(Some(&forced), Some(vec!["read".to_string()])), Some(vec![]));
    assert_eq!(forced_allowed_tools(None, Some(vec!["read".to_string()])), Some(vec!["read".to_string()]));
    assert_eq!(forced_allowed_tools(None, None), None);
}

#[test]
fn merge_permissions_sorts_and_dedups() {
    assert!(merge_permissions(vec![]).is_none());
    let merged = merge_permissions(vec![
        perms(&["b/**", "a/**"], &["api.b.com:443"], &["sh"]),
        perms(&["a/**"], &["api.a.com:443"], &["curl", "sh"]),
    ])
    .unwrap();
    assert_eq!(merged.fs.read, vec!["a/**".to_string(), "b/**".to_string()]);
    assert_eq!(merged.network.allow, vec!["api.a.com:443".to_string(), "api.b.com:443".to_string()]);
    assert_eq!(merged.exec_commands, vec!["curl".to_string(), "sh".to_string()]);
}

#[test]
fn compute_merged_permissions_merges_all_when_no_forced() {
    // With every skill forced, the permissions of all of them are merged.
    let skills = vec![
        ("skill-a".to_string(), Some(perms(&[], &["api.a.com:443"], &[]))),
        ("skill-b".to_string(), Some(perms(&[], &["api.b.com:443"], &[]))),
    ];
    let forced = vec!["skill-a".to_string(), "skill-b".to_string()];
    let merged = compute_merged_permissions(&skills, Some(&forced)).expect("merged permissions");
    assert!(merged.network.allow.contains(&"api.a.com:443".to_string()));
    assert!(merged.network.allow.contains(&"api.b.com:443".to_string()));
}

#[test]
fn normal_mode_should_not_use_skill_permissions() {
    let skills = vec![("restricted-skill".to_string(), Some(perms(&["$SKILL_DIR/**"], &[], &["sh"])))];
    assert!(skills[0].1.is_some());
    let merged = compute_merged_permissions(&skills, None);
    assert!(merged.is_none(), "normal mode must not use skill permissions");
}

#[test]
fn forced_skill_mode_applies_skill_permissions() {
    let skills = vec![("restricted-skill".to_string(), Some(perms(&[], &["api.example.com:443"], &["sh"])))];
    let forced = vec!["restricted-skill".to_string()];
    let perms = compute_merged_permissions(&skills, Some(&forced)).expect("forced skill mode must return permissions");
    assert_eq!(perms.exec_commands, vec!["sh".to_string()]);
    assert!(perms.network.allow.contains(&"api.example.com:443".to_string()));
}

#[test]
fn forced_skill_without_permissions_returns_none() {
    let skills = vec![("no-perms-skill".to_string(), None)];
    let forced = vec!["no-perms-skill".to_string()];
    let merged = compute_merged_permissions(&skills, Some(&forced));
    assert!(merged.is_none(), "skill without permissions should not trigger External origin");
}

#[test]
fn forced_skill_section_texts() {
    assert_eq!(
        forced_skill_section(&vec!["weather".to_string()], &vec![]),
        "\n\n## Forced Skill\nYou must follow skill 'weather' for this request and prioritize its instructions over generic approaches."
    );
    assert_eq!(
        forced_skill_section(&vec!["a".to_string(), "b".to_string()], &vec!["b".to_string()]),
        "\n\n## Forced Skill\nYou must follow only these skills for this request: a, b. Prioritize their instructions over generic approaches.\nMissing forced skills: b. Tell the user these were not found."
    );
}

#[test]
fn runtime_prompt_lists_runtime_facts() {
    let p = build_runtime_system_prompt("BASE", "openai/gpt-4o", "main", "/ws");
    assert!(p.starts_with("BASE\n\n## Execution Policy"));
    assert!(p.ends_with("Runtime:\n- Model: openai/gpt-4o\n- Session: main\n- Working directory: /ws"));
}

#[test]
fn compose_system_prompt_orders_sections() {
    let parts = PromptParts {
        persona_prompt: "P".into(),
        skill_summary: "S".into(),
        forced_section: String::new(),
        model: "m".into(),
        agent_id: "a".into(),
        workspace_root: "/w".into(),
        memory_context: "M".into(),
        target_language: Some(ResponseLanguage::English),
        must_use_web_search: true,
    };
    let p = compose_system_prompt(&parts);
    assert!(p.starts_with("P\n\nS\n\n## Execution Policy"));
    assert!(p.contains("- Working directory: /w\n\n## Relevant Memory\nM"));
    assert!(p.contains("Respond in English"));
    assert!(p.ends_with(WEB_SEARCH_REQUIREMENT));
}

#[test]
fn recent_messages_keep_text_only_tail() {
    let messages = vec![
        LlmMessage { role: "user".into(), content: vec![ContentBlock::Text { text: " one ".into() }] },
        LlmMessage {
            role: "assistant".into(),
            content: vec![ContentBlock::ToolUse { id: "1".into(), name: "x".into(), input: "{}".into() }],
        },
        LlmMessage {
            role: "assistant".into(),
            content: vec![
                ContentBlock::Text { text: "two".into() },
                ContentBlock::Text { text: "  ".into() },
                ContentBlock::Text { text: "three".into() },
            ],
        },
    ];
    let recent = collect_recent_messages(&messages, 20);
    assert_eq!(recent.len(), 2);
    assert_eq!(recent[0].content, "one");
    assert_eq!(recent[1].content, "two\nthree");
    let last = collect_recent_messages(&messages, 1);
    assert_eq!(last.len(), 1);
    assert_eq!(last[0].role, "assistant");
    assert_eq!(collect_recent_messages(&messages, 0).len(), 1);
}

#[test]
fn group_context_markdown() {
    let personas = vec![
        ("helper".to_string(), persona("helper", "Helper", Some("🦊"))),
        ("coder".to_string(), persona("coder", "Coder", None)),
    ];
    let group = GroupContext {
        is_group: true,
        members: vec![
            GroupMember { name: "Helper".into(), is_bot: true },
            GroupMember { name: "Alice".into(), is_bot: false },
            GroupMember { name: "Other Bot".into(), is_bot: true },
        ],
    };
    let md = format_group_context_md(&group, &personas);
    assert_eq!(
        md,
        "## 当前群聊成员 / Current Group Members\n\n**Agents in this chat:**\n- 🤖 Helper (agent: helper)\n- 🤖 Other Bot\n\n**Humans in this chat:**\n- 👤 Alice\n\n**Other agents (not in this chat, @ to collaborate):**\n- 🤖 Coder (coder)"
    );
    let dm = GroupContext { is_group: false, members: vec![] };
    assert_eq!(format_group_context_md(&dm, &personas), "");
}

#[test]
fn inbound_routing() {
    match route_inbound("/model", "main", "gpt", "s1") {
        InboundAction::Reply { text } => assert_eq!(text, "Model: **gpt**\nSession: **s1**"),
        _ => panic!("expected a reply"),
    }
    match route_inbound("/status", "main", "gpt", "s1") {
        InboundAction::Reply { text } => assert!(text.contains("Agent: `main`")),
        _ => panic!("expected a reply"),
    }
    assert!(matches!(
        route_inbound("/skill install ./s", "a", "m", "k"),
        InboundAction::AnalyzeSkill { install_requested: true, .. }
    ));
    assert!(matches!(
        route_inbound("/skill analyze ./s", "a", "m", "k"),
        InboundAction::AnalyzeSkill { install_requested: false, .. }
    ));
    assert!(matches!(route_inbound("/skill confirm tok", "a", "m", "k"), InboundAction::ConfirmSkill { .. }));
    assert!(matches!(route_inbound("/new", "a", "m", "k"), InboundAction::ResetSession { model_hint: None }));
    match route_inbound("install skill from ./x", "a", "m", "k") {
        InboundAction::AnalyzeSkill { source, install_requested } => {
            assert_eq!(source, "./x");
            assert!(install_requested);
        }
        _ => panic!("expected an analysis"),
    }
    match route_inbound("安装技能", "a", "m", "k") {
        InboundAction::Reply { text } => assert_eq!(text, SKILL_INSTALL_USAGE_HINT),
        _ => panic!("expected the usage hint"),
    }
    assert!(matches!(route_inbound("hello there", "a", "m", "k"), InboundAction::Converse));
}

#[test]
fn usage_hints() {
    assert!(skill_usage_hint("analyze").starts_with("Usage: /skill analyze"));
    assert!(skill_usage_hint("confirm").contains("/skill confirm <token>"));
    assert!(skill_usage_hint("other").starts_with("Usage:\n"));
}

#[test]
fn user_turn_with_images() {
    let plain = user_turn_message("hi".into(), &vec![]);
    assert_eq!(plain.role, "user");
    assert_eq!(plain.content.len(), 1);
    let atts = vec![
        Attachment { kind: AttachmentKind::Image, url: "data1".into(), mime_type: None },
        Attachment { kind: AttachmentKind::Other, url: "file".into(), mime_type: None },
        Attachment { kind: AttachmentKind::Image, url: "data2".into(), mime_type: Some("image/png".into()) },
    ];
    let m = user_turn_message("look".into(), &atts);
    assert_eq!(m.content.len(), 3);
    match &m.content[1] {
        ContentBlock::Image { media_type, data } => {
            assert_eq!(media_type, "image/jpeg");
            assert_eq!(data, "data1");
        }
        _ => panic!("expected an image"),
    }
    match &m.content[2] {
        ContentBlock::Image { media_type, .. } => assert_eq!(media_type, "image/png"),
        _ => panic!("expected an image"),
    }
}

#[test]
fn installed_reply_text() {
    assert_eq!(
        installed_reply("weather", "/ws/skills/weather", 2, false),
        "Installed skill 'weather' to /ws/skills/weather (findings: 2, high-risk: false)."
    );
    assert!(approval_allows_install(Some(ApprovalDecision::AllowOnce)));
    assert!(approval_allows_install(Some(ApprovalDecision::AlwaysAllow)));
    assert!(!approval_allows_install(Some(ApprovalDecision::Deny)));
    assert!(!approval_allows_install(None));
}

#[test]
fn fallback_summary_transcript() {
    let msgs = vec![
        SessionMessage { role: "user".into(), content: "hi".into(), timestamp_ms: None },
        SessionMessage { role: "assistant".into(), content: "hello".into(), timestamp_ms: None },
    ];
    assert_eq!(fallback_summary_input(&msgs, false), Some("user: hi\nassistant: hello".to_string()));
    assert_eq!(fallback_summary_input(&msgs, true), None);
    assert_eq!(fallback_summary_input(&vec![], false), None);
}

#[test]
fn memory_hits_text() {
    let hits = vec![MemoryHit { path: "memory/2026-01-01.md".into(), score_text: "0.87".into(), text: "note".into() }];
    assert_eq!(
        memory_context_from_hits(&hits),
        "## Relevant Memory\n\n### memory/2026-01-01.md (score: 0.87)\nnote\n\n"
    );
}
