use clawhive::schedule::{
    normalize_schedule_at, schedule_done_message, schedule_request, slug_from_name,
    relative_ms_readable, try_parse_relative_ms, DeliveryInput, DeliveryMode, ScheduleJobInput, ScheduleRequest,
    ScheduleType, SessionMode,
};
use clawhive::tool::{ConversationMessage, ToolContext};

#[test]
fn try_parse_relative_ms_works() {
    assert_eq!(try_parse_relative_ms("1m"), Some(60_000));
    assert_eq!(try_parse_relative_ms("5m"), Some(300_000));
    assert_eq!(try_parse_relative_ms("2h"), Some(7_200_000));
    assert_eq!(try_parse_relative_ms("30s"), Some(30_000));
    assert_eq!(try_parse_relative_ms("1d"), Some(86_400_000));

    // Not relative times
    assert_eq!(try_parse_relative_ms("2026-02-25T10:00:00Z"), None);
    assert_eq!(try_parse_relative_ms("invalid"), None);
}

#[test]
fn relative_ms_edge_cases() {
    assert_eq!(try_parse_relative_ms("  10s  "), Some(10_000));
    assert_eq!(try_parse_relative_ms("-2m"), Some(-120_000));
    assert_eq!(try_parse_relative_ms("+3h"), Some(10_800_000));
    assert_eq!(try_parse_relative_ms("m"), None);
    assert_eq!(try_parse_relative_ms("5"), None);
    assert_eq!(try_parse_relative_ms("5x"), None);
}

#[test]
fn slug_from_name_examples() {
    assert_eq!(slug_from_name("Milk reminder"), "milk-reminder");
    assert_eq!(slug_from_name("  Daily -- Report!! "), "daily-report");
    assert_eq!(slug_from_name("日报"), "schedule");
    assert_eq!(slug_from_name(""), "schedule");
}

#[test]
fn normalize_relative_at_to_absolute() {
    let s = normalize_schedule_at(ScheduleType::At { at: "5m".to_string() }, 1_700_000_000_000);
    match s {
        ScheduleType::At { at } => {
            assert_eq!(at, "2023-11-14T22:18:20+00:00");
        }
        _ => panic!("expected at"),
    }
    let abs = normalize_schedule_at(ScheduleType::At { at: "2026-02-25T10:00:00Z".to_string() }, 0);
    match abs {
        ScheduleType::At { at } => assert_eq!(at, "2026-02-25T10:00:00Z"),
        _ => panic!("expected at"),
    }
}

fn job(name: &str) -> ScheduleJobInput {
    ScheduleJobInput {
        schedule_id: None,
        name: name.to_string(),
        description: None,
        schedule: ScheduleType::At { at: "20m".to_string() },
        task: "Remind user to buy milk".to_string(),
        session_mode: None,
        agent_id: None,
        delete_after_run: None,
        timeout_seconds: None,
        context_messages: Some(2),
        delivery: None,
    }
}

#[test]
fn job_into_config_injects_context_and_defaults() {
    let ctx = ToolContext::builtin().with_recent_messages(vec![
        ConversationMessage { role: "user".to_string(), content: "remember milk".to_string() },
        ConversationMessage { role: "assistant".to_string(), content: "I will remind you".to_string() },
    ]);
    let cfg = job("Milk reminder").into_config("clawhive-main", &ctx);
    assert_eq!(cfg.schedule_id, "milk-reminder");
    assert_eq!(cfg.agent_id, "clawhive-main");
    assert_eq!(
        cfg.task,
        "Remind user to buy milk\n\nRecent context:\n- user: remember milk\n- assistant: I will remind you"
    );
    assert!(cfg.delete_after_run);
    assert_eq!(cfg.session_mode, SessionMode::Isolated);
    assert_eq!(cfg.timeout_seconds, 300);
    assert_eq!(cfg.delivery.mode, DeliveryMode::Quiet);
    match &cfg.schedule {
        ScheduleType::At { at } => assert!(at.contains('T') && at.contains(':')),
        _ => panic!("expected at"),
    }
}

#[test]
fn job_with_source_announces() {
    let ctx = ToolContext::builtin().with_source(
        "telegram".to_string(),
        "tg_main".to_string(),
        "chat:1".to_string(),
    );
    let mut j = job("X");
    j.schedule = ScheduleType::Cron { expr: "0 9 * * *".into(), tz: "UTC".into() };
    j.schedule_id = Some("  ".into());
    j.delivery = Some(DeliveryInput { mode: None, channel: Some("c".into()), connector_id: None });
    let cfg = j.into_config("main", &ctx);
    assert_eq!(cfg.schedule_id, "x");
    assert_eq!(cfg.delivery.mode, DeliveryMode::Announce);
    assert_eq!(cfg.delivery.channel.as_deref(), Some("c"));
    assert_eq!(cfg.delivery.source_conversation_scope.as_deref(), Some("chat:1"));
    assert!(!cfg.delete_after_run);
}

#[test]
fn schedule_requests_and_errors() {
    assert!(matches!(schedule_request("list", None, None, None), Ok(ScheduleRequest::List)));
    match schedule_request("add", None, None, None) {
        Err(e) => {
            assert!(e.is_error);
            assert_eq!(e.content, "job is required for add action");
        }
        _ => panic!(),
    }
    match schedule_request("update", None, Some("a".into()), None) {
        Err(e) => assert_eq!(e.content, "patch is required for update action"),
        _ => panic!(),
    }
    match schedule_request("frobnicate", None, None, None) {
        Err(e) => assert_eq!(e.content, "Unknown action: frobnicate"),
        _ => panic!(),
    }
    let r = schedule_request("run", None, Some("daily".into()), None).ok().unwrap();
    assert_eq!(schedule_done_message(&r), "Triggered immediate run of 'daily'");
    let r = schedule_request("remove", None, Some("daily".into()), None).ok().unwrap();
    assert_eq!(schedule_done_message(&r), "Removed schedule 'daily'");
}

#[test]
fn relative_times_that_can_be_read() {
    assert!(relative_ms_readable("5m"));
    assert!(relative_ms_readable(" 2h "));
    assert!(relative_ms_readable("x"));
    assert!(relative_ms_readable("abc"));
    assert!(!relative_ms_readable("5é"));
    assert!(!relative_ms_readable("9223372036854775807d"));
    assert!(relative_ms_readable("9223372036854775807x"));
}
