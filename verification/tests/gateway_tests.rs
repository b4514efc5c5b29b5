use clawhive::config::{MatchRule, RoutingBinding, RoutingConfig};
use clawhive::gateway::{
    agent_turn_timeout, approval_request_command, approve_reply, completion_status,
    delivery_outcome, failure_notice, parse_approve_command, plan_delivery, resolve_agent,
    scheduled_user_scope, scheduler_channel, short_id, split_session_key, timed_out_error,
    tracks_last_channel, wait_task_text, webhook_step, ApproveCommand, DeliveryAttempt,
    DeliveryOutcome, DeliveryPlan, FailureDestination, InboundMessage, RateLimitConfig,
    ScheduledDeliveryInfo, ScheduledDeliveryMode, ScheduledDeliveryStatus, ScheduledRunStatus,
    WebhookStep,
};
use clawhive::shell::ApprovalDecision;

fn inbound(scope: &str, mention: Option<&str>) -> InboundMessage {
    InboundMessage {
        trace_id: "t".into(),
        channel_type: "telegram".into(),
        connector_id: "tg_main".into(),
        conversation_scope: scope.into(),
        user_scope: "user:1".into(),
        text: "test".into(),
        at_ms: 0,
        thread_id: None,
        is_mention: mention.is_some(),
        mention_target: mention.map(|s| s.to_string()),
        message_id: None,
    }
}

fn routing(kind: &str, pattern: Option<&str>) -> RoutingConfig {
    RoutingConfig {
        default_agent_id: "clawhive-main".into(),
        bindings: vec![RoutingBinding {
            channel_type: "telegram".into(),
            connector_id: "tg_main".into(),
            match_rule: MatchRule { kind: kind.into(), pattern: pattern.map(|s| s.to_string()) },
            agent_id: "clawhive-builder".into(),
        }],
    }
}

#[test]
fn rate_limit_config_default_values() {
    let config = RateLimitConfig::default();
    assert_eq!(config.requests_per_minute, 30);
    assert_eq!(config.burst, 10);
}

#[test]
fn resolve_agent_bindings() {
    let r = RoutingConfig { default_agent_id: "clawhive-main".into(), bindings: vec![] };
    assert_eq!(resolve_agent(&r, &inbound("chat:1", None)), "clawhive-main");
    assert_eq!(resolve_agent(&routing("mention", Some("@mybot")), &inbound("chat:1", Some("@mybot"))), "clawhive-builder");
    assert_eq!(resolve_agent(&routing("mention", Some("@mybot")), &inbound("chat:1", Some("@other"))), "clawhive-main");
    assert_eq!(resolve_agent(&routing("dm", None), &inbound("dm:1", None)), "clawhive-builder");
    assert_eq!(resolve_agent(&routing("dm", None), &inbound("group:1", None)), "clawhive-main");
    assert_eq!(resolve_agent(&routing("group", None), &inbound("group:1", None)), "clawhive-builder");
    let mut other = inbound("group:1", None);
    other.connector_id = "tg_other".into();
    assert_eq!(resolve_agent(&routing("group", None), &other), "clawhive-main");
    assert!(tracks_last_channel("telegram"));
    assert!(!tracks_last_channel("heartbeat"));
}

#[test]
fn approve_commands() {
    assert!(parse_approve_command("hello").is_none());
    match parse_approve_command("/approve abc") {
        Some(ApproveCommand::Reply(r)) => assert_eq!(r, "Usage: /approve <id> allow|always|deny"),
        _ => panic!(),
    }
    match parse_approve_command("  /approve abc123 ALWAYS ") {
        Some(ApproveCommand::Resolve { short_id, decision }) => {
            assert_eq!(short_id, "abc123");
            assert_eq!(decision, ApprovalDecision::AlwaysAllow);
        }
        _ => panic!(),
    }
    match parse_approve_command("/approve abc maybe") {
        Some(ApproveCommand::Reply(r)) => assert_eq!(r, "Unknown decision 'maybe'. Use: allow, always, or deny"),
        _ => panic!(),
    }
    assert_eq!(approve_reply(ApprovalDecision::Deny, Ok(())), "✅ Approval resolved: Deny");
    assert_eq!(approve_reply(ApprovalDecision::Deny, Err("no such id".into())), "❌ no such id");
    assert_eq!(short_id("1234567890abcdef"), "12345678");
    assert_eq!(approval_request_command("curl x", Some("x:443")), "curl x\nNetwork: x:443");
}

#[test]
fn wait_task_helpers() {
    assert_eq!(
        split_session_key("telegram:tg_main:chat:12345"),
        Some(("telegram".to_string(), "tg_main".to_string(), "chat:12345".to_string()))
    );
    assert_eq!(split_session_key("nocolon"), None);
    assert_eq!(split_session_key("a:b"), None);
    assert_eq!(wait_task_text("done", Some("out")), "done\n\n```\nout\n```");
    assert_eq!(wait_task_text("done", None), "done");
    assert_eq!(wait_task_text("m", Some(&"x".repeat(600))).len(), 1 + 6 + 500 + 4);
}

fn delivery(mode: ScheduledDeliveryMode) -> ScheduledDeliveryInfo {
    ScheduledDeliveryInfo {
        mode,
        channel: None,
        connector_id: None,
        source_channel_type: Some("telegram".into()),
        source_connector_id: Some("tg_main".into()),
        source_conversation_scope: Some("chat:1".into()),
        source_user_scope: None,
        best_effort: false,
        webhook_url: None,
        failure_destination: Some(FailureDestination {
            channel: Some("discord".into()),
            connector_id: Some("dc".into()),
            conversation_scope: Some("ops".into()),
        }),
    }
}

fn attempt(response: Option<&str>, error: Option<&str>) -> DeliveryAttempt {
    DeliveryAttempt {
        schedule_id: "daily".into(),
        status: ScheduledRunStatus::Succeeded,
        response: response.map(|s| s.to_string()),
        error: error.map(|s| s.to_string()),
        started_at_ms: 1000,
        ended_at_ms: 3500,
    }
}

#[test]
fn delivery_planning() {
    assert!(matches!(plan_delivery(&delivery(ScheduledDeliveryMode::Quiet), &attempt(Some("x"), None)), DeliveryPlan::NotRequested));
    match plan_delivery(&delivery(ScheduledDeliveryMode::Announce), &attempt(Some("  "), Some("boom"))) {
        DeliveryPlan::Announce(a) => {
            assert_eq!(a.text, "❌ boom");
            assert_eq!(a.channel_type, "telegram");
            assert_eq!(a.conversation_scope, "chat:1");
        }
        _ => panic!(),
    }
    assert!(matches!(plan_delivery(&delivery(ScheduledDeliveryMode::Announce), &attempt(None, None)), DeliveryPlan::NotRequested));
    let mut d = delivery(ScheduledDeliveryMode::Announce);
    d.source_conversation_scope = None;
    let plan = plan_delivery(&d, &attempt(Some("hi"), None));
    let out = delivery_outcome(&plan, Ok(()));
    assert_eq!(out.status, ScheduledDeliveryStatus::NotDelivered);
    assert_eq!(out.error.as_deref(), Some("announce delivery target incomplete (missing channel/connector/scope)"));
    let (status, error) = completion_status(&out, false);
    assert_eq!(status, ScheduledRunStatus::Error);
    assert!(error.unwrap().contains("incomplete"));
    let (status, error) = completion_status(&out, true);
    assert_eq!(status, ScheduledRunStatus::Succeeded);
    assert!(error.is_none());
    let mut w = delivery(ScheduledDeliveryMode::Webhook);
    w.webhook_url = Some("https://hook".into());
    match plan_delivery(&w, &attempt(Some("r"), None)) {
        DeliveryPlan::Webhook { url, status, duration_ms } => {
            assert_eq!(url, "https://hook");
            assert_eq!(status, "ok");
            assert_eq!(duration_ms, 2500);
        }
        _ => panic!(),
    }
    let notice = failure_notice(&d, "daily", "why").unwrap();
    assert_eq!(notice.text, "⚠️ Schedule 'daily' delivery failed: why");
    assert_eq!(notice.channel_type, "discord");
    let pub_fail = delivery_outcome(&plan_delivery(&delivery(ScheduledDeliveryMode::Announce), &attempt(Some("r"), None)), Err("closed".into()));
    assert_eq!(pub_fail.error.as_deref(), Some("announce delivery publish failed: closed"));
    let none = DeliveryOutcome { status: ScheduledDeliveryStatus::NotDelivered, error: None };
    assert_eq!(completion_status(&none, false).1.as_deref(), Some("delivery failed"));
}

#[test]
fn scheduled_turn_helpers() {
    assert_eq!(agent_turn_timeout(5), 30);
    assert_eq!(agent_turn_timeout(100), 100);
    assert_eq!(agent_turn_timeout(10_000), 3600);
    assert_eq!(timed_out_error(30), "execution timed out after 30s");
    assert_eq!(scheduled_user_scope(&delivery(ScheduledDeliveryMode::Quiet)), "user:scheduler");
    let (a, b, c) = scheduler_channel("daily", "u1");
    assert_eq!((a.as_str(), b.as_str(), c.as_str()), ("scheduler", "daily", "schedule:daily:u1"));
}

#[test]
fn webhook_retry_steps() {
    assert!(matches!(webhook_step(0, Ok((200, String::new()))), WebhookStep::Done));
    match webhook_step(0, Ok((503, "busy".into()))) {
        WebhookStep::Retry { delay_secs, error } => {
            assert_eq!(delay_secs, 2);
            assert_eq!(error, "webhook returned 503: busy");
        }
        _ => panic!(),
    }
    match webhook_step(2, Ok((503, "busy".into()))) {
        WebhookStep::Fail(e) => assert_eq!(e, "webhook returned 503: busy"),
        _ => panic!(),
    }
    match webhook_step(0, Ok((404, "nf".into()))) {
        WebhookStep::Fail(e) => assert_eq!(e, "webhook returned 404: nf"),
        _ => panic!(),
    }
    match webhook_step(1, Err("timeout".into())) {
        WebhookStep::Retry { delay_secs, .. } => assert_eq!(delay_secs, 4),
        _ => panic!(),
    }
}
