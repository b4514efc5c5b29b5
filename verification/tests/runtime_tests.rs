use clawhive::audit::truncate_string;
use clawhive::persona::clamp_to_budget;
use clawhive::context::no_compaction;
use clawhive::gateway::{
    direct_reminder_text, scheduled_reminder_prompt, source_channel, ScheduledDeliveryInfo,
    ScheduledDeliveryMode,
};
use clawhive::language::{apply_language_policy_prompt, ResponseLanguage};
use clawhive::persona::char_boundary_from_end;
use clawhive::router::{CooldownStore, FailoverRun, FailureStep, RouterAction};
use clawhive::shell::{effective_timeout_secs, exec_policy_refusal, output_cut_ok};
use clawhive::tool::ToolContext;

fn call(p: &str, m: &str) -> RouterAction {
    RouterAction::Call { provider_id: p.to_string(), model_id: m.to_string() }
}

#[test]
fn failover_run_retries_then_moves_to_fallback() {
    let mut store = CooldownStore::new();
    let available = vec!["anthropic".to_string(), "openai".to_string()];
    let aliases: Vec<(String, String)> = Vec::new();
    let mut run = FailoverRun::new("anthropic/sonnet-4", &vec!["openai/gpt-4o".to_string()], &Vec::new(), false);

    assert_eq!(run.advance(&aliases, &store, 0, &available), call("anthropic", "sonnet-4"));
    assert_eq!(run.on_failure("[retryable] timeout", &mut store, 0), FailureStep::Retry { backoff_ms: 1000 });
    assert_eq!(run.retry_call(), call("anthropic", "sonnet-4"));
    assert_eq!(run.on_failure("[retryable] timeout", &mut store, 0), FailureStep::Retry { backoff_ms: 2000 });
    assert_eq!(run.on_failure("[retryable] timeout", &mut store, 0), FailureStep::MoveOn);
    assert!(store.is_cooling_at("anthropic", 29_999));
    assert!(!store.is_cooling_at("anthropic", 30_000));

    assert_eq!(run.advance(&aliases, &store, 0, &available), call("openai", "gpt-4o"));
    assert!(run.on_success(&mut store));
    assert_eq!(run.tried, vec!["anthropic/sonnet-4".to_string(), "openai/gpt-4o".to_string()]);
    assert_eq!(
        run.advance(&aliases, &store, 0, &available),
        RouterAction::Exhausted { message: "[retryable] timeout".to_string() }
    );
}

#[test]
fn failover_run_skips_cooling_and_unavailable_providers() {
    let mut store = CooldownStore::new();
    let aliases: Vec<(String, String)> = Vec::new();
    let mut first = FailoverRun::new("anthropic/sonnet-4", &Vec::new(), &Vec::new(), false);
    let available = vec!["anthropic".to_string()];
    assert_eq!(first.advance(&aliases, &store, 0, &available), call("anthropic", "sonnet-4"));
    assert_eq!(first.on_failure("rate limit exceeded", &mut store, 0), FailureStep::MoveOn);

    let mut second = FailoverRun::new("anthropic/sonnet-4", &vec!["openai/gpt-4o".to_string()], &Vec::new(), false);
    assert_eq!(
        second.advance(&aliases, &store, 1, &available),
        RouterAction::Exhausted { message: "all model candidates failed or in cooldown (tried: )".to_string() }
    );
}

#[test]
fn streaming_failover_does_not_retry() {
    let mut store = CooldownStore::new();
    let aliases: Vec<(String, String)> = Vec::new();
    let available = vec!["anthropic".to_string()];
    let mut run = FailoverRun::new("anthropic/sonnet-4", &Vec::new(), &Vec::new(), true);
    assert_eq!(run.advance(&aliases, &store, 0, &available), call("anthropic", "sonnet-4"));
    assert_eq!(run.on_failure("[retryable] boom", &mut store, 0), FailureStep::MoveOn);
    assert!(!run.on_success(&mut store));
}

#[test]
fn reminder_texts() {
    assert_eq!(direct_reminder_text("drink water"), "⏰ drink water");
    assert_eq!(scheduled_reminder_prompt("check mail"), "[Scheduled Reminder]\ncheck mail");
}

fn delivery(ch: Option<&str>, co: Option<&str>, sc: Option<&str>) -> ScheduledDeliveryInfo {
    ScheduledDeliveryInfo {
        mode: ScheduledDeliveryMode::Announce,
        channel: None,
        connector_id: None,
        source_channel_type: ch.map(String::from),
        source_connector_id: co.map(String::from),
        source_conversation_scope: sc.map(String::from),
        source_user_scope: None,
        best_effort: false,
        webhook_url: None,
        failure_destination: None,
    }
}

#[test]
fn source_channel_needs_all_three_parts() {
    assert_eq!(
        source_channel(&delivery(Some("telegram"), Some("tg_main"), Some("chat:1"))),
        Some(("telegram".to_string(), "tg_main".to_string(), "chat:1".to_string()))
    );
    assert_eq!(source_channel(&delivery(Some("telegram"), None, Some("chat:1"))), None);
}

#[test]
fn language_policy_is_appended_only_when_set() {
    let mut p = "base".to_string();
    apply_language_policy_prompt(&mut p, None);
    assert_eq!(p, "base");
    apply_language_policy_prompt(&mut p, Some(ResponseLanguage::English));
    assert_eq!(
        p,
        "base\n\n## Language Policy\nRespond in English by default, matching the user's latest message language. Keep code blocks, file paths, command names, and URLs in their original form."
    );
}

#[test]
fn char_boundary_counts_bytes_of_kept_prefix() {
    assert_eq!(char_boundary_from_end("héllo", 2), 4);
    assert_eq!(char_boundary_from_end("abc", 3), 0);
    assert_eq!(char_boundary_from_end("abc", 10), 0);
}

#[test]
fn empty_compaction_result() {
    let r = no_compaction();
    assert_eq!(r.summary, "");
    assert_eq!(r.compacted_count, 0);
    assert_eq!(r.tokens_saved, 0);
}

#[test]
fn shell_limits_and_refusals() {
    assert_eq!(effective_timeout_secs(0), 1);
    assert_eq!(effective_timeout_secs(45), 45);
    assert!(output_cut_ok("short", ""));
    let ctx = ToolContext::builtin();
    assert_eq!(
        exec_policy_refusal(&ctx, "rm -rf /"),
        Some((
            "Command denied: matches dangerous pattern (hard baseline)".to_string(),
            "command blocked by hard baseline".to_string()
        ))
    );
    assert_eq!(exec_policy_refusal(&ctx, "ls -la"), None);
}

#[test]
fn truncation_fits_its_limit() {
    let t = truncate_string("héllo wörld, grüße", 9);
    assert!(t.len() <= 9);
    assert!(t.ends_with("..."));
    assert_eq!(truncate_string("short", 10), "short");
    let c = clamp_to_budget("abcdefgh", 4);
    assert_eq!(c.chars().count(), 4);
    assert_eq!(c, "abc…");
    assert_eq!(clamp_to_budget("abc", 4), "abc");
}

#[test]
fn laws_on_concrete_values() {
    use_laws();
}

fn use_laws() {
    let once = clawhive::paths::normalize_path("/a/./b/../c");
    assert_eq!(once, "/a/c");
    assert_eq!(clawhive::paths::normalize_path(&once), once);
    assert_eq!(
        clawhive::router::classify_failover_reason("RATE LIMIT EXCEEDED"),
        clawhive::router::classify_failover_reason("rate limit exceeded")
    );
    assert_eq!(
        clawhive::slash_commands::parse_command("/STATUS"),
        clawhive::slash_commands::parse_command("/status")
    );
    let mut ms = vec![
        clawhive::context::LlmMessage {
            role: "user".to_string(),
            content: vec![clawhive::context::ContentBlock::ToolResult {
                tool_use_id: "t".to_string(),
                content: "a".repeat(10_000),
                is_error: false,
            }],
        },
        clawhive::context::LlmMessage::user("recent".to_string()),
    ];
    clawhive::context::prune_tool_results(&mut ms, 200, 1);
    match &ms[0].content[0] {
        clawhive::context::ContentBlock::ToolResult { content, .. } => {
            assert_eq!(content, &format!("{}...[truncated 9800 chars]...{}", "a".repeat(100), "a".repeat(100)));
        }
        _ => panic!("expected a tool result"),
    }
}
