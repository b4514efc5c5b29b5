use clawhive::router::{CooldownStore, FailoverRun, FailureStep, RouterAction};

const RETRYABLE: &str = "anthropic api error (429) [retryable]: rate limited";
const PERMANENT: &str = "anthropic api error (401): unauthorized";

fn aliases(pairs: &[(&str, &str)]) -> Vec<(String, String)> {
    pairs.iter().map(|(a, t)| (a.to_string(), t.to_string())).collect()
}

fn names(ns: &[&str]) -> Vec<String> {
    ns.iter().map(|n| n.to_string()).collect()
}

fn call(p: &str, m: &str) -> RouterAction {
    RouterAction::Call { provider_id: p.to_string(), model_id: m.to_string() }
}

fn scenario_retries_on_retryable_error() {
    let al = aliases(&[("model", "test/model")]);
    let available = names(&["test"]);
    let mut store = CooldownStore::new();
    let mut run = FailoverRun::new("model", &Vec::new(), &Vec::new(), false);
    let mut calls = 0;
    assert_eq!(run.advance(&al, &store, 0, &available), call("test", "model"));
    calls += 1;
    while let FailureStep::Retry { .. } = run.on_failure(RETRYABLE, &mut store, 0) {
        assert_eq!(run.retry_call(), call("test", "model"));
        calls += 1;
        if calls == 3 {
            break;
        }
    }
    assert_eq!(calls, 3);
    assert!(!run.on_success(&mut store));
}

fn scenario_no_retry_on_non_retryable_error() {
    let al = aliases(&[("model", "test/model")]);
    let available = names(&["test"]);
    let mut store = CooldownStore::new();
    let mut run = FailoverRun::new("model", &Vec::new(), &Vec::new(), false);
    assert_eq!(run.advance(&al, &store, 0, &available), call("test", "model"));
    assert_eq!(run.on_failure(PERMANENT, &mut store, 0), FailureStep::MoveOn);
    let stats = store.get_stats("test");
    assert_eq!(stats.cooldown_until, Some(3_600_000));
    assert_eq!(stats.failure_count, 1);
    assert_eq!(stats.last_failure_reason.as_deref(), Some("auth_error"));
    match run.advance(&al, &store, 0, &available) {
        RouterAction::Exhausted { message } => assert!(message.contains("401")),
        other => panic!("expected exhaustion, got {:?}", other),
    }
}

fn scenario_fallback_on_failure() {
    let al = aliases(&[("bad", "fail/model"), ("good", "success/model")]);
    let available = names(&["fail", "success"]);
    let mut store = CooldownStore::new();
    let mut run = FailoverRun::new("bad", &names(&["good"]), &Vec::new(), false);
    assert_eq!(run.advance(&al, &store, 0, &available), call("fail", "model"));
    assert_eq!(run.on_failure(PERMANENT, &mut store, 0), FailureStep::MoveOn);
    assert_eq!(run.advance(&al, &store, 0, &available), call("success", "model"));
    assert!(run.on_success(&mut store));
}

fn scenario_global_fallback_used() {
    let al = aliases(&[("bad", "fail/model"), ("global_model", "global/model")]);
    let available = names(&["fail", "global"]);
    let mut store = CooldownStore::new();
    let mut run = FailoverRun::new("bad", &Vec::new(), &names(&["global_model"]), false);
    assert_eq!(run.advance(&al, &store, 0, &available), call("fail", "model"));
    assert_eq!(run.on_failure(PERMANENT, &mut store, 0), FailureStep::MoveOn);
    assert_eq!(run.advance(&al, &store, 0, &available), call("global", "model"));
    assert!(run.on_success(&mut store));
}

fn scenario_stream_falls_back_on_failure() {
    let al = aliases(&[("bad", "fail/model"), ("good", "test/model")]);
    let available = names(&["fail", "test"]);
    let mut store = CooldownStore::new();
    let mut run = FailoverRun::new("bad", &names(&["good"]), &Vec::new(), true);
    assert_eq!(run.advance(&al, &store, 0, &available), call("fail", "model"));
    assert_eq!(run.on_failure(PERMANENT, &mut store, 0), FailureStep::MoveOn);
    assert_eq!(run.advance(&al, &store, 0, &available), call("test", "model"));
}

#[test]
fn router_retries_on_retryable_error() {
    scenario_retries_on_retryable_error();
}

#[test]
fn mod_retries_on_retryable_error() {
    scenario_retries_on_retryable_error();
}

#[test]
fn router_no_retry_on_non_retryable_error() {
    scenario_no_retry_on_non_retryable_error();
}

#[test]
fn mod_no_retry_on_non_retryable_error() {
    scenario_no_retry_on_non_retryable_error();
}

#[test]
fn router_fallback_on_failure() {
    scenario_fallback_on_failure();
}

#[test]
fn mod_fallback_on_failure() {
    scenario_fallback_on_failure();
}

#[test]
fn router_global_fallback_used() {
    scenario_global_fallback_used();
}

#[test]
fn mod_global_fallback_used() {
    scenario_global_fallback_used();
}

#[test]
fn router_stream_falls_back_on_failure() {
    scenario_stream_falls_back_on_failure();
}

#[test]
fn mod_stream_falls_back_on_failure() {
    scenario_stream_falls_back_on_failure();
}
