use clawhive::config::{FullAgentConfig, ModelPolicy};
use clawhive::gateway::InboundMessage;
use clawhive::orchestrator::{find_agent_model, start_inbound_turn, InboundAction, InboundTurn};
use clawhive::slash_commands::format_status_response;
use clawhive::persona::Persona;
use clawhive::subagent::{
    delegated_output, joined_result, run_result, spawn_failed_output, DelegateInput, JoinOutcome,
    RunOutcome, SubAgentRequest, SubAgentResult, SubAgentRunner, SubAgentTool,
};

fn agent(id: &str, primary: &str) -> FullAgentConfig {
    FullAgentConfig {
        agent_id: id.into(),
        enabled: true,
        workspace: None,
        identity: None,
        model_policy: ModelPolicy { primary: primary.into(), fallbacks: vec!["fb".into()] },
        tool_policy: None,
        memory_policy: None,
        sub_agent: None,
        heartbeat: None,
        exec_security: None,
        sandbox: None,
    }
}

fn persona(id: &str) -> Persona {
    Persona {
        agent_id: id.into(),
        name: "Helper".into(),
        emoji: None,
        agents_md: String::new(),
        soul_md: "Be kind.".into(),
        user_md: String::new(),
        identity_md: String::new(),
        tools_md: String::new(),
        heartbeat_md: String::new(),
        bootstrap_md: String::new(),
        memory_md: String::new(),
        peers_context: String::new(),
        group_members_context: String::new(),
    }
}

fn request(target: &str, depth: u32) -> SubAgentRequest {
    SubAgentRequest {
        parent_run_id: "p".into(),
        trace_id: "t".into(),
        target_agent_id: target.into(),
        task: "say hello".into(),
        timeout_seconds: 5,
        depth,
    }
}

fn runner() -> SubAgentRunner {
    SubAgentRunner::new(
        vec![agent("helper", "stub/test-model")],
        vec![("helper".to_string(), persona("helper"))],
        3,
        vec!["read".into()],
    )
}

#[test]
fn spawn_rejects_excessive_depth() {
    let r = runner();
    match r.plan_spawn(&request("helper", 3)) {
        Err(e) => assert_eq!(e, "sub-agent recursion depth 3 exceeds maximum 3"),
        Ok(_) => panic!("depth 3 must be refused"),
    }
}

#[test]
fn spawn_unknown_agent() {
    let r = runner();
    match r.plan_spawn(&request("nobody", 0)) {
        Err(e) => assert_eq!(e, "sub-agent not found: nobody"),
        Ok(_) => panic!("unknown agent must be refused"),
    }
}

#[test]
fn spawn_plan_for_known_agent() {
    let r = runner();
    let plan = r.plan_spawn(&request("helper", 1)).ok().expect("plan");
    assert_eq!(plan.primary, "stub/test-model");
    assert_eq!(plan.fallbacks, vec!["fb".to_string()]);
    assert_eq!(plan.task, "say hello");
    assert_eq!(plan.timeout_seconds, 5);
    assert!(plan.system_prompt.contains("Be kind."));
    assert_eq!(r.allowed_tools(), &vec!["read".to_string()]);
}

#[test]
fn result_merge_concatenates_successful() {
    let results = vec![
        SubAgentResult { run_id: "1".into(), output: "first".into(), success: true },
        SubAgentResult { run_id: "2".into(), output: "failed".into(), success: false },
        SubAgentResult { run_id: "3".into(), output: "third".into(), success: true },
    ];
    assert_eq!(SubAgentRunner::result_merge(&results), "first\n\n---\n\nthird");
    assert_eq!(SubAgentRunner::result_merge(&vec![]), "");
}

#[test]
fn run_outcomes() {
    let ok = run_result("r".into(), RunOutcome::Replied("hi".into()));
    assert!(ok.success);
    assert_eq!(ok.output, "hi");
    let timeout = run_result("r".into(), RunOutcome::TimedOut);
    assert!(!timeout.success);
    assert_eq!(timeout.output, "sub-agent timeout");
    let failed = run_result("r".into(), RunOutcome::Failed("boom".into()));
    assert!(!failed.success);
    let cancelled = joined_result("r", JoinOutcome::Cancelled);
    assert_eq!(cancelled.output, "task cancelled");
    let panicked = joined_result("r", JoinOutcome::Panicked("oops".into()));
    assert_eq!(panicked.output, "task panicked: oops");
}

#[test]
fn delegation_tool_inputs() {
    let tool = SubAgentTool::new(runner(), 30);
    let req = tool
        .delegate_request(
            DelegateInput { target_agent_id: Some("helper".into()), task: Some("x".into()), timeout_seconds: None },
            "p".into(),
            "t".into(),
        )
        .ok()
        .expect("request");
    assert_eq!(req.timeout_seconds, 30);
    assert_eq!(req.depth, 0);
    let missing = tool.delegate_request(
        DelegateInput { target_agent_id: None, task: Some("x".into()), timeout_seconds: None },
        "p".into(),
        "t".into(),
    );
    assert_eq!(missing.err(), Some("missing 'target_agent_id' field".to_string()));
    let missing_task = tool.delegate_request(
        DelegateInput { target_agent_id: Some("a".into()), task: None, timeout_seconds: Some(9) },
        "p".into(),
        "t".into(),
    );
    assert_eq!(missing_task.err(), Some("missing 'task' field".to_string()));
    let out = spawn_failed_output("sub-agent not found: x");
    assert!(out.is_error);
    assert_eq!(out.content, "Failed to spawn sub-agent: sub-agent not found: x");
    let out = delegated_output(Ok(SubAgentResult { run_id: "1".into(), output: "done".into(), success: true }));
    assert!(!out.is_error);
    let out = delegated_output(Err("run not found: 1".into()));
    assert_eq!(out.content, "Failed to get sub-agent result: run not found: 1");
}

#[test]
fn delegate_to_valid_agent() {
    let tool = SubAgentTool::new(runner(), 30);
    let req = tool
        .delegate_request(
            DelegateInput { target_agent_id: Some("helper".into()), task: Some("say hello".into()), timeout_seconds: Some(10) },
            "parent".into(),
            "trace".into(),
        )
        .ok()
        .expect("request");
    let plan = tool.runner.plan_spawn(&req).ok().expect("plan");
    assert_eq!(plan.primary, "stub/test-model");
    let answer = SubAgentResult { run_id: "r1".into(), output: "stub:anthropic:test-model".into(), success: true };
    let result = delegated_output(Ok(answer));
    assert!(!result.is_error);
    assert!(result.content.contains("stub:anthropic:test-model"));
}

#[test]
fn delegate_to_unknown_agent() {
    let tool = SubAgentTool::new(runner(), 30);
    let req = tool
        .delegate_request(
            DelegateInput { target_agent_id: Some("nonexistent".into()), task: Some("do something".into()), timeout_seconds: None },
            "parent".into(),
            "trace".into(),
        )
        .ok()
        .expect("request");
    let error = tool.runner.plan_spawn(&req).err().expect("unknown agent");
    let result = spawn_failed_output(&error);
    assert!(result.is_error);
    assert!(result.content.contains("Failed to spawn"));
}

#[test]
fn missing_required_field() {
    let tool = SubAgentTool::new(runner(), 30);
    let result = tool.delegate_request(
        DelegateInput { target_agent_id: Some("helper".into()), task: None, timeout_seconds: None },
        "parent".into(),
        "trace".into(),
    );
    assert!(result.is_err());
}

fn message(text: &str) -> InboundMessage {
    InboundMessage {
        trace_id: "trace-1".into(),
        channel_type: "telegram".into(),
        connector_id: "tg_main".into(),
        conversation_scope: "chat:42".into(),
        user_scope: "user:1".into(),
        text: text.into(),
        at_ms: 0,
        thread_id: None,
        is_mention: false,
        mention_target: None,
        message_id: None,
    }
}

#[test]
fn status_is_answered_on_the_message_channel() {
    let agents = vec![agent("helper", "openai/gpt-4o"), agent("main", "anthropic/sonnet-4")];
    match start_inbound_turn(&agents, "main", "telegram:tg_main:chat:42", &message("  /status  ")) {
        Ok(InboundTurn::Reply(o)) => {
            assert_eq!(o.trace_id, "trace-1");
            assert_eq!(o.channel_type, "telegram");
            assert_eq!(o.connector_id, "tg_main");
            assert_eq!(o.conversation_scope, "chat:42");
            assert_eq!(o.text, format_status_response("main", "anthropic/sonnet-4", "telegram:tg_main:chat:42"));
        }
        _ => panic!("expected a reply"),
    }
}

#[test]
fn unknown_agent_is_an_error() {
    let agents = vec![agent("main", "m")];
    match start_inbound_turn(&agents, "ghost", "k", &message("/status")) {
        Err(e) => assert_eq!(e, "agent not found: ghost"),
        _ => panic!("expected an error"),
    }
}

#[test]
fn conversation_is_handed_on() {
    let agents = vec![agent("main", "m")];
    assert!(matches!(
        start_inbound_turn(&agents, "main", "k", &message("hello")),
        Ok(InboundTurn::Act(InboundAction::Converse))
    ));
    assert_eq!(find_agent_model(&agents, "main").as_deref(), Some("m"));
    assert_eq!(find_agent_model(&agents, "other"), None);
}
