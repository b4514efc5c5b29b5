use clawhive::context::{ContentBlock, LlmMessage};
use clawhive::config::SecurityMode;
use clawhive::policy::ToolOrigin;
use clawhive::tool::ToolOutput;
use clawhive::tool_loop::{
    filter_tool_names, round_tool_context, split_provider_model, tool_calls_of, tool_result_block,
    LoopStep, SourceInfo, ToolLoop, MAX_TOOL_ITERATIONS, WEB_SEARCH_REMINDER,
};

fn text(t: &str) -> ContentBlock {
    ContentBlock::Text { text: t.into() }
}

fn tool_use(id: &str, name: &str) -> ContentBlock {
    ContentBlock::ToolUse { id: id.into(), name: name.into(), input: "{}".into() }
}

#[test]
fn final_answer_finishes() {
    let mut lp = ToolLoop::new(vec![LlmMessage::user("hi".into())], false);
    assert!(lp.may_ask_model());
    let step = lp.on_response(vec![text("hello")], Some("end_turn".into()));
    assert!(matches!(step, LoopStep::Finish));
    assert_eq!(lp.messages.len(), 1);
    assert_eq!(lp.iteration, 1);
}

#[test]
fn tool_calls_run_then_results_join() {
    let mut lp = ToolLoop::new(vec![LlmMessage::user("hi".into())], false);
    let step = lp.on_response(vec![text("let me look"), tool_use("t1", "read")], Some("tool_use".into()));
    match step {
        LoopStep::RunTools(calls) => {
            assert_eq!(calls.len(), 1);
            assert_eq!(calls[0].id, "t1");
            assert_eq!(calls[0].name, "read");
        }
        _ => panic!("expected tool calls"),
    }
    assert!(!lp.may_ask_model());
    let result = tool_result_block("t1".into(), Ok(ToolOutput { content: "data".into(), is_error: false }));
    lp.on_tool_results(vec![result]);
    assert_eq!(lp.messages.len(), 3);
    assert_eq!(lp.messages[1].role, "assistant");
    assert_eq!(lp.messages[2].role, "user");
    assert!(lp.may_ask_model());
}

#[test]
fn tool_use_without_stop_reason_is_final() {
    let mut lp = ToolLoop::new(vec![], false);
    let step = lp.on_response(vec![tool_use("t1", "read")], Some("end_turn".into()));
    assert!(matches!(step, LoopStep::Finish));
}

#[test]
fn web_search_reminder_once() {
    let mut lp = ToolLoop::new(vec![LlmMessage::user("web search this".into())], true);
    let step = lp.on_response(vec![text("answer without search")], Some("end_turn".into()));
    assert!(matches!(step, LoopStep::AskAgain));
    assert_eq!(lp.messages.len(), 3);
    match &lp.messages[2].content[0] {
        ContentBlock::Text { text } => assert_eq!(text, WEB_SEARCH_REMINDER),
        _ => panic!("expected the reminder"),
    }
    let step = lp.on_response(vec![text("still no search")], Some("end_turn".into()));
    assert!(matches!(step, LoopStep::Finish));
}

#[test]
fn web_search_call_stops_reminders() {
    let mut lp = ToolLoop::new(vec![], true);
    let step = lp.on_response(vec![tool_use("w", "web_search")], Some("tool_use".into()));
    assert!(matches!(step, LoopStep::RunTools(_)));
    assert!(lp.web_search_called);
    lp.on_tool_results(vec![]);
    let step = lp.on_response(vec![text("done")], None);
    assert!(matches!(step, LoopStep::Finish));
}

#[test]
fn rounds_are_bounded() {
    let mut lp = ToolLoop::new(vec![], false);
    let mut rounds = 0;
    while lp.may_ask_model() {
        match lp.on_response(vec![tool_use("t", "read")], Some("tool_use".into())) {
            LoopStep::RunTools(_) => lp.on_tool_results(vec![]),
            _ => panic!("expected tool calls"),
        }
        rounds += 1;
    }
    assert_eq!(rounds, MAX_TOOL_ITERATIONS);
}

#[test]
fn tool_errors_become_error_results() {
    match tool_result_block("x".into(), Err("boom".into())) {
        ContentBlock::ToolResult { tool_use_id, content, is_error } => {
            assert_eq!(tool_use_id, "x");
            assert_eq!(content, "Tool execution error: boom");
            assert!(is_error);
        }
        _ => panic!("expected a tool result"),
    }
    let calls = tool_calls_of(&vec![text("a"), tool_use("1", "x"), tool_use("2", "y")]);
    assert_eq!(calls.len(), 2);
    assert_eq!(calls[1].name, "y");
}

#[test]
fn tool_names_filtered_by_prefix() {
    let names = vec!["read_file".to_string(), "write_file".to_string(), "execute_command".to_string()];
    let allow = vec!["read".to_string(), "exec".to_string()];
    assert_eq!(filter_tool_names(&names, Some(&allow)), vec!["read_file".to_string(), "execute_command".to_string()]);
    assert_eq!(filter_tool_names(&names, None), names);
}

#[test]
fn provider_model_split() {
    assert_eq!(split_provider_model("openai/gpt-4o"), Some(("openai".to_string(), "gpt-4o".to_string())));
    assert_eq!(split_provider_model("a/b/c"), Some(("a".to_string(), "b/c".to_string())));
    assert_eq!(split_provider_model("plain"), None);
}

#[test]
fn round_context_carries_source_and_history() {
    let messages = vec![LlmMessage::user("hello".into())];
    let source = Some(SourceInfo {
        channel_type: "telegram".into(),
        connector_id: "tg".into(),
        conversation_scope: "chat:1".into(),
    });
    let ctx = round_tool_context(&None, SecurityMode::Standard, &vec![], &messages, &source);
    assert_eq!(ctx.origin(), ToolOrigin::Builtin);
    assert_eq!(ctx.source_channel_type(), Some("telegram"));
    assert_eq!(ctx.recent_messages.len(), 1);
    assert_eq!(ctx.recent_messages[0].content, "hello");
}
