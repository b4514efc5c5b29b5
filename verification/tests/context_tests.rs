use clawhive::context::{
    apply_compaction, estimate_message_tokens, estimate_messages_tokens, estimate_tokens,
    plan_compaction, prune_tool_results, should_compact, summary_request_text, ContentBlock,
    ContextCheckResult, ContextConfig, ContextManager, LimitStep, LlmMessage, MemoryFlushConfig,
    limits_step,
};

#[test]
fn test_estimate_tokens() {
    assert_eq!(estimate_tokens(""), 0);
    assert_eq!(estimate_tokens("hello"), 1); // 5 chars / 4 = 1
    assert_eq!(estimate_tokens("hello world test"), 4); // 16 chars / 4 = 4
}

#[test]
fn test_context_config_default() {
    let config = ContextConfig::default();
    assert_eq!(config.max_tokens, 128_000);
    assert_eq!(config.available_tokens(), 128_000 - 4096);
}

#[test]
fn test_context_config_for_model() {
    let config = ContextConfig::for_model(200_000);
    assert_eq!(config.max_tokens, 200_000);
    assert_eq!(config.target_tokens, 100_000);
}

#[test]
fn test_should_compact() {
    let config = ContextConfig {
        max_tokens: 1000,
        target_tokens: 500,
        reserve_tokens: 100,
        min_messages: 2,
        memory_flush: MemoryFlushConfig::default(),
    };

    let small_msgs = vec![LlmMessage::user("hello".to_string())];
    assert!(!should_compact(&small_msgs, &config));

    let large_text = "a".repeat(4000);
    let large_msgs = vec![LlmMessage::user(large_text)];
    assert!(should_compact(&large_msgs, &config));
}

#[test]
fn test_prune_tool_results() {
    let mut messages = vec![
        LlmMessage {
            role: "user".into(),
            content: vec![ContentBlock::ToolResult {
                tool_use_id: "1".into(),
                content: "a".repeat(10000),
                is_error: false,
            }],
        },
        LlmMessage::user("recent".to_string()),
    ];

    prune_tool_results(&mut messages, 200, 1);

    if let ContentBlock::ToolResult { content, .. } = &messages[0].content[0] {
        assert!(content.len() < 10000);
        assert!(content.contains("truncated"));
        assert_eq!(
            content.as_str(),
            format!("{}...[truncated 9800 chars]...{}", "a".repeat(100), "a".repeat(100))
        );
    } else {
        panic!("Expected tool result");
    }
    if let ContentBlock::Text { text } = &messages[1].content[0] {
        assert_eq!(text, "recent");
    } else {
        panic!("Expected text");
    }
}

#[test]
fn test_memory_flush_config_default() {
    let config = MemoryFlushConfig::default();
    assert!(config.enabled);
    assert_eq!(config.soft_threshold_tokens, 8000);
}

#[test]
fn test_context_config_includes_memory_flush() {
    let config = ContextConfig::default();
    assert!(config.memory_flush.enabled);
}

#[test]
fn message_tokens_have_a_floor_of_ten() {
    let m = LlmMessage::user("hi".to_string());
    assert_eq!(estimate_message_tokens(&m), 10);
    let big = LlmMessage::user("b".repeat(400));
    assert_eq!(estimate_message_tokens(&big), 100);
    let image = LlmMessage {
        role: "user".into(),
        content: vec![ContentBlock::Image { media_type: "image/png".into(), data: "x".repeat(1200) }],
    };
    assert_eq!(estimate_message_tokens(&image), 100);
    assert_eq!(estimate_messages_tokens(&[m, big, image]), 210);
}

fn text_messages(n: usize, bytes: usize) -> Vec<LlmMessage> {
    (0..n).map(|i| LlmMessage::user(format!("{}", i % 10).repeat(bytes))).collect()
}

#[test]
fn compaction_plan_keeps_recent_tail() {
    // 10 messages of 100 tokens each; target 400 keeps 200 tokens: the last 2.
    let msgs = text_messages(10, 400);
    let config = ContextConfig {
        max_tokens: 1000,
        target_tokens: 400,
        reserve_tokens: 0,
        min_messages: 1,
        memory_flush: MemoryFlushConfig::default(),
    };
    assert_eq!(plan_compaction(&msgs, &config), 8);
    // min_messages forces more to be kept
    let config2 = ContextConfig { min_messages: 5, ..config };
    assert_eq!(plan_compaction(&msgs, &config2), 5);
}

#[test]
fn compaction_plan_within_target_does_nothing() {
    let msgs = text_messages(3, 40);
    let config = ContextConfig::default();
    assert_eq!(plan_compaction(&msgs, &config), 0);
}

#[test]
fn summary_request_lists_text_blocks() {
    let msgs = vec![
        LlmMessage::user("first".to_string()),
        LlmMessage {
            role: "assistant".into(),
            content: vec![
                ContentBlock::Text { text: "second".into() },
                ContentBlock::ToolUse { id: "t".into(), name: "n".into(), input: "{}".into() },
            ],
        },
        LlmMessage::user("third".to_string()),
    ];
    let r = summary_request_text(&msgs, 2);
    assert_eq!(
        r,
        "Please summarize this conversation:\n\nuser: first\n\nassistant: second\n\n"
    );
}

#[test]
fn apply_compaction_replaces_prefix() {
    let msgs = text_messages(4, 40);
    let (out, result) = apply_compaction(msgs, 3, "short summary".to_string());
    assert_eq!(out.len(), 2);
    assert_eq!(result.compacted_count, 3);
    assert_eq!(result.summary, "short summary");
    // 3 messages of 10 tokens each, summary estimate 13/4 = 3
    assert_eq!(result.tokens_saved, 27);
    match &out[0].content[0] {
        ContentBlock::Text { text } => {
            assert_eq!(text, "[Previous conversation summary]\nshort summary")
        }
        _ => panic!("expected text"),
    }
    assert_eq!(out[0].role, "user");
}

#[test]
fn check_context_asks_for_flush_near_limit() {
    let config = ContextConfig {
        max_tokens: 20_000,
        target_tokens: 10_000,
        reserve_tokens: 0,
        min_messages: 4,
        memory_flush: MemoryFlushConfig::default(),
    };
    let mgr = ContextManager::new(config);
    // 12_500 tokens: past 20_000 - 8_000 but under 20_000
    let near = vec![LlmMessage::user("z".repeat(50_000))];
    assert!(mgr.should_trigger_memory_flush(&near));
    match mgr.check_context(&near) {
        ContextCheckResult::NeedsMemoryFlush { system_prompt, prompt } => {
            assert!(system_prompt.contains("nearing compaction"));
            assert!(prompt.contains("NO_REPLY"));
        }
        _ => panic!("expected a flush"),
    }
    let far = vec![LlmMessage::user("z".repeat(400))];
    assert!(!mgr.should_trigger_memory_flush(&far));
    assert!(matches!(mgr.check_context(&far), ContextCheckResult::NoAction));
    assert!(!mgr.is_approaching_limit(&far));
    assert!(mgr.is_approaching_limit(&vec![LlmMessage::user("z".repeat(70_000))]));
}

#[test]
fn limits_step_decides_after_pruning() {
    let config = ContextConfig {
        max_tokens: 1000,
        target_tokens: 500,
        reserve_tokens: 100,
        min_messages: 2,
        memory_flush: MemoryFlushConfig::default(),
    };
    let mut small = vec![LlmMessage::user("hello".to_string())];
    assert!(matches!(limits_step(&mut small, &config), LimitStep::Within));

    let mut big: Vec<LlmMessage> = (0..10).map(|i| LlmMessage::user(format!("{}{}", i, "x".repeat(400)))).collect();
    match limits_step(&mut big, &config) {
        LimitStep::Fold { split, request } => {
            assert!(split > 0 && split <= 8);
            assert!(request.starts_with("Please summarize this conversation:"));
        }
        _ => panic!("expected a fold"),
    }
    let mut two: Vec<LlmMessage> = (0..2).map(|_| LlmMessage::user("y".repeat(2000))).collect();
    assert!(matches!(limits_step(&mut two, &config), LimitStep::NothingToFold));
}
