use clawhive::paths::is_safe_relative_path;
use clawhive::slash_commands::{parse_command, SlashCommand};

#[test]
fn parse_new_command() {
    assert_eq!(parse_command("/new"), Some(SlashCommand::New { model_hint: None }));
    assert_eq!(
        parse_command("/new opus"),
        Some(SlashCommand::New { model_hint: Some("opus".to_string()) })
    );
    assert_eq!(
        parse_command("  /new  sonnet  "),
        Some(SlashCommand::New { model_hint: Some("sonnet".to_string()) })
    );
}

#[test]
fn parse_model_command() {
    assert_eq!(parse_command("/model"), Some(SlashCommand::Model));
    assert_eq!(parse_command("/MODEL"), Some(SlashCommand::Model));
}

#[test]
fn parse_status_command() {
    assert_eq!(parse_command("/status"), Some(SlashCommand::Status));
}

#[test]
fn parse_skill_commands() {
    assert_eq!(
        parse_command("/skill analyze https://example.com/skill.zip"),
        Some(SlashCommand::SkillAnalyze { source: "https://example.com/skill.zip".to_string() })
    );
    assert_eq!(
        parse_command("/skill install ./skills/my-skill"),
        Some(SlashCommand::SkillInstall { source: "./skills/my-skill".to_string() })
    );
    assert_eq!(
        parse_command("/skill confirm tok_123"),
        Some(SlashCommand::SkillConfirm { token: "tok_123".to_string() })
    );
    assert_eq!(parse_command("/skill"), None);
    assert_eq!(parse_command("/skill install"), None);
}

#[test]
fn parse_not_a_command() {
    assert_eq!(parse_command("hello"), None);
    assert_eq!(parse_command(""), None);
    assert_eq!(parse_command("not a /command"), None);
    assert_eq!(parse_command("/unknown"), None);
    assert_eq!(parse_command("/reset"), None);
}

#[test]
fn tar_path_traversal_entries_are_rejected_by_safety_check() {
    assert!(!is_safe_relative_path("../escape.txt"));
    assert!(!is_safe_relative_path("skill/../escape.txt"));
    assert!(is_safe_relative_path("skill/SKILL.md"));
}

use clawhive::slash_commands::{build_post_reset_prompt, format_status_response};

#[test]
fn post_reset_prompt_contains_key_elements() {
    let prompt = build_post_reset_prompt("test-agent");
    assert!(prompt.contains("Post-Reset Audit"));
    assert!(prompt.contains("AGENTS.md"));
    assert!(prompt.contains("SOUL.md"));
    assert!(prompt.contains("MEMORY.md"));
    assert!(prompt.contains("test-agent"));
}

#[test]
fn status_response_format() {
    let status = format_status_response("main", "sonnet-4", "session:123");
    assert!(status.contains("main"));
    assert!(status.contains("sonnet-4"));
    assert!(status.contains("session:123"));
}

#[test]
fn commands_read_the_trimmed_text() {
    assert_eq!(parse_command("   /status  "), parse_command("/status"));
    assert_eq!(parse_command("status"), None);
    assert_eq!(parse_command("  hello /status"), None);
}
