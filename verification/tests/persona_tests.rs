use clawhive::persona::{
    clamp_to_budget, load_persona, load_persona_from_workspace, truncate_context_file, Persona,
    WorkspacePrompts,
};

fn make_persona() -> Persona {
    Persona {
        agent_id: "test".into(),
        name: "Test".into(),
        emoji: None,
        agents_md: String::new(),
        soul_md: String::new(),
        user_md: String::new(),
        identity_md: String::new(),
        tools_md: String::new(),
        heartbeat_md: String::new(),
        bootstrap_md: String::new(),
        memory_md: String::new(),
        peers_context: String::new(),
        group_members_context: String::new(),
    }
}

#[test]
fn has_heartbeat_tasks_detects_content() {
    let persona = Persona {
        heartbeat_md: "# HEARTBEAT.md\n\n# Just comments".into(),
        ..make_persona()
    };
    assert!(!persona.has_heartbeat_tasks());

    let persona2 = Persona {
        heartbeat_md: "# HEARTBEAT.md\n- Check email".into(),
        ..make_persona()
    };
    assert!(persona2.has_heartbeat_tasks());
}

#[test]
fn truncate_context_file_preserves_short_content() {
    let short = "Hello world";
    let result = truncate_context_file(short, "TEST.md", 100);
    assert_eq!(result, "Hello world");
}

#[test]
fn truncate_context_file_truncates_long_content() {
    let long_content: String = "A".repeat(1000);
    let result = truncate_context_file(&long_content, "TEST.md", 100);
    assert!(result.contains("truncated, read TEST.md for full content"));
    assert!(result.len() < long_content.len());
    assert!(result.starts_with(&"A".repeat(70)));
    assert!(result.ends_with(&"A".repeat(20)));
    assert!(result.contains("kept 70+20 chars of 1000"));
}

#[test]
fn truncate_context_file_handles_multibyte_unicode() {
    let content = "\u{4f60}".repeat(100);
    let result = truncate_context_file(&content, "TEST.md", 50);
    assert!(result.contains("truncated"));
    assert!(!result.is_empty());
    assert!(result.starts_with(&"\u{4f60}".repeat(35)));
}

#[test]
fn clamp_to_budget_truncates_with_ellipsis() {
    let content = "Hello, world! This is a test.";
    let clamped = clamp_to_budget(content, 10);
    assert_eq!(clamped.chars().count(), 10);
    assert!(clamped.ends_with('\u{2026}'));
}

#[test]
fn clamp_to_budget_preserves_short_content() {
    let content = "Short";
    let clamped = clamp_to_budget(content, 100);
    assert_eq!(clamped, "Short");
}

#[test]
fn clamp_to_budget_handles_zero_budget() {
    let clamped = clamp_to_budget("Hello", 0);
    assert_eq!(clamped, "");
}

#[test]
fn clamp_to_budget_handles_multibyte() {
    let content = "\u{4f60}".repeat(20);
    let clamped = clamp_to_budget(&content, 5);
    assert_eq!(clamped.chars().count(), 5);
    assert!(clamped.ends_with('\u{2026}'));
}

#[test]
fn assembled_system_prompt_combines_parts() {
    let persona = Persona {
        agents_md: "You are helpful.".into(),
        soul_md: "Be warm and friendly.".into(),
        user_md: "Name: Dragon".into(),
        identity_md: "Name: TestBot".into(),
        tools_md: "SSH: localhost".into(),
        ..make_persona()
    };
    let assembled = persona.assembled_system_prompt();
    assert!(assembled.contains("You are helpful."));
    assert!(assembled.contains("# Project Context"));
    assert!(assembled.contains("## SOUL.md"));
    assert!(assembled.contains("Be warm"));
    assert!(assembled.contains("## IDENTITY.md"));
    assert!(assembled.contains("## USER.md"));
    assert!(assembled.contains("## TOOLS.md"));
}

#[test]
fn assembled_system_prompt_exact_layout() {
    let persona = Persona {
        agents_md: "Core.".into(),
        tools_md: "SSH info.\n\n".into(),
        peers_context: "Peers".into(),
        ..make_persona()
    };
    assert_eq!(
        persona.assembled_system_prompt(),
        "Core.\n\n# Project Context\n\nThe following project context files have been loaded:\n\n## TOOLS.md\n\nSSH info.\n\nPeers"
    );
}

#[test]
fn assembled_system_prompt_minimal_excludes_heartbeat_bootstrap() {
    let persona = Persona {
        soul_md: "Be warm.".into(),
        tools_md: "SSH info.".into(),
        heartbeat_md: "- Check email".into(),
        bootstrap_md: "Welcome!".into(),
        memory_md: "User prefers dark mode.".into(),
        ..make_persona()
    };
    let minimal = persona.assembled_system_prompt_minimal();
    assert!(minimal.contains("## SOUL.md"));
    assert!(minimal.contains("## TOOLS.md"));
    assert!(!minimal.contains("HEARTBEAT.md"));
    assert!(!minimal.contains("BOOTSTRAP.md"));
    assert!(!minimal.contains("MEMORY.md"));
    assert!(minimal.contains("embody its persona and tone"));
    let full = persona.assembled_system_prompt();
    assert!(full.contains("## HEARTBEAT.md"));
    assert!(full.contains("## BOOTSTRAP.md"));
    assert!(full.contains("## MEMORY.md"));
}

#[test]
fn assembled_system_prompt_empty_context_no_project_section() {
    let persona = Persona { agents_md: "Core instructions.".into(), ..make_persona() };
    let assembled = persona.assembled_system_prompt();
    assert_eq!(assembled, "Core instructions.");
}

#[test]
fn agents_md_gets_truncation_protection() {
    let persona = Persona { agents_md: "X".repeat(25_000), ..make_persona() };
    let assembled = persona.assembled_system_prompt();
    assert!(assembled.contains("truncated, read AGENTS.md for full content"));
}

#[test]
fn total_budget_skips_late_files() {
    let big = "y".repeat(19_000);
    let persona = Persona {
        soul_md: big.clone(),
        tools_md: big.clone(),
        identity_md: big.clone(),
        user_md: big.clone(),
        heartbeat_md: big.clone(),
        bootstrap_md: big.clone(),
        memory_md: big.clone(),
        ..make_persona()
    };
    // 7 files of 19_000 bytes all fit in 150_000
    let full = persona.assembled_system_prompt();
    assert!(!full.contains("skipped, total context limit reached"));
    let huge = "\u{4f60}".repeat(19_000);
    let persona2 = Persona {
        soul_md: huge.clone(),
        tools_md: huge.clone(),
        identity_md: huge.clone(),
        user_md: huge.clone(),
        heartbeat_md: huge.clone(),
        ..make_persona()
    };
    let full2 = persona2.assembled_system_prompt();
    assert!(full2.contains("## HEARTBEAT.md\n\n[\u{2026}skipped, total context limit reached\u{2026}]"));
}

#[test]
fn with_contexts_and_heartbeat_content() {
    let p = make_persona()
        .with_peers_context("peers".to_string())
        .with_group_members_context("group".to_string());
    assert_eq!(p.peers_context, "peers");
    assert_eq!(p.group_members_context, "group");
    let p2 = Persona { heartbeat_md: "- task".into(), ..p };
    assert_eq!(p2.heartbeat_content(), "- task");
    let prompt = p2.assembled_system_prompt();
    assert!(prompt.ends_with("\npeers\n\ngroup"));
}

#[test]
fn persona_from_workspace_prefers_uppercase_memory() {
    let files = WorkspacePrompts {
        agents: Some("Be helpful.".into()),
        soul: None,
        user: None,
        identity: None,
        tools: None,
        heartbeat: None,
        bootstrap: None,
        memory: None,
        memory_lowercase: Some("lower".into()),
    };
    let p = load_persona_from_workspace("test", "TestBot", Some("🤖"), files);
    assert_eq!(p.agent_id, "test");
    assert_eq!(p.emoji, Some("🤖".to_string()));
    assert_eq!(p.agents_md, "Be helpful.");
    assert!(p.soul_md.is_empty());
    assert_eq!(p.memory_md, "lower");
}

#[test]
fn legacy_persona_merges_prompts() {
    let p = load_persona("a", "A", None, Some("sys".into()), Some("style".into()), None);
    assert_eq!(p.agents_md, "sys\n\n## Style\nstyle");
    assert!(p.emoji.is_none());
}

#[test]
fn assembled_system_prompt_includes_peers() {
    let persona = Persona {
        agents_md: "You are helpful.".into(),
        peers_context: "## 你的同事\n- **🦀 小螃蟹1号** (Code Engineer)".into(),
        ..make_persona()
    };
    let assembled = persona.assembled_system_prompt();
    assert!(assembled.contains("你的同事"));
    assert!(assembled.contains("小螃蟹1号"));
}

#[test]
fn assembled_system_prompt_has_project_context_section() {
    let persona = Persona {
        agents_md: "Core instructions.".into(),
        soul_md: "Warm persona.".into(),
        tools_md: "SSH info.".into(),
        ..make_persona()
    };
    let assembled = persona.assembled_system_prompt();
    assert!(assembled.contains("# Project Context"));
    assert!(assembled.contains("The following project context files have been loaded:"));
    assert!(assembled.contains("## SOUL.md"));
    assert!(assembled.contains("## TOOLS.md"));
}

#[test]
fn assembled_system_prompt_soul_embody_instruction() {
    let persona = Persona { soul_md: "Be playful.".into(), ..make_persona() };
    let assembled = persona.assembled_system_prompt();
    assert!(assembled.contains("embody its persona and tone"));
    assert!(assembled.contains("Avoid stiff, generic replies"));
}

#[test]
fn assembled_system_prompt_no_soul_no_embody_instruction() {
    let persona = Persona { tools_md: "SSH info.".into(), ..make_persona() };
    let assembled = persona.assembled_system_prompt();
    assert!(assembled.contains("# Project Context"));
    assert!(!assembled.contains("embody its persona"));
}

#[test]
fn assembled_system_prompt_includes_bootstrap() {
    let persona = Persona { bootstrap_md: "Welcome! First-run setup.".into(), ..make_persona() };
    let assembled = persona.assembled_system_prompt();
    assert!(assembled.contains("## BOOTSTRAP.md"));
    assert!(assembled.contains("First-run setup"));
}

#[test]
fn assembled_system_prompt_includes_heartbeat() {
    let persona = Persona { heartbeat_md: "- Check email every hour".into(), ..make_persona() };
    let assembled = persona.assembled_system_prompt();
    assert!(assembled.contains("## HEARTBEAT.md"));
    assert!(assembled.contains("Check email every hour"));
}

#[test]
fn truncate_context_file_handles_emoji() {
    let content = "\u{1F600}".repeat(100);
    let result = truncate_context_file(&content, "TEST.md", 50);
    assert!(result.contains("truncated"));
    assert!(!result.is_empty());
}

#[test]
fn assembled_system_prompt_includes_memory() {
    let persona = Persona { memory_md: "User prefers dark mode.".into(), ..make_persona() };
    let assembled = persona.assembled_system_prompt();
    assert!(assembled.contains("## MEMORY.md"));
    assert!(assembled.contains("dark mode"));
}

#[test]
fn assembled_system_prompt_minimal_excludes_memory() {
    let persona = Persona {
        soul_md: "Be warm.".into(),
        memory_md: "User prefers dark mode.".into(),
        ..make_persona()
    };
    let minimal = persona.assembled_system_prompt_minimal();
    assert!(minimal.contains("## SOUL.md"));
    assert!(!minimal.contains("MEMORY.md"));
}

#[test]
fn load_persona_missing_files_fallback_empty() {
    let files = WorkspacePrompts {
        agents: None,
        soul: None,
        user: None,
        identity: None,
        tools: None,
        heartbeat: None,
        bootstrap: None,
        memory: None,
        memory_lowercase: None,
    };
    let persona = load_persona_from_workspace("test", "Test", None, files);
    assert!(persona.agents_md.is_empty());
    assert!(persona.soul_md.is_empty());
    assert!(persona.heartbeat_md.is_empty());
}

#[test]
fn minimal_prompt_equals_full_without_optional_files() {
    let p = Persona { soul_md: "Be warm.".into(), tools_md: "SSH".into(), ..make_persona() };
    assert_eq!(p.assembled_system_prompt_minimal(), p.assembled_system_prompt());
    assert!(p.assembled_system_prompt().contains("embody its persona and tone"));
    let q = Persona { soul_md: "Be warm.".into(), memory_md: "remember".into(), ..make_persona() };
    assert_ne!(q.assembled_system_prompt_minimal(), q.assembled_system_prompt());
}
