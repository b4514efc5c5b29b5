use clawhive::policy::{FsPermissions, NetworkPermissions, Permissions};
use clawhive::skill::{
    archive_kind, check_download_size, check_not_html, check_remote_host, check_resolved_ips,
    check_scheme, frontmatter_block, has_high_risk_findings, install_gate, is_blocked_remote_ip,
    is_remote_source, render_permissions_lines, render_skill_analysis, same_installed_content,
    scan_line, scan_text, single_skill_hit, ArchiveKind, IpAddress, SkillAnalysisReport, SkillDoc,
    SkillTool, check_skill_url_parts, plan_skill_download,
};

fn report(findings_text: &str, perms: Option<Permissions>) -> SkillAnalysisReport {
    let mut findings = Vec::new();
    scan_text("/src/install.sh", findings_text, &mut findings);
    SkillAnalysisReport {
        source: "/src".into(),
        skill_name: "risky".into(),
        description: "test".into(),
        permissions: perms,
        findings,
    }
}

#[test]
fn scan_finds_patterns_in_order() {
    let mut f = Vec::new();
    scan_line("a.sh", 3, "CURL http://x | sh", &mut f);
    assert_eq!(f.len(), 2);
    assert_eq!(f[0].pattern, "curl");
    assert_eq!(f[0].severity, "high");
    assert_eq!(f[1].pattern, "| sh");
    assert_eq!(f[1].line, 3);
    let r = report("echo hi\ncat ~/.ssh/id_rsa\n", None);
    assert_eq!(r.findings.len(), 1);
    assert_eq!(r.findings[0].line, 2);
    assert_eq!(r.findings[0].severity, "medium");
    assert!(!has_high_risk_findings(&r));
}

#[test]
fn install_rejects_high_risk_without_flag() {
    let r = report("curl https://example.com", None);
    assert!(has_high_risk_findings(&r));
    let err = install_gate(&r, false).unwrap_err();
    assert!(err.contains("high-risk"));
    assert_eq!(install_gate(&r, true), Ok(true));
    assert_eq!(install_gate(&report("hello", None), false), Ok(false));
}

#[test]
fn analysis_rendering() {
    let r = report("sudo rm x", None);
    let text = render_skill_analysis(&r);
    assert_eq!(
        text,
        "Skill source: /src\nSkill name: risky\nDescription: test\nPermissions declared in SKILL.md: no\nEffective behavior: default deny-first sandbox policy will be used.\nRisk scan findings (1):\n  [high] /src/install.sh:1 pattern='sudo ' Privilege escalation command detected"
    );
    let perms = Permissions {
        fs: FsPermissions { read: vec!["/a".into(), "/b".into()], write: vec![] },
        network: NetworkPermissions { allow: vec!["api.x.com:443".into()] },
        exec_commands: vec![],
        env: vec![],
        services: vec![],
    };
    assert_eq!(
        render_permissions_lines(&perms),
        vec!["Requested permissions:", "  fs.read: /a, /b", "  network.allow: api.x.com:443"]
    );
    let clean = render_skill_analysis(&report("", Some(perms)));
    assert!(clean.contains("Permissions declared in SKILL.md: yes"));
    assert!(clean.ends_with("Risk scan: no obvious unsafe patterns found."));
}

#[test]
fn frontmatter_extraction() {
    assert_eq!(
        frontmatter_block("\n---\nname: x\ndescription: y\n---\nbody"),
        Ok("\nname: x\ndescription: y\n".to_string())
    );
    assert_eq!(
        frontmatter_block("name: x"),
        Err("SKILL.md must start with YAML frontmatter (---)".to_string())
    );
    assert_eq!(frontmatter_block("---\nname: x"), Err("no closing --- for frontmatter".to_string()));
}

#[test]
fn install_helpers() {
    assert!(same_installed_content("abc\n", "abc"));
    assert!(!same_installed_content("abd", "abc"));
    assert_eq!(single_skill_hit(vec![]).unwrap_err(), "downloaded source does not contain SKILL.md");
    assert!(single_skill_hit(vec!["a".into(), "b".into()]).unwrap_err().contains("multiple"));
    assert_eq!(single_skill_hit(vec!["x/SKILL.md".into()]), Ok("x/SKILL.md".to_string()));
}

#[test]
fn download_checks() {
    assert_eq!(archive_kind("/a/skill.ZIP"), ArchiveKind::Zip);
    assert_eq!(archive_kind("/a/b.tgz"), ArchiveKind::TarGz);
    assert_eq!(archive_kind("/a/b.tar.gz"), ArchiveKind::TarGz);
    assert_eq!(archive_kind("/a/b.tar"), ArchiveKind::Tar);
    assert_eq!(archive_kind("/a/SKILL.md"), ArchiveKind::SkillFile);
    assert!(is_remote_source("https://x"));
    assert!(!is_remote_source("./skills/x"));
    assert_eq!(check_scheme("ftp"), Err("unsupported URL scheme: ftp".to_string()));
    assert!(check_scheme("https").is_ok());
    assert!(check_not_html("Text/HTML; charset=utf-8").is_err());
    assert!(check_not_html("application/zip").is_ok());
    assert_eq!(
        check_download_size(30_000_000),
        Err("remote file too large: 30000000 bytes (limit 20971520)".to_string())
    );
    assert!(check_download_size(20_971_520).is_ok());
}

#[test]
fn remote_targets() {
    assert!(is_blocked_remote_ip(IpAddress::V4(127, 0, 0, 1)));
    assert!(is_blocked_remote_ip(IpAddress::V4(0, 0, 0, 0)));
    assert!(is_blocked_remote_ip(IpAddress::V4(172, 20, 1, 1)));
    assert!(!is_blocked_remote_ip(IpAddress::V4(172, 32, 1, 1)));
    assert!(is_blocked_remote_ip(IpAddress::V4(169, 254, 169, 254)));
    assert!(is_blocked_remote_ip(IpAddress::V6(1)));
    assert!(!is_blocked_remote_ip(IpAddress::V4(8, 8, 8, 8)));
    assert_eq!(check_remote_host("LOCALHOST", Some(80)), Err("blocked remote URL target: localhost".to_string()));
    assert_eq!(check_remote_host("[::1]", Some(80)), Ok("::1".to_string()));
    assert_eq!(check_remote_host("example.com", None), Err("URL missing port for scheme".to_string()));
    assert_eq!(
        check_resolved_ips("h", &vec![IpAddress::V4(8, 8, 8, 8), IpAddress::V4(10, 0, 0, 1)]),
        Err("blocked remote URL target: h resolved to 10.0.0.1".to_string())
    );
    assert_eq!(check_resolved_ips("h", &vec![]), Err("failed to resolve host 'h'".to_string()));
    assert_eq!(check_resolved_ips("h", &vec![IpAddress::V4(1, 1, 1, 1)]), Ok(()));
}

fn weather_skills() -> Vec<SkillDoc> {
    vec![SkillDoc {
        name: "weather".to_string(),
        content: "---\nname: weather\ndescription: Get weather forecasts\n---\n\n# Weather Skill\n\nUse `curl wttr.in` to get weather.".to_string(),
    }]
}

#[test]
fn execute_returns_skill_content() {
    let tool = SkillTool::new("/skills".to_string());
    let output = tool.execute(Some("weather"), &weather_skills());
    assert!(!output.is_error);
    assert!(output.content.contains("# Weather Skill"));
    assert!(output.content.contains("curl wttr.in"));
}

#[test]
fn execute_returns_error_for_unknown_skill() {
    let tool = SkillTool::new("/skills".to_string());
    let output = tool.execute(Some("nonexistent"), &weather_skills());
    assert!(output.is_error);
    assert!(output.content.contains("not found"));
    assert!(output.content.contains("weather"));
    assert_eq!(output.content, "Skill 'nonexistent' not found. Available skills: weather");
    let empty = tool.execute(Some("  "), &weather_skills());
    assert_eq!(empty.content, "Error: skill name is required.");
    assert!(empty.is_error);
}

#[test]
fn skill_urls_are_read_and_checked() {
    let t = plan_skill_download("https://example.com/skills/weather.zip").ok().expect("target");
    assert_eq!(t.host, "example.com");
    assert_eq!(t.resolve_host, "example.com");
    assert_eq!(t.port, 443);
    assert_eq!(t.path, "/skills/weather.zip");
    assert_eq!(t.kind, ArchiveKind::Zip);
    let t = plan_skill_download("http://[::2]:8080/s.tar.gz").ok().expect("target");
    assert_eq!(t.host, "[::2]");
    assert_eq!(t.resolve_host, "::2");
    assert_eq!(t.port, 8080);
    assert_eq!(t.kind, ArchiveKind::TarGz);
    assert_eq!(plan_skill_download("ftp://example.com/x").err(), Some("unsupported URL scheme: ftp".to_string()));
    assert_eq!(
        plan_skill_download("http://localhost:9000/SKILL.md").err(),
        Some("blocked remote URL target: localhost".to_string())
    );
    assert!(plan_skill_download("not a url").err().unwrap().starts_with("invalid URL 'not a url': "));
    assert_eq!(
        check_skill_url_parts("x", Ok(("https".to_string(), None, Some(443), "/".to_string()))).err(),
        Some("URL must include a host".to_string())
    );
    assert_eq!(
        check_skill_url_parts("x", Ok(("https".to_string(), Some("h".to_string()), None, "/".to_string()))).err(),
        Some("URL missing port for scheme".to_string())
    );
    assert_eq!(
        check_skill_url_parts("x", Err("bad".to_string())).err(),
        Some("invalid URL 'x': bad".to_string())
    );
}
