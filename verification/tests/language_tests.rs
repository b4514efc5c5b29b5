use clawhive::language::{
    detect_explicit_language_preference, detect_recent_user_language, detect_response_language,
    detect_text_language, is_cjk_char, is_language_guard_exempt, language_guard_mismatch,
    language_policy_prompt, normalize_text_for_language_detection, LanguagePrefs, ResponseLanguage,
};
use clawhive::session::SessionMessage;

#[test]
fn language_prefs_detect_text_language_handles_cjk_and_english() {
    assert_eq!(detect_text_language("请你用中文回答我"), Some(ResponseLanguage::Chinese));
    assert_eq!(detect_text_language("Please answer in English"), Some(ResponseLanguage::English));
}

#[test]
fn language_prefs_detect_text_language_returns_none_for_ambiguous_short_input() {
    assert_eq!(detect_text_language("ok"), None);
    assert_eq!(detect_text_language("1"), None);
    assert_eq!(detect_text_language("   "), None);
    assert_eq!(detect_text_language("hi there"), Some(ResponseLanguage::English));
}

#[test]
fn language_prefs_language_policy_prompt_includes_target_language() {
    let zh = language_policy_prompt(ResponseLanguage::Chinese);
    assert!(zh.contains("Chinese"));
    let en = language_policy_prompt(ResponseLanguage::English);
    assert!(en.starts_with("\n\n## Language Policy\nRespond in English by default"));
}

#[test]
fn explicit_preferences() {
    assert_eq!(detect_explicit_language_preference("请用中文回复"), Some(ResponseLanguage::Chinese));
    assert_eq!(detect_explicit_language_preference("用中文还是英文回复"), None);
    assert_eq!(detect_explicit_language_preference("以后用中文"), Some(ResponseLanguage::Chinese));
    assert_eq!(detect_explicit_language_preference("Please Reply In English"), Some(ResponseLanguage::English));
    assert_eq!(detect_explicit_language_preference("in chinese or in english"), None);
    assert_eq!(ResponseLanguage::Chinese.as_str(), "zh");
    assert!(is_cjk_char('你'));
    assert!(!is_cjk_char('a'));
}

#[test]
fn normalize_strips_code_and_links() {
    let text = "Here is `code` text\n```\nlet x = 1;\n```\nSee https://example.com now";
    assert_eq!(normalize_text_for_language_detection(text), "Here is code text See now");
    assert_eq!(detect_response_language("```\n中文注释\n```\nAll good here"), Some(ResponseLanguage::English));
}

#[test]
fn guard_exemption_and_mismatch() {
    assert!(is_language_guard_exempt("please translate this"));
    assert!(is_language_guard_exempt("翻译一下"));
    assert_eq!(
        language_guard_mismatch("你好", "Hello there, friend", Some(ResponseLanguage::Chinese)),
        Some(ResponseLanguage::English)
    );
    assert_eq!(language_guard_mismatch("translate", "Hello there", Some(ResponseLanguage::Chinese)), None);
    assert_eq!(language_guard_mismatch("你好", "你好呀", Some(ResponseLanguage::Chinese)), None);
}

fn msg(role: &str, content: &str) -> SessionMessage {
    SessionMessage { role: role.to_string(), content: content.to_string(), timestamp_ms: None }
}

#[test]
fn prefs_resolve_and_remember() {
    let mut prefs = LanguagePrefs::new();
    assert_eq!(prefs.get("u1"), None);
    let history = vec![msg("user", "你好"), msg("assistant", "Hello there friend")];
    assert_eq!(detect_recent_user_language(&history), Some(ResponseLanguage::Chinese));
    // no language in the message: fall back to history
    assert_eq!(prefs.resolve_target_language("ok", "u1", &history), Some(ResponseLanguage::Chinese));
    assert_eq!(prefs.get("u1"), None);
    // explicit request is remembered
    assert_eq!(
        prefs.resolve_target_language("reply in english please", "u1", &history),
        Some(ResponseLanguage::English)
    );
    assert_eq!(prefs.get("u1"), Some(ResponseLanguage::English));
    assert_eq!(prefs.resolve_target_language("ok", "u1", &history), Some(ResponseLanguage::English));
    prefs.set("u1", ResponseLanguage::Chinese);
    assert_eq!(prefs.get("u1"), Some(ResponseLanguage::Chinese));
    assert_eq!(prefs.get("u2"), None);
}

#[test]
fn orchestrator_detect_text_language_handles_cjk_and_english() {
    assert_eq!(detect_text_language("请你用中文回答我"), Some(ResponseLanguage::Chinese));
    assert_eq!(detect_text_language("Please answer in English"), Some(ResponseLanguage::English));
}

#[test]
fn orchestrator_detect_text_language_returns_none_for_ambiguous_short_input() {
    assert_eq!(detect_text_language("ok"), None);
    assert_eq!(detect_text_language("1"), None);
}

#[test]
fn orchestrator_language_policy_prompt_includes_target_language() {
    let zh = language_policy_prompt(ResponseLanguage::Chinese);
    assert!(zh.contains("Chinese"));
    let en = language_policy_prompt(ResponseLanguage::English);
    assert!(en.contains("English"));
}
