use dictate::paste::{
    PastePlan, ClipboardRestore, should_auto_paste, paste_plan, check_accessibility_permission,
    is_text_input_role,
};
use dictate::config::AppConfig;
use dictate::state::{AppState, DictationState, preview_keys_enabled};
use dictate::text::{trim_str, str_eq, chars_to_string, str_to_chars};

#[test]
fn smart_paste_pastes_only_into_text_fields() {
    assert!(should_auto_paste(false, false));
    assert!(should_auto_paste(false, true));
    assert!(!should_auto_paste(true, false));
    assert!(should_auto_paste(true, true));
}

#[test]
fn paste_plan_restores_previous_clipboard() {
    match paste_plan(true, true, Some("kept".to_string())) {
        PastePlan::AutoPaste { restore: ClipboardRestore::Restore(p) } => assert_eq!(p, "kept"),
        _ => panic!("expected an auto paste restoring the clipboard"),
    }
    match paste_plan(true, true, Some(String::new())) {
        PastePlan::AutoPaste { restore: ClipboardRestore::Clear } => {}
        _ => panic!("expected the empty clipboard to be cleared"),
    }
    match paste_plan(false, false, None) {
        PastePlan::AutoPaste { restore: ClipboardRestore::Clear } => {}
        _ => panic!("expected an auto paste clearing the clipboard"),
    }
    assert!(matches!(paste_plan(true, false, Some("kept".to_string())), PastePlan::ClipboardOnly));
}

#[test]
fn accessibility_is_granted_where_no_permission_model_exists() {
    assert!(check_accessibility_permission());
}

#[test]
fn config_defaults() {
    let c = AppConfig::default();
    assert_eq!(c.hotkey, "alt+space");
    assert_eq!(c.selected_model, "base.en");
    assert!(c.smart_paste);
    assert_eq!(c.language, "en");
    assert!(c.vocab_enabled);
    assert!(!c.translation_enabled);
    assert_eq!(c.translation_target_lang, "en");
    assert_eq!(c.translation_model, "nllb-200-distilled-600M-int8");
}

#[test]
fn app_state_defaults() {
    let s = AppState::default();
    assert!(matches!(s.dictation_state, DictationState::Idle));
    assert!(s.model_path.is_none());
    assert_eq!(s.selected_model, "base.en");
    assert!(s.pending_original_text.is_none());
    assert!(!preview_keys_enabled(&s.dictation_state));
}

#[test]
fn text_helpers() {
    assert_eq!(trim_str("  hello world \n"), "hello world");
    assert_eq!(trim_str("   "), "");
    // Unicode whitespace such as the no-break space is trimmed too
    assert_eq!(trim_str("\u{a0}hello\u{a0}"), "hello");
    assert!(str_eq("abc", "abc"));
    assert!(!str_eq("abc", "abd"));
    assert!(!str_eq("abc", "abcd"));
    let chars = str_to_chars("héllo");
    assert_eq!(chars.len(), 5);
    assert_eq!(chars_to_string(&chars), "héllo");
}

#[test]
fn text_input_roles() {
    assert!(is_text_input_role("AXTextField"));
    assert!(is_text_input_role("AXTextArea"));
    assert!(is_text_input_role("AXComboBox"));
    assert!(is_text_input_role("AXSearchField"));
    assert!(is_text_input_role("AXWebArea"));
    assert!(!is_text_input_role("AXButton"));
    assert!(!is_text_input_role(""));
}
