use dictate::langid::{nllb_lang_for_app_lang, nllb_lang_for_detected, resolve_source_nllb_lang};
use dictate::translate::{TranslationJob, TranslationPlan, plan_translation, finish_translation};

fn job(text: &str, source: &str, target: &str) -> TranslationJob {
    TranslationJob {
        text: text.to_string(),
        source_lang: source.to_string(),
        target_lang: target.to_string(),
    }
}

#[test]
fn app_language_codes_map_to_model_tags() {
    assert_eq!(nllb_lang_for_app_lang("en").as_deref(), Some("eng_Latn"));
    assert_eq!(nllb_lang_for_app_lang("es").as_deref(), Some("spa_Latn"));
    assert_eq!(nllb_lang_for_app_lang("uk").as_deref(), Some("ukr_Cyrl"));
    assert_eq!(nllb_lang_for_app_lang("zh").as_deref(), Some("zho_Hans"));
    assert!(nllb_lang_for_app_lang("tlh").is_none());
}

#[test]
fn detected_codes_map_to_model_tags() {
    assert_eq!(nllb_lang_for_detected("eng").as_deref(), Some("eng_Latn"));
    assert_eq!(nllb_lang_for_detected("cmn").as_deref(), Some("zho_Hans"));
    assert!(nllb_lang_for_detected("lat").is_none());
}

#[test]
fn explicit_source_language_is_looked_up() {
    assert_eq!(resolve_source_nllb_lang("de", "egal was").as_deref(), Some("deu_Latn"));
    assert!(resolve_source_nllb_lang("tlh", "whatever").is_none());
}

#[test]
fn auto_source_runs_language_identification() {
    // Cyrillic text: identification must find Russian, not hand the
    // input through
    let tag = resolve_source_nllb_lang("auto", "Привет, как у тебя дела сегодня вечером?");
    assert_eq!(tag.as_deref(), Some("rus_Cyrl"));
    let tag = resolve_source_nllb_lang(
        "auto",
        "The quick brown fox jumps over the lazy dog near the river bank today.",
    );
    assert_eq!(tag.as_deref(), Some("eng_Latn"));
}

#[test]
fn plan_requires_a_loaded_model() {
    let p = plan_translation(&job("hello", "en", "es"), false);
    assert!(matches!(p, TranslationPlan::NotLoaded { .. }));
}

#[test]
fn plan_empty_input_returns_empty() {
    let p = plan_translation(&job("   ", "en", "es"), true);
    assert!(matches!(p, TranslationPlan::Empty));
}

#[test]
fn plan_rejects_unsupported_target() {
    match plan_translation(&job("hello", "en", "tlh"), true) {
        TranslationPlan::Unsupported { message } => {
            assert_eq!(message, "Unsupported target language 'tlh'")
        }
        _ => panic!("expected an unsupported target"),
    }
}

#[test]
fn plan_same_language_skips_the_decoder() {
    match plan_translation(&job("  hello there  ", "en", "en"), true) {
        TranslationPlan::Unchanged { text } => assert_eq!(text, "hello there"),
        _ => panic!("expected the text unchanged"),
    }
}

#[test]
fn plan_runs_the_decoder_towards_the_target_tag() {
    match plan_translation(&job("good morning", "en", "es"), true) {
        TranslationPlan::Run { text, target_tag } => {
            assert_eq!(text, "good morning");
            assert_eq!(target_tag, "spa_Latn");
        }
        _ => panic!("expected a decoder run"),
    }
}

#[test]
fn finish_translation_trims_and_falls_back() {
    assert_eq!(finish_translation("source", "  buenos días  "), "buenos días");
    assert_eq!(finish_translation("source", "   "), "source");
}
