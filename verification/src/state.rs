//! The user-visible dictation state and the controller's private state.
//!
//! `DictationState` is the sole observable state of the system: a
//! closed tagged union the controller emits on every transition.
//! `AppState` adds the settings and the pending-text slots that the
//! preview states resolve from.

use vstd::prelude::*;
use vstd::string::StringExecFns;
use crate::vocabulary::CorrectionApplied;

verus! {

/// The sole observable state of the dictation engine.
pub enum DictationState {
    Idle,
    Recording {
        duration_ms: u64,
        partial_text: Option<String>,
        partial_translation: Option<String>,
        source_lang: String,
        target_lang: String,
    },
    Processing,
    Translating,
    Downloading {
        /// Download progress in thousandths of the whole.
        progress_per_mille: u16,
    },
    Error {
        message: String,
    },
    CorrectionPreview {
        text: String,
        original_text: String,
        corrections: Vec<CorrectionApplied>,
    },
    TranslationPreview {
        source_text: String,
        translated_text: String,
        source_lang: String,
        target_lang: String,
    },
}

/// The event payload the state is emitted under.
pub struct StatePayload {
    pub state: DictationState,
}

/// The controller's private state: the observable state, the settings,
/// and the pending texts the preview states resolve from.
pub struct AppState {
    pub dictation_state: DictationState,
    pub model_path: Option<String>,
    pub selected_model: String,
    pub smart_paste: bool,
    pub language: String,
    pub vocab_enabled: bool,
    pub translation_enabled: bool,
    pub translation_target_lang: String,
    pub translation_model: String,
    pub pending_original_text: Option<String>,
    pub pending_corrected_text: Option<String>,
    pub pending_source_text: Option<String>,
    pub pending_translated_text: Option<String>,
}

/// A well-formed observable state: a partial translation only rides on
/// a partial text, preview states carry the non-empty text they
/// preview, and a download progress never exceeds the whole.
pub open spec fn state_wf(s: DictationState) -> bool {
    match s {
        DictationState::Recording { partial_text, partial_translation, .. } => partial_translation
            is Some ==> partial_text is Some,
        DictationState::Downloading { progress_per_mille } => progress_per_mille <= 1000,
        DictationState::CorrectionPreview { original_text, .. } => original_text@.len() > 0,
        DictationState::TranslationPreview { source_text, .. } => source_text@.len() > 0,
        _ => true,
    }
}

/// A well-formed controller state: the observable state is well
/// formed, a partial translation is only shown while translation is
/// enabled, and the stored pending texts that preview states show as
/// their subject are never empty.
pub open spec fn app_wf(s: AppState) -> bool {
    &&& state_wf(s.dictation_state)
    &&& (s.dictation_state matches DictationState::Recording { partial_translation, .. }
        && partial_translation is Some ==> s.translation_enabled)
    &&& (s.pending_source_text matches Some(t) ==> t@.len() > 0)
    &&& (s.pending_original_text matches Some(t) ==> t@.len() > 0)
}

impl Default for AppState {
    fn default() -> (r: Self)
        ensures
            r.dictation_state is Idle,
            r.model_path is None,
            r.selected_model@ == "base.en"@,
            r.smart_paste,
            r.language@ == "en"@,
            r.vocab_enabled,
            !r.translation_enabled,
            r.translation_target_lang@ == "en"@,
            r.translation_model@ == crate::mt_models::default_translation_model_spec(),
            r.pending_original_text is None,
            r.pending_corrected_text is None,
            r.pending_source_text is None,
            r.pending_translated_text is None,
            app_wf(r),
    {
        AppState {
            dictation_state: DictationState::Idle,
            model_path: None,
            selected_model: String::from_str("base.en"),
            smart_paste: true,
            language: String::from_str("en"),
            vocab_enabled: true,
            translation_enabled: false,
            translation_target_lang: String::from_str("en"),
            translation_model: String::from_str("nllb-200-distilled-600M-int8"),
            pending_original_text: None,
            pending_corrected_text: None,
            pending_source_text: None,
            pending_translated_text: None,
        }
    }
}

/// Whether the preview key interception (Enter/Escape) must be active:
/// exactly in the preview states.
pub fn preview_keys_enabled(state: &DictationState) -> (r: bool)
    ensures
        r == (state is CorrectionPreview || state is TranslationPreview),
{
    match state {
        DictationState::CorrectionPreview { .. } => true,
        DictationState::TranslationPreview { .. } => true,
        _ => false,
    }
}

} // verus!
