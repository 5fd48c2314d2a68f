//! The dictation controller: every transition of the state machine.
//!
//! Each handler is a pure decision: it takes the controller state and
//! the outcome of whatever the surrounding application probed (the
//! permission check, the capture start, a worker response, a paste
//! attempt) and moves the state, returning the actions the application
//! must carry out — overlay changes, worker requests, pastes, history
//! writes.  The application performs the actions and feeds the next
//! outcome back in.  Every handler preserves well-formedness of the
//! state, so every emitted state satisfies it.

use vstd::prelude::*;
use vstd::string::StringExecFns;
use crate::state::{AppState, DictationState, app_wf};
use crate::vocabulary::{
    Vocabulary, CorrectionApplied, CorrectionResult, apply_corrections, engine_text,
    engine_corrections, sort_by_position,
};
use crate::translate::TranslationJob;
use crate::text::{trim_spec, trim_str, str_eq};

verus! {

/// What the application must do after a transition, in order.
pub enum ControllerAction {
    /// Show the overlay window.
    ShowOverlay,
    /// Hide the overlay window.
    HideOverlay,
    /// Spawn the partial-transcription loop and the level/duration
    /// ticker for the new recording.
    StartStreaming,
    /// Clear the streaming flag and stop the capture, keeping the
    /// recorded samples.
    StopStreaming,
    /// Clear the streaming flag, stop the capture and drop the audio.
    DiscardRecording,
    /// Send the recorded samples to the recognizer as a final request.
    SendAsrFinal,
    /// Paste this text into the focused application.
    Paste { text: String, smart: bool },
    /// Insert a new history entry with this text and duration.
    SaveHistory { text: String, duration_ms: u64 },
    /// Rewrite the most recent history entry's text.
    UpdateHistoryText { text: String },
    /// Send a final translation job to the translation worker.
    SendMtFinal { text: String, source_lang: String, target_lang: String },
}

/// What came back from the recognizer for a final request.
pub enum TranscriptionOutcome {
    Text(String),
    Failed(String),
    TimedOut,
}

/// What came back from the translator for a final job.
pub enum TranslationOutcome {
    Text(String),
    Failed(String),
    TimedOut,
}

/// What came back from a model load.
pub enum ModelLoadOutcome {
    Loaded,
    Failed(String),
    TimedOut,
}

/// The settings fields, which the dictation transitions never touch.
pub open spec fn same_settings(a: AppState, b: AppState) -> bool {
    &&& a.model_path == b.model_path
    &&& a.selected_model == b.selected_model
    &&& a.smart_paste == b.smart_paste
    &&& a.language == b.language
    &&& a.vocab_enabled == b.vocab_enabled
    &&& a.translation_enabled == b.translation_enabled
    &&& a.translation_target_lang == b.translation_target_lang
    &&& a.translation_model == b.translation_model
}

/// The four pending-text slots.
pub open spec fn same_pendings(a: AppState, b: AppState) -> bool {
    &&& a.pending_original_text == b.pending_original_text
    &&& a.pending_corrected_text == b.pending_corrected_text
    &&& a.pending_source_text == b.pending_source_text
    &&& a.pending_translated_text == b.pending_translated_text
}

/// The source language handed to translation: the configured language,
/// with `auto` passed through for detection.
pub fn source_language_for_translation(language: &str) -> (r: String)
    ensures
        r@ == language@,
{
    if str_eq(language, "auto") {
        String::from_str("auto")
    } else {
        language.to_owned()
    }
}

/// The language pair the translation worker is kept in sync with: no
/// source when the language is `auto` (the worker detects it), and the
/// configured target.
pub fn translation_languages(state: &AppState) -> (r: (Option<String>, String))
    ensures
        (r.0 is Some) <==> state.language@ != "auto"@,
        r.0 is Some ==> r.0.unwrap()@ == state.language@,
        r.1@ == state.translation_target_lang@,
{
    let source = if str_eq(state.language.as_str(), "auto") {
        None
    } else {
        Some(state.language.clone())
    };
    (source, state.translation_target_lang.clone())
}

/// The hotkey toggle.  From `Idle` it starts a recording when the
/// permission and the microphone cooperate (the application probes
/// both and passes the results in), from `Recording` it stops and
/// hands the audio to the recognizer, from `Error` it dismisses, and
/// everywhere else it is ignored.  `capture_ok` is consulted only when
/// the permission is granted; `audio_empty` only when a recording
/// stops.
pub fn toggle_recording(
    state: &mut AppState,
    accessibility_ok: bool,
    capture_ok: bool,
    audio_empty: bool,
) -> (actions: Vec<ControllerAction>)
    requires
        app_wf(*old(state)),
    ensures
        app_wf(*final(state)),
        same_settings(*old(state), *final(state)),
        same_pendings(*old(state), *final(state)),
        old(state).dictation_state is Idle && !accessibility_ok ==> {
            &&& (final(state).dictation_state matches DictationState::Error { message } && message@
                == "Accessibility access needed — check System Settings > Privacy > Accessibility"@)
            &&& actions@.len() == 1
            &&& actions@[0] is ShowOverlay
        },
        old(state).dictation_state is Idle && accessibility_ok && !capture_ok ==> {
            &&& (final(state).dictation_state matches DictationState::Error { message } && message@
                == "Microphone access needed — check System Settings > Privacy > Microphone"@)
            &&& actions@.len() == 1
            &&& actions@[0] is ShowOverlay
        },
        old(state).dictation_state is Idle && accessibility_ok && capture_ok ==> {
            &&& final(state).dictation_state matches DictationState::Recording {
                duration_ms,
                partial_text,
                partial_translation,
                source_lang,
                target_lang,
            }
            &&& duration_ms == 0
            &&& partial_text is None
            &&& partial_translation is None
            &&& source_lang@ == old(state).language@
            &&& target_lang@ == old(state).translation_target_lang@
            &&& actions@.len() == 2
            &&& actions@[0] is StartStreaming
            &&& actions@[1] is ShowOverlay
        },
        old(state).dictation_state is Recording && audio_empty ==> {
            &&& final(state).dictation_state is Idle
            &&& actions@.len() == 2
            &&& actions@[0] is StopStreaming
            &&& actions@[1] is HideOverlay
        },
        old(state).dictation_state is Recording && !audio_empty ==> {
            &&& final(state).dictation_state is Processing
            &&& actions@.len() == 2
            &&& actions@[0] is StopStreaming
            &&& actions@[1] is SendAsrFinal
        },
        old(state).dictation_state is Error ==> {
            &&& final(state).dictation_state is Idle
            &&& actions@.len() == 1
            &&& actions@[0] is HideOverlay
        },
        (old(state).dictation_state is Processing || old(state).dictation_state is Translating
            || old(state).dictation_state is Downloading || old(state).dictation_state
            is CorrectionPreview || old(state).dictation_state is TranslationPreview) ==> {
            &&& final(state).dictation_state == old(state).dictation_state
            &&& actions@.len() == 0
        },
{
    let mut actions: Vec<ControllerAction> = Vec::new();
    match &state.dictation_state {
        DictationState::Idle => {
            if !accessibility_ok {
                state.dictation_state = DictationState::Error {
                    message: String::from_str(
                        "Accessibility access needed — check System Settings > Privacy > Accessibility",
                    ),
                };
                actions.push(ControllerAction::ShowOverlay);
            } else if !capture_ok {
                state.dictation_state = DictationState::Error {
                    message: String::from_str(
                        "Microphone access needed — check System Settings > Privacy > Microphone",
                    ),
                };
                actions.push(ControllerAction::ShowOverlay);
            } else {
                let source_lang = source_language_for_translation(state.language.as_str());
                let target_lang = state.translation_target_lang.clone();
                state.dictation_state = DictationState::Recording {
                    duration_ms: 0,
                    partial_text: None,
                    partial_translation: None,
                    source_lang,
                    target_lang,
                };
                actions.push(ControllerAction::StartStreaming);
                actions.push(ControllerAction::ShowOverlay);
            }
        },
        DictationState::Recording { .. } => {
            actions.push(ControllerAction::StopStreaming);
            if audio_empty {
                state.dictation_state = DictationState::Idle;
                actions.push(ControllerAction::HideOverlay);
            } else {
                state.dictation_state = DictationState::Processing;
                actions.push(ControllerAction::SendAsrFinal);
            }
        },
        DictationState::Error { .. } => {
            state.dictation_state = DictationState::Idle;
            actions.push(ControllerAction::HideOverlay);
        },
        _ => {},
    }
    actions
}

/// Cancels a recording: the audio is dropped, no recognition request
/// is sent and nothing is pasted.  Outside `Recording` it only
/// dismisses an error.
pub fn cancel_recording(state: &mut AppState) -> (actions: Vec<ControllerAction>)
    requires
        app_wf(*old(state)),
    ensures
        app_wf(*final(state)),
        same_settings(*old(state), *final(state)),
        same_pendings(*old(state), *final(state)),
        old(state).dictation_state is Recording ==> {
            &&& final(state).dictation_state is Idle
            &&& actions@.len() == 2
            &&& actions@[0] is DiscardRecording
            &&& actions@[1] is HideOverlay
        },
        old(state).dictation_state is Error ==> {
            &&& final(state).dictation_state is Idle
            &&& actions@.len() == 1
            &&& actions@[0] is HideOverlay
        },
        !(old(state).dictation_state is Recording) && !(old(state).dictation_state is Error) ==> {
            &&& final(state).dictation_state == old(state).dictation_state
            &&& actions@.len() == 0
        },
{
    let mut actions: Vec<ControllerAction> = Vec::new();
    match &state.dictation_state {
        DictationState::Recording { .. } => {
            state.dictation_state = DictationState::Idle;
            actions.push(ControllerAction::DiscardRecording);
            actions.push(ControllerAction::HideOverlay);
        },
        DictationState::Error { .. } => {
            state.dictation_state = DictationState::Idle;
            actions.push(ControllerAction::HideOverlay);
        },
        _ => {},
    }
    actions
}

/// Settles a paste attempt: success returns to `Idle` and hides the
/// overlay, failure surfaces the error.
pub fn paste_finished(state: &mut AppState, ok: bool, message: String) -> (actions: Vec<
    ControllerAction,
>)
    requires
        app_wf(*old(state)),
    ensures
        app_wf(*final(state)),
        same_settings(*old(state), *final(state)),
        same_pendings(*old(state), *final(state)),
        ok ==> {
            &&& final(state).dictation_state is Idle
            &&& actions@.len() == 1
            &&& actions@[0] is HideOverlay
        },
        !ok ==> {
            &&& final(state).dictation_state matches DictationState::Error { message: m }
            &&& m@ == "Failed to paste: "@ + message@
            &&& actions@.len() == 0
        },
{
    let mut actions: Vec<ControllerAction> = Vec::new();
    if ok {
        state.dictation_state = DictationState::Idle;
        actions.push(ControllerAction::HideOverlay);
    } else {
        let mut m = String::from_str("Failed to paste: ");
        m.append(message.as_str());
        state.dictation_state = DictationState::Error { message: m };
    }
    actions
}

/// Accepts the previewed corrections: the corrected text is pasted.
/// With nothing pending the call is rejected.
pub fn accept_corrections(state: &mut AppState) -> (r: Result<Vec<ControllerAction>, String>)
    requires
        app_wf(*old(state)),
    ensures
        app_wf(*final(state)),
        same_settings(*old(state), *final(state)),
        final(state).dictation_state == old(state).dictation_state,
        old(state).pending_corrected_text is None ==> r is Err && *final(state) == *old(state),
        old(state).pending_corrected_text matches Some(text) ==> {
            &&& r matches Ok(actions)
            &&& actions@.len() == 1
            &&& actions@[0] matches ControllerAction::Paste { text: t, smart }
            &&& t@ == text@
            &&& smart == old(state).smart_paste
            &&& final(state).pending_corrected_text is None
            &&& final(state).pending_original_text is None
        },
{
    match state.pending_corrected_text.take() {
        None => Err(String::from_str("No pending corrections to accept")),
        Some(text) => {
            state.pending_original_text = None;
            let mut actions: Vec<ControllerAction> = Vec::new();
            actions.push(ControllerAction::Paste { text, smart: state.smart_paste });
            Ok(actions)
        },
    }
}

/// Undoes the previewed corrections: the original text is pasted and
/// replaces the latest history entry.  With nothing pending the call
/// is rejected.
pub fn undo_corrections(state: &mut AppState) -> (r: Result<Vec<ControllerAction>, String>)
    requires
        app_wf(*old(state)),
    ensures
        app_wf(*final(state)),
        same_settings(*old(state), *final(state)),
        final(state).dictation_state == old(state).dictation_state,
        old(state).pending_original_text is None ==> r is Err && *final(state) == *old(state),
        old(state).pending_original_text matches Some(text) ==> {
            &&& r matches Ok(actions)
            &&& actions@.len() == 2
            &&& actions@[0] matches ControllerAction::UpdateHistoryText { text: u }
            &&& u@ == text@
            &&& actions@[1] matches ControllerAction::Paste { text: t, smart }
            &&& t@ == text@
            &&& smart == old(state).smart_paste
            &&& final(state).pending_corrected_text is None
            &&& final(state).pending_original_text is None
        },
{
    match state.pending_original_text.take() {
        None => Err(String::from_str("No pending corrections to undo")),
        Some(text) => {
            state.pending_corrected_text = None;
            let mut actions: Vec<ControllerAction> = Vec::new();
            actions.push(ControllerAction::UpdateHistoryText { text: text.clone() });
            actions.push(ControllerAction::Paste { text, smart: state.smart_paste });
            Ok(actions)
        },
    }
}

/// Accepts the previewed translation: the translated text is pasted
/// and replaces the latest history entry.
pub fn accept_translation(state: &mut AppState) -> (r: Result<Vec<ControllerAction>, String>)
    requires
        app_wf(*old(state)),
    ensures
        app_wf(*final(state)),
        same_settings(*old(state), *final(state)),
        final(state).dictation_state == old(state).dictation_state,
        old(state).pending_translated_text is None ==> r is Err && *final(state) == *old(state),
        old(state).pending_translated_text matches Some(text) ==> {
            &&& r matches Ok(actions)
            &&& actions@.len() == 2
            &&& actions@[0] matches ControllerAction::UpdateHistoryText { text: u }
            &&& u@ == text@
            &&& actions@[1] matches ControllerAction::Paste { text: t, smart }
            &&& t@ == text@
            &&& smart == old(state).smart_paste
            &&& final(state).pending_translated_text is None
            &&& final(state).pending_source_text is None
        },
{
    match state.pending_translated_text.take() {
        None => Err(String::from_str("No pending translation to accept")),
        Some(text) => {
            state.pending_source_text = None;
            let mut actions: Vec<ControllerAction> = Vec::new();
            actions.push(ControllerAction::UpdateHistoryText { text: text.clone() });
            actions.push(ControllerAction::Paste { text, smart: state.smart_paste });
            Ok(actions)
        },
    }
}

/// Rejects the previewed translation: the untranslated source text is
/// pasted.
pub fn reject_translation(state: &mut AppState) -> (r: Result<Vec<ControllerAction>, String>)
    requires
        app_wf(*old(state)),
    ensures
        app_wf(*final(state)),
        same_settings(*old(state), *final(state)),
        final(state).dictation_state == old(state).dictation_state,
        old(state).pending_source_text is None ==> r is Err && *final(state) == *old(state),
        old(state).pending_source_text matches Some(text) ==> {
            &&& r matches Ok(actions)
            &&& actions@.len() == 1
            &&& actions@[0] matches ControllerAction::Paste { text: t, smart }
            &&& t@ == text@
            &&& smart == old(state).smart_paste
            &&& final(state).pending_translated_text is None
            &&& final(state).pending_source_text is None
        },
{
    match state.pending_source_text.take() {
        None => Err(String::from_str("No pending translation to reject")),
        Some(text) => {
            state.pending_translated_text = None;
            let mut actions: Vec<ControllerAction> = Vec::new();
            actions.push(ControllerAction::Paste { text, smart: state.smart_paste });
            Ok(actions)
        },
    }
}

/// Settles the recognizer's final answer.  Outside `Processing` —
/// after a cancel — the answer is discarded and nothing changes.
/// Empty speech returns to `Idle` without pasting or history; text is
/// run through the vocabulary when enabled, written to history, and
/// then either sent to translation, shown as a correction preview, or
/// pasted directly.
pub fn handle_transcription_result(
    state: &mut AppState,
    outcome: TranscriptionOutcome,
    vocabulary: &Vocabulary,
    recording_duration_ms: u64,
) -> (actions: Vec<ControllerAction>)
    requires
        app_wf(*old(state)),
    ensures
        app_wf(*final(state)),
        same_settings(*old(state), *final(state)),
        !(old(state).dictation_state is Processing) ==> *final(state) == *old(state)
            && actions@.len() == 0,
        old(state).dictation_state is Processing ==> (outcome
            matches TranscriptionOutcome::Failed(e) ==> {
            &&& final(state).dictation_state matches DictationState::Error { message }
            &&& message@ == "Transcription failed: "@ + e@
            &&& actions@.len() == 0
            &&& same_pendings(*old(state), *final(state))
        }),
        old(state).dictation_state is Processing && outcome is TimedOut ==> {
            &&& final(state).dictation_state matches DictationState::Error { message }
            &&& message@ == "Transcription timed out — try again"@
            &&& actions@.len() == 0
            &&& same_pendings(*old(state), *final(state))
        },
        old(state).dictation_state is Processing ==> (outcome
            matches TranscriptionOutcome::Text(t) ==> trim_spec(t@).len() == 0 ==> {
            &&& final(state).dictation_state is Idle
            &&& actions@.len() == 1
            &&& actions@[0] is HideOverlay
            &&& same_pendings(*old(state), *final(state))
        }),
        old(state).dictation_state is Processing ==> (outcome
            matches TranscriptionOutcome::Text(t) ==> trim_spec(t@).len() > 0 ==> {
            let trimmed = trim_spec(t@);
            let corrected = engine_text(trimmed, vocabulary@);
            let corrs = sort_by_position(engine_corrections(trimmed, vocabulary@));
            let has = old(state).vocab_enabled && corrs.len() > 0;
            let source = if has {
                corrected
            } else {
                trimmed
            };
            &&& actions@.len() >= 1
            &&& (actions@[0] matches ControllerAction::SaveHistory { text: h, duration_ms: d }
                && h@ == source && d == recording_duration_ms)
            &&& (if source.len() == 0 {
                &&& final(state).dictation_state is Idle
                &&& actions@.len() == 2
                &&& actions@[1] is HideOverlay
                &&& same_pendings(*old(state), *final(state))
            } else if old(state).translation_enabled {
                &&& final(state).dictation_state is Translating
                &&& final(state).pending_source_text matches Some(ps) && ps@ == source
                &&& final(state).pending_original_text == old(state).pending_original_text
                &&& final(state).pending_corrected_text == old(state).pending_corrected_text
                &&& final(state).pending_translated_text == old(state).pending_translated_text
                &&& actions@.len() == 2
                &&& (actions@[1] matches ControllerAction::SendMtFinal {
                    text: mt,
                    source_lang,
                    target_lang,
                } && mt@ == source && source_lang@ == old(state).language@ && target_lang@ == old(
                    state,
                ).translation_target_lang@)
            } else if has {
                &&& (final(state).dictation_state matches DictationState::CorrectionPreview {
                    text: ct,
                    original_text: ot,
                    corrections: cs,
                } && ct@ == corrected && ot@ == trimmed && cs@.map_values(
                    |c: CorrectionApplied| c@,
                ) == corrs)
                &&& final(state).pending_original_text matches Some(po) && po@ == trimmed
                &&& final(state).pending_corrected_text matches Some(pc) && pc@ == corrected
                &&& final(state).pending_source_text == old(state).pending_source_text
                &&& final(state).pending_translated_text == old(state).pending_translated_text
                &&& actions@.len() == 1
            } else {
                &&& final(state).dictation_state is Processing
                &&& actions@.len() == 2
                &&& (actions@[1] matches ControllerAction::Paste { text: pt, smart } && pt@
                    == source && smart == old(state).smart_paste)
                &&& same_pendings(*old(state), *final(state))
            })
        }),
{
    let mut actions: Vec<ControllerAction> = Vec::new();
    if !(matches!(&state.dictation_state, DictationState::Processing)) {
        return actions;
    }
    match outcome {
        TranscriptionOutcome::Failed(e) => {
            let mut message = String::from_str("Transcription failed: ");
            message.append(e.as_str());
            state.dictation_state = DictationState::Error { message };
        },
        TranscriptionOutcome::TimedOut => {
            state.dictation_state = DictationState::Error {
                message: String::from_str("Transcription timed out — try again"),
            };
        },
        TranscriptionOutcome::Text(t) => {
            let trimmed = trim_str(t.as_str());
            if trimmed.as_str().unicode_len() == 0 {
                state.dictation_state = DictationState::Idle;
                actions.push(ControllerAction::HideOverlay);
            } else {
                let mut has = false;
                let mut source = trimmed.clone();
                let mut corr_opt: Option<CorrectionResult> = None;
                if state.vocab_enabled {
                    let res = apply_corrections(trimmed.as_str(), vocabulary);
                    if res.corrections.len() > 0 {
                        has = true;
                        source = res.text.clone();
                        corr_opt = Some(res);
                    }
                }
                actions.push(
                    ControllerAction::SaveHistory {
                        text: source.clone(),
                        duration_ms: recording_duration_ms,
                    },
                );
                if source.as_str().unicode_len() == 0 {
                    // the corrections erased the whole transcript:
                    // nothing is left to paste or translate
                    state.dictation_state = DictationState::Idle;
                    actions.push(ControllerAction::HideOverlay);
                } else if state.translation_enabled {
                    state.dictation_state = DictationState::Translating;
                    state.pending_source_text = Some(source.clone());
                    let source_lang = source_language_for_translation(state.language.as_str());
                    let target_lang = state.translation_target_lang.clone();
                    actions.push(
                        ControllerAction::SendMtFinal { text: source, source_lang, target_lang },
                    );
                } else if has {
                    let res = corr_opt.unwrap();
                    state.dictation_state = DictationState::CorrectionPreview {
                        text: res.text,
                        original_text: trimmed.clone(),
                        corrections: res.corrections,
                    };
                    state.pending_original_text = Some(trimmed);
                    state.pending_corrected_text = Some(source);
                } else {
                    actions.push(
                        ControllerAction::Paste { text: source, smart: state.smart_paste },
                    );
                }
            }
        },
    }
    actions
}

/// Settles the translator's final answer.  Outside `Translating` the
/// answer is discarded.  A successful translation is shown as a
/// preview; a failure or timeout falls back to pasting the
/// untranslated text.
pub fn handle_translation_result(state: &mut AppState, outcome: TranslationOutcome) -> (actions:
    Vec<ControllerAction>)
    requires
        app_wf(*old(state)),
    ensures
        app_wf(*final(state)),
        same_settings(*old(state), *final(state)),
        !(old(state).dictation_state is Translating) ==> *final(state) == *old(state)
            && actions@.len() == 0,
        old(state).dictation_state is Translating && old(state).pending_source_text is None ==> {
            &&& final(state).dictation_state is Idle
            &&& actions@.len() == 1
            &&& actions@[0] is HideOverlay
        },
        old(state).dictation_state is Translating ==> (old(state).pending_source_text
            matches Some(src) ==> (outcome matches TranslationOutcome::Text(t) ==> {
            let translated = if trim_spec(t@).len() == 0 {
                src@
            } else {
                trim_spec(t@)
            };
            &&& (final(state).dictation_state matches DictationState::TranslationPreview {
                source_text,
                translated_text,
                source_lang,
                target_lang,
            } && source_text@ == src@ && translated_text@ == translated && source_lang@ == old(
                state,
            ).language@ && target_lang@ == old(state).translation_target_lang@)
            &&& final(state).pending_translated_text matches Some(pt) && pt@ == translated
            &&& final(state).pending_source_text == old(state).pending_source_text
            &&& actions@.len() == 0
        })),
        old(state).dictation_state is Translating ==> (old(state).pending_source_text
            matches Some(src) ==> !(outcome is Text) ==> {
            &&& final(state).dictation_state == old(state).dictation_state
            &&& same_pendings(*old(state), *final(state))
            &&& actions@.len() == 1
            &&& (actions@[0] matches ControllerAction::Paste { text: pt, smart } && pt@ == src@
                && smart == old(state).smart_paste)
        }),
{
    let mut actions: Vec<ControllerAction> = Vec::new();
    if !(matches!(&state.dictation_state, DictationState::Translating)) {
        return actions;
    }
    let source = match &state.pending_source_text {
        None => {
            state.dictation_state = DictationState::Idle;
            actions.push(ControllerAction::HideOverlay);
            return actions;
        },
        Some(s) => s.clone(),
    };
    match outcome {
        TranslationOutcome::Text(t) => {
            let trimmed = trim_str(t.as_str());
            let translated = if trimmed.as_str().unicode_len() == 0 {
                source.clone()
            } else {
                trimmed
            };
            let source_lang = source_language_for_translation(state.language.as_str());
            let target_lang = state.translation_target_lang.clone();
            state.dictation_state = DictationState::TranslationPreview {
                source_text: source,
                translated_text: translated.clone(),
                source_lang,
                target_lang,
            };
            state.pending_translated_text = Some(translated);
        },
        _ => {
            actions.push(ControllerAction::Paste { text: source, smart: state.smart_paste });
        },
    }
    actions
}

/// Applies one partial-recognition tick: the interim transcript (and
/// the interim translation that rode on it, when translation is
/// enabled) replace the ones shown in the `Recording` state.  Outside
/// `Recording` — after a cancel or stop — the tick changes nothing.
pub fn apply_partial_update(state: &mut AppState, text: &str, translation: Option<String>) -> (
    updated: bool)
    requires
        app_wf(*old(state)),
    ensures
        app_wf(*final(state)),
        same_settings(*old(state), *final(state)),
        same_pendings(*old(state), *final(state)),
        updated == old(state).dictation_state is Recording,
        !updated ==> *final(state) == *old(state),
        old(state).dictation_state matches DictationState::Recording {
            duration_ms,
            source_lang,
            target_lang,
            ..
        } ==> {
            &&& (final(state).dictation_state matches DictationState::Recording {
                duration_ms: d2,
                partial_text: pt,
                partial_translation: pr,
                source_lang: s2,
                target_lang: t2,
            } && d2 == duration_ms && s2@ == source_lang@ && t2@ == target_lang@ && (if trim_spec(
                text@,
            ).len() == 0 {
                pt is None && pr is None
            } else {
                (pt matches Some(p) && p@ == trim_spec(text@)) && (if old(
                    state,
                ).translation_enabled {
                    match translation {
                        Some(tr) => (if trim_spec(tr@).len() > 0 {
                            pr matches Some(q) && q@ == trim_spec(tr@)
                        } else {
                            pr is None
                        }),
                        None => pr is None,
                    }
                } else {
                    pr is None
                })
            }))
        },
{
    match &state.dictation_state {
        DictationState::Recording { duration_ms, source_lang, target_lang, .. } => {
            let d = *duration_ms;
            let sl = source_lang.clone();
            let tl = target_lang.clone();
            let trimmed = trim_str(text);
            if trimmed.as_str().unicode_len() == 0 {
                state.dictation_state = DictationState::Recording {
                    duration_ms: d,
                    partial_text: None,
                    partial_translation: None,
                    source_lang: sl,
                    target_lang: tl,
                };
            } else {
                let partial_translation: Option<String> = if state.translation_enabled {
                    match translation {
                        Some(tr) => {
                            let trt = trim_str(tr.as_str());
                            if trt.as_str().unicode_len() == 0 {
                                None
                            } else {
                                Some(trt)
                            }
                        },
                        None => None,
                    }
                } else {
                    None
                };
                state.dictation_state = DictationState::Recording {
                    duration_ms: d,
                    partial_text: Some(trimmed),
                    partial_translation,
                    source_lang: sl,
                    target_lang: tl,
                };
            }
            true
        },
        _ => false,
    }
}

/// Advances the shown recording duration; a tick outside `Recording`
/// changes nothing.
pub fn update_recording_duration(state: &mut AppState, elapsed_ms: u64) -> (updated: bool)
    requires
        app_wf(*old(state)),
    ensures
        app_wf(*final(state)),
        same_settings(*old(state), *final(state)),
        same_pendings(*old(state), *final(state)),
        updated == old(state).dictation_state is Recording,
        !updated ==> *final(state) == *old(state),
        old(state).dictation_state matches DictationState::Recording {
            partial_text,
            partial_translation,
            source_lang,
            target_lang,
            ..
        } ==> (final(state).dictation_state matches DictationState::Recording {
            duration_ms: d2,
            partial_text: pt,
            partial_translation: pr,
            source_lang: s2,
            target_lang: t2,
        } && d2 == elapsed_ms && pt == partial_text && pr == partial_translation && s2
            == source_lang && t2 == target_lang),
{
    match &state.dictation_state {
        DictationState::Recording {
            partial_text,
            partial_translation,
            source_lang,
            target_lang,
            ..
        } => {
            let pt = match partial_text {
                Some(s) => Some(s.clone()),
                None => None,
            };
            let pr = match partial_translation {
                Some(s) => Some(s.clone()),
                None => None,
            };
            let sl = source_lang.clone();
            let tl = target_lang.clone();
            state.dictation_state = DictationState::Recording {
                duration_ms: elapsed_ms,
                partial_text: pt,
                partial_translation: pr,
                source_lang: sl,
                target_lang: tl,
            };
            true
        },
        _ => false,
    }
}

/// The interim translation job one partial transcript calls for, if
/// any: only while recording with translation enabled and a non-empty
/// transcript.
pub fn partial_translation_job(state: &AppState, partial: &str) -> (r: Option<TranslationJob>)
    ensures
        (r is Some) <==> (state.translation_enabled && state.dictation_state is Recording
            && trim_spec(partial@).len() > 0),
        r matches Some(job) ==> {
            &&& job.text@ == trim_spec(partial@)
            &&& (state.dictation_state matches DictationState::Recording {
                source_lang,
                target_lang,
                ..
            } && job.source_lang@ == source_lang@ && job.target_lang@ == target_lang@)
        },
{
    if !state.translation_enabled {
        return None;
    }
    match &state.dictation_state {
        DictationState::Recording { source_lang, target_lang, .. } => {
            let trimmed = trim_str(partial);
            if trimmed.as_str().unicode_len() == 0 {
                None
            } else {
                Some(
                    TranslationJob {
                        text: trimmed,
                        source_lang: source_lang.clone(),
                        target_lang: target_lang.clone(),
                    },
                )
            }
        },
        _ => None,
    }
}

/// Turns smart paste on or off.
pub fn set_smart_paste(state: &mut AppState, enabled: bool)
    requires
        app_wf(*old(state)),
    ensures
        app_wf(*final(state)),
        *final(state) == (AppState { smart_paste: enabled, ..*old(state) }),
{
    state.smart_paste = enabled;
}

/// Turns the vocabulary engine on or off.
pub fn set_vocab_enabled(state: &mut AppState, enabled: bool)
    requires
        app_wf(*old(state)),
    ensures
        app_wf(*final(state)),
        *final(state) == (AppState { vocab_enabled: enabled, ..*old(state) }),
{
    state.vocab_enabled = enabled;
}

/// Turns translation on or off.  Disabling while a recording shows an
/// interim translation also withdraws that translation, since nothing
/// will refresh it.
pub fn set_translation_enabled(state: &mut AppState, enabled: bool) -> (updated: bool)
    requires
        app_wf(*old(state)),
    ensures
        app_wf(*final(state)),
        final(state).translation_enabled == enabled,
        same_pendings(*old(state), *final(state)),
        final(state).model_path == old(state).model_path,
        final(state).selected_model == old(state).selected_model,
        final(state).smart_paste == old(state).smart_paste,
        final(state).language == old(state).language,
        final(state).vocab_enabled == old(state).vocab_enabled,
        final(state).translation_target_lang == old(state).translation_target_lang,
        final(state).translation_model == old(state).translation_model,
        updated ==> (old(state).dictation_state matches DictationState::Recording {
            duration_ms,
            partial_text,
            source_lang,
            target_lang,
            ..
        } && final(state).dictation_state == (DictationState::Recording {
            duration_ms,
            partial_text,
            partial_translation: None,
            source_lang,
            target_lang,
        })),
        !updated ==> final(state).dictation_state == old(state).dictation_state,
{
    state.translation_enabled = enabled;
    if !enabled {
        match &state.dictation_state {
            DictationState::Recording {
                duration_ms,
                partial_text,
                partial_translation,
                source_lang,
                target_lang,
            } => {
                if partial_translation.is_some() {
                    let d = *duration_ms;
                    let pt = match partial_text {
                        Some(s) => Some(s.clone()),
                        None => None,
                    };
                    let sl = source_lang.clone();
                    let tl = target_lang.clone();
                    proof {
                        assert(pt == old(state).dictation_state->Recording_partial_text);
                    }
                    state.dictation_state = DictationState::Recording {
                        duration_ms: d,
                        partial_text: pt,
                        partial_translation: None,
                        source_lang: sl,
                        target_lang: tl,
                    };
                    return true;
                }
                false
            },
            _ => false,
        }
    } else {
        false
    }
}

/// Sets the translation target language; a live recording shows the
/// new target at once.
pub fn set_translation_target_lang(state: &mut AppState, target_lang: String) -> (updated: bool)
    requires
        app_wf(*old(state)),
    ensures
        app_wf(*final(state)),
        final(state).translation_target_lang == target_lang,
        same_pendings(*old(state), *final(state)),
        final(state).model_path == old(state).model_path,
        final(state).selected_model == old(state).selected_model,
        final(state).smart_paste == old(state).smart_paste,
        final(state).language == old(state).language,
        final(state).vocab_enabled == old(state).vocab_enabled,
        final(state).translation_enabled == old(state).translation_enabled,
        final(state).translation_model == old(state).translation_model,
        updated == old(state).dictation_state is Recording,
        !updated ==> final(state).dictation_state == old(state).dictation_state,
        old(state).dictation_state matches DictationState::Recording {
            duration_ms,
            partial_text,
            partial_translation,
            source_lang,
            ..
        } ==> final(state).dictation_state == (DictationState::Recording {
            duration_ms,
            partial_text,
            partial_translation,
            source_lang,
            target_lang: final(state).translation_target_lang,
        }),
{
    state.translation_target_lang = target_lang.clone();
    match &state.dictation_state {
        DictationState::Recording {
            duration_ms,
            partial_text,
            partial_translation,
            source_lang,
            ..
        } => {
            let d = *duration_ms;
            let pt = match partial_text {
                Some(s) => Some(s.clone()),
                None => None,
            };
            let pr = match partial_translation {
                Some(s) => Some(s.clone()),
                None => None,
            };
            let sl = source_lang.clone();
            proof {
                assert(pt == old(state).dictation_state->Recording_partial_text);
                assert(pr == old(state).dictation_state->Recording_partial_translation);
            }
            state.dictation_state = DictationState::Recording {
                duration_ms: d,
                partial_text: pt,
                partial_translation: pr,
                source_lang: sl,
                target_lang,
            };
            true
        },
        _ => false,
    }
}

/// What a language change calls for beyond the field update: the model
/// to switch to when the variant no longer fits, the language hint for
/// the recognizer (none for `auto`), and whether a live recording was
/// rewritten.
pub struct LanguageChange {
    pub model_switch: Option<String>,
    pub asr_hint: Option<String>,
    pub recording_updated: bool,
}

/// The model the language change switches to, if any: an English-only
/// model swaps for its multilingual counterpart when the language
/// leaves English, and back again for English, with a default where no
/// counterpart is known.
pub open spec fn model_switch_spec(selected: Seq<char>, language: Seq<char>) -> Option<Seq<char>> {
    let english_only = crate::asr_models::find_model_spec(selected) is Some
        && crate::asr_models::find_model_spec(selected).unwrap().english_only;
    let needs_multilingual = language != "en"@;
    if needs_multilingual && english_only {
        match crate::asr_models::multilingual_equivalent_spec(selected) {
            Some(m) => Some(m),
            None => Some("base"@),
        }
    } else if !needs_multilingual && !english_only {
        match crate::asr_models::english_equivalent_spec(selected) {
            Some(m) => Some(m),
            None => Some("base.en"@),
        }
    } else {
        None
    }
}

/// Changes the source language: the setting is updated, a live
/// recording shows the new language, the recognizer gets the new hint,
/// and the selected model swaps between its English-only and
/// multilingual variants when needed.
pub fn set_language(state: &mut AppState, language: String) -> (r: LanguageChange)
    requires
        app_wf(*old(state)),
    ensures
        app_wf(*final(state)),
        same_pendings(*old(state), *final(state)),
        final(state).language == language,
        final(state).model_path == old(state).model_path,
        final(state).selected_model == old(state).selected_model,
        final(state).smart_paste == old(state).smart_paste,
        final(state).vocab_enabled == old(state).vocab_enabled,
        final(state).translation_enabled == old(state).translation_enabled,
        final(state).translation_target_lang == old(state).translation_target_lang,
        final(state).translation_model == old(state).translation_model,
        (r.model_switch is Some) <==> (model_switch_spec(old(state).selected_model@, language@)
            is Some),
        r.model_switch matches Some(m) ==> m@ == model_switch_spec(
            old(state).selected_model@,
            language@,
        ).unwrap(),
        (r.asr_hint is None) <==> language@ == "auto"@,
        r.asr_hint matches Some(h) ==> h@ == language@,
        r.recording_updated == old(state).dictation_state is Recording,
        !r.recording_updated ==> final(state).dictation_state == old(state).dictation_state,
        old(state).dictation_state matches DictationState::Recording {
            duration_ms,
            partial_text,
            partial_translation,
            target_lang,
            ..
        } ==> (final(state).dictation_state matches DictationState::Recording {
            duration_ms: d2,
            partial_text: pt,
            partial_translation: pr,
            source_lang: s2,
            target_lang: t2,
        } && d2 == duration_ms && pt == partial_text && pr == partial_translation && s2@
            == language@ && t2 == target_lang),
{
    let model_switch: Option<String> = {
        let english_only = crate::asr_models::is_english_only(state.selected_model.as_str());
        let needs_multilingual = !str_eq(language.as_str(), "en");
        if needs_multilingual && english_only {
            match crate::asr_models::multilingual_equivalent(state.selected_model.as_str()) {
                Some(m) => Some(String::from_str(m)),
                None => Some(String::from_str("base")),
            }
        } else if !needs_multilingual && !english_only {
            match crate::asr_models::english_equivalent(state.selected_model.as_str()) {
                Some(m) => Some(String::from_str(m)),
                None => Some(String::from_str("base.en")),
            }
        } else {
            None
        }
    };
    let asr_hint: Option<String> = if str_eq(language.as_str(), "auto") {
        None
    } else {
        Some(language.clone())
    };
    state.language = language.clone();
    let recording_updated: bool = match &state.dictation_state {
        DictationState::Recording {
            duration_ms,
            partial_text,
            partial_translation,
            target_lang,
            ..
        } => {
            let d = *duration_ms;
            let pt = match partial_text {
                Some(s) => Some(s.clone()),
                None => None,
            };
            let pr = match partial_translation {
                Some(s) => Some(s.clone()),
                None => None,
            };
            let tl = target_lang.clone();
            proof {
                assert(pt == old(state).dictation_state->Recording_partial_text);
                assert(pr == old(state).dictation_state->Recording_partial_translation);
            }
            let source_lang = source_language_for_translation(language.as_str());
            state.dictation_state = DictationState::Recording {
                duration_ms: d,
                partial_text: pt,
                partial_translation: pr,
                source_lang,
                target_lang: tl,
            };
            true
        },
        _ => false,
    };
    LanguageChange { model_switch, asr_hint, recording_updated }
}

/// Selects a recognition model by name; unknown names are rejected and
/// change nothing.
pub fn select_model(state: &mut AppState, model_name: String) -> (r: Result<(), String>)
    requires
        app_wf(*old(state)),
    ensures
        app_wf(*final(state)),
        (r is Ok) <==> crate::asr_models::find_model_spec(model_name@) is Some,
        r is Ok ==> *final(state) == (AppState { selected_model: model_name, ..*old(state) }),
        r is Err ==> *final(state) == *old(state),
{
    match crate::asr_models::find_model(model_name.as_str()) {
        Some(_) => {
            state.selected_model = model_name;
            Ok(())
        },
        None => {
            let mut message = String::from_str("Unknown model: ");
            message.append(model_name.as_str());
            Err(message)
        },
    }
}

/// Settles a recognition-model load: success records the model path
/// and returns to `Idle`, failure and timeout surface an error.
pub fn handle_model_load_response(
    state: &mut AppState,
    path: String,
    outcome: ModelLoadOutcome,
) -> (actions: Vec<ControllerAction>)
    requires
        app_wf(*old(state)),
    ensures
        app_wf(*final(state)),
        same_pendings(*old(state), *final(state)),
        final(state).selected_model == old(state).selected_model,
        outcome is Loaded ==> {
            &&& final(state).model_path matches Some(p) && p@ == path@
            &&& final(state).dictation_state is Idle
            &&& actions@.len() == 1
            &&& actions@[0] is HideOverlay
        },
        outcome matches ModelLoadOutcome::Failed(e) ==> {
            &&& final(state).model_path == old(state).model_path
            &&& (final(state).dictation_state matches DictationState::Error { message } && message@
                == "Failed to load model: "@ + e@)
            &&& actions@.len() == 0
        },
        outcome is TimedOut ==> {
            &&& final(state).model_path == old(state).model_path
            &&& (final(state).dictation_state matches DictationState::Error { message } && message@
                == "Model loading timed out — try again"@)
            &&& actions@.len() == 0
        },
{
    let mut actions: Vec<ControllerAction> = Vec::new();
    match outcome {
        ModelLoadOutcome::Loaded => {
            state.model_path = Some(path);
            state.dictation_state = DictationState::Idle;
            actions.push(ControllerAction::HideOverlay);
        },
        ModelLoadOutcome::Failed(e) => {
            let mut message = String::from_str("Failed to load model: ");
            message.append(e.as_str());
            state.dictation_state = DictationState::Error { message };
        },
        ModelLoadOutcome::TimedOut => {
            state.dictation_state = DictationState::Error {
                message: String::from_str("Model loading timed out — try again"),
            };
        },
    }
    actions
}

} // verus!
