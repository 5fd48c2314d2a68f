use dictate::controller::{
    toggle_recording, cancel_recording, paste_finished, accept_corrections, undo_corrections,
    accept_translation, reject_translation, handle_transcription_result, handle_translation_result,
    apply_partial_update, update_recording_duration, partial_translation_job, set_smart_paste,
    set_vocab_enabled, set_translation_enabled, set_translation_target_lang, set_language,
    select_model, handle_model_load_response, source_language_for_translation,
    translation_languages, ControllerAction, TranscriptionOutcome, TranslationOutcome,
    ModelLoadOutcome,
};
use dictate::state::{AppState, DictationState, preview_keys_enabled};
use dictate::vocabulary::{VocabEntry, Vocabulary};
use dictate::history::{TranscriptionHistory, HistoryEntry, add_entry, update_most_recent_text};

fn empty_vocab() -> Vocabulary {
    Vocabulary { entries: Vec::new() }
}

fn teh_vocab() -> Vocabulary {
    Vocabulary {
        entries: vec![VocabEntry {
            id: 1,
            phrase: "teh".to_string(),
            replacement: "the".to_string(),
            enabled: true,
        }],
    }
}

/// Replays the history-related actions the way the application would.
fn apply_history_actions(history: &mut TranscriptionHistory, actions: &[ControllerAction]) {
    for a in actions {
        match a {
            ControllerAction::SaveHistory { text, duration_ms } => {
                add_entry(
                    history,
                    HistoryEntry {
                        id: 7,
                        text: text.clone(),
                        timestamp_ms: 7,
                        duration_ms: *duration_ms,
                    },
                );
            }
            ControllerAction::UpdateHistoryText { text } => {
                update_most_recent_text(history, text.clone());
            }
            _ => {}
        }
    }
}

fn start_recording(state: &mut AppState) {
    let actions = toggle_recording(state, true, true, false);
    assert!(matches!(state.dictation_state, DictationState::Recording { .. }));
    assert_eq!(actions.len(), 2);
    assert!(matches!(actions[0], ControllerAction::StartStreaming));
    assert!(matches!(actions[1], ControllerAction::ShowOverlay));
}

fn stop_recording_to_processing(state: &mut AppState) {
    let actions = toggle_recording(state, true, true, false);
    assert!(matches!(state.dictation_state, DictationState::Processing));
    assert_eq!(actions.len(), 2);
    assert!(matches!(actions[0], ControllerAction::StopStreaming));
    assert!(matches!(actions[1], ControllerAction::SendAsrFinal));
}

#[test]
fn happy_path_english_no_vocab_no_translation() {
    let mut state = AppState::default();
    set_vocab_enabled(&mut state, false);
    let mut history = TranscriptionHistory { entries: Vec::new() };

    start_recording(&mut state);
    stop_recording_to_processing(&mut state);

    let actions = handle_transcription_result(
        &mut state,
        TranscriptionOutcome::Text("hello world".to_string()),
        &empty_vocab(),
        3000,
    );
    apply_history_actions(&mut history, &actions);
    assert!(matches!(state.dictation_state, DictationState::Processing));
    assert_eq!(actions.len(), 2);
    match &actions[0] {
        ControllerAction::SaveHistory { text, duration_ms } => {
            assert_eq!(text, "hello world");
            assert_eq!(*duration_ms, 3000);
        }
        _ => panic!("expected a history write"),
    }
    match &actions[1] {
        ControllerAction::Paste { text, smart } => {
            assert_eq!(text, "hello world");
            assert!(*smart);
        }
        _ => panic!("expected a paste"),
    }

    let actions = paste_finished(&mut state, true, String::new());
    assert!(matches!(state.dictation_state, DictationState::Idle));
    assert!(matches!(actions[0], ControllerAction::HideOverlay));

    assert_eq!(history.entries.len(), 1);
    assert_eq!(history.entries[0].text, "hello world");
}

#[test]
fn silent_audio_returns_to_idle_without_paste_or_history() {
    let mut state = AppState::default();
    start_recording(&mut state);
    stop_recording_to_processing(&mut state);

    let actions = handle_transcription_result(
        &mut state,
        TranscriptionOutcome::Text("   ".to_string()),
        &teh_vocab(),
        1000,
    );
    assert!(matches!(state.dictation_state, DictationState::Idle));
    assert_eq!(actions.len(), 1);
    assert!(matches!(actions[0], ControllerAction::HideOverlay));
}

#[test]
fn vocabulary_correction_preview_accept() {
    let mut state = AppState::default();
    let mut history = TranscriptionHistory { entries: Vec::new() };
    start_recording(&mut state);
    stop_recording_to_processing(&mut state);

    let actions = handle_transcription_result(
        &mut state,
        TranscriptionOutcome::Text("I like teh cat".to_string()),
        &teh_vocab(),
        2000,
    );
    apply_history_actions(&mut history, &actions);
    match &state.dictation_state {
        DictationState::CorrectionPreview { text, original_text, corrections } => {
            assert_eq!(text, "I like the cat");
            assert_eq!(original_text, "I like teh cat");
            assert_eq!(corrections.len(), 1);
            assert_eq!(corrections[0].original, "teh");
            assert_eq!(corrections[0].replacement, "the");
            assert_eq!(corrections[0].position, 7);
        }
        other => panic!("expected a correction preview, got {:?}", preview_name(other)),
    }
    assert!(preview_keys_enabled(&state.dictation_state));
    assert_eq!(history.entries[0].text, "I like the cat");

    let actions = accept_corrections(&mut state).unwrap();
    assert_eq!(actions.len(), 1);
    match &actions[0] {
        ControllerAction::Paste { text, .. } => assert_eq!(text, "I like the cat"),
        _ => panic!("expected a paste"),
    }
    let _ = paste_finished(&mut state, true, String::new());
    assert!(matches!(state.dictation_state, DictationState::Idle));
    // a second accept has nothing pending
    assert!(accept_corrections(&mut state).is_err());
}

#[test]
fn vocabulary_correction_preview_undo() {
    let mut state = AppState::default();
    let mut history = TranscriptionHistory { entries: Vec::new() };
    start_recording(&mut state);
    stop_recording_to_processing(&mut state);

    let actions = handle_transcription_result(
        &mut state,
        TranscriptionOutcome::Text("I like teh cat".to_string()),
        &teh_vocab(),
        2000,
    );
    apply_history_actions(&mut history, &actions);

    let actions = undo_corrections(&mut state).unwrap();
    apply_history_actions(&mut history, &actions);
    assert_eq!(actions.len(), 2);
    match &actions[0] {
        ControllerAction::UpdateHistoryText { text } => assert_eq!(text, "I like teh cat"),
        _ => panic!("expected a history update"),
    }
    match &actions[1] {
        ControllerAction::Paste { text, .. } => assert_eq!(text, "I like teh cat"),
        _ => panic!("expected a paste"),
    }
    assert_eq!(history.entries[0].text, "I like teh cat");
}

#[test]
fn translation_happy_path() {
    let mut state = AppState::default();
    let mut history = TranscriptionHistory { entries: Vec::new() };
    set_translation_enabled(&mut state, true);
    set_translation_target_lang(&mut state, "es".to_string());
    start_recording(&mut state);
    stop_recording_to_processing(&mut state);

    let actions = handle_transcription_result(
        &mut state,
        TranscriptionOutcome::Text("good morning".to_string()),
        &empty_vocab(),
        1500,
    );
    apply_history_actions(&mut history, &actions);
    assert!(matches!(state.dictation_state, DictationState::Translating));
    assert_eq!(actions.len(), 2);
    match &actions[1] {
        ControllerAction::SendMtFinal { text, source_lang, target_lang } => {
            assert_eq!(text, "good morning");
            assert_eq!(source_lang, "en");
            assert_eq!(target_lang, "es");
        }
        _ => panic!("expected a translation job"),
    }

    let actions =
        handle_translation_result(&mut state, TranslationOutcome::Text("buenos días".to_string()));
    assert_eq!(actions.len(), 0);
    match &state.dictation_state {
        DictationState::TranslationPreview { source_text, translated_text, target_lang, .. } => {
            assert_eq!(source_text, "good morning");
            assert_eq!(translated_text, "buenos días");
            assert_eq!(target_lang, "es");
        }
        _ => panic!("expected a translation preview"),
    }
    assert!(preview_keys_enabled(&state.dictation_state));

    let actions = accept_translation(&mut state).unwrap();
    apply_history_actions(&mut history, &actions);
    match &actions[1] {
        ControllerAction::Paste { text, .. } => assert_eq!(text, "buenos días"),
        _ => panic!("expected a paste"),
    }
    assert_eq!(history.entries[0].text, "buenos días");
    let _ = paste_finished(&mut state, true, String::new());
    assert!(matches!(state.dictation_state, DictationState::Idle));
}

#[test]
fn translation_timeout_falls_back_to_source_text() {
    let mut state = AppState::default();
    set_translation_enabled(&mut state, true);
    set_translation_target_lang(&mut state, "es".to_string());
    start_recording(&mut state);
    stop_recording_to_processing(&mut state);
    let _ = handle_transcription_result(
        &mut state,
        TranscriptionOutcome::Text("good morning".to_string()),
        &empty_vocab(),
        1500,
    );
    assert!(matches!(state.dictation_state, DictationState::Translating));

    let actions = handle_translation_result(&mut state, TranslationOutcome::TimedOut);
    assert_eq!(actions.len(), 1);
    match &actions[0] {
        ControllerAction::Paste { text, .. } => assert_eq!(text, "good morning"),
        _ => panic!("expected the fallback paste"),
    }
    let _ = paste_finished(&mut state, true, String::new());
    assert!(matches!(state.dictation_state, DictationState::Idle));
}

#[test]
fn cancel_mid_recording_ignores_late_responses() {
    let mut state = AppState::default();
    start_recording(&mut state);
    let _ = update_recording_duration(&mut state, 2000);

    let actions = cancel_recording(&mut state);
    assert!(matches!(state.dictation_state, DictationState::Idle));
    assert_eq!(actions.len(), 2);
    assert!(matches!(actions[0], ControllerAction::DiscardRecording));
    assert!(matches!(actions[1], ControllerAction::HideOverlay));
    // no recognition request and no paste was issued
    for a in &actions {
        assert!(!matches!(a, ControllerAction::SendAsrFinal));
        assert!(!matches!(a, ControllerAction::Paste { .. }));
    }

    // a late partial does not mutate the state
    let updated = apply_partial_update(&mut state, "late partial", None);
    assert!(!updated);
    assert!(matches!(state.dictation_state, DictationState::Idle));

    // a late final result is discarded too
    let actions = handle_transcription_result(
        &mut state,
        TranscriptionOutcome::Text("late".to_string()),
        &empty_vocab(),
        500,
    );
    assert!(actions.is_empty());
    assert!(matches!(state.dictation_state, DictationState::Idle));
}

#[test]
fn partial_updates_refresh_the_recording_state() {
    let mut state = AppState::default();
    set_translation_enabled(&mut state, true);
    start_recording(&mut state);
    let _ = update_recording_duration(&mut state, 1200);

    let updated = apply_partial_update(
        &mut state,
        "  hello  ",
        Some(" hola ".to_string()),
    );
    assert!(updated);
    match &state.dictation_state {
        DictationState::Recording { duration_ms, partial_text, partial_translation, .. } => {
            assert_eq!(*duration_ms, 1200);
            assert_eq!(partial_text.as_deref(), Some("hello"));
            assert_eq!(partial_translation.as_deref(), Some("hola"));
        }
        _ => panic!("expected to stay recording"),
    }

    // an empty partial clears both texts
    let updated = apply_partial_update(&mut state, "   ", None);
    assert!(updated);
    match &state.dictation_state {
        DictationState::Recording { partial_text, partial_translation, .. } => {
            assert!(partial_text.is_none());
            assert!(partial_translation.is_none());
        }
        _ => panic!("expected to stay recording"),
    }
}

#[test]
fn partial_translation_job_needs_recording_and_text() {
    let mut state = AppState::default();
    assert!(partial_translation_job(&state, "hello").is_none());
    set_translation_enabled(&mut state, true);
    assert!(partial_translation_job(&state, "hello").is_none());
    start_recording(&mut state);
    assert!(partial_translation_job(&state, "   ").is_none());
    let job = partial_translation_job(&state, " hello ").unwrap();
    assert_eq!(job.text, "hello");
    assert_eq!(job.source_lang, "en");
    assert_eq!(job.target_lang, "en");
}

#[test]
fn hotkey_denied_permission_or_microphone() {
    let mut state = AppState::default();
    let actions = toggle_recording(&mut state, false, true, false);
    assert!(matches!(state.dictation_state, DictationState::Error { .. }));
    assert!(matches!(actions[0], ControllerAction::ShowOverlay));
    // a second hotkey press dismisses the error
    let actions = toggle_recording(&mut state, true, true, false);
    assert!(matches!(state.dictation_state, DictationState::Idle));
    assert!(matches!(actions[0], ControllerAction::HideOverlay));

    let actions = toggle_recording(&mut state, true, false, false);
    assert!(matches!(state.dictation_state, DictationState::Error { .. }));
    assert!(matches!(actions[0], ControllerAction::ShowOverlay));
}

#[test]
fn hotkey_ignored_while_processing() {
    let mut state = AppState::default();
    start_recording(&mut state);
    stop_recording_to_processing(&mut state);
    let actions = toggle_recording(&mut state, true, true, false);
    assert!(matches!(state.dictation_state, DictationState::Processing));
    assert!(actions.is_empty());
}

#[test]
fn stopping_with_empty_audio_goes_idle() {
    let mut state = AppState::default();
    start_recording(&mut state);
    let actions = toggle_recording(&mut state, true, true, true);
    assert!(matches!(state.dictation_state, DictationState::Idle));
    assert_eq!(actions.len(), 2);
    assert!(matches!(actions[0], ControllerAction::StopStreaming));
    assert!(matches!(actions[1], ControllerAction::HideOverlay));
}

#[test]
fn transcription_failure_and_timeout_surface_errors() {
    let mut state = AppState::default();
    start_recording(&mut state);
    stop_recording_to_processing(&mut state);
    let actions = handle_transcription_result(
        &mut state,
        TranscriptionOutcome::Failed("boom".to_string()),
        &empty_vocab(),
        100,
    );
    assert!(actions.is_empty());
    match &state.dictation_state {
        DictationState::Error { message } => assert_eq!(message, "Transcription failed: boom"),
        _ => panic!("expected an error"),
    }

    let mut state = AppState::default();
    start_recording(&mut state);
    stop_recording_to_processing(&mut state);
    let _ = handle_transcription_result(
        &mut state,
        TranscriptionOutcome::TimedOut,
        &empty_vocab(),
        100,
    );
    match &state.dictation_state {
        DictationState::Error { message } => {
            assert_eq!(message, "Transcription timed out — try again")
        }
        _ => panic!("expected an error"),
    }
}

#[test]
fn paste_failure_surfaces_error() {
    let mut state = AppState::default();
    let actions = paste_finished(&mut state, false, "no clipboard".to_string());
    assert!(actions.is_empty());
    match &state.dictation_state {
        DictationState::Error { message } => {
            assert_eq!(message, "Failed to paste: no clipboard")
        }
        _ => panic!("expected an error"),
    }
}

#[test]
fn reject_translation_pastes_source() {
    let mut state = AppState::default();
    set_translation_enabled(&mut state, true);
    start_recording(&mut state);
    stop_recording_to_processing(&mut state);
    let _ = handle_transcription_result(
        &mut state,
        TranscriptionOutcome::Text("good morning".to_string()),
        &empty_vocab(),
        100,
    );
    let _ = handle_translation_result(
        &mut state,
        TranslationOutcome::Text("buenos días".to_string()),
    );
    let actions = reject_translation(&mut state).unwrap();
    match &actions[0] {
        ControllerAction::Paste { text, .. } => assert_eq!(text, "good morning"),
        _ => panic!("expected a paste"),
    }
    assert!(reject_translation(&mut state).is_err());
}

#[test]
fn language_change_swaps_model_variant() {
    let mut state = AppState::default();
    assert_eq!(state.selected_model, "base.en");
    let change = set_language(&mut state, "fr".to_string());
    assert_eq!(change.model_switch.as_deref(), Some("base"));
    assert_eq!(change.asr_hint.as_deref(), Some("fr"));
    assert!(!change.recording_updated);
    assert_eq!(state.language, "fr");

    select_model(&mut state, "base".to_string()).unwrap();
    let change = set_language(&mut state, "en".to_string());
    assert_eq!(change.model_switch.as_deref(), Some("base.en"));

    // already matching variants need no switch
    select_model(&mut state, "base.en".to_string()).unwrap();
    let change = set_language(&mut state, "en".to_string());
    assert!(change.model_switch.is_none());

    let change = set_language(&mut state, "auto".to_string());
    assert!(change.asr_hint.is_none());
    assert_eq!(change.model_switch.as_deref(), Some("base"));
}

#[test]
fn select_model_rejects_unknown_names() {
    let mut state = AppState::default();
    let err = select_model(&mut state, "enormous".to_string()).unwrap_err();
    assert_eq!(err, "Unknown model: enormous");
    assert_eq!(state.selected_model, "base.en");
}

#[test]
fn model_load_outcomes() {
    let mut state = AppState::default();
    let actions =
        handle_model_load_response(&mut state, "models/ggml-base.en.bin".to_string(),
            ModelLoadOutcome::Loaded);
    assert_eq!(state.model_path.as_deref(), Some("models/ggml-base.en.bin"));
    assert!(matches!(state.dictation_state, DictationState::Idle));
    assert!(matches!(actions[0], ControllerAction::HideOverlay));

    let _ = handle_model_load_response(&mut state, String::new(),
        ModelLoadOutcome::Failed("corrupt".to_string()));
    match &state.dictation_state {
        DictationState::Error { message } => assert_eq!(message, "Failed to load model: corrupt"),
        _ => panic!("expected an error"),
    }
}

#[test]
fn settings_setters_round_trip() {
    let mut state = AppState::default();
    set_smart_paste(&mut state, false);
    assert!(!state.smart_paste);
    set_vocab_enabled(&mut state, false);
    assert!(!state.vocab_enabled);
    let updated = set_translation_enabled(&mut state, true);
    assert!(state.translation_enabled);
    assert!(!updated);
    let updated = set_translation_target_lang(&mut state, "de".to_string());
    assert_eq!(state.translation_target_lang, "de");
    assert!(!updated);

    assert_eq!(source_language_for_translation("auto"), "auto");
    assert_eq!(source_language_for_translation("fr"), "fr");
    let (source, target) = translation_languages(&state);
    assert_eq!(source.as_deref(), Some("en"));
    assert_eq!(target, "de");
    set_language(&mut state, "auto".to_string());
    let (source, _) = translation_languages(&state);
    assert!(source.is_none());
}

#[test]
fn disabling_translation_withdraws_partial_translation() {
    let mut state = AppState::default();
    set_translation_enabled(&mut state, true);
    start_recording(&mut state);
    let _ = apply_partial_update(&mut state, "hello", Some("hola".to_string()));
    let updated = set_translation_enabled(&mut state, false);
    assert!(updated);
    match &state.dictation_state {
        DictationState::Recording { partial_text, partial_translation, .. } => {
            assert_eq!(partial_text.as_deref(), Some("hello"));
            assert!(partial_translation.is_none());
        }
        _ => panic!("expected to stay recording"),
    }
}

fn preview_name(state: &DictationState) -> &'static str {
    match state {
        DictationState::Idle => "Idle",
        DictationState::Recording { .. } => "Recording",
        DictationState::Processing => "Processing",
        DictationState::Translating => "Translating",
        DictationState::Downloading { .. } => "Downloading",
        DictationState::Error { .. } => "Error",
        DictationState::CorrectionPreview { .. } => "CorrectionPreview",
        DictationState::TranslationPreview { .. } => "TranslationPreview",
    }
}
