use dictate::worker::{TranscriptionRequest, DrainTerminal, drain_partial_queue};

type Req = TranscriptionRequest<Vec<i16>>;

#[test]
fn final_supersedes_queued_partials() {
    // P P P F: exactly one inference runs, and it is the final
    let queued: Vec<Req> = vec![
        TranscriptionRequest::TranscribePartial(vec![2]),
        TranscriptionRequest::TranscribePartial(vec![3]),
        TranscriptionRequest::Transcribe(vec![9, 9]),
    ];
    let outcome = drain_partial_queue(vec![1], queued);
    assert!(outcome.loads.is_empty());
    assert!(outcome.languages.is_empty());
    match outcome.terminal {
        DrainTerminal::RunFinal(audio) => assert_eq!(audio, vec![9, 9]),
        _ => panic!("expected the final to run"),
    }
    assert!(outcome.remaining.is_empty());
}

#[test]
fn newest_partial_wins() {
    // P P P: one partial runs, on the newest audio
    let queued: Vec<Req> = vec![
        TranscriptionRequest::TranscribePartial(vec![2]),
        TranscriptionRequest::TranscribePartial(vec![3]),
    ];
    let outcome = drain_partial_queue(vec![1], queued);
    assert!(outcome.loads.is_empty());
    assert!(outcome.languages.is_empty());
    match outcome.terminal {
        DrainTerminal::RunPartial(audio) => assert_eq!(audio, vec![3]),
        _ => panic!("expected the newest partial to run"),
    }
    assert!(outcome.remaining.is_empty());
}

#[test]
fn empty_queue_runs_the_held_partial() {
    let outcome = drain_partial_queue(vec![5], Vec::<Req>::new());
    match outcome.terminal {
        DrainTerminal::RunPartial(audio) => assert_eq!(audio, vec![5]),
        _ => panic!("expected the held partial to run"),
    }
}

#[test]
fn loads_and_languages_served_during_drain() {
    let queued: Vec<Req> = vec![
        TranscriptionRequest::LoadModel("m1".to_string()),
        TranscriptionRequest::SetLanguage(Some("fr".to_string())),
        TranscriptionRequest::TranscribePartial(vec![2]),
        TranscriptionRequest::LoadModel("m2".to_string()),
    ];
    let outcome = drain_partial_queue(vec![1], queued);
    assert_eq!(outcome.loads, vec!["m1".to_string(), "m2".to_string()]);
    assert_eq!(outcome.languages, vec![Some("fr".to_string())]);
    match outcome.terminal {
        DrainTerminal::RunPartial(audio) => assert_eq!(audio, vec![2]),
        _ => panic!("expected the newest partial to run"),
    }
}

#[test]
fn final_leaves_the_rest_queued() {
    let queued: Vec<Req> = vec![
        TranscriptionRequest::TranscribePartial(vec![2]),
        TranscriptionRequest::Transcribe(vec![9]),
        TranscriptionRequest::LoadModel("after".to_string()),
    ];
    let outcome = drain_partial_queue(vec![1], queued);
    match outcome.terminal {
        DrainTerminal::RunFinal(audio) => assert_eq!(audio, vec![9]),
        _ => panic!("expected the final to run"),
    }
    assert_eq!(outcome.remaining.len(), 1);
    assert!(matches!(&outcome.remaining[0], TranscriptionRequest::LoadModel(p) if p == "after"));
}

#[test]
fn shutdown_ends_the_drain() {
    let queued: Vec<Req> = vec![
        TranscriptionRequest::TranscribePartial(vec![2]),
        TranscriptionRequest::Shutdown,
        TranscriptionRequest::TranscribePartial(vec![3]),
    ];
    let outcome = drain_partial_queue(vec![1], queued);
    assert!(matches!(outcome.terminal, DrainTerminal::Shutdown));
}

use dictate::translate::{TranslationJob, TranslationRequest};
use dictate::worker::drain_translation_queue;

fn tjob(text: &str) -> TranslationJob {
    TranslationJob {
        text: text.to_string(),
        source_lang: "en".to_string(),
        target_lang: "es".to_string(),
    }
}

#[test]
fn translation_final_supersedes_queued_partials() {
    let queued = vec![
        TranslationRequest::TranslatePartial(tjob("two")),
        TranslationRequest::TranslatePartial(tjob("three")),
        TranslationRequest::Translate(tjob("the final text")),
    ];
    let outcome = drain_translation_queue(tjob("one"), queued);
    assert!(outcome.loads.is_empty());
    assert!(outcome.languages.is_empty());
    match outcome.terminal {
        DrainTerminal::RunFinal(job) => assert_eq!(job.text, "the final text"),
        _ => panic!("expected the final job to run"),
    }
}

#[test]
fn translation_newest_partial_wins_and_languages_apply() {
    let queued = vec![
        TranslationRequest::SetLanguages { source: None, target: "de".to_string() },
        TranslationRequest::TranslatePartial(tjob("newer")),
    ];
    let outcome = drain_translation_queue(tjob("old"), queued);
    assert_eq!(outcome.languages.len(), 1);
    assert_eq!(outcome.languages[0].1, "de");
    match outcome.terminal {
        DrainTerminal::RunPartial(job) => assert_eq!(job.text, "newer"),
        _ => panic!("expected the newest partial to run"),
    }
}

use dictate::worker::{route_inference_result, InferenceRouting};

#[test]
fn final_results_always_answer_on_the_final_channel() {
    let terminal: DrainTerminal<Vec<i16>> = DrainTerminal::RunFinal(vec![1]);
    match route_inference_result(&terminal, Ok("hello".to_string())) {
        InferenceRouting::RespondFinal(Ok(t)) => assert_eq!(t, "hello"),
        _ => panic!("expected a final response"),
    }
    match route_inference_result(&terminal, Err("model failed".to_string())) {
        InferenceRouting::RespondFinal(Err(e)) => assert_eq!(e, "model failed"),
        _ => panic!("expected the failure on the final channel"),
    }
}

#[test]
fn partial_results_emit_trimmed_or_stay_silent() {
    let terminal: DrainTerminal<Vec<i16>> = DrainTerminal::RunPartial(vec![1]);
    match route_inference_result(&terminal, Ok("  hello  ".to_string())) {
        InferenceRouting::EmitPartial(t) => assert_eq!(t, "hello"),
        _ => panic!("expected a partial emission"),
    }
    assert!(matches!(
        route_inference_result(&terminal, Err("model failed".to_string())),
        InferenceRouting::Silent
    ));
    let shutdown: DrainTerminal<Vec<i16>> = DrainTerminal::Shutdown;
    assert!(matches!(
        route_inference_result(&shutdown, Ok(String::new())),
        InferenceRouting::Exit
    ));
}
