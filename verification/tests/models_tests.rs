use dictate::asr_models::{
    available_models, find_model, model_path, model_exists, multilingual_equivalent,
    english_equivalent, is_english_only, download_progress,
};
use dictate::mt_models;

#[test]
fn catalogue_lists_nine_models() {
    let models = available_models();
    assert_eq!(models.len(), 9);
    assert_eq!(models[0].name, "tiny.en");
    assert_eq!(models[0].filename, "ggml-tiny.en.bin");
    assert!(models[0].english_only);
    assert_eq!(models[8].name, "base.en-q8_0");
    assert_eq!(models[8].size_mb, 82);
}

#[test]
fn find_model_by_name() {
    let m = find_model("base.en").unwrap();
    assert_eq!(m.filename, "ggml-base.en.bin");
    assert_eq!(m.size_mb, 148);
    assert!(find_model("huge").is_none());
}

#[test]
fn model_path_is_the_model_file_name() {
    assert_eq!(model_path("small").as_deref(), Some("ggml-small.bin"));
    assert!(model_path("nope").is_none());
}

#[test]
fn model_exists_checks_the_file_listing() {
    let present = vec!["ggml-base.en.bin".to_string(), "notes.txt".to_string()];
    assert!(model_exists("base.en", &present));
    assert!(!model_exists("tiny", &present));
    assert!(!model_exists("unknown", &present));
}

#[test]
fn english_multilingual_pairing() {
    assert_eq!(multilingual_equivalent("tiny.en"), Some("tiny"));
    assert_eq!(multilingual_equivalent("base.en-q8_0"), Some("base"));
    assert_eq!(multilingual_equivalent("base"), None);
    assert_eq!(english_equivalent("medium"), Some("medium.en"));
    assert_eq!(english_equivalent("medium.en"), None);
    assert!(is_english_only("small.en"));
    assert!(!is_english_only("small"));
    assert!(!is_english_only("imaginary"));
}

#[test]
fn download_progress_in_thousandths() {
    assert_eq!(download_progress(0, 0), 0);
    assert_eq!(download_progress(512, 0), 0);
    assert_eq!(download_progress(50, 200), 250);
    assert_eq!(download_progress(200, 200), 1000);
    assert_eq!(download_progress(300, 200), 1000);
    assert_eq!(download_progress(1, 3), 333);
}

#[test]
fn translation_model_catalogue() {
    let models = mt_models::available_translation_models();
    assert_eq!(models.len(), 1);
    assert_eq!(models[0].name, "nllb-200-distilled-600M-int8");
    assert_eq!(models[0].required_files.len(), 4);
    assert!(mt_models::find_model("nllb-200-distilled-600M-int8").is_some());
    assert!(mt_models::find_model("marian").is_none());
    assert_eq!(mt_models::model_path("nllb-200-distilled-600M-int8"), "nllb-200-distilled-600M-int8");
}

#[test]
fn translation_model_needs_all_files() {
    let all = vec![
        "config.json".to_string(),
        "model.bin".to_string(),
        "shared_vocabulary.json".to_string(),
        "tokenizer.json".to_string(),
    ];
    assert!(mt_models::model_exists("nllb-200-distilled-600M-int8", &all));
    let missing = vec!["config.json".to_string(), "model.bin".to_string()];
    assert!(!mt_models::model_exists("nllb-200-distilled-600M-int8", &missing));
    assert!(!mt_models::model_exists("other", &all));
}

#[test]
fn resolve_url_points_into_the_repository() {
    assert_eq!(
        mt_models::resolve_url("JustFrederik/nllb-200-distilled-600M-ct2-int8", "model.bin"),
        "https://huggingface.co/JustFrederik/nllb-200-distilled-600M-ct2-int8/resolve/main/model.bin?download=true"
    );
}
