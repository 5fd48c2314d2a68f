//! Language resolution for translation: the app's two-letter language
//! codes map to the translation model's internal tags, and `auto` asks
//! a language-identification pass to pick the source language, falling
//! back to English when detection fails or finds an unsupported
//! language.

use vstd::prelude::*;
use vstd::string::StringExecFns;
use crate::text::str_eq;

verus! {

/// The model tag for an app language code, when the language is
/// supported.
pub open spec fn nllb_for_app_lang(lang: Seq<char>) -> Option<Seq<char>> {
    if lang == "en"@ {
        Some("eng_Latn"@)
    } else if lang == "es"@ {
        Some("spa_Latn"@)
    } else if lang == "fr"@ {
        Some("fra_Latn"@)
    } else if lang == "de"@ {
        Some("deu_Latn"@)
    } else if lang == "it"@ {
        Some("ita_Latn"@)
    } else if lang == "pt"@ {
        Some("por_Latn"@)
    } else if lang == "zh"@ {
        Some("zho_Hans"@)
    } else if lang == "ja"@ {
        Some("jpn_Jpan"@)
    } else if lang == "ko"@ {
        Some("kor_Hang"@)
    } else if lang == "ru"@ {
        Some("rus_Cyrl"@)
    } else if lang == "ar"@ {
        Some("arb_Arab"@)
    } else if lang == "hi"@ {
        Some("hin_Deva"@)
    } else if lang == "nl"@ {
        Some("nld_Latn"@)
    } else if lang == "pl"@ {
        Some("pol_Latn"@)
    } else if lang == "tr"@ {
        Some("tur_Latn"@)
    } else if lang == "sv"@ {
        Some("swe_Latn"@)
    } else if lang == "uk"@ {
        Some("ukr_Cyrl"@)
    } else {
        None
    }
}

/// The model tag for a detected three-letter language code, when that
/// language is supported.
pub open spec fn nllb_for_detected(code: Seq<char>) -> Option<Seq<char>> {
    if code == "eng"@ {
        Some("eng_Latn"@)
    } else if code == "spa"@ {
        Some("spa_Latn"@)
    } else if code == "fra"@ {
        Some("fra_Latn"@)
    } else if code == "deu"@ {
        Some("deu_Latn"@)
    } else if code == "ita"@ {
        Some("ita_Latn"@)
    } else if code == "por"@ {
        Some("por_Latn"@)
    } else if code == "cmn"@ {
        Some("zho_Hans"@)
    } else if code == "jpn"@ {
        Some("jpn_Jpan"@)
    } else if code == "kor"@ {
        Some("kor_Hang"@)
    } else if code == "rus"@ {
        Some("rus_Cyrl"@)
    } else if code == "ara"@ {
        Some("arb_Arab"@)
    } else if code == "hin"@ {
        Some("hin_Deva"@)
    } else if code == "nld"@ {
        Some("nld_Latn"@)
    } else if code == "pol"@ {
        Some("pol_Latn"@)
    } else if code == "tur"@ {
        Some("tur_Latn"@)
    } else if code == "swe"@ {
        Some("swe_Latn"@)
    } else if code == "ukr"@ {
        Some("ukr_Cyrl"@)
    } else {
        None
    }
}

/// The three-letter code of the language that identification finds in a
/// text, if it finds one.  Identification is a pure function of the
/// text, so the result only carries a name here.
pub uninterp spec fn detected_lang_of(s: Seq<char>) -> Option<Seq<char>>;

/// Relies on `whatlang::detect`: trigram-based language identification,
/// a deterministic function of the text alone; `Lang::code` is the
/// language's ISO 639-3 code.
#[verifier::external_body]
fn detect_lang_code(text: &str) -> (r: Option<String>)
    ensures
        r is Some <==> detected_lang_of(text@) is Some,
        r is Some ==> r.unwrap()@ == detected_lang_of(text@).unwrap(),
{
    match whatlang::detect(text) {
        Some(info) => Some(info.lang().code().to_string()),
        None => None,
    }
}

/// The source language's model tag.  `auto` runs language
/// identification on the text and falls back to English when nothing
/// supported is found; anything else is looked up directly.
pub open spec fn resolve_source_spec(source_lang: Seq<char>, text: Seq<char>) -> Option<Seq<char>> {
    if source_lang == "auto"@ {
        match detected_lang_of(text) {
            Some(code) => match nllb_for_detected(code) {
                Some(tag) => Some(tag),
                None => Some("eng_Latn"@),
            },
            None => Some("eng_Latn"@),
        }
    } else {
        nllb_for_app_lang(source_lang)
    }
}

/// The model tag for an app language code.
pub fn nllb_lang_for_app_lang(lang: &str) -> (r: Option<String>)
    ensures
        r is Some <==> nllb_for_app_lang(lang@) is Some,
        r is Some ==> r.unwrap()@ == nllb_for_app_lang(lang@).unwrap(),
{
    if str_eq(lang, "en") {
        Some(String::from_str("eng_Latn"))
    } else if str_eq(lang, "es") {
        Some(String::from_str("spa_Latn"))
    } else if str_eq(lang, "fr") {
        Some(String::from_str("fra_Latn"))
    } else if str_eq(lang, "de") {
        Some(String::from_str("deu_Latn"))
    } else if str_eq(lang, "it") {
        Some(String::from_str("ita_Latn"))
    } else if str_eq(lang, "pt") {
        Some(String::from_str("por_Latn"))
    } else if str_eq(lang, "zh") {
        Some(String::from_str("zho_Hans"))
    } else if str_eq(lang, "ja") {
        Some(String::from_str("jpn_Jpan"))
    } else if str_eq(lang, "ko") {
        Some(String::from_str("kor_Hang"))
    } else if str_eq(lang, "ru") {
        Some(String::from_str("rus_Cyrl"))
    } else if str_eq(lang, "ar") {
        Some(String::from_str("arb_Arab"))
    } else if str_eq(lang, "hi") {
        Some(String::from_str("hin_Deva"))
    } else if str_eq(lang, "nl") {
        Some(String::from_str("nld_Latn"))
    } else if str_eq(lang, "pl") {
        Some(String::from_str("pol_Latn"))
    } else if str_eq(lang, "tr") {
        Some(String::from_str("tur_Latn"))
    } else if str_eq(lang, "sv") {
        Some(String::from_str("swe_Latn"))
    } else if str_eq(lang, "uk") {
        Some(String::from_str("ukr_Cyrl"))
    } else {
        None
    }
}

/// The model tag for a detected three-letter code.
pub fn nllb_lang_for_detected(code: &str) -> (r: Option<String>)
    ensures
        r is Some <==> nllb_for_detected(code@) is Some,
        r is Some ==> r.unwrap()@ == nllb_for_detected(code@).unwrap(),
{
    if str_eq(code, "eng") {
        Some(String::from_str("eng_Latn"))
    } else if str_eq(code, "spa") {
        Some(String::from_str("spa_Latn"))
    } else if str_eq(code, "fra") {
        Some(String::from_str("fra_Latn"))
    } else if str_eq(code, "deu") {
        Some(String::from_str("deu_Latn"))
    } else if str_eq(code, "ita") {
        Some(String::from_str("ita_Latn"))
    } else if str_eq(code, "por") {
        Some(String::from_str("por_Latn"))
    } else if str_eq(code, "cmn") {
        Some(String::from_str("zho_Hans"))
    } else if str_eq(code, "jpn") {
        Some(String::from_str("jpn_Jpan"))
    } else if str_eq(code, "kor") {
        Some(String::from_str("kor_Hang"))
    } else if str_eq(code, "rus") {
        Some(String::from_str("rus_Cyrl"))
    } else if str_eq(code, "ara") {
        Some(String::from_str("arb_Arab"))
    } else if str_eq(code, "hin") {
        Some(String::from_str("hin_Deva"))
    } else if str_eq(code, "nld") {
        Some(String::from_str("nld_Latn"))
    } else if str_eq(code, "pol") {
        Some(String::from_str("pol_Latn"))
    } else if str_eq(code, "tur") {
        Some(String::from_str("tur_Latn"))
    } else if str_eq(code, "swe") {
        Some(String::from_str("swe_Latn"))
    } else if str_eq(code, "ukr") {
        Some(String::from_str("ukr_Cyrl"))
    } else {
        None
    }
}

/// Resolves the source language to a model tag, identifying the
/// language of `text` when the source is `auto`.
pub fn resolve_source_nllb_lang(source_lang: &str, text: &str) -> (r: Option<String>)
    ensures
        r is Some <==> resolve_source_spec(source_lang@, text@) is Some,
        r is Some ==> r.unwrap()@ == resolve_source_spec(source_lang@, text@).unwrap(),
{
    if str_eq(source_lang, "auto") {
        match detect_lang_code(text) {
            Some(code) => match nllb_lang_for_detected(code.as_str()) {
                Some(tag) => Some(tag),
                None => Some(String::from_str("eng_Latn")),
            },
            None => Some(String::from_str("eng_Latn")),
        }
    } else {
        nllb_lang_for_app_lang(source_lang)
    }
}

} // verus!
