//! The translation step: deciding what a translation request amounts to
//! before the model runs, and interpreting what the model returned.
//!
//! The neural decoder itself runs outside; the logic here fixes, for
//! every job, whether it is rejected, returned unchanged, or run, and
//! with which target-language tag.

use vstd::prelude::*;
use vstd::string::StringExecFns;
use crate::text::{trim_spec, trim_str};
use crate::langid::{
    nllb_for_app_lang, resolve_source_spec, nllb_lang_for_app_lang, resolve_source_nllb_lang,
};

verus! {

/// One translation job: the text and the two language codes.
pub struct TranslationJob {
    pub text: String,
    pub source_lang: String,
    pub target_lang: String,
}

impl Clone for TranslationJob {
    fn clone(&self) -> (r: Self)
        ensures
            r.text@ == self.text@,
            r.source_lang@ == self.source_lang@,
            r.target_lang@ == self.target_lang@,
    {
        TranslationJob {
            text: self.text.clone(),
            source_lang: self.source_lang.clone(),
            target_lang: self.target_lang.clone(),
        }
    }
}

/// What the translation worker is asked to do.
pub enum TranslationRequest {
    LoadModel(Option<String>),
    SetLanguages { source: Option<String>, target: String },
    Translate(TranslationJob),
    TranslatePartial(TranslationJob),
    Shutdown,
}

/// What the translation worker reports back on its final channel.
pub enum TranslationResponse {
    ModelLoaded(Result<(), String>),
    TranslationComplete(Result<String, String>),
}

/// What a job amounts to once the languages are resolved.
pub enum TranslationPlan {
    /// No model is loaded; the job fails.
    NotLoaded { message: String },
    /// The text trims to nothing; the result is the empty string.
    Empty,
    /// The target or source language is unsupported; the job fails.
    Unsupported { message: String },
    /// Source and target resolve to the same language; the trimmed
    /// text is returned unchanged.
    Unchanged { text: String },
    /// Run the decoder on the trimmed text with this target tag.
    Run { text: String, target_tag: String },
}

/// Decides what a job amounts to.  The decision is exactly the one the
/// worker applies: a missing model fails, empty input returns empty, an
/// unsupported target (or an unsupported explicit source) fails, equal
/// resolved languages skip the decoder, anything else runs it.
pub fn plan_translation(job: &TranslationJob, model_loaded: bool) -> (r: TranslationPlan)
    ensures
        !model_loaded ==> r is NotLoaded,
        model_loaded && trim_spec(job.text@).len() == 0 ==> r is Empty,
        model_loaded && trim_spec(job.text@).len() > 0 ==> {
            let tt = nllb_for_app_lang(job.target_lang@);
            let st = resolve_source_spec(job.source_lang@, trim_spec(job.text@));
            if tt is None {
                r is Unsupported
            } else if st is None {
                r is Unsupported
            } else if st.unwrap() == tt.unwrap() {
                r matches TranslationPlan::Unchanged { text } && text@ == trim_spec(job.text@)
            } else {
                r matches TranslationPlan::Run { text, target_tag } && text@ == trim_spec(
                    job.text@,
                ) && target_tag@ == tt.unwrap()
            }
        },
{
    if !model_loaded {
        return TranslationPlan::NotLoaded {
            message: String::from_str("Translation model not loaded"),
        };
    }
    let trimmed = trim_str(job.text.as_str());
    if trimmed.as_str().unicode_len() == 0 {
        return TranslationPlan::Empty;
    }
    let target = nllb_lang_for_app_lang(job.target_lang.as_str());
    match target {
        None => {
            let mut message = String::from_str("Unsupported target language '");
            message.append(job.target_lang.as_str());
            message.append("'");
            TranslationPlan::Unsupported { message }
        },
        Some(target_tag) => {
            let source = resolve_source_nllb_lang(job.source_lang.as_str(), trimmed.as_str());
            match source {
                None => {
                    let mut message = String::from_str("Unsupported source language '");
                    message.append(job.source_lang.as_str());
                    message.append("'");
                    TranslationPlan::Unsupported { message }
                },
                Some(source_tag) => {
                    if crate::text::str_eq(source_tag.as_str(), target_tag.as_str()) {
                        TranslationPlan::Unchanged { text: trimmed }
                    } else {
                        TranslationPlan::Run { text: trimmed, target_tag }
                    }
                },
            }
        },
    }
}

/// Interprets the decoder's raw output: an output that trims to nothing
/// falls back to the source text, anything else is the trimmed output.
pub fn finish_translation(source_text: &str, raw_output: &str) -> (r: String)
    ensures
        trim_spec(raw_output@).len() == 0 ==> r@ == source_text@,
        trim_spec(raw_output@).len() > 0 ==> r@ == trim_spec(raw_output@),
{
    let trimmed = trim_str(raw_output);
    if trimmed.as_str().unicode_len() == 0 {
        source_text.to_owned()
    } else {
        trimmed
    }
}

} // verus!
