//! The persisted application settings and their defaults.  Reading and
//! writing the settings file is the surrounding application's job;
//! unknown fields are ignored there and missing ones take the defaults
//! below.

use vstd::prelude::*;
use vstd::string::StringExecFns;

verus! {

/// The persisted settings.
pub struct AppConfig {
    pub hotkey: String,
    pub selected_model: String,
    pub smart_paste: bool,
    pub language: String,
    pub vocab_enabled: bool,
    pub translation_enabled: bool,
    pub translation_target_lang: String,
    pub translation_model: String,
}

/// Default model name.
pub fn default_model() -> (r: String)
    ensures
        r@ == "base.en"@,
{
    String::from_str("base.en")
}

/// Default source language.
pub fn default_language() -> (r: String)
    ensures
        r@ == "en"@,
{
    String::from_str("en")
}

/// Default translation target language.
pub fn default_translation_target_lang() -> (r: String)
    ensures
        r@ == "en"@,
{
    String::from_str("en")
}

/// Default translation model name.
pub fn default_translation_model() -> (r: String)
    ensures
        r@ == crate::mt_models::default_translation_model_spec(),
{
    String::from_str("nllb-200-distilled-600M-int8")
}

/// Default for the boolean settings that start enabled.
pub fn default_true() -> (r: bool)
    ensures
        r,
{
    true
}

impl Default for AppConfig {
    fn default() -> (r: Self)
        ensures
            r.hotkey@ == "alt+space"@,
            r.selected_model@ == "base.en"@,
            r.smart_paste,
            r.language@ == "en"@,
            r.vocab_enabled,
            !r.translation_enabled,
            r.translation_target_lang@ == "en"@,
            r.translation_model@ == crate::mt_models::default_translation_model_spec(),
    {
        AppConfig {
            hotkey: String::from_str("alt+space"),
            selected_model: default_model(),
            smart_paste: true,
            language: default_language(),
            vocab_enabled: true,
            translation_enabled: false,
            translation_target_lang: default_translation_target_lang(),
            translation_model: default_translation_model(),
        }
    }
}

} // verus!
