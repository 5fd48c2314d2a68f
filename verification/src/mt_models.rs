//! Bookkeeping for the translation model: the catalogue, the files a
//! model needs on disk, and the download URL of each file.
//!
//! As with the speech models, disk probing is the application's job: it
//! hands [`model_exists`] the file names it sees in the model's
//! directory.

use vstd::prelude::*;
use vstd::string::StringExecFns;
use vstd::string::StrSliceExecFns;
use crate::text::str_eq;

verus! {

/// One entry of the translation model catalogue.
pub struct TranslationModelInfo {
    pub name: String,
    pub repo: String,
    pub required_files: Vec<String>,
}

/// Mathematical image of a [`TranslationModelInfo`].
pub struct TranslationModelSpec {
    pub name: Seq<char>,
    pub repo: Seq<char>,
    pub required_files: Seq<Seq<char>>,
}

impl View for TranslationModelInfo {
    type V = TranslationModelSpec;

    open spec fn view(&self) -> TranslationModelSpec {
        TranslationModelSpec {
            name: self.name@,
            repo: self.repo@,
            required_files: self.required_files@.map_values(|f: String| f@),
        }
    }
}

/// The default translation model's name.
pub open spec fn default_translation_model_spec() -> Seq<char> {
    "nllb-200-distilled-600M-int8"@
}

/// The files the default translation model needs on disk.
pub open spec fn required_files_spec() -> Seq<Seq<char>> {
    seq!["config.json"@, "model.bin"@, "shared_vocabulary.json"@, "tokenizer.json"@]
}

/// The one translation model the engine knows.
pub open spec fn translation_models_spec() -> Seq<TranslationModelSpec> {
    seq![
        TranslationModelSpec {
            name: default_translation_model_spec(),
            repo: "JustFrederik/nllb-200-distilled-600M-ct2-int8"@,
            required_files: required_files_spec(),
        },
    ]
}

/// The translation models the engine can download and run.
pub fn available_translation_models() -> (r: Vec<TranslationModelInfo>)
    ensures
        r@.map_values(|m: TranslationModelInfo| m@) == translation_models_spec(),
{
    let mut files: Vec<String> = Vec::new();
    files.push(String::from_str("config.json"));
    files.push(String::from_str("model.bin"));
    files.push(String::from_str("shared_vocabulary.json"));
    files.push(String::from_str("tokenizer.json"));
    proof {
        assert(files@.map_values(|f: String| f@) =~= required_files_spec());
    }
    let mut r: Vec<TranslationModelInfo> = Vec::new();
    r.push(
        TranslationModelInfo {
            name: String::from_str("nllb-200-distilled-600M-int8"),
            repo: String::from_str("JustFrederik/nllb-200-distilled-600M-ct2-int8"),
            required_files: files,
        },
    );
    proof {
        assert(r@.map_values(|m: TranslationModelInfo| m@) =~= translation_models_spec());
    }
    r
}

/// Looks the translation model up by name.
pub fn find_model(model_name: &str) -> (r: Option<TranslationModelInfo>)
    ensures
        r is Some <==> model_name@ == default_translation_model_spec(),
        r is Some ==> r.unwrap()@ == translation_models_spec()[0],
{
    let mut models = available_translation_models();
    proof {
        assert(models@.map_values(|m: TranslationModelInfo| m@).len() == models@.len());
        assert(models@.len() == 1);
        assert(models@[0]@ == translation_models_spec()[0]);
    }
    if str_eq(model_name, "nllb-200-distilled-600M-int8") {
        let m = models.remove(0);
        proof {
            assert(m@ == translation_models_spec()[0]);
        }
        Some(m)
    } else {
        None
    }
}

/// The model's directory name under the translation models directory.
pub fn model_path(model_name: &str) -> (r: String)
    ensures
        r@ == model_name@,
{
    model_name.to_owned()
}

/// Whether the model is known and every file it needs is among
/// `present_files`, the names the application sees in its directory.
pub fn model_exists(model_name: &str, present_files: &Vec<String>) -> (r: bool)
    ensures
        r == (model_name@ == default_translation_model_spec() && (forall|k: int|
            0 <= k < required_files_spec().len() ==> present_files@.map_values(
                |f: String| f@,
            ).contains(#[trigger] required_files_spec()[k]))),
{
    match find_model(model_name) {
        Some(m) => {
            let nfiles = m.required_files.len();
            let mut k: usize = 0;
            while k < nfiles
                invariant
                    k <= nfiles,
                    nfiles == m.required_files@.len(),
                    m@ == translation_models_spec()[0],
                    forall|j: int|
                        0 <= j < k ==> present_files@.map_values(|f: String| f@).contains(
                            #[trigger] required_files_spec()[j],
                        ),
                decreases nfiles - k,
            {
                proof {
                    assert(m.required_files@[k as int]@ == required_files_spec()[k as int]);
                }
                let mut found = false;
                let mut i: usize = 0;
                while i < present_files.len()
                    invariant
                        i <= present_files@.len(),
                        k < m.required_files@.len(),
                        found ==> present_files@.map_values(|f: String| f@).contains(
                            m.required_files@[k as int]@,
                        ),
                        !found ==> forall|j: int|
                            0 <= j < i ==> #[trigger] present_files@[j]@ != m.required_files@[
                                k as int
                            ]@,
                    decreases present_files@.len() - i,
                {
                    if str_eq(present_files[i].as_str(), m.required_files[k].as_str()) {
                        found = true;
                        proof {
                            assert(present_files@.map_values(|f: String| f@)[i as int]
                                == m.required_files@[k as int]@);
                        }
                    }
                    i = i + 1;
                }
                if !found {
                    proof {
                        let pv = present_files@.map_values(|f: String| f@);
                        assert forall|j: int|
                            0 <= j < pv.len() implies pv[j] != required_files_spec()[k as int] by {
                            assert(pv[j] == present_files@[j]@);
                        }
                        assert(!pv.contains(required_files_spec()[k as int]));
                    }
                    return false;
                }
                k = k + 1;
            }
            true
        },
        None => false,
    }
}

/// The download URL of one model file inside a repository.
pub fn resolve_url(repo: &str, filename: &str) -> (r: String)
    ensures
        r@ == "https://huggingface.co/"@ + repo@ + "/resolve/main/"@ + filename@
            + "?download=true"@,
{
    let mut r = String::from_str("https://huggingface.co/");
    r.append(repo);
    r.append("/resolve/main/");
    r.append(filename);
    r.append("?download=true");
    r
}

} // verus!
