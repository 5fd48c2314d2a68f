//! Bookkeeping for the speech-recognition models: the catalogue of
//! known models, name lookups, file names, and the English-only /
//! multilingual pairing used when the source language changes.
//!
//! Whether a model file is present on disk is a question for the
//! surrounding application; it hands the list of files it sees in the
//! models directory to [`model_exists`].

use vstd::prelude::*;
use vstd::string::StringExecFns;
use crate::text::str_eq;

verus! {

/// One entry of the model catalogue.
pub struct ModelInfo {
    pub name: String,
    pub filename: String,
    pub size_mb: u32,
    pub description: String,
    pub english_only: bool,
}

/// Mathematical image of a [`ModelInfo`].
pub struct ModelInfoSpec {
    pub name: Seq<char>,
    pub filename: Seq<char>,
    pub size_mb: u32,
    pub english_only: bool,
}

impl View for ModelInfo {
    type V = ModelInfoSpec;

    open spec fn view(&self) -> ModelInfoSpec {
        ModelInfoSpec {
            name: self.name@,
            filename: self.filename@,
            size_mb: self.size_mb,
            english_only: self.english_only,
        }
    }
}

/// The catalogue: name, model file, download size and variant of every
/// model the engine knows.
pub open spec fn models_spec() -> Seq<ModelInfoSpec> {
    seq![
        ModelInfoSpec {
            name: "tiny.en"@,
            filename: "ggml-tiny.en.bin"@,
            size_mb: 78,
            english_only: true,
        },
        ModelInfoSpec { name: "tiny"@, filename: "ggml-tiny.bin"@, size_mb: 78, english_only: false },
        ModelInfoSpec {
            name: "base.en"@,
            filename: "ggml-base.en.bin"@,
            size_mb: 148,
            english_only: true,
        },
        ModelInfoSpec { name: "base"@, filename: "ggml-base.bin"@, size_mb: 148, english_only: false },
        ModelInfoSpec {
            name: "small.en"@,
            filename: "ggml-small.en.bin"@,
            size_mb: 488,
            english_only: true,
        },
        ModelInfoSpec {
            name: "small"@,
            filename: "ggml-small.bin"@,
            size_mb: 488,
            english_only: false,
        },
        ModelInfoSpec {
            name: "medium.en"@,
            filename: "ggml-medium.en.bin"@,
            size_mb: 1530,
            english_only: true,
        },
        ModelInfoSpec {
            name: "medium"@,
            filename: "ggml-medium.bin"@,
            size_mb: 1530,
            english_only: false,
        },
        ModelInfoSpec {
            name: "base.en-q8_0"@,
            filename: "ggml-base.en-q8_0.bin"@,
            size_mb: 82,
            english_only: true,
        },
    ]
}

/// The first catalogue entry with the given name, if any.
pub open spec fn find_model_spec(name: Seq<char>) -> Option<ModelInfoSpec>
    decreases models_spec().len(),
{
    find_in(models_spec(), name)
}

/// The first entry of `models` named `name`.
pub open spec fn find_in(models: Seq<ModelInfoSpec>, name: Seq<char>) -> Option<ModelInfoSpec>
    decreases models.len(),
{
    if models.len() == 0 {
        None
    } else if models[0].name == name {
        Some(models[0])
    } else {
        find_in(models.drop_first(), name)
    }
}

fn make_model(
    name: &str,
    filename: &str,
    size_mb: u32,
    description: &str,
    english_only: bool,
) -> (r: ModelInfo)
    ensures
        r@ == (ModelInfoSpec { name: name@, filename: filename@, size_mb, english_only }),
        r.description@ == description@,
{
    ModelInfo {
        name: String::from_str(name),
        filename: String::from_str(filename),
        size_mb,
        description: String::from_str(description),
        english_only,
    }
}

/// The models the engine can download and run.
pub fn available_models() -> (r: Vec<ModelInfo>)
    ensures
        r@.map_values(|m: ModelInfo| m@) == models_spec(),
{
    let mut r: Vec<ModelInfo> = Vec::new();
    r.push(
        make_model(
            "tiny.en",
            "ggml-tiny.en.bin",
            78,
            "Tiny English-only model - fastest, least accurate",
            true,
        ),
    );
    r.push(
        make_model(
            "tiny",
            "ggml-tiny.bin",
            78,
            "Tiny multilingual model - fastest, least accurate",
            false,
        ),
    );
    r.push(
        make_model(
            "base.en",
            "ggml-base.en.bin",
            148,
            "Base English-only model - good balance of speed and accuracy",
            true,
        ),
    );
    r.push(
        make_model(
            "base",
            "ggml-base.bin",
            148,
            "Base multilingual model - good balance of speed and accuracy",
            false,
        ),
    );
    r.push(
        make_model(
            "small.en",
            "ggml-small.en.bin",
            488,
            "Small English-only model - more accurate, slower",
            true,
        ),
    );
    r.push(
        make_model(
            "small",
            "ggml-small.bin",
            488,
            "Small multilingual model - more accurate, slower",
            false,
        ),
    );
    r.push(
        make_model(
            "medium.en",
            "ggml-medium.en.bin",
            1530,
            "Medium English-only model - high accuracy, slow",
            true,
        ),
    );
    r.push(
        make_model(
            "medium",
            "ggml-medium.bin",
            1530,
            "Medium multilingual model - high accuracy, slow",
            false,
        ),
    );
    r.push(
        make_model(
            "base.en-q8_0",
            "ggml-base.en-q8_0.bin",
            82,
            "Base English-only quantized model - fast with good accuracy",
            true,
        ),
    );
    proof {
        assert(r@.map_values(|m: ModelInfo| m@) =~= models_spec());
    }
    r
}

/// Looks the model up in the catalogue by name.
pub fn find_model(model_name: &str) -> (r: Option<ModelInfo>)
    ensures
        r is Some <==> find_model_spec(model_name@) is Some,
        r is Some ==> r.unwrap()@ == find_model_spec(model_name@).unwrap(),
{
    let models = available_models();
    let ghost all = models@.map_values(|m: ModelInfo| m@);
    let mut i: usize = 0;
    proof {
        assert(all.skip(0) =~= all);
    }
    while i < models.len()
        invariant
            i <= models@.len(),
            all == models@.map_values(|m: ModelInfo| m@),
            all == models_spec(),
            all.len() == models@.len(),
            find_in(all, model_name@) == find_in(all.skip(i as int), model_name@),
        decreases models@.len() - i,
    {
        proof {
            assert(all.skip(i as int)[0] == all[i as int]);
            assert(all[i as int] == models@[i as int]@);
            assert(all.skip(i as int).drop_first() =~= all.skip(i as int + 1));
        }
        if str_eq(models[i].name.as_str(), model_name) {
            let m = models[i].clone();
            return Some(m);
        }
        i = i + 1;
    }
    proof {
        assert(all.skip(all.len() as int) =~= Seq::<ModelInfoSpec>::empty());
    }
    None
}

impl Clone for ModelInfo {
    fn clone(&self) -> (r: Self)
        ensures
            r@ == self@,
            r.description@ == self.description@,
    {
        ModelInfo {
            name: self.name.clone(),
            filename: self.filename.clone(),
            size_mb: self.size_mb,
            description: self.description.clone(),
            english_only: self.english_only,
        }
    }
}

/// The model file's name inside the models directory, for a known model.
pub fn model_path(model_name: &str) -> (r: Option<String>)
    ensures
        r is Some <==> find_model_spec(model_name@) is Some,
        r is Some ==> r.unwrap()@ == find_model_spec(model_name@).unwrap().filename,
{
    match find_model(model_name) {
        Some(m) => Some(m.filename),
        None => None,
    }
}

/// Whether the model is known and its file is among `present_files`,
/// the file names the application sees in the models directory.
pub fn model_exists(model_name: &str, present_files: &Vec<String>) -> (r: bool)
    ensures
        r == (find_model_spec(model_name@) is Some && present_files@.map_values(
            |f: String| f@,
        ).contains(find_model_spec(model_name@).unwrap().filename)),
{
    match find_model(model_name) {
        Some(m) => {
            let mut i: usize = 0;
            while i < present_files.len()
                invariant
                    i <= present_files@.len(),
                    find_model_spec(model_name@) is Some,
                    m@ == find_model_spec(model_name@).unwrap(),
                    forall|j: int| 0 <= j < i ==> #[trigger] present_files@[j]@ != m@.filename,
                decreases present_files@.len() - i,
            {
                if str_eq(present_files[i].as_str(), m.filename.as_str()) {
                    proof {
                        assert(present_files@.map_values(|f: String| f@)[i as int] == m@.filename);
                    }
                    return true;
                }
                i = i + 1;
            }
            proof {
                let pv = present_files@.map_values(|f: String| f@);
                assert forall|j: int| 0 <= j < pv.len() implies pv[j] != m@.filename by {
                    assert(pv[j] == present_files@[j]@);
                }
                assert(!pv.contains(m@.filename));
            }
            false
        },
        None => false,
    }
}

/// The multilingual counterpart of an English-only model name.
pub open spec fn multilingual_equivalent_spec(name: Seq<char>) -> Option<Seq<char>> {
    if name == "tiny.en"@ {
        Some("tiny"@)
    } else if name == "base.en"@ || name == "base.en-q8_0"@ {
        Some("base"@)
    } else if name == "small.en"@ {
        Some("small"@)
    } else if name == "medium.en"@ {
        Some("medium"@)
    } else {
        None
    }
}

/// The English-only counterpart of a multilingual model name.
pub open spec fn english_equivalent_spec(name: Seq<char>) -> Option<Seq<char>> {
    if name == "tiny"@ {
        Some("tiny.en"@)
    } else if name == "base"@ {
        Some("base.en"@)
    } else if name == "small"@ {
        Some("small.en"@)
    } else if name == "medium"@ {
        Some("medium.en"@)
    } else {
        None
    }
}

/// Returns the multilingual equivalent of an English-only model name.
pub fn multilingual_equivalent(model_name: &str) -> (r: Option<&'static str>)
    ensures
        r is Some <==> multilingual_equivalent_spec(model_name@) is Some,
        r is Some ==> r.unwrap()@ == multilingual_equivalent_spec(model_name@).unwrap(),
{
    if str_eq(model_name, "tiny.en") {
        Some("tiny")
    } else if str_eq(model_name, "base.en") || str_eq(model_name, "base.en-q8_0") {
        Some("base")
    } else if str_eq(model_name, "small.en") {
        Some("small")
    } else if str_eq(model_name, "medium.en") {
        Some("medium")
    } else {
        None
    }
}

/// Returns the English-only equivalent of a multilingual model name.
pub fn english_equivalent(model_name: &str) -> (r: Option<&'static str>)
    ensures
        r is Some <==> english_equivalent_spec(model_name@) is Some,
        r is Some ==> r.unwrap()@ == english_equivalent_spec(model_name@).unwrap(),
{
    if str_eq(model_name, "tiny") {
        Some("tiny.en")
    } else if str_eq(model_name, "base") {
        Some("base.en")
    } else if str_eq(model_name, "small") {
        Some("small.en")
    } else if str_eq(model_name, "medium") {
        Some("medium.en")
    } else {
        None
    }
}

/// Returns whether a model is English-only; unknown models count as
/// multilingual.
pub fn is_english_only(model_name: &str) -> (r: bool)
    ensures
        r == (find_model_spec(model_name@) is Some && find_model_spec(
            model_name@,
        ).unwrap().english_only),
{
    match find_model(model_name) {
        Some(m) => m.english_only,
        None => false,
    }
}

/// Download progress in thousandths, clamped to complete; reports
/// nothing while the total is unknown.
pub fn download_progress(downloaded: u64, total: u64) -> (r: u16)
    ensures
        total == 0 ==> r == 0,
        total > 0 && downloaded >= total ==> r == 1000,
        total > 0 && downloaded < total ==> r == (downloaded as int * 1000) / (total as int),
        r <= 1000,
{
    if total == 0 {
        0
    } else if downloaded >= total {
        1000
    } else {
        let v = ((downloaded as u128) * 1000) / (total as u128);
        proof {
            assert((downloaded as int * 1000) / (total as int) < 1000) by (nonlinear_arith)
                requires
                    0 < (total as int),
                    (downloaded as int) < (total as int),
            ;
            assert(v == (downloaded as int * 1000) / (total as int)) by (nonlinear_arith)
                requires
                    0 < total as int,
                    v == ((downloaded as u128) * 1000) as int / (total as u128) as int,
                    downloaded as u128 as int == downloaded as int,
                    total as u128 as int == total as int,
            ;
        }
        v as u16
    }
}

} // verus!
