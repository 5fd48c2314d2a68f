//! The workers' drain policy.
//!
//! Each inference worker owns one loaded model and serves a mailbox.
//! When it pops a partial request it first drains whatever else is
//! queued: newer partials replace the one in hand, a queued final
//! request supersedes them all, model loads and language changes are
//! served on the way, and a shutdown ends the worker.  The policy
//! guarantees that at most one inference runs per drain, that a final
//! request always wins over queued partials, and that the partial that
//! runs is the newest one.
//!
//! The decision is computed here from the drained requests; running the
//! model and touching the channels is the application's job.

use vstd::prelude::*;
use crate::translate::{TranslationJob, TranslationRequest};

verus! {

/// What the speech-recognition worker is asked to do.  `A` is the
/// audio payload (the application uses its sample buffers).
pub enum TranscriptionRequest<A> {
    LoadModel(String),
    Transcribe(A),
    TranscribePartial(A),
    SetLanguage(Option<String>),
    Shutdown,
}

/// What the speech-recognition worker reports back on its final
/// channel.
pub enum TranscriptionResponse {
    ModelLoaded(Result<(), String>),
    TranscriptionComplete(Result<String, String>),
}

/// The one inference (or exit) a drain ends in.
pub enum DrainTerminal<A> {
    /// Run the model on this audio and answer on the final channel.
    RunFinal(A),
    /// Run the model on this audio and emit on the partial channel.
    RunPartial(A),
    /// Exit the worker.
    Shutdown,
}

/// Everything one drain decides: the model loads and language changes
/// to serve in order, the single terminal action, and the requests
/// that stay queued.
pub struct DrainOutcome<A> {
    pub loads: Vec<String>,
    pub languages: Vec<Option<String>>,
    pub terminal: DrainTerminal<A>,
    pub remaining: Vec<TranscriptionRequest<A>>,
}

/// Mathematical image of a drain outcome.
pub struct DrainSpec<A> {
    pub loads: Seq<Seq<char>>,
    pub languages: Seq<Option<Seq<char>>>,
    pub terminal: DrainTerminal<A>,
    pub remaining: Seq<TranscriptionRequest<A>>,
}

/// The drain policy over a held partial payload and the queued
/// requests: newer partials replace the held one, a final request
/// stops the drain and runs instead, loads and language changes are
/// collected in order, shutdown exits.
pub open spec fn drain_spec<A>(latest: A, queue: Seq<TranscriptionRequest<A>>) -> DrainSpec<A>
    decreases queue.len(),
{
    if queue.len() == 0 {
        DrainSpec {
            loads: seq![],
            languages: seq![],
            terminal: DrainTerminal::RunPartial(latest),
            remaining: seq![],
        }
    } else {
        match queue[0] {
            TranscriptionRequest::TranscribePartial(newer) => drain_spec(
                newer,
                queue.drop_first(),
            ),
            TranscriptionRequest::Transcribe(audio) => DrainSpec {
                loads: seq![],
                languages: seq![],
                terminal: DrainTerminal::RunFinal(audio),
                remaining: queue.drop_first(),
            },
            TranscriptionRequest::LoadModel(path) => {
                let rest = drain_spec(latest, queue.drop_first());
                DrainSpec {
                    loads: seq![path@] + rest.loads,
                    languages: rest.languages,
                    terminal: rest.terminal,
                    remaining: rest.remaining,
                }
            },
            TranscriptionRequest::SetLanguage(lang) => {
                let rest = drain_spec(latest, queue.drop_first());
                DrainSpec {
                    loads: rest.loads,
                    languages: seq![
                        match lang {
                            Some(l) => Some(l@),
                            None => None,
                        },
                    ] + rest.languages,
                    terminal: rest.terminal,
                    remaining: rest.remaining,
                }
            },
            TranscriptionRequest::Shutdown => DrainSpec {
                loads: seq![],
                languages: seq![],
                terminal: DrainTerminal::Shutdown,
                remaining: queue.drop_first(),
            },
        }
    }
}

/// The view of a language hint.
pub open spec fn lang_view(l: Option<String>) -> Option<Seq<char>> {
    match l {
        Some(s) => Some(s@),
        None => None,
    }
}

/// Drains the queued requests around a held partial payload and
/// returns what the worker must do, in order: serve the loads and
/// language changes, then perform the single terminal action; the
/// remaining requests stay in the mailbox.
pub fn drain_partial_queue<A>(latest: A, queued: Vec<TranscriptionRequest<A>>) -> (r: DrainOutcome<
    A,
>)
    ensures
        r.loads@.map_values(|s: String| s@) == drain_spec(latest, queued@).loads,
        r.languages@.map_values(|l: Option<String>| lang_view(l)) == drain_spec(
            latest,
            queued@,
        ).languages,
        r.terminal == drain_spec(latest, queued@).terminal,
        r.remaining@ == drain_spec(latest, queued@).remaining,
{
    let ghost q0 = queued@;
    let mut pending = queued;
    let mut cur = latest;
    let mut loads: Vec<String> = Vec::new();
    let mut languages: Vec<Option<String>> = Vec::new();
    proof {
        assert(loads@.map_values(|s: String| s@) =~= Seq::<Seq<char>>::empty());
        assert(languages@.map_values(|l: Option<String>| lang_view(l)) =~= Seq::<
            Option<Seq<char>>,
        >::empty());
        assert(Seq::<Seq<char>>::empty() + drain_spec(latest, q0).loads =~= drain_spec(
            latest,
            q0,
        ).loads);
        assert(Seq::<Option<Seq<char>>>::empty() + drain_spec(latest, q0).languages =~= drain_spec(
            latest,
            q0,
        ).languages);
    }
    loop
        invariant
            q0 == queued@,
            drain_spec(latest, q0).loads == loads@.map_values(|s: String| s@) + drain_spec(
                cur,
                pending@,
            ).loads,
            drain_spec(latest, q0).languages == languages@.map_values(
                |l: Option<String>| lang_view(l),
            ) + drain_spec(cur, pending@).languages,
            drain_spec(latest, q0).terminal == drain_spec(cur, pending@).terminal,
            drain_spec(latest, q0).remaining == drain_spec(cur, pending@).remaining,
        decreases pending@.len(),
    {
        if pending.len() == 0 {
            proof {
                assert(drain_spec(cur, pending@).loads =~= Seq::<Seq<char>>::empty());
                assert(drain_spec(cur, pending@).remaining =~= pending@);
                assert(loads@.map_values(|s: String| s@) + Seq::<Seq<char>>::empty()
                    =~= loads@.map_values(|s: String| s@));
                assert(languages@.map_values(|l: Option<String>| lang_view(l)) + Seq::<
                    Option<Seq<char>>,
                >::empty() =~= languages@.map_values(|l: Option<String>| lang_view(l)));
            }
            return DrainOutcome {
                loads,
                languages,
                terminal: DrainTerminal::RunPartial(cur),
                remaining: pending,
            };
        }
        let ghost pre_q = pending@;
        let next = pending.remove(0);
        proof {
            assert(pending@ =~= pre_q.drop_first());
        }
        match next {
            TranscriptionRequest::TranscribePartial(newer) => {
                proof {
                    assert(drain_spec(cur, pre_q) == drain_spec(
                        next->TranscribePartial_0,
                        pre_q.drop_first(),
                    ));
                }
                cur = newer;
            },
            TranscriptionRequest::Transcribe(audio) => {
                proof {
                    assert(drain_spec(cur, pre_q).loads =~= Seq::<Seq<char>>::empty());
                    assert(drain_spec(cur, pre_q).languages =~= Seq::<Option<Seq<char>>>::empty());
                    assert(drain_spec(cur, pre_q).terminal == DrainTerminal::RunFinal(
                        next->Transcribe_0,
                    ));
                    assert(drain_spec(cur, pre_q).remaining == pending@);
                    assert(loads@.map_values(|s: String| s@) + Seq::<Seq<char>>::empty()
                        =~= loads@.map_values(|s: String| s@));
                    assert(languages@.map_values(|l: Option<String>| lang_view(l)) + Seq::<
                        Option<Seq<char>>,
                    >::empty() =~= languages@.map_values(|l: Option<String>| lang_view(l)));
                }
                return DrainOutcome {
                    loads,
                    languages,
                    terminal: DrainTerminal::RunFinal(audio),
                    remaining: pending,
                };
            },
            TranscriptionRequest::LoadModel(path) => {
                let ghost pre_loads = loads@.map_values(|s: String| s@);
                let ghost pv = path@;
                loads.push(path);
                proof {
                    let rest = drain_spec(cur, pending@);
                    assert(drain_spec(cur, pre_q).loads == seq![pv] + rest.loads);
                    assert(loads@.map_values(|s: String| s@) =~= pre_loads.push(pv));
                    assert(pre_loads + (seq![pv] + rest.loads) =~= pre_loads.push(pv)
                        + rest.loads);
                }
            },
            TranscriptionRequest::SetLanguage(lang) => {
                let ghost pre_langs = languages@.map_values(|l: Option<String>| lang_view(l));
                let ghost lv = lang_view(lang);
                languages.push(lang);
                proof {
                    let rest = drain_spec(cur, pending@);
                    assert(drain_spec(cur, pre_q).languages == seq![lv] + rest.languages);
                    assert(languages@.map_values(|l: Option<String>| lang_view(l)) =~= pre_langs
                        .push(lv));
                    assert(pre_langs + (seq![lv] + rest.languages) =~= pre_langs.push(lv)
                        + rest.languages);
                }
            },
            TranscriptionRequest::Shutdown => {
                proof {
                    assert(drain_spec(cur, pre_q).loads =~= Seq::<Seq<char>>::empty());
                    assert(drain_spec(cur, pre_q).languages =~= Seq::<Option<Seq<char>>>::empty());
                    assert(drain_spec(cur, pre_q).remaining == pending@);
                    assert(loads@.map_values(|s: String| s@) + Seq::<Seq<char>>::empty()
                        =~= loads@.map_values(|s: String| s@));
                    assert(languages@.map_values(|l: Option<String>| lang_view(l)) + Seq::<
                        Option<Seq<char>>,
                    >::empty() =~= languages@.map_values(|l: Option<String>| lang_view(l)));
                }
                return DrainOutcome {
                    loads,
                    languages,
                    terminal: DrainTerminal::Shutdown,
                    remaining: pending,
                };
            },
        }
    }
}

/// A queue of partial requests followed by one final request drains to
/// exactly that final: nothing else is served, no partial runs, and
/// the queue behind the final stays.
pub proof fn lemma_final_supersedes_partials<A>(
    latest: A,
    queue: Seq<TranscriptionRequest<A>>,
    k: int,
)
    requires
        0 <= k < queue.len(),
        forall|j: int| 0 <= j < k ==> #[trigger] queue[j] is TranscribePartial,
        queue[k] is Transcribe,
    ensures
        drain_spec(latest, queue).terminal == DrainTerminal::RunFinal(queue[k]->Transcribe_0),
        drain_spec(latest, queue).loads.len() == 0,
        drain_spec(latest, queue).languages.len() == 0,
        drain_spec(latest, queue).remaining == queue.skip(k + 1),
    decreases k,
{
    if k == 0 {
        assert(queue.drop_first() =~= queue.skip(1));
    } else {
        let newer = queue[0]->TranscribePartial_0;
        assert forall|j: int| 0 <= j < k - 1 implies #[trigger] queue.drop_first()[j]
            is TranscribePartial by {
            assert(queue.drop_first()[j] == queue[j + 1]);
        }
        assert(queue.drop_first()[k - 1] == queue[k]);
        lemma_final_supersedes_partials(newer, queue.drop_first(), k - 1);
        assert(queue.drop_first().skip(k) =~= queue.skip(k + 1));
    }
}

/// A queue holding only partial requests drains to exactly one partial
/// run, on the newest payload; nothing else is served and nothing
/// stays queued.
pub proof fn lemma_latest_partial_wins<A>(latest: A, queue: Seq<TranscriptionRequest<A>>)
    requires
        forall|j: int| 0 <= j < queue.len() ==> #[trigger] queue[j] is TranscribePartial,
    ensures
        drain_spec(latest, queue).terminal == DrainTerminal::RunPartial(
            if queue.len() == 0 {
                latest
            } else {
                queue.last()->TranscribePartial_0
            },
        ),
        drain_spec(latest, queue).loads.len() == 0,
        drain_spec(latest, queue).languages.len() == 0,
        drain_spec(latest, queue).remaining.len() == 0,
    decreases queue.len(),
{
    if queue.len() == 0 {
    } else {
        let newer = queue[0]->TranscribePartial_0;
        assert forall|j: int| 0 <= j < queue.drop_first().len() implies #[trigger] queue.drop_first()[j]
            is TranscribePartial by {
            assert(queue.drop_first()[j] == queue[j + 1]);
        }
        lemma_latest_partial_wins(newer, queue.drop_first());
        if queue.len() > 1 {
            assert(queue.drop_first().last() == queue.last());
        }
    }
}

/// Mathematical image of one translation drain.
pub struct TranslationDrainSpec {
    pub loads: Seq<Option<Seq<char>>>,
    pub languages: Seq<(Option<Seq<char>>, Seq<char>)>,
    pub terminal: DrainTerminal<TranslationJob>,
    pub remaining: Seq<TranslationRequest>,
}

/// Everything one translation drain decides.
pub struct TranslationDrainOutcome {
    pub loads: Vec<Option<String>>,
    pub languages: Vec<(Option<String>, String)>,
    pub terminal: DrainTerminal<TranslationJob>,
    pub remaining: Vec<TranslationRequest>,
}

/// The view of one language-pair change.
pub open spec fn pair_view(p: (Option<String>, String)) -> (Option<Seq<char>>, Seq<char>) {
    (lang_view(p.0), p.1@)
}

/// The translation worker's drain policy: the same rule as the
/// recognizer's, over translation jobs.
pub open spec fn translation_drain_spec(
    latest: TranslationJob,
    queue: Seq<TranslationRequest>,
) -> TranslationDrainSpec
    decreases queue.len(),
{
    if queue.len() == 0 {
        TranslationDrainSpec {
            loads: seq![],
            languages: seq![],
            terminal: DrainTerminal::RunPartial(latest),
            remaining: seq![],
        }
    } else {
        match queue[0] {
            TranslationRequest::TranslatePartial(newer) => translation_drain_spec(
                newer,
                queue.drop_first(),
            ),
            TranslationRequest::Translate(job) => TranslationDrainSpec {
                loads: seq![],
                languages: seq![],
                terminal: DrainTerminal::RunFinal(job),
                remaining: queue.drop_first(),
            },
            TranslationRequest::LoadModel(path) => {
                let rest = translation_drain_spec(latest, queue.drop_first());
                TranslationDrainSpec {
                    loads: seq![lang_view(path)] + rest.loads,
                    languages: rest.languages,
                    terminal: rest.terminal,
                    remaining: rest.remaining,
                }
            },
            TranslationRequest::SetLanguages { source, target } => {
                let rest = translation_drain_spec(latest, queue.drop_first());
                TranslationDrainSpec {
                    loads: rest.loads,
                    languages: seq![(lang_view(source), target@)] + rest.languages,
                    terminal: rest.terminal,
                    remaining: rest.remaining,
                }
            },
            TranslationRequest::Shutdown => TranslationDrainSpec {
                loads: seq![],
                languages: seq![],
                terminal: DrainTerminal::Shutdown,
                remaining: queue.drop_first(),
            },
        }
    }
}

/// Drains the queued translation requests around a held partial job:
/// the same policy as [`drain_partial_queue`], with model loads and
/// language-pair changes served on the way.
pub fn drain_translation_queue(latest: TranslationJob, queued: Vec<TranslationRequest>) -> (r:
    TranslationDrainOutcome)
    ensures
        r.loads@.map_values(|l: Option<String>| lang_view(l)) == translation_drain_spec(
            latest,
            queued@,
        ).loads,
        r.languages@.map_values(|p: (Option<String>, String)| pair_view(p))
            == translation_drain_spec(latest, queued@).languages,
        r.terminal == translation_drain_spec(latest, queued@).terminal,
        r.remaining@ == translation_drain_spec(latest, queued@).remaining,
{
    let ghost q0 = queued@;
    let mut pending = queued;
    let mut cur = latest;
    let mut loads: Vec<Option<String>> = Vec::new();
    let mut languages: Vec<(Option<String>, String)> = Vec::new();
    proof {
        assert(loads@.map_values(|l: Option<String>| lang_view(l)) =~= Seq::<
            Option<Seq<char>>,
        >::empty());
        assert(languages@.map_values(|p: (Option<String>, String)| pair_view(p)) =~= Seq::<
            (Option<Seq<char>>, Seq<char>),
        >::empty());
        assert(Seq::<Option<Seq<char>>>::empty() + translation_drain_spec(latest, q0).loads
            =~= translation_drain_spec(latest, q0).loads);
        assert(Seq::<(Option<Seq<char>>, Seq<char>)>::empty() + translation_drain_spec(
            latest,
            q0,
        ).languages =~= translation_drain_spec(latest, q0).languages);
    }
    loop
        invariant
            q0 == queued@,
            translation_drain_spec(latest, q0).loads == loads@.map_values(
                |l: Option<String>| lang_view(l),
            ) + translation_drain_spec(cur, pending@).loads,
            translation_drain_spec(latest, q0).languages == languages@.map_values(
                |p: (Option<String>, String)| pair_view(p),
            ) + translation_drain_spec(cur, pending@).languages,
            translation_drain_spec(latest, q0).terminal == translation_drain_spec(
                cur,
                pending@,
            ).terminal,
            translation_drain_spec(latest, q0).remaining == translation_drain_spec(
                cur,
                pending@,
            ).remaining,
        decreases pending@.len(),
    {
        if pending.len() == 0 {
            proof {
                assert(translation_drain_spec(cur, pending@).remaining =~= pending@);
                assert(loads@.map_values(|l: Option<String>| lang_view(l)) + Seq::<
                    Option<Seq<char>>,
                >::empty() =~= loads@.map_values(|l: Option<String>| lang_view(l)));
                assert(languages@.map_values(|p: (Option<String>, String)| pair_view(p)) + Seq::<
                    (Option<Seq<char>>, Seq<char>),
                >::empty() =~= languages@.map_values(|p: (Option<String>, String)| pair_view(p)));
            }
            return TranslationDrainOutcome {
                loads,
                languages,
                terminal: DrainTerminal::RunPartial(cur),
                remaining: pending,
            };
        }
        let ghost pre_q = pending@;
        let next = pending.remove(0);
        proof {
            assert(pending@ =~= pre_q.drop_first());
        }
        match next {
            TranslationRequest::TranslatePartial(newer) => {
                cur = newer;
            },
            TranslationRequest::Translate(job) => {
                proof {
                    assert(translation_drain_spec(cur, pre_q).remaining == pending@);
                    assert(loads@.map_values(|l: Option<String>| lang_view(l)) + Seq::<
                        Option<Seq<char>>,
                    >::empty() =~= loads@.map_values(|l: Option<String>| lang_view(l)));
                    assert(languages@.map_values(|p: (Option<String>, String)| pair_view(p))
                        + Seq::<(Option<Seq<char>>, Seq<char>)>::empty() =~= languages@.map_values(
                        |p: (Option<String>, String)| pair_view(p),
                    ));
                }
                return TranslationDrainOutcome {
                    loads,
                    languages,
                    terminal: DrainTerminal::RunFinal(job),
                    remaining: pending,
                };
            },
            TranslationRequest::LoadModel(path) => {
                let ghost pre_loads = loads@.map_values(|l: Option<String>| lang_view(l));
                let ghost pv = lang_view(path);
                loads.push(path);
                proof {
                    let rest = translation_drain_spec(cur, pending@);
                    assert(translation_drain_spec(cur, pre_q).loads == seq![pv] + rest.loads);
                    assert(loads@.map_values(|l: Option<String>| lang_view(l)) =~= pre_loads.push(
                        pv,
                    ));
                    assert(pre_loads + (seq![pv] + rest.loads) =~= pre_loads.push(pv) + rest.loads);
                }
            },
            TranslationRequest::SetLanguages { source, target } => {
                let ghost pre_langs = languages@.map_values(
                    |p: (Option<String>, String)| pair_view(p),
                );
                let ghost lv = (lang_view(source), target@);
                languages.push((source, target));
                proof {
                    let rest = translation_drain_spec(cur, pending@);
                    assert(translation_drain_spec(cur, pre_q).languages == seq![lv]
                        + rest.languages);
                    assert(languages@.map_values(|p: (Option<String>, String)| pair_view(p))
                        =~= pre_langs.push(lv));
                    assert(pre_langs + (seq![lv] + rest.languages) =~= pre_langs.push(lv)
                        + rest.languages);
                }
            },
            TranslationRequest::Shutdown => {
                proof {
                    assert(translation_drain_spec(cur, pre_q).remaining == pending@);
                    assert(loads@.map_values(|l: Option<String>| lang_view(l)) + Seq::<
                        Option<Seq<char>>,
                    >::empty() =~= loads@.map_values(|l: Option<String>| lang_view(l)));
                    assert(languages@.map_values(|p: (Option<String>, String)| pair_view(p))
                        + Seq::<(Option<Seq<char>>, Seq<char>)>::empty() =~= languages@.map_values(
                        |p: (Option<String>, String)| pair_view(p),
                    ));
                }
                return TranslationDrainOutcome {
                    loads,
                    languages,
                    terminal: DrainTerminal::Shutdown,
                    remaining: pending,
                };
            },
        }
    }
}

/// A queue of partial jobs followed by one final job drains to exactly
/// that final, for the translation worker as for the recognizer.
pub proof fn lemma_translation_final_supersedes_partials(
    latest: TranslationJob,
    queue: Seq<TranslationRequest>,
    k: int,
)
    requires
        0 <= k < queue.len(),
        forall|j: int| 0 <= j < k ==> #[trigger] queue[j] is TranslatePartial,
        queue[k] is Translate,
    ensures
        translation_drain_spec(latest, queue).terminal == DrainTerminal::RunFinal(
            queue[k]->Translate_0,
        ),
        translation_drain_spec(latest, queue).loads.len() == 0,
        translation_drain_spec(latest, queue).languages.len() == 0,
        translation_drain_spec(latest, queue).remaining == queue.skip(k + 1),
    decreases k,
{
    if k == 0 {
        assert(queue.drop_first() =~= queue.skip(1));
    } else {
        let newer = queue[0]->TranslatePartial_0;
        assert forall|j: int| 0 <= j < k - 1 implies #[trigger] queue.drop_first()[j]
            is TranslatePartial by {
            assert(queue.drop_first()[j] == queue[j + 1]);
        }
        assert(queue.drop_first()[k - 1] == queue[k]);
        lemma_translation_final_supersedes_partials(newer, queue.drop_first(), k - 1);
        assert(queue.drop_first().skip(k) =~= queue.skip(k + 1));
    }
}

/// What the worker sends after the drain's terminal action ran.
pub enum InferenceRouting {
    /// Answer on the final channel with this result.
    RespondFinal(Result<String, String>),
    /// Emit this text on the partial channel.
    EmitPartial(String),
    /// A failed partial inference: nothing is sent.
    Silent,
    /// Exit the worker without a response.
    Exit,
}

/// Routes one inference result: a final request is always answered on
/// the final channel, success or failure; a partial emits its trimmed
/// text only on success and fails silently; a shutdown just exits.
/// Both workers route their results this way.
pub fn route_inference_result<A>(terminal: &DrainTerminal<A>, result: Result<String, String>) -> (r:
    InferenceRouting)
    ensures
        terminal is RunFinal ==> (r matches InferenceRouting::RespondFinal(res) && res == result),
        terminal is RunPartial ==> match result {
            Ok(t) => r matches InferenceRouting::EmitPartial(p) && p@ == crate::text::trim_spec(
                t@,
            ),
            Err(_) => r is Silent,
        },
        terminal is Shutdown ==> r is Exit,
{
    match terminal {
        DrainTerminal::RunFinal(_) => InferenceRouting::RespondFinal(result),
        DrainTerminal::RunPartial(_) => match result {
            Ok(t) => InferenceRouting::EmitPartial(crate::text::trim_str(t.as_str())),
            Err(_) => InferenceRouting::Silent,
        },
        DrainTerminal::Shutdown => InferenceRouting::Exit,
    }
}

} // verus!
