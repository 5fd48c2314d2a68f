//! Transcript history: a capped, newest-first list of finished dictations.
//!
//! The history keeps at most [`MAX_HISTORY_ENTRIES`] entries.  A new entry
//! is inserted at the front; when the cap is exceeded the oldest entry is
//! evicted.  Reading the list from disk and writing it back are jobs for
//! the surrounding application; everything here is pure bookkeeping.

use vstd::prelude::*;

verus! {

/// Upper bound on the number of entries the history retains.
pub const MAX_HISTORY_ENTRIES: usize = 50;

/// One finished dictation: the pasted text and when/how long it was recorded.
pub struct HistoryEntry {
    pub id: u64,
    pub text: String,
    pub timestamp_ms: u64,
    pub duration_ms: u64,
}

/// The capped, newest-first list of transcripts.
pub struct TranscriptionHistory {
    pub entries: Vec<HistoryEntry>,
}

impl Clone for HistoryEntry {
    fn clone(&self) -> (r: Self)
        ensures
            r == *self,
    {
        HistoryEntry {
            id: self.id,
            text: self.text.clone(),
            timestamp_ms: self.timestamp_ms,
            duration_ms: self.duration_ms,
        }
    }
}

impl TranscriptionHistory {
    /// The history respects its cap.
    pub open spec fn wf(self) -> bool {
        self.entries@.len() <= MAX_HISTORY_ENTRIES
    }
}

impl Default for TranscriptionHistory {
    fn default() -> (r: Self)
        ensures
            r.entries@.len() == 0,
            r.wf(),
    {
        TranscriptionHistory { entries: Vec::new() }
    }
}

/// Inserts `entry` at the front and evicts the oldest entry beyond the cap.
///
/// The new entry always ends up at index 0; the previously newest entries
/// follow in order, cut off at [`MAX_HISTORY_ENTRIES`].
pub fn add_entry(history: &mut TranscriptionHistory, entry: HistoryEntry)
    ensures
        final(history).entries@ == (seq![entry] + old(history).entries@).take(
            vstd::math::min(old(history).entries@.len() as int + 1, MAX_HISTORY_ENTRIES as int),
        ),
        final(history).wf(),
{
    let ghost pre = history.entries@;
    history.entries.insert(0, entry);
    if history.entries.len() > MAX_HISTORY_ENTRIES {
        history.entries.truncate(MAX_HISTORY_ENTRIES);
    }
    proof {
        assert(history.entries@ =~= (seq![entry] + pre).take(
            vstd::math::min(pre.len() as int + 1, MAX_HISTORY_ENTRIES as int),
        ));
    }
}

/// Removes every entry whose id is `id`; the order of the rest is kept.
pub fn delete_entry(history: &mut TranscriptionHistory, id: u64)
    ensures
        final(history).entries@ == old(history).entries@.filter(|e: HistoryEntry| e.id != id),
        old(history).wf() ==> final(history).wf(),
{
    let ghost pre = history.entries@;
    let mut kept: Vec<HistoryEntry> = Vec::new();
    let mut i: usize = 0;
    while i < history.entries.len()
        invariant
            i <= pre.len(),
            history.entries@ == pre,
            kept@ == pre.take(i as int).filter(|e: HistoryEntry| e.id != id),
        decreases pre.len() - i,
    {
        let ghost prev_kept = kept@;
        if history.entries[i].id != id {
            kept.push(history.entries[i].clone());
        }
        proof {
            reveal(Seq::filter);
            assert(pre.take(i + 1).drop_last() =~= pre.take(i as int));
            assert(pre.take(i + 1).last() == pre[i as int]);
            assert(kept@ =~= pre.take(i + 1).filter(|e: HistoryEntry| e.id != id));
        }
        i = i + 1;
    }
    proof {
        assert(pre.take(pre.len() as int) =~= pre);
        broadcast use vstd::seq_lib::group_seq_lib_default;
    }
    history.entries = kept;
}

/// Empties the history.
pub fn clear_history(history: &mut TranscriptionHistory)
    ensures
        final(history).entries@.len() == 0,
        final(history).wf(),
{
    history.entries.clear();
}

/// Rewrites the text of the most recent entry, leaving everything else alone.
///
/// Used when the user undoes vocabulary corrections or accepts a translation
/// after the entry was written.  An empty history is left unchanged.
pub fn update_most_recent_text(history: &mut TranscriptionHistory, text: String)
    ensures
        old(history).entries@.len() == 0 ==> final(history).entries@ == old(history).entries@,
        old(history).entries@.len() > 0 ==> {
            &&& final(history).entries@.len() == old(history).entries@.len()
            &&& final(history).entries@[0].text == text
            &&& final(history).entries@[0].id == old(history).entries@[0].id
            &&& final(history).entries@[0].timestamp_ms == old(history).entries@[0].timestamp_ms
            &&& final(history).entries@[0].duration_ms == old(history).entries@[0].duration_ms
            &&& forall|i: int|
                1 <= i < final(history).entries@.len() ==> final(history).entries@[i] == old(
                    history,
                ).entries@[i]
        },
        old(history).wf() ==> final(history).wf(),
{
    if history.entries.len() > 0 {
        let first = &history.entries[0];
        let updated = HistoryEntry {
            id: first.id,
            text,
            timestamp_ms: first.timestamp_ms,
            duration_ms: first.duration_ms,
        };
        history.entries.set(0, updated);
    }
}

} // verus!
