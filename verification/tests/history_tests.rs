use dictate::history::{
    TranscriptionHistory, HistoryEntry, add_entry, delete_entry, clear_history,
    update_most_recent_text, MAX_HISTORY_ENTRIES,
};

fn entry(id: u64, text: &str) -> HistoryEntry {
    HistoryEntry { id, text: text.to_string(), timestamp_ms: id, duration_ms: 10 }
}

#[test]
fn history_capped_at_fifty_newest_first() {
    let mut history = TranscriptionHistory { entries: Vec::new() };
    for i in 0..100u64 {
        add_entry(&mut history, entry(i, &format!("t{}", i)));
    }
    assert_eq!(history.entries.len(), 50);
    assert_eq!(MAX_HISTORY_ENTRIES, 50);
    // the most recent insertion sits at index 0
    assert_eq!(history.entries[0].id, 99);
    assert_eq!(history.entries[49].id, 50);
}

#[test]
fn new_entries_go_to_the_front() {
    let mut history = TranscriptionHistory { entries: Vec::new() };
    add_entry(&mut history, entry(1, "first"));
    add_entry(&mut history, entry(2, "second"));
    assert_eq!(history.entries[0].text, "second");
    assert_eq!(history.entries[1].text, "first");
}

#[test]
fn delete_removes_by_id_keeping_order() {
    let mut history = TranscriptionHistory { entries: Vec::new() };
    add_entry(&mut history, entry(1, "a"));
    add_entry(&mut history, entry(2, "b"));
    add_entry(&mut history, entry(3, "c"));
    delete_entry(&mut history, 2);
    assert_eq!(history.entries.len(), 2);
    assert_eq!(history.entries[0].id, 3);
    assert_eq!(history.entries[1].id, 1);
}

#[test]
fn clear_empties_the_history() {
    let mut history = TranscriptionHistory { entries: Vec::new() };
    add_entry(&mut history, entry(1, "a"));
    clear_history(&mut history);
    assert!(history.entries.is_empty());
}

#[test]
fn update_most_recent_rewrites_only_the_text() {
    let mut history = TranscriptionHistory { entries: Vec::new() };
    update_most_recent_text(&mut history, "nothing".to_string());
    assert!(history.entries.is_empty());

    add_entry(&mut history, entry(1, "old"));
    add_entry(&mut history, entry(2, "latest"));
    update_most_recent_text(&mut history, "patched".to_string());
    assert_eq!(history.entries[0].text, "patched");
    assert_eq!(history.entries[0].id, 2);
    assert_eq!(history.entries[1].text, "old");
}
