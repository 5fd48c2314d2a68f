use dictate::vocabulary::{
    VocabEntry, Vocabulary, apply_corrections, apply_case, add_entry, update_entry, delete_entry,
};

fn make_entry(phrase: &str, replacement: &str) -> VocabEntry {
    VocabEntry {
        id: 1,
        phrase: phrase.to_string(),
        replacement: replacement.to_string(),
        enabled: true,
    }
}

fn make_vocab(entries: Vec<VocabEntry>) -> Vocabulary {
    Vocabulary { entries }
}

#[test]
fn test_basic_single_replacement() {
    let vocab = make_vocab(vec![make_entry("teh", "the")]);
    let result = apply_corrections("I went to teh store", &vocab);
    assert_eq!(result.text, "I went to the store");
    assert_eq!(result.corrections.len(), 1);
    assert_eq!(result.corrections[0].original, "teh");
    assert_eq!(result.corrections[0].replacement, "the");
}

#[test]
fn test_word_boundary_safety() {
    let vocab = make_vocab(vec![make_entry("app", "application")]);
    let result = apply_corrections("The application is a great app", &vocab);
    assert_eq!(result.text, "The application is a great application");
    assert_eq!(result.corrections.len(), 1);
    assert_eq!(result.corrections[0].original, "app");
}

#[test]
fn test_case_preservation_lowercase() {
    let vocab = make_vocab(vec![make_entry("teh", "the")]);
    let result = apply_corrections("teh quick brown fox", &vocab);
    assert_eq!(result.text, "the quick brown fox");
}

#[test]
fn test_case_preservation_title_case() {
    let vocab = make_vocab(vec![make_entry("teh", "the")]);
    let result = apply_corrections("Teh quick brown fox", &vocab);
    assert_eq!(result.text, "The quick brown fox");
}

#[test]
fn test_case_preservation_all_caps() {
    let vocab = make_vocab(vec![make_entry("teh", "the")]);
    let result = apply_corrections("TEH QUICK BROWN FOX", &vocab);
    assert_eq!(result.text, "THE QUICK BROWN FOX");
}

#[test]
fn test_multiple_replacements() {
    let vocab = make_vocab(vec![
        make_entry("teh", "the"),
        VocabEntry {
            id: 2,
            phrase: "recieve".to_string(),
            replacement: "receive".to_string(),
            enabled: true,
        },
    ]);
    let result = apply_corrections("I recieve teh package", &vocab);
    assert_eq!(result.text, "I receive the package");
    assert_eq!(result.corrections.len(), 2);
}

#[test]
fn test_disabled_entries_skipped() {
    let vocab = make_vocab(vec![VocabEntry {
        id: 1,
        phrase: "teh".to_string(),
        replacement: "the".to_string(),
        enabled: false,
    }]);
    let result = apply_corrections("I went to teh store", &vocab);
    assert_eq!(result.text, "I went to teh store");
    assert_eq!(result.corrections.len(), 0);
}

#[test]
fn test_empty_vocabulary() {
    let vocab = make_vocab(vec![]);
    let result = apply_corrections("Hello world", &vocab);
    assert_eq!(result.text, "Hello world");
    assert_eq!(result.corrections.len(), 0);
}

#[test]
fn correction_positions_are_byte_offsets_in_output() {
    let vocab = make_vocab(vec![make_entry("teh", "the")]);
    let result = apply_corrections("I like teh cat", &vocab);
    assert_eq!(result.text, "I like the cat");
    assert_eq!(result.corrections.len(), 1);
    assert_eq!(result.corrections[0].position, 7);
    // the bytes at the reported position are the replacement
    let c = &result.corrections[0];
    assert_eq!(
        &result.text.as_bytes()[c.position..c.position + c.replacement.len()],
        c.replacement.as_bytes()
    );
}

#[test]
fn correction_positions_shift_with_growing_replacements() {
    // one rule, two matches, replacement longer than the phrase: the
    // second correction's position accounts for the first growth
    let vocab = make_vocab(vec![make_entry("app", "application")]);
    let result = apply_corrections("app and app", &vocab);
    assert_eq!(result.text, "application and application");
    assert_eq!(result.corrections.len(), 2);
    assert_eq!(result.corrections[0].position, 0);
    assert_eq!(result.corrections[1].position, 16);
    for c in &result.corrections {
        assert_eq!(
            &result.text.as_bytes()[c.position..c.position + c.replacement.len()],
            c.replacement.as_bytes()
        );
    }
}

#[test]
fn corrections_sorted_by_position_across_rules() {
    let vocab = make_vocab(vec![
        make_entry("zz", "z"),
        VocabEntry {
            id: 2,
            phrase: "aa".to_string(),
            replacement: "a".to_string(),
            enabled: true,
        },
    ]);
    let result = apply_corrections("aa then zz", &vocab);
    assert_eq!(result.text, "a then z");
    assert_eq!(result.corrections.len(), 2);
    assert!(result.corrections[0].position <= result.corrections[1].position);
}

#[test]
fn apply_case_variants() {
    assert_eq!(apply_case("TEH", "the"), "THE");
    assert_eq!(apply_case("Teh", "the"), "The");
    assert_eq!(apply_case("teh", "the"), "the");
    assert_eq!(apply_case("123", "the"), "the");
    assert_eq!(apply_case("T3H", "the"), "THE");
}

#[test]
fn phrase_inside_word_is_not_replaced() {
    let vocab = make_vocab(vec![make_entry("cat", "dog")]);
    let result = apply_corrections("concatenate the cat", &vocab);
    assert_eq!(result.text, "concatenate the dog");
    assert_eq!(result.corrections.len(), 1);
    assert_eq!(result.corrections[0].position, 16);
}

#[test]
fn vocabulary_entry_list_operations() {
    let mut vocab = Vocabulary { entries: Vec::new() };
    add_entry(&mut vocab, make_entry("teh", "the"));
    add_entry(
        &mut vocab,
        VocabEntry {
            id: 2,
            phrase: "adn".to_string(),
            replacement: "and".to_string(),
            enabled: true,
        },
    );
    assert_eq!(vocab.entries.len(), 2);
    update_entry(&mut vocab, 2, "adn".to_string(), "AND".to_string(), false);
    assert_eq!(vocab.entries[1].replacement, "AND");
    assert!(!vocab.entries[1].enabled);
    delete_entry(&mut vocab, 1);
    assert_eq!(vocab.entries.len(), 1);
    assert_eq!(vocab.entries[0].id, 2);
}

#[test]
fn case_preservation_is_unicode_aware() {
    // an accented match keeps its case class like any other letter
    assert_eq!(apply_case("É", "é"), "É");
    assert_eq!(apply_case("Über", "über"), "Über");
    assert_eq!(apply_case("ÉTÉ", "été"), "ÉTÉ");
    // the German sharp s expands under full uppercasing
    assert_eq!(apply_case("GROSS", "groß"), "GROSS");
}

#[test]
fn accented_words_match_case_insensitively() {
    let vocab = make_vocab(vec![make_entry("café", "coffee")]);
    let result = apply_corrections("un CAFÉ noir", &vocab);
    assert_eq!(result.text, "un COFFEE noir");
    assert_eq!(result.corrections.len(), 1);
    assert_eq!(result.corrections[0].original, "CAFÉ");
}

#[test]
fn accented_letters_are_word_characters() {
    // "cafés" continues the word, so the phrase inside it is not a match
    let vocab = make_vocab(vec![make_entry("café", "coffee")]);
    let result = apply_corrections("cafés are not a café", &vocab);
    assert_eq!(result.text, "cafés are not a coffee");
    assert_eq!(result.corrections.len(), 1);
}
