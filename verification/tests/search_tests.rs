use sam::search::{fuzzy_score, is_scorable, is_word_boundary};

#[test]
fn blank_needle_matches_nothing() {
    assert_eq!(fuzzy_score("portal", ""), None);
    assert_eq!(fuzzy_score("portal", "   "), None);
}

#[test]
fn whole_occurrence_scores_near_a_million() {
    assert_eq!(fuzzy_score("portal 2", "portal"), Some(999_998));
    assert_eq!(fuzzy_score("portal", "portal"), Some(1_000_000));
}

#[test]
fn needle_is_trimmed_before_matching() {
    assert_eq!(fuzzy_score("portal 2", "  portal\t"), Some(999_998));
}

#[test]
fn byte_lengths_count_utf8() {
    // "café au lait" is 12 characters and 13 bytes.
    assert_eq!(fuzzy_score("café au lait", "au"), Some(1_000_000 - 11));
}

#[test]
fn scattered_match_scores_gaps_and_boundaries() {
    // h at 0: 10 + 20 (start); l at 2: 10 - 2 (one skipped); minus last position 2.
    assert_eq!(fuzzy_score("half-life", "hl"), Some(36));
}

#[test]
fn camel_case_counts_as_a_word_boundary() {
    // d at 0: 30; S at 4: 10 - 6 + 20; minus 4.
    assert_eq!(fuzzy_score("darkSouls", "dS"), Some(50));
}

#[test]
fn adjacent_matches_earn_a_bonus() {
    // a: 30; b adjacent: 25; c after '_': 10 - 2 + 20; minus 3.
    assert_eq!(fuzzy_score("ab_c", "abc"), Some(80));
}

#[test]
fn matching_is_case_sensitive() {
    assert_eq!(fuzzy_score("DarkSouls", "ds"), None);
}

#[test]
fn missing_character_means_no_match() {
    assert_eq!(fuzzy_score("portal", "px"), None);
    assert_eq!(fuzzy_score("", "a"), None);
}

#[test]
fn out_of_order_characters_do_not_match() {
    assert_eq!(fuzzy_score("abc", "ca"), None);
}

#[test]
fn word_boundaries() {
    assert!(is_word_boundary(None, 'a'));
    for p in [' ', '_', '-', ':', '/', '(', '['] {
        assert!(is_word_boundary(Some(p), 'x'));
    }
    assert!(is_word_boundary(Some('k'), 'S'));
    assert!(!is_word_boundary(Some('K'), 'S'));
    assert!(!is_word_boundary(Some('a'), 'b'));
    assert!(!is_word_boundary(Some(')'), 'b'));
}

#[test]
fn ordinary_texts_are_scorable() {
    assert!(is_scorable("Portal 2"));
    assert!(is_scorable(""));
}
