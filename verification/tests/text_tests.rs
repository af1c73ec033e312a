use contact_list::text::contains_str;

#[test]
fn empty_needle_matches_everything() {
    assert!(contains_str("", ""));
    assert!(contains_str("abc", ""));
}

#[test]
fn needle_equal_to_haystack_matches() {
    assert!(contains_str("Jane", "Jane"));
}

#[test]
fn needle_longer_than_haystack_does_not_match() {
    assert!(!contains_str("an", "Jane"));
    assert!(!contains_str("", "a"));
}

#[test]
fn finds_inner_substring() {
    assert!(contains_str("Jane", "an"));
    assert!(!contains_str("John", "an"));
    assert!(contains_str("jane@email.com", "an"));
    assert!(!contains_str("john@email.com", "an"));
}

#[test]
fn matching_is_case_sensitive() {
    assert!(!contains_str("John", "john"));
    assert!(!contains_str("jane@email.com", "JANE"));
}

#[test]
fn overlapping_candidates_are_all_tried() {
    assert!(contains_str("aaab", "aab"));
    assert!(!contains_str("aab", "aaa"));
}

#[test]
fn match_at_start_and_end() {
    assert!(contains_str("Jane", "Ja"));
    assert!(contains_str("Jane", "ne"));
}

#[test]
fn non_ascii_characters_match_per_character() {
    assert!(contains_str("h\u{e9}llo", "\u{e9}l"));
    assert!(!contains_str("h\u{e9}llo", "e"));
}
