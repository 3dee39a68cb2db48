use reposeiri::report::wording::{
    line_column, lint_text, replacement_hint, raw_matches, rule_meaning_of, ClaimBoundaryKind, WordingRuleKind, boundary_exception, find_ascii_case_insensitive, WordingBoundaryException, is_word_boundary, scan_token_end, scan_token_start, select_matches, spans_overlap,
};

#[test]
fn phrases_match_whole_words_ignoring_ascii_case() {
    let text = b"It GUARANTEES nothing; guaranteed_x is not a match, guarantees.";
    assert_eq!(find_ascii_case_insensitive(text, b"guarantees"), vec![3, 52]);
    assert_eq!(find_ascii_case_insensitive(text, b"guaranteed"), Vec::<usize>::new());
    assert_eq!(find_ascii_case_insensitive(b"production-ready", b"production-ready"), vec![0]);
    assert_eq!(find_ascii_case_insensitive(b"ab", b""), Vec::<usize>::new());
    assert_eq!(find_ascii_case_insensitive(b"a", b"abc"), Vec::<usize>::new());
}

#[test]
fn word_boundaries_look_at_the_neighbouring_bytes() {
    assert!(is_word_boundary(b"a b", 2, 3));
    assert!(!is_word_boundary(b"ab", 1, 2));
    assert!(!is_word_boundary(b"a_b", 0, 1));
    assert!(is_word_boundary(b"a-b", 0, 1));
}

#[test]
fn overlapping_matches_keep_the_first_and_exceptions_are_counted() {
    // Ordered by start, longer first: "security guarantee" at 4..22, then
    // "guarantee" at 13..22 (overlaps), then "guarantee" at 30..39 in a
    // boundary statement, then one at 50..59.
    let matches = [(4, 22), (13, 22), (30, 39), (50, 59)];
    let exceptions = [false, false, true, false];
    assert_eq!(select_matches(&matches, &exceptions), (vec![0, 3], 1));
    assert!(spans_overlap(4, 22, 13, 22));
    assert!(!spans_overlap(4, 13, 13, 22));
}

#[test]
fn tokens_extend_over_letters_digits_and_joiners() {
    let text = b"see not-quality:guarantee here";
    assert_eq!(scan_token_start(text, 16), 4);
    assert_eq!(scan_token_end(text, 16), 25);
    assert_eq!(scan_token_start(text, 0), 0);
    assert_eq!(scan_token_end(text, text.len()), text.len());
}

#[test]
fn boundary_statements_are_exceptions() {
    let negated = b"Intro\nThis does NOT guarantee quality";
    let at = find_ascii_case_insensitive(negated, b"guarantee")[0];
    assert_eq!(at, 20);
    assert_eq!(boundary_exception(negated, at, at + 9), Some(WordingBoundaryException::NegatedBoundaryStatement));
    let typed = b"see not-quality-guarantee here";
    assert_eq!(boundary_exception(typed, 16, 25), Some(WordingBoundaryException::TypedClaimBoundary));
    let vocabulary = b"Blocked claims: guarantee boundary";
    assert_eq!(boundary_exception(vocabulary, 16, 25), Some(WordingBoundaryException::TypedClaimBoundary));
    let plain = b"No issues.\nWe guarantee uptime";
    assert_eq!(boundary_exception(plain, 14, 23), None);
}

#[test]
fn matches_come_by_start_then_longer_phrase_first() {
    let text = b"This guarantees security. It is production-ready.\nWe do not guarantee uptime.";
    assert_eq!(raw_matches(text), vec![(5, 24, 4), (5, 15, 23), (32, 48, 17), (60, 69, 24)]);
    assert_eq!(lint_text(text), (vec![(5, 24, 4), (32, 48, 17)], 1));
    assert_eq!(rule_meaning_of(4), (WordingRuleKind::SecurityGuarantee, ClaimBoundaryKind::NotSecurityGuarantee));
    assert_eq!(rule_meaning_of(24), (WordingRuleKind::GenericGuarantee, ClaimBoundaryKind::NotQualityGuarantee));
}

#[test]
fn line_and_column_count_characters() {
    let text = "ab\nd\u{e9}f guarantee".as_bytes();
    assert_eq!(line_column(text, 0), (1, 1));
    assert_eq!(line_column(text, 3), (2, 1));
    // "d", "é" (two bytes), "f", " " precede the match on line 2.
    assert_eq!(line_column(text, 8), (2, 5));
}

#[test]
fn replacement_hints_follow_the_boundary() {
    assert_eq!(
        replacement_hint(ClaimBoundaryKind::NotAutomaticPolicyAdoption),
        "Say policy adoption requires maintainer review."
    );
    assert_eq!(replacement_hint(ClaimBoundaryKind::NotLegalAdvice), replacement_hint(ClaimBoundaryKind::NotLegalFitnessGuarantee));
}
