use csgo_runtime::mem::signature::signature_to_pattern;
use csgo_runtime::mem::{find_pattern, generate_regex};

#[test]
fn pattern_of_bytes_and_wildcards() {
    assert_eq!(signature_to_pattern("8B 0D ? ?"), "(?s-u)\\x8B\\x0D..");
}

#[test]
fn pattern_ignores_surrounding_and_repeated_whitespace() {
    assert_eq!(signature_to_pattern("  8b\t\t?\n 0f  "), "(?s-u)\\x8b.\\x0f");
}

#[test]
fn pattern_splits_on_unicode_whitespace() {
    assert_eq!(signature_to_pattern("8B\u{3000}0D\u{85}?"), "(?s-u)\\x8B\\x0D.");
}

#[test]
fn pattern_of_empty_signature_is_only_flags() {
    assert_eq!(signature_to_pattern(""), "(?s-u)");
    assert_eq!(signature_to_pattern(" \t "), "(?s-u)");
}

#[test]
fn pattern_keeps_malformed_tokens_verbatim() {
    assert_eq!(signature_to_pattern("ZZ ??"), "(?s-u)\\xZZ\\x??");
}

#[test]
fn generate_regex_compiles_well_formed_signature() {
    assert!(generate_regex("55 8B EC ? ?").is_some());
}

#[test]
fn generate_regex_refuses_malformed_signature() {
    assert!(generate_regex("ZZ").is_none());
    assert!(generate_regex("8B 0").is_none());
}

#[test]
fn find_pattern_finds_first_occurrence() {
    let data = [0x55u8, 0x8B, 0xEC, 0x8B, 0x0D, 0x11, 0x22, 0x8B, 0x0D, 0x33, 0x44];
    assert_eq!(find_pattern(&data, "8B 0D ? ?"), Some(3));
}

#[test]
fn find_pattern_wildcard_matches_any_byte() {
    let data = [0x00u8, 0x8B, 0x42, 0x8B];
    assert_eq!(find_pattern(&data, "8B ? 8B"), Some(1));
}

#[test]
fn find_pattern_wildcard_matches_newline_byte() {
    let data = [0x0Au8, 0x41];
    assert_eq!(find_pattern(&data, "? 41"), Some(0));
}

#[test]
fn find_pattern_matches_high_bytes_as_raw_bytes() {
    let data = [0x01u8, 0xFF, 0x80, 0x02];
    assert_eq!(find_pattern(&data, "FF 80"), Some(1));
    assert_eq!(find_pattern(&data, "ff 80 02"), Some(1));
}

#[test]
fn find_pattern_reports_absence() {
    let data = [0x01u8, 0x02, 0x03];
    assert_eq!(find_pattern(&data, "02 04"), None);
    assert_eq!(find_pattern(&data, "01 02 03 ?"), None);
}

#[test]
fn find_pattern_empty_signature_matches_at_start() {
    assert_eq!(find_pattern(&[0x10u8, 0x20], ""), Some(0));
    assert_eq!(find_pattern(&[], ""), Some(0));
}

#[test]
fn find_pattern_malformed_signature_finds_nothing() {
    let data = [0x5Au8, 0x5A];
    assert_eq!(find_pattern(&data, "ZZ"), None);
}

#[test]
fn generated_regex_keeps_its_pattern() {
    let re = generate_regex("8B ? 0d").unwrap();
    assert_eq!(re.as_str(), "(?s-u)\\x8B.\\x0d");
}

#[test]
fn generated_regex_find_spans_the_signature() {
    let re = generate_regex("8B ? 0D").unwrap();
    let data = [0x00u8, 0x8B, 0x8B, 0x77, 0x0D, 0x8B, 0x01, 0x0D];
    assert_eq!(re.find(&data), Some((2, 5)));
    assert_eq!(re.find(&data[3..]), Some((2, 5)));
    assert_eq!(re.find(&data[..4]), None);
}

#[test]
fn generated_regex_is_match_iff_signature_occurs() {
    let re = generate_regex("? FF").unwrap();
    assert!(re.is_match(&[0x0Au8, 0xFF]));
    assert!(!re.is_match(&[0xFFu8, 0x0A]));
    assert!(!re.is_match(&[]));
}
