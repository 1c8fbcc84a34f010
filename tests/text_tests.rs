use chess_engine::text::{parse_u64, split_words, text_contains, text_is};

#[test]
fn split_words_drops_all_whitespace() {
    let w = split_words("  go  wtime\t100 \n");
    assert_eq!(w, vec!["go".to_string(), "wtime".to_string(), "100".to_string()]);
}

#[test]
fn split_words_of_blank_line_is_empty() {
    assert!(split_words("").is_empty());
    assert!(split_words(" \t \u{3000} ").is_empty());
}

#[test]
fn parse_u64_reads_plain_and_signed_numbers() {
    assert_eq!(parse_u64("42"), Some(42));
    assert_eq!(parse_u64("+7"), Some(7));
    assert_eq!(parse_u64("007"), Some(7));
    assert_eq!(parse_u64("18446744073709551615"), Some(u64::MAX));
}

#[test]
fn parse_u64_refuses_malformed_numbers() {
    assert_eq!(parse_u64(""), None);
    assert_eq!(parse_u64("+"), None);
    assert_eq!(parse_u64("-1"), None);
    assert_eq!(parse_u64("12a"), None);
    assert_eq!(parse_u64("notanumber"), None);
    assert_eq!(parse_u64("18446744073709551616"), None);
}

#[test]
fn text_comparisons() {
    assert!(text_is("go", "go"));
    assert!(!text_is("go", "go "));
    assert!(text_contains("KQkq", 'k'));
    assert!(!text_contains("KQ", 'k'));
}
