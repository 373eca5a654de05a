use genix::entropy::{estimate_entropy_detailed, estimate_entropy_for_str};

/// Estimated bits for a factored estimate: `units * log2(charset_size)`.
fn bits_of(charset_size: usize, units: usize) -> f64 {
    (charset_size as f64).log2() * (units as f64)
}

#[test]
fn test_entropy_lowercase_only() {
    let s = "lowercaseonly";
    let est = estimate_entropy_for_str(s, "random").unwrap();
    let bits = bits_of(est.charset_size, est.units);
    let per = (26f64).log2();
    assert!((bits - per * (s.len() as f64)).abs() < 1e-6);
}

#[test]
fn test_entropy_mixed() {
    let s = "Ab3$";
    let est = estimate_entropy_for_str(s, "random").unwrap();
    let bits = bits_of(est.charset_size, est.units);
    // should detect lower+upper+digit+symbol => charset >= 26+26+10+32
    let charset = 26 + 26 + 10 + 32;
    let per = (charset as f64).log2();
    assert!((bits - per * (s.len() as f64)).abs() < 1e-6);
}

#[test]
fn test_entropy_passphrase() {
    let s = "apple-banana-orange";
    let est = estimate_entropy_for_str(s, "passphrase").unwrap();
    let bits = bits_of(est.charset_size, est.units);
    let expected = 3.0 * 2048f64.log2();
    assert!((bits - expected).abs() < 1e-6);
}

#[test]
fn entropy_mixed_detects_all_classes() {
    let p = estimate_entropy_detailed("Ab3$", "random").unwrap();
    assert!(p.has_lower);
    assert!(p.has_upper);
    assert!(p.has_digit);
    assert!(p.has_symbol);
    assert_eq!(p.charset_size, 94);
    assert_eq!(p.length, 4);
    assert_eq!(p.word_count, None);
    assert_eq!(p.assumed_wordlist_size, None);
}

#[test]
fn entropy_detailed_passphrase_profile() {
    let p = estimate_entropy_detailed("apple-banana-orange", "passphrase").unwrap();
    assert_eq!(p.charset_size, 2048);
    assert_eq!(p.length, 3);
    assert_eq!(p.word_count, Some(3));
    assert_eq!(p.assumed_wordlist_size, Some(2048));
    assert!(!p.has_lower && !p.has_upper && !p.has_digit && !p.has_symbol);
}

#[test]
fn entropy_counts_codepoints_not_bytes() {
    // 'é' is multi-byte but one codepoint: length 5, classes lower+symbol.
    let est = estimate_entropy_for_str("h\u{e9}llo", "random").unwrap();
    assert_eq!(est.units, 5);
    assert_eq!(est.charset_size, 26 + 32);
}

#[test]
fn entropy_word_count_drops_empty_segments() {
    let est = estimate_entropy_for_str("-a--b-", "passphrase").unwrap();
    assert_eq!(est.units, 2);
    assert_eq!(est.charset_size, 2048);
}

#[test]
fn entropy_empty_passphrase_is_zero_words_not_error() {
    let est = estimate_entropy_for_str("", "passphrase").unwrap();
    assert_eq!(est.units, 0);
    assert_eq!(bits_of(est.charset_size, est.units), 0.0);
}
