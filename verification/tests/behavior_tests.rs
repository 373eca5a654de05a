use genix::entropy::{charset_size_for_style, estimate_entropy_for_str};
use genix::errors::GenError;
use genix::generate::generate_many;
use genix::style::{parse_style, Style};

#[test]
fn charset_hints_per_style() {
    assert_eq!(charset_size_for_style("random", false), Some(94));
    assert_eq!(charset_size_for_style("random", true), Some(88));
    assert_eq!(charset_size_for_style("pin", false), Some(10));
    assert_eq!(charset_size_for_style("pin", true), Some(10));
    assert_eq!(charset_size_for_style("hex", false), Some(16));
    assert_eq!(charset_size_for_style("base64", false), Some(64));
    assert_eq!(charset_size_for_style("passphrase", false), None);
    assert_eq!(charset_size_for_style("bogus", false), None);
}

#[test]
fn charset_hint_is_deterministic() {
    // Two calls with the same arguments always agree.
    for style in ["random", "pin", "hex", "base64", "passphrase", "bogus"] {
        for no_ambiguous in [false, true] {
            assert_eq!(
                charset_size_for_style(style, no_ambiguous),
                charset_size_for_style(style, no_ambiguous)
            );
        }
    }
}

#[test]
fn parse_style_recognizes_the_five_names() {
    assert_eq!(parse_style("random"), Some(Style::Random));
    assert_eq!(parse_style("pin"), Some(Style::Pin));
    assert_eq!(parse_style("hex"), Some(Style::Hex));
    assert_eq!(parse_style("base64"), Some(Style::Base64));
    assert_eq!(parse_style("passphrase"), Some(Style::Passphrase));
    assert_eq!(parse_style("Random"), None);
    assert_eq!(parse_style(""), None);
}

#[test]
fn empty_input_with_random_style_uses_the_hint() {
    // The style hint (94) rescues an empty input: no error.
    let est = estimate_entropy_for_str("", "random").unwrap();
    assert_eq!(est.charset_size, 94);
    assert_eq!(est.units, 0);
}

#[test]
fn empty_input_without_hint_is_undetermined() {
    let err = estimate_entropy_for_str("", "bogus").unwrap_err();
    assert_eq!(err, GenError::EntropyUndetermined);
}

#[test]
fn nonempty_input_with_unknown_style_still_estimates() {
    let est = estimate_entropy_for_str("abc", "bogus").unwrap();
    assert_eq!(est.charset_size, 26);
    assert_eq!(est.units, 3);
}

#[test]
fn unknown_style_fails_generation() {
    let err = generate_many("bogus", 8, 1, None, false, None).unwrap_err();
    assert_eq!(err, GenError::UnknownStyle("bogus".to_string()));
}

#[test]
fn zero_count_yields_empty_list() {
    let res = generate_many("random", 8, 0, None, false, None).unwrap();
    assert!(res.is_empty());
}

#[test]
fn generate_counts_per_style() {
    for style in ["random", "pin", "hex", "base64", "passphrase"] {
        let res = generate_many(style, 4, 3, None, false, None).unwrap();
        assert_eq!(res.len(), 3);
    }
}

#[test]
fn generate_lengths_match_style_units() {
    let random = generate_many("random", 12, 1, None, false, None).unwrap();
    assert_eq!(random[0].chars().count(), 12);
    let pin = generate_many("pin", 7, 1, None, false, None).unwrap();
    assert_eq!(pin[0].chars().count(), 7);
    let hex = generate_many("hex", 6, 1, None, false, None).unwrap();
    assert_eq!(hex[0].len(), 12);
    let b64 = generate_many("base64", 4, 1, None, false, None).unwrap();
    assert_eq!(b64[0].len(), 8);
}

#[test]
fn passphrase_items_have_requested_word_count() {
    let res = generate_many("passphrase", 5, 2, None, false, None).unwrap();
    for item in &res {
        assert_eq!(item.split('-').count(), 5);
    }
}

#[test]
fn passphrase_uses_supplied_wordlist() {
    let words = vec!["aa".to_string(), "bb".to_string()];
    let res = generate_many("passphrase", 6, 2, Some(&words), false, None).unwrap();
    for item in &res {
        let parts: Vec<&str> = item.split('-').collect();
        assert_eq!(parts.len(), 6);
        assert!(parts.iter().all(|w| *w == "aa" || *w == "bb"));
    }
}

#[test]
fn empty_wordlist_fails_generation() {
    let words: Vec<String> = Vec::new();
    let err = generate_many("passphrase", 3, 1, Some(&words), false, None).unwrap_err();
    assert_eq!(err, GenError::EmptyWordlist);
}

#[test]
fn min_entropy_grows_pin_to_thirteen_digits() {
    // ceil(40.0 / log2(10)) = 13.
    let res = generate_many("pin", 6, 1, None, false, Some(40_000)).unwrap();
    assert_eq!(res[0].len(), 13);
}

#[test]
fn min_entropy_keeps_longer_requests() {
    let res = generate_many("pin", 20, 1, None, false, Some(40_000)).unwrap();
    assert_eq!(res[0].len(), 20);
}

#[test]
fn min_entropy_is_not_enforced_for_passphrases() {
    let res = generate_many("passphrase", 2, 1, None, false, Some(100_000)).unwrap();
    assert_eq!(res[0].split('-').count(), 2);
}

#[test]
fn min_entropy_with_unknown_style_still_reports_the_style() {
    let err = generate_many("bogus", 6, 1, None, false, Some(40_000)).unwrap_err();
    assert_eq!(err, GenError::UnknownStyle("bogus".to_string()));
}
