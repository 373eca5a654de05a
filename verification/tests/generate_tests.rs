use base64::Engine;

use genix::entropy::estimate_entropy_for_str;
use genix::generate::{
    base64_string, builtin_wordlist, generate_many, hex_string, passphrase_from, pin_string,
    printable_pool, random_string,
};

#[test]
fn generate_test_random_length() {
    let out = random_string(16, false);
    assert_eq!(out.len(), 16);
}

#[test]
fn generate_test_hex_length() {
    let s = hex_string(4);
    assert_eq!(s.len(), 8);
}

#[test]
fn generate_test_base64() {
    let s = base64_string(3);
    assert!(s.len() >= 4);
}

#[test]
fn generate_test_passphrase_default() {
    let words = builtin_wordlist();
    let p = passphrase_from(&words, 4);
    assert!(p.split('-').count() == 4);
}

#[test]
fn generate_test_min_entropy_increases_length() {
    // 40.0 bits, given in thousandths of a bit.
    let res = generate_many("pin", 6, 1, None, false, Some(40_000)).unwrap();
    assert_eq!(res.len(), 1);
    assert!(res[0].len() >= 13);
}

#[test]
fn genix_test_random_length() {
    let out = random_string(16, false);
    assert_eq!(out.len(), 16);
}

#[test]
fn genix_test_hex_length() {
    let s = hex_string(4);
    assert_eq!(s.len(), 8);
}

#[test]
fn genix_test_base64() {
    let s = base64_string(3);
    assert!(s.len() >= 4);
}

#[test]
fn genix_test_passphrase_default() {
    let words = builtin_wordlist();
    let p = passphrase_from(&words, 4);
    assert!(p.split('-').count() == 4);
}

#[test]
fn genix_test_min_entropy_increases_length() {
    let res = generate_many("pin", 6, 1, None, false, Some(40_000)).unwrap();
    assert_eq!(res.len(), 1);
    assert!(res[0].len() >= 13);
}

#[test]
fn integration_generate_and_entropy() {
    // Generate some items and verify sanity and entropy estimation
    let res = generate_many("random", 32, 2, None, false, None).expect("generate");
    assert_eq!(res.len(), 2);
    let est = estimate_entropy_for_str(&res[0], "random").expect("entropy");
    let bits = (est.charset_size as f64).log2() * (est.units as f64);
    assert!(bits > 0.0);
}

#[test]
fn pin_items_are_digits_of_requested_length() {
    let pin = pin_string(32);
    assert_eq!(pin.chars().count(), 32);
    assert!(pin.chars().all(|c| c.is_ascii_digit()));
}

#[test]
fn random_no_ambiguous_excludes_ambiguous_chars() {
    let out = random_string(256, true);
    assert_eq!(out.chars().count(), 256);
    assert!(out.chars().all(|c| !"1lI0O|".contains(c)));
    assert!(out.chars().all(|c| (33..=126).contains(&(c as u32))));
}

#[test]
fn hex_items_are_lowercase_hex() {
    let s = hex_string(16);
    assert_eq!(s.len(), 32);
    assert!(s.chars().all(|c| c.is_ascii_hexdigit() && !c.is_ascii_uppercase()));
}

#[test]
fn base64_item_decodes_to_drawn_byte_count() {
    let s = base64_string(5);
    assert_eq!(s.len(), 8);
    let decoded = base64::engine::general_purpose::STANDARD
        .decode(s.as_bytes())
        .expect("valid base64");
    assert_eq!(decoded.len(), 5);
}

#[test]
fn base64_of_zero_bytes_is_empty() {
    assert_eq!(base64_string(0).len(), 0);
}

#[test]
fn passphrase_single_word_list_is_deterministic() {
    let words = vec!["xy".to_string()];
    let p = passphrase_from(&words, 3);
    assert_eq!(p, "xy-xy-xy");
}

#[test]
fn printable_pool_size_matches_the_style_hint() {
    let full = printable_pool(false);
    assert_eq!(full.len(), 94);
    assert!(full.contains(&'|'));
    let trimmed = printable_pool(true);
    assert_eq!(trimmed.len(), 88);
    assert!("1lI0O|".chars().all(|c| !trimmed.contains(&c)));
}

#[test]
fn builtin_wordlist_has_the_ten_fallback_words() {
    let words = builtin_wordlist();
    assert_eq!(
        words,
        vec![
            "alpha", "bravo", "charlie", "delta", "echo", "foxtrot", "golf", "hotel", "india",
            "juliet"
        ]
    );
}
