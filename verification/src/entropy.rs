//! Entropy-related helpers: charset sizing and a lightweight estimator.
//!
//! The estimator is intentionally crude — a fast, explainable heuristic for
//! interactive feedback, not a password-strength auditor. It reports an
//! estimate in factored integer form, `(charset size, unit count)`; the
//! estimated bits are `units * log2(charset_size)`, a product the caller
//! takes where fractional arithmetic is available.

use vstd::prelude::*;

use crate::errors::GenError;
use crate::style::{parse_style, spec_style_of, Style};

verus! {

/// A lowercase ASCII letter.
pub open spec fn is_lower_char(c: char) -> bool {
    97 <= c as u32 <= 122
}

/// An uppercase ASCII letter.
pub open spec fn is_upper_char(c: char) -> bool {
    65 <= c as u32 <= 90
}

/// An ASCII digit.
pub open spec fn is_digit_char(c: char) -> bool {
    48 <= c as u32 <= 57
}

/// Anything that is not a letter or a digit counts as a symbol: each
/// character sets exactly one of the four class flags.
pub open spec fn is_symbol_char(c: char) -> bool {
    !is_lower_char(c) && !is_upper_char(c) && !is_digit_char(c)
}

pub open spec fn has_lower(s: Seq<char>) -> bool {
    exists|i: int| 0 <= i < s.len() && is_lower_char(s[i])
}

pub open spec fn has_upper(s: Seq<char>) -> bool {
    exists|i: int| 0 <= i < s.len() && is_upper_char(s[i])
}

pub open spec fn has_digit(s: Seq<char>) -> bool {
    exists|i: int| 0 <= i < s.len() && is_digit_char(s[i])
}

pub open spec fn has_symbol(s: Seq<char>) -> bool {
    exists|i: int| 0 <= i < s.len() && is_symbol_char(s[i])
}

/// The charset size detected from the character classes present in `s`:
/// 26 for lowercase, 26 for uppercase, 10 for digits, and a fixed 32 as a
/// conservative stand-in for whatever symbols occur.
pub open spec fn spec_detected_charset(s: Seq<char>) -> nat {
    (if has_lower(s) { 26nat } else { 0nat }) + (if has_upper(s) { 26nat } else { 0nat })
        + (if has_digit(s) { 10nat } else { 0nat }) + (if has_symbol(s) { 32nat } else { 0nat })
}

/// The charset-size hint for a parsed style: the 94-character printable
/// pool for `Random` (88 with the six ambiguous characters removed), 10
/// digits for `Pin`, 16 for `Hex`, 64 for `Base64`, and none for
/// `Passphrase` or an unrecognized style.
pub open spec fn spec_charset_hint(st: Option<Style>, no_ambiguous: bool) -> Option<usize> {
    match st {
        Some(Style::Random) => Some(if no_ambiguous { 88usize } else { 94usize }),
        Some(Style::Pin) => Some(10usize),
        Some(Style::Hex) => Some(16usize),
        Some(Style::Base64) => Some(64usize),
        Some(Style::Passphrase) => None,
        None => None,
    }
}

/// Return a conservative charset size hint for a named style.
pub fn charset_size_for_style(style: &str, no_ambiguous: bool) -> (r: Option<usize>)
    ensures
        r == spec_charset_hint(spec_style_of(style@), no_ambiguous),
{
    match parse_style(style) {
        Some(Style::Random) => if no_ambiguous { Some(88) } else { Some(94) },
        Some(Style::Pin) => Some(10),
        Some(Style::Hex) => Some(16),
        Some(Style::Base64) => Some(64),
        Some(Style::Passphrase) => None,
        None => None,
    }
}

/// `i` starts a word of `s`: a non-`-` character at the string's start or
/// right after a `-`.
pub open spec fn word_start(s: Seq<char>, i: int) -> bool {
    0 <= i < s.len() && s[i] != '-' && (i == 0 || s[i - 1] == '-')
}

pub open spec fn spec_word_count_upto(s: Seq<char>, n: int) -> nat
    decreases n,
{
    if n <= 0 {
        0nat
    } else {
        spec_word_count_upto(s, n - 1) + (if word_start(s, n - 1) {
            1nat
        } else {
            0nat
        })
    }
}

/// The number of non-empty `-`-separated segments of `s`.
pub open spec fn spec_word_count(s: Seq<char>) -> nat {
    spec_word_count_upto(s, s.len() as int)
}

/// Count the non-empty `-`-separated segments of `s`.
pub fn count_words(s: &str) -> (n: usize)
    ensures
        n == spec_word_count(s@),
{
    let len = s.unicode_len();
    let mut n: usize = 0;
    let mut i: usize = 0;
    while i < len
        invariant
            len == s@.len(),
            i <= len,
            n <= i,
            n == spec_word_count_upto(s@, i as int),
        decreases len - i,
    {
        let c = s.get_char(i);
        if c != '-' && (i == 0 || s.get_char(i - 1) == '-') {
            n = n + 1;
        }
        i = i + 1;
    }
    n
}

/// Scan `s` once and report which of the four character classes occur:
/// `(lowercase, uppercase, digit, symbol)`.
pub fn scan_classes(s: &str) -> (r: (bool, bool, bool, bool))
    ensures
        r.0 == has_lower(s@),
        r.1 == has_upper(s@),
        r.2 == has_digit(s@),
        r.3 == has_symbol(s@),
{
    let len = s.unicode_len();
    let mut lower = false;
    let mut upper = false;
    let mut digit = false;
    let mut symbol = false;
    let mut i: usize = 0;
    while i < len
        invariant
            len == s@.len(),
            i <= len,
            lower == exists|j: int| 0 <= j < i && is_lower_char(s@[j]),
            upper == exists|j: int| 0 <= j < i && is_upper_char(s@[j]),
            digit == exists|j: int| 0 <= j < i && is_digit_char(s@[j]),
            symbol == exists|j: int| 0 <= j < i && is_symbol_char(s@[j]),
        decreases len - i,
    {
        let c = s.get_char(i);
        let u = c as u32;
        if 97 <= u && u <= 122 {
            lower = true;
        } else if 65 <= u && u <= 90 {
            upper = true;
        } else if 48 <= u && u <= 57 {
            digit = true;
        } else {
            symbol = true;
        }
        i = i + 1;
    }
    (lower, upper, digit, symbol)
}

/// An entropy estimate in factored form: the estimated bits are
/// `units * log2(charset_size)`. For character styles `units` is the
/// character count; for passphrases it is the word count.
#[derive(Debug, Clone, Copy, PartialEq, Eq, Structural)]
pub struct EntropyEstimate {
    /// Charset size inferred or hinted (the assumed wordlist size for
    /// passphrases).
    pub charset_size: usize,
    /// How many independent draws the input is taken to contain.
    pub units: usize,
}

/// The assumed wordlist size when estimating passphrase entropy. Fixed,
/// whatever wordlist generation actually used.
pub open spec fn spec_assumed_wordlist_size() -> nat {
    2048nat
}

/// The charset the estimator settles on for a non-passphrase input: the
/// detected size when it is plausible (at least 2), else the style hint
/// when there is one, else the detected size again.
pub open spec fn spec_resolved_charset(s: Seq<char>, st: Option<Style>) -> nat {
    let d = spec_detected_charset(s);
    if d >= 2 {
        d
    } else {
        match spec_charset_hint(st, false) {
            Some(h) => h as nat,
            None => d,
        }
    }
}

/// Detect the charset for a non-passphrase input: the summed class
/// weights, with the style hint as fallback for implausibly small
/// detections. Returns the resolved charset and the four class flags.
fn resolve_charset(s: &str, style: &str) -> (r: (usize, bool, bool, bool, bool))
    ensures
        r.0 == spec_resolved_charset(s@, spec_style_of(style@)),
        r.1 == has_lower(s@),
        r.2 == has_upper(s@),
        r.3 == has_digit(s@),
        r.4 == has_symbol(s@),
{
    let (lower, upper, digit, symbol) = scan_classes(s);
    let mut charset: usize = 0;
    if lower {
        charset = charset + 26;
    }
    if upper {
        charset = charset + 26;
    }
    if digit {
        charset = charset + 10;
    }
    if symbol {
        charset = charset + 32;
    }
    assert(charset == spec_detected_charset(s@));

    if charset < 2 {
        if let Some(hint) = charset_size_for_style(style, false) {
            charset = hint;
        }
    }
    (charset, lower, upper, digit, symbol)
}

/// Estimate the entropy of `s` in factored form, using a lightweight
/// heuristic.
///
/// For `passphrase` style the input is split on `-`, empty segments are
/// dropped, and each remaining word is worth `log2(2048)` bits. For every
/// other style the charset is detected from the character classes present
/// (falling back to the style's hint for implausibly small detections) and
/// each character is worth `log2(charset)` bits.
///
/// Fails with `EntropyUndetermined` exactly when neither detection nor the
/// hint yields a charset of at least two symbols.
pub fn estimate_entropy_for_str(s: &str, style: &str) -> (r: Result<EntropyEstimate, GenError>)
    ensures
        spec_style_of(style@) == Some(Style::Passphrase) ==> (r matches Ok(e) && e.charset_size
            == spec_assumed_wordlist_size() && e.units == spec_word_count(s@)),
        spec_style_of(style@) != Some(Style::Passphrase) ==> {
            let c = spec_resolved_charset(s@, spec_style_of(style@));
            &&& c < 2 ==> r == Err::<EntropyEstimate, GenError>(GenError::EntropyUndetermined)
            &&& c >= 2 ==> (r matches Ok(e) && e.charset_size == c && e.units == s@.len())
        },
{
    if parse_style(style) == Some(Style::Passphrase) {
        let words = count_words(s);
        return Ok(EntropyEstimate { charset_size: 2048, units: words });
    }

    let (charset, _, _, _, _) = resolve_charset(s, style);
    if charset < 2 {
        return Err(GenError::EntropyUndetermined);
    }

    Ok(EntropyEstimate { charset_size: charset, units: s.unicode_len() })
}

/// Detailed entropy profile returned by `estimate_entropy_detailed`. The
/// estimated bits are `length * log2(charset_size)`.
#[derive(Debug, PartialEq, Eq)]
pub struct EntropyProfile {
    /// Charset size inferred or hinted.
    pub charset_size: usize,
    /// Length in characters (or words for passphrase).
    pub length: usize,
    /// Flags indicating which character classes were present.
    pub has_lower: bool,
    pub has_upper: bool,
    pub has_digit: bool,
    pub has_symbol: bool,
    /// For passphrase: word count and assumed wordlist size.
    pub word_count: Option<usize>,
    pub assumed_wordlist_size: Option<usize>,
}

/// Return a detailed entropy profile for `s`: the same algorithm as
/// `estimate_entropy_for_str`, with the observed class flags and, for
/// passphrases, the word count and assumed wordlist size filled in.
pub fn estimate_entropy_detailed(s: &str, style: &str) -> (r: Result<EntropyProfile, GenError>)
    ensures
        spec_style_of(style@) == Some(Style::Passphrase) ==> (r matches Ok(p) && p.charset_size
            == spec_assumed_wordlist_size() && p.length == spec_word_count(s@) && !p.has_lower
            && !p.has_upper && !p.has_digit && !p.has_symbol && p.word_count == Some(p.length)
            && p.assumed_wordlist_size == Some(2048usize)),
        spec_style_of(style@) != Some(Style::Passphrase) ==> {
            let c = spec_resolved_charset(s@, spec_style_of(style@));
            &&& c < 2 ==> r == Err::<EntropyProfile, GenError>(GenError::EntropyUndetermined)
            &&& c >= 2 ==> (r matches Ok(p) && p.charset_size == c && p.length == s@.len()
                && p.has_lower == has_lower(s@) && p.has_upper == has_upper(s@) && p.has_digit
                == has_digit(s@) && p.has_symbol == has_symbol(s@) && p.word_count
                == None::<usize> && p.assumed_wordlist_size == None::<usize>)
        },
{
    if parse_style(style) == Some(Style::Passphrase) {
        let words = count_words(s);
        return Ok(
            EntropyProfile {
                charset_size: 2048,
                length: words,
                has_lower: false,
                has_upper: false,
                has_digit: false,
                has_symbol: false,
                word_count: Some(words),
                assumed_wordlist_size: Some(2048),
            },
        );
    }

    let (charset, lower, upper, digit, symbol) = resolve_charset(s, style);
    if charset < 2 {
        return Err(GenError::EntropyUndetermined);
    }

    Ok(
        EntropyProfile {
            charset_size: charset,
            length: s.unicode_len(),
            has_lower: lower,
            has_upper: upper,
            has_digit: digit,
            has_symbol: symbol,
            word_count: None,
            assumed_wordlist_size: None,
        },
    )
}

/// Law: the charset-size hint is a pure function of its arguments — any
/// two results obtained for the same style name and the same ambiguity
/// flag agree, since `charset_size_for_style` pins its result to
/// `spec_charset_hint`.
pub proof fn lemma_charset_hint_deterministic(
    style: Seq<char>,
    no_ambiguous: bool,
    r1: Option<usize>,
    r2: Option<usize>,
)
    requires
        r1 == spec_charset_hint(spec_style_of(style), no_ambiguous),
        r2 == spec_charset_hint(spec_style_of(style), no_ambiguous),
    ensures
        r1 == r2,
{
}

/// Law: an all-lowercase, non-empty input detects exactly the lowercase
/// class, so the estimator resolves a charset of 26 whatever the style
/// hint — its estimate is `len * log2(26)` bits.
pub proof fn lemma_estimate_all_lowercase(s: Seq<char>)
    requires
        s.len() > 0,
        forall|i: int| 0 <= i < s.len() ==> is_lower_char(s[i]),
    ensures
        spec_detected_charset(s) == 26,
        forall|st: Option<Style>| spec_resolved_charset(s, st) == 26,
{
    assert(is_lower_char(s[0]));
    assert(has_lower(s));
    assert(!has_upper(s));
    assert(!has_digit(s));
    assert(!has_symbol(s));
}

/// Law: detection comes up empty exactly on the empty input — every
/// character sets one of the four class flags, and each flag is worth at
/// least 10 symbols.
pub proof fn lemma_detection_empty_iff_empty_input(s: Seq<char>)
    ensures
        spec_detected_charset(s) == 0 <==> s.len() == 0,
{
    if s.len() > 0 {
        let c = s[0];
        if is_lower_char(c) {
            assert(has_lower(s));
        } else if is_upper_char(c) {
            assert(has_upper(s));
        } else if is_digit_char(c) {
            assert(has_digit(s));
        } else {
            assert(is_symbol_char(c));
            assert(has_symbol(s));
        }
    }
}

/// Law: the estimator is undetermined exactly when the input is empty and
/// the style carries no charset hint. In particular an empty input under
/// the `random` style never fails: its hint (94) takes over.
pub proof fn lemma_undetermined_boundary(s: Seq<char>, st: Option<Style>)
    ensures
        spec_resolved_charset(s, st) < 2 <==> (s.len() == 0 && spec_charset_hint(st, false)
            is None),
{
    lemma_detection_empty_iff_empty_input(s);
}

/// Law: an input showing all four character classes detects the full
/// 26 + 26 + 10 + 32 = 94 charset, whatever the style hint — its estimate
/// is `len * log2(94)` bits.
pub proof fn lemma_estimate_all_classes(s: Seq<char>)
    requires
        has_lower(s),
        has_upper(s),
        has_digit(s),
        has_symbol(s),
    ensures
        spec_detected_charset(s) == 94,
        forall|st: Option<Style>| spec_resolved_charset(s, st) == 94,
{
}

} // verus!
