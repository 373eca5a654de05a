//! Generation of random secrets.
//!
//! `generate_many` supports five styles: `random`, `pin`, `hex`, `base64`
//! and `passphrase`. A minimum-entropy target, given in thousandths of a
//! bit, may grow the requested length before generation. Randomness comes
//! from the `rand` crate behind trusted wrappers; base64 rendering comes
//! from the `base64` crate the same way.

use vstd::prelude::*;

use base64::Engine;
use rand::Rng;

use vstd::arithmetic::div_mod::lemma_div_is_ordered;
use vstd::arithmetic::div_mod::lemma_div_is_ordered_by_denominator;
use vstd::arithmetic::div_mod::lemma_fundamental_div_mod;
use vstd::arithmetic::mul::lemma_mul_inequality;

use crate::entropy::charset_size_for_style;
use crate::entropy::is_digit_char;
use crate::entropy::spec_charset_hint;
use crate::errors::GenError;
use crate::style::{parse_style, spec_style_of, Style};

verus! {

// ------------------------------------------------------------------
// Trusted boundary: randomness, base64 rendering, character pushes.
// ------------------------------------------------------------------

/// Relies on rand::Rng::gen_range over `0..n`, which panics only on an
/// empty range and otherwise returns a uniformly drawn value below `n`.
#[verifier::external_body]
fn rand_below(n: usize) -> (r: usize)
    requires
        n > 0,
    ensures
        r < n,
{
    rand::thread_rng().gen_range(0..n)
}

/// Relies on rand::Rng::fill for `[u8]`, which fills the buffer with
/// random bytes and leaves its length unchanged. Nothing is promised of
/// the byte values.
#[verifier::external_body]
fn rand_bytes(n: usize) -> (r: Vec<u8>)
    ensures
        r@.len() == n,
{
    let mut buf = vec![0u8; n];
    rand::thread_rng().fill(&mut buf[..]);
    buf
}

/// What base64's STANDARD engine `encode` returns for the given bytes: a
/// fixed function of the input alone.
pub uninterp spec fn base64_of(bytes: Seq<u8>) -> Seq<char>;

/// Relies on base64's STANDARD engine `encode`: the standard alphabet with
/// padding, whose output is `4 * ceil(n / 3)` characters and depends on
/// the input bytes alone. `encode` panics when that output length
/// overflows `usize`; the bound on the input keeps it in range.
#[verifier::external_body]
fn base64_encode(bytes: &Vec<u8>) -> (r: String)
    requires
        bytes@.len() <= usize::MAX / 4,
    ensures
        r@ == base64_of(bytes@),
        r@.len() == 4 * ((bytes@.len() + 2) / 3),
{
    base64::engine::general_purpose::STANDARD.encode(bytes.as_slice())
}

/// Relies on String::push, which appends exactly the given character.
#[verifier::external_body]
fn push_char(s: &mut String, c: char)
    ensures
        final(s)@ == old(s)@.push(c),
{
    s.push(c);
}

// ------------------------------------------------------------------
// The printable pool.
// ------------------------------------------------------------------

/// One of the six visually ambiguous characters (`1`, `l`, `I`, `0`, `O`,
/// `|`).
pub open spec fn spec_ambiguous_char(c: char) -> bool {
    c == '1' || c == 'l' || c == 'I' || c == '0' || c == 'O' || c == '|'
}

/// `c` belongs to the printable pool: the 94 ASCII characters `!` (33)
/// through `~` (126), with the six ambiguous ones excluded when
/// `no_ambiguous` is set.
pub open spec fn spec_in_pool(c: char, no_ambiguous: bool) -> bool {
    33 <= c as u32 <= 126 && (no_ambiguous ==> !spec_ambiguous_char(c))
}

fn is_ambiguous(c: char) -> (r: bool)
    ensures
        r == spec_ambiguous_char(c),
{
    c == '1' || c == 'l' || c == 'I' || c == '0' || c == 'O' || c == '|'
}

/// How many of the six ambiguous codepoints lie below `u`.
spec fn spec_ambiguous_below(u: int) -> int {
    (if u > 48 {
        1int
    } else {
        0int
    }) + (if u > 49 {
        1int
    } else {
        0int
    }) + (if u > 73 {
        1int
    } else {
        0int
    }) + (if u > 79 {
        1int
    } else {
        0int
    }) + (if u > 108 {
        1int
    } else {
        0int
    }) + (if u > 124 {
        1int
    } else {
        0int
    })
}

/// Build the pool the `random` style draws from: pairwise distinct
/// characters, and exactly as many as the charset hint for that style
/// reports — 94, or 88 with the ambiguous characters removed.
pub fn printable_pool(no_ambiguous: bool) -> (r: Vec<char>)
    ensures
        r@.len() == if no_ambiguous {
            88int
        } else {
            94int
        },
        forall|i: int| 0 <= i < r@.len() ==> spec_in_pool(r@[i], no_ambiguous),
        forall|i: int, j: int| 0 <= i < j < r@.len() ==> r@[i] != r@[j],
{
    let mut pool: Vec<char> = Vec::new();
    let mut u: u8 = 33;
    while u <= 126
        invariant
            33 <= u <= 127,
            pool@.len() == u - 33 - (if no_ambiguous {
                spec_ambiguous_below(u as int)
            } else {
                0int
            }),
            forall|i: int| 0 <= i < pool@.len() ==> spec_in_pool(pool@[i], no_ambiguous),
            forall|i: int| 0 <= i < pool@.len() ==> (pool@[i] as u32) < u as u32,
            forall|i: int, j: int|
                0 <= i < j < pool@.len() ==> (pool@[i] as u32) < (pool@[j] as u32),
        decreases 127 - u,
    {
        let c = u as char;
        if !(no_ambiguous && is_ambiguous(c)) {
            pool.push(c);
        }
        u = u + 1;
    }
    pool
}

// ------------------------------------------------------------------
// One generated item per style.
// ------------------------------------------------------------------

/// Generate a random string of `len` characters drawn from the printable
/// pool, with ambiguous characters removed first when `no_ambiguous` is
/// set.
pub fn random_string(len: usize, no_ambiguous: bool) -> (r: String)
    ensures
        r@.len() == len,
        forall|i: int| 0 <= i < r@.len() ==> spec_in_pool(r@[i], no_ambiguous),
{
    let pool = printable_pool(no_ambiguous);
    if pool.len() == 0 {
        // The fixed pool always has at least 88 characters; drawing from
        // an empty pool would otherwise yield an empty item.
        return String::new();
    }
    let mut out = String::new();
    let mut i: usize = 0;
    while i < len
        invariant
            i <= len,
            out@.len() == i,
            pool@.len() > 0,
            forall|k: int| 0 <= k < pool@.len() ==> spec_in_pool(pool@[k], no_ambiguous),
            forall|j: int| 0 <= j < i ==> spec_in_pool(out@[j], no_ambiguous),
        decreases len - i,
    {
        let idx = rand_below(pool.len());
        push_char(&mut out, pool[idx]);
        i = i + 1;
    }
    out
}

/// Generate a numeric PIN of `len` uniformly drawn decimal digits.
pub fn pin_string(len: usize) -> (r: String)
    ensures
        r@.len() == len,
        forall|i: int| 0 <= i < r@.len() ==> is_digit_char(r@[i]),
{
    let mut out = String::new();
    let mut i: usize = 0;
    while i < len
        invariant
            i <= len,
            out@.len() == i,
            forall|j: int| 0 <= j < i ==> is_digit_char(out@[j]),
        decreases len - i,
    {
        let d = rand_below(10);
        let c = (48 + d as u8) as char;
        push_char(&mut out, c);
        i = i + 1;
    }
    out
}

/// The lowercase hex digit for a value below 16.
pub open spec fn spec_hex_char(d: nat) -> char {
    if d == 0 {
        '0'
    } else if d == 1 {
        '1'
    } else if d == 2 {
        '2'
    } else if d == 3 {
        '3'
    } else if d == 4 {
        '4'
    } else if d == 5 {
        '5'
    } else if d == 6 {
        '6'
    } else if d == 7 {
        '7'
    } else if d == 8 {
        '8'
    } else if d == 9 {
        '9'
    } else if d == 10 {
        'a'
    } else if d == 11 {
        'b'
    } else if d == 12 {
        'c'
    } else if d == 13 {
        'd'
    } else if d == 14 {
        'e'
    } else {
        'f'
    }
}

fn hex_char(d: u8) -> (c: char)
    requires
        d < 16,
    ensures
        c == spec_hex_char(d as nat),
{
    match d {
        0 => '0',
        1 => '1',
        2 => '2',
        3 => '3',
        4 => '4',
        5 => '5',
        6 => '6',
        7 => '7',
        8 => '8',
        9 => '9',
        10 => 'a',
        11 => 'b',
        12 => 'c',
        13 => 'd',
        14 => 'e',
        _ => 'f',
    }
}

/// The lowercase hex rendering of a byte sequence: two digits per byte,
/// high nibble first.
pub open spec fn spec_hex_of(b: Seq<u8>) -> Seq<char> {
    Seq::new(
        2 * b.len(),
        |i: int|
            if i % 2 == 0 {
                spec_hex_char((b[i / 2] / 16) as nat)
            } else {
                spec_hex_char((b[i / 2] % 16) as nat)
            },
    )
}

/// Generate the lowercase hex rendering of `bytes` random bytes: the
/// output has exactly `2 * bytes` characters.
pub fn hex_string(bytes: usize) -> (r: String)
    ensures
        r@.len() == 2 * bytes,
        exists|b: Seq<u8>| b.len() == bytes && r@ == spec_hex_of(b),
{
    let buf = rand_bytes(bytes);
    let mut out = String::new();
    let mut i: usize = 0;
    while i < bytes
        invariant
            i <= bytes,
            buf@.len() == bytes,
            out@.len() == 2 * i,
            forall|j: int|
                0 <= j < i ==> out@[2 * j] == spec_hex_char((buf@[j] / 16) as nat) && out@[2 * j
                    + 1] == spec_hex_char((buf@[j] % 16) as nat),
        decreases bytes - i,
    {
        let b = buf[i];
        push_char(&mut out, hex_char(b / 16));
        push_char(&mut out, hex_char(b % 16));
        i = i + 1;
    }
    proof {
        assert forall|k: int| 0 <= k < 2 * bytes implies out@[k] == spec_hex_of(buf@)[k] by {
            let j = k / 2;
            if k % 2 == 0 {
                assert(k == 2 * j);
            } else {
                assert(k == 2 * j + 1);
            }
        }
        assert(out@ =~= spec_hex_of(buf@));
    }
    out
}

/// Generate the standard (padded) base64 encoding of `bytes` random
/// bytes: the output has exactly `4 * ceil(bytes / 3)` characters. The
/// bound on `bytes` keeps that output length within `usize`.
pub fn base64_string(bytes: usize) -> (r: String)
    requires
        bytes <= usize::MAX / 4,
    ensures
        r@.len() == 4 * ((bytes + 2) / 3),
        exists|b: Seq<u8>| b.len() == bytes && r@ == base64_of(b),
{
    let buf = rand_bytes(bytes);
    base64_encode(&buf)
}

// ------------------------------------------------------------------
// Passphrases.
// ------------------------------------------------------------------

/// The views of a list of words.
pub open spec fn words_view(ws: Seq<String>) -> Seq<Seq<char>> {
    ws.map_values(|w: String| w@)
}

/// The built-in fallback wordlist, used when no wordlist is supplied.
pub open spec fn spec_builtin_words() -> Seq<Seq<char>> {
    seq![
        "alpha"@,
        "bravo"@,
        "charlie"@,
        "delta"@,
        "echo"@,
        "foxtrot"@,
        "golf"@,
        "hotel"@,
        "india"@,
        "juliet"@,
    ]
}

/// Build the built-in ten-word fallback wordlist.
pub fn builtin_wordlist() -> (r: Vec<String>)
    ensures
        words_view(r@) == spec_builtin_words(),
{
    let mut v: Vec<String> = Vec::new();
    v.push(String::from_str("alpha"));
    v.push(String::from_str("bravo"));
    v.push(String::from_str("charlie"));
    v.push(String::from_str("delta"));
    v.push(String::from_str("echo"));
    v.push(String::from_str("foxtrot"));
    v.push(String::from_str("golf"));
    v.push(String::from_str("hotel"));
    v.push(String::from_str("india"));
    v.push(String::from_str("juliet"));
    proof {
        assert(words_view(v@) =~= spec_builtin_words());
    }
    v
}

/// The words of `ws` joined with single `-` separators.
pub open spec fn spec_join_dash(ws: Seq<Seq<char>>) -> Seq<char>
    decreases ws.len(),
{
    if ws.len() == 0 {
        Seq::empty()
    } else if ws.len() == 1 {
        ws[0]
    } else {
        spec_join_dash(ws.drop_last()) + seq!['-'] + ws.last()
    }
}

/// `p` reads as `n` words drawn from `words`, joined with `-`.
pub open spec fn spec_is_passphrase(p: Seq<char>, words: Seq<Seq<char>>, n: nat) -> bool {
    exists|ws: Seq<Seq<char>>|
        ws.len() == n && (forall|j: int| 0 <= j < ws.len() ==> words.contains(ws[j])) && p
            == spec_join_dash(ws)
}

/// Build a dash-separated passphrase of `target_words` words sampled
/// uniformly, with replacement, from `words`.
pub fn passphrase_from(words: &Vec<String>, target_words: usize) -> (r: String)
    requires
        words@.len() > 0,
    ensures
        spec_is_passphrase(r@, words_view(words@), target_words as nat),
{
    let mut out = String::new();
    let ghost mut ws: Seq<Seq<char>> = Seq::empty();
    let mut i: usize = 0;
    while i < target_words
        invariant
            i <= target_words,
            words@.len() > 0,
            ws.len() == i,
            forall|j: int| 0 <= j < ws.len() ==> words_view(words@).contains(ws[j]),
            out@ == spec_join_dash(ws),
        decreases target_words - i,
    {
        let idx = rand_below(words.len());
        if i > 0 {
            push_char(&mut out, '-');
        }
        let ghost prev = ws;
        let ghost mid = out@;
        out.append(words[idx].as_str());
        proof {
            let w = words@[idx as int]@;
            assert(words_view(words@)[idx as int] == w);
            assert(words_view(words@).contains(w));
            ws = ws.push(w);
            assert(ws.drop_last() =~= prev);
            assert(ws.last() == w);
            if i == 0 {
                assert(out@ =~= spec_join_dash(ws));
            } else {
                assert(mid =~= spec_join_dash(prev) + seq!['-']);
                assert(out@ =~= spec_join_dash(prev) + seq!['-'] + w);
            }
        }
        i = i + 1;
    }
    out
}

// ------------------------------------------------------------------
// Minimum-entropy length growth.
// ------------------------------------------------------------------

/// log2 of each charset size that `charset_size_for_style` can report, in
/// thousandths of a bit, rounded to nearest; 0 for any other size.
pub open spec fn spec_per_unit_millibits(c: nat) -> nat {
    if c == 10 {
        3322nat
    } else if c == 16 {
        4000nat
    } else if c == 64 {
        6000nat
    } else if c == 88 {
        6459nat
    } else if c == 94 {
        6555nat
    } else {
        0nat
    }
}

fn per_unit_millibits(c: usize) -> (r: usize)
    ensures
        r == spec_per_unit_millibits(c as nat),
{
    if c == 10 {
        3322
    } else if c == 16 {
        4000
    } else if c == 64 {
        6000
    } else if c == 88 {
        6459
    } else if c == 94 {
        6555
    } else {
        0
    }
}

/// The least unit count whose total entropy reaches `m` millibits at `t`
/// millibits per unit: `ceil(m / t)`.
pub open spec fn spec_needed_units(m: nat, t: nat) -> nat
    recommends
        t > 0,
{
    m / t + if m % t == 0 {
        0nat
    } else {
        1nat
    }
}

/// The length a request is grown to: when a minimum-entropy target and a
/// charset hint are both present, the larger of the requested length and
/// the unit count needed to reach the target; otherwise the requested
/// length unchanged.
pub open spec fn spec_effective_length(
    length: usize,
    hint: Option<usize>,
    min_millibits: Option<usize>,
) -> nat {
    if min_millibits is Some && hint is Some {
        let t = spec_per_unit_millibits(hint->0 as nat);
        if t == 0 {
            length as nat
        } else {
            let n = spec_needed_units(min_millibits->0 as nat, t);
            if n > length {
                n
            } else {
                length as nat
            }
        }
    } else {
        length as nat
    }
}

/// Law: the grown unit count reaches the minimum-entropy target —
/// `ceil(m / t)` units at `t` millibits each carry at least `m`
/// millibits.
pub proof fn lemma_needed_units_sufficient(m: nat, t: nat)
    requires
        t > 0,
    ensures
        spec_needed_units(m, t) * t >= m,
{
    lemma_fundamental_div_mod(m as int, t as int);
    if m % t == 0 {
        assert(spec_needed_units(m, t) * t == (m / t) * t);
        assert((m / t) * t == t * (m / t)) by (nonlinear_arith);
    } else {
        assert(spec_needed_units(m, t) * t == (m / t) * t + t) by (nonlinear_arith)
            requires
                spec_needed_units(m, t) == m / t + 1,
        ;
        assert((m / t) * t == t * (m / t)) by (nonlinear_arith);
    }
}

/// Law: a request grown for a minimum-entropy target meets it — the
/// effective length times the per-unit millibits is at least the target.
pub proof fn lemma_effective_length_meets_min(length: usize, hint: Option<usize>, m: Option<usize>)
    requires
        m is Some,
        hint is Some,
        spec_per_unit_millibits(hint->0 as nat) > 0,
    ensures
        spec_effective_length(length, hint, m) * spec_per_unit_millibits(hint->0 as nat)
            >= m->0,
{
    let t = spec_per_unit_millibits(hint->0 as nat);
    let n = spec_needed_units(m->0 as nat, t);
    let eff = spec_effective_length(length, hint, m);
    lemma_needed_units_sufficient(m->0 as nat, t);
    assert(eff >= n);
    lemma_mul_inequality(n as int, eff as int, t as int);
}

/// The effective length never exceeds both the requested length and the
/// largest growth a millibit target can ask for.
proof fn lemma_effective_length_bound(length: usize, hint: Option<usize>, m: Option<usize>)
    ensures
        spec_effective_length(length, hint, m) <= length || spec_effective_length(length, hint, m)
            <= usize::MAX as nat / 3322 + 1,
{
    if m is Some && hint is Some {
        let t = spec_per_unit_millibits(hint->0 as nat);
        if t != 0 {
            assert(t >= 3322);
            let mm = m->0 as nat;
            lemma_div_is_ordered_by_denominator(mm as int, 3322, t as int);
            lemma_div_is_ordered(mm as int, usize::MAX as int, 3322);
            assert(spec_needed_units(mm, t) <= usize::MAX as nat / 3322 + 1);
        }
    }
}

// ------------------------------------------------------------------
// The generator.
// ------------------------------------------------------------------

/// What one generated item must look like for a style, an effective
/// length and a word pool.
pub open spec fn spec_item_ok(
    item: Seq<char>,
    st: Style,
    eff: nat,
    no_ambiguous: bool,
    words: Seq<Seq<char>>,
) -> bool {
    match st {
        Style::Random => item.len() == eff && forall|i: int|
            0 <= i < item.len() ==> spec_in_pool(item[i], no_ambiguous),
        Style::Pin => item.len() == eff && forall|i: int|
            0 <= i < item.len() ==> is_digit_char(item[i]),
        Style::Hex => item.len() == 2 * eff && exists|b: Seq<u8>|
            b.len() == eff && item == spec_hex_of(b),
        Style::Base64 => item.len() == 4 * ((eff + 2) / 3) && exists|b: Seq<u8>|
            b.len() == eff && item == base64_of(b),
        Style::Passphrase => spec_is_passphrase(item, words, eff),
    }
}

/// The word pool a generation call resolves: the supplied wordlist, or
/// the built-in fallback when none is given.
pub open spec fn spec_resolved_words(wordlist: Option<&Vec<String>>) -> Seq<Seq<char>> {
    match wordlist {
        Some(w) => words_view(w@),
        None => spec_builtin_words(),
    }
}

fn passphrase_items(words: &Vec<String>, target_words: usize, count: usize) -> (r: Vec<String>)
    requires
        words@.len() > 0,
    ensures
        r@.len() == count,
        forall|i: int|
            0 <= i < count ==> spec_is_passphrase(r@[i]@, words_view(words@), target_words as nat),
{
    let mut items: Vec<String> = Vec::new();
    let mut k: usize = 0;
    while k < count
        invariant
            k <= count,
            words@.len() > 0,
            items@.len() == k,
            forall|i: int|
                0 <= i < k ==> spec_is_passphrase(
                    items@[i]@,
                    words_view(words@),
                    target_words as nat,
                ),
        decreases count - k,
    {
        items.push(passphrase_from(words, target_words));
        k = k + 1;
    }
    items
}

/// Generate `count` items in `style`, each independently drawn.
///
/// `length` means characters for `random`/`pin`, bytes for
/// `hex`/`base64`, and words for `passphrase`. When
/// `min_entropy_millibits` is given and the style has a charset hint, the
/// length is first grown to `ceil(target / log2(charset))` if that is
/// larger; passphrases have no hint and are never grown. `wordlist`
/// supplies the passphrase word pool; without one the built-in ten-word
/// fallback is used.
///
/// The bound on `length` for `base64` keeps the encoded length within
/// `usize`.
///
/// Fails with `UnknownStyle` exactly on an unrecognized style name, with
/// `EmptyWordlist` exactly when the resolved word pool has no entries,
/// and with `InvalidCharsetForEntropy` exactly when a minimum-entropy
/// target meets a charset of fewer than two symbols.
pub fn generate_many(
    style: &str,
    length: usize,
    count: usize,
    wordlist: Option<&Vec<String>>,
    no_ambiguous: bool,
    min_entropy_millibits: Option<usize>,
) -> (r: Result<Vec<String>, GenError>)
    requires
        spec_style_of(style@) == Some(Style::Base64) ==> length <= usize::MAX / 4,
    ensures
        ({
            let st = spec_style_of(style@);
            let hint = spec_charset_hint(st, no_ambiguous);
            let eff = spec_effective_length(length, hint, min_entropy_millibits);
            let words = spec_resolved_words(wordlist);
            let invalid = min_entropy_millibits is Some && hint is Some
                && spec_per_unit_millibits(hint->0 as nat) == 0;
            &&& invalid <==> r == Err::<Vec<String>, GenError>(GenError::InvalidCharsetForEntropy)
            &&& !invalid && st is None ==> (r matches Err(GenError::UnknownStyle(n)) && n@
                == style@)
            &&& !invalid && st == Some(Style::Passphrase) && words.len() == 0 ==> r == Err::<
                Vec<String>,
                GenError,
            >(GenError::EmptyWordlist)
            &&& !invalid && st is Some && !(st == Some(Style::Passphrase) && words.len() == 0)
                ==> (r matches Ok(items) && items@.len() == count && forall|i: int|
                0 <= i < count ==> spec_item_ok(items@[i]@, st->0, eff, no_ambiguous, words))
        }),
{
    let parsed = parse_style(style);
    let mut eff_length = length;
    if let Some(m) = min_entropy_millibits {
        if let Some(c) = charset_size_for_style(style, no_ambiguous) {
            let t = per_unit_millibits(c);
            if t == 0 {
                return Err(GenError::InvalidCharsetForEntropy);
            }
            assert(t >= 3322);
            proof {
                lemma_div_is_ordered_by_denominator(m as int, 2, t as int);
            }
            let q = m / t;
            let needed = if m % t == 0 {
                q
            } else {
                q + 1
            };
            if needed > eff_length {
                eff_length = needed;
            }
        }
    }
    assert(eff_length == spec_effective_length(
        length,
        spec_charset_hint(spec_style_of(style@), no_ambiguous),
        min_entropy_millibits,
    ));

    match parsed {
        Some(Style::Random) => {
            let mut items: Vec<String> = Vec::new();
            let mut k: usize = 0;
            while k < count
                invariant
                    k <= count,
                    items@.len() == k,
                    forall|i: int|
                        0 <= i < k ==> items@[i]@.len() == eff_length && forall|j: int|
                            0 <= j < items@[i]@.len() ==> spec_in_pool(items@[i]@[j], no_ambiguous),
                decreases count - k,
            {
                items.push(random_string(eff_length, no_ambiguous));
                k = k + 1;
            }
            Ok(items)
        },
        Some(Style::Pin) => {
            let mut items: Vec<String> = Vec::new();
            let mut k: usize = 0;
            while k < count
                invariant
                    k <= count,
                    items@.len() == k,
                    forall|i: int|
                        0 <= i < k ==> items@[i]@.len() == eff_length && forall|j: int|
                            0 <= j < items@[i]@.len() ==> is_digit_char(items@[i]@[j]),
                decreases count - k,
            {
                items.push(pin_string(eff_length));
                k = k + 1;
            }
            Ok(items)
        },
        Some(Style::Hex) => {
            let mut items: Vec<String> = Vec::new();
            let mut k: usize = 0;
            while k < count
                invariant
                    k <= count,
                    items@.len() == k,
                    forall|i: int|
                        0 <= i < k ==> items@[i]@.len() == 2 * eff_length && exists|b: Seq<u8>|
                            b.len() == eff_length && items@[i]@ == spec_hex_of(b),
                decreases count - k,
            {
                items.push(hex_string(eff_length));
                k = k + 1;
            }
            Ok(items)
        },
        Some(Style::Base64) => {
            proof {
                lemma_effective_length_bound(
                    length,
                    spec_charset_hint(spec_style_of(style@), no_ambiguous),
                    min_entropy_millibits,
                );
            }
            let mut items: Vec<String> = Vec::new();
            let mut k: usize = 0;
            while k < count
                invariant
                    k <= count,
                    eff_length <= usize::MAX / 4,
                    items@.len() == k,
                    forall|i: int|
                        0 <= i < k ==> items@[i]@.len() == 4 * ((eff_length + 2) / 3) && exists|
                            b: Seq<u8>,
                        | b.len() == eff_length && items@[i]@ == base64_of(b),
                decreases count - k,
            {
                items.push(base64_string(eff_length));
                k = k + 1;
            }
            Ok(items)
        },
        Some(Style::Passphrase) => {
            match wordlist {
                Some(w) => {
                    if w.len() == 0 {
                        return Err(GenError::EmptyWordlist);
                    }
                    Ok(passphrase_items(w, eff_length, count))
                },
                None => {
                    let fallback = builtin_wordlist();
                    assert(words_view(fallback@).len() == 10);
                    Ok(passphrase_items(&fallback, eff_length, count))
                },
            }
        },
        None => Err(GenError::UnknownStyle(style.to_owned())),
    }
}

} // verus!
