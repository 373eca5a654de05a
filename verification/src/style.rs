//! The five generation styles and their recognition from a style name.

use vstd::prelude::*;

verus! {

/// A generation style. The meaning of a request's `length` depends on it:
/// characters for `Random`/`Pin`, bytes for `Hex`/`Base64`, words for
/// `Passphrase`.
#[derive(Clone, Copy, Debug, PartialEq, Eq, Structural)]
pub enum Style {
    Random,
    Pin,
    Hex,
    Base64,
    Passphrase,
}

/// The style named by `s`, or `None` for an unrecognized name.
pub open spec fn spec_style_of(s: Seq<char>) -> Option<Style> {
    if s == "random"@ {
        Some(Style::Random)
    } else if s == "pin"@ {
        Some(Style::Pin)
    } else if s == "hex"@ {
        Some(Style::Hex)
    } else if s == "base64"@ {
        Some(Style::Base64)
    } else if s == "passphrase"@ {
        Some(Style::Passphrase)
    } else {
        None
    }
}

/// Character-wise string equality.
pub fn str_eq(a: &str, b: &str) -> (r: bool)
    ensures
        r == (a@ == b@),
{
    let alen = a.unicode_len();
    let blen = b.unicode_len();
    if alen != blen {
        return false;
    }
    let mut i: usize = 0;
    while i < alen
        invariant
            alen == a@.len(),
            blen == b@.len(),
            alen == blen,
            i <= alen,
            forall|j: int| 0 <= j < i ==> a@[j] == b@[j],
        decreases alen - i,
    {
        if a.get_char(i) != b.get_char(i) {
            return false;
        }
        i = i + 1;
    }
    proof {
        assert(a@ =~= b@);
    }
    true
}

/// Parse a style name into the closed `Style` variant set.
pub fn parse_style(name: &str) -> (r: Option<Style>)
    ensures
        r == spec_style_of(name@),
{
    if str_eq(name, "random") {
        Some(Style::Random)
    } else if str_eq(name, "pin") {
        Some(Style::Pin)
    } else if str_eq(name, "hex") {
        Some(Style::Hex)
    } else if str_eq(name, "base64") {
        Some(Style::Base64)
    } else if str_eq(name, "passphrase") {
        Some(Style::Passphrase)
    } else {
        None
    }
}

} // verus!
