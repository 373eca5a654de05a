//! The failure taxonomy shared by the generator and the estimator.

use vstd::prelude::*;

verus! {

/// A failure surfaced to the immediate caller; none is retried and none
/// aborts the process.
#[derive(Debug, PartialEq, Eq)]
pub enum GenError {
    /// The style name is not one of the five recognized values.
    UnknownStyle(String),
    /// A charset of at most one symbol makes minimum-entropy length solving
    /// impossible.
    InvalidCharsetForEntropy,
    /// A wordlist file could not be opened or read. Constructed by the
    /// surrounding application, which owns file access.
    WordlistUnreadable { path: String, cause: String },
    /// The resolved wordlist has no entries.
    EmptyWordlist,
    /// Neither character-class detection nor the style hint produced a
    /// usable charset size.
    EntropyUndetermined,
}

} // verus!
