//! Random secret generation (character strings, PINs, hex/base64 byte
//! strings, word-based passphrases) and a lightweight entropy estimator
//! for CLI feedback.
//!
//! Entropy quantities are kept in integer form throughout: an estimate is a
//! `(charset size, unit count)` pair from which callers derive
//! `units * log2(charset_size)` bits, and minimum-entropy targets are given
//! in thousandths of a bit.

pub mod entropy;
pub mod errors;
pub mod generate;
pub mod style;
