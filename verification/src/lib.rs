//! Random password generation with composition quotas.
//!
//! A password is described by a [`quota::Quota`]: how many lowercase,
//! uppercase, digit and special characters it must contain. The quota is
//! resolved from the requested length and the per-class counts, the
//! characters of each class are drawn at random, and the concatenated
//! result is shuffled over Unicode grapheme clusters so that the
//! class-grouped composition order leaves no trace.

pub mod charset;
pub mod compose;
pub mod password;
pub mod quota;
mod rng;
pub mod shuffle;
