//! Resolving the four per-class character counts of a password.

use vstd::prelude::*;

verus! {

/// Default requested password length when none is supplied.
pub const DEFAULT_LENGTH: usize = 16;

/// Default number of uppercase characters when none is supplied.
pub const DEFAULT_UPPER: usize = 2;

/// Default number of digits when none is supplied.
pub const DEFAULT_DIGIT: usize = 2;

/// Default number of special characters when none is supplied.
pub const DEFAULT_SPECIAL: usize = 2;

/// The four-way split of a password's required character counts by class.
///
/// After resolution the four components sum to the password's final
/// length; they are derived once per invocation and never mutated.
pub struct Quota {
    pub lower: usize,
    pub upper: usize,
    pub digit: usize,
    pub special: usize,
}

impl Quota {
    /// The password length this quota prescribes: the sum of its components.
    pub open spec fn total(self) -> int {
        self.lower + self.upper + self.digit + self.special
    }
}

/// Turns a requested total length and three explicit per-class counts into
/// a consistent quota whose four components sum exactly to the final length.
///
/// When the three explicit counts fit within the requested length, the
/// remainder is made up of lowercase characters and the length stays as
/// requested. When they exceed it, the explicit counts take priority: the
/// length is raised to their sum and no lowercase characters are used.
/// No input is rejected.
pub fn resolve_quota(length: usize, upper: usize, digit: usize, special: usize) -> (q: Quota)
    requires
        upper + digit + special <= usize::MAX,
    ensures
        q.upper == upper,
        q.digit == digit,
        q.special == special,
        length >= upper + digit + special ==> (q.lower == length - upper - digit - special
            && q.total() == length),
        length < upper + digit + special ==> (q.lower == 0 && q.total() == upper + digit
            + special),
{
    let explicit: usize = upper + digit + special;
    let lower: usize = if length >= explicit {
        length - explicit
    } else {
        0
    };
    Quota { lower, upper, digit, special }
}

} // verus!
