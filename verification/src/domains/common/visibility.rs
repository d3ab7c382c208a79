//! Small shared vocabularies: who sees an account, how often a charge comes
//! back, and how amounts are rounded.

use vstd::prelude::*;

verus! {

/// Who can see a bank account.
#[derive(Debug, Clone, Copy, PartialEq, Eq, Structural)]
pub enum Visibility {
    Shared,
    Personal,
}

/// The text of a visibility.
pub open spec fn visibility_text(v: Visibility) -> Seq<char> {
    match v {
        Visibility::Shared => "SHARED"@,
        Visibility::Personal => "PERSONAL"@,
    }
}

impl Visibility {
    /// The text of the visibility, as it is displayed.
    pub fn to_string(&self) -> (r: String)
        ensures
            r@ == visibility_text(*self),
    {
        match self {
            Visibility::Shared => String::from_str("SHARED"),
            Visibility::Personal => String::from_str("PERSONAL"),
        }
    }
}

/// How often a charge comes back.
#[derive(Debug, Clone, Copy, PartialEq, Eq, Structural)]
pub enum Periodicity {
    Monthly,
    Yearly,
}

/// How an amount is rounded to its scale.
#[derive(Debug, Clone, Copy, PartialEq, Eq, Structural)]
pub enum RoundingMode {
    /// Halves round away from zero.
    HalfUp,
    /// Halves round towards zero.
    HalfDown,
}

} // verus!
