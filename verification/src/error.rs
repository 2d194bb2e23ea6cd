//! The single failure value of GUID parsing.

use vstd::prelude::*;

verus! {

/// Marker returned when a text does not have the canonical GUID form
/// `xxxxxxxx-xxxx-xxxx-xxxx-xxxxxxxxxxxx`.
///
/// The value carries no detail: a wrong length, a misplaced separator and
/// a non-hexadecimal digit all produce the same error.
#[derive(Clone, Copy, Debug, Default, Eq, PartialEq, Hash, Ord, PartialOrd)]
pub struct GuidFromStrError;

impl GuidFromStrError {
    /// The fixed human-readable rendering of the error.
    pub open spec fn spec_message() -> Seq<char> {
        "GUID hex string does not match expected format \"xxxxxxxx-xxxx-xxxx-xxxx-xxxxxxxxxxxx\""@
    }

    /// Returns the fixed message describing the error.
    pub fn message(&self) -> (text: &'static str)
        ensures
            text@ == Self::spec_message(),
    {
        "GUID hex string does not match expected format \"xxxxxxxx-xxxx-xxxx-xxxx-xxxxxxxxxxxx\""
    }
}

} // verus!
