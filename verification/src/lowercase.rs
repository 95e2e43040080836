//! Lowercasing, as the standard library does it.

use vstd::prelude::*;

verus! {

/// What `str::to_lowercase` returns for the text `s`. It follows the Unicode
/// lowercase mappings, which are not restated here: the contracts of this crate
/// speak of the result by this name.
pub uninterp spec fn std_lowercase(s: Seq<char>) -> Seq<char>;

/// The lowercase form of `s`. The empty text is its own lowercase form.
pub open spec fn lowercase(s: Seq<char>) -> Seq<char> {
    if s.len() == 0 {
        s
    } else {
        std_lowercase(s)
    }
}

/// Calls `str::to_lowercase`. Not proved: that the call returns, for equal
/// texts, equal results, which `std_lowercase` names. Nothing else is claimed.
#[verifier::external_body]
fn std_to_lowercase(s: &str) -> (lower: String)
    ensures
        lower@ == std_lowercase(s@),
{
    s.to_lowercase()
}

/// The lowercase form of `s`.
pub fn to_lowercase(s: &str) -> (lower: String)
    ensures
        lower@ == lowercase(s@),
{
    if s.is_empty() {
        String::new()
    } else {
        std_to_lowercase(s)
    }
}

} // verus!
