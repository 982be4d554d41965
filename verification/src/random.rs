//! Random alphanumeric strings: temporary passwords, refresh tokens, and
//! the ephemeral signing secret all come from this single source.

use vstd::prelude::*;

verus! {

/// Whether `c` lies in the ASCII alphanumeric alphabet: `0`-`9` (codes 48
/// to 57), `A`-`Z` (65 to 90) or `a`-`z` (97 to 122).
pub open spec fn is_ascii_alphanumeric(c: char) -> bool {
    let v = c as u32;
    (48 <= v <= 57) || (65 <= v <= 90) || (97 <= v <= 122)
}

/// Draw a fresh random alphanumeric string of the given length.
///
/// Relies on the `rand::distr::SampleString` impl for
/// `rand::distr::Alphanumeric`: it appends exactly `len` random characters
/// drawn from the ASCII alphanumeric alphabet to an empty string.  The
/// result is random, so nothing beyond its length and character class can
/// be promised.
#[verifier::external_body]
pub(crate) fn sample_alphanumeric(len: usize) -> (r: String)
    ensures
        r@.len() == len as nat,
        forall|i: int| 0 <= i < r@.len() ==> is_ascii_alphanumeric(#[trigger] r@[i]),
{
    rand::distr::SampleString::sample_string(&rand::distr::Alphanumeric, &mut rand::rng(), len)
}

} // verus!
