//! The clock.

use vstd::prelude::*;

verus! {

/// The seconds since the beginning of 1970, from `SystemTime::now`; none where the
/// clock stands before that. The time is left open, so nothing is stated of it.
#[verifier::external_body]
pub(crate) fn epoch_seconds() -> (seconds: u64)
{
    std::time::SystemTime::now().duration_since(std::time::UNIX_EPOCH).unwrap_or_default().as_secs()
}

} // verus!
