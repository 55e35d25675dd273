//! Random numbers for identifiers that should differ from run to run.
use vstd::prelude::*;

verus! {

/// Calls `rand::random::<u16>()`, a number drawn from the thread-local
/// generator; nothing is claimed of which number comes back.
#[verifier::external_body]
pub(crate) fn random_u16() -> u16 {
    rand::random::<u16>()
}

} // verus!
