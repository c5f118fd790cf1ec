//! Where the grid gets its random draws.

use vstd::prelude::*;

verus! {

/// A boolean drawn by `rand::random`. The draw comes from the thread's
/// generator, so nothing is promised of the value.
#[verifier::external_body]
pub(crate) fn random_bool() -> (drawn: bool) {
    rand::random()
}

} // verus!
