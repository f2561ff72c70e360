//! The source of chance.

use vstd::prelude::*;

verus! {

/// `rand::random::<u32>`: a value from the thread-local generator. Nothing is
/// known of it but its type.
#[verifier::external_body]
pub(crate) fn random_sample() -> u32 {
    rand::random::<u32>()
}

} // verus!
