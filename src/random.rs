//! Random text for secrets and salts.

use rand::Rng;
use vstd::prelude::*;

verus! {

pub open spec fn is_alphanumeric(c: char) -> bool {
    ('A' <= c && c <= 'Z') || ('a' <= c && c <= 'z') || ('0' <= c && c <= '9')
}

/// `len` characters drawn uniformly from the 62 ASCII letters and digits.
/// Relies on rand's `thread_rng` sampling `Alphanumeric`, which yields one
/// byte of that alphabet per draw.
#[verifier::external_body]
pub(crate) fn random_alphanumeric(len: usize) -> (r: String)
    ensures
        r@.len() == len,
        forall|i: int| 0 <= i < len ==> is_alphanumeric(#[trigger] r@[i]),
{
    rand::thread_rng().sample_iter(&rand::distributions::Alphanumeric).take(len).map(
        char::from,
    ).collect()
}

} // verus!
