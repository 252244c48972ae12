//! The current time.

use vstd::prelude::*;

verus! {

/// The current time in whole seconds since the Unix epoch.
/// Relies on chrono's `Utc::now` and `DateTime::timestamp`; nothing is
/// promised of the value.
#[verifier::external_body]
pub(crate) fn now_seconds() -> (r: i64) {
    chrono::Utc::now().timestamp()
}

} // verus!
