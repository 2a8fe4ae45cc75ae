//! Wall-clock access for session timestamps.

use vstd::prelude::*;

verus! {

/// Relies on chrono's `Utc::now` for the current wall-clock time, as
/// seconds since the Unix epoch; nothing is assumed of the value.
#[verifier::external_body]
pub(crate) fn now_timestamp() -> i64 {
    chrono::Utc::now().timestamp()
}

} // verus!
