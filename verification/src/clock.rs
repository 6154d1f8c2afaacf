//! The wall clock, as far as the engine needs it.

use vstd::prelude::*;

verus! {

/// The current time in UTC as an RFC 3339 string, such as
/// `2024-05-01T12:30:00.123456789+00:00`.
///
/// Trusted: the body calls `chrono::Utc::now()` and formats what it returns
/// with `chrono::DateTime::to_rfc3339`.  Nothing is claimed of the string:
/// it depends on the clock of the machine.  `Utc::now()` panics where that
/// clock stands before 1970.
#[verifier::external_body]
pub(crate) fn utc_now_rfc3339() -> (stamp: String) {
    chrono::Utc::now().to_rfc3339()
}

} // verus!
