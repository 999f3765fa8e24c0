//! Trusted declarations for the standard library's monotonic clock, which
//! vstd does not specify. The buffer stores an `Instant` only to answer how
//! long ago the last write happened; no contract depends on the clock value.

use vstd::prelude::*;

verus! {

/// `std::time::Instant` is opaque to the verifier: a reading of the
/// monotonic clock, carried through but never inspected by verified code.
#[verifier::external_type_specification]
#[verifier::external_body]
pub struct ExInstant(std::time::Instant);

/// Relies on `std::time::Instant::now`: a reading of the monotonic clock.
/// Nothing can be promised of the value, which depends on when it is taken.
pub assume_specification[ std::time::Instant::now ]() -> (r: std::time::Instant);

/// Relies on `std::time::Instant::duration_since`: the time elapsed from
/// `earlier` to `instant`, or zero if `earlier` is the later of the two; the
/// standard library documents that it never panics. Nothing more can be said
/// of two opaque clock readings.
pub assume_specification[ std::time::Instant::duration_since ](
    instant: &std::time::Instant,
    earlier: std::time::Instant,
) -> (r: std::time::Duration);

} // verus!
