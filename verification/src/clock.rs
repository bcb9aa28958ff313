//! Saturating elapsed-time arithmetic over millisecond timestamps.
//!
//! Every time-dependent operation in this crate receives the current
//! time as a `u64` millisecond count supplied by the caller.  Elapsed
//! time is computed saturating at zero, mirroring the behaviour of
//! monotonic-clock subtraction.

use vstd::prelude::*;

verus! {

/// Milliseconds elapsed from `then` to `now`, clamped to zero when the
/// clock appears to have gone backwards.
pub open spec fn time_since(now: u64, then: u64) -> nat {
    if now >= then {
        (now - then) as nat
    } else {
        0
    }
}

/// Executable counterpart of [`time_since`].
pub fn elapsed_ms(now: u64, then: u64) -> (r: u64)
    ensures
        r == time_since(now, then),
{
    if now >= then {
        now - then
    } else {
        0
    }
}

} // verus!
