//! Reading the system clock.

use vstd::prelude::*;

verus! {

/// The system clock's reading.
#[verifier::external_type_specification]
#[verifier::external_body]
pub struct ExSystemTime(std::time::SystemTime);

/// The current time.
///
/// Trusted: wraps `SystemTime::now`; nothing is claimed of the value, which
/// depends on the clock.
#[verifier::external_body]
pub(crate) fn system_now() -> std::time::SystemTime {
    std::time::SystemTime::now()
}

/// The time elapsed from the Unix epoch to `t`, when `t` is not before it.
///
/// Trusted: wraps `SystemTime::duration_since(UNIX_EPOCH)`; nothing is
/// claimed of the value, which comes from the clock.
#[verifier::external_body]
pub(crate) fn since_epoch(t: &std::time::SystemTime) -> Option<std::time::Duration> {
    t.duration_since(std::time::UNIX_EPOCH).ok()
}

/// Whole seconds of a duration.
///
/// Trusted: wraps `Duration::as_secs`; nothing is claimed of the value,
/// which comes from a measured time.
#[verifier::external_body]
pub(crate) fn duration_secs(d: &std::time::Duration) -> u64 {
    d.as_secs()
}

/// Whole seconds since the Unix epoch (0 for a clock set before it).
///
/// The value comes from the clock: nothing is claimed of it.
pub fn epoch_seconds() -> u64 {
    let now = system_now();
    match since_epoch(&now) {
        Some(d) => duration_secs(&d),
        None => 0,
    }
}

} // verus!
