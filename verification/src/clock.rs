//! The injectable time source: a caller-supplied function returning the
//! current tick (by default, milliseconds since the Unix epoch).
//!
//! Verus does not support function pointer types, so the supplied function is
//! kept inside the opaque [`Clock`] holder and invoked through a trusted call.
//! Nothing is assumed about the values a clock returns: every caller of
//! [`Clock::read`] must state what holds of its own result for an arbitrary
//! reading.

use vstd::prelude::*;

verus! {

/// Holder for a caller-supplied clock function.
///
/// The function itself is opaque to the verifier; a reading obtained through
/// [`Clock::read`] is an arbitrary `u64`.
#[verifier::external_body]
pub struct Clock {
    f: std::sync::Arc<dyn Fn() -> u64 + Send + Sync>,
}

impl Clone for Clock {
    /// Relies on `Arc::clone`: the copy invokes the same underlying function.
    /// No contract is stated; readings of a clock carry no guarantees anyway.
    #[verifier::external_body]
    fn clone(&self) -> Self {
        Clock { f: self.f.clone() }
    }
}

impl Clock {
    /// Wraps a caller-supplied function. Relies on `Arc::new` to store it;
    /// the function is only ever invoked again through [`Clock::read`].
    #[verifier::external_body]
    pub fn from_fn<F: Fn() -> u64 + Send + Sync + 'static>(f: F) -> Clock {
        Clock { f: std::sync::Arc::new(f) }
    }

    /// Invokes the held clock function. The result is an arbitrary `u64`:
    /// the supplied function decides it, so nothing is ensured here.
    #[verifier::external_body]
    pub fn read(&self) -> u64 {
        (self.f)()
    }
}

/// Declares `std::time::SystemTime` so that it can pass between the trusted
/// calls below; the verifier treats a value of it as opaque.
#[verifier::external_type_specification]
#[verifier::external_body]
pub struct ExSystemTime(std::time::SystemTime);

/// Relies on `std::time::SystemTime::now`: the wall clock's current reading.
/// Nothing can be promised of it.
#[verifier::external_body]
fn system_time_now() -> std::time::SystemTime {
    std::time::SystemTime::now()
}

/// Relies on `std::time::SystemTime::duration_since`: the span from the Unix
/// epoch to `t`, or zero when `t` lies before the epoch (the error arm).
#[verifier::external_body]
fn duration_since_unix_epoch(t: &std::time::SystemTime) -> core::time::Duration {
    t.duration_since(std::time::UNIX_EPOCH).unwrap_or(core::time::Duration::ZERO)
}

/// Relies on `core::time::Duration::as_secs`: the whole seconds of the span.
#[verifier::external_body]
fn duration_as_secs(d: &core::time::Duration) -> u64 {
    d.as_secs()
}

/// Relies on `core::time::Duration::subsec_nanos`: the fractional part of the
/// span in nanoseconds, documented to be below one billion.
#[verifier::external_body]
fn duration_subsec_nanos(d: &core::time::Duration) -> (r: u32)
    ensures
        r < 1_000_000_000,
{
    d.subsec_nanos()
}

/// The default clock: current milliseconds since the Unix epoch, saturating at
/// `u64::MAX` (unreachable for any realistic wall-clock reading).
pub(crate) fn default_time_fn() -> u64 {
    let now = system_time_now();
    let span = duration_since_unix_epoch(&now);
    let secs = duration_as_secs(&span);
    let nanos = duration_subsec_nanos(&span);
    let sub_millis = (nanos / 1_000_000) as u64;
    if secs <= (u64::MAX - 999) / 1000 {
        secs * 1000 + sub_millis
    } else {
        u64::MAX
    }
}

impl Clock {
    /// The default clock, reading milliseconds since the Unix epoch.
    pub fn system() -> Clock {
        Clock::from_fn(default_time_fn)
    }
}

} // verus!
