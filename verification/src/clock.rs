//! The clock, and values cached for a while.

use std::time::Duration;
use std::time::Instant;
use vstd::prelude::*;

verus! {

#[verifier::external_type_specification]
#[verifier::external_body]
pub struct ExInstant(Instant);

/// Calls `std::time::Instant::now`. Nothing is claimed of the instant it
/// returns: it depends on the clock.
#[verifier::external_body]
pub(crate) fn clock_now() -> Instant {
    Instant::now()
}

/// Calls `std::time::Instant::elapsed`. Nothing is claimed of the duration it
/// returns: it depends on the clock.
#[verifier::external_body]
pub(crate) fn elapsed_since(t: &Instant) -> Duration {
    t.elapsed()
}

/// `Duration::as_secs`: the whole seconds of a duration. No value is claimed.
pub assume_specification[ Duration::as_secs ](d: &Duration) -> u64;

/// Seconds for which a slowly read value is reused before it is read again.
pub const CACHE_TTL_SECS: u64 = 10;

/// Whether a value read `elapsed_secs` whole seconds ago is due to be read
/// again: from ten seconds on.
pub fn ttl_expired(elapsed_secs: u64) -> (expired: bool)
    ensures
        expired == (elapsed_secs >= CACHE_TTL_SECS),
{
    elapsed_secs >= CACHE_TTL_SECS
}

/// A value that is slow to read (a temperature, a fan speed), kept with the
/// time it was read.
pub struct TtlCache<T> {
    value: Option<T>,
    updated: Instant,
}

impl<T: Copy> TtlCache<T> {
    /// A cache holding nothing, marked as read at `updated`.
    pub fn new(updated: Instant) -> (c: Self)
        ensures
            c.cached() == None::<T>,
    {
        TtlCache { value: None, updated }
    }

    /// The value last stored.
    pub closed spec fn cached(&self) -> Option<T> {
        self.value
    }

    /// Whether the value is due to be read again: ten seconds or more have
    /// passed since it was read. Nothing is claimed of the answer: it
    /// depends on the clock.
    pub fn is_stale(&self) -> bool {
        let d = elapsed_since(&self.updated);
        ttl_expired(d.as_secs())
    }

    /// Stores a freshly read value, read now.
    pub fn store(&mut self, value: Option<T>)
        ensures
            final(self).cached() == value,
    {
        self.value = value;
        self.updated = clock_now();
    }

    /// The value last stored.
    pub fn get(&self) -> (v: Option<T>)
        ensures
            v == self.cached(),
    {
        self.value
    }
}

} // verus!
