//! The stored value wrapper and its optional expiration clock.
//!
//! A clock records the monotonic instant an entry was stored and an
//! expiration threshold in whole seconds; the entry is expired when the
//! elapsed whole seconds strictly exceed the threshold. Expiry is checked
//! lazily, at reads and removals; there is no background sweep. What the
//! machine clock returns cannot be pinned down, so `expired` promises only
//! that an entry without a clock never expires; callers handle both
//! outcomes.

use vstd::prelude::*;
use std::time::{Duration, Instant};
use crate::bytesized::ByteSized;

verus! {

#[verifier::external_type_specification]
#[verifier::external_body]
pub struct ExInstant(Instant);

/// Relies on `std::time::Instant::now`: an opaque reading of the monotonic
/// clock.
#[verifier::external_body]
fn instant_now() -> Instant {
    Instant::now()
}

/// Relies on `std::time::Instant::elapsed`: the time since this instant was
/// taken.
#[verifier::external_body]
fn instant_elapsed(start: &Instant) -> Duration {
    start.elapsed()
}

/// Relies on `std::time::Duration::as_secs`: the whole seconds of the
/// duration, fractional part discarded.
#[verifier::external_body]
fn duration_as_secs(d: &Duration) -> u64 {
    d.as_secs()
}

/// Whether a clock that has seen `passed` whole seconds against this
/// threshold counts as expired: strictly more seconds must have passed.
pub open spec fn spec_is_expired(passed: u64, threshold: u32) -> bool {
    passed > threshold
}

/// A started expiration clock: when it was started, and how many whole
/// seconds the entry lives.
#[derive(Debug, Clone, Copy)]
pub struct Clock {
    start: Instant,
    expiration: u32,
}

impl Clock {
    pub closed spec fn spec_expiration(&self) -> u32 {
        self.expiration
    }

    /// Start timing now.
    fn start_timing(expiration: u32) -> (r: Self)
        requires
            expiration > 0,
        ensures
            r.spec_expiration() == expiration,
    {
        Clock { start: instant_now(), expiration }
    }

    /// The whole seconds since this clock started, as the machine clock
    /// reports them. The reading itself cannot be promised.
    fn elapsed_secs(&self) -> u64 {
        duration_as_secs(&instant_elapsed(&self.start))
    }

    /// The expiry verdict for a given reading: strictly more whole seconds
    /// than the threshold must have passed.
    fn expired_at(&self, passed: u64) -> (r: bool)
        ensures
            r == spec_is_expired(passed, self.spec_expiration()),
    {
        passed > self.expiration as u64
    }

    /// Whether the threshold has passed: the machine clock supplies the
    /// reading, `expired_at` the verdict on it.
    fn expired(&self) -> bool {
        let passed = self.elapsed_secs();
        self.expired_at(passed)
    }
}

/// A stored cache value: the bytes, and an optional expiration clock. No
/// clock means the entry never expires.
#[derive(Debug)]
pub struct Value {
    inner: Vec<u8>,
    clock: Option<Clock>,
}

impl Value {
    pub closed spec fn spec_bytes(&self) -> Seq<u8> {
        self.inner@
    }

    pub closed spec fn spec_expiration(&self) -> Option<u32> {
        match self.clock {
            Some(c) => Some(c.spec_expiration()),
            None => None,
        }
    }

    /// A value that never expires.
    pub fn new(inner: Vec<u8>) -> (r: Self)
        ensures
            r.spec_bytes() == inner@,
            r.spec_expiration() is None,
            r.spec_bytesize() == inner@.len(),
    {
        Value { inner, clock: None }
    }

    /// A value whose expiration clock starts now.
    pub fn with_expiration(inner: Vec<u8>, expiration: u32) -> (r: Self)
        requires
            expiration > 0,
        ensures
            r.spec_bytes() == inner@,
            r.spec_expiration() == Some(expiration),
            r.spec_bytesize() == inner@.len(),
    {
        let clock = Some(Clock::start_timing(expiration));
        Value { inner, clock }
    }

    /// The expiry verdict this entry gives for a reading of `passed`
    /// elapsed whole seconds: an entry without a clock never expires, one
    /// with a clock expires exactly when strictly more whole seconds than
    /// its threshold have passed (a reading equal to the threshold is not
    /// yet expired).
    pub fn expired_at(&self, passed: u64) -> (r: bool)
        ensures
            self.spec_expiration() is None ==> r == false,
            self.spec_expiration() matches Some(t) ==> r == spec_is_expired(passed, t),
    {
        match &self.clock {
            Some(c) => c.expired_at(passed),
            None => false,
        }
    }

    /// Whether the entry has outlived its expiration threshold. An entry
    /// without a clock never expires, so a true verdict proves a clock is
    /// present; for a clocked entry the machine clock supplies the reading
    /// and `expired_at` the verdict, so callers handle both outcomes.
    pub fn expired(&self) -> (r: bool)
        ensures
            self.spec_expiration() is None ==> r == false,
            r ==> self.spec_expiration() is Some,
    {
        match &self.clock {
            Some(c) => {
                let passed = c.elapsed_secs();
                self.expired_at(passed)
            },
            None => false,
        }
    }

    /// The stored bytes, clock dropped.
    pub fn into_vec(self) -> (r: Vec<u8>)
        ensures
            r@ == self.spec_bytes(),
    {
        self.inner
    }

    /// An owned copy with the same bytes and the same clock.
    pub fn duplicate(&self) -> (r: Self)
        ensures
            r.spec_bytes() == self.spec_bytes(),
            r.spec_expiration() == self.spec_expiration(),
            r.spec_bytesize() == self.spec_bytesize(),
    {
        let mut inner: Vec<u8> = Vec::new();
        inner.extend_from_slice(self.inner.as_slice());
        proof {
            assert(inner@ =~= self.inner@);
        }
        let clock = match &self.clock {
            Some(c) => Some(*c),
            None => None,
        };
        Value { inner, clock }
    }
}

impl ByteSized for Value {
    closed spec fn spec_bytesize(&self) -> nat {
        self.inner@.len()
    }

    fn bytesize(&self) -> (r: usize)
        ensures
            r == self.spec_bytesize(),
    {
        self.inner.len()
    }
}

} // verus!
