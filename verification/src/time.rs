//! Instants and durations, counted in nanoseconds.

use vstd::prelude::*;

verus! {

/// Nanoseconds in one second.
pub const NANOS_PER_SEC: u64 = 1_000_000_000;

/// An instant on the UTC time line: nanoseconds since the Unix epoch,
/// negative before it. Every value is a valid instant.
#[derive(Clone, Copy, Debug, PartialEq, Eq, Structural)]
pub struct Timestamp {
    pub nanos: i128,
}

/// A time-to-live: a non-negative span of nanoseconds.
#[derive(Clone, Copy, Debug, PartialEq, Eq, Structural)]
pub struct Ttl {
    pub nanos: u64,
}

impl View for Timestamp {
    type V = int;

    open spec fn view(&self) -> int {
        self.nanos as int
    }
}

impl View for Ttl {
    type V = int;

    open spec fn view(&self) -> int {
        self.nanos as int
    }
}

impl Ttl {
    /// The span of `nanos` nanoseconds.
    pub fn from_nanos(nanos: u64) -> (ttl: Ttl)
        ensures
            ttl@ == nanos,
    {
        Ttl { nanos }
    }

    /// The span of `secs` whole seconds.
    pub fn from_secs(secs: u32) -> (ttl: Ttl)
        ensures
            ttl@ == secs * NANOS_PER_SEC,
    {
        let secs64: u64 = secs as u64;
        Ttl { nanos: secs64 * NANOS_PER_SEC }
    }

    /// The span of `minutes` whole minutes.
    pub fn from_minutes(minutes: u16) -> (ttl: Ttl)
        ensures
            ttl@ == minutes * 60 * NANOS_PER_SEC,
    {
        let minutes64: u64 = minutes as u64;
        Ttl { nanos: minutes64 * 60_000_000_000 }
    }
}

impl Ttl {
    /// The time-to-live of a session token kept in a carrier: one minute.
    pub fn session_default() -> (ttl: Ttl)
        ensures
            ttl@ == 60 * NANOS_PER_SEC,
    {
        Ttl { nanos: 60_000_000_000 }
    }

    /// The time-to-live of a signed token: fifteen minutes.
    pub fn signed_default() -> (ttl: Ttl)
        ensures
            ttl@ == 15 * 60 * NANOS_PER_SEC,
    {
        Ttl { nanos: 900_000_000_000 }
    }
}

impl Timestamp {
    /// The instant `nanos` nanoseconds after the epoch.
    pub fn from_nanos(nanos: i128) -> (t: Timestamp)
        ensures
            t@ == nanos,
    {
        Timestamp { nanos }
    }

    /// The instant `secs` seconds and `subsec_nanos` nanoseconds after the
    /// epoch.
    pub fn from_secs_nanos(secs: i64, subsec_nanos: u32) -> (t: Timestamp)
        ensures
            t@ == secs * NANOS_PER_SEC + subsec_nanos,
    {
        let secs128: i128 = secs as i128;
        let sub128: i128 = subsec_nanos as i128;
        Timestamp { nanos: secs128 * 1_000_000_000 + sub128 }
    }

    /// Whether `self + ttl` is still an instant this type can hold.
    pub open spec fn spec_can_add(self, ttl: Ttl) -> bool {
        self@ + ttl@ <= i128::MAX
    }

    /// The instant `ttl` after `self`, or `None` where that is beyond the
    /// range of this type.
    pub fn checked_add(self, ttl: Ttl) -> (sum: Option<Timestamp>)
        ensures
            self.spec_can_add(ttl) ==> sum is Some && sum->0@ == self@ + ttl@,
            !self.spec_can_add(ttl) ==> sum is None,
    {
        let span: i128 = ttl.nanos as i128;
        if self.nanos <= i128::MAX - span {
            Some(Timestamp { nanos: self.nanos + span })
        } else {
            None
        }
    }

    /// The instant `ttl` after `self`.
    pub fn plus(self, ttl: Ttl) -> (sum: Timestamp)
        requires
            self.spec_can_add(ttl),
        ensures
            sum@ == self@ + ttl@,
    {
        let span: i128 = ttl.nanos as i128;
        Timestamp { nanos: self.nanos + span }
    }

    /// Whether a token expiring at `self` counts as expired at `now`: the
    /// expiry instant itself is already too late.
    pub open spec fn spec_expired_at(self, now: Timestamp) -> bool {
        self@ <= now@
    }

    /// Whether a token expiring at `self` counts as expired at `now`.
    pub fn expired_at(self, now: Timestamp) -> (expired: bool)
        ensures
            expired == self.spec_expired_at(now),
    {
        self.nanos <= now.nanos
    }
}

} // verus!
