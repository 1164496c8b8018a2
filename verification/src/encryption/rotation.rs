//! When a key has to be replaced.
//!
//! Every key is minted with an expiry, and rotating is nothing more than that
//! expiry arriving. Membership changes do not decide to rotate; they bring the
//! expiry forward:
//!
//! | event | effect on the expiry |
//! |---|---|
//! | minted | `creation + lifetime` |
//! | a participation holding the key ended | `min(expiry, creation + freshness)` |
//! | a member arrives and the key is no longer fresh | `now` |
//! | a member arrives and the key is still fresh | none: they are sent the key |

use vstd::prelude::*;
use crate::encryption::types::EncryptionConfig;

verus! {

/// `time` moved `delay` into the future, or the end of time.
pub open spec fn later(time: u64, delay: u64) -> u64 {
    if time + delay > u64::MAX {
        u64::MAX
    } else {
        (time + delay) as u64
    }
}

/// How long before `now` the instant `time` lies; nothing if it does not.
pub open spec fn age(time: u64, now: u64) -> u64 {
    if now > time {
        (now - time) as u64
    } else {
        0
    }
}

/// The greater of two numbers.
pub open spec fn greater(a: u64, b: u64) -> u64 {
    if a < b {
        b
    } else {
        a
    }
}

/// The lesser of two numbers.
pub open spec fn lesser(a: u64, b: u64) -> u64 {
    if b < a {
        b
    } else {
        a
    }
}

impl EncryptionConfig {
    /// How long a key counts as fresh. A key that has not come into use yet is
    /// certainly fresh, so the propagation delay is a floor.
    pub open spec fn freshness(self) -> u64 {
        greater(self.key_rotation_grace_period_ms, self.delay_before_use_ms)
    }

    /// How long a key may be used at most.
    pub open spec fn lifetime(self) -> u64 {
        greater(self.max_key_lifetime_ms, self.freshness())
    }

    /// Whether a key minted at `creation_ts` is fresh at `now`.
    pub open spec fn is_fresh(self, creation_ts: u64, now: u64) -> bool {
        age(creation_ts, now) < self.freshness()
    }

    /// When a key minted at `creation_ts` must be gone, given whether a
    /// participation that holds it has ended and whether one that does not has
    /// begun.
    pub open spec fn expiry(self, creation_ts: u64, now: u64, departed: bool, arrived: bool) -> u64 {
        let cap = later(creation_ts, self.lifetime());
        if departed {
            lesser(cap, later(creation_ts, self.freshness()))
        } else if arrived && !self.is_fresh(creation_ts, now) {
            now
        } else {
            cap
        }
    }

    /// How long a key counts as fresh.
    pub fn freshness_ms(&self) -> (ms: u64)
        ensures
            ms == self.freshness(),
    {
        if self.key_rotation_grace_period_ms < self.delay_before_use_ms {
            self.delay_before_use_ms
        } else {
            self.key_rotation_grace_period_ms
        }
    }

    /// How long a key may be used at most.
    pub fn lifetime_ms(&self) -> (ms: u64)
        ensures
            ms == self.lifetime(),
    {
        let freshness: u64 = self.freshness_ms();
        if self.max_key_lifetime_ms < freshness {
            freshness
        } else {
            self.max_key_lifetime_ms
        }
    }

    /// When a key minted at `creation_ts` must be gone, given whether a
    /// participation that holds it has ended and whether one that does not has
    /// begun.
    pub fn expires_at(&self, creation_ts: u64, now: u64, departed: bool, arrived: bool) -> (at: u64)
        ensures
            at == self.expiry(creation_ts, now, departed, arrived),
    {
        let freshness: u64 = self.freshness_ms();
        let cap: u64 = creation_ts.saturating_add(self.lifetime_ms());
        if departed {
            let end: u64 = creation_ts.saturating_add(freshness);
            if end < cap {
                end
            } else {
                cap
            }
        } else if arrived && now.saturating_sub(creation_ts) >= freshness {
            now
        } else {
            cap
        }
    }
}

/// A departure always retires the key by the end of its freshness window, and
/// never later than it would have gone anyway.
pub proof fn law_departure_bounds_exposure(
    config: EncryptionConfig,
    creation_ts: u64,
    now: u64,
    arrived: bool,
)
    ensures
        config.expiry(creation_ts, now, true, arrived) <= later(creation_ts, config.freshness()),
        config.expiry(creation_ts, now, true, arrived) <= config.expiry(
            creation_ts,
            now,
            false,
            false,
        ),
{
}

/// Once a departure is owed, recomputing the expiry at any later time gives the
/// same instant: later changes are coalesced into it and none pushes it back.
pub proof fn law_departure_deadline_is_stable(
    config: EncryptionConfig,
    creation_ts: u64,
    now: u64,
    then: u64,
    arrived: bool,
    arrived_then: bool,
)
    ensures
        config.expiry(creation_ts, now, true, arrived) == config.expiry(
            creation_ts,
            then,
            true,
            arrived_then,
        ),
{
}

/// A departure is deferred while the key is fresh and answered at once when it is
/// not. Instants that no clock reaches are left out.
pub proof fn law_departure_defers_exactly_while_fresh(
    config: EncryptionConfig,
    creation_ts: u64,
    now: u64,
    arrived: bool,
)
    requires
        creation_ts <= now,
        creation_ts + config.freshness() <= u64::MAX,
    ensures
        now >= config.expiry(creation_ts, now, true, arrived) <==> !config.is_fresh(
            creation_ts,
            now,
        ),
{
}

/// An arrival while the key is fresh changes nothing about when the key expires,
/// so it never leaves a rotation owed.
pub proof fn law_fresh_arrival_owes_nothing(config: EncryptionConfig, creation_ts: u64, now: u64)
    requires
        config.is_fresh(creation_ts, now),
    ensures
        config.expiry(creation_ts, now, false, true) == config.expiry(
            creation_ts,
            now,
            false,
            false,
        ),
{
}

/// An arrival once the key has settled is answered by a rotation at once.
pub proof fn law_settled_arrival_rotates(config: EncryptionConfig, creation_ts: u64, now: u64)
    requires
        !config.is_fresh(creation_ts, now),
    ensures
        now >= config.expiry(creation_ts, now, false, true),
{
}

/// No membership change ever makes a key outlive its lifetime: once the lifetime
/// is over, the key rotates whatever else is going on.
pub proof fn law_lifetime_is_a_cap(
    config: EncryptionConfig,
    creation_ts: u64,
    now: u64,
    departed: bool,
    arrived: bool,
)
    requires
        now >= later(creation_ts, config.lifetime()),
    ensures
        now >= config.expiry(creation_ts, now, departed, arrived),
{
}

/// A grace period shorter than the propagation delay has no effect, and a maximum
/// lifetime shorter than the freshness window is raised to it.
pub proof fn law_floors(config: EncryptionConfig)
    ensures
        config.freshness() >= config.delay_before_use_ms,
        config.key_rotation_grace_period_ms <= config.delay_before_use_ms ==> config.freshness()
            == config.delay_before_use_ms,
        config.lifetime() >= config.freshness(),
{
}

} // verus!
