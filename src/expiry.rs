//! When a token stops being valid.

use vstd::prelude::*;

verus! {

/// The lifetime of tokens: an optional time to live, in seconds, and whether
/// each use restarts it (sliding) or it runs from creation (fixed).
#[derive(Debug, Clone, Copy, PartialEq, Eq, Structural)]
pub struct ExpiryPolicy {
    pub ttl: Option<i64>,
    pub refresh: bool,
}

/// Whether a token created at `created_at` and last used at `last_used_at`
/// has expired at `now`.
pub open spec fn expired(policy: ExpiryPolicy, created_at: int, last_used_at: int, now: int) -> bool {
    match policy.ttl {
        None => false,
        Some(ttl) => if policy.refresh {
            now >= last_used_at + ttl
        } else {
            now >= created_at + ttl
        },
    }
}

/// `m` minutes in seconds, held within the range of `i64`.
pub open spec fn minutes_to_seconds(m: i64) -> i64 {
    if m * 60 > i64::MAX {
        i64::MAX
    } else if m * 60 < i64::MIN {
        i64::MIN
    } else {
        (m * 60) as i64
    }
}

impl ExpiryPolicy {
    /// A policy from a time to live in minutes, as the configuration gives it.
    pub fn from_minutes(ttl_minutes: Option<i64>, refresh: bool) -> (r: ExpiryPolicy)
        ensures
            r.refresh == refresh,
            r.ttl == match ttl_minutes {
                None => None,
                Some(m) => Some(minutes_to_seconds(m)),
            },
    {
        let ttl = match ttl_minutes {
            None => None,
            Some(m) => {
                let s: i128 = m as i128 * 60;
                if s > i64::MAX as i128 {
                    Some(i64::MAX)
                } else if s < i64::MIN as i128 {
                    Some(i64::MIN)
                } else {
                    Some(s as i64)
                }
            },
        };
        ExpiryPolicy { ttl, refresh }
    }

    /// Whether a token with these timestamps has expired at `now`.
    pub fn is_expired(&self, created_at: i64, last_used_at: i64, now: i64) -> (r: bool)
        ensures
            r == expired(*self, created_at as int, last_used_at as int, now as int),
    {
        match self.ttl {
            None => false,
            Some(ttl) => {
                let start: i64 = if self.refresh {
                    last_used_at
                } else {
                    created_at
                };
                now as i128 >= start as i128 + ttl as i128
            },
        }
    }
}

/// Without a time to live a token never expires.
pub proof fn lemma_no_ttl_never_expires(
    refresh: bool,
    created_at: int,
    last_used_at: int,
    now: int,
)
    ensures
        !expired(ExpiryPolicy { ttl: None, refresh }, created_at, last_used_at, now),
{
}

/// With a fixed lifetime a token is valid exactly before its creation time
/// plus the time to live, however it was used in between.
pub proof fn lemma_fixed_lifetime(
    ttl: i64,
    created_at: int,
    used_a: int,
    used_b: int,
    now: int,
)
    ensures
        expired(ExpiryPolicy { ttl: Some(ttl), refresh: false }, created_at, used_a, now) == (now
            >= created_at + ttl),
        expired(ExpiryPolicy { ttl: Some(ttl), refresh: false }, created_at, used_a, now)
            == expired(ExpiryPolicy { ttl: Some(ttl), refresh: false }, created_at, used_b, now),
{
}

/// With a sliding lifetime a token is valid exactly before its last use plus
/// the time to live, whenever it was created.
pub proof fn lemma_sliding_lifetime(
    ttl: i64,
    created_a: int,
    created_b: int,
    last_used_at: int,
    now: int,
)
    ensures
        expired(ExpiryPolicy { ttl: Some(ttl), refresh: true }, created_a, last_used_at, now) == (
        now >= last_used_at + ttl),
        expired(ExpiryPolicy { ttl: Some(ttl), refresh: true }, created_a, last_used_at, now)
            == expired(ExpiryPolicy { ttl: Some(ttl), refresh: true }, created_b, last_used_at, now),
{
}

} // verus!
