//! Restart decisions for MCP servers that went down.
//!
//! A down server is watched and restarted with exponential backoff: 5 s,
//! doubling per failed attempt up to 300 s, with no limit on attempts. The
//! clock and the restarts themselves are the caller's; here times are
//! seconds on a monotonic clock.

use vstd::prelude::*;

verus! {

/// Backoff before the first retry.
pub const BASE_BACKOFF_SECS: u64 = 5;

/// Longest backoff.
pub const MAX_BACKOFF_SECS: u64 = 300;

/// Every this many failed attempts a louder warning is due.
pub const WARN_EVERY_N: u32 = 5;

/// Two to the power `e`.
pub open spec fn doubled(e: nat) -> nat
    decreases e,
{
    if e == 0 {
        1
    } else {
        2 * doubled((e - 1) as nat)
    }
}

/// The wait after `count` failed attempts, in seconds:
/// `min(5 * 2^min(count, 6), 300)`.
pub open spec fn backoff_spec(count: u32) -> u64 {
    let e: nat = if count < 6 {
        count as nat
    } else {
        6
    };
    let b = 5 * doubled(e);
    if b < 300 {
        b as u64
    } else {
        300
    }
}

/// The wait before the next restart after `count` failed attempts.
pub fn restart_backoff_secs(count: u32) -> (r: u64)
    ensures
        r == backoff_spec(count),
{
    let e: u32 = if count < 6 {
        count
    } else {
        6
    };
    let mut p: u64 = 1;
    let mut i: u32 = 0;
    proof {
        reveal_with_fuel(doubled, 7);
        assert(doubled(5) == 32 && doubled(6) == 64);
    }
    while i < e
        invariant
            e <= 6,
            i <= e,
            p == doubled(i as nat),
            p <= 64,
            i < 6 ==> p <= 32,
            doubled(5) == 32,
            doubled(6) == 64,
        decreases e - i,
    {
        proof {
            reveal_with_fuel(doubled, 7);
        }
        p = p * 2;
        i = i + 1;
    }
    let b = BASE_BACKOFF_SECS * p;
    if b < MAX_BACKOFF_SECS {
        b
    } else {
        MAX_BACKOFF_SECS
    }
}

/// A server that is being restarted: failed attempts so far and when the
/// last attempt was made, if one was.
#[derive(Debug, Clone, Copy, PartialEq, Eq, Structural)]
pub struct RestartState {
    pub count: u32,
    pub last_attempt: Option<u64>,
}

impl RestartState {
    /// Start tracking a server found down; the first attempt is due at once.
    pub fn start() -> (r: RestartState)
        ensures
            r.count == 0,
            r.last_attempt is None,
    {
        RestartState { count: 0, last_attempt: None }
    }

    /// Whether the next restart attempt is due at `now`: none was made yet,
    /// or the backoff for the failures so far has passed since the last one.
    pub fn retry_due(&self, now: u64) -> (r: bool)
        ensures
            r == match self.last_attempt {
                None => true,
                Some(t) => now >= t && now - t >= backoff_spec(self.count),
            },
    {
        match self.last_attempt {
            None => true,
            Some(t) => now >= t && now - t >= restart_backoff_secs(self.count),
        }
    }

    /// The state after an attempt at `now` failed; the count stops at
    /// `u32::MAX`.
    pub fn failed(&self, now: u64) -> (r: RestartState)
        ensures
            r.count == (if self.count < u32::MAX {
                self.count + 1
            } else {
                self.count as int
            }),
            r.last_attempt == Some(now),
    {
        RestartState {
            count: if self.count < u32::MAX {
                self.count + 1
            } else {
                self.count
            },
            last_attempt: Some(now),
        }
    }

/// Whether this many failures calls for the louder warning.
    pub fn warn_loudly(&self) -> (r: bool)
        ensures
            r == (self.count % WARN_EVERY_N == 0),
    {
        self.count % WARN_EVERY_N == 0
    }
}

/// Whether a server should start being watched for restart: down, enabled,
/// not waiting for an authorisation, and not watched yet.
pub fn should_track(is_down: bool, enabled: bool, awaiting_auth: bool, watched: bool) -> (r: bool)
    ensures
        r == (is_down && enabled && !awaiting_auth && !watched),
{
    is_down && enabled && !awaiting_auth && !watched
}

/// Whether tracking should stop: the server is up again, or waits for an
/// authorisation.
pub fn should_untrack(is_down: bool, awaiting_auth: bool) -> (r: bool)
    ensures
        r == (!is_down || awaiting_auth),
{
    !is_down || awaiting_auth
}

} // verus!
