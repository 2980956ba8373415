//! Per-connection liveness supervision.  The supervisor works purely in
//! terms of time handed in by the caller: every probe interval it decides
//! whether to send a probe, or to declare the peer dead because no liveness
//! signal arrived within the timeout window.

use vstd::prelude::*;

verus! {

/// Liveness bookkeeping embedded in a connection.  All timestamps are in
/// milliseconds on a single monotonic clock chosen by the caller.
pub struct Heartbeat {
    /// When the most recent liveness signal (a pong or equivalent) arrived;
    /// initially the accept time.
    pub last_seen: u64,
    /// When the connection was accepted.
    pub started_at: u64,
    /// How many liveness signals have been observed in total.
    pub liveness_count: u64,
    /// Milliseconds between probes.
    pub interval_ms: u64,
    /// Milliseconds of silence after which the peer counts as dead.
    pub timeout_ms: u64,
}

/// What a supervisor tick decides.
#[derive(Clone, Copy, PartialEq, Eq, Structural, Debug)]
pub enum HeartbeatVerdict {
    /// Send a probe; the peer is within its window.
    Probe,
    /// No liveness signal for longer than the timeout: the peer is dead.
    Expired,
    /// Still unauthenticated after one full timeout window with zero
    /// liveness signals: the peer never completed its handshake.
    ExpiredNoAuth,
}

/// The timeout threshold must exceed the probe interval, else every probe
/// window may appear as a timeout.
pub open spec fn hb_wf(h: Heartbeat) -> bool {
    0 < h.interval_ms < h.timeout_ms
}

/// Liveness state after a signal at `now`: the observation time moves and
/// the count grows (saturating).
pub open spec fn hb_observed(h: Heartbeat, now: u64) -> Heartbeat {
    Heartbeat {
        last_seen: now,
        liveness_count: if h.liveness_count < u64::MAX {
            (h.liveness_count + 1) as u64
        } else {
            h.liveness_count
        },
        ..h
    }
}

/// What a tick at `now` decides.  The no-authentication rule is checked
/// first: a connection still unauthenticated with zero liveness signals one
/// full timeout window after accept is expired with the dedicated verdict,
/// so that its close reason names the missing handshake.
pub open spec fn hb_verdict(h: Heartbeat, now: u64, unauthenticated: bool) -> HeartbeatVerdict {
    if unauthenticated && h.liveness_count == 0 && now - h.started_at > h.timeout_ms {
        HeartbeatVerdict::ExpiredNoAuth
    } else if now - h.last_seen > h.timeout_ms {
        HeartbeatVerdict::Expired
    } else {
        HeartbeatVerdict::Probe
    }
}

impl Heartbeat {
    /// Fresh liveness state for a connection accepted at `now`.
    pub fn new(now: u64, interval_ms: u64, timeout_ms: u64) -> (r: Heartbeat)
        requires
            0 < interval_ms < timeout_ms,
        ensures
            r == (Heartbeat {
                last_seen: now,
                started_at: now,
                liveness_count: 0,
                interval_ms,
                timeout_ms,
            }),
            hb_wf(r),
    {
        Heartbeat { last_seen: now, started_at: now, liveness_count: 0, interval_ms, timeout_ms }
    }

    /// Records a liveness signal observed at `now`.
    pub fn observe(&mut self, now: u64)
        ensures
            *final(self) == hb_observed(*old(self), now),
    {
        self.last_seen = now;
        if self.liveness_count < u64::MAX {
            self.liveness_count = self.liveness_count + 1;
        }
    }

    /// One supervisor tick at `now`.  `unauthenticated` says whether the
    /// connection is still waiting for its first successful authentication.
    pub fn check(&self, now: u64, unauthenticated: bool) -> (v: HeartbeatVerdict)
        ensures
            v == hb_verdict(*self, now, unauthenticated),
    {
        if unauthenticated && self.liveness_count == 0 && now > self.started_at && now
            - self.started_at > self.timeout_ms {
            HeartbeatVerdict::ExpiredNoAuth
        } else if now > self.last_seen && now - self.last_seen > self.timeout_ms {
            HeartbeatVerdict::Expired
        } else {
            HeartbeatVerdict::Probe
        }
    }
}

} // verus!
