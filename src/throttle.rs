use vstd::prelude::*;

verus! {

/// How long to wait, at time `now`, before the next request may go out,
/// when the last one went out at `last` and requests are to be at least
/// `min_delay` apart. A clock that reads earlier than `last` counts as no
/// time elapsed.
pub open spec fn wait_needed(last: Option<u64>, min_delay: u64, now: u64) -> u64 {
    match last {
        None => 0,
        Some(t) => {
            let elapsed = if now >= t { (now - t) as u64 } else { 0 };
            if elapsed < min_delay {
                (min_delay - elapsed) as u64
            } else {
                0
            }
        },
    }
}

/// Keeps outbound requests at least a fixed delay apart. Times are in
/// milliseconds on a clock of the caller's choice.
#[derive(Clone, Copy, Debug)]
pub struct RateLimiter {
    pub min_delay_ms: u64,
    pub last_ms: Option<u64>,
}

impl RateLimiter {
    /// A limiter that has seen no request yet.
    pub fn new(min_delay_ms: u64) -> (r: Self)
        ensures
            r.min_delay_ms == min_delay_ms,
            r.last_ms is None,
    {
        RateLimiter { min_delay_ms, last_ms: None }
    }

    /// How long to wait at time `now_ms` before the next request.
    pub fn wait_before(&self, now_ms: u64) -> (r: u64)
        ensures
            r == wait_needed(self.last_ms, self.min_delay_ms, now_ms),
            r <= self.min_delay_ms,
            self.last_ms matches Some(t) ==> now_ms + r >= t + self.min_delay_ms || r == self.min_delay_ms,
    {
        match self.last_ms {
            None => 0,
            Some(t) => {
                let elapsed = if now_ms >= t { now_ms - t } else { 0 };
                if elapsed < self.min_delay_ms {
                    self.min_delay_ms - elapsed
                } else {
                    0
                }
            },
        }
    }

    /// Notes that a request went out at time `at_ms`.
    pub fn record(&mut self, at_ms: u64)
        ensures
            final(self).min_delay_ms == old(self).min_delay_ms,
            final(self).last_ms == Some(at_ms),
    {
        self.last_ms = Some(at_ms);
    }
}

} // verus!
