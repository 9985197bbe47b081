use vstd::prelude::*;

verus! {

/// Kind of an outbound request, mapped to the fixed integer cost the venue
/// charges against the rate-limit window.
pub enum Cost {
    FillsWithLastFillTime,
}

impl Cost {
    /// The integer cost charged for this request kind.
    pub open spec fn spec_value(self) -> int {
        match self {
            Cost::FillsWithLastFillTime => 25,
        }
    }

    pub fn value(&self) -> (v: usize)
        ensures
            v == self.spec_value(),
    {
        match self {
            Cost::FillsWithLastFillTime => 25,
        }
    }
}

/// Cost-based rate limiter over a coarse rolling window.
///
/// The caller supplies the current reading of a monotonic clock, in whole
/// seconds, on every call; the limiter itself never reads a clock, so a test
/// can drive it with a simulated one.
pub struct RateLimit {
    pub start_time: u64,
    pub total_cost: usize,
    pub max_limit: usize,
    pub limit_interval_sec: u64,
}

impl RateLimit {
    /// Internal consistency: the accumulated cost is zero or strictly
    /// below the limit, as every reachable state leaves it.
    pub open spec fn wf(self) -> bool {
        self.total_cost == 0 || self.total_cost < self.max_limit
    }

    pub open spec fn accumulated_cost(self) -> int {
        self.total_cost as int
    }

    pub open spec fn window_start(self) -> int {
        self.start_time as int
    }

    pub open spec fn spec_max_limit(self) -> int {
        self.max_limit as int
    }

    pub open spec fn spec_interval(self) -> int {
        self.limit_interval_sec as int
    }

    /// Seconds elapsed since the window opened, clamped at zero if the
    /// caller's clock reads earlier than the recorded window start.
    pub open spec fn spec_elapsed(self, now_sec: int) -> int {
        if now_sec >= self.window_start() {
            now_sec - self.window_start()
        } else {
            0
        }
    }

    /// The window has expired once strictly more than the interval elapsed.
    pub open spec fn spec_expired(self, now_sec: int) -> bool {
        self.spec_elapsed(now_sec) > self.spec_interval()
    }

    pub fn new(max_limit: usize, limit_interval_sec: u64, now_sec: u64) -> (r: RateLimit)
        ensures
            r.wf(),
            r.accumulated_cost() == 0,
            r.window_start() == now_sec,
            r.spec_max_limit() == max_limit,
            r.spec_interval() == limit_interval_sec,
    {
        RateLimit { start_time: now_sec, total_cost: 0, max_limit, limit_interval_sec }
    }

    /// Admit or reject a request of the given cost at clock reading `now_sec`.
    ///
    /// An expired window first resets the accumulated cost to zero and
    /// re-opens the window at `now_sec`. The request is then admitted exactly
    /// when the new accumulated cost would stay strictly below the limit; a
    /// cost that would land exactly on the limit is rejected.
    pub fn try_increment(&mut self, request: Cost, now_sec: u64) -> (accepted: bool)
        requires
            old(self).wf(),
        ensures
            final(self).wf(),
            final(self).spec_max_limit() == old(self).spec_max_limit(),
            final(self).spec_interval() == old(self).spec_interval(),
            ({
                let reset = old(self).spec_expired(now_sec as int);
                let base = if reset { 0int } else { old(self).accumulated_cost() };
                &&& final(self).window_start() == (if reset { now_sec as int } else { old(self).window_start() })
                &&& accepted == (base + request.spec_value() < old(self).spec_max_limit())
                &&& final(self).accumulated_cost() == (if accepted { base + request.spec_value() } else { base })
            }),
    {
        let elapsed: u64 = if now_sec >= self.start_time {
            now_sec - self.start_time
        } else {
            0
        };
        if elapsed > self.limit_interval_sec {
            self.start_time = now_sec;
            self.total_cost = 0;
        }

        let v: usize = request.value();
        if v <= self.max_limit && self.total_cost < self.max_limit - v {
            self.total_cost += v;
            return true;
        }
        false
    }
}

} // verus!
