use vstd::prelude::*;

verus! {

/// The connection-attempt state an event source carries between attempts.
#[derive(Debug, Clone)]
pub struct AttemptState {
    pub retry_count: u64,
    pub retry_interval: u64,
    pub max_retry_interval: u64,
    pub max_retry_count: Option<u64>,
}

impl AttemptState {
    /// Initial state from the configuration: counters at zero, a missing
    /// maximum interval defaulting to 30000 time units, a missing retry bound
    /// meaning unbounded retrying.
    pub fn from_options(max_retry_count: Option<u64>, max_retry_interval: Option<u64>) -> (s: Self)
        ensures
            s.retry_count == 0,
            s.retry_interval == 0,
            s.max_retry_count == max_retry_count,
            s.max_retry_interval == (match max_retry_interval {
                Some(v) => v,
                None => 30000u64,
            }),
    {
        AttemptState {
            retry_count: 0,
            retry_interval: 0,
            max_retry_interval: match max_retry_interval {
                Some(v) => v,
                None => 30000,
            },
            max_retry_count,
        }
    }

    /// Whether retrying must stop: a retry bound is configured and the count
    /// strictly exceeds it, so the configured bound itself is still attempted
    /// one extra time.
    pub open spec fn spec_should_stop(self) -> bool {
        match self.max_retry_count {
            Some(max) => self.retry_count > max,
            None => false,
        }
    }

    pub fn should_stop(&self) -> (r: bool)
        ensures
            r == self.spec_should_stop(),
    {
        match self.max_retry_count {
            Some(max) => self.retry_count > max,
            None => false,
        }
    }

    /// The wait before the next attempt.  The first five retries keep the
    /// current interval (initially zero, an immediate retry); from the sixth
    /// failure on a zero interval becomes 2 and a nonzero one doubles, capped
    /// at the configured maximum.
    pub open spec fn next_interval(self) -> int {
        if self.retry_count > 5 {
            if self.retry_interval == 0 {
                2
            } else if self.retry_interval * 2 > self.max_retry_interval {
                self.max_retry_interval as int
            } else {
                self.retry_interval * 2
            }
        } else {
            self.retry_interval as int
        }
    }

    /// Escalate the interval as `next_interval` describes and return the wait
    /// before the next attempt; everything but the interval is untouched.
    pub fn next_delay(&mut self) -> (d: u64)
        ensures
            final(self).retry_interval == old(self).next_interval(),
            d == final(self).retry_interval,
            final(self).retry_count == old(self).retry_count,
            final(self).max_retry_interval == old(self).max_retry_interval,
            final(self).max_retry_count == old(self).max_retry_count,
    {
        if self.retry_count > 5 {
            if self.retry_interval == 0 {
                self.retry_interval = 2;
            } else if self.retry_interval > self.max_retry_interval / 2 {
                self.retry_interval = self.max_retry_interval;
            } else {
                self.retry_interval = self.retry_interval * 2;
            }
        }
        self.retry_interval
    }

    /// The escalation never pushes the interval above the configured maximum,
    /// provided the maximum is at least the floor of 2 that the first
    /// escalation jumps to.
    pub proof fn lemma_interval_never_exceeds_max(self)
        requires
            self.retry_interval <= self.max_retry_interval,
            self.max_retry_interval >= 2,
        ensures
            self.next_interval() <= self.max_retry_interval,
    {
    }

    /// Count one failed attempt.
    pub fn record_retry(&mut self)
        requires
            old(self).retry_count < u64::MAX,
        ensures
            final(self).retry_count == old(self).retry_count + 1,
            final(self).retry_interval == old(self).retry_interval,
            final(self).max_retry_interval == old(self).max_retry_interval,
            final(self).max_retry_count == old(self).max_retry_count,
    {
        self.retry_count = self.retry_count + 1;
    }

    /// A fresh successful connection forgives prior failures.
    pub fn record_open(&mut self)
        ensures
            final(self).retry_count == 0,
            final(self).retry_interval == old(self).retry_interval,
            final(self).max_retry_interval == old(self).max_retry_interval,
            final(self).max_retry_count == old(self).max_retry_count,
    {
        self.retry_count = 0;
    }
}

} // verus!
