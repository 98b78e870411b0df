//! Minimum spacing between the requests that go to one backend.
//!
//! The limiter keeps no clock of its own: every call is given the present
//! time in milliseconds on a clock that the caller reads.

use vstd::prelude::*;

verus! {

/// How long a caller that was refused waits before it asks again.
pub const POLL_INTERVAL_MS: u64 = 10;

/// What a caller that waits for the limiter does next.
#[derive(Debug, Clone, Copy, PartialEq, Eq, Structural)]
pub enum PermitDecision {
    /// The request may go out now.
    Granted,
    /// Too early: sleep for `ms` milliseconds and ask again.
    Wait { ms: u64 },
    /// The run was cancelled while waiting; nothing was acquired.
    Cancelled,
}

/// `later - earlier`, or zero where the clock went backwards.
pub open spec fn elapsed_between(earlier: u64, later: u64) -> int {
    if later >= earlier {
        later - earlier
    } else {
        0
    }
}

/// A rate limiter for one backend. There is one limiter for each backend,
/// and whoever shares it serializes the calls.
#[derive(Debug)]
pub struct SimpleRateLimiter {
    last_request: Option<u64>,
    min_interval: u64,
}

impl SimpleRateLimiter {
    /// The time of the last grant, if there was one.
    pub closed spec fn last_request_ms(&self) -> Option<u64> {
        self.last_request
    }

    /// The least time between two grants.
    pub closed spec fn min_interval_ms(&self) -> u64 {
        self.min_interval
    }

    /// A request may go out at `now_ms`: none went before, or the last one
    /// is at least the minimum interval back.
    pub open spec fn ready(&self, now_ms: u64) -> bool {
        match self.last_request_ms() {
            None => true,
            Some(last) => elapsed_between(last, now_ms) >= self.min_interval_ms(),
        }
    }

    /// The limiter for `requests_per_second` that has granted nothing yet.
    pub closed spec fn unused(requests_per_second: u32) -> Self {
        SimpleRateLimiter {
            last_request: None,
            min_interval: (1000int / (requests_per_second as int)) as u64,
        }
    }

    /// This limiter once a request was granted at `now_ms`.
    pub closed spec fn granted_at(self, now_ms: u64) -> Self {
        SimpleRateLimiter { last_request: Some(now_ms), min_interval: self.min_interval }
    }

    /// This limiter once it was asked at `now_ms`.
    pub open spec fn asked_at(self, now_ms: u64) -> Self {
        if self.ready(now_ms) {
            self.granted_at(now_ms)
        } else {
            self
        }
    }

    /// What `unused` stands for.
    pub broadcast proof fn lemma_unused(requests_per_second: u32)
        requires
            requests_per_second > 0,
        ensures
            (#[trigger] Self::unused(requests_per_second)).min_interval_ms() == 1000int / (
            requests_per_second as int),
            Self::unused(requests_per_second).last_request_ms() is None,
    {
    }

    /// What `granted_at` keeps and what it sets.
    pub broadcast proof fn lemma_granted_at(self, now_ms: u64)
        ensures
            (#[trigger] self.granted_at(now_ms)).last_request_ms() == Some(now_ms),
            self.granted_at(now_ms).min_interval_ms() == self.min_interval_ms(),
    {
    }

    /// A limiter that lets `requests_per_second` requests through each
    /// second, and the first one at once.
    pub fn new(requests_per_second: u32) -> (limiter: Self)
        requires
            requests_per_second > 0,
        ensures
            limiter == Self::unused(requests_per_second),
            limiter.min_interval_ms() == 1000int / (requests_per_second as int),
            limiter.last_request_ms() is None,
    {
        let per_second: u64 = requests_per_second as u64;
        SimpleRateLimiter { last_request: None, min_interval: 1000 / per_second }
    }

    /// The least time between two grants, in milliseconds.
    pub fn min_interval(&self) -> (ms: u64)
        ensures
            ms == self.min_interval_ms(),
    {
        self.min_interval
    }

    /// The time of the last grant, if there was one.
    pub fn last_request(&self) -> (last: Option<u64>)
        ensures
            last == self.last_request_ms(),
    {
        self.last_request
    }

    /// Whether a request may go out at `now_ms`; changes nothing.
    pub fn is_ready(&self, now_ms: u64) -> (ok: bool)
        ensures
            ok == self.ready(now_ms),
    {
        match self.last_request {
            None => true,
            Some(last) => {
                let elapsed: u64 = if now_ms >= last {
                    now_ms - last
                } else {
                    0
                };
                elapsed >= self.min_interval
            },
        }
    }

    /// Grants a request at `now_ms` if one may go out, and records it.
    pub fn try_acquire(&mut self, now_ms: u64) -> (granted: bool)
        ensures
            granted == old(self).ready(now_ms),
            *final(self) == old(self).asked_at(now_ms),
            final(self).min_interval_ms() == old(self).min_interval_ms(),
            granted ==> final(self).last_request_ms() == Some(now_ms),
            !granted ==> final(self).last_request_ms() == old(self).last_request_ms(),
    {
        if self.is_ready(now_ms) {
            self.last_request = Some(now_ms);
            true
        } else {
            false
        }
    }

    /// One round of waiting for a permit: a cancelled caller acquires
    /// nothing, a ready limiter grants, and otherwise the caller is told to
    /// sleep for the polling interval.
    pub fn poll(&mut self, now_ms: u64, cancelled: bool) -> (decision: PermitDecision)
        ensures
            cancelled ==> decision == PermitDecision::Cancelled && *final(self) == *old(self),
            !cancelled && old(self).ready(now_ms) ==> decision == PermitDecision::Granted
                && *final(self) == old(self).granted_at(now_ms),
            !cancelled && !old(self).ready(now_ms) ==> decision == (PermitDecision::Wait {
                ms: POLL_INTERVAL_MS,
            }) && *final(self) == *old(self),
    {
        if cancelled {
            PermitDecision::Cancelled
        } else if self.try_acquire(now_ms) {
            PermitDecision::Granted
        } else {
            PermitDecision::Wait { ms: POLL_INTERVAL_MS }
        }
    }
}

/// The times, among `times` in order, at which a limiter that starts as
/// `limiter` and is asked at each of them grants a request.
pub open spec fn grant_times(limiter: SimpleRateLimiter, times: Seq<u64>) -> Seq<u64>
    decreases times.len(),
{
    if times.len() == 0 {
        Seq::empty()
    } else {
        let rest = grant_times(limiter.asked_at(times[0]), times.drop_first());
        if limiter.ready(times[0]) {
            seq![times[0]] + rest
        } else {
            rest
        }
    }
}

/// Two times are at least `interval` apart, the first one first.
pub open spec fn spaced(earlier: u64, later: u64, interval: u64) -> bool {
    elapsed_between(earlier, later) >= interval
}

proof fn lemma_first_grant_spaced(limiter: SimpleRateLimiter, times: Seq<u64>)
    ensures
        grant_times(limiter, times).len() > 0 && limiter.last_request_ms() is Some ==> spaced(
            limiter.last_request_ms()->Some_0,
            grant_times(limiter, times)[0],
            limiter.min_interval_ms(),
        ),
    decreases times.len(),
{
    if times.len() > 0 {
        if !limiter.ready(times[0]) {
            lemma_first_grant_spaced(limiter, times.drop_first());
        }
    }
}

/// Whatever the times at which a limiter is asked, any two grants that
/// follow one another are at least the minimum interval apart.
pub proof fn lemma_grants_are_spaced(limiter: SimpleRateLimiter, times: Seq<u64>, k: int)
    requires
        0 < k < grant_times(limiter, times).len(),
    ensures
        spaced(
            grant_times(limiter, times)[k - 1],
            grant_times(limiter, times)[k],
            limiter.min_interval_ms(),
        ),
    decreases times.len(),
{
    broadcast use SimpleRateLimiter::lemma_granted_at;

    let next = limiter.asked_at(times[0]);
    let rest = grant_times(next, times.drop_first());
    if limiter.ready(times[0]) {
        assert(grant_times(limiter, times) == seq![times[0]] + rest);
        if k == 1 {
            lemma_first_grant_spaced(next, times.drop_first());
        } else {
            lemma_grants_are_spaced(next, times.drop_first(), k - 1);
        }
    } else {
        lemma_grants_are_spaced(next, times.drop_first(), k);
    }
}

/// On a clock that never runs backwards, spaced grants differ by at least
/// the minimum interval.
pub proof fn lemma_spaced_on_monotonic_clock(earlier: u64, later: u64, interval: u64)
    requires
        spaced(earlier, later, interval),
        earlier <= later,
    ensures
        later - earlier >= interval,
{
}

} // verus!
