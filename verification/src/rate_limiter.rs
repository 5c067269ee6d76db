//! A concurrency-safe, per-client, fixed-window request throttle.
//!
//! Each client identity gets a window record: how many requests were admitted
//! in the current window and when that window began, in whole seconds of
//! monotonic time. An admission check rolls the window over when it has
//! expired, then either admits (and counts) the request or rejects it with
//! the time the client has to wait.
//!
//! The admission step is specified as a pure transition (`step_map`,
//! `step_admits`) over the map of records, and every stated law of the
//! limiter is proved of that transition.

use vstd::prelude::*;
use std::collections::HashMap;
use crate::clock;

verus! {

broadcast use vstd::std_specs::hash::group_hash_axioms;

/// Number of admitted requests in the current window and the window's start,
/// in whole seconds of monotonic time since the limiter was created.
#[derive(Clone, Copy, Debug, PartialEq, Eq, Structural)]
pub struct RateLimitInfo {
    pub count: u32,
    pub last_reset: u64,
}

/// The one domain error: the quota is spent. `wait_time` is the number of
/// seconds until the current window expires; `retry_after` is the wall-clock
/// time (seconds since the Unix epoch) at which the client may retry.
#[derive(Debug, PartialEq, Eq, Structural)]
pub enum RateLimitError {
    LimitExceeded { wait_time: u64, retry_after: i64 },
}

impl RateLimitError {
    pub open spec fn spec_wait_time(&self) -> u64 {
        match *self {
            RateLimitError::LimitExceeded { wait_time, .. } => wait_time,
        }
    }

    pub open spec fn spec_retry_after(&self) -> i64 {
        match *self {
            RateLimitError::LimitExceeded { retry_after, .. } => retry_after,
        }
    }

    pub fn retry_after(&self) -> (r: i64)
        ensures
            r == self.spec_retry_after(),
    {
        match self {
            RateLimitError::LimitExceeded { retry_after, .. } => *retry_after,
        }
    }
}

/// Seconds elapsed from `last_reset` to `now`, clamped to zero if the clock
/// reading went backwards.
pub open spec fn elapsed_since(last_reset: u64, now: u64) -> nat {
    if now >= last_reset {
        (now - last_reset) as nat
    } else {
        0
    }
}

/// The record consulted for an identity: the stored one, or a fresh window
/// starting at `now` for an identity never seen before.
pub open spec fn lookup(m: Map<u128, RateLimitInfo>, ip: u128, now: u64) -> RateLimitInfo {
    if m.contains_key(ip) {
        m[ip]
    } else {
        RateLimitInfo { count: 0, last_reset: now }
    }
}

/// A record after the window-expiry check at time `now`: reset to a fresh
/// window if a full `window` has elapsed, unchanged otherwise.
pub open spec fn rolled(rec: RateLimitInfo, now: u64, window: u64) -> RateLimitInfo {
    if elapsed_since(rec.last_reset, now) >= window {
        RateLimitInfo { count: 0, last_reset: now }
    } else {
        rec
    }
}

/// The record an admission check at time `now` decides on.
pub open spec fn effective_record(
    m: Map<u128, RateLimitInfo>,
    ip: u128,
    now: u64,
    window: u64,
) -> RateLimitInfo {
    rolled(lookup(m, ip, now), now, window)
}

/// Whether a check for `ip` at time `now` admits the request.
pub open spec fn step_admits(
    m: Map<u128, RateLimitInfo>,
    ip: u128,
    now: u64,
    max: u32,
    window: u64,
) -> bool {
    effective_record(m, ip, now, window).count < max
}

/// The map of records after one check for `ip` at time `now`.
pub open spec fn step_map(
    m: Map<u128, RateLimitInfo>,
    ip: u128,
    now: u64,
    max: u32,
    window: u64,
) -> Map<u128, RateLimitInfo> {
    let eff = effective_record(m, ip, now, window);
    if eff.count < max {
        m.insert(ip, RateLimitInfo { count: (eff.count + 1) as u32, last_reset: eff.last_reset })
    } else {
        m
    }
}

/// Seconds left of the record's window at time `now`, zero once it expired.
pub open spec fn wait_of(rec: RateLimitInfo, now: u64, window: u64) -> u64 {
    if elapsed_since(rec.last_reset, now) < window {
        (window - elapsed_since(rec.last_reset, now)) as u64
    } else {
        0
    }
}

/// `a + b`, saturating at the top of `i64`.
pub open spec fn sat_add_i64(a: i64, b: u64) -> i64 {
    if a + b > i64::MAX {
        i64::MAX
    } else {
        (a + b) as i64
    }
}

/// The rejection a check for `ip` at monotonic time `now` and wall-clock time
/// `wall_now` carries.
pub open spec fn reject_error(
    m: Map<u128, RateLimitInfo>,
    ip: u128,
    now: u64,
    wall_now: i64,
    window: u64,
) -> RateLimitError {
    let wait = wait_of(effective_record(m, ip, now, window), now, window);
    RateLimitError::LimitExceeded { wait_time: wait, retry_after: sat_add_i64(wall_now, wait) }
}

/// The fixed-window limiter: one window record per client identity, plus the
/// immutable configuration. A client identity is any stable identifier for
/// the caller, carried as a plain integer; a deployment typically derives it
/// from the client's network address.
pub struct RateLimiter {
    requests: HashMap<u128, RateLimitInfo>,
    pub max_requests: u32,
    pub window_duration: u64,
    origin: std::time::Instant,
}

impl RateLimiter {
    /// The map of window records the limiter currently holds.
    pub closed spec fn records(&self) -> Map<u128, RateLimitInfo> {
        self.requests@
    }

    /// The configured quota, as the contracts speak of it.
    pub closed spec fn spec_max_requests(&self) -> u32 {
        self.max_requests
    }

    /// The configured window length in seconds, as the contracts speak of it.
    pub closed spec fn spec_window(&self) -> u64 {
        self.window_duration
    }

    /// Well-formedness: the configuration is positive and no record's count
    /// ever exceeds the quota.
    pub open spec fn wf(&self) -> bool {
        &&& self.spec_max_requests() >= 1
        &&& self.spec_window() >= 1
        &&& forall|ip: u128|
            self.records().contains_key(ip) ==> (#[trigger] self.records()[ip]).count
                <= self.spec_max_requests()
    }

    /// A limiter admitting `max_requests` requests per identity per window of
    /// `window_minutes` minutes, with no identity seen yet.
    pub fn new(max_requests: u32, window_minutes: u64) -> (r: Self)
        requires
            max_requests >= 1,
            1 <= window_minutes <= u64::MAX / 60,
        ensures
            r.wf(),
            r.records() == Map::<u128, RateLimitInfo>::empty(),
            r.spec_max_requests() == max_requests,
            r.spec_window() == window_minutes * 60,
    {
        RateLimiter {
            requests: HashMap::new(),
            max_requests,
            window_duration: window_minutes * 60,
            origin: clock::instant_now(),
        }
    }

    /// One admission check for `ip`, decided at monotonic time `now` (seconds)
    /// with the wall clock reading `wall_now` (seconds since the Unix epoch).
    /// The new state and the outcome are exactly those of the `step_map` /
    /// `step_admits` transition; a rejection carries the seconds left of the
    /// window, which are at least 1 and at most the window itself.
    pub fn check_at(&mut self, ip: u128, now: u64, wall_now: i64) -> (r: Result<
        (),
        RateLimitError,
    >)
        requires
            old(self).wf(),
        ensures
            final(self).wf(),
            final(self).spec_max_requests() == old(self).spec_max_requests(),
            final(self).spec_window() == old(self).spec_window(),
            final(self).records() == step_map(
                old(self).records(),
                ip,
                now,
                old(self).spec_max_requests(),
                old(self).spec_window(),
            ),
            r is Ok <==> step_admits(
                old(self).records(),
                ip,
                now,
                old(self).spec_max_requests(),
                old(self).spec_window(),
            ),
            (r matches Err(e) ==> e == reject_error(
                old(self).records(),
                ip,
                now,
                wall_now,
                old(self).spec_window(),
            )),
            (r matches Err(e) ==> 1 <= e.spec_wait_time() <= old(self).spec_window()),
    {
        let ghost m0: Map<u128, RateLimitInfo> = self.requests@;
        let max = self.max_requests;
        let window = self.window_duration;

        if !self.requests.contains_key(&ip) {
            self.requests.insert(ip, RateLimitInfo { count: 0, last_reset: now });
        }
        let info = *self.requests.get(&ip).unwrap();
        proof {
            assert(info == lookup(m0, ip, now));
        }

        let elapsed: u64 = if now >= info.last_reset {
            now - info.last_reset
        } else {
            0
        };
        let eff = if elapsed >= window {
            RateLimitInfo { count: 0, last_reset: now }
        } else {
            info
        };
        proof {
            assert(eff == effective_record(m0, ip, now, window));
        }

        if eff.count >= max {
            // The quota is spent: the record existed and was not rolled over,
            // so the map is exactly what it was.
            let wait_time: u64 = window - elapsed;
            let sum: i128 = wall_now as i128 + wait_time as i128;
            let retry_after: i64 = if sum > i64::MAX as i128 {
                i64::MAX
            } else {
                sum as i64
            };
            proof {
                assert(self.requests@ =~= step_map(m0, ip, now, max, window));
            }
            Err(RateLimitError::LimitExceeded { wait_time, retry_after })
        } else {
            self.requests.insert(
                ip,
                RateLimitInfo { count: eff.count + 1, last_reset: eff.last_reset },
            );
            proof {
                assert(self.requests@ =~= step_map(m0, ip, now, max, window));
                assert forall|k: u128| self.requests@.contains_key(k) implies (
                #[trigger] self.requests@[k]).count <= max by {
                    if k != ip {
                        assert(self.requests@[k] == m0[k]);
                        assert(old(self).records().contains_key(k));
                        assert(old(self).records()[k].count <= max);
                    }
                }
            }
            Ok(())
        }
    }

    /// One admission check for `ip` against the live clocks. Whatever the
    /// clocks read, the outcome and the new state are those of one `check_at`
    /// step at some pair of readings.
    pub fn check_rate_limit(&mut self, ip: u128) -> (r: Result<(), RateLimitError>)
        requires
            old(self).wf(),
        ensures
            final(self).wf(),
            final(self).spec_max_requests() == old(self).spec_max_requests(),
            final(self).spec_window() == old(self).spec_window(),
            exists|now: u64, wall_now: i64|
                #[trigger] step_outcome(
                    old(self).records(),
                    final(self).records(),
                    ip,
                    now,
                    wall_now,
                    old(self).spec_max_requests(),
                    old(self).spec_window(),
                    r,
                ),
    {
        let now = clock::secs_since(&self.origin);
        let wall_now = clock::utc_now_secs();
        let r = self.check_at(ip, now, wall_now);
        proof {
            assert(step_outcome(
                old(self).records(),
                self.records(),
                ip,
                now,
                wall_now,
                old(self).spec_max_requests(),
                old(self).spec_window(),
                r,
            ));
        }
        r
    }
}

/// That one admission step at times `now` / `wall_now` turned the records
/// `pre` into `post` with outcome `r`.
pub open spec fn step_outcome(
    pre: Map<u128, RateLimitInfo>,
    post: Map<u128, RateLimitInfo>,
    ip: u128,
    now: u64,
    wall_now: i64,
    max: u32,
    window: u64,
    r: Result<(), RateLimitError>,
) -> bool {
    &&& post == step_map(pre, ip, now, max, window)
    &&& (r is Ok <==> step_admits(pre, ip, now, max, window))
    &&& (r matches Err(e) ==> e == reject_error(pre, ip, now, wall_now, window))
}

/// Independence: a check for one identity never changes any other identity's
/// record, whatever its outcome.
pub proof fn lemma_independence(
    m: Map<u128, RateLimitInfo>,
    ip: u128,
    other: u128,
    now: u64,
    max: u32,
    window: u64,
)
    requires
        other != ip,
    ensures
        step_map(m, ip, now, max, window).contains_key(other) == m.contains_key(other),
        m.contains_key(other) ==> step_map(m, ip, now, max, window)[other] == m[other],
{
}

/// First contact: an identity with no record yet is admitted and starts a
/// window of its own at `now` with one request counted.
pub proof fn lemma_first_call(m: Map<u128, RateLimitInfo>, ip: u128, now: u64, max: u32, window: u64)
    requires
        max >= 1,
        !m.contains_key(ip),
    ensures
        step_admits(m, ip, now, max, window),
        step_map(m, ip, now, max, window)[ip] == (RateLimitInfo { count: 1, last_reset: now }),
{
}

/// Window reset: once a full window has elapsed since a record's start, the
/// next check for that identity is admitted — even if the old window was
/// exhausted — and starts a fresh window at `now`.
pub proof fn lemma_window_reset(
    m: Map<u128, RateLimitInfo>,
    ip: u128,
    now: u64,
    max: u32,
    window: u64,
)
    requires
        max >= 1,
        m.contains_key(ip),
        elapsed_since(m[ip].last_reset, now) >= window,
    ensures
        step_admits(m, ip, now, max, window),
        step_map(m, ip, now, max, window)[ip] == (RateLimitInfo { count: 1, last_reset: now }),
{
}

/// Quota, rejection side: once a record's count has reached the quota, a
/// further check inside the same window is rejected and changes nothing.
pub proof fn lemma_exhausted_rejects(
    m: Map<u128, RateLimitInfo>,
    ip: u128,
    now: u64,
    max: u32,
    window: u64,
)
    requires
        m.contains_key(ip),
        m[ip].count >= max,
        elapsed_since(m[ip].last_reset, now) < window,
    ensures
        !step_admits(m, ip, now, max, window),
        step_map(m, ip, now, max, window) == m,
{
}

/// The map of records after a whole run of checks for `ip`, one at each time
/// of `times` in order.
pub open spec fn run_map(
    m: Map<u128, RateLimitInfo>,
    ip: u128,
    times: Seq<u64>,
    max: u32,
    window: u64,
) -> Map<u128, RateLimitInfo>
    decreases times.len(),
{
    if times.len() == 0 {
        m
    } else {
        run_map(step_map(m, ip, times[0], max, window), ip, times.drop_first(), max, window)
    }
}

/// How many checks of such a run are admitted.
pub open spec fn admitted_count(
    m: Map<u128, RateLimitInfo>,
    ip: u128,
    times: Seq<u64>,
    max: u32,
    window: u64,
) -> nat
    decreases times.len(),
{
    if times.len() == 0 {
        0
    } else {
        (if step_admits(m, ip, times[0], max, window) {
            1nat
        } else {
            0nat
        }) + admitted_count(
            step_map(m, ip, times[0], max, window),
            ip,
            times.drop_first(),
            max,
            window,
        )
    }
}

/// Quota: out of any run of checks for one identity whose times all fall
/// before its current window expires, exactly the first
/// `max - count` checks are admitted (all of them, if the run is shorter),
/// the window's start never moves, and the final count is the old count plus
/// the number admitted. With all times equal this is also the linearized
/// outcome of a simultaneous burst: no overcount, no undercount.
pub proof fn lemma_quota_within_window(
    m: Map<u128, RateLimitInfo>,
    ip: u128,
    times: Seq<u64>,
    max: u32,
    window: u64,
)
    requires
        max >= 1,
        m.contains_key(ip),
        m[ip].count <= max,
        forall|i: int|
            0 <= i < times.len() ==> elapsed_since(m[ip].last_reset, #[trigger] times[i]) < window,
    ensures
        ({
            let admitted = if times.len() <= max - m[ip].count {
                times.len() as nat
            } else {
                (max - m[ip].count) as nat
            };
            &&& admitted_count(m, ip, times, max, window) == admitted
            &&& run_map(m, ip, times, max, window).contains_key(ip)
            &&& run_map(m, ip, times, max, window)[ip].last_reset == m[ip].last_reset
            &&& run_map(m, ip, times, max, window)[ip].count == m[ip].count + admitted
        }),
    decreases times.len(),
{
    if times.len() > 0 {
        let t0 = times[0];
        assert(elapsed_since(m[ip].last_reset, t0) < window);
        let eff = effective_record(m, ip, t0, window);
        assert(eff == m[ip]);
        let m1 = step_map(m, ip, t0, max, window);
        assert(m1.contains_key(ip) && m1[ip].last_reset == m[ip].last_reset);
        assert forall|i: int| 0 <= i < times.drop_first().len() implies elapsed_since(
            m1[ip].last_reset,
            #[trigger] times.drop_first()[i],
        ) < window by {
            assert(times.drop_first()[i] == times[i + 1]);
        }
        lemma_quota_within_window(m1, ip, times.drop_first(), max, window);
    }
}

/// The burst law: N checks for one identity linearized at a single instant
/// inside its current window admit exactly `min(N, max - count)` of the N and
/// reject the rest.
pub proof fn lemma_same_instant_burst(
    m: Map<u128, RateLimitInfo>,
    ip: u128,
    now: u64,
    n: nat,
    max: u32,
    window: u64,
)
    requires
        max >= 1,
        m.contains_key(ip),
        m[ip].count <= max,
        elapsed_since(m[ip].last_reset, now) < window,
    ensures
        admitted_count(m, ip, Seq::new(n, |i: int| now), max, window) == if n <= max - m[ip].count {
            n
        } else {
            (max - m[ip].count) as nat
        },
{
    let times = Seq::new(n, |i: int| now);
    lemma_quota_within_window(m, ip, times, max, window);
}

} // verus!
