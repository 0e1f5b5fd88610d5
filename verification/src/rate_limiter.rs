//! The brute-force rate limiter guarding authentication attempts.
//!
//! Entries live in a bounded, TTL-evicting cache keyed by client address;
//! each holds the timestamp of the last attempt and an attempt counter.
//! Two policies exist: fixed-delay (an attempt is admitted once the
//! configured delay has passed since the previous one) and attempt-counted
//! (up to `max_attempts` attempts are admitted inside the delay window, the
//! counter restarting once the window has elapsed).  The decision itself is
//! the pure, fully specified [`rate_decision`]; the cache and the clock are
//! outside collaborators about which nothing further is assumed.

use vstd::prelude::*;

verus! {

#[verifier::external_type_specification]
#[verifier::external_body]
pub struct ExLocalCache(local_lru::LocalCache);

/// Relies on local_lru::LocalCache::initialize: a cache bounded to
/// `capacity` entries whose items expire after `ttl` seconds.
#[verifier::external_body]
fn cache_new(capacity: usize, ttl: u64) -> (r: local_lru::LocalCache) {
    local_lru::LocalCache::initialize(capacity, ttl)
}

/// Relies on local_lru::LocalCache::get_struct: the `(timestamp, count)`
/// entry stored under `key`, if one is present and unexpired.  The store is
/// thread-local, bounded and expiring, so no relation between calls is
/// promised; the caller must be correct for every possible answer.
#[verifier::external_body]
fn cache_get(cache: &local_lru::LocalCache, key: &str) -> (r: Option<(u64, u64)>) {
    cache.get_struct::<(u64, u64)>(key)
}

/// Relies on local_lru::LocalCache::add_struct: stores the entry under
/// `key`, possibly evicting older entries.
#[verifier::external_body]
fn cache_put(cache: &local_lru::LocalCache, key: &str, entry: (u64, u64)) {
    cache.add_struct::<(u64, u64)>(key, entry);
}

/// Relies on std::time::SystemTime: the wall clock as whole seconds since
/// the Unix epoch, scaled to milliseconds; 0 when the clock reads earlier
/// than the epoch.  Nothing is promised about the value.
#[verifier::external_body]
fn now_ms() -> (r: u64) {
    match std::time::SystemTime::now().duration_since(std::time::UNIX_EPOCH) {
        Ok(d) => d.as_secs().saturating_mul(1000),
        Err(_) => 0,
    }
}

/// The limiter's decision for one attempt: whether to admit it, and the
/// `(timestamp, count)` entry to store back.
///
/// With no stored entry the attempt is admitted and a fresh entry starts
/// (counting from one under the attempt-counted policy).  Under fixed delay
/// the attempt is admitted exactly when the delay has elapsed since the last
/// one.  Under the attempt-counted policy an elapsed window restarts the
/// counter at one and admits; inside the window the attempt is admitted
/// exactly while the counter is below `max`, and the counter grows either
/// way.  A clock that moved backwards counts as no time elapsed.
pub open spec fn spec_rate_decision(
    delay_ms: u64,
    max_attempts: Option<u64>,
    entry: Option<(u64, u64)>,
    now: u64,
) -> (bool, (u64, u64)) {
    match entry {
        None => (
            true,
            (
                now,
                match max_attempts {
                    Some(_) => 1u64,
                    None => 0u64,
                },
            ),
        ),
        Some((last, count)) => {
            let elapsed: u64 = if now >= last {
                (now - last) as u64
            } else {
                0u64
            };
            match max_attempts {
                None => (elapsed >= delay_ms, (now, 0u64)),
                Some(max) => if elapsed >= delay_ms {
                    (true, (now, 1u64))
                } else {
                    (
                        count < max,
                        (
                            now,
                            if count < u64::MAX {
                                (count + 1) as u64
                            } else {
                                count
                            },
                        ),
                    )
                },
            }
        },
    }
}

/// Computes the limiter's decision for one attempt; see
/// [`spec_rate_decision`] for the exact policy.
pub fn rate_decision(
    delay_ms: u64,
    max_attempts: Option<u64>,
    entry: Option<(u64, u64)>,
    now: u64,
) -> (r: (bool, (u64, u64)))
    ensures
        r == spec_rate_decision(delay_ms, max_attempts, entry, now),
{
    match entry {
        None => {
            let count: u64 = match max_attempts {
                Some(_) => 1,
                None => 0,
            };
            (true, (now, count))
        },
        Some((last, count)) => {
            let elapsed: u64 = if now >= last {
                now - last
            } else {
                0
            };
            match max_attempts {
                None => (elapsed >= delay_ms, (now, 0)),
                Some(max) => {
                    if elapsed >= delay_ms {
                        (true, (now, 1))
                    } else {
                        let next: u64 = if count < u64::MAX {
                            count + 1
                        } else {
                            count
                        };
                        (count < max, (now, next))
                    }
                },
            }
        },
    }
}

/// The entry stored after a burst of attempts at the given times, starting
/// from no entry, under the attempt-counted policy.
pub open spec fn burst_entry(delay_ms: u64, max: u64, times: Seq<u64>) -> Option<(u64, u64)>
    decreases times.len(),
{
    if times.len() == 0 {
        None
    } else {
        Some(
            spec_rate_decision(
                delay_ms,
                Some(max),
                burst_entry(delay_ms, max, times.drop_last()),
                times.last(),
            ).1,
        )
    }
}

/// Whether attempt `k` of the burst is admitted.
pub open spec fn burst_admit(delay_ms: u64, max: u64, times: Seq<u64>, k: int) -> bool {
    spec_rate_decision(delay_ms, Some(max), burst_entry(delay_ms, max, times.take(k)), times[k]).0
}

/// Under the attempt-counted policy, a burst of attempts that all fall
/// inside the delay window admits exactly the first `max` attempts and
/// rejects every later one; the stored counter equals the number of
/// attempts made.
pub proof fn lemma_counted_burst(delay_ms: u64, max: u64, times: Seq<u64>, k: int)
    requires
        1 <= max,
        0 <= k < times.len(),
        times.len() <= u64::MAX,
        forall|i: int|
            0 < i < times.len() ==> (#[trigger] times[i - 1]) <= times[i] && times[i] - times[i
                - 1] < delay_ms,
    ensures
        burst_admit(delay_ms, max, times, k) == (k < max),
        burst_entry(delay_ms, max, times.take(k + 1)) == Some((times[k], (k + 1) as u64)),
    decreases k,
{
    if k == 0 {
        assert(times.take(0) =~= Seq::empty());
        assert(burst_entry(delay_ms, max, times.take(0)) is None);
        let t1 = times.take(1);
        assert(t1.last() == times[0]);
        assert(t1.drop_last() =~= Seq::empty());
    } else {
        lemma_counted_burst(delay_ms, max, times, k - 1);
        assert(burst_entry(delay_ms, max, times.take(k)) == Some((times[k - 1], k as u64)));
        assert(times[k - 1] <= times[k] && times[k] - times[k - 1] < delay_ms);
        let tk1 = times.take(k + 1);
        assert(tk1.last() == times[k]);
        assert(tk1.drop_last() =~= times.take(k));
    }
}

/// After a `clear` has reset an entry to `(0, 0)`, the next attempt is
/// admitted and the counter restarts at one (for any clock reading at or
/// past the delay).
pub proof fn lemma_clear_resets(delay_ms: u64, max: u64, now: u64)
    requires
        1 <= max,
        delay_ms <= now,
    ensures
        spec_rate_decision(delay_ms, Some(max), Some((0u64, 0u64)), now) == (true, (now, 1u64)),
{
}

/// A per-key rate limiter over a bounded, TTL-evicting cache.
pub struct RateLimiter {
    requests: local_lru::LocalCache,
    delay_ms: Option<u64>,
    max_attempts: Option<u64>,
}

impl RateLimiter {
    /// The configured delay window, if throttling is enabled at all.
    pub closed spec fn delay_spec(&self) -> Option<u64> {
        self.delay_ms
    }

    /// The configured attempt allowance, if the policy counts attempts.
    pub closed spec fn max_spec(&self) -> Option<u64> {
        self.max_attempts
    }

    /// A limiter holding up to 1000 entries, each expiring after a minute.
    /// `delay_ms` of `None` disables throttling entirely; `max_attempts`
    /// selects the attempt-counted policy over fixed-delay.
    pub fn new(delay_ms: Option<u64>, max_attempts: Option<u64>) -> (r: Self)
        ensures
            r.delay_spec() == delay_ms,
            r.max_spec() == max_attempts,
    {
        RateLimiter { requests: cache_new(1000, 60), delay_ms, max_attempts }
    }

    /// Decides one attempt from `ip`: reads the key's entry, applies
    /// [`rate_decision`] at the current clock, and stores the new entry.
    /// With throttling disabled every attempt is admitted; otherwise the
    /// result is the policy decision for whatever entry the cache held.
    pub fn check_limit(&self, ip: &str) -> (r: bool)
        ensures
            self.delay_spec() is None ==> r == true,
            self.delay_spec() matches Some(d) ==> exists|e: Option<(u64, u64)>, t: u64|
                r == (#[trigger] spec_rate_decision(d, self.max_spec(), e, t)).0,
    {
        let delay = match self.delay_ms {
            Some(d) => d,
            None => {
                return true;
            },
        };
        let now = now_ms();
        let entry = cache_get(&self.requests, ip);
        let decision = rate_decision(delay, self.max_attempts, entry, now);
        cache_put(&self.requests, ip, decision.1);
        proof {
            assert(decision == spec_rate_decision(delay, self.max_spec(), entry, now));
        }
        decision.0
    }

    /// Lifts throttling for `ip` at once, as after a successful login: an
    /// existing entry is reset to time zero and count zero, which the next
    /// decision treats as an elapsed window.
    pub fn clear(&self, ip: &str) {
        if cache_get(&self.requests, ip).is_some() {
            cache_put(&self.requests, ip, (0, 0));
        }
    }
}

} // verus!
