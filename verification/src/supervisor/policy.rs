//! The restart policy and the exponential back-off it configures.
use vstd::prelude::*;

use core::time::Duration;

use super::backoff::{
    build_backoff, builder_new, builder_with_jitter, builder_with_max_delay, builder_with_min_delay,
    builder_without_max_times, draw_fits, max_nanos, min_nanos, next_backoff, try_limit, BackoffSettings,
    RestartBackoff,
};

verus! {

/// The length of a duration in nanoseconds (what `Duration::as_nanos` returns).
pub uninterp spec fn duration_nanos(d: Duration) -> u128;

/// `Duration::as_nanos`: the whole length in nanoseconds.
pub assume_specification[ Duration::as_nanos ](d: &Duration) -> (r: u128)
    ensures
        r == duration_nanos(*d),
;

/// `Duration::from_millis`: `ms` milliseconds.
pub assume_specification[ Duration::from_millis ](ms: u64) -> (r: Duration)
    ensures
        duration_nanos(r) == ms as u128 * 1_000_000,
;

/// `Duration::from_secs`: `secs` seconds.
pub assume_specification[ Duration::from_secs ](secs: u64) -> (r: Duration)
    ensures
        duration_nanos(r) == secs as u128 * 1_000_000_000,
;

/// How a failing service is restarted.
#[derive(Debug, Clone, Copy)]
pub struct RestartPolicy {
    pub min_delay: Duration,
    pub max_delay: Duration,
    /// A service that ran at least this long before failing starts its
    /// back-off afresh.
    pub stable_after: Duration,
    /// How long shutdown waits for services before aborting them.
    pub shutdown_grace: Duration,
}

impl Default for RestartPolicy {
    /// 200 ms to 30 s back-off, reset after a minute of stable running, 20 s
    /// shutdown grace.
    fn default() -> (r: Self)
        ensures
            duration_nanos(r.min_delay) == 200_000_000,
            duration_nanos(r.max_delay) == 30_000_000_000,
            duration_nanos(r.stable_after) == 60_000_000_000,
            duration_nanos(r.shutdown_grace) == 20_000_000_000,
    {
        RestartPolicy {
            min_delay: Duration::from_millis(200),
            max_delay: Duration::from_secs(30),
            stable_after: Duration::from_secs(60),
            shutdown_grace: Duration::from_secs(20),
        }
    }
}

impl RestartPolicy {
    /// A fresh back-off: jittered, from the policy's minimum delay doubling
    /// up to its maximum, never exhausted, nothing drawn yet.
    pub fn new_backoff(&self) -> (r: RestartBackoff)
        ensures
            r.settings_spec() == (BackoffSettings {
                min_delay: Some(self.min_delay),
                max_delay: Some(self.max_delay),
                jitter: true,
                max_times: None,
            }),
            r.drawn_spec() == 0,
    {
        let b = builder_new();
        let b = builder_with_jitter(b);
        let b = builder_with_min_delay(b, self.min_delay);
        let b = builder_with_max_delay(b, self.max_delay);
        let b = builder_without_max_times(b);
        build_backoff(b)
    }

    /// A failure after at least `stable_after` of running resets the back-off.
    pub fn resets_backoff(&self, ran_for: Duration) -> (r: bool)
        ensures
            r == (duration_nanos(ran_for) >= duration_nanos(self.stable_after)),
    {
        ran_for.as_nanos() >= self.stable_after.as_nanos()
    }

    /// The delay to use: the back-off's next one, or the maximum when it has
    /// none.
    pub fn delay_or_max(&self, next: Option<Duration>) -> (r: Duration)
        ensures
            r == match next {
                Some(d) => d,
                None => self.max_delay,
            },
    {
        match next {
            Some(d) => d,
            None => self.max_delay,
        }
    }

    /// The delay before the next restart: the back-off's next delay, or the
    /// policy's maximum once it yields none. The next delay is the back-off's
    /// next draw: it starts at the first delay and doubles up to the maximum,
    /// with jitter adding less than the delay again; which delay within those
    /// bounds comes rests on a random draw.
    pub fn next_delay(&self, backoff: &mut RestartBackoff) -> (r: Duration)
        requires
            min_nanos(old(backoff).settings_spec()) <= u64::MAX,
            max_nanos(old(backoff).settings_spec()) <= u64::MAX,
        ensures
            final(backoff).settings_spec() == old(backoff).settings_spec(),
            old(backoff).drawn_spec() < try_limit(old(backoff).settings_spec()) ==> {
                &&& final(backoff).drawn_spec() == old(backoff).drawn_spec() + 1
                &&& draw_fits(old(backoff).settings_spec(), final(backoff).drawn_spec(), duration_nanos(r) as int)
            },
            old(backoff).drawn_spec() >= try_limit(old(backoff).settings_spec()) ==> {
                &&& final(backoff).drawn_spec() == old(backoff).drawn_spec()
                &&& r == self.max_delay
            },
    {
        let next = next_backoff(backoff);
        self.delay_or_max(next)
    }
}

} // verus!
