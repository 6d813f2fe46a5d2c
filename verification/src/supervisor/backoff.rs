//! The exponential restart back-off of `backon`, kept with the settings it
//! was configured with and the number of delays drawn so far.
//!
//! Each builder call is made by one wrapper that records what the call sets,
//! so the record beside a builder or back-off is its configuration. A drawn
//! delay starts at the first delay, doubles (up to `f32` rounding) while
//! below the maximum and is then held at it; jitter adds a random share of
//! less than the whole delay.
use vstd::prelude::*;

use core::time::Duration;
use backon::{BackoffBuilder, ExponentialBackoff, ExponentialBuilder};

use super::policy::duration_nanos;

verus! {

#[verifier::external_type_specification]
#[verifier::external_body]
pub struct ExExponentialBuilder(ExponentialBuilder);

#[verifier::external_type_specification]
#[verifier::external_body]
pub struct ExExponentialBackoff(ExponentialBackoff);

/// What a back-off was configured with: the first delay and the maximum
/// (`None`: `backon`'s defaults of one second and one minute), whether
/// jitter is on, and the number of delays it yields (`None`: no limit).
#[derive(Clone, Copy)]
pub struct BackoffSettings {
    pub min_delay: Option<Duration>,
    pub max_delay: Option<Duration>,
    pub jitter: bool,
    pub max_times: Option<usize>,
}

/// The first delay in nanoseconds.
pub open spec fn min_nanos(s: BackoffSettings) -> int {
    match s.min_delay {
        Some(d) => duration_nanos(d) as int,
        None => 1_000_000_000,
    }
}

/// The maximum delay in nanoseconds.
pub open spec fn max_nanos(s: BackoffSettings) -> int {
    match s.max_delay {
        Some(d) => duration_nanos(d) as int,
        None => 60_000_000_000,
    }
}

/// How many delays the back-off yields.
pub open spec fn try_limit(s: BackoffSettings) -> nat {
    match s.max_times {
        Some(n) => n as nat,
        None => usize::MAX as nat,
    }
}

/// An exponential builder of `backon` with the settings given to it.
pub struct RestartBuilder {
    inner: ExponentialBuilder,
    settings: BackoffSettings,
}

impl RestartBuilder {
    pub closed spec fn settings_spec(&self) -> BackoffSettings {
        self.settings
    }
}

/// An exponential back-off of `backon` with its settings and the number of
/// delays it has yielded.
pub struct RestartBackoff {
    inner: ExponentialBackoff,
    settings: BackoffSettings,
    drawn: Ghost<nat>,
}

impl RestartBackoff {
    pub closed spec fn settings_spec(&self) -> BackoffSettings {
        self.settings
    }

    pub closed spec fn drawn_spec(&self) -> nat {
        self.drawn@
    }
}

/// `ExponentialBuilder::new`: one second to one minute, three delays, no jitter.
#[verifier::external_body]
pub(crate) fn builder_new() -> (r: RestartBuilder)
    ensures
        r.settings_spec() == (BackoffSettings { min_delay: None, max_delay: None, jitter: false, max_times: Some(3) }),
{
    RestartBuilder {
        inner: ExponentialBuilder::new(),
        settings: BackoffSettings { min_delay: None, max_delay: None, jitter: false, max_times: Some(3) },
    }
}

/// `ExponentialBuilder::with_jitter`: each delay gets a random share of
/// itself added.
#[verifier::external_body]
pub(crate) fn builder_with_jitter(b: RestartBuilder) -> (r: RestartBuilder)
    ensures
        r.settings_spec() == (BackoffSettings { jitter: true, ..b.settings_spec() }),
{
    RestartBuilder { inner: b.inner.with_jitter(), settings: BackoffSettings { jitter: true, ..b.settings } }
}

/// `ExponentialBuilder::with_min_delay`: the first delay.
#[verifier::external_body]
pub(crate) fn builder_with_min_delay(b: RestartBuilder, d: Duration) -> (r: RestartBuilder)
    ensures
        r.settings_spec() == (BackoffSettings { min_delay: Some(d), ..b.settings_spec() }),
{
    RestartBuilder { inner: b.inner.with_min_delay(d), settings: BackoffSettings { min_delay: Some(d), ..b.settings } }
}

/// `ExponentialBuilder::with_max_delay`: the delay stops growing at this.
#[verifier::external_body]
pub(crate) fn builder_with_max_delay(b: RestartBuilder, d: Duration) -> (r: RestartBuilder)
    ensures
        r.settings_spec() == (BackoffSettings { max_delay: Some(d), ..b.settings_spec() }),
{
    RestartBuilder { inner: b.inner.with_max_delay(d), settings: BackoffSettings { max_delay: Some(d), ..b.settings } }
}

/// `ExponentialBuilder::without_max_times`: no limit on the number of delays.
#[verifier::external_body]
pub(crate) fn builder_without_max_times(b: RestartBuilder) -> (r: RestartBuilder)
    ensures
        r.settings_spec() == (BackoffSettings { max_times: None, ..b.settings_spec() }),
{
    RestartBuilder { inner: b.inner.without_max_times(), settings: BackoffSettings { max_times: None, ..b.settings } }
}

/// `BackoffBuilder::build`: a fresh back-off with the builder's settings
/// that has yielded nothing yet (its random source is seeded anew).
#[verifier::external_body]
pub(crate) fn build_backoff(b: RestartBuilder) -> (r: RestartBackoff)
    ensures
        r.settings_spec() == b.settings_spec(),
        r.drawn_spec() == 0,
{
    RestartBackoff { inner: b.inner.build(), settings: b.settings, drawn: Ghost(0) }
}

/// One doubling step of the delay before jitter, as `f32` arithmetic can
/// make it: at least `2x - x/2^20 - 2` and at most `2x + x/2^20 + 2`, held at
/// the maximum `m`.
pub open spec fn step_low(x: int, m: int) -> int {
    let y = 2 * x - x / 1_048_576 - 2;
    if y < m {
        y
    } else {
        m
    }
}

pub open spec fn step_high(x: int, m: int) -> int {
    let y = 2 * x + x / 1_048_576 + 2;
    if y < m {
        y
    } else {
        m
    }
}

/// The least the delay before jitter can be at the `k`-th draw (from 1).
pub open spec fn base_low(s: BackoffSettings, k: nat) -> int
    decreases k,
{
    if k <= 1 {
        min_nanos(s)
    } else {
        step_low(base_low(s, (k - 1) as nat), max_nanos(s))
    }
}

/// The most the delay before jitter can be at the `k`-th draw (from 1).
pub open spec fn base_high(s: BackoffSettings, k: nat) -> int
    decreases k,
{
    if k <= 1 {
        min_nanos(s)
    } else {
        step_high(base_high(s, (k - 1) as nat), max_nanos(s))
    }
}

/// What the `k`-th draw can be: the delay before jitter, plus with jitter
/// less than that delay again (up to `f32` rounding).
pub open spec fn draw_fits(s: BackoffSettings, k: nat, d: int) -> bool {
    &&& base_low(s, k) <= d
    &&& d <= if s.jitter {
        2 * base_high(s, k) + base_high(s, k) / 1_048_576 + 2
    } else {
        base_high(s, k)
    }
}

/// `Iterator::next` of the exponential back-off (no total-delay limit, which
/// no builder call here sets). While tries are left it yields a delay that
/// fits its draw number and counts it; then it yields none. Which delay,
/// within those bounds, rests on a random draw. Delays beyond `u64::MAX`
/// nanoseconds are left out: near the largest `Duration` the jitter's
/// `Duration::mul_f32` can overflow and panic.
#[verifier::external_body]
pub(crate) fn next_backoff(b: &mut RestartBackoff) -> (r: Option<Duration>)
    requires
        min_nanos(old(b).settings_spec()) <= u64::MAX,
        max_nanos(old(b).settings_spec()) <= u64::MAX,
    ensures
        final(b).settings_spec() == old(b).settings_spec(),
        old(b).drawn_spec() < try_limit(old(b).settings_spec()) ==> {
            &&& final(b).drawn_spec() == old(b).drawn_spec() + 1
            &&& r matches Some(d) && draw_fits(
                old(b).settings_spec(),
                final(b).drawn_spec(),
                duration_nanos(d) as int,
            )
        },
        old(b).drawn_spec() >= try_limit(old(b).settings_spec()) ==> final(b).drawn_spec() == old(
            b,
        ).drawn_spec() && r is None,
{
    b.inner.next()
}

/// Before jitter, every delay lies between the first delay and the maximum
/// (when the first is at least three nanoseconds and not above the maximum),
/// and, while doubling stays below the maximum, the next is about twice the
/// last.
pub proof fn lemma_base_within(s: BackoffSettings, k: nat)
    requires
        3 <= min_nanos(s) <= max_nanos(s),
        k >= 1,
    ensures
        min_nanos(s) <= base_low(s, k) <= base_high(s, k) <= max_nanos(s),
        2 * base_low(s, k) - base_low(s, k) / 1_048_576 - 2 < max_nanos(s) ==> base_low(s, k + 1) == 2
            * base_low(s, k) - base_low(s, k) / 1_048_576 - 2,
    decreases k,
{
    if k > 1 {
        lemma_base_within(s, (k - 1) as nat);
    }
}

} // verus!
