//! Records handed out by the synapse engine.
use vstd::prelude::*;

verus! {

/// The default embedding width.
pub const DEFAULT_DIM: usize = 256;

/// The context of a memory when it was formed, used for re-ranking only.
#[derive(Debug, Clone, Copy, Default, PartialEq, Eq)]
pub struct FormationContext {
    /// Hour of day (0-23), when known.
    pub ctx_tod: Option<i64>,
    /// Day of week (0 = Sunday), when known.
    pub ctx_dow: Option<i64>,
    /// Unix time in seconds, when known.
    pub created_at: Option<i64>,
}

/// The engine's health summary.
#[derive(Debug, Clone, PartialEq, Eq)]
pub struct Health {
    pub model_version: &'static str,
    pub dim: usize,
    pub total: usize,
}

/// The result of indexing a memory: its embedding as little-endian `f32`
/// bytes, and the model that made it.
#[derive(Debug, Clone, PartialEq, Eq)]
pub struct Indexed {
    pub embedding: Vec<u8>,
    pub model_version: &'static str,
    pub dim: usize,
}

/// How loading the index at boot went.
#[derive(Debug, Clone, PartialEq, Eq)]
pub enum LoadOutcome {
    /// This many memories were loaded.
    Loaded(usize),
    /// The store could not be read; the index starts empty.
    Empty(String),
}

/// The distance between `a` and `b` on a cycle of length `period` (0 to
/// `period / 2`): hours on a day, days on a week.
pub open spec fn circular_distance_spec(a: int, b: int, period: int) -> int {
    let d = if a >= b { a - b } else { b - a };
    let raw = d % period;
    if raw <= period - raw {
        raw
    } else {
        period - raw
    }
}

pub fn circular_distance(a: i64, b: i64, period: i64) -> (r: i64)
    requires
        period > 0,
        i64::MIN < a - b <= i64::MAX,
    ensures
        r == circular_distance_spec(a as int, b as int, period as int),
        0 <= r <= period / 2,
{
    let d = if a >= b { a - b } else { b - a };
    let raw = d % period;
    let r = if raw <= period - raw { raw } else { period - raw };
    assert(r <= period / 2) by (nonlinear_arith)
        requires
            0 <= raw < period,
            raw <= period - raw ==> r == raw,
            raw > period - raw ==> r == period - raw,
    ;
    r
}

} // verus!
