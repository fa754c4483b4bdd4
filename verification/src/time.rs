//! Points in time as the platform records them: whole seconds since the Unix
//! epoch and the nanoseconds within that second.
use vstd::prelude::*;

verus! {

/// A UTC instant: `secs` whole seconds since 1970-01-01T00:00:00Z and `nanos`
/// nanoseconds into that second (below one second for every instant a clock
/// reports).
#[derive(Clone, Copy, Debug, PartialEq, Eq)]
pub struct Timestamp {
    pub secs: i64,
    pub nanos: u32,
}

/// Nanoseconds per second.
pub const NANOS_PER_SEC: i128 = 1_000_000_000;

impl Timestamp {
    /// Nanoseconds since the epoch.
    pub open spec fn total_nanos(self) -> int {
        self.secs * 1_000_000_000 + self.nanos
    }

    /// `self` is no later than `other`, in the order of `DateTime<Utc>`:
    /// by seconds, then by nanoseconds.
    pub open spec fn not_after(self, other: Timestamp) -> bool {
        self.secs < other.secs || (self.secs == other.secs && self.nanos <= other.nanos)
    }

    /// Decides `not_after`.
    pub fn is_not_after(&self, other: &Timestamp) -> (b: bool)
        ensures
            b == self.not_after(*other),
    {
        self.secs < other.secs || (self.secs == other.secs && self.nanos <= other.nanos)
    }
}

/// `x / d` rounded toward zero.
pub open spec fn div_toward_zero(x: int, d: int) -> int {
    if x >= 0 {
        x / d
    } else {
        -((-x) / d)
    }
}

/// The whole seconds from `then` to `now`, rounded toward zero
/// (`(now - then).num_seconds()`).
pub open spec fn whole_seconds_between(now: Timestamp, then: Timestamp) -> int {
    div_toward_zero(now.total_nanos() - then.total_nanos(), 1_000_000_000)
}

/// `x` limited to the range of `i64`.
pub open spec fn clamp_i64(x: int) -> int {
    if x > i64::MAX {
        i64::MAX as int
    } else if x < i64::MIN {
        i64::MIN as int
    } else {
        x
    }
}

/// Whole seconds elapsed from `then` to `now`, negative when `then` is later.
/// Differences beyond the range of `i64` (which no pair of calendar dates
/// reaches) are limited to that range.
pub fn elapsed_secs(now: Timestamp, then: Timestamp) -> (r: i64)
    ensures
        r == clamp_i64(whole_seconds_between(now, then)),
{
    let a: i128 = (now.secs as i128) * NANOS_PER_SEC + (now.nanos as i128);
    let b: i128 = (then.secs as i128) * NANOS_PER_SEC + (then.nanos as i128);
    let d: i128 = a - b;
    let q: i128 = if d >= 0 {
        ((d as u128) / (NANOS_PER_SEC as u128)) as i128
    } else {
        let m: u128 = (0 - d) as u128;
        0 - ((m / (NANOS_PER_SEC as u128)) as i128)
    };
    if q > i64::MAX as i128 {
        i64::MAX
    } else if q < i64::MIN as i128 {
        i64::MIN
    } else {
        q as i64
    }
}

/// The time between two instants read backwards is the same time negated.
pub proof fn law_elapsed_antisymmetric(a: Timestamp, b: Timestamp)
    ensures
        whole_seconds_between(a, b) == -whole_seconds_between(b, a),
{
}

/// No time has elapsed between an instant and itself, and time measured
/// forward from an earlier instant is never negative.
pub proof fn law_elapsed_forward(now: Timestamp, then: Timestamp)
    requires
        then.not_after(now),
        now.nanos < 1_000_000_000,
        then.nanos < 1_000_000_000,
    ensures
        whole_seconds_between(now, then) >= 0,
        whole_seconds_between(now, now) == 0,
{
    assert(now.total_nanos() - then.total_nanos() >= 0) by (nonlinear_arith)
        requires
            then.not_after(now),
            now.nanos < 1_000_000_000,
            then.nanos < 1_000_000_000,
    ;
}

/// Between instants within a few hundred thousand years of the epoch (all
/// that a calendar date can name) the elapsed seconds are never limited.
pub proof fn law_elapsed_exact_for_calendar_dates(now: Timestamp, then: Timestamp)
    requires
        -1_000_000_000_000_000 <= now.secs <= 1_000_000_000_000_000,
        -1_000_000_000_000_000 <= then.secs <= 1_000_000_000_000_000,
        now.nanos < 1_000_000_000,
        then.nanos < 1_000_000_000,
    ensures
        clamp_i64(whole_seconds_between(now, then)) == whole_seconds_between(now, then),
{
    let d = now.total_nanos() - then.total_nanos();
    assert(-3_000_000_000_000_000_000_000_000 <= d <= 3_000_000_000_000_000_000_000_000) by (nonlinear_arith)
        requires
            d == now.total_nanos() - then.total_nanos(),
            -1_000_000_000_000_000 <= now.secs <= 1_000_000_000_000_000,
            -1_000_000_000_000_000 <= then.secs <= 1_000_000_000_000_000,
            now.nanos < 1_000_000_000,
            then.nanos < 1_000_000_000,
    ;
}

} // verus!
