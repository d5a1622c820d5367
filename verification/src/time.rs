//! Time as whole nanoseconds, and how far along a movement is.
use vstd::prelude::*;

verus! {

/// One millisecond, in nanoseconds.
pub const MILLISECOND: u64 = 1_000_000;

/// One second, in nanoseconds.
pub const SECOND: u64 = 1_000_000_000;

/// How far a movement has come: `elapsed` of `total` nanoseconds. A movement that takes no time
/// is complete, and one past its end is no further than complete.
#[derive(Clone, Copy, PartialEq, Eq, Structural, Debug)]
pub struct Progress {
    pub elapsed: u64,
    pub total: u64,
}

/// The whole number nearest to `a` parts of `b`, the even one of two that are equally near.
pub open spec fn nearest(a: int, b: int) -> int {
    let (whole, rest) = (a / b, a % b);
    if 2 * rest > b || (2 * rest == b && whole % 2 == 1) {
        whole + 1
    } else {
        whole
    }
}

impl Progress {
    /// The nanoseconds that count: never more than the total.
    pub open spec fn done(self) -> int {
        if self.elapsed <= self.total {
            self.elapsed as int
        } else {
            self.total as int
        }
    }

    /// At least `percent` hundredths of the way.
    pub open spec fn at_least(self, percent: int) -> bool {
        self.total == 0 || 100 * self.done() >= percent * self.total
    }

    /// What is left of `duration`, in proportion, to the nearest nanosecond.
    pub open spec fn rest_of(self, duration: int) -> int {
        if self.total == 0 {
            0
        } else {
            nearest(duration * (self.total - self.done()), self.total as int)
        }
    }

    /// Whether the movement is at least `percent` hundredths of the way.
    pub fn reached(&self, percent: u8) -> (r: bool)
        requires
            percent <= 100,
        ensures
            r == self.at_least(percent as int),
    {
        if self.total == 0 {
            return true;
        }
        let done: u64 = if self.elapsed <= self.total {
            self.elapsed
        } else {
            self.total
        };
        assert(0 <= percent * self.total <= 100 * 0xffff_ffff_ffff_ffff) by (nonlinear_arith)
            requires
                0 <= percent <= 100,
                0 <= self.total <= 0xffff_ffff_ffff_ffff,
        ;
        100u128 * done as u128 >= percent as u128 * self.total as u128
    }

    /// What is left of `duration`, in proportion.
    pub fn left_of(&self, duration: u64) -> (r: u64)
        ensures
            r == self.rest_of(duration as int),
            r <= duration,
    {
        if self.total == 0 {
            return 0;
        }
        let done: u64 = if self.elapsed <= self.total {
            self.elapsed
        } else {
            self.total
        };
        let left: u64 = self.total - done;
        proof {
            let d = duration as int;
            let l = left as int;
            let t = self.total as int;
            assert(0 <= d * l <= d * t) by (nonlinear_arith)
                requires
                    0 <= d,
                    0 <= l <= t,
            ;
            assert(d * t <= 0xffff_ffff_ffff_ffff * 0xffff_ffff_ffff_ffff) by (nonlinear_arith)
                requires
                    0 <= d <= 0xffff_ffff_ffff_ffff,
                    0 <= t <= 0xffff_ffff_ffff_ffff,
            ;
            assert((d * l) / t <= d && (d * l) / t >= 0 && 0 <= (d * l) % t < t && ((d * l) % t > 0
                ==> (d * l) / t < d)) by (nonlinear_arith)
                requires
                    0 <= d * l <= d * t,
                    t > 0,
            ;
        }
        let part: u128 = duration as u128 * left as u128;
        let total: u128 = self.total as u128;
        let whole: u64 = (part / total) as u64;
        let rest: u128 = part % total;
        if rest > total - rest || (rest == total - rest && whole % 2 == 1) {
            whole + 1
        } else {
            whole
        }
    }
}

/// Whether a movement is `percent` hundredths of the way only ever turns from no to yes.
pub proof fn progress_never_goes_back(earlier: Progress, later: Progress, percent: int)
    requires
        earlier.total == later.total,
        earlier.elapsed <= later.elapsed,
    ensures
        earlier.at_least(percent) ==> later.at_least(percent),
{
}

/// Nothing is left of a movement at its end, and all of it at its start.
pub proof fn progress_ends_with_nothing_left(total: u64, duration: u64)
    requires
        total > 0,
    ensures
        (Progress { elapsed: total, total }).rest_of(duration as int) == 0,
        (Progress { elapsed: 0, total }).rest_of(duration as int) == duration,
{
    let d = duration as int;
    let t = total as int;
    assert(d * 0 == 0);
    assert((d * t) / t == d && (d * t) % t == 0) by (nonlinear_arith)
        requires
            t > 0,
    ;
}

/// Progress is the time gone by of the time in all: so many hundredths of the way once so many
/// hundredths of the time are gone, complete at the end and past it, and complete at once where there
/// is no time in all.
pub proof fn progress_is_the_share_of_the_time(progress: Progress, percent: int)
    requires
        0 <= percent <= 100,
    ensures
        progress.total == 0 ==> progress.at_least(percent),
        progress.elapsed >= progress.total ==> progress.at_least(percent),
        progress.total > 0 && progress.elapsed <= progress.total ==> (progress.at_least(percent)
            <==> 100 * progress.elapsed >= percent * progress.total),
        progress.elapsed == 0 && progress.total > 0 && percent > 0 ==> !progress.at_least(percent),
{
    let t = progress.total as int;
    assert(percent * t <= 100 * t) by (nonlinear_arith)
        requires
            percent <= 100,
            t >= 0,
    ;
    assert(percent > 0 && t > 0 ==> percent * t > 0) by (nonlinear_arith);
}

/// What is left of a duration is its share of the time not yet gone, to the nearest nanosecond: at
/// most half a nanosecond off, and even where it is exactly half. Nothing is left past the end.
pub proof fn what_is_left_is_in_proportion(progress: Progress, duration: u64)
    requires
        progress.total > 0,
    ensures
        progress.elapsed >= progress.total ==> progress.rest_of(duration as int) == 0,
        progress.elapsed <= progress.total ==> ({
            let exact = duration * (progress.total - progress.elapsed);
            let given = progress.rest_of(duration as int) * progress.total;
            &&& -(progress.total as int) <= 2 * (given - exact) <= progress.total
            &&& 2 * (given - exact) == progress.total || 2 * (exact - given) == progress.total
                ==> progress.rest_of(duration as int) % 2 == 0
        }),
{
    let t = progress.total as int;
    let d = duration as int;
    let part = d * (t - progress.done());
    if progress.elapsed >= progress.total {
        assert(part == 0) by (nonlinear_arith)
            requires
                part == d * (t - progress.done()),
                progress.done() == t,
        ;
        assert(0int / t == 0 && 0int % t == 0) by (nonlinear_arith)
            requires
                t > 0,
        ;
    }
    let whole = part / t;
    let rest = part % t;
    assert(part == whole * t + rest && 0 <= rest < t) by (nonlinear_arith)
        requires
            t > 0,
            whole == part / t,
            rest == part % t,
    ;
    assert((whole + 1) * t == whole * t + t) by (nonlinear_arith);
}

} // verus!
