use vstd::prelude::*;

verus! {

/// A reading of the monotonic clock: nanoseconds from a fixed origin of the process.
#[derive(Debug, Clone, Copy, PartialEq, Eq, Structural)]
pub struct TimePoint {
    pub nanos: u64,
}

impl TimePoint {
    pub fn from_nanos(nanos: u64) -> (r: TimePoint)
        ensures
            r.nanos == nanos,
    {
        TimePoint { nanos }
    }
}

/// Whole microseconds from `earlier` to `later`, negative when `later` comes first,
/// rounded toward zero.
pub open spec fn micros_between(earlier: TimePoint, later: TimePoint) -> int {
    if later.nanos >= earlier.nanos {
        (later.nanos - earlier.nanos) / 1000
    } else {
        -((earlier.nanos - later.nanos) / 1000)
    }
}

/// The duration of a scope opened at `start` and closed at `end`, in microseconds: the
/// closing's offset from `zero` less the opening's, each in whole microseconds, so that the
/// event ends at its start offset plus its duration. Zero should `end` come first.
pub open spec fn duration_micros(zero: TimePoint, start: TimePoint, end: TimePoint) -> int {
    if start.nanos <= end.nanos {
        micros_between(zero, end) - micros_between(zero, start)
    } else {
        0
    }
}

/// Offsets from a fixed origin keep the order of the times they measure.
pub proof fn lemma_offsets_ordered(zero: TimePoint, a: TimePoint, b: TimePoint)
    requires
        a.nanos <= b.nanos,
    ensures
        micros_between(zero, a) <= micros_between(zero, b),
{
    let z = zero.nanos as int;
    let x = a.nanos as int;
    let y = b.nanos as int;
    if x >= z {
        vstd::arithmetic::div_mod::lemma_div_is_ordered(x - z, y - z, 1000);
    } else if y >= z {
        vstd::arithmetic::div_mod::lemma_div_pos_is_pos(y - z, 1000);
        vstd::arithmetic::div_mod::lemma_div_pos_is_pos(z - x, 1000);
    } else {
        vstd::arithmetic::div_mod::lemma_div_is_ordered(z - y, z - x, 1000);
    }
}

/// The signed offset of `later` from `earlier` in microseconds.
pub fn signed_time(earlier: TimePoint, later: TimePoint) -> (r: i128)
    ensures
        r == micros_between(earlier, later),
{
    if later.nanos >= earlier.nanos {
        ((later.nanos - earlier.nanos) / 1000) as i128
    } else {
        -(((earlier.nanos - later.nanos) / 1000) as i128)
    }
}

/// The duration of a scope opened at `start` and closed at `end`, relative to `zero`.
pub fn scope_duration(zero: TimePoint, start: TimePoint, end: TimePoint) -> (r: i128)
    ensures
        r == duration_micros(zero, start, end),
        r >= 0,
{
    if start.nanos <= end.nanos {
        proof {
            lemma_offsets_ordered(zero, start, end);
        }
        signed_time(zero, end) - signed_time(zero, start)
    } else {
        0
    }
}

} // verus!
