use vstd::prelude::*;
use vstd::arithmetic::div_mod::{lemma_fundamental_div_mod, lemma_fundamental_div_mod_converse};
use crate::errors::AllocationError;

verus! {

/// Seconds in one calendar day (UTC, without leap seconds).
pub const SECONDS_PER_DAY: i64 = 86_400;

/// Instants are seconds relative to the epoch 1970-01-01T00:00:00Z and must
/// stay within this symmetric bound, which covers every representable
/// calendar date while keeping day arithmetic free of 64-bit overflow.
pub const INSTANT_BOUND: i64 = 10_000_000_000_000;

/// An instant the engine accepts: within [`INSTANT_BOUND`] of the epoch.
pub open spec fn instant_in_range(t: i64) -> bool {
    -INSTANT_BOUND <= t <= INSTANT_BOUND
}

/// Day number of the day holding instant `t`: the floor of `t` divided by
/// the length of a day, so the day starting at the epoch is day 0 and the
/// day before it is day -1.
pub open spec fn spec_day_of(t: i64) -> int {
    t as int / SECONDS_PER_DAY as int
}

/// First instant of day number `d` (midnight, UTC).
pub open spec fn spec_day_start(d: int) -> int {
    d * SECONDS_PER_DAY as int
}

/// Every instant lies between the midnight opening its day and the midnight
/// opening the next one.
pub proof fn lemma_day_bounds(t: i64)
    ensures
        spec_day_start(spec_day_of(t)) <= t < spec_day_start(spec_day_of(t) + 1),
{
    lemma_fundamental_div_mod(t as int, SECONDS_PER_DAY as int);
}

/// The day number of an in-range instant is itself within a small range.
pub proof fn lemma_day_of_bounds(t: i64)
    requires
        instant_in_range(t),
    ensures
        -120_000_000 <= spec_day_of(t) <= 120_000_000,
{
    lemma_fundamental_div_mod(t as int, SECONDS_PER_DAY as int);
}

/// Day numbers grow with the instants they hold: a later instant is never
/// on an earlier day.
pub proof fn lemma_day_of_ordered(t1: i64, t2: i64)
    requires
        t1 <= t2,
    ensures
        spec_day_of(t1) <= spec_day_of(t2),
{
    vstd::arithmetic::div_mod::lemma_div_is_ordered(t1 as int, t2 as int, SECONDS_PER_DAY as int);
}

/// Day number of an instant, as executable code.
pub fn day_of(t: i64) -> (d: i64)
    requires
        instant_in_range(t),
    ensures
        d == spec_day_of(t),
        -120_000_000 <= d <= 120_000_000,
{
    if t >= 0 {
        let q: u64 = (t as u64) / 86_400;
        proof {
            lemma_fundamental_div_mod(t as int, SECONDS_PER_DAY as int);
        }
        q as i64
    } else {
        let k: u64 = (-(t + 1)) as u64;
        let q: u64 = k / 86_400;
        proof {
            lemma_fundamental_div_mod(k as int, SECONDS_PER_DAY as int);
            let qq = k as int / SECONDS_PER_DAY as int;
            let rr = k as int % SECONDS_PER_DAY as int;
            assert(t as int == SECONDS_PER_DAY as int * (-1 - qq) + (SECONDS_PER_DAY as int - 1
                - rr));
            lemma_fundamental_div_mod_converse(
                t as int,
                SECONDS_PER_DAY as int,
                -1 - qq,
                SECONDS_PER_DAY as int - 1 - rr,
            );
        }
        -1 - (q as i64)
    }
}

/// First instant of a day, as executable code.
pub fn day_start(d: i64) -> (t: i64)
    requires
        -INSTANT_BOUND <= d <= INSTANT_BOUND,
    ensures
        t == spec_day_start(d as int),
{
    d * 86_400
}

/// A half-open interval of instants: `date_start` is inside the window,
/// `date_end` is the first instant after it.
#[derive(Clone, Copy, Debug, PartialEq, Eq, Structural)]
pub struct TimeWindow {
    pub date_start: i64,
    pub date_end: i64,
}

impl TimeWindow {
    /// A well-formed window starts before it ends, at instants within the
    /// supported calendar range.
    pub open spec fn wf(self) -> bool {
        &&& instant_in_range(self.date_start)
        &&& instant_in_range(self.date_end)
        &&& self.date_start < self.date_end
    }

    /// Half-open overlap: the windows share at least one instant.
    pub open spec fn spec_overlaps(self, other: TimeWindow) -> bool {
        self.date_start < other.date_end && self.date_end > other.date_start
    }

    /// Half-open membership: `date_start <= t < date_end`.
    pub open spec fn spec_contains(self, t: i64) -> bool {
        self.date_start <= t && t < self.date_end
    }

    /// Builds a window, rejecting exactly the empty and reversed spans.
    pub fn new(date_start: i64, date_end: i64) -> (r: Result<TimeWindow, AllocationError>)
        requires
            date_start < date_end ==> instant_in_range(date_start) && instant_in_range(date_end),
        ensures
            r is Ok <==> date_start < date_end,
            r is Err ==> r == Result::<TimeWindow, AllocationError>::Err(
                AllocationError::InvalidRange,
            ),
            r matches Ok(w) ==> w == (TimeWindow { date_start, date_end }) && w.wf(),
    {
        if date_start >= date_end {
            return Err(AllocationError::InvalidRange);
        }
        Ok(TimeWindow { date_start, date_end })
    }

    /// True iff the two windows share an instant (touching endpoints do not
    /// overlap).
    pub fn overlaps(&self, other: &TimeWindow) -> (r: bool)
        ensures
            r == self.spec_overlaps(*other),
    {
        self.date_start < other.date_end && self.date_end > other.date_start
    }

    /// True iff the instant falls inside the window.
    pub fn contains(&self, t: i64) -> (r: bool)
        ensures
            r == self.spec_contains(t),
    {
        self.date_start <= t && t < self.date_end
    }

    /// Length of the window in whole hours, fractions dropped.
    pub fn duration_hours(&self) -> (r: i64)
        requires
            self.wf(),
        ensures
            r == (self.date_end - self.date_start) / 3600,
    {
        (self.date_end - self.date_start) / 3600
    }

    /// Splits the window at every midnight it crosses.  The pieces tile the
    /// window in order, each piece stays within a single calendar day, and
    /// every piece but the last ends exactly at midnight.
    pub fn split_by_days(&self) -> (r: Vec<TimeWindow>)
        requires
            self.wf(),
        ensures
            r@.len() >= 1,
            r@[0].date_start == self.date_start,
            r@[r@.len() - 1].date_end == self.date_end,
            forall|i: int| 0 <= i < r@.len() ==> (#[trigger] r@[i]).wf(),
            forall|i: int|
                0 <= i < r@.len() - 1 ==> (#[trigger] r@[i]).date_end == r@[i + 1].date_start,
            forall|i: int|
                0 <= i < r@.len() ==> spec_day_of((#[trigger] r@[i]).date_start) == spec_day_of(
                    (r@[i].date_end - 1) as i64,
                ),
            forall|i: int|
                0 <= i < r@.len() - 1 ==> (#[trigger] r@[i]).date_end == spec_day_start(
                    spec_day_of(r@[i].date_start) + 1,
                ),
    {
        let mut result: Vec<TimeWindow> = Vec::new();
        let mut current: i64 = self.date_start;

        while current < self.date_end
            invariant
                self.wf(),
                -INSTANT_BOUND <= current <= INSTANT_BOUND + SECONDS_PER_DAY,
                self.date_start <= current,
                current <= self.date_end,
                result@.len() == 0 ==> current == self.date_start,
                result@.len() > 0 ==> {
                    &&& result@[0].date_start == self.date_start
                    &&& result@[result@.len() - 1].date_end == current
                },
                result@.len() > 0 && current < self.date_end ==> current == spec_day_start(
                    spec_day_of(result@[result@.len() - 1].date_start) + 1,
                ),
                forall|i: int| 0 <= i < result@.len() ==> (#[trigger] result@[i]).wf(),
                forall|i: int|
                    0 <= i < result@.len() - 1 ==> (#[trigger] result@[i]).date_end == result@[i
                        + 1].date_start,
                forall|i: int|
                    0 <= i < result@.len() ==> spec_day_of((#[trigger] result@[i]).date_start)
                        == spec_day_of((result@[i].date_end - 1) as i64),
                forall|i: int|
                    0 <= i < result@.len() - 1 ==> (#[trigger] result@[i]).date_end
                        == spec_day_start(spec_day_of(result@[i].date_start) + 1),
            decreases self.date_end - current,
        {
            let day = day_of(current);
            proof {
                lemma_day_bounds(current);
            }
            let next_day: i64 = day_start(day + 1);
            let day_end: i64 = if next_day < self.date_end {
                next_day
            } else {
                self.date_end
            };
            proof {
                lemma_day_bounds((day_end - 1) as i64);
                lemma_fundamental_div_mod_converse(
                    (day_end - 1) as int,
                    SECONDS_PER_DAY as int,
                    day as int,
                    day_end - 1 - spec_day_start(day as int),
                );
            }
            result.push(TimeWindow { date_start: current, date_end: day_end });
            current = day_end;
        }
        result
    }
}

/// Overlap is symmetric: two windows share an instant no matter which of the
/// two is asked.
pub proof fn lemma_overlaps_symmetric(a: TimeWindow, b: TimeWindow)
    ensures
        a.spec_overlaps(b) == b.spec_overlaps(a),
{
}

/// Windows that meet only at a shared boundary instant do not overlap: the
/// first's end is excluded from it, so nothing is shared.
pub proof fn lemma_adjacent_windows_do_not_overlap(a: TimeWindow, b: TimeWindow)
    requires
        a.date_end <= b.date_start,
    ensures
        !a.spec_overlaps(b),
        !b.spec_overlaps(a),
{
}

} // verus!
