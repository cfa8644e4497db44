use vstd::prelude::*;
use vstd::arithmetic::div_mod::{lemma_fundamental_div_mod, lemma_fundamental_div_mod_converse};
use crate::time_window::{spec_day_of, TimeWindow, day_of};

verus! {

/// Day numbers handled by the calendar; slightly wider than the day number
/// of any in-range instant, so a day-by-day scan may step one past the end.
pub const DAY_BOUND: i64 = 121_000_000;

/// A day number within the supported range.
pub open spec fn day_in_range(d: int) -> bool {
    -DAY_BOUND <= d <= DAY_BOUND
}

/// Weekday of a day number, as an index with Monday 0 through Sunday 6.
/// Day 0 of the epoch was a Thursday, hence the offset of 3.
pub open spec fn spec_weekday_index(day: int) -> int {
    (day + 3) % 7
}

/// Weekday index of a day number, as executable code.
pub fn weekday_index(day: i64) -> (w: usize)
    requires
        day_in_range(day as int),
    ensures
        w == spec_weekday_index(day as int),
        w < 7,
{
    let s: i64 = day + 3;
    if s >= 0 {
        let r: u64 = (s as u64) % 7;
        proof {
            lemma_fundamental_div_mod(s as int, 7);
        }
        r as usize
    } else {
        let k: u64 = (-(s + 1)) as u64;
        let r: u64 = k % 7;
        proof {
            lemma_fundamental_div_mod(k as int, 7);
            let qq = k as int / 7;
            let rr = k as int % 7;
            assert(s as int == 7 * (-1 - qq) + (6 - rr));
            lemma_fundamental_div_mod_converse(s as int, 7, -1 - qq, 6 - rr);
        }
        (6 - r) as usize
    }
}

/// The working calendar of a project: which weekdays are worked, which
/// dates are holidays, and how many hours a working day holds.
#[derive(Clone, Debug)]
pub struct ProjectCalendar {
    /// One flag per weekday, indexed Monday 0 through Sunday 6.
    pub working_days: Vec<bool>,
    /// Holiday dates as day numbers, each listed once.
    pub holidays: Vec<i64>,
    /// Hours of work in one working day.
    pub working_hours_per_day: u32,
}

impl ProjectCalendar {
    /// A well-formed calendar has exactly one flag per weekday and lists
    /// each holiday once.
    pub open spec fn wf(self) -> bool {
        &&& self.working_days@.len() == 7
        &&& forall|i: int, j: int|
            0 <= i < j < self.holidays@.len() ==> self.holidays@[i] != self.holidays@[j]
    }

    /// A day is worked iff its weekday is worked and the date is not a
    /// holiday.
    pub open spec fn spec_is_working_day(self, date: i64) -> bool {
        self.working_days@[spec_weekday_index(date as int)] && !self.holidays@.contains(date)
    }

    /// Working days among the day numbers `lo` through `hi`, both included.
    pub open spec fn spec_working_days_in(self, lo: int, hi: int) -> int
        decreases hi - lo + 1,
    {
        if lo > hi {
            0
        } else {
            self.spec_working_days_in(lo, hi - 1) + if self.spec_is_working_day(hi as i64) {
                1int
            } else {
                0int
            }
        }
    }

    /// Working days counted over a window: every date from the window's
    /// first day through its last day, both included.
    pub open spec fn spec_working_days_in_window(self, window: TimeWindow) -> int {
        self.spec_working_days_in(spec_day_of(window.date_start), spec_day_of(window.date_end))
    }

    /// The count over a day range is at least zero and at most the number
    /// of days in the range.
    pub proof fn lemma_working_days_in_bounds(self, lo: int, hi: int)
        ensures
            0 <= self.spec_working_days_in(lo, hi),
            self.spec_working_days_in(lo, hi) <= if lo > hi {
                0
            } else {
                hi - lo + 1
            },
        decreases hi - lo + 1,
    {
        if lo <= hi {
            self.lemma_working_days_in_bounds(lo, hi - 1);
        }
    }

    /// Builds a calendar with the default working week and the given hours
    /// per working day.
    pub fn new(working_hours_per_day: u32) -> (r: ProjectCalendar)
        ensures
            r.wf(),
            r.working_days@ =~= seq![true, true, true, true, true, false, false],
            r.holidays@ =~= Seq::<i64>::empty(),
            r.working_hours_per_day == working_hours_per_day,
    {
        let d = ProjectCalendar::default();
        ProjectCalendar { working_hours_per_day, working_days: d.working_days, holidays: d.holidays }
    }

    /// True iff the date (a day number) is a working day.
    pub fn is_working_day(&self, date: i64) -> (r: bool)
        requires
            self.wf(),
            day_in_range(date as int),
        ensures
            r == self.spec_is_working_day(date),
    {
        let weekday = weekday_index(date);
        self.working_days[weekday] && !contains_day(&self.holidays, date)
    }

    /// Counts the working days in the period, scanning date by date from
    /// the window's first day through its last day, both included.
    pub fn count_working_days(&self, window: &TimeWindow) -> (r: u32)
        requires
            self.wf(),
            window.wf(),
        ensures
            r == self.spec_working_days_in_window(*window),
    {
        let mut count: u32 = 0;
        let mut current: i64 = day_of(window.date_start);
        let end: i64 = day_of(window.date_end);
        proof {
            crate::time_window::lemma_day_of_ordered(window.date_start, window.date_end);
        }

        while current <= end
            invariant
                self.wf(),
                -120_000_000 <= spec_day_of(window.date_start) <= 120_000_000,
                -120_000_000 <= current <= 120_000_001,
                end == spec_day_of(window.date_end),
                -120_000_000 <= end <= 120_000_000,
                current <= end + 1,
                count == self.spec_working_days_in(
                    spec_day_of(window.date_start),
                    current - 1,
                ),
                spec_day_of(window.date_start) <= current,
                count <= current - spec_day_of(window.date_start),
            decreases end - current + 1,
        {
            if self.is_working_day(current) {
                count = count + 1;
            }
            current = current + 1;
        }
        count
    }

    /// Hours of work the calendar yields over the period: the working-day
    /// count times the hours per working day.
    pub fn working_hours_in_period(&self, window: &TimeWindow) -> (r: u64)
        requires
            self.wf(),
            window.wf(),
        ensures
            r == self.spec_working_days_in_window(*window) * self.working_hours_per_day,
    {
        let days = self.count_working_days(window);
        proof {
            crate::time_window::lemma_day_of_bounds(window.date_start);
            crate::time_window::lemma_day_of_bounds(window.date_end);
            self.lemma_working_days_in_bounds(
                spec_day_of(window.date_start),
                spec_day_of(window.date_end),
            );
            assert((days as int) * (self.working_hours_per_day as int)
                <= 240_000_001int * 4_294_967_295int) by (nonlinear_arith)
                requires
                    0 <= days as int <= 240_000_001,
                    0 <= self.working_hours_per_day as int <= 4_294_967_295,
            ;
        }
        (days as u64) * (self.working_hours_per_day as u64)
    }

    /// Records the date as a holiday; adding a date twice changes nothing.
    pub fn add_holiday(&mut self, date: i64)
        requires
            old(self).wf(),
        ensures
            final(self).wf(),
            final(self).working_days@ == old(self).working_days@,
            final(self).working_hours_per_day == old(self).working_hours_per_day,
            forall|d: i64|
                final(self).holidays@.contains(d) <==> old(self).holidays@.contains(d) || d
                    == date,
    {
        if !contains_day(&self.holidays, date) {
            self.holidays.push(date);
            proof {
                assert(forall|d: i64|
                    old(self).holidays@.contains(d) ==> self.holidays@.contains(d)) by {
                    assert(forall|i: int|
                        0 <= i < old(self).holidays@.len() ==> self.holidays@[i] == old(
                            self,
                        ).holidays@[i]);
                }
                assert(self.holidays@.contains(date)) by {
                    assert(self.holidays@[self.holidays@.len() - 1] == date);
                }
            }
        }
    }

    /// Forgets the date as a holiday; removing an unlisted date changes
    /// nothing.
    pub fn remove_holiday(&mut self, date: i64)
        requires
            old(self).wf(),
        ensures
            final(self).wf(),
            final(self).working_days@ == old(self).working_days@,
            final(self).working_hours_per_day == old(self).working_hours_per_day,
            forall|d: i64|
                final(self).holidays@.contains(d) <==> old(self).holidays@.contains(d) && d
                    != date,
    {
        let n = self.holidays.len();
        let mut i: usize = 0;
        while i < n
            invariant
                n == self.holidays@.len(),
                i <= n,
                self.wf(),
                self.working_days@ == old(self).working_days@,
                self.holidays@ == old(self).holidays@,
                self.working_hours_per_day == old(self).working_hours_per_day,
                forall|j: int| 0 <= j < i ==> self.holidays@[j] != date,
            decreases n - i,
        {
            if self.holidays[i] == date {
                self.holidays.remove(i);
                proof {
                    let olds = old(self).holidays@;
                    let news = self.holidays@;
                    assert(forall|j: int| 0 <= j < i ==> news[j] == olds[j]);
                    assert(forall|j: int| i <= j < news.len() ==> news[j] == olds[j + 1]);
                    assert(forall|d: i64| news.contains(d) ==> olds.contains(d) && d != date)
                        by {
                        assert(forall|j: int| 0 <= j < news.len() ==> olds.contains(news[j]))
                            by {
                            assert(forall|j: int|
                                0 <= j < i ==> news[j] == olds[j] && olds.contains(olds[j]));
                            assert(forall|j: int|
                                i <= j < news.len() ==> news[j] == olds[j + 1] && olds.contains(
                                    olds[j + 1],
                                ));
                        }
                        assert(forall|j: int| 0 <= j < news.len() ==> news[j] != date) by {
                            assert(forall|j: int|
                                i <= j < news.len() ==> news[j] == olds[j + 1] && olds[j + 1]
                                    != olds[i as int]);
                        }
                    }
                    assert(forall|d: i64|
                        olds.contains(d) && d != date ==> news.contains(d)) by {
                        assert(forall|j: int|
                            0 <= j < olds.len() && olds[j] != date ==> news.contains(olds[j]))
                            by {
                            assert(forall|j: int|
                                0 <= j < i ==> news[j] == olds[j]);
                            assert(forall|j: int|
                                i < j < olds.len() ==> news[j - 1] == olds[j]);
                        }
                    }
                }
                return ;
            }
            i = i + 1;
        }
    }
}

impl Default for ProjectCalendar {
    /// The default calendar: Monday through Friday worked, no holidays,
    /// eight hours per working day.
    fn default() -> (r: ProjectCalendar)
        ensures
            r.wf(),
            r.working_days@ =~= seq![true, true, true, true, true, false, false],
            r.holidays@ =~= Seq::<i64>::empty(),
            r.working_hours_per_day == 8,
    {
        let mut working_days: Vec<bool> = Vec::new();
        working_days.push(true);
        working_days.push(true);
        working_days.push(true);
        working_days.push(true);
        working_days.push(true);
        working_days.push(false);
        working_days.push(false);
        ProjectCalendar { working_days, holidays: Vec::new(), working_hours_per_day: 8 }
    }
}

/// True iff the day number is listed in the vector.
fn contains_day(v: &Vec<i64>, date: i64) -> (r: bool)
    ensures
        r == v@.contains(date),
{
    let n = v.len();
    let mut i: usize = 0;
    while i < n
        invariant
            n == v@.len(),
            i <= n,
            forall|j: int| 0 <= j < i ==> v@[j] != date,
        decreases n - i,
    {
        if v[i] == date {
            return true;
        }
        i = i + 1;
    }
    false
}

} // verus!
