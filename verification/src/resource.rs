use vstd::prelude::*;
use vstd::arithmetic::div_mod::{
    lemma_div_by_multiple, lemma_fundamental_div_mod, lemma_fundamental_div_mod_converse,
};
use crate::errors::AllocationError;
use crate::ids::fresh_id;
use crate::project_calendar::ProjectCalendar;
use crate::time_window::TimeWindow;

verus! {

/// Full engagement of a resource, in thousandths: an engagement rate of
/// 800 commits eight tenths of the resource's capacity.
pub const FULL_ENGAGEMENT: u32 = 1000;

/// Largest cost rate a resource may carry; every conversion factor applied
/// to it still fits in 64 bits.
pub const MAX_RATE: u64 = 100_000_000_000_000_000;

/// The share of a resource's capacity one allocation consumes, in
/// thousandths of full capacity.
#[derive(Clone, Copy, Debug, PartialEq, Eq, Structural)]
pub struct EngagementRate {
    pub permille: u32,
}

impl EngagementRate {
    /// A valid engagement never exceeds full capacity.
    pub open spec fn wf(self) -> bool {
        self.permille <= FULL_ENGAGEMENT
    }

    /// Builds an engagement rate, rejecting exactly the values beyond full
    /// capacity.
    pub fn new(permille: u32) -> (r: Result<EngagementRate, AllocationError>)
        ensures
            r is Ok <==> permille <= FULL_ENGAGEMENT,
            r matches Ok(e) ==> e == (EngagementRate { permille }) && e.wf(),
            r is Err ==> r == Result::<EngagementRate, AllocationError>::Err(
                AllocationError::InvalidRate,
            ),
    {
        if permille <= FULL_ENGAGEMENT {
            Ok(EngagementRate { permille })
        } else {
            Err(AllocationError::InvalidRate)
        }
    }

    /// The rate in thousandths of full capacity.
    pub fn value(&self) -> (r: u32)
        ensures
            r == self.permille,
    {
        self.permille
    }
}

/// The unit a resource's cost rate is quoted in.
#[derive(Clone, Copy, Debug, PartialEq, Eq, Structural)]
pub enum RateMeasure {
    Daily,
    Hourly,
    Monthly,
}

/// Working hours that one unit of the measure stands for: one hour, an
/// eight-hour day, or a month of twenty-two such days.
pub open spec fn hours_factor(m: RateMeasure) -> int {
    match m {
        RateMeasure::Hourly => 1,
        RateMeasure::Daily => 8,
        RateMeasure::Monthly => 176,
    }
}

/// A rate quoted in `from` re-expressed in `to`: the linear transform
/// scales by the ratio of the measures' hour contents, fractions dropped.
pub open spec fn spec_convert(from: RateMeasure, to: RateMeasure, rate: int) -> int {
    rate * hours_factor(to) / hours_factor(from)
}

impl RateMeasure {
    /// Re-expresses `rate`, quoted in `self`, in the measure `to_measure`.
    pub fn convert(&self, to_measure: RateMeasure, rate: u64) -> (r: u64)
        requires
            rate * hours_factor(to_measure) <= u64::MAX,
        ensures
            r == spec_convert(*self, to_measure, rate as int),
    {
        proof {
            lemma_convert_cases(*self, to_measure, rate as int);
        }
        match self {
            RateMeasure::Daily => match to_measure {
                RateMeasure::Daily => rate,
                RateMeasure::Hourly => rate / 8,
                RateMeasure::Monthly => rate * 22,
            },
            RateMeasure::Hourly => match to_measure {
                RateMeasure::Hourly => rate,
                RateMeasure::Daily => rate * 8,
                RateMeasure::Monthly => rate * 176,
            },
            RateMeasure::Monthly => match to_measure {
                RateMeasure::Daily => rate / 22,
                RateMeasure::Hourly => rate / 176,
                RateMeasure::Monthly => rate,
            },
        }
    }
}

impl Default for RateMeasure {
    /// The base measure: rates are hourly unless quoted otherwise.
    fn default() -> (r: RateMeasure)
        ensures
            r == RateMeasure::Hourly,
    {
        RateMeasure::Hourly
    }
}

/// The conversion formula, reduced to one multiplication or division for
/// every pair of measures.
proof fn lemma_convert_cases(from: RateMeasure, to: RateMeasure, rate: int)
    requires
        0 <= rate,
    ensures
        spec_convert(from, to, rate) == match from {
            RateMeasure::Daily => match to {
                RateMeasure::Daily => rate,
                RateMeasure::Hourly => rate / 8,
                RateMeasure::Monthly => rate * 22,
            },
            RateMeasure::Hourly => match to {
                RateMeasure::Hourly => rate,
                RateMeasure::Daily => rate * 8,
                RateMeasure::Monthly => rate * 176,
            },
            RateMeasure::Monthly => match to {
                RateMeasure::Daily => rate / 22,
                RateMeasure::Hourly => rate / 176,
                RateMeasure::Monthly => rate,
            },
        },
{
    lemma_div_by_one(rate);
    lemma_div_by_one(rate * 1);
    assert(rate * 1 == rate);
    lemma_div_by_multiple(rate, 8);
    lemma_div_by_multiple(rate, 176);
    lemma_div_by_multiple(rate * 22, 8);
    assert(rate * 176 == (rate * 22) * 8) by (nonlinear_arith);
    // Monthly to Daily: dividing rate * 8 by 176 equals dividing rate by 22.
    lemma_fundamental_div_mod(rate, 22);
    let q = rate / 22;
    let s = rate % 22;
    assert(rate * 8 == 176 * q + 8 * s) by (nonlinear_arith)
        requires
            rate == 22 * q + s,
    ;
    lemma_fundamental_div_mod_converse(rate * 8, 176, q, 8 * s);
}

/// Dividing by one changes nothing.
proof fn lemma_div_by_one(x: int)
    ensures
        x / 1 == x,
{
    lemma_fundamental_div_mod_converse(x, 1, x, 0);
}

/// Converting a rate from one measure to another and back returns the rate
/// whenever the first conversion loses no fraction.  A conversion that does
/// lose a fraction (such as one daily unit re-expressed hourly) cannot be
/// undone, so those inputs are excluded.
pub proof fn lemma_convert_round_trip(from: RateMeasure, to: RateMeasure, rate: int)
    requires
        0 <= rate,
        (rate * hours_factor(to)) % hours_factor(from) == 0,
    ensures
        spec_convert(to, from, spec_convert(from, to, rate)) == rate,
{
    let fa = hours_factor(from);
    let fb = hours_factor(to);
    let q = rate * fb / fa;
    lemma_fundamental_div_mod(rate * fb, fa);
    assert(rate * fb == fa * q);
    assert(q * fa == rate * fb) by (nonlinear_arith)
        requires
            rate * fb == fa * q,
    ;
    lemma_div_by_multiple(rate, fb);
    assert((q * fa) / fb == rate) by {
        assert(q * fa == rate * fb);
        assert((rate * fb) / fb == rate);
    }
}

/// Any cycle of conversions that starts and ends at the hourly base measure
/// returns the original rate exactly: scaling up to the base never loses a
/// fraction.
pub proof fn lemma_convert_cycle_from_hourly(m1: RateMeasure, m2: RateMeasure, rate: int)
    requires
        0 <= rate,
    ensures
        spec_convert(
            m2,
            RateMeasure::Hourly,
            spec_convert(m1, m2, spec_convert(RateMeasure::Hourly, m1, rate)),
        ) == rate,
{
    let f1 = hours_factor(m1);
    let f2 = hours_factor(m2);
    lemma_div_by_one(rate * f1);
    let r1 = spec_convert(RateMeasure::Hourly, m1, rate);
    assert(r1 == rate * f1);
    // The second step is exact: f1 divides (rate * f1) * f2.
    let r2 = spec_convert(m1, m2, r1);
    assert((rate * f1) * f2 == f1 * (rate * f2)) by (nonlinear_arith);
    vstd::arithmetic::div_mod::lemma_div_multiples_vanish(rate * f2, f1);
    assert(r2 == rate * f2);
    let r3 = spec_convert(m2, RateMeasure::Hourly, r2);
    assert(rate * f2 * 1 == f2 * rate) by (nonlinear_arith);
    vstd::arithmetic::div_mod::lemma_div_multiples_vanish(rate, f2);
    assert(r3 == rate);
}

/// Why a resource is exceptionally unavailable (or available) for a span.
/// The engine treats every kind as blocking the span.
#[derive(Clone, Copy, Debug, PartialEq, Eq, Structural)]
pub enum ExceptionType {
    Vacation,
    SickLeave,
    PersonalDay,
    Overtime,
}

/// A span during which a resource departs from its calendar.
#[derive(Clone, Copy, Debug, PartialEq, Eq, Structural)]
pub struct ExceptionPeriod {
    pub period: TimeWindow,
    pub exception_type: ExceptionType,
}

/// A named capacity unit with a cost rate and its exception periods.
#[derive(Clone, Debug)]
pub struct Resource {
    /// Stable identifier, drawn at creation.
    pub id: u64,
    pub name: String,
    /// Cost rate, quoted in `rate_measure`; positive.
    pub rate: u64,
    pub rate_measure: RateMeasure,
    /// Spans during which the resource is not available.
    pub unavailable_periods: Vec<ExceptionPeriod>,
}

impl Resource {
    /// A valid resource carries a positive rate small enough for every
    /// measure conversion.
    pub open spec fn wf(self) -> bool {
        1 <= self.rate <= MAX_RATE
    }

    /// Builds a resource with a fresh identifier, rejecting exactly the
    /// rate zero.
    pub fn new(name: String, rate: u64, measure: RateMeasure) -> (r: Result<
        Resource,
        AllocationError,
    >)
        requires
            rate <= MAX_RATE,
        ensures
            r is Ok <==> rate >= 1,
            r matches Ok(res) ==> {
                &&& res.name@ == name@
                &&& res.rate == rate
                &&& res.rate_measure == measure
                &&& res.unavailable_periods@ =~= Seq::<ExceptionPeriod>::empty()
                &&& res.wf()
            },
            r is Err ==> r == Result::<Resource, AllocationError>::Err(
                AllocationError::InvalidRate,
            ),
    {
        if rate == 0 {
            return Err(AllocationError::InvalidRate);
        }
        Ok(
            Resource {
                id: fresh_id(),
                name,
                rate,
                rate_measure: measure,
                unavailable_periods: Vec::new(),
            },
        )
    }

    /// The rate as quoted at creation.
    pub fn get_base_rate(&self) -> (r: u64)
        ensures
            r == self.rate,
    {
        self.rate
    }

    /// The rate re-expressed in another measure.
    pub fn get_converted_rate(&self, to_measure: RateMeasure) -> (r: u64)
        requires
            self.wf(),
        ensures
            r == spec_convert(self.rate_measure, to_measure, self.rate as int),
    {
        self.rate_measure.convert(to_measure, self.rate)
    }

    /// Records one more span during which the resource is unavailable.
    pub fn add_unavailable_period(&mut self, exception_period: ExceptionPeriod)
        ensures
            final(self).unavailable_periods@ == old(self).unavailable_periods@.push(
                exception_period,
            ),
            final(self).id == old(self).id,
            final(self).name@ == old(self).name@,
            final(self).rate == old(self).rate,
            final(self).rate_measure == old(self).rate_measure,
            final(self).wf() == old(self).wf(),
    {
        self.unavailable_periods.push(exception_period);
    }

    /// The resource can work the span iff the calendar yields at least one
    /// working day in it and no exception period overlaps it.
    pub open spec fn spec_is_available(self, period: TimeWindow, calendar: ProjectCalendar) -> bool {
        &&& calendar.spec_working_days_in_window(period) > 0
        &&& forall|i: int|
            0 <= i < self.unavailable_periods@.len() ==> !(#[trigger] self.unavailable_periods@[i])
                .period.spec_overlaps(period)
    }

    /// Answers whether the resource is usable during the span, given the
    /// calendar.  Capacity conflicts are the pool's concern, not checked
    /// here.
    pub fn is_available(&self, period: &TimeWindow, calendar: &ProjectCalendar) -> (r: bool)
        requires
            period.wf(),
            calendar.wf(),
        ensures
            r == self.spec_is_available(*period, *calendar),
    {
        let working_days = calendar.count_working_days(period);
        if working_days == 0 {
            return false;
        }
        let n = self.unavailable_periods.len();
        let mut i: usize = 0;
        while i < n
            invariant
                n == self.unavailable_periods@.len(),
                i <= n,
                forall|j: int|
                    0 <= j < i ==> !(#[trigger] self.unavailable_periods@[j])
                        .period.spec_overlaps(*period),
            decreases n - i,
        {
            if self.unavailable_periods[i].period.overlaps(period) {
                return false;
            }
            i = i + 1;
        }
        true
    }
}

} // verus!
