//! Months as the unit of simulated time.
use vstd::prelude::*;

verus! {

/// Number of months in a year.
pub const MONTHS_PER_YEAR: usize = 12;

/// A single month of simulated time, counted from month 0.
#[derive(Copy, Clone, Debug)]
pub struct Period {
    period: usize,
}

impl View for Period {
    type V = nat;

    closed spec fn view(&self) -> nat {
        self.period as nat
    }
}

/// First month of the year that holds month `t`.
pub open spec fn year_start(t: nat) -> nat {
    (t - t % 12) as nat
}

impl Period {
    pub fn new(period: usize) -> (r: Period)
        ensures
            r@ == period,
    {
        Period { period }
    }

    pub fn get(&self) -> (r: usize)
        ensures
            r == self@,
    {
        self.period
    }

    /// True on the first month of each year, month 0 included.
    pub fn is_new_year(&self) -> (r: bool)
        ensures
            r == (self@ % 12 == 0),
    {
        self.period % MONTHS_PER_YEAR == 0
    }

    /// The first month of the year before the one that holds this month; none
    /// in the first year. Its twelve months are the ones whose inflation
    /// indexes the current year.
    pub fn prior_year_start(&self) -> (r: Option<Period>)
        ensures
            year_start(self@) == 0 <==> r is None,
            r matches Some(p) ==> p@ + 12 == year_start(self@),
    {
        let start = self.period - (self.period % MONTHS_PER_YEAR);
        if start > 0 {
            Some(Period { period: start - MONTHS_PER_YEAR })
        } else {
            None
        }
    }

    /// The first month of the year that holds this month.
    pub fn round_down_to_year(&self) -> (r: Period)
        ensures
            r@ == year_start(self@),
    {
        Period { period: self.period - (self.period % MONTHS_PER_YEAR) }
    }
}

/// Years start every twelve months from month 0: the start of the year that
/// holds a month is at most eleven months before it, is itself a new year, and
/// a month is a new year exactly when it is the start of its year.
pub proof fn lemma_year_start(t: nat)
    ensures
        year_start(t) <= t < year_start(t) + 12,
        year_start(t) % 12 == 0,
        year_start(year_start(t)) == year_start(t),
        (t % 12 == 0) <==> (year_start(t) == t),
{
}

impl vstd::std_specs::ops::AddSpecImpl<usize> for Period {
    open spec fn obeys_add_spec() -> bool {
        true
    }

    open spec fn add_req(self, rhs: usize) -> bool {
        self@ + rhs <= usize::MAX
    }

    closed spec fn add_spec(self, rhs: usize) -> Period {
        Period { period: (self@ + rhs) as usize }
    }
}

impl core::ops::Add<usize> for Period {
    type Output = Period;

    fn add(self, rhs: usize) -> (r: Period)
        ensures
            r@ == self@ + rhs,
    {
        Period { period: self.period + rhs }
    }
}

impl vstd::std_specs::ops::SubSpecImpl<usize> for Period {
    open spec fn obeys_sub_spec() -> bool {
        true
    }

    open spec fn sub_req(self, rhs: usize) -> bool {
        rhs <= self@
    }

    closed spec fn sub_spec(self, rhs: usize) -> Period {
        Period { period: (self@ - rhs) as usize }
    }
}

impl core::ops::Sub<usize> for Period {
    type Output = Period;

    fn sub(self, rhs: usize) -> (r: Period)
        ensures
            r@ == self@ - rhs,
    {
        Period { period: self.period - rhs }
    }
}

/// A number of months: the length of a life or of a career. Its months are
/// the periods `0 .. periods()`.
#[derive(Copy, Clone, Debug, PartialEq, Eq, PartialOrd, Ord)]
pub struct Lifespan {
    periods: usize,
}

impl View for Lifespan {
    type V = nat;

    closed spec fn view(&self) -> nat {
        self.periods as nat
    }
}

impl Lifespan {
    pub fn new(periods: usize) -> (r: Lifespan)
        ensures
            r@ == periods,
    {
        Lifespan { periods }
    }

    /// A span holds at most `usize::MAX` months.
    pub proof fn lemma_periods_bounded(self)
        ensures
            self@ <= usize::MAX,
    {
    }

    pub fn periods(&self) -> (r: usize)
        ensures
            r == self@,
    {
        self.periods
    }

    pub fn contains(&self, period: Period) -> (r: bool)
        ensures
            r == (period@ < self@),
    {
        period.get() < self.periods
    }

    /// The months of the span, in order.
    pub fn iter(&self) -> (r: Vec<Period>)
        ensures
            r@.len() == self@,
            forall|i: int| 0 <= i < r@.len() ==> #[trigger] r@[i]@ == i,
    {
        let mut months: Vec<Period> = Vec::new();
        let mut i: usize = 0;
        while i < self.periods
            invariant
                i <= self.periods,
                months@.len() == i,
                forall|j: int| 0 <= j < i ==> #[trigger] months@[j]@ == j,
            decreases self.periods - i,
        {
            months.push(Period::new(i));
            i = i + 1;
        }
        months
    }
}

} // verus!
