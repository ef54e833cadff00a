//! Lifespans drawn from actuarial tables: one value per whole year of age,
//! spread over the months of that year, then one trial per month until the
//! first death.
use vstd::prelude::*;

use crate::rng::trial;
use crate::schedule::value_at;

verus! {

/// The year of the table that month `i` of a life falls in, for a life that
/// starts `offset` months into its first year.
pub open spec fn year_of_month(i: int, offset: int) -> int {
    (i + offset) / 12
}

/// Spreads a per-year table over months: the first year's value for the
/// `12 - offset` months left of it, then each later year's value for 12
/// months, `12 * years - offset` entries in all.
pub fn spread_over_months<T: Copy>(annual: &[T], offset: usize) -> (r: Vec<T>)
    requires
        annual@.len() >= 1,
        offset < 12,
        annual@.len() * 12 <= usize::MAX,
    ensures
        r@.len() == 12 * annual@.len() - offset,
        forall|i: int| 0 <= i < r@.len() ==> #[trigger] r@[i] == annual@[year_of_month(i, offset as int)],
{
    let mut months: Vec<T> = Vec::new();
    let mut year: usize = 0;
    while year < annual.len()
        invariant
            0 <= offset < 12,
            year <= annual@.len(),
            annual@.len() * 12 <= usize::MAX,
            year == 0 ==> months@.len() == 0,
            year > 0 ==> months@.len() == 12 * year - offset,
            forall|i: int| 0 <= i < months@.len() ==> #[trigger] months@[i] == annual@[year_of_month(i, offset as int)],
        decreases annual@.len() - year,
    {
        let count: usize = if year == 0 { 12 - offset } else { 12 };
        let ghost first: int = if year == 0 { offset as int } else { 0 };
        let mut j: usize = 0;
        while j < count
            invariant
                0 <= offset < 12,
                year < annual@.len(),
                count == (if year == 0 { 12 - offset } else { 12 }),
                first == (if year == 0 { offset as int } else { 0 }),
                j <= count,
                months@.len() + offset == 12 * year + first + j,
                forall|i: int| 0 <= i < months@.len() ==> #[trigger] months@[i] == annual@[year_of_month(i, offset as int)],
            decreases count - j,
        {
            let ghost m = months@.len() as int;
            assert(year_of_month(m, offset as int) == year) by {
                assert(m + offset == 12 * year + (first + j));
                assert(0 <= first + j < 12);
            }
            months.push(annual[year]);
            j = j + 1;
        }
        year = year + 1;
    }
    months
}

/// Month `i` is the first month not lived through: the person lives through
/// every month before it and not through month `i`.
pub open spec fn dies_at(lived: Seq<bool>, i: int) -> bool {
    &&& 0 <= i < lived.len()
    &&& !lived[i]
    &&& forall|j: int| 0 <= j < i ==> #[trigger] lived[j]
}

/// The first month not lived through, given the outcome of each month's
/// trial in order; none when every month is lived through.
pub fn first_death(lived: &[bool]) -> (r: Option<usize>)
    ensures
        r matches Some(i) ==> dies_at(lived@, i as int),
        r is None <==> forall|j: int| 0 <= j < lived@.len() ==> #[trigger] lived@[j],
{
    let mut i: usize = 0;
    while i < lived.len()
        invariant
            i <= lived@.len(),
            forall|j: int| 0 <= j < i ==> #[trigger] lived@[j],
        decreases lived@.len() - i,
    {
        if !lived[i] {
            return Some(i);
        }
        i = i + 1;
    }
    None
}

/// Draws a lifespan in months: the trial of month `i` (the last trial for
/// every month past the end of the table) decides whether the person lives
/// through it, and the lifespan is the first month that is not lived
/// through. Returns the lifespan and the outcomes of the trials drawn, one
/// per month up to and including the month of death. The drawing stops at
/// `usize::MAX` months, which it then returns with every month lived
/// through; short of that it goes on until the first death.
pub fn calculate_periods(
    rng: &mut rand_pcg::Mcg128Xsl64,
    life_rates: &[rand::distributions::Bernoulli],
) -> (r: (usize, Vec<bool>))
    requires
        life_rates@.len() >= 1,
    ensures
        forall|j: int| 0 <= j < r.0 ==> #[trigger] r.1@[j],
        r.0 < usize::MAX ==> r.1@.len() == r.0 + 1 && dies_at(r.1@, r.0 as int),
        r.0 == usize::MAX ==> r.1@.len() == usize::MAX,
{
    let mut lived: Vec<bool> = Vec::new();
    let mut i: usize = 0;
    while i < usize::MAX
        invariant
            life_rates@.len() >= 1,
            lived@.len() == i,
            forall|j: int| 0 <= j < i ==> #[trigger] lived@[j],
        decreases usize::MAX - i,
    {
        let chance = value_at(life_rates, i);
        let survived = trial(rng, &chance);
        lived.push(survived);
        if !survived {
            return (i, lived);
        }
        i = i + 1;
    }
    (i, lived)
}

} // verus!
