//! How a monthly wage follows from the one before it.
use vstd::prelude::*;

use crate::period::Period;

verus! {

/// Where a month's gross wage comes from.
#[derive(Copy, Clone, Debug, PartialEq, Eq, Structural)]
pub enum WageStep {
    /// The first month earns the starting wage.
    Starting,
    /// A month within a year earns what the month before it earned.
    Unchanged,
    /// The first month of each later year earns the month before's wage with
    /// the raise, indexed to the inflation of the twelve months before it.
    Raise,
}

/// The wage rule of a month. Month 0 starts a year too, but takes the
/// starting wage: the first rule that applies wins.
pub fn wage_step(period: Period) -> (r: WageStep)
    ensures
        r == (if period@ == 0 {
            WageStep::Starting
        } else if period@ % 12 != 0 {
            WageStep::Unchanged
        } else {
            WageStep::Raise
        }),
{
    if period.get() == 0 {
        WageStep::Starting
    } else if !period.is_new_year() {
        WageStep::Unchanged
    } else {
        WageStep::Raise
    }
}

} // verus!
