use retirement_sim::income::{wage_step, WageStep};
use retirement_sim::period::Period;

#[test]
fn wage_step_month_zero_takes_starting_wage() {
    assert_eq!(wage_step(Period::new(0)), WageStep::Starting);
}

#[test]
fn wage_step_raises_each_twelve_months() {
    for t in 1..12 {
        assert_eq!(wage_step(Period::new(t)), WageStep::Unchanged);
    }
    assert_eq!(wage_step(Period::new(12)), WageStep::Raise);
    assert_eq!(wage_step(Period::new(13)), WageStep::Unchanged);
    assert_eq!(wage_step(Period::new(24)), WageStep::Raise);
}
