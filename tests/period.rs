use retirement_sim::period::{Lifespan, Period};

#[test]
pub fn period_sub() {
    let period = Period::new(1);
    let new_period = period - 1;

    assert_eq!(new_period.get(), 0);
}

#[test]
pub fn period_add() {
    let period = Period::new(1);
    let new_period = period + 1;

    assert_eq!(new_period.get(), 2);
}

#[test]
pub fn lifespan_iter() {
    let lifespan = Lifespan::new(10);
    let mut iter = lifespan.iter().into_iter();
    for i in 0..10 {
        assert_eq!(iter.next().unwrap().get(), i);
    }
    assert!(iter.next().is_none());
}

#[test]
pub fn lifespan_max() {
    let lifespan1 = Lifespan::new(10);
    let lifespan2 = Lifespan::new(20);

    assert_eq!(std::cmp::max(lifespan1, lifespan2).periods(), lifespan2.periods());
}

#[test]
fn period_new_year_is_modular_from_month_zero() {
    assert!(Period::new(0).is_new_year());
    assert!(!Period::new(1).is_new_year());
    assert!(!Period::new(11).is_new_year());
    assert!(Period::new(12).is_new_year());
    assert!(Period::new(24).is_new_year());
    assert!(!Period::new(25).is_new_year());
}

#[test]
fn period_round_down_to_year() {
    assert_eq!(Period::new(0).round_down_to_year().get(), 0);
    assert_eq!(Period::new(11).round_down_to_year().get(), 0);
    assert_eq!(Period::new(12).round_down_to_year().get(), 12);
    assert_eq!(Period::new(23).round_down_to_year().get(), 12);
    assert_eq!(Period::new(767).round_down_to_year().get(), 756);
}

#[test]
fn lifespan_contains_is_half_open() {
    let lifespan = Lifespan::new(3);
    assert!(lifespan.contains(Period::new(0)));
    assert!(lifespan.contains(Period::new(2)));
    assert!(!lifespan.contains(Period::new(3)));
    assert!(!Lifespan::new(0).contains(Period::new(0)));
}

#[test]
fn lifespan_iter_empty() {
    assert!(Lifespan::new(0).iter().is_empty());
}

#[test]
fn prior_year_start_of_months() {
    assert!(Period::new(0).prior_year_start().is_none());
    assert!(Period::new(11).prior_year_start().is_none());
    assert_eq!(Period::new(12).prior_year_start().unwrap().get(), 0);
    assert_eq!(Period::new(23).prior_year_start().unwrap().get(), 0);
    assert_eq!(Period::new(30).prior_year_start().unwrap().get(), 12);
}
