use retirement_sim::ratio::Ratio;

#[test]
pub fn as_ratio() {
    assert_eq!(Ratio { num: 12, denom: 24 }.as_ratio(), "12/24");
}

#[test]
pub fn as_percent() {
    assert_eq!(Ratio { num: 12, denom: 24 }.as_percent(), "50.0%");
}

#[test]
fn as_ratio_zero_and_large() {
    assert_eq!(Ratio { num: 0, denom: 7 }.as_ratio(), "0/7");
    assert_eq!(Ratio { num: 48, denom: 100 }.as_ratio(), "48/100");
    assert_eq!(Ratio { num: 1234567, denom: 10 }.as_ratio(), "1234567/10");
}

#[test]
fn as_percent_rounds_to_a_tenth() {
    assert_eq!(Ratio { num: 48, denom: 100 }.as_percent(), "48.0%");
    assert_eq!(Ratio { num: 1, denom: 3 }.as_percent(), "33.3%");
    assert_eq!(Ratio { num: 2, denom: 3 }.as_percent(), "66.7%");
    assert_eq!(Ratio { num: 100, denom: 100 }.as_percent(), "100.0%");
    assert_eq!(Ratio { num: 0, denom: 9 }.as_percent(), "0.0%");
    assert_eq!(Ratio { num: 1, denom: 16 }.as_percent(), "6.2%");
    assert_eq!(Ratio { num: 3, denom: 16 }.as_percent(), "18.8%");
}

#[test]
fn as_percent_without_trials() {
    assert_eq!(Ratio { num: 0, denom: 0 }.as_percent(), "NaN%");
    assert_eq!(Ratio { num: 3, denom: 0 }.as_percent(), "inf%");
}
