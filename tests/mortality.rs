use rand::distributions::Bernoulli;
use retirement_sim::mortality::{calculate_periods, first_death, spread_over_months};

fn monthly_survival(annual_death: &[f64], offset: usize) -> Vec<f64> {
    let yearly: Vec<f64> = annual_death.iter().map(|d| (1.0 - d).powf(1.0 / 12.0)).collect();
    spread_over_months(&yearly, offset)
}

fn trials(annual_death: &[f64], offset: usize) -> Vec<Bernoulli> {
    monthly_survival(annual_death, offset).into_iter().map(|p| Bernoulli::new(p).unwrap()).collect()
}

fn assert_vecfloat_absolute(vec1: Vec<f64>, vec2: Vec<f64>) {
    assert_eq!(vec1.len(), vec2.len());
    for (f1, f2) in vec1.iter().zip(vec2) {
        assert!((f1 - f2).abs() <= 1e-6, "{} != {}", f1, f2);
    }
}

#[test]
fn life_expectancy_convertannual_offset0() {
    let ret = monthly_survival(&[0.1, 0.2, 0.3], 0);

    let mut expected = vec![0.9912584; 12];
    expected.extend(vec![0.9815765; 12]);
    expected.extend(vec![0.9707145; 12]);
    assert_vecfloat_absolute(ret, expected);
}

#[test]
fn life_expectancy_convertannual_offset4() {
    let ret = monthly_survival(&[0.05, 0.15, 0.25], 4);

    let mut expected = vec![0.9957347; 8];
    expected.extend(vec![0.9865481; 12]);
    expected.extend(vec![0.9763116; 12]);
    assert_vecfloat_absolute(ret, expected);
}

#[test]
fn person_convertannual_offset0() {
    let ret = monthly_survival(&vec![0.1, 0.2, 0.3], 0);
    assert_eq!(ret.len(), 36);
    assert!((ret[0] - 0.9912584).abs() <= 1e-6);
    assert!((ret[12] - 0.9815765).abs() <= 1e-6);
    assert!((ret[35] - 0.9707145).abs() <= 1e-6);
}

#[test]
fn person_convertannual_offset4() {
    let ret = monthly_survival(&vec![0.05, 0.15, 0.25], 4);
    assert_eq!(ret.len(), 32);
    assert!((ret[7] - 0.9957347).abs() <= 1e-6);
    assert!((ret[8] - 0.9865481).abs() <= 1e-6);
    assert!((ret[31] - 0.9763116).abs() <= 1e-6);
}

#[test]
fn life_expectancy_calculateperiods_regression1() {
    let mut my_rng = rand_pcg::Pcg64Mcg::new(1337);
    let annual_death = vec![0.1, 0.15, 0.2, 0.25, 0.30, 0.35];
    let (ret, _) = calculate_periods(&mut my_rng, &trials(&annual_death, 0));

    // doesn't extend past the end of annual_death vec
    assert_eq!(ret, 60);
}

#[test]
fn life_expectancy_calculateperiods_regression2() {
    let mut my_rng = rand_pcg::Pcg64Mcg::new(17);
    let annual_death = vec![0.2];
    let (ret, _) = calculate_periods(&mut my_rng, &trials(&annual_death, 0));

    // extends past the end of annual_death vec
    assert_eq!(ret, 46);
}

#[test]
fn person_calculateperiods_regression1() {
    let mut my_rng = rand_pcg::Pcg64Mcg::new(1337);
    let annual_death = vec![0.1, 0.15, 0.2, 0.25, 0.30, 0.35];
    assert_eq!(calculate_periods(&mut my_rng, &trials(&annual_death, 0)).0, 60);
}

#[test]
fn person_calculateperiods_regression2() {
    let mut my_rng = rand_pcg::Pcg64Mcg::new(17);
    assert_eq!(calculate_periods(&mut my_rng, &trials(&[0.2], 0)).0, 46);
}

#[test]
fn spread_layout_with_offset() {
    let months = spread_over_months(&[10u32, 20, 30], 5);
    assert_eq!(months.len(), 31);
    assert!(months[..7].iter().all(|&v| v == 10));
    assert!(months[7..19].iter().all(|&v| v == 20));
    assert!(months[19..].iter().all(|&v| v == 30));
}

#[test]
fn spread_single_year_offset_eleven() {
    assert_eq!(spread_over_months(&[7u8], 11), vec![7]);
}

#[test]
fn certain_death_gives_zero_months() {
    let mut rng = rand_pcg::Pcg64Mcg::new(1);
    let none = vec![Bernoulli::new(0.0).unwrap()];
    assert_eq!(calculate_periods(&mut rng, &none), (0, vec![false]));
}

#[test]
fn survival_past_table_uses_last_entry() {
    // sure survival for two months, then sure death
    let mut rng = rand_pcg::Pcg64Mcg::new(1);
    let table = vec![Bernoulli::new(1.0).unwrap(), Bernoulli::new(1.0).unwrap(), Bernoulli::new(0.0).unwrap()];
    assert_eq!(calculate_periods(&mut rng, &table), (2, vec![true, true, false]));
}

#[test]
fn calculate_periods_outcomes_end_at_death() {
    let mut rng = rand_pcg::Pcg64Mcg::new(1337);
    let (months, lived) = calculate_periods(&mut rng, &trials(&[0.1, 0.15, 0.2, 0.25, 0.30, 0.35], 0));
    assert_eq!(months, 60);
    assert_eq!(lived.len(), 61);
    assert_eq!(first_death(&lived), Some(60));
}

#[test]
fn first_death_finds_first_false() {
    assert_eq!(first_death(&[true, true, false, true, false]), Some(2));
    assert_eq!(first_death(&[false]), Some(0));
}

#[test]
fn first_death_none_when_all_lived() {
    assert_eq!(first_death(&[true, true, true]), None);
    assert_eq!(first_death(&[]), None);
}
