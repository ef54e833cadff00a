use retirement_sim::period::Lifespan;
use rand::distributions::Bernoulli;
use retirement_sim::mortality::first_death;
use retirement_sim::run::{run_seed, sample_life, success_rate, RunAction, RunProgress};
use retirement_sim::sampler::SampleError;
use retirement_sim::withdrawal::WithdrawalStrategyOrig;

/// Steps a life through, with `covered(t)` telling whether the draw of
/// retirement month `t` was covered; returns the steps taken.
fn drive(lifespan: usize, career: usize, covered: impl Fn(usize) -> bool) -> (RunProgress, Vec<String>) {
    let mut progress = RunProgress::new(Lifespan::new(lifespan), Lifespan::new(career));
    let mut steps = Vec::new();
    loop {
        match progress.next_action() {
            RunAction::Work(p) => {
                steps.push(format!("W{}", p.get()));
                progress.worked();
            }
            RunAction::Retire => {
                steps.push("R".to_string());
                progress.retired();
            }
            RunAction::Draw(p) => {
                steps.push(format!("D{}", p.get()));
                progress.drew(covered(p.get()));
            }
            RunAction::Finish => break,
        }
    }
    (progress, steps)
}

#[test]
fn run_adequate_through_death() {
    let (progress, steps) = drive(6, 3, |_| true);
    assert_eq!(steps, vec!["W0", "W1", "W2", "R", "D3", "D4", "D5"]);
    assert_eq!(progress.assets_adequate_periods(), 6);
    assert!(progress.is_success());
}

#[test]
fn run_stops_at_first_shortfall() {
    // the draw of month 4 comes up short
    let (progress, steps) = drive(6, 3, |t| t < 4);
    assert_eq!(steps, vec!["W0", "W1", "W2", "R", "D3", "D4"]);
    assert_eq!(progress.assets_adequate_periods(), 4);
    assert!(!progress.is_success());
}

#[test]
fn run_death_before_retirement() {
    let (progress, steps) = drive(2, 5, |_| false);
    assert_eq!(steps, vec!["W0", "W1", "R"]);
    assert_eq!(progress.assets_adequate_periods(), 2);
    assert!(progress.is_success());
}

#[test]
fn run_retires_in_last_month_of_life() {
    let (progress, steps) = drive(3, 3, |_| false);
    assert_eq!(steps, vec!["W0", "W1", "W2", "R"]);
    assert!(progress.is_success());
}

#[test]
fn run_zero_length_life() {
    let (progress, steps) = drive(0, 1, |_| true);
    assert_eq!(steps, vec!["R"]);
    assert_eq!(progress.assets_adequate_periods(), 0);
    assert!(progress.is_success());
}

#[test]
fn success_rate_counts_full_lives() {
    let runs = vec![drive(6, 3, |_| true).0, drive(6, 3, |t| t < 4).0, drive(2, 5, |_| false).0, drive(8, 2, |t| t != 2).0];
    let ratio = success_rate(&runs);
    assert_eq!(ratio.num, 2);
    assert_eq!(ratio.denom, 4);
    assert_eq!(ratio.as_ratio(), "2/4");
    assert_eq!(ratio.as_percent(), "50.0%");
}

#[test]
fn success_rate_of_no_runs() {
    let ratio = success_rate(&[]);
    assert_eq!(ratio.num, 0);
    assert_eq!(ratio.denom, 0);
}

#[test]
fn run_seeds_follow_the_batch_seed() {
    assert_eq!(run_seed(1337, 100, 0), 133700);
    assert_eq!(run_seed(1337, 100, 99), 133799);
    assert_eq!(run_seed(0, 5, 3), 3);
}

#[test]
fn withdrawal_strategy_builds() {
    let a = WithdrawalStrategyOrig::new();
    let b = a;
    let _ = (a, b);
}

#[test]
fn sample_life_rates_cover_the_lifespan() {
    let trials: Vec<Bernoulli> = vec![Bernoulli::new(0.99).unwrap(); 24];
    let pool: Vec<usize> = (0..30).collect();
    let life = sample_life(42, &trials, &pool, 12).unwrap();
    let months = life.lifespan.periods();
    assert_eq!(life.rates.len(), months);
    assert_eq!(life.lived.len(), months + 1);
    assert_eq!(first_death(&life.lived), Some(months));
    assert!(life.rates.iter().all(|&i| i < 30));

    let again = sample_life(42, &trials, &pool, 12).unwrap();
    assert_eq!(again.lifespan, life.lifespan);
    assert_eq!(again.rates, life.rates);
}

#[test]
fn sample_life_rejects_bad_block() {
    let trials = vec![Bernoulli::new(0.5).unwrap()];
    let pool: Vec<usize> = (0..3).collect();
    assert!(matches!(sample_life(1, &trials, &pool, 0), Err(SampleError::PreconditionViolation)));
    assert!(matches!(sample_life(1, &trials, &pool, 4), Err(SampleError::PreconditionViolation)));
}
