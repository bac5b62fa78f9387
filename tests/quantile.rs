use var_mc::key::{key_bits, order_key};
use var_mc::quantile::{check_params, value_at_risk, var_index, VarError};
use var_mc::rng::Rng;

const TWO_POW_53: f64 = 9007199254740992.0;

fn raw_rank(alpha: f64, n: usize) -> i64 {
    ((1.0 - alpha) * (n as f64)) as i64
}

fn simulate(seed: u64, n: usize, steps: usize) -> Vec<i64> {
    let (s0, mu, sigma) = (100.0f64, 0.05f64, 0.20f64);
    let dt = ((steps as f64) / 252.0) / (steps as f64);
    let mut rng = Rng::seed(seed);
    let mut keys = Vec::with_capacity(n);
    for _ in 0..n {
        let mut s = s0;
        for _ in 0..steps {
            let (b1, b2) = rng.normal_bits();
            let mut u1 = (b1 as f64) * (1.0 / TWO_POW_53);
            if u1 < 1e-300 {
                u1 = 1e-300;
            }
            let u2 = (b2 as f64) * (1.0 / TWO_POW_53);
            let z = (-2.0 * u1.ln()).sqrt() * (2.0 * std::f64::consts::PI * u2).cos();
            s *= ((mu - 0.5 * sigma * sigma) * dt + sigma * dt.sqrt() * z).exp();
        }
        keys.push(order_key((-(s - s0)).to_bits()));
    }
    keys
}

#[test]
fn zero_trials_or_steps_rejected() {
    assert_eq!(check_params(0, 1), Err(VarError::InvalidArgument));
    assert_eq!(check_params(10, 0), Err(VarError::InvalidArgument));
    assert_eq!(check_params(0, 0), Err(VarError::InvalidArgument));
    assert_eq!(check_params(1, 1), Ok(()));
}

#[test]
fn empty_sample_rejected() {
    for &raw in &[-5i64, 0, 3, i64::MAX] {
        let mut v: Vec<i64> = vec![];
        assert_eq!(value_at_risk(&mut v, raw), Err(VarError::InvalidArgument));
    }
}

#[test]
fn index_clamps_rank() {
    assert_eq!(var_index(1000, 10), 989);
    assert_eq!(var_index(1000, 0), 999);
    assert_eq!(var_index(1000, -3), 999);
    assert_eq!(var_index(1000, 999), 0);
    assert_eq!(var_index(1000, 5000), 0);
    assert_eq!(var_index(1, 0), 0);
}

#[test]
fn reads_order_statistic() {
    let mut v = vec![5, -1, 4, 2, 3];
    assert_eq!(value_at_risk(&mut v, 0), Ok(5));
    assert_eq!(v, vec![-1, 2, 3, 4, 5]);
    let mut v = vec![5, -1, 4, 2, 3];
    assert_eq!(value_at_risk(&mut v, 1), Ok(4));
    let mut v = vec![5, -1, 4, 2, 3];
    assert_eq!(value_at_risk(&mut v, 4), Ok(-1));
    let mut v = vec![5, -1, 4, 2, 3];
    assert_eq!(value_at_risk(&mut v, 40), Ok(-1));
}

#[test]
fn higher_confidence_not_lower() {
    let keys = simulate(2024, 500, 3);
    let mut a = keys.clone();
    let mut b = keys.clone();
    let v99 = value_at_risk(&mut a, raw_rank(0.99, 500)).unwrap();
    let v95 = value_at_risk(&mut b, raw_rank(0.95, 500)).unwrap();
    assert!(v99 >= v95);
}

#[test]
fn extreme_alpha_reads_extreme_loss() {
    let keys = simulate(77, 200, 1);
    let min = *keys.iter().min().unwrap();
    let max = *keys.iter().max().unwrap();
    let mut a = keys.clone();
    assert_eq!(value_at_risk(&mut a, raw_rank(1e-9, 200)), Ok(min));
    let mut b = keys.clone();
    assert_eq!(value_at_risk(&mut b, raw_rank(1.0 - 1e-9, 200)), Ok(max));
}

#[test]
fn concrete_scenario_reproducible() {
    let n = 1000;
    let raw = raw_rank(0.99, n);
    assert_eq!(raw, 10);
    let mut first = simulate(123456789, n, 1);
    let mut second = simulate(123456789, n, 1);
    let r1 = value_at_risk(&mut first, raw).unwrap();
    let r2 = value_at_risk(&mut second, raw).unwrap();
    assert_eq!(r1, r2);
    assert_eq!(r1, first[989]);
    let var = f64::from_bits(key_bits(r1));
    assert!(var.is_finite());
    assert!(var > 0.0 && var < 100.0, "{}", var);
}
