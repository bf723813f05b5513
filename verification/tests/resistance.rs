use circuit_theory::rational::Ratio;
use circuit_theory::{CircuitError, Resistance};

/// A whole number of ohms.
fn ohms(n: u64) -> Ratio {
    Ratio::new(n, 1).unwrap()
}

fn ratio(num: u64, den: u64) -> Ratio {
    Ratio::new(num, den).unwrap()
}

#[test]
fn test_resistance_series() {
    let resistance_values = vec![ohms(5), ohms(10)];
    let total_resistance = Resistance::series(resistance_values).unwrap();
    assert_eq!(total_resistance.numer(), 15);
    assert_eq!(total_resistance.denom(), 1);
    assert_eq!(
        total_resistance.numer() as f64 / total_resistance.denom() as f64,
        15.0
    );
}

#[test]
fn test_resistance_parallel() {
    let resistance_values = vec![ohms(5), ohms(20), ohms(8)];
    let total_resistance = Resistance::parallel(resistance_values).unwrap();
    assert!(total_resistance.eq_rat(&ratio(8, 3)));
    assert_eq!(
        total_resistance.numer() as f64 / total_resistance.denom() as f64,
        2.6666666666666665
    );
}

#[test]
fn test_series_empty_is_zero() {
    let total = Resistance::series(vec![]).unwrap();
    assert_eq!(total.numer(), 0);
    assert_eq!(total.denom(), 1);
}

#[test]
fn test_series_fractional_values() {
    let total = Resistance::series(vec![ratio(1, 2), ratio(1, 3)]).unwrap();
    assert!(total.eq_rat(&ratio(5, 6)));
}

#[test]
fn test_series_rejects_zero_value() {
    let err = Resistance::series(vec![ohms(5), ohms(0)]).unwrap_err();
    assert_eq!(err, CircuitError::InvalidInput { index: 1 });
}

#[test]
fn test_series_overflow() {
    let err = Resistance::series(vec![ohms(u64::MAX), ohms(1)]).unwrap_err();
    assert_eq!(err, CircuitError::Overflow);
}

#[test]
fn test_series_is_symmetric() {
    let a = Resistance::series(vec![ohms(5), ohms(10), ohms(20)]).unwrap();
    let b = Resistance::series(vec![ohms(20), ohms(5), ohms(10)]).unwrap();
    assert!(a.eq_rat(&b));
}

#[test]
fn test_parallel_empty_rejected() {
    let err = Resistance::parallel(vec![]).unwrap_err();
    assert_eq!(err, CircuitError::EmptyInput);
}

#[test]
fn test_parallel_single_branch_is_identity() {
    let total = Resistance::parallel(vec![ohms(10)]).unwrap();
    assert_eq!(total.numer(), 10);
    assert_eq!(total.denom(), 1);
    assert_eq!(total.numer() as f64 / total.denom() as f64, 10.0);
    let seven = Resistance::parallel(vec![ratio(7, 2)]).unwrap();
    assert!(seven.eq_rat(&ratio(7, 2)));
}

#[test]
fn test_parallel_rejects_zero_branch() {
    let err = Resistance::parallel(vec![ohms(0), ohms(5)]).unwrap_err();
    assert_eq!(err, CircuitError::InvalidInput { index: 0 });
}

#[test]
fn test_parallel_overflow() {
    let err = Resistance::parallel(vec![ratio(1, u64::MAX), ratio(1, u64::MAX)]).unwrap_err();
    assert_eq!(err, CircuitError::Overflow);
}

#[test]
fn test_parallel_at_most_smallest_branch() {
    let total = Resistance::parallel(vec![ohms(5), ohms(20), ohms(8)]).unwrap();
    assert!(total.le_rat(&ohms(5)));
    assert!(total.le_rat(&ohms(8)));
    assert!(total.le_rat(&ohms(20)));
}

#[test]
fn test_parallel_is_symmetric() {
    let a = Resistance::parallel(vec![ohms(5), ohms(20), ohms(8)]).unwrap();
    let b = Resistance::parallel(vec![ohms(8), ohms(5), ohms(20)]).unwrap();
    assert!(a.eq_rat(&b));
}

#[test]
fn test_ratio_new_rejects_zero_denominator() {
    assert!(Ratio::new(1, 0).is_none());
    assert!(Ratio::new(0, 0).is_none());
}

#[test]
fn test_ratio_accessors() {
    let r = ratio(3, 4);
    assert_eq!(r.numer(), 3);
    assert_eq!(r.denom(), 4);
    let z = Ratio::zero();
    assert_eq!(z.numer(), 0);
    assert_eq!(z.denom(), 1);
}

#[test]
fn test_ratio_eq_rat_is_value_equality() {
    assert!(ratio(2, 4).eq_rat(&ratio(1, 2)));
    assert!(!ratio(1, 3).eq_rat(&ratio(1, 2)));
}

#[test]
fn test_ratio_le_rat_is_value_order() {
    assert!(ratio(1, 2).le_rat(&ratio(2, 3)));
    assert!(!ratio(2, 3).le_rat(&ratio(1, 2)));
    assert!(ratio(3, 6).le_rat(&ratio(1, 2)));
}
