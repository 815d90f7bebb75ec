use numerical_methods::fixed::{Fixed, SCALE};
use numerical_methods::richardson::{
    compare_steps, good_step_size, richardson_error, taylor_series, two_step_error, Derivatives,
};
use numerical_methods::MilneError;

fn fx(v: f64) -> Fixed {
    Fixed::from_raw((v * SCALE as f64).round() as i64).unwrap()
}

fn as_f64(v: Fixed) -> f64 {
    v.raw as f64 / SCALE as f64
}

/// Derivatives of the solutions of y' = x + y.
fn derivatives(x: Fixed, y: Fixed) -> Option<Derivatives> {
    let d1 = x.add(y)?;
    let d2 = d1.add(Fixed::from_int(1)?)?;
    Some(Derivatives { d1, d2, d3: d2, d4: d2 })
}

#[test]
fn taylor_exact_value() {
    let one = Fixed::from_int(1).unwrap();
    let d = Derivatives {
        d1: one,
        d2: Fixed::from_int(2).unwrap(),
        d3: Fixed::from_int(6).unwrap(),
        d4: Fixed::from_int(24).unwrap(),
    };
    assert_eq!(taylor_series(one, Fixed::zero(), Fixed::zero(), d), Some(Fixed::from_int(4).unwrap()));
    assert_eq!(taylor_series(fx(0.5), fx(0.5), fx(7.0), d), Some(fx(7.0)));
}

#[test]
fn taylor_matches_direct_substitution() {
    // y(h) ~= 1 + h + h^2 + h^3/3 + h^4/12 for y' = x + y, y(0) = 1.
    let d = derivatives(Fixed::zero(), fx(1.0)).unwrap();
    let y = taylor_series(fx(0.1), Fixed::zero(), fx(1.0), d).unwrap();
    let h: f64 = 0.1;
    let direct = 1.0 + h + h * h + h.powi(3) / 3.0 + h.powi(4) / 12.0;
    assert!((as_f64(y) - direct).abs() < 1e-11);
}

#[test]
fn richardson_error_values() {
    assert_eq!(richardson_error(fx(1.0), fx(1.15)), Some(fx(0.16)));
    assert_eq!(two_step_error(fx(1.0), fx(1.15)), Some(fx(0.01)));
    assert_eq!(richardson_error(fx(2.0), fx(2.0)), Some(Fixed::zero()));
}

#[test]
fn richardson_error_convergence() {
    let mut h = fx(0.1);
    let mut last = f64::INFINITY;
    for _ in 0..4 {
        let c = compare_steps(Fixed::zero(), fx(1.0), h, &derivatives).unwrap();
        let e = as_f64(c.error_one_step).abs();
        assert!(e < last);
        last = e;
        h = h.half().unwrap();
    }
    let choice = good_step_size(Fixed::zero(), fx(1.0), fx(0.1), fx(0.00005), &derivatives).unwrap();
    assert_eq!(choice.tested, fx(0.1));
    assert_eq!(choice.h, fx(0.05));
    assert!(as_f64(choice.error).abs() < 0.00005);
    assert!(as_f64(choice.error).abs() > 0.0);
}

#[test]
fn step_search_halves_until_tolerance() {
    let choice = good_step_size(Fixed::zero(), fx(1.0), fx(0.1), fx(1e-9), &derivatives).unwrap();
    assert_eq!(choice.tested, fx(0.025));
    assert_eq!(choice.h, fx(0.0125));
    assert!(as_f64(choice.error).abs() <= 1e-9);
}

#[test]
fn comparison_values() {
    let c = compare_steps(Fixed::zero(), fx(1.0), fx(0.1), &derivatives).unwrap();
    let exact = |x: f64| 2.0 * x.exp() - x - 1.0;
    assert!((as_f64(c.one_step) - exact(0.1)).abs() < 1e-6);
    assert!((as_f64(c.half_step) - exact(0.05)).abs() < 1e-8);
    assert!((as_f64(c.two_steps) - exact(0.1)).abs() < 1e-7);
    assert_eq!(c.start, derivatives(Fixed::zero(), fx(1.0)).unwrap());
    assert_eq!(c.middle, derivatives(fx(0.05), c.half_step).unwrap());
}

#[test]
fn odd_step_cannot_be_halved() {
    let h = Fixed::from_raw(7).unwrap();
    assert_eq!(compare_steps(Fixed::zero(), fx(1.0), h, &derivatives).err(), Some(MilneError::NumericInstability));
}

/// The generator of the reference run: x + y for all four derivatives.
fn flat_derivatives(x: Fixed, y: Fixed) -> Option<Derivatives> {
    let d1 = x.add(y)?;
    Some(Derivatives { d1, d2: d1, d3: d1, d4: d1 })
}

#[test]
fn one_step_value_with_flat_derivatives() {
    let c = compare_steps(Fixed::zero(), fx(1.0), fx(0.1), &flat_derivatives).unwrap();
    assert!((as_f64(c.one_step) - 1.1051708333333333).abs() < 1e-11);
    let e = (16.0 / 15.0) * (as_f64(c.two_steps) - as_f64(c.one_step));
    assert!((as_f64(c.error_one_step) - e).abs() < 1e-11);
}

#[test]
fn reference_error_chain_strictly_decreases() {
    let mut h = fx(0.1);
    let mut last = i64::MAX;
    let mut tested = 0;
    while let Ok(c) = compare_steps(Fixed::zero(), fx(1.0), h, &flat_derivatives) {
        let e = c.error_one_step.raw.abs();
        assert!(e < last);
        last = e;
        tested += 1;
        match h.half() {
            Some(v) => h = v,
            None => break,
        }
    }
    assert_eq!(tested, 11);
    assert_eq!(compare_steps(Fixed::zero(), fx(1.0), h, &flat_derivatives).err(), Some(MilneError::NumericInstability));
}

#[test]
fn reference_good_h_search() {
    let choice = good_step_size(Fixed::zero(), fx(1.0), fx(0.1), fx(0.00005), &flat_derivatives).unwrap();
    assert_eq!(choice.tested, fx(0.0125));
    assert_eq!(choice.h, fx(0.00625));
    assert!(as_f64(choice.error).abs() < 0.00005);
    let before = compare_steps(Fixed::zero(), fx(1.0), fx(0.025), &flat_derivatives).unwrap();
    assert!(as_f64(before.error_one_step).abs() >= 0.00005);
}
