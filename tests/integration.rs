use numerical_methods::fixed::{Fixed, SCALE};
use numerical_methods::history::{History, Sample};
use numerical_methods::integrate::{assess, integrate, Verdict};
use numerical_methods::starter::runge_kutta_4;
use numerical_methods::MilneError;

fn fx(v: f64) -> Fixed {
    Fixed::from_raw((v * SCALE as f64).round() as i64).unwrap()
}

fn as_f64(v: Fixed) -> f64 {
    v.raw as f64 / SCALE as f64
}

fn x_plus_y(x: Fixed, y: Fixed) -> Option<Fixed> {
    x.add(y)
}

fn exact(x: f64) -> f64 {
    2.0 * x.exp() - x - 1.0
}

fn exact_seeds(h: f64, n: usize) -> History {
    let samples = (0..n)
        .map(|i| {
            let x = fx(h * i as f64);
            let y = fx(exact(h * i as f64));
            Sample { x, y, y_prime: x.add(y).unwrap() }
        })
        .collect();
    History::from_samples(fx(h), samples).unwrap()
}

#[test]
fn verdicts() {
    let tol = fx(0.00005);
    assert_eq!(assess(fx(0.00001), tol, false), Verdict::Accept);
    assert_eq!(assess(fx(-0.00005), tol, true), Verdict::Accept);
    assert_eq!(assess(fx(-0.0001), tol, false), Verdict::Refine);
    assert_eq!(assess(fx(0.0001), tol, true), Verdict::AcceptWithWarning);
}

#[test]
fn integrates_to_target_without_refinement() {
    let out = integrate(exact_seeds(0.05, 4), fx(0.6), fx(0.00005), false, &x_plus_y).unwrap();
    assert!(!out.refined);
    assert!(!out.tolerance_exceeded);
    assert_eq!(out.seeds, 4);
    let last = out.history.get(out.history.len() - 1);
    assert_eq!(last.x, fx(0.6));
    assert!((as_f64(last.y) - exact(0.6)).abs() < 1e-6);
}

#[test]
fn refines_once_when_tolerance_is_exceeded() {
    let out = integrate(exact_seeds(0.2, 5), fx(2.0), fx(0.0001), false, &x_plus_y).unwrap();
    assert!(out.refined);
    assert_eq!(out.seeds, 4);
    assert_eq!(out.history.step_size(), fx(0.1));
    let last = out.history.get(out.history.len() - 1);
    assert_eq!(last.x, fx(2.0));
    assert!((as_f64(last.y) - exact(2.0)).abs() < 1e-3);
}

#[test]
fn refinement_without_fifth_sample_fails() {
    let r = integrate(exact_seeds(0.2, 4), fx(2.0), fx(0.0001), false, &x_plus_y);
    assert_eq!(r.err(), Some(MilneError::InsufficientHistoryForRefinement));
}

#[test]
fn warns_when_halving_is_not_enough() {
    let out = integrate(exact_seeds(0.2, 5), fx(2.0), fx(0.0000001), false, &x_plus_y).unwrap();
    assert!(out.refined);
    assert!(out.tolerance_exceeded);
    assert_eq!(out.history.get(out.history.len() - 1).x, fx(2.0));
}

#[test]
fn target_before_seeds_takes_no_step() {
    let out = integrate(exact_seeds(0.1, 4), fx(0.35), fx(0.00005), false, &x_plus_y).unwrap();
    assert_eq!(out.history.len(), 4);
    assert!(!out.refined);
}

#[test]
fn runge_kutta_step() {
    let s = runge_kutta_4(Fixed::zero(), fx(1.0), fx(0.1), &x_plus_y).unwrap();
    assert!((as_f64(s.y) - exact(0.1)).abs() < 1e-6);
    assert_eq!(s.k1, fx(1.0));
    assert_eq!(s.k2, fx(1.1));
    // y' = 1 integrates exactly.
    let one = |_x: Fixed, _y: Fixed| Fixed::from_int(1);
    let s = runge_kutta_4(fx(3.0), fx(2.0), fx(0.5), &one).unwrap();
    assert_eq!(s.y, fx(2.5));
    assert_eq!(runge_kutta_4(Fixed::zero(), fx(1.0), Fixed::from_raw(1).unwrap(), &x_plus_y).err(), Some(MilneError::NumericInstability));
}

#[test]
fn strict_run_stops_when_halving_is_not_enough() {
    let r = integrate(exact_seeds(0.2, 5), fx(2.0), fx(0.0000001), true, &x_plus_y);
    assert_eq!(r.err(), Some(MilneError::ToleranceExceededUnrecovered));
    let out = integrate(exact_seeds(0.2, 5), fx(2.0), fx(0.0001), true, &x_plus_y).unwrap();
    assert!(out.refined);
    assert!(!out.tolerance_exceeded);
}

#[test]
fn steps_after_the_seeds_are_milne_steps() {
    let seeds = exact_seeds(0.05, 4);
    let out = integrate(exact_seeds(0.05, 4), fx(0.3), fx(0.00005), false, &x_plus_y).unwrap();
    let mut replay = seeds;
    while replay.len() < out.history.len() {
        numerical_methods::stepper::advance(&mut replay, &x_plus_y).unwrap();
    }
    assert_eq!(replay.samples(), out.history.samples());
}

#[test]
fn runge_kutta_reference_value() {
    let s = runge_kutta_4(Fixed::zero(), fx(1.0), fx(0.1), &x_plus_y).unwrap();
    assert!((as_f64(s.y) - 1.1103416666666667).abs() < 1e-12);
    assert_eq!(s.k3, fx(1.105));
    assert_eq!(s.k4, fx(1.2105));
}

#[test]
fn warnings_name_each_step_out_of_tolerance() {
    let tol = fx(0.0000001);
    let out = integrate(exact_seeds(0.2, 5), fx(2.0), tol, false, &x_plus_y).unwrap();
    assert!(out.tolerance_exceeded);
    assert!(!out.warnings.is_empty());
    let h = out.history.step_size();
    for i in out.seeds..out.history.len() {
        let w = [out.history.get(i - 4), out.history.get(i - 3), out.history.get(i - 2), out.history.get(i - 1)];
        let p = numerical_methods::milne::y_predict(h, w[0].y, w[1].y_prime, w[2].y_prime, w[3].y_prime).unwrap();
        let d = out.history.get(i).y.raw - p.raw;
        assert_eq!(d.abs() > tol.raw, out.warnings.contains(&i));
    }
    let calm = integrate(exact_seeds(0.05, 4), fx(0.6), fx(0.00005), false, &x_plus_y).unwrap();
    assert!(calm.warnings.is_empty());
}
