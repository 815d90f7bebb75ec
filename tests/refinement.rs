use numerical_methods::fixed::{Fixed, SCALE};
use numerical_methods::history::{History, Sample};
use numerical_methods::refine::{interp_midpoint, refine};
use numerical_methods::MilneError;

fn fx(v: f64) -> Fixed {
    Fixed::from_raw((v * SCALE as f64).round() as i64).unwrap()
}

fn x_plus_y(x: Fixed, y: Fixed) -> Option<Fixed> {
    x.add(y)
}

fn line(n: usize, h: f64) -> Vec<Sample> {
    (0..n)
        .map(|i| {
            let x = fx(h * i as f64);
            let y = fx(2.0 * h * i as f64 + 1.0);
            Sample { x, y, y_prime: fx(2.0) }
        })
        .collect()
}

#[test]
fn halve_constant_sequence() {
    let five = Fixed::from_int(5).unwrap();
    assert_eq!(interp_midpoint(five, five, five, five), Some(five));
    let c = fx(-1.234567);
    assert_eq!(interp_midpoint(c, c, c, c), Some(c));
}

#[test]
fn midpoint_weights() {
    let one = Fixed::from_int(1).unwrap();
    let z = Fixed::zero();
    assert_eq!(interp_midpoint(one, z, z, z), Some(fx(0.3125)));
    assert_eq!(interp_midpoint(z, one, z, z), Some(fx(0.9375)));
    assert_eq!(interp_midpoint(z, z, one, z), Some(fx(-0.3125)));
    assert_eq!(interp_midpoint(z, z, z, one), Some(fx(0.0625)));
    // exact on cubics: y = x^3 at x = 3, 2, 1, 0 gives y(2.5)
    let v = interp_midpoint(fx(27.0), fx(8.0), fx(1.0), z).unwrap();
    assert_eq!(v, fx(15.625));
}

#[test]
fn refine_builds_half_spaced_history() {
    let hist = History::from_samples(fx(0.1), line(6, 0.1)).unwrap();
    let fresh = refine(&hist, &x_plus_y).unwrap();
    assert_eq!(fresh.step_size(), fx(0.05));
    assert_eq!(fresh.len(), 4);
    assert_eq!(fresh.get(0).x, fx(0.35));
    assert_eq!(fresh.get(0).y, fx(1.7));
    assert_eq!(fresh.get(0).y_prime, fx(2.05));
    assert_eq!(fresh.get(1), hist.get(4));
    assert_eq!(fresh.get(2).x, fx(0.45));
    assert_eq!(fresh.get(2).y, fx(1.9));
    assert_eq!(fresh.get(2).y_prime, fx(2.35));
    assert_eq!(fresh.get(3), hist.get(5));
}

#[test]
fn refine_needs_five_samples() {
    let hist = History::from_samples(fx(0.1), line(4, 0.1)).unwrap();
    assert_eq!(refine(&hist, &x_plus_y).err(), Some(MilneError::InsufficientHistoryForRefinement));
}

#[test]
fn refine_odd_step_is_numeric_instability() {
    let h = Fixed::from_raw(3).unwrap();
    let samples: Vec<Sample> = (0..5)
        .map(|i| Sample { x: Fixed::from_raw(3 * i).unwrap(), y: Fixed::zero(), y_prime: Fixed::zero() })
        .collect();
    let hist = History::from_samples(h, samples).unwrap();
    assert_eq!(refine(&hist, &x_plus_y).err(), Some(MilneError::NumericInstability));
}
