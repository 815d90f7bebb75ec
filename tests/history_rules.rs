use numerical_methods::fixed::{Fixed, SCALE};
use numerical_methods::history::{History, Sample};
use numerical_methods::integrate::integrate;
use numerical_methods::stepper::advance;
use numerical_methods::MilneError;

fn fx(v: f64) -> Fixed {
    Fixed::from_raw((v * SCALE as f64).round() as i64).unwrap()
}

fn x_plus_y(x: Fixed, y: Fixed) -> Option<Fixed> {
    x.add(y)
}

fn exact(x: f64) -> f64 {
    2.0 * x.exp() - x - 1.0
}

fn seeds(n: usize, h: f64) -> Vec<Sample> {
    (0..n)
        .map(|i| {
            let x = fx(h * i as f64);
            let y = fx(exact(h * i as f64));
            Sample { x, y, y_prime: x.add(y).unwrap() }
        })
        .collect()
}

#[test]
fn spacing_is_exact_throughout_an_epoch() {
    let mut hist = History::from_samples(fx(0.05), seeds(4, 0.05)).unwrap();
    for _ in 0..20 {
        advance(&mut hist, &x_plus_y).unwrap();
    }
    let h = hist.step_size();
    for i in 0..hist.len() - 1 {
        assert_eq!(hist.get(i + 1).x.raw - hist.get(i).x.raw, h.raw);
    }
}

#[test]
fn short_history_is_rejected() {
    let mut hist = History::from_samples(fx(0.1), seeds(3, 0.1)).unwrap();
    assert_eq!(hist.window(), Err(MilneError::InsufficientHistory));
    assert_eq!(advance(&mut hist, &x_plus_y), Err(MilneError::InsufficientHistory));
    assert_eq!(hist.len(), 3);
    let empty = History::from_samples(fx(0.1), Vec::new()).unwrap();
    assert_eq!(advance(&mut History::from_samples(fx(0.1), Vec::new()).unwrap(), &x_plus_y), Err(MilneError::InsufficientHistory));
    assert_eq!(integrate(empty, fx(1.0), fx(0.00005), false, &x_plus_y).err(), Some(MilneError::InsufficientHistory));
}

#[test]
fn uneven_seeds_are_rejected() {
    let mut s = seeds(4, 0.1);
    s[2].x = fx(0.25);
    assert_eq!(History::from_samples(fx(0.1), s).err(), Some(MilneError::IrregularHistory));
    assert_eq!(History::from_samples(fx(-0.1), seeds(4, 0.1)).err(), Some(MilneError::IrregularHistory));
    assert_eq!(History::from_samples(Fixed::zero(), seeds(1, 0.1)).err(), Some(MilneError::IrregularHistory));
}

#[test]
fn window_names_the_last_four() {
    let s = seeds(6, 0.1);
    let hist = History::from_samples(fx(0.1), s.clone()).unwrap();
    let w = hist.window().unwrap();
    assert_eq!(w.oldest, s[2]);
    assert_eq!(w.second_oldest, s[3]);
    assert_eq!(w.second_newest, s[4]);
    assert_eq!(w.newest, s[5]);
    assert_eq!(hist.samples().len(), 6);
}

#[test]
fn fixed_arithmetic_values() {
    assert_eq!(Fixed::from_ratio(1, 3).unwrap().raw, 333_333_333_333);
    assert_eq!(Fixed::from_ratio(2, 3).unwrap().raw, 666_666_666_667);
    assert_eq!(Fixed::from_ratio(-2, -3).unwrap().raw, 666_666_666_667);
    assert_eq!(Fixed::from_ratio(1, 0), None);
    assert_eq!(fx(1.5).mul(fx(2.0)), Some(fx(3.0)));
    assert_eq!(fx(0.1).half(), Some(fx(0.05)));
    assert_eq!(Fixed::from_raw(3).unwrap().half(), None);
    assert_eq!(Fixed::from_int(1_000_001), None);
    assert_eq!(Fixed::from_raw(i64::MAX), None);
    assert_eq!(fx(-2.5).abs(), fx(2.5));
}
