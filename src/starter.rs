//! A single-step method that produces the seed samples: classical
//! fourth-order Runge-Kutta.
use vstd::prelude::*;
use crate::error::MilneError;
use crate::fixed::{div_nearest, div_nearest_wide, fits, mul_raw, Fixed};
use crate::stepper::{at, callable, evaluable, evaluates};

verus! {

/// One Runge-Kutta step with the four slopes it used.
#[derive(Clone, Copy, PartialEq, Eq, Structural, Debug)]
pub struct Rk4Step {
    /// Value at `x0 + h`.
    pub y: Fixed,
    pub k1: Fixed,
    pub k2: Fixed,
    pub k3: Fixed,
    pub k4: Fixed,
}

/// `s` is the Runge-Kutta step from `(x0, y0)` of length `h` for `f`:
/// `w_i = h k_i`, `k1 = f(x0, y0)`, `k2 = f(x0 + h/2, y0 + w1/2)`,
/// `k3 = f(x0 + h/2, y0 + w2/2)`, `k4 = f(x0 + h, y0 + w3)` and
/// `y = y0 + (w1 + 2 w2 + 2 w3 + w4) / 6`.
pub open spec fn is_rk4_step<F: Fn(Fixed, Fixed) -> Option<Fixed>>(s: Rk4Step, x0: Fixed, y0: Fixed, h: int, f: F) -> bool {
    let w1 = mul_raw(h, s.k1@);
    let w2 = mul_raw(h, s.k2@);
    let w3 = mul_raw(h, s.k3@);
    let w4 = mul_raw(h, s.k4@);
    &&& h % 2 == 0
    &&& fits(x0@ + h / 2)
    &&& fits(x0@ + h)
    &&& evaluates(f, x0, y0, s.k1)
    &&& evaluates(f, at(x0@ + h / 2), at(y0@ + div_nearest(w1, 2)), s.k2)
    &&& evaluates(f, at(x0@ + h / 2), at(y0@ + div_nearest(w2, 2)), s.k3)
    &&& evaluates(f, at(x0@ + h), at(y0@ + w3), s.k4)
    &&& s.y@ == y0@ + div_nearest(w1 + 2 * w2 + 2 * w3 + w4, 6)
    &&& s.y.wf()
}

/// The last stage cannot fail once `k1`, `k2` and `k3` are known.
pub open spec fn rk4_owed_last<F: Fn(Fixed, Fixed) -> Option<Fixed>>(
    x0: Fixed,
    y0: Fixed,
    h: int,
    f: F,
    k1: Fixed,
    k2: Fixed,
    k3: Fixed,
) -> bool {
    let w1 = mul_raw(h, k1@);
    let w2 = mul_raw(h, k2@);
    let w3 = mul_raw(h, k3@);
    &&& fits(w3)
    &&& fits(y0@ + w3)
    &&& evaluable(f, at(x0@ + h), at(y0@ + w3))
    &&& forall|k4: Fixed| #[trigger] f.ensures((at(x0@ + h), at(y0@ + w3)), Some(k4))
        ==> fits(mul_raw(h, k4@)) && fits(y0@ + div_nearest(w1 + 2 * w2 + 2 * w3 + mul_raw(h, k4@), 6))
}

/// The third stage and after cannot fail once `k1` and `k2` are known.
pub open spec fn rk4_owed_third<F: Fn(Fixed, Fixed) -> Option<Fixed>>(
    x0: Fixed,
    y0: Fixed,
    h: int,
    f: F,
    k1: Fixed,
    k2: Fixed,
) -> bool {
    let w2 = mul_raw(h, k2@);
    &&& fits(w2)
    &&& fits(y0@ + div_nearest(w2, 2))
    &&& evaluable(f, at(x0@ + h / 2), at(y0@ + div_nearest(w2, 2)))
    &&& forall|k3: Fixed| #[trigger] f.ensures((at(x0@ + h / 2), at(y0@ + div_nearest(w2, 2))), Some(k3))
        ==> rk4_owed_last(x0, y0, h, f, k1, k2, k3)
}

/// The second stage and after cannot fail once `k1` is known.
pub open spec fn rk4_owed_second<F: Fn(Fixed, Fixed) -> Option<Fixed>>(x0: Fixed, y0: Fixed, h: int, f: F, k1: Fixed) -> bool {
    let w1 = mul_raw(h, k1@);
    &&& fits(w1)
    &&& fits(y0@ + div_nearest(w1, 2))
    &&& evaluable(f, at(x0@ + h / 2), at(y0@ + div_nearest(w1, 2)))
    &&& forall|k2: Fixed| #[trigger] f.ensures((at(x0@ + h / 2), at(y0@ + div_nearest(w1, 2))), Some(k2))
        ==> rk4_owed_third(x0, y0, h, f, k1, k2)
}

/// Inputs on which a Runge-Kutta step cannot fail: `h` halves exactly, the
/// abscissas are in range, and whatever slopes `f` returns, it is evaluable
/// at each stage and every value computed is in range.
pub open spec fn rk4_owed<F: Fn(Fixed, Fixed) -> Option<Fixed>>(x0: Fixed, y0: Fixed, h: int, f: F) -> bool {
    &&& h % 2 == 0
    &&& fits(x0@ + h / 2)
    &&& fits(x0@ + h)
    &&& evaluable(f, x0, y0)
    &&& forall|k1: Fixed| #[trigger] f.ensures((x0, y0), Some(k1)) ==> rk4_owed_second(x0, y0, h, f, k1)
}

/// Half of a representable raw value, rounded.
fn half_of(v: Fixed) -> (r: Fixed)
    requires
        v.wf(),
    ensures
        r@ == div_nearest(v@, 2),
        r.wf(),
{
    proof {
        crate::fixed::lemma_div_within(2 * v@ + 2, 4);
    }
    Fixed { raw: div_nearest_wide(v.raw as i128, 2) as i64 }
}

/// Slope of `f`, refused unless in range.
fn slope<F: Fn(Fixed, Fixed) -> Option<Fixed>>(f: &F, x: Fixed, y: Fixed) -> (r: Result<Fixed, MilneError>)
    requires
        callable(*f),
    ensures
        r matches Ok(d) ==> evaluates(*f, x, y, d),
        evaluable(*f, x, y) ==> r is Ok,
        r is Err ==> r == Err::<Fixed, MilneError>(MilneError::NumericInstability),
{
    match f(x, y) {
        Some(d) => {
            if d.wf_exec() {
                Ok(d)
            } else {
                Err(MilneError::NumericInstability)
            }
        },
        None => Err(MilneError::NumericInstability),
    }
}

/// One step of the classical Runge-Kutta method from `(x0, y0)` of length
/// `h`. `NumericInstability` when `h` cannot be halved exactly, `f` fails,
/// or a value leaves the range.
pub fn runge_kutta_4<F: Fn(Fixed, Fixed) -> Option<Fixed>>(x0: Fixed, y0: Fixed, h: Fixed, f: &F) -> (r: Result<Rk4Step, MilneError>)
    requires
        x0.wf(),
        y0.wf(),
        h.wf(),
        callable(*f),
    ensures
        r matches Ok(s) ==> is_rk4_step(s, x0, y0, h@, *f),
        r is Err ==> r == Err::<Rk4Step, MilneError>(MilneError::NumericInstability),
        rk4_owed(x0, y0, h@, *f) ==> r is Ok,
{
    let bad = MilneError::NumericInstability;
    let h2 = h.half().ok_or(bad)?;
    let x_mid = x0.add(h2).ok_or(bad)?;
    let x_end = x0.add(h).ok_or(bad)?;
    let k1 = slope(f, x0, y0)?;
    let w1 = h.mul(k1).ok_or(bad)?;
    let y1 = y0.add(half_of(w1)).ok_or(bad)?;
    proof {
        assert(x_mid == at(x0@ + h@ / 2));
        assert(y1 == at(y0@ + div_nearest(w1@, 2)));
    }
    let k2 = slope(f, x_mid, y1)?;
    let w2 = h.mul(k2).ok_or(bad)?;
    let y2 = y0.add(half_of(w2)).ok_or(bad)?;
    proof {
        assert(y2 == at(y0@ + div_nearest(w2@, 2)));
    }
    let k3 = slope(f, x_mid, y2)?;
    let w3 = h.mul(k3).ok_or(bad)?;
    let y3 = y0.add(w3).ok_or(bad)?;
    proof {
        assert(x_end == at(x0@ + h@));
        assert(y3 == at(y0@ + w3@));
    }
    let k4 = slope(f, x_end, y3)?;
    let w4 = h.mul(k4).ok_or(bad)?;
    let sum: i128 = w1.raw as i128 + 2 * (w2.raw as i128) + 2 * (w3.raw as i128) + w4.raw as i128;
    let q = div_nearest_wide(sum, 6);
    proof {
        crate::fixed::lemma_div_within(2 * sum + 6, 12);
    }
    let y = Fixed::from_wide(y0.raw as i128 + q).ok_or(bad)?;
    Ok(Rk4Step { y, k1, k2, k3, k4 })
}

} // verus!
