//! Choosing an initial step size: a Taylor step of length `h` against two
//! of length `h/2`, with Richardson's error estimate.
use vstd::prelude::*;
use vstd::math::abs;
use crate::error::MilneError;
use crate::fixed::{div_nearest, div_nearest_wide, fits, lift, mul_raw, Fixed, SCALE};
use crate::stepper::at;

verus! {

/// The first four derivatives of `y` at a point.
#[derive(Clone, Copy, PartialEq, Eq, Structural, Debug)]
pub struct Derivatives {
    pub d1: Fixed,
    pub d2: Fixed,
    pub d3: Fixed,
    pub d4: Fixed,
}

impl Derivatives {
    pub open spec fn wf(self) -> bool {
        self.d1.wf() && self.d2.wf() && self.d3.wf() && self.d4.wf()
    }
}

/// Raw value of the five-term Taylor polynomial
/// `y0 + t d1 + t^2 d2 / 2 + t^3 d3 / 6 + t^4 d4 / 24`, where the powers of
/// `t` are rounded products and each term is rounded once.
pub open spec fn taylor_raw(t: int, y0: int, d: Derivatives) -> int {
    let t2 = mul_raw(t, t);
    let t3 = mul_raw(t2, t);
    let t4 = mul_raw(t3, t);
    y0 + mul_raw(t, d.d1@) + div_nearest(t2 * d.d2@, 2 * SCALE) + div_nearest(t3 * d.d3@, 6 * SCALE)
        + div_nearest(t4 * d.d4@, 24 * SCALE)
}

/// The powers of `t` that the polynomial multiplies are in range.
pub open spec fn powers_fit(t: int) -> bool {
    let t2 = mul_raw(t, t);
    let t3 = mul_raw(t2, t);
    fits(t) && fits(t2) && fits(t3) && fits(mul_raw(t3, t))
}

/// The Taylor polynomial about `x0` with value `y0` and derivatives `d`,
/// evaluated at `x`; `None` when a power of `x - x0` or the result is out
/// of range.
pub fn taylor_series(x: Fixed, x0: Fixed, y0: Fixed, d: Derivatives) -> (r: Option<Fixed>)
    requires
        x.wf(),
        x0.wf(),
        y0.wf(),
        d.wf(),
    ensures
        r == (if powers_fit(x@ - x0@) { lift(taylor_raw(x@ - x0@, y0@, d)) } else { None }),
{
    let t = x.sub(x0)?;
    let t2 = t.mul(t)?;
    let t3 = t2.mul(t)?;
    let t4 = t3.mul(t)?;
    let a = term(t, d.d1, 1);
    let b = term(t2, d.d2, 2);
    let c = term(t3, d.d3, 6);
    let e = term(t4, d.d4, 24);
    proof {
        assert(mul_raw(t@, d.d1@) == div_nearest(t@ * d.d1@, 1 * SCALE));
    }
    Fixed::from_wide(y0.raw as i128 + a + b + c + e)
}

/// Raw `p * q / (k * SCALE)`, rounded once.
fn term(p: Fixed, q: Fixed, k: i128) -> (r: i128)
    requires
        p.wf(),
        q.wf(),
        1 <= k <= 24,
    ensures
        r == div_nearest(p@ * q@, k * SCALE),
        -2_000_000_000_000_000_000_000_000int <= r <= 2_000_000_000_000_000_000_000_000int,
{
    let a = p.raw as i128;
    let b = q.raw as i128;
    assert(-1_000_000_000_000_000_000_000_000_000_000_000_000int <= a * b
        <= 1_000_000_000_000_000_000_000_000_000_000_000_000int) by (nonlinear_arith)
        requires
            -1_000_000_000_000_000_000int <= a <= 1_000_000_000_000_000_000int,
            -1_000_000_000_000_000_000int <= b <= 1_000_000_000_000_000_000int,
    ;
    let r = div_nearest_wide(a * b, k * SCALE as i128);
    proof {
        let n = 2 * (a * b) + k * SCALE;
        let m = 2 * (k * SCALE);
        crate::fixed::lemma_div_within(n, m);
        lemma_quotient_bound(n, m);
    }
    r
}

/// Dividing by at least two trillion shrinks a wide value below `2 * 10^24`.
proof fn lemma_quotient_bound(n: int, m: int)
    requires
        m >= 2_000_000_000_000,
        abs(n) <= 3_000_000_000_000_000_000_000_000_000_000_000_000int,
    ensures
        -2_000_000_000_000_000_000_000_000int <= n / m <= 2_000_000_000_000_000_000_000_000int,
{
    vstd::arithmetic::div_mod::lemma_fundamental_div_mod(n, m);
    let q = n / m;
    let rem = n % m;
    let b = 2_000_000_000_000_000_000_000_000int;
    assert(0 <= rem < m);
    if q > b {
        assert(m * q >= m * (b + 1)) by (nonlinear_arith)
            requires
                q >= b + 1,
                m > 0,
        ;
        assert(m * (b + 1) >= 2_000_000_000_000 * (b + 1)) by (nonlinear_arith)
            requires
                m >= 2_000_000_000_000,
                b > 0,
        ;
    }
    if q < -b {
        assert(m * q <= m * (-b - 1)) by (nonlinear_arith)
            requires
                q <= -b - 1,
                m > 0,
        ;
        assert(m * (-b - 1) <= 2_000_000_000_000 * (-b - 1)) by (nonlinear_arith)
            requires
                m >= 2_000_000_000_000,
                b > 0,
        ;
    }
}

/// Raw Richardson estimate of the error of the one-step value:
/// `(16 / 15) * (two - one)`.
pub open spec fn richardson_raw(one: int, two: int) -> int {
    div_nearest(16 * (two - one), 15)
}

/// Raw estimate of the error of the two-step value: `(two - one) / 15`.
pub open spec fn two_step_error_raw(one: int, two: int) -> int {
    div_nearest(two - one, 15)
}

/// The error of a single step of length `h`, estimated from its value
/// `one_step` and the value `two_steps` reached by two steps of `h/2`.
pub fn richardson_error(one_step: Fixed, two_steps: Fixed) -> (r: Option<Fixed>)
    requires
        one_step.wf(),
        two_steps.wf(),
    ensures
        r == lift(richardson_raw(one_step@, two_steps@)),
{
    let diff = two_steps.raw as i128 - one_step.raw as i128;
    let q = div_nearest_wide(16 * diff, 15);
    proof {
        crate::fixed::lemma_div_within(2 * (16 * diff) + 15, 30);
    }
    Fixed::from_wide(q)
}

/// The error of the two half steps, estimated the same way.
pub fn two_step_error(one_step: Fixed, two_steps: Fixed) -> (r: Option<Fixed>)
    requires
        one_step.wf(),
        two_steps.wf(),
    ensures
        r == lift(two_step_error_raw(one_step@, two_steps@)),
{
    let diff = two_steps.raw as i128 - one_step.raw as i128;
    let q = div_nearest_wide(diff, 15);
    proof {
        crate::fixed::lemma_div_within(2 * diff + 15, 30);
    }
    Fixed::from_wide(q)
}

/// The Taylor value at offset `t`, when every quantity is in range.
pub open spec fn taylor_at(t: int, y0: int, d: Derivatives) -> Option<Fixed> {
    if powers_fit(t) {
        lift(taylor_raw(t, y0, d))
    } else {
        None
    }
}

/// `d` is a value that `g` may return at `(x, y)`, and it is in range.
pub open spec fn derivatives_at<G: Fn(Fixed, Fixed) -> Option<Derivatives>>(g: G, x: Fixed, y: Fixed, d: Derivatives) -> bool {
    g.ensures((x, y), Some(d)) && d.wf()
}

/// `g` may be called anywhere.
pub open spec fn generator_callable<G: Fn(Fixed, Fixed) -> Option<Derivatives>>(g: G) -> bool {
    forall|x: Fixed, y: Fixed| #[trigger] g.requires((x, y))
}

/// Every value that `g` may return at `(x, y)` is a set of derivatives in range.
pub open spec fn generator_evaluable<G: Fn(Fixed, Fixed) -> Option<Derivatives>>(g: G, x: Fixed, y: Fixed) -> bool {
    forall|r: Option<Derivatives>| #[trigger] g.ensures((x, y), r) ==> (r matches Some(d) && d.wf())
}

/// The rest of a comparison cannot fail once the derivatives `d` at the
/// start are known.
pub open spec fn compare_owed_after<G: Fn(Fixed, Fixed) -> Option<Derivatives>>(
    x0: Fixed,
    y0: Fixed,
    h: int,
    g: G,
    d: Derivatives,
) -> bool {
    let half_step = taylor_at(h / 2, y0@, d);
    let one_step = taylor_at(h, y0@, d);
    &&& half_step is Some
    &&& one_step is Some
    &&& generator_evaluable(g, at(x0@ + h / 2), half_step->0)
    &&& forall|e: Derivatives| #[trigger] g.ensures((at(x0@ + h / 2), half_step->0), Some(e)) ==> {
        let two_steps = taylor_at(h / 2, half_step->0@, e);
        &&& two_steps is Some
        &&& fits(richardson_raw(one_step->0@, two_steps->0@))
        &&& fits(two_step_error_raw(one_step->0@, two_steps->0@))
    }
}

/// Inputs on which a comparison cannot fail: `h` halves exactly, the
/// abscissas are in range, and whatever derivatives `g` returns, they are in
/// range and every value computed is in range.
pub open spec fn compare_owed<G: Fn(Fixed, Fixed) -> Option<Derivatives>>(x0: Fixed, y0: Fixed, h: int, g: G) -> bool {
    &&& h % 2 == 0
    &&& fits(x0@ + h / 2)
    &&& fits(x0@ + h)
    &&& generator_evaluable(g, x0, y0)
    &&& forall|d: Derivatives| #[trigger] g.ensures((x0, y0), Some(d)) ==> compare_owed_after(x0, y0, h, g, d)
}

/// One Taylor step of length `h` from `(x0, y0)` against two of length `h/2`.
#[derive(Clone, Copy, PartialEq, Eq, Structural, Debug)]
pub struct StepComparison {
    /// Value at `x0 + h` by one step.
    pub one_step: Fixed,
    /// Value at `x0 + h/2`.
    pub half_step: Fixed,
    /// Value at `x0 + h` by two steps.
    pub two_steps: Fixed,
    /// Estimated error of `one_step`.
    pub error_one_step: Fixed,
    /// Estimated error of `two_steps`.
    pub error_two_steps: Fixed,
    /// Derivatives used at `x0`.
    pub start: Derivatives,
    /// Derivatives used at `x0 + h/2`.
    pub middle: Derivatives,
}

/// `c` is the comparison at `(x0, y0)` with step `h` and derivatives `g`.
#[verifier::opaque]
pub open spec fn is_comparison<G: Fn(Fixed, Fixed) -> Option<Derivatives>>(
    c: StepComparison,
    x0: Fixed,
    y0: Fixed,
    h: int,
    g: G,
) -> bool {
    &&& h % 2 == 0
    &&& fits(x0@ + h / 2)
    &&& fits(x0@ + h)
    &&& derivatives_at(g, x0, y0, c.start)
    &&& Some(c.half_step) == taylor_at(h / 2, y0@, c.start)
    &&& Some(c.one_step) == taylor_at(h, y0@, c.start)
    &&& derivatives_at(g, Fixed { raw: (x0@ + h / 2) as i64 }, c.half_step, c.middle)
    &&& Some(c.two_steps) == taylor_at(h / 2, c.half_step@, c.middle)
    &&& Some(c.error_one_step) == lift(richardson_raw(c.one_step@, c.two_steps@))
    &&& Some(c.error_two_steps) == lift(two_step_error_raw(c.one_step@, c.two_steps@))
}

/// Computes `y(x0 + h)` by one Taylor step and by two of half the length,
/// with the error estimates of both. `NumericInstability` when `h` cannot be
/// halved exactly, `g` fails, or a value leaves the range.
pub fn compare_steps<G: Fn(Fixed, Fixed) -> Option<Derivatives>>(x0: Fixed, y0: Fixed, h: Fixed, g: &G) -> (r: Result<StepComparison, MilneError>)
    requires
        x0.wf(),
        y0.wf(),
        h.wf(),
        generator_callable(*g),
    ensures
        r matches Ok(c) ==> is_comparison(c, x0, y0, h@, *g),
        r matches Ok(c) ==> h@ % 2 == 0 && c.error_one_step.wf() && c.error_two_steps.wf(),
        r is Err ==> r == Err::<StepComparison, MilneError>(MilneError::NumericInstability),
        compare_owed(x0, y0, h@, *g) ==> r is Ok,
{
    proof {
        reveal(is_comparison);
    }
    let bad = MilneError::NumericInstability;
    let half = h.half().ok_or(bad)?;
    let start = g(x0, y0).ok_or(bad)?;
    if !(start.d1.wf_exec() && start.d2.wf_exec() && start.d3.wf_exec() && start.d4.wf_exec()) {
        return Err(bad);
    }
    let x_mid = x0.add(half).ok_or(bad)?;
    let x_end = x0.add(h).ok_or(bad)?;
    let half_step = taylor_series(x_mid, x0, y0, start).ok_or(bad)?;
    let one_step = taylor_series(x_end, x0, y0, start).ok_or(bad)?;
    proof {
        assert(x_mid == at(x0@ + h@ / 2));
    }
    let middle = g(x_mid, half_step).ok_or(bad)?;
    if !(middle.d1.wf_exec() && middle.d2.wf_exec() && middle.d3.wf_exec() && middle.d4.wf_exec()) {
        return Err(bad);
    }
    let x_end2 = x_mid.add(half).ok_or(bad)?;
    let two_steps = taylor_series(x_end2, x_mid, half_step, middle).ok_or(bad)?;
    let error_one_step = richardson_error(one_step, two_steps).ok_or(bad)?;
    let error_two_steps = two_step_error(one_step, two_steps).ok_or(bad)?;
    Ok(StepComparison { one_step, half_step, two_steps, error_one_step, error_two_steps, start, middle })
}

/// `h` halved `k` times.
pub open spec fn halved(h: int, k: nat) -> int
    decreases k,
{
    if k == 0 {
        h
    } else {
        halved(h, (k - 1) as nat) / 2
    }
}

/// The search tried the step sizes `h`, `h/2`, ... before the `k`-th
/// halving, and each gave a one-step error above `max_err` in magnitude.
pub open spec fn rejected_before<G: Fn(Fixed, Fixed) -> Option<Derivatives>>(
    x0: Fixed,
    y0: Fixed,
    h: int,
    max_err: int,
    g: G,
    k: nat,
) -> bool {
    forall|j: nat| j < k ==> rejected_at(x0, y0, #[trigger] halved(h, j), max_err, g)
}

/// The comparison at step size `t` gave a one-step error above `max_err`
/// in magnitude.
pub open spec fn rejected_at<G: Fn(Fixed, Fixed) -> Option<Derivatives>>(x0: Fixed, y0: Fixed, t: int, max_err: int, g: G) -> bool {
    exists|cmp: StepComparison| #[trigger] is_comparison(cmp, x0, y0, t, g) && abs(cmp.error_one_step@) > max_err
}

/// The outcome of the step-size search.
#[derive(Clone, Copy, PartialEq, Eq, Structural, Debug)]
pub struct StepChoice {
    /// The step size to start the integration with: half of `tested`.
    pub h: Fixed,
    /// The first step size whose estimated one-step error was within tolerance.
    pub tested: Fixed,
    /// That estimated error.
    pub error: Fixed,
}

/// Halves `h` until the estimated error of one Taylor step from
/// `(x0, y0)` is at most `max_err` in magnitude, then hands on half of
/// that step size.
pub fn good_step_size<G: Fn(Fixed, Fixed) -> Option<Derivatives>>(
    x0: Fixed,
    y0: Fixed,
    h: Fixed,
    max_err: Fixed,
    g: &G,
) -> (r: Result<StepChoice, MilneError>)
    requires
        x0.wf(),
        y0.wf(),
        h.wf(),
        h@ > 0,
        generator_callable(*g),
    ensures
        r is Err ==> r == Err::<StepChoice, MilneError>(MilneError::NumericInstability),
        r matches Ok(c) ==> {
            &&& 0 < c.tested@ <= h@
            &&& c.h@ * 2 == c.tested@
            &&& abs(c.error@) <= max_err@
            &&& exists|cmp: StepComparison| #[trigger] is_comparison(cmp, x0, y0, c.tested@, *g)
                && cmp.error_one_step == c.error
            &&& c.tested@ < h@ ==> exists|prev: StepComparison|
                #[trigger] is_comparison(prev, x0, y0, 2 * c.tested@, *g) && abs(prev.error_one_step@) > max_err@
            &&& exists|k: nat| halved(h@, k) == c.tested@ && #[trigger] rejected_before(x0, y0, h@, max_err@, *g, k)
        },
        r is Err ==> exists|k: nat| #[trigger] rejected_before(x0, y0, h@, max_err@, *g, k)
            && !compare_owed(x0, y0, halved(h@, k), *g),
{
    let mut cur = h;
    let ghost mut k: nat = 0;
    loop
        invariant
            x0.wf(),
            y0.wf(),
            cur.wf(),
            0 < cur@ <= h@,
            generator_callable(*g),
            cur@ < h@ ==> exists|prev: StepComparison|
                #[trigger] is_comparison(prev, x0, y0, 2 * cur@, *g) && abs(prev.error_one_step@) > max_err@,
            cur@ == halved(h@, k),
            rejected_before(x0, y0, h@, max_err@, *g, k),
        decreases cur@,
    {
        let c = match compare_steps(x0, y0, cur, g) {
            Ok(c) => c,
            Err(e) => {
                return Err(e);
            },
        };
        let half = match cur.half() {
            Some(v) => v,
            None => return Err(MilneError::NumericInstability),
        };
        if c.error_one_step.abs().raw <= max_err.raw {
            proof {
                assert(is_comparison(c, x0, y0, cur@, *g));
                if cur@ < h@ {
                    let prev = choose|prev: StepComparison|
                        #[trigger] is_comparison(prev, x0, y0, 2 * cur@, *g) && abs(prev.error_one_step@) > max_err@;
                    assert(is_comparison(prev, x0, y0, 2 * cur@, *g));
                }
            }
            return Ok(StepChoice { h: half, tested: cur, error: c.error_one_step });
        }
        proof {
            assert(is_comparison(c, x0, y0, 2 * half@, *g));
            assert(is_comparison(c, x0, y0, halved(h@, k), *g));
            assert(halved(h@, k + 1) == half@);
            assert(rejected_at(x0, y0, halved(h@, k), max_err@, *g));
            assert forall|j: nat| j < k + 1 implies rejected_at(x0, y0, #[trigger] halved(h@, j), max_err@, *g) by {
                if j < k {
                    assert(rejected_before(x0, y0, h@, max_err@, *g, k));
                }
            }
            k = k + 1;
        }
        cur = half;
    }
}

} // verus!
