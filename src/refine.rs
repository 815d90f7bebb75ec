//! Halving the step size: interpolated midpoints and a fresh history.
use vstd::prelude::*;
use crate::error::MilneError;
use crate::fixed::{div_nearest, div_nearest_wide, fits, lift, Fixed};
use crate::history::{all_wf, evenly_spaced, History, Sample};
use crate::stepper::{callable, evaluable, evaluates};

verus! {

/// Raw value of `(5 y_n + 15 y_{n-1} - 5 y_{n-2} + y_{n-3}) / 16`, the
/// four-point estimate of `y` halfway between the two newest points.
pub open spec fn midpoint_raw(y_n: int, y_n1: int, y_n2: int, y_n3: int) -> int {
    div_nearest(5 * y_n + 15 * y_n1 - 5 * y_n2 + y_n3, 16)
}

/// Estimate of `y(x - h/2)` from `y_n = y(x)`, `y_n1 = y(x - h)`,
/// `y_n2 = y(x - 2h)` and `y_n3 = y(x - 3h)`; `None` when not representable.
pub fn interp_midpoint(y_n: Fixed, y_n1: Fixed, y_n2: Fixed, y_n3: Fixed) -> (r: Option<Fixed>)
    requires
        y_n.wf(),
        y_n1.wf(),
        y_n2.wf(),
        y_n3.wf(),
    ensures
        r == lift(midpoint_raw(y_n@, y_n1@, y_n2@, y_n3@)),
{
    let s: i128 = 5 * (y_n.raw as i128) + 15 * (y_n1.raw as i128) - 5 * (y_n2.raw as i128)
        + y_n3.raw as i128;
    let q = div_nearest_wide(s, 16);
    proof {
        crate::fixed::lemma_div_within(2 * s + 16, 32);
    }
    Fixed::from_wide(q)
}

/// On a constant sequence the midpoint estimate is that constant.
pub proof fn lemma_midpoint_of_constant(c: int)
    ensures
        midpoint_raw(c, c, c, c) == c,
{
    assert(5 * c + 15 * c - 5 * c + c == 16 * c);
    assert((2 * (16 * c) + 16) / 32int == c) by (nonlinear_arith);
}

/// Raw abscissa half a step before sample `i`.
pub open spec fn half_before(hist: History, i: int) -> int {
    hist@[i].x@ - hist.spacing()@ / 2
}

/// Raw estimate of `y` half a step before sample `i`, from the four samples
/// ending at `i`.
pub open spec fn midpoint_before(hist: History, i: int) -> int {
    midpoint_raw(hist@[i].y@, hist@[i - 1].y@, hist@[i - 2].y@, hist@[i - 3].y@)
}

/// Inputs on which halving cannot fail.
pub open spec fn refine_owed<F: Fn(Fixed, Fixed) -> Option<Fixed>>(hist: History, f: F) -> bool {
    let n = hist@.len() as int;
    &&& n >= 5
    &&& hist.spacing()@ % 2 == 0
    &&& fits(midpoint_before(hist, n - 1))
    &&& fits(midpoint_before(hist, n - 2))
    &&& evaluable(f, Fixed { raw: half_before(hist, n - 2) as i64 }, Fixed { raw: midpoint_before(hist, n - 2) as i64 })
    &&& evaluable(f, Fixed { raw: half_before(hist, n - 1) as i64 }, Fixed { raw: midpoint_before(hist, n - 1) as i64 })
}

/// The first four samples of `q` are what halving `coarse` gives:
/// `[y(x - 3h/2), y(x - h), y(x - h/2), y(x)]`, the midpoints interpolated
/// from the five newest samples and their derivatives given by `f`.
pub open spec fn refines_to<F: Fn(Fixed, Fixed) -> Option<Fixed>>(coarse: History, q: Seq<Sample>, f: F) -> bool {
    let n = coarse@.len() as int;
    &&& q.len() >= 4
    &&& q[0].x@ == half_before(coarse, n - 2)
    &&& q[0].y@ == midpoint_before(coarse, n - 2)
    &&& evaluates(f, q[0].x, q[0].y, q[0].y_prime)
    &&& q[1] == coarse@[n - 2]
    &&& q[2].x@ == half_before(coarse, n - 1)
    &&& q[2].y@ == midpoint_before(coarse, n - 1)
    &&& evaluates(f, q[2].x, q[2].y, q[2].y_prime)
    &&& q[3] == coarse@[n - 1]
}

/// A new epoch at half the spacing, ending at the same point:
/// `[y(x - 3h/2), y(x - h), y(x - h/2), y(x)]`, where the two midpoints are
/// interpolated from the five newest samples and their derivatives come
/// from `f`; the two kept samples are reused as they are.
pub fn refine<F: Fn(Fixed, Fixed) -> Option<Fixed>>(history: &History, f: &F) -> (r: Result<History, MilneError>)
    requires
        history.wf(),
        callable(*f),
    ensures
        history@.len() < 5 <==> r == Err::<History, MilneError>(MilneError::InsufficientHistoryForRefinement),
        r is Err && history@.len() >= 5 ==> r == Err::<History, MilneError>(MilneError::NumericInstability),
        refine_owed(*history, *f) ==> r is Ok,
        r matches Ok(fresh) ==> {
            &&& fresh.wf()
            &&& fresh.spacing()@ * 2 == history.spacing()@
            &&& fresh@.len() == 4
            &&& refines_to(*history, fresh@, *f)
        },
{
    let n = history.len();
    if n < 5 {
        return Err(MilneError::InsufficientHistoryForRefinement);
    }
    let h = history.step_size();
    let half = match h.half() {
        Some(v) => v,
        None => return Err(MilneError::NumericInstability),
    };
    let s4 = history.get(n - 5);
    let s3 = history.get(n - 4);
    let s2 = history.get(n - 3);
    let s1 = history.get(n - 2);
    let s0 = history.get(n - 1);
    proof {
        assert(s4.wf() && s3.wf() && s2.wf() && s1.wf() && s0.wf());
        assert(history@[(n - 2) as int + 1].x@ == history@[n - 2].x@ + h@);
        assert(history@[(n - 3) as int + 1].x@ == history@[n - 3].x@ + h@);
    }
    let y_h2 = match interp_midpoint(s0.y, s1.y, s2.y, s3.y) {
        Some(v) => v,
        None => return Err(MilneError::NumericInstability),
    };
    let y_3h2 = match interp_midpoint(s1.y, s2.y, s3.y, s4.y) {
        Some(v) => v,
        None => return Err(MilneError::NumericInstability),
    };
    let x_h2 = Fixed { raw: s0.x.raw - half.raw };
    let x_3h2 = Fixed { raw: s1.x.raw - half.raw };
    let d_h2 = match f(x_h2, y_h2) {
        Some(v) => v,
        None => return Err(MilneError::NumericInstability),
    };
    let d_3h2 = match f(x_3h2, y_3h2) {
        Some(v) => v,
        None => return Err(MilneError::NumericInstability),
    };
    if !(d_h2.wf_exec() && d_3h2.wf_exec()) {
        return Err(MilneError::NumericInstability);
    }
    assert(x_h2.wf() && x_3h2.wf());
    let mut samples: Vec<Sample> = Vec::new();
    samples.push(Sample { x: x_3h2, y: y_3h2, y_prime: d_3h2 });
    samples.push(s1);
    samples.push(Sample { x: x_h2, y: y_h2, y_prime: d_h2 });
    samples.push(s0);
    proof {
        let q = samples@;
        assert(q[0].x@ + half@ == q[1].x@);
        assert(q[1].x@ + half@ == q[2].x@);
        assert(q[2].x@ + half@ == q[3].x@);
        assert(evenly_spaced(q, half@)) by {
            assert forall|i: int| 0 <= i < q.len() - 1 implies #[trigger] q[i + 1].x@ == q[i].x@ + half@ by {
                if i == 0 {
                } else if i == 1 {
                } else {
                }
            }
        }
        assert(all_wf(q)) by {
            assert forall|i: int| 0 <= i < q.len() implies (#[trigger] q[i]).wf() by {
                if i == 0 {
                } else if i == 1 {
                } else if i == 2 {
                } else {
                }
            }
        }
    }
    History::from_samples(half, samples)
}

} // verus!
