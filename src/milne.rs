//! The two formulas of Milne's method.
use vstd::prelude::*;
use crate::fixed::{div_nearest, div_nearest_wide, lift, Fixed, MAX_RAW, SCALE};

verus! {

/// Raw value of the predictor
/// `y0 + (4h / 3) * (2 y'_1 - y'_2 + 2 y'_3)`, rounded once.
pub open spec fn predict_raw(h: int, y0: int, y_1_1: int, y_1_2: int, y_1_3: int) -> int {
    y0 + div_nearest(4 * h * (2 * y_1_1 - y_1_2 + 2 * y_1_3), 3 * SCALE)
}

/// Raw value of the corrector
/// `y2 + (h / 3) * (y'_2 + 4 y'_3 + y'_p)`, rounded once.
pub open spec fn correct_raw(h: int, y2: int, y_1_2: int, y_1_3: int, yp_1_4: int) -> int {
    y2 + div_nearest(h * (y_1_2 + 4 * y_1_3 + yp_1_4), 3 * SCALE)
}

/// The predictor: from the value `y0` four steps back and the derivatives
/// `y_1_1`, `y_1_2`, `y_1_3` three, two and one step back, an estimate of
/// the next value. `None` when the estimate is not representable.
pub fn y_predict(h: Fixed, y0: Fixed, y_1_1: Fixed, y_1_2: Fixed, y_1_3: Fixed) -> (r: Option<Fixed>)
    requires
        h.wf(),
        y0.wf(),
        y_1_1.wf(),
        y_1_2.wf(),
        y_1_3.wf(),
    ensures
        r == lift(predict_raw(h@, y0@, y_1_1@, y_1_2@, y_1_3@)),
{
    let s: i128 = 2 * (y_1_1.raw as i128) - y_1_2.raw as i128 + 2 * (y_1_3.raw as i128);
    let k: i128 = 4 * (h.raw as i128);
    assert(-50_000_000_000_000_000_000_000_000_000_000_000_000int <= k * s
        <= 50_000_000_000_000_000_000_000_000_000_000_000_000int) by (nonlinear_arith)
        requires
            -5 * MAX_RAW <= s <= 5 * MAX_RAW,
            -4 * MAX_RAW <= k <= 4 * MAX_RAW,
    ;
    let q = div_nearest_wide(k * s, 3 * SCALE as i128);
    proof {
        crate::fixed::lemma_div_within(2 * (k * s) + 3 * SCALE, 6 * SCALE);
    }
    Fixed::from_wide(y0.raw as i128 + q)
}

/// The corrector: from the value `y2` two steps back, the derivatives
/// `y_1_2`, `y_1_3` two and one step back, and the derivative `yp_1_4` at
/// the predicted point, the corrected next value. `None` when it is not
/// representable.
pub fn y_correct(h: Fixed, y2: Fixed, y_1_2: Fixed, y_1_3: Fixed, yp_1_4: Fixed) -> (r: Option<Fixed>)
    requires
        h.wf(),
        y2.wf(),
        y_1_2.wf(),
        y_1_3.wf(),
        yp_1_4.wf(),
    ensures
        r == lift(correct_raw(h@, y2@, y_1_2@, y_1_3@, yp_1_4@)),
{
    let s: i128 = y_1_2.raw as i128 + 4 * (y_1_3.raw as i128) + yp_1_4.raw as i128;
    let k: i128 = h.raw as i128;
    assert(-50_000_000_000_000_000_000_000_000_000_000_000_000int <= k * s
        <= 50_000_000_000_000_000_000_000_000_000_000_000_000int) by (nonlinear_arith)
        requires
            -6 * MAX_RAW <= s <= 6 * MAX_RAW,
            -MAX_RAW <= k <= MAX_RAW,
    ;
    let q = div_nearest_wide(k * s, 3 * SCALE as i128);
    proof {
        crate::fixed::lemma_div_within(2 * (k * s) + 3 * SCALE, 6 * SCALE);
    }
    Fixed::from_wide(y2.raw as i128 + q)
}

/// The formulas are pure: results that meet the contracts of
/// `y_predict` and `y_correct` for equal arguments are equal.
pub proof fn lemma_formulas_pure(
    h: Fixed,
    y0: Fixed,
    y2: Fixed,
    y_1_1: Fixed,
    y_1_2: Fixed,
    y_1_3: Fixed,
    yp_1_4: Fixed,
    p1: Option<Fixed>,
    p2: Option<Fixed>,
    c1: Option<Fixed>,
    c2: Option<Fixed>,
)
    requires
        p1 == lift(predict_raw(h@, y0@, y_1_1@, y_1_2@, y_1_3@)),
        p2 == lift(predict_raw(h@, y0@, y_1_1@, y_1_2@, y_1_3@)),
        c1 == lift(correct_raw(h@, y2@, y_1_2@, y_1_3@, yp_1_4@)),
        c2 == lift(correct_raw(h@, y2@, y_1_2@, y_1_3@, yp_1_4@)),
    ensures
        p1 == p2,
        c1 == c2,
{
}

} // verus!
