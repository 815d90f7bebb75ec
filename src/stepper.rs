//! One step of Milne's method: predict, evaluate the derivative, correct.
use vstd::prelude::*;
use crate::error::MilneError;
use crate::fixed::{fits, Fixed};
use crate::history::{History, Sample, Window};
use crate::milne::{correct_raw, predict_raw, y_correct, y_predict};

verus! {

/// `d` is a value that `f` may return at `(x, y)`, and it is in range.
pub open spec fn evaluates<F: Fn(Fixed, Fixed) -> Option<Fixed>>(f: F, x: Fixed, y: Fixed, d: Fixed) -> bool {
    f.ensures((x, y), Some(d)) && d.wf()
}

/// Every value that `f` may return at `(x, y)` is a derivative in range.
pub open spec fn evaluable<F: Fn(Fixed, Fixed) -> Option<Fixed>>(f: F, x: Fixed, y: Fixed) -> bool {
    forall|r: Option<Fixed>| #[trigger] f.ensures((x, y), r) ==> (r matches Some(d) && d.wf())
}

/// `f` may be called anywhere.
pub open spec fn callable<F: Fn(Fixed, Fixed) -> Option<Fixed>>(f: F) -> bool {
    forall|x: Fixed, y: Fixed| #[trigger] f.requires((x, y))
}

/// The window holds values in range.
pub open spec fn window_wf(w: Window) -> bool {
    w.oldest.wf() && w.second_oldest.wf() && w.second_newest.wf() && w.newest.wf()
}

/// Raw abscissa of the next point.
pub open spec fn next_x(w: Window, h: int) -> int {
    w.newest.x@ + h
}

/// Raw value of the predictor on a window.
pub open spec fn window_prediction(w: Window, h: int) -> int {
    predict_raw(h, w.oldest.y@, w.second_oldest.y_prime@, w.second_newest.y_prime@, w.newest.y_prime@)
}

/// Raw value of the corrector on a window, given the derivative `dp` at the
/// predicted point.
pub open spec fn window_correction(w: Window, h: int, dp: int) -> int {
    correct_raw(h, w.second_newest.y@, w.second_newest.y_prime@, w.newest.y_prime@, dp)
}

/// The window that ends just before position `i`.
pub open spec fn window_at(q: Seq<Sample>, i: int) -> Window {
    Window { oldest: q[i - 4], second_oldest: q[i - 3], second_newest: q[i - 2], newest: q[i - 1] }
}

/// The fixed-point number with raw value `v` (meaningful when in range).
pub open spec fn at(v: int) -> Fixed {
    Fixed { raw: v as i64 }
}

/// Sample `i` is the Milne step from the four samples before it: its
/// abscissa is one step on, its value is the corrector applied with a
/// derivative that `f` gave at the predicted point, and its derivative is
/// one that `f` gives at the sample.
pub open spec fn milne_point<F: Fn(Fixed, Fixed) -> Option<Fixed>>(q: Seq<Sample>, i: int, h: int, f: F) -> bool {
    let w = window_at(q, i);
    &&& q[i].x@ == next_x(w, h)
    &&& exists|dp: Fixed| #[trigger] evaluates(f, q[i].x, at(window_prediction(w, h)), dp)
        && q[i].y@ == window_correction(w, h, dp@)
    &&& evaluates(f, q[i].x, q[i].y, q[i].y_prime)
}

/// The outcome of one step.
#[derive(Clone, Copy, PartialEq, Eq, Structural, Debug)]
pub struct StepResult {
    /// Abscissa of the new point.
    pub x: Fixed,
    /// Value given by the predictor.
    pub predicted: Fixed,
    /// Derivative at the predicted point.
    pub predicted_slope: Fixed,
    /// Value given by the corrector.
    pub corrected: Fixed,
    /// `corrected - predicted`, the local error estimate.
    pub discrepancy: Fixed,
}

/// `s` is the step from window `w` at spacing `h` with derivative `f`.
pub open spec fn is_step_from<F: Fn(Fixed, Fixed) -> Option<Fixed>>(s: StepResult, w: Window, h: int, f: F) -> bool {
    &&& s.x@ == next_x(w, h)
    &&& s.predicted@ == window_prediction(w, h)
    &&& evaluates(f, s.x, s.predicted, s.predicted_slope)
    &&& s.corrected@ == window_correction(w, h, s.predicted_slope@)
    &&& s.discrepancy@ == s.corrected@ - s.predicted@
    &&& s.x.wf() && s.predicted.wf() && s.corrected.wf() && s.discrepancy.wf()
}

/// Inputs on which a step cannot fail: every value it computes, whatever
/// `f` returns, is in range.
pub open spec fn step_owed<F: Fn(Fixed, Fixed) -> Option<Fixed>>(w: Window, h: int, f: F) -> bool {
    &&& fits(next_x(w, h))
    &&& fits(window_prediction(w, h))
    &&& evaluable(f, Fixed { raw: next_x(w, h) as i64 }, Fixed { raw: window_prediction(w, h) as i64 })
    &&& forall|d: Fixed|
        #[trigger] f.ensures((Fixed { raw: next_x(w, h) as i64 }, Fixed { raw: window_prediction(w, h) as i64 }), Some(d))
            ==> fits(window_correction(w, h, d@)) && fits(window_correction(w, h, d@) - window_prediction(w, h))
}

/// Inputs on which `advance` cannot fail: there are four samples, the step
/// from them cannot fail, and `f` gives a derivative in range at every
/// corrected point it may lead to.
pub open spec fn advance_owed<F: Fn(Fixed, Fixed) -> Option<Fixed>>(q: Seq<Sample>, h: int, f: F) -> bool {
    let w = window_at(q, q.len() as int);
    &&& q.len() >= 4
    &&& step_owed(w, h, f)
    &&& forall|d: Fixed|
        #[trigger] f.ensures((at(next_x(w, h)), at(window_prediction(w, h))), Some(d))
            ==> evaluable(f, at(next_x(w, h)), at(window_correction(w, h, d@)))
}

/// One step of Milne's method on the last four samples: one prediction, one
/// evaluation of `f` at the predicted point, one correction. Pure.
pub fn milne_step<F: Fn(Fixed, Fixed) -> Option<Fixed>>(w: Window, h: Fixed, f: &F) -> (r: Result<StepResult, MilneError>)
    requires
        window_wf(w),
        h.wf(),
        callable(*f),
    ensures
        r matches Ok(s) ==> is_step_from(s, w, h@, *f),
        r is Err ==> r == Err::<StepResult, MilneError>(MilneError::NumericInstability),
        step_owed(w, h@, *f) ==> r is Ok,
{
    let x = match w.newest.x.add(h) {
        Some(v) => v,
        None => return Err(MilneError::NumericInstability),
    };
    let predicted = match y_predict(h, w.oldest.y, w.second_oldest.y_prime, w.second_newest.y_prime, w.newest.y_prime) {
        Some(v) => v,
        None => return Err(MilneError::NumericInstability),
    };
    let slope = match f(x, predicted) {
        Some(v) => v,
        None => return Err(MilneError::NumericInstability),
    };
    if !slope.wf_exec() {
        return Err(MilneError::NumericInstability);
    }
    let corrected = match y_correct(h, w.second_newest.y, w.second_newest.y_prime, w.newest.y_prime, slope) {
        Some(v) => v,
        None => return Err(MilneError::NumericInstability),
    };
    let discrepancy = match corrected.sub(predicted) {
        Some(v) => v,
        None => return Err(MilneError::NumericInstability),
    };
    Ok(StepResult { x, predicted, predicted_slope: slope, corrected, discrepancy })
}

/// Takes one step on the history and appends the new sample
/// `(x, corrected, f(x, corrected))`. On failure the history is unchanged.
pub fn advance<F: Fn(Fixed, Fixed) -> Option<Fixed>>(history: &mut History, f: &F) -> (r: Result<StepResult, MilneError>)
    requires
        old(history).wf(),
        callable(*f),
    ensures
        final(history).wf(),
        final(history).spacing() == old(history).spacing(),
        old(history)@.len() < 4 <==> r == Err::<StepResult, MilneError>(MilneError::InsufficientHistory),
        r is Err ==> final(history)@ == old(history)@,
        advance_owed(old(history)@, old(history).spacing()@, *f) ==> r is Ok,
        r is Err && old(history)@.len() >= 4 ==> r == Err::<StepResult, MilneError>(MilneError::NumericInstability),
        r matches Ok(s) ==> {
            let n = old(history)@.len() as int;
            let w = Window {
                oldest: old(history)@[n - 4],
                second_oldest: old(history)@[n - 3],
                second_newest: old(history)@[n - 2],
                newest: old(history)@[n - 1],
            };
            &&& is_step_from(s, w, old(history).spacing()@, *f)
            &&& final(history)@ == old(history)@.push(final(history)@.last())
            &&& final(history)@.last().x == s.x
            &&& final(history)@.last().y == s.corrected
            &&& evaluates(*f, s.x, s.corrected, final(history)@.last().y_prime)
        },
{
    let w = history.window()?;
    let h = history.step_size();
    proof {
        let n = history@.len() as int;
        assert(history@[n - 4].wf() && history@[n - 3].wf() && history@[n - 2].wf() && history@[n - 1].wf());
    }
    proof {
        let n = history@.len() as int;
        assert(w == window_at(history@, n));
    }
    let s = milne_step(w, h, f)?;
    proof {
        assert(at(next_x(w, h@)) == s.x);
        assert(at(window_prediction(w, h@)) == s.predicted);
        assert(at(window_correction(w, h@, s.predicted_slope@)) == s.corrected);
    }
    let slope = match f(s.x, s.corrected) {
        Some(v) => v,
        None => return Err(MilneError::NumericInstability),
    };
    if !slope.wf_exec() {
        return Err(MilneError::NumericInstability);
    }
    history.push(Sample { x: s.x, y: s.corrected, y_prime: slope });
    Ok(s)
}

} // verus!
