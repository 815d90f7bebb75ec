//! The stepping loop of one run: steps to a target, halving the step size
//! once when the local error estimate exceeds the tolerance.
use vstd::prelude::*;
use vstd::math::abs;
use crate::error::MilneError;
use crate::fixed::Fixed;
use crate::history::{History, Sample};
use crate::refine::{refine, refine_owed, refines_to};
use crate::stepper::{
    at, callable, evaluable, evaluates, milne_point, milne_step, next_x, step_owed, window_at,
    window_correction, window_prediction,
};

verus! {

/// What to do with a step, given its discrepancy.
#[derive(Clone, Copy, PartialEq, Eq, Structural, Debug)]
pub enum Verdict {
    /// Within tolerance: keep the step.
    Accept,
    /// Out of tolerance before any halving: drop the step and halve.
    Refine,
    /// Out of tolerance after the halving: keep the step, with a warning.
    AcceptWithWarning,
}

/// The decision rule of the refiner.
pub open spec fn verdict_of(discrepancy: int, max_err: int, refined: bool) -> Verdict {
    if abs(discrepancy) <= max_err {
        Verdict::Accept
    } else if !refined {
        Verdict::Refine
    } else {
        Verdict::AcceptWithWarning
    }
}

/// Decides on a step from its discrepancy, the tolerance, and whether the
/// run has already halved its step size.
pub fn assess(discrepancy: Fixed, max_err: Fixed, refined: bool) -> (r: Verdict)
    requires
        discrepancy.wf(),
    ensures
        r == verdict_of(discrepancy@, max_err@, refined),
{
    if discrepancy.abs().raw <= max_err.raw {
        Verdict::Accept
    } else if !refined {
        Verdict::Refine
    } else {
        Verdict::AcceptWithWarning
    }
}

/// The step that produced sample `i` had a discrepancy of at most
/// `max_err` in magnitude.
pub open spec fn within_tolerance(q: Seq<Sample>, i: int, h: int, max_err: int) -> bool {
    abs(q[i].y@ - window_prediction(window_at(q, i), h)) <= max_err
}

/// `hs` is reached from `seed` without halving: the seed followed by Milne
/// steps at the seed's spacing.
pub open spec fn coarse_epoch<F: Fn(Fixed, Fixed) -> Option<Fixed>>(seed: History, hs: History, f: F) -> bool {
    &&& hs.wf()
    &&& hs.spacing() == seed.spacing()
    &&& seed@.len() <= hs@.len()
    &&& hs@.subrange(0, seed@.len() as int) == seed@
    &&& forall|i: int| seed@.len() <= i < hs@.len() ==> #[trigger] milne_point(hs@, i, hs.spacing()@, f)
}

/// The next step from `hs`, with some derivative that `f` may give at the
/// predicted point, has a discrepancy above `max_err` in magnitude.
pub open spec fn exceeds<F: Fn(Fixed, Fixed) -> Option<Fixed>>(hs: History, f: F, max_err: int) -> bool {
    let w = window_at(hs@, hs@.len() as int);
    let h = hs.spacing()@;
    exists|d: Fixed| #[trigger] evaluates(f, at(next_x(w, h)), at(window_prediction(w, h)), d)
        && abs(window_correction(w, h, d@) - window_prediction(w, h)) > max_err
}

/// `hs` is reached from `seed` through one halving: a coarse epoch whose
/// next step exceeded the tolerance was halved, and Milne steps at the
/// half spacing followed.
pub open spec fn fine_epoch<F: Fn(Fixed, Fixed) -> Option<Fixed>>(seed: History, hs: History, f: F, max_err: int) -> bool {
    &&& hs.wf()
    &&& hs.spacing()@ * 2 == seed.spacing()@
    &&& hs@.len() >= 4
    &&& exists|c: History| #[trigger] coarse_epoch(seed, c, f) && exceeds(c, f, max_err) && refines_to(c, hs@, f)
    &&& forall|i: int| 4 <= i < hs@.len() ==> #[trigger] milne_point(hs@, i, hs.spacing()@, f)
}

/// The run cannot go on from `hs` for a reason of range or of `f`: the step
/// is not owed, or for some derivative `f` may give at the predicted point
/// the halving that follows is not owed, or `f` may fail at the corrected
/// point of a step that is kept.
pub open spec fn stuck<F: Fn(Fixed, Fixed) -> Option<Fixed>>(hs: History, f: F, max_err: int, refined: bool) -> bool {
    let w = window_at(hs@, hs@.len() as int);
    let h = hs.spacing()@;
    ||| !step_owed(w, h, f)
    ||| exists|d: Fixed| #[trigger] evaluates(f, at(next_x(w, h)), at(window_prediction(w, h)), d) && {
        let c = window_correction(w, h, d@);
        if verdict_of(c - window_prediction(w, h), max_err, refined) == Verdict::Refine {
            !refine_owed(hs, f)
        } else {
            !evaluable(f, at(next_x(w, h)), at(c))
        }
    }
}

/// `hs` was reached from `seed` with another step due before `target_x`.
pub open spec fn reached_before<F: Fn(Fixed, Fixed) -> Option<Fixed>>(
    seed: History,
    hs: History,
    f: F,
    max_err: int,
    target_x: int,
    refined: bool,
) -> bool {
    &&& hs@.last().x@ + hs.spacing()@ <= target_x
    &&& if refined { fine_epoch(seed, hs, f, max_err) } else { coarse_epoch(seed, hs, f) }
}

/// The outcome of a run.
#[derive(Debug)]
pub struct Integration {
    /// The samples of the last epoch.
    pub history: History,
    /// Whether the step size was halved.
    pub refined: bool,
    /// Whether a step was kept out of tolerance after the halving.
    pub tolerance_exceeded: bool,
    /// Positions in `history` of the steps kept out of tolerance, in order.
    pub warnings: Vec<usize>,
    /// How many leading samples of `history` the epoch started from; every
    /// later sample is a Milne step.
    pub seeds: usize,
}

/// Steps from the seed history while the next abscissa does not pass
/// `target_x`. A step whose discrepancy exceeds `max_err` in magnitude is
/// dropped and the step size halved (once per run); after that, such steps
/// are kept and reported through `tolerance_exceeded` by default, or end
/// the run with `ToleranceExceededUnrecovered` when `strict` is set.
pub fn integrate<F: Fn(Fixed, Fixed) -> Option<Fixed>>(
    seed: History,
    target_x: Fixed,
    max_err: Fixed,
    strict: bool,
    f: &F,
) -> (r: Result<Integration, MilneError>)
    requires
        seed.wf(),
        target_x.wf(),
        callable(*f),
    ensures
        seed@.len() < 4 <==> r == Err::<Integration, MilneError>(MilneError::InsufficientHistory),
        r == Err::<Integration, MilneError>(MilneError::InsufficientHistoryForRefinement) ==> seed@.len() == 4,
        r == Err::<Integration, MilneError>(MilneError::IrregularHistory) ==> false,
        r == Err::<Integration, MilneError>(MilneError::ToleranceExceededUnrecovered) ==> strict
            && exists|hs: History| #[trigger] reached_before(seed, hs, *f, max_err@, target_x@, true)
                && exceeds(hs, *f, max_err@),
        r == Err::<Integration, MilneError>(MilneError::NumericInstability) ==> exists|hs: History, refined: bool|
            #[trigger] reached_before(seed, hs, *f, max_err@, target_x@, refined) && stuck(hs, *f, max_err@, refined),
        seed@.len() >= 4 && seed@.last().x@ + seed.spacing()@ > target_x@ ==> (r matches Ok(out)
            && out.history@ == seed@ && !out.refined && !out.tolerance_exceeded),
        r matches Ok(out) ==> if out.refined {
            fine_epoch(seed, out.history, *f, max_err@)
        } else {
            coarse_epoch(seed, out.history, *f)
        },
        r matches Ok(out) ==> {
            let hist = out.history;
            &&& hist.wf()
            &&& hist@.len() >= 4
            &&& hist@.last().x@ + hist.spacing()@ > target_x@
            &&& hist@.last().x@ <= target_x@ || hist@.last() == seed@.last()
            &&& !out.refined ==> hist.spacing() == seed.spacing()
            &&& out.refined ==> hist.spacing()@ * 2 == seed.spacing()@
            &&& out.tolerance_exceeded ==> out.refined && !strict
            &&& 4 <= out.seeds <= hist@.len()
            &&& !out.refined ==> hist@.subrange(0, out.seeds as int) == seed@
            &&& out.refined ==> out.seeds == 4
            &&& forall|i: int| out.seeds <= i < hist@.len() ==> #[trigger] milne_point(hist@, i, hist.spacing()@, *f)
            &&& !out.tolerance_exceeded ==> forall|i: int| out.seeds <= i < hist@.len()
                ==> #[trigger] within_tolerance(hist@, i, hist.spacing()@, max_err@)
            &&& out.tolerance_exceeded == (out.warnings@.len() > 0)
            &&& forall|j: int| 0 <= j < out.warnings@.len() ==> out.seeds <= #[trigger] out.warnings@[j] < hist@.len()
                && !within_tolerance(hist@, out.warnings@[j] as int, hist.spacing()@, max_err@)
            &&& forall|i: int| out.seeds <= i < hist@.len() && !#[trigger] within_tolerance(hist@, i, hist.spacing()@, max_err@)
                ==> out.warnings@.contains(i as usize)
        },
{
    if seed.len() < 4 {
        return Err(MilneError::InsufficientHistory);
    }
    let ghost h0 = seed.spacing();
    let ghost first = seed@.last();
    let ghost seed_len = seed@.len();
    let mut hist = seed;
    let mut refined = false;
    let mut exceeded = false;
    let mut seeds: usize = hist.len();
    let mut warned: Vec<usize> = Vec::new();
    assert(hist@.subrange(0, seeds as int) =~= seed@);
    loop
        invariant
            seed_len == seed@.len() >= 4,
            !refined ==> seeds == seed_len,
            first == seed@.last(),
            h0 == seed.spacing(),
            first.x@ + h0@ > target_x@ ==> hist@ == seed@ && !refined && !exceeded,
            hist.wf(),
            hist@.len() >= 4,
            target_x.wf(),
            callable(*f),
            !refined ==> hist.spacing() == h0,
            refined ==> hist.spacing()@ * 2 == h0@,
            exceeded ==> refined && !strict,
            hist@.last().x@ <= target_x@ || hist@.last() == first,
            4 <= seeds <= hist@.len(),
            !refined ==> hist@.subrange(0, seeds as int) == seed@,
            refined ==> seeds == 4,
            forall|i: int| seeds <= i < hist@.len() ==> #[trigger] milne_point(hist@, i, hist.spacing()@, *f),
            refined ==> fine_epoch(seed, hist, *f, max_err@),
            !refined ==> coarse_epoch(seed, hist, *f),
            !exceeded ==> forall|i: int| seeds <= i < hist@.len()
                ==> #[trigger] within_tolerance(hist@, i, hist.spacing()@, max_err@),
            exceeded == (warned@.len() > 0),
            forall|j: int| 0 <= j < warned@.len() ==> seeds <= #[trigger] warned@[j] < hist@.len()
                && !within_tolerance(hist@, warned@[j] as int, hist.spacing()@, max_err@),
            forall|i: int| seeds <= i < hist@.len() && !#[trigger] within_tolerance(hist@, i, hist.spacing()@, max_err@)
                ==> warned@.contains(i as usize),
        ensures
            first.x@ + h0@ > target_x@ ==> hist@ == seed@ && !refined && !exceeded,
            hist.wf(),
            hist@.len() >= 4,
            hist@.last().x@ + hist.spacing()@ > target_x@,
            !refined ==> hist.spacing() == h0,
            refined ==> hist.spacing()@ * 2 == h0@,
            exceeded ==> refined && !strict,
            hist@.last().x@ <= target_x@ || hist@.last() == first,
            4 <= seeds <= hist@.len(),
            !refined ==> hist@.subrange(0, seeds as int) == seed@,
            refined ==> seeds == 4,
            forall|i: int| seeds <= i < hist@.len() ==> #[trigger] milne_point(hist@, i, hist.spacing()@, *f),
            refined ==> fine_epoch(seed, hist, *f, max_err@),
            !refined ==> coarse_epoch(seed, hist, *f),
            !exceeded ==> forall|i: int| seeds <= i < hist@.len()
                ==> #[trigger] within_tolerance(hist@, i, hist.spacing()@, max_err@),
            exceeded == (warned@.len() > 0),
            forall|j: int| 0 <= j < warned@.len() ==> seeds <= #[trigger] warned@[j] < hist@.len()
                && !within_tolerance(hist@, warned@[j] as int, hist.spacing()@, max_err@),
            forall|i: int| seeds <= i < hist@.len() && !#[trigger] within_tolerance(hist@, i, hist.spacing()@, max_err@)
                ==> warned@.contains(i as usize),
        decreases target_x@ - hist@.last().x@, if refined { 0int } else { 1int },
    {
        let n = hist.len();
        let last = hist.get(n - 1);
        let h = hist.step_size();
        proof {
            assert(last.wf());
        }
        if last.x.raw as i128 + h.raw as i128 > target_x.raw as i128 {
            break;
        }
        proof {
            if first.x@ + h0@ > target_x@ {
                assert(last == first);
            }
            assert(reached_before(seed, hist, *f, max_err@, target_x@, refined));
        }
        let w = hist.window()?;
        proof {
            assert(hist@[n - 4].wf() && hist@[n - 3].wf() && hist@[n - 2].wf());
            assert(w == window_at(hist@, n as int));
        }
        let s = match milne_step(w, h, f) {
            Ok(s) => s,
            Err(e) => {
                proof {
                    assert(stuck(hist, *f, max_err@, refined));
                }
                return Err(e);
            },
        };
        let ghost pred = window_prediction(w, h@);
        let ghost corr = window_correction(w, h@, s.predicted_slope@);
        proof {
            assert(at(next_x(w, h@)) == s.x);
            assert(at(pred) == s.predicted);
            assert(at(corr) == s.corrected);
            assert(evaluates(*f, at(next_x(w, h@)), at(pred), s.predicted_slope));
        }
        let verdict = assess(s.discrepancy, max_err, refined);
        if verdict == Verdict::Refine {
            let ghost coarse = hist;
            proof {
                assert(exceeds(coarse, *f, max_err@));
            }
            hist = match refine(&hist, f) {
                Ok(fresh) => fresh,
                Err(e) => {
                    proof {
                        if e == MilneError::NumericInstability {
                            assert(stuck(coarse, *f, max_err@, refined));
                        }
                    }
                    return Err(e);
                },
            };
            refined = true;
            seeds = 4;
            proof {
                assert(coarse_epoch(seed, coarse, *f) && exceeds(coarse, *f, max_err@) && refines_to(coarse, hist@, *f));
                assert(fine_epoch(seed, hist, *f, max_err@));
            }
        } else {
            if strict && verdict == Verdict::AcceptWithWarning {
                proof {
                    assert(exceeds(hist, *f, max_err@));
                }
                return Err(MilneError::ToleranceExceededUnrecovered);
            }
            let slope = match f(s.x, s.corrected) {
                Some(v) => v,
                None => {
                    proof {
                        assert(stuck(hist, *f, max_err@, refined));
                    }
                    return Err(MilneError::NumericInstability);
                },
            };
            if !slope.wf_exec() {
                proof {
                    assert(stuck(hist, *f, max_err@, refined));
                }
                return Err(MilneError::NumericInstability);
            }
            let ghost old_warned = warned@;
            if verdict == Verdict::AcceptWithWarning {
                exceeded = true;
                warned.push(n);
            }
            let ghost before = hist;
            let ghost hh = hist.spacing()@;
            hist.push(Sample { x: s.x, y: s.corrected, y_prime: slope });
            proof {
                let q = hist@;
                let b = before@;
                assert(hh == h@);
                assert(window_at(q, n as int) == w);
                assert(q[n as int].x == s.x && q[n as int].y == s.corrected);
                assert(evaluates(*f, q[n as int].x, at(window_prediction(w, hh)), s.predicted_slope));
                assert(milne_point(q, n as int, hh, *f));
                assert forall|i: int| seeds <= i < q.len() implies #[trigger] milne_point(q, i, hh, *f) by {
                    if i < n {
                        assert(milne_point(b, i, hh, *f));
                        assert(window_at(q, i) == window_at(b, i));
                        assert(q[i] == b[i]);
                    }
                }
                if !exceeded {
                    assert(verdict == Verdict::Accept);
                    assert(within_tolerance(q, n as int, hh, max_err@));
                    assert forall|i: int| seeds <= i < q.len() implies #[trigger] within_tolerance(q, i, hh, max_err@) by {
                        if i < n {
                            assert(within_tolerance(b, i, hh, max_err@));
                            assert(window_at(q, i) == window_at(b, i));
                        }
                    }
                }
                assert forall|i: int| seeds <= i < q.len() && i < n implies within_tolerance(q, i, hh, max_err@)
                    == within_tolerance(b, i, hh, max_err@) by {
                    assert(window_at(q, i) == window_at(b, i));
                }
                if verdict == Verdict::AcceptWithWarning {
                    assert(!within_tolerance(q, n as int, hh, max_err@));
                    assert(warned@ == old_warned.push(n));
                    assert forall|i: int| seeds <= i < q.len() && !#[trigger] within_tolerance(q, i, hh, max_err@)
                        implies warned@.contains(i as usize) by {
                        if i < n {
                            assert(old_warned.contains(i as usize));
                            let j = choose|j: int| 0 <= j < old_warned.len() && old_warned[j] == i as usize;
                            assert(warned@[j] == i as usize);
                        } else {
                            assert(warned@[old_warned.len() as int] == i as usize);
                        }
                    }
                    assert forall|j: int| 0 <= j < warned@.len() implies seeds <= #[trigger] warned@[j] < q.len()
                        && !within_tolerance(q, warned@[j] as int, hh, max_err@) by {
                        if j < old_warned.len() {
                            assert(warned@[j] == old_warned[j]);
                        }
                    }
                } else {
                    assert(within_tolerance(q, n as int, hh, max_err@));
                    assert forall|i: int| seeds <= i < q.len() && !#[trigger] within_tolerance(q, i, hh, max_err@)
                        implies warned@.contains(i as usize) by {
                        assert(i < n);
                    }
                }
                if !refined {
                    assert(q.subrange(0, seeds as int) =~= b.subrange(0, seeds as int));
                    assert(coarse_epoch(seed, hist, *f));
                } else {
                    let c = choose|c: History| #[trigger] coarse_epoch(seed, c, *f) && exceeds(c, *f, max_err@)
                        && refines_to(c, b, *f);
                    assert(q[0] == b[0] && q[1] == b[1] && q[2] == b[2] && q[3] == b[3]);
                    assert(refines_to(c, q, *f));
                    assert(fine_epoch(seed, hist, *f, max_err@));
                }
            }
        }
    }
    Ok(Integration { history: hist, refined, tolerance_exceeded: exceeded, warnings: warned, seeds })
}

} // verus!
