//! Samples of a solution and the evenly spaced history they form.
use vstd::prelude::*;
use crate::error::MilneError;
use crate::fixed::Fixed;

verus! {

/// One point of an approximate solution: `x`, `y(x)` and `y'(x)`.
#[derive(Clone, Copy, PartialEq, Eq, Structural, Debug)]
pub struct Sample {
    pub x: Fixed,
    pub y: Fixed,
    pub y_prime: Fixed,
}

impl Sample {
    pub open spec fn wf(self) -> bool {
        self.x.wf() && self.y.wf() && self.y_prime.wf()
    }
}

/// Every sample is in range.
pub open spec fn all_wf(s: Seq<Sample>) -> bool {
    forall|i: int| 0 <= i < s.len() ==> (#[trigger] s[i]).wf()
}

/// Consecutive abscissas differ by exactly `h`.
pub open spec fn evenly_spaced(s: Seq<Sample>, h: int) -> bool {
    forall|i: int| 0 <= i < s.len() - 1 ==> #[trigger] s[i + 1].x@ == s[i].x@ + h
}

/// The last four samples of a history, oldest first.
#[derive(Clone, Copy, PartialEq, Eq, Structural, Debug)]
pub struct Window {
    pub oldest: Sample,
    pub second_oldest: Sample,
    pub second_newest: Sample,
    pub newest: Sample,
}

/// The samples of one epoch: strictly increasing abscissas at a constant
/// positive spacing.
#[derive(Debug)]
pub struct History {
    samples: Vec<Sample>,
    h: Fixed,
}

impl View for History {
    type V = Seq<Sample>;

    closed spec fn view(&self) -> Seq<Sample> {
        self.samples@
    }
}

impl History {
    /// The spacing of the epoch.
    pub closed spec fn spacing(&self) -> Fixed {
        self.h
    }

    pub open spec fn wf(&self) -> bool {
        &&& self.spacing().wf()
        &&& self.spacing()@ > 0
        &&& all_wf(self@)
        &&& evenly_spaced(self@, self.spacing()@)
    }

    /// A history of the given samples at spacing `h`; refused unless `h` is
    /// positive and the abscissas advance by exactly `h`.
    pub fn from_samples(h: Fixed, samples: Vec<Sample>) -> (r: Result<History, MilneError>)
        requires
            h.wf(),
            all_wf(samples@),
        ensures
            r is Ok <==> h@ > 0 && evenly_spaced(samples@, h@),
            r is Err ==> r == Err::<History, MilneError>(MilneError::IrregularHistory),
            r matches Ok(hist) ==> hist@ == samples@ && hist.spacing() == h && hist.wf(),
    {
        if h.raw <= 0 {
            return Err(MilneError::IrregularHistory);
        }
        let n = samples.len();
        let mut i: usize = 1;
        while i < n
            invariant
                1 <= i,
                n == samples@.len(),
                all_wf(samples@),
                forall|j: int| 0 <= j < i - 1 ==> #[trigger] samples@[j + 1].x@ == samples@[j].x@ + h@,
            decreases n - i,
        {
            let prev = samples[i - 1].x.raw;
            let cur = samples[i].x.raw;
            proof {
                assert(samples@[i - 1].wf());
                assert(samples@[i as int].wf());
            }
            if cur as i128 != prev as i128 + h.raw as i128 {
                assert(samples@[(i - 1) + 1].x@ != samples@[i - 1].x@ + h@);
                return Err(MilneError::IrregularHistory);
            }
            i = i + 1;
        }
        Ok(History { samples, h })
    }

    /// The spacing of the epoch.
    pub fn step_size(&self) -> (r: Fixed)
        ensures
            r == self.spacing(),
    {
        self.h
    }

    pub fn len(&self) -> (r: usize)
        ensures
            r == self@.len(),
    {
        self.samples.len()
    }

    /// The sample at position `i`, oldest first.
    pub fn get(&self, i: usize) -> (r: Sample)
        requires
            i < self@.len(),
        ensures
            r == self@[i as int],
    {
        self.samples[i]
    }

    /// All samples, oldest first.
    pub fn samples(&self) -> (r: &Vec<Sample>)
        ensures
            r@ == self@,
    {
        &self.samples
    }

    /// The last four samples; `InsufficientHistory` when there are fewer.
    pub fn window(&self) -> (r: Result<Window, MilneError>)
        ensures
            self@.len() < 4 <==> r == Err::<Window, MilneError>(MilneError::InsufficientHistory),
            r is Err ==> self@.len() < 4,
            r matches Ok(w) ==> {
                let n = self@.len() as int;
                &&& n >= 4
                &&& w.oldest == self@[n - 4]
                &&& w.second_oldest == self@[n - 3]
                &&& w.second_newest == self@[n - 2]
                &&& w.newest == self@[n - 1]
            },
    {
        let n = self.samples.len();
        if n < 4 {
            return Err(MilneError::InsufficientHistory);
        }
        Ok(Window {
            oldest: self.samples[n - 4],
            second_oldest: self.samples[n - 3],
            second_newest: self.samples[n - 2],
            newest: self.samples[n - 1],
        })
    }

    /// Appends a sample one step after the newest.
    pub fn push(&mut self, s: Sample)
        requires
            old(self).wf(),
            s.wf(),
            old(self)@.len() > 0 ==> s.x@ == old(self)@.last().x@ + old(self).spacing()@,
        ensures
            final(self)@ == old(self)@.push(s),
            final(self).spacing() == old(self).spacing(),
            final(self).wf(),
    {
        self.samples.push(s);
        proof {
            let s2 = self.samples@;
            assert forall|i: int| 0 <= i < s2.len() - 1 implies #[trigger] s2[i + 1].x@ == s2[i].x@
                + self.h@ by {
                if i + 1 < s2.len() - 1 {
                    assert(old(self)@[i + 1].x@ == old(self)@[i].x@ + self.h@);
                }
            }
        }
    }
}

/// Within an epoch the abscissas are exactly linear in the index:
/// sample `j` lies `(j - i) * h` after sample `i`.
pub proof fn lemma_uniform_spacing(hist: History, i: int, j: int)
    requires
        hist.wf(),
        0 <= i <= j < hist@.len(),
    ensures
        hist@[j].x@ == hist@[i].x@ + (j - i) * hist.spacing()@,
        i < j ==> hist@[i].x@ < hist@[j].x@,
    decreases j - i,
{
    let h = hist.spacing()@;
    if i < j {
        lemma_uniform_spacing(hist, i, j - 1);
        assert(hist@[(j - 1) + 1].x@ == hist@[j - 1].x@ + h);
        assert((j - i) * h == (j - 1 - i) * h + h) by (nonlinear_arith);
        assert(0 < (j - i) * h) by (nonlinear_arith)
            requires
                i < j,
                h > 0,
        ;
    } else {
        assert((j - i) * h == 0) by (nonlinear_arith)
            requires
                i == j,
        ;
    }
}

} // verus!
