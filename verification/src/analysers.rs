//! The peak analyser.
//!
//! The analyser inspects a buffer without changing it: it folds the
//! caller's running-peak step over the samples, seeded with `zero`, and
//! caches the result. The seed makes the cached peak of an all-negative
//! buffer the seed itself, not the true maximum; that asymmetry is part of
//! the component's contract. The cached value is consumed by one retrieval
//! and is gone until the next analysis.

use vstd::prelude::*;

use crate::errors::ErrView;
use crate::errors::PipelineError;
use crate::number::Number;
use crate::samples::SampleOps;
use crate::samples::fold_all;
use crate::samples::fold_rel;
use crate::samples::ops_wf;
use crate::text::find_first;
use crate::text::find_index;
use crate::text::lemma_find_index;
use crate::text::text_eq;

verus! {

/// The outcome of parsing a peak spec: the analyser takes no parameters,
/// so any parameter section is an error.
pub open spec fn spec_peak_from(spec: Seq<char>) -> Result<(), ErrView> {
    let c = find_index(spec, ':');
    let t = if c < 0 {
        spec
    } else {
        spec.subrange(0, c)
    };
    if t != "peak"@ {
        Err(ErrView::WrongSpecType { expected: "peak"@ })
    } else if c >= 0 {
        Err(ErrView::PeakTakesNoParams)
    } else {
        Ok(())
    }
}

/// Measures the running peak of a buffer and holds it until retrieved.
#[derive(Debug)]
pub struct PeakAnalyser<S> {
    /// The most recently computed peak, cleared on retrieval.
    pub last_peak: Option<S>,
}

impl<S: Copy> PeakAnalyser<S> {
    pub fn new() -> (r: Self)
        ensures
            r.last_peak is None,
    {
        PeakAnalyser { last_peak: None }
    }

    /// Builds a peak analyser from its component spec.
    pub fn from_spec(spec: &str) -> (r: Result<Self, PipelineError>)
        ensures
            match r {
                Ok(a) => spec_peak_from(spec@) == Ok::<_, ErrView>(()) && a.last_peak is None,
                Err(e) => spec_peak_from(spec@) == Err::<(), _>(e@),
            },
    {
        proof {
            lemma_find_index(spec@, ':');
        }
        match find_first(spec, ':') {
            None => {
                if text_eq(spec, "peak") {
                    Ok(Self::new())
                } else {
                    Err(PipelineError::WrongSpecType { expected: String::from_str("peak") })
                }
            },
            Some(i) => {
                let tagpart = spec.substring_char(0, i);
                if text_eq(tagpart, "peak") {
                    Err(PipelineError::PeakTakesNoParams)
                } else {
                    Err(PipelineError::WrongSpecType { expected: String::from_str("peak") })
                }
            },
        }
    }

    /// Folds the running-peak step over `samples` from the seed
    /// `ops.zero`, and caches the result.
    pub fn analyze<FSine, FSquare, FScale, FPeak, FAdd, FNorm>(
        &mut self,
        samples: &Vec<S>,
        ops: &SampleOps<S, FSine, FSquare, FScale, FPeak, FAdd, FNorm>,
    ) -> (r: S) where
        FSine: Fn(&Number, usize) -> S,
        FSquare: Fn(&Number, usize) -> S,
        FScale: Fn(&Number, S) -> S,
        FPeak: Fn(S, S) -> S,
        FAdd: Fn(S, S) -> S,
        FNorm: Fn(S, usize) -> S,

        requires
            ops_wf(ops),
        ensures
            fold_rel(ops.peak, samples@, ops.zero, r),
            final(self).last_peak == Some(r),
    {
        let peak = fold_all(&ops.peak, samples, ops.zero);
        self.last_peak = Some(peak);
        peak
    }

    /// Takes the cached peak: one retrieval consumes it.
    pub fn get_result(&mut self) -> (r: Option<S>)
        ensures
            r == old(self).last_peak,
            final(self).last_peak is None,
    {
        let r = self.last_peak;
        self.last_peak = None;
        r
    }
}

} // verus!
