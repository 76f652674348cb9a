//! The volume (gain) processor.
//!
//! Volume scales every sample of an existing buffer in place by its one
//! parameter, `level`, defaulting to 1. The level is unconstrained: a
//! negative level inverts phase and a level above 1 can push samples out
//! of the nominal range; nothing clamps.

use vstd::prelude::*;
use vstd::pervasive::unreached;

use crate::errors::ErrView;
use crate::errors::PipelineError;
use crate::number::Number;
use crate::number::all_digit_chars;
use crate::number::lemma_digit_text_is_float_syntax;
use crate::params::parse_value_params;
use crate::params::spec_value_params;
use crate::samples::SampleOps;
use crate::samples::ops_wf;
use crate::samples::scale_all;
use crate::samples::scaled_rel;
use crate::sources::spec_component_value;
use crate::sources::split_spec_pieces;

verus! {

/// The parameters of a volume processor: its level, defaulting to 1.
#[derive(Debug)]
pub struct VolumeParams {
    pub level: Number,
}

impl Default for VolumeParams {
    fn default() -> (r: Self)
        ensures
            r.level@ == "1"@,
            r.level.wf(),
    {
        proof {
            reveal_strlit("1");
            assert(all_digit_chars("1"@));
            lemma_digit_text_is_float_syntax("1"@);
        }
        match Number::from_text("1") {
            Some(level) => VolumeParams { level },
            None => unreached(),
        }
    }
}

impl VolumeParams {
    /// Folds `key=value` parameters over the default, per
    /// `spec_value_params`.
    pub fn parse(params: &Vec<String>) -> (r: Result<VolumeParams, PipelineError>)
        ensures
            match r {
                Ok(p) => spec_value_params(params.deep_view(), "level"@, "1"@) == Ok::<
                    _,
                    ErrView,
                >(p.level@) && p.level.wf(),
                Err(e) => spec_value_params(params.deep_view(), "level"@, "1"@) == Err::<
                    Seq<char>,
                    _,
                >(e@),
            },
    {
        let d = Self::default();
        match parse_value_params(params, "level", d.level) {
            Ok(level) => Ok(VolumeParams { level }),
            Err(e) => Err(e),
        }
    }
}

/// A gain stage: multiplies every sample by its level.
#[derive(Debug)]
pub struct VolumeProcessor {
    pub volume: Number,
}

impl VolumeProcessor {
    pub fn new(volume: Number) -> (r: Self)
        ensures
            r.volume == volume,
    {
        VolumeProcessor { volume }
    }

    /// Builds a volume processor from its component spec.
    pub fn from_spec(spec: &str) -> (r: Result<Self, PipelineError>)
        ensures
            match r {
                Ok(p) => spec_component_value(spec@, "volume"@, "level"@, "1"@) == Ok::<
                    _,
                    ErrView,
                >(p.volume@) && p.volume.wf(),
                Err(e) => spec_component_value(spec@, "volume"@, "level"@, "1"@) == Err::<
                    Seq<char>,
                    _,
                >(e@),
            },
    {
        match split_spec_pieces(spec, "volume") {
            Err(e) => Err(e),
            Ok(None) => Ok(Self::new(VolumeParams::default().level)),
            Ok(Some(pieces)) => match VolumeParams::parse(&pieces) {
                Ok(p) => Ok(Self::new(p.level)),
                Err(e) => Err(e),
            },
        }
    }

    /// Applies the gain to every sample, in place.
    pub fn process<S: Copy, FSine, FSquare, FScale, FPeak, FAdd, FNorm>(
        &self,
        samples: &mut Vec<S>,
        ops: &SampleOps<S, FSine, FSquare, FScale, FPeak, FAdd, FNorm>,
    ) where
        FSine: Fn(&Number, usize) -> S,
        FSquare: Fn(&Number, usize) -> S,
        FScale: Fn(&Number, S) -> S,
        FPeak: Fn(S, S) -> S,
        FAdd: Fn(S, S) -> S,
        FNorm: Fn(S, usize) -> S,

        requires
            ops_wf(ops),
        ensures
            scaled_rel(ops.scale, &self.volume, old(samples)@, final(samples)@),
    {
        scale_all(&ops.scale, &self.volume, samples)
    }
}

} // verus!
