//! The signal sources: sine and square waves.
//!
//! A source produces a buffer of samples from nothing; it never reads the
//! incoming buffer. Each kind takes one parameter, `freq`, defaulting to
//! 440. The sample values themselves come from the caller's `SampleOps`;
//! the contracts here pin the buffer's length and relate every element to
//! the wave closure's postcondition at its index.

use vstd::prelude::*;
use vstd::pervasive::unreached;

use crate::errors::ErrView;
use crate::errors::PipelineError;
use crate::number::Number;
use crate::number::all_digit_chars;
use crate::number::lemma_digit_text_is_float_syntax;
use crate::params::parse_value_params;
use crate::params::spec_value_params;
use crate::samples::SampleOps;
use crate::samples::fill_wave;
use crate::samples::ops_wf;
use crate::samples::wave_rel;
use crate::text::find_first;
use crate::text::find_index;
use crate::text::lemma_find_index;
use crate::text::spec_split;
use crate::text::split_all;
use crate::text::text_eq;

verus! {

/// The outcome of parsing one source or processor spec: the final value
/// text of its one parameter, or the first error.
///
/// The spec is split on its first `:` into a tag and a parameter section;
/// a tag other than `tag` is rejected, a missing section leaves the
/// default, and the section is otherwise split on `,` into `key=value`
/// parameters.
pub open spec fn spec_component_value(
    spec: Seq<char>,
    tag: Seq<char>,
    key: Seq<char>,
    default: Seq<char>,
) -> Result<Seq<char>, ErrView> {
    let c = find_index(spec, ':');
    let t = if c < 0 {
        spec
    } else {
        spec.subrange(0, c)
    };
    if t != tag {
        Err(ErrView::WrongSpecType { expected: tag })
    } else if c < 0 {
        Ok(default)
    } else {
        spec_value_params(spec_split(spec.subrange(c + 1, spec.len() as int), ','), key, default)
    }
}

/// Splits a component spec on its first `:` and checks the tag; returns
/// the `,`-separated parameter section, or `None` when there is none.
pub(crate) fn split_spec_pieces(spec: &str, tag: &str) -> (r: Result<Option<Vec<String>>, PipelineError>)
    ensures
        match r {
            Ok(opt) => (if find_index(spec@, ':') < 0 {
                spec@ == tag@ && opt is None
            } else {
                spec@.subrange(0, find_index(spec@, ':')) == tag@ && (opt matches Some(ps)
                    && ps.deep_view() == spec_split(
                    spec@.subrange(find_index(spec@, ':') + 1, spec@.len() as int),
                    ',',
                ))
            }),
            Err(e) => e@ == (ErrView::WrongSpecType { expected: tag@ }) && (if find_index(
                spec@,
                ':',
            ) < 0 {
                spec@ != tag@
            } else {
                spec@.subrange(0, find_index(spec@, ':')) != tag@
            }),
        },
{
    proof {
        lemma_find_index(spec@, ':');
    }
    match find_first(spec, ':') {
        None => {
            if text_eq(spec, tag) {
                Ok(None)
            } else {
                Err(PipelineError::WrongSpecType { expected: tag.to_owned() })
            }
        },
        Some(i) => {
            let n = spec.unicode_len();
            let tagpart = spec.substring_char(0, i);
            if text_eq(tagpart, tag) {
                let rest = spec.substring_char(i + 1, n);
                Ok(Some(split_all(rest, ',')))
            } else {
                Err(PipelineError::WrongSpecType { expected: tag.to_owned() })
            }
        },
    }
}

/// The parameters of a sine source: its frequency, defaulting to 440.
#[derive(Debug)]
pub struct SineParams {
    pub freq: Number,
}

impl Default for SineParams {
    fn default() -> (r: Self)
        ensures
            r.freq@ == "440"@,
            r.freq.wf(),
    {
        proof {
            reveal_strlit("440");
            assert(all_digit_chars("440"@));
            lemma_digit_text_is_float_syntax("440"@);
        }
        match Number::from_text("440") {
            Some(freq) => SineParams { freq },
            None => unreached(),
        }
    }
}

impl SineParams {
    /// Folds `key=value` parameters over the default, per
    /// `spec_value_params`.
    pub fn parse(params: &Vec<String>) -> (r: Result<SineParams, PipelineError>)
        ensures
            match r {
                Ok(p) => spec_value_params(params.deep_view(), "freq"@, "440"@) == Ok::<
                    _,
                    ErrView,
                >(p.freq@) && p.freq.wf(),
                Err(e) => spec_value_params(params.deep_view(), "freq"@, "440"@) == Err::<
                    Seq<char>,
                    _,
                >(e@),
            },
    {
        let d = Self::default();
        match parse_value_params(params, "freq", d.freq) {
            Ok(freq) => Ok(SineParams { freq }),
            Err(e) => Err(e),
        }
    }
}

/// A sine wave source.
#[derive(Debug)]
pub struct SineWaveSource {
    pub frequency: Number,
}

impl SineWaveSource {
    pub fn new(frequency: Number) -> (r: Self)
        ensures
            r.frequency == frequency,
    {
        SineWaveSource { frequency }
    }

    /// Builds a sine source from its component spec.
    pub fn from_spec(spec: &str) -> (r: Result<Self, PipelineError>)
        ensures
            match r {
                Ok(s) => spec_component_value(spec@, "sine"@, "freq"@, "440"@) == Ok::<_, ErrView>(
                    s.frequency@,
                ) && s.frequency.wf(),
                Err(e) => spec_component_value(spec@, "sine"@, "freq"@, "440"@) == Err::<
                    Seq<char>,
                    _,
                >(e@),
            },
    {
        match split_spec_pieces(spec, "sine") {
            Err(e) => Err(e),
            Ok(None) => Ok(Self::new(SineParams::default().freq)),
            Ok(Some(pieces)) => match SineParams::parse(&pieces) {
                Ok(p) => Ok(Self::new(p.freq)),
                Err(e) => Err(e),
            },
        }
    }

    /// `n` sine samples drawn from the caller's arithmetic.
    pub fn generate<S, FSine, FSquare, FScale, FPeak, FAdd, FNorm>(
        &self,
        n: usize,
        ops: &SampleOps<S, FSine, FSquare, FScale, FPeak, FAdd, FNorm>,
    ) -> (r: Vec<S>) where
        FSine: Fn(&Number, usize) -> S,
        FSquare: Fn(&Number, usize) -> S,
        FScale: Fn(&Number, S) -> S,
        FPeak: Fn(S, S) -> S,
        FAdd: Fn(S, S) -> S,
        FNorm: Fn(S, usize) -> S,

        requires
            ops_wf(ops),
        ensures
            wave_rel(ops.sine, &self.frequency, n as nat, r@),
    {
        fill_wave(&ops.sine, &self.frequency, n)
    }
}

/// The parameters of a square source: its frequency, defaulting to 440.
#[derive(Debug)]
pub struct SquareParams {
    pub freq: Number,
}

impl Default for SquareParams {
    fn default() -> (r: Self)
        ensures
            r.freq@ == "440"@,
            r.freq.wf(),
    {
        proof {
            reveal_strlit("440");
            assert(all_digit_chars("440"@));
            lemma_digit_text_is_float_syntax("440"@);
        }
        match Number::from_text("440") {
            Some(freq) => SquareParams { freq },
            None => unreached(),
        }
    }
}

impl SquareParams {
    /// Folds `key=value` parameters over the default, per
    /// `spec_value_params`.
    pub fn parse(params: &Vec<String>) -> (r: Result<SquareParams, PipelineError>)
        ensures
            match r {
                Ok(p) => spec_value_params(params.deep_view(), "freq"@, "440"@) == Ok::<
                    _,
                    ErrView,
                >(p.freq@) && p.freq.wf(),
                Err(e) => spec_value_params(params.deep_view(), "freq"@, "440"@) == Err::<
                    Seq<char>,
                    _,
                >(e@),
            },
    {
        let d = Self::default();
        match parse_value_params(params, "freq", d.freq) {
            Ok(freq) => Ok(SquareParams { freq }),
            Err(e) => Err(e),
        }
    }
}

/// A square wave source.
#[derive(Debug)]
pub struct SquareWaveSource {
    pub frequency: Number,
}

impl SquareWaveSource {
    pub fn new(frequency: Number) -> (r: Self)
        ensures
            r.frequency == frequency,
    {
        SquareWaveSource { frequency }
    }

    /// Builds a square source from its component spec.
    pub fn from_spec(spec: &str) -> (r: Result<Self, PipelineError>)
        ensures
            match r {
                Ok(s) => spec_component_value(spec@, "square"@, "freq"@, "440"@) == Ok::<
                    _,
                    ErrView,
                >(s.frequency@) && s.frequency.wf(),
                Err(e) => spec_component_value(spec@, "square"@, "freq"@, "440"@) == Err::<
                    Seq<char>,
                    _,
                >(e@),
            },
    {
        match split_spec_pieces(spec, "square") {
            Err(e) => Err(e),
            Ok(None) => Ok(Self::new(SquareParams::default().freq)),
            Ok(Some(pieces)) => match SquareParams::parse(&pieces) {
                Ok(p) => Ok(Self::new(p.freq)),
                Err(e) => Err(e),
            },
        }
    }

    /// `n` square samples drawn from the caller's arithmetic.
    pub fn generate<S, FSine, FSquare, FScale, FPeak, FAdd, FNorm>(
        &self,
        n: usize,
        ops: &SampleOps<S, FSine, FSquare, FScale, FPeak, FAdd, FNorm>,
    ) -> (r: Vec<S>) where
        FSine: Fn(&Number, usize) -> S,
        FSquare: Fn(&Number, usize) -> S,
        FScale: Fn(&Number, S) -> S,
        FPeak: Fn(S, S) -> S,
        FAdd: Fn(S, S) -> S,
        FNorm: Fn(S, usize) -> S,

        requires
            ops_wf(ops),
        ensures
            wave_rel(ops.square, &self.frequency, n as nat, r@),
    {
        fill_wave(&ops.square, &self.frequency, n)
    }
}

} // verus!
