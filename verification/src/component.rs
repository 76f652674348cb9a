//! The closed set of pipeline components, behind one capability interface:
//! `process`, `is_source`, and `get_samples`.
//!
//! `CompModel` is the spec-level shape of a component — its kind, its
//! parameter value texts, and its children — with no run-time state; the
//! grammar in `factory` parses spec text to a `CompModel`, and every
//! constructor's contract says which model it built.

use vstd::prelude::*;

use crate::analysers::PeakAnalyser;
use crate::composite::Parallel;
use crate::errors::ErrView;
use crate::errors::PipelineError;
use crate::number::Number;
use crate::number::is_float_syntax;
use crate::processors::VolumeProcessor;
use crate::samples::SampleOps;
use crate::samples::fold_rel;
use crate::samples::ops_wf;
use crate::samples::scaled_rel;
use crate::samples::wave_rel;
use crate::sources::SineWaveSource;
use crate::sources::SquareWaveSource;

verus! {

/// The spec-level shape of a component.
pub enum CompModel {
    Sine { freq: Seq<char> },
    Square { freq: Seq<char> },
    Volume { level: Seq<char> },
    Peak,
    Parallel { children: Seq<CompModel> },
}

/// One stage of a pipeline: a source, a processor, an analyser, or the
/// parallel composite.
#[derive(Debug)]
pub enum Component<S> {
    Sine(SineWaveSource),
    Square(SquareWaveSource),
    Volume(VolumeProcessor),
    Peak(PeakAnalyser<S>),
    Parallel(Parallel<S>),
}

/// The models of a sequence of components, in order.
pub open spec fn models_of<S>(cs: Seq<Component<S>>) -> Seq<CompModel>
    decreases cs,
{
    if cs.len() == 0 {
        Seq::empty()
    } else {
        seq![cs[0].model()] + models_of(cs.drop_first())
    }
}

/// All numeric parameters in a sequence of components are valid.
pub open spec fn wf_all<S>(cs: Seq<Component<S>>) -> bool
    decreases cs,
{
    forall|i: int| 0 <= i < cs.len() ==> (#[trigger] cs[i]).wf()
}

/// No analyser in a sequence of components holds a cached result.
pub open spec fn pristine_all<S>(cs: Seq<Component<S>>) -> bool
    decreases cs,
{
    forall|i: int| 0 <= i < cs.len() ==> (#[trigger] cs[i]).pristine()
}

impl<S> Component<S> {
    /// The component's spec-level shape.
    pub open spec fn model(&self) -> CompModel
        decreases self,
    {
        match self {
            Component::Sine(src) => CompModel::Sine { freq: src.frequency@ },
            Component::Square(src) => CompModel::Square { freq: src.frequency@ },
            Component::Volume(v) => CompModel::Volume { level: v.volume@ },
            Component::Peak(_) => CompModel::Peak,
            Component::Parallel(p) => CompModel::Parallel { children: models_of(p.components@) },
        }
    }

    /// Every numeric parameter held by the component is valid float text.
    pub open spec fn wf(&self) -> bool
        decreases self,
    {
        match self {
            Component::Sine(src) => is_float_syntax(src.frequency@),
            Component::Square(src) => is_float_syntax(src.frequency@),
            Component::Volume(v) => is_float_syntax(v.volume@),
            Component::Peak(_) => true,
            Component::Parallel(p) => wf_all(p.components@),
        }
    }

    /// No analyser in the component holds a cached result.
    pub open spec fn pristine(&self) -> bool
        decreases self,
    {
        match self {
            Component::Peak(a) => a.last_peak is None,
            Component::Parallel(p) => pristine_all(p.components@),
            _ => true,
        }
    }

    /// Whether the component can produce samples from nothing. Sources
    /// are also exactly the components whose `get_samples` is `Some`.
    pub open spec fn spec_is_source(&self) -> bool {
        match self {
            Component::Sine(_) => true,
            Component::Square(_) => true,
            Component::Parallel(_) => true,
            Component::Volume(_) => false,
            Component::Peak(_) => false,
        }
    }

    /// Whether the component is a source.
    pub fn is_source(&self) -> (r: bool)
        ensures
            r == self.spec_is_source(),
    {
        match self {
            Component::Sine(_) => true,
            Component::Square(_) => true,
            Component::Parallel(_) => true,
            Component::Volume(_) => false,
            Component::Peak(_) => false,
        }
    }
}

/// `out` holds the `n` samples the source component `c` produces.
pub open spec fn gen_rel<S, FSine, FSquare, FScale, FPeak, FAdd, FNorm>(
    c: Component<S>,
    n: nat,
    out: Seq<S>,
    ops: &SampleOps<S, FSine, FSquare, FScale, FPeak, FAdd, FNorm>,
) -> bool where
    FSine: Fn(&Number, usize) -> S,
    FSquare: Fn(&Number, usize) -> S,
    FScale: Fn(&Number, S) -> S,
    FPeak: Fn(S, S) -> S,
    FAdd: Fn(S, S) -> S,
    FNorm: Fn(S, usize) -> S,

    decreases c, 2int,
{
    match c {
        Component::Sine(src) => wave_rel(ops.sine, &src.frequency, n, out),
        Component::Square(src) => wave_rel(ops.square, &src.frequency, n, out),
        Component::Parallel(p) => par_gen_rel(p, n, out, ops),
        _ => false,
    }
}

/// The number of sources among `cs`.
pub open spec fn count_sources<S>(cs: Seq<Component<S>>) -> nat
    decreases cs.len(),
{
    if cs.len() == 0 {
        0
    } else {
        (if cs[0].spec_is_source() {
            1nat
        } else {
            0nat
        }) + count_sources(cs.drop_first())
    }
}

/// One mixing step: a source child's generated buffer is added
/// element-wise into the running sum; a child that produces nothing
/// leaves it unchanged.
pub open spec fn mix_step<S, FSine, FSquare, FScale, FPeak, FAdd, FNorm>(
    c: Component<S>,
    n: nat,
    a: Seq<S>,
    b: Seq<S>,
    ops: &SampleOps<S, FSine, FSquare, FScale, FPeak, FAdd, FNorm>,
) -> bool where
    FSine: Fn(&Number, usize) -> S,
    FSquare: Fn(&Number, usize) -> S,
    FScale: Fn(&Number, S) -> S,
    FPeak: Fn(S, S) -> S,
    FAdd: Fn(S, S) -> S,
    FNorm: Fn(S, usize) -> S,

    decreases c, 3int,
{
    if c.spec_is_source() {
        exists|cb: Seq<S>|
            gen_rel(c, n, cb, ops) && #[trigger] crate::samples::added_rel(ops.add, a, cb, b)
    } else {
        b == a
    }
}

/// `bufs` is a run of the mixing loop over `cs`: one buffer per position,
/// each consecutive pair related by the child between them.
pub open spec fn mix_trace<S, FSine, FSquare, FScale, FPeak, FAdd, FNorm>(
    cs: Seq<Component<S>>,
    n: nat,
    bufs: Seq<Seq<S>>,
    ops: &SampleOps<S, FSine, FSquare, FScale, FPeak, FAdd, FNorm>,
) -> bool where
    FSine: Fn(&Number, usize) -> S,
    FSquare: Fn(&Number, usize) -> S,
    FScale: Fn(&Number, S) -> S,
    FPeak: Fn(S, S) -> S,
    FAdd: Fn(S, S) -> S,
    FNorm: Fn(S, usize) -> S,

    decreases cs, 0int,
{
    bufs.len() == cs.len() + 1 && forall|i: int|
        0 <= i < cs.len() ==> mix_step(#[trigger] cs[i], n, bufs[i], bufs[i + 1], ops)
}

/// Starting from the buffer `acc`, mixing in each source of `cs` in order
/// (element-wise, via `ops.add`) can yield `out`. Components that cannot
/// produce samples contribute nothing.
pub open spec fn mix_rel<S, FSine, FSquare, FScale, FPeak, FAdd, FNorm>(
    cs: Seq<Component<S>>,
    n: nat,
    acc: Seq<S>,
    out: Seq<S>,
    ops: &SampleOps<S, FSine, FSquare, FScale, FPeak, FAdd, FNorm>,
) -> bool where
    FSine: Fn(&Number, usize) -> S,
    FSquare: Fn(&Number, usize) -> S,
    FScale: Fn(&Number, S) -> S,
    FPeak: Fn(S, S) -> S,
    FAdd: Fn(S, S) -> S,
    FNorm: Fn(S, usize) -> S,

    decreases cs, 1int,
{
    exists|bufs: Seq<Seq<S>>|
        #[trigger] crate::samples::has_len((cs.len() + 1) as nat, bufs) && mix_trace(cs, n, bufs, ops)
            && bufs[0] == acc && bufs[cs.len() as int] == out
}

/// `out` is the parallel composite's mix: every source child's buffer
/// summed element-wise into a zero buffer of length `n`, then each sample
/// divided by the number of source children — unless that number is zero,
/// in which case the (necessarily untouched) sum stands as it is.
pub open spec fn par_gen_rel<S, FSine, FSquare, FScale, FPeak, FAdd, FNorm>(
    p: Parallel<S>,
    n: nat,
    out: Seq<S>,
    ops: &SampleOps<S, FSine, FSquare, FScale, FPeak, FAdd, FNorm>,
) -> bool where
    FSine: Fn(&Number, usize) -> S,
    FSquare: Fn(&Number, usize) -> S,
    FScale: Fn(&Number, S) -> S,
    FPeak: Fn(S, S) -> S,
    FAdd: Fn(S, S) -> S,
    FNorm: Fn(S, usize) -> S,

    decreases p, 4int,
{
    out.len() == n && (exists|sum: Seq<S>|
        #[trigger] crate::samples::has_len(n, sum) && mix_rel(
            p.components@,
            n,
            crate::samples::zero_seq(ops.zero, n),
            sum,
            ops,
        ) && (if count_sources(p.components@) == 0 {
            out == sum
        } else {
            crate::samples::normed_rel(ops.norm, count_sources(p.components@) as usize, sum, out)
        }))
}

/// Introduces `mix_step` for a source child from its generated buffer.
pub proof fn lemma_mix_step_intro<S, FSine, FSquare, FScale, FPeak, FAdd, FNorm>(
    c: Component<S>,
    n: nat,
    a: Seq<S>,
    cb: Seq<S>,
    b: Seq<S>,
    ops: &SampleOps<S, FSine, FSquare, FScale, FPeak, FAdd, FNorm>,
) where
    FSine: Fn(&Number, usize) -> S,
    FSquare: Fn(&Number, usize) -> S,
    FScale: Fn(&Number, S) -> S,
    FPeak: Fn(S, S) -> S,
    FAdd: Fn(S, S) -> S,
    FNorm: Fn(S, usize) -> S,

    requires
        c.spec_is_source(),
        gen_rel(c, n, cb, ops),
        crate::samples::added_rel(ops.add, a, cb, b),
    ensures
        mix_step(c, n, a, b, ops),
{
    assert(exists|cb2: Seq<S>|
        gen_rel(c, n, cb2, ops) && #[trigger] crate::samples::added_rel(ops.add, a, cb2, b));
}

/// Introduces `mix_rel` from an explicit trace.
pub proof fn lemma_mix_rel_intro<S, FSine, FSquare, FScale, FPeak, FAdd, FNorm>(
    cs: Seq<Component<S>>,
    n: nat,
    bufs: Seq<Seq<S>>,
    acc: Seq<S>,
    out: Seq<S>,
    ops: &SampleOps<S, FSine, FSquare, FScale, FPeak, FAdd, FNorm>,
) where
    FSine: Fn(&Number, usize) -> S,
    FSquare: Fn(&Number, usize) -> S,
    FScale: Fn(&Number, S) -> S,
    FPeak: Fn(S, S) -> S,
    FAdd: Fn(S, S) -> S,
    FNorm: Fn(S, usize) -> S,

    requires
        mix_trace(cs, n, bufs, ops),
        bufs[0] == acc,
        bufs[cs.len() as int] == out,
    ensures
        mix_rel(cs, n, acc, out, ops),
{
    assert(crate::samples::has_len((cs.len() + 1) as nat, bufs));
    assert(exists|bufs2: Seq<Seq<S>>|
        #[trigger] crate::samples::has_len((cs.len() + 1) as nat, bufs2) && mix_trace(
            cs,
            n,
            bufs2,
            ops,
        ) && bufs2[0] == acc && bufs2[cs.len() as int] == out);
}

/// Introduces `par_gen_rel` from a mixed sum.
pub proof fn lemma_par_gen_intro<S, FSine, FSquare, FScale, FPeak, FAdd, FNorm>(
    p: Parallel<S>,
    n: nat,
    sum: Seq<S>,
    out: Seq<S>,
    ops: &SampleOps<S, FSine, FSquare, FScale, FPeak, FAdd, FNorm>,
) where
    FSine: Fn(&Number, usize) -> S,
    FSquare: Fn(&Number, usize) -> S,
    FScale: Fn(&Number, S) -> S,
    FPeak: Fn(S, S) -> S,
    FAdd: Fn(S, S) -> S,
    FNorm: Fn(S, usize) -> S,

    requires
        out.len() == n,
        sum.len() == n,
        mix_rel(p.components@, n, crate::samples::zero_seq(ops.zero, n), sum, ops),
        if count_sources(p.components@) == 0 {
            out == sum
        } else {
            crate::samples::normed_rel(ops.norm, count_sources(p.components@) as usize, sum, out)
        },
    ensures
        par_gen_rel(p, n, out, ops),
{
    assert(crate::samples::has_len(n, sum));
    assert(exists|s2: Seq<S>|
        #[trigger] crate::samples::has_len(n, s2) && mix_rel(
            p.components@,
            n,
            crate::samples::zero_seq(ops.zero, n),
            s2,
            ops,
        ) && (if count_sources(p.components@) == 0 {
            out == s2
        } else {
            crate::samples::normed_rel(ops.norm, count_sources(p.components@) as usize, s2, out)
        }));
}

/// What a source generates has exactly `n` samples.
pub proof fn lemma_gen_len<S, FSine, FSquare, FScale, FPeak, FAdd, FNorm>(
    c: Component<S>,
    n: nat,
    out: Seq<S>,
    ops: &SampleOps<S, FSine, FSquare, FScale, FPeak, FAdd, FNorm>,
) where
    FSine: Fn(&Number, usize) -> S,
    FSquare: Fn(&Number, usize) -> S,
    FScale: Fn(&Number, S) -> S,
    FPeak: Fn(S, S) -> S,
    FAdd: Fn(S, S) -> S,
    FNorm: Fn(S, usize) -> S,

    requires
        gen_rel(c, n, out, ops),
    ensures
        out.len() == n,
{
    match c {
        Component::Sine(src) => {
            assert(wave_rel(ops.sine, &src.frequency, n, out));
        },
        Component::Square(src) => {
            assert(wave_rel(ops.square, &src.frequency, n, out));
        },
        Component::Parallel(p) => {
            assert(par_gen_rel(p, n, out, ops));
        },
        _ => {},
    }
}

/// The error a non-source component raises on an empty buffer.
pub open spec fn stage_err_view<S>(c: Component<S>) -> ErrView {
    match c {
        Component::Volume(_) => ErrView::ProcessorNeedsInput,
        _ => ErrView::AnalyserNeedsInput,
    }
}

/// Whether running `c` against the incoming buffer `inb` fails: only
/// non-source components need input, and only an empty buffer is refused.
pub open spec fn stage_err<S>(c: Component<S>, inb: Seq<S>) -> bool {
    !c.spec_is_source() && inb.len() == 0
}

/// How one successful `process` call relates the component and the buffer
/// before and after: a source replaces the buffer with what it generates,
/// volume scales it in place, and the analyser leaves it unchanged while
/// caching the fold of the running-peak step over it.
pub open spec fn stage_rel<S, FSine, FSquare, FScale, FPeak, FAdd, FNorm>(
    c_old: Component<S>,
    c_new: Component<S>,
    inb: Seq<S>,
    outb: Seq<S>,
    n: nat,
    ops: &SampleOps<S, FSine, FSquare, FScale, FPeak, FAdd, FNorm>,
) -> bool where
    FSine: Fn(&Number, usize) -> S,
    FSquare: Fn(&Number, usize) -> S,
    FScale: Fn(&Number, S) -> S,
    FPeak: Fn(S, S) -> S,
    FAdd: Fn(S, S) -> S,
    FNorm: Fn(S, usize) -> S,
 {
    match c_old {
        Component::Sine(_) => c_new == c_old && gen_rel(c_old, n, outb, ops),
        Component::Square(_) => c_new == c_old && gen_rel(c_old, n, outb, ops),
        Component::Parallel(_) => c_new == c_old && gen_rel(c_old, n, outb, ops),
        Component::Volume(v) => c_new == c_old && inb.len() > 0 && scaled_rel(
            ops.scale,
            &v.volume,
            inb,
            outb,
        ),
        Component::Peak(_) => inb.len() > 0 && outb == inb && (c_new matches Component::Peak(an)
            && an.last_peak matches Some(p) && fold_rel(ops.peak, inb, ops.zero, p)),
    }
}

impl<S: Copy> Component<S> {
    /// The samples the component can produce on its own: `Some` exactly
    /// for sources.
    pub fn get_samples<FSine, FSquare, FScale, FPeak, FAdd, FNorm>(
        &self,
        n: usize,
        ops: &SampleOps<S, FSine, FSquare, FScale, FPeak, FAdd, FNorm>,
    ) -> (r: Option<Vec<S>>) where
        FSine: Fn(&Number, usize) -> S,
        FSquare: Fn(&Number, usize) -> S,
        FScale: Fn(&Number, S) -> S,
        FPeak: Fn(S, S) -> S,
        FAdd: Fn(S, S) -> S,
        FNorm: Fn(S, usize) -> S,

        requires
            ops_wf(ops),
        ensures
            match r {
                Some(buf) => self.spec_is_source() && gen_rel(*self, n as nat, buf@, ops),
                None => !self.spec_is_source(),
            },
        decreases self,
    {
        match self {
            Component::Sine(src) => Some(src.generate(n, ops)),
            Component::Square(src) => Some(src.generate(n, ops)),
            Component::Parallel(p) => Some(p.generate(n, ops)),
            Component::Volume(_) => None,
            Component::Peak(_) => None,
        }
    }

    /// Runs the component over the shared buffer: a source (or the
    /// composite) replaces it, volume scales it in place, and the
    /// analyser observes it; non-source components refuse an empty
    /// buffer.
    pub fn process<FSine, FSquare, FScale, FPeak, FAdd, FNorm>(
        &mut self,
        buffer: &mut Vec<S>,
        n: usize,
        ops: &SampleOps<S, FSine, FSquare, FScale, FPeak, FAdd, FNorm>,
    ) -> (r: Result<(), PipelineError>) where
        FSine: Fn(&Number, usize) -> S,
        FSquare: Fn(&Number, usize) -> S,
        FScale: Fn(&Number, S) -> S,
        FPeak: Fn(S, S) -> S,
        FAdd: Fn(S, S) -> S,
        FNorm: Fn(S, usize) -> S,

        requires
            ops_wf(ops),
        ensures
            match r {
                Ok(_) => !stage_err(*old(self), old(buffer)@) && stage_rel(
                    *old(self),
                    *final(self),
                    old(buffer)@,
                    final(buffer)@,
                    n as nat,
                    ops,
                ),
                Err(e) => stage_err(*old(self), old(buffer)@) && *final(self) == *old(self)
                    && final(buffer)@ == old(buffer)@ && e@ == stage_err_view(*old(self)),
            },
    {
        match self {
            Component::Sine(src) => {
                let out = src.generate(n, ops);
                *buffer = out;
                Ok(())
            },
            Component::Square(src) => {
                let out = src.generate(n, ops);
                *buffer = out;
                Ok(())
            },
            Component::Parallel(p) => {
                let out = p.generate(n, ops);
                *buffer = out;
                Ok(())
            },
            Component::Volume(v) => {
                if buffer.len() == 0 {
                    Err(PipelineError::ProcessorNeedsInput)
                } else {
                    v.process(buffer, ops);
                    Ok(())
                }
            },
            Component::Peak(a) => {
                if buffer.len() == 0 {
                    Err(PipelineError::AnalyserNeedsInput)
                } else {
                    a.analyze(buffer, ops);
                    Ok(())
                }
            },
        }
    }
}

} // verus!
