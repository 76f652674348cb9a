//! The pipeline engine.
//!
//! A pipeline is built by appending components one at a time — the first
//! must be a source — and is then run: each component's `process` is
//! driven in insertion order over one shared buffer, the first failure
//! aborting the remaining stages. A run's outcome is pinned twice over:
//! `runs` relates the buffer and every component's state before and after,
//! stage by stage, and `spec_run_len` decides, from the component kinds
//! alone, whether a run succeeds and how long its buffer comes out.

use vstd::prelude::*;

use crate::component::CompModel;
use crate::component::Component;
use crate::component::lemma_gen_len;
use crate::component::models_of;
use crate::component::stage_err;
use crate::component::stage_err_view;
use crate::component::stage_rel;
use crate::errors::ErrView;
use crate::errors::PipelineError;
use crate::number::Number;
use crate::samples::SampleOps;
use crate::samples::ops_wf;

verus! {

/// A named side-channel measurement taken during a run.
#[derive(Debug, Clone)]
pub struct AnalysisResult {
    pub analyser: String,
    pub value: String,
}

/// An ordered chain of components sharing one sample buffer.
#[derive(Debug)]
pub struct Pipeline<S> {
    components: Vec<Component<S>>,
}

impl<S> View for Pipeline<S> {
    type V = Seq<Component<S>>;

    closed spec fn view(&self) -> Seq<Component<S>> {
        self.components@
    }
}

/// The structural invariant: a non-empty pipeline starts with a source.
pub open spec fn pipeline_wf<S>(cs: Seq<Component<S>>) -> bool {
    cs.len() > 0 ==> cs[0].spec_is_source()
}

/// The length of the buffer after running `cs` over a buffer of length
/// `len0`, with sources producing `n` samples — or the error of the first
/// non-source stage to meet an empty buffer.
pub open spec fn spec_run_len<S>(cs: Seq<Component<S>>, len0: nat, n: nat) -> Result<nat, ErrView>
    decreases cs.len(),
{
    if cs.len() == 0 {
        Ok(len0)
    } else if cs[0].spec_is_source() {
        spec_run_len(cs.drop_first(), n, n)
    } else if len0 == 0 {
        Err(stage_err_view(cs[0]))
    } else {
        spec_run_len(cs.drop_first(), len0, n)
    }
}

/// How one run relates the components and the buffer, stage by stage:
/// starting from `inb`, each stage transforms the buffer per `stage_rel`
/// until the end (`Ok` of the final buffer) or the first stage that
/// refuses its input (`Err` of that stage's error, all later components
/// untouched).
pub open spec fn runs<S, FSine, FSquare, FScale, FPeak, FAdd, FNorm>(
    cs_old: Seq<Component<S>>,
    cs_new: Seq<Component<S>>,
    inb: Seq<S>,
    outcome: Result<Seq<S>, ErrView>,
    n: nat,
    ops: &SampleOps<S, FSine, FSquare, FScale, FPeak, FAdd, FNorm>,
) -> bool where
    FSine: Fn(&Number, usize) -> S,
    FSquare: Fn(&Number, usize) -> S,
    FScale: Fn(&Number, S) -> S,
    FPeak: Fn(S, S) -> S,
    FAdd: Fn(S, S) -> S,
    FNorm: Fn(S, usize) -> S,

    decreases cs_old.len(),
{
    cs_new.len() == cs_old.len() && (if cs_old.len() == 0 {
        outcome == Ok::<Seq<S>, ErrView>(inb)
    } else if stage_err(cs_old[0], inb) {
        outcome == Err::<Seq<S>, ErrView>(stage_err_view(cs_old[0])) && cs_new == cs_old
    } else {
        exists|mid: Seq<S>|
            #[trigger] stage_rel(cs_old[0], cs_new[0], inb, mid, n, ops) && runs(
                cs_old.drop_first(),
                cs_new.drop_first(),
                mid,
                outcome,
                n,
                ops,
            )
    })
}

/// Extends a successful run by one more successful stage.
proof fn lemma_runs_snoc<S, FSine, FSquare, FScale, FPeak, FAdd, FNorm>(
    cs_old: Seq<Component<S>>,
    cs_new: Seq<Component<S>>,
    inb: Seq<S>,
    mid: Seq<S>,
    c_old: Component<S>,
    c_new: Component<S>,
    out: Seq<S>,
    n: nat,
    ops: &SampleOps<S, FSine, FSquare, FScale, FPeak, FAdd, FNorm>,
) where
    FSine: Fn(&Number, usize) -> S,
    FSquare: Fn(&Number, usize) -> S,
    FScale: Fn(&Number, S) -> S,
    FPeak: Fn(S, S) -> S,
    FAdd: Fn(S, S) -> S,
    FNorm: Fn(S, usize) -> S,

    requires
        runs(cs_old, cs_new, inb, Ok::<Seq<S>, ErrView>(mid), n, ops),
        !stage_err(c_old, mid),
        stage_rel(c_old, c_new, mid, out, n, ops),
    ensures
        runs(cs_old.push(c_old), cs_new.push(c_new), inb, Ok::<Seq<S>, ErrView>(out), n, ops),
    decreases cs_old.len(),
{
    if cs_old.len() == 0 {
        assert(inb == mid);
        assert(cs_old.push(c_old)[0] == c_old);
        assert(cs_new.push(c_new)[0] == c_new);
        assert(cs_old.push(c_old).drop_first() =~= Seq::<Component<S>>::empty());
        assert(cs_new.push(c_new).drop_first() =~= Seq::<Component<S>>::empty());
        assert(runs(
            cs_old.push(c_old).drop_first(),
            cs_new.push(c_new).drop_first(),
            out,
            Ok::<Seq<S>, ErrView>(out),
            n,
            ops,
        ));
    } else {
        assert(cs_old.push(c_old).drop_first() =~= cs_old.drop_first().push(c_old));
        assert(cs_new.push(c_new).drop_first() =~= cs_new.drop_first().push(c_new));
        assert(cs_old.push(c_old)[0] == cs_old[0]);
        assert(cs_new.push(c_new)[0] == cs_new[0]);
        let mid0 = choose|mid0: Seq<S>|
            #[trigger] stage_rel(cs_old[0], cs_new[0], inb, mid0, n, ops) && runs(
                cs_old.drop_first(),
                cs_new.drop_first(),
                mid0,
                Ok::<Seq<S>, ErrView>(mid),
                n,
                ops,
            );
        lemma_runs_snoc(
            cs_old.drop_first(),
            cs_new.drop_first(),
            mid0,
            mid,
            c_old,
            c_new,
            out,
            n,
            ops,
        );
        assert(stage_rel(cs_old.push(c_old)[0], cs_new.push(c_new)[0], inb, mid0, n, ops));
    }
}

/// Extends a successful run by a stage that refuses its input; the
/// refusing stage and everything after it stay as they were.
proof fn lemma_runs_fail<S, FSine, FSquare, FScale, FPeak, FAdd, FNorm>(
    cs_old: Seq<Component<S>>,
    cs_new: Seq<Component<S>>,
    inb: Seq<S>,
    mid: Seq<S>,
    rest: Seq<Component<S>>,
    n: nat,
    ops: &SampleOps<S, FSine, FSquare, FScale, FPeak, FAdd, FNorm>,
) where
    FSine: Fn(&Number, usize) -> S,
    FSquare: Fn(&Number, usize) -> S,
    FScale: Fn(&Number, S) -> S,
    FPeak: Fn(S, S) -> S,
    FAdd: Fn(S, S) -> S,
    FNorm: Fn(S, usize) -> S,

    requires
        runs(cs_old, cs_new, inb, Ok::<Seq<S>, ErrView>(mid), n, ops),
        rest.len() > 0,
        stage_err(rest[0], mid),
    ensures
        runs(
            cs_old + rest,
            cs_new + rest,
            inb,
            Err::<Seq<S>, ErrView>(stage_err_view(rest[0])),
            n,
            ops,
        ),
    decreases cs_old.len(),
{
    if cs_old.len() == 0 {
        assert(cs_old + rest =~= rest);
        assert(cs_new + rest =~= rest);
        assert(inb == mid);
    } else {
        let mid0 = choose|mid0: Seq<S>|
            #[trigger] stage_rel(cs_old[0], cs_new[0], inb, mid0, n, ops) && runs(
                cs_old.drop_first(),
                cs_new.drop_first(),
                mid0,
                Ok::<Seq<S>, ErrView>(mid),
                n,
                ops,
            );
        lemma_runs_fail(cs_old.drop_first(), cs_new.drop_first(), mid0, mid, rest, n, ops);
        assert((cs_old + rest).drop_first() =~= cs_old.drop_first() + rest);
        assert((cs_new + rest).drop_first() =~= cs_new.drop_first() + rest);
        assert((cs_old + rest)[0] == cs_old[0]);
        assert((cs_new + rest)[0] == cs_new[0]);
        assert(stage_rel((cs_old + rest)[0], (cs_new + rest)[0], inb, mid0, n, ops));
    }
}

/// A run never changes a pipeline's structure: every component keeps its
/// kind and its parameters — only the analyser's cached result may move —
/// so a pipeline can be run again, with any sample count.
pub proof fn lemma_runs_preserves_models<S, FSine, FSquare, FScale, FPeak, FAdd, FNorm>(
    cs_old: Seq<Component<S>>,
    cs_new: Seq<Component<S>>,
    inb: Seq<S>,
    outcome: Result<Seq<S>, ErrView>,
    n: nat,
    ops: &SampleOps<S, FSine, FSquare, FScale, FPeak, FAdd, FNorm>,
) where
    FSine: Fn(&Number, usize) -> S,
    FSquare: Fn(&Number, usize) -> S,
    FScale: Fn(&Number, S) -> S,
    FPeak: Fn(S, S) -> S,
    FAdd: Fn(S, S) -> S,
    FNorm: Fn(S, usize) -> S,

    requires
        runs(cs_old, cs_new, inb, outcome, n, ops),
    ensures
        models_of(cs_new) == models_of(cs_old),
    decreases cs_old.len(),
{
    if cs_old.len() == 0 {
        assert(models_of(cs_new) == Seq::<CompModel>::empty());
        assert(models_of(cs_old) == Seq::<CompModel>::empty());
    } else if stage_err(cs_old[0], inb) {
        assert(cs_new == cs_old);
    } else {
        let mid = choose|mid: Seq<S>|
            #[trigger] stage_rel(cs_old[0], cs_new[0], inb, mid, n, ops) && runs(
                cs_old.drop_first(),
                cs_new.drop_first(),
                mid,
                outcome,
                n,
                ops,
            );
        lemma_runs_preserves_models(cs_old.drop_first(), cs_new.drop_first(), mid, outcome, n, ops);
        assert(cs_new[0].model() == cs_old[0].model()) by {
            match cs_old[0] {
                Component::Peak(_) => {
                    assert(cs_new[0] is Peak);
                },
                _ => {
                    assert(cs_new[0] == cs_old[0]);
                },
            }
        }
        assert(models_of(cs_old) == seq![cs_old[0].model()] + models_of(cs_old.drop_first()));
        assert(models_of(cs_new) == seq![cs_new[0].model()] + models_of(cs_new.drop_first()));
    }
}

/// With sources producing at least one sample, a pipeline that starts
/// with a source never meets an empty buffer: a run's length is the
/// sources' sample count, whatever else the pipeline holds.
pub proof fn lemma_source_first_run_len<S>(cs: Seq<Component<S>>, n: nat)
    requires
        cs.len() > 0,
        cs[0].spec_is_source(),
        n > 0,
    ensures
        spec_run_len(cs, 0, n) == Ok::<nat, ErrView>(n),
{
    lemma_nonempty_run_len(cs.drop_first(), n);
}

/// Once the buffer holds `n > 0` samples, no later stage can fail, and
/// every stage leaves the length at `n`.
proof fn lemma_nonempty_run_len<S>(cs: Seq<Component<S>>, n: nat)
    requires
        n > 0,
    ensures
        spec_run_len(cs, n, n) == Ok::<nat, ErrView>(n),
    decreases cs.len(),
{
    if cs.len() > 0 {
        lemma_nonempty_run_len(cs.drop_first(), n);
    }
}

impl<S: Copy> Pipeline<S> {
    /// An empty pipeline.
    pub fn new() -> (r: Self)
        ensures
            r@ =~= Seq::<Component<S>>::empty(),
            pipeline_wf(r@),
    {
        Pipeline { components: Vec::new() }
    }

    /// Appends a component, refusing a non-source at the head: nothing
    /// before the first component could have produced its input.
    pub fn add_component(&mut self, component: Component<S>) -> (r: Result<(), PipelineError>)
        ensures
            match r {
                Ok(_) => (old(self)@.len() > 0 || component.spec_is_source()) && final(self)@
                    == old(self)@.push(component),
                Err(e) => old(self)@.len() == 0 && !component.spec_is_source() && final(self)@
                    == old(self)@ && e@ == ErrView::NotStartingWithSource,
            },
            pipeline_wf(old(self)@) ==> pipeline_wf(final(self)@),
    {
        if self.components.len() == 0 && !component.is_source() {
            return Err(PipelineError::NotStartingWithSource);
        }
        self.components.push(component);
        Ok(())
    }

    /// Runs every component in insertion order over one shared buffer,
    /// aborting on the first failure. `num_samples` is the buffer length
    /// each source produces; the caller computes it from its duration and
    /// sample rate.
    pub fn run<FSine, FSquare, FScale, FPeak, FAdd, FNorm>(
        &mut self,
        num_samples: usize,
        ops: &SampleOps<S, FSine, FSquare, FScale, FPeak, FAdd, FNorm>,
    ) -> (r: Result<Vec<S>, PipelineError>) where
        FSine: Fn(&Number, usize) -> S,
        FSquare: Fn(&Number, usize) -> S,
        FScale: Fn(&Number, S) -> S,
        FPeak: Fn(S, S) -> S,
        FAdd: Fn(S, S) -> S,
        FNorm: Fn(S, usize) -> S,

        requires
            ops_wf(ops),
        ensures
            final(self)@.len() == old(self)@.len(),
            match r {
                Ok(v) => runs(
                    old(self)@,
                    final(self)@,
                    Seq::empty(),
                    Ok::<Seq<S>, ErrView>(v@),
                    num_samples as nat,
                    ops,
                ) && spec_run_len(old(self)@, 0, num_samples as nat) == Ok::<nat, ErrView>(
                    v@.len() as nat,
                ),
                Err(e) => runs(
                    old(self)@,
                    final(self)@,
                    Seq::empty(),
                    Err::<Seq<S>, ErrView>(e@),
                    num_samples as nat,
                    ops,
                ) && spec_run_len(old(self)@, 0, num_samples as nat) == Err::<nat, ErrView>(e@),
            },
    {
        let ghost n = num_samples as nat;
        let ghost orig = self.components@;
        let mut buffer: Vec<S> = Vec::new();
        let n_comps = self.components.len();
        let mut i: usize = 0;
        proof {
            assert(orig.subrange(0, 0) =~= Seq::<Component<S>>::empty());
            assert(self.components@.subrange(0, 0) =~= Seq::<Component<S>>::empty());
            assert(orig.skip(0) =~= orig);
        }
        while i < n_comps
            invariant
                i <= n_comps == self.components@.len(),
                self.components@.len() == orig.len(),
                ops_wf(ops),
                n == num_samples as nat,
                orig == old(self).components@,
                forall|k: int| i <= k < orig.len() ==> self.components@[k] == #[trigger] orig[k],
                runs(
                    orig.subrange(0, i as int),
                    self.components@.subrange(0, i as int),
                    Seq::empty(),
                    Ok::<Seq<S>, ErrView>(buffer@),
                    n,
                    ops,
                ),
                spec_run_len(orig, 0, n) == spec_run_len(orig.skip(i as int), buffer@.len() as nat, n),
            decreases n_comps - i,
        {
            let ghost pre_buf = buffer@;
            let ghost pre_comps = self.components@;
            let ghost rest = orig.skip(i as int);
            proof {
                assert(rest[0] == orig[i as int]);
                assert(rest.drop_first() =~= orig.skip(i as int + 1));
            }
            let comp = &mut self.components[i];
            let res = comp.process(&mut buffer, num_samples, ops);
            match res {
                Ok(_) => {
                    proof {
                        let c_old = orig[i as int];
                        let c_new = self.components@[i as int];
                        assert(stage_rel(c_old, c_new, pre_buf, buffer@, n, ops));
                        lemma_runs_snoc(
                            orig.subrange(0, i as int),
                            pre_comps.subrange(0, i as int),
                            Seq::empty(),
                            pre_buf,
                            c_old,
                            c_new,
                            buffer@,
                            n,
                            ops,
                        );
                        assert(orig.subrange(0, i as int).push(c_old) =~= orig.subrange(
                            0,
                            i as int + 1,
                        ));
                        assert(pre_comps.subrange(0, i as int).push(c_new) =~= self.components@
                            .subrange(0, i as int + 1));
                        assert(pre_comps.subrange(0, i as int) =~= self.components@.subrange(
                            0,
                            i as int,
                        ));
                        if c_old.spec_is_source() {
                            lemma_gen_len(c_old, n, buffer@, ops);
                            assert(buffer@.len() == n);
                        } else {
                            assert(buffer@.len() == pre_buf.len());
                        }
                    }
                },
                Err(e) => {
                    proof {
                        assert(stage_err(orig[i as int], pre_buf));
                        assert(buffer@ == pre_buf);
                        assert(self.components@ == pre_comps);
                        lemma_runs_fail(
                            orig.subrange(0, i as int),
                            self.components@.subrange(0, i as int),
                            Seq::empty(),
                            pre_buf,
                            rest,
                            n,
                            ops,
                        );
                        assert(orig.subrange(0, i as int) + rest =~= orig);
                        assert(self.components@.subrange(0, i as int) + rest
                            =~= self.components@);
                        assert(e@ == stage_err_view(rest[0]));
                    }
                    return Err(e);
                },
            }
            i += 1;
        }
        proof {
            assert(orig.subrange(0, orig.len() as int) =~= orig);
            assert(self.components@.subrange(0, self.components@.len() as int)
                =~= self.components@);
            assert(orig.skip(orig.len() as int) =~= Seq::<Component<S>>::empty());
        }
        Ok(buffer)
    }
}

} // verus!
