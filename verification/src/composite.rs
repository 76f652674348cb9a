//! The parallel composite: an ordered list of child components whose
//! sources are generated over the same `(n)` and mixed.
//!
//! Mixing sums every sample-producing child element-wise into a zero
//! buffer, then divides each sample by the number of source children to
//! normalize loudness; with no source children the sum is left as it is
//! (necessarily all zero, since nothing contributed).

use vstd::prelude::*;

use crate::component::Component;
use crate::component::count_sources;
use crate::component::mix_step;
use crate::component::mix_trace;
use crate::component::models_of;
use crate::component::par_gen_rel;
use crate::component::pristine_all;
use crate::component::wf_all;
use crate::component::CompModel;
use crate::errors::ErrView;
use crate::errors::PipelineError;
use crate::factory::create_component;
use crate::factory::spec_build;
use crate::factory::spec_build_list;
use crate::factory::spec_parallel_build;
use crate::number::Number;
use crate::parser::lemma_tokenize_pieces;
use crate::parser::parse_components;
use crate::samples::add_into;
use crate::samples::norm_all;
use crate::samples::normed_rel;
use crate::samples::ops_wf;
use crate::samples::zero_buffer;
use crate::samples::SampleOps;
use crate::text::find_first;
use crate::text::lemma_find_index;
use crate::text::text_eq;

verus! {

/// The parallel composite component.
#[derive(Debug)]
pub struct Parallel<S> {
    pub components: Vec<Component<S>>,
}

/// Counting sources extends over a push.
pub proof fn lemma_count_snoc<S>(cs: Seq<Component<S>>, c: Component<S>)
    ensures
        count_sources(cs.push(c)) == count_sources(cs) + (if c.spec_is_source() {
            1nat
        } else {
            0nat
        }),
    decreases cs.len(),
{
    assert(cs.push(c)[0] == if cs.len() == 0 { c } else { cs[0] });
    assert(count_sources(cs.push(c)) == (if cs.push(c)[0].spec_is_source() {
        1nat
    } else {
        0nat
    }) + count_sources(cs.push(c).drop_first()));
    if cs.len() == 0 {
        assert(cs.push(c).drop_first() =~= Seq::<Component<S>>::empty());
        assert(count_sources(cs.push(c).drop_first()) == 0);
    } else {
        assert(cs.push(c).drop_first() =~= cs.drop_first().push(c));
        lemma_count_snoc(cs.drop_first(), c);
        assert(count_sources(cs) == (if cs[0].spec_is_source() {
            1nat
        } else {
            0nat
        }) + count_sources(cs.drop_first()));
    }
}

/// The models of a component list extend over a push.
pub proof fn lemma_models_snoc<S>(cs: Seq<Component<S>>, c: Component<S>)
    ensures
        models_of(cs.push(c)) == models_of(cs) + seq![c.model()],
    decreases cs.len(),
{
    if cs.len() == 0 {
        assert(cs.push(c)[0] == c);
        assert(cs.push(c).drop_first() =~= Seq::<Component<S>>::empty());
        assert(models_of(cs.push(c)) == seq![(cs.push(c))[0].model()] + models_of(
            cs.push(c).drop_first(),
        ));
        assert(models_of(Seq::<Component<S>>::empty()) == Seq::<CompModel>::empty());
        assert(models_of(cs.push(c)) =~= models_of(cs) + seq![c.model()]);
    } else {
        assert(cs.push(c)[0] == cs[0]);
        assert(cs.push(c).drop_first() =~= cs.drop_first().push(c));
        lemma_models_snoc(cs.drop_first(), c);
        assert(models_of(cs.push(c)) == seq![(cs.push(c))[0].model()] + models_of(
            cs.push(c).drop_first(),
        ));
        assert(models_of(cs) == seq![cs[0].model()] + models_of(cs.drop_first()));
        assert(models_of(cs.push(c)) =~= models_of(cs) + seq![c.model()]);
    }
}

impl<S: Copy> Parallel<S> {
    pub fn new(components: Vec<Component<S>>) -> (r: Self)
        ensures
            r.components == components,
    {
        Parallel { components }
    }

    /// Builds a parallel composite from its component spec: the parameter
    /// section must be one bracket pair, its interior is tokenized like a
    /// pipeline, and every child spec is built in order, the first failure
    /// aborting.
    pub fn from_spec(spec: &str) -> (r: Result<Self, PipelineError>)
        ensures
            match r {
                Ok(p) => spec_parallel_build(spec@) == Ok::<_, ErrView>(
                    CompModel::Parallel { children: models_of(p.components@) },
                ) && wf_all(p.components@) && pristine_all(p.components@),
                Err(e) => spec_parallel_build(spec@) == Err::<CompModel, _>(e@),
            },
        decreases spec@.len(), 0int,
    {
        proof {
            lemma_find_index(spec@, ':');
        }
        let n = spec.unicode_len();
        let c = match find_first(spec, ':') {
            None => {
                return Err(PipelineError::WrongSpecType { expected: String::from_str("parallel") });
            },
            Some(c) => c,
        };
        let tagpart = spec.substring_char(0, c);
        if !text_eq(tagpart, "parallel") {
            return Err(PipelineError::WrongSpecType { expected: String::from_str("parallel") });
        }
        let ghost list = spec@.subrange(c + 1, spec@.len() as int);
        proof {
            assert(forall|j: int| 0 <= j < list.len() ==> list[j] == spec@[c + 1 + j]);
        }
        if n - (c + 1) == 0 || spec.get_char(c + 1) != '[' || spec.get_char(n - 1) != ']' {
            proof {
                if list.len() > 0 {
                    assert(list[0] == spec@[c + 1]);
                    assert(list[list.len() - 1] == spec@[spec@.len() - 1]);
                }
            }
            return Err(PipelineError::MalformedParallelBody);
        }
        proof {
            assert(list.len() > 0 && list[0] == '[' && list[list.len() - 1] == ']');
        }
        let inner = spec.substring_char(c + 2, n - 1);
        proof {
            assert(inner@ =~= list.subrange(1, list.len() - 1));
        }
        if inner.unicode_len() == 0 {
            return Err(PipelineError::EmptyParallelBody);
        }
        let pieces = parse_components(inner);
        let ghost piece_views = pieces.deep_view();
        let ghost bound = inner@.len();
        proof {
            lemma_tokenize_pieces(inner@);
            assert(forall|k: int| 0 <= k < piece_views.len() ==> (#[trigger] piece_views[k]).len() <= bound);
            assert(spec_parallel_build(spec@) == (match spec_build_list(piece_views, bound) {
                Ok(ms) => Ok::<CompModel, ErrView>(CompModel::Parallel { children: ms }),
                Err(e) => Err::<CompModel, ErrView>(e),
            }));
        }
        let mut components: Vec<Component<S>> = Vec::new();
        let mut j: usize = 0;
        proof {
            assert(piece_views.skip(0) =~= piece_views);
            assert(models_of(components@) =~= Seq::<CompModel>::empty());
        }
        while j < pieces.len()
            invariant
                j <= pieces.len(),
                piece_views == pieces.deep_view(),
                piece_views.len() == pieces@.len(),
                forall|k: int| 0 <= k < piece_views.len() ==> piece_views[k] == #[trigger] pieces@[k]@,
                forall|k: int|
                    0 <= k < piece_views.len() ==> (#[trigger] piece_views[k]).len() <= bound,
                bound < spec@.len(),
                wf_all(components@),
                pristine_all(components@),
                spec_parallel_build(spec@) == (match spec_build_list(piece_views, bound) {
                    Ok(ms) => Ok::<CompModel, ErrView>(CompModel::Parallel { children: ms }),
                    Err(e) => Err::<CompModel, ErrView>(e),
                }),
                spec_build_list(piece_views, bound) == (match spec_build_list(
                    piece_views.skip(j as int),
                    bound,
                ) {
                    Ok(ms) => Ok::<_, ErrView>(models_of(components@) + ms),
                    Err(e) => Err(e),
                }),
            decreases pieces.len() - j,
        {
            let ghost rest = piece_views.skip(j as int);
            proof {
                assert(rest[0] == piece_views[j as int]);
                assert(rest.drop_first() =~= piece_views.skip(j as int + 1));
                assert(forall|k: int| 0 <= k < rest.len() ==> rest[k] == piece_views[j + k]);
            }
            let piece: &String = &pieces[j];
            proof {
                assert(forall|k: int| 0 <= k < rest.len() ==> (#[trigger] rest[k]).len() <= bound);
            }
            match create_component(piece.as_str()) {
                Ok(comp) => {
                    let ghost before = components@;
                    proof {
                        lemma_models_snoc(before, comp);
                        assert(spec_build(rest[0]) == Ok::<CompModel, ErrView>(comp.model()));
                        assert(spec_build_list(rest, bound) == (match spec_build_list(
                            rest.drop_first(),
                            bound,
                        ) {
                            Ok(ms) => Ok::<Seq<CompModel>, ErrView>(seq![comp.model()] + ms),
                            Err(e2) => Err::<Seq<CompModel>, ErrView>(e2),
                        }));
                    }
                    components.push(comp);
                    proof {
                        assert(components@ =~= before.push(comp));
                        assert(models_of(components@) == models_of(before) + seq![comp.model()]);
                        assert forall|ms: Seq<CompModel>|
                            models_of(before) + (#[trigger] (seq![comp.model()] + ms)) =~= models_of(
                                components@,
                            ) + ms by {}
                    }
                },
                Err(e) => {
                    proof {
                        assert(spec_build(rest[0]) == Err::<CompModel, ErrView>(e@));
                        assert(rest.len() > 0);
                        assert(spec_build_list(rest, bound) == Err::<Seq<CompModel>, ErrView>(e@));
                        assert(spec_build_list(piece_views, bound) == Err::<
                            Seq<CompModel>,
                            ErrView,
                        >(e@));
                    }
                    return Err(e);
                },
            }
            j += 1;
        }
        proof {
            let done = piece_views.skip(pieces@.len() as int);
            assert(done =~= Seq::<Seq<char>>::empty());
            assert(spec_build_list(done, bound) == Ok::<Seq<CompModel>, ErrView>(Seq::empty()));
            assert(models_of(components@) + Seq::<CompModel>::empty() =~= models_of(components@));
            assert(spec_build_list(piece_views, bound) == Ok::<Seq<CompModel>, ErrView>(
                models_of(components@),
            ));
        }
        Ok(Parallel::new(components))
    }

    /// The composite's mix of its children, per `par_gen_rel`.
    pub fn generate<FSine, FSquare, FScale, FPeak, FAdd, FNorm>(
        &self,
        n: usize,
        ops: &SampleOps<S, FSine, FSquare, FScale, FPeak, FAdd, FNorm>,
    ) -> (r: Vec<S>) where
        FSine: Fn(&Number, usize) -> S,
        FSquare: Fn(&Number, usize) -> S,
        FScale: Fn(&Number, S) -> S,
        FPeak: Fn(S, S) -> S,
        FAdd: Fn(S, S) -> S,
        FNorm: Fn(S, usize) -> S,

        requires
            ops_wf(ops),
        ensures
            par_gen_rel(*self, n as nat, r@, ops),
        decreases self,
    {
        let n_comps = self.components.len();
        let mut mixed = zero_buffer(ops.zero, n);
        let ghost zs = crate::samples::zero_seq(ops.zero, n as nat);
        let ghost mut bufs: Seq<Seq<S>> = seq![zs];
        proof {
            assert(mixed@ =~= zs);
        }
        let mut j: usize = 0;
        while j < n_comps
            invariant
                j <= n_comps == self.components@.len(),
                ops_wf(ops),
                zs == crate::samples::zero_seq(ops.zero, n as nat),
                mixed@.len() == n,
                bufs.len() == j + 1,
                bufs[0] == zs,
                bufs[j as int] == mixed@,
                forall|i: int|
                    0 <= i < j ==> mix_step(
                        #[trigger] self.components@[i],
                        n as nat,
                        bufs[i],
                        bufs[i + 1],
                        ops,
                    ),
            decreases n_comps - j,
        {
            let child = &self.components[j];
            let ghost pre = mixed@;
            match child.get_samples(n, ops) {
                Some(samples) => {
                    add_into(&ops.add, &mut mixed, &samples);
                    proof {
                        crate::component::lemma_mix_step_intro(
                            *child,
                            n as nat,
                            pre,
                            samples@,
                            mixed@,
                            ops,
                        );
                    }
                },
                None => {
                    proof {
                        assert(mix_step(*child, n as nat, pre, mixed@, ops));
                    }
                },
            }
            proof {
                bufs = bufs.push(mixed@);
            }
            j += 1;
        }
        let ghost trace = bufs;
        // Normalize by the number of source components to prevent clipping.
        let mut count: usize = 0;
        let mut k: usize = 0;
        proof {
            assert(self.components@.subrange(0, 0) =~= Seq::<Component<S>>::empty());
        }
        while k < n_comps
            invariant
                k <= n_comps == self.components@.len(),
                count <= k,
                count == count_sources(self.components@.subrange(0, k as int)),
            decreases n_comps - k,
        {
            let ghost prefix = self.components@.subrange(0, k as int);
            proof {
                lemma_count_snoc(prefix, self.components@[k as int]);
                assert(prefix.push(self.components@[k as int]) =~= self.components@.subrange(
                    0,
                    k as int + 1,
                ));
            }
            if self.components[k].is_source() {
                count += 1;
            }
            k += 1;
        }
        let ghost sum = mixed@;
        proof {
            assert(self.components@.subrange(0, self.components@.len() as int)
                =~= self.components@);
            assert(mix_trace(self.components@, n as nat, trace, ops));
            assert(trace[0] == zs && trace[self.components@.len() as int] == sum);
            crate::component::lemma_mix_rel_intro(
                self.components@,
                n as nat,
                trace,
                zs,
                sum,
                ops,
            );
        }
        if count > 0 {
            norm_all(&ops.norm, &mut mixed, count);
        }
        proof {
            if count_sources(self.components@) == 0 {
                assert(mixed@ == sum);
            } else {
                assert(count == count_sources(self.components@));
                assert(normed_rel(ops.norm, count, sum, mixed@));
            }
            assert(mixed@.len() == n);
            crate::component::lemma_par_gen_intro(*self, n as nat, sum, mixed@, ops);
        }
        mixed
    }
}

} // verus!
