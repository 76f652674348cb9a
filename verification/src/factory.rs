//! The component factory: the grammar's dispatch on a component spec's
//! type tag, and the spec-level parse of a whole component spec to its
//! model.

use vstd::prelude::*;

use crate::analysers::PeakAnalyser;
use crate::analysers::spec_peak_from;
use crate::component::CompModel;
use crate::component::Component;
use crate::composite::Parallel;
use crate::errors::ErrView;
use crate::errors::PipelineError;
use crate::parser::spec_tokenize;
use crate::processors::VolumeProcessor;
use crate::sources::SineWaveSource;
use crate::sources::SquareWaveSource;
use crate::sources::spec_component_value;
use crate::text::find_first;
use crate::text::find_index;
use crate::text::lemma_find_index;
use crate::text::text_eq;

verus! {

/// The model a component spec builds, or the first error: the spec's tag
/// picks the kind, and the kind's own parser handles the rest.
pub open spec fn spec_build(spec: Seq<char>) -> Result<CompModel, ErrView>
    decreases spec.len(), 1int, 0int,
{
    let c = find_index(spec, ':');
    let tag = if c < 0 {
        spec
    } else {
        spec.subrange(0, c)
    };
    if tag == "sine"@ {
        match spec_component_value(spec, "sine"@, "freq"@, "440"@) {
            Ok(v) => Ok(CompModel::Sine { freq: v }),
            Err(e) => Err(e),
        }
    } else if tag == "square"@ {
        match spec_component_value(spec, "square"@, "freq"@, "440"@) {
            Ok(v) => Ok(CompModel::Square { freq: v }),
            Err(e) => Err(e),
        }
    } else if tag == "parallel"@ {
        spec_parallel_build(spec)
    } else if tag == "volume"@ {
        match spec_component_value(spec, "volume"@, "level"@, "1"@) {
            Ok(v) => Ok(CompModel::Volume { level: v }),
            Err(e) => Err(e),
        }
    } else if tag == "peak"@ {
        match spec_peak_from(spec) {
            Ok(_) => Ok(CompModel::Peak),
            Err(e) => Err(e),
        }
    } else {
        Err(ErrView::UnknownComponentType { tag })
    }
}

/// The model a `parallel` spec builds: its parameter section must be one
/// `[ ... ]` pair with a non-empty interior, which is tokenized like a
/// pipeline; each child spec builds in order, the first failure aborting.
pub open spec fn spec_parallel_build(spec: Seq<char>) -> Result<CompModel, ErrView>
    decreases spec.len(), 0int, 0int,
{
    let c = find_index(spec, ':');
    let tag = if c < 0 {
        spec
    } else {
        spec.subrange(0, c)
    };
    if c < 0 || spec.len() <= c || tag != "parallel"@ {
        Err(ErrView::WrongSpecType { expected: "parallel"@ })
    } else {
        let list = spec.subrange(c + 1, spec.len() as int);
        if !(list.len() > 0 && list[0] == '[' && list[list.len() - 1] == ']') {
            Err(ErrView::MalformedParallelBody)
        } else {
            let inner = list.subrange(1, list.len() - 1);
            if inner.len() == 0 {
                Err(ErrView::EmptyParallelBody)
            } else {
                match spec_build_list(spec_tokenize(inner), inner.len()) {
                    Ok(ms) => Ok(CompModel::Parallel { children: ms }),
                    Err(e) => Err(e),
                }
            }
        }
    }
}

/// The models of a list of child specs, each no longer than `bound`, in
/// order; the first failure aborts.
pub open spec fn spec_build_list(pieces: Seq<Seq<char>>, bound: nat) -> Result<
    Seq<CompModel>,
    ErrView,
>
    decreases bound, 2int, pieces.len(),
    when forall|k: int| 0 <= k < pieces.len() ==> (#[trigger] pieces[k]).len() <= bound
{
    if pieces.len() == 0 {
        Ok(Seq::empty())
    } else {
        match spec_build(pieces[0]) {
            Ok(m) => match spec_build_list(pieces.drop_first(), bound) {
                Ok(ms) => Ok(seq![m] + ms),
                Err(e) => Err(e),
            },
            Err(e) => Err(e),
        }
    }
}

/// Builds the component a spec describes, dispatching on its type tag.
pub fn create_component<S: Copy>(spec: &str) -> (r: Result<Component<S>, PipelineError>)
    ensures
        match r {
            Ok(c) => spec_build(spec@) == Ok::<_, ErrView>(c.model()) && c.wf() && c.pristine(),
            Err(e) => spec_build(spec@) == Err::<CompModel, _>(e@),
        },
    decreases spec@.len(), 1int,
{
    proof {
        lemma_find_index(spec@, ':');
    }
    let n = spec.unicode_len();
    let tag_end = match find_first(spec, ':') {
        Some(i) => i,
        None => n,
    };
    let tag = spec.substring_char(0, tag_end);
    proof {
        if find_index(spec@, ':') < 0 {
            assert(tag@ =~= spec@);
        }
    }
    if text_eq(tag, "sine") {
        match SineWaveSource::from_spec(spec) {
            Ok(s) => Ok(Component::Sine(s)),
            Err(e) => Err(e),
        }
    } else if text_eq(tag, "square") {
        match SquareWaveSource::from_spec(spec) {
            Ok(s) => Ok(Component::Square(s)),
            Err(e) => Err(e),
        }
    } else if text_eq(tag, "parallel") {
        match Parallel::from_spec(spec) {
            Ok(p) => Ok(Component::Parallel(p)),
            Err(e) => Err(e),
        }
    } else if text_eq(tag, "volume") {
        match VolumeProcessor::from_spec(spec) {
            Ok(v) => Ok(Component::Volume(v)),
            Err(e) => Err(e),
        }
    } else if text_eq(tag, "peak") {
        match PeakAnalyser::from_spec(spec) {
            Ok(a) => Ok(Component::Peak(a)),
            Err(e) => Err(e),
        }
    } else {
        Err(PipelineError::UnknownComponentType { tag: tag.to_owned() })
    }
}

} // verus!
