//! `key=value` parameter parsing, shared by the component kinds that take
//! one numeric parameter.
//!
//! Each parameter must hold exactly one `=`, splitting it into key and
//! value; any other shape is a format error. A key other than the kind's
//! one known key is rejected, and a value that fails the float grammar is
//! a value error. Parameters are processed left to right, the last value
//! winning, and the first error aborting.

use vstd::prelude::*;

use crate::errors::ErrView;
use crate::errors::PipelineError;
use crate::number::Number;
use crate::number::is_float_syntax;
use crate::text::find_first;
use crate::text::find_index;
use crate::text::text_eq;

verus! {

/// The outcome of folding the parameter pieces over an accumulated value
/// text `acc`: the final value text, or the first error.
pub open spec fn spec_value_params(
    pieces: Seq<Seq<char>>,
    key: Seq<char>,
    acc: Seq<char>,
) -> Result<Seq<char>, ErrView>
    decreases pieces.len(),
{
    if pieces.len() == 0 {
        Ok(acc)
    } else {
        let p = pieces[0];
        let j = find_index(p, '=');
        if j < 0 || find_index(p.subrange(j + 1, p.len() as int), '=') >= 0 {
            Err(ErrView::InvalidParameterFormat { param: p })
        } else {
            let k = p.subrange(0, j);
            let v = p.subrange(j + 1, p.len() as int);
            if k == key {
                if is_float_syntax(v) {
                    spec_value_params(pieces.drop_first(), key, v)
                } else {
                    Err(ErrView::InvalidValue { name: key })
                }
            } else {
                Err(ErrView::UnknownParameter { key: k })
            }
        }
    }
}

/// Folds a parameter list over an initial value, per `spec_value_params`.
pub fn parse_value_params(params: &Vec<String>, key: &str, initial: Number) -> (r: Result<
    Number,
    PipelineError,
>)
    requires
        initial.wf(),
    ensures
        match r {
            Ok(num) => spec_value_params(params.deep_view(), key@, initial@) == Ok::<_, ErrView>(
                num@,
            ) && num.wf(),
            Err(e) => spec_value_params(params.deep_view(), key@, initial@) == Err::<Seq<char>, _>(
                e@,
            ),
        },
{
    let ghost pieces = params.deep_view();
    proof {
        assert(forall|k: int| 0 <= k < pieces.len() ==> pieces[k] == params@[k]@);
    }
    let mut cur = initial;
    let mut idx: usize = 0;
    proof {
        assert(pieces.skip(0) =~= pieces);
    }
    while idx < params.len()
        invariant
            idx <= params.len(),
            pieces == params.deep_view(),
            pieces.len() == params@.len(),
            forall|k: int| 0 <= k < pieces.len() ==> pieces[k] == #[trigger] params@[k]@,
            cur.wf(),
            spec_value_params(pieces, key@, initial@) == spec_value_params(
                pieces.skip(idx as int),
                key@,
                cur@,
            ),
        decreases params.len() - idx,
    {
        let ghost rest = pieces.skip(idx as int);
        proof {
            assert(rest.len() == pieces.len() - idx);
            assert(rest[0] == pieces[idx as int]);
            assert(rest.drop_first() =~= pieces.skip(idx as int + 1));
        }
        let p: &String = &params[idx];
        proof {
            assert(rest[0] == p@);
        }
        match find_first(p.as_str(), '=') {
            None => {
                return Err(PipelineError::InvalidParameterFormat { param: p.clone() });
            },
            Some(j) => {
                proof {
                    crate::text::lemma_find_index(p@, '=');
                }
                let n = p.as_str().unicode_len();
                let k = p.as_str().substring_char(0, j);
                let v = p.as_str().substring_char(j + 1, n);
                if find_first(v, '=').is_some() {
                    return Err(PipelineError::InvalidParameterFormat { param: p.clone() });
                }
                if text_eq(k, key) {
                    match Number::from_text(v) {
                        Some(num) => {
                            cur = num;
                        },
                        None => {
                            return Err(PipelineError::InvalidValue { name: key.to_owned() });
                        },
                    }
                } else {
                    return Err(PipelineError::UnknownParameter { key: k.to_owned() });
                }
            },
        }
        idx += 1;
    }
    proof {
        assert(pieces.skip(params@.len() as int) =~= Seq::<Seq<char>>::empty());
    }
    Ok(cur)
}

} // verus!
