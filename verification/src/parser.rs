//! The spec tokenizer: splits a pipeline spec into its top-level component
//! specs.
//!
//! Commas separate components only at bracket depth zero, so a nested
//! `parallel:[...]` body is not split on its internal commas. Each piece is
//! trimmed, and empty pieces are dropped. No bracket balancing is checked
//! here; malformed brackets surface later when the `parallel` body is
//! parsed.

use vstd::prelude::*;

use crate::text::trim;
use crate::text::trim_bounds;
use crate::text::lemma_trim_len;

verus! {

/// Appends a piece to the accumulator, trimmed, unless it trims to nothing.
pub open spec fn push_piece(acc: Seq<Seq<char>>, piece: Seq<char>) -> Seq<Seq<char>> {
    if trim(piece).len() == 0 {
        acc
    } else {
        acc.push(trim(piece))
    }
}

/// One pass over `s` from position `i`, at bracket depth `depth`, with the
/// current piece reaching back to `start` and the pieces in `acc` already
/// produced.
pub open spec fn spec_tokenize_from(
    s: Seq<char>,
    i: int,
    depth: int,
    start: int,
    acc: Seq<Seq<char>>,
) -> Seq<Seq<char>>
    recommends
        0 <= start <= i <= s.len(),
    decreases s.len() - i,
    when i <= s.len()
{
    if i >= s.len() {
        push_piece(acc, s.subrange(start, s.len() as int))
    } else if s[i] == ',' && depth == 0 {
        spec_tokenize_from(s, i + 1, depth, i + 1, push_piece(acc, s.subrange(start, i)))
    } else if s[i] == '[' {
        spec_tokenize_from(s, i + 1, depth + 1, start, acc)
    } else if s[i] == ']' {
        spec_tokenize_from(s, i + 1, depth - 1, start, acc)
    } else {
        spec_tokenize_from(s, i + 1, depth, start, acc)
    }
}

/// The top-level component specs of `s`.
pub open spec fn spec_tokenize(s: Seq<char>) -> Seq<Seq<char>> {
    spec_tokenize_from(s, 0, 0, 0, Seq::empty())
}

/// Every piece the tokenizer produces is non-empty and no longer than the
/// input.
pub proof fn lemma_tokenize_from_pieces(
    s: Seq<char>,
    i: int,
    depth: int,
    start: int,
    acc: Seq<Seq<char>>,
)
    requires
        0 <= start <= i <= s.len(),
        forall|k: int| 0 <= k < acc.len() ==> 0 < (#[trigger] acc[k]).len() <= s.len(),
    ensures
        forall|k: int|
            0 <= k < spec_tokenize_from(s, i, depth, start, acc).len() ==> 0 < (
            #[trigger] spec_tokenize_from(s, i, depth, start, acc)[k]).len() <= s.len(),
    decreases s.len() - i,
{
    if i >= s.len() {
        lemma_trim_len(s.subrange(start, s.len() as int));
        let piece = trim(s.subrange(start, s.len() as int));
        let r = spec_tokenize_from(s, i, depth, start, acc);
        assert(r == push_piece(acc, s.subrange(start, s.len() as int)));
        assert forall|k: int| 0 <= k < r.len() implies 0 < (#[trigger] r[k]).len() <= s.len() by {
            if k < acc.len() {
                assert(r[k] == acc[k]);
            } else {
                assert(r[k] == piece);
            }
        }
    } else if s[i] == ',' && depth == 0 {
        lemma_trim_len(s.subrange(start, i));
        let piece = trim(s.subrange(start, i));
        let acc2 = push_piece(acc, s.subrange(start, i));
        assert forall|k: int| 0 <= k < acc2.len() implies 0 < (#[trigger] acc2[k]).len()
            <= s.len() by {
            if k < acc.len() {
                assert(acc2[k] == acc[k]);
            } else {
                assert(acc2[k] == piece);
            }
        }
        lemma_tokenize_from_pieces(s, i + 1, depth, i + 1, acc2);
        assert(spec_tokenize_from(s, i, depth, start, acc) == spec_tokenize_from(
            s,
            i + 1,
            depth,
            i + 1,
            acc2,
        ));
    } else if s[i] == '[' {
        lemma_tokenize_from_pieces(s, i + 1, depth + 1, start, acc);
        assert(spec_tokenize_from(s, i, depth, start, acc) == spec_tokenize_from(
            s,
            i + 1,
            depth + 1,
            start,
            acc,
        ));
    } else if s[i] == ']' {
        lemma_tokenize_from_pieces(s, i + 1, depth - 1, start, acc);
        assert(spec_tokenize_from(s, i, depth, start, acc) == spec_tokenize_from(
            s,
            i + 1,
            depth - 1,
            start,
            acc,
        ));
    } else {
        lemma_tokenize_from_pieces(s, i + 1, depth, start, acc);
        assert(spec_tokenize_from(s, i, depth, start, acc) == spec_tokenize_from(
            s,
            i + 1,
            depth,
            start,
            acc,
        ));
    }
}

pub proof fn lemma_tokenize_pieces(s: Seq<char>)
    ensures
        forall|k: int|
            0 <= k < spec_tokenize(s).len() ==> 0 < (#[trigger] spec_tokenize(s)[k]).len()
                <= s.len(),
{
    lemma_tokenize_from_pieces(s, 0, 0, 0, Seq::empty());
}

/// Splits a pipeline spec into trimmed, non-empty top-level component
/// specs, per `spec_tokenize`.
pub fn parse_components(pipeline: &str) -> (r: Vec<String>)
    ensures
        r.deep_view() == spec_tokenize(pipeline@),
{
    let n = pipeline.unicode_len();
    let mut out: Vec<String> = Vec::new();
    let mut i: usize = 0;
    let mut start: usize = 0;
    // The depth counter may go negative on stray `]`; i128 keeps its
    // arithmetic trivially free of overflow for any input length.
    let mut depth: i128 = 0;
    proof {
        assert(out.deep_view() =~= Seq::<Seq<char>>::empty());
    }
    while i < n
        invariant
            0 <= start <= i <= n == pipeline@.len(),
            -(i as int) <= depth <= i as int,
            spec_tokenize(pipeline@) == spec_tokenize_from(
                pipeline@,
                i as int,
                depth as int,
                start as int,
                out.deep_view(),
            ),
        decreases n - i,
    {
        let c = pipeline.get_char(i);
        if c == ',' && depth == 0 {
            let ghost before = out.deep_view();
            let (a, b) = trim_bounds(pipeline, start, i);
            if a < b {
                let piece = pipeline.substring_char(a, b).to_owned();
                out.push(piece);
                proof {
                    assert(out.deep_view() =~= before.push(
                        trim(pipeline@.subrange(start as int, i as int)),
                    ));
                }
            }
            proof {
                assert(out.deep_view() =~= push_piece(
                    before,
                    pipeline@.subrange(start as int, i as int),
                ));
            }
            start = i + 1;
        } else if c == '[' {
            depth = depth + 1;
        } else if c == ']' {
            depth = depth - 1;
        }
        i += 1;
    }
    let ghost before = out.deep_view();
    let (a, b) = trim_bounds(pipeline, start, n);
    if a < b {
        let piece = pipeline.substring_char(a, b).to_owned();
        out.push(piece);
        proof {
            assert(out.deep_view() =~= before.push(
                trim(pipeline@.subrange(start as int, n as int)),
            ));
        }
    }
    proof {
        assert(out.deep_view() =~= push_piece(
            before,
            pipeline@.subrange(start as int, n as int),
        ));
    }
    out
}

} // verus!
