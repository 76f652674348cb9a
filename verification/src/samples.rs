//! The sample abstraction.
//!
//! The engine never interprets a sample value: it is generic over the
//! sample type `S`, and callers hand it the sample arithmetic as a bundle
//! of closures, `SampleOps`. The contracts here relate every output buffer
//! element-wise to the closures' own postconditions (`call_ensures`), so
//! whatever a caller can prove or test about its arithmetic lifts to the
//! whole pipeline.

use vstd::prelude::*;

use crate::number::Number;

verus! {

/// The sample arithmetic a caller supplies.
///
/// `sine(freq, i)` and `square(freq, i)` give the sample of the named wave
/// at buffer index `i`; `scale(level, x)` applies a gain level; `peak` is
/// the running-peak step folded over a buffer from `zero`; `add` mixes two
/// samples; `norm(x, count)` divides a mixed sample by the number of
/// contributing sources; `zero` is the additive identity, and also the seed
/// of the peak fold.
#[verifier::reject_recursive_types(S)]
pub struct SampleOps<S, FSine, FSquare, FScale, FPeak, FAdd, FNorm> where
    FSine: Fn(&Number, usize) -> S,
    FSquare: Fn(&Number, usize) -> S,
    FScale: Fn(&Number, S) -> S,
    FPeak: Fn(S, S) -> S,
    FAdd: Fn(S, S) -> S,
    FNorm: Fn(S, usize) -> S,
 {
    pub sine: FSine,
    pub square: FSquare,
    pub scale: FScale,
    pub peak: FPeak,
    pub add: FAdd,
    pub norm: FNorm,
    pub zero: S,
}

/// Every closure of the bundle accepts every argument.
pub open spec fn ops_wf<S, FSine, FSquare, FScale, FPeak, FAdd, FNorm>(
    ops: &SampleOps<S, FSine, FSquare, FScale, FPeak, FAdd, FNorm>,
) -> bool where
    FSine: Fn(&Number, usize) -> S,
    FSquare: Fn(&Number, usize) -> S,
    FScale: Fn(&Number, S) -> S,
    FPeak: Fn(S, S) -> S,
    FAdd: Fn(S, S) -> S,
    FNorm: Fn(S, usize) -> S,
 {
    &&& forall|f: &Number, i: usize| #[trigger] call_requires(ops.sine, (f, i))
    &&& forall|f: &Number, i: usize| #[trigger] call_requires(ops.square, (f, i))
    &&& forall|l: &Number, x: S| #[trigger] call_requires(ops.scale, (l, x))
    &&& forall|a: S, b: S| #[trigger] call_requires(ops.peak, (a, b))
    &&& forall|a: S, b: S| #[trigger] call_requires(ops.add, (a, b))
    &&& forall|x: S, c: usize| #[trigger] call_requires(ops.norm, (x, c))
}

/// `out` holds `n` samples of the wave `gen` describes at frequency
/// `freq`, one per index.
pub open spec fn wave_rel<S, F: Fn(&Number, usize) -> S>(
    gen: F,
    freq: &Number,
    n: nat,
    out: Seq<S>,
) -> bool {
    out.len() == n && forall|i: int|
        0 <= i < n ==> call_ensures(gen, (freq, i as usize), #[trigger] out[i])
}

/// Fills a buffer with `n` samples drawn from `gen` at indices `0..n`.
pub fn fill_wave<S, F: Fn(&Number, usize) -> S>(gen: &F, freq: &Number, n: usize) -> (r: Vec<S>)
    requires
        forall|f: &Number, i: usize| #[trigger] call_requires(*gen, (f, i)),
    ensures
        wave_rel(*gen, freq, n as nat, r@),
{
    let mut out: Vec<S> = Vec::new();
    let mut i: usize = 0;
    while i < n
        invariant
            i <= n,
            out.len() == i,
            forall|f: &Number, k: usize| #[trigger] call_requires(*gen, (f, k)),
            forall|k: int| 0 <= k < i ==> call_ensures(*gen, (freq, k as usize), #[trigger] out[k]),
        decreases n - i,
    {
        let s = gen(freq, i);
        out.push(s);
        i += 1;
    }
    out
}

/// `out` is `inb` with `scale(level, _)` applied to every element.
pub open spec fn scaled_rel<S, F: Fn(&Number, S) -> S>(
    f: F,
    level: &Number,
    inb: Seq<S>,
    out: Seq<S>,
) -> bool {
    out.len() == inb.len() && forall|i: int|
        0 <= i < inb.len() ==> call_ensures(f, (level, inb[i]), #[trigger] out[i])
}

/// Applies the gain `level` to every element of `buf`, in place.
pub fn scale_all<S: Copy, F: Fn(&Number, S) -> S>(f: &F, level: &Number, buf: &mut Vec<S>)
    requires
        forall|l: &Number, x: S| #[trigger] call_requires(*f, (l, x)),
    ensures
        scaled_rel(*f, level, old(buf)@, final(buf)@),
{
    let n = buf.len();
    let mut i: usize = 0;
    while i < n
        invariant
            i <= n,
            buf.len() == n == old(buf)@.len(),
            forall|l: &Number, x: S| #[trigger] call_requires(*f, (l, x)),
            forall|k: int| i <= k < n ==> buf@[k] == old(buf)@[k],
            forall|k: int|
                0 <= k < i ==> call_ensures(*f, (level, old(buf)@[k]), #[trigger] buf@[k]),
        decreases n - i,
    {
        let s = f(level, buf[i]);
        buf.set(i, s);
        i += 1;
    }
}

/// `result` is the left fold of `f` over `samples`, seeded with `acc`.
/// Each step is pinned only by `f`'s own postcondition, so the fold is a
/// relation, not a function.
pub open spec fn fold_rel<S, F: Fn(S, S) -> S>(f: F, samples: Seq<S>, acc: S, result: S) -> bool
    decreases samples.len(),
{
    if samples.len() == 0 {
        result == acc
    } else {
        exists|mid: S|
            #[trigger] call_ensures(f, (acc, samples[0]), mid) && fold_rel(
                f,
                samples.drop_first(),
                mid,
                result,
            )
    }
}

/// Extends a fold by one step at its end.
pub proof fn lemma_fold_snoc<S, F: Fn(S, S) -> S>(f: F, samples: Seq<S>, acc: S, r: S, x: S, r2: S)
    requires
        fold_rel(f, samples, acc, r),
        call_ensures(f, (r, x), r2),
    ensures
        fold_rel(f, samples.push(x), acc, r2),
    decreases samples.len(),
{
    if samples.len() == 0 {
        assert(samples.push(x)[0] == x);
        assert(samples.push(x).drop_first() =~= Seq::<S>::empty());
        assert(call_ensures(f, (acc, samples.push(x)[0]), r2));
        assert(fold_rel(f, samples.push(x).drop_first(), r2, r2));
    } else {
        let mid = choose|mid: S|
            #[trigger] call_ensures(f, (acc, samples[0]), mid) && fold_rel(
                f,
                samples.drop_first(),
                mid,
                r,
            );
        lemma_fold_snoc(f, samples.drop_first(), mid, r, x, r2);
        assert(samples.push(x)[0] == samples[0]);
        assert(samples.push(x).drop_first() =~= samples.drop_first().push(x));
        assert(call_ensures(f, (acc, samples.push(x)[0]), mid));
        assert(fold_rel(f, samples.push(x).drop_first(), mid, r2));
    }
}

/// Folds `f` over `samples` from the seed `seed`.
pub fn fold_all<S: Copy, F: Fn(S, S) -> S>(f: &F, samples: &Vec<S>, seed: S) -> (r: S)
    requires
        forall|a: S, b: S| #[trigger] call_requires(*f, (a, b)),
    ensures
        fold_rel(*f, samples@, seed, r),
{
    let mut acc = seed;
    let mut i: usize = 0;
    proof {
        assert(samples@.subrange(0, 0) =~= Seq::<S>::empty());
    }
    while i < samples.len()
        invariant
            i <= samples@.len(),
            forall|a: S, b: S| #[trigger] call_requires(*f, (a, b)),
            fold_rel(*f, samples@.subrange(0, i as int), seed, acc),
        decreases samples@.len() - i,
    {
        let next = f(acc, samples[i]);
        proof {
            lemma_fold_snoc(*f, samples@.subrange(0, i as int), seed, acc, samples@[i as int], next);
            assert(samples@.subrange(0, i as int).push(samples@[i as int]) =~= samples@.subrange(
                0,
                i as int + 1,
            ));
        }
        acc = next;
        i += 1;
    }
    proof {
        assert(samples@.subrange(0, samples@.len() as int) =~= samples@);
    }
    acc
}

/// `b` holds exactly `n` elements.
pub open spec fn has_len<S>(n: nat, b: Seq<S>) -> bool {
    b.len() == n
}

/// A sequence of `n` copies of `zero`.
pub open spec fn zero_seq<S>(zero: S, n: nat) -> Seq<S> {
    Seq::new(n, |i: int| zero)
}

/// A buffer of `n` copies of `zero`.
pub fn zero_buffer<S: Copy>(zero: S, n: usize) -> (r: Vec<S>)
    ensures
        r@.len() == n,
        forall|i: int| 0 <= i < n ==> r@[i] == zero,
{
    let mut out: Vec<S> = Vec::new();
    let mut i: usize = 0;
    while i < n
        invariant
            i <= n,
            out.len() == i,
            forall|k: int| 0 <= k < i ==> out@[k] == zero,
        decreases n - i,
    {
        out.push(zero);
        i += 1;
    }
    out
}

/// `out` is `a` with `b` mixed in element-wise as far as `b` reaches.
pub open spec fn added_rel<S, F: Fn(S, S) -> S>(f: F, a: Seq<S>, b: Seq<S>, out: Seq<S>) -> bool {
    out.len() == a.len() && forall|i: int|
        0 <= i < a.len() ==> if i < b.len() {
            call_ensures(f, (a[i], b[i]), #[trigger] out[i])
        } else {
            out[i] == a[i]
        }
}

/// Mixes `other` into `acc` element-wise; elements of `other` beyond
/// `acc`'s length are dropped.
pub fn add_into<S: Copy, F: Fn(S, S) -> S>(f: &F, acc: &mut Vec<S>, other: &Vec<S>)
    requires
        forall|a: S, b: S| #[trigger] call_requires(*f, (a, b)),
    ensures
        added_rel(*f, old(acc)@, other@, final(acc)@),
{
    let n = other.len();
    let mut j: usize = 0;
    while j < n
        invariant
            j <= n == other@.len(),
            acc@.len() == old(acc)@.len(),
            forall|a: S, b: S| #[trigger] call_requires(*f, (a, b)),
            forall|k: int|
                0 <= k < acc@.len() && k >= j ==> #[trigger] acc@[k] == old(acc)@[k],
            forall|k: int|
                0 <= k < acc@.len() && k < j ==> call_ensures(
                    *f,
                    (old(acc)@[k], other@[k]),
                    #[trigger] acc@[k],
                ),
        decreases n - j,
    {
        if j < acc.len() {
            let s = f(acc[j], other[j]);
            acc.set(j, s);
        }
        j += 1;
    }
}

/// `out` is `inb` with every element divided by `count`.
pub open spec fn normed_rel<S, F: Fn(S, usize) -> S>(
    f: F,
    count: usize,
    inb: Seq<S>,
    out: Seq<S>,
) -> bool {
    out.len() == inb.len() && forall|i: int|
        0 <= i < inb.len() ==> call_ensures(f, (inb[i], count), #[trigger] out[i])
}

/// Divides every element of `buf` by `count`, in place.
pub fn norm_all<S: Copy, F: Fn(S, usize) -> S>(f: &F, buf: &mut Vec<S>, count: usize)
    requires
        forall|x: S, c: usize| #[trigger] call_requires(*f, (x, c)),
    ensures
        normed_rel(*f, count, old(buf)@, final(buf)@),
{
    let n = buf.len();
    let mut i: usize = 0;
    while i < n
        invariant
            i <= n,
            buf.len() == n == old(buf)@.len(),
            forall|x: S, c: usize| #[trigger] call_requires(*f, (x, c)),
            forall|k: int| i <= k < n ==> buf@[k] == old(buf)@[k],
            forall|k: int|
                0 <= k < i ==> call_ensures(*f, (old(buf)@[k], count), #[trigger] buf@[k]),
        decreases n - i,
    {
        let s = f(buf[i], count);
        buf.set(i, s);
        i += 1;
    }
}

} // verus!
