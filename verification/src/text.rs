//! Character-level text utilities shared by the spec tokenizer and the
//! parameter parser: whitespace classification, trimming, and scanning.
//!
//! Everything here is defined over `Seq<char>` views, so the exec functions
//! carry exact contracts.

use vstd::prelude::*;

verus! {

/// The Unicode `White_Space` code points, the set that `str::trim` removes
/// at either end of a string.
pub open spec fn is_space_char(c: char) -> bool {
    let u = c as u32;
    u == 0x20 || (0x09 <= u && u <= 0x0D) || u == 0x85 || u == 0xA0 || u == 0x1680 || (0x2000 <= u
        && u <= 0x200A) || u == 0x2028 || u == 0x2029 || u == 0x202F || u == 0x205F || u == 0x3000
}

/// Decimal digit.
pub open spec fn is_digit_char(c: char) -> bool {
    let u = c as u32;
    0x30 <= u && u <= 0x39
}

/// The given sequence with leading whitespace removed.
pub open spec fn trim_front(s: Seq<char>) -> Seq<char>
    decreases s.len(),
{
    if s.len() > 0 && is_space_char(s[0]) {
        trim_front(s.subrange(1, s.len() as int))
    } else {
        s
    }
}

/// The given sequence with trailing whitespace removed.
pub open spec fn trim_back(s: Seq<char>) -> Seq<char>
    decreases s.len(),
{
    if s.len() > 0 && is_space_char(s[s.len() - 1]) {
        trim_back(s.subrange(0, s.len() - 1))
    } else {
        s
    }
}

/// The given sequence with whitespace removed at both ends.
pub open spec fn trim(s: Seq<char>) -> Seq<char> {
    trim_back(trim_front(s))
}

pub proof fn lemma_trim_front_len(s: Seq<char>)
    ensures
        trim_front(s).len() <= s.len(),
    decreases s.len(),
{
    if s.len() > 0 && is_space_char(s[0]) {
        lemma_trim_front_len(s.subrange(1, s.len() as int));
    }
}

pub proof fn lemma_trim_back_len(s: Seq<char>)
    ensures
        trim_back(s).len() <= s.len(),
    decreases s.len(),
{
    if s.len() > 0 && is_space_char(s[s.len() - 1]) {
        lemma_trim_back_len(s.subrange(0, s.len() - 1));
    }
}

pub proof fn lemma_trim_len(s: Seq<char>)
    ensures
        trim(s).len() <= s.len(),
{
    lemma_trim_front_len(s);
    lemma_trim_back_len(trim_front(s));
}

/// Whether `c` is whitespace, mirroring `is_space_char`.
pub fn is_space(c: char) -> (r: bool)
    ensures
        r == is_space_char(c),
{
    let u = c as u32;
    u == 0x20 || (0x09 <= u && u <= 0x0D) || u == 0x85 || u == 0xA0 || u == 0x1680 || (0x2000 <= u
        && u <= 0x200A) || u == 0x2028 || u == 0x2029 || u == 0x202F || u == 0x205F || u == 0x3000
}

/// Whether `c` is a decimal digit, mirroring `is_digit_char`.
pub fn is_digit(c: char) -> (r: bool)
    ensures
        r == is_digit_char(c),
{
    let u = c as u32;
    0x30 <= u && u <= 0x39
}

/// The bounds of `s[from..to]` once whitespace at both ends is dropped.
pub fn trim_bounds(s: &str, from: usize, to: usize) -> (r: (usize, usize))
    requires
        from <= to <= s@.len(),
    ensures
        from <= r.0 <= r.1 <= to,
        s@.subrange(r.0 as int, r.1 as int) == trim(s@.subrange(from as int, to as int)),
{
    let ghost whole = s@.subrange(from as int, to as int);
    let mut lo: usize = from;
    while lo < to && is_space(s.get_char(lo))
        invariant
            from <= lo <= to <= s@.len(),
            trim_front(whole) == trim_front(s@.subrange(lo as int, to as int)),
            whole == s@.subrange(from as int, to as int),
        decreases to - lo,
    {
        proof {
            let cur = s@.subrange(lo as int, to as int);
            assert(cur.subrange(1, cur.len() as int) =~= s@.subrange(lo + 1, to as int));
        }
        lo += 1;
    }
    proof {
        let cur = s@.subrange(lo as int, to as int);
        assert(trim_front(cur) == cur);
    }
    let ghost fronted = s@.subrange(lo as int, to as int);
    let mut hi: usize = to;
    while hi > lo && is_space(s.get_char(hi - 1))
        invariant
            from <= lo <= hi <= to <= s@.len(),
            trim_back(fronted) == trim_back(s@.subrange(lo as int, hi as int)),
            fronted == s@.subrange(lo as int, to as int),
        decreases hi - lo,
    {
        proof {
            let cur = s@.subrange(lo as int, hi as int);
            assert(cur.subrange(0, cur.len() - 1) =~= s@.subrange(lo as int, hi - 1));
        }
        hi -= 1;
    }
    proof {
        let cur = s@.subrange(lo as int, hi as int);
        assert(trim_back(cur) == cur);
    }
    (lo, hi)
}

/// The index of the first occurrence of `c` in `s`, if any.
pub fn find_char(s: &str, c: char) -> (r: Option<usize>)
    ensures
        match r {
            Some(i) => i < s@.len() && s@[i as int] == c && (forall|j: int|
                0 <= j < i ==> s@[j] != c),
            None => forall|j: int| 0 <= j < s@.len() ==> s@[j] != c,
        },
{
    let n = s.unicode_len();
    let mut i: usize = 0;
    while i < n
        invariant
            i <= n == s@.len(),
            forall|j: int| 0 <= j < i ==> s@[j] != c,
        decreases n - i,
    {
        if s.get_char(i) == c {
            return Some(i);
        }
        i += 1;
    }
    None
}

/// The index of the first occurrence of `c` in `s`, or `-1`.
pub open spec fn find_index(s: Seq<char>, c: char) -> int
    decreases s.len(),
{
    if s.len() == 0 {
        -1
    } else if s[0] == c {
        0
    } else {
        let r = find_index(s.subrange(1, s.len() as int), c);
        if r < 0 {
            -1
        } else {
            r + 1
        }
    }
}

pub proof fn lemma_find_index(s: Seq<char>, c: char)
    ensures
        find_index(s, c) == -1 ==> forall|j: int| 0 <= j < s.len() ==> s[j] != c,
        find_index(s, c) != -1 ==> 0 <= find_index(s, c) < s.len() && s[find_index(s, c)] == c && (
        forall|j: int| 0 <= j < find_index(s, c) ==> s[j] != c),
    decreases s.len(),
{
    if s.len() > 0 && s[0] != c {
        let t = s.subrange(1, s.len() as int);
        lemma_find_index(t, c);
        assert(forall|j: int| 1 <= j < s.len() ==> #[trigger] s[j] == t[j - 1]);
    }
}

/// The index of the first occurrence of `c` in `s`, as `find_index` gives
/// it.
pub fn find_first(s: &str, c: char) -> (r: Option<usize>)
    ensures
        match r {
            Some(i) => find_index(s@, c) == i,
            None => find_index(s@, c) == -1,
        },
{
    proof {
        lemma_find_index(s@, c);
    }
    let n = s.unicode_len();
    let mut i: usize = 0;
    while i < n
        invariant
            i <= n == s@.len(),
            forall|j: int| 0 <= j < i ==> s@[j] != c,
        decreases n - i,
    {
        if s.get_char(i) == c {
            proof {
                lemma_find_index(s@, c);
            }
            return Some(i);
        }
        i += 1;
    }
    None
}

/// Appends to `acc` the pieces of `s[i..]` split on every `sep`, with the
/// current piece reaching back to `start`.
pub open spec fn spec_split_from(
    s: Seq<char>,
    sep: char,
    i: int,
    start: int,
    acc: Seq<Seq<char>>,
) -> Seq<Seq<char>>
    recommends
        0 <= start <= i <= s.len(),
    decreases s.len() - i,
    when i <= s.len()
{
    if i >= s.len() {
        acc.push(s.subrange(start, s.len() as int))
    } else if s[i] == sep {
        spec_split_from(s, sep, i + 1, i + 1, acc.push(s.subrange(start, i)))
    } else {
        spec_split_from(s, sep, i + 1, start, acc)
    }
}

/// The pieces of `s` split on every `sep`; empty pieces are kept, and the
/// result is never empty.
pub open spec fn spec_split(s: Seq<char>, sep: char) -> Seq<Seq<char>> {
    spec_split_from(s, sep, 0, 0, Seq::empty())
}

/// Splits `s` on every occurrence of `sep`, keeping empty pieces.
pub fn split_all(s: &str, sep: char) -> (r: Vec<String>)
    ensures
        r.deep_view() == spec_split(s@, sep),
{
    let n = s.unicode_len();
    let mut out: Vec<String> = Vec::new();
    let mut i: usize = 0;
    let mut start: usize = 0;
    proof {
        assert(out.deep_view() =~= Seq::<Seq<char>>::empty());
    }
    while i < n
        invariant
            0 <= start <= i <= n == s@.len(),
            spec_split(s@, sep) == spec_split_from(
                s@,
                sep,
                i as int,
                start as int,
                out.deep_view(),
            ),
        decreases n - i,
    {
        let c = s.get_char(i);
        if c == sep {
            let ghost before = out.deep_view();
            let piece = s.substring_char(start, i).to_owned();
            out.push(piece);
            proof {
                assert(out.deep_view() =~= before.push(s@.subrange(start as int, i as int)));
            }
            start = i + 1;
        }
        i += 1;
    }
    let ghost before = out.deep_view();
    let piece = s.substring_char(start, n).to_owned();
    out.push(piece);
    proof {
        assert(out.deep_view() =~= before.push(s@.subrange(start as int, n as int)));
    }
    out
}

/// Whether two string slices hold the same characters.
pub fn text_eq(a: &str, b: &str) -> (r: bool)
    ensures
        r == (a@ == b@),
{
    let na = a.unicode_len();
    let nb = b.unicode_len();
    if na != nb {
        return false;
    }
    let mut i: usize = 0;
    while i < na
        invariant
            i <= na == a@.len(),
            na == nb == b@.len(),
            forall|j: int| 0 <= j < i ==> a@[j] == b@[j],
        decreases na - i,
    {
        if a.get_char(i) != b.get_char(i) {
            assert(a@ != b@);
            return false;
        }
        i += 1;
    }
    proof {
        assert(a@ =~= b@);
    }
    true
}

} // verus!
