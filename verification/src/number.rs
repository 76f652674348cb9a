//! Numeric parameter values.
//!
//! Parameter values such as a frequency or a gain level are numeric, but the
//! library never computes with them: it validates their syntax and carries
//! the text, and callers convert the text to their sample arithmetic's
//! number type. `is_float_syntax` states the accepted grammar, the grammar
//! of Rust's standard float parser:
//!
//! ```text
//! Float  ::= Sign? ( 'inf' | 'infinity' | 'nan' | Number )
//! Number ::= Count '.'? Count? Exp? | '.' Count Exp?
//! Exp    ::= ('e' | 'E') Sign? Count
//! Count  ::= Digit+
//! ```
//!
//! with `inf`, `infinity` and `nan` matched case-insensitively.

use vstd::prelude::*;

use crate::text::is_digit;
use crate::text::is_digit_char;

verus! {

pub open spec fn is_sign_char(c: char) -> bool {
    c == '+' || c == '-'
}

pub open spec fn is_exp_char(c: char) -> bool {
    c == 'e' || c == 'E'
}

/// `c` equals the (lower-case ASCII letter) `l`, ignoring case.
pub open spec fn ci_eq_char(c: char, l: char) -> bool {
    c == l || c as u32 + 0x20 == l as u32
}

pub open spec fn all_digit_chars(s: Seq<char>) -> bool {
    forall|j: int| 0 <= j < s.len() ==> is_digit_char(#[trigger] s[j])
}

/// `inf`, ignoring case.
pub open spec fn is_inf_word(s: Seq<char>) -> bool {
    s.len() == 3 && ci_eq_char(s[0], 'i') && ci_eq_char(s[1], 'n') && ci_eq_char(s[2], 'f')
}

/// `infinity`, ignoring case.
pub open spec fn is_infinity_word(s: Seq<char>) -> bool {
    s.len() == 8 && ci_eq_char(s[0], 'i') && ci_eq_char(s[1], 'n') && ci_eq_char(s[2], 'f')
        && ci_eq_char(s[3], 'i') && ci_eq_char(s[4], 'n') && ci_eq_char(s[5], 'i') && ci_eq_char(
        s[6],
        't',
    ) && ci_eq_char(s[7], 'y')
}

/// `nan`, ignoring case.
pub open spec fn is_nan_word(s: Seq<char>) -> bool {
    s.len() == 3 && ci_eq_char(s[0], 'n') && ci_eq_char(s[1], 'a') && ci_eq_char(s[2], 'n')
}

pub open spec fn is_special_word(s: Seq<char>) -> bool {
    is_inf_word(s) || is_infinity_word(s) || is_nan_word(s)
}

/// `Count '.'? Count? | '.' Count`: digits and at most one dot, with at
/// least one digit.
pub open spec fn is_mantissa(s: Seq<char>) -> bool {
    &&& s.len() > 0
    &&& forall|j: int| 0 <= j < s.len() ==> is_digit_char(#[trigger] s[j]) || s[j] == '.'
    &&& forall|i: int, j: int|
        0 <= i < s.len() && 0 <= j < s.len() && #[trigger] s[i] == '.' && #[trigger] s[j] == '.'
            ==> i == j
    &&& exists|j: int| 0 <= j < s.len() && is_digit_char(#[trigger] s[j])
}

/// `Sign? Count`.
pub open spec fn is_exp_suffix(s: Seq<char>) -> bool {
    let t = if s.len() > 0 && is_sign_char(s[0]) {
        s.subrange(1, s.len() as int)
    } else {
        s
    };
    t.len() > 0 && all_digit_chars(t)
}

/// `Number ::= Mantissa Exp?`.
pub open spec fn is_decimal_body(s: Seq<char>) -> bool {
    is_mantissa(s) || (exists|i: int|
        0 <= i < s.len() && is_exp_char(#[trigger] s[i]) && is_mantissa(s.subrange(0, i))
            && is_exp_suffix(s.subrange(i + 1, s.len() as int)))
}

/// The whole grammar: an optional sign, then a special word or a number.
pub open spec fn is_float_syntax(s: Seq<char>) -> bool {
    let b = if s.len() > 0 && is_sign_char(s[0]) {
        s.subrange(1, s.len() as int)
    } else {
        s
    };
    is_special_word(b) || is_decimal_body(b)
}

/// Whether the character at `i` is an exponent marker.
fn is_exp_at(s: &str, i: usize) -> (r: bool)
    requires
        i < s@.len(),
    ensures
        r == is_exp_char(s@[i as int]),
{
    let c = s.get_char(i);
    c == 'e' || c == 'E'
}

/// Case-insensitive comparison against a lower-case letter.
fn ci_eq(c: char, l: char) -> (r: bool)
    ensures
        r == ci_eq_char(c, l),
{
    c == l || (c as u32) + 0x20 == (l as u32)
}

/// Whether `s[lo..]` is one of the special words, ignoring case.
fn matches_special(s: &str, lo: usize) -> (r: bool)
    requires
        lo <= s@.len(),
    ensures
        r == is_special_word(s@.subrange(lo as int, s@.len() as int)),
{
    let ghost b = s@.subrange(lo as int, s@.len() as int);
    proof {
        assert(forall|j: int| 0 <= j < b.len() ==> b[j] == s@[lo + j]);
    }
    let n = s.unicode_len();
    if n - lo == 3 {
        let inf = ci_eq(s.get_char(lo), 'i') && ci_eq(s.get_char(lo + 1), 'n') && ci_eq(
            s.get_char(lo + 2),
            'f',
        );
        let nan = ci_eq(s.get_char(lo), 'n') && ci_eq(s.get_char(lo + 1), 'a') && ci_eq(
            s.get_char(lo + 2),
            'n',
        );
        inf || nan
    } else if n - lo == 8 {
        ci_eq(s.get_char(lo), 'i') && ci_eq(s.get_char(lo + 1), 'n') && ci_eq(
            s.get_char(lo + 2),
            'f',
        ) && ci_eq(s.get_char(lo + 3), 'i') && ci_eq(s.get_char(lo + 4), 'n') && ci_eq(
            s.get_char(lo + 5),
            'i',
        ) && ci_eq(s.get_char(lo + 6), 't') && ci_eq(s.get_char(lo + 7), 'y')
    } else {
        false
    }
}

/// Whether `s[lo..hi]` is a mantissa.
fn check_mantissa(s: &str, lo: usize, hi: usize) -> (r: bool)
    requires
        lo <= hi <= s@.len(),
    ensures
        r == is_mantissa(s@.subrange(lo as int, hi as int)),
{
    let ghost m = s@.subrange(lo as int, hi as int);
    proof {
        assert(forall|j: int| 0 <= j < m.len() ==> m[j] == s@[lo + j]);
    }
    let mut seen_digit: bool = false;
    let mut seen_dot: bool = false;
    let mut j: usize = lo;
    while j < hi
        invariant
            lo <= j <= hi <= s@.len(),
            m == s@.subrange(lo as int, hi as int),
            forall|j: int| 0 <= j < m.len() ==> m[j] == s@[lo + j],
            seen_digit == exists|k: int| 0 <= k < j - lo && is_digit_char(#[trigger] m[k]),
            forall|k: int| 0 <= k < j - lo ==> is_digit_char(#[trigger] m[k]) || m[k] == '.',
            seen_dot == exists|k: int| 0 <= k < j - lo && #[trigger] m[k] == '.',
            forall|k1: int, k2: int|
                0 <= k1 < j - lo && 0 <= k2 < j - lo && #[trigger] m[k1] == '.' && #[trigger] m[k2]
                    == '.' ==> k1 == k2,
        decreases hi - j,
    {
        let c = s.get_char(j);
        if is_digit(c) {
            proof {
                assert(is_digit_char(m[j - lo]));
                assert(m[j - lo] != '.');
            }
            seen_digit = true;
        } else if c == '.' {
            proof {
                assert(m[j - lo] == '.');
                assert(!is_digit_char(m[j - lo]));
            }
            if seen_dot {
                proof {
                    let k1 = choose|k: int| 0 <= k < j - lo && #[trigger] m[k] == '.';
                    assert(m[k1] == '.' && m[j - lo] == '.' && k1 != j - lo);
                }
                return false;
            }
            seen_dot = true;
        } else {
            assert(!(is_digit_char(m[j - lo]) || m[j - lo] == '.'));
            return false;
        }
        j += 1;
    }
    seen_digit
}

/// Whether `s[lo..]` is an exponent suffix (optional sign, then digits).
fn check_exp_suffix(s: &str, lo: usize) -> (r: bool)
    requires
        lo <= s@.len(),
    ensures
        r == is_exp_suffix(s@.subrange(lo as int, s@.len() as int)),
{
    let ghost su = s@.subrange(lo as int, s@.len() as int);
    proof {
        assert(forall|j: int| 0 <= j < su.len() ==> su[j] == s@[lo + j]);
    }
    let n = s.unicode_len();
    let mut dlo: usize = lo;
    if lo < n {
        let c = s.get_char(lo);
        if c == '+' || c == '-' {
            dlo = lo + 1;
        }
    }
    let ghost t = s@.subrange(dlo as int, s@.len() as int);
    proof {
        assert(t =~= (if su.len() > 0 && is_sign_char(su[0]) {
            su.subrange(1, su.len() as int)
        } else {
            su
        }));
        assert(forall|j: int| 0 <= j < t.len() ==> t[j] == s@[dlo + j]);
    }
    if dlo == n {
        proof {
            assert(t.len() == 0);
            assert(!is_exp_suffix(su));
        }
        return false;
    }
    let mut k: usize = dlo;
    while k < n
        invariant
            dlo <= k <= n == s@.len(),
            t == s@.subrange(dlo as int, s@.len() as int),
            forall|j: int| 0 <= j < t.len() ==> t[j] == s@[dlo + j],
            forall|q: int| 0 <= q < k - dlo ==> is_digit_char(#[trigger] t[q]),
            is_exp_suffix(s@.subrange(lo as int, s@.len() as int)) == (t.len() > 0
                && all_digit_chars(t)),
        decreases n - k,
    {
        if !is_digit(s.get_char(k)) {
            assert(!is_digit_char(t[k - dlo]));
            assert(!all_digit_chars(t));
            return false;
        }
        k += 1;
    }
    proof {
        assert(t.len() > 0 && all_digit_chars(t));
        assert(is_exp_suffix(su));
    }
    true
}

/// Whether `s` is a syntactically valid float literal, per
/// `is_float_syntax`.
pub fn is_float_text(s: &str) -> (r: bool)
    ensures
        r == is_float_syntax(s@),
{
    let n = s.unicode_len();
    let mut lo: usize = 0;
    if n > 0 {
        let c = s.get_char(0);
        if c == '+' || c == '-' {
            lo = 1;
        }
    }
    let ghost b = s@.subrange(lo as int, n as int);
    proof {
        assert(forall|j: int| 0 <= j < b.len() ==> b[j] == s@[lo + j]);
        if s@.len() > 0 && is_sign_char(s@[0]) {
            assert(b =~= s@.subrange(1, s@.len() as int));
        } else {
            assert(b =~= s@);
        }
    }
    if matches_special(s, lo) {
        return true;
    }
    // Position of the first exponent marker, if any.
    let mut epos: usize = lo;
    while epos < n && !is_exp_at(s, epos)
        invariant
            lo <= epos <= n == s@.len(),
            forall|j: int| lo <= j < epos ==> !is_exp_char(s@[j]),
        decreases n - epos,
    {
        epos += 1;
    }
    let mant_ok = check_mantissa(s, lo, epos);
    if epos == n {
        proof {
            assert(b =~= s@.subrange(lo as int, epos as int));
            if !mant_ok && is_decimal_body(b) {
                let i = choose|i: int|
                    0 <= i < b.len() && is_exp_char(#[trigger] b[i]) && is_mantissa(
                        b.subrange(0, i),
                    ) && is_exp_suffix(b.subrange(i + 1, b.len() as int));
                assert(b[i] == s@[lo + i]);
            }
        }
        return mant_ok;
    }
    let exp_ok = check_exp_suffix(s, epos + 1);
    proof {
        let i0 = epos - lo;
        assert(b.subrange(0, i0) =~= s@.subrange(lo as int, epos as int));
        assert(b.subrange(i0 + 1, b.len() as int) =~= s@.subrange(epos + 1, n as int));
        assert(is_exp_char(b[i0]));
        if mant_ok && exp_ok {
            assert(is_decimal_body(b));
        } else {
            assert(!is_float_syntax(s@)) by {
                if is_decimal_body(b) {
                    if is_mantissa(b) {
                        assert(!(is_digit_char(b[i0]) || b[i0] == '.'));
                    } else {
                        let i = choose|i: int|
                            0 <= i < b.len() && is_exp_char(#[trigger] b[i]) && is_mantissa(
                                b.subrange(0, i),
                            ) && is_exp_suffix(b.subrange(i + 1, b.len() as int));
                        if i > i0 {
                            assert(b.subrange(0, i)[i0] == b[i0]);
                            assert(!(is_digit_char(b[i0]) || b[i0] == '.'));
                        } else if i < i0 {
                            assert(b[i] == s@[lo + i]);
                        } else {
                            assert(b.subrange(0, i) =~= s@.subrange(lo as int, epos as int));
                        }
                    }
                }
            }
        }
    }
    mant_ok && exp_ok
}

/// A non-empty run of digits satisfies the float grammar.
pub proof fn lemma_digit_text_is_float_syntax(s: Seq<char>)
    requires
        s.len() > 0,
        all_digit_chars(s),
    ensures
        is_float_syntax(s),
{
    assert(is_digit_char(s[0]));
    assert(!is_sign_char(s[0]));
    assert(is_mantissa(s)) by {
        assert(forall|j: int| 0 <= j < s.len() ==> is_digit_char(#[trigger] s[j]) || s[j] == '.');
        assert(forall|i: int| 0 <= i < s.len() ==> #[trigger] s[i] != '.');
        assert(0 <= 0 < s.len() && is_digit_char(s[0]));
    }
    assert(is_decimal_body(s));
}

/// A numeric parameter value, held as validated text.
#[derive(Debug)]
pub struct Number {
    text: String,
}

impl View for Number {
    type V = Seq<char>;

    closed spec fn view(&self) -> Seq<char> {
        self.text@
    }
}

impl Number {
    /// Every constructed value satisfies the float grammar.
    pub open spec fn wf(&self) -> bool {
        is_float_syntax(self@)
    }

    /// Validates `s` against the float grammar and takes it as a value.
    pub fn from_text(s: &str) -> (r: Option<Number>)
        ensures
            match r {
                Some(v) => is_float_syntax(s@) && v@ == s@,
                None => !is_float_syntax(s@),
            },
    {
        if is_float_text(s) {
            Some(Number { text: s.to_owned() })
        } else {
            None
        }
    }

    /// The value's text, for callers that convert it to a number type.
    pub fn as_text(&self) -> (r: &str)
        ensures
            r@ == self@,
    {
        self.text.as_str()
    }

    /// An identical copy.
    pub fn dup(&self) -> (r: Number)
        ensures
            r@ == self@,
    {
        Number { text: self.text.clone() }
    }
}

} // verus!
