//! Recognition of floating-point number text.
//!
//! An amount field is kept as its normalized text. The text is accepted
//! exactly when it belongs to the grammar that Rust's `f64` parser accepts:
//!
//! ```text
//! Float  ::= Sign? ( 'inf' | 'infinity' | 'nan' | Number )
//! Number ::= Digits '.'? Digits? Exp?
//!          | '.' Digits Exp?
//! Exp    ::= ('e' | 'E') Sign? Digits
//! Digits ::= Digit+
//! ```
//!
//! with `inf`, `infinity` and `nan` matched case-insensitively.

use vstd::prelude::*;
use vstd::string::StrSliceExecFns;

verus! {

/// An ASCII decimal digit.
pub open spec fn is_digit_char(c: char) -> bool {
    '0' <= c && c <= '9'
}

/// Every character of `s` is a decimal digit.
pub open spec fn all_digits(s: Seq<char>) -> bool {
    forall|k: int| 0 <= k < s.len() ==> is_digit_char(#[trigger] s[k])
}

/// `s` with one leading `+` or `-` removed, if present.
pub open spec fn after_sign(s: Seq<char>) -> Seq<char> {
    if s.len() > 0 && (s[0] == '+' || s[0] == '-') {
        s.skip(1)
    } else {
        s
    }
}

/// `inf`, in any mix of case.
pub open spec fn is_inf_seq(t: Seq<char>) -> bool {
    &&& t.len() == 3
    &&& (t[0] == 'i' || t[0] == 'I')
    &&& (t[1] == 'n' || t[1] == 'N')
    &&& (t[2] == 'f' || t[2] == 'F')
}

/// `infinity`, in any mix of case.
pub open spec fn is_infinity_seq(t: Seq<char>) -> bool {
    &&& t.len() == 8
    &&& (t[0] == 'i' || t[0] == 'I')
    &&& (t[1] == 'n' || t[1] == 'N')
    &&& (t[2] == 'f' || t[2] == 'F')
    &&& (t[3] == 'i' || t[3] == 'I')
    &&& (t[4] == 'n' || t[4] == 'N')
    &&& (t[5] == 'i' || t[5] == 'I')
    &&& (t[6] == 't' || t[6] == 'T')
    &&& (t[7] == 'y' || t[7] == 'Y')
}

/// `nan`, in any mix of case.
pub open spec fn is_nan_seq(t: Seq<char>) -> bool {
    &&& t.len() == 3
    &&& (t[0] == 'n' || t[0] == 'N')
    &&& (t[1] == 'a' || t[1] == 'A')
    &&& (t[2] == 'n' || t[2] == 'N')
}

/// Index of the first `.` in `s`, or -1 if there is none.
pub open spec fn find_dot(s: Seq<char>) -> int
    decreases s.len(),
{
    if s.len() == 0 {
        -1
    } else if s[0] == '.' {
        0
    } else {
        let r = find_dot(s.skip(1));
        if r == -1 {
            -1
        } else {
            r + 1
        }
    }
}

/// Index of the first `e` or `E` in `s`, or -1 if there is none.
pub open spec fn find_exp(s: Seq<char>) -> int
    decreases s.len(),
{
    if s.len() == 0 {
        -1
    } else if s[0] == 'e' || s[0] == 'E' {
        0
    } else {
        let r = find_exp(s.skip(1));
        if r == -1 {
            -1
        } else {
            r + 1
        }
    }
}

/// The digit part of a number, with an optional single dot somewhere in it:
/// digits with at least one digit, or digits around a dot with at least one
/// digit on one of its sides.
pub open spec fn is_mantissa(m: Seq<char>) -> bool {
    let di = find_dot(m);
    if di == -1 {
        m.len() > 0 && all_digits(m)
    } else {
        all_digits(m.take(di)) && all_digits(m.skip(di + 1)) && m.len() >= 2
    }
}

/// An exponent after its marker: an optional sign, then at least one digit.
pub open spec fn is_exp_tail(x: Seq<char>) -> bool {
    after_sign(x).len() > 0 && all_digits(after_sign(x))
}

/// A number without sign: a mantissa, optionally followed by an exponent.
pub open spec fn is_decimal(t: Seq<char>) -> bool {
    let ei = find_exp(t);
    if ei == -1 {
        is_mantissa(t)
    } else {
        is_mantissa(t.take(ei)) && is_exp_tail(t.skip(ei + 1))
    }
}

/// Text that Rust's `f64` parser accepts.
pub open spec fn is_f64_lit(s: Seq<char>) -> bool {
    let t = after_sign(s);
    is_inf_seq(t) || is_infinity_seq(t) || is_nan_seq(t) || is_decimal(t)
}

proof fn lemma_find_dot_at(t: Seq<char>, i: int)
    requires
        0 <= i <= t.len(),
        forall|k: int| 0 <= k < i ==> #[trigger] t[k] != '.',
        i == t.len() || t[i] == '.',
    ensures
        find_dot(t) == if i == t.len() {
            -1int
        } else {
            i
        },
    decreases i,
{
    if i == 0 {
    } else {
        lemma_find_dot_at(t.skip(1), i - 1);
    }
}

proof fn lemma_find_exp_at(t: Seq<char>, i: int)
    requires
        0 <= i <= t.len(),
        forall|k: int| 0 <= k < i ==> #[trigger] t[k] != 'e' && #[trigger] t[k] != 'E',
        i == t.len() || t[i] == 'e' || t[i] == 'E',
    ensures
        find_exp(t) == if i == t.len() {
            -1int
        } else {
            i
        },
    decreases i,
{
    if i == 0 {
    } else {
        lemma_find_exp_at(t.skip(1), i - 1);
    }
}

/// Every character of `s` in `[from, to)` is a decimal digit.
fn scan_digits(s: &str, from: usize, to: usize) -> (r: bool)
    requires
        from <= to <= s@.len(),
    ensures
        r == all_digits(s@.subrange(from as int, to as int)),
{
    let mut k: usize = from;
    while k < to
        invariant
            from <= k <= to <= s@.len(),
            forall|j: int| from <= j < k ==> is_digit_char(#[trigger] s@[j]),
        decreases to - k,
    {
        let c = s.get_char(k);
        if c < '0' || c > '9' {
            proof {
                assert(s@.subrange(from as int, to as int)[k - from] == s@[k as int]);
            }
            return false;
        }
        k = k + 1;
    }
    proof {
        assert forall|j: int| 0 <= j < to - from implies is_digit_char(
            #[trigger] s@.subrange(from as int, to as int)[j],
        ) by {
            assert(s@.subrange(from as int, to as int)[j] == s@[from + j]);
        }
    }
    true
}

/// Position of the first `.` in `[from, to)` of `s`, or `to` if none.
fn find_dot_in(s: &str, from: usize, to: usize) -> (r: usize)
    requires
        from <= to <= s@.len(),
    ensures
        from <= r <= to,
        find_dot(s@.subrange(from as int, to as int)) == if r == to {
            -1int
        } else {
            r - from
        },
        r < to ==> s@[r as int] == '.',
{
    let mut k: usize = from;
    while k < to
        invariant
            from <= k <= to <= s@.len(),
            forall|j: int| from <= j < k ==> #[trigger] s@[j] != '.',
        decreases to - k,
    {
        if s.get_char(k) == '.' {
            proof {
                lemma_dot_scan(s@, from as int, to as int, k as int);
            }
            return k;
        }
        k = k + 1;
    }
    proof {
        lemma_dot_scan(s@, from as int, to as int, to as int);
    }
    to
}

proof fn lemma_dot_scan(s: Seq<char>, from: int, to: int, k: int)
    requires
        0 <= from <= k <= to <= s.len(),
        forall|j: int| from <= j < k ==> #[trigger] s[j] != '.',
        k == to || s[k] == '.',
    ensures
        find_dot(s.subrange(from, to)) == if k == to {
            -1int
        } else {
            k - from
        },
{
    let t = s.subrange(from, to);
    assert forall|j: int| 0 <= j < k - from implies #[trigger] t[j] != '.' by {
        assert(t[j] == s[from + j]);
    }
    if k < to {
        assert(t[k - from] == s[k]);
    }
    lemma_find_dot_at(t, k - from);
}

/// Position of the first `e` or `E` in `[from, to)` of `s`, or `to` if none.
fn find_exp_in(s: &str, from: usize, to: usize) -> (r: usize)
    requires
        from <= to <= s@.len(),
    ensures
        from <= r <= to,
        find_exp(s@.subrange(from as int, to as int)) == if r == to {
            -1int
        } else {
            r - from
        },
{
    let mut k: usize = from;
    while k < to
        invariant
            from <= k <= to <= s@.len(),
            forall|j: int| from <= j < k ==> #[trigger] s@[j] != 'e' && #[trigger] s@[j] != 'E',
        decreases to - k,
    {
        let c = s.get_char(k);
        if c == 'e' || c == 'E' {
            proof {
                lemma_exp_scan(s@, from as int, to as int, k as int);
            }
            return k;
        }
        k = k + 1;
    }
    proof {
        lemma_exp_scan(s@, from as int, to as int, to as int);
    }
    to
}

proof fn lemma_exp_scan(s: Seq<char>, from: int, to: int, k: int)
    requires
        0 <= from <= k <= to <= s.len(),
        forall|j: int| from <= j < k ==> #[trigger] s[j] != 'e' && #[trigger] s[j] != 'E',
        k == to || s[k] == 'e' || s[k] == 'E',
    ensures
        find_exp(s.subrange(from, to)) == if k == to {
            -1int
        } else {
            k - from
        },
{
    let t = s.subrange(from, to);
    assert forall|j: int| 0 <= j < k - from implies #[trigger] t[j] != 'e' && #[trigger] t[j]
        != 'E' by {
        assert(t[j] == s[from + j]);
    }
    if k < to {
        assert(t[k - from] == s[k]);
    }
    lemma_find_exp_at(t, k - from);
}

/// Whether `[from, to)` of `s` is a mantissa.
fn mantissa_in(s: &str, from: usize, to: usize) -> (r: bool)
    requires
        from <= to <= s@.len(),
    ensures
        r == is_mantissa(s@.subrange(from as int, to as int)),
{
    let ghost m = s@.subrange(from as int, to as int);
    let di = find_dot_in(s, from, to);
    if di == to {
        if to == from {
            false
        } else {
            scan_digits(s, from, to)
        }
    } else {
        proof {
            assert(m.take(di - from) =~= s@.subrange(from as int, di as int));
            assert(m.skip(di - from + 1) =~= s@.subrange(di + 1, to as int));
        }
        let before = scan_digits(s, from, di);
        let after = scan_digits(s, di + 1, to);
        before && after && to - from >= 2
    }
}

/// Whether `[from, to)` of `s` is an exponent tail: optional sign, digits.
fn exp_tail_in(s: &str, from: usize, to: usize) -> (r: bool)
    requires
        from <= to <= s@.len(),
    ensures
        r == is_exp_tail(s@.subrange(from as int, to as int)),
{
    let ghost x = s@.subrange(from as int, to as int);
    let start: usize = if from < to && (s.get_char(from) == '+' || s.get_char(from) == '-') {
        from + 1
    } else {
        from
    };
    proof {
        if from < to {
            assert(x[0] == s@[from as int]);
        }
        assert(after_sign(x) =~= s@.subrange(start as int, to as int));
    }
    if start == to {
        false
    } else {
        scan_digits(s, start, to)
    }
}

/// Whether the whole of `s` is text that the `f64` parser accepts.
pub fn is_float_text(s: &str) -> (r: bool)
    ensures
        r == is_f64_lit(s@),
{
    let len = s.unicode_len();
    let start: usize = if len > 0 && (s.get_char(0) == '+' || s.get_char(0) == '-') {
        1
    } else {
        0
    };
    let ghost t = after_sign(s@);
    proof {
        assert(t =~= s@.subrange(start as int, len as int));
    }
    let rem = len - start;
    let inf_like = rem == 3 && ci_at(s, start, 'i', 'I') && ci_at(s, start + 1, 'n', 'N') && ci_at(
        s,
        start + 2,
        'f',
        'F',
    );
    let infinity_like = rem == 8 && ci_at(s, start, 'i', 'I') && ci_at(s, start + 1, 'n', 'N')
        && ci_at(s, start + 2, 'f', 'F') && ci_at(s, start + 3, 'i', 'I') && ci_at(
        s,
        start + 4,
        'n',
        'N',
    ) && ci_at(s, start + 5, 'i', 'I') && ci_at(s, start + 6, 't', 'T') && ci_at(
        s,
        start + 7,
        'y',
        'Y',
    );
    let nan_like = rem == 3 && ci_at(s, start, 'n', 'N') && ci_at(s, start + 1, 'a', 'A') && ci_at(
        s,
        start + 2,
        'n',
        'N',
    );
    proof {
        assert forall|j: int| 0 <= j < t.len() implies #[trigger] t[j] == s@[start + j] by {}
        assert(inf_like == is_inf_seq(t));
        assert(infinity_like == is_infinity_seq(t));
        assert(nan_like == is_nan_seq(t));
    }
    if inf_like || infinity_like || nan_like {
        return true;
    }
    let ei = find_exp_in(s, start, len);
    if ei == len {
        mantissa_in(s, start, len)
    } else {
        proof {
            assert(t.take(ei - start) =~= s@.subrange(start as int, ei as int));
            assert(t.skip(ei - start + 1) =~= s@.subrange(ei + 1, len as int));
        }
        let m = mantissa_in(s, start, ei);
        let x = exp_tail_in(s, ei + 1, len);
        m && x
    }
}

/// Whether character `i` of `s` is `lo` or `up`.
fn ci_at(s: &str, i: usize, lo: char, up: char) -> (r: bool)
    requires
        i < s@.len(),
    ensures
        r == (s@[i as int] == lo || s@[i as int] == up),
{
    let c = s.get_char(i);
    c == lo || c == up
}

} // verus!
