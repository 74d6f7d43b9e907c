//! Character-level text utilities: whitespace trimming, comma removal,
//! prefix tests and splitting a document into lines.
//!
//! Each executable function carries a contract that ties its result to a
//! spec-level function over sequences of characters; the parsing engine's
//! specification is built from those same spec functions.

use vstd::prelude::*;
use vstd::string::StrSliceExecFns;
use vstd::string::StringExecFns;

verus! {

/// Whether `c` counts as whitespace when an amount field is trimmed: the
/// characters with the Unicode `White_Space` property — the ASCII controls
/// tab through carriage return, the space, next line, no-break space, the
/// Ogham space mark, the typographic spaces, the line and paragraph
/// separators, the narrow no-break and medium mathematical spaces, and the
/// ideographic space.
pub open spec fn is_ws(c: char) -> bool {
    ||| ('\u{0009}' <= c && c <= '\u{000D}')
    ||| c == ' '
    ||| c == '\u{0085}'
    ||| c == '\u{00A0}'
    ||| c == '\u{1680}'
    ||| ('\u{2000}' <= c && c <= '\u{200A}')
    ||| c == '\u{2028}'
    ||| c == '\u{2029}'
    ||| c == '\u{202F}'
    ||| c == '\u{205F}'
    ||| c == '\u{3000}'
}

/// Relies on char::is_whitespace: true exactly for the characters with the
/// Unicode `White_Space` property, which [`is_ws`] lists; a fact of the
/// character alone.
#[verifier::external_body]
fn ws_char(c: char) -> (r: bool)
    ensures
        r == is_ws(c),
{
    c.is_whitespace()
}

/// `s` with its leading whitespace removed.
pub open spec fn trim_start(s: Seq<char>) -> Seq<char>
    decreases s.len(),
{
    if s.len() > 0 && is_ws(s[0]) {
        trim_start(s.skip(1))
    } else {
        s
    }
}

/// `s` with its trailing whitespace removed.
pub open spec fn trim_end(s: Seq<char>) -> Seq<char>
    decreases s.len(),
{
    if s.len() > 0 && is_ws(s[s.len() - 1]) {
        trim_end(s.drop_last())
    } else {
        s
    }
}

/// `s` with whitespace removed from both ends.
pub open spec fn spec_trim(s: Seq<char>) -> Seq<char> {
    trim_end(trim_start(s))
}

proof fn lemma_trim_start_skip(s: Seq<char>, i: int)
    requires
        0 <= i <= s.len(),
        forall|k: int| 0 <= k < i ==> is_ws(s[k]),
        i == s.len() || !is_ws(s[i]),
    ensures
        trim_start(s) == s.skip(i),
    decreases i,
{
    if i == 0 {
        assert(s.skip(0) =~= s);
    } else {
        lemma_trim_start_skip(s.skip(1), i - 1);
        assert(s.skip(1).skip(i - 1) =~= s.skip(i));
    }
}

proof fn lemma_trim_end_take(s: Seq<char>, j: int)
    requires
        0 <= j <= s.len(),
        forall|k: int| j <= k < s.len() ==> is_ws(s[k]),
        j == 0 || !is_ws(s[j - 1]),
    ensures
        trim_end(s) == s.take(j),
    decreases s.len() - j,
{
    if j == s.len() {
        assert(s.take(j) =~= s);
    } else {
        assert(is_ws(s[s.len() - 1]));
        lemma_trim_end_take(s.drop_last(), j);
        assert(s.drop_last().take(j) =~= s.take(j));
    }
}

/// The longest slice of `s` with no whitespace at either end,
/// as `str::trim` cuts it.
pub fn trim_str<'a>(s: &'a str) -> (r: &'a str)
    ensures
        r@ == spec_trim(s@),
{
    let len = s.unicode_len();
    let mut b: usize = 0;
    while b < len && ws_char(s.get_char(b))
        invariant
            0 <= b <= len,
            len == s@.len(),
            forall|k: int| 0 <= k < b ==> is_ws(s@[k]),
        decreases len - b,
    {
        b = b + 1;
    }
    let mut e: usize = len;
    while e > b && ws_char(s.get_char(e - 1))
        invariant
            b <= e <= len,
            len == s@.len(),
            forall|k: int| e <= k < len ==> is_ws(s@[k]),
        decreases e,
    {
        e = e - 1;
    }
    proof {
        lemma_trim_start_skip(s@, b as int);
        lemma_trim_end_take(s@.skip(b as int), e - b);
        assert(s@.skip(b as int).take(e - b) =~= s@.subrange(b as int, e as int));
    }
    s.substring_char(b, e)
}

/// `s` with every comma removed.
pub open spec fn strip_commas(s: Seq<char>) -> Seq<char>
    decreases s.len(),
{
    if s.len() == 0 {
        Seq::empty()
    } else if s[0] == ',' {
        strip_commas(s.skip(1))
    } else {
        seq![s[0]] + strip_commas(s.skip(1))
    }
}

proof fn lemma_strip_commas_push(s: Seq<char>, c: char)
    ensures
        strip_commas(s.push(c)) == if c == ',' {
            strip_commas(s)
        } else {
            strip_commas(s).push(c)
        },
    decreases s.len(),
{
    if s.len() == 0 {
        assert(s.push(c)[0] == c);
        assert(s.push(c).skip(1) =~= s);
        assert(strip_commas(s) == Seq::<char>::empty());
        if c == ',' {
            assert(strip_commas(s.push(c)) == strip_commas(s));
        } else {
            assert(strip_commas(s.push(c)) == seq![c] + strip_commas(s));
            assert(seq![c] + strip_commas(s) =~= strip_commas(s).push(c));
        }
    } else {
        assert(s.push(c)[0] == s[0]);
        assert(s.push(c).skip(1) =~= s.skip(1).push(c));
        lemma_strip_commas_push(s.skip(1), c);
        if s[0] == ',' {
            assert(strip_commas(s.push(c)) == strip_commas(s.skip(1).push(c)));
            assert(strip_commas(s) == strip_commas(s.skip(1)));
        } else {
            assert(strip_commas(s.push(c)) == seq![s[0]] + strip_commas(s.skip(1).push(c)));
            assert(strip_commas(s) == seq![s[0]] + strip_commas(s.skip(1)));
            if c != ',' {
                assert(seq![s[0]] + strip_commas(s.skip(1)).push(c) =~= (seq![s[0]]
                    + strip_commas(s.skip(1))).push(c));
            }
        }
    }
}

/// A copy of `s` with every comma dropped, other characters kept in order.
pub fn remove_commas(s: &str) -> (r: String)
    ensures
        r@ == strip_commas(s@),
{
    let len = s.unicode_len();
    let mut r = String::new();
    let mut i: usize = 0;
    while i < len
        invariant
            0 <= i <= len,
            len == s@.len(),
            r@ == strip_commas(s@.subrange(0, i as int)),
        decreases len - i,
    {
        let c = s.get_char(i);
        if c != ',' {
            r.append(s.substring_char(i, i + 1));
        }
        proof {
            lemma_strip_commas_push(s@.subrange(0, i as int), s@[i as int]);
            assert(s@.subrange(0, i as int).push(s@[i as int]) =~= s@.subrange(0, i + 1));
            if s@[i as int] != ',' {
                assert(s@.subrange(i as int, i + 1) =~= seq![s@[i as int]]);
            }
        }
        i = i + 1;
    }
    proof {
        assert(s@.subrange(0, len as int) =~= s@);
    }
    r
}

/// `p` is an initial run of `s`.
pub open spec fn has_prefix(s: Seq<char>, p: Seq<char>) -> bool {
    s.len() >= p.len() && forall|k: int| 0 <= k < p.len() ==> s[k] == p[k]
}

/// Whether `s` starts with `p`, compared character by character.
pub fn str_has_prefix(s: &str, p: &str) -> (r: bool)
    ensures
        r == has_prefix(s@, p@),
{
    let sl = s.unicode_len();
    let pl = p.unicode_len();
    if sl < pl {
        return false;
    }
    let mut k: usize = 0;
    while k < pl
        invariant
            0 <= k <= pl,
            pl == p@.len(),
            sl == s@.len(),
            sl >= pl,
            forall|j: int| 0 <= j < k ==> s@[j] == p@[j],
        decreases pl - k,
    {
        if s.get_char(k) != p.get_char(k) {
            return false;
        }
        k = k + 1;
    }
    true
}

/// A line consisting of the single record-terminator character.
pub open spec fn is_terminator(line: Seq<char>) -> bool {
    line.len() == 1 && line[0] == '^'
}

/// Whether `line` is exactly the record terminator `^`.
pub fn is_terminator_line(line: &str) -> (r: bool)
    ensures
        r == is_terminator(line@),
{
    if line.unicode_len() == 1 {
        line.get_char(0) == '^'
    } else {
        false
    }
}

/// A line with a trailing carriage return removed; used where a line was
/// cut at a line feed, so that `\r\n` endings behave like plain `\n`.
pub open spec fn strip_cr(l: Seq<char>) -> Seq<char> {
    if l.len() > 0 && l[l.len() - 1] == '\r' {
        l.drop_last()
    } else {
        l
    }
}

/// The lines of `s` after `cur`, where `cur` is a partially read line.
pub open spec fn lines_rec(s: Seq<char>, cur: Seq<char>) -> Seq<Seq<char>>
    decreases s.len(),
{
    if s.len() == 0 {
        if cur.len() == 0 {
            Seq::empty()
        } else {
            seq![cur]
        }
    } else if s[0] == '\n' {
        seq![strip_cr(cur)] + lines_rec(s.skip(1), Seq::empty())
    } else {
        lines_rec(s.skip(1), cur.push(s[0]))
    }
}

/// The lines of `s`: split at `\n` or `\r\n`, the final line ending
/// optional, exactly as `str::lines` cuts them.
pub open spec fn spec_lines(s: Seq<char>) -> Seq<Seq<char>> {
    lines_rec(s, Seq::empty())
}

/// Splits a document into its lines.
pub fn split_lines<'a>(s: &'a str) -> (lines: Vec<&'a str>)
    ensures
        lines.deep_view() == spec_lines(s@),
{
    let len = s.unicode_len();
    let mut lines: Vec<&'a str> = Vec::new();
    let mut start: usize = 0;
    let mut i: usize = 0;
    proof {
        assert(lines.deep_view() =~= Seq::<Seq<char>>::empty());
        assert(Seq::<Seq<char>>::empty() + lines_rec(s@, Seq::empty()) =~= lines_rec(
            s@,
            Seq::empty(),
        ));
        assert(s@.skip(0) =~= s@);
        assert(s@.subrange(0, 0) =~= Seq::<char>::empty());
    }
    while i < len
        invariant
            0 <= start <= i <= len,
            len == s@.len(),
            spec_lines(s@) == lines.deep_view() + lines_rec(
                s@.skip(i as int),
                s@.subrange(start as int, i as int),
            ),
        decreases len - i,
    {
        let ghost prev = lines.deep_view();
        let ghost cur = s@.subrange(start as int, i as int);
        if s.get_char(i) == '\n' {
            let end = if i > start && s.get_char(i - 1) == '\r' {
                i - 1
            } else {
                i
            };
            lines.push(s.substring_char(start, end));
            proof {
                let ghost rest = lines_rec(s@.skip(i + 1), Seq::<char>::empty());
                assert(strip_cr(cur) =~= s@.subrange(start as int, end as int));
                assert(lines.deep_view() =~= prev.push(strip_cr(cur)));
                assert(s@.skip(i as int)[0] == s@[i as int]);
                assert(s@.skip(i as int).skip(1) =~= s@.skip(i + 1));
                assert(lines_rec(s@.skip(i as int), cur) == seq![strip_cr(cur)] + rest);
                assert(prev + (seq![strip_cr(cur)] + rest) =~= (prev.push(strip_cr(cur))) + rest);
                assert(s@.subrange(i + 1, i + 1) =~= Seq::<char>::empty());
                assert(spec_lines(s@) == lines.deep_view() + lines_rec(
                    s@.skip(i + 1),
                    s@.subrange(i + 1, i + 1),
                ));
            }
            start = i + 1;
        } else {
            proof {
                assert(s@.skip(i as int)[0] == s@[i as int]);
                assert(s@.skip(i as int).skip(1) =~= s@.skip(i + 1));
                assert(cur.push(s@[i as int]) =~= s@.subrange(start as int, i + 1));
                assert(lines_rec(s@.skip(i as int), cur) == lines_rec(
                    s@.skip(i + 1),
                    s@.subrange(start as int, i + 1),
                ));
            }
        }
        i = i + 1;
    }
    if start < len {
        lines.push(s.substring_char(start, len));
        proof {
            let ghost cur = s@.subrange(start as int, len as int);
            assert(s@.skip(len as int).len() == 0);
            assert(lines.deep_view() =~= spec_lines(s@));
        }
    } else {
        proof {
            assert(s@.skip(len as int).len() == 0);
            assert(s@.subrange(start as int, len as int).len() == 0);
            assert(lines.deep_view() + lines_rec(
                s@.skip(len as int),
                s@.subrange(start as int, len as int),
            ) =~= lines.deep_view());
        }
    }
    lines
}

} // verus!
