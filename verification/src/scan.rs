//! Character-level scanning over string views.
//!
//! The metric sources are plain text: tokens separated by whitespace and
//! lines separated by newlines. The spec functions here describe scanning
//! positions (`ws_end`, `tok_end`, `line_end`) and whole-string trimming;
//! the exec functions compute them.

use vstd::prelude::*;

verus! {

/// The whitespace characters recognised between tokens and around the
/// hostname: the ASCII whitespace set.
pub open spec fn is_ws_char(c: char) -> bool {
    c == ' ' || c == '\t' || c == '\n' || c == '\r' || c == '\u{b}' || c == '\u{c}'
}

/// Position of the first non-whitespace character at or after `from`
/// (or `s.len()` if all the rest is whitespace).
pub open spec fn ws_end(s: Seq<char>, from: int) -> int
    recommends
        0 <= from <= s.len(),
    decreases s.len() - from,
{
    if from < s.len() && is_ws_char(s[from]) {
        ws_end(s, from + 1)
    } else {
        from
    }
}

/// Position of the first whitespace character at or after `from`
/// (or `s.len()`): the end of the token starting at `from`.
pub open spec fn tok_end(s: Seq<char>, from: int) -> int
    recommends
        0 <= from <= s.len(),
    decreases s.len() - from,
{
    if from < s.len() && !is_ws_char(s[from]) {
        tok_end(s, from + 1)
    } else {
        from
    }
}

/// Position of the first `'\n'` at or after `from` (or `s.len()`): the
/// end of the line starting at `from`.
pub open spec fn line_end(s: Seq<char>, from: int) -> int
    recommends
        0 <= from <= s.len(),
    decreases s.len() - from,
{
    if from < s.len() && s[from] != '\n' {
        line_end(s, from + 1)
    } else {
        from
    }
}

/// Position after the last non-whitespace character strictly before
/// `upto` (or `0` if there is none).
pub open spec fn trim_end_idx(s: Seq<char>, upto: int) -> int
    recommends
        0 <= upto <= s.len(),
    decreases upto,
{
    if upto > 0 && is_ws_char(s[upto - 1]) {
        trim_end_idx(s, upto - 1)
    } else {
        upto
    }
}

/// `s` with leading and trailing whitespace removed.
pub open spec fn trimmed(s: Seq<char>) -> Seq<char> {
    if ws_end(s, 0) == s.len() {
        Seq::empty()
    } else {
        s.subrange(ws_end(s, 0), trim_end_idx(s, s.len() as int))
    }
}

/// The first whitespace-delimited token of `s`, or the empty sequence if
/// `s` is whitespace only.
pub open spec fn first_token(s: Seq<char>) -> Seq<char> {
    s.subrange(ws_end(s, 0), tok_end(s, ws_end(s, 0)))
}

/// Whether `pre` is a prefix of `s`.
pub open spec fn starts_with(s: Seq<char>, pre: Seq<char>) -> bool {
    s.len() >= pre.len() && s.subrange(0, pre.len() as int) == pre
}

/// Scanning for a newline never moves backwards nor past the end.
pub proof fn lemma_line_end_bounds(s: Seq<char>, from: int)
    requires
        from <= s.len(),
    ensures
        from <= line_end(s, from) <= s.len(),
    decreases s.len() - from,
{
    if from < s.len() && s[from] != '\n' {
        lemma_line_end_bounds(s, from + 1);
    }
}

/// Whether `c` is in the whitespace set.
pub fn ws_char(c: char) -> (b: bool)
    ensures
        b == is_ws_char(c),
{
    c == ' ' || c == '\t' || c == '\n' || c == '\r' || c == '\u{b}' || c == '\u{c}'
}

/// Computes `ws_end(s@, from)`.
pub fn skip_spaces(s: &str, from: usize) -> (r: usize)
    requires
        from <= s@.len(),
    ensures
        r == ws_end(s@, from as int),
        from <= r <= s@.len(),
        r < s@.len() ==> !is_ws_char(s@[r as int]),
{
    let n: usize = s.unicode_len();
    let mut i: usize = from;
    while i < n
        invariant
            from <= i <= n,
            n == s@.len(),
            ws_end(s@, from as int) == ws_end(s@, i as int),
        decreases n - i,
    {
        if !ws_char(s.get_char(i)) {
            return i;
        }
        i = i + 1;
    }
    i
}

/// Computes `tok_end(s@, from)`.
pub fn skip_token(s: &str, from: usize) -> (r: usize)
    requires
        from <= s@.len(),
    ensures
        r == tok_end(s@, from as int),
        from <= r <= s@.len(),
        r < s@.len() ==> is_ws_char(s@[r as int]),
{
    let n: usize = s.unicode_len();
    let mut i: usize = from;
    while i < n
        invariant
            from <= i <= n,
            n == s@.len(),
            tok_end(s@, from as int) == tok_end(s@, i as int),
        decreases n - i,
    {
        if ws_char(s.get_char(i)) {
            return i;
        }
        i = i + 1;
    }
    i
}

/// Computes `line_end(s@, from)`.
pub fn skip_line(s: &str, from: usize) -> (r: usize)
    requires
        from <= s@.len(),
    ensures
        r == line_end(s@, from as int),
        from <= r <= s@.len(),
        r < s@.len() ==> s@[r as int] == '\n',
{
    let n: usize = s.unicode_len();
    let mut i: usize = from;
    while i < n
        invariant
            from <= i <= n,
            n == s@.len(),
            line_end(s@, from as int) == line_end(s@, i as int),
        decreases n - i,
    {
        if s.get_char(i) == '\n' {
            return i;
        }
        i = i + 1;
    }
    i
}

/// The first whitespace-delimited token of `s` as a sub-slice.
pub fn first_token_str<'a>(s: &'a str) -> (t: &'a str)
    ensures
        t@ == first_token(s@),
{
    let a: usize = skip_spaces(s, 0);
    let b: usize = skip_token(s, a);
    s.substring_char(a, b)
}

/// Whether `pre` is a prefix of `s`.
pub fn starts_with_str(s: &str, pre: &str) -> (b: bool)
    ensures
        b == starts_with(s@, pre@),
{
    let m: usize = pre.unicode_len();
    let n: usize = s.unicode_len();
    if n < m {
        return false;
    }
    let mut i: usize = 0;
    while i < m
        invariant
            0 <= i <= m,
            m == pre@.len(),
            n == s@.len(),
            m <= n,
            forall|k: int| 0 <= k < i ==> s@[k] == pre@[k],
        decreases m - i,
    {
        if s.get_char(i) != pre.get_char(i) {
            proof {
                assert(s@.subrange(0, m as int)[i as int] != pre@[i as int]);
            }
            return false;
        }
        i = i + 1;
    }
    proof {
        assert(s@.subrange(0, m as int) =~= pre@);
    }
    true
}

/// `s` with leading and trailing whitespace removed.
pub fn trimmed_str<'a>(s: &'a str) -> (t: &'a str)
    ensures
        t@ == trimmed(s@),
{
    let n: usize = s.unicode_len();
    let a: usize = skip_spaces(s, 0);
    if a == n {
        let t = s.substring_char(n, n);
        proof {
            assert(t@ =~= trimmed(s@));
        }
        t
    } else {
        let mut b: usize = n;
        while b > a + 1
            invariant
                a < b <= n,
                n == s@.len(),
                a == ws_end(s@, 0) < n,
                !is_ws_char(s@[a as int]),
                trim_end_idx(s@, n as int) == trim_end_idx(s@, b as int),
            decreases b,
        {
            if ws_char(s.get_char(b - 1)) {
                b = b - 1;
            } else {
                return s.substring_char(a, b);
            }
        }
        s.substring_char(a, b)
    }
}

} // verus!
