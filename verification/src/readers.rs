//! The four metric readers.
//!
//! Each reader takes the textual contents of its backing source, or `None`
//! where the source could not be read, and yields the metric value. Every
//! reader is total: a missing, empty or malformed source yields the
//! field's documented default, never an error.

use vstd::prelude::*;

use crate::num::{all_digits, digits_val, digit_check, parse_u64, parse_u64_str};
use crate::scan::{
    first_token, first_token_str, line_end, skip_line, skip_spaces, skip_token, starts_with,
    starts_with_str, tok_end, trimmed, trimmed_str, ws_end,
};

verus! {

/// Position of the first `'.'` at or after `from` (or `t.len()`): the end
/// of the integer part of a decimal numeral.
pub open spec fn dot_end(t: Seq<char>, from: int) -> int
    recommends
        0 <= from <= t.len(),
    decreases t.len() - from,
{
    if from < t.len() && t[from] != '.' {
        dot_end(t, from + 1)
    } else {
        from
    }
}

/// The uptime encoded by one token: the token must be a non-empty digit
/// string, optionally followed by `'.'` and more digits; its value is the
/// integer part, the fraction being discarded (truncation, not rounding).
/// Any other shape, and an integer part beyond `u64::MAX`, yields `0`.
pub open spec fn uptime_token_val(t: Seq<char>) -> u64 {
    let p = dot_end(t, 0);
    let ip = t.subrange(0, p);
    let fp = if p < t.len() {
        t.subrange(p + 1, t.len() as int)
    } else {
        Seq::<char>::empty()
    };
    if ip.len() > 0 && all_digits(ip) && all_digits(fp) && digits_val(ip) <= u64::MAX {
        digits_val(ip) as u64
    } else {
        0
    }
}

/// What `read_uptime` returns for a given source.
pub open spec fn spec_read_uptime(src: Option<Seq<char>>) -> u64 {
    match src {
        None => 0,
        Some(s) => uptime_token_val(first_token(s)),
    }
}

/// The number parsed from the second whitespace-delimited token of a
/// line, or `0` if there is no such token or it is not a decimal numeral
/// that fits in a `u64`.
pub open spec fn line_value(l: Seq<char>) -> u64 {
    let a = ws_end(l, 0);
    let b = tok_end(l, a);
    let c = ws_end(l, b);
    let d = tok_end(l, c);
    match parse_u64(l.subrange(c, d)) {
        Some(v) => v,
        None => 0,
    }
}

/// A line as the line iterator of `str` yields it: without a trailing
/// carriage return.
pub open spec fn strip_cr(l: Seq<char>) -> Seq<char> {
    if l.len() > 0 && l.last() == '\r' {
        l.drop_last()
    } else {
        l
    }
}

/// The value of the first line at or after `from` whose text starts with
/// `key`, or `0` if no line matches.
pub open spec fn meminfo_lookup(s: Seq<char>, key: Seq<char>, from: int) -> u64
    recommends
        0 <= from <= s.len(),
    decreases s.len() - from,
    via meminfo_lookup_dec
{
    if from >= s.len() {
        0
    } else {
        let e = line_end(s, from);
        let l = strip_cr(s.subrange(from, e));
        if starts_with(l, key) {
            line_value(l)
        } else if e >= s.len() {
            0
        } else {
            meminfo_lookup(s, key, e + 1)
        }
    }
}

#[via_fn]
proof fn meminfo_lookup_dec(s: Seq<char>, key: Seq<char>, from: int) {
    if from < s.len() {
        crate::scan::lemma_line_end_bounds(s, from);
    }
}

/// What `read_meminfo` returns for a given source and key.
pub open spec fn spec_read_meminfo(src: Option<Seq<char>>, key: Seq<char>) -> u64 {
    match src {
        None => 0,
        Some(s) => meminfo_lookup(s, key, 0),
    }
}

/// What `read_loadavg` returns for a given source.
pub open spec fn spec_read_loadavg(src: Option<Seq<char>>) -> Seq<char> {
    match src {
        None => "0.00"@,
        Some(s) => if first_token(s).len() == 0 {
            "0.00"@
        } else {
            first_token(s)
        },
    }
}

/// What `resolve_hostname` returns for a given source.
pub open spec fn spec_resolve_hostname(src: Option<Seq<char>>) -> Seq<char> {
    match src {
        None => "unknown"@,
        Some(s) => if trimmed(s).len() == 0 {
            "unknown"@
        } else {
            trimmed(s)
        },
    }
}

/// Seconds since boot: the first token of the source, truncated to its
/// integer part. A missing or malformed source yields `0`.
pub fn read_uptime(source: Option<&str>) -> (r: u64)
    ensures
        r == spec_read_uptime(source.deep_view()),
{
    match source {
        None => 0,
        Some(s) => {
            let t = first_token_str(s);
            uptime_from_token(t)
        },
    }
}

/// Computes `dot_end(t@, from)`.
fn skip_to_dot(t: &str, from: usize) -> (r: usize)
    requires
        from <= t@.len(),
    ensures
        r == dot_end(t@, from as int),
        from <= r <= t@.len(),
        r < t@.len() ==> t@[r as int] == '.',
{
    let n: usize = t.unicode_len();
    let mut i: usize = from;
    while i < n
        invariant
            from <= i <= n,
            n == t@.len(),
            dot_end(t@, from as int) == dot_end(t@, i as int),
        decreases n - i,
    {
        if t.get_char(i) == '.' {
            return i;
        }
        i = i + 1;
    }
    i
}

/// The value of one uptime token; see `uptime_token_val`.
fn uptime_from_token(t: &str) -> (r: u64)
    ensures
        r == uptime_token_val(t@),
{
    let n: usize = t.unicode_len();
    let p: usize = skip_to_dot(t, 0);
    if p == 0 {
        // empty integer part: "", ".5" and the like
        return 0;
    }
    let ghost fp = if (p as int) < t@.len() {
        t@.subrange(p + 1, t@.len() as int)
    } else {
        Seq::<char>::empty()
    };
    // every character after the dot must be a digit
    if p < n {
        let mut i: usize = p + 1;
        while i < n
            invariant
                p + 1 <= i <= n,
                n == t@.len(),
                p == dot_end(t@, 0) < n,
                fp == t@.subrange(p + 1, n as int),
                all_digits(t@.subrange(p + 1, i as int)),
            decreases n - i,
        {
            if !digit_check(t.get_char(i)) {
                proof {
                    assert(fp[i - (p + 1)] == t@[i as int]);
                }
                return 0;
            }
            proof {
                assert(t@.subrange(p + 1, i + 1 as int) =~= t@.subrange(p + 1, i as int).push(
                    t@[i as int],
                ));
            }
            i = i + 1;
        }
        proof {
            assert(fp =~= t@.subrange(p + 1, i as int));
        }
    }
    let ip = t.substring_char(0, p);
    match parse_u64_str(ip) {
        Some(v) => v,
        None => 0,
    }
}

/// The memory figure for `key`: scans the source line by line, takes the
/// first line starting with `key`, and parses that line's second token as
/// kibibytes. A missing source, no matching line, or an unparsable token
/// yields `0`.
pub fn read_meminfo(source: Option<&str>, key: &str) -> (r: u64)
    ensures
        r == spec_read_meminfo(source.deep_view(), key@),
{
    match source {
        None => 0,
        Some(s) => {
            let n: usize = s.unicode_len();
            let mut p: usize = 0;
            while p < n
                invariant
                    0 <= p <= n,
                    n == s@.len(),
                    source.deep_view() == Some(s@),
                    meminfo_lookup(s@, key@, 0) == meminfo_lookup(s@, key@, p as int),
                decreases n - p,
            {
                let e: usize = skip_line(s, p);
                let raw = s.substring_char(p, e);
                let line = strip_cr_str(raw);
                if starts_with_str(line, key) {
                    return line_value_str(line);
                }
                if e == n {
                    return 0;
                }
                p = e + 1;
            }
            0
        },
    }
}

/// A line slice without its trailing carriage return, if any.
fn strip_cr_str<'a>(l: &'a str) -> (r: &'a str)
    ensures
        r@ == strip_cr(l@),
{
    let m: usize = l.unicode_len();
    if m > 0 && l.get_char(m - 1) == '\r' {
        let r = l.substring_char(0, m - 1);
        proof {
            assert(r@ =~= strip_cr(l@));
        }
        r
    } else {
        l
    }
}

/// Computes `line_value(l@)`: the second token of the line as a number.
fn line_value_str(l: &str) -> (r: u64)
    ensures
        r == line_value(l@),
{
    let a: usize = skip_spaces(l, 0);
    let b: usize = skip_token(l, a);
    let c: usize = skip_spaces(l, b);
    let d: usize = skip_token(l, c);
    let t = l.substring_char(c, d);
    match parse_u64_str(t) {
        Some(v) => v,
        None => 0,
    }
}

/// The 1-minute load average: the first token of the source, kept
/// verbatim as text. A missing or blank source yields `"0.00"`.
pub fn read_loadavg(source: Option<&str>) -> (r: String)
    ensures
        r@ == spec_read_loadavg(source.deep_view()),
{
    match source {
        None => String::from_str("0.00"),
        Some(s) => {
            let t = first_token_str(s);
            if t.unicode_len() == 0 {
                String::from_str("0.00")
            } else {
                String::from_str(t)
            }
        },
    }
}

/// The machine's name: the source trimmed of surrounding whitespace. A
/// source that is missing or blank resolves to `"unknown"`.
pub fn resolve_hostname(source: Option<&str>) -> (r: String)
    ensures
        r@ == spec_resolve_hostname(source.deep_view()),
{
    match source {
        None => String::from_str("unknown"),
        Some(s) => {
            let t = trimmed_str(s);
            if t.unicode_len() == 0 {
                String::from_str("unknown")
            } else {
                String::from_str(t)
            }
        },
    }
}

} // verus!
