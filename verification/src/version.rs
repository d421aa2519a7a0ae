//! Parsers that pull a version token out of a debugger's free-text
//! banner line. A missing or unparsable line is not an error: it means
//! the capability is unknown and dependent tests should be skipped.

use vstd::prelude::*;
use vstd::string::StrSliceExecFns;

verus! {

pub open spec fn is_digit(c: char) -> bool {
    '0' <= c && c <= '9'
}

fn digit(c: char) -> (r: bool)
    ensures
        r == is_digit(c),
{
    '0' <= c && c <= '9'
}

/// First position at or past `i` holding a non-digit (or the end of `s`).
pub open spec fn digit_run_end(s: Seq<char>, i: int) -> int
    decreases s.len() - i,
{
    if i < s.len() && is_digit(s[i]) {
        digit_run_end(s, i + 1)
    } else {
        i
    }
}

pub proof fn lemma_digit_run_end_bounds(s: Seq<char>, i: int)
    requires
        0 <= i <= s.len(),
    ensures
        i <= digit_run_end(s, i) <= s.len(),
    decreases s.len() - i,
{
    if i < s.len() && is_digit(s[i]) {
        lemma_digit_run_end_bounds(s, i + 1);
    }
}

/// A gdb version number starts at `p`: a digit, a dot, a digit, with at
/// least two characters after `p`, and no digit immediately before `p`
/// (so the match never begins inside a longer integer).
pub open spec fn gdb_candidate_at(s: Seq<char>, p: int) -> bool {
    &&& 0 <= p
    &&& p + 2 < s.len()
    &&& is_digit(s[p])
    &&& s[p + 1] == '.'
    &&& is_digit(s[p + 2])
    &&& (p == 0 || !is_digit(s[p - 1]))
}

/// The version extracted by scanning from position `i`: at the first
/// candidate, the mandatory `digit '.' digit` extended greedily over the
/// digits that follow.
pub open spec fn gdb_scan(s: Seq<char>, i: int) -> Option<Seq<char>>
    decreases s.len() - i,
{
    if i >= s.len() {
        Option::None
    } else if gdb_candidate_at(s, i) {
        Option::Some(s.subrange(i, digit_run_end(s, i + 3)))
    } else {
        gdb_scan(s, i + 1)
    }
}

/// What the gdb banner line yields: the first version-shaped token, or
/// nothing when no such token occurs.
pub open spec fn spec_gdb_version(line: Seq<char>) -> Option<Seq<char>> {
    gdb_scan(line, 0)
}

/// Extract a gdb version (`"GNU gdb 7.11"` yields `"7.11"`) from a
/// banner line; an absent line or one without a version yields nothing.
pub fn extract_gdb_version(full_version_line: Option<String>) -> (r: Option<String>)
    ensures
        match full_version_line {
            Option::Some(line) => match (r, spec_gdb_version(line@)) {
                (Option::Some(got), Option::Some(want)) => got@ == want,
                (Option::None, Option::None) => true,
                _ => false,
            },
            Option::None => r is None,
        },
{
    let line = match &full_version_line {
        Option::Some(l) => l.as_str(),
        Option::None => {
            return Option::None;
        },
    };
    let len = line.unicode_len();
    let mut pos: usize = 0;
    while pos < len
        invariant
            pos <= len,
            len == line@.len(),
            full_version_line is Some && line@ == full_version_line.unwrap()@,
            gdb_scan(line@, 0) == gdb_scan(line@, pos as int),
        decreases len - pos,
    {
        let c = line.get_char(pos);
        let candidate = digit(c) && len - pos > 2 && line.get_char(pos + 1) == '.' && digit(
            line.get_char(pos + 2),
        ) && (pos == 0 || !digit(line.get_char(pos - 1)));
        proof {
            assert(candidate == gdb_candidate_at(line@, pos as int));
        }
        if candidate {
            let mut end: usize = pos + 3;
            while end < len && digit(line.get_char(end))
                invariant
                    pos + 3 <= end <= len,
                    len == line@.len(),
                    digit_run_end(line@, pos + 3) == digit_run_end(line@, end as int),
                decreases len - end,
            {
                end = end + 1;
            }
            proof {
                assert(digit_run_end(line@, end as int) == end as int);
                assert(gdb_scan(line@, pos as int) == Option::Some(
                    line@.subrange(pos as int, end as int),
                ));
            }
            return Option::Some(line.substring_char(pos, end).to_owned());
        }
        proof {
            assert(gdb_scan(line@, pos as int) == gdb_scan(line@, pos + 1));
        }
        pos = pos + 1;
    }
    Option::None
}

pub open spec fn is_l(c: char) -> bool {
    c == 'l' || c == 'L'
}

pub open spec fn is_d(c: char) -> bool {
    c == 'd' || c == 'D'
}

pub open spec fn is_b(c: char) -> bool {
    c == 'b' || c == 'B'
}

/// The token `lldb-`, in any letter case, starts at `p` and at least one
/// digit follows the dash (so the major-version run is non-empty).
pub open spec fn lldb_candidate_at(s: Seq<char>, p: int) -> bool {
    &&& 0 <= p
    &&& p + 5 < s.len()
    &&& is_l(s[p])
    &&& is_l(s[p + 1])
    &&& is_d(s[p + 2])
    &&& is_b(s[p + 3])
    &&& s[p + 4] == '-'
    &&& is_digit(s[p + 5])
}

/// The major version extracted by scanning from position `i`: at the
/// first `lldb-` token followed by a digit, the maximal digit run after
/// the dash.
pub open spec fn lldb_scan(s: Seq<char>, i: int) -> Option<Seq<char>>
    decreases s.len() - i,
{
    if i >= s.len() {
        Option::None
    } else if lldb_candidate_at(s, i) {
        Option::Some(s.subrange(i + 5, digit_run_end(s, i + 5)))
    } else {
        lldb_scan(s, i + 1)
    }
}

/// What the lldb banner line yields: the major version after the first
/// usable `lldb-` token, or nothing.
pub open spec fn spec_lldb_version(line: Seq<char>) -> Option<Seq<char>> {
    lldb_scan(line, 0)
}

/// Extract the major LLDB version from a banner line: `"lldb-179.5"`
/// yields `"179"` and `"LLDB-300.2.51"` yields `"300"`. An absent line
/// or one without a usable token yields nothing.
pub fn extract_lldb_version(full_version_line: Option<String>) -> (r: Option<String>)
    ensures
        match full_version_line {
            Option::Some(line) => match (r, spec_lldb_version(line@)) {
                (Option::Some(got), Option::Some(want)) => got@ == want,
                (Option::None, Option::None) => true,
                _ => false,
            },
            Option::None => r is None,
        },
{
    let line = match &full_version_line {
        Option::Some(l) => l.as_str(),
        Option::None => {
            return Option::None;
        },
    };
    let len = line.unicode_len();
    let mut pos: usize = 0;
    while pos < len
        invariant
            pos <= len,
            len == line@.len(),
            full_version_line is Some && line@ == full_version_line.unwrap()@,
            lldb_scan(line@, 0) == lldb_scan(line@, pos as int),
        decreases len - pos,
    {
        let candidate = len - pos > 5 && {
            let c0 = line.get_char(pos);
            let c1 = line.get_char(pos + 1);
            let c2 = line.get_char(pos + 2);
            let c3 = line.get_char(pos + 3);
            (c0 == 'l' || c0 == 'L') && (c1 == 'l' || c1 == 'L') && (c2 == 'd' || c2 == 'D') && (c3
                == 'b' || c3 == 'B') && line.get_char(pos + 4) == '-' && digit(
                line.get_char(pos + 5),
            )
        };
        proof {
            assert(candidate == lldb_candidate_at(line@, pos as int));
        }
        if candidate {
            let mut end: usize = pos + 5;
            while end < len && digit(line.get_char(end))
                invariant
                    pos + 5 <= end <= len,
                    len == line@.len(),
                    digit_run_end(line@, pos + 5) == digit_run_end(line@, end as int),
                decreases len - end,
            {
                end = end + 1;
            }
            proof {
                assert(digit_run_end(line@, end as int) == end as int);
                assert(lldb_scan(line@, pos as int) == Option::Some(
                    line@.subrange(pos + 5, end as int),
                ));
            }
            return Option::Some(line.substring_char(pos + 5, end).to_owned());
        }
        proof {
            assert(lldb_scan(line@, pos as int) == lldb_scan(line@, pos + 1));
        }
        pos = pos + 1;
    }
    Option::None
}

/// One exact LLDB build is known bad: its whole version string is the
/// single value this predicate recognises, and the harness disables the
/// debugger tests for that build alone.
pub fn is_blacklisted_lldb_version(version: &str) -> (r: bool)
    ensures
        r == (version@ == "350"@),
{
    crate::paths::str_eq(version, "350")
}

} // verus!
