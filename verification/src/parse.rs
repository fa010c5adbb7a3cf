//! Parsing of the helper tool's catalogue listing.
//!
//! The auxiliary listing tool prints one title per line with the numeric
//! title id in parentheses somewhere on the line.  The ids are extracted as
//! the successive non-overlapping occurrences of `(` + digits + `)`,
//! leftmost first, parentheses stripped.

use vstd::prelude::*;
use vstd::string::StrSliceExecFns;

verus! {

/// A decimal digit.
pub open spec fn is_digit(c: char) -> bool {
    '0' <= c <= '9'
}

/// The length of the run of digits in `s` starting at `i`.
pub open spec fn digit_run(s: Seq<char>, i: int) -> nat
    decreases s.len() - i,
{
    if i < 0 || i >= s.len() || !is_digit(s[i]) {
        0
    } else {
        1 + digit_run(s, i + 1)
    }
}

/// The ids found from position `pos` on: at each position, a maximal
/// `(` + digits + `)` group yields its digits and the scan resumes after
/// the group; any other position is stepped over.
pub open spec fn scan_from(s: Seq<char>, pos: int) -> Seq<Seq<char>>
    decreases s.len() - pos,
{
    if pos < 0 || pos >= s.len() {
        seq![]
    } else if s[pos] == '(' {
        let d = digit_run(s, pos + 1);
        if d > 0 && pos + 1 + d < s.len() && s[pos + 1 + d] == ')' {
            seq![s.subrange(pos + 1, pos + 1 + d)] + scan_from(s, pos + 2 + d)
        } else {
            scan_from(s, pos + 1)
        }
    } else {
        scan_from(s, pos + 1)
    }
}

/// All parenthesised ids in `s`, leftmost first.
pub open spec fn spec_ids(s: Seq<char>) -> Seq<Seq<char>> {
    scan_from(s, 0)
}

/// The executable counterpart of [`is_digit`].
pub fn is_digit_char(c: char) -> (r: bool)
    ensures
        r == is_digit(c),
{
    '0' <= c && c <= '9'
}

proof fn lemma_digit_run_exact(s: Seq<char>, i: int, j: int)
    requires
        0 <= i <= j <= s.len(),
        forall|k: int| i <= k < j ==> is_digit(s[k]),
        j == s.len() || !is_digit(s[j]),
    ensures
        digit_run(s, i) == j - i,
    decreases j - i,
{
    if i < j {
        lemma_digit_run_exact(s, i + 1, j);
    }
}

/// Extracts every parenthesised numeric id from one listing line, in
/// order, parentheses stripped.
pub fn extract_ids(line: &str) -> (r: Vec<String>)
    ensures
        r.deep_view() == spec_ids(line@),
{
    let n = line.unicode_len();
    let mut out: Vec<String> = Vec::new();
    let mut pos: usize = 0;
    while pos < n
        invariant
            n == line@.len(),
            pos <= n,
            spec_ids(line@) == out.deep_view() + scan_from(line@, pos as int),
        decreases n - pos,
    {
        if line.get_char(pos) == '(' {
            let mut e: usize = pos + 1;
            while e < n && is_digit_char(line.get_char(e))
                invariant
                    n == line@.len(),
                    pos + 1 <= e <= n,
                    forall|k: int| pos + 1 <= k < e ==> is_digit(line@[k]),
                decreases n - e,
            {
                e += 1;
            }
            proof {
                lemma_digit_run_exact(line@, pos + 1, e as int);
            }
            if e > pos + 1 && e < n && line.get_char(e) == ')' {
                let id = line.substring_char(pos + 1, e);
                out.push(id.to_owned());
                proof {
                    assert(out.deep_view() =~= out.deep_view().subrange(
                        0,
                        out.deep_view().len() - 1,
                    ).push(line@.subrange(pos + 1, e as int)));
                    assert(spec_ids(line@) =~= out.deep_view() + scan_from(line@, e + 1));
                }
                pos = e + 1;
            } else {
                pos += 1;
            }
        } else {
            pos += 1;
        }
    }
    proof {
        assert(spec_ids(line@) =~= out.deep_view());
    }
    out
}

/// Extracts the ids of every line of the listing, in listing order.
pub fn parse_listing_ids(lines: &Vec<String>) -> (r: Vec<String>)
    ensures
        r.deep_view() == spec_listing_ids(lines.deep_view()),
{
    let mut out: Vec<String> = Vec::new();
    let n = lines.len();
    let mut i: usize = 0;
    while i < n
        invariant
            n == lines@.len(),
            i <= n,
            lines.deep_view().len() == lines@.len(),
            out.deep_view() == spec_listing_ids(lines.deep_view().take(i as int)),
        decreases n - i,
    {
        proof {
            assert(lines.deep_view().take(i + 1).drop_last() =~= lines.deep_view().take(i as int));
            assert(lines.deep_view().take(i + 1).last() == lines.deep_view()[i as int]);
            assert(lines.deep_view()[i as int] == lines@[i as int]@);
        }
        let mut ids = extract_ids(lines[i].as_str());
        let m = ids.len();
        let mut j: usize = 0;
        while j < m
            invariant
                m == ids@.len(),
                j <= m,
                ids.deep_view() == spec_ids(lines@[i as int]@),
                out.deep_view() == spec_listing_ids(lines.deep_view().take(i as int)) + spec_ids(
                    lines@[i as int]@,
                ).take(j as int),
                0 <= i < lines@.len(),
                lines.deep_view().len() == lines@.len(),
            decreases m - j,
        {
            proof {
                assert(ids.deep_view()[j as int] == ids@[j as int]@);
                assert(spec_ids(lines@[i as int]@).take(j + 1) =~= spec_ids(
                    lines@[i as int]@,
                ).take(j as int).push(ids.deep_view()[j as int]));
            }
            let ghost dv0 = out.deep_view();
            let id = ids[j].clone();
            out.push(id);
            proof {
                assert(out.deep_view() =~= dv0.push(ids.deep_view()[j as int]));
                assert(out.deep_view() =~= spec_listing_ids(lines.deep_view().take(i as int))
                    + spec_ids(lines@[i as int]@).take(j + 1));
            }
            j += 1;
        }
        proof {
            assert(spec_ids(lines@[i as int]@).take(m as int) =~= spec_ids(lines@[i as int]@));
            assert(out.deep_view() =~= spec_listing_ids(lines.deep_view().take(i + 1)));
        }
        i += 1;
    }
    proof {
        assert(lines.deep_view().take(n as int) =~= lines.deep_view());
    }
    out
}

/// The ids of every line, concatenated in listing order.
pub open spec fn spec_listing_ids(lines: Seq<Seq<char>>) -> Seq<Seq<char>>
    decreases lines.len(),
{
    if lines.len() == 0 {
        seq![]
    } else {
        spec_listing_ids(lines.drop_last()) + spec_ids(lines.last())
    }
}

} // verus!
