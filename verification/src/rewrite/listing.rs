//! The listing of a rewritten file for debugging output: the text line by
//! line, with the directives of the test harness left out, since a directive
//! that is printed would match itself.

use crate::text::{lit, match_at, matches_at, push_range, push_str};
use vstd::prelude::*;
use vstd::string::*;
use vstd::utf8::*;

verus! {

/// The offset of the first line feed at or after `pos`, or the length of the text.
pub open spec fn next_newline(s: Seq<u8>, pos: int) -> int
    decreases s.len() - pos,
{
    if pos < 0 || pos >= s.len() {
        s.len() as int
    } else if s[pos] == 10u8 {
        pos
    } else {
        next_newline(s, pos + 1)
    }
}

/// The first offset at or after `from` at which `p` occurs in `line`.
pub open spec fn first_match(line: Seq<u8>, p: Seq<u8>, from: int) -> Option<int>
    decreases line.len() + 1 - from,
{
    if from < 0 || from + p.len() > line.len() {
        None
    } else if match_at(line, p, from) {
        Some(from)
    } else {
        first_match(line, p, from + 1)
    }
}

/// A line as it is listed: up to its first directive, with a note in place
/// of the directive and of what follows it; unchanged where it has none.
pub open spec fn shown_line(line: Seq<u8>) -> Seq<u8> {
    match first_match(line, lit("// CHECK"), 0) {
        Some(i) => line.subrange(0, i) + lit("// (FileCheck directive omitted)"),
        None => line,
    }
}

/// Where the line that ends at the line feed `k` (or at the end of the text)
/// ends without its carriage return.
pub open spec fn line_end(s: Seq<u8>, pos: int, k: int) -> int {
    if pos < k < s.len() && s[k - 1] == 13u8 {
        k - 1
    } else {
        k
    }
}

/// The listing of the text from offset `pos` on: each line as it is shown,
/// followed by a line feed. Lines end at a line feed, or at a carriage return
/// and a line feed; the last line need not end in one.
pub open spec fn listing_from(s: Seq<u8>, pos: int) -> Seq<u8>
    decreases s.len() - pos,
{
    if pos < 0 || pos >= s.len() {
        Seq::empty()
    } else {
        let k = next_newline(s, pos);
        let next = if k < s.len() { k + 1 } else { s.len() as int };
        if pos <= line_end(s, pos, k) <= s.len() && pos < next <= s.len() {
            shown_line(s.subrange(pos, line_end(s, pos, k))) + seq![10u8] + listing_from(s, next)
        } else {
            Seq::empty()
        }
    }
}

fn find_newline(s: &[u8], pos: usize) -> (k: usize)
    requires
        pos <= s@.len(),
    ensures
        k == next_newline(s@, pos as int),
        pos <= k <= s@.len(),
{
    let mut k: usize = pos;
    while k < s.len() && s[k] != 10u8
        invariant
            pos <= k <= s@.len(),
            next_newline(s@, pos as int) == next_newline(s@, k as int),
        decreases s@.len() - k,
    {
        k = k + 1;
    }
    k
}

fn find_match(s: &[u8], lo: usize, hi: usize, p: &[u8]) -> (r: Option<usize>)
    requires
        lo <= hi <= s@.len(),
    ensures
        r is None <==> first_match(s@.subrange(lo as int, hi as int), p@, 0) is None,
        r matches Some(i) ==> lo + i <= hi && first_match(s@.subrange(lo as int, hi as int), p@, 0) == Some(
            i as int,
        ),
{
    let ghost line = s@.subrange(lo as int, hi as int);
    let n = hi - lo;
    if p.len() > n {
        return None;
    }
    let last = n - p.len();
    let mut i: usize = 0;
    loop
        invariant
            line == s@.subrange(lo as int, hi as int),
            n == hi - lo,
            lo <= hi <= s@.len(),
            last == n - p@.len(),
            i <= last,
            first_match(line, p@, 0) == first_match(line, p@, i as int),
        decreases last - i,
    {
        let here = matches_at(s, p, lo + i);
        proof {
            if match_at(s@, p@, lo + i) {
                assert(line.subrange(i as int, i + p@.len()) =~= s@.subrange(lo + i, lo + i + p@.len()));
            }
            if match_at(line, p@, i as int) {
                assert(line.subrange(i as int, i + p@.len()) =~= s@.subrange(lo + i, lo + i + p@.len()));
            }
        }
        if here {
            return Some(i);
        }
        if i == last {
            assert(first_match(line, p@, i + 1) is None);
            return None;
        }
        i = i + 1;
    }
}

fn emit_shown_line(out: &mut Vec<u8>, s: &[u8], lo: usize, hi: usize)
    requires
        lo <= hi <= s@.len(),
    ensures
        final(out)@ == old(out)@ + shown_line(s@.subrange(lo as int, hi as int)),
{
    match find_match(s, lo, hi, "// CHECK".as_bytes()) {
        Some(i) => {
            push_range(out, s, lo, lo + i);
            push_str(out, "// (FileCheck directive omitted)");
            assert(s@.subrange(lo as int, lo + i) =~= s@.subrange(lo as int, hi as int).subrange(0, i as int));
            assert(out@ =~= old(out)@ + shown_line(s@.subrange(lo as int, hi as int)));
        },
        None => {
            push_range(out, s, lo, hi);
        },
    }
}

/// Lists a text for debugging output: every line, ended by a line feed, and
/// of a line that holds a directive only what stands before it, with a note
/// that the directive was left out.
pub fn debug_listing(s: &[u8]) -> (out: Vec<u8>)
    ensures
        out@ == listing_from(s@, 0),
{
    let mut out: Vec<u8> = Vec::new();
    let mut pos: usize = 0;
    assert(out@ + listing_from(s@, 0) =~= listing_from(s@, 0));
    while pos < s.len()
        invariant
            pos <= s@.len(),
            out@ + listing_from(s@, pos as int) == listing_from(s@, 0),
        decreases s@.len() - pos,
    {
        let ghost before = out@;
        let k = find_newline(s, pos);
        let end = if pos < k && k < s.len() && s[k - 1] == 13u8 {
            k - 1
        } else {
            k
        };
        let next = if k < s.len() {
            k + 1
        } else {
            s.len()
        };
        emit_shown_line(&mut out, s, pos, end);
        out.push(10u8);
        assert(out@ + listing_from(s@, next as int) =~= before + (shown_line(
            s@.subrange(pos as int, end as int),
        ) + seq![10u8] + listing_from(s@, next as int)));
        pos = next;
    }
    assert(out@ + listing_from(s@, pos as int) =~= out@);
    out
}

} // verus!
