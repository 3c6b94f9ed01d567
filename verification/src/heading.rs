//! Telling heading lines from body lines, and taking a heading line apart.

use regex::Regex;
use vstd::prelude::*;
use vstd::string::StrSliceExecFns;

verus! {

/// The number of `#` characters that `line` starts with.
pub open spec fn leading_hashes(line: Seq<char>) -> nat
    decreases line.len(),
{
    if line.len() > 0 && line[0] == '#' {
        1 + leading_hashes(line.drop_first())
    } else {
        0
    }
}

/// A heading line is one whose first character is `#`.
pub open spec fn is_heading_line(line: Seq<char>) -> bool {
    line.len() > 0 && line[0] == '#'
}

/// The regular expression of a heading marker: at the start of the line,
/// one or more `#`, then one space.
pub open spec fn marker_pattern() -> Seq<char> {
    seq!['^', '#', '+', ' ']
}

/// Where the heading marker of `line` ends, the separating space included,
/// if `line` starts with a run of `#` that a space follows.
pub open spec fn marker_end(line: Seq<char>) -> Option<nat> {
    let n = leading_hashes(line);
    if n >= 1 && n < line.len() && line[n as int] == ' ' {
        Some(n + 1)
    } else {
        None
    }
}

/// Where the content of a heading line starts: behind the leading `#`
/// characters, and behind the one space that separates them from the
/// content where there is one.
pub open spec fn content_start(line: Seq<char>) -> nat {
    match marker_end(line) {
        Some(end) => end,
        None => leading_hashes(line),
    }
}

/// A run of `#` never reaches past the end of the line.
pub proof fn lemma_leading_hashes_bound(line: Seq<char>)
    ensures
        leading_hashes(line) <= line.len(),
        is_heading_line(line) <==> leading_hashes(line) >= 1,
    decreases line.len(),
{
    if line.len() > 0 && line[0] == '#' {
        lemma_leading_hashes_bound(line.drop_first());
    }
}

/// A prefix of `#` characters that ends the line, or that another
/// character follows, is the leading run.
pub proof fn lemma_leading_hashes_is(line: Seq<char>, n: nat)
    requires
        n <= line.len(),
        forall|i: int| 0 <= i < n ==> line[i] == '#',
        n < line.len() ==> line[n as int] != '#',
    ensures
        leading_hashes(line) == n,
    decreases n,
{
    if n > 0 {
        let rest = line.drop_first();
        assert forall|i: int| 0 <= i < n - 1 implies rest[i] == '#' by {
            assert(rest[i] == line[i + 1]);
        }
        if n - 1 < rest.len() {
            assert(rest[n - 1] == line[n as int]);
        }
        lemma_leading_hashes_is(rest, (n - 1) as nat);
    }
}

/// Searches `line` for the heading marker with `regex::Regex::find`, and
/// gives the offset at which the match ends.
///
/// Trusted: for the pattern `^#+ ` the search succeeds exactly on a line
/// that starts with one or more `#` followed by a space, and the match
/// runs from the start of the line through that space. The offset counts
/// bytes; the marker is ASCII, so it is the number of characters too.
#[verifier::external_body]
fn find_marker_end(pattern: &str, line: &str) -> (r: Option<usize>)
    requires
        pattern@ == marker_pattern(),
    ensures
        match r {
            Some(end) => marker_end(line@) == Some(end as nat),
            None => marker_end(line@).is_none(),
        },
{
    Regex::new(pattern).unwrap().find(line).map(|m| m.end())
}

/// Counts the `#` characters at the start of `line`.
fn count_leading_hashes(line: &str) -> (n: usize)
    ensures
        n == leading_hashes(line@),
{
    let len = line.unicode_len();
    let mut n: usize = 0;
    while n < len && line.get_char(n) == '#'
        invariant
            n <= len,
            len == line@.len(),
            forall|i: int| 0 <= i < n ==> line@[i] == '#',
        decreases len - n,
    {
        n = n + 1;
    }
    proof {
        lemma_leading_hashes_is(line@, n as nat);
    }
    n
}

/// Takes a line apart: for a heading line, its level and the index of the
/// first character of its content; `None` for a body line.
///
/// The level is the number of leading `#` characters. One space behind
/// them separates the marker from the content and belongs to neither.
pub fn heading_marker(line: &str) -> (r: Option<(usize, usize)>)
    ensures
        r.is_some() == is_heading_line(line@),
        match r {
            Some((level, start)) => {
                &&& level == leading_hashes(line@)
                &&& start == content_start(line@)
                &&& 1 <= level <= start <= line@.len()
            },
            None => true,
        },
{
    if line.is_empty() {
        return None;
    }
    if line.get_char(0) != '#' {
        return None;
    }
    proof {
        reveal_strlit("^#+ ");
        lemma_leading_hashes_bound(line@);
    }
    assert("^#+ "@ =~= marker_pattern());
    match find_marker_end("^#+ ", line) {
        Some(end) => Some((end - 1, end)),
        None => {
            let level = count_leading_hashes(line);
            Some((level, level))
        },
    }
}

} // verus!
