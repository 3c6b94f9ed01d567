//! A whole document: the lines in order, each through the line tagger.

use crate::tag::{closed_state, TagKind, TagState};
use crate::tagger::{
    fragment, lemma_blank_line_emits_nothing, lemma_fragment_ignores_closed_state, next_state,
    process_line,
};
use vstd::prelude::*;

verus! {

/// The state in which line `i` of `lines` is processed, when the first
/// line is processed in `start`.
pub open spec fn state_before(lines: Seq<Seq<char>>, start: TagState, i: int) -> TagState
    decreases i,
{
    if i <= 0 {
        start
    } else {
        next_state(lines[i - 1], state_before(lines, start, i - 1))
    }
}

/// The fragment of line `i` of `lines`; empty where the line emits none.
pub open spec fn fragment_at(lines: Seq<Seq<char>>, start: TagState, i: int) -> Seq<char> {
    fragment(lines[i], state_before(lines, start, i))
}

/// The fragments that the first `n` lines of `lines` emit, in the order of
/// the lines. A line whose fragment is empty contributes none.
pub open spec fn emitted(lines: Seq<Seq<char>>, start: TagState, n: int) -> Seq<Seq<char>>
    decreases n,
{
    if n <= 0 {
        Seq::empty()
    } else {
        let before = emitted(lines, start, n - 1);
        let last = fragment_at(lines, start, n - 1);
        if last.len() == 0 {
            before
        } else {
            before.push(last)
        }
    }
}

/// `lines` with the lines at `i` and `j` exchanged.
pub open spec fn swapped(lines: Seq<Seq<char>>, i: int, j: int) -> Seq<Seq<char>> {
    lines.update(i, lines[j]).update(j, lines[i])
}

/// Every line but the first is processed with nothing open, whatever the
/// lines before it were.
pub proof fn lemma_state_before_closed(lines: Seq<Seq<char>>, start: TagState, i: int)
    requires
        i >= 1,
    ensures
        state_before(lines, start, i) == closed_state(),
{
}

/// In a document that starts with nothing open, the fragment of a line
/// depends on that line alone.
pub proof fn lemma_fragment_at_is_local(lines: Seq<Seq<char>>, i: int)
    requires
        0 <= i < lines.len(),
    ensures
        fragment_at(lines, closed_state(), i) == fragment(lines[i], closed_state()),
{
    if i >= 1 {
        lemma_state_before_closed(lines, closed_state(), i);
    }
}

/// Lines that are all empty emit no fragment, however many they are,
/// unless the first of them has an open heading to close.
pub proof fn lemma_blank_lines_emit_nothing(lines: Seq<Seq<char>>, start: TagState, n: int)
    requires
        0 <= n <= lines.len(),
        forall|i: int| 0 <= i < n ==> (#[trigger] lines[i]).len() == 0,
        !(start.is_open && start.current_tag matches Some(TagKind::Heading(_))),
    ensures
        emitted(lines, start, n) == Seq::<Seq<char>>::empty(),
    decreases n,
{
    if n > 0 {
        lemma_blank_lines_emit_nothing(lines, start, n - 1);
        let state = state_before(lines, start, n - 1);
        if n - 1 >= 1 {
            lemma_state_before_closed(lines, start, n - 1);
        }
        assert(lines[n - 1] =~= Seq::<char>::empty());
        lemma_blank_line_emits_nothing(state);
    }
}

/// Exchanging two lines of a document exchanges their fragments and
/// leaves the fragment of every other line as it was, provided that the
/// first line of the document has nothing to close.
pub proof fn lemma_swap_lines_swaps_fragments(
    lines: Seq<Seq<char>>,
    start: TagState,
    i: int,
    j: int,
    k: int,
)
    requires
        0 <= i < lines.len(),
        0 <= j < lines.len(),
        0 <= k < lines.len(),
        !start.is_open,
    ensures
        fragment_at(swapped(lines, i, j), start, i) == fragment_at(lines, start, j),
        fragment_at(swapped(lines, i, j), start, j) == fragment_at(lines, start, i),
        k != i && k != j ==> fragment_at(swapped(lines, i, j), start, k) == fragment_at(
            lines,
            start,
            k,
        ),
{
    let other = swapped(lines, i, j);
    lemma_fragment_ignores_closed_state(lines[j], state_before(other, start, i));
    lemma_fragment_ignores_closed_state(lines[j], state_before(lines, start, j));
    lemma_fragment_ignores_closed_state(lines[i], state_before(other, start, j));
    lemma_fragment_ignores_closed_state(lines[i], state_before(lines, start, i));
    lemma_fragment_ignores_closed_state(lines[k], state_before(other, start, k));
    lemma_fragment_ignores_closed_state(lines[k], state_before(lines, start, k));
}

/// Converts a document, given as its lines in order and without their
/// line ends, into the HTML fragments it emits. The document starts with
/// nothing open.
pub fn parse_markdown_lines(lines: &Vec<String>) -> (tokens: Vec<String>)
    ensures
        tokens.deep_view() == emitted(lines.deep_view(), closed_state(), lines.len() as int),
{
    let mut tokens: Vec<String> = Vec::new();
    let mut state = TagState::new();
    let ghost all = lines.deep_view();
    let mut i: usize = 0;
    assert(tokens.deep_view() =~= emitted(all, closed_state(), 0));
    while i < lines.len()
        invariant
            i <= lines.len(),
            all == lines.deep_view(),
            state == state_before(all, closed_state(), i as int),
            tokens.deep_view() == emitted(all, closed_state(), i as int),
        decreases lines.len() - i,
    {
        let ghost before = tokens.deep_view();
        assert(all[i as int] == lines[i as int]@);
        let (outline, next) = process_line(lines[i].as_str(), state);
        if !outline.as_str().is_empty() {
            let ghost shown = outline@;
            tokens.push(outline);
            assert(tokens.deep_view() =~= before.push(shown));
        }
        state = next;
        i = i + 1;
    }
    tokens
}

} // verus!
