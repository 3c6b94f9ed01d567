//! The line tagger: one line in, one HTML fragment out.

use crate::heading::{
    content_start, heading_marker, is_heading_line, leading_hashes, lemma_leading_hashes_is,
};
use crate::tag::{
    add_tag, closed_state, closing_tag, decimal, heading_name, opening_tag, paragraph_name,
    tag_name, TagKind, TagState,
};
use vstd::prelude::*;
use vstd::string::{StrSliceExecFns, StringExecFns};

verus! {

/// The name of the element that wraps `line`.
pub open spec fn line_tag(line: Seq<char>) -> Seq<char> {
    if is_heading_line(line) {
        heading_name(leading_hashes(line))
    } else {
        paragraph_name()
    }
}

/// The text that `line` puts inside its element: a heading line without
/// its marker, a body line as it stands.
pub open spec fn line_content(line: Seq<char>) -> Seq<char> {
    if is_heading_line(line) {
        line.skip(content_start(line) as int)
    } else {
        line
    }
}

/// The closing tag that precedes the element of `line`. An open heading is
/// closed before any line, an open paragraph only before a heading line.
pub open spec fn closing_prefix(line: Seq<char>, state: TagState) -> Seq<char> {
    match state.current_tag {
        Some(prev) => if state.is_open && (prev is Heading || is_heading_line(line)) {
            closing_tag(tag_name(prev))
        } else {
            Seq::empty()
        },
        None => Seq::empty(),
    }
}

/// The markup of `line` before suppression: the closing prefix, the
/// opening tag, the content, and the closing tag.
pub open spec fn rendered(line: Seq<char>, state: TagState) -> Seq<char> {
    closing_prefix(line, state) + opening_tag(line_tag(line)) + line_content(line) + closing_tag(
        line_tag(line),
    )
}

/// A paragraph with nothing in it.
pub open spec fn empty_paragraph() -> Seq<char> {
    opening_tag(paragraph_name()) + closing_tag(paragraph_name())
}

/// The fragment that `line` emits in `state`: its markup, or nothing where
/// the markup is exactly an empty paragraph.
pub open spec fn fragment(line: Seq<char>, state: TagState) -> Seq<char> {
    if rendered(line, state) == empty_paragraph() {
        Seq::empty()
    } else {
        rendered(line, state)
    }
}

/// The state after a line: the element of the line has been closed again,
/// so nothing is open.
pub open spec fn next_state(line: Seq<char>, state: TagState) -> TagState {
    closed_state()
}

/// A line of `level` times `#`, one space, and `content`.
pub open spec fn heading_line(level: nat, content: Seq<char>) -> Seq<char> {
    Seq::new(level, |i: int| '#') + seq![' '] + content
}

/// A fragment is suppressed exactly for an empty line that needs no
/// closing tag in front of it; every other line emits its markup.
pub proof fn lemma_fragment_suppressed(line: Seq<char>, state: TagState)
    ensures
        fragment(line, state).len() == 0 <==> line.len() == 0 && closing_prefix(line, state).len()
            == 0,
        fragment(line, state).len() > 0 ==> fragment(line, state) == rendered(line, state),
{
    let prefix = closing_prefix(line, state);
    let markup = rendered(line, state);
    let blank = empty_paragraph();
    assert(blank.len() == 8);
    assert(blank[1] == 'p');
    assert(markup.len() >= 1);
    if prefix.len() > 0 {
        assert(markup[1] == prefix[1]);
        assert(prefix[1] == '/');
        assert(markup != blank);
    } else if is_heading_line(line) {
        assert(markup[1] == 'h');
        assert(markup != blank);
    } else if line.len() > 0 {
        assert(markup.len() == 8 + line.len());
        assert(markup != blank);
    } else {
        assert(markup =~= blank);
    }
}

/// A body line that is not empty becomes a paragraph of its own, whatever
/// the state: the fragment is the closing prefix, then `<p>`, the line
/// unchanged, and `</p>` with a newline. The prefix is empty unless a
/// heading is open.
pub proof fn lemma_body_line_fragment(line: Seq<char>, state: TagState)
    requires
        line.len() > 0,
        !is_heading_line(line),
    ensures
        fragment(line, state) == closing_prefix(line, state) + seq!['<', 'p', '>'] + line + seq![
            '<',
            '/',
            'p',
            '>',
            '\n',
        ],
        closing_prefix(line, state).len() > 0 <==> state.is_open && state.current_tag matches Some(
            TagKind::Heading(_),
        ),
{
    lemma_fragment_suppressed(line, state);
    assert(opening_tag(paragraph_name()) =~= seq!['<', 'p', '>']);
    assert(closing_tag(paragraph_name()) =~= seq!['<', '/', 'p', '>', '\n']);
}

/// A line made of `level` times `#`, a space and `content` becomes a
/// heading of that level around `content`: the fragment is the closing
/// prefix, then `<h`, the level in decimal, `>`, the content, `</h`, the
/// level again, and `>` with a newline. The prefix closes whatever is open.
pub proof fn lemma_heading_line_fragment(level: nat, content: Seq<char>, state: TagState)
    requires
        level >= 1,
    ensures
        is_heading_line(heading_line(level, content)),
        leading_hashes(heading_line(level, content)) == level,
        line_tag(heading_line(level, content)) == seq!['h'] + decimal(level),
        line_content(heading_line(level, content)) == content,
        fragment(heading_line(level, content), state) == closing_prefix(
            heading_line(level, content),
            state,
        ) + opening_tag(seq!['h'] + decimal(level)) + content + closing_tag(
            seq!['h'] + decimal(level),
        ),
        closing_prefix(heading_line(level, content), state) == (match state.current_tag {
            Some(prev) if state.is_open => closing_tag(tag_name(prev)),
            _ => Seq::<char>::empty(),
        }),
{
    let line = heading_line(level, content);
    assert(line[level as int] == ' ');
    lemma_leading_hashes_is(line, level);
    assert(line.skip(level + 1 as int) =~= content);
    lemma_fragment_suppressed(line, state);
}

/// An empty line emits nothing, unless a heading is open and has to be
/// closed first.
pub proof fn lemma_blank_line_emits_nothing(state: TagState)
    requires
        !(state.is_open && state.current_tag matches Some(TagKind::Heading(_))),
    ensures
        fragment(Seq::empty(), state) == Seq::<char>::empty(),
{
    lemma_fragment_suppressed(Seq::empty(), state);
    assert(fragment(Seq::empty(), state) =~= Seq::<char>::empty());
}

/// Two body lines that are not empty differ, in one state, only in the
/// text inside the paragraph: both fragments have the same prefix, the
/// same tag `p`, and the line itself between the tags.
pub proof fn lemma_body_lines_share_tag(a: Seq<char>, b: Seq<char>, state: TagState)
    requires
        a.len() > 0,
        b.len() > 0,
        !is_heading_line(a),
        !is_heading_line(b),
    ensures
        line_tag(a) == line_tag(b),
        line_tag(a) == seq!['p'],
        closing_prefix(a, state) == closing_prefix(b, state),
        fragment(a, state) == closing_prefix(a, state) + opening_tag(seq!['p']) + a + closing_tag(
            seq!['p'],
        ),
        fragment(b, state) == closing_prefix(a, state) + opening_tag(seq!['p']) + b + closing_tag(
            seq!['p'],
        ),
{
    lemma_fragment_suppressed(a, state);
    lemma_fragment_suppressed(b, state);
}

/// A state in which nothing is open has no part in the fragment: the
/// line emits what it emits at the start of a document.
pub proof fn lemma_fragment_ignores_closed_state(line: Seq<char>, state: TagState)
    requires
        !state.is_open,
    ensures
        closing_prefix(line, state) == Seq::<char>::empty(),
        fragment(line, state) == fragment(line, closed_state()),
{
    assert(rendered(line, state) =~= rendered(line, closed_state()));
}

/// The kind of element that wraps `line`, and the content that goes into it.
pub fn classify_line(line: &str) -> (r: (TagKind, &str))
    ensures
        match r.0 {
            TagKind::Heading(level) => is_heading_line(line@) && level == leading_hashes(line@),
            TagKind::Paragraph => !is_heading_line(line@),
        },
        r.1@ == line_content(line@),
{
    match heading_marker(line) {
        Some((level, start)) => {
            let content = line.substring_char(start, line.unicode_len());
            (TagKind::Heading(level), content)
        },
        None => (TagKind::Paragraph, line),
    }
}

/// Processes one line: closes what `state` holds open where the line asks
/// for it, wraps the line in its element, and closes that element again.
/// An empty paragraph is not emitted: the fragment is then empty.
pub fn process_line(line: &str, state: TagState) -> (r: (String, TagState))
    ensures
        r.0@ == fragment(line@, state),
        r.1 == next_state(line@, state),
        r.1.wf(),
{
    let (kind, content) = classify_line(line);
    let mut outline = String::new();
    if state.is_open {
        match state.current_tag {
            Some(prev) => {
                let closes = match prev {
                    TagKind::Heading(_) => true,
                    TagKind::Paragraph => match kind {
                        TagKind::Heading(_) => true,
                        TagKind::Paragraph => false,
                    },
                };
                if closes {
                    let prev_name = prev.name();
                    outline = add_tag(outline.as_str(), prev_name.as_str(), false);
                }
            },
            None => {},
        }
    }
    assert(outline@ =~= closing_prefix(line@, state));
    let name = kind.name();
    outline = add_tag(outline.as_str(), name.as_str(), true);
    outline.append(content);
    outline = add_tag(outline.as_str(), name.as_str(), false);
    assert(outline@ =~= rendered(line@, state));
    let blank = add_tag(add_tag("", "p", true).as_str(), "p", false);
    proof {
        reveal_strlit("");
        reveal_strlit("p");
        assert(""@ =~= Seq::<char>::empty());
        assert("p"@ =~= paragraph_name());
        assert(blank@ =~= empty_paragraph());
    }
    if outline == blank {
        outline = String::new();
    }
    (outline, TagState::new())
}

} // verus!
