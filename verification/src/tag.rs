//! Tag kinds, the open-tag state, and the markup of a single tag.

use vstd::prelude::*;
use vstd::string::StringExecFns;

verus! {

/// The kind of HTML element that wraps a line.
#[derive(Clone, Copy, Debug, PartialEq, Eq, Structural)]
pub enum TagKind {
    /// A `<p>` element.
    Paragraph,
    /// An `<h{level}>` element; the level is at least 1.
    Heading(usize),
}

/// What the tagger remembers between two lines.
#[derive(Clone, Copy, Debug, PartialEq, Eq)]
pub struct TagState {
    /// Whether an element is open and not yet closed.
    pub is_open: bool,
    /// The kind of the open element; `None` when nothing is open.
    pub current_tag: Option<TagKind>,
}

/// The decimal digit that stands for `d`, for `d` below ten.
pub open spec fn digit_char(d: nat) -> char
    recommends
        d < 10,
{
    seq!['0', '1', '2', '3', '4', '5', '6', '7', '8', '9'][d as int]
}

/// The decimal numeral of `n`, most significant digit first, without
/// leading zeros.
pub open spec fn decimal(n: nat) -> Seq<char>
    decreases n,
{
    if n < 10 {
        seq![digit_char(n)]
    } else {
        decimal(n / 10).push(digit_char(n % 10))
    }
}

/// The name of a heading element of the given level: `h` and the level in
/// decimal.
pub open spec fn heading_name(level: nat) -> Seq<char> {
    seq!['h'] + decimal(level)
}

/// The name of a paragraph element.
pub open spec fn paragraph_name() -> Seq<char> {
    seq!['p']
}

/// The element name of a tag kind.
pub open spec fn tag_name(kind: TagKind) -> Seq<char> {
    match kind {
        TagKind::Paragraph => paragraph_name(),
        TagKind::Heading(level) => heading_name(level as nat),
    }
}

/// The markup that opens an element: `<name>`.
pub open spec fn opening_tag(name: Seq<char>) -> Seq<char> {
    seq!['<'] + name + seq!['>']
}

/// The markup that closes an element, with the line break that follows it:
/// `</name>` and a newline.
pub open spec fn closing_tag(name: Seq<char>) -> Seq<char> {
    seq!['<', '/'] + name + seq!['>', '\n']
}

/// The open state in which nothing is open.
pub open spec fn closed_state() -> TagState {
    TagState { is_open: false, current_tag: None }
}

impl TagKind {
    /// A heading has a positive level.
    pub open spec fn wf(&self) -> bool {
        match *self {
            TagKind::Paragraph => true,
            TagKind::Heading(level) => level >= 1,
        }
    }

    /// The element name: `p`, or `h` followed by the level.
    pub fn name(&self) -> (r: String)
        ensures
            r@ == tag_name(*self),
    {
        match *self {
            TagKind::Paragraph => {
                proof {
                    reveal_strlit("p");
                }
                assert("p"@ =~= paragraph_name());
                String::from_str("p")
            },
            TagKind::Heading(level) => {
                proof {
                    reveal_strlit("h");
                }
                assert("h"@ =~= seq!['h']);
                let digits = decimal_string(level);
                String::from_str("h").concat(digits.as_str())
            },
        }
    }
}

impl TagState {
    /// An element is open exactly when its kind is recorded, and the
    /// recorded kind is well formed.
    pub open spec fn wf(&self) -> bool {
        &&& self.is_open == self.current_tag.is_some()
        &&& match self.current_tag {
            Some(kind) => kind.wf(),
            None => true,
        }
    }

    /// The state at the start of a document: nothing is open.
    pub fn new() -> (s: Self)
        ensures
            s == closed_state(),
            s.wf(),
    {
        TagState { is_open: false, current_tag: None }
    }
}

/// The one-character string of a decimal digit.
fn digit_str(d: usize) -> (r: &'static str)
    requires
        d < 10,
    ensures
        r@ == seq![digit_char(d as nat)],
{
    proof {
        reveal_strlit("0");
        reveal_strlit("1");
        reveal_strlit("2");
        reveal_strlit("3");
        reveal_strlit("4");
        reveal_strlit("5");
        reveal_strlit("6");
        reveal_strlit("7");
        reveal_strlit("8");
        reveal_strlit("9");
    }
    let r = match d {
        0 => "0",
        1 => "1",
        2 => "2",
        3 => "3",
        4 => "4",
        5 => "5",
        6 => "6",
        7 => "7",
        8 => "8",
        _ => "9",
    };
    assert(r@ =~= seq![digit_char(d as nat)]);
    r
}

/// Writes `n` in decimal.
pub fn decimal_string(n: usize) -> (s: String)
    ensures
        s@ == decimal(n as nat),
    decreases n,
{
    if n < 10 {
        String::from_str(digit_str(n))
    } else {
        let mut s = decimal_string(n / 10);
        s.append(digit_str(n % 10));
        assert(s@ =~= decimal(n as nat));
        s
    }
}

/// Appends one tag to a copy of `s`: the opening tag `<tag>` when `open`
/// holds, else the closing tag `</tag>` followed by a newline.
pub fn add_tag(s: &str, tag: &str, open: bool) -> (r: String)
    ensures
        r@ == s@ + (if open {
            opening_tag(tag@)
        } else {
            closing_tag(tag@)
        }),
{
    let mut new_s = String::from_str(s);
    if open {
        proof {
            reveal_strlit("<");
            reveal_strlit(">");
        }
        new_s.append("<");
        new_s.append(tag);
        new_s.append(">");
        assert(new_s@ =~= s@ + opening_tag(tag@));
    } else {
        proof {
            reveal_strlit("</");
            reveal_strlit(">\n");
        }
        new_s.append("</");
        new_s.append(tag);
        new_s.append(">\n");
        assert(new_s@ =~= s@ + closing_tag(tag@));
    }
    new_s
}

} // verus!
