//! Finding the placeholders of a template.

use crate::text::{char_is_key, char_is_space, is_key_char, is_space};
use vstd::prelude::*;

verus! {

/// Where a placeholder lies in a template: the template's characters
/// `start..end` are `{{`, optional whitespace, the key `key_start..key_end`,
/// optional whitespace and `}}`.
#[derive(Clone, Copy, Debug, PartialEq, Eq)]
pub struct Placeholder {
    pub start: usize,
    pub key_start: usize,
    pub key_end: usize,
    pub end: usize,
}

/// One piece of a template: text that is copied, or a key that is resolved.
/// Both hold positions in the template they were cut from.
#[derive(Clone, Copy, Debug, PartialEq, Eq)]
pub enum Segment {
    Literal { start: usize, end: usize },
    Key { start: usize, end: usize },
}

/// What a segment says, apart from where it was found.
pub enum Piece {
    Literal(Seq<char>),
    Key(Seq<char>),
}

impl Segment {
    /// Where the segment starts in its template.
    pub open spec fn start(self) -> int {
        match self {
            Segment::Literal { start, .. } => start as int,
            Segment::Key { start, .. } => start as int,
        }
    }

    /// Where the segment ends in its template.
    pub open spec fn end(self) -> int {
        match self {
            Segment::Literal { end, .. } => end as int,
            Segment::Key { end, .. } => end as int,
        }
    }

    /// The piece that this segment cuts out of `source`.
    pub open spec fn piece(self, source: Seq<char>) -> Piece {
        match self {
            Segment::Literal { start, end } => Piece::Literal(
                source.subrange(start as int, end as int),
            ),
            Segment::Key { start, end } => Piece::Key(source.subrange(start as int, end as int)),
        }
    }
}

/// The first position at or after `i` that holds no whitespace.
pub open spec fn spaces_end(s: Seq<char>, i: int) -> int
    decreases s.len() - i,
{
    if 0 <= i < s.len() && is_space(s[i]) {
        spaces_end(s, i + 1)
    } else {
        i
    }
}

/// The first position at or after `i` that holds no key character.
pub open spec fn key_end(s: Seq<char>, i: int) -> int
    decreases s.len() - i,
{
    if 0 <= i < s.len() && is_key_char(s[i]) {
        key_end(s, i + 1)
    } else {
        i
    }
}

/// Whether `brace` stands at `i` and again right behind it.
pub open spec fn braces_at(s: Seq<char>, i: int, brace: char) -> bool {
    0 <= i && i + 1 < s.len() && s[i] == brace && s[i + 1] == brace
}

/// The placeholder that starts exactly at `i`, if there is one: `{{`, then
/// all the whitespace that follows, then a key of at least one character
/// taken as long as possible, then all the whitespace that follows, then `}}`.
pub open spec fn placeholder_at(s: Seq<char>, i: int) -> Option<(int, int, int)> {
    let ks = spaces_end(s, i + 2);
    let ke = key_end(s, ks);
    let close = spaces_end(s, ke);
    if braces_at(s, i, '{') && ks < ke && braces_at(s, close, '}') {
        Some((ks, ke, close + 2))
    } else {
        None
    }
}

/// The leftmost placeholder that starts at or after `from`, with its start.
pub open spec fn next_placeholder(s: Seq<char>, from: int) -> Option<(int, int, int, int)>
    decreases s.len() - from,
{
    if from < 0 || from >= s.len() {
        None
    } else {
        match placeholder_at(s, from) {
            Some((ks, ke, end)) => Some((from, ks, ke, end)),
            None => next_placeholder(s, from + 1),
        }
    }
}

/// The pieces of `s` from position `from` on: the text before the leftmost
/// placeholder, its key, and so on behind that placeholder, ending with the
/// text that follows the last one. With `n` placeholders there are `2n + 1`
/// pieces, the text ones possibly empty. (A placeholder ends behind where it
/// starts, so the test on `end` never fails: it is there to show that the
/// definition comes to an end.)
pub open spec fn pieces(s: Seq<char>, from: int) -> Seq<Piece>
    decreases s.len() - from,
{
    match next_placeholder(s, from) {
        Some((start, ks, ke, end)) => {
            if from < end <= s.len() {
                seq![Piece::Literal(s.subrange(from, start)), Piece::Key(s.subrange(ks, ke))]
                    + pieces(s, end)
            } else {
                seq![Piece::Literal(s.subrange(from, s.len() as int))]
            }
        },
        None => seq![Piece::Literal(s.subrange(from, s.len() as int))],
    }
}

/// Between `i` and `spaces_end(s, i)` there is whitespace and nothing else,
/// and none at `spaces_end(s, i)`.
pub proof fn lemma_spaces_end_bounds(s: Seq<char>, i: int)
    requires
        0 <= i <= s.len(),
    ensures
        i <= spaces_end(s, i) <= s.len(),
        forall|j: int| i <= j < spaces_end(s, i) ==> is_space(s[j]),
        spaces_end(s, i) < s.len() ==> !is_space(s[spaces_end(s, i)]),
    decreases s.len() - i,
{
    if i < s.len() && is_space(s[i]) {
        lemma_spaces_end_bounds(s, i + 1);
    }
}

/// Between `i` and `key_end(s, i)` there are key characters and nothing
/// else, and none at `key_end(s, i)`.
pub proof fn lemma_key_end_bounds(s: Seq<char>, i: int)
    requires
        0 <= i <= s.len(),
    ensures
        i <= key_end(s, i) <= s.len(),
        forall|j: int| i <= j < key_end(s, i) ==> is_key_char(s[j]),
        key_end(s, i) < s.len() ==> !is_key_char(s[key_end(s, i)]),
    decreases s.len() - i,
{
    if i < s.len() && is_key_char(s[i]) {
        lemma_key_end_bounds(s, i + 1);
    }
}

/// A placeholder lies inside the template, and its key inside its braces.
pub proof fn lemma_placeholder_at_bounds(s: Seq<char>, i: int)
    requires
        placeholder_at(s, i) is Some,
    ensures
        ({
            let (ks, ke, end) = placeholder_at(s, i)->0;
            0 <= i && i + 2 <= ks < ke && ke + 2 <= end <= s.len()
        }),
{
    lemma_spaces_end_bounds(s, i + 2);
    let ks = spaces_end(s, i + 2);
    lemma_key_end_bounds(s, ks);
    lemma_spaces_end_bounds(s, key_end(s, ks));
}

/// The placeholder found from `from` on starts at or behind `from`, lies
/// inside the template, and is the first: none starts before it.
pub proof fn lemma_next_placeholder_bounds(s: Seq<char>, from: int)
    requires
        0 <= from,
        next_placeholder(s, from) is Some,
    ensures
        ({
            let (start, ks, ke, end) = next_placeholder(s, from)->0;
            &&& from <= start
            &&& start + 2 <= ks < ke
            &&& ke + 2 <= end <= s.len()
            &&& placeholder_at(s, start) == Some((ks, ke, end))
            &&& forall|j: int| from <= j < start ==> placeholder_at(s, j) is None
        }),
    decreases s.len() - from,
{
    if placeholder_at(s, from) is Some {
        lemma_placeholder_at_bounds(s, from);
    } else {
        lemma_next_placeholder_bounds(s, from + 1);
    }
}

/// Skips the whitespace that starts at `i`.
pub fn skip_spaces(chars: &Vec<char>, i: usize) -> (j: usize)
    requires
        i <= chars.len(),
    ensures
        j == spaces_end(chars@, i as int),
        i <= j <= chars.len(),
{
    let mut j: usize = i;
    while j < chars.len() && char_is_space(chars[j])
        invariant
            i <= j <= chars.len(),
            spaces_end(chars@, j as int) == spaces_end(chars@, i as int),
        decreases chars.len() - j,
    {
        j += 1;
    }
    j
}

/// Skips the key characters that start at `i`.
pub fn skip_key(chars: &Vec<char>, i: usize) -> (j: usize)
    requires
        i <= chars.len(),
    ensures
        j == key_end(chars@, i as int),
        i <= j <= chars.len(),
{
    let mut j: usize = i;
    while j < chars.len() && char_is_key(chars[j])
        invariant
            i <= j <= chars.len(),
            key_end(chars@, j as int) == key_end(chars@, i as int),
        decreases chars.len() - j,
    {
        j += 1;
    }
    j
}

fn has_braces(chars: &Vec<char>, i: usize, brace: char) -> (b: bool)
    ensures
        b == braces_at(chars@, i as int, brace),
        b ==> i + 2 <= chars.len(),
{
    i < chars.len() && chars.len() - i >= 2 && chars[i] == brace && chars[i + 1] == brace
}

/// The placeholder that starts exactly at `i`, if there is one.
pub fn match_placeholder(chars: &Vec<char>, i: usize) -> (r: Option<Placeholder>)
    ensures
        match r {
            Some(p) => {
                &&& placeholder_at(chars@, i as int) == Some(
                    (p.key_start as int, p.key_end as int, p.end as int),
                )
                &&& p.start == i
                &&& i + 2 <= p.key_start < p.key_end
                &&& p.key_end + 2 <= p.end <= chars.len()
            },
            None => placeholder_at(chars@, i as int) is None,
        },
{
    if !has_braces(chars, i, '{') {
        return None;
    }
    let ks = skip_spaces(chars, i + 2);
    let ke = skip_key(chars, ks);
    let close = skip_spaces(chars, ke);
    if ks < ke && has_braces(chars, close, '}') {
        Some(Placeholder { start: i, key_start: ks, key_end: ke, end: close + 2 })
    } else {
        None
    }
}

/// The leftmost placeholder that starts at or after `from`.
pub fn find_placeholder(chars: &Vec<char>, from: usize) -> (r: Option<Placeholder>)
    ensures
        match r {
            Some(p) => {
                &&& next_placeholder(chars@, from as int) == Some(
                    (p.start as int, p.key_start as int, p.key_end as int, p.end as int),
                )
                &&& from <= p.start
                &&& p.start + 2 <= p.key_start < p.key_end
                &&& p.key_end + 2 <= p.end <= chars.len()
            },
            None => next_placeholder(chars@, from as int) is None,
        },
{
    let mut i: usize = from;
    while i < chars.len()
        invariant
            from <= i,
            next_placeholder(chars@, i as int) == next_placeholder(chars@, from as int),
        decreases chars.len() - i,
    {
        match match_placeholder(chars, i) {
            Some(p) => {
                return Some(p);
            },
            None => {
                i += 1;
            },
        }
    }
    None
}

/// The pieces that a list of segments cuts out of `source`.
pub open spec fn segment_pieces(segments: Seq<Segment>, source: Seq<char>) -> Seq<Piece> {
    segments.map_values(|segment: Segment| segment.piece(source))
}

/// Behind a placeholder the pieces go on with those of the rest.
pub proof fn lemma_pieces_unfold(s: Seq<char>, from: int)
    requires
        0 <= from,
    ensures
        match next_placeholder(s, from) {
            Some((start, ks, ke, end)) => pieces(s, from) == seq![
                Piece::Literal(s.subrange(from, start)),
                Piece::Key(s.subrange(ks, ke)),
            ] + pieces(s, end),
            None => pieces(s, from) == seq![Piece::Literal(s.subrange(from, s.len() as int))],
        },
{
    if next_placeholder(s, from) is Some {
        lemma_next_placeholder_bounds(s, from);
    }
}

/// A template without a placeholder is one piece of text: the template.
pub proof fn lemma_pieces_of_plain_text(s: Seq<char>)
    requires
        next_placeholder(s, 0) is None,
    ensures
        pieces(s, 0) == seq![Piece::Literal(s)],
{
    assert(s.subrange(0, s.len() as int) == s);
}

/// Text in which no two `{` stand side by side holds no placeholder.
pub proof fn lemma_no_braces_no_placeholder(s: Seq<char>, from: int)
    requires
        forall|i: int| 0 <= i && i + 1 < s.len() ==> !(s[i] == '{' && #[trigger] s[i + 1] == '{'),
    ensures
        next_placeholder(s, from) is None,
    decreases s.len() - from,
{
    if 0 <= from < s.len() {
        if braces_at(s, from, '{') {
        }
        lemma_no_braces_no_placeholder(s, from + 1);
    }
}

/// Cuts a template into its segments: text and keys in turn, from the first
/// text (before the first placeholder) to the last (behind the last one).
pub fn split_template(chars: &Vec<char>) -> (segments: Vec<Segment>)
    ensures
        segment_pieces(segments@, chars@) == pieces(chars@, 0),
        forall|i: int|
            0 <= i < segments.len() ==> 0 <= (#[trigger] segments[i]).start() <= segments[i].end()
                <= chars.len(),
{
    let mut segments: Vec<Segment> = Vec::new();
    let mut pos: usize = 0;
    loop
        invariant
            pos <= chars.len(),
            segment_pieces(segments@, chars@) + pieces(chars@, pos as int) == pieces(chars@, 0),
            forall|i: int|
                0 <= i < segments.len() ==> 0 <= (#[trigger] segments[i]).start()
                    <= segments[i].end() <= chars.len(),
        decreases chars.len() - pos,
    {
        proof {
            lemma_pieces_unfold(chars@, pos as int);
        }
        match find_placeholder(chars, pos) {
            Some(p) => {
                segments.push(Segment::Literal { start: pos, end: p.start });
                segments.push(Segment::Key { start: p.key_start, end: p.key_end });
                pos = p.end;
            },
            None => {
                segments.push(Segment::Literal { start: pos, end: chars.len() });
                return segments;
            },
        }
    }
}

} // verus!
