//! One open document and the token lookups against it.
//!
//! Text is stored in a rope. The rope itself is trusted — its contents and
//! its line splitting carry names the contracts share — while everything
//! read out of it (token expansion around a cursor, slicing a range back
//! out) is verified character logic over the line that was fetched.

use vstd::prelude::*;

use crate::protocol::{Position, Range};
use crate::text::{is_whitespace, is_ws, substr};

verus! {

#[verifier::external_type_specification]
#[verifier::external_body]
pub struct ExRope(ropey::Rope);

/// What a rope holds: its text.
pub uninterp spec fn rope_text(r: ropey::Rope) -> Seq<char>;

/// How ropey divides a text into lines: each line keeps its terminator,
/// and a text has one line more than it has line breaks.
pub uninterp spec fn line_seq(s: Seq<char>) -> Seq<Seq<char>>;

/// Relies on ropey::Rope::from_str: the rope holds exactly the given text.
#[verifier::external_body]
pub(crate) fn rope_from_str(s: &str) -> (r: ropey::Rope)
    ensures
        rope_text(r) == s@,
{
    ropey::Rope::from_str(s)
}

/// Relies on ropey::Rope::len_lines: one more line than line breaks, so
/// never zero.
#[verifier::external_body]
pub(crate) fn rope_len_lines(r: &ropey::Rope) -> (n: usize)
    ensures
        n == line_seq(rope_text(*r)).len(),
        n >= 1,
{
    r.len_lines()
}

/// Relies on ropey::Rope::line: the line at the given index, terminator
/// included.
#[verifier::external_body]
pub(crate) fn rope_line(r: &ropey::Rope, i: usize) -> (line: String)
    requires
        i < line_seq(rope_text(*r)).len(),
    ensures
        line@ == line_seq(rope_text(*r))[i as int],
{
    r.line(i).to_string()
}

/// All lines of the document, in order.
pub fn doc_lines(doc: &ropey::Rope) -> (r: Vec<String>)
    ensures
        r.deep_view() == line_seq(rope_text(*doc)),
{
    let ghost ls = line_seq(rope_text(*doc));
    let n = rope_len_lines(doc);
    let mut out: Vec<String> = Vec::new();
    let mut i: usize = 0;
    while i < n
        invariant
            n == ls.len(),
            ls == line_seq(rope_text(*doc)),
            0 <= i <= n,
            out.deep_view() =~= ls.take(i as int),
        decreases n - i,
    {
        let ghost dv0 = out.deep_view();
        let line = rope_line(doc, i);
        out.push(line);
        proof {
            assert(out.deep_view() =~= dv0.push(ls[i as int]));
            assert(ls.take(i + 1) =~= ls.take(i as int).push(ls[i as int]));
        }
        i += 1;
    }
    proof {
        assert(ls.take(n as int) =~= ls);
    }
    out
}

/// Where leftward expansion from `s` stops: the first position whose left
/// neighbour is whitespace, or the line start.
pub open spec fn scan_left(line: Seq<char>, s: int) -> int
    decreases s,
{
    if 0 < s <= line.len() && !is_ws(line[s - 1]) {
        scan_left(line, s - 1)
    } else {
        s
    }
}

/// Where rightward expansion from `e` stops: the last position before the
/// line's final character whose right neighbour is non-whitespace.
pub open spec fn scan_right(line: Seq<char>, e: int) -> int
    decreases line.len() - e,
{
    if 0 <= e && e < line.len() - 1 && !is_ws(line[e + 1]) {
        scan_right(line, e + 1)
    } else {
        e
    }
}

/// The whitespace-delimited token around character `i` of a line: both
/// bounds come from expansion; no movement at all means no token, and any
/// rightward movement widens the end by one more so the range turns
/// end-exclusive.
pub open spec fn spec_token_range(line: Seq<char>, i: int) -> Option<(int, int)> {
    let s = scan_left(line, i);
    let e = scan_right(line, i);
    if s == e {
        None
    } else if e > i {
        Some((s, e + 1))
    } else {
        Some((s, e))
    }
}

/// Law: the token range is a function of the line and the position alone,
/// so repeating the lookup on identical input yields the identical answer.
pub proof fn lemma_token_range_repeatable(
    line: Seq<char>,
    i: int,
    r1: Option<(int, int)>,
    r2: Option<(int, int)>,
)
    requires
        r1 == spec_token_range(line, i),
        r2 == spec_token_range(line, i),
    ensures
        r1 == r2,
{
}

/// The token bounds around character `character` of `line`, if the cursor
/// sits in one. A cursor directly between two whitespace characters finds
/// no token; expansion never reads past the last character of the line.
pub fn token_bounds(line: &str, character: usize) -> (r: Option<(usize, usize)>)
    requires
        line@.len() >= 1,
        character <= line@.len(),
    ensures
        match r {
            Some(b) => spec_token_range(line@, character as int) == Some((b.0 as int, b.1 as int)),
            None => spec_token_range(line@, character as int) is None,
        },
        1 <= character && character + 1 < line@.len() && is_ws(line@[character - 1]) && is_ws(
            line@[character + 1],
        ) ==> r is None,
{
    let n = line.unicode_len();
    let extent = n - 1;
    let mut start = character;
    while start > 0 && !is_whitespace(line.get_char(start - 1))
        invariant
            n == line@.len(),
            1 <= n,
            0 <= start <= character <= n,
            scan_left(line@, character as int) == scan_left(line@, start as int),
        decreases start,
    {
        start -= 1;
    }
    let mut end = character;
    while end < extent && !is_whitespace(line.get_char(end + 1))
        invariant
            n == line@.len(),
            1 <= n,
            extent == n - 1,
            character <= end <= n,
            end < n || end == character,
            scan_right(line@, character as int) == scan_right(line@, end as int),
        decreases n - end,
    {
        end += 1;
    }
    if start == end {
        None
    } else if end > character {
        Some((start, end + 1))
    } else {
        Some((start, end))
    }
}

/// The literal text of `line` between `start` and `end`, or empty when the
/// bounds fall outside the line.
pub open spec fn spec_token_text(line: Seq<char>, start: int, end: int) -> Seq<char> {
    if 0 <= start <= end <= line.len() {
        line.subrange(start, end)
    } else {
        Seq::empty()
    }
}

/// Slices a token back out of a line; out-of-bounds ranges yield the empty
/// string rather than failing.
pub fn token_text(line: &str, start: usize, end: usize) -> (r: String)
    ensures
        r@ == spec_token_text(line@, start as int, end as int),
{
    let n = line.unicode_len();
    if start <= end && end <= n {
        substr(line, start, end)
    } else {
        String::new()
    }
}

/// The token range around a position, looked up in the document itself.
/// A position outside the document's lines, past a line's end, or on an
/// empty line finds no token.
pub fn position_to_range(p: &Position, doc: &ropey::Rope) -> (r: Option<Range>)
    ensures
        ({
            let lines = line_seq(rope_text(*doc));
            if p.line < lines.len() && 1 <= lines[p.line as int].len() && p.character
                <= lines[p.line as int].len() {
                match spec_token_range(lines[p.line as int], p.character as int) {
                    Some((a, b)) => r == Some(
                        Range {
                            start: Position { line: p.line, character: a as usize },
                            end: Position { line: p.line, character: b as usize },
                        },
                    ),
                    None => r is None,
                }
            } else {
                r is None
            }
        }),
{
    let nl = rope_len_lines(doc);
    if p.line >= nl {
        return None;
    }
    let line = rope_line(doc, p.line);
    let len = line.as_str().unicode_len();
    if len == 0 || p.character > len {
        return None;
    }
    match token_bounds(line.as_str(), p.character) {
        Some(b) => Some(
            Range {
                start: Position { line: p.line, character: b.0 },
                end: Position { line: p.line, character: b.1 },
            },
        ),
        None => None,
    }
}

/// The text under a range, read back from the document; anything out of
/// bounds yields the empty string.
pub fn range_to_token(r: &Range, doc: &ropey::Rope) -> (t: String)
    ensures
        ({
            let lines = line_seq(rope_text(*doc));
            if r.start.line < lines.len() {
                t@ == spec_token_text(
                    lines[r.start.line as int],
                    r.start.character as int,
                    r.end.character as int,
                )
            } else {
                t@ == Seq::<char>::empty()
            }
        }),
{
    let nl = rope_len_lines(doc);
    if r.start.line >= nl {
        return String::new();
    }
    let line = rope_line(doc, r.start.line);
    token_text(line.as_str(), r.start.character, r.end.character)
}

} // verus!
