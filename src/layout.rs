//! Layout of the message pane: wrapping logical lines to the pane's width,
//! the cache of rendered lines used to map mouse positions back to text, the
//! scroll position, and which columns of a line a selection highlights.

use vstd::prelude::*;
use crate::room::string_views;
use crate::selection::{SelectionPosition};
use crate::text::push_char;

verus! {

/// How a rendered line is styled.
#[derive(Debug, Clone, Copy, PartialEq, Eq, Structural)]
pub enum LineKind {
    System,
    Own,
    Other,
}

/// One line of the message pane after wrapping.
#[derive(Debug, Clone, PartialEq, Eq)]
pub struct RenderedLine {
    pub text: String,
    pub kind: LineKind,
}

/// The message pane's rectangle on screen, borders included.
#[derive(Debug, Clone, Copy, PartialEq, Eq, Structural)]
pub struct ContentArea {
    pub x: u16,
    pub y: u16,
    pub width: u16,
    pub height: u16,
}

impl Default for ContentArea {
    fn default() -> (a: Self)
        ensures
            a == (ContentArea { x: 0, y: 0, width: 0, height: 0 }),
    {
        ContentArea { x: 0, y: 0, width: 0, height: 0 }
    }
}

/// What was last drawn in the message pane.
#[derive(Debug, PartialEq, Eq)]
pub struct RenderCache {
    pub lines: Vec<RenderedLine>,
    /// Index of the first visible line.
    pub view_offset: usize,
    pub area: Option<ContentArea>,
}

impl Default for RenderCache {
    fn default() -> (c: Self)
        ensures
            c.lines@.len() == 0,
            c.view_offset == 0,
            c.area is None,
    {
        RenderCache { lines: Vec::new(), view_offset: 0, area: None }
    }
}

/// Concatenation of `lines`.
pub open spec fn joined<A>(lines: Seq<Seq<A>>) -> Seq<A>
    decreases lines.len(),
{
    if lines.len() == 0 {
        Seq::empty()
    } else {
        joined(lines.drop_last()) + lines.last()
    }
}

/// `lines` is `t` cut into lines of exactly `width` characters, but for the
/// last, which holds the remaining 1 to `width` characters (or nothing, for
/// an empty `t`).
pub open spec fn wraps(lines: Seq<Seq<char>>, t: Seq<char>, width: nat) -> bool {
    &&& lines.len() >= 1
    &&& joined(lines) == t
    &&& forall|i: int| 0 <= i < lines.len() - 1 ==> (#[trigger] lines[i]).len() == width
    &&& lines.last().len() <= width
    &&& t.len() > 0 ==> lines.last().len() >= 1
}

/// `t` cut into pieces of `width` characters, the last holding the rest;
/// a zero width leaves `t` whole.
pub open spec fn chunks(t: Seq<char>, width: nat) -> Seq<Seq<char>>
    decreases t.len(),
{
    if width == 0 || t.len() <= width {
        seq![t]
    } else {
        seq![t.take(width as int)] + chunks(t.skip(width as int), width)
    }
}

pub proof fn lemma_joined_front<A>(lines: Seq<Seq<A>>)
    requires
        lines.len() >= 1,
    ensures
        joined(lines) == lines[0] + joined(lines.drop_first()),
    decreases lines.len(),
{
    if lines.len() == 1 {
        assert(lines.drop_last() =~= Seq::<Seq<A>>::empty());
        assert(lines.drop_first() =~= Seq::<Seq<A>>::empty());
        assert(joined(lines) =~= lines[0]);
    } else {
        lemma_joined_front(lines.drop_last());
        assert(lines.drop_first().drop_last() =~= lines.drop_last().drop_first());
        assert(lines.drop_first().last() == lines.last());
        assert(joined(lines) =~= lines[0] + joined(lines.drop_first()));
    }
}

/// A cutting that meets `wraps` is the one `chunks` gives.
pub proof fn lemma_wraps_is_chunks(lines: Seq<Seq<char>>, t: Seq<char>, width: nat)
    requires
        width > 0,
        wraps(lines, t, width),
    ensures
        lines == chunks(t, width),
    decreases lines.len(),
{
    lemma_joined_front(lines);
    if lines.len() == 1 {
        assert(joined(lines.drop_first()) =~= Seq::<char>::empty()) by {
            assert(lines.drop_first() =~= Seq::<Seq<char>>::empty());
        }
        assert(t =~= lines[0]);
        assert(lines =~= seq![t]);
    } else {
        let rest = lines.drop_first();
        let tail = joined(rest);
        assert(lines[0].len() == width);
        assert(tail.len() >= rest.last().len());
        assert(rest.last() == lines.last());
        assert(t.len() > width);
        assert(t.take(width as int) =~= lines[0]);
        assert(t.skip(width as int) =~= tail);
        assert forall|i: int| 0 <= i < rest.len() - 1 implies (#[trigger] rest[i]).len() == width by {
            assert(rest[i] == lines[i + 1]);
        }
        lemma_wraps_is_chunks(rest, tail, width);
        assert(lines =~= seq![lines[0]] + rest);
    }
}

/// Cuts `text` into lines of `width` characters; a zero width leaves the
/// text whole.
pub fn wrap_line(text: &str, width: usize) -> (lines: Vec<String>)
    ensures
        string_views(lines@) == chunks(text@, width as nat),
        width > 0 ==> wraps(string_views(lines@), text@, width as nat),
{
    if width == 0 {
        let mut lines: Vec<String> = Vec::new();
        lines.push(text.to_owned());
        assert(string_views(lines@) =~= seq![text@]);
        assert(chunks(text@, 0) == seq![text@]);
        return lines;
    }
    if text.is_empty() {
        let mut lines: Vec<String> = Vec::new();
        lines.push(String::new());
        assert(string_views(lines@) =~= seq![Seq::<char>::empty()]);
        let ghost v = string_views(lines@);
        assert(v.drop_last() =~= Seq::<Seq<char>>::empty());
        assert(joined(Seq::<Seq<char>>::empty()) == Seq::<char>::empty());
        assert(v.last() == Seq::<char>::empty());
        assert(joined(v) =~= text@);
        proof {
            lemma_wraps_is_chunks(v, text@, width as nat);
        }
        return lines;
    }
    let mut lines: Vec<String> = Vec::new();
    let mut current = String::new();
    let mut count: usize = 0;
    for ch in it: text.chars()
        invariant
            it.seq() == text@,
            width > 0,
            count == current@.len(),
            count <= width,
            it.index() > 0 ==> count >= 1,
            joined(string_views(lines@)) + current@ == text@.take(it.index() as int),
            forall|i: int| 0 <= i < lines@.len() ==> (#[trigger] lines@[i])@.len() == width,
    {
        let ghost prefix = text@.take(it.index() as int);
        if count >= width {
            let ghost before = string_views(lines@);
            let ghost cur = current@;
            lines.push(current);
            assert(string_views(lines@).drop_last() =~= before);
            assert(string_views(lines@).last() == cur);
            current = String::new();
            count = 0;
            assert(joined(string_views(lines@)) + current@ =~= prefix);
        }
        push_char(&mut current, ch);
        count = count + 1;
        assert(text@.take(it.index() + 1) =~= prefix.push(ch));
        assert(joined(string_views(lines@)) + current@ =~= text@.take(it.index() + 1));
    }
    let ghost before = string_views(lines@);
    let ghost cur = current@;
    lines.push(current);
    assert(string_views(lines@).drop_last() =~= before);
    assert(text@.take(text@.len() as int) =~= text@);
    proof {
        lemma_wraps_is_chunks(string_views(lines@), text@, width as nat);
    }
    lines
}

/// Index of the first visible line: the view sits `scroll_offset` lines up
/// from the bottom, and content that fits is not scrolled.
pub fn scroll_value(total_lines: usize, visible_height: usize, scroll_offset: usize) -> (v: usize)
    ensures
        v == if total_lines > visible_height && total_lines - visible_height > scroll_offset {
            total_lines - visible_height - scroll_offset
        } else {
            0
        },
{
    if total_lines > visible_height {
        total_lines.saturating_sub(visible_height).saturating_sub(scroll_offset)
    } else {
        0
    }
}

/// Columns [start, end) of line `index` (of `line_len` characters) that a
/// selection spanning `selection` highlights; none when the line is outside
/// it or nothing is selected.
pub fn highlight_columns(
    index: usize,
    line_len: usize,
    selection: Option<(SelectionPosition, SelectionPosition)>,
) -> (r: Option<(usize, usize)>)
    ensures
        match selection {
            None => r is None,
            Some((start, end)) => if index < start.line || index > end.line {
                r is None
            } else {
                r == Some((
                    if index == start.line { if start.column < line_len { start.column } else { line_len } } else { 0 },
                    if index == end.line { if end.column < line_len { end.column } else { line_len } } else { line_len },
                ))
            },
        },
{
    match selection {
        None => None,
        Some((start, end)) => {
            if index < start.line || index > end.line {
                return None;
            }
            let start_col = if index == start.line {
                if start.column < line_len { start.column } else { line_len }
            } else {
                0
            };
            let end_col = if index == end.line {
                if end.column < line_len { end.column } else { line_len }
            } else {
                line_len
            };
            Some((start_col, end_col))
        },
    }
}

} // verus!
