//! Mouse selection over the rendered message lines, and the character
//! ranges it picks out of a line.

use vstd::prelude::*;
use crate::text::push_char;

verus! {

/// A character position in the rendered lines.
#[derive(Debug, Clone, Copy, PartialEq, Eq, Structural)]
pub struct SelectionPosition {
    pub line: usize,
    pub column: usize,
}

/// `a` comes no later than `b` in reading order.
pub open spec fn precedes_or_equals(a: SelectionPosition, b: SelectionPosition) -> bool {
    a.line < b.line || (a.line == b.line && a.column <= b.column)
}

/// The ordered span between anchor and head; none while either end is
/// missing or both ends coincide.
pub open spec fn span_of(anchor: Option<SelectionPosition>, head: Option<SelectionPosition>) -> Option<(SelectionPosition, SelectionPosition)> {
    match (anchor, head) {
        (Some(a), Some(h)) => if a == h {
            None
        } else if precedes_or_equals(a, h) {
            Some((a, h))
        } else {
            Some((h, a))
        },
        _ => None,
    }
}

/// A selection: where the drag started (anchor) and where it is now (head).
#[derive(Debug, Clone)]
pub struct SelectionState {
    anchor: Option<SelectionPosition>,
    head: Option<SelectionPosition>,
}

impl Default for SelectionState {
    fn default() -> (s: Self)
        ensures
            s.anchor_spec() is None,
            s.head_spec() is None,
    {
        SelectionState { anchor: None, head: None }
    }
}

impl SelectionState {
    pub closed spec fn anchor_spec(&self) -> Option<SelectionPosition> {
        self.anchor
    }

    pub closed spec fn head_spec(&self) -> Option<SelectionPosition> {
        self.head
    }

    /// Starts a selection at `position`.
    pub fn start(&mut self, position: SelectionPosition)
        ensures
            final(self).anchor_spec() == Some(position),
            final(self).head_spec() == Some(position),
    {
        self.anchor = Some(position);
        self.head = Some(position);
    }

    /// Moves the head to `position`; anchors there too if nothing was
    /// anchored yet.
    pub fn update(&mut self, position: SelectionPosition)
        ensures
            final(self).anchor_spec() == if old(self).anchor_spec() is None {
                Some(position)
            } else {
                old(self).anchor_spec()
            },
            final(self).head_spec() == Some(position),
    {
        if self.anchor.is_none() {
            self.anchor = Some(position);
        }
        self.head = Some(position);
    }

    pub fn clear(&mut self)
        ensures
            final(self).anchor_spec() is None,
            final(self).head_spec() is None,
    {
        self.anchor = None;
        self.head = None;
    }

    /// The selected span as (start, end) in reading order.
    pub fn range(&self) -> (r: Option<(SelectionPosition, SelectionPosition)>)
        ensures
            r == span_of(self.anchor_spec(), self.head_spec()),
    {
        let anchor = match self.anchor {
            Some(a) => a,
            None => return None,
        };
        let head = match self.head {
            Some(h) => h,
            None => return None,
        };
        if anchor == head {
            return None;
        }
        if anchor.line < head.line || (anchor.line == head.line && anchor.column <= head.column) {
            Some((anchor, head))
        } else {
            Some((head, anchor))
        }
    }
}

pub open spec fn min_int(a: int, b: int) -> int {
    if a <= b {
        a
    } else {
        b
    }
}

pub open spec fn max_int(a: int, b: int) -> int {
    if a >= b {
        a
    } else {
        b
    }
}

/// The characters of `t` at columns `start_col <= i < end_col`.
pub open spec fn char_range(t: Seq<char>, start_col: int, end_col: int) -> Seq<char> {
    let e = min_int(end_col, t.len() as int);
    t.subrange(min_int(start_col, e), e)
}

/// Columns where the highlighted part of a line of length `len` starts and
/// ends: (a, b) with pre = [0, a), selected = [a, b), post = [b, len).
pub open spec fn split_points(len: int, start_col: int, end_col: int) -> (int, int) {
    let a = min_int(start_col, len);
    (a, max_int(a, min_int(end_col, len)))
}

/// The characters of `text` at columns `start_col <= i < end_col`.
pub fn extract_range(text: &str, start_col: usize, end_col: usize) -> (r: String)
    ensures
        r@ == char_range(text@, start_col as int, end_col as int),
{
    let n = text.unicode_len();
    let mut result = String::new();
    let mut col: usize = 0;
    for ch in it: text.chars()
        invariant
            it.seq() == text@,
            n == text@.len(),
            col == it.index(),
            result@ == char_range(text@.take(col as int), start_col as int, end_col as int),
    {
        assert(text@.take(col + 1) =~= text@.take(col as int).push(ch));
        if col < end_col && col >= start_col {
            push_char(&mut result, ch);
        }
        assert(result@ =~= char_range(text@.take(col + 1), start_col as int, end_col as int));
        col = col + 1;
    }
    assert(text@.take(col as int) =~= text@);
    result
}

/// Splits `text` into the part before `start_col`, the part in
/// `[start_col, end_col)`, and the rest.
pub fn split_for_selection(text: &str, start_col: usize, end_col: usize) -> (r: (String, String, String))
    ensures
        ({
            let (a, b) = split_points(text@.len() as int, start_col as int, end_col as int);
            &&& r.0@ == text@.subrange(0, a)
            &&& r.1@ == text@.subrange(a, b)
            &&& r.2@ == text@.subrange(b, text@.len() as int)
        }),
{
    let n = text.unicode_len();
    let mut pre = String::new();
    let mut selected = String::new();
    let mut post = String::new();
    let mut idx: usize = 0;
    for ch in it: text.chars()
        invariant
            it.seq() == text@,
            n == text@.len(),
            idx == it.index(),
            ({
                let (a, b) = split_points(idx as int, start_col as int, end_col as int);
                &&& pre@ == text@.subrange(0, a)
                &&& selected@ == text@.subrange(a, b)
                &&& post@ == text@.subrange(b, idx as int)
            }),
    {
        if idx < start_col {
            push_char(&mut pre, ch);
        } else if idx < end_col {
            push_char(&mut selected, ch);
        } else {
            push_char(&mut post, ch);
        }
        idx = idx + 1;
        let ghost (a, b) = split_points(idx as int, start_col as int, end_col as int);
        assert(pre@ =~= text@.subrange(0, a));
        assert(selected@ =~= text@.subrange(a, b));
        assert(post@ =~= text@.subrange(b, idx as int));
    }
    (pre, selected, post)
}

} // verus!
