//! State of the terminal client: the received messages, scrolling, the mouse
//! selection and the last layout of the message pane. The text-input widget
//! and the drawing itself live with the terminal front end.

use vstd::prelude::*;
use chrono::Timelike;
use crate::layout::{chunks, joined, wrap_line, ContentArea, LineKind, RenderCache, RenderedLine};
use crate::models::{now_micros, ChatMessage};
use crate::selection::{char_range, extract_range, min_int, span_of, SelectionPosition, SelectionState};
use crate::notifications::send_notification;
use crate::protocol::ServerMessage;
use crate::room::string_views;
use crate::text::{byte_len, decimal, digit_char, push_char, push_decimal, utf8_len};

verus! {

/// One entry of the message list.
#[derive(Debug, Clone, PartialEq, Eq)]
pub struct DisplayMessage {
    pub username: String,
    pub content: String,
    /// Microseconds since the Unix epoch.
    pub timestamp: i64,
    pub is_system: bool,
    pub is_own_message: bool,
}

/// Lines scrolled per wheel step or key press.
pub const SCROLL_STEP: usize = 3;

pub struct App {
    pub room_id: String,
    pub user_id: String,
    pub username: String,
    pub messages: Vec<DisplayMessage>,
    pub online_count: usize,
    /// Lines scrolled back from the bottom (0 = at the bottom).
    pub scroll_offset: usize,
    pub connected: bool,
    pub should_quit: bool,
    pub selection: SelectionState,
    pub render_cache: RenderCache,
}

/// Display name of system messages.
pub open spec fn system_name() -> Seq<char> {
    "system"@
}

/// Grid cell (`column`, `row`) as a position in the rendered lines: cells
/// inside the pane's border (its origin saturating at the grid's edge) map to the line shown there, with the column
/// clamped to the line's length.
pub open spec fn position_at(area: ContentArea, view_offset: int, line_lens: Seq<int>, column: int, row: int) -> Option<SelectionPosition> {
    let cx = if area.x < u16::MAX { area.x + 1 } else { area.x as int };
    let cy = if area.y < u16::MAX { area.y + 1 } else { area.y as int };
    let cw = if area.width >= 2 { area.width - 2 } else { 0 };
    let ch = if area.height >= 2 { area.height - 2 } else { 0 };
    if column < cx || row < cy || column - cx >= cw || row - cy >= ch {
        None
    } else {
        let line = view_offset + (row - cy);
        if line >= line_lens.len() {
            None
        } else {
            let col = column - cx;
            Some(SelectionPosition {
                line: line as usize,
                column: (if col < line_lens[line] { col } else { line_lens[line] }) as usize,
            })
        }
    }
}

/// `b` is `a` but for the scroll offset and the quit flag.
pub open spec fn same_but_scroll_and_quit(a: App, b: App) -> bool {
    &&& b.room_id == a.room_id
    &&& b.user_id == a.user_id
    &&& b.username == a.username
    &&& b.messages == a.messages
    &&& b.online_count == a.online_count
    &&& b.connected == a.connected
    &&& b.selection == a.selection
    &&& b.render_cache == a.render_cache
}

/// `b` is `a` but for the scroll offset.
pub open spec fn same_but_scroll(a: App, b: App) -> bool {
    same_but_scroll_and_quit(a, b) && b.should_quit == a.should_quit
}

/// The view is back at the bottom and nothing is selected.
pub open spec fn reset_view(a: App) -> bool {
    &&& a.scroll_offset == 0
    &&& a.selection.anchor_spec() is None
    &&& a.selection.head_spec() is None
}

/// `b` shows the same view as `a`: same scroll offset and selection.
pub open spec fn same_view(a: App, b: App) -> bool {
    b.scroll_offset == a.scroll_offset && b.selection == a.selection
}

/// `parts` joined with newlines.
pub open spec fn join_lines(parts: Seq<Seq<char>>) -> Seq<char>
    decreases parts.len(),
{
    if parts.len() == 0 {
        Seq::empty()
    } else if parts.len() == 1 {
        parts[0]
    } else {
        join_lines(parts.drop_last()) + seq!['\n'] + parts.last()
    }
}

/// Text covered by the span `start`..`end` over `lines`: the span is
/// clamped to the existing lines and to their lengths; the first line is
/// taken from the start column on, the last up to the end column, the lines
/// in between whole, joined with newlines.
pub open spec fn selected_text(lines: Seq<Seq<char>>, start: SelectionPosition, end: SelectionPosition) -> Option<Seq<char>> {
    if lines.len() == 0 {
        None
    } else {
        let el = min_int(end.line as int, lines.len() - 1);
        let sl = min_int(start.line as int, el);
        let sc = min_int(start.column as int, lines[sl].len() as int);
        let ec = min_int(end.column as int, lines[el].len() as int);
        if sl == el {
            Some(char_range(lines[sl], sc, ec))
        } else {
            Some(join_lines(
                seq![char_range(lines[sl], sc, usize::MAX as int)] + lines.subrange(sl + 1, el)
                    + seq![char_range(lines[el], 0, ec)],
            ))
        }
    }
}

pub open spec fn opt_text(r: Option<String>) -> Option<Seq<char>> {
    match r {
        Some(t) => Some(t@),
        None => None,
    }
}

/// Relies on chrono: `DateTime::from_timestamp_micros` (none outside the
/// range chrono represents), `DateTime::with_timezone(&Local)` (the
/// machine's time zone) and `Timelike::hour`, `minute`, `second`, which are
/// documented to lie in 0..=23, 0..=59 and 0..=59.
#[verifier::external_body]
fn local_clock(micros: i64) -> (r: Option<(u32, u32, u32)>)
    ensures
        r matches Some((h, m, s)) ==> h < 24 && m < 60 && s < 60,
{
    match chrono::DateTime::from_timestamp_micros(micros) {
        Some(t) => {
            let local = t.with_timezone(&chrono::Local);
            Some((local.hour(), local.minute(), local.second()))
        },
        None => None,
    }
}

pub open spec fn two_digits(n: nat) -> Seq<char> {
    seq![digit_char(n / 10), digit_char(n % 10)]
}

/// "HH:MM:SS".
pub open spec fn clock_text(h: nat, m: nat, s: nat) -> Seq<char> {
    two_digits(h) + seq![':'] + two_digits(m) + seq![':'] + two_digits(s)
}

/// Shown in place of the time for an instant outside the calendar's range.
pub open spec fn unknown_clock() -> Seq<char> {
    "--:--:--"@
}

/// Pieces of `s` between newlines; always at least one.
pub open spec fn split_newlines(s: Seq<char>) -> Seq<Seq<char>>
    decreases s.len(),
{
    if s.len() == 0 {
        seq![Seq::empty()]
    } else {
        let p = split_newlines(s.drop_last());
        if s.last() == '\n' {
            p.push(Seq::empty())
        } else {
            p.update(p.len() - 1, p.last().push(s.last()))
        }
    }
}

pub proof fn lemma_split_newlines_len(s: Seq<char>)
    ensures
        split_newlines(s).len() >= 1,
    decreases s.len(),
{
    if s.len() > 0 {
        lemma_split_newlines_len(s.drop_last());
    }
}

/// "[time] name: " for a chat message, "[time] " for a system message.
pub open spec fn line_header(time: Seq<char>, username: Seq<char>, is_system: bool) -> Seq<char> {
    if is_system {
        seq!['['] + time + "] "@
    } else {
        seq!['['] + time + "] "@ + username + ": "@
    }
}

/// The display lines of a message: one per line of its content, the first
/// carrying the header.
pub open spec fn display_lines(time: Seq<char>, username: Seq<char>, content: Seq<char>, is_system: bool) -> Seq<Seq<char>> {
    let parts = split_newlines(content);
    parts.update(0, line_header(time, username, is_system) + parts[0])
}

/// The list entry for a received chat message.
pub open spec fn chat_entry(msg: ChatMessage, own_id: Seq<char>) -> DisplayMessage {
    DisplayMessage {
        username: msg.username,
        content: msg.content,
        timestamp: msg.timestamp,
        is_system: false,
        is_own_message: msg.user_id@ == own_id,
    }
}

pub open spec fn online_suffix(n: nat) -> Seq<char> {
    ". "@ + decimal(n) + " user(s) online."@
}

fn push_two_digits(out: &mut String, n: u32)
    requires
        n < 100,
    ensures
        final(out)@ == old(out)@ + two_digits(n as nat),
{
    push_char(out, (48u8 + (n / 10) as u8) as char);
    push_char(out, (48u8 + (n % 10) as u8) as char);
    assert(final(out)@ =~= old(out)@ + two_digits(n as nat));
}

/// The label of a time of day: "HH:MM:SS" for (hour, minute, second), or
/// `--:--:--` when there is none.
pub fn clock_label(t: Option<(u32, u32, u32)>) -> (r: String)
    requires
        t matches Some((h, m, s)) ==> h < 100 && m < 100 && s < 100,
    ensures
        r@ == match t {
            Some((h, m, s)) => clock_text(h as nat, m as nat, s as nat),
            None => unknown_clock(),
        },
{
    match t {
        Some((h, m, s)) => {
            let mut out = String::new();
            push_two_digits(&mut out, h);
            push_char(&mut out, ':');
            push_two_digits(&mut out, m);
            push_char(&mut out, ':');
            push_two_digits(&mut out, s);
            assert(out@ =~= clock_text(h as nat, m as nat, s as nat));
            out
        },
        None => "--:--:--".to_owned(),
    }
}

impl DisplayMessage {
    /// The message's time of day on the local clock, "HH:MM:SS".
    pub fn format_time(&self) -> (r: String)
        ensures
            clock_like(r@),
    {
        clock_label(local_clock(self.timestamp))
    }

    /// The display lines of this message with `time` as its time of day.
    pub fn format_lines_with_time(&self, time: &str) -> (lines: Vec<String>)
        ensures
            string_views(lines@) == display_lines(time@, self.username@, self.content@, self.is_system),
    {
        let mut current = String::new();
        push_char(&mut current, '[');
        current.append(time);
        current.append("] ");
        if !self.is_system {
            current.append(self.username.as_str());
            current.append(": ");
        }
        let ghost header = current@;
        assert(header == line_header(time@, self.username@, self.is_system));
        let mut done: Vec<String> = Vec::new();
        let ghost content = self.content@;
        proof {
            assert(content.take(0) =~= Seq::<char>::empty());
        }
        for ch in it: self.content.as_str().chars()
            invariant
                it.seq() == content,
                content == self.content@,
                header == line_header(time@, self.username@, self.is_system),
                string_views(done@).push(current@) == ({
                    let parts = split_newlines(content.take(it.index() as int));
                    parts.update(0, header + parts[0])
                }),
        {
            let ghost i = it.index() as int;
            let ghost prev = split_newlines(content.take(i));
            proof {
                lemma_split_newlines_len(content.take(i));
                assert(content.take(i + 1).drop_last() =~= content.take(i));
                assert(content.take(i + 1).last() == ch);
            }
            if ch == '\n' {
                assert(split_newlines(content.take(i + 1)) == prev.push(Seq::<char>::empty()));
                let ghost cur = current@;
                let ghost done_before = string_views(done@);
                done.push(current);
                current = String::new();
                assert(string_views(done@) =~= done_before.push(cur)) by {
                    assert(string_views(done@).drop_last() =~= done_before);
                }
                assert(string_views(done@).push(current@) =~= ({
                    let parts = split_newlines(content.take(i + 1));
                    parts.update(0, header + parts[0])
                }));
            } else {
                assert(split_newlines(content.take(i + 1)) == prev.update(prev.len() - 1, prev.last().push(ch)));
                assert((header + prev[0]).push(ch) =~= header + prev[0].push(ch));
                let ghost pu = prev.update(0, header + prev[0]);
                let ghost d = string_views(done@);
                assert(d.push(current@) == pu);
                assert(pu.len() == prev.len());
                assert(d.push(current@).len() == d.len() + 1);
                assert(d.len() + 1 == pu.len());
                assert(d.push(current@)[d.len() as int] == current@);
                assert(current@ == pu[prev.len() - 1]);
                assert(forall|j: int| 0 <= j < d.len() ==> d[j] == pu[j]);
                push_char(&mut current, ch);
                assert(string_views(done@).push(current@) =~= ({
                    let parts = split_newlines(content.take(i + 1));
                    parts.update(0, header + parts[0])
                }));
            }
        }
        let ghost cur = current@;
        let ghost before = string_views(done@);
        done.push(current);
        assert(string_views(done@) =~= before.push(cur));
        assert(content.take(content.len() as int) =~= content);
        done
    }

    /// The display lines of this message, stamped with its local time.
    pub fn format_lines_for_display(&self) -> (lines: Vec<String>)
        ensures
            exists|time: Seq<char>|
                (time == unknown_clock() || exists|h: nat, m: nat, s: nat|
                    h < 24 && m < 60 && s < 60 && time == clock_text(h, m, s))
                && string_views(lines@) == display_lines(time, self.username@, self.content@, self.is_system),
    {
        let time = self.format_time();
        self.format_lines_with_time(time.as_str())
    }
}

/// `m` is a system entry with text `text`.
pub open spec fn system_entry(m: DisplayMessage, text: Seq<char>) -> bool {
    &&& m.username@ == system_name()
    &&& m.content@ == text
    &&& m.is_system
    &&& !m.is_own_message
}

/// `after` is `before` with one system entry `text` appended.
pub open spec fn appends_system(before: Seq<DisplayMessage>, after: Seq<DisplayMessage>, text: Seq<char>) -> bool {
    &&& after.len() == before.len() + 1
    &&& after.drop_last() == before
    &&& system_entry(after.last(), text)
}

/// How the lines of a message are styled.
pub open spec fn kind_of(m: DisplayMessage) -> LineKind {
    if m.is_system {
        LineKind::System
    } else if m.is_own_message {
        LineKind::Own
    } else {
        LineKind::Other
    }
}

pub fn line_kind(m: &DisplayMessage) -> (k: LineKind)
    ensures
        k == kind_of(*m),
{
    if m.is_system {
        LineKind::System
    } else if m.is_own_message {
        LineKind::Own
    } else {
        LineKind::Other
    }
}

/// A time label as `format_time` produces it.
pub open spec fn clock_like(t: Seq<char>) -> bool {
    t == unknown_clock() || exists|h: nat, m: nat, s: nat| h < 24 && m < 60 && s < 60 && t == clock_text(h, m, s)
}

/// Text and style of rendered lines.
pub open spec fn rendered_view(lines: Seq<RenderedLine>) -> Seq<(Seq<char>, LineKind)> {
    lines.map_values(|l: RenderedLine| (l.text@, l.kind))
}

/// The display lines of `m`, each cut to `width`.
pub open spec fn message_texts(m: DisplayMessage, time: Seq<char>, width: nat) -> Seq<Seq<char>> {
    joined(display_lines(time, m.username@, m.content@, m.is_system).map_values(|l: Seq<char>| chunks(l, width)))
}

/// The rendered lines of `m`.
pub open spec fn message_rows(m: DisplayMessage, time: Seq<char>, width: nat) -> Seq<(Seq<char>, LineKind)> {
    message_texts(m, time, width).map_values(|t: Seq<char>| (t, kind_of(m)))
}

/// The rendered lines of the message pane: every message's lines, in order.
pub open spec fn pane_rows(ms: Seq<DisplayMessage>, times: Seq<Seq<char>>, width: nat) -> Seq<(Seq<char>, LineKind)> {
    joined(Seq::new(ms.len(), |i: int| message_rows(ms[i], times[i], width)))
}

/// Screen rows a line of `bytes` bytes takes at `width` columns, counted by
/// bytes: at least one.
pub open spec fn rows_for(bytes: nat, width: nat) -> nat {
    if width == 0 {
        1
    } else {
        let q = bytes / width + if bytes % width == 0 {
            0nat
        } else {
            1nat
        };
        if q == 0 {
            1
        } else {
            q
        }
    }
}

pub open spec fn rows_sum(lines: Seq<Seq<char>>, width: nat) -> nat
    decreases lines.len(),
{
    if lines.len() == 0 {
        0
    } else {
        rows_sum(lines.drop_last(), width) + rows_for(byte_len(lines.last()), width)
    }
}

/// All display lines of the pane, unwrapped.
pub open spec fn pane_lines(ms: Seq<DisplayMessage>, times: Seq<Seq<char>>) -> Seq<Seq<char>> {
    joined(Seq::new(ms.len(), |i: int| display_lines(times[i], ms[i].username@, ms[i].content@, ms[i].is_system)))
}

impl DisplayMessage {
    /// Appends this message's rendered lines, cut to `width` (whole for a
    /// zero width), to `out`.
    pub fn append_rows(&self, time: &str, width: usize, out: &mut Vec<RenderedLine>)
        ensures
            rendered_view(final(out)@) == rendered_view(old(out)@) + message_rows(*self, time@, width as nat),
    {
        let kind = line_kind(self);
        let logical = self.format_lines_with_time(time);
        let ghost lv = string_views(logical@);
        let ghost base = rendered_view(out@);
        let ghost f = |l: Seq<char>| chunks(l, width as nat);
        let ghost tag = |t: Seq<char>| (t, kind);
        let mut j: usize = 0;
        assert(joined(lv.take(0).map_values(f)) =~= Seq::<Seq<char>>::empty()) by {
            assert(lv.take(0).map_values(f) =~= Seq::<Seq<Seq<char>>>::empty());
        }
        assert(rendered_view(out@) =~= base + joined(lv.take(0).map_values(f)).map_values(tag));
        while j < logical.len()
            invariant
                lv == string_views(logical@),
                lv == display_lines(time@, self.username@, self.content@, self.is_system),
                kind == kind_of(*self),
                f == (|l: Seq<char>| chunks(l, width as nat)),
                tag == (|t: Seq<char>| (t, kind)),
                j <= logical.len(),
                rendered_view(out@) == base + joined(lv.take(j as int).map_values(f)).map_values(tag),
            decreases logical.len() - j,
        {
            let segs = wrap_line(logical[j].as_str(), width);
            let ghost sv = string_views(segs@);
            let ghost mid = rendered_view(out@);
            let mut k: usize = 0;
            while k < segs.len()
                invariant
                    sv == string_views(segs@),
                    tag == (|t: Seq<char>| (t, kind)),
                    k <= segs.len(),
                    rendered_view(out@) == mid + sv.take(k as int).map_values(tag),
                decreases segs.len() - k,
            {
                let ghost before = rendered_view(out@);
                let text = segs[k].clone();
                assert(text@ == sv[k as int]);
                out.push(RenderedLine { text, kind });
                assert(rendered_view(out@) =~= before.push((sv[k as int], kind)));
                assert(sv.take(k + 1) =~= sv.take(k as int).push(sv[k as int]));
                assert(rendered_view(out@) =~= mid + sv.take(k + 1).map_values(tag));
                k = k + 1;
            }
            proof {
                assert(sv.take(sv.len() as int) =~= sv);
                assert(sv == chunks(lv[j as int], width as nat));
                let pre = lv.take(j as int).map_values(f);
                let post = lv.take(j + 1).map_values(f);
                assert(post.drop_last() =~= pre);
                assert(post.last() == sv);
                assert(joined(post) == joined(pre) + sv);
                assert((joined(pre) + sv).map_values(tag) =~= joined(pre).map_values(tag) + sv.map_values(tag));
            }
            j = j + 1;
        }
        proof {
            assert(lv.take(lv.len() as int) =~= lv);
        }
    }
}

impl App {
    pub open spec fn line_lens(&self) -> Seq<int> {
        self.render_cache.lines@.map_values(|l: RenderedLine| l.text@.len() as int)
    }

    pub fn new(room_id: String, user_id: String, username: String) -> (app: Self)
        ensures
            app.room_id == room_id,
            app.user_id == user_id,
            app.username == username,
            app.messages@.len() == 0,
            app.online_count == 0,
            app.scroll_offset == 0,
            !app.connected,
            !app.should_quit,
            app.selection.anchor_spec() is None,
            app.selection.head_spec() is None,
            app.render_cache.lines@.len() == 0,
            app.render_cache.view_offset == 0,
            app.render_cache.area is None,
    {
        App {
            room_id,
            user_id,
            username,
            messages: Vec::new(),
            online_count: 0,
            scroll_offset: 0,
            connected: false,
            should_quit: false,
            selection: SelectionState::default(),
            render_cache: RenderCache::default(),
        }
    }

    /// Appends a message, scrolls to the bottom and drops the selection.
    pub fn add_message(&mut self, message: DisplayMessage)
        ensures
            final(self).messages@ == old(self).messages@.push(message),
            final(self).scroll_offset == 0,
            final(self).selection.anchor_spec() is None,
            final(self).selection.head_spec() is None,
            final(self).room_id == old(self).room_id,
            final(self).user_id == old(self).user_id,
            final(self).online_count == old(self).online_count,
            final(self).connected == old(self).connected,
            final(self).should_quit == old(self).should_quit,
            final(self).username == old(self).username,
            final(self).render_cache == old(self).render_cache,
            reset_view(*final(self)),
    {
        self.messages.push(message);
        self.scroll_offset = 0;
        self.selection.clear();
    }

    /// Appends a received chat message, marked as own when this client sent it.
    pub fn add_chat_message(&mut self, msg: ChatMessage)
        ensures
            final(self).messages@.len() == old(self).messages@.len() + 1,
            final(self).messages@.drop_last() == old(self).messages@,
            final(self).messages@.last() == (DisplayMessage {
                username: msg.username,
                content: msg.content,
                timestamp: msg.timestamp,
                is_system: false,
                is_own_message: msg.user_id@ == old(self).user_id@,
            }),
            final(self).scroll_offset == 0,
            final(self).room_id == old(self).room_id,
            final(self).user_id == old(self).user_id,
            final(self).online_count == old(self).online_count,
            final(self).connected == old(self).connected,
            final(self).should_quit == old(self).should_quit,
            final(self).username == old(self).username,
            final(self).render_cache == old(self).render_cache,
            reset_view(*final(self)),
    {
        let is_own = msg.user_id == self.user_id;
        self.add_message(DisplayMessage {
            username: msg.username,
            content: msg.content,
            timestamp: msg.timestamp,
            is_system: false,
            is_own_message: is_own,
        });
        assert(self.messages@.drop_last() =~= old(self).messages@);
    }

    /// Appends a system message stamped with the current time.
    pub fn add_system_message(&mut self, content: String)
        ensures
            final(self).messages@.len() == old(self).messages@.len() + 1,
            final(self).messages@.drop_last() == old(self).messages@,
            final(self).messages@.last().username@ == system_name(),
            final(self).messages@.last().content == content,
            final(self).messages@.last().is_system,
            !final(self).messages@.last().is_own_message,
            final(self).scroll_offset == 0,
            final(self).room_id == old(self).room_id,
            final(self).user_id == old(self).user_id,
            final(self).online_count == old(self).online_count,
            final(self).connected == old(self).connected,
            final(self).should_quit == old(self).should_quit,
            final(self).username == old(self).username,
            final(self).render_cache == old(self).render_cache,
            reset_view(*final(self)),
    {
        self.add_system_message_with_time(content, now_micros());
    }

    /// Appends a system message stamped with `timestamp`.
    pub fn add_system_message_with_time(&mut self, content: String, timestamp: i64)
        ensures
            final(self).messages@.len() == old(self).messages@.len() + 1,
            final(self).messages@.drop_last() == old(self).messages@,
            final(self).messages@.last().username@ == system_name(),
            final(self).messages@.last().content == content,
            final(self).messages@.last().timestamp == timestamp,
            final(self).messages@.last().is_system,
            !final(self).messages@.last().is_own_message,
            final(self).scroll_offset == 0,
            final(self).room_id == old(self).room_id,
            final(self).user_id == old(self).user_id,
            final(self).online_count == old(self).online_count,
            final(self).connected == old(self).connected,
            final(self).should_quit == old(self).should_quit,
            final(self).username == old(self).username,
            final(self).render_cache == old(self).render_cache,
            reset_view(*final(self)),
    {
        self.add_message(DisplayMessage {
            username: "system".to_owned(),
            content,
            timestamp,
            is_system: true,
            is_own_message: false,
        });
        assert(self.messages@.drop_last() =~= old(self).messages@);
    }

    /// Scrolls back (towards older messages).
    pub fn scroll_up(&mut self)
        ensures
            final(self).scroll_offset == if old(self).scroll_offset + SCROLL_STEP > usize::MAX {
                usize::MAX as int
            } else {
                old(self).scroll_offset + SCROLL_STEP
            },
            same_but_scroll(*old(self), *final(self)),
    {
        self.scroll_offset = self.scroll_offset.saturating_add(SCROLL_STEP);
    }

    /// Scrolls forward (towards the newest message).
    pub fn scroll_down(&mut self)
        ensures
            final(self).scroll_offset == if old(self).scroll_offset < SCROLL_STEP {
                0
            } else {
                old(self).scroll_offset - SCROLL_STEP
            },
            same_but_scroll(*old(self), *final(self)),
    {
        self.scroll_offset = self.scroll_offset.saturating_sub(SCROLL_STEP);
    }

    /// Limits the scroll offset to the content that lies above the view.
    pub fn clamp_scroll(&mut self, total_lines: usize, visible_height: usize)
        ensures
            final(self).scroll_offset == ({
                let max_scroll = if total_lines > visible_height {
                    total_lines - visible_height
                } else {
                    0
                };
                if old(self).scroll_offset < max_scroll {
                    old(self).scroll_offset as int
                } else {
                    max_scroll
                }
            }),
            same_but_scroll(*old(self), *final(self)),
    {
        let max_scroll = if total_lines > visible_height {
            total_lines - visible_height
        } else {
            0
        };
        if self.scroll_offset > max_scroll {
            self.scroll_offset = max_scroll;
        }
    }

    pub fn quit(&mut self)
        ensures
            final(self).should_quit,
            final(self).scroll_offset == old(self).scroll_offset,
            same_but_scroll_and_quit(*old(self), *final(self)),
    {
        self.should_quit = true;
    }

    /// Records what the message pane shows.
    pub fn update_render_cache(&mut self, lines: Vec<RenderedLine>, view_offset: usize, area: Option<ContentArea>)
        ensures
            final(self).render_cache.lines == lines,
            final(self).render_cache.view_offset == view_offset,
            final(self).render_cache.area == area,
            final(self).selection == old(self).selection,
            final(self).messages == old(self).messages,
    {
        self.render_cache.lines = lines;
        self.render_cache.view_offset = view_offset;
        self.render_cache.area = area;
    }

    /// The rendered-line position under grid cell (`column`, `row`), if any.
    pub fn message_position_from_mouse(&self, column: u16, row: u16) -> (r: Option<SelectionPosition>)
        ensures
            match self.render_cache.area {
                None => r is None,
                Some(area) => r == position_at(area, self.render_cache.view_offset as int, self.line_lens(), column as int, row as int),
            },
    {
        let area = match self.render_cache.area {
            Some(a) => a,
            None => return None,
        };
        let content_x = area.x.saturating_add(1);
        let content_y = area.y.saturating_add(1);
        let content_width = area.width.saturating_sub(2);
        let content_height = area.height.saturating_sub(2);
        if column < content_x || row < content_y {
            return None;
        }
        let rel_x = column - content_x;
        let rel_y = row - content_y;
        if rel_x >= content_width || rel_y >= content_height {
            return None;
        }
        let line_index = self.render_cache.view_offset.saturating_add(rel_y as usize);
        if line_index >= self.render_cache.lines.len() {
            return None;
        }
        let line = &self.render_cache.lines[line_index];
        let col = rel_x as usize;
        let max_column = line.text.as_str().unicode_len();
        let clamped = if col < max_column { col } else { max_column };
        Some(SelectionPosition { line: line_index, column: clamped })
    }

    pub fn start_selection(&mut self, position: SelectionPosition)
        ensures
            final(self).selection.anchor_spec() == Some(position),
            final(self).selection.head_spec() == Some(position),
    {
        self.selection.start(position);
    }

    pub fn update_selection(&mut self, position: SelectionPosition)
        ensures
            final(self).selection.anchor_spec() == if old(self).selection.anchor_spec() is None {
                Some(position)
            } else {
                old(self).selection.anchor_spec()
            },
            final(self).selection.head_spec() == Some(position),
    {
        self.selection.update(position);
    }

    pub fn clear_selection(&mut self)
        ensures
            final(self).selection.anchor_spec() is None,
            final(self).selection.head_spec() is None,
    {
        self.selection.clear();
    }

    /// Whether a non-empty span is selected.
    pub fn has_selection(&self) -> (r: bool)
        ensures
            r == span_of(self.selection.anchor_spec(), self.selection.head_spec()) is Some,
    {
        self.selection.range().is_some()
    }
    pub open spec fn line_texts(&self) -> Seq<Seq<char>> {
        self.render_cache.lines@.map_values(|l: RenderedLine| l.text@)
    }

    /// The selected text, if a non-empty span is selected and lines are
    /// rendered.
    pub fn selection_text(&self) -> (r: Option<String>)
        ensures
            opt_text(r) == match span_of(self.selection.anchor_spec(), self.selection.head_spec()) {
                None => None,
                Some((start, end)) => selected_text(self.line_texts(), start, end),
            },
    {
        let (start, end) = match self.selection.range() {
            Some(span) => span,
            None => return None,
        };
        let lines = &self.render_cache.lines;
        let ghost lv = self.line_texts();
        if lines.len() == 0 {
            return None;
        }
        let last = lines.len() - 1;
        let end_line = if end.line < last { end.line } else { last };
        let start_line = if start.line < end_line { start.line } else { end_line };
        let start_len = lines[start_line].text.as_str().unicode_len();
        let end_len = lines[end_line].text.as_str().unicode_len();
        let start_col = if start.column < start_len { start.column } else { start_len };
        let end_col = if end.column < end_len { end.column } else { end_len };
        assert(lv[start_line as int] == lines@[start_line as int].text@);
        assert(lv[end_line as int] == lines@[end_line as int].text@);
        if start_line == end_line {
            return Some(extract_range(lines[start_line].text.as_str(), start_col, end_col));
        }
        let mut out = extract_range(lines[start_line].text.as_str(), start_col, usize::MAX);
        let ghost first = out@;
        let mut k = start_line + 1;
        assert(seq![first] + lv.subrange(start_line + 1, k as int) =~= seq![first]);
        while k < end_line
            invariant
                lv == self.line_texts(),
                lines == &self.render_cache.lines,
                start_line < k <= end_line < lines@.len(),
                out@ == join_lines(seq![first] + lv.subrange(start_line + 1, k as int)),
            decreases end_line - k,
        {
            let ghost before = seq![first] + lv.subrange(start_line + 1, k as int);
            push_char(&mut out, '\n');
            out.append(lines[k].text.as_str());
            let ghost after = seq![first] + lv.subrange(start_line + 1, k + 1);
            assert(after.drop_last() =~= before);
            assert(after.last() == lv[k as int]);
            k = k + 1;
        }
        let ghost mid = seq![first] + lv.subrange(start_line + 1, end_line as int);
        let tail = extract_range(lines[end_line].text.as_str(), 0, end_col);
        push_char(&mut out, '\n');
        out.append(tail.as_str());
        let ghost all = mid + seq![tail@];
        assert(all.drop_last() =~= mid);
        Some(out)
    }
    /// Applies one envelope from the server to the client state.
    pub fn handle_server_message(&mut self, msg: ServerMessage)
        ensures
            final(self).room_id == old(self).room_id,
            final(self).user_id == old(self).user_id,
            final(self).should_quit == old(self).should_quit,
            final(self).username == old(self).username,
            final(self).render_cache == old(self).render_cache,
            msg is Pong ==> *final(self) == *old(self),
            match msg {
                ServerMessage::History { messages } => if messages@.len() == 0 {
                    same_view(*old(self), *final(self))
                } else {
                    reset_view(*final(self))
                },
                ServerMessage::UserJoined { user_id, .. } => if user_id@ == old(self).user_id@ {
                    same_view(*old(self), *final(self))
                } else {
                    reset_view(*final(self))
                },
                ServerMessage::Pong => true,
                _ => reset_view(*final(self)),
            },
            match msg {
                ServerMessage::Welcome { online_count, .. } => {
                    &&& final(self).connected
                    &&& final(self).online_count == online_count
                    &&& appends_system(old(self).messages@, final(self).messages@,
                        "Connected to room "@ + old(self).room_id@ + online_suffix(online_count as nat))
                },
                ServerMessage::History { messages } => {
                    &&& final(self).connected == old(self).connected
                    &&& final(self).online_count == old(self).online_count
                    &&& final(self).messages@ == old(self).messages@
                        + messages@.map_values(|m: ChatMessage| chat_entry(m, old(self).user_id@))
                },
                ServerMessage::Message { message } => {
                    &&& final(self).connected == old(self).connected
                    &&& final(self).online_count == old(self).online_count
                    &&& final(self).messages@ == old(self).messages@.push(chat_entry(message, old(self).user_id@))
                },
                ServerMessage::UserJoined { user_id, username, timestamp, online_count } => {
                    &&& final(self).connected == old(self).connected
                    &&& final(self).online_count == online_count
                    &&& if user_id@ == old(self).user_id@ {
                        final(self).messages@ == old(self).messages@
                    } else {
                        &&& appends_system(old(self).messages@, final(self).messages@,
                            username@ + " joined"@ + online_suffix(online_count as nat))
                        &&& final(self).messages@.last().timestamp == timestamp
                    }
                },
                ServerMessage::UserLeft { username, timestamp, online_count, .. } => {
                    &&& final(self).connected == old(self).connected
                    &&& final(self).online_count == online_count
                    &&& appends_system(old(self).messages@, final(self).messages@,
                        username@ + " left"@ + online_suffix(online_count as nat))
                    &&& final(self).messages@.last().timestamp == timestamp
                },
                ServerMessage::Error { message } => {
                    &&& final(self).connected == old(self).connected
                    &&& final(self).online_count == old(self).online_count
                    &&& appends_system(old(self).messages@, final(self).messages@, "Error: "@ + message@)
                },
                ServerMessage::Pong => {
                    &&& final(self).connected == old(self).connected
                    &&& final(self).online_count == old(self).online_count
                    &&& final(self).messages@ == old(self).messages@
                },
            },
    {
        match msg {
            ServerMessage::Welcome { online_count, .. } => {
                self.connected = true;
                self.online_count = online_count;
                let mut text = String::new();
                text.append("Connected to room ");
                text.append(self.room_id.as_str());
                push_online_suffix(&mut text, online_count);
                self.add_system_message(text);
            },
            ServerMessage::History { messages } => {
                let ghost own = self.user_id@;
                let ghost start = self.messages@;
                let ghost all = messages@;
                for m in it: messages
                    invariant
                        it.seq() == all,
                        own == self.user_id@,
                        self.room_id == old(self).room_id,
                        self.user_id == old(self).user_id,
                        self.should_quit == old(self).should_quit,
                        self.connected == old(self).connected,
                        self.online_count == old(self).online_count,
                        self.username == old(self).username,
                        self.render_cache == old(self).render_cache,
                        it.index() == 0 ==> same_view(*old(self), *self),
                        it.index() > 0 ==> reset_view(*self),
                        self.messages@ == start + all.take(it.index() as int).map_values(
                            |c: ChatMessage| chat_entry(c, own),
                        ),
                {
                    let ghost i = it.index() as int;
                    assert(m == all[i]);
                    let ghost entry = chat_entry(m, own);
                    self.add_chat_message(m);
                    assert(self.messages@ == start + all.take(i).map_values(|c: ChatMessage| chat_entry(c, own)) + seq![entry]) by {
                        assert(self.messages@ =~= self.messages@.drop_last().push(self.messages@.last()));
                    }
                    assert(all.take(i + 1) =~= all.take(i).push(m));
                    assert(self.messages@ =~= start + all.take(i + 1).map_values(
                        |c: ChatMessage| chat_entry(c, own),
                    ));
                }
                assert(all.take(all.len() as int) =~= all);
            },
            ServerMessage::Message { message } => {
                if message.user_id != self.user_id {
                    send_notification(message.username.as_str(), message.content.as_str());
                }
                self.add_chat_message(message);
                assert(self.messages@ =~= old(self).messages@.push(chat_entry(message, old(self).user_id@)));
            },
            ServerMessage::UserJoined { user_id, username, timestamp, online_count } => {
                self.online_count = online_count;
                if user_id != self.user_id {
                    let mut text = username;
                    text.append(" joined");
                    push_online_suffix(&mut text, online_count);
                    self.add_system_message_with_time(text, timestamp);
                }
            },
            ServerMessage::UserLeft { username, timestamp, online_count, .. } => {
                self.online_count = online_count;
                let mut text = username;
                text.append(" left");
                push_online_suffix(&mut text, online_count);
                self.add_system_message_with_time(text, timestamp);
            },
            ServerMessage::Error { message } => {
                let mut text = String::new();
                text.append("Error: ");
                text.append(message.as_str());
                self.add_system_message(text);
            },
            ServerMessage::Pong => {},
        }
    }
    /// The time label of every message, in order.
    pub fn clock_labels(&self) -> (times: Vec<String>)
        ensures
            times@.len() == self.messages@.len(),
            forall|i: int| 0 <= i < times@.len() ==> clock_like(#[trigger] times@[i]@),
    {
        let mut times: Vec<String> = Vec::new();
        let mut i: usize = 0;
        while i < self.messages.len()
            invariant
                i <= self.messages@.len(),
                times@.len() == i,
                forall|j: int| 0 <= j < times@.len() ==> clock_like(#[trigger] times@[j]@),
            decreases self.messages@.len() - i,
        {
            times.push(self.messages[i].format_time());
            i = i + 1;
        }
        times
    }

    /// The rendered lines of the message pane at `width` columns, with
    /// `times` as the messages' time labels.
    pub fn render_lines(&self, times: &Vec<String>, width: usize) -> (lines: Vec<RenderedLine>)
        requires
            times@.len() == self.messages@.len(),
        ensures
            rendered_view(lines@) == pane_rows(self.messages@, string_views(times@), width as nat),
    {
        let ghost ms = self.messages@;
        let ghost tv = string_views(times@);
        let ghost g = |i: int| message_rows(ms[i], tv[i], width as nat);
        let mut out: Vec<RenderedLine> = Vec::new();
        let mut i: usize = 0;
        assert(rendered_view(out@) =~= joined(Seq::new(0, g)));
        while i < self.messages.len()
            invariant
                ms == self.messages@,
                tv == string_views(times@),
                times@.len() == ms.len(),
                g == (|i: int| message_rows(ms[i], tv[i], width as nat)),
                i <= ms.len(),
                rendered_view(out@) == joined(Seq::new(i as nat, g)),
            decreases ms.len() - i,
        {
            self.messages[i].append_rows(times[i].as_str(), width, &mut out);
            assert(Seq::new((i + 1) as nat, g).drop_last() =~= Seq::new(i as nat, g));
            i = i + 1;
        }
        out
    }

    /// Screen rows the pane's content takes at `width` columns when each
    /// display line is counted by its bytes (saturating at `usize::MAX`),
    /// with `times` as the messages' time labels.
    pub fn total_display_lines(&self, times: &Vec<String>, width: usize) -> (n: usize)
        requires
            times@.len() == self.messages@.len(),
        ensures
            n == if rows_sum(pane_lines(self.messages@, string_views(times@)), width as nat) > usize::MAX {
                usize::MAX as nat
            } else {
                rows_sum(pane_lines(self.messages@, string_views(times@)), width as nat)
            },
    {
        let ghost ms = self.messages@;
        let ghost tv = string_views(times@);
        let ghost g = |i: int| display_lines(tv[i], ms[i].username@, ms[i].content@, ms[i].is_system);
        let mut total: usize = 0;
        let mut i: usize = 0;
        assert(joined(Seq::new(0, g)) =~= Seq::<Seq<char>>::empty());
        while i < self.messages.len()
            invariant
                ms == self.messages@,
                tv == string_views(times@),
                times@.len() == ms.len(),
                g == (|i: int| display_lines(tv[i], ms[i].username@, ms[i].content@, ms[i].is_system)),
                i <= ms.len(),
                total == if rows_sum(joined(Seq::new(i as nat, g)), width as nat) > usize::MAX {
                    usize::MAX as nat
                } else {
                    rows_sum(joined(Seq::new(i as nat, g)), width as nat)
                },
            decreases ms.len() - i,
        {
            let lines = self.messages[i].format_lines_with_time(times[i].as_str());
            let ghost lv = string_views(lines@);
            let ghost pre = joined(Seq::new(i as nat, g));
            let mut j: usize = 0;
            assert(pre + lv.take(0) =~= pre);
            while j < lines.len()
                invariant
                    lv == string_views(lines@),
                    j <= lines.len(),
                    total == if rows_sum(pre + lv.take(j as int), width as nat) > usize::MAX {
                        usize::MAX as nat
                    } else {
                        rows_sum(pre + lv.take(j as int), width as nat)
                    },
                decreases lines.len() - j,
            {
                let bytes = utf8_len(&lines[j]);
                let rows: usize = if width == 0 {
                    1
                } else {
                    let d = bytes / width;
                    let q = if bytes % width == 0 {
                        d
                    } else {
                        assert(d < usize::MAX) by (nonlinear_arith)
                            requires
                                d == bytes / width,
                                width > 0,
                                bytes % width != 0,
                                bytes <= usize::MAX,
                        {
                            if width == 1 {
                                assert(bytes % width == 0);
                            }
                        }
                        d + 1
                    };
                    if q == 0 { 1 } else { q }
                };
                assert((pre + lv.take(j + 1)).drop_last() =~= pre + lv.take(j as int));
                assert((pre + lv.take(j + 1)).last() == lv[j as int]);
                total = total.saturating_add(rows);
                j = j + 1;
            }
            proof {
                assert(lv.take(lv.len() as int) =~= lv);
                assert(Seq::new((i + 1) as nat, g).drop_last() =~= Seq::new(i as nat, g));
                assert(Seq::new((i + 1) as nat, g).last() == lv);
            }
            i = i + 1;
        }
        total
    }
}

fn push_online_suffix(text: &mut String, n: usize)
    ensures
        final(text)@ == old(text)@ + online_suffix(n as nat),
{
    text.append(". ");
    push_decimal(text, n);
    text.append(" user(s) online.");
    assert(final(text)@ =~= old(text)@ + online_suffix(n as nat));
}

} // verus!
