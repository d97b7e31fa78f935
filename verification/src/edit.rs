//! The keystroke-level edit commands: cursor movement with or without a
//! held shift (which grows a selection), character insertion, line split
//! and join, cut/copy/paste, save, and undo/redo. Each command is one pure
//! in-memory transform of (buffer, selection, history).

use vstd::prelude::*;

verus! {

use crate::code::Code;
use crate::code::Line;
use crate::component::CodeComponent;
use crate::input::InputEvent;
use crate::point::Point;
use crate::selection::CodeSelection;
use crate::model::LineModel;
use crate::model::len_of;
use crate::model::first_index_with;
use crate::model::lines_wf;
use crate::model::lemma_first_index_wf;
use crate::model::lemma_first_index_with_props;
use crate::model::spec_change_line;
use crate::model::spec_remove_line;
use crate::model::shift_down_after;
use crate::model::shift_up_after;
use crate::component::marker_stripped;
use crate::component::marker_spliced;
use crate::model::spec_extract_selection;
use crate::model::spec_cut_lines;
use crate::model::spec_cut_text;
use crate::model::spec_paste;
use crate::model::buffer_text;
use crate::point::normalize_points;
use crate::point::point_le;
use crate::textops::substring_clamped;
use crate::textops::split_newlines;
use crate::textops::split_newlines_exec;
use crate::history::replay;
use crate::history::CodeHistory;
use crate::history::spec_use_previous;
use crate::history::spec_use_next;
use crate::textops::seq_insert_at;
use crate::textops::seq_remove_at;
use crate::textops::insert_char_at;
use crate::textops::remove_char_at;
use vstd::string::StrSliceExecFns;
use vstd::string::StringExecFns;

/// The four arrow directions.
#[derive(Clone, Copy, Debug, PartialEq, Eq, Structural)]
pub enum Direction {
    Up,
    Down,
    Left,
    Right,
}

/// `y` clamped into the column range of a row of length `len`.
pub open spec fn clamp_col(y: usize, len: int) -> usize {
    if y as int <= len {
        y
    } else {
        len as usize
    }
}

/// Where one plain arrow press lands the cursor: one unit in the given
/// direction, silently clamped to the buffer's rows and the target row's
/// columns. Left at column 0 wraps to the end of the row above; Right at
/// the end of a row wraps to the start of the row below, each the mirror
/// of the other. At the buffer's edges nothing moves out of range.
pub open spec fn spec_step(lines: Seq<LineModel>, p: Point, dir: Direction) -> Point {
    match dir {
        Direction::Up => {
            let nx = if p.x > 0 {
                (p.x - 1) as usize
            } else {
                0
            };
            Point { x: nx, y: clamp_col(p.y, len_of(lines, nx as int)) }
        },
        Direction::Down => {
            let nx = if lines.len() > 0 && (p.x as int) < lines.len() - 1 {
                (p.x + 1) as usize
            } else {
                p.x
            };
            Point { x: nx, y: clamp_col(p.y, len_of(lines, nx as int)) }
        },
        Direction::Left => {
            if p.y > 0 {
                Point { x: p.x, y: (p.y - 1) as usize }
            } else if p.x > 0 {
                Point { x: (p.x - 1) as usize, y: len_of(lines, p.x as int - 1) as usize }
            } else {
                p
            }
        },
        Direction::Right => {
            if (p.y as int) < len_of(lines, p.x as int) {
                Point { x: p.x, y: (p.y + 1) as usize }
            } else if lines.len() > 0 && (p.x as int) < lines.len() - 1 {
                Point { x: (p.x + 1) as usize, y: 0 }
            } else {
                p
            }
        },
    }
}

/// The cursor and selection after one arrow press. A held shift extends:
/// with no selection active, a new one is anchored at the pre-move cursor
/// with its end at the moved point; with one active, only `end` moves
/// (`start` stays at the gesture's origin), and the selection collapses
/// when `end` comes back to equal `start`. The cursor follows the end. A
/// plain press snaps the cursor to the active selection's end and clears
/// it, or simply moves.
pub open spec fn spec_arrow(
    lines: Seq<LineModel>,
    cur: Point,
    sel: Option<CodeSelection>,
    dir: Direction,
    shift: bool,
) -> (Point, Option<CodeSelection>) {
    if shift {
        match sel {
            None => {
                let m = spec_step(lines, cur, dir);
                (m, Some(CodeSelection { start: cur, end: m }))
            },
            Some(s) => {
                let e2 = spec_step(lines, s.end, dir);
                if e2 == s.start {
                    (e2, None)
                } else {
                    (e2, Some(CodeSelection { start: s.start, end: e2 }))
                }
            },
        }
    } else {
        match sel {
            Some(s) => (s.end, None),
            None => (spec_step(lines, cur, dir), None),
        }
    }
}

/// One clamped, possibly wrapping cursor step.
fn exec_step(c: &Code, p: Point, dir: Direction) -> (r: Point)
    ensures
        r == spec_step(c.lines(), p, dir),
{
    let nlines = c.get_content().len();
    match dir {
        Direction::Up => {
            let nx = if p.get_x() > 0 {
                p.get_x() - 1
            } else {
                0
            };
            let len = c.line_len(nx);
            Point::new(nx, if p.get_y() <= len {
                p.get_y()
            } else {
                len
            })
        },
        Direction::Down => {
            let nx = if nlines > 0 && p.get_x() < nlines - 1 {
                p.get_x() + 1
            } else {
                p.get_x()
            };
            let len = c.line_len(nx);
            Point::new(nx, if p.get_y() <= len {
                p.get_y()
            } else {
                len
            })
        },
        Direction::Left => {
            if p.get_y() > 0 {
                Point::new(p.get_x(), p.get_y() - 1)
            } else if p.get_x() > 0 {
                let len = c.line_len(p.get_x() - 1);
                Point::new(p.get_x() - 1, len)
            } else {
                p
            }
        },
        Direction::Right => {
            let len = c.line_len(p.get_x());
            if p.get_y() < len {
                Point::new(p.get_x(), p.get_y() + 1)
            } else if nlines > 0 && p.get_x() < nlines - 1 {
                Point::new(p.get_x() + 1, 0)
            } else {
                p
            }
        },
    }
}

/// One arrow press: the extend-or-move algorithm shared by the four
/// handlers.
fn arrow_step(cc: &mut CodeComponent, dir: Direction, shift: bool)
    ensures
        final(cc).history == old(cc).history,
        final(cc).current.lines() == old(cc).current.lines(),
        final(cc).current.cursor_displayed == old(cc).current.cursor_displayed,
        ({
            let c = old(cc).current;
            let r = spec_arrow(c.lines(), c.cursor, c.selection, dir, shift);
            final(cc).current.cursor == r.0 && final(cc).current.selection == r.1
        }),
{
    let sel = *cc.current.get_selection();
    if shift {
        match sel {
            None => {
                let cur = *cc.current.get_cursor();
                let m = exec_step(&cc.current, cur, dir);
                cc.current.create_selection(cur, m);
                cc.current.cursor.set_x(m.get_x());
                cc.current.cursor.set_y(m.get_y());
            },
            Some(s) => {
                let e2 = exec_step(&cc.current, s.end, dir);
                if e2 == s.start {
                    cc.current.flush_selection();
                } else {
                    cc.current.set_selection_end(e2);
                }
                cc.current.cursor.set_x(e2.get_x());
                cc.current.cursor.set_y(e2.get_y());
            },
        }
    } else {
        match sel {
            Some(s) => {
                cc.current.cursor.set_x(s.end.get_x());
                cc.current.cursor.set_y(s.end.get_y());
                cc.current.flush_selection();
            },
            None => {
                let cur = *cc.current.get_cursor();
                let m = exec_step(&cc.current, cur, dir);
                cc.current.cursor.set_x(m.get_x());
                cc.current.cursor.set_y(m.get_y());
            },
        }
    }
}

/// One step up: a plain press snaps to the active selection's end and
/// clears it, or moves the cursor a row up, its column clamped into the
/// target row; a held shift extends the selection's end a row up instead.
pub fn handle_up(cc: &mut CodeComponent, event: &InputEvent)
    ensures
        final(cc).history == old(cc).history,
        final(cc).current.lines() == old(cc).current.lines(),
        final(cc).current.cursor_displayed == old(cc).current.cursor_displayed,
        ({
            let c = old(cc).current;
            let r = spec_arrow(c.lines(), c.cursor, c.selection, Direction::Up, event.shift);
            final(cc).current.cursor == r.0 && final(cc).current.selection == r.1
        }),
{
    arrow_step(cc, Direction::Up, event.shift);
}

/// One step down, the mirror of `handle_up`.
pub fn handle_down(cc: &mut CodeComponent, event: &InputEvent)
    ensures
        final(cc).history == old(cc).history,
        final(cc).current.lines() == old(cc).current.lines(),
        final(cc).current.cursor_displayed == old(cc).current.cursor_displayed,
        ({
            let c = old(cc).current;
            let r = spec_arrow(c.lines(), c.cursor, c.selection, Direction::Down, event.shift);
            final(cc).current.cursor == r.0 && final(cc).current.selection == r.1
        }),
{
    arrow_step(cc, Direction::Down, event.shift);
}

/// One step left: a plain press snaps to the active selection's end and
/// clears it, or moves the cursor a column back, wrapping at column 0 to
/// the end of the row above; a held shift extends the selection's end a
/// column back instead.
pub fn handle_left(cc: &mut CodeComponent, event: &InputEvent)
    ensures
        final(cc).history == old(cc).history,
        final(cc).current.lines() == old(cc).current.lines(),
        final(cc).current.cursor_displayed == old(cc).current.cursor_displayed,
        ({
            let c = old(cc).current;
            let r = spec_arrow(c.lines(), c.cursor, c.selection, Direction::Left, event.shift);
            final(cc).current.cursor == r.0 && final(cc).current.selection == r.1
        }),
{
    arrow_step(cc, Direction::Left, event.shift);
}

/// One step right, the mirror of `handle_left`: wraps at the end of a row
/// to the start of the row below.
pub fn handle_right(cc: &mut CodeComponent, event: &InputEvent)
    ensures
        final(cc).history == old(cc).history,
        final(cc).current.lines() == old(cc).current.lines(),
        final(cc).current.cursor_displayed == old(cc).current.cursor_displayed,
        ({
            let c = old(cc).current;
            let r = spec_arrow(c.lines(), c.cursor, c.selection, Direction::Right, event.shift);
            final(cc).current.cursor == r.0 && final(cc).current.selection == r.1
        }),
{
    arrow_step(cc, Direction::Right, event.shift);
}

/// The editing pane's buffer seen as one mathematical state: its lines,
/// whether the cursor marker is spliced in, the cursor, and the selection.
/// The per-key contracts of the event dispatcher are stated as functions
/// from this state to this state.
#[verifier::ext_equal]
pub ghost struct BufView {
    pub lines: Seq<LineModel>,
    pub displayed: bool,
    pub cursor: Point,
    pub selection: Option<CodeSelection>,
}

pub open spec fn buf_view(c: Code) -> BufView {
    BufView {
        lines: c.lines(),
        displayed: c.cursor_displayed,
        cursor: c.cursor,
        selection: c.selection,
    }
}

/// The buffer with the cursor marker taken out: what `remove_cursor` makes.
pub open spec fn strip_buf(b: BufView) -> BufView {
    let t = marker_stripped(b.lines, b.cursor, b.displayed);
    BufView { lines: t.0, displayed: t.1, cursor: b.cursor, selection: b.selection }
}

/// The buffer with the cursor marker spliced in: what `set_cursor` makes.
pub open spec fn splice_buf(b: BufView) -> BufView {
    let t = marker_spliced(b.lines, b.cursor, b.displayed);
    BufView { lines: t.0, displayed: t.1, cursor: b.cursor, selection: b.selection }
}

/// Taking the marker out of a marker-free buffer changes nothing.
pub proof fn lemma_strip_buf_idempotent(b: BufView)
    ensures
        strip_buf(strip_buf(b)) == strip_buf(b),
{
    assert(strip_buf(strip_buf(b)) =~~= strip_buf(b));
}

/// Splicing the marker into a buffer that already shows it changes
/// nothing.
pub proof fn lemma_splice_buf_idempotent(b: BufView)
    ensures
        splice_buf(splice_buf(b)) == splice_buf(b),
{
    assert(splice_buf(splice_buf(b)) =~~= splice_buf(b));
}

/// One character inserted at the cursor, the column advanced by one; the
/// buffer is untouched when the cursor's row is absent or its column lies
/// past the end of the row.
pub open spec fn char_buf(b: BufView, ch: char) -> BufView {
    let i = first_index_with(b.lines, b.cursor.x as int);
    let can = i >= 0 && b.cursor.y as int <= b.lines[i].text.len() && b.cursor.y < usize::MAX;
    if can {
        BufView {
            lines: b.lines.update(
                i,
                LineModel {
                    number: b.lines[i].number,
                    text: seq_insert_at(b.lines[i].text, b.cursor.y as int, ch),
                },
            ),
            displayed: b.displayed,
            cursor: Point { x: b.cursor.x, y: (b.cursor.y + 1) as usize },
            selection: b.selection,
        }
    } else {
        b
    }
}

/// Backspace: at column 0 of a later row the row joins onto the row
/// above and following rows step down; elsewhere the character before the
/// cursor goes and the column steps back.
pub open spec fn backspace_buf(b: BufView) -> BufView {
    let lines = b.lines;
    let x = b.cursor.x;
    let y = b.cursor.y;
    let i = first_index_with(lines, x as int);
    if i < 0 {
        b
    } else if y == 0 && x > 0 {
        let j = first_index_with(lines, x as int - 1);
        if j < 0 {
            b
        } else {
            let merged = lines[j].text + lines[i].text;
            BufView {
                lines: shift_down_after(
                    spec_remove_line(spec_change_line(lines, x as int - 1, merged), x as int),
                    x as int,
                ),
                displayed: b.displayed,
                cursor: Point { x: (x - 1) as usize, y: lines[j].text.len() as usize },
                selection: b.selection,
            }
        }
    } else if y > 0 && y as int <= lines[i].text.len() {
        BufView {
            lines: spec_change_line(lines, x as int, seq_remove_at(lines[i].text, y as int - 1)),
            displayed: b.displayed,
            cursor: Point { x, y: (y - 1) as usize },
            selection: b.selection,
        }
    } else {
        b
    }
}

/// Enter: the cursor's row splits at the cursor's column; the tail becomes
/// a new row below, following rows step up, and the cursor lands at the
/// new row's start.
pub open spec fn enter_buf(b: BufView) -> BufView {
    let lines = b.lines;
    let x = b.cursor.x;
    let y = b.cursor.y;
    let i = first_index_with(lines, x as int);
    let can = i >= 0 && y as int <= lines[i].text.len() && x < usize::MAX && i < usize::MAX;
    if can {
        let head = lines[i].text.subrange(0, y as int);
        let tail = lines[i].text.subrange(y as int, lines[i].text.len() as int);
        BufView {
            lines: shift_up_after(spec_change_line(lines, x as int, head), x as int, usize::MAX as int).insert(
                i + 1,
                LineModel { number: x as int + 1, text: tail },
            ),
            displayed: b.displayed,
            cursor: Point { x: (x + 1) as usize, y: 0 },
            selection: b.selection,
        }
    } else {
        b
    }
}

/// One arrow press on the buffer: only cursor and selection move.
pub open spec fn arrow_buf(b: BufView, dir: Direction, shift: bool) -> BufView {
    let r = spec_arrow(b.lines, b.cursor, b.selection, dir, shift);
    BufView { lines: b.lines, displayed: b.displayed, cursor: r.0, selection: r.1 }
}

/// Cut: the selected span leaves the buffer and the selection clears; a
/// buffer without a non-empty selection is untouched.
pub open spec fn cut_buf(b: BufView) -> BufView {
    match b.selection {
        Some(sel) => if sel.start != sel.end {
            BufView {
                lines: spec_cut_lines(b.lines, sel.start, sel.end),
                displayed: b.displayed,
                cursor: b.cursor,
                selection: None,
            }
        } else {
            b
        },
        None => b,
    }
}

/// Paste: the clipboard text, when one is available, split on newlines and
/// appended at the end of the buffer; an unavailable clipboard pastes
/// nothing.
pub open spec fn paste_buf(b: BufView, clip: Option<String>) -> BufView {
    match clip {
        Some(t) => BufView {
            lines: spec_paste(b.lines, split_newlines(t@)),
            displayed: b.displayed,
            cursor: b.cursor,
            selection: b.selection,
        },
        None => b,
    }
}

/// The buffer that replaces the live one on undo or redo: the history's
/// initial snapshot with the first `v` changes replayed onto it.
pub open spec fn replayed_buf(h: CodeHistory, v: int) -> BufView {
    BufView {
        lines: replay(h.initial.lines(), h.changes.deep_view(), replay_bound(v, h.changes@.len() as int)),
        displayed: h.initial.cursor_displayed,
        cursor: h.initial.cursor,
        selection: h.initial.selection,
    }
}

/// Inserts one character at the cursor: the marker is removed, the
/// character spliced into the cursor's line at the cursor's column, the
/// column advanced by one, and the marker put back. A no-op (but for the
/// marker round trip) when the cursor's row is absent or its column lies
/// past the end of the line.
pub fn handle_char(cc: &mut CodeComponent, ch: char)
    ensures
        final(cc).history == old(cc).history,
        final(cc).current.selection == old(cc).current.selection,
        ({
            let c = old(cc).current;
            let stripped = marker_stripped(c.lines(), c.cursor, c.cursor_displayed);
            let x = c.cursor.x;
            let y = c.cursor.y;
            let i = first_index_with(stripped.0, x as int);
            let can = i >= 0 && y as int <= stripped.0[i].text.len() && y < usize::MAX;
            let lines1 = if can {
                stripped.0.update(
                    i,
                    LineModel {
                        number: stripped.0[i].number,
                        text: seq_insert_at(stripped.0[i].text, y as int, ch),
                    },
                )
            } else {
                stripped.0
            };
            let cur1 = if can {
                Point { x, y: (y + 1) as usize }
            } else {
                c.cursor
            };
            let spliced = marker_spliced(lines1, cur1, stripped.1);
            &&& final(cc).current.lines() == spliced.0
            &&& final(cc).current.cursor_displayed == spliced.1
            &&& final(cc).current.cursor == cur1
        }),
        old(cc).current.wf() ==> final(cc).current.wf(),
{
    let ghost s0 = cc.current.lines();
    cc.current.remove_cursor();
    let ghost s1 = cc.current.lines();
    proof {
        lemma_first_index_with_props(s0, old(cc).current.cursor.x as int);
        assert(s1.len() == s0.len());
        assert forall|k: int| 0 <= k < s1.len() implies #[trigger] s1[k].number
            == s0[k].number by {}
    }
    let x = cc.current.cursor.get_x();
    let y = cc.current.cursor.get_y();
    let found = match cc.current.get_line(x) {
        Some(l) => Some(l.get_string()),
        None => None,
    };
    if let Some(text) = found {
        let len = text.as_str().unicode_len();
        if y <= len && y < usize::MAX {
            let newt = insert_char_at(text.as_str(), y, ch);
            cc.current.change_line(x, newt);
            cc.current.cursor.set_y(y + 1);
        }
    }
    let ghost s2 = cc.current.lines();
    proof {
        lemma_first_index_with_props(s1, x as int);
        assert(s2.len() == s1.len());
        assert forall|k: int| 0 <= k < s2.len() implies #[trigger] s2[k].number
            == s1[k].number by {}
    }
    cc.current.set_cursor();
    proof {
        let s3 = cc.current.lines();
        lemma_first_index_with_props(s2, cc.current.cursor.x as int);
        assert(s3.len() == s2.len());
        assert forall|k: int| 0 <= k < s3.len() implies #[trigger] s3[k].number
            == s2[k].number by {}
        if old(cc).current.wf() {
            assert forall|k: int| 0 <= k < s3.len() implies #[trigger] s3[k].number == k by {
                assert(s3[k].number == s2[k].number);
                assert(s2[k].number == s1[k].number);
                assert(s1[k].number == s0[k].number);
                assert(s0[k].number == k);
            }
        }
    }
}

/// Backspace. At column 0 of a later row it joins: the row's text moves
/// onto the end of the row above, the row goes, following rows step down
/// by one, and the cursor lands at the join point. Elsewhere it removes
/// the character just before the cursor and steps the column back.
pub fn handle_delete(cc: &mut CodeComponent)
    ensures
        final(cc).history == old(cc).history,
        final(cc).current.selection == old(cc).current.selection,
        final(cc).current.cursor_displayed == old(cc).current.cursor_displayed,
        ({
            let c = old(cc).current;
            let lines = c.lines();
            let x = c.cursor.x;
            let y = c.cursor.y;
            let i = first_index_with(lines, x as int);
            if i < 0 {
                final(cc).current == c
            } else if y == 0 && x > 0 {
                let j = first_index_with(lines, x as int - 1);
                if j < 0 {
                    final(cc).current == c
                } else {
                    let merged = lines[j].text + lines[i].text;
                    let joined = shift_down_after(
                        spec_remove_line(
                            spec_change_line(lines, x as int - 1, merged),
                            x as int,
                        ),
                        x as int,
                    );
                    &&& final(cc).current.lines() == joined
                    &&& final(cc).current.cursor.x as int == x as int - 1
                    &&& final(cc).current.cursor.y as int == lines[j].text.len()
                }
            } else if y > 0 && y as int <= lines[i].text.len() {
                &&& final(cc).current.lines() == spec_change_line(
                    lines,
                    x as int,
                    seq_remove_at(lines[i].text, y as int - 1),
                )
                &&& final(cc).current.cursor == (Point { x, y: (y - 1) as usize })
            } else {
                final(cc).current == c
            }
        }),
        old(cc).current.wf() ==> final(cc).current.wf(),
{
    let x = cc.current.cursor.get_x();
    let y = cc.current.cursor.get_y();
    let cur_text = match cc.current.get_line(x) {
        Some(l) => l.get_string(),
        None => {
            return ;
        },
    };
    if y == 0 && x > 0 {
        let prev_text = match cc.current.get_line(x - 1) {
            Some(l) => l.get_string(),
            None => {
                return ;
            },
        };
        let prev_len = prev_text.as_str().unicode_len();
        let merged = prev_text.concat(cur_text.as_str());
        cc.current.change_line(x - 1, merged);
        cc.current.remove_line(x);
        cc.current.shift_numbers_down_after(x);
        cc.current.cursor.set_x(x - 1);
        cc.current.cursor.set_y(prev_len);
        proof {
            lemma_first_index_with_props(old(cc).current.lines(), x as int);
            if old(cc).current.wf() {
                lemma_first_index_wf(old(cc).current.lines(), x as int);
                lemma_first_index_wf(old(cc).current.lines(), x as int - 1);
                lemma_join_preserves_wf(old(cc).current.lines(), x as int);
            }
        }
    } else if y > 0 {
        let len = cur_text.as_str().unicode_len();
        if y <= len {
            let newt = remove_char_at(cur_text.as_str(), y - 1);
            cc.current.change_line(x, newt);
            cc.current.cursor.set_y(y - 1);
            proof {
                lemma_first_index_with_props(old(cc).current.lines(), x as int);
                if old(cc).current.wf() {
                    let fl = cc.current.lines();
                    let ol = old(cc).current.lines();
                    assert(fl.len() == ol.len());
                    assert forall|k: int| 0 <= k < fl.len() implies #[trigger] fl[k].number
                        == k by {
                        assert(fl[k].number == ol[k].number);
                        assert(ol[k].number == k);
                    }
                }
            }
        }
    }
}

/// Enter: splits the cursor's line at the cursor's column. The head keeps
/// the row and its number, the tail becomes a new row right below with the
/// next number, every following row steps up by one, and the cursor lands
/// at the start of the new row.
pub fn handle_enter(cc: &mut CodeComponent)
    ensures
        final(cc).history == old(cc).history,
        final(cc).current.selection == old(cc).current.selection,
        final(cc).current.cursor_displayed == old(cc).current.cursor_displayed,
        ({
            let c = old(cc).current;
            let lines = c.lines();
            let x = c.cursor.x;
            let y = c.cursor.y;
            let i = first_index_with(lines, x as int);
            let can = i >= 0 && y as int <= lines[i].text.len() && x < usize::MAX && i
                < usize::MAX;
            if can {
                let head = lines[i].text.subrange(0, y as int);
                let tail = lines[i].text.subrange(y as int, lines[i].text.len() as int);
                let split = shift_up_after(
                    spec_change_line(lines, x as int, head),
                    x as int,
                    usize::MAX as int,
                ).insert(
                    i + 1,
                    LineModel { number: x as int + 1, text: tail },
                );
                &&& final(cc).current.lines() == split
                &&& final(cc).current.cursor == (Point { x: (x + 1) as usize, y: 0 })
            } else {
                final(cc).current == c
            }
        }),
        old(cc).current.wf() ==> final(cc).current.wf(),
{
    let x = cc.current.cursor.get_x();
    let y = cc.current.cursor.get_y();
    if x == usize::MAX {
        return ;
    }
    let found = match cc.current.find_index(x) {
        Some(i) => Some((i, self_line_text(cc, i))),
        None => None,
    };
    if let Some((i, text)) = found {
        if i == usize::MAX {
            return ;
        }
        let len = text.as_str().unicode_len();
        if y <= len {
            let head = text.as_str().substring_char(0, y).to_owned();
            let tail = text.as_str().substring_char(y, len).to_owned();
            cc.current.change_line(x, head);
            cc.current.shift_numbers_up_after(x);
            proof {
                lemma_first_index_with_props(old(cc).current.lines(), x as int);
                assert(cc.current.lines().len() == old(cc).current.lines().len());
                assert(cc.current.content@.len() == cc.current.lines().len());
                assert(old(cc).current.content@.len() == old(cc).current.lines().len());
            }
            cc.current.content.insert(i + 1, Line::new(x + 1, tail));
            cc.current.cursor.set_x(x + 1);
            cc.current.cursor.set_y(0);
            proof {
                assert(cc.current.lines() =~~= shift_up_after(
                    spec_change_line(old(cc).current.lines(), x as int, head@),
                    x as int,
                    usize::MAX as int,
                ).insert(i as int + 1, LineModel { number: x as int + 1, text: tail@ }));
                if old(cc).current.wf() {
                    lemma_split_preserves_wf(old(cc).current.lines(), x as int, head@, tail@);
                }
            }
        }
    }
}

/// The text of the line at `i`, cloned out.
fn self_line_text(cc: &CodeComponent, i: usize) -> (r: String)
    requires
        i < cc.current.content.len(),
    ensures
        r@ == cc.current.lines()[i as int].text,
{
    cc.current.content[i].get_string()
}

/// Copy: the text the active selection encloses, to be placed on the
/// clipboard by the caller; nothing when no selection is active or the
/// selection is empty. The buffer is left untouched.
pub fn handle_copy(cc: &mut CodeComponent) -> (r: Option<String>)
    ensures
        *final(cc) == *old(cc),
        ({
            let c = old(cc).current;
            match c.selection {
                Some(sel) => if sel.start != sel.end {
                    match r {
                        Some(t) => t@ == spec_extract_selection(c.lines(), sel.start, sel.end),
                        None => false,
                    }
                } else {
                    r is None
                },
                None => r is None,
            }
        }),
{
    let sel = match cc.current.get_selection() {
        Some(s) => *s,
        None => {
            return None;
        },
    };
    if sel.start.get_x() == sel.end.get_x() && sel.start.get_y() == sel.end.get_y() {
        return None;
    }
    cc.current.extract_selection()
}

/// Cut: like copy, and the selected span then leaves the buffer and the
/// selection is cleared. Within one row only the spanned columns go; across
/// rows the span is deleted as `delete_selection` does.
pub fn handle_cut(cc: &mut CodeComponent) -> (r: Option<String>)
    ensures
        final(cc).history == old(cc).history,
        final(cc).current.cursor == old(cc).current.cursor,
        final(cc).current.cursor_displayed == old(cc).current.cursor_displayed,
        ({
            let c = old(cc).current;
            match c.selection {
                Some(sel) => if sel.start != sel.end {
                    &&& match r {
                        Some(t) => t@ == spec_extract_selection(c.lines(), sel.start, sel.end),
                        None => false,
                    }
                    &&& final(cc).current.lines() == spec_cut_lines(c.lines(), sel.start, sel.end)
                    &&& final(cc).current.selection is None
                } else {
                    r is None && final(cc).current == c
                },
                None => r is None && final(cc).current == c,
            }
        }),
{
    let sel = match cc.current.get_selection() {
        Some(s) => *s,
        None => {
            return None;
        },
    };
    if sel.start.get_x() == sel.end.get_x() && sel.start.get_y() == sel.end.get_y() {
        return None;
    }
    let text = cc.current.extract_selection();
    let (s, e) = normalize_points(sel.start, sel.end);
    if s.get_x() == e.get_x() {
        proof {
            assert(point_le(s, e));
        }
        let found = match cc.current.get_line(s.get_x()) {
            Some(l) => Some(l.get_string()),
            None => None,
        };
        if let Some(t) = found {
            let len = t.as_str().unicode_len();
            let hi = if e.get_y() <= len {
                e.get_y()
            } else {
                len
            };
            let kept = substring_clamped(t.as_str(), 0, s.get_y()).concat(
                t.as_str().substring_char(hi, len),
            );
            cc.current.change_line(s.get_x(), kept);
            proof {
                assert(kept@ =~= spec_cut_text(old(cc).current.lines(), s, e));
            }
        }
    } else {
        cc.current.delete_selection();
    }
    cc.current.flush_selection();
    text
}

/// Paste: the clipboard text, handed in by the caller, split on newlines;
/// each piece is appended at the end of the buffer as a new line numbered
/// one past the largest number present. Pasting appends rather than
/// inserting at the cursor: the behaviour the surrounding editor always
/// had, kept as it is.
pub fn handle_paste(cc: &mut CodeComponent, contents: &str)
    ensures
        final(cc).history == old(cc).history,
        final(cc).current.cursor == old(cc).current.cursor,
        final(cc).current.cursor_displayed == old(cc).current.cursor_displayed,
        final(cc).current.selection == old(cc).current.selection,
        final(cc).current.lines() == spec_paste(
            old(cc).current.lines(),
            split_newlines(contents@),
        ),
{
    let parts = split_newlines_exec(contents);
    let n = parts.len();
    let mut k: usize = 0;
    proof {
        assert(parts.deep_view().subrange(0, n as int) =~~= parts.deep_view());
    }
    loop
        invariant_except_break
            k <= n,
            n == parts.len(),
            parts.deep_view() == split_newlines(contents@),
            cc.history == old(cc).history,
            cc.current.cursor == old(cc).current.cursor,
            cc.current.cursor_displayed == old(cc).current.cursor_displayed,
            cc.current.selection == old(cc).current.selection,
            spec_paste(cc.current.lines(), parts.deep_view().subrange(k as int, n as int))
                == spec_paste(old(cc).current.lines(), parts.deep_view()),
        ensures
            cc.history == old(cc).history,
            cc.current.cursor == old(cc).current.cursor,
            cc.current.cursor_displayed == old(cc).current.cursor_displayed,
            cc.current.selection == old(cc).current.selection,
            cc.current.lines() == spec_paste(old(cc).current.lines(), parts.deep_view()),
        decreases n - k,
    {
        if k >= n {
            proof {
                assert(parts.deep_view().subrange(n as int, n as int)
                    =~~= Seq::<Seq<char>>::empty());
                assert(spec_paste(
                    cc.current.lines(),
                    parts.deep_view().subrange(n as int, n as int),
                ) == cc.current.lines());
            }
            break ;
        }
        let ghost rest = parts.deep_view().subrange(k as int, n as int);
        proof {
            assert(rest[0] == parts.deep_view()[k as int]);
            assert(rest.drop_first() =~~= parts.deep_view().subrange(k as int + 1, n as int));
        }
        let next: usize = match cc.current.max_line_number() {
            None => 0,
            Some(m) => {
                if m < usize::MAX {
                    m + 1
                } else {
                    proof {
                        assert(spec_paste(cc.current.lines(), rest) == cc.current.lines());
                    }
                    break ;
                }
            },
        };
        let part = parts[k].clone();
        cc.current.add_line(Line::new(next, part));
        k = k + 1;
    }
}

/// Save: the version cursor jumps to the newest change and the committed
/// text — the replayed buffer's lines joined with newlines — is returned
/// for the caller to persist. The live buffer itself is untouched.
pub fn handle_save(cc: &mut CodeComponent) -> (r: String)
    ensures
        final(cc).current == old(cc).current,
        final(cc).history.changes == old(cc).history.changes,
        final(cc).history.initial == old(cc).history.initial,
        final(cc).history.version == old(cc).history.changes@.len(),
        r@ == buffer_text(
            replay(
                old(cc).history.initial.lines(),
                old(cc).history.changes.deep_view(),
                old(cc).history.changes@.len() as int,
            ),
        ),
{
    cc.history.use_last();
    let code = cc.history.get_current_code();
    code.content_text()
}

/// Undo: the version cursor steps back by one and the buffer is replaced
/// by the replay of the remaining changes onto the initial snapshot.
pub fn handle_undo(cc: &mut CodeComponent)
    ensures
        final(cc).history.changes == old(cc).history.changes,
        final(cc).history.initial == old(cc).history.initial,
        final(cc).history.version as int == spec_use_previous(old(cc).history.version as int),
        final(cc).current.lines() == replay(
            old(cc).history.initial.lines(),
            old(cc).history.changes.deep_view(),
            replay_bound(
                spec_use_previous(old(cc).history.version as int),
                old(cc).history.changes@.len() as int,
            ),
        ),
        final(cc).current.cursor == old(cc).history.initial.cursor,
        final(cc).current.cursor_displayed == old(cc).history.initial.cursor_displayed,
        final(cc).current.selection == old(cc).history.initial.selection,
{
    cc.history.use_previous();
    let code = cc.history.get_current_code();
    cc.current = code;
}

/// Redo: the version cursor steps forward by one and the buffer is
/// replaced by the replay up to it.
pub fn handle_redo(cc: &mut CodeComponent)
    ensures
        final(cc).history.changes == old(cc).history.changes,
        final(cc).history.initial == old(cc).history.initial,
        final(cc).history.version as int == spec_use_next(
            old(cc).history.version as int,
            old(cc).history.changes@.len() as int,
        ),
        final(cc).current.lines() == replay(
            old(cc).history.initial.lines(),
            old(cc).history.changes.deep_view(),
            replay_bound(
                spec_use_next(
                    old(cc).history.version as int,
                    old(cc).history.changes@.len() as int,
                ),
                old(cc).history.changes@.len() as int,
            ),
        ),
        final(cc).current.cursor == old(cc).history.initial.cursor,
        final(cc).current.cursor_displayed == old(cc).history.initial.cursor_displayed,
        final(cc).current.selection == old(cc).history.initial.selection,
{
    cc.history.use_next();
    let code = cc.history.get_current_code();
    cc.current = code;
}

/// A version cursor clamped to the recorded changes: what the replay
/// actually walks.
pub open spec fn replay_bound(v: int, n: int) -> int {
    if v <= n {
        v
    } else {
        n
    }
}

/// Split/join inverse: pressing Enter inside a row and then Backspace at
/// the join boundary restores the buffer's lines exactly — the split-off
/// tail returns to its row, the row keeps its number, and every following
/// row returns to its place. The terms below are the two handlers' own
/// postcondition transforms: the split at column `y` of row `x`, then the
/// join at the start of row `x + 1`.
pub proof fn lemma_split_join_inverse(lines: Seq<LineModel>, x: int, y: int)
    requires
        lines_wf(lines),
        0 <= x < lines.len(),
        lines.len() < usize::MAX,
        0 <= y <= lines[x].text.len(),
    ensures
        ({
            let head = lines[x].text.subrange(0, y);
            let tail = lines[x].text.subrange(y, lines[x].text.len() as int);
            let split = shift_up_after(
                spec_change_line(lines, x, head),
                x,
                usize::MAX as int,
            ).insert(x + 1, LineModel { number: x + 1, text: tail });
            let merged = split[x].text + split[x + 1].text;
            let joined = shift_down_after(
                spec_remove_line(spec_change_line(split, x, merged), x + 1),
                x + 1,
            );
            joined =~~= lines
        }),
{
    let head = lines[x].text.subrange(0, y);
    let tail = lines[x].text.subrange(y, lines[x].text.len() as int);
    lemma_first_index_wf(lines, x);
    let lines1 = spec_change_line(lines, x, head);
    let split = shift_up_after(lines1, x, usize::MAX as int).insert(
        x + 1,
        LineModel { number: x + 1, text: tail },
    );
    lemma_split_preserves_wf(lines, x, head, tail);
    assert(lines_wf(split));
    lemma_first_index_wf(split, x);
    let merged = split[x].text + split[x + 1].text;
    assert(split[x].text == head);
    assert(split[x + 1].text == tail);
    assert(merged =~= lines[x].text);
    let split1 = spec_change_line(split, x, merged);
    assert(lines_wf(split1));
    lemma_first_index_wf(split1, x + 1);
    let split2 = spec_remove_line(split1, x + 1);
    assert(split2 =~~= split1.remove(x + 1));
    let joined = shift_down_after(split2, x + 1);
    assert forall|k: int| 0 <= k < joined.len() implies #[trigger] joined[k] =~~= lines[k] by {
        if k <= x {
            assert(split2[k] == split1[k]);
            if k < x {
                assert(split1[k] == split[k]);
                assert(split[k] == shift_up_after(lines1, x, usize::MAX as int)[k]);
            }
        } else {
            assert(split2[k] == split1[k + 1]);
            assert(split1[k + 1] == split[k + 1]);
            assert(split[k + 1] == shift_up_after(lines1, x, usize::MAX as int)[k]);
            assert(lines1[k] == lines[k]);
        }
    }
}

/// Joining a row onto the row above keeps the numbering contiguous: the
/// renumbering half of the invariant behind Backspace.
proof fn lemma_join_preserves_wf(lines: Seq<LineModel>, x: int)
    requires
        lines_wf(lines),
        0 < x < lines.len(),
    ensures
        ({
            let merged = lines[x - 1].text + lines[x].text;
            let joined = shift_down_after(
                spec_remove_line(spec_change_line(lines, x - 1, merged), x),
                x,
            );
            lines_wf(joined)
        }),
{
    let merged = lines[x - 1].text + lines[x].text;
    lemma_first_index_wf(lines, x - 1);
    let lines1 = spec_change_line(lines, x - 1, merged);
    assert(lines_wf(lines1));
    lemma_first_index_wf(lines1, x);
    let lines2 = spec_remove_line(lines1, x);
    assert(lines2 =~~= lines1.remove(x));
    let joined = shift_down_after(lines2, x);
    assert forall|k: int| 0 <= k < joined.len() implies #[trigger] joined[k].number == k by {
        if k < x {
            assert(lines2[k] == lines1[k]);
        } else {
            assert(lines2[k] == lines1[k + 1]);
        }
    }
}

/// Splitting a row in two keeps the numbering contiguous: the renumbering
/// half of the invariant behind Enter.
proof fn lemma_split_preserves_wf(lines: Seq<LineModel>, x: int, head: Seq<char>, tail: Seq<char>)
    requires
        lines_wf(lines),
        0 <= x < lines.len(),
        x < usize::MAX,
        lines.len() <= usize::MAX,
    ensures
        ({
            let split = shift_up_after(
                spec_change_line(lines, x, head),
                x,
                usize::MAX as int,
            ).insert(x + 1, LineModel { number: x + 1, text: tail });
            lines_wf(split)
        }),
{
    lemma_first_index_wf(lines, x);
    let lines1 = spec_change_line(lines, x, head);
    let lines2 = shift_up_after(lines1, x, usize::MAX as int);
    let split = lines2.insert(x + 1, LineModel { number: x + 1, text: tail });
    assert forall|k: int| 0 <= k < split.len() implies #[trigger] split[k].number == k by {
        if k < x + 1 {
            assert(split[k] == lines2[k]);
        } else if k > x + 1 {
            assert(split[k] == lines2[k - 1]);
        }
    }
}

} // verus!
