//! The editing pane: the live buffer together with its history.

use vstd::prelude::*;

verus! {

use crate::code::Code;
use crate::code::Line;
use crate::history::CodeHistory;
use crate::model::LineModel;
use crate::textops::split_newlines;
use crate::textops::split_newlines_exec;
use crate::input::InputEvent;
use crate::input::InputKind;
use crate::input::EditorKey;
use crate::input::EditAction;
use crate::context::AppContext;
use crate::context::ComponentType;
use crate::model::spec_extract_selection;
use crate::model::buffer_text;
use crate::history::replay;
use crate::edit::handle_up;
use crate::edit::handle_down;
use crate::edit::handle_left;
use crate::edit::handle_right;
use crate::edit::handle_char;
use crate::edit::handle_delete;
use crate::edit::handle_enter;
use crate::edit::handle_cut;
use crate::edit::handle_copy;
use crate::edit::handle_paste;
use crate::edit::handle_save;
use crate::edit::handle_undo;
use crate::edit::handle_redo;
use crate::edit::Direction;
use crate::edit::buf_view;
use crate::edit::strip_buf;
use crate::edit::splice_buf;
use crate::edit::char_buf;
use crate::edit::backspace_buf;
use crate::edit::enter_buf;
use crate::edit::arrow_buf;
use crate::edit::cut_buf;
use crate::edit::paste_buf;
use crate::edit::replayed_buf;
use crate::edit::lemma_strip_buf_idempotent;
use crate::edit::lemma_splice_buf_idempotent;
use crate::history::spec_use_previous;
use crate::history::spec_use_next;

/// The live buffer and the history recorded against it.
#[derive(Debug, PartialEq, Eq)]
pub struct CodeComponent {
    pub current: Code,
    pub history: CodeHistory,
}

impl CodeComponent {
    pub fn new() -> (r: CodeComponent)
        ensures
            r.current.lines().len() == 0,
            r.current.selection is None,
            r.current.cursor_displayed == false,
            r.history.initial.lines().len() == 0,
            r.history.changes@.len() == 0,
            r.history.version == 0,
    {
        let code = Code::new();
        let snapshot = code.clone();
        CodeComponent { current: code, history: CodeHistory::new(snapshot) }
    }

    /// Fills the buffer from a file's text, split on newlines into lines
    /// numbered from 0, then shows the cursor marker; a no-op on `None`
    /// except for the marker. The surrounding I/O layer reads the file and
    /// hands the text in.
    pub fn set_current(&mut self, contents: Option<String>)
        ensures
            match contents {
                Some(text) => ({
                    let parts = split_newlines(text@);
                    let appended = old(self).current.lines() + Seq::new(
                        parts.len(),
                        |k: int| LineModel { number: k, text: parts[k] },
                    );
                    final(self).current.lines() == marker_spliced(
                        appended,
                        old(self).current.cursor,
                        old(self).current.cursor_displayed,
                    ).0 && final(self).current.cursor_displayed == marker_spliced(
                        appended,
                        old(self).current.cursor,
                        old(self).current.cursor_displayed,
                    ).1
                }),
                None => *final(self) == *old(self),
            },
            final(self).current.cursor == old(self).current.cursor,
            final(self).current.selection == old(self).current.selection,
            final(self).history == old(self).history,
    {
        let text = match contents {
            Some(t) => t,
            None => { return },
        };
        let parts = split_newlines_exec(text.as_str());
        let n = parts.len();
        let mut k: usize = 0;
        while k < n
            invariant
                k <= n,
                n == parts.len(),
                parts.deep_view() == split_newlines(text@),
                self.current.lines() =~~= old(self).current.lines() + Seq::new(
                    k as nat,
                    |j: int| LineModel { number: j, text: parts.deep_view()[j] },
                ),
                self.current.cursor == old(self).current.cursor,
                self.current.cursor_displayed == old(self).current.cursor_displayed,
                self.current.selection == old(self).current.selection,
                self.history == old(self).history,
            decreases n - k,
        {
            let part = parts[k].clone();
            self.current.add_line(Line::new(k, part));
            proof {
                assert(self.current.lines() =~~= old(self).current.lines() + Seq::new(
                    (k + 1) as nat,
                    |j: int| LineModel { number: j, text: parts.deep_view()[j] },
                ));
            }
            k = k + 1;
        }
        self.current.set_cursor();
        proof {
            let appended = old(self).current.lines() + Seq::new(
                split_newlines(text@).len(),
                |j: int| LineModel { number: j, text: split_newlines(text@)[j] },
            );
            assert(old(self).current.lines() + Seq::new(
                n as nat,
                |j: int| LineModel { number: j, text: parts.deep_view()[j] },
            ) =~~= appended);
        }
    }

    pub fn get_current(&self) -> (r: &Code)
        ensures
            *r == self.current,
    {
        &self.current
    }

    pub fn get_mut_current(&mut self) -> (r: &mut Code)
        ensures
            *r == old(self).current,
            final(self).current == *final(r),
            final(self).history == old(self).history,
    {
        &mut self.current
    }

    pub fn get_history(&self) -> (r: &CodeHistory)
        ensures
            *r == self.history,
    {
        &self.history
    }
}

/// A control chord: the key pressed with control held, in either case.
pub open spec fn is_ctrl_combo(event: InputEvent, lo: char, up: char) -> bool {
    &&& event.kind == InputKind::Press
    &&& event.control
    &&& (event.code == EditorKey::Char(lo) || event.code == EditorKey::Char(up))
}

impl CodeComponent {
    /// Handles one input event for the editing pane. The cursor marker is
    /// removed first and put back last, so no command ever reads or writes
    /// the marker as content. Control chords cut, copy, paste, save, undo
    /// and redo; plain keys insert, delete, split and navigate; Esc hands
    /// focus back to the hover. The contract pins, key by key, the buffer
    /// the event leaves behind and the action it returns; `clipboard`
    /// carries the clipboard text for a paste, if one is available (none
    /// means the clipboard is unavailable and the paste quietly does
    /// nothing).
    pub fn handle_event(
        &mut self,
        context: &mut AppContext,
        event: InputEvent,
        clipboard: Option<String>,
    ) -> (r: EditAction)
        ensures
            ({
                // the returned action, forced both ways
                let c = old(self).current;
                let b1 = strip_buf(buf_view(c));
                if is_ctrl_combo(event, 'x', 'X') || is_ctrl_combo(event, 'c', 'C') {
                    match c.selection {
                        Some(sel) => if sel.start != sel.end {
                            match r {
                                EditAction::SetClipboard(s) => s@ == spec_extract_selection(
                                    b1.lines,
                                    sel.start,
                                    sel.end,
                                ),
                                _ => false,
                            }
                        } else {
                            r == EditAction::Nothing
                        },
                        None => r == EditAction::Nothing,
                    }
                } else if is_ctrl_combo(event, 's', 'S') {
                    match r {
                        EditAction::SaveFile(s) => s@ == buffer_text(
                            replay(
                                old(self).history.initial.lines(),
                                old(self).history.changes.deep_view(),
                                old(self).history.changes@.len() as int,
                            ),
                        ),
                        _ => false,
                    }
                } else {
                    r == EditAction::Nothing
                }
            }),
            ({
                // the buffer the event leaves behind, key by key
                let b1 = strip_buf(buf_view(old(self).current));
                let bf = buf_view(final(self).current);
                if is_ctrl_combo(event, 'x', 'X') {
                    bf == splice_buf(cut_buf(b1))
                } else if is_ctrl_combo(event, 'c', 'C') || is_ctrl_combo(event, 's', 'S') {
                    bf == splice_buf(b1)
                } else if is_ctrl_combo(event, 'v', 'V') {
                    bf == splice_buf(paste_buf(b1, clipboard))
                } else if is_ctrl_combo(event, 'z', 'Z') {
                    bf == splice_buf(
                        replayed_buf(
                            old(self).history,
                            spec_use_previous(old(self).history.version as int),
                        ),
                    )
                } else if is_ctrl_combo(event, 'y', 'Y') {
                    bf == splice_buf(
                        replayed_buf(
                            old(self).history,
                            spec_use_next(
                                old(self).history.version as int,
                                old(self).history.changes@.len() as int,
                            ),
                        ),
                    )
                } else {
                    match event.code {
                        EditorKey::Char(c) => bf == splice_buf(char_buf(b1, c)),
                        EditorKey::Backspace => bf == splice_buf(backspace_buf(b1)),
                        EditorKey::Enter => bf == splice_buf(enter_buf(b1)),
                        EditorKey::Up => bf == splice_buf(
                            arrow_buf(b1, Direction::Up, event.shift),
                        ),
                        EditorKey::Down => bf == splice_buf(
                            arrow_buf(b1, Direction::Down, event.shift),
                        ),
                        EditorKey::Left => bf == splice_buf(
                            arrow_buf(b1, Direction::Left, event.shift),
                        ),
                        EditorKey::Right => bf == splice_buf(
                            arrow_buf(b1, Direction::Right, event.shift),
                        ),
                        _ => bf == splice_buf(b1),
                    }
                }
            }),
            (event.kind == InputKind::Press && event.code == EditorKey::Esc) ==> *final(context)
                == (AppContext { focus: None, hover: ComponentType::Code, ..*old(context) }),
            !(event.kind == InputKind::Press && event.code == EditorKey::Esc)
                ==> *final(context) == *old(context),
            is_ctrl_combo(event, 'z', 'Z') ==> {
                &&& final(self).history.changes == old(self).history.changes
                &&& final(self).history.initial == old(self).history.initial
                &&& final(self).history.version as int == spec_use_previous(
                    old(self).history.version as int,
                )
            },
            is_ctrl_combo(event, 'y', 'Y') ==> {
                &&& final(self).history.changes == old(self).history.changes
                &&& final(self).history.initial == old(self).history.initial
                &&& final(self).history.version as int == spec_use_next(
                    old(self).history.version as int,
                    old(self).history.changes@.len() as int,
                )
            },
            is_ctrl_combo(event, 's', 'S') ==> {
                &&& final(self).history.changes == old(self).history.changes
                &&& final(self).history.initial == old(self).history.initial
                &&& final(self).history.version == old(self).history.changes@.len()
            },
            !(is_ctrl_combo(event, 's', 'S') || is_ctrl_combo(event, 'z', 'Z') || is_ctrl_combo(
                event,
                'y',
                'Y',
            )) ==> final(self).history == old(self).history,
    {
        let ghost b0 = buf_view(self.current);
        self.current.remove_cursor();
        let ghost b1 = buf_view(self.current);
        proof {
            assert(b1 =~~= strip_buf(b0));
        }
        let mut action = EditAction::Nothing;
        if matches!(event.kind, InputKind::Press) {
            match event.code {
                EditorKey::Char(c) => {
                    if (c == 'x' || c == 'X') && event.control {
                        action = match handle_cut(self) {
                            Some(s) => EditAction::SetClipboard(s),
                            None => EditAction::Nothing,
                        };
                        proof {
                            assert(buf_view(self.current) =~~= cut_buf(b1));
                        }
                    } else if (c == 'c' || c == 'C') && event.control {
                        action = match handle_copy(self) {
                            Some(s) => EditAction::SetClipboard(s),
                            None => EditAction::Nothing,
                        };
                        proof {
                            assert(buf_view(self.current) =~~= b1);
                        }
                    } else if (c == 'v' || c == 'V') && event.control {
                        if let Some(text) = clipboard {
                            handle_paste(self, text.as_str());
                        }
                        proof {
                            assert(buf_view(self.current) =~~= paste_buf(b1, clipboard));
                        }
                    } else if (c == 's' || c == 'S') && event.control {
                        action = EditAction::SaveFile(handle_save(self));
                        proof {
                            assert(buf_view(self.current) =~~= b1);
                        }
                    } else if (c == 'z' || c == 'Z') && event.control {
                        handle_undo(self);
                        proof {
                            assert(buf_view(self.current) =~~= replayed_buf(
                                old(self).history,
                                spec_use_previous(old(self).history.version as int),
                            ));
                        }
                    } else if (c == 'y' || c == 'Y') && event.control {
                        handle_redo(self);
                        proof {
                            assert(buf_view(self.current) =~~= replayed_buf(
                                old(self).history,
                                spec_use_next(
                                    old(self).history.version as int,
                                    old(self).history.changes@.len() as int,
                                ),
                            ));
                        }
                    } else {
                        handle_char(self, c);
                        proof {
                            lemma_strip_buf_idempotent(b0);
                            assert(buf_view(self.current) =~~= splice_buf(char_buf(b1, c)));
                            lemma_splice_buf_idempotent(char_buf(b1, c));
                        }
                    }
                },
                EditorKey::Backspace => {
                    handle_delete(self);
                    proof {
                        assert(buf_view(self.current) =~~= backspace_buf(b1));
                    }
                },
                EditorKey::Enter => {
                    handle_enter(self);
                    proof {
                        assert(buf_view(self.current) =~~= enter_buf(b1));
                    }
                },
                EditorKey::Up => {
                    handle_up(self, &event);
                    proof {
                        assert(buf_view(self.current) =~~= arrow_buf(
                            b1,
                            Direction::Up,
                            event.shift,
                        ));
                    }
                },
                EditorKey::Down => {
                    handle_down(self, &event);
                    proof {
                        assert(buf_view(self.current) =~~= arrow_buf(
                            b1,
                            Direction::Down,
                            event.shift,
                        ));
                    }
                },
                EditorKey::Left => {
                    handle_left(self, &event);
                    proof {
                        assert(buf_view(self.current) =~~= arrow_buf(
                            b1,
                            Direction::Left,
                            event.shift,
                        ));
                    }
                },
                EditorKey::Right => {
                    handle_right(self, &event);
                    proof {
                        assert(buf_view(self.current) =~~= arrow_buf(
                            b1,
                            Direction::Right,
                            event.shift,
                        ));
                    }
                },
                EditorKey::Esc => {
                    context.set_focus(None);
                    context.set_hover(ComponentType::Code);
                },
                _ => {},
            }
        } else {
            match event.code {
                EditorKey::Char(c) => {
                    handle_char(self, c);
                    proof {
                        lemma_strip_buf_idempotent(b0);
                        assert(buf_view(self.current) =~~= splice_buf(char_buf(b1, c)));
                        lemma_splice_buf_idempotent(char_buf(b1, c));
                    }
                },
                EditorKey::Backspace => {
                    handle_delete(self);
                    proof {
                        assert(buf_view(self.current) =~~= backspace_buf(b1));
                    }
                },
                EditorKey::Enter => {
                    handle_enter(self);
                    proof {
                        assert(buf_view(self.current) =~~= enter_buf(b1));
                    }
                },
                EditorKey::Up => {
                    handle_up(self, &event);
                    proof {
                        assert(buf_view(self.current) =~~= arrow_buf(
                            b1,
                            Direction::Up,
                            event.shift,
                        ));
                    }
                },
                EditorKey::Down => {
                    handle_down(self, &event);
                    proof {
                        assert(buf_view(self.current) =~~= arrow_buf(
                            b1,
                            Direction::Down,
                            event.shift,
                        ));
                    }
                },
                EditorKey::Left => {
                    handle_left(self, &event);
                    proof {
                        assert(buf_view(self.current) =~~= arrow_buf(
                            b1,
                            Direction::Left,
                            event.shift,
                        ));
                    }
                },
                EditorKey::Right => {
                    handle_right(self, &event);
                    proof {
                        assert(buf_view(self.current) =~~= arrow_buf(
                            b1,
                            Direction::Right,
                            event.shift,
                        ));
                    }
                },
                _ => {},
            }
        }
        let ghost bmid = buf_view(self.current);
        self.current.set_cursor();
        proof {
            assert(buf_view(self.current) =~~= splice_buf(bmid));
        }
        action
    }
}

/// What `remove_cursor` leaves behind, as a function of the buffer's
/// lines, the cursor, and whether the marker is shown: the new lines and
/// the new marker flag.
pub open spec fn marker_stripped(
    lines: Seq<LineModel>,
    cursor: crate::point::Point,
    displayed: bool,
) -> (Seq<LineModel>, bool) {
    let i = crate::model::first_index_with(lines, cursor.x as int);
    if displayed && i >= 0 && (cursor.y as int) < lines[i].text.len() {
        (
            lines.update(
                i,
                LineModel {
                    number: lines[i].number,
                    text: crate::textops::seq_remove_at(lines[i].text, cursor.y as int),
                },
            ),
            false,
        )
    } else {
        (lines, displayed)
    }
}

/// What `set_cursor` leaves behind, as a function of the buffer's lines,
/// the cursor, and whether the marker is already shown: the new lines and
/// the new marker flag.
pub open spec fn marker_spliced(
    lines: Seq<LineModel>,
    cursor: crate::point::Point,
    displayed: bool,
) -> (Seq<LineModel>, bool) {
    let i = crate::model::first_index_with(lines, cursor.x as int);
    if !displayed && i >= 0 && cursor.y as int <= lines[i].text.len() {
        (
            lines.update(
                i,
                LineModel {
                    number: lines[i].number,
                    text: crate::textops::seq_insert_at(
                        lines[i].text,
                        cursor.y as int,
                        crate::code::CURSOR_MARKER,
                    ),
                },
            ),
            true,
        )
    } else {
        (lines, displayed)
    }
}

} // verus!
