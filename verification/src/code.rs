//! The line-based text buffer: an ordered collection of numbered lines, a
//! live cursor, a visual cursor marker, and an optional active selection.

use vstd::prelude::*;

verus! {

use vstd::string::StrSliceExecFns;
use vstd::string::StringExecFns;
use crate::point::Point;
use crate::selection::CodeSelection;
use crate::model::LineModel;
use crate::model::first_index_with;
use crate::model::lemma_first_index_with_props;
use crate::model::lemma_first_index_with_found;
use crate::model::lemma_first_index_with_none;
use crate::model::spec_change_line;
use crate::model::spec_remove_line;
use crate::model::spec_set_line_number;
use crate::model::remove_all_with;
use crate::model::lines_wf;
use crate::model::text_of;
use crate::model::len_of;
use crate::model::first_row_empties;
use crate::model::delete_span_lines;
use crate::model::spec_delete_selection;
use crate::model::spec_extract_selection;
use crate::model::extract_row;
use crate::model::extract_rows;
use crate::model::buffer_text;
use crate::model::shift_down_after;
use crate::model::shift_up_after;
use crate::model::max_number;
use crate::model::max_of;
use crate::point::normalize_points;
use crate::point::point_le;
use crate::textops::join_newlines;
use crate::textops::seq_insert_at;
use crate::textops::seq_remove_at;
use crate::textops::insert_char_at;
use crate::textops::remove_char_at;
use crate::textops::substring_clamped;
use crate::textops::join_newlines_exec;
use crate::textops::lemma_insert_then_remove;
use crate::textops::replace_all;
use crate::textops::spec_replace_all;

/// The character spliced into a line to show the cursor position.
pub const CURSOR_MARKER: char = '|';

/// A numbered, mutable line of text: the atomic storage unit of the buffer.
#[derive(Debug, PartialEq, Eq)]
pub struct Line {
    pub number: usize,
    pub line: String,
}

impl View for Line {
    type V = LineModel;

    open spec fn view(&self) -> LineModel {
        LineModel { number: self.number as int, text: self.line@ }
    }
}

impl DeepView for Line {
    type V = LineModel;

    open spec fn deep_view(&self) -> LineModel {
        self@
    }
}

impl Clone for Line {
    fn clone(&self) -> (r: Line)
        ensures
            r == *self,
    {
        Line { number: self.number, line: self.line.clone() }
    }
}

impl Line {
    pub fn new(number: usize, line: String) -> (r: Line)
        ensures
            r@ == (LineModel { number: number as int, text: line@ }),
            r.number == number,
            r.line == line,
    {
        Line { number, line }
    }

    pub fn set_number(&mut self, number: usize)
        ensures
            final(self)@ == (LineModel { number: number as int, text: old(self)@.text }),
    {
        self.number = number;
    }

    pub fn get_number(&self) -> (r: usize)
        ensures
            r == self.number,
    {
        self.number
    }

    pub fn set_string(&mut self, line: String)
        ensures
            final(self)@ == (LineModel { number: old(self)@.number, text: line@ }),
    {
        self.line = line;
    }

    pub fn get_string(&self) -> (r: String)
        ensures
            r == self.line,
    {
        self.line.clone()
    }
}

/// The buffer: numbered lines, the cursor, whether the visual cursor marker
/// is currently spliced into the cursor's line, and the active selection.
#[derive(Debug, PartialEq, Eq)]
pub struct Code {
    pub content: Vec<Line>,
    pub cursor_displayed: bool,
    pub cursor: Point,
    pub selection: Option<CodeSelection>,
}

impl Clone for Code {
    fn clone(&self) -> (r: Code)
        ensures
            r.lines() == self.lines(),
            r.cursor == self.cursor,
            r.cursor_displayed == self.cursor_displayed,
            r.selection == self.selection,
    {
        let content = self.content.clone();
        proof {
            assert forall|i: int| 0 <= i < content@.len() implies #[trigger] content@[i]
                == self.content@[i] by {
                assert(vstd::pervasive::cloned::<Line>(self.content@[i], content@[i]));
            }
            assert(content.deep_view() =~= self.lines());
        }
        Code {
            content,
            cursor_displayed: self.cursor_displayed,
            cursor: self.cursor,
            selection: self.selection,
        }
    }
}

impl Code {
    /// The mathematical content of the buffer: each line's number and text.
    pub open spec fn lines(&self) -> Seq<LineModel> {
        self.content.deep_view()
    }

    /// Line numbers are exactly 0, 1, 2, ...: contiguous, ascending, no
    /// duplicates and no gaps.
    pub open spec fn wf(&self) -> bool {
        lines_wf(self.lines())
    }

    /// The cursor addresses an existing line (unless the buffer is empty)
    /// and a column within that line's text.
    pub open spec fn cursor_in_bounds(&self) -> bool {
        self.lines().len() > 0 ==> {
            &&& (self.cursor.x as int) < self.lines().len()
            &&& self.cursor.y as int <= self.lines()[self.cursor.x as int].text.len()
        }
    }

    pub fn new() -> (r: Code)
        ensures
            r.lines() =~= Seq::<LineModel>::empty(),
            r.cursor == (Point { x: 0, y: 0 }),
            r.cursor_displayed == false,
            r.selection is None,
    {
        Code { content: Vec::new(), cursor_displayed: false, cursor: Point::new(0, 0), selection: None }
    }

    pub fn get_cursor(&self) -> (r: &Point)
        ensures
            *r == self.cursor,
    {
        &self.cursor
    }

    pub fn get_mut_cursor(&mut self) -> (r: &mut Point)
        ensures
            *r == old(self).cursor,
            *final(self) == (Code { cursor: *final(r), ..*old(self) }),
    {
        &mut self.cursor
    }

    /// Empties the buffer; cursor, marker flag and selection stay as they are.
    pub fn flush(&mut self)
        ensures
            final(self).lines() =~= Seq::<LineModel>::empty(),
            final(self).cursor == old(self).cursor,
            final(self).cursor_displayed == old(self).cursor_displayed,
            final(self).selection == old(self).selection,
    {
        self.content.clear()
    }

    pub fn is_cursor_displayed(&self) -> (r: bool)
        ensures
            r == self.cursor_displayed,
    {
        self.cursor_displayed
    }

    /// The index of the first line with logical number `number`, if any.
    pub fn find_index(&self, number: usize) -> (r: Option<usize>)
        ensures
            match r {
                Some(i) => {
                    &&& i as int == first_index_with(self.lines(), number as int)
                    &&& i < self.content.len()
                    &&& self.lines()[i as int].number == number as int
                },
                None => first_index_with(self.lines(), number as int) < 0,
            },
    {
        let n = self.content.len();
        let mut i: usize = 0;
        while i < n
            invariant
                i <= n,
                n == self.content.len(),
                forall|j: int| 0 <= j < i ==> self.lines()[j].number != number as int,
            decreases n - i,
        {
            if self.content[i].number == number {
                proof {
                    lemma_first_index_with_found(self.lines(), number as int, i as int);
                }
                return Some(i);
            }
            i = i + 1;
        }
        proof {
            lemma_first_index_with_none(self.lines(), number as int);
        }
        None
    }

    /// Deletes the line with that number; a no-op when absent. Following
    /// lines are not renumbered: callers keep numbers contiguous themselves.
    pub fn remove_line(&mut self, number: usize)
        ensures
            final(self).lines() == spec_remove_line(old(self).lines(), number as int),
            final(self).cursor == old(self).cursor,
            final(self).cursor_displayed == old(self).cursor_displayed,
            final(self).selection == old(self).selection,
    {
        if let Some(i) = self.find_index(number) {
            self.content.remove(i);
            proof {
                assert(self.lines() =~= old(self).lines().remove(i as int));
            }
        }
    }

    /// Removes every line whose number equals the cursor's row.
    pub fn remove_line_at_cursor(&mut self)
        ensures
            final(self).lines() == remove_all_with(old(self).lines(), old(self).cursor.x as int),
            final(self).cursor == old(self).cursor,
            final(self).cursor_displayed == old(self).cursor_displayed,
            final(self).selection == old(self).selection,
    {
        let row = self.cursor.get_x();
        let n = self.content.len();
        let mut kept: Vec<Line> = Vec::new();
        let mut i: usize = 0;
        proof {
            assert(self.lines().subrange(0, n as int) =~= self.lines());
            assert(kept.deep_view() + remove_all_with(self.lines(), row as int)
                =~= remove_all_with(self.lines(), row as int));
        }
        while i < n
            invariant
                i <= n,
                n == self.content.len(),
                row == self.cursor.x,
                kept.deep_view() + remove_all_with(
                    self.lines().subrange(i as int, n as int),
                    row as int,
                ) =~= remove_all_with(self.lines(), row as int),
            decreases n - i,
        {
            let ghost rest = self.lines().subrange(i as int, n as int);
            proof {
                assert(rest[0] == self.lines()[i as int]);
                assert(rest.drop_first() =~= self.lines().subrange(i as int + 1, n as int));
            }
            if self.content[i].number != row {
                kept.push(self.content[i].clone());
            }
            i = i + 1;
        }
        proof {
            assert(self.lines().subrange(0, n as int) =~= self.lines());
            assert(self.lines().subrange(n as int, n as int) =~= Seq::<LineModel>::empty());
        }
        self.content = kept;
        proof {
            assert(self.lines() =~= remove_all_with(old(self).lines(), row as int));
        }
    }

    /// Substring replace within one line: every occurrence of `from` in
    /// the text of the line with that number becomes `to`, left to right
    /// and without overlap. A no-op when the line is absent or `from` does
    /// not occur.
    pub fn replace_line(&mut self, number: usize, from: String, to: String)
        ensures
            final(self).lines() == spec_change_line(
                old(self).lines(),
                number as int,
                spec_replace_all(text_of(old(self).lines(), number as int), from@, to@),
            ),
            final(self).cursor == old(self).cursor,
            final(self).cursor_displayed == old(self).cursor_displayed,
            final(self).selection == old(self).selection,
    {
        let found = match self.find_index(number) {
            Some(i) => Some(self.content[i].get_string()),
            None => None,
        };
        if let Some(text) = found {
            let replaced = replace_all(text.as_str(), from.as_str(), to.as_str());
            self.change_line(number, replaced);
        }
    }

    /// Replaces the text of the first line with that number; a no-op when
    /// absent.
    pub fn change_line(&mut self, number: usize, new_value: String)
        ensures
            final(self).lines() == spec_change_line(old(self).lines(), number as int, new_value@),
            final(self).cursor == old(self).cursor,
            final(self).cursor_displayed == old(self).cursor_displayed,
            final(self).selection == old(self).selection,
    {
        if let Some(i) = self.find_index(number) {
            let num = self.content[i].get_number();
            self.content.set(i, Line::new(num, new_value));
            proof {
                assert(self.lines() =~= spec_change_line(
                    old(self).lines(),
                    number as int,
                    new_value@,
                ));
            }
        }
    }

    /// Replaces the text of the line at the cursor's row; a no-op when the
    /// row is absent.
    pub fn change_line_at_cursor(&mut self, new_value: String)
        ensures
            final(self).lines() == spec_change_line(
                old(self).lines(),
                old(self).cursor.x as int,
                new_value@,
            ),
            final(self).cursor == old(self).cursor,
            final(self).cursor_displayed == old(self).cursor_displayed,
            final(self).selection == old(self).selection,
    {
        let row = self.cursor.get_x();
        self.change_line(row, new_value);
    }

    /// Appends a line at the end of the buffer. No renumbering happens here:
    /// callers keep numbers contiguous.
    pub fn add_line(&mut self, line: Line)
        ensures
            final(self).lines() == old(self).lines().push(line@),
            final(self).cursor == old(self).cursor,
            final(self).cursor_displayed == old(self).cursor_displayed,
            final(self).selection == old(self).selection,
    {
        self.content.push(line);
        proof {
            assert(self.lines() =~= old(self).lines().push(self.content@.last()@));
        }
    }

    /// The first line with that number, if any.
    pub fn get_line(&self, number: usize) -> (r: Option<&Line>)
        ensures
            match r {
                Some(l) => {
                    &&& first_index_with(self.lines(), number as int) >= 0
                    &&& l@ == self.lines()[first_index_with(self.lines(), number as int)]
                    &&& l@.number == number as int
                },
                None => first_index_with(self.lines(), number as int) < 0,
            },
    {
        proof {
            lemma_first_index_with_props(self.lines(), number as int);
        }
        match self.find_index(number) {
            Some(i) => Some(&self.content[i]),
            None => None,
        }
    }

    /// Gives the first line with number `old_number` the number
    /// `new_number`; a no-op when absent.
    pub fn set_line_number(&mut self, old_number: usize, new_number: usize)
        ensures
            final(self).lines() == spec_set_line_number(
                old(self).lines(),
                old_number as int,
                new_number as int,
            ),
            final(self).cursor == old(self).cursor,
            final(self).cursor_displayed == old(self).cursor_displayed,
            final(self).selection == old(self).selection,
    {
        if let Some(i) = self.find_index(old_number) {
            let text = self.content[i].get_string();
            self.content.set(i, Line::new(new_number, text));
            proof {
                assert(self.lines() =~= spec_set_line_number(
                    old(self).lines(),
                    old_number as int,
                    new_number as int,
                ));
            }
        }
    }

    pub fn get_content(&self) -> (r: &Vec<Line>)
        ensures
            *r == self.content,
    {
        &self.content
    }

    /// Direct mutable access to the stored lines, for callers that edit in
    /// bulk; such callers keep the numbering contiguous themselves.
    pub fn get_mut_content(&mut self) -> (r: &mut Vec<Line>)
        ensures
            *r == old(self).content,
            *final(self) == (Code { content: *final(r), ..*old(self) }),
    {
        &mut self.content
    }

    /// Splices the visual cursor marker into the cursor's line. A no-op if
    /// the marker is already shown, if the cursor's row is absent, or if the
    /// cursor's column lies past the end of the line.
    pub fn set_cursor(&mut self)
        ensures
            ({
                let lines = old(self).lines();
                let i = first_index_with(lines, old(self).cursor.x as int);
                if !old(self).cursor_displayed && i >= 0 && old(self).cursor.y as int
                    <= lines[i].text.len() {
                    &&& final(self).lines() == lines.update(
                        i,
                        LineModel {
                            number: lines[i].number,
                            text: seq_insert_at(
                                lines[i].text,
                                old(self).cursor.y as int,
                                CURSOR_MARKER,
                            ),
                        },
                    )
                    &&& final(self).cursor_displayed == true
                } else {
                    *final(self) == *old(self)
                }
            }),
            final(self).cursor == old(self).cursor,
            final(self).selection == old(self).selection,
    {
        if self.cursor_displayed {
            return ;
        }
        let row = self.cursor.get_x();
        let col = self.cursor.get_y();
        if let Some(i) = self.find_index(row) {
            let len = self.content[i].line.as_str().unicode_len();
            if col <= len {
                let text = insert_char_at(self.content[i].line.as_str(), col, CURSOR_MARKER);
                self.content.set(i, Line::new(row, text));
                self.cursor_displayed = true;
                proof {
                    lemma_first_index_with_props(old(self).lines(), row as int);
                    assert(old(self).lines()[i as int].number == row as int);
                    assert(self.lines() =~= old(self).lines().update(
                        i as int,
                        LineModel {
                            number: old(self).lines()[i as int].number,
                            text: seq_insert_at(
                                old(self).lines()[i as int].text,
                                col as int,
                                CURSOR_MARKER,
                            ),
                        },
                    ));
                }
            }
        }
    }

    /// Removes the visual cursor marker from the cursor's line: the inverse
    /// of `set_cursor`. A no-op if the marker is not shown, if the cursor's
    /// row is absent, or if the cursor's column lies past the end.
    pub fn remove_cursor(&mut self)
        ensures
            ({
                let lines = old(self).lines();
                let i = first_index_with(lines, old(self).cursor.x as int);
                if old(self).cursor_displayed && i >= 0 && (old(self).cursor.y as int) < lines[
                    i
                ].text.len() {
                    &&& final(self).lines() == lines.update(
                        i,
                        LineModel {
                            number: lines[i].number,
                            text: seq_remove_at(lines[i].text, old(self).cursor.y as int),
                        },
                    )
                    &&& final(self).cursor_displayed == false
                } else {
                    *final(self) == *old(self)
                }
            }),
            final(self).cursor == old(self).cursor,
            final(self).selection == old(self).selection,
    {
        if !self.cursor_displayed {
            return ;
        }
        let row = self.cursor.get_x();
        let col = self.cursor.get_y();
        if let Some(i) = self.find_index(row) {
            let len = self.content[i].line.as_str().unicode_len();
            if col < len {
                let text = remove_char_at(self.content[i].line.as_str(), col);
                self.content.set(i, Line::new(row, text));
                self.cursor_displayed = false;
                proof {
                    lemma_first_index_with_props(old(self).lines(), row as int);
                    assert(self.lines() =~= old(self).lines().update(
                        i as int,
                        LineModel {
                            number: old(self).lines()[i as int].number,
                            text: seq_remove_at(old(self).lines()[i as int].text, col as int),
                        },
                    ));
                }
            }
        }
    }

    /// Drops the active selection, if any.
    pub fn flush_selection(&mut self)
        ensures
            *final(self) == (Code { selection: None, ..*old(self) }),
    {
        self.selection = None;
    }

    /// Moves the active selection's start; a no-op without a selection.
    pub fn set_selection_start(&mut self, start: Point)
        ensures
            match old(self).selection {
                Some(sel) => *final(self) == (Code {
                    selection: Some(CodeSelection { start, end: sel.end }),
                    ..*old(self)
                }),
                None => *final(self) == *old(self),
            },
    {
        if let Some(selection) = &mut self.selection {
            selection.set_start(start);
        }
    }

    /// Moves the active selection's end; a no-op without a selection.
    pub fn set_selection_end(&mut self, end: Point)
        ensures
            match old(self).selection {
                Some(sel) => *final(self) == (Code {
                    selection: Some(CodeSelection { start: sel.start, end }),
                    ..*old(self)
                }),
                None => *final(self) == *old(self),
            },
    {
        if let Some(selection) = &mut self.selection {
            selection.set_end(end);
        }
    }

    /// Starts a selection between the two points.
    pub fn create_selection(&mut self, start: Point, end: Point)
        ensures
            *final(self) == (Code {
                selection: Some(CodeSelection { start, end }),
                ..*old(self)
            }),
    {
        self.selection = Some(CodeSelection::new(start, end));
    }

    pub fn get_selection(&self) -> (r: &Option<CodeSelection>)
        ensures
            *r == self.selection,
    {
        &self.selection
    }

    /// The text of the line with that number; empty when absent.
    fn text_of_line(&self, number: usize) -> (r: String)
        ensures
            r@ == text_of(self.lines(), number as int),
    {
        match self.find_index(number) {
            Some(i) => self.content[i].get_string(),
            None => String::new(),
        }
    }

    /// The length, in characters, of the line with that number; 0 when
    /// absent.
    pub fn line_len(&self, number: usize) -> (r: usize)
        ensures
            r as int == len_of(self.lines(), number as int),
    {
        match self.find_index(number) {
            Some(i) => self.content[i].line.as_str().unicode_len(),
            None => 0,
        }
    }

    /// The text the active selection encloses, its ends taken in reading
    /// order; `None` without a selection.
    pub fn extract_selection(&self) -> (r: Option<String>)
        ensures
            match self.selection {
                Some(sel) => match r {
                    Some(text) => text@ == spec_extract_selection(
                        self.lines(),
                        sel.start,
                        sel.end,
                    ),
                    None => false,
                },
                None => r is None,
            },
    {
        let sel = match &self.selection {
            Some(s) => *s,
            None => { return None },
        };
        let (s, e) = normalize_points(sel.start, sel.end);
        if s.get_x() == e.get_x() {
            proof {
                assert(point_le(s, e));
            }
            let t = self.text_of_line(s.get_x());
            Some(substring_clamped(t.as_str(), s.get_y(), e.get_y()))
        } else {
            let mut rows: Vec<String> = Vec::new();
            let mut row = s.get_x();
            proof {
                assert(rows.deep_view() =~~= extract_rows(self.lines(), s, e).subrange(0, 0));
            }
            loop
                invariant_except_break
                    s.x <= row <= e.x,
                    s.x < e.x,
                    rows.deep_view() =~~= extract_rows(self.lines(), s, e).subrange(
                        0,
                        row - s.x,
                    ),
                ensures
                    rows.deep_view() =~~= extract_rows(self.lines(), s, e),
                decreases e.x - row,
            {
                let t = self.text_of_line(row);
                let len = t.as_str().unicode_len();
                let piece: String = if row == s.get_x() {
                    let f = if s.get_y() <= len {
                        s.get_y()
                    } else {
                        len
                    };
                    substring_clamped(t.as_str(), f, len)
                } else if row == e.get_x() {
                    substring_clamped(t.as_str(), 0, e.get_y())
                } else {
                    t
                };
                proof {
                    assert(piece@ =~= extract_row(self.lines(), s, e, row as int));
                }
                let ghost pre = rows.deep_view();
                let ghost pre_raw = rows@;
                let ghost piece_text = piece@;
                rows.push(piece);
                proof {
                    assert(rows@ == pre_raw.push(piece));
                    assert forall|j: int| 0 <= j < rows@.len() implies #[trigger] rows.deep_view()[j]
                        == pre.push(piece_text)[j] by {
                        if j < pre_raw.len() {
                            assert(pre_raw.push(piece)[j] == pre_raw[j]);
                            assert(rows.deep_view()[j] == pre_raw[j]@);
                        }
                    }
                    assert(rows.deep_view() =~= pre.push(piece_text));
                    assert(pre.push(piece_text) =~~= extract_rows(self.lines(), s, e).subrange(
                        0,
                        row - s.x + 1,
                    ));
                    assert(rows.deep_view() =~~= extract_rows(self.lines(), s, e).subrange(
                        0,
                        row - s.x + 1,
                    ));
                }
                if row == e.get_x() {
                    proof {
                        assert(extract_rows(self.lines(), s, e).subrange(
                            0,
                            row - s.x + 1,
                        ) =~~= extract_rows(self.lines(), s, e));
                    }
                    break ;
                }
                row = row + 1;
            }
            let r = join_newlines_exec(&rows);
            proof {
                assert(r@ == join_newlines(extract_rows(self.lines(), s, e)));
            }
            Some(r)
        }
    }

    /// Removes the selected span, the selection's ends taken in reading
    /// order; a no-op without a selection. With both ends on one row the
    /// whole row is deleted, whatever the columns. Across rows, the first
    /// row keeps what stood before the selection (and goes entirely when
    /// that is empty), rows strictly inside go, and the last row keeps what
    /// stood after the selection, renumbered to follow the first row
    /// directly. Rows after the span are not renumbered.
    pub fn delete_selection(&mut self)
        ensures
            match old(self).selection {
                Some(sel) => {
                    &&& final(self).lines() == spec_delete_selection(
                        old(self).lines(),
                        sel.start,
                        sel.end,
                    )
                    &&& final(self).cursor == old(self).cursor
                    &&& final(self).cursor_displayed == old(self).cursor_displayed
                    &&& final(self).selection == old(self).selection
                },
                None => *final(self) == *old(self),
            },
    {
        let sel = match &self.selection {
            Some(s) => *s,
            None => { return },
        };
        let (s, e) = normalize_points(sel.start, sel.end);
        if s.get_x() == e.get_x() {
            self.remove_line(s.get_x());
            return ;
        }
        let first_empty = match self.find_index(s.get_x()) {
            Some(i) => s.get_y() == 0 || self.content[i].line.as_str().unicode_len() == 0,
            None => true,
        };
        proof {
            assert(first_empty == first_row_empties(self.lines(), s));
        }
        let n = self.content.len();
        let mut kept: Vec<Line> = Vec::new();
        let mut i: usize = 0;
        proof {
            assert(self.lines().subrange(0, n as int) =~= self.lines());
            assert(kept.deep_view() + delete_span_lines(self.lines(), s, e, first_empty)
                =~= delete_span_lines(self.lines(), s, e, first_empty));
        }
        while i < n
            invariant
                i <= n,
                n == self.content.len(),
                s.x < e.x,
                first_empty == first_row_empties(self.lines(), s),
                kept.deep_view() + delete_span_lines(
                    self.lines().subrange(i as int, n as int),
                    s,
                    e,
                    first_empty,
                ) =~= delete_span_lines(self.lines(), s, e, first_empty),
            decreases n - i,
        {
            let ghost rest = self.lines().subrange(i as int, n as int);
            proof {
                assert(rest[0] == self.lines()[i as int]);
                assert(rest.drop_first() =~= self.lines().subrange(i as int + 1, n as int));
            }
            let l = &self.content[i];
            let num = l.get_number();
            if num < s.get_x() || num > e.get_x() {
                let c = self.content[i].clone();
                kept.push(c);
            } else if num == s.get_x() {
                let text = l.get_string();
                let keep = substring_clamped(text.as_str(), 0, s.get_y());
                if !keep.as_str().is_empty() {
                    kept.push(Line::new(num, keep));
                }
            } else if num < e.get_x() {
                // a row strictly inside the span: dropped
            } else {
                let text = l.get_string();
                let len = text.as_str().unicode_len();
                let f = if e.get_y() <= len {
                    e.get_y()
                } else {
                    len
                };
                let keep = substring_clamped(text.as_str(), f, len);
                if !keep.as_str().is_empty() {
                    let new_num = if first_empty {
                        s.get_x()
                    } else {
                        s.get_x() + 1
                    };
                    kept.push(Line::new(new_num, keep));
                }
            }
            i = i + 1;
        }
        proof {
            assert(self.lines().subrange(n as int, n as int) =~= Seq::<LineModel>::empty());
        }
        self.content = kept;
        proof {
            assert(self.lines() =~= delete_span_lines(old(self).lines(), s, e, first_empty));
        }
    }

    /// Renumbers after a removal: every line with a number above `n` steps
    /// down by one.
    pub fn shift_numbers_down_after(&mut self, n: usize)
        ensures
            final(self).lines() == shift_down_after(old(self).lines(), n as int),
            final(self).cursor == old(self).cursor,
            final(self).cursor_displayed == old(self).cursor_displayed,
            final(self).selection == old(self).selection,
    {
        let len = self.content.len();
        let mut out: Vec<Line> = Vec::new();
        let mut idx: usize = 0;
        while idx < len
            invariant
                idx <= len,
                len == self.content.len(),
                out.deep_view() =~~= shift_down_after(self.lines(), n as int).subrange(
                    0,
                    idx as int,
                ),
            decreases len - idx,
        {
            let num = self.content[idx].get_number();
            let item: Line = if num > n {
                let text = self.content[idx].get_string();
                Line::new(num - 1, text)
            } else {
                self.content[idx].clone()
            };
            let ghost itemv = item@;
            proof {
                assert(itemv == shift_down_after(self.lines(), n as int)[idx as int]);
            }
            let ghost pre = out.deep_view();
            let ghost pre_raw = out@;
            out.push(item);
            proof {
                assert forall|j: int| 0 <= j < out@.len() implies #[trigger] out.deep_view()[j]
                    == pre.push(itemv)[j] by {
                    if j < pre_raw.len() {
                        assert(pre_raw.push(out@[out@.len() - 1])[j] == pre_raw[j]);
                        assert(out.deep_view()[j] == pre_raw[j]@);
                    }
                }
                assert(out.deep_view() =~~= pre.push(itemv));
                assert(out.deep_view() =~~= shift_down_after(self.lines(), n as int).subrange(
                    0,
                    idx as int + 1,
                ));
            }
            idx = idx + 1;
        }
        proof {
            assert(shift_down_after(self.lines(), n as int).subrange(0, len as int)
                =~~= shift_down_after(self.lines(), n as int));
        }
        self.content = out;
    }

    /// Renumbers before an insertion: every line with a number above `n`
    /// steps up by one (numbers at the top of the representable range stay).
    pub fn shift_numbers_up_after(&mut self, n: usize)
        ensures
            final(self).lines() == shift_up_after(
                old(self).lines(),
                n as int,
                usize::MAX as int,
            ),
            final(self).cursor == old(self).cursor,
            final(self).cursor_displayed == old(self).cursor_displayed,
            final(self).selection == old(self).selection,
    {
        let len = self.content.len();
        let mut out: Vec<Line> = Vec::new();
        let mut idx: usize = 0;
        while idx < len
            invariant
                idx <= len,
                len == self.content.len(),
                out.deep_view() =~~= shift_up_after(
                    self.lines(),
                    n as int,
                    usize::MAX as int,
                ).subrange(0, idx as int),
            decreases len - idx,
        {
            let num = self.content[idx].get_number();
            let item: Line = if num > n && num < usize::MAX {
                let text = self.content[idx].get_string();
                Line::new(num + 1, text)
            } else {
                self.content[idx].clone()
            };
            let ghost itemv = item@;
            proof {
                assert(itemv == shift_up_after(self.lines(), n as int, usize::MAX as int)[
                    idx as int
                ]);
            }
            let ghost pre = out.deep_view();
            let ghost pre_raw = out@;
            out.push(item);
            proof {
                assert forall|j: int| 0 <= j < out@.len() implies #[trigger] out.deep_view()[j]
                    == pre.push(itemv)[j] by {
                    if j < pre_raw.len() {
                        assert(pre_raw.push(out@[out@.len() - 1])[j] == pre_raw[j]);
                        assert(out.deep_view()[j] == pre_raw[j]@);
                    }
                }
                assert(out.deep_view() =~~= pre.push(itemv));
                assert(out.deep_view() =~~= shift_up_after(
                    self.lines(),
                    n as int,
                    usize::MAX as int,
                ).subrange(0, idx as int + 1));
            }
            idx = idx + 1;
        }
        proof {
            assert(shift_up_after(self.lines(), n as int, usize::MAX as int).subrange(
                0,
                len as int,
            ) =~~= shift_up_after(self.lines(), n as int, usize::MAX as int));
        }
        self.content = out;
    }

    /// The largest line number present, or `None` for an empty buffer.
    pub fn max_line_number(&self) -> (r: Option<usize>)
        ensures
            match r {
                Some(m) => m as int == max_number(self.lines()) && self.lines().len() > 0,
                None => self.lines().len() == 0,
            },
    {
        let len = self.content.len();
        if len == 0 {
            return None;
        }
        let mut m = self.content[0].get_number();
        let mut idx: usize = 1;
        proof {
            assert(self.lines()[0] == self.lines().subrange(0, len as int)[0]);
            assert(self.lines().drop_first() =~= self.lines().subrange(1, len as int));
        }
        while idx < len
            invariant
                1 <= idx <= len,
                len == self.content.len(),
                len > 0,
                max_of(m as int, max_number(self.lines().subrange(idx as int, len as int)))
                    == max_number(self.lines()),
            decreases len - idx,
        {
            let ghost rest = self.lines().subrange(idx as int, len as int);
            proof {
                assert(rest[0] == self.lines()[idx as int]);
                assert(rest.drop_first() =~= self.lines().subrange(idx as int + 1, len as int));
            }
            let num = self.content[idx].get_number();
            if num > m {
                m = num;
            }
            idx = idx + 1;
        }
        proof {
            assert(self.lines().subrange(len as int, len as int) =~= Seq::<LineModel>::empty());
        }
        Some(m)
    }

    /// The whole buffer as one text: the line texts in order, joined with
    /// newlines.
    pub fn content_text(&self) -> (r: String)
        ensures
            r@ == buffer_text(self.lines()),
    {
        let n = self.content.len();
        let mut texts: Vec<String> = Vec::new();
        let mut i: usize = 0;
        while i < n
            invariant
                i <= n,
                n == self.content.len(),
                texts.deep_view() =~~= Seq::new(i as nat, |j: int| self.lines()[j].text),
            decreases n - i,
        {
            let t = self.content[i].get_string();
            let ghost pre = texts.deep_view();
            let ghost pre_raw = texts@;
            let ghost t_text = t@;
            texts.push(t);
            proof {
                assert forall|j: int| 0 <= j < texts@.len() implies #[trigger] texts.deep_view()[j]
                    == pre.push(t_text)[j] by {
                    if j < pre_raw.len() {
                        assert(pre_raw.push(t)[j] == pre_raw[j]);
                        assert(texts.deep_view()[j] == pre_raw[j]@);
                    }
                }
                assert(texts.deep_view() =~= pre.push(t_text));
                assert(texts.deep_view() =~~= Seq::new(
                    (i + 1) as nat,
                    |j: int| self.lines()[j].text,
                ));
            }
            i = i + 1;
        }
        proof {
            assert(texts.deep_view() =~~= Seq::new(
                self.lines().len(),
                |j: int| self.lines()[j].text,
            ));
        }
        let r = join_newlines_exec(&texts);
        r
    }
}

/// Cursor-marker transparency: splicing the marker character into a line
/// and removing it at the same column, with no mutation in between, leaves
/// every line text exactly as it was. This is the round trip `set_cursor`
/// followed by `remove_cursor` performs on the buffer's lines.
pub proof fn lemma_cursor_marker_transparent(lines: Seq<LineModel>, i: int, col: int, c: char)
    requires
        0 <= i < lines.len(),
        0 <= col <= lines[i].text.len(),
    ensures
        ({
            let shown = lines.update(
                i,
                LineModel {
                    number: lines[i].number,
                    text: seq_insert_at(lines[i].text, col, c),
                },
            );
            let hidden = shown.update(
                i,
                LineModel { number: shown[i].number, text: seq_remove_at(shown[i].text, col) },
            );
            hidden == lines
        }),
{
    lemma_insert_then_remove(lines[i].text, col, c);
    let shown = lines.update(
        i,
        LineModel { number: lines[i].number, text: seq_insert_at(lines[i].text, col, c) },
    );
    let hidden = shown.update(
        i,
        LineModel { number: shown[i].number, text: seq_remove_at(shown[i].text, col) },
    );
    assert(hidden =~~= lines);
}

} // verus!
