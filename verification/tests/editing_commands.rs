use tui_editor::code::{Code, Line};
use tui_editor::component::CodeComponent;
use tui_editor::edit::{
    handle_copy, handle_cut, handle_delete, handle_enter, handle_paste, handle_redo, handle_right,
    handle_save, handle_undo,
};
use tui_editor::history::{Change, CodeHistory};
use tui_editor::input::{EditorKey, InputEvent};
use tui_editor::point::Point;

fn component_with_lines(texts: &[&str]) -> CodeComponent {
    let mut cc = CodeComponent::new();
    for (i, text) in texts.iter().enumerate() {
        cc.get_mut_current().add_line(Line::new(i, text.to_string()));
    }
    cc
}

fn set_cursor_at(cc: &mut CodeComponent, x: usize, y: usize) {
    cc.get_mut_current().get_mut_cursor().set_x(x);
    cc.get_mut_current().get_mut_cursor().set_y(y);
}

fn texts(code: &Code) -> Vec<String> {
    code.get_content().iter().map(|l| l.get_string()).collect()
}

fn numbers(code: &Code) -> Vec<usize> {
    code.get_content().iter().map(|l| l.get_number()).collect()
}

// Pressing Enter in "hello"/"world" at (0,5) splits off an empty line:
// the buffer becomes "hello", "", "world" numbered 0, 1, 2 and the cursor
// lands at the start of the new line.
#[test]
fn enter_splits_line_and_renumbers() {
    let mut cc = component_with_lines(&["hello", "world"]);
    set_cursor_at(&mut cc, 0, 5);
    handle_enter(&mut cc);
    assert_eq!(texts(cc.get_current()), vec!["hello", "", "world"]);
    assert_eq!(numbers(cc.get_current()), vec![0, 1, 2]);
    assert_eq!(cc.get_current().get_cursor(), &Point::new(1, 0));
}

// Split/join inverse: Enter at column 3 of "abcdef" and then Backspace at
// the join boundary restore the single line with its original number, and
// the cursor returns to the split point.
#[test]
fn enter_then_backspace_restores_line() {
    let mut cc = component_with_lines(&["abcdef"]);
    set_cursor_at(&mut cc, 0, 3);
    handle_enter(&mut cc);
    assert_eq!(texts(cc.get_current()), vec!["abc", "def"]);
    assert_eq!(cc.get_current().get_cursor(), &Point::new(1, 0));
    handle_delete(&mut cc);
    assert_eq!(texts(cc.get_current()), vec!["abcdef"]);
    assert_eq!(numbers(cc.get_current()), vec![0]);
    assert_eq!(cc.get_current().get_cursor(), &Point::new(0, 3));
}

// Renumbering invariant: across a whole sequence of Enter and Backspace
// presses the line numbers stay 0, 1, 2, ... with no gaps or duplicates.
#[test]
fn enter_backspace_sequences_keep_numbers_contiguous() {
    let mut cc = component_with_lines(&["alpha", "beta", "gamma"]);
    let moves: &[(usize, usize, bool)] =
        &[(1, 2, true), (2, 0, false), (0, 0, true), (3, 0, false), (2, 5, true)];
    for &(x, y, enter) in moves {
        set_cursor_at(&mut cc, x, y);
        if enter {
            handle_enter(&mut cc);
        } else {
            handle_delete(&mut cc);
        }
        let nums = numbers(cc.get_current());
        let expected: Vec<usize> = (0..nums.len()).collect();
        assert_eq!(nums, expected);
    }
}

// Backspace in the middle of a line removes the character before the
// cursor.
#[test]
fn backspace_removes_character_before_cursor() {
    let mut cc = component_with_lines(&["abc"]);
    set_cursor_at(&mut cc, 0, 2);
    handle_delete(&mut cc);
    assert_eq!(texts(cc.get_current()), vec!["ac"]);
    assert_eq!(cc.get_current().get_cursor(), &Point::new(0, 1));
}

// Shift+Right twice from (0,1) on "abc" selects (0,1)-(0,3); Copy places
// "bc" on the clipboard; Cut returns the same text and leaves only "a".
#[test]
fn shift_right_selection_copy_and_cut() {
    let mut cc = component_with_lines(&["abc"]);
    set_cursor_at(&mut cc, 0, 1);
    let shift_right = InputEvent::shift_press(EditorKey::Right);
    handle_right(&mut cc, &shift_right);
    handle_right(&mut cc, &shift_right);
    let sel = cc.get_current().get_selection().clone().unwrap();
    assert_eq!(sel.get_start(), &Point::new(0, 1));
    assert_eq!(sel.get_end(), &Point::new(0, 3));

    let copied = handle_copy(&mut cc);
    assert_eq!(copied.as_deref(), Some("bc"));
    assert_eq!(texts(cc.get_current()), vec!["abc"]);

    let cut = handle_cut(&mut cc);
    assert_eq!(cut.as_deref(), Some("bc"));
    assert_eq!(texts(cc.get_current()), vec!["a"]);
    assert!(cc.get_current().get_selection().is_none());
}

// Selection normalization: extracting with (start, end) swapped yields the
// same text as the original ordering.
#[test]
fn extraction_ignores_selection_orientation() {
    let mut forward = component_with_lines(&["abc", "def"]);
    forward.get_mut_current().create_selection(Point::new(0, 1), Point::new(1, 2));
    let a = forward.get_current().extract_selection().unwrap();

    let mut backward = component_with_lines(&["abc", "def"]);
    backward.get_mut_current().create_selection(Point::new(1, 2), Point::new(0, 1));
    let b = backward.get_current().extract_selection().unwrap();

    assert_eq!(a, "bc\nde");
    assert_eq!(a, b);
}

// Deleting a multi-row selection keeps the first row's prefix, drops the
// rows strictly inside, and renumbers the last row's suffix to follow.
#[test]
fn delete_selection_spans_rows() {
    let mut cc = component_with_lines(&["alpha", "beta", "gamma"]);
    cc.get_mut_current().create_selection(Point::new(0, 2), Point::new(2, 3));
    cc.get_mut_current().delete_selection();
    assert_eq!(texts(cc.get_current()), vec!["al", "ma"]);
    assert_eq!(numbers(cc.get_current()), vec![0, 1]);
}

// With both selection ends on one row, delete_selection removes the whole
// row whatever the columns.
#[test]
fn delete_selection_same_row_removes_line() {
    let mut cc = component_with_lines(&["alpha", "beta"]);
    cc.get_mut_current().create_selection(Point::new(0, 1), Point::new(0, 3));
    cc.get_mut_current().delete_selection();
    assert_eq!(texts(cc.get_current()), vec!["beta"]);
}

// Cursor-marker transparency: showing and hiding the marker leaves the
// stored text exactly as it was, and the marker is visible in between.
#[test]
fn cursor_marker_round_trip() {
    let mut code = Code::new();
    code.add_line(Line::new(0, "hello".to_string()));
    code.get_mut_cursor().set_x(0);
    code.get_mut_cursor().set_y(2);
    code.set_cursor();
    assert!(code.is_cursor_displayed());
    assert_eq!(code.get_line(0).unwrap().get_string(), "he|llo");
    code.remove_cursor();
    assert!(!code.is_cursor_displayed());
    assert_eq!(code.get_line(0).unwrap().get_string(), "hello");
}

// Showing the marker twice splices it only once.
#[test]
fn set_cursor_is_idempotent() {
    let mut code = Code::new();
    code.add_line(Line::new(0, "hi".to_string()));
    code.set_cursor();
    code.set_cursor();
    assert_eq!(code.get_line(0).unwrap().get_string(), "|hi");
    code.remove_cursor();
    code.remove_cursor();
    assert_eq!(code.get_line(0).unwrap().get_string(), "hi");
}

// History scenario: from initial ["x"], recording the change "x" -> "xy"
// and undoing returns ["x"]; redoing returns ["xy"].
#[test]
fn history_undo_redo_single_change() {
    let mut code = Code::new();
    code.add_line(Line::new(0, "x".to_string()));
    let mut history = CodeHistory::new(code);
    history.add_change(Change::create_change_with_strings(0, "x".to_string(), "xy".to_string()));

    history.use_previous();
    assert_eq!(texts(&history.get_current_code()), vec!["x"]);
    history.use_next();
    assert_eq!(texts(&history.get_current_code()), vec!["xy"]);
}

// Undo/redo round trip over several changes: as many undos as changes give
// back the initial content; as many redos restore the latest.
#[test]
fn history_round_trip_many_changes() {
    let mut cc = component_with_lines(&["a"]);
    cc.history = CodeHistory::new(cc.current.clone());
    cc.history.add_change(Change::create_change_with_strings(0, "a".to_string(), "ab".to_string()));
    cc.history.add_change(Change::create_change_with_strings(0, "ab".to_string(), "abc".to_string()));

    handle_undo(&mut cc);
    handle_undo(&mut cc);
    assert_eq!(texts(cc.get_current()), vec!["a"]);
    handle_redo(&mut cc);
    handle_redo(&mut cc);
    assert_eq!(texts(cc.get_current()), vec!["abc"]);
}

// Save jumps to the newest change and serializes the replayed lines joined
// with newlines.
#[test]
fn save_returns_committed_text() {
    let mut cc = component_with_lines(&["x", "y"]);
    cc.history = CodeHistory::new(cc.current.clone());
    cc.history.add_change(Change::create_change_with_strings(0, "x".to_string(), "xz".to_string()));
    cc.history.use_previous();
    let saved = handle_save(&mut cc);
    assert_eq!(saved, "xz\ny");
    assert_eq!(cc.get_history().version, cc.get_history().get_changes().len());
}

// Paste splits the clipboard text on newlines and appends each piece at
// the end of the buffer, numbered past the current maximum.
#[test]
fn paste_appends_lines_at_end() {
    let mut cc = component_with_lines(&["a"]);
    handle_paste(&mut cc, "x\ny");
    assert_eq!(texts(cc.get_current()), vec!["a", "x", "y"]);
    assert_eq!(numbers(cc.get_current()), vec![0, 1, 2]);
}

// Pasting into an empty buffer starts numbering at 0.
#[test]
fn paste_into_empty_buffer() {
    let mut cc = CodeComponent::new();
    handle_paste(&mut cc, "solo");
    assert_eq!(texts(cc.get_current()), vec!["solo"]);
    assert_eq!(numbers(cc.get_current()), vec![0]);
}

// Substring replace within one line rewrites every occurrence.
#[test]
fn replace_line_replaces_all_occurrences() {
    let mut code = Code::new();
    code.add_line(Line::new(0, "abcabc".to_string()));
    code.replace_line(0, "bc".to_string(), "X".to_string());
    assert_eq!(code.get_line(0).unwrap().get_string(), "aXaX");
}

// Loading file contents splits on newlines into lines numbered from 0.
#[test]
fn set_current_splits_contents() {
    let mut cc = CodeComponent::new();
    cc.set_current(Some("one\ntwo\n".to_string()));
    cc.get_mut_current().remove_cursor();
    assert_eq!(texts(cc.get_current()), vec!["one", "two", ""]);
    assert_eq!(numbers(cc.get_current()), vec![0, 1, 2]);
}

// Out-of-range navigation stays clamped: Enter and Backspace on an empty
// buffer change nothing.
#[test]
fn edits_on_empty_buffer_are_no_ops() {
    let mut cc = CodeComponent::new();
    handle_enter(&mut cc);
    handle_delete(&mut cc);
    assert_eq!(cc.get_current().get_content().len(), 0);
    assert_eq!(cc.get_current().get_cursor(), &Point::new(0, 0));
}
