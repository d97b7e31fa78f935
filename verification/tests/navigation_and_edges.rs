use tui_editor::code::{Code, Line};
use tui_editor::component::CodeComponent;
use tui_editor::edit::{handle_down, handle_left, handle_right, handle_up};
use tui_editor::input::{EditorKey, InputEvent};
use tui_editor::point::Point;
use tui_editor::terminal::{TerminalCommand, TerminalSelection};

fn component_with_lines(texts: &[&str]) -> CodeComponent {
    let mut cc = CodeComponent::new();
    for (i, text) in texts.iter().enumerate() {
        cc.get_mut_current().add_line(Line::new(i, text.to_string()));
    }
    cc
}

fn set_cursor_at(cc: &mut CodeComponent, x: usize, y: usize) {
    cc.get_mut_current().get_mut_cursor().set_x(x);
    cc.get_mut_current().get_mut_cursor().set_y(y);
}

// A plain right press walks along the line and wraps to the next row's
// start at the end of the line.
#[test]
fn plain_right_walks_and_wraps() {
    let mut cc = component_with_lines(&["ab", "cd"]);
    let right = InputEvent::press(EditorKey::Right);
    handle_right(&mut cc, &right);
    assert_eq!(cc.get_current().get_cursor(), &Point::new(0, 1));
    handle_right(&mut cc, &right);
    assert_eq!(cc.get_current().get_cursor(), &Point::new(0, 2));
    handle_right(&mut cc, &right);
    assert_eq!(cc.get_current().get_cursor(), &Point::new(1, 0));
}

// A plain left press at column 0 wraps to the far column of the row
// above: the mirror of the right wrap to column 0.
#[test]
fn plain_left_wraps_to_previous_row() {
    let mut cc = component_with_lines(&["abc", "d"]);
    set_cursor_at(&mut cc, 1, 0);
    let left = InputEvent::press(EditorKey::Left);
    handle_left(&mut cc, &left);
    assert_eq!(cc.get_current().get_cursor(), &Point::new(0, 3));
}

// Plain up and down move between rows and are silently clamped at the
// buffer's edges: nothing moves out of range and nothing else changes.
#[test]
fn plain_up_down_clamp_at_edges() {
    let mut cc = component_with_lines(&["aa", "bb"]);
    let up = InputEvent::press(EditorKey::Up);
    let down = InputEvent::press(EditorKey::Down);
    handle_up(&mut cc, &up);
    assert_eq!(cc.get_current().get_cursor(), &Point::new(0, 0));
    handle_down(&mut cc, &down);
    assert_eq!(cc.get_current().get_cursor(), &Point::new(1, 0));
    handle_down(&mut cc, &down);
    assert_eq!(cc.get_current().get_cursor(), &Point::new(1, 0));
}

// A plain press after a shift gesture snaps the cursor to the selection's
// end point and clears the selection.
#[test]
fn releasing_shift_snaps_to_selection_end() {
    let mut cc = component_with_lines(&["abcd"]);
    set_cursor_at(&mut cc, 0, 1);
    let shift_right = InputEvent::shift_press(EditorKey::Right);
    handle_right(&mut cc, &shift_right);
    handle_right(&mut cc, &shift_right);
    assert!(cc.get_current().get_selection().is_some());
    let right = InputEvent::press(EditorKey::Right);
    handle_right(&mut cc, &right);
    assert!(cc.get_current().get_selection().is_none());
    assert_eq!(cc.get_current().get_cursor(), &Point::new(0, 3));
}

// Shrinking a selection back onto its anchor collapses it.
#[test]
fn shift_left_collapses_selection_on_anchor() {
    let mut cc = component_with_lines(&["abcd"]);
    set_cursor_at(&mut cc, 0, 1);
    let shift_right = InputEvent::shift_press(EditorKey::Right);
    handle_right(&mut cc, &shift_right);
    let sel = cc.get_current().get_selection().clone().unwrap();
    assert_eq!((sel.get_start(), sel.get_end()), (&Point::new(0, 1), &Point::new(0, 2)));
    let shift_left = InputEvent::shift_press(EditorKey::Left);
    handle_left(&mut cc, &shift_left);
    assert!(cc.get_current().get_selection().is_none());
}

// Same-row extraction reads the same span whichever way round the ends
// are stored.
#[test]
fn same_row_extraction_ignores_orientation() {
    let mut a = Code::new();
    a.add_line(Line::new(0, "abcdef".to_string()));
    a.create_selection(Point::new(0, 4), Point::new(0, 1));
    assert_eq!(a.extract_selection().unwrap(), "bcd");
}

// Lookups by an absent line number do nothing and report nothing.
#[test]
fn absent_line_lookups_are_no_ops() {
    let mut code = Code::new();
    code.add_line(Line::new(0, "only".to_string()));
    assert!(code.get_line(7).is_none());
    code.change_line(7, "ghost".to_string());
    code.remove_line(7);
    code.set_line_number(7, 8);
    assert_eq!(code.get_line(0).unwrap().get_string(), "only");
    assert_eq!(code.get_content().len(), 1);
}

// Substring replace leaves the line alone when the pattern does not occur.
#[test]
fn replace_line_without_occurrence() {
    let mut code = Code::new();
    code.add_line(Line::new(0, "abc".to_string()));
    code.replace_line(0, "zz".to_string(), "X".to_string());
    assert_eq!(code.get_line(0).unwrap().get_string(), "abc");
}

// remove_line_at_cursor removes exactly the cursor's row.
#[test]
fn remove_line_at_cursor_removes_row() {
    let mut code = Code::new();
    code.add_line(Line::new(0, "zero".to_string()));
    code.add_line(Line::new(1, "one".to_string()));
    code.get_mut_cursor().set_x(1);
    code.remove_line_at_cursor();
    let texts: Vec<String> = code.get_content().iter().map(|l| l.get_string()).collect();
    assert_eq!(texts, vec!["zero"]);
}

// A terminal selection bound past the command's text snaps to 0.
#[test]
fn terminal_selection_bounds_snap() {
    let mut cmd = TerminalCommand::default();
    cmd.add('h');
    cmd.add('i');
    let mut sel = TerminalSelection::new();
    sel.set_command(cmd);
    sel.start_selection(1, 9);
    assert_eq!(sel.get_start(), 1);
    assert_eq!(sel.get_end(), 0);
    assert!(!sel.is_empty());
    sel.clear_selection();
    assert!(sel.is_empty());
}

// The terminal command line edits at the character level.
#[test]
fn terminal_command_remove_drops_last_char() {
    let mut cmd = TerminalCommand::default();
    cmd.add('o');
    cmd.add('k');
    cmd.set_position(2);
    cmd.remove();
    assert_eq!(cmd.get_buffer(), "o");
    assert_eq!(cmd.get_position(), 1);
}
