use tui_editor::code::{Code, Line};
use tui_editor::component::CodeComponent;
use tui_editor::history::{Change, CodeHistory};
use tui_editor::point::Point;
use tui_editor::selection::CodeSelection;

// Construction of the Line struct.
#[test]
fn test_new_line() {
    let line = Line::new(1, "Test Line".to_string());
    assert_eq!(line.get_number(), 1);
    assert_eq!(line.get_string(), "Test Line");
}

// Construction of the CodeSelection struct.
#[test]
fn test_new_code_selection() {
    let start = Point::new(0, 0);
    let end = Point::new(1, 1);
    let code_selection = CodeSelection::new(start.clone(), end.clone());
    assert_eq!(code_selection.get_start().clone(), start);
    assert_eq!(code_selection.get_end().clone(), end);
}

// Construction of the Code struct.
#[test]
fn test_new_code() {
    let code = Code::new();
    assert_eq!(code.get_content().len(), 0);
    assert_eq!(code.is_cursor_displayed(), false);
    assert_eq!(code.get_cursor().clone(), Point::default());
    assert_eq!(code.get_selection().clone(), None);
}

// The code component starts out with an empty buffer and empty history.
#[test]
fn test_new_code_component() {
    let code_component = CodeComponent::new();
    assert_eq!(code_component.get_current().get_content().len(), 0);
    assert_eq!(code_component.get_history().get_current_code().get_content().len(), 0);
}

#[test]
fn test_move_up() {
    let mut point = Point::new(3, 4);
    point.move_up(false, 5); // Not exceeding the limit
    assert_eq!(point.get_x(), 2);
    assert_eq!(point.get_y(), 4);

    let mut point = Point::new(3, 4);
    point.move_up(true, 5); // Exceeding the limit
    assert_eq!(point.get_x(), 3);
    assert_eq!(point.get_y(), 0);
}

#[test]
fn test_move_left() {
    let mut point = Point::new(3, 4);
    point.move_left(false, 5); // Not exceeding the limit
    assert_eq!(point.get_x(), 3);
    assert_eq!(point.get_y(), 3);

    let mut point = Point::new(1, 0);
    point.move_left(true, 5); // Exceeding the limit
    assert_eq!(point.get_x(), 0);
    assert_eq!(point.get_y(), 4);
}

#[test]
fn test_move_right() {
    let mut point = Point::new(3, 4);
    point.move_right(false, 5); // Not exceeding the limit
    assert_eq!(point.get_x(), 3);
    assert_eq!(point.get_y(), 5);

    let mut point = Point::new(4, 4);
    point.move_right(true, 4); // Exceeding the limit
    assert_eq!(point.get_x(), 5);
    assert_eq!(point.get_y(), 0);
}

#[test]
fn test_move_down() {
    let mut point = Point::new(3, 4);
    point.move_down(false, 5, 4); // Not exceeding the limit
    assert_eq!(point.get_x(), 4);
    assert_eq!(point.get_y(), 4);

    let mut point = Point::new(3, 5);
    point.move_down(true, 5, 4); // Exceeding the limit
    assert_eq!(point.get_x(), 3);
    assert_eq!(point.get_y(), 5);
}

#[test]
fn test_set_x_and_set_y() {
    let mut point = Point::new(3, 4);
    point.set_x(5);
    point.set_y(6);
    assert_eq!(point.get_x(), 5);
    assert_eq!(point.get_y(), 6);
}

#[test]
fn test_set_start_and_set_end() {
    let mut selection = CodeSelection::new(Point::new(1, 2), Point::new(3, 4));

    let new_start = Point::new(5, 6);
    let new_end = Point::new(7, 8);

    selection.set_start(new_start.clone());
    selection.set_end(new_end.clone());

    assert_eq!(selection.get_start(), &new_start);
    assert_eq!(selection.get_end(), &new_end);
}

#[test]
fn test_create_change_with_strings() {
    let number = 42;
    let from = "Old Text".to_string();
    let to = "New Text".to_string();

    let change = Change::create_change_with_strings(number, from.clone(), to.clone());

    assert_eq!(change.get_number(), number);
    assert_eq!(change.get_from(), from);
    assert_eq!(change.get_to(), to);
}

#[test]
fn test_create_change_with_line() {
    let line = Line::new(42, "Old Text".to_string());
    let to = "New Text".to_string();

    let change = Change::create_change_with_line(line.clone(), to.clone());

    assert_eq!(change.get_number(), line.get_number());
    assert_eq!(change.get_from(), line.get_string());
    assert_eq!(change.get_to(), to);
}

#[test]
fn test_get_old_line() {
    let number = 42;
    let from = "Old Text".to_string();
    let to = "New Text".to_string();

    let change = Change::create_change_with_strings(number, from.clone(), to.clone());
    let old_line = change.get_old_line();

    assert_eq!(old_line.get_number(), number);
    assert_eq!(old_line.get_string(), from);
}

#[test]
fn test_get_new_line() {
    let number = 42;
    let from = "Old Text".to_string();
    let to = "New Text".to_string();

    let change = Change::create_change_with_strings(number, from.clone(), to.clone());
    let new_line = change.get_new_line();

    assert_eq!(new_line.get_number(), number);
    assert_eq!(new_line.get_string(), to);
}

#[test]
fn test_new_code_history() {
    let code = Code::new();
    let history = CodeHistory::new(code.clone());

    assert_eq!(history.get_current_code(), code);
}

#[test]
fn test_new_code_history_with_changes() {
    let code = Code::new();
    let changes =
        vec![Change::create_change_with_strings(1, "Old Text".to_string(), "New Text".to_string())];
    let history = CodeHistory::new_with_changes(code.clone(), changes.clone());

    assert_eq!(history.get_current_code(), code);
    assert_eq!(history.get_changes(), &changes);
}

#[test]
fn test_add_change() {
    let mut code_history = CodeHistory::new(Code::new());
    let change = Change::create_change_with_strings(1, "Old Text".to_string(), "New Text".to_string());
    code_history.add_change(change.clone());

    assert_eq!(code_history.get_changes().len(), 1);
    assert_eq!(code_history.get_changes()[0], change);
}

#[test]
fn test_add_change_at_position() {
    let mut code_history = CodeHistory::new(Code::new());
    let change1 =
        Change::create_change_with_strings(1, "Old Text 1".to_string(), "New Text 1".to_string());
    let change2 =
        Change::create_change_with_strings(2, "Old Text 2".to_string(), "New Text 2".to_string());
    code_history.add_change(change1.clone());
    code_history.add_change_at_position(0, change2.clone());

    assert_eq!(code_history.get_changes().len(), 2);
    assert_eq!(code_history.get_changes()[0], change2);
    assert_eq!(code_history.get_changes()[1], change1);
}
