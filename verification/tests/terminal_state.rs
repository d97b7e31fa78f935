use std::path::{Path, PathBuf};

use tui_editor::terminal::{ExecutedTerminalCommand, ExecutedTerminalHistory, TerminalCommand};

#[test]
fn test_default_constructor() {
    let terminal_command = TerminalCommand::default();

    assert_eq!(terminal_command.get_position(), 0);
    assert_eq!(terminal_command.get_buffer(), "");
}

#[test]
fn test_flush_with_default_constructor() {
    let mut terminal_command = TerminalCommand::default();
    terminal_command.flush();

    assert_eq!(terminal_command.get_position(), 0);
    assert_eq!(terminal_command.get_buffer(), "");
}

#[test]
fn test_remove_with_default_constructor() {
    let mut terminal_command = TerminalCommand::default();
    terminal_command.remove();

    assert_eq!(terminal_command.get_position(), 0);
    assert_eq!(terminal_command.get_buffer(), "");
}

#[test]
fn test_add_with_default_constructor() {
    let mut terminal_command = TerminalCommand::default();
    terminal_command.add('X');

    assert_eq!(terminal_command.get_position(), 0);
    assert_eq!(terminal_command.get_buffer(), "X");
}

#[test]
fn test_move_cursor_forward_with_default_constructor() {
    let mut terminal_command = TerminalCommand::default();
    terminal_command.move_cursor_forward();

    assert_eq!(terminal_command.get_position(), 0);
}

#[test]
fn test_move_cursor_backward_with_default_constructor() {
    let mut terminal_command = TerminalCommand::default();
    terminal_command.move_cursor_backward();

    assert_eq!(terminal_command.get_position(), 0);
}

#[test]
fn test_set_position_with_default_constructor() {
    let mut terminal_command = TerminalCommand::default();
    terminal_command.set_position(3);

    assert_eq!(terminal_command.get_position(), 3);
}

#[test]
fn test_set_buffer_with_default_constructor() {
    let mut terminal_command = TerminalCommand::default();
    terminal_command.set_buffer("new_buffer".to_string());

    assert_eq!(terminal_command.get_position(), 0);
    assert_eq!(terminal_command.get_buffer(), "new_buffer");
}

#[test]
fn test_new() {
    let command = "ls -l".to_string();
    let folder = Path::new("/some/directory").to_path_buf();
    let output = "Listing of files".to_string();

    let executed_command = ExecutedTerminalCommand::new(command.clone(), folder.clone(), output.clone());

    assert_eq!(executed_command.get_command(), &command);
    assert_eq!(executed_command.get_folder(), &folder);
    assert_eq!(executed_command.get_output(), &output);
}

#[test]
fn test_get_command() {
    let command = "echo 'Hello, World!'".to_string();
    let folder = Path::new("/some/directory").to_path_buf();
    let output = "Hello, World!".to_string();

    let executed_command = ExecutedTerminalCommand::new(command.clone(), folder.clone(), output.clone());

    assert_eq!(executed_command.get_command(), &command);
}

#[test]
fn test_get_folder() {
    let command = "pwd".to_string();
    let folder = Path::new("/current/directory").to_path_buf();
    let output = "/current/directory".to_string();

    let executed_command = ExecutedTerminalCommand::new(command.clone(), folder.clone(), output.clone());

    assert_eq!(executed_command.get_folder(), &folder);
}

#[test]
fn test_get_output() {
    let command = "ls".to_string();
    let folder = Path::new("/some/directory").to_path_buf();
    let output = "file1\nfile2\nfile3".to_string();

    let executed_command = ExecutedTerminalCommand::new(command.clone(), folder.clone(), output.clone());

    assert_eq!(executed_command.get_output(), &output);
}

#[test]
fn test_new_executed_terminal_command() {
    // Sample values for the constructor
    let command = "ls -l".to_string();
    let folder = PathBuf::from("/some/directory");
    let output = "File1\nFile2\nFile3".to_string();

    let executed_command = ExecutedTerminalCommand::new(command.clone(), folder.clone(), output.clone());

    assert_eq!(executed_command.get_command().clone(), command);
    assert_eq!(executed_command.get_folder().clone(), folder);
    assert_eq!(executed_command.get_output().clone(), output);
}

#[test]
fn test_history_default_constructor() {
    let history = ExecutedTerminalHistory::default();

    assert!(history.get_history().is_empty());
}

#[test]
fn test_up() {
    let mut history = ExecutedTerminalHistory::default();
    let command1 =
        ExecutedTerminalCommand::new("ls".to_string(), PathBuf::from("/dir1"), "file1 file2".to_string());
    let command2 = ExecutedTerminalCommand::new("cd ..".to_string(), PathBuf::from("/dir2"), "".to_string());

    history.add(command1);
    history.add(command2);

    let result1 = history.up();
    assert_eq!(
        result1,
        Some(&ExecutedTerminalCommand::new(
            "ls".to_string(),
            PathBuf::from("/dir1"),
            "file1 file2".to_string()
        ))
    );
    let result2 = history.up();
    assert_eq!(result2, None);
    let result3 = history.up();
    assert_eq!(result3, None);
}

#[test]
fn test_down() {
    let mut history = ExecutedTerminalHistory::default();
    let command1 =
        ExecutedTerminalCommand::new("ls".to_string(), PathBuf::from("/dir1"), "file1 file2".to_string());
    let command2 = ExecutedTerminalCommand::new("cd ..".to_string(), PathBuf::from("/dir2"), "".to_string());

    history.add(command1);
    history.add(command2);

    history.up(); // Move to the previous command
    let result1 = history.down();
    assert_eq!(
        result1,
        Some(&ExecutedTerminalCommand::new(
            "cd ..".to_string(),
            PathBuf::from("/dir2"),
            "".to_string()
        ))
    );
    let _result2 = history.up();
    let _result3 = history.up();
    let result4 = history.down();
    assert_eq!(
        result4,
        Some(&ExecutedTerminalCommand::new(
            "ls".to_string(),
            PathBuf::from("/dir1"),
            "file1 file2".to_string()
        ))
    );
}

#[test]
fn test_add() {
    let mut history = ExecutedTerminalHistory::default();
    let command =
        ExecutedTerminalCommand::new("ls".to_string(), PathBuf::from("/dir1"), "file1 file2".to_string());

    history.add(command);

    assert_eq!(history.get_history().len(), 1);
}

#[test]
fn test_flush() {
    let mut history = ExecutedTerminalHistory::default();
    let command =
        ExecutedTerminalCommand::new("ls".to_string(), PathBuf::from("/dir1"), "file1 file2".to_string());

    history.add(command);
    history.flush();

    assert!(history.get_history().is_empty());
}

// A cloned executed command keeps its folder: the path value passes through
// the library unchanged.
#[test]
fn cloned_command_keeps_folder() {
    let original = ExecutedTerminalCommand::new(
        "ls".to_string(),
        PathBuf::from("/somewhere/else"),
        "".to_string(),
    );
    let copy = original.clone();
    assert_eq!(copy.get_folder(), &PathBuf::from("/somewhere/else"));
    assert_eq!(copy.get_command(), "ls");
}
