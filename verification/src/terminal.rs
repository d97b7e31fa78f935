//! The embedded shell's state: the command line being typed, the history
//! of executed commands, and a column selection over the command line.
//! Running commands and reaching the clipboard happen outside the library.

use vstd::prelude::*;

verus! {

use vstd::string::StrSliceExecFns;
use vstd::string::StringExecFns;
use crate::fspath::path_owned;
use crate::textops::push_char;
use std::path::PathBuf;

/// The command line being typed: its text and the cursor position in it,
/// a Unicode-scalar offset.
#[derive(Debug, PartialEq, Eq)]
pub struct TerminalCommand {
    pub command_buffer: String,
    pub position: usize,
}

impl Clone for TerminalCommand {
    fn clone(&self) -> (r: TerminalCommand)
        ensures
            r == *self,
    {
        TerminalCommand { command_buffer: self.command_buffer.clone(), position: self.position }
    }
}

impl Default for TerminalCommand {
    fn default() -> (r: TerminalCommand)
        ensures
            r.command_buffer@ == Seq::<char>::empty(),
            r.position == 0,
    {
        TerminalCommand { command_buffer: String::new(), position: 0 }
    }
}

impl TerminalCommand {
    /// Empties the command line and rewinds the cursor.
    pub fn flush(&mut self)
        ensures
            final(self).command_buffer@ == Seq::<char>::empty(),
            final(self).position == 0,
    {
        self.command_buffer = String::new();
        self.position = 0;
    }

    /// Deletes the last character and steps the cursor back; a no-op at
    /// position 0.
    pub fn remove(&mut self)
        ensures
            ({
                let b = old(self).command_buffer@;
                if old(self).position > 0 {
                    &&& final(self).position == old(self).position - 1
                    &&& final(self).command_buffer@ == if b.len() > 0 {
                        b.drop_last()
                    } else {
                        b
                    }
                } else {
                    *final(self) == *old(self)
                }
            }),
    {
        if self.position > 0 {
            self.position = self.position - 1;
            let n = self.command_buffer.as_str().unicode_len();
            if n > 0 {
                let shorter = self.command_buffer.as_str().substring_char(0, n - 1).to_owned();
                proof {
                    assert(shorter@ =~= old(self).command_buffer@.drop_last());
                }
                self.command_buffer = shorter;
            }
        }
    }

    /// Steps the cursor right, stopping at the end of the text.
    pub fn move_cursor_forward(&mut self)
        ensures
            final(self).command_buffer == old(self).command_buffer,
            final(self).position == if (old(self).position as int)
                < old(self).command_buffer@.len() {
                old(self).position + 1
            } else {
                old(self).position as int
            },
    {
        let n = self.command_buffer.as_str().unicode_len();
        if self.position < n {
            self.position = self.position + 1;
        }
    }

    /// Steps the cursor left, stopping at 0.
    pub fn move_cursor_backward(&mut self)
        ensures
            final(self).command_buffer == old(self).command_buffer,
            final(self).position == if old(self).position > 0 {
                old(self).position - 1
            } else {
                0
            },
    {
        if self.position > 0 {
            self.position = self.position - 1;
        }
    }

    /// Appends one character to the command line; the cursor stays.
    pub fn add(&mut self, c: char)
        ensures
            final(self).command_buffer@ == old(self).command_buffer@.push(c),
            final(self).position == old(self).position,
    {
        push_char(&mut self.command_buffer, c);
    }

    pub fn get_position(&self) -> (r: usize)
        ensures
            r == self.position,
    {
        self.position
    }

    pub fn set_position(&mut self, position: usize)
        ensures
            final(self).command_buffer == old(self).command_buffer,
            final(self).position == position,
    {
        self.position = position;
    }

    pub fn get_buffer(&self) -> (r: &String)
        ensures
            *r == self.command_buffer,
    {
        &self.command_buffer
    }

    pub fn set_buffer(&mut self, buffer: String)
        ensures
            final(self).command_buffer == buffer,
            final(self).position == old(self).position,
    {
        self.command_buffer = buffer;
    }
}

/// One command that was run: its text, the folder it ran in, and what it
/// printed.
#[derive(Debug, PartialEq, Eq)]
pub struct ExecutedTerminalCommand {
    pub command: String,
    pub folder: PathBuf,
    pub output: String,
}

impl ExecutedTerminalCommand {
    pub fn new(command: String, folder: PathBuf, output: String) -> (r: ExecutedTerminalCommand)
        ensures
            r.command == command,
            r.folder == folder,
            r.output == output,
    {
        ExecutedTerminalCommand { command, folder, output }
    }

    pub fn get_command(&self) -> (r: &String)
        ensures
            *r == self.command,
    {
        &self.command
    }

    pub fn get_folder(&self) -> (r: &PathBuf)
        ensures
            *r == self.folder,
    {
        &self.folder
    }

    pub fn get_output(&self) -> (r: &String)
        ensures
            *r == self.output,
    {
        &self.output
    }
}

impl Clone for ExecutedTerminalCommand {
    fn clone(&self) -> (r: ExecutedTerminalCommand)
        ensures
            r.command == self.command,
            r.output == self.output,
            r.folder == self.folder,
    {
        ExecutedTerminalCommand {
            command: self.command.clone(),
            folder: path_owned(&self.folder),
            output: self.output.clone(),
        }
    }
}

/// The executed commands in order, and a position from which Up and Down
/// walk them. The position may rest one step before the first entry.
#[derive(Debug, PartialEq, Eq)]
pub struct ExecutedTerminalHistory {
    pub history: Vec<ExecutedTerminalCommand>,
    pub position: isize,
}

impl Default for ExecutedTerminalHistory {
    fn default() -> (r: ExecutedTerminalHistory)
        ensures
            r.history@.len() == 0,
            r.position == 0,
    {
        ExecutedTerminalHistory { history: Vec::new(), position: 0 }
    }
}

impl ExecutedTerminalHistory {
    /// Walks one step toward older commands and hands back the one reached,
    /// `None` past the oldest.
    pub fn up(&mut self) -> (r: Option<&ExecutedTerminalCommand>)
        ensures
            final(self).history == old(self).history,
            final(self).position == if old(self).position >= 0 {
                old(self).position - 1
            } else {
                old(self).position as int
            },
            match r {
                Some(c) => {
                    &&& 0 <= final(self).position < old(self).history@.len()
                    &&& *c == old(self).history@[final(self).position as int]
                },
                None => final(self).position < 0 || final(self).position
                    >= old(self).history@.len(),
            },
    {
        if self.position >= 0 {
            self.position = self.position - 1;
            if self.position >= 0 {
                let i = self.position as usize;
                if i < self.history.len() {
                    return Some(&self.history[i]);
                }
            }
            None
        } else {
            None
        }
    }

    /// Walks one step toward newer commands and hands back the one reached,
    /// `None` past the newest.
    pub fn down(&mut self) -> (r: Option<&ExecutedTerminalCommand>)
        requires
            old(self).history@.len() < isize::MAX,
            old(self).position <= old(self).history@.len(),
        ensures
            final(self).history == old(self).history,
            final(self).position == if old(self).position < old(self).history@.len() as int {
                old(self).position + 1
            } else {
                old(self).position as int
            },
            match r {
                Some(c) => {
                    &&& 0 <= final(self).position < old(self).history@.len()
                    &&& *c == old(self).history@[final(self).position as int]
                },
                None => final(self).position < 0 || final(self).position
                    >= old(self).history@.len(),
            },
    {
        let len = self.history.len();
        let moved = if self.position < 0 {
            true
        } else {
            (self.position as usize) < len
        };
        if moved {
            self.position = self.position + 1;
        }
        if self.position >= 0 {
            let i = self.position as usize;
            if i < len {
                return Some(&self.history[i]);
            }
        }
        None
    }

    /// Records a run command and parks the position on it.
    pub fn add(&mut self, command: ExecutedTerminalCommand)
        requires
            old(self).history@.len() < isize::MAX,
        ensures
            final(self).history@ == old(self).history@.push(command),
            final(self).position == final(self).history@.len() - 1,
    {
        self.history.push(command);
        self.position = (self.history.len() - 1) as isize;
    }

    /// Forgets every recorded command.
    pub fn flush(&mut self)
        ensures
            final(self).history@.len() == 0,
            final(self).position == 0,
    {
        self.history.clear();
        self.position = 0;
    }

    pub fn get_history(&self) -> (r: &Vec<ExecutedTerminalCommand>)
        ensures
            *r == self.history,
    {
        &self.history
    }
}

/// A column selection over one command line; `start` and `end` are offsets
/// into the remembered command's text.
#[derive(Debug, PartialEq, Eq)]
pub struct TerminalSelection {
    pub command: Option<TerminalCommand>,
    pub start: usize,
    pub end: usize,
}

impl TerminalSelection {
    pub fn new() -> (r: TerminalSelection)
        ensures
            r.command is None,
            r.start == 0,
            r.end == 0,
    {
        TerminalSelection { command: None, start: 0, end: 0 }
    }

    pub fn set_command(&mut self, cmd: TerminalCommand)
        ensures
            final(self).command == Some(cmd),
            final(self).start == old(self).start,
            final(self).end == old(self).end,
    {
        self.command = Some(cmd);
    }

    /// Anchors the selection: each bound is kept only when it falls inside
    /// the remembered command's text, else it snaps to 0. Without a
    /// remembered command nothing happens.
    pub fn start_selection(&mut self, start: usize, end: usize)
        ensures
            final(self).command == old(self).command,
            match old(self).command {
                Some(cmd) => {
                    &&& final(self).start == if (start as int) < cmd.command_buffer@.len() {
                        start as int
                    } else {
                        0
                    }
                    &&& final(self).end == if (end as int) < cmd.command_buffer@.len() {
                        end as int
                    } else {
                        0
                    }
                },
                None => final(self).start == old(self).start && final(self).end == old(
                    self,
                ).end,
            },
    {
        let len = match &self.command {
            Some(cmd) => cmd.get_buffer().as_str().unicode_len(),
            None => {
                return ;
            },
        };
        self.start = if start < len {
            start
        } else {
            0
        };
        self.end = if end < len {
            end
        } else {
            0
        };
    }

    /// Collapses the selection to nothing.
    pub fn clear_selection(&mut self)
        ensures
            final(self).command == old(self).command,
            final(self).start == 0,
            final(self).end == 0,
    {
        self.start = 0;
        self.end = 0;
    }

    /// A selection is empty when its bounds meet or no command is
    /// remembered.
    pub fn is_empty(&self) -> (r: bool)
        ensures
            r == (self.start == self.end || self.command is None),
    {
        self.start == self.end || self.command.is_none()
    }

    pub fn get_start(&self) -> (r: usize)
        ensures
            r == self.start,
    {
        self.start
    }

    pub fn get_end(&self) -> (r: usize)
        ensures
            r == self.end,
    {
        self.end
    }

    /// The remembered command's whole text; empty without one.
    pub fn get_selection(&self) -> (r: String)
        ensures
            r@ == match self.command {
                Some(cmd) => cmd.command_buffer@,
                None => Seq::<char>::empty(),
            },
    {
        match &self.command {
            Some(command) => command.get_buffer().clone(),
            None => String::new(),
        }
    }
}

/// The embedded shell pane: the command line, the history, and the
/// selection over the command line.
#[derive(Debug, PartialEq, Eq)]
pub struct TerminalComponent {
    pub current_command: TerminalCommand,
    pub commands_history: ExecutedTerminalHistory,
    pub selection: TerminalSelection,
}

impl TerminalComponent {
    pub fn new() -> (r: TerminalComponent)
        ensures
            r.current_command.command_buffer@ == Seq::<char>::empty(),
            r.current_command.position == 0,
            r.commands_history.history@.len() == 0,
            r.commands_history.position == 0,
            r.selection.command is None,
            r.selection.start == 0,
            r.selection.end == 0,
    {
        TerminalComponent {
            current_command: TerminalCommand::default(),
            commands_history: ExecutedTerminalHistory::default(),
            selection: TerminalSelection::new(),
        }
    }

    pub fn get_history(&self) -> (r: &ExecutedTerminalHistory)
        ensures
            *r == self.commands_history,
    {
        &self.commands_history
    }

    pub fn get_current_command(&self) -> (r: &TerminalCommand)
        ensures
            *r == self.current_command,
    {
        &self.current_command
    }

    pub fn get_selection(&self) -> (r: &TerminalSelection)
        ensures
            *r == self.selection,
    {
        &self.selection
    }
}

} // verus!
