//! The discrete input events the editing core consumes: one key with its
//! modifiers, tagged as an initial press or an auto-repeat. The event loop
//! around the library translates real terminal events into these values.

use vstd::prelude::*;

verus! {

/// The keys the core reacts to.
#[derive(Clone, Copy, Debug, PartialEq, Eq, Structural)]
pub enum EditorKey {
    Char(char),
    Enter,
    Backspace,
    Delete,
    Up,
    Down,
    Left,
    Right,
    Esc,
    Tab,
    Other,
}

/// Whether the key event is an initial press or an auto-repeat.
#[derive(Clone, Copy, Debug, PartialEq, Eq, Structural)]
pub enum InputKind {
    Press,
    Repeat,
}

/// One discrete input event: a key, the held modifiers, and its kind.
#[derive(Clone, Copy, Debug, PartialEq, Eq, Structural)]
pub struct InputEvent {
    pub code: EditorKey,
    pub shift: bool,
    pub control: bool,
    pub kind: InputKind,
}

impl InputEvent {
    pub fn new(code: EditorKey, shift: bool, control: bool, kind: InputKind) -> (r: InputEvent)
        ensures
            r == (InputEvent { code, shift, control, kind }),
    {
        InputEvent { code, shift, control, kind }
    }

    /// A plain key press without modifiers.
    pub fn press(code: EditorKey) -> (r: InputEvent)
        ensures
            r == (InputEvent { code, shift: false, control: false, kind: InputKind::Press }),
    {
        InputEvent { code, shift: false, control: false, kind: InputKind::Press }
    }

    /// A key press with shift held.
    pub fn shift_press(code: EditorKey) -> (r: InputEvent)
        ensures
            r == (InputEvent { code, shift: true, control: false, kind: InputKind::Press }),
    {
        InputEvent { code, shift: true, control: false, kind: InputKind::Press }
    }

    /// A key press with control held.
    pub fn control_press(code: EditorKey) -> (r: InputEvent)
        ensures
            r == (InputEvent { code, shift: false, control: true, kind: InputKind::Press }),
    {
        InputEvent { code, shift: false, control: true, kind: InputKind::Press }
    }
}

/// What a handled event asks the surrounding I/O layer to do. The core
/// itself never touches the clipboard or the file system.
#[derive(Clone, Debug, PartialEq, Eq)]
pub enum EditAction {
    /// Nothing beyond the in-memory state change.
    Nothing,
    /// Place this text on the system clipboard.
    SetClipboard(String),
    /// Persist this text to the active file.
    SaveFile(String),
}

} // verus!
