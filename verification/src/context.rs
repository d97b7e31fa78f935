//! The surrounding application state: which panel is hovered or focused,
//! the active folder and file, the file browser's own state, and the
//! top-level routing of input events to the focused panel.

use vstd::prelude::*;

verus! {

use std::path::PathBuf;
use crate::component::CodeComponent;
use crate::component::is_ctrl_combo;
use crate::edit::Direction;
use crate::edit::arrow_buf;
use crate::edit::backspace_buf;
use crate::edit::buf_view;
use crate::edit::char_buf;
use crate::edit::cut_buf;
use crate::edit::enter_buf;
use crate::edit::paste_buf;
use crate::edit::replayed_buf;
use crate::edit::splice_buf;
use crate::edit::strip_buf;
use crate::history::replay;
use crate::history::spec_use_previous;
use crate::history::spec_use_next;
use crate::model::buffer_text;
use crate::model::spec_extract_selection;
use crate::input::InputEvent;
use crate::input::InputKind;
use crate::input::EditorKey;
use crate::input::EditAction;
use crate::terminal::TerminalComponent;

/// The three panels of the application.
#[derive(Clone, Copy, Debug, PartialEq, Eq, Structural)]
pub enum ComponentType {
    Project,
    Code,
    Terminal,
}

/// What the file browser lists.
#[derive(Clone, Copy, Debug, PartialEq, Eq, Structural)]
pub enum ContentType {
    FILE,
    FOLDER,
}

/// Ambient application state: the active folder and file, whether the
/// active file just changed, and which panel has focus or hover.
#[derive(Debug, PartialEq, Eq)]
pub struct AppContext {
    pub active_folder: PathBuf,
    pub active_file: Option<PathBuf>,
    pub active_file_changed: bool,
    pub focus: Option<ComponentType>,
    pub hover: ComponentType,
}

impl AppContext {
    pub fn new(
        active_folder: PathBuf,
        active_file: Option<PathBuf>,
        focus: Option<ComponentType>,
        hover: ComponentType,
    ) -> (r: AppContext)
        ensures
            r.active_folder == active_folder,
            r.active_file == active_file,
            r.active_file_changed == false,
            r.focus == focus,
            r.hover == hover,
    {
        AppContext { active_folder, active_file, active_file_changed: false, focus, hover }
    }

    pub fn active_folder(&self) -> (r: &PathBuf)
        ensures
            *r == self.active_folder,
    {
        &self.active_folder
    }

    pub fn set_active_folder(&mut self, path: PathBuf)
        ensures
            *final(self) == (AppContext { active_folder: path, ..*old(self) }),
    {
        self.active_folder = path;
    }

    pub fn active_file(&self) -> (r: &Option<PathBuf>)
        ensures
            *r == self.active_file,
    {
        &self.active_file
    }

    /// Setting the active file also raises the changed flag, so the editor
    /// reloads its buffer.
    pub fn set_active_file(&mut self, path: Option<PathBuf>)
        ensures
            *final(self) == (AppContext {
                active_file: path,
                active_file_changed: true,
                ..*old(self)
            }),
    {
        self.active_file = path;
        self.active_file_changed = true;
    }

    pub fn active_file_changed(&self) -> (r: bool)
        ensures
            r == self.active_file_changed,
    {
        self.active_file_changed
    }

    pub fn set_active_file_changed(&mut self, change: bool)
        ensures
            *final(self) == (AppContext { active_file_changed: change, ..*old(self) }),
    {
        self.active_file_changed = change;
    }

    pub fn focus(&self) -> (r: &Option<ComponentType>)
        ensures
            *r == self.focus,
    {
        &self.focus
    }

    pub fn set_focus(&mut self, component: Option<ComponentType>)
        ensures
            *final(self) == (AppContext { focus: component, ..*old(self) }),
    {
        self.focus = component;
    }

    pub fn hover(&self) -> (r: &ComponentType)
        ensures
            *r == self.hover,
    {
        &self.hover
    }

    pub fn set_hover(&mut self, component: ComponentType)
        ensures
            *final(self) == (AppContext { hover: component, ..*old(self) }),
    {
        self.hover = component;
    }
}

/// The file browser's state: the listed paths and the hover, focus, edit
/// and popup flags over them. Listing, creating, renaming and deleting
/// real files happen outside the library, which only holds the results.
#[derive(Debug, PartialEq, Eq)]
pub struct ProjectComponent {
    pub contents: Vec<PathBuf>,
    pub hover: usize,
    pub focus: Option<usize>,
    pub edit: bool,
    pub first_edit: bool,
    pub edit_extension: bool,
    pub popup: bool,
    pub popup_decision: bool,
}

impl ProjectComponent {
    /// A fresh browser over a folder, not yet listed: the caller reads the
    /// directory and hands the entries to `set_contents`.
    pub fn new(active_folder: PathBuf) -> (r: ProjectComponent)
        ensures
            r.contents@.len() == 0,
            r.hover == 0,
            r.focus is None,
            r.edit == false,
            r.first_edit == false,
            r.edit_extension == false,
            r.popup == false,
            r.popup_decision == true,
    {
        let _ = active_folder;
        ProjectComponent {
            contents: Vec::new(),
            hover: 0,
            focus: None,
            edit: false,
            first_edit: false,
            edit_extension: false,
            popup: false,
            popup_decision: true,
        }
    }

    /// Replaces the listed entries with a fresh directory listing.
    pub fn set_contents(&mut self, contents: Vec<PathBuf>)
        ensures
            *final(self) == (ProjectComponent { contents, ..*old(self) }),
    {
        self.contents = contents;
    }

    pub fn get_contents(&self) -> (r: &Vec<PathBuf>)
        ensures
            *r == self.contents,
    {
        &self.contents
    }

    pub fn get_hover(&self) -> (r: &usize)
        ensures
            *r == self.hover,
    {
        &self.hover
    }

    pub fn get_focus(&self) -> (r: &Option<usize>)
        ensures
            *r == self.focus,
    {
        &self.focus
    }

    pub fn set_hover(&mut self, hover: usize) -> (r: &mut ProjectComponent)
        ensures
            *r == (ProjectComponent { hover, ..*old(self) }),
            *final(self) == *final(r),
    {
        self.hover = hover;
        self
    }

    pub fn set_focus(&mut self, focus: usize) -> (r: &mut ProjectComponent)
        ensures
            *r == (ProjectComponent { focus: Some(focus), ..*old(self) }),
            *final(self) == *final(r),
    {
        self.focus = Some(focus);
        self
    }

    pub fn get_popup(&self) -> (r: bool)
        ensures
            r == self.popup,
    {
        self.popup
    }

    pub fn set_popup(&mut self, value: bool)
        ensures
            *final(self) == (ProjectComponent { popup: value, ..*old(self) }),
    {
        self.popup = value;
    }

    pub fn get_popup_decision(&self) -> (r: bool)
        ensures
            r == self.popup_decision,
    {
        self.popup_decision
    }
}

/// What one routed event asks the surrounding program to do.
#[derive(Clone, Debug, PartialEq, Eq)]
pub enum AppOutcome {
    /// Keep running; everything is done.
    Continue,
    /// The user asked to leave.
    Quit,
    /// The focused panel needs work the library cannot do (file or process
    /// handling): the caller processes the event itself.
    Deferred,
    /// Place this text on the system clipboard.
    SetClipboard(String),
    /// Persist this text to the active file.
    SaveFile(String),
}

/// The application: the three panels.
#[derive(Debug, PartialEq, Eq)]
pub struct App {
    pub project: ProjectComponent,
    pub code: CodeComponent,
    pub terminal: TerminalComponent,
}

impl App {
    pub fn new(
        project: ProjectComponent,
        code: CodeComponent,
        terminal: TerminalComponent,
        path: PathBuf,
    ) -> (r: App)
        ensures
            r.project.contents@.len() == 0,
            r.project.hover == 0,
            r.project.focus is None,
            r.code == code,
            r.terminal == terminal,
    {
        let _ = project;
        App { project: ProjectComponent::new(path), code, terminal }
    }

    pub fn get_project(&self) -> (r: &ProjectComponent)
        ensures
            *r == self.project,
    {
        &self.project
    }

    pub fn get_code(&self) -> (r: &CodeComponent)
        ensures
            *r == self.code,
    {
        &self.code
    }

    pub fn get_terminal(&self) -> (r: &TerminalComponent)
        ensures
            *r == self.terminal,
    {
        &self.terminal
    }

    pub fn get_mut_code(&mut self) -> (r: &mut CodeComponent)
        ensures
            *r == old(self).code,
            final(self).code == *final(r),
            final(self).project == old(self).project,
            final(self).terminal == old(self).terminal,
    {
        &mut self.code
    }

    /// Routes one input event. Without focus, Tab moves the hover through
    /// the panels in order, Enter focuses the hovered panel, and Esc asks
    /// to quit. With the editor focused, the event goes to the editing
    /// core. With another panel focused, Esc drops the focus back to hover
    /// and anything else is deferred to the caller, whose file and process
    /// work the library cannot do. `clipboard` carries the clipboard text
    /// for a paste, if one is available.
    pub fn handle_event(
        &mut self,
        context: &mut AppContext,
        focus: Option<ComponentType>,
        event: InputEvent,
        clipboard: Option<String>,
    ) -> (r: AppOutcome)
        ensures
            final(self).project == old(self).project,
            final(self).terminal == old(self).terminal,
            match focus {
                Some(ComponentType::Code) => {
                    // the editing core's own guarantees, surfaced here: the
                    // action the caller gets and the buffer the event leaves
                    let c = old(self).code.current;
                    let h = old(self).code.history;
                    let b1 = strip_buf(buf_view(c));
                    let bf = buf_view(final(self).code.current);
                    &&& if is_ctrl_combo(event, 'x', 'X') || is_ctrl_combo(event, 'c', 'C') {
                        match c.selection {
                            Some(sel) => if sel.start != sel.end {
                                match r {
                                    AppOutcome::SetClipboard(s) => s@ == spec_extract_selection(
                                        b1.lines,
                                        sel.start,
                                        sel.end,
                                    ),
                                    _ => false,
                                }
                            } else {
                                r == AppOutcome::Continue
                            },
                            None => r == AppOutcome::Continue,
                        }
                    } else if is_ctrl_combo(event, 's', 'S') {
                        match r {
                            AppOutcome::SaveFile(s) => s@ == buffer_text(
                                replay(
                                    h.initial.lines(),
                                    h.changes.deep_view(),
                                    h.changes@.len() as int,
                                ),
                            ),
                            _ => false,
                        }
                    } else {
                        r == AppOutcome::Continue
                    }
                    &&& if is_ctrl_combo(event, 'x', 'X') {
                        bf == splice_buf(cut_buf(b1))
                    } else if is_ctrl_combo(event, 'c', 'C') || is_ctrl_combo(event, 's', 'S') {
                        bf == splice_buf(b1)
                    } else if is_ctrl_combo(event, 'v', 'V') {
                        bf == splice_buf(paste_buf(b1, clipboard))
                    } else if is_ctrl_combo(event, 'z', 'Z') {
                        bf == splice_buf(replayed_buf(h, spec_use_previous(h.version as int)))
                    } else if is_ctrl_combo(event, 'y', 'Y') {
                        bf == splice_buf(
                            replayed_buf(
                                h,
                                spec_use_next(h.version as int, h.changes@.len() as int),
                            ),
                        )
                    } else {
                        match event.code {
                            EditorKey::Char(ch) => bf == splice_buf(char_buf(b1, ch)),
                            EditorKey::Backspace => bf == splice_buf(backspace_buf(b1)),
                            EditorKey::Enter => bf == splice_buf(enter_buf(b1)),
                            EditorKey::Up => bf == splice_buf(
                                arrow_buf(b1, Direction::Up, event.shift),
                            ),
                            EditorKey::Down => bf == splice_buf(
                                arrow_buf(b1, Direction::Down, event.shift),
                            ),
                            EditorKey::Left => bf == splice_buf(
                                arrow_buf(b1, Direction::Left, event.shift),
                            ),
                            EditorKey::Right => bf == splice_buf(
                                arrow_buf(b1, Direction::Right, event.shift),
                            ),
                            _ => bf == splice_buf(b1),
                        }
                    }
                    &&& (event.kind == InputKind::Press && event.code == EditorKey::Esc)
                        ==> *final(context) == (AppContext {
                        focus: None,
                        hover: ComponentType::Code,
                        ..*old(context)
                    })
                    &&& !(event.kind == InputKind::Press && event.code == EditorKey::Esc)
                        ==> *final(context) == *old(context)
                    &&& !(is_ctrl_combo(event, 's', 'S') || is_ctrl_combo(event, 'z', 'Z')
                        || is_ctrl_combo(event, 'y', 'Y')) ==> final(self).code.history
                        == old(self).code.history
                },
                Some(panel) => {
                    &&& final(self).code == old(self).code
                    &&& if event.kind == InputKind::Press && event.code == EditorKey::Esc {
                        &&& *final(context) == (AppContext {
                            focus: None,
                            hover: panel,
                            ..*old(context)
                        })
                        &&& r == AppOutcome::Continue
                    } else {
                        &&& *final(context) == *old(context)
                        &&& r == AppOutcome::Deferred
                    }
                },
                None => {
                    &&& final(self).code == old(self).code
                    &&& if event.kind == InputKind::Press && event.code == EditorKey::Tab {
                        &&& *final(context) == (AppContext {
                            hover: next_panel(old(context).hover),
                            ..*old(context)
                        })
                        &&& r == AppOutcome::Continue
                    } else if event.kind == InputKind::Press && event.code
                        == EditorKey::Enter {
                        &&& *final(context) == (AppContext {
                            focus: Some(old(context).hover),
                            ..*old(context)
                        })
                        &&& r == AppOutcome::Continue
                    } else if event.kind == InputKind::Press && event.code == EditorKey::Esc {
                        &&& *final(context) == *old(context)
                        &&& r == AppOutcome::Quit
                    } else {
                        &&& *final(context) == *old(context)
                        &&& r == AppOutcome::Continue
                    }
                },
            },
    {
        match focus {
            Some(ComponentType::Code) => {
                let action = self.code.handle_event(context, event, clipboard);
                match action {
                    EditAction::Nothing => AppOutcome::Continue,
                    EditAction::SetClipboard(s) => AppOutcome::SetClipboard(s),
                    EditAction::SaveFile(s) => AppOutcome::SaveFile(s),
                }
            },
            Some(panel) => {
                if event.kind == InputKind::Press && matches!(event.code, EditorKey::Esc) {
                    context.set_focus(None);
                    context.set_hover(panel);
                    AppOutcome::Continue
                } else {
                    AppOutcome::Deferred
                }
            },
            None => {
                if event.kind == InputKind::Press {
                    match event.code {
                        EditorKey::Tab => {
                            let hover = *context.hover();
                            context.set_hover(next_panel_exec(hover));
                            AppOutcome::Continue
                        },
                        EditorKey::Enter => {
                            let hover = *context.hover();
                            context.set_focus(Some(hover));
                            AppOutcome::Continue
                        },
                        EditorKey::Esc => AppOutcome::Quit,
                        _ => AppOutcome::Continue,
                    }
                } else {
                    AppOutcome::Continue
                }
            },
        }
    }
}

/// The panel the hover moves to on Tab: browser, editor, shell, around.
pub open spec fn next_panel(p: ComponentType) -> ComponentType {
    match p {
        ComponentType::Project => ComponentType::Code,
        ComponentType::Code => ComponentType::Terminal,
        ComponentType::Terminal => ComponentType::Project,
    }
}

fn next_panel_exec(p: ComponentType) -> (r: ComponentType)
    ensures
        r == next_panel(p),
{
    match p {
        ComponentType::Project => ComponentType::Code,
        ComponentType::Code => ComponentType::Terminal,
        ComponentType::Terminal => ComponentType::Project,
    }
}

} // verus!
