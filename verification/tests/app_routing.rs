use std::path::PathBuf;

use tui_editor::code::Line;
use tui_editor::component::CodeComponent;
use tui_editor::context::{App, AppContext, AppOutcome, ComponentType, ProjectComponent};
use tui_editor::input::{EditAction, EditorKey, InputEvent, InputKind};
use tui_editor::terminal::TerminalComponent;

fn fresh_app_and_context() -> (App, AppContext) {
    let folder = PathBuf::from(".");
    let context = AppContext::new(folder.clone(), None, None, ComponentType::Project);
    let app = App::new(
        ProjectComponent::new(folder.clone()),
        CodeComponent::new(),
        TerminalComponent::new(),
        folder,
    );
    (app, context)
}

// Construction of the ProjectComponent struct: a fresh browser lists
// nothing until the caller hands it a directory listing.
#[test]
fn test_new_project_component() {
    let path = PathBuf::from(".");
    let project_component = ProjectComponent::new(path);

    assert_eq!(project_component.get_contents().len(), 0);
    assert_eq!(project_component.get_hover().clone(), 0);
    assert_eq!(project_component.get_focus().clone(), None);
    assert_eq!(project_component.get_popup(), false);
    assert_eq!(project_component.get_popup_decision(), true);
}

// Tab cycles the hover through the panels: browser, editor, shell, around.
#[test]
pub fn hover_test() {
    let (mut app, mut context) = fresh_app_and_context();

    let fake_event = InputEvent::press(EditorKey::Tab);

    assert_eq!(context.hover().clone(), ComponentType::Project);
    app.handle_event(&mut context, None, fake_event.clone(), None);
    assert_eq!(context.hover().clone(), ComponentType::Code);
    app.handle_event(&mut context, None, fake_event.clone(), None);
    assert_eq!(context.hover().clone(), ComponentType::Terminal);
    app.handle_event(&mut context, None, fake_event, None);
    assert_eq!(context.hover().clone(), ComponentType::Project);
}

// Enter focuses the hovered panel; Esc hands focus back; Tab moves on.
#[test]
pub fn focus_test() {
    let (mut app, mut context) = fresh_app_and_context();

    let fake_tab_event = InputEvent::press(EditorKey::Tab);
    let fake_enter_event = InputEvent::press(EditorKey::Enter);
    let fake_esc_event = InputEvent::press(EditorKey::Esc);

    assert_eq!(context.focus().clone(), None);
    app.handle_event(&mut context, None, fake_enter_event.clone(), None);
    assert_eq!(context.focus().clone(), Some(ComponentType::Project));
    app.handle_event(&mut context, Some(ComponentType::Project), fake_esc_event.clone(), None);
    app.handle_event(&mut context, None, fake_tab_event.clone(), None);
    app.handle_event(&mut context, None, fake_enter_event.clone(), None);
    assert_eq!(context.focus().clone(), Some(ComponentType::Code));
    app.handle_event(&mut context, Some(ComponentType::Code), fake_esc_event.clone(), None);
    app.handle_event(&mut context, None, fake_tab_event.clone(), None);
    app.handle_event(&mut context, None, fake_enter_event.clone(), None);
    assert_eq!(context.focus().clone(), Some(ComponentType::Terminal));
    app.handle_event(&mut context, Some(ComponentType::Terminal), fake_esc_event.clone(), None);
    app.handle_event(&mut context, None, fake_tab_event.clone(), None);
    app.handle_event(&mut context, None, fake_enter_event.clone(), None);
    assert_eq!(context.focus().clone(), Some(ComponentType::Project));
}

// Esc without focus asks the application to quit.
#[test]
fn esc_without_focus_quits() {
    let (mut app, mut context) = fresh_app_and_context();
    let outcome = app.handle_event(&mut context, None, InputEvent::press(EditorKey::Esc), None);
    assert_eq!(outcome, AppOutcome::Quit);
}

// A non-Esc event for a focused panel the library cannot drive is handed
// back to the caller.
#[test]
fn project_events_are_deferred() {
    let (mut app, mut context) = fresh_app_and_context();
    context.set_focus(Some(ComponentType::Project));
    let outcome = app.handle_event(
        &mut context,
        Some(ComponentType::Project),
        InputEvent::press(EditorKey::Down),
        None,
    );
    assert_eq!(outcome, AppOutcome::Deferred);
}

// Typing with the editor focused goes through to the buffer.
#[test]
fn focused_editor_receives_characters() {
    let (mut app, mut context) = fresh_app_and_context();
    app.get_mut_code().get_mut_current().add_line(Line::new(0, "bc".to_string()));
    context.set_focus(Some(ComponentType::Code));
    let outcome = app.handle_event(
        &mut context,
        Some(ComponentType::Code),
        InputEvent::press(EditorKey::Char('a')),
        None,
    );
    assert_eq!(outcome, AppOutcome::Continue);
    app.get_mut_code().get_mut_current().remove_cursor();
    assert_eq!(app.get_code().get_current().get_line(0).unwrap().get_string(), "abc");
}

// Ctrl+S with the editor focused asks the caller to persist the committed
// text.
#[test]
fn control_s_requests_save() {
    let (mut app, mut context) = fresh_app_and_context();
    let save_event =
        InputEvent::new(EditorKey::Char('s'), false, true, InputKind::Press);
    let outcome =
        app.handle_event(&mut context, Some(ComponentType::Code), save_event, None);
    // the fresh history holds an empty snapshot and no changes, so the
    // committed text is empty
    match outcome {
        AppOutcome::SaveFile(text) => assert_eq!(text, ""),
        other => panic!("expected a save request, got {:?}", other),
    }
}

// Esc from the focused editor drops focus and leaves hover on the editor.
#[test]
fn editor_esc_releases_focus() {
    let (mut app, mut context) = fresh_app_and_context();
    context.set_focus(Some(ComponentType::Code));
    let action = app.get_mut_code().handle_event(
        &mut context,
        InputEvent::press(EditorKey::Esc),
        None,
    );
    assert_eq!(action, EditAction::Nothing);
    assert_eq!(context.focus().clone(), None);
    assert_eq!(context.hover().clone(), ComponentType::Code);
}

#[test]
pub fn selection_events_test() {
}

#[test]
pub fn modifiers_events_test() {
}

#[test]
pub fn enter_events_test() {
}

#[test]
pub fn delete_events_test() {
}
