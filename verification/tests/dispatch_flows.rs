//! Keystroke flows through the dispatcher: grouped insert sessions,
//! visual-mode commands, and save-echo handling.

use rim::action::{AppAction, EditorAction, FileAction, FileLoadSource, Flow, IoRequest};
use rim::action_handler::ActionHandlerState;
use rim::key::{KeyCode, KeyEvent};
use rim::state::{AppState, BufferId, BufferState};

fn press(handler: &mut ActionHandlerState, state: &mut AppState, key: KeyEvent) -> Flow {
    let mut out: Vec<IoRequest> = Vec::new();
    handler.apply(state, AppAction::Editor(EditorAction::KeyPressed(key)), &mut out)
}

fn buffer_of(state: &AppState, id: BufferId) -> &BufferState {
    for e in state.buffers.iter() {
        if e.key == id.0 {
            return &e.val;
        }
    }
    panic!("buffer exists");
}

#[test]
fn insert_typing_should_be_grouped_into_single_undo_step() {
    let mut handler = ActionHandlerState::new();
    let mut state = AppState::new();
    let buffer_id = state.create_buffer(None, "".to_string());
    state.bind_buffer_to_active_window(buffer_id);
    for key in [
        KeyEvent::plain(KeyCode::Char('i')),
        KeyEvent::plain(KeyCode::Char('u')),
        KeyEvent::plain(KeyCode::Char('s')),
        KeyEvent::plain(KeyCode::Char('e')),
        KeyEvent::plain(KeyCode::Esc),
    ] {
        press(&mut handler, &mut state, key);
    }
    press(&mut handler, &mut state, KeyEvent::plain(KeyCode::Char('u')));
    assert_eq!(buffer_of(&state, buffer_id).text, "");
    press(&mut handler, &mut state, KeyEvent::with_ctrl(KeyCode::Char('r')));
    assert_eq!(buffer_of(&state, buffer_id).text, "use");
}

#[test]
fn open_line_below_insert_should_be_grouped_into_single_undo_step() {
    let mut handler = ActionHandlerState::new();
    let mut state = AppState::new();
    let buffer_id = state.create_buffer(None, "a".to_string());
    state.bind_buffer_to_active_window(buffer_id);
    for key in [
        KeyEvent::plain(KeyCode::Char('o')),
        KeyEvent::plain(KeyCode::Char('u')),
        KeyEvent::plain(KeyCode::Char('s')),
        KeyEvent::plain(KeyCode::Char('e')),
        KeyEvent::plain(KeyCode::Esc),
    ] {
        press(&mut handler, &mut state, key);
    }
    assert_eq!(buffer_of(&state, buffer_id).text, "a\nuse");
    press(&mut handler, &mut state, KeyEvent::plain(KeyCode::Char('u')));
    assert_eq!(buffer_of(&state, buffer_id).text, "a");
}

#[test]
fn open_line_above_insert_should_be_grouped_into_single_undo_step() {
    let mut handler = ActionHandlerState::new();
    let mut state = AppState::new();
    let buffer_id = state.create_buffer(None, "a".to_string());
    state.bind_buffer_to_active_window(buffer_id);
    for key in [
        KeyEvent::with_shift(KeyCode::Char('o')),
        KeyEvent::plain(KeyCode::Char('u')),
        KeyEvent::plain(KeyCode::Char('s')),
        KeyEvent::plain(KeyCode::Char('e')),
        KeyEvent::plain(KeyCode::Esc),
    ] {
        press(&mut handler, &mut state, key);
    }
    assert_eq!(buffer_of(&state, buffer_id).text, "use\na");
    press(&mut handler, &mut state, KeyEvent::plain(KeyCode::Char('u')));
    assert_eq!(buffer_of(&state, buffer_id).text, "a");
}

#[test]
fn visual_delete_should_be_undoable_with_single_u() {
    let mut handler = ActionHandlerState::new();
    let mut state = AppState::new();
    let buffer_id = state.create_buffer(None, "abcd".to_string());
    state.bind_buffer_to_active_window(buffer_id);
    for key in [
        KeyEvent::plain(KeyCode::Char('v')),
        KeyEvent::plain(KeyCode::Char('l')),
        KeyEvent::plain(KeyCode::Char('d')),
    ] {
        press(&mut handler, &mut state, key);
    }
    assert_eq!(buffer_of(&state, buffer_id).text, "cd");
    press(&mut handler, &mut state, KeyEvent::plain(KeyCode::Char('u')));
    assert_eq!(buffer_of(&state, buffer_id).text, "abcd");
}

#[test]
fn visual_paste_should_be_undoable_with_single_u() {
    let mut handler = ActionHandlerState::new();
    let mut state = AppState::new();
    let buffer_id = state.create_buffer(None, "abcd".to_string());
    state.bind_buffer_to_active_window(buffer_id);
    state.line_slot = Some("XY".to_string());
    state.line_slot_line_wise = false;
    for key in [
        KeyEvent::plain(KeyCode::Char('v')),
        KeyEvent::plain(KeyCode::Char('l')),
        KeyEvent::plain(KeyCode::Char('p')),
    ] {
        press(&mut handler, &mut state, key);
    }
    assert_eq!(buffer_of(&state, buffer_id).text, "XYcd");
    press(&mut handler, &mut state, KeyEvent::plain(KeyCode::Char('u')));
    assert_eq!(buffer_of(&state, buffer_id).text, "abcd");
}

#[test]
fn normal_line_wise_paste_should_be_undoable_with_single_u() {
    let mut handler = ActionHandlerState::new();
    let mut state = AppState::new();
    let buffer_id = state.create_buffer(None, "a\nc".to_string());
    state.bind_buffer_to_active_window(buffer_id);
    state.line_slot = Some("b".to_string());
    state.line_slot_line_wise = true;
    press(&mut handler, &mut state, KeyEvent::plain(KeyCode::Char('p')));
    assert_eq!(buffer_of(&state, buffer_id).text, "a\nb\nc");
    press(&mut handler, &mut state, KeyEvent::plain(KeyCode::Char('u')));
    assert_eq!(buffer_of(&state, buffer_id).text, "a\nc");
}

#[test]
fn visual_mode_should_support_ctrl_scroll_keys() {
    let mut handler = ActionHandlerState::new();
    let mut state = AppState::new();
    let buffer_id = state.create_buffer(None, "a\nb\nc\nd".to_string());
    state.bind_buffer_to_active_window(buffer_id);
    state.enter_visual_mode();
    press(&mut handler, &mut state, KeyEvent::with_ctrl(KeyCode::Char('e')));
    assert_eq!(state.active_cursor().row, 2);
    press(&mut handler, &mut state, KeyEvent::with_ctrl(KeyCode::Char('y')));
    assert_eq!(state.active_cursor().row, 1);
}

#[test]
fn visual_mode_should_support_gg_and_g() {
    let mut handler = ActionHandlerState::new();
    let mut state = AppState::new();
    let buffer_id = state.create_buffer(None, "a\nb\nc\nd".to_string());
    state.bind_buffer_to_active_window(buffer_id);
    state.move_cursor_down();
    state.move_cursor_down();
    state.enter_visual_mode();
    press(&mut handler, &mut state, KeyEvent::plain(KeyCode::Char('g')));
    assert_eq!(state.active_cursor().row, 3);
    press(&mut handler, &mut state, KeyEvent::plain(KeyCode::Char('g')));
    assert_eq!(state.active_cursor().row, 1);
    press(&mut handler, &mut state, KeyEvent::with_shift(KeyCode::Char('G')));
    assert_eq!(state.active_cursor().row, 4);
}

#[test]
fn internal_save_echo_should_not_leave_reloading_message() {
    let mut handler = ActionHandlerState::new();
    let mut state = AppState::new();
    let buffer_id = state.create_buffer(Some("a.txt".to_string()), "old".to_string());
    state.bind_buffer_to_active_window(buffer_id);
    let mut out = Vec::new();
    let _ = handler.apply(
        &mut state,
        AppAction::File(FileAction::SaveCompleted { buffer_id, result: Ok(()) }),
        &mut out,
    );
    assert_eq!(state.status_bar.message, "file saved");
    let mut out2 = Vec::new();
    let _ = handler.apply(
        &mut state,
        AppAction::File(FileAction::ExternalChangeDetected {
            buffer_id,
            path: "a.txt".to_string(),
        }),
        &mut out2,
    );
    assert_eq!(state.status_bar.message, "file saved");
    let mut out3 = Vec::new();
    let _ = handler.apply(
        &mut state,
        AppAction::File(FileAction::LoadCompleted {
            buffer_id,
            source: FileLoadSource::External,
            result: Ok("old".to_string()),
        }),
        &mut out3,
    );
    assert_eq!(state.status_bar.message, "file saved");
}

#[test]
fn external_changed_should_reload_when_content_differs_from_internal_save_fingerprint() {
    let mut handler = ActionHandlerState::new();
    let mut state = AppState::new();
    let buffer_id = state.create_buffer(Some("a.txt".to_string()), "old".to_string());
    state.bind_buffer_to_active_window(buffer_id);
    let mut out = Vec::new();
    let _ = handler.apply(
        &mut state,
        AppAction::File(FileAction::SaveCompleted { buffer_id, result: Ok(()) }),
        &mut out,
    );
    let mut out2 = Vec::new();
    let _ = handler.apply(
        &mut state,
        AppAction::File(FileAction::LoadCompleted {
            buffer_id,
            source: FileLoadSource::External,
            result: Ok("new".to_string()),
        }),
        &mut out2,
    );
    assert_eq!(buffer_of(&state, buffer_id).text, "new");
}

#[test]
fn command_e_with_same_path_should_reuse_existing_buffer_across_tabs() {
    let mut handler = ActionHandlerState::new();
    let mut state = AppState::new();
    let existing = state.create_buffer(Some("b.txt".to_string()), "old".to_string());
    state.bind_buffer_to_active_window(existing);
    state.open_new_tab();
    state.create_untitled_buffer();
    state.enter_command_mode();
    for ch in "e b.txt".chars() {
        state.push_command_char(ch);
    }
    let mut out = Vec::new();
    let flow = handler.apply(
        &mut state,
        AppAction::Editor(EditorAction::KeyPressed(KeyEvent::plain(KeyCode::Enter))),
        &mut out,
    );
    assert_eq!(flow, Flow::Continue);
    let active_id = state.active_buffer_id().expect("active buffer exists");
    assert_eq!(active_id, existing);
    assert_eq!(state.status_bar.message, "switched b.txt");
    let count = state
        .buffers
        .iter()
        .filter(|e| e.val.path.as_deref() == Some("b.txt"))
        .count();
    assert_eq!(count, 1);
}
