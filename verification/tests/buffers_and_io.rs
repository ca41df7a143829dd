//! Buffer lifecycle, save snapshots and the file-event handling of the
//! dispatcher.

use rim::action::{AppAction, FileAction, FileLoadSource, Flow, IoRequest};
use rim::action_handler::ActionHandlerState;
use rim::key::{KeyCode, KeyEvent};
use rim::state::{AppState, BufferState};

fn test_state() -> AppState {
    let mut state = AppState::new();
    let buffer_id = state.create_buffer(Some("test.rs".to_string()), "fn main() {}".to_string());
    state.bind_buffer_to_active_window(buffer_id);
    state
}

fn set_active_buffer_text(state: &mut AppState, text: &str) {
    let buffer_id = state.active_buffer_id().expect("buffer id exists");
    for e in state.buffers.iter_mut() {
        if e.key == buffer_id.0 {
            e.val.text = text.to_string();
        }
    }
}

fn active_buffer(state: &AppState) -> &BufferState {
    let id = state.active_buffer_id().expect("buffer id exists");
    for e in state.buffers.iter() {
        if e.key == id.0 {
            return &e.val;
        }
    }
    panic!("buffer exists");
}

fn press(handler: &mut ActionHandlerState, state: &mut AppState, key: KeyEvent) -> (Flow, Vec<IoRequest>) {
    let mut out: Vec<IoRequest> = Vec::new();
    let flow = handler.apply(
        state,
        AppAction::Editor(rim::action::EditorAction::KeyPressed(key)),
        &mut out,
    );
    (flow, out)
}

fn run_command(handler: &mut ActionHandlerState, state: &mut AppState, cmd: &str) -> (Flow, Vec<IoRequest>) {
    press(handler, state, KeyEvent::plain(KeyCode::Char(':')));
    for ch in cmd.chars() {
        press(handler, state, KeyEvent::plain(KeyCode::Char(ch)));
    }
    press(handler, state, KeyEvent::plain(KeyCode::Enter))
}

#[test]
fn create_buffer_should_start_clean() {
    let mut state = AppState::new();
    let id = state.create_buffer(Some("a.rs".to_string()), "x".to_string());
    state.bind_buffer_to_active_window(id);
    let b = active_buffer(&state);
    assert!(!b.dirty);
    assert_eq!(b.name, "a.rs");
    assert_eq!(b.text, "x");
}

#[test]
fn editing_active_buffer_should_mark_dirty() {
    let mut state = test_state();
    set_active_buffer_text(&mut state, "ab");
    state.insert_char_at_cursor('x');
    assert!(active_buffer(&state).dirty);
}

#[test]
fn close_active_buffer_should_rebind_active_window_to_another_buffer() {
    let mut state = test_state();
    let first = state.active_buffer_id().expect("buffer id exists");
    let second = state.create_buffer(None, "two".to_string());
    state.bind_buffer_to_active_window(second);
    state.close_active_buffer();
    let now = state.active_buffer_id().expect("still bound");
    assert_eq!(now, first);
}

#[test]
fn close_active_buffer_should_create_untitled_when_last_buffer_closed() {
    let mut state = test_state();
    state.close_active_buffer();
    let b = active_buffer(&state);
    assert_eq!(b.name, "untitled");
    assert_eq!(b.text, "");
}

#[test]
fn create_untitled_buffer_should_bind_new_untitled_to_active_window() {
    let mut state = test_state();
    let id = state.create_untitled_buffer();
    assert_eq!(state.active_buffer_id(), Some(id));
    assert_eq!(active_buffer(&state).name, "untitled");
}

#[test]
fn switch_active_window_buffer_should_cycle_next_and_prev() {
    let mut state = test_state();
    let first = state.active_buffer_id().expect("buffer id exists");
    let second = state.create_buffer(None, "two".to_string());
    state.switch_active_window_buffer(rim::state::BufferSwitchDirection::Next);
    assert_eq!(state.active_buffer_id(), Some(second));
    state.switch_active_window_buffer(rim::state::BufferSwitchDirection::Next);
    assert_eq!(state.active_buffer_id(), Some(first));
    state.switch_active_window_buffer(rim::state::BufferSwitchDirection::Prev);
    assert_eq!(state.active_buffer_id(), Some(second));
}

#[test]
fn active_buffer_save_snapshot_should_fail_without_path() {
    let mut state = AppState::new();
    let id = state.create_buffer(None, "x".to_string());
    state.bind_buffer_to_active_window(id);
    let r = state.active_buffer_save_snapshot(None);
    assert_eq!(r.unwrap_err(), "buffer has no file path");
}

#[test]
fn active_buffer_has_path_should_reflect_current_buffer_binding() {
    let mut state = test_state();
    assert_eq!(state.active_buffer_has_path(), Some(true));
    let id = state.create_buffer(None, String::new());
    state.bind_buffer_to_active_window(id);
    assert_eq!(state.active_buffer_has_path(), Some(false));
}

#[test]
fn all_buffer_save_snapshots_should_skip_untitled_buffers() {
    let mut state = test_state();
    let _untitled = state.create_buffer(None, "u".to_string());
    let (snapshots, missing) = state.all_buffer_save_snapshots();
    assert_eq!(snapshots.len(), 1);
    assert_eq!(missing, 1);
}

#[test]
fn apply_pending_save_path_should_update_buffer_metadata() {
    let mut state = AppState::new();
    let id = state.create_buffer(None, "x".to_string());
    state.bind_buffer_to_active_window(id);
    state.set_pending_save_path(id, Some("dir/new.rs".to_string()));
    state.apply_pending_save_path_if_matches(id);
    let b = active_buffer(&state);
    assert_eq!(b.path.as_deref(), Some("dir/new.rs"));
    assert_eq!(b.name, "new.rs");
    assert!(state.pending_save_path.is_none());
}

#[test]
fn replace_buffer_text_preserving_cursor_should_keep_bottom_when_file_grows() {
    let mut state = test_state();
    set_active_buffer_text(&mut state, "a\nb");
    state.move_cursor_down();
    let id = state.active_buffer_id().expect("buffer id exists");
    state.replace_buffer_text_preserving_cursor(id, "a\nb\nc\nd".to_string());
    assert_eq!(state.active_cursor().row, 4);
}

#[test]
fn file_load_completed_should_mark_buffer_clean() {
    let mut handler = ActionHandlerState::new();
    let mut state = test_state();
    let id = state.active_buffer_id().expect("buffer id exists");
    let mut out = Vec::new();
    let flow = handler.apply(
        &mut state,
        AppAction::File(FileAction::LoadCompleted {
            buffer_id: id,
            source: FileLoadSource::Open,
            result: Ok("loaded".to_string()),
        }),
        &mut out,
    );
    assert_eq!(flow, Flow::Continue);
    assert_eq!(active_buffer(&state).text, "loaded");
    assert!(!active_buffer(&state).dirty);
    assert_eq!(state.status_bar.message, "file loaded");
}

#[test]
fn file_save_completed_should_mark_buffer_clean() {
    let mut handler = ActionHandlerState::new();
    let mut state = test_state();
    set_active_buffer_text(&mut state, "ab");
    state.insert_char_at_cursor('x');
    assert!(active_buffer(&state).dirty);
    let id = state.active_buffer_id().expect("buffer id exists");
    let mut out = Vec::new();
    let _ = handler.apply(
        &mut state,
        AppAction::File(FileAction::SaveCompleted { buffer_id: id, result: Ok(()) }),
        &mut out,
    );
    assert!(!active_buffer(&state).dirty);
    assert_eq!(state.status_bar.message, "file saved");
}

#[test]
fn command_w_should_queue_a_save_request() {
    let mut handler = ActionHandlerState::new();
    let mut state = test_state();
    let id = state.active_buffer_id().expect("buffer id exists");
    let (_flow, out) = run_command(&mut handler, &mut state, "w");
    assert_eq!(out.len(), 1);
    match &out[0] {
        IoRequest::Save { buffer_id, path, .. } => {
            assert_eq!(*buffer_id, id);
            assert_eq!(path, "test.rs");
        }
        other => panic!("unexpected request: {:?}", other),
    }
    assert_eq!(state.status_bar.message, "saving...");
}

#[test]
fn command_q_should_be_blocked_when_any_buffer_is_dirty() {
    let mut handler = ActionHandlerState::new();
    let mut state = test_state();
    set_active_buffer_text(&mut state, "ab");
    state.insert_char_at_cursor('x');
    let (flow, _out) = run_command(&mut handler, &mut state, "q");
    assert_eq!(flow, Flow::Continue);
    assert_eq!(state.status_bar.message, "quit blocked: unsaved changes (use :q!)");
}

#[test]
fn command_q_bang_should_force_quit_when_buffer_is_dirty() {
    let mut handler = ActionHandlerState::new();
    let mut state = test_state();
    set_active_buffer_text(&mut state, "ab");
    state.insert_char_at_cursor('x');
    let (flow, _out) = run_command(&mut handler, &mut state, "q!");
    assert_eq!(flow, Flow::Quit);
}

#[test]
fn command_q_should_quit_when_all_buffers_are_clean() {
    let mut handler = ActionHandlerState::new();
    let mut state = test_state();
    let (flow, _out) = run_command(&mut handler, &mut state, "q");
    assert_eq!(flow, Flow::Quit);
}

#[test]
fn command_e_should_be_blocked_when_buffer_is_dirty() {
    let mut handler = ActionHandlerState::new();
    let mut state = test_state();
    set_active_buffer_text(&mut state, "ab");
    state.insert_char_at_cursor('x');
    let (_flow, out) = run_command(&mut handler, &mut state, "e");
    assert!(out.is_empty());
    assert_eq!(state.status_bar.message, "reload blocked: buffer is dirty (use :e! to force reload)");
}

#[test]
fn command_e_bang_should_reload_even_when_buffer_is_dirty() {
    let mut handler = ActionHandlerState::new();
    let mut state = test_state();
    set_active_buffer_text(&mut state, "ab");
    state.insert_char_at_cursor('x');
    let (_flow, out) = run_command(&mut handler, &mut state, "e!");
    assert_eq!(out.len(), 1);
    assert!(matches!(out[0], IoRequest::Load { source: FileLoadSource::Open, .. }));
}

#[test]
fn command_w_should_be_blocked_when_file_was_changed_externally() {
    let mut handler = ActionHandlerState::new();
    let mut state = test_state();
    let id = state.active_buffer_id().expect("buffer id exists");
    state.set_buffer_externally_modified(id, true);
    let (_flow, out) = run_command(&mut handler, &mut state, "w");
    assert!(out.is_empty());
    assert_eq!(
        state.status_bar.message,
        "save blocked: file changed externally (use :w! to overwrite)"
    );
}

#[test]
fn external_changed_should_reload_when_buffer_is_clean() {
    let mut handler = ActionHandlerState::new();
    let mut state = test_state();
    let id = state.active_buffer_id().expect("buffer id exists");
    let mut out = Vec::new();
    let _ = handler.apply(
        &mut state,
        AppAction::File(FileAction::LoadCompleted {
            buffer_id: id,
            source: FileLoadSource::External,
            result: Ok("changed".to_string()),
        }),
        &mut out,
    );
    assert_eq!(active_buffer(&state).text, "changed");
    assert!(!active_buffer(&state).dirty);
}

#[test]
fn external_changed_should_not_reload_when_buffer_is_dirty() {
    let mut handler = ActionHandlerState::new();
    let mut state = test_state();
    set_active_buffer_text(&mut state, "mine");
    state.insert_char_at_cursor('!');
    let before = active_buffer(&state).text.clone();
    let id = state.active_buffer_id().expect("buffer id exists");
    let mut out = Vec::new();
    let _ = handler.apply(
        &mut state,
        AppAction::File(FileAction::LoadCompleted {
            buffer_id: id,
            source: FileLoadSource::External,
            result: Ok("theirs".to_string()),
        }),
        &mut out,
    );
    assert_eq!(active_buffer(&state).text, before);
    assert!(active_buffer(&state).externally_modified);
}

#[test]
fn external_change_detected_should_be_ignored_while_internal_save_in_flight() {
    let mut handler = ActionHandlerState::new();
    let mut state = test_state();
    let id = state.active_buffer_id().expect("buffer id exists");
    let (_f, _o) = run_command(&mut handler, &mut state, "w");
    let mut out = Vec::new();
    let _ = handler.apply(
        &mut state,
        AppAction::File(FileAction::ExternalChangeDetected {
            buffer_id: id,
            path: "test.rs".to_string(),
        }),
        &mut out,
    );
    assert!(out.is_empty());
}

#[test]
fn external_changed_should_be_ignored_when_it_matches_internal_save_fingerprint() {
    let mut handler = ActionHandlerState::new();
    let mut state = test_state();
    let id = state.active_buffer_id().expect("buffer id exists");
    let (_f, _o) = run_command(&mut handler, &mut state, "w");
    let saved_text = active_buffer(&state).text.clone();
    let mut out = Vec::new();
    let _ = handler.apply(
        &mut state,
        AppAction::File(FileAction::SaveCompleted { buffer_id: id, result: Ok(()) }),
        &mut out,
    );
    set_active_buffer_text(&mut state, "locally different");
    let before = active_buffer(&state).text.clone();
    let mut out2 = Vec::new();
    let _ = handler.apply(
        &mut state,
        AppAction::File(FileAction::LoadCompleted {
            buffer_id: id,
            source: FileLoadSource::External,
            result: Ok(saved_text),
        }),
        &mut out2,
    );
    assert_eq!(active_buffer(&state).text, before);
}

#[test]
fn command_e_with_path_should_open_new_file_buffer() {
    let mut handler = ActionHandlerState::new();
    let mut state = test_state();
    let (_flow, out) = run_command(&mut handler, &mut state, "e other.rs");
    assert_eq!(out.len(), 2);
    assert!(matches!(out[0], IoRequest::Watch { .. }));
    assert!(matches!(out[1], IoRequest::Load { .. }));
    assert_eq!(active_buffer(&state).name, "other.rs");
}

#[test]
fn command_e_with_same_path_should_reuse_existing_buffer_in_same_tab() {
    let mut handler = ActionHandlerState::new();
    let mut state = test_state();
    let before_count = state.buffers.len();
    let (_flow, out) = run_command(&mut handler, &mut state, "e test.rs");
    assert_eq!(state.buffers.len(), before_count);
    assert!(out.is_empty());
}


#[test]
fn state_switch_active_window_buffer_should_cycle_next_and_prev() {
    switch_active_window_buffer_should_cycle_next_and_prev();
}

#[test]
fn state_active_buffer_save_snapshot_should_fail_without_path() {
    active_buffer_save_snapshot_should_fail_without_path();
}

#[test]
fn state_apply_pending_save_path_should_update_buffer_metadata() {
    apply_pending_save_path_should_update_buffer_metadata();
}

#[test]
fn state_all_buffer_save_snapshots_should_skip_untitled_buffers() {
    all_buffer_save_snapshots_should_skip_untitled_buffers();
}

#[test]
fn state_active_buffer_has_path_should_reflect_current_buffer_binding() {
    active_buffer_has_path_should_reflect_current_buffer_binding();
}

#[test]
fn buffer_switch_active_window_buffer_should_cycle_next_and_prev() {
    switch_active_window_buffer_should_cycle_next_and_prev();
}

#[test]
fn buffer_active_buffer_save_snapshot_should_fail_without_path() {
    active_buffer_save_snapshot_should_fail_without_path();
}

#[test]
fn buffer_apply_pending_save_path_should_update_buffer_metadata() {
    apply_pending_save_path_should_update_buffer_metadata();
}

#[test]
fn buffer_all_buffer_save_snapshots_should_skip_untitled_buffers() {
    all_buffer_save_snapshots_should_skip_untitled_buffers();
}

#[test]
fn buffer_active_buffer_has_path_should_reflect_current_buffer_binding() {
    active_buffer_has_path_should_reflect_current_buffer_binding();
}

#[test]
fn close_active_buffer_should_fallback_to_left_buffer_when_available() {
    let mut state = AppState::new();
    let left = state.create_buffer(Some("left.rs".to_string()), "left".to_string());
    let middle = state.create_buffer(Some("middle.rs".to_string()), "middle".to_string());
    let _right = state.create_buffer(Some("right.rs".to_string()), "right".to_string());
    state.bind_buffer_to_active_window(middle);
    state.close_active_buffer();
    assert!(!state.buffers.iter().any(|e| e.key == middle.0));
    assert_eq!(state.active_buffer_id(), Some(left));
}

#[test]
fn create_untitled_buffer_should_insert_after_previous_active_in_switch_order() {
    let mut state = test_state();
    let first = state.active_buffer_id().expect("buffer id exists");
    let right = state.create_buffer(Some("right.rs".to_string()), "right".to_string());
    state.bind_buffer_to_active_window(first);
    let created = state.create_untitled_buffer();
    assert_eq!(state.active_buffer_id(), Some(created));
    state.switch_active_window_buffer(rim::state::BufferSwitchDirection::Next);
    assert_eq!(state.active_buffer_id(), Some(right));
}

#[test]
fn switch_active_window_buffer_should_bind_when_window_has_no_buffer() {
    let mut state = AppState::new();
    let b1 = state.create_buffer(Some("a.rs".to_string()), "a".to_string());
    let b2 = state.create_buffer(Some("b.rs".to_string()), "b".to_string());
    state.switch_active_window_buffer(rim::state::BufferSwitchDirection::Next);
    assert_eq!(state.active_buffer_id(), Some(b1));
    state.switch_active_window_buffer(rim::state::BufferSwitchDirection::Prev);
    assert_eq!(state.active_buffer_id(), Some(b2));
}

#[test]
fn switch_active_window_buffer_should_realign_scroll_to_target_cursor() {
    let mut state = test_state();
    let b2 = state.create_buffer(Some("b2.rs".to_string()), "line\nline\nline".to_string());
    state.update_active_tab_layout(80, 10);
    let wid = state.active_window_id();
    for e in state.windows.iter_mut() {
        if e.key == wid.0 {
            e.val.scroll_y = 800;
        }
    }
    state.switch_active_window_buffer(rim::state::BufferSwitchDirection::Next);
    assert_eq!(state.active_buffer_id(), Some(b2));
    let scroll_y = state
        .windows
        .iter()
        .find(|e| e.key == wid.0)
        .map(|e| e.val.scroll_y)
        .expect("window exists");
    assert_eq!(scroll_y, 0);
}

#[test]
fn state_switch_active_window_buffer_should_bind_when_window_has_no_buffer() {
    switch_active_window_buffer_should_bind_when_window_has_no_buffer();
}

#[test]
fn state_switch_active_window_buffer_should_realign_scroll_to_target_cursor() {
    switch_active_window_buffer_should_realign_scroll_to_target_cursor();
}

#[test]
fn buffer_switch_active_window_buffer_should_bind_when_window_has_no_buffer() {
    switch_active_window_buffer_should_bind_when_window_has_no_buffer();
}

#[test]
fn buffer_switch_active_window_buffer_should_realign_scroll_to_target_cursor() {
    switch_active_window_buffer_should_realign_scroll_to_target_cursor();
}
