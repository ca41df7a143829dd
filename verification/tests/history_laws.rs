//! End-to-end undo/redo behaviour: invertibility, coalescing, bounds.

use rim::action::AppAction;
use rim::action_handler::ActionHandlerState;
use rim::history::{BufferEditSnapshot, BufferHistoryEntry};
use rim::key::{KeyCode, KeyEvent};
use rim::state::{AppState, BufferState, CursorState, MAX_HISTORY_ENTRIES};

fn test_state() -> AppState {
    let mut state = AppState::new();
    let buffer_id = state.create_buffer(Some("test.rs".to_string()), "fn main() {}".to_string());
    state.bind_buffer_to_active_window(buffer_id);
    state
}

fn set_active_buffer_text(state: &mut AppState, text: &str) {
    let buffer_id = state.active_buffer_id().expect("buffer id exists");
    for e in state.buffers.iter_mut() {
        if e.key == buffer_id.0 {
            e.val.text = text.to_string();
        }
    }
}

fn active_buffer(state: &AppState) -> &BufferState {
    let id = state.active_buffer_id().expect("buffer id exists");
    for e in state.buffers.iter() {
        if e.key == id.0 {
            return &e.val;
        }
    }
    panic!("buffer exists");
}

fn press(handler: &mut ActionHandlerState, state: &mut AppState, key: KeyEvent) {
    let mut out: Vec<rim::action::IoRequest> = Vec::new();
    let _ = handler.apply(
        state,
        AppAction::Editor(rim::action::EditorAction::KeyPressed(key)),
        &mut out,
    );
}

#[test]
fn cut_then_undo_restores_text_and_cursor() {
    let mut handler = ActionHandlerState::new();
    let mut state = test_state();
    set_active_buffer_text(&mut state, "abcd");
    press(&mut handler, &mut state, KeyEvent::plain(KeyCode::Char('l')));
    assert_eq!(state.active_cursor().col, 2);
    press(&mut handler, &mut state, KeyEvent::plain(KeyCode::Char('x')));
    assert_eq!(active_buffer(&state).text, "acd");
    press(&mut handler, &mut state, KeyEvent::plain(KeyCode::Char('u')));
    assert_eq!(active_buffer(&state).text, "abcd");
    assert_eq!(state.active_cursor(), CursorState { row: 1, col: 2 });
}

#[test]
fn undo_then_redo_reproduces_post_mutation_state() {
    let mut handler = ActionHandlerState::new();
    let mut state = test_state();
    set_active_buffer_text(&mut state, "abcd");
    press(&mut handler, &mut state, KeyEvent::plain(KeyCode::Char('l')));
    press(&mut handler, &mut state, KeyEvent::plain(KeyCode::Char('x')));
    let after_text = active_buffer(&state).text.clone();
    let after_cursor = state.active_cursor();
    press(&mut handler, &mut state, KeyEvent::plain(KeyCode::Char('u')));
    press(&mut handler, &mut state, KeyEvent::with_ctrl(KeyCode::Char('r')));
    assert_eq!(active_buffer(&state).text, after_text);
    assert_eq!(state.active_cursor(), after_cursor);
}

#[test]
fn insert_session_coalesces_into_single_undo_step() {
    let mut handler = ActionHandlerState::new();
    let mut state = test_state();
    set_active_buffer_text(&mut state, "");
    press(&mut handler, &mut state, KeyEvent::plain(KeyCode::Char('i')));
    press(&mut handler, &mut state, KeyEvent::plain(KeyCode::Char('u')));
    press(&mut handler, &mut state, KeyEvent::plain(KeyCode::Char('s')));
    press(&mut handler, &mut state, KeyEvent::plain(KeyCode::Char('e')));
    press(&mut handler, &mut state, KeyEvent::plain(KeyCode::Esc));
    assert_eq!(active_buffer(&state).text, "use");
    assert_eq!(active_buffer(&state).undo_stack.len(), 1);
    press(&mut handler, &mut state, KeyEvent::plain(KeyCode::Char('u')));
    assert_eq!(active_buffer(&state).text, "");
    assert_eq!(active_buffer(&state).undo_stack.len(), 0);
}

#[test]
fn grouped_insert_session_redoes_as_one_step() {
    let mut handler = ActionHandlerState::new();
    let mut state = test_state();
    set_active_buffer_text(&mut state, "");
    press(&mut handler, &mut state, KeyEvent::plain(KeyCode::Char('i')));
    press(&mut handler, &mut state, KeyEvent::plain(KeyCode::Char('h')));
    press(&mut handler, &mut state, KeyEvent::plain(KeyCode::Char('i')));
    press(&mut handler, &mut state, KeyEvent::plain(KeyCode::Esc));
    let after_text = active_buffer(&state).text.clone();
    let after_cursor = active_buffer(&state).undo_stack[0].after_cursor;
    press(&mut handler, &mut state, KeyEvent::plain(KeyCode::Char('u')));
    assert_eq!(active_buffer(&state).text, "");
    press(&mut handler, &mut state, KeyEvent::with_ctrl(KeyCode::Char('r')));
    assert_eq!(active_buffer(&state).text, after_text);
    assert_eq!(active_buffer(&state).cursor, after_cursor);
}

#[test]
fn visual_line_delete_then_undo_restores_lines() {
    let mut handler = ActionHandlerState::new();
    let mut state = test_state();
    set_active_buffer_text(&mut state, "a\nb\nc");
    press(&mut handler, &mut state, KeyEvent::with_shift(KeyCode::Char('v')));
    press(&mut handler, &mut state, KeyEvent::plain(KeyCode::Char('j')));
    press(&mut handler, &mut state, KeyEvent::plain(KeyCode::Char('d')));
    assert_eq!(active_buffer(&state).text, "c");
    assert_eq!(state.line_slot.as_deref(), Some("a\nb"));
    press(&mut handler, &mut state, KeyEvent::plain(KeyCode::Char('u')));
    assert_eq!(active_buffer(&state).text, "a\nb\nc");
}

#[test]
fn history_bound_evicts_oldest_entry() {
    let mut state = test_state();
    set_active_buffer_text(&mut state, "");
    let buffer_id = state.active_buffer_id().expect("buffer id exists");
    for i in 0..(MAX_HISTORY_ENTRIES + 5) {
        state.push_buffer_history_entry(buffer_id, BufferHistoryEntry {
            edits: vec![BufferEditSnapshot {
                start_byte: i,
                deleted_text: String::new(),
                inserted_text: "x".to_string(),
            }],
            before_cursor: CursorState { row: 1, col: 1 },
            after_cursor: CursorState { row: 1, col: 2 },
        });
    }
    let buffer = active_buffer(&state);
    assert_eq!(buffer.undo_stack.len(), MAX_HISTORY_ENTRIES);
    assert_eq!(buffer.undo_stack[0].edits[0].start_byte, 5);
}

#[test]
fn pushing_a_new_entry_discards_the_redo_stack() {
    let mut handler = ActionHandlerState::new();
    let mut state = test_state();
    set_active_buffer_text(&mut state, "abcd");
    press(&mut handler, &mut state, KeyEvent::plain(KeyCode::Char('x')));
    press(&mut handler, &mut state, KeyEvent::plain(KeyCode::Char('u')));
    assert_eq!(active_buffer(&state).redo_stack.len(), 1);
    press(&mut handler, &mut state, KeyEvent::plain(KeyCode::Char('x')));
    assert_eq!(active_buffer(&state).redo_stack.len(), 0);
}

#[test]
fn undo_on_empty_history_reports_nothing_to_undo() {
    let mut state = test_state();
    set_active_buffer_text(&mut state, "abcd");
    let before_text = active_buffer(&state).text.clone();
    let before_cursor = state.active_cursor();
    state.undo_active_buffer_edit();
    assert_eq!(state.status_bar.message, "undo: nothing to undo");
    assert_eq!(active_buffer(&state).text, before_text);
    assert_eq!(state.active_cursor(), before_cursor);
}

#[test]
fn redo_on_empty_history_reports_nothing_to_redo() {
    let mut state = test_state();
    set_active_buffer_text(&mut state, "abcd");
    state.redo_active_buffer_edit();
    assert_eq!(state.status_bar.message, "redo: nothing to redo");
    assert_eq!(active_buffer(&state).text, "abcd");
}

#[test]
fn two_mutations_then_two_undos_restore_the_original() {
    let mut handler = ActionHandlerState::new();
    let mut state = test_state();
    set_active_buffer_text(&mut state, "abcd");
    press(&mut handler, &mut state, KeyEvent::plain(KeyCode::Char('x')));
    press(&mut handler, &mut state, KeyEvent::plain(KeyCode::Char('x')));
    assert_eq!(active_buffer(&state).text, "cd");
    press(&mut handler, &mut state, KeyEvent::plain(KeyCode::Char('u')));
    press(&mut handler, &mut state, KeyEvent::plain(KeyCode::Char('u')));
    assert_eq!(active_buffer(&state).text, "abcd");
    assert_eq!(state.active_cursor(), CursorState { row: 1, col: 1 });
}

#[test]
fn delete_line_then_undo_restores_the_line() {
    let mut handler = ActionHandlerState::new();
    let mut state = test_state();
    set_active_buffer_text(&mut state, "a\nb\nc");
    press(&mut handler, &mut state, KeyEvent::plain(KeyCode::Char('j')));
    press(&mut handler, &mut state, KeyEvent::plain(KeyCode::Char('d')));
    press(&mut handler, &mut state, KeyEvent::plain(KeyCode::Char('d')));
    assert_eq!(active_buffer(&state).text, "a\nc");
    press(&mut handler, &mut state, KeyEvent::plain(KeyCode::Char('u')));
    assert_eq!(active_buffer(&state).text, "a\nb\nc");
}

#[test]
fn join_then_undo_restores_both_lines() {
    let mut handler = ActionHandlerState::new();
    let mut state = test_state();
    set_active_buffer_text(&mut state, "ab\n  cd");
    press(&mut handler, &mut state, KeyEvent::with_shift(KeyCode::Char('j')));
    assert_eq!(active_buffer(&state).text, "ab cd");
    press(&mut handler, &mut state, KeyEvent::plain(KeyCode::Char('u')));
    assert_eq!(active_buffer(&state).text, "ab\n  cd");
}

#[test]
fn line_wise_paste_then_undo_is_a_single_step() {
    let mut handler = ActionHandlerState::new();
    let mut state = test_state();
    set_active_buffer_text(&mut state, "a\nb");
    state.line_slot = Some("x".to_string());
    state.line_slot_line_wise = true;
    press(&mut handler, &mut state, KeyEvent::plain(KeyCode::Char('p')));
    assert_eq!(active_buffer(&state).text, "a\nx\nb");
    press(&mut handler, &mut state, KeyEvent::plain(KeyCode::Char('u')));
    assert_eq!(active_buffer(&state).text, "a\nb");
}

#[test]
fn visual_paste_then_undo_is_a_single_step() {
    let mut handler = ActionHandlerState::new();
    let mut state = test_state();
    set_active_buffer_text(&mut state, "abcdef");
    state.line_slot = Some("XY".to_string());
    state.line_slot_line_wise = false;
    press(&mut handler, &mut state, KeyEvent::plain(KeyCode::Char('l')));
    press(&mut handler, &mut state, KeyEvent::plain(KeyCode::Char('v')));
    press(&mut handler, &mut state, KeyEvent::plain(KeyCode::Char('l')));
    press(&mut handler, &mut state, KeyEvent::plain(KeyCode::Char('p')));
    assert_eq!(active_buffer(&state).text, "aXYdef");
    press(&mut handler, &mut state, KeyEvent::plain(KeyCode::Char('u')));
    assert_eq!(active_buffer(&state).text, "abcdef");
}
