//! Key-chord resolution and token mapping.

use rim::action::{AppAction, BufferAction, EditorAction, LayoutAction, TabAction};
use rim::action_handler::{resolve_normal_sequence, to_normal_key, SequenceMatch};
use rim::key::{KeyCode, KeyEvent};
use rim::state::{AppState, NormalSequenceKey};

fn resolve_keys(keys: &[NormalSequenceKey]) -> SequenceMatch {
    resolve_normal_sequence(&keys.to_vec())
}

#[test]
fn to_normal_key_should_map_leader_char_to_leader_token() {
    let mut state = AppState::new();
    state.leader_key = ' ';
    let key = KeyEvent::plain(KeyCode::Char(' '));
    let mapped = to_normal_key(&state, key);
    assert_eq!(mapped, Some(NormalSequenceKey::Leader));
}

#[test]
fn to_normal_key_should_map_shift_g_to_upper_g() {
    let state = AppState::new();
    let key = KeyEvent::with_shift(KeyCode::Char('g'));
    let mapped = to_normal_key(&state, key);
    assert_eq!(mapped, Some(NormalSequenceKey::Char('G')));
}

#[test]
fn resolve_normal_sequence_should_keep_leader_w_pending() {
    let seq = vec![NormalSequenceKey::Leader, NormalSequenceKey::Char('w')];
    let resolved = resolve_keys(&seq);
    assert!(matches!(resolved, SequenceMatch::Pending));
}

#[test]
fn resolve_normal_sequence_should_map_leader_w_v_to_split_vertical() {
    let seq = vec![NormalSequenceKey::Leader, NormalSequenceKey::Char('w'), NormalSequenceKey::Char('v')];
    let resolved = resolve_keys(&seq);
    assert!(matches!(resolved, SequenceMatch::Action(AppAction::Layout(LayoutAction::SplitVertical))));
}

#[test]
fn resolve_normal_sequence_should_map_leader_w_h_to_split_horizontal() {
    let seq = vec![NormalSequenceKey::Leader, NormalSequenceKey::Char('w'), NormalSequenceKey::Char('h')];
    let resolved = resolve_keys(&seq);
    assert!(matches!(resolved, SequenceMatch::Action(AppAction::Layout(LayoutAction::SplitHorizontal))));
}

#[test]
fn resolve_normal_sequence_should_map_leader_tab_n_to_new_tab() {
    let seq = vec![NormalSequenceKey::Leader, NormalSequenceKey::Tab, NormalSequenceKey::Char('n')];
    let resolved = resolve_keys(&seq);
    assert!(matches!(resolved, SequenceMatch::Action(AppAction::Tab(TabAction::New))));
}

#[test]
fn resolve_normal_sequence_should_map_leader_tab_d_to_close_tab() {
    let seq = vec![NormalSequenceKey::Leader, NormalSequenceKey::Tab, NormalSequenceKey::Char('d')];
    let resolved = resolve_keys(&seq);
    assert!(matches!(resolved, SequenceMatch::Action(AppAction::Tab(TabAction::CloseCurrent))));
}

#[test]
fn resolve_normal_sequence_should_map_leader_tab_left_bracket_to_prev_tab() {
    let seq = vec![NormalSequenceKey::Leader, NormalSequenceKey::Tab, NormalSequenceKey::Char('[')];
    let resolved = resolve_keys(&seq);
    assert!(matches!(resolved, SequenceMatch::Action(AppAction::Tab(TabAction::SwitchPrev))));
}

#[test]
fn resolve_normal_sequence_should_map_leader_tab_right_bracket_to_next_tab() {
    let seq = vec![NormalSequenceKey::Leader, NormalSequenceKey::Tab, NormalSequenceKey::Char(']')];
    let resolved = resolve_keys(&seq);
    assert!(matches!(resolved, SequenceMatch::Action(AppAction::Tab(TabAction::SwitchNext))));
}

#[test]
fn resolve_normal_sequence_should_map_upper_h_to_prev_buffer() {
    let seq = vec![NormalSequenceKey::Char('H')];
    let resolved = resolve_keys(&seq);
    assert!(matches!(resolved, SequenceMatch::Action(AppAction::Buffer(BufferAction::SwitchPrev))));
}

#[test]
fn resolve_normal_sequence_should_map_upper_l_to_next_buffer() {
    let seq = vec![NormalSequenceKey::Char('L')];
    let resolved = resolve_keys(&seq);
    assert!(matches!(resolved, SequenceMatch::Action(AppAction::Buffer(BufferAction::SwitchNext))));
}

#[test]
fn resolve_normal_sequence_should_map_gg_to_move_file_start() {
    let seq = vec![NormalSequenceKey::Char('g'), NormalSequenceKey::Char('g')];
    let resolved = resolve_keys(&seq);
    assert!(matches!(resolved, SequenceMatch::Action(AppAction::Editor(EditorAction::MoveFileStart))));
}

#[test]
fn resolve_normal_sequence_should_map_upper_g_to_move_file_end() {
    let seq = vec![NormalSequenceKey::Char('G')];
    let resolved = resolve_keys(&seq);
    assert!(matches!(resolved, SequenceMatch::Action(AppAction::Editor(EditorAction::MoveFileEnd))));
}

#[test]
fn resolve_normal_sequence_should_map_upper_j_to_join_line_below() {
    let seq = vec![NormalSequenceKey::Char('J')];
    let resolved = resolve_keys(&seq);
    assert!(matches!(resolved, SequenceMatch::Action(AppAction::Editor(EditorAction::JoinLineBelow))));
}

#[test]
fn resolve_normal_sequence_should_map_upper_v_to_enter_visual_line_mode() {
    let seq = vec![NormalSequenceKey::Char('V')];
    let resolved = resolve_keys(&seq);
    assert!(matches!(resolved, SequenceMatch::Action(AppAction::Editor(EditorAction::EnterVisualLineMode))));
}

#[test]
fn resolve_normal_sequence_should_map_u_to_undo() {
    let seq = vec![NormalSequenceKey::Char('u')];
    let resolved = resolve_keys(&seq);
    assert!(matches!(resolved, SequenceMatch::Action(AppAction::Editor(EditorAction::Undo))));
}

#[test]
fn resolve_normal_sequence_should_map_ctrl_e_to_scroll_view_down() {
    let seq = vec![NormalSequenceKey::Ctrl('e')];
    let resolved = resolve_keys(&seq);
    assert!(matches!(resolved, SequenceMatch::Action(AppAction::Editor(EditorAction::ScrollViewDown))));
}

#[test]
fn resolve_normal_sequence_should_map_ctrl_y_to_scroll_view_up() {
    let seq = vec![NormalSequenceKey::Ctrl('y')];
    let resolved = resolve_keys(&seq);
    assert!(matches!(resolved, SequenceMatch::Action(AppAction::Editor(EditorAction::ScrollViewUp))));
}

#[test]
fn resolve_normal_sequence_should_map_ctrl_d_to_scroll_view_half_page_down() {
    let seq = vec![NormalSequenceKey::Ctrl('d')];
    let resolved = resolve_keys(&seq);
    assert!(matches!(resolved, SequenceMatch::Action(AppAction::Editor(EditorAction::ScrollViewHalfPageDown))));
}

#[test]
fn resolve_normal_sequence_should_map_ctrl_u_to_scroll_view_half_page_up() {
    let seq = vec![NormalSequenceKey::Ctrl('u')];
    let resolved = resolve_keys(&seq);
    assert!(matches!(resolved, SequenceMatch::Action(AppAction::Editor(EditorAction::ScrollViewHalfPageUp))));
}

#[test]
fn resolve_normal_sequence_should_map_ctrl_r_to_redo() {
    let seq = vec![NormalSequenceKey::Ctrl('r')];
    let resolved = resolve_keys(&seq);
    assert!(matches!(resolved, SequenceMatch::Action(AppAction::Editor(EditorAction::Redo))));
}

#[test]
fn resolve_normal_sequence_should_map_leader_b_d_to_close_active_buffer() {
    let seq = vec![NormalSequenceKey::Leader, NormalSequenceKey::Char('b'), NormalSequenceKey::Char('d')];
    let resolved = resolve_keys(&seq);
    assert!(matches!(resolved, SequenceMatch::Action(AppAction::Editor(EditorAction::CloseActiveBuffer))));
}

#[test]
fn resolve_normal_sequence_should_map_leader_b_n_to_new_empty_buffer() {
    let seq = vec![NormalSequenceKey::Leader, NormalSequenceKey::Char('b'), NormalSequenceKey::Char('n')];
    let resolved = resolve_keys(&seq);
    assert!(matches!(resolved, SequenceMatch::Action(AppAction::Editor(EditorAction::NewEmptyBuffer))));
}

#[test]
fn unmapped_key_after_leader_w_clears_pending_sequence() {
    let mut state = AppState::new();
    let mut handler = rim::action_handler::ActionHandlerState::new();
    let mut out = Vec::new();
    let leader = state.leader_key;
    handler.handle_key(&mut state, KeyEvent::plain(KeyCode::Char(leader)), &mut out);
    handler.handle_key(&mut state, KeyEvent::plain(KeyCode::Char('w')), &mut out);
    assert_eq!(state.normal_sequence.len(), 2);
    handler.handle_key(&mut state, KeyEvent::plain(KeyCode::Char('q')), &mut out);
    assert_eq!(state.normal_sequence.len(), 0);
    assert_eq!(state.status_bar.key_sequence, "");
}

#[test]
fn leader_w_v_runs_the_vertical_split_command() {
    let mut state = AppState::new();
    let mut handler = rim::action_handler::ActionHandlerState::new();
    let mut out = Vec::new();
    let leader = state.leader_key;
    handler.handle_key(&mut state, KeyEvent::plain(KeyCode::Char(leader)), &mut out);
    handler.handle_key(&mut state, KeyEvent::plain(KeyCode::Char('w')), &mut out);
    handler.handle_key(&mut state, KeyEvent::plain(KeyCode::Char('v')), &mut out);
    assert_eq!(state.normal_sequence.len(), 0);
    assert_eq!(state.status_bar.message, "split vertical");
    assert_eq!(state.active_tab_window_ids().len(), 2);
}
