//! Mode transitions, the status line, tabs and window layout.

use rim::state::{AppState, BufferState, CursorState, SplitAxis, TabId};

fn test_state() -> AppState {
    let mut state = AppState::new();
    let buffer_id = state.create_buffer(Some("test.rs".to_string()), "fn main() {}".to_string());
    state.bind_buffer_to_active_window(buffer_id);
    state
}

fn set_active_buffer_text(state: &mut AppState, text: &str) {
    let buffer_id = state.active_buffer_id().expect("buffer id exists");
    for e in state.buffers.iter_mut() {
        if e.key == buffer_id.0 {
            e.val.text = text.to_string();
        }
    }
}

fn window_rect(state: &AppState, id: rim::state::WindowId) -> (u16, u16, u16, u16) {
    for e in state.windows.iter() {
        if e.key == id.0 {
            return (e.val.x, e.val.y, e.val.width, e.val.height);
        }
    }
    panic!("window exists");
}

#[test]
fn insert_mode_should_toggle_status_mode_text() {
    let mut state = test_state();
    assert!(!state.is_insert_mode());
    state.enter_insert_mode();
    assert!(state.is_insert_mode());
    assert_eq!(state.status_bar.mode, "INSERT");
    state.exit_insert_mode();
    assert!(!state.is_insert_mode());
    assert_eq!(state.status_bar.mode, "NORMAL");
}

#[test]
fn exit_insert_mode_should_clamp_cursor_from_trailing_newline_slot() {
    let mut state = test_state();
    set_active_buffer_text(&mut state, "ab");
    state.enter_insert_mode();
    state.move_cursor_right_for_insert();
    state.move_cursor_right_for_insert();
    assert_eq!(state.active_cursor().col, 3);
    state.exit_insert_mode();
    assert_eq!(state.active_cursor().col, 2);
}

#[test]
fn visual_mode_should_set_anchor_and_status_mode() {
    let mut state = test_state();
    set_active_buffer_text(&mut state, "abc");
    state.move_cursor_right();
    state.enter_visual_mode();
    assert!(state.is_visual_mode());
    assert_eq!(state.visual_anchor, Some(CursorState { row: 1, col: 2 }));
    assert_eq!(state.status_bar.mode, "VISUAL");
}

#[test]
fn visual_mode_exit_should_clear_anchor_and_restore_normal_mode() {
    let mut state = test_state();
    state.enter_visual_mode();
    state.exit_visual_mode();
    assert!(!state.is_visual_mode());
    assert_eq!(state.visual_anchor, None);
    assert_eq!(state.status_bar.mode, "NORMAL");
}

#[test]
fn visual_line_mode_should_set_line_anchor_and_status_mode() {
    let mut state = test_state();
    set_active_buffer_text(&mut state, "abc");
    state.move_cursor_right();
    state.enter_visual_line_mode();
    assert!(state.is_visual_line_mode());
    assert_eq!(state.visual_anchor, Some(CursorState { row: 1, col: 1 }));
    assert_eq!(state.status_bar.mode, "VISUAL LINE");
}

#[test]
fn command_mode_should_toggle_and_show_prompt_in_status_line() {
    let mut state = test_state();
    state.enter_command_mode();
    assert!(state.is_command_mode());
    state.push_command_char('w');
    assert!(state.status_line().starts_with(":w"));
    state.exit_command_mode();
    assert!(!state.is_command_mode());
}

#[test]
fn take_command_line_should_return_trimmed_text_and_leave_command_mode() {
    let mut state = test_state();
    state.enter_command_mode();
    state.push_command_char(' ');
    state.push_command_char('w');
    state.push_command_char(' ');
    let command = state.take_command_line();
    assert_eq!(command, "w");
    assert!(!state.is_command_mode());
}

#[test]
fn normal_mode_status_line_should_include_cursor_position() {
    let mut state = test_state();
    set_active_buffer_text(&mut state, "abc\ndef");
    let line = state.status_line();
    assert!(line.contains("1:1"));
    assert!(line.ends_with("Top"));
}

#[test]
fn normal_mode_status_line_should_show_percentage_between_top_and_bot() {
    let mut state = test_state();
    set_active_buffer_text(&mut state, "a\nb\nc\nd");
    state.move_cursor_down();
    let line = state.status_line();
    assert!(line.ends_with("50%"));
}

#[test]
fn switch_and_remove_tab_flow() {
    let mut state = test_state();
    let t1 = state.active_tab;
    let t2 = state.open_new_tab();
    assert_eq!(state.active_tab, t2);
    state.switch_tab(t1);
    assert_eq!(state.active_tab, t1);
    state.remove_tab(t2);
    assert_eq!(state.tabs.len(), 1);
    assert_eq!(state.active_tab, t1);
}

#[test]
fn remove_active_tab_should_switch_to_another_when_not_last() {
    let mut state = test_state();
    let t1 = state.active_tab;
    let t2 = state.open_new_tab();
    assert_eq!(state.active_tab, t2);
    state.remove_tab(t2);
    assert_eq!(state.active_tab, t1);
}

#[test]
fn open_new_tab_should_insert_after_active_tab() {
    let mut state = test_state();
    let t2 = state.open_new_tab();
    assert_eq!(t2, TabId(2));
    state.switch_tab(TabId(1));
    let t_mid = state.open_new_tab();
    assert_eq!(t_mid, TabId(2));
    assert_eq!(state.tabs.len(), 3);
}

#[test]
fn switch_prev_next_tab_should_change_active_tab_by_one_step() {
    let mut state = test_state();
    let _t2 = state.open_new_tab();
    let _t3 = state.open_new_tab();
    state.switch_to_prev_tab();
    assert_eq!(state.active_tab, TabId(2));
    state.switch_to_next_tab();
    assert_eq!(state.active_tab, TabId(3));
}

#[test]
fn switch_prev_next_tab_should_noop_at_edges() {
    let mut state = test_state();
    state.switch_to_prev_tab();
    assert_eq!(state.active_tab, TabId(1));
    state.switch_to_next_tab();
    assert_eq!(state.active_tab, TabId(1));
}

#[test]
fn close_current_tab_should_switch_to_another_tab() {
    let mut state = test_state();
    let _t2 = state.open_new_tab();
    state.close_current_tab();
    assert_eq!(state.tabs.len(), 1);
    assert_eq!(state.active_tab, TabId(1));
}

#[test]
fn close_current_tab_should_prefer_lower_tab_id() {
    let mut state = test_state();
    let _t2 = state.open_new_tab();
    let _t3 = state.open_new_tab();
    state.close_current_tab();
    assert_eq!(state.active_tab, TabId(2));
}

#[test]
fn close_middle_tab_should_compact_following_tab_ids() {
    let mut state = test_state();
    let t2 = state.open_new_tab();
    let _t3 = state.open_new_tab();
    state.switch_tab(t2);
    state.close_current_tab();
    assert_eq!(state.tabs.len(), 2);
    assert!(state.tabs.iter().any(|e| e.key == 1));
    assert!(state.tabs.iter().any(|e| e.key == 2));
}

#[test]
fn close_current_tab_should_noop_when_only_one_tab() {
    let mut state = test_state();
    state.close_current_tab();
    assert_eq!(state.tabs.len(), 1);
}

#[test]
fn open_new_tab_should_reuse_deleted_tab_id() {
    let mut state = test_state();
    let t2 = state.open_new_tab();
    state.remove_tab(t2);
    let t2_again = state.open_new_tab();
    assert_eq!(t2_again, TabId(2));
}

#[test]
fn horizontal_split_should_half_width_for_two_windows() {
    let mut state = test_state();
    state.update_active_tab_layout(80, 24);
    let first = state.active_window_id();
    state.split_active_window(SplitAxis::Horizontal);
    let second = state.active_window_id();
    let (x1, _y1, w1, h1) = window_rect(&state, first);
    let (x2, _y2, w2, h2) = window_rect(&state, second);
    assert_eq!(x1, 0);
    assert_eq!(w1, 40);
    assert_eq!(x2, 40);
    assert_eq!(w2, 40);
    assert_eq!(h1, 24);
    assert_eq!(h2, 24);
}

#[test]
fn vertical_split_should_half_height_for_two_windows() {
    let mut state = test_state();
    state.update_active_tab_layout(80, 24);
    let first = state.active_window_id();
    state.split_active_window(SplitAxis::Vertical);
    let second = state.active_window_id();
    let (_x1, y1, w1, h1) = window_rect(&state, first);
    let (_x2, y2, w2, h2) = window_rect(&state, second);
    assert_eq!(y1, 0);
    assert_eq!(h1, 12);
    assert_eq!(y2, 12);
    assert_eq!(h2, 12);
    assert_eq!(w1, 80);
    assert_eq!(w2, 80);
}

#[test]
fn nested_split_should_only_affect_active_cell() {
    let mut state = test_state();
    state.update_active_tab_layout(80, 24);
    let first = state.active_window_id();
    state.split_active_window(SplitAxis::Horizontal);
    state.split_active_window(SplitAxis::Vertical);
    let (_x1, _y1, w1, h1) = window_rect(&state, first);
    assert_eq!(w1, 40);
    assert_eq!(h1, 24);
    assert_eq!(state.active_tab_window_ids().len(), 3);
}

#[test]
fn focus_window_direction_should_switch_to_adjacent_window() {
    let mut state = test_state();
    state.update_active_tab_layout(80, 24);
    let first = state.active_window_id();
    state.split_active_window(SplitAxis::Horizontal);
    let second = state.active_window_id();
    state.focus_window(rim::state::FocusDirection::Left);
    assert_eq!(state.active_window_id(), first);
    state.focus_window(rim::state::FocusDirection::Right);
    assert_eq!(state.active_window_id(), second);
}

#[test]
fn close_active_window_should_remove_when_multiple_windows() {
    let mut state = test_state();
    state.update_active_tab_layout(80, 24);
    state.split_active_window(SplitAxis::Horizontal);
    assert_eq!(state.active_tab_window_ids().len(), 2);
    state.close_active_window();
    assert_eq!(state.active_tab_window_ids().len(), 1);
}

#[test]
fn close_active_window_should_absorb_neighbor_after_v_then_h() {
    let mut state = test_state();
    state.update_active_tab_layout(80, 24);
    let first = state.active_window_id();
    state.split_active_window(SplitAxis::Horizontal);
    state.close_active_window();
    let (_x, _y, w, h) = window_rect(&state, first);
    assert_eq!(w, 80);
    assert_eq!(h, 24);
}

#[test]
fn same_buffer_in_different_windows_should_share_cursor_position() {
    let mut state = test_state();
    set_active_buffer_text(&mut state, "abc");
    state.update_active_tab_layout(80, 24);
    state.split_active_window(SplitAxis::Horizontal);
    state.move_cursor_right();
    state.focus_window(rim::state::FocusDirection::Left);
    assert_eq!(state.active_cursor().col, 2);
}

#[test]
fn different_buffers_should_keep_separate_cursor_positions() {
    let mut state = test_state();
    set_active_buffer_text(&mut state, "abc");
    state.move_cursor_right();
    let b2 = state.create_buffer(None, "xyz".to_string());
    state.bind_buffer_to_active_window(b2);
    assert_eq!(state.active_cursor().col, 1);
}


#[test]
fn state_switch_and_remove_tab_flow() {
    switch_and_remove_tab_flow();
}

#[test]
fn state_remove_active_tab_should_switch_to_another_when_not_last() {
    remove_active_tab_should_switch_to_another_when_not_last();
}

#[test]
fn state_horizontal_split_should_half_width_for_two_windows() {
    horizontal_split_should_half_width_for_two_windows();
}

#[test]
fn state_vertical_split_should_half_height_for_two_windows() {
    vertical_split_should_half_height_for_two_windows();
}

#[test]
fn state_nested_split_should_only_affect_active_cell() {
    nested_split_should_only_affect_active_cell();
}

#[test]
fn state_open_new_tab_should_insert_after_active_tab() {
    open_new_tab_should_insert_after_active_tab();
}

#[test]
fn state_switch_prev_next_tab_should_change_active_tab_by_one_step() {
    switch_prev_next_tab_should_change_active_tab_by_one_step();
}

#[test]
fn state_switch_prev_next_tab_should_noop_at_edges() {
    switch_prev_next_tab_should_noop_at_edges();
}

#[test]
fn state_close_current_tab_should_switch_to_another_tab() {
    close_current_tab_should_switch_to_another_tab();
}

#[test]
fn state_close_current_tab_should_prefer_lower_tab_id() {
    close_current_tab_should_prefer_lower_tab_id();
}

#[test]
fn state_close_middle_tab_should_compact_following_tab_ids() {
    close_middle_tab_should_compact_following_tab_ids();
}

#[test]
fn state_close_current_tab_should_noop_when_only_one_tab() {
    close_current_tab_should_noop_when_only_one_tab();
}

#[test]
fn state_open_new_tab_should_reuse_deleted_tab_id() {
    open_new_tab_should_reuse_deleted_tab_id();
}

#[test]
fn state_same_buffer_in_different_windows_should_share_cursor_position() {
    same_buffer_in_different_windows_should_share_cursor_position();
}

#[test]
fn state_different_buffers_should_keep_separate_cursor_positions() {
    different_buffers_should_keep_separate_cursor_positions();
}

#[test]
fn state_focus_window_direction_should_switch_to_adjacent_window() {
    focus_window_direction_should_switch_to_adjacent_window();
}

#[test]
fn state_close_active_window_should_remove_when_multiple_windows() {
    close_active_window_should_remove_when_multiple_windows();
}

#[test]
fn state_close_active_window_should_absorb_neighbor_after_v_then_h() {
    close_active_window_should_absorb_neighbor_after_v_then_h();
}

#[test]
fn state_insert_mode_should_toggle_status_mode_text() {
    insert_mode_should_toggle_status_mode_text();
}

#[test]
fn state_visual_mode_should_set_anchor_and_status_mode() {
    visual_mode_should_set_anchor_and_status_mode();
}

#[test]
fn state_visual_mode_exit_should_clear_anchor_and_restore_normal_mode() {
    visual_mode_exit_should_clear_anchor_and_restore_normal_mode();
}

#[test]
fn state_visual_line_mode_should_set_line_anchor_and_status_mode() {
    visual_line_mode_should_set_line_anchor_and_status_mode();
}

#[test]
fn state_command_mode_should_toggle_and_show_prompt_in_status_line() {
    command_mode_should_toggle_and_show_prompt_in_status_line();
}

#[test]
fn state_take_command_line_should_return_trimmed_text_and_leave_command_mode() {
    take_command_line_should_return_trimmed_text_and_leave_command_mode();
}

#[test]
fn buffer_same_buffer_in_different_windows_should_share_cursor_position() {
    same_buffer_in_different_windows_should_share_cursor_position();
}

#[test]
fn buffer_different_buffers_should_keep_separate_cursor_positions() {
    different_buffers_should_keep_separate_cursor_positions();
}

#[test]
fn edit_visual_mode_should_set_anchor_and_status_mode() {
    visual_mode_should_set_anchor_and_status_mode();
}

#[test]
fn edit_visual_mode_exit_should_clear_anchor_and_restore_normal_mode() {
    visual_mode_exit_should_clear_anchor_and_restore_normal_mode();
}

#[test]
fn edit_visual_line_mode_should_set_line_anchor_and_status_mode() {
    visual_line_mode_should_set_line_anchor_and_status_mode();
}

#[test]
fn mode_io_insert_mode_should_toggle_status_mode_text() {
    insert_mode_should_toggle_status_mode_text();
}

#[test]
fn mode_io_command_mode_should_toggle_and_show_prompt_in_status_line() {
    command_mode_should_toggle_and_show_prompt_in_status_line();
}

#[test]
fn mode_io_take_command_line_should_return_trimmed_text_and_leave_command_mode() {
    take_command_line_should_return_trimmed_text_and_leave_command_mode();
}

#[test]
fn tab_switch_and_remove_tab_flow() {
    switch_and_remove_tab_flow();
}

#[test]
fn tab_remove_active_tab_should_switch_to_another_when_not_last() {
    remove_active_tab_should_switch_to_another_when_not_last();
}

#[test]
fn tab_open_new_tab_should_insert_after_active_tab() {
    open_new_tab_should_insert_after_active_tab();
}

#[test]
fn tab_switch_prev_next_tab_should_change_active_tab_by_one_step() {
    switch_prev_next_tab_should_change_active_tab_by_one_step();
}

#[test]
fn tab_switch_prev_next_tab_should_noop_at_edges() {
    switch_prev_next_tab_should_noop_at_edges();
}

#[test]
fn tab_close_current_tab_should_switch_to_another_tab() {
    close_current_tab_should_switch_to_another_tab();
}

#[test]
fn tab_close_current_tab_should_prefer_lower_tab_id() {
    close_current_tab_should_prefer_lower_tab_id();
}

#[test]
fn tab_close_middle_tab_should_compact_following_tab_ids() {
    close_middle_tab_should_compact_following_tab_ids();
}

#[test]
fn tab_close_current_tab_should_noop_when_only_one_tab() {
    close_current_tab_should_noop_when_only_one_tab();
}

#[test]
fn tab_open_new_tab_should_reuse_deleted_tab_id() {
    open_new_tab_should_reuse_deleted_tab_id();
}

#[test]
fn window_horizontal_split_should_half_width_for_two_windows() {
    horizontal_split_should_half_width_for_two_windows();
}

#[test]
fn window_vertical_split_should_half_height_for_two_windows() {
    vertical_split_should_half_height_for_two_windows();
}

#[test]
fn window_nested_split_should_only_affect_active_cell() {
    nested_split_should_only_affect_active_cell();
}

#[test]
fn window_focus_window_direction_should_switch_to_adjacent_window() {
    focus_window_direction_should_switch_to_adjacent_window();
}

#[test]
fn window_close_active_window_should_remove_when_multiple_windows() {
    close_active_window_should_remove_when_multiple_windows();
}

#[test]
fn window_close_active_window_should_absorb_neighbor_after_v_then_h() {
    close_active_window_should_absorb_neighbor_after_v_then_h();
}

#[test]
fn close_left_after_h_then_right_v_should_expand_right_group() {
    let mut state = test_state();
    state.update_active_tab_layout(100, 20);
    state.split_active_window(SplitAxis::Horizontal);
    state.split_active_window(SplitAxis::Vertical);
    state.focus_window(rim::state::FocusDirection::Left);
    state.close_active_window();
    let ids = state.active_tab_window_ids();
    assert_eq!(ids.len(), 2);
    let mut rects: Vec<(u16, u16, u16, u16)> = ids.iter().map(|id| window_rect(&state, *id)).collect();
    rects.sort_by_key(|r| (r.1, r.0));
    assert_eq!(rects[0], (0, 0, 100, 10));
    assert_eq!(rects[1], (0, 10, 100, 10));
}

#[test]
fn close_left_after_h_v_h_v_should_not_leave_left_gap() {
    let mut state = test_state();
    state.update_active_tab_layout(100, 20);
    state.split_active_window(SplitAxis::Horizontal);
    state.split_active_window(SplitAxis::Vertical);
    state.split_active_window(SplitAxis::Horizontal);
    state.split_active_window(SplitAxis::Vertical);
    state.focus_window(rim::state::FocusDirection::Left);
    state.focus_window(rim::state::FocusDirection::Left);
    state.close_active_window();
    let ids = state.active_tab_window_ids();
    assert_eq!(ids.len(), 4);
    let rects: Vec<(u16, u16, u16, u16)> = ids.iter().map(|id| window_rect(&state, *id)).collect();
    let min_x = rects.iter().map(|r| r.0).min().expect("windows exist");
    let max_right = rects.iter().map(|r| r.0.saturating_add(r.2)).max().expect("windows exist");
    assert_eq!(min_x, 0);
    assert_eq!(max_right, 100);
}

#[test]
fn open_new_tab_should_create_default_window_with_untitled_buffer() {
    let mut state = test_state();
    state.open_new_tab();
    let b = state.active_buffer_id().expect("new tab has a buffer");
    let name = state
        .buffers
        .iter()
        .find(|e| e.key == b.0)
        .map(|e| e.val.name.clone())
        .expect("buffer exists");
    assert_eq!(name, "untitled");
}

#[test]
fn state_close_left_after_h_then_right_v_should_expand_right_group() {
    close_left_after_h_then_right_v_should_expand_right_group();
}

#[test]
fn state_close_left_after_h_v_h_v_should_not_leave_left_gap() {
    close_left_after_h_v_h_v_should_not_leave_left_gap();
}

#[test]
fn window_close_left_after_h_then_right_v_should_expand_right_group() {
    close_left_after_h_then_right_v_should_expand_right_group();
}

#[test]
fn window_close_left_after_h_v_h_v_should_not_leave_left_gap() {
    close_left_after_h_v_h_v_should_not_leave_left_gap();
}
