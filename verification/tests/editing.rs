//! Cursor movement and buffer-local text mutations.

use rim::history::{BufferEditSnapshot, BufferHistoryEntry};
use rim::state::{AppState, BufferId, BufferState, CursorState};

fn test_state() -> AppState {
    let mut state = AppState::new();
    let buffer_id = state.create_buffer(Some("test.rs".to_string()), "fn main() {}".to_string());
    state.bind_buffer_to_active_window(buffer_id);
    state
}

fn set_active_buffer_text(state: &mut AppState, text: &str) {
    let buffer_id = state.active_buffer_id().expect("buffer id exists");
    for e in state.buffers.iter_mut() {
        if e.key == buffer_id.0 {
            e.val.text = text.to_string();
        }
    }
}

fn buffer_of(state: &AppState, id: BufferId) -> &BufferState {
    for e in state.buffers.iter() {
        if e.key == id.0 {
            return &e.val;
        }
    }
    panic!("buffer exists");
}

fn active_buffer(state: &AppState) -> &BufferState {
    let id = state.active_buffer_id().expect("buffer id exists");
    buffer_of(state, id)
}

#[test]
fn cursor_move_right_should_stop_at_line_end() {
    let mut state = test_state();
    set_active_buffer_text(&mut state, "abc");
    state.move_cursor_right();
    state.move_cursor_right();
    state.move_cursor_right();
    state.move_cursor_right();
    assert_eq!(state.active_cursor().row, 1);
    assert_eq!(state.active_cursor().col, 3);
}

#[test]
fn cursor_move_down_should_clamp_column_to_target_line() {
    let mut state = test_state();
    set_active_buffer_text(&mut state, "abcd\nx");
    state.move_cursor_right();
    state.move_cursor_right();
    state.move_cursor_right();
    state.move_cursor_down();
    assert_eq!(state.active_cursor().row, 2);
    assert_eq!(state.active_cursor().col, 1);
}

#[test]
fn vertical_move_should_restore_preferred_col_when_line_has_enough_width() {
    let mut state = test_state();
    set_active_buffer_text(&mut state, "abcd\nx\nabcd");
    state.move_cursor_right();
    state.move_cursor_right();
    state.move_cursor_right();
    assert_eq!(state.active_cursor().col, 4);
    state.move_cursor_down();
    assert_eq!(state.active_cursor().row, 2);
    assert_eq!(state.active_cursor().col, 1);
    state.move_cursor_down();
    assert_eq!(state.active_cursor().row, 3);
    assert_eq!(state.active_cursor().col, 4);
    state.move_cursor_up();
    assert_eq!(state.active_cursor().row, 2);
    assert_eq!(state.active_cursor().col, 1);
    state.move_cursor_up();
    assert_eq!(state.active_cursor().row, 1);
    assert_eq!(state.active_cursor().col, 4);
}

#[test]
fn move_cursor_file_start_should_jump_to_first_line() {
    let mut state = test_state();
    set_active_buffer_text(&mut state, "a\nb\nc");
    state.move_cursor_down();
    state.move_cursor_down();
    assert_eq!(state.active_cursor().row, 3);
    state.move_cursor_file_start();
    assert_eq!(state.active_cursor().row, 1);
}

#[test]
fn move_cursor_file_end_should_jump_to_last_line() {
    let mut state = test_state();
    set_active_buffer_text(&mut state, "a\nb\nc");
    state.move_cursor_file_end();
    assert_eq!(state.active_cursor().row, 3);
}

#[test]
fn move_cursor_file_end_should_ignore_trailing_newline_row() {
    let mut state = test_state();
    set_active_buffer_text(&mut state, "a\nb\n");
    state.move_cursor_file_end();
    assert_eq!(state.active_cursor().row, 2);
}

#[test]
fn cursor_move_line_start_and_end_should_jump_in_current_line() {
    let mut state = test_state();
    set_active_buffer_text(&mut state, "abcdef");
    state.move_cursor_line_end();
    assert_eq!(state.active_cursor().col, 6);
    state.move_cursor_line_start();
    assert_eq!(state.active_cursor().col, 1);
}

#[test]
fn insert_char_and_newline_should_edit_buffer_at_cursor() {
    let mut state = test_state();
    set_active_buffer_text(&mut state, "ab");
    state.move_cursor_right();
    state.insert_char_at_cursor('x');
    assert_eq!(active_buffer(&state).text, "axb");
    state.insert_newline_at_cursor();
    assert_eq!(active_buffer(&state).text, "ax\nb");
    assert_eq!(state.active_cursor().row, 2);
    assert_eq!(state.active_cursor().col, 1);
}

#[test]
fn open_line_below_at_cursor_should_insert_empty_line_and_move_cursor_to_line_start() {
    let mut state = test_state();
    set_active_buffer_text(&mut state, "ab\ncd");
    state.open_line_below_at_cursor();
    assert_eq!(active_buffer(&state).text, "ab\n\ncd");
    assert_eq!(state.active_cursor().row, 2);
    assert_eq!(state.active_cursor().col, 1);
}

#[test]
fn open_line_above_at_cursor_should_insert_empty_line_and_keep_cursor_on_current_row_index() {
    let mut state = test_state();
    set_active_buffer_text(&mut state, "ab\ncd");
    state.move_cursor_down();
    state.open_line_above_at_cursor();
    assert_eq!(active_buffer(&state).text, "ab\n\ncd");
    assert_eq!(state.active_cursor().row, 2);
    assert_eq!(state.active_cursor().col, 1);
}

#[test]
fn backspace_at_line_start_should_join_with_previous_line() {
    let mut state = test_state();
    set_active_buffer_text(&mut state, "ab\ncd");
    state.move_cursor_down();
    state.backspace_at_cursor();
    assert_eq!(active_buffer(&state).text, "abcd");
    assert_eq!(state.active_cursor().row, 1);
    assert_eq!(state.active_cursor().col, 3);
}

#[test]
fn join_line_below_at_cursor_should_merge_current_and_next_line() {
    let mut state = test_state();
    set_active_buffer_text(&mut state, "ab\n  cd");
    state.join_line_below_at_cursor();
    assert_eq!(active_buffer(&state).text, "ab cd");
}

#[test]
fn join_line_below_at_cursor_on_last_line_should_do_nothing() {
    let mut state = test_state();
    set_active_buffer_text(&mut state, "ab");
    state.join_line_below_at_cursor();
    assert_eq!(active_buffer(&state).text, "ab");
}

#[test]
fn cut_current_char_to_slot_should_remove_char_and_store_it() {
    let mut state = test_state();
    set_active_buffer_text(&mut state, "abc");
    state.move_cursor_right();
    state.cut_current_char_to_slot();
    assert_eq!(active_buffer(&state).text, "ac");
    assert_eq!(state.line_slot.as_deref(), Some("b"));
    assert!(!state.line_slot_line_wise);
}

#[test]
fn paste_slot_at_cursor_should_insert_slot_text_after_cursor() {
    let mut state = test_state();
    set_active_buffer_text(&mut state, "ac");
    state.line_slot = Some("b".to_string());
    state.line_slot_line_wise = false;
    state.paste_slot_at_cursor();
    assert_eq!(active_buffer(&state).text, "abc");
}

#[test]
fn paste_slot_at_cursor_should_insert_line_wise_slot_as_new_line_below() {
    let mut state = test_state();
    set_active_buffer_text(&mut state, "a\nb");
    state.line_slot = Some("x".to_string());
    state.line_slot_line_wise = true;
    state.paste_slot_at_cursor();
    assert_eq!(active_buffer(&state).text, "a\nx\nb");
    assert_eq!(state.active_cursor().row, 2);
    assert_eq!(state.active_cursor().col, 1);
}

#[test]
fn delete_current_line_to_slot_should_remove_line_and_store_it() {
    let mut state = test_state();
    set_active_buffer_text(&mut state, "a\nb\nc");
    state.move_cursor_down();
    state.delete_current_line_to_slot();
    assert_eq!(active_buffer(&state).text, "a\nc");
    assert_eq!(state.line_slot.as_deref(), Some("b"));
    assert!(state.line_slot_line_wise);
    assert_eq!(state.active_cursor().row, 2);
}

#[test]
fn delete_current_line_to_slot_should_keep_one_empty_line_when_last_line_deleted() {
    let mut state = test_state();
    set_active_buffer_text(&mut state, "only");
    state.delete_current_line_to_slot();
    assert_eq!(active_buffer(&state).text, "");
    assert_eq!(state.line_slot.as_deref(), Some("only"));
}

#[test]
fn visual_delete_should_remove_selected_chars_in_single_line() {
    let mut state = test_state();
    set_active_buffer_text(&mut state, "abcdef");
    state.move_cursor_right();
    state.enter_visual_mode();
    state.move_cursor_right_for_visual_char();
    state.move_cursor_right_for_visual_char();
    state.delete_visual_selection_to_slot();
    assert_eq!(active_buffer(&state).text, "aef");
    assert_eq!(state.line_slot.as_deref(), Some("bcd"));
}

#[test]
fn visual_delete_should_remove_selected_chars_across_lines() {
    let mut state = test_state();
    set_active_buffer_text(&mut state, "abc\ndef");
    state.move_cursor_right();
    state.enter_visual_mode();
    state.move_cursor_down();
    state.delete_visual_selection_to_slot();
    assert_eq!(active_buffer(&state).text, "af");
    assert_eq!(state.line_slot.as_deref(), Some("bc\nde"));
}

#[test]
fn visual_yank_should_copy_selection_without_modifying_buffer() {
    let mut state = test_state();
    set_active_buffer_text(&mut state, "abcdef");
    state.move_cursor_right();
    state.enter_visual_mode();
    state.move_cursor_right_for_visual_char();
    state.yank_visual_selection_to_slot();
    assert_eq!(active_buffer(&state).text, "abcdef");
    assert_eq!(state.line_slot.as_deref(), Some("bc"));
}

#[test]
fn visual_paste_should_replace_selection_in_single_line() {
    let mut state = test_state();
    set_active_buffer_text(&mut state, "abcdef");
    state.line_slot = Some("XY".to_string());
    state.line_slot_line_wise = false;
    state.move_cursor_right();
    state.enter_visual_mode();
    state.move_cursor_right_for_visual_char();
    state.replace_visual_selection_with_slot();
    assert_eq!(active_buffer(&state).text, "aXYdef");
}

#[test]
fn visual_paste_should_replace_selection_across_lines() {
    let mut state = test_state();
    set_active_buffer_text(&mut state, "abc\ndef");
    state.line_slot = Some("XY".to_string());
    state.line_slot_line_wise = false;
    state.move_cursor_right();
    state.enter_visual_mode();
    state.move_cursor_down();
    state.replace_visual_selection_with_slot();
    assert_eq!(active_buffer(&state).text, "aXYf");
}

#[test]
fn visual_line_delete_should_remove_whole_lines() {
    let mut state = test_state();
    set_active_buffer_text(&mut state, "a\nb\nc");
    state.enter_visual_line_mode();
    state.move_cursor_down();
    state.delete_visual_selection_to_slot();
    assert_eq!(active_buffer(&state).text, "c");
    assert_eq!(state.line_slot.as_deref(), Some("a\nb"));
    assert!(state.line_slot_line_wise);
}

#[test]
fn visual_char_move_right_should_stop_at_newline_slot_without_crossing_row() {
    let mut state = test_state();
    set_active_buffer_text(&mut state, "ab\ncd");
    state.enter_visual_mode();
    state.move_cursor_right_for_visual_char();
    state.move_cursor_right_for_visual_char();
    state.move_cursor_right_for_visual_char();
    assert_eq!(state.active_cursor().row, 1);
    assert_eq!(state.active_cursor().col, 3);
}

#[test]
fn trailing_newline_should_not_create_extra_movable_row() {
    let mut state = test_state();
    set_active_buffer_text(&mut state, "a\nb\n");
    state.move_cursor_down();
    state.move_cursor_down();
    assert_eq!(state.active_cursor().row, 2);
}

#[test]
fn horizontal_move_should_reset_preferred_col_memory() {
    let mut state = test_state();
    set_active_buffer_text(&mut state, "abcd\nx\nabcd");
    state.move_cursor_right();
    state.move_cursor_right();
    state.move_cursor_right();
    state.move_cursor_down();
    state.move_cursor_left();
    state.move_cursor_down();
    assert_eq!(state.active_cursor().row, 3);
    assert_eq!(state.active_cursor().col, 1);
}

#[test]
fn undo_active_buffer_edit_should_restore_previous_text_and_cursor() {
    let mut state = test_state();
    set_active_buffer_text(&mut state, "ab");
    state.move_cursor_right();
    let buffer_id = state.active_buffer_id().expect("buffer id exists");
    state.insert_char_at_cursor('x');
    state.push_buffer_history_entry(buffer_id, BufferHistoryEntry {
        edits: vec![BufferEditSnapshot {
            start_byte: 1,
            deleted_text: String::new(),
            inserted_text: "x".to_string(),
        }],
        before_cursor: CursorState { row: 1, col: 2 },
        after_cursor: CursorState { row: 1, col: 3 },
    });
    state.undo_active_buffer_edit();
    let buffer = active_buffer(&state);
    assert_eq!(buffer.text, "ab");
    assert_eq!(buffer.cursor, CursorState { row: 1, col: 2 });
}

#[test]
fn redo_active_buffer_edit_should_reapply_last_undone_change() {
    let mut state = test_state();
    set_active_buffer_text(&mut state, "ab");
    state.move_cursor_right();
    let buffer_id = state.active_buffer_id().expect("buffer id exists");
    state.insert_char_at_cursor('x');
    state.push_buffer_history_entry(buffer_id, BufferHistoryEntry {
        edits: vec![BufferEditSnapshot {
            start_byte: 1,
            deleted_text: String::new(),
            inserted_text: "x".to_string(),
        }],
        before_cursor: CursorState { row: 1, col: 2 },
        after_cursor: CursorState { row: 1, col: 3 },
    });
    state.undo_active_buffer_edit();
    state.redo_active_buffer_edit();
    let buffer = active_buffer(&state);
    assert_eq!(buffer.text, "axb");
    assert_eq!(buffer.cursor, CursorState { row: 1, col: 3 });
}


#[test]
fn state_cursor_move_right_should_stop_at_line_end() {
    cursor_move_right_should_stop_at_line_end();
}

#[test]
fn state_cursor_move_down_should_clamp_column_to_target_line() {
    cursor_move_down_should_clamp_column_to_target_line();
}

#[test]
fn state_visual_delete_should_remove_selected_chars_in_single_line() {
    visual_delete_should_remove_selected_chars_in_single_line();
}

#[test]
fn state_visual_delete_should_remove_selected_chars_across_lines() {
    visual_delete_should_remove_selected_chars_across_lines();
}

#[test]
fn state_visual_yank_should_copy_selection_without_modifying_buffer() {
    visual_yank_should_copy_selection_without_modifying_buffer();
}

#[test]
fn state_visual_paste_should_replace_selection_in_single_line() {
    visual_paste_should_replace_selection_in_single_line();
}

#[test]
fn state_visual_paste_should_replace_selection_across_lines() {
    visual_paste_should_replace_selection_across_lines();
}

#[test]
fn state_visual_line_delete_should_remove_whole_lines() {
    visual_line_delete_should_remove_whole_lines();
}

#[test]
fn state_insert_char_and_newline_should_edit_buffer_at_cursor() {
    insert_char_and_newline_should_edit_buffer_at_cursor();
}

#[test]
fn state_open_line_below_at_cursor_should_insert_empty_line_and_move_cursor_to_line_start() {
    open_line_below_at_cursor_should_insert_empty_line_and_move_cursor_to_line_start();
}

#[test]
fn state_open_line_above_at_cursor_should_insert_empty_line_and_keep_cursor_on_current_row_index() {
    open_line_above_at_cursor_should_insert_empty_line_and_keep_cursor_on_current_row_index();
}

#[test]
fn state_backspace_at_line_start_should_join_with_previous_line() {
    backspace_at_line_start_should_join_with_previous_line();
}

#[test]
fn state_cursor_move_line_start_and_end_should_jump_in_current_line() {
    cursor_move_line_start_and_end_should_jump_in_current_line();
}

#[test]
fn state_cut_current_char_to_slot_should_remove_char_and_store_it() {
    cut_current_char_to_slot_should_remove_char_and_store_it();
}

#[test]
fn state_paste_slot_at_cursor_should_insert_slot_text_after_cursor() {
    paste_slot_at_cursor_should_insert_slot_text_after_cursor();
}

#[test]
fn buffer_visual_yank_should_copy_selection_without_modifying_buffer() {
    visual_yank_should_copy_selection_without_modifying_buffer();
}

#[test]
fn buffer_insert_char_and_newline_should_edit_buffer_at_cursor() {
    insert_char_and_newline_should_edit_buffer_at_cursor();
}

#[test]
fn edit_cursor_move_right_should_stop_at_line_end() {
    cursor_move_right_should_stop_at_line_end();
}

#[test]
fn edit_cursor_move_down_should_clamp_column_to_target_line() {
    cursor_move_down_should_clamp_column_to_target_line();
}

#[test]
fn edit_visual_delete_should_remove_selected_chars_in_single_line() {
    visual_delete_should_remove_selected_chars_in_single_line();
}

#[test]
fn edit_visual_delete_should_remove_selected_chars_across_lines() {
    visual_delete_should_remove_selected_chars_across_lines();
}

#[test]
fn edit_visual_paste_should_replace_selection_in_single_line() {
    visual_paste_should_replace_selection_in_single_line();
}

#[test]
fn edit_visual_paste_should_replace_selection_across_lines() {
    visual_paste_should_replace_selection_across_lines();
}

#[test]
fn edit_visual_line_delete_should_remove_whole_lines() {
    visual_line_delete_should_remove_whole_lines();
}

#[test]
fn edit_open_line_below_at_cursor_should_insert_empty_line_and_move_cursor_to_line_start() {
    open_line_below_at_cursor_should_insert_empty_line_and_move_cursor_to_line_start();
}

#[test]
fn edit_open_line_above_at_cursor_should_insert_empty_line_and_keep_cursor_on_current_row_index() {
    open_line_above_at_cursor_should_insert_empty_line_and_keep_cursor_on_current_row_index();
}

#[test]
fn edit_backspace_at_line_start_should_join_with_previous_line() {
    backspace_at_line_start_should_join_with_previous_line();
}

#[test]
fn edit_cursor_move_line_start_and_end_should_jump_in_current_line() {
    cursor_move_line_start_and_end_should_jump_in_current_line();
}

#[test]
fn edit_cut_current_char_to_slot_should_remove_char_and_store_it() {
    cut_current_char_to_slot_should_remove_char_and_store_it();
}

#[test]
fn edit_paste_slot_at_cursor_should_insert_slot_text_after_cursor() {
    paste_slot_at_cursor_should_insert_slot_text_after_cursor();
}

fn window_scroll_y(state: &AppState) -> u16 {
    let id = state.active_window_id();
    for e in state.windows.iter() {
        if e.key == id.0 {
            return e.val.scroll_y;
        }
    }
    panic!("window exists");
}

fn window_scroll_x(state: &AppState) -> u16 {
    let id = state.active_window_id();
    for e in state.windows.iter() {
        if e.key == id.0 {
            return e.val.scroll_x;
        }
    }
    panic!("window exists");
}

#[test]
fn cursor_move_down_at_bottom_should_scroll_window() {
    let mut state = test_state();
    set_active_buffer_text(&mut state, "1\n2\n3\n4\n5\n6");
    state.update_active_tab_layout(80, 3);
    state.move_cursor_down();
    state.move_cursor_down();
    assert_eq!(window_scroll_y(&state), 0);
    state.move_cursor_down();
    assert_eq!(state.active_cursor().row, 4);
    assert_eq!(window_scroll_y(&state), 1);
}

#[test]
fn cursor_scroll_threshold_should_trigger_earlier() {
    let mut state = test_state();
    set_active_buffer_text(&mut state, "1\n2\n3\n4\n5\n6");
    state.update_active_tab_layout(80, 4);
    state.cursor_scroll_threshold = 1;
    state.move_cursor_down();
    state.move_cursor_down();
    assert_eq!(window_scroll_y(&state), 0);
    state.move_cursor_down();
    assert_eq!(state.active_cursor().row, 4);
    assert_eq!(window_scroll_y(&state), 1);
}

#[test]
fn scroll_view_down_one_line_should_increase_scroll_and_keep_cursor_visible() {
    let mut state = test_state();
    set_active_buffer_text(&mut state, "1\n2\n3\n4\n5\n6");
    state.update_active_tab_layout(80, 3);
    state.scroll_view_down_one_line();
    assert_eq!(window_scroll_y(&state), 1);
    assert_eq!(state.active_cursor().row, 2);
}

#[test]
fn scroll_view_up_one_line_should_decrease_scroll_and_keep_cursor_visible() {
    let mut state = test_state();
    set_active_buffer_text(&mut state, "1\n2\n3\n4\n5\n6");
    state.update_active_tab_layout(80, 3);
    state.scroll_view_down_one_line();
    state.scroll_view_down_one_line();
    state.scroll_view_up_one_line();
    assert_eq!(window_scroll_y(&state), 1);
}

#[test]
fn scroll_view_down_half_page_should_scroll_by_half_window_height() {
    let mut state = test_state();
    set_active_buffer_text(&mut state, "1\n2\n3\n4\n5\n6\n7\n8");
    state.update_active_tab_layout(80, 4);
    state.scroll_view_down_half_page();
    assert_eq!(window_scroll_y(&state), 2);
}

#[test]
fn cursor_move_right_and_left_should_adjust_horizontal_scroll() {
    let mut state = test_state();
    set_active_buffer_text(&mut state, "abcdefghij");
    state.update_active_tab_layout(4, 3);
    for _ in 0..9 {
        state.move_cursor_right();
    }
    assert!(window_scroll_x(&state) > 0);
    for _ in 0..9 {
        state.move_cursor_left();
    }
    assert_eq!(window_scroll_x(&state), 0);
}

#[test]
fn insert_char_should_adjust_horizontal_scroll() {
    let mut state = test_state();
    set_active_buffer_text(&mut state, "abc");
    state.update_active_tab_layout(4, 3);
    state.move_cursor_line_end();
    for _ in 0..8 {
        state.insert_char_at_cursor('x');
        state.move_cursor_right_for_insert();
    }
    assert!(window_scroll_x(&state) > 0);
}

#[test]
fn state_cursor_move_down_at_bottom_should_scroll_window() {
    cursor_move_down_at_bottom_should_scroll_window();
}

#[test]
fn state_cursor_scroll_threshold_should_trigger_earlier() {
    cursor_scroll_threshold_should_trigger_earlier();
}

#[test]
fn state_cursor_move_right_and_left_should_adjust_horizontal_scroll() {
    cursor_move_right_and_left_should_adjust_horizontal_scroll();
}

#[test]
fn state_insert_char_should_adjust_horizontal_scroll() {
    insert_char_should_adjust_horizontal_scroll();
}

#[test]
fn edit_cursor_move_down_at_bottom_should_scroll_window() {
    cursor_move_down_at_bottom_should_scroll_window();
}

#[test]
fn edit_cursor_scroll_threshold_should_trigger_earlier() {
    cursor_scroll_threshold_should_trigger_earlier();
}

#[test]
fn edit_cursor_move_right_and_left_should_adjust_horizontal_scroll() {
    cursor_move_right_and_left_should_adjust_horizontal_scroll();
}

#[test]
fn edit_insert_char_should_adjust_horizontal_scroll() {
    insert_char_should_adjust_horizontal_scroll();
}

#[test]
fn line_start_should_reset_preferred_col_memory() {
    let mut state = test_state();
    set_active_buffer_text(&mut state, "abcd\nx\nabcd");
    state.move_cursor_right();
    state.move_cursor_right();
    state.move_cursor_right();
    state.move_cursor_down();
    state.move_cursor_line_start();
    state.move_cursor_down();
    assert_eq!(state.active_cursor().row, 3);
    assert_eq!(state.active_cursor().col, 1);
}

#[test]
fn line_end_should_reset_preferred_col_memory() {
    let mut state = test_state();
    set_active_buffer_text(&mut state, "ab\nxyzw\nab");
    state.move_cursor_down();
    state.move_cursor_line_end();
    assert_eq!(state.active_cursor().col, 4);
    state.move_cursor_down();
    assert_eq!(state.active_cursor().row, 3);
    assert_eq!(state.active_cursor().col, 2);
}

#[test]
fn delete_current_line_to_slot_should_clamp_cursor_when_text_has_trailing_newline() {
    let mut state = test_state();
    set_active_buffer_text(&mut state, "a\nb\n");
    state.move_cursor_down();
    state.delete_current_line_to_slot();
    assert_eq!(state.active_cursor().row, 1);
}

fn set_window_scroll_y(state: &mut AppState, v: u16) {
    let id = state.active_window_id();
    for e in state.windows.iter_mut() {
        if e.key == id.0 {
            e.val.scroll_y = v;
        }
    }
}

#[test]
fn scroll_view_should_restore_preferred_col_when_row_changes_back() {
    let mut state = test_state();
    set_active_buffer_text(&mut state, "abcd\nx\nabcd");
    state.update_active_tab_layout(80, 1);
    state.move_cursor_right();
    state.move_cursor_right();
    state.move_cursor_right();
    assert_eq!(state.active_cursor().col, 4);
    state.scroll_view_down_one_line();
    assert_eq!(state.active_cursor().row, 2);
    assert_eq!(state.active_cursor().col, 1);
    state.scroll_view_down_one_line();
    assert_eq!(state.active_cursor().row, 3);
    assert_eq!(state.active_cursor().col, 4);
    state.scroll_view_up_one_line();
    assert_eq!(state.active_cursor().row, 2);
    assert_eq!(state.active_cursor().col, 1);
    state.scroll_view_up_one_line();
    assert_eq!(state.active_cursor().row, 1);
    assert_eq!(state.active_cursor().col, 4);
}

#[test]
fn scroll_view_up_half_page_should_restore_scroll_by_half_window_height() {
    let mut state = test_state();
    set_active_buffer_text(&mut state, "1\n2\n3\n4\n5\n6\n7\n8");
    state.update_active_tab_layout(80, 4);
    set_window_scroll_y(&mut state, 4);
    state.scroll_view_up_half_page();
    assert_eq!(window_scroll_y(&state), 2);
}
