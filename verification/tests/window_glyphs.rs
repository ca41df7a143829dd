//! Separator glyph tables and display-column arithmetic.

use rim::ui::{dirs_from_symbol, display_width_of_char_prefix, merged_symbol, render_line_for_display, symbol_from_dirs, visible_slice_by_display_width, DIR_DOWN, DIR_LEFT, DIR_RIGHT, DIR_UP};

#[test]
fn window_area_symbol_and_dir_mapping_table() {
    let cases = [
        ("│", DIR_UP | DIR_DOWN),
        ("─", DIR_LEFT | DIR_RIGHT),
        ("├", DIR_UP | DIR_DOWN | DIR_RIGHT),
        ("┤", DIR_UP | DIR_DOWN | DIR_LEFT),
        ("┬", DIR_LEFT | DIR_RIGHT | DIR_DOWN),
        ("┴", DIR_LEFT | DIR_RIGHT | DIR_UP),
        ("┼", DIR_UP | DIR_DOWN | DIR_LEFT | DIR_RIGHT),
    ];
    for (symbol, dirs) in cases {
        assert_eq!(dirs_from_symbol(symbol), dirs);
        assert_eq!(symbol_from_dirs(dirs), symbol);
    }
}

#[test]
fn window_area_merge_table_for_common_intersections() {
    let cases = [
        ("─", DIR_DOWN, "┬"),
        ("─", DIR_UP, "┴"),
        ("─", DIR_UP | DIR_DOWN, "┼"),
        ("│", DIR_LEFT, "┤"),
        ("│", DIR_RIGHT, "├"),
    ];
    for (existing, add_dirs, expected) in cases {
        assert_eq!(merged_symbol(existing, add_dirs), expected);
    }
}

#[test]
fn window_area_merge_table_for_recent_regressions() {
    let cases = [("─", DIR_UP | DIR_RIGHT, "┴"), ("─", DIR_UP | DIR_LEFT, "┴")];
    for (existing, add_dirs, expected) in cases {
        assert_eq!(merged_symbol(existing, add_dirs), expected);
    }
}

#[test]
fn tests_symbol_and_dir_mapping_table() {
    let cases = [
        ("│", DIR_UP | DIR_DOWN),
        ("─", DIR_LEFT | DIR_RIGHT),
        ("├", DIR_UP | DIR_DOWN | DIR_RIGHT),
        ("┤", DIR_UP | DIR_DOWN | DIR_LEFT),
        ("┬", DIR_LEFT | DIR_RIGHT | DIR_DOWN),
        ("┴", DIR_LEFT | DIR_RIGHT | DIR_UP),
        ("┼", DIR_UP | DIR_DOWN | DIR_LEFT | DIR_RIGHT),
    ];
    for (symbol, dirs) in cases {
        assert_eq!(dirs_from_symbol(symbol), dirs);
        assert_eq!(symbol_from_dirs(dirs), symbol);
    }
}

#[test]
fn tests_merge_table_for_common_intersections() {
    let cases = [
        ("─", DIR_DOWN, "┬"),
        ("─", DIR_UP, "┴"),
        ("─", DIR_UP | DIR_DOWN, "┼"),
        ("│", DIR_LEFT, "┤"),
        ("│", DIR_RIGHT, "├"),
    ];
    for (existing, add_dirs, expected) in cases {
        assert_eq!(merged_symbol(existing, add_dirs), expected);
    }
}

#[test]
fn tests_merge_table_for_recent_regressions() {
    let cases = [("─", DIR_UP | DIR_RIGHT, "┴"), ("─", DIR_UP | DIR_LEFT, "┴")];
    for (existing, add_dirs, expected) in cases {
        assert_eq!(merged_symbol(existing, add_dirs), expected);
    }
}

#[test]
fn render_line_for_display_should_expand_tab_to_spaces() {
    assert_eq!(render_line_for_display("\t", false), "    ");
    assert_eq!(render_line_for_display("a\tb", false), "a    b");
}

#[test]
fn display_width_prefix_counts_wide_chars() {
    let line = "a中b";
    assert_eq!(display_width_of_char_prefix(line, 1), 1);
    assert_eq!(display_width_of_char_prefix(line, 2), 3);
    assert_eq!(display_width_of_char_prefix(line, 3), 4);
}

#[test]
fn display_width_prefix_counts_tab_as_four_spaces() {
    let line = "a\tb";
    assert_eq!(display_width_of_char_prefix(line, 1), 1);
    assert_eq!(display_width_of_char_prefix(line, 2), 5);
    assert_eq!(display_width_of_char_prefix(line, 3), 6);
}

#[test]
fn visible_slice_uses_display_columns() {
    let line = "a中bc";
    assert_eq!(visible_slice_by_display_width(line, 0, 3), "a中");
    assert_eq!(visible_slice_by_display_width(line, 1, 2), "中");
    assert_eq!(visible_slice_by_display_width(line, 3, 2), "bc");
}


#[test]
fn window_area_display_width_prefix_counts_wide_chars() {
    display_width_prefix_counts_wide_chars();
}

#[test]
fn window_area_visible_slice_uses_display_columns() {
    visible_slice_uses_display_columns();
}

#[test]
fn tests_display_width_prefix_counts_wide_chars() {
    display_width_prefix_counts_wide_chars();
}

#[test]
fn tests_visible_slice_uses_display_columns() {
    visible_slice_uses_display_columns();
}
