//! Cursor movement, scrolling, and the buffer-local text mutations.

use vstd::prelude::*;
use vstd::string::StrSliceExecFns;

use crate::state::AppState;
use crate::state::BufferId;
use crate::state::BufferState;
use crate::state::CursorState;
use crate::state::EditorMode;
use crate::state::StatusBarState;
use crate::state::WindowState;
use crate::store::Entry;
use crate::store::find_idx;
use crate::store::lookup;
use crate::text::lines_of;
use crate::text::rendered_line_count;
use crate::text::rendered_rows;

verus! {

/// Direction of a vertical cursor move, for scroll adjustment.
#[derive(Debug, Clone, Copy, PartialEq, Eq, Structural)]
enum VerticalMoveDirection {
    Up,
    Down,
}

/// Direction of a horizontal cursor move, for scroll adjustment.
#[derive(Debug, Clone, Copy, PartialEq, Eq, Structural)]
enum HorizontalMoveDirection {
    Left,
    Right,
}

impl AppState {
    /// The active buffer's text; empty when there is none.
    pub open spec fn s_active_text(self) -> Seq<char> {
        match self.s_active_buffer() {
            Some(b) => b.text@,
            None => Seq::empty(),
        }
    }

    /// The active buffer's cursor; the origin when there is none.
    pub open spec fn s_active_cursor(self) -> CursorState {
        match self.s_active_buffer() {
            Some(b) => b.cursor,
            None => CursorState { row: 1u16, col: 1u16 },
        }
    }

    /// Characters in row `row_idx` (0-based) of a text; zero outside it.
    pub open spec fn row_chars(t: Seq<char>, row_idx: int) -> int {
        if 0 <= row_idx < lines_of(t).len() {
            lines_of(t)[row_idx].len() as int
        } else {
            0
        }
    }

    /// Rows the active buffer shows; one even when empty or absent.
    pub open spec fn s_max_row(self) -> int {
        match self.s_active_buffer() {
            Some(b) => rendered_rows(b.text@),
            None => 1,
        }
    }

    /// One past the last character of the row: the insert-mode column limit,
    /// capped to the u16 range.
    pub open spec fn s_max_col_for_row(self, row: u16) -> int {
        let c = AppState::row_chars(self.s_active_text(), row - 1) + 1;
        if self.s_active_buffer() is None {
            1
        } else if c > u16::MAX {
            u16::MAX as int
        } else {
            c
        }
    }

    /// The last navigable column of the row: at least one, one less than the
    /// insert-mode limit.
    pub open spec fn s_max_navigable_col_for_row(self, row: u16) -> int {
        let c = self.s_max_col_for_row(row) - 1;
        if c < 1 {
            1
        } else {
            c
        }
    }

    /// A borrow of the active buffer.
    fn active_buffer_ref(&self) -> (r: Option<&BufferState>)
        ensures
            r is Some <==> self.s_active_buffer() is Some,
            r is Some ==> *r.unwrap() == self.s_active_buffer().unwrap(),
    {
        let bid = match self.active_buffer_id() {
            Some(b) => b,
            None => {
                return None;
            },
        };
        match find_idx(&self.buffers, bid.0) {
            Some(i) => Some(&self.buffers[i].val),
            None => None,
        }
    }

    /// The cursor of the active buffer, or the origin without one.
    pub fn active_cursor(&self) -> (r: CursorState)
        ensures
            r == self.s_active_cursor(),
    {
        match self.active_buffer_ref() {
            Some(b) => b.cursor,
            None => CursorState { row: 1, col: 1 },
        }
    }

    /// Number of rows the active buffer shows.
    pub(crate) fn max_row(&self) -> (r: u16)
        ensures
            r == if self.s_max_row() > u16::MAX {
                u16::MAX as int
            } else {
                self.s_max_row()
            },
            r >= 1,
    {
        let b = match self.active_buffer_ref() {
            Some(b) => b,
            None => {
                return 1;
            },
        };
        let n = rendered_line_count(b.text.as_str());
        if n > u16::MAX as usize {
            u16::MAX
        } else {
            n as u16
        }
    }

    /// One past the last character of the row, in the u16 range.
    fn max_col_for_row(&self, row: u16) -> (r: u16)
        ensures
            r == self.s_max_col_for_row(row),
            r >= 1,
    {
        let b = match self.active_buffer_ref() {
            Some(b) => b,
            None => {
                return 1;
            },
        };
        if row == 0 {
            proof {
                crate::text::lemma_lines_of_nonempty(b.text@);
            }
            return 1;
        }
        match crate::text::line_text_at(b.text.as_str(), (row - 1) as usize) {
            Some(line) => {
                let len = line.as_str().unicode_len();
                if len >= u16::MAX as usize {
                    u16::MAX
                } else {
                    (len + 1) as u16
                }
            },
            None => 1,
        }
    }

    /// The last navigable column of the row; at least one.
    fn max_navigable_col_for_row(&self, row: u16) -> (r: u16)
        ensures
            r == self.s_max_navigable_col_for_row(row),
            r >= 1,
    {
        let c = self.max_col_for_row(row);
        if c <= 1 {
            1
        } else {
            c - 1
        }
    }

    /// Whether the row is followed by a line break.
    fn row_has_newline_char(&self, row: u16) -> (r: bool)
    {
        let b = match self.active_buffer_ref() {
            Some(b) => b,
            None => {
                return false;
            },
        };
        let n = b.text.as_str().unicode_len();
        if n == 0 {
            return false;
        }
        let total_rows = rendered_line_count(b.text.as_str());
        if (row as usize) < total_rows {
            return true;
        }
        let last = b.text.as_str().get_char(n - 1);
        (row as usize) == total_rows && last == '\n'
    }

    /// The visual-mode column limit: one past the row's end only when a
    /// line break follows it.
    fn max_visual_char_col_for_row(&self, row: u16) -> (r: u16)
        ensures
            r >= 1,
    {
        let line_len = self.max_col_for_row(row).saturating_sub(1);
        if self.row_has_newline_char(row) {
            let v = line_len.saturating_add(1);
            if v < 1 {
                1
            } else {
                v
            }
        } else {
            if line_len < 1 {
                1
            } else {
                line_len
            }
        }
    }

    /// Rows of text the focused window can show.
    fn active_window_visible_rows(&self) -> (r: u16)
        ensures
            r >= 1,
    {
        let wid = self.active_window_id();
        match find_idx(&self.windows, wid.0) {
            Some(i) => {
                let w = &self.windows[i].val;
                let reserved: u16 = if w.y > 0 {
                    1
                } else {
                    0
                };
                let v = w.height.saturating_sub(reserved);
                if v < 1 {
                    1
                } else {
                    v
                }
            },
            None => 1,
        }
    }

    /// Columns of text the focused window can show, after the line-number
    /// gutter.
    fn active_window_visible_text_cols(&self) -> (r: u16)
        ensures
            r >= 1,
    {
        let wid = self.active_window_id();
        let wi = match find_idx(&self.windows, wid.0) {
            Some(i) => i,
            None => {
                return 1;
            },
        };
        let w_x = self.windows[wi].val.x;
        let w_width = self.windows[wi].val.width;
        let reserved: u16 = if w_x > 0 {
            1
        } else {
            0
        };
        let local_width0 = w_width.saturating_sub(reserved);
        let local_width = if local_width0 < 1 {
            1u16
        } else {
            local_width0
        };
        let total_lines: usize = match self.active_buffer_ref() {
            Some(b) => rendered_line_count(b.text.as_str()),
            None => 1,
        };
        let digits = crate::strutil::u64_to_string(total_lines as u64);
        let digits_len = digits.as_str().unicode_len();
        let desired: u16 = if digits_len >= u16::MAX as usize {
            u16::MAX
        } else {
            (digits_len as u16).saturating_add(1)
        };
        let number_col_width: u16 = if local_width <= desired {
            0
        } else {
            desired
        };
        let v = local_width.saturating_sub(number_col_width);
        if v < 1 {
            1
        } else {
            v
        }
    }

    /// Display column of the cursor inside its row.
    fn active_cursor_display_col(&self) -> (r: u16)
    {
        let cursor = self.active_cursor();
        let b = match self.active_buffer_ref() {
            Some(b) => b,
            None => {
                return 0;
            },
        };
        if cursor.row == 0 {
            return 0;
        }
        match crate::text::line_text_at(b.text.as_str(), (cursor.row - 1) as usize) {
            Some(line) => {
                let w = crate::ui::display_width_of_char_prefix(
                    line.as_str(),
                    (cursor.col.saturating_sub(1)) as usize,
                );
                if w > u16::MAX as usize {
                    u16::MAX
                } else {
                    w as u16
                }
            },
            None => 0,
        }
    }

    /// Display width of the cursor's whole row.
    fn active_line_display_width(&self) -> (r: u16)
    {
        let cursor = self.active_cursor();
        let b = match self.active_buffer_ref() {
            Some(b) => b,
            None => {
                return 0;
            },
        };
        if cursor.row == 0 {
            return 0;
        }
        match crate::text::line_text_at(b.text.as_str(), (cursor.row - 1) as usize) {
            Some(line) => {
                let n = line.as_str().unicode_len();
                let w = crate::ui::display_width_of_char_prefix(line.as_str(), n);
                if w > u16::MAX as usize {
                    u16::MAX
                } else {
                    w as u16
                }
            },
            None => 0,
        }
    }

    /// Writes new scroll positions into the focused window; nothing else
    /// moves.
    fn set_active_window_scroll(&mut self, sx: Option<u16>, sy: Option<u16>)
        ensures
            *final(self) == (AppState { windows: final(self).windows, ..*old(self) }),
            AppState::windows_scroll_frame(*old(self), *final(self)),
            AppState::active_scroll_only(*old(self), *final(self)),
    {
        let wid = self.active_window_id();
        if let Some(wi) = find_idx(&self.windows, wid.0) {
            let ghost pre = self.windows@;
            let w = &mut self.windows[wi];
            match sx {
                Some(v) => {
                    w.val.scroll_x = v;
                },
                None => {},
            }
            match sy {
                Some(v) => {
                    w.val.scroll_y = v;
                },
                None => {},
            }
            proof {
                assert(self.windows@ =~= pre.update(wi as int, *final(w)));
                assert forall|i: int| 0 <= i < pre.len() implies self.windows@[i].key == pre[i].key
                    && self.windows@[i].val == (WindowState {
                    scroll_x: self.windows@[i].val.scroll_x,
                    scroll_y: self.windows@[i].val.scroll_y,
                    ..pre[i].val
                }) by {}
            }
        }
    }

    /// Scrolls the focused window so the cursor stays inside the visible
    /// band, honouring the scroll threshold. Only scroll positions move.
    pub(crate) fn align_active_window_scroll_to_cursor(&mut self)
        ensures
            *final(self) == (AppState { windows: final(self).windows, ..*old(self) }),
            AppState::windows_scroll_frame(*old(self), *final(self)),
            AppState::active_scroll_only(*old(self), *final(self)),
    {
        let wid = self.active_window_id();
        let wi = match find_idx(&self.windows, wid.0) {
            Some(i) => i,
            None => {
                return ;
            },
        };
        let scroll_y0 = self.windows[wi].val.scroll_y;
        let scroll_x0 = self.windows[wi].val.scroll_x;
        let cursor_line = self.active_cursor().row.saturating_sub(1);
        let visible_rows = self.active_window_visible_rows();
        let max_row = self.max_row();
        let max_scroll = max_row.saturating_sub(visible_rows);
        let threshold = {
            let t = self.cursor_scroll_threshold;
            let cap = visible_rows.saturating_sub(1);
            if t < cap {
                t
            } else {
                cap
            }
        };
        let visible_tail = visible_rows.saturating_sub(1);
        let top_trigger = scroll_y0.saturating_add(threshold);
        let bottom = scroll_y0.saturating_add(visible_tail);
        let bottom_trigger = bottom.saturating_sub(threshold);
        let visible_cols = self.active_window_visible_text_cols();
        let col_tail = visible_cols.saturating_sub(1);
        let col_threshold = {
            let t = self.cursor_scroll_threshold;
            if t < col_tail {
                t
            } else {
                col_tail
            }
        };
        let cursor_display_col = self.active_cursor_display_col();
        let line_display_width = self.active_line_display_width();
        let max_scroll_x = line_display_width.saturating_sub(col_tail);
        let left_trigger = scroll_x0.saturating_add(col_threshold);
        let right = scroll_x0.saturating_add(col_tail);
        let right_trigger = right.saturating_sub(col_threshold);

        let mut next_scroll = scroll_y0;
        if cursor_line < top_trigger {
            next_scroll = cursor_line.saturating_sub(threshold);
        } else if cursor_line > bottom_trigger {
            next_scroll = cursor_line.saturating_add(threshold).saturating_sub(visible_tail);
        }
        if next_scroll > max_scroll {
            next_scroll = max_scroll;
        }
        let mut next_scroll_x = scroll_x0;
        if cursor_display_col < left_trigger {
            next_scroll_x = cursor_display_col.saturating_sub(col_threshold);
        } else if cursor_display_col > right_trigger {
            next_scroll_x = cursor_display_col.saturating_add(col_threshold).saturating_sub(
                col_tail,
            );
        }
        if next_scroll_x > max_scroll_x {
            next_scroll_x = max_scroll_x;
        }
        self.set_active_window_scroll(Some(next_scroll_x), Some(next_scroll));
    }

    /// At most the active buffer's cursor moved (to `newcur`), scroll
    /// positions shifted, and the remembered column changed.
    pub open spec fn cursor_only_post(pre: AppState, post: AppState, newcur: CursorState) -> bool {
        &&& post == (AppState {
            buffers: post.buffers,
            windows: post.windows,
            preferred_col: post.preferred_col,
            ..pre
        })
        &&& AppState::windows_scroll_frame(pre, post)
        &&& match pre.s_active_buffer_id() {
            Some(bid) => match pre.s_buf(bid) {
                Some(b) => post.s_buf(bid) == Some(BufferState { cursor: newcur, ..b }) && (forall|
                    b2: BufferId,
                |
                    b2 != bid ==> post.s_buf(b2) == pre.s_buf(b2)),
                None => post.buffers == pre.buffers,
            },
            None => post.buffers == pre.buffers,
        }
    }

    /// The active buffer may have moved its cursor; nothing else of the
    /// buffer store changed.
    pub open spec fn cursor_unpinned(pre: AppState, post: AppState) -> bool {
        match pre.s_active_buffer_id() {
            Some(bid) => match pre.s_buf(bid) {
                Some(b) => post.s_buf(bid) matches Some(nb) && nb == (BufferState {
                    cursor: nb.cursor,
                    ..b
                }) && (forall|b2: BufferId| b2 != bid ==> post.s_buf(b2) == pre.s_buf(b2)),
                None => post.buffers == pre.buffers,
            },
            None => post.buffers == pre.buffers,
        }
    }

    /// A view scroll's whole effect: scroll positions move, the active
    /// buffer's cursor may be pulled back into view, and the steering
    /// column is remembered.
    pub open spec fn scroll_view_post(pre: AppState, post: AppState) -> bool {
        &&& post == (AppState {
            buffers: post.buffers,
            windows: post.windows,
            preferred_col: post.preferred_col,
            ..pre
        })
        &&& AppState::windows_scroll_frame(pre, post)
        &&& AppState::cursor_unpinned(pre, post)
        &&& post.preferred_col == Some(pre.s_target_col())
    }

    /// Scroll changes never move a window to another buffer, so the active
    /// buffer id survives them.
    pub proof fn lemma_scroll_frame_keeps_active(pre: AppState, post: AppState)
        requires
            AppState::windows_scroll_frame(pre, post),
            post.tabs == pre.tabs,
            post.active_tab == pre.active_tab,
        ensures
            post.s_active_window_id() == pre.s_active_window_id(),
            post.s_active_buffer_id() == pre.s_active_buffer_id(),
    {
        match pre.s_active_window_id() {
            Some(wid) => {
                AppState::lemma_lookup_scroll_related(pre.windows@, post.windows@, wid.0);
            },
            None => {},
        }
    }

    proof fn lemma_lookup_scroll_related(
        a: Seq<Entry<WindowState>>,
        b: Seq<Entry<WindowState>>,
        k: u64,
    )
        requires
            a.len() == b.len(),
            forall|i: int|
                0 <= i < a.len() ==> b[i].key == a[i].key && b[i].val == (WindowState {
                    scroll_x: b[i].val.scroll_x,
                    scroll_y: b[i].val.scroll_y,
                    ..a[i].val
                }),
        ensures
            lookup(a, k) is Some <==> lookup(b, k) is Some,
            lookup(a, k) matches Some(x) ==> (lookup(b, k) matches Some(y) && y == (WindowState {
                scroll_x: y.scroll_x,
                scroll_y: y.scroll_y,
                ..x
            })),
        decreases a.len(),
    {
        if a.len() > 0 {
            if a[0].key != k {
                assert(forall|i: int|
                    0 <= i < a.len() - 1 ==> #[trigger] a.drop_first()[i] == a[i + 1]);
                assert(forall|i: int|
                    0 <= i < b.len() - 1 ==> #[trigger] b.drop_first()[i] == b[i + 1]);
                AppState::lemma_lookup_scroll_related(a.drop_first(), b.drop_first(), k);
            }
        }
    }

    /// The column a vertical move steers towards: the remembered column, or
    /// the cursor's.
    pub open spec fn s_target_col(self) -> u16 {
        match self.preferred_col {
            Some(c) => c,
            None => self.s_active_cursor().col,
        }
    }

    /// A column clamped into `1 ..= limit`.
    pub open spec fn clamp_col(target: int, limit: int) -> u16 {
        if target > limit {
            if limit < 1 {
                1u16
            } else {
                limit as u16
            }
        } else if target < 1 {
            1u16
        } else {
            target as u16
        }
    }

    /// Writes the active buffer's cursor; nothing else moves.
    fn set_active_cursor_pos(&mut self, c: CursorState)
        ensures
            *final(self) == (AppState { buffers: final(self).buffers, ..*old(self) }),
            old(self).s_active_buffer_id() matches Some(bid) ==> (old(self).s_buf(bid) is Some
                ==> final(self).s_buf(bid) == Some(
                BufferState { cursor: c, ..old(self).s_buf(bid).unwrap() },
            ) && (forall|b2: BufferId| b2 != bid ==> final(self).s_buf(b2) == old(self).s_buf(b2))),
            old(self).s_active_buffer() is None ==> final(self).buffers == old(self).buffers,
    {
        let bid = match self.active_buffer_id() {
            Some(b) => b,
            None => {
                return ;
            },
        };
        if let Some(bi) = find_idx(&self.buffers, bid.0) {
            let ghost pre = self.buffers@;
            let b = &mut self.buffers[bi];
            b.val.cursor = c;
            proof {
                let nb = final(b).val;
                assert(self.buffers@ =~= pre.update(bi as int, Entry { key: bid.0, val: nb }));
                crate::store::lemma_lookup_update(pre, bi as int, nb, 0u64);
                assert forall|b2: BufferId| b2 != bid implies final(self).s_buf(b2) == old(
                    self,
                ).s_buf(b2) by {
                    crate::store::lemma_lookup_update(pre, bi as int, nb, b2.0);
                }
            }
        }
    }

    /// Moves the cursor one column left, stopping at the first column.
    pub fn move_cursor_left(&mut self)
        ensures
            AppState::cursor_only_post(
                *old(self),
                *final(self),
                CursorState {
                    row: old(self).s_active_cursor().row,
                    col: if old(self).s_active_cursor().col > 1 {
                        (old(self).s_active_cursor().col - 1) as u16
                    } else {
                        old(self).s_active_cursor().col
                    },
                },
            ),
            final(self).preferred_col is None,
    {
        let cur = self.active_cursor();
        if cur.col > 1 {
            self.set_active_cursor_pos(CursorState { row: cur.row, col: cur.col - 1 });
        }
        self.preferred_col = None;
        self.align_active_window_scroll_to_cursor();
    }

    /// Moves the cursor one column right, stopping at the last navigable
    /// column of its row.
    pub fn move_cursor_right(&mut self)
        ensures
            AppState::cursor_only_post(
                *old(self),
                *final(self),
                CursorState {
                    row: old(self).s_active_cursor().row,
                    col: if old(self).s_active_cursor().col
                        < old(self).s_max_navigable_col_for_row(old(self).s_active_cursor().row) {
                        (old(self).s_active_cursor().col + 1) as u16
                    } else {
                        old(self).s_active_cursor().col
                    },
                },
            ),
            final(self).preferred_col is None,
    {
        let cur = self.active_cursor();
        let max_col = self.max_navigable_col_for_row(cur.row);
        if cur.col < max_col {
            self.set_active_cursor_pos(CursorState { row: cur.row, col: cur.col + 1 });
        }
        self.preferred_col = None;
        self.align_active_window_scroll_to_cursor();
    }

    /// Left move in character-wise visual mode.
    pub fn move_cursor_left_for_visual_char(&mut self)
        ensures
            AppState::cursor_only_post(
                *old(self),
                *final(self),
                CursorState {
                    row: old(self).s_active_cursor().row,
                    col: if old(self).s_active_cursor().col > 1 {
                        (old(self).s_active_cursor().col - 1) as u16
                    } else {
                        old(self).s_active_cursor().col
                    },
                },
            ),
            final(self).preferred_col is None,
    {
        let cur = self.active_cursor();
        if cur.col > 1 {
            self.set_active_cursor_pos(CursorState { row: cur.row, col: cur.col - 1 });
        }
        self.preferred_col = None;
        self.align_active_window_scroll_to_cursor();
    }

    /// Right move in character-wise visual mode: the selection may rest on
    /// the line-break slot.
    pub fn move_cursor_right_for_visual_char(&mut self)
        ensures
            *final(self) == (AppState {
                buffers: final(self).buffers,
                windows: final(self).windows,
                preferred_col: None,
                ..*old(self)
            }),
            AppState::windows_scroll_frame(*old(self), *final(self)),
            AppState::cursor_unpinned(*old(self), *final(self)),
            final(self).preferred_col is None,
    {
        let cur = self.active_cursor();
        let max_col = self.max_visual_char_col_for_row(cur.row);
        if cur.col < max_col {
            self.set_active_cursor_pos(CursorState { row: cur.row, col: cur.col + 1 });
        }
        self.preferred_col = None;
        self.align_active_window_scroll_to_cursor();
    }

    /// Jumps to the first column.
    pub fn move_cursor_line_start(&mut self)
        ensures
            AppState::cursor_only_post(
                *old(self),
                *final(self),
                CursorState { row: old(self).s_active_cursor().row, col: 1u16 },
            ),
            final(self).preferred_col is None,
    {
        let cur = self.active_cursor();
        self.set_active_cursor_pos(CursorState { row: cur.row, col: 1 });
        self.preferred_col = None;
        self.align_active_window_scroll_to_cursor();
    }

    /// Jumps to the last navigable column of the row.
    pub fn move_cursor_line_end(&mut self)
        ensures
            AppState::cursor_only_post(
                *old(self),
                *final(self),
                CursorState {
                    row: old(self).s_active_cursor().row,
                    col: AppState::clamp_col(
                        old(self).s_max_navigable_col_for_row(old(self).s_active_cursor().row),
                        old(self).s_max_navigable_col_for_row(old(self).s_active_cursor().row),
                    ),
                },
            ),
            final(self).preferred_col is None,
    {
        let cur = self.active_cursor();
        let max_col = self.max_navigable_col_for_row(cur.row);
        self.set_active_cursor_pos(CursorState { row: cur.row, col: max_col });
        self.preferred_col = None;
        self.align_active_window_scroll_to_cursor();
    }

    /// Remembers the column a vertical move steers towards.
    fn capture_preferred_col_for_vertical(&mut self) -> (r: u16)
        ensures
            r == old(self).s_target_col(),
            *final(self) == (AppState { preferred_col: Some(r), ..*old(self) }),
    {
        match self.preferred_col {
            Some(c) => c,
            None => {
                let col = self.active_cursor().col;
                self.preferred_col = Some(col);
                col
            },
        }
    }

    /// Moves the cursor one row up; the column follows the remembered
    /// column, clamped to the target row.
    pub fn move_cursor_up(&mut self)
        ensures
            final(self).preferred_col == Some(old(self).s_target_col()),
            AppState::cursor_only_post(
                AppState { preferred_col: Some(old(self).s_target_col()), ..*old(self) },
                *final(self),
                CursorState {
                    row: if old(self).s_active_cursor().row > 1 {
                        (old(self).s_active_cursor().row - 1) as u16
                    } else {
                        old(self).s_active_cursor().row
                    },
                    col: AppState::clamp_col(
                        old(self).s_target_col() as int,
                        old(self).s_max_navigable_col_for_row(
                            if old(self).s_active_cursor().row > 1 {
                                (old(self).s_active_cursor().row - 1) as u16
                            } else {
                                old(self).s_active_cursor().row
                            },
                        ),
                    ),
                },
            ),
    {
        let target_col = self.capture_preferred_col_for_vertical();
        let cur = self.active_cursor();
        let new_row = if cur.row > 1 {
            cur.row - 1
        } else {
            cur.row
        };
        let max_col = self.max_navigable_col_for_row(new_row);
        let new_col = if target_col > max_col {
            max_col
        } else if target_col < 1 {
            1
        } else {
            target_col
        };
        self.set_active_cursor_pos(CursorState { row: new_row, col: new_col });
        self.adjust_scroll_after_vertical_move(VerticalMoveDirection::Up);
    }

    /// Moves the cursor one row down; the column follows the remembered
    /// column, clamped to the target row.
    pub fn move_cursor_down(&mut self)
        ensures
            final(self).preferred_col == Some(old(self).s_target_col()),
            AppState::cursor_only_post(
                AppState { preferred_col: Some(old(self).s_target_col()), ..*old(self) },
                *final(self),
                CursorState {
                    row: if (old(self).s_active_cursor().row as int) < (
                    if old(self).s_max_row() > u16::MAX {
                        u16::MAX as int
                    } else {
                        old(self).s_max_row()
                    }) {
                        (old(self).s_active_cursor().row + 1) as u16
                    } else {
                        old(self).s_active_cursor().row
                    },
                    col: AppState::clamp_col(
                        old(self).s_target_col() as int,
                        old(self).s_max_navigable_col_for_row(
                            if (old(self).s_active_cursor().row as int) < (
                            if old(self).s_max_row() > u16::MAX {
                                u16::MAX as int
                            } else {
                                old(self).s_max_row()
                            }) {
                                (old(self).s_active_cursor().row + 1) as u16
                            } else {
                                old(self).s_active_cursor().row
                            },
                        ),
                    ),
                },
            ),
    {
        let target_col = self.capture_preferred_col_for_vertical();
        let max_row = self.max_row();
        let cur = self.active_cursor();
        let new_row = if cur.row < max_row {
            cur.row + 1
        } else {
            cur.row
        };
        let max_col = self.max_navigable_col_for_row(new_row);
        let new_col = if target_col > max_col {
            max_col
        } else if target_col < 1 {
            1
        } else {
            target_col
        };
        self.set_active_cursor_pos(CursorState { row: new_row, col: new_col });
        self.adjust_scroll_after_vertical_move(VerticalMoveDirection::Down);
    }

    /// Jumps to the first row.
    pub fn move_cursor_file_start(&mut self)
        ensures
            final(self).preferred_col == Some(old(self).s_target_col()),
            AppState::cursor_only_post(
                AppState { preferred_col: Some(old(self).s_target_col()), ..*old(self) },
                *final(self),
                CursorState {
                    row: 1u16,
                    col: AppState::clamp_col(
                        old(self).s_target_col() as int,
                        old(self).s_max_navigable_col_for_row(1u16),
                    ),
                },
            ),
    {
        let target_col = self.capture_preferred_col_for_vertical();
        let max_col = self.max_navigable_col_for_row(1);
        let new_col = if target_col > max_col {
            max_col
        } else if target_col < 1 {
            1
        } else {
            target_col
        };
        self.set_active_cursor_pos(CursorState { row: 1, col: new_col });
        self.adjust_scroll_after_vertical_move(VerticalMoveDirection::Up);
    }

    /// Jumps to the last row.
    pub fn move_cursor_file_end(&mut self)
        ensures
            final(self).preferred_col == Some(old(self).s_target_col()),
            AppState::cursor_only_post(
                AppState { preferred_col: Some(old(self).s_target_col()), ..*old(self) },
                *final(self),
                CursorState {
                    row: (if old(self).s_max_row() > u16::MAX {
                        u16::MAX as int
                    } else {
                        old(self).s_max_row()
                    }) as u16,
                    col: AppState::clamp_col(
                        old(self).s_target_col() as int,
                        old(self).s_max_navigable_col_for_row(
                            (if old(self).s_max_row() > u16::MAX {
                                u16::MAX as int
                            } else {
                                old(self).s_max_row()
                            }) as u16,
                        ),
                    ),
                },
            ),
    {
        let target_col = self.capture_preferred_col_for_vertical();
        let max_row = self.max_row();
        let max_col = self.max_navigable_col_for_row(max_row);
        let new_col = if target_col > max_col {
            max_col
        } else if target_col < 1 {
            1
        } else {
            target_col
        };
        self.set_active_cursor_pos(CursorState { row: max_row, col: new_col });
        self.adjust_scroll_after_vertical_move(VerticalMoveDirection::Down);
    }

    /// Right move in insert mode: the cursor may rest one past the line end.
    pub fn move_cursor_right_for_insert(&mut self)
        ensures
            AppState::cursor_only_post(
                *old(self),
                *final(self),
                CursorState {
                    row: old(self).s_active_cursor().row,
                    col: if old(self).s_active_cursor().col < old(self).s_max_col_for_row(
                        old(self).s_active_cursor().row,
                    ) {
                        (old(self).s_active_cursor().col + 1) as u16
                    } else {
                        old(self).s_active_cursor().col
                    },
                },
            ),
            final(self).preferred_col is None,
    {
        let cur = self.active_cursor();
        let max_col = self.max_col_for_row(cur.row);
        if cur.col < max_col {
            self.set_active_cursor_pos(CursorState { row: cur.row, col: cur.col + 1 });
        }
        self.preferred_col = None;
        self.align_active_window_scroll_to_cursor();
    }

    /// Clamps the cursor column back into the navigable range of its row.
    pub(crate) fn clamp_cursor_to_navigable_col(&mut self)
        ensures
            AppState::cursor_only_post(
                *old(self),
                *final(self),
                CursorState {
                    row: old(self).s_active_cursor().row,
                    col: AppState::clamp_col(
                        old(self).s_active_cursor().col as int,
                        old(self).s_max_navigable_col_for_row(old(self).s_active_cursor().row),
                    ),
                },
            ),
            final(self).preferred_col == old(self).preferred_col,
    {
        let cur = self.active_cursor();
        let max_col = self.max_navigable_col_for_row(cur.row);
        let new_col = if cur.col > max_col {
            max_col
        } else if cur.col < 1 {
            1
        } else {
            cur.col
        };
        self.set_active_cursor_pos(CursorState { row: cur.row, col: new_col });
        self.align_active_window_scroll_to_cursor();
    }

    /// Scrolls the view one line down, keeping the cursor visible.
    pub fn scroll_view_down_one_line(&mut self)
        ensures
            AppState::scroll_view_post(*old(self), *final(self)),
    {
        let target_col = self.capture_preferred_col_for_vertical();
        self.scroll_view_with_col_memory(true, 1, target_col);
    }

    /// Scrolls the view one line up, keeping the cursor visible.
    pub fn scroll_view_up_one_line(&mut self)
        ensures
            AppState::scroll_view_post(*old(self), *final(self)),
    {
        let target_col = self.capture_preferred_col_for_vertical();
        self.scroll_view_with_col_memory(false, 1, target_col);
    }

    /// Scrolls the view half a window down, keeping the cursor visible.
    pub fn scroll_view_down_half_page(&mut self)
        ensures
            AppState::scroll_view_post(*old(self), *final(self)),
    {
        let target_col = self.capture_preferred_col_for_vertical();
        let step = {
            let v = self.active_window_visible_rows() / 2;
            if v < 1 {
                1
            } else {
                v
            }
        };
        self.scroll_view_with_col_memory(true, step, target_col);
    }

    /// Scrolls the view half a window up, keeping the cursor visible.
    pub fn scroll_view_up_half_page(&mut self)
        ensures
            AppState::scroll_view_post(*old(self), *final(self)),
    {
        let target_col = self.capture_preferred_col_for_vertical();
        let step = {
            let v = self.active_window_visible_rows() / 2;
            if v < 1 {
                1
            } else {
                v
            }
        };
        self.scroll_view_with_col_memory(false, step, target_col);
    }

    fn scroll_view_with_col_memory(&mut self, down: bool, step: u16, target_col: u16)
        ensures
            *final(self) == (AppState {
                buffers: final(self).buffers,
                windows: final(self).windows,
                ..*old(self)
            }),
            AppState::windows_scroll_frame(*old(self), *final(self)),
            AppState::cursor_unpinned(*old(self), *final(self)),
    {
        let wid = self.active_window_id();
        let visible_rows = self.active_window_visible_rows();
        let max_scroll = self.max_row().saturating_sub(visible_rows);
        if let Some(wi) = find_idx(&self.windows, wid.0) {
            let scroll_y0 = self.windows[wi].val.scroll_y;
            let next = if down {
                let v = scroll_y0.saturating_add(step);
                if v > max_scroll {
                    max_scroll
                } else {
                    v
                }
            } else {
                scroll_y0.saturating_sub(step)
            };
            self.set_active_window_scroll(None, Some(next));
        }
        let ghost mid = *self;
        proof {
            AppState::lemma_scroll_frame_keeps_active(*old(self), mid);
        }
        self.keep_cursor_in_view_after_scroll(target_col);
        proof {
            assert(mid.s_active_buffer_id() == old(self).s_active_buffer_id());
            assert(forall|b: BufferId| mid.s_buf(b) == old(self).s_buf(b));
            assert(AppState::cursor_unpinned(*old(self), *self)) by {
                assert(AppState::cursor_unpinned(mid, *self));
            }
        }
    }

    fn keep_cursor_in_view_after_scroll(&mut self, target_col: u16)
        ensures
            *final(self) == (AppState { buffers: final(self).buffers, ..*old(self) }),
            AppState::cursor_unpinned(*old(self), *final(self)),
    {
        let wid = self.active_window_id();
        let wi = match find_idx(&self.windows, wid.0) {
            Some(i) => i,
            None => {
                return ;
            },
        };
        let scroll_y = self.windows[wi].val.scroll_y;
        let visible_rows = self.active_window_visible_rows();
        let top_row = scroll_y.saturating_add(1);
        let bottom_row = top_row.saturating_add(visible_rows.saturating_sub(1));
        let row = self.active_cursor().row;
        let target_row = if row < top_row {
            top_row
        } else if row > bottom_row {
            bottom_row
        } else {
            return ;
        };
        let max_col = self.max_navigable_col_for_row(target_row);
        let new_col = if target_col > max_col {
            max_col
        } else if target_col < 1 {
            1
        } else {
            target_col
        };
        self.set_active_cursor_pos(CursorState { row: target_row, col: new_col });
    }

    fn adjust_scroll_after_vertical_move(&mut self, direction: VerticalMoveDirection)
        ensures
            *final(self) == (AppState { windows: final(self).windows, ..*old(self) }),
            AppState::windows_scroll_frame(*old(self), *final(self)),
    {
        let wid = self.active_window_id();
        let wi = match find_idx(&self.windows, wid.0) {
            Some(i) => i,
            None => {
                return ;
            },
        };
        let cursor_row = self.active_cursor().row;
        let cursor_line = cursor_row.saturating_sub(1);
        let visible_rows = self.active_window_visible_rows();
        let max_row = self.max_row();
        let max_scroll = max_row.saturating_sub(visible_rows);
        let threshold = self.cursor_scroll_threshold;
        let visible_tail = visible_rows.saturating_sub(1);
        let scroll_y0 = self.windows[wi].val.scroll_y;
        match direction {
            VerticalMoveDirection::Up => {
                let top_trigger = scroll_y0.saturating_add(threshold);
                if cursor_line < top_trigger {
                    let v = cursor_line.saturating_sub(threshold);
                    let next = if v > max_scroll {
                        max_scroll
                    } else {
                        v
                    };
                    self.set_active_window_scroll(None, Some(next));
                }
            },
            VerticalMoveDirection::Down => {
                let bottom = scroll_y0.saturating_add(visible_tail);
                let bottom_trigger = bottom.saturating_sub(threshold);
                if cursor_line > bottom_trigger {
                    let needed_top = cursor_line.saturating_add(threshold).saturating_sub(
                        visible_tail,
                    );
                    let next = if needed_top > max_scroll {
                        max_scroll
                    } else {
                        needed_top
                    };
                    self.set_active_window_scroll(None, Some(next));
                }
            },
        }
    }

    fn adjust_scroll_after_horizontal_move(&mut self, direction: HorizontalMoveDirection)
        ensures
            *final(self) == (AppState { windows: final(self).windows, ..*old(self) }),
            AppState::windows_scroll_frame(*old(self), *final(self)),
    {
        let wid = self.active_window_id();
        let wi = match find_idx(&self.windows, wid.0) {
            Some(i) => i,
            None => {
                return ;
            },
        };
        let visible_cols = self.active_window_visible_text_cols();
        let visible_tail = visible_cols.saturating_sub(1);
        let threshold = {
            let t = self.cursor_scroll_threshold;
            if t < visible_tail {
                t
            } else {
                visible_tail
            }
        };
        let cursor_display_col = self.active_cursor_display_col();
        let line_display_width = self.active_line_display_width();
        let max_scroll = line_display_width.saturating_sub(visible_tail);
        let scroll_x0 = self.windows[wi].val.scroll_x;
        match direction {
            HorizontalMoveDirection::Left => {
                let left_trigger = scroll_x0.saturating_add(threshold);
                if cursor_display_col < left_trigger {
                    let v = cursor_display_col.saturating_sub(threshold);
                    let next = if v > max_scroll {
                        max_scroll
                    } else {
                        v
                    };
                    self.set_active_window_scroll(Some(next), None);
                }
            },
            HorizontalMoveDirection::Right => {
                let right = scroll_x0.saturating_add(visible_tail);
                let right_trigger = right.saturating_sub(threshold);
                if cursor_display_col > right_trigger {
                    let needed_left = cursor_display_col.saturating_add(threshold).saturating_sub(
                        visible_tail,
                    );
                    let next = if needed_left > max_scroll {
                        max_scroll
                    } else {
                        needed_left
                    };
                    self.set_active_window_scroll(Some(next), None);
                }
            },
        }
    }

    /// One less, stopping at zero.
    pub open spec fn sat_sub1(x: u16) -> int {
        if x >= 1 {
            x - 1
        } else {
            0
        }
    }

    /// An index clamped into `0 ..= n`.
    pub open spec fn clamp_idx(k: int, n: int) -> int {
        if k < 0 {
            0
        } else if k > n {
            n
        } else {
            k
        }
    }

    /// Rows extended with empty rows up to `n` of them.
    pub open spec fn pad_rows(ls: Seq<Seq<char>>, n: int) -> Seq<Seq<char>> {
        if n <= ls.len() {
            ls
        } else {
            ls + Seq::new((n - ls.len()) as nat, |i: int| Seq::<char>::empty())
        }
    }

    /// A row with `ins` inserted `k0` characters in (clamped to the row's
    /// end).
    pub open spec fn line_ins(l: Seq<char>, k0: int, ins: Seq<char>) -> Seq<char> {
        let k = AppState::clamp_idx(k0, l.len() as int);
        l.take(k) + ins + l.skip(k)
    }

    /// Text after typing one character at the cursor slot.
    pub open spec fn insert_char_text(t: Seq<char>, row_idx: int, col_idx: int, ch: char) -> Seq<
        char,
    > {
        let ls = AppState::pad_rows(lines_of(t), row_idx + 1);
        crate::text::join_lines(ls.update(row_idx, AppState::line_ins(ls[row_idx], col_idx, seq![ch])))
    }

    /// Text after breaking the cursor's row in two at the cursor slot.
    pub open spec fn insert_newline_text(t: Seq<char>, row_idx: int, col_idx: int) -> Seq<char> {
        let ls = AppState::pad_rows(lines_of(t), row_idx + 1);
        let l = ls[row_idx];
        let k = AppState::clamp_idx(col_idx, l.len() as int);
        crate::text::join_lines(ls.update(row_idx, l.take(k)).insert(row_idx + 1, l.skip(k)))
    }

    /// Text after opening an empty row below the cursor's row.
    pub open spec fn open_line_below_text(t: Seq<char>, row_idx: int) -> Seq<char> {
        let ls = AppState::pad_rows(lines_of(t), row_idx + 1);
        crate::text::join_lines(ls.insert(row_idx + 1, Seq::empty()))
    }

    /// Text after opening an empty row above the cursor's row.
    pub open spec fn open_line_above_text(t: Seq<char>, row_idx: int) -> Seq<char> {
        let ls = AppState::pad_rows(lines_of(t), row_idx + 1);
        crate::text::join_lines(ls.insert(row_idx, Seq::empty()))
    }

    /// Only the active buffer changed (text to `newtext`, cursor to
    /// `newcur`, now dirty) and window scrolls may have moved.
    pub open spec fn buffer_edit_post(
        pre: AppState,
        post: AppState,
        newtext: Seq<char>,
        newcur: CursorState,
    ) -> bool {
        &&& post == (AppState { buffers: post.buffers, windows: post.windows, ..pre })
        &&& AppState::windows_scroll_frame(pre, post)
        &&& match pre.s_active_buffer_id() {
            Some(bid) => match pre.s_buf(bid) {
                Some(b) => {
                    &&& post.s_buf(bid) is Some
                    &&& post.s_buf(bid).unwrap() == (BufferState {
                        text: post.s_buf(bid).unwrap().text,
                        cursor: newcur,
                        dirty: true,
                        ..b
                    })
                    &&& post.s_buf(bid).unwrap().text@ == newtext
                    &&& forall|b2: BufferId| b2 != bid ==> post.s_buf(b2) == pre.s_buf(b2)
                },
                None => post == pre,
            },
            None => post == pre,
        }
    }

    /// Writes the new text, cursor and dirty flag of one buffer.
    fn commit_buffer_edit(&mut self, bi: usize, newtext: String, newcur: CursorState)
        requires
            bi < old(self).buffers@.len(),
            forall|j: int| 0 <= j < bi ==> old(self).buffers@[j].key != old(self).buffers@[bi as int].key,
        ensures
            *final(self) == (AppState { buffers: final(self).buffers, ..*old(self) }),
            final(self).s_buf(BufferId(old(self).buffers@[bi as int].key)) == Some(
                BufferState {
                    text: newtext,
                    cursor: newcur,
                    dirty: true,
                    ..old(self).buffers@[bi as int].val
                },
            ),
            forall|b2: BufferId|
                b2.0 != old(self).buffers@[bi as int].key ==> final(self).s_buf(b2) == old(
                    self,
                ).s_buf(b2),
    {
        let ghost pre = self.buffers@;
        let b = &mut self.buffers[bi];
        b.val.text = newtext;
        b.val.cursor = newcur;
        b.val.dirty = true;
        proof {
            let nb = final(b).val;
            assert(self.buffers@ =~= pre.update(bi as int, Entry { key: pre[bi as int].key, val: nb }));
            crate::store::lemma_lookup_update(pre, bi as int, nb, 0u64);
            assert forall|b2: BufferId| b2.0 != pre[bi as int].key implies final(self).s_buf(b2)
                == old(self).s_buf(b2) by {
                crate::store::lemma_lookup_update(pre, bi as int, nb, b2.0);
            }
        }
    }

    /// Pads the row list with empty rows so that row `row_idx` exists.
    fn ensure_row_exists(lines: &mut Vec<String>, row_idx: usize)
        requires
            row_idx < usize::MAX,
        ensures
            final(lines)@.map_values(|l: String| l@) == AppState::pad_rows(
                old(lines)@.map_values(|l: String| l@),
                row_idx + 1,
            ),
            final(lines)@.len() > row_idx,
            row_idx < old(lines)@.len() ==> final(lines)@ == old(lines)@,
    {
        let ghost ls0 = lines@.map_values(|l: String| l@);
        if row_idx < lines.len() {
            proof {
                assert(AppState::pad_rows(ls0, row_idx + 1) == ls0);
            }
            return ;
        }
        let target = row_idx + 1;
        while lines.len() < target
            invariant
                lines@.len() >= ls0.len(),
                lines@.len() <= target,
                lines@.map_values(|l: String| l@) =~~= ls0 + Seq::new(
                    (lines@.len() - ls0.len()) as nat,
                    |i: int| Seq::<char>::empty(),
                ),
            decreases target - lines@.len(),
        {
            let e = String::new();
            proof {
                let m = lines@.map_values(|l: String| l@);
                assert(lines@.push(e).map_values(|l: String| l@) =~~= m.push(e@));
                assert(m.push(e@) =~~= ls0 + Seq::new(
                    (lines@.len() + 1 - ls0.len()) as nat,
                    |i: int| Seq::<char>::empty(),
                ));
            }
            lines.push(e);
        }
        proof {
            assert(AppState::pad_rows(ls0, row_idx + 1) =~~= ls0 + Seq::new(
                (target - ls0.len()) as nat,
                |i: int| Seq::<char>::empty(),
            ));
        }
    }

    /// A row with `ins` inserted `k0` characters in.
    fn line_insert_str(line: &str, k0: usize, ins: &str) -> (r: String)
        ensures
            r@ == AppState::line_ins(line@, k0 as int, ins@),
    {
        let n = line.unicode_len();
        let k = if k0 > n {
            n
        } else {
            k0
        };
        let mut r = String::from_str(line.substring_char(0, k));
        r.append(ins);
        r.append(line.substring_char(k, n));
        proof {
            assert(line@.subrange(0, k as int) =~= line@.take(k as int));
            assert(line@.subrange(k as int, n as int) =~= line@.skip(k as int));
            assert(r@ =~= AppState::line_ins(line@, k0 as int, ins@));
        }
        r
    }

    /// Characters `a ..= b-1` removed from the row (indices clamped).
    pub(crate) fn line_remove_range(line: &str, a: usize, b: usize) -> (r: (String, String))
        ensures
            r.0@ == line@.take(AppState::clamp_idx(a as int, line@.len() as int)) + line@.skip(
                AppState::clamp_idx(b as int, line@.len() as int),
            ),
            r.1@ == line@.subrange(
                AppState::clamp_idx(a as int, line@.len() as int),
                if AppState::clamp_idx(b as int, line@.len() as int) < AppState::clamp_idx(
                    a as int,
                    line@.len() as int,
                ) {
                    AppState::clamp_idx(a as int, line@.len() as int)
                } else {
                    AppState::clamp_idx(b as int, line@.len() as int)
                },
            ),
    {
        let n = line.unicode_len();
        let ka = if a > n {
            n
        } else {
            a
        };
        let kb = if b > n {
            n
        } else {
            b
        };
        let kb2 = if kb < ka {
            ka
        } else {
            kb
        };
        let mut kept = String::from_str(line.substring_char(0, ka));
        kept.append(line.substring_char(kb, n));
        let cut = String::from_str(line.substring_char(ka, kb2));
        proof {
            assert(line@.subrange(0, ka as int) =~= line@.take(ka as int));
            assert(line@.subrange(kb as int, n as int) =~= line@.skip(kb as int));
        }
        (kept, cut)
    }

    /// Inserts one character at the cursor slot of the active buffer and
    /// advances the cursor one column.
    pub fn insert_char_at_cursor(&mut self, ch: char)
        ensures
            AppState::buffer_edit_post(
                *old(self),
                *final(self),
                AppState::insert_char_text(
                    old(self).s_active_text(),
                    AppState::sat_sub1(old(self).s_active_cursor().row),
                    AppState::sat_sub1(old(self).s_active_cursor().col),
                    ch,
                ),
                CursorState {
                    row: old(self).s_active_cursor().row,
                    col: old(self).s_active_cursor().col.saturating_add(1u16),
                },
            ) || old(self).s_active_buffer() is None && *final(self) == *old(self),
    {
        let bid = match self.active_buffer_id() {
            Some(b) => b,
            None => {
                return ;
            },
        };
        let bi = match find_idx(&self.buffers, bid.0) {
            Some(i) => i,
            None => {
                return ;
            },
        };
        let cur = self.buffers[bi].val.cursor;
        let row_idx = (cur.row.saturating_sub(1)) as usize;
        let col_idx = (cur.col.saturating_sub(1)) as usize;
        let ghost t0 = self.buffers@[bi as int].val.text@;
        let mut lines = {
            let b_ref = &self.buffers[bi];
            crate::text::split_lines_owned(b_ref.val.text.as_str())
        };
        AppState::ensure_row_exists(&mut lines, row_idx);
        let mut one = String::new();
        crate::strutil::push_char(&mut one, ch);
        let newline_row = AppState::line_insert_str(lines[row_idx].as_str(), col_idx, one.as_str());
        proof {
            let ls = AppState::pad_rows(crate::text::lines_of(t0), row_idx + 1);
            assert(lines@.map_values(|l: String| l@) == ls);
            assert(one@ =~= seq![ch]);
            assert(newline_row@ == AppState::line_ins(ls[row_idx as int], col_idx as int, seq![ch]));
            assert(lines@.update(row_idx as int, newline_row).map_values(|l: String| l@) =~~= ls
                .update(row_idx as int, newline_row@));
        }
        lines.set(row_idx, newline_row);
        let newtext = crate::text::join_all_lines(&lines);
        let newcur = CursorState { row: cur.row, col: cur.col.saturating_add(1) };
        self.commit_buffer_edit(bi, newtext, newcur);
        self.align_active_window_scroll_to_cursor();
    }

    /// Breaks the line at the cursor slot; the cursor moves to the start of
    /// the new row.
    pub fn insert_newline_at_cursor(&mut self)
        ensures
            AppState::buffer_edit_post(
                *old(self),
                *final(self),
                AppState::insert_newline_text(
                    old(self).s_active_text(),
                    AppState::sat_sub1(old(self).s_active_cursor().row),
                    AppState::sat_sub1(old(self).s_active_cursor().col),
                ),
                CursorState { row: old(self).s_active_cursor().row.saturating_add(1u16), col: 1u16 },
            ) || old(self).s_active_buffer() is None && *final(self) == *old(self),
    {
        let bid = match self.active_buffer_id() {
            Some(b) => b,
            None => {
                return ;
            },
        };
        let bi = match find_idx(&self.buffers, bid.0) {
            Some(i) => i,
            None => {
                return ;
            },
        };
        let cur = self.buffers[bi].val.cursor;
        let row_idx = (cur.row.saturating_sub(1)) as usize;
        let col_idx = (cur.col.saturating_sub(1)) as usize;
        let ghost t0 = self.buffers@[bi as int].val.text@;
        let mut lines = {
            let b_ref = &self.buffers[bi];
            crate::text::split_lines_owned(b_ref.val.text.as_str())
        };
        AppState::ensure_row_exists(&mut lines, row_idx);
        let l = lines[row_idx].as_str();
        let n = l.unicode_len();
        let k = if col_idx > n {
            n
        } else {
            col_idx
        };
        let head = String::from_str(l.substring_char(0, k));
        let tail = String::from_str(l.substring_char(k, n));
        proof {
            let ls = AppState::pad_rows(crate::text::lines_of(t0), row_idx + 1);
            assert(lines@.map_values(|l2: String| l2@) == ls);
            assert(head@ =~= ls[row_idx as int].take(AppState::clamp_idx(
                col_idx as int,
                ls[row_idx as int].len() as int,
            )));
            assert(tail@ =~= ls[row_idx as int].skip(AppState::clamp_idx(
                col_idx as int,
                ls[row_idx as int].len() as int,
            )));
            assert(lines@.update(row_idx as int, head).insert(row_idx + 1, tail).map_values(
                |l2: String| l2@,
            ) =~~= ls.update(row_idx as int, head@).insert(row_idx + 1, tail@));
        }
        lines.set(row_idx, head);
        lines.insert(row_idx + 1, tail);
        let newtext = crate::text::join_all_lines(&lines);
        let newcur = CursorState { row: cur.row.saturating_add(1), col: 1 };
        self.commit_buffer_edit(bi, newtext, newcur);
        self.align_active_window_scroll_to_cursor();
    }

    /// Opens an empty row below the cursor's row and moves there.
    pub fn open_line_below_at_cursor(&mut self)
        ensures
            AppState::buffer_edit_post(
                *old(self),
                *final(self),
                AppState::open_line_below_text(
                    old(self).s_active_text(),
                    AppState::sat_sub1(old(self).s_active_cursor().row),
                ),
                CursorState { row: old(self).s_active_cursor().row.saturating_add(1u16), col: 1u16 },
            ) || old(self).s_active_buffer() is None && *final(self) == *old(self),
    {
        let bid = match self.active_buffer_id() {
            Some(b) => b,
            None => {
                return ;
            },
        };
        let bi = match find_idx(&self.buffers, bid.0) {
            Some(i) => i,
            None => {
                return ;
            },
        };
        let cur = self.buffers[bi].val.cursor;
        let row_idx = (cur.row.saturating_sub(1)) as usize;
        let ghost t0 = self.buffers@[bi as int].val.text@;
        let mut lines = {
            let b_ref = &self.buffers[bi];
            crate::text::split_lines_owned(b_ref.val.text.as_str())
        };
        AppState::ensure_row_exists(&mut lines, row_idx);
        let e = String::new();
        proof {
            let ls = AppState::pad_rows(crate::text::lines_of(t0), row_idx + 1);
            assert(lines@.map_values(|l2: String| l2@) == ls);
            assert(lines@.insert(row_idx + 1, e).map_values(|l2: String| l2@) =~~= ls.insert(
                row_idx + 1,
                e@,
            ));
            assert(e@ =~= Seq::<char>::empty());
        }
        lines.insert(row_idx + 1, e);
        let newtext = crate::text::join_all_lines(&lines);
        let newcur = CursorState { row: cur.row.saturating_add(1), col: 1 };
        self.commit_buffer_edit(bi, newtext, newcur);
        self.align_active_window_scroll_to_cursor();
    }

    /// Opens an empty row above the cursor's row; the cursor keeps its row
    /// index and lands in column one.
    pub fn open_line_above_at_cursor(&mut self)
        ensures
            AppState::buffer_edit_post(
                *old(self),
                *final(self),
                AppState::open_line_above_text(
                    old(self).s_active_text(),
                    AppState::sat_sub1(old(self).s_active_cursor().row),
                ),
                CursorState { row: old(self).s_active_cursor().row, col: 1u16 },
            ) || old(self).s_active_buffer() is None && *final(self) == *old(self),
    {
        let bid = match self.active_buffer_id() {
            Some(b) => b,
            None => {
                return ;
            },
        };
        let bi = match find_idx(&self.buffers, bid.0) {
            Some(i) => i,
            None => {
                return ;
            },
        };
        let cur = self.buffers[bi].val.cursor;
        let row_idx = (cur.row.saturating_sub(1)) as usize;
        let ghost t0 = self.buffers@[bi as int].val.text@;
        let mut lines = {
            let b_ref = &self.buffers[bi];
            crate::text::split_lines_owned(b_ref.val.text.as_str())
        };
        AppState::ensure_row_exists(&mut lines, row_idx);
        let e = String::new();
        proof {
            let ls = AppState::pad_rows(crate::text::lines_of(t0), row_idx + 1);
            assert(lines@.map_values(|l2: String| l2@) == ls);
            assert(lines@.insert(row_idx as int, e).map_values(|l2: String| l2@) =~~= ls.insert(
                row_idx as int,
                e@,
            ));
            assert(e@ =~= Seq::<char>::empty());
        }
        lines.insert(row_idx, e);
        let newtext = crate::text::join_all_lines(&lines);
        let newcur = CursorState { row: cur.row, col: 1 };
        self.commit_buffer_edit(bi, newtext, newcur);
        self.align_active_window_scroll_to_cursor();
    }

    /// The row that joining leaves behind: the next row's indent is
    /// dropped, and a single space separates the parts when both are
    /// non-empty and the first does not already end in one.
    pub open spec fn merged_join_row(cur: Seq<char>, next: Seq<char>) -> Seq<char> {
        let nt = crate::strutil::spec_trim_start(next);
        if cur.len() > 0 && nt.len() > 0 && cur.last() != ' ' {
            cur + seq![' '] + nt
        } else {
            cur + nt
        }
    }

    /// Text after joining the next row onto the cursor's row.
    pub open spec fn join_below_text(t: Seq<char>, row_idx: int) -> Seq<char> {
        let ls = lines_of(t);
        crate::text::join_lines(
            ls.update(row_idx, AppState::merged_join_row(ls[row_idx], ls[row_idx + 1])).remove(
                row_idx + 1,
            ),
        )
    }

    /// What joining leaves behind: the merged row replaces the pair, the
    /// cursor column is clamped into the merged row, and the remembered
    /// column is cleared. On the last row nothing happens.
    pub open spec fn join_post(pre: AppState, post: AppState) -> bool {
        let cur = pre.s_active_cursor();
        let row_idx = AppState::sat_sub1(cur.row);
        let t = pre.s_active_text();
        let ls = lines_of(t);
        if pre.s_active_buffer() is None {
            post == pre
        } else if row_idx + 1 >= ls.len() {
            post == pre
        } else {
            let merged = AppState::merged_join_row(ls[row_idx], ls[row_idx + 1]);
            let lim: int = if merged.len() + 1 > u16::MAX {
                u16::MAX as int
            } else {
                merged.len() + 1 as int
            };
            &&& AppState::buffer_edit_post(
                AppState { preferred_col: None, ..pre },
                post,
                AppState::join_below_text(t, row_idx),
                CursorState { row: cur.row, col: AppState::clamp_col(cur.col as int, lim) },
            )
            &&& post.preferred_col is None
        }
    }

    /// Joins the row below onto the cursor's row. On the last row nothing
    /// happens.
    pub fn join_line_below_at_cursor(&mut self)
        ensures
            AppState::join_post(*old(self), *final(self)),
    {
        let bid = match self.active_buffer_id() {
            Some(b) => b,
            None => {
                return ;
            },
        };
        let bi = match find_idx(&self.buffers, bid.0) {
            Some(i) => i,
            None => {
                return ;
            },
        };
        let cur = self.buffers[bi].val.cursor;
        let row_idx = (cur.row.saturating_sub(1)) as usize;
        let ghost t0 = self.buffers@[bi as int].val.text@;
        let mut lines = {
            let b_ref = &self.buffers[bi];
            crate::text::split_lines_owned(b_ref.val.text.as_str())
        };
        if row_idx >= usize::MAX - 1 || row_idx + 1 >= lines.len() {
            return ;
        }
        let ghost ls = crate::text::lines_of(t0);
        let next = lines[row_idx + 1].clone();
        let (nt, _skipped) = crate::strutil::trim_start_counted(next.as_str());
        let cur_line = lines[row_idx].clone();
        let cur_n = cur_line.as_str().unicode_len();
        let nt_n = nt.as_str().unicode_len();
        let needs_space = cur_n > 0 && nt_n > 0 && cur_line.as_str().get_char(cur_n - 1) != ' ';
        let mut merged = cur_line;
        if needs_space {
            crate::strutil::push_char(&mut merged, ' ');
        }
        merged.append(nt.as_str());
        proof {
            assert(merged@ == AppState::merged_join_row(ls[row_idx as int], ls[row_idx + 1]));
        }
        let merged_n = merged.as_str().unicode_len();
        proof {
            assert(lines@.update(row_idx as int, merged).remove(row_idx + 1).map_values(
                |l2: String| l2@,
            ) =~~= ls.update(row_idx as int, merged@).remove(row_idx + 1));
        }
        lines.set(row_idx, merged);
        let _removed = lines.remove(row_idx + 1);
        let newtext = crate::text::join_all_lines(&lines);
        let max_col: u16 = if merged_n >= u16::MAX as usize {
            u16::MAX
        } else {
            (merged_n + 1) as u16
        };
        let new_col = if cur.col > max_col {
            max_col
        } else if cur.col < 1 {
            1
        } else {
            cur.col
        };
        let newcur = CursorState { row: cur.row, col: new_col };
        proof {
            let merged_s = AppState::merged_join_row(ls[row_idx as int], ls[row_idx + 1]);
            let lim: int = if merged_s.len() + 1 > u16::MAX {
                u16::MAX as int
            } else {
                merged_s.len() + 1 as int
            };
            assert(merged_n == merged_s.len());
            assert(new_col == AppState::clamp_col(cur.col as int, lim));
            assert(newtext@ == AppState::join_below_text(t0, row_idx as int));
            assert(t0 == old(self).s_active_text());
            assert(cur == old(self).s_active_cursor());
        }
        self.commit_buffer_edit(bi, newtext, newcur);
        self.preferred_col = None;
        self.align_active_window_scroll_to_cursor();
        proof {
            let pre2 = AppState { preferred_col: None, ..*old(self) };
            assert(self.preferred_col is None);
            assert(*self == (AppState { buffers: self.buffers, windows: self.windows, ..pre2 }));
            assert(AppState::windows_scroll_frame(pre2, *self)) by {
                assert(AppState::windows_scroll_frame(*old(self), *self));
            }
            assert(self.s_buf(bid) is Some);
            assert(self.s_buf(bid).unwrap().text@ == AppState::join_below_text(
                t0,
                row_idx as int,
            ));
            assert(self.s_buf(bid).unwrap() == (BufferState {
                text: self.s_buf(bid).unwrap().text,
                cursor: newcur,
                dirty: true,
                ..old(self).s_buf(bid).unwrap()
            }));
            assert(forall|b2: BufferId| b2 != bid ==> self.s_buf(b2) == old(self).s_buf(b2));
            assert(AppState::buffer_edit_post(
                pre2,
                *self,
                AppState::join_below_text(t0, row_idx as int),
                newcur,
            ));
            assert(AppState::join_post(*old(self), *self));
        }
    }

    /// Text after a backspace inside a row.
    pub open spec fn backspace_in_row_text(t: Seq<char>, row_idx: int, col_idx: int) -> Seq<char> {
        let ls = lines_of(t);
        let l = ls[row_idx];
        let a = AppState::clamp_idx(col_idx - 1, l.len() as int);
        let b = AppState::clamp_idx(col_idx, l.len() as int);
        crate::text::join_lines(ls.update(row_idx, l.take(a) + l.skip(b)))
    }

    /// Text after a backspace at column one: the row joins the one above.
    pub open spec fn backspace_join_text(t: Seq<char>, row_idx: int) -> Seq<char> {
        let ls = lines_of(t);
        crate::text::join_lines(
            ls.update(row_idx - 1, ls[row_idx - 1] + ls[row_idx]).remove(row_idx),
        )
    }

    /// What a backspace leaves behind: the character before the cursor
    /// goes, or at column one the row joins the one above; at the very
    /// start of the text nothing happens.
    pub open spec fn backspace_post(pre: AppState, post: AppState) -> bool {
        let cur = pre.s_active_cursor();
        let row_idx = AppState::sat_sub1(cur.row);
        let col_idx = AppState::sat_sub1(cur.col);
        let t = pre.s_active_text();
        if pre.s_active_buffer() is None {
            post == pre
        } else if row_idx >= lines_of(t).len() {
            post == pre
        } else if col_idx > 0 {
            AppState::buffer_edit_post(
                pre,
                post,
                AppState::backspace_in_row_text(t, row_idx, col_idx),
                CursorState { row: cur.row, col: (cur.col - 1) as u16 },
            )
        } else if row_idx > 0 {
            AppState::buffer_edit_post(
                pre,
                post,
                AppState::backspace_join_text(t, row_idx),
                CursorState {
                    row: (cur.row - 1) as u16,
                    col: AppState::clamp_col(AppState::row_chars(t, row_idx - 1) + 1, u16::MAX as int),
                },
            )
        } else {
            post == pre
        }
    }

    /// Deletes the character before the cursor; at the start of a row the
    /// row joins the one above. At the very start of the text nothing
    /// happens.
    pub fn backspace_at_cursor(&mut self)
        ensures
            AppState::backspace_post(*old(self), *final(self)),
    {
        let bid = match self.active_buffer_id() {
            Some(b) => b,
            None => {
                return ;
            },
        };
        let bi = match find_idx(&self.buffers, bid.0) {
            Some(i) => i,
            None => {
                return ;
            },
        };
        let cur = self.buffers[bi].val.cursor;
        let row_idx = (cur.row.saturating_sub(1)) as usize;
        let col_idx = (cur.col.saturating_sub(1)) as usize;
        let ghost t0 = self.buffers@[bi as int].val.text@;
        let mut lines = {
            let b_ref = &self.buffers[bi];
            crate::text::split_lines_owned(b_ref.val.text.as_str())
        };
        if row_idx >= lines.len() {
            return ;
        }
        let ghost ls = crate::text::lines_of(t0);
        if col_idx > 0 {
            let (kept, _cut) = AppState::line_remove_range(
                lines[row_idx].as_str(),
                col_idx - 1,
                col_idx,
            );
            proof {
                assert(lines@.update(row_idx as int, kept).map_values(|l2: String| l2@) =~~= ls
                    .update(
                    row_idx as int,
                    ls[row_idx as int].take(
                        AppState::clamp_idx(col_idx - 1, ls[row_idx as int].len() as int),
                    ) + ls[row_idx as int].skip(
                        AppState::clamp_idx(col_idx as int, ls[row_idx as int].len() as int),
                    ),
                ));
            }
            lines.set(row_idx, kept);
            let newtext = crate::text::join_all_lines(&lines);
            let newcur = CursorState { row: cur.row, col: cur.col - 1 };
            self.commit_buffer_edit(bi, newtext, newcur);
            self.align_active_window_scroll_to_cursor();
        } else if row_idx > 0 {
            let current_line = lines.remove(row_idx);
            let prev = lines[row_idx - 1].clone();
            let prev_n = prev.as_str().unicode_len();
            let mut merged = prev;
            merged.append(current_line.as_str());
            proof {
                assert(merged@ == ls[row_idx - 1] + ls[row_idx as int]);
                assert(lines@.update(row_idx - 1, merged).map_values(|l2: String| l2@) =~~= ls
                    .update(row_idx - 1, ls[row_idx - 1] + ls[row_idx as int]).remove(
                    row_idx as int,
                ));
            }
            lines.set(row_idx - 1, merged);
            let newtext = crate::text::join_all_lines(&lines);
            let new_col: u16 = if prev_n >= u16::MAX as usize {
                u16::MAX
            } else {
                (prev_n + 1) as u16
            };
            let newcur = CursorState { row: cur.row - 1, col: new_col };
            proof {
                assert(new_col == AppState::clamp_col(
                    AppState::row_chars(t0, row_idx - 1) + 1,
                    u16::MAX as int,
                ));
            }
            self.commit_buffer_edit(bi, newtext, newcur);
            self.align_active_window_scroll_to_cursor();
        } else {
            return ;
        }
    }

    /// The active buffer now holds `newtext` with cursor `newcur` and is
    /// dirty; every other buffer is untouched. Only meaningful while the
    /// active buffer exists.
    pub open spec fn active_buffer_changed(
        pre: AppState,
        post: AppState,
        newtext: Seq<char>,
        newcur: CursorState,
    ) -> bool {
        match pre.s_active_buffer_id() {
            Some(bid) => match pre.s_buf(bid) {
                Some(b) => {
                    &&& post.s_buf(bid) is Some
                    &&& post.s_buf(bid).unwrap() == (BufferState {
                        text: post.s_buf(bid).unwrap().text,
                        cursor: newcur,
                        dirty: true,
                        ..b
                    })
                    &&& post.s_buf(bid).unwrap().text@ == newtext
                    &&& forall|b2: BufferId| b2 != bid ==> post.s_buf(b2) == pre.s_buf(b2)
                },
                None => post.buffers == pre.buffers,
            },
            None => post.buffers == pre.buffers,
        }
    }

    /// Besides the active buffer, only the slot, the status message and
    /// window scrolls changed.
    pub open spec fn slot_frame(pre: AppState, post: AppState) -> bool {
        &&& post == (AppState {
            buffers: post.buffers,
            windows: post.windows,
            line_slot: post.line_slot,
            line_slot_line_wise: post.line_slot_line_wise,
            status_bar: post.status_bar,
            ..pre
        })
        &&& post.status_bar == (StatusBarState {
            message: post.status_bar.message,
            ..pre.status_bar
        })
        &&& AppState::windows_scroll_frame(pre, post)
    }

    /// Text after cutting the character under the cursor.
    pub open spec fn cut_char_text(t: Seq<char>, row_idx: int, col_idx: int) -> Seq<char> {
        let ls = lines_of(t);
        let l = ls[row_idx];
        crate::text::join_lines(ls.update(row_idx, l.take(col_idx) + l.skip(col_idx + 1)))
    }

    /// What cutting the character under the cursor leaves behind: the
    /// character moves into the slot, the buffer is dirty, the cursor
    /// stays. At a row edge only the status message changes.
    pub open spec fn cut_char_post(pre: AppState, post: AppState) -> bool {
        let cur = pre.s_active_cursor();
        let row_idx = AppState::sat_sub1(cur.row);
        let col_idx = AppState::sat_sub1(cur.col);
        let t = pre.s_active_text();
        let ls = lines_of(t);
        if pre.s_active_buffer() is None {
            AppState::only_message(pre, post) && post.status_bar.message@
                == "cut failed: no active buffer"@
        } else if row_idx >= ls.len() {
            AppState::only_message(pre, post) && post.status_bar.message@
                == "cut failed: out of range"@
        } else if col_idx >= ls[row_idx].len() {
            AppState::only_message(pre, post) && post.status_bar.message@ == "cut failed: no char"@
        } else {
            &&& AppState::slot_frame(pre, post)
            &&& AppState::active_buffer_changed(
                pre,
                post,
                AppState::cut_char_text(t, row_idx, col_idx),
                cur,
            )
            &&& post.line_slot matches Some(s) ==> s@ == seq![ls[row_idx][col_idx]]
            &&& post.line_slot is Some
            &&& post.line_slot_line_wise == false
            &&& post.status_bar.message@ == "char cut"@
        }
    }

    /// Cuts the character under the cursor into the slot.
    pub fn cut_current_char_to_slot(&mut self)
        ensures
            AppState::cut_char_post(*old(self), *final(self)),
    {
        let bid = match self.active_buffer_id() {
            Some(b) => b,
            None => {
                self.set_message("cut failed: no active buffer");
                proof {
                    reveal_strlit("cut failed: no active buffer");
                }
                return ;
            },
        };
        let bi = match find_idx(&self.buffers, bid.0) {
            Some(i) => i,
            None => {
                self.set_message("cut failed: no active buffer");
                proof {
                    reveal_strlit("cut failed: no active buffer");
                }
                return ;
            },
        };
        let cur = self.buffers[bi].val.cursor;
        let row_idx = (cur.row.saturating_sub(1)) as usize;
        let col_idx = (cur.col.saturating_sub(1)) as usize;
        let ghost t0 = self.buffers@[bi as int].val.text@;
        let mut lines = {
            let b_ref = &self.buffers[bi];
            crate::text::split_lines_owned(b_ref.val.text.as_str())
        };
        if row_idx >= lines.len() {
            self.set_message("cut failed: out of range");
            proof {
                reveal_strlit("cut failed: out of range");
            }
            return ;
        }
        let ghost ls = crate::text::lines_of(t0);
        let char_count = lines[row_idx].as_str().unicode_len();
        if col_idx >= char_count {
            self.set_message("cut failed: no char");
            proof {
                reveal_strlit("cut failed: no char");
            }
            return ;
        }
        let (kept, cut) = AppState::line_remove_range(
            lines[row_idx].as_str(),
            col_idx,
            col_idx + 1,
        );
        proof {
            assert(kept@ == ls[row_idx as int].take(col_idx as int) + ls[row_idx as int].skip(
                col_idx + 1,
            ));
            assert(cut@ =~= seq![ls[row_idx as int][col_idx as int]]);
            assert(lines@.update(row_idx as int, kept).map_values(|l2: String| l2@) =~~= ls.update(
                row_idx as int,
                ls[row_idx as int].take(col_idx as int) + ls[row_idx as int].skip(col_idx + 1),
            ));
        }
        lines.set(row_idx, kept);
        let newtext = crate::text::join_all_lines(&lines);
        self.commit_buffer_edit(bi, newtext, cur);
        self.line_slot = Some(cut);
        self.line_slot_line_wise = false;
        self.align_active_window_scroll_to_cursor();
        self.set_message("char cut");
        proof {
            reveal_strlit("char cut");
        }
    }

    /// Text after deleting the cursor's row whole; the last remaining row
    /// is replaced by an empty one.
    pub open spec fn delete_line_text(t: Seq<char>, row_idx: int) -> Seq<char> {
        let ls = lines_of(t).remove(row_idx);
        if ls.len() == 0 {
            crate::text::join_lines(seq![Seq::<char>::empty()])
        } else {
            crate::text::join_lines(ls)
        }
    }

    /// What deleting the cursor's row leaves behind: the row text moves to
    /// the slot line-wise, the cursor lands at column one of the nearest
    /// remaining row.
    pub open spec fn delete_line_post(pre: AppState, post: AppState) -> bool {
        let cur = pre.s_active_cursor();
        let row_idx = AppState::sat_sub1(cur.row);
        let t = pre.s_active_text();
        let ls = lines_of(t);
        if pre.s_active_buffer() is None {
            AppState::only_message(pre, post) && post.status_bar.message@
                == "line delete failed: no active buffer"@
        } else if row_idx >= ls.len() {
            AppState::only_message(pre, post) && post.status_bar.message@
                == "line delete failed: out of range"@
        } else {
            let newtext = AppState::delete_line_text(t, row_idx);
            let visible = crate::text::rendered_rows(newtext);
            let target = if row_idx > visible - 1 {
                visible - 1
            } else {
                row_idx
            };
            &&& AppState::slot_frame(pre, post)
            &&& AppState::active_buffer_changed(
                pre,
                post,
                newtext,
                CursorState {
                    row: if target + 1 > u16::MAX {
                        u16::MAX
                    } else {
                        (target + 1) as u16
                    },
                    col: 1u16,
                },
            )
            &&& post.line_slot matches Some(s) ==> s@ == ls[row_idx]
            &&& post.line_slot is Some
            &&& post.line_slot_line_wise == true
            &&& post.status_bar.message@ == "line deleted"@
        }
    }

    /// Deletes the cursor's row into the slot, line-wise.
    pub fn delete_current_line_to_slot(&mut self)
        ensures
            AppState::delete_line_post(*old(self), *final(self)),
    {
        let bid = match self.active_buffer_id() {
            Some(b) => b,
            None => {
                self.set_message("line delete failed: no active buffer");
                proof {
                    reveal_strlit("line delete failed: no active buffer");
                }
                return ;
            },
        };
        let bi = match find_idx(&self.buffers, bid.0) {
            Some(i) => i,
            None => {
                self.set_message("line delete failed: no active buffer");
                proof {
                    reveal_strlit("line delete failed: no active buffer");
                }
                return ;
            },
        };
        let cur = self.buffers[bi].val.cursor;
        let row_idx = (cur.row.saturating_sub(1)) as usize;
        let ghost t0 = self.buffers@[bi as int].val.text@;
        let mut lines = {
            let b_ref = &self.buffers[bi];
            crate::text::split_lines_owned(b_ref.val.text.as_str())
        };
        if row_idx >= lines.len() {
            self.set_message("line delete failed: out of range");
            proof {
                reveal_strlit("line delete failed: out of range");
            }
            return ;
        }
        let ghost ls = crate::text::lines_of(t0);
        let deleted = lines.remove(row_idx);
        if lines.len() == 0 {
            let e = String::new();
            proof {
                assert(lines@.push(e).map_values(|l2: String| l2@) =~~= seq![Seq::<char>::empty()]);
            }
            lines.push(e);
        }
        proof {
            if ls.remove(row_idx as int).len() > 0 {
                assert(lines@.map_values(|l2: String| l2@) =~~= ls.remove(row_idx as int));
            }
        }
        let newtext = crate::text::join_all_lines(&lines);
        let visible = crate::text::rendered_line_count(newtext.as_str());
        let target = if row_idx > visible - 1 {
            visible - 1
        } else {
            row_idx
        };
        let new_row: u16 = if target + 1 > u16::MAX as usize {
            u16::MAX
        } else {
            (target + 1) as u16
        };
        self.commit_buffer_edit(bi, newtext, CursorState { row: new_row, col: 1 });
        self.line_slot = Some(deleted);
        self.line_slot_line_wise = true;
        self.align_active_window_scroll_to_cursor();
        self.set_message("line deleted");
        proof {
            reveal_strlit("line deleted");
        }
    }

    /// Text after pasting the slot line-wise below the cursor's row.
    pub open spec fn paste_lines_text(t: Seq<char>, row_idx: int, slot: Seq<char>) -> Seq<char> {
        let ls = AppState::pad_rows(lines_of(t), row_idx + 1);
        crate::text::join_lines(ls.take(row_idx + 1) + lines_of(slot) + ls.skip(row_idx + 1))
    }

    /// Text after pasting the slot character-wise after the cursor.
    pub open spec fn paste_chars_text(t: Seq<char>, row_idx: int, col_idx: int, slot: Seq<
        char,
    >) -> Seq<char> {
        let ls = AppState::pad_rows(lines_of(t), row_idx + 1);
        let l = ls[row_idx];
        let k = AppState::clamp_idx(col_idx + 1, l.len() as int);
        crate::text::join_lines(ls.update(row_idx, AppState::line_ins(l, k, slot)))
    }

    /// What pasting the slot leaves behind. Line-wise the slot's rows are
    /// inserted whole below the cursor's row and the cursor lands below
    /// them; character-wise the slot lands after the cursor and the cursor
    /// skips over it. An empty slot or a missing buffer only reports why.
    pub open spec fn paste_post(pre: AppState, post: AppState) -> bool {
        let cur = pre.s_active_cursor();
        let row_idx = AppState::sat_sub1(cur.row);
        let col_idx = AppState::sat_sub1(cur.col);
        let t = pre.s_active_text();
        if pre.line_slot is None {
            AppState::only_message(pre, post) && post.status_bar.message@
                == "paste failed: slot is empty"@
        } else if pre.s_active_buffer() is None {
            AppState::only_message(pre, post) && post.status_bar.message@
                == "paste failed: no active buffer"@
        } else {
            let slot = pre.line_slot.unwrap()@;
            if pre.line_slot_line_wise {
                let count = lines_of(slot).len() as int;
                let target = row_idx + 1 + count;
                &&& AppState::slot_frame(pre, post)
                &&& post.line_slot == pre.line_slot
                &&& post.line_slot_line_wise == pre.line_slot_line_wise
                &&& AppState::active_buffer_changed(
                    pre,
                    post,
                    AppState::paste_lines_text(t, row_idx, slot),
                    CursorState {
                        row: if target > u16::MAX {
                            u16::MAX
                        } else {
                            target as u16
                        },
                        col: 1u16,
                    },
                )
                &&& post.status_bar.message@ == "pasted"@
            } else {
                let newcol = cur.col + slot.len();
                &&& AppState::slot_frame(pre, post)
                &&& post.line_slot == pre.line_slot
                &&& post.line_slot_line_wise == pre.line_slot_line_wise
                &&& AppState::active_buffer_changed(
                    pre,
                    post,
                    AppState::paste_chars_text(t, row_idx, col_idx, slot),
                    CursorState {
                        row: cur.row,
                        col: if newcol > u16::MAX {
                            u16::MAX
                        } else {
                            newcol as u16
                        },
                    },
                )
                &&& post.status_bar.message@ == "pasted"@
            }
        }
    }

    /// Pastes the slot after the cursor: whole rows when it was cut
    /// line-wise, inline text otherwise.
    #[verifier::rlimit(100)]
    pub fn paste_slot_at_cursor(&mut self)
        ensures
            AppState::paste_post(*old(self), *final(self)),
    {
        let slot_text = match &self.line_slot {
            Some(s) => s.clone(),
            None => {
                self.set_message("paste failed: slot is empty");
                proof {
                    reveal_strlit("paste failed: slot is empty");
                }
                return ;
            },
        };
        let line_wise = self.line_slot_line_wise;
        let bid = match self.active_buffer_id() {
            Some(b) => b,
            None => {
                self.set_message("paste failed: no active buffer");
                proof {
                    reveal_strlit("paste failed: no active buffer");
                }
                return ;
            },
        };
        let bi = match find_idx(&self.buffers, bid.0) {
            Some(i) => i,
            None => {
                self.set_message("paste failed: no active buffer");
                proof {
                    reveal_strlit("paste failed: no active buffer");
                }
                return ;
            },
        };
        let cur = self.buffers[bi].val.cursor;
        let row_idx = (cur.row.saturating_sub(1)) as usize;
        let col_idx = (cur.col.saturating_sub(1)) as usize;
        let ghost t0 = self.buffers@[bi as int].val.text@;
        let mut lines = {
            let b_ref = &self.buffers[bi];
            crate::text::split_lines_owned(b_ref.val.text.as_str())
        };
        AppState::ensure_row_exists(&mut lines, row_idx);
        let ghost ls = AppState::pad_rows(crate::text::lines_of(t0), row_idx + 1);
        if line_wise {
            let at = row_idx + 1;
            let slot_lines = crate::text::split_lines_owned(slot_text.as_str());
            let count = slot_lines.len();
            let ghost inserted = crate::text::lines_of(slot_text@);
            let mut i: usize = 0;
            while i < count
                invariant
                    ls == AppState::pad_rows(crate::text::lines_of(t0), row_idx + 1),
                    inserted == crate::text::lines_of(slot_text@),
                    at == row_idx + 1,
                    row_idx < usize::MAX,
                    count == inserted.len(),
                    slot_lines@.map_values(|l2: String| l2@) == inserted,
                    0 <= i <= count,
                    at + count <= lines@.len() + (count - i),
                    at <= lines@.len(),
                    at + i <= lines@.len(),
                    lines@.map_values(|l2: String| l2@) =~~= ls.take(at as int) + inserted.take(
                        i as int,
                    ) + ls.skip(at as int),
                decreases count - i,
            {
                let l = slot_lines[i].clone();
                let cur_len = lines.len();
                proof {
                    assert(at + i <= cur_len);
                    assert(l@ == inserted[i as int]);
                    let m = lines@.map_values(|l2: String| l2@);
                    assert(lines@.insert(at + i, l).map_values(|l2: String| l2@) =~~= m.insert(
                        at + i,
                        l@,
                    ));
                    assert(m =~~= ls.take(at as int) + inserted.take(i as int) + ls.skip(at as int));
                    assert(ls.len() >= at);
                    assert(ls.take(at as int).len() == at);
                    assert(inserted.take(i as int).len() == i);
                    assert(m.take(at + i) =~~= ls.take(at as int) + inserted.take(i as int));
                    assert(m.skip(at + i) =~~= ls.skip(at as int));
                    assert(m.insert(at + i, l@) =~~= m.take(at + i) + seq![l@] + m.skip(at + i));
                    assert(inserted.take(i + 1) =~~= inserted.take(i as int) + seq![l@]);
                    assert(m.insert(at + i, l@) =~~= ls.take(at as int) + inserted.take(i + 1)
                        + ls.skip(at as int));
                }
                lines.insert(at + i, l);
                i = i + 1;
            }
            proof {
                assert(inserted.take(count as int) =~~= inserted);
            }
            let cur_len2 = lines.len();
            proof {
                assert(at + count <= cur_len2);
            }
            let newtext = crate::text::join_all_lines(&lines);
            let target = at + count;
            let new_row: u16 = if target > u16::MAX as usize {
                u16::MAX
            } else {
                target as u16
            };
            self.commit_buffer_edit(bi, newtext, CursorState { row: new_row, col: 1 });
            self.align_active_window_scroll_to_cursor();
            self.set_message("pasted");
            proof {
                reveal_strlit("pasted");
            }
            return ;
        }
        let l = lines[row_idx].as_str();
        let n = l.unicode_len();
        let k = if col_idx >= n {
            n
        } else {
            col_idx + 1
        };
        let newline_row = AppState::line_insert_str(lines[row_idx].as_str(), k, slot_text.as_str());
        proof {
            assert(k as int == AppState::clamp_idx(col_idx + 1, ls[row_idx as int].len() as int));
            assert(newline_row@ == AppState::line_ins(
                ls[row_idx as int],
                AppState::clamp_idx(col_idx + 1, ls[row_idx as int].len() as int),
                slot_text@,
            ));
            assert(lines@.update(row_idx as int, newline_row).map_values(|l2: String| l2@) =~~= ls
                .update(
                row_idx as int,
                AppState::line_ins(
                    ls[row_idx as int],
                    AppState::clamp_idx(col_idx + 1, ls[row_idx as int].len() as int),
                    slot_text@,
                ),
            ));
        }
        lines.set(row_idx, newline_row);
        let newtext = crate::text::join_all_lines(&lines);
        let slot_count = slot_text.as_str().unicode_len();
        let add: u16 = if slot_count > u16::MAX as usize {
            u16::MAX
        } else {
            slot_count as u16
        };
        let new_col = cur.col.saturating_add(add);
        proof {
            let newcol_s = cur.col + slot_text@.len();
            if newcol_s > u16::MAX {
                assert(new_col == u16::MAX);
            } else {
                assert(new_col == newcol_s);
            }
        }
        self.commit_buffer_edit(bi, newtext, CursorState { row: cur.row, col: new_col });
        self.align_active_window_scroll_to_cursor();
        self.set_message("pasted");
        proof {
            reveal_strlit("pasted");
        }
    }

    /// The normalized visual selection: anchor and cursor ordered by row
    /// then column; in line-wise mode the start snaps to column one and the
    /// end to its row's last navigable column.
    pub open spec fn s_visual_bounds(self) -> Option<(CursorState, CursorState)> {
        match self.visual_anchor {
            None => None,
            Some(anchor) => {
                let cursor = self.s_active_cursor();
                let ordered = anchor.row < cursor.row || (anchor.row == cursor.row && anchor.col
                    <= cursor.col);
                let s = if ordered {
                    anchor
                } else {
                    cursor
                };
                let e = if ordered {
                    cursor
                } else {
                    anchor
                };
                if self.mode == EditorMode::VisualLine {
                    Some(
                        (
                            CursorState { row: s.row, col: 1u16 },
                            CursorState {
                                row: e.row,
                                col: AppState::clamp_col(
                                    self.s_max_navigable_col_for_row(e.row),
                                    u16::MAX as int,
                                ),
                            },
                        ),
                    )
                } else {
                    Some((s, e))
                }
            },
        }
    }

    /// The normalized visual selection bounds, if a selection is anchored.
    pub fn normalized_visual_bounds(&self) -> (r: Option<(CursorState, CursorState)>)
        ensures
            r == self.s_visual_bounds(),
    {
        let anchor = match self.visual_anchor {
            Some(a) => a,
            None => {
                return None;
            },
        };
        let cursor = self.active_cursor();
        let ordered = anchor.row < cursor.row || (anchor.row == cursor.row && anchor.col
            <= cursor.col);
        let s = if ordered {
            anchor
        } else {
            cursor
        };
        let e = if ordered {
            cursor
        } else {
            anchor
        };
        if self.is_visual_line_mode() {
            let mc = self.max_navigable_col_for_row(e.row);
            Some((CursorState { row: s.row, col: 1 }, CursorState { row: e.row, col: mc }))
        } else {
            Some((s, e))
        }
    }

    /// Besides the active buffer, the slot, the message and scrolls, the
    /// selection itself collapsed: back to normal mode with no anchor.
    pub open spec fn visual_op_frame(pre: AppState, post: AppState) -> bool {
        &&& post == (AppState {
            buffers: post.buffers,
            windows: post.windows,
            line_slot: post.line_slot,
            line_slot_line_wise: post.line_slot_line_wise,
            status_bar: post.status_bar,
            mode: EditorMode::Normal,
            visual_anchor: None,
            ..pre
        })
        &&& post.status_bar == (StatusBarState {
            message: post.status_bar.message,
            mode: post.status_bar.mode,
            ..pre.status_bar
        })
        &&& post.status_bar.mode@ == "NORMAL"@
        &&& AppState::windows_scroll_frame(pre, post)
    }

    /// As `visual_op_frame`, with buffers and the slot untouched.
    pub open spec fn visual_abort_frame(pre: AppState, post: AppState) -> bool {
        &&& AppState::visual_op_frame(pre, post)
        &&& post.buffers == pre.buffers
        &&& post.line_slot == pre.line_slot
        &&& post.line_slot_line_wise == pre.line_slot_line_wise
    }

    /// The selected rows, line-wise, as slot text.
    pub open spec fn rows_slice_text(t: Seq<char>, sr: int, er: int) -> Seq<char> {
        crate::text::join_lines(lines_of(t).subrange(sr, er + 1))
    }

    /// Text after deleting rows `sr ..= er`; at least one (empty) row
    /// remains.
    pub open spec fn delete_rows_text(t: Seq<char>, sr: int, er: int) -> Seq<char> {
        let ls = lines_of(t);
        let rest = ls.take(sr) + ls.skip(er + 1);
        if rest.len() == 0 {
            Seq::empty()
        } else {
            crate::text::join_lines(rest)
        }
    }

    /// What a line-wise visual delete leaves behind.
    pub open spec fn visual_line_delete_ok(
        pre: AppState,
        post: AppState,
        sr: int,
        er: int,
    ) -> bool {
        let t = pre.s_active_text();
        let newtext = AppState::delete_rows_text(t, sr, er);
        let visible = crate::text::rendered_rows(newtext);
        let target = if sr > visible - 1 {
            visible - 1
        } else {
            sr
        };
        &&& AppState::visual_op_frame(pre, post)
        &&& AppState::active_buffer_changed(
            pre,
            post,
            newtext,
            CursorState {
                row: if target + 1 > u16::MAX {
                    u16::MAX
                } else {
                    (target + 1) as u16
                },
                col: 1u16,
            },
        )
        &&& post.line_slot matches Some(s) ==> s@ == AppState::rows_slice_text(t, sr, er)
        &&& post.line_slot is Some
        &&& post.line_slot_line_wise == true
        &&& post.status_bar.message@ == "selection deleted"@
    }

    /// What a character-wise visual delete of a single row leaves behind.
    pub open spec fn visual_char_delete_single_ok(
        pre: AppState,
        post: AppState,
        sr: int,
        srow: u16,
        scol: int,
        ecol: int,
    ) -> bool {
        let t = pre.s_active_text();
        let l = lines_of(t)[sr];
        let a = scol - 1;
        let newtext = crate::text::join_lines(
            lines_of(t).update(sr, l.take(a) + l.skip(ecol)),
        );
        let newlen = if l.len() >= ecol - scol + 1 {
            l.len() - (ecol - scol + 1)
        } else {
            0
        };
        let lim: int = if newlen + 1 > u16::MAX {
            u16::MAX as int
        } else {
            newlen + 1 as int
        };
        &&& AppState::visual_op_frame(pre, post)
        &&& AppState::active_buffer_changed(
            pre,
            post,
            newtext,
            CursorState {
                row: srow,
                col: AppState::clamp_col(scol, lim),
            },
        )
        &&& post.line_slot matches Some(s) ==> s@ == l.subrange(a, ecol)
        &&& post.line_slot is Some
        &&& post.line_slot_line_wise == false
        &&& post.status_bar.message@ == "selection deleted"@
    }

    /// What a character-wise visual delete across rows leaves behind: the
    /// kept head of the first row merges with the kept tail of the last.
    pub open spec fn visual_char_delete_multi_ok(
        pre: AppState,
        post: AppState,
        sr: int,
        er: int,
        srow: u16,
        scol: int,
        ecol: int,
    ) -> bool {
        let t = pre.s_active_text();
        let ls = lines_of(t);
        let end_del = AppState::clamp_idx(ecol, ls[er].len() as int);
        let merged = ls[sr].take(scol - 1) + ls[er].skip(end_del);
        let newtext = crate::text::join_lines(ls.take(sr) + seq![merged] + ls.skip(er + 1));
        let deleted = crate::text::join_lines(
            seq![ls[sr].skip(scol - 1)] + ls.subrange(sr + 1, er) + seq![ls[er].take(end_del)],
        );
        let lim: int = if merged.len() + 1 > u16::MAX {
            u16::MAX as int
        } else {
            merged.len() + 1 as int
        };
        &&& AppState::visual_op_frame(pre, post)
        &&& AppState::active_buffer_changed(
            pre,
            post,
            newtext,
            CursorState {
                row: srow,
                col: AppState::clamp_col(scol, lim),
            },
        )
        &&& post.line_slot matches Some(s) ==> s@ == deleted
        &&& post.line_slot is Some
        &&& post.line_slot_line_wise == false
        &&& post.status_bar.message@ == "selection deleted"@
    }

    /// A selection column clamped into its row: at least one, at most the
    /// row length (or one on an empty row).
    pub open spec fn sel_col(col: u16, row_len: int) -> int {
        let lim: int = if row_len < 1 {
            1
        } else {
            row_len
        };
        let base: int = if col < 1 {
            1
        } else {
            col as int
        };
        if base > lim {
            lim
        } else {
            base
        }
    }

    /// What deleting the visual selection leaves behind, by case.
    pub open spec fn visual_delete_post(pre: AppState, post: AppState) -> bool {
        match pre.s_visual_bounds() {
            None => AppState::visual_abort_frame(pre, post) && post.status_bar.message@
                == "visual delete failed: no anchor"@,
            Some(bounds) => {
                let s = bounds.0;
                let e = bounds.1;
                let t = pre.s_active_text();
                let ls = lines_of(t);
                let sr = AppState::sat_sub1(s.row);
                let er = AppState::sat_sub1(e.row);
                if pre.s_active_buffer() is None {
                    AppState::visual_abort_frame(pre, post) && post.status_bar.message@
                        == "visual delete failed: no active buffer"@
                } else if sr >= ls.len() || er >= ls.len() {
                    AppState::visual_abort_frame(pre, post) && post.status_bar.message@
                        == "visual delete failed: out of range"@
                } else if pre.mode == EditorMode::VisualLine {
                    AppState::visual_line_delete_ok(pre, post, sr, er)
                } else if ls[sr].len() == 0 && ls[er].len() == 0 {
                    AppState::visual_abort_frame(pre, post) && post.status_bar.message@
                        == "visual delete failed: empty"@
                } else {
                    let scol = AppState::sel_col(s.col, ls[sr].len() as int);
                    let ecol = AppState::sel_col(e.col, ls[er].len() as int);
                    if sr == er {
                        scol <= ecol ==> AppState::visual_char_delete_single_ok(
                            pre,
                            post,
                            sr,
                            bounds.0.row,
                            scol,
                            ecol,
                        )
                    } else {
                        AppState::visual_char_delete_multi_ok(
                            pre,
                            post,
                            sr,
                            er,
                            bounds.0.row,
                            scol,
                            ecol,
                        )
                    }
                }
            },
        }
    }

    /// Deletes the visual selection into the slot and returns to normal
    /// mode. Line-wise selections take whole rows; character-wise
    /// selections take the exact span, merging the outer rows.
    /// Index `bi` is where the store keeps the active buffer.
    pub open spec fn active_buf_at(self, bi: int) -> bool {
        &&& self.s_active_buffer_id() is Some
        &&& 0 <= bi < self.buffers@.len()
        &&& self.buffers@[bi].key == self.s_active_buffer_id().unwrap().0
        &&& forall|j: int| 0 <= j < bi ==> self.buffers@[j].key != self.buffers@[bi].key
    }

    fn vdel_linewise(&mut self, bi: usize, sr: usize, er: usize)
        requires
            old(self).active_buf_at(bi as int),
            sr <= er < lines_of(old(self).s_active_text()).len(),
        ensures
            AppState::visual_line_delete_ok(*old(self), *final(self), sr as int, er as int),
    {
        proof {
            crate::store::lemma_lookup_at(self.buffers@, bi as int);
        }
        let start_row = sr;
        let end_row = er;
        let ghost t0 = self.buffers@[bi as int].val.text@;
        let lines = {
            let b_ref = &self.buffers[bi];
            crate::text::split_lines_owned(b_ref.val.text.as_str())
        };
        let ghost ls = crate::text::lines_of(t0);
        let mut kept: Vec<String> = Vec::new();
        let mut taken: Vec<String> = Vec::new();
        let n = lines.len();
        let mut j: usize = 0;
        while j < n
            invariant
                ls == crate::text::lines_of(t0),
                n == lines@.len(),
                lines@.map_values(|l2: String| l2@) == ls,
                start_row <= end_row < n,
                0 <= j <= n,
                kept@.map_values(|l2: String| l2@) =~~= ls.take(
                    if j > start_row {
                        start_row as int
                    } else {
                        j as int
                    },
                ) + (if j > end_row + 1 {
                    ls.subrange(end_row + 1, j as int)
                } else {
                    Seq::<Seq<char>>::empty()
                }),
                taken@.map_values(|l2: String| l2@) =~~= ls.subrange(
                    start_row as int,
                    if j > end_row + 1 {
                        end_row + 1
                    } else if j < start_row {
                        start_row as int
                    } else {
                        j as int
                    },
                ),
            decreases n - j,
        {
            let l = lines[j].clone();
            proof {
                assert(l@ == ls[j as int]);
                assert(kept@.push(l).map_values(|l2: String| l2@) =~~= kept@.map_values(
                    |l2: String| l2@,
                ).push(l@));
                assert(taken@.push(l).map_values(|l2: String| l2@) =~~= taken@.map_values(
                    |l2: String| l2@,
                ).push(l@));
            }
            if j >= start_row && j <= end_row {
                taken.push(l);
            } else {
                kept.push(l);
            }
            j = j + 1;
        }
        proof {
            assert(kept@.map_values(|l2: String| l2@) =~~= ls.take(start_row as int) + ls.skip(
                end_row + 1,
            ));
            assert(taken@.map_values(|l2: String| l2@) =~~= ls.subrange(
                start_row as int,
                end_row + 1,
            ));
        }
        let deleted = crate::text::join_all_lines(&taken);
        if kept.len() == 0 {
            let e = String::new();
            proof {
                assert(kept@.push(e).map_values(|l2: String| l2@) =~~= seq![Seq::<char>::empty()]);
            }
            kept.push(e);
        }
        let newtext = crate::text::join_all_lines(&kept);
        proof {
            if (ls.take(start_row as int) + ls.skip(end_row + 1)).len() == 0 {
                assert(newtext@ =~= AppState::delete_rows_text(t0, start_row as int, end_row as int));
            } else {
                assert(newtext@ == AppState::delete_rows_text(t0, start_row as int, end_row as int));
            }
        }
        let visible = crate::text::rendered_line_count(newtext.as_str());
        let target = if start_row > visible - 1 {
            visible - 1
        } else {
            start_row
        };
        let new_row: u16 = if target + 1 > u16::MAX as usize {
            u16::MAX
        } else {
            (target + 1) as u16
        };
        self.commit_buffer_edit(bi, newtext, CursorState { row: new_row, col: 1 });
        self.line_slot = Some(deleted);
        self.line_slot_line_wise = true;
        self.align_active_window_scroll_to_cursor();
        self.exit_visual_mode();
        self.set_message("selection deleted");
        proof {
            reveal_strlit("selection deleted");
        }
    }

    fn vdel_char_single(&mut self, bi: usize, sr: usize, srow: u16, scol: usize, ecol: usize)
        requires
            old(self).active_buf_at(bi as int),
            sr < lines_of(old(self).s_active_text()).len(),
            1 <= scol <= ecol <= lines_of(old(self).s_active_text())[sr as int].len(),
        ensures
            AppState::visual_char_delete_single_ok(
                *old(self),
                *final(self),
                sr as int,
                srow,
                scol as int,
                ecol as int,
            ),
    {
        proof {
            crate::store::lemma_lookup_at(self.buffers@, bi as int);
        }
        let ghost t0 = self.buffers@[bi as int].val.text@;
        let mut lines = {
            let b_ref = &self.buffers[bi];
            crate::text::split_lines_owned(b_ref.val.text.as_str())
        };
        let ghost ls = crate::text::lines_of(t0);
        let start_line_n = lines[sr].as_str().unicode_len();
        let (kept_line, cut) = AppState::line_remove_range(lines[sr].as_str(), scol - 1, ecol);
        proof {
            assert(lines@.update(sr as int, kept_line).map_values(|l2: String| l2@) =~~= ls.update(
                sr as int,
                kept_line@,
            ));
            assert(kept_line@ == ls[sr as int].take(scol - 1) + ls[sr as int].skip(ecol as int));
        }
        lines.set(sr, kept_line);
        let newtext = crate::text::join_all_lines(&lines);
        let removed = ecol.saturating_sub(scol).saturating_add(1);
        let new_len = start_line_n.saturating_sub(removed);
        let col_lim: u16 = if new_len >= u16::MAX as usize {
            u16::MAX
        } else {
            (new_len + 1) as u16
        };
        let new_col: u16 = {
            let sc: u16 = if scol > u16::MAX as usize {
                u16::MAX
            } else {
                scol as u16
            };
            if sc > col_lim {
                col_lim
            } else {
                sc
            }
        };
        self.commit_buffer_edit(bi, newtext, CursorState { row: srow, col: new_col });
        self.line_slot = Some(cut);
        self.line_slot_line_wise = false;
        self.align_active_window_scroll_to_cursor();
        self.exit_visual_mode();
        self.set_message("selection deleted");
        proof {
            reveal_strlit("selection deleted");
        }
    }

    fn vdel_char_multi(&mut self, bi: usize, sr: usize, er: usize, srow: u16, scol: usize, ecol: usize)
        requires
            old(self).active_buf_at(bi as int),
            sr < er < lines_of(old(self).s_active_text()).len(),
            1 <= scol,
            scol - 1 <= lines_of(old(self).s_active_text())[sr as int].len(),
            1 <= ecol,
        ensures
            AppState::visual_char_delete_multi_ok(
                *old(self),
                *final(self),
                sr as int,
                er as int,
                srow,
                scol as int,
                ecol as int,
            ),
    {
        proof {
            crate::store::lemma_lookup_at(self.buffers@, bi as int);
        }
        let start_row = sr;
        let end_row = er;
        let ghost t0 = self.buffers@[bi as int].val.text@;
        let mut lines = {
            let b_ref = &self.buffers[bi];
            crate::text::split_lines_owned(b_ref.val.text.as_str())
        };
        let ghost ls = crate::text::lines_of(t0);
        let start_line = lines[start_row].clone();
        let end_line = lines[end_row].clone();
        let start_line_n = start_line.as_str().unicode_len();
        let end_line_n = end_line.as_str().unicode_len();
        let start_keep = scol - 1;
        let end_del = if ecol > end_line_n {
            end_line_n
        } else {
            ecol
        };
        let mut merged = String::from_str(start_line.as_str().substring_char(0, start_keep));
        merged.append(end_line.as_str().substring_char(end_del, end_line_n));
        let merged_n = merged.as_str().unicode_len();
        proof {
            assert(end_del as int == AppState::clamp_idx(ecol as int, ls[er as int].len() as int));
            assert(merged@ =~= ls[sr as int].take(scol - 1) + ls[er as int].skip(end_del as int));
        }
        let mut parts: Vec<String> = Vec::new();
        parts.push(String::from_str(start_line.as_str().substring_char(start_keep, start_line_n)));
        proof {
            assert(parts@.map_values(|l2: String| l2@) =~~= seq![
                ls[sr as int].skip(start_keep as int),
            ]);
        }
        let mut j = start_row + 1;
        while j < end_row
            invariant
                ls == crate::text::lines_of(t0),
                lines@.map_values(|l2: String| l2@) == ls,
                start_row < end_row < lines@.len(),
                start_keep == scol - 1,
                start_row + 1 <= j <= end_row,
                parts@.map_values(|l2: String| l2@) =~~= seq![
                    ls[start_row as int].skip(start_keep as int),
                ] + ls.subrange(start_row + 1, j as int),
            decreases end_row - j,
        {
            let l = lines[j].clone();
            proof {
                assert(l@ == ls[j as int]);
                assert(parts@.push(l).map_values(|l2: String| l2@) =~~= parts@.map_values(
                    |l2: String| l2@,
                ).push(l@));
            }
            parts.push(l);
            j = j + 1;
        }
        let tail_part = String::from_str(end_line.as_str().substring_char(0, end_del));
        proof {
            assert(tail_part@ =~= ls[er as int].take(end_del as int));
            assert(parts@.push(tail_part).map_values(|l2: String| l2@) =~~= (seq![
                ls[sr as int].skip(start_keep as int),
            ] + ls.subrange(sr + 1, er as int)).push(ls[er as int].take(end_del as int)));
            assert((seq![ls[sr as int].skip(start_keep as int)] + ls.subrange(sr + 1, er as int))
                .push(ls[er as int].take(end_del as int)) =~~= seq![
                ls[sr as int].skip(start_keep as int),
            ] + ls.subrange(sr + 1, er as int) + seq![ls[er as int].take(end_del as int)]);
        }
        parts.push(tail_part);
        let deleted = crate::text::join_all_lines(&parts);
        proof {
            assert(lines@.update(start_row as int, merged).map_values(|l2: String| l2@) =~~= ls
                .update(start_row as int, merged@));
        }
        lines.set(start_row, merged);
        let ghost merged_g = ls[sr as int].take(scol - 1) + ls[er as int].skip(end_del as int);
        let mut removed_rows: usize = 0;
        let to_remove = end_row - start_row;
        while removed_rows < to_remove
            invariant
                ls == crate::text::lines_of(t0),
                to_remove == end_row - start_row,
                start_row < end_row < ls.len(),
                0 <= removed_rows <= to_remove,
                lines@.len() == ls.len() - removed_rows,
                lines@.map_values(|l2: String| l2@) =~~= ls.take(start_row as int) + seq![
                    merged_g,
                ] + ls.skip(start_row + 1 + removed_rows),
            decreases to_remove - removed_rows,
        {
            proof {
                let m = lines@.map_values(|l2: String| l2@);
                assert(lines@.remove(start_row + 1).map_values(|l2: String| l2@) =~~= m.remove(
                    start_row + 1,
                ));
                assert(m.remove(start_row + 1) =~~= ls.take(start_row as int) + seq![merged_g]
                    + ls.skip(start_row + 1 + removed_rows + 1));
            }
            let _r = lines.remove(start_row + 1);
            removed_rows = removed_rows + 1;
        }
        proof {
            assert(ls.skip(start_row + 1 + to_remove) =~~= ls.skip(end_row + 1));
            assert(lines@.map_values(|l2: String| l2@) =~~= ls.take(start_row as int) + seq![
                merged_g,
            ] + ls.skip(end_row + 1));
        }
        let newtext = crate::text::join_all_lines(&lines);
        let col_lim: u16 = if merged_n >= u16::MAX as usize {
            u16::MAX
        } else {
            (merged_n + 1) as u16
        };
        let new_col: u16 = {
            let sc: u16 = if scol > u16::MAX as usize {
                u16::MAX
            } else {
                scol as u16
            };
            if sc > col_lim {
                col_lim
            } else {
                sc
            }
        };
        self.commit_buffer_edit(bi, newtext, CursorState { row: srow, col: new_col });
        self.line_slot = Some(deleted);
        self.line_slot_line_wise = false;
        self.align_active_window_scroll_to_cursor();
        self.exit_visual_mode();
        self.set_message("selection deleted");
        proof {
            reveal_strlit("selection deleted");
        }
    }

    /// Deletes the visual selection into the slot and returns to normal
    /// mode. Line-wise selections take whole rows; character-wise
    /// selections take the exact span, merging the outer rows.
    #[verifier::rlimit(100)]
    pub fn delete_visual_selection_to_slot(&mut self)
        ensures
            AppState::visual_delete_post(*old(self), *final(self)),
    {
        let bounds = self.normalized_visual_bounds();
        let (start, end) = match bounds {
            Some(p) => p,
            None => {
                self.set_message("visual delete failed: no anchor");
                proof {
                    reveal_strlit("visual delete failed: no anchor");
                }
                self.exit_visual_mode();
                return ;
            },
        };
        let line_wise = self.is_visual_line_mode();
        let bid_opt = self.active_buffer_id();
        let bi_opt = match bid_opt {
            Some(b) => find_idx(&self.buffers, b.0),
            None => None,
        };
        let bi = match bi_opt {
            Some(i) => i,
            None => {
                self.set_message("visual delete failed: no active buffer");
                proof {
                    reveal_strlit("visual delete failed: no active buffer");
                }
                self.exit_visual_mode();
                return ;
            },
        };
        proof {
            crate::store::lemma_lookup_at(self.buffers@, bi as int);
        }
        let start_row = (start.row.saturating_sub(1)) as usize;
        let end_row = (end.row.saturating_sub(1)) as usize;
        let row_count = {
            let b_ref = &self.buffers[bi];
            crate::text::rendered_line_count(b_ref.val.text.as_str());
            crate::text::split_lines_owned(b_ref.val.text.as_str()).len()
        };
        if start_row >= row_count || end_row >= row_count {
            self.set_message("visual delete failed: out of range");
            proof {
                reveal_strlit("visual delete failed: out of range");
            }
            self.exit_visual_mode();
            return ;
        }
        if line_wise {
            proof {
                assert(start_row <= end_row);
            }
            self.vdel_linewise(bi, start_row, end_row);
            return ;
        }
        let (start_line_n, end_line_n) = {
            let b_ref = &self.buffers[bi];
            let lines = crate::text::split_lines_owned(b_ref.val.text.as_str());
            (lines[start_row].as_str().unicode_len(), lines[end_row].as_str().unicode_len())
        };
        if start_line_n == 0 && end_line_n == 0 {
            self.set_message("visual delete failed: empty");
            proof {
                reveal_strlit("visual delete failed: empty");
            }
            self.exit_visual_mode();
            return ;
        }
        let start_col_us: usize = {
            let base = if start.col < 1 {
                1
            } else {
                start.col
            } as usize;
            let lim = if start_line_n < 1 {
                1
            } else {
                start_line_n
            };
            if base > lim {
                lim
            } else {
                base
            }
        };
        let end_col_us: usize = {
            let base = if end.col < 1 {
                1
            } else {
                end.col
            } as usize;
            let lim = if end_line_n < 1 {
                1
            } else {
                end_line_n
            };
            if base > lim {
                lim
            } else {
                base
            }
        };
        if start_row == end_row {
            proof {
                assert(end_col_us <= lines_of(old(self).s_active_text())[start_row as int].len());
            }
            if start_col_us <= end_col_us {
                self.vdel_char_single(bi, start_row, start.row, start_col_us, end_col_us);
            } else {
                self.vdel_char_single(bi, start_row, start.row, end_col_us, start_col_us);
            }
            return ;
        }
        self.vdel_char_multi(bi, start_row, end_row, start.row, start_col_us, end_col_us);
    }

    /// The character-wise selection content, rows joined by line breaks.
    pub open spec fn char_selection_text(
        t: Seq<char>,
        sr: int,
        er: int,
        scol: int,
        ecol: int,
    ) -> Seq<char> {
        let ls = lines_of(t);
        if sr == er {
            ls[sr].subrange(scol - 1, AppState::clamp_idx(ecol, ls[sr].len() as int))
        } else {
            let end_del = AppState::clamp_idx(ecol, ls[er].len() as int);
            crate::text::join_lines(
                seq![ls[sr].skip(scol - 1)] + ls.subrange(sr + 1, er) + seq![
                    ls[er].take(end_del),
                ],
            )
        }
    }

    /// What yanking the visual selection leaves behind: the selection moves
    /// into the slot, the text stands untouched, and the mode returns to
    /// normal.
    pub open spec fn visual_yank_post(pre: AppState, post: AppState) -> bool {
        match pre.s_visual_bounds() {
            None => AppState::visual_abort_frame(pre, post) && post.status_bar.message@
                == "visual yank failed: no anchor"@,
            Some(bounds) => {
                let s = bounds.0;
                let e = bounds.1;
                let t = pre.s_active_text();
                let ls = lines_of(t);
                let sr = AppState::sat_sub1(s.row);
                let er = AppState::sat_sub1(e.row);
                if pre.s_active_buffer() is None {
                    AppState::visual_abort_frame(pre, post) && post.status_bar.message@
                        == "visual yank failed: no active buffer"@
                } else if sr >= ls.len() || er >= ls.len() {
                    AppState::visual_abort_frame(pre, post) && post.status_bar.message@
                        == "visual yank failed: out of range"@
                } else {
                    let scol = AppState::sel_col(s.col, ls[sr].len() as int);
                    let ecol = AppState::sel_col(e.col, ls[er].len() as int);
                    &&& AppState::visual_op_frame(pre, post)
                    &&& post.buffers == pre.buffers
                    &&& post.status_bar.message@ == "selection yanked"@
                    &&& post.line_slot is Some
                    &&& (pre.mode == EditorMode::VisualLine ==> post.line_slot.unwrap()@
                        == AppState::rows_slice_text(t, sr, er) && post.line_slot_line_wise
                        == true)
                    &&& (pre.mode != EditorMode::VisualLine && (sr != er || scol <= ecol)
                        ==> post.line_slot.unwrap()@ == AppState::char_selection_text(
                        t,
                        sr,
                        er,
                        scol,
                        ecol,
                    ) && post.line_slot_line_wise == false)
                }
            },
        }
    }

    /// Yanks the visual selection into the slot without touching the text.
    #[verifier::rlimit(100)]
    pub fn yank_visual_selection_to_slot(&mut self)
        ensures
            AppState::visual_yank_post(*old(self), *final(self)),
    {
        let bounds = self.normalized_visual_bounds();
        let (start, end) = match bounds {
            Some(p) => p,
            None => {
                self.set_message("visual yank failed: no anchor");
                proof {
                    reveal_strlit("visual yank failed: no anchor");
                }
                self.exit_visual_mode();
                return ;
            },
        };
        let line_wise = self.is_visual_line_mode();
        let bid_opt = self.active_buffer_id();
        let bi_opt = match bid_opt {
            Some(b) => find_idx(&self.buffers, b.0),
            None => None,
        };
        let bi = match bi_opt {
            Some(i) => i,
            None => {
                self.set_message("visual yank failed: no active buffer");
                proof {
                    reveal_strlit("visual yank failed: no active buffer");
                }
                self.exit_visual_mode();
                return ;
            },
        };
        proof {
            crate::store::lemma_lookup_at(self.buffers@, bi as int);
        }
        let ghost t0 = self.buffers@[bi as int].val.text@;
        let lines = {
            let b_ref = &self.buffers[bi];
            crate::text::split_lines_owned(b_ref.val.text.as_str())
        };
        let ghost ls = crate::text::lines_of(t0);
        let start_row = (start.row.saturating_sub(1)) as usize;
        let end_row = (end.row.saturating_sub(1)) as usize;
        if start_row >= lines.len() || end_row >= lines.len() {
            self.set_message("visual yank failed: out of range");
            proof {
                reveal_strlit("visual yank failed: out of range");
            }
            self.exit_visual_mode();
            return ;
        }
        if line_wise {
            proof {
                assert(start_row <= end_row);
            }
            let mut taken: Vec<String> = Vec::new();
            let mut j: usize = start_row;
            while j <= end_row
                invariant
                    ls == crate::text::lines_of(t0),
                    lines@.map_values(|l2: String| l2@) == ls,
                    start_row <= end_row < lines@.len(),
                    end_row <= u16::MAX,
                    start_row <= j <= end_row + 1,
                    taken@.map_values(|l2: String| l2@) =~~= ls.subrange(
                        start_row as int,
                        j as int,
                    ),
                decreases end_row + 1 - j,
            {
                let l = lines[j].clone();
                proof {
                    assert(l@ == ls[j as int]);
                    assert(taken@.push(l).map_values(|l2: String| l2@) =~~= taken@.map_values(
                        |l2: String| l2@,
                    ).push(l@));
                }
                taken.push(l);
                j = j + 1;
            }
            let yanked = crate::text::join_all_lines(&taken);
            self.line_slot = Some(yanked);
            self.line_slot_line_wise = true;
            self.exit_visual_mode();
            self.set_message("selection yanked");
            proof {
                reveal_strlit("selection yanked");
            }
            return ;
        }
        let start_line_n = lines[start_row].as_str().unicode_len();
        let end_line_n = lines[end_row].as_str().unicode_len();
        let start_col_us: usize = {
            let base = if start.col < 1 {
                1
            } else {
                start.col
            } as usize;
            let lim = if start_line_n < 1 {
                1
            } else {
                start_line_n
            };
            if base > lim {
                lim
            } else {
                base
            }
        };
        let end_col_us: usize = {
            let base = if end.col < 1 {
                1
            } else {
                end.col
            } as usize;
            let lim = if end_line_n < 1 {
                1
            } else {
                end_line_n
            };
            if base > lim {
                lim
            } else {
                base
            }
        };
        if start_row == end_row {
            if start_col_us > end_col_us {
                self.line_slot = Some(String::new());
                self.line_slot_line_wise = false;
                self.exit_visual_mode();
                self.set_message("selection yanked");
                proof {
                    reveal_strlit("selection yanked");
                }
                return ;
            }
            let (_kept, cut) = AppState::line_remove_range(
                lines[start_row].as_str(),
                start_col_us - 1,
                end_col_us,
            );
            self.line_slot = Some(cut);
            self.line_slot_line_wise = false;
            self.exit_visual_mode();
            self.set_message("selection yanked");
            proof {
                reveal_strlit("selection yanked");
            }
            return ;
        }
        let end_del = if end_col_us > end_line_n {
            end_line_n
        } else {
            end_col_us
        };
        let mut parts: Vec<String> = Vec::new();
        parts.push(
            String::from_str(
                lines[start_row].as_str().substring_char(start_col_us - 1, start_line_n),
            ),
        );
        proof {
            assert(parts@.map_values(|l2: String| l2@) =~~= seq![
                ls[start_row as int].skip(start_col_us - 1),
            ]);
        }
        let mut j = start_row + 1;
        while j < end_row
            invariant
                ls == crate::text::lines_of(t0),
                lines@.map_values(|l2: String| l2@) == ls,
                start_row < end_row < lines@.len(),
                start_row + 1 <= j <= end_row,
                start_col_us >= 1,
                parts@.map_values(|l2: String| l2@) =~~= seq![
                    ls[start_row as int].skip(start_col_us - 1),
                ] + ls.subrange(start_row + 1, j as int),
            decreases end_row - j,
        {
            let l = lines[j].clone();
            proof {
                assert(l@ == ls[j as int]);
                assert(parts@.push(l).map_values(|l2: String| l2@) =~~= parts@.map_values(
                    |l2: String| l2@,
                ).push(l@));
            }
            parts.push(l);
            j = j + 1;
        }
        let tail_part = String::from_str(lines[end_row].as_str().substring_char(0, end_del));
        proof {
            assert(tail_part@ =~= ls[end_row as int].take(end_del as int));
            assert(parts@.push(tail_part).map_values(|l2: String| l2@) =~~= seq![
                ls[start_row as int].skip(start_col_us - 1),
            ] + ls.subrange(start_row + 1, end_row as int) + seq![
                ls[end_row as int].take(end_del as int),
            ]);
        }
        parts.push(tail_part);
        let yanked = crate::text::join_all_lines(&parts);
        self.line_slot = Some(yanked);
        self.line_slot_line_wise = false;
        self.exit_visual_mode();
        self.set_message("selection yanked");
        proof {
            reveal_strlit("selection yanked");
        }
    }

    /// The replacement rows for a character-wise visual paste: the slot's
    /// rows spliced between the kept head of the first selected row and the
    /// kept tail of the last.
    pub open spec fn char_replace_rows(
        t: Seq<char>,
        sr: int,
        er: int,
        scol: int,
        ecol: int,
        slot: Seq<char>,
    ) -> Seq<Seq<char>> {
        let ls = lines_of(t);
        let end_del = AppState::clamp_idx(ecol, ls[er].len() as int);
        let prefix = ls[sr].take(scol - 1);
        let suffix = ls[er].skip(end_del);
        let sl = lines_of(slot);
        if sl.len() == 1 {
            seq![prefix + sl[0] + suffix]
        } else {
            seq![prefix + sl[0]] + sl.subrange(1, sl.len() - 1) + seq![sl.last() + suffix]
        }
    }

    /// What replacing the visual selection with the slot leaves behind.
    pub open spec fn visual_replace_post(pre: AppState, post: AppState) -> bool {
        if pre.line_slot is None {
            AppState::visual_abort_frame(pre, post) && post.status_bar.message@
                == "paste failed: slot is empty"@
        } else {
            match pre.s_visual_bounds() {
                None => AppState::visual_abort_frame(pre, post) && post.status_bar.message@
                    == "visual paste failed: no anchor"@,
                Some(bounds) => {
                    let s = bounds.0;
                    let e = bounds.1;
                    let t = pre.s_active_text();
                    let ls = lines_of(t);
                    let sr = AppState::sat_sub1(s.row);
                    let er = AppState::sat_sub1(e.row);
                    let slot = pre.line_slot.unwrap()@;
                    if pre.s_active_buffer() is None {
                        AppState::visual_abort_frame(pre, post) && post.status_bar.message@
                            == "visual paste failed: no active buffer"@
                    } else if sr >= ls.len() || er >= ls.len() {
                        AppState::visual_abort_frame(pre, post) && post.status_bar.message@
                            == "visual paste failed: out of range"@
                    } else if pre.mode == EditorMode::VisualLine {
                        &&& AppState::visual_op_frame(pre, post)
                        &&& post.line_slot == pre.line_slot
                        &&& post.line_slot_line_wise == pre.line_slot_line_wise
                        &&& AppState::active_buffer_changed(
                            pre,
                            post,
                            crate::text::join_lines(
                                ls.take(sr) + lines_of(slot) + ls.skip(er + 1),
                            ),
                            CursorState {
                                row: if sr + 1 > u16::MAX {
                                    u16::MAX
                                } else {
                                    (sr + 1) as u16
                                },
                                col: 1u16,
                            },
                        )
                        &&& post.status_bar.message@ == "selection replaced"@
                    } else {
                        let scol = AppState::sel_col(s.col, ls[sr].len() as int);
                        let ecol = AppState::sel_col(e.col, ls[er].len() as int);
                        sr != er || scol <= ecol ==> {
                            &&& AppState::visual_op_frame(pre, post)
                            &&& post.line_slot == pre.line_slot
                            &&& post.line_slot_line_wise == pre.line_slot_line_wise
                            &&& AppState::active_buffer_changed(
                                pre,
                                post,
                                crate::text::join_lines(
                                    ls.take(sr) + AppState::char_replace_rows(
                                        t,
                                        sr,
                                        er,
                                        scol,
                                        ecol,
                                        slot,
                                    ) + ls.skip(er + 1),
                                ),
                                CursorState {
                                    row: if sr + 1 > u16::MAX {
                                        u16::MAX
                                    } else {
                                        (sr + 1) as u16
                                    },
                                    col: AppState::clamp_col(scol, u16::MAX as int),
                                },
                            )
                            &&& post.status_bar.message@ == "selection replaced"@
                        }
                    }
                },
            }
        }
    }

    /// Copies rows `from .. to` of `src_rows` onto the end of `out`.
    fn push_row_range(out: &mut Vec<String>, src_rows: &Vec<String>, from: usize, to: usize)
        requires
            from <= to <= old(out)@.len() + src_rows@.len(),
            to <= src_rows@.len(),
        ensures
            final(out)@.map_values(|l2: String| l2@) == old(out)@.map_values(|l2: String| l2@)
                + src_rows@.map_values(|l2: String| l2@).subrange(from as int, to as int),
    {
        let ghost base = out@.map_values(|l2: String| l2@);
        let ghost srows = src_rows@.map_values(|l2: String| l2@);
        let mut j = from;
        proof {
            assert(base + srows.subrange(from as int, from as int) =~~= base);
        }
        while j < to
            invariant
                base == old(out)@.map_values(|l2: String| l2@),
                srows == src_rows@.map_values(|l2: String| l2@),
                from <= j <= to <= src_rows@.len(),
                out@.map_values(|l2: String| l2@) =~~= base + srows.subrange(
                    from as int,
                    j as int,
                ),
            decreases to - j,
        {
            let l = src_rows[j].clone();
            proof {
                assert(l@ == srows[j as int]);
                assert(out@.push(l).map_values(|l2: String| l2@) =~~= out@.map_values(
                    |l2: String| l2@,
                ).push(l@));
                assert(out@.map_values(|l2: String| l2@).push(l@) =~~= base + srows.subrange(
                    from as int,
                    j + 1,
                ));
            }
            out.push(l);
            j = j + 1;
        }
    }

    fn vrep_linewise(&mut self, bi: usize, sr: usize, er: usize, slot_text: &String)
        requires
            old(self).active_buf_at(bi as int),
            er < usize::MAX,
            sr <= er < lines_of(old(self).s_active_text()).len(),
        ensures
            *final(self) == (AppState {
                buffers: final(self).buffers,
                windows: final(self).windows,
                status_bar: final(self).status_bar,
                mode: EditorMode::Normal,
                visual_anchor: None,
                ..*old(self)
            }),
            final(self).status_bar == (StatusBarState {
                message: final(self).status_bar.message,
                mode: final(self).status_bar.mode,
                ..old(self).status_bar
            }),
            final(self).status_bar.mode@ == "NORMAL"@,
            final(self).status_bar.message@ == "selection replaced"@,
            AppState::windows_scroll_frame(*old(self), *final(self)),
            AppState::active_buffer_changed(
                *old(self),
                *final(self),
                crate::text::join_lines(
                    lines_of(old(self).s_active_text()).take(sr as int) + lines_of(slot_text@)
                        + lines_of(old(self).s_active_text()).skip(er + 1),
                ),
                CursorState {
                    row: if sr + 1 > u16::MAX {
                        u16::MAX
                    } else {
                        (sr + 1) as u16
                    },
                    col: 1u16,
                },
            ),
    {
        proof {
            crate::store::lemma_lookup_at(self.buffers@, bi as int);
        }
        let start_row = sr;
        let end_row = er;
        let ghost t0 = self.buffers@[bi as int].val.text@;
        let lines = {
            let b_ref = &self.buffers[bi];
            crate::text::split_lines_owned(b_ref.val.text.as_str())
        };
        let ghost ls = crate::text::lines_of(t0);
        let slot_lines = crate::text::split_lines_owned(slot_text.as_str());
        let ghost sl = crate::text::lines_of(slot_text@);
        let mut out: Vec<String> = Vec::new();
        AppState::push_row_range(&mut out, &lines, 0, start_row);
        AppState::push_row_range(&mut out, &slot_lines, 0, slot_lines.len());
        AppState::push_row_range(&mut out, &lines, end_row + 1, lines.len());
        proof {
            assert(out@.map_values(|l2: String| l2@) =~~= ls.take(start_row as int) + sl + ls.skip(
                end_row + 1,
            ));
        }
        let newtext = crate::text::join_all_lines(&out);
        let new_row: u16 = if start_row + 1 > u16::MAX as usize {
            u16::MAX
        } else {
            (start_row + 1) as u16
        };
        self.commit_buffer_edit(bi, newtext, CursorState { row: new_row, col: 1 });
        self.align_active_window_scroll_to_cursor();
        self.exit_visual_mode();
        self.set_message("selection replaced");
        proof {
            reveal_strlit("selection replaced");
        }
    }

    #[verifier::rlimit(100)]
    fn vrep_charwise(&mut self, bi: usize, sr: usize, er: usize, scol: usize, ecol: usize, slot_text: &String)
        requires
            old(self).active_buf_at(bi as int),
            er < usize::MAX,
            sr <= er < lines_of(old(self).s_active_text()).len(),
            1 <= scol,
            scol - 1 <= lines_of(old(self).s_active_text())[sr as int].len(),
            1 <= ecol,
        ensures
            *final(self) == (AppState {
                buffers: final(self).buffers,
                windows: final(self).windows,
                status_bar: final(self).status_bar,
                mode: EditorMode::Normal,
                visual_anchor: None,
                ..*old(self)
            }),
            final(self).status_bar == (StatusBarState {
                message: final(self).status_bar.message,
                mode: final(self).status_bar.mode,
                ..old(self).status_bar
            }),
            final(self).status_bar.mode@ == "NORMAL"@,
            final(self).status_bar.message@ == "selection replaced"@,
            AppState::windows_scroll_frame(*old(self), *final(self)),
            AppState::active_buffer_changed(
                *old(self),
                *final(self),
                crate::text::join_lines(
                    lines_of(old(self).s_active_text()).take(sr as int)
                        + AppState::char_replace_rows(
                        old(self).s_active_text(),
                        sr as int,
                        er as int,
                        scol as int,
                        ecol as int,
                        slot_text@,
                    ) + lines_of(old(self).s_active_text()).skip(er + 1),
                ),
                CursorState {
                    row: if sr + 1 > u16::MAX {
                        u16::MAX
                    } else {
                        (sr + 1) as u16
                    },
                    col: AppState::clamp_col(scol as int, u16::MAX as int),
                },
            ),
    {
        proof {
            crate::store::lemma_lookup_at(self.buffers@, bi as int);
        }
        let start_row = sr;
        let end_row = er;
        let start_col_us = scol;
        let end_col_us = ecol;
        let ghost t0 = self.buffers@[bi as int].val.text@;
        let lines = {
            let b_ref = &self.buffers[bi];
            crate::text::split_lines_owned(b_ref.val.text.as_str())
        };
        let ghost ls = crate::text::lines_of(t0);
        let slot_lines = crate::text::split_lines_owned(slot_text.as_str());
        let ghost sl = crate::text::lines_of(slot_text@);
        let end_line_n = lines[end_row].as_str().unicode_len();
        let start_line_n = lines[start_row].as_str().unicode_len();
        let end_del = if end_col_us > end_line_n {
            end_line_n
        } else {
            end_col_us
        };
        let prefix = String::from_str(
            lines[start_row].as_str().substring_char(0, start_col_us - 1),
        );
        let suffix = String::from_str(
            lines[end_row].as_str().substring_char(end_del, end_line_n),
        );
        let mut out: Vec<String> = Vec::new();
        AppState::push_row_range(&mut out, &lines, 0, start_row);
        let sn = slot_lines.len();
        if sn == 1 {
            let mut row = prefix;
            row.append(slot_lines[0].as_str());
            row.append(suffix.as_str());
            proof {
                assert(row@ == ls[start_row as int].take(start_col_us - 1) + sl[0] + ls[
                    end_row as int
                ].skip(end_del as int));
                assert(out@.push(row).map_values(|l2: String| l2@) =~~= out@.map_values(
                    |l2: String| l2@,
                ).push(row@));
            }
            out.push(row);
        } else {
            let mut first = prefix;
            first.append(slot_lines[0].as_str());
            proof {
                assert(out@.push(first).map_values(|l2: String| l2@) =~~= out@.map_values(
                    |l2: String| l2@,
                ).push(first@));
            }
            out.push(first);
            AppState::push_row_range(&mut out, &slot_lines, 1, sn - 1);
            let mut last = slot_lines[sn - 1].clone();
            last.append(suffix.as_str());
            proof {
                assert(last@ == sl.last() + ls[end_row as int].skip(end_del as int));
                assert(out@.push(last).map_values(|l2: String| l2@) =~~= out@.map_values(
                    |l2: String| l2@,
                ).push(last@));
            }
            out.push(last);
        }
        AppState::push_row_range(&mut out, &lines, end_row + 1, lines.len());
        proof {
            assert(out@.map_values(|l2: String| l2@) =~~= ls.take(start_row as int)
                + AppState::char_replace_rows(
                t0,
                start_row as int,
                end_row as int,
                start_col_us as int,
                end_col_us as int,
                slot_text@,
            ) + ls.skip(end_row + 1));
        }
        let newtext = crate::text::join_all_lines(&out);
        let new_row: u16 = if start_row + 1 > u16::MAX as usize {
            u16::MAX
        } else {
            (start_row + 1) as u16
        };
        let new_col: u16 = if start_col_us > u16::MAX as usize {
            u16::MAX
        } else {
            start_col_us as u16
        };
        self.commit_buffer_edit(bi, newtext, CursorState { row: new_row, col: new_col });
        self.align_active_window_scroll_to_cursor();
        self.exit_visual_mode();
        self.set_message("selection replaced");
        proof {
            reveal_strlit("selection replaced");
        }
    }

    /// Replaces the visual selection with the slot's text and returns to
    /// normal mode.
    #[verifier::rlimit(100)]
    pub fn replace_visual_selection_with_slot(&mut self)
        ensures
            AppState::visual_replace_post(*old(self), *final(self)),
    {
        let slot_text = match &self.line_slot {
            Some(s) => s.clone(),
            None => {
                self.set_message("paste failed: slot is empty");
                proof {
                    reveal_strlit("paste failed: slot is empty");
                }
                self.exit_visual_mode();
                return ;
            },
        };
        let bounds = self.normalized_visual_bounds();
        let (start, end) = match bounds {
            Some(p) => p,
            None => {
                self.set_message("visual paste failed: no anchor");
                proof {
                    reveal_strlit("visual paste failed: no anchor");
                }
                self.exit_visual_mode();
                return ;
            },
        };
        let line_wise = self.is_visual_line_mode();
        let bid_opt = self.active_buffer_id();
        let bi_opt = match bid_opt {
            Some(b) => find_idx(&self.buffers, b.0),
            None => None,
        };
        let bi = match bi_opt {
            Some(i) => i,
            None => {
                self.set_message("visual paste failed: no active buffer");
                proof {
                    reveal_strlit("visual paste failed: no active buffer");
                }
                self.exit_visual_mode();
                return ;
            },
        };
        proof {
            crate::store::lemma_lookup_at(self.buffers@, bi as int);
        }
        let ghost t0 = self.buffers@[bi as int].val.text@;
        let start_row = (start.row.saturating_sub(1)) as usize;
        let end_row = (end.row.saturating_sub(1)) as usize;
        let row_count = {
            let b_ref = &self.buffers[bi];
            let sp = crate::text::split_lines_owned(b_ref.val.text.as_str());
            proof {
                assert(sp@.len() == crate::text::lines_of(t0).len());
            }
            sp.len()
        };
        if start_row >= row_count || end_row >= row_count {
            self.set_message("visual paste failed: out of range");
            proof {
                reveal_strlit("visual paste failed: out of range");
            }
            self.exit_visual_mode();
            return ;
        }
        proof {
            assert(start_row <= end_row);
        }
        if line_wise {
            self.vrep_linewise(bi, start_row, end_row, &slot_text);
            return ;
        }
        let (start_line_n, end_line_n) = {
            let b_ref = &self.buffers[bi];
            let lines = crate::text::split_lines_owned(b_ref.val.text.as_str());
            proof {
                assert(lines@.len() == crate::text::lines_of(t0).len());
                assert(lines@.map_values(|l2: String| l2@)[start_row as int]
                    == crate::text::lines_of(t0)[start_row as int]);
            }
            (lines[start_row].as_str().unicode_len(), lines[end_row].as_str().unicode_len())
        };
        let start_col_us: usize = {
            let base = if start.col < 1 {
                1
            } else {
                start.col
            } as usize;
            let lim = if start_line_n < 1 {
                1
            } else {
                start_line_n
            };
            if base > lim {
                lim
            } else {
                base
            }
        };
        let end_col_us: usize = {
            let base = if end.col < 1 {
                1
            } else {
                end.col
            } as usize;
            let lim = if end_line_n < 1 {
                1
            } else {
                end_line_n
            };
            if base > lim {
                lim
            } else {
                base
            }
        };
        if start_row == end_row && start_col_us > end_col_us {
            self.exit_visual_mode();
            return ;
        }
        self.vrep_charwise(bi, start_row, end_row, start_col_us, end_col_us, &slot_text);
    }
}

} // verus!
