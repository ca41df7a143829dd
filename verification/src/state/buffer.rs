//! Buffer lifecycle: creation, closing, replacing text wholesale, and
//! cycling the window through the open buffers.

use vstd::prelude::*;
use vstd::string::StrSliceExecFns;

use crate::state::AppState;
use crate::state::BufferId;
use crate::state::BufferState;
use crate::state::CursorState;
use crate::state::StatusBarState;
use crate::state::buffer_name_from_path;
use crate::store::Entry;
use crate::store::find_idx;
use crate::store::lookup;

verus! {

impl AppState {
    /// Creates a buffer under a fresh id, named after the path's file name
    /// (or "untitled"), and appends it to the buffer switching order.
    pub fn create_buffer(&mut self, path: Option<String>, text: String) -> (r: BufferId)
        ensures
            old(self).ids_wf() && old(self).next_buffer_id < u64::MAX ==> final(self).ids_wf(),
            old(self).ids_wf() ==> final(self).s_buf(r) is Some,
            old(self).ids_wf() ==> final(self).s_buf(r).unwrap().text == text,
            old(self).ids_wf() ==> final(self).s_buf(r).unwrap().cursor == (CursorState {
                row: 1u16,
                col: 1u16,
            }),
            old(self).ids_wf() ==> final(self).s_buf(r).unwrap().dirty == false,
            old(self).ids_wf() ==> final(self).s_buf(r).unwrap().undo_stack@.len() == 0,
            old(self).ids_wf() ==> final(self).s_buf(r).unwrap().redo_stack@.len() == 0,
            forall|b2: BufferId| b2 != r ==> final(self).s_buf(b2) == old(self).s_buf(b2),
            final(self).buffer_order@ == old(self).buffer_order@.push(r),
            *final(self) == (AppState {
                buffers: final(self).buffers,
                buffer_order: final(self).buffer_order,
                next_buffer_id: final(self).next_buffer_id,
                ..*old(self)
            }),
            r.0 == old(self).next_buffer_id,
    {
        let name = match &path {
            Some(p) => match buffer_name_from_path(p.as_str()) {
                Some(n) => n,
                None => String::from_str("untitled"),
            },
            None => String::from_str("untitled"),
        };
        let id = BufferId(self.next_buffer_id);
        let buffer = BufferState {
            name,
            path,
            text,
            dirty: false,
            externally_modified: false,
            cursor: CursorState { row: 1, col: 1 },
            undo_stack: Vec::new(),
            redo_stack: Vec::new(),
        };
        let ghost pre = self.buffers@;
        let e = Entry { key: id.0, val: buffer };
        proof {
            if old(self).ids_wf() {
                crate::store::lemma_lookup_none(pre, id.0);
            }
            crate::store::lemma_lookup_push(pre, e, 0u64);
        }
        self.buffers.push(e);
        self.next_buffer_id = self.next_buffer_id.saturating_add(1);
        self.buffer_order.push(id);
        proof {
            assert forall|b2: BufferId| b2 != id implies final(self).s_buf(b2) == old(
                self,
            ).s_buf(b2) by {
                crate::store::lemma_lookup_push(pre, e, b2.0);
            }
            if old(self).ids_wf() && old(self).next_buffer_id < u64::MAX {
                assert(final(self).ids_wf()) by {
                    let post = *final(self);
                    assert(post.windows == old(self).windows);
                    assert(post.tabs == old(self).tabs);
                    assert(post.next_window_id == old(self).next_window_id);
                    assert(post.buffers@ =~= pre.push(e));
                    assert forall|i: int, j: int| 0 <= i < j < post.buffers@.len() implies post
                        .buffers@[i].key != post.buffers@[j].key by {
                        if j < pre.len() {
                        } else {
                            assert(post.buffers@[i].key == pre[i].key);
                            assert(pre[i].key < e.key);
                        }
                    }
                    assert forall|i: int| 0 <= i < post.buffers@.len() implies (#[trigger] post
                        .buffers@[i].key) < post.next_buffer_id by {
                        if i < pre.len() {
                            assert(pre[i].key < old(self).next_buffer_id);
                        }
                    }
                }
            }
        }
        id
    }

    /// Closes the buffer shown in the focused window. Every window that
    /// showed it falls back to a neighbouring buffer in switching order, or
    /// to a fresh untitled buffer when it was the last.
    pub fn close_active_buffer(&mut self)
        ensures
            old(self).s_active_buffer_id() is Some ==> final(self).status_bar.message@
                == "buffer closed"@,
            old(self).s_active_buffer_id() is None ==> AppState::only_message(
                *old(self),
                *final(self),
            ) && final(self).status_bar.message@ == "buffer close failed: no active buffer"@,
    {
        let active = match self.active_buffer_id() {
            Some(b) => b,
            None => {
                self.status_bar.message = String::from_str("buffer close failed: no active buffer");
                proof {
                    reveal_strlit("buffer close failed: no active buffer");
                }
                return ;
            },
        };
        let pos = {
            let mut found: Option<usize> = None;
            let n = self.buffer_order.len();
            let mut i: usize = 0;
            while i < n
                invariant
                    n == self.buffer_order@.len(),
                    0 <= i <= n,
                    found matches Some(f) ==> f < n,
                decreases n - i,
            {
                if self.buffer_order[i] == active {
                    found = Some(i);
                    break ;
                }
                i = i + 1;
            }
            found
        };
        let mut fallback: Option<BufferId> = match pos {
            Some(idx) if self.buffer_order.len() > 1 => {
                if idx > 0 {
                    Some(self.buffer_order[idx - 1])
                } else {
                    Some(self.buffer_order[1])
                }
            },
            _ => None,
        };
        let mut kept_order: Vec<BufferId> = Vec::new();
        let n = self.buffer_order.len();
        let mut i: usize = 0;
        while i < n
            invariant
                n == self.buffer_order@.len(),
                0 <= i <= n,
            decreases n - i,
        {
            let b = self.buffer_order[i];
            if b != active {
                kept_order.push(b);
            }
            i = i + 1;
        }
        self.buffer_order = kept_order;
        loop
            invariant_except_break
                true,
            ensures
                lookup(self.buffers@, active.0) is None,
            decreases self.buffers@.len(),
        {
            let found = find_idx(&self.buffers, active.0);
            match found {
                Some(bi) => {
                    let ghost pre = self.buffers@;
                    let _removed = self.buffers.remove(bi);
                    proof {
                        assert(self.buffers@ =~= pre.remove(bi as int));
                    }
                },
                None => {
                    break ;
                },
            }
        }
        if fallback.is_none() {
            let nb = self.create_buffer(None, String::new());
            if nb == active {
                fallback = None;
            } else {
                fallback = Some(nb);
            }
        }
        let wn = self.windows.len();
        let mut wi: usize = 0;
        while wi < wn
            invariant
                wn == self.windows@.len(),
                0 <= wi <= wn,
            decreases wn - wi,
        {
            let shows_active = match self.windows[wi].val.buffer_id {
                Some(b) => b == active,
                None => false,
            };
            if shows_active {
                let w = &mut self.windows[wi];
                w.val.buffer_id = fallback;
            }
            wi = wi + 1;
        }
        self.align_active_window_scroll_to_cursor();
        self.status_bar.message = String::from_str("buffer closed");
        proof {
            reveal_strlit("buffer closed");
        }
    }

    /// Swaps in freshly loaded text, keeping the cursor on its row when it
    /// still exists (or the last row if the cursor sat at the bottom) and
    /// clamping its column.
    pub fn replace_buffer_text_preserving_cursor(&mut self, buffer_id: BufferId, text: String)
        ensures
            old(self).s_buf(buffer_id) is None ==> *final(self) == *old(self),
            old(self).s_buf(buffer_id) matches Some(b) ==> final(self).s_buf(buffer_id) is Some
                && final(self).s_buf(buffer_id).unwrap().text == text && final(self).s_buf(
                buffer_id,
            ).unwrap() == (BufferState {
                text: text,
                cursor: final(self).s_buf(buffer_id).unwrap().cursor,
                ..b
            }),
            forall|b2: BufferId| b2 != buffer_id ==> final(self).s_buf(b2) == old(self).s_buf(b2),
            *final(self) == (AppState {
                buffers: final(self).buffers,
                windows: final(self).windows,
                ..*old(self)
            }),
            AppState::windows_scroll_frame(*old(self), *final(self)),
    {
        let bi = match find_idx(&self.buffers, buffer_id.0) {
            Some(i) => i,
            None => {
                return ;
            },
        };
        let prev_max_row = crate::text::rendered_line_count(
            self.buffers[bi].val.text.as_str(),
        );
        let cur = self.buffers[bi].val.cursor;
        let was_at_bottom = (cur.row as usize) >= prev_max_row;
        let max_row_new = crate::text::rendered_line_count(text.as_str());
        let new_row: u16 = if was_at_bottom {
            if max_row_new > u16::MAX as usize {
                u16::MAX
            } else {
                max_row_new as u16
            }
        } else {
            let cap: u16 = if max_row_new > u16::MAX as usize {
                u16::MAX
            } else {
                max_row_new as u16
            };
            let r = if cur.row > cap {
                cap
            } else {
                cur.row
            };
            if r < 1 {
                1
            } else {
                r
            }
        };
        let max_col: u16 = {
            let line = crate::text::line_text_at(text.as_str(), (new_row.saturating_sub(1)) as usize);
            match line {
                Some(l) => {
                    let ln = l.as_str().unicode_len();
                    let v = if ln >= u16::MAX as usize {
                        u16::MAX
                    } else {
                        ln as u16
                    };
                    if v < 1 {
                        1
                    } else {
                        v
                    }
                },
                None => 1,
            }
        };
        let new_col = {
            let c = if cur.col > max_col {
                max_col
            } else {
                cur.col
            };
            if c < 1 {
                1
            } else {
                c
            }
        };
        let ghost pre = self.buffers@;
        let b = &mut self.buffers[bi];
        b.val.text = text;
        b.val.cursor = CursorState { row: new_row, col: new_col };
        proof {
            let nb = final(b).val;
            assert(self.buffers@ =~= pre.update(bi as int, Entry { key: buffer_id.0, val: nb }));
            crate::store::lemma_lookup_update(pre, bi as int, nb, 0u64);
            assert forall|b2: BufferId| b2 != buffer_id implies lookup(self.buffers@, b2.0)
                == lookup(pre, b2.0) by {
                crate::store::lemma_lookup_update(pre, bi as int, nb, b2.0);
            }
        }
        self.align_active_window_scroll_to_cursor();
    }

    /// Creates an untitled buffer right after the active one in switching
    /// order and shows it in the focused window.
    pub fn create_untitled_buffer(&mut self) -> (r: BufferId)
        ensures
            final(self).status_bar.message@ == "new buffer"@,
    {
        let previous_active = self.active_buffer_id();
        let buffer_id = self.create_buffer(None, String::new());
        if let Some(anchor) = previous_active {
            self.move_buffer_after(buffer_id, anchor);
        }
        self.bind_buffer_to_active_window(buffer_id);
        self.status_bar.message = String::from_str("new buffer");
        proof {
            reveal_strlit("new buffer");
        }
        buffer_id
    }

    /// Shows the previous or next buffer in switching order in the focused
    /// window; cycles at either end.
    pub fn switch_active_window_buffer(&mut self, direction: crate::state::BufferSwitchDirection)
        ensures
            old(self).buffer_order@.len() == 0 ==> *final(self) == *old(self),
    {
        if self.buffer_order.len() == 0 {
            return ;
        }
        let wid = self.active_window_id();
        let wi = match find_idx(&self.windows, wid.0) {
            Some(i) => i,
            None => {
                return ;
            },
        };
        let current = self.windows[wi].val.buffer_id;
        let order_len = self.buffer_order.len();
        let cur_pos = {
            let mut found: Option<usize> = None;
            match current {
                Some(c) => {
                    let mut i: usize = 0;
                    while i < order_len
                        invariant
                            order_len == self.buffer_order@.len(),
                            0 <= i <= order_len,
                            found matches Some(f) ==> f < order_len,
                        decreases order_len - i,
                    {
                        if self.buffer_order[i] == c {
                            found = Some(i);
                            break ;
                        }
                        i = i + 1;
                    }
                },
                None => {},
            }
            found
        };
        let target = match cur_pos {
            Some(idx) => match direction {
                crate::state::BufferSwitchDirection::Prev => {
                    if idx == 0 {
                        self.buffer_order[order_len - 1]
                    } else {
                        self.buffer_order[idx - 1]
                    }
                },
                crate::state::BufferSwitchDirection::Next => {
                    if idx + 1 >= order_len {
                        self.buffer_order[0]
                    } else {
                        self.buffer_order[idx + 1]
                    }
                },
            },
            None => match direction {
                crate::state::BufferSwitchDirection::Prev => self.buffer_order[order_len - 1],
                crate::state::BufferSwitchDirection::Next => self.buffer_order[0],
            },
        };
        {
            let w = &mut self.windows[wi];
            w.val.buffer_id = Some(target);
        }
        self.align_active_window_scroll_to_cursor();
        if let Some(ti) = find_idx(&self.buffers, target.0) {
            let name = self.buffers[ti].val.name.clone();
            let mut msg = String::from_str("buffer ");
            msg.append(name.as_str());
            self.status_bar.message = msg;
        }
    }

    /// Moves a buffer to stand right after an anchor buffer in switching
    /// order.
    fn move_buffer_after(&mut self, buffer_id: BufferId, anchor_id: BufferId)
        ensures
            *final(self) == (AppState { buffer_order: final(self).buffer_order, ..*old(self) }),
    {
        if buffer_id == anchor_id {
            return ;
        }
        let n = self.buffer_order.len();
        let from_idx = {
            let mut found: Option<usize> = None;
            let mut i: usize = 0;
            while i < n
                invariant
                    n == self.buffer_order@.len(),
                    0 <= i <= n,
                    found matches Some(f) ==> f < n,
                decreases n - i,
            {
                if self.buffer_order[i] == buffer_id {
                    found = Some(i);
                    break ;
                }
                i = i + 1;
            }
            found
        };
        proof {
            assert(n == self.buffer_order@.len());
        }
        let from = match from_idx {
            Some(i) => i,
            None => {
                return ;
            },
        };
        let _moved = self.buffer_order.remove(from);
        let m = self.buffer_order.len();
        let anchor_idx = {
            let mut found: Option<usize> = None;
            let mut i: usize = 0;
            while i < m
                invariant
                    m == self.buffer_order@.len(),
                    0 <= i <= m,
                    found matches Some(f) ==> f < m,
                decreases m - i,
            {
                if self.buffer_order[i] == anchor_id {
                    found = Some(i);
                    break ;
                }
                i = i + 1;
            }
            found
        };
        match anchor_idx {
            Some(ai) => {
                let cur_len = self.buffer_order.len();
                if ai < cur_len {
                    self.buffer_order.insert(ai + 1, buffer_id);
                } else {
                    self.buffer_order.push(buffer_id);
                }
            },
            None => {
                self.buffer_order.push(buffer_id);
            },
        }
    }
}

} // verus!
