//! The editor's state: buffers, windows, tabs, the mode machine, and the
//! per-buffer undo/redo store.

use vstd::prelude::*;
use vstd::string::StrSliceExecFns;

use crate::history::BufferEditSnapshot;
use crate::history::BufferHistoryEntry;
use crate::store::Entry;
use crate::store::find_idx;
use crate::store::keys_below;
use crate::store::keys_distinct;
use crate::store::lookup;

mod buffer;
mod edit;
mod tab;
mod window;

verus! {

broadcast use vstd::string::group_string_axioms;

/// Oldest history entries are evicted beyond this many.
pub const MAX_HISTORY_ENTRIES: usize = 256;

#[derive(Debug, Clone, Copy, PartialEq, Eq, Structural, Hash)]
pub struct BufferId(pub u64);

#[derive(Debug, Clone, Copy, PartialEq, Eq, Structural, Hash)]
pub struct WindowId(pub u64);

#[derive(Debug, Clone, Copy, PartialEq, Eq, Structural, Hash)]
pub struct TabId(pub u64);

/// 1-based cursor position; the column counts characters, not bytes.
#[derive(Debug, Clone, Copy, PartialEq, Eq, Structural)]
pub struct CursorState {
    pub row: u16,
    pub col: u16,
}

impl Default for CursorState {
    fn default() -> (r: Self)
        ensures
            r == (CursorState { row: 1u16, col: 1u16 }),
    {
        CursorState { row: 1, col: 1 }
    }
}

#[derive(Debug, Clone, Copy, PartialEq, Eq, Structural)]
pub enum EditorMode {
    Normal,
    Insert,
    Command,
    VisualChar,
    VisualLine,
}

#[derive(Debug, Clone, Copy, PartialEq, Eq, Structural)]
pub enum SplitAxis {
    Horizontal,
    Vertical,
}

/// One token of a normal-mode key chord.
#[derive(Debug, Clone, Copy, PartialEq, Eq, Structural)]
pub enum NormalSequenceKey {
    Leader,
    Tab,
    Char(char),
    Ctrl(char),
}

#[derive(Debug, Clone, PartialEq, Eq)]
pub struct BufferState {
    pub name: String,
    pub path: Option<String>,
    pub text: String,
    pub dirty: bool,
    pub externally_modified: bool,
    pub cursor: CursorState,
    pub undo_stack: Vec<BufferHistoryEntry>,
    pub redo_stack: Vec<BufferHistoryEntry>,
}

#[derive(Debug, Clone, Copy, PartialEq, Eq)]
pub struct WindowState {
    pub buffer_id: Option<BufferId>,
    pub scroll_x: u16,
    pub scroll_y: u16,
    pub x: u16,
    pub y: u16,
    pub width: u16,
    pub height: u16,
}

impl Default for WindowState {
    fn default() -> (r: Self)
        ensures
            r == WindowState::empty_window(),
    {
        WindowState { buffer_id: None, scroll_x: 0, scroll_y: 0, x: 0, y: 0, width: 0, height: 0 }
    }
}

impl WindowState {
    /// The window every split starts from: no buffer, no extent.
    pub open spec fn empty_window() -> WindowState {
        WindowState {
            buffer_id: None,
            scroll_x: 0u16,
            scroll_y: 0u16,
            x: 0u16,
            y: 0u16,
            width: 0u16,
            height: 0u16,
        }
    }
}

#[derive(Debug, Clone, PartialEq, Eq)]
pub struct TabState {
    pub windows: Vec<WindowId>,
    pub active_window: WindowId,
}

#[derive(Debug, Clone, PartialEq, Eq)]
pub struct StatusBarState {
    pub mode: String,
    pub message: String,
    pub key_sequence: String,
}

impl Default for StatusBarState {
    fn default() -> (r: Self)
        ensures
            r.mode@ == "NORMAL"@,
            r.message@ == "new file"@,
            r.key_sequence@ == Seq::<char>::empty(),
    {
        StatusBarState {
            mode: String::from_str("NORMAL"),
            message: String::from_str("new file"),
            key_sequence: String::new(),
        }
    }
}

/// Diffs of the insert session in progress, waiting to become one undo step.
#[derive(Debug)]
pub struct PendingInsertUndoGroup {
    pub buffer_id: BufferId,
    pub before_cursor: CursorState,
    pub edits: Vec<BufferEditSnapshot>,
}

#[derive(Debug, Clone, Copy, PartialEq, Eq, Structural)]
pub enum FocusDirection {
    Left,
    Down,
    Up,
    Right,
}

#[derive(Debug, Clone, Copy, PartialEq, Eq, Structural)]
pub enum BufferSwitchDirection {
    Prev,
    Next,
}

pub struct AppState {
    pub title: String,
    pub active_tab: TabId,
    pub leader_key: char,
    pub mode: EditorMode,
    pub visual_anchor: Option<CursorState>,
    pub command_line: String,
    pub quit_after_save: bool,
    pub pending_save_path: Option<(BufferId, String)>,
    pub preferred_col: Option<u16>,
    pub line_slot: Option<String>,
    pub line_slot_line_wise: bool,
    pub cursor_scroll_threshold: u16,
    pub normal_sequence: Vec<NormalSequenceKey>,
    pub visual_g_pending: bool,
    pub pending_insert_group: Option<PendingInsertUndoGroup>,
    pub in_flight_internal_saves: Vec<BufferId>,
    pub last_internal_save_fingerprint: Vec<Entry<u64>>,
    pub next_buffer_id: u64,
    pub buffers: Vec<Entry<BufferState>>,
    pub buffer_order: Vec<BufferId>,
    pub next_window_id: u64,
    pub windows: Vec<Entry<WindowState>>,
    pub tabs: Vec<Entry<TabState>>,
    pub status_bar: StatusBarState,
}

impl AppState {
    /// The buffer stored under this id, if any.
    pub open spec fn s_buf(self, id: BufferId) -> Option<BufferState> {
        lookup(self.buffers@, id.0)
    }

    /// The window stored under this id, if any.
    pub open spec fn s_win(self, id: WindowId) -> Option<WindowState> {
        lookup(self.windows@, id.0)
    }

    /// The tab stored under this id, if any.
    pub open spec fn s_tab(self, id: TabId) -> Option<TabState> {
        lookup(self.tabs@, id.0)
    }

    /// The active tab's focused window id, if the active tab exists.
    pub open spec fn s_active_window_id(self) -> Option<WindowId> {
        match self.s_tab(self.active_tab) {
            Some(t) => Some(t.active_window),
            None => None,
        }
    }

    /// The buffer shown in the focused window, if any.
    pub open spec fn s_active_buffer_id(self) -> Option<BufferId> {
        match self.s_active_window_id() {
            Some(wid) => match self.s_win(wid) {
                Some(w) => w.buffer_id,
                None => None,
            },
            None => None,
        }
    }

    /// The active buffer itself, if any.
    pub open spec fn s_active_buffer(self) -> Option<BufferState> {
        match self.s_active_buffer_id() {
            Some(bid) => self.s_buf(bid),
            None => None,
        }
    }

    /// Fresh id counters really are fresh, and no store holds a key twice.
    pub open spec fn ids_wf(self) -> bool {
        &&& keys_distinct(self.buffers@)
        &&& keys_below(self.buffers@, self.next_buffer_id)
        &&& keys_distinct(self.windows@)
        &&& keys_below(self.windows@, self.next_window_id)
        &&& keys_distinct(self.tabs@)
    }

    /// A fresh state: one tab holding one empty window, normal mode, and an
    /// empty history.
    pub fn new() -> (r: Self)
        ensures
            r.ids_wf(),
            r.mode == EditorMode::Normal,
            r.active_tab == TabId(1u64),
            r.s_tab(TabId(1u64)) is Some,
            r.s_active_window_id() == Some(WindowId(1u64)),
            r.s_win(WindowId(1u64)) == Some(WindowState::empty_window()),
            r.s_active_buffer_id() is None,
            r.buffers@.len() == 0,
            r.buffer_order@.len() == 0,
            r.tabs@.len() == 1,
            r.leader_key == ' ',
            r.visual_anchor is None,
            r.pending_insert_group is None,
            r.normal_sequence@.len() == 0,
            r.status_bar.mode@ == "NORMAL"@,
            r.status_bar.message@ == "new file"@,
    {
        let window_id = WindowId(1);
        let mut windows: Vec<Entry<WindowState>> = Vec::new();
        windows.push(Entry { key: 1, val: WindowState::default() });
        let mut tab_windows: Vec<WindowId> = Vec::new();
        tab_windows.push(window_id);
        let mut tabs: Vec<Entry<TabState>> = Vec::new();
        tabs.push(Entry { key: 1, val: TabState { windows: tab_windows, active_window: window_id } });
        let r = AppState {
            title: String::from_str("Rim"),
            active_tab: TabId(1),
            leader_key: ' ',
            mode: EditorMode::Normal,
            visual_anchor: None,
            command_line: String::new(),
            quit_after_save: false,
            pending_save_path: None,
            preferred_col: None,
            line_slot: None,
            line_slot_line_wise: false,
            cursor_scroll_threshold: 0,
            normal_sequence: Vec::new(),
            visual_g_pending: false,
            pending_insert_group: None,
            in_flight_internal_saves: Vec::new(),
            last_internal_save_fingerprint: Vec::new(),
            next_buffer_id: 1,
            buffers: Vec::new(),
            buffer_order: Vec::new(),
            next_window_id: 2,
            windows,
            tabs,
            status_bar: StatusBarState::default(),
        };
        proof {
            assert(lookup(r.tabs@, 1u64) == Some(r.tabs@[0].val));
            assert(lookup(r.windows@, 1u64) == Some(r.windows@[0].val));
            assert(lookup(r.buffers@, 0u64) is None);
        }
        r
    }

    /// The window whose scroll the state may move: the focused one, or the
    /// initial window when the active tab is missing.
    pub open spec fn s_scroll_window_key(self) -> u64 {
        match self.s_tab(self.active_tab) {
            Some(t) => t.active_window.0,
            None => 1u64,
        }
    }

    /// Windows other than the focused one kept their scroll too.
    pub open spec fn active_scroll_only(pre: AppState, post: AppState) -> bool {
        forall|i: int|
            0 <= i < pre.windows@.len() && pre.windows@[i].key != pre.s_scroll_window_key()
                ==> #[trigger] post.windows@[i] == pre.windows@[i]
    }

    /// The focused window's id; the initial window when the active tab is
    /// missing.
    pub fn active_window_id(&self) -> (r: WindowId)
        ensures
            self.s_active_window_id() is Some ==> Some(r) == self.s_active_window_id(),
            r.0 == self.s_scroll_window_key(),
    {
        match find_idx(&self.tabs, self.active_tab.0) {
            Some(i) => self.tabs[i].val.active_window,
            None => WindowId(1),
        }
    }

    /// Identifier of the buffer shown in the focused window.
    pub fn active_buffer_id(&self) -> (r: Option<BufferId>)
        ensures
            r == self.s_active_buffer_id(),
    {
        let wid = match find_idx(&self.tabs, self.active_tab.0) {
            Some(i) => self.tabs[i].val.active_window,
            None => {
                return None;
            },
        };
        match find_idx(&self.windows, wid.0) {
            Some(i) => self.windows[i].val.buffer_id,
            None => None,
        }
    }

    /// What binding a buffer to the focused window leaves behind: that
    /// window shows the buffer, every other window is untouched.
    pub open spec fn bind_buffer_post(pre: AppState, post: AppState, buffer_id: BufferId) -> bool {
        match pre.s_active_window_id() {
            Some(wid) => match pre.s_win(wid) {
                Some(w) => post.s_win(wid) == Some(
                    WindowState { buffer_id: Some(buffer_id), ..w },
                ) && (forall|w2: WindowId| w2 != wid ==> post.s_win(w2) == pre.s_win(w2)),
                None => post.windows == pre.windows,
            },
            None => post.windows == pre.windows,
        }
    }

    /// Shows the buffer in the focused window. Without a focused window
    /// nothing changes.
    pub fn bind_buffer_to_active_window(&mut self, buffer_id: BufferId)
        ensures
            *final(self) == (AppState { windows: final(self).windows, ..*old(self) }),
            AppState::bind_buffer_post(*old(self), *final(self), buffer_id),
    {
        if let Some(ti) = find_idx(&self.tabs, self.active_tab.0) {
            let wid = self.tabs[ti].val.active_window;
            if let Some(wi) = find_idx(&self.windows, wid.0) {
                let ghost wsold = self.windows@;
                let w = &mut self.windows[wi];
                w.val.buffer_id = Some(buffer_id);
                proof {
                    let neww = WindowState { buffer_id: Some(buffer_id), ..old(self).s_win(
                        wid,
                    ).unwrap() };
                    assert(final(w).val == neww);
                    assert(self.windows@ =~= wsold.update(
                        wi as int,
                        Entry { key: wid.0, val: neww },
                    ));
                    crate::store::lemma_lookup_update(wsold, wi as int, neww, 0u64);
                    assert(final(self).s_win(wid) == Some(neww));
                    assert forall|w2: WindowId| w2 != wid implies final(self).s_win(w2) == old(
                        self,
                    ).s_win(w2) by {
                        crate::store::lemma_lookup_update(wsold, wi as int, neww, w2.0);
                    }
                }
            }
        }
    }

    pub fn is_insert_mode(&self) -> (r: bool)
        ensures
            r == (self.mode == EditorMode::Insert),
    {
        self.mode == EditorMode::Insert
    }

    pub fn is_command_mode(&self) -> (r: bool)
        ensures
            r == (self.mode == EditorMode::Command),
    {
        self.mode == EditorMode::Command
    }

    pub fn is_visual_mode(&self) -> (r: bool)
        ensures
            r == (self.mode == EditorMode::VisualChar || self.mode == EditorMode::VisualLine),
    {
        self.mode == EditorMode::VisualChar || self.mode == EditorMode::VisualLine
    }

    pub fn is_visual_line_mode(&self) -> (r: bool)
        ensures
            r == (self.mode == EditorMode::VisualLine),
    {
        self.mode == EditorMode::VisualLine
    }

    /// Only the status message changed.
    pub open spec fn only_message(pre: AppState, post: AppState) -> bool {
        &&& post == (AppState { status_bar: post.status_bar, ..pre })
        &&& post.status_bar == (StatusBarState { message: post.status_bar.message, ..pre.status_bar })
    }

    /// At most window scroll positions changed between the two window
    /// stores; geometry, ids and shown buffers are identical.
    pub open spec fn windows_scroll_frame(pre: AppState, post: AppState) -> bool {
        &&& post.windows@.len() == pre.windows@.len()
        &&& forall|i: int|
            0 <= i < pre.windows@.len() ==> post.windows@[i].key == pre.windows@[i].key
                && post.windows@[i].val == (WindowState {
                scroll_x: post.windows@[i].val.scroll_x,
                scroll_y: post.windows@[i].val.scroll_y,
                ..pre.windows@[i].val
            })
    }

    fn set_message(&mut self, m: &str)
        ensures
            *final(self) == (AppState { status_bar: final(self).status_bar, ..*old(self) }),
            final(self).status_bar == (StatusBarState {
                message: final(self).status_bar.message,
                ..old(self).status_bar
            }),
            final(self).status_bar.message@ == m@,
    {
        self.status_bar.message = String::from_str(m);
    }

    /// Replaces the buffer stored at index `i` wholesale.
    fn replace_buffer_at(&mut self, i: usize, nb: BufferState)
        requires
            i < old(self).buffers@.len(),
            forall|j: int| 0 <= j < i ==> old(self).buffers@[j].key != old(self).buffers@[i as int].key,
        ensures
            *final(self) == (AppState { buffers: final(self).buffers, ..*old(self) }),
            final(self).buffers@ == old(self).buffers@.update(
                i as int,
                Entry { key: old(self).buffers@[i as int].key, val: nb },
            ),
            final(self).s_buf(BufferId(old(self).buffers@[i as int].key)) == Some(nb),
            forall|b2: BufferId|
                b2.0 != old(self).buffers@[i as int].key ==> final(self).s_buf(b2) == old(
                    self,
                ).s_buf(b2),
    {
        let ghost pre = self.buffers@;
        let k = self.buffers[i].key;
        self.buffers.set(i, Entry { key: k, val: nb });
        proof {
            crate::store::lemma_lookup_update(pre, i as int, nb, 0u64);
            assert forall|b2: BufferId| b2.0 != pre[i as int].key implies final(self).s_buf(b2)
                == old(self).s_buf(b2) by {
                crate::store::lemma_lookup_update(pre, i as int, nb, b2.0);
            }
        }
    }

    /// The undo stack after pushing an entry: capped, oldest evicted.
    pub open spec fn pushed_capped(
        stack: Seq<BufferHistoryEntry>,
        entry: BufferHistoryEntry,
    ) -> Seq<BufferHistoryEntry> {
        if stack.len() + 1 > MAX_HISTORY_ENTRIES {
            stack.push(entry).drop_first()
        } else {
            stack.push(entry)
        }
    }

    /// What pushing a history entry leaves behind: the entry tops the
    /// buffer's undo stack, the oldest entry is evicted past the bound, the
    /// redo stack is cleared, and nothing else moves. An entry without edits
    /// or an unknown buffer changes nothing.
    pub open spec fn push_history_post(
        pre: AppState,
        post: AppState,
        buffer_id: BufferId,
        entry: BufferHistoryEntry,
    ) -> bool {
        match pre.s_buf(buffer_id) {
            None => post == pre,
            Some(b) => {
                if entry.edits@.len() == 0 {
                    post == pre
                } else {
                    &&& post == (AppState { buffers: post.buffers, ..pre })
                    &&& post.s_buf(buffer_id) matches Some(nb)
                    &&& post.s_buf(buffer_id).unwrap() == (BufferState {
                        undo_stack: post.s_buf(buffer_id).unwrap().undo_stack,
                        redo_stack: post.s_buf(buffer_id).unwrap().redo_stack,
                        ..b
                    })
                    &&& post.s_buf(buffer_id).unwrap().undo_stack@ == AppState::pushed_capped(
                        b.undo_stack@,
                        entry,
                    )
                    &&& post.s_buf(buffer_id).unwrap().redo_stack@.len() == 0
                    &&& b.undo_stack@.len() <= MAX_HISTORY_ENTRIES ==> post.s_buf(
                        buffer_id,
                    ).unwrap().undo_stack@.len() <= MAX_HISTORY_ENTRIES
                    &&& forall|b2: BufferId| b2 != buffer_id ==> post.s_buf(b2) == pre.s_buf(b2)
                }
            },
        }
    }

    /// Records one undo step for the buffer. The undo stack never grows past
    /// `MAX_HISTORY_ENTRIES`: the oldest step is evicted first. Any new step
    /// discards the redo stack.
    pub fn push_buffer_history_entry(&mut self, buffer_id: BufferId, entry: BufferHistoryEntry)
        ensures
            AppState::push_history_post(*old(self), *final(self), buffer_id, entry),
    {
        let bi = match find_idx(&self.buffers, buffer_id.0) {
            Some(i) => i,
            None => {
                return ;
            },
        };
        if entry.edits.len() == 0 {
            return ;
        }
        let ghost b0 = self.buffers@[bi as int].val;
        let b = &mut self.buffers[bi];
        let ghost pre_buffers = old(self).buffers@;
        b.val.undo_stack.push(entry);
        if b.val.undo_stack.len() > MAX_HISTORY_ENTRIES {
            let _evicted = b.val.undo_stack.remove(0);
        }
        b.val.redo_stack = Vec::new();
        proof {
            let nb = final(b).val;
            assert(nb.undo_stack@ =~= AppState::pushed_capped(b0.undo_stack@, entry));
            assert(nb == (BufferState { undo_stack: nb.undo_stack, redo_stack: nb.redo_stack, ..b0 }));
            assert(final(self).buffers@ =~= pre_buffers.update(
                bi as int,
                Entry { key: buffer_id.0, val: nb },
            ));
            crate::store::lemma_lookup_update(pre_buffers, bi as int, nb, 0u64);
            assert forall|b2: BufferId| b2 != buffer_id implies final(self).s_buf(b2) == old(
                self,
            ).s_buf(b2) by {
                crate::store::lemma_lookup_update(pre_buffers, bi as int, nb, b2.0);
            }
        }
    }

    /// What undoing leaves behind. With no active buffer or an empty undo
    /// stack only the status message changes and it says why. Otherwise the
    /// top entry's snapshots are reversed last to first, the cursor returns
    /// to the entry's `before_cursor`, the entry moves to the redo stack
    /// (capped), the buffer is dirty, and at most window scrolls move.
    pub open spec fn undo_post(pre: AppState, post: AppState) -> bool {
        match pre.s_active_buffer_id() {
            None => AppState::only_message(pre, post) && post.status_bar.message@
                == "undo failed: no active buffer"@,
            Some(bid) => match pre.s_buf(bid) {
                None => AppState::only_message(pre, post) && post.status_bar.message@
                    == "undo failed: active buffer missing"@,
                Some(b) => {
                    if b.undo_stack@.len() == 0 {
                        AppState::only_message(pre, post) && post.status_bar.message@
                            == "undo: nothing to undo"@
                    } else {
                        let entry = b.undo_stack@.last();
                        if crate::history::undo_tail_ok(b.text@, entry.edits@, 0) {
                            &&& post == (AppState {
                                buffers: post.buffers,
                                windows: post.windows,
                                status_bar: post.status_bar,
                                ..pre
                            })
                            &&& AppState::windows_scroll_frame(pre, post)
                            &&& AppState::active_scroll_only(pre, post)
                            &&& post.status_bar == (StatusBarState {
                                message: post.status_bar.message,
                                ..pre.status_bar
                            })
                            &&& post.status_bar.message@ == "undo"@
                            &&& post.s_buf(bid) is Some
                            &&& post.s_buf(bid).unwrap() == (BufferState {
                                text: post.s_buf(bid).unwrap().text,
                                cursor: entry.before_cursor,
                                dirty: true,
                                undo_stack: post.s_buf(bid).unwrap().undo_stack,
                                redo_stack: post.s_buf(bid).unwrap().redo_stack,
                                ..b
                            })
                            &&& post.s_buf(bid).unwrap().text@ == crate::history::undo_entry_text(
                                b.text@,
                                entry.edits@,
                            )
                            &&& post.s_buf(bid).unwrap().undo_stack@ == b.undo_stack@.drop_last()
                            &&& post.s_buf(bid).unwrap().redo_stack@ == AppState::pushed_capped(
                                b.redo_stack@,
                                entry,
                            )
                            &&& forall|b2: BufferId| b2 != bid ==> post.s_buf(b2) == pre.s_buf(b2)
                        } else {
                            AppState::only_message(pre, post) && post.status_bar.message@
                                == "undo failed: history out of step"@
                        }
                    }
                },
            },
        }
    }

    /// Undoes the most recent history entry of the active buffer.
    /// With nothing to undo it reports so and changes nothing else.
    pub fn undo_active_buffer_edit(&mut self)
        ensures
            AppState::undo_post(*old(self), *final(self)),
    {
        broadcast use vstd::utf8::encode_utf8_decode_utf8;

        let bid = match self.active_buffer_id() {
            Some(b) => b,
            None => {
                self.set_message("undo failed: no active buffer");
                proof {
                    reveal_strlit("undo failed: no active buffer");
                }
                return ;
            },
        };
        let bi = match find_idx(&self.buffers, bid.0) {
            Some(i) => i,
            None => {
                self.set_message("undo failed: active buffer missing");
                proof {
                    reveal_strlit("undo failed: active buffer missing");
                }
                return ;
            },
        };
        let n_undo = self.buffers[bi].val.undo_stack.len();
        if n_undo == 0 {
            self.set_message("undo: nothing to undo");
            proof {
                reveal_strlit("undo: nothing to undo");
            }
            return ;
        }
        let ghost b0 = self.buffers@[bi as int].val;
        let ghost entry_g = b0.undo_stack@.last();
        let mut t = self.buffers[bi].val.text.clone();
        let n_edits = self.buffers[bi].val.undo_stack[n_undo - 1].edits.len();
        let mut i = n_edits;
        while i > 0
            invariant
                *self == *old(self),
                Some(bid) == old(self).s_active_buffer_id(),
                bi < self.buffers@.len(),
                self.buffers@[bi as int].key == bid.0,
                old(self).s_buf(bid) == Some(b0),
                self.buffers@[bi as int].val == b0,
                b0.undo_stack@.len() == n_undo >= 1,
                entry_g == b0.undo_stack@.last(),
                n_edits == entry_g.edits@.len(),
                0 <= i <= n_edits,
                t@ == crate::history::undo_tail(b0.text@, entry_g.edits@, i as int),
                crate::history::undo_tail_ok(b0.text@, entry_g.edits@, i as int),
            decreases i,
        {
            let ed_start = self.buffers[bi].val.undo_stack[n_undo - 1].edits[i - 1].start_byte;
            let rem = self.buffers[bi].val.undo_stack[n_undo - 1].edits[i
                - 1].inserted_text.as_str().as_bytes().len();
            let ghost tpre = t@;
            let ghost ed = entry_g.edits@[i - 1];
            proof {
                broadcast use vstd::slice::axiom_spec_len;

                assert(rem == crate::text::byte_len(ed.inserted_text@));
            }
            let ok = {
                let b_ref = &self.buffers[bi];
                crate::text::replace_byte_range(
                    &mut t,
                    ed_start,
                    rem,
                    b_ref.val.undo_stack[n_undo - 1].edits[i - 1].deleted_text.as_str(),
                )
            };
            if !ok {
                self.set_message("undo failed: history out of step");
                proof {
                    reveal_strlit("undo failed: history out of step");
                }
                proof {
                    assert(!crate::history::undo_applies(tpre, ed));
                    crate::history::lemma_undo_tail_ok_fails(b0.text@, entry_g.edits@, i - 1);
                }
                return ;
            }
            i = i - 1;
            proof {
                assert(crate::history::undo_applies(tpre, ed));
                assert(crate::text::bytes_of(t@) == crate::text::spec_replace_bytes(
                    tpre,
                    ed.start_byte as int,
                    crate::text::byte_len(ed.inserted_text@) as int,
                    ed.deleted_text@,
                ));
                vstd::utf8::encode_utf8_decode_utf8(t@);
                assert(crate::text::bytes_of(t@) == vstd::utf8::encode_utf8(t@));
                assert(t@ == crate::history::undo_text(tpre, ed));
                assert(t@ == crate::history::undo_tail(b0.text@, entry_g.edits@, i as int));
            }
        }
        let ghost pre_buffers = self.buffers@;
        let b = &mut self.buffers[bi];
        let entry = match b.val.undo_stack.pop() {
            Some(e) => e,
            None => {
                proof {
                    assert(false);
                }
                return ;
            },
        };
        b.val.text = t;
        b.val.cursor = entry.before_cursor;
        b.val.redo_stack.push(entry);
        if b.val.redo_stack.len() > MAX_HISTORY_ENTRIES {
            let _evicted = b.val.redo_stack.remove(0);
        }
        b.val.dirty = true;
        proof {
            let nb = final(b).val;
            assert(nb.undo_stack@ =~= b0.undo_stack@.drop_last());
            assert(nb.redo_stack@ =~= AppState::pushed_capped(b0.redo_stack@, entry_g));
            assert(self.buffers@ =~= pre_buffers.update(
                bi as int,
                Entry { key: bid.0, val: nb },
            ));
            crate::store::lemma_lookup_update(pre_buffers, bi as int, nb, 0u64);
            assert forall|b2: BufferId| b2 != bid implies lookup(self.buffers@, b2.0) == lookup(
                pre_buffers,
                b2.0,
            ) by {
                crate::store::lemma_lookup_update(pre_buffers, bi as int, nb, b2.0);
            }
        }
        self.set_message("undo");
        proof {
            reveal_strlit("undo");
        }
        self.align_active_window_scroll_to_cursor();
    }

    /// What redoing leaves behind, mirroring `undo_post`: the top redo
    /// entry's snapshots are replayed first to last, the cursor moves to the
    /// entry's `after_cursor`, and the entry returns to the undo stack.
    pub open spec fn redo_post(pre: AppState, post: AppState) -> bool {
        match pre.s_active_buffer_id() {
            None => AppState::only_message(pre, post) && post.status_bar.message@
                == "redo failed: no active buffer"@,
            Some(bid) => match pre.s_buf(bid) {
                None => AppState::only_message(pre, post) && post.status_bar.message@
                    == "redo failed: active buffer missing"@,
                Some(b) => {
                    if b.redo_stack@.len() == 0 {
                        AppState::only_message(pre, post) && post.status_bar.message@
                            == "redo: nothing to redo"@
                    } else {
                        let entry = b.redo_stack@.last();
                        if crate::history::redo_upto_ok(
                            b.text@,
                            entry.edits@,
                            entry.edits@.len() as int,
                        ) {
                            &&& post == (AppState {
                                buffers: post.buffers,
                                windows: post.windows,
                                status_bar: post.status_bar,
                                ..pre
                            })
                            &&& AppState::windows_scroll_frame(pre, post)
                            &&& AppState::active_scroll_only(pre, post)
                            &&& post.status_bar == (StatusBarState {
                                message: post.status_bar.message,
                                ..pre.status_bar
                            })
                            &&& post.status_bar.message@ == "redo"@
                            &&& post.s_buf(bid) is Some
                            &&& post.s_buf(bid).unwrap() == (BufferState {
                                text: post.s_buf(bid).unwrap().text,
                                cursor: entry.after_cursor,
                                dirty: true,
                                undo_stack: post.s_buf(bid).unwrap().undo_stack,
                                redo_stack: post.s_buf(bid).unwrap().redo_stack,
                                ..b
                            })
                            &&& post.s_buf(bid).unwrap().text@ == crate::history::redo_entry_text(
                                b.text@,
                                entry.edits@,
                            )
                            &&& post.s_buf(bid).unwrap().redo_stack@ == b.redo_stack@.drop_last()
                            &&& post.s_buf(bid).unwrap().undo_stack@ == AppState::pushed_capped(
                                b.undo_stack@,
                                entry,
                            )
                            &&& forall|b2: BufferId| b2 != bid ==> post.s_buf(b2) == pre.s_buf(b2)
                        } else {
                            AppState::only_message(pre, post) && post.status_bar.message@
                                == "redo failed: history out of step"@
                        }
                    }
                },
            },
        }
    }

    /// Replays the most recently undone history entry of the active buffer.
    /// With nothing to redo it reports so and changes nothing else.
    pub fn redo_active_buffer_edit(&mut self)
        ensures
            AppState::redo_post(*old(self), *final(self)),
    {
        broadcast use vstd::utf8::encode_utf8_decode_utf8;

        let bid = match self.active_buffer_id() {
            Some(b) => b,
            None => {
                self.set_message("redo failed: no active buffer");
                proof {
                    reveal_strlit("redo failed: no active buffer");
                }
                return ;
            },
        };
        let bi = match find_idx(&self.buffers, bid.0) {
            Some(i) => i,
            None => {
                self.set_message("redo failed: active buffer missing");
                proof {
                    reveal_strlit("redo failed: active buffer missing");
                }
                return ;
            },
        };
        let n_redo = self.buffers[bi].val.redo_stack.len();
        if n_redo == 0 {
            self.set_message("redo: nothing to redo");
            proof {
                reveal_strlit("redo: nothing to redo");
            }
            return ;
        }
        let ghost b0 = self.buffers@[bi as int].val;
        let ghost entry_g = b0.redo_stack@.last();
        let mut t = self.buffers[bi].val.text.clone();
        let n_edits = self.buffers[bi].val.redo_stack[n_redo - 1].edits.len();
        let mut i: usize = 0;
        while i < n_edits
            invariant
                *self == *old(self),
                Some(bid) == old(self).s_active_buffer_id(),
                bi < self.buffers@.len(),
                self.buffers@[bi as int].key == bid.0,
                old(self).s_buf(bid) == Some(b0),
                self.buffers@[bi as int].val == b0,
                b0.redo_stack@.len() == n_redo >= 1,
                entry_g == b0.redo_stack@.last(),
                n_edits == entry_g.edits@.len(),
                0 <= i <= n_edits,
                t@ == crate::history::redo_upto(b0.text@, entry_g.edits@, i as int),
                crate::history::redo_upto_ok(b0.text@, entry_g.edits@, i as int),
            decreases n_edits - i,
        {
            let ed_start = self.buffers[bi].val.redo_stack[n_redo - 1].edits[i].start_byte;
            let rem = self.buffers[bi].val.redo_stack[n_redo
                - 1].edits[i].deleted_text.as_str().as_bytes().len();
            let ghost tpre = t@;
            let ghost ed = entry_g.edits@[i as int];
            proof {
                broadcast use vstd::slice::axiom_spec_len;

                assert(rem == crate::text::byte_len(ed.deleted_text@));
            }
            let ok = {
                let b_ref = &self.buffers[bi];
                crate::text::replace_byte_range(
                    &mut t,
                    ed_start,
                    rem,
                    b_ref.val.redo_stack[n_redo - 1].edits[i].inserted_text.as_str(),
                )
            };
            if !ok {
                self.set_message("redo failed: history out of step");
                proof {
                    reveal_strlit("redo failed: history out of step");
                }
                proof {
                    assert(!crate::history::redo_applies(tpre, ed));
                    crate::history::lemma_redo_upto_ok_fails(
                        b0.text@,
                        entry_g.edits@,
                        i as int,
                        n_edits as int,
                    );
                }
                return ;
            }
            i = i + 1;
            proof {
                assert(crate::history::redo_applies(tpre, ed));
                assert(crate::text::bytes_of(t@) == crate::text::spec_replace_bytes(
                    tpre,
                    ed.start_byte as int,
                    crate::text::byte_len(ed.deleted_text@) as int,
                    ed.inserted_text@,
                ));
                vstd::utf8::encode_utf8_decode_utf8(t@);
                assert(crate::text::bytes_of(t@) == vstd::utf8::encode_utf8(t@));
                assert(t@ == crate::history::redo_text(tpre, ed));
                assert(t@ == crate::history::redo_upto(b0.text@, entry_g.edits@, i as int));
            }
        }
        let ghost pre_buffers = self.buffers@;
        let b = &mut self.buffers[bi];
        let entry = match b.val.redo_stack.pop() {
            Some(e) => e,
            None => {
                proof {
                    assert(false);
                }
                return ;
            },
        };
        b.val.text = t;
        b.val.cursor = entry.after_cursor;
        b.val.undo_stack.push(entry);
        if b.val.undo_stack.len() > MAX_HISTORY_ENTRIES {
            let _evicted = b.val.undo_stack.remove(0);
        }
        b.val.dirty = true;
        proof {
            let nb = final(b).val;
            assert(nb.redo_stack@ =~= b0.redo_stack@.drop_last());
            assert(nb.undo_stack@ =~= AppState::pushed_capped(b0.undo_stack@, entry_g));
            assert(self.buffers@ =~= pre_buffers.update(
                bi as int,
                Entry { key: bid.0, val: nb },
            ));
            crate::store::lemma_lookup_update(pre_buffers, bi as int, nb, 0u64);
            assert forall|b2: BufferId| b2 != bid implies lookup(self.buffers@, b2.0) == lookup(
                pre_buffers,
                b2.0,
            ) by {
                crate::store::lemma_lookup_update(pre_buffers, bi as int, nb, b2.0);
            }
        }
        self.set_message("redo");
        proof {
            reveal_strlit("redo");
        }
        self.align_active_window_scroll_to_cursor();
    }

    /// Whether any buffer holds unsaved changes.
    pub fn has_dirty_buffers(&self) -> (r: bool)
        ensures
            r == exists|i: int| 0 <= i < self.buffers@.len() && (#[trigger] self.buffers@[i].val.dirty),
    {
        let n = self.buffers.len();
        let mut i: usize = 0;
        while i < n
            invariant
                n == self.buffers@.len(),
                0 <= i <= n,
                forall|j: int| 0 <= j < i ==> !(#[trigger] self.buffers@[j].val.dirty),
            decreases n - i,
        {
            if self.buffers[i].val.dirty {
                return true;
            }
            i = i + 1;
        }
        false
    }

    /// Enters insert mode; the visual anchor is dropped and the status line
    /// shows the new mode.
    pub fn enter_insert_mode(&mut self)
        ensures
            *final(self) == (AppState {
                mode: EditorMode::Insert,
                visual_anchor: None,
                status_bar: final(self).status_bar,
                ..*old(self)
            }),
            final(self).status_bar == (StatusBarState {
                mode: final(self).status_bar.mode,
                ..old(self).status_bar
            }),
            final(self).status_bar.mode@ == "INSERT"@,
    {
        proof {
            reveal_strlit("INSERT");
        }
        self.mode = EditorMode::Insert;
        self.visual_anchor = None;
        self.status_bar.mode = String::from_str("INSERT");
    }

    /// Leaves insert mode for normal mode and clamps the cursor back into
    /// the navigable column range of its row.
    pub fn exit_insert_mode(&mut self)
        ensures
            *final(self) == (AppState {
                mode: EditorMode::Normal,
                visual_anchor: None,
                status_bar: final(self).status_bar,
                buffers: final(self).buffers,
                windows: final(self).windows,
                ..*old(self)
            }),
            final(self).status_bar == (StatusBarState {
                mode: final(self).status_bar.mode,
                ..old(self).status_bar
            }),
            final(self).status_bar.mode@ == "NORMAL"@,
            AppState::windows_scroll_frame(*old(self), *final(self)),
            old(self).s_active_buffer_id() matches Some(bid) ==> (old(self).s_buf(bid) is Some
                ==> final(self).s_buf(bid) == Some(
                BufferState {
                    cursor: CursorState {
                        row: old(self).s_active_cursor().row,
                        col: AppState::clamp_col(
                            old(self).s_active_cursor().col as int,
                            old(self).s_max_navigable_col_for_row(old(self).s_active_cursor().row),
                        ),
                    },
                    ..old(self).s_buf(bid).unwrap()
                },
            ) && (forall|b2: BufferId| b2 != bid ==> final(self).s_buf(b2) == old(self).s_buf(b2))),
            old(self).s_active_buffer() is None ==> final(self).buffers == old(self).buffers,
    {
        proof {
            reveal_strlit("NORMAL");
        }
        self.mode = EditorMode::Normal;
        self.visual_anchor = None;
        self.status_bar.mode = String::from_str("NORMAL");
        let ghost mid = *self;
        proof {
            assert(mid.s_active_buffer_id() == old(self).s_active_buffer_id());
            assert(mid.s_active_cursor() == old(self).s_active_cursor());
        }
        self.clamp_cursor_to_navigable_col();
        proof {
            assert(AppState::windows_scroll_frame(*old(self), *self)) by {
                assert(AppState::windows_scroll_frame(mid, *self));
                assert(mid.windows == old(self).windows);
            }
        }
    }

    /// Enters command mode with an empty command line.
    pub fn enter_command_mode(&mut self)
        ensures
            *final(self) == (AppState {
                mode: EditorMode::Command,
                visual_anchor: None,
                command_line: final(self).command_line,
                status_bar: final(self).status_bar,
                ..*old(self)
            }),
            final(self).command_line@ == Seq::<char>::empty(),
            final(self).status_bar == (StatusBarState {
                mode: final(self).status_bar.mode,
                ..old(self).status_bar
            }),
            final(self).status_bar.mode@ == "COMMAND"@,
    {
        proof {
            reveal_strlit("COMMAND");
        }
        self.mode = EditorMode::Command;
        self.visual_anchor = None;
        self.command_line = String::new();
        self.status_bar.mode = String::from_str("COMMAND");
    }

    /// Leaves command mode, discarding the command line.
    pub fn exit_command_mode(&mut self)
        ensures
            *final(self) == (AppState {
                mode: EditorMode::Normal,
                visual_anchor: None,
                command_line: final(self).command_line,
                status_bar: final(self).status_bar,
                ..*old(self)
            }),
            final(self).command_line@ == Seq::<char>::empty(),
            final(self).status_bar == (StatusBarState {
                mode: final(self).status_bar.mode,
                ..old(self).status_bar
            }),
            final(self).status_bar.mode@ == "NORMAL"@,
    {
        proof {
            reveal_strlit("NORMAL");
        }
        self.mode = EditorMode::Normal;
        self.visual_anchor = None;
        self.command_line = String::new();
        self.status_bar.mode = String::from_str("NORMAL");
    }

    /// Enters character-wise visual mode, anchoring the selection at the
    /// cursor.
    pub fn enter_visual_mode(&mut self)
        ensures
            *final(self) == (AppState {
                mode: EditorMode::VisualChar,
                visual_anchor: Some(old(self).s_active_cursor()),
                status_bar: final(self).status_bar,
                ..*old(self)
            }),
            final(self).status_bar == (StatusBarState {
                mode: final(self).status_bar.mode,
                ..old(self).status_bar
            }),
            final(self).status_bar.mode@ == "VISUAL"@,
    {
        proof {
            reveal_strlit("VISUAL");
        }
        let anchor = self.active_cursor();
        self.mode = EditorMode::VisualChar;
        self.visual_anchor = Some(anchor);
        self.status_bar.mode = String::from_str("VISUAL");
    }

    /// Enters line-wise visual mode: the anchor keeps its row but snaps to
    /// column one.
    pub fn enter_visual_line_mode(&mut self)
        ensures
            *final(self) == (AppState {
                mode: EditorMode::VisualLine,
                visual_anchor: final(self).visual_anchor,
                status_bar: final(self).status_bar,
                ..*old(self)
            }),
            final(self).visual_anchor == Some(
                CursorState {
                    row: match old(self).visual_anchor {
                        Some(a) => a.row,
                        None => old(self).s_active_cursor().row,
                    },
                    col: 1u16,
                },
            ),
            final(self).status_bar == (StatusBarState {
                mode: final(self).status_bar.mode,
                ..old(self).status_bar
            }),
            final(self).status_bar.mode@ == "VISUAL LINE"@,
    {
        proof {
            reveal_strlit("VISUAL LINE");
        }
        let anchor_row = match self.visual_anchor {
            Some(c) => c.row,
            None => self.active_cursor().row,
        };
        self.mode = EditorMode::VisualLine;
        self.visual_anchor = Some(CursorState { row: anchor_row, col: 1 });
        self.status_bar.mode = String::from_str("VISUAL LINE");
    }

    /// Leaves visual mode: the anchor is dropped.
    pub fn exit_visual_mode(&mut self)
        ensures
            *final(self) == (AppState {
                mode: EditorMode::Normal,
                visual_anchor: None,
                status_bar: final(self).status_bar,
                ..*old(self)
            }),
            final(self).status_bar == (StatusBarState {
                mode: final(self).status_bar.mode,
                ..old(self).status_bar
            }),
            final(self).status_bar.mode@ == "NORMAL"@,
    {
        proof {
            reveal_strlit("NORMAL");
        }
        self.mode = EditorMode::Normal;
        self.visual_anchor = None;
        self.status_bar.mode = String::from_str("NORMAL");
    }

    /// Appends one character to the command line.
    pub fn push_command_char(&mut self, ch: char)
        ensures
            *final(self) == (AppState { command_line: final(self).command_line, ..*old(self) }),
            final(self).command_line@ == old(self).command_line@.push(ch),
    {
        crate::strutil::push_char(&mut self.command_line, ch);
    }

    /// Removes the last character of the command line, if any.
    pub fn pop_command_char(&mut self)
        ensures
            *final(self) == (AppState { command_line: final(self).command_line, ..*old(self) }),
            old(self).command_line@.len() == 0 ==> final(self).command_line@ == old(
                self,
            ).command_line@,
            old(self).command_line@.len() > 0 ==> final(self).command_line@ == old(
                self,
            ).command_line@.drop_last(),
    {
        let n = self.command_line.as_str().unicode_len();
        if n > 0 {
            let t = String::from_str(self.command_line.as_str().substring_char(0, n - 1));
            proof {
                assert(t@ =~= self.command_line@.drop_last());
            }
            self.command_line = t;
        }
    }

    /// Takes the trimmed command line and leaves command mode.
    pub fn take_command_line(&mut self) -> (r: String)
        ensures
            r@ == crate::strutil::spec_trim(old(self).command_line@),
            final(self).mode == EditorMode::Normal,
            final(self).command_line@ == Seq::<char>::empty(),
            *final(self) == (AppState {
                mode: EditorMode::Normal,
                visual_anchor: None,
                command_line: final(self).command_line,
                status_bar: final(self).status_bar,
                ..*old(self)
            }),
            final(self).status_bar == (StatusBarState {
                mode: final(self).status_bar.mode,
                ..old(self).status_bar
            }),
            final(self).status_bar.mode@ == "NORMAL"@,
    {
        let command = crate::strutil::trim_both(self.command_line.as_str());
        self.exit_command_mode();
        command
    }

    /// Marks a buffer clean or dirty; unknown buffers are left alone.
    pub fn set_buffer_dirty(&mut self, buffer_id: BufferId, dirty: bool)
        ensures
            *final(self) == (AppState { buffers: final(self).buffers, ..*old(self) }),
            old(self).s_buf(buffer_id) matches Some(b) ==> final(self).s_buf(buffer_id) == Some(
                BufferState { dirty, ..b },
            ),
            old(self).s_buf(buffer_id) is None ==> final(self).buffers == old(self).buffers,
            forall|b2: BufferId| b2 != buffer_id ==> final(self).s_buf(b2) == old(self).s_buf(b2),
    {
        if let Some(bi) = find_idx(&self.buffers, buffer_id.0) {
            let ghost pre = self.buffers@;
            let b = &mut self.buffers[bi];
            b.val.dirty = dirty;
            proof {
                let nb = final(b).val;
                assert(self.buffers@ =~= pre.update(bi as int, Entry { key: buffer_id.0, val: nb }));
                crate::store::lemma_lookup_update(pre, bi as int, nb, 0u64);
                assert forall|b2: BufferId| b2 != buffer_id implies final(self).s_buf(b2) == old(
                    self,
                ).s_buf(b2) by {
                    crate::store::lemma_lookup_update(pre, bi as int, nb, b2.0);
                }
            }
        }
    }

    /// Marks a buffer as changed on disk behind the editor's back.
    pub fn set_buffer_externally_modified(&mut self, buffer_id: BufferId, externally_modified: bool)
        ensures
            *final(self) == (AppState { buffers: final(self).buffers, ..*old(self) }),
            old(self).s_buf(buffer_id) matches Some(b) ==> final(self).s_buf(buffer_id) == Some(
                BufferState { externally_modified, ..b },
            ),
            old(self).s_buf(buffer_id) is None ==> final(self).buffers == old(self).buffers,
            forall|b2: BufferId| b2 != buffer_id ==> final(self).s_buf(b2) == old(self).s_buf(b2),
    {
        if let Some(bi) = find_idx(&self.buffers, buffer_id.0) {
            let ghost pre = self.buffers@;
            let b = &mut self.buffers[bi];
            b.val.externally_modified = externally_modified;
            proof {
                let nb = final(b).val;
                assert(self.buffers@ =~= pre.update(bi as int, Entry { key: buffer_id.0, val: nb }));
                crate::store::lemma_lookup_update(pre, bi as int, nb, 0u64);
                assert forall|b2: BufferId| b2 != buffer_id implies final(self).s_buf(b2) == old(
                    self,
                ).s_buf(b2) by {
                    crate::store::lemma_lookup_update(pre, bi as int, nb, b2.0);
                }
            }
        }
    }

    /// Whether the active buffer was changed on disk behind the editor.
    pub fn active_buffer_is_externally_modified(&self) -> (r: Option<bool>)
        ensures
            r == match self.s_active_buffer() {
                Some(b) => Some(b.externally_modified),
                None => None::<bool>,
            },
    {
        let bid = match self.active_buffer_id() {
            Some(b) => b,
            None => {
                return None;
            },
        };
        match find_idx(&self.buffers, bid.0) {
            Some(i) => Some(self.buffers[i].val.externally_modified),
            None => None,
        }
    }

    /// Marks the active buffer dirty, if there is one.
    pub fn mark_active_buffer_dirty(&mut self)
        ensures
            *final(self) == (AppState { buffers: final(self).buffers, ..*old(self) }),
            old(self).s_active_buffer_id() matches Some(bid) ==> (old(self).s_buf(bid) is Some
                ==> final(self).s_buf(bid) == Some(
                BufferState { dirty: true, ..old(self).s_buf(bid).unwrap() },
            ) && (forall|b2: BufferId| b2 != bid ==> final(self).s_buf(b2) == old(self).s_buf(b2))),
            old(self).s_active_buffer() is None ==> final(self).buffers == old(self).buffers,
    {
        if let Some(bid) = self.active_buffer_id() {
            self.set_buffer_dirty(bid, true);
        }
    }

    /// Remembers a path to adopt once the save for this buffer completes.
    pub fn set_pending_save_path(&mut self, buffer_id: BufferId, path: Option<String>)
        ensures
            *final(self) == (AppState {
                pending_save_path: final(self).pending_save_path,
                ..*old(self)
            }),
            final(self).pending_save_path == match path {
                Some(p) => Some((buffer_id, p)),
                None => None::<(BufferId, String)>,
            },
    {
        self.pending_save_path = match path {
            Some(p) => Some((buffer_id, p)),
            None => None,
        };
    }

    /// Adopts the remembered save path once the save for this buffer
    /// completes: path and display name follow it.
    pub fn apply_pending_save_path_if_matches(&mut self, buffer_id: BufferId)
        ensures
            *final(self) == (AppState {
                buffers: final(self).buffers,
                pending_save_path: final(self).pending_save_path,
                ..*old(self)
            }),
            old(self).pending_save_path matches Some(p) ==> (p.0 == buffer_id
                ==> final(self).pending_save_path is None),
            (old(self).pending_save_path is None || old(self).pending_save_path.unwrap().0
                != buffer_id) ==> *final(self) == *old(self),
            old(self).s_buf(buffer_id) matches Some(b) ==> (final(self).s_buf(buffer_id) matches
                Some(nb) && nb == (BufferState { path: nb.path, name: nb.name, ..b })),
            forall|b2: BufferId| b2 != buffer_id ==> final(self).s_buf(b2) == old(self).s_buf(b2),
    {
        let (pending_id, path) = match &self.pending_save_path {
            Some(p) => (p.0, p.1.clone()),
            None => {
                return ;
            },
        };
        if pending_id != buffer_id {
            return ;
        }
        if let Some(bi) = find_idx(&self.buffers, buffer_id.0) {
            let name = buffer_name_from_path(path.as_str());
            let ghost pre = self.buffers@;
            let b = &mut self.buffers[bi];
            b.val.path = Some(path);
            match name {
                Some(n) => {
                    b.val.name = n;
                },
                None => {},
            }
            proof {
                let nb = final(b).val;
                assert(self.buffers@ =~= pre.update(bi as int, Entry { key: buffer_id.0, val: nb }));
                crate::store::lemma_lookup_update(pre, bi as int, nb, 0u64);
                assert forall|b2: BufferId| b2 != buffer_id implies lookup(self.buffers@, b2.0)
                    == lookup(pre, b2.0) by {
                    crate::store::lemma_lookup_update(pre, bi as int, nb, b2.0);
                }
            }
        }
        self.pending_save_path = None;
    }

    /// Forgets the remembered save path if it belongs to this buffer.
    pub fn clear_pending_save_path_if_matches(&mut self, buffer_id: BufferId)
        ensures
            *final(self) == (AppState {
                pending_save_path: final(self).pending_save_path,
                ..*old(self)
            }),
            old(self).pending_save_path matches Some(p) ==> (p.0 == buffer_id
                ==> final(self).pending_save_path is None),
            (old(self).pending_save_path is None || old(self).pending_save_path.unwrap().0
                != buffer_id) ==> final(self).pending_save_path == old(self).pending_save_path,
    {
        let clear = match &self.pending_save_path {
            Some(p) => p.0 == buffer_id,
            None => false,
        };
        if clear {
            self.pending_save_path = None;
        }
    }

    /// What the active buffer's save needs: its id, target path and text.
    /// Reports which piece is missing.
    pub fn active_buffer_save_snapshot(&self, path_override: Option<String>) -> (r: Result<
        (BufferId, String, String),
        &'static str,
    >)
        ensures
            r is Err <==> (self.s_active_buffer() is None || (path_override is None
                && self.s_active_buffer().unwrap().path is None)),
            r matches Err(m) ==> (self.s_active_buffer_id() is None ==> m@
                == "no active buffer"@),
            r matches Err(m) ==> (self.s_active_buffer_id() is Some && self.s_active_buffer()
                is None ==> m@ == "active buffer missing"@),
            r matches Err(m) ==> (self.s_active_buffer() is Some ==> m@
                == "buffer has no file path"@),
            r matches Ok(s) ==> Some(s.0) == self.s_active_buffer_id() && s.2@ == self.s_active_text()
                && (path_override matches Some(p) ==> s.1 == p) && (path_override is None
                ==> Some(s.1) == self.s_active_buffer().unwrap().path),
    {
        proof {
            reveal_strlit("no active buffer");
            reveal_strlit("active buffer missing");
            reveal_strlit("buffer has no file path");
        }
        let bid = match self.active_buffer_id() {
            Some(b) => b,
            None => {
                return Err("no active buffer");
            },
        };
        let bi = match find_idx(&self.buffers, bid.0) {
            Some(i) => i,
            None => {
                return Err("active buffer missing");
            },
        };
        let path = match path_override {
            Some(p) => p,
            None => match &self.buffers[bi].val.path {
                Some(p) => p.clone(),
                None => {
                    return Err("buffer has no file path");
                },
            },
        };
        Ok((bid, path, self.buffers[bi].val.text.clone()))
    }

    /// Where a reload of the active buffer would come from.
    pub fn active_buffer_load_target(&self) -> (r: Result<(BufferId, String), &'static str>)
        ensures
            r matches Ok(s) ==> Some(s.0) == self.s_active_buffer_id() && self.s_active_buffer()
                is Some && Some(s.1) == self.s_active_buffer().unwrap().path,
            r is Err <==> self.s_active_buffer() is None || self.s_active_buffer().unwrap().path is None,
    {
        proof {
            reveal_strlit("no active buffer");
            reveal_strlit("active buffer missing");
            reveal_strlit("buffer has no file path");
        }
        let bid = match self.active_buffer_id() {
            Some(b) => b,
            None => {
                return Err("no active buffer");
            },
        };
        let bi = match find_idx(&self.buffers, bid.0) {
            Some(i) => i,
            None => {
                return Err("active buffer missing");
            },
        };
        match &self.buffers[bi].val.path {
            Some(p) => Ok((bid, p.clone())),
            None => Err("buffer has no file path"),
        }
    }

    /// Whether the active buffer has a file path.
    pub fn active_buffer_has_path(&self) -> (r: Option<bool>)
        ensures
            r == match self.s_active_buffer() {
                Some(b) => Some(b.path is Some),
                None => None::<bool>,
            },
    {
        let bid = match self.active_buffer_id() {
            Some(b) => b,
            None => {
                return None;
            },
        };
        match find_idx(&self.buffers, bid.0) {
            Some(i) => Some(self.buffers[i].val.path.is_some()),
            None => None,
        }
    }

    /// Save snapshots of every buffer that has a path, in store order, and
    /// how many buffers were skipped for want of one.
    pub fn all_buffer_save_snapshots(&self) -> (r: (Vec<(BufferId, String, String)>, usize))
        ensures
            r.1 <= self.buffers@.len(),
            r.0@.len() + r.1 == self.buffers@.len(),
            forall|i: int|
                0 <= i < r.0@.len() ==> lookup(self.buffers@, (#[trigger] r.0@[i]).0.0) is Some,
    {
        let mut snapshots: Vec<(BufferId, String, String)> = Vec::new();
        let mut missing: usize = 0;
        let n = self.buffers.len();
        let mut i: usize = 0;
        while i < n
            invariant
                n == self.buffers@.len(),
                0 <= i <= n,
                snapshots@.len() + missing == i,
                forall|k: int|
                    0 <= k < snapshots@.len() ==> lookup(
                        self.buffers@,
                        (#[trigger] snapshots@[k]).0.0,
                    ) is Some,
            decreases n - i,
        {
            let e_key = self.buffers[i].key;
            let has = match find_idx(&self.buffers, e_key) {
                Some(_) => true,
                None => false,
            };
            let has_path = self.buffers[i].val.path.is_some();
            if has && has_path {
                let p = match &self.buffers[i].val.path {
                    Some(p) => p.clone(),
                    None => String::new(),
                };
                snapshots.push((BufferId(e_key), p, self.buffers[i].val.text.clone()));
            } else {
                missing = missing + 1;
            }
            i = i + 1;
        }
        (snapshots, missing)
    }

    /// The stored buffer with this path, if any.
    pub fn find_buffer_by_path(&self, path: &str) -> (r: Option<BufferId>)
        ensures
            r matches Some(bid) ==> self.s_buf(bid) is Some && self.s_buf(bid).unwrap().path
                is Some && self.s_buf(bid).unwrap().path.unwrap()@ == path@,
    {
        let n = self.buffers.len();
        let mut i: usize = 0;
        while i < n
            invariant
                n == self.buffers@.len(),
                0 <= i <= n,
            decreases n - i,
        {
            let matched = match &self.buffers[i].val.path {
                Some(p) => crate::strutil::str_eq(p.as_str(), path),
                None => false,
            };
            if matched {
                let bid = BufferId(self.buffers[i].key);
                if let Some(j) = find_idx(&self.buffers, bid.0) {
                    let same = match &self.buffers[j].val.path {
                        Some(p) => crate::strutil::str_eq(p.as_str(), path),
                        None => false,
                    };
                    if same {
                        return Some(bid);
                    }
                }
                return None;
            }
            i = i + 1;
        }
        None
    }

    /// The cursor's place in the file as the status line shows it:
    /// "Top", "Bot", or a percentage.
    pub open spec fn spec_progress_text(row: u16, total: int) -> Seq<char> {
        if row <= 1 {
            "Top"@
        } else if row >= total {
            "Bot"@
        } else {
            crate::strutil::dec_str(row * 100 / total) + "%"@
        }
    }

    /// The status line: mode, message and pending chord around the cursor
    /// position and its place in the file; command mode shows the command
    /// line being typed instead.
    pub fn status_line(&self) -> (r: String)
        ensures
            ({
                let cursor = self.s_active_cursor();
                let total = if self.s_max_row() > u16::MAX {
                    u16::MAX as int
                } else {
                    self.s_max_row()
                };
                let cursor_pos = crate::strutil::dec_str(cursor.row as int) + ":"@
                    + crate::strutil::dec_str(cursor.col as int) + " "@
                    + AppState::spec_progress_text(cursor.row, total);
                if self.mode == EditorMode::Command {
                    r@ == ":"@ + self.command_line@ + " | "@ + cursor_pos
                } else if self.status_bar.key_sequence@.len() == 0 {
                    r@ == self.status_bar.mode@ + " | "@ + self.status_bar.message@ + " | "@
                        + cursor_pos
                } else {
                    r@ == self.status_bar.mode@ + " | "@ + self.status_bar.message@ + " | keys "@
                        + self.status_bar.key_sequence@ + " | "@ + cursor_pos
                }
            }),
    {
        proof {
            reveal_strlit(":");
            reveal_strlit(" ");
            reveal_strlit(" | ");
            reveal_strlit(" | keys ");
            reveal_strlit("Top");
            reveal_strlit("Bot");
            reveal_strlit("%");
        }
        let cursor = self.active_cursor();
        let total = self.max_row();
        let mut progress = String::new();
        if cursor.row <= 1 {
            progress.append("Top");
        } else if cursor.row >= total {
            progress.append("Bot");
        } else {
            let percent = (cursor.row as u32) * 100 / (total as u32);
            progress.append(crate::strutil::u64_to_string(percent as u64).as_str());
            progress.append("%");
            proof {
                assert(percent as int == cursor.row * 100 / (total as int));
            }
        }
        let mut cursor_pos = String::new();
        cursor_pos.append(crate::strutil::u64_to_string(cursor.row as u64).as_str());
        cursor_pos.append(":");
        cursor_pos.append(crate::strutil::u64_to_string(cursor.col as u64).as_str());
        cursor_pos.append(" ");
        cursor_pos.append(progress.as_str());
        if self.is_command_mode() {
            let mut r = String::new();
            r.append(":");
            r.append(self.command_line.as_str());
            r.append(" | ");
            r.append(cursor_pos.as_str());
            return r;
        }
        if self.status_bar.key_sequence.as_str().unicode_len() == 0 {
            let mut r = String::new();
            r.append(self.status_bar.mode.as_str());
            r.append(" | ");
            r.append(self.status_bar.message.as_str());
            r.append(" | ");
            r.append(cursor_pos.as_str());
            return r;
        }
        let mut r = String::new();
        r.append(self.status_bar.mode.as_str());
        r.append(" | ");
        r.append(self.status_bar.message.as_str());
        r.append(" | keys ");
        r.append(self.status_bar.key_sequence.as_str());
        r.append(" | ");
        r.append(cursor_pos.as_str());
        r
    }
}


/// The display name of a file path: what follows the last separator.
pub fn buffer_name_from_path(path: &str) -> (r: Option<String>)
{
    let n = path.unicode_len();
    if n == 0 {
        return None;
    }
    let mut cut: usize = 0;
    let mut i: usize = 0;
    while i < n
        invariant
            n == path@.len(),
            0 <= cut <= i <= n,
        decreases n - i,
    {
        if path.get_char(i) == '/' {
            cut = i + 1;
        }
        i = i + 1;
    }
    if cut >= n {
        return None;
    }
    Some(String::from_str(path.substring_char(cut, n)))
}

/// Reverses one recorded text delta: the bytes where `inserted_text` stands
/// become `deleted_text`. Leaves the text alone if the range does not fall
/// on character boundaries.
pub fn apply_text_delta_undo(text: &mut String, delta: &BufferEditSnapshot)
    ensures
        crate::history::undo_applies(old(text)@, *delta) ==> final(text)@
            == crate::history::undo_text(old(text)@, *delta),
        !crate::history::undo_applies(old(text)@, *delta) ==> final(text)@ == old(text)@,
{
    proof {
        broadcast use vstd::slice::axiom_spec_len;
        broadcast use vstd::utf8::encode_utf8_decode_utf8;
    }
    let rem = delta.inserted_text.as_str().as_bytes().len();
    let ok = crate::text::replace_byte_range(
        text,
        delta.start_byte,
        rem,
        delta.deleted_text.as_str(),
    );
    proof {
        if ok {
            vstd::utf8::encode_utf8_decode_utf8(text@);
            assert(crate::text::bytes_of(text@) == vstd::utf8::encode_utf8(text@));
        }
    }
}

/// Replays one recorded text delta: the bytes where `deleted_text` stands
/// become `inserted_text`. Leaves the text alone if the range does not fall
/// on character boundaries.
pub fn apply_text_delta_redo(text: &mut String, delta: &BufferEditSnapshot)
    ensures
        crate::history::redo_applies(old(text)@, *delta) ==> final(text)@
            == crate::history::redo_text(old(text)@, *delta),
        !crate::history::redo_applies(old(text)@, *delta) ==> final(text)@ == old(text)@,
{
    proof {
        broadcast use vstd::slice::axiom_spec_len;
        broadcast use vstd::utf8::encode_utf8_decode_utf8;
    }
    let rem = delta.deleted_text.as_str().as_bytes().len();
    let ok = crate::text::replace_byte_range(
        text,
        delta.start_byte,
        rem,
        delta.inserted_text.as_str(),
    );
    proof {
        if ok {
            vstd::utf8::encode_utf8_decode_utf8(text@);
            assert(crate::text::bytes_of(text@) == vstd::utf8::encode_utf8(text@));
        }
    }
}

} // verus!
