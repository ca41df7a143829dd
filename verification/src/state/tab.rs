//! Tabs: an ordered set of window groups addressed by numeric id.

use vstd::prelude::*;
use vstd::string::StrSliceExecFns;

use crate::state::AppState;
use crate::state::TabId;
use crate::state::TabState;
use crate::state::WindowId;
use crate::store::Entry;
use crate::store::find_idx;
use crate::store::lookup;

verus! {

impl AppState {
    /// Opens a tab right after the active one: later tab ids shift up by
    /// one and the new tab takes the next id, showing a fresh untitled
    /// buffer in a fresh window.
    pub fn open_new_tab(&mut self) -> (r: TabId)
        ensures
            final(self).status_bar.message@ == "new tab"@,
    {
        let tab_id = self.insert_tab_after_active();
        self.switch_tab(tab_id);
        self.status_bar.message = String::from_str("new tab");
        proof {
            reveal_strlit("new tab");
        }
        tab_id
    }

    /// Removes a tab; the last tab stays. When the active tab goes, the
    /// nearest lower tab (or else the nearest higher) becomes active, and
    /// ids above the removed one compact down by one.
    pub fn remove_tab(&mut self, tab_id: TabId)
        ensures
            old(self).tabs@.len() <= 1 ==> *final(self) == *old(self),
            old(self).s_tab(tab_id) is None ==> *final(self) == *old(self),
    {
        if self.tabs.len() <= 1 {
            return ;
        }
        let ti = match find_idx(&self.tabs, tab_id.0) {
            Some(i) => i,
            None => {
                return ;
            },
        };
        if self.active_tab == tab_id {
            let mut best_below: Option<u64> = None;
            let mut best_above: Option<u64> = None;
            let n = self.tabs.len();
            let mut i: usize = 0;
            while i < n
                invariant
                    n == self.tabs@.len(),
                    0 <= i <= n,
                decreases n - i,
            {
                let k = self.tabs[i].key;
                if k != tab_id.0 {
                    if k < tab_id.0 {
                        best_below = match best_below {
                            Some(b) => {
                                if k > b {
                                    Some(k)
                                } else {
                                    Some(b)
                                }
                            },
                            None => Some(k),
                        };
                    } else {
                        best_above = match best_above {
                            Some(b) => {
                                if k < b {
                                    Some(k)
                                } else {
                                    Some(b)
                                }
                            },
                            None => Some(k),
                        };
                    }
                }
                i = i + 1;
            }
            match best_below {
                Some(k) => {
                    self.active_tab = TabId(k);
                },
                None => match best_above {
                    Some(k) => {
                        self.active_tab = TabId(k);
                    },
                    None => {},
                },
            }
        }
        if let Some(ti2) = find_idx(&self.tabs, tab_id.0) {
            let _removed = self.tabs.remove(ti2);
        }
        self.compact_tab_ids_after(tab_id);
    }

    /// Makes the tab active, if it exists.
    pub fn switch_tab(&mut self, tab_id: TabId)
        ensures
            *final(self) == (AppState { active_tab: final(self).active_tab, ..*old(self) }),
            old(self).s_tab(tab_id) is Some ==> final(self).active_tab == tab_id,
            old(self).s_tab(tab_id) is None ==> final(self).active_tab == old(self).active_tab,
    {
        match find_idx(&self.tabs, tab_id.0) {
            Some(_) => {
                self.active_tab = tab_id;
            },
            None => {},
        }
    }

    /// The window ids of the active tab, in their split order.
    pub fn active_tab_window_ids(&self) -> (r: Vec<WindowId>)
        ensures
            self.s_tab(self.active_tab) matches Some(t) ==> r@ == t.windows@,
            self.s_tab(self.active_tab) is None ==> r@.len() == 0,
    {
        let mut out: Vec<WindowId> = Vec::new();
        match find_idx(&self.tabs, self.active_tab.0) {
            Some(i) => {
                let src_ids = &self.tabs[i].val.windows;
                let n = src_ids.len();
                let mut j: usize = 0;
                while j < n
                    invariant
                        n == src_ids@.len(),
                        0 <= j <= n,
                        out@ =~= src_ids@.take(j as int),
                    decreases n - j,
                {
                    out.push(src_ids[j]);
                    proof {
                        assert(out@ =~= src_ids@.take(j + 1));
                    }
                    j = j + 1;
                }
                proof {
                    assert(src_ids@.take(n as int) =~= src_ids@);
                }
            },
            None => {},
        }
        out
    }

    /// Closes the active tab; the last tab stays.
    pub fn close_current_tab(&mut self)
        ensures
            old(self).tabs@.len() <= 1 ==> *final(self) == *old(self),
            old(self).tabs@.len() > 1 && old(self).s_tab(old(self).active_tab) is Some
                ==> final(self).status_bar.message@ == "tab closed"@,
    {
        if self.tabs.len() <= 1 {
            return ;
        }
        let current_tab = self.active_tab;
        if let Some(_i) = find_idx(&self.tabs, current_tab.0) {
            self.remove_tab(current_tab);
            self.status_bar.message = String::from_str("tab closed");
            proof {
                reveal_strlit("tab closed");
            }
        }
    }

    /// Activates the nearest tab with a lower id, if any.
    pub fn switch_to_prev_tab(&mut self)
        ensures
            *final(self) == (AppState { active_tab: final(self).active_tab, ..*old(self) }),
    {
        let current = self.active_tab;
        let mut best: Option<u64> = None;
        let n = self.tabs.len();
        let mut i: usize = 0;
        while i < n
            invariant
                n == self.tabs@.len(),
                0 <= i <= n,
            decreases n - i,
        {
            let k = self.tabs[i].key;
            if k < current.0 {
                best = match best {
                    Some(b) => {
                        if k > b {
                            Some(k)
                        } else {
                            Some(b)
                        }
                    },
                    None => Some(k),
                };
            }
            i = i + 1;
        }
        match best {
            Some(k) => {
                self.switch_tab(TabId(k));
            },
            None => {},
        }
    }

    /// Activates the nearest tab with a higher id, if any.
    pub fn switch_to_next_tab(&mut self)
        ensures
            *final(self) == (AppState { active_tab: final(self).active_tab, ..*old(self) }),
    {
        let current = self.active_tab;
        let mut best: Option<u64> = None;
        let n = self.tabs.len();
        let mut i: usize = 0;
        while i < n
            invariant
                n == self.tabs@.len(),
                0 <= i <= n,
            decreases n - i,
        {
            let k = self.tabs[i].key;
            if k > current.0 {
                best = match best {
                    Some(b) => {
                        if k < b {
                            Some(k)
                        } else {
                            Some(b)
                        }
                    },
                    None => Some(k),
                };
            }
            i = i + 1;
        }
        match best {
            Some(k) => {
                self.switch_tab(TabId(k));
            },
            None => {},
        }
    }

    /// Creates the new tab after the active one, shifting later ids up.
    fn insert_tab_after_active(&mut self) -> (r: TabId)
    {
        let current = self.active_tab.0;
        let new_id = TabId(current.saturating_add(1));
        let buffer_id = self.create_buffer(None, String::new());
        let window_id = match self.create_window(Some(buffer_id)) {
            Some(w) => w,
            None => WindowId(0),
        };
        let mut rebuilt: Vec<Entry<TabState>> = Vec::new();
        let n = self.tabs.len();
        let mut i: usize = 0;
        while i < n
            invariant
                n == self.tabs@.len(),
                0 <= i <= n,
            decreases n - i,
        {
            let e = &self.tabs[i];
            let target = if e.key > current {
                e.key.saturating_add(1)
            } else {
                e.key
            };
            rebuilt.push(Entry { key: target, val: e.val.clone() });
            i = i + 1;
        }
        let mut tw: Vec<WindowId> = Vec::new();
        tw.push(window_id);
        rebuilt.push(
            Entry { key: new_id.0, val: TabState { windows: tw, active_window: window_id } },
        );
        self.tabs = rebuilt;
        new_id
    }

    /// Compacts tab ids: every id above the removed one moves down by one.
    fn compact_tab_ids_after(&mut self, removed: TabId)
    {
        let mut rebuilt: Vec<Entry<TabState>> = Vec::new();
        let n = self.tabs.len();
        let mut i: usize = 0;
        while i < n
            invariant
                n == self.tabs@.len(),
                0 <= i <= n,
            decreases n - i,
        {
            let e = &self.tabs[i];
            let target = if e.key > removed.0 {
                e.key.saturating_sub(1)
            } else {
                e.key
            };
            rebuilt.push(Entry { key: target, val: e.val.clone() });
            i = i + 1;
        }
        if self.active_tab.0 > removed.0 {
            self.active_tab = TabId(self.active_tab.0.saturating_sub(1));
        }
        self.tabs = rebuilt;
    }
}

} // verus!
