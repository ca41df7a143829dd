//! Window focus, splitting, closing and layout geometry.

use vstd::prelude::*;
use vstd::string::StrSliceExecFns;

use crate::state::AppState;
use crate::state::BufferId;
use crate::state::FocusDirection;
use crate::state::SplitAxis;
use crate::state::TabState;
use crate::state::WindowId;
use crate::state::StatusBarState;
use crate::state::WindowState;
use crate::store::Entry;
use crate::store::find_idx;
use crate::store::lookup;

verus! {

/// Length of the overlap of the spans `[a_start, a_start + a_len)` and
/// `[b_start, b_start + b_len)`, ends saturated to the u16 range.
pub open spec fn spec_overlap_len(a_start: u16, a_len: u16, b_start: u16, b_len: u16) -> int {
    let a_end: int = if a_start + a_len > u16::MAX {
        u16::MAX as int
    } else {
        a_start + a_len
    };
    let b_end: int = if b_start + b_len > u16::MAX {
        u16::MAX as int
    } else {
        b_start + b_len
    };
    let start: int = if a_start > b_start {
        a_start as int
    } else {
        b_start as int
    };
    let end: int = if a_end < b_end {
        a_end
    } else {
        b_end
    };
    if end > start {
        end - start
    } else {
        0
    }
}

/// Length of the overlap of two spans.
pub fn overlap_len(a_start: u16, a_len: u16, b_start: u16, b_len: u16) -> (r: u16)
    ensures
        r == spec_overlap_len(a_start, a_len, b_start, b_len),
{
    let a_end = a_start.saturating_add(a_len);
    let b_end = b_start.saturating_add(b_len);
    let start = if a_start > b_start {
        a_start
    } else {
        b_start
    };
    let end = if a_end < b_end {
        a_end
    } else {
        b_end
    };
    end.saturating_sub(start)
}

/// Whether the group's vertical spans, walked in order, cover the closed
/// window's full height without a gap, starting from `cursor`.
pub open spec fn spec_vertical_cover_from(
    group: Seq<(WindowId, WindowState)>,
    i: int,
    cursor: int,
    end: int,
) -> bool
    decreases group.len() - i,
{
    if cursor >= end {
        true
    } else if i < 0 || i >= group.len() {
        false
    } else if group[i].1.y > cursor {
        false
    } else {
        let w_end: int = if group[i].1.y + group[i].1.height > u16::MAX {
            u16::MAX as int
        } else {
            group[i].1.y + group[i].1.height
        };
        spec_vertical_cover_from(
            group,
            i + 1,
            if w_end > cursor {
                w_end
            } else {
                cursor
            },
            end,
        )
    }
}

/// Whether the group's vertical spans cover the closed window's height.
pub fn is_full_vertical_cover(group: &Vec<(WindowId, WindowState)>, closed: &WindowState) -> (r:
    bool)
    ensures
        r == spec_vertical_cover_from(
            group@,
            0,
            closed.y as int,
            if closed.y + closed.height > u16::MAX {
                u16::MAX as int
            } else {
                closed.y + closed.height
            },
        ),
{
    let mut cursor = closed.y;
    let end = closed.y.saturating_add(closed.height);
    proof {
        assert(end as int == if closed.y + closed.height > u16::MAX {
            u16::MAX as int
        } else {
            closed.y + closed.height
        });
    }
    if cursor >= end {
        return true;
    }
    let n = group.len();
    let mut i: usize = 0;
    while i < n
        invariant
            n == group@.len(),
            0 <= i <= n,
            end as int == (if closed.y + closed.height > u16::MAX {
                u16::MAX as int
            } else {
                closed.y + closed.height
            }),
            spec_vertical_cover_from(group@, 0, closed.y as int, end as int)
                == spec_vertical_cover_from(group@, i as int, cursor as int, end as int),
            cursor < end,
        decreases n - i,
    {
        let w = &group[i].1;
        if w.y > cursor {
            proof {
                assert(!spec_vertical_cover_from(group@, i as int, cursor as int, end as int));
            }
            return false;
        }
        let w_end = w.y.saturating_add(w.height);
        let next_cursor = if w_end > cursor {
            w_end
        } else {
            cursor
        };
        proof {
            assert(spec_vertical_cover_from(group@, i as int, cursor as int, end as int)
                == spec_vertical_cover_from(group@, i + 1, next_cursor as int, end as int));
        }
        i = i + 1;
        if next_cursor >= end {
            proof {
                assert(spec_vertical_cover_from(group@, i as int, next_cursor as int, end as int));
            }
            return true;
        }
        cursor = next_cursor;
    }
    proof {
        assert(!spec_vertical_cover_from(group@, n as int, cursor as int, end as int));
    }
    false
}

/// Whether the group's horizontal spans cover the closed window's width,
/// starting from `cursor`.
pub open spec fn spec_horizontal_cover_from(
    group: Seq<(WindowId, WindowState)>,
    i: int,
    cursor: int,
    end: int,
) -> bool
    decreases group.len() - i,
{
    if cursor >= end {
        true
    } else if i < 0 || i >= group.len() {
        false
    } else if group[i].1.x > cursor {
        false
    } else {
        let w_end: int = if group[i].1.x + group[i].1.width > u16::MAX {
            u16::MAX as int
        } else {
            group[i].1.x + group[i].1.width
        };
        spec_horizontal_cover_from(
            group,
            i + 1,
            if w_end > cursor {
                w_end
            } else {
                cursor
            },
            end,
        )
    }
}

/// Whether the group's horizontal spans cover the closed window's width.
pub fn is_full_horizontal_cover(group: &Vec<(WindowId, WindowState)>, closed: &WindowState) -> (r:
    bool)
    ensures
        r == spec_horizontal_cover_from(
            group@,
            0,
            closed.x as int,
            if closed.x + closed.width > u16::MAX {
                u16::MAX as int
            } else {
                closed.x + closed.width
            },
        ),
{
    let mut cursor = closed.x;
    let end = closed.x.saturating_add(closed.width);
    proof {
        assert(end as int == if closed.x + closed.width > u16::MAX {
            u16::MAX as int
        } else {
            closed.x + closed.width
        });
    }
    if cursor >= end {
        return true;
    }
    let n = group.len();
    let mut i: usize = 0;
    while i < n
        invariant
            n == group@.len(),
            0 <= i <= n,
            end as int == (if closed.x + closed.width > u16::MAX {
                u16::MAX as int
            } else {
                closed.x + closed.width
            }),
            spec_horizontal_cover_from(group@, 0, closed.x as int, end as int)
                == spec_horizontal_cover_from(group@, i as int, cursor as int, end as int),
            cursor < end,
        decreases n - i,
    {
        let w = &group[i].1;
        if w.x > cursor {
            proof {
                assert(!spec_horizontal_cover_from(group@, i as int, cursor as int, end as int));
            }
            return false;
        }
        let w_end = w.x.saturating_add(w.width);
        let next_cursor = if w_end > cursor {
            w_end
        } else {
            cursor
        };
        proof {
            assert(spec_horizontal_cover_from(group@, i as int, cursor as int, end as int)
                == spec_horizontal_cover_from(group@, i + 1, next_cursor as int, end as int));
        }
        i = i + 1;
        if next_cursor >= end {
            proof {
                assert(spec_horizontal_cover_from(group@, i as int, next_cursor as int, end as int));
            }
            return true;
        }
        cursor = next_cursor;
    }
    proof {
        assert(!spec_horizontal_cover_from(group@, n as int, cursor as int, end as int));
    }
    false
}

/// The two window rectangles a split produces: side by side for a
/// horizontal split, stacked for a vertical one; the first keeps the
/// origin.
pub fn split_window_layout(window: &WindowState, axis: SplitAxis) -> (r: (
    WindowState,
    WindowState,
))
    ensures
        axis == SplitAxis::Horizontal ==> ({
            let base_w: int = if window.width < 1 {
                1
            } else {
                window.width as int
            };
            let base_h: int = if window.height < 1 {
                1
            } else {
                window.height as int
            };
            let left_w: int = if base_w / 2 < 1 {
                1
            } else {
                base_w / 2
            };
            let right_w: int = if base_w - left_w < 1 {
                1
            } else {
                base_w - left_w
            };
            r.0 == (WindowState { width: left_w as u16, height: base_h as u16, ..*window })
                && r.1 == (WindowState {
                x: (if window.x + left_w > u16::MAX {
                    u16::MAX as int
                } else {
                    window.x + left_w
                }) as u16,
                width: right_w as u16,
                height: base_h as u16,
                ..*window
            })
        }),
        axis == SplitAxis::Vertical ==> ({
            let base_w: int = if window.width < 1 {
                1
            } else {
                window.width as int
            };
            let base_h: int = if window.height < 1 {
                1
            } else {
                window.height as int
            };
            let top_h: int = if base_h / 2 < 1 {
                1
            } else {
                base_h / 2
            };
            let bottom_h: int = if base_h - top_h < 1 {
                1
            } else {
                base_h - top_h
            };
            r.0 == (WindowState { width: base_w as u16, height: top_h as u16, ..*window })
                && r.1 == (WindowState {
                y: (if window.y + top_h > u16::MAX {
                    u16::MAX as int
                } else {
                    window.y + top_h
                }) as u16,
                width: base_w as u16,
                height: bottom_h as u16,
                ..*window
            })
        }),
{
    let mut first = *window;
    let mut second = *window;
    let base_width = if window.width < 1 {
        1
    } else {
        window.width
    };
    let base_height = if window.height < 1 {
        1
    } else {
        window.height
    };
    match axis {
        SplitAxis::Horizontal => {
            let half = base_width / 2;
            let left_w = if half < 1 {
                1
            } else {
                half
            };
            let rw = base_width - left_w;
            let right_w = if rw < 1 {
                1
            } else {
                rw
            };
            first.width = left_w;
            first.height = base_height;
            second.x = window.x.saturating_add(left_w);
            second.width = right_w;
            second.height = base_height;
        },
        SplitAxis::Vertical => {
            let half = base_height / 2;
            let top_h = if half < 1 {
                1
            } else {
                half
            };
            let bh = base_height - top_h;
            let bottom_h = if bh < 1 {
                1
            } else {
                bh
            };
            first.width = base_width;
            first.height = top_h;
            second.width = base_width;
            second.y = window.y.saturating_add(top_h);
            second.height = bottom_h;
        },
    }
    (first, second)
}

impl AppState {
    /// Creates a window, optionally showing a buffer; refuses an unknown
    /// buffer.
    pub fn create_window(&mut self, buffer_id: Option<BufferId>) -> (r: Option<WindowId>)
        ensures
            buffer_id matches Some(b) ==> (old(self).s_buf(b) is None ==> r is None && *final(self)
                == *old(self)),
            r is Some ==> *final(self) == (AppState {
                windows: final(self).windows,
                next_window_id: final(self).next_window_id,
                ..*old(self)
            }),
    {
        match buffer_id {
            Some(b) => {
                if find_idx(&self.buffers, b.0).is_none() {
                    return None;
                }
            },
            None => {},
        }
        let id = WindowId(self.next_window_id);
        let w = WindowState { buffer_id, ..WindowState::default() };
        self.windows.push(Entry { key: id.0, val: w });
        self.next_window_id = self.next_window_id.saturating_add(1);
        Some(id)
    }

    /// Focuses the nearest window in the given direction, judged by edge
    /// distance and centre alignment; stays put when none lies there.
    pub fn focus_window(&mut self, direction: FocusDirection)
        ensures
            *final(self) == (AppState { tabs: final(self).tabs, ..*old(self) }),
    {
        let ti = match find_idx(&self.tabs, self.active_tab.0) {
            Some(i) => i,
            None => {
                return ;
            },
        };
        let active_id = self.tabs[ti].val.active_window;
        let active = match find_idx(&self.windows, active_id.0) {
            Some(wi) => self.windows[wi].val,
            None => {
                return ;
            },
        };
        let active_left = active.x as i32;
        let active_right = active.x.saturating_add(active.width) as i32;
        let active_top = active.y as i32;
        let active_bottom = active.y.saturating_add(active.height) as i32;
        let active_cx = active_left + (active_right - active_left) / 2;
        let active_cy = active_top + (active_bottom - active_top) / 2;
        let candidate_ids = self.tabs[ti].val.windows.clone();
        let mut best: Option<(WindowId, i32, i32)> = None;
        let n = candidate_ids.len();
        let mut i: usize = 0;
        while i < n
            invariant
                n == candidate_ids@.len(),
                0 <= i <= n,
                0 <= active_left <= 65535,
                0 <= active_right <= 131070,
                0 <= active_top <= 65535,
                0 <= active_bottom <= 131070,
                0 <= active_cx <= 131070,
                0 <= active_cy <= 131070,
            decreases n - i,
        {
            let id = candidate_ids[i];
            if id != active_id {
                match find_idx(&self.windows, id.0) {
                    Some(wi) => {
                        let w = self.windows[wi].val;
                        let left = w.x as i32;
                        let right = w.x.saturating_add(w.width) as i32;
                        let top = w.y as i32;
                        let bottom = w.y.saturating_add(w.height) as i32;
                        let cx = left + (right - left) / 2;
                        let cy = top + (bottom - top) / 2;
                        let score: Option<(i32, i32)> = match direction {
                            FocusDirection::Left => {
                                if right <= active_left {
                                    let dy = if cy >= active_cy {
                                        cy - active_cy
                                    } else {
                                        active_cy - cy
                                    };
                                    Some((active_left - right, dy))
                                } else {
                                    None
                                }
                            },
                            FocusDirection::Right => {
                                if left >= active_right {
                                    let dy = if cy >= active_cy {
                                        cy - active_cy
                                    } else {
                                        active_cy - cy
                                    };
                                    Some((left - active_right, dy))
                                } else {
                                    None
                                }
                            },
                            FocusDirection::Up => {
                                if bottom <= active_top {
                                    let dx = if cx >= active_cx {
                                        cx - active_cx
                                    } else {
                                        active_cx - cx
                                    };
                                    Some((active_top - bottom, dx))
                                } else {
                                    None
                                }
                            },
                            FocusDirection::Down => {
                                if top >= active_bottom {
                                    let dx = if cx >= active_cx {
                                        cx - active_cx
                                    } else {
                                        active_cx - cx
                                    };
                                    Some((top - active_bottom, dx))
                                } else {
                                    None
                                }
                            },
                        };
                        match score {
                            Some((s1, s2)) => {
                                let better = match best {
                                    Some((_, b1, b2)) => s1 < b1 || (s1 == b1 && s2 < b2),
                                    None => true,
                                };
                                if better {
                                    best = Some((id, s1, s2));
                                }
                            },
                            None => {},
                        }
                    },
                    None => {},
                }
            }
            i = i + 1;
        }
        match best {
            Some((target, _, _)) => {
                let t = &mut self.tabs[ti];
                t.val.active_window = target;
            },
            None => {},
        }
    }

    /// Splits the focused window along the axis: the two halves share its
    /// area and the new half takes focus.
    pub fn split_active_window(&mut self, axis: SplitAxis)
        ensures
            axis == SplitAxis::Horizontal ==> (old(self).s_tab(old(self).active_tab) is Some
                ==> final(self).status_bar.message@ == "split horizontal"@),
            axis == SplitAxis::Vertical ==> (old(self).s_tab(old(self).active_tab) is Some
                ==> final(self).status_bar.message@ == "split vertical"@),
    {
        let ti = match find_idx(&self.tabs, self.active_tab.0) {
            Some(i) => i,
            None => {
                return ;
            },
        };
        let active_window_id = self.tabs[ti].val.active_window;
        let active_window = match find_idx(&self.windows, active_window_id.0) {
            Some(wi) => self.windows[wi].val,
            None => {
                self.set_split_message(axis);
                return ;
            },
        };
        let (updated_active, new_window_layout) = split_window_layout(&active_window, axis);
        let new_window_id = match self.create_window(active_window.buffer_id) {
            Some(id) => id,
            None => {
                self.set_split_message(axis);
                return ;
            },
        };
        match find_idx(&self.windows, active_window_id.0) {
            Some(wi) => {
                let w = &mut self.windows[wi];
                w.val = updated_active;
            },
            None => {},
        }
        match find_idx(&self.windows, new_window_id.0) {
            Some(wi) => {
                let w = &mut self.windows[wi];
                w.val = new_window_layout;
            },
            None => {},
        }
        match find_idx(&self.tabs, self.active_tab.0) {
            Some(ti2) => {
                let t = &mut self.tabs[ti2];
                t.val.windows.push(new_window_id);
                t.val.active_window = new_window_id;
            },
            None => {},
        }
        self.set_split_message(axis);
    }

    fn set_split_message(&mut self, axis: SplitAxis)
        ensures
            *final(self) == (AppState { status_bar: final(self).status_bar, ..*old(self) }),
            final(self).status_bar == (StatusBarState {
                message: final(self).status_bar.message,
                ..old(self).status_bar
            }),
            axis == SplitAxis::Horizontal ==> final(self).status_bar.message@
                == "split horizontal"@,
            axis == SplitAxis::Vertical ==> final(self).status_bar.message@ == "split vertical"@,
    {
        match axis {
            SplitAxis::Horizontal => {
                self.status_bar.message = String::from_str("split horizontal");
                proof {
                    reveal_strlit("split horizontal");
                }
            },
            SplitAxis::Vertical => {
                self.status_bar.message = String::from_str("split vertical");
                proof {
                    reveal_strlit("split vertical");
                }
            },
        }
    }

    /// Rescales every window of the active tab to a new viewport size,
    /// keeping the proportions of the old layout.
    pub fn update_active_tab_layout(&mut self, width: u16, height: u16)
        ensures
            *final(self) == (AppState { windows: final(self).windows, ..*old(self) }),
    {
        let ti = match find_idx(&self.tabs, self.active_tab.0) {
            Some(i) => i,
            None => {
                return ;
            },
        };
        let window_ids = self.tabs[ti].val.windows.clone();
        if window_ids.len() == 0 {
            return ;
        }
        let mut max_right: u16 = 0;
        let mut max_bottom: u16 = 0;
        let n = window_ids.len();
        let mut i: usize = 0;
        while i < n
            invariant
                n == window_ids@.len(),
                0 <= i <= n,
            decreases n - i,
        {
            match find_idx(&self.windows, window_ids[i].0) {
                Some(wi) => {
                    let w = &self.windows[wi].val;
                    let r = w.x.saturating_add(w.width);
                    let b = w.y.saturating_add(w.height);
                    if r > max_right {
                        max_right = r;
                    }
                    if b > max_bottom {
                        max_bottom = b;
                    }
                },
                None => {},
            }
            i = i + 1;
        }
        if max_right == 0 || max_bottom == 0 {
            let mut i2: usize = 0;
            while i2 < n
                invariant
                    n == window_ids@.len(),
                    0 <= i2 <= n,
                    *self == (AppState { windows: self.windows, ..*old(self) }),
                decreases n - i2,
            {
                match find_idx(&self.windows, window_ids[i2].0) {
                    Some(wi) => {
                        let w = &mut self.windows[wi];
                        w.val.x = 0;
                        w.val.y = 0;
                        w.val.width = if width < 1 {
                            1
                        } else {
                            width
                        };
                        w.val.height = if height < 1 {
                            1
                        } else {
                            height
                        };
                    },
                    None => {},
                }
                i2 = i2 + 1;
            }
            return ;
        }
        let mut i3: usize = 0;
        while i3 < n
            invariant
                n == window_ids@.len(),
                0 <= i3 <= n,
                max_right > 0,
                max_bottom > 0,
                *self == (AppState { windows: self.windows, ..*old(self) }),
            decreases n - i3,
        {
            match find_idx(&self.windows, window_ids[i3].0) {
                Some(wi) => {
                    let old_x = self.windows[wi].val.x;
                    let old_y = self.windows[wi].val.y;
                    let old_right = old_x.saturating_add(self.windows[wi].val.width);
                    let old_bottom = old_y.saturating_add(self.windows[wi].val.height);
                    proof {
                        assert(old_x as u64 * width as u64 <= 65535u64 * 65535u64) by (nonlinear_arith)
                            requires
                                old_x <= 65535,
                                width <= 65535,
                        ;
                        assert(old_y as u64 * height as u64 <= 65535u64 * 65535u64) by (nonlinear_arith)
                            requires
                                old_y <= 65535,
                                height <= 65535,
                        ;
                        assert(old_right as u64 * width as u64 <= 65535u64 * 65535u64) by (nonlinear_arith)
                            requires
                                old_right <= 65535,
                                width <= 65535,
                        ;
                        assert(old_bottom as u64 * height as u64 <= 65535u64 * 65535u64) by (nonlinear_arith)
                            requires
                                old_bottom <= 65535,
                                height <= 65535,
                        ;
                    }
                    #[verifier::truncate]
                    let new_x = ((old_x as u64 * width as u64) / max_right as u64) as u16;
                    #[verifier::truncate]
                    let new_y = ((old_y as u64 * height as u64) / max_bottom as u64) as u16;
                    #[verifier::truncate]
                    let new_right = ((old_right as u64 * width as u64) / max_right as u64) as u16;
                    #[verifier::truncate]
                    let new_bottom = ((old_bottom as u64 * height as u64) / max_bottom as u64) as u16;
                    let x_cap = width.saturating_sub(1);
                    let y_cap = height.saturating_sub(1);
                    let fx = if new_x > x_cap {
                        x_cap
                    } else {
                        new_x
                    };
                    let fy = if new_y > y_cap {
                        y_cap
                    } else {
                        new_y
                    };
                    let w1 = {
                        let d = new_right.saturating_sub(fx);
                        if d < 1 {
                            1
                        } else {
                            d
                        }
                    };
                    let w_cap = {
                        let c = width.saturating_sub(fx);
                        if c < 1 {
                            1
                        } else {
                            c
                        }
                    };
                    let fw = if w1 > w_cap {
                        w_cap
                    } else {
                        w1
                    };
                    let h1 = {
                        let d = new_bottom.saturating_sub(fy);
                        if d < 1 {
                            1
                        } else {
                            d
                        }
                    };
                    let h_cap = {
                        let c = height.saturating_sub(fy);
                        if c < 1 {
                            1
                        } else {
                            c
                        }
                    };
                    let fh = if h1 > h_cap {
                        h_cap
                    } else {
                        h1
                    };
                    let w = &mut self.windows[wi];
                    w.val.x = fx;
                    w.val.y = fy;
                    w.val.width = fw;
                    w.val.height = fh;
                },
                None => {},
            }
            i3 = i3 + 1;
        }
    }

    /// Closes the focused window; its area is absorbed by an exact
    /// neighbour, or by a flush group of neighbours, and focus moves to the
    /// absorbing window or the next in the tab. A tab's last window stays.
    pub fn close_active_window(&mut self)
        ensures
            old(self).s_tab(old(self).active_tab) matches Some(t) ==> (t.windows@.len() <= 1
                ==> *final(self) == *old(self)),
    {
        let ti = match find_idx(&self.tabs, self.active_tab.0) {
            Some(i) => i,
            None => {
                return ;
            },
        };
        let active_window = self.tabs[ti].val.active_window;
        let tab_window_count = self.tabs[ti].val.windows.len();
        if tab_window_count <= 1 {
            return ;
        }
        let tab_windows = self.tabs[ti].val.windows.clone();
        let current_idx = {
            let mut found: usize = 0;
            let mut i: usize = 0;
            let n = tab_windows.len();
            while i < n
                invariant
                    n == tab_windows@.len(),
                    0 <= i <= n,
                    found < n || found == 0,
                decreases n - i,
            {
                if tab_windows[i] == active_window {
                    found = i;
                    break ;
                }
                i = i + 1;
            }
            found
        };
        let closed_layout = match find_idx(&self.windows, active_window.0) {
            Some(wi) => self.windows[wi].val,
            None => {
                return ;
            },
        };
        let mut remaining: Vec<WindowId> = Vec::new();
        {
            let n = tab_windows.len();
            let mut i: usize = 0;
            while i < n
                invariant
                    n == tab_windows@.len(),
                    0 <= i <= n,
                decreases n - i,
            {
                if tab_windows[i] != active_window {
                    remaining.push(tab_windows[i]);
                }
                i = i + 1;
            }
        }
        let absorbed_target = self.absorb_closed_window(&remaining, &closed_layout);
        let absorbed_group = if absorbed_target.is_none() {
            self.absorb_closed_window_by_group(&remaining, &closed_layout)
        } else {
            false
        };
        if let Some(wi) = find_idx(&self.windows, active_window.0) {
            let _removed = self.windows.remove(wi);
        }
        let next_active: Option<WindowId> = match absorbed_target {
            Some(id) => Some(id),
            None => {
                if remaining.len() > 0 {
                    if absorbed_group {
                        Some(remaining[0])
                    } else {
                        let idx = if current_idx < remaining.len() {
                            current_idx
                        } else {
                            remaining.len() - 1
                        };
                        Some(remaining[idx])
                    }
                } else {
                    None
                }
            },
        };
        if let Some(ti2) = find_idx(&self.tabs, self.active_tab.0) {
            let t = &mut self.tabs[ti2];
            t.val.windows = remaining;
            match next_active {
                Some(a) => {
                    t.val.active_window = a;
                },
                None => {},
            }
        }
        self.status_bar.message = String::from_str("window closed");
        proof {
            reveal_strlit("window closed");
        }
    }

    /// Grows a single exact neighbour over the closed window's area:
    /// a window flush with it and of equal height (beside) or equal width
    /// (above or below).
    fn absorb_closed_window(&mut self, candidates: &Vec<WindowId>, closed: &WindowState) -> (r:
        Option<WindowId>)
        ensures
            *final(self) == (AppState { windows: final(self).windows, ..*old(self) }),
    {
        let n = candidates.len();
        let mut i: usize = 0;
        while i < n
            invariant
                n == candidates@.len(),
                0 <= i <= n,
                *self == (AppState { windows: self.windows, ..*old(self) }),
            decreases n - i,
        {
            let id = candidates[i];
            let wi = match find_idx(&self.windows, id.0) {
                Some(w) => w,
                None => {
                    i = i + 1;
                    continue ;
                },
            };
            let w = self.windows[wi].val;
            if w.y == closed.y && w.height == closed.height && w.x.saturating_add(w.width)
                == closed.x {
                let t = &mut self.windows[wi];
                t.val.width = t.val.width.saturating_add(closed.width);
                return Some(id);
            }
            if w.y == closed.y && w.height == closed.height && closed.x.saturating_add(closed.width)
                == w.x {
                let t = &mut self.windows[wi];
                t.val.x = closed.x;
                t.val.width = t.val.width.saturating_add(closed.width);
                return Some(id);
            }
            if w.x == closed.x && w.width == closed.width && w.y.saturating_add(w.height)
                == closed.y {
                let t = &mut self.windows[wi];
                t.val.height = t.val.height.saturating_add(closed.height);
                return Some(id);
            }
            if w.x == closed.x && w.width == closed.width && closed.y.saturating_add(closed.height)
                == w.y {
                let t = &mut self.windows[wi];
                t.val.y = closed.y;
                t.val.height = t.val.height.saturating_add(closed.height);
                return Some(id);
            }
            i = i + 1;
        }
        None
    }

    /// Grows a flush group of neighbours over the closed window's area,
    /// trying its right, left, bottom and top edges in turn.
    fn absorb_closed_window_by_group(&mut self, candidates: &Vec<WindowId>, closed: &WindowState)
        -> (r: bool)
        ensures
            *final(self) == (AppState { windows: final(self).windows, ..*old(self) }),
    {
        if self.absorb_group_from_right(candidates, closed) {
            return true;
        }
        if self.absorb_group_from_left(candidates, closed) {
            return true;
        }
        if self.absorb_group_from_bottom(candidates, closed) {
            return true;
        }
        self.absorb_group_from_top(candidates, closed)
    }

    /// The candidate windows flush against the given edge of the closed
    /// window, sorted by the cross axis.
    fn edge_group(&self, candidates: &Vec<WindowId>, closed: &WindowState, edge: FocusDirection)
        -> (r: Vec<(WindowId, WindowState)>)
    {
        let mut group: Vec<(WindowId, WindowState)> = Vec::new();
        let n = candidates.len();
        let mut i: usize = 0;
        while i < n
            invariant
                n == candidates@.len(),
                0 <= i <= n,
            decreases n - i,
        {
            let id = candidates[i];
            match find_idx(&self.windows, id.0) {
                Some(wi) => {
                    let w = self.windows[wi].val;
                    let keep = match edge {
                        FocusDirection::Right => closed.x.saturating_add(closed.width) == w.x
                            && w.width > 0 && overlap_len(w.y, w.height, closed.y, closed.height)
                            > 0,
                        FocusDirection::Left => w.x.saturating_add(w.width) == closed.x && w.width
                            > 0 && overlap_len(w.y, w.height, closed.y, closed.height) > 0,
                        FocusDirection::Down => closed.y.saturating_add(closed.height) == w.y
                            && w.height > 0 && overlap_len(w.x, w.width, closed.x, closed.width)
                            > 0,
                        FocusDirection::Up => w.y.saturating_add(w.height) == closed.y && w.height
                            > 0 && overlap_len(w.x, w.width, closed.x, closed.width) > 0,
                    };
                    if keep {
                        let use_y = match edge {
                            FocusDirection::Right => true,
                            FocusDirection::Left => true,
                            FocusDirection::Down => false,
                            FocusDirection::Up => false,
                        };
                        let key = if use_y {
                            w.y
                        } else {
                            w.x
                        };
                        let m = group.len();
                        let mut at: usize = 0;
                        let mut j: usize = 0;
                        while j < m
                            invariant
                                m == group@.len(),
                                0 <= j <= m,
                                at <= j,
                            decreases m - j,
                        {
                            let gk = if use_y {
                                group[j].1.y
                            } else {
                                group[j].1.x
                            };
                            if gk <= key {
                                at = j + 1;
                            }
                            j = j + 1;
                        }
                        group.insert(at, (id, w));
                    }
                },
                None => {},
            }
            i = i + 1;
        }
        group
    }

    fn absorb_group_from_right(&mut self, candidates: &Vec<WindowId>, closed: &WindowState) -> (r:
        bool)
        ensures
            *final(self) == (AppState { windows: final(self).windows, ..*old(self) }),
    {
        let group = self.edge_group(candidates, closed, FocusDirection::Right);
        if group.len() == 0 {
            return false;
        }
        if !is_full_vertical_cover(&group, closed) {
            return false;
        }
        self.grow_group(&group, closed, FocusDirection::Right);
        true
    }

    fn absorb_group_from_left(&mut self, candidates: &Vec<WindowId>, closed: &WindowState) -> (r:
        bool)
        ensures
            *final(self) == (AppState { windows: final(self).windows, ..*old(self) }),
    {
        let group = self.edge_group(candidates, closed, FocusDirection::Left);
        if group.len() == 0 {
            return false;
        }
        if !is_full_vertical_cover(&group, closed) {
            return false;
        }
        self.grow_group(&group, closed, FocusDirection::Left);
        true
    }

    fn absorb_group_from_bottom(&mut self, candidates: &Vec<WindowId>, closed: &WindowState) -> (r:
        bool)
        ensures
            *final(self) == (AppState { windows: final(self).windows, ..*old(self) }),
    {
        let group = self.edge_group(candidates, closed, FocusDirection::Down);
        if group.len() == 0 {
            return false;
        }
        if !is_full_horizontal_cover(&group, closed) {
            return false;
        }
        self.grow_group(&group, closed, FocusDirection::Down);
        true
    }

    fn absorb_group_from_top(&mut self, candidates: &Vec<WindowId>, closed: &WindowState) -> (r:
        bool)
        ensures
            *final(self) == (AppState { windows: final(self).windows, ..*old(self) }),
    {
        let group = self.edge_group(candidates, closed, FocusDirection::Up);
        if group.len() == 0 {
            return false;
        }
        if !is_full_horizontal_cover(&group, closed) {
            return false;
        }
        self.grow_group(&group, closed, FocusDirection::Up);
        true
    }

    /// Widens or heightens every window of the group over the closed
    /// window's area along the given edge.
    fn grow_group(
        &mut self,
        group: &Vec<(WindowId, WindowState)>,
        closed: &WindowState,
        edge: FocusDirection,
    )
        ensures
            *final(self) == (AppState { windows: final(self).windows, ..*old(self) }),
    {
        let n = group.len();
        let mut i: usize = 0;
        while i < n
            invariant
                n == group@.len(),
                0 <= i <= n,
                *self == (AppState { windows: self.windows, ..*old(self) }),
            decreases n - i,
        {
            let id = group[i].0;
            match find_idx(&self.windows, id.0) {
                Some(wi) => {
                    let t = &mut self.windows[wi];
                    match edge {
                        FocusDirection::Right => {
                            t.val.x = closed.x;
                            t.val.width = t.val.width.saturating_add(closed.width);
                        },
                        FocusDirection::Left => {
                            t.val.width = t.val.width.saturating_add(closed.width);
                        },
                        FocusDirection::Down => {
                            t.val.y = closed.y;
                            t.val.height = t.val.height.saturating_add(closed.height);
                        },
                        FocusDirection::Up => {
                            t.val.height = t.val.height.saturating_add(closed.height);
                        },
                    }
                },
                None => {},
            }
            i = i + 1;
        }
    }
}

} // verus!
