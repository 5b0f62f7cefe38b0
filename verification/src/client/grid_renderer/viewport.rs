//! The viewport over the rows, scrolling, the cursor and redraw tracking.

use vstd::prelude::*;

use super::{
    last_loaded, last_loaded_row_index, last_nonblank_loaded, rel_index, row_is_blank, sat_sub,
    spec_scroll_to_tail, GridCursor, GridRenderer, RendererView, RowSlot, SlotView, WidgetArea,
};

verus! {

/// The cursor's (column, row) within the viewport, when it is shown there:
/// the column is clamped to the grid's last column.
pub open spec fn spec_cursor_viewport_offset(v: RendererView) -> Option<(nat, nat)> {
    match v.cursor {
        Some(c) => {
            let start = v.base_row + v.scroll_top;
            if !c.visible || c.absolute_row < start || c.absolute_row - start >= v.viewport_height {
                None
            } else {
                Some(
                    (
                        if c.col <= v.cols - 1 {
                            c.col as nat
                        } else {
                            (v.cols - 1) as nat
                        },
                        (c.absolute_row - start) as nat,
                    ),
                )
            }
        },
        None => None,
    }
}

/// The largest scroll offset that still fills the viewport.
pub open spec fn max_scroll(v: RendererView) -> nat {
    sat_sub(v.rows.len() as int, v.viewport_height as int)
}

/// The renderer after scrolling by `delta` rows (see
/// `GridRenderer::scroll_lines`).
pub open spec fn spec_scroll_lines(v: RendererView, delta: int) -> RendererView {
    if v.viewport_height == 0 {
        v
    } else {
        let top = if delta > 0 {
            min_nat((v.scroll_top + delta) as nat, max_scroll(v))
        } else {
            sat_sub(v.scroll_top as int, -delta)
        };
        RendererView { scroll_top: top, follow_tail: top >= max_scroll(v), needs_redraw: true, ..v }
    }
}

/// The smaller of two naturals.
pub open spec fn min_nat(a: nat, b: nat) -> nat {
    if a <= b {
        a
    } else {
        b
    }
}

impl GridRenderer {
    /// Marks the renderer as needing a redraw.
    pub fn mark_dirty(&mut self)
        requires
            old(self).wf(),
        ensures
            final(self).wf(),
            final(self)@ == (RendererView { needs_redraw: true, ..old(self)@ }),
    {
        self.needs_redraw = true;
    }

    /// Whether a redraw was needed; clears the flag.
    pub fn take_dirty(&mut self) -> (res: bool)
        requires
            old(self).wf(),
        ensures
            final(self).wf(),
            res == old(self)@.needs_redraw,
            final(self)@ == (RendererView { needs_redraw: false, ..old(self)@ }),
    {
        let was_dirty = self.needs_redraw;
        self.needs_redraw = false;
        was_dirty
    }

    /// The index of the row the tail view ends on: the last loaded row with
    /// text, else the last loaded row.
    pub(super) fn last_loaded_row_index(&self) -> (res: Option<usize>)
        requires
            self.wf(),
        ensures
            res matches Some(i) ==> last_loaded_row_index(self@.rows) == Some(i as int),
            res is None ==> last_loaded_row_index(self@.rows) is None,
    {
        let n = self.rows.len();
        let ghost rows = self@.rows;
        let mut last: Option<usize> = None;
        let mut idx = n;
        while idx > 0
            invariant
                self.wf(),
                rows == self@.rows,
                n == rows.len(),
                idx <= n,
                last_nonblank_loaded(rows, n as int) == last_nonblank_loaded(rows, idx as int),
                last is None ==> last_loaded(rows, n as int) == last_loaded(rows, idx as int),
                last matches Some(j) ==> last_loaded(rows, n as int) == Some(j as int),
            decreases idx,
        {
            let i = idx - 1;
            match &self.rows[i] {
                RowSlot::Loaded(state) => {
                    assert(rows[i as int] == SlotView::Loaded(state@));
                    if !state.is_blank() {
                        proof {
                            assert(!row_is_blank(state@));
                        }
                        return Some(i);
                    }
                    proof {
                        assert(row_is_blank(state@));
                    }
                    if last.is_none() {
                        last = Some(i);
                    }
                },
                _ => {
                    assert(!(rows[i as int] is Loaded));
                },
            }
            idx = i;
        }
        last
    }

    /// Scrolls so that the viewport ends at the last row with text (or the
    /// last row, when none is loaded), and follows the tail. With no
    /// viewport or no rows, the viewport simply starts at the first row.
    pub fn scroll_to_tail(&mut self)
        requires
            old(self).wf(),
        ensures
            final(self).wf(),
            final(self)@ == spec_scroll_to_tail(old(self)@),
    {
        if self.viewport_height == 0 || self.rows.len() == 0 {
            self.scroll_top = 0;
            return;
        }
        let max_scroll = self.rows.len().saturating_sub(self.viewport_height);
        let target = match self.last_loaded_row_index() {
            Some(idx) => idx.saturating_sub(self.viewport_height.saturating_sub(1)),
            None => max_scroll,
        };
        self.scroll_top = target.min(max_scroll);
        self.follow_tail = true;
        self.needs_redraw = true;
    }

    /// Scrolls to the first row and stops following the tail.
    pub fn scroll_to_top(&mut self)
        requires
            old(self).wf(),
        ensures
            final(self).wf(),
            final(self)@ == (RendererView { follow_tail: false, scroll_top: 0, needs_redraw: true, ..old(self)@ }),
    {
        self.follow_tail = false;
        self.scroll_top = 0;
        self.needs_redraw = true;
    }

    /// Starts or stops following the tail; starting scrolls to it.
    pub fn set_follow_tail(&mut self, follow: bool)
        requires
            old(self).wf(),
        ensures
            final(self).wf(),
            follow ==> final(self)@ == spec_scroll_to_tail(RendererView { follow_tail: true, ..old(self)@ }),
            !follow ==> final(self)@ == (RendererView { follow_tail: false, ..old(self)@ }),
    {
        self.follow_tail = follow;
        if follow {
            self.scroll_to_tail();
        }
    }

    /// Flips following the tail.
    pub fn toggle_follow_tail(&mut self)
        requires
            old(self).wf(),
        ensures
            final(self).wf(),
            !old(self)@.follow_tail ==> final(self)@ == spec_scroll_to_tail(
                RendererView { follow_tail: true, ..old(self)@ },
            ),
            old(self)@.follow_tail ==> final(self)@ == (RendererView { follow_tail: false, ..old(self)@ }),
    {
        let follow = !self.follow_tail;
        self.set_follow_tail(follow);
    }

    /// Whether the viewport follows the tail.
    pub fn is_following_tail(&self) -> (res: bool)
        ensures
            res == self@.follow_tail,
    {
        self.follow_tail
    }

    /// Scrolls by `delta` rows (down when positive), within the rows; the
    /// tail is followed exactly when the viewport ends up at the bottom.
    /// Nothing happens without a viewport.
    pub fn scroll_lines(&mut self, delta: isize)
        requires
            old(self).wf(),
            delta > 0 ==> old(self)@.scroll_top + delta <= usize::MAX,
        ensures
            final(self).wf(),
            final(self)@ == spec_scroll_lines(old(self)@, delta as int),
            old(self)@.viewport_height == 0 ==> final(self)@ == old(self)@,
            old(self)@.viewport_height > 0 ==> {
                let top = if delta > 0 {
                    min_nat((old(self)@.scroll_top + delta) as nat, max_scroll(old(self)@))
                } else {
                    sat_sub(old(self)@.scroll_top as int, -delta)
                };
                final(self)@ == (RendererView {
                    scroll_top: top,
                    follow_tail: top >= max_scroll(old(self)@),
                    needs_redraw: true,
                    ..old(self)@
                })
            },
    {
        if self.viewport_height == 0 {
            return;
        }
        let max_scroll = self.rows.len().saturating_sub(self.viewport_height);
        if delta > 0 {
            let d = delta as usize;
            self.scroll_top = (self.scroll_top + d).min(max_scroll);
        } else {
            let d: usize = if delta == isize::MIN {
                (isize::MAX as usize) + 1
            } else {
                (-delta) as usize
            };
            self.scroll_top = self.scroll_top.saturating_sub(d);
        }
        self.follow_tail = self.scroll_top >= max_scroll;
        self.needs_redraw = true;
    }

    /// Scrolls by `delta_pages` viewports.
    pub fn scroll_pages(&mut self, delta_pages: isize)
        requires
            old(self).wf(),
            isize::MIN <= delta_pages * old(self)@.viewport_height <= isize::MAX,
            delta_pages * old(self)@.viewport_height > 0 ==> old(self)@.scroll_top + delta_pages
                * old(self)@.viewport_height <= usize::MAX,
        ensures
            final(self).wf(),
            old(self)@.viewport_height == 0 ==> final(self)@ == old(self)@,
            old(self)@.viewport_height > 0 ==> {
                let delta = delta_pages * old(self)@.viewport_height;
                let top = if delta > 0 {
                    min_nat((old(self)@.scroll_top + delta) as nat, max_scroll(old(self)@))
                } else {
                    sat_sub(old(self)@.scroll_top as int, -delta)
                };
                final(self)@ == (RendererView {
                    scroll_top: top,
                    follow_tail: top >= max_scroll(old(self)@),
                    needs_redraw: true,
                    ..old(self)@
                })
            },
    {
        if self.viewport_height == 0 {
            return;
        }
        if delta_pages == 0 {
            self.scroll_lines(0);
            return;
        }
        let delta = delta_pages * (self.viewport_height as isize);
        self.scroll_lines(delta);
    }

    /// Scrolls just enough for absolute row `absolute_row` to be in the
    /// viewport, and stops following the tail if it scrolled. Rows not held,
    /// or a missing viewport, leave everything as it was.
    pub fn ensure_row_visible(&mut self, absolute_row: u64)
        requires
            old(self).wf(),
        ensures
            final(self).wf(),
            final(self)@ == spec_ensure_row_visible(old(self)@, absolute_row as int),
            ({
                let v = old(self)@;
                match rel_index(v, absolute_row as int) {
                    Some(rel) => {
                        if v.viewport_height == 0 {
                            final(self)@ == v
                        } else if rel < v.scroll_top {
                            final(self)@ == (RendererView {
                                scroll_top: rel as nat,
                                follow_tail: false,
                                needs_redraw: true,
                                ..v
                            })
                        } else if rel >= v.scroll_top + v.viewport_height {
                            final(self)@ == (RendererView {
                                scroll_top: min_nat(sat_sub(rel, v.viewport_height - 1), max_scroll(v)),
                                follow_tail: false,
                                needs_redraw: true,
                                ..v
                            })
                        } else {
                            final(self)@ == v
                        }
                    },
                    None => final(self)@ == v,
                }
            }),
    {
        if self.viewport_height == 0 {
            return;
        }
        if absolute_row < self.base_row {
            return;
        }
        let rel = match self.relative_row(absolute_row) {
            Some(rel) => rel,
            None => return ,
        };
        let viewport = self.viewport_height.max(1);
        if rel < self.scroll_top {
            self.scroll_top = rel;
            self.follow_tail = false;
            self.needs_redraw = true;
        } else if rel >= self.scroll_top.saturating_add(viewport) {
            let desired = rel.saturating_sub(viewport.saturating_sub(1));
            let max_scroll = self.rows.len().saturating_sub(viewport);
            self.scroll_top = desired.min(max_scroll);
            self.follow_tail = false;
            self.needs_redraw = true;
        }
    }

    /// The absolute number of the first row of the viewport.
    pub fn viewport_top(&self) -> (res: u64)
        requires
            self.wf(),
        ensures
            res == self@.base_row + self@.scroll_top,
    {
        self.base_row + self.scroll_top as u64
    }

    /// The number of rows of the viewport (at least one).
    pub fn viewport_height(&self) -> (res: usize)
        ensures
            res == (if self@.viewport_height >= 1 {
                self@.viewport_height
            } else {
                1
            }),
    {
        self.viewport_height.max(1)
    }

    /// One past the absolute number of the last row held.
    pub fn total_rows(&self) -> (res: u64)
        requires
            self.wf(),
        ensures
            res == self@.base_row + self@.rows.len(),
    {
        self.base_row + self.rows.len() as u64
    }

    /// The number of columns.
    pub fn total_cols(&self) -> (res: usize)
        ensures
            res == self@.cols,
    {
        self.cols
    }

    /// Whether absolute row `row` is held.
    pub fn contains_row(&self, row: u64) -> (res: bool)
        requires
            self.wf(),
        ensures
            res == (rel_index(self@, row as int) is Some),
    {
        row >= self.base_row && row < self.base_row + self.rows.len() as u64
    }

    /// Fits the viewport to a terminal of `rows` rows, two of which hold the
    /// status lines; keeps following the tail, or keeps the viewport within
    /// the rows.
    pub fn on_resize(&mut self, _cols: u16, rows: u16)
        requires
            old(self).wf(),
        ensures
            final(self).wf(),
            ({
                let v = old(self)@;
                let usable = sat_sub(rows as int, 2);
                if usable == v.viewport_height {
                    final(self)@ == v
                } else {
                    let w = RendererView { viewport_height: usable, ..v };
                    if v.follow_tail {
                        final(self)@ == (RendererView { needs_redraw: true, ..spec_scroll_to_tail(w) })
                    } else {
                        final(self)@ == (RendererView {
                            scroll_top: min_nat(v.scroll_top, max_scroll(w)),
                            needs_redraw: true,
                            ..w
                        })
                    }
                }
            }),
    {
        let usable = rows.saturating_sub(2) as usize;
        if usable != self.viewport_height {
            self.viewport_height = usable;
            if self.follow_tail {
                self.scroll_to_tail();
            } else {
                let max_scroll = self.rows.len().saturating_sub(self.viewport_height);
                self.scroll_top = self.scroll_top.min(max_scroll);
            }
            self.needs_redraw = true;
        }
    }

    /// Sizes the viewport for a frame `area_height` rows tall and returns
    /// (status lines, body height): two status lines when the frame has at
    /// least three rows, else one; the body gets the rest and the viewport at
    /// least one row. Keeps following the tail, or keeps the viewport within
    /// the rows.
    pub fn prepare_frame(&mut self, area_height: u16) -> (res: (u16, u16))
        requires
            old(self).wf(),
        ensures
            final(self).wf(),
            res.0 == (if area_height >= 3 {
                2u16
            } else {
                1u16
            }),
            res.1 == sat_sub(area_height as int, res.0 as int),
            ({
                let v = old(self)@;
                let w = RendererView {
                    viewport_height: if res.1 >= 1 {
                        res.1 as nat
                    } else {
                        1
                    },
                    ..v
                };
                if v.follow_tail {
                    final(self)@ == spec_scroll_to_tail(w)
                } else {
                    final(self)@ == (RendererView { scroll_top: min_nat(v.scroll_top, max_scroll(w)), ..w })
                }
            }),
    {
        let status_lines: u16 = if area_height >= 3 {
            2
        } else {
            1
        };
        let body_height = area_height.saturating_sub(status_lines);
        self.viewport_height = body_height.max(1) as usize;
        if self.follow_tail {
            self.scroll_to_tail();
        } else {
            let max_scroll = self.rows.len().saturating_sub(self.viewport_height);
            self.scroll_top = self.scroll_top.min(max_scroll);
        }
        (status_lines, body_height)
    }

    /// Records that a frame was drawn.
    pub fn finish_frame(&mut self)
        requires
            old(self).wf(),
        ensures
            final(self).wf(),
            final(self)@ == (RendererView { needs_redraw: false, ..old(self)@ }),
    {
        self.needs_redraw = false;
    }

    /// Places the cursor.
    pub fn set_cursor(&mut self, absolute_row: u64, col: usize, visible: bool)
        requires
            old(self).wf(),
        ensures
            final(self).wf(),
            final(self)@ == (RendererView {
                cursor: Some(GridCursor { absolute_row, col, visible }),
                needs_redraw: true,
                ..old(self)@
            }),
    {
        self.cursor = Some(GridCursor { absolute_row, col, visible });
        self.needs_redraw = true;
    }

    /// Removes the cursor.
    pub fn clear_cursor(&mut self)
        requires
            old(self).wf(),
        ensures
            final(self).wf(),
            old(self)@.cursor is Some ==> final(self)@ == (RendererView {
                cursor: None,
                needs_redraw: true,
                ..old(self)@
            }),
            old(self)@.cursor is None ==> final(self)@ == old(self)@,
    {
        if self.cursor.is_some() {
            self.cursor = None;
            self.needs_redraw = true;
        }
    }

    /// The cursor as (absolute row, column, shown).
    pub fn get_cursor(&self) -> (res: Option<(u64, usize, bool)>)
        ensures
            res == (match self@.cursor {
                Some(c) => Some((c.absolute_row, c.col, c.visible)),
                None => None,
            }),
    {
        match self.cursor {
            Some(c) => Some((c.absolute_row, c.col, c.visible)),
            None => None,
        }
    }

    /// The cursor's (column, row) within the viewport, when it is shown
    /// there.
    pub(super) fn cursor_viewport_offset(&self) -> (res: Option<(usize, usize)>)
        requires
            self.wf(),
        ensures
            res matches Some(p) ==> spec_cursor_viewport_offset(self@) == Some((p.0 as nat, p.1 as nat)),
            res is None ==> spec_cursor_viewport_offset(self@) is None,
    {
        let cursor = match self.cursor {
            Some(c) => c,
            None => return None,
        };
        if !cursor.visible {
            return None;
        }
        let viewport_start = self.base_row + self.scroll_top as u64;
        if cursor.absolute_row < viewport_start {
            return None;
        }
        let row_offset = cursor.absolute_row - viewport_start;
        if row_offset >= self.viewport_height as u64 {
            return None;
        }
        let col = cursor.col.min(self.cols - 1);
        Some((col, row_offset as usize))
    }

    /// The cursor's (column, row) within the viewport as terminal
    /// coordinates, when it is shown there.
    pub fn cursor_viewport_position(&self) -> (res: Option<(u16, u16)>)
        requires
            self.wf(),
        ensures
            res == (match spec_cursor_viewport_offset(self@) {
                Some(p) => Some((p.0 as u16, p.1 as u16)),
                None => None,
            }),
    {
        match self.cursor_viewport_offset() {
            Some((col, row)) => Some((col as u16, row as u16)),
            None => None,
        }
    }

    /// The cursor's screen position when the body is drawn in `area`, when
    /// it is shown there.
    pub fn cursor_widget_position(&self, area: WidgetArea) -> (res: Option<(u16, u16)>)
        requires
            self.wf(),
            area.x + area.width <= u16::MAX,
            area.y + area.height <= u16::MAX,
        ensures
            res == (match spec_cursor_viewport_offset(self@) {
                Some(p) => if (p.0 as u16) >= area.width || (p.1 as u16) >= area.height {
                    None
                } else {
                    Some(((area.x + (p.0 as u16)) as u16, (area.y + (p.1 as u16)) as u16))
                },
                None => None,
            }),
    {
        match self.cursor_viewport_offset() {
            Some((col, row)) => {
                if col as u16 >= area.width || row as u16 >= area.height {
                    None
                } else {
                    Some((area.x + col as u16, area.y + row as u16))
                }
            },
            None => None,
        }
    }
}


/// The renderer scrolled just enough for absolute row `row` to be in the
/// viewport (see `GridRenderer::ensure_row_visible`).
pub open spec fn spec_ensure_row_visible(v: RendererView, row: int) -> RendererView {
    match rel_index(v, row) {
        Some(rel) => if v.viewport_height == 0 {
            v
        } else if rel < v.scroll_top {
            RendererView { scroll_top: rel as nat, follow_tail: false, needs_redraw: true, ..v }
        } else if rel >= v.scroll_top + v.viewport_height {
            RendererView {
                scroll_top: min_nat(sat_sub(rel, v.viewport_height - 1), max_scroll(v)),
                follow_tail: false,
                needs_redraw: true,
                ..v
            }
        } else {
            v
        },
        None => v,
    }
}
} // verus!
