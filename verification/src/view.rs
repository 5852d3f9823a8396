//! How a grid is built for a result, and how its panes follow each other.

use vstd::prelude::*;
use crate::bars::Bar;
use crate::geometry::{column_chars, fitted, span_w, WIDTH_SAMPLE};
use crate::geometry::{init_widths, width_between, Metrics, Viewport};
use crate::keymap::{At, KeyMap};
use crate::model::{EditModel, ResultSet};
use crate::selection::TopBars;
use crate::sort::{column_keys, compute_order, SortState};
use crate::sort::{in_order, is_arrangement, nulls_at_end, orderable};
use crate::staged::{is_clean, Staged};
use crate::state::{GridQuery, GridState};

verus! {

/// What outlives a result: what the bar says, the server's filter and sort, and the bars at the top
/// with their texts.
pub struct Panel {
    pub bar: Bar,
    pub query: GridQuery,
    pub top: TopBars,
    pub find_query: String,
    pub goto_query: String,
}

impl GridState {
    /// Whether nothing was done to the grid yet.
    pub open spec fn is_fresh(self) -> bool {
        &&& is_clean(self.staged@)
        &&& self.staged@.new_rows_gen == 0
        &&& self.order@.len() == 0
        &&& self.active is None
        &&& self.anchor is None
        &&& self.frozen is None
        &&& !self.selecting
        &&& !self.row_selecting
        &&& self.edit_cell is None
        &&& self.edit_buf@.len() == 0
        &&& self.vp == (Viewport { x: 0, y: 0, w: 0, h: 0 })
        &&& self.scroll_to is None
        &&& !self.edit_row_open
        &&& self.edit_row_di is None
        &&& !self.edit_row_saving
        &&& !self.commit_busy
        &&& self.commit_seq == 0
        &&& !self.ai_busy
        &&& self.ai_gen@ == Map::<At, ()>::empty()
        &&& self.ai_gen_rows@ == Map::<usize, ()>::empty()
        &&& !self.seed_open
        &&& self.seed_buf@.len() == 0
    }

    /// The grid of a result as it is opened: its columns measured, nothing staged or selected, and
    /// nothing writable until the columns were looked up. `keys` holds the columns whose header
    /// shows a key; `spliced` tells whether rows that are read again can be put in place.
    pub fn new<V>(rs: ResultSet, keys: &KeyMap<usize, V>, m: Metrics, panel: Panel, spliced: bool) -> (r:
        GridState)
        requires
            m.min_col_w <= m.max_col_w_init,
        ensures
            r.is_fresh(),
            r.rs == rs,
            r.metrics == m,
            r.bar == panel.bar,
            r.query == panel.query,
            r.top == panel.top,
            r.find_query == panel.find_query,
            r.goto_query == panel.goto_query,
            r.spliced == spliced,
            r.model.allows_nothing(),
            r.widths@.len() == rs.columns@.len(),
            forall|ci: int|
                0 <= ci < rs.columns@.len() ==> #[trigger] r.widths@[ci] == fitted(
                    m,
                    column_chars(
                        rs,
                        ci,
                        if rs.rows@.len() < WIDTH_SAMPLE {
                            rs.rows@.len() as int
                        } else {
                            WIDTH_SAMPLE as int
                        },
                        60,
                    ),
                    keys@.dom().contains(ci as usize),
                    m.max_col_w_init,
                ),
    {
        let widths: Vec<u32> = init_widths(&rs, keys, &m);
        GridState {
            rs,
            order: Vec::new(),
            model: EditModel::none(),
            staged: Staged::new(),
            bar: panel.bar,
            query: panel.query,
            active: None,
            anchor: None,
            frozen: None,
            selecting: false,
            row_selecting: false,
            edit_cell: None,
            edit_buf: String::new(),
            widths,
            metrics: m,
            vp: Viewport { x: 0, y: 0, w: 0, h: 0 },
            scroll_to: None,
            top: panel.top,
            find_query: panel.find_query,
            goto_query: panel.goto_query,
            edit_row_open: false,
            edit_row_di: None,
            edit_row_saving: false,
            commit_busy: false,
            commit_seq: 0,
            spliced,
            ai_busy: false,
            ai_gen: KeyMap::new(),
            ai_gen_rows: KeyMap::new(),
            seed_open: false,
            seed_buf: String::new(),
        }
    }

    /// Take over what can be written back: nothing over a connection that is read-only, where edits
    /// that were staged before are not written either.
    pub fn set_model(&mut self, model: EditModel, read_only: bool)
        ensures
            *final(self) == (GridState { model: final(self).model, ..*old(self) }),
            !read_only ==> final(self).model == model,
            read_only ==> final(self).model.allows_nothing(),
    {
        self.model = if read_only {
            EditModel::none()
        } else {
            model
        };
    }

    /// Put the rows in the order of a sort. The selection stays where it is on screen.
    pub fn sort_rows(&mut self, sort: SortState)
        ensures
            is_arrangement(final(self).order@, 0, old(self).rs.rows@.len() as int),
            sort is None ==> forall|i: int|
                0 <= i < final(self).order@.len() ==> #[trigger] final(self).order@[i] == i,
            sort matches Some((c, asc)) ==> nulls_at_end(
                column_keys(old(self).rs, c as int),
                asc,
                final(self).order@,
            ),
            sort matches Some((c, asc)) ==> orderable(column_keys(old(self).rs, c as int))
                ==> in_order(column_keys(old(self).rs, c as int), asc, final(self).order@),
            *final(self) == (GridState { order: final(self).order, ..*old(self) }),
    {
        self.order = compute_order(&self.rs, sort);
    }

    /// The pinned column, where the result has it.
    pub fn frozen_col(&self) -> (r: Option<usize>)
        ensures
            r == if self.frozen matches Some(c) && c < self.rs.columns@.len() {
                self.frozen
            } else {
                None
            },
    {
        match self.frozen {
            Some(c) => if c < self.rs.columns.len() {
                Some(c)
            } else {
                None
            },
            None => None,
        }
    }

    /// How many rows are shown: those of the result and the new ones.
    pub fn total_rows(&self) -> (r: usize)
        requires
            self.countable(),
        ensures
            r == self.shown_rows(),
    {
        self.rs.row_count() + self.staged.new_rows.len()
    }

    /// The pane was scrolled: what is on screen is known again.
    pub fn scrolled_to(&mut self, vp: Viewport)
        ensures
            *final(self) == (GridState { vp, ..*old(self) }),
    {
        self.vp = vp;
    }

    /// The pane was laid out anew: it shows another size from the same place.
    pub fn resized(&mut self, w: u64, h: u64)
        ensures
            *final(self) == (GridState { vp: Viewport { w, h, ..old(self).vp }, ..*old(self) }),
    {
        self.vp.w = w;
        self.vp.h = h;
    }
}

/// A turn of the wheel over a pane that follows another: by so much, and not beyond its ends.
pub open spec fn turned(at: int, by: int, content: int, room: int) -> int {
    let most = if content > room {
        content - room
    } else {
        0
    };
    if at + by < 0 {
        0
    } else if at + by > most {
        most
    } else {
        at + by
    }
}

/// Where a turn of the wheel leads.
pub fn wheel(at: u64, by: i64, content: u128, room: u64) -> (r: u128)
    ensures
        r == turned(at as int, by as int, content as int, room as int),
{
    let most: u128 = if content > room as u128 {
        content - room as u128
    } else {
        0
    };
    let to: i128 = at as i128 + by as i128;
    if to < 0 {
        0
    } else if to as u128 > most {
        most
    } else {
        to as u128
    }
}

/// Whether an offset is published for the other panes: where it moved by more than half a pixel.
pub fn publishes(was: u64, now: u64, pixel: u32) -> (r: bool)
    ensures
        r == (2 * (now - was) > pixel || 2 * (was - now) > pixel),
{
    let by: u128 = if now > was {
        (now - was) as u128
    } else {
        (was - now) as u128
    };
    2 * by > pixel as u128
}

impl GridState {
    /// The wheel was turned over the header, which follows the data pane: it is the pane that is
    /// scrolled, both ways, within the columns `cols` and the height that it lays out.
    pub fn header_wheel(
        &mut self,
        cols: &Vec<usize>,
        x: u64,
        y: u64,
        dx: i64,
        dy: i64,
        body_h: u128,
    )
        ensures
            final(self).scroll_to matches Some(to) && {
                &&& to.0 == turned(
                    x as int,
                    dx as int,
                    span_w(old(self).widths@, cols@, 0, 0, cols@.len() as int),
                    old(self).vp.w as int,
                )
                &&& to.1 == turned(y as int, dy as int, body_h as int, old(self).vp.h as int)
            },
            *final(self) == (GridState { scroll_to: final(self).scroll_to, ..*old(self) }),
    {
        let content: u128 = width_between(&self.widths, cols, 0, 0, cols.len());
        self.scroll_to = Some((wheel(x, dx, content, self.vp.w), wheel(y, dy, body_h, self.vp.h)));
    }

    /// The wheel was turned over the row numbers or the pinned column, which follow the data pane:
    /// it is the pane that is scrolled, up and down alone.
    pub fn gutter_wheel(&mut self, y: u64, dy: i64, body_h: u128)
        ensures
            dy == 0 ==> *final(self) == *old(self),
            dy != 0 ==> *final(self) == (GridState {
                scroll_to: Some(
                    (
                        old(self).vp.x as u128,
                        turned(y as int, dy as int, body_h as int, old(self).vp.h as int) as u128,
                    ),
                ),
                ..*old(self)
            }),
    {
        if dy != 0 {
            self.scroll_to = Some((self.vp.x as u128, wheel(y, dy, body_h, self.vp.h)));
        }
    }

    /// How wide the pane of the row numbers is: they, and the pinned column.
    pub fn frozen_pane_w(&self, gutter_w: u32) -> (r: u64)
        ensures
            r == gutter_w + match self.frozen {
                Some(c) => if c < self.rs.columns@.len() && c < self.widths@.len() {
                    self.widths@[c as int] as int
                } else {
                    0
                },
                None => 0,
            },
    {
        match self.frozen_col() {
            Some(c) => if c < self.widths.len() {
                gutter_w as u64 + self.widths[c] as u64
            } else {
                gutter_w as u64
            },
            None => gutter_w as u64,
        }
    }
}

/// What became of a field that lost the keyboard: it stays and takes it back, it was closed and the
/// grid takes it, it was closed, or it was not open any more.
#[derive(Clone, Copy, Debug, PartialEq, Eq, Structural)]
pub enum BlurOutcome {
    TakeBack,
    ToGrid,
    Closed,
    NotOpen,
}

impl GridState {
    /// The field of a cell lost the keyboard. A press in its own calendar is no leaving; anything
    /// else closes it and keeps nothing, and the grid has the keyboard where the pointer is over it.
    pub fn field_blurred(&mut self, at: At, calendar_pressed: bool, over_grid: bool) -> (r: BlurOutcome)
        ensures
            r == if calendar_pressed {
                BlurOutcome::TakeBack
            } else if old(self).edit_cell != Some(at) {
                BlurOutcome::NotOpen
            } else if over_grid {
                BlurOutcome::ToGrid
            } else {
                BlurOutcome::Closed
            },
            *final(self) == if r == BlurOutcome::ToGrid || r == BlurOutcome::Closed {
                (GridState { edit_cell: None, ..*old(self) })
            } else {
                *old(self)
            },
    {
        if calendar_pressed {
            return BlurOutcome::TakeBack;
        }
        if self.drop_cell_edit(at) {
            if over_grid {
                BlurOutcome::ToGrid
            } else {
                BlurOutcome::Closed
            }
        } else {
            BlurOutcome::NotOpen
        }
    }

    /// The list or calendar of a cell went away: the editing ends with it, if it had come up at all.
    /// Says whether it ended.
    pub fn picker_gone(&mut self, at: At, opened: bool, up: bool) -> (r: bool)
        ensures
            r == (opened && !up && old(self).edit_cell == Some(at)),
            *final(self) == if r {
                (GridState { edit_cell: None, ..*old(self) })
            } else {
                *old(self)
            },
    {
        if opened && !up {
            self.drop_cell_edit(at)
        } else {
            false
        }
    }
}

/// Whether a result's total can be told: it was cut short, no filter or sort was put into its
/// statement, and the connection that is active is its own.
pub fn total_is_told(truncated: bool, query: &GridQuery, tab_conn: u64, active_conn: u64) -> (r: bool)
    ensures
        r == (truncated && query.filter@.len() == 0 && query.sort@.len() == 0 && tab_conn
            == active_conn),
{
    truncated && query.filter.as_str().is_empty() && query.sort.len() == 0 && tab_conn
        == active_conn
}

/// A part of the panel was closed: it hands the keyboard to the grid when it was open before.
pub fn hands_back(was_open: Option<bool>, open: bool) -> (r: bool)
    ensures
        r == (was_open == Some(true) && !open),
{
    match was_open {
        Some(w) => w && !open,
        None => false,
    }
}

/// A turn of the wheel goes by as much as it was turned, and less only where the pane ends.
pub proof fn a_turn_goes_as_far_as_it_was_turned(at: int, by: int, content: int, room: int)
    requires
        0 <= at,
        at == 0 || at + room <= content,
    ensures
        ({
            let to = turned(at, by, content, room);
            &&& 0 <= to
            &&& to == 0 || to + room <= content
            &&& by >= 0 ==> at <= to <= at + by && (to == at + by || to + room >= content)
            &&& by <= 0 ==> at + by <= to <= at && (to == at + by || to == 0)
        }),
{
}

/// A grid that was just opened has nothing staged, selected, edited, asked for or under way.
pub proof fn a_fresh_grid_has_nothing_under_way(gs: GridState, at: At, row: usize)
    requires
        gs.is_fresh(),
    ensures
        !gs.staged@.dirty.dom().contains(at),
        gs.staged@.new_rows.len() == 0,
        !gs.staged@.del_rows.contains(row),
        gs.active is None && gs.anchor is None && gs.frozen is None,
        gs.edit_cell is None && gs.edit_buf@.len() == 0,
        !gs.edit_row_open && gs.edit_row_di is None && !gs.edit_row_saving,
        !gs.commit_busy && !gs.ai_busy && !gs.seed_open && !gs.selecting && !gs.row_selecting,
        !gs.ai_gen@.dom().contains(at),
        !gs.ai_gen_rows@.dom().contains(row),
        gs.scroll_to is None,
{
    crate::staged::nothing_staged_is_nothing_to_write(gs.staged@, at, row);
}

} // verus!
