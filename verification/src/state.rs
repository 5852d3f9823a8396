//! The state of a grid, and what the user's gestures do to it.

use vstd::prelude::*;
use crate::bars::Bar;
use crate::geometry::{scroll_active_into_view, scroll_place, Metrics, Viewport};
use crate::keymap::{At, KeyMap};
use crate::model::{EditModel, ResultSet};
use crate::plan::copy_value;
use crate::selection::{anchor_after, bounds, span_of, Span, TopBars};
use crate::staged::{discarded, duplicate, marked, stage_all, stage_new_all, toggled};
use crate::staged::{original, original_of, CellEdit, Staged, StagedView};

verus! {

/// A column that the server sorts by, and whether it ascends.
pub struct SortBy {
    pub column: String,
    pub asc: bool,
}

/// The server's part in what a grid shows: the statement it came from, the condition the user
/// set, and the columns it is sorted by.
pub struct GridQuery {
    pub base_sql: Option<String>,
    pub filter: String,
    pub sort: Vec<SortBy>,
}

/// Everything a grid knows of itself.
///
/// Selections and the cell that is being edited are given by the rows as they are shown; edits and
/// marks by the rows of the result. `order` leads from the first to the second. A row shown below
/// those of the result is a new one.
pub struct GridState {
    pub rs: ResultSet,
    pub order: Vec<usize>,
    pub model: EditModel,
    pub staged: Staged,
    pub bar: Bar,
    pub query: GridQuery,
    pub active: Option<At>,
    pub anchor: Option<At>,
    pub frozen: Option<usize>,
    pub selecting: bool,
    pub row_selecting: bool,
    pub edit_cell: Option<At>,
    pub edit_buf: String,
    pub widths: Vec<u32>,
    pub metrics: Metrics,
    pub vp: Viewport,
    pub scroll_to: Option<(u128, u128)>,
    pub top: TopBars,
    pub find_query: String,
    pub goto_query: String,
    pub edit_row_open: bool,
    pub edit_row_di: Option<usize>,
    pub edit_row_saving: bool,
    pub commit_busy: bool,
    pub commit_seq: u64,
    pub spliced: bool,
    pub ai_busy: bool,
    pub ai_gen: KeyMap<At, ()>,
    pub ai_gen_rows: KeyMap<usize, ()>,
    pub seed_open: bool,
    pub seed_buf: String,
}

/// The row of the result that is shown at a place; the place itself where no order is known.
pub open spec fn row_at(order: Seq<usize>, i: usize) -> usize {
    if i < order.len() {
        order[i as int]
    } else {
        i
    }
}

/// The first column from `ci` on that can be edited.
pub open spec fn first_editable(model: EditModel, ci: int, ncols: int) -> Option<usize>
    decreases ncols - ci,
{
    if ci >= ncols {
        None
    } else if model.can_edit(ci) {
        Some(ci as usize)
    } else {
        first_editable(model, ci + 1, ncols)
    }
}

/// The last column before `ci` that can be edited.
pub open spec fn last_editable(model: EditModel, ci: int) -> Option<usize>
    decreases ci,
{
    if ci <= 0 {
        None
    } else if model.can_edit(ci - 1) {
        Some((ci - 1) as usize)
    } else {
        last_editable(model, ci - 1)
    }
}

/// The text a cell is edited from: what is staged for it, or what it held; empty for no value.
pub open spec fn seed_text(gs: GridState, at: At) -> Seq<char> {
    if at.row < gs.rs.rows@.len() {
        let cell = At { row: row_at(gs.order@, at.row), col: at.col };
        let v = if gs.staged@.dirty.dom().contains(cell) {
            gs.staged@.dirty[cell]
        } else {
            original(gs.rs, cell)
        };
        match v {
            Some(t) => t@,
            None => Seq::empty(),
        }
    } else {
        let p = at.row - gs.rs.rows@.len();
        if p < gs.staged@.new_rows.len() && gs.staged@.new_rows[p].dom().contains(at.col) {
            match gs.staged@.new_rows[p][at.col] {
                Some(t) => t@,
                None => Seq::empty(),
            }
        } else {
            Seq::empty()
        }
    }
}

/// Whether a cell's row is one that is to go: its cells are edited no more.
pub open spec fn row_is_going(gs: GridState, row: usize) -> bool {
    row < gs.rs.rows@.len() && gs.staged@.del_rows.contains(row_at(gs.order@, row))
}

/// Whether `after` is the grid once the cell shown at `at` was opened for editing: from what it
/// holds, and not at all where its row is to go.
pub open spec fn edit_opened(before: GridState, after: GridState, at: At) -> bool {
    if row_is_going(before, at.row) {
        after == before
    } else {
        &&& after.edit_buf@ == seed_text(before, at)
        &&& after == (GridState {
            active: Some(at),
            anchor: Some(at),
            edit_cell: Some(at),
            edit_buf: after.edit_buf,
            ..before
        })
    }
}

/// The grid once a cell was made active.
pub open spec fn activated(gs: GridState, at: At, extend: bool) -> GridState {
    GridState {
        active: Some(at),
        anchor: anchor_after(gs.active, gs.anchor, at, extend),
        scroll_to: gs.scroll_after(at),
        ..gs
    }
}

/// The changes after the text of an edit was staged for the cell shown at `at`.
pub open spec fn staged_at(gs: GridState, at: At, value: Option<String>) -> StagedView {
    if at.row >= gs.rs.rows@.len() {
        let e = CellEdit {
            at: At { row: (at.row - gs.rs.rows@.len()) as usize, col: at.col },
            value,
        };
        StagedView { new_rows: stage_new_all(gs.staged@.new_rows, seq![e]), ..gs.staged@ }
    } else {
        let e = CellEdit { at: At { row: row_at(gs.order@, at.row), col: at.col }, value };
        StagedView { dirty: stage_all(gs.rs, gs.staged@.dirty, seq![e]), ..gs.staged@ }
    }
}

impl GridState {
    /// The rectangle that is selected.
    pub open spec fn span(self) -> Option<Span> {
        span_of(self.active, self.anchor)
    }

    /// The rectangle that is selected.
    pub fn bounds(&self) -> (r: Option<Span>)
        ensures
            r == self.span(),
    {
        bounds(self.active, self.anchor)
    }

    /// The row of the result that is shown at a place.
    pub fn data_row(&self, i: usize) -> (r: usize)
        ensures
            r == row_at(self.order@, i),
    {
        if i < self.order.len() {
            self.order[i]
        } else {
            i
        }
    }

    /// Stage a batch of edits of the rows of the result. An empty batch changes nothing.
    pub fn stage_many(&mut self, edits: Vec<CellEdit>)
        ensures
            final(self).staged@ == (StagedView {
                dirty: stage_all(old(self).rs, old(self).staged@.dirty, edits@),
                ..old(self).staged@
            }),
            *final(self) == (GridState {
                staged: final(self).staged,
                bar: if edits@.len() == 0 {
                    old(self).bar
                } else {
                    old(self).bar.cleared()
                },
                ..*old(self)
            }),
    {
        if edits.len() > 0 {
            self.staged.stage_many(&self.rs, edits);
            self.bar.clear_bar();
        }
    }

    /// Stage a value for a cell of the result; one that it already held is staged no longer.
    pub fn stage(&mut self, at: At, value: Option<String>)
        ensures
            final(self).staged@ == (StagedView {
                dirty: stage_all(
                    old(self).rs,
                    old(self).staged@.dirty,
                    seq![(CellEdit { at, value })],
                ),
                ..old(self).staged@
            }),
            *final(self) == (GridState {
                staged: final(self).staged,
                bar: old(self).bar.cleared(),
                ..*old(self)
            }),
    {
        let mut edits: Vec<CellEdit> = Vec::new();
        edits.push(CellEdit { at, value });
        assert(edits@ =~= seq![(CellEdit { at, value })]);
        self.stage_many(edits);
    }

    /// Stage a value for a cell of the result in any case.
    pub fn stage_set(&mut self, at: At, value: Option<String>)
        ensures
            final(self).staged@ == (StagedView {
                dirty: old(self).staged@.dirty.insert(at, value),
                ..old(self).staged@
            }),
            *final(self) == (GridState {
                staged: final(self).staged,
                bar: old(self).bar.cleared(),
                ..*old(self)
            }),
    {
        self.staged.stage_set(at, value);
        self.bar.clear_bar();
    }

    /// Stage a batch of edits of the new rows. An empty batch changes nothing.
    pub fn stage_new_many(&mut self, edits: Vec<CellEdit>)
        ensures
            final(self).staged@ == (StagedView {
                new_rows: stage_new_all(old(self).staged@.new_rows, edits@),
                ..old(self).staged@
            }),
            *final(self) == (GridState {
                staged: final(self).staged,
                bar: if edits@.len() == 0 {
                    old(self).bar
                } else {
                    old(self).bar.cleared()
                },
                ..*old(self)
            }),
    {
        if edits.len() > 0 {
            self.staged.stage_new_many(edits);
            self.bar.clear_bar();
        }
    }

    /// Stage a value for a cell of a new row, counted from the first new row.
    pub fn stage_new(&mut self, at: At, value: Option<String>)
        ensures
            final(self).staged@ == (StagedView {
                new_rows: stage_new_all(
                    old(self).staged@.new_rows,
                    seq![(CellEdit { at, value })],
                ),
                ..old(self).staged@
            }),
            *final(self) == (GridState {
                staged: final(self).staged,
                bar: old(self).bar.cleared(),
                ..*old(self)
            }),
    {
        let mut edits: Vec<CellEdit> = Vec::new();
        edits.push(CellEdit { at, value });
        assert(edits@ =~= seq![(CellEdit { at, value })]);
        self.stage_new_many(edits);
    }

    /// Stage a value for the cell shown at a place, whether its row is of the result or new.
    fn stage_shown(&mut self, at: At, value: Option<String>)
        ensures
            final(self).staged@ == staged_at(*old(self), at, value),
            *final(self) == (GridState {
                staged: final(self).staged,
                bar: old(self).bar.cleared(),
                ..*old(self)
            }),
    {
        let nrows: usize = self.rs.row_count();
        if at.row >= nrows {
            self.stage_new(At { row: at.row - nrows, col: at.col }, value);
        } else {
            let di: usize = self.data_row(at.row);
            self.stage(At { row: di, col: at.col }, value);
        }
    }

    /// Add a new row without values, and give its index among the new rows.
    pub fn add_new_row(&mut self) -> (r: usize)
        ensures
            r == old(self).staged@.new_rows.len(),
            final(self).staged@ == (StagedView {
                new_rows: old(self).staged@.new_rows.push(Map::<usize, Option<String>>::empty()),
                ..old(self).staged@
            }),
            *final(self) == (GridState {
                staged: final(self).staged,
                bar: old(self).bar.cleared(),
                ..*old(self)
            }),
    {
        let r: usize = self.staged.add_new_row();
        self.bar.clear_bar();
        r
    }

    /// Add a duplicate of each of these rows, and give the index of the first.
    pub fn add_cloned_rows(&mut self, rows: &Vec<usize>) -> (r: usize)
        ensures
            r == old(self).staged@.new_rows.len(),
            final(self).staged@ == (StagedView {
                new_rows: old(self).staged@.new_rows + rows@.map_values(
                    |row: usize| duplicate(old(self).rs, old(self).model, row),
                ),
                ..old(self).staged@
            }),
            *final(self) == (GridState {
                staged: final(self).staged,
                bar: old(self).bar.cleared(),
                ..*old(self)
            }),
    {
        let r: usize = self.staged.add_cloned_rows(&self.rs, &self.model, rows);
        self.bar.clear_bar();
        r
    }

    /// Turn round whether a row of the result is to go.
    pub fn toggle_delete(&mut self, row: usize)
        ensures
            final(self).staged@ == toggled(old(self).staged@, row),
            *final(self) == (GridState {
                staged: final(self).staged,
                bar: old(self).bar.cleared(),
                ..*old(self)
            }),
    {
        self.staged.toggle_delete(row);
        self.bar.clear_bar();
    }

    /// Mark each of these rows to go, or unmark it. The bar is cleared where a mark changed.
    pub fn set_rows_deleted(&mut self, rows: &Vec<usize>, deleted: bool)
        ensures
            final(self).staged@ == marked(old(self).staged@, rows@, deleted),
            *final(self) == (GridState {
                staged: final(self).staged,
                bar: if exists|i: int|
                    0 <= i < rows@.len() && old(self).staged@.del_rows.contains(
                        #[trigger] rows@[i],
                    ) != deleted {
                    old(self).bar.cleared()
                } else {
                    old(self).bar
                },
                ..*old(self)
            }),
    {
        let mut changes: bool = false;
        let mut i: usize = 0;
        while i < rows.len()
            invariant
                i <= rows@.len(),
                changes == exists|k: int|
                    0 <= k < i && self.staged@.del_rows.contains(#[trigger] rows@[k]) != deleted,
            decreases rows@.len() - i,
        {
            if self.staged.is_deleted(rows[i]) != deleted {
                changes = true;
            }
            i = i + 1;
        }
        self.staged.set_rows_deleted(rows, deleted);
        if changes {
            self.bar.clear_bar();
        }
    }

    /// Throw every staged change away, close the cell that is being edited, and take down what the
    /// bar says of the edits.
    pub fn discard_edits(&mut self)
        ensures
            final(self).staged@ == discarded(old(self).staged@),
            *final(self) == (GridState {
                staged: final(self).staged,
                edit_cell: None,
                bar: old(self).bar.cleared(),
                ..*old(self)
            }),
    {
        self.edit_cell = None;
        self.staged.discard();
        self.bar.clear_bar();
    }

    /// Stage the text of the cell that is being edited, if one is, and close it.
    pub fn commit_edit(&mut self)
        ensures
            match old(self).edit_cell {
                None => *final(self) == *old(self),
                Some(at) => {
                    &&& final(self).staged@ == staged_at(*old(self), at, Some(old(self).edit_buf))
                    &&& *final(self) == (GridState {
                        staged: final(self).staged,
                        edit_cell: None,
                        bar: old(self).bar.cleared(),
                        ..*old(self)
                    })
                },
            },
    {
        if let Some(at) = self.edit_cell {
            let text: String = self.edit_buf.clone();
            self.stage_shown(at, Some(text));
            self.edit_cell = None;
        }
    }

    /// The text a cell is edited from.
    fn edit_seed(&self, at: At) -> (r: String)
        ensures
            r@ == seed_text(*self, at),
    {
        let nrows: usize = self.rs.row_count();
        if at.row >= nrows {
            let p: usize = at.row - nrows;
            if p < self.staged.new_rows.len() {
                match self.staged.new_rows[p].get(at.col) {
                    Some(Some(t)) => t.clone(),
                    _ => String::new(),
                }
            } else {
                String::new()
            }
        } else {
            let cell: At = At { row: self.data_row(at.row), col: at.col };
            let v: Option<String> = match self.staged.dirty.get(cell) {
                Some(v) => copy_value(v),
                None => original_of(&self.rs, cell),
            };
            match v {
                Some(t) => t,
                None => String::new(),
            }
        }
    }

    /// Open the cell shown at a place for editing, from what it holds now. A row that is to go is
    /// not edited.
    pub fn start_edit(&mut self, at: At)
        ensures
            edit_opened(*old(self), *final(self), at),
    {
        if at.row < self.rs.row_count() && self.staged.is_deleted(self.data_row(at.row)) {
            return;
        }
        let seed: String = self.edit_seed(at);
        self.active = Some(at);
        self.anchor = Some(at);
        self.edit_buf = seed;
        self.edit_cell = Some(at);
    }

    /// Where the grid is scrolled to so that a cell is on screen.
    pub open spec fn scroll_after(self, at: At) -> Option<(u128, u128)> {
        if self.vp.w == 0 {
            self.scroll_to
        } else {
            let (x, y) = scroll_place(
                self.vp,
                self.widths@,
                self.frozen,
                self.metrics.row_h,
                at.row as int,
                at.col as int,
            );
            Some((x as u128, y as u128))
        }
    }

    /// Scroll so that a cell is on screen.
    pub fn scroll_into_view(&mut self, at: At)
        ensures
            *final(self) == (GridState { scroll_to: old(self).scroll_after(at), ..*old(self) }),
    {
        let to: Option<(u128, u128)> = scroll_active_into_view(
            self.vp,
            &self.widths,
            self.frozen,
            self.metrics.row_h,
            at.row,
            at.col,
        );
        if to.is_some() {
            self.scroll_to = to;
        }
    }

    /// Make a cell active, and scroll to it. Extending keeps the anchor of the selection.
    pub fn set_active(&mut self, at: At, extend: bool)
        ensures
            *final(self) == activated(*old(self), at, extend),
    {
        if extend {
            if self.anchor.is_none() {
                self.anchor = match self.active {
                    Some(a) => Some(a),
                    None => Some(at),
                };
            }
        } else {
            self.anchor = Some(at);
        }
        self.active = Some(at);
        self.scroll_into_view(at);
    }

    /// The next column that can be edited, or the one before.
    pub open spec fn next_col(self, ci: int, forward: bool) -> Option<usize> {
        if forward {
            first_editable(self.model, ci + 1, self.rs.columns@.len() as int)
        } else {
            last_editable(self.model, ci)
        }
    }

    /// The next column after `ci` that can be edited, or the one before it.
    pub fn next_editable_col(&self, ci: usize, forward: bool) -> (r: Option<usize>)
        ensures
            r == self.next_col(ci as int, forward),
    {
        if forward {
            if ci >= self.rs.columns.len() {
                return None;
            }
            self.editable_from(ci + 1)
        } else {
            let mut k: usize = ci;
            while k > 0
                invariant
                    !forward,
                    k <= ci,
                    last_editable(self.model, ci as int) == last_editable(self.model, k as int),
                decreases k,
            {
                if self.model.editable(k - 1) {
                    return Some(k - 1);
                }
                k = k - 1;
            }
            None
        }
    }

    /// The first column from `ci` on that can be edited.
    pub fn editable_from(&self, ci: usize) -> (r: Option<usize>)
        ensures
            r == first_editable(self.model, ci as int, self.rs.columns@.len() as int),
    {
        let n: usize = self.rs.columns.len();
        let mut k: usize = ci;
        while k < n
            invariant
                ci <= k,
                n == self.rs.columns@.len(),
                first_editable(self.model, ci as int, n as int) == first_editable(
                    self.model,
                    k as int,
                    n as int,
                ),
            decreases n - k,
        {
            if self.model.editable(k) {
                return Some(k);
            }
            k = k + 1;
        }
        None
    }

    /// Whether the rows that are shown can be counted: those of the result and the new ones.
    pub open spec fn countable(self) -> bool {
        self.rs.rows@.len() + self.staged@.new_rows.len() <= usize::MAX
    }

    /// How many rows are shown.
    pub open spec fn shown_rows(self) -> nat {
        self.rs.rows@.len() + self.staged@.new_rows.len()
    }

    /// Stage the text of the cell that is being edited, and go on to the next cell of the row that
    /// can be edited, or the one before; without one the editing ends. Says whether it goes on.
    pub fn advance_edit(&mut self, at: At, forward: bool) -> (r: bool)
        ensures
            final(self).staged@ == staged_at(*old(self), at, Some(old(self).edit_buf)),
            ({
                let next = old(self).next_col(at.col as int, forward);
                let mid = GridState {
                    staged: final(self).staged,
                    bar: old(self).bar.cleared(),
                    ..*old(self)
                };
                &&& r == (next is Some)
                &&& next is None ==> *final(self) == (GridState { edit_cell: None, ..mid })
                &&& next matches Some(nc) ==> {
                    let to = At { row: at.row, col: nc };
                    let opened = GridState {
                        active: Some(to),
                        anchor: Some(to),
                        edit_cell: Some(to),
                        edit_buf: final(self).edit_buf,
                        ..mid
                    };
                    if row_is_going(mid, at.row) {
                        *final(self) == (GridState { scroll_to: mid.scroll_after(to), ..mid })
                    } else {
                        &&& final(self).edit_buf@ == seed_text(mid, to)
                        &&& *final(self) == (GridState {
                            scroll_to: mid.scroll_after(to),
                            ..opened
                        })
                    }
                }
            }),
    {
        let text: String = self.edit_buf.clone();
        self.stage_shown(at, Some(text));
        match self.next_editable_col(at.col, forward) {
            Some(nc) => {
                let to: At = At { row: at.row, col: nc };
                self.start_edit(to);
                self.scroll_into_view(to);
                true
            },
            None => {
                self.edit_cell = None;
                false
            },
        }
    }

    /// Add a duplicate of each of these rows, and give the cell of the first that is to be shown
    /// once it is on screen: in the first column that can be edited, else in the first.
    pub fn clone_rows(&mut self, rows: &Vec<usize>) -> (r: Option<At>)
        requires
            old(self).countable(),
        ensures
            rows@.len() == 0 ==> r is None && *final(self) == *old(self),
            rows@.len() > 0 ==> {
                &&& r == Some(
                    At {
                        row: old(self).shown_rows() as usize,
                        col: match first_editable(
                            old(self).model,
                            0,
                            old(self).rs.columns@.len() as int,
                        ) {
                            Some(ci) => ci,
                            None => 0,
                        },
                    },
                )
                &&& final(self).staged@ == (StagedView {
                    new_rows: old(self).staged@.new_rows + rows@.map_values(
                        |row: usize| duplicate(old(self).rs, old(self).model, row),
                    ),
                    ..old(self).staged@
                })
                &&& *final(self) == (GridState {
                    staged: final(self).staged,
                    bar: old(self).bar.cleared(),
                    ..*old(self)
                })
            },
    {
        if rows.len() == 0 {
            return None;
        }
        let p: usize = self.add_cloned_rows(rows);
        let row: usize = self.rs.row_count() + p;
        let col: usize = match self.editable_from(0) {
            Some(ci) => ci,
            None => 0,
        };
        Some(At { row, col })
    }

    /// Add a new row. Gives the cell that is to be opened for editing once the row is on screen;
    /// where no column can be edited the row is made active at once.
    pub fn add_pending_row(&mut self) -> (r: Option<At>)
        requires
            old(self).countable(),
        ensures
            final(self).staged@ == (StagedView {
                new_rows: old(self).staged@.new_rows.push(Map::<usize, Option<String>>::empty()),
                ..old(self).staged@
            }),
            ({
                let row = old(self).shown_rows() as usize;
                let mid = GridState {
                    staged: final(self).staged,
                    bar: old(self).bar.cleared(),
                    ..*old(self)
                };
                match first_editable(old(self).model, 0, old(self).rs.columns@.len() as int) {
                    Some(ci) => r == Some(At { row, col: ci }) && *final(self) == mid,
                    None => r is None && *final(self) == (GridState {
                        active: Some(At { row, col: 0 }),
                        anchor: Some(At { row, col: 0 }),
                        ..mid
                    }),
                }
            }),
    {
        let p: usize = self.add_new_row();
        let row: usize = self.rs.row_count() + p;
        match self.editable_from(0) {
            Some(ci) => Some(At { row, col: ci }),
            None => {
                self.active = Some(At { row, col: 0 });
                self.anchor = Some(At { row, col: 0 });
                None
            },
        }
    }

    /// Point the panel that shows one row at a row of the result.
    pub fn load_edit_row(&mut self, di: usize)
        ensures
            *final(self) == (GridState {
                edit_row_di: Some(di),
                bar: old(self).bar.cleared(),
                ..*old(self)
            }),
    {
        self.edit_row_di = Some(di);
        self.bar.clear_bar();
    }

    /// Open the panel that shows one row, at a row of the result.
    pub fn open_edit_row(&mut self, di: usize)
        ensures
            *final(self) == (GridState {
                edit_row_di: Some(di),
                bar: old(self).bar.cleared(),
                seed_open: false,
                edit_row_open: true,
                ..*old(self)
            }),
    {
        self.load_edit_row(di);
        self.seed_open = false;
        self.edit_row_open = true;
    }

    /// Where a row of the result is shown: the first place that leads to it, or its own number
    /// where none does.
    pub open spec fn shown_at(self, di: usize) -> usize {
        place_of(self.order@, di, 0)
    }

    /// Where a row of the result is shown.
    pub fn edit_row_disp(&self, di: usize) -> (r: usize)
        ensures
            r == self.shown_at(di),
    {
        let mut i: usize = 0;
        while i < self.order.len()
            invariant
                i <= self.order@.len(),
                place_of(self.order@, di, 0) == place_of(self.order@, di, i as int),
            decreases self.order@.len() - i,
        {
            if self.order[i] == di {
                return i;
            }
            i = i + 1;
        }
        di
    }

    /// The row that the panel steps to, in the order that is shown; none beyond the first and the
    /// last.
    pub open spec fn stepped(self, di: usize, forward: bool) -> Option<usize> {
        let at = self.shown_at(di);
        if forward {
            if at + 1 >= self.rs.rows@.len() {
                None
            } else {
                Some(row_at(self.order@, (at + 1) as usize))
            }
        } else if at == 0 {
            None
        } else {
            Some(row_at(self.order@, (at - 1) as usize))
        }
    }

    /// Step the panel to the next row or the one before, in the order that is shown. What was not
    /// saved is dropped.
    pub fn edit_row_step(&mut self, forward: bool)
        ensures
            match old(self).edit_row_di {
                None => *final(self) == *old(self),
                Some(di) => match old(self).stepped(di, forward) {
                    None => *final(self) == *old(self),
                    Some(to) => *final(self) == (GridState {
                        edit_row_di: Some(to),
                        bar: old(self).bar.cleared(),
                        ..*old(self)
                    }),
                },
            },
    {
        if let Some(di) = self.edit_row_di {
            let at: usize = self.edit_row_disp(di);
            let nrows: usize = self.rs.row_count();
            let to: usize = if forward {
                if nrows == 0 || at >= nrows - 1 {
                    return;
                }
                at + 1
            } else {
                if at == 0 {
                    return;
                }
                at - 1
            };
            let row: usize = self.data_row(to);
            self.load_edit_row(row);
        }
    }
}

/// The first place from `i` on that leads to a row; its own number where none does.
pub open spec fn place_of(order: Seq<usize>, di: usize, i: int) -> usize
    decreases order.len() - i,
{
    if i >= order.len() {
        di
    } else if order[i] == di {
        i as usize
    } else {
        place_of(order, di, i + 1)
    }
}

proof fn lemma_place(order: Seq<usize>, at: int, i: int)
    requires
        order.no_duplicates(),
        order.len() <= usize::MAX,
        0 <= i <= at < order.len(),
    ensures
        place_of(order, order[at], i) == at,
    decreases at - i,
{
    if i < at {
        lemma_place(order, at, i + 1);
    }
}

/// A step of the row panel and a step back return to the row, where every row is shown once.
pub proof fn stepping_back_returns(gs: GridState, di: usize)
    requires
        crate::sort::is_arrangement(gs.order@, 0, gs.rs.rows@.len() as int),
        gs.rs.rows@.len() <= usize::MAX,
        di < gs.rs.rows@.len(),
        gs.stepped(di, true) is Some,
    ensures
        gs.stepped(gs.stepped(di, true)->0, false) == Some(di),
{
    let order = gs.order@;
    assert(order.contains(di));
    let at = order.index_of(di);
    lemma_place(order, at, 0);
    lemma_place(order, at + 1, 0);
}

/// The first column that can be edited, from a place on: it can be, and none before it can.
pub proof fn the_first_editable_column_is_the_nearest(model: EditModel, ci: int, ncols: int, c: int)
    requires
        0 <= ci,
        ncols <= usize::MAX,
    ensures
        first_editable(model, ci, ncols) matches Some(f) ==> ci <= f < ncols && f
            < model.editable@.len() && model.editable@[f as int],
        ci <= c < ncols && c < model.editable@.len() && model.editable@[c] ==> (first_editable(
            model,
            ci,
            ncols,
        ) matches Some(f) && f <= c),
    decreases ncols - ci,
{
    if ci < ncols && !model.can_edit(ci) {
        the_first_editable_column_is_the_nearest(model, ci + 1, ncols, c);
    }
}

/// The last column that can be edited, before a place: it can be, and none behind it can.
pub proof fn the_last_editable_column_is_the_nearest(model: EditModel, ci: int, c: int)
    requires
        ci <= usize::MAX,
    ensures
        last_editable(model, ci) matches Some(f) ==> f < ci && f < model.editable@.len()
            && model.editable@[f as int],
        0 <= c < ci && c < model.editable@.len() && model.editable@[c] ==> (last_editable(model, ci) matches Some(
            f,
        ) && c <= f),
    decreases ci,
{
    if ci > 0 && !model.can_edit(ci - 1) {
        the_last_editable_column_is_the_nearest(model, ci - 1, c);
    }
}

/// Going on from a cell leads to the next column that can be edited, to the right or to the left, and
/// passes over none.
pub proof fn going_on_passes_over_no_column(gs: GridState, ci: int, forward: bool, c: int)
    requires
        0 <= ci < usize::MAX,
        gs.rs.columns@.len() <= usize::MAX,
        0 <= c < gs.rs.columns@.len(),
        c < gs.model.editable@.len(),
        gs.model.editable@[c],
        if forward {
            c > ci
        } else {
            c < ci
        },
    ensures
        gs.next_col(ci, forward) matches Some(f) && gs.model.editable@[f as int] && if forward {
            ci < f <= c
        } else {
            c <= f < ci
        },
{
    the_first_editable_column_is_the_nearest(
        gs.model,
        ci + 1,
        gs.rs.columns@.len() as int,
        c,
    );
    the_last_editable_column_is_the_nearest(gs.model, ci, c);
}

/// What is typed into a cell is staged for the row that is shown there, or for the new row that is;
/// nothing else that is staged changes, and no row is marked.
pub proof fn an_edit_goes_to_the_row_that_is_shown(gs: GridState, at: At, value: Option<String>)
    requires
        gs.order@.len() == gs.rs.rows@.len(),
    ensures
        ({
            let after = staged_at(gs, at, value);
            let n = gs.rs.rows@.len();
            &&& at.row < n ==> {
                let cell = At { row: gs.order@[at.row as int], col: at.col };
                let same = crate::staged::cell_holds(gs.rs, cell, value);
                &&& after.new_rows == gs.staged@.new_rows
                &&& after.dirty.dom().contains(cell) <==> !same
                &&& !same ==> after.dirty[cell] == value
                &&& forall|o: At|
                    o != cell ==> (#[trigger] after.dirty.dom().contains(o)
                        <==> gs.staged@.dirty.dom().contains(o)) && (gs.staged@.dirty.dom().contains(
                        o,
                    ) ==> after.dirty[o] == gs.staged@.dirty[o])
            }
            &&& at.row >= n ==> {
                let p = at.row - n;
                let blank = value is Some && value->0@.len() == 0;
                &&& after.dirty == gs.staged@.dirty
                &&& after.new_rows.len() == gs.staged@.new_rows.len()
                &&& p < after.new_rows.len() ==> {
                    &&& after.new_rows[p].dom().contains(at.col) <==> !blank
                    &&& !blank ==> after.new_rows[p][at.col] == value
                }
            }
            &&& after.del_rows == gs.staged@.del_rows
        }),
{
    let n = gs.rs.rows@.len();
    if at.row < n {
        let cell = At { row: gs.order@[at.row as int], col: at.col };
        let edits = seq![CellEdit { at: cell, value }];
        crate::staged::an_edit_is_staged_as_it_was_given(gs.rs, gs.staged@.dirty, edits, 0);
        let after = staged_at(gs, at, value);
        assert forall|o: At| o != cell implies (#[trigger] after.dirty.dom().contains(o)
            <==> gs.staged@.dirty.dom().contains(o)) && (gs.staged@.dirty.dom().contains(o)
            ==> after.dirty[o] == gs.staged@.dirty[o]) by {
            crate::staged::other_cells_keep_what_is_staged(gs.rs, gs.staged@.dirty, edits, o);
        }
    } else {
        let e = CellEdit { at: At { row: (at.row - n) as usize, col: at.col }, value };
        crate::staged::new_rows_keep_their_number(gs.staged@.new_rows, seq![e]);
        if at.row - n < gs.staged@.new_rows.len() {
            crate::staged::a_new_row_holds_what_was_given(gs.staged@.new_rows, seq![e], 0);
        }
    }
}

/// A cell is opened with what it shows: what is staged for it, else what it holds, and nothing for no
/// value; a cell of a new row with what was given to it.
pub proof fn a_cell_opens_with_what_it_shows(gs: GridState, at: At)
    requires
        gs.order@.len() == gs.rs.rows@.len(),
    ensures
        ({
            let n = gs.rs.rows@.len();
            &&& at.row < n ==> {
                let cell = At { row: gs.order@[at.row as int], col: at.col };
                &&& gs.staged@.dirty.dom().contains(cell) && gs.staged@.dirty[cell] is Some ==> seed_text(
                    gs,
                    at,
                ) == gs.staged@.dirty[cell]->0@
                &&& gs.staged@.dirty.dom().contains(cell) && gs.staged@.dirty[cell] is None
                    ==> seed_text(gs, at).len() == 0
                &&& !gs.staged@.dirty.dom().contains(cell) ==> forall|v: Option<String>| #[trigger]
                    crate::staged::cell_holds(gs.rs, cell, v) ==> (match v {
                        Some(t) => seed_text(gs, at) == t@,
                        None => seed_text(gs, at).len() == 0,
                    })
            }
            &&& at.row >= n && at.row - n < gs.staged@.new_rows.len() ==> {
                let row = gs.staged@.new_rows[at.row - n];
                &&& row.dom().contains(at.col) && row[at.col] is Some ==> seed_text(gs, at)
                    == row[at.col]->0@
                &&& !(row.dom().contains(at.col) && row[at.col] is Some) ==> seed_text(gs, at).len() == 0
            }
        }),
{
}

/// Opening a cell makes it the one that is active and edited, and leaves everything else; a row that is
/// to go is not opened.
pub proof fn opening_a_cell_leaves_the_rest(before: GridState, after: GridState, at: At)
    requires
        edit_opened(before, after, at),
        before.order@.len() == before.rs.rows@.len(),
    ensures
        at.row < before.rs.rows@.len() && before.staged@.del_rows.contains(
            before.order@[at.row as int],
        ) ==> after == before,
        !(at.row < before.rs.rows@.len() && before.staged@.del_rows.contains(
            before.order@[at.row as int],
        )) ==> after.edit_cell == Some(at) && after.active == Some(at) && after.anchor == Some(at)
            && after.edit_buf@ == seed_text(before, at),
        after.staged == before.staged,
        after.rs == before.rs,
        after.bar == before.bar,
{
}

/// A cell that is made active is active, with the selection starting from it or going on to it;
/// nothing is staged, opened or sorted by it.
pub proof fn making_a_cell_active_leaves_the_rest(gs: GridState, at: At, extend: bool)
    ensures
        ({
            let after = activated(gs, at, extend);
            &&& after.active == Some(at)
            &&& !extend ==> after.anchor == Some(at)
            &&& extend && gs.anchor is Some ==> after.anchor == gs.anchor
            &&& extend && gs.anchor is None && gs.active is Some ==> after.anchor == gs.active
            &&& after.staged == gs.staged
            &&& after.rs == gs.rs
            &&& after.order == gs.order
            &&& after.edit_cell == gs.edit_cell
            &&& after.bar == gs.bar
            &&& after.vp == gs.vp
            &&& after.scroll_to == gs.scroll_after(at)
        }),
{
}

/// The panel steps to the row that is shown next, or the one before, in the order of the grid; at
/// either end it stays.
pub proof fn the_panel_steps_as_rows_are_shown(gs: GridState, i: int)
    requires
        crate::sort::is_arrangement(gs.order@, 0, gs.rs.rows@.len() as int),
        gs.rs.rows@.len() <= usize::MAX,
        0 <= i < gs.order@.len(),
    ensures
        i + 1 < gs.order@.len() ==> gs.stepped(gs.order@[i], true) == Some(gs.order@[i + 1]),
        i + 1 == gs.order@.len() ==> gs.stepped(gs.order@[i], true) is None,
        i > 0 ==> gs.stepped(gs.order@[i], false) == Some(gs.order@[i - 1]),
        i == 0 ==> gs.stepped(gs.order@[i], false) is None,
        gs.shown_at(gs.order@[i]) == i,
{
    lemma_place(gs.order@, i, 0);
}

/// A cell is brought into view, with its whole height and width, once the grid knows its own size.
pub proof fn an_active_cell_is_brought_into_view(gs: GridState, at: At)
    requires
        at.col < gs.widths@.len() <= usize::MAX,
        gs.metrics.row_h <= gs.vp.h,
        gs.widths@[at.col as int] <= gs.vp.w,
    ensures
        gs.vp.w == 0 ==> gs.scroll_after(at) == gs.scroll_to,
        gs.vp.w > 0 ==> gs.scroll_after(at) is Some,
        gs.vp.w > 0 ==> {
            let (x, y) = crate::geometry::scroll_place(
                gs.vp,
                gs.widths@,
                gs.frozen,
                gs.metrics.row_h,
                at.row as int,
                at.col as int,
            );
            &&& gs.scroll_after(at) == Some((x as u128, y as u128))
            &&& y <= at.row * gs.metrics.row_h
            &&& at.row * gs.metrics.row_h + gs.metrics.row_h <= y + gs.vp.h
        },
{
    crate::geometry::a_cell_that_is_scrolled_to_is_in_view(
        gs.vp,
        gs.widths@,
        gs.frozen,
        gs.metrics.row_h,
        at.row as int,
        at.col as int,
    );
}

} // verus!
