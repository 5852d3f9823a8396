//! Pasting a block of cells over a selection.

use vstd::prelude::*;
use crate::bars::Bar;
use crate::keymap::At;
use crate::selection::Span;
use crate::staged::{editing_kept_rows_is_safe, no_edit_on_deleted};
use crate::staged::{stage_all, stage_new_all, CellEdit, StagedView};
use crate::state::{row_at, row_is_going, GridState};

verus! {

/// What there is to say of a paste: nothing, that a part of it was left out, or that none of it
/// landed.
pub enum PasteReport {
    Clean,
    Notice(String),
    Failed(String),
}

/// The cells of a paste that land in rows of the result, by those rows; a row that is to go takes
/// none.
pub open spec fn landing(gs: GridState, cells: Seq<CellEdit>) -> Seq<CellEdit>
    decreases cells.len(),
{
    if cells.len() == 0 {
        cells
    } else {
        let before = landing(gs, cells.drop_last());
        let c = cells.last();
        if c.at.row >= gs.rs.rows@.len() || row_is_going(gs, c.at.row) {
            before
        } else {
            before.push(
                CellEdit {
                    at: At { row: row_at(gs.order@, c.at.row), col: c.at.col },
                    value: c.value,
                },
            )
        }
    }
}

/// The cells of a paste that land in new rows, counted from the first new row.
pub open spec fn landing_new(gs: GridState, cells: Seq<CellEdit>) -> Seq<CellEdit>
    decreases cells.len(),
{
    if cells.len() == 0 {
        cells
    } else {
        let before = landing_new(gs, cells.drop_last());
        let c = cells.last();
        if c.at.row < gs.rs.rows@.len() {
            before
        } else {
            before.push(
                CellEdit {
                    at: At { row: (c.at.row - gs.rs.rows@.len()) as usize, col: c.at.col },
                    value: c.value,
                },
            )
        }
    }
}

/// The cells of a paste that meet a row that is to go.
pub open spec fn skipped(gs: GridState, cells: Seq<CellEdit>) -> nat
    decreases cells.len(),
{
    if cells.len() == 0 {
        0
    } else if row_is_going(gs, cells.last().at.row) {
        skipped(gs, cells.drop_last()) + 1
    } else {
        skipped(gs, cells.drop_last())
    }
}

proof fn lemma_skipped(gs: GridState, cells: Seq<CellEdit>)
    ensures
        skipped(gs, cells) <= cells.len(),
    decreases cells.len(),
{
    if cells.len() > 0 {
        lemma_skipped(gs, cells.drop_last());
    }
}

impl GridState {
    /// The rectangle that a paste goes to: the selection, but none while a cell is being edited,
    /// which takes the paste as text.
    pub fn paste_target(&self) -> (r: Option<Span>)
        ensures
            r == if self.edit_cell is Some {
                None
            } else {
                self.span()
            },
    {
        if self.edit_cell.is_some() {
            None
        } else {
            self.bounds()
        }
    }

    /// Stage the cells of a paste, given by the rows as they are shown, and say how many met a row
    /// that is to go.
    pub fn paste_selection(&mut self, cells: Vec<CellEdit>) -> (r: usize)
        ensures
            r == skipped(*old(self), cells@),
            final(self).staged@ == (StagedView {
                dirty: stage_all(
                    old(self).rs,
                    old(self).staged@.dirty,
                    landing(*old(self), cells@),
                ),
                new_rows: stage_new_all(
                    old(self).staged@.new_rows,
                    landing_new(*old(self), cells@),
                ),
                ..old(self).staged@
            }),
            *final(self) == (GridState {
                staged: final(self).staged,
                bar: if landing(*old(self), cells@).len() + landing_new(*old(self), cells@).len()
                    == 0 {
                    old(self).bar
                } else {
                    old(self).bar.cleared()
                },
                ..*old(self)
            }),
    {
        let ghost all = cells@;
        let total: usize = cells.len();
        let nrows: usize = self.rs.row_count();
        let mut kept: Vec<CellEdit> = Vec::new();
        let mut pending: Vec<CellEdit> = Vec::new();
        let mut gone: usize = 0;
        for c in it: cells
            invariant
                it.seq() == all,
                all.len() == total,
                nrows == self.rs.rows@.len(),
                *self == *old(self),
                kept@ == landing(*self, all.take(it.index())),
                pending@ == landing_new(*self, all.take(it.index())),
                gone == skipped(*self, all.take(it.index())),
        {
            proof {
                assert(all.take(it.index() + 1).drop_last() == all.take(it.index()));
                assert(all.take(it.index() + 1).last() == c);
                lemma_skipped(*self, all.take(it.index()));
            }
            if c.at.row >= nrows {
                pending.push(
                    CellEdit { at: At { row: c.at.row - nrows, col: c.at.col }, value: c.value },
                );
            } else {
                let di: usize = self.data_row(c.at.row);
                if self.staged.is_deleted(di) {
                    gone = gone + 1;
                } else {
                    kept.push(CellEdit { at: At { row: di, col: c.at.col }, value: c.value });
                }
            }
        }
        assert(all.take(all.len() as int) == all);
        self.stage_many(kept);
        self.stage_new_many(pending);
        gone
    }

    /// Say what there is to say of a paste: a part that was left out is a note, and a paste of which
    /// nothing landed is an error.
    pub fn paste_reported(&mut self, report: PasteReport)
        ensures
            *final(self) == match report {
                PasteReport::Clean => *old(self),
                PasteReport::Notice(m) => (GridState {
                    bar: Bar { commit_note: Some(m), ..old(self).bar },
                    ..*old(self)
                }),
                PasteReport::Failed(m) => (GridState {
                    bar: Bar { commit_err: Some(m), ..old(self).bar },
                    ..*old(self)
                }),
            },
    {
        match report {
            PasteReport::Clean => {},
            PasteReport::Notice(m) => {
                self.bar.commit_note = Some(m);
            },
            PasteReport::Failed(m) => {
                self.bar.commit_err = Some(m);
            },
        }
    }
}

proof fn lemma_landing_stays(gs: GridState, cells: Seq<CellEdit>)
    ensures
        forall|i: int|
            0 <= i < landing(gs, cells).len() ==> !gs.staged@.del_rows.contains(
                (#[trigger] landing(gs, cells)[i]).at.row,
            ),
    decreases cells.len(),
{
    if cells.len() > 0 {
        lemma_landing_stays(gs, cells.drop_last());
    }
}

/// A paste leaves no edit on a row that is to go.
pub proof fn a_paste_spares_deleted_rows(gs: GridState, cells: Seq<CellEdit>)
    requires
        no_edit_on_deleted(gs.staged@),
    ensures
        no_edit_on_deleted(
            StagedView {
                dirty: stage_all(gs.rs, gs.staged@.dirty, landing(gs, cells)),
                new_rows: stage_new_all(gs.staged@.new_rows, landing_new(gs, cells)),
                ..gs.staged@
            },
        ),
{
    lemma_landing_stays(gs, cells);
    editing_kept_rows_is_safe(gs.rs, gs.staged@, landing(gs, cells));
    let a = StagedView {
        dirty: stage_all(gs.rs, gs.staged@.dirty, landing(gs, cells)),
        ..gs.staged@
    };
    let b = StagedView {
        dirty: stage_all(gs.rs, gs.staged@.dirty, landing(gs, cells)),
        new_rows: stage_new_all(gs.staged@.new_rows, landing_new(gs, cells)),
        ..gs.staged@
    };
    assert forall|at: At| #[trigger] b.dirty.dom().contains(at) implies !b.del_rows.contains(
        at.row,
    ) by {
        assert(a.dirty.dom().contains(at));
    }
}

/// What is pasted over a row of the result is staged for the row that is shown there, as it was
/// pasted: the last of it where a cell is given several.
pub proof fn a_paste_lands_where_it_is_shown(
    gs: GridState,
    cells: Seq<CellEdit>,
    i: int,
)
    requires
        gs.order@.len() == gs.rs.rows@.len(),
        gs.order@.no_duplicates(),
        0 <= i < cells.len(),
        cells[i].at.row < gs.rs.rows@.len(),
        !gs.staged@.del_rows.contains(gs.order@[cells[i].at.row as int]),
        forall|j: int| i < j < cells.len() ==> (#[trigger] cells[j]).at != cells[i].at,
    ensures
        ({
            let cell = At { row: gs.order@[cells[i].at.row as int], col: cells[i].at.col };
            let after = stage_all(gs.rs, gs.staged@.dirty, landing(gs, cells));
            let same = crate::staged::cell_holds(gs.rs, cell, cells[i].value);
            &&& after.dom().contains(cell) <==> !same
            &&& !same ==> after[cell] == cells[i].value
        }),
    decreases cells.len(),
{
    let front = cells.drop_last();
    let last = cells.last();
    let cell = At { row: gs.order@[cells[i].at.row as int], col: cells[i].at.col };
    if i < cells.len() - 1 {
        assert(cells[cells.len() - 1].at != cells[i].at);
        assert forall|j: int| i < j < front.len() implies (#[trigger] front[j]).at != front[i].at by {
            assert(cells[j].at != cells[i].at);
        }
        a_paste_lands_where_it_is_shown(gs, front, i);
        if last.at.row < gs.rs.rows@.len() && !row_is_going(gs, last.at.row) {
            let e = landing(gs, cells).last();
            assert(landing(gs, cells).drop_last() =~= landing(gs, front));
            assert(e.at != cell);
        }
    } else {
        let e = landing(gs, cells).last();
        assert(landing(gs, cells).drop_last() =~= landing(gs, front));
        assert(e.at == cell);
    }
}

/// Every cell of a paste lands in a row of the result, in a new row, or is counted as left out, and in
/// only one of them; none is left out but for a row that is to go.
pub proof fn no_cell_of_a_paste_is_lost(gs: GridState, cells: Seq<CellEdit>)
    ensures
        landing(gs, cells).len() + landing_new(gs, cells).len() + skipped(gs, cells) == cells.len(),
        (forall|j: int|
            0 <= j < cells.len() ==> (#[trigger] cells[j]).at.row >= gs.rs.rows@.len()
                || !gs.staged@.del_rows.contains(row_at(gs.order@, cells[j].at.row))) ==> skipped(
            gs,
            cells,
        ) == 0,
    decreases cells.len(),
{
    if cells.len() > 0 {
        let front = cells.drop_last();
        no_cell_of_a_paste_is_lost(gs, front);
        if forall|j: int|
            0 <= j < cells.len() ==> (#[trigger] cells[j]).at.row >= gs.rs.rows@.len()
                || !gs.staged@.del_rows.contains(row_at(gs.order@, cells[j].at.row)) {
            assert(cells[cells.len() - 1].at.row >= gs.rs.rows@.len() || !gs.staged@.del_rows.contains(
                row_at(gs.order@, cells[cells.len() - 1].at.row),
            ));
            assert forall|j: int| 0 <= j < front.len() implies (#[trigger] front[j]).at.row
                >= gs.rs.rows@.len() || !gs.staged@.del_rows.contains(
                row_at(gs.order@, front[j].at.row),
            ) by {
                assert(cells[j].at.row >= gs.rs.rows@.len() || !gs.staged@.del_rows.contains(
                    row_at(gs.order@, cells[j].at.row),
                ));
            }
        }
    }
}

/// What is pasted over a new row lands in that row, as it was pasted: the last of it where a cell is
/// given several, and an empty text leaves the cell to the server.
pub proof fn a_paste_lands_in_new_rows(gs: GridState, cells: Seq<CellEdit>, i: int)
    requires
        0 <= i < cells.len(),
        cells[i].at.row >= gs.rs.rows@.len(),
        cells[i].at.row - gs.rs.rows@.len() < gs.staged@.new_rows.len(),
        forall|j: int| i < j < cells.len() ==> (#[trigger] cells[j]).at != cells[i].at,
    ensures
        ({
            let after = stage_new_all(gs.staged@.new_rows, landing_new(gs, cells));
            let row = after[cells[i].at.row - gs.rs.rows@.len()];
            let blank = cells[i].value is Some && cells[i].value->0@.len() == 0;
            &&& after.len() == gs.staged@.new_rows.len()
            &&& row.dom().contains(cells[i].at.col) <==> !blank
            &&& !blank ==> row[cells[i].at.col] == cells[i].value
        }),
    decreases cells.len(),
{
    let front = cells.drop_last();
    let last = cells.last();
    crate::staged::new_rows_keep_their_number(gs.staged@.new_rows, landing_new(gs, cells));
    crate::staged::new_rows_keep_their_number(gs.staged@.new_rows, landing_new(gs, front));
    if i < cells.len() - 1 {
        assert(cells[cells.len() - 1].at != cells[i].at);
        assert forall|j: int| i < j < front.len() implies (#[trigger] front[j]).at != front[i].at by {
            assert(cells[j].at != cells[i].at);
        }
        a_paste_lands_in_new_rows(gs, front, i);
        if last.at.row >= gs.rs.rows@.len() {
            assert(landing_new(gs, cells).drop_last() =~= landing_new(gs, front));
        }
    } else {
        assert(landing_new(gs, cells).drop_last() =~= landing_new(gs, front));
        if last.value is Some && last.value->0@.len() == 0 {
            assert(last.value->0@ =~= Seq::<char>::empty());
        }
    }
}

} // verus!
