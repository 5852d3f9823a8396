//! Writing staged changes back: what is sent, and what the answer does to the grid.

use vstd::prelude::*;
use crate::bars::{Bar, WaitNote};
use crate::keymap::At;
use crate::model::{with_fresh, EditTable, FreshRow, ResultSet};
use crate::plan::{build_refetch, build_row_edits, build_row_refetch, build_write};
use crate::plan::{changed, refetch_matches, row_edits_match, write_matches};
use crate::plan::{a_row_is_not_written_where_nothing_changes, changes_anything};
use crate::plan::{a_write_is_empty_where_nothing_is_written, writes_anything};
use crate::plan::{FieldValue, GridWrite, RefetchRow, RowEdit};
use crate::staged::StagedView;
use crate::state::{staged_at, GridState};

verus! {

/// A write that is under way: what it writes, what is read again after it, the edits it was made
/// of, and its number.
pub struct Commit {
    pub write: GridWrite,
    pub refetch: Option<Vec<RefetchRow>>,
    pub committed: Vec<At>,
    pub seq: u64,
}

/// How a write ended: with the rows read again, with the query run anew, or with an error.
pub enum CommitDone {
    Spliced(Vec<FreshRow>),
    FullReran,
    Failed(String),
}

/// The staged changes with the text of the cell that is being edited.
pub open spec fn with_open_edit(gs: GridState) -> StagedView {
    match gs.edit_cell {
        Some(at) => staged_at(gs, at, Some(gs.edit_buf)),
        None => gs.staged@,
    }
}

/// The bar once a write has been sent.
pub open spec fn bar_sent(bar: Bar) -> Bar {
    Bar { commit_err: None, commit_wait: None, ..bar }
}

/// The table that the rows of a result are read again from.
pub open spec fn template_of(gs: GridState, template: Option<usize>) -> Option<EditTable> {
    match template {
        Some(ti) => if ti < gs.model.tables@.len() {
            Some(gs.model.tables@[ti as int])
        } else {
            None
        },
        None => None,
    }
}

impl GridState {
    /// Note that a write was sent, under a new number. An earlier write's clock is stale then.
    fn arm_wait_note(&mut self) -> (r: u64)
        ensures
            r == old(self).commit_seq.wrapping_add(1),
            *final(self) == (GridState {
                commit_seq: r,
                bar: Bar { commit_wait: None, ..old(self).bar },
                ..*old(self)
            }),
    {
        self.commit_seq = self.commit_seq.wrapping_add(1);
        self.bar.commit_wait = None;
        self.commit_seq
    }

    /// The clock of a write ran out: say what there is to say of it, if it is the write that is
    /// still under way.
    pub fn wait_elapsed(&mut self, seq: u64, note: Option<WaitNote>)
        ensures
            *final(self) == if old(self).commit_seq == seq && old(self).commit_busy {
                (GridState { bar: Bar { commit_wait: note, ..old(self).bar }, ..*old(self) })
            } else {
                *old(self)
            },
    {
        if self.commit_seq == seq && self.commit_busy {
            self.bar.commit_wait = note;
        }
    }

    /// Send the staged changes. The text of a cell that is being edited is staged first. Nothing is
    /// sent while another write is under way, nor where there is nothing to write.
    ///
    /// Rows are read again only after a write of updates alone: an insert or a delete changes which
    /// rows there are. `template` is the table they can be read from.
    pub fn commit_grid(&mut self, template: Option<usize>) -> (r: Option<Commit>)
        ensures
            old(self).commit_busy ==> r is None && *final(self) == *old(self),
            !old(self).commit_busy ==> {
                let mid = GridState {
                    staged: final(self).staged,
                    edit_cell: None,
                    bar: if old(self).edit_cell is Some {
                        old(self).bar.cleared()
                    } else {
                        old(self).bar
                    },
                    ..*old(self)
                };
                &&& final(self).staged@ == with_open_edit(*old(self))
                &&& r is Some <==> writes_anything(
                    old(self).rs,
                    old(self).model,
                    final(self).staged@,
                )
                &&& match r {
                    None => *final(self) == mid,
                    Some(c) => {
                        &&& !c.write.nothing()
                        &&& write_matches(old(self).rs, old(self).model, final(self).staged@, c.write)
                        &&& c.committed@.to_set() == final(self).staged@.dirty.dom()
                        &&& c.seq == old(self).commit_seq.wrapping_add(1)
                        &&& c.refetch is Some <==> c.write.inserts@.len() == 0
                            && c.write.deletes@.len() == 0 && old(self).spliced && template_of(
                            *old(self),
                            template,
                        ) is Some
                        &&& c.refetch matches Some(rows) ==> refetch_matches(
                            old(self).rs,
                            template_of(*old(self), template)->0,
                            final(self).staged@.dirty,
                            rows@,
                        )
                        &&& *final(self) == (GridState {
                            commit_busy: true,
                            commit_seq: c.seq,
                            bar: bar_sent(mid.bar),
                            ..mid
                        })
                    },
                }
            },
    {
        if self.commit_busy {
            return None;
        }
        self.commit_edit();
        let committed: Vec<At> = self.staged.dirty_places();
        let write: GridWrite = build_write(&self.rs, &self.model, &self.staged);
        proof {
            a_write_is_empty_where_nothing_is_written(self.rs, self.model, self.staged@, write);
        }
        if write.is_empty() {
            return None;
        }
        let table: Option<&EditTable> = match template {
            Some(ti) => self.model.table(ti),
            None => None,
        };
        let refetch: Option<Vec<RefetchRow>> = if write.inserts.len() == 0 && write.deletes.len()
            == 0 {
            build_refetch(&self.rs, table, self.spliced, &self.staged)
        } else {
            None
        };
        self.commit_busy = true;
        self.bar.commit_err = None;
        let seq: u64 = self.arm_wait_note();
        Some(Commit { write, refetch, committed, seq })
    }

    /// Whether the tab's own result is replaced once these rows were put in place: where the tab has
    /// one, and there was a row to put.
    pub open spec fn syncs(self, fresh: Seq<FreshRow>) -> bool {
        self.spliced && fresh.len() > 0
    }

    /// Put rows that were read again in their places, and take out the edits that were written. Any
    /// other edit stays staged. Says whether the tab's own result is to be replaced by the grid's, so
    /// that a grid which is built anew shows the rows as they are now.
    pub fn apply_splice(&mut self, fresh: Vec<FreshRow>, committed: &Vec<At>) -> (r: bool)
        ensures
            r == old(self).syncs(fresh@),
            fresh@.len() == 0 ==> final(self).rs == old(self).rs,
            final(self).rs.rows@ == with_fresh(old(self).rs.rows@, fresh@),
            final(self).rs == (ResultSet { rows: final(self).rs.rows, ..old(self).rs }),
            final(self).staged@ == (StagedView {
                dirty: old(self).staged@.dirty.remove_keys(committed@.to_set()),
                ..old(self).staged@
            }),
            *final(self) == (GridState {
                rs: final(self).rs,
                staged: final(self).staged,
                bar: old(self).bar.cleared(),
                ..*old(self)
            }),
    {
        let replaces: bool = self.spliced && fresh.len() > 0;
        if fresh.len() > 0 {
            self.rs.splice_rows(fresh);
        }
        self.staged.drop_committed(committed);
        self.bar.clear_bar();
        replaces
    }

    /// The answer to a write of the staged changes. An error keeps them staged. Says whether the
    /// tab's own result is to be replaced by the grid's.
    pub fn commit_done(&mut self, outcome: CommitDone, committed: &Vec<At>) -> (r: bool)
        ensures
            r == (outcome matches CommitDone::Spliced(fresh) && old(self).syncs(fresh@)),
            ({
                let idle = GridState {
                    commit_busy: false,
                    bar: Bar { commit_wait: None, ..old(self).bar },
                    ..*old(self)
                };
                match outcome {
                    CommitDone::Spliced(fresh) => {
                        &&& fresh@.len() == 0 ==> final(self).rs == old(self).rs
                        &&& final(self).rs.rows@ == with_fresh(old(self).rs.rows@, fresh@)
                        &&& final(self).rs == (ResultSet {
                            rows: final(self).rs.rows,
                            ..old(self).rs
                        })
                        &&& final(self).staged@ == (StagedView {
                            dirty: old(self).staged@.dirty.remove_keys(committed@.to_set()),
                            ..old(self).staged@
                        })
                        &&& *final(self) == (GridState {
                            rs: final(self).rs,
                            staged: final(self).staged,
                            bar: idle.bar.cleared(),
                            ..idle
                        })
                    },
                    CommitDone::FullReran => *final(self) == idle,
                    CommitDone::Failed(msg) => *final(self) == (GridState {
                        bar: Bar { commit_err: Some(msg), ..idle.bar },
                        ..idle
                    }),
                }
            }),
    {
        self.commit_busy = false;
        self.bar.commit_wait = None;
        match outcome {
            CommitDone::Spliced(fresh) => self.apply_splice(fresh, committed),
            CommitDone::FullReran => false,
            CommitDone::Failed(msg) => {
                self.bar.commit_err = Some(msg);
                false
            },
        }
    }

    /// Send the changes that the row panel made to one row. They are written by themselves: what is
    /// staged elsewhere stays staged. `changes` is what the panel's fields came to, or why they
    /// cannot be written. A panel that changed nothing is closed.
    pub fn commit_row_update(
        &mut self,
        di: usize,
        changes: Result<Vec<FieldValue>, String>,
        template: Option<usize>,
    ) -> (r: Option<Commit>)
        ensures
            old(self).edit_row_saving || old(self).commit_busy ==> r is None && *final(self)
                == *old(self),
            !old(self).edit_row_saving && !old(self).commit_busy ==> match changes {
                Err(msg) => r is None && *final(self) == (GridState {
                    bar: Bar { commit_err: Some(msg), ..old(self).bar },
                    ..*old(self)
                }),
                Ok(list) => (r is Some <==> changes_anything(old(self).model, list@)) && match r {
                    None => *final(self) == (GridState { edit_row_open: false, ..*old(self) }),
                    Some(c) => {
                        &&& c.write.updates@.len() > 0
                        &&& row_edits_match(
                            old(self).rs,
                            old(self).model,
                            di,
                            list@,
                            c.write.updates@,
                        )
                        &&& c.write.inserts@.len() == 0
                        &&& c.write.deletes@.len() == 0
                        &&& c.committed@ == list@.map_values(
                            |f: FieldValue| At { row: di, col: f.ci },
                        )
                        &&& c.seq == old(self).commit_seq.wrapping_add(1)
                        &&& c.refetch is Some <==> old(self).spliced && template_of(
                            *old(self),
                            template,
                        ) is Some
                        &&& c.refetch matches Some(rows) ==> {
                            let t = template_of(*old(self), template)->0;
                            &&& rows@.len() == 1
                            &&& rows@[0].row == di
                            &&& rows@[0].key@.len() == t.key_cols@.len()
                            &&& forall|i: int|
                                0 <= i < t.key_cols@.len() ==> (#[trigger] rows@[0].key@[i]).column@
                                    == crate::model::origin_name(
                                    old(self).rs,
                                    t.key_cols@[i] as int,
                                ) && rows@[0].key@[i].value == changed(
                                    old(self).rs,
                                    di,
                                    list@,
                                    t.key_cols@[i],
                                )
                        }
                        &&& *final(self) == (GridState {
                            edit_row_saving: true,
                            commit_busy: true,
                            commit_seq: c.seq,
                            bar: bar_sent(old(self).bar),
                            ..*old(self)
                        })
                    },
                },
            },
    {
        if self.edit_row_saving || self.commit_busy {
            return None;
        }
        let list: Vec<FieldValue> = match changes {
            Ok(c) => c,
            Err(msg) => {
                self.bar.commit_err = Some(msg);
                return None;
            },
        };
        let updates: Vec<RowEdit> = build_row_edits(&self.rs, &self.model, di, &list);
        proof {
            a_row_is_not_written_where_nothing_changes(self.rs, self.model, di, list@, updates@);
        }
        if updates.len() == 0 {
            self.edit_row_open = false;
            return None;
        }
        let mut committed: Vec<At> = Vec::new();
        let mut i: usize = 0;
        while i < list.len()
            invariant
                i <= list@.len(),
                committed@ == list@.take(i as int).map_values(
                    |f: FieldValue| At { row: di, col: f.ci },
                ),
            decreases list@.len() - i,
        {
            committed.push(At { row: di, col: list[i].ci });
            i = i + 1;
            assert(committed@ =~= list@.take(i as int).map_values(
                |f: FieldValue| At { row: di, col: f.ci },
            ));
        }
        assert(list@.take(list@.len() as int) == list@);
        let table: Option<&EditTable> = match template {
            Some(ti) => self.model.table(ti),
            None => None,
        };
        let refetch: Option<Vec<RefetchRow>> = match build_row_refetch(
            &self.rs,
            table,
            self.spliced,
            di,
            &list,
        ) {
            Some(row) => {
                let mut rows: Vec<RefetchRow> = Vec::new();
                rows.push(row);
                Some(rows)
            },
            None => None,
        };
        self.edit_row_saving = true;
        self.commit_busy = true;
        self.bar.commit_err = None;
        let seq: u64 = self.arm_wait_note();
        Some(
            Commit {
                write: GridWrite { updates, inserts: Vec::new(), deletes: Vec::new() },
                refetch,
                committed,
                seq,
            },
        )
    }

    /// The answer to a write of the row panel. It closes the panel, unless it is an error. Says
    /// whether the tab's own result is to be replaced by the grid's.
    pub fn row_commit_done(&mut self, outcome: CommitDone, committed: &Vec<At>) -> (r: bool)
        ensures
            r == (outcome matches CommitDone::Spliced(fresh) && old(self).syncs(fresh@)),
            ({
                let idle = GridState {
                    commit_busy: false,
                    edit_row_saving: false,
                    bar: Bar { commit_wait: None, ..old(self).bar },
                    ..*old(self)
                };
                match outcome {
                    CommitDone::Spliced(fresh) => {
                        &&& fresh@.len() == 0 ==> final(self).rs == old(self).rs
                        &&& final(self).rs.rows@ == with_fresh(old(self).rs.rows@, fresh@)
                        &&& final(self).rs == (ResultSet {
                            rows: final(self).rs.rows,
                            ..old(self).rs
                        })
                        &&& final(self).staged@ == (StagedView {
                            dirty: old(self).staged@.dirty.remove_keys(committed@.to_set()),
                            ..old(self).staged@
                        })
                        &&& *final(self) == (GridState {
                            rs: final(self).rs,
                            staged: final(self).staged,
                            bar: idle.bar.cleared(),
                            edit_row_open: false,
                            ..idle
                        })
                    },
                    CommitDone::FullReran => *final(self) == (GridState {
                        edit_row_open: false,
                        ..idle
                    }),
                    CommitDone::Failed(msg) => *final(self) == (GridState {
                        bar: Bar { commit_err: Some(msg), ..idle.bar },
                        ..idle
                    }),
                }
            }),
    {
        self.edit_row_saving = false;
        let close: bool = match &outcome {
            CommitDone::Failed(_) => false,
            _ => true,
        };
        let replaces: bool = self.commit_done(outcome, committed);
        if close {
            self.edit_row_open = false;
        }
        replaces
    }
}

/// An edit that was staged while a write was under way is staged still when the write has been put
/// in place, and the edits that were written are not.
pub proof fn an_edit_staged_meanwhile_stays(
    dirty: Map<At, Option<String>>,
    committed: Set<At>,
    at: At,
)
    requires
        dirty.dom().contains(at),
    ensures
        dirty.remove_keys(committed).dom().contains(at) <==> !committed.contains(at),
        !committed.contains(at) ==> dirty.remove_keys(committed)[at] == dirty[at],
{
}

/// What is being typed is written with the rest: it is staged first, as if the cell had been left.
pub proof fn what_is_being_typed_is_written(gs: GridState, at: At)
    requires
        gs.edit_cell == Some(at),
        gs.order@.len() == gs.rs.rows@.len(),
        at.row < gs.rs.rows@.len(),
    ensures
        ({
            let cell = At { row: gs.order@[at.row as int], col: at.col };
            let after = with_open_edit(gs).dirty;
            let same = crate::staged::cell_holds(gs.rs, cell, Some(gs.edit_buf));
            &&& after.dom().contains(cell) <==> !same
            &&& !same ==> after[cell] == Some(gs.edit_buf)
        }),
{
    crate::state::an_edit_goes_to_the_row_that_is_shown(gs, at, Some(gs.edit_buf));
}

/// Where no cell is being edited, what is staged is written as it is.
pub proof fn what_is_staged_is_written(gs: GridState)
    requires
        gs.edit_cell is None,
    ensures
        with_open_edit(gs) == gs.staged@,
{
}

/// A write that was sent takes down the last error and the last wait, and nothing else of the bar.
pub proof fn a_write_takes_down_the_last_error(bar: Bar)
    ensures
        bar_sent(bar).commit_err is None,
        bar_sent(bar).commit_wait is None,
        bar_sent(bar).commit_note == bar.commit_note,
        bar_sent(bar).batch_err == bar.batch_err,
        bar_sent(bar).view_err == bar.view_err,
        bar_sent(bar).exporting == bar.exporting,
        bar_sent(bar).tab_id == bar.tab_id,
{
}

/// The tab's own result is replaced where it has one and a row was put in place, and only there.
pub proof fn a_splice_of_rows_replaces_the_tabs_result(gs: GridState, fresh: Seq<FreshRow>)
    ensures
        gs.syncs(fresh) ==> gs.spliced && fresh.len() > 0,
        gs.spliced && fresh.len() > 0 ==> gs.syncs(fresh),
{
}

/// The table that a row is read again from is one of the model's, the one that was asked for.
pub proof fn rows_are_read_again_from_their_table(gs: GridState, ti: usize)
    ensures
        ti < gs.model.tables@.len() ==> template_of(gs, Some(ti)) == Some(gs.model.tables@[ti as int]),
        ti >= gs.model.tables@.len() ==> template_of(gs, Some(ti)) is None,
        template_of(gs, None) is None,
{
}

/// What is being typed into a new row is written with it.
pub proof fn what_is_being_typed_into_a_new_row_is_written(gs: GridState, at: At)
    requires
        gs.edit_cell == Some(at),
        gs.order@.len() == gs.rs.rows@.len(),
        at.row >= gs.rs.rows@.len(),
        at.row - gs.rs.rows@.len() < gs.staged@.new_rows.len(),
    ensures
        ({
            let p = at.row - gs.rs.rows@.len();
            let after = with_open_edit(gs);
            let blank = gs.edit_buf@.len() == 0;
            &&& after.dirty == gs.staged@.dirty
            &&& after.new_rows.len() == gs.staged@.new_rows.len()
            &&& after.new_rows[p].dom().contains(at.col) <==> !blank
            &&& !blank ==> after.new_rows[p][at.col] == Some(gs.edit_buf)
        }),
{
    crate::state::an_edit_goes_to_the_row_that_is_shown(gs, at, Some(gs.edit_buf));
}

} // verus!
