//! What the assistant is asked and sent, and what becomes of its answers.

use vstd::prelude::*;
use crate::bars::Bar;
use crate::cell::{staged_for, staged_value, RowRef};
use crate::cell::{row_shown_at, shown_row};
use crate::keymap::At;
use crate::model::ResultSet;
use crate::plan::copy_value;
use crate::selection::{kind_of, selection_kind, SelKind, Span};
use crate::staged::{original, original_of, stage_new_all, without_rows, CellEdit, StagedView};
use crate::state::{row_at, GridState};
use crate::text::{decimal, digits, parse_count, parsed, plural, trim, trimmed};

verus! {

/// The rows and columns that the selection would send, at most `cap` rows.
pub fn attach_extent(span: Option<Span>, cap: usize) -> (r: (usize, usize))
    requires
        span matches Some(s) ==> s.ordered() && s.r1 < usize::MAX && s.c1 < usize::MAX,
    ensures
        ({
            let (rows, cols) = match span {
                Some(s) => (s.r1 - s.r0 + 1, s.c1 - s.c0 + 1),
                None => (1, 1),
            };
            r.0 == (if rows < cap {
                rows
            } else {
                cap as int
            }) && r.1 == cols
        }),
{
    let (rows, cols): (usize, usize) = match span {
        Some(s) => (s.r1 - s.r0 + 1, s.c1 - s.c0 + 1),
        None => (1, 1),
    };
    (
        if rows < cap {
            rows
        } else {
            cap
        },
        cols,
    )
}

/// The rows and columns that the whole result would send, at most `cap` rows: those that are shown,
/// without the new ones.
pub fn attach_label(gs: &GridState, cap: usize) -> (r: (usize, usize))
    ensures
        r.0 == if gs.order@.len() < cap {
            gs.order@.len() as int
        } else {
            cap as int
        },
        r.1 == gs.rs.columns@.len(),
{
    (
        if gs.order.len() < cap {
            gs.order.len()
        } else {
            cap
        },
        gs.rs.col_count(),
    )
}

/// The pulse of the cells that the assistant is asked for: it runs once, until nothing is asked.
#[derive(Clone, Copy, Debug, PartialEq, Eq, Structural)]
pub struct Pulse {
    pub running: bool,
}

impl Pulse {
    /// Start the pulse. Says whether it is to tick now: not where it runs already.
    pub fn start_ai_pulse(&mut self) -> (r: bool)
        ensures
            r == !old(self).running,
            final(self).running,
    {
        let starts: bool = !self.running;
        self.running = true;
        starts
    }

    /// The pulse ticks. Says whether it goes on: as long as anything is asked.
    pub fn ai_pulse_tick(&mut self, busy: bool) -> (r: bool)
        ensures
            r == busy,
            final(self).running == (busy && old(self).running),
    {
        if !busy {
            self.running = false;
        }
        busy
    }
}

/// What an attachment is called: the rows and columns that were taken, where they came from, and
/// how many were selected where not all were taken.
pub open spec fn summary_text(
    rows: nat,
    cols: nat,
    source: Option<String>,
    total: nat,
) -> Seq<char> {
    digits(rows) + " "@ + (if rows == 1 {
        "row"@
    } else {
        "rows"@
    }) + " × "@ + digits(cols) + " "@ + (if cols == 1 {
        "column"@
    } else {
        "columns"@
    }) + (match source {
        Some(t) => " from "@ + t@,
        None => ""@,
    }) + (if total > rows {
        " (the first "@ + digits(rows) + " of "@ + digits(total) + " selected)"@
    } else {
        ""@
    })
}

/// What an attachment is called; nothing where it holds nothing.
pub fn attach_summary(rows: usize, cols: usize, source: &Option<String>, total: usize) -> (r: Option<
    String,
>)
    ensures
        r is None <==> rows == 0 || cols == 0,
        r matches Some(s) ==> s@ == summary_text(
            rows as nat,
            cols as nat,
            *source,
            total as nat,
        ),
{
    if rows == 0 || cols == 0 {
        return None;
    }
    let mut out: String = decimal(rows as u128);
    out.append(" ");
    out.append(plural(rows as u64, "row", "rows"));
    out.append(" × ");
    out.append(decimal(cols as u128).as_str());
    out.append(" ");
    out.append(plural(cols as u64, "column", "columns"));
    let from: String = match source {
        Some(t) => {
            let mut s: String = " from ".to_owned();
            s.append(t.as_str());
            s
        },
        None => "".to_owned(),
    };
    out.append(from.as_str());
    let capped: String = if total > rows {
        let mut s: String = " (the first ".to_owned();
        s.append(decimal(rows as u128).as_str());
        s.append(" of ");
        s.append(decimal(total as u128).as_str());
        s.append(" selected)");
        s
    } else {
        "".to_owned()
    };
    out.append(capped.as_str());
    Some(out)
}

/// What a cell holds as it is drawn: what is staged, else what was read; a new row's cell that was
/// left alone holds nothing.
pub open spec fn current_value(gs: GridState, row: RowRef, ci: usize) -> Option<String> {
    match staged_value(gs, row, ci) {
        Some(v) => v,
        None => match row {
            RowRef::Data(di) => original(gs.rs, At { row: di, col: ci }),
            RowRef::New(_) => None,
        },
    }
}

/// What a cell holds as it is drawn.
pub fn value_now(gs: &GridState, row: RowRef, ci: usize) -> (r: Option<String>)
    ensures
        r == current_value(*gs, row, ci),
{
    match staged_for(gs, row, ci) {
        Some(v) => copy_value(v),
        None => match row {
            RowRef::Data(di) => original_of(&gs.rs, At { row: di, col: ci }),
            RowRef::New(_) => None,
        },
    }
}

/// A column's own name, else the name the result gives it.
pub open spec fn own_name(rs: ResultSet, ci: int) -> String {
    match rs.columns@[ci].origin {
        Some(o) => o.column,
        None => rs.columns@[ci].name,
    }
}

/// A column's own name, else the name the result gives it.
fn name_of(rs: &ResultSet, ci: usize) -> (r: String)
    requires
        ci < rs.columns@.len(),
    ensures
        r == own_name(*rs, ci as int),
{
    match &rs.columns[ci].origin {
        Some(o) => o.column.clone(),
        None => rs.columns[ci].name.clone(),
    }
}

/// A column of a row, by its name, and what it holds.
pub struct NamedValue {
    pub name: String,
    pub value: Option<String>,
}

/// The other columns of the row that are of the same table, among the first `n`.
pub open spec fn row_context(gs: GridState, row: RowRef, ci: usize, ti: usize, n: int) -> Seq<
    NamedValue,
>
    decreases n,
{
    if n <= 0 {
        Seq::empty()
    } else {
        let before = row_context(gs, row, ci, ti, n - 1);
        if n - 1 != ci && gs.model.table_at(n - 1) == Some(ti) {
            before.push(
                NamedValue {
                    name: own_name(gs.rs, n - 1),
                    value: current_value(gs, row, (n - 1) as usize),
                },
            )
        } else {
            before
        }
    }
}

/// A value that the assistant is asked for: the cell as it is shown, its row, the table and column
/// it is for, and what the rest of the row holds.
pub struct FillRequest {
    pub at: At,
    pub row: RowRef,
    pub table_idx: usize,
    pub column: String,
    pub row_context: Vec<NamedValue>,
}

/// What the assistant answered.
pub enum FillResult {
    Value(String),
    Null,
    Failed(String),
}

/// Whether the assistant can be asked for the active cell's value, and of which table it is.
pub open spec fn fill_table(gs: GridState, may_attach: bool) -> Option<usize> {
    if gs.ai_busy || !may_attach || gs.active is None {
        None
    } else {
        let ci = gs.active->0.col as int;
        if !gs.model.can_edit(ci) {
            None
        } else {
            match gs.model.table_at(ci) {
                Some(ti) => if ti < gs.model.tables@.len() {
                    Some(ti)
                } else {
                    None
                },
                None => None,
            }
        }
    }
}

/// The cells that are being generated after a request: one of the result is marked.
pub open spec fn generating_after(gen: Map<At, ()>, row: RowRef, ci: usize) -> Map<At, ()> {
    match row {
        RowRef::Data(di) => gen.insert(At { row: di, col: ci }, ()),
        RowRef::New(_) => gen,
    }
}

/// The cells that are being generated after an answer.
pub open spec fn generated(gen: Map<At, ()>, row: RowRef, ci: usize) -> Map<At, ()> {
    match row {
        RowRef::Data(di) => gen.remove(At { row: di, col: ci }),
        RowRef::New(_) => gen,
    }
}

impl GridState {
    /// Ask the assistant for the active cell's value. Nothing is asked while it is busy, where it
    /// may not be sent values, or for a cell that cannot be written.
    pub fn ai_fill_value(&mut self, may_attach: bool) -> (r: Option<FillRequest>)
        ensures
            r is Some <==> fill_table(*old(self), may_attach) is Some,
            r is None ==> *final(self) == *old(self),
            r matches Some(q) ==> {
                let gs = *old(self);
                &&& Some(q.at) == gs.active
                &&& q.row == shown_row(gs, q.at.row)
                &&& Some(q.table_idx) == fill_table(gs, may_attach)
                &&& q.column@ == if q.at.col < gs.rs.columns@.len() {
                    own_name(gs.rs, q.at.col as int)@
                } else {
                    Seq::empty()
                }
                &&& q.row_context@ == row_context(
                    gs,
                    q.row,
                    q.at.col,
                    q.table_idx,
                    gs.rs.columns@.len() as int,
                )
                &&& final(self).ai_gen@ == generating_after(gs.ai_gen@, q.row, q.at.col)
                &&& *final(self) == (GridState {
                    ai_gen: final(self).ai_gen,
                    ai_busy: true,
                    bar: Bar { commit_err: None, ..gs.bar },
                    ..gs
                })
            },
    {
        if self.ai_busy || !may_attach {
            return None;
        }
        let at: At = match self.active {
            Some(a) => a,
            None => return None,
        };
        if !self.model.editable(at.col) {
            return None;
        }
        let ti: usize = match self.model.table_index(at.col) {
            Some(t) => t,
            None => return None,
        };
        if self.model.table(ti).is_none() {
            return None;
        }
        let row: RowRef = row_shown_at(self, at.row);
        let ncols: usize = self.rs.columns.len();
        let mut context: Vec<NamedValue> = Vec::new();
        let mut cj: usize = 0;
        while cj < ncols
            invariant
                *self == *old(self),
                ncols == self.rs.columns@.len(),
                cj <= ncols,
                context@ == row_context(*self, row, at.col, ti, cj as int),
            decreases ncols - cj,
        {
            if cj != at.col && self.model.table_index(cj) == Some(ti) {
                context.push(
                    NamedValue { name: name_of(&self.rs, cj), value: value_now(self, row, cj) },
                );
            }
            cj = cj + 1;
        }
        let column: String = if at.col < ncols {
            name_of(&self.rs, at.col)
        } else {
            String::new()
        };
        if let RowRef::Data(di) = row {
            self.ai_gen.insert(At { row: di, col: at.col }, ());
        }
        self.ai_busy = true;
        self.bar.commit_err = None;
        Some(FillRequest { at, row, table_idx: ti, column, row_context: context })
    }

    /// The changes once a value was put into a cell, whether it differs from what the cell held or
    /// not: an answer always shows.
    pub open spec fn filled(self, at: At, row: RowRef, value: Option<String>) -> StagedView {
        match row {
            RowRef::New(p) => StagedView {
                new_rows: stage_new_all(
                    self.staged@.new_rows,
                    seq![CellEdit { at: At { row: p, col: at.col }, value }],
                ),
                ..self.staged@
            },
            RowRef::Data(_) => StagedView {
                dirty: self.staged@.dirty.insert(
                    At { row: row_at(self.order@, at.row), col: at.col },
                    value,
                ),
                ..self.staged@
            },
        }
    }

    /// Put a value into the cell that was asked for.
    fn stage_fill(&mut self, at: At, row: RowRef, value: Option<String>)
        ensures
            final(self).staged@ == old(self).filled(at, row, value),
            *final(self) == (GridState {
                staged: final(self).staged,
                bar: old(self).bar.cleared(),
                ..*old(self)
            }),
    {
        match row {
            RowRef::New(p) => self.stage_new(At { row: p, col: at.col }, value),
            RowRef::Data(_) => {
                let di: usize = self.data_row(at.row);
                self.stage_set(At { row: di, col: at.col }, value);
            },
        }
    }

    /// The assistant's answer for a cell: it is staged as an edit, and an error goes on the bar.
    pub fn ai_fill_done(&mut self, at: At, row: RowRef, result: FillResult)
        ensures
            final(self).ai_gen@ == generated(old(self).ai_gen@, row, at.col),
            ({
                let idle = GridState {
                    ai_busy: false,
                    ai_gen: final(self).ai_gen,
                    ..*old(self)
                };
                match result {
                    FillResult::Failed(e) => *final(self) == (GridState {
                        bar: Bar { commit_err: Some(e), ..idle.bar },
                        ..idle
                    }),
                    FillResult::Null => {
                        &&& final(self).staged@ == old(self).filled(at, row, None)
                        &&& *final(self) == (GridState {
                            staged: final(self).staged,
                            bar: idle.bar.cleared(),
                            ..idle
                        })
                    },
                    FillResult::Value(v) => {
                        &&& final(self).staged@ == old(self).filled(at, row, Some(v))
                        &&& *final(self) == (GridState {
                            staged: final(self).staged,
                            bar: idle.bar.cleared(),
                            ..idle
                        })
                    },
                }
            }),
    {
        self.ai_busy = false;
        if let RowRef::Data(di) = row {
            self.ai_gen.remove(At { row: di, col: at.col });
        }
        match result {
            FillResult::Value(v) => self.stage_fill(at, row, Some(v)),
            FillResult::Null => self.stage_fill(at, row, None),
            FillResult::Failed(e) => {
                self.bar.commit_err = Some(e);
            },
        }
    }
}

/// A column that the assistant fills in new rows, by its own name.
pub struct SeedCol {
    pub name: String,
    pub ci: usize,
}

/// Whether the assistant fills a column: one that can be edited, and that the server does not
/// number itself.
pub open spec fn is_seeded(gs: GridState, ci: int) -> bool {
    gs.model.can_edit(ci) && !(gs.rs.columns@[ci].origin matches Some(o) && o.auto_increment)
}

/// The columns that the assistant fills, among the first `n`.
pub open spec fn seed_cols(gs: GridState, n: int) -> Seq<SeedCol>
    decreases n,
{
    if n <= 0 {
        Seq::empty()
    } else if is_seeded(gs, n - 1) {
        seed_cols(gs, n - 1).push(SeedCol { name: own_name(gs.rs, n - 1), ci: (n - 1) as usize })
    } else {
        seed_cols(gs, n - 1)
    }
}

/// New rows that the assistant is asked for: the columns it fills, and the rows that were added for
/// them. `rows_gen` tells whether those rows are there still.
pub struct SeedRequest {
    pub cols: Vec<SeedCol>,
    pub first: usize,
    pub count: usize,
    pub rows_gen: u64,
}

/// What the assistant answered: a list of rows, or an error.
pub enum SeedResult {
    Rows(Vec<Vec<NamedValue>>),
    Failed(String),
}

/// So many rows without values.
pub open spec fn blank_rows(n: nat) -> Seq<Map<usize, Option<String>>> {
    Seq::new(n, |i: int| Map::<usize, Option<String>>::empty())
}

/// The column of this name that the assistant fills: the last one, where several have it.
pub open spec fn seeded_col(cols: Seq<SeedCol>, name: Seq<char>) -> Option<usize>
    decreases cols.len(),
{
    if cols.len() == 0 {
        None
    } else if cols.last().name@ == name {
        Some(cols.last().ci)
    } else {
        seeded_col(cols.drop_last(), name)
    }
}

/// The edits of one answered row; a column that was not asked for is left out.
pub open spec fn row_edits(cols: Seq<SeedCol>, p: usize, row: Seq<NamedValue>) -> Seq<CellEdit>
    decreases row.len(),
{
    if row.len() == 0 {
        Seq::empty()
    } else {
        let before = row_edits(cols, p, row.drop_last());
        match seeded_col(cols, row.last().name@) {
            Some(ci) => before.push(
                CellEdit { at: At { row: p, col: ci }, value: row.last().value },
            ),
            None => before,
        }
    }
}

/// The edits of the first `n` answered rows.
pub open spec fn reply_edits(
    cols: Seq<SeedCol>,
    first: int,
    rows: Seq<Vec<NamedValue>>,
    n: int,
) -> Seq<CellEdit>
    decreases n,
{
    if n <= 0 {
        Seq::empty()
    } else {
        reply_edits(cols, first, rows, n - 1) + row_edits(
            cols,
            (first + n - 1) as usize,
            rows[n - 1]@,
        )
    }
}

/// How many answered rows are used: as many as were asked for, at most.
pub open spec fn used_rows(count: usize, rows: Seq<Vec<NamedValue>>) -> int {
    if rows.len() < count {
        rows.len() as int
    } else {
        count as int
    }
}

/// The column of this name that the assistant fills.
fn find_seeded(cols: &Vec<SeedCol>, name: &String) -> (r: Option<usize>)
    ensures
        r == seeded_col(cols@, name@),
{
    let mut k: usize = cols.len();
    assert(cols@.take(k as int) =~= cols@);
    while k > 0
        invariant
            k <= cols@.len(),
            seeded_col(cols@, name@) == seeded_col(cols@.take(k as int), name@),
        decreases k,
    {
        assert(cols@.take(k as int).drop_last() =~= cols@.take(k - 1));
        if cols[k - 1].name == *name {
            return Some(cols[k - 1].ci);
        }
        k = k - 1;
    }
    None
}

impl GridState {
    /// Whether the assistant can be asked for new rows.
    pub open spec fn can_seed(self, count: usize, may_attach: bool) -> bool {
        !self.ai_busy && count > 0 && may_attach && self.model.row_target() is Some
    }

    /// Ask the assistant for new rows: they are added without values, marked, and scrolled to.
    /// Nothing is asked while it is busy, where it may not be sent values, or where the result has
    /// no table to insert into.
    pub fn ai_seed_rows(&mut self, count: usize, may_attach: bool) -> (r: Option<SeedRequest>)
        requires
            old(self).rs.rows@.len() + old(self).staged@.new_rows.len() + count <= usize::MAX,
        ensures
            r is Some <==> old(self).can_seed(count, may_attach),
            r is None ==> *final(self) == *old(self),
            r matches Some(q) ==> {
                let gs = *old(self);
                &&& q.cols@ == seed_cols(gs, gs.rs.columns@.len() as int)
                &&& q.first == gs.staged@.new_rows.len()
                &&& q.count == count
                &&& q.rows_gen == gs.staged@.new_rows_gen
                &&& final(self).staged@ == (StagedView {
                    new_rows: gs.staged@.new_rows + blank_rows(count as nat),
                    ..gs.staged@
                })
                &&& forall|p: usize| #[trigger]
                    final(self).ai_gen_rows@.dom().contains(p) <==> gs.ai_gen_rows@.dom().contains(
                        p,
                    ) || q.first <= p < q.first + count
                &&& *final(self) == (GridState {
                    staged: final(self).staged,
                    ai_gen_rows: final(self).ai_gen_rows,
                    ai_busy: true,
                    bar: gs.bar.cleared(),
                    scroll_to: gs.scroll_after(
                        At { row: (gs.rs.rows@.len() + q.first) as usize, col: 0 },
                    ),
                    ..gs
                })
            },
    {
        if self.ai_busy || count == 0 || !may_attach || self.model.insert_target().is_none() {
            return None;
        }
        let ncols: usize = self.rs.columns.len();
        let mut cols: Vec<SeedCol> = Vec::new();
        let mut cj: usize = 0;
        while cj < ncols
            invariant
                *self == *old(self),
                ncols == self.rs.columns@.len(),
                cj <= ncols,
                cols@ == seed_cols(*self, cj as int),
            decreases ncols - cj,
        {
            let auto: bool = match &self.rs.columns[cj].origin {
                Some(o) => o.auto_increment,
                None => false,
            };
            if self.model.editable(cj) && !auto {
                cols.push(SeedCol { name: name_of(&self.rs, cj), ci: cj });
            }
            cj = cj + 1;
        }
        let first: usize = self.staged.new_rows.len();
        let rows_gen: u64 = self.staged.new_rows_gen;
        let mut i: usize = 0;
        assert(self.staged@.new_rows + blank_rows(0) =~= self.staged@.new_rows);
        while i < count
            invariant
                i <= count,
                first == old(self).staged@.new_rows.len(),
                first + count <= usize::MAX,
                self.staged@ == (StagedView {
                    new_rows: old(self).staged@.new_rows + blank_rows(i as nat),
                    ..old(self).staged@
                }),
                forall|p: usize| #[trigger]
                    self.ai_gen_rows@.dom().contains(p) <==> old(
                        self,
                    ).ai_gen_rows@.dom().contains(p) || first <= p < first + i,
                *self == (GridState {
                    staged: self.staged,
                    ai_gen_rows: self.ai_gen_rows,
                    bar: if i == 0 {
                        old(self).bar
                    } else {
                        old(self).bar.cleared()
                    },
                    ..*old(self)
                }),
            decreases count - i,
        {
            let p: usize = self.add_new_row();
            self.ai_gen_rows.insert(p, ());
            proof {
                assert(self.staged@.new_rows =~= old(self).staged@.new_rows + blank_rows(
                    (i + 1) as nat,
                ));
            }
            i = i + 1;
        }
        self.ai_busy = true;
        self.bar.commit_err = None;
        let row: usize = self.rs.row_count() + first;
        self.scroll_into_view(At { row, col: 0 });
        Some(SeedRequest { cols, first, count, rows_gen })
    }

    /// The assistant's answer for new rows. Where those rows were thrown away meanwhile it is
    /// dropped; a short answer leaves the rest of the rows without values; and an error takes the
    /// rows back.
    pub fn ai_seed_done(&mut self, q: &SeedRequest, result: SeedResult)
        requires
            q.first + q.count <= usize::MAX,
        ensures
            forall|p: usize| #[trigger]
                final(self).ai_gen_rows@.dom().contains(p) <==> old(
                    self,
                ).ai_gen_rows@.dom().contains(p) && !(q.first <= p < q.first + q.count),
            ({
                let idle = GridState {
                    ai_busy: false,
                    ai_gen_rows: final(self).ai_gen_rows,
                    ..*old(self)
                };
                if old(self).staged@.new_rows_gen != q.rows_gen {
                    *final(self) == idle
                } else {
                    match result {
                        SeedResult::Failed(e) => {
                            &&& final(self).staged@ == (StagedView {
                                new_rows: without_rows(
                                    old(self).staged@.new_rows,
                                    q.first as int,
                                    q.count as int,
                                ),
                                ..old(self).staged@
                            })
                            &&& *final(self) == (GridState {
                                staged: final(self).staged,
                                bar: Bar { commit_err: Some(e), ..idle.bar },
                                ..idle
                            })
                        },
                        SeedResult::Rows(rows) => {
                            let edits = reply_edits(
                                q.cols@,
                                q.first as int,
                                rows@,
                                used_rows(q.count, rows@),
                            );
                            &&& final(self).staged@ == (StagedView {
                                new_rows: stage_new_all(old(self).staged@.new_rows, edits),
                                ..old(self).staged@
                            })
                            &&& *final(self) == (GridState {
                                staged: final(self).staged,
                                bar: if edits.len() == 0 {
                                    idle.bar
                                } else {
                                    idle.bar.cleared()
                                },
                                ..idle
                            })
                        },
                    }
                }
            }),
    {
        self.ai_busy = false;
        let mut p: usize = q.first;
        let last: usize = q.first + q.count;
        while p < last
            invariant
                q.first <= p <= last,
                last == q.first + q.count,
                forall|x: usize| #[trigger]
                    self.ai_gen_rows@.dom().contains(x) <==> old(
                        self,
                    ).ai_gen_rows@.dom().contains(x) && !(q.first <= x < p),
                *self == (GridState {
                    ai_busy: false,
                    ai_gen_rows: self.ai_gen_rows,
                    ..*old(self)
                }),
            decreases last - p,
        {
            self.ai_gen_rows.remove(p);
            p = p + 1;
        }
        if self.staged.new_rows_gen != q.rows_gen {
            return;
        }
        match result {
            SeedResult::Failed(e) => {
                self.staged.remove_pending_rows(q.first, q.count);
                self.bar.commit_err = Some(e);
            },
            SeedResult::Rows(rows) => {
                let n: usize = if rows.len() < q.count {
                    rows.len()
                } else {
                    q.count
                };
                let mut edits: Vec<CellEdit> = Vec::new();
                let mut i: usize = 0;
                while i < n
                    invariant
                        i <= n <= rows@.len(),
                        n <= q.count,
                        q.first + q.count <= usize::MAX,
                        edits@ == reply_edits(q.cols@, q.first as int, rows@, i as int),
                    decreases n - i,
                {
                    let row: &Vec<NamedValue> = &rows[i];
                    let ghost front = edits@;
                    let mut k: usize = 0;
                    assert(front + row_edits(q.cols@, (q.first + i) as usize, row@.take(0))
                        =~= front);
                    while k < row.len()
                        invariant
                            k <= row@.len(),
                            i < n,
                            n <= q.count,
                            q.first + q.count <= usize::MAX,
                            edits@ == front + row_edits(
                                q.cols@,
                                (q.first + i) as usize,
                                row@.take(k as int),
                            ),
                        decreases row@.len() - k,
                    {
                        let v: &NamedValue = &row[k];
                        proof {
                            assert(row@.take(k + 1).drop_last() =~= row@.take(k as int));
                            assert(row@.take(k + 1).last() == *v);
                        }
                        let ghost had = edits@;
                        if let Some(ci) = find_seeded(&q.cols, &v.name) {
                            edits.push(
                                CellEdit {
                                    at: At { row: q.first + i, col: ci },
                                    value: copy_value(&v.value),
                                },
                            );
                            assert(edits@ =~= front + row_edits(
                                q.cols@,
                                (q.first + i) as usize,
                                row@.take(k + 1),
                            ));
                        }
                        k = k + 1;
                    }
                    assert(row@.take(row@.len() as int) =~= row@);
                    i = i + 1;
                }
                self.stage_new_many(edits);
            },
        }
    }

    /// Open the field that asks for a number of rows.
    pub fn open_seed_popover(&mut self, may_attach: bool)
        ensures
            old(self).ai_busy || !may_attach ==> *final(self) == *old(self),
            !old(self).ai_busy && may_attach ==> final(self).seed_buf@ == "10"@ && *final(self) == (
            GridState { seed_buf: final(self).seed_buf, seed_open: true, ..*old(self) }),
    {
        if self.ai_busy || !may_attach {
            return;
        }
        self.seed_buf = "10".to_owned();
        self.seed_open = true;
    }

    /// Close the field that asks for a number of rows, and give the number it read.
    pub fn seed_popover(&mut self) -> (r: usize)
        ensures
            r == seed_count(old(self).seed_buf@),
            *final(self) == (GridState { seed_open: false, ..*old(self) }),
    {
        let text: String = trimmed(self.seed_buf.as_str());
        let n: usize = match parse_count(text.as_str()) {
            Some(n) => n,
            None => 0,
        };
        self.seed_open = false;
        if n < 1 {
            1
        } else if n > SEED_ROW_CAP {
            SEED_ROW_CAP
        } else {
            n
        }
    }
}

/// How many rows one request asks for, at most.
pub const SEED_ROW_CAP: usize = 50;

/// The number of rows a text asks for: between one and the most, and one where it is no number.
pub open spec fn seed_count(s: Seq<char>) -> usize {
    let n = match parsed(trim(s)) {
        Some(n) => n,
        None => 0,
    };
    if n < 1 {
        1
    } else if n > SEED_ROW_CAP {
        SEED_ROW_CAP
    } else {
        n
    }
}

/// A request for new rows that failed leaves the new rows as they were before it, where none were
/// added or taken since.
pub proof fn a_failed_seed_leaves_no_rows(rows: Seq<Map<usize, Option<String>>>, count: nat)
    ensures
        without_rows(rows + blank_rows(count), rows.len() as int, count as int) == rows,
{
    let all = rows + blank_rows(count);
    if count == 0 {
        assert(all =~= rows);
    } else {
        assert(all.take(rows.len() as int) =~= rows);
    }
}

/// What the line below the grid sums up: nothing, a number of whole rows, or the cells of a column.
pub enum SelRead {
    Nothing,
    Rows(usize),
    Column(usize, Vec<Option<String>>),
}

/// What a cell of a column is summed up as, in the row shown at a place: as it is drawn.
pub open spec fn summed(gs: GridState, d: int, ci: usize) -> Option<String> {
    if d < gs.order@.len() {
        current_value(gs, RowRef::Data(gs.order@[d]), ci)
    } else {
        current_value(gs, RowRef::New((d - gs.order@.len()) as usize), ci)
    }
}

impl GridState {
    /// What the line below the grid sums up.
    pub fn selection_read(&self) -> (r: SelRead)
        requires
            self.span() matches Some(s) ==> s.r1 < usize::MAX,
        ensures
            match kind_of(self.span(), self.anchor, self.rs.columns@.len() as int) {
                SelKind::Nothing => r is Nothing,
                SelKind::WholeRow => r == SelRead::Rows(
                    (self.span()->0.r1 - self.span()->0.r0 + 1) as usize,
                ),
                SelKind::Column(ci) => if ci >= self.rs.columns@.len() {
                    r is Nothing
                } else {
                    let s = self.span()->0;
                    &&& r matches SelRead::Column(c, cells)
                    &&& c == ci
                    &&& cells@.len() == s.r1 - s.r0 + 1
                    &&& forall|k: int|
                        0 <= k < cells@.len() ==> #[trigger] cells@[k] == summed(
                            *self,
                            s.r0 + k,
                            ci,
                        )
                },
            },
    {
        let span: Option<Span> = self.bounds();
        let kind: SelKind = selection_kind(span, self.anchor, self.rs.columns.len());
        let s: Span = match span {
            Some(s) => s,
            None => return SelRead::Nothing,
        };
        match kind {
            SelKind::Nothing => SelRead::Nothing,
            SelKind::WholeRow => SelRead::Rows(s.r1 - s.r0 + 1),
            SelKind::Column(ci) => {
                if ci >= self.rs.columns.len() {
                    return SelRead::Nothing;
                }
                let mut cells: Vec<Option<String>> = Vec::new();
                let n: usize = self.order.len();
                let mut d: usize = s.r0;
                while d <= s.r1
                    invariant
                        n == self.order@.len(),
                        s.r0 <= d <= s.r1 + 1,
                        s.r1 < usize::MAX,
                        cells@.len() == d - s.r0,
                        forall|k: int|
                            0 <= k < cells@.len() ==> #[trigger] cells@[k] == summed(
                                *self,
                                s.r0 + k,
                                ci,
                            ),
                    decreases s.r1 + 1 - d,
                {
                    let v: Option<String> = if d < n {
                        value_now(self, RowRef::Data(self.order[d]), ci)
                    } else {
                        value_now(self, RowRef::New(d - n), ci)
                    };
                    cells.push(v);
                    d = d + 1;
                }
                SelRead::Column(ci, cells)
            },
        }
    }
}

/// What the line below the grid reads: what was summed up, by the name of its column where it is of
/// one.
pub fn selection_label(column: &Option<String>, summary: &str) -> (r: String)
    ensures
        r@ == match *column {
            Some(name) => name@ + " · "@ + summary@,
            None => summary@,
        },
{
    match column {
        Some(name) => {
            let mut out: String = name.clone();
            out.append(" · ");
            out.append(summary);
            out
        },
        None => summary.to_owned(),
    }
}

impl GridState {
    /// The cells that are sent to the assistant: the selection, or the whole result as it is shown,
    /// without the new rows; none where it may not be sent values.
    pub fn attach_span(&self, whole: bool, may_attach: bool) -> (r: Option<Span>)
        ensures
            r == if !may_attach {
                None
            } else if !whole {
                self.span()
            } else if self.order@.len() == 0 || self.rs.columns@.len() == 0 {
                None
            } else {
                Some(
                    Span {
                        r0: 0,
                        c0: 0,
                        r1: (self.order@.len() - 1) as usize,
                        c1: (self.rs.columns@.len() - 1) as usize,
                    },
                )
            },
    {
        if !may_attach {
            return None;
        }
        if !whole {
            return self.bounds();
        }
        let nrows: usize = self.order.len();
        let ncols: usize = self.rs.columns.len();
        if nrows == 0 || ncols == 0 {
            None
        } else {
            Some(Span { r0: 0, c0: 0, r1: nrows - 1, c1: ncols - 1 })
        }
    }
}

/// A value is read as the cell shows it: what is staged for it, else what it holds; a cell of a new row
/// that was given nothing has none.
pub proof fn a_value_is_read_as_it_shows(gs: GridState, di: usize, p: usize, ci: usize)
    ensures
        ({
            let at = At { row: di, col: ci };
            let v = current_value(gs, RowRef::Data(di), ci);
            &&& gs.staged@.dirty.dom().contains(at) ==> v == gs.staged@.dirty[at]
            &&& !gs.staged@.dirty.dom().contains(at) ==> crate::staged::cell_holds(gs.rs, at, v)
        }),
        p < gs.staged@.new_rows.len() ==> {
            let row = gs.staged@.new_rows[p as int];
            let v = current_value(gs, RowRef::New(p), ci);
            &&& row.dom().contains(ci) ==> v == row[ci]
            &&& !row.dom().contains(ci) ==> v is None
        },
{
}

/// The assistant is shown the other columns of the cell's own table, with what the row shows, and none
/// of another table; the cell that it is asked for is not among them.
pub proof fn the_context_is_the_rest_of_the_table(
    gs: GridState,
    row: RowRef,
    ci: usize,
    ti: usize,
    n: int,
    c: int,
)
    requires
        0 <= n <= gs.rs.columns@.len() <= usize::MAX,
    ensures
        forall|k: int|
            0 <= k < row_context(gs, row, ci, ti, n).len() ==> exists|j: int|
                0 <= j < n && j != ci && j < gs.model.table_of@.len() && gs.model.table_of@[j] == Some(ti)
                    && #[trigger] context_of(gs, row, j) == #[trigger] row_context(gs, row, ci, ti, n)[k],
        0 <= c < n && c != ci && c < gs.model.table_of@.len() && gs.model.table_of@[c] == Some(ti)
            ==> row_context(gs, row, ci, ti, n).contains(context_of(gs, row, c)),
    decreases n,
{
    if n > 0 {
        the_context_is_the_rest_of_the_table(gs, row, ci, ti, n - 1, c);
        let before = row_context(gs, row, ci, ti, n - 1);
        let now = row_context(gs, row, ci, ti, n);
        assert forall|k: int| 0 <= k < now.len() implies exists|j: int|
            0 <= j < n && j != ci && j < gs.model.table_of@.len() && gs.model.table_of@[j] == Some(ti)
                && #[trigger] context_of(gs, row, j) == #[trigger] now[k] by {
            if k < before.len() {
                assert(now[k] == before[k]);
                let j = choose|j: int|
                    0 <= j < n - 1 && j != ci && j < gs.model.table_of@.len() && gs.model.table_of@[j]
                        == Some(ti) && #[trigger] context_of(gs, row, j) == before[k];
                assert(context_of(gs, row, j) == now[k]);
            } else {
                assert(context_of(gs, row, n - 1) == now[k]);
            }
        }
        if before.contains(context_of(gs, row, c)) {
            let k = before.index_of(context_of(gs, row, c));
            assert(now[k] == before[k]);
        }
        if c == n - 1 && c != ci && c < gs.model.table_of@.len() && gs.model.table_of@[c] == Some(ti) {
            assert(now[now.len() - 1] == context_of(gs, row, c));
        }
    }
}

/// A column's own name, or the result's name for one that no table holds, with the value that it shows.
pub open spec fn context_of(gs: GridState, row: RowRef, c: int) -> NamedValue {
    NamedValue {
        name: match gs.rs.columns@[c].origin {
            Some(o) => o.column,
            None => gs.rs.columns@[c].name,
        },
        value: current_value(gs, row, c as usize),
    }
}

/// The assistant is asked for a value only where it is idle, may be sent values, and the active cell can
/// be written to a table that is there.
pub proof fn a_value_is_asked_for_where_it_can_be_written(gs: GridState, may_attach: bool, ti: usize)
    ensures
        fill_table(gs, may_attach) == Some(ti) <==> {
            &&& !gs.ai_busy
            &&& may_attach
            &&& gs.active is Some
            &&& gs.active->0.col < gs.model.editable@.len()
            &&& gs.model.editable@[gs.active->0.col as int]
            &&& gs.active->0.col < gs.model.table_of@.len()
            &&& gs.model.table_of@[gs.active->0.col as int] == Some(ti)
            &&& ti < gs.model.tables@.len()
        },
{
}

/// What the assistant answers is always staged, also where the cell holds it already; nothing else that
/// is staged changes.
pub proof fn an_answer_always_shows(gs: GridState, at: At, di: usize, value: Option<String>, o: At)
    requires
        at.row < gs.order@.len(),
    ensures
        ({
            let after = gs.filled(at, RowRef::Data(di), value);
            let cell = At { row: gs.order@[at.row as int], col: at.col };
            &&& after.dirty.dom().contains(cell) && after.dirty[cell] == value
            &&& o != cell ==> (after.dirty.dom().contains(o) <==> gs.staged@.dirty.dom().contains(o))
            &&& o != cell && gs.staged@.dirty.dom().contains(o) ==> after.dirty[o] == gs.staged@.dirty[o]
            &&& after.new_rows == gs.staged@.new_rows
            &&& after.del_rows == gs.staged@.del_rows
        }),
{
}

/// A cell is marked while it is asked for, and no longer; no other mark changes.
pub proof fn a_cell_is_marked_while_it_is_asked_for(gen: Map<At, ()>, di: usize, ci: usize, o: At)
    ensures
        ({
            let cell = At { row: di, col: ci };
            &&& generating_after(gen, RowRef::Data(di), ci).dom().contains(cell)
            &&& !generated(gen, RowRef::Data(di), ci).dom().contains(cell)
            &&& o != cell ==> (generating_after(gen, RowRef::Data(di), ci).dom().contains(o)
                <==> gen.dom().contains(o))
            &&& o != cell ==> (generated(gen, RowRef::Data(di), ci).dom().contains(o)
                <==> gen.dom().contains(o))
        }),
{
}

/// The columns that are filled are those that can be edited and that the server does not number itself,
/// each once and in their order.
pub proof fn every_editable_column_is_seeded(gs: GridState, n: int)
    requires
        0 <= n <= gs.rs.columns@.len() <= usize::MAX,
    ensures
        forall|k: int|
            0 <= k < seed_cols(gs, n).len() ==> {
                let c = #[trigger] seed_cols(gs, n)[k];
                &&& c.ci < n
                &&& c.ci < gs.model.editable@.len() && gs.model.editable@[c.ci as int]
                &&& !(gs.rs.columns@[c.ci as int].origin is Some
                    && gs.rs.columns@[c.ci as int].origin->0.auto_increment)
                &&& c.name == context_of(gs, RowRef::New(0), c.ci as int).name
            },
        forall|ci: int|
            0 <= ci < n && ci < gs.model.editable@.len() && #[trigger] gs.model.editable@[ci] && !(
            gs.rs.columns@[ci].origin is Some && gs.rs.columns@[ci].origin->0.auto_increment)
                ==> exists|k: int| 0 <= k < seed_cols(gs, n).len() && (#[trigger] seed_cols(gs, n)[k]).ci == ci,
        forall|i: int, j: int|
            0 <= i < j < seed_cols(gs, n).len() ==> (#[trigger] seed_cols(gs, n)[i]).ci < (
            #[trigger] seed_cols(gs, n)[j]).ci,
    decreases n,
{
    if n > 0 {
        every_editable_column_is_seeded(gs, n - 1);
        let before = seed_cols(gs, n - 1);
        let now = seed_cols(gs, n);
        assert forall|ci: int|
            0 <= ci < n && ci < gs.model.editable@.len() && #[trigger] gs.model.editable@[ci] && !(
            gs.rs.columns@[ci].origin is Some
                && gs.rs.columns@[ci].origin->0.auto_increment) implies exists|k: int|
            0 <= k < now.len() && (#[trigger] now[k]).ci == ci by {
            if ci < n - 1 {
                let k = choose|k: int| 0 <= k < before.len() && (#[trigger] before[k]).ci == ci;
                assert(now[k].ci == ci);
            } else {
                assert(now[now.len() - 1].ci == ci);
            }
        }
    }
}

/// A name in an answer is that of the last column that is filled under it; a name that is not asked for
/// leads nowhere.
pub proof fn an_answered_name_leads_to_its_column(cols: Seq<SeedCol>, name: Seq<char>, k: int)
    requires
        -1 <= k < cols.len(),
        forall|j: int| k < j < cols.len() ==> (#[trigger] cols[j]).name@ != name,
    ensures
        k >= 0 && cols[k].name@ == name ==> seeded_col(cols, name) == Some(cols[k].ci),
        k < 0 ==> seeded_col(cols, name) is None,
    decreases cols.len(),
{
    if cols.len() > 0 && k < cols.len() - 1 {
        let front = cols.drop_last();
        assert(cols[cols.len() - 1].name@ != name);
        assert forall|j: int| k < j < front.len() implies (#[trigger] front[j]).name@ != name by {
            assert(cols[j].name@ != name);
        }
        an_answered_name_leads_to_its_column(front, name, k);
    }
}

proof fn lemma_row_edits(cols: Seq<SeedCol>, p: usize, row: Seq<NamedValue>, k: int)
    ensures
        0 <= k < row.len() && seeded_col(cols, row[k].name@) is Some ==> row_edits(cols, p, row).contains(
            CellEdit {
                at: At { row: p, col: seeded_col(cols, row[k].name@)->0 },
                value: row[k].value,
            },
        ),
        forall|i: int|
            0 <= i < row_edits(cols, p, row).len() ==> (#[trigger] row_edits(cols, p, row)[i]).at.row == p
                && exists|j: int|
                0 <= j < row.len() && seeded_col(cols, (#[trigger] row[j]).name@) == Some(
                    row_edits(cols, p, row)[i].at.col,
                ) && row[j].value == row_edits(cols, p, row)[i].value,
    decreases row.len(),
{
    if row.len() > 0 {
        let front = row.drop_last();
        lemma_row_edits(cols, p, front, k);
        let before = row_edits(cols, p, front);
        let now = row_edits(cols, p, row);
        if 0 <= k < row.len() && seeded_col(cols, row[k].name@) is Some {
            let e = CellEdit {
                at: At { row: p, col: seeded_col(cols, row[k].name@)->0 },
                value: row[k].value,
            };
            if k < front.len() {
                assert(front[k] == row[k]);
                let i = before.index_of(e);
                assert(now[i] == e);
            } else {
                assert(now[now.len() - 1] == e);
            }
        }
        assert forall|i: int| 0 <= i < now.len() implies (#[trigger] now[i]).at.row == p && exists|
            j: int,
        |
            0 <= j < row.len() && seeded_col(cols, (#[trigger] row[j]).name@) == Some(now[i].at.col)
                && row[j].value == now[i].value by {
            if i < before.len() {
                assert(now[i] == before[i]);
                let j = choose|j: int|
                    0 <= j < front.len() && seeded_col(cols, (#[trigger] front[j]).name@) == Some(
                        before[i].at.col,
                    ) && front[j].value == before[i].value;
                assert(row[j] == front[j]);
            } else {
                assert(row[row.len() - 1] == row.last());
            }
        }
    }
}

/// An answer fills the new rows in its order, each with its own values: the first answered row goes into
/// the first new row that was asked for, and so on. Nothing is filled that was not answered.
pub proof fn an_answer_fills_the_rows_in_order(
    cols: Seq<SeedCol>,
    first: int,
    rows: Seq<Vec<NamedValue>>,
    n: int,
    i: int,
    k: int,
)
    requires
        0 <= first,
        first + n <= usize::MAX,
        0 <= n <= rows.len(),
    ensures
        0 <= i < n && 0 <= k < rows[i]@.len() && seeded_col(cols, rows[i]@[k].name@) is Some
            ==> reply_edits(cols, first, rows, n).contains(
            CellEdit {
                at: At { row: (first + i) as usize, col: seeded_col(cols, rows[i]@[k].name@)->0 },
                value: rows[i]@[k].value,
            },
        ),
        forall|m: int|
            0 <= m < reply_edits(cols, first, rows, n).len() ==> exists|a: int, b: int|
                0 <= a < n && 0 <= b < rows[a]@.len() && (#[trigger] reply_edits(cols, first, rows, n)[m]).at.row
                    == first + a && seeded_col(cols, (#[trigger] rows[a]@[b]).name@) == Some(
                    reply_edits(cols, first, rows, n)[m].at.col,
                ) && rows[a]@[b].value == reply_edits(cols, first, rows, n)[m].value,
    decreases n,
{
    if n > 0 {
        an_answer_fills_the_rows_in_order(cols, first, rows, n - 1, i, k);
        let p = (first + n - 1) as usize;
        lemma_row_edits(cols, p, rows[n - 1]@, k);
        let before = reply_edits(cols, first, rows, n - 1);
        let own = row_edits(cols, p, rows[n - 1]@);
        let now = reply_edits(cols, first, rows, n);
        if 0 <= i < n && 0 <= k < rows[i]@.len() && seeded_col(cols, rows[i]@[k].name@) is Some {
            let e = CellEdit {
                at: At { row: (first + i) as usize, col: seeded_col(cols, rows[i]@[k].name@)->0 },
                value: rows[i]@[k].value,
            };
            if i < n - 1 {
                let m = before.index_of(e);
                assert(now[m] == e);
            } else {
                let m = own.index_of(e);
                assert(now[before.len() + m] == e);
            }
        }
        assert forall|m: int| 0 <= m < now.len() implies exists|a: int, b: int|
            0 <= a < n && 0 <= b < rows[a]@.len() && (#[trigger] now[m]).at.row == first + a
                && seeded_col(cols, (#[trigger] rows[a]@[b]).name@) == Some(now[m].at.col)
                && rows[a]@[b].value == now[m].value by {
            if m < before.len() {
                assert(now[m] == before[m]);
                let (a, b) = choose|a: int, b: int|
                    0 <= a < n - 1 && 0 <= b < rows[a]@.len() && before[m].at.row == first + a
                        && seeded_col(cols, (#[trigger] rows[a]@[b]).name@) == Some(before[m].at.col)
                        && rows[a]@[b].value == before[m].value;
                assert(seeded_col(cols, rows[a]@[b].name@) == Some(now[m].at.col));
            } else {
                let e = own[m - before.len()];
                assert(now[m] == e);
                let row = rows[n - 1]@;
                let b = choose|b: int|
                    0 <= b < row.len() && seeded_col(cols, (#[trigger] row[b]).name@) == Some(e.at.col)
                        && row[b].value == e.value;
                assert(seeded_col(cols, rows[n - 1]@[b].name@) == Some(now[m].at.col));
            }
        }
    }
}

/// No more rows are filled than were asked for, nor than were answered.
pub proof fn no_more_rows_are_filled_than_asked(count: usize, rows: Seq<Vec<NamedValue>>)
    ensures
        used_rows(count, rows) <= count,
        used_rows(count, rows) <= rows.len(),
        used_rows(count, rows) == count || used_rows(count, rows) == rows.len(),
{
}

/// A number of rows that is written is asked for, within the bounds; anything else asks for one row.
pub proof fn a_written_number_of_rows_is_asked_for(n: usize, s: Seq<char>)
    ensures
        1 <= seed_count(s) <= 50,
        trim(s) == digits(n as nat) ==> seed_count(s) == if n < 1 {
            1
        } else if n > 50 {
            50
        } else {
            n
        },
        parsed(trim(s)) is None ==> seed_count(s) == 1,
{
    crate::text::a_written_number_is_read_back(n, Seq::empty(), 0);
}

/// The line sums up the cells as they are shown: the row of the result that stands there, and the new
/// rows behind them.
pub proof fn a_sum_is_of_what_is_shown(gs: GridState, d: int, ci: usize)
    requires
        0 <= d,
    ensures
        d < gs.order@.len() ==> {
            let at = At { row: gs.order@[d], col: ci };
            &&& gs.staged@.dirty.dom().contains(at) ==> summed(gs, d, ci) == gs.staged@.dirty[at]
            &&& !gs.staged@.dirty.dom().contains(at) ==> crate::staged::cell_holds(
                gs.rs,
                at,
                summed(gs, d, ci),
            )
        },
        d >= gs.order@.len() && d - gs.order@.len() < gs.staged@.new_rows.len() && d <= usize::MAX ==> {
            let row = gs.staged@.new_rows[d - gs.order@.len()];
            &&& row.dom().contains(ci) ==> summed(gs, d, ci) == row[ci]
            &&& !row.dom().contains(ci) ==> summed(gs, d, ci) is None
        },
{
}

/// Rows are asked for where some are wanted, the assistant is free and may be sent values, and the
/// result has a table to insert into.
pub proof fn rows_are_asked_for_where_they_can_be_inserted(gs: GridState, count: usize, may_attach: bool)
    ensures
        gs.can_seed(count, may_attach) <==> {
            &&& !gs.ai_busy
            &&& count > 0
            &&& may_attach
            &&& gs.model.target is Some
            &&& gs.model.target->0 < gs.model.tables@.len()
        },
{
}

/// A summary says how many rows and columns are attached, one in the singular, from which table, and of
/// how many rows where only the first are.
pub proof fn a_summary_counts_what_is_attached(rows: nat, cols: nat, t: String, total: nat)
    ensures
        total <= rows && rows == 1 && cols == 1 ==> summary_text(rows, cols, None, total)
            == "1 row × 1 column"@,
        total <= rows && rows != 1 && cols != 1 ==> summary_text(rows, cols, None, total) == digits(rows)
            + " rows × "@ + digits(cols) + " columns"@,
        total <= rows && rows == 1 && cols != 1 ==> summary_text(rows, cols, None, total) == "1 row × "@
            + digits(cols) + " columns"@,
        total <= rows && rows != 1 && cols == 1 ==> summary_text(rows, cols, None, total) == digits(rows)
            + " rows × 1 column"@,
        total <= rows ==> summary_text(rows, cols, Some(t), total) == summary_text(rows, cols, None, total)
            + " from "@ + t@,
        total > rows ==> summary_text(rows, cols, Some(t), total) == summary_text(rows, cols, Some(t), rows)
            + " (the first "@ + digits(rows) + " of "@ + digits(total) + " selected)"@,
        total > rows ==> summary_text(rows, cols, None, total) == summary_text(rows, cols, None, rows)
            + " (the first "@ + digits(rows) + " of "@ + digits(total) + " selected)"@,
{
    reveal_strlit("");
    reveal_strlit(" ");
    reveal_strlit("row");
    reveal_strlit("rows");
    reveal_strlit(" × ");
    reveal_strlit("column");
    reveal_strlit("columns");
    reveal_strlit("1 row × 1 column");
    reveal_strlit(" rows × ");
    reveal_strlit(" columns");
    reveal_strlit("1 row × ");
    reveal_strlit(" rows × 1 column");
    crate::text::a_number_is_written_in_decimal(0, 1);
    let some = summary_text(rows, cols, Some(t), rows);
    let none = summary_text(rows, cols, None, rows);
    let tail = " (the first "@ + digits(rows) + " of "@ + digits(total) + " selected)"@;
    assert(total <= rows ==> summary_text(rows, cols, Some(t), total) =~= summary_text(
        rows,
        cols,
        None,
        total,
    ) + (" from "@ + t@));
    assert(total <= rows ==> summary_text(rows, cols, Some(t), total) =~= summary_text(
        rows,
        cols,
        None,
        total,
    ) + " from "@ + t@);
    assert(total > rows ==> summary_text(rows, cols, Some(t), total) =~= some + tail);
    assert(total > rows ==> summary_text(rows, cols, None, total) =~= none + tail);
    assert(some + tail =~= some + " (the first "@ + digits(rows) + " of "@ + digits(total)
        + " selected)"@);
    assert(none + tail =~= none + " (the first "@ + digits(rows) + " of "@ + digits(total)
        + " selected)"@);
    assert(" "@ + "rows"@ + " × "@ =~= " rows × "@);
    assert(" "@ + "columns"@ =~= " columns"@);
    if total <= rows {
        let s = summary_text(rows, cols, None, total);
        if rows == 1 && cols == 1 {
            assert(s =~= "1 row × 1 column"@);
        } else if rows != 1 && cols != 1 {
            assert(s =~= digits(rows) + (" "@ + "rows"@ + " × "@) + digits(cols) + (" "@
                + "columns"@));
        } else if rows == 1 {
            assert(digits(rows) + " "@ + "row"@ + " × "@ =~= "1 row × "@);
            assert(s =~= (digits(rows) + " "@ + "row"@ + " × "@) + digits(cols) + (" "@
                + "columns"@));
        } else {
            assert(" "@ + "rows"@ + " × "@ + digits(cols) + " "@ + "column"@ =~= " rows × 1 column"@);
            assert(s =~= digits(rows) + (" "@ + "rows"@ + " × "@ + digits(cols) + " "@ + "column"@));
        }
    }
}

/// An answer for a new row goes into that row, at the column that was asked about, and changes nothing
/// else; no cell of the result is marked for it.
pub proof fn an_answer_lands_in_its_new_row(
    gs: GridState,
    at: At,
    p: usize,
    value: Option<String>,
    gen: Map<At, ()>,
)
    requires
        p < gs.staged@.new_rows.len(),
    ensures
        ({
            let after = gs.filled(at, RowRef::New(p), value);
            let blank = value is Some && value->0@.len() == 0;
            &&& after.dirty == gs.staged@.dirty
            &&& after.del_rows == gs.staged@.del_rows
            &&& after.new_rows.len() == gs.staged@.new_rows.len()
            &&& after.new_rows[p as int].dom().contains(at.col) <==> !blank
            &&& !blank ==> after.new_rows[p as int][at.col] == value
            &&& forall|q: int|
                0 <= q < after.new_rows.len() && q != p ==> #[trigger] after.new_rows[q]
                    == gs.staged@.new_rows[q]
        }),
        generating_after(gen, RowRef::New(p), at.col) == gen,
        generated(gen, RowRef::New(p), at.col) == gen,
{
    let rows = gs.staged@.new_rows;
    let e = CellEdit { at: At { row: p, col: at.col }, value };
    crate::staged::a_new_row_holds_what_was_given(rows, seq![e], 0);
    crate::staged::new_rows_keep_their_number(rows, seq![e]);
    assert(seq![e].drop_last() =~= Seq::<CellEdit>::empty());
    assert(stage_new_all(rows, Seq::<CellEdit>::empty()) == rows);
    assert(seq![e].last() == e);
}

/// The rest of a row is sent column by column, in the order of the result: each column of the table
/// stands behind those before it.
pub proof fn the_context_is_in_the_order_of_columns(
    gs: GridState,
    row: RowRef,
    ci: usize,
    ti: usize,
    c: int,
    n: int,
)
    requires
        0 <= c < n <= gs.rs.columns@.len() <= usize::MAX,
        c != ci,
        c < gs.model.table_of@.len(),
        gs.model.table_of@[c] == Some(ti),
    ensures
        ({
            let front = row_context(gs, row, ci, ti, c);
            let all = row_context(gs, row, ci, ti, n);
            &&& front.len() < all.len()
            &&& all.take(front.len() as int) == front
            &&& all[front.len() as int] == context_of(gs, row, c)
        }),
    decreases n,
{
    let front = row_context(gs, row, ci, ti, c);
    let all = row_context(gs, row, ci, ti, n);
    if n == c + 1 {
        assert(all == front.push(context_of(gs, row, c)));
        assert(all.take(front.len() as int) =~= front);
    } else {
        the_context_is_in_the_order_of_columns(gs, row, ci, ti, c, n - 1);
        let before = row_context(gs, row, ci, ti, n - 1);
        assert(all.take(front.len() as int) =~= before.take(front.len() as int));
    }
}

/// A row that is asked for starts without any value.
pub proof fn rows_that_are_asked_for_start_empty(n: nat, i: int, ci: usize)
    ensures
        blank_rows(n).len() == n,
        0 <= i < n ==> !blank_rows(n)[i].dom().contains(ci),
{
}

proof fn lemma_last_of_row(cols: Seq<SeedCol>, p: usize, row: Seq<NamedValue>, b: int, c: usize) -> (m: int)
    requires
        0 <= b < row.len(),
        seeded_col(cols, row[b].name@) == Some(c),
        forall|k: int| b < k < row.len() ==> seeded_col(cols, (#[trigger] row[k]).name@) != Some(c),
    ensures
        0 <= m < row_edits(cols, p, row).len(),
        row_edits(cols, p, row)[m] == (CellEdit { at: At { row: p, col: c }, value: row[b].value }),
        forall|k: int|
            m < k < row_edits(cols, p, row).len() ==> (#[trigger] row_edits(cols, p, row)[k]).at != (At {
                row: p,
                col: c,
            }),
    decreases row.len(),
{
    let all = row_edits(cols, p, row);
    let before = row_edits(cols, p, row.drop_last());
    if b == row.len() - 1 {
        before.len() as int
    } else {
        let m = lemma_last_of_row(cols, p, row.drop_last(), b, c);
        assert(all[m] == before[m]);
        assert forall|k: int| m < k < all.len() implies (#[trigger] all[k]).at != (At { row: p, col: c }) by {
            if k < before.len() {
                assert(all[k] == before[k]);
            }
        }
        m
    }
}

proof fn lemma_row_of_edits(cols: Seq<SeedCol>, p: usize, row: Seq<NamedValue>)
    ensures
        forall|k: int|
            0 <= k < row_edits(cols, p, row).len() ==> (#[trigger] row_edits(cols, p, row)[k]).at.row == p,
    decreases row.len(),
{
    if row.len() > 0 {
        lemma_row_of_edits(cols, p, row.drop_last());
    }
}

/// Where an answer names a column of a row more than once, its last value counts: it is the last that is
/// staged for that cell.
pub proof fn the_last_value_of_an_answer_counts(
    cols: Seq<SeedCol>,
    first: int,
    rows: Seq<Vec<NamedValue>>,
    n: int,
    a: int,
    b: int,
    c: usize,
) -> (m: int)
    requires
        0 <= first,
        first + n <= usize::MAX,
        0 <= a < n <= rows.len(),
        0 <= b < rows[a]@.len(),
        seeded_col(cols, rows[a]@[b].name@) == Some(c),
        forall|k: int| b < k < rows[a]@.len() ==> seeded_col(cols, (#[trigger] rows[a]@[k]).name@) != Some(c),
    ensures
        0 <= m < reply_edits(cols, first, rows, n).len(),
        reply_edits(cols, first, rows, n)[m] == (CellEdit {
            at: At { row: (first + a) as usize, col: c },
            value: rows[a]@[b].value,
        }),
        forall|k: int|
            m < k < reply_edits(cols, first, rows, n).len() ==> (#[trigger] reply_edits(
                cols,
                first,
                rows,
                n,
            )[k]).at != (At { row: (first + a) as usize, col: c }),
    decreases n,
{
    let all = reply_edits(cols, first, rows, n);
    let front = reply_edits(cols, first, rows, n - 1);
    let p = (first + n - 1) as usize;
    let own = row_edits(cols, p, rows[n - 1]@);
    assert(all == front + own);
    lemma_row_of_edits(cols, p, rows[n - 1]@);
    if a == n - 1 {
        let m = lemma_last_of_row(cols, p, rows[a]@, b, c);
        assert(all[front.len() + m] == own[m]);
        assert forall|k: int| front.len() + m < k < all.len() implies (#[trigger] all[k]).at != (At {
            row: p,
            col: c,
        }) by {
            assert(all[k] == own[k - front.len()]);
        }
        front.len() + m
    } else {
        let m = the_last_value_of_an_answer_counts(cols, first, rows, n - 1, a, b, c);
        assert(all[m] == front[m]);
        assert forall|k: int| m < k < all.len() implies (#[trigger] all[k]).at != (At {
            row: (first + a) as usize,
            col: c,
        }) by {
            if k < front.len() {
                assert(all[k] == front[k]);
            } else {
                assert(all[k] == own[k - front.len()]);
            }
        }
        m
    }
}

} // verus!
