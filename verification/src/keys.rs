//! What a key does while the grid has the keyboard.

use vstd::prelude::*;
use crate::keymap::At;
use crate::selection::{delete_vote, last_of, moved, nav_target, some_unmarked, Nav, Span, TopBars};
use crate::staged::range_marked;
use crate::state::{activated, edit_opened, GridState};

verus! {

/// A key, as far as the grid tells keys apart. A letter is given small.
#[derive(Clone, Copy, Debug, PartialEq, Eq, Structural)]
pub enum GridKey {
    ArrowDown,
    ArrowUp,
    ArrowRight,
    ArrowLeft,
    Home,
    End,
    PageDown,
    PageUp,
    Escape,
    Enter,
    Delete,
    Letter(char),
    Other,
}

/// A key that was pressed. `ctrl` stands for the platform's command key too.
#[derive(Clone, Copy, Debug, PartialEq, Eq, Structural)]
pub struct KeyPress {
    pub key: GridKey,
    pub ctrl: bool,
    pub shift: bool,
}

/// What is left to do for a key: nothing, since it is not the grid's; nothing, since it is done;
/// or to write the staged changes, or to copy or paste the selection.
#[derive(Clone, Copy, Debug, PartialEq, Eq, Structural)]
pub enum KeyOutcome {
    Continue,
    Done,
    Commit,
    Copy,
    Paste,
}

/// The move that a key makes.
pub open spec fn nav_of(k: KeyPress) -> Option<Nav> {
    match k.key {
        GridKey::ArrowDown => Some(Nav::Down),
        GridKey::ArrowUp => Some(Nav::Up),
        GridKey::ArrowRight => Some(Nav::Right),
        GridKey::ArrowLeft => Some(Nav::Left),
        GridKey::Home => Some(
            if k.ctrl {
                Nav::First
            } else {
                Nav::RowStart
            },
        ),
        GridKey::End => Some(
            if k.ctrl {
                Nav::Last
            } else {
                Nav::RowEnd
            },
        ),
        GridKey::PageDown => Some(Nav::PageDown),
        GridKey::PageUp => Some(Nav::PageUp),
        _ => None,
    }
}

/// The move that a key makes.
fn nav_for(k: KeyPress) -> (r: Option<Nav>)
    ensures
        r == nav_of(k),
{
    match k.key {
        GridKey::ArrowDown => Some(Nav::Down),
        GridKey::ArrowUp => Some(Nav::Up),
        GridKey::ArrowRight => Some(Nav::Right),
        GridKey::ArrowLeft => Some(Nav::Left),
        GridKey::Home => Some(
            if k.ctrl {
                Nav::First
            } else {
                Nav::RowStart
            },
        ),
        GridKey::End => Some(
            if k.ctrl {
                Nav::Last
            } else {
                Nav::RowEnd
            },
        ),
        GridKey::PageDown => Some(Nav::PageDown),
        GridKey::PageUp => Some(Nav::PageUp),
        _ => None,
    }
}

/// The rows of the result that are shown from `r0` to `r1`; the new rows below them are none.
pub open spec fn rows_shown(order: Seq<usize>, r0: int, r1: int) -> Seq<usize> {
    let lo = if r0 < order.len() {
        r0
    } else {
        order.len() as int
    };
    let hi = if r1 + 1 < order.len() {
        r1 + 1
    } else {
        order.len() as int
    };
    order.subrange(lo, hi)
}

/// The rows of the result that are shown from `r0` to `r1`.
pub fn shown_data_rows(order: &Vec<usize>, r0: usize, r1: usize) -> (r: Vec<usize>)
    requires
        r0 <= r1,
    ensures
        r@ == rows_shown(order@, r0 as int, r1 as int),
{
    let mut out: Vec<usize> = Vec::new();
    let n: usize = order.len();
    let hi: usize = if r1 < n {
        r1 + 1
    } else {
        n
    };
    let lo: usize = if r0 < n {
        r0
    } else {
        n
    };
    let mut i: usize = lo;
    while i < hi
        invariant
            lo <= i <= hi <= order@.len(),
            out@ == order@.subrange(lo as int, i as int),
        decreases hi - i,
    {
        out.push(order[i]);
        i = i + 1;
        assert(out@ =~= order@.subrange(lo as int, i as int));
    }
    out
}

impl GridState {
    /// How many rows a page is: as many as are on screen, and one at least.
    pub open spec fn page(self) -> int {
        let n = self.vp.h as int / (self.metrics.row_h as int);
        if n < 1 {
            1
        } else if n > usize::MAX {
            usize::MAX as int
        } else {
            n
        }
    }

    /// The grid once Escape closed the topmost thing that is open, or cleared the selection.
    pub open spec fn escaped(self, after: GridState) -> bool {
        if self.top.find_open {
            after.find_query@.len() == 0 && after == (GridState {
                top: TopBars { find_open: false, ..self.top },
                find_query: after.find_query,
                ..self
            })
        } else if self.top.goto_open {
            after.goto_query@.len() == 0 && after == (GridState {
                top: TopBars { goto_open: false, ..self.top },
                goto_query: after.goto_query,
                ..self
            })
        } else if self.edit_row_open {
            after == (GridState { edit_row_open: false, ..self })
        } else {
            after == (GridState { active: None, anchor: None, ..self })
        }
    }

    /// The rows that Delete acts on: those of the result that are selected.
    pub open spec fn delete_rows(self) -> Seq<usize> {
        match self.span() {
            Some(s) => rows_shown(self.order@, s.r0 as int, s.r1 as int),
            None => Seq::empty(),
        }
    }

    /// Whether `after` and `out` are what a key leads to.
    pub open spec fn key_leads_to(self, k: KeyPress, after: GridState, out: KeyOutcome) -> bool {
        let rows = self.shown_rows() as usize;
        let ncols = self.rs.columns@.len() as usize;
        let at = match self.active {
            Some(a) => a,
            None => At { row: 0, col: 0 },
        };
        if rows == 0 || ncols == 0 {
            after == self && out == KeyOutcome::Continue
        } else {
            match nav_of(k) {
                Some(nav) => out == KeyOutcome::Done && after == activated(
                    self,
                    if self.active is None {
                        at
                    } else {
                        moved(rows, ncols, self.page() as usize, at, nav)
                    },
                    k.shift,
                ),
                None => match k.key {
                    GridKey::Escape => out == KeyOutcome::Done && self.escaped(after),
                    GridKey::Enter => if k.ctrl {
                        after == self && out == KeyOutcome::Commit
                    } else {
                        &&& out == KeyOutcome::Done
                        &&& if self.model.can_edit(at.col as int) {
                            edit_opened(self, after, at)
                        } else {
                            after == self
                        }
                    },
                    GridKey::Delete => if self.model.row_target() is Some
                        && self.delete_rows().len() > 0 {
                        &&& out == KeyOutcome::Done
                        &&& after.staged@ == range_marked(
                            self.staged@,
                            self.delete_rows(),
                            some_unmarked(self.staged@.del_rows, self.delete_rows()),
                        )
                        &&& after == (GridState {
                            staged: after.staged,
                            bar: self.bar.cleared(),
                            ..self
                        })
                    } else {
                        after == self && out == KeyOutcome::Continue
                    },
                    GridKey::Letter(ch) => if !k.ctrl {
                        after == self && out == KeyOutcome::Continue
                    } else if ch == 'c' || ch == 'C' {
                        after == self && out == KeyOutcome::Copy
                    } else if ch == 'v' || ch == 'V' {
                        after == self && out == KeyOutcome::Paste
                    } else if ch == 'a' || ch == 'A' {
                        out == KeyOutcome::Done && after == (GridState {
                            anchor: Some(At { row: 0, col: 0 }),
                            active: Some(At { row: last_of(rows), col: last_of(ncols) }),
                            ..self
                        })
                    } else if ch == 'f' || ch == 'F' {
                        out == KeyOutcome::Done && after == (GridState {
                            top: TopBars { find_open: true, goto_open: false },
                            ..self
                        })
                    } else if ch == 'g' || ch == 'G' {
                        out == KeyOutcome::Done && after == (GridState {
                            top: TopBars { find_open: false, goto_open: true },
                            ..self
                        })
                    } else {
                        after == self && out == KeyOutcome::Continue
                    },
                    _ => after == self && out == KeyOutcome::Continue,
                },
            }
        }
    }

    /// Close what Escape closes: the find bar, else the bar that asks for a row, else the row
    /// panel; else the selection is cleared.
    fn escape(&mut self)
        ensures
            old(self).escaped(*final(self)),
    {
        if self.top.find_open {
            self.top.find_open = false;
            self.find_query = String::new();
        } else if self.top.goto_open {
            self.top.goto_open = false;
            self.goto_query = String::new();
        } else if self.edit_row_open {
            self.edit_row_open = false;
        } else {
            self.active = None;
            self.anchor = None;
        }
    }

    /// Mark the selected rows of the result to go, or unmark them where all are marked. Says
    /// whether there was a row to act on.
    fn delete_selected(&mut self) -> (r: bool)
        ensures
            r == (old(self).model.row_target() is Some && old(self).delete_rows().len() > 0),
            !r ==> *final(self) == *old(self),
            r ==> {
                &&& final(self).staged@ == range_marked(
                    old(self).staged@,
                    old(self).delete_rows(),
                    some_unmarked(old(self).staged@.del_rows, old(self).delete_rows()),
                )
                &&& *final(self) == (GridState {
                    staged: final(self).staged,
                    bar: old(self).bar.cleared(),
                    ..*old(self)
                })
            },
    {
        if self.model.insert_target().is_none() {
            return false;
        }
        let span: Span = match self.bounds() {
            Some(s) => s,
            None => return false,
        };
        let rows: Vec<usize> = shown_data_rows(&self.order, span.r0, span.r1);
        if rows.len() == 0 {
            return false;
        }
        let mark: bool = delete_vote(&self.staged.del_rows, &rows);
        self.staged.mark_range(&rows, mark);
        self.bar.clear_bar();
        true
    }

    /// What a key does. The first key that moves selects the first cell; Shift extends the
    /// selection.
    pub fn grid_key(&mut self, k: KeyPress) -> (r: KeyOutcome)
        requires
            old(self).countable(),
            old(self).metrics.row_h > 0,
            old(self).active matches Some(a) ==> a.row + old(self).page() <= usize::MAX && a.col
                < usize::MAX,
        ensures
            old(self).key_leads_to(k, *final(self), r),
    {
        let rows: usize = self.rs.row_count() + self.staged.new_rows.len();
        let ncols: usize = self.rs.col_count();
        if rows == 0 || ncols == 0 {
            return KeyOutcome::Continue;
        }
        let at: At = match self.active {
            Some(a) => a,
            None => At { row: 0, col: 0 },
        };
        if let Some(nav) = nav_for(k) {
            if self.active.is_none() {
                self.set_active(at, k.shift);
            } else {
                let fit: u64 = self.vp.h / self.metrics.row_h as u64;
                let page: usize = if fit < 1 {
                    1
                } else if fit > usize::MAX as u64 {
                    usize::MAX
                } else {
                    fit as usize
                };
                assert(page == self.page());
                let to: At = nav_target(rows, ncols, page, at, nav);
                self.set_active(to, k.shift);
            }
            return KeyOutcome::Done;
        }
        match k.key {
            GridKey::Escape => {
                self.escape();
                KeyOutcome::Done
            },
            GridKey::Enter => if k.ctrl {
                KeyOutcome::Commit
            } else {
                if self.model.editable(at.col) {
                    self.start_edit(at);
                }
                KeyOutcome::Done
            },
            GridKey::Delete => if self.delete_selected() {
                KeyOutcome::Done
            } else {
                KeyOutcome::Continue
            },
            GridKey::Letter(ch) => if !k.ctrl {
                KeyOutcome::Continue
            } else if ch == 'c' || ch == 'C' {
                KeyOutcome::Copy
            } else if ch == 'v' || ch == 'V' {
                KeyOutcome::Paste
            } else if ch == 'a' || ch == 'A' {
                self.anchor = Some(At { row: 0, col: 0 });
                self.active = Some(At { row: rows - 1, col: ncols - 1 });
                KeyOutcome::Done
            } else if ch == 'f' || ch == 'F' {
                self.top.set_find(true);
                KeyOutcome::Done
            } else if ch == 'g' || ch == 'G' {
                self.top.set_goto(true);
                KeyOutcome::Done
            } else {
                KeyOutcome::Continue
            },
            _ => KeyOutcome::Continue,
        }
    }
}

/// Whatever key is pressed, the bars at the top stay apart, and no row that is to go keeps an
/// edit.
pub proof fn a_key_keeps_the_grid_sound(
    before: GridState,
    k: KeyPress,
    after: GridState,
    out: KeyOutcome,
)
    requires
        before.key_leads_to(k, after, out),
        before.top.apart(),
        crate::staged::no_edit_on_deleted(before.staged@),
    ensures
        after.top.apart(),
        crate::staged::no_edit_on_deleted(after.staged@),
{
    crate::staged::marking_drops_edits(
        before.staged@,
        0,
        before.delete_rows(),
        some_unmarked(before.staged@.del_rows, before.delete_rows()),
    );
}

/// Delete pressed twice over the same rows leaves them unmarked, if one of them was not marked
/// before: the first press marks them all, and the second takes the marks back.
pub proof fn delete_twice_unmarks(s: crate::staged::StagedView, rows: Seq<usize>, i: int)
    requires
        some_unmarked(s.del_rows, rows),
        0 <= i < rows.len(),
    ensures
        ({
            let once = range_marked(s, rows, true);
            &&& once.del_rows.contains(rows[i])
            &&& !some_unmarked(once.del_rows, rows)
            &&& !range_marked(once, rows, false).del_rows.contains(rows[i])
        }),
{
    let once = range_marked(s, rows, true);
    assert forall|j: int| 0 <= j < rows.len() implies once.del_rows.contains(#[trigger] rows[j]) by {
        assert(rows.contains(rows[j]));
    }
    assert(rows.to_set().contains(rows[i]));
}

/// The rows that are shown from one place to another are those of the places between, in their order;
/// the places of new rows hold none.
pub proof fn rows_are_those_of_their_places(order: Seq<usize>, r0: int, r1: int, d: int)
    requires
        0 <= r0 <= r1,
    ensures
        rows_shown(order, r0, r1).len() == if r0 >= order.len() {
            0
        } else if r1 < order.len() {
            r1 - r0 + 1
        } else {
            order.len() - r0
        },
        r0 <= d <= r1 && d < order.len() ==> rows_shown(order, r0, r1)[d - r0] == order[d],
{
}

/// An arrow goes one cell its way, as far as the grid goes, the new rows included; with Shift the
/// selection is extended to it. Where no cell is active the first press makes the first cell so.
pub proof fn an_arrow_goes_one_cell(
    before: GridState,
    k: KeyPress,
    after: GridState,
    out: KeyOutcome,
    a: At,
)
    requires
        before.key_leads_to(k, after, out),
        before.countable(),
        before.rs.columns@.len() <= usize::MAX,
        before.active == Some(a),
        a.row < before.rs.rows@.len() + before.staged@.new_rows.len(),
        a.col < before.rs.columns@.len(),
        k.key == GridKey::ArrowDown || k.key == GridKey::ArrowUp || k.key == GridKey::ArrowRight
            || k.key == GridKey::ArrowLeft,
    ensures
        ({
            let rows = before.rs.rows@.len() + before.staged@.new_rows.len();
            let cols = before.rs.columns@.len();
            &&& out == KeyOutcome::Done
            &&& after.active matches Some(b) && {
                &&& k.key == GridKey::ArrowDown ==> b.col == a.col && b.row == if a.row + 1 < rows {
                    a.row + 1
                } else {
                    a.row as int
                }
                &&& k.key == GridKey::ArrowUp ==> b.col == a.col && b.row == if a.row > 0 {
                    a.row - 1
                } else {
                    0
                }
                &&& k.key == GridKey::ArrowRight ==> b.row == a.row && b.col == if a.col + 1 < cols {
                    a.col + 1
                } else {
                    a.col as int
                }
                &&& k.key == GridKey::ArrowLeft ==> b.row == a.row && b.col == if a.col > 0 {
                    a.col - 1
                } else {
                    0
                }
                &&& !k.shift ==> after.anchor == Some(b)
                &&& k.shift && before.anchor is Some ==> after.anchor == before.anchor
            }
            &&& after.staged == before.staged
            &&& after.rs == before.rs
        }),
{
}

/// Home and End go to the ends of the row, and with Ctrl to those of the grid.
pub proof fn home_and_end_go_to_the_ends(
    before: GridState,
    k: KeyPress,
    after: GridState,
    out: KeyOutcome,
    a: At,
)
    requires
        before.key_leads_to(k, after, out),
        before.countable(),
        before.rs.columns@.len() <= usize::MAX,
        before.active == Some(a),
        a.row < before.rs.rows@.len() + before.staged@.new_rows.len(),
        a.col < before.rs.columns@.len(),
        k.key == GridKey::Home || k.key == GridKey::End,
    ensures
        after.active matches Some(b) && {
            &&& k.key == GridKey::Home ==> b.col == 0
            &&& k.key == GridKey::End ==> b.col + 1 == before.rs.columns@.len()
            &&& !k.ctrl ==> b.row == a.row
            &&& k.ctrl && k.key == GridKey::Home ==> b.row == 0
            &&& k.ctrl && k.key == GridKey::End ==> b.row + 1 == before.rs.rows@.len()
                + before.staged@.new_rows.len()
        },
        after.staged == before.staged,
{
}

/// A page is as many rows as the grid shows, and one at least: Page Down goes no farther, and less far
/// only to the last row.
pub proof fn a_page_key_goes_a_page(
    before: GridState,
    k: KeyPress,
    after: GridState,
    out: KeyOutcome,
    a: At,
)
    requires
        before.key_leads_to(k, after, out),
        before.countable(),
        before.metrics.row_h > 0,
        before.active == Some(a),
        a.row < before.rs.rows@.len() + before.staged@.new_rows.len(),
        a.col < before.rs.columns@.len() <= usize::MAX,
        k.key == GridKey::PageDown || k.key == GridKey::PageUp,
    ensures
        after.active matches Some(b) && {
            let fit = before.vp.h as int / before.metrics.row_h as int;
            let page = if fit < 1 {
                1
            } else {
                fit
            };
            &&& b.col == a.col
            &&& k.key == GridKey::PageDown ==> a.row <= b.row <= a.row + page && (b.row == a.row + page
                || b.row + 1 == before.rs.rows@.len() + before.staged@.new_rows.len())
            &&& k.key == GridKey::PageUp ==> a.row - page <= b.row <= a.row && (b.row == a.row - page
                || b.row == 0)
        },
{
}

/// Select All selects every cell, the new rows included, and changes nothing else.
pub proof fn select_all_selects_every_cell(
    before: GridState,
    k: KeyPress,
    after: GridState,
    out: KeyOutcome,
    row: int,
    col: int,
)
    requires
        before.key_leads_to(k, after, out),
        before.countable(),
        before.rs.columns@.len() <= usize::MAX,
        k.ctrl,
        k.key == GridKey::Letter('a') || k.key == GridKey::Letter('A'),
        0 <= row < before.rs.rows@.len() + before.staged@.new_rows.len(),
        0 <= col < before.rs.columns@.len(),
    ensures
        crate::selection::in_span(after.span(), row, col),
        after.staged == before.staged,
        out == KeyOutcome::Done,
{
}

/// A letter without Ctrl is not the grid's: it changes nothing and is handed on. With Ctrl, C copies, V
/// pastes, F and G open their bars and close the other, and none of them changes what is staged.
pub proof fn a_letter_needs_ctrl(
    before: GridState,
    k: KeyPress,
    after: GridState,
    out: KeyOutcome,
    c: char,
)
    requires
        before.key_leads_to(k, after, out),
        before.shown_rows() > 0,
        before.countable(),
        0 < before.rs.columns@.len() <= usize::MAX,
        k.key == GridKey::Letter(c),
    ensures
        !k.ctrl ==> after == before && out == KeyOutcome::Continue,
        k.ctrl && (c == 'c' || c == 'C') ==> after == before && out == KeyOutcome::Copy,
        k.ctrl && (c == 'v' || c == 'V') ==> after == before && out == KeyOutcome::Paste,
        k.ctrl && (c == 'f' || c == 'F') ==> after.top.find_open && !after.top.goto_open,
        k.ctrl && (c == 'g' || c == 'G') ==> after.top.goto_open && !after.top.find_open,
        after.staged == before.staged,
        after.rs == before.rs,
{
}

/// Escape closes one thing at a time, the find bar first, then the one that asks for a row, then the
/// row panel; only then is the selection cleared. What is staged stays.
pub proof fn escape_closes_one_thing(before: GridState, after: GridState)
    requires
        before.escaped(after),
    ensures
        before.top.find_open ==> !after.top.find_open && after.top.goto_open == before.top.goto_open
            && after.edit_row_open == before.edit_row_open && after.active == before.active,
        !before.top.find_open && before.top.goto_open ==> !after.top.goto_open && after.edit_row_open
            == before.edit_row_open && after.active == before.active,
        !before.top.find_open && !before.top.goto_open && before.edit_row_open ==> !after.edit_row_open
            && after.active == before.active,
        !before.top.find_open && !before.top.goto_open && !before.edit_row_open ==> after.active is None
            && after.anchor is None,
        after.staged == before.staged,
{
}

/// Whether a place lies between two others, or is one of them.
pub open spec fn lies_between(d: int, a: int, b: int) -> bool {
    a <= d <= b || b <= d <= a
}

proof fn lemma_delete_rows(gs: GridState, a: At, b: At, d: int)
    requires
        gs.active == Some(a),
        gs.anchor == Some(b),
        gs.order@.no_duplicates(),
        0 <= d < gs.order@.len(),
    ensures
        gs.delete_rows().contains(gs.order@[d]) <==> lies_between(d, a.row as int, b.row as int),
{
    let rows = gs.delete_rows();
    let order = gs.order@;
    let s = gs.span()->0;
    rows_are_those_of_their_places(order, s.r0 as int, s.r1 as int, d);
    if s.r0 <= d <= s.r1 {
        assert(rows[d - s.r0] == order[d]);
    } else if rows.contains(order[d]) {
        let i = rows.index_of(order[d]);
        assert(rows[i] == order[i + s.r0]);
    }
}

/// Delete marks every row of the result that is selected, where one of them is not marked, and unmarks
/// them where all are; no other row is touched, and no new row.
pub proof fn delete_is_about_the_selected_rows(
    before: GridState,
    k: KeyPress,
    after: GridState,
    out: KeyOutcome,
    a: At,
    b: At,
    d: int,
    e: int,
)
    requires
        before.key_leads_to(k, after, out),
        before.countable(),
        0 < before.rs.columns@.len() <= usize::MAX,
        before.order@.len() == before.rs.rows@.len(),
        before.order@.no_duplicates(),
        k.key == GridKey::Delete,
        before.active == Some(a),
        before.anchor == Some(b),
        0 <= d < before.order@.len(),
        0 <= e < before.order@.len(),
        before.model.target is Some,
        before.model.target->0 < before.model.tables@.len(),
        lies_between(e, a.row as int, b.row as int),
    ensures
        ({
            let was = before.staged@.del_rows;
            let is = after.staged@.del_rows;
            let row = before.order@[d];
            &&& out == KeyOutcome::Done
            &&& !lies_between(d, a.row as int, b.row as int) ==> is.contains(row) == was.contains(row)
            &&& lies_between(d, a.row as int, b.row as int) && !was.contains(before.order@[e])
                ==> is.contains(row)
            &&& lies_between(d, a.row as int, b.row as int) && is.contains(row) ==> exists|f: int|
                0 <= f < before.order@.len() && lies_between(f, a.row as int, b.row as int)
                    && !was.contains(#[trigger] before.order@[f])
            &&& after.staged@.new_rows == before.staged@.new_rows
        }),
{
    let rows = before.delete_rows();
    let order = before.order@;
    let was = before.staged@.del_rows;
    lemma_delete_rows(before, a, b, d);
    lemma_delete_rows(before, a, b, e);
    assert(rows.len() > 0);
    crate::staged::marks_are_about_their_rows(
        before.staged@,
        rows,
        some_unmarked(was, rows),
        order[d],
        At { row: 0, col: 0 },
    );
    crate::selection::a_range_is_marked_unless_all_are(was, rows);
    if some_unmarked(was, rows) {
        let i = choose|i: int| 0 <= i < rows.len() && !was.contains(#[trigger] rows[i]);
        let s = before.span()->0;
        rows_are_those_of_their_places(order, s.r0 as int, s.r1 as int, i + s.r0);
        assert(rows[i] == order[i + s.r0]);
    }
}

/// Delete does nothing where the result has no table for rows, or no row is selected, and is handed on.
pub proof fn delete_needs_a_row(before: GridState, k: KeyPress, after: GridState, out: KeyOutcome)
    requires
        before.key_leads_to(k, after, out),
        k.key == GridKey::Delete,
        before.model.target is None || before.active is None,
    ensures
        after == before,
        out == KeyOutcome::Continue,
{
}

/// Enter opens the active cell where its column can be edited, and does nothing else; with Ctrl it asks
/// for what is staged to be written.
pub proof fn enter_opens_the_cell(
    before: GridState,
    k: KeyPress,
    after: GridState,
    out: KeyOutcome,
    a: At,
)
    requires
        before.key_leads_to(k, after, out),
        before.countable(),
        before.shown_rows() > 0,
        0 < before.rs.columns@.len() <= usize::MAX,
        before.active == Some(a),
        k.key == GridKey::Enter,
    ensures
        k.ctrl ==> after == before && out == KeyOutcome::Commit,
        !k.ctrl && !(a.col < before.model.editable@.len() && before.model.editable@[a.col as int])
            ==> after == before,
        !k.ctrl && a.col < before.model.editable@.len() && before.model.editable@[a.col as int] && (
        a.row >= before.rs.rows@.len()) ==> after.edit_cell == Some(a),
        !k.ctrl && a.col < before.model.editable@.len() && before.model.editable@[a.col as int]
            && before.order@.len() == before.rs.rows@.len() && a.row < before.rs.rows@.len()
            && !before.staged@.del_rows.contains(before.order@[a.row as int]) ==> after.edit_cell
            == Some(a) && after.edit_buf@ == crate::state::seed_text(before, a),
        !k.ctrl ==> out == KeyOutcome::Done,
        after.staged == before.staged,
{
}

/// Escape closes what is on top, whatever else is held, and never changes what is staged; a grid
/// without cells hands every key on.
pub proof fn escape_reaches_the_grid(
    before: GridState,
    k: KeyPress,
    after: GridState,
    out: KeyOutcome,
)
    requires
        before.key_leads_to(k, after, out),
        before.countable(),
        before.rs.columns@.len() <= usize::MAX,
    ensures
        before.shown_rows() == 0 || before.rs.columns@.len() == 0 ==> after == before && out
            == KeyOutcome::Continue,
        before.shown_rows() > 0 && before.rs.columns@.len() > 0 && k.key == GridKey::Escape ==> {
            &&& out == KeyOutcome::Done
            &&& after.staged == before.staged
            &&& before.top.find_open ==> !after.top.find_open && after.find_query@.len() == 0
                && after.active == before.active
            &&& !before.top.find_open && before.top.goto_open ==> !after.top.goto_open
                && after.goto_query@.len() == 0 && after.active == before.active
            &&& !before.top.find_open && !before.top.goto_open && before.edit_row_open
                ==> !after.edit_row_open && after.active == before.active
            &&& !before.top.find_open && !before.top.goto_open && !before.edit_row_open ==> after.active is None
                && after.anchor is None
        },
{
}

/// The first key that moves makes the first cell active, and no other key makes one so.
pub proof fn the_first_move_is_to_the_first_cell(
    before: GridState,
    k: KeyPress,
    after: GridState,
    out: KeyOutcome,
)
    requires
        before.key_leads_to(k, after, out),
        before.countable(),
        before.shown_rows() > 0,
        0 < before.rs.columns@.len() <= usize::MAX,
        before.active is None,
        k.key == GridKey::ArrowDown || k.key == GridKey::ArrowUp || k.key == GridKey::ArrowRight
            || k.key == GridKey::ArrowLeft || k.key == GridKey::Home || k.key == GridKey::End || k.key
            == GridKey::PageDown || k.key == GridKey::PageUp,
    ensures
        after.active == Some(At { row: 0, col: 0 }),
        after.staged == before.staged,
        out == KeyOutcome::Done,
{
}

/// No key changes the result, its order or what can be edited; only Delete changes what is staged, and
/// only Enter opens a cell.
pub proof fn a_key_leaves_the_rest(before: GridState, k: KeyPress, after: GridState, out: KeyOutcome)
    requires
        before.key_leads_to(k, after, out),
    ensures
        after.rs == before.rs,
        after.order == before.order,
        after.model == before.model,
        after.widths == before.widths,
        after.frozen == before.frozen,
        after.query == before.query,
        k.key != GridKey::Delete ==> after.staged == before.staged && after.bar == before.bar,
        k.key != GridKey::Enter ==> after.edit_cell == before.edit_cell && after.edit_buf == before.edit_buf,
        k.key == GridKey::Delete ==> after.active == before.active && after.anchor == before.anchor
            && after.top == before.top,
        k.key != GridKey::Escape && !(k.key is Letter) ==> after.top == before.top && after.edit_row_open
            == before.edit_row_open,
{
}

} // verus!
