//! Which cells of a grid are selected, and how the selection moves.
//!
//! A selection lives among the rows as they are shown: those of the result first, then the new
//! rows.

use vstd::prelude::*;
use crate::keymap::{At, KeyMap};

verus! {

/// A rectangle of cells, its edges included.
#[derive(Clone, Copy, Debug, PartialEq, Eq, Structural)]
pub struct Span {
    pub r0: usize,
    pub c0: usize,
    pub r1: usize,
    pub c1: usize,
}

impl Span {
    /// Whether a place is inside.
    pub open spec fn holds(self, row: int, col: int) -> bool {
        self.r0 <= row <= self.r1 && self.c0 <= col <= self.c1
    }

    /// Whether its edges are in order.
    pub open spec fn ordered(self) -> bool {
        self.r0 <= self.r1 && self.c0 <= self.c1
    }
}

/// The smaller of two.
pub open spec fn least(a: usize, b: usize) -> usize {
    if a <= b {
        a
    } else {
        b
    }
}

/// The greater of two.
pub open spec fn greatest(a: usize, b: usize) -> usize {
    if a >= b {
        a
    } else {
        b
    }
}

/// The rectangle between the active cell and the anchor; the active cell alone without one.
pub open spec fn span_of(active: Option<At>, anchor: Option<At>) -> Option<Span> {
    match active {
        None => None,
        Some(a) => {
            let b = match anchor {
                Some(x) => x,
                None => a,
            };
            Some(
                Span {
                    r0: least(a.row, b.row),
                    c0: least(a.col, b.col),
                    r1: greatest(a.row, b.row),
                    c1: greatest(a.col, b.col),
                },
            )
        },
    }
}

/// The rectangle between the active cell and the anchor.
pub fn bounds(active: Option<At>, anchor: Option<At>) -> (r: Option<Span>)
    ensures
        r == span_of(active, anchor),
{
    match active {
        None => None,
        Some(a) => {
            let b: At = match anchor {
                Some(x) => x,
                None => a,
            };
            Some(
                Span {
                    r0: if a.row <= b.row { a.row } else { b.row },
                    c0: if a.col <= b.col { a.col } else { b.col },
                    r1: if a.row >= b.row { a.row } else { b.row },
                    c1: if a.col >= b.col { a.col } else { b.col },
                },
            )
        },
    }
}

/// A selection's rectangle has its edges in order and holds both its ends, and it is the same
/// with the ends exchanged.
pub proof fn span_holds_both_ends(a: At, b: At)
    ensures
        span_of(Some(a), Some(b))->0.ordered(),
        span_of(Some(a), Some(b))->0.holds(a.row as int, a.col as int),
        span_of(Some(a), Some(b))->0.holds(b.row as int, b.col as int),
        span_of(Some(a), Some(b)) == span_of(Some(b), Some(a)),
{
}

/// Whether a cell is selected.
pub open spec fn in_span(span: Option<Span>, row: int, col: int) -> bool {
    span matches Some(s) && s.holds(row, col)
}

/// Whether a cell is selected.
pub fn cell_in(span: Option<Span>, row: usize, col: usize) -> (r: bool)
    ensures
        r == in_span(span, row as int, col as int),
{
    match span {
        Some(s) => s.r0 <= row && row <= s.r1 && s.c0 <= col && col <= s.c1,
        None => false,
    }
}

/// Whether a row is among the selected ones.
pub fn row_in(span: Option<Span>, row: usize) -> (r: bool)
    ensures
        r == (span matches Some(s) && s.r0 <= row <= s.r1),
{
    match span {
        Some(s) => s.r0 <= row && row <= s.r1,
        None => false,
    }
}

/// What a selection means for the line that sums it up.
#[derive(Clone, Copy, Debug, PartialEq, Eq, Structural)]
pub enum SelKind {
    /// Nothing, or one cell, which sums up to itself.
    Nothing,
    /// Whole rows: they are counted only.
    WholeRow,
    /// A range that is read by this column.
    Column(usize),
}

/// Nothing for no selection and for one cell; whole rows where every column of several is
/// covered; else the column that the selection started on.
pub open spec fn kind_of(span: Option<Span>, anchor: Option<At>, ncols: int) -> SelKind {
    match span {
        None => SelKind::Nothing,
        Some(s) => if s.r0 == s.r1 && s.c0 == s.c1 {
            SelKind::Nothing
        } else if ncols > 1 && s.c1 - s.c0 + 1 == ncols {
            SelKind::WholeRow
        } else {
            match anchor {
                Some(a) => SelKind::Column(a.col),
                None => SelKind::Nothing,
            }
        },
    }
}

/// Whether a selection is summed up, and by which column.
pub fn selection_kind(span: Option<Span>, anchor: Option<At>, ncols: usize) -> (r: SelKind)
    requires
        span matches Some(s) ==> s.ordered(),
    ensures
        r == kind_of(span, anchor, ncols as int),
{
    match span {
        None => SelKind::Nothing,
        Some(s) => if s.r0 == s.r1 && s.c0 == s.c1 {
            SelKind::Nothing
        } else if ncols > 1 && s.c1 - s.c0 == ncols - 1 {
            SelKind::WholeRow
        } else {
            match anchor {
                Some(a) => SelKind::Column(a.col),
                None => SelKind::Nothing,
            }
        },
    }
}

/// The two ends of a selection: where it started, and where it is.
#[derive(Clone, Copy, Debug, PartialEq, Eq, Structural)]
pub struct Ends {
    pub anchor: At,
    pub active: At,
}

/// The last of so many, or the first place where there is none.
pub open spec fn last_of(n: usize) -> usize {
    if n == 0 {
        0
    } else {
        (n - 1) as usize
    }
}

/// The rows from one to another, whole.
pub open spec fn rows_between(anchor_row: usize, row: usize, ncols: usize) -> Ends {
    Ends {
        anchor: At { row: anchor_row, col: 0 },
        active: At { row, col: last_of(ncols) },
    }
}

/// Select the rows from one to another, whole: a drag down the row numbers.
pub fn row_range_selection(anchor_row: usize, row: usize, ncols: usize) -> (r: Ends)
    ensures
        r == rows_between(anchor_row, row, ncols),
{
    Ends {
        anchor: At { row: anchor_row, col: 0 },
        active: At { row, col: ncols.saturating_sub(1) },
    }
}

/// Select a row, whole: a click on its number, or a jump to it.
pub fn row_selection(row: usize, ncols: usize) -> (r: Ends)
    ensures
        r == rows_between(row, row, ncols),
{
    row_range_selection(row, row, ncols)
}

/// A selection of whole rows is read as one, where there is more than one column; in a result of
/// one column a single row is one cell, and several are read by that column.
pub proof fn a_row_gesture_selects_whole_rows(anchor_row: usize, row: usize, ncols: usize)
    ensures
        ({
            let e = rows_between(anchor_row, row, ncols);
            let kind = kind_of(span_of(Some(e.active), Some(e.anchor)), Some(e.anchor), ncols as int);
            if ncols > 1 {
                kind == SelKind::WholeRow
            } else if anchor_row == row {
                kind == SelKind::Nothing
            } else {
                kind == SelKind::Column(0)
            }
        }),
{
}

/// A move of the active cell.
#[derive(Clone, Copy, Debug, PartialEq, Eq, Structural)]
pub enum Nav {
    Down,
    Up,
    Right,
    Left,
    RowStart,
    RowEnd,
    First,
    Last,
    PageDown,
    PageUp,
}

/// `n` less `by`, and no less than nothing.
pub open spec fn back(n: usize, by: usize) -> usize {
    if n >= by {
        (n - by) as usize
    } else {
        0
    }
}

/// `n` and `by` more, and no more than `last`.
pub open spec fn ahead(n: usize, by: usize, last: usize) -> usize {
    if n + by <= last {
        (n + by) as usize
    } else {
        last
    }
}

/// Where a move leads in a grid of so many rows and columns.
pub open spec fn moved(rows: usize, cols: usize, page: usize, at: At, nav: Nav) -> At {
    match nav {
        Nav::Down => At { row: ahead(at.row, 1, last_of(rows)), col: at.col },
        Nav::Up => At { row: back(at.row, 1), col: at.col },
        Nav::Right => At { row: at.row, col: ahead(at.col, 1, last_of(cols)) },
        Nav::Left => At { row: at.row, col: back(at.col, 1) },
        Nav::RowStart => At { row: at.row, col: 0 },
        Nav::RowEnd => At { row: at.row, col: last_of(cols) },
        Nav::First => At { row: 0, col: 0 },
        Nav::Last => At { row: last_of(rows), col: last_of(cols) },
        Nav::PageDown => At { row: ahead(at.row, page, last_of(rows)), col: at.col },
        Nav::PageUp => At { row: back(at.row, page), col: at.col },
    }
}

/// Where a move leads. `rows` counts every row that is shown, the new ones too.
pub fn nav_target(rows: usize, cols: usize, page: usize, at: At, nav: Nav) -> (r: At)
    requires
        nav == Nav::Down ==> at.row < usize::MAX,
        nav == Nav::Right ==> at.col < usize::MAX,
        nav == Nav::PageDown ==> at.row + page <= usize::MAX,
    ensures
        r == moved(rows, cols, page, at, nav),
{
    let last_r: usize = rows.saturating_sub(1);
    let last_c: usize = cols.saturating_sub(1);
    match nav {
        Nav::Down => At { row: if at.row + 1 <= last_r { at.row + 1 } else { last_r }, col: at.col },
        Nav::Up => At { row: at.row.saturating_sub(1), col: at.col },
        Nav::Right => At { row: at.row, col: if at.col + 1 <= last_c { at.col + 1 } else { last_c } },
        Nav::Left => At { row: at.row, col: at.col.saturating_sub(1) },
        Nav::RowStart => At { row: at.row, col: 0 },
        Nav::RowEnd => At { row: at.row, col: last_c },
        Nav::First => At { row: 0, col: 0 },
        Nav::Last => At { row: last_r, col: last_c },
        Nav::PageDown => At {
            row: if at.row + page <= last_r { at.row + page } else { last_r },
            col: at.col,
        },
        Nav::PageUp => At { row: at.row.saturating_sub(page), col: at.col },
    }
}

/// A move from a cell of the grid leads to a cell of the grid, the new rows being reached like
/// the others; and a step back from a step ahead returns, but at the edges.
pub proof fn a_move_stays_in_the_grid(rows: usize, cols: usize, page: usize, at: At, nav: Nav)
    requires
        at.row < rows,
        at.col < cols,
    ensures
        moved(rows, cols, page, at, nav).row < rows,
        moved(rows, cols, page, at, nav).col < cols,
        at.row + 1 < rows ==> moved(
            rows,
            cols,
            page,
            moved(rows, cols, page, at, Nav::Down),
            Nav::Up,
        ) == at,
        at.col + 1 < cols ==> moved(
            rows,
            cols,
            page,
            moved(rows, cols, page, at, Nav::Right),
            Nav::Left,
        ) == at,
{
}

/// Where the anchor stands after a cell was made active: on that cell, but a selection that is
/// extended keeps the anchor it has, or starts from the cell that was active.
pub open spec fn anchor_after(
    active: Option<At>,
    anchor: Option<At>,
    at: At,
    extend: bool,
) -> Option<At> {
    if !extend {
        Some(at)
    } else if anchor is Some {
        anchor
    } else if active is Some {
        active
    } else {
        Some(at)
    }
}

/// Whether one of the rows is not marked.
pub open spec fn some_unmarked(marked: Set<usize>, rows: Seq<usize>) -> bool {
    exists|i: int| 0 <= i < rows.len() && !marked.contains(#[trigger] rows[i])
}

/// Whether a Delete over these rows marks them all: it does where one is not marked yet, and only
/// rows that are all marked are unmarked.
pub fn delete_vote(marked: &KeyMap<usize, ()>, rows: &Vec<usize>) -> (r: bool)
    ensures
        r == some_unmarked(marked@.dom(), rows@),
{
    let mut i: usize = 0;
    while i < rows.len()
        invariant
            i <= rows@.len(),
            forall|j: int| 0 <= j < i ==> marked@.dom().contains(#[trigger] rows@[j]),
        decreases rows@.len() - i,
    {
        if !marked.contains(rows[i]) {
            return true;
        }
        i = i + 1;
    }
    false
}

/// Whether a jump is asked for: the count differs from the one seen before, and one was seen.
pub open spec fn jumps(seen: Option<u64>, step: u64) -> bool {
    seen matches Some(s) && s != step
}

/// Whether a jump is asked for. The first look at the count never jumps, and neither does a look
/// that finds it unchanged.
pub fn goto_fires(seen: Option<u64>, step: u64) -> (r: bool)
    ensures
        r == jumps(seen, step),
{
    match seen {
        Some(s) => s != step,
        None => false,
    }
}

/// The two bars at the top of the panel, of which one is open at most.
#[derive(Clone, Copy, Debug, PartialEq, Eq, Structural)]
pub struct TopBars {
    pub find_open: bool,
    pub goto_open: bool,
}

impl TopBars {
    /// At most one bar is open.
    pub open spec fn apart(self) -> bool {
        !(self.find_open && self.goto_open)
    }

    /// Open or close the find bar. Opening it closes the other; closing it leaves the other
    /// alone.
    pub fn set_find(&mut self, open: bool)
        ensures
            final(self).find_open == open,
            final(self).goto_open == (old(self).goto_open && !open),
            final(self).apart(),
    {
        self.find_open = open;
        if open {
            self.goto_open = false;
        }
    }

    /// Open or close the bar that asks for a row. Opening it closes the other; closing it leaves
    /// the other alone.
    pub fn set_goto(&mut self, open: bool)
        ensures
            final(self).goto_open == open,
            final(self).find_open == (old(self).find_open && !open),
            final(self).apart(),
    {
        self.goto_open = open;
        if open {
            self.find_open = false;
        }
    }
}

/// What is selected is every cell between the two ends, by rows and by columns, and no other; with one
/// end it is that cell.
pub proof fn a_selection_is_what_lies_between_its_ends(a: At, b: At, row: int, col: int)
    ensures
        in_span(span_of(Some(a), Some(b)), row, col) <==> (a.row <= row <= b.row || b.row <= row
            <= a.row) && (a.col <= col <= b.col || b.col <= col <= a.col),
        in_span(span_of(Some(a), None), row, col) <==> row == a.row && col == a.col,
        !in_span(span_of(None, Some(b)), row, col),
{
}

/// A step goes one cell its way, and stays at the edge; a jump goes to its edge. Only the one
/// direction changes.
pub proof fn a_step_goes_one_cell(rows: usize, cols: usize, page: usize, at: At)
    requires
        at.row < rows,
        at.col < cols,
    ensures
        at.row + 1 < rows ==> moved(rows, cols, page, at, Nav::Down).row == at.row + 1,
        at.row + 1 == rows ==> moved(rows, cols, page, at, Nav::Down).row == at.row,
        at.row > 0 ==> moved(rows, cols, page, at, Nav::Up).row == at.row - 1,
        at.row == 0 ==> moved(rows, cols, page, at, Nav::Up).row == 0,
        at.col + 1 < cols ==> moved(rows, cols, page, at, Nav::Right).col == at.col + 1,
        at.col + 1 == cols ==> moved(rows, cols, page, at, Nav::Right).col == at.col,
        at.col > 0 ==> moved(rows, cols, page, at, Nav::Left).col == at.col - 1,
        at.col == 0 ==> moved(rows, cols, page, at, Nav::Left).col == 0,
        moved(rows, cols, page, at, Nav::Down).col == at.col,
        moved(rows, cols, page, at, Nav::Up).col == at.col,
        moved(rows, cols, page, at, Nav::Right).row == at.row,
        moved(rows, cols, page, at, Nav::Left).row == at.row,
        moved(rows, cols, page, at, Nav::RowStart).row == at.row,
        moved(rows, cols, page, at, Nav::RowStart).col == 0,
        moved(rows, cols, page, at, Nav::RowEnd).row == at.row,
        moved(rows, cols, page, at, Nav::RowEnd).col + 1 == cols,
        moved(rows, cols, page, at, Nav::First).row == 0,
        moved(rows, cols, page, at, Nav::First).col == 0,
        moved(rows, cols, page, at, Nav::Last).row + 1 == rows,
        moved(rows, cols, page, at, Nav::Last).col + 1 == cols,
{
}

/// A page goes so many rows, and fewer only where the grid ends; the column stays.
pub proof fn a_page_goes_its_rows(rows: usize, cols: usize, page: usize, at: At)
    requires
        at.row < rows,
    ensures
        ({
            let down = moved(rows, cols, page, at, Nav::PageDown);
            let up = moved(rows, cols, page, at, Nav::PageUp);
            &&& at.row <= down.row <= at.row + page
            &&& down.row < at.row + page ==> down.row + 1 == rows
            &&& down.col == at.col
            &&& at.row - page <= up.row <= at.row
            &&& up.row > at.row - page ==> up.row == 0
            &&& up.col == at.col
        }),
{
}

/// A gesture that extends keeps the end that the selection started from, so that it reaches from
/// there to the cell; one that does not starts anew with the cell alone.
pub proof fn extending_keeps_the_start(active: Option<At>, anchor: Option<At>, at: At, row: int, col: int)
    ensures
        anchor_after(active, anchor, at, false) == Some(at),
        in_span(span_of(Some(at), anchor_after(active, anchor, at, false)), row, col) <==> row
            == at.row && col == at.col,
        anchor is Some ==> anchor_after(active, anchor, at, true) == anchor,
        anchor is None && active is Some ==> anchor_after(active, anchor, at, true) == active,
        anchor is None && active is None ==> anchor_after(active, anchor, at, true) == Some(at),
{
}

/// A selection of one cell is read as nothing, one of every column as rows, and any other by the
/// column that it started in.
pub proof fn a_selection_is_read_by_its_start(a: At, anchor: At, ncols: int)
    requires
        a.col < ncols,
        anchor.col < ncols,
    ensures
        ({
            let kind = kind_of(span_of(Some(a), Some(anchor)), Some(anchor), ncols);
            let all = (a.col == 0 && anchor.col == ncols - 1) || (anchor.col == 0 && a.col == ncols
                - 1);
            if a == anchor {
                kind == SelKind::Nothing
            } else if ncols > 1 && all {
                kind == SelKind::WholeRow
            } else {
                kind == SelKind::Column(anchor.col)
            }
        }),
        kind_of(None, Some(anchor), ncols) == SelKind::Nothing,
{
}

/// A selection of rows holds every column of the rows between its ends, and no other row.
pub proof fn a_row_gesture_holds_whole_rows(from: usize, to: usize, ncols: usize, row: int, col: int)
    requires
        0 <= col < ncols,
    ensures
        ({
            let e = rows_between(from, to, ncols);
            in_span(span_of(Some(e.active), Some(e.anchor)), row, col) <==> from <= row <= to || to
                <= row <= from
        }),
        rows_between(from, to, ncols).anchor.row == from,
        rows_between(from, to, ncols).active.row == to,
{
}

/// A range is to be marked where one of its rows is not marked yet, and unmarked where all are.
pub proof fn a_range_is_marked_unless_all_are(marked: Set<usize>, rows: Seq<usize>)
    ensures
        some_unmarked(marked, rows) <==> !(forall|r: usize| #[trigger] rows.contains(r) ==> marked.contains(r)),
{
    if some_unmarked(marked, rows) {
        let i = choose|i: int| 0 <= i < rows.len() && !marked.contains(#[trigger] rows[i]);
        assert(rows.contains(rows[i]));
    }
    if !(forall|r: usize| #[trigger] rows.contains(r) ==> marked.contains(r)) {
        let r = choose|r: usize| #[trigger] rows.contains(r) && !marked.contains(r);
        let i = rows.index_of(r);
        assert(!marked.contains(rows[i]));
    }
}

/// A jump is made where its step was not the last one seen; the first that is seen makes none.
pub proof fn a_jump_is_made_once(seen: u64, step: u64)
    ensures
        !jumps(None, step),
        !jumps(Some(step), step),
        seen != step ==> jumps(Some(seen), step),
{
}

/// A selection without a start is read as none.
pub proof fn a_selection_without_a_start_is_none(s: Span, ncols: int)
    requires
        !(ncols > 1 && s.c1 - s.c0 + 1 == ncols),
    ensures
        kind_of(Some(s), None, ncols) == SelKind::Nothing,
{
}

/// The find bar and the row jump are never up together, and a selection is read from its smaller to its
/// greater end.
pub proof fn one_bar_is_up_at_a_time(t: TopBars, a: usize, b: usize)
    ensures
        t.apart() <==> !t.find_open || !t.goto_open,
        least(a, b) <= a && least(a, b) <= b && (least(a, b) == a || least(a, b) == b),
        greatest(a, b) >= a && greatest(a, b) >= b && (greatest(a, b) == a || greatest(a, b) == b),
{
}

} // verus!
