//! The row numbers on the left and the column headers on top.

use vstd::prelude::*;
use crate::cell::{attach_text, PressOutcome};
use crate::columns::ColumnFormat;
use crate::keymap::At;
use crate::keys::{rows_shown, shown_data_rows};
use crate::menu::{add_item, add_line, entry, given, line, menu_view, new_menu};
use crate::menu::{Act, Entry, EntryView};
use crate::menu::offers;
use crate::selection::{row_in, row_range_selection, row_selection, rows_between, Ends, Span};
use crate::sort::{cycle_sort, next_sort, SortState};
use crate::state::GridState;
use crate::text::{decimal, digits};

verus! {

/// What a row's number reads: its place counted from one, or a star for a new row.
pub open spec fn gutter_text(gs: GridState, pos: usize) -> Seq<char> {
    if pos < gs.rs.rows@.len() {
        digits((pos + 1) as nat)
    } else {
        "*"@
    }
}

/// What a row's number reads.
pub fn gutter_label(gs: &GridState, pos: usize) -> (r: String)
    ensures
        r@ == gutter_text(*gs, pos),
{
    if pos < gs.rs.row_count() {
        decimal(pos as u128 + 1)
    } else {
        "*".to_owned()
    }
}

/// The row that a drag or an extended click starts from: that of the anchor.
pub open spec fn anchor_row(gs: GridState, pos: usize) -> usize {
    match gs.anchor {
        Some(a) => a.row,
        None => pos,
    }
}

/// The grid once whole rows were selected.
pub open spec fn rows_selected(gs: GridState, from: usize, to: usize) -> GridState {
    let ends = rows_between(from, to, gs.rs.columns@.len() as usize);
    GridState { anchor: Some(ends.anchor), active: Some(ends.active), ..gs }
}

/// The rows that an action on rows is about: those of the result that are selected, in the order
/// they are shown, if the row that was clicked is among the selected ones; else that row alone.
pub open spec fn acted_rows(gs: GridState, pos: usize) -> Seq<usize> {
    if gs.span() matches Some(s) && s.r0 <= pos <= s.r1 {
        rows_shown(gs.order@, gs.span()->0.r0 as int, gs.span()->0.r1 as int)
    } else {
        rows_shown(gs.order@, pos as int, pos as int)
    }
}

/// Whether all of these rows are to go.
pub open spec fn all_deleted(gs: GridState, rows: Seq<usize>) -> bool {
    forall|i: int| 0 <= i < rows.len() ==> gs.staged@.del_rows.contains(#[trigger] rows[i])
}

/// A verb and what it acts on: one row, or a number of them.
pub open spec fn rows_label(verb: Seq<char>, n: nat) -> Seq<char> {
    if n == 1 {
        verb + " row"@
    } else {
        verb + " "@ + digits(n) + " rows"@
    }
}

/// The menu of a row's number.
pub open spec fn gutter_menu_of(
    gs: GridState,
    pos: usize,
    may_attach: bool,
    scope: Seq<char>,
) -> Seq<EntryView> {
    let rows = acted_rows(gs, pos);
    let can_rows = pos < gs.rs.rows@.len() && gs.model.row_target() is Some;
    let gone = all_deleted(gs, rows);
    Seq::<EntryView>::empty() + given(true, entry(Act::CopySelection, "Copy"@)) + given(
        can_rows,
        line(),
    ) + given(can_rows, entry(Act::DuplicateRows, rows_label("Duplicate"@, rows.len()))) + given(
        can_rows,
        entry(
            Act::SetDeleted(!gone),
            if gone {
                "Undo delete"@
            } else {
                rows_label("Delete"@, rows.len())
            },
        ),
    ) + given(may_attach, line()) + given(
        may_attach,
        entry(Act::Attach, "Attach "@ + scope + " to chat"@),
    )
}

/// A verb and what it acts on.
fn rows_text(verb: &str, n: usize) -> (r: String)
    ensures
        r@ == rows_label(verb@, n as nat),
{
    let mut out: String = verb.to_owned();
    if n == 1 {
        out.append(" row");
    } else {
        out.append(" ");
        out.append(decimal(n as u128).as_str());
        out.append(" rows");
    }
    out
}

impl GridState {
    /// A press on a row's number: it selects the row and starts a drag over rows. Shift selects
    /// from the row that the selection started on.
    pub fn gutter_pressed(&mut self, pos: usize, primary: bool, shift: bool) -> (r: PressOutcome)
        ensures
            ({
                let gs = old(self).dismissed();
                if !primary {
                    r == PressOutcome::Continue && *final(self) == gs
                } else {
                    r == PressOutcome::Focus && *final(self) == (GridState {
                        row_selecting: true,
                        ..rows_selected(
                            gs,
                            if shift {
                                anchor_row(gs, pos)
                            } else {
                                pos
                            },
                            pos,
                        )
                    })
                }
            }),
    {
        self.dismiss_overlays();
        if !primary {
            return PressOutcome::Continue;
        }
        let from: usize = match self.anchor {
            Some(a) => if shift {
                a.row
            } else {
                pos
            },
            None => pos,
        };
        let ends: Ends = row_range_selection(from, pos, self.rs.columns.len());
        self.anchor = Some(ends.anchor);
        self.active = Some(ends.active);
        self.row_selecting = true;
        PressOutcome::Focus
    }

    /// The pointer came over a row's number: while a drag over rows is on, the selection is
    /// extended to the row.
    pub fn gutter_entered(&mut self, pos: usize)
        ensures
            *final(self) == if old(self).row_selecting {
                rows_selected(*old(self), anchor_row(*old(self), pos), pos)
            } else {
                *old(self)
            },
    {
        if self.row_selecting {
            let from: usize = match self.anchor {
                Some(a) => a.row,
                None => pos,
            };
            let ends: Ends = row_range_selection(from, pos, self.rs.columns.len());
            self.anchor = Some(ends.anchor);
            self.active = Some(ends.active);
        }
    }

    /// A click on a row's number that asks for its menu: inside the selection it keeps it, and
    /// outside it selects the row.
    pub fn gutter_menu_asked(&mut self, pos: usize)
        ensures
            *final(self) == if old(self).span() matches Some(s) && s.r0 <= pos <= s.r1 {
                *old(self)
            } else {
                rows_selected(*old(self), pos, pos)
            },
    {
        if !row_in(self.bounds(), pos) {
            let ends: Ends = row_selection(pos, self.rs.columns.len());
            self.anchor = Some(ends.anchor);
            self.active = Some(ends.active);
        }
    }

    /// The rows that an action on rows is about.
    pub fn selected_data_rows(&self, pos: usize) -> (r: Vec<usize>)
        ensures
            r@ == acted_rows(*self, pos),
    {
        match self.bounds() {
            Some(s) if s.r0 <= pos && pos <= s.r1 => shown_data_rows(&self.order, s.r0, s.r1),
            _ => shown_data_rows(&self.order, pos, pos),
        }
    }

    /// The menu of a row's number: what can be done to rows as such.
    pub fn gutter_menu(&self, pos: usize, may_attach: bool, scope: &str) -> (r: Vec<Entry>)
        ensures
            menu_view(r@) == gutter_menu_of(*self, pos, may_attach, scope@),
    {
        let rows: Vec<usize> = self.selected_data_rows(pos);
        let n: usize = rows.len();
        let mut gone: bool = true;
        let mut i: usize = 0;
        while i < n
            invariant
                i <= n == rows@.len(),
                gone == forall|k: int|
                    0 <= k < i ==> self.staged@.del_rows.contains(#[trigger] rows@[k]),
            decreases n - i,
        {
            if !self.staged.is_deleted(rows[i]) {
                gone = false;
            }
            i = i + 1;
        }
        assert(gone == all_deleted(*self, rows@));
        let can_rows: bool = pos < self.rs.row_count() && self.model.insert_target().is_some();
        let mut out: Vec<Entry> = new_menu();
        add_item(&mut out, true, Act::CopySelection, "Copy");
        add_line(&mut out, can_rows);
        let dup: String = rows_text("Duplicate", n);
        add_item(&mut out, can_rows, Act::DuplicateRows, dup.as_str());
        let del: String = if gone {
            "Undo delete".to_owned()
        } else {
            rows_text("Delete", n)
        };
        add_item(&mut out, can_rows, Act::SetDeleted(!gone), del.as_str());
        add_line(&mut out, may_attach);
        let attach: String = attach_text(scope);
        add_item(&mut out, may_attach, Act::Attach, attach.as_str());
        out
    }

    /// How a column is sorted: by the server, else by the grid itself. The second is whether it
    /// ascends.
    pub open spec fn header_sort(self, ci: usize, sort: SortState) -> Option<bool> {
        let server = match crate::query::real_name(self.rs, ci as int) {
            Some(col) => crate::query::sort_dir(self.query.sort@, col@),
            None => None,
        };
        if server is Some {
            server
        } else {
            match sort {
                Some((c, asc)) => if c == ci {
                    Some(asc)
                } else {
                    None
                },
                None => None,
            }
        }
    }

    /// How a column is sorted.
    pub fn header_cell(&self, ci: usize, sort: SortState) -> (r: Option<bool>)
        ensures
            r == self.header_sort(ci, sort),
    {
        match self.server_sort_dir(ci) {
            Some(asc) => Some(asc),
            None => match sort {
                Some((c, asc)) => if c == ci {
                    Some(asc)
                } else {
                    None
                },
                None => None,
            },
        }
    }

    /// A click on a header: a result that the server can sort is sorted there, any other by the
    /// grid itself. Says whether the statement is to be run again.
    pub fn header_clicked(&mut self, ci: usize, sort: &mut SortState) -> (r: bool)
        ensures
            ({
                let gs = old(self).dismissed();
                let own = crate::query::real_name(gs.rs, ci as int);
                if gs.is_filterable() {
                    &&& r == (own is Some)
                    &&& *final(sort) == *old(sort)
                    &&& own is None ==> *final(self) == gs
                    &&& own matches Some(col) ==> {
                        &&& *final(self) == (GridState {
                            query: crate::state::GridQuery {
                                sort: final(self).query.sort,
                                ..gs.query
                            },
                            ..gs
                        })
                        &&& match crate::query::next_server_sort(gs.query.sort@, col@) {
                            None => final(self).query.sort@.len() == 0,
                            Some(asc) => final(self).query.sort@ == seq![
                                (crate::state::SortBy { column: col, asc }),
                            ],
                        }
                    }
                } else {
                    !r && *final(self) == gs && *final(sort) == next_sort(*old(sort), ci)
                }
            }),
    {
        self.dismiss_overlays();
        if self.filterable() {
            self.cycle_server_sort(ci)
        } else {
            cycle_sort(sort, ci);
            false
        }
    }

    /// Pin a column to the left, or let it go where it is pinned.
    pub fn toggle_frozen(&mut self, ci: usize)
        ensures
            *final(self) == (GridState {
                frozen: if old(self).frozen == Some(ci) {
                    None
                } else {
                    Some(ci)
                },
                ..*old(self)
            }),
    {
        let pinned: bool = match self.frozen {
            Some(f) => f == ci,
            None => false,
        };
        self.frozen = if pinned {
            None
        } else {
            Some(ci)
        };
    }
}

/// The menu of a column's header.
pub open spec fn header_menu_of(gs: GridState, ci: usize, may_attach: bool) -> Seq<EntryView> {
    let pinned = gs.frozen == Some(ci);
    Seq::<EntryView>::empty() + given(pinned, entry(Act::Unfreeze, "Unfreeze"@)) + given(
        !pinned,
        entry(Act::Freeze, "Freeze"@),
    ) + given(true, entry(Act::FormatAs, "Format as"@)) + given(true, line()) + given(
        true,
        entry(Act::CopyMenu, "Copy"@),
    ) + given(may_attach, line()) + given(may_attach, entry(Act::Summary, "AI summary"@))
}

/// The menu of a column's header. The summary is offered only where the assistant may be sent
/// values.
pub fn header_menu(gs: &GridState, ci: usize, may_attach: bool) -> (r: Vec<Entry>)
    ensures
        menu_view(r@) == header_menu_of(*gs, ci, may_attach),
{
    let pinned: bool = match gs.frozen {
        Some(f) => f == ci,
        None => false,
    };
    let mut out: Vec<Entry> = new_menu();
    add_item(&mut out, pinned, Act::Unfreeze, "Unfreeze");
    add_item(&mut out, !pinned, Act::Freeze, "Freeze");
    add_item(&mut out, true, Act::FormatAs, "Format as");
    add_line(&mut out, true);
    add_item(&mut out, true, Act::CopyMenu, "Copy");
    add_line(&mut out, may_attach);
    add_item(&mut out, may_attach, Act::Summary, "AI summary");
    out
}

/// A way to show a column's values that the menu offers, with its label.
pub struct FormatChoice {
    pub format: ColumnFormat,
    pub label: String,
}

/// The ways that a column is copied in, which the header's menu opens.
pub fn copy_submenu() -> (r: Vec<Entry>)
    ensures
        menu_view(r@) == Seq::<EntryView>::empty() + given(
            true,
            entry(Act::CopyColumnCsv, "CSV"@),
        ) + given(true, entry(Act::CopyColumnJson, "JSON"@)),
{
    let mut out: Vec<Entry> = new_menu();
    add_item(&mut out, true, Act::CopyColumnCsv, "CSV");
    add_item(&mut out, true, Act::CopyColumnJson, "JSON");
    out
}

/// Whether a header stands to the right of its column, over its numbers: a column of numbers does,
/// unless a key's icon leads it.
pub fn header_right(numeric: bool, has_key: bool) -> (r: bool)
    ensures
        r == (numeric && !has_key),
{
    numeric && !has_key
}

/// An entry of the menu of formats: the one that holds is marked.
pub open spec fn format_entry(c: FormatChoice, cur: ColumnFormat) -> EntryView {
    if c.format == cur {
        EntryView::Marked(Act::FormatChoice(c.format.choice), c.label@)
    } else {
        EntryView::Item(Act::FormatChoice(c.format.choice), c.label@)
    }
}

/// The way a column's values are shown: raw where nothing is known of it.
pub open spec fn format_of(formats: Seq<ColumnFormat>, ci: int) -> ColumnFormat {
    if 0 <= ci < formats.len() {
        formats[ci]
    } else {
        ColumnFormat { choice: 0 }
    }
}

/// The ways that a column's values can be shown, the one that holds being marked.
pub fn format_submenu(choices: &Vec<FormatChoice>, formats: &Vec<ColumnFormat>, ci: usize) -> (r: Vec<
    Entry,
>)
    ensures
        menu_view(r@) == choices@.map_values(
            |c: FormatChoice| format_entry(c, format_of(formats@, ci as int)),
        ),
{
    let cur: ColumnFormat = if ci < formats.len() {
        formats[ci]
    } else {
        ColumnFormat { choice: 0 }
    };
    let mut out: Vec<Entry> = Vec::new();
    let mut i: usize = 0;
    while i < choices.len()
        invariant
            i <= choices@.len(),
            cur == format_of(formats@, ci as int),
            out@.len() == i,
            forall|k: int| 0 <= k < i ==> (#[trigger] out@[k])@ == format_entry(choices@[k], cur),
        decreases choices@.len() - i,
    {
        let c: &FormatChoice = &choices[i];
        let act: Act = Act::FormatChoice(c.format.choice);
        out.push(
            if c.format == cur {
                Entry::Marked(act, c.label.clone())
            } else {
                Entry::Item(act, c.label.clone())
            },
        );
        i = i + 1;
    }
    assert(menu_view(out@) =~= choices@.map_values(
        |c: FormatChoice| format_entry(c, format_of(formats@, ci as int)),
    ));
    out
}

/// How a header is filled: one of a selected column, one whose values are shown in another way, or
/// plain.
#[derive(Clone, Copy, Debug, PartialEq, Eq, Structural)]
pub enum HeaderFill {
    Selected,
    Formatted,
    Plain,
}

/// How a header is filled.
pub fn header_fill(span: Option<Span>, ci: usize, fmt: ColumnFormat) -> (r: HeaderFill)
    ensures
        r == if span matches Some(s) && s.c0 <= ci <= s.c1 {
            HeaderFill::Selected
        } else if fmt.choice != 0 {
            HeaderFill::Formatted
        } else {
            HeaderFill::Plain
        },
{
    let inside: bool = match span {
        Some(s) => s.c0 <= ci && ci <= s.c1,
        None => false,
    };
    if inside {
        HeaderFill::Selected
    } else if fmt.choice != 0 {
        HeaderFill::Formatted
    } else {
        HeaderFill::Plain
    }
}

/// The position of the first column of this name.
pub open spec fn named_col(gs: GridState, name: Seq<char>, i: int) -> Option<usize>
    decreases gs.rs.columns@.len() - i,
{
    if i >= gs.rs.columns@.len() {
        None
    } else if gs.rs.columns@[i].name@ == name {
        Some(i as usize)
    } else {
        named_col(gs, name, i + 1)
    }
}

impl GridState {
    /// The first column of this name.
    pub fn column_named(&self, name: &String) -> (r: Option<usize>)
        ensures
            r == named_col(*self, name@, 0),
    {
        let mut i: usize = 0;
        while i < self.rs.columns.len()
            invariant
                i <= self.rs.columns@.len(),
                named_col(*self, name@, 0) == named_col(*self, name@, i as int),
            decreases self.rs.columns@.len() - i,
        {
            if self.rs.columns[i].name == *name {
                return Some(i);
            }
            i = i + 1;
        }
        None
    }

    /// Select a whole column, from its last row to its first, and scroll to its top.
    pub fn highlight_column(&mut self, ci: usize)
        ensures
            ({
                let top = At { row: 0, col: ci };
                *final(self) == (GridState {
                    anchor: Some(
                        At {
                            row: crate::selection::last_of(old(self).rs.rows@.len() as usize),
                            col: ci,
                        },
                    ),
                    active: Some(top),
                    scroll_to: old(self).scroll_after(top),
                    ..*old(self)
                })
            }),
    {
        let last: usize = self.rs.row_count().saturating_sub(1);
        let top: At = At { row: 0, col: ci };
        self.set_active(top, false);
        self.anchor = Some(At { row: last, col: ci });
    }

    /// Jump to a row, given by its place, and close the bar that asked for it; without one the bar
    /// is closed all the same. The whole row is selected, and the columns stay where they are.
    pub fn goto_row(&mut self, row: Option<usize>)
        ensures
            final(self).goto_query@.len() == 0,
            ({
                let gs = GridState {
                    top: crate::selection::TopBars { goto_open: false, ..old(self).top },
                    goto_query: final(self).goto_query,
                    ..*old(self)
                };
                match row {
                    None => *final(self) == gs,
                    Some(i) => *final(self) == (GridState {
                        scroll_to: gs.scroll_after(At { row: i, col: 0 }),
                        ..rows_selected(gs, i, i)
                    }),
                }
            }),
    {
        if let Some(i) = row {
            let ends: Ends = row_selection(i, self.rs.columns.len());
            self.scroll_into_view(At { row: i, col: 0 });
            self.anchor = Some(ends.anchor);
            self.active = Some(ends.active);
        }
        self.top.goto_open = false;
        self.goto_query = String::new();
    }
}

/// A row's number is its place, counted from one; a new row has a star.
pub proof fn a_row_is_numbered_by_its_place(gs: GridState, pos: usize)
    ensures
        pos < gs.rs.rows@.len() ==> gutter_text(gs, pos) == digits((pos + 1) as nat),
        pos >= gs.rs.rows@.len() ==> gutter_text(gs, pos) == "*"@,
{
}

/// A gesture over the row numbers selects whole rows, from the one that it started on to this one, and
/// nothing else changes.
pub proof fn a_gesture_over_numbers_selects_rows(gs: GridState, from: usize, to: usize, row: int, col: int)
    requires
        0 <= col < gs.rs.columns@.len() <= usize::MAX,
    ensures
        crate::selection::in_span(rows_selected(gs, from, to).span(), row, col) <==> from <= row <= to
            || to <= row <= from,
        rows_selected(gs, from, to).staged == gs.staged,
        rows_selected(gs, from, to).edit_cell == gs.edit_cell,
        rows_selected(gs, from, to).bar == gs.bar,
        gs.anchor is Some ==> anchor_row(gs, to) == gs.anchor->0.row,
        gs.anchor is None ==> anchor_row(gs, to) == to,
{
}

/// An action on rows is about all that are selected where the row that was clicked is one of them, and
/// about that row alone where it is not; new rows are none of them.
pub proof fn an_action_is_about_the_selected_rows(gs: GridState, pos: usize, a: At, b: At, d: int)
    requires
        gs.active == Some(a),
        gs.anchor == Some(b),
        gs.order@.no_duplicates(),
        0 <= d < gs.order@.len(),
    ensures
        ({
            let inside = crate::keys::lies_between(pos as int, a.row as int, b.row as int);
            let rows = acted_rows(gs, pos);
            &&& inside ==> (rows.contains(gs.order@[d]) <==> crate::keys::lies_between(
                d,
                a.row as int,
                b.row as int,
            ))
            &&& !inside ==> (rows.contains(gs.order@[d]) <==> d == pos)
        }),
{
    let s = gs.span()->0;
    let rows = acted_rows(gs, pos);
    let order = gs.order@;
    let inside = s.r0 <= pos <= s.r1;
    let lo = if inside {
        s.r0 as int
    } else {
        pos as int
    };
    let hi = if inside {
        s.r1 as int
    } else {
        pos as int
    };
    crate::keys::rows_are_those_of_their_places(order, lo, hi, d);
    if lo <= d <= hi {
        assert(rows[d - lo] == order[d]);
    } else if rows.contains(order[d]) {
        let i = rows.index_of(order[d]);
        crate::keys::rows_are_those_of_their_places(order, lo, hi, i + lo);
        assert(rows[i] == order[i + lo]);
    }
}

/// A column shows the server's sort before the grid's own, and its own sort only where it is its own.
pub proof fn a_column_shows_how_it_is_sorted(gs: GridState, ci: usize, sort: SortState)
    ensures
        gs.query.sort@.len() == 0 && sort is None ==> gs.header_sort(ci, sort) is None,
        gs.query.sort@.len() == 0 && sort == Some((ci, true)) ==> gs.header_sort(ci, sort) == Some(true),
        gs.query.sort@.len() == 0 && sort == Some((ci, false)) ==> gs.header_sort(ci, sort) == Some(false),
        gs.query.sort@.len() == 0 && (sort matches Some((c, asc)) && c != ci) ==> gs.header_sort(ci, sort) is None,
        gs.query.sort@.len() > 0 && ci < gs.rs.columns@.len() && gs.rs.columns@[ci as int].origin is Some
            && gs.rs.columns@[ci as int].origin->0.column@ == gs.query.sort@[0].column@ ==> gs.header_sort(
            ci,
            sort,
        ) == Some(gs.query.sort@[0].asc),
{
}

/// The menu of a row's number offers to copy always, to duplicate and mark where there is a table for
/// rows, and to send them where that is allowed.
pub proof fn a_number_offers_what_can_be_done(
    gs: GridState,
    pos: usize,
    may_attach: bool,
    scope: Seq<char>,
)
    ensures
        ({
            let menu = gutter_menu_of(gs, pos, may_attach, scope);
            let rows = acted_rows(gs, pos);
            let n = rows.len();
            let has = pos < gs.rs.rows@.len() && gs.model.target is Some && gs.model.target->0
                < gs.model.tables@.len();
            let all = forall|i: int| 0 <= i < n ==> gs.staged@.del_rows.contains(#[trigger] rows[i]);
            &&& offers(menu, Act::CopySelection, "Copy"@)
            &&& n == 1 ==> (offers(menu, Act::DuplicateRows, "Duplicate"@ + " row"@) <==> has)
            &&& n != 1 ==> (offers(menu, Act::DuplicateRows, "Duplicate"@ + " "@ + digits(n) + " rows"@)
                <==> has)
            &&& offers(menu, Act::SetDeleted(false), "Undo delete"@) <==> has && all
            &&& n == 1 ==> (offers(menu, Act::SetDeleted(true), "Delete"@ + " row"@) <==> has && !all)
            &&& n != 1 ==> (offers(menu, Act::SetDeleted(true), "Delete"@ + " "@ + digits(n) + " rows"@)
                <==> has && !all)
            &&& offers(menu, Act::Attach, "Attach "@ + scope + " to chat"@) <==> may_attach
        }),
{
    broadcast use crate::menu::two_parts_offer_what_each_does, crate::menu::a_given_entry_is_offered,
        crate::menu::a_line_offers_nothing, crate::menu::an_empty_menu_offers_nothing;

    let rows = acted_rows(gs, pos);
    assert(all_deleted(gs, rows) <==> forall|i: int|
        0 <= i < rows.len() ==> gs.staged@.del_rows.contains(#[trigger] rows[i]));
}

/// The menu of a header pins a column that is not pinned, and lets the pinned one go; the summary is
/// offered where values may be sent.
pub proof fn a_header_offers_what_can_be_done(gs: GridState, ci: usize, may_attach: bool)
    ensures
        ({
            let menu = header_menu_of(gs, ci, may_attach);
            &&& offers(menu, Act::Unfreeze, "Unfreeze"@) <==> gs.frozen == Some(ci)
            &&& offers(menu, Act::Freeze, "Freeze"@) <==> gs.frozen != Some(ci)
            &&& offers(menu, Act::FormatAs, "Format as"@)
            &&& offers(menu, Act::CopyMenu, "Copy"@)
            &&& offers(menu, Act::Summary, "AI summary"@) <==> may_attach
        }),
{
    broadcast use crate::menu::two_parts_offer_what_each_does, crate::menu::a_given_entry_is_offered,
        crate::menu::a_line_offers_nothing, crate::menu::an_empty_menu_offers_nothing;

}

/// The format that holds is the one that is marked, and no other is.
pub proof fn the_format_that_holds_is_marked(c: FormatChoice, formats: Seq<ColumnFormat>, ci: int)
    requires
        0 <= ci < formats.len(),
    ensures
        format_entry(c, format_of(formats, ci)) is Marked <==> c.format == formats[ci],
        format_entry(c, format_of(formats, ci)) is Item <==> c.format != formats[ci],
{
}

/// A name leads to the first column that has it.
pub proof fn a_column_is_found_by_its_name(gs: GridState, name: Seq<char>, i: int, k: int)
    requires
        0 <= i <= k < gs.rs.columns@.len() <= usize::MAX,
        gs.rs.columns@[k].name@ == name,
        forall|j: int| i <= j < k ==> (#[trigger] gs.rs.columns@[j]).name@ != name,
    ensures
        named_col(gs, name, i) == Some(k as usize),
    decreases k - i,
{
    if i < k {
        a_column_is_found_by_its_name(gs, name, i + 1, k);
    }
}

/// Without a selection an action is about the row that it was asked on; with one, about its rows in the
/// order in which they are shown.
pub proof fn rows_are_acted_on_as_they_are_shown(gs: GridState, pos: usize, a: At, b: At, k: int)
    requires
        gs.active == Some(a),
        gs.anchor == Some(b),
        a.row <= pos <= b.row,
        b.row < gs.order@.len(),
        0 <= k <= b.row - a.row,
    ensures
        acted_rows(gs, pos).len() == b.row - a.row + 1,
        acted_rows(gs, pos)[k] == gs.order@[a.row + k],
{
    crate::keys::rows_are_those_of_their_places(gs.order@, a.row as int, b.row as int, a.row + k);
}

/// Without a selection an action is about the row that it was asked on.
pub proof fn an_action_without_a_selection_is_about_its_row(gs: GridState, pos: usize)
    requires
        gs.active is None,
    ensures
        pos < gs.order@.len() ==> acted_rows(gs, pos) == seq![gs.order@[pos as int]],
        pos >= gs.order@.len() ==> acted_rows(gs, pos).len() == 0,
{
    crate::keys::rows_are_those_of_their_places(gs.order@, pos as int, pos as int, pos as int);
    if pos < gs.order@.len() {
        assert(acted_rows(gs, pos) =~= seq![gs.order@[pos as int]]);
    }
}

/// A column that the server does not sort by shows how the rows are sorted here.
pub proof fn a_column_not_sorted_by_the_server_shows_the_local_order(gs: GridState, ci: usize, asc: bool)
    requires
        ci < gs.rs.columns@.len(),
        gs.rs.columns@[ci as int].origin is None || forall|k: int|
            0 <= k < gs.query.sort@.len() ==> (#[trigger] gs.query.sort@[k]).column@
                != gs.rs.columns@[ci as int].origin->0.column@,
    ensures
        gs.header_sort(ci, Some((ci, asc))) == Some(asc),
        gs.header_sort(ci, None) is None,
{
    if gs.rs.columns@[ci as int].origin is Some {
        crate::query::the_first_mention_says_the_way(
            gs.query.sort@,
            gs.rs.columns@[ci as int].origin->0.column@,
            gs.query.sort@.len() as int,
        );
    }
}

/// A way to show a column is listed under its label and picks itself; a column without one is shown
/// raw.
pub proof fn a_format_picks_itself(c: FormatChoice, cur: ColumnFormat, formats: Seq<ColumnFormat>, ci: int)
    ensures
        c.format == cur ==> format_entry(c, cur) == EntryView::Marked(
            Act::FormatChoice(c.format.choice),
            c.label@,
        ),
        c.format != cur ==> format_entry(c, cur) == EntryView::Item(
            Act::FormatChoice(c.format.choice),
            c.label@,
        ),
        ci < 0 || ci >= formats.len() ==> format_of(formats, ci).choice == 0,
{
}

/// A name that no column has leads nowhere.
pub proof fn a_name_that_no_column_has_leads_nowhere(gs: GridState, name: Seq<char>, i: int)
    requires
        0 <= i,
        forall|j: int| i <= j < gs.rs.columns@.len() ==> (#[trigger] gs.rs.columns@[j]).name@ != name,
    ensures
        named_col(gs, name, i) is None,
    decreases gs.rs.columns@.len() - i,
{
    if i < gs.rs.columns@.len() {
        a_name_that_no_column_has_leads_nowhere(gs, name, i + 1);
    }
}

} // verus!
