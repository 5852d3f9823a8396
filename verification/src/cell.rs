//! One cell of the grid: what it shows, how it is drawn, and what a click on it does.

use vstd::prelude::*;
use crate::bars::Bar;
use crate::keymap::At;
use crate::menu::{a_given_entry_is_offered, a_line_offers_nothing, an_empty_menu_offers_nothing};
use crate::menu::{offers, two_parts_offer_what_each_does};
use crate::menu::{Act, Entry, EntryView};
use crate::menu::{add_item, add_line, entry, line, menu_view, new_menu, given};
use crate::model::{Origin, ResultSet};
use crate::query::real_name;
use crate::selection::{cell_in, in_span};
use crate::staged::{stage_all, stage_new_all, CellEdit, StagedView};
use crate::state::{activated, edit_opened, row_at, staged_at, GridState};
use crate::text::{cut, truncate};

verus! {

/// The row of a cell: one of the result, or a new one counted from the first new row.
#[derive(Clone, Copy, Debug, PartialEq, Eq, Structural)]
pub enum RowRef {
    Data(usize),
    New(usize),
}

/// The row that is shown at a place.
pub open spec fn shown_row(gs: GridState, i: usize) -> RowRef {
    if i < gs.rs.rows@.len() {
        RowRef::Data(row_at(gs.order@, i))
    } else {
        RowRef::New((i - gs.rs.rows@.len()) as usize)
    }
}

/// The row that is shown at a place: the rows of the result first, and the new ones below them.
pub fn row_shown_at(gs: &GridState, i: usize) -> (r: RowRef)
    ensures
        r == shown_row(*gs, i),
{
    let nrows: usize = gs.rs.row_count();
    if i < nrows {
        RowRef::Data(gs.data_row(i))
    } else {
        RowRef::New(i - nrows)
    }
}

/// What is staged for a cell: nothing, no value, or a text.
pub open spec fn staged_value(gs: GridState, row: RowRef, ci: usize) -> Option<Option<String>> {
    match row {
        RowRef::Data(di) => {
            let at = At { row: di, col: ci };
            if gs.staged@.dirty.dom().contains(at) {
                Some(gs.staged@.dirty[at])
            } else {
                None
            }
        },
        RowRef::New(p) => if p < gs.staged@.new_rows.len()
            && gs.staged@.new_rows[p as int].dom().contains(ci) {
            Some(gs.staged@.new_rows[p as int][ci])
        } else {
            None
        },
    }
}

/// What is staged for a cell.
pub fn staged_for(gs: &GridState, row: RowRef, ci: usize) -> (r: Option<&Option<String>>)
    ensures
        r is Some <==> staged_value(*gs, row, ci) is Some,
        r matches Some(v) ==> staged_value(*gs, row, ci) == Some(*v),
{
    match row {
        RowRef::Data(di) => gs.staged.dirty.get(At { row: di, col: ci }),
        RowRef::New(p) => if p < gs.staged.new_rows.len() {
            gs.staged.new_rows[p].get(ci)
        } else {
            None
        },
    }
}

/// How a cell's text is drawn.
#[derive(Clone, Copy, Debug, PartialEq, Eq, Structural)]
pub enum CellInk {
    /// A staged text.
    Staged,
    /// A staged absence of a value: told apart from a text that reads the same.
    StagedNull,
    /// No value: none was read, or a new row's cell was left alone.
    Absent,
    /// A foreign key, which can be followed.
    Fk,
    Plain,
}

/// How a cell's text is drawn: what is staged comes first, and no value before a foreign key.
pub open spec fn ink_of(
    staged: Option<Option<String>>,
    is_null: bool,
    placeholder: bool,
    is_fk: bool,
) -> CellInk {
    match staged {
        Some(None) => CellInk::StagedNull,
        Some(Some(_)) => CellInk::Staged,
        None => if is_null || placeholder {
            CellInk::Absent
        } else if is_fk {
            CellInk::Fk
        } else {
            CellInk::Plain
        },
    }
}

/// How a cell's text is drawn.
pub fn cell_ink(
    staged: Option<&Option<String>>,
    is_null: bool,
    placeholder: bool,
    is_fk: bool,
) -> (r: CellInk)
    ensures
        r == ink_of(
            match staged {
                Some(v) => Some(*v),
                None => None,
            },
            is_null,
            placeholder,
            is_fk,
        ),
{
    match staged {
        Some(None) => CellInk::StagedNull,
        Some(Some(_)) => CellInk::Staged,
        None => if is_null || placeholder {
            CellInk::Absent
        } else if is_fk {
            CellInk::Fk
        } else {
            CellInk::Plain
        },
    }
}

/// A staged absence of a value is never drawn as a staged text, whatever the text.
pub proof fn a_staged_null_is_told_apart(text: String, is_null: bool, placeholder: bool, is_fk: bool)
    ensures
        ink_of(Some(None), is_null, placeholder, is_fk) != ink_of(
            Some(Some(text)),
            is_null,
            placeholder,
            is_fk,
        ),
{
}

/// What a new row's cell shows while it has no value: what the server will do with it.
pub open spec fn placeholder_text(o: Option<Origin>) -> Seq<char> {
    match o {
        Some(c) => if c.auto_increment {
            "<auto>"@
        } else if c.no_default {
            "<required>"@
        } else if !c.not_null {
            "<null>"@
        } else {
            "<default>"@
        },
        None => "<null>"@,
    }
}

/// A column's origin, where it has one.
pub open spec fn origin_of(rs: ResultSet, ci: int) -> Option<Origin> {
    if 0 <= ci < rs.columns@.len() {
        rs.columns@[ci].origin
    } else {
        None
    }
}

/// Whether a column is numbered by the server.
pub open spec fn is_auto(rs: ResultSet, ci: int) -> bool {
    origin_of(rs, ci) matches Some(o) && o.auto_increment
}

/// Whether a cell shows what the server will do with it: one of a new row, without a value, that
/// can be edited or that the server numbers.
pub open spec fn shows_placeholder(gs: GridState, row: RowRef, ci: usize) -> bool {
    &&& staged_value(gs, row, ci) is None
    &&& row is New
    &&& gs.model.can_edit(ci as int) || is_auto(gs.rs, ci as int)
}

/// Line breaks and tabs as spaces.
pub open spec fn on_one_row(s: Seq<char>) -> Seq<char> {
    s.map_values(
        |c: char|
            if c == '\r' || c == '\n' || c == '\t' {
                ' '
            } else {
                c
            },
    )
}

/// What a cell shows before it is cut: what is staged, what the server will do, or what was read.
pub open spec fn full_text(gs: GridState, row: RowRef, ci: usize, read: Seq<char>) -> Seq<char> {
    match staged_value(gs, row, ci) {
        Some(Some(t)) => t@,
        Some(None) => "NULL"@,
        None => if shows_placeholder(gs, row, ci) {
            placeholder_text(origin_of(gs.rs, ci as int))
        } else if row is New {
            Seq::empty()
        } else {
            read
        },
    }
}

/// A text with line breaks and tabs as spaces.
fn flatten(s: &str) -> (r: String)
    ensures
        r@ == on_one_row(s@),
{
    let mut out: String = String::new();
    for c in it: s.chars()
        invariant
            it.seq() == s@,
            out@ == on_one_row(s@.take(it.index())),
    {
        proof {
            assert(on_one_row(s@.take(it.index() + 1)) =~= on_one_row(s@.take(it.index())).push(
                if c == '\r' || c == '\n' || c == '\t' {
                    ' '
                } else {
                    c
                },
            ));
        }
        out.push(
            if c == '\r' || c == '\n' || c == '\t' {
                ' '
            } else {
                c
            },
        );
    }
    assert(s@.take(s@.len() as int) =~= s@);
    out
}

/// Whether a cell shows what the server will do with it.
pub fn is_placeholder(gs: &GridState, row: RowRef, ci: usize) -> (r: bool)
    ensures
        r == shows_placeholder(*gs, row, ci),
{
    let fresh: bool = match row {
        RowRef::New(_) => true,
        RowRef::Data(_) => false,
    };
    let auto: bool = if ci < gs.rs.columns.len() {
        match &gs.rs.columns[ci].origin {
            Some(o) => o.auto_increment,
            None => false,
        }
    } else {
        false
    };
    fresh && staged_for(gs, row, ci).is_none() && (gs.model.editable(ci) || auto)
}

/// What a cell shows: on one row, and cut at two hundred characters. `read` is what was read for
/// it, in the way its column is shown.
pub fn cell_text(gs: &GridState, row: RowRef, ci: usize, read: &str) -> (r: String)
    ensures
        r@ == cut(on_one_row(full_text(*gs, row, ci, read@)), 200),
{
    let staged: Option<&Option<String>> = staged_for(gs, row, ci);
    let src: String = match staged {
        Some(Some(t)) => t.clone(),
        Some(None) => "NULL".to_owned(),
        None => if is_placeholder(gs, row, ci) {
            if ci < gs.rs.columns.len() {
                match &gs.rs.columns[ci].origin {
                    Some(o) => if o.auto_increment {
                        "<auto>".to_owned()
                    } else if o.no_default {
                        "<required>".to_owned()
                    } else if !o.not_null {
                        "<null>".to_owned()
                    } else {
                        "<default>".to_owned()
                    },
                    None => "<null>".to_owned(),
                }
            } else {
                "<null>".to_owned()
            }
        } else {
            match row {
                RowRef::New(_) => String::new(),
                RowRef::Data(_) => read.to_owned(),
            }
        },
    };
    truncate(flatten(src.as_str()).as_str(), 200)
}

/// The control that a column's values are edited with.
#[derive(Clone, Copy, Debug, PartialEq, Eq, Structural)]
pub enum CellEditor {
    Text,
    Bool,
    Enum,
    Chips,
    Date,
    DateTime,
}

/// What a cell is while it is edited.
#[derive(Clone, Copy, Debug, PartialEq, Eq, Structural)]
pub enum CellShape {
    /// A text field.
    Text,
    /// A list to pick from, in place of a field.
    Pick(CellEditor),
    /// A text field with a calendar beside it.
    Calendar(CellEditor),
}

/// The control of a value: its column's, but a text field where that cannot hold the value.
pub open spec fn fitted_editor(editor: CellEditor, fits: bool) -> CellEditor {
    if fits {
        editor
    } else {
        CellEditor::Text
    }
}

/// The control of a value: its column's, but a text field where that cannot hold the value. So
/// opening a row never rewrites it.
pub fn fitting_editor(editor: CellEditor, fits: bool) -> (r: CellEditor)
    ensures
        r == fitted_editor(editor, fits),
{
    if fits {
        editor
    } else {
        CellEditor::Text
    }
}

/// What a cell is while it is edited with a control.
pub open spec fn shape_of(editor: CellEditor, fits: bool) -> CellShape {
    match fitted_editor(editor, fits) {
        CellEditor::Bool | CellEditor::Enum | CellEditor::Chips => CellShape::Pick(editor),
        CellEditor::Date | CellEditor::DateTime => CellShape::Calendar(editor),
        CellEditor::Text => CellShape::Text,
    }
}

/// What a cell is while it is edited: its column's control, where that can hold the value.
pub fn cell_shape(editor: CellEditor, fits: bool) -> (r: CellShape)
    ensures
        r == shape_of(editor, fits),
{
    if !fits {
        return CellShape::Text;
    }
    match editor {
        CellEditor::Bool => CellShape::Pick(editor),
        CellEditor::Enum => CellShape::Pick(editor),
        CellEditor::Chips => CellShape::Pick(editor),
        CellEditor::Date => CellShape::Calendar(editor),
        CellEditor::DateTime => CellShape::Calendar(editor),
        CellEditor::Text => CellShape::Text,
    }
}

/// Whether the control takes the whole cell: only a list does.
pub fn cell_fills(shape: CellShape) -> (r: bool)
    ensures
        r == (shape is Pick),
{
    match shape {
        CellShape::Pick(_) => true,
        _ => false,
    }
}

/// The control of a column; a text field before the columns were looked up.
pub fn cell_editor(editors: &Vec<CellEditor>, ci: usize) -> (r: CellEditor)
    ensures
        r == if ci < editors@.len() {
            editors@[ci as int]
        } else {
            CellEditor::Text
        },
{
    if ci < editors.len() {
        editors[ci]
    } else {
        CellEditor::Text
    }
}

/// How a cell is filled.
#[derive(Clone, Copy, Debug, PartialEq, Eq, Structural)]
pub enum CellFill {
    Generating,
    Editing,
    Deleted,
    Staged,
    Active,
    Selected,
    NewRow,
    Formatted,
    Striped,
    Plain,
}

/// How a cell is filled: by the first of these that holds of it.
pub open spec fn fill_of(gs: GridState, at: At, formatted: bool) -> CellFill {
    let row = shown_row(gs, at.row);
    let generating = match row {
        RowRef::New(p) => gs.ai_gen_rows@.dom().contains(p),
        RowRef::Data(di) => gs.ai_gen@.dom().contains(At { row: di, col: at.col }),
    };
    if generating {
        CellFill::Generating
    } else if gs.edit_cell == Some(at) {
        CellFill::Editing
    } else if row matches RowRef::Data(di) && gs.staged@.del_rows.contains(di) {
        CellFill::Deleted
    } else if staged_value(gs, row, at.col) is Some {
        CellFill::Staged
    } else if gs.active == Some(at) {
        CellFill::Active
    } else if in_span(gs.span(), at.row as int, at.col as int) {
        CellFill::Selected
    } else if row is New {
        CellFill::NewRow
    } else if formatted {
        CellFill::Formatted
    } else if at.row % 2 == 1 {
        CellFill::Striped
    } else {
        CellFill::Plain
    }
}

/// How a cell is filled.
pub fn cell_fill(gs: &GridState, at: At, formatted: bool) -> (r: CellFill)
    ensures
        r == fill_of(*gs, at, formatted),
{
    let row: RowRef = row_shown_at(gs, at.row);
    let generating: bool = match row {
        RowRef::New(p) => gs.ai_gen_rows.contains(p),
        RowRef::Data(di) => gs.ai_gen.contains(At { row: di, col: at.col }),
    };
    if generating {
        return CellFill::Generating;
    }
    let editing: bool = match gs.edit_cell {
        Some(e) => e == at,
        None => false,
    };
    if editing {
        return CellFill::Editing;
    }
    let deleted: bool = match row {
        RowRef::Data(di) => gs.staged.is_deleted(di),
        RowRef::New(_) => false,
    };
    if deleted {
        return CellFill::Deleted;
    }
    if staged_for(gs, row, at.col).is_some() {
        return CellFill::Staged;
    }
    let active: bool = match gs.active {
        Some(a) => a == at,
        None => false,
    };
    if active {
        return CellFill::Active;
    }
    if cell_in(gs.bounds(), at.row, at.col) {
        return CellFill::Selected;
    }
    let fresh: bool = match row {
        RowRef::New(_) => true,
        RowRef::Data(_) => false,
    };
    if fresh {
        CellFill::NewRow
    } else if formatted {
        CellFill::Formatted
    } else if at.row % 2 == 1 {
        CellFill::Striped
    } else {
        CellFill::Plain
    }
}

/// How a cell keeps its text from its edges.
#[derive(Clone, Copy, Debug, PartialEq, Eq, Structural)]
pub enum CellInset {
    /// Not at all: a list in the cell draws its own.
    Bare,
    /// As a number, to the right.
    Number,
    /// As a text, to the left.
    Text,
}

/// How a cell keeps its text from its edges.
pub fn cell_inset(editing: bool, shape: CellShape, numeric: bool) -> (r: CellInset)
    ensures
        r == if editing && shape is Pick {
            CellInset::Bare
        } else if numeric {
            CellInset::Number
        } else {
            CellInset::Text
        },
{
    if editing && cell_fills(shape) {
        CellInset::Bare
    } else if numeric {
        CellInset::Number
    } else {
        CellInset::Text
    }
}

/// What is left to do for a press on a cell: nothing, to take the keyboard, or to follow the
/// foreign key.
#[derive(Clone, Copy, Debug, PartialEq, Eq, Structural)]
pub enum PressOutcome {
    Continue,
    Focus,
    Follow,
}

impl GridState {
    /// The grid once a click took down what the bar says of the last write and filter.
    pub open spec fn dismissed(self) -> GridState {
        GridState { bar: Bar { view_err: None, ..self.bar.cleared() }, ..self }
    }

    /// Take down what a click on the table takes down.
    pub fn dismiss_overlays(&mut self)
        ensures
            *final(self) == old(self).dismissed(),
    {
        self.bar.dismiss();
    }

    /// A press on a cell. With the command key it follows the cell's foreign key, unless the cell
    /// is being edited; else it makes the cell active and starts a drag. Shift extends the
    /// selection.
    pub fn cell_pressed(&mut self, at: At, primary: bool, ctrl: bool, shift: bool, follows: bool) -> (r:
        PressOutcome)
        ensures
            ({
                let gs = old(self).dismissed();
                if !primary {
                    r == PressOutcome::Continue && *final(self) == gs
                } else if ctrl && follows && gs.edit_cell != Some(at) {
                    r == PressOutcome::Follow && *final(self) == activated(gs, at, false)
                } else {
                    r == PressOutcome::Focus && *final(self) == (GridState {
                        selecting: true,
                        ..activated(gs, at, shift)
                    })
                }
            }),
    {
        self.dismiss_overlays();
        if !primary {
            return PressOutcome::Continue;
        }
        let editing: bool = match self.edit_cell {
            Some(e) => e == at,
            None => false,
        };
        if ctrl && follows && !editing {
            self.set_active(at, false);
            return PressOutcome::Follow;
        }
        self.set_active(at, shift);
        self.selecting = true;
        PressOutcome::Focus
    }

    /// The pointer came over a cell: while a drag is on, the selection is extended to it.
    pub fn cell_entered(&mut self, at: At)
        ensures
            *final(self) == if old(self).selecting {
                activated(*old(self), at, true)
            } else {
                *old(self)
            },
    {
        if self.selecting {
            self.set_active(at, true);
        }
    }

    /// The pointer was let go: no drag is on any more.
    pub fn pointer_released(&mut self)
        ensures
            *final(self) == (GridState { selecting: false, row_selecting: false, ..*old(self) }),
    {
        self.selecting = false;
        self.row_selecting = false;
    }

    /// A double click on a cell: it is opened for editing where its column can be edited, and made
    /// active where not. It ends a drag, whose release it takes.
    pub fn cell_double_clicked(&mut self, at: At)
        ensures
            ({
                let gs = GridState { selecting: false, row_selecting: false, ..*old(self) };
                if gs.model.can_edit(at.col as int) {
                    edit_opened(gs, *final(self), at)
                } else {
                    *final(self) == (GridState { active: Some(at), anchor: Some(at), ..gs })
                }
            }),
    {
        self.pointer_released();
        if self.model.editable(at.col) {
            self.start_edit(at);
        } else {
            self.active = Some(at);
            self.anchor = Some(at);
        }
    }

    /// A click on a cell that asks for its menu: inside the selection it keeps it, and outside it
    /// selects the cell.
    pub fn cell_menu_asked(&mut self, at: At)
        ensures
            *final(self) == if in_span(old(self).span(), at.row as int, at.col as int) {
                *old(self)
            } else {
                (GridState { active: Some(at), anchor: Some(at), ..*old(self) })
            },
    {
        if !cell_in(self.bounds(), at.row, at.col) {
            self.active = Some(at);
            self.anchor = Some(at);
        }
    }

    /// Keep what was chosen for the cell that is being edited. In a new row the editing goes on to
    /// the next cell; in a row of the result it ends. Says whether it goes on.
    pub fn keep_cell_edit(&mut self, at: At) -> (r: bool)
        ensures
            at.row < old(self).rs.rows@.len() ==> {
                &&& !r
                &&& final(self).staged@ == staged_at(*old(self), at, Some(old(self).edit_buf))
                &&& *final(self) == (GridState {
                    staged: final(self).staged,
                    edit_cell: None,
                    bar: old(self).bar.cleared(),
                    ..*old(self)
                })
            },
            at.row >= old(self).rs.rows@.len() ==> {
                let next = old(self).next_col(at.col as int, true);
                let mid = GridState {
                    staged: final(self).staged,
                    bar: old(self).bar.cleared(),
                    ..*old(self)
                };
                &&& r == (next is Some)
                &&& final(self).staged@ == staged_at(*old(self), at, Some(old(self).edit_buf))
                &&& next is None ==> *final(self) == (GridState { edit_cell: None, ..mid })
                &&& next matches Some(nc) ==> {
                    let to = At { row: at.row, col: nc };
                    &&& final(self).edit_buf@ == crate::state::seed_text(mid, to)
                    &&& *final(self) == (GridState {
                        active: Some(to),
                        anchor: Some(to),
                        edit_cell: Some(to),
                        edit_buf: final(self).edit_buf,
                        scroll_to: mid.scroll_after(to),
                        ..mid
                    })
                }
            },
    {
        if at.row >= self.rs.row_count() {
            self.advance_edit(at, true)
        } else {
            let text: String = self.edit_buf.clone();
            let di: usize = self.data_row(at.row);
            self.stage(At { row: di, col: at.col }, Some(text));
            self.edit_cell = None;
            false
        }
    }

    /// Close the cell that is being edited without keeping anything, if it is this one: an edit
    /// that went on to another cell is left alone. Says whether it closed.
    pub fn drop_cell_edit(&mut self, at: At) -> (r: bool)
        ensures
            r == (old(self).edit_cell == Some(at)),
            *final(self) == if r {
                (GridState { edit_cell: None, ..*old(self) })
            } else {
                *old(self)
            },
    {
        let here: bool = match self.edit_cell {
            Some(e) => e == at,
            None => false,
        };
        if here {
            self.edit_cell = None;
        }
        here
    }

    /// Take a cell's value away.
    pub fn set_to_null(&mut self, row: RowRef, ci: usize)
        ensures
            final(self).staged@ == match row {
                RowRef::Data(di) => (StagedView {
                    dirty: stage_all(
                        old(self).rs,
                        old(self).staged@.dirty,
                        seq![(CellEdit { at: At { row: di, col: ci }, value: None })],
                    ),
                    ..old(self).staged@
                }),
                RowRef::New(p) => (StagedView {
                    new_rows: stage_new_all(
                        old(self).staged@.new_rows,
                        seq![(CellEdit { at: At { row: p, col: ci }, value: None })],
                    ),
                    ..old(self).staged@
                }),
            },
            *final(self) == (GridState {
                staged: final(self).staged,
                bar: old(self).bar.cleared(),
                ..*old(self)
            }),
    {
        match row {
            RowRef::Data(di) => self.stage(At { row: di, col: ci }, None),
            RowRef::New(p) => self.stage_new(At { row: p, col: ci }, None),
        }
    }
}

/// What a cell is copied as: what is staged, else what was read.
pub open spec fn copied_text(gs: GridState, row: RowRef, ci: usize) -> Seq<char> {
    match staged_value(gs, row, ci) {
        Some(Some(t)) => t@,
        Some(None) => "NULL"@,
        None => match row {
            RowRef::New(_) => Seq::empty(),
            RowRef::Data(di) => if gs.rs.has_cell(di as int, ci as int) {
                gs.rs.rows@[di as int]@[ci as int].text@
            } else {
                Seq::empty()
            },
        },
    }
}

/// What a cell is copied as.
pub fn copy_text(gs: &GridState, row: RowRef, ci: usize) -> (r: String)
    ensures
        r@ == copied_text(*gs, row, ci),
{
    match staged_for(gs, row, ci) {
        Some(Some(t)) => t.clone(),
        Some(None) => "NULL".to_owned(),
        None => match row {
            RowRef::New(_) => String::new(),
            RowRef::Data(di) => match gs.rs.cell(di, ci) {
                Some(c) => c.text.clone(),
                None => String::new(),
            },
        },
    }
}

/// What a cell of a column that is shown in another way is copied as when it is copied the way it
/// is shown: `shown` for a cell of the result without an edit, else as any cell is.
pub fn copy_formatted(gs: &GridState, row: RowRef, ci: usize, formatted: bool, shown: &str) -> (r:
    String)
    ensures
        r@ == if formatted && staged_value(*gs, row, ci) is None && (row matches RowRef::Data(di)
            && gs.rs.has_cell(di as int, ci as int)) {
            shown@
        } else {
            copied_text(*gs, row, ci)
        },
{
    let there: bool = match row {
        RowRef::Data(di) => gs.rs.cell(di, ci).is_some(),
        RowRef::New(_) => false,
    };
    if formatted && there && staged_for(gs, row, ci).is_none() {
        shown.to_owned()
    } else {
        copy_text(gs, row, ci)
    }
}

/// What the menu of a cell depends on besides the grid: whether Copy means the selection, and its
/// label; whether the column is shown in another way; whether its foreign key can be followed; and
/// whether the assistant may be sent values, with the words for what would be sent.
pub struct CellMenu<'a> {
    pub copies_selection: bool,
    pub copy_label: &'a str,
    pub formatted: bool,
    pub follows: bool,
    pub may_attach: bool,
    pub scope: &'a str,
}

/// Whether a column may be left without a value.
pub open spec fn is_nullable(gs: GridState, ci: usize) -> bool {
    gs.model.can_edit(ci as int) && (origin_of(gs.rs, ci as int) matches Some(o) && !o.not_null)
}

/// The menu of a cell.
pub open spec fn cell_menu_of(gs: GridState, row: RowRef, ci: usize, m: CellMenu) -> Seq<EntryView> {
    let fresh = row is New;
    let editable = gs.model.can_edit(ci as int);
    let deleted = row matches RowRef::Data(di) && gs.staged@.del_rows.contains(di);
    let can_filter = !fresh && gs.is_filterable() && real_name(gs.rs, ci as int) is Some;
    let can_rows = !fresh && gs.model.row_target() is Some;
    Seq::<EntryView>::empty() + given(editable && !deleted, entry(Act::EditField, "Edit field"@))
        + given(!fresh, entry(Act::EditRow, "Edit row"@)) + given(
        true,
        entry(
            if m.copies_selection {
                Act::CopySelection
            } else {
                Act::CopyCell
            },
            m.copy_label@,
        ),
    ) + given(m.formatted, entry(Act::CopyFormatted, "Copy formatted"@)) + given(
        editable && !deleted,
        entry(Act::Paste, "Paste"@),
    ) + given(can_filter, line()) + given(
        can_filter,
        entry(Act::FilterBy, "Filter by this value"@),
    ) + given(can_filter, entry(Act::Exclude, "Exclude this value"@)) + given(
        !fresh && m.follows,
        entry(Act::Follow, "Follow relation"@),
    ) + given(
        is_nullable(gs, ci) && !deleted,
        entry(Act::SetNull, "Set to NULL"@),
    ) + given(can_rows, line()) + given(
        can_rows,
        entry(Act::DuplicateRows, "Duplicate row"@),
    ) + given(
        can_rows,
        entry(
            Act::SetDeleted(!deleted),
            if deleted {
                "Undo delete"@
            } else {
                "Delete row"@
            },
        ),
    ) + given(m.may_attach, line()) + given(m.may_attach, entry(Act::Summary, "AI summary"@)) + given(
        m.may_attach,
        entry(Act::Attach, "Attach "@ + m.scope@ + " to chat"@),
    )
}

/// The label that says what would be sent to the assistant.
pub fn attach_text(scope: &str) -> (r: String)
    ensures
        r@ == "Attach "@ + scope@ + " to chat"@,
{
    let mut out: String = "Attach ".to_owned();
    out.append(scope);
    out.append(" to chat");
    out
}

/// The menu of a cell. A row that is to go is not edited, and a new one has no row actions; values
/// are offered to the assistant only where it may be sent them.
pub fn cell_menu(gs: &GridState, row: RowRef, ci: usize, m: &CellMenu) -> (r: Vec<Entry>)
    ensures
        menu_view(r@) == cell_menu_of(*gs, row, ci, *m),
{
    let fresh: bool = match row {
        RowRef::New(_) => true,
        RowRef::Data(_) => false,
    };
    let deleted: bool = match row {
        RowRef::Data(di) => gs.staged.is_deleted(di),
        RowRef::New(_) => false,
    };
    let editable: bool = gs.model.editable(ci);
    let nullable: bool = editable && ci < gs.rs.columns.len() && match &gs.rs.columns[ci].origin {
        Some(o) => !o.not_null,
        None => false,
    };
    let can_filter: bool = !fresh && gs.filterable() && gs.real_col(ci).is_some();
    let can_rows: bool = !fresh && gs.model.insert_target().is_some();
    let mut out: Vec<Entry> = new_menu();
    add_item(&mut out, editable && !deleted, Act::EditField, "Edit field");
    add_item(&mut out, !fresh, Act::EditRow, "Edit row");
    let copy: Act = if m.copies_selection {
        Act::CopySelection
    } else {
        Act::CopyCell
    };
    add_item(&mut out, true, copy, m.copy_label);
    add_item(&mut out, m.formatted, Act::CopyFormatted, "Copy formatted");
    add_item(&mut out, editable && !deleted, Act::Paste, "Paste");
    add_line(&mut out, can_filter);
    add_item(&mut out, can_filter, Act::FilterBy, "Filter by this value");
    add_item(&mut out, can_filter, Act::Exclude, "Exclude this value");
    add_item(&mut out, !fresh && m.follows, Act::Follow, "Follow relation");
    add_item(&mut out, nullable && !deleted, Act::SetNull, "Set to NULL");
    add_line(&mut out, can_rows);
    add_item(&mut out, can_rows, Act::DuplicateRows, "Duplicate row");
    let label: &str = if deleted {
        "Undo delete"
    } else {
        "Delete row"
    };
    add_item(&mut out, can_rows, Act::SetDeleted(!deleted), label);
    add_line(&mut out, m.may_attach);
    add_item(&mut out, m.may_attach, Act::Summary, "AI summary");
    let attach: String = attach_text(m.scope);
    add_item(&mut out, m.may_attach, Act::Attach, attach.as_str());
    out
}

/// Whether an entry sends values to the assistant.
pub open spec fn sends_values(e: EntryView) -> bool {
    e matches EntryView::Item(act, _) && (act == Act::Summary || act == Act::Attach)
}

/// Whether no entry sends values to the assistant.
#[verifier::opaque]
pub open spec fn is_quiet(entries: Seq<EntryView>) -> bool {
    forall|i: int| 0 <= i < entries.len() ==> !sends_values(#[trigger] entries[i])
}

broadcast proof fn lemma_quiet_sum(a: Seq<EntryView>, b: Seq<EntryView>)
    requires
        is_quiet(a),
        is_quiet(b),
    ensures
        #[trigger] is_quiet(a + b),
{
    reveal(is_quiet);
}

broadcast proof fn lemma_quiet_entry(cond: bool, act: Act, label: Seq<char>)
    requires
        !cond || (act != Act::Summary && act != Act::Attach),
    ensures
        #[trigger] is_quiet(given(cond, entry(act, label))),
{
    reveal(is_quiet);
}

broadcast proof fn lemma_quiet_line(cond: bool)
    ensures
        #[trigger] is_quiet(given(cond, line())),
{
    reveal(is_quiet);
}

/// No entry that sends values is offered where the assistant may not be sent any.
pub proof fn nothing_is_sent_without_leave(gs: GridState, row: RowRef, ci: usize, m: CellMenu)
    requires
        !m.may_attach,
    ensures
        is_quiet(cell_menu_of(gs, row, ci, m)),
{
    broadcast use {lemma_quiet_sum, lemma_quiet_entry, lemma_quiet_line};

    assert(is_quiet(Seq::<EntryView>::empty())) by {
        reveal(is_quiet);
    }
}

/// A place shows the row of the result that stands there in the order, or the new row behind them.
pub proof fn a_place_shows_its_row(gs: GridState, i: usize)
    requires
        gs.order@.len() == gs.rs.rows@.len(),
    ensures
        i < gs.rs.rows@.len() ==> shown_row(gs, i) == RowRef::Data(gs.order@[i as int]),
        i >= gs.rs.rows@.len() ==> shown_row(gs, i) == RowRef::New(
            (i - gs.rs.rows@.len()) as usize,
        ),
{
}

/// A cell shows what is staged for it before what it holds, and a staged absence as such; a cell of a new
/// row that was given nothing shows what the server will do.
pub proof fn a_cell_shows_what_is_staged_first(gs: GridState, di: usize, p: usize, ci: usize, read: Seq<char>)
    ensures
        ({
            let at = At { row: di, col: ci };
            let shown = full_text(gs, RowRef::Data(di), ci, read);
            &&& gs.staged@.dirty.dom().contains(at) && gs.staged@.dirty[at] is Some ==> shown
                == gs.staged@.dirty[at]->0@
            &&& gs.staged@.dirty.dom().contains(at) && gs.staged@.dirty[at] is None ==> shown == "NULL"@
            &&& !gs.staged@.dirty.dom().contains(at) ==> shown == read
        }),
        p < gs.staged@.new_rows.len() ==> {
            let row = gs.staged@.new_rows[p as int];
            let shown = full_text(gs, RowRef::New(p), ci, read);
            &&& row.dom().contains(ci) && row[ci] is Some ==> shown == row[ci]->0@
            &&& row.dom().contains(ci) && row[ci] is None ==> shown == "NULL"@
            &&& !row.dom().contains(ci) && ci < gs.rs.columns@.len()
                && gs.rs.columns@[ci as int].origin is Some
                && gs.rs.columns@[ci as int].origin->0.auto_increment ==> shown == "<auto>"@
            &&& !row.dom().contains(ci) && ci < gs.model.editable@.len() && gs.model.editable@[ci as int]
                && ci < gs.rs.columns@.len() && gs.rs.columns@[ci as int].origin is Some ==> {
                let o = gs.rs.columns@[ci as int].origin->0;
                &&& !o.auto_increment && o.no_default ==> shown == "<required>"@
                &&& !o.auto_increment && !o.no_default && !o.not_null ==> shown == "<null>"@
                &&& !o.auto_increment && !o.no_default && o.not_null ==> shown == "<default>"@
            }
        },
{
}

/// A text on one row has every break and tab replaced by a space, and every other character as it was,
/// in its place.
pub proof fn a_break_becomes_a_space(s: Seq<char>, i: int)
    requires
        0 <= i < s.len(),
    ensures
        on_one_row(s).len() == s.len(),
        s[i] == '\r' || s[i] == '\n' || s[i] == '\t' ==> on_one_row(s)[i] == ' ',
        s[i] != '\r' && s[i] != '\n' && s[i] != '\t' ==> on_one_row(s)[i] == s[i],
{
}

/// A control is used where it can hold the value; a value that it cannot hold is edited as text, so that
/// it is not rewritten. A date keeps its field beside the calendar.
pub proof fn a_control_is_used_where_it_fits(e: CellEditor)
    ensures
        shape_of(e, false) == CellShape::Text,
        fitted_editor(e, true) == e,
        fitted_editor(e, false) == CellEditor::Text,
        e == CellEditor::Bool || e == CellEditor::Enum || e == CellEditor::Chips ==> shape_of(e, true)
            == CellShape::Pick(e),
        e == CellEditor::Date || e == CellEditor::DateTime ==> shape_of(e, true) == CellShape::Calendar(e),
        e == CellEditor::Text ==> shape_of(e, true) == CellShape::Text,
{
}

/// What is copied of a cell is what it shows: what is staged, else what it holds; a cell that was given
/// nothing is copied as nothing.
pub proof fn a_cell_is_copied_as_it_shows(gs: GridState, di: usize, ci: usize)
    ensures
        ({
            let at = At { row: di, col: ci };
            let copied = copied_text(gs, RowRef::Data(di), ci);
            &&& gs.staged@.dirty.dom().contains(at) && gs.staged@.dirty[at] is Some ==> copied
                == gs.staged@.dirty[at]->0@
            &&& gs.staged@.dirty.dom().contains(at) && gs.staged@.dirty[at] is None ==> copied == "NULL"@
            &&& !gs.staged@.dirty.dom().contains(at) && di < gs.rs.rows@.len() && ci
                < gs.rs.rows@[di as int]@.len() ==> copied == gs.rs.rows@[di as int]@[ci as int].text@
            &&& !gs.staged@.dirty.dom().contains(at) && !(di < gs.rs.rows@.len() && ci
                < gs.rs.rows@[di as int]@.len()) ==> copied.len() == 0
        }),
{
}

/// A cell is filled by the first thing that holds of it: the assistant's work, its editing, its row's
/// going, what is staged, and only then the selection and the looks of the grid.
pub proof fn a_cell_is_filled_by_the_first_thing(gs: GridState, at: At, formatted: bool)
    requires
        gs.order@.len() == gs.rs.rows@.len(),
        at.row < gs.rs.rows@.len(),
    ensures
        ({
            let di = gs.order@[at.row as int];
            let cell = At { row: di, col: at.col };
            let fill = fill_of(gs, at, formatted);
            let works = gs.ai_gen@.dom().contains(cell);
            let edits = gs.edit_cell == Some(at);
            let goes = gs.staged@.del_rows.contains(di);
            let stays = gs.staged@.dirty.dom().contains(cell);
            &&& fill == CellFill::Generating <==> works
            &&& fill == CellFill::Editing <==> !works && edits
            &&& fill == CellFill::Deleted <==> !works && !edits && goes
            &&& fill == CellFill::Staged <==> !works && !edits && !goes && stays
            &&& !works && !edits && !goes && !stays ==> {
                &&& fill == CellFill::Active <==> gs.active == Some(at)
                &&& fill == CellFill::Selected ==> in_span(gs.span(), at.row as int, at.col as int)
                &&& fill != CellFill::NewRow
                &&& gs.active is None ==> (fill == CellFill::Formatted <==> formatted)
                &&& gs.active is None && !formatted ==> (fill == CellFill::Striped <==> at.row % 2 == 1)
            }
        }),
{
}

/// A click takes down what the bar says of the last write and of the filter, and leaves what is staged
/// and selected.
pub proof fn a_click_takes_down_the_bar_alone(gs: GridState)
    ensures
        gs.dismissed().bar.commit_err is None,
        gs.dismissed().bar.commit_note is None,
        gs.dismissed().bar.view_err is None,
        gs.dismissed().bar.batch_err == gs.bar.batch_err,
        gs.dismissed().bar.exporting == gs.bar.exporting,
        gs.dismissed().staged == gs.staged,
        gs.dismissed().active == gs.active,
        gs.dismissed().anchor == gs.anchor,
        gs.dismissed().edit_cell == gs.edit_cell,
{
}

proof fn lemma_cell_offers(
    gs: GridState,
    row: RowRef,
    ci: usize,
    m: CellMenu,
    act: Act,
    label: Seq<char>,
)
    ensures
        ({
            let fresh = row is New;
            let editable = gs.model.can_edit(ci as int);
            let deleted = row matches RowRef::Data(di) && gs.staged@.del_rows.contains(di);
            let can_filter = !fresh && gs.is_filterable() && real_name(gs.rs, ci as int) is Some;
            let can_rows = !fresh && gs.model.row_target() is Some;
            offers(cell_menu_of(gs, row, ci, m), act, label) <==> {
                ||| editable && !deleted && act == Act::EditField && label == "Edit field"@
                ||| !fresh && act == Act::EditRow && label == "Edit row"@
                ||| m.copies_selection && act == Act::CopySelection && label == m.copy_label@
                ||| !m.copies_selection && act == Act::CopyCell && label == m.copy_label@
                ||| m.formatted && act == Act::CopyFormatted && label == "Copy formatted"@
                ||| editable && !deleted && act == Act::Paste && label == "Paste"@
                ||| can_filter && act == Act::FilterBy && label == "Filter by this value"@
                ||| can_filter && act == Act::Exclude && label == "Exclude this value"@
                ||| !fresh && m.follows && act == Act::Follow && label == "Follow relation"@
                ||| is_nullable(gs, ci) && !deleted && act == Act::SetNull && label == "Set to NULL"@
                ||| can_rows && act == Act::DuplicateRows && label == "Duplicate row"@
                ||| can_rows && deleted && act == Act::SetDeleted(false) && label == "Undo delete"@
                ||| can_rows && !deleted && act == Act::SetDeleted(true) && label == "Delete row"@
                ||| m.may_attach && act == Act::Summary && label == "AI summary"@
                ||| m.may_attach && act == Act::Attach && label == "Attach "@ + m.scope@ + " to chat"@
            }
        }),
{
    broadcast use two_parts_offer_what_each_does, a_given_entry_is_offered, a_line_offers_nothing,
        an_empty_menu_offers_nothing;

}

/// The menu of a cell offers what can be done to it, and nothing that cannot: it is edited and pasted
/// into where its column can be and its row stays; filtered by where the server can; given no value where
/// it may have none; and its row is duplicated and marked where there is a table for rows.
pub proof fn a_cell_offers_what_can_be_done(gs: GridState, row: RowRef, ci: usize, m: CellMenu)
    ensures
        ({
            let menu = cell_menu_of(gs, row, ci, m);
            let edits = ci < gs.model.editable@.len() && gs.model.editable@[ci as int];
            let goes = row is Data && gs.staged@.del_rows.contains(row->Data_0);
            let has_table = gs.model.target is Some && gs.model.target->0 < gs.model.tables@.len();
            let own = ci < gs.rs.columns@.len() && gs.rs.columns@[ci as int].origin is Some;
            let filters = row is Data && gs.query.base_sql is Some && has_table && own;
            &&& offers(menu, Act::EditField, "Edit field"@) <==> edits && !goes
            &&& offers(menu, Act::Paste, "Paste"@) <==> edits && !goes
            &&& offers(menu, Act::EditRow, "Edit row"@) <==> row is Data
            &&& offers(menu, Act::FilterBy, "Filter by this value"@) <==> filters
            &&& offers(menu, Act::Exclude, "Exclude this value"@) <==> filters
            &&& offers(menu, Act::Follow, "Follow relation"@) <==> row is Data && m.follows
            &&& offers(menu, Act::CopyFormatted, "Copy formatted"@) <==> m.formatted
            &&& offers(menu, Act::SetNull, "Set to NULL"@) <==> edits && !goes && own
                && !gs.rs.columns@[ci as int].origin->0.not_null
            &&& offers(menu, Act::DuplicateRows, "Duplicate row"@) <==> row is Data && has_table
            &&& offers(menu, Act::SetDeleted(true), "Delete row"@) <==> row is Data && has_table && !goes
            &&& offers(menu, Act::SetDeleted(false), "Undo delete"@) <==> row is Data && has_table && goes
            &&& offers(menu, Act::Summary, "AI summary"@) <==> m.may_attach
            &&& offers(menu, Act::CopyCell, m.copy_label@) <==> !m.copies_selection
            &&& offers(menu, Act::CopySelection, m.copy_label@) <==> m.copies_selection
        }),
{
    lemma_cell_offers(gs, row, ci, m, Act::EditField, "Edit field"@);
    lemma_cell_offers(gs, row, ci, m, Act::Paste, "Paste"@);
    lemma_cell_offers(gs, row, ci, m, Act::EditRow, "Edit row"@);
    lemma_cell_offers(gs, row, ci, m, Act::FilterBy, "Filter by this value"@);
    lemma_cell_offers(gs, row, ci, m, Act::Exclude, "Exclude this value"@);
    lemma_cell_offers(gs, row, ci, m, Act::Follow, "Follow relation"@);
    lemma_cell_offers(gs, row, ci, m, Act::CopyFormatted, "Copy formatted"@);
    lemma_cell_offers(gs, row, ci, m, Act::SetNull, "Set to NULL"@);
    lemma_cell_offers(gs, row, ci, m, Act::DuplicateRows, "Duplicate row"@);
    lemma_cell_offers(gs, row, ci, m, Act::SetDeleted(true), "Delete row"@);
    lemma_cell_offers(gs, row, ci, m, Act::SetDeleted(false), "Undo delete"@);
    lemma_cell_offers(gs, row, ci, m, Act::Summary, "AI summary"@);
    lemma_cell_offers(gs, row, ci, m, Act::CopyCell, m.copy_label@);
    lemma_cell_offers(gs, row, ci, m, Act::CopySelection, m.copy_label@);
}

/// A cell's ink tells what is in it: a staged value or a staged lack of one first, then the lack of a
/// value, then a value that leads to another table.
pub proof fn ink_tells_what_is_in_a_cell(text: String, is_null: bool, placeholder: bool, is_fk: bool)
    ensures
        ink_of(Some(Some(text)), is_null, placeholder, is_fk) == CellInk::Staged,
        ink_of(Some(None), is_null, placeholder, is_fk) == CellInk::StagedNull,
        is_null || placeholder ==> ink_of(None, is_null, placeholder, is_fk) == CellInk::Absent,
        ink_of(None, false, false, true) == CellInk::Fk,
        ink_of(None, false, false, false) == CellInk::Plain,
{
}

/// A cell of the result that nothing else fills is filled as selected inside the selection, and only
/// there.
pub proof fn the_selection_is_filled(gs: GridState, at: At, a: At, b: At, formatted: bool)
    requires
        gs.order@.len() == gs.rs.rows@.len(),
        at.row < gs.rs.rows@.len(),
        gs.active == Some(a),
        gs.anchor == Some(b),
        !gs.ai_gen@.dom().contains(At { row: gs.order@[at.row as int], col: at.col }),
        gs.edit_cell != Some(at),
        !gs.staged@.del_rows.contains(gs.order@[at.row as int]),
        !gs.staged@.dirty.dom().contains(At { row: gs.order@[at.row as int], col: at.col }),
    ensures
        ({
            let inside = (a.row <= at.row <= b.row || b.row <= at.row <= a.row) && (a.col <= at.col
                <= b.col || b.col <= at.col <= a.col);
            let fill = fill_of(gs, at, formatted);
            &&& fill == CellFill::Active <==> at == a
            &&& fill == CellFill::Selected <==> inside && at != a
            &&& !inside && at != a ==> (fill == CellFill::Formatted <==> formatted)
            &&& !inside && at != a && !formatted ==> (fill == CellFill::Striped <==> at.row % 2 == 1)
            &&& !inside && at != a && !formatted && at.row % 2 != 1 ==> fill == CellFill::Plain
        }),
{
    crate::selection::a_selection_is_what_lies_between_its_ends(a, b, at.row as int, at.col as int);
}

/// A new row is filled like one: while it is asked for, edited, given a value or selected as such, else
/// as new.
pub proof fn a_new_row_is_filled_as_new(gs: GridState, at: At, formatted: bool)
    requires
        at.row >= gs.rs.rows@.len(),
    ensures
        ({
            let p = (at.row - gs.rs.rows@.len()) as usize;
            let fill = fill_of(gs, at, formatted);
            let works = gs.ai_gen_rows@.dom().contains(p);
            let edits = gs.edit_cell == Some(at);
            let has = p < gs.staged@.new_rows.len() && gs.staged@.new_rows[p as int].dom().contains(at.col);
            &&& fill == CellFill::Generating <==> works
            &&& fill == CellFill::Editing <==> !works && edits
            &&& fill == CellFill::Staged <==> !works && !edits && has
            &&& fill != CellFill::Deleted
            &&& gs.active is None ==> (fill == CellFill::NewRow <==> !works && !edits && !has)
        }),
{
}

/// A column that cannot be edited and numbers nothing itself is empty in a new row; one without a table
/// that can be edited is shown without a value. A new row's cell is copied as it was given.
pub proof fn a_new_row_shows_what_it_was_given(gs: GridState, p: usize, ci: usize, read: Seq<char>)
    requires
        p < gs.staged@.new_rows.len(),
    ensures
        ({
            let row = gs.staged@.new_rows[p as int];
            let edits = ci < gs.model.editable@.len() && gs.model.editable@[ci as int];
            let own = ci < gs.rs.columns@.len() && gs.rs.columns@[ci as int].origin is Some;
            let auto = own && gs.rs.columns@[ci as int].origin->0.auto_increment;
            &&& !row.dom().contains(ci) && !edits && !auto ==> full_text(gs, RowRef::New(p), ci, read).len()
                == 0
            &&& !row.dom().contains(ci) && edits && !own ==> full_text(gs, RowRef::New(p), ci, read)
                == "<null>"@
            &&& row.dom().contains(ci) && row[ci] is Some ==> copied_text(gs, RowRef::New(p), ci)
                == row[ci]->0@
            &&& row.dom().contains(ci) && row[ci] is None ==> copied_text(gs, RowRef::New(p), ci)
                == "NULL"@
            &&& !row.dom().contains(ci) ==> copied_text(gs, RowRef::New(p), ci).len() == 0
        }),
{
}

/// What a cell's menu attaches is named in the entry, and it is there where values may be sent.
pub proof fn a_cell_offers_to_be_attached(gs: GridState, row: RowRef, ci: usize, m: CellMenu)
    ensures
        offers(cell_menu_of(gs, row, ci, m), Act::Attach, "Attach "@ + m.scope@ + " to chat"@)
            <==> m.may_attach,
{
    lemma_cell_offers(gs, row, ci, m, Act::Attach, "Attach "@ + m.scope@ + " to chat"@);
}

} // verus!
