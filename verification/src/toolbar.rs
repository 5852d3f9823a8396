//! The strip above the grid: what it says of the result, and what its icons do.

use vstd::prelude::*;
use crate::keymap::At;
use crate::menu::{add_dimmed, add_item, add_line, dimmed, entry, given, line, menu_view, new_menu};
use crate::menu::{Act, Entry, EntryView};
use crate::menu::offers;
use crate::staged::{duplicate, toggled, StagedView};
use crate::state::{first_editable, GridState};
use crate::text::{decimal, digits, join, joined, plural};

verus! {

/// The strip's stops, from left to right.
pub const TB_COMMIT: u32 = 10;

pub const TB_DISCARD: u32 = 20;

pub const TB_ADD: u32 = 30;

pub const TB_DELETE: u32 = 40;

pub const TB_CLONE: u32 = 50;

pub const TB_AI: u32 = 60;

pub const TB_COPY: u32 = 70;

pub const TB_SAVE: u32 = 80;

/// The stops of the strip as its icons stand from left to right.
pub open spec fn strip_stops() -> Seq<u32> {
    seq![TB_COMMIT, TB_DISCARD, TB_ADD, TB_DELETE, TB_CLONE, TB_AI, TB_COPY, TB_SAVE]
}

/// The strip is walked from left to right, and no two of its icons share a stop.
pub proof fn the_strip_is_walked_in_order()
    ensures
        forall|i: int, j: int|
            #![trigger strip_stops()[i], strip_stops()[j]]
            0 <= i < j < strip_stops().len() ==> strip_stops()[i] < strip_stops()[j],
{
}

/// What the strip says of a result.
pub open spec fn stats_text(
    database: Option<String>,
    rows: Seq<char>,
    ncols: nat,
    elapsed_ms: nat,
) -> Seq<char> {
    (match database {
        Some(d) => d@ + " · "@,
        None => ""@,
    }) + rows + " · "@ + digits(ncols) + " "@ + (if ncols == 1 {
        "col"@
    } else {
        "cols"@
    }) + " · "@ + digits(elapsed_ms) + " ms"@
}

/// What the strip says of a result: the database it came from, what was read of it, its columns and
/// how long it took.
pub fn stats_line(database: &Option<String>, rows: &str, ncols: usize, elapsed_ms: u128) -> (r: String)
    ensures
        r@ == stats_text(*database, rows@, ncols as nat, elapsed_ms as nat),
{
    let mut out: String = match database {
        Some(d) => {
            let mut s: String = d.clone();
            s.append(" · ");
            s
        },
        None => "".to_owned(),
    };
    out.append(rows);
    out.append(" · ");
    out.append(decimal(ncols as u128).as_str());
    out.append(" ");
    out.append(plural(ncols as u64, "col", "cols"));
    out.append(" · ");
    out.append(decimal(elapsed_ms).as_str());
    out.append(" ms");
    out
}

/// What the strip says of columns that could not be held in full; nothing where all were.
pub fn arena_note(capped: &Vec<String>) -> (r: Option<String>)
    ensures
        r is Some <==> capped@.len() > 0,
        r matches Some(s) ==> s@ == "· "@ + joined(capped@, ", "@)
            + " too large to hold in full — later rows show blank"@,
{
    if capped.len() == 0 {
        return None;
    }
    let mut out: String = "· ".to_owned();
    out.append(join(capped, ", ").as_str());
    out.append(" too large to hold in full — later rows show blank");
    Some(out)
}

/// What the strip warns of: a sort of a result that was cut short orders only what was read.
pub fn sort_caveat(truncated: bool, sorted: bool) -> (r: Option<&'static str>)
    ensures
        r is Some <==> truncated && sorted,
        r matches Some(s) ==> s@ == "· sorted subset (capped) — not the full order"@,
{
    if truncated && sorted {
        Some("· sorted subset (capped) — not the full order")
    } else {
        None
    }
}

/// Whether more rows are offered to be read: the result was cut short, and its statement may be
/// run a second time.
pub fn offers_more(truncated: bool, rerunnable: bool) -> (r: bool)
    ensures
        r == (truncated && rerunnable),
{
    truncated && rerunnable
}

/// The names of the columns at these places, those that are there.
pub open spec fn names_at(gs: GridState, places: Seq<usize>) -> Seq<String>
    decreases places.len(),
{
    if places.len() == 0 {
        Seq::empty()
    } else {
        let before = names_at(gs, places.drop_last());
        if places.last() < gs.rs.columns@.len() {
            before.push(gs.rs.columns@[places.last() as int].name)
        } else {
            before
        }
    }
}

/// The names of the columns that could not be held in full.
pub fn capped_names(gs: &GridState, places: &Vec<usize>) -> (r: Vec<String>)
    ensures
        r@ == names_at(*gs, places@),
{
    let mut out: Vec<String> = Vec::new();
    let mut i: usize = 0;
    while i < places.len()
        invariant
            i <= places@.len(),
            out@ == names_at(*gs, places@.take(i as int)),
        decreases places@.len() - i,
    {
        proof {
            assert(places@.take(i + 1).drop_last() =~= places@.take(i as int));
            assert(places@.take(i + 1).last() == places@[i as int]);
        }
        if places[i] < gs.rs.columns.len() {
            out.push(gs.rs.columns[places[i]].name.clone());
        }
        i = i + 1;
    }
    assert(places@.take(places@.len() as int) =~= places@);
    out
}

/// The commit icon: what stands beside it, and what it explains.
pub struct CommitFace {
    pub label: String,
    pub tip: String,
}

/// What the commit icon explains.
pub open spec fn commit_tip(n: nat, busy: bool) -> Seq<char> {
    if busy {
        "Committing…"@
    } else if n == 1 {
        "Commit 1 change (Ctrl+Enter)"@
    } else {
        "Commit "@ + digits(n) + " changes (Ctrl+Enter)"@
    }
}

/// The commit icon and the one that discards are shown where anything is staged.
pub fn commit_ctrl(n: usize, busy: bool) -> (r: Option<CommitFace>)
    ensures
        r is Some <==> n > 0,
        r matches Some(f) ==> f.tip@ == commit_tip(n as nat, busy) && f.label@ == if busy {
            "Committing…"@
        } else {
            digits(n as nat)
        },
{
    if n == 0 {
        return None;
    }
    if busy {
        return Some(
            CommitFace { label: "Committing…".to_owned(), tip: "Committing…".to_owned() },
        );
    }
    let tip: String = if n == 1 {
        "Commit 1 change (Ctrl+Enter)".to_owned()
    } else {
        let mut t: String = "Commit ".to_owned();
        t.append(decimal(n as u128).as_str());
        t.append(" changes (Ctrl+Enter)");
        t
    };
    Some(CommitFace { label: decimal(n as u128), tip })
}

impl GridState {
    /// The row of the result that the strip's row actions are about: that of the active cell. A new
    /// row is none.
    pub open spec fn acted_row(self) -> Option<usize> {
        match self.active {
            Some(a) => if a.row < self.rs.rows@.len() && a.row < self.order@.len() {
                Some(self.order@[a.row as int])
            } else {
                None
            },
            None => None,
        }
    }

    /// Whether the strip's row actions are shown, and whether those of them are live that need a
    /// row.
    pub fn row_actions(&self) -> (r: (bool, bool))
        ensures
            r.0 == (self.model.row_target() is Some),
            r.1 == (self.active matches Some(a) && a.row < self.rs.rows@.len()),
    {
        let live: bool = match self.active {
            Some(a) => a.row < self.rs.row_count(),
            None => false,
        };
        (self.model.insert_target().is_some(), live)
    }

    /// The row of the result that the strip's row actions are about.
    pub fn selected_data_row(&self) -> (r: Option<usize>)
        ensures
            r == self.acted_row(),
    {
        match self.active {
            Some(a) => if a.row < self.rs.row_count() && a.row < self.order.len() {
                Some(self.order[a.row])
            } else {
                None
            },
            None => None,
        }
    }

    /// Turn round whether the selected row is to go.
    pub fn delete_selected_row(&mut self)
        ensures
            match old(self).acted_row() {
                None => *final(self) == *old(self),
                Some(di) => {
                    &&& final(self).staged@ == toggled(old(self).staged@, di)
                    &&& *final(self) == (GridState {
                        staged: final(self).staged,
                        bar: old(self).bar.cleared(),
                        ..*old(self)
                    })
                },
            },
    {
        if let Some(di) = self.selected_data_row() {
            self.toggle_delete(di);
        }
    }

    /// Duplicate the selected row, and give the cell of the new one that is to be shown.
    pub fn clone_selected_row(&mut self) -> (r: Option<At>)
        requires
            old(self).countable(),
        ensures
            match old(self).acted_row() {
                None => r is None && *final(self) == *old(self),
                Some(di) => {
                    &&& r == Some(
                        At {
                            row: old(self).shown_rows() as usize,
                            col: match first_editable(
                                old(self).model,
                                0,
                                old(self).rs.columns@.len() as int,
                            ) {
                                Some(ci) => ci,
                                None => 0,
                            },
                        },
                    )
                    &&& final(self).staged@ == (StagedView {
                        new_rows: old(self).staged@.new_rows.push(
                            duplicate(old(self).rs, old(self).model, di),
                        ),
                        ..old(self).staged@
                    })
                    &&& *final(self) == (GridState {
                        staged: final(self).staged,
                        bar: old(self).bar.cleared(),
                        ..*old(self)
                    })
                },
            },
    {
        match self.selected_data_row() {
            None => None,
            Some(di) => {
                let mut rows: Vec<usize> = Vec::new();
                rows.push(di);
                let r: Option<At> = self.clone_rows(&rows);
                assert(self.staged@.new_rows =~= old(self).staged@.new_rows.push(
                    duplicate(old(self).rs, old(self).model, di),
                ));
                r
            },
        }
    }
}

/// Where a menu hangs: under an icon, by its edges.
#[derive(Clone, Copy, Debug, PartialEq, Eq, Structural)]
pub struct MenuAnchor {
    pub left: i64,
    pub right: i64,
    pub bottom: i64,
}

/// The one menu that can be up, and where it hangs; one that was raised at the pointer hangs
/// nowhere.
#[derive(Clone, Copy, Debug, PartialEq, Eq, Structural)]
pub struct Popup {
    pub open: bool,
    pub anchor: Option<MenuAnchor>,
}

/// Where the menu of an icon hangs: right below it.
pub open spec fn below(x: int, y: int, size: int) -> (int, int, int) {
    (x, x + size, y + size)
}

/// Whether an anchor is the one below an icon.
pub open spec fn hangs_below(a: MenuAnchor, x: int, y: int, size: int) -> bool {
    (a.left as int, a.right as int, a.bottom as int) == below(x, y, size)
}

/// An icon that raises a menu: where it stands, and how large it is.
#[derive(Clone, Copy, Debug, PartialEq, Eq, Structural)]
pub struct MenuIcon {
    pub x: i32,
    pub y: i32,
    pub size: u16,
}

impl MenuIcon {
    /// Where the icon's menu hangs.
    pub fn anchor(&self) -> (r: MenuAnchor)
        ensures
            hangs_below(r, self.x as int, self.y as int, self.size as int),
    {
        MenuAnchor {
            left: self.x as i64,
            right: self.x as i64 + self.size as i64,
            bottom: self.y as i64 + self.size as i64,
        }
    }
}

/// What a press on an icon did: it closed the icon's menu, raised it, or nothing.
#[derive(Clone, Copy, Debug, PartialEq, Eq, Structural)]
pub enum IconPress {
    Closed,
    Raised,
    Refused,
}

/// When an icon takes the keyboard back: at once, once its menu is closed, or not at all.
#[derive(Clone, Copy, Debug, PartialEq, Eq, Structural)]
pub enum KeyboardReturn {
    Now,
    OnClose,
    Never,
}

/// When an icon takes the keyboard back after a press. Only a press that the keyboard made leads back
/// to the icon: after a click the arrows stay the grid's.
pub fn keyboard_return(press: IconPress, by_keyboard: bool) -> (r: KeyboardReturn)
    ensures
        r == if !by_keyboard || press == IconPress::Refused {
            KeyboardReturn::Never
        } else if press == IconPress::Closed {
            KeyboardReturn::Now
        } else {
            KeyboardReturn::OnClose
        },
{
    if !by_keyboard {
        return KeyboardReturn::Never;
    }
    match press {
        IconPress::Closed => KeyboardReturn::Now,
        IconPress::Raised => KeyboardReturn::OnClose,
        IconPress::Refused => KeyboardReturn::Never,
    }
}

/// The icons of the strip that explain themselves in the same words always, and the assistant's.
#[derive(Clone, Copy, Debug, PartialEq, Eq, Structural)]
pub enum StripIcon {
    Discard,
    Add,
    Delete,
    Clone,
    Ai,
    Copy,
    Save,
}

/// What an icon of the strip explains.
pub open spec fn tip_of(icon: StripIcon, ai_busy: bool) -> Seq<char> {
    match icon {
        StripIcon::Discard => "Discard all pending changes"@,
        StripIcon::Add => "Add a row"@,
        StripIcon::Delete => "Mark the selected row for deletion (Del)"@,
        StripIcon::Clone => "Clone the selected row"@,
        StripIcon::Ai => if ai_busy {
            "Generating…"@
        } else {
            "Generate rows with AI…"@
        },
        StripIcon::Copy => "Copy the results…"@,
        StripIcon::Save => "Save the results to a file…"@,
    }
}

/// What an icon of the strip explains. The assistant's says so while it is busy.
pub fn icon_tip(icon: StripIcon, ai_busy: bool) -> (r: &'static str)
    ensures
        r@ == tip_of(icon, ai_busy),
{
    match icon {
        StripIcon::Discard => "Discard all pending changes",
        StripIcon::Add => "Add a row",
        StripIcon::Delete => "Mark the selected row for deletion (Del)",
        StripIcon::Clone => "Clone the selected row",
        StripIcon::Ai => if ai_busy {
            "Generating…"
        } else {
            "Generate rows with AI…"
        },
        StripIcon::Copy => "Copy the results…",
        StripIcon::Save => "Save the results to a file…",
    }
}

impl Popup {
    /// Whether the menu that is up is the one that this icon raised.
    pub open spec fn is_of(self, icon: MenuIcon) -> bool {
        self.open && (self.anchor matches Some(a) && hangs_below(
            a,
            icon.x as int,
            icon.y as int,
            icon.size as int,
        ))
    }

    /// Whether the menu that is up is the one that this icon raised.
    pub fn menu_is_mine(&self, icon: &MenuIcon) -> (r: bool)
        ensures
            r == self.is_of(*icon),
    {
        let own: MenuAnchor = icon.anchor();
        self.open && match self.anchor {
            Some(a) => a == own,
            None => false,
        }
    }

    /// A press on an icon: it closes the menu that it raised, and raises it else, in place of any
    /// other.
    pub fn icon_pressed(&mut self, icon: &MenuIcon) -> (r: IconPress)
        ensures
            r == if old(self).is_of(*icon) {
                IconPress::Closed
            } else {
                IconPress::Raised
            },
            r == IconPress::Raised ==> final(self).is_of(*icon),
            r == IconPress::Closed ==> *final(self) == (Popup { open: false, ..*old(self) }),
    {
        if self.menu_is_mine(icon) {
            self.open = false;
            IconPress::Closed
        } else {
            self.open = true;
            self.anchor = Some(icon.anchor());
            IconPress::Raised
        }
    }

    /// A press on the assistant's icon: as on any other, but that no menu is raised while the
    /// assistant is busy. One that is up is closed all the same, so that it cannot be stuck.
    pub fn ai_icon_pressed(&mut self, icon: &MenuIcon, busy: bool) -> (r: IconPress)
        ensures
            r == if old(self).is_of(*icon) {
                IconPress::Closed
            } else if busy {
                IconPress::Refused
            } else {
                IconPress::Raised
            },
            r == IconPress::Raised ==> final(self).is_of(*icon),
            r == IconPress::Closed ==> *final(self) == (Popup { open: false, ..*old(self) }),
            r == IconPress::Refused ==> *final(self) == *old(self),
    {
        if busy && !self.menu_is_mine(icon) {
            IconPress::Refused
        } else {
            self.icon_pressed(icon)
        }
    }

    /// An icon moved: a menu that it raised moves with it, and stays its own.
    pub fn follow_menu(&mut self, icon: &mut MenuIcon, x: i32, y: i32)
        ensures
            *final(icon) == (MenuIcon { x, y, ..*old(icon) }),
            old(self).is_of(*old(icon)) ==> final(self).is_of(*final(icon)),
            !old(self).is_of(*old(icon)) ==> *final(self) == *old(self),
    {
        let own: bool = self.menu_is_mine(icon);
        icon.x = x;
        icon.y = y;
        if own {
            self.anchor = Some(icon.anchor());
        }
    }
}

/// A format that a result can be copied or saved in, with its label.
pub struct ExportFormat {
    pub choice: u32,
    pub label: String,
}

/// The menu of the formats.
pub fn format_menu(formats: &Vec<ExportFormat>) -> (r: Vec<Entry>)
    ensures
        menu_view(r@) == formats@.map_values(
            |f: ExportFormat| EntryView::Item(Act::Export(f.choice), f.label@),
        ),
{
    let mut out: Vec<Entry> = Vec::new();
    let mut i: usize = 0;
    while i < formats.len()
        invariant
            i <= formats@.len(),
            out@.len() == i,
            forall|k: int|
                0 <= k < i ==> (#[trigger] out@[k])@ == EntryView::Item(
                    Act::Export(formats@[k].choice),
                    formats@[k].label@,
                ),
        decreases formats@.len() - i,
    {
        out.push(Entry::Item(Act::Export(formats[i].choice), formats[i].label.clone()));
        i = i + 1;
    }
    assert(menu_view(out@) =~= formats@.map_values(
        |f: ExportFormat| EntryView::Item(Act::Export(f.choice), f.label@),
    ));
    out
}

/// How many rows all of them are, as the menu says it: a figure of the catalogue, which is an
/// estimate; nothing where there is none.
pub fn all_rows_size(count: &Option<String>) -> (r: String)
    ensures
        r@ == match *count {
            Some(c) => "~"@ + c@,
            None => Seq::empty(),
        },
{
    match count {
        Some(c) => {
            let mut out: String = "~".to_owned();
            out.append(c.as_str());
            out
        },
        None => String::new(),
    }
}

/// The first step of the save menu: the rows that were fetched, or all of them; none where the two
/// are the same, or where the statement may not be run again, and the formats stand alone.
pub fn export_menu(truncated: bool, rerunnable: bool, fetched: &str, all_rows: &str) -> (r: Option<
    Vec<Entry>,
>)
    ensures
        r is Some <==> truncated && rerunnable,
        r matches Some(m) ==> menu_view(m@) == Seq::<EntryView>::empty() + given(
            true,
            entry(Act::ExportFetched, "Fetched rows ("@ + fetched@ + ")"@),
        ) + given(true, entry(Act::ExportAll, all_rows@)),
{
    if !truncated || !rerunnable {
        return None;
    }
    let mut label: String = "Fetched rows (".to_owned();
    label.append(fetched);
    label.append(")");
    let mut out: Vec<Entry> = new_menu();
    add_item(&mut out, true, Act::ExportFetched, label.as_str());
    add_item(&mut out, true, Act::ExportAll, all_rows);
    Some(out)
}

/// What an export writes: the rows that are on screen, or all that the statement returns.
pub enum ExportScope {
    Fetched,
    AllRows(String),
}

/// What an export writes. All rows are written only where there is a statement to run again.
pub fn export_scope(all_rows: bool, statement: Option<String>) -> (r: ExportScope)
    ensures
        r == if all_rows && statement is Some {
            ExportScope::AllRows(statement->0)
        } else {
            ExportScope::Fetched
        },
{
    match statement {
        Some(sql) => if all_rows {
            ExportScope::AllRows(sql)
        } else {
            ExportScope::Fetched
        },
        None => ExportScope::Fetched,
    }
}

/// Whether an export runs its statement again as it writes, and so can be stopped.
pub fn is_streaming(scope: &ExportScope) -> (r: bool)
    ensures
        r == (scope is AllRows),
{
    match scope {
        ExportScope::AllRows(_) => true,
        ExportScope::Fetched => false,
    }
}

/// The assistant's menu.
pub open spec fn ai_menu_of(gs: GridState, may_attach: bool, attach_all: Seq<char>) -> Seq<EntryView> {
    let fills = gs.active matches Some(a) && gs.model.can_edit(a.col as int);
    let empty = gs.order@.len() == 0;
    Seq::<EntryView>::empty() + given(
        !may_attach,
        dimmed(Act::Nothing, "AI actions send data — off for this connection"@),
    ) + given(may_attach && fills, entry(Act::FillValue, "AI fill value"@)) + given(
        may_attach && !fills,
        dimmed(Act::FillValue, "AI fill value"@),
    ) + given(may_attach, entry(Act::InsertRow, "AI insert row"@)) + given(
        may_attach,
        entry(Act::SeedTable, "AI seed table…"@),
    ) + given(may_attach, line()) + given(
        may_attach && !empty,
        entry(Act::AttachAll, attach_all),
    ) + given(may_attach && empty, dimmed(Act::AttachAll, attach_all))
}

/// The assistant's menu. Every entry sends values, so that where it may not be sent any the menu
/// says so and offers nothing.
pub fn ai_menu(gs: &GridState, may_attach: bool, attach_all: &str) -> (r: Vec<Entry>)
    ensures
        menu_view(r@) == ai_menu_of(*gs, may_attach, attach_all@),
{
    let fills: bool = match gs.active {
        Some(a) => gs.model.editable(a.col),
        None => false,
    };
    let empty: bool = gs.order.len() == 0;
    let mut out: Vec<Entry> = new_menu();
    add_dimmed(
        &mut out,
        !may_attach,
        Act::Nothing,
        "AI actions send data — off for this connection",
    );
    add_item(&mut out, may_attach && fills, Act::FillValue, "AI fill value");
    add_dimmed(&mut out, may_attach && !fills, Act::FillValue, "AI fill value");
    add_item(&mut out, may_attach, Act::InsertRow, "AI insert row");
    add_item(&mut out, may_attach, Act::SeedTable, "AI seed table…");
    add_line(&mut out, may_attach);
    add_item(&mut out, may_attach && !empty, Act::AttachAll, attach_all);
    add_dimmed(&mut out, may_attach && empty, Act::AttachAll, attach_all);
    out
}

/// The assistant's menu offers nothing where values may not be sent; where they may, a value is filled
/// in where the active cell can be edited, and rows are sent where there are any.
pub proof fn the_assistant_offers_what_it_can_do(gs: GridState, may_attach: bool, label: Seq<char>)
    ensures
        ({
            let menu = ai_menu_of(gs, may_attach, label);
            let edits = gs.active is Some && gs.active->0.col < gs.model.editable@.len()
                && gs.model.editable@[gs.active->0.col as int];
            &&& offers(menu, Act::FillValue, "AI fill value"@) <==> may_attach && edits
            &&& offers(menu, Act::InsertRow, "AI insert row"@) <==> may_attach
            &&& offers(menu, Act::SeedTable, "AI seed table…"@) <==> may_attach
            &&& offers(menu, Act::AttachAll, label) <==> may_attach && gs.order@.len() > 0
        }),
{
    broadcast use crate::menu::two_parts_offer_what_each_does, crate::menu::a_given_entry_is_offered,
        crate::menu::a_line_offers_nothing, crate::menu::an_empty_menu_offers_nothing,
        crate::menu::a_dimmed_entry_is_not_offered;

}

/// The strip's row actions are about the row of the result that the active cell shows, and about none
/// where that is a new row.
pub proof fn the_strip_acts_on_the_active_row(gs: GridState, a: At)
    requires
        gs.order@.len() == gs.rs.rows@.len(),
    ensures
        gs.active == Some(a) && a.row < gs.rs.rows@.len() ==> gs.acted_row() == Some(
            gs.order@[a.row as int],
        ),
        gs.active == Some(a) && a.row >= gs.rs.rows@.len() ==> gs.acted_row() is None,
        gs.active is None ==> gs.acted_row() is None,
{
}

/// A menu is an icon's where it hangs right below it, by all its edges, and only while it is up.
pub proof fn a_menu_hangs_below_its_icon(p: Popup, icon: MenuIcon)
    ensures
        p.is_of(icon) <==> p.open && p.anchor is Some && p.anchor->0.left == icon.x && p.anchor->0.right
            == icon.x + icon.size && p.anchor->0.bottom == icon.y + icon.size,
{
}

/// The columns that could not be held in full are named in the order of their places; a place without a
/// column has no name.
pub proof fn capped_columns_are_named(gs: GridState, places: Seq<usize>)
    ensures
        (forall|i: int| 0 <= i < places.len() ==> #[trigger] places[i] < gs.rs.columns@.len())
            ==> names_at(gs, places).len() == places.len() && forall|i: int|
            0 <= i < places.len() ==> #[trigger] names_at(gs, places)[i]
                == gs.rs.columns@[places[i] as int].name,
        names_at(gs, places).len() <= places.len(),
    decreases places.len(),
{
    if places.len() > 0 {
        let front = places.drop_last();
        capped_columns_are_named(gs, front);
        if forall|i: int| 0 <= i < places.len() ==> #[trigger] places[i] < gs.rs.columns@.len() {
            assert forall|i: int| 0 <= i < front.len() implies #[trigger] front[i]
                < gs.rs.columns@.len() by {
                assert(front[i] == places[i]);
            }
            assert(places[places.len() - 1] < gs.rs.columns@.len());
            assert forall|i: int| 0 <= i < places.len() implies #[trigger] names_at(gs, places)[i]
                == gs.rs.columns@[places[i] as int].name by {
                if i < front.len() {
                    assert(names_at(gs, front)[i] == gs.rs.columns@[front[i] as int].name);
                }
            }
        }
    }
}

/// The line below the grid says where the result is from, how many rows and columns it has, one in the
/// singular, and how long it took.
pub proof fn the_line_below_counts_the_result(d: String, rows: Seq<char>, n: nat, ms: nat)
    ensures
        stats_text(None, rows, 1, ms) == rows + " · 1 col · "@ + digits(ms) + " ms"@,
        n != 1 ==> stats_text(None, rows, n, ms) == rows + " · "@ + digits(n) + " cols · "@ + digits(ms)
            + " ms"@,
        stats_text(Some(d), rows, n, ms) == d@ + " · "@ + stats_text(None, rows, n, ms),
{
    reveal_strlit("");
    reveal_strlit(" ");
    reveal_strlit(" · ");
    reveal_strlit("col");
    reveal_strlit("cols");
    reveal_strlit(" cols · ");
    reveal_strlit(" · 1 col · ");
    crate::text::a_number_is_written_in_decimal(0, 1);
    assert(" · "@ + digits(1) + " "@ + "col"@ + " · "@ =~= " · 1 col · "@);
    assert(" "@ + "cols"@ + " · "@ =~= " cols · "@);
    assert(stats_text(None, rows, 1, ms) =~= rows + (" · "@ + digits(1) + " "@ + "col"@ + " · "@)
        + digits(ms) + " ms"@);
    assert(n != 1 ==> stats_text(None, rows, n, ms) =~= rows + " · "@ + digits(n) + (" "@ + "cols"@
        + " · "@) + digits(ms) + " ms"@);
    assert(stats_text(Some(d), rows, n, ms) =~= d@ + " · "@ + stats_text(None, rows, n, ms));
}

/// The commit button's hint says how many changes would be written, and that they are while they are.
pub proof fn the_commit_hint_counts_the_changes(n: nat)
    ensures
        commit_tip(n, true) == "Committing…"@,
        commit_tip(1, false) == "Commit 1 change (Ctrl+Enter)"@,
        n != 1 ==> commit_tip(n, false) == "Commit "@ + digits(n) + " changes (Ctrl+Enter)"@,
{
}

/// Each icon's hint says what the icon does.
pub proof fn a_hint_says_what_its_icon_does(ai_busy: bool)
    ensures
        tip_of(StripIcon::Discard, ai_busy) == "Discard all pending changes"@,
        tip_of(StripIcon::Add, ai_busy) == "Add a row"@,
        tip_of(StripIcon::Delete, ai_busy) == "Mark the selected row for deletion (Del)"@,
        tip_of(StripIcon::Clone, ai_busy) == "Clone the selected row"@,
        tip_of(StripIcon::Ai, true) == "Generating…"@,
        tip_of(StripIcon::Ai, false) == "Generate rows with AI…"@,
        tip_of(StripIcon::Copy, ai_busy) == "Copy the results…"@,
        tip_of(StripIcon::Save, ai_busy) == "Save the results to a file…"@,
{
}

} // verus!
