//! The panel that shows one row, field by field.

use vstd::prelude::*;
use crate::cell::CellEditor;
use crate::columns::{shown_table, table_display, TableSource};
use crate::json::{is_json_type, names_json, Field, Leaf};
use crate::keymap::At;
use crate::plan::FieldValue;
use crate::staged::{original, original_of};
use crate::state::{first_editable, GridState};
use crate::text::{decimal, digits};

verus! {

/// What the panel knows of a column: its name, whether it can be edited and left without a value,
/// and what the row holds in it.
pub struct ColSpec {
    pub name: String,
    pub editable: bool,
    pub nullable: bool,
    pub value: Option<String>,
}

/// Whether this is what the panel knows of a column of a row.
pub open spec fn col_matches(gs: GridState, di: usize, ci: int, c: ColSpec) -> bool {
    &&& c.name == gs.rs.columns@[ci].name
    &&& c.editable == gs.model.can_edit(ci)
    &&& c.nullable == (gs.rs.columns@[ci].origin matches Some(o) && !o.not_null)
    &&& c.value == original(gs.rs, At { row: di, col: ci as usize })
}

/// What the panel knows of each column of a row.
pub fn row_colspecs(gs: &GridState, di: usize) -> (r: Vec<ColSpec>)
    ensures
        r@.len() == gs.rs.columns@.len(),
        forall|ci: int| 0 <= ci < r@.len() ==> col_matches(*gs, di, ci, #[trigger] r@[ci]),
{
    let mut out: Vec<ColSpec> = Vec::new();
    let mut ci: usize = 0;
    while ci < gs.rs.columns.len()
        invariant
            ci <= gs.rs.columns@.len(),
            out@.len() == ci,
            forall|k: int| 0 <= k < ci ==> col_matches(*gs, di, k, #[trigger] out@[k]),
        decreases gs.rs.columns@.len() - ci,
    {
        let nullable: bool = match &gs.rs.columns[ci].origin {
            Some(o) => !o.not_null,
            None => false,
        };
        out.push(
            ColSpec {
                name: gs.rs.columns[ci].name.clone(),
                editable: gs.model.editable(ci),
                nullable,
                value: original_of(&gs.rs, At { row: di, col: ci }),
            },
        );
        ci = ci + 1;
    }
    out
}

/// Whether this is the field of a column as the panel opens: its text, or none.
pub open spec fn field_matches(c: ColSpec, ci: int, f: Field) -> bool {
    &&& f.ci == ci
    &&& f.is_null == (c.value is None)
    &&& f.buf@ == match c.value {
        Some(t) => t@,
        None => Seq::empty(),
    }
    &&& f.tree is None
}

/// The fields of a row as the panel opens.
pub fn field_sigs(cols: &Vec<ColSpec>) -> (r: Vec<Field>)
    ensures
        r@.len() == cols@.len(),
        forall|ci: int| 0 <= ci < r@.len() ==> field_matches(cols@[ci], ci, #[trigger] r@[ci]),
{
    let mut out: Vec<Field> = Vec::new();
    let mut ci: usize = 0;
    while ci < cols.len()
        invariant
            ci <= cols@.len(),
            out@.len() == ci,
            forall|k: int| 0 <= k < ci ==> field_matches(cols@[k], k, #[trigger] out@[k]),
        decreases cols@.len() - ci,
    {
        let f: Field = match &cols[ci].value {
            Some(t) => Field { ci, buf: t.clone(), is_null: false, tree: None },
            None => Field { ci, buf: String::new(), is_null: true, tree: None },
        };
        out.push(f);
        ci = ci + 1;
    }
    out
}

/// Ask every field to keep the leaf that is open in it, given what each leaf's text came to, and
/// say whether all did. Each one is asked, whatever became of the others.
pub fn flush_fields(fields: &mut Vec<Field>, leaves: Vec<Leaf>) -> (r: bool)
    requires
        leaves@.len() == old(fields)@.len(),
    ensures
        final(fields)@.len() == old(fields)@.len(),
        forall|i: int|
            0 <= i < leaves@.len() ==> old(fields)@[i].leaf_kept(
                #[trigger] leaves@[i],
                final(fields)@[i],
            ),
        r == forall|i: int| 0 <= i < final(fields)@.len() ==> !(#[trigger] final(fields)@[i]).is_open(),
{
    let ghost all = leaves@;
    let n: usize = fields.len();
    let mut ok: bool = true;
    let mut k: usize = 0;
    for leaf in it: leaves
        invariant
            it.seq() == all,
            k == it.index(),
            fields@.len() == n,
            n == old(fields)@.len(),
            all.len() == n,
            forall|i: int|
                0 <= i < k ==> old(fields)@[i].leaf_kept(#[trigger] all[i], fields@[i]),
            forall|i: int| k <= i < n ==> #[trigger] fields@[i] == old(fields)@[i],
            ok ==> forall|i: int| 0 <= i < k ==> !(#[trigger] fields@[i]).is_open(),
            !ok ==> exists|i: int| 0 <= i < k && (#[trigger] fields@[i]).is_open(),
    {
        let ghost before = fields@;
        fields[k].commit_current(leaf);
        assert(all[k as int] == leaf);
        let open: bool = match &fields[k].tree {
            Some(t) => t.editing.is_some(),
            None => false,
        };
        proof {
            assert(open == fields@[k as int].is_open());
            assert forall|i: int| 0 <= i < n && i != k implies #[trigger] fields@[i] == before[i] by {}
            if !ok {
                let i = choose|i: int| 0 <= i < k && (#[trigger] before[i]).is_open();
                assert(fields@[i].is_open());
            }
        }
        if open {
            ok = false;
        }
        k = k + 1;
    }
    ok
}

/// What a field is written as: no value, or its text.
pub open spec fn field_value(f: Field) -> FieldValue {
    FieldValue {
        ci: f.ci,
        value: if f.is_null {
            None
        } else {
            Some(f.buf)
        },
    }
}

/// What each field is written as.
pub fn field_state(fields: &Vec<Field>) -> (r: Vec<FieldValue>)
    ensures
        r@ == fields@.map_values(|f: Field| field_value(f)),
{
    let mut out: Vec<FieldValue> = Vec::new();
    let mut i: usize = 0;
    while i < fields.len()
        invariant
            i <= fields@.len(),
            out@ == fields@.take(i as int).map_values(|f: Field| field_value(f)),
        decreases fields@.len() - i,
    {
        let f: &Field = &fields[i];
        let value: Option<String> = if f.is_null {
            None
        } else {
            Some(f.buf.clone())
        };
        out.push(FieldValue { ci: f.ci, value });
        i = i + 1;
        assert(out@ =~= fields@.take(i as int).map_values(|f: Field| field_value(f)));
    }
    assert(fields@.take(fields@.len() as int) =~= fields@);
    out
}

/// What a field's row holds: its value as text, a tree, or a control.
#[derive(Clone, Copy, Debug, PartialEq, Eq, Structural)]
pub enum FieldKind {
    ReadOnly,
    Json,
    Typed(CellEditor),
}

/// How a field shows whether it has a value: by its control alone, by its control with a button that
/// takes the value away, or by a word with a button that gives one.
#[derive(Clone, Copy, Debug, PartialEq, Eq, Structural)]
pub enum NullFace {
    Control,
    Clearable,
    Absent,
}

/// How a field shows whether it has a value.
pub fn nullable_field(nullable: bool, f: &Field) -> (r: NullFace)
    ensures
        r == if !nullable {
            NullFace::Control
        } else if f.is_null {
            NullFace::Absent
        } else {
            NullFace::Clearable
        },
{
    if !nullable {
        NullFace::Control
    } else if f.is_null {
        NullFace::Absent
    } else {
        NullFace::Clearable
    }
}

/// What the button beside a field reads; nothing where it has none.
pub fn null_button(face: NullFace) -> (r: Option<&'static str>)
    ensures
        r is None <==> face == NullFace::Control,
        face == NullFace::Clearable ==> r->0@ == "Set NULL"@,
        face == NullFace::Absent ==> r->0@ == "Set value"@,
{
    match face {
        NullFace::Control => None,
        NullFace::Clearable => Some("Set NULL"),
        NullFace::Absent => Some("Set value"),
    }
}

/// The button beside a field was pressed: it has a value where it had none, or none where it had
/// one. The text stays, so that it is there again.
pub fn null_pressed(nullable: bool, f: &mut Field)
    ensures
        *final(f) == if nullable {
            (Field { is_null: !old(f).is_null, ..*old(f) })
        } else {
            *old(f)
        },
{
    if nullable {
        f.is_null = !f.is_null;
    }
}

/// A value that is taken away and given back is the one that was there.
pub proof fn a_value_taken_away_comes_back(f: Field)
    requires
        !f.is_null,
    ensures
        field_value(Field { is_null: true, ..f }).value is None,
        field_value(Field { is_null: false, ..Field { is_null: true, ..f } }) == field_value(f),
{
}

/// What a field's row holds, and whether it may grow beyond one line: a tree does, and chips that
/// wrap.
pub fn field_row(ty: &str, typed: CellEditor, editable: bool) -> (r: (FieldKind, bool))
    ensures
        r.0 == if !editable {
            FieldKind::ReadOnly
        } else if names_json(ty@) {
            FieldKind::Json
        } else {
            FieldKind::Typed(typed)
        },
        r.1 == (names_json(ty@) || typed == CellEditor::Chips),
{
    let json: bool = is_json_type(ty);
    let kind: FieldKind = if !editable {
        FieldKind::ReadOnly
    } else if json {
        FieldKind::Json
    } else {
        FieldKind::Typed(typed)
    };
    (kind, json || typed == CellEditor::Chips)
}

/// What the panel's head shows.
pub struct PanelHead {
    pub title: String,
    pub can_prev: bool,
    pub can_next: bool,
    pub focus: Option<usize>,
}

/// The panel's title: the row's number as it is shown, and its table.
pub open spec fn title_text(row_no: nat, src: Option<TableSource>) -> Seq<char> {
    match src {
        Some(s) => if s.table@.len() > 0 {
            "Row "@ + digits(row_no) + "  ·  "@ + shown_table(s.schema, s.table)
        } else {
            "Row "@ + digits(row_no)
        },
        None => "Row "@ + digits(row_no),
    }
}

/// What the panel's head shows for a row; nothing while the panel is closed. The first field that
/// can be edited has the keyboard, and without one there is nothing to save.
pub fn edit_row_panel(gs: &GridState, src: &Option<TableSource>) -> (r: Option<PanelHead>)
    ensures
        r is Some <==> gs.edit_row_open && gs.edit_row_di is Some,
        r matches Some(h) ==> {
            let at = gs.shown_at(gs.edit_row_di->0);
            &&& h.title@ == title_text((at + 1) as nat, *src)
            &&& h.can_prev == (at > 0)
            &&& h.can_next == (at + 1 < gs.rs.rows@.len())
            &&& h.focus == first_editable(gs.model, 0, gs.rs.columns@.len() as int)
        },
{
    if !gs.edit_row_open {
        return None;
    }
    let di: usize = match gs.edit_row_di {
        Some(di) => di,
        None => return None,
    };
    let at: usize = gs.edit_row_disp(di);
    let mut title: String = "Row ".to_owned();
    title.append(decimal(at as u128 + 1).as_str());
    if let Some(s) = src {
        if !s.table.as_str().is_empty() {
            title.append("  ·  ");
            title.append(table_display(&s.schema, &s.table).as_str());
        }
    }
    let nrows: usize = gs.rs.row_count();
    Some(
        PanelHead {
            title,
            can_prev: at > 0,
            can_next: nrows > 0 && at < nrows - 1,
            focus: gs.editable_from(0),
        },
    )
}

/// The chevrons of the panel lead somewhere exactly where they are enabled.
pub proof fn chevrons_lead_somewhere(gs: GridState, di: usize)
    ensures
        gs.stepped(di, false) is Some <==> gs.shown_at(di) > 0,
        gs.stepped(di, true) is Some <==> gs.shown_at(di) + 1 < gs.rs.rows@.len(),
{
}

/// How tall the panel may be in an area of this height: seven tenths of it, but enough for a few
/// fields, and never so much that the toolbar has no room.
pub open spec fn panel_cap(h: int, least: int, toolbar: int) -> int {
    let share = h * 7 / 10;
    let floor = if share < least {
        least
    } else {
        share
    };
    let room = if h > toolbar {
        h - toolbar
    } else {
        0
    };
    if floor < room {
        floor
    } else {
        room
    }
}

/// How tall the panel may be, in whole pixels.
pub fn edit_row_max(h: u32) -> (r: u64)
    ensures
        r == panel_cap(h as int, 140, 60),
{
    let share: u64 = h as u64 * 7 / 10;
    let floor: u64 = if share < 140 {
        140
    } else {
        share
    };
    let room: u64 = if h > 60 {
        h as u64 - 60
    } else {
        0
    };
    if floor < room {
        floor
    } else {
        room
    }
}

/// A field shows what its column of the row holds, whatever is staged elsewhere, and is written as it
/// was shown where nothing is changed.
pub proof fn a_field_shows_what_the_row_holds(gs: GridState, di: usize, ci: int, c: ColSpec, f: Field)
    requires
        0 <= ci < gs.rs.columns@.len() <= usize::MAX,
        col_matches(gs, di, ci, c),
        field_matches(c, ci, f),
    ensures
        crate::staged::cell_holds(gs.rs, At { row: di, col: ci as usize }, field_value(f).value),
        field_value(f).ci == ci,
        c.name@ == gs.rs.columns@[ci].name@,
        c.editable <==> ci < gs.model.editable@.len() && gs.model.editable@[ci],
        c.nullable <==> gs.rs.columns@[ci].origin is Some && !gs.rs.columns@[ci].origin->0.not_null,
{
}

/// A field without a value is written as none, and any other by its text, also an empty one.
pub proof fn a_field_is_written_as_it_stands(f: Field)
    ensures
        f.is_null ==> field_value(f).value is None,
        !f.is_null ==> field_value(f).value == Some(f.buf),
        field_value(f).ci == f.ci,
{
}

/// The panel is no taller than seven tenths of the area, unless that is too little, and always leaves
/// the toolbar its room.
pub proof fn the_panel_leaves_room(h: int, least: int, toolbar: int)
    requires
        0 <= h,
        0 <= least,
        0 <= toolbar,
    ensures
        ({
            let cap = panel_cap(h, least, toolbar);
            &&& 0 <= cap
            &&& toolbar <= h ==> cap + toolbar <= h
            &&& toolbar > h ==> cap == 0
            &&& cap > least ==> 10 * cap <= 7 * h
            &&& 10 * cap + 10 <= 7 * h ==> cap + toolbar >= h
            &&& cap < least ==> cap + toolbar == h || cap == 0
        }),
{
}

/// The panel's title says which row it shows, by the number in the gutter, and of which table.
pub proof fn the_panels_title_names_the_row(row_no: nat, src: Option<TableSource>)
    ensures
        src is None ==> title_text(row_no, src) == "Row "@ + digits(row_no),
        src is Some && src->0.table@.len() == 0 ==> title_text(row_no, src) == "Row "@ + digits(row_no),
        src is Some && src->0.table@.len() > 0 ==> title_text(row_no, src) == "Row "@ + digits(row_no)
            + "  ·  "@ + shown_table(src->0.schema, src->0.table),
{
}

/// A field without a value starts empty, one with a value starts with it, and neither is open as a tree.
pub proof fn a_field_starts_with_its_value(c: ColSpec, ci: int, f: Field)
    requires
        field_matches(c, ci, f),
    ensures
        c.value is None ==> f.is_null && f.buf@.len() == 0,
        c.value is Some ==> !f.is_null && f.buf@ == c.value->0@,
        f.tree is None,
{
}

} // verus!
