use schemaic_ui::assistant::{
    attach_extent, attach_label, attach_summary, selection_label, FillResult, NamedValue, Pulse,
    SeedResult, SelRead,
    SEED_ROW_CAP,
};
use schemaic_ui::bars::Bar;
use schemaic_ui::cell::{
    cell_editor, cell_fill, cell_fills, cell_ink, cell_inset, cell_menu, cell_shape, cell_text,
    copy_formatted, copy_text, fitting_editor, row_shown_at, CellEditor, CellFill, CellInk, CellInset,
    CellMenu, CellShape, PressOutcome, RowRef,
};
use schemaic_ui::columns::{
    build_follow_specs, column_editors, column_key_map, follow_values, format_key, key_roles,
    seed_formats, set_format, source_table, ColKey, ColumnFormat, ColumnInfo, DbNode, ForeignKeyInfo,
    FormatRule, IndexInfo, NamedCol, TableInfo, TableSource, TypeSource,
};
use schemaic_ui::geometry::Metrics;
use schemaic_ui::headers::{
    copy_submenu, format_submenu, gutter_label, header_fill, header_menu, header_right, FormatChoice,
    HeaderFill,
};
use schemaic_ui::json::{
    is_json_type, json_label, json_path_hidden, json_summary, push_error, toggle_collapsed, Field,
    JsonEdit, Leaf, PathSeg, RowKind,
};
use schemaic_ui::keymap::{At, KeyMap};
use schemaic_ui::menu::{Act, Entry};
use schemaic_ui::model::{
    Cell, CellTag, Column, EditModel, EditTable, Number, Origin, ResultSet,
};
use schemaic_ui::row_panel::{
    edit_row_max, edit_row_panel, field_row, field_sigs, field_state, flush_fields, null_button,
    null_pressed, nullable_field, row_colspecs, FieldKind, NullFace,
};
use schemaic_ui::selection::{Span, TopBars};
use schemaic_ui::sort::SortState;
use schemaic_ui::state::{GridQuery, GridState};
use schemaic_ui::text::{decimal, join, one_line, parse_count, trimmed, truncate};
use schemaic_ui::toolbar::{
    ai_menu, all_rows_size, arena_note, capped_names, commit_ctrl, export_menu, export_scope, format_menu, icon_tip,
    is_streaming, keyboard_return, offers_more, sort_caveat, stats_line, ExportFormat, ExportScope,
    IconPress, KeyboardReturn, MenuIcon, Popup, StripIcon,
    TB_ADD, TB_AI, TB_CLONE, TB_COMMIT, TB_COPY, TB_DELETE, TB_DISCARD, TB_SAVE,
};
use schemaic_ui::view::Panel;

fn num(n: i64) -> Cell {
    Cell { tag: CellTag::Int, text: n.to_string(), number: Number::At(n) }
}

fn txt(s: &str) -> Cell {
    Cell { tag: CellTag::Str, text: s.to_string(), number: Number::Absent }
}

fn null() -> Cell {
    Cell { tag: CellTag::Null, text: "NULL".to_string(), number: Number::Absent }
}

fn some(s: &str) -> Option<String> {
    Some(s.to_string())
}

fn at(row: usize, col: usize) -> At {
    At { row, col }
}

fn plain(name: &str, ty: &str) -> Column {
    Column { name: name.to_string(), sql_type: ty.to_string(), numeric: false, origin: None }
}

fn origin_col(name: &str, ty: &str, db: &str, ns: Option<&str>, table: &str) -> Column {
    Column {
        name: name.to_string(),
        sql_type: ty.to_string(),
        numeric: false,
        origin: Some(Origin {
            database: db.to_string(),
            schema: ns.map(str::to_string),
            table: table.to_string(),
            column: name.to_string(),
            auto_increment: false,
            not_null: false,
            no_default: false,
        }),
    }
}

fn result(columns: Vec<Column>, rows: Vec<Vec<Cell>>) -> ResultSet {
    ResultSet { columns, rows, affected: None, elapsed_ms: 0, truncated: false }
}

fn grid() -> GridState {
    let mut id = origin_col("id", "INT", "shop", None, "people");
    if let Some(o) = &mut id.origin {
        o.auto_increment = true;
        o.not_null = true;
    }
    let mut name = origin_col("name", "VARCHAR", "shop", None, "people");
    if let Some(o) = &mut name.origin {
        o.not_null = true;
        o.no_default = true;
    }
    let rs = result(
        vec![id, name, origin_col("note", "TEXT", "shop", None, "people")],
        vec![
            vec![num(1), txt("Ada"), null()],
            vec![num(2), txt("Bob"), txt("x")],
            vec![num(3), txt("Cy"), txt("y")],
        ],
    );
    let metrics = Metrics {
        pixel: 1,
        char_w: 7,
        pad_h: 10,
        num_pad_right: 14,
        divider: 1,
        key_icon_w: 22,
        min_col_w: 48,
        max_col_w_init: 420,
        max_col_w_fit: 900,
        cell_w: 190,
        row_h: 26,
    };
    let panel = Panel {
        bar: Bar {
            batch_err: None,
            commit_err: None,
            commit_note: None,
            view_err: None,
            commit_wait: None,
            exporting: None,
            tab_id: 0,
        },
        query: GridQuery { base_sql: None, filter: String::new(), sort: Vec::new() },
        top: TopBars { find_open: false, goto_open: false },
        find_query: String::new(),
        goto_query: String::new(),
    };
    let mut gs = GridState::new(rs, &KeyMap::<usize, ()>::new(), metrics, panel, true);
    gs.sort_rows(None);
    gs.set_model(
        EditModel {
            tables: vec![EditTable {
                database: "shop".to_string(),
                schema: None,
                table: "people".to_string(),
                key_cols: vec![0],
            }],
            table_of: vec![Some(0), Some(0), Some(0)],
            editable: vec![false, true, true],
            target: Some(0),
        },
        false,
    );
    gs
}

fn labels(menu: &[Entry]) -> Vec<String> {
    menu.iter()
        .map(|e| match e {
            Entry::Separator => "-".to_string(),
            Entry::Item(_, l) => l.clone(),
            Entry::Marked(_, l) => format!("*{l}"),
            Entry::Dimmed(_, l) => format!("({l})"),
        })
        .collect()
}

#[test]
fn a_columns_control_comes_from_its_declared_type_not_the_wire_one() {
    let rs = result(
        vec![
            origin_col("rating", "CHAR", "sakila", None, "film"),
            origin_col("active", "TINYINT", "sakila", None, "film"),
        ],
        vec![vec![txt("PG"), num(1)]],
    );
    let nodes = vec![node(
        "sakila",
        Some(table(None, "film", &[("rating", "enum('G','PG')"), ("active", "tinyint(1)")])),
    )];
    let types = column_editors(&rs, &nodes);
    assert!(matches!(&types[0], TypeSource::Declared(t, 0) if t == "enum('G','PG')"));
    assert!(matches!(&types[1], TypeSource::Declared(t, 0) if t == "tinyint(1)"));
}

fn table(ns: Option<&str>, name: &str, cols: &[(&str, &str)]) -> TableInfo {
    TableInfo {
        name: name.to_string(),
        schema: ns.map(str::to_string),
        columns: cols
            .iter()
            .map(|(n, ty)| ColumnInfo {
                name: n.to_string(),
                sql_type: ty.to_string(),
                primary_key: false,
                nullable: true,
            })
            .collect(),
        indexes: Vec::new(),
        foreign_keys: Vec::new(),
        engine: None,
    }
}

fn node(database: &str, t: Option<TableInfo>) -> DbNode {
    DbNode { database: database.to_string(), tables: t.map(|t| vec![t]) }
}

#[test]
fn a_column_with_nothing_to_resolve_against_falls_back_to_the_wire_type() {
    let rs = result(
        vec![
            plain("now()", "DATETIME"),
            origin_col("created", "DATETIME", "app", None, "orders"),
            origin_col("name", "VARCHAR", "app", None, "orders"),
        ],
        vec![vec![null(), null(), null()]],
    );
    let types = column_editors(&rs, &vec![node("app", None)]);
    assert!(matches!(&types[0], TypeSource::Wire(t) if t == "DATETIME"));
    assert!(matches!(&types[1], TypeSource::Wire(t) if t == "DATETIME"));
    assert!(matches!(&types[2], TypeSource::Wire(t) if t == "VARCHAR"));
}

#[test]
fn a_same_named_table_in_another_namespace_is_not_the_source() {
    let rs = result(
        vec![origin_col("state", "TEXT", "app", Some("sales"), "orders")],
        vec![vec![txt("ok")]],
    );
    let nodes = vec![node("app", Some(table(Some("public"), "orders", &[("state", "mood")])))];
    let types = column_editors(&rs, &nodes);
    assert_eq!(types.len(), 1);
    assert!(matches!(&types[0], TypeSource::Wire(t) if t == "TEXT"));
}

#[test]
fn a_value_the_control_cannot_represent_keeps_the_text_field() {
    // A boolean's control holds `1` and not `7`.
    assert_eq!(fitting_editor(CellEditor::Bool, false), CellEditor::Text);
    assert_eq!(fitting_editor(CellEditor::Bool, true), CellEditor::Bool);
}

#[test]
fn an_empty_field_still_gets_its_control() {
    // Nothing chosen yet fits every control.
    assert_eq!(fitting_editor(CellEditor::Enum, true), CellEditor::Enum);
    assert_eq!(fitting_editor(CellEditor::Date, true), CellEditor::Date);
}

#[test]
fn a_date_cell_keeps_its_field_and_gets_a_calendar() {
    assert_eq!(cell_shape(CellEditor::Date, true), CellShape::Calendar(CellEditor::Date));
    assert_eq!(cell_shape(CellEditor::DateTime, true), CellShape::Calendar(CellEditor::DateTime));
    // A new row's blank cell: nothing chosen yet fits every control, so the calendar is there.
    let mut gs = grid();
    gs.add_new_row();
    gs.start_edit(at(3, 2));
    assert_eq!(gs.edit_buf, "");
    let fits = gs.edit_buf.is_empty();
    assert_eq!(cell_shape(CellEditor::Date, fits), CellShape::Calendar(CellEditor::Date));
}

#[test]
fn a_date_no_calendar_can_show_keeps_the_plain_field() {
    assert_eq!(cell_shape(CellEditor::Date, false), CellShape::Text);
    assert_eq!(cell_shape(CellEditor::DateTime, false), CellShape::Text);
}

#[test]
fn only_a_picker_takes_the_whole_cell() {
    let fills = |e: CellEditor, fits: bool| cell_fills(cell_shape(e, fits));
    assert!(fills(CellEditor::Bool, true));
    assert!(fills(CellEditor::Enum, true));
    assert!(fills(CellEditor::Chips, true));
    assert!(!fills(CellEditor::Date, true));
    assert!(!fills(CellEditor::DateTime, true));
    assert!(!fills(CellEditor::Text, true));
    assert!(!fills(CellEditor::Bool, false));
}

#[test]
fn a_staged_null_does_not_paint_like_a_staged_word_null() {
    let sql_null: Option<Option<String>> = Some(None);
    let the_word: Option<Option<String>> = Some(some("NULL"));
    assert_ne!(
        cell_ink(sql_null.as_ref(), false, false, false),
        cell_ink(the_word.as_ref(), false, false, false),
        "a staged NULL and a staged \"NULL\" are the two writes this cell could make"
    );
    assert_eq!(cell_ink(sql_null.as_ref(), false, false, false), CellInk::StagedNull);
    assert_eq!(cell_ink(the_word.as_ref(), false, false, false), CellInk::Staged);
    let other: Option<Option<String>> = Some(some("Ada"));
    assert_eq!(cell_ink(other.as_ref(), false, false, false), CellInk::Staged);
    assert_eq!(cell_ink(the_word.as_ref(), true, true, true), CellInk::Staged);
}

#[test]
fn an_unstaged_cell_keeps_the_weighting_it_always_had() {
    assert_eq!(cell_ink(None, true, false, false), CellInk::Absent);
    assert_eq!(cell_ink(None, false, true, false), CellInk::Absent);
    assert_eq!(cell_ink(None, true, false, true), CellInk::Absent);
    assert_eq!(cell_ink(None, false, false, true), CellInk::Fk);
    assert_eq!(cell_ink(None, false, false, false), CellInk::Plain);
}

fn table_with(cols: &[(&str, bool)], indexes: Vec<IndexInfo>) -> TableInfo {
    TableInfo {
        name: "t".to_string(),
        schema: None,
        columns: cols
            .iter()
            .map(|(n, pk)| ColumnInfo {
                name: n.to_string(),
                sql_type: String::new(),
                primary_key: *pk,
                nullable: true,
            })
            .collect(),
        indexes,
        foreign_keys: Vec::new(),
        engine: None,
    }
}

fn index(name: &str, cols: &[&str], foreign: bool) -> IndexInfo {
    IndexInfo {
        columns: cols.iter().map(|c| c.to_string()).collect(),
        primary: name == "PRIMARY",
        foreign,
    }
}

fn named(pairs: &[(&str, usize)]) -> Vec<NamedCol> {
    pairs.iter().map(|(n, ci)| NamedCol { name: n.to_string(), ci: *ci }).collect()
}

#[test]
fn key_roles_marks_the_result_column_a_key_landed_in() {
    let t = table_with(
        &[("id", true), ("owner_id", false)],
        vec![index("fk_owner", &["owner_id"], true)],
    );
    let roles = key_roles(&t, &named(&[("owner_id", 0), ("id", 1)]));
    assert_eq!(roles.get(0), Some(&ColKey::Foreign));
    assert_eq!(roles.get(1), Some(&ColKey::Primary));
}

#[test]
fn key_roles_skips_a_key_column_that_is_not_in_the_result() {
    let t = table_with(&[("customerNumber", true)], Vec::new());
    assert_eq!(key_roles(&t, &Vec::new()).len(), 0);
}

#[test]
fn key_roles_ranks_primary_over_foreign_over_index() {
    let t = table_with(
        &[("id", true), ("owner_id", false), ("email", false)],
        vec![
            index("PRIMARY", &["id"], false),
            index("ix_owner", &["owner_id"], false),
            index("fk_owner", &["owner_id"], true),
            index("ix_email", &["email"], false),
        ],
    );
    let roles = key_roles(&t, &named(&[("id", 0), ("owner_id", 1), ("email", 2)]));
    assert_eq!(roles.get(0), Some(&ColKey::Primary), "PK is not downgraded");
    assert_eq!(roles.get(1), Some(&ColKey::Foreign), "FK beats plain index");
    assert_eq!(roles.get(2), Some(&ColKey::Index));
}

#[test]
fn key_roles_ignores_a_multi_column_index() {
    let t = table_with(
        &[("a", false), ("b", false)],
        vec![index("ix_ab", &["a", "b"], false)],
    );
    assert_eq!(key_roles(&t, &named(&[("a", 0), ("b", 1)])).len(), 0);
}

#[test]
fn a_foreign_index_is_not_downgraded_by_a_later_one() {
    let t = table_with(
        &[("a", false)],
        vec![index("fk", &["a"], true), index("ix", &["a"], false)],
    );
    assert_eq!(key_roles(&t, &named(&[("a", 0)])).get(0), Some(&ColKey::Foreign));
}

#[test]
fn keys_are_looked_up_in_the_source_table() {
    let src = Some(TableSource {
        database: "app".to_string(),
        schema: some("sales"),
        table: "t".to_string(),
    });
    let mut t = table_with(&[("id", true)], Vec::new());
    t.schema = some("sales");
    let by_name = named(&[("id", 2)]);
    assert_eq!(column_key_map(&vec![node("app", None)], &src, &by_name).len(), 0);
    let nodes = vec![node("other", None), node("app", Some(t))];
    assert_eq!(column_key_map(&nodes, &src, &by_name).get(2), Some(&ColKey::Primary));
    assert_eq!(column_key_map(&nodes, &None, &by_name).len(), 0);
    assert_eq!(source_table(&src), some("app.sales.t"));
    assert_eq!(source_table(&None), None);
}

#[test]
fn a_foreign_key_is_followed_where_all_its_columns_are_shown() {
    let mut t = table_with(&[("a", false), ("b", false), ("c", false)], Vec::new());
    let fk = |cols: &[&str]| ForeignKeyInfo {
        columns: cols.iter().map(|c| c.to_string()).collect(),
        ref_schema: None,
        ref_table: "r".to_string(),
        ref_columns: Vec::new(),
    };
    t.foreign_keys = vec![fk(&["a"]), fk(&["b", "missing"]), fk(&["c", "a"])];
    let (map, specs) = build_follow_specs(&t, &named(&[("a", 4), ("b", 5), ("c", 6)]));
    assert_eq!(specs.len(), 2);
    let of = |ci: usize| map.get(ci).map(|i| specs[*i].fk);
    assert_eq!(of(4), Some(2), "the last one it belongs to");
    assert_eq!(of(5), None);
    assert_eq!(of(6), Some(2));
    assert_eq!(specs[1].value_cols, vec![6, 4]);
    let rs = result(
        (0..7).map(|i| plain(&format!("c{i}"), "INT")).collect(),
        vec![(0..7).map(|i| if i == 6 { null() } else { num(i) }).collect()],
    );
    assert_eq!(follow_values(&rs, 0, &specs[1]), vec![None, some("4")]);
    assert_eq!(follow_values(&rs, 3, &specs[1]), vec![None, None]);
}

#[test]
fn a_format_is_saved_for_the_column_and_found_wherever_it_is_shown() {
    let raw = ColumnFormat { choice: 0 };
    let stamp = ColumnFormat { choice: 3 };
    let rs = result(
        vec![
            origin_col("at", "INT", "app", Some("sales"), "orders"),
            plain("at", "INT"),
            origin_col("at", "INT", "app", Some("public"), "orders"),
        ],
        vec![],
    );
    let key = format_key(&rs, 0).unwrap();
    assert_eq!((key.table.as_str(), key.column.as_str()), ("sales.orders", "at"));
    assert_eq!(format_key(&rs, 2).unwrap().table, "orders");
    assert!(format_key(&rs, 1).is_none());
    assert!(format_key(&rs, 8).is_none());
    let defaults = vec![raw, raw, raw];
    let mut rules: Vec<FormatRule> = Vec::new();
    let mut formats = seed_formats(&rs, 1, &rules, &defaults);
    assert_eq!(formats, vec![raw, raw, raw]);
    assert!(set_format(&rs, &mut formats, &mut rules, 1, 0, stamp));
    assert_eq!(formats, vec![stamp, raw, raw]);
    assert!(!set_format(&rs, &mut formats, &mut rules, 1, 1, stamp), "no table to save it for");
    assert_eq!(rules.len(), 1);
    assert_eq!(seed_formats(&rs, 1, &rules, &defaults), vec![stamp, raw, raw]);
    assert_eq!(seed_formats(&rs, 2, &rules, &defaults), vec![raw, raw, raw]);
    set_format(&rs, &mut formats, &mut rules, 1, 0, ColumnFormat { choice: 5 });
    assert_eq!(rules.len(), 1, "in place of the one before");
    assert_eq!(rules[0].format.choice, 5);
}

fn m(i: usize) -> PathSeg {
    PathSeg::Member(i)
}

#[test]
fn collapsing_the_json_root_hides_its_members() {
    let collapsed: Vec<Vec<PathSeg>> = vec![vec![]];
    assert!(!json_path_hidden(&vec![], &collapsed), "the root renders itself");
    assert!(json_path_hidden(&vec![m(0)], &collapsed));
    assert!(json_path_hidden(&vec![m(0), PathSeg::Index(0)], &collapsed));
}

#[test]
fn collapsing_a_nested_json_container_hides_only_its_own_subtree() {
    let collapsed: Vec<Vec<PathSeg>> = vec![vec![m(0)]];
    assert!(!json_path_hidden(&vec![], &collapsed));
    assert!(!json_path_hidden(&vec![m(0)], &collapsed));
    assert!(!json_path_hidden(&vec![m(1)], &collapsed));
    assert!(json_path_hidden(&vec![m(0), m(3)], &collapsed));
    assert!(json_path_hidden(&vec![m(0), m(3), PathSeg::Index(2)], &collapsed));
}

#[test]
fn nothing_is_hidden_when_nothing_is_collapsed() {
    let collapsed: Vec<Vec<PathSeg>> = Vec::new();
    assert!(!json_path_hidden(&vec![], &collapsed));
    assert!(!json_path_hidden(&vec![m(0), m(1)], &collapsed));
}

#[test]
fn a_container_is_collapsed_and_opened_again() {
    let mut c: Vec<Vec<PathSeg>> = Vec::new();
    toggle_collapsed(&mut c, vec![m(1)]);
    toggle_collapsed(&mut c, vec![]);
    assert!(json_path_hidden(&vec![m(0)], &c));
    toggle_collapsed(&mut c, vec![]);
    assert!(!json_path_hidden(&vec![m(0)], &c));
    assert!(json_path_hidden(&vec![m(1), m(0)], &c));
}

#[test]
fn a_row_of_the_tree_is_labelled_by_its_key_or_its_place() {
    assert_eq!(json_label(&some("name"), &vec![m(0)]), some("name:"));
    assert_eq!(json_label(&None, &vec![m(0), PathSeg::Index(12)]), some("[12]"));
    assert_eq!(json_label(&None, &vec![]), None);
    assert_eq!(json_label(&None, &vec![m(0)]), None);
    assert_eq!(json_summary(RowKind::Object(3)), some("{3}"));
    assert_eq!(json_summary(RowKind::Array(0)), some("[0]"));
    assert_eq!(json_summary(RowKind::Scalar), None);
}

#[test]
fn a_json_column_is_told_by_its_type() {
    assert!(is_json_type(" JSON "));
    assert!(is_json_type("jsonb"));
    assert!(!is_json_type("json[]"));
    assert!(!is_json_type(""));
}

fn field(ci: usize, value: &str) -> Field {
    Field { ci, buf: value.to_string(), is_null: false, tree: None }
}

fn open_leaf(ci: usize, value: &str) -> Field {
    Field {
        tree: Some(JsonEdit { editing: Some(vec![m(0)]), edit_buf: "2".to_string(), err: None }),
        ..field(ci, value)
    }
}

fn values(fields: &Vec<Field>) -> Vec<(usize, Option<String>)> {
    field_state(fields).into_iter().map(|f| (f.ci, f.value)).collect()
}

#[test]
fn a_pending_field_edit_reaches_the_buffer_before_the_write_is_assembled() {
    let mut fields = vec![open_leaf(0, "{\"a\":1}"), field(1, "x")];
    assert!(flush_fields(
        &mut fields,
        vec![Leaf::Changed("{\"a\":2}".to_string()), Leaf::Unchanged]
    ));
    assert_eq!(
        values(&fields),
        vec![(0, some("{\"a\":2}")), (1, some("x"))],
        "the write must see the typed value, not the one it replaced"
    );
}

#[test]
fn a_field_that_cannot_flush_stops_the_write() {
    let mut fields = vec![open_leaf(0, "{\"a\":1}"), open_leaf(1, "{}")];
    assert!(!flush_fields(
        &mut fields,
        vec![Leaf::Invalid("eof".to_string()), Leaf::Changed("{\"b\":1}".to_string())]
    ));
    assert_eq!(fields[0].tree.as_ref().unwrap().err, some("Invalid JSON: eof"));
    assert_eq!(fields[0].buf, "{\"a\":1}");
    assert_eq!(fields[1].buf, "{\"b\":1}", "every field flushes");
}

#[test]
fn fields_with_no_pending_editor_flush_trivially() {
    let mut fields = vec![field(0, "a"), field(1, "b")];
    assert!(flush_fields(&mut fields, vec![Leaf::Unchanged, Leaf::Unchanged]));
    assert_eq!(values(&fields), vec![(0, some("a")), (1, some("b"))]);
}

#[test]
fn looking_at_a_leaf_changes_nothing() {
    let mut f = open_leaf(0, "{ \"a\": 1 }");
    f.start_leaf(Leaf::Unchanged, vec![m(1)], "true".to_string());
    assert_eq!(f.buf, "{ \"a\": 1 }");
    assert_eq!(f.tree.as_ref().unwrap().editing, Some(vec![m(1)]));
    f.start_leaf(Leaf::Invalid("x".to_string()), vec![m(2)], "1".to_string());
    assert_eq!(f.tree.as_ref().unwrap().editing, Some(vec![m(1)]), "it stays on the wrong one");
    f.escape_leaf();
    assert_eq!(f.tree.as_ref().unwrap().err, None);
    let mut n = Field { is_null: true, ..field(0, "") };
    n.enable_json(false);
    assert_eq!((n.buf.as_str(), n.is_null), ("{}", false));
    let mut k = Field { is_null: true, ..field(0, "[1]") };
    k.enable_json(true);
    assert_eq!(k.buf, "[1]");
}

#[test]
fn an_error_of_the_tree_is_taken_back_only_while_it_stands() {
    let (mut pushed, mut bar) = (None, None);
    push_error(&some("bad"), &mut pushed, &mut bar);
    assert_eq!(bar, some("bad"));
    push_error(&None, &mut pushed, &mut bar);
    assert_eq!((pushed.clone(), bar.clone()), (None, None));
    push_error(&some("bad"), &mut pushed, &mut bar);
    bar = some("the write failed");
    push_error(&None, &mut pushed, &mut bar);
    assert_eq!(bar, some("the write failed"));
}

#[test]
fn a_panel_shows_a_row_field_by_field() {
    let mut gs = grid();
    let src = Some(TableSource {
        database: "shop".to_string(),
        schema: some("hr"),
        table: "people".to_string(),
    });
    assert!(edit_row_panel(&gs, &src).is_none());
    gs.sort_rows(Some((0, false)));
    gs.open_edit_row(2);
    let head = edit_row_panel(&gs, &src).unwrap();
    assert_eq!(head.title, "Row 1  ·  hr.people");
    assert!(!head.can_prev && head.can_next);
    assert_eq!(head.focus, Some(1));
    assert_eq!(edit_row_panel(&gs, &None).unwrap().title, "Row 1");
    let cols = row_colspecs(&gs, 0);
    assert_eq!(cols.len(), 3);
    assert!(!cols[0].editable && !cols[0].nullable);
    assert!(cols[2].editable && cols[2].nullable);
    let fields = field_sigs(&cols);
    assert_eq!(values(&fields), vec![(0, some("1")), (1, some("Ada")), (2, None)]);
    assert_eq!(field_row("jsonb", CellEditor::Text, true), (FieldKind::Json, true));
    assert_eq!(field_row("json", CellEditor::Text, false), (FieldKind::ReadOnly, true));
    assert_eq!(
        field_row("set('a')", CellEditor::Chips, true),
        (FieldKind::Typed(CellEditor::Chips), true)
    );
    assert_eq!(field_row("int", CellEditor::Text, true), (FieldKind::Typed(CellEditor::Text), false));
    assert_eq!(edit_row_max(1000), 700);
    assert_eq!(edit_row_max(180), 120);
    assert_eq!(edit_row_max(210), 147);
    assert_eq!(edit_row_max(40), 0);
}

#[test]
fn a_cell_shows_what_is_staged_or_what_the_server_will_do() {
    let mut gs = grid();
    assert_eq!(cell_text(&gs, RowRef::Data(0), 1, "Ada"), "Ada");
    gs.stage(at(0, 1), None);
    assert_eq!(cell_text(&gs, RowRef::Data(0), 1, "Ada"), "NULL");
    gs.stage(at(0, 1), some("one\r\ntwo\tthree"));
    assert_eq!(cell_text(&gs, RowRef::Data(0), 1, "Ada"), "one  two three");
    let long = "x".repeat(250);
    assert_eq!(
        cell_text(&gs, RowRef::Data(1), 1, &long),
        format!("{}…", "x".repeat(200))
    );
    gs.add_new_row();
    assert_eq!(row_shown_at(&gs, 3), RowRef::New(0));
    assert_eq!(cell_text(&gs, RowRef::New(0), 0, ""), "<auto>");
    assert_eq!(cell_text(&gs, RowRef::New(0), 1, ""), "<required>");
    assert_eq!(cell_text(&gs, RowRef::New(0), 2, ""), "<null>");
    if let Some(o) = &mut gs.rs.columns[2].origin {
        o.not_null = true;
    }
    assert_eq!(cell_text(&gs, RowRef::New(0), 2, ""), "<default>");
    gs.model.editable = vec![];
    assert_eq!(cell_text(&gs, RowRef::New(0), 2, ""), "");
    gs.stage_new(at(0, 2), some("n"));
    assert_eq!(cell_text(&gs, RowRef::New(0), 2, ""), "n");
}

#[test]
fn a_cell_is_filled_by_the_first_thing_that_holds_of_it() {
    let mut gs = grid();
    assert_eq!(cell_fill(&gs, at(0, 1), false), CellFill::Plain);
    assert_eq!(cell_fill(&gs, at(1, 1), false), CellFill::Striped);
    assert_eq!(cell_fill(&gs, at(1, 1), true), CellFill::Formatted);
    gs.anchor = Some(at(0, 0));
    gs.active = Some(at(1, 1));
    assert_eq!(cell_fill(&gs, at(0, 1), true), CellFill::Selected);
    assert_eq!(cell_fill(&gs, at(1, 1), true), CellFill::Active);
    gs.stage(at(1, 1), some("z"));
    assert_eq!(cell_fill(&gs, at(1, 1), true), CellFill::Staged);
    gs.start_edit(at(1, 1));
    assert_eq!(cell_fill(&gs, at(1, 1), true), CellFill::Editing);
    gs.toggle_delete(0);
    assert_eq!(cell_fill(&gs, at(0, 1), true), CellFill::Deleted);
    gs.add_new_row();
    assert_eq!(cell_fill(&gs, at(3, 1), true), CellFill::NewRow);
    gs.ai_gen_rows.insert(0, ());
    assert_eq!(cell_fill(&gs, at(3, 1), true), CellFill::Generating);
    gs.ai_gen.insert(at(2, 2), ());
    assert_eq!(cell_fill(&gs, at(2, 2), true), CellFill::Generating);
    assert_eq!(cell_inset(true, CellShape::Pick(CellEditor::Bool), true), CellInset::Bare);
    assert_eq!(cell_inset(false, CellShape::Pick(CellEditor::Bool), true), CellInset::Number);
    assert_eq!(cell_inset(true, CellShape::Text, false), CellInset::Text);
    assert_eq!(cell_editor(&vec![CellEditor::Date], 0), CellEditor::Date);
    assert_eq!(cell_editor(&vec![], 0), CellEditor::Text);
}

#[test]
fn a_press_selects_and_a_drag_extends() {
    let mut gs = grid();
    gs.bar.commit_err = some("old");
    assert_eq!(gs.cell_pressed(at(0, 0), true, false, false, false), PressOutcome::Focus);
    assert_eq!(gs.bar.commit_err, None);
    gs.cell_entered(at(1, 1));
    assert_eq!(gs.bounds(), Some(Span { r0: 0, c0: 0, r1: 1, c1: 1 }));
    gs.pointer_released();
    gs.cell_entered(at(2, 2));
    assert_eq!(gs.active, Some(at(1, 1)));
    gs.cell_menu_asked(at(0, 1));
    assert_eq!(gs.active, Some(at(1, 1)), "inside the selection");
    gs.cell_menu_asked(at(2, 2));
    assert_eq!((gs.active, gs.anchor), (Some(at(2, 2)), Some(at(2, 2))));
    assert_eq!(gs.cell_pressed(at(0, 1), true, true, false, true), PressOutcome::Follow);
    assert!(!gs.selecting);
    gs.start_edit(at(0, 1));
    assert_eq!(gs.cell_pressed(at(0, 1), true, true, false, true), PressOutcome::Focus);
    assert_eq!(gs.cell_pressed(at(0, 1), false, false, false, false), PressOutcome::Continue);
    gs.cell_double_clicked(at(1, 0));
    assert_eq!((gs.active, gs.selecting), (Some(at(1, 0)), false), "not editable");
    gs.cell_double_clicked(at(1, 1));
    assert_eq!(gs.edit_cell, Some(at(1, 1)));
}

#[test]
fn a_row_number_selects_rows() {
    let mut gs = grid();
    gs.add_new_row();
    assert_eq!(gutter_label(&gs, 0), "1");
    assert_eq!(gutter_label(&gs, 3), "*");
    gs.gutter_pressed(2, true, false);
    assert_eq!((gs.anchor, gs.active), (Some(at(2, 0)), Some(at(2, 2))));
    gs.gutter_entered(0);
    assert_eq!((gs.anchor, gs.active), (Some(at(2, 0)), Some(at(0, 2))));
    gs.pointer_released();
    gs.gutter_entered(1);
    assert_eq!(gs.active, Some(at(0, 2)));
    gs.gutter_pressed(1, true, true);
    assert_eq!(gs.bounds(), Some(Span { r0: 1, c0: 0, r1: 2, c1: 2 }));
    gs.gutter_menu_asked(2);
    assert_eq!(gs.selected_data_rows(2), vec![1, 2]);
    assert_eq!(gs.selected_data_rows(0), vec![0], "outside the selection");
    assert_eq!(
        labels(&gs.gutter_menu(2, true, "2 rows")),
        vec!["Copy", "-", "Duplicate 2 rows", "Delete 2 rows", "-", "Attach 2 rows to chat"]
    );
    gs.set_rows_deleted(&vec![1, 2], true);
    assert_eq!(
        labels(&gs.gutter_menu(2, false, "")),
        vec!["Copy", "-", "Duplicate 2 rows", "Undo delete"]
    );
    gs.gutter_menu_asked(0);
    assert_eq!(gs.bounds(), Some(Span { r0: 0, c0: 0, r1: 0, c1: 2 }));
    assert_eq!(
        labels(&gs.gutter_menu(0, false, "")),
        vec!["Copy", "-", "Duplicate row", "Delete row"]
    );
    assert_eq!(labels(&gs.gutter_menu(3, false, "")), vec!["Copy"], "a new row");
}

#[test]
fn a_header_is_sorted_where_the_result_can_be() {
    let mut gs = grid();
    let mut sort: SortState = None;
    assert!(!gs.header_clicked(1, &mut sort));
    assert_eq!(gs.header_cell(1, sort), Some(true));
    assert_eq!(gs.header_cell(0, sort), None);
    gs.query.base_sql = some("SELECT * FROM people");
    assert!(gs.header_clicked(2, &mut sort), "the statement is run again");
    assert_eq!(sort, Some((1, true)));
    assert_eq!(gs.header_cell(2, None), Some(true));
    assert_eq!(
        labels(&header_menu(&gs, 1, true)),
        vec!["Freeze", "Format as", "-", "Copy", "-", "AI summary"]
    );
    gs.toggle_frozen(1);
    assert_eq!(
        labels(&header_menu(&gs, 1, false)),
        vec!["Unfreeze", "Format as", "-", "Copy"]
    );
    assert_eq!(labels(&copy_submenu()), vec!["CSV", "JSON"]);
    assert!(matches!(copy_submenu()[1], Entry::Item(Act::CopyColumnJson, _)));
    assert!(header_right(true, false));
    assert!(!header_right(true, true) && !header_right(false, false));
    let choices = vec![
        FormatChoice { format: ColumnFormat { choice: 0 }, label: "None".to_string() },
        FormatChoice { format: ColumnFormat { choice: 1 }, label: "Timestamp".to_string() },
    ];
    let formats = vec![ColumnFormat { choice: 1 }];
    assert_eq!(labels(&format_submenu(&choices, &formats, 0)), vec!["None", "*Timestamp"]);
    assert_eq!(labels(&format_submenu(&choices, &formats, 5)), vec!["*None", "Timestamp"]);
    let span = Some(Span { r0: 0, c0: 1, r1: 0, c1: 2 });
    assert_eq!(header_fill(span, 2, formats[0]), HeaderFill::Selected);
    assert_eq!(header_fill(span, 0, formats[0]), HeaderFill::Formatted);
    assert_eq!(header_fill(None, 0, ColumnFormat { choice: 0 }), HeaderFill::Plain);
    assert_eq!(gs.column_named(&"note".to_string()), Some(2));
    assert_eq!(gs.column_named(&"nope".to_string()), None);
    gs.highlight_column(2);
    assert_eq!((gs.anchor, gs.active), (Some(at(2, 2)), Some(at(0, 2))));
}

#[test]
fn the_menu_of_a_cell_offers_what_can_be_done_to_it() {
    let mut gs = grid();
    gs.query.base_sql = some("SELECT * FROM people");
    let all = CellMenu {
        copies_selection: true,
        copy_label: "Copy selection",
        formatted: true,
        follows: true,
        may_attach: true,
        scope: "1 column",
    };
    assert_eq!(
        labels(&cell_menu(&gs, RowRef::Data(0), 2, &all)),
        vec![
            "Edit field",
            "Edit row",
            "Copy selection",
            "Copy formatted",
            "Paste",
            "-",
            "Filter by this value",
            "Exclude this value",
            "Follow relation",
            "Set to NULL",
            "-",
            "Duplicate row",
            "Delete row",
            "-",
            "AI summary",
            "Attach 1 column to chat"
        ]
    );
    gs.toggle_delete(0);
    let none = CellMenu {
        copies_selection: false,
        copy_label: "Copy",
        formatted: false,
        follows: false,
        may_attach: false,
        scope: "",
    };
    let menu = cell_menu(&gs, RowRef::Data(0), 1, &none);
    assert_eq!(
        labels(&menu),
        vec![
            "Edit row",
            "Copy",
            "-",
            "Filter by this value",
            "Exclude this value",
            "-",
            "Duplicate row",
            "Undo delete"
        ]
    );
    assert!(matches!(menu[1], Entry::Item(Act::CopyCell, _)));
    assert!(matches!(menu[7], Entry::Item(Act::SetDeleted(false), _)));
    gs.add_new_row();
    assert_eq!(
        labels(&cell_menu(&gs, RowRef::New(0), 1, &none)),
        vec!["Edit field", "Copy", "Paste"]
    );
    gs.set_to_null(RowRef::New(0), 2);
    assert_eq!(gs.staged.new_rows[0].get(2), Some(&None));
    gs.set_to_null(RowRef::Data(1), 2);
    assert_eq!(gs.staged.dirty.get(at(1, 2)), Some(&None));
    gs.set_to_null(RowRef::Data(0), 2);
    assert_eq!(gs.staged.dirty.get(at(0, 2)), None, "it had none");
}

#[test]
fn a_cell_is_copied_as_it_stands() {
    let mut gs = grid();
    gs.add_new_row();
    assert_eq!(copy_text(&gs, RowRef::Data(0), 1), "Ada");
    assert_eq!(copy_text(&gs, RowRef::Data(7), 1), "");
    assert_eq!(copy_text(&gs, RowRef::New(0), 1), "");
    assert_eq!(copy_formatted(&gs, RowRef::Data(0), 1, true, "ADA"), "ADA");
    assert_eq!(copy_formatted(&gs, RowRef::Data(0), 1, false, "ADA"), "Ada");
    gs.stage(at(0, 1), None);
    assert_eq!(copy_text(&gs, RowRef::Data(0), 1), "NULL");
    assert_eq!(copy_formatted(&gs, RowRef::Data(0), 1, true, "ADA"), "NULL");
}

#[test]
fn the_strip_says_what_was_read() {
    assert_eq!(
        stats_line(&some("shop"), "1,000 of ~4.2m rows", 1, 17),
        "shop · 1,000 of ~4.2m rows · 1 col · 17 ms"
    );
    assert_eq!(stats_line(&None, "3 rows", 12, 0), "3 rows · 12 cols · 0 ms");
    assert_eq!(arena_note(&vec![]), None);
    assert_eq!(
        arena_note(&vec!["a".to_string(), "b".to_string()]),
        some("· a, b too large to hold in full — later rows show blank")
    );
    assert_eq!(sort_caveat(true, true), Some("· sorted subset (capped) — not the full order"));
    assert_eq!(sort_caveat(true, false), None);
    assert!(offers_more(true, true) && !offers_more(true, false));
    assert_eq!(capped_names(&grid(), &vec![2, 9, 0]), vec!["note", "id"]);
    assert!(commit_ctrl(0, false).is_none());
    let one = commit_ctrl(1, false).unwrap();
    assert_eq!((one.label.as_str(), one.tip.as_str()), ("1", "Commit 1 change (Ctrl+Enter)"));
    assert_eq!(commit_ctrl(12, false).unwrap().tip, "Commit 12 changes (Ctrl+Enter)");
    assert_eq!(commit_ctrl(12, true).unwrap().label, "Committing…");
    let stops = [TB_COMMIT, TB_DISCARD, TB_ADD, TB_DELETE, TB_CLONE, TB_AI, TB_COPY, TB_SAVE];
    assert!(stops.windows(2).all(|w| w[0] < w[1]));
}

#[test]
fn the_row_actions_are_about_the_active_row() {
    let mut gs = grid();
    gs.sort_rows(Some((0, false)));
    assert_eq!(gs.row_actions(), (true, false));
    gs.delete_selected_row();
    assert_eq!(gs.staged.staged_count(), 0);
    gs.active = Some(at(0, 1));
    assert_eq!(gs.row_actions(), (true, true));
    gs.delete_selected_row();
    assert!(gs.staged.is_deleted(2));
    assert_eq!(gs.clone_selected_row(), Some(at(3, 1)));
    assert_eq!(gs.staged.new_rows[0].get(1), Some(&some("Cy")));
    gs.active = Some(at(3, 1));
    assert_eq!(gs.selected_data_row(), None, "a new row");
    assert_eq!(gs.clone_selected_row(), None);
}

#[test]
fn an_icon_closes_the_menu_it_opened() {
    let mut p = Popup { open: false, anchor: None };
    let mut copy = MenuIcon { x: 100, y: 10, size: 16 };
    let save = MenuIcon { x: 130, y: 10, size: 16 };
    assert_eq!(p.icon_pressed(&copy), IconPress::Raised);
    assert!(p.menu_is_mine(&copy) && !p.menu_is_mine(&save));
    p.follow_menu(&mut copy, 90, 12);
    assert!(p.menu_is_mine(&copy), "it moved along");
    assert_eq!((p.anchor.unwrap().left, p.anchor.unwrap().right, p.anchor.unwrap().bottom), (90, 106, 28));
    assert_eq!(p.icon_pressed(&save), IconPress::Raised, "in place of the other");
    assert!(!p.menu_is_mine(&copy));
    assert_eq!(p.icon_pressed(&save), IconPress::Closed);
    assert!(!p.open);
}

#[test]
fn the_assistants_icon_is_inert_while_it_is_busy() {
    let icon = MenuIcon { x: 100, y: 10, size: 16 };
    let mut p = Popup { open: false, anchor: None };
    assert_eq!(p.ai_icon_pressed(&icon, true), IconPress::Refused);
    assert_eq!(p, Popup { open: false, anchor: None });
    assert_eq!(p.ai_icon_pressed(&icon, false), IconPress::Raised);
    assert!(p.menu_is_mine(&icon));
    assert_eq!(p.ai_icon_pressed(&icon, true), IconPress::Closed, "it is not stuck open");
    assert!(!p.open);
    let other = MenuIcon { x: 130, y: 10, size: 16 };
    assert_eq!(p.icon_pressed(&other), IconPress::Raised);
    assert_eq!(p.ai_icon_pressed(&icon, true), IconPress::Refused);
    assert!(p.menu_is_mine(&other), "another's menu stays");
    assert_eq!(icon_tip(StripIcon::Ai, true), "Generating…");
    assert_eq!(icon_tip(StripIcon::Ai, false), "Generate rows with AI…");
    assert_eq!(icon_tip(StripIcon::Discard, true), "Discard all pending changes");
    assert_eq!(icon_tip(StripIcon::Add, false), "Add a row");
    assert_eq!(icon_tip(StripIcon::Delete, false), "Mark the selected row for deletion (Del)");
    assert_eq!(icon_tip(StripIcon::Clone, false), "Clone the selected row");
    assert_eq!(icon_tip(StripIcon::Copy, false), "Copy the results…");
    assert_eq!(icon_tip(StripIcon::Save, false), "Save the results to a file…");
}

#[test]
fn the_keyboard_goes_back_to_the_icon_it_pressed() {
    assert_eq!(keyboard_return(IconPress::Closed, true), KeyboardReturn::Now);
    assert_eq!(keyboard_return(IconPress::Raised, true), KeyboardReturn::OnClose);
    assert_eq!(keyboard_return(IconPress::Refused, true), KeyboardReturn::Never);
    assert_eq!(keyboard_return(IconPress::Closed, false), KeyboardReturn::Never);
    assert_eq!(keyboard_return(IconPress::Raised, false), KeyboardReturn::Never);
}

#[test]
fn all_rows_are_offered_only_where_they_can_be_read() {
    let m = export_menu(true, true, "1k", "All rows (~16k)").unwrap();
    assert_eq!(labels(&m), vec!["Fetched rows (1k)", "All rows (~16k)"]);
    assert!(export_menu(false, true, "", "").is_none());
    assert_eq!(all_rows_size(&some("16k")), "~16k");
    assert_eq!(all_rows_size(&None), "");
    assert!(export_menu(true, false, "", "").is_none());
    let all = export_scope(true, some("SELECT 1"));
    assert!(is_streaming(&all));
    assert!(matches!(all, ExportScope::AllRows(sql) if sql == "SELECT 1"));
    assert!(!is_streaming(&export_scope(true, None)));
    assert!(!is_streaming(&export_scope(false, some("SELECT 1"))));
    let formats = vec![ExportFormat { choice: 4, label: "CSV".to_string() }];
    assert!(matches!(&format_menu(&formats)[0], Entry::Item(Act::Export(4), l) if l == "CSV"));
}

#[test]
fn the_assistants_menu_says_where_it_is_off() {
    let mut gs = grid();
    assert_eq!(
        labels(&ai_menu(&gs, false, "Attach 3 rows to chat")),
        vec!["(AI actions send data — off for this connection)"]
    );
    assert_eq!(
        labels(&ai_menu(&gs, true, "Attach 3 rows to chat")),
        vec!["(AI fill value)", "AI insert row", "AI seed table…", "-", "Attach 3 rows to chat"]
    );
    gs.active = Some(at(0, 1));
    gs.order = Vec::new();
    assert_eq!(
        labels(&ai_menu(&gs, true, "Attach 0 rows to chat")),
        vec!["AI fill value", "AI insert row", "AI seed table…", "-", "(Attach 0 rows to chat)"]
    );
}

#[test]
fn the_assistant_is_sent_the_rest_of_the_row() {
    let mut gs = grid();
    gs.active = Some(at(0, 1));
    gs.stage(at(0, 2), some("staged"));
    assert!(gs.ai_fill_value(false).is_none());
    let q = gs.ai_fill_value(true).unwrap();
    assert_eq!((q.column.as_str(), q.table_idx), ("name", 0));
    let ctx: Vec<(String, Option<String>)> =
        q.row_context.iter().map(|v| (v.name.clone(), v.value.clone())).collect();
    assert_eq!(ctx, vec![("id".to_string(), some("1")), ("note".to_string(), some("staged"))]);
    assert!(gs.ai_busy && gs.ai_gen.contains(at(0, 1)));
    assert!(gs.ai_fill_value(true).is_none(), "one at a time");
    gs.ai_fill_done(q.at, q.row, FillResult::Value("Ada".to_string()));
    assert!(!gs.ai_busy && !gs.ai_gen.contains(at(0, 1)));
    assert_eq!(gs.staged.dirty.get(at(0, 1)), Some(&some("Ada")), "it always shows");
    gs.active = Some(at(1, 2));
    let q = gs.ai_fill_value(true).unwrap();
    gs.ai_fill_done(q.at, q.row, FillResult::Null);
    assert_eq!(gs.staged.dirty.get(at(1, 2)), Some(&None));
    let q = gs.ai_fill_value(true).unwrap();
    gs.ai_fill_done(q.at, q.row, FillResult::Failed("offline".to_string()));
    assert_eq!(gs.bar.commit_err, some("offline"));
    gs.active = Some(at(1, 0));
    assert!(gs.ai_fill_value(true).is_none(), "it cannot be edited");
}

fn nv(name: &str, value: Option<&str>) -> NamedValue {
    NamedValue { name: name.to_string(), value: value.map(str::to_string) }
}

#[test]
fn new_rows_are_filled_from_the_answer() {
    let mut gs = grid();
    gs.add_new_row();
    assert!(gs.ai_seed_rows(0, true).is_none());
    assert!(gs.ai_seed_rows(2, false).is_none());
    let q = gs.ai_seed_rows(2, true).unwrap();
    let cols: Vec<(&str, usize)> = q.cols.iter().map(|c| (c.name.as_str(), c.ci)).collect();
    assert_eq!(cols, vec![("name", 1), ("note", 2)]);
    assert_eq!((q.first, gs.staged.new_rows.len()), (1, 3));
    assert!(gs.ai_gen_rows.contains(2) && !gs.ai_gen_rows.contains(0));
    gs.ai_seed_done(
        &q,
        SeedResult::Rows(vec![vec![
            nv("name", Some("Eve")),
            nv("id", Some("9")),
            nv("note", None),
        ]]),
    );
    assert_eq!(gs.staged.new_rows[1].get(1), Some(&some("Eve")));
    assert_eq!(gs.staged.new_rows[1].get(2), Some(&None));
    assert_eq!(gs.staged.new_rows[1].get(0), None, "not asked for");
    assert_eq!(gs.staged.new_rows[2].len(), 0, "a short answer leaves it empty");
    assert!(!gs.ai_busy && gs.ai_gen_rows.len() == 0);
}

#[test]
fn an_answer_for_rows_that_are_gone_is_dropped() {
    let mut gs = grid();
    let q = gs.ai_seed_rows(1, true).unwrap();
    gs.discard_edits();
    gs.add_new_row();
    gs.stage_new(at(0, 1), some("typed"));
    gs.ai_seed_done(&q, SeedResult::Rows(vec![vec![nv("name", Some("Eve"))]]));
    assert_eq!(gs.staged.new_rows[0].get(1), Some(&some("typed")));
    let q = gs.ai_seed_rows(2, true).unwrap();
    gs.ai_seed_done(&q, SeedResult::Failed("quota".to_string()));
    assert_eq!(gs.staged.new_rows.len(), 1, "taken back");
    assert_eq!(gs.bar.commit_err, some("quota"));
}

#[test]
fn a_number_of_rows_is_kept_within_bounds() {
    let mut gs = grid();
    gs.open_seed_popover(false);
    assert!(!gs.seed_open);
    gs.open_seed_popover(true);
    assert!(gs.seed_open);
    assert_eq!(gs.seed_popover(), 10);
    assert!(!gs.seed_open);
    for (text, n) in [
        (" 7 ", 7),
        ("+8", 8),
        ("0", 1),
        ("", 1),
        ("abc", 1),
        ("-3", 1),
        ("999", SEED_ROW_CAP),
        ("99999999999999999999999999", 1),
    ] {
        gs.seed_buf = text.to_string();
        assert_eq!(gs.seed_popover(), n, "{text:?}");
    }
}

#[test]
fn a_selection_is_summed_up_as_it_is_drawn() {
    let mut gs = grid();
    gs.add_new_row();
    gs.stage_new(at(0, 1), some("New"));
    gs.stage(at(1, 1), None);
    gs.anchor = Some(at(0, 1));
    gs.active = Some(at(3, 1));
    match gs.selection_read() {
        SelRead::Column(ci, cells) => {
            assert_eq!(ci, 1);
            assert_eq!(cells, vec![some("Ada"), None, some("Cy"), some("New")]);
        }
        _ => panic!("a column"),
    }
    gs.anchor = Some(at(0, 0));
    gs.active = Some(at(3, 2));
    assert!(matches!(gs.selection_read(), SelRead::Rows(4)));
    gs.active = Some(at(0, 0));
    assert!(matches!(gs.selection_read(), SelRead::Nothing));
    assert_eq!(selection_label(&some("price"), "sum 3"), "price · sum 3");
    assert_eq!(selection_label(&None, "4 rows"), "4 rows");
}

#[test]
fn an_attachment_is_called_by_what_was_taken() {
    assert_eq!(attach_summary(1, 1, &None, 1), some("1 row × 1 column"));
    assert_eq!(
        attach_summary(200, 3, &some("shop.people"), 5000),
        some("200 rows × 3 columns from shop.people (the first 200 of 5000 selected)")
    );
    assert_eq!(attach_summary(0, 3, &None, 0), None);
    assert_eq!(attach_extent(Some(Span { r0: 2, c0: 1, r1: 5, c1: 3 }), 200), (4, 3));
    assert_eq!(attach_extent(Some(Span { r0: 0, c0: 0, r1: 999, c1: 0 }), 200), (200, 1));
    assert_eq!(attach_extent(None, 200), (1, 1));
    assert_eq!(attach_label(&grid(), 200), (3, 3));
    assert_eq!(attach_label(&grid(), 2), (2, 3));
    let mut gs = grid();
    assert_eq!(gs.attach_span(true, false), None);
    assert_eq!(gs.attach_span(true, true), Some(Span { r0: 0, c0: 0, r1: 2, c1: 2 }));
    assert_eq!(gs.attach_span(false, true), None);
    gs.active = Some(at(1, 1));
    assert_eq!(gs.attach_span(false, true), Some(Span { r0: 1, c0: 1, r1: 1, c1: 1 }));
}

#[test]
fn texts_are_cut_joined_and_read() {
    assert_eq!(truncate("abcdef", 6), "abcdef");
    assert_eq!(truncate("abcdefg", 6), "abcdef…");
    assert_eq!(truncate("äöü", 2), "äö…");
    assert_eq!(decimal(0), "0");
    assert_eq!(decimal(u128::MAX), u128::MAX.to_string());
    assert_eq!(join(&vec!["a".to_string(), "".to_string(), "c".to_string()], "/"), "a//c");
    assert_eq!(join(&vec![], "/"), "");
    assert_eq!(one_line("  a \n\n b\tc  "), "a b c");
    assert_eq!(one_line(" \t "), "");
    assert_eq!(trimmed("\u{2003} x y \u{85}"), "x y");
    assert_eq!(trimmed("   "), "");
    for s in ["", "+", "12", "+12", "007", "1_0", " 1", "１", "18446744073709551615"] {
        assert_eq!(parse_count(s), s.parse::<usize>().ok(), "{s:?}");
    }
    assert_eq!(parse_count("18446744073709551616"), None);
    assert_eq!(parse_count("-1"), None);
}

#[test]
fn a_fields_value_is_taken_away_and_given_back() {
    let mut f = field(2, "x");
    assert_eq!(nullable_field(false, &f), NullFace::Control);
    assert_eq!(nullable_field(true, &f), NullFace::Clearable);
    assert_eq!(null_button(NullFace::Control), None);
    assert_eq!(null_button(NullFace::Clearable), Some("Set NULL"));
    null_pressed(true, &mut f);
    assert_eq!(nullable_field(true, &f), NullFace::Absent);
    assert_eq!(null_button(NullFace::Absent), Some("Set value"));
    null_pressed(false, &mut f);
    assert!(f.is_null, "it has no button");
    null_pressed(true, &mut f);
    assert_eq!(values(&vec![f]), vec![(2, some("x"))]);
}

#[test]
fn a_pulse_runs_once_until_nothing_is_asked() {
    let mut p = Pulse { running: false };
    assert!(p.start_ai_pulse());
    assert!(!p.start_ai_pulse());
    assert!(p.ai_pulse_tick(true) && p.running);
    assert!(!p.ai_pulse_tick(false) && !p.running);
    assert!(p.start_ai_pulse());
}

#[test]
fn white_space_is_what_unicode_calls_so() {
    for c in '\0'..=char::MAX {
        let listed = matches!(c as u32,
            0x9..=0xd | 0x20 | 0x85 | 0xa0 | 0x1680 | 0x2000..=0x200a | 0x2028 | 0x2029 | 0x202f
            | 0x205f | 0x3000);
        assert_eq!(c.is_whitespace(), listed, "{:x}", c as u32);
    }
    assert_eq!(trimmed("\u{3000}\u{180e}x\u{200b}\u{2009}"), "\u{180e}x\u{200b}");
}
