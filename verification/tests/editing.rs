use schemaic_ui::bars::{
    export_finished, export_name, loaded_view, phase_of, results_view, Bar, BarState, ExportOutcome,
    ExportRuns, Phase, QueryState, WaitNote,
};
use schemaic_ui::commit::{Commit, CommitDone};
use schemaic_ui::find::{contains_ignore_ascii_case, Formatted};
use schemaic_ui::geometry::{Metrics, Viewport};
use schemaic_ui::keymap::{clear_if_any, At, KeyMap};
use schemaic_ui::keys::{GridKey, KeyOutcome, KeyPress};
use schemaic_ui::model::{
    Cell, CellTag, Column, EditModel, EditTable, FreshRow, Number, Origin, ResultSet,
};
use schemaic_ui::paste::PasteReport;
use schemaic_ui::plan::{build_row_edits, build_row_refetch, row_edit_for, FieldValue, KeyCell, SetCell};
use schemaic_ui::query::Rewrite;
use schemaic_ui::selection::{selection_kind, SelKind, Span, TopBars};
use schemaic_ui::staged::CellEdit;
use schemaic_ui::state::{GridQuery, GridState};
use schemaic_ui::view::{hands_back, publishes, total_is_told, wheel, BlurOutcome, Panel};

fn num(n: i64) -> Cell {
    Cell { tag: CellTag::Int, text: n.to_string(), number: Number::At(n) }
}

fn txt(s: &str) -> Cell {
    Cell { tag: CellTag::Str, text: s.to_string(), number: Number::Absent }
}

fn null() -> Cell {
    Cell { tag: CellTag::Null, text: "NULL".to_string(), number: Number::Absent }
}

fn own(name: &str, table: &str) -> Column {
    Column {
        name: name.to_string(),
        sql_type: "VARCHAR".to_string(),
        numeric: false,
        origin: Some(Origin {
            database: "shop".to_string(),
            schema: None,
            table: table.to_string(),
            column: format!("real_{name}"),
            auto_increment: false,
            not_null: false,
            no_default: false,
        }),
    }
}

fn bar() -> Bar {
    Bar {
        batch_err: None,
        commit_err: None,
        commit_note: None,
        view_err: None,
        commit_wait: None,
        exporting: None,
        tab_id: 3,
    }
}

fn metrics() -> Metrics {
    Metrics {
        pixel: 1,
        char_w: 7,
        pad_h: 10,
        num_pad_right: 14,
        divider: 1,
        key_icon_w: 22,
        min_col_w: 48,
        max_col_w_init: 420,
        max_col_w_fit: 900,
        cell_w: 190,
        row_h: 26,
    }
}

fn panel() -> Panel {
    Panel {
        bar: bar(),
        query: GridQuery { base_sql: None, filter: String::new(), sort: Vec::new() },
        top: TopBars { find_open: false, goto_open: false },
        find_query: String::new(),
        goto_query: String::new(),
    }
}

/// Three rows of `id`, `name`, `note` of one table; `id` is the key and numbers itself.
fn grid() -> GridState {
    let mut id = own("id", "people");
    if let Some(o) = &mut id.origin {
        o.auto_increment = true;
        o.not_null = true;
    }
    let rs = ResultSet {
        columns: vec![id, own("name", "people"), own("note", "people")],
        rows: vec![
            vec![num(1), txt("Ada"), null()],
            vec![num(2), txt("Bob"), txt("x")],
            vec![num(3), txt("Cy"), txt("y")],
        ],
        affected: None,
        elapsed_ms: 4,
        truncated: false,
    };
    let mut gs = GridState::new(rs, &KeyMap::<usize, ()>::new(), metrics(), panel(), true);
    gs.sort_rows(None);
    gs.set_model(
        EditModel {
            tables: vec![EditTable {
                database: "shop".to_string(),
                schema: None,
                table: "people".to_string(),
                key_cols: vec![0],
            }],
            table_of: vec![Some(0), Some(0), Some(0)],
            editable: vec![true, true, true],
            target: Some(0),
        },
        false,
    );
    gs
}

fn at(row: usize, col: usize) -> At {
    At { row, col }
}

fn some(s: &str) -> Option<String> {
    Some(s.to_string())
}

fn staged(gs: &GridState, row: usize, col: usize) -> Option<Option<String>> {
    gs.staged.dirty.get(at(row, col)).cloned()
}

fn sets(set: &Vec<SetCell>) -> Vec<(usize, String, Option<String>)> {
    set.iter().map(|c| (c.ci, c.column.clone(), c.value.clone())).collect()
}

fn keys(key: &Vec<KeyCell>) -> Vec<(String, Option<String>)> {
    key.iter().map(|c| (c.column.clone(), c.value.clone())).collect()
}

fn press(gs: &mut GridState, key: GridKey, ctrl: bool, shift: bool) -> KeyOutcome {
    gs.grid_key(KeyPress { key, ctrl, shift })
}

#[test]
fn a_grid_opens_with_nothing_staged_or_writable() {
    let gs = GridState::new(
        grid().rs,
        &KeyMap::<usize, ()>::new(),
        metrics(),
        panel(),
        true,
    );
    assert_eq!(gs.staged.staged_count(), 0);
    assert_eq!(gs.widths.len(), 3);
    assert!(!gs.model.editable(1));
    assert!(gs.model.insert_target().is_none());
}

#[test]
fn a_read_only_connection_leaves_nothing_writable() {
    let mut gs = grid();
    let model = std::mem::replace(&mut gs.model, EditModel::none());
    gs.set_model(model, true);
    assert!(!gs.model.editable(1));
    assert!(gs.model.insert_target().is_none());
    assert!(gs.model.table_index(1).is_none() && gs.model.table(0).is_none());
}

#[test]
fn a_read_only_connection_writes_nothing_that_was_staged_before() {
    let mut gs = grid();
    gs.stage(at(0, 1), some("Ann"));
    gs.add_new_row();
    gs.toggle_delete(2);
    let model = std::mem::replace(&mut gs.model, EditModel::none());
    gs.set_model(model, true);
    assert!(gs.commit_grid(Some(0)).is_none());
    let changes = vec![FieldValue { ci: 1, value: some("Ann") }];
    assert!(gs.commit_row_update(0, Ok(changes), Some(0)).is_none());
    assert_eq!(staged(&gs, 0, 1), Some(some("Ann")), "it stays staged");
    let writable = grid().model;
    gs.set_model(writable, false);
    let c = gs.commit_grid(Some(0)).unwrap();
    assert_eq!((c.write.updates.len(), c.write.inserts.len(), c.write.deletes.len()), (1, 1, 1));
}

#[test]
fn an_update_sets_its_columns_in_order() {
    let gs = grid();
    let changes = vec![
        FieldValue { ci: 2, value: some("first") },
        FieldValue { ci: 1, value: None },
        FieldValue { ci: 2, value: some("second") },
        FieldValue { ci: 0, value: some("9") },
    ];
    let e = row_edit_for(&gs.model, &gs.rs, 0, 1, changes).unwrap();
    assert_eq!(
        sets(&e.set),
        vec![
            (0, "real_id".to_string(), some("9")),
            (1, "real_name".to_string(), None),
            (2, "real_note".to_string(), some("first")),
            (2, "real_note".to_string(), some("second")),
        ]
    );
    assert_eq!(keys(&e.key), vec![("real_id".to_string(), some("2"))]);
    assert!(row_edit_for(&gs.model, &gs.rs, 1, 1, vec![]).is_none());
}

#[test]
fn staging_the_original_unstages() {
    let mut gs = grid();
    gs.stage(at(0, 1), some("Ann"));
    assert_eq!(staged(&gs, 0, 1), Some(some("Ann")));
    gs.stage(at(0, 1), some("Ada"));
    assert_eq!(staged(&gs, 0, 1), None);
    gs.stage(at(0, 2), None);
    assert_eq!(staged(&gs, 0, 2), None, "it held no value already");
    gs.stage(at(0, 2), some("NULL"));
    assert_eq!(staged(&gs, 0, 2), Some(some("NULL")), "the word is a text");
}

#[test]
fn a_fresh_edit_takes_down_what_the_bar_said() {
    let mut gs = grid();
    gs.bar.commit_err = some("boom");
    gs.bar.commit_note = some("pasted");
    gs.bar.view_err = some("bad filter");
    gs.stage_many(Vec::new());
    assert_eq!(gs.bar.message(), some("boom"), "an empty batch is no edit");
    gs.stage(at(0, 1), some("x"));
    assert_eq!(gs.bar.commit_err, None);
    assert_eq!(gs.bar.commit_note, None);
    assert_eq!(gs.bar.view_err, some("bad filter"));
    gs.dismiss_overlays();
    assert!(!gs.bar.any_up());
}

#[test]
fn an_explicit_value_is_staged_though_it_is_the_same() {
    let mut gs = grid();
    gs.stage_set(at(0, 1), some("Ada"));
    assert_eq!(staged(&gs, 0, 1), Some(some("Ada")));
}

#[test]
fn an_empty_text_leaves_a_new_cell_to_the_server() {
    let mut gs = grid();
    assert_eq!(gs.add_new_row(), 0);
    gs.stage_new(at(0, 1), some("Dee"));
    gs.stage_new(at(0, 2), None);
    gs.stage_new(at(5, 2), some("lost"));
    assert_eq!(gs.staged.new_rows[0].get(1), Some(&some("Dee")));
    assert_eq!(gs.staged.new_rows[0].get(2), Some(&None));
    gs.stage_new(at(0, 1), some(""));
    assert_eq!(gs.staged.new_rows[0].get(1), None);
}

#[test]
fn a_duplicate_leaves_out_what_the_server_numbers() {
    let mut gs = grid();
    assert_eq!(gs.clone_rows(&vec![0, 9]), Some(at(3, 0)));
    let row = &gs.staged.new_rows[0];
    assert_eq!(row.get(0), None);
    assert_eq!(row.get(1), Some(&some("Ada")));
    assert_eq!(row.get(2), Some(&None));
    assert_eq!(gs.staged.new_rows[1].len(), 0, "a row that is not there is empty");
    assert_eq!(gs.clone_rows(&vec![]), None);
    assert_eq!(gs.staged.new_rows.len(), 2);
}

#[test]
fn marking_a_row_drops_its_edits() {
    let mut gs = grid();
    gs.stage(at(1, 1), some("Bo"));
    gs.stage(at(1, 2), None);
    gs.stage(at(2, 1), some("Cyd"));
    gs.toggle_delete(1);
    assert!(gs.staged.is_deleted(1));
    assert_eq!(staged(&gs, 1, 1), None);
    assert_eq!(staged(&gs, 1, 2), None);
    assert_eq!(staged(&gs, 2, 1), Some(some("Cyd")));
    gs.toggle_delete(1);
    assert!(!gs.staged.is_deleted(1));
    assert_eq!(staged(&gs, 1, 1), None, "the edits are gone for good");
}

#[test]
fn rows_are_marked_and_unmarked_only_where_they_differ() {
    let mut gs = grid();
    gs.toggle_delete(0);
    gs.set_rows_deleted(&vec![0, 1], true);
    assert!(gs.staged.is_deleted(0) && gs.staged.is_deleted(1));
    gs.bar.commit_note = some("kept");
    gs.set_rows_deleted(&vec![0, 1], true);
    assert_eq!(gs.bar.commit_note, some("kept"), "nothing changed");
    gs.set_rows_deleted(&vec![0, 1, 2], false);
    assert_eq!(gs.staged.staged_count(), 0);
}

#[test]
fn a_discard_throws_everything_away() {
    let mut gs = grid();
    gs.stage(at(0, 1), some("x"));
    gs.toggle_delete(2);
    gs.discard_edits();
    assert_eq!(gs.staged.staged_count(), 0);
    assert_eq!(gs.staged.new_rows_gen, 0, "no new rows were thrown away");
    gs.add_new_row();
    gs.start_edit(at(3, 1));
    gs.bar.commit_note = some("Pasted 5 cells");
    gs.discard_edits();
    assert_eq!(gs.staged.new_rows_gen, 1);
    assert_eq!(gs.edit_cell, None);
    assert_eq!(gs.bar.commit_note, None);
}

#[test]
fn an_edit_is_opened_from_what_the_cell_holds() {
    let mut gs = grid();
    gs.start_edit(at(0, 1));
    assert_eq!(gs.edit_buf, "Ada");
    assert_eq!((gs.active, gs.anchor, gs.edit_cell), (Some(at(0, 1)), Some(at(0, 1)), Some(at(0, 1))));
    gs.edit_buf = "Ann".to_string();
    gs.commit_edit();
    assert_eq!(staged(&gs, 0, 1), Some(some("Ann")));
    assert_eq!(gs.edit_cell, None);
    gs.start_edit(at(0, 1));
    assert_eq!(gs.edit_buf, "Ann");
    gs.start_edit(at(0, 2));
    assert_eq!(gs.edit_buf, "", "no value is edited from nothing");
    gs.stage(at(1, 2), None);
    gs.start_edit(at(1, 2));
    assert_eq!(gs.edit_buf, "");
}

#[test]
fn an_edit_goes_through_the_order_that_is_shown() {
    let mut gs = grid();
    gs.sort_rows(Some((1, false)));
    assert_eq!(gs.order, vec![2, 1, 0]);
    gs.start_edit(at(0, 1));
    assert_eq!(gs.edit_buf, "Cy");
    gs.edit_buf = "Cyd".to_string();
    gs.commit_edit();
    assert_eq!(staged(&gs, 2, 1), Some(some("Cyd")));
}

#[test]
fn a_row_that_is_to_go_is_not_edited() {
    let mut gs = grid();
    gs.toggle_delete(1);
    gs.start_edit(at(1, 1));
    assert_eq!(gs.edit_cell, None);
    assert_eq!(gs.active, None);
}

#[test]
fn tab_goes_on_to_the_next_cell_and_ends_at_the_last() {
    let mut gs = grid();
    gs.model.editable = vec![false, true, true];
    gs.start_edit(at(0, 1));
    gs.edit_buf = "Ann".to_string();
    assert!(gs.advance_edit(at(0, 1), true));
    assert_eq!(gs.edit_cell, Some(at(0, 2)));
    assert_eq!(staged(&gs, 0, 1), Some(some("Ann")));
    assert!(!gs.advance_edit(at(0, 2), true));
    assert_eq!(gs.edit_cell, None);
    assert_eq!(gs.next_editable_col(2, false), Some(1));
    assert_eq!(gs.next_editable_col(1, false), None);
    assert_eq!(gs.next_editable_col(7, true), None);
}

#[test]
fn a_choice_in_a_new_row_goes_on_and_in_a_row_of_the_result_ends() {
    let mut gs = grid();
    gs.add_new_row();
    gs.start_edit(at(3, 1));
    gs.edit_buf = "Dee".to_string();
    assert!(gs.keep_cell_edit(at(3, 1)));
    assert_eq!(gs.edit_cell, Some(at(3, 2)));
    assert_eq!(gs.staged.new_rows[0].get(1), Some(&some("Dee")));
    gs.start_edit(at(0, 1));
    gs.edit_buf = "Ann".to_string();
    assert!(!gs.keep_cell_edit(at(0, 1)));
    assert_eq!(gs.edit_cell, None);
    assert_eq!(staged(&gs, 0, 1), Some(some("Ann")));
}

#[test]
fn a_field_that_went_on_is_not_closed_by_the_one_it_left() {
    let mut gs = grid();
    gs.start_edit(at(0, 1));
    assert!(!gs.drop_cell_edit(at(0, 2)));
    assert_eq!(gs.field_blurred(at(0, 2), false, true), BlurOutcome::NotOpen);
    assert_eq!(gs.field_blurred(at(0, 1), true, true), BlurOutcome::TakeBack);
    assert_eq!(gs.edit_cell, Some(at(0, 1)));
    assert_eq!(gs.field_blurred(at(0, 1), false, true), BlurOutcome::ToGrid);
    assert_eq!(gs.edit_cell, None);
    gs.start_edit(at(0, 1));
    assert_eq!(gs.field_blurred(at(0, 1), false, false), BlurOutcome::Closed);
    gs.start_edit(at(0, 1));
    assert!(!gs.picker_gone(at(0, 1), false, false), "it had not come up");
    assert!(!gs.picker_gone(at(0, 1), true, true));
    assert!(gs.picker_gone(at(0, 1), true, false));
    assert_eq!(gs.edit_cell, None);
}

#[test]
fn updates_are_grouped_by_row_and_found_by_what_the_row_held() {
    let mut gs = grid();
    gs.stage(at(2, 2), None);
    gs.stage(at(2, 1), some("Cyd"));
    gs.stage(at(0, 0), some("10"));
    let c: Commit = gs.commit_grid(Some(0)).unwrap();
    assert_eq!(c.write.updates.len(), 2);
    let first = &c.write.updates[0];
    assert_eq!((first.table.as_str(), first.row), ("people", 0));
    assert_eq!(sets(&first.set), vec![(0, "real_id".to_string(), some("10"))]);
    assert_eq!(keys(&first.key), vec![("real_id".to_string(), some("1"))], "as it was");
    let second = &c.write.updates[1];
    assert_eq!(
        sets(&second.set),
        vec![(1, "real_name".to_string(), some("Cyd")), (2, "real_note".to_string(), None)]
    );
    let again = c.refetch.unwrap();
    assert_eq!(again.len(), 2);
    assert_eq!(keys(&again[0].key), vec![("real_id".to_string(), some("10"))], "as it becomes");
    assert_eq!((again[1].row, keys(&again[1].key)), (2, vec![("real_id".to_string(), some("3"))]));
    assert_eq!(c.committed, vec![at(0, 0), at(2, 1), at(2, 2)]);
    assert!(gs.commit_busy);
    assert!(gs.commit_grid(Some(0)).is_none(), "one write at a time");
}

#[test]
fn two_tables_of_a_join_are_updated_one_by_one() {
    let mut gs = grid();
    gs.model.tables.push(EditTable {
        database: "shop".to_string(),
        schema: some("sales"),
        table: "orders".to_string(),
        key_cols: vec![1, 2],
    });
    gs.model.table_of = vec![Some(1), Some(0), None];
    gs.stage(at(1, 0), some("7"));
    gs.stage(at(0, 0), some("8"));
    gs.stage(at(1, 1), some("Bo"));
    gs.stage(at(1, 2), some("read only"));
    let c = gs.commit_grid(None).unwrap();
    let names: Vec<(&str, usize)> =
        c.write.updates.iter().map(|u| (u.table.as_str(), u.row)).collect();
    assert_eq!(names, vec![("people", 1), ("orders", 0), ("orders", 1)]);
    assert_eq!(c.write.updates[1].schema, some("sales"));
    assert_eq!(
        keys(&c.write.updates[1].key),
        vec![("real_name".to_string(), some("Ada")), ("real_note".to_string(), None)]
    );
    assert!(c.refetch.is_none());
    assert_eq!(c.committed.len(), 4);
}

#[test]
fn inserts_and_deletes_are_sent_in_order_and_read_nothing_again() {
    let mut gs = grid();
    gs.toggle_delete(2);
    gs.toggle_delete(0);
    gs.toggle_delete(9);
    gs.add_new_row();
    gs.add_new_row();
    gs.stage_new(at(0, 2), some("n"));
    gs.stage_new(at(0, 1), None);
    gs.rs.columns[2].origin = None;
    let c = gs.commit_grid(Some(0)).unwrap();
    assert_eq!(c.write.updates.len(), 0);
    assert_eq!(c.write.inserts.len(), 2);
    assert_eq!(sets(&c.write.inserts[0].cols), vec![(1, "real_name".to_string(), None)]);
    assert_eq!(c.write.inserts[1].cols.len(), 0, "all of it left to the server");
    let rows: Vec<usize> = c.write.deletes.iter().map(|d| d.row).collect();
    assert_eq!(rows, vec![0, 2], "a row that is not there is left out");
    assert_eq!(keys(&c.write.deletes[1].key), vec![("real_id".to_string(), some("3"))]);
    assert!(c.refetch.is_none());
}

#[test]
fn without_a_table_to_insert_into_nothing_is_sent() {
    let mut gs = grid();
    gs.model.target = None;
    gs.add_new_row();
    gs.toggle_delete(0);
    assert!(gs.commit_grid(Some(0)).is_none());
    assert!(!gs.commit_busy);
}

#[test]
fn an_open_edit_is_staged_before_it_is_sent() {
    let mut gs = grid();
    gs.start_edit(at(0, 1));
    gs.edit_buf = "Ann".to_string();
    let c = gs.commit_grid(Some(0)).unwrap();
    assert_eq!(gs.edit_cell, None);
    assert_eq!(sets(&c.write.updates[0].set), vec![(1, "real_name".to_string(), some("Ann"))]);
}

#[test]
fn an_edit_staged_meanwhile_is_kept() {
    let mut gs = grid();
    gs.stage(at(0, 1), some("Ann"));
    let c = gs.commit_grid(Some(0)).unwrap();
    gs.stage(at(1, 1), some("Bo"));
    gs.commit_done(
        CommitDone::Spliced(vec![FreshRow { row: 0, cells: vec![num(1), txt("Ann!"), null()] }]),
        &c.committed,
    );
    assert_eq!(staged(&gs, 0, 1), None);
    assert_eq!(staged(&gs, 1, 1), Some(some("Bo")));
    assert_eq!(gs.rs.cell(0, 1).unwrap().text, "Ann!");
    assert!(!gs.commit_busy);
}

#[test]
fn a_write_that_failed_keeps_its_edits() {
    let mut gs = grid();
    gs.stage(at(0, 1), some("Ann"));
    let c = gs.commit_grid(None).unwrap();
    gs.commit_done(CommitDone::Failed("duplicate key".to_string()), &c.committed);
    assert_eq!(staged(&gs, 0, 1), Some(some("Ann")));
    assert_eq!(gs.bar.grid_error_bar(), Some(BarState::Error));
    assert_eq!(gs.bar.message(), some("duplicate key"));
    let c = gs.commit_grid(None).unwrap();
    gs.commit_done(CommitDone::FullReran, &c.committed);
    assert_eq!(gs.bar.message(), None);
}

#[test]
fn only_the_write_that_waits_is_spoken_of() {
    let mut gs = grid();
    gs.stage(at(0, 1), some("Ann"));
    let c = gs.commit_grid(None).unwrap();
    gs.wait_elapsed(c.seq.wrapping_sub(1), Some(WaitNote { text: "old".to_string(), rollback: None }));
    assert_eq!(gs.bar.message(), None);
    gs.wait_elapsed(
        c.seq,
        Some(WaitNote {
            text: "Waiting for a lock".to_string(),
            rollback: Some((4, "a rather long title".to_string())),
        }),
    );
    assert_eq!(gs.bar.grid_error_bar(), Some(BarState::Wait));
    assert_eq!(gs.bar.message(), some("Waiting for a lock"));
    assert_eq!(gs.bar.action(false), some("Roll back a rather l…"));
    gs.commit_done(CommitDone::FullReran, &c.committed);
    gs.wait_elapsed(c.seq, Some(WaitNote { text: "late".to_string(), rollback: None }));
    assert_eq!(gs.bar.message(), None);
}

#[test]
fn the_row_panel_writes_its_own_changes_and_leaves_the_rest_staged() {
    let mut gs = grid();
    gs.stage(at(0, 1), some("Ann"));
    gs.open_edit_row(1);
    assert!(gs.edit_row_open);
    let changes = vec![
        FieldValue { ci: 2, value: None },
        FieldValue { ci: 0, value: some("20") },
    ];
    let c = gs.commit_row_update(1, Ok(changes), Some(0)).unwrap();
    assert_eq!(c.write.updates.len(), 1);
    assert_eq!(
        sets(&c.write.updates[0].set),
        vec![(0, "real_id".to_string(), some("20")), (2, "real_note".to_string(), None)]
    );
    assert_eq!(keys(&c.write.updates[0].key), vec![("real_id".to_string(), some("2"))]);
    assert_eq!(keys(&c.refetch.unwrap()[0].key), vec![("real_id".to_string(), some("20"))]);
    assert_eq!(c.committed, vec![at(1, 2), at(1, 0)]);
    assert!(gs.edit_row_saving && gs.commit_busy);
    gs.row_commit_done(CommitDone::Spliced(Vec::new()), &c.committed);
    assert!(!gs.edit_row_open && !gs.edit_row_saving && !gs.commit_busy);
    assert_eq!(staged(&gs, 0, 1), Some(some("Ann")));
}

#[test]
fn a_row_panel_without_changes_closes_and_a_wrong_one_says_why() {
    let mut gs = grid();
    gs.open_edit_row(1);
    assert!(gs.commit_row_update(1, Err("name can't be NULL".to_string()), None).is_none());
    assert!(gs.edit_row_open);
    assert_eq!(gs.bar.commit_err, some("name can't be NULL"));
    assert!(gs.commit_row_update(1, Ok(Vec::new()), None).is_none());
    assert!(!gs.edit_row_open);
    gs.open_edit_row(1);
    let c = gs
        .commit_row_update(1, Ok(vec![FieldValue { ci: 1, value: some("Bo") }]), None)
        .unwrap();
    assert!(gs.commit_row_update(1, Ok(Vec::new()), None).is_none(), "one at a time");
    gs.row_commit_done(CommitDone::Failed("no".to_string()), &c.committed);
    assert!(gs.edit_row_open, "an error keeps the panel open");
}

#[test]
fn changes_of_one_column_keep_their_order_and_the_last_is_the_key() {
    let gs = grid();
    let changes = vec![
        FieldValue { ci: 1, value: some("a") },
        FieldValue { ci: 0, value: some("5") },
        FieldValue { ci: 1, value: some("b") },
        FieldValue { ci: 0, value: some("6") },
        FieldValue { ci: 9, value: some("lost") },
    ];
    let edits = build_row_edits(&gs.rs, &gs.model, 0, &changes);
    let values: Vec<Option<String>> = edits[0].set.iter().map(|c| c.value.clone()).collect();
    assert_eq!(values, vec![some("5"), some("6"), some("a"), some("b")]);
    let again = build_row_refetch(&gs.rs, gs.model.table(0), true, 0, &changes).unwrap();
    assert_eq!(keys(&again.key), vec![("real_id".to_string(), some("6"))]);
    assert!(build_row_refetch(&gs.rs, None, true, 0, &changes).is_none());
    assert!(build_row_refetch(&gs.rs, gs.model.table(0), false, 0, &changes).is_none());
}

#[test]
fn a_paste_lands_in_rows_that_stay_and_in_new_rows() {
    let mut gs = grid();
    gs.sort_rows(Some((0, false)));
    gs.toggle_delete(1);
    gs.add_new_row();
    gs.active = Some(at(0, 1));
    assert_eq!(gs.paste_target(), Some(Span { r0: 0, c0: 1, r1: 0, c1: 1 }));
    let cells = (0..4)
        .map(|r| CellEdit { at: at(r, 1), value: some(&format!("v{r}")) })
        .collect();
    assert_eq!(gs.paste_selection(cells), 1);
    assert_eq!(staged(&gs, 2, 1), Some(some("v0")), "shown first");
    assert_eq!(staged(&gs, 1, 1), None, "to go");
    assert_eq!(staged(&gs, 0, 1), Some(some("v2")));
    assert_eq!(gs.staged.new_rows[0].get(1), Some(&some("v3")));
    gs.start_edit(at(0, 1));
    assert_eq!(gs.paste_target(), None, "the field takes it");
}

#[test]
fn a_paste_is_reported_on_the_surface_it_earns() {
    let mut gs = grid();
    gs.paste_reported(PasteReport::Clean);
    assert!(!gs.bar.any_up());
    gs.paste_reported(PasteReport::Notice("Pasted 5 cells, skipping 1".to_string()));
    assert_eq!(gs.bar.grid_error_bar(), Some(BarState::Note));
    gs.paste_reported(PasteReport::Failed("Nothing pasted".to_string()));
    assert_eq!(gs.bar.grid_error_bar(), Some(BarState::Error));
}

#[test]
fn the_first_key_that_moves_selects_the_first_cell() {
    let mut gs = grid();
    assert_eq!(press(&mut gs, GridKey::ArrowDown, false, false), KeyOutcome::Done);
    assert_eq!(gs.active, Some(at(0, 0)));
    press(&mut gs, GridKey::ArrowDown, false, false);
    press(&mut gs, GridKey::ArrowRight, false, true);
    assert_eq!((gs.anchor, gs.active), (Some(at(1, 0)), Some(at(1, 1))));
    press(&mut gs, GridKey::End, true, false);
    assert_eq!(gs.active, Some(at(2, 2)));
    press(&mut gs, GridKey::Home, false, false);
    assert_eq!(gs.active, Some(at(2, 0)));
}

#[test]
fn a_page_is_as_many_rows_as_are_on_screen() {
    let mut gs = grid();
    for _ in 0..10 {
        gs.add_new_row();
    }
    gs.scrolled_to(Viewport { x: 0, y: 0, w: 500, h: 26 * 4 + 25 });
    gs.active = Some(at(1, 0));
    press(&mut gs, GridKey::PageDown, false, false);
    assert_eq!(gs.active, Some(at(5, 0)));
    gs.resized(500, 0);
    press(&mut gs, GridKey::PageUp, false, false);
    assert_eq!(gs.active, Some(at(4, 0)), "one row at least");
}

#[test]
fn escape_closes_the_topmost_thing() {
    let mut gs = grid();
    gs.active = Some(at(1, 1));
    gs.open_edit_row(1);
    assert_eq!(press(&mut gs, GridKey::Letter('f'), true, false), KeyOutcome::Done);
    gs.find_query = "ada".to_string();
    assert!(gs.top.find_open);
    press(&mut gs, GridKey::Escape, false, false);
    assert!(!gs.top.find_open);
    assert_eq!(gs.find_query, "");
    assert!(gs.edit_row_open);
    press(&mut gs, GridKey::Letter('g'), true, false);
    gs.goto_query = "12".to_string();
    press(&mut gs, GridKey::Escape, false, false);
    assert!(!gs.top.goto_open);
    assert_eq!(gs.goto_query, "");
    press(&mut gs, GridKey::Escape, false, false);
    assert!(!gs.edit_row_open);
    assert_eq!(gs.active, Some(at(1, 1)));
    press(&mut gs, GridKey::Escape, false, false);
    assert_eq!((gs.active, gs.anchor), (None, None));
}

#[test]
fn keys_hand_the_clipboard_and_the_write_on() {
    let mut gs = grid();
    assert_eq!(press(&mut gs, GridKey::Letter('c'), true, false), KeyOutcome::Copy);
    assert_eq!(press(&mut gs, GridKey::Letter('v'), true, false), KeyOutcome::Paste);
    assert_eq!(press(&mut gs, GridKey::Enter, true, false), KeyOutcome::Commit);
    assert_eq!(press(&mut gs, GridKey::Letter('C'), true, true), KeyOutcome::Copy);
    assert_eq!(press(&mut gs, GridKey::Letter('V'), true, true), KeyOutcome::Paste);
    assert_eq!(press(&mut gs, GridKey::Letter('c'), false, false), KeyOutcome::Continue);
    assert_eq!(press(&mut gs, GridKey::Letter('z'), true, false), KeyOutcome::Continue);
    assert_eq!(press(&mut gs, GridKey::Other, false, false), KeyOutcome::Continue);
    press(&mut gs, GridKey::Letter('a'), true, false);
    assert_eq!((gs.anchor, gs.active), (Some(at(0, 0)), Some(at(2, 2))));
    gs.rs.rows.clear();
    assert_eq!(press(&mut gs, GridKey::Letter('a'), true, false), KeyOutcome::Continue);
}

#[test]
fn enter_edits_where_the_column_can_be_edited() {
    let mut gs = grid();
    gs.model.editable = vec![false, true, true];
    gs.active = Some(at(1, 0));
    assert_eq!(press(&mut gs, GridKey::Enter, false, false), KeyOutcome::Done);
    assert_eq!(gs.edit_cell, None);
    gs.active = Some(at(1, 1));
    press(&mut gs, GridKey::Enter, false, false);
    assert_eq!(gs.edit_cell, Some(at(1, 1)));
}

#[test]
fn delete_drives_a_range_to_one_state() {
    let mut gs = grid();
    gs.add_new_row();
    gs.stage(at(0, 1), some("Ann"));
    gs.toggle_delete(1);
    gs.anchor = Some(at(0, 0));
    gs.active = Some(at(3, 2));
    assert_eq!(press(&mut gs, GridKey::Delete, false, false), KeyOutcome::Done);
    assert!((0..3).all(|r| gs.staged.is_deleted(r)));
    assert_eq!(staged(&gs, 0, 1), None);
    press(&mut gs, GridKey::Delete, false, false);
    assert!((0..3).all(|r| !gs.staged.is_deleted(r)));
    gs.anchor = Some(at(3, 0));
    gs.active = Some(at(3, 0));
    assert_eq!(press(&mut gs, GridKey::Delete, false, false), KeyOutcome::Continue, "a new row");
    gs.model.target = None;
    gs.active = Some(at(0, 0));
    assert_eq!(press(&mut gs, GridKey::Delete, false, false), KeyOutcome::Continue);
}

#[test]
fn a_search_moves_on_and_goes_round() {
    let mut gs = grid();
    gs.rs.rows[2][1] = txt("ada too");
    let raw: Vec<Formatted> = vec![None, None, None];
    gs.grid_find(&raw, "ADA", true, true);
    assert_eq!(gs.active, Some(at(0, 1)));
    gs.grid_find(&raw, "ada", true, true);
    assert_eq!(gs.active, Some(at(0, 1)), "the cell itself while typing");
    gs.grid_find(&raw, "ada", true, false);
    assert_eq!(gs.active, Some(at(2, 1)));
    gs.grid_find(&raw, "ada", true, false);
    assert_eq!(gs.active, Some(at(0, 1)), "round from the end");
    gs.grid_find(&raw, "ada", false, false);
    assert_eq!(gs.active, Some(at(2, 1)), "and round from the start");
    gs.grid_find(&raw, "nobody", true, false);
    assert_eq!(gs.active, Some(at(2, 1)));
    gs.grid_find(&raw, "", true, false);
    assert_eq!(gs.active, Some(at(2, 1)));
}

#[test]
fn a_jump_reads_as_a_row_selection() {
    let rs = ResultSet {
        columns: (0..5).map(|c| own(&format!("c{c}"), "people")).collect(),
        rows: (0..100).map(|r| (0..5).map(|c| num(r * 5 + c)).collect()).collect(),
        affected: None,
        elapsed_ms: 0,
        truncated: false,
    };
    let mut gs = GridState::new(rs, &KeyMap::<usize, ()>::new(), metrics(), panel(), true);
    gs.sort_rows(None);
    gs.top.set_goto(true);
    gs.goto_query = "5".to_string();
    gs.goto_row(Some(4));
    assert_eq!((gs.anchor, gs.active), (Some(at(4, 0)), Some(at(4, 4))));
    assert_eq!(selection_kind(gs.bounds(), gs.anchor, 5), SelKind::WholeRow);
}

#[test]
fn a_jump_closes_its_bar_on_a_miss_too() {
    let mut gs = grid();
    gs.top.set_goto(true);
    gs.goto_query = "2".to_string();
    gs.goto_row(Some(1));
    assert_eq!((gs.anchor, gs.active), (Some(at(1, 0)), Some(at(1, 2))));
    assert!(!gs.top.goto_open);
    assert_eq!(gs.goto_query, "");
    gs.top.set_goto(true);
    gs.goto_row(None);
    assert!(!gs.top.goto_open, "closed on a miss too");
    assert_eq!(gs.active, Some(at(1, 2)));
}

#[test]
fn a_condition_is_added_behind_the_others() {
    let mut gs = grid();
    assert!(gs.add_filter_condition(1, "real_name = 'Ada'"));
    assert_eq!(gs.query.filter, "real_name = 'Ada'");
    gs.query.filter = "  a > 1 \t".to_string();
    assert!(gs.is_filtered());
    gs.add_filter_condition(2, "real_note IS NULL");
    assert_eq!(gs.query.filter, "a > 1 AND real_note IS NULL");
    gs.rs.columns[2].origin = None;
    assert!(!gs.add_filter_condition(2, "x"));
    assert!(!gs.add_filter_condition(9, "x"));
    gs.set_filter("  b = 2 ");
    assert_eq!(gs.query.filter, "b = 2");
    gs.bar.view_err = some("bad");
    gs.clear_filter();
    assert!(!gs.is_filtered());
    assert_eq!(gs.bar.view_err, None);
    gs.set_filter(" \u{a0}\n ");
    assert_eq!(gs.query.filter, "", "all of it white");
}

#[test]
fn a_statement_that_cannot_be_filtered_is_said_on_the_bar() {
    let mut gs = grid();
    assert!(!gs.filterable());
    assert_eq!(gs.apply_grid_query(Rewrite::Run("SELECT 1".to_string())), None, "none is known");
    gs.query.base_sql = some("SELECT * FROM people");
    assert!(gs.filterable());
    assert_eq!(gs.apply_grid_query(Rewrite::Run("SELECT 1".to_string())), some("SELECT 1"));
    assert_eq!(gs.apply_grid_query(Rewrite::NotSimple), None);
    assert_eq!(
        gs.bar.view_err,
        some("Can't filter this query — not a simple single-table SELECT")
    );
    gs.apply_grid_query(Rewrite::BadCondition("unbalanced quote".to_string()));
    assert_eq!(gs.bar.message(), some("unbalanced quote"));
}

#[test]
fn the_server_sorts_by_one_column_at_a_time() {
    let mut gs = grid();
    assert!(gs.cycle_server_sort(1));
    assert_eq!(gs.server_sort_dir(1), Some(true));
    gs.cycle_server_sort(1);
    assert_eq!(gs.server_sort_dir(1), Some(false));
    gs.cycle_server_sort(2);
    assert_eq!((gs.server_sort_dir(1), gs.server_sort_dir(2)), (None, Some(true)));
    gs.cycle_server_sort(2);
    gs.cycle_server_sort(2);
    assert_eq!(gs.query.sort.len(), 0);
    assert!(!gs.cycle_server_sort(8));
}

#[test]
fn only_the_export_that_raised_the_flag_can_lower_it() {
    let mut runs = ExportRuns::new();
    let a = runs.start(7);
    let b = runs.start(7);
    assert_ne!(a, b, "two runs in one tab are still two runs");
    assert_eq!(export_finished(Some(a), a), None);
    assert_eq!(export_finished(Some(a), b), Some(a));
    assert_eq!(export_finished(Some(b), a), Some(b));
    assert_eq!(export_finished(None, a), None);
}

#[test]
fn the_export_bar_belongs_to_the_tab_that_started_it() {
    let mut runs = ExportRuns::new();
    let mut here = bar();
    let mut elsewhere = bar();
    elsewhere.tab_id = 4;
    assert!(!here.exporting_here());
    assert!(!here.any_up());
    let run = runs.start(3);
    here.exporting = Some(run);
    elsewhere.exporting = Some(run);
    assert!(here.exporting_here(), "the tab that started it");
    assert!(here.any_up());
    assert!(!elsewhere.exporting_here(), "a tab that had nothing to do with it");
    assert!(!elsewhere.any_up());
}

#[test]
fn an_export_is_told_in_two_tenses() {
    let mut runs = ExportRuns::new();
    let mut b = bar();
    b.commit_err = some("old");
    b.view_err = some("older");
    let run = runs.start(3);
    b.export_started(run, true);
    assert_eq!(b.grid_error_bar(), Some(BarState::Exporting));
    assert_eq!(b.message(), some("Exporting…"));
    assert_eq!(b.action(false), some("Cancel"));
    let second = runs.start(3);
    b.export_reported(second, ExportOutcome::Failed("busy".to_string()), "b.csv");
    assert_eq!(b.message(), some("busy"));
    assert_eq!(b.exporting, Some(run), "the one that runs keeps its flag");
    b.commit_err = None;
    b.export_reported(run, ExportOutcome::Cancelled, &export_name(&some("a.csv")));
    assert_eq!(b.message(), some("Export cancelled — a.csv is incomplete"));
    assert_eq!(b.exporting, None);
    let third = runs.start(3);
    b.export_started(third, false);
    assert_eq!(b.exporting, None, "what is on screen is written at once");
    b.export_reported(third, ExportOutcome::Done(some("Exported 3 rows")), "c.csv");
    assert_eq!(b.message(), some("Exported 3 rows"));
    b.export_reported(third, ExportOutcome::Done(None), "c.csv");
    assert_eq!(b.message(), some("Exported 3 rows"));
    assert_eq!(export_name(&None), "the file");
}

#[test]
fn the_bar_says_the_most_urgent_thing_on_one_line() {
    let mut b = bar();
    assert_eq!(b.message(), None);
    b.commit_note = some("note");
    assert_eq!(b.grid_error_bar(), Some(BarState::Note));
    assert_eq!(b.action(true), None);
    b.view_err = some("view");
    assert_eq!(b.message(), some("view"));
    b.commit_err = some("commit");
    assert_eq!(b.message(), some("commit"));
    b.batch_err = some("  ERROR:\n\tno such   table\r\nDETAIL: x ");
    assert_eq!(b.message(), some("ERROR: no such table DETAIL: x"));
    assert_eq!(b.action(true), some("View"));
    assert_eq!(b.action(false), None);
}

#[test]
fn a_statement_without_rows_says_how_many_it_changed() {
    assert_eq!(loaded_view(Some(1), 12), some("1 row affected · 12 ms"));
    assert_eq!(loaded_view(Some(0), 0), some("0 rows affected · 0 ms"));
    assert_eq!(loaded_view(Some(1050), 3), some("1050 rows affected · 3 ms"));
    assert_eq!(loaded_view(None, 3), None);
}

#[test]
fn a_stage_of_a_query_has_its_words() {
    assert_eq!(phase_of::<u8>(&QueryState::Idle), Phase::Idle);
    assert_eq!(phase_of(&QueryState::Loaded(1u8)), phase_of(&QueryState::Loaded(2u8)));
    assert_eq!(results_view(Phase::Idle), Some("Run a query  (Ctrl+Enter)"));
    assert_eq!(results_view(phase_of::<u8>(&QueryState::Failed("x".to_string()))), Some("Query failed."));
    assert_eq!(results_view(phase_of::<u8>(&QueryState::Cancelled)), Some("Query cancelled."));
    assert_eq!(results_view(phase_of::<u8>(&QueryState::Running)), None);
}

#[test]
fn clearing_what_is_already_empty_notifies_nobody() {
    let mut v: Vec<u32> = Vec::new();
    let mut runs = 1;
    if clear_if_any(&mut v) {
        runs += 1;
    }
    assert_eq!(runs, 1, "nothing to clear, so nothing was rebuilt");
    v.push(7);
    runs += 1;
    if clear_if_any(&mut v) {
        runs += 1;
    }
    assert_eq!(runs, 3, "and so does a real clear");
    assert!(v.is_empty(), "which actually cleared it");
}

#[test]
fn clearing_a_none_option_notifies_nobody() {
    let mut o: Option<(usize, usize)> = None;
    assert!(!clear_if_any(&mut o), "already None");
    o = Some((1, 2));
    assert!(clear_if_any(&mut o));
    assert_eq!(o, None);
}

#[test]
fn every_staging_collection_answers_the_question() {
    let mut dirty: KeyMap<At, Option<String>> = KeyMap::new();
    dirty.insert(at(0, 0), None);
    let mut rows: Vec<KeyMap<usize, Option<String>>> = vec![KeyMap::new()];
    let mut del: KeyMap<usize, ()> = KeyMap::new();
    del.insert(3, ());
    assert!(clear_if_any(&mut dirty));
    assert!(clear_if_any(&mut rows));
    assert!(clear_if_any(&mut del));
    assert_eq!(dirty.len(), 0);
    assert!(rows.is_empty());
    assert_eq!(del.len(), 0);
    assert!(!clear_if_any(&mut dirty));
}

#[test]
fn a_map_keeps_its_keys_in_order() {
    let mut m: KeyMap<At, u8> = KeyMap::new();
    for (r, c, v) in [(2, 0, 1), (0, 5, 2), (1, 9, 3), (0, 1, 4), (1, 9, 5)] {
        m.insert(at(r, c), v);
    }
    let got: Vec<(At, u8)> = (0..m.len()).map(|i| *m.entry(i)).collect();
    assert_eq!(got, vec![(at(0, 1), 4), (at(0, 5), 2), (at(1, 9), 5), (at(2, 0), 1)]);
    assert!(m.remove(at(1, 9)));
    assert!(!m.remove(at(1, 9)));
    m.drop_row(0);
    assert_eq!(m.len(), 1);
    assert!(m.contains(at(2, 0)));
}

#[test]
fn the_row_panel_steps_in_the_order_that_is_shown() {
    let mut gs = grid();
    gs.sort_rows(Some((1, false)));
    gs.open_edit_row(2);
    gs.edit_row_step(false);
    assert_eq!(gs.edit_row_di, Some(2), "the first that is shown");
    gs.edit_row_step(true);
    assert_eq!(gs.edit_row_di, Some(1));
    gs.edit_row_step(true);
    gs.edit_row_step(true);
    assert_eq!(gs.edit_row_di, Some(0));
    gs.edit_row_step(false);
    assert_eq!(gs.edit_row_di, Some(1));
    assert_eq!(gs.edit_row_disp(2), 0);
    assert_eq!(gs.edit_row_disp(77), 77);
}

#[test]
fn a_new_row_is_opened_at_its_first_cell_that_can_be_edited() {
    let mut gs = grid();
    gs.model.editable = vec![false, true, true];
    assert_eq!(gs.add_pending_row(), Some(at(3, 1)));
    gs.model.editable = vec![];
    assert_eq!(gs.add_pending_row(), None);
    assert_eq!((gs.active, gs.anchor), (Some(at(4, 0)), Some(at(4, 0))));
    assert_eq!(gs.total_rows(), 5);
}

#[test]
fn a_wheel_stops_at_the_ends() {
    assert_eq!(wheel(100, -40, 1000, 300), 60);
    assert_eq!(wheel(100, -140, 1000, 300), 0);
    assert_eq!(wheel(600, 140, 1000, 300), 700);
    assert_eq!(wheel(0, 140, 200, 300), 0);
}

#[test]
fn what_closes_hands_the_keyboard_back() {
    assert!(hands_back(Some(true), false));
    assert!(!hands_back(Some(false), false));
    assert!(!hands_back(None, false));
    assert!(!hands_back(Some(true), true));
}

#[test]
fn a_total_is_told_only_of_a_whole_table_of_this_connection() {
    let mut q = GridQuery { base_sql: None, filter: String::new(), sort: Vec::new() };
    assert!(total_is_told(true, &q, 1, 1));
    assert!(!total_is_told(false, &q, 1, 1));
    assert!(!total_is_told(true, &q, 1, 2));
    q.filter = "a = 1".to_string();
    assert!(!total_is_told(true, &q, 1, 1));
}

#[test]
fn a_pinned_column_is_one_that_the_result_has() {
    let mut gs = grid();
    gs.toggle_frozen(2);
    assert_eq!(gs.frozen_col(), Some(2));
    gs.toggle_frozen(2);
    assert_eq!(gs.frozen_col(), None);
    gs.toggle_frozen(9);
    assert_eq!(gs.frozen_col(), None);
}

#[test]
fn the_wheel_over_a_following_pane_scrolls_the_data() {
    let mut gs = grid();
    gs.widths = vec![100, 200, 300];
    gs.vp = Viewport { x: 10, y: 0, w: 250, h: 100 };
    gs.header_wheel(&vec![0, 1, 2], 300, 20, 100, -30, 400);
    assert_eq!(gs.scroll_to, Some((350, 0)));
    gs.header_wheel(&vec![1, 7], 0, 20, 100, 30, 400);
    assert_eq!(gs.scroll_to, Some((0, 50)), "a column without a width takes no room");
    gs.gutter_wheel(250, 90, 400);
    assert_eq!(gs.scroll_to, Some((10, 300)));
    gs.gutter_wheel(0, 0, 400);
    assert_eq!(gs.scroll_to, Some((10, 300)), "it was not turned");
    assert_eq!(gs.frozen_pane_w(48), 48);
    gs.toggle_frozen(1);
    assert_eq!(gs.frozen_pane_w(48), 248);
    assert!(publishes(10, 75, 64) && publishes(75, 10, 64));
    assert!(!publishes(10, 42, 64));
}

#[test]
fn a_search_ignores_the_case_of_plain_letters() {
    assert!(contains_ignore_ascii_case("Über-Ada", "ADA"));
    assert!(contains_ignore_ascii_case("abc", ""));
    assert!(!contains_ignore_ascii_case("Über", "ü"));
    assert!(!contains_ignore_ascii_case("ab", "abc"));
}

#[test]
fn a_click_takes_down_what_the_bar_says() {
    let mut b = bar();
    b.batch_err = some("batch");
    b.commit_err = some("write");
    b.commit_note = some("note");
    b.view_err = some("filter");
    b.clear_bar();
    assert_eq!((b.commit_err.clone(), b.commit_note.clone()), (None, None));
    assert_eq!(b.view_err, some("filter"));
    b.dismiss();
    assert_eq!((b.view_err, b.batch_err), (None, some("batch")));
}

#[test]
fn the_tabs_own_result_is_replaced_after_a_splice_of_rows() {
    let fresh = || vec![FreshRow { row: 0, cells: vec![num(1), txt("Eve"), null()] }];
    let mut gs = grid();
    assert!(gs.apply_splice(fresh(), &vec![]));
    assert_eq!(gs.rs.rows[0][1].text, "Eve");
    assert!(!gs.apply_splice(Vec::new(), &vec![]), "nothing was put in place");
    assert!(gs.commit_done(CommitDone::Spliced(fresh()), &vec![]));
    assert!(gs.row_commit_done(CommitDone::Spliced(fresh()), &vec![]));
    assert!(!gs.commit_done(CommitDone::FullReran, &vec![]));
    assert!(!gs.row_commit_done(CommitDone::Failed("no".to_string()), &vec![]));
    gs.spliced = false;
    assert!(!gs.apply_splice(fresh(), &vec![]), "the tab has none");
}

#[test]
fn the_bar_hands_out_its_error_and_the_tab_in_the_way() {
    let mut b = bar();
    assert_eq!((b.full_error(), b.rollback_tab()), (None, None));
    b.view_err = some("filter");
    b.commit_err = some("write\nfailed");
    assert_eq!(b.full_error(), some("write\nfailed"));
    b.batch_err = some("batch");
    assert_eq!(b.full_error(), some("batch"));
    b.commit_wait = Some(WaitNote { text: "waiting".to_string(), rollback: None });
    assert_eq!(b.rollback_tab(), None);
    b.commit_wait = Some(WaitNote {
        text: "waiting".to_string(),
        rollback: Some((6, "Tab 6".to_string())),
    });
    assert_eq!(b.rollback_tab(), Some(6));
}
