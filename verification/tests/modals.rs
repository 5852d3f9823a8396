use schemaic_ui::columns::{ColumnInfo, DbNode, TableInfo};
use schemaic_ui::events::{
    can_preview, editor_title, event_footer, field_writes, interval_units, schedule_form,
    shape_label, tab_order, taken_names, EventEditor, EventInfo, EventName, EventNode,
    EventSchedule, EventSource, EventStatus, EventTarget, SourceOutcome, StatusChoice, TAB_BODY,
    TAB_NAME, TAB_OPT, TAB_SCHED, TAB_SHAPE,
};
use schemaic_ui::history::{
    clear_confirm, clear_tip, count_conn, empty_message, find_connection, group_headers, history_row, row_menu,
    search_term, visible_entries, HistoryEntry,
};
use schemaic_ui::import_modal::{
    engine_note, file_label, mapping_tab, missing_note, names_its_columns, ImportOutcome, ImportState, ImportStep, ImportTarget,
    Probe,
};
use schemaic_ui::import_read::{
    current_target, delimiter_display, has_insert_columns, issue_line, issue_list, mapping_row,
    null_rule, pick_target, preview_field, preview_message, preview_table, read_delimiter,
    shown_cols, target_label, CsvDialect, ImportFormat, Issue, Preview, PreviewKind, ReadConfig,
    Sample, Tail, Target, ISSUE_LINES, PREVIEW_ROWS,
};
use schemaic_ui::menu::{Act, Entry};
use schemaic_ui::text::join;

fn some(s: &str) -> Option<String> {
    Some(s.to_string())
}

fn table() -> TableInfo {
    TableInfo {
        name: "people".to_string(),
        schema: None,
        columns: [("id", "int"), ("name", "varchar(20)")]
            .iter()
            .map(|(n, ty)| ColumnInfo {
                name: n.to_string(),
                sql_type: ty.to_string(),
                primary_key: false,
                nullable: true,
            })
            .collect(),
        indexes: Vec::new(),
        foreign_keys: Vec::new(),
        engine: None,
    }
}

fn target() -> ImportTarget {
    ImportTarget {
        conn_id: 7,
        database: "shop".to_string(),
        schema: None,
        table: table(),
        display: "shop.people".to_string(),
    }
}

fn modal() -> ImportState {
    let mut i = ImportState {
        step: ImportStep::Done,
        path: None,
        format: ImportFormat::Json,
        delimiter: String::new(),
        has_header: false,
        sheets: Vec::new(),
        sheet: None,
        empty_is_null: false,
        null_tokens: String::new(),
        trim: false,
        file_bytes: 9,
        sample: None,
        mapping: Vec::new(),
        issues: Vec::new(),
        more_issues: true,
        error: some("old"),
        imported: 4,
        reading: true,
        loading: false,
        seen: None,
        generation: 3,
        probe_seq: 0,
        target: None,
    };
    i.open_import(target());
    i
}

fn issue(line: u64, column: &str) -> Issue {
    Issue { line, column: column.to_string(), message: "not a number".to_string() }
}

fn sample() -> Sample {
    Sample {
        columns: vec!["a".to_string(), "b".to_string(), "c".to_string()],
        rows: vec![
            vec![some("1"), some("NULL"), some("")],
            vec![some("2"), None],
        ],
        values_withheld: false,
    }
}

fn probe() -> Probe {
    Probe {
        cfg: ReadConfig {
            dialect: CsvDialect { delimiter: b'\t', quote: b'"', has_header: false },
            nulls: vec!["".to_string(), "NULL".to_string(), "\\N".to_string()],
            trim: false,
            sheet: None,
        },
        sheets: vec!["One".to_string(), "Two".to_string()],
        sample: sample(),
        file_bytes: 120,
        mapping: vec![Target::Column(1), Target::Skip, Target::Column(0)],
    }
}

#[test]
fn a_probe_invalidates_the_previous_read_through_the_bundle() {
    let mut i = modal();
    assert!(i.probe(true).is_none(), "no file yet");
    i.file_chosen("/tmp/p.csv".to_string(), Some(ImportFormat::Csv));
    i.issues = vec![issue(1, "a")];
    i.more_issues = true;
    i.error = some("bad");
    let q = i.probe(false).unwrap();
    assert!(i.issues.is_empty() && !i.more_issues && i.error.is_none());
    assert!(i.reading && q.maps);
    assert_eq!(q.path, "/tmp/p.csv");
    assert_eq!(q.cfg.unwrap().dialect.delimiter, b',');
}

#[test]
fn the_problem_list_discloses_its_own_cap_and_not_only_cores() {
    assert!(issue_list(&vec![], true).is_none());
    let many: Vec<Issue> = (0..57).map(|n| issue(n, "")).collect();
    let l = issue_list(&many, false).unwrap();
    assert_eq!(l.heading, "57 problems in the file — nothing was imported.");
    assert_eq!(l.lines.len(), ISSUE_LINES);
    assert_eq!(l.tail, Tail { shown: 50, total: 57, more: false });
    let one = issue_list(&vec![issue(3, "age")], true).unwrap();
    assert_eq!(one.heading, "1 problem in the file — nothing was imported.");
    assert_eq!(one.lines, vec!["line 3, age: not a number"]);
    assert_eq!(one.tail, Tail { shown: 1, total: 1, more: true });
    assert_eq!(issue_line(&issue(12, "")), "line 12: not a number");
}

#[test]
fn the_import_button_says_a_read_only_connection_rather_than_going_quiet() {
    let mut i = modal();
    i.mapping = vec![Target::Column(1)];
    i.path = some("/tmp/p.csv");
    let live = i.mapping_footer(false);
    assert_eq!((live.import_label, live.can_import, live.can_go_back), ("Import", true, true));
    assert_eq!(live.note, None);
    let ro = i.mapping_footer(true);
    assert!(!ro.can_import);
    assert_eq!(ro.note, Some("This connection is read-only."));
    assert!(i.run_import(true).is_none());
    let q = i.run_import(false).unwrap();
    assert_eq!((q.opened, q.mapping), (4, vec![Target::Column(1)]));
    assert_eq!(q.path, "/tmp/p.csv");
    let busy = i.mapping_footer(false);
    assert_eq!((busy.import_label, busy.can_import, busy.can_go_back), ("Importing…", false, false));
    assert!(i.run_import(false).is_none(), "one at a time");
}

#[test]
fn a_modal_is_opened_with_nothing_left_over() {
    let i = modal();
    assert_eq!((i.generation, i.step), (4, ImportStep::Source));
    assert!(i.error.is_none() && !i.more_issues);
    assert!(!i.rereads(), "what it is opened with is no change");
    assert_eq!(i.title(), "shop.people");
    assert_eq!(i.heading(), "Import into shop.people");
    assert_eq!(i.source_footer(), ("Next", false));
}

#[test]
fn a_read_fills_the_settings_it_found() {
    let mut i = modal();
    i.file_chosen("/tmp/p.xlsx".to_string(), Some(ImportFormat::Xlsx));
    let first = i.probe(true).unwrap();
    let second = i.probe(true).unwrap();
    i.probe_done(first.stamp, true, true, Ok(probe()));
    assert!(i.sample.is_none(), "a later read is under way");
    assert_eq!(i.source_footer(), ("Reading…", false));
    i.probe_done(second.stamp, true, true, Ok(probe()));
    assert_eq!(i.source_footer(), ("Next", true));
    assert_eq!((i.delimiter.as_str(), i.has_header, i.empty_is_null), ("\\t", false, true));
    assert_eq!(i.null_tokens, "NULL,\\N");
    assert_eq!(i.mapping, vec![Target::Column(1), Target::Skip, Target::Column(0)]);
    assert!(i.source_step().sheet_picker && !i.source_step().csv);
    assert_eq!(i.current_sheet(), "One");
    assert!(matches!(&i.sheet_menu()[0], Entry::Marked(Act::Pick(0), l) if l == "One"));
    assert!(!i.rereads(), "what the read wrote is no change");
    i.sheet = some("Two");
    assert!(matches!(&i.sheet_menu()[1], Entry::Marked(Act::Pick(1), _)));
    assert!(i.rereads());
    assert!(i.settings_changed());
    assert!(!i.settings_changed(), "it was looked at");
    i.null_tokens = "-".to_string();
    assert!(!i.settings_changed(), "nulls are read anew without the file");
    let third = i.probe(false).unwrap();
    i.probe_done(third.stamp, false, true, Err("gone".to_string()));
    assert_eq!(i.error, some("gone"));
    assert!(i.sample.is_none() && i.sheets.is_empty() && i.file_bytes == 0);
    assert_eq!(i.current_sheet(), "");
    assert!(!i.rereads(), "the sheet that it let go is no change");
    i.probe_done(third.stamp, false, false, Ok(probe()));
    assert_eq!(i.null_tokens, "-", "as it was set");
}

#[test]
fn only_what_the_user_changes_reads_the_file_again() {
    let mut i = modal();
    i.delimiter = ";".to_string();
    assert!(!i.settings_changed(), "there is no file yet");
    i.file_chosen("/tmp/p.json".to_string(), Some(ImportFormat::Json));
    assert!(!i.rereads(), "the format that the name tells");
    i.file_chosen("/tmp/p".to_string(), None);
    assert_eq!(i.format, ImportFormat::Json);
    assert!(!i.rereads());
    let q = i.probe(true).unwrap();
    i.probe_done(q.stamp, true, true, Ok(probe()));
    assert_eq!(i.delimiter, "\\t");
    assert!(!i.rereads(), "the division that was found out");
    i.has_header = true;
    assert!(i.settings_changed());
    i.trim = true;
    i.target = None;
    assert!(!i.settings_changed(), "there is no table any more");
    let mut first = modal();
    first.seen = None;
    first.path = some("/tmp/p.csv");
    first.trim = true;
    assert!(!first.settings_changed(), "the first look is no change");
    first.trim = false;
    assert!(first.settings_changed());
}

#[test]
fn a_load_ends_in_one_of_four_ways() {
    let mut i = modal();
    i.path = some("/tmp/p.csv");
    i.mapping = vec![Target::Column(0)];
    let q = i.run_import(false).unwrap();
    i.run_done(q.opened + 1, ImportOutcome::Done(3));
    assert!(i.loading, "of another opening");
    i.run_done(q.opened, ImportOutcome::Invalid(vec![issue(1, "a")], true));
    assert_eq!((i.loading, i.issues.len(), i.more_issues), (false, 1, true));
    i.run_done(4, ImportOutcome::Failed("lost".to_string()));
    assert_eq!(i.error, some("lost"));
    i.run_done(4, ImportOutcome::Cancelled);
    assert_eq!(
        i.error,
        some("Import cancelled — the transaction rolled back, so nothing was written.")
    );
    i.run_done(4, ImportOutcome::Done(1));
    assert_eq!(i.step, ImportStep::Done);
    assert_eq!(i.done_text(), "Imported 1 row into shop.people.");
    i.imported = 250;
    assert_eq!(i.done_text(), "Imported 250 rows into shop.people.");
}

#[test]
fn a_modal_closes_unless_a_load_is_to_be_stopped() {
    let mut i = modal();
    i.loading = true;
    assert!(i.exit());
    assert!(i.target.is_some());
    i.loading = false;
    assert!(!i.exit());
    assert!(i.target.is_none());
}

#[test]
fn a_table_that_is_gone_closes_the_modal() {
    let node = |db: &str, tables: Option<Vec<TableInfo>>| DbNode {
        database: db.to_string(),
        tables,
    };
    let mut i = modal();
    assert!(!i.schema_changed(&vec![], 7));
    assert!(!i.schema_changed(&vec![node("shop", None)], 7), "not read yet");
    assert!(!i.schema_changed(&vec![node("shop", Some(vec![table()]))], 7));
    assert!(!i.schema_changed(&vec![node("shop", Some(vec![]))], 8), "of another connection");
    assert!(!i.schema_changed(&vec![node("other", None)], 8), "of another connection");
    assert!(i.target.is_some());
    i.loading = true;
    assert!(i.schema_changed(&vec![node("shop", Some(vec![]))], 7), "to be stopped");
    assert!(i.target.is_some());
    i.loading = false;
    i.step = ImportStep::Done;
    assert!(!i.schema_changed(&vec![node("shop", Some(vec![]))], 7));
    assert!(i.target.is_some(), "there is nothing more to lose");
    i.step = ImportStep::Mapping;
    assert!(!i.schema_changed(&vec![node("shop", Some(vec![]))], 7));
    assert!(i.target.is_none());
    let mut i = modal();
    assert!(!i.schema_changed(&vec![node("other", None), node("more", Some(vec![table()]))], 7));
    assert!(i.target.is_none(), "its database is gone");
    let mut i = modal();
    i.loading = true;
    assert!(i.schema_changed(&vec![node("other", None)], 7), "to be stopped");
    assert!(i.target.is_some());
}

#[test]
fn a_delimiter_is_read_and_shown() {
    for (field, d) in [("\\t", b'\t'), ("\t", b'\t'), (";", b';'), ("", b','), ("||", b'|')] {
        assert_eq!(read_delimiter(&field.to_string()), d);
    }
    assert_eq!(read_delimiter(&"é".to_string()), 0xC3);
    assert_eq!(delimiter_display(b'\t'), "\\t");
    assert_eq!(delimiter_display(b';'), ";");
    assert_eq!(delimiter_display(200), "È");
}

#[test]
fn what_stands_for_no_value_is_listed() {
    assert_eq!(null_rule(true, " NULL, ,\\N"), vec!["", "NULL", "\\N"]);
    assert_eq!(null_rule(false, ""), Vec::<String>::new());
    let listed = vec!["NULL".to_string(), "n/a".to_string(), "\\N".to_string()];
    assert_eq!(null_rule(false, &join(&listed, ",")), listed);
    let mut with_empty = vec![String::new()];
    with_empty.extend(listed.clone());
    assert_eq!(null_rule(true, &join(&listed, ",")), with_empty);
    let nulls = vec!["".to_string(), "NULL".to_string()];
    assert_eq!(preview_field(&None, &nulls, true), PreviewKind::Null);
    assert_eq!(preview_field(&some("NULL"), &nulls, false), PreviewKind::Null);
    assert_eq!(preview_field(&some("NULL"), &nulls, true), PreviewKind::Text);
    assert_eq!(preview_field(&some("null"), &nulls, false), PreviewKind::Text);
}

#[test]
fn a_preview_shows_what_would_land() {
    let nulls = vec!["NULL".to_string()];
    let mapping = vec![Target::Skip, Target::Column(0), Target::Column(1)];
    assert!(matches!(preview_table(&None, &mapping, &nulls, false), Preview::Empty));
    let none = preview_table(&Some(sample()), &vec![], &nulls, false);
    assert_eq!(preview_message(&none), Some("Nothing is mapped, so there's nothing to import."));
    let withheld = Some(Sample { values_withheld: true, ..sample() });
    assert!(matches!(preview_table(&withheld, &mapping, &nulls, false), Preview::Withheld));
    assert!(preview_message(&Preview::Withheld).unwrap().starts_with("This file's first record"));
    match preview_table(&Some(sample()), &mapping, &nulls, false) {
        Preview::Table(cols, rows) => {
            assert_eq!(cols, vec![1, 2]);
            let shown: Vec<Vec<(&str, bool)>> = rows
                .iter()
                .map(|r| r.iter().map(|c| (c.text.as_str(), c.is_null)).collect())
                .collect();
            assert_eq!(
                shown,
                vec![
                    vec![("NULL", true), ("", false)],
                    vec![("NULL", true), ("NULL", true)]
                ]
            );
        }
        _ => panic!("a table"),
    }
    let long = Some(Sample { rows: (0..60).map(|_| vec![]).collect(), ..sample() });
    assert!(matches!(
        preview_table(&long, &mapping, &nulls, false),
        Preview::Table(_, rows) if rows.len() == PREVIEW_ROWS
    ));
    assert_eq!(shown_cols(2, &mapping), vec![1]);
}

#[test]
fn no_two_columns_of_the_file_fill_one_of_the_table() {
    let mut m = vec![Target::Column(0), Target::Column(1), Target::Skip];
    pick_target(&mut m, 2, Target::Column(0));
    assert_eq!(m, vec![Target::Skip, Target::Column(1), Target::Column(0)]);
    pick_target(&mut m, 1, Target::Skip);
    pick_target(&mut m, 9, Target::Column(0));
    assert_eq!(m, vec![Target::Skip, Target::Skip, Target::Skip], "freed all the same");
    assert_eq!(current_target(&m, 9), Target::Skip);
    assert_eq!(target_label(Target::Skip, &table()), "Skip");
    assert_eq!(target_label(Target::Column(1), &table()), "name  (varchar(20))");
    assert_eq!(target_label(Target::Column(5), &table()), "—");
    let menu = mapping_row(&vec![Target::Column(0)], 0, &table());
    assert!(matches!(&menu[0], Entry::Item(Act::Pick(0), l) if l == "Skip"));
    assert!(matches!(&menu[1], Entry::Marked(Act::Pick(1), l) if l == "id  (int)"));
    assert_eq!(menu.len(), 3);
    assert!(!has_insert_columns(&vec![Target::Skip, Target::Column(2)], &table()));
    assert!(has_insert_columns(&vec![Target::Skip, Target::Column(1)], &table()));
}

#[test]
fn a_mapping_warns_of_what_may_fail() {
    assert_eq!(missing_note(&vec![]), None);
    assert_eq!(
        missing_note(&vec!["a".to_string(), "b".to_string()]),
        some("Not mapped, and can't be empty: a, b. The import will fail unless the database fills them in.")
    );
    assert_eq!(engine_note(&None, false), None);
    assert_eq!(engine_note(&some("InnoDB"), true), None);
    assert_eq!(
        engine_note(&some("MyISAM"), false),
        some("This table's storage engine (MyISAM) is not transactional, so a failed import can't be undone — the rows loaded before the failure will remain.")
    );
    assert_eq!(mapping_tab(100, 10, 3), 130);
    assert!(names_its_columns(false, ImportFormat::Json));
    assert!(!names_its_columns(false, ImportFormat::Csv));
    assert!(names_its_columns(true, ImportFormat::Xlsx));
    assert_eq!(file_label(false, &some("a.csv")), "No file chosen");
    assert_eq!(file_label(true, &some("a.csv")), "a.csv");
    assert_eq!(file_label(true, &None), "(file)");
}

#[test]
fn no_two_controls_claim_the_same_tab_stop() {
    let stops = vec![
        TAB_NAME,
        TAB_SHAPE,
        TAB_SCHED,
        TAB_SCHED + 10,
        TAB_SCHED + 20,
        TAB_SCHED + 30,
        TAB_BODY,
        TAB_OPT,
        TAB_OPT + 10,
        TAB_OPT + 20,
        TAB_OPT + 30,
    ];
    assert_eq!(tab_order(), stops);
    let mut seen: Vec<u32> = Vec::new();
    for (i, t) in tab_order().into_iter().enumerate() {
        assert!(!seen.contains(&t), "index {t} is claimed twice — control {i} collides");
        if let Some(prev) = seen.last() {
            assert!(*prev < t, "control {i} at {t} walks back above {prev}");
        }
        seen.push(t);
    }
    assert!(TAB_OPT + 30 < 1000);
}

fn event() -> EventInfo {
    EventInfo {
        name: "purge".to_string(),
        schema: None,
        body: "DELETE".to_string(),
        schedule: EventSchedule::Every {
            value: "5".to_string(),
            unit: "MINUTE".to_string(),
            starts: some("2024-01-01"),
            ends: None,
        },
        status: EventStatus::Enabled,
        preserve: false,
        definer: None,
        comment: None,
        session: Vec::new(),
    }
}

fn blank() -> EventSchedule {
    EventSchedule::Every {
        value: "1".to_string(),
        unit: "DAY".to_string(),
        starts: None,
        ends: None,
    }
}

fn editor(current: Option<EventInfo>) -> (EventEditor, Option<schemaic_ui::events::SourceRequest>) {
    let mut e = EventEditor {
        session: 0,
        target: None,
        draft: event(),
        body: String::new(),
        source_pending: false,
        body_stale: true,
        error: some("old"),
        previewing: true,
    };
    let t = EventTarget {
        conn_id: 2,
        database: "shop".to_string(),
        current,
        read_only: false,
    };
    let q = e.open(t, event());
    (e, q)
}

fn source() -> Option<EventSource> {
    Some(EventSource { body: some("DELETE /* all */"), session: vec![some("utf8mb4"), None] })
}

#[test]
fn an_events_body_is_read_as_it_was_written() {
    let (new, q) = editor(None);
    assert!(q.is_none() && !new.source_pending && new.is_shown());
    assert_eq!(new.opened_body(), "");
    let (mut e, q) = editor(Some(event()));
    let q = q.unwrap();
    assert_eq!((q.conn_id, q.database.as_str(), q.name.as_str(), q.session), (2, "shop", "purge", 1));
    assert!(e.source_pending && !e.body_stale && e.error.is_none());
    assert_eq!(e.opened_body(), "DELETE");
    e.source_done(&q, &"other".to_string(), source(), SourceOutcome::Adopted);
    assert!(e.source_pending, "of another event");
    e.source_done(&q, &"purge".to_string(), source(), SourceOutcome::Adopted);
    assert_eq!(e.body, "DELETE /* all */");
    assert_eq!(e.draft.body, "DELETE /* all */");
    assert_eq!(e.draft.session, vec![some("utf8mb4"), None]);
    assert_eq!(e.opened_body(), "DELETE /* all */");
    assert!(!e.source_pending && !e.body_stale);
    e.close();
    assert!(!e.is_shown());
}

#[test]
fn a_body_that_comes_too_late_replaces_nothing() {
    let (mut e, q) = editor(Some(event()));
    let q = q.unwrap();
    e.draft.set_body(&"SELECT 1".to_string());
    e.body = "SELECT 1".to_string();
    e.source_done(&q, &"purge".to_string(), source(), SourceOutcome::Stale);
    assert_eq!((e.body.as_str(), e.draft.body.as_str()), ("SELECT 1", "SELECT 1"));
    assert!(e.body_stale);
    let (mut e, q) = editor(Some(event()));
    let q = q.unwrap();
    e.source_done(&q, &"purge".to_string(), None, SourceOutcome::Unchanged);
    assert!(!e.source_pending && !e.body_stale);
    e.source_pending = true;
    e.session = 9;
    e.source_done(&q, &"purge".to_string(), source(), SourceOutcome::Adopted);
    assert!(e.source_pending, "the editor was opened anew");
}

#[test]
fn a_schedule_keeps_to_its_shape() {
    let mut e = event();
    assert!(!e.is_one_shot());
    e.set_shape(true, blank());
    e.set_value(" 10 ");
    e.set_unit(&"HOUR".to_string());
    e.set_starts("  ");
    e.set_ends(" 2030-01-01");
    let f = schedule_form(&e.schedule);
    assert_eq!((f.value.as_str(), f.unit.as_str()), ("10", "HOUR"));
    assert_eq!((f.starts.as_str(), f.ends.as_str(), f.at.as_str()), ("", "2030-01-01", ""));
    e.set_shape(false, blank());
    assert!(matches!(&e.schedule, EventSchedule::At(t) if t.is_empty()));
    e.set_value("3");
    e.set_ends("x");
    assert!(e.is_one_shot(), "an interval's fields leave it alone");
    e.set_at(" 2025-05-05 ");
    let f = schedule_form(&e.schedule);
    assert_eq!((f.at.as_str(), f.value.as_str(), f.unit.as_str()), ("2025-05-05", "1", "DAY"));
    e.set_shape(true, blank());
    assert_eq!(schedule_form(&e.schedule).value, "1");
    assert_eq!((shape_label(true), shape_label(false)), ("Repeating", "Once"));
}

#[test]
fn a_form_writes_what_was_typed() {
    let mut e = event();
    e.set_name("  nightly ");
    e.set_definer("root@%");
    e.set_comment("   ");
    e.set_preserve(true);
    assert_eq!(e.name, "nightly");
    assert_eq!((e.definer.clone(), e.comment.clone(), e.preserve), (some("root@%"), None, true));
    assert_eq!(e.status_choices(), vec![EventStatus::Enabled, EventStatus::Disabled]);
    let choices = vec![
        StatusChoice { status: EventStatus::Enabled, label: "Enabled".to_string() },
        StatusChoice { status: EventStatus::Disabled, label: "Disabled".to_string() },
    ];
    e.set_status(&choices, &"Disabled".to_string());
    assert_eq!(e.status, EventStatus::Disabled);
    e.set_status(&choices, &"nope".to_string());
    assert_eq!(e.status, EventStatus::Disabled);
    e.status = EventStatus::ReplicaDisabled;
    assert_eq!(e.status_choices().len(), 3);
    assert!(!field_writes(&None, &"a".to_string()));
    assert!(!field_writes(&some("a"), &"a".to_string()));
    assert!(field_writes(&some("a"), &"b".to_string()));
    let units = || vec!["DAY".to_string(), "HOUR".to_string()];
    assert_eq!(interval_units(units(), &"day".to_string()), units());
    assert_eq!(interval_units(units(), &" ".to_string()), units());
    assert_eq!(interval_units(units(), &"DAY_HOUR".to_string())[2], "DAY_HOUR");
}

#[test]
fn a_name_is_taken_in_its_own_schema() {
    let ev = |n: &str, s: Option<&str>| EventName {
        name: n.to_string(),
        schema: s.map(str::to_string),
    };
    let nodes = vec![
        EventNode { database: "other".to_string(), events: Some(vec![ev("x", None)]) },
        EventNode {
            database: "shop".to_string(),
            events: Some(vec![ev("a", None), ev("b", Some("s")), ev("c", None)]),
        },
        EventNode { database: "late".to_string(), events: None },
    ];
    let db = |s: &str| s.to_string();
    assert_eq!(taken_names(&nodes, &db("shop"), &None), vec!["a", "c"]);
    assert_eq!(taken_names(&nodes, &db("shop"), &some("s")), vec!["b"]);
    assert!(taken_names(&nodes, &db("late"), &None).is_empty());
    assert!(taken_names(&nodes, &db("gone"), &None).is_empty());
}

#[test]
fn the_foot_says_why_there_is_no_preview() {
    let e = vec!["no name".to_string()];
    let none: Vec<String> = Vec::new();
    let foot = |p: bool, s: bool, errs: &Vec<String>, clash: Option<String>, n: usize| {
        (event_footer(p, s, errs, &clash, n), can_preview(p, s, errs, &clash, n))
    };
    assert_eq!(
        foot(true, true, &e, None, 1),
        (("Reading the event's source…".to_string(), false), false)
    );
    let (late, ok) = foot(false, true, &e, None, 1);
    assert!(late.0.starts_with("The event's real source arrived") && late.1 && !ok);
    assert_eq!(foot(false, false, &e, some("taken"), 1), (("no name".to_string(), true), false));
    assert_eq!(foot(false, false, &none, some("taken"), 1), (("taken".to_string(), true), false));
    assert_eq!(foot(false, false, &none, None, 0), (("No changes".to_string(), false), false));
    assert_eq!(foot(false, false, &none, None, 1), (("1 change".to_string(), false), true));
    assert_eq!(foot(false, false, &none, None, 12), (("12 changes".to_string(), false), true));
    let mut t = EventTarget {
        conn_id: 1,
        database: "shop".to_string(),
        current: None,
        read_only: false,
    };
    assert_eq!(editor_title(&t, "shop"), "Create event in shop");
    assert!(t.creates());
    t.current = Some(event());
    assert!(!t.creates());
    assert_eq!(editor_title(&t, "shop"), "Edit event shop.purge");
}

fn ran(conn_id: u64, failed: bool, tab: Option<&str>) -> HistoryEntry {
    HistoryEntry {
        conn_id,
        sql: "SELECT 1".to_string(),
        database: None,
        tab_name: tab.map(str::to_string),
        ts: 0,
        failed,
    }
}

#[test]
fn a_search_narrows_the_list_and_not_the_clear() {
    let entries = vec![ran(1, false, None), ran(2, false, None), ran(1, true, None)];
    assert_eq!(visible_entries(&entries, &vec![true, true, true], 1), vec![0, 2]);
    assert_eq!(visible_entries(&entries, &vec![false, true, true], 1), vec![2]);
    assert_eq!(count_conn(&entries, 1), 2);
    assert!(clear_confirm(0).is_none());
    let one = clear_confirm(1).unwrap();
    assert_eq!(one.title, "Clear query history");
    assert_eq!(
        one.message,
        "Delete 1 recorded query for this connection? This can't be undone."
    );
    assert_eq!(
        clear_confirm(2).unwrap().message,
        "Delete 2 recorded queries for this connection? This can't be undone."
    );
    assert_eq!(clear_tip(), "Clear this connection's history…");
    assert_eq!(empty_message("  "), "No queries yet.");
    assert_eq!(empty_message(" x"), "No matching queries.");
    assert_eq!(search_term(" x y "), some("x y"));
    assert_eq!(search_term(" "), None);
    assert_eq!(find_connection(&vec![4, 9, 9], 9), Some(1));
    assert_eq!(find_connection(&vec![4], 9), None);
}

#[test]
fn an_entry_shows_where_it_ran_and_how() {
    let r = history_row(&ran(1, true, Some("Tab 1")), true);
    assert_eq!((r.database.as_str(), r.outcome, r.tab_name), ("—", Some("Failed"), some("Tab 1")));
    let r = history_row(&ran(1, false, Some(" ")), true);
    assert_eq!((r.outcome, r.tab_name), (Some(""), None));
    assert_eq!(history_row(&ran(1, true, None), false).outcome, None);
    let groups = group_headers(&vec![3, 12]);
    assert_eq!((groups[0].count.as_str(), groups[0].top_rule), ("3", true));
    assert_eq!((groups[1].count.as_str(), groups[1].top_rule), ("12", false));
    let menu = row_menu();
    assert!(matches!(&menu[0], Entry::Item(Act::Open, l) if l == "Open in new tab"));
    assert!(matches!(&menu[1], Entry::Separator));
    assert!(matches!(&menu[2], Entry::Item(Act::Remove, l) if l == "Delete"));
}
