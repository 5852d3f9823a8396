use schemaic_ui::find::{find_hits, find_label, find_pos, FindStep, Formatted};
use schemaic_ui::find::{FIND_COUNT_CELL_BUDGET, FIND_MAX_HITS};
use schemaic_ui::geometry::{
    autofit_width, compute_window, data_cols, drag_divider, init_widths, numeric_edit_pad_left,
    reclaim_keyboard, rescale_widths, scroll_active_into_view, Area, ColWindow, Metrics, Viewport,
};
use schemaic_ui::keymap::{At, KeyMap};
use schemaic_ui::model::{Cell, CellTag, Column, Number, ResultSet};
use schemaic_ui::selection::{
    bounds, cell_in, delete_vote, goto_fires, nav_target, row_range_selection, row_selection,
    selection_kind, Ends, Nav, SelKind, Span, TopBars,
};
use schemaic_ui::sort::{compute_order, cycle_sort, SortState};

fn num(n: i64) -> Cell {
    Cell { tag: CellTag::Int, text: n.to_string(), number: Number::At(n) }
}

fn txt(s: &str) -> Cell {
    Cell { tag: CellTag::Str, text: s.to_string(), number: Number::Absent }
}

fn null() -> Cell {
    Cell { tag: CellTag::Null, text: "NULL".to_string(), number: Number::Absent }
}

fn col(name: &str, ty: &str) -> Column {
    Column { name: name.to_string(), sql_type: ty.to_string(), numeric: false, origin: None }
}

fn result(columns: Vec<Column>, rows: Vec<Vec<Cell>>) -> ResultSet {
    ResultSet { columns, rows, affected: None, elapsed_ms: 0, truncated: false }
}

fn rs_col(ty: &str, cells: Vec<Cell>) -> ResultSet {
    result(vec![col("c", ty)], cells.into_iter().map(|v| vec![v]).collect())
}

#[test]
fn compute_order_none_is_identity() {
    let rs = rs_col("INT", vec![num(3), num(1), num(2)]);
    assert_eq!(compute_order(&rs, None), vec![0, 1, 2]);
}

#[test]
fn compute_order_numeric_ascending_and_descending() {
    let rs = rs_col("INT", vec![num(10), num(9), num(-1), num(2)]);
    assert_eq!(compute_order(&rs, Some((0, true))), vec![2, 3, 1, 0]);
    assert_eq!(compute_order(&rs, Some((0, false))), vec![0, 1, 3, 2]);
}

#[test]
fn compute_order_nulls_sort_last_ascending() {
    let rs = rs_col("INT", vec![num(2), null(), num(1)]);
    assert_eq!(compute_order(&rs, Some((0, true))), vec![2, 0, 1]);
    assert_eq!(compute_order(&rs, Some((0, false))), vec![1, 0, 2]);
}

#[test]
fn compute_order_text_is_lexical() {
    let rs = rs_col("VARCHAR", vec![txt("banana"), txt("apple"), txt("cherry")]);
    assert_eq!(compute_order(&rs, Some((0, true))), vec![1, 0, 2]);
}

#[test]
fn compute_order_matches_naive_pairwise_on_mixed_column() {
    let rs = rs_col("MIXED", vec![num(100), txt("apple"), null(), num(9), txt("9zzz")]);
    let got = compute_order(&rs, Some((0, true)));
    let mut want: Vec<usize> = (0..rs.row_count()).collect();
    want.sort_by(|&a, &b| {
        let (x, y) = (rs.cell(a, 0).unwrap(), rs.cell(b, 0).unwrap());
        match (x.is_null(), y.is_null()) {
            (true, true) => std::cmp::Ordering::Equal,
            (true, false) => std::cmp::Ordering::Greater,
            (false, true) => std::cmp::Ordering::Less,
            (false, false) => match (x.cell_num(), y.cell_num()) {
                (Number::At(p), Number::At(q)) => p.cmp(&q),
                _ => x.text.cmp(&y.text),
            },
        }
    });
    assert_eq!(got, want);
}

#[test]
fn rows_that_compare_the_same_keep_the_order_of_the_query() {
    let rs = rs_col("INT", vec![num(1), num(0), num(1), num(0), num(1)]);
    assert_eq!(compute_order(&rs, Some((0, true))), vec![1, 3, 0, 2, 4]);
    assert_eq!(compute_order(&rs, Some((0, false))), vec![0, 2, 4, 1, 3]);
}

#[test]
fn a_column_that_is_not_there_leaves_the_rows_alone() {
    let rs = rs_col("INT", vec![num(3), num(1)]);
    assert_eq!(compute_order(&rs, Some((7, true))), vec![0, 1]);
}

#[test]
fn a_number_without_an_order_compares_the_same_as_any() {
    let nan = Cell { tag: CellTag::Float, text: "NaN".to_string(), number: Number::Unordered };
    let rs = rs_col("FLOAT", vec![nan, num(1)]);
    assert_eq!(compute_order(&rs, Some((0, true))), vec![0, 1]);
}

#[test]
fn text_that_looks_like_a_number_sorts_as_text() {
    let mut nine = txt("9");
    nine.number = Number::At(9);
    let mut ten = txt("10");
    ten.number = Number::At(10);
    let rs = rs_col("VARCHAR", vec![nine, ten]);
    assert_eq!(compute_order(&rs, Some((0, true))), vec![1, 0]);
}

#[test]
fn a_long_column_is_sorted_like_the_standard_library_does() {
    let mut cells = Vec::new();
    let mut x: i64 = 12345;
    for _ in 0..5000 {
        x = (x * 1103515245 + 12345) % 2147483648;
        cells.push(num(x % 100));
    }
    let rs = rs_col("INT", cells);
    let mut want: Vec<usize> = (0..rs.row_count()).collect();
    want.sort_by_key(|&i| match rs.rows[i][0].number {
        Number::At(n) => n,
        _ => unreachable!(),
    });
    assert_eq!(compute_order(&rs, Some((0, true))), want);
}

#[test]
fn a_header_is_cycled_through_three_states() {
    let mut s: SortState = None;
    cycle_sort(&mut s, 2);
    assert_eq!(s, Some((2, true)));
    cycle_sort(&mut s, 2);
    assert_eq!(s, Some((2, false)));
    cycle_sort(&mut s, 2);
    assert_eq!(s, None);
    cycle_sort(&mut s, 1);
    cycle_sort(&mut s, 4);
    assert_eq!(s, Some((4, true)));
}

const W: [u32; 8] = [80, 120, 60, 200, 90, 150, 110, 70];

fn px() -> Metrics {
    Metrics {
        pixel: 1,
        char_w: 7,
        pad_h: 10,
        num_pad_right: 14,
        divider: 1,
        key_icon_w: 22,
        min_col_w: 48,
        max_col_w_init: 420,
        max_col_w_fit: 900,
        cell_w: 190,
        row_h: 26,
    }
}

fn vp_at(x: u64, w: u64) -> Viewport {
    Viewport { x, y: 0, w, h: 400 }
}

fn zero() -> Viewport {
    Viewport { x: 0, y: 0, w: 0, h: 0 }
}

fn spanned(w: &ColWindow, widths: &[u32], cols: &[usize]) -> u128 {
    let visible: u128 = cols[w.start..w.end].iter().map(|&c| widths[c] as u128).sum();
    w.left_pad + visible + w.right_pad
}

fn total(widths: &[u32], cols: &[usize]) -> u128 {
    cols.iter().map(|&c| widths[c] as u128).sum()
}

#[test]
fn compute_window_spacers_always_make_up_the_hidden_columns() {
    let all: Vec<usize> = (0..W.len()).collect();
    let sum = total(&W, &all);
    for width in [150u64, 400, 1200] {
        for overscan in [0, 2] {
            let mut x0 = 0u64;
            while x0 as u128 <= sum + 100 {
                let w = compute_window(vp_at(x0, width), &W.to_vec(), &all, &px(), overscan);
                assert_eq!(
                    spanned(&w, &W, &all),
                    sum,
                    "x0={x0} width={width} overscan={overscan} → {w:?}"
                );
                x0 += 25;
            }
        }
    }
}

#[test]
fn compute_window_before_layout_renders_a_non_empty_slice() {
    let all: Vec<usize> = (0..W.len()).collect();
    let w = compute_window(zero(), &W.to_vec(), &all, &px(), 2);
    assert_eq!((w.start, w.end), (0, W.len()));
    assert_eq!(w.left_pad, 0);
    assert_eq!(w.right_pad, 0);
    let widths: Vec<u32> = (0..40).map(|i| 50 + i as u32).collect();
    let cols: Vec<usize> = (0..40).collect();
    let w = compute_window(zero(), &widths, &cols, &px(), 2);
    assert_eq!((w.start, w.end), (0, 16));
    assert_eq!(spanned(&w, &widths, &cols), total(&widths, &cols));
}

#[test]
fn compute_window_at_the_origin_has_no_left_pad() {
    let all: Vec<usize> = (0..W.len()).collect();
    let w = compute_window(vp_at(0, 200), &W.to_vec(), &all, &px(), 2);
    assert_eq!(w.start, 0);
    assert_eq!(w.left_pad, 0);
}

#[test]
fn compute_window_scrolled_fully_right_reaches_the_last_column() {
    let all: Vec<usize> = (0..W.len()).collect();
    let sum = total(&W, &all);
    let w = compute_window(vp_at(sum as u64 - 150, 150), &W.to_vec(), &all, &px(), 2);
    assert_eq!(w.end, W.len());
    assert_eq!(w.right_pad, 0);
    assert!(w.start > 0, "a mid-scroll window should skip leading columns");
}

#[test]
fn compute_window_sums_over_data_cols_only_under_a_freeze() {
    let cols: Vec<usize> = (0..W.len()).filter(|&c| c != 3).collect();
    let sum = total(&W, &cols);
    assert_eq!(sum, total(&W, &(0..W.len()).collect::<Vec<_>>()) - W[3] as u128);
    for x0 in [0u64, 90, 250, 600] {
        let w = compute_window(vp_at(x0, 200), &W.to_vec(), &cols, &px(), 2);
        assert_eq!(spanned(&w, &W, &cols), sum, "x0={x0}");
    }
}

#[test]
fn compute_window_on_no_columns_is_empty_rather_than_panicking() {
    for vp in [zero(), vp_at(0, 400), vp_at(500, 400)] {
        let w = compute_window(vp, &W.to_vec(), &Vec::new(), &px(), 2);
        assert_eq!((w.start, w.end), (0, 0));
        assert_eq!((w.left_pad, w.right_pad), (0, 0));
    }
}

#[test]
fn compute_window_overscan_widens_the_visible_window() {
    let all: Vec<usize> = (0..W.len()).collect();
    let vp = vp_at(200, 200);
    let tight = compute_window(vp, &W.to_vec(), &all, &px(), 0);
    let loose = compute_window(vp, &W.to_vec(), &all, &px(), 2);
    assert!(loose.start <= tight.start && loose.end >= tight.end);
    assert!(loose.start < tight.start || loose.end > tight.end);
}

#[test]
fn every_column_the_viewport_meets_is_drawn() {
    let all: Vec<usize> = (0..W.len()).collect();
    // Columns start at 0, 80, 200, 260, 460, 550, 700, 810.
    let w = compute_window(vp_at(210, 260), &W.to_vec(), &all, &px(), 0);
    assert_eq!((w.start, w.end), (2, 5));
    assert_eq!((w.left_pad, w.right_pad), (200, 330));
}

#[test]
fn a_width_that_is_not_known_is_the_default_one() {
    let w = compute_window(zero(), &vec![80], &(0..20).collect(), &px(), 0);
    assert_eq!(w.right_pad, 4 * 190);
}

fn at(row: usize, col: usize) -> At {
    At { row, col }
}

fn nav(from: (usize, usize), n: Nav) -> (usize, usize) {
    let to = nav_target(5, 4, 2, at(from.0, from.1), n);
    (to.row, to.col)
}

#[test]
fn nav_target_moves_down_into_the_pending_rows() {
    assert_eq!(nav((2, 1), Nav::Down), (3, 1));
    assert_eq!(nav((3, 1), Nav::Down), (4, 1));
}

#[test]
fn nav_target_clamps_at_the_last_display_row() {
    assert_eq!(nav((4, 1), Nav::Down), (4, 1));
    assert_eq!(nav((3, 1), Nav::PageDown), (4, 1));
    assert_eq!(nav((0, 0), Nav::Last), (4, 3));
}

#[test]
fn nav_target_clamps_at_the_last_column() {
    assert_eq!(nav((1, 3), Nav::Right), (1, 3));
    assert_eq!(nav((1, 0), Nav::RowEnd), (1, 3));
}

#[test]
fn nav_target_saturates_at_the_origin() {
    assert_eq!(nav((0, 0), Nav::Up), (0, 0));
    assert_eq!(nav((0, 0), Nav::Left), (0, 0));
    assert_eq!(nav((1, 2), Nav::PageUp), (0, 2));
    assert_eq!(nav((3, 2), Nav::First), (0, 0));
    assert_eq!(nav((3, 2), Nav::RowStart), (3, 0));
}

#[test]
fn nav_target_on_an_empty_grid_stays_at_the_origin() {
    for n in [Nav::Down, Nav::Right, Nav::Last, Nav::RowEnd, Nav::PageDown] {
        assert_eq!(nav_target(0, 0, 2, at(0, 0), n), at(0, 0));
    }
}

#[test]
fn a_step_back_returns() {
    assert_eq!(nav(nav((2, 1), Nav::Down), Nav::Up), (2, 1));
    assert_eq!(nav(nav((2, 1), Nav::Right), Nav::Left), (2, 1));
}

fn marks(rows: &[usize]) -> KeyMap<usize, ()> {
    let mut m = KeyMap::new();
    for r in rows {
        m.insert(*r, ());
    }
    m
}

#[test]
fn a_mixed_range_marks_them_all() {
    assert!(delete_vote(&marks(&[1]), &vec![1, 2, 3]));
}

#[test]
fn a_range_with_nothing_marked_marks() {
    assert!(delete_vote(&marks(&[]), &vec![1, 2, 3]));
}

#[test]
fn a_fully_marked_range_unmarks() {
    assert!(!delete_vote(&marks(&[1, 2, 3]), &vec![1, 2, 3]));
}

#[test]
fn an_empty_range_unmarks_nothing() {
    assert!(!delete_vote(&marks(&[1]), &vec![]));
}

#[test]
fn opening_either_bar_closes_the_other() {
    let mut bars = TopBars { find_open: false, goto_open: false };
    bars.set_goto(true);
    bars.set_find(true);
    assert!(bars.find_open);
    assert!(!bars.goto_open, "Ctrl+F must close the goto bar");
    bars.set_goto(true);
    assert!(bars.goto_open);
    assert!(!bars.find_open, "Ctrl+G must close the find bar");
}

#[test]
fn closing_a_bar_leaves_the_other_alone() {
    let mut bars = TopBars { find_open: false, goto_open: false };
    bars.set_find(true);
    bars.set_find(false);
    assert!(!bars.find_open);
    assert!(!bars.goto_open);
    bars.set_goto(true);
    bars.set_find(false);
    assert!(bars.goto_open);
}

#[test]
fn the_first_run_never_jumps() {
    assert!(!goto_fires(None, 0));
    assert!(!goto_fires(None, 7));
}

#[test]
fn an_unchanged_nonce_does_not_re_fire() {
    assert!(!goto_fires(Some(7), 7));
}

#[test]
fn a_bumped_nonce_jumps() {
    assert!(goto_fires(Some(7), 8));
    assert!(goto_fires(Some(u64::MAX), 0));
}

fn kind_of_ends(e: Ends, ncols: usize) -> SelKind {
    selection_kind(bounds(Some(e.active), Some(e.anchor)), Some(e.anchor), ncols)
}

#[test]
fn a_row_gesture_reads_as_a_row_selection() {
    assert_eq!(kind_of_ends(row_selection(4, 5), 5), SelKind::WholeRow);
}

#[test]
fn a_row_gesture_on_a_single_column_result_is_one_cell() {
    let e = row_selection(4, 1);
    assert_eq!(e.active, at(4, 0), "the last column is also the first");
    assert_eq!(kind_of_ends(e, 1), SelKind::Nothing);
}

#[test]
fn several_rows_of_a_single_column_are_read_by_it() {
    assert_eq!(kind_of_ends(row_range_selection(1, 4, 1), 1), SelKind::Column(0));
    assert_eq!(kind_of_ends(row_range_selection(4, 1, 3), 3), SelKind::WholeRow);
}

fn span(r0: usize, c0: usize, r1: usize, c1: usize) -> Option<Span> {
    Some(Span { r0, c0, r1, c1 })
}

#[test]
fn a_single_cell_gets_no_readout() {
    assert_eq!(selection_kind(span(3, 1, 3, 1), Some(at(3, 1)), 5), SelKind::Nothing);
}

#[test]
fn nothing_selected_gets_no_readout() {
    assert_eq!(selection_kind(None, None, 5), SelKind::Nothing);
}

#[test]
fn the_column_is_the_one_the_selection_started_on() {
    assert_eq!(selection_kind(span(0, 1, 4, 3), Some(at(0, 3)), 8), SelKind::Column(3));
}

#[test]
fn a_span_over_every_column_is_counts_only() {
    assert_eq!(selection_kind(span(0, 0, 9, 4), Some(at(0, 0)), 5), SelKind::WholeRow);
}

#[test]
fn a_single_column_result_still_aggregates() {
    assert_eq!(selection_kind(span(0, 0, 9, 0), Some(at(0, 0)), 1), SelKind::Column(0));
}

#[test]
fn a_partial_span_names_the_anchor_column() {
    assert_eq!(selection_kind(span(0, 2, 3, 3), Some(at(0, 2)), 5), SelKind::Column(2));
}

#[test]
fn a_selection_is_the_rectangle_between_its_ends() {
    let b = bounds(Some(at(4, 1)), Some(at(2, 3)));
    assert_eq!(b, span(2, 1, 4, 3));
    assert_eq!(b, bounds(Some(at(2, 3)), Some(at(4, 1))));
    assert!(cell_in(b, 3, 2));
    assert!(!cell_in(b, 5, 2));
    assert_eq!(bounds(Some(at(4, 1)), None), span(4, 1, 4, 1));
    assert_eq!(bounds(None, Some(at(4, 1))), None);
}

fn c(name: &str) -> Column {
    col(name, "VARCHAR")
}

fn grid(rows: &[[&str; 2]]) -> ResultSet {
    result(vec![c("a"), c("b")], rows.iter().map(|r| r.iter().map(|s| txt(s)).collect()).collect())
}

fn fmts() -> Vec<Formatted> {
    vec![None, None]
}

#[test]
fn an_empty_query_matches_nothing() {
    let rs = grid(&[["alpha", "beta"]]);
    assert_eq!(find_hits(&rs, &vec![0], &fmts(), ""), (Vec::new(), false));
}

#[test]
fn hits_are_display_positions_not_data_positions() {
    let rs = grid(&[["zulu", "x"], ["alpha", "y"]]);
    let (hits, more) = find_hits(&rs, &vec![1, 0], &fmts(), "zulu");
    assert!(!more);
    assert_eq!(hits, vec![2], "display row 1, column 0");
}

#[test]
fn matching_is_case_insensitive_and_substring() {
    let rs = grid(&[["Alpha", "beta"]]);
    assert_eq!(find_hits(&rs, &vec![0], &fmts(), "LPH").0, vec![0]);
}

#[test]
fn every_matching_cell_in_a_row_is_its_own_hit() {
    let rs = grid(&[["match", "match"]]);
    assert_eq!(find_hits(&rs, &vec![0], &fmts(), "match").0, vec![0, 1]);
}

#[test]
fn the_hit_cap_reports_more_rather_than_a_wrong_total() {
    let rows: Vec<[&str; 2]> = vec![["hit", "hit"]; FIND_MAX_HITS];
    let rs = grid(&rows);
    let order: Vec<usize> = (0..rows.len()).collect();
    let (hits, more) = find_hits(&rs, &order, &fmts(), "hit");
    assert_eq!(hits.len(), FIND_MAX_HITS);
    assert!(more, "capped, so the count is a floor not a total");
}

#[test]
fn the_scan_budget_also_reports_more() {
    let rows: Vec<[&str; 2]> = vec![["x", "y"]; FIND_COUNT_CELL_BUDGET];
    let rs = grid(&rows);
    let order: Vec<usize> = (0..rows.len()).collect();
    let (hits, more) = find_hits(&rs, &order, &fmts(), "nomatch");
    assert!(hits.is_empty());
    assert!(more, "the scan stopped early, so 0 is not a real total");
}

#[test]
fn matching_uses_the_displayed_value_not_the_raw_one() {
    let rs = result(vec![c("when")], vec![vec![num(0)], vec![num(86_400)]]);
    let formats: Vec<Formatted> =
        vec![Some(vec!["1970-01-01 00:00:00".to_string(), "1970-01-02 00:00:00".to_string()])];
    let (hits, _) = find_hits(&rs, &vec![0, 1], &formats, "1970");
    assert_eq!(hits.len(), 2, "both epochs render as 1970 dates");
    assert!(find_hits(&rs, &vec![0, 1], &formats, "86400").0.is_empty());
}

#[test]
fn a_letter_beyond_ascii_is_matched_as_it_stands() {
    let rs = grid(&[["straße", "ÄPFEL"]]);
    assert_eq!(find_hits(&rs, &vec![0], &fmts(), "AßE").0, vec![0]);
    assert!(find_hits(&rs, &vec![0], &fmts(), "äpfel").0.is_empty());
    assert_eq!(find_hits(&rs, &vec![0], &fmts(), "Äpfel").0, vec![1]);
}

#[test]
fn the_rank_of_the_active_cell_is_counted_from_one() {
    let hits = vec![3, 8, 20];
    assert_eq!(find_pos(&hits, Some(at(2, 0)), 4), 2);
    assert_eq!(find_pos(&hits, Some(at(2, 1)), 4), 0);
    assert_eq!(find_pos(&hits, Some(at(5, 0)), 4), 3);
    assert_eq!(find_pos(&hits, None, 4), 0);
    assert_eq!(find_pos(&Vec::new(), Some(at(0, 0)), 4), 0);
}

#[test]
fn the_find_bar_reads_its_rank_and_its_total() {
    assert_eq!(find_label(true, 0, 0, false), None);
    assert_eq!(find_label(false, 3, 120, false), Some("3/120".to_string()));
    assert_eq!(find_label(false, 0, 100000, true), Some("0/100000+".to_string()));
    let mut s = FindStep { count: u64::MAX, forward: true };
    s.step(false);
    assert_eq!(s, FindStep { count: 0, forward: false });
}

#[test]
fn a_blur_over_the_grid_takes_the_keyboard_back_and_one_elsewhere_does_not() {
    let grid = Area { x0: 0, y0: 100, x1: 800, y1: 600 };
    assert!(reclaim_keyboard(400, 300, grid));
    assert!(!reclaim_keyboard(400, 40, grid));
    assert!(!reclaim_keyboard(400, 95, grid));
    assert!(!reclaim_keyboard(400, 300, Area { x0: 0, y0: 0, x1: 0, y1: 0 }));
}

fn text_node_w(w: i64, pad_left: i64) -> i64 {
    w - 10 - 14 - 1 - pad_left
}

#[test]
fn a_numeric_edit_never_asks_for_more_width_than_the_cell_can_give() {
    for w in [48u32, 60, 100, 190, 420] {
        for text_px in [0u32, 7, 14, 49, 120] {
            let pad = numeric_edit_pad_left(&px(), w, text_px);
            if pad > 0 {
                assert!(
                    text_node_w(w as i64, pad as i64) >= text_px as i64,
                    "clipped: w={w} text={text_px} pad={pad}"
                );
            }
        }
    }
}

#[test]
fn a_value_wider_than_its_column_is_left_aligned_and_clipped() {
    assert_eq!(numeric_edit_pad_left(&px(), 190, 400), 0);
    assert_eq!(numeric_edit_pad_left(&px(), 48, 60), 0);
}

#[test]
fn a_short_value_is_pushed_right_to_meet_the_display_alignment() {
    assert_eq!(numeric_edit_pad_left(&px(), 190, 14), 149);
}

fn scaled(percent: u32) -> Metrics {
    Metrics {
        pixel: 100,
        char_w: 7 * percent,
        pad_h: 10 * percent,
        num_pad_right: 14 * percent,
        divider: 100,
        key_icon_w: 22 * percent,
        min_col_w: 48 * percent,
        max_col_w_init: 420 * percent,
        max_col_w_fit: 90_000,
        cell_w: 190 * percent,
        row_h: 26 * percent,
    }
}

#[test]
fn a_width_estimate_reserves_the_chrome_the_cell_really_spends() {
    let rs = result(vec![col("id", "INT")], vec![vec![txt("1234567890")]]);
    let keys: KeyMap<usize, ()> = KeyMap::new();
    for percent in [85, 100, 130, 160] {
        let m = scaled(percent);
        let chrome = 2 * m.pad_h + m.divider;
        let text = 10 * m.char_w;
        let want = text + chrome;
        let est = init_widths(&rs, &keys, &m)[0];
        assert!(
            est >= want || est >= m.max_col_w_init,
            "{percent}: init_widths reserved {est}, needs {want}"
        );
        let fit = autofit_width(&rs, 0, false, &m);
        assert!(fit >= want, "{percent}: autofit reserved {fit}, needs {want}");
    }
}

#[test]
fn a_first_width_is_that_of_the_widest_of_header_and_cells() {
    let rs = result(
        vec![col("id", "INT UNSIGNED"), col("a_rather_long_name", "INT")],
        vec![vec![txt("1"), txt("2")]],
    );
    let mut keys: KeyMap<usize, ()> = KeyMap::new();
    keys.insert(1, ());
    // 12 characters of type; 18 of name and 3 for the arrow, with the icon.
    assert_eq!(init_widths(&rs, &keys, &px()), vec![12 * 7 + 21, 21 * 7 + 21 + 22]);
    let wide = result(vec![col("id", "INT")], vec![vec![txt(&"x".repeat(500))]]);
    assert_eq!(init_widths(&wide, &KeyMap::<usize, ()>::new(), &px()), vec![420]);
    assert_eq!(autofit_width(&wide, 0, false, &px()), 900);
    assert_eq!(autofit_width(&wide, 9, false, &px()), 6 * 7 + 21);
    let narrow = result(vec![col("i", "I")], vec![]);
    assert_eq!(init_widths(&narrow, &KeyMap::<usize, ()>::new(), &px()), vec![4 * 7 + 21]);
}

#[test]
fn rescaling_widths_carries_every_column_and_re_applies_the_floor() {
    assert_eq!(rescale_widths(&vec![100, 250], 2, 1, 10), vec![200, 500]);
    assert_eq!(rescale_widths(&vec![100, 40], 1, 2, 60), vec![60, 60]);
    // In half pixels, so that 194.5 is a whole number of units.
    let widths = vec![126, 389, 1800];
    assert_eq!(rescale_widths(&widths, 1, 1, 20), widths);
    assert!(rescale_widths(&vec![], 2, 1, 10).is_empty());
    for (num, den) in [(0, 1), (1, 0), (0, 0)] {
        assert_eq!(rescale_widths(&widths, num, den, 20), widths, "{num}/{den}");
    }
}

#[test]
fn a_dragged_divider_stays_within_bounds() {
    let mut w = vec![100, 200];
    drag_divider(&mut w, 1, -30, 48, 1200);
    assert_eq!(w, vec![100, 170]);
    drag_divider(&mut w, 0, -90, 48, 1200);
    assert_eq!(w, vec![48, 170]);
    drag_divider(&mut w, 1, 5000, 48, 1200);
    assert_eq!(w, vec![48, 1200]);
    drag_divider(&mut w, 7, 5, 48, 1200);
    assert_eq!(w, vec![48, 1200]);
}

#[test]
fn a_cell_is_scrolled_to_no_further_than_it_has_to_be() {
    let vp = Viewport { x: 100, y: 260, w: 200, h: 260 };
    let w = W.to_vec();
    // In view already: column 2 stands at 200..260.
    assert_eq!(scroll_active_into_view(vp, &w, None, 26, 12, 2), Some((100, 260)));
    // Above and to the left.
    assert_eq!(scroll_active_into_view(vp, &w, None, 26, 2, 0), Some((0, 52)));
    // Below and to the right: column 3 ends at 460, row 30 at 806.
    assert_eq!(scroll_active_into_view(vp, &w, None, 26, 30, 3), Some((260, 546)));
    // A pinned column leaves the columns where they are, and is not counted.
    assert_eq!(scroll_active_into_view(vp, &w, Some(0), 26, 12, 0), Some((100, 260)));
    assert_eq!(scroll_active_into_view(vp, &w, Some(1), 26, 12, 2), Some((80, 260)));
    // Before the pane was measured nothing scrolls.
    assert_eq!(scroll_active_into_view(zero(), &w, None, 26, 12, 2), None);
}

#[test]
fn the_pane_that_scrolls_holds_every_column_but_the_pinned_one() {
    assert_eq!(data_cols(4, None), vec![0, 1, 2, 3]);
    assert_eq!(data_cols(4, Some(1)), vec![0, 2, 3]);
    assert_eq!(data_cols(4, Some(9)), vec![0, 1, 2, 3]);
}
