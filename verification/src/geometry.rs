//! Where the columns of a grid stand, and which of them are on screen.
//!
//! Lengths are whole numbers of one unit, of which a pixel holds a fixed number; so widths add up
//! exactly.

use vstd::prelude::*;
use crate::keymap::KeyMap;
use crate::model::ResultSet;
use crate::text::chars_of;

verus! {

/// The lengths a grid is drawn with.
#[derive(Clone, Copy, Debug, PartialEq, Eq, Structural)]
pub struct Metrics {
    pub pixel: u32,
    pub char_w: u32,
    pub pad_h: u32,
    pub num_pad_right: u32,
    pub divider: u32,
    pub key_icon_w: u32,
    pub min_col_w: u32,
    pub max_col_w_init: u32,
    pub max_col_w_fit: u32,
    pub cell_w: u32,
    pub row_h: u32,
}

/// The part of a pane that is on screen.
#[derive(Clone, Copy, Debug, PartialEq, Eq, Structural)]
pub struct Viewport {
    pub x: u64,
    pub y: u64,
    pub w: u64,
    pub h: u64,
}

/// The columns that are drawn, `start..end` of the pane's, and the room that the others take on
/// either side.
#[derive(Clone, Copy, Debug, PartialEq, Eq, Structural)]
pub struct ColWindow {
    pub start: usize,
    pub end: usize,
    pub left_pad: u128,
    pub right_pad: u128,
}

/// The width of a pane's column `k`.
pub open spec fn width_at(widths: Seq<u32>, cols: Seq<usize>, default_w: u32, k: int) -> int {
    if cols[k] < widths.len() {
        widths[cols[k] as int] as int
    } else {
        default_w as int
    }
}

/// The width of a pane's columns `from..to`.
pub open spec fn span_w(
    widths: Seq<u32>,
    cols: Seq<usize>,
    default_w: u32,
    from: int,
    to: int,
) -> int
    decreases to - from,
{
    if from >= to {
        0
    } else {
        span_w(widths, cols, default_w, from, to - 1) + width_at(widths, cols, default_w, to - 1)
    }
}

/// The first column from `k` on whose right edge is to the right of `left`; the number of columns
/// where there is none.
pub open spec fn first_crossing(
    widths: Seq<u32>,
    cols: Seq<usize>,
    default_w: u32,
    left: int,
    k: int,
) -> int
    decreases cols.len() - k,
{
    if k >= cols.len() {
        cols.len() as int
    } else if span_w(widths, cols, default_w, 0, k + 1) > left {
        k
    } else {
        first_crossing(widths, cols, default_w, left, k + 1)
    }
}

/// The first column from `k` on that starts at `right` or behind it; the number of columns where
/// there is none.
pub open spec fn first_past(
    widths: Seq<u32>,
    cols: Seq<usize>,
    default_w: u32,
    right: int,
    k: int,
) -> int
    decreases cols.len() - k,
{
    if k >= cols.len() {
        cols.len() as int
    } else if span_w(widths, cols, default_w, 0, k) >= right {
        k
    } else {
        first_past(widths, cols, default_w, right, k + 1)
    }
}

/// How many columns are drawn before the pane was measured.
pub const FIRST_COLS: usize = 16;

/// The columns that a window starts and ends with: those the viewport meets, and `overscan` more
/// on each side; the first few before the pane was measured.
pub open spec fn window_edges(
    vp: Viewport,
    widths: Seq<u32>,
    cols: Seq<usize>,
    m: Metrics,
    overscan: int,
) -> (int, int) {
    let n = cols.len() as int;
    if vp.w <= m.pixel {
        (0, if n < FIRST_COLS { n } else { FIRST_COLS as int })
    } else {
        let s = first_crossing(widths, cols, m.cell_w, vp.x as int, 0);
        let e = first_past(widths, cols, m.cell_w, vp.x + vp.w, 0);
        (
            if s > overscan { s - overscan } else { 0 },
            if e + overscan < n { e + overscan } else { n },
        )
    }
}

proof fn lemma_span_splits(
    widths: Seq<u32>,
    cols: Seq<usize>,
    default_w: u32,
    from: int,
    mid: int,
    to: int,
)
    requires
        from <= mid <= to,
    ensures
        span_w(widths, cols, default_w, from, to) == span_w(widths, cols, default_w, from, mid)
            + span_w(widths, cols, default_w, mid, to),
    decreases to - mid,
{
    if mid < to {
        lemma_span_splits(widths, cols, default_w, from, mid, to - 1);
    }
}

proof fn lemma_span_bound(widths: Seq<u32>, cols: Seq<usize>, default_w: u32, from: int, to: int)
    ensures
        0 <= span_w(widths, cols, default_w, from, to),
        from <= to ==> span_w(widths, cols, default_w, from, to) <= (to - from) * 0xffff_ffff,
    decreases to - from,
{
    if from < to {
        lemma_span_bound(widths, cols, default_w, from, to - 1);
        assert((to - 1 - from) * 0xffff_ffff + 0xffff_ffff == (to - from) * 0xffff_ffff)
            by (nonlinear_arith);
    }
}

proof fn lemma_edges(widths: Seq<u32>, cols: Seq<usize>, default_w: u32, left: int, right: int, k: int)
    requires
        0 <= k <= cols.len(),
        left < right,
    ensures
        k <= first_crossing(widths, cols, default_w, left, k) <= cols.len(),
        k <= first_past(widths, cols, default_w, right, k) <= cols.len(),
        first_crossing(widths, cols, default_w, left, k) <= first_past(
            widths,
            cols,
            default_w,
            right,
            k,
        ),
    decreases cols.len() - k,
{
    if k < cols.len() {
        lemma_edges(widths, cols, default_w, left, right, k + 1);
    }
}

/// The room that a window leaves to the left and to the right and the columns it draws make up
/// the whole pane, at every place it is scrolled to and whatever is drawn beyond the viewport.
pub proof fn spacers_make_up_the_hidden_columns(
    vp: Viewport,
    widths: Seq<u32>,
    cols: Seq<usize>,
    m: Metrics,
    overscan: int,
)
    requires
        overscan >= 0,
    ensures
        ({
            let (start, end) = window_edges(vp, widths, cols, m, overscan);
            let n = cols.len() as int;
            &&& 0 <= start <= end <= n
            &&& span_w(widths, cols, m.cell_w, 0, start) + span_w(widths, cols, m.cell_w, start, end)
                + span_w(widths, cols, m.cell_w, end, n) == span_w(widths, cols, m.cell_w, 0, n)
        }),
{
    let (start, end) = window_edges(vp, widths, cols, m, overscan);
    let n = cols.len() as int;
    if vp.w > m.pixel {
        lemma_edges(widths, cols, m.cell_w, vp.x as int, vp.x + vp.w, 0);
    }
    lemma_span_splits(widths, cols, m.cell_w, 0, start, end);
    lemma_span_splits(widths, cols, m.cell_w, 0, end, n);
}

/// Drawing more columns beyond the viewport widens a window and never narrows it.
pub proof fn overscan_only_widens(
    vp: Viewport,
    widths: Seq<u32>,
    cols: Seq<usize>,
    m: Metrics,
    less: int,
    more: int,
)
    requires
        0 <= less <= more,
    ensures
        window_edges(vp, widths, cols, m, more).0 <= window_edges(vp, widths, cols, m, less).0,
        window_edges(vp, widths, cols, m, more).1 >= window_edges(vp, widths, cols, m, less).1,
{
}

/// The width of a pane's column `k`.
fn col_width(widths: &Vec<u32>, cols: &Vec<usize>, default_w: u32, k: usize) -> (r: u32)
    requires
        k < cols@.len(),
    ensures
        r == width_at(widths@, cols@, default_w, k as int),
{
    let c: usize = cols[k];
    if c < widths.len() {
        widths[c]
    } else {
        default_w
    }
}

/// The width of a pane's columns `from..to`.
pub(crate) fn width_between(widths: &Vec<u32>, cols: &Vec<usize>, default_w: u32, from: usize, to: usize) -> (r:
    u128)
    requires
        from <= to <= cols@.len(),
    ensures
        r == span_w(widths@, cols@, default_w, from as int, to as int),
{
    let mut sum: u128 = 0;
    let mut k: usize = from;
    while k < to
        invariant
            from <= k <= to <= cols@.len(),
            sum == span_w(widths@, cols@, default_w, from as int, k as int),
        decreases to - k,
    {
        proof {
            lemma_span_bound(widths@, cols@, default_w, from as int, k as int);
            assert((k - from) * 0xffff_ffff <= 0xffff_ffff_ffff_ffff * 0xffff_ffff)
                by (nonlinear_arith)
                requires
                    0 <= k - from <= 0xffff_ffff_ffff_ffff,
            ;
        }
        sum = sum + col_width(widths, cols, default_w, k) as u128;
        k = k + 1;
    }
    sum
}

/// The columns of a pane that are drawn for a viewport, and the room the others take.
pub fn compute_window(
    vp: Viewport,
    widths: &Vec<u32>,
    cols: &Vec<usize>,
    m: &Metrics,
    overscan: usize,
) -> (r: ColWindow)
    ensures
        (r.start as int, r.end as int) == window_edges(vp, widths@, cols@, *m, overscan as int),
        r.start <= r.end <= cols@.len(),
        r.left_pad == span_w(widths@, cols@, m.cell_w, 0, r.start as int),
        r.right_pad == span_w(widths@, cols@, m.cell_w, r.end as int, cols@.len() as int),
        r.left_pad + span_w(widths@, cols@, m.cell_w, r.start as int, r.end as int) + r.right_pad
            == span_w(widths@, cols@, m.cell_w, 0, cols@.len() as int),
{
    let n: usize = cols.len();
    proof {
        spacers_make_up_the_hidden_columns(vp, widths@, cols@, *m, overscan as int);
    }
    if vp.w <= m.pixel as u64 {
        let end: usize = if n < FIRST_COLS { n } else { FIRST_COLS };
        return ColWindow {
            start: 0,
            end,
            left_pad: 0,
            right_pad: width_between(widths, cols, m.cell_w, end, n),
        };
    }
    let left: u128 = vp.x as u128;
    let right: u128 = vp.x as u128 + vp.w as u128;
    let mut start: usize = n;
    let mut end: usize = n;
    let mut x: u128 = 0;
    let mut k: usize = 0;
    proof {
        lemma_edges(widths@, cols@, m.cell_w, left as int, right as int, 0);
    }
    while k < n
        invariant_except_break
            end == n,
            first_past(widths@, cols@, m.cell_w, right as int, 0) == first_past(
                widths@,
                cols@,
                m.cell_w,
                right as int,
                k as int,
            ),
        invariant
            n == cols@.len(),
            k <= n,
            left < right,
            x == span_w(widths@, cols@, m.cell_w, 0, k as int),
            start == n ==> first_crossing(widths@, cols@, m.cell_w, left as int, 0)
                == first_crossing(widths@, cols@, m.cell_w, left as int, k as int),
            start != n ==> start == first_crossing(widths@, cols@, m.cell_w, left as int, 0),
            first_crossing(widths@, cols@, m.cell_w, left as int, 0) <= first_past(
                widths@,
                cols@,
                m.cell_w,
                right as int,
                0,
            ) <= n,
        ensures
            start == first_crossing(widths@, cols@, m.cell_w, left as int, 0),
            end == first_past(widths@, cols@, m.cell_w, right as int, 0),
        decreases n - k,
    {
        let cw: u32 = col_width(widths, cols, m.cell_w, k);
        proof {
            lemma_span_bound(widths@, cols@, m.cell_w, 0, k as int);
            assert(k * 0xffff_ffff <= 0xffff_ffff_ffff_ffff * 0xffff_ffff) by (nonlinear_arith)
                requires
                    0 <= k <= 0xffff_ffff_ffff_ffff,
            ;
        }
        if start == n && x + cw as u128 > left {
            start = k;
        }
        if x >= right {
            end = k;
            break;
        }
        x = x + cw as u128;
        k = k + 1;
    }
    let from: usize = start.saturating_sub(overscan);
    let to: usize = if overscan < n - end { end + overscan } else { n };
    ColWindow {
        start: from,
        end: to,
        left_pad: width_between(widths, cols, m.cell_w, 0, from),
        right_pad: width_between(widths, cols, m.cell_w, to, n),
    }
}

proof fn lemma_crossing_before(
    widths: Seq<u32>,
    cols: Seq<usize>,
    default_w: u32,
    left: int,
    j: int,
    k: int,
)
    requires
        0 <= j <= k < cols.len(),
        span_w(widths, cols, default_w, 0, k + 1) > left,
    ensures
        first_crossing(widths, cols, default_w, left, j) <= k,
    decreases k - j,
{
    if j < k {
        lemma_crossing_before(widths, cols, default_w, left, j + 1, k);
    }
}

proof fn lemma_past_behind(
    widths: Seq<u32>,
    cols: Seq<usize>,
    default_w: u32,
    right: int,
    j: int,
    k: int,
)
    requires
        0 <= j <= k < cols.len(),
        span_w(widths, cols, default_w, 0, k) < right,
    ensures
        first_past(widths, cols, default_w, right, j) > k,
    decreases k - j,
{
    lemma_span_splits(widths, cols, default_w, 0, j, k);
    lemma_span_bound(widths, cols, default_w, j, k);
    if j < k {
        lemma_past_behind(widths, cols, default_w, right, j + 1, k);
    } else {
        lemma_edges(widths, cols, default_w, right - 1, right, k + 1);
    }
}

/// Every column that the viewport meets is drawn.
pub proof fn what_the_viewport_meets_is_drawn(
    vp: Viewport,
    widths: Seq<u32>,
    cols: Seq<usize>,
    m: Metrics,
    overscan: int,
    k: int,
)
    requires
        overscan >= 0,
        vp.w > m.pixel,
        0 <= k < cols.len(),
        span_w(widths, cols, m.cell_w, 0, k) < vp.x + vp.w,
        span_w(widths, cols, m.cell_w, 0, k + 1) > vp.x,
    ensures
        window_edges(vp, widths, cols, m, overscan).0 <= k < window_edges(
            vp,
            widths,
            cols,
            m,
            overscan,
        ).1,
{
    lemma_crossing_before(widths, cols, m.cell_w, vp.x as int, 0, k);
    lemma_past_behind(widths, cols, m.cell_w, vp.x + vp.w, 0, k);
}

/// Whether a column is pinned to the left, outside the pane that scrolls.
pub open spec fn is_pinned(frozen: Option<usize>, ci: int) -> bool {
    frozen matches Some(f) && f == ci
}

/// The room that the columns before `ci` take in the pane that scrolls.
pub open spec fn pane_x(widths: Seq<u32>, frozen: Option<usize>, ci: int) -> int
    decreases ci,
{
    if ci <= 0 {
        0
    } else {
        pane_x(widths, frozen, ci - 1) + if is_pinned(frozen, ci - 1) || ci - 1 >= widths.len() {
            0
        } else {
            widths[ci - 1] as int
        }
    }
}

/// Where a pane that shows `len` from `at` on is scrolled to so that `from..to` is on screen: no
/// further than it has to.
pub open spec fn scrolled(at: int, len: int, from: int, to: int) -> int {
    if from < at {
        from
    } else if to > at + len {
        to - len
    } else {
        at
    }
}

/// Where a grid is scrolled to so that a cell is on screen. A pinned column always is, and leaves
/// the columns where they are.
pub open spec fn scroll_place(
    vp: Viewport,
    widths: Seq<u32>,
    frozen: Option<usize>,
    row_h: u32,
    row: int,
    ci: int,
) -> (int, int) {
    let x0 = pane_x(widths, frozen, ci);
    let x1 = x0 + if ci < widths.len() {
        widths[ci] as int
    } else {
        0
    };
    (
        if is_pinned(frozen, ci) {
            vp.x as int
        } else {
            scrolled(vp.x as int, vp.w as int, x0, x1)
        },
        scrolled(vp.y as int, vp.h as int, row * row_h, row * row_h + row_h),
    )
}

/// A place that a pane of `len` was scrolled to for `from..to` shows the whole of it, where it
/// fits; and a pane that shows it already stays where it is.
pub proof fn scrolling_shows_the_place(at: int, len: int, from: int, to: int)
    requires
        0 <= at,
        0 <= from <= to <= from + len,
    ensures
        scrolled(at, len, from, to) <= from,
        to <= scrolled(at, len, from, to) + len,
        scrolled(at, len, from, to) >= 0,
        at <= from && to <= at + len ==> scrolled(at, len, from, to) == at,
{
}

proof fn lemma_pane_bound(widths: Seq<u32>, frozen: Option<usize>, ci: int)
    ensures
        0 <= pane_x(widths, frozen, ci),
        0 <= ci ==> pane_x(widths, frozen, ci) <= ci * 0xffff_ffff,
    decreases ci,
{
    if ci > 0 {
        lemma_pane_bound(widths, frozen, ci - 1);
        assert((ci - 1) * 0xffff_ffff + 0xffff_ffff == ci * 0xffff_ffff) by (nonlinear_arith);
    }
}

/// Where a grid is scrolled to so that a cell is on screen; nowhere before it was measured.
pub fn scroll_active_into_view(
    vp: Viewport,
    widths: &Vec<u32>,
    frozen: Option<usize>,
    row_h: u32,
    row: usize,
    ci: usize,
) -> (r: Option<(u128, u128)>)
    ensures
        r is None <==> vp.w == 0,
        r matches Some((x, y)) ==> (x as int, y as int) == scroll_place(
            vp,
            widths@,
            frozen,
            row_h,
            row as int,
            ci as int,
        ),
{
    if vp.w == 0 {
        return None;
    }
    assert(row * row_h <= 0xffff_ffff_ffff_ffff * 0xffff_ffff) by (nonlinear_arith)
        requires
            0 <= row <= 0xffff_ffff_ffff_ffff,
            0 <= row_h <= 0xffff_ffff,
    ;
    assert(row * row_h >= 0) by (nonlinear_arith)
        requires
            0 <= row,
            0 <= row_h,
    ;
    let rh: u128 = row_h as u128;
    let y0: u128 = row as u128 * rh;
    let ny: u128 = if y0 < vp.y as u128 {
        y0
    } else if y0 + rh > vp.y as u128 + vp.h as u128 {
        y0 + rh - vp.h as u128
    } else {
        vp.y as u128
    };
    let pinned: bool = match frozen {
        Some(f) => f == ci,
        None => false,
    };
    if pinned {
        return Some((vp.x as u128, ny));
    }
    let mut x0: u128 = 0;
    let mut j: usize = 0;
    while j < ci
        invariant
            j <= ci,
            x0 == pane_x(widths@, frozen, j as int),
        decreases ci - j,
    {
        proof {
            lemma_pane_bound(widths@, frozen, j as int);
            assert(j * 0xffff_ffff <= 0xffff_ffff_ffff_ffff * 0xffff_ffff) by (nonlinear_arith)
                requires
                    0 <= j <= 0xffff_ffff_ffff_ffff,
            ;
        }
        let out: bool = match frozen {
            Some(f) => f == j,
            None => false,
        };
        if !out && j < widths.len() {
            x0 = x0 + widths[j] as u128;
        }
        j = j + 1;
    }
    proof {
        lemma_pane_bound(widths@, frozen, ci as int);
        assert(ci * 0xffff_ffff <= 0xffff_ffff_ffff_ffff * 0xffff_ffff) by (nonlinear_arith)
            requires
                0 <= ci <= 0xffff_ffff_ffff_ffff,
        ;
    }
    let x1: u128 = x0 + if ci < widths.len() {
        widths[ci] as u128
    } else {
        0
    };
    let nx: u128 = if x0 < vp.x as u128 {
        x0
    } else if x1 > vp.x as u128 + vp.w as u128 {
        x1 - vp.w as u128
    } else {
        vp.x as u128
    };
    Some((nx, ny))
}

/// How many rows of a result the first widths are measured by.
pub const WIDTH_SAMPLE: usize = 200;

/// The characters that the widest of a column's first `n` cells needs, each counted up to `cap`.
pub open spec fn widest_cell(rs: ResultSet, ci: int, n: int, cap: int) -> int
    decreases n,
{
    if n <= 0 {
        0
    } else {
        let before = widest_cell(rs, ci, n - 1, cap);
        if rs.has_cell(n - 1, ci) {
            let len = rs.rows@[n - 1]@[ci].text@.len() as int;
            let own = if len < cap {
                len
            } else {
                cap
            };
            if own > before {
                own
            } else {
                before
            }
        } else {
            before
        }
    }
}

/// The characters that a column's header needs: its name with room for the arrow of a sort, and
/// its type.
pub open spec fn header_chars(rs: ResultSet, ci: int) -> int {
    if 0 <= ci < rs.columns@.len() {
        let name = rs.columns@[ci].name@.len() as int + 3;
        let ty = rs.columns@[ci].sql_type@.len() as int;
        if ty > name {
            ty
        } else {
            name
        }
    } else {
        6
    }
}

/// The characters a column is given: what its header or the widest of its first `n` cells needs.
pub open spec fn column_chars(rs: ResultSet, ci: int, n: int, cap: int) -> int {
    let h = header_chars(rs, ci);
    let c = widest_cell(rs, ci, n, cap);
    if c > h {
        c
    } else {
        h
    }
}

/// The room a cell spends on itself: padding on both sides and the divider on the right.
pub open spec fn cell_chrome_w(m: Metrics) -> int {
    2 * m.pad_h + m.divider
}

/// The width of a column of so many characters, with its chrome and its key's icon, kept within
/// bounds.
pub open spec fn fitted(m: Metrics, chars: int, has_key: bool, max_w: u32) -> int {
    let want = chars * m.char_w + cell_chrome_w(m) + if has_key {
        m.key_icon_w as int
    } else {
        0
    };
    if want < m.min_col_w {
        m.min_col_w as int
    } else if want > max_w {
        max_w as int
    } else {
        want
    }
}

/// The characters a column is given.
fn count_chars(rs: &ResultSet, ci: usize, n: usize, cap: usize) -> (r: u128)
    requires
        n <= rs.rows@.len(),
    ensures
        r == column_chars(*rs, ci as int, n as int, cap as int),
        r <= 0x2_0000_0000_0000_0000,
{
    let mut head: u128 = 6;
    if ci < rs.columns.len() {
        let name: usize = chars_of(rs.columns[ci].name.as_str()).len();
        let ty: usize = chars_of(rs.columns[ci].sql_type.as_str()).len();
        head = name as u128 + 3;
        if ty as u128 > head {
            head = ty as u128;
        }
    }
    let mut widest: usize = 0;
    let mut r: usize = 0;
    while r < n
        invariant
            r <= n <= rs.rows@.len(),
            widest == widest_cell(*rs, ci as int, r as int, cap as int),
        decreases n - r,
    {
        if let Some(c) = rs.cell(r, ci) {
            let len: usize = chars_of(c.text.as_str()).len();
            let own: usize = if len < cap { len } else { cap };
            if own > widest {
                widest = own;
            }
        }
        r = r + 1;
    }
    if widest as u128 > head {
        widest as u128
    } else {
        head
    }
}

/// The width of a column of so many characters.
fn fit_width(m: &Metrics, chars: u128, has_key: bool, max_w: u32) -> (r: u32)
    requires
        chars <= 0x2_0000_0000_0000_0000,
        m.min_col_w <= max_w,
    ensures
        r == fitted(*m, chars as int, has_key, max_w),
{
    assert(0 <= chars * m.char_w <= 0x2_0000_0000_0000_0000 * 0xffff_ffff) by (nonlinear_arith)
        requires
            0 <= chars <= 0x2_0000_0000_0000_0000,
            0 <= m.char_w <= 0xffff_ffff,
    ;
    let icon: u128 = if has_key {
        m.key_icon_w as u128
    } else {
        0
    };
    let want: u128 = chars * m.char_w as u128 + (2 * m.pad_h as u128 + m.divider as u128) + icon;
    if want < m.min_col_w as u128 {
        m.min_col_w
    } else if want > max_w as u128 {
        max_w
    } else {
        want as u32
    }
}

/// The first width of each column: for its header, and its widest cell among the first rows,
/// counted up to sixty characters. `keys` holds the columns whose header shows a key.
pub fn init_widths<V>(rs: &ResultSet, keys: &KeyMap<usize, V>, m: &Metrics) -> (r: Vec<u32>)
    requires
        m.min_col_w <= m.max_col_w_init,
    ensures
        r@.len() == rs.columns@.len(),
        forall|ci: int|
            0 <= ci < r@.len() ==> #[trigger] r@[ci] == fitted(
                *m,
                column_chars(
                    *rs,
                    ci,
                    if rs.rows@.len() < WIDTH_SAMPLE {
                        rs.rows@.len() as int
                    } else {
                        WIDTH_SAMPLE as int
                    },
                    60,
                ),
                keys@.dom().contains(ci as usize),
                m.max_col_w_init,
            ),
{
    let sample: usize = if rs.rows.len() < WIDTH_SAMPLE {
        rs.rows.len()
    } else {
        WIDTH_SAMPLE
    };
    let mut out: Vec<u32> = Vec::new();
    let mut ci: usize = 0;
    while ci < rs.columns.len()
        invariant
            m.min_col_w <= m.max_col_w_init,
            ci <= rs.columns@.len(),
            sample <= rs.rows@.len(),
            out@.len() == ci,
            forall|k: int|
                0 <= k < ci ==> #[trigger] out@[k] == fitted(
                    *m,
                    column_chars(*rs, k, sample as int, 60),
                    keys@.dom().contains(k as usize),
                    m.max_col_w_init,
                ),
        decreases rs.columns@.len() - ci,
    {
        let chars: u128 = count_chars(rs, ci, sample, 60);
        out.push(fit_width(m, chars, keys.contains(ci), m.max_col_w_init));
        ci = ci + 1;
    }
    out
}

/// The width that shows a column's header and its widest cell of all, counted up to a hundred and
/// forty characters.
pub fn autofit_width(rs: &ResultSet, ci: usize, has_key: bool, m: &Metrics) -> (r: u32)
    requires
        m.min_col_w <= m.max_col_w_fit,
    ensures
        r == fitted(
            *m,
            column_chars(*rs, ci as int, rs.rows@.len() as int, 140),
            has_key,
            m.max_col_w_fit,
        ),
{
    let chars: u128 = count_chars(rs, ci, rs.rows.len(), 140);
    fit_width(m, chars, has_key, m.max_col_w_fit)
}

/// A width that is not held back by the greatest one leaves room for its characters and for what
/// the cell spends on itself.
pub proof fn a_width_reserves_the_chrome(m: Metrics, chars: int, has_key: bool, max_w: u32)
    requires
        chars >= 0,
        fitted(m, chars, has_key, max_w) < max_w,
    ensures
        fitted(m, chars, has_key, max_w) >= chars * m.char_w + cell_chrome_w(m),
{
}

/// A width drawn at another scale: as wide as its content has become, and no less than `min_w`.
pub open spec fn rescaled(w: u32, num: u32, den: u32, min_w: u32) -> int {
    let scaled = (w * num) / (den as int);
    if scaled < min_w {
        min_w as int
    } else if scaled > u32::MAX {
        u32::MAX as int
    } else {
        scaled
    }
}

/// Carry the widths over to another scale, `num` to `den` of the one before. A ratio of nothing
/// or to nothing leaves them alone, and so does a ratio of one.
pub fn rescale_widths(widths: &Vec<u32>, num: u32, den: u32, min_w: u32) -> (r: Vec<u32>)
    ensures
        r@.len() == widths@.len(),
        num == 0 || den == 0 || num == den ==> r@ == widths@,
        num != 0 && den != 0 && num != den ==> forall|i: int|
            0 <= i < r@.len() ==> #[trigger] r@[i] == rescaled(widths@[i], num, den, min_w),
{
    let mut out: Vec<u32> = Vec::new();
    let same: bool = num == 0 || den == 0 || num == den;
    let mut i: usize = 0;
    while i < widths.len()
        invariant
            i <= widths@.len(),
            out@.len() == i,
            same == (num == 0 || den == 0 || num == den),
            same ==> forall|k: int| 0 <= k < i ==> #[trigger] out@[k] == widths@[k],
            !same ==> forall|k: int|
                0 <= k < i ==> #[trigger] out@[k] == rescaled(widths@[k], num, den, min_w),
        decreases widths@.len() - i,
    {
        let w: u32 = widths[i];
        if same {
            out.push(w);
        } else {
            assert(0 <= w * num <= 0xffff_ffff * 0xffff_ffff) by (nonlinear_arith)
                requires
                    0 <= w <= 0xffff_ffff,
                    0 <= num <= 0xffff_ffff,
            ;
            let scaled: u64 = (w as u64 * num as u64) / den as u64;
            if scaled < min_w as u64 {
                out.push(min_w);
            } else if scaled > u32::MAX as u64 {
                out.push(u32::MAX);
            } else {
                out.push(scaled as u32);
            }
        }
        i = i + 1;
    }
    out
}

/// A dragged divider: the column's width and the drag, kept within bounds.
pub open spec fn dragged(w: u32, by: i32, min_w: u32, max_w: u32) -> int {
    if w + by < min_w {
        min_w as int
    } else if w + by > max_w {
        max_w as int
    } else {
        w + by
    }
}

/// Drag the divider of a column. A column that is not there is left out.
pub fn drag_divider(widths: &mut Vec<u32>, ci: usize, by: i32, min_w: u32, max_w: u32)
    requires
        min_w <= max_w,
    ensures
        final(widths)@ == if ci < old(widths)@.len() {
            old(widths)@.update(
                ci as int,
                dragged(old(widths)@[ci as int], by, min_w, max_w) as u32,
            )
        } else {
            old(widths)@
        },
{
    if ci < widths.len() {
        let want: i64 = widths[ci] as i64 + by as i64;
        let w: u32 = if want < min_w as i64 {
            min_w
        } else if want > max_w as i64 {
            max_w
        } else {
            want as u32
        };
        widths.set(ci, w);
    }
}

/// An area of the window, without its right and lower edges.
#[derive(Clone, Copy, Debug, PartialEq, Eq, Structural)]
pub struct Area {
    pub x0: i64,
    pub y0: i64,
    pub x1: i64,
    pub y1: i64,
}

/// Whether a field that lost the keyboard hands it back to the grid: where the pointer is over
/// the grid. A click elsewhere has just taken the keyboard for itself.
pub fn reclaim_keyboard(x: i64, y: i64, grid: Area) -> (r: bool)
    ensures
        r == (grid.x0 <= x < grid.x1 && grid.y0 <= y < grid.y1),
{
    grid.x0 <= x && x < grid.x1 && grid.y0 <= y && y < grid.y1
}

/// The room that a numeric cell leaves for its text while it is edited, without the padding in
/// front.
pub open spec fn numeric_content_w(m: Metrics, w: u32) -> int {
    w - m.pad_h - m.num_pad_right - m.divider
}

/// The padding that moves a number to the right edge of the cell it is edited in, less two pixels;
/// none where the number does not fit.
pub fn numeric_edit_pad_left(m: &Metrics, w: u32, text_w: u32) -> (r: u32)
    ensures
        r == {
            let free = numeric_content_w(*m, w) - text_w - 2 * m.pixel;
            if free > 0 {
                free
            } else {
                0
            }
        },
        r > 0 ==> numeric_content_w(*m, w) - r >= text_w,
{
    let free: i64 = w as i64 - m.pad_h as i64 - m.num_pad_right as i64 - m.divider as i64
        - text_w as i64 - 2 * m.pixel as i64;
    if free > 0 {
        free as u32
    } else {
        0
    }
}

/// The columns of the pane that scrolls: all of them but the pinned one.
pub open spec fn pane_cols(ncols: int, frozen: Option<usize>) -> Seq<usize>
    decreases ncols,
{
    if ncols <= 0 {
        Seq::empty()
    } else if is_pinned(frozen, ncols - 1) {
        pane_cols(ncols - 1, frozen)
    } else {
        pane_cols(ncols - 1, frozen).push((ncols - 1) as usize)
    }
}

/// The columns of the pane that scrolls, in order.
pub fn data_cols(ncols: usize, frozen: Option<usize>) -> (r: Vec<usize>)
    ensures
        r@ == pane_cols(ncols as int, frozen),
{
    let mut out: Vec<usize> = Vec::new();
    let mut ci: usize = 0;
    while ci < ncols
        invariant
            ci <= ncols,
            out@ == pane_cols(ci as int, frozen),
        decreases ncols - ci,
    {
        let pinned: bool = match frozen {
            Some(f) => f == ci,
            None => false,
        };
        if !pinned {
            out.push(ci);
        }
        ci = ci + 1;
    }
    out
}

proof fn lemma_pane_widths(widths: Seq<u32>, frozen: Option<usize>, default_w: u32, ncols: int)
    requires
        0 <= ncols <= widths.len(),
        widths.len() <= usize::MAX,
    ensures
        span_w(
            widths,
            pane_cols(ncols, frozen),
            default_w,
            0,
            pane_cols(ncols, frozen).len() as int,
        ) == pane_x(widths, frozen, ncols),
    decreases ncols,
{
    if ncols > 0 {
        lemma_pane_widths(widths, frozen, default_w, ncols - 1);
        let before = pane_cols(ncols - 1, frozen);
        if !is_pinned(frozen, ncols - 1) {
            let all = pane_cols(ncols, frozen);
            lemma_span_prefix(widths, before, all, default_w, before.len() as int);
        }
    }
}

proof fn lemma_span_prefix(
    widths: Seq<u32>,
    a: Seq<usize>,
    b: Seq<usize>,
    default_w: u32,
    n: int,
)
    requires
        0 <= n <= a.len(),
        n <= b.len(),
        forall|i: int| 0 <= i < n ==> #[trigger] a[i] == b[i],
    ensures
        span_w(widths, a, default_w, 0, n) == span_w(widths, b, default_w, 0, n),
    decreases n,
{
    if n > 0 {
        lemma_span_prefix(widths, a, b, default_w, n - 1);
        assert(a[n - 1] == b[n - 1]);
    }
}

/// The pane that scrolls is as wide as the columns that are scrolled in it: where a cell is
/// scrolled to and where it is drawn are measured alike, also beside a pinned column.
pub proof fn the_pane_is_measured_alike(
    widths: Seq<u32>,
    frozen: Option<usize>,
    default_w: u32,
    ncols: int,
)
    requires
        0 <= ncols <= widths.len(),
        widths.len() <= usize::MAX,
    ensures
        span_w(
            widths,
            pane_cols(ncols, frozen),
            default_w,
            0,
            pane_cols(ncols, frozen).len() as int,
        ) == pane_x(widths, frozen, ncols),
{
    lemma_pane_widths(widths, frozen, default_w, ncols);
}

/// A column takes its own width, or the usual one where it has none; and columns that follow each other
/// take what they take together.
pub proof fn widths_add_up(
    widths: Seq<u32>,
    cols: Seq<usize>,
    default_w: u32,
    from: int,
    mid: int,
    to: int,
)
    requires
        0 <= from <= mid <= to <= cols.len(),
    ensures
        span_w(widths, cols, default_w, from, from) == 0,
        from < to ==> span_w(widths, cols, default_w, from, from + 1) == if cols[from] < widths.len() {
            widths[cols[from] as int]
        } else {
            default_w
        },
        span_w(widths, cols, default_w, from, to) == span_w(widths, cols, default_w, from, mid)
            + span_w(widths, cols, default_w, mid, to),
{
    lemma_span_splits(widths, cols, default_w, from, mid, to);
    assert(span_w(widths, cols, default_w, from, from) == 0);
    if from < to {
        assert(span_w(widths, cols, default_w, from, from + 1) == width_at(
            widths,
            cols,
            default_w,
            from,
        ));
    }
}

proof fn lemma_crossing_is_first(
    widths: Seq<u32>,
    cols: Seq<usize>,
    default_w: u32,
    left: int,
    j: int,
)
    requires
        0 <= j <= cols.len(),
    ensures
        ({
            let f = first_crossing(widths, cols, default_w, left, j);
            &&& j <= f <= cols.len()
            &&& f < cols.len() ==> span_w(widths, cols, default_w, 0, f + 1) > left
        }),
    decreases cols.len() - j,
{
    if j < cols.len() && span_w(widths, cols, default_w, 0, j + 1) <= left {
        lemma_crossing_is_first(widths, cols, default_w, left, j + 1);
    }
}

proof fn lemma_past_is_first(
    widths: Seq<u32>,
    cols: Seq<usize>,
    default_w: u32,
    right: int,
    j: int,
    k: int,
)
    requires
        0 <= j <= k < first_past(widths, cols, default_w, right, j),
        j <= cols.len(),
    ensures
        k < cols.len(),
        span_w(widths, cols, default_w, 0, k) < right,
    decreases cols.len() - j,
{
    if j < cols.len() && span_w(widths, cols, default_w, 0, j) < right && j < k {
        lemma_past_is_first(widths, cols, default_w, right, j + 1, k);
    }
}

/// No column is drawn that the viewport does not meet, but for the few on either side that are asked
/// for.
pub proof fn what_is_drawn_meets_the_viewport(
    vp: Viewport,
    widths: Seq<u32>,
    cols: Seq<usize>,
    m: Metrics,
    overscan: int,
    k: int,
)
    requires
        overscan >= 0,
        vp.w > m.pixel,
    ensures
        ({
            let met = window_edges(vp, widths, cols, m, 0);
            let drawn = window_edges(vp, widths, cols, m, overscan);
            &&& met.0 <= k < met.1 ==> 0 <= k < cols.len() && span_w(widths, cols, m.cell_w, 0, k + 1)
                > vp.x && span_w(widths, cols, m.cell_w, 0, k) < vp.x + vp.w
            &&& met.0 - overscan <= drawn.0 <= met.0
            &&& met.1 <= drawn.1 <= met.1 + overscan
            &&& 0 <= drawn.0 <= drawn.1 <= cols.len()
            &&& drawn.0 > met.0 - overscan ==> drawn.0 == 0
            &&& drawn.1 < met.1 + overscan ==> drawn.1 == cols.len()
        }),
{
    let met = window_edges(vp, widths, cols, m, 0);
    lemma_edges(widths, cols, m.cell_w, vp.x as int, vp.x + vp.w, 0);
    lemma_crossing_is_first(widths, cols, m.cell_w, vp.x as int, 0);
    if met.0 <= k < met.1 {
        lemma_past_is_first(widths, cols, m.cell_w, vp.x + vp.w, 0, k);
        lemma_span_splits(widths, cols, m.cell_w, 0, met.0 + 1, k + 1);
        lemma_span_bound(widths, cols, m.cell_w, met.0 + 1, k + 1);
    }
}

/// A pane is scrolled no farther than a place asks: to its front where it lies before, and so that its
/// end is just in where it lies behind.
pub proof fn scrolling_goes_no_farther(at: int, len: int, from: int, to: int)
    requires
        from <= to <= from + len,
    ensures
        from < at ==> scrolled(at, len, from, to) == from,
        from >= at && to > at + len ==> scrolled(at, len, from, to) + len == to,
        from >= at && to <= at + len ==> scrolled(at, len, from, to) == at,
{
}

/// A cell that is scrolled to is in view, its row and its column, where they fit; a pinned column leaves
/// the pane where it is sideways.
pub proof fn a_cell_that_is_scrolled_to_is_in_view(
    vp: Viewport,
    widths: Seq<u32>,
    frozen: Option<usize>,
    row_h: u32,
    row: int,
    ci: int,
)
    requires
        0 <= row,
        0 <= ci < widths.len(),
        row_h <= vp.h,
        widths[ci] <= vp.w,
    ensures
        ({
            let (x, y) = scroll_place(vp, widths, frozen, row_h, row, ci);
            &&& y <= row * row_h && row * row_h + row_h <= y + vp.h
            &&& frozen == Some(ci as usize) && ci <= usize::MAX ==> x == vp.x
            &&& !(frozen matches Some(f) && f == ci) ==> x <= pane_x(widths, frozen, ci) && pane_x(
                widths,
                frozen,
                ci,
            ) + widths[ci] <= x + vp.w
        }),
{
    assert(row * row_h >= 0) by (nonlinear_arith)
        requires
            0 <= row,
            0 <= row_h,
    ;
    lemma_pane_bound(widths, frozen, ci);
}

/// A column begins in the pane where the one before it ends; a pinned one takes no room there.
pub proof fn a_column_begins_where_the_last_ends(widths: Seq<u32>, frozen: Option<usize>, ci: int)
    requires
        0 <= ci < widths.len(),
    ensures
        pane_x(widths, frozen, 0) == 0,
        pane_x(widths, frozen, ci + 1) == pane_x(widths, frozen, ci) + if frozen is Some && frozen->0
            == ci {
            0
        } else {
            widths[ci] as int
        },
{
    assert(pane_x(widths, frozen, ci + 1) == pane_x(widths, frozen, ci) + if is_pinned(frozen, ci) {
        0
    } else {
        widths[ci] as int
    });
}

/// A column is as wide as its characters, the padding at both sides, the divider and its key's icon,
/// within the bounds.
pub proof fn a_width_is_made_up(m: Metrics, chars: int, max_w: u32)
    requires
        m.min_col_w <= max_w,
    ensures
        ({
            let plain = chars * m.char_w + m.pad_h + m.pad_h + m.divider;
            let keyed = plain + m.key_icon_w;
            &&& m.min_col_w <= fitted(m, chars, false, max_w) <= max_w
            &&& m.min_col_w <= fitted(m, chars, true, max_w) <= max_w
            &&& m.min_col_w <= plain <= max_w ==> fitted(m, chars, false, max_w) == plain
            &&& m.min_col_w <= keyed <= max_w ==> fitted(m, chars, true, max_w) == keyed
            &&& plain < m.min_col_w ==> fitted(m, chars, false, max_w) == m.min_col_w
            &&& plain > max_w ==> fitted(m, chars, false, max_w) == max_w
            &&& keyed < m.min_col_w ==> fitted(m, chars, true, max_w) == m.min_col_w
            &&& keyed > max_w ==> fitted(m, chars, true, max_w) == max_w
        }),
{
}

/// A column is measured by the widest of its cells that are looked at, up to so many characters of each.
pub proof fn a_column_is_measured_by_its_widest_cell(rs: ResultSet, ci: int, n: int, cap: int, r: int)
    requires
        0 <= cap,
        0 <= n <= rs.rows@.len(),
    ensures
        0 <= r < n && 0 <= ci < rs.rows@[r]@.len() ==> widest_cell(rs, ci, n, cap)
            >= rs.rows@[r]@[ci].text@.len() || widest_cell(rs, ci, n, cap) >= cap,
        0 <= widest_cell(rs, ci, n, cap) <= cap,
        widest_cell(rs, ci, n, cap) > 0 ==> exists|q: int|
            0 <= q < n && 0 <= ci < (#[trigger] rs.rows@[q])@.len() && widest_cell(rs, ci, n, cap)
                <= rs.rows@[q]@[ci].text@.len(),
    decreases n,
{
    if n > 0 {
        a_column_is_measured_by_its_widest_cell(rs, ci, n - 1, cap, r);
        if widest_cell(rs, ci, n, cap) > 0 {
            if rs.has_cell(n - 1, ci) && widest_cell(rs, ci, n, cap) > widest_cell(rs, ci, n - 1, cap) {
                assert(widest_cell(rs, ci, n, cap) <= rs.rows@[n - 1]@[ci].text@.len());
            } else {
                let q = choose|q: int|
                    0 <= q < n - 1 && 0 <= ci < (#[trigger] rs.rows@[q])@.len() && widest_cell(
                        rs,
                        ci,
                        n - 1,
                        cap,
                    ) <= rs.rows@[q]@[ci].text@.len();
                assert(0 <= ci < rs.rows@[q]@.len());
            }
        }
    }
}

/// A header has room for the column's name with its arrow, and for its type; the column for both and
/// its cells.
pub proof fn a_column_has_room_for_its_header(rs: ResultSet, ci: int, n: int, cap: int)
    requires
        0 <= ci < rs.columns@.len(),
    ensures
        ({
            let name = rs.columns@[ci].name@.len() + 3;
            let ty = rs.columns@[ci].sql_type@.len();
            let cells = widest_cell(rs, ci, n, cap);
            let chars = column_chars(rs, ci, n, cap);
            &&& chars >= name && chars >= ty && chars >= cells
            &&& chars == name || chars == ty || chars == cells
        }),
{
}

/// A width at another scale is in proportion, rounded down, but no less than the least.
pub proof fn a_width_is_scaled_in_proportion(w: u32, num: u32, den: u32, min_w: u32)
    requires
        den > 0,
        w * num <= u32::MAX * den,
    ensures
        rescaled(w, num, den, min_w) >= min_w,
        rescaled(w, num, den, min_w) > min_w ==> rescaled(w, num, den, min_w) * den <= w * num,
        (rescaled(w, num, den, min_w) + 1) * den > w * num,
{
    let q = (w * num) / (den as int);
    assert(0 <= w * num) by (nonlinear_arith);
    vstd::arithmetic::div_mod::lemma_fundamental_div_mod(w * num, den as int);
    vstd::arithmetic::div_mod::lemma_mod_bound(w * num, den as int);
    assert(q * den <= w * num < (q + 1) * den) by (nonlinear_arith)
        requires
            w * num == den * q + (w * num) % (den as int),
            0 <= (w * num) % (den as int) < den,
    ;
    assert(q <= u32::MAX) by (nonlinear_arith)
        requires
            q * den <= w * num,
            w * num <= u32::MAX * den,
            den > 0,
    ;
    let r = rescaled(w, num, den, min_w);
    assert((r + 1) * den >= (q + 1) * den) by (nonlinear_arith)
        requires
            r >= q,
            den > 0,
    ;
}

/// A divider goes as far as it is dragged, within the bounds.
pub proof fn a_divider_goes_as_far_as_it_is_dragged(w: u32, by: i32, min_w: u32, max_w: u32)
    requires
        min_w <= max_w,
    ensures
        min_w <= dragged(w, by, min_w, max_w) <= max_w,
        min_w <= w + by <= max_w ==> dragged(w, by, min_w, max_w) - w == by,
        w + by < min_w ==> dragged(w, by, min_w, max_w) == min_w,
        w + by > max_w ==> dragged(w, by, min_w, max_w) == max_w,
{
}

/// The pane that scrolls has every column but the pinned one, each once and in their order.
pub proof fn the_pane_has_every_other_column(ncols: int, frozen: Option<usize>)
    requires
        0 <= ncols <= usize::MAX,
    ensures
        forall|ci: usize|
            #[trigger] pane_cols(ncols, frozen).contains(ci) <==> ci < ncols && frozen != Some(ci),
        forall|i: int, j: int|
            0 <= i < j < pane_cols(ncols, frozen).len() ==> #[trigger] pane_cols(ncols, frozen)[i]
                < #[trigger] pane_cols(ncols, frozen)[j],
        forall|i: int| 0 <= i < pane_cols(ncols, frozen).len() ==> #[trigger] pane_cols(ncols, frozen)[i] < ncols,
    decreases ncols,
{
    if ncols > 0 {
        the_pane_has_every_other_column(ncols - 1, frozen);
        let before = pane_cols(ncols - 1, frozen);
        let now = pane_cols(ncols, frozen);
        assert forall|ci: usize| #[trigger] now.contains(ci) <==> ci < ncols && frozen != Some(ci) by {
            if before.contains(ci) {
                let i = before.index_of(ci);
                assert(now[i] == ci);
            }
            if now.contains(ci) {
                let i = now.index_of(ci);
                if i < before.len() {
                    assert(before[i] == ci);
                }
            }
            if ci == ncols - 1 && !is_pinned(frozen, ncols - 1) {
                assert(now[before.len() as int] == ci);
            }
        }
    }
}

/// A cell's content is what its width leaves of the paddings and the divider.
pub proof fn what_the_chrome_leaves_is_content(m: Metrics, w: u32)
    ensures
        numeric_content_w(m, w) + m.pad_h + m.num_pad_right + m.divider == w,
{
}

/// Columns are measured by their first two hundred rows, and sixteen are drawn before the grid knows
/// its own size.
pub proof fn the_first_look_is_bounded()
    ensures
        WIDTH_SAMPLE == 200,
        FIRST_COLS == 16,
{
}

/// Before the grid knows its size the first sixteen columns are drawn, or all where there are fewer.
pub proof fn the_first_columns_are_drawn_at_first(
    vp: Viewport,
    widths: Seq<u32>,
    cols: Seq<usize>,
    m: Metrics,
    overscan: int,
)
    requires
        vp.w <= m.pixel,
    ensures
        cols.len() <= 16 ==> window_edges(vp, widths, cols, m, overscan) == (0int, cols.len() as int),
        cols.len() > 16 ==> window_edges(vp, widths, cols, m, overscan) == (0int, 16int),
{
}

/// A width that would not fit is the widest that does.
pub proof fn a_width_has_its_bounds(w: u32, num: u32, den: u32, min_w: u32)
    requires
        den > 0,
        w * num >= (u32::MAX + 1) * den,
    ensures
        rescaled(w, num, den, min_w) == u32::MAX,
{
    assert((w * num) / (den as int) >= u32::MAX + 1) by (nonlinear_arith)
        requires
            den > 0,
            w * num >= (u32::MAX + 1) * den,
    ;
}

} // verus!
