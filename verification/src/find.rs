//! Finding a text among the cells as they are shown.

use vstd::prelude::*;
use vstd::utf8::encode_utf8;
use crate::keymap::At;
use crate::model::{Cell, ResultSet};
use crate::state::{activated, GridState};
use crate::text::{decimal, digits};

verus! {

/// A byte with a capital ASCII letter made small.
pub open spec fn lower(b: u8) -> u8 {
    if 65 <= b <= 90 {
        (b + 32) as u8
    } else {
        b
    }
}

/// Whether `needle` stands in `hay` at place `i`, capital and small ASCII letters being the same.
pub open spec fn stands_at(hay: Seq<u8>, needle: Seq<u8>, i: int) -> bool {
    &&& 0 <= i <= hay.len() - needle.len()
    &&& forall|j: int| 0 <= j < needle.len() ==> lower(hay[i + j]) == lower(#[trigger] needle[j])
}

/// Whether `needle` stands in `hay` anywhere, capital and small ASCII letters being the same.
pub open spec fn has_text(hay: Seq<char>, needle: Seq<char>) -> bool {
    exists|i: int| stands_at(encode_utf8(hay), encode_utf8(needle), i)
}

/// A byte with a capital ASCII letter made small.
fn lower_byte(b: u8) -> (r: u8)
    ensures
        r == lower(b),
{
    if 65 <= b && b <= 90 {
        b + 32
    } else {
        b
    }
}

/// Whether a text holds another, capital and small ASCII letters being the same.
pub fn contains_ignore_ascii_case(hay: &str, needle: &str) -> (r: bool)
    ensures
        r == has_text(hay@, needle@),
{
    let h: &[u8] = hay.as_bytes();
    let n: &[u8] = needle.as_bytes();
    if n.len() > h.len() {
        return false;
    }
    let last: usize = h.len() - n.len();
    assert(h@.len() <= usize::MAX);
    let mut i: usize = 0;
    loop
        invariant
            h@ == encode_utf8(hay@),
            n@ == encode_utf8(needle@),
            i <= last,
            last == h@.len() - n@.len(),
            h@.len() <= usize::MAX,
            forall|k: int| 0 <= k < i ==> !stands_at(h@, n@, k),
        decreases last - i,
    {
        let mut j: usize = 0;
        while j < n.len() && lower_byte(h[i + j]) == lower_byte(n[j])
            invariant
                i <= last,
                last == h@.len() - n@.len(),
                h@.len() <= usize::MAX,
                j <= n@.len(),
                forall|k: int| 0 <= k < j ==> lower(h@[i + k]) == lower(#[trigger] n@[k]),
            decreases n@.len() - j,
        {
            j = j + 1;
        }
        if j == n.len() {
            assert(stands_at(h@, n@, i as int));
            return true;
        }
        assert(!stands_at(h@, n@, i as int)) by {
            assert(lower(h@[i + j]) != lower(n@[j as int]));
        }
        if i == last {
            return false;
        }
        i = i + 1;
    }
}

/// The texts of a column that is shown in another way than it was read, by the row of the result;
/// `None` for a column that is shown as it was read.
pub type Formatted = Option<Vec<String>>;

/// What a cell of the result shows.
pub open spec fn shown_text(
    rs: ResultSet,
    formatted: Seq<Formatted>,
    row: int,
    ci: int,
) -> Seq<char> {
    if ci < formatted.len() && formatted[ci] is Some && row < formatted[ci]->0@.len() {
        formatted[ci]->0@[row]@
    } else {
        rs.rows@[row]@[ci].text@
    }
}

/// Whether the cell at a place, counted along the rows as they are shown, holds the text.
pub open spec fn is_hit(
    rs: ResultSet,
    order: Seq<usize>,
    formatted: Seq<Formatted>,
    q: Seq<char>,
    p: int,
) -> bool {
    let ncols = rs.columns@.len() as int;
    let row = order[p / ncols] as int;
    let ci = p % ncols;
    rs.has_cell(row, ci) && has_text(shown_text(rs, formatted, row, ci), q)
}

/// The places before `n` that hold the text, in order.
pub open spec fn hits_before(
    rs: ResultSet,
    order: Seq<usize>,
    formatted: Seq<Formatted>,
    q: Seq<char>,
    n: int,
) -> Seq<usize>
    decreases n,
{
    if n <= 0 {
        Seq::empty()
    } else if is_hit(rs, order, formatted, q, n - 1) {
        hits_before(rs, order, formatted, q, n - 1).push((n - 1) as usize)
    } else {
        hits_before(rs, order, formatted, q, n - 1)
    }
}

/// How many cells are looked at when the hits are counted.
pub const FIND_COUNT_CELL_BUDGET: usize = 2_000_000;

/// How many hits are kept.
pub const FIND_MAX_HITS: usize = 100_000;

/// How many cells are looked at.
pub open spec fn looked_at(rs: ResultSet, order: Seq<usize>) -> int {
    let total = order.len() * rs.columns@.len();
    if total < FIND_COUNT_CELL_BUDGET {
        total as int
    } else {
        FIND_COUNT_CELL_BUDGET as int
    }
}

/// Whether a cell of the result holds the text.
fn cell_hit(rs: &ResultSet, formatted: &Vec<Formatted>, q: &str, row: usize, ci: usize) -> (r: bool)
    ensures
        r == (rs.has_cell(row as int, ci as int) && has_text(
            shown_text(*rs, formatted@, row as int, ci as int),
            q@,
        )),
{
    let c: &Cell = match rs.cell(row, ci) {
        Some(c) => c,
        None => return false,
    };
    if ci < formatted.len() {
        if let Some(texts) = &formatted[ci] {
            if row < texts.len() {
                return contains_ignore_ascii_case(texts[row].as_str(), q);
            }
        }
    }
    contains_ignore_ascii_case(c.text.as_str(), q)
}

proof fn lemma_place(ncols: int, dr: int, ci: int)
    requires
        0 <= ci < ncols,
        0 <= dr,
    ensures
        (dr * ncols + ci) / ncols == dr,
        (dr * ncols + ci) % ncols == ci,
{
    assert((dr * ncols + ci) / ncols == dr && (dr * ncols + ci) % ncols == ci) by (nonlinear_arith)
        requires
            0 <= ci < ncols,
            0 <= dr,
    ;
}

proof fn lemma_in_total(ncols: int, n: int, dr: int, ci: int)
    requires
        0 <= ci < ncols,
        0 <= dr < n,
    ensures
        0 <= dr * ncols + ci < n * ncols,
        dr * ncols + ncols == (dr + 1) * ncols,
        (dr + 1) * ncols <= n * ncols,
{
    assert(0 <= dr * ncols + ci < n * ncols && dr * ncols + ncols == (dr + 1) * ncols && (dr + 1)
        * ncols <= n * ncols) by (nonlinear_arith)
        requires
            0 <= ci < ncols,
            0 <= dr < n,
    ;
}

proof fn lemma_hits_grow(
    rs: ResultSet,
    order: Seq<usize>,
    formatted: Seq<Formatted>,
    q: Seq<char>,
    a: int,
    b: int,
)
    requires
        0 <= a <= b,
    ensures
        hits_before(rs, order, formatted, q, a).len() <= hits_before(
            rs,
            order,
            formatted,
            q,
            b,
        ).len(),
        hits_before(rs, order, formatted, q, a) == hits_before(rs, order, formatted, q, b).take(
            hits_before(rs, order, formatted, q, a).len() as int,
        ),
    decreases b - a,
{
    if a < b {
        lemma_hits_grow(rs, order, formatted, q, a, b - 1);
        let x = hits_before(rs, order, formatted, q, a);
        let y = hits_before(rs, order, formatted, q, b - 1);
        let z = hits_before(rs, order, formatted, q, b);
        assert(z.take(x.len() as int) =~= y.take(x.len() as int));
    } else {
        let x = hits_before(rs, order, formatted, q, a);
        assert(x.take(x.len() as int) =~= x);
    }
}

/// Which cells hold the text, by their places along the rows as they are shown, and whether there
/// may be more: the search stops at so many cells, and at so many hits.
pub fn find_hits(rs: &ResultSet, order: &Vec<usize>, formatted: &Vec<Formatted>, q: &str) -> (r: (
    Vec<usize>,
    bool,
))
    requires
        order@.len() * rs.columns@.len() <= usize::MAX,
    ensures
        q@.len() == 0 ==> r.0@.len() == 0 && !r.1,
        q@.len() > 0 ==> {
            let all = hits_before(*rs, order@, formatted@, q@, looked_at(*rs, order@));
            if all.len() < FIND_MAX_HITS {
                &&& r.0@ == all
                &&& r.1 == (order@.len() * rs.columns@.len() > FIND_COUNT_CELL_BUDGET)
            } else {
                r.0@ == all.take(FIND_MAX_HITS as int) && r.1
            }
        },
{
    let mut hits: Vec<usize> = Vec::new();
    if q.is_empty() {
        return (hits, false);
    }
    let ncols: usize = rs.col_count();
    let ghost total = order@.len() * rs.columns@.len();
    let ghost goal = looked_at(*rs, order@);
    let mut scanned: usize = 0;
    let mut dr: usize = 0;
    while dr < order.len()
        invariant
            q@.len() > 0,
            ncols == rs.columns@.len(),
            total == order@.len() * rs.columns@.len(),
            total <= usize::MAX,
            goal == looked_at(*rs, order@),
            dr <= order@.len(),
            scanned == dr * ncols,
            scanned <= goal,
            hits@ == hits_before(*rs, order@, formatted@, q@, scanned as int),
            hits@.len() < FIND_MAX_HITS,
        decreases order@.len() - dr,
    {
        let data: usize = order[dr];
        let mut ci: usize = 0;
        while ci < ncols
            invariant
                q@.len() > 0,
                dr < order@.len(),
                data == order@[dr as int],
                ncols == rs.columns@.len(),
                total == order@.len() * rs.columns@.len(),
                total <= usize::MAX,
                goal == looked_at(*rs, order@),
                ci <= ncols,
                scanned == dr * ncols + ci,
                scanned <= goal,
                hits@ == hits_before(*rs, order@, formatted@, q@, scanned as int),
                hits@.len() < FIND_MAX_HITS,
            decreases ncols - ci,
        {
            proof {
                lemma_place(ncols as int, dr as int, ci as int);
                lemma_in_total(ncols as int, order@.len() as int, dr as int, ci as int);
            }
            if scanned >= FIND_COUNT_CELL_BUDGET {
                return (hits, true);
            }
            let at: usize = scanned;
            scanned = scanned + 1;
            if cell_hit(rs, formatted, q, data, ci) {
                hits.push(at);
                if hits.len() >= FIND_MAX_HITS {
                    proof {
                        lemma_hits_grow(*rs, order@, formatted@, q@, scanned as int, goal);
                    }
                    return (hits, true);
                }
            }
            ci = ci + 1;
        }
        assert(dr * ncols + ncols == (dr + 1) * ncols) by (nonlinear_arith);
        dr = dr + 1;
    }
    (hits, false)
}

proof fn lemma_hits_ascend(
    rs: ResultSet,
    order: Seq<usize>,
    formatted: Seq<Formatted>,
    q: Seq<char>,
    n: int,
)
    requires
        n <= usize::MAX + 1,
    ensures
        forall|i: int|
            0 <= i < hits_before(rs, order, formatted, q, n).len() ==> 0 <= #[trigger] hits_before(
                rs,
                order,
                formatted,
                q,
                n,
            )[i] < n,
        forall|i: int, j: int|
            0 <= i < j < hits_before(rs, order, formatted, q, n).len() ==> #[trigger] hits_before(
                rs,
                order,
                formatted,
                q,
                n,
            )[i] < #[trigger] hits_before(rs, order, formatted, q, n)[j],
    decreases n,
{
    if n > 0 {
        lemma_hits_ascend(rs, order, formatted, q, n - 1);
        let before = hits_before(rs, order, formatted, q, n - 1);
        let now = hits_before(rs, order, formatted, q, n);
        assert forall|i: int| 0 <= i < now.len() implies 0 <= #[trigger] now[i] < n by {
            if i < before.len() {
                assert(now[i] == before[i]);
            }
        }
        assert forall|i: int, j: int| 0 <= i < j < now.len() implies #[trigger] now[i]
            < #[trigger] now[j] by {
            assert(now[i] == before[i]);
            if j < before.len() {
                assert(now[j] == before[j]);
            }
        }
    }
}

proof fn lemma_hits_complete(
    rs: ResultSet,
    order: Seq<usize>,
    formatted: Seq<Formatted>,
    q: Seq<char>,
    n: int,
    p: usize,
)
    requires
        p < n <= usize::MAX + 1,
    ensures
        hits_before(rs, order, formatted, q, n).contains(p) <==> is_hit(
            rs,
            order,
            formatted,
            q,
            p as int,
        ),
    decreases n,
{
    let before = hits_before(rs, order, formatted, q, n - 1);
    let now = hits_before(rs, order, formatted, q, n);
    lemma_hits_ascend(rs, order, formatted, q, n - 1);
    if p == n - 1 {
        if is_hit(rs, order, formatted, q, n - 1) {
            assert(now[before.len() as int] == p);
        } else if now.contains(p) {
            let i = now.index_of(p);
            assert(before[i] < n - 1);
        }
    } else {
        lemma_hits_complete(rs, order, formatted, q, n - 1, p);
        if before.contains(p) {
            let i = before.index_of(p);
            assert(now[i] == p);
        }
        if now.contains(p) {
            let i = now.index_of(p);
            if i < before.len() {
                assert(before[i] == p);
            }
        }
    }
}

/// The hits are every place that holds the text and no other, each once and in order.
pub proof fn hits_are_the_matching_places(
    rs: ResultSet,
    order: Seq<usize>,
    formatted: Seq<Formatted>,
    q: Seq<char>,
    n: int,
)
    requires
        n <= usize::MAX + 1,
    ensures
        forall|p: usize|
            p < n ==> (#[trigger] hits_before(rs, order, formatted, q, n).contains(p) <==> is_hit(
                rs,
                order,
                formatted,
                q,
                p as int,
            )),
        forall|i: int, j: int|
            0 <= i < j < hits_before(rs, order, formatted, q, n).len() ==> #[trigger] hits_before(
                rs,
                order,
                formatted,
                q,
                n,
            )[i] < #[trigger] hits_before(rs, order, formatted, q, n)[j],
{
    lemma_hits_ascend(rs, order, formatted, q, n);
    assert forall|p: usize| p < n implies (#[trigger] hits_before(
        rs,
        order,
        formatted,
        q,
        n,
    ).contains(p) <==> is_hit(rs, order, formatted, q, p as int)) by {
        lemma_hits_complete(rs, order, formatted, q, n, p);
    }
}

/// The place that a search looks at after `off` others: along the rows from `start`, itself
/// included where `from_current` says so; or back from the place before `start`. Both go round.
pub open spec fn search_place(
    start: int,
    total: int,
    forward: bool,
    from_current: bool,
    off: int,
) -> int {
    if forward {
        (start + if from_current {
            off
        } else {
            off + 1
        }) % total
    } else {
        (start + total * 2 - off - 1) % total
    }
}

/// The first place that holds the text, after `off` others.
pub open spec fn found_at(
    rs: ResultSet,
    order: Seq<usize>,
    formatted: Seq<Formatted>,
    q: Seq<char>,
    start: int,
    forward: bool,
    from_current: bool,
    off: int,
) -> Option<int>
    decreases order.len() * rs.columns@.len() - off,
{
    let total = (order.len() * rs.columns@.len()) as int;
    if off >= total {
        None
    } else {
        let p = search_place(start, total, forward, from_current, off);
        if is_hit(rs, order, formatted, q, p) {
            Some(p)
        } else {
            found_at(rs, order, formatted, q, start, forward, from_current, off + 1)
        }
    }
}

impl GridState {
    /// Where a search starts: at the active cell, else at the first.
    pub open spec fn search_start(self) -> int {
        match self.active {
            Some(a) => a.row * self.rs.columns@.len() + a.col,
            None => 0,
        }
    }

    /// The place of the next cell that holds the text.
    pub open spec fn found(
        self,
        formatted: Seq<Formatted>,
        q: Seq<char>,
        forward: bool,
        from_current: bool,
    ) -> Option<int> {
        if q.len() == 0 {
            None
        } else {
            found_at(
                self.rs,
                self.order@,
                formatted,
                q,
                self.search_start(),
                forward,
                from_current,
                0,
            )
        }
    }

    /// Move to the next cell that holds the text, or the one before, in the order of the rows as
    /// they are shown and round from the end to the start. Nothing moves where none does.
    pub fn grid_find(
        &mut self,
        formatted: &Vec<Formatted>,
        q: &str,
        forward: bool,
        from_current: bool,
    )
        requires
            old(self).search_start() + 2 * (old(self).order@.len() * old(self).rs.columns@.len())
                <= usize::MAX,
        ensures
            match old(self).found(formatted@, q@, forward, from_current) {
                None => *final(self) == *old(self),
                Some(p) => {
                    let ncols = old(self).rs.columns@.len() as int;
                    let at = At { row: (p / ncols) as usize, col: (p % ncols) as usize };
                    *final(self) == activated(*old(self), at, false)
                },
            },
    {
        if q.is_empty() {
            return;
        }
        let nrows: usize = self.order.len();
        let ncols: usize = self.rs.col_count();
        if nrows == 0 || ncols == 0 {
            assert(nrows * ncols == 0) by (nonlinear_arith)
                requires
                    nrows == 0 || ncols == 0,
            ;
            return;
        }
        assert(self.search_start() >= 0) by {
            if let Some(a) = self.active {
                assert(a.row * ncols >= 0) by (nonlinear_arith);
            }
        }
        let total: usize = nrows * ncols;
        let start: usize = match self.active {
            Some(a) => {
                assert(a.row * ncols >= 0) by (nonlinear_arith);
                a.row * ncols + a.col
            },
            None => 0,
        };
        let mut off: usize = 0;
        while off < total
            invariant
                *self == *old(self),
                q@.len() > 0,
                nrows == self.order@.len(),
                ncols == self.rs.columns@.len(),
                nrows > 0,
                ncols > 0,
                total == nrows * ncols,
                start == self.search_start(),
                start + 2 * total <= usize::MAX,
                off <= total,
                self.found(formatted@, q@, forward, from_current) == found_at(
                    self.rs,
                    self.order@,
                    formatted@,
                    q@,
                    start as int,
                    forward,
                    from_current,
                    off as int,
                ),
            decreases total - off,
        {
            let lin: usize = if forward {
                (start + if from_current {
                    off
                } else {
                    off + 1
                }) % total
            } else {
                (start + total * 2 - off - 1) % total
            };
            let dr: usize = lin / ncols;
            let ci: usize = lin % ncols;
            assert(dr < nrows) by (nonlinear_arith)
                requires
                    0 <= lin < total,
                    total == nrows * ncols,
                    dr == lin / ncols,
                    ncols > 0,
            ;
            let data: usize = self.order[dr];
            if cell_hit(&self.rs, formatted, q, data, ci) {
                let at: At = At { row: dr, col: ci };
                self.set_active(at, false);
                return;
            }
            off = off + 1;
        }
    }
}

proof fn lemma_round(start: int, total: int, p: int, forward: bool, from_current: bool) -> (off: int)
    requires
        0 <= p < total,
        0 <= start,
    ensures
        0 <= off < total,
        search_place(start, total, forward, from_current, off) == p,
{
    let s = start % total;
    let q = start / total;
    assert(start == q * total + s) by (nonlinear_arith)
        requires
            s == start % total,
            q == start / total,
            total > 0,
    ;
    if forward {
        let by = if from_current {
            p - s
        } else {
            p - s - 1
        };
        let off = if by < 0 {
            by + total
        } else {
            by
        };
        let k: int = if by < 0 {
            q + 1
        } else {
            q
        };
        let x = start + if from_current {
            off
        } else {
            off + 1
        };
        assert(x == k * total + p) by (nonlinear_arith)
            requires
                start == q * total + s,
                x == start + (if from_current {
                    off
                } else {
                    off + 1
                }),
                by == (if from_current {
                    p - s
                } else {
                    p - s - 1
                }),
                off == (if by < 0 {
                    by + total
                } else {
                    by
                }),
                k == (if by < 0 {
                    q + 1
                } else {
                    q
                }),
        ;
        lemma_mod_of(k, total, p);
        off
    } else {
        let by = s - 1 - p;
        let off = if by < 0 {
            by + total
        } else {
            by
        };
        let k: int = if by < 0 {
            q + 1
        } else {
            q + 2
        };
        let x = start + total * 2 - off - 1;
        assert(x == k * total + p) by (nonlinear_arith)
            requires
                start == q * total + s,
                x == start + total * 2 - off - 1,
                by == s - 1 - p,
                off == (if by < 0 {
                    by + total
                } else {
                    by
                }),
                k == (if by < 0 {
                    q + 1
                } else {
                    q + 2
                }),
        ;
        lemma_mod_of(k, total, p);
        off
    }
}

proof fn lemma_mod_of(k: int, total: int, p: int)
    requires
        0 <= p < total,
    ensures
        (k * total + p) % total == p,
{
    vstd::arithmetic::div_mod::lemma_mod_multiples_vanish(k, p, total);
    assert(total * k + p == k * total + p) by (nonlinear_arith);
    vstd::arithmetic::div_mod::lemma_small_mod(p as nat, total as nat);
}

proof fn lemma_found_from(
    rs: ResultSet,
    order: Seq<usize>,
    formatted: Seq<Formatted>,
    q: Seq<char>,
    start: int,
    forward: bool,
    from_current: bool,
    off: int,
    hit: int,
)
    requires
        0 <= off <= hit < order.len() * rs.columns@.len(),
        is_hit(
            rs,
            order,
            formatted,
            q,
            search_place(
                start,
                (order.len() * rs.columns@.len()) as int,
                forward,
                from_current,
                hit,
            ),
        ),
    ensures
        found_at(rs, order, formatted, q, start, forward, from_current, off) is Some,
    decreases hit - off,
{
    let total = (order.len() * rs.columns@.len()) as int;
    if !is_hit(rs, order, formatted, q, search_place(start, total, forward, from_current, off)) {
        lemma_found_from(
            rs,
            order,
            formatted,
            q,
            start,
            forward,
            from_current,
            off + 1,
            hit,
        );
    }
}

proof fn lemma_found_hits(
    rs: ResultSet,
    order: Seq<usize>,
    formatted: Seq<Formatted>,
    q: Seq<char>,
    start: int,
    forward: bool,
    from_current: bool,
    off: int,
)
    requires
        0 <= off,
    ensures
        found_at(rs, order, formatted, q, start, forward, from_current, off) matches Some(p) ==> is_hit(
            rs,
            order,
            formatted,
            q,
            p,
        ),
    decreases order.len() * rs.columns@.len() - off,
{
    let total = (order.len() * rs.columns@.len()) as int;
    if off < total {
        if !is_hit(rs, order, formatted, q, search_place(start, total, forward, from_current, off)) {
            lemma_found_hits(rs, order, formatted, q, start, forward, from_current, off + 1);
        }
    }
}

/// A search goes round: it finds a cell wherever the grid holds one, in either direction and from
/// any place, and what it finds holds the text.
pub proof fn a_search_goes_round(
    rs: ResultSet,
    order: Seq<usize>,
    formatted: Seq<Formatted>,
    q: Seq<char>,
    start: int,
    forward: bool,
    from_current: bool,
    p: int,
)
    requires
        0 <= start,
        0 <= p < order.len() * rs.columns@.len(),
        is_hit(rs, order, formatted, q, p),
    ensures
        found_at(rs, order, formatted, q, start, forward, from_current, 0) is Some,
        is_hit(
            rs,
            order,
            formatted,
            q,
            found_at(rs, order, formatted, q, start, forward, from_current, 0)->0,
        ),
{
    let total = (order.len() * rs.columns@.len()) as int;
    let off = lemma_round(start, total, p, forward, from_current);
    lemma_found_from(rs, order, formatted, q, start, forward, from_current, 0, off);
    lemma_found_hits(rs, order, formatted, q, start, forward, from_current, 0);
}

/// The rank of a place among ascending ones, counted from one; nought where it is not there.
pub open spec fn rank_of(hits: Seq<usize>, p: int) -> int {
    if exists|i: int| 0 <= i < hits.len() && hits[i] == p {
        (choose|i: int| 0 <= i < hits.len() && hits[i] == p) + 1
    } else {
        0
    }
}

/// The rank of the active cell among the hits, counted from one; nought where it is none of them.
pub fn find_pos(hits: &Vec<usize>, active: Option<At>, ncols: usize) -> (r: usize)
    requires
        forall|i: int, j: int|
            #![trigger hits@[i], hits@[j]]
            0 <= i < j < hits@.len() ==> hits@[i] < hits@[j],
        active matches Some(a) ==> a.row * ncols + a.col <= usize::MAX,
        hits@.len() < usize::MAX,
    ensures
        r == match active {
            Some(a) => rank_of(hits@, a.row * ncols + a.col),
            None => 0,
        },
{
    let at: usize = match active {
        Some(a) => {
            assert(a.row * ncols >= 0) by (nonlinear_arith);
            a.row * ncols + a.col
        },
        None => return 0,
    };
    let mut lo: usize = 0;
    let mut hi: usize = hits.len();
    while lo < hi
        invariant
            lo <= hi <= hits@.len(),
            forall|i: int, j: int|
                #![trigger hits@[i], hits@[j]]
                0 <= i < j < hits@.len() ==> hits@[i] < hits@[j],
            forall|i: int| 0 <= i < lo ==> #[trigger] hits@[i] < at,
            forall|i: int| hi <= i < hits@.len() ==> #[trigger] hits@[i] > at,
            active is Some,
            at == active->0.row * ncols + active->0.col,
            hits@.len() < usize::MAX,
        decreases hi - lo,
    {
        let mid: usize = lo + (hi - lo) / 2;
        if hits[mid] == at {
            proof {
                let i = choose|i: int| 0 <= i < hits@.len() && hits@[i] == at;
                assert(hits@[mid as int] == at);
                assert(i == mid);
            }
            return mid + 1;
        }
        if hits[mid] < at {
            lo = mid + 1;
        } else {
            hi = mid;
        }
    }
    0
}

/// What the find bar reads beside its field.
pub open spec fn find_label_text(pos: nat, total: nat, more: bool) -> Seq<char> {
    digits(pos) + "/"@ + digits(total) + if more {
        "+"@
    } else {
        ""@
    }
}

/// What the find bar reads beside its field: the rank of the cell and the number of hits, with a
/// sign that there may be more. Nothing while there is no text to find.
pub fn find_label(query_empty: bool, pos: usize, total: usize, more: bool) -> (r: Option<String>)
    ensures
        r is None <==> query_empty,
        !query_empty ==> r->0@ == find_label_text(pos as nat, total as nat, more),
{
    if query_empty {
        return None;
    }
    let mut out: String = decimal(pos as u128);
    out.append("/");
    out.append(decimal(total as u128).as_str());
    out.append(
        if more {
            "+"
        } else {
            ""
        },
    );
    Some(out)
}

/// A search the find bar asked for: how many were asked for, and which way the last one goes.
#[derive(Clone, Copy, Debug, PartialEq, Eq, Structural)]
pub struct FindStep {
    pub count: u64,
    pub forward: bool,
}

impl FindStep {
    /// Ask for one more search.
    pub fn step(&mut self, forward: bool)
        ensures
            final(self).count == old(self).count.wrapping_add(1),
            final(self).forward == forward,
            final(self).count != old(self).count,
    {
        self.count = self.count.wrapping_add(1);
        self.forward = forward;
    }
}

/// A letter reads like another byte where they are the same, or one letter of the plain alphabet in
/// its two cases.
pub open spec fn reads_like(a: u8, b: u8) -> bool {
    ||| a == b
    ||| 65 <= a <= 90 && b == a + 32
    ||| 65 <= b <= 90 && a == b + 32
}

/// A text holds another where it stands in it, byte for byte but for the case of plain letters; no
/// other letter has its case ignored.
pub proof fn a_text_is_held_where_it_stands(hay: Seq<char>, needle: Seq<char>)
    ensures
        has_text(hay, needle) <==> exists|i: int|
            0 <= i && i + encode_utf8(needle).len() <= encode_utf8(hay).len() && #[trigger] reads_from(
                encode_utf8(hay),
                encode_utf8(needle),
                i,
            ),
{
    let h = encode_utf8(hay);
    let n = encode_utf8(needle);
    assert forall|i: int| 0 <= i && i + n.len() <= h.len() implies (#[trigger] reads_from(h, n, i)
        <==> stands_at(h, n, i)) by {
        assert forall|a: u8, b: u8| #![trigger lower(a), lower(b)] lower(a) == lower(b) <==> reads_like(
            a,
            b,
        ) by {}
        if stands_at(h, n, i) {
            assert forall|j: int| 0 <= j < n.len() implies reads_like(h[i + j], #[trigger] n[j]) by {
                assert(lower(h[i + j]) == lower(n[j]));
            }
        }
        if reads_from(h, n, i) {
            assert forall|j: int| 0 <= j < n.len() implies lower(h[i + j]) == lower(
                #[trigger] n[j],
            ) by {
                assert(reads_like(h[i + j], n[j]));
            }
        }
    }
    if has_text(hay, needle) {
        let i = choose|i: int| stands_at(h, n, i);
        assert(reads_from(h, n, i));
    }
    if exists|i: int| 0 <= i && i + n.len() <= h.len() && #[trigger] reads_from(h, n, i) {
        let i = choose|i: int| 0 <= i && i + n.len() <= h.len() && #[trigger] reads_from(h, n, i);
        assert(stands_at(h, n, i));
    }
}

/// Whether the bytes from a place on read like these.
pub open spec fn reads_from(hay: Seq<u8>, needle: Seq<u8>, i: int) -> bool {
    forall|j: int| 0 <= j < needle.len() ==> reads_like(hay[i + j], #[trigger] needle[j])
}

/// A hit is the cell that its place stands for: so many rows down as they are shown, and so many
/// columns along. The cell is searched as it is shown.
pub proof fn a_hit_is_the_cell_at_its_place(
    rs: ResultSet,
    order: Seq<usize>,
    formatted: Seq<Formatted>,
    q: Seq<char>,
    dr: int,
    ci: int,
)
    requires
        0 <= dr < order.len(),
        0 <= ci < rs.columns@.len(),
    ensures
        ({
            let row = order[dr] as int;
            let own = ci < formatted.len() && formatted[ci] is Some && row < formatted[ci]->0@.len();
            let ncols = rs.columns@.len();
            is_hit(rs, order, formatted, q, dr * ncols + ci) <==> row < rs.rows@.len() && ci
                < rs.rows@[row]@.len() && has_text(
                if own {
                    formatted[ci]->0@[row]@
                } else {
                    rs.rows@[row]@[ci].text@
                },
                q,
            )
        }),
{
    let ncols = rs.columns@.len() as int;
    let p = dr * ncols + ci;
    vstd::arithmetic::div_mod::lemma_fundamental_div_mod_converse(p, ncols, dr, ci);
}

proof fn lemma_place_looked_at(s: int, total: int, forward: bool, from_current: bool, m: int)
    requires
        0 <= s < total,
        0 <= m < total,
    ensures
        ({
            let p = search_place(s, total, forward, from_current, m);
            if forward && from_current {
                p == if s + m < total {
                    s + m
                } else {
                    s + m - total
                }
            } else if forward {
                p == if s + m + 1 < total {
                    s + m + 1
                } else {
                    s + m + 1 - total
                }
            } else {
                p == if m + 1 <= s {
                    s - m - 1
                } else {
                    s - m - 1 + total
                }
            }
        }),
{
    if forward {
        let x = s + if from_current {
            m
        } else {
            m + 1
        };
        if x < total {
            vstd::arithmetic::div_mod::lemma_fundamental_div_mod_converse(x, total, 0, x);
        } else {
            vstd::arithmetic::div_mod::lemma_fundamental_div_mod_converse(x, total, 1, x - total);
        }
    } else {
        let x = s + total * 2 - m - 1;
        if m + 1 <= s {
            vstd::arithmetic::div_mod::lemma_fundamental_div_mod_converse(x, total, 2, s - m - 1);
        } else {
            vstd::arithmetic::div_mod::lemma_fundamental_div_mod_converse(
                x,
                total,
                1,
                s - m - 1 + total,
            );
        }
    }
}

proof fn lemma_found_first(
    rs: ResultSet,
    order: Seq<usize>,
    formatted: Seq<Formatted>,
    q: Seq<char>,
    start: int,
    forward: bool,
    from_current: bool,
    off: int,
) -> (k: int)
    requires
        0 <= off,
        found_at(rs, order, formatted, q, start, forward, from_current, off) is Some,
    ensures
        off <= k < order.len() * rs.columns@.len(),
        ({
            let total = (order.len() * rs.columns@.len()) as int;
            let p = search_place(start, total, forward, from_current, k);
            &&& found_at(rs, order, formatted, q, start, forward, from_current, off) == Some(p)
            &&& is_hit(rs, order, formatted, q, p)
            &&& forall|m: int|
                off <= m < k ==> !is_hit(
                    rs,
                    order,
                    formatted,
                    q,
                    #[trigger] search_place(start, total, forward, from_current, m),
                )
        }),
    decreases order.len() * rs.columns@.len() - off,
{
    let total = (order.len() * rs.columns@.len()) as int;
    let p = search_place(start, total, forward, from_current, off);
    if is_hit(rs, order, formatted, q, p) {
        off
    } else {
        lemma_found_first(rs, order, formatted, q, start, forward, from_current, off + 1)
    }
}

/// A search goes to the nearest hit on its way: forward to the least one behind the start, or from the
/// first again where there is none; back to the greatest one before the start, or from the last again
/// where there is none. No hit is passed over.
pub proof fn a_search_passes_over_no_hit(
    rs: ResultSet,
    order: Seq<usize>,
    formatted: Seq<Formatted>,
    q: Seq<char>,
    s: int,
    forward: bool,
    from_current: bool,
    other: int,
)
    requires
        0 <= s < order.len() * rs.columns@.len(),
        0 <= other < order.len() * rs.columns@.len(),
        is_hit(rs, order, formatted, q, other),
    ensures
        found_at(rs, order, formatted, q, s, forward, from_current, 0) matches Some(p) && {
            let total = order.len() * rs.columns@.len();
            // Where the search starts: at the place itself, or the next one.
            let from = if from_current {
                s
            } else {
                s + 1
            };
            &&& 0 <= p < total
            &&& is_hit(rs, order, formatted, q, p)
            &&& forward && p >= from ==> !(from <= other < p)
            &&& forward && p < from ==> other < from && other >= p
            &&& !forward && p < s ==> !(p < other < s)
            &&& !forward && p >= s ==> other >= s && other <= p
        },
{
    let total = (order.len() * rs.columns@.len()) as int;
    a_search_goes_round(rs, order, formatted, q, s, forward, from_current, other);
    let k = lemma_found_first(rs, order, formatted, q, s, forward, from_current, 0);
    lemma_place_looked_at(s, total, forward, from_current, k);
    let m = lemma_round(s, total, other, forward, from_current);
    lemma_place_looked_at(s, total, forward, from_current, m);
    assert(m >= k);
}

/// Where no cell holds the text, a search finds none.
pub proof fn a_search_finds_only_hits(
    rs: ResultSet,
    order: Seq<usize>,
    formatted: Seq<Formatted>,
    q: Seq<char>,
    s: int,
    forward: bool,
    from_current: bool,
)
    requires
        0 <= s < order.len() * rs.columns@.len(),
        forall|p: int|
            0 <= p < order.len() * rs.columns@.len() ==> !#[trigger] is_hit(
                rs,
                order,
                formatted,
                q,
                p,
            ),
    ensures
        found_at(rs, order, formatted, q, s, forward, from_current, 0) is None,
{
    let total = (order.len() * rs.columns@.len()) as int;
    if found_at(rs, order, formatted, q, s, forward, from_current, 0) is Some {
        let k = lemma_found_first(rs, order, formatted, q, s, forward, from_current, 0);
        lemma_place_looked_at(s, total, forward, from_current, k);
    }
}

/// Find Next and Find Previous go from the active cell, row by row as they are shown, and from the
/// first cell where none is active; no text is searched for in vain.
pub proof fn a_search_starts_at_the_active_cell(
    gs: GridState,
    formatted: Seq<Formatted>,
    q: Seq<char>,
    forward: bool,
    from_current: bool,
)
    ensures
        q.len() == 0 ==> gs.found(formatted, q, forward, from_current) is None,
        q.len() > 0 ==> gs.found(formatted, q, forward, from_current) == found_at(
            gs.rs,
            gs.order@,
            formatted,
            q,
            match gs.active {
                Some(a) => a.row * gs.rs.columns@.len() + a.col,
                None => 0,
            },
            forward,
            from_current,
            0,
        ),
{
}

/// The rank of a hit is its place in the list, counted from one; a place that is no hit has none.
pub proof fn a_hit_is_ranked_by_its_place(hits: Seq<usize>, i: int, p: int)
    requires
        hits.no_duplicates(),
        0 <= i < hits.len(),
    ensures
        rank_of(hits, hits[i] as int) == i + 1,
        (forall|k: int| 0 <= k < hits.len() ==> hits[k] != p) ==> rank_of(hits, p) == 0,
{
    let at = choose|k: int| 0 <= k < hits.len() && hits[k] == hits[i];
    assert(hits[i] == hits[i]);
    assert(at == i);
}

/// The cells that are looked at for counting are all there are, and two million at most.
pub proof fn counting_looks_at_every_cell(rs: ResultSet, order: Seq<usize>)
    ensures
        order.len() * rs.columns@.len() <= 2_000_000 ==> looked_at(rs, order) == order.len()
            * rs.columns@.len(),
        order.len() * rs.columns@.len() > 2_000_000 ==> looked_at(rs, order) == 2_000_000,
        FIND_MAX_HITS == 100_000,
{
}

/// The count says which hit is shown and how many there are, with a plus where there may be more.
pub proof fn the_count_says_which_of_how_many(pos: nat, total: nat)
    ensures
        find_label_text(pos, total, false) == digits(pos) + "/"@ + digits(total),
        find_label_text(pos, total, true) == digits(pos) + "/"@ + digits(total) + "+"@,
{
    reveal_strlit("");
    assert(find_label_text(pos, total, false) =~= digits(pos) + "/"@ + digits(total));
}

} // verus!
