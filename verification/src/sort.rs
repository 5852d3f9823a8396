//! The order in which a grid shows its rows.

use vstd::prelude::*;
use vstd::string::StringSliceAdditionalSpecFns;
use crate::model::{Cell, CellTag, Number, ResultSet};

verus! {

/// The sort of a grid: a column and whether it ascends, or none for the order of the query.
pub type SortState = Option<(usize, bool)>;

/// The sort after a click on column `ci`: ascending, then descending, then none.
pub open spec fn next_sort(s: SortState, ci: usize) -> SortState {
    match s {
        Some((c, asc)) => if c != ci {
            Some((ci, true))
        } else if asc {
            Some((ci, false))
        } else {
            None
        },
        None => Some((ci, true)),
    }
}

/// Cycle a column's sort: another column or none, then ascending, then descending, then none.
pub fn cycle_sort(sort: &mut SortState, ci: usize)
    ensures
        *final(sort) == next_sort(*old(sort), ci),
{
    *sort = match *sort {
        Some((c, true)) if c == ci => Some((ci, false)),
        Some((c, false)) if c == ci => None,
        _ => Some((ci, true)),
    };
}

/// From an unsorted grid, three clicks on a column lead back to the unsorted grid, through
/// ascending and descending.
pub proof fn three_clicks_return(ci: usize)
    ensures
        next_sort(None, ci) == Some((ci, true)),
        next_sort(next_sort(None, ci), ci) == Some((ci, false)),
        next_sort(next_sort(next_sort(None, ci), ci), ci) is None,
{
}

/// How one value stands to another.
#[derive(Clone, Copy, Debug, PartialEq, Eq, Structural)]
pub enum Rank {
    Before,
    Same,
    Behind,
}

impl Rank {
    /// The same relation, seen from the other value.
    pub open spec fn flip(self) -> Rank {
        match self {
            Rank::Before => Rank::Behind,
            Rank::Same => Rank::Same,
            Rank::Behind => Rank::Before,
        }
    }
}

/// What a sort compares one row by.
pub struct SortKey<'a> {
    pub null: bool,
    pub num: Number,
    pub text: &'a str,
}

/// A sort key as a mathematical value.
pub struct Key {
    pub null: bool,
    pub num: Number,
    pub bytes: Seq<u8>,
}

impl<'a> View for SortKey<'a> {
    type V = Key;

    open spec fn view(&self) -> Key {
        Key { null: self.null, num: self.num, bytes: self.text.spec_bytes() }
    }
}

/// Byte strings in the order of their first difference; a prefix comes first.
pub open spec fn byte_rank(a: Seq<u8>, b: Seq<u8>) -> Rank
    decreases a.len(),
{
    if a.len() == 0 || b.len() == 0 {
        if a.len() == b.len() {
            Rank::Same
        } else if a.len() == 0 {
            Rank::Before
        } else {
            Rank::Behind
        }
    } else if a[0] < b[0] {
        Rank::Before
    } else if a[0] > b[0] {
        Rank::Behind
    } else {
        byte_rank(a.drop_first(), b.drop_first())
    }
}

/// Compare two texts by their bytes.
pub fn text_rank(a: &str, b: &str) -> (r: Rank)
    ensures
        r == byte_rank(a.spec_bytes(), b.spec_bytes()),
{
    let x: &[u8] = a.as_bytes();
    let y: &[u8] = b.as_bytes();
    let mut i: usize = 0;
    assert(x@.skip(0) == x@);
    assert(y@.skip(0) == y@);
    while i < x.len() && i < y.len()
        invariant
            x@ == a.spec_bytes(),
            y@ == b.spec_bytes(),
            i <= x@.len(),
            i <= y@.len(),
            byte_rank(x@.skip(i as int), y@.skip(i as int)) == byte_rank(x@, y@),
        decreases x@.len() - i,
    {
        if x[i] < y[i] {
            return Rank::Before;
        }
        if x[i] > y[i] {
            return Rank::Behind;
        }
        assert(x@.skip(i as int).drop_first() == x@.skip(i + 1));
        assert(y@.skip(i as int).drop_first() == y@.skip(i + 1));
        i = i + 1;
    }
    if x.len() == y.len() {
        Rank::Same
    } else if i == x.len() {
        Rank::Before
    } else {
        Rank::Behind
    }
}

/// Keys in the order of an ascending sort: nothing comes last, two numbers compare as numbers,
/// and anything else by its text.
pub open spec fn key_rank(a: Key, b: Key) -> Rank {
    if a.null || b.null {
        if a.null && b.null {
            Rank::Same
        } else if a.null {
            Rank::Behind
        } else {
            Rank::Before
        }
    } else if a.num != Number::Absent && b.num != Number::Absent {
        match (a.num, b.num) {
            (Number::At(x), Number::At(y)) => if x < y {
                Rank::Before
            } else if x > y {
                Rank::Behind
            } else {
                Rank::Same
            },
            _ => Rank::Same,
        }
    } else {
        byte_rank(a.bytes, b.bytes)
    }
}

/// Compare two keys.
pub fn compare_keys(a: &SortKey, b: &SortKey) -> (r: Rank)
    ensures
        r == key_rank(a@, b@),
{
    if a.null {
        return if b.null { Rank::Same } else { Rank::Behind };
    }
    if b.null {
        return Rank::Before;
    }
    match (a.num, b.num) {
        (Number::At(x), Number::At(y)) => if x < y {
            Rank::Before
        } else if x > y {
            Rank::Behind
        } else {
            Rank::Same
        },
        (Number::Absent, _) => text_rank(a.text, b.text),
        (_, Number::Absent) => text_rank(a.text, b.text),
        _ => Rank::Same,
    }
}

/// The key of a row in column `col`; a cell that is not there counts as nothing.
pub open spec fn row_key(rs: ResultSet, col: int, row: int) -> Key {
    if rs.has_cell(row, col) {
        let c: Cell = rs.rows@[row]@[col];
        Key {
            null: c.tag == CellTag::Null,
            num: c.sort_number(),
            bytes: vstd::utf8::encode_utf8(c.text@),
        }
    } else {
        Key { null: true, num: Number::Absent, bytes: vstd::utf8::encode_utf8(""@) }
    }
}

/// The keys of a column, row by row.
pub open spec fn column_keys(rs: ResultSet, col: int) -> Seq<Key> {
    Seq::new(rs.rows@.len(), |row: int| row_key(rs, col, row))
}

/// How row `a` stands to row `b` in a sort; a descending one turns the order round.
pub open spec fn row_rank(keys: Seq<Key>, asc: bool, a: int, b: int) -> Rank {
    if asc {
        key_rank(keys[a], keys[b])
    } else {
        key_rank(keys[a], keys[b]).flip()
    }
}

/// Whether the keys of a column can be put in one order: what stands before or beside a key that
/// stands before or beside a third, stands before or beside the third.
pub open spec fn orderable(keys: Seq<Key>) -> bool {
    forall|a: int, b: int, c: int|
        0 <= a < keys.len() && 0 <= b < keys.len() && 0 <= c < keys.len()
            && #[trigger] key_rank(keys[a], keys[b]) != Rank::Behind
            && #[trigger] key_rank(keys[b], keys[c]) != Rank::Behind
            ==> key_rank(keys[a], keys[c]) != Rank::Behind
}

/// Whether row `a` is shown above row `b`: by its key, and rows with the same key in the order
/// of the query.
pub open spec fn shown_above(keys: Seq<Key>, asc: bool, a: int, b: int) -> bool {
    match row_rank(keys, asc, a, b) {
        Rank::Before => true,
        Rank::Same => a < b,
        Rank::Behind => false,
    }
}

/// Whether the rows of `from..to` stand in `order`, each once.
pub open spec fn is_arrangement(order: Seq<usize>, from: int, to: int) -> bool {
    &&& order.len() == to - from
    &&& order.no_duplicates()
    &&& forall|i: int| 0 <= i < order.len() ==> from <= #[trigger] order[i] < to
    &&& forall|row: usize| from <= row < to ==> #[trigger] order.contains(row)
}

/// Whether every row of `order` is shown above the rows that follow it.
pub open spec fn in_order(keys: Seq<Key>, asc: bool, order: Seq<usize>) -> bool {
    forall|i: int, j: int|
        #![trigger order[i], order[j]]
        0 <= i < j < order.len() ==> shown_above(keys, asc, order[i] as int, order[j] as int)
}

/// Whether row `a` may stand above row `b` as far as nothing goes: it comes last in an ascending
/// sort and first in a descending one.
pub open spec fn null_allows(keys: Seq<Key>, asc: bool, a: int, b: int) -> bool {
    if asc {
        keys[a].null ==> keys[b].null
    } else {
        keys[b].null ==> keys[a].null
    }
}

/// Whether the rows that hold nothing stand together at the end of `order` that the sort gives them.
pub open spec fn nulls_at_end(keys: Seq<Key>, asc: bool, order: Seq<usize>) -> bool {
    forall|i: int, j: int|
        #![trigger order[i], order[j]]
        0 <= i < j < order.len() ==> null_allows(keys, asc, order[i] as int, order[j] as int)
}

proof fn lemma_byte_rank_flips(a: Seq<u8>, b: Seq<u8>)
    ensures
        byte_rank(b, a) == byte_rank(a, b).flip(),
    decreases a.len(),
{
    if a.len() > 0 && b.len() > 0 && a[0] == b[0] {
        lemma_byte_rank_flips(a.drop_first(), b.drop_first());
    }
}

proof fn lemma_byte_rank_chains(a: Seq<u8>, b: Seq<u8>, c: Seq<u8>)
    requires
        byte_rank(a, b) != Rank::Behind,
        byte_rank(b, c) != Rank::Behind,
    ensures
        byte_rank(a, c) != Rank::Behind,
    decreases a.len(),
{
    if a.len() > 0 && b.len() > 0 && c.len() > 0 && a[0] == b[0] && b[0] == c[0] {
        lemma_byte_rank_chains(a.drop_first(), b.drop_first(), c.drop_first());
    }
}

/// Two keys stand to each other in one way, whichever is asked first.
pub proof fn key_rank_flips(a: Key, b: Key)
    ensures
        key_rank(b, a) == key_rank(a, b).flip(),
{
    lemma_byte_rank_flips(a.bytes, b.bytes);
}

/// A column whose values are all ordered numbers, or none of them a number, can be put in order,
/// whatever nothing it holds besides.
pub proof fn one_kind_is_orderable(keys: Seq<Key>)
    requires
        (forall|i: int|
            0 <= i < keys.len() && !(#[trigger] keys[i]).null ==> keys[i].num is At) || (forall|
            i: int,
        |
            0 <= i < keys.len() && !(#[trigger] keys[i]).null ==> keys[i].num is Absent),
    ensures
        orderable(keys),
{
    assert forall|a: int, b: int, c: int|
        0 <= a < keys.len() && 0 <= b < keys.len() && 0 <= c < keys.len()
            && #[trigger] key_rank(keys[a], keys[b]) != Rank::Behind
            && #[trigger] key_rank(keys[b], keys[c]) != Rank::Behind implies key_rank(
        keys[a],
        keys[c],
    ) != Rank::Behind by {
        if !keys[a].null && !keys[b].null && !keys[c].null && keys[a].num is Absent {
            lemma_byte_rank_chains(keys[a].bytes, keys[b].bytes, keys[c].bytes);
        }
    }
}

proof fn lemma_above_chains(keys: Seq<Key>, asc: bool, a: int, b: int, c: int)
    requires
        orderable(keys),
        0 <= a < keys.len(),
        0 <= b < keys.len(),
        0 <= c < keys.len(),
        shown_above(keys, asc, a, b),
        shown_above(keys, asc, b, c),
    ensures
        shown_above(keys, asc, a, c),
{
    key_rank_flips(keys[a], keys[b]);
    key_rank_flips(keys[b], keys[c]);
    key_rank_flips(keys[a], keys[c]);
}

proof fn lemma_above_is_one_way(keys: Seq<Key>, asc: bool, a: int, b: int)
    requires
        shown_above(keys, asc, a, b),
    ensures
        !shown_above(keys, asc, b, a),
{
    key_rank_flips(keys[a], keys[b]);
}

/// Two orders of the same rows, in both of which every row is shown above those that follow it, are
/// the same: a sort by keys that can be put in order leaves no choice.
pub proof fn the_order_is_determined(keys: Seq<Key>, asc: bool, x: Seq<usize>, y: Seq<usize>)
    requires
        is_arrangement(x, 0, keys.len() as int),
        is_arrangement(y, 0, keys.len() as int),
        in_order(keys, asc, x),
        in_order(keys, asc, y),
    ensures
        x == y,
{
    lemma_same_front(keys, asc, x, y, keys.len());
    assert(x == y);
}

proof fn lemma_same_front(keys: Seq<Key>, asc: bool, x: Seq<usize>, y: Seq<usize>, k: nat)
    requires
        is_arrangement(x, 0, keys.len() as int),
        is_arrangement(y, 0, keys.len() as int),
        in_order(keys, asc, x),
        in_order(keys, asc, y),
        k <= keys.len(),
    ensures
        forall|i: int| 0 <= i < k ==> x[i] == y[i],
    decreases k,
{
    if k > 0 {
        let at = k - 1;
        lemma_same_front(keys, asc, x, y, at as nat);
        if x[at] != y[at] {
            assert(y.contains(x[at]));
            assert(x.contains(y[at]));
            let m = choose|m: int| 0 <= m < y.len() && y[m] == x[at];
            let n = choose|n: int| 0 <= n < x.len() && x[n] == y[at];
            assert(m > at) by {
                if m < at {
                    assert(x[m] == x[at]);
                }
            }
            assert(n > at) by {
                if n < at {
                    assert(y[n] == y[at]);
                }
            }
            assert(shown_above(keys, asc, x[at] as int, y[at] as int));
            assert(shown_above(keys, asc, y[at] as int, x[at] as int));
            lemma_above_is_one_way(keys, asc, x[at] as int, y[at] as int);
        }
    }
}

/// The keys of a list, one for each row.
pub open spec fn keys_view(keys: Seq<SortKey>) -> Seq<Key> {
    keys.map_values(|k: SortKey| k@)
}

/// Whether row `a` has to stand below row `b`, which follows it in the query.
fn sorts_behind(keys: &Vec<SortKey>, asc: bool, a: usize, b: usize) -> (r: bool)
    requires
        a < keys@.len(),
        b < keys@.len(),
    ensures
        r == (row_rank(keys_view(keys@), asc, a as int, b as int) == Rank::Behind),
{
    match compare_keys(&keys[a], &keys[b]) {
        Rank::Before => !asc,
        Rank::Same => false,
        Rank::Behind => asc,
    }
}

/// Merge two sorted runs; the rows of the first stand before those of the second in the query.
fn merge_runs(
    keys: &Vec<SortKey>,
    asc: bool,
    left: &Vec<usize>,
    right: &Vec<usize>,
    from: usize,
    mid: usize,
    to: usize,
) -> (r: Vec<usize>)
    requires
        from <= mid <= to <= keys@.len(),
        is_arrangement(left@, from as int, mid as int),
        is_arrangement(right@, mid as int, to as int),
        nulls_at_end(keys_view(keys@), asc, left@),
        nulls_at_end(keys_view(keys@), asc, right@),
        orderable(keys_view(keys@)) ==> in_order(keys_view(keys@), asc, left@) && in_order(
            keys_view(keys@),
            asc,
            right@,
        ),
    ensures
        is_arrangement(r@, from as int, to as int),
        nulls_at_end(keys_view(keys@), asc, r@),
        orderable(keys_view(keys@)) ==> in_order(keys_view(keys@), asc, r@),
{
    let ghost ks = keys_view(keys@);
    let mut out: Vec<usize> = Vec::with_capacity(to - from);
    let mut i: usize = 0;
    let mut j: usize = 0;
    while i < left.len() || j < right.len()
        invariant
            ks == keys_view(keys@),
            from <= mid <= to <= keys@.len(),
            is_arrangement(left@, from as int, mid as int),
            is_arrangement(right@, mid as int, to as int),
            i <= left@.len(),
            j <= right@.len(),
            out@.len() == i + j,
            forall|p: int| 0 <= p < i ==> out@.contains(#[trigger] left@[p]),
            forall|p: int| 0 <= p < j ==> out@.contains(#[trigger] right@[p]),
            forall|p: int, q: int|
                #![trigger out@[p], left@[q]]
                0 <= p < out@.len() && i <= q < left@.len() ==> out@[p] != left@[q],
            forall|p: int, q: int|
                #![trigger out@[p], right@[q]]
                0 <= p < out@.len() && j <= q < right@.len() ==> out@[p] != right@[q],
            forall|p: int| 0 <= p < out@.len() ==> from <= #[trigger] out@[p] < to,
            out@.no_duplicates(),
            nulls_at_end(ks, asc, left@),
            nulls_at_end(ks, asc, right@),
            nulls_at_end(ks, asc, out@),
            forall|p: int, q: int|
                #![trigger out@[p], left@[q]]
                0 <= p < out@.len() && i <= q < left@.len() ==> null_allows(
                    ks,
                    asc,
                    out@[p] as int,
                    left@[q] as int,
                ),
            forall|p: int, q: int|
                #![trigger out@[p], right@[q]]
                0 <= p < out@.len() && j <= q < right@.len() ==> null_allows(
                    ks,
                    asc,
                    out@[p] as int,
                    right@[q] as int,
                ),
            orderable(ks) ==> {
                &&& in_order(ks, asc, left@)
                &&& in_order(ks, asc, right@)
                &&& in_order(ks, asc, out@)
                &&& forall|p: int, q: int|
                    #![trigger out@[p], left@[q]]
                    0 <= p < out@.len() && i <= q < left@.len() ==> shown_above(
                        ks,
                        asc,
                        out@[p] as int,
                        left@[q] as int,
                    )
                &&& forall|p: int, q: int|
                    #![trigger out@[p], right@[q]]
                    0 <= p < out@.len() && j <= q < right@.len() ==> shown_above(
                        ks,
                        asc,
                        out@[p] as int,
                        right@[q] as int,
                    )
            },
        decreases left@.len() - i + right@.len() - j,
    {
        let take_left: bool = if i >= left.len() {
            false
        } else if j >= right.len() {
            true
        } else {
            !sorts_behind(keys, asc, left[i], right[j])
        };
        let ghost before = out@;
        if take_left {
            let x: usize = left[i];
            proof {
                assert forall|q: int| j <= q < right@.len() implies null_allows(
                    ks,
                    asc,
                    x as int,
                    #[trigger] right@[q] as int,
                ) by {
                    assert(null_allows(ks, asc, x as int, right@[j as int] as int));
                    if q != j {
                        assert(null_allows(ks, asc, right@[j as int] as int, right@[q] as int));
                    }
                }
                if orderable(ks) {
                    if j < right@.len() {
                        assert(shown_above(ks, asc, x as int, right@[j as int] as int));
                    }
                    assert forall|q: int| j <= q < right@.len() implies shown_above(
                        ks,
                        asc,
                        x as int,
                        #[trigger] right@[q] as int,
                    ) by {
                        if q != j {
                            lemma_above_chains(
                                ks,
                                asc,
                                x as int,
                                right@[j as int] as int,
                                right@[q] as int,
                            );
                        }
                    }
                }
            }
            out.push(x);
            i = i + 1;
            assert(out@[before.len() as int] == x);
        } else {
            let x: usize = right[j];
            proof {
                assert forall|q: int| i <= q < left@.len() implies null_allows(
                    ks,
                    asc,
                    x as int,
                    #[trigger] left@[q] as int,
                ) by {
                    assert(null_allows(ks, asc, x as int, left@[i as int] as int));
                    if q != i {
                        assert(null_allows(ks, asc, left@[i as int] as int, left@[q] as int));
                    }
                }
                if orderable(ks) {
                    if i < left@.len() {
                        key_rank_flips(ks[left@[i as int] as int], ks[x as int]);
                        assert(shown_above(ks, asc, x as int, left@[i as int] as int));
                    }
                    assert forall|q: int| i <= q < left@.len() implies shown_above(
                        ks,
                        asc,
                        x as int,
                        #[trigger] left@[q] as int,
                    ) by {
                        if q != i {
                            lemma_above_chains(
                                ks,
                                asc,
                                x as int,
                                left@[i as int] as int,
                                left@[q] as int,
                            );
                        }
                    }
                }
            }
            out.push(x);
            j = j + 1;
            assert(out@[before.len() as int] == x);
        }
        proof {
            assert forall|row: usize| before.contains(row) implies out@.contains(row) by {
                let p = choose|p: int| 0 <= p < before.len() && before[p] == row;
                assert(out@[p] == row);
            }
        }
    }
    proof {
        assert forall|row: usize| from <= row < to implies #[trigger] out@.contains(row) by {
            if row < mid {
                assert(left@.contains(row));
                let p = choose|p: int| 0 <= p < left@.len() && left@[p] == row;
                assert(out@.contains(left@[p]));
            } else {
                assert(right@.contains(row));
                let p = choose|p: int| 0 <= p < right@.len() && right@[p] == row;
                assert(out@.contains(right@[p]));
            }
        }
    }
    out
}

/// The rows of `from..to` in order.
fn sort_rows(keys: &Vec<SortKey>, asc: bool, from: usize, to: usize) -> (r: Vec<usize>)
    requires
        from <= to <= keys@.len(),
    ensures
        is_arrangement(r@, from as int, to as int),
        nulls_at_end(keys_view(keys@), asc, r@),
        orderable(keys_view(keys@)) ==> in_order(keys_view(keys@), asc, r@),
    decreases to - from,
{
    if to - from < 2 {
        let mut out: Vec<usize> = Vec::new();
        if from < to {
            out.push(from);
            assert(out@[0] == from);
        }
        return out;
    }
    let mid: usize = from + (to - from) / 2;
    let left: Vec<usize> = sort_rows(keys, asc, from, mid);
    let right: Vec<usize> = sort_rows(keys, asc, mid, to);
    merge_runs(keys, asc, &left, &right, from, mid, to)
}

/// The rows as a grid shows them: in the order of the query without a sort, and with one by the
/// cells of its column, rows that compare the same staying in the order of the query.
///
/// Numbers and texts in one column need not admit an order (the numbers 9 and 10 with the text
/// `1a` do not); the rows are then all there still, in some order, and those that hold nothing at
/// their end.
pub fn compute_order(rs: &ResultSet, sort: SortState) -> (r: Vec<usize>)
    ensures
        is_arrangement(r@, 0, rs.rows@.len() as int),
        sort is None ==> forall|i: int| 0 <= i < r@.len() ==> #[trigger] r@[i] == i,
        sort matches Some((c, asc)) ==> nulls_at_end(column_keys(*rs, c as int), asc, r@),
        sort matches Some((c, asc)) ==> orderable(column_keys(*rs, c as int)) ==> in_order(
            column_keys(*rs, c as int),
            asc,
            r@,
        ),
{
    let n: usize = rs.row_count();
    match sort {
        None => {
            let mut out: Vec<usize> = Vec::new();
            let mut i: usize = 0;
            while i < n
                invariant
                    i <= n,
                    out@.len() == i,
                    forall|p: int| 0 <= p < i ==> #[trigger] out@[p] == p,
                decreases n - i,
            {
                out.push(i);
                i = i + 1;
            }
            proof {
                assert forall|row: usize| 0 <= row < n implies #[trigger] out@.contains(row) by {
                    assert(out@[row as int] == row);
                }
            }
            out
        },
        Some((c, asc)) => {
            let mut keys: Vec<SortKey> = Vec::new();
            let mut i: usize = 0;
            while i < n
                invariant
                    i <= n,
                    n == rs.rows@.len(),
                    keys@.len() == i,
                    forall|p: int|
                        0 <= p < i ==> (#[trigger] keys@[p])@ == row_key(*rs, c as int, p),
                decreases n - i,
            {
                let k: SortKey = match rs.cell(i, c) {
                    Some(cell) => SortKey {
                        null: cell.is_null(),
                        num: cell.cell_num(),
                        text: cell.text.as_str(),
                    },
                    None => SortKey { null: true, num: Number::Absent, text: "" },
                };
                keys.push(k);
                i = i + 1;
            }
            assert(keys_view(keys@) == column_keys(*rs, c as int));
            sort_rows(&keys, asc, 0, n)
        },
    }
}

/// Whether a row has a cell in this column that is not null.
pub open spec fn has_value(rs: ResultSet, col: int, row: int) -> bool {
    &&& 0 <= row < rs.rows@.len()
    &&& 0 <= col < rs.rows@[row]@.len()
    &&& rs.rows@[row]@[col].tag != CellTag::Null
}

/// Whether a row's cell in this column is a number, and where it stands among numbers.
pub open spec fn has_number(rs: ResultSet, col: int, row: int, x: i64) -> bool {
    &&& has_value(rs, col, row)
    &&& ({
        let c = rs.rows@[row]@[col];
        &&& c.tag == CellTag::Int || c.tag == CellTag::UInt || c.tag == CellTag::Float
        &&& c.number == Number::At(x)
    })
}

/// Numbers are shown from the least to the greatest, or from the greatest to the least, whatever
/// their signs; rows of one number stay in the order of the query.
pub proof fn numbers_are_shown_in_their_order(
    rs: ResultSet,
    col: int,
    asc: bool,
    order: Seq<usize>,
    i: int,
    j: int,
    x: i64,
    y: i64,
)
    requires
        in_order(column_keys(rs, col), asc, order),
        0 <= i < j < order.len(),
        has_number(rs, col, order[i] as int, x),
        has_number(rs, col, order[j] as int, y),
    ensures
        asc ==> x <= y,
        !asc ==> x >= y,
        x == y ==> order[i] < order[j],
{
    assert(shown_above(column_keys(rs, col), asc, order[i] as int, order[j] as int));
}

/// A column of numbers is always put in order, whatever rows of it hold nothing.
pub proof fn a_column_of_numbers_is_ordered(rs: ResultSet, col: int)
    requires
        forall|row: int|
            0 <= row < rs.rows@.len() && #[trigger] has_value(rs, col, row) ==> exists|x: i64|
                has_number(rs, col, row, x),
    ensures
        orderable(column_keys(rs, col)),
{
    let keys = column_keys(rs, col);
    assert forall|i: int| 0 <= i < keys.len() && !(#[trigger] keys[i]).null implies keys[i].num is At by {
        assert(has_value(rs, col, i));
    }
    one_kind_is_orderable(keys);
}

/// A column without numbers is always put in order, whatever rows of it hold nothing.
pub proof fn a_column_of_texts_is_ordered(rs: ResultSet, col: int)
    requires
        forall|row: int|
            0 <= row < rs.rows@.len() && #[trigger] has_value(rs, col, row) ==> {
                let t = rs.rows@[row]@[col].tag;
                t != CellTag::Int && t != CellTag::UInt && t != CellTag::Float
            },
    ensures
        orderable(column_keys(rs, col)),
{
    let keys = column_keys(rs, col);
    assert forall|i: int| 0 <= i < keys.len() && !(#[trigger] keys[i]).null implies keys[i].num is Absent by {
        assert(has_value(rs, col, i));
    }
    one_kind_is_orderable(keys);
}

proof fn lemma_first_difference(a: Seq<u8>, b: Seq<u8>, k: int)
    requires
        0 <= k <= a.len(),
        k <= b.len(),
        forall|m: int| 0 <= m < k ==> a[m] == b[m],
    ensures
        k < a.len() && k < b.len() && a[k] != b[k] ==> byte_rank(a, b) == if a[k] < b[k] {
            Rank::Before
        } else {
            Rank::Behind
        },
        k == a.len() && k < b.len() ==> byte_rank(a, b) == Rank::Before,
        k == b.len() && k < a.len() ==> byte_rank(a, b) == Rank::Behind,
        k == a.len() && k == b.len() ==> byte_rank(a, b) == Rank::Same,
    decreases k,
{
    if k > 0 {
        let x = a.drop_first();
        let y = b.drop_first();
        assert(a[0] == b[0]);
        assert forall|m: int| 0 <= m < k - 1 implies x[m] == y[m] by {
            assert(a[m + 1] == b[m + 1]);
        }
        lemma_first_difference(x, y, k - 1);
        if k < a.len() {
            assert(x[k - 1] == a[k]);
        }
        if k < b.len() {
            assert(y[k - 1] == b[k]);
        }
    }
}

/// Whether a row's cell in this column is a text to a sort: it has a value that is not a number.
pub open spec fn has_text_value(rs: ResultSet, col: int, row: int) -> bool {
    &&& has_value(rs, col, row)
    &&& ({
        let t = rs.rows@[row]@[col].tag;
        t != CellTag::Int && t != CellTag::UInt && t != CellTag::Float
    })
}

/// Texts are shown by their first difference, byte by byte, a text before those that go on from it;
/// rows of one text stay in the order of the query. So is a text beside a number.
pub proof fn texts_are_shown_by_their_first_difference(
    rs: ResultSet,
    col: int,
    asc: bool,
    order: Seq<usize>,
    i: int,
    j: int,
    k: int,
)
    requires
        in_order(column_keys(rs, col), asc, order),
        0 <= i < j < order.len(),
        has_value(rs, col, order[i] as int),
        has_value(rs, col, order[j] as int),
        has_text_value(rs, col, order[i] as int) || has_text_value(rs, col, order[j] as int),
        0 <= k <= vstd::utf8::encode_utf8(rs.rows@[order[i] as int]@[col].text@).len(),
        k <= vstd::utf8::encode_utf8(rs.rows@[order[j] as int]@[col].text@).len(),
        forall|m: int|
            0 <= m < k ==> vstd::utf8::encode_utf8(rs.rows@[order[i] as int]@[col].text@)[m]
                == vstd::utf8::encode_utf8(rs.rows@[order[j] as int]@[col].text@)[m],
    ensures
        ({
            let a = vstd::utf8::encode_utf8(rs.rows@[order[i] as int]@[col].text@);
            let b = vstd::utf8::encode_utf8(rs.rows@[order[j] as int]@[col].text@);
            &&& k < a.len() && k < b.len() && a[k] != b[k] ==> (asc <==> a[k] < b[k])
            &&& k == a.len() && k < b.len() ==> asc
            &&& k == b.len() && k < a.len() ==> !asc
            &&& k == a.len() && k == b.len() ==> order[i] < order[j]
        }),
{
    let a = vstd::utf8::encode_utf8(rs.rows@[order[i] as int]@[col].text@);
    let b = vstd::utf8::encode_utf8(rs.rows@[order[j] as int]@[col].text@);
    lemma_first_difference(a, b, k);
    assert(shown_above(column_keys(rs, col), asc, order[i] as int, order[j] as int));
}

/// Rows that hold nothing in the column come last, in the order of the query where the rest is in
/// order too; in a descending sort they come first.
pub proof fn nothing_is_shown_last(
    rs: ResultSet,
    col: int,
    asc: bool,
    order: Seq<usize>,
    i: int,
    j: int,
)
    requires
        nulls_at_end(column_keys(rs, col), asc, order),
        0 <= i < j < order.len(),
        order[i] < rs.rows@.len(),
        order[j] < rs.rows@.len(),
    ensures
        asc && !has_value(rs, col, order[i] as int) ==> !has_value(rs, col, order[j] as int),
        !asc && !has_value(rs, col, order[j] as int) ==> !has_value(rs, col, order[i] as int),
        in_order(column_keys(rs, col), asc, order) && !has_value(rs, col, order[i] as int)
            && !has_value(rs, col, order[j] as int) ==> order[i] < order[j],
{
    assert(null_allows(column_keys(rs, col), asc, order[i] as int, order[j] as int));
}

/// A click on another column starts it ascending, whatever was sorted before; one on the column that
/// is sorted goes on to descending, and from there to none.
pub proof fn a_click_starts_ascending(s: SortState, ci: usize)
    ensures
        (s matches Some((c, asc)) ==> c != ci) ==> next_sort(s, ci) == Some((ci, true)),
        s == Some((ci, true)) ==> next_sort(s, ci) == Some((ci, false)),
        s == Some((ci, false)) ==> next_sort(s, ci) is None,
{
}

/// An order shows every row, and every row once.
pub proof fn every_row_is_shown_once(order: Seq<usize>, n: int, row: usize, i: int, j: int)
    requires
        is_arrangement(order, 0, n),
        row < n,
    ensures
        order.len() == n,
        exists|k: int| 0 <= k < order.len() && #[trigger] order[k] == row,
        0 <= i < order.len() && 0 <= j < order.len() && order[i] == order[j] ==> i == j,
        0 <= i < order.len() ==> order[i] < n,
{
    assert(order.contains(row));
}

} // verus!
