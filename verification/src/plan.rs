//! The statements that write staged changes back, in an order that is the same every time.

use vstd::prelude::*;
use crate::keymap::{ascending, has_key, word, At, Key, KeyMap};
use crate::model::{origin_column, origin_name, EditModel, EditTable, ResultSet};
use crate::staged::{original, original_of, Staged};

verus! {

/// A column that a statement sets, by its place in the result and by its own name.
pub struct SetCell {
    pub ci: usize,
    pub column: String,
    pub value: Option<String>,
}

/// A column that tells a row apart, and what it holds there.
pub struct KeyCell {
    pub column: String,
    pub value: Option<String>,
}

/// The update of one row of one base table.
pub struct RowEdit {
    pub table_idx: usize,
    pub row: usize,
    pub database: String,
    pub schema: Option<String>,
    pub table: String,
    pub set: Vec<SetCell>,
    pub key: Vec<KeyCell>,
}

/// A row to insert.
pub struct RowInsert {
    pub database: String,
    pub schema: Option<String>,
    pub table: String,
    pub cols: Vec<SetCell>,
}

/// A row to delete.
pub struct RowDelete {
    pub row: usize,
    pub database: String,
    pub schema: Option<String>,
    pub table: String,
    pub key: Vec<KeyCell>,
}

/// A row to read again, by the key it has after the write.
pub struct RefetchRow {
    pub row: usize,
    pub key: Vec<KeyCell>,
}

/// Everything one commit writes.
pub struct GridWrite {
    pub updates: Vec<RowEdit>,
    pub inserts: Vec<RowInsert>,
    pub deletes: Vec<RowDelete>,
}

/// A copy of a value.
pub fn copy_value(v: &Option<String>) -> (r: Option<String>)
    ensures
        r == *v,
{
    match v {
        Some(s) => Some(s.clone()),
        None => None,
    }
}

/// Whether these are the columns that tell a row of a table apart, with what the row held before
/// any edit.
pub open spec fn key_matches(rs: ResultSet, t: EditTable, row: usize, key: Seq<KeyCell>) -> bool {
    &&& key.len() == t.key_cols@.len()
    &&& forall|i: int|
        0 <= i < key.len() ==> (#[trigger] key[i]).column@ == origin_name(
            rs,
            t.key_cols@[i] as int,
        ) && key[i].value == original(rs, At { row, col: t.key_cols@[i] })
}

/// The columns that tell a row of a table apart, with what the row held before any edit.
pub fn row_key(rs: &ResultSet, t: &EditTable, row: usize) -> (r: Vec<KeyCell>)
    ensures
        key_matches(*rs, *t, row, r@),
{
    let mut out: Vec<KeyCell> = Vec::new();
    let mut i: usize = 0;
    while i < t.key_cols.len()
        invariant
            i <= t.key_cols@.len(),
            out@.len() == i,
            forall|k: int|
                0 <= k < i ==> (#[trigger] out@[k]).column@ == origin_name(
                    *rs,
                    t.key_cols@[k] as int,
                ) && out@[k].value == original(*rs, At { row, col: t.key_cols@[k] }),
        decreases t.key_cols@.len() - i,
    {
        let ci: usize = t.key_cols[i];
        out.push(
            KeyCell {
                column: origin_column(rs, ci),
                value: original_of(rs, At { row, col: ci }),
            },
        );
        i = i + 1;
    }
    out
}

/// Whether a row has an edit that is written to this table.
pub open spec fn row_is_edited(
    model: EditModel,
    dirty: Map<At, Option<String>>,
    ti: usize,
    row: usize,
) -> bool {
    exists|at: At| edit_goes_to(model, dirty, ti, row, at)
}

/// Whether the edit at this place is one of this row and is written to this table.
pub open spec fn edit_goes_to(
    model: EditModel,
    dirty: Map<At, Option<String>>,
    ti: usize,
    row: usize,
    at: At,
) -> bool {
    dirty.dom().contains(at) && at.row == row && model.table_at(at.col as int) == Some(ti)
}

/// Whether these are the columns that an update of this row of this table sets: the row's edits
/// that go to the table, in the order of the columns.
pub open spec fn set_matches(
    rs: ResultSet,
    model: EditModel,
    dirty: Map<At, Option<String>>,
    ti: usize,
    row: usize,
    set: Seq<SetCell>,
) -> bool {
    &&& forall|i: int, j: int|
        #![trigger set[i], set[j]]
        0 <= i < j < set.len() ==> set[i].ci < set[j].ci
    &&& forall|i: int|
        0 <= i < set.len() ==> edit_goes_to(
            model,
            dirty,
            ti,
            row,
            At { row, col: (#[trigger] set[i]).ci },
        ) && set[i].column@ == origin_name(rs, set[i].ci as int) && set[i].value == dirty[At {
            row,
            col: set[i].ci,
        }]
    &&& forall|at: At| #[trigger]
        edit_goes_to(model, dirty, ti, row, at) ==> exists|i: int|
            0 <= i < set.len() && (#[trigger] set[i]).ci == at.col
}

/// Whether this is the update of a row: it sets the row's edits and finds the row by what it held
/// before them.
pub open spec fn edit_matches(
    rs: ResultSet,
    model: EditModel,
    dirty: Map<At, Option<String>>,
    e: RowEdit,
) -> bool {
    &&& e.table_idx < model.tables@.len()
    &&& e.database == model.tables@[e.table_idx as int].database
    &&& e.schema == model.tables@[e.table_idx as int].schema
    &&& e.table == model.tables@[e.table_idx as int].table
    &&& e.set@.len() > 0
    &&& set_matches(rs, model, dirty, e.table_idx, e.row, e.set@)
    &&& key_matches(rs, model.tables@[e.table_idx as int], e.row, e.key@)
}

/// Whether one update comes before another: by table, then by row.
pub open spec fn edit_before(a: RowEdit, b: RowEdit) -> bool {
    a.table_idx < b.table_idx || (a.table_idx == b.table_idx && a.row < b.row)
}

/// Whether these are the updates of the staged edits: one for each row and table that has any, by
/// table and then by row.
pub open spec fn edits_match(
    rs: ResultSet,
    model: EditModel,
    dirty: Map<At, Option<String>>,
    edits: Seq<RowEdit>,
) -> bool {
    &&& forall|i: int, j: int|
        #![trigger edits[i], edits[j]]
        0 <= i < j < edits.len() ==> edit_before(edits[i], edits[j])
    &&& forall|i: int| 0 <= i < edits.len() ==> edit_matches(rs, model, dirty, #[trigger] edits[i])
    &&& forall|ti: usize, row: usize|
        ti < model.tables@.len() && #[trigger] row_is_edited(model, dirty, ti, row)
            ==> edit_is_there(edits, ti, row)
}

/// Whether a row of a table has its update.
pub open spec fn edit_is_there(edits: Seq<RowEdit>, ti: usize, row: usize) -> bool {
    exists|i: int|
        0 <= i < edits.len() && (#[trigger] edits[i]).table_idx == ti && edits[i].row == row
}

/// A list of changes with one more: it stands behind every change of its own column and of those
/// before it.
pub open spec fn placed(s: Seq<FieldValue>, x: FieldValue) -> Seq<FieldValue>
    decreases s.len(),
{
    if s.len() == 0 || s.last().ci <= x.ci {
        s.push(x)
    } else {
        placed(s.drop_last(), x).push(s.last())
    }
}

/// A list of changes in the order of the columns; those of one column stay in the order they were
/// made.
pub open spec fn by_column(s: Seq<FieldValue>) -> Seq<FieldValue>
    decreases s.len(),
{
    if s.len() == 0 {
        s
    } else {
        placed(by_column(s.drop_last()), s.last())
    }
}

/// Whether the columns of a list of changes ascend.
pub open spec fn columns_ascend(s: Seq<FieldValue>) -> bool {
    forall|i: int, j: int| #![trigger s[i], s[j]] 0 <= i < j < s.len() ==> s[i].ci <= s[j].ci
}

proof fn lemma_placed(s: Seq<FieldValue>, x: FieldValue)
    requires
        columns_ascend(s),
    ensures
        columns_ascend(placed(s, x)),
        placed(s, x).len() == s.len() + 1,
        forall|i: int|
            0 <= i < placed(s, x).len() ==> (#[trigger] placed(s, x)[i]).ci <= x.ci || (s.len() > 0
                && placed(s, x)[i].ci <= s.last().ci),
    decreases s.len(),
{
    if s.len() > 0 {
        if s.last().ci <= x.ci {
            assert forall|i: int| 0 <= i < s.len() implies (#[trigger] s[i]).ci <= x.ci by {
                if i < s.len() - 1 {
                    assert(s[i].ci <= s[s.len() - 1].ci);
                }
            }
        } else {
            let front = s.drop_last();
            assert(columns_ascend(front)) by {
                assert forall|i: int, j: int|
                    #![trigger front[i], front[j]]
                    0 <= i < j < front.len() implies front[i].ci <= front[j].ci by {
                    assert(s[i].ci <= s[j].ci);
                }
            }
            lemma_placed(front, x);
            if front.len() > 0 {
                assert(s[front.len() - 1].ci <= s[s.len() - 1].ci);
            }
        }
    }
}

proof fn lemma_placed_changes(s: Seq<FieldValue>, x: FieldValue, ci: int)
    requires
        columns_ascend(s),
    ensures
        changes_of(placed(s, x), ci) == changes_of(s.push(x), ci),
    decreases s.len(),
{
    assert(s.push(x).drop_last() =~= s);
    if s.len() > 0 && s.last().ci > x.ci {
        let front = s.drop_last();
        assert(columns_ascend(front)) by {
            assert forall|i: int, j: int|
                #![trigger front[i], front[j]]
                0 <= i < j < front.len() implies front[i].ci <= front[j].ci by {
                assert(s[i].ci <= s[j].ci);
            }
        }
        lemma_placed_changes(front, x, ci);
        assert(front.push(x).drop_last() =~= front);
        assert(placed(s, x).drop_last() =~= placed(front, x));
        assert(placed(s, x).last() == s.last());
        assert(front.push(x).last() == x && s.push(x).last() == x);
        assert(changes_of(front.push(x), ci) == if x.ci == ci {
            changes_of(front, ci).push(x)
        } else {
            changes_of(front, ci)
        });
        assert(changes_of(s, ci) == if s.last().ci == ci {
            changes_of(front, ci).push(s.last())
        } else {
            changes_of(front, ci)
        });
    }
}

/// The order of the columns holds what was made, each change once: the columns ascend, and those of
/// one column are the same, in the order they were made.
pub proof fn the_order_of_columns_is_stable(s: Seq<FieldValue>, ci: int)
    ensures
        by_column(s).len() == s.len(),
        columns_ascend(by_column(s)),
        changes_of(by_column(s), ci) == changes_of(s, ci),
    decreases s.len(),
{
    if s.len() > 0 {
        let front = s.drop_last();
        the_order_of_columns_is_stable(front, ci);
        lemma_placed(by_column(front), s.last());
        lemma_placed_changes(by_column(front), s.last(), ci);
        assert(by_column(front).push(s.last()).drop_last() =~= by_column(front));
        assert(front.push(s.last()) =~= s);
    }
}

/// Changes whose columns ascend are in order already.
proof fn lemma_in_order(s: Seq<FieldValue>)
    requires
        columns_ascend(s),
    ensures
        by_column(s) == s,
    decreases s.len(),
{
    if s.len() > 0 {
        let front = s.drop_last();
        assert(columns_ascend(front)) by {
            assert forall|i: int, j: int|
                #![trigger front[i], front[j]]
                0 <= i < j < front.len() implies front[i].ci <= front[j].ci by {
                assert(s[i].ci <= s[j].ci);
            }
        }
        lemma_in_order(front);
        if front.len() > 0 {
            assert(s[front.len() - 1].ci <= s[s.len() - 1].ci);
        }
        assert(front.push(s.last()) =~= s);
    }
}

proof fn lemma_placed_at(s: Seq<FieldValue>, x: FieldValue, at: int)
    requires
        0 <= at <= s.len(),
        at == 0 || s[at - 1].ci <= x.ci,
        forall|i: int| at <= i < s.len() ==> (#[trigger] s[i]).ci > x.ci,
    ensures
        placed(s, x) == s.insert(at, x),
    decreases s.len(),
{
    if at == s.len() {
        assert(s.insert(at, x) =~= s.push(x));
    } else {
        let front = s.drop_last();
        assert forall|i: int| at <= i < front.len() implies (#[trigger] front[i]).ci > x.ci by {
            assert(s[i].ci > x.ci);
        }
        lemma_placed_at(front, x, at);
        assert(front.insert(at, x).push(s.last()) =~= s.insert(at, x));
    }
}

/// A list of changes in the order of the columns.
fn order_by_column(changes: Vec<FieldValue>) -> (r: Vec<FieldValue>)
    ensures
        r@ == by_column(changes@),
{
    let mut out: Vec<FieldValue> = Vec::new();
    let mut k: usize = 0;
    assert(by_column(changes@.take(0)) =~= Seq::<FieldValue>::empty());
    while k < changes.len()
        invariant
            k <= changes@.len(),
            out@.len() == k,
            out@ == by_column(changes@.take(k as int)),
        decreases changes@.len() - k,
    {
        let ci: usize = changes[k].ci;
        let mut at: usize = out.len();
        while at > 0 && out[at - 1].ci > ci
            invariant
                at <= out@.len(),
                forall|i: int| at <= i < out@.len() ==> (#[trigger] out@[i]).ci > ci,
            decreases at,
        {
            at = at - 1;
        }
        let x: FieldValue = FieldValue { ci, value: copy_value(&changes[k].value) };
        proof {
            lemma_placed_at(out@, x, at as int);
            assert(changes@.take(k + 1).drop_last() =~= changes@.take(k as int));
            assert(changes@.take(k + 1).last() == x);
        }
        out.insert(at, x);
        k = k + 1;
    }
    assert(changes@.take(changes@.len() as int) =~= changes@);
    out
}

/// Changes under their columns' own names.
fn named_sets(rs: &ResultSet, changes: &Vec<FieldValue>) -> (r: Vec<SetCell>)
    ensures
        sets_changes(*rs, r@, changes@),
{
    let mut out: Vec<SetCell> = Vec::new();
    let mut k: usize = 0;
    while k < changes.len()
        invariant
            k <= changes@.len(),
            out@.len() == k,
            forall|i: int|
                0 <= i < k ==> (#[trigger] out@[i]).ci == changes@[i].ci && out@[i].column@
                    == origin_name(*rs, out@[i].ci as int) && out@[i].value == changes@[i].value,
        decreases changes@.len() - k,
    {
        let c: &FieldValue = &changes[k];
        out.push(
            SetCell { ci: c.ci, column: origin_column(rs, c.ci), value: copy_value(&c.value) },
        );
        k = k + 1;
    }
    out
}

/// The update of a row of a table that makes these changes, in the order of the columns; none for a
/// table that is not there.
pub fn row_edit_for(
    model: &EditModel,
    rs: &ResultSet,
    ti: usize,
    row: usize,
    changes: Vec<FieldValue>,
) -> (r: Option<RowEdit>)
    ensures
        r is Some <==> ti < model.tables@.len(),
        r matches Some(e) ==> {
            &&& e.table_idx == ti
            &&& e.row == row
            &&& e.database == model.tables@[ti as int].database
            &&& e.schema == model.tables@[ti as int].schema
            &&& e.table == model.tables@[ti as int].table
            &&& sets_changes(*rs, e.set@, by_column(changes@))
            &&& key_matches(*rs, model.tables@[ti as int], row, e.key@)
        },
{
    match model.table(ti) {
        None => None,
        Some(t) => Some(
            RowEdit {
                table_idx: ti,
                row,
                database: t.database.clone(),
                schema: copy_value(&t.schema),
                table: t.table.clone(),
                set: named_sets(rs, &order_by_column(changes)),
                key: row_key(rs, t, row),
            },
        ),
    }
}

proof fn lemma_same_row(a: At, b: At)
    requires
        a.place() < b.place(),
    ensures
        a.row <= b.row,
        a.row == b.row ==> a.col < b.col,
{
    assert(usize::MAX < word());
    assert(a.row > b.row ==> a.row * word() + a.col > b.row * word() + b.col);
}

/// Whether these are the changes that an update of this row of this table makes: the row's edits
/// that go to the table, in the order of the columns.
spec fn picks_match(
    model: EditModel,
    dirty: Map<At, Option<String>>,
    ti: usize,
    row: usize,
    picks: Seq<FieldValue>,
) -> bool {
    &&& forall|i: int, j: int|
        #![trigger picks[i], picks[j]]
        0 <= i < j < picks.len() ==> picks[i].ci < picks[j].ci
    &&& forall|i: int|
        0 <= i < picks.len() ==> edit_goes_to(
            model,
            dirty,
            ti,
            row,
            At { row, col: (#[trigger] picks[i]).ci },
        ) && picks[i].value == dirty[At { row, col: picks[i].ci }]
    &&& forall|at: At| #[trigger]
        edit_goes_to(model, dirty, ti, row, at) ==> exists|i: int|
            0 <= i < picks.len() && (#[trigger] picks[i]).ci == at.col
}

proof fn lemma_picks_are_set(
    rs: ResultSet,
    model: EditModel,
    dirty: Map<At, Option<String>>,
    ti: usize,
    row: usize,
    picks: Seq<FieldValue>,
    set: Seq<SetCell>,
)
    requires
        picks_match(model, dirty, ti, row, picks),
        sets_changes(rs, set, by_column(picks)),
    ensures
        set.len() == picks.len(),
        set_matches(rs, model, dirty, ti, row, set),
{
    lemma_in_order(picks);
    assert forall|i: int, j: int|
        #![trigger set[i], set[j]]
        0 <= i < j < set.len() implies set[i].ci < set[j].ci by {
        assert(picks[i].ci < picks[j].ci);
    }
    assert forall|at: At| #[trigger] edit_goes_to(model, dirty, ti, row, at) implies exists|i: int|
        0 <= i < set.len() && (#[trigger] set[i]).ci == at.col by {
        let i = choose|i: int| 0 <= i < picks.len() && (#[trigger] picks[i]).ci == at.col;
        assert(set[i].ci == at.col);
    }
}

/// The row's edits that go to a table, and where the next row's edits begin.
fn row_picks(
    model: &EditModel,
    dirty: &KeyMap<At, Option<String>>,
    ti: usize,
    from: usize,
) -> (r: (Vec<FieldValue>, usize))
    requires
        from < dirty.entries().len(),
        forall|q: int|
            0 <= q < from ==> (#[trigger] dirty.entries()[q]).0.row < dirty.entries()[from as int].0.row,
    ensures
        picks_match(*model, dirty@, ti, dirty.entries()[from as int].0.row, r.0@),
        from < r.1 <= dirty.entries().len(),
        forall|q: int|
            from <= q < r.1 ==> (#[trigger] dirty.entries()[q]).0.row
                == dirty.entries()[from as int].0.row,
        forall|q: int|
            r.1 <= q < dirty.entries().len() ==> (#[trigger] dirty.entries()[q]).0.row
                > dirty.entries()[from as int].0.row,
{
    let n: usize = dirty.len();
    let row: usize = dirty.entry(from).0.row;
    let ghost es = dirty.entries();
    let mut set: Vec<FieldValue> = Vec::new();
    let mut q: usize = from;
    // Which entry each set column came from, and which set column each entry became.
    let ghost mut src: Seq<int> = Seq::empty();
    let ghost mut dst: Seq<int> = Seq::empty();
    while q < n && dirty.entry(q).0.row == row
        invariant
            es == dirty.entries(),
            n == es.len(),
            ascending(es),
            from <= q <= n,
            from < n,
            row == es[from as int].0.row,
            forall|p: int| from <= p < q ==> (#[trigger] es[p]).0.row == row,
            forall|i: int, j: int|
                #![trigger set@[i], set@[j]]
                0 <= i < j < set@.len() ==> set@[i].ci < set@[j].ci,
            forall|i: int|
                0 <= i < set@.len() ==> edit_goes_to(
                    *model,
                    dirty@,
                    ti,
                    row,
                    At { row, col: (#[trigger] set@[i]).ci },
                ) && set@[i].value == dirty@[At { row, col: set@[i].ci }],
            src.len() == set@.len(),
            forall|i: int|
                0 <= i < src.len() ==> from <= #[trigger] src[i] < q && es[src[i]].0.col
                    == set@[i].ci,
            dst.len() == q - from,
            forall|p: int|
                0 <= p < dst.len() && model.table_at(es[p + from].0.col as int) == Some(ti) ==> 0
                    <= #[trigger] dst[p] < set@.len() && set@[dst[p]].ci == es[p + from].0.col,
        decreases n - q,
    {
        let ghost before = set@;
        let e: &(At, Option<String>) = dirty.entry(q);
        let at: At = e.0;
        proof {
            assert forall|i: int| 0 <= i < before.len() implies (#[trigger] before[i]).ci < at.col by {
                lemma_same_row(es[src[i]].0, es[q as int].0);
            }
            dst = dst.push(set@.len() as int);
        }
        if model.table_index(at.col) == Some(ti) {
            set.push(FieldValue { ci: at.col, value: copy_value(&e.1) });
            proof {
                src = src.push(q as int);
                assert(At { row, col: at.col } == at);
            }
        }
        q = q + 1;
    }
    proof {
        assert forall|p: int| q <= p < n implies (#[trigger] es[p]).0.row > row by {
            lemma_same_row(es[from as int].0, es[p].0);
            lemma_same_row(es[from as int].0, es[q as int].0);
            if p > q {
                lemma_same_row(es[q as int].0, es[p].0);
            }
        }
        assert forall|at: At| #[trigger] edit_goes_to(*model, dirty@, ti, row, at) implies exists|
            i: int,
        |
            0 <= i < set@.len() && (#[trigger] set@[i]).ci == at.col by {
            assert(has_key(es, at));
            let p = choose|p: int| 0 <= p < es.len() && (#[trigger] es[p]).0 == at;
            assert(from <= p < q);
            assert(set@[dst[p - from]].ci == at.col);
        }
    }
    (set, q)
}

/// The updates of the staged edits: one for each row and table, by table and then by row, each
/// with its columns in order.
pub fn build_edits(rs: &ResultSet, model: &EditModel, staged: &Staged) -> (r: Vec<RowEdit>)
    ensures
        edits_match(*rs, *model, staged@.dirty, r@),
{
    let dirty: &KeyMap<At, Option<String>> = &staged.dirty;
    let ghost es = dirty.entries();
    let n: usize = dirty.len();
    let mut out: Vec<RowEdit> = Vec::new();
    let mut ti: usize = 0;
    while ti < model.tables.len()
        invariant
            dirty == staged.dirty,
            es == dirty.entries(),
            n == es.len(),
            ascending(es),
            ti <= model.tables@.len(),
            forall|i: int, j: int|
                #![trigger out@[i], out@[j]]
                0 <= i < j < out@.len() ==> edit_before(out@[i], out@[j]),
            forall|i: int|
                0 <= i < out@.len() ==> edit_matches(*rs, *model, dirty@, #[trigger] out@[i]),
            forall|i: int| 0 <= i < out@.len() ==> (#[trigger] out@[i]).table_idx < ti,
            forall|t: usize, row: usize|
                t < ti && #[trigger] row_is_edited(*model, dirty@, t, row) ==> edit_is_there(
                    out@,
                    t,
                    row,
                ),
        decreases model.tables@.len() - ti,
    {
        let mut p: usize = 0;
        while p < n
            invariant
                dirty == staged.dirty,
                es == dirty.entries(),
                n == es.len(),
                ascending(es),
                ti < model.tables@.len(),
                p <= n,
                forall|q: int, s: int|
                    #![trigger es[q], es[s]]
                    0 <= q < p <= s < n ==> es[q].0.row < es[s].0.row,
                forall|i: int, j: int|
                    #![trigger out@[i], out@[j]]
                    0 <= i < j < out@.len() ==> edit_before(out@[i], out@[j]),
                forall|i: int|
                    0 <= i < out@.len() ==> edit_matches(*rs, *model, dirty@, #[trigger] out@[i]),
                forall|i: int|
                    0 <= i < out@.len() ==> (#[trigger] out@[i]).table_idx < ti || (
                    out@[i].table_idx == ti && exists|q: int|
                        0 <= q < p && (#[trigger] es[q]).0.row == out@[i].row),
                forall|t: usize, row: usize|
                    t < ti && #[trigger] row_is_edited(*model, dirty@, t, row) ==> edit_is_there(
                        out@,
                        t,
                        row,
                    ),
                forall|q: int|
                    0 <= q < p && model.table_at((#[trigger] es[q]).0.col as int) == Some(ti)
                        ==> edit_is_there(out@, ti, es[q].0.row),
            decreases n - p,
        {
            let row: usize = dirty.entry(p).0.row;
            let (set, next): (Vec<FieldValue>, usize) = row_picks(model, dirty, ti, p);
            let ghost before = out@;
            let ghost sets = set@;
            if set.len() > 0 {
                if let Some(e) = row_edit_for(model, rs, ti, row, set) {
                    proof {
                        lemma_picks_are_set(*rs, *model, dirty@, ti, row, sets, e.set@);
                        assert forall|i: int| 0 <= i < before.len() implies edit_before(
                            #[trigger] before[i],
                            e,
                        ) by {
                            if before[i].table_idx == ti {
                                let q = choose|q: int|
                                    0 <= q < p && (#[trigger] es[q]).0.row == before[i].row;
                                assert(es[q].0.row < es[p as int].0.row);
                            }
                        }
                    }
                    out.push(e);
                    assert(out@[before.len() as int] == e);
                }
            }
            proof {
                assert forall|t: usize, r: usize| edit_is_there(before, t, r) implies edit_is_there(
                    out@,
                    t,
                    r,
                ) by {
                    let i = choose|i: int|
                        0 <= i < before.len() && (#[trigger] before[i]).table_idx == t
                            && before[i].row == r;
                    assert(out@[i].table_idx == t);
                }
                assert forall|q: int|
                    0 <= q < next && model.table_at((#[trigger] es[q]).0.col as int) == Some(
                        ti,
                    ) implies edit_is_there(out@, ti, es[q].0.row) by {
                    if q >= p {
                        let at = es[q].0;
                        assert(has_key(es, at));
                        assert(edit_goes_to(*model, dirty@, ti, row, at));
                        assert(sets.len() > 0);
                        assert(out@[before.len() as int].row == row);
                    }
                }
                assert forall|i: int| 0 <= i < out@.len() implies (#[trigger] out@[i]).table_idx < ti
                    || (out@[i].table_idx == ti && exists|q: int|
                    0 <= q < next && (#[trigger] es[q]).0.row == out@[i].row) by {
                    if i < before.len() {
                        if before[i].table_idx == ti {
                            let q = choose|q: int|
                                0 <= q < p && (#[trigger] es[q]).0.row == before[i].row;
                            assert(es[q].0.row == out@[i].row);
                        }
                    } else {
                        assert(es[p as int].0.row == out@[i].row);
                    }
                }
                assert forall|q: int, s: int|
                    #![trigger es[q], es[s]]
                    0 <= q < next <= s < n implies es[q].0.row < es[s].0.row by {
                    assert(es[s].0.row > es[p as int].0.row);
                    if q < p {
                        assert(es[q].0.row < es[p as int].0.row);
                    }
                }
            }
            p = next;
        }
        proof {
            assert forall|t: usize, row: usize|
                t < ti + 1 && #[trigger] row_is_edited(*model, dirty@, t, row) implies edit_is_there(
                out@,
                t,
                row,
            ) by {
                if t == ti {
                    let at = choose|at: At| edit_goes_to(*model, dirty@, t, row, at);
                    assert(has_key(es, at));
                    let q = choose|q: int| 0 <= q < es.len() && (#[trigger] es[q]).0 == at;
                    assert(edit_is_there(out@, ti, es[q].0.row));
                }
            }
        }
        ti = ti + 1;
    }
    out
}

/// A column of one row, and the value it is to hold.
pub struct FieldValue {
    pub ci: usize,
    pub value: Option<String>,
}

/// The changes of one column, in the order they were made.
pub open spec fn changes_of(changes: Seq<FieldValue>, ci: int) -> Seq<FieldValue>
    decreases changes.len(),
{
    if changes.len() == 0 {
        changes
    } else if changes.last().ci == ci {
        changes_of(changes.drop_last(), ci).push(changes.last())
    } else {
        changes_of(changes.drop_last(), ci)
    }
}

/// The changes that go to a table, in the order of the columns before `ncols`.
pub open spec fn changes_to(
    model: EditModel,
    ti: usize,
    changes: Seq<FieldValue>,
    ncols: int,
) -> Seq<FieldValue>
    decreases ncols,
{
    if ncols <= 0 {
        Seq::empty()
    } else if model.table_at(ncols - 1) == Some(ti) {
        changes_to(model, ti, changes, ncols - 1) + changes_of(changes, ncols - 1)
    } else {
        changes_to(model, ti, changes, ncols - 1)
    }
}

/// Whether these columns are set to these values, under their own names.
pub open spec fn sets_changes(rs: ResultSet, set: Seq<SetCell>, changes: Seq<FieldValue>) -> bool {
    &&& set.len() == changes.len()
    &&& forall|i: int|
        0 <= i < set.len() ==> (#[trigger] set[i]).ci == changes[i].ci && set[i].column@
            == origin_name(rs, set[i].ci as int) && set[i].value == changes[i].value
}

proof fn lemma_changes_of(changes: Seq<FieldValue>, ci: int)
    ensures
        forall|i: int|
            0 <= i < changes_of(changes, ci).len() ==> (#[trigger] changes_of(changes, ci)[i]).ci == ci,
    decreases changes.len(),
{
    if changes.len() > 0 {
        lemma_changes_of(changes.drop_last(), ci);
    }
}

proof fn lemma_changes_ascend(model: EditModel, ti: usize, changes: Seq<FieldValue>, ncols: int)
    ensures
        columns_ascend(changes_to(model, ti, changes, ncols)),
        forall|i: int|
            0 <= i < changes_to(model, ti, changes, ncols).len() ==> (#[trigger] changes_to(
                model,
                ti,
                changes,
                ncols,
            )[i]).ci < ncols,
    decreases ncols,
{
    if ncols > 0 {
        lemma_changes_ascend(model, ti, changes, ncols - 1);
        lemma_changes_of(changes, ncols - 1);
        let front = changes_to(model, ti, changes, ncols - 1);
        let own = changes_of(changes, ncols - 1);
        let all = changes_to(model, ti, changes, ncols);
        if model.table_at(ncols - 1) == Some(ti) {
            assert forall|i: int, j: int|
                #![trigger all[i], all[j]]
                0 <= i < j < all.len() implies all[i].ci <= all[j].ci by {
                if j < front.len() {
                    assert(front[i].ci <= front[j].ci);
                } else {
                    assert(all[j] == own[j - front.len()]);
                    if i < front.len() {
                        assert(all[i] == front[i]);
                    } else {
                        assert(all[i] == own[i - front.len()]);
                    }
                }
            }
            assert forall|i: int| 0 <= i < all.len() implies (#[trigger] all[i]).ci < ncols by {
                if i < front.len() {
                    assert(all[i] == front[i]);
                } else {
                    assert(all[i] == own[i - front.len()]);
                }
            }
        }
    }
}

/// The changes that go to a table, in the order of the columns.
fn table_changes(model: &EditModel, ti: usize, changes: &Vec<FieldValue>) -> (r: Vec<FieldValue>)
    ensures
        r@ == changes_to(*model, ti, changes@, model.table_of@.len() as int),
{
    let mut set: Vec<FieldValue> = Vec::new();
    let mut ci: usize = 0;
    while ci < model.table_of.len()
        invariant
            ci <= model.table_of@.len(),
            set@ == changes_to(*model, ti, changes@, ci as int),
        decreases model.table_of@.len() - ci,
    {
        if model.table_index(ci) == Some(ti) {
            let mut k: usize = 0;
            let ghost front = changes_to(*model, ti, changes@, ci as int);
            assert(changes_of(changes@.take(0), ci as int) =~= Seq::<FieldValue>::empty());
            assert(front + Seq::<FieldValue>::empty() =~= front);
            while k < changes.len()
                invariant
                    k <= changes@.len(),
                    set@ == front + changes_of(changes@.take(k as int), ci as int),
                decreases changes@.len() - k,
            {
                let c: &FieldValue = &changes[k];
                let ghost had = changes_of(changes@.take(k as int), ci as int);
                proof {
                    assert(changes@.take(k + 1).drop_last() =~= changes@.take(k as int));
                    assert(changes@.take(k + 1).last() == *c);
                }
                if c.ci == ci {
                    set.push(FieldValue { ci, value: copy_value(&c.value) });
                    assert(set@ =~= front + had.push(*c));
                }
                k = k + 1;
            }
            assert(changes@.take(changes@.len() as int) =~= changes@);
        }
        ci = ci + 1;
    }
    set
}

/// Whether these are the updates of one row for a list of changes: one for each table that has
/// any, by table, each with its columns in order.
pub open spec fn row_edits_match(
    rs: ResultSet,
    model: EditModel,
    row: usize,
    changes: Seq<FieldValue>,
    edits: Seq<RowEdit>,
) -> bool {
    let ncols = model.table_of@.len() as int;
    &&& forall|i: int, j: int|
        #![trigger edits[i], edits[j]]
        0 <= i < j < edits.len() ==> edits[i].table_idx < edits[j].table_idx
    &&& forall|i: int|
        0 <= i < edits.len() ==> {
            let e = #[trigger] edits[i];
            &&& e.row == row
            &&& e.table_idx < model.tables@.len()
            &&& e.database == model.tables@[e.table_idx as int].database
            &&& e.schema == model.tables@[e.table_idx as int].schema
            &&& e.table == model.tables@[e.table_idx as int].table
            &&& e.set@.len() > 0
            &&& sets_changes(rs, e.set@, changes_to(model, e.table_idx, changes, ncols))
            &&& key_matches(rs, model.tables@[e.table_idx as int], row, e.key@)
        }
    &&& forall|ti: usize|
        ti < model.tables@.len() && (#[trigger] changes_to(model, ti, changes, ncols)).len() > 0
            ==> edit_is_there(edits, ti, row)
}

/// The updates of one row for a list of changes, which is written by itself.
pub fn build_row_edits(
    rs: &ResultSet,
    model: &EditModel,
    row: usize,
    changes: &Vec<FieldValue>,
) -> (r: Vec<RowEdit>)
    ensures
        row_edits_match(*rs, *model, row, changes@, r@),
{
    let mut out: Vec<RowEdit> = Vec::new();
    let mut ti: usize = 0;
    let ghost ncols = model.table_of@.len() as int;
    while ti < model.tables.len()
        invariant
            ncols == model.table_of@.len() as int,
            ti <= model.tables@.len(),
            forall|i: int| 0 <= i < out@.len() ==> (#[trigger] out@[i]).table_idx < ti,
            forall|i: int, j: int|
                #![trigger out@[i], out@[j]]
                0 <= i < j < out@.len() ==> out@[i].table_idx < out@[j].table_idx,
            forall|i: int|
                0 <= i < out@.len() ==> {
                    let e = #[trigger] out@[i];
                    &&& e.row == row
                    &&& e.table_idx < model.tables@.len()
                    &&& e.database == model.tables@[e.table_idx as int].database
                    &&& e.schema == model.tables@[e.table_idx as int].schema
                    &&& e.table == model.tables@[e.table_idx as int].table
                    &&& e.set@.len() > 0
                    &&& sets_changes(*rs, e.set@, changes_to(*model, e.table_idx, changes@, ncols))
                    &&& key_matches(*rs, model.tables@[e.table_idx as int], row, e.key@)
                },
            forall|t: usize|
                t < ti && (#[trigger] changes_to(*model, t, changes@, ncols)).len() > 0
                    ==> edit_is_there(out@, t, row),
        decreases model.tables@.len() - ti,
    {
        let ghost before = out@;
        let set: Vec<FieldValue> = table_changes(model, ti, changes);
        proof {
            lemma_changes_ascend(*model, ti, changes@, ncols);
            lemma_in_order(set@);
        }
        if set.len() > 0 {
            if let Some(e) = row_edit_for(model, rs, ti, row, set) {
                out.push(e);
                assert(out@[before.len() as int].table_idx == ti);
            }
        }
        proof {
            assert forall|t: usize|
                t < ti + 1 && (#[trigger] changes_to(*model, t, changes@, ncols)).len()
                    > 0 implies edit_is_there(out@, t, row) by {
                if t < ti {
                    assert(edit_is_there(before, t, row));
                    let i = choose|i: int|
                        0 <= i < before.len() && (#[trigger] before[i]).table_idx == t
                            && before[i].row == row;
                    assert(out@[i].table_idx == t);
                }
            }
        }
        ti = ti + 1;
    }
    out
}

/// Whether a new row's column is inserted: it was given a value, and a table holds it.
pub open spec fn is_inserted(rs: ResultSet, row: Map<usize, Option<String>>, ci: usize) -> bool {
    row.dom().contains(ci) && ci < rs.columns@.len() && rs.columns@[ci as int].origin is Some
}

/// Whether these are the columns that a new row inserts, in order.
pub open spec fn cols_match(
    rs: ResultSet,
    row: Map<usize, Option<String>>,
    cols: Seq<SetCell>,
) -> bool {
    &&& forall|i: int, j: int|
        #![trigger cols[i], cols[j]]
        0 <= i < j < cols.len() ==> cols[i].ci < cols[j].ci
    &&& forall|i: int|
        0 <= i < cols.len() ==> is_inserted(rs, row, (#[trigger] cols[i]).ci) && cols[i].column@
            == origin_name(rs, cols[i].ci as int) && cols[i].value == row[cols[i].ci]
    &&& forall|ci: usize| #[trigger]
        is_inserted(rs, row, ci) ==> exists|i: int|
            0 <= i < cols.len() && (#[trigger] cols[i]).ci == ci
}

/// The columns that a new row inserts, in order.
fn insert_cols(rs: &ResultSet, row: &KeyMap<usize, Option<String>>) -> (r: Vec<SetCell>)
    ensures
        cols_match(*rs, row@, r@),
{
    let n: usize = row.len();
    let ghost es = row.entries();
    let mut cols: Vec<SetCell> = Vec::new();
    let mut k: usize = 0;
    let ghost mut dst: Seq<int> = Seq::empty();
    while k < n
        invariant
            es == row.entries(),
            n == es.len(),
            ascending(es),
            k <= n,
            forall|i: int, j: int|
                #![trigger cols@[i], cols@[j]]
                0 <= i < j < cols@.len() ==> cols@[i].ci < cols@[j].ci,
            forall|i: int|
                0 <= i < cols@.len() ==> is_inserted(*rs, row@, (#[trigger] cols@[i]).ci)
                    && cols@[i].column@ == origin_name(*rs, cols@[i].ci as int) && cols@[i].value
                    == row@[cols@[i].ci],
            forall|i: int, q: int|
                #![trigger cols@[i], es[q]]
                0 <= i < cols@.len() && k <= q < n ==> cols@[i].ci < es[q].0,
            dst.len() == k,
            forall|q: int|
                0 <= q < k && is_inserted(*rs, row@, es[q].0) ==> 0 <= #[trigger] dst[q]
                    < cols@.len() && cols@[dst[q]].ci == es[q].0,
        decreases n - k,
    {
        let e: &(usize, Option<String>) = row.entry(k);
        let ci: usize = e.0;
        proof {
            dst = dst.push(cols@.len() as int);
            assert forall|q: int| k < q < n implies ci < (#[trigger] es[q]).0 by {
                assert(es[k as int].0.place() < es[q].0.place());
            }
        }
        if ci < rs.columns.len() && rs.columns[ci].origin.is_some() {
            cols.push(
                SetCell { ci, column: origin_column(rs, ci), value: copy_value(&e.1) },
            );
        }
        k = k + 1;
    }
    proof {
        assert forall|ci: usize| #[trigger] is_inserted(*rs, row@, ci) implies exists|i: int|
            0 <= i < cols@.len() && (#[trigger] cols@[i]).ci == ci by {
            assert(has_key(es, ci));
            let q = choose|q: int| 0 <= q < es.len() && (#[trigger] es[q]).0 == ci;
            assert(cols@[dst[q]].ci == ci);
        }
    }
    cols
}

/// Whether these are the inserts of the new rows, one for each in their order; none where the
/// result has no table to insert into.
pub open spec fn inserts_match(
    rs: ResultSet,
    model: EditModel,
    new_rows: Seq<Map<usize, Option<String>>>,
    inserts: Seq<RowInsert>,
) -> bool {
    match model.row_target() {
        None => inserts.len() == 0,
        Some(t) => {
            &&& inserts.len() == new_rows.len()
            &&& forall|i: int|
                0 <= i < inserts.len() ==> (#[trigger] inserts[i]).database == t.database
                    && inserts[i].schema == t.schema && inserts[i].table == t.table && cols_match(
                    rs,
                    new_rows[i],
                    inserts[i].cols@,
                )
        },
    }
}

/// The inserts of the new rows. A row without values is inserted too, with every column left to
/// the server.
pub fn build_inserts(rs: &ResultSet, model: &EditModel, staged: &Staged) -> (r: Vec<RowInsert>)
    ensures
        inserts_match(*rs, *model, staged@.new_rows, r@),
{
    let mut out: Vec<RowInsert> = Vec::new();
    if let Some(t) = model.insert_target() {
        let mut i: usize = 0;
        while i < staged.new_rows.len()
            invariant
                i <= staged.new_rows@.len(),
                out@.len() == i,
                forall|k: int|
                    0 <= k < i ==> (#[trigger] out@[k]).database == t.database && out@[k].schema
                        == t.schema && out@[k].table == t.table && cols_match(
                        *rs,
                        staged@.new_rows[k],
                        out@[k].cols@,
                    ),
            decreases staged.new_rows@.len() - i,
        {
            let cols: Vec<SetCell> = insert_cols(rs, &staged.new_rows[i]);
            out.push(
                RowInsert {
                    database: t.database.clone(),
                    schema: copy_value(&t.schema),
                    table: t.table.clone(),
                    cols,
                },
            );
            i = i + 1;
        }
    }
    out
}

/// Whether these are the deletes of the rows that are to go, in their order, each by what the row
/// held; none where the result has no table to delete from.
pub open spec fn deletes_match(
    rs: ResultSet,
    model: EditModel,
    del_rows: Set<usize>,
    deletes: Seq<RowDelete>,
) -> bool {
    match model.row_target() {
        None => deletes.len() == 0,
        Some(t) => {
            &&& forall|i: int, j: int|
                #![trigger deletes[i], deletes[j]]
                0 <= i < j < deletes.len() ==> deletes[i].row < deletes[j].row
            &&& forall|i: int|
                0 <= i < deletes.len() ==> {
                    let d = #[trigger] deletes[i];
                    &&& del_rows.contains(d.row)
                    &&& d.row < rs.rows@.len()
                    &&& d.database == t.database
                    &&& d.schema == t.schema
                    &&& d.table == t.table
                    &&& key_matches(rs, t, d.row, d.key@)
                }
            &&& forall|row: usize| #[trigger]
                del_rows.contains(row) && row < rs.rows@.len() ==> exists|i: int|
                    0 <= i < deletes.len() && (#[trigger] deletes[i]).row == row
        },
    }
}

/// The deletes of the rows that are to go.
pub fn build_deletes(rs: &ResultSet, model: &EditModel, staged: &Staged) -> (r: Vec<RowDelete>)
    ensures
        deletes_match(*rs, *model, staged@.del_rows, r@),
{
    let mut out: Vec<RowDelete> = Vec::new();
    if let Some(t) = model.insert_target() {
        let del: &KeyMap<usize, ()> = &staged.del_rows;
        let n: usize = del.len();
        let ghost es = del.entries();
        let mut k: usize = 0;
        let ghost mut dst: Seq<int> = Seq::empty();
        while k < n
            invariant
                *del == staged.del_rows,
                es == del.entries(),
                n == es.len(),
                ascending(es),
                k <= n,
                forall|i: int, j: int|
                    #![trigger out@[i], out@[j]]
                    0 <= i < j < out@.len() ==> out@[i].row < out@[j].row,
                forall|i: int|
                    0 <= i < out@.len() ==> {
                        let d = #[trigger] out@[i];
                        &&& staged@.del_rows.contains(d.row)
                        &&& d.row < rs.rows@.len()
                        &&& d.database == t.database
                        &&& d.schema == t.schema
                        &&& d.table == t.table
                        &&& key_matches(*rs, *t, d.row, d.key@)
                    },
                forall|i: int, q: int|
                    #![trigger out@[i], es[q]]
                    0 <= i < out@.len() && k <= q < n ==> out@[i].row < es[q].0,
                dst.len() == k,
                forall|q: int|
                    0 <= q < k && es[q].0 < rs.rows@.len() ==> 0 <= #[trigger] dst[q] < out@.len()
                        && out@[dst[q]].row == es[q].0,
            decreases n - k,
        {
            let row: usize = del.entry(k).0;
            proof {
                dst = dst.push(out@.len() as int);
                assert forall|q: int| k < q < n implies row < (#[trigger] es[q]).0 by {
                    assert(es[k as int].0.place() < es[q].0.place());
                }
            }
            if row < rs.row_count() {
                out.push(
                    RowDelete {
                        row,
                        database: t.database.clone(),
                        schema: copy_value(&t.schema),
                        table: t.table.clone(),
                        key: row_key(rs, t, row),
                    },
                );
            }
            k = k + 1;
        }
        proof {
            assert forall|row: usize| #[trigger]
                staged@.del_rows.contains(row) && row < rs.rows@.len() implies exists|i: int|
                0 <= i < out@.len() && (#[trigger] out@[i]).row == row by {
                assert(has_key(es, row));
                let q = choose|q: int| 0 <= q < es.len() && (#[trigger] es[q]).0 == row;
                assert(out@[dst[q]].row == row);
            }
        }
    }
    out
}

/// What a cell holds after the staged edits.
pub open spec fn edited(rs: ResultSet, dirty: Map<At, Option<String>>, at: At) -> Option<String> {
    if dirty.dom().contains(at) {
        dirty[at]
    } else {
        original(rs, at)
    }
}

/// Whether these are the columns that tell a row apart, with what the row holds after the edits.
pub open spec fn new_key_matches(
    rs: ResultSet,
    t: EditTable,
    dirty: Map<At, Option<String>>,
    row: usize,
    key: Seq<KeyCell>,
) -> bool {
    &&& key.len() == t.key_cols@.len()
    &&& forall|i: int|
        0 <= i < key.len() ==> (#[trigger] key[i]).column@ == origin_name(
            rs,
            t.key_cols@[i] as int,
        ) && key[i].value == edited(rs, dirty, At { row, col: t.key_cols@[i] })
}

/// The columns that tell a row apart, with what the row holds after the edits: a key may be edited
/// too, and the write leaves the row under the new one.
fn refetch_key(
    rs: &ResultSet,
    t: &EditTable,
    dirty: &KeyMap<At, Option<String>>,
    row: usize,
) -> (r: Vec<KeyCell>)
    ensures
        new_key_matches(*rs, *t, dirty@, row, r@),
{
    let mut out: Vec<KeyCell> = Vec::new();
    let mut i: usize = 0;
    while i < t.key_cols.len()
        invariant
            i <= t.key_cols@.len(),
            out@.len() == i,
            forall|k: int|
                0 <= k < i ==> (#[trigger] out@[k]).column@ == origin_name(
                    *rs,
                    t.key_cols@[k] as int,
                ) && out@[k].value == edited(*rs, dirty@, At { row, col: t.key_cols@[k] }),
        decreases t.key_cols@.len() - i,
    {
        let at: At = At { row, col: t.key_cols[i] };
        let value: Option<String> = match dirty.get(at) {
            Some(v) => copy_value(v),
            None => original_of(rs, at),
        };
        out.push(KeyCell { column: origin_column(rs, at.col), value });
        i = i + 1;
    }
    out
}

/// Whether a row has an edit.
pub open spec fn has_edit(dirty: Map<At, Option<String>>, row: usize) -> bool {
    exists|at: At| dirty.dom().contains(at) && at.row == row
}

/// Whether these are the edited rows, in order, each under the key it has after the write.
pub open spec fn refetch_matches(
    rs: ResultSet,
    t: EditTable,
    dirty: Map<At, Option<String>>,
    rows: Seq<RefetchRow>,
) -> bool {
    &&& forall|i: int, j: int|
        #![trigger rows[i], rows[j]]
        0 <= i < j < rows.len() ==> rows[i].row < rows[j].row
    &&& forall|i: int|
        0 <= i < rows.len() ==> has_edit(dirty, (#[trigger] rows[i]).row) && new_key_matches(
            rs,
            t,
            dirty,
            rows[i].row,
            rows[i].key@,
        )
    &&& forall|at: At| #[trigger]
        dirty.dom().contains(at) ==> exists|i: int|
            0 <= i < rows.len() && (#[trigger] rows[i]).row == at.row
}

/// The rows to read again after the staged edits were written, so that they can be put in place
/// without running the query anew.
///
/// `template` is the table that they are read from, where the result is one of a single table
/// with every column its own; `spliced` tells whether there is a place to put them.
pub fn build_refetch(
    rs: &ResultSet,
    template: Option<&EditTable>,
    spliced: bool,
    staged: &Staged,
) -> (r: Option<Vec<RefetchRow>>)
    ensures
        r is Some <==> spliced && template is Some,
        r matches Some(rows) ==> refetch_matches(*rs, *template->0, staged@.dirty, rows@),
{
    if !spliced {
        return None;
    }
    let t: &EditTable = match template {
        Some(t) => t,
        None => return None,
    };
    let dirty: &KeyMap<At, Option<String>> = &staged.dirty;
    let n: usize = dirty.len();
    let ghost es = dirty.entries();
    let mut out: Vec<RefetchRow> = Vec::new();
    let mut k: usize = 0;
    let ghost mut dst: Seq<int> = Seq::empty();
    while k < n
        invariant
            *dirty == staged.dirty,
            es == dirty.entries(),
            n == es.len(),
            ascending(es),
            k <= n,
            forall|i: int, j: int|
                #![trigger out@[i], out@[j]]
                0 <= i < j < out@.len() ==> out@[i].row < out@[j].row,
            forall|i: int|
                0 <= i < out@.len() ==> has_edit(dirty@, (#[trigger] out@[i]).row)
                    && new_key_matches(*rs, *t, dirty@, out@[i].row, out@[i].key@),
            forall|i: int, q: int|
                #![trigger out@[i], es[q]]
                0 <= i < out@.len() && k <= q < n ==> out@[i].row <= es[q].0.row,
            dst.len() == k,
            forall|q: int|
                0 <= q < k ==> 0 <= #[trigger] dst[q] < out@.len() && out@[dst[q]].row
                    == es[q].0.row,
        decreases n - k,
    {
        let at: At = dirty.entry(k).0;
        let seen: bool = out.len() > 0 && out[out.len() - 1].row == at.row;
        proof {
            dst = dst.push(
                if seen {
                    out@.len() - 1
                } else {
                    out@.len() as int
                },
            );
            assert forall|q: int| k < q < n implies at.row <= (#[trigger] es[q]).0.row by {
                lemma_same_row(es[k as int].0, es[q].0);
            }
            assert(has_edit(dirty@, at.row));
        }
        if !seen {
            let key: Vec<KeyCell> = refetch_key(rs, t, dirty, at.row);
            proof {
                if out@.len() > 0 {
                    assert(out@[out@.len() - 1].row <= es[k as int].0.row);
                }
            }
            out.push(RefetchRow { row: at.row, key });
        }
        k = k + 1;
    }
    proof {
        assert forall|at: At| #[trigger] dirty@.dom().contains(at) implies exists|i: int|
            0 <= i < out@.len() && (#[trigger] out@[i]).row == at.row by {
            assert(has_key(es, at));
            let q = choose|q: int| 0 <= q < es.len() && (#[trigger] es[q]).0 == at;
            assert(out@[dst[q]].row == at.row);
        }
    }
    Some(out)
}

/// What a column of a row holds after a list of changes: the last one of the column, or what the
/// row held.
pub open spec fn changed(rs: ResultSet, row: usize, changes: Seq<FieldValue>, ci: usize) -> Option<
    String,
>
    decreases changes.len(),
{
    if changes.len() == 0 {
        original(rs, At { row, col: ci })
    } else if changes.last().ci == ci {
        changes.last().value
    } else {
        changed(rs, row, changes.drop_last(), ci)
    }
}

/// The one row to read again after its changes were written, under the key they leave it.
pub fn build_row_refetch(
    rs: &ResultSet,
    template: Option<&EditTable>,
    spliced: bool,
    row: usize,
    changes: &Vec<FieldValue>,
) -> (r: Option<RefetchRow>)
    ensures
        r is Some <==> spliced && template is Some,
        r matches Some(x) ==> {
            &&& x.row == row
            &&& x.key@.len() == template->0.key_cols@.len()
            &&& forall|i: int|
                0 <= i < x.key@.len() ==> (#[trigger] x.key@[i]).column@ == origin_name(
                    *rs,
                    template->0.key_cols@[i] as int,
                ) && x.key@[i].value == changed(*rs, row, changes@, template->0.key_cols@[i])
        },
{
    if !spliced {
        return None;
    }
    let t: &EditTable = match template {
        Some(t) => t,
        None => return None,
    };
    let mut out: Vec<KeyCell> = Vec::new();
    let mut i: usize = 0;
    while i < t.key_cols.len()
        invariant
            i <= t.key_cols@.len(),
            out@.len() == i,
            forall|k: int|
                0 <= k < i ==> (#[trigger] out@[k]).column@ == origin_name(
                    *rs,
                    t.key_cols@[k] as int,
                ) && out@[k].value == changed(*rs, row, changes@, t.key_cols@[k]),
        decreases t.key_cols@.len() - i,
    {
        let ci: usize = t.key_cols[i];
        out.push(
            KeyCell { column: origin_column(rs, ci), value: value_after(rs, row, changes, ci) },
        );
        i = i + 1;
    }
    Some(RefetchRow { row, key: out })
}

/// What a column of a row holds after a list of changes.
fn value_after(rs: &ResultSet, row: usize, changes: &Vec<FieldValue>, ci: usize) -> (r: Option<
    String,
>)
    ensures
        r == changed(*rs, row, changes@, ci),
{
    let mut k: usize = changes.len();
    assert(changes@.take(k as int) =~= changes@);
    while k > 0
        invariant
            k <= changes@.len(),
            changed(*rs, row, changes@, ci) == changed(*rs, row, changes@.take(k as int), ci),
        decreases k,
    {
        let c: &FieldValue = &changes[k - 1];
        assert(changes@.take(k as int).drop_last() =~= changes@.take(k - 1));
        if c.ci == ci {
            return copy_value(&c.value);
        }
        k = k - 1;
    }
    original_of(rs, At { row, col: ci })
}

impl GridWrite {
    /// Whether there is nothing to write.
    pub open spec fn nothing(self) -> bool {
        self.updates@.len() == 0 && self.inserts@.len() == 0 && self.deletes@.len() == 0
    }

    /// Whether there is nothing to write.
    pub fn is_empty(&self) -> (r: bool)
        ensures
            r == self.nothing(),
    {
        self.updates.len() == 0 && self.inserts.len() == 0 && self.deletes.len() == 0
    }
}

/// Whether this is everything that the staged changes write.
pub open spec fn write_matches(
    rs: ResultSet,
    model: EditModel,
    s: crate::staged::StagedView,
    w: GridWrite,
) -> bool {
    &&& edits_match(rs, model, s.dirty, w.updates@)
    &&& inserts_match(rs, model, s.new_rows, w.inserts@)
    &&& deletes_match(rs, model, s.del_rows, w.deletes@)
}

/// Whether the staged changes write anything: an edit that goes to a table, or a new row or one that
/// is to go, where the result has a table for them.
pub open spec fn writes_anything(rs: ResultSet, model: EditModel, s: crate::staged::StagedView) -> bool {
    ||| exists|ti: usize, row: usize|
        ti < model.tables@.len() && #[trigger] row_is_edited(model, s.dirty, ti, row)
    ||| model.row_target() is Some && (s.new_rows.len() > 0 || exists|row: usize| #[trigger]
        s.del_rows.contains(row) && row < rs.rows@.len())
}

/// A write is empty exactly where the staged changes write nothing.
pub proof fn a_write_is_empty_where_nothing_is_written(
    rs: ResultSet,
    model: EditModel,
    s: crate::staged::StagedView,
    w: GridWrite,
)
    requires
        write_matches(rs, model, s, w),
    ensures
        w.nothing() <==> !writes_anything(rs, model, s),
{
    if w.updates@.len() > 0 {
        let e = w.updates@[0];
        assert(edit_matches(rs, model, s.dirty, e));
        assert(edit_goes_to(
            model,
            s.dirty,
            e.table_idx,
            e.row,
            At { row: e.row, col: e.set@[0].ci },
        ));
        assert(row_is_edited(model, s.dirty, e.table_idx, e.row));
    }
    if w.deletes@.len() > 0 {
        assert(s.del_rows.contains(w.deletes@[0].row));
    }
    if w.nothing() {
        assert forall|ti: usize, row: usize| ti < model.tables@.len() implies !#[trigger] row_is_edited(
            model,
            s.dirty,
            ti,
            row,
        ) by {
            if row_is_edited(model, s.dirty, ti, row) {
                assert(edit_is_there(w.updates@, ti, row));
            }
        }
    }
}

/// Whether a list of changes to one row writes anything: one of them goes to a table.
pub open spec fn changes_anything(model: EditModel, changes: Seq<FieldValue>) -> bool {
    exists|ti: usize|
        ti < model.tables@.len() && (#[trigger] changes_to(
            model,
            ti,
            changes,
            model.table_of@.len() as int,
        )).len() > 0
}

/// The updates of one row are none exactly where its changes write nothing.
pub proof fn a_row_is_not_written_where_nothing_changes(
    rs: ResultSet,
    model: EditModel,
    row: usize,
    changes: Seq<FieldValue>,
    edits: Seq<RowEdit>,
)
    requires
        row_edits_match(rs, model, row, changes, edits),
    ensures
        edits.len() == 0 <==> !changes_anything(model, changes),
{
    let ncols = model.table_of@.len() as int;
    if edits.len() > 0 {
        let e = edits[0];
        assert(changes_to(model, e.table_idx, changes, ncols).len() > 0);
    } else {
        assert forall|ti: usize| ti < model.tables@.len() implies (#[trigger] changes_to(
            model,
            ti,
            changes,
            ncols,
        )).len() == 0 by {
            if changes_to(model, ti, changes, ncols).len() > 0 {
                assert(edit_is_there(edits, ti, row));
            }
        }
    }
}

/// Everything that the staged changes write.
pub fn build_write(rs: &ResultSet, model: &EditModel, staged: &Staged) -> (r: GridWrite)
    ensures
        write_matches(*rs, *model, staged@, r),
{
    GridWrite {
        updates: build_edits(rs, model, staged),
        inserts: build_inserts(rs, model, staged),
        deletes: build_deletes(rs, model, staged),
    }
}

/// Where there is no table to write to, nothing is written, whatever is staged and whatever the row
/// panel changed: so over a connection that is read-only.
pub proof fn nothing_is_written_without_a_table(
    rs: ResultSet,
    model: EditModel,
    s: crate::staged::StagedView,
    changes: Seq<FieldValue>,
)
    requires
        model.allows_nothing(),
    ensures
        !writes_anything(rs, model, s),
        !changes_anything(model, changes),
{
}

/// A row is never updated and deleted in one write.
pub proof fn no_row_is_updated_and_deleted(
    rs: ResultSet,
    model: EditModel,
    s: crate::staged::StagedView,
    w: GridWrite,
    i: int,
    j: int,
)
    requires
        crate::staged::no_edit_on_deleted(s),
        write_matches(rs, model, s, w),
        0 <= i < w.updates@.len(),
        0 <= j < w.deletes@.len(),
    ensures
        w.updates@[i].row != w.deletes@[j].row,
{
    let e = w.updates@[i];
    assert(edit_matches(rs, model, s.dirty, e));
    let c = e.set@[0];
    assert(edit_goes_to(model, s.dirty, e.table_idx, e.row, At { row: e.row, col: c.ci }));
    assert(s.dirty.dom().contains(At { row: e.row, col: c.ci }));
    let d = w.deletes@[j];
    assert(s.del_rows.contains(d.row));
}

/// Two lists of updates of the same edits update the same rows of the same tables, and set the
/// same columns of them.
pub proof fn updates_are_determined(
    rs: ResultSet,
    model: EditModel,
    dirty: Map<At, Option<String>>,
    a: Seq<RowEdit>,
    b: Seq<RowEdit>,
    i: int,
)
    requires
        edits_match(rs, model, dirty, a),
        edits_match(rs, model, dirty, b),
        0 <= i < a.len(),
    ensures
        exists|j: int|
            0 <= j < b.len() && (#[trigger] b[j]).table_idx == a[i].table_idx && b[j].row == a[i].row
                && forall|p: int|
                0 <= p < a[i].set@.len() ==> exists|q: int|
                    0 <= q < b[j].set@.len() && (#[trigger] b[j].set@[q]).ci == (
                    #[trigger] a[i].set@[p]).ci && b[j].set@[q].value == a[i].set@[p].value,
{
    let e = a[i];
    assert(edit_matches(rs, model, dirty, e));
    let c = e.set@[0];
    assert(edit_goes_to(model, dirty, e.table_idx, e.row, At { row: e.row, col: c.ci }));
    assert(row_is_edited(model, dirty, e.table_idx, e.row));
    assert(edit_is_there(b, e.table_idx, e.row));
    let j = choose|j: int|
        0 <= j < b.len() && (#[trigger] b[j]).table_idx == e.table_idx && b[j].row == e.row;
    assert(edit_matches(rs, model, dirty, b[j]));
    assert forall|p: int| 0 <= p < e.set@.len() implies exists|q: int|
        0 <= q < b[j].set@.len() && (#[trigger] b[j].set@[q]).ci == (#[trigger] e.set@[p]).ci
            && b[j].set@[q].value == e.set@[p].value by {
        let at = At { row: e.row, col: e.set@[p].ci };
        assert(edit_goes_to(model, dirty, e.table_idx, e.row, at));
        let q = choose|q: int| 0 <= q < b[j].set@.len() && (#[trigger] b[j].set@[q]).ci == at.col;
        assert(b[j].set@[q].ci == e.set@[p].ci);
    }
}

/// An update finds its row by what the row holds on the server, never by what was typed, also where the
/// key itself is edited; so does a delete.
pub proof fn a_row_is_found_by_what_it_holds(
    rs: ResultSet,
    model: EditModel,
    s: crate::staged::StagedView,
    w: GridWrite,
    i: int,
    j: int,
    k: int,
)
    requires
        write_matches(rs, model, s, w),
    ensures
        0 <= i < w.updates@.len() ==> {
            let e = w.updates@[i];
            let t = model.tables@[e.table_idx as int];
            &&& e.table_idx < model.tables@.len()
            &&& e.table@ == t.table@ && e.database@ == t.database@
            &&& e.key@.len() == t.key_cols@.len()
            &&& 0 <= k < e.key@.len() ==> crate::staged::cell_holds(
                rs,
                At { row: e.row, col: t.key_cols@[k] },
                e.key@[k].value,
            )
        },
        0 <= j < w.deletes@.len() ==> {
            let d = w.deletes@[j];
            &&& model.target is Some && model.target->0 < model.tables@.len()
            &&& ({
                let t = model.tables@[model.target->0 as int];
                &&& d.table@ == t.table@ && d.database@ == t.database@
                &&& d.key@.len() == t.key_cols@.len()
                &&& 0 <= k < d.key@.len() ==> crate::staged::cell_holds(
                    rs,
                    At { row: d.row, col: t.key_cols@[k] },
                    d.key@[k].value,
                )
            })
        },
{
    if 0 <= i < w.updates@.len() {
        let e = w.updates@[i];
        assert(edit_matches(rs, model, s.dirty, e));
        if 0 <= k < e.key@.len() {
            assert(e.key@[k].value == original(
                rs,
                At { row: e.row, col: model.tables@[e.table_idx as int].key_cols@[k] },
            ));
        }
    }
    if 0 <= j < w.deletes@.len() {
        let d = w.deletes@[j];
        let t = model.row_target()->0;
        assert(key_matches(rs, t, d.row, d.key@));
        if 0 <= k < d.key@.len() {
            assert(d.key@[k].value == original(rs, At { row: d.row, col: t.key_cols@[k] }));
        }
    }
}

/// Every cell that was edited and that a table holds is set by one update of its row, to what is staged,
/// under the column's own name on the table.
pub proof fn every_edit_is_written(
    rs: ResultSet,
    model: EditModel,
    s: crate::staged::StagedView,
    w: GridWrite,
    at: At,
)
    requires
        write_matches(rs, model, s, w),
        s.dirty.dom().contains(at),
        at.col < model.table_of@.len(),
        model.table_of@[at.col as int] is Some,
        model.table_of@[at.col as int]->0 < model.tables@.len(),
    ensures
        exists|i: int, k: int|
            0 <= i < w.updates@.len() && 0 <= k < w.updates@[i].set@.len() && w.updates@[i].row == at.row
                && w.updates@[i].table_idx == model.table_of@[at.col as int]->0
                && (#[trigger] w.updates@[i].set@[k]).ci == at.col && w.updates@[i].set@[k].value
                == s.dirty[at],
{
    let ti = model.table_of@[at.col as int]->0;
    assert(edit_goes_to(model, s.dirty, ti, at.row, at));
    assert(row_is_edited(model, s.dirty, ti, at.row));
    assert(edit_is_there(w.updates@, ti, at.row));
    let i = choose|i: int|
        0 <= i < w.updates@.len() && (#[trigger] w.updates@[i]).table_idx == ti && w.updates@[i].row
            == at.row;
    assert(edit_matches(rs, model, s.dirty, w.updates@[i]));
    let k = choose|k: int|
        0 <= k < w.updates@[i].set@.len() && (#[trigger] w.updates@[i].set@[k]).ci == at.col;
    assert(w.updates@[i].set@[k].ci == at.col);
}

/// An update sets nothing that was not edited: each of its columns is one of its table, by its own name
/// there, and takes what is staged for the row.
pub proof fn an_update_sets_only_what_was_edited(
    rs: ResultSet,
    model: EditModel,
    s: crate::staged::StagedView,
    w: GridWrite,
    i: int,
    k: int,
)
    requires
        write_matches(rs, model, s, w),
        0 <= i < w.updates@.len(),
        0 <= k < w.updates@[i].set@.len(),
    ensures
        ({
            let e = w.updates@[i];
            let c = e.set@[k];
            let at = At { row: e.row, col: c.ci };
            &&& s.dirty.dom().contains(at)
            &&& c.value == s.dirty[at]
            &&& c.ci < model.table_of@.len() && model.table_of@[c.ci as int] == Some(e.table_idx)
            &&& c.ci < rs.columns@.len() && rs.columns@[c.ci as int].origin is Some ==> c.column@
                == rs.columns@[c.ci as int].origin->0.column@
        }),
{
    let e = w.updates@[i];
    assert(edit_matches(rs, model, s.dirty, e));
    assert(edit_goes_to(model, s.dirty, e.table_idx, e.row, At { row: e.row, col: e.set@[k].ci }));
}

/// Every new row is inserted once, into the table for rows, with what was given to it and nothing else;
/// a cell that was given none is left to the server.
pub proof fn a_new_row_is_inserted_as_it_was_given(
    rs: ResultSet,
    model: EditModel,
    s: crate::staged::StagedView,
    w: GridWrite,
    i: int,
    ci: usize,
)
    requires
        write_matches(rs, model, s, w),
        model.target is Some,
        model.target->0 < model.tables@.len(),
        0 <= i < s.new_rows.len(),
        ci < rs.columns@.len(),
        rs.columns@[ci as int].origin is Some,
    ensures
        w.inserts@.len() == s.new_rows.len(),
        w.inserts@[i].table@ == model.tables@[model.target->0 as int].table@,
        s.new_rows[i].dom().contains(ci) ==> exists|k: int|
            0 <= k < w.inserts@[i].cols@.len() && (#[trigger] w.inserts@[i].cols@[k]).ci == ci
                && w.inserts@[i].cols@[k].value == s.new_rows[i][ci] && w.inserts@[i].cols@[k].column@
                == rs.columns@[ci as int].origin->0.column@,
        !s.new_rows[i].dom().contains(ci) ==> forall|k: int|
            0 <= k < w.inserts@[i].cols@.len() ==> (#[trigger] w.inserts@[i].cols@[k]).ci != ci,
{
    let ins = w.inserts@[i];
    assert(cols_match(rs, s.new_rows[i], ins.cols@));
    if s.new_rows[i].dom().contains(ci) {
        assert(is_inserted(rs, s.new_rows[i], ci));
        let k = choose|k: int| 0 <= k < ins.cols@.len() && (#[trigger] ins.cols@[k]).ci == ci;
        assert(ins.cols@[k].ci == ci);
    } else {
        assert forall|k: int| 0 <= k < ins.cols@.len() implies (#[trigger] ins.cols@[k]).ci != ci by {
            assert(is_inserted(rs, s.new_rows[i], ins.cols@[k].ci));
        }
    }
}

/// Every row that is to go is deleted, once, and no other row is.
pub proof fn the_marked_rows_are_deleted(
    rs: ResultSet,
    model: EditModel,
    s: crate::staged::StagedView,
    w: GridWrite,
    row: usize,
)
    requires
        write_matches(rs, model, s, w),
        model.target is Some,
        model.target->0 < model.tables@.len(),
        row < rs.rows@.len(),
    ensures
        s.del_rows.contains(row) <==> exists|i: int|
            0 <= i < w.deletes@.len() && (#[trigger] w.deletes@[i]).row == row,
        forall|i: int, j: int|
            0 <= i < j < w.deletes@.len() ==> (#[trigger] w.deletes@[i]).row != (
            #[trigger] w.deletes@[j]).row,
{
    if exists|i: int| 0 <= i < w.deletes@.len() && (#[trigger] w.deletes@[i]).row == row {
        let i = choose|i: int| 0 <= i < w.deletes@.len() && (#[trigger] w.deletes@[i]).row == row;
        assert(s.del_rows.contains(w.deletes@[i].row));
    }
}

/// A row is read again under the key that the write leaves it: what was typed where the key was edited,
/// and what it holds where it was not. Every row that was edited is read again, and no other.
pub proof fn a_row_is_read_again_under_its_new_key(
    rs: ResultSet,
    t: EditTable,
    dirty: Map<At, Option<String>>,
    rows: Seq<RefetchRow>,
    i: int,
    k: int,
    at: At,
)
    requires
        refetch_matches(rs, t, dirty, rows),
        0 <= i < rows.len(),
        0 <= k < t.key_cols@.len(),
    ensures
        ({
            let cell = At { row: rows[i].row, col: t.key_cols@[k] };
            &&& rows[i].key@.len() == t.key_cols@.len()
            &&& dirty.dom().contains(cell) ==> rows[i].key@[k].value == dirty[cell]
            &&& !dirty.dom().contains(cell) ==> crate::staged::cell_holds(rs, cell, rows[i].key@[k].value)
            &&& exists|e: At| #[trigger] dirty.dom().contains(e) && e.row == rows[i].row
            &&& dirty.dom().contains(at) ==> exists|j: int|
                0 <= j < rows.len() && (#[trigger] rows[j]).row == at.row
        }),
{
    assert(has_edit(dirty, rows[i].row));
    assert(new_key_matches(rs, t, dirty, rows[i].row, rows[i].key@));
    assert(rows[i].key@[k].value == edited(rs, dirty, At { row: rows[i].row, col: t.key_cols@[k] }));
    let e = choose|e: At| dirty.dom().contains(e) && e.row == rows[i].row;
    assert(dirty.dom().contains(e));
}

/// What a column of a row holds after a list of changes is the last of them, and what it held where
/// there is none.
pub proof fn the_last_change_counts(rs: ResultSet, row: usize, changes: Seq<FieldValue>, ci: usize, i: int)
    requires
        -1 <= i < changes.len(),
        i >= 0 ==> changes[i].ci == ci,
        forall|j: int| i < j < changes.len() ==> (#[trigger] changes[j]).ci != ci,
    ensures
        i >= 0 ==> changed(rs, row, changes, ci) == changes[i].value,
        i < 0 ==> crate::staged::cell_holds(
            rs,
            At { row, col: ci },
            changed(rs, row, changes, ci),
        ),
    decreases changes.len(),
{
    if changes.len() > 0 && i < changes.len() - 1 {
        let front = changes.drop_last();
        assert(changes[changes.len() - 1].ci != ci);
        assert forall|j: int| i < j < front.len() implies (#[trigger] front[j]).ci != ci by {
            assert(changes[j].ci != ci);
        }
        the_last_change_counts(rs, row, front, ci, i);
    }
}

proof fn lemma_change_is_there(changes: Seq<FieldValue>, ci: int, i: int)
    requires
        0 <= i < changes.len(),
        changes[i].ci == ci,
    ensures
        changes_of(changes, ci).contains(changes[i]),
    decreases changes.len(),
{
    let front = changes.drop_last();
    let now = changes_of(changes, ci);
    if i < changes.len() - 1 {
        lemma_change_is_there(front, ci, i);
        let before = changes_of(front, ci);
        let j = before.index_of(changes[i]);
        assert(now[j] == changes[i]);
    } else {
        assert(now[now.len() - 1] == changes[i]);
    }
}

/// Every change to a column that a table holds goes to that table, and no other does.
pub proof fn a_change_goes_to_its_table(
    model: EditModel,
    ti: usize,
    changes: Seq<FieldValue>,
    ncols: int,
    i: int,
)
    requires
        0 <= ncols <= model.table_of@.len(),
        0 <= i < changes.len(),
    ensures
        changes[i].ci < ncols && model.table_of@[changes[i].ci as int] == Some(ti) ==> changes_to(
            model,
            ti,
            changes,
            ncols,
        ).contains(changes[i]),
        forall|k: int|
            0 <= k < changes_to(model, ti, changes, ncols).len() ==> {
                let c = #[trigger] changes_to(model, ti, changes, ncols)[k];
                c.ci < ncols && model.table_of@[c.ci as int] == Some(ti)
            },
    decreases ncols,
{
    if ncols > 0 {
        a_change_goes_to_its_table(model, ti, changes, ncols - 1, i);
        lemma_changes_of(changes, ncols - 1);
        let front = changes_to(model, ti, changes, ncols - 1);
        let own = changes_of(changes, ncols - 1);
        let all = changes_to(model, ti, changes, ncols);
        if front.contains(changes[i]) {
            let k = front.index_of(changes[i]);
            assert(all[k] == changes[i]);
        }
        if changes[i].ci == ncols - 1 && model.table_of@[ncols - 1] == Some(ti) {
            lemma_change_is_there(changes, ncols - 1, i);
            let k = own.index_of(changes[i]);
            assert(all[front.len() + k] == changes[i]);
        }
        assert forall|k: int| 0 <= k < all.len() implies ({
            let c = #[trigger] all[k];
            c.ci < ncols && model.table_of@[c.ci as int] == Some(ti)
        }) by {
            if k < front.len() {
                assert(all[k] == front[k]);
            } else {
                assert(all[k] == own[k - front.len()]);
            }
        }
    }
}

/// A row is looked for under its key columns' own names, in its own table, and no row of a table is
/// updated twice or sets a column twice.
pub proof fn a_row_is_looked_for_by_its_key(
    rs: ResultSet,
    model: EditModel,
    s: crate::staged::StagedView,
    w: GridWrite,
    i: int,
    j: int,
    k: int,
)
    requires
        write_matches(rs, model, s, w),
    ensures
        0 <= i < w.updates@.len() ==> {
            let e = w.updates@[i];
            let t = model.tables@[e.table_idx as int];
            &&& e.schema == t.schema
            &&& 0 <= k < e.key@.len() && t.key_cols@[k] < rs.columns@.len()
                && rs.columns@[t.key_cols@[k] as int].origin is Some ==> e.key@[k].column@
                == rs.columns@[t.key_cols@[k] as int].origin->0.column@
            &&& 0 <= j < w.updates@.len() && i != j ==> w.updates@[j].table_idx != e.table_idx
                || w.updates@[j].row != e.row
            &&& 0 <= j < k < e.set@.len() ==> e.set@[j].ci < e.set@[k].ci
        },
        0 <= j < w.deletes@.len() ==> {
            let d = w.deletes@[j];
            let t = model.tables@[model.target->0 as int];
            &&& d.schema == t.schema
            &&& 0 <= k < d.key@.len() && t.key_cols@[k] < rs.columns@.len()
                && rs.columns@[t.key_cols@[k] as int].origin is Some ==> d.key@[k].column@
                == rs.columns@[t.key_cols@[k] as int].origin->0.column@
        },
{
    if 0 <= i < w.updates@.len() {
        let e = w.updates@[i];
        let t = model.tables@[e.table_idx as int];
        assert(edit_matches(rs, model, s.dirty, e));
        if 0 <= k < e.key@.len() {
            assert(e.key@[k].column@ == origin_name(rs, t.key_cols@[k] as int));
        }
        if 0 <= j < w.updates@.len() && i != j {
            if i < j {
                assert(edit_before(w.updates@[i], w.updates@[j]));
            } else {
                assert(edit_before(w.updates@[j], w.updates@[i]));
            }
        }
    }
    if 0 <= j < w.deletes@.len() {
        let d = w.deletes@[j];
        let t = model.row_target()->0;
        assert(key_matches(rs, t, d.row, d.key@));
        if 0 <= k < d.key@.len() {
            assert(d.key@[k].column@ == origin_name(rs, t.key_cols@[k] as int));
        }
    }
}

/// A new row goes into the table for rows, with its own values, each column once and in order.
pub proof fn a_new_row_goes_into_its_table(
    rs: ResultSet,
    model: EditModel,
    s: crate::staged::StagedView,
    w: GridWrite,
    i: int,
    j: int,
    k: int,
)
    requires
        write_matches(rs, model, s, w),
        0 <= i < w.inserts@.len(),
    ensures
        model.target is Some && model.target->0 < model.tables@.len(),
        w.inserts@[i].database == model.tables@[model.target->0 as int].database,
        w.inserts@[i].schema == model.tables@[model.target->0 as int].schema,
        w.inserts@[i].table == model.tables@[model.target->0 as int].table,
        0 <= k < w.inserts@[i].cols@.len() ==> {
            let c = w.inserts@[i].cols@[k];
            &&& s.new_rows[i].dom().contains(c.ci)
            &&& c.value == s.new_rows[i][c.ci]
        },
        0 <= j < k < w.inserts@[i].cols@.len() ==> w.inserts@[i].cols@[j].ci < w.inserts@[i].cols@[k].ci,
{
    let row = w.inserts@[i];
    assert(cols_match(rs, s.new_rows[i], row.cols@));
    if 0 <= k < row.cols@.len() {
        assert(is_inserted(rs, s.new_rows[i], row.cols@[k].ci));
    }
}

/// The panel writes what was changed in it: each update sets columns of its own table to the values
/// that they were changed to, finds the row by what it holds, and every change is in one of them.
pub proof fn the_panels_changes_are_written(
    rs: ResultSet,
    model: EditModel,
    row: usize,
    changes: Seq<FieldValue>,
    edits: Seq<RowEdit>,
    i: int,
    k: int,
    c: int,
)
    requires
        row_edits_match(rs, model, row, changes, edits),
    ensures
        0 <= i < edits.len() ==> {
            let e = edits[i];
            let t = model.tables@[e.table_idx as int];
            &&& e.row == row && e.table_idx < model.tables@.len()
            &&& e.database == t.database && e.schema == t.schema && e.table == t.table
            &&& 0 <= k < e.set@.len() ==> {
                &&& e.set@[k].ci < model.table_of@.len() && model.table_of@[e.set@[k].ci as int] == Some(
                    e.table_idx,
                )
                &&& e.set@[k].ci < rs.columns@.len() && rs.columns@[e.set@[k].ci as int].origin is Some
                    ==> e.set@[k].column@ == rs.columns@[e.set@[k].ci as int].origin->0.column@
            }
            &&& 0 <= k < t.key_cols@.len() ==> e.key@.len() == t.key_cols@.len()
                && crate::staged::cell_holds(rs, At { row, col: t.key_cols@[k] }, e.key@[k].value)
        },
        0 <= c < changes.len() && changes[c].ci < model.table_of@.len() && model.table_of@[changes[c].ci as int] is Some
            && model.table_of@[changes[c].ci as int]->0 < model.tables@.len() ==> exists|a: int, b: int|
            0 <= a < edits.len() && 0 <= b < edits[a].set@.len() && edits[a].table_idx
                == model.table_of@[changes[c].ci as int]->0 && (#[trigger] edits[a].set@[b]).ci
                == changes[c].ci && edits[a].set@[b].value == changes[c].value,
{
    let ncols = model.table_of@.len() as int;
    if 0 <= i < edits.len() {
        let e = edits[i];
        let t = model.tables@[e.table_idx as int];
        let own = changes_to(model, e.table_idx, changes, ncols);
        assert(sets_changes(rs, e.set@, own));
        assert(key_matches(rs, t, row, e.key@));
        if changes.len() > 0 {
            a_change_goes_to_its_table(model, e.table_idx, changes, ncols, 0);
        } else {
            lemma_no_changes(model, e.table_idx, changes, ncols);
        }
        if 0 <= k < e.set@.len() {
            assert(e.set@[k].ci == own[k].ci);
        }
        if 0 <= k < t.key_cols@.len() {
            assert(e.key@[k].value == original(rs, At { row, col: t.key_cols@[k] }));
        }
    }
    if 0 <= c < changes.len() && changes[c].ci < ncols && model.table_of@[changes[c].ci as int] is Some
        && model.table_of@[changes[c].ci as int]->0 < model.tables@.len() {
        let ti = model.table_of@[changes[c].ci as int]->0;
        let own = changes_to(model, ti, changes, ncols);
        a_change_goes_to_its_table(model, ti, changes, ncols, c);
        let b = own.index_of(changes[c]);
        assert(own.len() > 0);
        assert(edit_is_there(edits, ti, row));
        let a = choose|a: int|
            0 <= a < edits.len() && (#[trigger] edits[a]).table_idx == ti && edits[a].row == row;
        assert(sets_changes(rs, edits[a].set@, own));
        assert(edits[a].set@[b].ci == changes[c].ci);
    }
}

proof fn lemma_no_changes(model: EditModel, ti: usize, changes: Seq<FieldValue>, ncols: int)
    requires
        changes.len() == 0,
    ensures
        changes_to(model, ti, changes, ncols).len() == 0,
    decreases ncols,
{
    if ncols > 0 {
        lemma_no_changes(model, ti, changes, ncols - 1);
    }
}

/// A row is read again once, under its key columns' own names.
pub proof fn a_row_is_read_again_once(
    rs: ResultSet,
    t: EditTable,
    dirty: Map<At, Option<String>>,
    rows: Seq<RefetchRow>,
    i: int,
    j: int,
    k: int,
)
    requires
        refetch_matches(rs, t, dirty, rows),
        0 <= i < rows.len(),
    ensures
        0 <= j < rows.len() && i != j ==> rows[i].row != rows[j].row,
        0 <= k < t.key_cols@.len() && t.key_cols@[k] < rs.columns@.len()
            && rs.columns@[t.key_cols@[k] as int].origin is Some ==> rows[i].key@[k].column@
            == rs.columns@[t.key_cols@[k] as int].origin->0.column@,
{
    assert(new_key_matches(rs, t, dirty, rows[i].row, rows[i].key@));
    if 0 <= k < t.key_cols@.len() {
        assert(rows[i].key@[k].column@ == origin_name(rs, t.key_cols@[k] as int));
    }
    if 0 <= j < rows.len() && i != j {
        if i < j {
            assert(rows[i].row < rows[j].row);
        } else {
            assert(rows[j].row < rows[i].row);
        }
    }
}

/// There is nothing to write where there is no update, no insert and no delete.
pub proof fn a_write_is_nothing_where_it_has_no_statement(w: GridWrite)
    ensures
        w.nothing() <==> w.updates@.len() == 0 && w.inserts@.len() == 0 && w.deletes@.len() == 0,
{
}

} // verus!
