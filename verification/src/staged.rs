//! What the user has changed and not yet written: edited cells, new rows, rows to delete.

use vstd::prelude::*;
use crate::keymap::{without_row, At, KeyMap};
use crate::model::{CellTag, EditModel, ResultSet};

verus! {

/// One cell of an edit: its place, and the text it is to hold or `None` for no value.
pub struct CellEdit {
    pub at: At,
    pub value: Option<String>,
}

/// The staged changes of a grid.
///
/// `dirty` holds the edited cells by data row and column. `new_rows` holds, for each new row, the
/// columns that were given a value; a column without one is left to the server. `del_rows` holds
/// the data rows that are to go. `new_rows_gen` counts how often the new rows were thrown away.
pub struct Staged {
    pub dirty: KeyMap<At, Option<String>>,
    pub new_rows: Vec<KeyMap<usize, Option<String>>>,
    pub del_rows: KeyMap<usize, ()>,
    pub new_rows_gen: u64,
}

/// Staged changes as mathematical values.
pub struct StagedView {
    pub dirty: Map<At, Option<String>>,
    pub new_rows: Seq<Map<usize, Option<String>>>,
    pub del_rows: Set<usize>,
    pub new_rows_gen: u64,
}

impl View for Staged {
    type V = StagedView;

    open spec fn view(&self) -> StagedView {
        StagedView {
            dirty: self.dirty@,
            new_rows: self.new_rows@.map_values(|m: KeyMap<usize, Option<String>>| m@),
            del_rows: self.del_rows@.dom(),
            new_rows_gen: self.new_rows_gen,
        }
    }
}

/// A value as text.
pub open spec fn text_of(v: Option<String>) -> Option<Seq<char>> {
    match v {
        Some(s) => Some(s@),
        None => None,
    }
}

/// What a cell of the result held: no value, or a text.
pub open spec fn original(rs: ResultSet, at: At) -> Option<String> {
    if rs.has_cell(at.row as int, at.col as int) && rs.rows@[at.row as int]@[at.col as int].tag
        != CellTag::Null {
        Some(rs.rows@[at.row as int]@[at.col as int].text)
    } else {
        None
    }
}

/// The edited cells after one more edit: a cell that gets back what it held is edited no longer.
pub open spec fn stage_one(
    rs: ResultSet,
    dirty: Map<At, Option<String>>,
    e: CellEdit,
) -> Map<At, Option<String>> {
    if text_of(e.value) == text_of(original(rs, e.at)) {
        dirty.remove(e.at)
    } else {
        dirty.insert(e.at, e.value)
    }
}

/// The edited cells after a batch of edits, made one by one.
pub open spec fn stage_all(
    rs: ResultSet,
    dirty: Map<At, Option<String>>,
    edits: Seq<CellEdit>,
) -> Map<At, Option<String>>
    decreases edits.len(),
{
    if edits.len() == 0 {
        dirty
    } else {
        stage_one(rs, stage_all(rs, dirty, edits.drop_last()), edits.last())
    }
}

/// The new rows after one more edit, `at.row` counting from the first new row: an empty text
/// takes the value of the column away, and a row that is not there is left out.
pub open spec fn stage_new_one(rows: Seq<Map<usize, Option<String>>>, e: CellEdit) -> Seq<
    Map<usize, Option<String>>,
> {
    let i = e.at.row as int;
    if i >= rows.len() {
        rows
    } else if text_of(e.value) == Some(Seq::<char>::empty()) {
        rows.update(i, rows[i].remove(e.at.col))
    } else {
        rows.update(i, rows[i].insert(e.at.col, e.value))
    }
}

/// The new rows after a batch of edits, made one by one.
pub open spec fn stage_new_all(
    rows: Seq<Map<usize, Option<String>>>,
    edits: Seq<CellEdit>,
) -> Seq<Map<usize, Option<String>>>
    decreases edits.len(),
{
    if edits.len() == 0 {
        rows
    } else {
        stage_new_one(stage_new_all(rows, edits.drop_last()), edits.last())
    }
}

/// Whether a duplicate of a row takes over a column: one that can be edited, and that the server
/// does not number itself.
pub open spec fn is_copied(rs: ResultSet, model: EditModel, row: int, ci: int) -> bool {
    &&& 0 <= ci < rs.columns@.len()
    &&& model.can_edit(ci)
    &&& !(rs.columns@[ci].origin matches Some(o) && o.auto_increment)
    &&& rs.has_cell(row, ci)
}

/// A new row that duplicates a row of the result.
pub open spec fn duplicate(rs: ResultSet, model: EditModel, row: usize) -> Map<
    usize,
    Option<String>,
> {
    Map::new(
        |ci: usize| is_copied(rs, model, row as int, ci as int),
        |ci: usize| original(rs, At { row, col: ci }),
    )
}

/// No row that is to go has an edited cell.
pub open spec fn no_edit_on_deleted(s: StagedView) -> bool {
    forall|at: At| #[trigger] s.dirty.dom().contains(at) ==> !s.del_rows.contains(at.row)
}

/// The changes after the mark of a data row was turned round; marking drops its edits.
pub open spec fn toggled(s: StagedView, row: usize) -> StagedView {
    if s.del_rows.contains(row) {
        StagedView { del_rows: s.del_rows.remove(row), ..s }
    } else {
        StagedView {
            del_rows: s.del_rows.insert(row),
            dirty: without_row(s.dirty, row),
            ..s
        }
    }
}

/// The changes after these rows were marked, or unmarked. A row that is marked anew loses its
/// edits; one that was marked before has none to lose.
pub open spec fn marked(s: StagedView, rows: Seq<usize>, deleted: bool) -> StagedView {
    if deleted {
        StagedView {
            del_rows: s.del_rows.union(rows.to_set()),
            dirty: Map::new(
                |at: At|
                    s.dirty.dom().contains(at) && (!rows.contains(at.row) || s.del_rows.contains(
                        at.row,
                    )),
                |at: At| s.dirty[at],
            ),
            ..s
        }
    } else {
        StagedView { del_rows: s.del_rows.difference(rows.to_set()), ..s }
    }
}

/// The changes after a range of rows was marked to go, or unmarked. Marking drops the edits of
/// every row of the range.
pub open spec fn range_marked(s: StagedView, rows: Seq<usize>, mark: bool) -> StagedView {
    if mark {
        StagedView {
            del_rows: s.del_rows.union(rows.to_set()),
            dirty: Map::new(
                |at: At| s.dirty.dom().contains(at) && !rows.contains(at.row),
                |at: At| s.dirty[at],
            ),
            ..s
        }
    } else {
        StagedView { del_rows: s.del_rows.difference(rows.to_set()), ..s }
    }
}

/// The changes after all of them were thrown away. The count goes up where there were new rows,
/// whose indices are about to be given out again.
pub open spec fn discarded(s: StagedView) -> StagedView {
    StagedView {
        dirty: Map::empty(),
        new_rows: Seq::empty(),
        del_rows: Set::empty(),
        new_rows_gen: if s.new_rows.len() == 0 {
            s.new_rows_gen
        } else {
            s.new_rows_gen.wrapping_add(1)
        },
    }
}

/// The new rows without `count` of them from `first` on.
pub open spec fn without_rows<T>(rows: Seq<T>, first: int, count: int) -> Seq<T> {
    if first >= rows.len() {
        rows
    } else if first + count >= rows.len() {
        rows.take(first)
    } else {
        rows.take(first) + rows.skip(first + count)
    }
}

/// Whether anything is staged.
pub open spec fn is_clean(s: StagedView) -> bool {
    &&& s.dirty.dom() =~= Set::<At>::empty()
    &&& s.new_rows.len() == 0
    &&& s.del_rows =~= Set::<usize>::empty()
}

/// What a cell of the result held.
pub fn original_of(rs: &ResultSet, at: At) -> (r: Option<String>)
    ensures
        r == original(*rs, at),
{
    match rs.cell(at.row, at.col) {
        Some(c) => if c.is_null() {
            None
        } else {
            Some(c.text.clone())
        },
        None => None,
    }
}

/// Whether two values hold the same text, or both hold none.
pub fn same_value(a: &Option<String>, b: &Option<String>) -> (r: bool)
    ensures
        r == (text_of(*a) == text_of(*b)),
{
    match (a, b) {
        (Some(x), Some(y)) => *x == *y,
        (None, None) => true,
        _ => false,
    }
}

proof fn lemma_taken<T>(s: Seq<T>, i: int)
    requires
        0 <= i < s.len(),
    ensures
        forall|x: T| #[trigger]
            s.take(i + 1).contains(x) <==> s.take(i).contains(x) || x == s[i],
        s.take(i + 1).to_set() == s.take(i).to_set().insert(s[i]),
{
    let was = s.take(i);
    let now = s.take(i + 1);
    assert forall|x: T| #[trigger] now.contains(x) <==> was.contains(x) || x == s[i] by {
        if was.contains(x) {
            let j = was.index_of(x);
            assert(now[j] == x);
        }
        if now.contains(x) {
            let j = now.index_of(x);
            if j < i {
                assert(was[j] == x);
            }
        }
        assert(now[i] == s[i]);
    }
    assert(now.to_set() =~= was.to_set().insert(s[i]));
}

impl Staged {
    /// Nothing staged.
    pub fn new() -> (r: Staged)
        ensures
            r@.dirty == Map::<At, Option<String>>::empty(),
            r@.new_rows.len() == 0,
            r@.del_rows == Set::<usize>::empty(),
            r@.new_rows_gen == 0,
    {
        let r: Staged = Staged {
            dirty: KeyMap::new(),
            new_rows: Vec::new(),
            del_rows: KeyMap::new(),
            new_rows_gen: 0,
        };
        assert(r@.del_rows =~= Set::<usize>::empty());
        r
    }

    /// Stage a batch of edits of the rows of the result.
    pub fn stage_many(&mut self, rs: &ResultSet, edits: Vec<CellEdit>)
        ensures
            final(self)@ == (StagedView {
                dirty: stage_all(*rs, old(self)@.dirty, edits@),
                ..old(self)@
            }),
    {
        let ghost all = edits@;
        for e in it: edits
            invariant
                it.seq() == all,
                self@ == (StagedView {
                    dirty: stage_all(*rs, old(self)@.dirty, all.take(it.index())),
                    ..old(self)@
                }),
        {
            proof {
                assert(all.take(it.index() + 1).drop_last() == all.take(it.index()));
                assert(all.take(it.index() + 1).last() == e);
            }
            let was: Option<String> = original_of(rs, e.at);
            if same_value(&was, &e.value) {
                self.dirty.remove(e.at);
            } else {
                self.dirty.insert(e.at, e.value);
            }
        }
        assert(all.take(all.len() as int) == all);
    }

    /// Stage a value in any case, also one that the cell already held.
    pub fn stage_set(&mut self, at: At, value: Option<String>)
        ensures
            final(self)@ == (StagedView {
                dirty: old(self)@.dirty.insert(at, value),
                ..old(self)@
            }),
    {
        self.dirty.insert(at, value);
    }

    /// Stage a batch of edits of the new rows.
    pub fn stage_new_many(&mut self, edits: Vec<CellEdit>)
        ensures
            final(self)@ == (StagedView {
                new_rows: stage_new_all(old(self)@.new_rows, edits@),
                ..old(self)@
            }),
    {
        let ghost all = edits@;
        for e in it: edits
            invariant
                it.seq() == all,
                self@ == (StagedView {
                    new_rows: stage_new_all(old(self)@.new_rows, all.take(it.index())),
                    ..old(self)@
                }),
        {
            proof {
                assert(all.take(it.index() + 1).drop_last() == all.take(it.index()));
                assert(all.take(it.index() + 1).last() == e);
            }
            let ghost before = self@.new_rows;
            let i: usize = e.at.row;
            if i < self.new_rows.len() {
                let blank: bool = match &e.value {
                    Some(s) => s.as_str().is_empty(),
                    None => false,
                };
                if blank {
                    assert(text_of(e.value)->0 =~= Seq::<char>::empty());
                    self.new_rows[i].remove(e.at.col);
                } else {
                    self.new_rows[i].insert(e.at.col, e.value);
                }
                assert(self@.new_rows =~= stage_new_one(before, e));
            }
        }
        assert(all.take(all.len() as int) == all);
    }

    /// Add a new row without values, and give its index among the new rows.
    pub fn add_new_row(&mut self) -> (r: usize)
        ensures
            r == old(self)@.new_rows.len(),
            final(self)@ == (StagedView {
                new_rows: old(self)@.new_rows.push(Map::<usize, Option<String>>::empty()),
                ..old(self)@
            }),
    {
        let r: usize = self.new_rows.len();
        self.new_rows.push(KeyMap::new());
        assert(self@.new_rows =~= old(self)@.new_rows.push(Map::<usize, Option<String>>::empty()));
        r
    }

    /// Add a duplicate of each of these rows, and give the index of the first.
    pub fn add_cloned_rows(&mut self, rs: &ResultSet, model: &EditModel, rows: &Vec<usize>) -> (r:
        usize)
        ensures
            r == old(self)@.new_rows.len(),
            final(self)@ == (StagedView {
                new_rows: old(self)@.new_rows + rows@.map_values(
                    |row: usize| duplicate(*rs, *model, row),
                ),
                ..old(self)@
            }),
    {
        let r: usize = self.new_rows.len();
        let mut i: usize = 0;
        let ghost copies = rows@.map_values(|row: usize| duplicate(*rs, *model, row));
        assert(self@.new_rows =~= old(self)@.new_rows + copies.take(0));
        while i < rows.len()
            invariant
                i <= rows@.len(),
                copies == rows@.map_values(|row: usize| duplicate(*rs, *model, row)),
                self@ == (StagedView {
                    new_rows: old(self)@.new_rows + copies.take(i as int),
                    ..old(self)@
                }),
            decreases rows@.len() - i,
        {
            let row: usize = rows[i];
            let copy: KeyMap<usize, Option<String>> = duplicate_row(rs, model, row);
            let ghost before = self@.new_rows;
            self.new_rows.push(copy);
            proof {
                assert(self@.new_rows =~= before.push(copies[i as int]));
                assert(copies.take(i + 1) =~= copies.take(i as int).push(copies[i as int]));
                assert(self@.new_rows =~= old(self)@.new_rows + copies.take(i + 1));
            }
            i = i + 1;
        }
        assert(copies.take(copies.len() as int) =~= copies);
        r
    }

    /// Turn round whether a data row is to go. Marking it drops its edits: one that is deleted is
    /// not updated as well.
    pub fn toggle_delete(&mut self, row: usize)
        ensures
            final(self)@ == toggled(old(self)@, row),
    {
        if self.del_rows.remove(row) {
            assert(self@.del_rows =~= old(self)@.del_rows.remove(row));
        } else {
            self.del_rows.insert(row, ());
            self.dirty.drop_row(row);
            assert(self@.del_rows =~= old(self)@.del_rows.insert(row));
        }
    }

    /// Mark each of these rows to go, or unmark it; a row that is in that state already is left
    /// alone.
    pub fn set_rows_deleted(&mut self, rows: &Vec<usize>, deleted: bool)
        ensures
            final(self)@ == marked(old(self)@, rows@, deleted),
    {
        let mut i: usize = 0;
        proof {
            let none = rows@.take(0);
            assert(none.to_set() =~= Set::<usize>::empty());
            assert(marked(self@, none, deleted).del_rows =~= self@.del_rows);
            assert(marked(self@, none, deleted).dirty =~= self@.dirty);
        }
        while i < rows.len()
            invariant
                i <= rows@.len(),
                self@ == marked(old(self)@, rows@.take(i as int), deleted),
            decreases rows@.len() - i,
        {
            let row: usize = rows[i];
            let ghost before = self@;
            if self.is_deleted(row) != deleted {
                self.toggle_delete(row);
            }
            proof {
                let s = old(self)@;
                let now = rows@.take(i + 1);
                let was = rows@.take(i as int);
                lemma_taken(rows@, i as int);
                assert(self@.del_rows =~= marked(s, now, deleted).del_rows);
                assert(self@.dirty =~= marked(s, now, deleted).dirty);
            }
            i = i + 1;
        }
        assert(rows@.take(rows@.len() as int) == rows@);
    }

    /// Mark a range of rows to go, or unmark it.
    pub fn mark_range(&mut self, rows: &Vec<usize>, mark: bool)
        ensures
            final(self)@ == range_marked(old(self)@, rows@, mark),
    {
        let mut i: usize = 0;
        proof {
            let none = rows@.take(0);
            assert(none.to_set() =~= Set::<usize>::empty());
            assert(range_marked(self@, none, mark).del_rows =~= self@.del_rows);
            assert(range_marked(self@, none, mark).dirty =~= self@.dirty);
        }
        while i < rows.len()
            invariant
                i <= rows@.len(),
                self@ == range_marked(old(self)@, rows@.take(i as int), mark),
            decreases rows@.len() - i,
        {
            let row: usize = rows[i];
            if mark {
                self.del_rows.insert(row, ());
                self.dirty.drop_row(row);
            } else {
                self.del_rows.remove(row);
            }
            proof {
                let s = old(self)@;
                let now = rows@.take(i + 1);
                let was = rows@.take(i as int);
                lemma_taken(rows@, i as int);
                assert(self@.del_rows =~= range_marked(s, now, mark).del_rows);
                assert(self@.dirty =~= range_marked(s, now, mark).dirty);
            }
            i = i + 1;
        }
        assert(rows@.take(rows@.len() as int) == rows@);
    }

    /// Throw every staged change away.
    pub fn discard(&mut self)
        ensures
            final(self)@ == discarded(old(self)@),
    {
        if self.new_rows.len() > 0 {
            self.new_rows_gen = self.new_rows_gen.wrapping_add(1);
        }
        self.dirty = KeyMap::new();
        self.new_rows = Vec::new();
        self.del_rows = KeyMap::new();
        assert(self@.new_rows =~= Seq::<Map<usize, Option<String>>>::empty());
        assert(self@.del_rows =~= Set::<usize>::empty());
    }

    /// Take back new rows: `count` of them from `first` on, as far as they are there still.
    pub fn remove_pending_rows(&mut self, first: usize, count: usize)
        ensures
            final(self)@ == (StagedView {
                new_rows: without_rows(old(self)@.new_rows, first as int, count as int),
                ..old(self)@
            }),
    {
        let n: usize = self.new_rows.len();
        if first < n {
            if count >= n - first {
                self.new_rows.truncate(first);
                assert(self@.new_rows =~= old(self)@.new_rows.take(first as int));
            } else {
                let mut tail: Vec<KeyMap<usize, Option<String>>> = self.new_rows.split_off(
                    first + count,
                );
                self.new_rows.truncate(first);
                self.new_rows.append(&mut tail);
                assert(self@.new_rows =~= old(self)@.new_rows.take(first as int)
                    + old(self)@.new_rows.skip(first + count));
            }
        }
    }

    /// Take out the edits that were written, and no others: one that was staged while the write
    /// was under way stays.
    pub fn drop_committed(&mut self, committed: &Vec<At>)
        ensures
            final(self)@ == (StagedView {
                dirty: old(self)@.dirty.remove_keys(committed@.to_set()),
                ..old(self)@
            }),
    {
        let mut i: usize = 0;
        proof {
            assert(committed@.take(0).to_set() =~= Set::<At>::empty());
            assert(self@.dirty.remove_keys(committed@.take(0).to_set()) =~= self@.dirty);
        }
        while i < committed.len()
            invariant
                i <= committed@.len(),
                self@ == (StagedView {
                    dirty: old(self)@.dirty.remove_keys(committed@.take(i as int).to_set()),
                    ..old(self)@
                }),
            decreases committed@.len() - i,
        {
            let at: At = committed[i];
            self.dirty.remove(at);
            proof {
                let now = committed@.take(i + 1);
                let was = committed@.take(i as int);
                lemma_taken(committed@, i as int);
                assert(self@.dirty =~= old(self)@.dirty.remove_keys(now.to_set()));
            }
            i = i + 1;
        }
        assert(committed@.take(committed@.len() as int) == committed@);
    }

    /// The places of the edited cells, in order.
    pub fn dirty_places(&self) -> (r: Vec<At>)
        ensures
            r@ == self.dirty.entries().map_values(|e: (At, Option<String>)| e.0),
            r@.to_set() == self@.dirty.dom(),
    {
        let mut out: Vec<At> = Vec::new();
        let n: usize = self.dirty.len();
        let mut i: usize = 0;
        while i < n
            invariant
                i <= n == self.dirty.entries().len(),
                out@ == self.dirty.entries().take(i as int).map_values(
                    |e: (At, Option<String>)| e.0,
                ),
            decreases n - i,
        {
            out.push(self.dirty.entry(i).0);
            i = i + 1;
            assert(self.dirty.entries().take(i as int).map_values(|e: (At, Option<String>)| e.0)
                =~= out@);
        }
        proof {
            let es = self.dirty.entries();
            assert(es.take(n as int) =~= es);
            assert forall|at: At| out@.to_set().contains(at) <==> self@.dirty.dom().contains(at) by {
                if out@.contains(at) {
                    let j = out@.index_of(at);
                    assert(es[j].0 == at);
                }
                if crate::keymap::has_key(es, at) {
                    let j = choose|j: int| 0 <= j < es.len() && (#[trigger] es[j]).0 == at;
                    assert(out@[j] == at);
                }
            }
            assert(out@.to_set() =~= self@.dirty.dom());
        }
        out
    }

    /// How many changes are staged: edited cells, new rows and rows to go.
    pub fn staged_count(&self) -> (r: usize)
        requires
            self@.dirty.dom().len() + self@.new_rows.len() + self@.del_rows.len() <= usize::MAX,
        ensures
            r == self@.dirty.dom().len() + self@.new_rows.len() + self@.del_rows.len(),
            (r == 0) == is_clean(self@),
    {
        let d: usize = self.dirty.len();
        let g: usize = self.del_rows.len();
        proof {
            if is_clean(self@) {
                assert(self@.dirty.dom().len() == 0);
                assert(self@.del_rows.len() == 0);
            }
        }
        d + self.new_rows.len() + g
    }

    /// Whether a data row is to go.
    pub fn is_deleted(&self, row: usize) -> (r: bool)
        ensures
            r == self@.del_rows.contains(row),
    {
        self.del_rows.contains(row)
    }
}

/// A cell that is given back what it held is edited no longer, and one that is given anything
/// else is.
pub proof fn the_original_unstages(rs: ResultSet, dirty: Map<At, Option<String>>, e: CellEdit)
    ensures
        stage_one(rs, dirty, e).dom().contains(e.at) <==> text_of(e.value) != text_of(
            original(rs, e.at),
        ),
        forall|at: At|
            at != e.at ==> (stage_one(rs, dirty, e).dom().contains(at) <==> dirty.dom().contains(
                at,
            )),
{
}

/// However a row is marked, no row that is to go keeps an edit.
pub proof fn marking_drops_edits(s: StagedView, row: usize, rows: Seq<usize>, deleted: bool)
    requires
        no_edit_on_deleted(s),
    ensures
        no_edit_on_deleted(toggled(s, row)),
        no_edit_on_deleted(marked(s, rows, deleted)),
        no_edit_on_deleted(range_marked(s, rows, deleted)),
        no_edit_on_deleted(discarded(s)),
{
    assert forall|at: At| #[trigger]
        range_marked(s, rows, deleted).dirty.dom().contains(at) implies !range_marked(
        s,
        rows,
        deleted,
    ).del_rows.contains(at.row) by {
        assert(s.dirty.dom().contains(at));
    }
    assert forall|at: At| #[trigger]
        marked(s, rows, deleted).dirty.dom().contains(at) implies !marked(
        s,
        rows,
        deleted,
    ).del_rows.contains(at.row) by {
        assert(s.dirty.dom().contains(at));
    }
    assert forall|at: At| #[trigger] toggled(s, row).dirty.dom().contains(at) implies !toggled(
        s,
        row,
    ).del_rows.contains(at.row) by {
        assert(s.dirty.dom().contains(at));
    }
}

/// An edit of a row that stays leaves no edit on a row that is to go.
pub proof fn editing_kept_rows_is_safe(rs: ResultSet, s: StagedView, edits: Seq<CellEdit>)
    requires
        no_edit_on_deleted(s),
        forall|i: int| 0 <= i < edits.len() ==> !s.del_rows.contains((#[trigger] edits[i]).at.row),
    ensures
        no_edit_on_deleted(StagedView { dirty: stage_all(rs, s.dirty, edits), ..s }),
    decreases edits.len(),
{
    if edits.len() > 0 {
        editing_kept_rows_is_safe(rs, s, edits.drop_last());
        let before = StagedView { dirty: stage_all(rs, s.dirty, edits.drop_last()), ..s };
        let last = edits[edits.len() - 1];
        assert(last == edits.last());
        assert forall|at: At| #[trigger]
            stage_all(rs, s.dirty, edits).dom().contains(at) implies !s.del_rows.contains(
            at.row,
        ) by {
            if at != last.at {
                assert(before.dirty.dom().contains(at));
            }
        }
    }
}

/// Marking a row and unmarking it leaves the rows that are to go as they were; its edits are gone.
pub proof fn unmarking_returns(s: StagedView, row: usize)
    requires
        !s.del_rows.contains(row),
    ensures
        toggled(toggled(s, row), row) == (StagedView { dirty: without_row(s.dirty, row), ..s }),
{
    assert(s.del_rows.insert(row).remove(row) =~= s.del_rows);
}

/// A range of rows is driven to one state: where one was not marked all are, and where all were
/// none is.
pub proof fn a_range_is_driven_to_one_state(s: StagedView, rows: Seq<usize>, i: int)
    requires
        0 <= i < rows.len(),
    ensures
        range_marked(
            s,
            rows,
            crate::selection::some_unmarked(s.del_rows, rows),
        ).del_rows.contains(rows[i]) == crate::selection::some_unmarked(s.del_rows, rows),
{
    assert(rows.contains(rows[i]));
    assert(rows.to_set().contains(rows[i]));
}

/// A new row that duplicates a row of the result.
fn duplicate_row(rs: &ResultSet, model: &EditModel, row: usize) -> (r: KeyMap<
    usize,
    Option<String>,
>)
    ensures
        r@ == duplicate(*rs, *model, row),
{
    let mut map: KeyMap<usize, Option<String>> = KeyMap::new();
    let mut ci: usize = 0;
    while ci < rs.columns.len()
        invariant
            ci <= rs.columns@.len(),
            forall|c: usize|
                #[trigger] map@.dom().contains(c) <==> c < ci && is_copied(
                    *rs,
                    *model,
                    row as int,
                    c as int,
                ),
            forall|c: usize|
                #[trigger] map@.dom().contains(c) ==> map@[c] == original(
                    *rs,
                    At { row, col: c },
                ),
        decreases rs.columns@.len() - ci,
    {
        let auto: bool = match &rs.columns[ci].origin {
            Some(o) => o.auto_increment,
            None => false,
        };
        if model.editable(ci) && !auto && rs.cell(row, ci).is_some() {
            map.insert(ci, original_of(rs, At { row, col: ci }));
        }
        ci = ci + 1;
    }
    assert(map@ =~= duplicate(*rs, *model, row));
    map
}

/// Whether a cell of the result holds this value: its text, or none where it is not there or null.
pub open spec fn cell_holds(rs: ResultSet, at: At, v: Option<String>) -> bool {
    let row = at.row as int;
    let col = at.col as int;
    let there = row < rs.rows@.len() && col < rs.rows@[row]@.len() && rs.rows@[row]@[col].tag
        != CellTag::Null;
    match v {
        Some(t) => there && rs.rows@[row]@[col].text@ == t@,
        None => !there,
    }
}

/// What is staged for a cell is what was last given to it, as it was given: an empty text is a text,
/// and no value is none. Only what the cell holds already is not staged.
pub proof fn an_edit_is_staged_as_it_was_given(
    rs: ResultSet,
    dirty: Map<At, Option<String>>,
    edits: Seq<CellEdit>,
    i: int,
)
    requires
        0 <= i < edits.len(),
        forall|j: int| i < j < edits.len() ==> (#[trigger] edits[j]).at != edits[i].at,
    ensures
        stage_all(rs, dirty, edits).dom().contains(edits[i].at) <==> !cell_holds(
            rs,
            edits[i].at,
            edits[i].value,
        ),
        !cell_holds(rs, edits[i].at, edits[i].value) ==> stage_all(rs, dirty, edits)[edits[i].at]
            == edits[i].value,
    decreases edits.len(),
{
    let front = edits.drop_last();
    if i < edits.len() - 1 {
        assert(edits[edits.len() - 1].at != edits[i].at);
        assert forall|j: int| i < j < front.len() implies (#[trigger] front[j]).at != front[i].at by {
            assert(edits[j].at != edits[i].at);
        }
        an_edit_is_staged_as_it_was_given(rs, dirty, front, i);
    }
}

/// A cell that is not among the edits keeps what was staged for it.
pub proof fn other_cells_keep_what_is_staged(
    rs: ResultSet,
    dirty: Map<At, Option<String>>,
    edits: Seq<CellEdit>,
    at: At,
)
    requires
        forall|j: int| 0 <= j < edits.len() ==> (#[trigger] edits[j]).at != at,
    ensures
        stage_all(rs, dirty, edits).dom().contains(at) <==> dirty.dom().contains(at),
        dirty.dom().contains(at) ==> stage_all(rs, dirty, edits)[at] == dirty[at],
    decreases edits.len(),
{
    if edits.len() > 0 {
        let front = edits.drop_last();
        assert(edits[edits.len() - 1].at != at);
        assert forall|j: int| 0 <= j < front.len() implies (#[trigger] front[j]).at != at by {
            assert(edits[j].at != at);
        }
        other_cells_keep_what_is_staged(rs, dirty, front, at);
    }
}

/// A cell of a new row holds what was last given to it; an empty text takes its value away, so that
/// the server fills it in, and no value is kept as none.
pub proof fn a_new_row_holds_what_was_given(
    rows: Seq<Map<usize, Option<String>>>,
    edits: Seq<CellEdit>,
    i: int,
)
    requires
        0 <= i < edits.len(),
        edits[i].at.row < rows.len(),
        forall|j: int| i < j < edits.len() ==> (#[trigger] edits[j]).at != edits[i].at,
    ensures
        ({
            let row = stage_new_all(rows, edits)[edits[i].at.row as int];
            let blank = edits[i].value is Some && edits[i].value->0@.len() == 0;
            &&& row.dom().contains(edits[i].at.col) <==> !blank
            &&& !blank ==> row[edits[i].at.col] == edits[i].value
        }),
    decreases edits.len(),
{
    let front = edits.drop_last();
    new_rows_keep_their_number(rows, front);
    if i < edits.len() - 1 {
        let last = edits[edits.len() - 1];
        assert(last.at != edits[i].at);
        assert forall|j: int| i < j < front.len() implies (#[trigger] front[j]).at != front[i].at by {
            assert(edits[j].at != edits[i].at);
        }
        a_new_row_holds_what_was_given(rows, front, i);
    } else {
        let e = edits[i];
        if e.value is Some && e.value->0@.len() == 0 {
            assert(e.value->0@ =~= Seq::<char>::empty());
        }
    }
}

/// Edits of the new rows leave as many of them.
pub proof fn new_rows_keep_their_number(rows: Seq<Map<usize, Option<String>>>, edits: Seq<CellEdit>)
    ensures
        stage_new_all(rows, edits).len() == rows.len(),
    decreases edits.len(),
{
    if edits.len() > 0 {
        new_rows_keep_their_number(rows, edits.drop_last());
    }
}

/// A cell of a new row that is not among the edits stays as it was.
pub proof fn other_cells_of_new_rows_stay(
    rows: Seq<Map<usize, Option<String>>>,
    edits: Seq<CellEdit>,
    at: At,
)
    requires
        at.row < rows.len(),
        forall|j: int| 0 <= j < edits.len() ==> (#[trigger] edits[j]).at != at,
    ensures
        stage_new_all(rows, edits)[at.row as int].dom().contains(at.col)
            <==> rows[at.row as int].dom().contains(at.col),
        rows[at.row as int].dom().contains(at.col) ==> stage_new_all(
            rows,
            edits,
        )[at.row as int][at.col] == rows[at.row as int][at.col],
    decreases edits.len(),
{
    if edits.len() > 0 {
        let front = edits.drop_last();
        new_rows_keep_their_number(rows, front);
        assert(edits[edits.len() - 1].at != at);
        assert forall|j: int| 0 <= j < front.len() implies (#[trigger] front[j]).at != at by {
            assert(edits[j].at != at);
        }
        other_cells_of_new_rows_stay(rows, front, at);
    }
}

/// Turning a row's mark round turns that row's alone. A row that is marked loses its edits; no other
/// edit and no new row is touched.
pub proof fn a_toggle_turns_one_row(s: StagedView, row: usize, r: usize, at: At)
    ensures
        r != row ==> (toggled(s, row).del_rows.contains(r) <==> s.del_rows.contains(r)),
        toggled(s, row).del_rows.contains(row) <==> !s.del_rows.contains(row),
        toggled(s, row).dirty.dom().contains(at) <==> s.dirty.dom().contains(at) && (at.row != row
            || s.del_rows.contains(row)),
        toggled(s, row).dirty.dom().contains(at) ==> toggled(s, row).dirty[at] == s.dirty[at],
        toggled(s, row).new_rows == s.new_rows,
        toggled(s, row).new_rows_gen == s.new_rows_gen,
{
}

/// Marking rows, or unmarking them, is about those rows alone. Rows that are newly marked lose their
/// edits; a row that is unmarked and every other row keep theirs.
pub proof fn marks_are_about_their_rows(s: StagedView, rows: Seq<usize>, mark: bool, r: usize, at: At)
    ensures
        marked(s, rows, mark).del_rows.contains(r) <==> if rows.contains(r) {
            mark
        } else {
            s.del_rows.contains(r)
        },
        range_marked(s, rows, mark).del_rows.contains(r) <==> if rows.contains(r) {
            mark
        } else {
            s.del_rows.contains(r)
        },
        marked(s, rows, mark).dirty.dom().contains(at) <==> s.dirty.dom().contains(at) && !(mark
            && rows.contains(at.row) && !s.del_rows.contains(at.row)),
        range_marked(s, rows, mark).dirty.dom().contains(at) <==> s.dirty.dom().contains(at) && !(mark
            && rows.contains(at.row)),
        marked(s, rows, mark).dirty.dom().contains(at) ==> marked(s, rows, mark).dirty[at]
            == s.dirty[at],
        range_marked(s, rows, mark).dirty.dom().contains(at) ==> range_marked(
            s,
            rows,
            mark,
        ).dirty[at] == s.dirty[at],
        marked(s, rows, mark).new_rows == s.new_rows,
        range_marked(s, rows, mark).new_rows == s.new_rows,
        marked(s, rows, mark).new_rows_gen == s.new_rows_gen,
        range_marked(s, rows, mark).new_rows_gen == s.new_rows_gen,
{
    assert(rows.to_set().contains(r) <==> rows.contains(r));
}

/// Discarding leaves nothing staged, and tells new rows that are thrown away from any that follow.
pub proof fn discarding_leaves_nothing(s: StagedView, at: At, row: usize)
    ensures
        !discarded(s).dirty.dom().contains(at),
        !discarded(s).del_rows.contains(row),
        discarded(s).new_rows.len() == 0,
        discarded(s).new_rows_gen == s.new_rows_gen <==> s.new_rows.len() == 0,
{
}

/// New rows that are taken out are those of the range and no others: the rows before it stay where
/// they are, and those behind it move up.
pub proof fn rows_behind_the_range_move_up<T>(rows: Seq<T>, first: int, count: int)
    requires
        0 <= first,
        0 <= count,
    ensures
        without_rows(rows, first, count).len() == if rows.len() <= first {
            rows.len() as int
        } else if rows.len() <= first + count {
            first
        } else {
            rows.len() - count
        },
        forall|i: int|
            0 <= i < first && i < rows.len() ==> #[trigger] without_rows(rows, first, count)[i]
                == rows[i],
        forall|i: int|
            first <= i && i + count < rows.len() ==> #[trigger] without_rows(rows, first, count)[i]
                == rows[i + count],
{
}

/// A duplicate holds what the row holds, in the columns that can be edited and that the server does
/// not number itself, and nothing else.
pub proof fn a_duplicate_holds_what_the_row_holds(rs: ResultSet, model: EditModel, row: usize, ci: usize)
    ensures
        ({
            let copy = duplicate(rs, model, row);
            let numbers_itself = ci < rs.columns@.len() && rs.columns@[ci as int].origin is Some
                && rs.columns@[ci as int].origin->0.auto_increment;
            &&& copy.dom().contains(ci) <==> {
                &&& ci < rs.columns@.len()
                &&& ci < model.editable@.len()
                &&& model.editable@[ci as int]
                &&& !numbers_itself
                &&& row < rs.rows@.len()
                &&& ci < rs.rows@[row as int]@.len()
            }
            &&& copy.dom().contains(ci) ==> cell_holds(rs, At { row, col: ci }, copy[ci])
        }),
{
}

/// Staged changes are seen as they are held: the edits, the new rows in order, and the marked rows.
pub proof fn changes_are_seen_as_they_are_held(s: Staged, i: int, row: usize)
    ensures
        s@.dirty == s.dirty@,
        s@.new_rows.len() == s.new_rows@.len(),
        0 <= i < s.new_rows@.len() ==> s@.new_rows[i] == s.new_rows@[i]@,
        s@.del_rows.contains(row) <==> s.del_rows@.dom().contains(row),
        s@.new_rows_gen == s.new_rows_gen,
{
}

/// Nothing is staged where there is no edit, no new row and no marked row.
pub proof fn nothing_staged_is_nothing_to_write(s: StagedView, at: At, row: usize)
    ensures
        is_clean(s) ==> !s.dirty.dom().contains(at) && s.new_rows.len() == 0 && !s.del_rows.contains(row),
        (forall|a: At| !#[trigger] s.dirty.dom().contains(a)) && s.new_rows.len() == 0 && (forall|r: usize|
            !#[trigger] s.del_rows.contains(r)) ==> is_clean(s),
{
    if is_clean(s) {
        assert(!Set::<At>::empty().contains(at));
        assert(s.dirty.dom() == Set::<At>::empty());
        assert(s.del_rows == Set::<usize>::empty());
    }
}

} // verus!
