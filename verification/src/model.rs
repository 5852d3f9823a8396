//! The plain values the grid works on: a result set and where its columns come from.

use vstd::prelude::*;

verus! {

/// What kind of value a cell was read as.
#[derive(Clone, Copy, Debug, PartialEq, Eq, Structural)]
pub enum CellTag {
    Null,
    Int,
    UInt,
    Float,
    Str,
    Bytes,
    Date,
    Time,
}

/// Where a cell's number stands among the other numbers, for a cell that was read as one.
///
/// `At` holds an integer that orders as the number does. `Unordered` is a number that compares
/// equal to every other, and `Absent` a cell that is compared by its text.
#[derive(Clone, Copy, Debug, PartialEq, Eq, Structural)]
pub enum Number {
    Absent,
    Unordered,
    At(i64),
}

/// One cell of a result: its kind, its text, and its number where it has one.
#[derive(Debug)]
pub struct Cell {
    pub tag: CellTag,
    pub text: String,
    pub number: Number,
}

impl Cell {
    /// Whether the cell holds no value.
    pub fn is_null(&self) -> (r: bool)
        ensures
            r == (self.tag == CellTag::Null),
    {
        self.tag == CellTag::Null
    }

    /// The number a sort compares the cell by: only a cell that was read as a number has one.
    pub open spec fn sort_number(self) -> Number {
        match self.tag {
            CellTag::Int | CellTag::UInt | CellTag::Float => self.number,
            _ => Number::Absent,
        }
    }

    /// The number a sort compares the cell by. A text that merely looks like a number is
    /// compared as text.
    pub fn cell_num(&self) -> (r: Number)
        ensures
            r == self.sort_number(),
    {
        match self.tag {
            CellTag::Int | CellTag::UInt | CellTag::Float => self.number,
            _ => Number::Absent,
        }
    }
}

/// The base-table column that a result column was read from.
#[derive(Debug)]
pub struct Origin {
    pub database: String,
    pub schema: Option<String>,
    pub table: String,
    pub column: String,
    pub auto_increment: bool,
    pub not_null: bool,
    pub no_default: bool,
}

/// One column of a result.
#[derive(Debug)]
pub struct Column {
    pub name: String,
    pub sql_type: String,
    pub numeric: bool,
    pub origin: Option<Origin>,
}

/// A result: its columns, its rows, and how it came to be.
#[derive(Debug)]
pub struct ResultSet {
    pub columns: Vec<Column>,
    pub rows: Vec<Vec<Cell>>,
    pub affected: Option<u64>,
    pub elapsed_ms: u128,
    pub truncated: bool,
}

impl ResultSet {
    /// Whether there is a cell at this place.
    pub open spec fn has_cell(self, row: int, col: int) -> bool {
        0 <= row < self.rows@.len() && 0 <= col < self.rows@[row]@.len()
    }

    /// The number of rows.
    pub fn row_count(&self) -> (r: usize)
        ensures
            r == self.rows@.len(),
    {
        self.rows.len()
    }

    /// The number of columns.
    pub fn col_count(&self) -> (r: usize)
        ensures
            r == self.columns@.len(),
    {
        self.columns.len()
    }

    /// The cell at this place, where there is one.
    pub fn cell(&self, row: usize, col: usize) -> (r: Option<&Cell>)
        ensures
            r is Some <==> self.has_cell(row as int, col as int),
            r matches Some(c) ==> *c == self.rows@[row as int]@[col as int],
    {
        if row < self.rows.len() && col < self.rows[row].len() {
            Some(&self.rows[row][col])
        } else {
            None
        }
    }
}

/// A row of a result as it was read again.
pub struct FreshRow {
    pub row: usize,
    pub cells: Vec<Cell>,
}

/// The rows of a result after some were read again; one that is not there is left out.
pub open spec fn with_fresh(rows: Seq<Vec<Cell>>, fresh: Seq<FreshRow>) -> Seq<Vec<Cell>>
    decreases fresh.len(),
{
    if fresh.len() == 0 {
        rows
    } else {
        let before = with_fresh(rows, fresh.drop_last());
        let f = fresh.last();
        if f.row < before.len() {
            before.update(f.row as int, f.cells)
        } else {
            before
        }
    }
}

impl ResultSet {
    /// Put rows that were read again in their places.
    pub fn splice_rows(&mut self, fresh: Vec<FreshRow>)
        ensures
            final(self).rows@ == with_fresh(old(self).rows@, fresh@),
            *final(self) == (ResultSet { rows: final(self).rows, ..*old(self) }),
    {
        let ghost all = fresh@;
        for f in it: fresh
            invariant
                it.seq() == all,
                self.rows@ == with_fresh(old(self).rows@, all.take(it.index())),
                *self == (ResultSet { rows: self.rows, ..*old(self) }),
        {
            proof {
                assert(all.take(it.index() + 1).drop_last() == all.take(it.index()));
                assert(all.take(it.index() + 1).last() == f);
            }
            if f.row < self.rows.len() {
                self.rows.set(f.row, f.cells);
            }
        }
        assert(all.take(all.len() as int) == all);
    }
}

/// A result column's own name on its base table; empty for a column that no table holds.
pub open spec fn origin_name(rs: ResultSet, ci: int) -> Seq<char> {
    if 0 <= ci < rs.columns@.len() && rs.columns@[ci].origin is Some {
        rs.columns@[ci].origin->0.column@
    } else {
        Seq::empty()
    }
}

/// A result column's own name on its base table; empty for an expression, which is never
/// written to.
pub fn origin_column(rs: &ResultSet, ci: usize) -> (r: String)
    ensures
        r@ == origin_name(*rs, ci as int),
{
    if ci < rs.columns.len() {
        match &rs.columns[ci].origin {
            Some(o) => o.column.clone(),
            None => String::new(),
        }
    } else {
        String::new()
    }
}

/// A base table that a result can be written back to: where it is, and the result columns that
/// tell its rows apart.
#[derive(Debug)]
pub struct EditTable {
    pub database: String,
    pub schema: Option<String>,
    pub table: String,
    pub key_cols: Vec<usize>,
}

/// What of a result can be written back.
///
/// `table_of` gives each result column the base table it is written to, by its index in
/// `tables`; `target` is the one table that rows can be inserted into and deleted from.
#[derive(Debug)]
pub struct EditModel {
    pub tables: Vec<EditTable>,
    pub table_of: Vec<Option<usize>>,
    pub editable: Vec<bool>,
    pub target: Option<usize>,
}

impl EditModel {
    /// Whether a column can be edited.
    pub open spec fn can_edit(self, ci: int) -> bool {
        0 <= ci < self.editable@.len() && self.editable@[ci]
    }

    /// The table that a column is written to.
    pub open spec fn table_at(self, ci: int) -> Option<usize> {
        if 0 <= ci < self.table_of@.len() {
            self.table_of@[ci]
        } else {
            None
        }
    }

    /// The table that rows are inserted into and deleted from, where the result has one.
    pub open spec fn row_target(self) -> Option<EditTable> {
        match self.target {
            Some(ti) => if ti < self.tables@.len() {
                Some(self.tables@[ti as int])
            } else {
                None
            },
            None => None,
        }
    }

    /// Whether nothing can be written back: there is no table, no column that can be edited or is
    /// written anywhere, and no table for rows.
    pub open spec fn allows_nothing(self) -> bool {
        &&& self.tables@.len() == 0
        &&& self.table_of@.len() == 0
        &&& self.editable@.len() == 0
        &&& self.target is None
    }

    /// Nothing can be written back: what a read-only connection allows.
    pub fn none() -> (r: EditModel)
        ensures
            r.allows_nothing(),
    {
        EditModel { tables: Vec::new(), table_of: Vec::new(), editable: Vec::new(), target: None }
    }

    /// Whether a column can be edited.
    pub fn editable(&self, ci: usize) -> (r: bool)
        ensures
            r == self.can_edit(ci as int),
    {
        ci < self.editable.len() && self.editable[ci]
    }

    /// The table that a column is written to.
    pub fn table_index(&self, ci: usize) -> (r: Option<usize>)
        ensures
            r == self.table_at(ci as int),
    {
        if ci < self.table_of.len() {
            self.table_of[ci]
        } else {
            None
        }
    }

    /// A table by its index.
    pub fn table(&self, ti: usize) -> (r: Option<&EditTable>)
        ensures
            r is Some <==> ti < self.tables@.len(),
            r matches Some(t) ==> *t == self.tables@[ti as int],
    {
        if ti < self.tables.len() {
            Some(&self.tables[ti])
        } else {
            None
        }
    }

    /// The table that rows are inserted into and deleted from, where the result has one.
    pub fn insert_target(&self) -> (r: Option<&EditTable>)
        ensures
            r is Some <==> self.row_target() is Some,
            r matches Some(t) ==> *t == self.row_target()->0,
    {
        match self.target {
            Some(ti) => self.table(ti),
            None => None,
        }
    }
}

/// A row that was read again stands in its own place, the last reading of it where there are several;
/// every other row stays as it was, and no row comes or goes.
pub proof fn fresh_rows_stand_in_their_own_places(rows: Seq<Vec<Cell>>, fresh: Seq<FreshRow>)
    ensures
        with_fresh(rows, fresh).len() == rows.len(),
        forall|i: int|
            0 <= i < fresh.len() && (#[trigger] fresh[i]).row < rows.len() && (forall|j: int|
                i < j < fresh.len() ==> (#[trigger] fresh[j]).row != fresh[i].row) ==> with_fresh(
                rows,
                fresh,
            )[fresh[i].row as int] == fresh[i].cells,
        forall|r: int|
            0 <= r < rows.len() && (forall|j: int|
                0 <= j < fresh.len() ==> (#[trigger] fresh[j]).row != r) ==> #[trigger] with_fresh(
                rows,
                fresh,
            )[r] == rows[r],
    decreases fresh.len(),
{
    if fresh.len() > 0 {
        let front = fresh.drop_last();
        fresh_rows_stand_in_their_own_places(rows, front);
        let before = with_fresh(rows, front);
        let last = fresh.len() - 1;
        assert forall|i: int|
            0 <= i < fresh.len() && (#[trigger] fresh[i]).row < rows.len() && (forall|j: int|
                i < j < fresh.len() ==> (#[trigger] fresh[j]).row != fresh[i].row) implies with_fresh(
            rows,
            fresh,
        )[fresh[i].row as int] == fresh[i].cells by {
            if i < last {
                assert(fresh[last].row != fresh[i].row);
                assert(front[i] == fresh[i]);
                assert forall|j: int| i < j < front.len() implies (#[trigger] front[j]).row
                    != front[i].row by {
                    assert(fresh[j].row != fresh[i].row);
                }
                assert(before[front[i].row as int] == front[i].cells);
            }
        }
        assert forall|r: int|
            0 <= r < rows.len() && (forall|j: int|
                0 <= j < fresh.len() ==> (#[trigger] fresh[j]).row != r) implies #[trigger] with_fresh(
            rows,
            fresh,
        )[r] == rows[r] by {
            assert forall|j: int| 0 <= j < front.len() implies (#[trigger] front[j]).row != r by {
                assert(fresh[j].row != r);
            }
            assert(fresh[last].row != r);
            assert(before[r] == rows[r]);
        }
    }
}

/// Nothing can be edited, inserted or looked up where nothing may be written back.
pub proof fn nothing_allowed_is_nothing_editable(m: EditModel, ci: int)
    requires
        m.allows_nothing(),
    ensures
        !m.can_edit(ci),
        m.table_at(ci) is None,
        m.row_target() is None,
        m.tables@.len() == 0,
{
}

/// A column can be edited where the model says so, belongs to the table that the model names, and rows
/// go into the model's own table.
pub proof fn the_model_says_what_can_be_written(m: EditModel, ci: int)
    ensures
        0 <= ci < m.editable@.len() ==> m.can_edit(ci) == m.editable@[ci],
        ci < 0 || ci >= m.editable@.len() ==> !m.can_edit(ci),
        0 <= ci < m.table_of@.len() ==> m.table_at(ci) == m.table_of@[ci],
        ci < 0 || ci >= m.table_of@.len() ==> m.table_at(ci) is None,
        m.target is Some && m.target->0 < m.tables@.len() ==> m.row_target() == Some(
            m.tables@[m.target->0 as int],
        ),
        m.target is None || m.target->0 >= m.tables@.len() ==> m.row_target() is None,
{
}

/// A cell that is no number is not compared as one, whatever it carries.
pub proof fn only_numbers_are_compared_as_numbers(c: Cell)
    ensures
        c.tag == CellTag::Int || c.tag == CellTag::UInt || c.tag == CellTag::Float ==> c.sort_number()
            == c.number,
        c.tag != CellTag::Int && c.tag != CellTag::UInt && c.tag != CellTag::Float ==> c.sort_number()
            == Number::Absent,
{
}

} // verus!
