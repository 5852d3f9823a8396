//! Filtering and sorting a result on the server.

use vstd::prelude::*;
use crate::bars::Bar;
use crate::model::ResultSet;
use crate::state::{GridQuery, GridState, SortBy};
use crate::text::{trim, trimmed};

verus! {

/// What became of the statement a result came from, with the user's filter and sort put in: a
/// statement to run, one that they cannot be put in, or a condition that is wrong.
pub enum Rewrite {
    Run(String),
    NotSimple,
    BadCondition(String),
}

/// A result column's own name on its base table, where it has one.
pub open spec fn real_name(rs: ResultSet, ci: int) -> Option<String> {
    if 0 <= ci < rs.columns@.len() {
        match rs.columns@[ci].origin {
            Some(o) => Some(o.column),
            None => None,
        }
    } else {
        None
    }
}

/// A filter with one more condition that has to hold.
pub open spec fn with_condition(filter: Seq<char>, cond: Seq<char>) -> Seq<char> {
    if trim(filter).len() == 0 {
        cond
    } else {
        trim(filter) + " AND "@ + cond
    }
}

/// The sort after a click on a column of this name: ascending, then descending, then none. Any
/// other sort gives way.
pub open spec fn next_server_sort(sort: Seq<SortBy>, col: Seq<char>) -> Option<bool> {
    if sort.len() > 0 && sort[0].column@ == col {
        if sort[0].asc {
            Some(false)
        } else {
            None
        }
    } else {
        Some(true)
    }
}

/// Whether the server sorts by a column of this name, and which way: as its first mention says.
pub open spec fn sort_dir(sort: Seq<SortBy>, col: Seq<char>) -> Option<bool>
    decreases sort.len(),
{
    if sort.len() == 0 {
        None
    } else if sort[0].column@ == col {
        Some(sort[0].asc)
    } else {
        sort_dir(sort.drop_first(), col)
    }
}

impl GridState {
    /// Whether the result can be filtered and sorted on the server: its statement is known, and it
    /// came from one table that can be written to.
    pub open spec fn is_filterable(self) -> bool {
        self.query.base_sql is Some && self.model.row_target() is Some
    }

    /// Whether the result can be filtered and sorted on the server.
    pub fn filterable(&self) -> (r: bool)
        ensures
            r == self.is_filterable(),
    {
        self.query.base_sql.is_some() && self.model.insert_target().is_some()
    }

    /// A result column's own name on its base table, where it has one.
    pub fn real_col(&self, ci: usize) -> (r: Option<String>)
        ensures
            r == real_name(self.rs, ci as int),
    {
        if ci < self.rs.columns.len() {
            match &self.rs.columns[ci].origin {
                Some(o) => Some(o.column.clone()),
                None => None,
            }
        } else {
            None
        }
    }

    /// The statement to run for the filter and the sort, given what they made of the one the
    /// result came from. One that they cannot be put in, and a condition that is wrong, go on the
    /// bar.
    pub fn apply_grid_query(&mut self, rewrite: Rewrite) -> (r: Option<String>)
        ensures
            old(self).query.base_sql is None ==> r is None && *final(self) == *old(self),
            old(self).query.base_sql is Some ==> match rewrite {
                Rewrite::Run(sql) => r == Some(sql) && *final(self) == *old(self),
                Rewrite::NotSimple => {
                    &&& r is None
                    &&& final(self).bar.view_err is Some
                    &&& final(self).bar.view_err->0@
                        == "Can't filter this query — not a simple single-table SELECT"@
                    &&& *final(self) == (GridState {
                        bar: Bar { view_err: final(self).bar.view_err, ..old(self).bar },
                        ..*old(self)
                    })
                },
                Rewrite::BadCondition(msg) => r is None && *final(self) == (GridState {
                    bar: Bar { view_err: Some(msg), ..old(self).bar },
                    ..*old(self)
                }),
            },
    {
        if self.query.base_sql.is_none() {
            return None;
        }
        match rewrite {
            Rewrite::Run(sql) => Some(sql),
            Rewrite::NotSimple => {
                self.bar.view_err = Some(
                    "Can't filter this query — not a simple single-table SELECT".to_owned(),
                );
                None
            },
            Rewrite::BadCondition(msg) => {
                self.bar.view_err = Some(msg);
                None
            },
        }
    }

    /// Add a condition on a column to the filter. A column that no table holds has no condition.
    pub fn add_filter_condition(&mut self, ci: usize, cond: &str) -> (r: bool)
        ensures
            r == (real_name(old(self).rs, ci as int) is Some),
            !r ==> *final(self) == *old(self),
            r ==> {
                &&& final(self).query.filter@ == with_condition(old(self).query.filter@, cond@)
                &&& *final(self) == (GridState {
                    query: GridQuery { filter: final(self).query.filter, ..old(self).query },
                    ..*old(self)
                })
            },
    {
        if self.real_col(ci).is_none() {
            return false;
        }
        let mut next: String = trimmed(self.query.filter.as_str());
        if next.as_str().is_empty() {
            next = cond.to_owned();
        } else {
            next.append(" AND ");
            next.append(cond);
        }
        self.query.filter = next;
        true
    }

    /// Cycle the server's sort on a column: ascending, descending, none, in place of any other. A
    /// column that no table holds is not sorted by.
    pub fn cycle_server_sort(&mut self, ci: usize) -> (r: bool)
        ensures
            r == (real_name(old(self).rs, ci as int) is Some),
            !r ==> *final(self) == *old(self),
            real_name(old(self).rs, ci as int) matches Some(col) ==> {
                &&& *final(self) == (GridState {
                    query: GridQuery { sort: final(self).query.sort, ..old(self).query },
                    ..*old(self)
                })
                &&& match next_server_sort(old(self).query.sort@, col@) {
                    None => final(self).query.sort@.len() == 0,
                    Some(asc) => final(self).query.sort@ == seq![(SortBy { column: col, asc })],
                }
            },
    {
        let col: String = match self.real_col(ci) {
            Some(c) => c,
            None => return false,
        };
        let next: Option<bool> = if self.query.sort.len() > 0 && self.query.sort[0].column == col {
            if self.query.sort[0].asc {
                Some(false)
            } else {
                None
            }
        } else {
            Some(true)
        };
        let mut sort: Vec<SortBy> = Vec::new();
        if let Some(asc) = next {
            sort.push(SortBy { column: col, asc });
        }
        self.query.sort = sort;
        true
    }

    /// Whether the server sorts by a column, and which way.
    pub fn server_sort_dir(&self, ci: usize) -> (r: Option<bool>)
        ensures
            r == match real_name(self.rs, ci as int) {
                Some(col) => sort_dir(self.query.sort@, col@),
                None => None,
            },
    {
        let col: String = match self.real_col(ci) {
            Some(c) => c,
            None => return None,
        };
        let mut i: usize = 0;
        assert(self.query.sort@.skip(0) == self.query.sort@);
        while i < self.query.sort.len()
            invariant
                i <= self.query.sort@.len(),
                sort_dir(self.query.sort@, col@) == sort_dir(
                    self.query.sort@.skip(i as int),
                    col@,
                ),
                real_name(self.rs, ci as int) == Some(col),
            decreases self.query.sort@.len() - i,
        {
            assert(self.query.sort@.skip(i as int).drop_first() == self.query.sort@.skip(i + 1));
            if self.query.sort[i].column == col {
                return Some(self.query.sort[i].asc);
            }
            i = i + 1;
        }
        None
    }
}

impl GridState {
    /// Filter by what the filter's field holds, without the white space around it.
    pub fn set_filter(&mut self, text: &str)
        ensures
            final(self).query.filter@ == trim(text@),
            *final(self) == (GridState {
                query: GridQuery { filter: final(self).query.filter, ..old(self).query },
                ..*old(self)
            }),
    {
        self.query.filter = trimmed(text);
    }

    /// Take the filter away, and what the bar says of it.
    pub fn clear_filter(&mut self)
        ensures
            final(self).query.filter@.len() == 0,
            *final(self) == (GridState {
                query: GridQuery { filter: final(self).query.filter, ..old(self).query },
                bar: Bar { view_err: None, ..old(self).bar },
                ..*old(self)
            }),
    {
        self.query.filter = String::new();
        self.bar.view_err = None;
    }

    /// Whether a filter is set, so that it can be cleared.
    pub fn is_filtered(&self) -> (r: bool)
        ensures
            r == (trim(self.query.filter@).len() > 0),
    {
        !trimmed(self.query.filter.as_str()).as_str().is_empty()
    }
}

/// From an unsorted result, three clicks on a column lead through ascending and descending back to
/// the unsorted result.
pub proof fn three_server_clicks_return(col: String, sort: Seq<SortBy>)
    requires
        sort.len() == 0,
    ensures
        next_server_sort(sort, col@) == Some(true),
        next_server_sort(seq![SortBy { column: col, asc: true }], col@) == Some(false),
        next_server_sort(seq![SortBy { column: col, asc: false }], col@) is None,
        sort_dir(seq![SortBy { column: col, asc: true }], col@) == Some(true),
{
}

/// A condition that is added is kept behind the others, which are all kept; a filter that was blank is
/// the condition alone.
pub proof fn a_condition_keeps_the_others(filter: Seq<char>, cond: Seq<char>)
    ensures
        trim(filter).len() == 0 ==> with_condition(filter, cond) == cond,
        trim(filter).len() > 0 ==> {
            let n = trim(filter).len() as int;
            let all = with_condition(filter, cond);
            &&& all.take(n) == trim(filter)
            &&& all.subrange(n, n + 5) == " AND "@
            &&& all.skip(n + 5) == cond
        },
{
    reveal_strlit(" AND ");
    if trim(filter).len() > 0 {
        let n = trim(filter).len() as int;
        let all = with_condition(filter, cond);
        assert(all.take(n) =~= trim(filter));
        assert(all.subrange(n, n + 5) =~= " AND "@);
        assert(all.skip(n + 5) =~= cond);
    }
}

/// A column is sorted the way that its first mention says, and not at all where it is not mentioned.
pub proof fn the_first_mention_says_the_way(sort: Seq<SortBy>, col: Seq<char>, k: int)
    requires
        0 <= k <= sort.len(),
        forall|i: int| 0 <= i < k ==> (#[trigger] sort[i]).column@ != col,
    ensures
        k < sort.len() && sort[k].column@ == col ==> sort_dir(sort, col) == Some(sort[k].asc),
        k == sort.len() ==> sort_dir(sort, col) is None,
    decreases k,
{
    if k > 0 {
        let rest = sort.drop_first();
        assert(sort[0].column@ != col);
        assert forall|i: int| 0 <= i < k - 1 implies (#[trigger] rest[i]).column@ != col by {
            assert(rest[i] == sort[i + 1]);
        }
        the_first_mention_says_the_way(rest, col, k - 1);
        if k < sort.len() {
            assert(rest[k - 1] == sort[k]);
        }
    }
}

/// A click on another column starts it ascending; one on the column that is sorted turns it round, and
/// a further one lets it go.
pub proof fn a_server_click_starts_ascending(sort: Seq<SortBy>, col: Seq<char>)
    ensures
        sort.len() == 0 ==> next_server_sort(sort, col) == Some(true),
        sort.len() > 0 && sort[0].column@ != col ==> next_server_sort(sort, col) == Some(true),
        sort.len() > 0 && sort[0].column@ == col ==> next_server_sort(sort, col) == if sort[0].asc {
            Some(false)
        } else {
            None
        },
{
}

/// The name that a column is filtered and sorted by is its own on the table, whatever the result calls
/// it; an expression has none.
pub proof fn a_column_is_called_by_its_own_name(rs: ResultSet, ci: int)
    requires
        0 <= ci < rs.columns@.len(),
    ensures
        rs.columns@[ci].origin is None ==> real_name(rs, ci) is None,
        rs.columns@[ci].origin is Some ==> real_name(rs, ci) == Some(rs.columns@[ci].origin->0.column),
{
}

/// A place without a column has no name on any table.
pub proof fn no_column_has_no_name(rs: ResultSet, ci: int)
    requires
        ci < 0 || ci >= rs.columns@.len(),
    ensures
        real_name(rs, ci) is None,
{
}

} // verus!
