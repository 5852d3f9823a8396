//! What a result's columns inherit from the tables they came from.

use vstd::prelude::*;
use crate::keymap::KeyMap;
use crate::model::{Column, Origin, ResultSet};
use crate::staged::{same_value, text_of};

verus! {

/// A column of a table.
pub struct ColumnInfo {
    pub name: String,
    pub sql_type: String,
    pub primary_key: bool,
    pub nullable: bool,
}

/// An index of a table, by the names of its columns; `foreign` where it backs a foreign key.
pub struct IndexInfo {
    pub columns: Vec<String>,
    pub primary: bool,
    pub foreign: bool,
}

/// A foreign key of a table, by the names of the columns that refer.
pub struct ForeignKeyInfo {
    pub columns: Vec<String>,
    pub ref_schema: Option<String>,
    pub ref_table: String,
    pub ref_columns: Vec<String>,
}

/// A table as the catalogue describes it.
pub struct TableInfo {
    pub name: String,
    pub schema: Option<String>,
    pub columns: Vec<ColumnInfo>,
    pub indexes: Vec<IndexInfo>,
    pub foreign_keys: Vec<ForeignKeyInfo>,
    pub engine: Option<String>,
}

/// A database of the connection, with its tables once they were read.
pub struct DbNode {
    pub database: String,
    pub tables: Option<Vec<TableInfo>>,
}

/// A column's name on its table, and the result column that shows it.
pub struct NamedCol {
    pub name: String,
    pub ci: usize,
}

/// The result column that shows a table's column of this name.
pub open spec fn col_named(by_name: Seq<NamedCol>, name: Seq<char>) -> Option<usize>
    decreases by_name.len(),
{
    if by_name.len() == 0 {
        None
    } else if by_name[0].name@ == name {
        Some(by_name[0].ci)
    } else {
        col_named(by_name.drop_first(), name)
    }
}

/// The result column that shows a table's column of this name.
pub fn find_named(by_name: &Vec<NamedCol>, name: &String) -> (r: Option<usize>)
    ensures
        r == col_named(by_name@, name@),
{
    let mut i: usize = 0;
    assert(by_name@.skip(0) == by_name@);
    while i < by_name.len()
        invariant
            i <= by_name@.len(),
            col_named(by_name@, name@) == col_named(by_name@.skip(i as int), name@),
        decreases by_name@.len() - i,
    {
        assert(by_name@.skip(i as int).drop_first() == by_name@.skip(i + 1));
        if by_name[i].name == *name {
            return Some(by_name[i].ci);
        }
        i = i + 1;
    }
    None
}

/// What a column is to its table.
#[derive(Clone, Copy, Debug, PartialEq, Eq, Structural)]
pub enum ColKey {
    Primary,
    Foreign,
    Index,
}

/// Whether this column of the table is part of its primary key and shown in result column `ci`.
pub open spec fn primary_at(t: TableInfo, by_name: Seq<NamedCol>, ci: usize, k: int) -> bool {
    0 <= k < t.columns@.len() && t.columns@[k].primary_key && col_named(
        by_name,
        t.columns@[k].name@,
    ) == Some(ci)
}

/// Whether this index of the table is one of a single column, other than the primary key's, and
/// that column is shown in result column `ci`.
pub open spec fn index_at(t: TableInfo, by_name: Seq<NamedCol>, ci: usize, k: int) -> bool {
    &&& 0 <= k < t.indexes@.len()
    &&& !t.indexes@[k].primary
    &&& t.indexes@[k].columns@.len() == 1
    &&& col_named(by_name, t.indexes@[k].columns@[0]@) == Some(ci)
}

/// What a result column is to the table: part of its primary key, else a foreign key, else
/// indexed. An index of several columns marks none of them.
pub open spec fn role(t: TableInfo, by_name: Seq<NamedCol>, ci: usize) -> Option<ColKey> {
    if exists|k: int| primary_at(t, by_name, ci, k) {
        Some(ColKey::Primary)
    } else if exists|k: int| #[trigger] index_at(t, by_name, ci, k) && t.indexes@[k].foreign {
        Some(ColKey::Foreign)
    } else if exists|k: int| index_at(t, by_name, ci, k) {
        Some(ColKey::Index)
    } else {
        None
    }
}

/// What each result column is to the table it came from, for those that are anything.
pub fn key_roles(t: &TableInfo, by_name: &Vec<NamedCol>) -> (r: KeyMap<usize, ColKey>)
    ensures
        forall|ci: usize| #[trigger]
            r@.dom().contains(ci) <==> role(*t, by_name@, ci) is Some,
        forall|ci: usize| #[trigger]
            r@.dom().contains(ci) ==> role(*t, by_name@, ci) == Some(r@[ci]),
{
    let mut map: KeyMap<usize, ColKey> = KeyMap::new();
    let mut i: usize = 0;
    while i < t.columns.len()
        invariant
            i <= t.columns@.len(),
            forall|ci: usize| #[trigger]
                map@.dom().contains(ci) <==> exists|k: int|
                    k < i && #[trigger] primary_at(*t, by_name@, ci, k),
            forall|ci: usize| #[trigger] map@.dom().contains(ci) ==> map@[ci] == ColKey::Primary,
        decreases t.columns@.len() - i,
    {
        if t.columns[i].primary_key {
            if let Some(ci) = find_named(by_name, &t.columns[i].name) {
                map.insert(ci, ColKey::Primary);
                assert(primary_at(*t, by_name@, ci, i as int));
            }
        }
        i = i + 1;
    }
    let ghost n = t.columns@.len() as int;
    let mut j: usize = 0;
    while j < t.indexes.len()
        invariant
            j <= t.indexes@.len(),
            forall|ci: usize| #[trigger]
                map@.dom().contains(ci) <==> (exists|k: int| primary_at(*t, by_name@, ci, k))
                    || exists|k: int| k < j && #[trigger] index_at(*t, by_name@, ci, k),
            forall|ci: usize| #[trigger]
                map@.dom().contains(ci) ==> map@[ci] == if exists|k: int|
                    primary_at(*t, by_name@, ci, k) {
                    ColKey::Primary
                } else if exists|k: int|
                    k < j && #[trigger] index_at(*t, by_name@, ci, k) && t.indexes@[k].foreign {
                    ColKey::Foreign
                } else {
                    ColKey::Index
                },
        decreases t.indexes@.len() - j,
    {
        let ix: &IndexInfo = &t.indexes[j];
        if !ix.primary && ix.columns.len() == 1 {
            if let Some(ci) = find_named(by_name, &ix.columns[0]) {
                assert(index_at(*t, by_name@, ci, j as int));
                let had: Option<ColKey> = match map.get(ci) {
                    Some(k) => Some(*k),
                    None => None,
                };
                match had {
                    Some(ColKey::Primary) => {},
                    Some(_) => {
                        if ix.foreign {
                            map.insert(ci, ColKey::Foreign);
                        }
                    },
                    None => {
                        map.insert(
                            ci,
                            if ix.foreign {
                                ColKey::Foreign
                            } else {
                                ColKey::Index
                            },
                        );
                    },
                }
            }
        }
        j = j + 1;
    }
    map
}

/// The name a table is shown by: with its schema, but for the schema `public`.
pub open spec fn shown_table(schema: Option<String>, table: String) -> Seq<char> {
    match schema {
        Some(s) => if s@ == "public"@ {
            table@
        } else {
            s@ + "."@ + table@
        },
        None => table@,
    }
}

/// The name a table is shown by.
pub fn table_display(schema: &Option<String>, table: &String) -> (r: String)
    ensures
        r@ == shown_table(*schema, *table),
{
    match schema {
        Some(s) => if *s == "public".to_owned() {
            table.clone()
        } else {
            let mut out: String = s.clone();
            out.append(".");
            out.append(table.as_str());
            out
        },
        None => table.clone(),
    }
}

/// What a column's display format is saved under: its own database, its table by the name that is
/// shown, and its own name.
pub struct FormatKey {
    pub database: String,
    pub table: String,
    pub column: String,
}

/// Whether a result column is saved under this key: its own, from the table that it came from.
pub open spec fn key_is_of(o: Origin, k: FormatKey) -> bool {
    k.database@ == o.database@ && k.table@ == shown_table(o.schema, o.table) && k.column@
        == o.column@
}

/// What a result column's display format is saved under; nothing for a column that no table holds.
pub fn format_key(rs: &ResultSet, ci: usize) -> (r: Option<FormatKey>)
    ensures
        r is Some <==> ci < rs.columns@.len() && rs.columns@[ci as int].origin is Some,
        r matches Some(k) ==> key_is_of(rs.columns@[ci as int].origin->0, k),
{
    if ci >= rs.columns.len() {
        return None;
    }
    match &rs.columns[ci].origin {
        Some(o) => Some(
            FormatKey {
                database: o.database.clone(),
                table: table_display(&o.schema, &o.table),
                column: o.column.clone(),
            },
        ),
        None => None,
    }
}

/// A way to display a column's values, by its number in the menu; nought shows them raw.
#[derive(Clone, Copy, Debug, PartialEq, Eq, Structural)]
pub struct ColumnFormat {
    pub choice: u32,
}

/// A display format that was saved for a column of a connection.
pub struct FormatRule {
    pub conn_id: u64,
    pub database: String,
    pub table: String,
    pub column: String,
    pub format: ColumnFormat,
}

/// Whether a rule is of this connection and column.
pub open spec fn rule_is_for(
    rule: FormatRule,
    conn: u64,
    db: Seq<char>,
    table: Seq<char>,
    col: Seq<char>,
) -> bool {
    rule.conn_id == conn && rule.database@ == db && rule.table@ == table && rule.column@ == col
}

/// The first place from `i` on that holds a rule of this connection and column; the number of
/// rules where there is none.
pub open spec fn rule_place(
    rules: Seq<FormatRule>,
    conn: u64,
    db: Seq<char>,
    table: Seq<char>,
    col: Seq<char>,
    i: int,
) -> int
    decreases rules.len() - i,
{
    if i >= rules.len() {
        rules.len() as int
    } else if rule_is_for(rules[i], conn, db, table, col) {
        i
    } else {
        rule_place(rules, conn, db, table, col, i + 1)
    }
}

/// The first place that holds a rule of this connection and column.
fn find_rule(rules: &Vec<FormatRule>, conn: u64, key: &FormatKey) -> (r: usize)
    ensures
        r == rule_place(rules@, conn, key.database@, key.table@, key.column@, 0),
        r <= rules@.len(),
{
    let mut i: usize = 0;
    while i < rules.len()
        invariant
            i <= rules@.len(),
            rule_place(rules@, conn, key.database@, key.table@, key.column@, 0) == rule_place(
                rules@,
                conn,
                key.database@,
                key.table@,
                key.column@,
                i as int,
            ),
        decreases rules@.len() - i,
    {
        let x: &FormatRule = &rules[i];
        if x.conn_id == conn && x.database == key.database && x.table == key.table && x.column
            == key.column {
            return i;
        }
        i = i + 1;
    }
    i
}

/// The display format a result column starts with: the one that was saved for the column it came
/// from, else the default for its name and type.
pub open spec fn first_format(
    rs: ResultSet,
    ci: int,
    conn: u64,
    rules: Seq<FormatRule>,
    defaults: Seq<ColumnFormat>,
) -> ColumnFormat {
    match rs.columns@[ci].origin {
        Some(o) => {
            let i = rule_place(
                rules,
                conn,
                o.database@,
                shown_table(o.schema, o.table),
                o.column@,
                0,
            );
            if i < rules.len() {
                rules[i].format
            } else {
                defaults[ci]
            }
        },
        None => defaults[ci],
    }
}

/// The display format of each column of a result as it is opened. `defaults` holds what each
/// column's name and type suggest.
pub fn seed_formats(
    rs: &ResultSet,
    conn: u64,
    rules: &Vec<FormatRule>,
    defaults: &Vec<ColumnFormat>,
) -> (r: Vec<ColumnFormat>)
    requires
        defaults@.len() == rs.columns@.len(),
    ensures
        r@.len() == rs.columns@.len(),
        forall|ci: int|
            0 <= ci < r@.len() ==> #[trigger] r@[ci] == first_format(
                *rs,
                ci,
                conn,
                rules@,
                defaults@,
            ),
{
    let mut out: Vec<ColumnFormat> = Vec::new();
    let mut ci: usize = 0;
    while ci < rs.columns.len()
        invariant
            defaults@.len() == rs.columns@.len(),
            ci <= rs.columns@.len(),
            out@.len() == ci,
            forall|k: int|
                0 <= k < ci ==> #[trigger] out@[k] == first_format(
                    *rs,
                    k,
                    conn,
                    rules@,
                    defaults@,
                ),
        decreases rs.columns@.len() - ci,
    {
        let f: ColumnFormat = match format_key(rs, ci) {
            Some(key) => {
                let i: usize = find_rule(rules, conn, &key);
                if i < rules.len() {
                    rules[i].format
                } else {
                    defaults[ci]
                }
            },
            None => defaults[ci],
        };
        out.push(f);
        ci = ci + 1;
    }
    out
}

/// Display a column in another way, here and, where the column has a table, wherever it is shown
/// from now on. Says whether there is a rule to save.
pub fn set_format(
    rs: &ResultSet,
    formats: &mut Vec<ColumnFormat>,
    rules: &mut Vec<FormatRule>,
    conn: u64,
    ci: usize,
    fmt: ColumnFormat,
) -> (r: bool)
    ensures
        final(formats)@ == if ci < old(formats)@.len() {
            old(formats)@.update(ci as int, fmt)
        } else {
            old(formats)@
        },
        r == (ci < rs.columns@.len() && rs.columns@[ci as int].origin is Some),
        !r ==> final(rules)@ == old(rules)@,
        r ==> {
            let o = rs.columns@[ci as int].origin->0;
            let t = shown_table(o.schema, o.table);
            let i = rule_place(old(rules)@, conn, o.database@, t, o.column@, 0);
            &&& 0 <= i < final(rules)@.len()
            &&& rule_is_for(final(rules)@[i], conn, o.database@, t, o.column@)
            &&& final(rules)@[i].format == fmt
            &&& if i < old(rules)@.len() {
                final(rules)@ == old(rules)@.update(i, final(rules)@[i])
            } else {
                final(rules)@ == old(rules)@.push(final(rules)@[i])
            }
        },
{
    if ci < formats.len() {
        formats.set(ci, fmt);
    }
    match format_key(rs, ci) {
        Some(key) => {
            let i: usize = find_rule(rules, conn, &key);
            let rule: FormatRule = FormatRule {
                conn_id: conn,
                database: key.database,
                table: key.table,
                column: key.column,
                format: fmt,
            };
            if i < rules.len() {
                rules.set(i, rule);
            } else {
                rules.push(rule);
            }
            true
        },
        None => false,
    }
}

proof fn lemma_rule_first(
    rules: Seq<FormatRule>,
    conn: u64,
    db: Seq<char>,
    table: Seq<char>,
    col: Seq<char>,
    j: int,
)
    requires
        0 <= j,
    ensures
        j <= rules.len() ==> j <= rule_place(rules, conn, db, table, col, j) <= rules.len(),
        forall|i: int|
            j <= i < rule_place(rules, conn, db, table, col, j) ==> !rule_is_for(
                #[trigger] rules[i],
                conn,
                db,
                table,
                col,
            ),
    decreases rules.len() - j,
{
    if j < rules.len() {
        lemma_rule_first(rules, conn, db, table, col, j + 1);
    }
}

proof fn lemma_rule_found(
    rules: Seq<FormatRule>,
    conn: u64,
    db: Seq<char>,
    table: Seq<char>,
    col: Seq<char>,
    j: int,
    i: int,
)
    requires
        0 <= j <= i < rules.len(),
        rule_is_for(rules[i], conn, db, table, col),
        forall|k: int| j <= k < i ==> !rule_is_for(#[trigger] rules[k], conn, db, table, col),
    ensures
        rule_place(rules, conn, db, table, col, j) == i,
    decreases i - j,
{
    if j < i {
        lemma_rule_found(rules, conn, db, table, col, j + 1, i);
    }
}

/// A format that was saved for a column is what every column that came from it is opened with, and
/// no other: `before` are the rules it was saved into, and `after` the rules then.
pub proof fn a_saved_format_is_found_again(
    before: Seq<FormatRule>,
    after: Seq<FormatRule>,
    conn: u64,
    db: Seq<char>,
    table: Seq<char>,
    col: Seq<char>,
)
    requires
        ({
            let i = rule_place(before, conn, db, table, col, 0);
            &&& 0 <= i < after.len()
            &&& rule_is_for(after[i], conn, db, table, col)
            &&& if i < before.len() {
                after == before.update(i, after[i])
            } else {
                after == before.push(after[i])
            }
        }),
    ensures
        rule_place(after, conn, db, table, col, 0) == rule_place(before, conn, db, table, col, 0),
{
    let i = rule_place(before, conn, db, table, col, 0);
    lemma_rule_first(before, conn, db, table, col, 0);
    assert forall|k: int| 0 <= k < i implies !rule_is_for(#[trigger] after[k], conn, db, table, col) by {
        assert(after[k] == before[k]);
    }
    lemma_rule_found(after, conn, db, table, col, 0, i);
}

/// Where the type that a column's control is chosen by comes from: the catalogue's declaration, in
/// this database of the connection, or else what came over the wire.
pub enum TypeSource {
    Declared(String, usize),
    Wire(String),
}

/// The first database from `i` on of this name.
pub open spec fn node_place(nodes: Seq<DbNode>, db: Seq<char>, i: int) -> Option<usize>
    decreases nodes.len() - i,
{
    if i >= nodes.len() {
        None
    } else if nodes[i].database@ == db {
        Some(i as usize)
    } else {
        node_place(nodes, db, i + 1)
    }
}

/// The first table from `i` on of this name in this schema.
pub open spec fn table_place(
    tables: Seq<TableInfo>,
    schema: Option<Seq<char>>,
    name: Seq<char>,
    i: int,
) -> Option<usize>
    decreases tables.len() - i,
{
    if i >= tables.len() {
        None
    } else if tables[i].name@ == name && text_of(tables[i].schema) == schema {
        Some(i as usize)
    } else {
        table_place(tables, schema, name, i + 1)
    }
}

/// The first column from `i` on of this name.
pub open spec fn column_place(cols: Seq<ColumnInfo>, name: Seq<char>, i: int) -> Option<usize>
    decreases cols.len() - i,
{
    if i >= cols.len() {
        None
    } else if cols[i].name@ == name {
        Some(i as usize)
    } else {
        column_place(cols, name, i + 1)
    }
}

/// The type that the catalogue declares for a column, with the place of its database: of the table
/// of its name and schema, where the database's tables were read.
pub open spec fn declared_type(nodes: Seq<DbNode>, o: Origin) -> Option<(String, usize)> {
    match node_place(nodes, o.database@, 0) {
        None => None,
        Some(n) => match nodes[n as int].tables {
            None => None,
            Some(tables) => match table_place(tables@, text_of(o.schema), o.table@, 0) {
                None => None,
                Some(t) => match column_place(tables@[t as int].columns@, o.column@, 0) {
                    None => None,
                    Some(c) => Some((tables@[t as int].columns@[c as int].sql_type, n)),
                },
            },
        },
    }
}

/// Where the type of a column comes from.
pub open spec fn type_source(nodes: Seq<DbNode>, c: Column) -> TypeSource {
    match c.origin {
        None => TypeSource::Wire(c.sql_type),
        Some(o) => match declared_type(nodes, o) {
            Some((ty, n)) => TypeSource::Declared(ty, n),
            None => TypeSource::Wire(c.sql_type),
        },
    }
}

/// The first database of this name.
pub fn find_node(nodes: &Vec<DbNode>, db: &String) -> (r: Option<usize>)
    ensures
        r == node_place(nodes@, db@, 0),
        r matches Some(i) ==> i < nodes@.len(),
{
    let mut i: usize = 0;
    while i < nodes.len()
        invariant
            i <= nodes@.len(),
            node_place(nodes@, db@, 0) == node_place(nodes@, db@, i as int),
        decreases nodes@.len() - i,
    {
        if nodes[i].database == *db {
            return Some(i);
        }
        i = i + 1;
    }
    None
}

/// The first table of this name in this schema.
pub fn find_table(tables: &Vec<TableInfo>, schema: &Option<String>, name: &String) -> (r: Option<
    usize,
>)
    ensures
        r == table_place(tables@, text_of(*schema), name@, 0),
        r matches Some(i) ==> i < tables@.len(),
{
    let mut i: usize = 0;
    while i < tables.len()
        invariant
            i <= tables@.len(),
            table_place(tables@, text_of(*schema), name@, 0) == table_place(
                tables@,
                text_of(*schema),
                name@,
                i as int,
            ),
        decreases tables@.len() - i,
    {
        if tables[i].name == *name && same_value(&tables[i].schema, schema) {
            return Some(i);
        }
        i = i + 1;
    }
    None
}

/// The first column of this name.
fn find_column(cols: &Vec<ColumnInfo>, name: &String) -> (r: Option<usize>)
    ensures
        r == column_place(cols@, name@, 0),
        r matches Some(i) ==> i < cols@.len(),
{
    let mut i: usize = 0;
    while i < cols.len()
        invariant
            i <= cols@.len(),
            column_place(cols@, name@, 0) == column_place(cols@, name@, i as int),
        decreases cols@.len() - i,
    {
        if cols[i].name == *name {
            return Some(i);
        }
        i = i + 1;
    }
    None
}

/// The type that the catalogue declares for a column, with the place of its database.
fn find_declared(nodes: &Vec<DbNode>, o: &Origin) -> (r: Option<(String, usize)>)
    ensures
        r == declared_type(nodes@, *o),
{
    let n: usize = match find_node(nodes, &o.database) {
        Some(n) => n,
        None => return None,
    };
    match &nodes[n].tables {
        None => None,
        Some(tables) => match find_table(tables, &o.schema, &o.table) {
            None => None,
            Some(t) => match find_column(&tables[t].columns, &o.column) {
                None => None,
                Some(c) => Some((tables[t].columns[c].sql_type.clone(), n)),
            },
        },
    }
}

/// Where the type of each result column comes from that its control is chosen by.
pub fn column_editors(rs: &ResultSet, nodes: &Vec<DbNode>) -> (r: Vec<TypeSource>)
    ensures
        r@ == rs.columns@.map_values(|c: Column| type_source(nodes@, c)),
{
    let mut out: Vec<TypeSource> = Vec::new();
    let mut ci: usize = 0;
    while ci < rs.columns.len()
        invariant
            ci <= rs.columns@.len(),
            out@ == rs.columns@.take(ci as int).map_values(|c: Column| type_source(nodes@, c)),
        decreases rs.columns@.len() - ci,
    {
        let c: &Column = &rs.columns[ci];
        let declared: Option<(String, usize)> = match &c.origin {
            Some(o) => find_declared(nodes, o),
            None => None,
        };
        let t: TypeSource = match declared {
            Some((ty, n)) => TypeSource::Declared(ty, n),
            None => TypeSource::Wire(c.sql_type.clone()),
        };
        assert(t == type_source(nodes@, *c));
        out.push(t);
        ci = ci + 1;
        assert(out@ =~= rs.columns@.take(ci as int).map_values(
            |c: Column| type_source(nodes@, c),
        ));
    }
    assert(rs.columns@.take(rs.columns@.len() as int) == rs.columns@);
    out
}

/// The table a result was opened from.
pub struct TableSource {
    pub database: String,
    pub schema: Option<String>,
    pub table: String,
}

/// The source table's description, by the place of its database and its own place in it.
pub open spec fn source_place(nodes: Seq<DbNode>, src: Option<TableSource>) -> Option<
    (usize, usize),
> {
    match src {
        None => None,
        Some(s) => match node_place(nodes, s.database@, 0) {
            None => None,
            Some(n) => match nodes[n as int].tables {
                None => None,
                Some(tables) => match table_place(tables@, text_of(s.schema), s.table@, 0) {
                    None => None,
                    Some(t) => Some((n, t)),
                },
            },
        },
    }
}

/// The source table's description, where the tab has a source table and its database was read.
pub fn source_schema(nodes: &Vec<DbNode>, src: &Option<TableSource>) -> (r: Option<(usize, usize)>)
    ensures
        r == source_place(nodes@, *src),
        r matches Some((n, t)) ==> n < nodes@.len() && nodes@[n as int].tables is Some && t
            < nodes@[n as int].tables->0@.len(),
{
    match src {
        None => None,
        Some(s) => match find_node(nodes, &s.database) {
            None => None,
            Some(n) => match &nodes[n].tables {
                None => None,
                Some(tables) => match find_table(tables, &s.schema, &s.table) {
                    None => None,
                    Some(t) => Some((n, t)),
                },
            },
        },
    }
}

/// What each result column is to the source table: nothing where there is none, or it was not read
/// yet. `by_name` holds the columns that came from that table.
pub fn column_key_map(
    nodes: &Vec<DbNode>,
    src: &Option<TableSource>,
    by_name: &Vec<NamedCol>,
) -> (r: KeyMap<usize, ColKey>)
    ensures
        match source_place(nodes@, *src) {
            None => r@ == Map::<usize, ColKey>::empty(),
            Some((n, t)) => {
                let table = nodes@[n as int].tables->0@[t as int];
                forall|ci: usize|
                    #![trigger r@.dom().contains(ci)]
                    (r@.dom().contains(ci) <==> role(table, by_name@, ci) is Some) && (
                    r@.dom().contains(ci) ==> role(table, by_name@, ci) == Some(r@[ci]))
            },
        },
{
    match source_schema(nodes, src) {
        None => KeyMap::new(),
        Some((n, t)) => match &nodes[n].tables {
            Some(tables) => key_roles(&tables[t], by_name),
            None => KeyMap::new(),
        },
    }
}

/// A foreign key that can be followed from a row: which of the table's it is, and the result
/// columns that hold its values, in its own order.
pub struct FollowSpec {
    pub fk: usize,
    pub value_cols: Vec<usize>,
}

/// Whether a foreign key's columns are all in the result.
pub open spec fn fk_shown(fk: ForeignKeyInfo, by_name: Seq<NamedCol>) -> bool {
    forall|i: int|
        0 <= i < fk.columns@.len() ==> col_named(by_name, (#[trigger] fk.columns@[i])@) is Some
}

/// The result columns of a foreign key, in its own order.
pub open spec fn fk_cols(fk: ForeignKeyInfo, by_name: Seq<NamedCol>) -> Seq<usize> {
    fk.columns@.map_values(|c: String| col_named(by_name, c@)->0)
}

/// The foreign key that a result column is followed by, among the first `n` of the table: the last
/// one that it belongs to and whose columns are all in the result.
pub open spec fn followed_by(
    t: TableInfo,
    by_name: Seq<NamedCol>,
    ci: usize,
    n: int,
) -> Option<usize>
    decreases n,
{
    if n <= 0 {
        None
    } else if fk_shown(t.foreign_keys@[n - 1], by_name) && fk_cols(
        t.foreign_keys@[n - 1],
        by_name,
    ).contains(ci) {
        Some((n - 1) as usize)
    } else {
        followed_by(t, by_name, ci, n - 1)
    }
}

/// The result columns of a foreign key, where they are all there.
fn fk_value_cols(fk: &ForeignKeyInfo, by_name: &Vec<NamedCol>) -> (r: Option<Vec<usize>>)
    ensures
        r is Some <==> fk_shown(*fk, by_name@),
        r matches Some(cols) ==> cols@ == fk_cols(*fk, by_name@),
{
    let mut cols: Vec<usize> = Vec::new();
    let mut i: usize = 0;
    while i < fk.columns.len()
        invariant
            i <= fk.columns@.len(),
            cols@.len() == i,
            forall|k: int|
                0 <= k < i ==> col_named(by_name@, (#[trigger] fk.columns@[k])@) == Some(cols@[k]),
        decreases fk.columns@.len() - i,
    {
        match find_named(by_name, &fk.columns[i]) {
            Some(ci) => cols.push(ci),
            None => {
                assert(col_named(by_name@, fk.columns@[i as int]@) is None);
                return None;
            },
        }
        i = i + 1;
    }
    assert(cols@ =~= fk_cols(*fk, by_name@));
    Some(cols)
}

/// The foreign key that each result column is followed by, by its place in the second list.
pub fn build_follow_specs(t: &TableInfo, by_name: &Vec<NamedCol>) -> (r: (
    KeyMap<usize, usize>,
    Vec<FollowSpec>,
))
    ensures
        forall|ci: usize| #[trigger]
            r.0@.dom().contains(ci) <==> followed_by(
                *t,
                by_name@,
                ci,
                t.foreign_keys@.len() as int,
            ) is Some,
        forall|ci: usize| #[trigger]
            r.0@.dom().contains(ci) ==> {
                &&& r.0@[ci] < r.1@.len()
                &&& followed_by(*t, by_name@, ci, t.foreign_keys@.len() as int) == Some(
                    r.1@[r.0@[ci] as int].fk,
                )
            },
        forall|i: int|
            0 <= i < r.1@.len() ==> (#[trigger] r.1@[i]).fk < t.foreign_keys@.len()
                && r.1@[i].value_cols@ == fk_cols(
                t.foreign_keys@[r.1@[i].fk as int],
                by_name@,
            ),
{
    let mut map: KeyMap<usize, usize> = KeyMap::new();
    let mut specs: Vec<FollowSpec> = Vec::new();
    let mut k: usize = 0;
    while k < t.foreign_keys.len()
        invariant
            k <= t.foreign_keys@.len(),
            forall|ci: usize| #[trigger]
                map@.dom().contains(ci) <==> followed_by(*t, by_name@, ci, k as int) is Some,
            forall|ci: usize| #[trigger]
                map@.dom().contains(ci) ==> {
                    &&& map@[ci] < specs@.len()
                    &&& followed_by(*t, by_name@, ci, k as int) == Some(
                        specs@[map@[ci] as int].fk,
                    )
                },
            forall|i: int|
                0 <= i < specs@.len() ==> (#[trigger] specs@[i]).fk < k && specs@[i].value_cols@
                    == fk_cols(t.foreign_keys@[specs@[i].fk as int], by_name@),
        decreases t.foreign_keys@.len() - k,
    {
        if let Some(cols) = fk_value_cols(&t.foreign_keys[k], by_name) {
            let at: usize = specs.len();
            let ghost had = specs@;
            let ghost before = map@;
            let mut i: usize = 0;
            while i < cols.len()
                invariant
                    i <= cols@.len(),
                    forall|ci: usize| #[trigger]
                        map@.dom().contains(ci) <==> before.dom().contains(ci) || cols@.take(
                            i as int,
                        ).contains(ci),
                    forall|ci: usize| #[trigger]
                        map@.dom().contains(ci) ==> map@[ci] == if cols@.take(i as int).contains(
                            ci,
                        ) {
                            at
                        } else {
                            before[ci]
                        },
                decreases cols@.len() - i,
            {
                map.insert(cols[i], at);
                proof {
                    let was = cols@.take(i as int);
                    let now = cols@.take(i + 1);
                    assert(now == was.push(cols@[i as int]));
                    assert forall|ci: usize| now.contains(ci) <==> was.contains(ci) || ci
                        == cols@[i as int] by {
                        if was.contains(ci) {
                            let j = was.index_of(ci);
                            assert(now[j] == ci);
                        }
                        assert(now[i as int] == cols@[i as int]);
                    }
                }
                i = i + 1;
            }
            assert(cols@.take(cols@.len() as int) == cols@);
            specs.push(FollowSpec { fk: k, value_cols: cols });
        }
        k = k + 1;
    }
    (map, specs)
}

/// The name a source table goes by in a prompt: its database and the name it is shown by.
pub fn source_table(src: &Option<TableSource>) -> (r: Option<String>)
    ensures
        r is Some <==> src is Some,
        *src matches Some(s) ==> r->0@ == s.database@ + "."@ + shown_table(s.schema, s.table),
{
    match src {
        None => None,
        Some(s) => {
            let mut out: String = s.database.clone();
            out.append(".");
            out.append(table_display(&s.schema, &s.table).as_str());
            Some(out)
        },
    }
}

/// What a followed row holds in the columns of a foreign key.
pub fn follow_values(rs: &ResultSet, row: usize, follow: &FollowSpec) -> (r: Vec<Option<String>>)
    ensures
        r@.len() == follow.value_cols@.len(),
        forall|i: int|
            0 <= i < r@.len() ==> #[trigger] r@[i] == crate::staged::original(
                *rs,
                crate::keymap::At { row, col: follow.value_cols@[i] },
            ),
{
    let mut out: Vec<Option<String>> = Vec::new();
    let mut i: usize = 0;
    while i < follow.value_cols.len()
        invariant
            i <= follow.value_cols@.len(),
            out@.len() == i,
            forall|k: int|
                0 <= k < i ==> #[trigger] out@[k] == crate::staged::original(
                    *rs,
                    crate::keymap::At { row, col: follow.value_cols@[k] },
                ),
        decreases follow.value_cols@.len() - i,
    {
        out.push(
            crate::staged::original_of(
                rs,
                crate::keymap::At { row, col: follow.value_cols[i] },
            ),
        );
        i = i + 1;
    }
    out
}

/// A name leads to the first result column that is listed for it.
pub proof fn a_name_leads_to_its_first_column(by_name: Seq<NamedCol>, name: Seq<char>, k: int)
    requires
        0 <= k <= by_name.len(),
        forall|i: int| 0 <= i < k ==> (#[trigger] by_name[i]).name@ != name,
    ensures
        k < by_name.len() && by_name[k].name@ == name ==> col_named(by_name, name) == Some(by_name[k].ci),
        k == by_name.len() ==> col_named(by_name, name) is None,
    decreases k,
{
    if k > 0 {
        let rest = by_name.drop_first();
        assert(by_name[0].name@ != name);
        assert forall|i: int| 0 <= i < k - 1 implies (#[trigger] rest[i]).name@ != name by {
            assert(rest[i] == by_name[i + 1]);
        }
        a_name_leads_to_its_first_column(rest, name, k - 1);
        if k < by_name.len() {
            assert(rest[k - 1] == by_name[k]);
        }
    }
}

/// A result column shows a key where it is one: of the primary key first, else of a foreign key of one
/// column, else of an index of one column. Nothing else marks it.
pub proof fn a_column_shows_its_key(t: TableInfo, by_name: Seq<NamedCol>, ci: usize, k: int)
    ensures
        0 <= k < t.columns@.len() && t.columns@[k].primary_key && col_named(by_name, t.columns@[k].name@)
            == Some(ci) ==> role(t, by_name, ci) == Some(ColKey::Primary),
        role(t, by_name, ci) == Some(ColKey::Primary) ==> exists|j: int|
            0 <= j < t.columns@.len() && (#[trigger] t.columns@[j]).primary_key && col_named(
                by_name,
                t.columns@[j].name@,
            ) == Some(ci),
        0 <= k < t.indexes@.len() && !t.indexes@[k].primary && t.indexes@[k].columns@.len() == 1
            && col_named(by_name, t.indexes@[k].columns@[0]@) == Some(ci) ==> role(t, by_name, ci) is Some
            && (t.indexes@[k].foreign ==> role(t, by_name, ci) != Some(ColKey::Index)),
        role(t, by_name, ci) == Some(ColKey::Foreign) || role(t, by_name, ci) == Some(ColKey::Index)
            ==> exists|j: int|
            0 <= j < t.indexes@.len() && !(#[trigger] t.indexes@[j]).primary
                && t.indexes@[j].columns@.len() == 1 && col_named(by_name, t.indexes@[j].columns@[0]@)
                == Some(ci) && (role(t, by_name, ci) == Some(ColKey::Foreign) ==> t.indexes@[j].foreign),
{
    if 0 <= k < t.columns@.len() && t.columns@[k].primary_key && col_named(by_name, t.columns@[k].name@)
        == Some(ci) {
        assert(primary_at(t, by_name, ci, k));
    }
    if 0 <= k < t.indexes@.len() && !t.indexes@[k].primary && t.indexes@[k].columns@.len() == 1
        && col_named(by_name, t.indexes@[k].columns@[0]@) == Some(ci) {
        assert(index_at(t, by_name, ci, k));
    }
    if role(t, by_name, ci) == Some(ColKey::Primary) {
        let j = choose|j: int| primary_at(t, by_name, ci, j);
        assert(t.columns@[j].primary_key);
    }
    if role(t, by_name, ci) == Some(ColKey::Foreign) {
        let j = choose|j: int| #[trigger] index_at(t, by_name, ci, j) && t.indexes@[j].foreign;
        assert(!t.indexes@[j].primary);
    }
    if role(t, by_name, ci) == Some(ColKey::Index) {
        let j = choose|j: int| index_at(t, by_name, ci, j);
        assert(!t.indexes@[j].primary);
    }
}

/// A table is shown with its schema, so that tables of one name are told apart; only the schema `public`
/// goes unsaid.
pub proof fn a_table_is_shown_with_its_schema(schema: Option<String>, table: String)
    ensures
        schema is None ==> shown_table(schema, table) == table@,
        schema is Some && schema->0@ == "public"@ ==> shown_table(schema, table) == table@,
        schema is Some && schema->0@ != "public"@ ==> {
            let n = schema->0@.len() as int;
            let all = shown_table(schema, table);
            &&& all.len() == n + 1 + table@.len()
            &&& all.take(n) == schema->0@
            &&& all[n] == '.'
            &&& all.skip(n + 1) == table@
        },
{
    reveal_strlit(".");
    if schema is Some && schema->0@ != "public"@ {
        let n = schema->0@.len() as int;
        let all = shown_table(schema, table);
        assert(all.take(n) =~= schema->0@);
        assert(all.skip(n + 1) =~= table@);
    }
}

/// A column is shown at first as it was saved for its own table and connection, by the first rule that
/// was; a rule of another table, column or connection says nothing of it.
pub proof fn a_column_is_shown_as_it_was_saved(
    rs: ResultSet,
    ci: int,
    conn: u64,
    rules: Seq<FormatRule>,
    defaults: Seq<ColumnFormat>,
    k: int,
)
    requires
        0 <= ci < rs.columns@.len(),
        rs.columns@[ci].origin is Some,
        0 <= k <= rules.len(),
        forall|i: int|
            0 <= i < k ==> {
                let o = rs.columns@[ci].origin->0;
                let r = #[trigger] rules[i];
                r.conn_id != conn || r.database@ != o.database@ || r.table@ != shown_table(
                    o.schema,
                    o.table,
                ) || r.column@ != o.column@
            },
    ensures
        ({
            let o = rs.columns@[ci].origin->0;
            &&& k < rules.len() && rules[k].conn_id == conn && rules[k].database@ == o.database@
                && rules[k].table@ == shown_table(o.schema, o.table) && rules[k].column@ == o.column@
                ==> first_format(rs, ci, conn, rules, defaults) == rules[k].format
            &&& k == rules.len() ==> first_format(rs, ci, conn, rules, defaults) == defaults[ci]
        }),
{
    let o = rs.columns@[ci].origin->0;
    lemma_rule_skips(rules, conn, o.database@, shown_table(o.schema, o.table), o.column@, 0, k);
}

proof fn lemma_rule_skips(
    rules: Seq<FormatRule>,
    conn: u64,
    db: Seq<char>,
    table: Seq<char>,
    col: Seq<char>,
    i: int,
    k: int,
)
    requires
        0 <= i <= k <= rules.len(),
        forall|j: int| i <= j < k ==> !rule_is_for(#[trigger] rules[j], conn, db, table, col),
    ensures
        rule_place(rules, conn, db, table, col, i) == rule_place(rules, conn, db, table, col, k),
    decreases k - i,
{
    if i < k {
        lemma_rule_skips(rules, conn, db, table, col, i + 1, k);
    }
}

/// A database, a table and a column are found by their names, the first of each; a table of the name in
/// another schema is not it.
pub proof fn what_is_looked_up_is_the_first_of_its_name(
    nodes: Seq<DbNode>,
    tables: Seq<TableInfo>,
    cols: Seq<ColumnInfo>,
    schema: Option<Seq<char>>,
    name: Seq<char>,
    i: int,
    k: int,
)
    requires
        0 <= i <= k <= usize::MAX,
    ensures
        k <= nodes.len() && (forall|j: int| i <= j < k ==> (#[trigger] nodes[j]).database@ != name)
            ==> node_place(nodes, name, i) == if k == nodes.len() {
            None
        } else if nodes[k].database@ == name {
            Some(k as usize)
        } else {
            node_place(nodes, name, k)
        },
        k <= tables.len() && (forall|j: int|
            i <= j < k ==> (#[trigger] tables[j]).name@ != name || text_of(tables[j].schema) != schema)
            ==> table_place(tables, schema, name, i) == if k == tables.len() {
            None
        } else if tables[k].name@ == name && text_of(tables[k].schema) == schema {
            Some(k as usize)
        } else {
            table_place(tables, schema, name, k)
        },
        k <= cols.len() && (forall|j: int| i <= j < k ==> (#[trigger] cols[j]).name@ != name)
            ==> column_place(cols, name, i) == if k == cols.len() {
            None
        } else if cols[k].name@ == name {
            Some(k as usize)
        } else {
            column_place(cols, name, k)
        },
    decreases k - i,
{
    if i < k {
        what_is_looked_up_is_the_first_of_its_name(nodes, tables, cols, schema, name, i + 1, k);
    }
}

/// What is found is what was looked for.
pub proof fn what_is_found_has_its_name(
    nodes: Seq<DbNode>,
    tables: Seq<TableInfo>,
    cols: Seq<ColumnInfo>,
    schema: Option<Seq<char>>,
    name: Seq<char>,
    i: int,
)
    requires
        0 <= i,
        nodes.len() <= usize::MAX,
        tables.len() <= usize::MAX,
        cols.len() <= usize::MAX,
    ensures
        node_place(nodes, name, i) matches Some(n) ==> i <= n < nodes.len() && nodes[n as int].database@
            == name,
        table_place(tables, schema, name, i) matches Some(n) ==> i <= n < tables.len()
            && tables[n as int].name@ == name && text_of(tables[n as int].schema) == schema,
        column_place(cols, name, i) matches Some(n) ==> i <= n < cols.len() && cols[n as int].name@
            == name,
    decreases nodes.len() + tables.len() + cols.len() - i,
{
    if i < nodes.len() || i < tables.len() || i < cols.len() {
        what_is_found_has_its_name(nodes, tables, cols, schema, name, i + 1);
    }
}

/// A column's control is chosen by the type that its own table declares for it, in its own database and
/// schema; by the type that came over the wire where that is not known.
pub proof fn a_controls_type_is_its_tables(nodes: Seq<DbNode>, c: Column)
    requires
        nodes.len() <= usize::MAX,
        forall|n: int|
            0 <= n < nodes.len() && (#[trigger] nodes[n]).tables is Some ==> nodes[n].tables->0@.len()
                <= usize::MAX,
    ensures
        c.origin is None ==> type_source(nodes, c) == TypeSource::Wire(c.sql_type),
        type_source(nodes, c) is Wire ==> type_source(nodes, c) == TypeSource::Wire(c.sql_type),
        type_source(nodes, c) matches TypeSource::Declared(ty, n) ==> {
            let o = c.origin->0;
            &&& c.origin is Some
            &&& n < nodes.len()
            &&& nodes[n as int].database@ == o.database@
            &&& nodes[n as int].tables is Some
            &&& exists|t: int, k: int|
                0 <= t < nodes[n as int].tables->0@.len() && 0 <= k
                    < nodes[n as int].tables->0@[t].columns@.len() && nodes[n as int].tables->0@[t].name@
                    == o.table@ && text_of(nodes[n as int].tables->0@[t].schema) == text_of(o.schema)
                    && (#[trigger] nodes[n as int].tables->0@[t].columns@[k]).name@ == o.column@
                    && nodes[n as int].tables->0@[t].columns@[k].sql_type == ty
        },
{
    if let Some(o) = c.origin {
        if let Some(n) = node_place(nodes, o.database@, 0) {
            what_is_found_has_its_name(
                nodes,
                Seq::empty(),
                Seq::empty(),
                None,
                o.database@,
                0,
            );
            if let Some(tables) = nodes[n as int].tables {
                assert(nodes[n as int].tables->0@.len() <= usize::MAX);
                what_is_found_has_its_name(
                    Seq::empty(),
                    tables@,
                    Seq::empty(),
                    text_of(o.schema),
                    o.table@,
                    0,
                );
                if let Some(t) = table_place(tables@, text_of(o.schema), o.table@, 0) {
                    let cols = tables@[t as int].columns;
                    assert(cols@.len() == cols.len());
                    what_is_found_has_its_name(Seq::empty(), Seq::empty(), cols@, None, o.column@, 0);
                    if let Some(k) = column_place(cols@, o.column@, 0) {
                        assert(nodes[n as int].tables->0@[t as int].columns@[k as int].name@ == o.column@);
                    }
                }
            }
        }
    }
}

/// A cell leads along a foreign key that its column is part of and whose columns are all shown, the last
/// such one of the table; along none where there is none.
pub proof fn a_cell_leads_along_its_last_key(t: TableInfo, by_name: Seq<NamedCol>, ci: usize, n: int, k: int)
    requires
        0 <= n <= t.foreign_keys@.len() <= usize::MAX,
    ensures
        followed_by(t, by_name, ci, n) matches Some(f) ==> {
            &&& f < n
            &&& exists|i: int|
                0 <= i < t.foreign_keys@[f as int].columns@.len() && col_named(
                    by_name,
                    (#[trigger] t.foreign_keys@[f as int].columns@[i])@,
                ) == Some(ci)
            &&& forall|i: int|
                0 <= i < t.foreign_keys@[f as int].columns@.len() ==> col_named(
                    by_name,
                    (#[trigger] t.foreign_keys@[f as int].columns@[i])@,
                ) is Some
        },
        0 <= k < n && (forall|i: int|
            0 <= i < t.foreign_keys@[k].columns@.len() ==> col_named(
                by_name,
                (#[trigger] t.foreign_keys@[k].columns@[i])@,
            ) is Some) && (exists|i: int|
            0 <= i < t.foreign_keys@[k].columns@.len() && col_named(
                by_name,
                (#[trigger] t.foreign_keys@[k].columns@[i])@,
            ) == Some(ci)) ==> (followed_by(t, by_name, ci, n) matches Some(f) && f >= k),
    decreases n,
{
    if n > 0 {
        a_cell_leads_along_its_last_key(t, by_name, ci, n - 1, k);
        let fk = t.foreign_keys@[n - 1];
        let cols = fk_cols(fk, by_name);
        if fk_shown(fk, by_name) && cols.contains(ci) {
            let i = cols.index_of(ci);
            assert(cols[i] == col_named(by_name, fk.columns@[i]@)->0);
            assert(col_named(by_name, fk.columns@[i]@) is Some);
        } else if k == n - 1 && (forall|i: int|
            0 <= i < fk.columns@.len() ==> col_named(by_name, (#[trigger] fk.columns@[i])@) is Some) && (
        exists|i: int|
            0 <= i < fk.columns@.len() && col_named(by_name, (#[trigger] fk.columns@[i])@) == Some(ci)) {
            let i = choose|i: int|
                0 <= i < fk.columns@.len() && col_named(by_name, (#[trigger] fk.columns@[i])@) == Some(ci);
            assert(cols[i] == ci);
        }
    }
}

/// A column's format is kept under the column's own names: its database, the table by the name that is
/// shown, and the column.
pub proof fn a_format_is_kept_under_its_column(o: Origin, k: FormatKey)
    requires
        key_is_of(o, k),
    ensures
        k.database@ == o.database@,
        k.column@ == o.column@,
        o.schema is None ==> k.table@ == o.table@,
        o.schema is Some && o.schema->0@ != "public"@ ==> k.table@.len() == o.schema->0@.len() + 1
            + o.table@.len() && k.table@.take(o.schema->0@.len() as int) == o.schema->0@,
{
    a_table_is_shown_with_its_schema(o.schema, o.table);
}

/// A result's table is the one that its source names: in the first database of that name, the first
/// table of that name and schema.
pub proof fn a_source_leads_to_its_table(nodes: Seq<DbNode>, s: TableSource, n: int, t: int)
    requires
        0 <= n < nodes.len() <= usize::MAX,
        nodes[n].database@ == s.database@,
        forall|j: int| 0 <= j < n ==> (#[trigger] nodes[j]).database@ != s.database@,
    ensures
        nodes[n].tables is None ==> source_place(nodes, Some(s)) is None,
        nodes[n].tables is Some && 0 <= t < nodes[n].tables->0@.len() <= usize::MAX
            && nodes[n].tables->0@[t].name@ == s.table@ && text_of(nodes[n].tables->0@[t].schema)
            == text_of(s.schema) && (forall|j: int|
            0 <= j < t ==> (#[trigger] nodes[n].tables->0@[j]).name@ != s.table@ || text_of(
                nodes[n].tables->0@[j].schema,
            ) != text_of(s.schema)) ==> source_place(nodes, Some(s)) == Some((n as usize, t as usize)),
        source_place(nodes, None) is None,
{
    let none = Seq::<TableInfo>::empty();
    let cols = Seq::<ColumnInfo>::empty();
    what_is_looked_up_is_the_first_of_its_name(nodes, none, cols, None, s.database@, 0, n);
    if nodes[n].tables is Some && 0 <= t < nodes[n].tables->0@.len() <= usize::MAX {
        what_is_looked_up_is_the_first_of_its_name(
            Seq::empty(),
            nodes[n].tables->0@,
            cols,
            text_of(s.schema),
            s.table@,
            0,
            t,
        );
    }
}

/// What is found for a source has the source's names.
pub proof fn a_sources_table_has_its_names(nodes: Seq<DbNode>, s: TableSource)
    requires
        nodes.len() <= usize::MAX,
        forall|n: int|
            0 <= n < nodes.len() && (#[trigger] nodes[n]).tables is Some ==> nodes[n].tables->0@.len()
                <= usize::MAX,
    ensures
        source_place(nodes, Some(s)) matches Some((n, t)) ==> {
            &&& n < nodes.len() && nodes[n as int].database@ == s.database@
            &&& nodes[n as int].tables is Some && t < nodes[n as int].tables->0@.len()
            &&& nodes[n as int].tables->0@[t as int].name@ == s.table@
            &&& text_of(nodes[n as int].tables->0@[t as int].schema) == text_of(s.schema)
        },
{
    let cols = Seq::<ColumnInfo>::empty();
    what_is_found_has_its_name(nodes, Seq::empty(), cols, None, s.database@, 0);
    let n = node_place(nodes, s.database@, 0);
    if n is Some && nodes[n->0 as int].tables is Some {
        what_is_found_has_its_name(
            Seq::empty(),
            nodes[n->0 as int].tables->0@,
            cols,
            text_of(s.schema),
            s.table@,
            0,
        );
    }
}

/// A column that no table holds is shown as it would be without a saved format.
pub proof fn a_computed_column_has_no_saved_format(
    rs: ResultSet,
    ci: int,
    conn: u64,
    rules: Seq<FormatRule>,
    defaults: Seq<ColumnFormat>,
)
    requires
        0 <= ci < rs.columns@.len(),
        rs.columns@[ci].origin is None,
    ensures
        first_format(rs, ci, conn, rules, defaults) == defaults[ci],
{
}

/// A column's type is the one that its table declares, where the catalogue shows the table.
pub proof fn a_declared_type_is_used(nodes: Seq<DbNode>, c: Column, n: int, t: int, k: int)
    requires
        c.origin is Some,
        0 <= n < nodes.len() <= usize::MAX,
        nodes[n].database@ == c.origin->0.database@,
        forall|j: int| 0 <= j < n ==> (#[trigger] nodes[j]).database@ != c.origin->0.database@,
        nodes[n].tables is Some,
        0 <= t < nodes[n].tables->0@.len() <= usize::MAX,
        nodes[n].tables->0@[t].name@ == c.origin->0.table@,
        text_of(nodes[n].tables->0@[t].schema) == text_of(c.origin->0.schema),
        forall|j: int|
            0 <= j < t ==> (#[trigger] nodes[n].tables->0@[j]).name@ != c.origin->0.table@ || text_of(
                nodes[n].tables->0@[j].schema,
            ) != text_of(c.origin->0.schema),
        0 <= k < nodes[n].tables->0@[t].columns@.len() <= usize::MAX,
        nodes[n].tables->0@[t].columns@[k].name@ == c.origin->0.column@,
        forall|j: int|
            0 <= j < k ==> (#[trigger] nodes[n].tables->0@[t].columns@[j]).name@ != c.origin->0.column@,
    ensures
        type_source(nodes, c) == TypeSource::Declared(
            nodes[n].tables->0@[t].columns@[k].sql_type,
            n as usize,
        ),
{
    let o = c.origin->0;
    let tables = nodes[n].tables->0@;
    let none = Seq::<TableInfo>::empty();
    let cols = Seq::<ColumnInfo>::empty();
    what_is_looked_up_is_the_first_of_its_name(nodes, none, cols, None, o.database@, 0, n);
    what_is_looked_up_is_the_first_of_its_name(
        Seq::empty(),
        tables,
        cols,
        text_of(o.schema),
        o.table@,
        0,
        t,
    );
    what_is_looked_up_is_the_first_of_its_name(
        Seq::empty(),
        none,
        tables[t].columns@,
        None,
        o.column@,
        0,
        k,
    );
}

/// A key is followed by its own columns, in its order.
pub proof fn a_key_is_followed_by_its_columns(fk: ForeignKeyInfo, by_name: Seq<NamedCol>, i: int, ci: usize)
    requires
        0 <= i < fk.columns@.len(),
    ensures
        fk_cols(fk, by_name).len() == fk.columns@.len(),
        col_named(by_name, fk.columns@[i]@) == Some(ci) ==> fk_cols(fk, by_name)[i] == ci,
        fk_shown(fk, by_name) ==> col_named(by_name, fk.columns@[i]@) is Some,
{
}

} // verus!
