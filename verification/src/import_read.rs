//! How a file to import is read, and how its first rows are shown.

use vstd::prelude::*;
use vstd::utf8::{encode_utf8, is_ascii_chars, is_ascii_chars_encode_utf8};
use crate::columns::{ColumnInfo, TableInfo};
use crate::menu::{Act, Entry, EntryView};
use crate::text::{chars_of, decimal, digits, joined, trim, trimmed};

verus! {

/// Texts as their characters.
pub open spec fn texts(v: Seq<String>) -> Seq<Seq<char>> {
    v.map_values(|s: String| s@)
}

/// The formats a file can be imported from.
#[derive(Clone, Copy, Debug, PartialEq, Eq, Structural)]
pub enum ImportFormat {
    Csv,
    Json,
    Xlsx,
}

/// How the text of a file is divided.
#[derive(Clone, Copy, Debug, PartialEq, Eq, Structural)]
pub struct CsvDialect {
    pub delimiter: u8,
    pub quote: u8,
    pub has_header: bool,
}

/// How a file is read: how it is divided, the texts that stand for no value, whether white space is
/// cut, and which sheet is read.
pub struct ReadConfig {
    pub dialect: CsvDialect,
    pub nulls: Vec<String>,
    pub trim: bool,
    pub sheet: Option<String>,
}

/// The byte a delimiter's field stands for: a tab for itself and for its escape, else the first
/// byte, and a comma for an empty field.
pub open spec fn delimiter_of(s: Seq<char>) -> u8 {
    if s == "\\t"@ || s == "\t"@ {
        9
    } else if encode_utf8(s).len() > 0 {
        encode_utf8(s)[0]
    } else {
        44
    }
}

/// The byte a delimiter's field stands for.
pub fn read_delimiter(field: &String) -> (r: u8)
    ensures
        r == delimiter_of(field@),
{
    if *field == "\\t".to_owned() || *field == "\t".to_owned() {
        return 9;
    }
    let bytes: &[u8] = field.as_str().as_bytes();
    if bytes.len() > 0 {
        bytes[0]
    } else {
        44
    }
}

/// How a delimiter is shown: a tab by its escape, any other by itself.
pub open spec fn delimiter_text(d: u8) -> Seq<char> {
    if d == 9 {
        "\\t"@
    } else {
        seq![d as char]
    }
}

/// How a delimiter is shown.
pub fn delimiter_display(d: u8) -> (r: String)
    ensures
        r@ == delimiter_text(d),
{
    if d == 9 {
        "\\t".to_owned()
    } else {
        let mut out: String = String::new();
        out.push(d as char);
        assert(out@ =~= seq![d as char]);
        out
    }
}

/// A delimiter that is shown is read back as itself, where it is an ASCII character.
pub proof fn a_shown_delimiter_is_read_back(d: u8)
    requires
        d < 128,
    ensures
        delimiter_of(delimiter_text(d)) == d,
{
    reveal_strlit("\\t");
    reveal_strlit("\t");
    if d != 9 {
        let s = seq![d as char];
        assert(s != "\\t"@) by {
            assert("\\t"@.len() == 2);
        }
        assert(s != "\t"@) by {
            assert("\t"@[0] == '\t');
            assert(s[0] != '\t');
        }
        assert(is_ascii_chars(s));
        is_ascii_chars_encode_utf8(s);
        assert(s[0] as u8 == encode_utf8(s)[0]);
    }
}

/// A text divided at its commas.
pub open spec fn pieces(s: Seq<char>) -> Seq<Seq<char>>
    decreases s.len(),
{
    if s.len() == 0 {
        seq![Seq::<char>::empty()]
    } else {
        let before = pieces(s.drop_last());
        if s.last() == ',' {
            before.push(Seq::empty())
        } else {
            before.update(before.len() - 1, before.last().push(s.last()))
        }
    }
}

/// The pieces without the white space around them, those that hold anything.
pub open spec fn words(p: Seq<Seq<char>>) -> Seq<Seq<char>>
    decreases p.len(),
{
    if p.len() == 0 {
        Seq::empty()
    } else if trim(p.last()).len() > 0 {
        words(p.drop_last()).push(trim(p.last()))
    } else {
        words(p.drop_last())
    }
}

/// The texts that stand for no value: the empty one where its toggle says so, and those that are
/// listed between commas.
pub open spec fn null_tokens(empty_is_null: bool, tokens: Seq<char>) -> Seq<Seq<char>> {
    (if empty_is_null {
        seq![Seq::<char>::empty()]
    } else {
        Seq::empty()
    }) + words(pieces(tokens))
}

proof fn lemma_pieces(s: Seq<char>)
    ensures
        pieces(s).len() > 0,
    decreases s.len(),
{
    if s.len() > 0 {
        lemma_pieces(s.drop_last());
    }
}

/// Whether a text can be listed between commas and read back: it holds something, no comma, and no
/// white space at its ends.
pub open spec fn can_be_listed(s: Seq<char>) -> bool {
    s.len() > 0 && !s.contains(',') && trim(s) == s
}

proof fn lemma_pieces_go_on(a: Seq<char>, w: Seq<char>)
    requires
        !w.contains(','),
    ensures
        pieces(a + w) == pieces(a).update(pieces(a).len() - 1, pieces(a).last() + w),
    decreases w.len(),
{
    lemma_pieces(a);
    if w.len() == 0 {
        assert(a + w =~= a);
        assert(pieces(a).last() + w =~= pieces(a).last());
        assert(pieces(a) =~= pieces(a).update(pieces(a).len() - 1, pieces(a).last()));
    } else {
        assert(!w.drop_last().contains(',')) by {
            assert forall|i: int| 0 <= i < w.drop_last().len() implies w.drop_last()[i] != ',' by {
                assert(w.contains(w[i]));
            }
        }
        lemma_pieces_go_on(a, w.drop_last());
        assert((a + w).drop_last() =~= a + w.drop_last());
        assert(w.contains(w.last()));
        assert((a + w).last() == w.last());
        assert((pieces(a).last() + w.drop_last()).push(w.last()) =~= pieces(a).last() + w);
        assert(pieces(a + w) =~= pieces(a).update(pieces(a).len() - 1, pieces(a).last() + w));
    }
}

proof fn lemma_pieces_of_list(v: Seq<String>)
    requires
        v.len() > 0,
        forall|k: int| 0 <= k < v.len() ==> can_be_listed((#[trigger] v[k])@),
    ensures
        pieces(joined(v, ","@)) == texts(v),
    decreases v.len(),
{
    reveal_strlit(",");
    let w = v.last()@;
    if v.len() == 1 {
        lemma_pieces_go_on(Seq::empty(), w);
        assert(Seq::<char>::empty() + w =~= w);
        assert(pieces(Seq::<char>::empty()) == seq![Seq::<char>::empty()]);
        assert(pieces(w) =~= texts(v));
    } else {
        let front = v.drop_last();
        assert forall|k: int| 0 <= k < front.len() implies can_be_listed((#[trigger] front[k])@) by {
            assert(front[k] == v[k]);
        }
        lemma_pieces_of_list(front);
        let a = joined(front, ","@) + ","@;
        assert(","@ =~= seq![',']);
        assert(a.drop_last() =~= joined(front, ","@));
        assert(a.last() == ',');
        assert(pieces(a) == texts(front).push(Seq::empty()));
        lemma_pieces_go_on(a, w);
        assert(Seq::<char>::empty() + w =~= w);
        assert(pieces(a + w) =~= texts(v));
    }
}

proof fn lemma_words_of_list(v: Seq<String>)
    requires
        forall|k: int| 0 <= k < v.len() ==> can_be_listed((#[trigger] v[k])@),
    ensures
        words(texts(v)) == texts(v),
    decreases v.len(),
{
    if v.len() > 0 {
        let front = v.drop_last();
        assert forall|k: int| 0 <= k < front.len() implies can_be_listed((#[trigger] front[k])@) by {
            assert(front[k] == v[k]);
        }
        lemma_words_of_list(front);
        assert(texts(v).drop_last() =~= texts(front));
        assert(can_be_listed(v[v.len() - 1]@));
        assert(texts(front).push(v.last()@) =~= texts(v));
    } else {
        assert(words(texts(v)) =~= texts(v));
    }
}

/// The texts that stand for no value are shown as a list between commas, and read back from it as
/// they were, where each can be listed.
pub proof fn listed_nulls_are_read_back(empty_is_null: bool, v: Seq<String>)
    requires
        forall|k: int| 0 <= k < v.len() ==> can_be_listed((#[trigger] v[k])@),
    ensures
        null_tokens(empty_is_null, joined(v, ","@)) == null_tokens(empty_is_null, Seq::empty())
            + texts(v),
{
    let none = Seq::<char>::empty();
    assert(trim(none).len() == 0);
    assert(pieces(none).last() == none);
    assert(pieces(none).drop_last() =~= Seq::<Seq<char>>::empty());
    assert(words(Seq::<Seq<char>>::empty()) =~= Seq::<Seq<char>>::empty());
    assert(words(pieces(none)) =~= Seq::<Seq<char>>::empty());
    if v.len() > 0 {
        lemma_pieces_of_list(v);
        lemma_words_of_list(v);
    } else {
        assert(joined(v, ","@) =~= none);
        assert(texts(v) =~= Seq::<Seq<char>>::empty());
    }
    assert(null_tokens(empty_is_null, joined(v, ","@)) =~= null_tokens(empty_is_null, none)
        + texts(v));
}

/// The texts that stand for no value. The empty one has a toggle of its own, as it cannot be listed.
pub fn null_rule(empty_is_null: bool, tokens: &str) -> (r: Vec<String>)
    ensures
        texts(r@) == null_tokens(empty_is_null, tokens@),
{
    let mut out: Vec<String> = Vec::new();
    if empty_is_null {
        out.push(String::new());
    }
    let ghost front = texts(out@);
    assert(front =~= if empty_is_null {
        seq![Seq::<char>::empty()]
    } else {
        Seq::empty()
    });
    let chars: Vec<char> = chars_of(tokens);
    let mut cur: String = String::new();
    let mut i: usize = 0;
    proof {
        assert(pieces(tokens@.take(0)).drop_last() =~= Seq::<Seq<char>>::empty());
        assert(texts(out@) =~= front + words(pieces(tokens@.take(0)).drop_last()));
        assert(cur@ =~= pieces(tokens@.take(0)).last());
    }
    while i < chars.len()
        invariant
            chars@ == tokens@,
            i <= chars@.len(),
            texts(out@) == front + words(pieces(tokens@.take(i as int)).drop_last()),
            cur@ == pieces(tokens@.take(i as int)).last(),
        decreases chars@.len() - i,
    {
        let c: char = chars[i];
        let ghost was = pieces(tokens@.take(i as int));
        let ghost now = pieces(tokens@.take(i + 1));
        let ghost had = texts(out@);
        proof {
            lemma_pieces(tokens@.take(i as int));
            assert(tokens@.take(i + 1).drop_last() =~= tokens@.take(i as int));
            assert(tokens@.take(i + 1).last() == c);
        }
        if c == ',' {
            let t: String = trimmed(cur.as_str());
            assert(now.drop_last() =~= was);
            if !t.as_str().is_empty() {
                out.push(t);
                assert(texts(out@) =~= had.push(trim(was.last())));
                assert(front + words(was) =~= (front + words(was.drop_last())).push(
                    trim(was.last()),
                ));
            } else {
                assert(words(was) =~= words(was.drop_last()));
            }
            cur = String::new();
        } else {
            cur.push(c);
            assert(now.drop_last() =~= was.drop_last());
        }
        i = i + 1;
    }
    assert(tokens@.take(tokens@.len() as int) =~= tokens@);
    let ghost all = pieces(tokens@);
    let ghost had = texts(out@);
    proof {
        lemma_pieces(tokens@);
    }
    let t: String = trimmed(cur.as_str());
    if !t.as_str().is_empty() {
        out.push(t);
        assert(texts(out@) =~= had.push(trim(all.last())));
        assert(front + words(all) =~= (front + words(all.drop_last())).push(trim(all.last())));
    }
    out
}

/// A field of a row as it is shown: no value, or a text.
#[derive(Clone, Copy, Debug, PartialEq, Eq, Structural)]
pub enum PreviewKind {
    Null,
    Text,
}

/// Whether a text is among others.
pub open spec fn is_among(v: Seq<String>, s: Seq<char>) -> bool {
    exists|i: int| 0 <= i < v.len() && (#[trigger] v[i])@ == s
}

/// Whether a field lands without a value: one that has none, or, in a file that cannot say so
/// itself, one whose text stands for none.
pub open spec fn lands_null(field: Option<String>, nulls: Seq<String>, own_nulls: bool) -> bool {
    match field {
        None => true,
        Some(t) => !own_nulls && is_among(nulls, t@),
    }
}

/// Whether a field lands without a value.
pub fn preview_field(field: &Option<String>, nulls: &Vec<String>, own_nulls: bool) -> (r: PreviewKind)
    ensures
        r == if lands_null(*field, nulls@, own_nulls) {
            PreviewKind::Null
        } else {
            PreviewKind::Text
        },
{
    match field {
        None => PreviewKind::Null,
        Some(t) => {
            if own_nulls {
                return PreviewKind::Text;
            }
            let mut i: usize = 0;
            while i < nulls.len()
                invariant
                    !own_nulls,
                    *field == Some(*t),
                    i <= nulls@.len(),
                    forall|k: int| 0 <= k < i ==> (#[trigger] nulls@[k])@ != t@,
                decreases nulls@.len() - i,
            {
                if nulls[i] == *t {
                    return PreviewKind::Null;
                }
                i = i + 1;
            }
            PreviewKind::Text
        },
    }
}

/// Where a column of the file goes: nowhere, or into a column of the table.
#[derive(Clone, Copy, Debug, PartialEq, Eq, Structural)]
pub enum Target {
    Skip,
    Column(usize),
}

/// The first rows of a file. `values_withheld` where only the names of its columns could be read.
pub struct Sample {
    pub columns: Vec<String>,
    pub rows: Vec<Vec<Option<String>>>,
    pub values_withheld: bool,
}

/// Whether a column of the file goes into the table.
pub open spec fn is_mapped(mapping: Seq<Target>, fi: int) -> bool {
    0 <= fi < mapping.len() && mapping[fi] is Column
}

/// The first `n` columns of the file, those that go into the table.
pub open spec fn mapped_cols(mapping: Seq<Target>, n: int) -> Seq<usize>
    decreases n,
{
    if n <= 0 {
        Seq::empty()
    } else if is_mapped(mapping, n - 1) {
        mapped_cols(mapping, n - 1).push((n - 1) as usize)
    } else {
        mapped_cols(mapping, n - 1)
    }
}

/// The columns of the file that go into the table.
pub fn shown_cols(ncols: usize, mapping: &Vec<Target>) -> (r: Vec<usize>)
    ensures
        r@ == mapped_cols(mapping@, ncols as int),
{
    let mut out: Vec<usize> = Vec::new();
    let mut fi: usize = 0;
    while fi < ncols
        invariant
            fi <= ncols,
            out@ == mapped_cols(mapping@, fi as int),
        decreases ncols - fi,
    {
        let goes: bool = fi < mapping.len() && match mapping[fi] {
            Target::Column(_) => true,
            Target::Skip => false,
        };
        if goes {
            out.push(fi);
        }
        fi = fi + 1;
    }
    out
}

/// How many rows of a file are shown.
pub const PREVIEW_ROWS: usize = 50;

/// How many problems of a file are listed.
pub const ISSUE_LINES: usize = 50;

/// A cell of the preview.
pub struct PreviewCell {
    pub text: String,
    pub is_null: bool,
}

/// What the preview shows: nothing yet, a sentence, or a table.
pub enum Preview {
    Empty,
    Unmapped,
    Withheld,
    Table(Vec<usize>, Vec<Vec<PreviewCell>>),
}

/// Whether this is the preview of a field: its text, or the word for no value. A row that is too
/// short has none.
pub open spec fn previews(
    row: Seq<Option<String>>,
    fi: int,
    nulls: Seq<String>,
    own_nulls: bool,
    c: PreviewCell,
) -> bool {
    let field = if fi < row.len() {
        row[fi]
    } else {
        None
    };
    if lands_null(field, nulls, own_nulls) {
        c.is_null && c.text@ == "NULL"@
    } else {
        !c.is_null && c.text@ == field->0@
    }
}

/// Whether these are the previews of a row's columns.
pub open spec fn previews_row(
    row: Seq<Option<String>>,
    cols: Seq<usize>,
    nulls: Seq<String>,
    own_nulls: bool,
    cells: Seq<PreviewCell>,
) -> bool {
    &&& cells.len() == cols.len()
    &&& forall|k: int|
        0 <= k < cells.len() ==> previews(row, cols[k] as int, nulls, own_nulls, #[trigger] cells[k])
}

/// How many rows of a sample are shown.
pub open spec fn preview_len(s: Sample) -> int {
    if s.rows@.len() < PREVIEW_ROWS {
        s.rows@.len() as int
    } else {
        PREVIEW_ROWS as int
    }
}

/// The preview of one row: its columns that go into the table.
fn preview_row(row: &Vec<Option<String>>, cols: &Vec<usize>, nulls: &Vec<String>, own_nulls: bool) -> (r:
    Vec<PreviewCell>)
    ensures
        previews_row(row@, cols@, nulls@, own_nulls, r@),
{
    let mut out: Vec<PreviewCell> = Vec::new();
    let mut k: usize = 0;
    while k < cols.len()
        invariant
            k <= cols@.len(),
            out@.len() == k,
            forall|j: int|
                0 <= j < k ==> previews(row@, cols@[j] as int, nulls@, own_nulls, #[trigger] out@[j]),
        decreases cols@.len() - k,
    {
        let fi: usize = cols[k];
        let cell: PreviewCell = if fi < row.len() {
            match preview_field(&row[fi], nulls, own_nulls) {
                PreviewKind::Null => PreviewCell { text: "NULL".to_owned(), is_null: true },
                PreviewKind::Text => match &row[fi] {
                    Some(t) => PreviewCell { text: t.clone(), is_null: false },
                    None => PreviewCell { text: "NULL".to_owned(), is_null: true },
                },
            }
        } else {
            PreviewCell { text: "NULL".to_owned(), is_null: true }
        };
        out.push(cell);
        k = k + 1;
    }
    out
}

/// The preview of a file: the first rows as they would land, in the columns that go into the table.
pub fn preview_table(
    sample: &Option<Sample>,
    mapping: &Vec<Target>,
    nulls: &Vec<String>,
    own_nulls: bool,
) -> (r: Preview)
    ensures
        match *sample {
            None => r is Empty,
            Some(s) => {
                let cols = mapped_cols(mapping@, s.columns@.len() as int);
                if cols.len() == 0 {
                    r is Unmapped
                } else if s.values_withheld {
                    r is Withheld
                } else {
                    &&& r matches Preview::Table(shown, rows)
                    &&& shown@ == cols
                    &&& rows@.len() == preview_len(s)
                    &&& forall|i: int|
                        0 <= i < rows@.len() ==> previews_row(
                            s.rows@[i]@,
                            cols,
                            nulls@,
                            own_nulls,
                            (#[trigger] rows@[i])@,
                        )
                }
            },
        },
{
    let s: &Sample = match sample {
        Some(s) => s,
        None => return Preview::Empty,
    };
    let cols: Vec<usize> = shown_cols(s.columns.len(), mapping);
    if cols.len() == 0 {
        return Preview::Unmapped;
    }
    if s.values_withheld {
        return Preview::Withheld;
    }
    let n: usize = if s.rows.len() < PREVIEW_ROWS {
        s.rows.len()
    } else {
        PREVIEW_ROWS
    };
    let mut rows: Vec<Vec<PreviewCell>> = Vec::new();
    let mut i: usize = 0;
    while i < n
        invariant
            i <= n <= s.rows@.len(),
            rows@.len() == i,
            forall|j: int|
                0 <= j < i ==> previews_row(
                    s.rows@[j]@,
                    cols@,
                    nulls@,
                    own_nulls,
                    (#[trigger] rows@[j])@,
                ),
        decreases n - i,
    {
        rows.push(preview_row(&s.rows[i], &cols, nulls, own_nulls));
        i = i + 1;
    }
    Preview::Table(cols, rows)
}

/// What the preview says in place of a table.
pub fn preview_message(p: &Preview) -> (r: Option<&'static str>)
    ensures
        r is Some <==> p is Unmapped || p is Withheld,
        p is Unmapped ==> r->0@ == "Nothing is mapped, so there's nothing to import."@,
        p is Withheld ==> r->0@
            == "This file's first record is too large to preview, so only the column names were read. Mapping and import read the whole file."@,
{
    match p {
        Preview::Unmapped => Some("Nothing is mapped, so there's nothing to import."),
        Preview::Withheld => Some(
            "This file's first record is too large to preview, so only the column names were read. Mapping and import read the whole file.",
        ),
        _ => None,
    }
}

/// A problem of a file: its line, the column where it is of one, and what is wrong.
pub struct Issue {
    pub line: u64,
    pub column: String,
    pub message: String,
}

/// What a problem is listed as.
pub open spec fn issue_text(i: Issue) -> Seq<char> {
    (if i.column@.len() == 0 {
        "line "@ + digits(i.line as nat)
    } else {
        "line "@ + digits(i.line as nat) + ", "@ + i.column@
    }) + ": "@ + i.message@
}

/// What a problem is listed as.
pub fn issue_line(i: &Issue) -> (r: String)
    ensures
        r@ == issue_text(*i),
{
    let mut out: String = "line ".to_owned();
    out.append(decimal(i.line as u128).as_str());
    if !i.column.as_str().is_empty() {
        out.append(", ");
        out.append(i.column.as_str());
    }
    out.append(": ");
    out.append(i.message.as_str());
    out
}

/// What a list of problems leaves out: it shows so many of those that were found, and the search
/// itself may have been given up. The line below the list is made from both.
#[derive(Clone, Copy, Debug, PartialEq, Eq, Structural)]
pub struct Tail {
    pub shown: usize,
    pub total: usize,
    pub more: bool,
}

/// The problems of a file as they are listed: a heading that counts them all, the first of them,
/// line by line, and what is left out.
pub struct IssueList {
    pub heading: String,
    pub lines: Vec<String>,
    pub tail: Tail,
}

/// The list of a file's problems; nothing where it has none. `more` where the search was given up
/// before the file's end.
pub fn issue_list(issues: &Vec<Issue>, more: bool) -> (r: Option<IssueList>)
    ensures
        r is None <==> issues@.len() == 0,
        r matches Some(l) ==> {
            let n = issues@.len();
            &&& l.heading@ == digits(n) + " problem"@ + crate::text::plural_s(n)
                + " in the file — nothing was imported."@
            &&& l.lines@.len() == if n < ISSUE_LINES {
                n as int
            } else {
                ISSUE_LINES as int
            }
            &&& forall|k: int|
                0 <= k < l.lines@.len() ==> (#[trigger] l.lines@[k])@ == issue_text(issues@[k])
            &&& l.tail.shown == l.lines@.len()
            &&& l.tail.total == n
            &&& l.tail.more == more
        },
{
    let n: usize = issues.len();
    if n == 0 {
        return None;
    }
    let mut heading: String = decimal(n as u128);
    heading.append(" problem");
    heading.append(crate::text::plural(n as u64, "", "s"));
    heading.append(" in the file — nothing was imported.");
    let shown: usize = if n < ISSUE_LINES {
        n
    } else {
        ISSUE_LINES
    };
    let mut lines: Vec<String> = Vec::new();
    let mut i: usize = 0;
    while i < shown
        invariant
            i <= shown <= issues@.len(),
            lines@.len() == i,
            forall|k: int| 0 <= k < i ==> (#[trigger] lines@[k])@ == issue_text(issues@[k]),
        decreases shown - i,
    {
        lines.push(issue_line(&issues[i]));
        i = i + 1;
    }
    Some(IssueList { heading, lines, tail: Tail { shown, total: n, more } })
}

/// What a target is called: nothing to import, a column with its type, or a dash for one that is
/// not there.
pub open spec fn target_text(t: Target, table: TableInfo) -> Seq<char> {
    match t {
        Target::Skip => "Skip"@,
        Target::Column(ci) => if ci < table.columns@.len() {
            table.columns@[ci as int].name@ + "  ("@ + table.columns@[ci as int].sql_type@ + ")"@
        } else {
            "—"@
        },
    }
}

/// What a target is called.
pub fn target_label(t: Target, table: &TableInfo) -> (r: String)
    ensures
        r@ == target_text(t, *table),
{
    match t {
        Target::Skip => "Skip".to_owned(),
        Target::Column(ci) => if ci < table.columns.len() {
            let c: &ColumnInfo = &table.columns[ci];
            let mut out: String = c.name.clone();
            out.append("  (");
            out.append(c.sql_type.as_str());
            out.append(")");
            out
        } else {
            "—".to_owned()
        },
    }
}

/// Where a column of the file goes.
pub open spec fn target_at(mapping: Seq<Target>, fi: int) -> Target {
    if 0 <= fi < mapping.len() {
        mapping[fi]
    } else {
        Target::Skip
    }
}

/// Where a column of the file goes.
pub fn current_target(mapping: &Vec<Target>, fi: usize) -> (r: Target)
    ensures
        r == target_at(mapping@, fi as int),
{
    if fi < mapping.len() {
        mapping[fi]
    } else {
        Target::Skip
    }
}

/// The mapping once a column of the file was sent somewhere: whoever went into that column of the
/// table before goes nowhere now.
pub open spec fn remapped(mapping: Seq<Target>, fi: int, chosen: Target) -> Seq<Target> {
    Seq::new(
        mapping.len(),
        |j: int|
            if j == fi {
                chosen
            } else if chosen is Column && mapping[j] == chosen {
                Target::Skip
            } else {
                mapping[j]
            },
    )
}

/// Whether no two columns of the file go into one column of the table.
pub open spec fn one_to_one(mapping: Seq<Target>) -> bool {
    forall|i: int, j: int|
        #![trigger mapping[i], mapping[j]]
        0 <= i < j < mapping.len() && mapping[i] is Column ==> mapping[i] != mapping[j]
}

/// Send a column of the file into a column of the table, or nowhere.
pub fn pick_target(mapping: &mut Vec<Target>, fi: usize, chosen: Target)
    ensures
        final(mapping)@ == remapped(old(mapping)@, fi as int, chosen),
{
    let n: usize = mapping.len();
    let mut j: usize = 0;
    while j < n
        invariant
            j <= n == mapping@.len(),
            n == old(mapping)@.len(),
            forall|k: int|
                0 <= k < j ==> #[trigger] mapping@[k] == remapped(
                    old(mapping)@,
                    fi as int,
                    chosen,
                )[k],
            forall|k: int| j <= k < n ==> #[trigger] mapping@[k] == old(mapping)@[k],
        decreases n - j,
    {
        if j == fi {
            mapping.set(j, chosen);
        } else {
            let same: bool = match chosen {
                Target::Column(_) => mapping[j] == chosen,
                Target::Skip => false,
            };
            if same {
                mapping.set(j, Target::Skip);
            }
        }
        j = j + 1;
    }
    assert(mapping@ =~= remapped(old(mapping)@, fi as int, chosen));
}

/// No two columns of the file ever go into one column of the table: a choice keeps it so.
pub proof fn a_choice_keeps_columns_apart(mapping: Seq<Target>, fi: int, chosen: Target)
    requires
        one_to_one(mapping),
    ensures
        one_to_one(remapped(mapping, fi, chosen)),
        0 <= fi < mapping.len() ==> target_at(remapped(mapping, fi, chosen), fi) == chosen,
{
    let now = remapped(mapping, fi, chosen);
    assert forall|i: int, j: int|
        #![trigger now[i], now[j]]
        0 <= i < j < now.len() && now[i] is Column implies now[i] != now[j] by {
        if i != fi && j != fi {
            assert(now[i] == mapping[i]);
            assert(mapping[i] != mapping[j]);
        }
    }
}

/// The menu of a column of the file: to skip it, and the columns of the table, the one that holds
/// being marked.
pub open spec fn target_entry(t: Target, held: Target, table: TableInfo, at: usize) -> EntryView {
    if t == held {
        EntryView::Marked(Act::Pick(at), target_text(t, table))
    } else {
        EntryView::Item(Act::Pick(at), target_text(t, table))
    }
}

/// The target of an entry: the first skips, the others are the columns in order.
pub open spec fn target_of(at: int) -> Target {
    if at == 0 {
        Target::Skip
    } else {
        Target::Column((at - 1) as usize)
    }
}

/// The menu of a column of the file. To skip it always comes first.
pub fn mapping_row(mapping: &Vec<Target>, fi: usize, table: &TableInfo) -> (r: Vec<Entry>)
    requires
        table.columns@.len() < usize::MAX,
    ensures
        r@.len() == table.columns@.len() + 1,
        forall|k: int|
            0 <= k < r@.len() ==> (#[trigger] r@[k])@ == target_entry(
                target_of(k),
                target_at(mapping@, fi as int),
                *table,
                k as usize,
            ),
{
    let held: Target = current_target(mapping, fi);
    let n: usize = table.columns.len() + 1;
    let mut out: Vec<Entry> = Vec::new();
    let mut k: usize = 0;
    while k < n
        invariant
            n == table.columns@.len() + 1,
            k <= n,
            held == target_at(mapping@, fi as int),
            out@.len() == k,
            forall|j: int|
                0 <= j < k ==> (#[trigger] out@[j])@ == target_entry(
                    target_of(j),
                    held,
                    *table,
                    j as usize,
                ),
        decreases n - k,
    {
        let t: Target = if k == 0 {
            Target::Skip
        } else {
            Target::Column(k - 1)
        };
        let label: String = target_label(t, table);
        out.push(
            if t == held {
                Entry::Marked(Act::Pick(k), label)
            } else {
                Entry::Item(Act::Pick(k), label)
            },
        );
        k = k + 1;
    }
    out
}

/// Whether any column of the file goes into a column that the table has.
pub open spec fn fills_any(mapping: Seq<Target>, ncols: int) -> bool {
    exists|i: int|
        0 <= i < mapping.len() && ((#[trigger] mapping[i]) matches Target::Column(ci) && ci < ncols)
}

/// Whether any column of the file goes into a column that the table has: without one there is
/// nothing to import.
pub fn has_insert_columns(mapping: &Vec<Target>, table: &TableInfo) -> (r: bool)
    ensures
        r == fills_any(mapping@, table.columns@.len() as int),
{
    let mut i: usize = 0;
    while i < mapping.len()
        invariant
            i <= mapping@.len(),
            forall|k: int|
                0 <= k < i ==> !((#[trigger] mapping@[k]) matches Target::Column(ci) && ci
                    < table.columns@.len()),
        decreases mapping@.len() - i,
    {
        if let Target::Column(ci) = mapping[i] {
            if ci < table.columns.len() {
                return true;
            }
        }
        i = i + 1;
    }
    false
}

/// A choice is about one column of the file: it takes the target that was chosen, and of the others only
/// the one that had it gives it up. Every other column of the file keeps its target.
pub proof fn a_choice_is_about_one_column(mapping: Seq<Target>, fi: int, chosen: Target, j: int)
    requires
        0 <= j < mapping.len(),
    ensures
        remapped(mapping, fi, chosen).len() == mapping.len(),
        j == fi ==> remapped(mapping, fi, chosen)[j] == chosen,
        j != fi && mapping[j] != chosen ==> remapped(mapping, fi, chosen)[j] == mapping[j],
        j != fi && mapping[j] == chosen ==> remapped(mapping, fi, chosen)[j] == Target::Skip,
{
}

/// The columns that are shown are those of the file that go into the table, each once and in their
/// order.
pub proof fn the_mapped_columns_are_shown(mapping: Seq<Target>, n: int)
    requires
        0 <= n <= usize::MAX,
    ensures
        forall|fi: usize|
            #[trigger] mapped_cols(mapping, n).contains(fi) <==> fi < n && fi < mapping.len()
                && mapping[fi as int] != Target::Skip,
        forall|i: int, j: int|
            0 <= i < j < mapped_cols(mapping, n).len() ==> #[trigger] mapped_cols(mapping, n)[i]
                < #[trigger] mapped_cols(mapping, n)[j],
        forall|i: int|
            0 <= i < mapped_cols(mapping, n).len() ==> #[trigger] mapped_cols(mapping, n)[i] < n,
    decreases n,
{
    if n > 0 {
        the_mapped_columns_are_shown(mapping, n - 1);
        let before = mapped_cols(mapping, n - 1);
        let now = mapped_cols(mapping, n);
        assert forall|fi: usize| #[trigger] now.contains(fi) <==> fi < n && fi < mapping.len()
            && mapping[fi as int] != Target::Skip by {
            if before.contains(fi) {
                let i = before.index_of(fi);
                assert(now[i] == fi);
            }
            if now.contains(fi) {
                let i = now.index_of(fi);
                if i < before.len() {
                    assert(before[i] == fi);
                }
            }
            if fi == n - 1 && is_mapped(mapping, n - 1) {
                assert(now[before.len() as int] == fi);
            }
        }
    }
}

/// A field lands without a value where it has none, or where its text is one that stands for none; but
/// a format that has its own values for none takes every text as it is.
pub proof fn a_text_lands_as_it_reads(field: Option<String>, nulls: Seq<String>, own_nulls: bool, k: int)
    ensures
        field is None ==> lands_null(field, nulls, own_nulls),
        field is Some && own_nulls ==> !lands_null(field, nulls, own_nulls),
        field is Some && !own_nulls && 0 <= k < nulls.len() && nulls[k]@ == field->0@ ==> lands_null(
            field,
            nulls,
            own_nulls,
        ),
        field is Some && (forall|i: int| 0 <= i < nulls.len() ==> (#[trigger] nulls[i])@ != field->0@)
            ==> !lands_null(field, nulls, own_nulls),
{
}

/// A cell of the preview shows what would land: the field's own text, or that there is none, also where
/// the row is too short.
pub proof fn a_preview_shows_what_lands(
    row: Seq<Option<String>>,
    fi: int,
    nulls: Seq<String>,
    own_nulls: bool,
    c: PreviewCell,
)
    requires
        0 <= fi,
        previews(row, fi, nulls, own_nulls, c),
    ensures
        fi >= row.len() ==> c.is_null,
        fi < row.len() && row[fi] is None ==> c.is_null,
        fi < row.len() && row[fi] is Some && !c.is_null ==> c.text@ == row[fi]->0@,
        c.is_null ==> c.text@ == "NULL"@,
        fi < row.len() && row[fi] is Some && own_nulls ==> !c.is_null,
{
}

/// A delimiter is the first byte of its field, a tab by its escape, and a comma where there is none.
pub proof fn a_delimiter_is_its_first_byte(s: Seq<char>)
    ensures
        delimiter_of("\\t"@) == 9,
        delimiter_of("\t"@) == 9,
        s.len() == 0 ==> delimiter_of(s) == 44,
        s != "\\t"@ && s != "\t"@ && encode_utf8(s).len() > 0 ==> delimiter_of(s) == encode_utf8(s)[0],
{
    reveal_strlit("\\t");
    reveal_strlit("\t");
    if s.len() == 0 {
        assert(s =~= Seq::<char>::empty());
        assert(is_ascii_chars(s));
        is_ascii_chars_encode_utf8(s);
        assert("\\t"@.len() == 2 && "\t"@.len() == 1);
    }
}

/// A text is divided at its commas and nowhere else: its pieces, with the commas between them, are the
/// text.
pub proof fn pieces_with_commas_are_the_text(s: Seq<char>)
    ensures
        with_commas(pieces(s)) == s,
        forall|i: int| 0 <= i < pieces(s).len() ==> !(#[trigger] pieces(s)[i]).contains(','),
        pieces(s).len() > 0,
    decreases s.len(),
{
    lemma_pieces(s);
    if s.len() == 0 {
        assert(with_commas(pieces(s)) =~= s);
    } else {
        let front = s.drop_last();
        pieces_with_commas_are_the_text(front);
        let before = pieces(front);
        let now = pieces(s);
        if s.last() == ',' {
            assert(now.drop_last() =~= before);
            assert(with_commas(now) =~= s);
            assert forall|i: int| 0 <= i < now.len() implies !(#[trigger] now[i]).contains(',') by {
                if i < before.len() {
                    assert(now[i] == before[i]);
                }
            }
        } else {
            assert(now.drop_last() =~= before.drop_last());
            assert(now.last() =~= before.last().push(s.last()));
            assert(with_commas(now) =~= with_commas(before).push(s.last()));
            assert(front.push(s.last()) =~= s);
            assert forall|i: int| 0 <= i < now.len() implies !(#[trigger] now[i]).contains(',') by {
                if i < before.len() - 1 {
                    assert(now[i] == before[i]);
                } else {
                    let p = before.last();
                    assert(!before[before.len() - 1].contains(','));
                    assert forall|m: int| 0 <= m < now[i].len() implies now[i][m] != ',' by {
                        if m < p.len() {
                            assert(p.contains(p[m]));
                        }
                    }
                }
            }
        }
    }
}

/// Pieces one after another, with commas between them.
pub open spec fn with_commas(p: Seq<Seq<char>>) -> Seq<char>
    decreases p.len(),
{
    if p.len() == 0 {
        Seq::empty()
    } else if p.len() == 1 {
        p[0]
    } else {
        with_commas(p.drop_last()) + seq![','] + p.last()
    }
}

/// The texts that stand for no value are the pieces without the white space around them, those that hold
/// anything, and the empty one where its toggle says so.
pub proof fn every_piece_stands_for_no_value(empty_is_null: bool, tokens: Seq<char>, t: Seq<char>)
    ensures
        null_tokens(empty_is_null, tokens).contains(t) <==> (t.len() == 0 && empty_is_null) || (t.len() > 0
            && exists|i: int| 0 <= i < pieces(tokens).len() && trim(#[trigger] pieces(tokens)[i]) == t),
{
    let p = pieces(tokens);
    lemma_words(p, t);
    let front = if empty_is_null {
        seq![Seq::<char>::empty()]
    } else {
        Seq::empty()
    };
    let all = null_tokens(empty_is_null, tokens);
    assert(all == front + words(p));
    if all.contains(t) {
        let i = all.index_of(t);
        if i < front.len() {
            assert(all[i] == front[i]);
        } else {
            assert(all[i] == words(p)[i - front.len()]);
            assert(words(p).contains(t));
        }
    }
    if t.len() == 0 && empty_is_null {
        assert(t =~= front[0]);
        assert(all[0] == t);
    }
    if words(p).contains(t) {
        let i = words(p).index_of(t);
        assert(all[front.len() + i] == t);
    }
}

proof fn lemma_words(p: Seq<Seq<char>>, t: Seq<char>)
    ensures
        words(p).contains(t) <==> t.len() > 0 && exists|i: int|
            0 <= i < p.len() && trim(#[trigger] p[i]) == t,
    decreases p.len(),
{
    if p.len() > 0 {
        let front = p.drop_last();
        lemma_words(front, t);
        let before = words(front);
        let now = words(p);
        if before.contains(t) {
            let i = before.index_of(t);
            assert(now[i] == t);
            let k = choose|k: int| 0 <= k < front.len() && trim(#[trigger] front[k]) == t;
            assert(trim(p[k]) == t);
        }
        if now.contains(t) {
            let i = now.index_of(t);
            if i < before.len() {
                assert(before[i] == t);
            } else {
                assert(trim(p[p.len() - 1]) == t);
            }
        }
        if t.len() > 0 && exists|i: int| 0 <= i < p.len() && trim(#[trigger] p[i]) == t {
            let i = choose|i: int| 0 <= i < p.len() && trim(#[trigger] p[i]) == t;
            if i < front.len() {
                assert(trim(front[i]) == t);
            } else {
                assert(now[before.len() as int] == t);
            }
        }
    }
}

/// A file is worth importing where one of its columns goes into a column that the table has.
pub proof fn one_mapped_column_is_enough(mapping: Seq<Target>, ncols: int, i: int, ci: usize)
    ensures
        0 <= i < mapping.len() && mapping[i] == Target::Column(ci) && ci < ncols ==> fills_any(
            mapping,
            ncols,
        ),
        (forall|k: int| 0 <= k < mapping.len() ==> #[trigger] mapping[k] == Target::Skip) ==> !fills_any(
            mapping,
            ncols,
        ),
        ncols <= 0 ==> !fills_any(mapping, ncols),
{
}

/// A problem is listed by its line, its column where it is of one, and what is wrong.
pub proof fn a_problem_says_where_it_is(i: Issue)
    ensures
        i.column@.len() == 0 ==> issue_text(i) == "line "@ + digits(i.line as nat) + ": "@ + i.message@,
        i.column@.len() > 0 ==> issue_text(i) == "line "@ + digits(i.line as nat) + ", "@ + i.column@
            + ": "@ + i.message@,
{
}

/// A row's preview has one cell for each shown column, in order, with what lands of it.
pub proof fn a_row_is_previewed_column_by_column(
    row: Seq<Option<String>>,
    cols: Seq<usize>,
    nulls: Seq<String>,
    own_nulls: bool,
    cells: Seq<PreviewCell>,
    k: int,
)
    requires
        previews_row(row, cols, nulls, own_nulls, cells),
        0 <= k < cols.len(),
    ensures
        cells.len() == cols.len(),
        cols[k] >= row.len() ==> cells[k].is_null,
        cols[k] < row.len() && row[cols[k] as int] is None ==> cells[k].is_null,
        cols[k] < row.len() && row[cols[k] as int] is Some && own_nulls ==> !cells[k].is_null
            && cells[k].text@ == row[cols[k] as int]->0@,
        cols[k] < row.len() && row[cols[k] as int] is Some && !cells[k].is_null ==> cells[k].text@
            == row[cols[k] as int]->0@,
{
    assert(previews(row, cols[k] as int, nulls, own_nulls, cells[k]));
    a_preview_shows_what_lands(row, cols[k] as int, nulls, own_nulls, cells[k]);
}

/// The preview shows every row of the sample, and fifty at most.
pub proof fn a_preview_has_fifty_rows_at_most(s: Sample)
    ensures
        s.rows@.len() <= 50 ==> preview_len(s) == s.rows@.len(),
        s.rows@.len() > 50 ==> preview_len(s) == 50,
        ISSUE_LINES == 50,
{
}

/// The menu of a file's column skips it first, and goes on with the table's columns in order; the one
/// that holds is marked, and each is named with its type.
pub proof fn a_column_can_go_to_every_column(held: Target, table: TableInfo, k: int)
    requires
        0 <= k <= table.columns@.len() < usize::MAX,
    ensures
        ({
            let e = target_entry(target_of(k), held, table, k as usize);
            let label = if k == 0 {
                "Skip"@
            } else {
                table.columns@[k - 1].name@ + "  ("@ + table.columns@[k - 1].sql_type@ + ")"@
            };
            let holds = if k == 0 {
                held == Target::Skip
            } else {
                held == Target::Column((k - 1) as usize)
            };
            &&& holds ==> e == EntryView::Marked(Act::Pick(k as usize), label)
            &&& !holds ==> e == EntryView::Item(Act::Pick(k as usize), label)
        }),
{
}

/// A delimiter is shown as its own character, and the tab as it is typed.
pub proof fn a_delimiter_is_shown_as_it_is_typed(d: u8)
    ensures
        delimiter_text(9) == "\\t"@,
        d != 9 ==> delimiter_text(d) == seq![d as char],
{
}

/// A column of the file that was not mapped is skipped.
pub proof fn an_unmapped_column_is_skipped(mapping: Seq<Target>, fi: int)
    ensures
        0 <= fi < mapping.len() ==> target_at(mapping, fi) == mapping[fi],
        fi < 0 || fi >= mapping.len() ==> target_at(mapping, fi) == Target::Skip,
{
}

/// A text is among others where one of them reads the same; texts are read in their places.
pub proof fn texts_are_read_in_their_places(v: Seq<String>, i: int)
    requires
        0 <= i < v.len(),
    ensures
        texts(v).len() == v.len(),
        texts(v)[i] == v[i]@,
        is_among(v, v[i]@),
{
}

/// A file whose columns all go nowhere, or to columns that the table lacks, fills nothing.
pub proof fn columns_that_the_table_lacks_fill_nothing(mapping: Seq<Target>, ncols: int)
    requires
        forall|k: int|
            0 <= k < mapping.len() ==> (#[trigger] mapping[k] == Target::Skip || (mapping[k] is Column
                && mapping[k]->Column_0 >= ncols)),
    ensures
        !fills_any(mapping, ncols),
{
}

} // verus!
