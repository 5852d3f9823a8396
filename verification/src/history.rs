//! The list of the queries that were run, newest first.

use vstd::prelude::*;
use crate::menu::{add_item, add_line, entry, given, line, menu_view, new_menu};
use crate::menu::{Act, Entry, EntryView};
use crate::text::{decimal, digits, plural, trim, trimmed};

verus! {

/// A query that was run: over which connection, what it was, where, from which tab, when, and
/// whether it failed.
pub struct HistoryEntry {
    pub conn_id: u64,
    pub sql: String,
    pub database: Option<String>,
    pub tab_name: Option<String>,
    pub ts: u64,
    pub failed: bool,
}

/// The first place that holds a number.
pub open spec fn place_of_id(ids: Seq<u64>, id: u64, i: int) -> Option<usize>
    decreases ids.len() - i,
{
    if i >= ids.len() {
        None
    } else if ids[i] == id {
        Some(i as usize)
    } else {
        place_of_id(ids, id, i + 1)
    }
}

/// The saved connection of this number, by its place among the numbers of all: what is looked up of
/// it is its own, not that of the connection that happens to be active.
pub fn find_connection(ids: &Vec<u64>, id: u64) -> (r: Option<usize>)
    ensures
        r == place_of_id(ids@, id, 0),
        r matches Some(i) ==> i < ids@.len() && ids@[i as int] == id,
{
    let mut i: usize = 0;
    while i < ids.len()
        invariant
            i <= ids@.len(),
            place_of_id(ids@, id, 0) == place_of_id(ids@, id, i as int),
        decreases ids@.len() - i,
    {
        if ids[i] == id {
            return Some(i);
        }
        i = i + 1;
    }
    None
}

/// Whether an entry is shown: it ran over this connection, and it holds what is searched for.
pub open spec fn is_listed(entries: Seq<HistoryEntry>, matched: Seq<bool>, conn: u64, i: int) -> bool {
    entries[i].conn_id == conn && matched[i]
}

/// The entries that are shown, among the first `n`, in their order.
pub open spec fn listed(entries: Seq<HistoryEntry>, matched: Seq<bool>, conn: u64, n: int) -> Seq<
    usize,
>
    decreases n,
{
    if n <= 0 {
        Seq::empty()
    } else if is_listed(entries, matched, conn, n - 1) {
        listed(entries, matched, conn, n - 1).push((n - 1) as usize)
    } else {
        listed(entries, matched, conn, n - 1)
    }
}

/// The entries that are shown, newest first as they are kept. `matched` tells of each whether it
/// holds what is searched for.
pub fn visible_entries(entries: &Vec<HistoryEntry>, matched: &Vec<bool>, conn: u64) -> (r: Vec<usize>)
    requires
        matched@.len() == entries@.len(),
    ensures
        r@ == listed(entries@, matched@, conn, entries@.len() as int),
{
    let mut out: Vec<usize> = Vec::new();
    let mut i: usize = 0;
    while i < entries.len()
        invariant
            matched@.len() == entries@.len(),
            i <= entries@.len(),
            out@ == listed(entries@, matched@, conn, i as int),
        decreases entries@.len() - i,
    {
        if entries[i].conn_id == conn && matched[i] {
            out.push(i);
        }
        i = i + 1;
    }
    out
}

/// How many of the first `n` entries ran over a connection.
pub open spec fn count_of(entries: Seq<HistoryEntry>, conn: u64, n: int) -> nat
    decreases n,
{
    if n <= 0 {
        0
    } else if entries[n - 1].conn_id == conn {
        count_of(entries, conn, n - 1) + 1
    } else {
        count_of(entries, conn, n - 1)
    }
}

proof fn lemma_count_bound(entries: Seq<HistoryEntry>, conn: u64, n: int)
    requires
        0 <= n,
    ensures
        count_of(entries, conn, n) <= n,
    decreases n,
{
    if n > 0 {
        lemma_count_bound(entries, conn, n - 1);
    }
}

/// How many entries ran over a connection, whatever is searched for: as many as a clear deletes.
pub fn count_conn(entries: &Vec<HistoryEntry>, conn: u64) -> (r: usize)
    ensures
        r == count_of(entries@, conn, entries@.len() as int),
{
    let mut n: usize = 0;
    let mut i: usize = 0;
    while i < entries.len()
        invariant
            i <= entries@.len(),
            n == count_of(entries@, conn, i as int),
        decreases entries@.len() - i,
    {
        proof {
            lemma_count_bound(entries@, conn, i as int);
        }
        if entries[i].conn_id == conn {
            n = n + 1;
        }
        i = i + 1;
    }
    n
}

proof fn lemma_listed_bound(entries: Seq<HistoryEntry>, matched: Seq<bool>, conn: u64, n: int)
    ensures
        listed(entries, matched, conn, n).len() <= count_of(entries, conn, n),
    decreases n,
{
    if n > 0 {
        lemma_listed_bound(entries, matched, conn, n - 1);
    }
}

/// A search narrows what is shown and not what a clear deletes: no more entries are shown than the
/// clear counts, and all of them where everything holds what is searched for.
pub proof fn a_search_narrows_the_list_alone(
    entries: Seq<HistoryEntry>,
    matched: Seq<bool>,
    conn: u64,
    n: int,
)
    requires
        0 <= n <= entries.len(),
    ensures
        listed(entries, matched, conn, n).len() <= count_of(entries, conn, n),
        (forall|i: int| 0 <= i < n ==> #[trigger] matched[i]) ==> listed(
            entries,
            matched,
            conn,
            n,
        ).len() == count_of(entries, conn, n),
    decreases n,
{
    lemma_listed_bound(entries, matched, conn, n);
    if n > 0 {
        a_search_narrows_the_list_alone(entries, matched, conn, n - 1);
    }
}

/// What the panel says in place of an empty list: that nothing ran, or that nothing was found.
pub fn empty_message(query: &str) -> (r: &'static str)
    ensures
        r@ == if trim(query@).len() == 0 {
            "No queries yet."@
        } else {
            "No matching queries."@
        },
{
    if trimmed(query).as_str().is_empty() {
        "No queries yet."
    } else {
        "No matching queries."
    }
}

/// What is marked in the list: what is searched for, without the white space around it.
pub fn search_term(query: &str) -> (r: Option<String>)
    ensures
        r is None <==> trim(query@).len() == 0,
        r matches Some(t) ==> t@ == trim(query@),
{
    let t: String = trimmed(query);
    if t.as_str().is_empty() {
        None
    } else {
        Some(t)
    }
}

/// A question that is asked before something is done that cannot be undone.
pub struct Confirm {
    pub title: &'static str,
    pub message: String,
}

/// What the icon that clears explains.
pub fn clear_tip() -> (r: &'static str)
    ensures
        r@ == "Clear this connection's history…"@,
{
    "Clear this connection's history…"
}

/// What is asked before a clear; nothing where there is nothing to clear.
pub fn clear_confirm(n: usize) -> (r: Option<Confirm>)
    ensures
        r is Some <==> n > 0,
        r matches Some(c) ==> c.title@ == "Clear query history"@,
        r matches Some(c) ==> c.message@ == "Delete "@ + digits(n as nat) + " recorded "@ + (if n == 1 {
            "query"@
        } else {
            "queries"@
        }) + " for this connection? This can't be undone."@,
{
    if n == 0 {
        return None;
    }
    let mut out: String = "Delete ".to_owned();
    out.append(decimal(n as u128).as_str());
    out.append(" recorded ");
    out.append(plural(n as u64, "query", "queries"));
    out.append(" for this connection? This can't be undone.");
    Some(Confirm { title: "Clear query history", message: out })
}

/// The header of a group of entries: how many there are, and whether it draws a rule above itself,
/// which only the first does.
pub struct GroupHeader {
    pub count: String,
    pub top_rule: bool,
}

/// The headers of the groups, in order.
pub fn group_headers(sizes: &Vec<usize>) -> (r: Vec<GroupHeader>)
    ensures
        r@.len() == sizes@.len(),
        forall|i: int|
            0 <= i < r@.len() ==> (#[trigger] r@[i]).count@ == digits(sizes@[i] as nat)
                && r@[i].top_rule == (i == 0),
{
    let mut out: Vec<GroupHeader> = Vec::new();
    let mut i: usize = 0;
    while i < sizes.len()
        invariant
            i <= sizes@.len(),
            out@.len() == i,
            forall|k: int|
                0 <= k < i ==> (#[trigger] out@[k]).count@ == digits(sizes@[k] as nat)
                    && out@[k].top_rule == (k == 0),
        decreases sizes@.len() - i,
    {
        out.push(GroupHeader { count: decimal(sizes[i] as u128), top_rule: i == 0 });
        i = i + 1;
    }
    out
}

/// The menu of an entry: what a click on it does, and to delete it.
pub fn row_menu() -> (r: Vec<Entry>)
    ensures
        menu_view(r@) == Seq::<EntryView>::empty() + given(
            true,
            entry(Act::Open, "Open in new tab"@),
        ) + given(true, line()) + given(true, entry(Act::Remove, "Delete"@)),
{
    let mut out: Vec<Entry> = new_menu();
    add_item(&mut out, true, Act::Open, "Open in new tab");
    add_line(&mut out, true);
    add_item(&mut out, true, Act::Remove, "Delete");
    out
}

/// What an entry shows besides its query: its database, the word for a failure where its outcome is
/// known, and the name of its tab where that has one.
pub struct HistoryRow {
    pub database: String,
    pub outcome: Option<&'static str>,
    pub tab_name: Option<String>,
}

/// What an entry shows besides its query.
pub fn history_row(e: &HistoryEntry, outcome_known: bool) -> (r: HistoryRow)
    ensures
        r.database@ == match e.database {
            Some(d) => d@,
            None => "—"@,
        },
        r.outcome is Some <==> outcome_known,
        r.outcome matches Some(s) ==> s@ == if e.failed {
            "Failed"@
        } else {
            ""@
        },
        r.tab_name == match e.tab_name {
            Some(n) => if trim(n@).len() > 0 {
                Some(n)
            } else {
                None
            },
            None => None,
        },
{
    let database: String = match &e.database {
        Some(d) => d.clone(),
        None => "—".to_owned(),
    };
    let outcome: Option<&'static str> = if outcome_known {
        Some(
            if e.failed {
                "Failed"
            } else {
                ""
            },
        )
    } else {
        None
    };
    let tab_name: Option<String> = match &e.tab_name {
        Some(n) => if trimmed(n.as_str()).as_str().is_empty() {
            None
        } else {
            Some(n.clone())
        },
        None => None,
    };
    HistoryRow { database, outcome, tab_name }
}

/// The list shows every entry of the connection that holds what is searched for, and no other, each once
/// and in their order.
pub proof fn the_list_shows_what_matches(
    entries: Seq<HistoryEntry>,
    matched: Seq<bool>,
    conn: u64,
    n: int,
)
    requires
        0 <= n <= entries.len(),
        n <= usize::MAX,
    ensures
        forall|i: usize|
            #[trigger] listed(entries, matched, conn, n).contains(i) <==> i < n && entries[i as int].conn_id
                == conn && matched[i as int],
        forall|i: int, j: int|
            0 <= i < j < listed(entries, matched, conn, n).len() ==> #[trigger] listed(
                entries,
                matched,
                conn,
                n,
            )[i] < #[trigger] listed(entries, matched, conn, n)[j],
        forall|i: int|
            0 <= i < listed(entries, matched, conn, n).len() ==> #[trigger] listed(
                entries,
                matched,
                conn,
                n,
            )[i] < n,
    decreases n,
{
    if n > 0 {
        the_list_shows_what_matches(entries, matched, conn, n - 1);
        let before = listed(entries, matched, conn, n - 1);
        let now = listed(entries, matched, conn, n);
        assert forall|i: usize| #[trigger] now.contains(i) <==> i < n && entries[i as int].conn_id == conn
            && matched[i as int] by {
            if before.contains(i) {
                let k = before.index_of(i);
                assert(now[k] == i);
            }
            if now.contains(i) {
                let k = now.index_of(i);
                if k < before.len() {
                    assert(before[k] == i);
                }
            }
            if i == n - 1 && is_listed(entries, matched, conn, n - 1) {
                assert(now[before.len() as int] == i);
            }
        }
    }
}

/// A clear counts the connection's entries and no others: none where none is its, one more for each
/// that is.
pub proof fn a_clear_counts_its_own_entries(entries: Seq<HistoryEntry>, e: HistoryEntry, conn: u64)
    ensures
        count_of(Seq::empty(), conn, 0) == 0,
        count_of(entries.push(e), conn, (entries.len() + 1) as int) == count_of(
            entries,
            conn,
            entries.len() as int,
        ) + if e.conn_id == conn {
            1nat
        } else {
            0nat
        },
{
    lemma_count_front(entries, e, conn, entries.len() as int);
}

proof fn lemma_count_front(entries: Seq<HistoryEntry>, e: HistoryEntry, conn: u64, n: int)
    requires
        0 <= n <= entries.len(),
    ensures
        count_of(entries.push(e), conn, n) == count_of(entries, conn, n),
    decreases n,
{
    if n > 0 {
        lemma_count_front(entries, e, conn, n - 1);
        assert(entries.push(e)[n - 1] == entries[n - 1]);
    }
}

/// A connection is found by its number, the first that has it.
pub proof fn a_connection_is_found_by_its_number(ids: Seq<u64>, id: u64, i: int, k: int)
    requires
        0 <= i <= k <= ids.len() <= usize::MAX,
        forall|j: int| i <= j < k ==> #[trigger] ids[j] != id,
    ensures
        k < ids.len() && ids[k] == id ==> place_of_id(ids, id, i) == Some(k as usize),
        k == ids.len() ==> place_of_id(ids, id, i) is None,
    decreases k - i,
{
    if i < k {
        a_connection_is_found_by_its_number(ids, id, i + 1, k);
    }
}

} // verus!
