//! The tree that a JSON value is edited in.

use vstd::prelude::*;
use crate::text::{decimal, digits, trim, trimmed};

verus! {

/// A step from a container to what it holds: a member by its ordinal, or an element.
#[derive(Clone, Copy, Debug, PartialEq, Eq, Structural)]
pub enum PathSeg {
    Member(usize),
    Index(usize),
}

/// A character with a capital ASCII letter made small.
pub open spec fn lower_char(c: char) -> char {
    if 'A' <= c <= 'Z' {
        ((c as u32 + 32) as u8) as char
    } else {
        c
    }
}

/// A text with capital ASCII letters made small.
pub open spec fn lower_text(s: Seq<char>) -> Seq<char> {
    s.map_values(|c: char| lower_char(c))
}

/// Whether a text is a word, capital and small ASCII letters being the same.
pub fn same_ignoring_case(s: &str, word: &str) -> (r: bool)
    ensures
        r == (lower_text(s@) == lower_text(word@)),
{
    let a: Vec<char> = crate::text::chars_of(s);
    let b: Vec<char> = crate::text::chars_of(word);
    if a.len() != b.len() {
        assert(lower_text(s@).len() != lower_text(word@).len());
        return false;
    }
    let mut i: usize = 0;
    while i < a.len()
        invariant
            i <= a@.len(),
            a@ == s@,
            b@ == word@,
            a@.len() == b@.len(),
            forall|k: int| 0 <= k < i ==> lower_text(s@)[k] == #[trigger] lower_text(word@)[k],
        decreases a@.len() - i,
    {
        if small(a[i]) != small(b[i]) {
            assert(lower_text(s@)[i as int] != lower_text(word@)[i as int]);
            return false;
        }
        i = i + 1;
    }
    assert(lower_text(s@) =~= lower_text(word@));
    true
}

/// A character with a capital ASCII letter made small.
fn small(c: char) -> (r: char)
    ensures
        r == lower_char(c),
{
    if 'A' <= c && c <= 'Z' {
        ((c as u32 + 32) as u8) as char
    } else {
        c
    }
}

/// Whether a column's type is JSON.
pub open spec fn names_json(ty: Seq<char>) -> bool {
    lower_text(trim(ty)) == lower_text("json"@) || lower_text(trim(ty)) == lower_text("jsonb"@)
}

/// Whether a column's type is JSON.
pub fn is_json_type(ty: &str) -> (r: bool)
    ensures
        r == names_json(ty@),
{
    let t: String = trimmed(ty);
    same_ignoring_case(t.as_str(), "json") || same_ignoring_case(t.as_str(), "jsonb")
}

/// Whether a path is among those that are collapsed.
pub open spec fn is_collapsed(collapsed: Seq<Vec<PathSeg>>, path: Seq<PathSeg>) -> bool {
    exists|i: int| 0 <= i < collapsed.len() && (#[trigger] collapsed[i])@ == path
}

/// Whether a container above a path is collapsed, the topmost one too; a container that is
/// collapsed shows itself.
pub open spec fn is_hidden(path: Seq<PathSeg>, collapsed: Seq<Vec<PathSeg>>) -> bool {
    exists|n: int| 0 <= n < path.len() && is_collapsed(collapsed, #[trigger] path.take(n))
}

/// Whether a path starts with these steps and no others.
fn is_prefix(c: &Vec<PathSeg>, path: &Vec<PathSeg>, n: usize) -> (r: bool)
    requires
        n <= path@.len(),
    ensures
        r == (c@ == path@.take(n as int)),
{
    if c.len() != n {
        return false;
    }
    let mut i: usize = 0;
    while i < n
        invariant
            i <= n == c@.len(),
            n <= path@.len(),
            forall|k: int| 0 <= k < i ==> c@[k] == path@[k],
        decreases n - i,
    {
        if c[i] != path[i] {
            assert(path@.take(n as int)[i as int] == path@[i as int]);
            return false;
        }
        i = i + 1;
    }
    assert(c@ =~= path@.take(n as int));
    true
}

/// Where a path of so many steps stands among those that are collapsed.
fn find_collapsed(collapsed: &Vec<Vec<PathSeg>>, path: &Vec<PathSeg>, n: usize) -> (r: Option<usize>)
    requires
        n <= path@.len(),
    ensures
        r is Some <==> is_collapsed(collapsed@, path@.take(n as int)),
        r matches Some(i) ==> i < collapsed@.len() && collapsed@[i as int]@ == path@.take(n as int),
{
    let mut i: usize = 0;
    while i < collapsed.len()
        invariant
            i <= collapsed@.len(),
            n <= path@.len(),
            forall|k: int| 0 <= k < i ==> (#[trigger] collapsed@[k])@ != path@.take(n as int),
        decreases collapsed@.len() - i,
    {
        if is_prefix(&collapsed[i], path, n) {
            return Some(i);
        }
        i = i + 1;
    }
    None
}

/// Whether a path is hidden since a container above it is collapsed.
pub fn json_path_hidden(path: &Vec<PathSeg>, collapsed: &Vec<Vec<PathSeg>>) -> (r: bool)
    ensures
        r == is_hidden(path@, collapsed@),
{
    let mut n: usize = 0;
    while n < path.len()
        invariant
            n <= path@.len(),
            forall|k: int| 0 <= k < n ==> !is_collapsed(collapsed@, #[trigger] path@.take(k)),
        decreases path@.len() - n,
    {
        if find_collapsed(collapsed, path, n).is_some() {
            assert(is_collapsed(collapsed@, path@.take(n as int)));
            return true;
        }
        n = n + 1;
    }
    false
}

/// Collapse a container, or open it again.
pub fn toggle_collapsed(collapsed: &mut Vec<Vec<PathSeg>>, path: Vec<PathSeg>)
    requires
        forall|i: int, j: int|
            #![trigger old(collapsed)@[i], old(collapsed)@[j]]
            0 <= i < j < old(collapsed)@.len() ==> old(collapsed)@[i]@ != old(collapsed)@[j]@,
    ensures
        forall|i: int, j: int|
            #![trigger final(collapsed)@[i], final(collapsed)@[j]]
            0 <= i < j < final(collapsed)@.len() ==> final(collapsed)@[i]@
                != final(collapsed)@[j]@,
        forall|p: Seq<PathSeg>| #[trigger]
            is_collapsed(final(collapsed)@, p) <==> if p == path@ {
                !is_collapsed(old(collapsed)@, p)
            } else {
                is_collapsed(old(collapsed)@, p)
            },
{
    let n: usize = path.len();
    assert(path@.take(n as int) =~= path@);
    let ghost before = collapsed@;
    match find_collapsed(collapsed, &path, n) {
        Some(at) => {
            let gone: Vec<PathSeg> = collapsed.remove(at);
            proof {
                let now = collapsed@;
                assert forall|p: Seq<PathSeg>| #[trigger] is_collapsed(now, p) <==> if p == path@ {
                    !is_collapsed(before, p)
                } else {
                    is_collapsed(before, p)
                } by {
                    if is_collapsed(now, p) {
                        let i = choose|i: int| 0 <= i < now.len() && (#[trigger] now[i])@ == p;
                        let o = if i < at {
                            i
                        } else {
                            i + 1
                        };
                        assert(before[o] == now[i]);
                        assert(before[o]@ != before[at as int]@);
                    }
                    if is_collapsed(before, p) && p != path@ {
                        let i = choose|i: int| 0 <= i < before.len() && (#[trigger] before[i])@ == p;
                        assert(now[if i < at {
                            i
                        } else {
                            i - 1
                        }] == before[i]);
                    }
                }
                assert forall|i: int, j: int|
                    #![trigger now[i], now[j]]
                    0 <= i < j < now.len() implies now[i]@ != now[j]@ by {
                    let oi = if i < at {
                        i
                    } else {
                        i + 1
                    };
                    let oj = if j < at {
                        j
                    } else {
                        j + 1
                    };
                    assert(before[oi]@ != before[oj]@);
                }
            }
        },
        None => {
            collapsed.push(path);
            proof {
                let now = collapsed@;
                assert forall|p: Seq<PathSeg>| #[trigger] is_collapsed(now, p) <==> if p == path@ {
                    !is_collapsed(before, p)
                } else {
                    is_collapsed(before, p)
                } by {
                    if is_collapsed(before, p) {
                        let i = choose|i: int| 0 <= i < before.len() && (#[trigger] before[i])@ == p;
                        assert(now[i]@ == p);
                    }
                    if is_collapsed(now, p) && p != path@ {
                        let i = choose|i: int| 0 <= i < now.len() && (#[trigger] now[i])@ == p;
                        assert(before[i]@ == p);
                    }
                    assert(now[before.len() as int]@ == path@);
                }
                assert forall|i: int, j: int|
                    #![trigger now[i], now[j]]
                    0 <= i < j < now.len() implies now[i]@ != now[j]@ by {
                    if j == before.len() {
                        assert(before[i]@ != path@);
                    }
                }
            }
        },
    }
}

/// Collapsing the topmost container hides everything but itself.
pub proof fn a_collapsed_root_hides_all(path: Seq<PathSeg>, collapsed: Seq<Vec<PathSeg>>)
    requires
        is_collapsed(collapsed, Seq::<PathSeg>::empty()),
    ensures
        is_hidden(path, collapsed) <==> path.len() > 0,
{
    if path.len() > 0 {
        assert(path.take(0) =~= Seq::<PathSeg>::empty());
    }
}

/// A path below a hidden one is hidden too, and so is one below a collapsed one.
pub proof fn what_is_below_is_hidden(
    path: Seq<PathSeg>,
    below: Seq<PathSeg>,
    collapsed: Seq<Vec<PathSeg>>,
)
    requires
        path.len() < below.len(),
        below.take(path.len() as int) == path,
        is_hidden(path, collapsed) || is_collapsed(collapsed, path),
    ensures
        is_hidden(below, collapsed),
{
    if is_hidden(path, collapsed) {
        let n = choose|n: int| 0 <= n < path.len() && is_collapsed(collapsed, #[trigger] path.take(n));
        assert(below.take(n) =~= path.take(n));
    } else {
        assert(is_collapsed(collapsed, below.take(path.len() as int)));
    }
}

/// What a row of the tree is.
#[derive(Clone, Copy, Debug, PartialEq, Eq, Structural)]
pub enum RowKind {
    Object(usize),
    Array(usize),
    Scalar,
}

/// What a row of the tree shows for a container: how much it holds, in the brackets of its kind.
pub open spec fn summary_text(kind: RowKind) -> Option<Seq<char>> {
    match kind {
        RowKind::Object(n) => Some("{"@ + digits(n as nat) + "}"@),
        RowKind::Array(n) => Some("["@ + digits(n as nat) + "]"@),
        RowKind::Scalar => None,
    }
}

/// What a row of the tree shows for a container.
pub fn json_summary(kind: RowKind) -> (r: Option<String>)
    ensures
        r is Some <==> summary_text(kind) is Some,
        r matches Some(s) ==> s@ == summary_text(kind)->0,
{
    match kind {
        RowKind::Object(n) => {
            let mut out: String = "{".to_owned();
            out.append(decimal(n as u128).as_str());
            out.append("}");
            Some(out)
        },
        RowKind::Array(n) => {
            let mut out: String = "[".to_owned();
            out.append(decimal(n as u128).as_str());
            out.append("]");
            Some(out)
        },
        RowKind::Scalar => None,
    }
}

/// What a row of the tree is labelled with: its key, or its place in an array; nothing at the top.
pub open spec fn label_text(key: Option<String>, path: Seq<PathSeg>) -> Option<Seq<char>> {
    match key {
        Some(k) => Some(k@ + ":"@),
        None => if path.len() > 0 && path.last() is Index {
            Some("["@ + digits(path.last()->Index_0 as nat) + "]"@)
        } else {
            None
        },
    }
}

/// What a row of the tree is labelled with.
pub fn json_label(key: &Option<String>, path: &Vec<PathSeg>) -> (r: Option<String>)
    ensures
        r is Some <==> label_text(*key, path@) is Some,
        r matches Some(s) ==> s@ == label_text(*key, path@)->0,
{
    if let Some(k) = key {
        let mut out: String = k.clone();
        out.append(":");
        return Some(out);
    }
    if path.len() == 0 {
        return None;
    }
    match path[path.len() - 1] {
        PathSeg::Index(i) => {
            let mut out: String = "[".to_owned();
            out.append(decimal(i as u128).as_str());
            out.append("]");
            Some(out)
        },
        PathSeg::Member(_) => None,
    }
}

/// What the text of a leaf came to when it was read: the value it had, another one, with the whole
/// tree written out with it, or no JSON, with the reason.
pub enum Leaf {
    Unchanged,
    Changed(String),
    Invalid(String),
}

/// The tree's editing: the leaf that is open, if one is, its text, and why it cannot be kept.
pub struct JsonEdit {
    pub editing: Option<Vec<PathSeg>>,
    pub edit_buf: String,
    pub err: Option<String>,
}

/// A field of a row that is edited: its text, whether it has no value, and the editing of its tree
/// where it is shown as one.
pub struct Field {
    pub ci: usize,
    pub buf: String,
    pub is_null: bool,
    pub tree: Option<JsonEdit>,
}

impl Field {
    /// Whether a leaf is open.
    pub open spec fn is_open(self) -> bool {
        self.tree matches Some(t) && t.editing is Some
    }

    /// Whether `after` is the field once the leaf that is open was kept, or could not be: a leaf
    /// that was left as it was touches nothing, so that looking at a value does not change it.
    pub open spec fn leaf_kept(self, leaf: Leaf, after: Field) -> bool {
        if !self.is_open() {
            after == self
        } else {
            let t = self.tree->0;
            match leaf {
                Leaf::Unchanged => after == (Field {
                    tree: Some(JsonEdit { editing: None, err: None, ..t }),
                    ..self
                }),
                Leaf::Changed(text) => after == (Field {
                    buf: text,
                    is_null: false,
                    tree: Some(JsonEdit { editing: None, err: None, ..t }),
                    ..self
                }),
                Leaf::Invalid(e) => {
                    &&& after.tree is Some
                    &&& after.tree->0.err is Some
                    &&& after.tree->0.err->0@ == "Invalid JSON: "@ + e@
                    &&& after == (Field {
                        tree: Some(JsonEdit { err: after.tree->0.err, ..t }),
                        ..self
                    })
                },
            }
        }
    }

    /// Keep the leaf that is open, given what its text came to.
    pub fn commit_current(&mut self, leaf: Leaf)
        ensures
            old(self).leaf_kept(leaf, *final(self)),
    {
        if let Some(t) = &mut self.tree {
            if t.editing.is_some() {
                match leaf {
                    Leaf::Unchanged => {
                        t.editing = None;
                        t.err = None;
                    },
                    Leaf::Changed(text) => {
                        t.editing = None;
                        t.err = None;
                        self.buf = text;
                        self.is_null = false;
                    },
                    Leaf::Invalid(e) => {
                        let mut out: String = "Invalid JSON: ".to_owned();
                        out.append(e.as_str());
                        t.err = Some(out);
                    },
                }
            }
        }
    }

    /// Open another leaf, with the one that is open kept first; where that cannot be kept it stays
    /// open.
    pub fn start_leaf(&mut self, leaf: Leaf, path: Vec<PathSeg>, value: String)
        ensures
            exists|mid: Field| #[trigger]
                old(self).leaf_kept(leaf, mid) && if mid.is_open() || mid.tree is None {
                    *final(self) == mid
                } else {
                    *final(self) == (Field {
                        tree: Some(
                            JsonEdit { editing: Some(path), edit_buf: value, err: None },
                        ),
                        ..mid
                    })
                },
    {
        self.commit_current(leaf);
        let ghost mid = *self;
        assert(old(self).leaf_kept(leaf, mid));
        if let Some(t) = &mut self.tree {
            if t.editing.is_none() {
                t.edit_buf = value;
                t.editing = Some(path);
                t.err = None;
            }
        }
    }

    /// Give up the leaf that is open.
    pub fn escape_leaf(&mut self)
        ensures
            *final(self) == match old(self).tree {
                Some(t) => (Field {
                    tree: Some(JsonEdit { editing: None, err: None, ..t }),
                    ..*old(self)
                }),
                None => *old(self),
            },
    {
        if let Some(t) = &mut self.tree {
            t.editing = None;
            t.err = None;
        }
    }

    /// Give a field that has no value one: an empty object, unless its text is JSON already.
    pub fn enable_json(&mut self, parses: bool)
        ensures
            final(self).buf@ == if parses {
                old(self).buf@
            } else {
                "{}"@
            },
            *final(self) == (Field {
                buf: final(self).buf,
                is_null: false,
                ..*old(self)
            }),
            parses ==> final(self).buf == old(self).buf,
    {
        if !parses {
            self.buf = "{}".to_owned();
        }
        self.is_null = false;
    }
}

/// Hand an error of the tree to the bar, and take it back when it is gone, unless the bar says
/// something else by then. `pushed` is what was handed over last.
pub fn push_error(now: &Option<String>, pushed: &mut Option<String>, bar: &mut Option<String>)
    ensures
        *final(pushed) == *now,
        *final(bar) == match *now {
            Some(m) => Some(m),
            None => if *old(pushed) is Some && crate::staged::text_of(*old(bar))
                == crate::staged::text_of(*old(pushed)) {
                None
            } else {
                *old(bar)
            },
        },
{
    match now {
        Some(m) => {
            *bar = Some(m.clone());
        },
        None => {
            if pushed.is_some() && crate::staged::same_value(bar, pushed) {
                *bar = None;
            }
        },
    }
    *pushed = crate::plan::copy_value(now);
}

/// A row of the tree is hidden exactly where a container on the way to it is collapsed; a container that
/// is collapsed shows itself.
pub proof fn a_row_is_hidden_below_a_collapsed_one(
    path: Seq<PathSeg>,
    collapsed: Seq<Vec<PathSeg>>,
    i: int,
)
    ensures
        0 <= i < collapsed.len() && collapsed[i]@.len() < path.len() && collapsed[i]@ == path.take(
            collapsed[i]@.len() as int,
        ) ==> is_hidden(path, collapsed),
        is_hidden(path, collapsed) ==> exists|j: int|
            0 <= j < collapsed.len() && (#[trigger] collapsed[j])@.len() < path.len() && collapsed[j]@
                == path.take(collapsed[j]@.len() as int),
        collapsed.len() == 0 ==> !is_hidden(path, collapsed),
        path.len() == 0 ==> !is_hidden(path, collapsed),
{
    if 0 <= i < collapsed.len() && collapsed[i]@.len() < path.len() && collapsed[i]@ == path.take(
        collapsed[i]@.len() as int,
    ) {
        assert(is_collapsed(collapsed, path.take(collapsed[i]@.len() as int)));
    }
    if is_hidden(path, collapsed) {
        let n = choose|n: int| 0 <= n < path.len() && is_collapsed(collapsed, #[trigger] path.take(n));
        let j = choose|j: int| 0 <= j < collapsed.len() && (#[trigger] collapsed[j])@ == path.take(n);
        assert(collapsed[j]@.len() == n);
    }
}

/// A leaf that was only looked at leaves the field's text as it was; one that was changed puts its text
/// there, and the field has a value then; one that is wrong leaves the text and stays open.
pub proof fn a_leaf_changes_the_text_only_if_it_was_changed(before: Field, leaf: Leaf, after: Field)
    requires
        before.leaf_kept(leaf, after),
    ensures
        leaf is Unchanged ==> after.buf == before.buf && after.is_null == before.is_null,
        leaf is Invalid ==> after.buf == before.buf && after.is_null == before.is_null,
        before.tree is None ==> after == before,
        before.tree is Some && before.tree->0.editing is None ==> after == before,
        before.tree is Some && before.tree->0.editing is Some ==> {
            &&& after.tree is Some
            &&& leaf is Changed ==> after.buf == leaf->Changed_0 && !after.is_null
            &&& leaf is Invalid ==> after.tree->0.editing == before.tree->0.editing
                && after.tree->0.err is Some
            &&& !(leaf is Invalid) ==> after.tree->0.editing is None && after.tree->0.err is None
        },
        after.ci == before.ci,
{
}

/// Letters are alike in their two cases, where they are plain ones, and no other characters are.
pub proof fn letters_are_alike_in_two_cases(a: char, b: char)
    ensures
        lower_char(a) == lower_char(b) <==> a == b || ('A' <= a <= 'Z' && b as u32 == a as u32 + 32) || (
        'A' <= b <= 'Z' && a as u32 == b as u32 + 32),
{
}

/// A type is a tree's where it is called `json` or `jsonb`, in whatever case and with whatever white
/// space around it.
pub proof fn a_tree_is_called_json(ty: Seq<char>)
    ensures
        trim(ty) == "json"@ || trim(ty) == "JSON"@ || trim(ty) == "jsonb"@ || trim(ty) == "JSONB"@
            ==> names_json(ty),
        names_json(ty) ==> {
            let t = trim(ty);
            &&& t.len() == 4 || t.len() == 5
            &&& lower_char(t[0]) == 'j' && lower_char(t[1]) == 's' && lower_char(t[2]) == 'o'
            &&& lower_char(t[3]) == 'n'
            &&& t.len() == 5 ==> lower_char(t[4]) == 'b'
        },
{
    reveal_strlit("json");
    reveal_strlit("JSON");
    reveal_strlit("jsonb");
    reveal_strlit("JSONB");
    assert(lower_text("JSON"@) =~= lower_text("json"@));
    assert(lower_text("JSONB"@) =~= lower_text("jsonb"@));
    let t = trim(ty);
    let low = lower_text(t);
    if names_json(ty) {
        assert(low.len() == t.len());
        assert(low[0] == lower_char(t[0]) && low[1] == lower_char(t[1]));
        assert(low[2] == lower_char(t[2]) && low[3] == lower_char(t[3]));
        if t.len() == 5 {
            assert(low[4] == lower_char(t[4]));
        }
        assert(lower_text("json"@)[0] == 'j' && lower_text("json"@)[1] == 's');
        assert(lower_text("json"@)[2] == 'o' && lower_text("json"@)[3] == 'n');
        assert(lower_text("jsonb"@)[0] == 'j' && lower_text("jsonb"@)[1] == 's');
        assert(lower_text("jsonb"@)[2] == 'o' && lower_text("jsonb"@)[3] == 'n');
        assert(lower_text("jsonb"@)[4] == 'b');
    }
}

/// A container says how much it holds in the brackets of its kind, and a value says nothing.
pub proof fn a_container_says_how_much_it_holds(n: usize)
    ensures
        summary_text(RowKind::Object(n)) == Some("{"@ + digits(n as nat) + "}"@),
        summary_text(RowKind::Array(n)) == Some("["@ + digits(n as nat) + "]"@),
        summary_text(RowKind::Scalar) is None,
{
}

/// A row of the tree is called by its key, or by its place in a list; the root has no name.
pub proof fn a_row_is_called_by_its_key(key: Option<String>, path: Seq<PathSeg>, i: usize)
    ensures
        key is Some ==> label_text(key, path) == Some(key->0@ + ":"@),
        key is None ==> label_text(key, path.push(PathSeg::Index(i))) == Some(
            "["@ + digits(i as nat) + "]"@,
        ),
        key is None && path.len() == 0 ==> label_text(key, path) is None,
        key is None && path.len() > 0 && !(path.last() is Index) ==> label_text(key, path) is None,
{
}

/// A text keeps its length and its other characters where its letters are taken alike; a type is JSON
/// whatever the case of its letters.
pub proof fn letters_alone_are_taken_alike(s: Seq<char>, i: int)
    requires
        0 <= i < s.len(),
    ensures
        lower_text(s).len() == s.len(),
        'A' <= s[i] <= 'Z' ==> lower_text(s)[i] as u32 == s[i] as u32 + 32,
        !('A' <= s[i] <= 'Z') ==> lower_text(s)[i] == s[i],
        ({
            let t = trim(s);
            t.len() == 4 && lower_char(t[0]) == 'j' && lower_char(t[1]) == 's' && lower_char(t[2]) == 'o'
                && lower_char(t[3]) == 'n' ==> names_json(s)
        }),
{
    let t = trim(s);
    if t.len() == 4 && lower_char(t[0]) == 'j' && lower_char(t[1]) == 's' && lower_char(t[2]) == 'o'
        && lower_char(t[3]) == 'n' {
        reveal_strlit("json");
        assert(lower_text(t) =~= lower_text("json"@));
    }
}

/// A value that is no JSON is said to be none, with what is wrong with it.
pub proof fn a_wrong_value_is_said_to_be_wrong(before: Field, e: String, after: Field)
    requires
        before.leaf_kept(Leaf::Invalid(e), after),
        before.tree is Some,
        before.tree->0.editing is Some,
    ensures
        after.tree is Some && after.tree->0.err is Some && after.tree->0.err->0@ == "Invalid JSON: "@ + e@,
{
}

/// A row is collapsed where its own path is listed.
pub proof fn a_row_is_collapsed_by_its_own_path(collapsed: Seq<Vec<PathSeg>>, path: Seq<PathSeg>, i: int)
    ensures
        0 <= i < collapsed.len() && collapsed[i]@ == path ==> is_collapsed(collapsed, path),
        (forall|j: int| 0 <= j < collapsed.len() ==> (#[trigger] collapsed[j])@ != path) ==> !is_collapsed(
            collapsed,
            path,
        ),
{
}

} // verus!
