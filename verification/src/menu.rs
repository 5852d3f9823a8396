//! The entries of a menu.

use vstd::prelude::*;

verus! {

/// What an entry of one of the grid's menus does.
#[derive(Clone, Copy, Debug, PartialEq, Eq, Structural)]
pub enum Act {
    EditField,
    EditRow,
    CopyCell,
    CopySelection,
    CopyFormatted,
    Paste,
    FilterBy,
    Exclude,
    Follow,
    SetNull,
    DuplicateRows,
    SetDeleted(bool),
    Summary,
    Attach,
    AttachAll,
    Freeze,
    Unfreeze,
    FormatAs,
    FormatChoice(u32),
    CopyMenu,
    CopyColumnCsv,
    CopyColumnJson,
    FillValue,
    InsertRow,
    SeedTable,
    ExportFetched,
    ExportAll,
    Export(u32),
    Open,
    Remove,
    Pick(usize),
    Nothing,
}

/// An entry of a menu: a line that sets others apart, or an action with its label; a marked one is
/// the choice that holds now, and a dimmed one cannot be chosen.
pub enum Entry {
    Separator,
    Item(Act, String),
    Marked(Act, String),
    Dimmed(Act, String),
}

/// An entry with its label as text.
pub enum EntryView {
    Separator,
    Item(Act, Seq<char>),
    Marked(Act, Seq<char>),
    Dimmed(Act, Seq<char>),
}

impl View for Entry {
    type V = EntryView;

    open spec fn view(&self) -> EntryView {
        match *self {
            Entry::Separator => EntryView::Separator,
            Entry::Item(act, label) => EntryView::Item(act, label@),
            Entry::Marked(act, label) => EntryView::Marked(act, label@),
            Entry::Dimmed(act, label) => EntryView::Dimmed(act, label@),
        }
    }
}

/// The entries of a menu with their labels as text.
pub open spec fn menu_view(entries: Seq<Entry>) -> Seq<EntryView> {
    entries.map_values(|e: Entry| e@)
}

/// The entries where the condition holds, else none.
pub open spec fn given(cond: bool, entries: Seq<EntryView>) -> Seq<EntryView> {
    if cond {
        entries
    } else {
        Seq::empty()
    }
}

/// An action with its label.
pub open spec fn entry(act: Act, label: Seq<char>) -> Seq<EntryView> {
    seq![EntryView::Item(act, label)]
}

/// A line that sets entries apart.
pub open spec fn line() -> Seq<EntryView> {
    seq![EntryView::Separator]
}

/// Add an action where the condition holds.
pub fn add_item(menu: &mut Vec<Entry>, cond: bool, act: Act, label: &str)
    ensures
        menu_view(final(menu)@) == menu_view(old(menu)@) + given(cond, entry(act, label@)),
{
    if cond {
        menu.push(Entry::Item(act, label.to_owned()));
    }
    assert(menu_view(menu@) =~= menu_view(old(menu)@) + given(cond, entry(act, label@)));
}

/// An action that cannot be chosen now, with its label.
pub open spec fn dimmed(act: Act, label: Seq<char>) -> Seq<EntryView> {
    seq![EntryView::Dimmed(act, label)]
}

/// Add an action that cannot be chosen now, where the condition holds.
pub fn add_dimmed(menu: &mut Vec<Entry>, cond: bool, act: Act, label: &str)
    ensures
        menu_view(final(menu)@) == menu_view(old(menu)@) + given(cond, dimmed(act, label@)),
{
    if cond {
        menu.push(Entry::Dimmed(act, label.to_owned()));
    }
    assert(menu_view(menu@) =~= menu_view(old(menu)@) + given(cond, dimmed(act, label@)));
}

/// Add a line where the condition holds.
pub fn add_line(menu: &mut Vec<Entry>, cond: bool)
    ensures
        menu_view(final(menu)@) == menu_view(old(menu)@) + given(cond, line()),
{
    if cond {
        menu.push(Entry::Separator);
    }
    assert(menu_view(menu@) =~= menu_view(old(menu)@) + given(cond, line()));
}

/// A menu without entries.
pub fn new_menu() -> (r: Vec<Entry>)
    ensures
        menu_view(r@) == Seq::<EntryView>::empty(),
{
    let r: Vec<Entry> = Vec::new();
    assert(menu_view(r@) =~= Seq::<EntryView>::empty());
    r
}

/// Whether a menu offers an action under a label: it has an entry of it that can be chosen.
#[verifier::opaque]
pub open spec fn offers(entries: Seq<EntryView>, act: Act, label: Seq<char>) -> bool {
    exists|i: int|
        0 <= i < entries.len() && (#[trigger] entries[i] == EntryView::Item(act, label) || entries[i]
            == EntryView::Marked(act, label))
}

/// A menu offers what its two parts offer.
pub broadcast proof fn two_parts_offer_what_each_does(
    a: Seq<EntryView>,
    b: Seq<EntryView>,
    act: Act,
    label: Seq<char>,
)
    ensures
        #[trigger] offers(a + b, act, label) <==> offers(a, act, label) || offers(b, act, label),
{
    reveal(offers);
    let all = a + b;
    if offers(a, act, label) {
        let i = choose|i: int|
            0 <= i < a.len() && (#[trigger] a[i] == EntryView::Item(act, label) || a[i]
                == EntryView::Marked(act, label));
        assert(all[i] == a[i]);
    }
    if offers(b, act, label) {
        let i = choose|i: int|
            0 <= i < b.len() && (#[trigger] b[i] == EntryView::Item(act, label) || b[i]
                == EntryView::Marked(act, label));
        assert(all[a.len() + i] == b[i]);
    }
    if offers(all, act, label) {
        let i = choose|i: int|
            0 <= i < all.len() && (#[trigger] all[i] == EntryView::Item(act, label) || all[i]
                == EntryView::Marked(act, label));
        if i < a.len() {
            assert(a[i] == all[i]);
        } else {
            assert(b[i - a.len()] == all[i]);
        }
    }
}

/// An entry is offered where its condition holds.
pub broadcast proof fn a_given_entry_is_offered(
    cond: bool,
    own: Act,
    own_label: Seq<char>,
    act: Act,
    label: Seq<char>,
)
    ensures
        #[trigger] offers(given(cond, entry(own, own_label)), act, label) <==> cond && own == act
            && own_label == label,
{
    reveal(offers);
    let e = given(cond, entry(own, own_label));
    if cond {
        assert(e[0] == EntryView::Item(own, own_label));
    }
}

/// An entry that cannot be chosen is not offered, nor is a line.
pub broadcast proof fn a_dimmed_entry_is_not_offered(
    cond: bool,
    own: Act,
    own_label: Seq<char>,
    act: Act,
    label: Seq<char>,
)
    ensures
        !#[trigger] offers(given(cond, dimmed(own, own_label)), act, label),
{
    reveal(offers);
    let e = given(cond, dimmed(own, own_label));
    if cond {
        assert(e[0] == EntryView::Dimmed(own, own_label));
    }
}

/// A line offers nothing.
pub broadcast proof fn a_line_offers_nothing(cond: bool, act: Act, label: Seq<char>)
    ensures
        !#[trigger] offers(given(cond, line()), act, label),
{
    reveal(offers);
    let e = given(cond, line());
    if cond {
        assert(e[0] == EntryView::Separator);
    }
}

/// A menu without entries offers nothing.
pub broadcast proof fn an_empty_menu_offers_nothing(act: Act, label: Seq<char>)
    ensures
        !#[trigger] offers(Seq::<EntryView>::empty(), act, label),
{
    reveal(offers);
}

/// An entry of a menu is read by its kind, its action and its label, in its place.
pub proof fn a_menu_is_read_entry_by_entry(entries: Seq<Entry>, i: int, act: Act, label: String)
    requires
        0 <= i < entries.len(),
    ensures
        menu_view(entries).len() == entries.len(),
        entries[i] == Entry::Separator <==> menu_view(entries)[i] == EntryView::Separator,
        entries[i] == Entry::Item(act, label) ==> menu_view(entries)[i] == EntryView::Item(act, label@),
        entries[i] == Entry::Marked(act, label) ==> menu_view(entries)[i] == EntryView::Marked(
            act,
            label@,
        ),
        entries[i] == Entry::Dimmed(act, label) ==> menu_view(entries)[i] == EntryView::Dimmed(
            act,
            label@,
        ),
{
}

} // verus!
