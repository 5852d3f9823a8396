//! A map that keeps its keys in ascending order.

use vstd::prelude::*;

verus! {

/// A key that can be put in order.
pub trait Key: Copy {
    /// Where the key stands.
    spec fn place(self) -> int;

    /// Two keys that stand in one place are one key.
    proof fn one_place(a: Self, b: Self)
        requires
            a.place() == b.place(),
        ensures
            a == b,
    ;

    /// Whether this key comes before another.
    fn before(self, other: Self) -> (r: bool)
        ensures
            r == (self.place() < other.place()),
    ;
}

impl Key for usize {
    open spec fn place(self) -> int {
        self as int
    }

    proof fn one_place(a: usize, b: usize) {
    }

    fn before(self, other: usize) -> (r: bool) {
        self < other
    }
}

/// The number of values a machine word can take, or more.
pub open spec fn word() -> int {
    0x1_0000_0000_0000_0000
}

/// The place of a cell: a row and a column.
#[derive(Clone, Copy, Debug, PartialEq, Eq, Structural)]
pub struct At {
    pub row: usize,
    pub col: usize,
}

impl Key for At {
    open spec fn place(self) -> int {
        self.row * word() + self.col
    }

    proof fn one_place(a: At, b: At) {
        assert(usize::MAX < word());
    }

    fn before(self, other: At) -> (r: bool) {
        assert(usize::MAX < word());
        self.row < other.row || (self.row == other.row && self.col < other.col)
    }
}

/// A map from keys to values, its entries in ascending order of their keys.
pub struct KeyMap<K: Key, V> {
    entries: Vec<(K, V)>,
}

impl<K: Key, V> KeyMap<K, V> {
    /// The entries, in ascending order of their keys.
    pub closed spec fn entries(self) -> Seq<(K, V)> {
        self.entries@
    }

    #[verifier::type_invariant]
    closed spec fn ascending(self) -> bool {
        ascending(self.entries@)
    }
}

/// Whether the keys ascend.
pub open spec fn ascending<K: Key, V>(s: Seq<(K, V)>) -> bool {
    forall|i: int, j: int|
        #![trigger s[i], s[j]]
        0 <= i < j < s.len() ==> s[i].0.place() < s[j].0.place()
}

/// Whether a key is among the entries.
pub open spec fn has_key<K, V>(s: Seq<(K, V)>, k: K) -> bool {
    exists|i: int| 0 <= i < s.len() && (#[trigger] s[i]).0 == k
}

/// The value of a key among the entries.
pub open spec fn value_of<K, V>(s: Seq<(K, V)>, k: K) -> V {
    s[choose|i: int| 0 <= i < s.len() && (#[trigger] s[i]).0 == k].1
}

/// The entries as a map.
pub open spec fn map_of<K, V>(s: Seq<(K, V)>) -> Map<K, V> {
    Map::new(|k: K| has_key(s, k), |k: K| value_of(s, k))
}

impl<K: Key, V> View for KeyMap<K, V> {
    type V = Map<K, V>;

    open spec fn view(&self) -> Map<K, V> {
        map_of(self.entries())
    }
}

impl<K: Key, V> KeyMap<K, V> {
    /// A map without entries.
    pub fn new() -> (r: KeyMap<K, V>)
        ensures
            r@ == Map::<K, V>::empty(),
            r.entries().len() == 0,
    {
        let r: KeyMap<K, V> = KeyMap { entries: Vec::new() };
        assert(r@ =~= Map::<K, V>::empty());
        r
    }

    /// How many entries there are.
    pub fn len(&self) -> (r: usize)
        ensures
            r == self.entries().len(),
            r == self@.dom().len(),
            self@.dom().finite(),
            ascending(self.entries()),
    {
        proof {
            use_type_invariant(self);
            lemma_count(self.entries@);
        }
        self.entries.len()
    }

    /// The entry at a place in the order.
    pub fn entry(&self, i: usize) -> (r: &(K, V))
        requires
            i < self.entries().len(),
        ensures
            *r == self.entries()[i as int],
            self@.dom().contains(r.0),
            self@[r.0] == r.1,
    {
        proof {
            use_type_invariant(self);
            lemma_value(self.entries@, i as int);
        }
        &self.entries[i]
    }

    /// The first place whose key does not come before `k`.
    fn seek(&self, k: K) -> (r: usize)
        ensures
            r <= self.entries().len(),
            forall|i: int| 0 <= i < r ==> (#[trigger] self.entries()[i]).0.place() < k.place(),
            forall|i: int|
                r <= i < self.entries().len() ==> (#[trigger] self.entries()[i]).0.place()
                    >= k.place(),
    {
        proof {
            use_type_invariant(self);
        }
        let mut lo: usize = 0;
        let mut hi: usize = self.entries.len();
        while lo < hi
            invariant
                ascending(self.entries@),
                lo <= hi <= self.entries@.len(),
                forall|i: int| 0 <= i < lo ==> (#[trigger] self.entries@[i]).0.place() < k.place(),
                forall|i: int|
                    hi <= i < self.entries@.len() ==> (#[trigger] self.entries@[i]).0.place()
                        >= k.place(),
            decreases hi - lo,
        {
            let mid: usize = lo + (hi - lo) / 2;
            if self.entries[mid].0.before(k) {
                lo = mid + 1;
            } else {
                hi = mid;
            }
        }
        lo
    }

    /// Whether `k` stands at this place.
    fn stands_at(&self, i: usize, k: K) -> (r: bool)
        requires
            forall|j: int|
                i <= j < self.entries().len() ==> (#[trigger] self.entries()[j]).0.place()
                    >= k.place(),
        ensures
            r == (i < self.entries().len() && self.entries()[i as int].0 == k),
    {
        if i >= self.entries.len() {
            return false;
        }
        assert(self.entries()[i as int].0.place() >= k.place());
        let r: bool = !k.before(self.entries[i].0);
        proof {
            if r {
                K::one_place(k, self.entries@[i as int].0);
            }
        }
        r
    }

    /// The value of a key, where it has one.
    pub fn get(&self, k: K) -> (r: Option<&V>)
        ensures
            r is Some <==> self@.dom().contains(k),
            r matches Some(v) ==> *v == self@[k],
    {
        let i: usize = self.seek(k);
        proof {
            use_type_invariant(self);
        }
        if self.stands_at(i, k) {
            proof {
                lemma_value(self.entries@, i as int);
            }
            Some(&self.entries[i].1)
        } else {
            None
        }
    }

    /// Whether a key has a value.
    pub fn contains(&self, k: K) -> (r: bool)
        ensures
            r == self@.dom().contains(k),
    {
        self.get(k).is_some()
    }

    /// The entries, with an empty map left behind.
    fn take_entries(&mut self) -> (r: Vec<(K, V)>)
        ensures
            r@ == old(self).entries(),
            ascending(r@),
    {
        let mut m: KeyMap<K, V> = KeyMap { entries: Vec::new() };
        core::mem::swap(self, &mut m);
        proof {
            use_type_invariant(&m);
        }
        m.entries
    }

    /// Give a key a value, in place of the one it had.
    pub fn insert(&mut self, k: K, v: V)
        ensures
            final(self)@ == old(self)@.insert(k, v),
    {
        let i: usize = self.seek(k);
        let here: bool = self.stands_at(i, k);
        let mut entries: Vec<(K, V)> = self.take_entries();
        let ghost before = entries@;
        if here {
            entries.set(i, (k, v));
            proof {
                lemma_replaced(before, i as int, v);
            }
        } else {
            proof {
                if i < before.len() && before[i as int].0.place() == k.place() {
                    K::one_place(before[i as int].0, k);
                }
                lemma_inserted(before, i as int, k, v);
            }
            entries.insert(i, (k, v));
        }
        *self = KeyMap { entries };
    }

    /// Take a key out, and say whether it was in.
    pub fn remove(&mut self, k: K) -> (r: bool)
        ensures
            final(self)@ == old(self)@.remove(k),
            r == old(self)@.dom().contains(k),
    {
        let i: usize = self.seek(k);
        let here: bool = self.stands_at(i, k);
        if here {
            let mut entries: Vec<(K, V)> = self.take_entries();
            proof {
                lemma_removed(entries@, i as int);
            }
            let gone: (K, V) = entries.remove(i);
            *self = KeyMap { entries };
        } else {
            proof {
                use_type_invariant(&*self);
            }
            assert(!has_key(self.entries@, k));
            assert(self@ =~= old(self)@.remove(k));
        }
        here
    }
}

/// What can be asked whether it holds anything, and be emptied.
pub trait Clearable {
    /// Whether it holds nothing.
    spec fn holds_nothing(&self) -> bool;

    /// Whether it holds nothing.
    fn is_clear(&self) -> (r: bool)
        ensures
            r == self.holds_nothing(),
    ;

    /// Take everything out.
    fn clear(&mut self)
        ensures
            final(self).holds_nothing(),
    ;
}

impl<T> Clearable for Option<T> {
    open spec fn holds_nothing(&self) -> bool {
        self is None
    }

    fn is_clear(&self) -> (r: bool) {
        self.is_none()
    }

    fn clear(&mut self) {
        *self = None;
    }
}

impl<T> Clearable for Vec<T> {
    open spec fn holds_nothing(&self) -> bool {
        self@.len() == 0
    }

    fn is_clear(&self) -> (r: bool) {
        self.len() == 0
    }

    fn clear(&mut self) {
        *self = Vec::new();
    }
}

impl<K: Key, V> Clearable for KeyMap<K, V> {
    open spec fn holds_nothing(&self) -> bool {
        self@ == Map::<K, V>::empty()
    }

    fn is_clear(&self) -> (r: bool) {
        let n: usize = self.len();
        proof {
            lemma_count(self.entries());
            if n == 0 {
                assert(self@ =~= Map::<K, V>::empty());
            } else {
                let k = self.entries()[0].0;
                assert(has_key(self.entries(), k));
                assert(self@.dom().contains(k));
            }
        }
        n == 0
    }

    fn clear(&mut self) {
        *self = KeyMap::new();
    }
}

/// Empty a collection, and say whether it held anything: only then is there anything to announce.
pub fn clear_if_any<C: Clearable>(c: &mut C) -> (r: bool)
    ensures
        r == !old(c).holds_nothing(),
        final(c).holds_nothing(),
        !r ==> *final(c) == *old(c),
{
    if c.is_clear() {
        return false;
    }
    c.clear();
    true
}

impl<V> KeyMap<At, V> {
    /// Take out every cell of a row.
    pub fn drop_row(&mut self, row: usize)
        ensures
            final(self)@ == without_row(old(self)@, row),
    {
        let i: usize = self.seek(At { row, col: 0 });
        let mut entries: Vec<(At, V)> = self.take_entries();
        let ghost whole = map_of(entries@);
        while i < entries.len() && entries[i].0.row == row
            invariant
                ascending(entries@),
                i <= entries@.len(),
                forall|j: int| 0 <= j < i ==> (#[trigger] entries@[j]).0.row < row,
                forall|j: int| i <= j < entries@.len() ==> (#[trigger] entries@[j]).0.row >= row,
                without_row(map_of(entries@), row) == without_row(whole, row),
            decreases entries@.len(),
        {
            proof {
                lemma_removed(entries@, i as int);
                let gone = entries@[i as int].0;
                assert(without_row(map_of(entries@).remove(gone), row) =~= without_row(
                    map_of(entries@),
                    row,
                ));
            }
            let gone: (At, V) = entries.remove(i);
        }
        proof {
            assert forall|k: At| has_key(entries@, k) implies k.row != row by {
                let j = choose|j: int| 0 <= j < entries@.len() && (#[trigger] entries@[j]).0 == k;
                if j > i {
                    assert(entries@[i as int].0.place() < entries@[j].0.place());
                    assert(usize::MAX < word());
                }
            }
            assert(map_of(entries@) =~= without_row(map_of(entries@), row));
        }
        *self = KeyMap { entries };
    }
}

/// A map of cells without those of one row.
pub open spec fn without_row<V>(m: Map<At, V>, row: usize) -> Map<At, V> {
    Map::new(|k: At| m.dom().contains(k) && k.row != row, |k: At| m[k])
}

proof fn lemma_value<K: Key, V>(s: Seq<(K, V)>, i: int)
    requires
        ascending(s),
        0 <= i < s.len(),
    ensures
        has_key(s, s[i].0),
        value_of(s, s[i].0) == s[i].1,
{
    let j = choose|j: int| 0 <= j < s.len() && (#[trigger] s[j]).0 == s[i].0;
    assert(s[i].0 == s[i].0);
    assert(i == j);
}

proof fn lemma_count<K: Key, V>(s: Seq<(K, V)>)
    requires
        ascending(s),
    ensures
        map_of(s).dom().finite(),
        map_of(s).dom().len() == s.len(),
    decreases s.len(),
{
    if s.len() == 0 {
        assert(map_of(s).dom() =~= Set::<K>::empty());
    } else {
        let t = s.drop_last();
        let (k, v) = s.last();
        lemma_count(t);
        lemma_inserted(t, t.len() as int, k, v);
        assert(t.insert(t.len() as int, (k, v)) =~= s);
        assert(!has_key(t, k));
        assert(map_of(s).dom() =~= map_of(t).dom().insert(k));
    }
}

proof fn lemma_replaced<K: Key, V>(s: Seq<(K, V)>, i: int, v: V)
    requires
        ascending(s),
        0 <= i < s.len(),
    ensures
        ascending(s.update(i, (s[i].0, v))),
        map_of(s.update(i, (s[i].0, v))) == map_of(s).insert(s[i].0, v),
{
    let t = s.update(i, (s[i].0, v));
    let k = s[i].0;
    assert forall|q: K| has_key(t, q) <==> has_key(s, q) by {
        if has_key(s, q) {
            let j = choose|j: int| 0 <= j < s.len() && (#[trigger] s[j]).0 == q;
            assert(t[j].0 == q);
        }
        if has_key(t, q) {
            let j = choose|j: int| 0 <= j < t.len() && (#[trigger] t[j]).0 == q;
            assert(s[j].0 == q);
        }
    }
    lemma_value(s, i);
    assert forall|q: K| has_key(t, q) implies map_of(t)[q] == map_of(s).insert(k, v)[q] by {
        let j = choose|j: int| 0 <= j < t.len() && (#[trigger] t[j]).0 == q;
        lemma_value(t, j);
        lemma_value(s, j);
    }
    assert(map_of(t) =~= map_of(s).insert(k, v));
}

proof fn lemma_inserted<K: Key, V>(s: Seq<(K, V)>, i: int, k: K, v: V)
    requires
        ascending(s),
        0 <= i <= s.len(),
        forall|j: int| 0 <= j < i ==> (#[trigger] s[j]).0.place() < k.place(),
        forall|j: int| i <= j < s.len() ==> (#[trigger] s[j]).0.place() > k.place(),
    ensures
        ascending(s.insert(i, (k, v))),
        map_of(s.insert(i, (k, v))) == map_of(s).insert(k, v),
{
    let t = s.insert(i, (k, v));
    assert(t[i] == (k, v));
    assert forall|q: K| has_key(t, q) <==> has_key(s, q) || q == k by {
        if has_key(s, q) {
            let j = choose|j: int| 0 <= j < s.len() && (#[trigger] s[j]).0 == q;
            assert(t[if j < i { j } else { j + 1 }].0 == q);
        }
        if has_key(t, q) {
            let j = choose|j: int| 0 <= j < t.len() && (#[trigger] t[j]).0 == q;
            if j != i {
                assert(s[if j < i { j } else { j - 1 }].0 == q);
            }
        }
    }
    assert forall|q: K| has_key(t, q) implies map_of(t)[q] == map_of(s).insert(k, v)[q] by {
        let j = choose|j: int| 0 <= j < t.len() && (#[trigger] t[j]).0 == q;
        lemma_value(t, j);
        if j != i {
            lemma_value(s, if j < i { j } else { j - 1 });
        }
    }
    assert(map_of(t) =~= map_of(s).insert(k, v));
}

proof fn lemma_removed<K: Key, V>(s: Seq<(K, V)>, i: int)
    requires
        ascending(s),
        0 <= i < s.len(),
    ensures
        ascending(s.remove(i)),
        map_of(s.remove(i)) == map_of(s).remove(s[i].0),
        has_key(s, s[i].0),
{
    let t = s.remove(i);
    let k = s[i].0;
    assert forall|q: K| has_key(t, q) <==> has_key(s, q) && q != k by {
        if has_key(s, q) && q != k {
            let j = choose|j: int| 0 <= j < s.len() && (#[trigger] s[j]).0 == q;
            assert(t[if j < i { j } else { j - 1 }].0 == q);
        }
        if has_key(t, q) {
            let j = choose|j: int| 0 <= j < t.len() && (#[trigger] t[j]).0 == q;
            let o = if j < i { j } else { j + 1 };
            assert(s[o].0 == q);
            assert(s[o].0.place() != s[i].0.place());
        }
    }
    assert forall|q: K| has_key(t, q) implies map_of(t)[q] == map_of(s).remove(k)[q] by {
        let j = choose|j: int| 0 <= j < t.len() && (#[trigger] t[j]).0 == q;
        lemma_value(t, j);
        lemma_value(s, if j < i { j } else { j + 1 });
    }
    assert(map_of(t) =~= map_of(s).remove(k));
}

/// Places are in the order of their rows, and those of a row in the order of their columns.
pub proof fn places_are_in_the_order_of_rows(a: At, b: At)
    ensures
        a.place() < b.place() <==> a.row < b.row || (a.row == b.row && a.col < b.col),
{
    assert(usize::MAX < word());
    assert(a.row < b.row ==> a.row * word() + a.col < b.row * word() + b.col) by (nonlinear_arith)
        requires
            0 <= a.col < word(),
            0 <= b.col,
            word() > 0,
    ;
    assert(b.row < a.row ==> b.row * word() + b.col < a.row * word() + a.col) by (nonlinear_arith)
        requires
            0 <= b.col < word(),
            0 <= a.col,
            word() > 0,
    ;
}

/// A map's entries are its keys with their values: each entry is in the map, and each key of the map
/// among the entries.
pub proof fn entries_are_the_map<K: Key, V>(s: Seq<(K, V)>, i: int, k: K)
    requires
        ascending(s),
        0 <= i < s.len(),
    ensures
        map_of(s).dom().contains(s[i].0),
        map_of(s)[s[i].0] == s[i].1,
        map_of(s).dom().contains(k) ==> exists|j: int| 0 <= j < s.len() && (#[trigger] s[j]).0 == k,
{
    let j = choose|j: int| 0 <= j < s.len() && (#[trigger] s[j]).0 == s[i].0;
    assert(s[i].0 == s[i].0);
    assert(has_key(s, s[i].0));
    if j < i {
        assert(s[j].0.place() < s[i].0.place());
    } else if i < j {
        assert(s[i].0.place() < s[j].0.place());
    }
}

/// A collection holds nothing where there is nothing to find in it.
pub proof fn what_holds_nothing_is_empty<K: Key, V, T>(o: Option<T>, v: Vec<T>, m: KeyMap<K, V>, k: K)
    ensures
        o.holds_nothing() <==> o is None,
        v.holds_nothing() <==> v@.len() == 0,
        m.holds_nothing() ==> !m@.dom().contains(k),
        (forall|j: K| !#[trigger] m@.dom().contains(j)) ==> m.holds_nothing(),
{
    if forall|j: K| !#[trigger] m@.dom().contains(j) {
        assert(m@ =~= Map::<K, V>::empty());
    }
}

/// Dropping a row takes out its cells, and leaves the others as they are.
pub proof fn dropping_a_row_takes_its_cells<V>(m: Map<At, V>, row: usize, at: At)
    ensures
        without_row(m, row).dom().contains(at) <==> m.dom().contains(at) && at.row != row,
        without_row(m, row).dom().contains(at) ==> without_row(m, row)[at] == m[at],
{
}

/// A map is seen as its entries.
pub proof fn a_map_is_its_entries<K: Key, V>(m: KeyMap<K, V>, k: K)
    ensures
        m@.dom().contains(k) <==> exists|i: int| 0 <= i < m.entries().len() && (#[trigger] m.entries()[i]).0
            == k,
{
}

} // verus!
