//! An insertion-ordered collection of entries with unique keys.

use vstd::prelude::*;

verus! {

/// A key of an [`OrderedCollection`]: a value whose view is its identity, with an
/// executable test of that identity.
pub trait Key: View + Sized {
    /// Whether both keys denote the same entry.
    fn same_key(&self, other: &Self) -> (same: bool)
        ensures
            same == (self@ == other@),
    ;
}

impl Key for u64 {
    fn same_key(&self, other: &Self) -> (same: bool) {
        *self == *other
    }
}

/// Some entry of `s` has the key `k`.
pub open spec fn holds_key<K: Key, V>(s: Seq<(K, V)>, k: K::V) -> bool {
    exists|i: int| 0 <= i < s.len() && (#[trigger] s[i]).0@ == k
}

/// `i` is the first position of `s` whose entry has the key `k`.
pub open spec fn is_position<K: Key, V>(s: Seq<(K, V)>, k: K::V, i: int) -> bool {
    &&& 0 <= i < s.len()
    &&& s[i].0@ == k
    &&& forall|j: int| 0 <= j < i ==> (#[trigger] s[j]).0@ != k
}

/// The position of the key `k` in `s`; meaningful where `holds_key(s, k)`.
pub open spec fn position<K: Key, V>(s: Seq<(K, V)>, k: K::V) -> int {
    choose|i: int| is_position(s, k, i)
}

/// No two entries of `s` share a key.
pub open spec fn unique_keys<K: Key, V>(s: Seq<(K, V)>) -> bool {
    forall|i: int, j: int|
        0 <= i < j < s.len() ==> (#[trigger] s[i]).0@ != (#[trigger] s[j]).0@
}

/// A present key has exactly one first position, and `position` names it.
pub proof fn lemma_position<K: Key, V>(s: Seq<(K, V)>, k: K::V)
    requires
        holds_key(s, k),
    ensures
        is_position(s, k, position(s, k)),
        forall|i: int| is_position(s, k, i) ==> i == position(s, k),
{
    let w = choose|i: int| 0 <= i < s.len() && (#[trigger] s[i]).0@ == k;
    lemma_first_match(s, k, w);
    let p = position(s, k);
    assert forall|i: int| is_position(s, k, i) implies i == p by {
        if i < p {
            assert(s[i].0@ != k);
        } else if p < i {
            assert(s[p].0@ != k);
        }
    }
}

proof fn lemma_first_match<K: Key, V>(s: Seq<(K, V)>, k: K::V, w: int)
    requires
        0 <= w < s.len(),
        s[w].0@ == k,
    ensures
        exists|i: int| is_position(s, k, i),
    decreases w,
{
    if forall|j: int| 0 <= j < w ==> (#[trigger] s[j]).0@ != k {
        assert(is_position(s, k, w));
    } else {
        let j = choose|j: int| 0 <= j < w && (#[trigger] s[j]).0@ == k;
        lemma_first_match(s, k, j);
    }
}

/// `s` after `value` was stored under `key`: in place where the key is held, at
/// the end where it is new.
pub open spec fn inserted<K: Key, V>(s: Seq<(K, V)>, key: K, value: V) -> Seq<(K, V)> {
    if holds_key(s, key@) {
        with_value(s, position(s, key@), value)
    } else {
        s.push((key, value))
    }
}

/// `s` with the value at position `i` replaced by `value`; the key stays.
pub open spec fn with_value<K: Key, V>(s: Seq<(K, V)>, i: int, value: V) -> Seq<(K, V)> {
    s.update(i, (s[i].0, value))
}

/// `t` has the keys of `s` in their order, and the values of `s` but at
/// position `i`.
pub open spec fn same_but_value_at<K: Key, V>(s: Seq<(K, V)>, t: Seq<(K, V)>, i: int) -> bool {
    &&& t.len() == s.len()
    &&& forall|j: int|
        0 <= j < s.len() ==> (#[trigger] t[j]).0 == s[j].0 && (j != i ==> t[j] == s[j])
}

/// Under unique keys the entry at position `i` is the one that `position` finds
/// for its key.
pub proof fn lemma_held_at<K: Key, V>(s: Seq<(K, V)>, i: int)
    requires
        unique_keys(s),
        0 <= i < s.len(),
    ensures
        holds_key(s, s[i].0@),
        position(s, s[i].0@) == i,
{
    assert(is_position(s, s[i].0@, i)) by {
        assert forall|j: int| 0 <= j < i implies (#[trigger] s[j]).0@ != s[i].0@ by {}
    }
    lemma_position(s, s[i].0@);
}

/// Replacing a value leaves the keys unique.
pub proof fn lemma_with_value_keeps_unique<K: Key, V>(s: Seq<(K, V)>, i: int, value: V)
    requires
        unique_keys(s),
        0 <= i < s.len(),
    ensures
        unique_keys(with_value(s, i, value)),
{
    let r = with_value(s, i, value);
    assert forall|a: int, b: int| 0 <= a < b < r.len() implies (#[trigger] r[a]).0@ != (
    #[trigger] r[b]).0@ by {
        assert(r[a].0 == s[a].0);
        assert(r[b].0 == s[b].0);
    }
}

/// `s` with the entries at positions `a` and `b` exchanged.
pub open spec fn swapped<K: Key, V>(s: Seq<(K, V)>, a: int, b: int) -> Seq<(K, V)> {
    s.update(a, s[b]).update(b, s[a])
}

/// `s` without the entry of the key `k`.
pub open spec fn without_key<K: Key, V>(s: Seq<(K, V)>, k: K::V) -> Seq<(K, V)> {
    if holds_key(s, k) {
        s.remove(position(s, k))
    } else {
        s
    }
}

/// Taking an entry out leaves the keys unique.
pub proof fn lemma_remove_keeps_unique<K: Key, V>(s: Seq<(K, V)>, i: int)
    requires
        unique_keys(s),
        0 <= i < s.len(),
    ensures
        unique_keys(s.remove(i)),
{
    let r = s.remove(i);
    assert forall|a: int, b: int| 0 <= a < b < r.len() implies (#[trigger] r[a]).0@ != (
    #[trigger] r[b]).0@ by {
        let a0 = if a < i { a } else { a + 1 };
        let b0 = if b < i { b } else { b + 1 };
        assert(r[a] == s[a0]);
        assert(r[b] == s[b0]);
    }
}

/// Adding an entry with a new key at the end leaves the keys unique.
pub proof fn lemma_push_keeps_unique<K: Key, V>(s: Seq<(K, V)>, e: (K, V))
    requires
        unique_keys(s),
        !holds_key(s, e.0@),
    ensures
        unique_keys(s.push(e)),
{
    let r = s.push(e);
    assert forall|a: int, b: int| 0 <= a < b < r.len() implies (#[trigger] r[a]).0@ != (
    #[trigger] r[b]).0@ by {
        assert(r[a] == s[a]);
        if b < s.len() {
            assert(r[b] == s[b]);
        }
    }
}

/// Putting an entry with a new key at any position leaves the keys unique.
pub proof fn lemma_insert_keeps_unique<K: Key, V>(s: Seq<(K, V)>, i: int, e: (K, V))
    requires
        unique_keys(s),
        0 <= i <= s.len(),
        !holds_key(s, e.0@),
    ensures
        unique_keys(s.insert(i, e)),
{
    let r = s.insert(i, e);
    assert forall|a: int, b: int| 0 <= a < b < r.len() implies (#[trigger] r[a]).0@ != (
    #[trigger] r[b]).0@ by {
        if a != i {
            let a0 = if a < i { a } else { a - 1 };
            assert(r[a] == s[a0]);
        }
        if b != i {
            let b0 = if b < i { b } else { b - 1 };
            assert(r[b] == s[b0]);
        }
    }
}

/// Exchanging two entries leaves the keys unique.
pub proof fn lemma_swap_keeps_unique<K: Key, V>(s: Seq<(K, V)>, a: int, b: int)
    requires
        unique_keys(s),
        0 <= a < s.len(),
        0 <= b < s.len(),
    ensures
        unique_keys(swapped(s, a, b)),
{
    let r = swapped(s, a, b);
    assert forall|x: int, y: int| 0 <= x < y < r.len() implies (#[trigger] r[x]).0@ != (
    #[trigger] r[y]).0@ by {
        let x0 = if x == a { b } else if x == b { a } else { x };
        let y0 = if y == a { b } else if y == b { a } else { y };
        assert(r[x] == s[x0]);
        assert(r[y] == s[y0]);
        if x0 < y0 {
            assert(s[x0].0@ != s[y0].0@);
        } else {
            assert(s[y0].0@ != s[x0].0@);
        }
    }
}

/// Turning the order round leaves the keys unique.
pub proof fn lemma_reverse_keeps_unique<K: Key, V>(s: Seq<(K, V)>)
    requires
        unique_keys(s),
    ensures
        unique_keys(s.reverse()),
{
    let r = s.reverse();
    assert forall|x: int, y: int| 0 <= x < y < r.len() implies (#[trigger] r[x]).0@ != (
    #[trigger] r[y]).0@ by {
        assert(r[x] == s[s.len() - 1 - x]);
        assert(r[y] == s[s.len() - 1 - y]);
        assert(s[s.len() - 1 - y].0@ != s[s.len() - 1 - x].0@);
    }
}

/// A collection of key-value entries that keeps the order in which they were
/// inserted and holds each key at most once.
#[derive(Debug)]
pub struct OrderedCollection<K: Key, V> {
    entries: Vec<(K, V)>,
}

impl<K: Key, V> View for OrderedCollection<K, V> {
    type V = Seq<(K, V)>;

    closed spec fn view(&self) -> Seq<(K, V)> {
        self.entries@
    }
}

impl<K: Key, V> OrderedCollection<K, V> {
    #[verifier::type_invariant]
    spec fn well_formed(self) -> bool {
        unique_keys(self.entries@)
    }

    /// Moves the entries out and leaves the collection empty.
    fn take_entries(&mut self) -> (entries: Vec<(K, V)>)
        ensures
            entries@ == old(self).entries@,
            unique_keys(entries@),
            final(self).entries@ == Seq::<(K, V)>::empty(),
    {
        proof {
            use_type_invariant(&*self);
        }
        let mut entries: Vec<(K, V)> = Vec::new();
        std::mem::swap(&mut entries, &mut self.entries);
        entries
    }

    /// An empty collection.
    pub fn new() -> (c: Self)
        ensures
            c@ == Seq::<(K, V)>::empty(),
    {
        OrderedCollection { entries: Vec::new() }
    }

    /// The number of entries. Every collection holds each key once.
    pub fn len(&self) -> (n: usize)
        ensures
            n == self@.len(),
            unique_keys(self@),
    {
        proof {
            use_type_invariant(self);
        }
        self.entries.len()
    }

    /// The position of `key`, if the collection holds it.
    pub fn get_index_of(&self, key: &K) -> (found: Option<usize>)
        ensures
            match found {
                Some(i) => is_position(self@, key@, i as int),
                None => !holds_key(self@, key@),
            },
    {
        let mut i: usize = 0;
        while i < self.entries.len()
            invariant
                i <= self.entries@.len(),
                forall|j: int| 0 <= j < i ==> (#[trigger] self.entries@[j]).0@ != key@,
            decreases self.entries@.len() - i,
        {
            if self.entries[i].0.same_key(key) {
                return Some(i);
            }
            i += 1;
        }
        None
    }

    /// Whether the collection holds no entry.
    pub fn is_empty(&self) -> (empty: bool)
        ensures
            empty == (self@.len() == 0),
    {
        self.entries.len() == 0
    }

    /// Whether the collection holds `key`.
    pub fn contains_key(&self, key: &K) -> (held: bool)
        ensures
            held == holds_key(self@, key@),
    {
        self.get_index_of(key).is_some()
    }

    /// The value stored under `key`.
    pub fn get(&self, key: &K) -> (found: Option<&V>)
        ensures
            match found {
                Some(v) => holds_key(self@, key@) && *v == self@[position(self@, key@)].1,
                None => !holds_key(self@, key@),
            },
    {
        match self.get_index_of(key) {
            Some(i) => {
                proof {
                    lemma_position(self@, key@);
                }
                Some(&self.entries[i].1)
            },
            None => None,
        }
    }

    /// The entry at position `index`.
    pub fn get_index(&self, index: usize) -> (found: Option<(&K, &V)>)
        ensures
            match found {
                Some((k, v)) => index < self@.len() && *k == self@[index as int].0 && *v
                    == self@[index as int].1,
                None => index >= self@.len(),
            },
    {
        if index < self.entries.len() {
            let entry = &self.entries[index];
            Some((&entry.0, &entry.1))
        } else {
            None
        }
    }

    /// Stores `value` under `key`. A key that is already held keeps its position
    /// and gets the new value, and the value it had is returned; a new key goes to
    /// the end.
    pub fn insert(&mut self, key: K, value: V) -> (previous: Option<V>)
        ensures
            final(self)@ == inserted(old(self)@, key, value),
            match previous {
                Some(v) => holds_key(old(self)@, key@) && v == old(self)@[position(
                    old(self)@,
                    key@,
                )].1,
                None => !holds_key(old(self)@, key@),
            },
    {
        match self.get_index_of(&key) {
            Some(i) => {
                proof {
                    lemma_position(self@, key@);
                }
                let mut entries = self.take_entries();
                let ghost before = entries@;
                let (k, v) = entries.remove(i);
                proof {
                    assert forall|j: int| 0 <= j < entries@.len() implies (
                    #[trigger] entries@[j]).0@ != k@ by {
                        let j0 = if j < i { j } else { j + 1 };
                        assert(entries@[j] == before[j0]);
                    }
                    lemma_insert_keeps_unique(entries@, i as int, (k, value));
                    assert(entries@.insert(i as int, (k, value)) =~= before.update(
                        i as int,
                        (k, value),
                    ));
                }
                entries.insert(i, (k, value));
                self.entries = entries;
                Some(v)
            },
            None => {
                let mut entries = self.take_entries();
                proof {
                    lemma_push_keeps_unique(entries@, (key, value));
                }
                entries.push((key, value));
                self.entries = entries;
                None
            },
        }
    }

    /// Exchanges the value at position `index` with `value`; the key stays. A
    /// position past the end changes nothing.
    pub fn swap_value(&mut self, index: usize, value: &mut V)
        ensures
            index < old(self)@.len() ==> final(self)@ == with_value(
                old(self)@,
                index as int,
                *old(value),
            ) && *final(value) == old(self)@[index as int].1,
            index >= old(self)@.len() ==> final(self)@ == old(self)@ && *final(value) == *old(
                value,
            ),
    {
        if index < self.entries.len() {
            let mut entries = self.take_entries();
            let ghost before = entries@;
            let (k, mut held) = entries.remove(index);
            std::mem::swap(value, &mut held);
            proof {
                lemma_with_value_keeps_unique(before, index as int, held);
                assert(entries@.insert(index as int, (k, held)) =~= with_value(
                    before,
                    index as int,
                    held,
                ));
            }
            entries.insert(index, (k, held));
            self.entries = entries;
        }
    }

    /// Exchanges the entries at positions `a` and `b`.
    pub fn swap_indices(&mut self, a: usize, b: usize)
        requires
            a < old(self)@.len(),
            b < old(self)@.len(),
        ensures
            final(self)@ == swapped(old(self)@, a as int, b as int),
    {
        if a != b {
            let lo: usize = if a < b { a } else { b };
            let hi: usize = if a < b { b } else { a };
            let mut entries = self.take_entries();
            let ghost before = entries@;
            proof {
                lemma_swap_keeps_unique(before, a as int, b as int);
                assert(before.remove(hi as int).remove(lo as int).insert(
                    lo as int,
                    before[hi as int],
                ).insert(hi as int, before[lo as int]) =~= swapped(before, a as int, b as int));
            }
            let upper = entries.remove(hi);
            let lower = entries.remove(lo);
            entries.insert(lo, upper);
            entries.insert(hi, lower);
            self.entries = entries;
        }
    }

    /// Takes the last entry out.
    pub fn pop(&mut self) -> (last: Option<(K, V)>)
        ensures
            match last {
                Some(e) => old(self)@.len() > 0 && e == old(self)@.last() && final(self)@
                    == old(self)@.drop_last(),
                None => old(self)@.len() == 0 && final(self)@ == old(self)@,
            },
    {
        let mut entries = self.take_entries();
        proof {
            if entries@.len() > 0 {
                lemma_remove_keeps_unique(entries@, entries@.len() - 1);
                assert(entries@.remove(entries@.len() - 1) =~= entries@.drop_last());
            }
        }
        let last = entries.pop();
        self.entries = entries;
        last
    }

    /// Puts the entries in the opposite order.
    pub fn reverse(&mut self)
        ensures
            final(self)@ == old(self)@.reverse(),
    {
        let mut entries = self.take_entries();
        let ghost before = entries@;
        let mut turned: Vec<(K, V)> = Vec::new();
        while entries.len() > 0
            invariant
                unique_keys(before),
                entries@ == before.take(before.len() - turned@.len()),
                turned@.len() <= before.len(),
                forall|i: int|
                    0 <= i < turned@.len() ==> (#[trigger] turned@[i]) == before[before.len() - 1
                        - i],
            decreases entries@.len(),
        {
            let e = entries.pop();
            match e {
                Some(entry) => {
                    turned.push(entry);
                },
                None => {},
            }
        }
        proof {
            assert(turned@ =~= before.reverse());
            lemma_reverse_keeps_unique(before);
        }
        self.entries = turned;
    }

    /// Takes the entry at position `index` out; the entries behind it move up by
    /// one position.
    pub fn shift_remove_index(&mut self, index: usize) -> (removed: Option<(K, V)>)
        ensures
            match removed {
                Some(e) => {
                    &&& index < old(self)@.len()
                    &&& e == old(self)@[index as int]
                    &&& final(self)@ == old(self)@.remove(index as int)
                },
                None => index >= old(self)@.len() && final(self)@ == old(self)@,
            },
    {
        if index < self.entries.len() {
            let mut entries = self.take_entries();
            proof {
                lemma_remove_keeps_unique(entries@, index as int);
            }
            let removed = entries.remove(index);
            self.entries = entries;
            Some(removed)
        } else {
            None
        }
    }

    /// Takes the entry of `key` out and returns its value; the order of the other
    /// entries stays.
    pub fn remove(&mut self, key: &K) -> (removed: Option<V>)
        ensures
            final(self)@ == without_key(old(self)@, key@),
            match removed {
                Some(v) => holds_key(old(self)@, key@) && v == old(self)@[position(
                    old(self)@,
                    key@,
                )].1,
                None => !holds_key(old(self)@, key@),
            },
    {
        match self.get_index_of(key) {
            Some(i) => {
                proof {
                    lemma_position(self@, key@);
                }
                let mut entries = self.take_entries();
                proof {
                    lemma_remove_keeps_unique(entries@, i as int);
                }
                let (_, v) = entries.remove(i);
                self.entries = entries;
                Some(v)
            },
            None => None,
        }
    }
}

} // verus!
