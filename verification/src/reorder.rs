//! Moving one entry of an ordered collection next to an anchor entry.

use crate::ordered::{
    holds_key, is_position, lemma_held_at, lemma_insert_keeps_unique, lemma_position,
    lemma_remove_keeps_unique, lemma_swap_keeps_unique, position, swapped, unique_keys, Key,
    OrderedCollection,
};
use vstd::prelude::*;

verus! {

/// What an optional anchor resolves to in `s`: its position, where it is given and
/// held.
pub open spec fn anchor_position<K: Key, V>(s: Seq<(K, V)>, anchor: Option<K::V>) -> Option<int> {
    match anchor {
        Some(k) => if holds_key(s, k) {
            Some(position(s, k))
        } else {
            None
        },
        None => None,
    }
}

/// `s` with the entry at position `i` moved to the front; the other entries keep
/// their order.
pub open spec fn moved_to_front<K: Key, V>(s: Seq<(K, V)>, i: int) -> Seq<(K, V)> {
    seq![s[i]] + s.remove(i)
}

/// The order that `reorder` leaves.
///
/// A moving key that is not held changes nothing. Where `before` resolves to a
/// position `p`, the target is `p + 1`: the moving entry and the entry at the
/// target change places, unless the moving entry is there already or the target is
/// past the end. Else, where `after` resolves to a position `p`, the moving entry
/// changes places with the entry at `p - 1`, or moves to the front where `p` is 0.
/// Where neither resolves nothing changes.
pub open spec fn reordered<K: Key, V>(
    s: Seq<(K, V)>,
    moving: K::V,
    before: Option<K::V>,
    after: Option<K::V>,
) -> Seq<(K, V)> {
    if !holds_key(s, moving) {
        s
    } else {
        let item = position(s, moving);
        match anchor_position(s, before) {
            Some(p) => if p + 1 != item && p + 1 < s.len() {
                swapped(s, p + 1, item)
            } else {
                s
            },
            None => match anchor_position(s, after) {
                Some(p) => if p != 0 {
                    swapped(s, p - 1, item)
                } else {
                    moved_to_front(s, item)
                },
                None => s,
            },
        }
    }
}

/// The position of an optional anchor key in `collection`.
fn resolve<K: Key, V>(collection: &OrderedCollection<K, V>, anchor: Option<&K>) -> (found: Option<
    usize,
>)
    ensures
        match found {
            Some(p) => anchor is Some && is_position(collection@, anchor.unwrap()@, p as int),
            None => anchor is None || !holds_key(collection@, anchor.unwrap()@),
        },
{
    match anchor {
        Some(key) => collection.get_index_of(key),
        None => None,
    }
}

/// The view of an optional key.
pub open spec fn anchor_view<K: Key>(anchor: Option<&K>) -> Option<K::V> {
    match anchor {
        Some(k) => Some(k@),
        None => None,
    }
}

/// Moves the entry of `moving_key` relative to two anchors: `before_anchor` is the
/// key that the entry should follow, `after_anchor` the key that it should
/// precede. The first anchor that the collection holds decides.
pub fn reorder<K: Key, V>(
    collection: &mut OrderedCollection<K, V>,
    moving_key: &K,
    before_anchor: Option<&K>,
    after_anchor: Option<&K>,
)
    ensures
        final(collection)@ == reordered(
            old(collection)@,
            moving_key@,
            anchor_view(before_anchor),
            anchor_view(after_anchor),
        ),
{
    let ghost s = collection@;
    match collection.get_index_of(moving_key) {
        Some(item_pos) => {
            let prev_pos = resolve(collection, before_anchor);
            let next_pos = resolve(collection, after_anchor);
            let len: usize = collection.len();
            proof {
                lemma_position(s, moving_key@);
                if before_anchor is Some && holds_key(s, before_anchor.unwrap()@) {
                    lemma_position(s, before_anchor.unwrap()@);
                }
                if after_anchor is Some && holds_key(s, after_anchor.unwrap()@) {
                    lemma_position(s, after_anchor.unwrap()@);
                }
            }
            match prev_pos {
                Some(p) => {
                    let target: usize = p + 1;
                    if target != item_pos && target < len {
                        collection.swap_indices(target, item_pos);
                    }
                },
                None => match next_pos {
                    Some(p) => {
                        if p != 0 {
                            collection.swap_indices(p - 1, item_pos);
                        } else {
                            let taken = collection.shift_remove_index(item_pos);
                            collection.reverse();
                            match taken {
                                Some((k, v)) => {
                                    proof {
                                        lemma_absent_after_removal(s, item_pos as int);
                                        assert(!holds_key(s.remove(item_pos as int).reverse(), k@))
                                            by {
                                            let r = s.remove(item_pos as int);
                                            if holds_key(r.reverse(), k@) {
                                                let j = choose|j: int|
                                                    0 <= j < r.reverse().len() && (
                                                    #[trigger] r.reverse()[j]).0@ == k@;
                                                assert(r.reverse()[j] == r[r.len() - 1 - j]);
                                                assert(r[r.len() - 1 - j].0@ == k@);
                                            }
                                        }
                                    }
                                    collection.insert(k, v);
                                },
                                None => {},
                            }
                            collection.reverse();
                            proof {
                                let r = s.remove(item_pos as int);
                                assert(r.reverse().push(s[item_pos as int]).reverse()
                                    =~= moved_to_front(s, item_pos as int));
                            }
                        }
                    },
                    None => {},
                },
            }
        },
        None => {},
    }
}

/// Once the entry at position `i` is taken out, no entry has its key.
pub proof fn lemma_absent_after_removal<K: Key, V>(s: Seq<(K, V)>, i: int)
    requires
        unique_keys(s),
        0 <= i < s.len(),
    ensures
        !holds_key(s.remove(i), s[i].0@),
{
    let r = s.remove(i);
    if holds_key(r, s[i].0@) {
        let j = choose|j: int| 0 <= j < r.len() && (#[trigger] r[j]).0@ == s[i].0@;
        let j0 = if j < i { j } else { j + 1 };
        assert(r[j] == s[j0]);
        if j0 < i {
            assert(s[j0].0@ != s[i].0@);
        } else {
            assert(s[i].0@ != s[j0].0@);
        }
    }
}

/// Reordering loses and adds nothing: the collection has as many entries as
/// before, each entry it had is still there, and its keys are still unique.
pub proof fn lemma_reordered_keeps_entries<K: Key, V>(
    s: Seq<(K, V)>,
    moving: K::V,
    before: Option<K::V>,
    after: Option<K::V>,
)
    requires
        unique_keys(s),
    ensures
        reordered(s, moving, before, after).len() == s.len(),
        unique_keys(reordered(s, moving, before, after)),
        forall|i: int|
            0 <= i < s.len() ==> reordered(s, moving, before, after).contains(#[trigger] s[i]),
{
    let r = reordered(s, moving, before, after);
    if holds_key(s, moving) {
        lemma_position(s, moving);
        let item = position(s, moving);
        match anchor_position(s, before) {
            Some(p) => {
                lemma_position(s, before.unwrap());
                if p + 1 != item && p + 1 < s.len() {
                    lemma_swap_keeps_unique(s, p + 1, item);
                    assert forall|i: int| 0 <= i < s.len() implies r.contains(#[trigger] s[i]) by {
                        let j = if i == item { p + 1 } else if i == p + 1 { item } else { i };
                        assert(r[j] == s[i]);
                    }
                } else {
                    assert forall|i: int| 0 <= i < s.len() implies r.contains(#[trigger] s[i]) by {
                        assert(r[i] == s[i]);
                    }
                }
            },
            None => match anchor_position(s, after) {
                Some(p) => {
                    lemma_position(s, after.unwrap());
                    if p != 0 {
                        lemma_swap_keeps_unique(s, p - 1, item);
                        assert forall|i: int| 0 <= i < s.len() implies r.contains(
                            #[trigger] s[i],
                        ) by {
                            let j = if i == item { p - 1 } else if i == p - 1 { item } else { i };
                            assert(r[j] == s[i]);
                        }
                    } else {
                        lemma_absent_after_removal(s, item);
                        lemma_remove_keeps_unique(s, item);
                        lemma_insert_keeps_unique(s.remove(item), 0, s[item]);
                        assert(s.remove(item).insert(0, s[item]) =~= r);
                        assert forall|i: int| 0 <= i < s.len() implies r.contains(
                            #[trigger] s[i],
                        ) by {
                            let j = if i == item { 0 } else if i < item { i + 1 } else { i };
                            assert(r[j] == s[i]);
                        }
                    }
                },
                None => {
                    assert forall|i: int| 0 <= i < s.len() implies r.contains(#[trigger] s[i]) by {
                        assert(r[i] == s[i]);
                    }
                },
            },
        }
    } else {
        assert forall|i: int| 0 <= i < s.len() implies r.contains(#[trigger] s[i]) by {
            assert(r[i] == s[i]);
        }
    }
}

/// Adjacency. Where the collection holds the moving key and a different key
/// `anchor` that is not at the last position, reordering with `anchor` as the key
/// to follow leaves the moving entry directly behind the entry of `anchor`.
pub proof fn lemma_reorder_follows_anchor<K: Key, V>(
    s: Seq<(K, V)>,
    moving: K::V,
    anchor: K::V,
    after: Option<K::V>,
)
    requires
        unique_keys(s),
        holds_key(s, moving),
        holds_key(s, anchor),
        moving != anchor,
        position(s, anchor) + 1 < s.len(),
    ensures
        ({
            let r = reordered(s, moving, Some(anchor), after);
            &&& r.len() == s.len()
            &&& holds_key(r, moving)
            &&& holds_key(r, anchor)
            &&& position(r, moving) == position(r, anchor) + 1
        }),
{
    lemma_position(s, moving);
    lemma_position(s, anchor);
    let item = position(s, moving);
    let p = position(s, anchor);
    let r = reordered(s, moving, Some(anchor), after);
    assert(p != item);
    if p + 1 != item {
        lemma_swap_keeps_unique(s, p + 1, item);
    }
    assert(r[p] == s[p]);
    assert(r[p + 1] == s[item]);
    assert(unique_keys(r));
    lemma_held_at(r, p);
    lemma_held_at(r, p + 1);
}

/// Move to front. Where the collection holds the moving key and `first` is the
/// key of its first entry, reordering with `first` as the key to precede (and no
/// key to follow that the collection holds) leaves the moving entry at position 0
/// and the other entries in the order they had.
pub proof fn lemma_reorder_moves_to_front<K: Key, V>(
    s: Seq<(K, V)>,
    moving: K::V,
    before: Option<K::V>,
    first: K::V,
)
    requires
        unique_keys(s),
        holds_key(s, moving),
        anchor_position(s, before) is None,
        s.len() > 0,
        first == s[0].0@,
    ensures
        ({
            let r = reordered(s, moving, before, Some(first));
            &&& r.len() == s.len()
            &&& unique_keys(r)
            &&& holds_key(r, moving)
            &&& position(r, moving) == 0
            &&& r[0] == s[position(s, moving)]
            &&& r.remove(0) == s.remove(position(s, moving))
        }),
{
    lemma_position(s, moving);
    lemma_held_at(s, 0);
    let item = position(s, moving);
    let r = reordered(s, moving, before, Some(first));
    assert(r == moved_to_front(s, item));
    assert(r.remove(0) =~= s.remove(item));
    lemma_absent_after_removal(s, item);
    lemma_remove_keeps_unique(s, item);
    lemma_insert_keeps_unique(s.remove(item), 0, s[item]);
    assert(s.remove(item).insert(0, s[item]) =~= r);
    lemma_held_at(r, 0);
}

/// Moves the entry of `id` in a collection keyed by numeric ids: behind the entry
/// of `previous_id` where the collection holds that id, else in front of the entry
/// of `next_id`.
pub fn update_order<V>(
    map: &mut OrderedCollection<u64, V>,
    previous_id: u64,
    next_id: u64,
    id: u64,
)
    ensures
        final(map)@ == reordered(old(map)@, id, Some(previous_id), Some(next_id)),
{
    reorder(map, &id, Some(&previous_id), Some(&next_id))
}

} // verus!
