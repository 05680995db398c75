//! The ordered index map behind a sparse vector.
//!
//! The map is `pstd`'s B-tree map from index to stored value. Verus cannot
//! look inside it, so this module is the trusted boundary: every function
//! here has a contract that is believed, not proved. Each contract states
//! what the `pstd` method does to the entries of the map, written over
//! [`store_entries`], and what it hands back.

use pstd::collections::btree_map::Range;
use pstd::collections::BTreeMap;
use vstd::prelude::*;

verus! {

/// An ordered map from index to stored value: `pstd::collections::BTreeMap<usize, i32>`.
#[verifier::external_body]
#[derive(Debug)]
pub struct IndexStore {
    inner: BTreeMap<usize, i32>,
}

/// The entries that an [`IndexStore`] holds.
pub uninterp spec fn store_entries(m: IndexStore) -> Map<usize, i32>;

/// `pstd::collections::btree_map::Range`: a double-ended iterator over the
/// entries of a map whose keys lie in a window.
#[verifier::external_type_specification]
#[verifier::external_body]
#[verifier::reject_recursive_types(K)]
#[verifier::reject_recursive_types(V)]
pub struct ExRange<'a, K, V>(Range<'a, K, V>);

/// A range over the entries of an [`IndexStore`].
pub type EntryRange<'a> = Range<'a, usize, i32>;

/// The entries that a range over an [`IndexStore`] has not handed out yet,
/// by ascending key.
pub uninterp spec fn range_pending(r: EntryRange) -> Seq<(usize, i32)>;

/// The map without entries.
pub open spec fn no_entries() -> Map<usize, i32> {
    Map::empty()
}

/// The value stored under `key`, if any.
pub open spec fn entry_at(entries: Map<usize, i32>, key: usize) -> Option<i32> {
    if entries.contains_key(key) {
        Some(entries[key])
    } else {
        None
    }
}

/// The entries of `entries` whose keys lie in `lo <= key < hi`, by ascending key.
pub open spec fn entries_between(entries: Map<usize, i32>, lo: int, hi: int) -> Seq<(usize, i32)>
    decreases hi - lo,
{
    if lo >= hi {
        Seq::empty()
    } else if 0 <= lo <= usize::MAX && entries.contains_key(lo as usize) {
        seq![(lo as usize, entries[lo as usize])] + entries_between(entries, lo + 1, hi)
    } else {
        entries_between(entries, lo + 1, hi)
    }
}

/// `BTreeMap::new`: the new map holds no entry.
#[verifier::external_body]
pub(crate) fn store_new() -> (m: IndexStore)
    ensures
        store_entries(m) == no_entries(),
{
    IndexStore { inner: BTreeMap::new() }
}

/// `BTreeMap::clone`: the copy holds the same entries.
#[verifier::external_body]
pub(crate) fn store_clone(m: &IndexStore) -> (copy: IndexStore)
    ensures
        store_entries(copy) == store_entries(*m),
{
    IndexStore { inner: m.inner.clone() }
}

/// `BTreeMap::len`: the number of entries.
#[verifier::external_body]
pub(crate) fn store_len(m: &IndexStore) -> (n: usize)
    ensures
        n == store_entries(*m).len(),
{
    m.inner.len()
}

/// `BTreeMap::get`: the value stored under `key`, if the map has that key.
#[verifier::external_body]
pub(crate) fn store_get<'a>(m: &'a IndexStore, key: usize) -> (value: Option<&'a i32>)
    ensures
        value.is_some() == store_entries(*m).contains_key(key),
        value.is_some() ==> *value.unwrap() == store_entries(*m)[key],
{
    m.inner.get(&key)
}

/// `BTreeMap::insert`: afterwards `key` maps to `value` and every other
/// entry is as before; the value that `key` had before is returned.
#[verifier::external_body]
pub(crate) fn store_insert(m: &mut IndexStore, key: usize, value: i32) -> (prev: Option<i32>)
    ensures
        store_entries(*final(m)) == store_entries(*old(m)).insert(key, value),
        prev == entry_at(store_entries(*old(m)), key),
{
    m.inner.insert(key, value)
}

/// `BTreeMap::remove`: afterwards the map has no entry for `key` and every
/// other entry is as before; the value that `key` had is returned.
#[verifier::external_body]
pub(crate) fn store_remove(m: &mut IndexStore, key: usize) -> (prev: Option<i32>)
    ensures
        store_entries(*final(m)) == store_entries(*old(m)).remove(key),
        prev == entry_at(store_entries(*old(m)), key),
{
    m.inner.remove(&key)
}

/// `BTreeMap::clear`: afterwards the map holds no entry.
#[verifier::external_body]
pub(crate) fn store_clear(m: &mut IndexStore)
    ensures
        store_entries(*final(m)) == no_entries(),
{
    m.inner.clear()
}

/// `BTreeMap::range` on `lo..hi`: the iterator will hand out the entries
/// with `lo <= key < hi`, by ascending key. `pstd` panics when `lo > hi`.
#[verifier::external_body]
pub(crate) fn store_range<'a>(m: &'a IndexStore, lo: usize, hi: usize) -> (r: EntryRange<'a>)
    requires
        lo <= hi,
    ensures
        range_pending(r) == entries_between(store_entries(*m), lo as int, hi as int),
{
    m.inner.range(lo..hi)
}

/// `Range::clone`: the copy has the same entries left to hand out.
#[verifier::external_body]
pub(crate) fn range_clone<'a>(r: &EntryRange<'a>) -> (copy: EntryRange<'a>)
    ensures
        range_pending(copy) == range_pending(*r),
{
    r.clone()
}

/// `Range::next`: hands out the pending entry with the smallest key, or
/// `None` when nothing is pending.
#[verifier::external_body]
pub(crate) fn range_next<'a>(r: &mut EntryRange<'a>) -> (item: Option<(usize, &'a i32)>)
    ensures
        item.is_some() == (range_pending(*old(r)).len() > 0),
        item.is_some() ==> item.unwrap().0 == range_pending(*old(r)).first().0
            && *item.unwrap().1 == range_pending(*old(r)).first().1
            && range_pending(*final(r)) == range_pending(*old(r)).drop_first(),
        item.is_none() ==> range_pending(*final(r)) == range_pending(*old(r)),
{
    r.next().map(|kv| (*kv.0, kv.1))
}

/// `Range::next_back`: hands out the pending entry with the largest key, or
/// `None` when nothing is pending.
#[verifier::external_body]
pub(crate) fn range_next_back<'a>(r: &mut EntryRange<'a>) -> (item: Option<(usize, &'a i32)>)
    ensures
        item.is_some() == (range_pending(*old(r)).len() > 0),
        item.is_some() ==> item.unwrap().0 == range_pending(*old(r)).last().0
            && *item.unwrap().1 == range_pending(*old(r)).last().1
            && range_pending(*final(r)) == range_pending(*old(r)).drop_last(),
        item.is_none() ==> range_pending(*final(r)) == range_pending(*old(r)),
{
    r.next_back().map(|kv| (*kv.0, kv.1))
}

} // verus!
