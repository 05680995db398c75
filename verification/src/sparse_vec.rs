//! The sparse vector itself.

use crate::into_iter::IntoIter;
use crate::iter::Iter;
use crate::model::{
    all_padding, lemma_non_padding_empty, lemma_non_padding_first, lemma_non_padding_items,
    lemma_non_padding_last, lemma_non_padding_split, lex_order, non_padding, repeat, runs_of,
    sparse_of, Order,
};
use crate::padding::Padding;
use crate::sparse_reader::SparseReader;
use crate::sparse_slice::SparseSlice;
use crate::sparse_slice_mut::SparseSliceMut;
use crate::sparse_writer::SparseWriter;
use crate::splice::Splice;
use crate::store::{
    entries_between, range_next, range_next_back, range_pending, store_clear, store_clone,
    store_entries, store_get, store_insert, store_len, store_new, store_range, store_remove,
    EntryRange, IndexStore,
};
use crate::value_editor::ValueEditor;
use core::ops::Range;
use vstd::prelude::*;
use vstd::std_specs::cmp::PartialEqSpecImpl;

verus! {

/// The value that a vector with stored entries `entries` has at index `i`.
pub open spec fn value_at(entries: Map<usize, i32>, padding: i32, i: int) -> i32 {
    if 0 <= i <= usize::MAX && entries.contains_key(i as usize) {
        entries[i as usize]
    } else {
        padding
    }
}

/// A vector of `i32` that stores only the elements that differ from its
/// padding value.
///
/// Its view is the dense sequence that it stands for.
#[derive(Debug)]
pub struct SparseVec {
    len: usize,
    padding: Padding,
    map: IndexStore,
}

impl View for SparseVec {
    type V = Seq<i32>;

    closed spec fn view(&self) -> Seq<i32> {
        Seq::new(
            self.len as nat,
            |i: int| value_at(store_entries(self.map), self.padding.spec_value(), i),
        )
    }
}

/// The stored entries of a window are the non-padding elements of the dense view.
proof fn lemma_entries_are_non_padding(
    entries: Map<usize, i32>,
    padding: i32,
    len: nat,
    lo: int,
    hi: int,
)
    requires
        0 <= lo,
        hi <= len <= usize::MAX,
        forall|k: usize| #[trigger] entries.contains_key(k) ==> entries[k] != padding,
    ensures
        entries_between(entries, lo, hi) == non_padding(
            Seq::new(len, |i: int| value_at(entries, padding, i)),
            padding,
            lo,
            hi,
        ),
    decreases hi - lo,
{
    if lo < hi {
        lemma_entries_are_non_padding(entries, padding, len, lo + 1, hi);
    }
}

/// The entries of a window do not depend on what lies outside it.
proof fn lemma_entries_between_local(a: Map<usize, i32>, b: Map<usize, i32>, lo: int, hi: int)
    requires
        forall|k: usize|
            lo <= k < hi ==> (#[trigger] a.contains_key(k)) == b.contains_key(k) && (
            a.contains_key(k) ==> a[k] == b[k]),
    ensures
        entries_between(a, lo, hi) == entries_between(b, lo, hi),
    decreases hi - lo,
{
    if lo < hi {
        lemma_entries_between_local(a, b, lo + 1, hi);
    }
}

/// A finite map whose keys all lie in a window has as many entries as the window shows.
proof fn lemma_entries_between_count(entries: Map<usize, i32>, lo: int, hi: int)
    requires
        0 <= lo,
        entries.dom().finite(),
        forall|k: usize| #[trigger] entries.contains_key(k) ==> lo <= k < hi,
    ensures
        entries_between(entries, lo, hi).len() == entries.len(),
    decreases hi - lo,
{
    if lo >= hi {
        assert(entries.dom() =~= Set::empty());
    } else if lo <= usize::MAX && entries.contains_key(lo as usize) {
        let rest = entries.remove(lo as usize);
        lemma_entries_between_local(entries, rest, lo + 1, hi);
        lemma_entries_between_count(rest, lo + 1, hi);
    } else {
        lemma_entries_between_count(entries, lo + 1, hi);
    }
}

impl SparseVec {
    /// What holds of every vector: the stored entries are finitely many, lie
    /// inside the vector, and none of them holds the padding value.
    #[verifier::type_invariant]
    pub closed spec fn wf(&self) -> bool {
        &&& store_entries(self.map).dom().finite()
        &&& forall|k: usize| #[trigger]
            store_entries(self.map).contains_key(k) ==> k < self.len && store_entries(
                self.map,
            )[k] != self.padding.spec_value()
    }

    /// The padding value.
    pub closed spec fn spec_padding(&self) -> i32 {
        self.padding.spec_value()
    }

    /// The entries that are physically stored, by index.
    pub closed spec fn stored(&self) -> Map<usize, i32> {
        store_entries(self.map)
    }

    /// The stored entries are exactly the elements that differ from the
    /// padding: no stored value equals the padding, every stored index lies
    /// inside the vector, and an index without an entry reads as padding.
    pub proof fn lemma_stored_is_normalized(&self)
        requires
            self.wf(),
        ensures
            self.stored().dom().finite(),
            forall|k: usize| #[trigger]
                self.stored().contains_key(k) ==> k < self@.len() && self.stored()[k]
                    != self.spec_padding() && self@[k as int] == self.stored()[k],
            forall|k: usize|
                k < self@.len() && !(#[trigger] self.stored().contains_key(k)) ==> self@[k as int]
                    == self.spec_padding(),
            self.stored().len() == sparse_of(self@, self.spec_padding()).len(),
    {
        lemma_entries_between_count(self.stored(), 0, self.len as int);
        lemma_entries_are_non_padding(
            self.stored(),
            self.spec_padding(),
            self.len as nat,
            0,
            self.len as int,
        );
    }

    /// Creates a vector of `len` zeros, with zero as its padding.
    pub fn new(len: usize) -> (v: Self)
        ensures
            v@ == repeat(0, len as nat),
            v.spec_padding() == 0,
    {
        let v = SparseVec { len, padding: Padding::by_default(), map: store_new() };
        assert(v@ =~= repeat(0, len as nat));
        v
    }

    /// Creates a vector of `len` copies of `padding`, with `padding` as its padding.
    pub fn with_padding(len: usize, padding: i32) -> (v: Self)
        ensures
            v@ == repeat(padding, len as nat),
            v.spec_padding() == padding,
    {
        let v = SparseVec { len, padding: Padding::by_clone(padding), map: store_new() };
        assert(v@ =~= repeat(padding, len as nat));
        v
    }

    /// Whether the vector has no element.
    pub fn is_empty(&self) -> (r: bool)
        ensures
            r == (self@.len() == 0),
    {
        self.len() == 0
    }

    /// Whether every element equals the padding.
    pub fn is_all_padding(&self) -> (r: bool)
        ensures
            r == all_padding(self@, self.spec_padding()),
    {
        let n = self.nnp();
        proof {
            let items = sparse_of(self@, self.spec_padding());
            lemma_non_padding_items(self@, self.spec_padding(), 0, self@.len() as int);
            if n == 0 {
                assert forall|i: int| 0 <= i < self@.len() implies self@[i]
                    == self.spec_padding() by {
                    if self@[i] != self.spec_padding() {
                        lemma_non_padding_split(
                            self@,
                            self.spec_padding(),
                            0,
                            i,
                            self@.len() as int,
                        );
                        assert(non_padding(self@, self.spec_padding(), i, self@.len() as int).len()
                            > 0);
                    }
                }
            } else {
                assert(self@[items[0].0 as int] != self.spec_padding());
            }
        }
        n == 0
    }

    /// The number of elements.
    pub fn len(&self) -> (n: usize)
        ensures
            n == self@.len(),
    {
        self.len
    }

    /// The number of elements that differ from the padding.
    pub fn nnp(&self) -> (n: usize)
        ensures
            n == sparse_of(self@, self.spec_padding()).len(),
    {
        proof {
            use_type_invariant(self);
            self.lemma_stored_is_normalized();
        }
        store_len(&self.map)
    }

    /// The padding value.
    pub fn padding(&self) -> (p: &i32)
        ensures
            *p == self.spec_padding(),
    {
        self.padding.refs()
    }

    /// A fresh copy of the padding value.
    pub fn clone_padding(&self) -> (p: i32)
        ensures
            p == self.spec_padding(),
    {
        self.padding.value()
    }

    /// The element at `index`.
    pub fn index(&self, index: usize) -> (r: &i32)
        requires
            index < self@.len(),
        ensures
            *r == self@[index as int],
    {
        match store_get(&self.map, index) {
            Some(value) => value,
            None => self.padding.refs(),
        }
    }

    /// The elements as a dense vector.
    pub fn to_vec(&self) -> (out: Vec<i32>)
        ensures
            out@ == self@,
    {
        self.as_slice().to_vec()
    }

    /// The part `range.start <= index < range.end` of the vector.
    pub fn slice(&self, range: Range<usize>) -> (s: SparseSlice<'_>)
        requires
            range.start <= range.end <= self@.len(),
        ensures
            s@ == self@.subrange(range.start as int, range.end as int),
            s.spec_padding() == self.spec_padding(),
            s.host() == *self,
            s.offset() == range.start,
    {
        SparseSlice::new(self, range.start, range.end)
    }

    /// An iterator over every element.
    pub fn iter(&self) -> (it: Iter<'_>)
        ensures
            it.inv(),
            it@ == self@,
    {
        self.as_slice().iter()
    }

    /// A reader over the elements that differ from the padding.
    pub fn sparse_reader(&self) -> (r: SparseReader<'_>)
        ensures
            r.inv(),
            r@ == sparse_of(self@, self.spec_padding()),
            r.host_len() == self@.len(),
            r.host_nnp() == sparse_of(self@, self.spec_padding()).len(),
            r.window_len() == self@.len(),
    {
        self.as_slice().sparse_reader()
    }

    /// The runs of equal values that the vector consists of, each as a
    /// value and its length: what is hashed of it.
    pub fn hash_runs(&self) -> (runs: Vec<(i32, usize)>)
        ensures
            runs@ == runs_of(self@),
    {
        self.as_slice().hash_runs()
    }

    /// How the vector stands to `other` in lexicographic order of their
    /// elements, whatever the two padding values are.
    pub fn order_with(&self, other: &SparseVec) -> (o: Order)
        ensures
            o == lex_order(self@, other@),
    {
        self.as_slice().order_with(&other.as_slice())
    }

    /// Sets the length to `value`: a longer vector is filled up with
    /// padding, a shorter one loses its elements from `value` on.
    pub fn set_len(&mut self, value: usize)
        ensures
            final(self).spec_padding() == old(self).spec_padding(),
            final(self)@ == if value <= old(self)@.len() {
                old(self)@.take(value as int)
            } else {
                old(self)@ + repeat(old(self).spec_padding(), (value - old(self)@.len()) as nat)
            },
    {
        let len = self.len();
        if value >= len {
            self.grow_to(value);
            if value == len {
                assert(self@ =~= old(self)@.take(value as int));
            }
            return ;
        }
        self.wipe(value, len);
        self.shrink_to(value);
        assert(self@ =~= old(self)@.take(value as int));
    }

    /// Makes the element at `index` padding and returns the value that it had.
    pub fn take(&mut self, index: usize) -> (r: i32)
        requires
            index < old(self)@.len(),
        ensures
            r == old(self)@[index as int],
            final(self)@ == old(self)@.update(index as int, old(self).spec_padding()),
            final(self).spec_padding() == old(self).spec_padding(),
    {
        match self.unset(index) {
            Some(value) => value,
            None => self.clone_padding(),
        }
    }

    /// The part `range.start <= index < range.end` of the vector, to be changed.
    pub fn slice_mut(&mut self, range: Range<usize>) -> (s: SparseSliceMut<'_>)
        requires
            range.start <= range.end <= old(self)@.len(),
        ensures
            s.inv(),
            *s.vec == *old(self),
            *final(s.vec) == *final(self),
            s.range == range,
    {
        SparseSliceMut::new(self, range)
    }

    /// Swaps the elements at `x` and `y`.
    pub fn swap(&mut self, x: usize, y: usize)
        requires
            x < old(self)@.len(),
            y < old(self)@.len(),
        ensures
            final(self)@ == old(self)@.update(x as int, old(self)@[y as int]).update(
                y as int,
                old(self)@[x as int],
            ),
            final(self).spec_padding() == old(self).spec_padding(),
    {
        let len = self.len();
        let mut all = self.slice_mut(0..len);
        assert(all@ =~= old(self)@);
        all.swap(x, y);
    }

    /// Makes every element `value`.
    pub fn fill(&mut self, value: i32)
        ensures
            final(self)@ == repeat(value, old(self)@.len()),
            final(self).spec_padding() == old(self).spec_padding(),
    {
        let len = self.len();
        let mut all = self.slice_mut(0..len);
        assert(all@ =~= old(self)@);
        all.fill(value);
        assert(self@ =~= repeat(value, old(self)@.len()));
    }

    /// Makes every element a value that `f` returns, calling `f` once for
    /// each element, in order.
    pub fn fill_with<F: Fn() -> i32>(&mut self, f: F)
        requires
            f.requires(()),
        ensures
            final(self)@.len() == old(self)@.len(),
            forall|j: int| 0 <= j < final(self)@.len() ==> f.ensures((), #[trigger] final(self)@[j]),
            final(self).spec_padding() == old(self).spec_padding(),
    {
        let len = self.len();
        let mut all = self.slice_mut(0..len);
        all.fill_with(f);
    }

    /// A replacement of the elements `range.start <= index < range.end` by
    /// the elements of `replace_with`; see [`Splice`].
    pub fn splice(&mut self, range: Range<usize>, replace_with: Vec<i32>) -> (sp: Splice<'_>)
        requires
            range.start <= range.end <= old(self)@.len(),
            old(self)@.len() - (range.end - range.start) + replace_with@.len() <= usize::MAX,
        ensures
            sp.inv(),
            *sp.vec == *old(self),
            *final(sp.vec) == *final(self),
            sp.range == range,
            sp.edges == range,
            sp.news == replace_with,
            sp.original@ == old(self)@,
    {
        Splice::new(self, range, replace_with)
    }

    /// A writer over the elements that differ from the padding.
    pub fn sparse_writer(&mut self) -> (w: SparseWriter<'_>)
        ensures
            w.inv(),
            *w.vec == *old(self),
            *final(w.vec) == *final(self),
            w.window.start == 0,
            w.window.end == old(self)@.len(),
            w.rest == w.window,
            w.current.is_none(),
            w.nnp == sparse_of(old(self)@, old(self).spec_padding()).len(),
    {
        let len = self.len();
        SparseWriter::new(self, 0..len)
    }

    /// An iterator that takes the vector apart and hands out its elements by value.
    pub fn into_iter(self) -> (it: IntoIter)
        ensures
            it@ == self@,
    {
        IntoIter::new(self)
    }

    /// An editor of the element at `index`.
    pub fn edit(&mut self, index: usize) -> (ed: ValueEditor<'_>)
        requires
            index < old(self)@.len(),
        ensures
            ed.inv(),
            *ed.vec == *old(self),
            *final(ed.vec) == *final(self),
            ed.index == index,
            ed.new_value.is_none(),
    {
        ValueEditor::new(self, index)
    }

    /// Removes the last element and returns it, or `None` where the vector is empty.
    pub fn pop(&mut self) -> (r: Option<i32>)
        ensures
            final(self).spec_padding() == old(self).spec_padding(),
            old(self)@.len() == 0 ==> r.is_none() && final(self)@ == old(self)@,
            old(self)@.len() > 0 ==> r == Some(old(self)@.last()) && final(self)@ == old(
                self,
            )@.drop_last(),
    {
        if self.is_empty() {
            return None;
        }
        let last_index = self.len() - 1;
        let ret = self.take(last_index);
        self.shrink_to(last_index);
        assert(self@ =~= old(self)@.drop_last());
        Some(ret)
    }

    /// Appends `value`.
    pub fn push(&mut self, value: i32)
        requires
            old(self)@.len() < usize::MAX,
        ensures
            final(self)@ == old(self)@.push(value),
            final(self).spec_padding() == old(self).spec_padding(),
    {
        let new_index = self.len();
        self.grow_to(new_index + 1);
        if *self.padding() != value {
            self.put(new_index, value);
        }
        assert(self@ =~= old(self)@.push(value));
    }

    /// Appends the elements of `items`, in their order.
    pub fn extend(&mut self, items: &[i32])
        requires
            old(self)@.len() + items@.len() <= usize::MAX,
        ensures
            final(self)@ == old(self)@ + items@,
            final(self).spec_padding() == old(self).spec_padding(),
    {
        let mut i: usize = 0;
        while i < items.len()
            invariant
                i <= items@.len(),
                old(self)@.len() + items@.len() <= usize::MAX,
                self@ == old(self)@ + items@.take(i as int),
                self.spec_padding() == old(self).spec_padding(),
            decreases items@.len() - i,
        {
            self.push(items[i]);
            i += 1;
            assert(self@ =~= old(self)@ + items@.take(i as int));
        }
        assert(items@.take(i as int) =~= items@);
    }

    /// The vector that holds the elements of `items`, with zero as its padding.
    pub fn from_iter(items: Vec<i32>) -> (v: Self)
        ensures
            v@ == items@,
            v.spec_padding() == 0,
    {
        let mut v = SparseVec::new(0);
        // The length is read to learn that it fits in `usize`.
        let _ = items.len();
        v.extend(items.as_slice());
        assert(v@ =~= items@);
        v
    }

    /// The vector that holds the elements of `value`, with zero as its padding.
    pub fn from(value: Vec<i32>) -> (v: Self)
        ensures
            v@ == value@,
            v.spec_padding() == 0,
    {
        SparseVec::from_iter(value)
    }

    /// Removes every element.
    pub fn clear(&mut self)
        ensures
            final(self)@ == Seq::<i32>::empty(),
            final(self).spec_padding() == old(self).spec_padding(),
    {
        let mut map = store_new();
        std::mem::swap(&mut map, &mut self.map);
        store_clear(&mut map);
        self.len = 0;
        self.map = map;
        assert(self@ =~= Seq::<i32>::empty());
    }

    /// The whole vector as a slice.
    pub(crate) fn as_slice(&self) -> (s: SparseSlice<'_>)
        ensures
            s@ == self@,
            s.spec_padding() == self.spec_padding(),
            s.host() == *self,
            s.offset() == 0,
    {
        let s = SparseSlice::new(self, 0, self.len);
        assert(self@.subrange(0, self.len as int) =~= self@);
        s
    }

    /// The non-padding elements with `lo <= index < hi`, as an iterator.
    pub(crate) fn entries(&self, lo: usize, hi: usize) -> (r: EntryRange<'_>)
        requires
            lo <= hi <= self@.len(),
        ensures
            range_pending(r) == non_padding(self@, self.spec_padding(), lo as int, hi as int),
    {
        proof {
            use_type_invariant(self);
            lemma_entries_are_non_padding(
                self.stored(),
                self.spec_padding(),
                self.len as nat,
                lo as int,
                hi as int,
            );
        }
        store_range(&self.map, lo, hi)
    }

    /// The largest index in `lo <= index < hi` whose element differs from
    /// the padding, if there is one.
    pub(crate) fn last_stored(&self, lo: usize, hi: usize) -> (r: Option<usize>)
        requires
            lo <= hi <= self@.len(),
        ensures
            r.is_some() ==> lo <= r.unwrap() < hi && self@[r.unwrap() as int]
                != self.spec_padding() && forall|i: int|
                r.unwrap() < i < hi ==> self@[i] == self.spec_padding(),
            r.is_none() ==> forall|i: int| lo <= i < hi ==> self@[i] == self.spec_padding(),
    {
        let mut range = self.entries(lo, hi);
        proof {
            lemma_non_padding_items(self@, self.spec_padding(), lo as int, hi as int);
        }
        match range_next_back(&mut range) {
            Some(kv) => {
                proof {
                    lemma_non_padding_last(self@, self.spec_padding(), lo as int, hi as int);
                }
                Some(kv.0)
            },
            None => {
                proof {
                    lemma_non_padding_empty(
                        self@,
                        self.spec_padding(),
                        lo as int,
                        hi as int,
                    );
                }
                None
            },
        }
    }

    /// The smallest index in `lo <= index < hi` whose element differs from
    /// the padding, if there is one.
    pub(crate) fn first_stored(&self, lo: usize, hi: usize) -> (r: Option<usize>)
        requires
            lo <= hi <= self@.len(),
        ensures
            r.is_some() ==> lo <= r.unwrap() < hi && self@[r.unwrap() as int]
                != self.spec_padding() && forall|i: int|
                lo <= i < r.unwrap() ==> self@[i] == self.spec_padding(),
            r.is_none() ==> forall|i: int| lo <= i < hi ==> self@[i] == self.spec_padding(),
    {
        let mut range = self.entries(lo, hi);
        proof {
            lemma_non_padding_items(self@, self.spec_padding(), lo as int, hi as int);
        }
        match range_next(&mut range) {
            Some(kv) => {
                proof {
                    lemma_non_padding_first(
                        self@,
                        self.spec_padding(),
                        lo as int,
                        hi as int,
                    );
                }
                Some(kv.0)
            },
            None => {
                proof {
                    lemma_non_padding_empty(
                        self@,
                        self.spec_padding(),
                        lo as int,
                        hi as int,
                    );
                }
                None
            },
        }
    }

    /// Makes every element in `lo <= index < hi` padding.
    pub(crate) fn wipe(&mut self, lo: usize, hi: usize)
        requires
            lo <= hi <= old(self)@.len(),
        ensures
            final(self).spec_padding() == old(self).spec_padding(),
            final(self)@.len() == old(self)@.len(),
            forall|i: int|
                0 <= i < old(self)@.len() ==> final(self)@[i] == if lo <= i < hi {
                    old(self).spec_padding()
                } else {
                    old(self)@[i]
                },
    {
        let ghost padding = self.spec_padding();
        let mut bound = hi;
        loop
            invariant_except_break
                lo <= bound <= hi <= self@.len(),
                self@.len() == old(self)@.len(),
                self.spec_padding() == padding,
                forall|i: int|
                    0 <= i < self@.len() ==> self@[i] == if bound <= i < hi {
                        padding
                    } else {
                        old(self)@[i]
                    },
            ensures
                lo <= hi <= self@.len(),
                self@.len() == old(self)@.len(),
                self.spec_padding() == padding,
                forall|i: int|
                    0 <= i < self@.len() ==> self@[i] == if lo <= i < hi {
                        padding
                    } else {
                        old(self)@[i]
                    },
            decreases bound,
        {
            match self.last_stored(lo, bound) {
                None => {
                    break ;
                },
                Some(key) => {
                    let _ = self.unset(key);
                    bound = key;
                },
            }
        }
    }

    /// Moves the element at `from`, which differs from the padding, to
    /// `to`, where padding stands, and leaves padding at `from`.
    pub(crate) fn move_entry(&mut self, from: usize, to: usize)
        requires
            from < old(self)@.len(),
            to < old(self)@.len(),
            old(self)@[from as int] != old(self).spec_padding(),
            old(self)@[to as int] == old(self).spec_padding(),
        ensures
            final(self).spec_padding() == old(self).spec_padding(),
            final(self)@ == old(self)@.update(from as int, old(self).spec_padding()).update(
                to as int,
                old(self)@[from as int],
            ),
    {
        match self.unset(from) {
            Some(value) => {
                self.put(to, value);
            },
            None => {},
        }
    }

    /// Stores `value`, which differs from the padding, at `key`.
    pub(crate) fn put(&mut self, key: usize, value: i32)
        requires
            key < old(self)@.len(),
            value != old(self).spec_padding(),
        ensures
            final(self)@ == old(self)@.update(key as int, value),
            final(self).spec_padding() == old(self).spec_padding(),
    {
        proof {
            use_type_invariant(&*self);
        }
        let mut map = store_new();
        std::mem::swap(&mut map, &mut self.map);
        let _ = store_insert(&mut map, key, value);
        self.map = map;
        assert(self@ =~= old(self)@.update(key as int, value));
    }

    /// Makes the element at `key` padding, and returns the value that was
    /// stored there.
    pub(crate) fn unset(&mut self, key: usize) -> (prev: Option<i32>)
        requires
            key < old(self)@.len(),
        ensures
            final(self)@ == old(self)@.update(key as int, old(self).spec_padding()),
            final(self).spec_padding() == old(self).spec_padding(),
            prev.is_some() == (old(self)@[key as int] != old(self).spec_padding()),
            prev.is_some() ==> prev.unwrap() == old(self)@[key as int],
    {
        proof {
            use_type_invariant(&*self);
        }
        let mut map = store_new();
        std::mem::swap(&mut map, &mut self.map);
        let prev = store_remove(&mut map, key);
        self.map = map;
        assert(self@ =~= old(self)@.update(key as int, old(self).spec_padding()));
        prev
    }

    /// Appends padding until the vector has `n` elements.
    pub(crate) fn grow_to(&mut self, n: usize)
        requires
            old(self)@.len() <= n,
        ensures
            final(self)@ == old(self)@ + repeat(
                old(self).spec_padding(),
                (n - old(self)@.len()) as nat,
            ),
            final(self).spec_padding() == old(self).spec_padding(),
    {
        proof {
            use_type_invariant(&*self);
        }
        self.len = n;
        assert(self@ =~= old(self)@ + repeat(
            old(self).spec_padding(),
            (n - old(self)@.len()) as nat,
        ));
    }

    /// Drops the elements from index `n` on, all of which are padding.
    pub(crate) fn shrink_to(&mut self, n: usize)
        requires
            n <= old(self)@.len(),
            forall|i: int| n <= i < old(self)@.len() ==> old(self)@[i] == old(self).spec_padding(),
        ensures
            final(self)@ == old(self)@.take(n as int),
            final(self).spec_padding() == old(self).spec_padding(),
    {
        proof {
            use_type_invariant(&*self);
            assert forall|k: usize| #[trigger]
                store_entries(self.map).contains_key(k) implies k < n by {
                if k >= n {
                    assert(self@[k as int] == self.spec_padding());
                }
            }
        }
        self.len = n;
        assert(self@ =~= old(self)@.take(n as int));
    }
}

impl Clone for SparseVec {
    fn clone(&self) -> (v: Self)
        ensures
            v@ == self@,
            v.spec_padding() == self.spec_padding(),
    {
        proof {
            use_type_invariant(self);
        }
        let v = SparseVec {
            len: self.len,
            padding: self.padding.clone(),
            map: store_clone(&self.map),
        };
        assert(v@ =~= self@);
        v
    }
}

impl Default for SparseVec {
    /// The empty vector with zero as its padding.
    fn default() -> (v: Self)
        ensures
            v@ == Seq::<i32>::empty(),
            v.spec_padding() == 0,
    {
        let v = SparseVec::new(0);
        assert(v@ =~= Seq::<i32>::empty());
        v
    }
}

impl PartialEq for SparseVec {
    /// Whether the two vectors hold the same elements, whatever the two
    /// padding values are.
    fn eq(&self, other: &Self) -> (r: bool) {
        self.as_slice() == other.as_slice()
    }
}

impl Eq for SparseVec {

}

impl PartialEqSpecImpl for SparseVec {
    open spec fn obeys_eq_spec() -> bool {
        true
    }

    open spec fn eq_spec(&self, other: &Self) -> bool {
        self@ == other@
    }
}

} // verus!
