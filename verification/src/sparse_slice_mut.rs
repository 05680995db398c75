//! A window of a sparse vector through which the vector can be changed.

use crate::iter::Iter;
use crate::model::{lex_order, repeat, runs_of, sparse_of, Order};
use crate::sparse_reader::SparseReader;
use crate::sparse_slice::SparseSlice;
use crate::sparse_vec::SparseVec;
use crate::sparse_writer::SparseWriter;
use crate::value_editor::ValueEditor;
use core::ops::Range;
use vstd::prelude::*;

verus! {

/// A window of a sparse vector through which the vector can be changed.
///
/// Its view is the part of the vector's dense sequence that it shows.
#[derive(Debug)]
pub struct SparseSliceMut<'a> {
    /// The vector that the slice shows a part of.
    pub vec: &'a mut SparseVec,
    /// The window.
    pub range: Range<usize>,
}

impl<'a> View for SparseSliceMut<'a> {
    type V = Seq<i32>;

    open spec fn view(&self) -> Seq<i32> {
        self.vec@.subrange(self.range.start as int, self.range.end as int)
    }
}

impl<'a> SparseSliceMut<'a> {
    /// What holds of every slice that the library hands out: its window
    /// lies inside its vector.
    pub open spec fn inv(&self) -> bool {
        self.range.start <= self.range.end <= self.vec@.len()
    }

    /// The padding value of the vector.
    pub open spec fn spec_padding(&self) -> i32 {
        self.vec.spec_padding()
    }

    /// The vector that the slice shows a part of.
    pub open spec fn host(&self) -> SparseVec {
        *self.vec
    }

    /// The window `range.start <= index < range.end` of `vec`.
    pub(crate) fn new(vec: &'a mut SparseVec, range: Range<usize>) -> (s: Self)
        requires
            range.start <= range.end <= old(vec)@.len(),
        ensures
            s.inv(),
            *s.vec == *old(vec),
            *final(s.vec) == *final(vec),
            s.range == range,
    {
        SparseSliceMut { vec, range }
    }

    /// Whether the slice has no element.
    pub fn is_empty(&self) -> (r: bool)
        requires
            self.inv(),
        ensures
            r == (self@.len() == 0),
    {
        self.len() == 0
    }

    /// The number of elements.
    pub fn len(&self) -> (n: usize)
        requires
            self.inv(),
        ensures
            n == self@.len(),
    {
        self.range.end - self.range.start
    }

    /// The elements as a dense vector.
    pub fn to_vec(&self) -> (out: Vec<i32>)
        requires
            self.inv(),
        ensures
            out@ == self@,
    {
        self.slice_ref().to_vec()
    }

    /// The same window, read-only.
    pub fn slice_ref(&self) -> (s: SparseSlice<'_>)
        requires
            self.inv(),
        ensures
            s@ == self@,
            s.spec_padding() == self.spec_padding(),
            s.host() == self.host(),
            s.offset() == self.range.start,
    {
        SparseSlice::new(&*self.vec, self.range.start, self.range.end)
    }

    /// The part `range.start <= index < range.end` of the slice, read-only.
    pub fn slice(&self, range: Range<usize>) -> (s: SparseSlice<'_>)
        requires
            self.inv(),
            range.start <= range.end <= self@.len(),
        ensures
            s@ == self@.subrange(range.start as int, range.end as int),
            s.spec_padding() == self.spec_padding(),
            s.host() == self.host(),
            s.offset() == self.range.start + range.start,
    {
        self.slice_ref().slice(range)
    }

    /// An iterator over every element.
    pub fn iter(&self) -> (it: Iter<'_>)
        requires
            self.inv(),
        ensures
            it.inv(),
            it@ == self@,
    {
        self.slice_ref().iter()
    }

    /// A reader over the elements that differ from the padding.
    pub fn sparse_reader(&self) -> (r: SparseReader<'_>)
        requires
            self.inv(),
        ensures
            r.inv(),
            r@ == sparse_of(self@, self.spec_padding()),
            r.host_len() == self.host()@.len(),
            r.host_nnp() == sparse_of(self.host()@, self.spec_padding()).len(),
            r.window_len() == self@.len(),
    {
        self.slice_ref().sparse_reader()
    }

    /// The element at `index`.
    pub fn index(&self, index: usize) -> (r: &i32)
        requires
            self.inv(),
            index < self@.len(),
        ensures
            *r == self@[index as int],
    {
        self.vec.index(self.range.start + index)
    }

    /// The runs of equal values that the slice consists of, each as a value
    /// and its length: what is hashed of it.
    pub fn hash_runs(&self) -> (runs: Vec<(i32, usize)>)
        requires
            self.inv(),
        ensures
            runs@ == runs_of(self@),
    {
        self.slice_ref().hash_runs()
    }

    /// How the slice stands to `other` in lexicographic order of their
    /// elements, whatever the two padding values are.
    pub fn order_with(&self, other: &SparseSliceMut<'_>) -> (o: Order)
        requires
            self.inv(),
            other.inv(),
        ensures
            o == lex_order(self@, other@),
    {
        self.slice_ref().order_with(&other.slice_ref())
    }

    /// Whether the two slices hold the same elements, whatever the two
    /// padding values are.
    pub fn eq(&self, other: &SparseSliceMut<'_>) -> (r: bool)
        requires
            self.inv(),
            other.inv(),
        ensures
            r == (self@ == other@),
    {
        self.slice_ref() == other.slice_ref()
    }

    /// A writer over the elements that differ from the padding.
    pub fn sparse_writer(&mut self) -> (w: SparseWriter<'_>)
        requires
            old(self).inv(),
        ensures
            w.inv(),
            *w.vec == *old(self).vec,
            w.window == old(self).range,
            w.rest == old(self).range,
            w.current.is_none(),
            w.nnp == sparse_of(old(self).vec@, old(self).spec_padding()).len(),
            *final(self).vec == *final(w.vec),
            final(self).range == old(self).range,
            *final(final(self).vec) == *final(old(self).vec),
    {
        let range = self.range.start..self.range.end;
        SparseWriter::new(&mut *self.vec, range)
    }

    /// Makes the element at `index` padding and returns the value that it had.
    pub fn take(&mut self, index: usize) -> (r: i32)
        requires
            old(self).inv(),
            index < old(self)@.len(),
        ensures
            final(self).inv(),
            r == old(self)@[index as int],
            final(self)@ == old(self)@.update(index as int, old(self).spec_padding()),
            final(self).vec@ == old(self).vec@.update(
                old(self).range.start + index,
                old(self).spec_padding(),
            ),
            final(self).spec_padding() == old(self).spec_padding(),
            final(self).range == old(self).range,
            *final(final(self).vec) == *final(old(self).vec),
    {
        let r = self.vec.take(self.range.start + index);
        assert(self@ =~= old(self)@.update(index as int, old(self).spec_padding()));
        r
    }

    /// An editor of the element at `index`.
    pub fn edit(&mut self, index: usize) -> (ed: ValueEditor<'_>)
        requires
            old(self).inv(),
            index < old(self)@.len(),
        ensures
            ed.inv(),
            *ed.vec == *old(self).vec,
            ed.index == old(self).range.start + index,
            ed.new_value.is_none(),
            *final(self).vec == *final(ed.vec),
            final(self).range == old(self).range,
            *final(final(self).vec) == *final(old(self).vec),
    {
        ValueEditor::new(&mut *self.vec, self.range.start + index)
    }

    /// Makes every element `value`.
    pub fn fill(&mut self, value: i32)
        requires
            old(self).inv(),
        ensures
            final(self).inv(),
            final(self).vec@ == old(self).vec@.subrange(0, old(self).range.start as int)
                + repeat(value, old(self)@.len()) + old(self).vec@.subrange(
                old(self).range.end as int,
                old(self).vec@.len() as int,
            ),
            final(self).spec_padding() == old(self).spec_padding(),
            final(self).range == old(self).range,
            *final(final(self).vec) == *final(old(self).vec),
    {
        let len = self.len();
        let mut i: usize = 0;
        while i < len
            invariant
                self.inv(),
                i <= len,
                len == self@.len(),
                self.range == old(self).range,
                self.spec_padding() == old(self).spec_padding(),
                self.vec@.len() == old(self).vec@.len(),
                *final(self.vec) == *final(old(self).vec),
                forall|j: int|
                    0 <= j < self.vec@.len() ==> self.vec@[j] == if self.range.start <= j
                        < self.range.start + i {
                        value
                    } else {
                        old(self).vec@[j]
                    },
            decreases len - i,
        {
            let mut editor = self.edit(i);
            editor.set(value);
            editor.commit();
            i += 1;
        }
        assert(self.vec@ =~= old(self).vec@.subrange(0, old(self).range.start as int)
            + repeat(value, old(self)@.len()) + old(self).vec@.subrange(
            old(self).range.end as int,
            old(self).vec@.len() as int,
        ));
    }

    /// Makes every element a value that `f` returns, calling `f` once for
    /// each element, in order.
    pub fn fill_with<F: Fn() -> i32>(&mut self, f: F)
        requires
            old(self).inv(),
            f.requires(()),
        ensures
            final(self).inv(),
            final(self).vec@.len() == old(self).vec@.len(),
            forall|j: int|
                0 <= j < old(self).vec@.len() ==> if old(self).range.start <= j < old(
                    self,
                ).range.end {
                    f.ensures((), final(self).vec@[j])
                } else {
                    final(self).vec@[j] == old(self).vec@[j]
                },
            final(self).spec_padding() == old(self).spec_padding(),
            final(self).range == old(self).range,
            *final(final(self).vec) == *final(old(self).vec),
    {
        let len = self.len();
        let mut i: usize = 0;
        while i < len
            invariant
                self.inv(),
                i <= len,
                len == self@.len(),
                f.requires(()),
                self.range == old(self).range,
                self.spec_padding() == old(self).spec_padding(),
                self.vec@.len() == old(self).vec@.len(),
                *final(self.vec) == *final(old(self).vec),
                forall|j: int|
                    0 <= j < self.vec@.len() ==> if self.range.start <= j < self.range.start + i {
                        f.ensures((), self.vec@[j])
                    } else {
                        self.vec@[j] == old(self).vec@[j]
                    },
            decreases len - i,
        {
            let value = f();
            let mut editor = self.edit(i);
            editor.set(value);
            editor.commit();
            i += 1;
        }
    }

    /// Swaps the elements at `x` and `y`.
    pub fn swap(&mut self, x: usize, y: usize)
        requires
            old(self).inv(),
            x < old(self)@.len(),
            y < old(self)@.len(),
        ensures
            final(self).inv(),
            final(self)@ == old(self)@.update(x as int, old(self)@[y as int]).update(
                y as int,
                old(self)@[x as int],
            ),
            final(self).vec@ == old(self).vec@.update(
                old(self).range.start + x,
                old(self)@[y as int],
            ).update(old(self).range.start + y, old(self)@[x as int]),
            final(self).spec_padding() == old(self).spec_padding(),
            final(self).range == old(self).range,
            *final(final(self).vec) == *final(old(self).vec),
    {
        if x != y {
            let xv = self.take(x);
            let yv = self.take(y);
            if xv != *self.vec.padding() {
                let mut editor = self.edit(y);
                editor.set(xv);
                editor.commit();
            }
            if yv != *self.vec.padding() {
                let mut editor = self.edit(x);
                editor.set(yv);
                editor.commit();
            }
        }
        assert(self.vec@ =~= old(self).vec@.update(
            old(self).range.start + x,
            old(self)@[y as int],
        ).update(old(self).range.start + y, old(self)@[x as int]));
        assert(self@ =~= old(self)@.update(x as int, old(self)@[y as int]).update(
            y as int,
            old(self)@[x as int],
        ));
    }
}

} // verus!
