//! The reader over the non-padding elements of a window of a sparse vector.

use crate::elm::ElmReader;
use crate::model::{lemma_non_padding_items, lemma_non_padding_subrange, lowered, sparse_of};
use crate::sparse_vec::SparseVec;
use crate::store::{range_clone, range_next, range_next_back, range_pending, EntryRange};
use vstd::prelude::*;

verus! {

/// The bounds on how many elements a sparse reader or writer over a window
/// of `window` elements can hand out, when the vector has `len` elements of
/// which `nnp` differ from the padding.
pub open spec fn sparse_size_hint(len: int, nnp: int, window: int) -> (int, int) {
    (
        if nnp >= len - window {
            nnp - (len - window)
        } else {
            0
        },
        if nnp <= window {
            nnp
        } else {
            window
        },
    )
}

/// A double-ended reader that hands out only the elements of a window that
/// differ from the padding, each with its index counted from the start of
/// the window.
///
/// Its view is what it has still to hand out.
#[derive(Debug)]
pub struct SparseReader<'a> {
    len: usize,
    nnp: usize,
    start: usize,
    end: usize,
    range: Option<EntryRange<'a>>,
}

impl<'a> View for SparseReader<'a> {
    type V = Seq<(usize, i32)>;

    closed spec fn view(&self) -> Seq<(usize, i32)> {
        match self.range {
            Some(r) => lowered(range_pending(r), self.start as int),
            None => Seq::empty(),
        }
    }
}

impl<'a> SparseReader<'a> {
    /// What holds of every reader that the library hands out.
    pub closed spec fn inv(&self) -> bool {
        &&& self.start <= self.end <= self.len
        &&& match self.range {
            Some(r) => forall|j: int|
                0 <= j < range_pending(r).len() ==> self.start <= (#[trigger] range_pending(
                    r,
                )[j]).0,
            None => self.len == 0 && self.nnp == 0,
        }
    }

    /// The length of the vector that is read.
    pub closed spec fn host_len(&self) -> usize {
        self.len
    }

    /// The number of non-padding elements of the vector that is read.
    pub closed spec fn host_nnp(&self) -> usize {
        self.nnp
    }

    /// The length of the window that is read.
    pub closed spec fn window_len(&self) -> int {
        self.end - self.start
    }

    /// A reader over the elements `start <= index < end` of `vec`.
    pub(crate) fn new(vec: &'a SparseVec, start: usize, end: usize) -> (r: Self)
        requires
            start <= end <= vec@.len(),
        ensures
            r.inv(),
            r@ == sparse_of(vec@.subrange(start as int, end as int), vec.spec_padding()),
            r.host_len() == vec@.len(),
            r.host_nnp() == sparse_of(vec@, vec.spec_padding()).len(),
            r.window_len() == end - start,
    {
        let range = vec.entries(start, end);
        proof {
            lemma_non_padding_items(vec@, vec.spec_padding(), start as int, end as int);
            lemma_non_padding_subrange(
                vec@,
                vec.spec_padding(),
                start as int,
                end as int,
                0,
                end - start,
            );
        }
        SparseReader { len: vec.len(), nnp: vec.nnp(), start, end, range: Some(range) }
    }

    /// Hands out the pending element with the smallest index.
    pub fn next(&mut self) -> (item: Option<ElmReader<'a>>)
        requires
            old(self).inv(),
        ensures
            final(self).inv(),
            final(self).host_len() == old(self).host_len(),
            final(self).host_nnp() == old(self).host_nnp(),
            final(self).window_len() == old(self).window_len(),
            item.is_some() == (old(self)@.len() > 0),
            item.is_some() ==> item.unwrap().spec_index() == old(self)@.first().0
                && item.unwrap().spec_value() == old(self)@.first().1 && final(self)@ == old(
                self,
            )@.drop_first(),
            item.is_none() ==> final(self)@ == old(self)@,
    {
        let offset = self.start;
        match &mut self.range {
            None => None,
            Some(range) => {
                let ghost before = range_pending(*range);
                match range_next(range) {
                    None => None,
                    Some(kv) => {
                        proof {
                            assert(before[0].0 >= offset);
                            assert(lowered(before.drop_first(), offset as int) =~= lowered(
                                before,
                                offset as int,
                            ).drop_first());
                        }
                        Some(ElmReader::new(kv.0 - offset, kv.1))
                    },
                }
            },
        }
    }

    /// Hands out the pending element with the largest index.
    pub fn next_back(&mut self) -> (item: Option<ElmReader<'a>>)
        requires
            old(self).inv(),
        ensures
            final(self).inv(),
            final(self).host_len() == old(self).host_len(),
            final(self).host_nnp() == old(self).host_nnp(),
            final(self).window_len() == old(self).window_len(),
            item.is_some() == (old(self)@.len() > 0),
            item.is_some() ==> item.unwrap().spec_index() == old(self)@.last().0
                && item.unwrap().spec_value() == old(self)@.last().1 && final(self)@ == old(
                self,
            )@.drop_last(),
            item.is_none() ==> final(self)@ == old(self)@,
    {
        let offset = self.start;
        match &mut self.range {
            None => None,
            Some(range) => {
                let ghost before = range_pending(*range);
                match range_next_back(range) {
                    None => None,
                    Some(kv) => {
                        proof {
                            assert(before[before.len() - 1].0 >= offset);
                            assert(lowered(before.drop_last(), offset as int) =~= lowered(
                                before,
                                offset as int,
                            ).drop_last());
                        }
                        Some(ElmReader::new(kv.0 - offset, kv.1))
                    },
                }
            },
        }
    }

    /// Bounds on the number of elements that the reader hands out: at least
    /// the non-padding elements of the vector that cannot all lie outside
    /// the window, at most as many as the vector has and the window holds.
    pub fn size_hint(&self) -> (hint: (usize, Option<usize>))
        requires
            self.inv(),
        ensures
            hint.0 == sparse_size_hint(
                self.host_len() as int,
                self.host_nnp() as int,
                self.window_len(),
            ).0,
            hint.1 == Some(
                sparse_size_hint(
                    self.host_len() as int,
                    self.host_nnp() as int,
                    self.window_len(),
                ).1 as usize,
            ),
    {
        let window = self.end - self.start;
        let outside = self.len - window;
        let min = if self.nnp >= outside {
            self.nnp - outside
        } else {
            0
        };
        let max = if self.nnp <= window {
            self.nnp
        } else {
            window
        };
        (min, Some(max))
    }
}

impl<'a> Clone for SparseReader<'a> {
    fn clone(&self) -> (r: Self)
        ensures
            r@ == self@,
            r.inv() == self.inv(),
            r.host_len() == self.host_len(),
            r.host_nnp() == self.host_nnp(),
            r.window_len() == self.window_len(),
    {
        let range = match &self.range {
            Some(r) => Some(range_clone(r)),
            None => None,
        };
        SparseReader { len: self.len, nnp: self.nnp, start: self.start, end: self.end, range }
    }
}

impl<'a> Default for SparseReader<'a> {
    /// A reader that hands out nothing.
    fn default() -> (r: Self)
        ensures
            r.inv(),
            r@ == Seq::<(usize, i32)>::empty(),
            r.host_len() == 0,
            r.host_nnp() == 0,
            r.window_len() == 0,
    {
        SparseReader { len: 0, nnp: 0, start: 0, end: 0, range: None }
    }
}

} // verus!
