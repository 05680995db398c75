//! The iterator that takes a sparse vector apart.

use crate::sparse_vec::SparseVec;
use vstd::prelude::*;

verus! {

/// A double-ended iterator that owns a sparse vector and hands out its
/// elements by value, padding included.
///
/// Its view is the sequence of values that it has still to hand out.
#[derive(Debug)]
pub struct IntoIter {
    vec: SparseVec,
    start: usize,
    end: usize,
}

impl View for IntoIter {
    type V = Seq<i32>;

    closed spec fn view(&self) -> Seq<i32> {
        self.vec@.subrange(self.start as int, self.end as int)
    }
}

impl IntoIter {
    /// What holds of every such iterator: what remains lies inside its vector.
    #[verifier::type_invariant]
    pub closed spec fn wf(&self) -> bool {
        self.start <= self.end <= self.vec@.len()
    }

    /// An iterator over the elements of `vec`.
    pub(crate) fn new(vec: SparseVec) -> (it: Self)
        ensures
            it@ == vec@,
    {
        let end = vec.len();
        let it = IntoIter { vec, start: 0, end };
        assert(it@ =~= vec@);
        it
    }

    /// Hands out the first of the remaining values.
    pub fn next(&mut self) -> (item: Option<i32>)
        ensures
            item.is_some() == (old(self)@.len() > 0),
            item.is_some() ==> item.unwrap() == old(self)@.first() && final(self)@ == old(
                self,
            )@.drop_first(),
            item.is_none() ==> final(self)@ == old(self)@,
    {
        proof {
            use_type_invariant(&*self);
        }
        if self.start >= self.end {
            return None;
        }
        let start = self.start;
        let end = self.end;
        self.start = 0;
        self.end = 0;
        let mut vec = SparseVec::new(0);
        std::mem::swap(&mut vec, &mut self.vec);
        let removed = vec.take(start);
        self.vec = vec;
        self.end = end;
        self.start = start + 1;
        assert(self@ =~= old(self)@.drop_first());
        Some(removed)
    }

    /// Hands out the last of the remaining values.
    pub fn next_back(&mut self) -> (item: Option<i32>)
        ensures
            item.is_some() == (old(self)@.len() > 0),
            item.is_some() ==> item.unwrap() == old(self)@.last() && final(self)@ == old(
                self,
            )@.drop_last(),
            item.is_none() ==> final(self)@ == old(self)@,
    {
        proof {
            use_type_invariant(&*self);
        }
        if self.start >= self.end {
            return None;
        }
        let start = self.start;
        let end = self.end;
        self.start = 0;
        self.end = 0;
        let mut vec = SparseVec::new(0);
        std::mem::swap(&mut vec, &mut self.vec);
        let removed = vec.take(end - 1);
        self.vec = vec;
        self.end = end - 1;
        self.start = start;
        assert(self@ =~= old(self)@.drop_last());
        Some(removed)
    }

    /// The number of values that remain, as both bounds.
    pub fn size_hint(&self) -> (hint: (usize, Option<usize>))
        ensures
            hint.0 == self@.len(),
            hint.1 == Some(hint.0),
    {
        proof {
            use_type_invariant(self);
        }
        let size = self.end - self.start;
        (size, Some(size))
    }
}

impl Default for IntoIter {
    /// An iterator that hands out nothing.
    fn default() -> (it: Self)
        ensures
            it@.len() == 0,
    {
        IntoIter { vec: SparseVec::new(0), start: 0, end: 0 }
    }
}

} // verus!
