//! Replacing a range of a sparse vector by new elements.

use crate::model::{repeat, spliced};
use crate::sparse_vec::SparseVec;
use core::ops::Range;
use vstd::prelude::*;

verus! {

/// Makes room for `by` elements of padding in front of index `from`: every
/// element from `from` on moves up by `by`.
///
/// The stored elements are moved one by one from the last down, so that
/// none is moved onto another.
pub(crate) fn open_gap(vec: &mut SparseVec, from: usize, by: usize)
    requires
        from <= old(vec)@.len(),
        old(vec)@.len() + by <= usize::MAX,
    ensures
        final(vec).spec_padding() == old(vec).spec_padding(),
        final(vec)@ == old(vec)@.subrange(0, from as int) + repeat(
            old(vec).spec_padding(),
            by as nat,
        ) + old(vec)@.subrange(from as int, old(vec)@.len() as int),
{
    let len = vec.len();
    let ghost padding = vec.spec_padding();
    if by == 0 {
        assert(vec@ =~= old(vec)@.subrange(0, from as int) + repeat(padding, 0) + old(
            vec,
        )@.subrange(from as int, len as int));
        return ;
    }
    vec.grow_to(len + by);
    let mut bound = len;
    loop
        invariant_except_break
            from <= bound <= len,
            forall|i: int| 0 <= i < bound ==> vec@[i] == old(vec)@[i],
            forall|i: int| bound <= i < bound + by ==> vec@[i] == padding,
            forall|i: int| bound + by <= i < len + by ==> vec@[i] == old(vec)@[i - by],
        invariant
            by > 0,
            from <= len,
            len == old(vec)@.len(),
            vec@.len() == len + by,
            len + by <= usize::MAX,
            vec.spec_padding() == padding,
            padding == old(vec).spec_padding(),
        ensures
            forall|i: int| 0 <= i < from ==> vec@[i] == old(vec)@[i],
            forall|i: int| from <= i < from + by ==> vec@[i] == padding,
            forall|i: int| from + by <= i < len + by ==> vec@[i] == old(vec)@[i - by],
        decreases bound,
    {
        match vec.last_stored(from, bound) {
            None => {
                break ;
            },
            Some(key) => {
                vec.move_entry(key, key + by);
                bound = key;
            },
        }
    }
    assert(vec@ =~= old(vec)@.subrange(0, from as int) + repeat(padding, by as nat) + old(
        vec,
    )@.subrange(from as int, len as int));
}

/// Takes out the `by` elements in front of index `from`, all of which are
/// padding: every element from `from` on moves down by `by`.
///
/// The stored elements are moved one by one from the first up, so that
/// none is moved onto another.
pub(crate) fn close_gap(vec: &mut SparseVec, from: usize, by: usize)
    requires
        by <= from <= old(vec)@.len(),
        forall|i: int| from - by <= i < from ==> old(vec)@[i] == old(vec).spec_padding(),
    ensures
        final(vec).spec_padding() == old(vec).spec_padding(),
        final(vec)@ == old(vec)@.subrange(0, from - by) + old(vec)@.subrange(
            from as int,
            old(vec)@.len() as int,
        ),
{
    let len = vec.len();
    let ghost padding = vec.spec_padding();
    if by == 0 {
        assert(vec@ =~= old(vec)@.subrange(0, from - by) + old(vec)@.subrange(
            from as int,
            len as int,
        ));
        return ;
    }
    let mut cursor = from;
    loop
        invariant_except_break
            from <= cursor <= len,
            forall|i: int| 0 <= i < from - by ==> vec@[i] == old(vec)@[i],
            forall|i: int| from - by <= i < cursor - by ==> vec@[i] == old(vec)@[i + by],
            forall|i: int| cursor - by <= i < cursor ==> vec@[i] == padding,
            forall|i: int| cursor <= i < len ==> vec@[i] == old(vec)@[i],
        invariant
            0 < by <= from <= len,
            len == old(vec)@.len(),
            vec@.len() == len,
            vec.spec_padding() == padding,
            padding == old(vec).spec_padding(),
        ensures
            forall|i: int| 0 <= i < from - by ==> vec@[i] == old(vec)@[i],
            forall|i: int| from - by <= i < len - by ==> vec@[i] == old(vec)@[i + by],
            forall|i: int| len - by <= i < len ==> vec@[i] == padding,
        decreases len - cursor,
    {
        match vec.first_stored(cursor, len) {
            None => {
                break ;
            },
            Some(key) => {
                vec.move_entry(key, key - by);
                cursor = key + 1;
            },
        }
    }
    vec.shrink_to(len - by);
    assert(vec@ =~= old(vec)@.subrange(0, from - by) + old(vec)@.subrange(
        from as int,
        len as int,
    ));
}

/// A pending replacement of a range of a sparse vector by new elements.
///
/// As an iterator it hands out, from either end, the elements of the range
/// that it removes; whether they are asked for or not,
/// [`Splice::commit`] completes the replacement. A splice that is dropped
/// without `commit` has only made padding of the elements that it handed
/// out.
///
/// Its view is the sequence of removed elements that it has still to hand out.
pub struct Splice<'a> {
    /// The vector that is changed.
    pub vec: &'a mut SparseVec,
    /// The range that is replaced.
    pub range: Range<usize>,
    /// The part of the range whose elements have not been handed out.
    pub edges: Range<usize>,
    /// The new elements.
    pub news: Vec<i32>,
    /// The length of the vector before the replacement.
    pub original_len: usize,
    /// The elements of the vector before the replacement.
    pub original: Ghost<Seq<i32>>,
}

impl<'a> View for Splice<'a> {
    type V = Seq<i32>;

    open spec fn view(&self) -> Seq<i32> {
        self.original@.subrange(self.edges.start as int, self.edges.end as int)
    }
}

impl<'a> Splice<'a> {
    /// Whether the element at `i` has been handed out.
    pub open spec fn handed_out(&self, i: int) -> bool {
        self.range.start <= i < self.edges.start || self.edges.end <= i < self.range.end
    }

    /// What holds of every splice that the library hands out: the part not
    /// yet handed out lies in the range and the range in the vector, the
    /// vector holds its original elements but for padding where an element
    /// has been handed out, and the new length fits.
    pub open spec fn inv(&self) -> bool {
        &&& self.range.start <= self.edges.start <= self.edges.end <= self.range.end
            <= self.original_len
        &&& self.original@.len() == self.original_len
        &&& self.vec@.len() == self.original_len
        &&& self.original_len - (self.range.end - self.range.start) + self.news@.len()
            <= usize::MAX
        &&& forall|i: int|
            0 <= i < self.original_len ==> self.vec@[i] == if self.handed_out(i) {
                self.vec.spec_padding()
            } else {
                self.original@[i]
            }
    }

    /// A replacement of the elements `range.start <= index < range.end` of
    /// `vec` by `news`.
    pub(crate) fn new(vec: &'a mut SparseVec, range: Range<usize>, news: Vec<i32>) -> (sp: Self)
        requires
            range.start <= range.end <= old(vec)@.len(),
            old(vec)@.len() - (range.end - range.start) + news@.len() <= usize::MAX,
        ensures
            sp.inv(),
            *sp.vec == *old(vec),
            *final(sp.vec) == *final(vec),
            sp.range == range,
            sp.edges == range,
            sp.news == news,
            sp.original@ == old(vec)@,
    {
        let original_len = vec.len();
        let ghost original = vec@;
        let edges = range.start..range.end;
        Splice { vec, range, edges, news, original_len, original: Ghost(original) }
    }

    /// Hands out the first of the removed elements that remain, and makes
    /// padding of it in the vector.
    pub fn next(&mut self) -> (item: Option<i32>)
        requires
            old(self).inv(),
        ensures
            final(self).inv(),
            final(self).range == old(self).range,
            final(self).news == old(self).news,
            final(self).original == old(self).original,
            final(self).vec.spec_padding() == old(self).vec.spec_padding(),
            *final(final(self).vec) == *final(old(self).vec),
            item.is_some() == (old(self)@.len() > 0),
            item.is_some() ==> item.unwrap() == old(self)@.first() && final(self)@ == old(
                self,
            )@.drop_first(),
            item.is_none() ==> final(self)@ == old(self)@,
    {
        if self.edges.start >= self.edges.end {
            return None;
        }
        let ret = self.vec.take(self.edges.start);
        self.edges.start += 1;
        assert(self@ =~= old(self)@.drop_first());
        Some(ret)
    }

    /// Hands out the last of the removed elements that remain, and makes
    /// padding of it in the vector.
    pub fn next_back(&mut self) -> (item: Option<i32>)
        requires
            old(self).inv(),
        ensures
            final(self).inv(),
            final(self).range == old(self).range,
            final(self).news == old(self).news,
            final(self).original == old(self).original,
            final(self).vec.spec_padding() == old(self).vec.spec_padding(),
            *final(final(self).vec) == *final(old(self).vec),
            item.is_some() == (old(self)@.len() > 0),
            item.is_some() ==> item.unwrap() == old(self)@.last() && final(self)@ == old(
                self,
            )@.drop_last(),
            item.is_none() ==> final(self)@ == old(self)@,
    {
        if self.edges.start >= self.edges.end {
            return None;
        }
        let ret = self.vec.take(self.edges.end - 1);
        self.edges.end -= 1;
        assert(self@ =~= old(self)@.drop_last());
        Some(ret)
    }

    /// The number of removed elements that remain, as both bounds.
    pub fn size_hint(&self) -> (hint: (usize, Option<usize>))
        requires
            self.inv(),
        ensures
            hint.0 == self@.len(),
            hint.1 == Some(hint.0),
    {
        let size = self.edges.end - self.edges.start;
        (size, Some(size))
    }

    /// Completes the replacement: whatever of the range is left is
    /// removed, the elements behind the range move by the difference of
    /// the two lengths, and the new elements take the place of the range,
    /// those equal to the padding without being stored.
    pub fn commit(self)
        requires
            self.inv(),
        ensures
            final(self.vec)@ == spliced(
                self.original@,
                self.range.start as int,
                self.range.end as int,
                self.news@,
            ),
            final(self.vec).spec_padding() == old(self.vec).spec_padding(),
    {
        let start = self.range.start;
        let end = self.range.end;
        let news_len = self.news.len();
        let range_len = end - start;
        let ghost original = self.original@;
        let ghost padding = self.vec.spec_padding();
        let ghost news = self.news@;
        self.vec.wipe(self.edges.start, self.edges.end);
        assert(self.vec@ =~= original.subrange(0, start as int) + repeat(padding, range_len as nat)
            + original.subrange(end as int, original.len() as int));
        if news_len > range_len {
            open_gap(self.vec, end, news_len - range_len);
        } else {
            close_gap(self.vec, end, range_len - news_len);
        }
        assert(self.vec@ =~= original.subrange(0, start as int) + repeat(padding, news_len as nat)
            + original.subrange(end as int, original.len() as int));
        let mut i: usize = 0;
        while i < news_len
            invariant
                i <= news_len,
                self.news@ == news,
                news_len == news.len(),
                start <= end <= original.len(),
                original.len() - (end - start) + news_len <= usize::MAX,
                self.vec.spec_padding() == padding,
                self.vec@.len() == original.len() - (end - start) + news_len,
                *final(self.vec) == *final(old(self.vec)),
                forall|j: int|
                    0 <= j < self.vec@.len() ==> self.vec@[j] == if j < start {
                        original[j]
                    } else if j < start + i {
                        self.news@[j - start]
                    } else if j < start + news_len {
                        padding
                    } else {
                        original[j - news_len + (end - start)]
                    },
            decreases news_len - i,
        {
            let item = self.news[i];
            if item != *self.vec.padding() {
                self.vec.put(start + i, item);
            }
            i += 1;
        }
        assert(self.vec@ =~= spliced(original, start as int, end as int, news));
    }
}

} // verus!
