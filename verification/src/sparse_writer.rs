//! The writer over the non-padding elements of a window of a sparse vector.

use crate::elm::ElmWriter;
use crate::model::{
    lemma_non_padding_agree, lemma_non_padding_first, lemma_non_padding_items,
    lemma_non_padding_last, lemma_non_padding_none, lemma_non_padding_split, lowered, non_padding,
    sparse_of,
};
use crate::sparse_reader::sparse_size_hint;
use crate::sparse_vec::SparseVec;
use core::ops::Range;
use vstd::prelude::*;

verus! {

/// A double-ended writer that hands out only the elements of a window that
/// differ from the padding, each with its index counted from the start of
/// the window and with its value to be changed in place.
///
/// The element handed out last is held as a working copy. It goes back to
/// the vector when the writer moves on and when [`SparseWriter::finish`] is
/// called; a value that was made equal to the padding then leaves no entry.
/// A writer that is dropped without `finish` loses what was written to the
/// element handed out last.
///
/// Its view is what it has still to hand out.
#[derive(Debug)]
pub struct SparseWriter<'a> {
    /// The vector that is written to.
    pub vec: &'a mut SparseVec,
    /// The number of non-padding elements of the vector when the writer was made.
    pub nnp: usize,
    /// The window.
    pub window: Range<usize>,
    /// The part of the window whose elements have not been handed out.
    pub rest: Range<usize>,
    /// The index in the vector and the working copy of the element handed out last.
    pub current: Option<(usize, i32)>,
}

impl<'a> View for SparseWriter<'a> {
    type V = Seq<(usize, i32)>;

    open spec fn view(&self) -> Seq<(usize, i32)> {
        lowered(
            non_padding(
                self.vec@,
                self.vec.spec_padding(),
                self.rest.start as int,
                self.rest.end as int,
            ),
            self.window.start as int,
        )
    }
}

impl<'a> SparseWriter<'a> {
    /// What holds of every writer that the library hands out.
    pub open spec fn inv(&self) -> bool {
        &&& self.window.start <= self.rest.start <= self.rest.end <= self.window.end
            <= self.vec@.len()
        &&& match self.current {
            Some(c) => self.window.start <= c.0 < self.window.end && !(self.rest.start <= c.0
                < self.rest.end),
            None => true,
        }
    }

    /// The elements of the vector as the writer shows them: those of the
    /// vector, but for the working copy.
    pub open spec fn seen(&self) -> Seq<i32> {
        match self.current {
            Some(c) => self.vec@.update(c.0 as int, c.1),
            None => self.vec@,
        }
    }

    /// A writer over the elements `range.start <= index < range.end` of `vec`.
    pub(crate) fn new(vec: &'a mut SparseVec, range: Range<usize>) -> (w: Self)
        requires
            range.start <= range.end <= old(vec)@.len(),
        ensures
            w.inv(),
            *w.vec == *old(vec),
            *final(w.vec) == *final(vec),
            w.window == range,
            w.rest == range,
            w.current.is_none(),
            w.nnp == sparse_of(old(vec)@, old(vec).spec_padding()).len(),
    {
        let nnp = vec.nnp();
        let rest = range.start..range.end;
        SparseWriter { vec, nnp, window: range, rest, current: None }
    }

    /// Carries the working copy back to the vector.
    pub fn settle(&mut self)
        requires
            old(self).inv(),
        ensures
            final(self).inv(),
            final(self).current.is_none(),
            final(self).vec@ == old(self).seen(),
            final(self).vec.spec_padding() == old(self).vec.spec_padding(),
            final(self)@ == old(self)@,
            final(self).window == old(self).window,
            final(self).rest == old(self).rest,
            final(self).nnp == old(self).nnp,
            *final(final(self).vec) == *final(old(self).vec),
    {
        match self.current {
            None => {},
            Some(c) => {
                if c.1 != *self.vec.padding() {
                    self.vec.put(c.0, c.1);
                } else {
                    let _ = self.vec.unset(c.0);
                }
                self.current = None;
                proof {
                    lemma_non_padding_agree(
                        self.vec@,
                        old(self).vec@,
                        self.vec.spec_padding(),
                        self.rest.start as int,
                        self.rest.end as int,
                    );
                }
            },
        }
    }

    /// Hands out the pending element with the smallest index.
    pub fn next(&mut self) -> (item: Option<ElmWriter<'_>>)
        requires
            old(self).inv(),
        ensures
            final(self).inv(),
            final(self).vec.spec_padding() == old(self).vec.spec_padding(),
            final(self).window == old(self).window,
            final(self).nnp == old(self).nnp,
            *final(final(self).vec) == *final(old(self).vec),
            item.is_some() == (old(self)@.len() > 0),
            item.is_some() ==> {
                let index = old(self)@.first().0;
                &&& item.unwrap().index == index
                &&& old(self).window.start + index < old(self).seen().len()
                &&& *item.unwrap().value == old(self)@.first().1
                &&& old(self).seen()[old(self).window.start + index] == old(self)@.first().1
                &&& final(self).seen() == old(self).seen().update(
                    old(self).window.start + index,
                    *final(item.unwrap().value),
                )
                &&& final(self)@ == old(self)@.drop_first()
            },
            item.is_none() ==> final(self).seen() == old(self).seen() && final(self)@ == old(
                self,
            )@,
    {
        self.settle();
        let offset = self.window.start;
        let ghost settled = self.vec@;
        let ghost padding = self.vec.spec_padding();
        proof {
            lemma_non_padding_items(settled, padding, self.rest.start as int, self.rest.end as int);
        }
        match self.vec.first_stored(self.rest.start, self.rest.end) {
            None => {
                proof {
                    lemma_non_padding_none(
                        settled,
                        padding,
                        self.rest.start as int,
                        self.rest.end as int,
                    );
                }
                None
            },
            Some(key) => {
                proof {
                    let all = non_padding(
                        settled,
                        padding,
                        self.rest.start as int,
                        self.rest.end as int,
                    );
                    lemma_non_padding_split(
                        settled,
                        padding,
                        self.rest.start as int,
                        key as int,
                        self.rest.end as int,
                    );
                    lemma_non_padding_none(settled, padding, self.rest.start as int, key as int);
                    assert(all.len() > 0);
                    lemma_non_padding_first(
                        settled,
                        padding,
                        self.rest.start as int,
                        self.rest.end as int,
                    );
                    assert(all[0].0 == key);
                    assert(lowered(all.drop_first(), offset as int) =~= lowered(
                        all,
                        offset as int,
                    ).drop_first());
                }
                let value = *self.vec.index(key);
                self.current = Some((key, value));
                self.rest.start = key + 1;
                assert(self.seen() =~= settled);
                match &mut self.current {
                    Some(c) => Some(ElmWriter::new(key - offset, &mut c.1)),
                    None => None,
                }
            },
        }
    }

    /// Hands out the pending element with the largest index.
    pub fn next_back(&mut self) -> (item: Option<ElmWriter<'_>>)
        requires
            old(self).inv(),
        ensures
            final(self).inv(),
            final(self).vec.spec_padding() == old(self).vec.spec_padding(),
            final(self).window == old(self).window,
            final(self).nnp == old(self).nnp,
            *final(final(self).vec) == *final(old(self).vec),
            item.is_some() == (old(self)@.len() > 0),
            item.is_some() ==> {
                let index = old(self)@.last().0;
                &&& item.unwrap().index == index
                &&& old(self).window.start + index < old(self).seen().len()
                &&& *item.unwrap().value == old(self)@.last().1
                &&& old(self).seen()[old(self).window.start + index] == old(self)@.last().1
                &&& final(self).seen() == old(self).seen().update(
                    old(self).window.start + index,
                    *final(item.unwrap().value),
                )
                &&& final(self)@ == old(self)@.drop_last()
            },
            item.is_none() ==> final(self).seen() == old(self).seen() && final(self)@ == old(
                self,
            )@,
    {
        self.settle();
        let offset = self.window.start;
        let ghost settled = self.vec@;
        let ghost padding = self.vec.spec_padding();
        proof {
            lemma_non_padding_items(settled, padding, self.rest.start as int, self.rest.end as int);
        }
        match self.vec.last_stored(self.rest.start, self.rest.end) {
            None => {
                proof {
                    lemma_non_padding_none(
                        settled,
                        padding,
                        self.rest.start as int,
                        self.rest.end as int,
                    );
                }
                None
            },
            Some(key) => {
                proof {
                    let all = non_padding(
                        settled,
                        padding,
                        self.rest.start as int,
                        self.rest.end as int,
                    );
                    lemma_non_padding_split(
                        settled,
                        padding,
                        self.rest.start as int,
                        key + 1,
                        self.rest.end as int,
                    );
                    lemma_non_padding_none(settled, padding, key + 1, self.rest.end as int);
                    lemma_non_padding_split(
                        settled,
                        padding,
                        self.rest.start as int,
                        key as int,
                        key + 1,
                    );
                    assert(non_padding(settled, padding, key + 1, key + 1) =~= Seq::empty());
                    assert(all.len() > 0);
                    lemma_non_padding_last(
                        settled,
                        padding,
                        self.rest.start as int,
                        self.rest.end as int,
                    );
                    assert(all.last().0 == key);
                    assert(lowered(all.drop_last(), offset as int) =~= lowered(
                        all,
                        offset as int,
                    ).drop_last());
                }
                let value = *self.vec.index(key);
                self.current = Some((key, value));
                self.rest.end = key;
                assert(self.seen() =~= settled);
                match &mut self.current {
                    Some(c) => Some(ElmWriter::new(key - offset, &mut c.1)),
                    None => None,
                }
            },
        }
    }

    /// Bounds on the number of elements that the writer hands out: at least
    /// the non-padding elements of the vector that cannot all lie outside
    /// the window, at most as many as the vector has and the window holds.
    pub fn size_hint(&self) -> (hint: (usize, Option<usize>))
        requires
            self.inv(),
        ensures
            hint.0 == sparse_size_hint(
                self.host_len(),
                self.nnp as int,
                self.window.end - self.window.start,
            ).0,
            hint.1 == Some(
                sparse_size_hint(
                    self.host_len(),
                    self.nnp as int,
                    self.window.end - self.window.start,
                ).1 as usize,
            ),
    {
        let window = self.window.end - self.window.start;
        let outside = self.vec.len() - window;
        let min = if self.nnp >= outside {
            self.nnp - outside
        } else {
            0
        };
        let max = if self.nnp <= window {
            self.nnp
        } else {
            window
        };
        (min, Some(max))
    }

    /// Passes over `n` pending elements from the front and hands out the
    /// one after them; the elements passed over stay as they are.
    pub fn nth(&mut self, n: usize) -> (item: Option<ElmWriter<'_>>)
        requires
            old(self).inv(),
        ensures
            final(self).inv(),
            final(self).vec.spec_padding() == old(self).vec.spec_padding(),
            final(self).window == old(self).window,
            final(self).nnp == old(self).nnp,
            *final(final(self).vec) == *final(old(self).vec),
            item.is_some() == (n < old(self)@.len()),
            item.is_some() ==> {
                let index = old(self)@[n as int].0;
                &&& item.unwrap().index == index
                &&& old(self).window.start + index < old(self).seen().len()
                &&& *item.unwrap().value == old(self)@[n as int].1
                &&& final(self).seen() == old(self).seen().update(
                    old(self).window.start + index,
                    *final(item.unwrap().value),
                )
                &&& final(self)@ == old(self)@.skip(n + 1)
            },
            item.is_none() ==> final(self).seen() == old(self).seen() && final(self)@.len() == 0,
    {
        let mut i: usize = 0;
        assert(self@ =~= old(self)@.skip(0));
        while i < n
            invariant
                self.inv(),
                i <= n,
                i <= old(self)@.len(),
                self@ == old(self)@.skip(i as int),
                self.seen() == old(self).seen(),
                self.vec.spec_padding() == old(self).vec.spec_padding(),
                self.window == old(self).window,
                self.nnp == old(self).nnp,
                *final(self.vec) == *final(old(self).vec),
            decreases n - i,
        {
            let ghost before = self@;
            let ghost seen = self.seen();
            let passed = self.next();
            if passed.is_none() {
                return None;
            }
            i += 1;
            assert(self.seen() =~= seen);
            assert(before.drop_first() =~= old(self)@.skip(i as int));
        }
        let ghost before = self@;
        let item = self.next();
        proof {
            if before.len() > 0 {
                assert(before.drop_first() =~= old(self)@.skip(n + 1));
            }
        }
        item
    }

    /// Passes over `n` pending elements from the back and hands out the
    /// one before them; the elements passed over stay as they are.
    pub fn nth_back(&mut self, n: usize) -> (item: Option<ElmWriter<'_>>)
        requires
            old(self).inv(),
        ensures
            final(self).inv(),
            final(self).vec.spec_padding() == old(self).vec.spec_padding(),
            final(self).window == old(self).window,
            final(self).nnp == old(self).nnp,
            *final(final(self).vec) == *final(old(self).vec),
            item.is_some() == (n < old(self)@.len()),
            item.is_some() ==> {
                let index = old(self)@[old(self)@.len() - 1 - n].0;
                &&& item.unwrap().index == index
                &&& old(self).window.start + index < old(self).seen().len()
                &&& *item.unwrap().value == old(self)@[old(self)@.len() - 1 - n].1
                &&& final(self).seen() == old(self).seen().update(
                    old(self).window.start + index,
                    *final(item.unwrap().value),
                )
                &&& final(self)@ == old(self)@.take(old(self)@.len() - 1 - n)
            },
            item.is_none() ==> final(self).seen() == old(self).seen() && final(self)@.len() == 0,
    {
        let mut i: usize = 0;
        assert(self@ =~= old(self)@.take(old(self)@.len() as int));
        while i < n
            invariant
                self.inv(),
                i <= n,
                i <= old(self)@.len(),
                self@ == old(self)@.take(old(self)@.len() - i),
                self.seen() == old(self).seen(),
                self.vec.spec_padding() == old(self).vec.spec_padding(),
                self.window == old(self).window,
                self.nnp == old(self).nnp,
                *final(self.vec) == *final(old(self).vec),
            decreases n - i,
        {
            let ghost before = self@;
            let ghost seen = self.seen();
            let passed = self.next_back();
            if passed.is_none() {
                return None;
            }
            i += 1;
            assert(self.seen() =~= seen);
            assert(before.drop_last() =~= old(self)@.take(old(self)@.len() - i));
        }
        let ghost before = self@;
        let item = self.next_back();
        proof {
            if before.len() > 0 {
                assert(before.drop_last() =~= old(self)@.take(old(self)@.len() - 1 - n));
            }
        }
        item
    }

    /// Passes over every pending element, ends the writing, and returns
    /// how many elements were pending.
    pub fn count(self) -> (n: usize)
        requires
            self.inv(),
        ensures
            n == self@.len(),
            final(self.vec)@ == self.seen(),
            final(self.vec).spec_padding() == old(self.vec).spec_padding(),
    {
        let mut writer = self;
        let mut n: usize = 0;
        let ghost all = writer@;
        let ghost seen = writer.seen();
        proof {
            lemma_non_padding_items(
                writer.vec@,
                writer.vec.spec_padding(),
                writer.rest.start as int,
                writer.rest.end as int,
            );
        }
        loop
            invariant_except_break
                n + writer@.len() == all.len(),
            invariant
                writer.inv(),
                all.len() <= usize::MAX,
                writer.seen() == seen,
                writer.vec.spec_padding() == old(self.vec).spec_padding(),
                *final(writer.vec) == *final(old(self.vec)),
            ensures
                n == all.len(),
            decreases writer@.len(),
        {
            let passed = writer.next();
            if passed.is_none() {
                break ;
            }
            n += 1;
            assert(writer.seen() =~= seen);
        }
        writer.finish();
        n
    }

    /// The length of the vector that is written to.
    pub open spec fn host_len(&self) -> int {
        self.vec@.len() as int
    }

    /// Ends the writing: the working copy goes back to the vector.
    pub fn finish(self)
        requires
            self.inv(),
        ensures
            final(self.vec)@ == self.seen(),
            final(self.vec).spec_padding() == old(self.vec).spec_padding(),
    {
        let mut writer = self;
        writer.settle();
    }
}

} // verus!
