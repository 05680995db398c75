//! The iterator over every element of a window of a sparse vector.

use crate::model::{
    lemma_non_padding_first, lemma_non_padding_items, lemma_non_padding_split, non_padding,
};
use crate::sparse_vec::SparseVec;
use crate::store::{range_clone, range_next, range_next_back, range_pending, EntryRange};
use vstd::prelude::*;

verus! {

/// A remembered entry as a sequence of at most one item.
pub open spec fn memo_items(memo: Option<(usize, &i32)>) -> Seq<(usize, i32)> {
    match memo {
        Some(kv) => seq![(kv.0, *kv.1)],
        None => Seq::empty(),
    }
}

/// What a range has still to hand out, or nothing where there is no range.
pub open spec fn pending_items(range: Option<EntryRange>) -> Seq<(usize, i32)> {
    match range {
        Some(r) => range_pending(r),
        None => Seq::empty(),
    }
}

/// A double-ended iterator over every element of a window, padding included.
///
/// It walks the stored entries of the window from both ends and remembers
/// at each end the entry that it has pulled and not yet handed out. Its
/// view is the sequence of values that it has still to hand out.
pub struct Iter<'a> {
    padding: Option<&'a i32>,
    range: Option<EntryRange<'a>>,
    start: usize,
    end: usize,
    head_memo: Option<(usize, &'a i32)>,
    tail_memo: Option<(usize, &'a i32)>,
    source: Ghost<Seq<i32>>,
}

impl<'a> View for Iter<'a> {
    type V = Seq<i32>;

    closed spec fn view(&self) -> Seq<i32> {
        self.source@.subrange(self.start as int, self.end as int)
    }
}

impl<'a> Iter<'a> {
    /// The stored entries that are still to come: the one remembered at the
    /// head, those that the range holds, the one remembered at the tail.
    pub closed spec fn upcoming(&self) -> Seq<(usize, i32)> {
        memo_items(self.head_memo) + pending_items(self.range) + memo_items(self.tail_memo)
    }

    /// What holds of every iterator that the library hands out.
    pub closed spec fn inv(&self) -> bool {
        &&& self.start <= self.end <= self.source@.len() <= usize::MAX
        &&& self.start < self.end ==> self.padding.is_some()
        &&& self.padding.is_some() ==> self.upcoming() == non_padding(
            self.source@,
            *self.padding.unwrap(),
            self.start as int,
            self.end as int,
        )
        &&& self.padding.is_none() ==> self.upcoming() == Seq::<(usize, i32)>::empty()
    }

    /// An iterator over the elements `start <= index < end` of `vec`.
    pub(crate) fn new(vec: &'a SparseVec, start: usize, end: usize) -> (it: Self)
        requires
            start <= end <= vec@.len(),
        ensures
            it.inv(),
            it@ == vec@.subrange(start as int, end as int),
    {
        // The length is read to learn that it fits in `usize`.
        let _ = vec.len();
        Iter {
            padding: Some(vec.padding()),
            range: Some(vec.entries(start, end)),
            start,
            end,
            head_memo: None,
            tail_memo: None,
            source: Ghost(vec@),
        }
    }

    /// Hands out the first of the remaining values.
    pub fn next(&mut self) -> (item: Option<&'a i32>)
        requires
            old(self).inv(),
        ensures
            final(self).inv(),
            item.is_some() == (old(self)@.len() > 0),
            item.is_some() ==> *item.unwrap() == old(self)@.first() && final(self)@ == old(
                self,
            )@.drop_first(),
            item.is_none() ==> final(self)@ == old(self)@,
    {
        if self.start >= self.end {
            return None;
        }
        let padding: &'a i32 = self.padding.unwrap();
        let ghost source = self.source@;
        let ghost all = self.upcoming();
        if self.head_memo.is_none() {
            match &mut self.range {
                Some(range) => {
                    self.head_memo = range_next(range);
                },
                None => {},
            }
        }
        assert(self.upcoming() =~= all);
        proof {
            lemma_non_padding_items(source, *padding, self.start as int, self.end as int);
            if all.len() > 0 {
                lemma_non_padding_first(source, *padding, self.start as int, self.end as int);
            }
        }
        let hit_head = match self.head_memo {
            Some(kv) => kv.0 == self.start,
            None => false,
        };
        let hit_tail = match self.tail_memo {
            Some(kv) => kv.0 == self.start,
            None => false,
        };
        let ret: &'a i32 = if hit_head {
            let kv = self.head_memo.unwrap();
            self.head_memo = None;
            kv.1
        } else if hit_tail {
            let kv = self.tail_memo.unwrap();
            self.tail_memo = None;
            kv.1
        } else {
            padding
        };
        proof {
            if hit_head {
                assert(self.upcoming() =~= all.drop_first());
            } else if hit_tail {
                assert(all.last().0 == self.start);
                assert(all[0].0 >= self.start);
                assert(all.len() == 1);
                assert(self.upcoming() =~= all.drop_first());
            } else {
                assert(self.upcoming() =~= all);
                if all.len() > 0 {
                    assert(all[0].0 != self.start);
                }
            }
        }
        self.start += 1;
        proof {
            assert(self@ =~= old(self)@.drop_first());
        }
        Some(ret)
    }

    /// Hands out the last of the remaining values.
    pub fn next_back(&mut self) -> (item: Option<&'a i32>)
        requires
            old(self).inv(),
        ensures
            final(self).inv(),
            item.is_some() == (old(self)@.len() > 0),
            item.is_some() ==> *item.unwrap() == old(self)@.last() && final(self)@ == old(
                self,
            )@.drop_last(),
            item.is_none() ==> final(self)@ == old(self)@,
    {
        if self.start >= self.end {
            return None;
        }
        let padding: &'a i32 = self.padding.unwrap();
        let ghost source = self.source@;
        let ghost all = self.upcoming();
        if self.tail_memo.is_none() {
            match &mut self.range {
                Some(range) => {
                    self.tail_memo = range_next_back(range);
                },
                None => {},
            }
        }
        assert(self.upcoming() =~= all);
        proof {
            lemma_non_padding_items(source, *padding, self.start as int, self.end as int);
        }
        let tail_pos = self.end - 1;
        let hit_tail = match self.tail_memo {
            Some(kv) => kv.0 == tail_pos,
            None => false,
        };
        let hit_head = match self.head_memo {
            Some(kv) => kv.0 == tail_pos,
            None => false,
        };
        proof {
            let shorter = non_padding(source, *padding, self.start as int, tail_pos as int);
            let tip = non_padding(source, *padding, tail_pos as int, self.end as int);
            lemma_non_padding_split(
                source,
                *padding,
                self.start as int,
                tail_pos as int,
                self.end as int,
            );
            assert(non_padding(source, *padding, self.end as int, self.end as int)
                =~= Seq::empty());
            if source[tail_pos as int] != *padding {
                assert(tip =~= seq![(tail_pos, source[tail_pos as int])]);
                assert(all.last() == (tail_pos, source[tail_pos as int]));
                assert(all.drop_last() =~= shorter);
                if !hit_tail {
                    assert(all[0].0 <= all.last().0);
                    if all.len() > 1 {
                        assert(all[0].0 < all.last().0);
                    }
                    assert(hit_head);
                }
            } else {
                assert(tip =~= Seq::empty());
                assert(all =~= shorter);
                if all.len() > 0 {
                    assert(all.last().0 < tail_pos);
                    assert(all[0].0 <= all.last().0);
                }
            }
        }
        let ret: &'a i32 = if hit_tail {
            let kv = self.tail_memo.unwrap();
            self.tail_memo = None;
            kv.1
        } else if hit_head {
            let kv = self.head_memo.unwrap();
            self.head_memo = None;
            kv.1
        } else {
            padding
        };
        proof {
            if hit_tail {
                assert(self.upcoming() =~= all.drop_last());
            } else if hit_head {
                assert(all.len() == 1);
                assert(self.upcoming() =~= all.drop_last());
            } else {
                assert(self.upcoming() =~= all);
            }
        }
        self.end -= 1;
        proof {
            assert(self@ =~= old(self)@.drop_last());
        }
        Some(ret)
    }

    /// The number of values that remain, as both bounds.
    pub fn size_hint(&self) -> (hint: (usize, Option<usize>))
        requires
            self.inv(),
        ensures
            hint.0 == self@.len(),
            hint.1 == Some(hint.0),
    {
        let size = self.end - self.start;
        (size, Some(size))
    }
}

impl<'a> Clone for Iter<'a> {
    fn clone(&self) -> (it: Self)
        ensures
            it@ == self@,
            it.inv() == self.inv(),
    {
        let range = match &self.range {
            Some(r) => Some(range_clone(r)),
            None => None,
        };
        Iter {
            padding: self.padding,
            range,
            start: self.start,
            end: self.end,
            head_memo: self.head_memo,
            tail_memo: self.tail_memo,
            source: self.source,
        }
    }
}

impl<'a> Default for Iter<'a> {
    /// An iterator that hands out nothing.
    fn default() -> (it: Self)
        ensures
            it.inv(),
            it@.len() == 0,
    {
        Iter {
            padding: None,
            range: None,
            start: 0,
            end: 0,
            head_memo: None,
            tail_memo: None,
            source: Ghost(Seq::empty()),
        }
    }
}

} // verus!
