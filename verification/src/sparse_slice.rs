//! A read-only window of a sparse vector.

use crate::iter::Iter;
use crate::model::{
    lemma_lex_order_skip, lemma_non_padding_empty, lemma_non_padding_first,
    lemma_non_padding_items, lemma_non_padding_none, lemma_non_padding_split,
    lemma_runs_of_append, lex_order, non_padding, order_of, repeat, runs_of, sparse_of, Order,
};
use crate::sparse_reader::SparseReader;
use crate::sparse_vec::SparseVec;
use core::ops::Range;
use vstd::prelude::*;
use vstd::std_specs::cmp::PartialEqSpecImpl;

verus! {

/// How `x` stands to `y`.
pub fn order_values(x: i32, y: i32) -> (o: Order)
    ensures
        o == order_of(x as int, y as int),
{
    if x < y {
        Order::Less
    } else if x > y {
        Order::Greater
    } else {
        Order::Equal
    }
}

/// How the length `x` stands to the length `y`.
pub fn order_lengths(x: usize, y: usize) -> (o: Order)
    ensures
        o == order_of(x as int, y as int),
{
    if x < y {
        Order::Less
    } else if x > y {
        Order::Greater
    } else {
        Order::Equal
    }
}

/// What a merge of two sparse readers knows of one side: the non-padding
/// elements of `s` from `i` on are the remembered one, if it is not behind
/// `i`, and then what the reader has still to hand out.
pub open spec fn merge_side(
    s: Seq<i32>,
    padding: i32,
    i: int,
    memo: Option<(usize, i32)>,
    pending: Seq<(usize, i32)>,
) -> bool {
    non_padding(s, padding, i, s.len() as int) == match memo {
        Some(m) => if m.0 >= i {
            seq![m] + pending
        } else {
            pending
        },
        None => pending,
    }
}

/// The remembered element of one side of a merge, renewed from the reader
/// where it lies behind `i`.
fn refresh<'a>(
    reader: &mut SparseReader<'a>,
    memo: Option<(usize, i32)>,
    i: usize,
    Ghost(s): Ghost<Seq<i32>>,
    Ghost(padding): Ghost<i32>,
) -> (r: Option<(usize, i32)>)
    requires
        old(reader).inv(),
        merge_side(s, padding, i as int, memo, old(reader)@),
    ensures
        final(reader).inv(),
        merge_side(s, padding, i as int, r, final(reader)@),
        r.is_some() ==> r.unwrap().0 >= i,
        r.is_none() ==> non_padding(s, padding, i as int, s.len() as int).len() == 0,
{
    let fresh = match memo {
        Some(m) => m.0 >= i,
        None => false,
    };
    if fresh {
        memo
    } else {
        match reader.next() {
            Some(e) => {
                proof {
                    let all = non_padding(s, padding, i as int, s.len() as int);
                    lemma_non_padding_items(s, padding, i as int, s.len() as int);
                    assert(all =~= seq![all[0]] + all.drop_first());
                }
                Some((e.index(), *e.value()))
            },
            None => None,
        }
    }
}

/// A read-only window of a sparse vector.
///
/// Its view is the part of the vector's dense sequence that it shows.
#[derive(Debug)]
pub struct SparseSlice<'a> {
    vec: &'a SparseVec,
    start: usize,
    end: usize,
}

impl<'a> View for SparseSlice<'a> {
    type V = Seq<i32>;

    closed spec fn view(&self) -> Seq<i32> {
        self.vec@.subrange(self.start as int, self.end as int)
    }
}

impl<'a> SparseSlice<'a> {
    /// What holds of every slice: its window lies inside its vector.
    #[verifier::type_invariant]
    pub closed spec fn wf(&self) -> bool {
        self.start <= self.end <= self.vec@.len()
    }

    /// The padding value of the vector.
    pub closed spec fn spec_padding(&self) -> i32 {
        self.vec.spec_padding()
    }

    /// The vector that the slice shows a part of.
    pub closed spec fn host(&self) -> SparseVec {
        *self.vec
    }

    /// The index in the vector at which the slice starts.
    pub closed spec fn offset(&self) -> usize {
        self.start
    }

    /// The window `start <= index < end` of `vec`.
    pub(crate) fn new(vec: &'a SparseVec, start: usize, end: usize) -> (s: Self)
        requires
            start <= end <= vec@.len(),
        ensures
            s@ == vec@.subrange(start as int, end as int),
            s.spec_padding() == vec.spec_padding(),
            s.host() == *vec,
            s.offset() == start,
    {
        SparseSlice { vec, start, end }
    }

    /// Whether the slice has no element.
    pub fn is_empty(&self) -> (r: bool)
        ensures
            r == (self@.len() == 0),
    {
        self.len() == 0
    }

    /// The number of elements.
    pub fn len(&self) -> (n: usize)
        ensures
            n == self@.len(),
    {
        proof {
            use_type_invariant(self);
        }
        self.end - self.start
    }

    /// The padding value of the vector.
    pub fn padding(&self) -> (p: &i32)
        ensures
            *p == self.spec_padding(),
    {
        self.vec.padding()
    }

    /// The elements as a dense vector.
    pub fn to_vec(&self) -> (out: Vec<i32>)
        ensures
            out@ == self@,
    {
        let mut out: Vec<i32> = Vec::new();
        let mut it = self.iter();
        let mut remaining = self.len();
        while remaining > 0
            invariant
                it.inv(),
                it@.len() == remaining,
                out@ + it@ == self@,
            decreases remaining,
        {
            let ghost before = it@;
            let ghost done = out@;
            let value = it.next().unwrap();
            out.push(*value);
            remaining -= 1;
            assert(out@ + it@ =~= done + before) by {
                assert(before =~= seq![before[0]] + before.drop_first());
            }
        }
        assert(out@ =~= out@ + it@);
        out
    }

    /// The part `range.start <= index < range.end` of the slice.
    pub fn slice(&self, range: Range<usize>) -> (s: SparseSlice<'a>)
        requires
            range.start <= range.end <= self@.len(),
        ensures
            s@ == self@.subrange(range.start as int, range.end as int),
            s.spec_padding() == self.spec_padding(),
            s.host() == self.host(),
            s.offset() == self.offset() + range.start,
    {
        proof {
            use_type_invariant(self);
        }
        let s = SparseSlice::new(self.vec, self.start + range.start, self.start + range.end);
        assert(s@ =~= self@.subrange(range.start as int, range.end as int));
        s
    }

    /// An iterator over every element.
    pub fn iter(&self) -> (it: Iter<'a>)
        ensures
            it.inv(),
            it@ == self@,
    {
        proof {
            use_type_invariant(self);
        }
        Iter::new(self.vec, self.start, self.end)
    }

    /// A reader over the elements that differ from the padding.
    pub fn sparse_reader(&self) -> (r: SparseReader<'a>)
        ensures
            r.inv(),
            r@ == sparse_of(self@, self.spec_padding()),
            r.host_len() == self.host()@.len(),
            r.host_nnp() == sparse_of(self.host()@, self.spec_padding()).len(),
            r.window_len() == self@.len(),
    {
        proof {
            use_type_invariant(self);
        }
        SparseReader::new(self.vec, self.start, self.end)
    }

    /// The element at `index`.
    pub fn index(&self, index: usize) -> (r: &'a i32)
        requires
            index < self@.len(),
        ensures
            *r == self@[index as int],
    {
        proof {
            use_type_invariant(self);
        }
        self.vec.index(self.start + index)
    }

    /// The runs of equal values that the slice consists of, each as a value
    /// and its length: what is hashed of it.
    ///
    /// The runs are put together from the stored elements and the stretches
    /// of padding between and around them, so they depend on the elements
    /// alone and not on what is stored.
    pub fn hash_runs(&self) -> (runs: Vec<(i32, usize)>)
        ensures
            runs@ == runs_of(self@),
    {
        let len = self.len();
        let padding = *self.padding();
        let mut runs: Vec<(i32, usize)> = Vec::new();
        let mut reader = self.sparse_reader();
        let mut next_index: usize = 0;
        let mut last_value: i32 = padding;
        let mut value_len: usize = 0;
        let ghost a = self@;
        let mut item = reader.next();
        proof {
            assert(a.take(0) =~= Seq::empty());
            if item.is_some() {
                let all = non_padding(a, padding, 0, len as int);
                assert(all =~= seq![all[0]] + all.drop_first());
            }
        }
        while item.is_some()
            invariant
                a == self@,
                a.len() == len,
                reader.inv(),
                value_len <= next_index <= len,
                runs@ == runs_of(a.take(next_index - value_len)),
                value_len == 0 ==> next_index == 0,
                value_len > 0 ==> last_value != padding,
                forall|j: int| next_index - value_len <= j < next_index ==> a[j] == last_value,
                value_len > 0 && next_index > value_len ==> a[next_index - value_len - 1]
                    != last_value,
                item.is_none() ==> non_padding(a, padding, next_index as int, len as int).len()
                    == 0,
                item.is_some() ==> non_padding(a, padding, next_index as int, len as int)
                    == seq![(item.unwrap().spec_index(), item.unwrap().spec_value())] + reader@,
            decreases reader@.len() + if item.is_some() { 1nat } else { 0nat },
        {
            let elm = item.unwrap();
            let index = elm.index();
            let value = *elm.value();
            proof {
                lemma_non_padding_items(a, padding, next_index as int, len as int);
                lemma_non_padding_first(a, padding, next_index as int, len as int);
                let all = non_padding(a, padding, next_index as int, len as int);
                assert(all[0] == (index, value));
            }
            let padding_len = index - next_index;
            let value_changed = padding_len > 0 || value_len == 0 || value != last_value;
            if value_changed {
                if value_len > 0 {
                    proof {
                        let p = next_index - value_len;
                        assert(a.take(next_index as int) =~= a.take(p) + repeat(
                            last_value,
                            value_len as nat,
                        ));
                        if p > 0 {
                            assert(a.take(p).last() == a[p - 1]);
                        }
                        lemma_runs_of_append(a.take(p), last_value, value_len as nat);
                    }
                    runs.push((last_value, value_len));
                }
                if padding_len > 0 {
                    proof {
                        assert(a.take(index as int) =~= a.take(next_index as int) + repeat(
                            padding,
                            padding_len as nat,
                        ));
                        if next_index > 0 {
                            assert(a.take(next_index as int).last() == a[next_index - 1]);
                        }
                        lemma_runs_of_append(
                            a.take(next_index as int),
                            padding,
                            padding_len as nat,
                        );
                    }
                    runs.push((padding, padding_len));
                }
                value_len = 1;
            } else {
                value_len = value_len + 1;
            }
            next_index = index + 1;
            last_value = value;
            let ghost pending = reader@;
            item = reader.next();
            proof {
                if item.is_some() {
                    assert(pending =~= seq![pending[0]] + pending.drop_first());
                }
            }
        }
        let padding_len = len - next_index;
        proof {
            lemma_non_padding_empty(a, padding, next_index as int, len as int);
        }
        if value_len > 0 {
            proof {
                let p = next_index - value_len;
                assert(a.take(next_index as int) =~= a.take(p) + repeat(
                    last_value,
                    value_len as nat,
                ));
                if p > 0 {
                    assert(a.take(p).last() == a[p - 1]);
                }
                lemma_runs_of_append(a.take(p), last_value, value_len as nat);
            }
            runs.push((last_value, value_len));
        }
        if padding_len > 0 {
            proof {
                assert(a.take(len as int) =~= a.take(next_index as int) + repeat(
                    padding,
                    padding_len as nat,
                ));
                if next_index > 0 {
                    assert(a.take(next_index as int).last() == a[next_index - 1]);
                }
                lemma_runs_of_append(a.take(next_index as int), padding, padding_len as nat);
            }
            runs.push((padding, padding_len));
        }
        assert(a.take(len as int) =~= a);
        runs
    }

    /// How the slice stands to `other` in lexicographic order of their
    /// elements, whatever the two padding values are.
    ///
    /// The two sparse readers are merged by index: a stretch that both
    /// sides skip is decided by the two padding values, an index that one
    /// side stores by that value and the other side's value there.
    pub fn order_with(&self, other: &SparseSlice<'_>) -> (o: Order)
        ensures
            o == lex_order(self@, other@),
    {
        let s_padding = *self.padding();
        let o_padding = *other.padding();
        let s_len = self.len();
        let o_len = other.len();
        let len = if s_len < o_len {
            s_len
        } else {
            o_len
        };
        let mut i: usize = 0;
        let mut s_reader = self.sparse_reader();
        let mut o_reader = other.sparse_reader();
        let mut s_memo: Option<(usize, i32)> = None;
        let mut o_memo: Option<(usize, i32)> = None;
        let ghost a = self@;
        let ghost b = other@;
        while i < len
            invariant
                a == self@,
                b == other@,
                a.len() == s_len,
                b.len() == o_len,
                len <= s_len,
                len <= o_len,
                len == s_len || len == o_len,
                i <= len,
                s_reader.inv(),
                o_reader.inv(),
                merge_side(a, s_padding, i as int, s_memo, s_reader@),
                merge_side(b, o_padding, i as int, o_memo, o_reader@),
                forall|j: int| 0 <= j < i ==> a[j] == b[j],
            decreases len - i,
        {
            s_memo = refresh(&mut s_reader, s_memo, i, Ghost(a), Ghost(s_padding));
            o_memo = refresh(&mut o_reader, o_memo, i, Ghost(b), Ghost(o_padding));
            proof {
                lemma_merge_gap(a, s_padding, i as int, s_memo, s_reader@);
                lemma_merge_gap(b, o_padding, i as int, o_memo, o_reader@);
                lemma_lex_order_skip(a, b, 0, i as int);
            }
            let s_index = match s_memo {
                Some(m) => if m.0 < len {
                    m.0
                } else {
                    len
                },
                None => len,
            };
            let o_index = match o_memo {
                Some(m) => if m.0 < len {
                    m.0
                } else {
                    len
                },
                None => len,
            };
            let c_index = if s_index < o_index {
                s_index
            } else {
                o_index
            };
            if c_index > i && s_padding != o_padding {
                return order_values(s_padding, o_padding);
            }
            proof {
                lemma_lex_order_skip(a, b, i as int, c_index as int);
            }
            if c_index < len {
                let s_value = match s_memo {
                    Some(m) => if m.0 == c_index {
                        m.1
                    } else {
                        s_padding
                    },
                    None => s_padding,
                };
                let o_value = match o_memo {
                    Some(m) => if m.0 == c_index {
                        m.1
                    } else {
                        o_padding
                    },
                    None => o_padding,
                };
                if s_value != o_value {
                    return order_values(s_value, o_value);
                }
                proof {
                    lemma_merge_advance(a, s_padding, i as int, c_index as int, s_memo, s_reader@);
                    lemma_merge_advance(b, o_padding, i as int, c_index as int, o_memo, o_reader@);
                }
                i = c_index + 1;
            } else {
                proof {
                    lemma_merge_advance_all(a, s_padding, i as int, len as int, s_memo, s_reader@);
                    lemma_merge_advance_all(b, o_padding, i as int, len as int, o_memo, o_reader@);
                }
                i = len;
            }
        }
        proof {
            lemma_lex_order_skip(a, b, 0, len as int);
        }
        order_lengths(s_len, o_len)
    }
}

/// Where a merge stands at `i` with the remembered element not behind `i`:
/// the elements from `i` up to the remembered one are padding, the
/// remembered one is stored as remembered, and without a remembered one
/// everything from `i` on is padding.
pub proof fn lemma_merge_gap(
    s: Seq<i32>,
    padding: i32,
    i: int,
    memo: Option<(usize, i32)>,
    pending: Seq<(usize, i32)>,
)
    requires
        0 <= i <= s.len() <= usize::MAX,
        merge_side(s, padding, i, memo, pending),
        memo.is_some() ==> memo.unwrap().0 >= i,
        memo.is_none() ==> non_padding(s, padding, i, s.len() as int).len() == 0,
    ensures
        memo.is_some() ==> memo.unwrap().0 < s.len() && s[memo.unwrap().0 as int]
            == memo.unwrap().1 && memo.unwrap().1 != padding && forall|j: int|
            i <= j < memo.unwrap().0 ==> s[j] == padding,
        memo.is_none() ==> forall|j: int| i <= j < s.len() ==> s[j] == padding,
{
    let all = non_padding(s, padding, i, s.len() as int);
    lemma_non_padding_items(s, padding, i, s.len() as int);
    if memo.is_some() {
        assert(all[0] == memo.unwrap());
        lemma_non_padding_first(s, padding, i, s.len() as int);
    } else {
        lemma_non_padding_empty(s, padding, i, s.len() as int);
    }
}

/// A merge that stood at `i` stands at `c + 1` once the index `c`, up to
/// which the side holds nothing but padding short of its remembered
/// element, is dealt with.
pub proof fn lemma_merge_advance(
    s: Seq<i32>,
    padding: i32,
    i: int,
    c: int,
    memo: Option<(usize, i32)>,
    pending: Seq<(usize, i32)>,
)
    requires
        0 <= i <= c < s.len() <= usize::MAX,
        merge_side(s, padding, i, memo, pending),
        memo.is_some() ==> memo.unwrap().0 >= c,
        memo.is_none() ==> non_padding(s, padding, i, s.len() as int).len() == 0,
    ensures
        merge_side(s, padding, c + 1, memo, pending),
{
    lemma_merge_gap(s, padding, i, memo, pending);
    let all = non_padding(s, padding, i, s.len() as int);
    lemma_non_padding_split(s, padding, i, c + 1, s.len() as int);
    if memo.is_some() && memo.unwrap().0 == c {
        lemma_non_padding_first(s, padding, i, s.len() as int);
        assert(all.drop_first() =~= pending);
    } else {
        lemma_non_padding_none(s, padding, i, c + 1);
    }
}

/// A merge that stood at `i` stands at `n` when the side holds nothing but
/// padding between the two.
pub proof fn lemma_merge_advance_all(
    s: Seq<i32>,
    padding: i32,
    i: int,
    n: int,
    memo: Option<(usize, i32)>,
    pending: Seq<(usize, i32)>,
)
    requires
        0 <= i <= n <= s.len() <= usize::MAX,
        merge_side(s, padding, i, memo, pending),
        memo.is_some() ==> memo.unwrap().0 >= n,
        memo.is_none() ==> non_padding(s, padding, i, s.len() as int).len() == 0,
    ensures
        merge_side(s, padding, n, memo, pending),
{
    lemma_merge_gap(s, padding, i, memo, pending);
    lemma_non_padding_split(s, padding, i, n, s.len() as int);
    lemma_non_padding_none(s, padding, i, n);
}

impl<'a> PartialEq for SparseSlice<'a> {
    /// Whether the two slices hold the same elements, whatever the two
    /// padding values are.
    fn eq(&self, other: &Self) -> (r: bool) {
        if self.len() != other.len() {
            return false;
        }
        let len = self.len();
        let s_padding = *self.padding();
        let o_padding = *other.padding();
        let mut i: usize = 0;
        let mut s_reader = self.sparse_reader();
        let mut o_reader = other.sparse_reader();
        let mut s_memo: Option<(usize, i32)> = None;
        let mut o_memo: Option<(usize, i32)> = None;
        let ghost a = self@;
        let ghost b = other@;
        while i < len
            invariant
                a == self@,
                b == other@,
                a.len() == len,
                b.len() == len,
                i <= len,
                s_reader.inv(),
                o_reader.inv(),
                merge_side(a, s_padding, i as int, s_memo, s_reader@),
                merge_side(b, o_padding, i as int, o_memo, o_reader@),
                forall|j: int| 0 <= j < i ==> a[j] == b[j],
            decreases len - i,
        {
            s_memo = refresh(&mut s_reader, s_memo, i, Ghost(a), Ghost(s_padding));
            o_memo = refresh(&mut o_reader, o_memo, i, Ghost(b), Ghost(o_padding));
            proof {
                lemma_merge_gap(a, s_padding, i as int, s_memo, s_reader@);
                lemma_merge_gap(b, o_padding, i as int, o_memo, o_reader@);
            }
            let s_index = match s_memo {
                Some(m) => m.0,
                None => len,
            };
            let o_index = match o_memo {
                Some(m) => m.0,
                None => len,
            };
            let c_index = if s_index < o_index {
                s_index
            } else {
                o_index
            };
            if c_index > i && s_padding != o_padding {
                assert(a[i as int] != b[i as int]);
                return false;
            }
            if c_index < len {
                let s_value = match s_memo {
                    Some(m) => if m.0 == c_index {
                        m.1
                    } else {
                        s_padding
                    },
                    None => s_padding,
                };
                let o_value = match o_memo {
                    Some(m) => if m.0 == c_index {
                        m.1
                    } else {
                        o_padding
                    },
                    None => o_padding,
                };
                if s_value != o_value {
                    assert(a[c_index as int] != b[c_index as int]);
                    return false;
                }
                proof {
                    lemma_merge_advance(a, s_padding, i as int, c_index as int, s_memo, s_reader@);
                    lemma_merge_advance(b, o_padding, i as int, c_index as int, o_memo, o_reader@);
                }
                i = c_index + 1;
            } else {
                proof {
                    lemma_merge_advance_all(a, s_padding, i as int, len as int, s_memo, s_reader@);
                    lemma_merge_advance_all(b, o_padding, i as int, len as int, o_memo, o_reader@);
                }
                i = len;
            }
        }
        assert(a =~= b);
        true
    }
}

impl<'a> Eq for SparseSlice<'a> {

}

impl<'a> PartialEqSpecImpl for SparseSlice<'a> {
    open spec fn obeys_eq_spec() -> bool {
        true
    }

    open spec fn eq_spec(&self, other: &Self) -> bool {
        self@ == other@
    }
}

} // verus!
