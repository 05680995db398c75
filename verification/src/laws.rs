//! What holds of the library as a whole.
//!
//! Each law is stated over the views and spec functions that the contracts
//! of the functions speak of, and proved from them.

use crate::model::{
    lemma_lex_order_equal, lemma_non_padding_agree, lemma_non_padding_items,
    lemma_non_padding_none, lemma_non_padding_split, lex_order, non_padding, runs_of, sparse_of,
    spliced, Order,
};
use crate::sparse_vec::SparseVec;
use vstd::prelude::*;
use vstd::std_specs::cmp::PartialEqSpec;

verus! {

/// Round trip: where `sparse` holds the elements of the dense vector
/// `dense`, as `SparseVec::from` makes it, and `back` holds the elements
/// of `sparse`, as `SparseVec::to_vec` makes it, `back` equals `dense`.
pub proof fn law_round_trip(dense: Seq<i32>, sparse: SparseVec, back: Seq<i32>)
    requires
        sparse@ == dense,
        back == sparse@,
    ensures
        back == dense,
{
}

/// The dense sequence can be read off its non-padding elements: an index
/// that one of them carries holds its value, every other index holds the
/// padding.
pub proof fn law_sparse_determines_dense(s: Seq<i32>, padding: i32, i: int)
    requires
        0 <= i < s.len() <= usize::MAX,
    ensures
        s[i] != padding ==> exists|j: int|
            0 <= j < sparse_of(s, padding).len() && #[trigger] sparse_of(s, padding)[j] == (
                i as usize,
                s[i],
            ),
        s[i] == padding ==> forall|j: int|
            0 <= j < sparse_of(s, padding).len() ==> (#[trigger] sparse_of(s, padding)[j]).0 != i,
{
    let len = s.len() as int;
    lemma_non_padding_items(s, padding, 0, len);
    if s[i] != padding {
        lemma_non_padding_split(s, padding, 0, i, len);
        let head = non_padding(s, padding, 0, i);
        let tail = non_padding(s, padding, i, len);
        assert(tail[0] == (i as usize, s[i]));
        assert(sparse_of(s, padding)[head.len() as int] == tail[0]);
    }
}

/// Indexing agrees with the dense vector: where `dense` holds the elements
/// of `sparse`, as `to_vec` makes it, and `value` is what `index` returns
/// for `i`, `value` is the element of `dense` at `i`.
pub proof fn law_index_agrees(sparse: SparseVec, dense: Seq<i32>, i: int, value: i32)
    requires
        0 <= i < sparse@.len(),
        dense == sparse@,
        value == sparse@[i],
    ensures
        value == dense[i],
{
}

/// What a double-ended iterator over `s` has handed out and has left after
/// the steps `from_front`, each of which takes the first remaining value
/// where it is `true` and the last one where it is `false`, and takes
/// nothing once nothing is left: the values taken at the front in the order
/// taken, those taken at the back in the order taken, and the rest.
pub open spec fn drained(s: Seq<i32>, from_front: Seq<bool>) -> (Seq<i32>, Seq<i32>, Seq<i32>)
    decreases from_front.len(),
{
    if from_front.len() == 0 {
        (Seq::empty(), Seq::empty(), s)
    } else {
        let before = drained(s, from_front.drop_last());
        if before.2.len() == 0 {
            before
        } else if from_front.last() {
            (before.0.push(before.2.first()), before.1, before.2.drop_first())
        } else {
            (before.0, before.1.push(before.2.last()), before.2.drop_last())
        }
    }
}

/// The two ends of an iterator agree: however steps at the front and steps
/// at the back follow each other, what was handed out at the front, what is
/// left, and what was handed out at the back, read backwards, make up the
/// sequence. So a sequence collected from the front equals the sequence
/// collected from the back and reversed.
pub proof fn law_iterator_ends_agree(s: Seq<i32>, from_front: Seq<bool>)
    ensures
        drained(s, from_front).0 + drained(s, from_front).2 + drained(
            s,
            from_front,
        ).1.reverse() == s,
        from_front.len() >= s.len() ==> drained(s, from_front).2.len() == 0,
    decreases from_front.len(),
{
    let now = drained(s, from_front);
    if from_front.len() == 0 {
        assert(now.0 + now.2 + now.1.reverse() =~= s);
    } else {
        law_iterator_ends_agree(s, from_front.drop_last());
        lemma_drained_len(s, from_front.drop_last());
        lemma_drained_len(s, from_front);
        let before = drained(s, from_front.drop_last());
        assert(now.0 + now.2 + now.1.reverse() =~= before.0 + before.2 + before.1.reverse());
    }
}

/// Each step of a drain that finds something left takes one value.
pub proof fn lemma_drained_len(s: Seq<i32>, from_front: Seq<bool>)
    ensures
        drained(s, from_front).2.len() == if from_front.len() <= s.len() {
            s.len() - from_front.len()
        } else {
            0
        },
    decreases from_front.len(),
{
    if from_front.len() > 0 {
        lemma_drained_len(s, from_front.drop_last());
    }
}

/// Writing through the sparse writer: a non-padding element that gets the
/// value it had leaves the non-padding elements as they were; one that gets
/// the padding is no longer among them, and they are one fewer.
pub proof fn law_sparse_write_back(s: Seq<i32>, padding: i32, k: int)
    requires
        0 <= k < s.len() <= usize::MAX,
        s[k] != padding,
    ensures
        sparse_of(s.update(k, s[k]), padding) == sparse_of(s, padding),
        sparse_of(s.update(k, padding), padding).len() == sparse_of(s, padding).len() - 1,
        forall|j: int|
            0 <= j < sparse_of(s.update(k, padding), padding).len() ==> (#[trigger] sparse_of(
                s.update(k, padding),
                padding,
            )[j]).0 != k,
{
    let len = s.len() as int;
    let t = s.update(k, padding);
    assert(s.update(k, s[k]) =~= s);
    lemma_non_padding_split(s, padding, 0, k, len);
    lemma_non_padding_split(s, padding, k, k + 1, len);
    lemma_non_padding_split(t, padding, 0, k, len);
    lemma_non_padding_split(t, padding, k, k + 1, len);
    lemma_non_padding_agree(s, t, padding, 0, k);
    lemma_non_padding_agree(s, t, padding, k + 1, len);
    lemma_non_padding_none(t, padding, k, k + 1);
    assert(non_padding(s, padding, k + 1, k + 1) =~= Seq::empty());
    assert(non_padding(s, padding, k, k + 1) =~= seq![(k as usize, s[k])]);
    lemma_non_padding_items(t, padding, 0, len);
}

/// A splice replaces the range and nothing else: the result has the
/// elements before the range, then the new elements, then the elements
/// behind the range, and the removed elements are those of the range.
pub proof fn law_splice(s: Seq<i32>, start: int, end: int, items: Seq<i32>, i: int)
    requires
        0 <= start <= end <= s.len(),
        0 <= i < s.len() - (end - start) + items.len(),
    ensures
        spliced(s, start, end, items).len() == s.len() - (end - start) + items.len(),
        spliced(s, start, end, items)[i] == if i < start {
            s[i]
        } else if i < start + items.len() {
            items[i - start]
        } else {
            s[i - items.len() + (end - start)]
        },
{
}

/// Equality, order and hashing do not depend on the padding values: two
/// vectors with the same elements are equal, stand in the order `Equal`,
/// and consist of the same runs, whatever their padding values are.
pub proof fn law_padding_independence(a: SparseVec, b: SparseVec)
    requires
        a@ == b@,
    ensures
        a.eq_spec(&b),
        lex_order(a@, b@) == Order::Equal,
        runs_of(a@) == runs_of(b@),
{
    lemma_lex_order_equal(a@, b@);
}

/// Equality and order agree: two vectors are equal exactly when they stand
/// in the order `Equal`.
pub proof fn law_equal_is_order_equal(a: SparseVec, b: SparseVec)
    ensures
        a.eq_spec(&b) == (lex_order(a@, b@) == Order::Equal),
{
    lemma_lex_order_equal(a@, b@);
}

} // verus!
