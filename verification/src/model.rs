//! The mathematical model of a sparse vector.
//!
//! A sparse vector denotes a dense sequence of values together with a
//! padding value. Everything the library promises is stated over that
//! sequence: which of its elements differ from the padding, how two
//! sequences compare, and how a sequence splits into runs of equal values.

use vstd::prelude::*;

verus! {

/// The sequence of `n` copies of `value`.
pub open spec fn repeat(value: i32, n: nat) -> Seq<i32> {
    Seq::new(n, |i: int| value)
}

/// The elements of `s` at the indices `lo <= i < hi` that differ from
/// `padding`, each with its index, by ascending index.
pub open spec fn non_padding(s: Seq<i32>, padding: i32, lo: int, hi: int) -> Seq<(usize, i32)>
    decreases hi - lo,
{
    if lo >= hi {
        Seq::empty()
    } else if 0 <= lo < s.len() && lo <= usize::MAX && s[lo] != padding {
        seq![(lo as usize, s[lo])] + non_padding(s, padding, lo + 1, hi)
    } else {
        non_padding(s, padding, lo + 1, hi)
    }
}

/// The elements of `s` that differ from `padding`, each with its index.
pub open spec fn sparse_of(s: Seq<i32>, padding: i32) -> Seq<(usize, i32)> {
    non_padding(s, padding, 0, s.len() as int)
}

/// Every element of `s` equals `padding`.
pub open spec fn all_padding(s: Seq<i32>, padding: i32) -> bool {
    forall|i: int| 0 <= i < s.len() ==> s[i] == padding
}

/// `items` with every index lowered by `offset`.
pub open spec fn lowered(items: Seq<(usize, i32)>, offset: int) -> Seq<(usize, i32)> {
    Seq::new(items.len(), |j: int| ((items[j].0 - offset) as usize, items[j].1))
}

/// The result of replacing the elements `start <= i < end` of `s` by `items`.
pub open spec fn spliced(s: Seq<i32>, start: int, end: int, items: Seq<i32>) -> Seq<i32> {
    s.subrange(0, start) + items + s.subrange(end, s.len() as int)
}

/// Splitting a window in two splits its non-padding elements in two.
pub proof fn lemma_non_padding_split(s: Seq<i32>, padding: i32, lo: int, mid: int, hi: int)
    requires
        lo <= mid <= hi,
    ensures
        non_padding(s, padding, lo, hi) =~= non_padding(s, padding, lo, mid) + non_padding(
            s,
            padding,
            mid,
            hi,
        ),
    decreases mid - lo,
{
    if lo < mid {
        lemma_non_padding_split(s, padding, lo + 1, mid, hi);
    }
}

/// Each non-padding element of a window lies in the window and in the
/// sequence, carries the value found there, and that value is not the
/// padding; the indices ascend strictly.
pub proof fn lemma_non_padding_items(s: Seq<i32>, padding: i32, lo: int, hi: int)
    requires
        0 <= lo,
    ensures
        non_padding(s, padding, lo, hi).len() <= if hi > lo {
            hi - lo
        } else {
            0
        },
        forall|j: int|
            0 <= j < non_padding(s, padding, lo, hi).len() ==> {
                let item = #[trigger] non_padding(s, padding, lo, hi)[j];
                &&& lo <= item.0 < hi
                &&& item.0 < s.len()
                &&& item.1 == s[item.0 as int]
                &&& item.1 != padding
            },
        forall|j: int, k: int|
            0 <= j < k < non_padding(s, padding, lo, hi).len() ==> (#[trigger] non_padding(
                s,
                padding,
                lo,
                hi,
            )[j]).0 < (#[trigger] non_padding(s, padding, lo, hi)[k]).0,
    decreases hi - lo,
{
    if lo < hi {
        lemma_non_padding_items(s, padding, lo + 1, hi);
    }
}

/// A window whose elements all equal the padding has no non-padding element.
pub proof fn lemma_non_padding_none(s: Seq<i32>, padding: i32, lo: int, hi: int)
    requires
        forall|i: int| lo <= i < hi && 0 <= i < s.len() ==> s[i] == padding,
    ensures
        non_padding(s, padding, lo, hi) =~= Seq::empty(),
    decreases hi - lo,
{
    if lo < hi {
        lemma_non_padding_none(s, padding, lo + 1, hi);
    }
}

/// A window without non-padding elements holds nothing but padding.
pub proof fn lemma_non_padding_empty(s: Seq<i32>, padding: i32, lo: int, hi: int)
    requires
        0 <= lo,
        hi <= s.len(),
        hi <= usize::MAX + 1,
        non_padding(s, padding, lo, hi).len() == 0,
    ensures
        forall|i: int| lo <= i < hi ==> s[i] == padding,
    decreases hi - lo,
{
    if lo < hi {
        lemma_non_padding_empty(s, padding, lo + 1, hi);
    }
}

/// Two sequences that agree on a window have the same non-padding elements there.
pub proof fn lemma_non_padding_agree(
    s: Seq<i32>,
    t: Seq<i32>,
    padding: i32,
    lo: int,
    hi: int,
)
    requires
        0 <= lo,
        hi <= s.len(),
        hi <= t.len(),
        forall|i: int| lo <= i < hi ==> s[i] == t[i],
    ensures
        non_padding(s, padding, lo, hi) =~= non_padding(t, padding, lo, hi),
    decreases hi - lo,
{
    if lo < hi {
        lemma_non_padding_agree(s, t, padding, lo + 1, hi);
    }
}

/// The first non-padding element of a window, if the window has one, sits
/// at the smallest index of the window whose value differs from the padding.
pub proof fn lemma_non_padding_first(s: Seq<i32>, padding: i32, lo: int, hi: int)
    requires
        0 <= lo,
        hi <= s.len(),
        non_padding(s, padding, lo, hi).len() > 0,
    ensures
        lo <= non_padding(s, padding, lo, hi)[0].0 < hi,
        forall|i: int| lo <= i < non_padding(s, padding, lo, hi)[0].0 ==> s[i] == padding,
        non_padding(s, padding, lo, hi).drop_first() =~= non_padding(
            s,
            padding,
            non_padding(s, padding, lo, hi)[0].0 + 1,
            hi,
        ),
    decreases hi - lo,
{
    if lo < hi {
        if lo <= usize::MAX && s[lo] != padding {
        } else {
            lemma_non_padding_first(s, padding, lo + 1, hi);
        }
    }
}

/// The last non-padding element of a window, if the window has one, sits
/// at the largest index of the window whose value differs from the padding.
pub proof fn lemma_non_padding_last(s: Seq<i32>, padding: i32, lo: int, hi: int)
    requires
        0 <= lo,
        hi <= s.len(),
        hi <= usize::MAX + 1,
        non_padding(s, padding, lo, hi).len() > 0,
    ensures
        lo <= non_padding(s, padding, lo, hi).last().0 < hi,
        forall|i: int| non_padding(s, padding, lo, hi).last().0 < i < hi ==> s[i] == padding,
        non_padding(s, padding, lo, hi).drop_last() =~= non_padding(
            s,
            padding,
            lo,
            non_padding(s, padding, lo, hi).last().0 as int,
        ),
    decreases hi - lo,
{
    let all = non_padding(s, padding, lo, hi);
    if lo < hi {
        lemma_non_padding_split(s, padding, lo, hi - 1, hi);
        let head = non_padding(s, padding, lo, hi - 1);
        let tail = non_padding(s, padding, hi - 1, hi);
        assert(non_padding(s, padding, hi, hi) =~= Seq::empty());
        if s[hi - 1] != padding {
            assert(tail =~= seq![((hi - 1) as usize, s[hi - 1])]);
            assert(all.drop_last() =~= head);
        } else {
            assert(tail =~= Seq::empty());
            assert(all =~= head);
            lemma_non_padding_last(s, padding, lo, hi - 1);
        }
    }
}

/// The non-padding elements of a part of a sequence are those of the
/// sequence in that window, with indices counted from the start of the part.
pub proof fn lemma_non_padding_subrange(
    s: Seq<i32>,
    padding: i32,
    start: int,
    end: int,
    lo: int,
    hi: int,
)
    requires
        0 <= start <= end <= s.len(),
        end <= usize::MAX,
        0 <= lo,
        hi <= end - start,
    ensures
        non_padding(s.subrange(start, end), padding, lo, hi) =~= lowered(
            non_padding(s, padding, start + lo, start + hi),
            start,
        ),
    decreases hi - lo,
{
    if lo < hi {
        lemma_non_padding_subrange(s, padding, start, end, lo + 1, hi);
        let part = s.subrange(start, end);
        assert(part[lo] == s[start + lo]);
        let rest = non_padding(s, padding, start + lo + 1, start + hi);
        if s[start + lo] != padding {
            let head = seq![((start + lo) as usize, s[start + lo])];
            assert(lowered(head + rest, start) =~= seq![(lo as usize, part[lo])] + lowered(
                rest,
                start,
            ));
        }
    }
}

/// How one value or sequence stands to another.
#[derive(Clone, Copy, Debug, PartialEq, Eq, Structural)]
pub enum Order {
    Less,
    Equal,
    Greater,
}

/// How the integer `x` stands to the integer `y`.
pub open spec fn order_of(x: int, y: int) -> Order {
    if x < y {
        Order::Less
    } else if x > y {
        Order::Greater
    } else {
        Order::Equal
    }
}

/// How `a` stands to `b` in lexicographic order, given that they agree
/// before index `i`: the first index from `i` on at which they differ
/// decides; where one ends before they differ, the shorter one is less.
pub open spec fn lex_order_from(a: Seq<i32>, b: Seq<i32>, i: int) -> Order
    decreases a.len() - i,
{
    if i < 0 || i >= a.len() || i >= b.len() {
        order_of(a.len() as int, b.len() as int)
    } else if a[i] != b[i] {
        order_of(a[i] as int, b[i] as int)
    } else {
        lex_order_from(a, b, i + 1)
    }
}

/// How `a` stands to `b` in lexicographic order.
pub open spec fn lex_order(a: Seq<i32>, b: Seq<i32>) -> Order {
    lex_order_from(a, b, 0)
}

/// Indices at which two sequences agree do not decide their order.
pub proof fn lemma_lex_order_skip(a: Seq<i32>, b: Seq<i32>, i: int, j: int)
    requires
        0 <= i <= j,
        j <= a.len(),
        j <= b.len(),
        forall|k: int| i <= k < j ==> a[k] == b[k],
    ensures
        lex_order_from(a, b, i) == lex_order_from(a, b, j),
    decreases j - i,
{
    if i < j {
        lemma_lex_order_skip(a, b, i + 1, j);
    }
}

/// Two sequences are in the order `Equal` exactly when they are equal.
pub proof fn lemma_lex_order_equal(a: Seq<i32>, b: Seq<i32>)
    ensures
        (lex_order(a, b) == Order::Equal) == (a == b),
{
    if a == b {
        lemma_lex_order_skip(a, b, 0, a.len() as int);
    } else if lex_order(a, b) == Order::Equal {
        lemma_lex_order_differ(a, b, 0);
    }
}

/// Two sequences that agree before `i` and are in the order `Equal` from
/// `i` on are equal.
pub proof fn lemma_lex_order_differ(a: Seq<i32>, b: Seq<i32>, i: int)
    requires
        0 <= i,
        forall|k: int| 0 <= k < i && k < a.len() && k < b.len() ==> a[k] == b[k],
        lex_order_from(a, b, i) == Order::Equal,
    ensures
        a =~= b,
    decreases a.len() - i,
{
    if i < a.len() && i < b.len() {
        lemma_lex_order_differ(a, b, i + 1);
    }
}

/// The runs of equal values that `s` consists of, in order: each run is a
/// value and the number of times that it stands in a row, and neighbouring
/// runs hold different values.
pub open spec fn runs_of(s: Seq<i32>) -> Seq<(i32, usize)>
    decreases s.len(),
{
    if s.len() == 0 {
        Seq::empty()
    } else {
        let before = runs_of(s.drop_last());
        if before.len() > 0 && before.last().0 == s.last() {
            before.drop_last().push((s.last(), (before.last().1 + 1) as usize))
        } else {
            before.push((s.last(), 1usize))
        }
    }
}

/// The last run of a sequence that is not empty holds its last value and
/// is no longer than the sequence.
pub proof fn lemma_runs_of_last(s: Seq<i32>)
    requires
        0 < s.len() <= usize::MAX,
    ensures
        runs_of(s).len() > 0,
        runs_of(s).last().0 == s.last(),
        1 <= runs_of(s).last().1 <= s.len(),
    decreases s.len(),
{
    if s.len() > 1 {
        lemma_runs_of_last(s.drop_last());
    } else {
        assert(runs_of(s.drop_last()) =~= Seq::empty());
    }
}

/// Appending `n` copies of a value that the sequence does not end in
/// appends one run of length `n`.
pub proof fn lemma_runs_of_append(s: Seq<i32>, value: i32, n: nat)
    requires
        n > 0,
        s.len() + n <= usize::MAX,
        s.len() > 0 ==> s.last() != value,
    ensures
        runs_of(s + repeat(value, n)) =~= runs_of(s).push((value, n as usize)),
    decreases n,
{
    let t = s + repeat(value, n);
    if s.len() > 0 {
        lemma_runs_of_last(s);
    }
    if n == 1 {
        assert(t.drop_last() =~= s);
    } else {
        let shorter = s + repeat(value, (n - 1) as nat);
        assert(t.drop_last() =~= shorter);
        lemma_runs_of_append(s, value, (n - 1) as nat);
        assert(runs_of(shorter).last() == (value, (n - 1) as usize));
        assert(runs_of(shorter).drop_last() =~= runs_of(s));
    }
}

} // verus!
