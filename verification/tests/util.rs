use sparse_vector::msg::{decimal, range_end_gt_len, range_order_rev};
use sparse_vector::padding::default_like_clone;
use sparse_vector::util::{check_range, normalize_range};
use sparse_vector::{IndexBound, Padding, RangeFault, SparseVec};
use std::hash::{DefaultHasher, Hash, Hasher};

#[test]
fn decimal_numerals() {
    assert_eq!(decimal(0), "0");
    assert_eq!(decimal(7), "7");
    assert_eq!(decimal(10), "10");
    assert_eq!(decimal(1234567890), "1234567890");
    assert_eq!(decimal(usize::MAX), usize::MAX.to_string());
}

#[test]
fn range_messages() {
    assert_eq!(range_end_gt_len(7, 5), "Range end 7 is greater than length 5.");
    assert_eq!(range_order_rev(4, 3), "Range start 4 is greater than range end 3.");
}

#[test]
fn check_range_accepts() {
    let all = check_range(IndexBound::Unbounded, IndexBound::Unbounded, 5);
    assert_eq!(all, Ok(0..5));
    let part = check_range(IndexBound::Included(1), IndexBound::Excluded(4), 5);
    assert_eq!(part, Ok(1..4));
    let closed = check_range(IndexBound::Excluded(1), IndexBound::Included(4), 5);
    assert_eq!(closed, Ok(2..5));
    let empty = check_range(IndexBound::Included(5), IndexBound::Excluded(5), 5);
    assert_eq!(empty, Ok(5..5));
}

#[test]
fn check_range_refuses() {
    let reversed = check_range(IndexBound::Included(4), IndexBound::Excluded(3), 5);
    assert_eq!(reversed, Err(RangeFault::OrderReversed { start: 4, end: 3 }));
    let fault = reversed.unwrap_err();
    assert_eq!(fault.message(), "Range start 4 is greater than range end 3.");

    let long = check_range(IndexBound::Included(1), IndexBound::Included(5), 5);
    assert_eq!(long, Err(RangeFault::EndPastLength { end: 6, len: 5 }));
    let fault = long.unwrap_err();
    assert_eq!(fault.message(), "Range end 6 is greater than length 5.");

    // A reversed range that is too long as well is named reversed.
    let both = check_range(IndexBound::Included(9), IndexBound::Excluded(7), 5);
    assert_eq!(both, Err(RangeFault::OrderReversed { start: 9, end: 7 }));

    let over = check_range(IndexBound::Excluded(usize::MAX), IndexBound::Unbounded, 5);
    assert_eq!(over, Err(RangeFault::Overflow));
    let over = check_range(IndexBound::Unbounded, IndexBound::Included(usize::MAX), 5);
    assert_eq!(over, Err(RangeFault::Overflow));
    let fault = over.unwrap_err();
    assert_eq!(fault.message(), "Range bound is greater than the largest index.");
}

#[test]
fn normalize_range_values() {
    assert_eq!(normalize_range(IndexBound::Unbounded, IndexBound::Unbounded, 9), 0..9);
    assert_eq!(normalize_range(IndexBound::Excluded(2), IndexBound::Included(6), 9), 3..7);
    assert_eq!(normalize_range(IndexBound::Included(2), IndexBound::Excluded(2), 9), 2..2);
}

#[test]
fn padding_values() {
    let by_default = Padding::by_default();
    assert_eq!(*by_default.refs(), 0);
    assert_eq!(by_default.value(), 0);

    let by_clone = Padding::by_clone(42);
    assert_eq!(*by_clone.refs(), 42);
    assert_eq!(by_clone.value(), 42);
    assert_eq!(by_clone.clone().value(), 42);

    assert_eq!(default_like_clone(&7), 0);
}

#[test]
fn round_trip() {
    for dense in [vec![], vec![0], vec![5], vec![0, 0, 0], vec![1, 0, 3, 0, 5], vec![-1, i32::MAX, 0, i32::MIN]] {
        let sparse = SparseVec::from(dense.clone());
        assert_eq!(sparse.to_vec(), dense);
        assert_eq!(sparse.len(), dense.len());
        assert_eq!(sparse.nnp(), dense.iter().filter(|x| **x != 0).count());
        for (i, value) in dense.iter().enumerate() {
            assert_eq!(sparse.index(i), value);
        }
    }
}

#[test]
fn equal_whatever_the_padding() {
    let dense = [0, 1, 0, 0, 2];
    let mut x = SparseVec::with_padding(0, 0);
    let mut y = SparseVec::with_padding(0, 1);
    let mut z = SparseVec::with_padding(0, 9);
    x.extend(&dense);
    y.extend(&dense);
    z.extend(&dense);
    assert_eq!(x.nnp(), 2);
    assert_eq!(y.nnp(), 4);
    assert_eq!(z.nnp(), 5);
    assert!(x == y);
    assert!(y == z);
    assert_eq!(x.partial_cmp(&z), Some(std::cmp::Ordering::Equal));
    assert_eq!(x.hash_runs(), z.hash_runs());
    assert_eq!(x.hash_runs(), vec![(0, 1), (1, 1), (0, 2), (2, 1)]);

    z.push(0);
    assert!(x != z);
    assert_eq!(x.cmp(&z), std::cmp::Ordering::Less);
    assert_eq!(z.cmp(&x), std::cmp::Ordering::Greater);
}

#[test]
fn clear_and_clone() {
    let mut x = SparseVec::from(vec![1, 0, 3]);
    let y = x.clone();
    x.clear();
    assert!(x.is_empty());
    assert_eq!(x.nnp(), 0);
    assert_eq!(y.to_vec(), vec![1, 0, 3]);
    assert_eq!(*x.padding(), 0);
}

#[test]
fn hash_feeds_the_runs() {
    let mut x = SparseVec::with_padding(0, 7);
    x.extend(&[7, 7, 0, 3, 3, 3]);

    let hasher = &mut DefaultHasher::new();
    x.hash(hasher);
    let result = hasher.finish();

    let hasher = &mut DefaultHasher::new();
    (7i32, 2usize).hash(hasher);
    (0i32, 1usize).hash(hasher);
    (3i32, 3usize).hash(hasher);
    assert_eq!(result, hasher.finish());

    let hasher = &mut DefaultHasher::new();
    x.slice(1..4).hash(hasher);
    let result = hasher.finish();

    let hasher = &mut DefaultHasher::new();
    (7i32, 1usize).hash(hasher);
    (0i32, 1usize).hash(hasher);
    (3i32, 1usize).hash(hasher);
    assert_eq!(result, hasher.finish());

    let hasher_x = &mut DefaultHasher::new();
    let hasher_y = &mut DefaultHasher::new();
    SparseVec::from(vec![1, 0]).hash(hasher_x);
    SparseVec::from(vec![0, 1]).hash(hasher_y);
    assert_ne!(hasher_x.finish(), hasher_y.finish());
}
