//! Ranges of indices.

use crate::msg::{decimal_of, range_end_gt_len, range_order_rev};
use core::ops::Range;
use vstd::prelude::*;

verus! {

/// One end of a range of indices, as it is written.
#[derive(Clone, Copy, Debug, PartialEq, Eq, Structural)]
pub enum IndexBound {
    /// The index itself belongs to the range.
    Included(usize),
    /// The index itself does not belong to the range.
    Excluded(usize),
    /// The range is open at this end.
    Unbounded,
}

/// What is wrong with a range of indices.
#[derive(Clone, Copy, Debug, PartialEq, Eq, Structural)]
pub enum RangeFault {
    /// An end of the range lies behind the largest index there is.
    Overflow,
    /// The range starts behind its end.
    OrderReversed { start: usize, end: usize },
    /// The range ends behind the length.
    EndPastLength { end: usize, len: usize },
}

/// The first index of a range that starts as `bound` says.
pub open spec fn first_index(bound: IndexBound) -> int {
    match bound {
        IndexBound::Included(x) => x as int,
        IndexBound::Excluded(x) => x + 1,
        IndexBound::Unbounded => 0,
    }
}

/// The index behind the last one of a range that ends as `bound` says, in
/// a collection of `len` elements.
pub open spec fn end_index(bound: IndexBound, len: usize) -> int {
    match bound {
        IndexBound::Included(x) => x + 1,
        IndexBound::Excluded(x) => x as int,
        IndexBound::Unbounded => len as int,
    }
}

/// What is wrong with the range from `start` to `end` in a collection of
/// `len` elements, if anything: an end that overflows, else a start behind
/// the end, else an end behind the length.
pub open spec fn fault_of(start: IndexBound, end: IndexBound, len: usize) -> Option<RangeFault> {
    let s = first_index(start);
    let e = end_index(end, len);
    if s > usize::MAX || e > usize::MAX {
        Some(RangeFault::Overflow)
    } else if s > e {
        Some(RangeFault::OrderReversed { start: s as usize, end: e as usize })
    } else if e > len {
        Some(RangeFault::EndPastLength { end: e as usize, len })
    } else {
        None
    }
}

/// The range from `start` to `end` in a collection of `len` elements as a
/// half-open range of indices, or what is wrong with it.
pub fn check_range(start: IndexBound, end: IndexBound, len: usize) -> (r: Result<
    Range<usize>,
    RangeFault,
>)
    ensures
        match fault_of(start, end, len) {
            Some(fault) => r == Err::<Range<usize>, RangeFault>(fault),
            None => r.is_ok() && r.unwrap().start == first_index(start) && r.unwrap().end
                == end_index(end, len),
        },
{
    let s = match start {
        IndexBound::Included(x) => x,
        IndexBound::Excluded(x) => {
            if x == usize::MAX {
                return Err(RangeFault::Overflow);
            }
            x + 1
        },
        IndexBound::Unbounded => 0,
    };
    let e = match end {
        IndexBound::Included(x) => {
            if x == usize::MAX {
                return Err(RangeFault::Overflow);
            }
            x + 1
        },
        IndexBound::Excluded(x) => x,
        IndexBound::Unbounded => len,
    };
    if s > e {
        return Err(RangeFault::OrderReversed { start: s, end: e });
    }
    if e > len {
        return Err(RangeFault::EndPastLength { end: e, len });
    }
    Ok(s..e)
}

/// The range from `start` to `end` in a collection of `len` elements as a
/// half-open range of indices.
pub fn normalize_range(start: IndexBound, end: IndexBound, len: usize) -> (r: Range<usize>)
    requires
        first_index(start) <= end_index(end, len) <= len,
    ensures
        r.start == first_index(start),
        r.end == end_index(end, len),
{
    let s = match start {
        IndexBound::Included(x) => x,
        IndexBound::Excluded(x) => x + 1,
        IndexBound::Unbounded => 0,
    };
    let e = match end {
        IndexBound::Included(x) => x + 1,
        IndexBound::Excluded(x) => x,
        IndexBound::Unbounded => len,
    };
    s..e
}

impl RangeFault {
    /// The message that names the bound that does not fit.
    pub fn message(&self) -> (r: String)
        ensures
            r@ == match *self {
                RangeFault::Overflow => "Range bound is greater than the largest index."@,
                RangeFault::OrderReversed { start, end } => "Range start "@ + decimal_of(
                    start as nat,
                ) + " is greater than range end "@ + decimal_of(end as nat) + "."@,
                RangeFault::EndPastLength { end, len } => "Range end "@ + decimal_of(
                    end as nat,
                ) + " is greater than length "@ + decimal_of(len as nat) + "."@,
            },
    {
        match *self {
            RangeFault::Overflow => String::from_str("Range bound is greater than the largest index."),
            RangeFault::OrderReversed { start, end } => range_order_rev(start, end),
            RangeFault::EndPastLength { end, len } => range_end_gt_len(end, len),
        }
    }
}

} // verus!
