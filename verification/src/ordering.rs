//! The order of sparse vectors and slices, as the standard library names it.

use crate::model::{lex_order, Order};
use crate::sparse_slice::SparseSlice;
use crate::sparse_slice_mut::SparseSliceMut;
use crate::sparse_vec::SparseVec;
use core::cmp::Ordering;
use vstd::prelude::*;
use vstd::std_specs::cmp::PartialOrdSpecImpl;

verus! {

/// The standard library's name for an order.
pub open spec fn ordering_of(o: Order) -> Ordering {
    match o {
        Order::Less => Ordering::Less,
        Order::Equal => Ordering::Equal,
        Order::Greater => Ordering::Greater,
    }
}

/// The standard library's name for an order.
pub fn to_ordering(o: Order) -> (r: Ordering)
    ensures
        r == ordering_of(o),
{
    match o {
        Order::Less => Ordering::Less,
        Order::Equal => Ordering::Equal,
        Order::Greater => Ordering::Greater,
    }
}

impl<'a> PartialOrd for SparseSlice<'a> {
    /// How the slice stands to `other` in lexicographic order of their
    /// elements: always some order, and a shorter slice is less than a
    /// longer one that starts with it.
    fn partial_cmp(&self, other: &Self) -> (r: Option<Ordering>) {
        Some(to_ordering(self.order_with(other)))
    }
}

impl<'a> PartialOrdSpecImpl for SparseSlice<'a> {
    open spec fn obeys_partial_cmp_spec() -> bool {
        true
    }

    open spec fn partial_cmp_spec(&self, other: &Self) -> Option<Ordering> {
        Some(ordering_of(lex_order(self@, other@)))
    }
}

impl<'a> SparseSlice<'a> {
    /// How the slice stands to `other` in lexicographic order of their elements.
    pub fn cmp(&self, other: &SparseSlice<'_>) -> (r: Ordering)
        ensures
            r == ordering_of(lex_order(self@, other@)),
    {
        to_ordering(self.order_with(other))
    }
}

impl PartialOrd for SparseVec {
    /// How the vector stands to `other` in lexicographic order of their
    /// elements: always some order, and a shorter vector is less than a
    /// longer one that starts with it.
    fn partial_cmp(&self, other: &Self) -> (r: Option<Ordering>) {
        Some(to_ordering(self.order_with(other)))
    }
}

impl PartialOrdSpecImpl for SparseVec {
    open spec fn obeys_partial_cmp_spec() -> bool {
        true
    }

    open spec fn partial_cmp_spec(&self, other: &Self) -> Option<Ordering> {
        Some(ordering_of(lex_order(self@, other@)))
    }
}

impl SparseVec {
    /// How the vector stands to `other` in lexicographic order of their elements.
    pub fn cmp(&self, other: &SparseVec) -> (r: Ordering)
        ensures
            r == ordering_of(lex_order(self@, other@)),
    {
        to_ordering(self.order_with(other))
    }
}

impl<'a> SparseSliceMut<'a> {
    /// How the slice stands to `other` in lexicographic order of their
    /// elements: always some order.
    pub fn partial_cmp(&self, other: &SparseSliceMut<'_>) -> (r: Option<Ordering>)
        requires
            self.inv(),
            other.inv(),
        ensures
            r == Some(ordering_of(lex_order(self@, other@))),
    {
        Some(to_ordering(self.order_with(other)))
    }

    /// How the slice stands to `other` in lexicographic order of their elements.
    pub fn cmp(&self, other: &SparseSliceMut<'_>) -> (r: Ordering)
        requires
            self.inv(),
            other.inv(),
        ensures
            r == ordering_of(lex_order(self@, other@)),
    {
        to_ordering(self.order_with(other))
    }
}

} // verus!
