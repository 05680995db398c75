//! Hashing of sparse vectors and slices.
//!
//! What is hashed is the sequence of runs of equal values, so two vectors
//! with the same elements feed a hasher the same, whatever their padding
//! values are and whatever they store.

use crate::sparse_slice::SparseSlice;
use crate::sparse_slice_mut::SparseSliceMut;
use crate::sparse_vec::SparseVec;
use core::hash::{Hash, Hasher};
use vstd::prelude::*;

verus! {

/// `Hash::hash` of the pair of a value and a run length: feeds the pair to
/// the hasher. Of the state of the hasher nothing is claimed.
#[verifier::external_body]
fn feed_run<H: Hasher>(state: &mut H, value: i32, count: usize) {
    (value, count).hash(state)
}

/// Feeds `runs` to the hasher, run by run.
pub(crate) fn feed_runs<H: Hasher>(runs: &Vec<(i32, usize)>, state: &mut H) {
    let mut i: usize = 0;
    while i < runs.len()
        invariant
            i <= runs@.len(),
        decreases runs@.len() - i,
    {
        let run = runs[i];
        feed_run(state, run.0, run.1);
        i += 1;
    }
}

impl<'a> Hash for SparseSlice<'a> {
    /// Feeds the runs of the slice to the hasher.
    fn hash<H: Hasher>(&self, state: &mut H) {
        let runs = self.hash_runs();
        feed_runs(&runs, state);
    }
}

impl Hash for SparseVec {
    /// Feeds the runs of the vector to the hasher.
    fn hash<H: Hasher>(&self, state: &mut H) {
        let runs = self.hash_runs();
        feed_runs(&runs, state);
    }
}

impl<'a> SparseSliceMut<'a> {
    /// Feeds the runs of the slice to the hasher.
    pub fn hash<H: Hasher>(&self, state: &mut H)
        requires
            self.inv(),
    {
        let runs = self.hash_runs();
        feed_runs(&runs, state);
    }
}

} // verus!
