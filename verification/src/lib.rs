//! A vector for sparse values.
//!
//! A [`SparseVec`] behaves like a dense vector of `i32`, but stores only
//! the elements that differ from its padding value, in an ordered map from
//! index to value. It pays off where most elements hold the same value.
//!
//! Every function states in its contract what it does to the dense
//! sequence that the vector stands for, and Verus proves it.

pub mod elm;
pub mod hashing;
pub mod into_iter;
pub mod iter;
pub mod laws;
pub mod model;
pub mod msg;
pub mod ordering;
pub mod padding;
pub mod sparse_reader;
pub mod sparse_slice;
pub mod sparse_slice_mut;
pub mod sparse_vec;
pub mod sparse_writer;
pub mod splice;
pub mod store;
pub mod util;
pub mod value_editor;

pub use elm::{ElmReader, ElmWriter};
pub use into_iter::IntoIter;
pub use iter::Iter;
pub use model::Order;
pub use padding::Padding;
pub use sparse_reader::SparseReader;
pub use sparse_slice::SparseSlice;
pub use sparse_slice_mut::SparseSliceMut;
pub use sparse_vec::SparseVec;
pub use sparse_writer::SparseWriter;
pub use splice::Splice;
pub use util::{IndexBound, RangeFault};
pub use value_editor::ValueEditor;
