//! The editor of one element of a sparse vector.

use crate::sparse_vec::SparseVec;
use vstd::prelude::*;

verus! {

/// A handle on one element of a sparse vector, to read it and to change it.
///
/// Nothing is copied before the first write. A write goes to a working copy
/// inside the editor; [`ValueEditor::commit`] carries it over to the vector,
/// where a value equal to the padding is not stored. An editor that is
/// dropped without `commit` leaves the vector as it was.
#[derive(Debug)]
pub struct ValueEditor<'a> {
    /// The vector that is edited.
    pub vec: &'a mut SparseVec,
    /// The index of the element.
    pub index: usize,
    /// The working copy, once the element has been written to.
    pub new_value: Option<i32>,
}

impl<'a> ValueEditor<'a> {
    /// What holds of every editor that the library hands out: its index
    /// lies inside its vector.
    pub open spec fn inv(&self) -> bool {
        self.index < self.vec@.len()
    }

    /// The value of the element as the editor shows it: the working copy
    /// where there is one, else what the vector holds.
    pub open spec fn value(&self) -> i32 {
        match self.new_value {
            Some(v) => v,
            None => self.vec@[self.index as int],
        }
    }

    /// An editor of the element of `vec` at `index`.
    pub(crate) fn new(vec: &'a mut SparseVec, index: usize) -> (ed: Self)
        requires
            index < old(vec)@.len(),
        ensures
            ed.inv(),
            *ed.vec == *old(vec),
            *final(ed.vec) == *final(vec),
            ed.index == index,
            ed.new_value.is_none(),
    {
        ValueEditor { vec, index, new_value: None }
    }

    /// The value of the element; nothing is copied for it.
    pub fn deref(&self) -> (r: &i32)
        requires
            self.inv(),
        ensures
            *r == self.value(),
    {
        match &self.new_value {
            Some(v) => v,
            None => self.vec.index(self.index),
        }
    }

    /// The value of the element, to be changed in place. The first call
    /// makes the working copy.
    pub fn deref_mut(&mut self) -> (r: &mut i32)
        requires
            old(self).inv(),
        ensures
            *r == old(self).value(),
            final(self).new_value == Some(*final(r)),
            final(self).index == old(self).index,
            *final(self).vec == *old(self).vec,
            *final(final(self).vec) == *final(old(self).vec),
    {
        if self.new_value.is_none() {
            let current = *self.vec.index(self.index);
            self.new_value = Some(current);
        }
        self.new_value.as_mut().unwrap()
    }

    /// Makes `value` the value of the element.
    pub fn set(&mut self, value: i32)
        ensures
            final(self).new_value == Some(value),
            final(self).index == old(self).index,
            *final(self).vec == *old(self).vec,
            *final(final(self).vec) == *final(old(self).vec),
    {
        self.new_value = Some(value);
    }

    /// Carries the value over to the vector: a written value that differs
    /// from the padding is stored, one that equals it leaves no entry, and
    /// without a write nothing changes.
    pub fn commit(self)
        requires
            self.inv(),
        ensures
            final(self.vec)@ == old(self.vec)@.update(self.index as int, self.value()),
            final(self.vec).spec_padding() == old(self.vec).spec_padding(),
    {
        match self.new_value {
            None => {
                assert(self.vec@ =~= self.vec@.update(self.index as int, self.vec@[self.index as int]));
            },
            Some(v) => {
                if v != *self.vec.padding() {
                    self.vec.put(self.index, v);
                } else {
                    let _ = self.vec.unset(self.index);
                }
            },
        }
    }
}

} // verus!
