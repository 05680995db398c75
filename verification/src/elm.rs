//! The items that the sparse reader and the sparse writer hand out.

use vstd::prelude::*;

verus! {

/// A non-padding element as the sparse reader hands it out: its index and a
/// reference to its value.
#[derive(Debug)]
pub struct ElmReader<'a> {
    index: usize,
    value: &'a i32,
}

impl<'a> ElmReader<'a> {
    /// The index of the element.
    pub closed spec fn spec_index(&self) -> usize {
        self.index
    }

    /// The value of the element.
    pub closed spec fn spec_value(&self) -> i32 {
        *self.value
    }

    pub(crate) fn new(index: usize, value: &'a i32) -> (e: Self)
        ensures
            e.spec_index() == index,
            e.spec_value() == *value,
    {
        ElmReader { index, value }
    }

    /// The index of the element.
    pub fn index(&self) -> (i: usize)
        ensures
            i == self.spec_index(),
    {
        self.index
    }

    /// The value of the element.
    pub fn value(&self) -> (v: &'a i32)
        ensures
            *v == self.spec_value(),
    {
        self.value
    }
}

/// A non-padding element as the sparse writer hands it out: its index and a
/// mutable reference to its value.
#[derive(Debug)]
pub struct ElmWriter<'a> {
    pub index: usize,
    pub value: &'a mut i32,
}

impl<'a> ElmWriter<'a> {
    pub(crate) fn new(index: usize, value: &'a mut i32) -> (e: Self)
        ensures
            e.index == index,
            *e.value == *old(value),
            *final(e.value) == *final(value),
    {
        ElmWriter { index, value }
    }

    /// The index of the element.
    pub fn index(&self) -> (i: usize)
        ensures
            i == self.index,
    {
        self.index
    }

    /// The value of the element.
    pub fn value(&self) -> (v: &i32)
        ensures
            *v == *old(self.value),
    {
        &*self.value
    }

    /// The value of the element, to be changed in place.
    pub fn value_mut(&mut self) -> (v: &mut i32)
        ensures
            *v == *old(self).value,
            *final(self).value == *final(v),
            final(self).index == old(self).index,
            *final(final(self).value) == *final(old(self).value),
    {
        &mut *self.value
    }
}

} // verus!
