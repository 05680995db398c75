//! The padding value of a sparse vector and the way it is duplicated.

use vstd::prelude::*;

verus! {

/// Returns the default value, whatever the argument: a stand-in for a copy
/// where the padding is the default value.
pub fn default_like_clone(_x: &i32) -> (r: i32)
    ensures
        r == 0,
{
    0
}

/// The padding value together with the way a fresh copy of it is made:
/// either by building the default value again, or by copying the value.
#[derive(Debug)]
pub struct Padding {
    value: i32,
    by_default: bool,
}

impl Padding {
    #[verifier::type_invariant]
    spec fn wf(&self) -> bool {
        self.by_default ==> self.value == 0
    }

    /// The padding value.
    pub closed spec fn spec_value(&self) -> i32 {
        self.value
    }

    /// Whether copies are made by building the default value.
    pub closed spec fn spec_by_default(&self) -> bool {
        self.by_default
    }

    /// The default value as padding; copies are built as defaults.
    pub fn by_default() -> (p: Self)
        ensures
            p.spec_value() == 0,
            p.spec_by_default(),
    {
        Padding { value: 0, by_default: true }
    }

    /// `value` as padding; copies are copies of it.
    pub fn by_clone(value: i32) -> (p: Self)
        ensures
            p.spec_value() == value,
            !p.spec_by_default(),
    {
        Padding { value, by_default: false }
    }

    /// A reference to the padding value.
    pub fn refs(&self) -> (r: &i32)
        ensures
            *r == self.spec_value(),
    {
        &self.value
    }

    /// A fresh copy of the padding value.
    pub fn value(&self) -> (r: i32)
        ensures
            r == self.spec_value(),
    {
        proof {
            use_type_invariant(self);
        }
        if self.by_default {
            default_like_clone(&self.value)
        } else {
            self.value
        }
    }
}

impl Clone for Padding {
    fn clone(&self) -> (r: Self)
        ensures
            r.spec_value() == self.spec_value(),
            r.spec_by_default() == self.spec_by_default(),
    {
        proof {
            use_type_invariant(self);
        }
        Padding { value: self.value, by_default: self.by_default }
    }
}

} // verus!
