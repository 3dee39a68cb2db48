//! The static weight of a profile rule.

use vstd::prelude::*;

verus! {

/// A non-zero rule weight from the profile registry.
#[derive(Debug, Clone, Copy, PartialEq, Eq, PartialOrd, Ord)]
pub struct StaticProfileWeight(u16);

impl StaticProfileWeight {
    #[verifier::type_invariant]
    spec fn inv(self) -> bool {
        self.0 != 0
    }

    pub closed spec fn value(self) -> u16 {
        self.0
    }

    /// A weight for a non-zero registry value.
    pub fn from_registry_value(value: u16) -> (r: Option<Self>)
        ensures
            value == 0 ==> r is None,
            value != 0 ==> (r matches Some(w) && w.value() == value),
    {
        if value == 0 {
            None
        } else {
            Some(StaticProfileWeight(value))
        }
    }

    pub fn get(self) -> (r: u32)
        ensures
            r == self.value(),
            r > 0,
    {
        proof { use_type_invariant(&self); }
        self.0 as u32
    }
}

} // verus!
